use codexmanager::background_tasks::{
    cron_expression_is_valid, set_background_tasks_settings, validate_background_tasks_settings_patch,
    BackgroundTasksSettings, BackgroundTasksSettingsPatch,
};

fn default_settings() -> BackgroundTasksSettings {
    BackgroundTasksSettings { warmup_cron_enabled: false, warmup_cron_expression: String::new() }
}

#[test]
fn validate_background_tasks_settings_rejects_invalid_warmup_cron_expression() {
    let settings = default_settings();
    let patch = BackgroundTasksSettingsPatch {
        warmup_cron_expression: Some("99 99 99 99 99".to_string()),
        ..BackgroundTasksSettingsPatch::default()
    };
    let err = validate_background_tasks_settings_patch(&settings, &patch)
        .expect_err("invalid cron should be rejected");

    assert!(!err.trim().is_empty());
}

#[test]
fn validate_background_tasks_settings_rejects_enabled_empty_warmup_cron_expression() {
    let settings = default_settings();
    let patch = BackgroundTasksSettingsPatch {
        warmup_cron_enabled: Some(true),
        warmup_cron_expression: Some("   ".to_string()),
        ..BackgroundTasksSettingsPatch::default()
    };
    let err = validate_background_tasks_settings_patch(&settings, &patch)
        .expect_err("enabled empty cron should be rejected");

    assert!(err.contains("required"));
}

#[test]
fn validate_background_tasks_settings_allows_disabling_existing_invalid_warmup_cron() {
    let mut settings = default_settings();
    set_background_tasks_settings(
        &mut settings,
        BackgroundTasksSettingsPatch {
            warmup_cron_enabled: Some(true),
            warmup_cron_expression: Some("99 99 99 99 99".to_string()),
            ..BackgroundTasksSettingsPatch::default()
        },
    );

    let patch = BackgroundTasksSettingsPatch {
        warmup_cron_enabled: Some(false),
        ..BackgroundTasksSettingsPatch::default()
    };

    assert!(validate_background_tasks_settings_patch(&settings, &patch).is_ok());

    set_background_tasks_settings(
        &mut settings,
        BackgroundTasksSettingsPatch {
            warmup_cron_enabled: Some(false),
            warmup_cron_expression: Some(String::new()),
            ..BackgroundTasksSettingsPatch::default()
        },
    );
    assert!(!settings.warmup_cron_enabled);
    assert_eq!(settings.warmup_cron_expression, "");
}

#[test]
fn cron_expressions_need_five_fields_in_range() {
    assert!(cron_expression_is_valid("0 0 * * *"));
    assert!(cron_expression_is_valid("  */15 8-18 1,15 1-12/2 0-7  "));
    assert!(cron_expression_is_valid("59 23 31 12 7"));
    assert!(!cron_expression_is_valid("60 0 * * *"));
    assert!(!cron_expression_is_valid("0 24 * * *"));
    assert!(!cron_expression_is_valid("0 0 0 * *"));
    assert!(!cron_expression_is_valid("0 0 * 13 *"));
    assert!(!cron_expression_is_valid("0 0 * * 8"));
    assert!(!cron_expression_is_valid("0 0 * *"));
    assert!(!cron_expression_is_valid("0 0 * * * *"));
    assert!(!cron_expression_is_valid("5-1 * * * *"));
    assert!(!cron_expression_is_valid("*/0 * * * *"));
    assert!(!cron_expression_is_valid("1,,2 * * * *"));
    assert!(!cron_expression_is_valid("a * * * *"));
    assert!(!cron_expression_is_valid("99999999999999999999 * * * *"));
    assert!(!cron_expression_is_valid(""));
}

#[test]
fn enabling_checks_the_stored_expression() {
    let mut settings = default_settings();
    settings.warmup_cron_expression = "bad".to_string();
    let enable = BackgroundTasksSettingsPatch { warmup_cron_enabled: Some(true), ..Default::default() };
    assert_eq!(
        validate_background_tasks_settings_patch(&settings, &enable),
        Err("invalid warmup cron expression: bad".to_string())
    );
    settings.warmup_cron_expression = " 0 3 * * * ".to_string();
    assert_eq!(validate_background_tasks_settings_patch(&settings, &enable), Ok(()));
    let blank = BackgroundTasksSettingsPatch { warmup_cron_enabled: Some(true), warmup_cron_expression: Some(String::new()) };
    assert_eq!(
        validate_background_tasks_settings_patch(&settings, &blank),
        Err("warmup cron expression is required when the warmup schedule is enabled".to_string())
    );
}

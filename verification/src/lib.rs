//! Account management, billing and agent-identity logic of the Codex manager service.
pub mod text;
pub mod billing;
pub mod crypto;
pub mod table;
pub mod storage;
pub mod order;
pub mod app_manager;
pub mod charge_snapshot;
pub mod agent_identity;
pub mod billing_rules;
pub mod gateway;
pub mod background_tasks;

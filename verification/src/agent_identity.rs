//! Agent-identity credentials: the signed `AgentAssertion` authorization header
//! and the upstream `Authorization` value.
//!
//! An assertion is `AgentAssertion <payload>`, where the payload is the URL-safe,
//! unpadded base64 of a JSON object with the fields `agent_runtime_id`,
//! `signature`, `task_id` and `timestamp`; the signature is the standard base64 of
//! the Ed25519 signature of `<runtime id>:<task id>:<timestamp>` made with the
//! identity's private key (standard base64 of a PKCS#8 document).
use vstd::prelude::*;
use vstd::utf8::*;
use base64::Engine;
use ed25519_dalek::pkcs8::DecodePrivateKey;
use ed25519_dalek::Signer;
use crate::text::{concat_str, has_prefix, is_ws, starts_with, trim, trim_end_seq, trim_seq, trim_start_seq};

verus! {

broadcast use encode_utf8_decode_utf8;

#[verifier::external_type_specification]
#[verifier::external_body]
pub struct ExDecodeError(base64::DecodeError);

#[verifier::external_type_specification]
#[verifier::external_body]
pub struct ExPkcs8Error(ed25519_dalek::pkcs8::Error);

#[verifier::external_type_specification]
#[verifier::external_body]
pub struct ExJsonError(serde_json::Error);

/// The bytes that standard (padded) base64 text decodes to, `None` when it is not
/// valid standard base64.
pub uninterp spec fn standard_base64_decoding(text: Seq<char>) -> Option<Seq<u8>>;

/// The standard (padded) base64 text of a byte sequence.
pub uninterp spec fn standard_base64_encoding(bytes: Seq<u8>) -> Seq<char>;

/// The URL-safe base64 text, without padding, of a byte sequence.
pub uninterp spec fn url_safe_base64_encoding(bytes: Seq<u8>) -> Seq<char>;

/// The 32-byte Ed25519 secret key held by a PKCS#8 DER document, `None` when the
/// document is not a valid Ed25519 PKCS#8 private key.
pub uninterp spec fn pkcs8_ed25519_secret(der: Seq<u8>) -> Option<Seq<u8>>;

/// The 64-byte Ed25519 signature of `message` under the secret key `secret`.
pub uninterp spec fn ed25519_signature(secret: Seq<u8>, message: Seq<u8>) -> Seq<u8>;

/// The compact JSON text, in UTF-8, of an object whose members are `entries`
/// (string keys and string values).
pub uninterp spec fn json_string_object(entries: Seq<(Seq<char>, Seq<char>)>) -> Seq<u8>;

/// `Engine::decode` of `base64::engine::general_purpose::STANDARD`: the result is
/// `Ok` with the decoded bytes exactly when the text is valid standard base64.
#[verifier::external_body]
fn base64_standard_decode(text: &str) -> (res: Result<Vec<u8>, base64::DecodeError>)
    ensures
        match res {
            Ok(bytes) => standard_base64_decoding(text@) == Some(bytes@),
            Err(_) => standard_base64_decoding(text@) is None,
        },
{
    base64::engine::general_purpose::STANDARD.decode(text)
}

/// `Engine::encode` of `base64::engine::general_purpose::STANDARD`. The length bound
/// keeps the size computation, which panics on overflow, in range.
#[verifier::external_body]
fn base64_standard_encode(bytes: &[u8]) -> (res: String)
    requires
        bytes@.len() <= isize::MAX,
    ensures
        res@ == standard_base64_encoding(bytes@),
{
    base64::engine::general_purpose::STANDARD.encode(bytes)
}

/// `Engine::encode` of `base64::engine::general_purpose::URL_SAFE_NO_PAD`: the text
/// has `ceil(4n/3)` symbols for `n` bytes, all from the URL-safe alphabet
/// (`A`-`Z`, `a`-`z`, `0`-`9`, `-`, `_`). The length bound keeps the size
/// computation, which panics on overflow, in range.
#[verifier::external_body]
fn base64_url_safe_encode(bytes: &[u8]) -> (res: String)
    requires
        bytes@.len() <= isize::MAX,
    ensures
        res@ == url_safe_base64_encoding(bytes@),
        res@.len() == (4 * bytes@.len() + 2) / 3,
        forall|i: int| 0 <= i < res@.len() ==> is_url_safe_symbol(#[trigger] res@[i]),
{
    base64::engine::general_purpose::URL_SAFE_NO_PAD.encode(bytes)
}

/// The `Display` text of a base64 decoding error. Nothing is claimed of the text.
#[verifier::external_body]
fn decode_error_text(err: &base64::DecodeError) -> (res: String) {
    err.to_string()
}

/// `ed25519_dalek::SigningKey::from_pkcs8_der` followed by `SigningKey::to_bytes`:
/// the secret key of the document, 32 bytes, exactly when the document is a valid
/// Ed25519 PKCS#8 private key.
#[verifier::external_body]
fn pkcs8_secret_key(der: &[u8]) -> (res: Result<Vec<u8>, ed25519_dalek::pkcs8::Error>)
    ensures
        match res {
            Ok(secret) => pkcs8_ed25519_secret(der@) == Some(secret@) && secret@.len() == 32,
            Err(_) => pkcs8_ed25519_secret(der@) is None,
        },
{
    ed25519_dalek::SigningKey::from_pkcs8_der(der).map(|key| key.to_bytes().to_vec())
}

/// The `Display` text of a PKCS#8 error. Nothing is claimed of the text.
#[verifier::external_body]
fn pkcs8_error_text(err: &ed25519_dalek::pkcs8::Error) -> (res: String) {
    err.to_string()
}

/// `ed25519_dalek::SigningKey::from_bytes` on a 32-byte secret, then `Signer::sign`
/// and `Signature::to_bytes`: the deterministic Ed25519 signature, 64 bytes.
#[verifier::external_body]
fn ed25519_sign(secret: &[u8], message: &[u8]) -> (res: Vec<u8>)
    requires
        secret@.len() == 32,
    ensures
        res@ == ed25519_signature(secret@, message@),
        res@.len() == 64,
{
    let mut key = [0u8; 32];
    key.copy_from_slice(secret);
    ed25519_dalek::SigningKey::from_bytes(&key).sign(message).to_bytes().to_vec()
}

/// `serde_json::to_vec` of a `BTreeMap` holding `entries` as string pairs. It
/// succeeds, since string keys and values always serialize and writing to a `Vec`
/// cannot fail; the bytes are the JSON object of the entries, at least its two
/// braces, and, as in every `Vec`, at most `isize::MAX` of them.
#[verifier::external_body]
fn json_object_bytes(entries: &Vec<(String, String)>) -> (res: Result<Vec<u8>, serde_json::Error>)
    ensures
        res is Ok,
        res->Ok_0@ == json_string_object(entry_views(entries@)),
        2 <= res->Ok_0@.len() <= isize::MAX,
{
    let map: std::collections::BTreeMap<&str, &str> = entries
        .iter()
        .map(|pair| (pair.0.as_str(), pair.1.as_str()))
        .collect();
    serde_json::to_vec(&map)
}

/// The `Display` text of a JSON error. Nothing is claimed of the text.
#[verifier::external_body]
fn json_error_text(err: &serde_json::Error) -> (res: String) {
    err.to_string()
}

/// `chrono::Utc::now().to_rfc3339_opts(SecondsFormat::Secs, true)`: the current time
/// as RFC 3339 text. Nothing is claimed of the value.
#[verifier::external_body]
fn rfc3339_now() -> (res: String) {
    chrono::Utc::now().to_rfc3339_opts(chrono::SecondsFormat::Secs, true)
}

/// The agent identity of an upstream account.
pub struct AccountAgentIdentity {
    pub account_id: String,
    pub agent_runtime_id: String,
    pub agent_private_key: String,
    pub task_id: String,
    pub chatgpt_user_id: String,
    pub chatgpt_account_is_fedramp: bool,
    pub auth_mode: String,
    pub workspace_id: Option<String>,
    pub created_at: i64,
    pub updated_at: i64,
}

/// The views of a list of string pairs.
pub open spec fn entry_views(entries: Seq<(String, String)>) -> Seq<(Seq<char>, Seq<char>)> {
    entries.map_values(|p: (String, String)| (p.0@, p.1@))
}

/// The error for a blank identity field.
pub open spec fn empty_field_message(field: Seq<char>) -> Seq<char> {
    "agent identity "@ + field + " is empty"@
}

/// The prefix of the error for a private key that is not base64.
pub open spec fn bad_base64_prefix() -> Seq<char> {
    "agent identity private key is not valid base64: "@
}

/// The prefix of the error for a private key that is not PKCS#8.
pub open spec fn bad_pkcs8_prefix() -> Seq<char> {
    "agent identity private key is not valid PKCS#8: "@
}

/// The Ed25519 secret key carried by a stored private key: the trimmed text is
/// decoded from standard base64, and the bytes are read as PKCS#8.
pub open spec fn key_secret_of(private_key: Seq<char>) -> Option<Seq<u8>> {
    match standard_base64_decoding(trim_seq(private_key)) {
        Some(der) => pkcs8_ed25519_secret(der),
        None => None,
    }
}

/// The text that is signed: `<runtime id>:<task id>:<timestamp>`.
pub open spec fn signed_payload_spec(runtime_id: Seq<char>, task_id: Seq<char>, timestamp: Seq<char>) -> Seq<char> {
    runtime_id + ":"@ + task_id + ":"@ + timestamp
}

/// The members of the assertion envelope, in key order.
pub open spec fn envelope_spec(
    runtime_id: Seq<char>,
    signature: Seq<char>,
    task_id: Seq<char>,
    timestamp: Seq<char>,
) -> Seq<(Seq<char>, Seq<char>)> {
    seq![
        ("agent_runtime_id"@, runtime_id),
        ("signature"@, signature),
        ("task_id"@, task_id),
        ("timestamp"@, timestamp),
    ]
}

/// A symbol of the URL-safe base64 alphabet.
pub open spec fn is_url_safe_symbol(c: char) -> bool {
    ('A' <= c && c <= 'Z') || ('a' <= c && c <= 'z') || ('0' <= c && c <= '9') || c == '-' || c == '_'
}

/// `AgentAssertion `, then a non-empty run of URL-safe base64 symbols.
pub open spec fn is_assertion_header(h: Seq<char>) -> bool {
    let prefix = "AgentAssertion "@;
    &&& has_prefix(h, prefix)
    &&& h.len() > prefix.len()
    &&& forall|i: int| prefix.len() <= i < h.len() ==> is_url_safe_symbol(#[trigger] h[i])
}

/// The header text for an envelope's JSON bytes.
pub open spec fn assertion_header_spec(envelope_json: Seq<u8>) -> Seq<char> {
    "AgentAssertion "@ + url_safe_base64_encoding(envelope_json)
}

/// The assertion header for trimmed identifiers, a timestamp and a secret key.
pub open spec fn agent_assertion_spec(
    runtime_id: Seq<char>,
    task_id: Seq<char>,
    timestamp: Seq<char>,
    secret: Seq<u8>,
) -> Seq<char> {
    let signature = standard_base64_encoding(
        ed25519_signature(secret, encode_utf8(signed_payload_spec(runtime_id, task_id, timestamp))),
    );
    assertion_header_spec(
        json_string_object(envelope_spec(runtime_id, signature, task_id, timestamp)),
    )
}

/// What building the header for `identity` at `timestamp` gives: the first blank
/// identifier is reported, then a key that cannot be read; with all three readable,
/// the header is the assertion.
pub open spec fn header_outcome(
    identity: AccountAgentIdentity,
    timestamp: Seq<char>,
    res: Result<String, String>,
) -> bool {
    let runtime_id = trim_seq(identity.agent_runtime_id@);
    let task_id = trim_seq(identity.task_id@);
    if runtime_id.len() == 0 {
        res is Err && res->Err_0@ == empty_field_message("agent_runtime_id"@)
    } else if task_id.len() == 0 {
        res is Err && res->Err_0@ == empty_field_message("task_id"@)
    } else {
        match key_secret_of(identity.agent_private_key@) {
            None => res is Err && if standard_base64_decoding(trim_seq(identity.agent_private_key@)) is None {
                has_prefix(res->Err_0@, bad_base64_prefix())
            } else {
                has_prefix(res->Err_0@, bad_pkcs8_prefix())
            },
            Some(secret) => res matches Ok(header) && header@ == agent_assertion_spec(
                runtime_id,
                task_id,
                timestamp,
                secret,
            ) && is_assertion_header(header@),
        }
    }
}

/// The upstream `Authorization` value for a token: an agent assertion is sent as
/// it is, anything else as a bearer token; both trimmed.
pub open spec fn upstream_authorization_spec(token: Seq<char>) -> Seq<char> {
    let t = trim_seq(token);
    if has_prefix(t, "AgentAssertion "@) {
        t
    } else {
        "Bearer "@ + t
    }
}

/// The trimmed value of a required identity field, or the error naming the field.
pub fn required_value(value: &str, field: &str) -> (res: Result<String, String>)
    ensures
        match res {
            Ok(v) => trim_seq(value@).len() > 0 && v@ == trim_seq(value@),
            Err(msg) => trim_seq(value@).len() == 0 && msg@ == empty_field_message(field@),
        },
{
    let trimmed = trim(value);
    if trimmed.as_str().is_empty() {
        let head = concat_str("agent identity ", field);
        Err(concat_str(head.as_str(), " is empty"))
    } else {
        Ok(trimmed)
    }
}

/// The Ed25519 secret key of a stored private key (standard base64 of PKCS#8).
pub fn signing_key_from_pkcs8_base64(private_key: &str) -> (res: Result<Vec<u8>, String>)
    ensures
        match res {
            Ok(secret) => key_secret_of(private_key@) == Some(secret@) && secret@.len() == 32,
            Err(msg) => {
                &&& key_secret_of(private_key@) is None
                &&& standard_base64_decoding(trim_seq(private_key@)) is None ==> has_prefix(
                    msg@,
                    bad_base64_prefix(),
                )
                &&& standard_base64_decoding(trim_seq(private_key@)) is Some ==> has_prefix(
                    msg@,
                    bad_pkcs8_prefix(),
                )
            },
        },
{
    let trimmed = trim(private_key);
    match base64_standard_decode(trimmed.as_str()) {
        Err(err) => {
            let text = decode_error_text(&err);
            let msg = concat_str("agent identity private key is not valid base64: ", text.as_str());
            assert(msg@.take(bad_base64_prefix().len() as int) =~= bad_base64_prefix());
            Err(msg)
        },
        Ok(der) => match pkcs8_secret_key(der.as_slice()) {
            Err(err) => {
                let text = pkcs8_error_text(&err);
                let msg = concat_str("agent identity private key is not valid PKCS#8: ", text.as_str());
                assert(msg@.take(bad_pkcs8_prefix().len() as int) =~= bad_pkcs8_prefix());
                Err(msg)
            },
            Ok(secret) => Ok(secret),
        },
    }
}

/// The text that is signed: `<runtime id>:<task id>:<timestamp>`.
pub fn signed_payload(runtime_id: &str, task_id: &str, timestamp: &str) -> (res: String)
    ensures
        res@ == signed_payload_spec(runtime_id@, task_id@, timestamp@),
{
    let a = concat_str(runtime_id, ":");
    let b = concat_str(a.as_str(), task_id);
    let c = concat_str(b.as_str(), ":");
    concat_str(c.as_str(), timestamp)
}

/// The members of the assertion envelope, in key order.
pub fn agent_assertion_envelope(
    runtime_id: &str,
    signature: &str,
    task_id: &str,
    timestamp: &str,
) -> (res: Vec<(String, String)>)
    ensures
        entry_views(res@) == envelope_spec(runtime_id@, signature@, task_id@, timestamp@),
{
    let mut entries: Vec<(String, String)> = Vec::new();
    entries.push(("agent_runtime_id".to_owned(), runtime_id.to_owned()));
    entries.push(("signature".to_owned(), signature.to_owned()));
    entries.push(("task_id".to_owned(), task_id.to_owned()));
    entries.push(("timestamp".to_owned(), timestamp.to_owned()));
    assert(entry_views(entries@) =~= envelope_spec(runtime_id@, signature@, task_id@, timestamp@));
    entries
}

/// The header for an envelope's JSON bytes: `AgentAssertion ` and their URL-safe
/// base64.
pub fn agent_assertion_header(envelope_json: &[u8]) -> (res: String)
    requires
        envelope_json@.len() <= isize::MAX,
    ensures
        res@ == assertion_header_spec(envelope_json@),
        envelope_json@.len() > 0 ==> is_assertion_header(res@),
{
    let encoded = base64_url_safe_encode(envelope_json);
    let res = concat_str("AgentAssertion ", encoded.as_str());
    proof {
        let prefix = "AgentAssertion "@;
        assert(res@.take(prefix.len() as int) =~= prefix);
        assert forall|i: int| prefix.len() <= i < res@.len() implies is_url_safe_symbol(res@[i]) by {
            assert(res@[i] == encoded@[i - prefix.len()]);
        }
    }
    res
}

/// The `AgentAssertion` header for `identity`, signed for `timestamp`.
pub fn authorization_header_for_agent_identity_at(
    identity: &AccountAgentIdentity,
    timestamp: &str,
) -> (res: Result<String, String>)
    ensures
        header_outcome(*identity, timestamp@, res),
{
    let runtime_id = match required_value(identity.agent_runtime_id.as_str(), "agent_runtime_id") {
        Ok(v) => v,
        Err(e) => return Err(e),
    };
    let task_id = match required_value(identity.task_id.as_str(), "task_id") {
        Ok(v) => v,
        Err(e) => return Err(e),
    };
    let secret = match signing_key_from_pkcs8_base64(identity.agent_private_key.as_str()) {
        Ok(k) => k,
        Err(e) => return Err(e),
    };
    let payload = signed_payload(runtime_id.as_str(), task_id.as_str(), timestamp);
    let signature_bytes = ed25519_sign(secret.as_slice(), payload.as_str().as_bytes());
    let signature = base64_standard_encode(signature_bytes.as_slice());
    let envelope = agent_assertion_envelope(
        runtime_id.as_str(),
        signature.as_str(),
        task_id.as_str(),
        timestamp,
    );
    match json_object_bytes(&envelope) {
        Ok(json) => Ok(agent_assertion_header(json.as_slice())),
        Err(err) => {
            let text = json_error_text(&err);
            Err(concat_str("failed to serialize agent assertion: ", text.as_str()))
        },
    }
}

/// The `AgentAssertion` header for `identity`, signed for the current time.
pub fn authorization_header_for_agent_identity(identity: &AccountAgentIdentity) -> (res: Result<String, String>)
    ensures
        exists|timestamp: Seq<char>| header_outcome(*identity, timestamp, res),
{
    let timestamp = rfc3339_now();
    authorization_header_for_agent_identity_at(identity, timestamp.as_str())
}

/// What validating `identity` gives: the first blank identifier is reported, then
/// a key that cannot be read; otherwise `Ok`.
pub open spec fn validation_outcome(identity: AccountAgentIdentity, res: Result<(), String>) -> bool {
    let runtime_id = trim_seq(identity.agent_runtime_id@);
    let task_id = trim_seq(identity.task_id@);
    if runtime_id.len() == 0 {
        res is Err && res->Err_0@ == empty_field_message("agent_runtime_id"@)
    } else if task_id.len() == 0 {
        res is Err && res->Err_0@ == empty_field_message("task_id"@)
    } else {
        match key_secret_of(identity.agent_private_key@) {
            None => res is Err && if standard_base64_decoding(trim_seq(identity.agent_private_key@)) is None {
                has_prefix(res->Err_0@, bad_base64_prefix())
            } else {
                has_prefix(res->Err_0@, bad_pkcs8_prefix())
            },
            Some(_) => res is Ok,
        }
    }
}

/// Checks that an identity can sign: both identifiers are present and the private
/// key is readable.
pub fn validate_agent_identity(identity: &AccountAgentIdentity) -> (res: Result<(), String>)
    ensures
        validation_outcome(*identity, res),
{
    match required_value(identity.agent_runtime_id.as_str(), "agent_runtime_id") {
        Ok(_) => {},
        Err(e) => return Err(e),
    }
    match required_value(identity.task_id.as_str(), "task_id") {
        Ok(_) => {},
        Err(e) => return Err(e),
    }
    match signing_key_from_pkcs8_base64(identity.agent_private_key.as_str()) {
        Ok(_) => Ok(()),
        Err(e) => Err(e),
    }
}

/// Validation accepts exactly the identities a header can be built from, at any
/// timestamp; a blank identifier is reported with the same message by both, and
/// an unreadable key with the same message prefix.
pub proof fn law_validation_agrees_with_header(
    identity: AccountAgentIdentity,
    timestamp: Seq<char>,
    checked: Result<(), String>,
    built: Result<String, String>,
)
    requires
        validation_outcome(identity, checked),
        header_outcome(identity, timestamp, built),
    ensures
        checked is Ok <==> built is Ok,
        trim_seq(identity.agent_runtime_id@).len() == 0 || trim_seq(identity.task_id@).len() == 0
            ==> checked->Err_0@ == built->Err_0@,
        ({
            let fields_set = trim_seq(identity.agent_runtime_id@).len() > 0 && trim_seq(
                identity.task_id@,
            ).len() > 0;
            let decoded = standard_base64_decoding(trim_seq(identity.agent_private_key@));
            fields_set && key_secret_of(identity.agent_private_key@) is None ==> if decoded is None {
                has_prefix(checked->Err_0@, bad_base64_prefix()) && has_prefix(
                    built->Err_0@,
                    bad_base64_prefix(),
                )
            } else {
                has_prefix(checked->Err_0@, bad_pkcs8_prefix()) && has_prefix(
                    built->Err_0@,
                    bad_pkcs8_prefix(),
                )
            }
        }),
{
}

/// An assertion header built for an identity is passed upstream as it is.
pub proof fn law_agent_assertion_is_forwarded_unchanged(
    identity: AccountAgentIdentity,
    timestamp: Seq<char>,
    header: String,
)
    requires
        header_outcome(identity, timestamp, Ok(header)),
    ensures
        upstream_authorization_spec(header@) == header@,
{
    let h = header@;
    reveal_strlit("AgentAssertion ");
    assert(h[0] == "AgentAssertion "@[0]);
    assert(!is_ws(h[0]));
    assert(trim_start_seq(h) == h);
    assert(is_url_safe_symbol(h[h.len() - 1]));
    assert(!is_ws(h.last()));
    assert(trim_end_seq(h) == h);
}

/// The upstream `Authorization` value for a token: an `AgentAssertion ` value is
/// kept as it is, anything else is sent as `Bearer <token>`; both trimmed.
pub fn format_upstream_authorization(auth_token: &str) -> (res: String)
    ensures
        res@ == upstream_authorization_spec(auth_token@),
{
    let trimmed = trim(auth_token);
    if starts_with(trimmed.as_str(), "AgentAssertion ") {
        trimmed
    } else {
        concat_str("Bearer ", trimmed.as_str())
    }
}

} // verus!

//! Password hashes, session-token hashes and random identifiers.
//!
//! A stored password hash reads `sha256$<salt hex>$<digest hex>`, where the digest is
//! the SHA-256 of `<salt hex>:<password>` in UTF-8, written in lowercase hex.
use vstd::prelude::*;
use vstd::utf8::*;
use sha2::Digest;
use rand::RngCore;
use crate::text::{chars_of, concat_str, push_char, str_equal, string_from_range};

verus! {

broadcast use encode_utf8_decode_utf8;

/// The SHA-256 digest of a byte sequence.
pub uninterp spec fn sha256_digest(data: Seq<u8>) -> Seq<u8>;

/// `sha2::Sha256::digest`: the result is the SHA-256 digest of `data`, 32 bytes long.
/// Nothing else is claimed of the digest.
#[verifier::external_body]
fn sha256(data: &[u8]) -> (res: Vec<u8>)
    ensures
        res@ == sha256_digest(data@),
        res@.len() == 32,
{
    sha2::Sha256::digest(data).to_vec()
}

/// `rand::rngs::OsRng::fill_bytes` on a buffer of `len` bytes: the buffer is filled
/// with bytes from the operating system's generator. Only the length is claimed; the
/// call panics if the operating system cannot supply randomness.
#[verifier::external_body]
fn os_random_bytes(len: usize) -> (res: Vec<u8>)
    ensures
        res@.len() == len,
{
    let mut buf = vec![0u8; len];
    rand::rngs::OsRng.fill_bytes(&mut buf);
    buf
}

/// `chrono::Utc::now().timestamp()`: the current time in seconds since the Unix epoch.
/// Nothing is claimed of the value.
#[verifier::external_body]
pub fn now_ts() -> (res: i64) {
    chrono::Utc::now().timestamp()
}

/// The lowercase hex digit of a value below 16.
pub open spec fn hex_digit(v: int) -> char {
    if v < 10 {
        (48 + v) as char
    } else {
        (87 + v) as char
    }
}

/// The lowercase hex encoding of bytes, two digits per byte.
pub open spec fn hex_seq(bytes: Seq<u8>) -> Seq<char>
    decreases bytes.len(),
{
    if bytes.len() == 0 {
        Seq::empty()
    } else {
        hex_seq(bytes.drop_last()) + seq![
            hex_digit(bytes.last() as int / 16),
            hex_digit(bytes.last() as int % 16),
        ]
    }
}

/// A lowercase hex digit.
pub open spec fn is_hex_char(c: char) -> bool {
    ('0' <= c && c <= '9') || ('a' <= c && c <= 'f')
}

/// The SHA-256 of `data` in lowercase hex.
pub open spec fn hex_sha256_spec(data: Seq<u8>) -> Seq<char> {
    hex_seq(sha256_digest(data))
}

/// The digest part of a password hash for `salt_hex` and `password`.
pub open spec fn password_digest(salt_hex: Seq<char>, password: Seq<char>) -> Seq<char> {
    hex_sha256_spec(encode_utf8(salt_hex + seq![':'] + password))
}

/// The scheme tag of password hashes.
pub open spec fn sha256_tag() -> Seq<char> {
    seq!['s', 'h', 'a', '2', '5', '6']
}

/// `s` contains no `$`.
pub open spec fn no_dollar(s: Seq<char>) -> bool {
    forall|i: int| 0 <= i < s.len() ==> s[i] != '$'
}

/// The password hash with the given salt for `password`.
pub open spec fn password_hash_with_salt(salt_hex: Seq<char>, password: Seq<char>) -> Seq<char> {
    sha256_tag() + seq!['$'] + salt_hex + seq!['$'] + password_digest(salt_hex, password)
}

/// `stored` splits at `$` into exactly the three parts `sha256`, a salt and a
/// digest, and the digest is that of the salt and `password`.
pub open spec fn password_hash_matches(password: Seq<char>, stored: Seq<char>) -> bool {
    exists|salt: Seq<char>, expected: Seq<char>|
        no_dollar(salt) && no_dollar(expected) && stored == sha256_tag() + seq!['$'] + salt
            + seq!['$'] + expected && expected == password_digest(salt, password)
}

/// The prefix hashed in front of a session token.
pub open spec fn session_hash_prefix() -> Seq<char> {
    "codexmanager-app-session:"@
}

/// The stored hash of a session token.
pub open spec fn token_hash_spec(token: Seq<char>) -> Seq<char> {
    hex_sha256_spec(encode_utf8(session_hash_prefix() + token))
}

/// `s` is `prefix`, `_`, then the hex encoding of `len` bytes.
pub open spec fn is_generated_id(s: Seq<char>, prefix: Seq<char>, len: nat) -> bool {
    exists|b: Seq<u8>| b.len() == len && s == prefix + seq!['_'] + hex_seq(b)
}

pub proof fn lemma_hex_seq_len(bytes: Seq<u8>)
    ensures
        hex_seq(bytes).len() == 2 * bytes.len(),
        forall|i: int| 0 <= i < hex_seq(bytes).len() ==> is_hex_char(#[trigger] hex_seq(bytes)[i]),
    decreases bytes.len(),
{
    if bytes.len() > 0 {
        lemma_hex_seq_len(bytes.drop_last());
        let last = bytes.last() as int;
        assert(0 <= last / 16 < 16 && 0 <= last % 16 < 16);
        let t = hex_seq(bytes.drop_last());
        let h = seq![hex_digit(last / 16), hex_digit(last % 16)];
        assert forall|i: int| 0 <= i < hex_seq(bytes).len() implies is_hex_char(
            #[trigger] hex_seq(bytes)[i],
        ) by {
            if i >= t.len() {
                assert(hex_seq(bytes)[i] == h[i - t.len()]);
            } else {
                assert(hex_seq(bytes)[i] == t[i]);
            }
        }
    }
}

/// Hex strings contain no `$`.
pub proof fn lemma_hex_no_dollar(bytes: Seq<u8>)
    ensures
        no_dollar(hex_seq(bytes)),
{
    lemma_hex_seq_len(bytes);
    assert forall|i: int| 0 <= i < hex_seq(bytes).len() implies hex_seq(bytes)[i] != '$' by {
        assert(is_hex_char(hex_seq(bytes)[i]));
    }
}

/// The lowercase hex digit of a value below 16.
fn hex_digit_exec(v: u8) -> (res: char)
    requires
        v < 16,
    ensures
        res == hex_digit(v as int),
{
    if v < 10 {
        (48u8 + v) as char
    } else {
        (87u8 + v) as char
    }
}

/// The lowercase hex encoding of `bytes`.
pub fn hex_encode(bytes: &[u8]) -> (res: String)
    ensures
        res@ == hex_seq(bytes@),
{
    let mut out = String::new();
    let mut i: usize = 0;
    while i < bytes.len()
        invariant
            0 <= i <= bytes@.len(),
            out@ == hex_seq(bytes@.take(i as int)),
        decreases bytes@.len() - i,
    {
        let b = bytes[i];
        push_char(&mut out, hex_digit_exec(b / 16));
        push_char(&mut out, hex_digit_exec(b % 16));
        assert(bytes@.take(i + 1).drop_last() == bytes@.take(i as int));
        i += 1;
    }
    assert(bytes@.take(bytes@.len() as int) == bytes@);
    out
}

/// The SHA-256 of `data` in lowercase hex.
pub fn hex_sha256(data: &[u8]) -> (res: String)
    ensures
        res@ == hex_sha256_spec(data@),
{
    let digest = sha256(data);
    hex_encode(digest.as_slice())
}

/// `len` random bytes in lowercase hex.
pub fn random_hex(len: usize) -> (res: String)
    ensures
        exists|b: Seq<u8>| b.len() == len && res@ == hex_seq(b),
{
    let bytes = os_random_bytes(len);
    hex_encode(bytes.as_slice())
}

/// A fresh identifier: `prefix`, `_`, then `len` random bytes in hex.
pub fn generate_id(prefix: &str, len: usize) -> (res: String)
    ensures
        is_generated_id(res@, prefix@, len as nat),
{
    let hex = random_hex(len);
    let mut out = prefix.to_owned();
    push_char(&mut out, '_');
    out.append(hex.as_str());
    proof {
        let b = choose|b: Seq<u8>| b.len() == len && hex@ == hex_seq(b);
        assert(out@ =~= prefix@ + seq!['_'] + hex_seq(b));
    }
    out
}

/// A fresh session token: `cms_` and 32 random bytes in hex.
pub fn generate_session_token() -> (res: String)
    ensures
        is_generated_id(res@, seq!['c', 'm', 's'], 32),
{
    let res = generate_id("cms", 32);
    proof {
        reveal_strlit("cms");
        assert("cms"@ == seq!['c', 'm', 's']);
    }
    res
}

/// The stored hash of a session token: SHA-256 of `codexmanager-app-session:<token>`.
pub fn token_hash(token: &str) -> (res: String)
    ensures
        res@ == token_hash_spec(token@),
{
    let payload = concat_str("codexmanager-app-session:", token);
    hex_sha256(payload.as_str().as_bytes())
}

/// The digest part of a password hash for `salt_hex` and `password`.
fn password_digest_exec(salt_hex: &str, password: &str) -> (res: String)
    ensures
        res@ == password_digest(salt_hex@, password@),
{
    let mut payload = salt_hex.to_owned();
    push_char(&mut payload, ':');
    payload.append(password);
    assert(payload@ =~= salt_hex@ + seq![':'] + password@);
    hex_sha256(payload.as_str().as_bytes())
}

/// Equality of two byte strings, comparing every byte whatever the earlier ones were.
pub fn constant_time_eq(a: &[u8], b: &[u8]) -> (res: bool)
    ensures
        res == (a@ == b@),
{
    if a.len() != b.len() {
        return false;
    }
    let mut diff: u8 = 0;
    let mut i: usize = 0;
    while i < a.len()
        invariant
            a@.len() == b@.len(),
            0 <= i <= a@.len(),
            (diff == 0) == (forall|k: int| 0 <= k < i ==> a@[k] == b@[k]),
        decreases a@.len() - i,
    {
        let x = a[i];
        let y = b[i];
        let d = diff;
        assert(((d | (x ^ y)) == 0u8) == (d == 0u8 && x == y)) by (bit_vector);
        diff = diff | (x ^ y);
        i += 1;
    }
    proof {
        if diff == 0 {
            assert(a@ =~= b@);
        }
    }
    diff == 0
}

/// A new password hash for `password` with a fresh random 16-byte salt.
pub fn hash_password(password: &str) -> (res: String)
    ensures
        exists|salt: Seq<u8>|
            salt.len() == 16 && res@ == password_hash_with_salt(hex_seq(salt), password@),
        password_hash_matches(password@, res@),
{
    let salt = os_random_bytes(16);
    let salt_hex = hex_encode(salt.as_slice());
    let digest = password_digest_exec(salt_hex.as_str(), password);
    let mut out = String::new();
    push_char(&mut out, 's');
    push_char(&mut out, 'h');
    push_char(&mut out, 'a');
    push_char(&mut out, '2');
    push_char(&mut out, '5');
    push_char(&mut out, '6');
    push_char(&mut out, '$');
    out.append(salt_hex.as_str());
    push_char(&mut out, '$');
    out.append(digest.as_str());
    proof {
        assert(out@ =~= password_hash_with_salt(hex_seq(salt@), password@));
        lemma_hex_seq_len(salt@);
        law_hashed_password_verifies(hex_seq(salt@), password@);
    }
    out
}

/// The index of the first `c` in `v` at or after `from`.
fn find_char_from(v: &Vec<char>, from: usize, c: char) -> (res: Option<usize>)
    requires
        from <= v@.len(),
    ensures
        match res {
            Some(i) => from <= i < v@.len() && v@[i as int] == c && forall|k: int|
                from <= k < i ==> v@[k] != c,
            None => forall|k: int| from <= k < v@.len() ==> v@[k] != c,
        },
{
    let mut i = from;
    while i < v.len()
        invariant
            from <= i <= v@.len(),
            forall|k: int| from <= k < i ==> v@[k] != c,
        decreases v@.len() - i,
    {
        if v[i] == c {
            return Some(i);
        }
        i += 1;
    }
    None
}

/// Whether `password` matches the stored hash.
pub fn verify_password_hash(password: &str, stored_hash: &str) -> (res: bool)
    ensures
        res == password_hash_matches(password@, stored_hash@),
{
    let v = chars_of(stored_hash);
    let n = v.len();
    let ghost s = v@;
    let ghost tag = sha256_tag();
    // When `stored_hash` has the expected shape, its `$` signs stand at 6 and 7 + salt length.
    let first = match find_char_from(&v, 0, '$') {
        Some(i) => i,
        None => {
            proof {
                if password_hash_matches(password@, stored_hash@) {
                    let (salt, expected) = choose|salt: Seq<char>, expected: Seq<char>|
                        no_dollar(salt) && no_dollar(expected) && stored_hash@ == tag
                            + seq!['$'] + salt + seq!['$'] + expected && expected
                            == password_digest(salt, password@);
                    assert(s[6] == '$');
                }
            }
            return false;
        },
    };
    assert(first < n);
    let second = match find_char_from(&v, first + 1, '$') {
        Some(j) => j,
        None => {
            proof {
                if password_hash_matches(password@, stored_hash@) {
                    let (salt, expected) = choose|salt: Seq<char>, expected: Seq<char>|
                        no_dollar(salt) && no_dollar(expected) && stored_hash@ == tag
                            + seq!['$'] + salt + seq!['$'] + expected && expected
                            == password_digest(salt, password@);
                    assert(forall|k: int| 0 <= k < 6 ==> s[k] == tag[k]);
                    if first < 6 {
                        assert(s[first as int] == tag[first as int]);
                    }
                    assert(first >= 6);
                    if first > 6 {
                        assert(s[6] == '$');
                    }
                    assert(s[7 + salt.len() as int] == '$');
                }
            }
            return false;
        },
    };
    assert(second < n);
    if let Some(_) = find_char_from(&v, second + 1, '$') {
        proof {
            if password_hash_matches(password@, stored_hash@) {
                let (salt, expected) = choose|salt: Seq<char>, expected: Seq<char>|
                    no_dollar(salt) && no_dollar(expected) && stored_hash@ == tag + seq!['$']
                        + salt + seq!['$'] + expected && expected == password_digest(
                        salt,
                        password@,
                    );
                lemma_dollar_positions(s, salt, expected, first as int, second as int);
                assert forall|k: int| second + 1 <= k < s.len() implies s[k] != '$' by {
                    assert(s[k] == expected[k - 8 - salt.len()]);
                }
            }
        }
        return false;
    }
    let kind = string_from_range(&v, 0, first);
    let salt = string_from_range(&v, first + 1, second);
    let expected = string_from_range(&v, second + 1, v.len());
    let ghost kind_ok = kind@ == tag;
    let is_tag = str_equal(kind.as_str(), "sha256");
    proof {
        reveal_strlit("sha256");
        assert("sha256"@ =~= tag);
    }
    if !is_tag {
        proof {
            if password_hash_matches(password@, stored_hash@) {
                let (salt2, expected2) = choose|salt: Seq<char>, expected: Seq<char>|
                    no_dollar(salt) && no_dollar(expected) && stored_hash@ == tag + seq!['$']
                        + salt + seq!['$'] + expected && expected == password_digest(
                        salt,
                        password@,
                    );
                lemma_dollar_positions(s, salt2, expected2, first as int, second as int);
                assert(kind@ =~= tag);
            }
        }
        return false;
    }
    let digest = password_digest_exec(salt.as_str(), password);
    let res = constant_time_eq(digest.as_str().as_bytes(), expected.as_str().as_bytes());
    proof {
        assert(no_dollar(salt@));
        assert(no_dollar(expected@));
        assert(s =~= kind@ + seq!['$'] + salt@ + seq!['$'] + expected@);
        assert(decode_utf8(encode_utf8(digest@)) == digest@);
        assert(decode_utf8(encode_utf8(expected@)) == expected@);
        if password_hash_matches(password@, stored_hash@) {
            let (salt2, expected2) = choose|salt: Seq<char>, expected: Seq<char>|
                no_dollar(salt) && no_dollar(expected) && stored_hash@ == tag + seq!['$'] + salt
                    + seq!['$'] + expected && expected == password_digest(salt, password@);
            lemma_dollar_positions(s, salt2, expected2, first as int, second as int);
            assert(salt@ =~= salt2);
            assert(expected@ =~= expected2);
        }
    }
    res
}

/// Where the two `$` of a well-shaped hash stand, and what lies between them.
proof fn lemma_dollar_positions(
    s: Seq<char>,
    salt: Seq<char>,
    expected: Seq<char>,
    first: int,
    second: int,
)
    requires
        no_dollar(salt),
        no_dollar(expected),
        s == sha256_tag() + seq!['$'] + salt + seq!['$'] + expected,
        0 <= first < s.len(),
        s[first] == '$',
        forall|k: int| 0 <= k < first ==> s[k] != '$',
        first < second < s.len(),
        s[second] == '$',
        forall|k: int| first + 1 <= k < second ==> s[k] != '$',
    ensures
        first == 6,
        second == 7 + salt.len(),
        s.subrange(0, first) == sha256_tag(),
        s.subrange(first + 1, second) == salt,
        s.subrange(second + 1, s.len() as int) == expected,
{
    let tag = sha256_tag();
    assert(forall|k: int| 0 <= k < 6 ==> s[k] == tag[k]);
    if first < 6 {
        assert(s[first] == tag[first]);
    }
    if first > 6 {
        assert(s[6] == '$');
    }
    assert(first == 6);
    assert(forall|k: int| 7 <= k < 7 + salt.len() ==> s[k] == salt[k - 7]);
    if second < 7 + salt.len() {
        assert(s[second] == salt[second - 7]);
    }
    if second > 7 + salt.len() {
        assert(s[7 + salt.len() as int] == '$');
    }
    assert(s.subrange(0, first) =~= tag);
    assert(s.subrange(first + 1, second) =~= salt);
    assert(s.subrange(second + 1, s.len() as int) =~= expected);
}

/// A stored hash that splits at `$` into exactly `sha256`, a salt and a digest.
pub open spec fn well_formed_hash(stored: Seq<char>) -> bool {
    exists|salt: Seq<char>, digest: Seq<char>|
        no_dollar(salt) && no_dollar(digest) && stored == sha256_tag() + seq!['$'] + salt + seq!['$']
            + digest
}

/// A stored hash that does not split at `$` into exactly `sha256`, a salt and a
/// digest matches no password.
pub proof fn law_malformed_hash_never_verifies(password: Seq<char>, stored: Seq<char>)
    requires
        !well_formed_hash(stored),
    ensures
        !password_hash_matches(password, stored),
{
}

/// A password hash made for a password verifies against that password, whatever
/// hex salt was drawn.
pub proof fn law_hashed_password_verifies(salt_hex: Seq<char>, password: Seq<char>)
    requires
        forall|i: int| 0 <= i < salt_hex.len() ==> is_hex_char(#[trigger] salt_hex[i]),
    ensures
        password_hash_matches(password, password_hash_with_salt(salt_hex, password)),
{
    let d = password_digest(salt_hex, password);
    assert(no_dollar(salt_hex)) by {
        assert forall|i: int| 0 <= i < salt_hex.len() implies salt_hex[i] != '$' by {
            assert(is_hex_char(salt_hex[i]));
        }
    }
    lemma_hex_no_dollar(sha256_digest(encode_utf8(salt_hex + seq![':'] + password)));
    assert(no_dollar(d));
}

} // verus!

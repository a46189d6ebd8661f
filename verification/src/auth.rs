//! Authentication: API keys, browser sessions, CSRF tokens, password
//! hashes and signed playback tokens. The database and the clock stay with
//! the caller; what is decided from their answers is here.
use argon2::{PasswordHasher, PasswordVerifier};
use vstd::prelude::*;

use crate::config::{BrowserAuthConfig, SecurityConfig};
use crate::crypto::{constant_time_equal, hmac_sha256, mac_matches, mac_tag};
use crate::encoding::{
    base64url, base64url_decode, base64url_encode, hex_encode, hex_text, json_string,
    json_string_literal, lemma_base64url_injective,
};
use crate::error::AppError;
use crate::text::{
    chars_of, eq_ignore_ascii_case, equals_ignore_ascii_case, push_signed_decimal, push_str,
    signed_decimal, split_once, split_once_text, string_from,
};
use vstd::utf8::{encode_utf8, encode_utf8_decode_utf8};

verus! {

/// The UTF-8 bytes of a text.
pub open spec fn utf8(s: Seq<char>) -> Seq<u8> {
    encode_utf8(s)
}

/// Texts with the same UTF-8 bytes are the same text.
pub proof fn lemma_utf8_injective(a: Seq<char>, b: Seq<char>)
    requires
        utf8(a) == utf8(b),
    ensures
        a == b,
{
    encode_utf8_decode_utf8(a);
    encode_utf8_decode_utf8(b);
}

fn str_bytes(s: &str) -> (r: Vec<u8>)
    ensures
        r@ == utf8(s@),
{
    let b = s.as_bytes();
    let mut out: Vec<u8> = Vec::new();
    let mut i: usize = 0;
    while i < b.len()
        invariant
            i <= b@.len(),
            out@ == b@.take(i as int),
        decreases b@.len() - i,
    {
        out.push(b[i]);
        assert(b@.take(i + 1) == b@.take(i as int).push(b@[i as int]));
        i = i + 1;
    }
    assert(b@.take(b@.len() as int) == b@);
    out
}

fn append_bytes(out: &mut Vec<u8>, b: &Vec<u8>)
    ensures
        final(out)@ == old(out)@ + b@,
{
    let ghost before = out@;
    let mut i: usize = 0;
    while i < b.len()
        invariant
            i <= b@.len(),
            out@ == before + b@.take(i as int),
        decreases b@.len() - i,
    {
        out.push(b[i]);
        assert(b@.take(i + 1) == b@.take(i as int).push(b@[i as int]));
        i = i + 1;
    }
    assert(b@.take(b@.len() as int) == b@);
}

/// The keyed hash under which the service stores a secret: the lowercase
/// hexadecimal HMAC-SHA256 of the purpose, a zero byte and the value.
pub open spec fn keyed_hash_text(key: Seq<u8>, purpose: Seq<u8>, value: Seq<char>) -> Seq<char> {
    hex_text(hmac_sha256(key, purpose + seq![0u8] + utf8(value)))
}

/// Hashes a secret (a session token or a CSRF token) for storage.
pub fn keyed_hash(key: &[u8], purpose: &[u8], value: &str) -> (r: String)
    ensures
        r@ == keyed_hash_text(key@, purpose@, value@),
{
    let mut message: Vec<u8> = Vec::new();
    let mut i: usize = 0;
    while i < purpose.len()
        invariant
            i <= purpose@.len(),
            message@ == purpose@.take(i as int),
        decreases purpose@.len() - i,
    {
        message.push(purpose[i]);
        assert(purpose@.take(i + 1) == purpose@.take(i as int).push(purpose@[i as int]));
        i = i + 1;
    }
    assert(purpose@.take(purpose@.len() as int) == purpose@);
    message.push(0u8);
    assert(message@ =~= purpose@ + seq![0u8]);
    let value_bytes = str_bytes(value);
    append_bytes(&mut message, &value_bytes);
    assert(message@ == purpose@ + seq![0u8] + utf8(value@));
    let tag = mac_tag(key, message.as_slice());
    hex_encode(tag.as_slice())
}

// ---------------------------------------------------------------------------
// Bearer tokens and API keys.
// ---------------------------------------------------------------------------

/// The token of an `Authorization` header value: the text after the first
/// space, when the scheme before it is `Bearer` in any case and the token is
/// not empty.
pub open spec fn bearer_of(value: Seq<char>) -> Option<Seq<char>> {
    match split_once(value, ' ') {
        Some((scheme, token)) => if eq_ignore_ascii_case(scheme, "bearer"@) && token.len() > 0 {
            Some(token)
        } else {
            None
        },
        None => None,
    }
}

/// A header whose scheme word reads `bearer` in any case carries the token
/// after its first space.
proof fn lemma_bearer_header(word: Seq<char>, token: Seq<char>)
    requires
        forall|k: int| 0 <= k < word.len() ==> #[trigger] word[k] != ' ',
        crate::text::ascii_lowercase(word) =~= crate::text::ascii_lowercase("bearer"@),
        token.len() > 0,
    ensures
        bearer_of(word + " "@ + token) == Some(token),
{
    reveal_strlit(" ");
    assert(word + " "@ + token =~= word + seq![' '] + token);
    crate::text::lemma_split_once_at(word, ' ', token);
}

/// `Bearer <token>` (the scheme in any case) carries `<token>`, spaces in it
/// included; a header with a scheme of another length, or no token, carries
/// none.
pub proof fn lemma_bearer_token_read(token: Seq<char>, scheme: Seq<char>)
    ensures
        token.len() > 0 ==> bearer_of("Bearer"@ + " "@ + token) == Some(token),
        token.len() > 0 ==> bearer_of("bearer"@ + " "@ + token) == Some(token),
        token.len() > 0 ==> bearer_of("BEARER"@ + " "@ + token) == Some(token),
        bearer_of("Bearer"@ + " "@) is None,
        (forall|k: int| 0 <= k < scheme.len() ==> #[trigger] scheme[k] != ' ') && scheme.len() != 6
            ==> bearer_of(scheme + " "@ + token) is None,
{
    reveal_strlit("Bearer");
    reveal_strlit("bearer");
    reveal_strlit("BEARER");
    reveal_strlit(" ");
    let lower = crate::text::ascii_lowercase("bearer"@);
    assert(crate::text::ascii_lowercase("Bearer"@) =~= lower);
    assert(crate::text::ascii_lowercase("BEARER"@) =~= lower);
    assert(forall|k: int| 0 <= k < 6 ==> #[trigger] "Bearer"@[k] != ' ' && "bearer"@[k] != ' ' && "BEARER"@[k] != ' ');
    if token.len() > 0 {
        lemma_bearer_header("Bearer"@, token);
        lemma_bearer_header("bearer"@, token);
        lemma_bearer_header("BEARER"@, token);
    }
    let e = Seq::<char>::empty();
    assert("Bearer"@ + " "@ =~= "Bearer"@ + seq![' '] + e);
    crate::text::lemma_split_once_at("Bearer"@, ' ', e);
    if (forall|k: int| 0 <= k < scheme.len() ==> #[trigger] scheme[k] != ' ') && scheme.len() != 6 {
        assert(scheme + " "@ + token =~= scheme + seq![' '] + token);
        crate::text::lemma_split_once_at(scheme, ' ', token);
        assert(crate::text::ascii_lowercase(scheme).len() != lower.len());
    }
}

/// The bearer token of a request, given the text of its `Authorization`
/// header (if it has one that is visible ASCII).
pub fn bearer_token(authorization: Option<&str>) -> (r: Option<String>)
    ensures
        match authorization {
            Some(value) => crate::text::opt_text(r) == bearer_of(value@),
            None => r is None,
        },
{
    let value = match authorization {
        Some(v) => v,
        None => return None,
    };
    match split_once_text(value, ' ') {
        Some((scheme, token)) => {
            let sv = chars_of(scheme.as_str());
            let tv = chars_of(token.as_str());
            if equals_ignore_ascii_case(&sv, "bearer") && tv.len() > 0 {
                Some(token)
            } else {
                None
            }
        },
        None => None,
    }
}

/// The key identifier and secret of an API key `<prefix>_<key id>_<secret>`:
/// the first `_`-separated part must be the configured prefix, the second is
/// the key identifier and the rest (which may hold `_`) the secret; neither
/// may be empty.
pub open spec fn api_key_parts(token: Seq<char>, prefix: Seq<char>) -> Option<(Seq<char>, Seq<char>)> {
    match split_once(token, '_') {
        Some((first, rest)) => if first != prefix {
            None
        } else {
            match split_once(rest, '_') {
                Some((key_id, secret)) => if key_id.len() > 0 && secret.len() > 0 {
                    Some((key_id, secret))
                } else {
                    None
                },
                None => None,
            }
        },
        None => None,
    }
}

/// Splits an API key into its key identifier and secret; any other shape
/// is unauthorized.
pub fn parse_api_key(token: &str, expected_prefix: &str) -> (r: Result<(String, String), AppError>)
    ensures
        match api_key_parts(token@, expected_prefix@) {
            Some((key_id, secret)) => r matches Ok((k, s)) && k@ == key_id && s@ == secret,
            None => r matches Err(AppError::Unauthorized),
        },
{
    let (first, rest) = match split_once_text(token, '_') {
        Some(parts) => parts,
        None => return Err(AppError::Unauthorized),
    };
    if !crate::text::str_equal(first.as_str(), expected_prefix) {
        return Err(AppError::Unauthorized);
    }
    let (key_id, secret) = match split_once_text(rest.as_str(), '_') {
        Some(parts) => parts,
        None => return Err(AppError::Unauthorized),
    };
    if chars_of(key_id.as_str()).len() == 0 || chars_of(secret.as_str()).len() == 0 {
        return Err(AppError::Unauthorized);
    }
    Ok((key_id, secret))
}

/// The API key handed to its owner: `<prefix>_<key id>_<secret>`.
pub open spec fn api_key_text(prefix: Seq<char>, key_id: Seq<char>, secret: Seq<char>) -> Seq<char> {
    prefix + "_"@ + key_id + "_"@ + secret
}

/// An API key composed from a prefix and a key identifier that hold no `_`
/// and a non-empty secret is split back into that key identifier and
/// secret.
pub proof fn lemma_api_key_round_trip(prefix: Seq<char>, key_id: Seq<char>, secret: Seq<char>)
    requires
        forall|k: int| 0 <= k < prefix.len() ==> #[trigger] prefix[k] != '_',
        forall|k: int| 0 <= k < key_id.len() ==> #[trigger] key_id[k] != '_',
        key_id.len() > 0,
        secret.len() > 0,
    ensures
        api_key_parts(api_key_text(prefix, key_id, secret), prefix) == Some((key_id, secret)),
{
    reveal_strlit("_");
    assert("_"@ =~= seq!['_']);
    let rest = key_id + seq!['_'] + secret;
    assert(api_key_text(prefix, key_id, secret) =~= prefix + seq!['_'] + rest);
    crate::text::lemma_split_once_at(prefix, '_', rest);
    crate::text::lemma_split_once_at(key_id, '_', secret);
}

// ---------------------------------------------------------------------------
// Password hashes.
// ---------------------------------------------------------------------------

/// What hashing `password` with Argon2id (version 0x13) under the given cost
/// parameters and salt gives: the PHC string of the hash, or the text of the
/// error (cost parameters or salt out of range).
pub uninterp spec fn argon2_hash(password: Seq<u8>, memory_kib: u32, iterations: u32, parallelism: u32, salt: Seq<u8>) -> Result<Seq<char>, Seq<char>>;

/// Hashes a password with `argon2::Argon2` (Argon2id, version 0x13) under
/// `argon2::Params::new(memory_kib, iterations, parallelism, None)` with
/// `PasswordHasher::hash_password_with_salt`. The contract claims only that the
/// result is the one named by `argon2_hash`.
#[verifier::external_body]
fn argon2_hash_password(password: &[u8], memory_kib: u32, iterations: u32, parallelism: u32, salt: &[u8]) -> (r: Result<String, String>)
    ensures
        match argon2_hash(password@, memory_kib, iterations, parallelism, salt@) {
            Ok(h) => r matches Ok(s) && s@ == h,
            Err(m) => r matches Err(e) && e@ == m,
        },
{
    let params = match argon2::Params::new(memory_kib, iterations, parallelism, None) {
        Ok(params) => params,
        Err(error) => return Err(error.to_string()),
    };
    match argon2::Argon2::new(argon2::Algorithm::Argon2id, argon2::Version::V0x13, params).hash_password_with_salt(password, salt) {
        Ok(hash) => Ok(hash.to_string()),
        Err(error) => Err(error.to_string()),
    }
}

/// What checking `password` against the PHC string `hash` with Argon2id
/// (version 0x13) under the given cost parameters gives: whether it matches,
/// or the text of the error when the parameters or the hash are malformed.
pub uninterp spec fn argon2_check(password: Seq<u8>, memory_kib: u32, iterations: u32, parallelism: u32, hash: Seq<char>) -> Result<bool, Seq<char>>;

/// Checks a password with `argon2::Argon2::verify_password` against
/// `argon2::PasswordHash::new(hash)`. The contract claims only that the
/// result is the one named by `argon2_check`.
#[verifier::external_body]
fn argon2_verify_password(password: &[u8], memory_kib: u32, iterations: u32, parallelism: u32, hash: &str) -> (r: Result<bool, String>)
    ensures
        match argon2_check(password@, memory_kib, iterations, parallelism, hash@) {
            Ok(b) => r == Ok::<bool, String>(b),
            Err(m) => r matches Err(e) && e@ == m,
        },
{
    let params = match argon2::Params::new(memory_kib, iterations, parallelism, None) {
        Ok(params) => params,
        Err(error) => return Err(error.to_string()),
    };
    let parsed = match argon2::PasswordHash::new(hash) {
        Ok(parsed) => parsed,
        Err(error) => return Err(error.to_string()),
    };
    let hasher = argon2::Argon2::new(argon2::Algorithm::Argon2id, argon2::Version::V0x13, params);
    Ok(PasswordVerifier::<argon2::PasswordHash>::verify_password(&hasher, password, &parsed).is_ok())
}

// ---------------------------------------------------------------------------
// Playback tokens.
// ---------------------------------------------------------------------------

/// The JSON document of playback claims, as `serde_json` writes the claims
/// struct: `{"media_id":…,"account_id":…,"expires_at":…}`.
pub open spec fn claims_json(media_id: Seq<char>, account_id: Seq<char>, expires_at: int) -> Seq<char> {
    "{\"media_id\":"@ + json_string(media_id) + ",\"account_id\":"@ + json_string(account_id)
        + ",\"expires_at\":"@ + signed_decimal(expires_at) + "}"@
}

/// A signed playback token: the Base64 of the claims, a `.`, and the Base64
/// of the HMAC-SHA256 of that first part under the signing key.
pub open spec fn playback_token_text(key: Seq<u8>, claims: Seq<u8>) -> Seq<char> {
    let encoded = base64url(claims);
    encoded + "."@ + base64url(hmac_sha256(key, utf8(encoded)))
}

/// The bytes whose Base64 is `s`, if there are any.
pub open spec fn base64url_decoded(s: Seq<char>) -> Option<Seq<u8>> {
    if exists|b: Seq<u8>| base64url(b) == s {
        Some(choose|b: Seq<u8>| base64url(b) == s)
    } else {
        None
    }
}

/// The claims bytes of a playback token whose signature is valid under
/// `key`; `None` for a token without a `.`, with a part that is not Base64,
/// or with a wrong signature.
pub open spec fn signed_payload(key: Seq<u8>, token: Seq<char>) -> Option<Seq<u8>> {
    match split_once(token, '.') {
        None => None,
        Some((encoded, signature)) => match base64url_decoded(signature) {
            None => None,
            Some(supplied) => if supplied != hmac_sha256(key, utf8(encoded)) {
                None
            } else {
                base64url_decoded(encoded)
            },
        },
    }
}

fn decode_part(text: &str) -> (r: Option<Vec<u8>>)
    ensures
        match base64url_decoded(text@) {
            Some(b) => r matches Some(v) && v@ == b,
            None => r is None,
        },
{
    let decoded = base64url_decode(text);
    proof {
        if decoded is Some {
            let b = choose|b: Seq<u8>| base64url(b) == text@;
            lemma_base64url_injective(b, decoded.unwrap()@);
        }
    }
    decoded
}

/// The service's authentication settings and the checks made with them.
#[derive(Clone, Debug)]
pub struct AuthService {
    security: SecurityConfig,
    browser: BrowserAuthConfig,
}

/// A browser session just issued or refreshed.
#[derive(Clone, Debug)]
pub struct BrowserSessionIssue {
    pub account_id: String,
    pub session_token: String,
    pub csrf_token: String,
    pub expires_at: String,
}

impl AuthService {
    pub closed spec fn security(&self) -> SecurityConfig {
        self.security
    }

    pub closed spec fn browser(&self) -> BrowserAuthConfig {
        self.browser
    }

    pub fn new(security: SecurityConfig, browser: BrowserAuthConfig) -> (r: AuthService)
        ensures
            r.security() == security,
            r.browser() == browser,
    {
        AuthService { security, browser }
    }

    /// Whether the supplied admin token is the expected one, compared in
    /// constant time.
    pub fn admin_token_matches(&self, expected: &str, supplied: &str) -> (r: bool)
        ensures
            r == (expected@ == supplied@),
    {
        let e = str_bytes(expected);
        let s = str_bytes(supplied);
        let r = constant_time_equal(e.as_slice(), s.as_slice());
        proof {
            if e@ == s@ {
                lemma_utf8_injective(expected@, supplied@);
            }
        }
        r
    }

    /// The stored hash of a browser session token.
    pub fn session_token_hash(&self, token: &str) -> (r: String)
        ensures
            r@ == keyed_hash_text(utf8(self.browser().session_signing_key@), utf8("session"@), token@),
    {
        let key = str_bytes(self.browser.session_signing_key.as_str());
        let purpose = str_bytes("session");
        keyed_hash(key.as_slice(), purpose.as_slice(), token)
    }

    /// The stored hash of a CSRF token.
    pub fn csrf_token_hash(&self, token: &str) -> (r: String)
        ensures
            r@ == keyed_hash_text(utf8(self.browser().session_signing_key@), utf8("csrf"@), token@),
    {
        let key = str_bytes(self.browser.session_signing_key.as_str());
        let purpose = str_bytes("csrf");
        keyed_hash(key.as_slice(), purpose.as_slice(), token)
    }

    /// The CSRF check of a write made with a browser session: the header
    /// must be present and not empty, and its keyed hash must equal the
    /// stored one (compared in constant time); otherwise the write is
    /// forbidden.
    pub fn check_csrf(&self, supplied: Option<&str>, expected_hash: &str) -> (r: Result<(), AppError>)
        ensures
            match supplied {
                Some(s) => if s@.len() > 0 && keyed_hash_text(
                    utf8(self.browser().session_signing_key@),
                    utf8("csrf"@),
                    s@,
                ) == expected_hash@ {
                    r is Ok
                } else {
                    r matches Err(AppError::Forbidden)
                },
                None => r matches Err(AppError::Forbidden),
            },
    {
        let value = match supplied {
            Some(v) => v,
            None => return Err(AppError::Forbidden),
        };
        if chars_of(value).len() == 0 {
            return Err(AppError::Forbidden);
        }
        let supplied_hash = self.csrf_token_hash(value);
        let a = str_bytes(supplied_hash.as_str());
        let b = str_bytes(expected_hash);
        let same = constant_time_equal(a.as_slice(), b.as_slice());
        proof {
            if a@ == b@ {
                lemma_utf8_injective(supplied_hash@, expected_hash@);
            }
        }
        if same {
            Ok(())
        } else {
            Err(AppError::Forbidden)
        }
    }

    /// The password with the configured pepper appended, as the hash input.
    pub open spec fn peppered(password: Seq<char>, pepper: Seq<char>) -> Seq<u8> {
        utf8(password + pepper)
    }

    /// Hashes an account password (with the password pepper) under the
    /// configured Argon2 costs and the given random salt.
    pub fn hash_account_password(&self, password: &str, salt: &[u8]) -> (r: Result<String, AppError>)
        ensures
            match argon2_hash(
                Self::peppered(password@, self.browser().password_pepper@),
                self.browser().password_argon2_memory_kib,
                self.browser().password_argon2_iterations,
                self.browser().password_argon2_parallelism,
                salt@,
            ) {
                Ok(h) => r matches Ok(s) && s@ == h,
                Err(m) => r matches Err(AppError::Internal(e)) && e@ == m,
            },
    {
        let mut input = password.to_owned();
        push_str(&mut input, self.browser.password_pepper.as_str());
        let bytes = str_bytes(input.as_str());
        match argon2_hash_password(
            bytes.as_slice(),
            self.browser.password_argon2_memory_kib,
            self.browser.password_argon2_iterations,
            self.browser.password_argon2_parallelism,
            salt,
        ) {
            Ok(hash) => Ok(hash),
            Err(message) => Err(AppError::Internal(message)),
        }
    }

    /// Whether an account password (with the password pepper) matches the
    /// stored hash; a malformed hash is an internal error.
    pub fn verify_account_password(&self, password: &str, expected_hash: &str) -> (r: Result<bool, AppError>)
        ensures
            match argon2_check(
                Self::peppered(password@, self.browser().password_pepper@),
                self.browser().password_argon2_memory_kib,
                self.browser().password_argon2_iterations,
                self.browser().password_argon2_parallelism,
                expected_hash@,
            ) {
                Ok(b) => r matches Ok(v) && v == b,
                Err(m) => r matches Err(AppError::Internal(e)) && e@ == m,
            },
    {
        let mut input = password.to_owned();
        push_str(&mut input, self.browser.password_pepper.as_str());
        let bytes = str_bytes(input.as_str());
        match argon2_verify_password(
            bytes.as_slice(),
            self.browser.password_argon2_memory_kib,
            self.browser.password_argon2_iterations,
            self.browser.password_argon2_parallelism,
            expected_hash,
        ) {
            Ok(b) => Ok(b),
            Err(message) => Err(AppError::Internal(message)),
        }
    }

    /// Hashes an API key secret (with the API key pepper) under the
    /// configured Argon2 costs and the given random salt.
    pub fn hash_api_key_secret(&self, secret: &str, salt: &[u8]) -> (r: Result<String, AppError>)
        ensures
            match argon2_hash(
                Self::peppered(secret@, self.security().api_key_pepper@),
                self.security().api_key_argon2_memory_kib,
                self.security().api_key_argon2_iterations,
                self.security().api_key_argon2_parallelism,
                salt@,
            ) {
                Ok(h) => r matches Ok(s) && s@ == h,
                Err(m) => r matches Err(AppError::Internal(e)) && e@ == m,
            },
    {
        let mut input = secret.to_owned();
        push_str(&mut input, self.security.api_key_pepper.as_str());
        let bytes = str_bytes(input.as_str());
        match argon2_hash_password(
            bytes.as_slice(),
            self.security.api_key_argon2_memory_kib,
            self.security.api_key_argon2_iterations,
            self.security.api_key_argon2_parallelism,
            salt,
        ) {
            Ok(hash) => Ok(hash),
            Err(message) => Err(AppError::Internal(message)),
        }
    }

    /// The check of an API key secret against its stored hash, once the key
    /// was found: an inactive account is forbidden, a secret that does not
    /// match is unauthorized, and a malformed hash is an internal error.
    pub fn check_api_key_secret(&self, account_status: &str, secret: &str, expected_hash: &str) -> (r: Result<(), AppError>)
        ensures
            account_status@ != "active"@ ==> r matches Err(AppError::Forbidden),
            account_status@ == "active"@ ==> match argon2_check(
                Self::peppered(secret@, self.security().api_key_pepper@),
                self.security().api_key_argon2_memory_kib,
                self.security().api_key_argon2_iterations,
                self.security().api_key_argon2_parallelism,
                expected_hash@,
            ) {
                Ok(true) => r is Ok,
                Ok(false) => r matches Err(AppError::Unauthorized),
                Err(m) => r matches Err(AppError::Internal(e)) && e@ == m,
            },
    {
        if !crate::text::str_equal(account_status, "active") {
            return Err(AppError::Forbidden);
        }
        let mut input = secret.to_owned();
        push_str(&mut input, self.security.api_key_pepper.as_str());
        let bytes = str_bytes(input.as_str());
        match argon2_verify_password(
            bytes.as_slice(),
            self.security.api_key_argon2_memory_kib,
            self.security.api_key_argon2_iterations,
            self.security.api_key_argon2_parallelism,
            expected_hash,
        ) {
            Ok(true) => Ok(()),
            Ok(false) => Err(AppError::Unauthorized),
            Err(message) => Err(AppError::Internal(message)),
        }
    }

    /// The API key handed to its owner: the configured prefix, the key
    /// identifier and the secret, joined by `_`.
    pub fn compose_api_key(&self, key_id: &str, secret: &str) -> (r: String)
        ensures
            r@ == api_key_text(self.security().api_key_prefix@, key_id@, secret@),
    {
        let mut s = self.security.api_key_prefix.as_str().to_owned();
        push_str(&mut s, "_");
        push_str(&mut s, key_id);
        push_str(&mut s, "_");
        push_str(&mut s, secret);
        proof {
            reveal_strlit("_");
        }
        s
    }

    /// A playback token for `media_id` of `account_id`, valid until
    /// `now_seconds` plus the configured lifetime.
    pub fn sign_playback_token(&self, media_id: &str, account_id: &str, now_seconds: i64) -> (r: String)
        requires
            i64::MIN <= now_seconds + self.security().playback_token_ttl_seconds <= i64::MAX,
        ensures
            r@ == playback_token_text(
                utf8(self.security().playback_signing_key@),
                utf8(claims_json(media_id@, account_id@, now_seconds + self.security().playback_token_ttl_seconds)),
            ),
    {
        let expires_at = now_seconds + self.security.playback_token_ttl_seconds;
        let mut claims = "{\"media_id\":".to_owned();
        push_str(&mut claims, json_string_literal(media_id).as_str());
        push_str(&mut claims, ",\"account_id\":");
        push_str(&mut claims, json_string_literal(account_id).as_str());
        push_str(&mut claims, ",\"expires_at\":");
        push_signed_decimal(&mut claims, expires_at);
        push_str(&mut claims, "}");
        let payload = str_bytes(claims.as_str());
        let encoded = base64url_encode(payload.as_slice());
        let key = str_bytes(self.security.playback_signing_key.as_str());
        let message = str_bytes(encoded.as_str());
        let tag = mac_tag(key.as_slice(), message.as_slice());
        let signature = base64url_encode(tag.as_slice());
        let mut token = encoded;
        push_str(&mut token, ".");
        push_str(&mut token, signature.as_str());
        token
    }

    /// The claims bytes of a playback token, once its signature is checked;
    /// a token without a `.`, with a part that is not Base64, or with a
    /// wrong signature is unauthorized. The claims document itself is read
    /// by the caller and checked with `check_playback_claims`.
    pub fn verify_playback_signature(&self, token: &str) -> (r: Result<Vec<u8>, AppError>)
        ensures
            match signed_payload(utf8(self.security().playback_signing_key@), token@) {
                Some(claims) => r matches Ok(b) && b@ == claims,
                None => r matches Err(AppError::Unauthorized),
            },
    {
        let (encoded, signature) = match split_once_text(token, '.') {
            Some(parts) => parts,
            None => return Err(AppError::Unauthorized),
        };
        let supplied = match decode_part(signature.as_str()) {
            Some(b) => b,
            None => return Err(AppError::Unauthorized),
        };
        let key = str_bytes(self.security.playback_signing_key.as_str());
        let message = str_bytes(encoded.as_str());
        if !mac_matches(key.as_slice(), message.as_slice(), supplied.as_slice()) {
            return Err(AppError::Unauthorized);
        }
        match decode_part(encoded.as_str()) {
            Some(payload) => Ok(payload),
            None => Err(AppError::Unauthorized),
        }
    }
}

/// A signed token carries its claims: checking the signature of the token
/// signed for some claims gives back exactly those claims.
pub proof fn lemma_signed_token_verifies(key: Seq<u8>, claims: Seq<u8>)
    ensures
        signed_payload(key, playback_token_text(key, claims)) == Some(claims),
{
    let encoded = base64url(claims);
    let tag = hmac_sha256(key, utf8(encoded));
    let signature = base64url(tag);
    let token = playback_token_text(key, claims);
    lemma_base64url_has_no_dot(claims);
    assert(token == encoded + "."@ + signature);
    lemma_split_at_first(encoded, signature);
    assert(split_once(token, '.') == Some((encoded, signature)));
    let d = choose|b: Seq<u8>| base64url(b) == signature;
    assert(base64url(tag) == signature);
    lemma_base64url_injective(d, tag);
    let e = choose|b: Seq<u8>| base64url(b) == encoded;
    assert(base64url(claims) == encoded);
    lemma_base64url_injective(e, claims);
}

/// No Base64 symbol is a `.`.
proof fn lemma_base64url_has_no_dot(b: Seq<u8>)
    ensures
        forall|k: int| 0 <= k < base64url(b).len() ==> #[trigger] base64url(b)[k] != '.',
    decreases b.len(),
{
    reveal_strlit(".");
    if b.len() >= 3 {
        lemma_base64url_has_no_dot(b.skip(3));
        let e = base64url(b);
        assert forall|k: int| 0 <= k < e.len() implies #[trigger] e[k] != '.' by {
            if k >= 4 {
                assert(e[k] == base64url(b.skip(3))[k - 4]);
            }
        }
    }
}

/// Splitting `a.b` at the first `.`, where `a` holds none, gives `a` and `b`.
proof fn lemma_split_at_first(a: Seq<char>, b: Seq<char>)
    requires
        forall|k: int| 0 <= k < a.len() ==> #[trigger] a[k] != '.',
    ensures
        split_once(a + "."@ + b, '.') == Some((a, b)),
{
    reveal_strlit(".");
    let t = a + "."@ + b;
    assert forall|k: int| 0 <= k < a.len() implies #[trigger] t[k] != '.' by {
        assert(t[k] == a[k]);
    }
    assert(t[a.len() as int] == '.');
    crate::text::lemma_first_pos_unique(t, '.', a.len() as int);
    assert(t.take(a.len() as int) =~= a);
    assert(t.skip(a.len() + 1int) =~= b);
}

/// The check of verified playback claims against the requested media and
/// account and the current time (in seconds).
pub fn check_playback_claims(
    claimed_media_id: &str,
    claimed_account_id: &str,
    expires_at: i64,
    media_id: &str,
    account_id: &str,
    now_seconds: i64,
) -> (r: Result<(), AppError>)
    ensures
        r is Ok <==> (claimed_media_id@ == media_id@ && claimed_account_id@ == account_id@
            && expires_at >= now_seconds),
        r is Err ==> r matches Err(AppError::Unauthorized),
{
    if !crate::text::str_equal(claimed_media_id, media_id) || !crate::text::str_equal(
        claimed_account_id,
        account_id,
    ) || expires_at < now_seconds {
        return Err(AppError::Unauthorized);
    }
    Ok(())
}

// ---------------------------------------------------------------------------
// Browser sessions.
// ---------------------------------------------------------------------------

/// Whether a browser session is over at `now`: past its expiry, or idle
/// since `last_used_at` for the configured idle timeout (times in
/// nanoseconds, the timeout in seconds).
pub open spec fn session_over(now: int, expires_at: int, last_used_at: int, idle_timeout_seconds: int) -> bool {
    now >= expires_at || now >= last_used_at + idle_timeout_seconds * 1_000_000_000
}

/// Whether a browser session is over at `now`.
pub fn session_is_over(now_ns: i64, expires_at_ns: i64, last_used_at_ns: i64, idle_timeout_seconds: i64) -> (r: bool)
    ensures
        r == session_over(now_ns as int, expires_at_ns as int, last_used_at_ns as int, idle_timeout_seconds as int),
{
    let idle_deadline: i128 = (last_used_at_ns as i128) + (idle_timeout_seconds as i128) * 1_000_000_000i128;
    now_ns >= expires_at_ns || (now_ns as i128) >= idle_deadline
}

/// A session lives until the earlier of its expiry and its idle deadline,
/// `idle_timeout_seconds` seconds (of 10^9 nanoseconds each) after its last
/// use: before both it is not over, from either on it is over, and once over
/// it stays over as time goes on.
pub proof fn lemma_session_lifetime(
    now: int,
    later: int,
    expires_at: int,
    last_used_at: int,
    idle_timeout_seconds: int,
)
    requires
        now <= later,
    ensures
        now < expires_at && now - last_used_at < idle_timeout_seconds * 1_000_000_000 ==> !session_over(
            now,
            expires_at,
            last_used_at,
            idle_timeout_seconds,
        ),
        now >= expires_at ==> session_over(now, expires_at, last_used_at, idle_timeout_seconds),
        now - last_used_at >= idle_timeout_seconds * 1_000_000_000 ==> session_over(
            now,
            expires_at,
            last_used_at,
            idle_timeout_seconds,
        ),
        session_over(now, expires_at, last_used_at, idle_timeout_seconds) ==> session_over(
            later,
            expires_at,
            last_used_at,
            idle_timeout_seconds,
        ),
{
}

/// The check of the account behind a browser session: only active accounts
/// may use one.
pub fn check_account_active(status: &str) -> (r: Result<(), AppError>)
    ensures
        r is Ok <==> status@ == "active"@,
        r is Err ==> r matches Err(AppError::Forbidden),
{
    if crate::text::str_equal(status, "active") {
        Ok(())
    } else {
        Err(AppError::Forbidden)
    }
}

/// How many of an account's oldest sessions are removed before a new one is
/// issued so that it keeps at most `maximum` sessions.
pub fn sessions_to_remove(count: i64, maximum: u32) -> (r: i64)
    requires
        count < i64::MAX || maximum > 0,
    ensures
        r == if count >= maximum {
            count - maximum + 1
        } else {
            0
        },
{
    let maximum = maximum as i64;
    if count >= maximum {
        count - maximum + 1
    } else {
        0
    }
}

} // verus!

//! Digests, encodings and chance, as the outside crates provide them.

use crate::text::{after_prefix, hex, hex_text};
use base64::Engine;
use hmac::Mac;
use vstd::prelude::*;
use vstd::utf8::*;

verus! {

broadcast use vstd::string::group_string_axioms;

/// The MD5 digest of a message.
pub uninterp spec fn md5_digest(message: Seq<u8>) -> Seq<u8>;

/// `md5::compute` gives the sixteen bytes of the digest.
#[verifier::external_body]
fn md5_bytes(message: &[u8]) -> (r: Vec<u8>)
    ensures
        r@ == md5_digest(message@),
        r@.len() == 16,
{
    md5::compute(message).0.to_vec()
}

/// The MD5 digest of a text, in hexadecimal.
pub open spec fn md5_hex_of(s: Seq<char>) -> Seq<char> {
    hex_text(md5_digest(encode_utf8(s)))
}

/// The MD5 digest of a text, in hexadecimal.
pub fn md5_hex(s: &str) -> (r: String)
    ensures
        r@ == md5_hex_of(s@),
        r@.len() == 32,
{
    let digest = md5_bytes(s.as_bytes());
    hex(digest.as_slice())
}

/// `bcrypt::BcryptError`, opaque here.
#[verifier::external_type_specification]
#[verifier::external_body]
pub struct ExBcryptError(bcrypt::BcryptError);

/// Whether `bcrypt::verify` accepts a password for a hash.
pub uninterp spec fn bcrypt_matches(password: Seq<char>, hash: Seq<char>) -> bool;

/// The form of a hash: version, cost, salt and digest in sixty characters.
pub open spec fn is_hash_text(h: Seq<char>) -> bool {
    h.len() == 60 && after_prefix(h, "$2b$12$"@) is Some
}

/// Whether an error is `BcryptError::Rand`.
pub uninterp spec fn is_rand_error(e: bcrypt::BcryptError) -> bool;

/// How a hash fails: no randomness can be had.
pub open spec fn is_randomness_reason(text: Seq<char>) -> bool {
    after_prefix(text, "Rand error: "@) is Some
}

/// `bcrypt::hash` at the default cost. The salt is drawn at random, so only
/// this holds of every hash: its form, and that `bcrypt::verify` accepts the
/// password for it. It fails where no randomness can be had, and only there.
#[verifier::external_body]
fn bcrypt_make(password: &str) -> (r: Result<String, bcrypt::BcryptError>)
    ensures
        match r {
            Ok(h) => is_hash_text(h@) && bcrypt_matches(password@, h@),
            Err(e) => is_rand_error(e),
        },
{
    bcrypt::hash(password, bcrypt::DEFAULT_COST)
}

/// `bcrypt::verify` answers for a hash that it can read, and reports an error
/// for any other text.
#[verifier::external_body]
fn bcrypt_check(password: &str, hash: &str) -> (r: Result<bool, bcrypt::BcryptError>)
    ensures
        match r {
            Ok(b) => b == bcrypt_matches(password@, hash@),
            Err(_) => !bcrypt_matches(password@, hash@),
        },
{
    bcrypt::verify(password, hash)
}

/// The `Display` text of a `bcrypt::BcryptError`. That of `BcryptError::Rand`
/// begins with the same words; what follows them, and what other errors say,
/// is left open.
#[verifier::external_body]
fn bcrypt_error_text(e: &bcrypt::BcryptError) -> (r: String)
    ensures
        is_rand_error(*e) ==> is_randomness_reason(r@),
{
    e.to_string()
}

/// A hash that was made, or the reason why none was.
pub fn hash_or_reason(made: Result<String, bcrypt::BcryptError>) -> (r: Result<String, String>)
    ensures
        match made {
            Ok(h) => r == Ok::<String, String>(h),
            Err(e) => r is Err && (is_rand_error(e) ==> is_randomness_reason(r->Err_0@)),
        },
{
    match made {
        Ok(h) => Ok(h),
        Err(e) => Err(bcrypt_error_text(&e)),
    }
}

/// Hashes a password with bcrypt.
pub fn bcrypt_hash(password: &str) -> (r: Result<String, String>)
    ensures
        match r {
            Ok(h) => is_hash_text(h@) && bcrypt_matches(password@, h@),
            Err(e) => is_randomness_reason(e@),
        },
{
    hash_or_reason(bcrypt_make(password))
}

/// Checks a password against a bcrypt hash; a hash that cannot be read matches
/// no password.
pub fn bcrypt_verify(password: &str, hash: &str) -> (r: bool)
    ensures
        r == bcrypt_matches(password@, hash@),
{
    match bcrypt_check(password, hash) {
        Ok(b) => b,
        Err(_) => false,
    }
}

/// The HMAC-SHA256 of a message under a key.
pub uninterp spec fn hmac_sha256(key: Seq<u8>, message: Seq<u8>) -> Seq<u8>;

/// `digest::InvalidLength`, opaque here.
#[verifier::external_type_specification]
#[verifier::external_body]
pub struct ExInvalidLength(hmac::digest::InvalidLength);

/// `Hmac::<Sha256>::new_from_slice`, which takes a key of any length, then
/// `update` and `finalize`: the thirty-two bytes of the code.
#[verifier::external_body]
fn hmac_bytes(key: &[u8], message: &[u8]) -> (r: Result<Vec<u8>, hmac::digest::InvalidLength>)
    ensures
        r is Ok,
        r->Ok_0@ == hmac_sha256(key@, message@),
        r->Ok_0@.len() == 32,
{
    let mut mac = <hmac::Hmac<sha2::Sha256>>::new_from_slice(key)?;
    mac.update(message);
    Ok(mac.finalize().into_bytes().to_vec())
}

/// The HMAC-SHA256 of a text, in hexadecimal.
pub open spec fn signature(key: Seq<u8>, payload: Seq<char>) -> Seq<char> {
    hex_text(hmac_sha256(key, encode_utf8(payload)))
}

/// Signs a text.
pub fn sign(key: &[u8], payload: &str) -> (r: String)
    ensures
        r@ == signature(key@, payload@),
        r@.len() == 64,
{
    match hmac_bytes(key, payload.as_bytes()) {
        Ok(code) => hex(code.as_slice()),
        Err(_) => String::new(),
    }
}

/// The characters of the URL-safe base64 alphabet.
pub open spec fn is_url_safe(c: char) -> bool {
    'A' <= c <= 'Z' || 'a' <= c <= 'z' || '0' <= c <= '9' || c == '-' || c == '_'
}

/// The character of the URL-safe base64 alphabet that stands for `n`, below 64.
pub open spec fn base64_char(n: int) -> char {
    if n < 26 {
        ((65 + n) as u8) as char
    } else if n < 52 {
        ((71 + n) as u8) as char
    } else if n < 62 {
        ((n - 4) as u8) as char
    } else if n == 62 {
        '-'
    } else {
        '_'
    }
}

/// URL-safe base64 without padding: three bytes become four characters of six
/// bits each, and one or two bytes at the end become two or three.
pub open spec fn base64_text(d: Seq<u8>) -> Seq<char>
    decreases d.len(),
{
    if d.len() == 0 {
        Seq::empty()
    } else if d.len() == 1 {
        seq![base64_char(d[0] as int / 4), base64_char(d[0] % 4 * 16)]
    } else if d.len() == 2 {
        seq![
            base64_char(d[0] as int / 4),
            base64_char(d[0] % 4 * 16 + d[1] / 16),
            base64_char(d[1] % 16 * 4),
        ]
    } else {
        seq![
            base64_char(d[0] as int / 4),
            base64_char(d[0] % 4 * 16 + d[1] / 16),
            base64_char(d[1] % 16 * 4 + d[2] / 64),
            base64_char(d[2] as int % 64),
        ] + base64_text(d.skip(3))
    }
}

/// The data that a text is the base64 of, where there is such data.
pub open spec fn base64_data(text: Seq<char>) -> Option<Seq<u8>> {
    if exists|d: Seq<u8>| base64_text(d) == text {
        Some(choose|d: Seq<u8>| base64_text(d) == text)
    } else {
        None
    }
}

/// Base64 uses nothing but its alphabet.
pub proof fn lemma_base64_alphabet(d: Seq<u8>)
    ensures
        forall|i: int| 0 <= i < base64_text(d).len() ==> is_url_safe(#[trigger] base64_text(d)[i]),
    decreases d.len(),
{
    if d.len() >= 3 {
        lemma_base64_alphabet(d.skip(3));
        assert forall|i: int| 0 <= i < base64_text(d).len() implies is_url_safe(
            #[trigger] base64_text(d)[i],
        ) by {
            if i >= 4 {
                assert(base64_text(d)[i] == base64_text(d.skip(3))[i - 4]);
            }
        }
    }
}

proof fn lemma_base64_length(d: Seq<u8>)
    ensures
        base64_text(d).len() == d.len() / 3 * 4 + if d.len() % 3 == 0 {
            0nat
        } else {
            d.len() % 3 + 1
        },
    decreases d.len(),
{
    if d.len() >= 3 {
        lemma_base64_length(d.skip(3));
    }
}

proof fn lemma_base64_char_tells_apart(m: int, n: int)
    requires
        0 <= m < 64,
        0 <= n < 64,
        base64_char(m) == base64_char(n),
    ensures
        m == n,
{
}

/// Different data have different base64.
pub proof fn lemma_base64_tells_apart(a: Seq<u8>, b: Seq<u8>)
    requires
        base64_text(a) == base64_text(b),
    ensures
        a == b,
    decreases a.len(),
{
    lemma_base64_length(a);
    lemma_base64_length(b);
    assert(a.len() == b.len());
    let s = base64_text(a);
    let t = base64_text(b);
    if a.len() > 0 {
        assert(s[0] == t[0] && s[1] == t[1]);
        lemma_base64_char_tells_apart(a[0] as int / 4, b[0] as int / 4);
    }
    if a.len() == 1 {
        lemma_base64_char_tells_apart(a[0] % 4 * 16, b[0] % 4 * 16);
        assert(a =~= b);
    } else if a.len() >= 2 {
        assert(s[2] == t[2]);
        lemma_base64_char_tells_apart(a[0] % 4 * 16 + a[1] / 16, b[0] % 4 * 16 + b[1] / 16);
        assert(a[0] == b[0]);
        if a.len() == 2 {
            lemma_base64_char_tells_apart(a[1] % 16 * 4, b[1] % 16 * 4);
            assert(a =~= b);
        } else {
            assert(s[3] == t[3]);
            lemma_base64_char_tells_apart(a[1] % 16 * 4 + a[2] / 64, b[1] % 16 * 4 + b[2] / 64);
            lemma_base64_char_tells_apart(a[2] as int % 64, b[2] as int % 64);
            assert(s.skip(4) =~= base64_text(a.skip(3)));
            assert(t.skip(4) =~= base64_text(b.skip(3)));
            lemma_base64_tells_apart(a.skip(3), b.skip(3));
            assert forall|i: int| 0 <= i < a.len() implies a[i] == b[i] by {
                if i >= 3 {
                    assert(a[i] == a.skip(3)[i - 3]);
                    assert(b[i] == b.skip(3)[i - 3]);
                }
            }
            assert(a =~= b);
        }
    } else if a.len() == 0 {
        assert(a =~= b);
    }
}

/// Reading back what was written in base64 gives the data.
pub proof fn lemma_base64_reads_back(d: Seq<u8>)
    ensures
        base64_data(base64_text(d)) == Some(d),
{
    let other = choose|e: Seq<u8>| base64_text(e) == base64_text(d);
    lemma_base64_tells_apart(other, d);
}

/// `URL_SAFE_NO_PAD.encode`. A slice has at most `isize::MAX` bytes, so the
/// length of the text never overflows.
#[verifier::external_body]
fn base64_encode(data: &[u8]) -> (r: String)
    ensures
        r@ == base64_text(data@),
{
    base64::engine::general_purpose::URL_SAFE_NO_PAD.encode(data)
}

/// `URL_SAFE_NO_PAD.decode` accepts exactly the texts that `encode` writes:
/// padding, other characters, a lone character and bits left over at the end
/// are errors.
#[verifier::external_body]
fn base64_decode(text: &str) -> (r: Option<Vec<u8>>)
    ensures
        match r {
            Some(data) => text@ == base64_text(data@),
            None => forall|d: Seq<u8>| #[trigger] base64_text(d) != text@,
        },
{
    base64::engine::general_purpose::URL_SAFE_NO_PAD.decode(text).ok()
}

/// Writes bytes in URL-safe base64 without padding.
pub fn use_base64(data: &[u8]) -> (r: String)
    ensures
        r@ == base64_text(data@),
{
    base64_encode(data)
}

/// Reads URL-safe base64 without padding.
pub fn read_base64(text: &str) -> (r: Option<Vec<u8>>)
    ensures
        match r {
            Some(data) => base64_data(text@) == Some(data@),
            None => base64_data(text@) is None,
        },
{
    let r = base64_decode(text);
    proof {
        if r is Some {
            lemma_base64_reads_back(r->Some_0@);
        }
    }
    r
}

/// `rand::random` draws a byte; nothing is known of it.
#[verifier::external_body]
fn random_byte() -> (r: u8) {
    rand::random::<u8>()
}

/// Draws `n` bytes at random.
pub fn random_bytes(n: usize) -> (r: Vec<u8>)
    ensures
        r@.len() == n,
{
    let mut out: Vec<u8> = Vec::new();
    while out.len() < n
        invariant
            out@.len() <= n,
        decreases n - out@.len(),
    {
        out.push(random_byte());
    }
    out
}

} // verus!

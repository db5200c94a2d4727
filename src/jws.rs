use crate::labels::{lemma_split_three, split_labels, split_on_dots};
use openssl::bn::BigNum;
use openssl::hash::MessageDigest;
use openssl::pkey::PKey;
use openssl::rsa::Rsa;
use openssl::sign::{Signer, Verifier};
use rand::RngCore;
use rustc_serialize::base64::{FromBase64, ToBase64};
use vstd::prelude::*;
use vstd::string::StringExecFns;
use vstd::utf8::encode_utf8;

verus! {

/// A character of the URL-safe base64 alphabet.
pub open spec fn is_b64url_char(c: char) -> bool {
    ('A' <= c && c <= 'Z') || ('a' <= c && c <= 'z') || ('0' <= c && c <= '9') || c == '-' || c
        == '_'
}

/// Every character of `s` is of the URL-safe base64 alphabet.
pub open spec fn is_b64url(s: Seq<char>) -> bool {
    forall|i: int| 0 <= i < s.len() ==> is_b64url_char(#[trigger] s[i])
}

/// The number of characters of the unpadded base64 text of `n` bytes.
pub open spec fn b64_unpadded_len(n: nat) -> nat {
    (4 * n + 2) / 3
}

/// The unpadded URL-safe base64 text of some bytes.
pub uninterp spec fn b64url_of(bytes: Seq<u8>) -> Seq<char>;

/// The bytes that a base64 text decodes to, or `None` where it is not valid base64.
pub uninterp spec fn b64url_decoded(text: Seq<char>) -> Option<Seq<u8>>;

/// The string member `key` of the JSON object that `json` holds, if it holds one.
pub uninterp spec fn json_str_member(json: Seq<u8>, key: Seq<char>) -> Option<Seq<char>>;

/// Whether some bytes are a JSON document.
pub uninterp spec fn json_valid(json: Seq<u8>) -> bool;

/// The lower-case hexadecimal digit of a value under 16.
pub open spec fn hex_digit(d: u32) -> char {
    seq!['0', '1', '2', '3', '4', '5', '6', '7', '8', '9', 'a', 'b', 'c', 'd', 'e', 'f'][d as int]
}

/// How a character stands inside a JSON string literal: `"` and `\` are escaped, the
/// control characters below U+0020 take their short escape or `\u00XX`, and any other
/// character stands as it is.
pub open spec fn json_escape_char(c: char) -> Seq<char> {
    if c == '"' {
        seq!['\\', '"']
    } else if c == '\\' {
        seq!['\\', '\\']
    } else if c == '\u{8}' {
        seq!['\\', 'b']
    } else if c == '\t' {
        seq!['\\', 't']
    } else if c == '\n' {
        seq!['\\', 'n']
    } else if c == '\u{c}' {
        seq!['\\', 'f']
    } else if c == '\r' {
        seq!['\\', 'r']
    } else if (c as u32) < 0x20 {
        seq!['\\', 'u', '0', '0', hex_digit((c as u32) / 16), hex_digit((c as u32) % 16)]
    } else {
        seq![c]
    }
}

/// The escaped characters of a string.
pub open spec fn json_escape(s: Seq<char>) -> Seq<char>
    decreases s.len(),
{
    if s.len() == 0 {
        Seq::empty()
    } else {
        json_escape(s.drop_last()) + json_escape_char(s.last())
    }
}

/// The JSON string literal for a string: its escaped characters between quotes.
pub open spec fn json_quoted(s: Seq<char>) -> Seq<char> {
    seq!['"'] + json_escape(s) + seq!['"']
}

/// The SHA-256 digest of some bytes.
pub uninterp spec fn sha256_of(bytes: Seq<u8>) -> Seq<u8>;

/// The big-endian modulus and public exponent of the RSA private key in an unencrypted
/// PEM document; `None` where the document holds no such key.
pub uninterp spec fn pem_rsa_parts(pem: Seq<u8>) -> Option<(Seq<u8>, Seq<u8>)>;

/// The RSASSA-PKCS1-v1_5 SHA-256 signature of `msg` by the RSA private key in an
/// unencrypted PEM document; `None` where the document holds no such key.
pub uninterp spec fn rs256_signature(pem: Seq<u8>, msg: Seq<u8>) -> Option<Seq<u8>>;

/// Whether `sig` is a valid RSASSA-PKCS1-v1_5 SHA-256 signature of `msg` under the
/// RSA public key with big-endian modulus `n` and exponent `e`.
pub uninterp spec fn rs256_valid(n: Seq<u8>, e: Seq<u8>, msg: Seq<u8>, sig: Seq<u8>) -> bool;

/// Relies on rustc_serialize's `ToBase64::to_base64` with the `URL_SAFE` configuration:
/// unpadded, every character from `A-Z a-z 0-9 - _`, and `from_base64` reads it back.
#[verifier::external_body]
fn b64url_encode(bytes: &[u8]) -> (r: String)
    ensures
        r@ == b64url_of(bytes@),
        is_b64url(r@),
        r@.len() == b64_unpadded_len(bytes@.len()),
        b64url_decoded(r@) == Some(bytes@),
{
    bytes.to_base64(rustc_serialize::base64::URL_SAFE)
}

/// Relies on rustc_serialize's `FromBase64::from_base64` on a string: the decoded bytes,
/// or `None` for a character outside the alphabets or a bad length.
#[verifier::external_body]
fn b64url_decode(text: &str) -> (r: Option<Vec<u8>>)
    ensures
        match r {
            Some(v) => b64url_decoded(text@) == Some(v@),
            None => b64url_decoded(text@) is None,
        },
{
    text.from_base64().ok()
}

/// Relies on `serde_json::from_slice` into a `serde_json::Value`, then `Value::get` and
/// `Value::as_str`: the string member `key` of the JSON object in `json`.
#[verifier::external_body]
fn json_string_member(json: &[u8], key: &str) -> (r: Option<String>)
    ensures
        match r {
            Some(s) => json_str_member(json@, key@) == Some(s@),
            None => json_str_member(json@, key@) is None,
        },
{
    let value: serde_json::Value = serde_json::from_slice(json).ok()?;
    value.get(key)?.as_str().map(str::to_owned)
}

/// Relies on `serde_json::from_slice` into a `serde_json::Value`: whether it succeeds.
#[verifier::external_body]
fn is_json(json: &[u8]) -> (r: bool)
    ensures
        r == json_valid(json@),
{
    serde_json::from_slice::<serde_json::Value>(json).is_ok()
}

/// Relies on `serde_json::to_string` of a `str`, which cannot fail: the string between
/// quotes, escaped by serde_json's `ESCAPE` table.
#[verifier::external_body]
pub(crate) fn json_quote(s: &str) -> (r: String)
    ensures
        r@ == json_quoted(s@),
{
    serde_json::to_string(s).unwrap_or_default()
}

/// Relies on `openssl::sha::sha256`.
#[verifier::external_body]
fn sha256(data: &[u8]) -> (r: Vec<u8>)
    ensures
        r@ == sha256_of(data@),
        r@.len() == 32,
{
    openssl::sha::sha256(data).to_vec()
}

/// Relies on `RngCore::try_fill_bytes` of rand's `OsRng`: sixteen bytes from the
/// operating system's generator, or `None` where it fails.
#[verifier::external_body]
fn random_16_bytes() -> (r: Option<Vec<u8>>)
    ensures
        r matches Some(v) ==> v@.len() == 16,
{
    let mut bytes = [0u8; 16];
    rand::rngs::OsRng.try_fill_bytes(&mut bytes).ok()?;
    Some(bytes.to_vec())
}

/// Relies on `PKey::private_key_from_pem_passphrase` with an empty passphrase (an
/// encrypted key fails, without prompting), `PKey::rsa`, `RsaRef::n`, `RsaRef::e` and
/// `BigNumRef::to_vec`: the big-endian modulus and exponent of a PEM RSA private key.
#[verifier::external_body]
fn private_key_parts(pem: &[u8]) -> (r: Option<(Vec<u8>, Vec<u8>)>)
    ensures
        match r {
            Some((n, e)) => pem_rsa_parts(pem@) == Some((n@, e@)),
            None => pem_rsa_parts(pem@) is None,
        },
{
    let rsa = PKey::private_key_from_pem_passphrase(pem, b"").ok()?.rsa().ok()?;
    Some((rsa.n().to_vec(), rsa.e().to_vec()))
}

/// Relies on `PKey::private_key_from_pem_passphrase` with an empty passphrase (an
/// encrypted key fails, without prompting), `PKey::rsa` to refuse any key but RSA,
/// `Signer::new` with SHA-256 and `Signer::sign_oneshot_to_vec`: the deterministic
/// RSASSA-PKCS1-v1_5 signature of `data`.
#[verifier::external_body]
fn rs256_sign(pem: &[u8], data: &[u8]) -> (r: Option<Vec<u8>>)
    ensures
        match r {
            Some(sig) => rs256_signature(pem@, data@) == Some(sig@),
            None => rs256_signature(pem@, data@) is None,
        },
{
    let key = PKey::private_key_from_pem_passphrase(pem, b"").ok()?;
    key.rsa().ok()?;
    let mut signer = Signer::new(MessageDigest::sha256(), &key).ok()?;
    signer.sign_oneshot_to_vec(data).ok()
}

/// Relies on `BigNum::from_slice`, `Rsa::from_public_components`, `PKey::from_rsa`,
/// `Verifier::new` with SHA-256 and `Verifier::verify_oneshot`; an error counts as an
/// invalid signature.
#[verifier::external_body]
fn rs256_verify(n: &[u8], e: &[u8], msg: &[u8], sig: &[u8]) -> (r: bool)
    ensures
        r == rs256_valid(n@, e@, msg@, sig@),
{
    let key = match (BigNum::from_slice(n), BigNum::from_slice(e)) {
        (Ok(n), Ok(e)) => Rsa::from_public_components(n, e).and_then(PKey::from_rsa),
        _ => return false,
    };
    let Ok(key) = key else { return false };
    let Ok(mut verifier) = Verifier::new(MessageDigest::sha256(), &key) else { return false };
    verifier.verify_oneshot(sig, msg).unwrap_or(false)
}

/// Whether two strings hold the same characters.
fn str_eq(a: &str, b: &str) -> (r: bool)
    ensures
        r == (a@ == b@),
{
    let n = a.unicode_len();
    if n != b.unicode_len() {
        return false;
    }
    let mut i: usize = 0;
    while i < n
        invariant
            n == a@.len(),
            n == b@.len(),
            i <= n,
            forall|j: int| 0 <= j < i ==> a@[j] == b@[j],
        decreases n - i,
    {
        if a.get_char(i) != b.get_char(i) {
            return false;
        }
        i = i + 1;
    }
    assert(a@ =~= b@);
    true
}

/// Why a key could not be loaded.
#[derive(Debug, PartialEq, Eq, Structural)]
pub enum KeyError {
    /// The PEM document holds no private key.
    InvalidPem,
}

/// Why a compact JWS was refused.
#[derive(Debug, PartialEq, Eq, Structural)]
pub enum JwsError {
    /// Not three base64url parts, a header that is not a JSON object with `alg` equal to
    /// `RS256` and a string `kid`, or a payload that is not JSON.
    Malformed,
    /// No single usable signing key with the header's `kid` in the key set.
    UnknownKey,
    /// The signature does not verify.
    BadSignature,
}

/// A signing key with its key id (the JWK `kid`): the PEM document of the RSA private
/// key, and its big-endian modulus and public exponent.
pub struct NamedKey {
    pub id: String,
    pub pem: Vec<u8>,
    pub n: Vec<u8>,
    pub e: Vec<u8>,
}

impl NamedKey {
    /// The modulus and exponent are those of the key in the PEM document.
    pub open spec fn wf(&self) -> bool {
        pem_rsa_parts(self.pem@) == Some((self.n@, self.e@))
    }

    /// Loads the RSA private key of a PEM document under the given id.
    pub fn from_pem(id: &str, pem: &[u8]) -> (r: Result<NamedKey, KeyError>)
        ensures
            match pem_rsa_parts(pem@) {
                None => r == Err::<NamedKey, KeyError>(KeyError::InvalidPem),
                Some((n, e)) => r matches Ok(k) && k.id@ == id@ && k.pem@ == pem@ && k.n@ == n
                    && k.e@ == e && k.wf(),
            },
    {
        match private_key_parts(pem) {
            Some((n, e)) => {
                let mut bytes: Vec<u8> = Vec::new();
                bytes.extend_from_slice(pem);
                assert(bytes@ =~= pem@);
                Ok(NamedKey { id: id.to_owned(), pem: bytes, n, e })
            },
            None => Err(KeyError::InvalidPem),
        }
    }
}

/// The public half of an RSA signing key, as a JSON Web Key.
pub struct Jwk {
    pub kty: String,
    pub alg: String,
    /// The `use` member, where present.
    pub key_use: Option<String>,
    pub kid: String,
    /// The modulus, big-endian, unpadded base64url.
    pub n: String,
    /// The public exponent, big-endian, unpadded base64url.
    pub e: String,
}

/// `k` is a signing key (`use` present and equal to `sig`) with key id `kid`.
pub open spec fn is_signing_key_for(k: Jwk, kid: Seq<char>) -> bool {
    &&& k.kid@ == kid
    &&& k.key_use matches Some(u) && u@ == "sig"@
}

/// The number of signing keys with key id `kid` in a key set.
pub open spec fn count_signing_keys(set: Seq<Jwk>, kid: Seq<char>) -> nat
    decreases set.len(),
{
    if set.len() == 0 {
        0
    } else {
        count_signing_keys(set.drop_last(), kid) + if is_signing_key_for(set.last(), kid) {
            1nat
        } else {
            0nat
        }
    }
}

/// The index of the last signing key with key id `kid` in a key set.
pub open spec fn last_signing_key(set: Seq<Jwk>, kid: Seq<char>) -> Option<int>
    decreases set.len(),
{
    if set.len() == 0 {
        None
    } else if is_signing_key_for(set.last(), kid) {
        Some(set.len() - 1)
    } else {
        last_signing_key(set.drop_last(), kid)
    }
}

/// The decoded modulus and exponent of the one signing key with key id `kid`; `None`
/// where there is no such key, more than one, or its members are not base64.
pub open spec fn signing_key_parts(set: Seq<Jwk>, kid: Seq<char>) -> Option<(Seq<u8>, Seq<u8>)> {
    if count_signing_keys(set, kid) != 1 {
        None
    } else {
        match last_signing_key(set, kid) {
            None => None,
            Some(i) => match b64url_decoded(set[i].n@) {
                None => None,
                Some(n) => match b64url_decoded(set[i].e@) {
                    None => None,
                    Some(e) => Some((n, e)),
                },
            },
        }
    }
}

/// `k` is the published form of the key `key`.
pub open spec fn is_published_key(k: Jwk, key: NamedKey) -> bool {
    &&& k.kty@ == "RSA"@
    &&& k.alg@ == "RS256"@
    &&& k.key_use matches Some(u) && u@ == "sig"@
    &&& k.kid@ == key.id@
    &&& k.n@ == b64url_of(key.n@)
    &&& k.e@ == b64url_of(key.e@)
    &&& is_b64url(k.n@)
    &&& is_b64url(k.e@)
    &&& b64url_decoded(k.n@) == Some(key.n@)
    &&& b64url_decoded(k.e@) == Some(key.e@)
}

/// The JWK key set that publishes the public half of each key, in the same order.
pub fn jwk_key_set(keys: &Vec<NamedKey>) -> (r: Vec<Jwk>)
    requires
        forall|i: int| 0 <= i < keys@.len() ==> (#[trigger] keys@[i]).wf(),
    ensures
        r@.len() == keys@.len(),
        forall|i: int| 0 <= i < keys@.len() ==> is_published_key(#[trigger] r@[i], keys@[i]),
{
    let mut set: Vec<Jwk> = Vec::new();
    let mut i: usize = 0;
    while i < keys.len()
        invariant
            i <= keys@.len(),
            set@.len() == i,
            forall|j: int| 0 <= j < i ==> is_published_key(#[trigger] set@[j], keys@[j]),
        decreases keys@.len() - i,
    {
        let key = &keys[i];
        set.push(Jwk {
            kty: "RSA".to_owned(),
            alg: "RS256".to_owned(),
            key_use: Some("sig".to_owned()),
            kid: key.id.as_str().to_owned(),
            n: b64url_encode(key.n.as_slice()),
            e: b64url_encode(key.e.as_slice()),
        });
        i = i + 1;
    }
    set
}

/// The index of the one signing key with key id `kid`; `None` where there is no such
/// key or more than one.
pub fn find_signing_key(set: &Vec<Jwk>, kid: &str) -> (r: Option<usize>)
    ensures
        r is Some <==> count_signing_keys(set@, kid@) == 1,
        r matches Some(i) ==> i < set@.len() && last_signing_key(set@, kid@) == Some(i as int)
            && is_signing_key_for(set@[i as int], kid@),
{
    let mut count: usize = 0;
    let mut found: usize = 0;
    let mut k: usize = 0;
    while k < set.len()
        invariant
            k <= set@.len(),
            count <= 2,
            count == 2 ==> count_signing_keys(set@.take(k as int), kid@) >= 2,
            count < 2 ==> count_signing_keys(set@.take(k as int), kid@) == count,
            count >= 1 ==> found < k && is_signing_key_for(set@[found as int], kid@)
                && last_signing_key(set@.take(k as int), kid@) == Some(found as int),
            count == 0 ==> last_signing_key(set@.take(k as int), kid@) is None,
        decreases set@.len() - k,
    {
        let key = &set[k];
        proof {
            assert(set@.take(k + 1).drop_last() =~= set@.take(k as int));
            assert(set@.take(k + 1).last() == set@[k as int]);
        }
        let matches = str_eq(key.kid.as_str(), kid) && match &key.key_use {
            Some(u) => str_eq(u.as_str(), "sig"),
            None => false,
        };
        if matches {
            found = k;
            if count < 2 {
                count = count + 1;
            }
        }
        k = k + 1;
    }
    proof {
        assert(set@.take(set@.len() as int) =~= set@);
    }
    if count == 1 {
        Some(found)
    } else {
        None
    }
}

/// The decoded modulus and exponent of the one signing key with key id `kid` in a JWK
/// key set. Fails where there is no such key or more than one, or where its modulus or
/// exponent is not valid base64.
pub fn jwk_key_set_find(set: &Vec<Jwk>, kid: &str) -> (r: Result<(Vec<u8>, Vec<u8>), ()>)
    ensures
        match signing_key_parts(set@, kid@) {
            None => r is Err,
            Some((n, e)) => r matches Ok((rn, re)) && rn@ == n && re@ == e,
        },
{
    let i = match find_signing_key(set, kid) {
        Some(i) => i,
        None => return Err(()),
    };
    let n = match b64url_decode(set[i].n.as_str()) {
        Some(n) => n,
        None => return Err(()),
    };
    let e = match b64url_decode(set[i].e.as_str()) {
        Some(e) => e,
        None => return Err(()),
    };
    Ok((n, e))
}

/// The key id that a JWS header (base64url text) names, where it decodes to a JSON
/// object whose `alg` is `RS256` and whose `kid` is a string.
pub open spec fn header_kid(header: Seq<char>) -> Option<Seq<char>> {
    match b64url_decoded(header) {
        None => None,
        Some(h) => if json_str_member(h, "alg"@) == Some("RS256"@) {
            json_str_member(h, "kid"@)
        } else {
            None
        },
    }
}

/// The outcome of verifying a compact JWS against a key set: the payload bytes, or why
/// it is refused. The checks run in order: three parts, the header, the key, the
/// signature over the literal `header.payload` text, then the payload.
pub open spec fn jws_outcome(jws: Seq<char>, set: Seq<Jwk>) -> Result<Seq<u8>, JwsError> {
    let parts = split_labels(jws);
    if parts.len() != 3 {
        Err(JwsError::Malformed)
    } else {
        match header_kid(parts[0]) {
            None => Err(JwsError::Malformed),
            Some(kid) => match signing_key_parts(set, kid) {
                None => Err(JwsError::UnknownKey),
                Some((n, e)) => match b64url_decoded(parts[2]) {
                    None => Err(JwsError::Malformed),
                    Some(sig) => if !rs256_valid(
                        n,
                        e,
                        encode_utf8(parts[0] + seq!['.'] + parts[1]),
                        sig,
                    ) {
                        Err(JwsError::BadSignature)
                    } else {
                        match b64url_decoded(parts[1]) {
                            None => Err(JwsError::Malformed),
                            Some(p) => if json_valid(p) {
                                Ok(p)
                            } else {
                                Err(JwsError::Malformed)
                            },
                        }
                    },
                },
            },
        }
    }
}

/// Verifies a compact JWS against a JWK key set, returning its payload: the bytes of a
/// JSON document.
pub fn verify_jws(jws: &str, key_set: &Vec<Jwk>) -> (r: Result<Vec<u8>, JwsError>)
    ensures
        match jws_outcome(jws@, key_set@) {
            Ok(p) => r matches Ok(v) && v@ == p,
            Err(err) => r == Err::<Vec<u8>, JwsError>(err),
        },
{
    let parts = split_on_dots(jws);
    if parts.len() != 3 {
        return Err(JwsError::Malformed);
    }
    // Determine which key signed the token.
    let header = match b64url_decode(parts[0].as_str()) {
        Some(h) => h,
        None => return Err(JwsError::Malformed),
    };
    let alg = json_string_member(header.as_slice(), "alg");
    let alg_ok = match &alg {
        Some(a) => str_eq(a.as_str(), "RS256"),
        None => false,
    };
    if !alg_ok {
        return Err(JwsError::Malformed);
    }
    let kid = match json_string_member(header.as_slice(), "kid") {
        Some(k) => k,
        None => return Err(JwsError::Malformed),
    };
    let (n, e) = match jwk_key_set_find(key_set, kid.as_str()) {
        Ok(parts) => parts,
        Err(()) => return Err(JwsError::UnknownKey),
    };

    // Verify the signature over the literal `header.payload` text.
    let sig = match b64url_decode(parts[2].as_str()) {
        Some(s) => s,
        None => return Err(JwsError::Malformed),
    };
    let mut message = parts[0].as_str().to_owned();
    message.append(".");
    message.append(parts[1].as_str());
    proof {
        reveal_strlit(".");
        assert(message@ =~= parts@[0]@ + seq!['.'] + parts@[1]@);
    }
    if !rs256_verify(n.as_slice(), e.as_slice(), message.as_str().as_bytes(), sig.as_slice()) {
        return Err(JwsError::BadSignature);
    }

    let payload = match b64url_decode(parts[1].as_str()) {
        Some(p) => p,
        None => return Err(JwsError::Malformed),
    };
    if is_json(payload.as_slice()) {
        Ok(payload)
    } else {
        Err(JwsError::Malformed)
    }
}

/// The JWS header that names a key: `{"kid":<id>,"alg":"RS256"}`.
pub open spec fn jws_header_text(kid: Seq<char>) -> Seq<char> {
    "{\"kid\":"@ + json_quoted(kid) + ",\"alg\":\"RS256\"}"@
}

/// The signing input of a JWS by the key `kid` over some payload bytes: the base64url
/// header and payload, joined by `.`.
pub open spec fn jws_signing_input(kid: Seq<char>, payload: Seq<u8>) -> Seq<char> {
    b64url_of(encode_utf8(jws_header_text(kid))) + seq!['.'] + b64url_of(payload)
}

/// Signs JSON payload bytes with a named key, as a compact JWS: the base64url header,
/// payload and RS256 signature, joined by `.`.
pub fn sign_jws(key: &NamedKey, payload: &[u8]) -> (r: Option<String>)
    requires
        key.wf(),
    ensures
        match rs256_signature(key.pem@, encode_utf8(jws_signing_input(key.id@, payload@))) {
            None => r is None,
            Some(sig) => r matches Some(t) && t@ == jws_signing_input(key.id@, payload@) + seq![
                '.',
            ] + b64url_of(sig) && split_labels(t@) == seq![
                b64url_of(encode_utf8(jws_header_text(key.id@))),
                b64url_of(payload@),
                b64url_of(sig),
            ] && is_b64url(split_labels(t@)[0]) && is_b64url(split_labels(t@)[1]) && is_b64url(
                split_labels(t@)[2],
            ) && b64url_decoded(split_labels(t@)[0]) == Some(
                encode_utf8(jws_header_text(key.id@)),
            ) && b64url_decoded(split_labels(t@)[1]) == Some(payload@) && b64url_decoded(
                split_labels(t@)[2],
            ) == Some(sig),
        },
{
    let mut header = "{\"kid\":".to_owned();
    let quoted = json_quote(key.id.as_str());
    header.append(quoted.as_str());
    header.append(",\"alg\":\"RS256\"}");
    proof {
        assert(header@ =~= jws_header_text(key.id@));
    }
    let h = b64url_encode(header.as_str().as_bytes());
    let p = b64url_encode(payload);
    let mut input = h.as_str().to_owned();
    input.append(".");
    input.append(p.as_str());
    proof {
        reveal_strlit(".");
        assert(input@ =~= jws_signing_input(key.id@, payload@));
    }
    let sig = match rs256_sign(key.pem.as_slice(), input.as_str().as_bytes()) {
        Some(s) => s,
        None => return None,
    };
    let s = b64url_encode(sig.as_slice());
    input.append(".");
    input.append(s.as_str());
    proof {
        assert(input@ =~= h@ + seq!['.'] + p@ + seq!['.'] + s@);
        lemma_split_three(h@, p@, s@);
    }
    Some(input)
}

/// The session id for some random bytes: the unpadded base64url SHA-256 digest of the
/// e-mail address, the client id and those bytes.
pub fn session_id_from(email: &str, client_id: &str, rnd: &[u8]) -> (r: String)
    ensures
        r@ == b64url_of(sha256_of(encode_utf8(email@) + encode_utf8(client_id@) + rnd@)),
        r@.len() == 43,
        is_b64url(r@),
{
    let mut data: Vec<u8> = Vec::new();
    data.extend_from_slice(email.as_bytes());
    data.extend_from_slice(client_id.as_bytes());
    data.extend_from_slice(rnd);
    assert(data@ =~= encode_utf8(email@) + encode_utf8(client_id@) + rnd@);
    let digest = sha256(data.as_slice());
    b64url_encode(digest.as_slice())
}

/// A fresh session id for a login attempt, from sixteen bytes of the operating system's
/// generator; `None` where the generator fails.
pub fn session_id(email: &str, client_id: &str) -> (r: Option<String>)
    ensures
        r matches Some(s) ==> s@.len() == 43 && exists|rnd: Seq<u8>|
            rnd.len() == 16 && s@ == b64url_of(
                sha256_of(#[trigger] (encode_utf8(email@) + encode_utf8(client_id@) + rnd)),
            ),
{
    match random_16_bytes() {
        Some(rnd) => Some(session_id_from(email, client_id, rnd.as_slice())),
        None => None,
    }
}

proof fn lemma_no_key_for_kid(set: Seq<Jwk>, kid: Seq<char>)
    requires
        forall|i: int| 0 <= i < set.len() ==> (#[trigger] set[i]).kid@ != kid,
    ensures
        count_signing_keys(set, kid) == 0,
    decreases set.len(),
{
    if set.len() > 0 {
        assert(set.last() == set[set.len() - 1]);
        lemma_no_key_for_kid(set.drop_last(), kid);
    }
}

/// Once every key with key id `kid` is removed from a key set, no signing key for `kid`
/// is left in it: looking the key up, and verifying a token whose header names `kid`,
/// fail with `UnknownKey`.
pub proof fn lemma_removed_key_unknown(set: Seq<Jwk>, kid: Seq<char>)
    ensures
        count_signing_keys(set.filter(|k: Jwk| k.kid@ != kid), kid) == 0,
{
    let rest = set.filter(|k: Jwk| k.kid@ != kid);
    broadcast use vstd::seq_lib::group_filter_ensures;

    lemma_no_key_for_kid(rest, kid);
}

/// A token signed with a key verifies against a key set that publishes that key under
/// its id, and gives back the payload. This holds given what the outside crates do:
/// base64 text reads back as the bytes it encodes and uses its alphabet only, the
/// header JSON reads back its algorithm and key id, the payload is JSON, and the
/// signature verifies under the key's modulus and exponent.
pub proof fn lemma_sign_verify_round_trip(
    key: NamedKey,
    set: Seq<Jwk>,
    payload: Seq<u8>,
    sig: Seq<u8>,
    i: int,
)
    requires
        forall|b: Seq<u8>| #[trigger] b64url_decoded(b64url_of(b)) == Some(b),
        forall|b: Seq<u8>| is_b64url(#[trigger] b64url_of(b)),
        json_str_member(encode_utf8(jws_header_text(key.id@)), "alg"@) == Some("RS256"@),
        json_str_member(encode_utf8(jws_header_text(key.id@)), "kid"@) == Some(key.id@),
        json_valid(payload),
        count_signing_keys(set, key.id@) == 1,
        last_signing_key(set, key.id@) == Some(i),
        set[i].n@ == b64url_of(key.n@),
        set[i].e@ == b64url_of(key.e@),
        rs256_signature(key.pem@, encode_utf8(jws_signing_input(key.id@, payload))) == Some(sig),
        rs256_valid(key.n@, key.e@, encode_utf8(jws_signing_input(key.id@, payload)), sig),
    ensures
        jws_outcome(jws_signing_input(key.id@, payload) + seq!['.'] + b64url_of(sig), set) == Ok::<
            Seq<u8>,
            JwsError,
        >(payload),
{
    let h = b64url_of(encode_utf8(jws_header_text(key.id@)));
    let p = b64url_of(payload);
    let s = b64url_of(sig);
    assert(is_b64url(h) && is_b64url(p) && is_b64url(s));
    lemma_split_three(h, p, s);
    let t = jws_signing_input(key.id@, payload) + seq!['.'] + s;
    assert(t =~= h + seq!['.'] + p + seq!['.'] + s);
    assert(b64url_decoded(h) == Some(encode_utf8(jws_header_text(key.id@))));
    assert(b64url_decoded(set[i].n@) == Some(key.n@));
    assert(b64url_decoded(set[i].e@) == Some(key.e@));
    assert(b64url_decoded(s) == Some(sig));
    assert(b64url_decoded(p) == Some(payload));
    assert(h + seq!['.'] + p =~= jws_signing_input(key.id@, payload));
}

/// A token signed with a key fails with `UnknownKey` against a key set that holds no key
/// under that key's id, given that base64 text reads back and uses its alphabet only,
/// and that the header JSON reads back its algorithm and key id.
pub proof fn lemma_signed_token_unknown_without_key(
    key: NamedKey,
    set: Seq<Jwk>,
    payload: Seq<u8>,
    sig: Seq<u8>,
)
    requires
        forall|b: Seq<u8>| #[trigger] b64url_decoded(b64url_of(b)) == Some(b),
        forall|b: Seq<u8>| is_b64url(#[trigger] b64url_of(b)),
        json_str_member(encode_utf8(jws_header_text(key.id@)), "alg"@) == Some("RS256"@),
        json_str_member(encode_utf8(jws_header_text(key.id@)), "kid"@) == Some(key.id@),
        forall|i: int| 0 <= i < set.len() ==> (#[trigger] set[i]).kid@ != key.id@,
    ensures
        jws_outcome(jws_signing_input(key.id@, payload) + seq!['.'] + b64url_of(sig), set) == Err::<
            Seq<u8>,
            JwsError,
        >(JwsError::UnknownKey),
{
    let h = b64url_of(encode_utf8(jws_header_text(key.id@)));
    let p = b64url_of(payload);
    let s = b64url_of(sig);
    assert(is_b64url(h) && is_b64url(p) && is_b64url(s));
    lemma_split_three(h, p, s);
    let t = jws_signing_input(key.id@, payload) + seq!['.'] + s;
    assert(t =~= h + seq!['.'] + p + seq!['.'] + s);
    assert(b64url_decoded(h) == Some(encode_utf8(jws_header_text(key.id@))));
    lemma_no_key_for_kid(set, key.id@);
}

} // verus!

use crate::jws::{
    b64url_of, json_quote, json_quoted, jws_signing_input, rs256_signature, sign_jws, NamedKey,
};
use crate::session::SessionRecord;
use vstd::prelude::*;
use vstd::string::StringExecFns;
use vstd::utf8::encode_utf8;

verus! {

/// The decimal digit of a value under 10.
pub open spec fn decimal_digit(d: nat) -> char {
    seq!['0', '1', '2', '3', '4', '5', '6', '7', '8', '9'][d as int]
}

/// The decimal text of a number, without leading zeros.
pub open spec fn decimal(n: nat) -> Seq<char>
    decreases n,
{
    if n < 10 {
        seq![decimal_digit(n)]
    } else {
        decimal(n / 10).push(decimal_digit(n % 10))
    }
}

/// The decimal text of a number.
pub fn decimal_string(n: u64) -> (r: String)
    ensures
        r@ == decimal(n as nat),
    decreases n,
{
    let digits = "0123456789";
    proof {
        reveal_strlit("0123456789");
    }
    let d = (n % 10) as usize;
    let digit = digits.substring_char(d, d + 1);
    assert(digit@ =~= seq![decimal_digit(d as nat)]);
    if n < 10 {
        digit.to_owned()
    } else {
        let mut s = decimal_string(n / 10);
        s.append(digit);
        s
    }
}

/// `a + b`, or the largest `u64` where the sum does not fit.
pub open spec fn saturating_sum(a: u64, b: u64) -> nat {
    if a + b > u64::MAX {
        u64::MAX as nat
    } else {
        (a + b) as nat
    }
}

/// The claims of an ID token for the relying party `aud`, as JSON text: issuer,
/// audience, the e-mail address as subject and verified e-mail, issue and expiry
/// times, and the relying party's nonce.
pub open spec fn id_token_claims(
    iss: Seq<char>,
    aud: Seq<char>,
    email: Seq<char>,
    nonce: Seq<char>,
    iat: u64,
    lifetime: u64,
) -> Seq<char> {
    "{\"aud\":"@ + json_quoted(aud) + ",\"email\":"@ + json_quoted(email)
        + ",\"email_verified\":true,\"exp\":"@ + decimal(saturating_sum(iat, lifetime))
        + ",\"iat\":"@ + decimal(iat as nat) + ",\"iss\":"@ + json_quoted(iss) + ",\"nonce\":"@
        + json_quoted(nonce) + ",\"sub\":"@ + json_quoted(email) + "}"@
}

/// The compact JWS of some payload bytes signed by a key, where the key can sign.
pub open spec fn signed_jws(key: NamedKey, payload: Seq<u8>) -> Option<Seq<char>> {
    match rs256_signature(key.pem@, encode_utf8(jws_signing_input(key.id@, payload))) {
        None => None,
        Some(sig) => Some(jws_signing_input(key.id@, payload) + seq!['.'] + b64url_of(sig)),
    }
}

/// Mints the broker's ID token for a completed session: the claims for the session's
/// e-mail address and nonce, issued by `iss` to `aud` at `now` for `lifetime` seconds,
/// signed with `key`.
pub fn create_jwt(
    key: &NamedKey,
    iss: &str,
    record: &SessionRecord,
    aud: &str,
    now: u64,
    lifetime: u64,
) -> (r: Option<String>)
    requires
        key.wf(),
    ensures
        match signed_jws(
            *key,
            encode_utf8(
                id_token_claims(
                    iss@,
                    aud@,
                    record.email@,
                    record.return_params.nonce@,
                    now,
                    lifetime,
                ),
            ),
        ) {
            None => r is None,
            Some(t) => r matches Some(x) && x@ == t,
        },
{
    let mut claims = "{\"aud\":".to_owned();
    claims.append(json_quote(aud).as_str());
    claims.append(",\"email\":");
    claims.append(json_quote(record.email.as_str()).as_str());
    claims.append(",\"email_verified\":true,\"exp\":");
    claims.append(decimal_string(now.saturating_add(lifetime)).as_str());
    claims.append(",\"iat\":");
    claims.append(decimal_string(now).as_str());
    claims.append(",\"iss\":");
    claims.append(json_quote(iss).as_str());
    claims.append(",\"nonce\":");
    claims.append(json_quote(record.return_params.nonce.as_str()).as_str());
    claims.append(",\"sub\":");
    claims.append(json_quote(record.email.as_str()).as_str());
    claims.append("}");
    proof {
        assert(claims@ =~= id_token_claims(
            iss@,
            aud@,
            record.email@,
            record.return_params.nonce@,
            now,
            lifetime,
        ));
    }
    sign_jws(key, claims.as_str().as_bytes())
}

} // verus!

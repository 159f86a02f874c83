//! Signed bearer tokens that carry a claim set: who the subject is and when
//! the token expires. The claim set travels as the JSON text
//! `{"sub":"<subject as a hyphenated UUID>","exp":<expiry in seconds>}`; the
//! signature and its check are jsonwebtoken's (HS256).
use vstd::prelude::*;
use crate::text::{dec, digits, holds_at, lemma_dec_value, push_decimal, read_decimal};

verus! {

/// What a token says: the subject it was issued to and the second (Unix
/// time) from which on it is no longer accepted.
#[derive(Clone, Copy, Debug, PartialEq, Eq, Structural)]
pub struct Claims {
    pub sub: u128,
    pub exp: u64,
}

/// Why a token is refused.
#[derive(Clone, Copy, Debug, PartialEq, Eq, Structural)]
pub enum TokenError {
    /// Bad signature, or no claim set of the expected form.
    Invalid,
    /// The claim set is sound but its expiry has come.
    Expired,
}

/// The signing secret, shared by whatever issues tokens and whatever checks
/// them. It is set once and only read afterwards.
pub struct Keys {
    pub secret: Vec<u8>,
}

impl Keys {
    pub fn new(secret: Vec<u8>) -> (r: Keys)
        ensures
            r.secret@ == secret@,
    {
        Keys { secret }
    }
}

/// The last `k` hexadecimal digits of `n`, most significant first.
pub open spec fn hex_digits(n: nat, k: nat) -> Seq<char>
    decreases k,
{
    if k == 0 {
        Seq::empty()
    } else {
        hex_digits(n / 16, (k - 1) as nat).push(digits()[(n % 16) as int])
    }
}

/// The hyphenated lower-case form of a UUID given as its 128-bit value
/// (8-4-4-4-12 hexadecimal digits).
pub open spec fn uuid_text(n: u128) -> Seq<char> {
    let h = hex_digits(n as nat, 32);
    h.subrange(0, 8) + seq!['-'] + h.subrange(8, 12) + seq!['-'] + h.subrange(12, 16) + seq!['-']
        + h.subrange(16, 20) + seq!['-'] + h.subrange(20, 32)
}

pub open spec fn sub_open() -> Seq<char> {
    seq!['{', '"', 's', 'u', 'b', '"', ':', '"']
}

pub open spec fn exp_open() -> Seq<char> {
    seq!['"', ',', '"', 'e', 'x', 'p', '"', ':']
}

/// The JSON text of a claim set.
pub open spec fn claims_text(c: Claims) -> Seq<char> {
    sub_open() + uuid_text(c.sub) + exp_open() + dec(c.exp as nat) + seq!['}']
}

/// The token that jsonwebtoken's `encode` makes of a JSON payload with an
/// HS256 header and the given secret.
pub uninterp spec fn signed_token(secret: Seq<u8>, payload: Seq<char>) -> Seq<char>;

/// The payload text that jsonwebtoken's `decode` gives back for a token under
/// the given secret, or `None` where it refuses the token.
pub uninterp spec fn token_payload(secret: Seq<u8>, token: Seq<char>) -> Option<Seq<char>>;

/// The characters of an optional text.
pub open spec fn text_of(t: Option<String>) -> Option<Seq<char>> {
    match t {
        Some(s) => Some(s@),
        None => None,
    }
}

/// The token that the claim set `c` becomes under `secret`.
pub open spec fn issued_token(secret: Seq<u8>, c: Claims) -> Seq<char> {
    signed_token(secret, claims_text(c))
}

/// Relies on uuid's `Uuid::from_u128` and its hyphenated lower-case text form.
#[verifier::external_body]
fn uuid_string(n: u128) -> (r: String)
    ensures
        r@ == uuid_text(n),
{
    uuid::Uuid::from_u128(n).hyphenated().to_string()
}

/// Relies on uuid's `Uuid::parse_str` (with `as_u128`): it reads the
/// hyphenated lower-case form back to the same value.
#[verifier::external_body]
fn parse_uuid(s: &str) -> (r: Option<u128>)
    ensures
        forall|n: u128| s@ == uuid_text(n) ==> r == Some(n),
{
    match uuid::Uuid::parse_str(s) {
        Ok(u) => Some(u.as_u128()),
        Err(_) => None,
    }
}

/// Relies on jsonwebtoken's `encode` with the default (HS256) header and an
/// HMAC key made from `secret`. The payload is handed over as raw JSON text
/// through serde_json's `RawValue`; `None` where either refuses it. Neither
/// refuses valid JSON text, such as a claim set's: the key's family matches
/// the header's algorithm and HMAC signing cannot fail. A token is its header,
/// payload and signature joined by dots, so it is never empty.
#[verifier::external_body]
fn sign_payload(secret: &Vec<u8>, payload: &str) -> (r: Option<String>)
    ensures
        r matches Some(t) ==> t@ == signed_token(secret@, payload@) && t@.len() > 0,
        (exists|c: Claims| #[trigger] claims_text(c) == payload@) ==> r is Some,
{
    let raw = match serde_json::value::RawValue::from_string(payload.to_string()) {
        Ok(raw) => raw,
        Err(_) => return None,
    };
    let key = jsonwebtoken::EncodingKey::from_secret(secret);
    match jsonwebtoken::encode(&jsonwebtoken::Header::default(), &raw, &key) {
        Ok(t) => Some(t),
        Err(_) => None,
    }
}

/// Relies on jsonwebtoken's `decode` with an HMAC key made from `secret`, under
/// HS256 validation with its clock-based expiry check off (expiry is checked
/// by the caller against a time it is given). The claims come back as their
/// raw JSON text (serde_json's `RawValue`). A token that `encode` made with
/// the same secret from a claim set in the form above decodes to that text.
#[verifier::external_body]
fn open_token(secret: &Vec<u8>, token: &str) -> (r: Option<String>)
    ensures
        text_of(r) == token_payload(secret@, token@),
        forall|c: Claims| token@ == issued_token(secret@, c) ==> text_of(r) == Some(claims_text(c)),
{
    let mut validation = jsonwebtoken::Validation::new(jsonwebtoken::Algorithm::HS256);
    validation.validate_exp = false;
    let key = jsonwebtoken::DecodingKey::from_secret(secret);
    match jsonwebtoken::decode::<Box<serde_json::value::RawValue>>(token, &key, &validation) {
        Ok(data) => Some(data.claims.get().to_string()),
        Err(_) => None,
    }
}

proof fn lemma_hex_len(n: nat, k: nat)
    ensures
        hex_digits(n, k).len() == k,
    decreases k,
{
    if k > 0 {
        lemma_hex_len(n / 16, (k - 1) as nat);
    }
}

/// Where the pieces of a claim set's text stand.
proof fn lemma_claims_parts(c: Claims)
    ensures
        ({
            let t = claims_text(c);
            &&& t.len() == 53 + dec(c.exp as nat).len()
            &&& dec(c.exp as nat).len() > 0
            &&& t.subrange(0, 8) == sub_open()
            &&& t.subrange(8, 44) == uuid_text(c.sub)
            &&& t.subrange(44, 52) == exp_open()
            &&& t.subrange(52, t.len() - 1) == dec(c.exp as nat)
            &&& t[t.len() - 1] == '}'
        }),
{
    lemma_hex_len(c.sub as nat, 32);
    lemma_dec_value(c.exp as nat);
    let t = claims_text(c);
    let d = dec(c.exp as nat);
    assert(uuid_text(c.sub).len() == 36);
    assert(t.subrange(0, 8) =~= sub_open());
    assert(t.subrange(8, 44) =~= uuid_text(c.sub));
    assert(t.subrange(44, 52) =~= exp_open());
    assert(t.subrange(52, t.len() - 1) =~= d);
}

/// The JSON text of a claim set.
pub fn claims_json(c: &Claims) -> (r: String)
    ensures
        r@ == claims_text(*c),
{
    proof {
        reveal_strlit("{\"sub\":\"");
        reveal_strlit("\",\"exp\":");
        reveal_strlit("}");
    }
    let mut out = String::from_str("{\"sub\":\"");
    assert(out@ =~= sub_open());
    let u = uuid_string(c.sub);
    out.append(u.as_str());
    out.append("\",\"exp\":");
    assert(out@ =~= sub_open() + uuid_text(c.sub) + exp_open());
    push_decimal(&mut out, c.exp);
    out.append("}");
    assert(out@ =~= claims_text(*c));
    out
}

/// Reads a claim set from its JSON text; `None` for any text that is not
/// exactly the text of a claim set.
pub fn parse_claims(p: &str) -> (r: Option<Claims>)
    ensures
        r matches Some(c) ==> p@ == claims_text(c),
        forall|c: Claims| p@ == claims_text(c) ==> r == Some(c),
{
    proof {
        reveal_strlit("{\"sub\":\"");
        reveal_strlit("\",\"exp\":");
    }
    let len = p.unicode_len();
    if len < 54 {
        proof {
            assert forall|c: Claims| p@ != claims_text(c) by {
                lemma_claims_parts(c);
            }
        }
        return None;
    }
    assert("{\"sub\":\""@ =~= sub_open());
    assert("\",\"exp\":"@ =~= exp_open());
    if !holds_at(p, 0, "{\"sub\":\"") || !holds_at(p, 44, "\",\"exp\":") || p.get_char(len - 1) != '}' {
        proof {
            assert forall|c: Claims| p@ != claims_text(c) by {
                lemma_claims_parts(c);
            }
        }
        return None;
    }
    let u = p.substring_char(8, 44);
    let parsed = parse_uuid(u);
    let sub = match parsed {
        Some(n) => n,
        None => {
            proof {
                assert forall|c: Claims| p@ != claims_text(c) by {
                    lemma_claims_parts(c);
                }
            }
            return None;
        },
    };
    let back = uuid_string(sub);
    if back.unicode_len() != 36 || !holds_at(p, 8, back.as_str()) {
        proof {
            assert forall|c: Claims| p@ != claims_text(c) by {
                lemma_claims_parts(c);
            }
        }
        return None;
    }
    let exp = match read_decimal(p, 52, len - 1) {
        Some(v) => v,
        None => {
            proof {
                assert forall|c: Claims| p@ != claims_text(c) by {
                    lemma_claims_parts(c);
                }
            }
            return None;
        },
    };
    let c = Claims { sub, exp };
    proof {
        lemma_claims_parts(c);
        let t = claims_text(c);
        assert(p@ =~= p@.subrange(0, 8) + p@.subrange(8, 44) + p@.subrange(44, 52)
            + p@.subrange(52, len - 1) + seq![p@[len - 1]]);
        assert(p@ =~= t);
        assert forall|c2: Claims| p@ == claims_text(c2) implies c2 == c by {
            lemma_claims_parts(c2);
        }
    }
    Some(c)
}

/// What a token with the given payload (as the signature check gave it back,
/// `None` for a refused token) amounts to at second `now`: its claim set while
/// `now` is before the expiry, `Expired` from the expiry on, `Invalid` where
/// the signature or the payload's form is wrong.
pub open spec fn verdict(payload: Option<Seq<char>>, now: u64) -> Result<Claims, TokenError> {
    match payload {
        None => Err(TokenError::Invalid),
        Some(p) => if exists|c: Claims| claims_text(c) == p {
            let c = choose|c: Claims| claims_text(c) == p;
            if now < c.exp {
                Ok(c)
            } else {
                Err(TokenError::Expired)
            }
        } else {
            Err(TokenError::Invalid)
        },
    }
}

/// Makes a token for `sub` that expires `ttl` seconds after `now`. `None`
/// where that second does not fit in a `u64`, or the signer refuses.
pub fn issue(keys: &Keys, sub: u128, ttl: u64, now: u64) -> (r: Option<String>)
    ensures
        r matches Some(t) ==> now + ttl <= u64::MAX && t@ == issued_token(
            keys.secret@,
            Claims { sub, exp: (now + ttl) as u64 },
        ),
        now + ttl > u64::MAX ==> r is None,
        now + ttl <= u64::MAX ==> r is Some,
        r matches Some(t) ==> t@.len() > 0,
{
    let exp = match now.checked_add(ttl) {
        Some(e) => e,
        None => return None,
    };
    let c = Claims { sub, exp };
    let payload = claims_json(&c);
    assert(claims_text(c) == payload@);
    sign_payload(&keys.secret, payload.as_str())
}

/// Judges a payload that the signature check gave back (`None`: refused) at
/// second `now`.
pub fn judge_payload(payload: &Option<String>, now: u64) -> (r: Result<Claims, TokenError>)
    ensures
        r == verdict(text_of(*payload), now),
        forall|c: Claims|
            text_of(*payload) == Some(claims_text(c)) ==> r == (if now < c.exp {
                Ok::<Claims, TokenError>(c)
            } else {
                Err(TokenError::Expired)
            }),
{
    match payload {
        None => Err(TokenError::Invalid),
        Some(p) => {
            match parse_claims(p.as_str()) {
                None => {
                    assert(!exists|c: Claims| claims_text(c) == p@);
                    Err(TokenError::Invalid)
                },
                Some(c) => {
                    assert(claims_text(c) == p@);
                    let ghost picked = choose|c2: Claims| claims_text(c2) == p@;
                    assert(picked == c);
                    if now < c.exp {
                        Ok(c)
                    } else {
                        Err(TokenError::Expired)
                    }
                },
            }
        },
    }
}

/// Checks a token at second `now`: its signature under the shared secret,
/// the form of its claim set and its expiry. A token issued with the same
/// secret gives back the claim set it was issued with while `now` is before
/// its expiry, and `Expired` from then on.
pub fn decode(keys: &Keys, token: &str, now: u64) -> (r: Result<Claims, TokenError>)
    ensures
        r == verdict(token_payload(keys.secret@, token@), now),
        forall|c: Claims|
            token@ == issued_token(keys.secret@, c) && now < c.exp ==> r == Ok::<Claims, TokenError>(c),
        forall|c: Claims|
            token@ == issued_token(keys.secret@, c) && c.exp <= now ==> r == Err::<Claims, TokenError>(
                TokenError::Expired,
            ),
{
    let payload = open_token(&keys.secret, token);
    judge_payload(&payload, now)
}

/// A claim set whose expiry has come is refused as expired, whatever its
/// subject.
pub proof fn lemma_expired_refused(c: Claims, now: u64)
    requires
        c.exp <= now,
    ensures
        verdict(Some(claims_text(c)), now) == Err::<Claims, TokenError>(TokenError::Expired),
{
    let p = claims_text(c);
    let c2 = choose|c2: Claims| claims_text(c2) == p;
    lemma_claims_parts(c);
    lemma_claims_parts(c2);
    lemma_dec_value(c.exp as nat);
    lemma_dec_value(c2.exp as nat);
    assert(dec(c.exp as nat) == dec(c2.exp as nat));
}

/// Checking a token changes nothing: two checks of one token under one secret
/// at one second agree.
pub proof fn lemma_check_repeatable(
    secret: Seq<u8>,
    token: Seq<char>,
    now: u64,
    first: Result<Claims, TokenError>,
    second: Result<Claims, TokenError>,
)
    requires
        first == verdict(token_payload(secret, token), now),
        second == verdict(token_payload(secret, token), now),
    ensures
        first == second,
{
}

} // verus!

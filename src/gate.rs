//! The guard in front of protected routes: it takes the `Authorization`
//! header of a request and lets the request through, with the caller's
//! subject, only where the header carries a sound bearer token.
use vstd::prelude::*;
use crate::codec::{decode, issued_token, token_payload, verdict, Claims, Keys, TokenError};
use crate::text::holds_at;

verus! {

/// Why the guard turns a request away. Both answer the request as
/// unauthorized; the kinds are kept apart for the logs.
#[derive(Clone, Copy, Debug, PartialEq, Eq, Structural)]
pub enum GateError {
    /// No header, or no bearer token in it.
    MissingToken,
    /// The token was refused.
    Token(TokenError),
}

pub open spec fn bearer_prefix() -> Seq<char> {
    seq!['B', 'e', 'a', 'r', 'e', 'r', ' ']
}

/// The token that an `Authorization` header carries: what follows
/// `Bearer `, where that is not empty.
pub open spec fn bearer_of(header: Seq<char>) -> Option<Seq<char>> {
    if header.len() > 7 && header.subrange(0, 7) == bearer_prefix() {
        Some(header.subrange(7, header.len() as int))
    } else {
        None
    }
}

/// The bearer token of a header that may be absent.
pub open spec fn header_token(header: Option<Seq<char>>) -> Option<Seq<char>> {
    match header {
        None => None,
        Some(h) => bearer_of(h),
    }
}

/// `Bearer ` followed by a non-empty token carries that token.
pub proof fn lemma_bearer_header(t: Seq<char>)
    requires
        t.len() > 0,
    ensures
        bearer_of(bearer_prefix() + t) == Some(t),
{
    let h = bearer_prefix() + t;
    assert(h.subrange(0, 7) =~= bearer_prefix());
    assert(h.subrange(7, h.len() as int) =~= t);
}

/// What the guard decides for a request whose `Authorization` header is
/// `header` (`None`: absent), at second `now`.
pub open spec fn gate_verdict(secret: Seq<u8>, header: Option<Seq<char>>, now: u64) -> Result<u128, GateError> {
    match header {
        None => Err(GateError::MissingToken),
        Some(h) => match bearer_of(h) {
            None => Err(GateError::MissingToken),
            Some(t) => match verdict(token_payload(secret, t), now) {
                Ok(c) => Ok(c.sub),
                Err(e) => Err(GateError::Token(e)),
            },
        },
    }
}

/// The characters of a header that may be absent.
pub open spec fn header_text(header: Option<&str>) -> Option<Seq<char>> {
    match header {
        Some(h) => Some(h@),
        None => None,
    }
}

/// The bearer token of an `Authorization` header.
pub fn bearer_token(header: &str) -> (r: Option<&str>)
    ensures
        match bearer_of(header@) {
            Some(t) => r matches Some(s) && s@ == t,
            None => r is None,
        },
{
    proof {
        reveal_strlit("Bearer ");
    }
    let len = header.unicode_len();
    assert("Bearer "@ =~= bearer_prefix());
    if len > 7 && holds_at(header, 0, "Bearer ") {
        Some(header.substring_char(7, len))
    } else {
        None
    }
}

/// Lets a request through with the subject of its bearer token, or turns it
/// away. The token is checked only where the header carries one.
pub fn pass_gate(keys: &Keys, header: Option<&str>, now: u64) -> (r: Result<u128, GateError>)
    ensures
        r == gate_verdict(keys.secret@, header_text(header), now),
        forall|c: Claims|
            header_token(header_text(header)) == Some(issued_token(keys.secret@, c)) && now < c.exp
                ==> r == Ok::<u128, GateError>(c.sub),
{
    let h = match header {
        None => return Err(GateError::MissingToken),
        Some(h) => h,
    };
    let token = match bearer_token(h) {
        None => return Err(GateError::MissingToken),
        Some(t) => t,
    };
    match decode(keys, token, now) {
        Ok(c) => Ok(c.sub),
        Err(e) => Err(GateError::Token(e)),
    }
}

/// A request with no `Authorization` header, or an empty one, is turned away
/// before any token is looked at.
pub proof fn lemma_no_header_refused(secret: Seq<u8>, now: u64)
    ensures
        gate_verdict(secret, None, now) == Err::<u128, GateError>(GateError::MissingToken),
        gate_verdict(secret, Some(Seq::<char>::empty()), now) == Err::<u128, GateError>(
            GateError::MissingToken,
        ),
{
}

} // verus!

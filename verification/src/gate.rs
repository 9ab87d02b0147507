//! The per-request authentication gate: extract the bearer token, validate
//! it, and either attach the authenticated claims or short-circuit with a
//! terminal 401 whose message never distinguishes why the token failed.

use vstd::prelude::*;
use crate::token::AuthError;
use crate::token::Claims;
use crate::token::lemma_issued_token_validates;
use crate::token::token_chars;
use crate::token::verify_token;
use crate::token::verify_token_spec;

verus! {

/// A terminal rejection: the request never reaches the handler.
pub struct GateReject {
    pub status: u16,
    pub message: String,
}

/// What is decided for a request.
pub enum GateOutcome {
    /// Proceed to the handler with the authenticated claims attached.
    Proceed(Claims),
    /// Respond at once; the handler is never invoked.
    Reject(GateReject),
}

/// The token presented under the bearer scheme, if any: the header must be
/// present and carry the exact `"Bearer "` prefix.
pub open spec fn bearer_token(header: Option<Seq<char>>) -> Option<Seq<char>> {
    match header {
        Some(h) => if h.len() >= 7 && h.take(7) == "Bearer "@ {
            Some(h.skip(7))
        } else {
            None
        },
        None => None,
    }
}

/// The bearer scheme recovers a presented token exactly.
pub proof fn lemma_bearer_round_trip(t: Seq<char>)
    ensures
        bearer_token(Some("Bearer "@ + t)) == Some(t),
{
    reveal_strlit("Bearer ");
    assert(("Bearer "@ + t).take(7) =~= "Bearer "@);
    assert(("Bearer "@ + t).skip(7) =~= t);
}

/// End to end: a bearer header carrying a token the issuer produced with
/// the same secret passes the whole gate pipeline while the token has not
/// expired, and the claims reaching the handler are exactly the issued
/// ones.
pub proof fn lemma_gate_accepts_issued_token(sub: i64, exp: usize, secret: Seq<u8>, now: int)
    requires
        now < exp,
    ensures
        bearer_token(Some("Bearer "@ + token_chars(sub as int, exp as int, secret))) == Some(
            token_chars(sub as int, exp as int, secret),
        ),
        verify_token_spec(token_chars(sub as int, exp as int, secret), secret, now) == Ok::<
            Claims,
            AuthError,
        >(Claims { sub, exp }),
{
    lemma_bearer_round_trip(token_chars(sub as int, exp as int, secret));
    lemma_issued_token_validates(sub, exp, secret, now);
}

/// Decide a request from its `Authorization` header value. A missing header or
/// a wrong scheme is a terminal 401 saying the token was not found; a
/// token that fails validation is a terminal 401 with one generic message,
/// so the specific failure kind is never exposed to the caller. On success
/// the claims are returned unchanged for the handler to read.
pub fn authorize(header: Option<&str>, secret: &[u8], now: i64) -> (r: GateOutcome)
    ensures
        match bearer_token(
            match header {
                Some(h) => Some(h@),
                None => None,
            },
        ) {
            None => r matches GateOutcome::Reject(rej) && rej.status == 401 && rej.message@
                == "token not found"@,
            Some(tok) => match verify_token_spec(tok, secret@, now as int) {
                Ok(c) => r == GateOutcome::Proceed(c),
                Err(_) => r matches GateOutcome::Reject(rej) && rej.status == 401 && rej.message@
                    == "invalid token"@,
            },
        },
{
    proof {
        reveal_strlit("Bearer ");
    }
    let h = match header {
        Some(h) => h,
        None => {
            return GateOutcome::Reject(
                GateReject { status: 401, message: "token not found".to_owned() },
            );
        },
    };
    let n = h.unicode_len();
    if n < 7 {
        return GateOutcome::Reject(
            GateReject { status: 401, message: "token not found".to_owned() },
        );
    }
    if !(h.get_char(0) == 'B' && h.get_char(1) == 'e' && h.get_char(2) == 'a' && h.get_char(3)
        == 'r' && h.get_char(4) == 'e' && h.get_char(5) == 'r' && h.get_char(6) == ' ') {
        proof {
            if h@.take(7) == "Bearer "@ {
                assert(h@.take(7)[0] == h@[0] && h@.take(7)[1] == h@[1] && h@.take(7)[2] == h@[2]
                    && h@.take(7)[3] == h@[3] && h@.take(7)[4] == h@[4] && h@.take(7)[5] == h@[5]
                    && h@.take(7)[6] == h@[6]);
            }
        }
        return GateOutcome::Reject(
            GateReject { status: 401, message: "token not found".to_owned() },
        );
    }
    proof {
        assert(h@.take(7) =~= "Bearer "@);
    }
    let tok = h.substring_char(7, n);
    proof {
        assert(tok@ =~= h@.skip(7));
    }
    match verify_token(tok, secret, now) {
        Ok(c) => GateOutcome::Proceed(c),
        Err(_) => GateOutcome::Reject(
            GateReject { status: 401, message: "invalid token".to_owned() },
        ),
    }
}

} // verus!

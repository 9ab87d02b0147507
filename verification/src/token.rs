//! Stateless signed authorization tokens in the compact three-segment form
//! `header.payload.signature`, MAC-signed with a process-wide secret.
//!
//! The header and payload are built and parsed here, verified; only the
//! HMAC-SHA256 itself is taken from an outside crate, behind one trusted
//! wrapper whose raw MAC is named by an uninterpreted spec function.

use vstd::prelude::*;
use vstd::utf8::is_ascii_chars;
use crate::base64url::b64_encode;
use crate::base64url::b64_decode;
use crate::base64url::base64url_encode;
use crate::base64url::base64url_decode;
use crate::base64url::lemma_b64_encode_alphabet;
use crate::base64url::lemma_b64_byte_props;
use crate::base64url::lemma_b64_round_trip;
use crate::claims::claims_json;
use crate::claims::parse_claims;
use crate::claims::parse_claims_bytes;
use crate::claims::render_claims;
use crate::claims::find_byte;
use crate::claims::lemma_find_byte_at;
use crate::claims::lemma_find_byte_none;
use crate::claims::lemma_claims_round_trip;

verus! {

/// Claims carried inside a token: subject id and unix expiry. Created at
/// issuance, immutable, never stored server-side.
#[derive(Clone, Copy, PartialEq, Eq, Structural, Debug)]
pub struct Claims {
    pub sub: i64,
    pub exp: usize,
}

/// Why a token was rejected. Collapsed to one generic message at the HTTP
/// boundary; the kind is for server-side diagnostics only.
#[derive(Clone, Copy, PartialEq, Eq, Structural, Debug)]
pub enum AuthError {
    Malformed,
    SignatureInvalid,
    Expired,
}

/// Why issuance failed: the clock reading was outside the range a unix
/// timestamp for an expiry can be built from.
#[derive(Clone, Copy, PartialEq, Eq, Structural, Debug)]
pub enum IssueError {
    ClockOutOfRange,
}

/// Tokens expire this many seconds after issuance.
pub const TOKEN_TTL_SECONDS: i64 = 86400;

/// Raw HMAC-SHA256 of a message under a key: a function of its two
/// arguments alone, realized by the signing crate.
pub uninterp spec fn hs256_mac(message: Seq<u8>, key: Seq<u8>) -> Seq<u8>;

/// Relies on `jsonwebtoken::crypto::sign` with `Algorithm::HS256` and a
/// secret-bytes key: it returns the unpadded base64url text of the 32-byte
/// HMAC-SHA256 of the message under the key, and cannot fail on that path.
#[verifier::external_body]
fn hs256_sign(message: &[u8], key: &[u8]) -> (r: Vec<u8>)
    ensures
        r@ == b64_encode(hs256_mac(message@, key@)),
{
    jsonwebtoken::crypto::sign(
        message,
        &jsonwebtoken::EncodingKey::from_secret(key),
        jsonwebtoken::Algorithm::HS256,
    ).unwrap().into_bytes()
}

/// Relies on `String::from_utf8`: ASCII bytes are valid UTF-8 and decode to
/// the characters with the same code points.
#[verifier::external_body]
fn ascii_to_string(v: Vec<u8>) -> (r: String)
    requires
        forall|i: int| 0 <= i < v@.len() ==> v@[i] < 128,
    ensures
        r@ == ascii_chars(v@),
{
    String::from_utf8(v).unwrap()
}

/// The characters of an ASCII byte sequence.
pub open spec fn ascii_chars(s: Seq<u8>) -> Seq<char> {
    Seq::new(s.len(), |i: int| s[i] as char)
}

/// The bytes of an ASCII character sequence.
pub open spec fn ascii_of(t: Seq<char>) -> Seq<u8> {
    Seq::new(t.len(), |i: int| t[i] as u8)
}

proof fn lemma_ascii_round_trip(s: Seq<u8>)
    requires
        forall|i: int| 0 <= i < s.len() ==> s[i] < 128,
    ensures
        is_ascii_chars(ascii_chars(s)),
        ascii_of(ascii_chars(s)) =~= s,
{
    assert forall|i: int| 0 <= i < s.len() implies '\0' <= #[trigger] ascii_chars(s)[i]
        <= '\u{7f}' by {
        assert(ascii_chars(s)[i] == s[i] as char);
    }
}

/// JSON bytes of the fixed token header `{"typ":"JWT","alg":"HS256"}`.
pub open spec fn header_json() -> Seq<u8> {
    seq![
        123u8, 34u8, 116u8, 121u8, 112u8, 34u8, 58u8, 34u8, 74u8, 87u8, 84u8, 34u8, 44u8, 34u8,
        97u8, 108u8, 103u8, 34u8, 58u8, 34u8, 72u8, 83u8, 50u8, 53u8, 54u8, 34u8, 125u8,
    ]
}

/// The header segment: base64url of the fixed header JSON.
pub open spec fn header_b64() -> Seq<u8> {
    b64_encode(header_json())
}

fn header_json_bytes() -> (r: Vec<u8>)
    ensures
        r@ == header_json(),
{
    let mut out: Vec<u8> = Vec::new();
    out.push(123);
    out.push(34);
    out.push(116);
    out.push(121);
    out.push(112);
    out.push(34);
    out.push(58);
    out.push(34);
    out.push(74);
    out.push(87);
    out.push(84);
    out.push(34);
    out.push(44);
    out.push(34);
    out.push(97);
    out.push(108);
    out.push(103);
    out.push(34);
    out.push(58);
    out.push(34);
    out.push(72);
    out.push(83);
    out.push(50);
    out.push(53);
    out.push(54);
    out.push(34);
    out.push(125);
    proof {
        assert(out@ =~= header_json());
    }
    out
}

/// The signed part of a token: header segment, dot, payload segment.
pub open spec fn signing_input(sub: int, exp: int) -> Seq<u8> {
    header_b64() + seq![46u8] + b64_encode(claims_json(sub, exp))
}

/// The full token bytes: signed part, dot, signature segment.
pub open spec fn token_bytes(sub: int, exp: int, secret: Seq<u8>) -> Seq<u8> {
    signing_input(sub, exp) + seq![46u8] + b64_encode(hs256_mac(signing_input(sub, exp), secret))
}

/// The full token text.
pub open spec fn token_chars(sub: int, exp: int, secret: Seq<u8>) -> Seq<char> {
    ascii_chars(token_bytes(sub, exp, secret))
}

/// Issue a token for `user_id` at clock reading `now`: the expiry is
/// `now` plus the fixed ttl. Fails exactly when the clock reading cannot
/// carry that expiry.
pub fn generate_token(user_id: i64, now: i64, secret: &[u8]) -> (r: Result<String, IssueError>)
    ensures
        match r {
            Ok(t) => 0 <= now && now + TOKEN_TTL_SECONDS <= i64::MAX && now + TOKEN_TTL_SECONDS
                <= usize::MAX && t@ == token_chars(user_id as int, now + TOKEN_TTL_SECONDS, secret@),
            Err(e) => e == IssueError::ClockOutOfRange && !(0 <= now && now + TOKEN_TTL_SECONDS
                <= i64::MAX && now + TOKEN_TTL_SECONDS <= usize::MAX),
        },
{
    if now < 0 || now > i64::MAX - TOKEN_TTL_SECONDS {
        return Err(IssueError::ClockOutOfRange);
    }
    let e64: i64 = now + TOKEN_TTL_SECONDS;
    if e64 as u64 > usize::MAX as u64 {
        return Err(IssueError::ClockOutOfRange);
    }
    let exp: usize = e64 as usize;
    let payload = render_claims(user_id, exp);
    let header = header_json_bytes();
    let mut msg = base64url_encode(header.as_slice());
    let ghost h: Seq<u8> = msg@;
    msg.push(46);
    let mut pseg = base64url_encode(payload.as_slice());
    let ghost p: Seq<u8> = pseg@;
    msg.append(&mut pseg);
    proof {
        assert(msg@ =~= signing_input(user_id as int, exp as int));
    }
    let mut sig = hs256_sign(msg.as_slice(), secret);
    let ghost sg: Seq<u8> = sig@;
    let mut tok = msg;
    tok.push(46);
    tok.append(&mut sig);
    proof {
        assert(tok@ =~= token_bytes(user_id as int, exp as int, secret@));
        lemma_b64_encode_alphabet(header_json());
        lemma_b64_encode_alphabet(claims_json(user_id as int, exp as int));
        lemma_b64_encode_alphabet(hs256_mac(signing_input(user_id as int, exp as int), secret@));
        assert forall|i: int| 0 <= i < tok@.len() implies tok@[i] < 128 by {
            let t = tok@;
            let si = signing_input(user_id as int, exp as int);
            if i < h.len() {
                assert(t[i] == header_b64()[i]);
                lemma_b64_byte_props(header_b64()[i]);
            } else if i == h.len() {
                assert(t[i] == 46);
            } else if i < si.len() {
                assert(t[i] == b64_encode(claims_json(user_id as int, exp as int))[i - h.len()
                    - 1]);
                lemma_b64_byte_props(b64_encode(claims_json(user_id as int, exp as int))[i
                    - h.len() - 1]);
            } else if i == si.len() {
                assert(t[i] == 46);
            } else {
                assert(t[i] == sg[i - si.len() - 1]);
                lemma_b64_byte_props(sg[i - si.len() - 1]);
            }
        }
    }
    Ok(ascii_to_string(tok))
}

/// What validation yields for any token text, secret and clock reading:
/// structural failures come first, then the signature check, then expiry.
pub open spec fn verify_bytes_spec(b: Seq<u8>, secret: Seq<u8>, now: int) -> Result<
    Claims,
    AuthError,
> {
    let i = find_byte(b, 46);
    if i < 0 {
        Err(AuthError::Malformed)
    } else {
        let h = b.take(i);
        let r1 = b.skip(i + 1);
        let j = find_byte(r1, 46);
        if j < 0 {
            Err(AuthError::Malformed)
        } else {
            let p = r1.take(j);
            let sig = r1.skip(j + 1);
            if find_byte(sig, 46) >= 0 || h != header_b64() {
                Err(AuthError::Malformed)
            } else {
                match b64_decode(p) {
                    None => Err(AuthError::Malformed),
                    Some(pl) => match parse_claims(pl) {
                        None => Err(AuthError::Malformed),
                        Some((sub, exp)) => {
                            if sig != b64_encode(
                                hs256_mac(header_b64() + seq![46u8] + p, secret),
                            ) {
                                Err(AuthError::SignatureInvalid)
                            } else if exp <= now {
                                Err(AuthError::Expired)
                            } else {
                                Ok(Claims { sub, exp })
                            }
                        },
                    },
                }
            }
        }
    }
}

/// Validation over the token text: a token with characters outside ASCII
/// can never have been issued and is malformed.
pub open spec fn verify_token_spec(t: Seq<char>, secret: Seq<u8>, now: int) -> Result<
    Claims,
    AuthError,
> {
    if !is_ascii_chars(t) {
        Err(AuthError::Malformed)
    } else {
        verify_bytes_spec(ascii_of(t), secret, now)
    }
}

/// Everything the validator sees of a well-formed token: the three
/// segments stand between the only two dots, the header matches, and the
/// payload decodes to the claims it was rendered from.
proof fn lemma_token_structure(sub: i64, exp: usize, secret: Seq<u8>, sig2: Seq<u8>, now: int)
    requires
        forall|i: int| 0 <= i < sig2.len() ==> sig2[i] < 128 && sig2[i] != 46,
    ensures
        verify_token_spec(
            ascii_chars(signing_input(sub as int, exp as int) + seq![46u8] + sig2),
            secret,
            now,
        ) == (if sig2 != b64_encode(hs256_mac(signing_input(sub as int, exp as int), secret)) {
            Err::<Claims, AuthError>(AuthError::SignatureInvalid)
        } else if exp <= now {
            Err::<Claims, AuthError>(AuthError::Expired)
        } else {
            Ok::<Claims, AuthError>(Claims { sub, exp })
        }),
{
    let si = signing_input(sub as int, exp as int);
    let pj = claims_json(sub as int, exp as int);
    let pseg = b64_encode(pj);
    let hlen = header_b64().len() as int;
    let plen = pseg.len() as int;
    let tb = si + seq![46u8] + sig2;
    lemma_b64_encode_alphabet(header_json());
    lemma_b64_encode_alphabet(pj);
    assert forall|i: int| 0 <= i < tb.len() implies tb[i] < 128 by {
        if i < hlen {
            assert(tb[i] == header_b64()[i]);
            lemma_b64_byte_props(header_b64()[i]);
        } else if i == hlen {
            assert(tb[i] == 46);
        } else if i < si.len() {
            assert(tb[i] == pseg[i - hlen - 1]);
            lemma_b64_byte_props(pseg[i - hlen - 1]);
        } else if i == si.len() {
            assert(tb[i] == 46);
        } else {
            assert(tb[i] == sig2[i - si.len() - 1]);
        }
    }
    lemma_ascii_round_trip(tb);
    assert(ascii_of(ascii_chars(tb)) == tb);
    // the first dot closes the header segment
    assert forall|t: int| 0 <= t < hlen implies tb[t] != 46 by {
        assert(tb[t] == header_b64()[t]);
        lemma_b64_byte_props(header_b64()[t]);
    }
    assert(tb[hlen] == 46);
    lemma_find_byte_at(tb, 46, hlen);
    let h = tb.take(hlen);
    let r1 = tb.skip(hlen + 1);
    assert(h =~= header_b64());
    assert(r1 =~= pseg + seq![46u8] + sig2);
    // the second dot closes the payload segment
    assert forall|t: int| 0 <= t < plen implies r1[t] != 46 by {
        assert(r1[t] == pseg[t]);
        lemma_b64_byte_props(pseg[t]);
    }
    assert(r1[plen] == 46);
    lemma_find_byte_at(r1, 46, plen);
    let p = r1.take(plen);
    let sig = r1.skip(plen + 1);
    assert(p =~= pseg);
    assert(sig =~= sig2);
    lemma_find_byte_none(sig, 46);
    lemma_b64_round_trip(pj);
    lemma_claims_round_trip(sub, exp);
    assert(header_b64() + seq![46u8] + p =~= si);
}

/// A token issued for a subject, validated with the same secret, returns
/// exactly the claims it carries while its expiry has not passed, and
/// `Expired` from the expiry instant on. `generate_token` makes `exp` the
/// issuance instant plus the ttl, so validating immediately succeeds and
/// validating once the ttl has elapsed reports `Expired`.
pub proof fn lemma_issued_token_validates(sub: i64, exp: usize, secret: Seq<u8>, now: int)
    ensures
        now < exp ==> verify_token_spec(token_chars(sub as int, exp as int, secret), secret, now)
            == Ok::<Claims, AuthError>(Claims { sub, exp }),
        now >= exp ==> verify_token_spec(token_chars(sub as int, exp as int, secret), secret, now)
            == Err::<Claims, AuthError>(AuthError::Expired),
{
    let si = signing_input(sub as int, exp as int);
    let sg = b64_encode(hs256_mac(si, secret));
    lemma_b64_encode_alphabet(hs256_mac(si, secret));
    assert forall|i: int| 0 <= i < sg.len() implies sg[i] < 128 && sg[i] != 46 by {
        lemma_b64_byte_props(sg[i]);
    }
    lemma_token_structure(sub, exp, secret, sg, now);
    assert(token_bytes(sub as int, exp as int, secret) == si + seq![46u8] + sg);
}

/// Tampering with the signature: a token whose header and payload segments
/// are those of an issued token but whose signature segment is any other
/// dot-free ASCII text is rejected as `SignatureInvalid` — never accepted,
/// whatever the clock says. (A change that breaks the segment shape itself,
/// such as introducing a dot or a byte outside ASCII, is reported as
/// `Malformed` by the structural parse instead.)
pub proof fn lemma_tampered_signature_rejected(
    sub: i64,
    exp: usize,
    secret: Seq<u8>,
    now: int,
    sig2: Seq<u8>,
)
    requires
        forall|i: int| 0 <= i < sig2.len() ==> sig2[i] < 128 && sig2[i] != 46,
        sig2 != b64_encode(hs256_mac(signing_input(sub as int, exp as int), secret)),
    ensures
        verify_token_spec(
            ascii_chars(signing_input(sub as int, exp as int) + seq![46u8] + sig2),
            secret,
            now,
        ) == Err::<Claims, AuthError>(AuthError::SignatureInvalid),
{
    lemma_token_structure(sub, exp, secret, sig2, now);
}

/// Compare two byte strings.
fn bytes_eq(a: &[u8], b: &[u8]) -> (r: bool)
    ensures
        r == (a@ == b@),
{
    if a.len() != b.len() {
        proof {
            if a@ == b@ {
                assert(a@.len() == b@.len());
            }
        }
        return false;
    }
    let mut i: usize = 0;
    while i < a.len()
        invariant
            i <= a@.len(),
            a@.len() == b@.len(),
            forall|j: int| 0 <= j < i ==> a@[j] == b@[j],
        decreases a@.len() - i,
    {
        if a[i] != b[i] {
            return false;
        }
        i = i + 1;
    }
    proof {
        assert(a@ =~= b@);
    }
    true
}

/// First dot in a byte string.
fn find_dot(s: &[u8]) -> (r: Option<usize>)
    ensures
        match r {
            Some(k) => k < s@.len() && find_byte(s@, 46) == k as int && s@[k as int] == 46,
            None => find_byte(s@, 46) == -1,
        },
{
    let n = s.len();
    let mut j: usize = 0;
    while j < n && s[j] != 46
        invariant
            j <= n,
            n == s@.len(),
            forall|t: int| 0 <= t < j ==> s@[t] != 46,
        decreases n - j,
    {
        j = j + 1;
    }
    if j == n {
        proof {
            lemma_find_byte_none(s@, 46);
        }
        None
    } else {
        proof {
            lemma_find_byte_at(s@, 46, j as int);
        }
        Some(j)
    }
}

/// Validate a token against the secret at clock reading `now`: structural
/// parse, then signature, then expiry, each short-circuiting with its own
/// error kind. A valid token's claims are returned unchanged.
pub fn verify_token(token: &str, secret: &[u8], now: i64) -> (r: Result<Claims, AuthError>)
    ensures
        r == verify_token_spec(token@, secret@, now as int),
{
    if !token.is_ascii() {
        return Err(AuthError::Malformed);
    }
    let b = token.as_bytes_vec();
    proof {
        broadcast use vstd::string::is_ascii_spec_bytes;

        assert(b@ =~= ascii_of(token@));
    }
    let n = b.len();
    let ghost bv: Seq<u8> = b@;
    let i = match find_dot(b.as_slice()) {
        Some(i) => i,
        None => {
            return Err(AuthError::Malformed);
        },
    };
    let r1 = crate::claims::subvec(b.as_slice(), i + 1, n);
    proof {
        assert(r1@ =~= bv.skip(i as int + 1));
    }
    let j = match find_dot(r1.as_slice()) {
        Some(j) => j,
        None => {
            return Err(AuthError::Malformed);
        },
    };
    let sig = crate::claims::subvec(r1.as_slice(), j + 1, r1.len());
    proof {
        assert(sig@ =~= bv.skip(i as int + 1).skip(j as int + 1));
    }
    match find_dot(sig.as_slice()) {
        Some(_) => {
            return Err(AuthError::Malformed);
        },
        None => {},
    }
    let h = crate::claims::subvec(b.as_slice(), 0, i);
    proof {
        assert(h@ =~= bv.take(i as int));
    }
    let header = header_json_bytes();
    let canonical_header = base64url_encode(header.as_slice());
    if !bytes_eq(h.as_slice(), canonical_header.as_slice()) {
        return Err(AuthError::Malformed);
    }
    let p = crate::claims::subvec(r1.as_slice(), 0, j);
    proof {
        assert(p@ =~= bv.skip(i as int + 1).take(j as int));
    }
    let payload = match base64url_decode(p.as_slice()) {
        Some(v) => v,
        None => {
            return Err(AuthError::Malformed);
        },
    };
    let (sub, exp) = match parse_claims_bytes(payload.as_slice()) {
        Some(c) => c,
        None => {
            return Err(AuthError::Malformed);
        },
    };
    // the signed part is everything before the second dot
    let msg = crate::claims::subvec(b.as_slice(), 0, i + 1 + j);
    proof {
        assert(msg@ =~= header_b64() + seq![46u8] + p@);
    }
    let expected = hs256_sign(msg.as_slice(), secret);
    if !bytes_eq(sig.as_slice(), expected.as_slice()) {
        return Err(AuthError::SignatureInvalid);
    }
    let expired: bool = if now < 0 {
        false
    } else {
        exp as u128 <= now as u128
    };
    if expired {
        return Err(AuthError::Expired);
    }
    Ok(Claims { sub, exp })
}

} // verus!

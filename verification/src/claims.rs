//! Canonical JSON form of the token payload: `{"sub":S,"exp":E}` with a
//! decimal subject id and a decimal unix expiry, and its strict parser.

use vstd::prelude::*;
use vstd::arithmetic::div_mod::lemma_fundamental_div_mod;

verus! {

/// Decimal digits of a natural number, most significant first.
pub open spec fn dec_digits(n: nat) -> Seq<u8>
    decreases n,
{
    if n < 10 {
        seq![(48 + n) as u8]
    } else {
        dec_digits(n / 10) + seq![(48 + n % 10) as u8]
    }
}

/// Decimal text of an integer: a minus sign for negative values.
pub open spec fn dec_int(v: int) -> Seq<u8> {
    if v < 0 {
        seq![45u8] + dec_digits((-v) as nat)
    } else {
        dec_digits(v as nat)
    }
}

pub open spec fn is_digit(b: u8) -> bool {
    48 <= b && b <= 57
}

pub open spec fn is_digits(s: Seq<u8>) -> bool {
    s.len() > 0 && forall|i: int| 0 <= i < s.len() ==> is_digit(#[trigger] s[i])
}

/// Numeric value of a digit string, most significant first.
pub open spec fn dec_val(s: Seq<u8>) -> int
    decreases s.len(),
{
    if s.len() == 0 {
        0
    } else {
        dec_val(s.drop_last()) * 10 + (s.last() - 48)
    }
}

/// Canonical unsigned decimal below a bound: digits only, no leading zero.
pub open spec fn is_canon_u64(s: Seq<u8>, bound: int) -> bool {
    is_digits(s) && dec_val(s) <= bound && (s.len() == 1 || s[0] != 48)
}

/// Canonical signed decimal in the `i64` range.
pub open spec fn is_canon_i64(s: Seq<u8>) -> bool {
    if s.len() > 0 && s[0] == 45 {
        let t = s.skip(1);
        is_digits(t) && 1 <= dec_val(t) <= 0x8000_0000_0000_0000 && t[0] != 48
    } else {
        is_canon_u64(s, i64::MAX as int)
    }
}

/// Value of a canonical signed decimal.
pub open spec fn i64_text_val(s: Seq<u8>) -> int {
    if s.len() > 0 && s[0] == 45 {
        -dec_val(s.skip(1))
    } else {
        dec_val(s)
    }
}

proof fn lemma_dec_digits_are_digits(n: nat)
    ensures
        is_digits(dec_digits(n)),
        n > 0 ==> dec_digits(n)[0] != 48,
    decreases n,
{
    if n < 10 {
    } else {
        lemma_dec_digits_are_digits(n / 10);
        let s = dec_digits(n);
        assert forall|i: int| 0 <= i < s.len() implies is_digit(#[trigger] s[i]) by {
            if i < dec_digits(n / 10).len() {
                assert(s[i] == dec_digits(n / 10)[i]);
            }
        }
        assert(s[0] == dec_digits(n / 10)[0]);
    }
}

proof fn lemma_dec_val_of_digits(n: nat)
    ensures
        dec_val(dec_digits(n)) == n,
    decreases n,
{
    if n < 10 {
        let s = dec_digits(n);
        assert(s.drop_last() =~= Seq::<u8>::empty());
        assert(dec_val(s.drop_last()) == 0);
        assert(s.last() == (48 + n) as u8);
    } else {
        lemma_dec_val_of_digits(n / 10);
        let s = dec_digits(n);
        assert(s.drop_last() =~= dec_digits(n / 10));
        assert(s.last() == (48 + n % 10) as u8);
        lemma_fundamental_div_mod(n as int, 10);
    }
}

proof fn lemma_dec_val_nonneg(s: Seq<u8>)
    requires
        forall|i: int| 0 <= i < s.len() ==> is_digit(#[trigger] s[i]),
    ensures
        dec_val(s) >= 0,
    decreases s.len(),
{
    if s.len() > 0 {
        lemma_dec_val_nonneg(s.drop_last());
    }
}

/// A digit prefix never exceeds the value of the whole string.
proof fn lemma_dec_val_prefix_le(s: Seq<u8>, i: int)
    requires
        forall|j: int| 0 <= j < s.len() ==> is_digit(#[trigger] s[j]),
        0 <= i <= s.len(),
    ensures
        dec_val(s.take(i)) <= dec_val(s),
    decreases s.len(),
{
    if i == s.len() {
        assert(s.take(i) =~= s);
    } else {
        assert(s.drop_last().take(i) =~= s.take(i));
        lemma_dec_val_prefix_le(s.drop_last(), i);
        lemma_dec_val_nonneg(s.drop_last());
    }
}

/// First index of `b` in `s`, or -1.
pub open spec fn find_byte(s: Seq<u8>, b: u8) -> int
    decreases s.len(),
{
    if s.len() == 0 {
        -1
    } else if s[0] == b {
        0
    } else {
        let r = find_byte(s.skip(1), b);
        if r < 0 {
            -1
        } else {
            1 + r
        }
    }
}

/// `find_byte` returns exactly the first occurrence.
pub proof fn lemma_find_byte_at(s: Seq<u8>, b: u8, k: int)
    requires
        0 <= k < s.len(),
        s[k] == b,
        forall|i: int| 0 <= i < k ==> s[i] != b,
    ensures
        find_byte(s, b) == k,
    decreases s.len(),
{
    if k > 0 {
        lemma_find_byte_at(s.skip(1), b, k - 1);
    }
}

pub proof fn lemma_find_byte_none(s: Seq<u8>, b: u8)
    requires
        forall|i: int| 0 <= i < s.len() ==> s[i] != b,
    ensures
        find_byte(s, b) == -1,
    decreases s.len(),
{
    if s.len() > 0 {
        lemma_find_byte_none(s.skip(1), b);
    }
}

/// `{"sub":`
pub open spec fn sub_prefix() -> Seq<u8> {
    seq![123u8, 34u8, 115u8, 117u8, 98u8, 34u8, 58u8]
}

/// `,"exp":`
pub open spec fn exp_prefix() -> Seq<u8> {
    seq![44u8, 34u8, 101u8, 120u8, 112u8, 34u8, 58u8]
}

/// The canonical payload bytes for a subject id and expiry.
pub open spec fn claims_json(sub: int, exp: int) -> Seq<u8> {
    sub_prefix() + dec_int(sub) + exp_prefix() + dec_digits(exp as nat) + seq![125u8]
}

/// Strict parse of a canonical payload: `Some((sub, exp))` exactly when the
/// bytes are `claims_json(sub, exp)` for values in range.
pub open spec fn parse_claims(s: Seq<u8>) -> Option<(i64, usize)> {
    if s.len() >= 8 && s.take(7) == sub_prefix() && s.last() == 125 {
        let body = s.subrange(7, s.len() - 1);
        let k = find_byte(body, 44);
        if k < 0 {
            None
        } else {
            let sub_txt = body.take(k);
            let rest = body.skip(k);
            if rest.len() >= 8 && rest.take(7) == exp_prefix() && is_canon_i64(sub_txt)
                && is_canon_u64(rest.skip(7), usize::MAX as int) {
                Some(((i64_text_val(sub_txt)) as i64, dec_val(rest.skip(7)) as usize))
            } else {
                None
            }
        }
    } else {
        None
    }
}

/// Rendering then parsing a payload gives back the same subject and expiry.
pub proof fn lemma_claims_round_trip(sub: i64, exp: usize)
    ensures
        parse_claims(claims_json(sub as int, exp as int)) == Some((sub, exp)),
{
    let s = claims_json(sub as int, exp as int);
    let st = dec_int(sub as int);
    let et = dec_digits(exp as nat);
    if sub < 0 {
        lemma_dec_digits_are_digits((-(sub as int)) as nat);
        lemma_dec_val_of_digits((-(sub as int)) as nat);
    } else {
        lemma_dec_digits_are_digits(sub as nat);
        lemma_dec_val_of_digits(sub as nat);
    }
    lemma_dec_digits_are_digits(exp as nat);
    lemma_dec_val_of_digits(exp as nat);
    assert(s.take(7) =~= sub_prefix());
    assert(s.last() == 125);
    let body = s.subrange(7, s.len() - 1);
    assert(body =~= st + exp_prefix() + et);
    // the subject text holds no comma, and the next segment starts with one
    assert forall|i: int| 0 <= i < st.len() implies body[i] != 44 by {
        assert(body[i] == st[i]);
        if sub < 0 {
            if i == 0 {
            } else {
                assert(st[i] == dec_digits((-(sub as int)) as nat)[i - 1]);
            }
        }
    }
    assert(body[st.len() as int] == 44);
    lemma_find_byte_at(body, 44, st.len() as int);
    let sub_txt = body.take(st.len() as int);
    let rest = body.skip(st.len() as int);
    assert(sub_txt =~= st);
    assert(rest =~= exp_prefix() + et);
    assert(rest.take(7) =~= exp_prefix());
    assert(rest.skip(7) =~= et);
    if sub < 0 {
        assert(st[0] == 45);
        assert(st.skip(1) =~= dec_digits((-(sub as int)) as nat));
        assert(is_canon_i64(sub_txt));
        assert(i64_text_val(sub_txt) == sub as int);
    } else {
        if st.len() > 0 && st[0] == 45 {
            // a digit string never starts with a minus sign
            assert(is_digit(st[0]));
            assert(false);
        }
        assert(is_canon_i64(sub_txt));
        assert(i64_text_val(sub_txt) == sub as int);
    }
    assert(is_canon_u64(rest.skip(7), usize::MAX as int));
}

/// Append the decimal digits of `n`.
fn push_dec_u64(out: &mut Vec<u8>, n: u64)
    ensures
        final(out)@ == old(out)@ + dec_digits(n as nat),
    decreases n,
{
    if n < 10 {
        out.push(48 + n as u8);
        assert(out@ =~= old(out)@ + dec_digits(n as nat));
    } else {
        push_dec_u64(out, n / 10);
        out.push(48 + (n % 10) as u8);
        assert(out@ =~= old(out)@ + dec_digits(n as nat));
    }
}

/// Render the canonical payload bytes for a subject id and expiry.
pub fn render_claims(sub: i64, exp: usize) -> (r: Vec<u8>)
    ensures
        r@ == claims_json(sub as int, exp as int),
{
    let mut out: Vec<u8> = Vec::new();
    out.push(123);
    out.push(34);
    out.push(115);
    out.push(117);
    out.push(98);
    out.push(34);
    out.push(58);
    proof {
        assert(out@ =~= sub_prefix());
    }
    if sub < 0 {
        out.push(45);
        let mag: u64 = (-(sub as i128)) as u64;
        proof {
            assert(mag as nat == (-(sub as int)) as nat);
        }
        push_dec_u64(&mut out, mag);
        proof {
            assert(out@ =~= sub_prefix() + dec_int(sub as int));
        }
    } else {
        push_dec_u64(&mut out, sub as u64);
        proof {
            assert(out@ =~= sub_prefix() + dec_int(sub as int));
        }
    }
    let ghost mid: Seq<u8> = out@;
    out.push(44);
    out.push(34);
    out.push(101);
    out.push(120);
    out.push(112);
    out.push(34);
    out.push(58);
    proof {
        assert(out@ =~= mid + exp_prefix());
    }
    push_dec_u64(&mut out, exp as u64);
    out.push(125);
    proof {
        assert(out@ =~= claims_json(sub as int, exp as int));
    }
    out
}

/// Copy `s[lo..hi]` out as its own vector.
pub(crate) fn subvec(s: &[u8], lo: usize, hi: usize) -> (r: Vec<u8>)
    requires
        lo <= hi <= s@.len(),
    ensures
        r@ == s@.subrange(lo as int, hi as int),
{
    let mut out: Vec<u8> = Vec::new();
    let mut i: usize = lo;
    while i < hi
        invariant
            lo <= i <= hi <= s@.len(),
            out@ == s@.subrange(lo as int, i as int),
        decreases hi - i,
    {
        out.push(s[i]);
        proof {
            assert(s@.subrange(lo as int, i as int) + seq![s@[i as int]] =~= s@.subrange(
                lo as int,
                i as int + 1,
            ));
        }
        i = i + 1;
    }
    out
}

/// Parse a canonical unsigned decimal no larger than `bound`.
fn parse_u64_canon(v: &[u8], bound: u64) -> (r: Option<u64>)
    ensures
        match r {
            Some(x) => is_canon_u64(v@, bound as int) && x as int == dec_val(v@),
            None => !is_canon_u64(v@, bound as int),
        },
{
    let n = v.len();
    if n == 0 {
        return None;
    }
    if n > 1 && v[0] == 48 {
        return None;
    }
    let mut acc: u128 = 0;
    let mut i: usize = 0;
    proof {
        assert(v@.take(0) =~= Seq::<u8>::empty());
    }
    while i < n
        invariant
            i <= n,
            n == v@.len(),
            acc <= bound,
            bound <= u64::MAX,
            forall|j: int| 0 <= j < i ==> is_digit(#[trigger] v@[j]),
            acc as int == dec_val(v@.take(i as int)),
        decreases n - i,
    {
        let b = v[i];
        if b < 48 || b > 57 {
            return None;
        }
        acc = acc * 10 + (b - 48) as u128;
        proof {
            assert(v@.take(i as int + 1).drop_last() =~= v@.take(i as int));
            assert(v@.take(i as int + 1).last() == v@[i as int]);
        }
        if acc > bound as u128 {
            proof {
                if is_digits(v@) {
                    lemma_dec_val_prefix_le(v@, i as int + 1);
                }
            }
            return None;
        }
        i = i + 1;
    }
    proof {
        assert(v@.take(n as int) =~= v@);
    }
    Some(acc as u64)
}

/// Parse a canonical signed decimal in the `i64` range.
fn parse_i64_canon(v: &[u8]) -> (r: Option<i64>)
    ensures
        match r {
            Some(x) => is_canon_i64(v@) && x as int == i64_text_val(v@),
            None => !is_canon_i64(v@),
        },
{
    let n = v.len();
    if n == 0 {
        return None;
    }
    if v[0] == 45 {
        let t = subvec(v, 1, n);
        proof {
            assert(t@ =~= v@.skip(1));
        }
        match parse_u64_canon(&t, 9223372036854775808u64) {
            Some(m) => {
                if m == 0 {
                    proof {
                        // a canonical magnitude is at least one
                        if is_canon_i64(v@) {
                            assert(dec_val(v@.skip(1)) >= 1);
                        }
                    }
                    return None;
                }
                let x: i64 = (-(m as i128)) as i64;
                proof {
                    assert(-(m as i128) >= i64::MIN as i128 && -(m as i128) <= 0);
                    assert(x as int == -(m as int));
                    if t@[0] == 48 {
                        // a canonical leading zero means the whole text is "0"
                        assert(t@.len() == 1);
                        assert(t@.drop_last() =~= Seq::<u8>::empty());
                        assert(dec_val(t@.drop_last()) == 0);
                        assert(t@.last() == 48);
                        assert(dec_val(t@) == 0);
                        assert(false);
                    }
                    assert(is_canon_i64(v@));
                }
                Some(x)
            },
            None => {
                proof {
                    if is_canon_i64(v@) {
                        assert(is_canon_u64(v@.skip(1), 9223372036854775808));
                    }
                }
                None
            },
        }
    } else {
        match parse_u64_canon(v, 9223372036854775807u64) {
            Some(m) => Some(m as i64),
            None => None,
        }
    }
}

/// Strict parser for the canonical payload bytes.
pub fn parse_claims_bytes(s: &[u8]) -> (r: Option<(i64, usize)>)
    ensures
        r == parse_claims(s@),
{
    let n = s.len();
    if n < 8 {
        return None;
    }
    if !(s[0] == 123 && s[1] == 34 && s[2] == 115 && s[3] == 117 && s[4] == 98 && s[5] == 34 && s[6]
        == 58) {
        proof {
            if s@.take(7) == sub_prefix() {
                assert(s@[0] == sub_prefix()[0] && s@[1] == sub_prefix()[1] && s@[2]
                    == sub_prefix()[2] && s@[3] == sub_prefix()[3] && s@[4] == sub_prefix()[4]
                    && s@[5] == sub_prefix()[5] && s@[6] == sub_prefix()[6]);
            }
        }
        return None;
    }
    proof {
        assert(s@.take(7) =~= sub_prefix());
    }
    if s[n - 1] != 125 {
        return None;
    }
    let ghost body: Seq<u8> = s@.subrange(7, n as int - 1);
    // find the first comma after the subject digits
    let mut j: usize = 7;
    while j < n - 1 && s[j] != 44
        invariant
            7 <= j <= n - 1,
            n == s@.len(),
            n >= 8,
            body == s@.subrange(7, n as int - 1),
            forall|t: int| 0 <= t < j - 7 ==> body[t] != 44,
        decreases n - 1 - j,
    {
        j = j + 1;
    }
    if j == n - 1 {
        proof {
            lemma_find_byte_none(body, 44);
        }
        return None;
    }
    let comma: usize = j;
    let ghost k: int = comma as int - 7;
    proof {
        assert(body[k] == s@[comma as int]);
        lemma_find_byte_at(body, 44, k);
    }
    // rest must be `,"exp":` then the expiry digits
    if n - 1 - comma < 8 {
        proof {
            assert(body.skip(k).len() == n - 1 - comma);
        }
        return None;
    }
    if !(s[comma + 1] == 34 && s[comma + 2] == 101 && s[comma + 3] == 120 && s[comma + 4] == 112
        && s[comma + 5] == 34 && s[comma + 6] == 58) {
        proof {
            let rest = body.skip(k);
            if rest.take(7) == exp_prefix() {
                assert(rest[1] == exp_prefix()[1] && rest[2] == exp_prefix()[2] && rest[3]
                    == exp_prefix()[3] && rest[4] == exp_prefix()[4] && rest[5] == exp_prefix()[5]
                    && rest[6] == exp_prefix()[6]);
                assert(rest[1] == s@[comma as int + 1] && rest[2] == s@[comma as int + 2] && rest[3]
                    == s@[comma as int + 3] && rest[4] == s@[comma as int + 4] && rest[5]
                    == s@[comma as int + 5] && rest[6] == s@[comma as int + 6]);
            }
        }
        return None;
    }
    proof {
        let rest = body.skip(k);
        assert(rest.take(7) =~= seq![
            s@[comma as int],
            s@[comma as int + 1],
            s@[comma as int + 2],
            s@[comma as int + 3],
            s@[comma as int + 4],
            s@[comma as int + 5],
            s@[comma as int + 6],
        ]);
        assert(rest.take(7) =~= exp_prefix());
    }
    let sub_txt = subvec(s, 7, comma);
    proof {
        assert(sub_txt@ =~= body.take(k));
    }
    let sub = match parse_i64_canon(&sub_txt) {
        Some(x) => x,
        None => {
            return None;
        },
    };
    let exp_txt = subvec(s, comma + 7, n - 1);
    proof {
        assert(exp_txt@ =~= body.skip(k).skip(7));
    }
    let exp64 = match parse_u64_canon(&exp_txt, usize::MAX as u64) {
        Some(x) => x,
        None => {
            return None;
        },
    };
    Some((sub, exp64 as usize))
}

} // verus!

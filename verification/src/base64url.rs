//! Base64url without padding, over bytes: the encoding the compact token
//! format uses for its header, payload and signature segments.

use vstd::prelude::*;

verus! {

/// ASCII byte of the base64url alphabet for a sextet value below 64.
pub open spec fn b64_byte(v: int) -> u8
    recommends
        0 <= v < 64,
{
    if v < 26 {
        (65 + v) as u8  // 'A'..='Z'
    } else if v < 52 {
        (97 + v - 26) as u8  // 'a'..='z'
    } else if v < 62 {
        (48 + v - 52) as u8  // '0'..='9'
    } else if v == 62 {
        45u8  // '-'
    } else {
        95u8  // '_'
    }
}

/// Sextet value of an ASCII byte; -1 when the byte is not in the alphabet.
pub open spec fn b64_value(b: u8) -> int {
    if 65 <= b && b <= 90 {
        b - 65
    } else if 97 <= b && b <= 122 {
        26 + (b - 97)
    } else if 48 <= b && b <= 57 {
        52 + (b - 48)
    } else if b == 45 {
        62
    } else if b == 95 {
        63
    } else {
        -1
    }
}

pub open spec fn is_b64_byte(b: u8) -> bool {
    b64_value(b) >= 0
}

/// The four sextets of a three-byte group.
pub open spec fn sx0(b0: u8) -> u8 {
    b0 >> 2
}

pub open spec fn sx1(b0: u8, b1: u8) -> u8 {
    ((b0 & 3) << 4) | (b1 >> 4)
}

pub open spec fn sx2(b1: u8, b2: u8) -> u8 {
    ((b1 & 15) << 2) | (b2 >> 6)
}

pub open spec fn sx3(b2: u8) -> u8 {
    b2 & 63
}

/// The three bytes recovered from four sextet values.
pub open spec fn dec_b0(v0: u8, v1: u8) -> u8 {
    (v0 << 2) | (v1 >> 4)
}

pub open spec fn dec_b1(v1: u8, v2: u8) -> u8 {
    ((v1 & 15) << 4) | (v2 >> 2)
}

pub open spec fn dec_b2(v2: u8, v3: u8) -> u8 {
    ((v2 & 3) << 6) | v3
}

/// Encoding of a full three-byte group.
pub open spec fn encode3(b0: u8, b1: u8, b2: u8) -> Seq<u8> {
    seq![
        b64_byte(sx0(b0) as int),
        b64_byte(sx1(b0, b1) as int),
        b64_byte(sx2(b1, b2) as int),
        b64_byte(sx3(b2) as int),
    ]
}

/// Base64url of a byte sequence, unpadded: full groups of three, then a
/// three- or two-character tail for two or one leftover bytes.
pub open spec fn b64_encode(bytes: Seq<u8>) -> Seq<u8>
    decreases bytes.len(),
{
    if bytes.len() >= 3 {
        encode3(bytes[0], bytes[1], bytes[2]) + b64_encode(bytes.skip(3))
    } else if bytes.len() == 2 {
        seq![
            b64_byte(sx0(bytes[0]) as int),
            b64_byte(sx1(bytes[0], bytes[1]) as int),
            b64_byte(((bytes[1] & 15) << 2) as int),
        ]
    } else if bytes.len() == 1 {
        seq![b64_byte(sx0(bytes[0]) as int), b64_byte(((bytes[0] & 3) << 4) as int)]
    } else {
        Seq::empty()
    }
}

/// Strict base64url decoding: every byte must be in the alphabet, a tail of
/// one character is malformed, and the unused low bits of a tail must be
/// zero, so exactly the outputs of `b64_encode` are accepted.
pub open spec fn b64_decode(s: Seq<u8>) -> Option<Seq<u8>>
    decreases s.len(),
{
    if s.len() >= 4 {
        if is_b64_byte(s[0]) && is_b64_byte(s[1]) && is_b64_byte(s[2]) && is_b64_byte(s[3]) {
            let v0 = b64_value(s[0]) as u8;
            let v1 = b64_value(s[1]) as u8;
            let v2 = b64_value(s[2]) as u8;
            let v3 = b64_value(s[3]) as u8;
            match b64_decode(s.skip(4)) {
                Some(rest) => Some(
                    seq![dec_b0(v0, v1), dec_b1(v1, v2), dec_b2(v2, v3)] + rest,
                ),
                None => None,
            }
        } else {
            None
        }
    } else if s.len() == 3 {
        if is_b64_byte(s[0]) && is_b64_byte(s[1]) && is_b64_byte(s[2]) && (b64_value(s[2]) as u8)
            & 3 == 0 {
            let v0 = b64_value(s[0]) as u8;
            let v1 = b64_value(s[1]) as u8;
            let v2 = b64_value(s[2]) as u8;
            Some(seq![dec_b0(v0, v1), dec_b1(v1, v2)])
        } else {
            None
        }
    } else if s.len() == 2 {
        if is_b64_byte(s[0]) && is_b64_byte(s[1]) && (b64_value(s[1]) as u8) & 15 == 0 {
            Some(seq![dec_b0(b64_value(s[0]) as u8, b64_value(s[1]) as u8)])
        } else {
            None
        }
    } else if s.len() == 1 {
        None
    } else {
        Some(Seq::empty())
    }
}

/// Bit-level facts about one three-byte group: the sextets are below 64,
/// decoding them recovers the bytes, and the unused tail bits are zero.
proof fn lemma_group_bits(b0: u8, b1: u8, b2: u8)
    ensures
        sx0(b0) < 64,
        sx1(b0, b1) < 64,
        sx2(b1, b2) < 64,
        sx3(b2) < 64,
        ((b0 & 3) << 4) < 64,
        ((b1 & 15) << 2) < 64,
        dec_b0(sx0(b0), sx1(b0, b1)) == b0,
        dec_b1(sx1(b0, b1), sx2(b1, b2)) == b1,
        dec_b2(sx2(b1, b2), sx3(b2)) == b2,
        ((b1 & 15) << 2) & 3 == 0,
        ((b0 & 3) << 4) & 15 == 0,
        dec_b1(sx1(b0, b1), (b1 & 15) << 2) == b1,
{
    assert((b0 >> 2) < 64 && (((b0 & 3) << 4) | (b1 >> 4)) < 64 && (((b1 & 15) << 2) | (b2 >> 6))
        < 64 && (b2 & 63) < 64 && ((b0 & 3) << 4) < 64 && ((b1 & 15) << 2) < 64 && ((((b0 >> 2)
        << 2) | ((((b0 & 3) << 4) | (b1 >> 4)) >> 4)) == b0) && ((((((b0 & 3) << 4) | (b1 >> 4))
        & 15) << 4) | ((((b1 & 15) << 2) | (b2 >> 6)) >> 2)) == b1 && ((((((b1 & 15) << 2) | (b2
        >> 6)) & 3) << 6) | (b2 & 63)) == b2 && (((b1 & 15) << 2) & 3) == 0 && (((b0 & 3) << 4)
        & 15) == 0 && ((((((b0 & 3) << 4) | (b1 >> 4)) & 15) << 4) | (((b1 & 15) << 2) >> 2))
        == b1) by (bit_vector);
}

/// Every alphabet byte is ASCII, is not a dot, and maps back to its sextet.
proof fn lemma_b64_byte_value(v: int)
    requires
        0 <= v < 64,
    ensures
        b64_value(b64_byte(v)) == v,
        is_b64_byte(b64_byte(v)),
        b64_byte(v) < 128,
        b64_byte(v) != 46,
{
}

/// A byte of the alphabet is ASCII and is not a dot.
pub proof fn lemma_b64_byte_props(b: u8)
    requires
        is_b64_byte(b),
    ensures
        b < 128,
        b != 46,
{
}

/// Everything `b64_encode` emits is in the base64url alphabet.
pub proof fn lemma_b64_encode_alphabet(bytes: Seq<u8>)
    ensures
        forall|i: int|
            0 <= i < b64_encode(bytes).len() ==> #[trigger] is_b64_byte(b64_encode(bytes)[i]),
    decreases bytes.len(),
{
    if bytes.len() >= 3 {
        lemma_group_bits(bytes[0], bytes[1], bytes[2]);
        lemma_b64_byte_value(sx0(bytes[0]) as int);
        lemma_b64_byte_value(sx1(bytes[0], bytes[1]) as int);
        lemma_b64_byte_value(sx2(bytes[1], bytes[2]) as int);
        lemma_b64_byte_value(sx3(bytes[2]) as int);
        lemma_b64_encode_alphabet(bytes.skip(3));
        assert forall|i: int| 0 <= i < b64_encode(bytes).len() implies #[trigger] is_b64_byte(
            b64_encode(bytes)[i],
        ) by {
            if i >= 4 {
                assert(b64_encode(bytes)[i] == b64_encode(bytes.skip(3))[i - 4]);
            }
        }
    } else if bytes.len() == 2 {
        lemma_group_bits(bytes[0], bytes[1], 0);
        lemma_b64_byte_value(sx0(bytes[0]) as int);
        lemma_b64_byte_value(sx1(bytes[0], bytes[1]) as int);
        lemma_b64_byte_value(((bytes[1] & 15) << 2) as int);
    } else if bytes.len() == 1 {
        lemma_group_bits(bytes[0], 0, 0);
        lemma_b64_byte_value(sx0(bytes[0]) as int);
        lemma_b64_byte_value(((bytes[0] & 3) << 4) as int);
    }
}

/// Decoding inverts encoding: strict decode accepts exactly what encode
/// produced and returns the original bytes.
pub proof fn lemma_b64_round_trip(bytes: Seq<u8>)
    ensures
        b64_decode(b64_encode(bytes)) == Some(bytes),
    decreases bytes.len(),
{
    if bytes.len() >= 3 {
        let b0 = bytes[0];
        let b1 = bytes[1];
        let b2 = bytes[2];
        lemma_group_bits(b0, b1, b2);
        lemma_b64_byte_value(sx0(b0) as int);
        lemma_b64_byte_value(sx1(b0, b1) as int);
        lemma_b64_byte_value(sx2(b1, b2) as int);
        lemma_b64_byte_value(sx3(b2) as int);
        lemma_b64_round_trip(bytes.skip(3));
        let e = b64_encode(bytes);
        assert(e == encode3(b0, b1, b2) + b64_encode(bytes.skip(3)));
        assert(e.skip(4) =~= b64_encode(bytes.skip(3)));
        assert(b64_decode(e) == Some(
            seq![b0, b1, b2] + bytes.skip(3),
        ));
        assert(seq![b0, b1, b2] + bytes.skip(3) =~= bytes);
    } else if bytes.len() == 2 {
        let b0 = bytes[0];
        let b1 = bytes[1];
        lemma_group_bits(b0, b1, 0);
        lemma_b64_byte_value(sx0(b0) as int);
        lemma_b64_byte_value(sx1(b0, b1) as int);
        lemma_b64_byte_value(((b1 & 15) << 2) as int);
        assert(seq![b0, b1] =~= bytes);
    } else if bytes.len() == 1 {
        let b0 = bytes[0];
        lemma_group_bits(b0, 0, 0);
        lemma_b64_byte_value(sx0(b0) as int);
        lemma_b64_byte_value(((b0 & 3) << 4) as int);
        assert(dec_b0(sx0(b0), (b0 & 3) << 4) == b0) by (bit_vector);
        assert(seq![b0] =~= bytes);
    } else {
        assert(b64_encode(bytes) =~= Seq::<u8>::empty());
        assert(bytes =~= Seq::<u8>::empty());
    }
}

/// Alphabet byte for a sextet value.
fn b64_byte_of(v: u8) -> (r: u8)
    requires
        v < 64,
    ensures
        r == b64_byte(v as int),
{
    if v < 26 {
        65 + v
    } else if v < 52 {
        97 + (v - 26)
    } else if v < 62 {
        48 + (v - 52)
    } else if v == 62 {
        45
    } else {
        95
    }
}

/// Sextet value of a byte, `None` outside the alphabet.
fn b64_value_of(b: u8) -> (r: Option<u8>)
    ensures
        match r {
            Some(v) => b64_value(b) == v as int && v < 64,
            None => b64_value(b) == -1,
        },
{
    if 65 <= b && b <= 90 {
        Some(b - 65)
    } else if 97 <= b && b <= 122 {
        Some(26 + (b - 97))
    } else if 48 <= b && b <= 57 {
        Some(52 + (b - 48))
    } else if b == 45 {
        Some(62)
    } else if b == 95 {
        Some(63)
    } else {
        None
    }
}

/// Encode bytes as unpadded base64url.
pub fn base64url_encode(bytes: &[u8]) -> (r: Vec<u8>)
    ensures
        r@ == b64_encode(bytes@),
{
    let n = bytes.len();
    let mut out: Vec<u8> = Vec::new();
    let mut i: usize = 0;
    proof {
        assert(bytes@.skip(0) =~= bytes@);
    }
    while n - i >= 3
        invariant
            i <= n,
            n == bytes@.len(),
            out@ + b64_encode(bytes@.skip(i as int)) == b64_encode(bytes@),
        decreases n - i,
    {
        let b0 = bytes[i];
        let b1 = bytes[i + 1];
        let b2 = bytes[i + 2];
        proof {
            lemma_group_bits(b0, b1, b2);
        }
        let ghost pre: Seq<u8> = out@;
        out.push(b64_byte_of(b0 >> 2));
        out.push(b64_byte_of(((b0 & 3) << 4) | (b1 >> 4)));
        out.push(b64_byte_of(((b1 & 15) << 2) | (b2 >> 6)));
        out.push(b64_byte_of(b2 & 63));
        proof {
            let rest = bytes@.skip(i as int);
            assert(rest[0] == b0 && rest[1] == b1 && rest[2] == b2);
            assert(rest.skip(3) =~= bytes@.skip(i as int + 3));
            assert(out@ =~= pre + encode3(b0, b1, b2));
            assert(out@ + b64_encode(bytes@.skip(i as int + 3)) =~= pre + b64_encode(
                bytes@.skip(i as int),
            ));
        }
        i = i + 3;
    }
    let ghost pre: Seq<u8> = out@;
    let ghost rest: Seq<u8> = bytes@.skip(i as int);
    if n - i == 2 {
        let b0 = bytes[i];
        let b1 = bytes[i + 1];
        proof {
            lemma_group_bits(b0, b1, 0);
            assert(rest[0] == b0 && rest[1] == b1);
        }
        out.push(b64_byte_of(b0 >> 2));
        out.push(b64_byte_of(((b0 & 3) << 4) | (b1 >> 4)));
        out.push(b64_byte_of((b1 & 15) << 2));
        proof {
            assert(out@ =~= pre + b64_encode(rest));
        }
    } else if n - i == 1 {
        let b0 = bytes[i];
        proof {
            lemma_group_bits(b0, 0, 0);
            assert(rest[0] == b0);
        }
        out.push(b64_byte_of(b0 >> 2));
        out.push(b64_byte_of((b0 & 3) << 4));
        proof {
            assert(out@ =~= pre + b64_encode(rest));
        }
    } else {
        proof {
            assert(rest =~= Seq::<u8>::empty());
            assert(out@ =~= pre + b64_encode(rest));
        }
    }
    out
}

/// Decode unpadded base64url, strictly.
pub fn base64url_decode(s: &[u8]) -> (r: Option<Vec<u8>>)
    ensures
        match r {
            Some(v) => b64_decode(s@) == Some(v@),
            None => b64_decode(s@) == None::<Seq<u8>>,
        },
{
    let n = s.len();
    let mut out: Vec<u8> = Vec::new();
    let mut i: usize = 0;
    proof {
        assert(s@.skip(0) =~= s@);
    }
    while n - i >= 4
        invariant
            i <= n,
            n == s@.len(),
            b64_decode(s@) == (match b64_decode(s@.skip(i as int)) {
                Some(rest) => Some(out@ + rest),
                None => None::<Seq<u8>>,
            }),
        decreases n - i,
    {
        let ghost rest: Seq<u8> = s@.skip(i as int);
        proof {
            assert(rest[0] == s@[i as int] && rest[1] == s@[i as int + 1] && rest[2] == s@[i as int
                + 2] && rest[3] == s@[i as int + 3]);
            assert(rest.skip(4) =~= s@.skip(i as int + 4));
        }
        let v0 = match b64_value_of(s[i]) {
            Some(v) => v,
            None => {
                return None;
            },
        };
        let v1 = match b64_value_of(s[i + 1]) {
            Some(v) => v,
            None => {
                return None;
            },
        };
        let v2 = match b64_value_of(s[i + 2]) {
            Some(v) => v,
            None => {
                return None;
            },
        };
        let v3 = match b64_value_of(s[i + 3]) {
            Some(v) => v,
            None => {
                return None;
            },
        };
        let ghost pre: Seq<u8> = out@;
        out.push((v0 << 2) | (v1 >> 4));
        out.push(((v1 & 15) << 4) | (v2 >> 2));
        out.push(((v2 & 3) << 6) | v3);
        proof {
            assert(out@ =~= pre + seq![dec_b0(v0, v1), dec_b1(v1, v2), dec_b2(v2, v3)]);
            match b64_decode(s@.skip(i as int + 4)) {
                Some(r2) => {
                    assert(pre + (seq![dec_b0(v0, v1), dec_b1(v1, v2), dec_b2(v2, v3)] + r2) =~= out@
                        + r2);
                },
                None => {},
            }
        }
        i = i + 4;
    }
    let ghost rest: Seq<u8> = s@.skip(i as int);
    if n - i == 3 {
        proof {
            assert(rest[0] == s@[i as int] && rest[1] == s@[i as int + 1] && rest[2] == s@[i as int
                + 2]);
        }
        let v0 = match b64_value_of(s[i]) {
            Some(v) => v,
            None => {
                return None;
            },
        };
        let v1 = match b64_value_of(s[i + 1]) {
            Some(v) => v,
            None => {
                return None;
            },
        };
        let v2 = match b64_value_of(s[i + 2]) {
            Some(v) => v,
            None => {
                return None;
            },
        };
        if v2 & 3 != 0 {
            return None;
        }
        let ghost pre: Seq<u8> = out@;
        out.push((v0 << 2) | (v1 >> 4));
        out.push(((v1 & 15) << 4) | (v2 >> 2));
        proof {
            assert(out@ =~= pre + seq![dec_b0(v0, v1), dec_b1(v1, v2)]);
        }
        Some(out)
    } else if n - i == 2 {
        proof {
            assert(rest[0] == s@[i as int] && rest[1] == s@[i as int + 1]);
        }
        let v0 = match b64_value_of(s[i]) {
            Some(v) => v,
            None => {
                return None;
            },
        };
        let v1 = match b64_value_of(s[i + 1]) {
            Some(v) => v,
            None => {
                return None;
            },
        };
        if v1 & 15 != 0 {
            return None;
        }
        let ghost pre: Seq<u8> = out@;
        out.push((v0 << 2) | (v1 >> 4));
        proof {
            assert(out@ =~= pre + seq![dec_b0(v0, v1)]);
        }
        Some(out)
    } else if n - i == 1 {
        None
    } else {
        proof {
            assert(rest =~= Seq::<u8>::empty());
            assert(out@ + Seq::<u8>::empty() =~= out@);
        }
        Some(out)
    }
}

} // verus!

//! The uniform response envelope and its JSON rendering.

use vstd::prelude::*;

verus! {

/// Uniform wrapper shape for all API responses, success or failure.
/// `data` is present on success or when structured error detail must be
/// conveyed; absent otherwise.
#[derive(Debug)]
pub struct ApiResponse<T> {
    pub status: bool,
    pub message: String,
    pub data: Option<T>,
}

impl<T> ApiResponse<T> {
    /// Success envelope: `status` true, payload present.
    pub fn success(message: &str, data: T) -> (r: Self)
        ensures
            r.status == true,
            r.message@ == message@,
            r.data == Some(data),
    {
        ApiResponse { status: true, message: message.to_owned(), data: Some(data) }
    }

    /// Error envelope: `status` false, no payload.
    pub fn error(message: &str) -> (r: Self)
        ensures
            r.status == false,
            r.message@ == message@,
            r.data == None::<T>,
    {
        ApiResponse { status: false, message: message.to_owned(), data: None }
    }
}

/// Hexadecimal digit (lower case) for a value below 16.
pub open spec fn hex_digit(v: int) -> char
    recommends
        0 <= v < 16,
{
    if v < 10 {
        (48 + v) as char
    } else {
        (87 + v) as char
    }
}

/// How a single character appears inside a JSON string literal.
pub open spec fn json_escape_char(c: char) -> Seq<char> {
    if c == '"' {
        seq!['\\', '"']
    } else if c == '\\' {
        seq!['\\', '\\']
    } else if c == '\n' {
        seq!['\\', 'n']
    } else if c == '\r' {
        seq!['\\', 'r']
    } else if c == '\t' {
        seq!['\\', 't']
    } else if (c as u32) < 32 {
        seq!['\\', 'u', '0', '0', hex_digit((c as u32 / 16) as int), hex_digit((c as u32 % 16) as int)]
    } else {
        seq![c]
    }
}

/// A whole string escaped for inclusion in a JSON string literal.
pub open spec fn json_escape(s: Seq<char>) -> Seq<char>
    decreases s.len(),
{
    if s.len() == 0 {
        Seq::empty()
    } else {
        json_escape_char(s[0]) + json_escape(s.skip(1))
    }
}

/// The exact JSON text of an envelope. `data`, when present, is a
/// pre-rendered JSON fragment inserted verbatim; when absent the `data`
/// key is omitted entirely.
pub open spec fn envelope_json(status: bool, message: Seq<char>, data: Option<Seq<char>>) -> Seq<char> {
    seq!['{', '"', 's', 't', 'a', 't', 'u', 's', '"', ':']
        + (if status { seq!['t', 'r', 'u', 'e'] } else { seq!['f', 'a', 'l', 's', 'e'] })
        + seq![',', '"', 'm', 'e', 's', 's', 'a', 'g', 'e', '"', ':', '"']
        + json_escape(message)
        + seq!['"']
        + (match data {
            Some(d) => seq![',', '"', 'd', 'a', 't', 'a', '"', ':'] + d,
            None => Seq::<char>::empty(),
        })
        + seq!['}']
}

/// Relies on `String`'s `FromIterator<char>` impl: collecting characters
/// yields the string made of exactly those characters, in order.
#[verifier::external_body]
pub(crate) fn chars_to_string(v: Vec<char>) -> (r: String)
    ensures
        r@ == v@,
{
    v.into_iter().collect()
}

/// Append one character, escaped as it appears inside a JSON string literal.
fn push_escaped_char(out: &mut Vec<char>, c: char)
    ensures
        final(out)@ == old(out)@ + json_escape_char(c),
{
    if c == '"' {
        out.push('\\');
        out.push('"');
        assert(out@ =~= old(out)@ + json_escape_char(c));
    } else if c == '\\' {
        out.push('\\');
        out.push('\\');
        assert(out@ =~= old(out)@ + json_escape_char(c));
    } else if c == '\n' {
        out.push('\\');
        out.push('n');
        assert(out@ =~= old(out)@ + json_escape_char(c));
    } else if c == '\r' {
        out.push('\\');
        out.push('r');
        assert(out@ =~= old(out)@ + json_escape_char(c));
    } else if c == '\t' {
        out.push('\\');
        out.push('t');
        assert(out@ =~= old(out)@ + json_escape_char(c));
    } else if (c as u32) < 32 {
        out.push('\\');
        out.push('u');
        out.push('0');
        out.push('0');
        let v: u32 = c as u32;
        let hi: u32 = v / 16;
        let lo: u32 = v % 16;
        out.push(if hi < 10 { (48 + hi as u8) as char } else { (87 + hi as u8) as char });
        out.push(if lo < 10 { (48 + lo as u8) as char } else { (87 + lo as u8) as char });
        assert(out@ =~= old(out)@ + json_escape_char(c));
    } else {
        out.push(c);
        assert(out@ =~= old(out)@ + json_escape_char(c));
    }
}

/// Append a whole string, escaped for a JSON string literal.
pub(crate) fn push_escaped(out: &mut Vec<char>, s: &str)
    ensures
        final(out)@ == old(out)@ + json_escape(s@),
{
    let n = s.unicode_len();
    let mut i: usize = 0;
    proof {
        assert(s@.skip(0) =~= s@);
    }
    while i < n
        invariant
            n == s@.len(),
            i <= n,
            out@ + json_escape(s@.skip(i as int)) == old(out)@ + json_escape(s@),
        decreases n - i,
    {
        let c = s.get_char(i);
        proof {
            assert(s@.skip(i as int)[0] == s@[i as int]);
            assert(s@.skip(i as int).skip(1) =~= s@.skip(i as int + 1));
        }
        push_escaped_char(out, c);
        i = i + 1;
    }
    proof {
        assert(s@.skip(n as int) =~= Seq::<char>::empty());
        assert(json_escape(Seq::<char>::empty()) =~= Seq::<char>::empty());
        assert(out@ =~= out@ + json_escape(s@.skip(n as int)));
    }
}

/// Append every character of `s` verbatim.
fn push_raw(out: &mut Vec<char>, s: &str)
    ensures
        final(out)@ == old(out)@ + s@,
{
    let n = s.unicode_len();
    let mut i: usize = 0;
    while i < n
        invariant
            n == s@.len(),
            i <= n,
            out@ == old(out)@ + s@.take(i as int),
        decreases n - i,
    {
        let c = s.get_char(i);
        out.push(c);
        proof {
            assert(old(out)@ + s@.take(i as int) + seq![s@[i as int]] =~= old(out)@ + s@.take(
                i as int + 1,
            ));
        }
        i = i + 1;
    }
    proof {
        assert(s@.take(n as int) =~= s@);
    }
}

/// Render an envelope to its JSON text. `data`, when given, must already be
/// a rendered JSON fragment; it is inserted verbatim under the `data` key.
/// When `data` is absent the output has no `data` key at all.
pub fn render_envelope(status: bool, message: &str, data: Option<&str>) -> (r: String)
    ensures
        r@ == envelope_json(
            status,
            message@,
            match data {
                Some(d) => Some(d@),
                None => None,
            },
        ),
{
    let mut out: Vec<char> = Vec::new();
    out.push('{');
    out.push('"');
    out.push('s');
    out.push('t');
    out.push('a');
    out.push('t');
    out.push('u');
    out.push('s');
    out.push('"');
    out.push(':');
    let ghost pre: Seq<char> = out@;
    proof {
        assert(pre =~= seq!['{', '"', 's', 't', 'a', 't', 'u', 's', '"', ':']);
    }
    if status {
        out.push('t');
        out.push('r');
        out.push('u');
        out.push('e');
        proof {
            assert(out@ =~= pre + seq!['t', 'r', 'u', 'e']);
        }
    } else {
        out.push('f');
        out.push('a');
        out.push('l');
        out.push('s');
        out.push('e');
        proof {
            assert(out@ =~= pre + seq!['f', 'a', 'l', 's', 'e']);
        }
    }
    let ghost pre2: Seq<char> = out@;
    out.push(',');
    out.push('"');
    out.push('m');
    out.push('e');
    out.push('s');
    out.push('s');
    out.push('a');
    out.push('g');
    out.push('e');
    out.push('"');
    out.push(':');
    out.push('"');
    proof {
        assert(out@ =~= pre2 + seq![',', '"', 'm', 'e', 's', 's', 'a', 'g', 'e', '"', ':', '"']);
    }
    push_escaped(&mut out, message);
    out.push('"');
    let ghost pre3: Seq<char> = out@;
    match data {
        Some(d) => {
            out.push(',');
            out.push('"');
            out.push('d');
            out.push('a');
            out.push('t');
            out.push('a');
            out.push('"');
            out.push(':');
            proof {
                assert(out@ =~= pre3 + seq![',', '"', 'd', 'a', 't', 'a', '"', ':']);
            }
            push_raw(&mut out, d);
        },
        None => {},
    }
    out.push('}');
    proof {
        assert(out@ =~= envelope_json(
            status,
            message@,
            match data {
                Some(d) => Some(d@),
                None => None,
            },
        ));
    }
    chars_to_string(out)
}

} // verus!

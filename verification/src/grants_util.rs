//! The custom rejection shape: a JSON envelope with a fixed error code.

use vstd::prelude::*;
use vstd::string::StringExecFns;
use crate::text::chars_of;

verus! {

/// The lowercase hexadecimal digit for a value below sixteen.
pub open spec fn hex_digit(n: int) -> char {
    seq!['0', '1', '2', '3', '4', '5', '6', '7', '8', '9', 'a', 'b', 'c', 'd', 'e', 'f'][n]
}

/// How one character appears inside a JSON string literal: quote and backslash
/// are escaped, the common control characters get their short escapes, the
/// remaining control characters a universal escape, and everything else stands
/// as itself.
pub open spec fn json_escaped_char(c: char) -> Seq<char> {
    if c == '"' {
        seq!['\\', '"']
    } else if c == '\\' {
        seq!['\\', '\\']
    } else if c == '\u{8}' {
        seq!['\\', 'b']
    } else if c == '\t' {
        seq!['\\', 't']
    } else if c == '\n' {
        seq!['\\', 'n']
    } else if c == '\u{c}' {
        seq!['\\', 'f']
    } else if c == '\r' {
        seq!['\\', 'r']
    } else if (c as u32) < 32 {
        seq!['\\', 'u', '0', '0', hex_digit((c as u32) as int / 16), hex_digit(
            (c as u32) as int % 16,
        )]
    } else {
        seq![c]
    }
}

/// A whole string as it appears inside a JSON string literal.
pub open spec fn json_escaped(s: Seq<char>) -> Seq<char>
    decreases s.len(),
{
    if s.len() == 0 {
        Seq::empty()
    } else {
        json_escaped_char(s[0]) + json_escaped(s.drop_first())
    }
}

/// The custom rejection payload: a JSON object with the fixed error code
/// `"403"` under `cd` and the rejection message under `msg`.
pub open spec fn custom_body(msg: Seq<char>) -> Seq<char> {
    "{\"cd\":\"403\",\"msg\":\""@ + json_escaped(msg) + "\"}"@
}

/// The lowercase hexadecimal digit for a value below sixteen.
fn hex_digit_exec(n: u32) -> (c: char)
    requires
        n < 16,
    ensures
        c == hex_digit(n as int),
{
    if n == 0 {
        '0'
    } else if n == 1 {
        '1'
    } else if n == 2 {
        '2'
    } else if n == 3 {
        '3'
    } else if n == 4 {
        '4'
    } else if n == 5 {
        '5'
    } else if n == 6 {
        '6'
    } else if n == 7 {
        '7'
    } else if n == 8 {
        '8'
    } else if n == 9 {
        '9'
    } else if n == 10 {
        'a'
    } else if n == 11 {
        'b'
    } else if n == 12 {
        'c'
    } else if n == 13 {
        'd'
    } else if n == 14 {
        'e'
    } else {
        'f'
    }
}

/// The characters one character contributes to a JSON string literal.
fn json_escaped_char_exec(c: char) -> (v: Vec<char>)
    ensures
        v@ == json_escaped_char(c),
{
    let mut v: Vec<char> = Vec::new();
    if c == '"' {
        v.push('\\');
        v.push('"');
    } else if c == '\\' {
        v.push('\\');
        v.push('\\');
    } else if c == '\u{8}' {
        v.push('\\');
        v.push('b');
    } else if c == '\t' {
        v.push('\\');
        v.push('t');
    } else if c == '\n' {
        v.push('\\');
        v.push('n');
    } else if c == '\u{c}' {
        v.push('\\');
        v.push('f');
    } else if c == '\r' {
        v.push('\\');
        v.push('r');
    } else if (c as u32) < 32 {
        let n = c as u32;
        v.push('\\');
        v.push('u');
        v.push('0');
        v.push('0');
        v.push(hex_digit_exec(n / 16));
        v.push(hex_digit_exec(n % 16));
    } else {
        v.push(c);
    }
    proof {
        assert(v@ =~= json_escaped_char(c));
    }
    v
}

/// Appends the JSON-escaped form of `msg` to `out`.
fn json_escape_into(out: &mut String, msg: &str)
    ensures
        final(out)@ == old(out)@ + json_escaped(msg@),
{
    let ghost base = old(out)@;
    let cs = chars_of(msg);
    let n = cs.len();
    let mut i: usize = 0;
    proof {
        assert(cs@.subrange(0, n as int) =~= cs@);
    }
    while i < n
        invariant
            i <= n,
            n == cs@.len(),
            cs@ == msg@,
            out@ + json_escaped(cs@.subrange(i as int, n as int)) == base + json_escaped(msg@),
        decreases n - i,
    {
        proof {
            let cur = cs@.subrange(i as int, n as int);
            assert(cur[0] == cs@[i as int]);
            assert(cur.drop_first() =~= cs@.subrange(i as int + 1, n as int));
        }
        let piece = json_escaped_char_exec(cs[i]);
        let ghost out0 = out@;
        let mut j: usize = 0;
        while j < piece.len()
            invariant
                j <= piece@.len(),
                out@ == out0 + piece@.subrange(0, j as int),
            decreases piece@.len() - j,
        {
            out.push(piece[j]);
            proof {
                assert(out0 + piece@.subrange(0, j as int).push(piece@[j as int]) =~= out0
                    + piece@.subrange(0, j + 1 as int));
                assert(piece@.subrange(0, j as int).push(piece@[j as int]) =~= piece@.subrange(
                    0,
                    j + 1 as int,
                ));
            }
            j += 1;
        }
        proof {
            assert(piece@.subrange(0, piece@.len() as int) =~= piece@);
            let rest = json_escaped(cs@.subrange(i as int + 1, n as int));
            assert((out0 + piece@) + rest =~= out0 + (piece@ + rest));
        }
        i += 1;
    }
    proof {
        assert(json_escaped(cs@.subrange(n as int, n as int)) =~= Seq::<char>::empty());
        assert(out@ + Seq::<char>::empty() =~= out@);
    }
}

/// The renderer of the custom rejection shape.
pub struct AxumGrantsResponse;

impl AxumGrantsResponse {
    /// The custom rejection payload for a rejection message: the exact text of
    /// the JSON envelope. Wrapping it into a transport response is the HTTP
    /// layer's business.
    pub fn get_into_response(msg: &str) -> (r: String)
        ensures
            r@ == custom_body(msg@),
    {
        let mut out = String::from_str("{\"cd\":\"403\",\"msg\":\"");
        json_escape_into(&mut out, msg);
        out.append("\"}");
        out
    }
}

} // verus!

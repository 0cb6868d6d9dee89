//! Reading the fields of a JSON object, and writing JSON text.
//!
//! Decoding JSON is delegated to `serde_json` behind one trusted wrapper
//! that flattens the top-level object into plain values; everything that
//! interprets those values, and all JSON the library writes, is verified.

use vstd::prelude::*;
use crate::strutil::{spec_u64_digits, u64_to_chars};

verus! {

broadcast use vstd::string::group_string_axioms;

/// A top-level value of a JSON object, flattened to what the manifest
/// reader consumes: strings, unsigned numbers, arrays of strings (with
/// non-string elements marked `None`), and everything else collapsed.
#[derive(Clone, Debug)]
pub enum JsonVal {
    Str(String),
    Num(Option<u64>),
    StrList(Vec<Option<String>>),
    Other,
}

/// Specification-level image of `JsonVal`.
pub ghost enum JsonValV {
    Str(Seq<char>),
    Num(Option<u64>),
    StrList(Seq<Option<Seq<char>>>),
    Other,
}

impl View for JsonVal {
    type V = JsonValV;

    open spec fn view(&self) -> JsonValV {
        match self {
            JsonVal::Str(s) => JsonValV::Str(s@),
            JsonVal::Num(n) => JsonValV::Num(*n),
            JsonVal::StrList(l) => JsonValV::StrList(
                l@.map_values(
                    |e: Option<String>|
                        match e {
                            Some(s) => Some(s@),
                            None => None,
                        },
                ),
            ),
            JsonVal::Other => JsonValV::Other,
        }
    }
}

/// View of a list of JSON object entries.
pub open spec fn spec_entries_view(v: Seq<(String, JsonVal)>) -> Seq<(Seq<char>, JsonValV)> {
    v.map_values(|e: (String, JsonVal)| (e.0@, e.1@))
}

/// What parsing `data` as a JSON object yields: `None` if `data` is not a
/// JSON object, else its entries in the crate's canonical (key-sorted)
/// order, flattened as `JsonValV` describes.  A function of the bytes alone.
pub uninterp spec fn json_object_of(data: Seq<u8>) -> Option<Seq<(Seq<char>, JsonValV)>>;

/// Relies on `serde_json::from_slice::<serde_json::Value>`: what a byte
/// string parses to is a function of the bytes alone; the entries of the
/// parsed object are handed over one by one, each variant converted to its
/// `JsonVal` counterpart.
#[verifier::external_body]
pub fn parse_json_object(data: &[u8]) -> (r: Option<Vec<(String, JsonVal)>>)
    ensures
        r is Some <==> json_object_of(data@) is Some,
        r matches Some(v) ==> Some(spec_entries_view(v@)) == json_object_of(data@),
{
    let parsed: serde_json::Value = serde_json::from_slice(data).ok()?;
    let obj = match parsed { serde_json::Value::Object(m) => m, _ => return None };
    let mut out = Vec::new();
    for (k, v) in obj {
        out.push((k, match v {
            serde_json::Value::String(s) => JsonVal::Str(s),
            serde_json::Value::Number(n) => JsonVal::Num(n.as_u64()),
            serde_json::Value::Array(a) => JsonVal::StrList(
                a.into_iter().map(|e| match e { serde_json::Value::String(s) => Some(s), _ => None }).collect()),
            _ => JsonVal::Other,
        }));
    }
    Some(out)
}

/// JSON string escaping: backslash and quote get a backslash, control
/// characters become `\u00` followed by two hex digits.
pub open spec fn spec_json_escape_char(c: char) -> Seq<char> {
    if c == '"' {
        seq!['\\', '"']
    } else if c == '\\' {
        seq!['\\', '\\']
    } else if (c as u32) < 32 {
        seq!['\\', 'u', '0', '0', spec_control_hex_hi(c), spec_control_hex_lo(c)]
    } else {
        seq![c]
    }
}

pub open spec fn spec_control_hex_hi(c: char) -> char {
    ((48 + (c as u32 / 16) % 10) as u8) as char
}

pub open spec fn spec_control_hex_lo(c: char) -> char {
    if c as u32 % 16 < 10 {
        ((48 + c as u32 % 16) as u8) as char
    } else {
        ((87 + c as u32 % 16) as u8) as char
    }
}

/// Escaped form of a whole string.
pub open spec fn spec_json_escape(s: Seq<char>) -> Seq<char>
    decreases s.len(),
{
    if s.len() == 0 {
        Seq::<char>::empty()
    } else {
        spec_json_escape(s.drop_last()) + spec_json_escape_char(s.last())
    }
}

/// A JSON string literal: quoted and escaped.
pub open spec fn spec_json_string(s: Seq<char>) -> Seq<char> {
    seq!['"'] + spec_json_escape(s) + seq!['"']
}

/// Append the escaped form of `c` to `out`.
fn push_escaped(out: &mut Vec<char>, c: char)
    ensures
        final(out)@ == old(out)@ + spec_json_escape_char(c),
{
    let ghost pre = out@;
    let u = c as u32;
    if c == '"' {
        out.push('\\');
        out.push('"');
        proof {
            assert(out@ =~= pre + spec_json_escape_char(c));
        }
    } else if c == '\\' {
        out.push('\\');
        out.push('\\');
        proof {
            assert(out@ =~= pre + spec_json_escape_char(c));
        }
    } else if u < 32 {
        out.push('\\');
        out.push('u');
        out.push('0');
        out.push('0');
        out.push(((48 + (u / 16) % 10) as u8) as char);
        let lo = u % 16;
        if lo < 10 {
            out.push(((48 + lo) as u8) as char);
        } else {
            out.push(((87 + lo) as u8) as char);
        }
        proof {
            assert(out@ =~= pre + spec_json_escape_char(c));
        }
    } else {
        out.push(c);
        proof {
            assert(out@ =~= pre + spec_json_escape_char(c));
        }
    }
}

/// Append the JSON string literal for `s` to `out`.
pub fn push_json_string(out: &mut Vec<char>, s: &str)
    ensures
        final(out)@ == old(out)@ + spec_json_string(s@),
{
    let ghost pre = out@;
    out.push('"');
    let n = s.unicode_len();
    let mut i: usize = 0;
    while i < n
        invariant
            n == s@.len(),
            i <= n,
            out@ == pre + seq!['"'] + spec_json_escape(s@.take(i as int)),
        decreases n - i,
    {
        push_escaped(out, s.get_char(i));
        i += 1;
        proof {
            assert(s@.take(i as int).drop_last() =~= s@.take(i - 1));
            assert(s@.take(i as int).last() == s@[i - 1]);
            assert(out@ =~= pre + seq!['"'] + spec_json_escape(s@.take(i as int)));
        }
    }
    out.push('"');
    proof {
        assert(s@.take(s@.len() as int) =~= s@);
        assert(out@ =~= pre + spec_json_string(s@));
    }
}

/// Append a literal piece of JSON syntax to `out`.
pub fn push_literal(out: &mut Vec<char>, s: &str)
    ensures
        final(out)@ == old(out)@ + s@,
{
    let ghost pre = out@;
    let n = s.unicode_len();
    let mut i: usize = 0;
    while i < n
        invariant
            n == s@.len(),
            i <= n,
            out@ == pre + s@.take(i as int),
        decreases n - i,
    {
        out.push(s.get_char(i));
        i += 1;
        proof {
            assert(out@ =~= pre + s@.take(i as int));
        }
    }
    proof {
        assert(s@.take(s@.len() as int) =~= s@);
    }
}

/// Append the decimal digits of `n` to `out`.
pub fn push_u64(out: &mut Vec<char>, n: u64)
    ensures
        final(out)@ == old(out)@ + spec_u64_digits(n as nat),
{
    let ghost pre = out@;
    let digits = u64_to_chars(n);
    let mut i: usize = 0;
    while i < digits.len()
        invariant
            i <= digits@.len(),
            digits@ == spec_u64_digits(n as nat),
            out@ == pre + digits@.take(i as int),
        decreases digits@.len() - i,
    {
        out.push(digits[i]);
        i += 1;
        proof {
            assert(out@ =~= pre + digits@.take(i as int));
        }
    }
    proof {
        assert(digits@.take(digits@.len() as int) =~= digits@);
    }
}

} // verus!

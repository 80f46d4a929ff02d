//! Terminal clipboard: the OSC-52 escape sequence that asks the terminal to
//! put a text on the system clipboard, with the text in standard base64.

use vstd::prelude::*;
use vstd::utf8::encode_utf8;
use crate::text::{push_char};

verus! {

/// The standard base64 alphabet: A-Z, a-z, 0-9, '+', '/'.
pub open spec fn b64_char(v: u8) -> char {
    if v < 26 {
        (65 + v) as u8 as char
    } else if v < 52 {
        (97 + v - 26) as u8 as char
    } else if v < 62 {
        (48 + v - 52) as u8 as char
    } else if v == 62 {
        '+'
    } else {
        '/'
    }
}

/// Encoding of group `g` (bytes 3g, 3g+1, 3g+2 where present), padded
/// with '='.
pub open spec fn b64_group(d: Seq<u8>, g: int) -> Seq<char> {
    let n = d.len() - 3 * g;
    let b0 = d[3 * g];
    let b1: u8 = if n > 1 { d[3 * g + 1] } else { 0 };
    let b2: u8 = if n > 2 { d[3 * g + 2] } else { 0 };
    seq![
        b64_char(b0 >> 2),
        b64_char(((b0 & 3) << 4) | (b1 >> 4)),
        if n > 1 { b64_char(((b1 & 15) << 2) | (b2 >> 6)) } else { '=' },
        if n > 2 { b64_char(b2 & 63) } else { '=' },
    ]
}

/// Concatenation of the encodings of the first `k` groups.
pub open spec fn b64_groups(d: Seq<u8>, k: nat) -> Seq<char>
    decreases k,
{
    if k == 0 {
        Seq::empty()
    } else {
        b64_groups(d, (k - 1) as nat) + b64_group(d, k - 1)
    }
}

/// Standard padded base64 of `d`.
pub open spec fn base64(d: Seq<u8>) -> Seq<char> {
    b64_groups(d, ((d.len() + 2) / 3) as nat)
}

fn b64_digit(v: u8) -> (c: char)
    ensures
        c == b64_char(v),
{
    if v < 26 {
        (65 + v) as char
    } else if v < 52 {
        (97 + v - 26) as char
    } else if v < 62 {
        (48 + v - 52) as char
    } else if v == 62 {
        '+'
    } else {
        '/'
    }
}

/// Standard base64 (with '=' padding) of `data`.
pub fn base64_encode(data: &[u8]) -> (encoded: String)
    ensures
        encoded@ == base64(data@),
{
    let mut encoded = String::new();
    let len = data.len();
    let mut i: usize = 0;
    while i < len
        invariant
            len == data@.len(),
            i <= len,
            i % 3 == 0,
            encoded@ == b64_groups(data@, (i / 3) as nat),
        decreases len - i,
    {
        let ghost g = (i / 3) as int;
        assert(3 * g == i);
        let b0 = data[i];
        let b1 = if i + 1 < len { data[i + 1] } else { 0 };
        let b2 = if i + 2 < len { data[i + 2] } else { 0 };
        push_char(&mut encoded, b64_digit(b0 >> 2));
        push_char(&mut encoded, b64_digit(((b0 & 3) << 4) | (b1 >> 4)));
        if i + 1 < len {
            push_char(&mut encoded, b64_digit(((b1 & 15) << 2) | (b2 >> 6)));
        } else {
            push_char(&mut encoded, '=');
        }
        if i + 2 < len {
            push_char(&mut encoded, b64_digit(b2 & 63));
        } else {
            push_char(&mut encoded, '=');
        }
        assert(encoded@ =~= b64_groups(data@, (g + 1) as nat));
        if len - i >= 3 {
            i = i + 3;
        } else {
            assert((len + 2) / 3 == g + 1);
            return encoded;
        }
    }
    assert(i == len);
    encoded
}

/// The OSC-52 sequence that sets the clipboard to the text whose UTF-8
/// encoding is `utf8`: ESC "]52;c;" base64 BEL.
pub open spec fn osc52(utf8: Seq<u8>) -> Seq<char> {
    seq!['\x1b'] + "]52;c;"@ + base64(utf8) + seq!['\x07']
}

/// The sequence to write to the terminal to copy `text`; none for an empty
/// text, which leaves the clipboard alone.
pub fn clipboard_sequence(text: &str) -> (r: Option<String>)
    ensures
        text@.len() == 0 ==> r is None,
        text@.len() > 0 ==> (r matches Some(seq) && seq@ == osc52(encode_utf8(text@))),
{
    if text.is_empty() {
        return None;
    }
    let mut seq = String::new();
    push_char(&mut seq, '\x1b');
    seq.append("]52;c;");
    let encoded = base64_encode(text.as_bytes());
    seq.append(encoded.as_str());
    push_char(&mut seq, '\x07');
    Some(seq)
}

} // verus!

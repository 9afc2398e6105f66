//! Putting text on the clipboard through the terminal: the OSC 52 control
//! sequence carries the text's UTF-8 bytes in base64.
use vstd::prelude::*;

use crate::text::string_from_chars;
use vstd::string::StringSliceAdditionalSpecFns;

verus! {

/// The base64 alphabet (RFC 4648, standard).
pub open spec fn alphabet() -> Seq<char> {
    "ABCDEFGHIJKLMNOPQRSTUVWXYZabcdefghijklmnopqrstuvwxyz0123456789+/"@
}

/// The base64 digit for a six-bit value.
pub open spec fn b64(v: int) -> char {
    alphabet()[v]
}

/// Base64 of a byte string: each group of three bytes becomes four digits,
/// a last group of one or two bytes is padded with `=`.
pub open spec fn base64(b: Seq<u8>) -> Seq<char>
    decreases b.len(),
{
    if b.len() == 0 {
        Seq::empty()
    } else if b.len() == 1 {
        let b0 = b[0] as int;
        seq![b64(b0 / 4), b64((b0 % 4) * 16), '=', '=']
    } else if b.len() == 2 {
        let b0 = b[0] as int;
        let b1 = b[1] as int;
        seq![b64(b0 / 4), b64((b0 % 4) * 16 + b1 / 16), b64((b1 % 16) * 4), '=']
    } else {
        let b0 = b[0] as int;
        let b1 = b[1] as int;
        let b2 = b[2] as int;
        seq![
            b64(b0 / 4),
            b64((b0 % 4) * 16 + b1 / 16),
            b64((b1 % 16) * 4 + b2 / 64),
            b64(b2 % 64),
        ] + base64(b.skip(3))
    }
}

/// The OSC 52 sequence that asks the terminal to put `text` on the
/// clipboard.
pub open spec fn osc52(text: &str) -> Seq<char> {
    "\u{1b}]52;c;"@ + base64(text.spec_bytes()) + "\u{7}"@
}

/// The six-bit value of a base64 digit (RFC 4648, standard alphabet).
pub open spec fn sextet(c: char) -> int {
    if 'A' <= c && c <= 'Z' {
        c as int - 65
    } else if 'a' <= c && c <= 'z' {
        c as int - 97 + 26
    } else if '0' <= c && c <= '9' {
        c as int - 48 + 52
    } else if c == '+' {
        62
    } else if c == '/' {
        63
    } else {
        0
    }
}

/// Base64 decoding: each group of four digits gives three bytes, fewer
/// where the group ends in `=` padding.
pub open spec fn unbase64(s: Seq<char>) -> Seq<u8>
    decreases s.len(),
{
    if s.len() < 4 {
        Seq::empty()
    } else {
        let v0: int = sextet(s[0]);
        let v1: int = sextet(s[1]);
        let v2: int = sextet(s[2]);
        let v3: int = sextet(s[3]);
        let b0: u8 = (v0 * 4 + v1 / 16) as u8;
        let b1: u8 = ((v1 % 16) * 16 + v2 / 4) as u8;
        let b2: u8 = ((v2 % 4) * 64 + v3) as u8;
        if s[2] == '=' {
            seq![b0]
        } else if s[3] == '=' {
            seq![b0, b1]
        } else {
            seq![b0, b1, b2] + unbase64(s.skip(4))
        }
    }
}

proof fn lemma_sextet(v: int)
    requires
        0 <= v < 64,
    ensures
        sextet(b64(v)) == v,
        b64(v) != '=',
{
    reveal_strlit("ABCDEFGHIJKLMNOPQRSTUVWXYZabcdefghijklmnopqrstuvwxyz0123456789+/");
}

proof fn lemma_group_bytes(b0: int, b1: int, b2: int)
    requires
        0 <= b0 < 256,
        0 <= b1 < 256,
        0 <= b2 < 256,
    ensures
        (b0 / 4) * 4 + ((b0 % 4) * 16 + b1 / 16) / 16 == b0,
        (((b0 % 4) * 16 + b1 / 16) % 16) * 16 + ((b1 % 16) * 4 + b2 / 64) / 4 == b1,
        (((b1 % 16) * 4 + b2 / 64) % 4) * 64 + b2 % 64 == b2,
        (b0 / 4) * 4 + ((b0 % 4) * 16) / 16 == b0,
        (((b0 % 4) * 16 + b1 / 16) % 16) * 16 + ((b1 % 16) * 4) / 4 == b1,
        b0 / 4 < 64,
        (b0 % 4) * 16 + b1 / 16 < 64,
        (b1 % 16) * 4 + b2 / 64 < 64,
        b2 % 64 < 64,
        (b0 % 4) * 16 < 64,
        (b1 % 16) * 4 < 64,
{
}

/// Decoding the base64 text of any bytes gives back exactly those bytes,
/// and the text is four characters for every three bytes begun.
pub proof fn law_base64_decodes_back(b: Seq<u8>)
    ensures
        unbase64(base64(b)) == b,
        base64(b).len() == 4 * ((b.len() + 2) / 3),
    decreases b.len(),
{
    if b.len() == 0 {
    } else if b.len() == 1 {
        lemma_group_bytes(b[0] as int, 0, 0);
        lemma_sextet(b[0] as int / 4);
        lemma_sextet((b[0] as int % 4) * 16);
        assert(unbase64(base64(b)) =~= b);
    } else if b.len() == 2 {
        lemma_group_bytes(b[0] as int, b[1] as int, 0);
        lemma_sextet(b[0] as int / 4);
        lemma_sextet((b[0] as int % 4) * 16 + b[1] as int / 16);
        lemma_sextet((b[1] as int % 16) * 4);
        assert(unbase64(base64(b)) =~= b);
    } else {
        let b0: int = b[0] as int;
        let b1: int = b[1] as int;
        let b2: int = b[2] as int;
        lemma_group_bytes(b0, b1, b2);
        lemma_sextet(b0 / 4);
        lemma_sextet((b0 % 4) * 16 + b1 / 16);
        lemma_sextet((b1 % 16) * 4 + b2 / 64);
        lemma_sextet(b2 % 64);
        law_base64_decodes_back(b.skip(3));
        let t = base64(b);
        let group = seq![
            b64(b0 / 4),
            b64((b0 % 4) * 16 + b1 / 16),
            b64((b1 % 16) * 4 + b2 / 64),
            b64(b2 % 64),
        ];
        assert(t == group + base64(b.skip(3)));
        assert(t.skip(4) =~= base64(b.skip(3)));
        assert(t[0] == group[0] && t[1] == group[1] && t[2] == group[2] && t[3] == group[3]);
        assert(seq![b[0], b[1], b[2]] + b.skip(3) =~= b);
    }
}

fn digit(alpha: &[char], v: u32) -> (c: char)
    requires
        alpha@ == alphabet(),
        alphabet().len() == 64,
        v < 64,
    ensures
        c == b64(v as int),
{
    alpha[v as usize]
}

/// The base64 text of `bytes`.
pub fn base64_encode(bytes: &[u8]) -> (s: String)
    ensures
        s@ == base64(bytes@),
{
    let alpha_text = "ABCDEFGHIJKLMNOPQRSTUVWXYZabcdefghijklmnopqrstuvwxyz0123456789+/";
    proof {
        reveal_strlit("ABCDEFGHIJKLMNOPQRSTUVWXYZabcdefghijklmnopqrstuvwxyz0123456789+/");
    }
    let alpha_vec = crate::text::chars_of(alpha_text);
    let alpha = alpha_vec.as_slice();
    assert(alpha@ == alphabet());
    assert(alphabet().len() == 64);
    let n = bytes.len();
    let mut out: Vec<char> = Vec::new();
    let mut i: usize = 0;
    assert(bytes@.skip(0) == bytes@);
    while n - i >= 3
        invariant
            n == bytes@.len(),
            i <= n,
            alpha@ == alphabet(),
            alphabet().len() == 64,
            base64(bytes@) == out@ + base64(bytes@.skip(i as int)),
        decreases n - i,
    {
        let b0 = bytes[i] as u32;
        let b1 = bytes[i + 1] as u32;
        let b2 = bytes[i + 2] as u32;
        let ghost rest = bytes@.skip(i as int);
        assert(rest[0] == b0 && rest[1] == b1 && rest[2] == b2);
        assert(rest.skip(3) == bytes@.skip(i + 3));
        let ghost before = out@;
        out.push(digit(alpha, b0 / 4));
        out.push(digit(alpha, (b0 % 4) * 16 + b1 / 16));
        out.push(digit(alpha, (b1 % 16) * 4 + b2 / 64));
        out.push(digit(alpha, b2 % 64));
        assert(out@ == before + seq![
            b64(rest[0] as int / 4),
            b64((rest[0] as int % 4) * 16 + rest[1] as int / 16),
            b64((rest[1] as int % 16) * 4 + rest[2] as int / 64),
            b64(rest[2] as int % 64),
        ]);
        i = i + 3;
    }
    let ghost rest = bytes@.skip(i as int);
    let left = n - i;
    if left == 1 {
        let b0 = bytes[i] as u32;
        assert(rest[0] == b0);
        out.push(digit(alpha, b0 / 4));
        out.push(digit(alpha, (b0 % 4) * 16));
        out.push('=');
        out.push('=');
    } else if left == 2 {
        let b0 = bytes[i] as u32;
        let b1 = bytes[i + 1] as u32;
        assert(rest[0] == b0 && rest[1] == b1);
        out.push(digit(alpha, b0 / 4));
        out.push(digit(alpha, (b0 % 4) * 16 + b1 / 16));
        out.push(digit(alpha, (b1 % 16) * 4));
        out.push('=');
    } else {
        assert(rest.len() == 0);
    }
    assert(out@ =~= base64(bytes@));
    string_from_chars(out)
}

/// The OSC 52 sequence that asks the terminal to put `text` on the
/// clipboard.
pub fn clipboard_sequence(text: &str) -> (s: String)
    ensures
        s@ == osc52(text),
{
    let encoded = base64_encode(text.as_bytes());
    let mut s = String::from_str("\u{1b}]52;c;");
    s.append(encoded.as_str());
    s.append("\u{7}");
    s
}

} // verus!

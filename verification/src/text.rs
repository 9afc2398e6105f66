//! Character-level helpers: decimal rendering and parsing, thousands
//! grouping, width truncation and padding.
use vstd::prelude::*;

verus! {

/// The character for a decimal digit `d` (0 to 9).
pub open spec fn digit_char(d: int) -> char {
    seq!['0', '1', '2', '3', '4', '5', '6', '7', '8', '9'][d]
}

/// Whether `c` is one of the ASCII digits `0`..`9`.
pub open spec fn is_digit(c: char) -> bool {
    '0' <= c && c <= '9'
}

/// The numeric value of the digit character `c`.
pub open spec fn digit_value(c: char) -> int {
    c as int - 48
}

/// The decimal digits of `n`, most significant first, without leading zeros
/// (zero is the single digit `0`).
pub open spec fn decimal(n: nat) -> Seq<char>
    decreases n,
{
    if n < 10 {
        seq![digit_char(n as int)]
    } else {
        decimal(n / 10).push(digit_char((n % 10) as int))
    }
}

/// Whether every character of `s` is a decimal digit.
pub open spec fn all_digits(s: Seq<char>) -> bool {
    forall|i: int| 0 <= i < s.len() ==> is_digit(#[trigger] s[i])
}

/// The value of a string of decimal digits, read most significant first.
pub open spec fn digits_value(s: Seq<char>) -> nat
    decreases s.len(),
{
    if s.len() == 0 {
        0
    } else {
        (digits_value(s.drop_last()) * 10 + digit_value(s.last())) as nat
    }
}

/// What follows an optional leading `+` sign.
pub open spec fn unsigned_body(s: Seq<char>) -> Seq<char> {
    if s.len() > 0 && s[0] == '+' {
        s.drop_first()
    } else {
        s
    }
}

/// Whether `s` is the text of an unsigned 64-bit integer: an optional `+`,
/// then at least one decimal digit, with a value that fits in a `u64`.
pub open spec fn is_u64_text(s: Seq<char>) -> bool {
    let body = unsigned_body(s);
    &&& body.len() > 0
    &&& all_digits(body)
    &&& digits_value(body) <= u64::MAX
}

/// The value of a text for which `is_u64_text` holds.
pub open spec fn u64_text_value(s: Seq<char>) -> nat {
    digits_value(unsigned_body(s))
}

/// Digits grouped in threes from the right, separated by commas.
pub open spec fn grouped(d: Seq<char>) -> Seq<char>
    decreases d.len(),
{
    if d.len() <= 3 {
        d
    } else {
        grouped(d.take(d.len() - 3)) + seq![','] + d.skip(d.len() - 3)
    }
}

/// `s` cut to `width` characters, with an ellipsis as the last kept
/// character when anything was cut off.
pub open spec fn truncated(s: Seq<char>, width: nat) -> Seq<char> {
    if s.len() <= width {
        s
    } else if width == 0 {
        seq!['…']
    } else {
        s.take(width - 1).push('…')
    }
}

/// `s` padded on the left with spaces to at least `width` characters.
pub open spec fn padded_left(s: Seq<char>, width: nat) -> Seq<char> {
    if s.len() >= width {
        s
    } else {
        Seq::new((width - s.len()) as nat, |i: int| ' ') + s
    }
}

/// `s` with every comma removed.
pub open spec fn without_commas(s: Seq<char>) -> Seq<char>
    decreases s.len(),
{
    if s.len() == 0 {
        s
    } else if s.last() == ',' {
        without_commas(s.drop_last())
    } else {
        without_commas(s.drop_last()).push(s.last())
    }
}

/// The decimal text of a number reads back as that number.
pub proof fn lemma_decimal_reads_back(n: u64)
    ensures
        is_u64_text(decimal(n as nat)),
        u64_text_value(decimal(n as nat)) == n,
{
    lemma_decimal_digits(n as nat);
    let d = decimal(n as nat);
    assert(is_digit(d[0]));
    assert(unsigned_body(d) == d);
}

proof fn lemma_without_commas_concat(a: Seq<char>, b: Seq<char>)
    ensures
        without_commas(a + b) == without_commas(a) + without_commas(b),
    decreases b.len(),
{
    if b.len() == 0 {
        assert(a + b == a);
        assert(without_commas(b) == b);
    } else {
        lemma_without_commas_concat(a, b.drop_last());
        assert((a + b).drop_last() == a + b.drop_last());
        assert((a + b).last() == b.last());
    }
}

proof fn lemma_without_commas_digits(d: Seq<char>)
    requires
        all_digits(d),
    ensures
        without_commas(d) == d,
    decreases d.len(),
{
    if d.len() > 0 {
        assert(all_digits(d.drop_last())) by {
            assert forall|i: int| 0 <= i < d.drop_last().len() implies is_digit(
                #[trigger] d.drop_last()[i],
            ) by {
                assert(d.drop_last()[i] == d[i]);
            }
        }
        lemma_without_commas_digits(d.drop_last());
        assert(is_digit(d[d.len() - 1]));
        assert(d.drop_last().push(d.last()) == d);
    }
}

proof fn lemma_grouped_digits(d: Seq<char>)
    requires
        all_digits(d),
    ensures
        without_commas(grouped(d)) == d,
    decreases d.len(),
{
    if d.len() <= 3 {
        lemma_without_commas_digits(d);
    } else {
        let head = d.take(d.len() - 3);
        let tail = d.skip(d.len() - 3);
        assert(all_digits(head)) by {
            assert forall|i: int| 0 <= i < head.len() implies is_digit(#[trigger] head[i]) by {
                assert(head[i] == d[i]);
            }
        }
        assert(all_digits(tail)) by {
            assert forall|i: int| 0 <= i < tail.len() implies is_digit(#[trigger] tail[i]) by {
                assert(tail[i] == d[i + d.len() - 3]);
            }
        }
        lemma_grouped_digits(head);
        lemma_without_commas_digits(tail);
        lemma_without_commas_concat(grouped(head) + seq![','], tail);
        lemma_without_commas_concat(grouped(head), seq![',']);
        let comma = seq![','];
        assert(comma.len() == 1);
        assert(comma.last() == ',');
        assert(comma.drop_last() == Seq::<char>::empty());
        assert(without_commas(Seq::<char>::empty()) == Seq::<char>::empty());
        assert(without_commas(comma) == without_commas(comma.drop_last()));
        assert(without_commas(comma) == Seq::<char>::empty());
        assert(head + tail == d);
    }
}

/// Removing the separators from a grouped number gives back its decimal
/// digits: grouping only inserts commas.
pub proof fn lemma_group_keeps_digits(v: u64)
    ensures
        without_commas(grouped(decimal(v as nat))) == decimal(v as nat),
{
    lemma_decimal_digits(v as nat);
    lemma_grouped_digits(decimal(v as nat));
}

/// Grouping a run of digits puts a comma before every third digit counted
/// from the right, and nowhere else: the commas stand exactly where four,
/// eight, ... characters are left to the end, never first.
pub proof fn law_grouping_places_commas(d: Seq<char>)
    requires
        all_digits(d),
        d.len() > 0,
    ensures
        grouped(d).len() == d.len() + (d.len() - 1) / 3,
        forall|k: int|
            0 <= k < grouped(d).len() ==> (#[trigger] grouped(d)[k] == ',' <==> (grouped(d).len()
                - k) % 4 == 0),
    decreases d.len(),
{
    if d.len() <= 3 {
        assert forall|k: int| 0 <= k < grouped(d).len() implies (#[trigger] grouped(d)[k] == ','
            <==> (grouped(d).len() - k) % 4 == 0) by {
            assert(is_digit(d[k]));
        }
    } else {
        let head = d.take(d.len() - 3);
        let tail = d.skip(d.len() - 3);
        assert(all_digits(head)) by {
            assert forall|i: int| 0 <= i < head.len() implies is_digit(#[trigger] head[i]) by {
                assert(head[i] == d[i]);
            }
        }
        law_grouping_places_commas(head);
        let gh = grouped(head);
        let g = grouped(d);
        assert(g == gh + seq![','] + tail);
        assert forall|k: int| 0 <= k < g.len() implies (#[trigger] g[k] == ',' <==> (g.len() - k)
            % 4 == 0) by {
            if k < gh.len() {
                assert(g[k] == gh[k]);
            } else if k > gh.len() {
                assert(g[k] == tail[k - gh.len() - 1]);
                assert(tail[k - gh.len() - 1] == d[k - gh.len() - 1 + d.len() - 3]);
                assert(is_digit(d[k - gh.len() - 1 + d.len() - 3]));
            }
        }
    }
}

/// The decimal text of a number is all digits, reads back as the number,
/// and has no leading zero: it starts with `0` only for zero, which is
/// the single digit `0`.
pub proof fn law_decimal_text(n: nat)
    ensures
        decimal(n).len() > 0,
        all_digits(decimal(n)),
        digits_value(decimal(n)) == n,
        n > 0 ==> decimal(n)[0] != '0',
        n == 0 ==> decimal(n) == seq!['0'],
    decreases n,
{
    lemma_decimal_digits(n);
    lemma_digit_char(n as int % 10);
    if n >= 10 {
        law_decimal_text(n / 10);
        assert(decimal(n)[0] == decimal(n / 10)[0]);
    }
}

/// Padding keeps the text at the end and puts only spaces before it, up
/// to the width; a text at least that wide is left as it is.
pub proof fn law_padding(s: Seq<char>, width: nat)
    ensures
        padded_left(s, width).len() == if s.len() >= width {
            s.len()
        } else {
            width
        },
        padded_left(s, width).skip(padded_left(s, width).len() - s.len()) == s,
        forall|k: int|
            0 <= k < padded_left(s, width).len() - s.len() ==> #[trigger] padded_left(s, width)[k]
                == ' ',
{
    if s.len() < width {
        let p = padded_left(s, width);
        assert(p.skip(p.len() - s.len()) =~= s);
    } else {
        assert(s.skip(0) =~= s);
    }
}

/// A cut text is exactly `width` characters wide when anything was cut
/// (one ellipsis for width zero), and is the text itself otherwise; what
/// is kept is the text's beginning.
pub proof fn law_truncate_width(s: Seq<char>, width: nat)
    ensures
        s.len() <= width ==> truncated(s, width) == s,
        s.len() > width && width > 0 ==> truncated(s, width).len() == width && truncated(
            s,
            width,
        ).take(width - 1) == s.take(width - 1) && truncated(s, width).last() == '…',
        s.len() > width && width == 0 ==> truncated(s, width) == seq!['…'],
{
    if s.len() > width && width > 0 {
        assert(truncated(s, width).take(width - 1) =~= s.take(width - 1));
    }
}

/// `Iterator::collect` of characters into a `String`: the string holds
/// exactly those characters, in order.
#[verifier::external_body]
pub(crate) fn string_from_chars(chars: Vec<char>) -> (s: String)
    ensures
        s@ == chars@,
{
    chars.into_iter().collect()
}

/// `String::push`: appends one character at the end.
#[verifier::external_body]
pub(crate) fn push_char(s: &mut String, c: char)
    ensures
        final(s)@ == old(s)@.push(c),
{
    s.push(c)
}

/// `String::pop`: removes the last character and returns it, or returns
/// `None` and leaves an empty string as it is.
#[verifier::external_body]
pub(crate) fn pop_char(s: &mut String) -> (r: Option<char>)
    ensures
        old(s)@.len() == 0 ==> r is None && final(s)@ == old(s)@,
        old(s)@.len() > 0 ==> r == Some(old(s)@.last()) && final(s)@ == old(s)@.drop_last(),
{
    s.pop()
}

/// The characters of a string slice, in order.
pub fn chars_of(s: &str) -> (r: Vec<char>)
    ensures
        r@ == s@,
{
    let n = s.unicode_len();
    let mut r: Vec<char> = Vec::new();
    let mut i: usize = 0;
    while i < n
        invariant
            n == s@.len(),
            i <= n,
            r@ == s@.take(i as int),
        decreases n - i,
    {
        let c = s.get_char(i);
        r.push(c);
        assert(s@.take(i + 1) == s@.take(i as int).push(c));
        i = i + 1;
    }
    assert(s@.take(n as int) == s@);
    r
}

fn digit_of(d: u64) -> (c: char)
    requires
        d < 10,
    ensures
        c == digit_char(d as int),
{
    let digits: [char; 10] = ['0', '1', '2', '3', '4', '5', '6', '7', '8', '9'];
    assert(digits@ == seq!['0', '1', '2', '3', '4', '5', '6', '7', '8', '9']);
    digits[d as usize]
}

proof fn lemma_decimal_digits(n: nat)
    ensures
        decimal(n).len() > 0,
        all_digits(decimal(n)),
        digits_value(decimal(n)) == n,
    decreases n,
{
    lemma_digit_char((n % 10) as int);
    if n >= 10 {
        lemma_decimal_digits(n / 10);
        let d = decimal(n);
        assert(d.drop_last() == decimal(n / 10));
        assert(d.last() == digit_char((n % 10) as int));
        assert(digits_value(d) == digits_value(d.drop_last()) * 10 + digit_value(d.last()));
        assert(digits_value(d) == (n / 10) * 10 + n % 10);
        assert(all_digits(d)) by {
            assert forall|i: int| 0 <= i < d.len() implies is_digit(#[trigger] d[i]) by {
                if i < d.len() - 1 {
                    assert(d[i] == decimal(n / 10)[i]);
                }
            }
        }
    } else {
        let d = decimal(n);
        assert(d.drop_last() =~= Seq::<char>::empty());
        assert(d.last() == digit_char(n as int));
        assert(digits_value(d) == digits_value(d.drop_last()) * 10 + digit_value(d.last()));
    }
}

proof fn lemma_digit_char(d: int)
    requires
        0 <= d < 10,
    ensures
        is_digit(digit_char(d)),
        digit_value(digit_char(d)) == d,
{
    assert(digit_char(0) == '0');
    assert(digit_char(1) == '1');
    assert(digit_char(2) == '2');
    assert(digit_char(3) == '3');
    assert(digit_char(4) == '4');
    assert(digit_char(5) == '5');
    assert(digit_char(6) == '6');
    assert(digit_char(7) == '7');
    assert(digit_char(8) == '8');
    assert(digit_char(9) == '9');
}

/// Appends the decimal digits of `v` to `out`.
fn push_decimal(v: u64, out: &mut Vec<char>)
    ensures
        final(out)@ == old(out)@ + decimal(v as nat),
    decreases v,
{
    if v >= 10 {
        push_decimal(v / 10, out);
    }
    let c = digit_of(v % 10);
    out.push(c);
    proof {
        if v >= 10 {
            assert(decimal(v as nat) == decimal((v / 10) as nat).push(c));
        }
    }
}

/// The decimal digits of `v`.
pub fn decimal_digits(v: u64) -> (r: Vec<char>)
    ensures
        r@ == decimal(v as nat),
{
    let mut r: Vec<char> = Vec::new();
    push_decimal(v, &mut r);
    assert(r@ == Seq::<char>::empty() + decimal(v as nat));
    r
}

/// The decimal text of `v`.
pub fn decimal_string(v: u64) -> (s: String)
    ensures
        s@ == decimal(v as nat),
{
    string_from_chars(decimal_digits(v))
}

proof fn lemma_digits_value_prefix(s: Seq<char>, k: int)
    requires
        0 <= k <= s.len(),
        all_digits(s),
    ensures
        digits_value(s.take(k)) <= digits_value(s),
    decreases s.len(),
{
    if k < s.len() {
        assert(s.drop_last().take(k) == s.take(k));
        assert(all_digits(s.drop_last())) by {
            assert forall|i: int| 0 <= i < s.drop_last().len() implies is_digit(
                #[trigger] s.drop_last()[i],
            ) by {
                assert(s.drop_last()[i] == s[i]);
            }
        }
        lemma_digits_value_prefix(s.drop_last(), k);
        assert(is_digit(s[s.len() - 1]));
    } else {
        assert(s.take(k) == s);
    }
}

/// Parses the text of an unsigned 64-bit integer as `u64::from_str` reads
/// it: an optional `+`, then decimal digits only; `None` where that is not
/// the text or the value does not fit.
pub fn parse_u64(s: &str) -> (r: Option<u64>)
    ensures
        r is Some <==> is_u64_text(s@),
        r matches Some(v) ==> v as nat == u64_text_value(s@),
{
    let chars = chars_of(s);
    let n = chars.len();
    let start: usize = if n > 0 && chars[0] == '+' {
        1
    } else {
        0
    };
    let ghost body = unsigned_body(s@);
    assert(body == chars@.skip(start as int));
    if start == n {
        return None;
    }
    let mut acc: u64 = 0;
    let mut i: usize = start;
    while i < n
        invariant
            start <= i <= n,
            n == chars@.len(),
            body == chars@.skip(start as int),
            body == unsigned_body(s@),
            chars@ == s@,
            all_digits(body.take(i - start)),
            acc as nat == digits_value(body.take(i - start)),
        decreases n - i,
    {
        let c = chars[i];
        let ghost pre = body.take(i - start);
        let ghost next = body.take(i - start + 1);
        assert(next.drop_last() == pre);
        assert(next.last() == c);
        if c < '0' || c > '9' {
            assert(body[i - start] == c);
            assert(!is_digit(body[i - start]));
            assert(!all_digits(body));
            return None;
        }
        let d: u64 = (c as u32 - 48u32) as u64;
        assert(all_digits(next)) by {
            assert forall|j: int| 0 <= j < next.len() implies is_digit(#[trigger] next[j]) by {
                if j < pre.len() {
                    assert(next[j] == pre[j]);
                }
            }
        }
        assert(digits_value(next) == digits_value(pre) * 10 + digit_value(c));
        match acc.checked_mul(10) {
            None => {
                proof {
                    if all_digits(body) {
                        lemma_digits_value_prefix(body, i - start + 1);
                    }
                }
                return None;
            },
            Some(m) => match m.checked_add(d) {
                None => {
                    proof {
                        if all_digits(body) {
                            lemma_digits_value_prefix(body, i - start + 1);
                        }
                    }
                    return None;
                },
                Some(v) => {
                    acc = v;
                },
            },
        }
        i = i + 1;
    }
    assert(body.take(n - start) == body);
    Some(acc)
}

/// Groups the decimal digits of `value` in threes with commas
/// (`1234567` reads `1,234,567`).
pub fn group(value: u64) -> (s: String)
    ensures
        s@ == grouped(decimal(value as nat)),
{
    let d = decimal_digits(value);
    let n = d.len();
    proof {
        lemma_decimal_digits(value as nat);
    }
    let first: usize = (n - 1) % 3 + 1;
    let mut out: Vec<char> = Vec::new();
    let mut i: usize = 0;
    while i < first
        invariant
            i <= first <= 3,
            first <= n,
            n == d@.len(),
            out@ == d@.take(i as int),
        decreases first - i,
    {
        out.push(d[i]);
        assert(d@.take(i + 1) == d@.take(i as int).push(d@[i as int]));
        i = i + 1;
    }
    assert(grouped(d@.take(first as int)) == d@.take(first as int));
    while i < n
        invariant
            1 <= first <= i <= n,
            (n - i) % 3 == 0,
            n == d@.len(),
            out@ == grouped(d@.take(i as int)),
        decreases n - i,
    {
        assert(n - i >= 3);
        out.push(',');
        out.push(d[i]);
        out.push(d[i + 1]);
        out.push(d[i + 2]);
        proof {
            let t = d@.take(i + 3);
            assert(t.len() == i + 3);
            assert(t.take(t.len() - 3) == d@.take(i as int));
            assert(t.skip(t.len() - 3) == seq![d@[i as int], d@[i + 1], d@[i + 2]]);
            assert(grouped(t) == grouped(d@.take(i as int)) + seq![','] + t.skip(t.len() - 3));
        }
        i = i + 3;
    }
    assert(d@.take(n as int) == d@);
    string_from_chars(out)
}

/// Cuts `value` to `width` characters, replacing the last kept character by
/// an ellipsis when anything was cut off.
pub fn truncate(value: &str, width: usize) -> (s: String)
    ensures
        s@ == truncated(value@, width as nat),
{
    let chars = chars_of(value);
    let n = chars.len();
    if n <= width {
        return string_from_chars(chars);
    }
    let keep: usize = if width == 0 {
        0
    } else {
        width - 1
    };
    let mut out: Vec<char> = Vec::new();
    let mut i: usize = 0;
    while i < keep
        invariant
            i <= keep < n,
            n == chars@.len(),
            out@ == chars@.take(i as int),
        decreases keep - i,
    {
        out.push(chars[i]);
        assert(chars@.take(i + 1) == chars@.take(i as int).push(chars@[i as int]));
        i = i + 1;
    }
    out.push('…');
    string_from_chars(out)
}

/// Pads `s` on the left with spaces to at least `width` characters.
pub fn pad_left(s: String, width: usize) -> (r: String)
    ensures
        r@ == padded_left(s@, width as nat),
{
    let n = s.as_str().unicode_len();
    if n >= width {
        return s;
    }
    let mut out: Vec<char> = Vec::new();
    let mut i: usize = 0;
    while i < width - n
        invariant
            n < width,
            i <= width - n,
            out@ == Seq::new(i as nat, |j: int| ' '),
        decreases width - n - i,
    {
        out.push(' ');
        assert(Seq::new((i + 1) as nat, |j: int| ' ') == Seq::new(i as nat, |j: int| ' ').push(
            ' ',
        ));
        i = i + 1;
    }
    let mut r = string_from_chars(out);
    r.append(s.as_str());
    r
}

} // verus!

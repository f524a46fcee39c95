//! Strings as sequences of characters: comparing, cutting, and writing and
//! reading numbers.

use vstd::prelude::*;

verus! {

/// `String::push` appends one character.
pub assume_specification[ String::push ](s: &mut String, ch: char)
    ensures
        final(s)@ == old(s)@.push(ch),
;

/// `==` on `str` compares the characters.
pub assume_specification[ <str as PartialEq>::eq ](s: &str, other: &str) -> (same: bool)
    ensures
        same == (s@ == other@),
;

/// The characters of a string, in order.
pub fn chars_of(s: &str) -> (chars: Vec<char>)
    ensures
        chars@ == s@,
{
    let mut chars: Vec<char> = Vec::new();
    for c in it: s.chars()
        invariant
            it.seq() == s@,
            chars@ == s@.take(it.index()),
    {
        chars.push(c);
    }
    chars
}

/// The string that the characters from `from` up to `to` spell.
pub fn text_of(chars: &Vec<char>, from: usize, to: usize) -> (s: String)
    requires
        from <= to <= chars@.len(),
    ensures
        s@ == chars@.subrange(from as int, to as int),
{
    let mut s = String::new();
    let mut i: usize = from;
    while i < to
        invariant
            from <= i <= to <= chars@.len(),
            s@ == chars@.subrange(from as int, i as int),
        decreases to - i,
    {
        s.push(chars[i]);
        i += 1;
    }
    s
}

/// Whether `s` begins with `prefix`.
pub fn starts_with(s: &str, prefix: &str) -> (yes: bool)
    ensures
        yes == prefix@.is_prefix_of(s@),
{
    strip_prefix(s, prefix).is_some()
}

/// What follows `prefix` in `s`, if `s` begins with it.
pub fn strip_prefix(s: &str, prefix: &str) -> (rest: Option<String>)
    ensures
        rest is Some <==> prefix@.is_prefix_of(s@),
        rest matches Some(r) ==> s@ == prefix@ + r@,
{
    let chars = chars_of(s);
    let start = chars_of(prefix);
    if chars.len() < start.len() {
        return None;
    }
    let mut i: usize = 0;
    while i < start.len()
        invariant
            i <= start@.len() <= chars@.len(),
            chars@.take(i as int) == start@.take(i as int),
            chars@ == s@,
            start@ == prefix@,
        decreases start@.len() - i,
    {
        if chars[i] != start[i] {
            proof {
                if prefix@.is_prefix_of(s@) {
                    assert(s@.subrange(0, prefix@.len() as int)[i as int] == s@[i as int]);
                }
            }
            return None;
        }
        assert(chars@.take(i + 1) == chars@.take(i as int).push(chars@[i as int]));
        assert(start@.take(i + 1) == start@.take(i as int).push(start@[i as int]));
        i += 1;
    }
    assert(start@.take(i as int) == start@);
    let rest = text_of(&chars, start.len(), chars.len());
    assert(s@ == prefix@ + rest@);
    Some(rest)
}

/// The character of a decimal digit.
pub open spec fn digit(d: nat) -> char {
    (48 + d) as char
}

/// A number written in decimal, without leading zeros.
pub open spec fn decimal(n: nat) -> Seq<char>
    decreases n,
{
    if n < 10 {
        seq![digit(n)]
    } else {
        decimal(n / 10).push(digit(n % 10))
    }
}

/// Appends `n` in decimal.
pub fn push_decimal(out: &mut String, n: u128)
    ensures
        final(out)@ == old(out)@ + decimal(n as nat),
    decreases n,
{
    if n >= 10 {
        push_decimal(out, n / 10);
    }
    out.push((48u8 + (n % 10) as u8) as char);
}

/// A number below sixteen as a lower-case hexadecimal digit.
pub open spec fn hex_digit(d: nat) -> char {
    if d < 10 {
        (48 + d) as char
    } else {
        (87 + d) as char
    }
}

/// The lowest `width` hexadecimal digits of `n`, the highest first.
pub open spec fn hex(n: nat, width: nat) -> Seq<char>
    decreases width,
{
    if width == 0 {
        seq![]
    } else {
        hex(n / 16, (width - 1) as nat).push(hex_digit(n % 16))
    }
}

/// Appends the lowest `width` hexadecimal digits of `n`.
pub fn push_hex(out: &mut String, n: u64, width: u8)
    ensures
        final(out)@ == old(out)@ + hex(n as nat, width as nat),
    decreases width,
{
    if width > 0 {
        push_hex(out, n / 16, width - 1);
        let d: u8 = (n % 16) as u8;
        out.push(if d < 10 { (48 + d) as char } else { (87 + d) as char });
    }
}

/// What hexadecimal digits are.
pub proof fn lemma_hex(n: nat, width: nat)
    ensures
        hex(n, width).len() == width,
        forall|i: int|
            0 <= i < width ==> '0' <= (#[trigger] hex(n, width)[i]) <= '9' || 'a' <= hex(n, width)[i]
                <= 'f',
    decreases width,
{
    if width > 0 {
        lemma_hex(n / 16, (width - 1) as nat);
    }
}

/// Sixteen to the power of `width`.
spec fn sixteens(width: nat) -> nat
    decreases width,
{
    if width == 0 {
        1
    } else {
        16 * sixteens((width - 1) as nat)
    }
}

proof fn lemma_hex_differs_in(n: nat, m: nat, width: nat)
    requires
        n < sixteens(width),
        m < sixteens(width),
        hex(n, width) == hex(m, width),
    ensures
        n == m,
    decreases width,
{
    if width > 0 {
        let w = (width - 1) as nat;
        let a = hex(n, width);
        let b = hex(m, width);
        lemma_hex(n / 16, w);
        lemma_hex(m / 16, w);
        assert(a.last() == hex_digit(n % 16));
        assert(b.last() == hex_digit(m % 16));
        assert(a.drop_last() =~= hex(n / 16, w));
        assert(b.drop_last() =~= hex(m / 16, w));
        lemma_hex_differs_in(n / 16, m / 16, w);
        assert((48 + n % 16) as char as int == 48 + n % 16);
        assert((87 + n % 16) as char as int == 87 + n % 16);
        assert((48 + m % 16) as char as int == 48 + m % 16);
        assert((87 + m % 16) as char as int == 87 + m % 16);
    }
}

/// Sixteen hexadecimal digits tell numbers apart.
pub proof fn lemma_hex_differs(n: u64, m: u64)
    requires
        hex(n as nat, 16) == hex(m as nat, 16),
    ensures
        n == m,
{
    assert(sixteens(16) == 0x1_0000_0000_0000_0000) by {
        reveal_with_fuel(sixteens, 17);
    }
    lemma_hex_differs_in(n as nat, m as nat, 16);
}

/// Whether `c` is a decimal digit.
pub open spec fn is_digit(c: char) -> bool {
    '0' <= c <= '9'
}

/// Whether `s` holds decimal digits only.
pub open spec fn all_digits(s: Seq<char>) -> bool {
    forall|i: int| 0 <= i < s.len() ==> is_digit(#[trigger] s[i])
}

/// The number that a run of decimal digits writes.
pub open spec fn digits_value(s: Seq<char>) -> nat
    decreases s.len(),
{
    if s.len() == 0 {
        0
    } else {
        digits_value(s.drop_last()) * 10 + (s.last() as nat - 48) as nat
    }
}

/// The number that `s` writes in decimal, with or without a plus sign before
/// it; `None` where `s` writes no number.
pub open spec fn number(s: Seq<char>) -> Option<nat> {
    let digits = if s.len() > 0 && s[0] == '+' {
        s.skip(1)
    } else {
        s
    };
    if digits.len() > 0 && all_digits(digits) {
        Some(digits_value(digits))
    } else {
        None
    }
}

proof fn lemma_prefix_value(s: Seq<char>, i: int)
    requires
        0 <= i <= s.len(),
    ensures
        digits_value(s.take(i)) <= digits_value(s),
    decreases s.len(),
{
    if i < s.len() {
        lemma_prefix_value(s.drop_last(), i);
        assert(s.drop_last().take(i) == s.take(i));
    } else {
        assert(s.take(i) == s);
    }
}

/// Reads a number that fits in 64 bits.
pub fn parse_u64(s: &str) -> (n: Option<u64>)
    ensures
        n == (match number(s@) {
            Some(v) => if v <= u64::MAX { Some(v as u64) } else { None },
            None => None,
        }),
{
    let chars = chars_of(s);
    let start: usize = if chars.len() > 0 && chars[0] == '+' { 1 } else { 0 };
    let ghost digits = s@.skip(start as int);
    assert(start == 0 ==> digits == s@);
    if start == chars.len() {
        return None;
    }
    let mut value: u64 = 0;
    let mut i: usize = start;
    assert(digits.take(0).len() == 0);
    while i < chars.len()
        invariant
            chars@ == s@,
            start <= 1,
            start < chars@.len(),
            start <= i <= chars@.len(),
            digits == s@.skip(start as int),
            start == 1 <==> s@.len() > 0 && s@[0] == '+',
            start == 0 ==> digits == s@,
            value == digits_value(digits.take(i - start)),
            forall|j: int| 0 <= j < i - start ==> is_digit(#[trigger] digits[j]),
        decreases chars@.len() - i,
    {
        let c = chars[i];
        let ghost k = i - start;
        assert(digits[k] == c);
        if c < '0' || c > '9' {
            assert(!is_digit(digits[k]));
            return None;
        }
        let d: u64 = (c as u64) - 48;
        assert(digits.take(k + 1).drop_last() == digits.take(k));
        assert(digits_value(digits.take(k + 1)) == value * 10 + d);
        proof {
            lemma_prefix_value(digits, k + 1);
        }
        match value.checked_mul(10) {
            Some(tens) => match tens.checked_add(d) {
                Some(v) => {
                    value = v;
                },
                None => {
                    return None;
                },
            },
            None => {
                return None;
            },
        }
        i += 1;
    }
    assert(digits.take(i - start) == digits);
    Some(value)
}

/// Reads a number that fits in 32 bits.
pub fn parse_u32(s: &str) -> (n: Option<u32>)
    ensures
        n == (match number(s@) {
            Some(v) => if v <= u32::MAX { Some(v as u32) } else { None },
            None => None,
        }),
{
    match parse_u64(s) {
        Some(v) => if v <= u32::MAX as u64 { Some(v as u32) } else { None },
        None => None,
    }
}

/// The characters with the Unicode property White_Space.
pub open spec fn is_whitespace(c: char) -> bool {
    ||| '\u{9}' <= c <= '\u{d}'
    ||| c == ' '
    ||| c == '\u{85}'
    ||| c == '\u{a0}'
    ||| c == '\u{1680}'
    ||| '\u{2000}' <= c <= '\u{200a}'
    ||| '\u{2028}' <= c <= '\u{2029}'
    ||| c == '\u{202f}'
    ||| c == '\u{205f}'
    ||| c == '\u{3000}'
}

/// A string without the white space at its two ends.
pub open spec fn trimmed(s: Seq<char>) -> Seq<char>
    decreases s.len(),
{
    if s.len() > 0 && is_whitespace(s[0]) {
        trimmed(s.drop_first())
    } else if s.len() > 0 && is_whitespace(s.last()) {
        trimmed(s.drop_last())
    } else {
        s
    }
}

fn white(c: char) -> (yes: bool)
    ensures
        yes == is_whitespace(c),
{
    ('\u{9}' <= c && c <= '\u{d}') || c == ' ' || c == '\u{85}' || c == '\u{a0}' || c == '\u{1680}'
        || ('\u{2000}' <= c && c <= '\u{200a}') || ('\u{2028}' <= c && c <= '\u{2029}') || c
        == '\u{202f}' || c == '\u{205f}' || c == '\u{3000}'
}

/// Removes the white space at the two ends of `s`.
pub fn trim(s: &str) -> (t: String)
    ensures
        t@ == trimmed(s@),
{
    let chars = chars_of(s);
    let mut from: usize = 0;
    let mut to: usize = chars.len();
    assert(chars@.subrange(0, to as int) == s@);
    while from < to && (white(chars[from]) || white(chars[to - 1]))
        invariant
            from <= to <= chars@.len(),
            trimmed(chars@.subrange(from as int, to as int)) == trimmed(s@),
        decreases to - from,
    {
        let ghost part = chars@.subrange(from as int, to as int);
        assert(part[0] == chars@[from as int]);
        assert(part.last() == chars@[to - 1]);
        if white(chars[from]) {
            assert(part.drop_first() == chars@.subrange(from + 1, to as int));
            from += 1;
        } else {
            assert(part.drop_last() == chars@.subrange(from as int, to - 1));
            to -= 1;
        }
    }
    let ghost part = chars@.subrange(from as int, to as int);
    proof {
        if from < to {
            assert(part[0] == chars@[from as int]);
            assert(part.last() == chars@[to - 1]);
        }
    }
    text_of(&chars, from, to)
}

/// The position of the first `c` in `s` at or after `from`.
pub open spec fn find_char(s: Seq<char>, c: char, from: int) -> Option<int>
    decreases s.len() - from,
{
    if from < 0 || from >= s.len() {
        None
    } else if s[from] == c {
        Some(from)
    } else {
        find_char(s, c, from + 1)
    }
}

/// Finds the first `c` at or after `from`.
pub fn find_char_from(chars: &Vec<char>, c: char, from: usize) -> (at: Option<usize>)
    ensures
        at is Some <==> find_char(chars@, c, from as int) is Some,
        at matches Some(i) ==> find_char(chars@, c, from as int) == Some(i as int) && from <= i
            < chars@.len(),
{
    let mut i: usize = from;
    while i < chars.len()
        invariant
            from <= i,
            find_char(chars@, c, from as int) == find_char(chars@, c, i as int),
        decreases chars@.len() - i,
    {
        if chars[i] == c {
            return Some(i);
        }
        i += 1;
    }
    None
}

/// The parts of `s` between the occurrences of `c`.
pub open spec fn split(s: Seq<char>, c: char, from: int) -> Seq<Seq<char>>
    decreases s.len() - from,
{
    match find_char(s, c, from) {
        Some(i) => if from <= i < s.len() {
            seq![s.subrange(from, i)] + split(s, c, i + 1)
        } else {
            seq![]
        },
        None => seq![s.subrange(from, s.len() as int)],
    }
}

/// Cuts `s` at every `c`.
pub fn split_at(s: &str, c: char) -> (parts: Vec<String>)
    ensures
        views(parts@) == split(s@, c, 0),
{
    let chars = chars_of(s);
    let mut parts: Vec<String> = Vec::new();
    let mut from: usize = 0;
    let n: usize = chars.len();
    loop
        invariant_except_break
            chars@ == s@,
            n == chars@.len(),
            from <= n,
            views(parts@) + split(s@, c, from as int) == split(s@, c, 0),
        ensures
            views(parts@) == split(s@, c, 0),
        decreases n - from,
    {
        let ghost before = parts@;
        match find_char_from(&chars, c, from) {
            Some(i) => {
                parts.push(text_of(&chars, from, i));
                assert(views(parts@) == views(before).push(s@.subrange(from as int, i as int)));
                assert(views(before) + split(s@, c, from as int) == views(parts@) + split(
                    s@,
                    c,
                    i + 1,
                ));
                from = i + 1;
            },
            None => {
                parts.push(text_of(&chars, from, n));
                assert(views(parts@) == views(before) + split(s@, c, from as int));
                break;
            },
        }
    }
    parts
}

/// Strings joined by `sep`.
pub open spec fn joined(parts: Seq<Seq<char>>, sep: Seq<char>) -> Seq<char>
    decreases parts.len(),
{
    if parts.len() == 0 {
        seq![]
    } else if parts.len() == 1 {
        parts[0]
    } else {
        joined(parts.drop_last(), sep) + sep + parts.last()
    }
}

/// What strings read as.
pub open spec fn views(parts: Seq<String>) -> Seq<Seq<char>> {
    parts.map_values(|s: String| s@)
}

/// Joins strings by `sep`.
pub fn join(parts: &Vec<String>, sep: &str) -> (s: String)
    ensures
        s@ == joined(views(parts@), sep@),
{
    let mut s = String::new();
    let mut i: usize = 0;
    let ghost all = views(parts@);
    while i < parts.len()
        invariant
            i <= parts@.len(),
            all == views(parts@),
            s@ == joined(all.take(i as int), sep@),
        decreases parts@.len() - i,
    {
        if i > 0 {
            s.append(sep);
        }
        s.append(parts[i].as_str());
        assert(all.take(i + 1).drop_last() == all.take(i as int));
        i += 1;
    }
    assert(all.take(i as int) == all);
    s
}

/// `s` with blanks behind it, up to `width` characters.
pub open spec fn padded(s: Seq<char>, width: nat) -> Seq<char> {
    if s.len() >= width {
        s
    } else {
        s + Seq::new((width - s.len()) as nat, |i: int| ' ')
    }
}

/// Appends `s`, and blanks up to `width` characters.
pub fn push_padded(out: &mut String, s: &str, width: usize)
    ensures
        final(out)@ == old(out)@ + padded(s@, width as nat),
{
    let chars = chars_of(s);
    out.append(s);
    let ghost before = out@;
    let mut n: usize = chars.len();
    while n < width
        invariant
            chars@.len() <= n,
            n <= width || n == chars@.len(),
            out@ == before + Seq::new((n - chars@.len()) as nat, |i: int| ' '),
        decreases width - n,
    {
        out.push(' ');
        n += 1;
    }
    assert(out@ == old(out)@ + padded(s@, width as nat));
}

/// A number below ten is written as its digit; a greater one as the number of its
/// tens, followed by the digit of its ones.
pub proof fn law_decimal_is_positional(n: nat, d: nat)
    requires
        d < 10,
    ensures
        decimal(d).len() == 1,
        decimal(d)[0] as nat == 48 + d,
        n > 0 ==> decimal(10 * n + d) == decimal(n).push((48 + d) as char),
{
    assert((48 + d) as char as nat == 48 + d);
    if n > 0 {
        assert((10 * n + d) / 10 == n);
        assert((10 * n + d) % 10 == d);
    }
}

/// What is written in decimal is read as the same number, with and without a plus
/// sign, and begins with a zero only if it is zero.
pub proof fn law_decimal_is_read_back(n: nat)
    ensures
        number(decimal(n)) == Some(n),
        number(seq!['+'] + decimal(n)) == Some(n),
        decimal(n).len() > 0,
        forall|i: int| 0 <= i < decimal(n).len() ==> '0' <= (#[trigger] decimal(n)[i]) <= '9',
        decimal(n)[0] == '0' ==> n == 0,
    decreases n,
{
    assert((48 + n % 10) as char as nat == 48 + n % 10);
    if n >= 10 {
        law_decimal_is_read_back(n / 10);
        let tens = decimal(n / 10);
        assert(decimal(n).drop_last() =~= tens);
        assert(decimal(n)[0] == tens[0]);
        assert(number(tens) == Some(digits_value(tens)));
        assert(digits_value(decimal(n)) == digits_value(tens) * 10 + n % 10);
    } else {
        assert(decimal(n).drop_last() =~= Seq::<char>::empty());
        assert(decimal(n)[0] as nat == 48 + n);
    }
    assert forall|i: int| 0 <= i < decimal(n).len() implies is_digit(#[trigger] decimal(n)[i]) by {
        if n >= 10 && i < decimal(n).len() - 1 {
            assert(decimal(n)[i] == decimal(n / 10)[i]);
        }
    }
    assert(all_digits(decimal(n)));
    assert(is_digit(decimal(n)[0]));
    assert(digits_value(decimal(n)) == n) by {
        if n < 10 {
            assert(digits_value(Seq::<char>::empty()) == 0);
            assert(decimal(n).last() as nat == 48 + n);
        } else {
            assert(decimal(n).last() as nat == 48 + n % 10);
        }
    }
    let signed = seq!['+'] + decimal(n);
    assert(signed[0] == '+');
    assert(signed.skip(1) =~= decimal(n));
}

/// Only digits, with or without one plus sign before them, are read as a number;
/// another digit behind them makes it ten times as great, and adds itself.
pub proof fn law_numbers_are_digits(s: Seq<char>, c: char)
    ensures
        number(s) is Some ==> s.len() > 0 && ('0' <= s[0] <= '9' || s[0] == '+') && forall|i: int|
            1 <= i < s.len() ==> '0' <= (#[trigger] s[i]) <= '9',
        number(s) is Some && '0' <= c <= '9' ==> number(s.push(c)) == Some(
            (number(s)->0 * 10 + (c as nat - 48)) as nat,
        ),
        !('0' <= c <= '9') ==> number(s.push(c)) is None,
{
    let plus = s.len() > 0 && s[0] == '+';
    let digits = if plus {
        s.skip(1)
    } else {
        s
    };
    let more = s.push(c);
    if s.len() > 0 {
        assert(more[0] == s[0]);
        if plus {
            assert(more.skip(1) =~= digits.push(c));
        }
        let longer = digits.push(c);
        assert(longer.drop_last() =~= digits);
        assert(longer.last() == c);
        if number(s) is Some {
            assert forall|i: int| 1 <= i < s.len() implies '0' <= (#[trigger] s[i]) <= '9' by {
                if plus {
                    assert(is_digit(digits[i - 1]));
                } else {
                    assert(is_digit(digits[i]));
                }
            }
            if !plus {
                assert(is_digit(digits[0]));
            }
            if is_digit(c) {
                assert forall|i: int| 0 <= i < longer.len() implies is_digit(#[trigger] longer[i]) by {
                    if i < digits.len() {
                        assert(longer[i] == digits[i]);
                    }
                }
            }
        }
        if !is_digit(c) {
            assert(!is_digit(longer[longer.len() - 1]));
        }
    } else {
        assert(more =~= seq![c]);
        if c == '+' {
            assert(more.skip(1) =~= Seq::<char>::empty());
        } else if !is_digit(c) {
            assert(!is_digit(more[0]));
        }
    }
}

/// The lowest hexadecimal digit stands last, before it the digits of what is left
/// when it is taken away; the digits beyond nine are small letters.
pub proof fn law_hex_is_positional(n: nat, d: nat, width: nat)
    requires
        d < 16,
    ensures
        hex(16 * n + d, width + 1).drop_last() == hex(n, width),
        d < 10 ==> hex(16 * n + d, width + 1).last() as nat == 48 + d,
        d >= 10 ==> hex(16 * n + d, width + 1).last() as nat == 87 + d,
{
    assert((16 * n + d) / 16 == n);
    assert((16 * n + d) % 16 == d);
    assert((48 + d) as char as nat == 48 + d);
    assert((87 + d) as char as nat == 87 + d);
    assert(hex(16 * n + d, width + 1).drop_last() =~= hex(n, width));
}

/// Blanks, tabs and the ends of lines are white space; letters, digits and the
/// signs of ASCII are not. Beyond ASCII there are the blanks of other widths and
/// the two separators.
pub proof fn law_white_space(c: char)
    ensures
        c == ' ' || c == '\t' || c == '\n' || c == '\r' ==> is_whitespace(c),
        '!' <= c <= '~' ==> !is_whitespace(c),
        is_whitespace(c) <==> {
            let n = c as u32;
            ||| 9 <= n <= 13 || n == 32 || n == 133 || n == 160 || n == 5760
            ||| 8192 <= n <= 8202 || n == 8232 || n == 8233 || n == 8239 || n == 8287 || n == 12288
        },
{
}

/// Trimming takes white space away at the two ends, all of it and nothing else:
/// what is left is what stands from one position up to another.
pub proof fn law_trimmed_at_both_ends(s: Seq<char>) -> (r: (int, int))
    ensures
        0 <= r.0 <= r.1 <= s.len(),
        trimmed(s) == s.subrange(r.0, r.1),
        forall|i: int| 0 <= i < r.0 ==> is_whitespace(#[trigger] s[i]),
        forall|i: int| r.1 <= i < s.len() ==> is_whitespace(#[trigger] s[i]),
        r.0 < r.1 ==> !is_whitespace(s[r.0]) && !is_whitespace(s[r.1 - 1]),
    decreases s.len(),
{
    if s.len() > 0 && is_whitespace(s[0]) {
        let t = s.drop_first();
        let (f, e) = law_trimmed_at_both_ends(t);
        assert(s.subrange(f + 1, e + 1) =~= t.subrange(f, e));
        assert forall|i: int| 0 <= i < f + 1 implies is_whitespace(#[trigger] s[i]) by {
            if i > 0 {
                assert(is_whitespace(t[i - 1]));
            }
        }
        assert forall|i: int| e + 1 <= i < s.len() implies is_whitespace(#[trigger] s[i]) by {
            assert(is_whitespace(t[i - 1]));
        }
        (f + 1, e + 1)
    } else if s.len() > 0 && is_whitespace(s.last()) {
        let t = s.drop_last();
        let (f, e) = law_trimmed_at_both_ends(t);
        assert(s.subrange(f, e) =~= t.subrange(f, e));
        assert forall|i: int| 0 <= i < f implies is_whitespace(#[trigger] s[i]) by {
            assert(is_whitespace(t[i]));
        }
        assert forall|i: int| e <= i < s.len() implies is_whitespace(#[trigger] s[i]) by {
            if i < t.len() {
                assert(is_whitespace(t[i]));
            }
        }
        (f, e)
    } else {
        assert(s.subrange(0, s.len() as int) =~= s);
        (0, s.len() as int)
    }
}

proof fn lemma_joined_front(first: Seq<char>, rest: Seq<Seq<char>>, sep: Seq<char>)
    requires
        rest.len() > 0,
    ensures
        joined(seq![first] + rest, sep) == first + sep + joined(rest, sep),
    decreases rest.len(),
{
    let all = seq![first] + rest;
    assert(all.last() == rest.last());
    if rest.len() == 1 {
        assert(all.drop_last() =~= seq![first]);
        assert(joined(seq![first], sep) == first);
        assert(joined(rest, sep) == rest.last());
    } else {
        lemma_joined_front(first, rest.drop_last(), sep);
        assert(all.drop_last() =~= seq![first] + rest.drop_last());
        assert(first + sep + joined(rest.drop_last(), sep) + sep + rest.last() =~= first + sep + (
        joined(rest.drop_last(), sep) + sep + rest.last()));
    }
}

/// One string joined is itself; one more is put behind the others, and the
/// separator between.
pub proof fn law_joined_one_by_one(parts: Seq<Seq<char>>, more: Seq<char>, sep: Seq<char>)
    ensures
        joined(seq![more], sep) == more,
        parts.len() > 0 ==> joined(parts.push(more), sep) == joined(parts, sep) + sep + more,
{
    assert(parts.push(more).drop_last() =~= parts);
}

proof fn lemma_split(s: Seq<char>, c: char, from: int)
    requires
        0 <= from <= s.len(),
    ensures
        split(s, c, from).len() > 0,
        joined(split(s, c, from), seq![c]) == s.subrange(from, s.len() as int),
        forall|k: int|
            0 <= k < split(s, c, from).len() ==> !(#[trigger] split(s, c, from)[k]).contains(c),
    decreases s.len() - from,
{
    lemma_found(s, c, from);
    let parts = split(s, c, from);
    match find_char(s, c, from) {
        Some(i) => {
            lemma_split(s, c, i + 1);
            let rest = split(s, c, i + 1);
            let first = s.subrange(from, i);
            assert(parts == seq![first] + rest);
            lemma_joined_front(first, rest, seq![c]);
            assert(first + seq![c] + s.subrange(i + 1, s.len() as int) =~= s.subrange(
                from,
                s.len() as int,
            ));
            assert forall|k: int| 0 <= k < parts.len() implies !(#[trigger] parts[k]).contains(c) by {
                if k > 0 {
                    assert(parts[k] == rest[k - 1]);
                } else {
                    assert forall|j: int| 0 <= j < first.len() implies first[j] != c by {
                        assert(first[j] == s[from + j]);
                    }
                }
            }
        },
        None => {
            let only = s.subrange(from, s.len() as int);
            assert(parts == seq![only]);
            assert forall|j: int| 0 <= j < only.len() implies only[j] != c by {
                assert(only[j] == s[from + j]);
            }
        },
    }
}

proof fn lemma_found(s: Seq<char>, c: char, from: int)
    requires
        0 <= from,
    ensures
        match find_char(s, c, from) {
            Some(i) => from <= i < s.len() && s[i] == c && forall|j: int|
                from <= j < i ==> s[j] != c,
            None => forall|j: int| from <= j < s.len() ==> s[j] != c,
        },
    decreases s.len() - from,
{
    if from < s.len() && s[from] != c {
        lemma_found(s, c, from + 1);
    }
}

/// The parts that a string is cut into do not hold the character that it was cut
/// at, and joined by it they are the string again.
pub proof fn law_split_is_joined_again(s: Seq<char>, c: char)
    ensures
        split(s, c, 0).len() > 0,
        joined(split(s, c, 0), seq![c]) == s,
        forall|k: int| 0 <= k < split(s, c, 0).len() ==> !(#[trigger] split(s, c, 0)[k]).contains(c),
{
    lemma_split(s, c, 0);
    assert(s.subrange(0, s.len() as int) =~= s);
}

/// Cut at a character that does not occur in its first part, a string begins with
/// that part.
pub proof fn law_split_takes_the_first(first: Seq<char>, c: char, rest: Seq<char>)
    requires
        !first.contains(c),
    ensures
        split(first, c, 0) == seq![first],
        split(first + seq![c] + rest, c, 0) == seq![first] + split(rest, c, 0),
{
    lemma_found(first, c, 0);
    if let Some(i) = find_char(first, c, 0) {
        assert(first.contains(first[i]));
    }
    assert(first.subrange(0, first.len() as int) =~= first);
    let whole = first + seq![c] + rest;
    let n = first.len() as int;
    lemma_found(whole, c, 0);
    assert(whole[n] == c);
    assert forall|j: int| 0 <= j < n implies whole[j] != c by {
        assert(whole[j] == first[j]);
        assert(first.contains(first[j]));
    }
    assert(find_char(whole, c, 0) == Some(n));
    assert(whole.subrange(0, n) =~= first);
    lemma_split_shift(first + seq![c], rest, c, 0);
}

proof fn lemma_split_shift(a: Seq<char>, b: Seq<char>, c: char, from: int)
    requires
        0 <= from <= b.len(),
    ensures
        split(a + b, c, a.len() + from) == split(b, c, from),
    decreases b.len() - from,
{
    let ab = a + b;
    let n = a.len() as int;
    lemma_found(b, c, from);
    lemma_found(ab, c, n + from);
    assert forall|j: int| 0 <= j < b.len() implies #[trigger] b[j] == ab[n + j] by {}
    match find_char(b, c, from) {
        Some(i) => {
            assert(ab[n + i] == c);
            let k = find_char(ab, c, n + from)->0;
            assert(find_char(ab, c, n + from) is Some);
            if k < n + i {
                assert(b[k - n] == ab[k]);
            }
            assert(k == n + i);
            assert(ab.subrange(n + from, n + i) =~= b.subrange(from, i));
            lemma_split_shift(a, b, c, i + 1);
        },
        None => {
            if let Some(k) = find_char(ab, c, n + from) {
                assert(b[k - n] == ab[k]);
            }
            assert(ab.subrange(n + from, ab.len() as int) =~= b.subrange(from, b.len() as int));
        },
    }
}

/// Padding puts blanks behind a string that is too short, up to the width, and
/// cuts nothing off.
pub proof fn law_padded_with_blanks(s: Seq<char>, width: nat)
    ensures
        s.is_prefix_of(padded(s, width)),
        padded(s, width).len() == if s.len() < width {
            width
        } else {
            s.len()
        },
        forall|i: int|
            s.len() <= i < padded(s, width).len() ==> (#[trigger] padded(s, width)[i]) == ' ',
{
    assert(padded(s, width).take(s.len() as int) =~= s);
}

} // verus!

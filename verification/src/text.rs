//! Text as sequences of characters.

use vstd::arithmetic::power::pow;
use vstd::prelude::*;
use vstd::string::StringExecFns;
use vstd::utf8::{decode_utf8, valid_utf8};

verus! {

/// The decimal digit `d`.
pub open spec fn digit_char(d: int) -> char {
    (d + '0' as int) as char
}

/// The hexadecimal digit `d`, in lower case.
pub open spec fn hex_char(d: int) -> char {
    if d < 10 {
        (d + '0' as int) as char
    } else {
        (d - 10 + 'a' as int) as char
    }
}

/// `n` in decimal.
pub open spec fn decimal(n: nat) -> Seq<char>
    decreases n,
{
    if n < 10 {
        seq![digit_char(n as int)]
    } else {
        decimal(n / 10).push(digit_char((n % 10) as int))
    }
}

/// `n` in decimal, with a sign where it is negative.
pub open spec fn signed_decimal(n: int) -> Seq<char> {
    if n < 0 {
        seq!['-'] + decimal((-n) as nat)
    } else {
        decimal(n as nat)
    }
}

/// The low `width` decimal digits of `n`.
pub open spec fn padded(n: nat, width: nat) -> Seq<char>
    decreases width,
{
    if width == 0 {
        Seq::empty()
    } else {
        padded(n / 10, (width - 1) as nat).push(digit_char((n % 10) as int))
    }
}

/// The low `width` hexadecimal digits of `n`.
pub open spec fn hex_padded(n: nat, width: nat) -> Seq<char>
    decreases width,
{
    if width == 0 {
        Seq::empty()
    } else {
        hex_padded(n / 16, (width - 1) as nat).push(hex_char((n % 16) as int))
    }
}

pub open spec fn is_digit(c: char) -> bool {
    '0' <= c && c <= '9'
}

/// The number that a run of decimal digits writes.
pub open spec fn digits_value(s: Seq<char>) -> int
    decreases s.len(),
{
    if s.len() == 0 {
        0
    } else {
        digits_value(s.drop_last()) * 10 + (s.last() as int - '0' as int)
    }
}

/// Whether `s` holds nothing but decimal digits.
pub open spec fn all_digits(s: Seq<char>) -> bool {
    forall|i: int| 0 <= i < s.len() ==> is_digit(#[trigger] s[i])
}

/// The number that `s` writes in decimal, if it is no larger than `max`.
pub open spec fn parsed_digits(s: Seq<char>, max: int) -> Option<int> {
    if s.len() > 0 && all_digits(s) && digits_value(s) <= max {
        Some(digits_value(s))
    } else {
        None
    }
}

/// A non-negative decimal number, with or without a leading `+`, no larger than `max`.
pub open spec fn parsed(s: Seq<char>, max: int) -> Option<int> {
    if s.len() > 0 && s[0] == '+' {
        parsed_digits(s.skip(1), max)
    } else {
        parsed_digits(s, max)
    }
}

/// Reads bytes as text with `std::str::from_utf8`, which accepts valid UTF-8 and nothing else.
#[verifier::external_body]
pub(crate) fn utf8_text(data: &[u8]) -> (r: Option<String>)
    ensures
        match r {
            Some(t) => valid_utf8(data@) && t@ == decode_utf8(data@),
            None => !valid_utf8(data@),
        },
{
    std::str::from_utf8(data).ok().map(|s| s.to_string())
}

/// Appending a character to a [`String`] (`alloc::string::String::push`).
pub assume_specification[ String::push ](s: &mut String, c: char)
    ensures
        final(s)@ == old(s)@.push(c),
;

/// The characters of each string.
pub open spec fn texts(v: Seq<String>) -> Seq<Seq<char>> {
    v.map_values(|s: String| s@)
}

/// The characters of a string that may be missing.
pub open spec fn opt_text(s: Option<String>) -> Option<Seq<char>> {
    match s {
        Some(s) => Some(s@),
        None => None,
    }
}

/// The characters of a string.
pub fn chars_of(s: &str) -> (r: Vec<char>)
    ensures
        r@ == s@,
{
    let mut r: Vec<char> = Vec::new();
    for c in it: s.chars()
        invariant
            it.seq() == s@,
            r@ == s@.take(it.index()),
    {
        r.push(c);
        assert(r@ =~= s@.take(it.index() + 1));
    }
    assert(s@.take(s@.len() as int) =~= s@);
    r
}

/// The string made of the given characters.
pub fn string_of(chars: &[char]) -> (r: String)
    ensures
        r@ == chars@,
{
    let mut r = String::new();
    let mut i: usize = 0;
    while i < chars.len()
        invariant
            i <= chars@.len(),
            r@ == chars@.take(i as int),
        decreases chars@.len() - i,
    {
        r.push(chars[i]);
        i = i + 1;
        assert(r@ =~= chars@.take(i as int));
    }
    assert(chars@.take(i as int) =~= chars@);
    r
}

/// The string made of the parts, one after another.
pub fn joined2(a: &str, b: &str) -> (r: String)
    ensures
        r@ == a@ + b@,
{
    let mut r = a.to_owned();
    r.append(b);
    r
}

/// The string made of the parts, one after another.
pub fn joined3(a: &str, b: &str, c: &str) -> (r: String)
    ensures
        r@ == a@ + b@ + c@,
{
    let mut r = a.to_owned();
    r.append(b);
    r.append(c);
    r
}

/// Whether `s` holds the character `c`.
pub fn contains_char(s: &str, c: char) -> (r: bool)
    ensures
        r == s@.contains(c),
{
    let chars = chars_of(s);
    let mut i: usize = 0;
    while i < chars.len()
        invariant
            i <= chars.len(),
            chars@ == s@,
            forall|j: int| 0 <= j < i ==> s@[j] != c,
        decreases chars.len() - i,
    {
        if chars[i] == c {
            assert(s@[i as int] == c);
            return true;
        }
        i = i + 1;
    }
    false
}

/// Whether two strings hold the same characters.
pub fn same(a: &str, b: &str) -> (r: bool)
    ensures
        r == (a@ == b@),
{
    a.to_owned() == b.to_owned()
}

/// Whether an option stands among the arguments from `from` on.
pub open spec fn named(args: Seq<Seq<char>>, from: int, option: Seq<char>) -> bool {
    exists|k: int| from <= k < args.len() && #[trigger] args[k] == option
}

/// `s` with every `from` replaced by `to`.
pub open spec fn replaced(s: Seq<char>, from: char, to: char) -> Seq<char> {
    s.map_values(
        |c: char|
            if c == from {
                to
            } else {
                c
            },
    )
}

/// `s` with every `from` replaced by `to`.
pub fn replace_char(s: &str, from: char, to: char) -> (r: String)
    ensures
        r@ == replaced(s@, from, to),
{
    let chars = chars_of(s);
    let mut r = String::new();
    let mut i: usize = 0;
    while i < chars.len()
        invariant
            i <= chars.len(),
            chars@ == s@,
            r@ == replaced(s@, from, to).take(i as int),
        decreases chars.len() - i,
    {
        if chars[i] == from {
            r.push(to);
        } else {
            r.push(chars[i]);
        }
        i = i + 1;
        assert(r@ =~= replaced(s@, from, to).take(i as int));
    }
    assert(replaced(s@, from, to).take(i as int) =~= replaced(s@, from, to));
    r
}

/// Appends `n` in decimal.
pub fn put_decimal(out: &mut String, n: u64)
    ensures
        final(out)@ == old(out)@ + decimal(n as nat),
    decreases n,
{
    if n >= 10 {
        put_decimal(out, n / 10);
    }
    let d: u8 = (n % 10) as u8;
    out.push((48 + d) as char);
    assert(out@ =~= old(out)@ + decimal(n as nat));
}

/// `n` in decimal.
pub fn decimal_of(n: u64) -> (r: String)
    ensures
        r@ == decimal(n as nat),
{
    let mut r = String::new();
    put_decimal(&mut r, n);
    assert(r@ =~= decimal(n as nat));
    r
}

/// Appends `n` in decimal.
pub fn put_signed(out: &mut String, n: i64)
    ensures
        final(out)@ == old(out)@ + signed_decimal(n as int),
{
    if n < 0 {
        let magnitude: u64 = (-(n as i128)) as u64;
        out.push('-');
        put_decimal(out, magnitude);
    } else {
        put_decimal(out, n as u64);
    }
    assert(out@ =~= old(out)@ + signed_decimal(n as int));
}

/// Appends the low `width` decimal digits of `n`.
pub fn put_padded(out: &mut String, n: u64, width: u32)
    ensures
        final(out)@ == old(out)@ + padded(n as nat, width as nat),
    decreases width,
{
    if width > 0 {
        put_padded(out, n / 10, width - 1);
        let d: u8 = (n % 10) as u8;
        out.push((48 + d) as char);
    }
    assert(out@ =~= old(out)@ + padded(n as nat, width as nat));
}

/// Appends the low `width` hexadecimal digits of `n`.
pub fn put_hex(out: &mut String, n: u64, width: u32)
    ensures
        final(out)@ == old(out)@ + hex_padded(n as nat, width as nat),
    decreases width,
{
    if width > 0 {
        put_hex(out, n / 16, width - 1);
        let d: u8 = (n % 16) as u8;
        if d < 10 {
            out.push((48 + d) as char);
        } else {
            out.push((87 + d) as char);
        }
    }
    assert(out@ =~= old(out)@ + hex_padded(n as nat, width as nat));
}

proof fn digits_value_grows(s: Seq<char>, k: int)
    requires
        0 <= k <= s.len(),
        all_digits(s),
    ensures
        0 <= digits_value(s.take(k)) <= digits_value(s),
    decreases s.len() - k,
{
    if k < s.len() {
        assert(s.take(k + 1).drop_last() =~= s.take(k));
        assert(s.take(k + 1).last() == s[k]);
        digits_value_grows(s, k + 1);
        digits_nonneg(s.take(k));
    } else {
        assert(s.take(k) =~= s);
        digits_nonneg(s);
    }
}

proof fn digits_nonneg(s: Seq<char>)
    requires
        all_digits(s),
    ensures
        digits_value(s) >= 0,
    decreases s.len(),
{
    if s.len() > 0 {
        assert(forall|i: int| 0 <= i < s.drop_last().len() ==> s.drop_last()[i] == s[i]);
        digits_nonneg(s.drop_last());
        assert(is_digit(s[s.len() - 1]));
    }
}

/// Reads a non-negative decimal number no larger than `max`.
pub fn parse_number(s: &str, max: u64) -> (r: Option<u64>)
    ensures
        match r {
            Some(n) => parsed(s@, max as int) == Some(n as int),
            None => parsed(s@, max as int) is None,
        },
{
    let chars = chars_of(s);
    let start: usize = if chars.len() > 0 && chars[0] == '+' {
        1
    } else {
        0
    };
    let ghost digits = chars@.skip(start as int);
    assert(start == 0 ==> digits =~= chars@);
    if start == chars.len() {
        return None;
    }
    let mut value: u64 = 0;
    let mut i: usize = start;
    while i < chars.len()
        invariant
            start <= i <= chars.len(),
            digits == chars@.skip(start as int),
            forall|j: int| 0 <= j < i - start ==> is_digit(#[trigger] digits[j]),
            value == digits_value(digits.take(i - start)),
            value <= max,
            parsed(s@, max as int) == parsed_digits(digits, max as int),
        decreases chars.len() - i,
    {
        let c = chars[i];
        assert(digits[i - start] == c);
        if !('0' <= c && c <= '9') {
            return None;
        }
        let d: u64 = (c as u32 - 48) as u64;
        let ghost k = i - start;
        assert(digits.take(k + 1).drop_last() =~= digits.take(k));
        assert(digits_value(digits.take(k + 1)) == value * 10 + d);
        if value > max / 10 || d > max - value * 10 {
            proof {
                if all_digits(digits) {
                    digits_value_grows(digits, k + 1);
                }
            }
            return None;
        }
        value = value * 10 + d;
        i = i + 1;
    }
    assert(digits.take(i - start) =~= digits);
    Some(value)
}

/// A number that is read lies between 0 and the limit.
pub proof fn parsed_number_fits(s: Seq<char>, max: int)
    ensures
        parsed(s, max) matches Some(n) ==> 0 <= n <= max,
{
    let digits = if s.len() > 0 && s[0] == '+' {
        s.skip(1)
    } else {
        s
    };
    if all_digits(digits) {
        digits_nonneg(digits);
    }
}

/// Reading a number that was written in decimal gives the number back.
pub proof fn decimal_parses(n: nat, max: int)
    requires
        n <= max,
    ensures
        parsed(decimal(n), max) == Some(n as int),
{
    decimal_digits(n);
    assert(decimal(n)[0] != '+');
}

/// A number may have a plus sign in front of it. One beyond the limit is not read.
pub proof fn plus_sign_is_read_over(n: nat, max: int)
    ensures
        n <= max ==> parsed(seq!['+'] + decimal(n), max) == Some(n as int),
        n > max ==> parsed(decimal(n), max) is None && parsed(seq!['+'] + decimal(n), max) is None,
{
    decimal_digits(n);
    let s = seq!['+'] + decimal(n);
    assert(s.skip(1) =~= decimal(n));
}

/// What holds a character that is no digit, but for a plus sign in front, is no number, and neither is
/// nothing.
pub proof fn other_texts_are_no_numbers(s: Seq<char>, max: int, i: int)
    requires
        s.len() > 0 ==> 0 <= i < s.len() && !('0' <= s[i] && s[i] <= '9') && !(i == 0 && s[0] == '+'),
    ensures
        parsed(s, max) is None,
        parsed(seq!['+'], max) is None,
{
    assert(seq!['+'].skip(1) =~= Seq::<char>::empty());
    if s.len() > 0 {
        if s[0] == '+' {
            assert(s.skip(1)[i - 1] == s[i]);
            assert(!is_digit(s.skip(1)[i - 1]));
        } else {
            assert(!is_digit(s[i]));
        }
    }
}

/// A negative number is written as a minus sign and the number without its sign.
pub proof fn signed_decimal_reads_back(n: int, max: int)
    requires
        -max <= n <= max,
    ensures
        n >= 0 ==> parsed(signed_decimal(n), max) == Some(n),
        n < 0 ==> signed_decimal(n)[0] == '-' && parsed(signed_decimal(n).skip(1), max) == Some(-n),
{
    if n >= 0 {
        decimal_parses(n as nat, max);
    } else {
        decimal_parses((-n) as nat, max);
        assert(signed_decimal(n).skip(1) =~= decimal((-n) as nat));
    }
}

/// A number written in decimal reads back.
pub proof fn decimal_reads_back(n: nat)
    ensures
        parsed(decimal(n), n as int) == Some(n as int),
{
    decimal_digits(n);
    assert(decimal(n)[0] != '+');
}

proof fn decimal_digits(n: nat)
    ensures
        decimal(n).len() > 0,
        all_digits(decimal(n)),
        digits_value(decimal(n)) == n,
        decimal(n)[0] != '+',
    decreases n,
{
    if n >= 10 {
        decimal_digits(n / 10);
        assert(decimal(n).last() as int == n % 10 + '0' as int);
        assert(decimal(n).drop_last() =~= decimal(n / 10));
        assert(decimal(n)[0] == decimal(n / 10)[0]);
    } else {
        assert(decimal(n).drop_last() =~= Seq::<char>::empty());
        assert(decimal(n).last() as int == n + '0' as int);
        assert(digits_value(decimal(n).drop_last()) == 0);
    }
}

/// A number that has no more than `width` digits is written with that many, and they write it.
pub proof fn padded_writes_the_number(n: nat, width: nat)
    requires
        n < pow(10, width),
    ensures
        padded(n, width).len() == width,
        all_digits(padded(n, width)),
        digits_value(padded(n, width)) == n,
    decreases width,
{
    reveal(pow);
    if width > 0 {
        let before = (width - 1) as nat;
        assert(pow(10, width) == 10 * pow(10, before));
        padded_writes_the_number(n / 10, before);
        let s = padded(n, width);
        assert(s.drop_last() =~= padded(n / 10, before));
        assert(s.last() as int == n % 10 + '0' as int);
    }
}

/// The value of a hexadecimal digit in lower case.
pub open spec fn hex_digit(c: char) -> Option<int> {
    if '0' <= c && c <= '9' {
        Some(c as int - '0' as int)
    } else if 'a' <= c && c <= 'f' {
        Some(c as int - 'a' as int + 10)
    } else {
        None
    }
}

/// The number that a run of hexadecimal digits writes.
pub open spec fn hex_value(s: Seq<char>) -> Option<int>
    decreases s.len(),
{
    if s.len() == 0 {
        Some(0)
    } else {
        match (hex_value(s.drop_last()), hex_digit(s.last())) {
            (Some(n), Some(d)) => Some(16 * n + d),
            _ => None,
        }
    }
}

/// A number that has no more than `width` hexadecimal digits is written with that many, and they
/// write it.
pub proof fn hex_writes_the_number(n: nat, width: nat)
    requires
        n < pow(16, width),
    ensures
        hex_padded(n, width).len() == width,
        hex_value(hex_padded(n, width)) == Some(n as int),
    decreases width,
{
    reveal(pow);
    if width > 0 {
        let before = (width - 1) as nat;
        assert(pow(16, width) == 16 * pow(16, before));
        hex_writes_the_number(n / 16, before);
        let s = hex_padded(n, width);
        let d = (n % 16) as int;
        assert(s.drop_last() =~= hex_padded(n / 16, before));
        assert(hex_digit(hex_char(d)) == Some(d));
    }
}

/// The places that are found are those of the pattern, and none before them is.
pub proof fn find_gives_the_first_place(s: Seq<char>, pattern: Seq<char>, from: int, k: int)
    requires
        0 <= from <= k,
        k + pattern.len() <= s.len(),
        s.subrange(k, k + pattern.len()) == pattern,
    ensures
        find(s, pattern, from) matches Some(i) && from <= i <= k && s.subrange(i, i + pattern.len())
            == pattern,
    decreases s.len() - from,
{
    if s.subrange(from, from + pattern.len()) != pattern {
        find_gives_the_first_place(s, pattern, from + 1, k);
    }
}

/// What is found is an occurrence of the pattern.
pub proof fn found_pattern_is_there(s: Seq<char>, pattern: Seq<char>, from: int)
    ensures
        find(s, pattern, from) matches Some(i) ==> 0 <= from <= i && i + pattern.len() <= s.len()
            && s.subrange(i, i + pattern.len()) == pattern,
    decreases s.len() - from,
{
    if from >= 0 && from < s.len() && from + pattern.len() <= s.len() && s.subrange(
        from,
        from + pattern.len(),
    ) != pattern {
        found_pattern_is_there(s, pattern, from + 1);
    }
}

/// A character is found where it stands first.
pub proof fn character_is_found(s: Seq<char>, c: char, from: int, k: int)
    requires
        0 <= from <= k < s.len(),
        s[k] == c,
        forall|i: int| from <= i < k ==> #[trigger] s[i] != c,
    ensures
        find(s, seq![c], from) == Some(k),
    decreases k - from,
{
    assert(s.subrange(from, from + 1) =~= seq![s[from]]);
    if from < k {
        assert(seq![s[from]][0] != seq![c][0]);
        character_is_found(s, c, from + 1, k);
    }
}

/// Whether `c` is white space: it has the Unicode property White_Space.
pub open spec fn is_space(c: char) -> bool {
    let n = c as int;
    ||| 0x09 <= n <= 0x0D
    ||| n == 0x20
    ||| n == 0x85
    ||| n == 0xA0
    ||| n == 0x1680
    ||| 0x2000 <= n <= 0x200A
    ||| n == 0x2028
    ||| n == 0x2029
    ||| n == 0x202F
    ||| n == 0x205F
    ||| n == 0x3000
}

/// `s` without the white space at its beginning.
pub open spec fn trim_start(s: Seq<char>) -> Seq<char>
    decreases s.len(),
{
    if s.len() > 0 && is_space(s[0]) {
        trim_start(s.skip(1))
    } else {
        s
    }
}

/// `s` without the white space at its end.
pub open spec fn trim_end(s: Seq<char>) -> Seq<char>
    decreases s.len(),
{
    if s.len() > 0 && is_space(s.last()) {
        trim_end(s.drop_last())
    } else {
        s
    }
}

/// `s` without the white space around it.
pub open spec fn trim(s: Seq<char>) -> Seq<char> {
    trim_end(trim_start(s))
}

/// What is cut off at the beginning is white space, and what is left begins with something else.
pub proof fn leading_space_is_cut_off(s: Seq<char>)
    ensures
        trim_start(s).len() <= s.len(),
        trim_start(s) == s.skip(s.len() - trim_start(s).len()),
        forall|i: int| 0 <= i < s.len() - trim_start(s).len() ==> is_space(#[trigger] s[i]),
        trim_start(s).len() > 0 ==> !is_space(trim_start(s)[0]),
    decreases s.len(),
{
    if s.len() > 0 && is_space(s[0]) {
        let t = s.skip(1);
        leading_space_is_cut_off(t);
        let n = s.len() - trim_start(s).len();
        assert(trim_start(s) =~= s.skip(n));
        assert forall|i: int| 0 <= i < n implies is_space(#[trigger] s[i]) by {
            if i > 0 {
                assert(t[i - 1] == s[i]);
            }
        }
    } else {
        assert(trim_start(s) =~= s.skip(0));
    }
}

/// What is cut off at the end is white space, and what is left ends with something else.
pub proof fn trailing_space_is_cut_off(s: Seq<char>)
    ensures
        trim_end(s).len() <= s.len(),
        trim_end(s) == s.take(trim_end(s).len() as int),
        forall|i: int| trim_end(s).len() <= i < s.len() ==> is_space(#[trigger] s[i]),
        trim_end(s).len() > 0 ==> !is_space(trim_end(s).last()),
    decreases s.len(),
{
    if s.len() > 0 && is_space(s.last()) {
        let t = s.drop_last();
        trailing_space_is_cut_off(t);
        assert(trim_end(s) =~= s.take(trim_end(s).len() as int));
        assert forall|i: int| trim_end(s).len() <= i < s.len() implies is_space(#[trigger] s[i]) by {
            if i < t.len() {
                assert(t[i] == s[i]);
            }
        }
    } else {
        assert(trim_end(s) =~= s.take(s.len() as int));
    }
}

/// A text that neither begins nor ends with white space is what is left of it with white space
/// around.
pub proof fn trimming_gives_the_text_back(before: Seq<char>, s: Seq<char>, behind: Seq<char>)
    requires
        s.len() > 0,
        !is_space(s[0]),
        !is_space(s.last()),
        forall|i: int| 0 <= i < before.len() ==> is_space(#[trigger] before[i]),
        forall|i: int| 0 <= i < behind.len() ==> is_space(#[trigger] behind[i]),
    ensures
        trim(before + s + behind) == s,
    decreases before.len() + behind.len(),
{
    let all = before + s + behind;
    if before.len() > 0 {
        assert(all[0] == before[0]);
        let rest = before.skip(1);
        assert(forall|i: int| 0 <= i < rest.len() ==> rest[i] == before[i + 1]);
        assert(all.skip(1) =~= rest + s + behind);
        trimming_gives_the_text_back(rest, s, behind);
    } else {
        assert(all[0] == s[0]);
        assert(trim_start(all) == all);
        if behind.len() > 0 {
            let rest = behind.drop_last();
            assert(forall|i: int| 0 <= i < rest.len() ==> rest[i] == behind[i]);
            assert(all.last() == behind.last());
            assert(all.drop_last() =~= before + s + rest);
            trimming_gives_the_text_back(before, s, rest);
            assert((before + s + rest)[0] == s[0]);
            assert(trim_start(before + s + rest) == before + s + rest);
        } else {
            assert(all =~= s);
        }
    }
}

/// Whether `s` begins with `prefix`.
pub open spec fn starts_with(s: Seq<char>, prefix: Seq<char>) -> bool {
    prefix.len() <= s.len() && s.take(prefix.len() as int) == prefix
}

/// Where `pattern` first occurs in `s`, at or after `from`.
pub open spec fn find(s: Seq<char>, pattern: Seq<char>, from: int) -> Option<int>
    decreases s.len() - from,
{
    if from < 0 || from + pattern.len() > s.len() {
        None
    } else if s.subrange(from, from + pattern.len()) == pattern {
        Some(from)
    } else if from == s.len() {
        None
    } else {
        find(s, pattern, from + 1)
    }
}

/// `s` up to the first white space.
pub open spec fn until_space(s: Seq<char>) -> Seq<char>
    decreases s.len(),
{
    if s.len() == 0 || is_space(s[0]) {
        Seq::empty()
    } else {
        seq![s[0]] + until_space(s.skip(1))
    }
}

/// The first word of `s`, if it holds anything but white space.
pub open spec fn first_word(s: Seq<char>) -> Option<Seq<char>> {
    let t = trim_start(s);
    if t.len() == 0 {
        None
    } else {
        Some(until_space(t))
    }
}

/// Whether `c` is white space.
pub fn space(c: char) -> (r: bool)
    ensures
        r == is_space(c),
{
    let n: u32 = c as u32;
    (0x09 <= n && n <= 0x0D) || n == 0x20 || n == 0x85 || n == 0xA0 || n == 0x1680 || (0x2000 <= n && n
        <= 0x200A) || n == 0x2028 || n == 0x2029 || n == 0x202F || n == 0x205F || n == 0x3000
}

/// How many characters at the beginning of `s` are white space.
pub fn leading_space(s: &[char]) -> (n: usize)
    ensures
        n <= s@.len(),
        trim_start(s@) == s@.skip(n as int),
{
    let mut n: usize = 0;
    assert(s@.skip(0) =~= s@);
    while n < s.len() && space(s[n])
        invariant
            n <= s@.len(),
            trim_start(s@) == trim_start(s@.skip(n as int)),
        decreases s@.len() - n,
    {
        assert(s@.skip(n as int).skip(1) =~= s@.skip(n + 1));
        n = n + 1;
    }
    n
}

/// `s` without the white space around it.
pub fn trimmed(s: &[char]) -> (r: &[char])
    ensures
        r@ == trim(s@),
{
    let start: usize = leading_space(s);
    let ghost t = s@.skip(start as int);
    let mut end: usize = s.len();
    assert(t.take(end - start) =~= t);
    while end > start && space(s[end - 1])
        invariant
            start <= end <= s@.len(),
            t == s@.skip(start as int),
            trim_end(t) == trim_end(t.take(end - start)),
        decreases end,
    {
        assert(t.take(end - start).drop_last() =~= t.take(end - start - 1));
        end = end - 1;
    }
    let r = vstd::slice::slice_subrange(s, start, end);
    assert(r@ =~= t.take(end - start));
    r
}

/// Whether `s`, from `at` on, begins with `pattern`.
fn matches_at(s: &[char], at: usize, pattern: &[char]) -> (r: bool)
    requires
        at <= s@.len(),
    ensures
        r == (at + pattern@.len() <= s@.len() && s@.subrange(at as int, at + pattern@.len())
            == pattern@),
{
    if s.len() - at < pattern.len() {
        return false;
    }
    let mut i: usize = 0;
    while i < pattern.len()
        invariant
            i <= pattern@.len(),
            s@.len() == s.len(),
            at + pattern@.len() <= s@.len(),
            forall|j: int| 0 <= j < i ==> s@[at + j] == pattern@[j],
        decreases pattern@.len() - i,
    {
        if s[at + i] != pattern[i] {
            assert(s@.subrange(at as int, at + pattern@.len())[i as int] != pattern@[i as int]);
            return false;
        }
        i = i + 1;
    }
    assert(s@.subrange(at as int, at + pattern@.len()) =~= pattern@);
    true
}

/// Whether `s` begins with `prefix`.
pub fn has_prefix(s: &[char], prefix: &str) -> (r: bool)
    ensures
        r == starts_with(s@, prefix@),
{
    let p = chars_of(prefix);
    assert(p@.len() <= s@.len() ==> s@.subrange(0, p@.len() as int) =~= s@.take(p@.len() as int));
    matches_at(s, 0, &p)
}

/// Where `pattern` first occurs in `s`, at or after `from`.
pub fn find_from(s: &[char], pattern: &str, from: usize) -> (r: Option<usize>)
    requires
        from <= s@.len(),
    ensures
        match r {
            Some(i) => find(s@, pattern@, from as int) == Some(i as int) && from <= i && i
                + pattern@.len() <= s@.len() <= usize::MAX && s@.subrange(
                i as int,
                i + pattern@.len(),
            ) == pattern@,
            None => find(s@, pattern@, from as int) is None,
        },
{
    let p = chars_of(pattern);
    let mut i: usize = from;
    loop
        invariant
            from <= i <= s@.len(),
            p@ == pattern@,
            find(s@, pattern@, from as int) == find(s@, pattern@, i as int),
        decreases s@.len() - i,
    {
        if s.len() - i < p.len() {
            return None;
        }
        if matches_at(s, i, &p) {
            return Some(i);
        }
        if i == s.len() {
            return None;
        }
        i = i + 1;
    }
}

/// The first word of `s`.
pub fn word(s: &[char]) -> (r: Option<String>)
    ensures
        match r {
            Some(w) => first_word(s@) == Some(w@),
            None => first_word(s@) is None,
        },
{
    let start: usize = leading_space(s);
    if start == s.len() {
        return None;
    }
    let ghost t = s@.skip(start as int);
    let mut w = String::new();
    let mut i: usize = start;
    assert(t.skip(0) =~= t);
    assert(w@ + until_space(t) =~= until_space(t));
    while i < s.len() && !space(s[i])
        invariant
            start <= i <= s@.len(),
            t == s@.skip(start as int),
            w@ + until_space(t.skip(i - start)) == until_space(t),
        decreases s@.len() - i,
    {
        let ghost before = w@;
        let ghost u = t.skip(i - start);
        w.push(s[i]);
        assert(u.skip(1) =~= t.skip(i - start + 1));
        assert(w@ + until_space(u.skip(1)) =~= before + until_space(u));
        i = i + 1;
    }
    assert(w@ + until_space(t.skip(i - start)) =~= w@);
    Some(w)
}

/// `s` without a carriage return at its end.
pub open spec fn without_return(s: Seq<char>) -> Seq<char> {
    if s.len() > 0 && s.last() == '\r' {
        s.drop_last()
    } else {
        s
    }
}

/// The lines of a text. A line ends with a line feed, or with a carriage return and a line feed;
/// the last one may end with the text.
pub open spec fn lines(s: Seq<char>) -> Seq<Seq<char>>
    decreases s.len(),
{
    if s.len() == 0 {
        Seq::empty()
    } else {
        proof {
            line_end_bounds(s, 0);
        }
        match line_end(s, 0) {
            Some(i) => seq![without_return(s.take(i))] + lines(s.skip(i + 1)),
            None => seq![s],
        }
    }
}

/// Where the first line feed stands, at or after `from`.
pub open spec fn line_end(s: Seq<char>, from: int) -> Option<int>
    decreases s.len() - from,
{
    if from < 0 || from >= s.len() {
        None
    } else if s[from] == '\n' {
        Some(from)
    } else {
        line_end(s, from + 1)
    }
}

/// The first line feed is one, and stands inside the text.
pub proof fn line_end_bounds(s: Seq<char>, from: int)
    ensures
        line_end(s, from) matches Some(i) ==> from <= i < s.len() && s[i] == '\n',
    decreases s.len() - from,
{
    if 0 <= from < s.len() && s[from] != '\n' {
        line_end_bounds(s, from + 1);
    }
}

/// A line that ends with a line feed, or with a carriage return and a line feed, is the first line
/// of a text, and the lines of the rest follow it.
pub proof fn line_is_read_back(line: Seq<char>, rest: Seq<char>)
    requires
        !line.contains('\n'),
        line.len() > 0 ==> line.last() != '\r',
    ensures
        lines(line + seq!['\n'] + rest) == seq![line] + lines(rest),
        lines(line + seq!['\r', '\n'] + rest) == seq![line] + lines(rest),
{
    let s = line + seq!['\n'] + rest;
    let t = line + seq!['\r', '\n'] + rest;
    let n = line.len() as int;
    no_line_end_before(s, 0, n);
    assert(s.take(n) =~= line);
    assert(s.skip(n + 1) =~= rest);
    no_line_end_before(t, 0, n + 1);
    assert(t.take(n + 1).drop_last() =~= line);
    assert(t.skip(n + 2) =~= rest);
}

proof fn no_line_end_before(s: Seq<char>, from: int, to: int)
    requires
        0 <= from <= to < s.len(),
        s[to] == '\n',
        forall|i: int| from <= i < to ==> #[trigger] s[i] != '\n',
    ensures
        line_end(s, from) == Some(to),
    decreases to - from,
{
    if from < to {
        no_line_end_before(s, from + 1, to);
    }
}

/// Splits the first line off a text that is not empty: the line, and where the rest begins.
pub fn first_line(s: &[char]) -> (r: (&[char], usize))
    requires
        s@.len() > 0,
    ensures
        0 < r.1 <= s@.len(),
        lines(s@) == seq![r.0@] + lines(s@.skip(r.1 as int)),
{
    let mut i: usize = 0;
    while i < s.len()
        invariant
            i <= s@.len(),
            line_end(s@, 0) == line_end(s@, i as int),
        decreases s@.len() - i,
    {
        if s[i] == '\n' {
            let mut end: usize = i;
            if i > 0 && s[i - 1] == '\r' {
                end = i - 1;
            }
            let line = vstd::slice::slice_subrange(s, 0, end);
            assert(line@ =~= without_return(s@.take(i as int)));
            return (line, i + 1);
        }
        i = i + 1;
    }
    assert(lines(s@.skip(i as int)) =~= Seq::<Seq<char>>::empty());
    assert(seq![s@] + Seq::<Seq<char>>::empty() =~= seq![s@]);
    (s, s.len())
}

/// Whether a text is among others.
pub fn has_text(list: &[String], wanted: &str) -> (r: bool)
    ensures
        r == texts(list@).contains(wanted@),
{
    let mut i: usize = 0;
    while i < list.len()
        invariant
            i <= list@.len(),
            forall|j: int| 0 <= j < i ==> texts(list@)[j] != wanted@,
        decreases list@.len() - i,
    {
        if same(&list[i], wanted) {
            assert(texts(list@)[i as int] == wanted@);
            return true;
        }
        i = i + 1;
    }
    false
}

proof fn word_ends_at_space(word: Seq<char>, rest: Seq<char>)
    requires
        forall|i: int| 0 <= i < word.len() ==> !is_space(#[trigger] word[i]),
        rest.len() > 0 ==> is_space(rest[0]),
    ensures
        until_space(word + rest) == word,
    decreases word.len(),
{
    let s = word + rest;
    if word.len() > 0 {
        let tail = word.skip(1);
        assert(s.skip(1) =~= tail + rest);
        assert(s[0] == word[0]);
        assert forall|i: int| 0 <= i < tail.len() implies !is_space(#[trigger] tail[i]) by {
            assert(tail[i] == word[i + 1]);
        }
        word_ends_at_space(tail, rest);
        assert(seq![word[0]] + tail =~= word);
    } else {
        assert(s =~= rest);
    }
}

/// The first word is what stands between the white space at the beginning and the next white space,
/// or the end.
pub proof fn first_word_reads_back(before: Seq<char>, word: Seq<char>, rest: Seq<char>)
    requires
        word.len() > 0,
        forall|i: int| 0 <= i < before.len() ==> is_space(#[trigger] before[i]),
        forall|i: int| 0 <= i < word.len() ==> !is_space(#[trigger] word[i]),
        rest.len() > 0 ==> is_space(rest[0]),
    ensures
        first_word(before + word + rest) == Some(word),
{
    let s = before + word + rest;
    leading_space_is_cut_off(s);
    let cut = s.len() - trim_start(s).len();
    if cut < before.len() {
        assert(trim_start(s)[0] == before[cut]);
    }
    if cut > before.len() {
        assert(s[before.len() as int] == word[0]);
    }
    assert(trim_start(s) =~= word + rest);
    word_ends_at_space(word, rest);
}

} // verus!

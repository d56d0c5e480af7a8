//! Text as sequences of characters: the few operations on it that the rest of the library
//! is stated in, and the code that computes them.

use vstd::prelude::*;
use vstd::string::*;

verus! {

/// The characters with Unicode's `White_Space` property.
pub open spec fn is_space(c: char) -> bool {
    ||| '\u{9}' <= c <= '\u{d}'
    ||| c == ' '
    ||| c == '\u{85}'
    ||| c == '\u{a0}'
    ||| c == '\u{1680}'
    ||| '\u{2000}' <= c <= '\u{200a}'
    ||| c == '\u{2028}'
    ||| c == '\u{2029}'
    ||| c == '\u{202f}'
    ||| c == '\u{205f}'
    ||| c == '\u{3000}'
}

/// What is left of `s` without the leading characters that satisfy `p`.
pub open spec fn trim_start_by(s: Seq<char>, p: spec_fn(char) -> bool) -> Seq<char>
    decreases s.len(),
{
    if s.len() == 0 || !p(s.first()) {
        s
    } else {
        trim_start_by(s.drop_first(), p)
    }
}

/// What is left of `s` without the trailing characters that satisfy `p`.
pub open spec fn trim_end_by(s: Seq<char>, p: spec_fn(char) -> bool) -> Seq<char>
    decreases s.len(),
{
    if s.len() == 0 || !p(s.last()) {
        s
    } else {
        trim_end_by(s.drop_last(), p)
    }
}

/// `s` without leading and trailing white space.
pub open spec fn trimmed(s: Seq<char>) -> Seq<char> {
    trim_end_by(trim_start_by(s, |c: char| is_space(c)), |c: char| is_space(c))
}

/// `s` without its trailing slashes.
pub open spec fn without_trailing_slashes(s: Seq<char>) -> Seq<char> {
    trim_end_by(s, |c: char| c == '/')
}

/// How many characters stand before the first `c` of `s`; all of them where there is none.
pub open spec fn first_index(s: Seq<char>, c: char) -> nat
    decreases s.len(),
{
    if s.len() == 0 || s.first() == c {
        0
    } else {
        1 + first_index(s.drop_first(), c)
    }
}

/// What stands before and behind the first `c` of `s`.
pub open spec fn split_first(s: Seq<char>, c: char) -> Option<(Seq<char>, Seq<char>)> {
    let at = first_index(s, c) as int;
    if at == s.len() {
        None
    } else {
        Some((s.take(at), s.skip(at + 1)))
    }
}

/// An ASCII letter in lower case; any other character as it is.
pub open spec fn lower(c: char) -> char {
    if 'A' <= c <= 'Z' {
        (c as u32 + 32) as char
    } else {
        c
    }
}

/// `s` with its ASCII letters in lower case.
pub open spec fn lowered(s: Seq<char>) -> Seq<char> {
    s.map_values(|c: char| lower(c))
}

/// The digit for a value below sixteen, in lower case.
pub open spec fn digit(value: nat) -> char
    recommends
        value < 16,
{
    if value < 10 {
        (48 + value) as char
    } else {
        (87 + value) as char
    }
}

/// A number in decimal, without leading zeros.
pub open spec fn decimal(n: nat) -> Seq<char>
    decreases n,
{
    if n < 10 {
        seq![digit(n)]
    } else {
        decimal(n / 10).push(digit(n % 10))
    }
}

/// Bytes in hexadecimal, two lower-case digits each.
pub open spec fn hex_text(bytes: Seq<u8>) -> Seq<char>
    decreases bytes.len(),
{
    if bytes.len() == 0 {
        Seq::empty()
    } else {
        hex_text(bytes.drop_last()).push(digit((bytes.last() / 16) as nat)).push(
            digit((bytes.last() % 16) as nat),
        )
    }
}

pub open spec fn is_digit(c: char) -> bool {
    '0' <= c <= '9'
}

/// The number that a row of decimal digits stands for.
pub open spec fn digits_value(s: Seq<char>) -> nat
    decreases s.len(),
{
    if s.len() == 0 {
        0
    } else {
        (digits_value(s.drop_last()) * 10 + (s.last() as u32 - 48)) as nat
    }
}

/// The number that `s` spells: digits alone, at least one, of a value that fits.
pub open spec fn u64_text(s: Seq<char>) -> Option<u64> {
    if s.len() > 0 && (forall|i: int| 0 <= i < s.len() ==> is_digit(#[trigger] s[i]))
        && digits_value(s) <= u64::MAX {
        Some(digits_value(s) as u64)
    } else {
        None
    }
}

/// The text of an optional string.
pub open spec fn opt_text(s: Option<String>) -> Option<Seq<char>> {
    match s {
        Some(s) => Some(s@),
        None => None,
    }
}

/// The text of an optional string slice.
pub open spec fn opt_str(s: Option<&str>) -> Option<Seq<char>> {
    match s {
        Some(s) => Some(s@),
        None => None,
    }
}

/// Whether a character has Unicode's `White_Space` property.
pub fn is_whitespace(c: char) -> (yes: bool)
    ensures
        yes == is_space(c),
{
    ('\u{9}' <= c && c <= '\u{d}') || c == ' ' || c == '\u{85}' || c == '\u{a0}' || c == '\u{1680}'
        || ('\u{2000}' <= c && c <= '\u{200a}') || c == '\u{2028}' || c == '\u{2029}'
        || c == '\u{202f}' || c == '\u{205f}' || c == '\u{3000}'
}

/// The characters of a text.
pub(crate) fn chars_of(s: &str) -> (chars: Vec<char>)
    ensures
        chars@ == s@,
{
    let mut chars: Vec<char> = Vec::new();
    for c in it: s.chars()
        invariant
            chars@ == s@.take(it.index() as int),
            it.seq() == s@,
    {
        chars.push(c);
    }
    chars
}

/// `s` without leading and trailing white space, as `str::trim` has it.
pub(crate) fn trim(s: &str) -> (t: &str)
    ensures
        t@ == trimmed(s@),
{
    let chars = chars_of(s);
    let ghost p = |c: char| is_space(c);
    proof {
        assert(s@.skip(0) =~= s@);
    }
    let mut from: usize = 0;
    while from < chars.len() && is_whitespace(chars[from])
        invariant
            from <= chars.len(),
            chars@ == s@,
            p == (|c: char| is_space(c)),
            trim_start_by(s@, p) == trim_start_by(s@.skip(from as int), p),
        decreases chars.len() - from,
    {
        proof {
            assert(s@.skip(from as int).drop_first() =~= s@.skip(from + 1));
        }
        from += 1;
    }
    let mut to: usize = chars.len();
    proof {
        assert(s@.subrange(from as int, s@.len() as int) =~= s@.skip(from as int));
    }
    while to > from && is_whitespace(chars[to - 1])
        invariant
            from <= to <= chars.len(),
            chars@ == s@,
            p == (|c: char| is_space(c)),
            trim_end_by(s@.skip(from as int), p) == trim_end_by(s@.subrange(from as int, to as int), p),
        decreases to,
    {
        proof {
            assert(s@.subrange(from as int, to as int).drop_last() =~= s@.subrange(from as int, to - 1));
        }
        to -= 1;
    }
    s.substring_char(from, to)
}

/// `s` without its trailing slashes.
pub(crate) fn trim_slashes(s: &str) -> (t: &str)
    ensures
        t@ == without_trailing_slashes(s@),
{
    let chars = chars_of(s);
    let ghost p = |c: char| c == '/';
    let mut to: usize = chars.len();
    proof {
        assert(s@.take(s@.len() as int) =~= s@);
    }
    while to > 0 && chars[to - 1] == '/'
        invariant
            to <= chars.len(),
            chars@ == s@,
            p == (|c: char| c == '/'),
            trim_end_by(s@, p) == trim_end_by(s@.take(to as int), p),
        decreases to,
    {
        proof {
            assert(s@.take(to as int).drop_last() =~= s@.take(to - 1));
        }
        to -= 1;
    }
    s.substring_char(0, to)
}

/// Whether two texts are the same.
pub(crate) fn text_eq(a: &str, b: &str) -> (same: bool)
    ensures
        same == (a@ == b@),
{
    let x = chars_of(a);
    let y = chars_of(b);
    if x.len() != y.len() {
        return false;
    }
    let mut i: usize = 0;
    while i < x.len()
        invariant
            i <= x.len(),
            x.len() == y.len(),
            x@ == a@,
            y@ == b@,
            forall|j: int| 0 <= j < i ==> x[j] == y[j],
        decreases x.len() - i,
    {
        if x[i] != y[i] {
            assert(a@[i as int] != b@[i as int]);
            return false;
        }
        i += 1;
    }
    assert(a@ =~= b@);
    true
}

/// Whether two optional texts are the same.
pub(crate) fn opt_text_eq(a: Option<&str>, b: Option<&str>) -> (same: bool)
    ensures
        same == (opt_str(a) == opt_str(b)),
{
    match (a, b) {
        (Some(a), Some(b)) => text_eq(a, b),
        (None, None) => true,
        _ => false,
    }
}

/// Whether `s` begins with `prefix`.
pub(crate) fn starts_with(s: &str, prefix: &str) -> (yes: bool)
    ensures
        yes == prefix@.is_prefix_of(s@),
{
    let x = chars_of(s);
    let y = chars_of(prefix);
    if y.len() > x.len() {
        return false;
    }
    let mut i: usize = 0;
    while i < y.len()
        invariant
            i <= y.len() <= x.len(),
            x@ == s@,
            y@ == prefix@,
            forall|j: int| 0 <= j < i ==> x[j] == y[j],
        decreases y.len() - i,
    {
        if x[i] != y[i] {
            proof {
                assert(s@.subrange(0, prefix@.len() as int)[i as int] != prefix@[i as int]);
            }
            return false;
        }
        i += 1;
    }
    assert(prefix@ =~= s@.subrange(0, prefix@.len() as int));
    true
}

/// What stands in `s` behind `prefix`, if `s` begins with it.
pub(crate) fn strip_prefix<'a>(s: &'a str, prefix: &str) -> (rest: Option<&'a str>)
    ensures
        opt_str(rest) == (if prefix@.is_prefix_of(s@) {
            Some(s@.skip(prefix@.len() as int))
        } else {
            None
        }),
{
    if starts_with(s, prefix) {
        let from = prefix.unicode_len();
        let to = s.unicode_len();
        proof {
            assert(s@.subrange(from as int, to as int) =~= s@.skip(from as int));
        }
        Some(s.substring_char(from, to))
    } else {
        None
    }
}

/// What stands in `s` before and behind the first `c`.
pub(crate) fn split_once<'a>(s: &'a str, c: char) -> (parts: Option<(&'a str, &'a str)>)
    ensures
        match parts {
            Some((before, behind)) => split_first(s@, c) == Some((before@, behind@)),
            None => split_first(s@, c) is None,
        },
{
    let chars = chars_of(s);
    let mut i: usize = 0;
    proof {
        assert(s@.skip(0) =~= s@);
    }
    while i < chars.len() && chars[i] != c
        invariant
            i <= chars.len(),
            chars@ == s@,
            first_index(s@, c) == i + first_index(s@.skip(i as int), c),
        decreases chars.len() - i,
    {
        proof {
            assert(s@.skip(i as int).drop_first() =~= s@.skip(i + 1));
        }
        i += 1;
    }
    if i == chars.len() {
        return None;
    }
    proof {
        assert(s@.subrange(0, i as int) =~= s@.take(i as int));
        assert(s@.subrange(i + 1, s@.len() as int) =~= s@.skip(i + 1));
    }
    Some((s.substring_char(0, i), s.substring_char(i + 1, chars.len())))
}

/// Whether two texts differ at most in the case of their ASCII letters.
pub(crate) fn eq_ignore_case(a: &str, b: &str) -> (same: bool)
    ensures
        same == (lowered(a@) == lowered(b@)),
{
    let x = chars_of(a);
    let y = chars_of(b);
    if x.len() != y.len() {
        proof {
            assert(lowered(a@).len() != lowered(b@).len());
        }
        return false;
    }
    let mut i: usize = 0;
    while i < x.len()
        invariant
            i <= x.len(),
            x.len() == y.len(),
            x@ == a@,
            y@ == b@,
            forall|j: int| 0 <= j < i ==> lower(x[j]) == lower(y[j]),
        decreases x.len() - i,
    {
        if !lower_eq(x[i], y[i]) {
            proof {
                assert(lowered(a@)[i as int] != lowered(b@)[i as int]);
            }
            return false;
        }
        i += 1;
    }
    assert(lowered(a@) =~= lowered(b@));
    true
}

/// Whether two characters are the same letter, whatever its case, or the same character.
fn lower_eq(a: char, b: char) -> (same: bool)
    ensures
        same == (lower(a) == lower(b)),
{
    a == b || ('A' <= a && a <= 'Z' && 'a' <= b && b <= 'z' && a as u32 + 32 == b as u32) || ('A' <= b
        && b <= 'Z' && 'a' <= a && a <= 'z' && b as u32 + 32 == a as u32)
}

/// Whether `s` begins with `prefix`, whatever the case of the ASCII letters in `s`.
pub(crate) fn starts_with_ignore_case(s: &str, prefix: &str) -> (yes: bool)
    ensures
        yes == lowered(prefix@).is_prefix_of(lowered(s@)),
{
    let from = prefix.unicode_len();
    if from > s.unicode_len() {
        return false;
    }
    proof {
        assert(lowered(s@.subrange(0, from as int)) =~= lowered(s@).subrange(0, from as int));
    }
    eq_ignore_case(s.substring_char(0, from), prefix)
}

/// The digit for a value below sixteen, as a text.
fn digit_str(value: u64) -> (s: &'static str)
    requires
        value < 16,
    ensures
        s@ == seq![digit(value as nat)],
{
    proof {
        reveal_strlit("0");
        reveal_strlit("1");
        reveal_strlit("2");
        reveal_strlit("3");
        reveal_strlit("4");
        reveal_strlit("5");
        reveal_strlit("6");
        reveal_strlit("7");
        reveal_strlit("8");
        reveal_strlit("9");
        reveal_strlit("a");
        reveal_strlit("b");
        reveal_strlit("c");
        reveal_strlit("d");
        reveal_strlit("e");
        reveal_strlit("f");
    }
    let s = match value {
        0 => "0",
        1 => "1",
        2 => "2",
        3 => "3",
        4 => "4",
        5 => "5",
        6 => "6",
        7 => "7",
        8 => "8",
        9 => "9",
        10 => "a",
        11 => "b",
        12 => "c",
        13 => "d",
        14 => "e",
        _ => "f",
    };
    assert(s@ =~= seq![digit(value as nat)]);
    s
}

/// A number in decimal.
pub(crate) fn decimal_u64(n: u64) -> (s: String)
    ensures
        s@ == decimal(n as nat),
{
    decimal_u128(n as u128)
}

/// A number in decimal.
pub(crate) fn decimal_u128(n: u128) -> (s: String)
    ensures
        s@ == decimal(n as nat),
    decreases n,
{
    if n < 10 {
        digit_str(n as u64).to_owned()
    } else {
        let mut s = decimal_u128(n / 10);
        s.append(digit_str((n % 10) as u64));
        proof {
            assert(decimal((n / 10) as nat) + seq![digit((n % 10) as nat)] =~= decimal(
                (n / 10) as nat,
            ).push(digit((n % 10) as nat)));
        }
        s
    }
}

/// Bytes in hexadecimal, two lower-case digits each.
pub fn hex(bytes: &[u8]) -> (s: String)
    ensures
        s@ == hex_text(bytes@),
{
    let mut s = String::new();
    let mut i: usize = 0;
    while i < bytes.len()
        invariant
            i <= bytes.len(),
            s@ == hex_text(bytes@.take(i as int)),
        decreases bytes.len() - i,
    {
        let byte = bytes[i];
        let ghost before = s@;
        s.append(digit_str((byte / 16) as u64));
        s.append(digit_str((byte % 16) as u64));
        proof {
            assert(bytes@.take(i + 1).drop_last() =~= bytes@.take(i as int));
            assert(s@ =~= before.push(digit((byte / 16) as nat)).push(digit((byte % 16) as nat)));
        }
        i += 1;
    }
    assert(bytes@.take(bytes@.len() as int) =~= bytes@);
    s
}

/// The number that `s` spells.
pub(crate) fn parse_u64(s: &str) -> (n: Option<u64>)
    ensures
        n == u64_text(s@),
{
    let chars = chars_of(s);
    if chars.len() == 0 {
        return None;
    }
    let mut n: u64 = 0;
    let mut i: usize = 0;
    while i < chars.len()
        invariant
            i <= chars.len(),
            chars@ == s@,
            n == digits_value(s@.take(i as int)),
            forall|j: int| 0 <= j < i ==> is_digit(#[trigger] s@[j]),
        decreases chars.len() - i,
    {
        let c = chars[i];
        proof {
            assert(s@[i as int] == c);
            assert(s@.take(i + 1).drop_last() =~= s@.take(i as int));
        }
        if !('0' <= c && c <= '9') {
            return None;
        }
        let value: u64 = (c as u32 - 48) as u64;
        if n > (u64::MAX - value) / 10 {
            proof {
                lemma_digits_value_grows(s@, i + 1);
            }
            return None;
        }
        n = n * 10 + value;
        i += 1;
    }
    assert(s@.take(s@.len() as int) =~= s@);
    Some(n)
}

/// A longer row of digits does not stand for a smaller number.
proof fn lemma_digits_value_grows(s: Seq<char>, k: int)
    requires
        0 <= k <= s.len(),
        forall|i: int| 0 <= i < k ==> is_digit(#[trigger] s[i]),
    ensures
        (forall|i: int| 0 <= i < s.len() ==> is_digit(#[trigger] s[i])) ==> digits_value(s.take(k))
            <= digits_value(s),
    decreases s.len() - k,
{
    if k == s.len() {
        assert(s.take(k) =~= s);
    } else if is_digit(s[k]) {
        lemma_digits_value_grows(s, k + 1);
        assert(s.take(k + 1).drop_last() =~= s.take(k));
    }
}

/// A text without `c` is not split at `c`.
pub proof fn lemma_split_first_absent(s: Seq<char>, c: char)
    requires
        !s.contains(c),
    ensures
        first_index(s, c) == s.len(),
        split_first(s, c) is None,
    decreases s.len(),
{
    if s.len() > 0 {
        assert(s[0] == s.first());
        assert forall|i: int| 0 <= i < s.drop_first().len() implies #[trigger] s.drop_first()[i] != c by {
            assert(s.drop_first()[i] == s[i + 1]);
        }
        lemma_split_first_absent(s.drop_first(), c);
    }
}

/// The first `c` of a text stands in it, or behind all of it.
pub proof fn lemma_first_index_bound(s: Seq<char>, c: char)
    ensures
        first_index(s, c) <= s.len(),
        forall|i: int| 0 <= i < first_index(s, c) ==> #[trigger] s[i] != c,
    decreases s.len(),
{
    if s.len() > 0 && s.first() != c {
        let rest = s.drop_first();
        lemma_first_index_bound(rest, c);
        assert forall|i: int| 0 <= i < first_index(s, c) implies #[trigger] s[i] != c by {
            if i > 0 {
                assert(s[i] == rest[i - 1]);
            }
        }
    }
}

/// A text is split at the first `c`: what stands before it holds none.
pub proof fn lemma_split_first_at(before: Seq<char>, behind: Seq<char>, c: char)
    requires
        !before.contains(c),
    ensures
        split_first(before + seq![c] + behind, c) == Some((before, behind)),
    decreases before.len(),
{
    let s = before + seq![c] + behind;
    lemma_first_index_at(before, behind, c);
    assert(s.take(before.len() as int) =~= before);
    assert(s.skip(before.len() as int + 1) =~= behind);
}

proof fn lemma_first_index_at(before: Seq<char>, behind: Seq<char>, c: char)
    requires
        !before.contains(c),
    ensures
        first_index(before + seq![c] + behind, c) == before.len(),
    decreases before.len(),
{
    let s = before + seq![c] + behind;
    if before.len() > 0 {
        assert(s.first() == before[0]);
        assert(s.drop_first() =~= before.drop_first() + seq![c] + behind);
        assert forall|i: int| 0 <= i < before.drop_first().len() implies #[trigger] before.drop_first()[i]
            != c by {
            assert(before.drop_first()[i] == before[i + 1]);
        }
        lemma_first_index_at(before.drop_first(), behind, c);
    }
}

proof fn lemma_digit(value: nat)
    requires
        value < 16,
    ensures
        digit(value) as u32 == (if value < 10 {
            48 + value
        } else {
            87 + value
        }),
        value < 10 ==> is_digit(digit(value)),
{
}

/// A number in decimal is a row of digits that stands for that number.
pub proof fn lemma_decimal(n: nat)
    ensures
        decimal(n).len() > 0,
        forall|i: int| 0 <= i < decimal(n).len() ==> is_digit(#[trigger] decimal(n)[i]),
        digits_value(decimal(n)) == n,
    decreases n,
{
    if n < 10 {
        let s = decimal(n);
        assert(s.drop_last() =~= Seq::<char>::empty());
        assert(s.last() == digit(n));
        assert(digits_value(s.drop_last()) == 0);
        lemma_digit(n);
    } else {
        lemma_digit(n % 10);
        lemma_decimal(n / 10);
        let s = decimal(n);
        assert(s.drop_last() =~= decimal(n / 10));
        assert(s.last() == digit(n % 10));
        assert forall|i: int| 0 <= i < s.len() implies is_digit(#[trigger] s[i]) by {
            if i < s.len() - 1 {
                assert(s[i] == decimal(n / 10)[i]);
            }
        }
    }
}

/// A number in decimal reads back as that number.
pub proof fn law_a_number_reads_back(n: u64)
    ensures
        u64_text(decimal(n as nat)) == Some(n),
{
    lemma_decimal(n as nat);
    assert(is_digit(decimal(n as nat)[0]));
}

/// Different numbers are written differently.
pub proof fn law_different_numbers_are_written_differently(m: nat, n: nat)
    requires
        decimal(m) == decimal(n),
    ensures
        m == n,
{
    lemma_decimal(m);
    lemma_decimal(n);
}

/// Hexadecimal takes two digits for each byte, all of them in lower case.
pub proof fn law_hex_is_lower_case_and_zero_padded(bytes: Seq<u8>)
    ensures
        hex_text(bytes).len() == 2 * bytes.len(),
        lowered(hex_text(bytes)) == hex_text(bytes),
        forall|i: int|
            0 <= i < bytes.len() ==> #[trigger] hex_text(bytes)[2 * i] == digit((bytes[i] / 16) as nat)
                && hex_text(bytes)[2 * i + 1] == digit((bytes[i] % 16) as nat),
    decreases bytes.len(),
{
    let s = hex_text(bytes);
    if bytes.len() > 0 {
        let rest = bytes.drop_last();
        law_hex_is_lower_case_and_zero_padded(rest);
        assert forall|i: int| 0 <= i < bytes.len() implies #[trigger] s[2 * i] == digit(
            (bytes[i] / 16) as nat,
        ) && s[2 * i + 1] == digit((bytes[i] % 16) as nat) by {
            if i < bytes.len() - 1 {
                assert(s[2 * i] == hex_text(rest)[2 * i]);
                assert(s[2 * i + 1] == hex_text(rest)[2 * i + 1]);
                assert(rest[i] == bytes[i]);
            }
        }
        assert forall|i: int| 0 <= i < s.len() implies lower(#[trigger] s[i]) == s[i] by {
            if i < s.len() - 2 {
                assert(s[i] == hex_text(rest)[i]);
                assert(lowered(hex_text(rest))[i] == lower(hex_text(rest)[i]));
            }
        }
    }
    assert(lowered(s) =~= s);
}

/// Different bytes have different hexadecimal texts.
pub proof fn law_different_bytes_have_different_hex(a: Seq<u8>, b: Seq<u8>)
    requires
        hex_text(a) == hex_text(b),
    ensures
        a == b,
{
    law_hex_is_lower_case_and_zero_padded(a);
    law_hex_is_lower_case_and_zero_padded(b);
    assert forall|i: int| 0 <= i < a.len() implies a[i] == b[i] by {
        assert(a.len() == b.len());
        assert(hex_text(a)[2 * i] == digit((a[i] / 16) as nat));
        assert(hex_text(b)[2 * i] == digit((b[i] / 16) as nat));
        assert(hex_text(a)[2 * i + 1] == digit((a[i] % 16) as nat));
        assert(hex_text(b)[2 * i + 1] == digit((b[i] % 16) as nat));
        lemma_digit((a[i] / 16) as nat);
        lemma_digit((b[i] / 16) as nat);
        lemma_digit((a[i] % 16) as nat);
        lemma_digit((b[i] % 16) as nat);
        assert(a[i] / 16 == b[i] / 16);
        assert(a[i] % 16 == b[i] % 16);
    }
    assert(a =~= b);
}

/// Text that neither begins nor ends with white space is left as it is by trimming.
pub proof fn lemma_trimmed_as_is(s: Seq<char>)
    requires
        s.len() > 0 ==> !is_space(s.first()) && !is_space(s.last()),
    ensures
        trimmed(s) == s,
{
}

/// Where there is a `c`, it stands at its first index.
pub proof fn lemma_found_at(s: Seq<char>, c: char)
    requires
        first_index(s, c) < s.len(),
    ensures
        s[first_index(s, c) as int] == c,
    decreases s.len(),
{
    if s.first() != c {
        lemma_found_at(s.drop_first(), c);
    }
}

/// A split text is its parts, with the character between them that does not stand in the first.
/// Only a text without that character is not split.
pub proof fn law_a_split_text_is_its_parts(s: Seq<char>, c: char)
    ensures
        split_first(s, c) is Some <==> s.contains(c),
        split_first(s, c) matches Some((before, behind)) ==> {
            &&& s == before + seq![c] + behind
            &&& !before.contains(c)
        },
{
    lemma_first_index_bound(s, c);
    let at = first_index(s, c) as int;
    if at < s.len() {
        lemma_found_at(s, c);
        assert(s =~= s.take(at) + seq![c] + s.skip(at + 1));
        assert(s.contains(c));
        assert(!s.take(at).contains(c)) by {
            if s.take(at).contains(c) {
                let i = choose|i: int| 0 <= i < at && s.take(at)[i] == c;
                assert(s[i] == c);
            }
        }
    } else if s.contains(c) {
        let i = choose|i: int| 0 <= i < s.len() && s[i] == c;
        assert(s[i] != c);
    }
}

proof fn lemma_trim_start(s: Seq<char>, p: spec_fn(char) -> bool) -> (front: Seq<char>)
    ensures
        s == front + trim_start_by(s, p),
        forall|i: int| 0 <= i < front.len() ==> p(#[trigger] front[i]),
        trim_start_by(s, p).len() > 0 ==> !p(trim_start_by(s, p)[0]),
    decreases s.len(),
{
    if s.len() == 0 || !p(s.first()) {
        assert(s =~= Seq::<char>::empty() + s);
        Seq::empty()
    } else {
        let rest = lemma_trim_start(s.drop_first(), p);
        let front = seq![s.first()] + rest;
        assert(s =~= seq![s.first()] + s.drop_first());
        assert(s =~= front + trim_start_by(s, p));
        front
    }
}

proof fn lemma_trim_end(s: Seq<char>, p: spec_fn(char) -> bool) -> (end: Seq<char>)
    ensures
        s == trim_end_by(s, p) + end,
        forall|i: int| 0 <= i < end.len() ==> p(#[trigger] end[i]),
        trim_end_by(s, p).len() > 0 ==> !p(trim_end_by(s, p).last()),
    decreases s.len(),
{
    if s.len() == 0 || !p(s.last()) {
        assert(s =~= s + Seq::<char>::empty());
        Seq::empty()
    } else {
        let rest = lemma_trim_end(s.drop_last(), p);
        let end = rest + seq![s.last()];
        assert(s =~= s.drop_last() + seq![s.last()]);
        assert(s =~= trim_end_by(s, p) + end);
        end
    }
}

/// Trimming takes away white space at both ends, all of it, and nothing else.
pub proof fn law_trimming_takes_white_space_at_the_ends(s: Seq<char>) -> (ends: (
    Seq<char>,
    Seq<char>,
))
    ensures
        s == ends.0 + trimmed(s) + ends.1,
        forall|i: int| 0 <= i < ends.0.len() ==> is_space(#[trigger] ends.0[i]),
        forall|i: int| 0 <= i < ends.1.len() ==> is_space(#[trigger] ends.1[i]),
        trimmed(s).len() > 0 ==> !is_space(trimmed(s)[0]) && !is_space(trimmed(s).last()),
{
    let p = |c: char| is_space(c);
    let front = lemma_trim_start(s, p);
    let middle = trim_start_by(s, p);
    let end = lemma_trim_end(middle, p);
    assert forall|i: int| 0 <= i < front.len() implies is_space(#[trigger] front[i]) by {
        assert(p(front[i]));
    }
    assert forall|i: int| 0 <= i < end.len() implies is_space(#[trigger] end[i]) by {
        assert(p(end[i]));
    }
    assert(s =~= front + trimmed(s) + end);
    if trimmed(s).len() > 0 {
        assert(trimmed(s)[0] == middle[0]);
    }
    (front, end)
}

/// The slashes at the end of a text go, all of them, and nothing else.
pub proof fn law_trailing_slashes_go(s: Seq<char>) -> (end: Seq<char>)
    ensures
        s == without_trailing_slashes(s) + end,
        forall|i: int| 0 <= i < end.len() ==> #[trigger] end[i] == '/',
        without_trailing_slashes(s).len() > 0 ==> without_trailing_slashes(s).last() != '/',
{
    let p = |c: char| c == '/';
    let end = lemma_trim_end(s, p);
    assert forall|i: int| 0 <= i < end.len() implies #[trigger] end[i] == '/' by {
        assert(p(end[i]));
    }
    end
}

/// Letter case is that of ASCII: a capital letter and its small one are the same, and no other two
/// characters are.
pub proof fn law_case_is_that_of_ascii(a: char, b: char)
    ensures
        lower(a) == lower(b) <==> a == b || ('A' <= a <= 'Z' && b as u32 == a as u32 + 32) || ('A'
            <= b <= 'Z' && a as u32 == b as u32 + 32),
{
}

/// A text keeps its length and its characters in lower case, one by one.
pub proof fn law_lower_case_goes_character_by_character(s: Seq<char>, i: int)
    requires
        0 <= i < s.len(),
    ensures
        lowered(s).len() == s.len(),
        lowered(s)[i] == lower(s[i]),
{
}

/// The digits are `0` to `9` and `a` to `f`, in the order of their values.
pub proof fn law_digits_stand_in_order(value: nat)
    requires
        value < 16,
    ensures
        value < 10 ==> digit(value) as u32 == '0' as u32 + value,
        value >= 10 ==> digit(value) as u32 == 'a' as u32 + value - 10,
{
}

/// A number stands for itself in powers of ten: a further digit behind it makes it ten times as
/// large, and the digit more.
pub proof fn law_a_further_digit_counts_ten(n: nat, d: nat)
    requires
        n > 0,
        d < 10,
    ensures
        decimal(10 * n + d) == decimal(n).push(('0' as u32 + d) as char),
        decimal(d) == seq![('0' as u32 + d) as char],
{
    assert((10 * n + d) / 10 == n);
    assert((10 * n + d) % 10 == d);
}

/// Only digits spell a number, and zeros in front of it change nothing.
pub proof fn law_only_digits_spell_a_number(s: Seq<char>)
    ensures
        u64_text(s) is Some ==> s.len() > 0 && forall|i: int|
            0 <= i < s.len() ==> '0' <= #[trigger] s[i] && s[i] <= '9',
        u64_text(s) is Some ==> u64_text(seq!['0'] + s) == u64_text(s),
{
    if u64_text(s) is Some {
        lemma_leading_zero(s);
        assert forall|i: int| 0 <= i < s.len() implies '0' <= #[trigger] s[i] && s[i] <= '9' by {
            assert(is_digit(s[i]));
        }
        let padded = seq!['0'] + s;
        assert forall|i: int| 0 <= i < padded.len() implies is_digit(#[trigger] padded[i]) by {
            if i > 0 {
                assert(padded[i] == s[i - 1]);
            }
        }
    }
}

proof fn lemma_leading_zero(s: Seq<char>)
    ensures
        digits_value(seq!['0'] + s) == digits_value(s),
    decreases s.len(),
{
    let padded = seq!['0'] + s;
    if s.len() == 0 {
        assert(padded.drop_last() =~= Seq::<char>::empty());
        assert(padded.last() == '0');
        reveal_with_fuel(digits_value, 2);
    } else {
        assert(padded.last() == s.last());
        assert(padded.drop_last() =~= seq!['0'] + s.drop_last());
        lemma_leading_zero(s.drop_last());
    }
}

/// An optional text is there as it is, or not at all.
pub proof fn law_an_optional_text_is_there_or_not(text: String, part: &str)
    ensures
        opt_text(Some(text)) == Some(text@),
        opt_text(None) is None,
        opt_str(Some(part)) == Some(part@),
        opt_str(None) is None,
{
}

/// A number that does not fit is none.
pub proof fn law_a_number_that_does_not_fit_is_none(n: nat)
    requires
        n > u64::MAX,
    ensures
        u64_text(decimal(n)) is None,
{
    lemma_decimal(n);
}

} // verus!

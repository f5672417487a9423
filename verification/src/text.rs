//! Texts: equality, trimming, and the numbers that a text may hold.
//!
//! A count is read as `u32`'s `FromStr` reads it: an optional `+` and then
//! decimal digits, with a value that fits. A duration is a [`Decimal`]: a
//! number kept as the text that writes it, in the form that the `FromStr` of
//! the floating-point types accepts.

use vstd::prelude::*;
use vstd::string::{StrSliceExecFns, StringSliceAdditionalSpecFns};
use vstd::utf8::{encode_utf8, encode_utf8_decode_utf8};

verus! {

/// Whether `a` and `b` hold the same characters. The two are compared byte by
/// byte: texts with the same UTF-8 bytes hold the same characters.
pub fn same_text(a: &str, b: &str) -> (equal: bool)
    ensures
        equal == (a@ == b@),
{
    let x = a.as_bytes();
    let y = b.as_bytes();
    proof {
        encode_utf8_decode_utf8(a@);
        encode_utf8_decode_utf8(b@);
    }
    if x.len() != y.len() {
        return false;
    }
    let mut i: usize = 0;
    while i < x.len()
        invariant
            i <= x.len(),
            x.len() == y.len(),
            x@ == encode_utf8(a@),
            y@ == encode_utf8(b@),
            forall|j: int| 0 <= j < i ==> x@[j] == y@[j],
        decreases x.len() - i,
    {
        if x[i] != y[i] {
            return false;
        }
        i += 1;
    }
    assert(x@ =~= y@);
    true
}

/// The characters of `text`, one by one.
pub fn chars_of(text: &str) -> (chars: Vec<char>)
    ensures
        chars@ == text@,
{
    let mut chars: Vec<char> = Vec::new();
    for c in it: text.chars()
        invariant
            it.seq() == text@,
            chars@ == text@.take(it.index() as int),
    {
        chars.push(c);
        assert(text@.take(it.index() + 1) =~= text@.take(it.index() as int).push(c));
    }
    assert(text@.take(text@.len() as int) =~= text@);
    chars
}

/// Whether `c` is white space in XML: a blank, a tab, a carriage return or a
/// line feed.
pub open spec fn is_space(c: char) -> bool {
    c == ' ' || c == '\t' || c == '\r' || c == '\n'
}

/// Where the run of white space that starts at `from` ends.
pub open spec fn spaces_end(s: Seq<char>, from: int) -> int
    decreases s.len() - from,
{
    if 0 <= from < s.len() && is_space(s[from]) {
        spaces_end(s, from + 1)
    } else {
        from
    }
}

/// Where the run of white space that ends before `to` starts.
pub open spec fn spaces_start(s: Seq<char>, to: int) -> int
    decreases to,
{
    if 0 < to <= s.len() && is_space(s[to - 1]) {
        spaces_start(s, to - 1)
    } else {
        to
    }
}

/// The text without the white space in front of it.
pub open spec fn without_leading_space(s: Seq<char>) -> Seq<char> {
    s.skip(spaces_end(s, 0))
}

/// The text without the white space behind it.
pub open spec fn without_trailing_space(s: Seq<char>) -> Seq<char> {
    s.take(spaces_start(s, s.len() as int))
}

/// Tests [`is_space`].
fn is_space_char(c: char) -> (space: bool)
    ensures
        space == is_space(c),
{
    c == ' ' || c == '\t' || c == '\r' || c == '\n'
}

/// Removes the white space in front of `text`.
pub fn trim_start(text: &str) -> (trimmed: String)
    ensures
        trimmed@ == without_leading_space(text@),
{
    let chars = chars_of(text);
    let mut from: usize = 0;
    while from < chars.len() && is_space_char(chars[from])
        invariant
            from <= chars.len(),
            spaces_end(chars@, 0) == spaces_end(chars@, from as int),
        decreases chars.len() - from,
    {
        from += 1;
    }
    text.substring_char(from, chars.len()).to_owned()
}

/// Removes the white space behind `text`.
pub fn trim_end(text: &str) -> (trimmed: String)
    ensures
        trimmed@ == without_trailing_space(text@),
{
    let chars = chars_of(text);
    let mut to: usize = chars.len();
    while to > 0 && is_space_char(chars[to - 1])
        invariant
            to <= chars.len(),
            spaces_start(chars@, chars@.len() as int) == spaces_start(chars@, to as int),
        decreases to,
    {
        to -= 1;
    }
    text.substring_char(0, to).to_owned()
}

/// Whether `c` is a decimal digit.
pub open spec fn is_digit(c: char) -> bool {
    '0' <= c <= '9'
}

/// The value of a decimal digit.
pub open spec fn digit_value(c: char) -> nat {
    (c as u32 - '0' as u32) as nat
}

/// Whether `s` holds decimal digits only.
pub open spec fn all_digits(s: Seq<char>) -> bool {
    forall|i: int| 0 <= i < s.len() ==> is_digit(#[trigger] s[i])
}

/// The number that the decimal digits `s` write.
pub open spec fn decimal_value(s: Seq<char>) -> nat
    decreases s.len(),
{
    if s.len() == 0 {
        0
    } else {
        decimal_value(s.drop_last()) * 10 + digit_value(s.last())
    }
}

/// The digits of a count: the text without the `+` that may stand in front.
pub open spec fn count_digits(s: Seq<char>) -> Seq<char> {
    if s.len() > 0 && s[0] == '+' {
        s.skip(1)
    } else {
        s
    }
}

/// The count that `s` writes: `s` is an optional `+` and one or more decimal
/// digits, and their value is at most `u32::MAX`. `None` for any other text.
pub open spec fn count_of(s: Seq<char>) -> Option<u32> {
    let digits = count_digits(s);
    if digits.len() > 0 && all_digits(digits) && decimal_value(digits) <= u32::MAX {
        Some(decimal_value(digits) as u32)
    } else {
        None
    }
}

/// The value of a run of digits is at least the value of each of its prefixes.
pub proof fn lemma_decimal_value_grows(s: Seq<char>, n: int)
    requires
        0 <= n <= s.len(),
    ensures
        decimal_value(s.take(n)) <= decimal_value(s),
    decreases s.len() - n,
{
    if n == s.len() {
        assert(s.take(n) =~= s);
    } else {
        lemma_decimal_value_grows(s.drop_last(), n);
        assert(s.drop_last().take(n) =~= s.take(n));
    }
}

/// Reads a count. See [`count_of`].
pub fn parse_count(text: &str) -> (count: Option<u32>)
    ensures
        count == count_of(text@),
{
    let chars = chars_of(text);
    let start: usize = if chars.len() > 0 && chars[0] == '+' {
        1
    } else {
        0
    };
    let ghost digits = count_digits(text@);
    assert(digits =~= chars@.skip(start as int));
    if start == chars.len() {
        return None;
    }
    let mut value: u64 = 0;
    let mut i: usize = start;
    while i < chars.len()
        invariant
            start <= i <= chars.len(),
            digits == chars@.skip(start as int),
            digits == count_digits(text@),
            all_digits(digits.take(i - start)),
            value == decimal_value(digits.take(i - start)),
            value <= u32::MAX,
        decreases chars.len() - i,
    {
        let c = chars[i];
        let ghost seen = digits.take(i - start);
        let ghost next = digits.take(i - start + 1);
        assert(next.drop_last() =~= seen);
        assert(next.last() == c);
        if !(c >= '0' && c <= '9') {
            assert(!is_digit(digits[i - start]));
            return None;
        }
        value = value * 10 + (c as u32 - '0' as u32) as u64;
        if value > u32::MAX as u64 {
            proof {
                lemma_decimal_value_grows(digits, i - start + 1);
            }
            return None;
        }
        i += 1;
    }
    assert(digits.take(digits.len() as int) =~= digits);
    Some(value as u32)
}

/// Where the run of decimal digits that starts at `from` ends.
pub open spec fn digits_end(s: Seq<char>, from: int) -> int
    decreases s.len() - from,
{
    if 0 <= from < s.len() && is_digit(s[from]) {
        digits_end(s, from + 1)
    } else {
        from
    }
}

/// Whether `c` is the lower-case letter `letter` or its upper-case form.
pub open spec fn is_letter(c: char, letter: char) -> bool {
    c == letter || ('A' <= c <= 'Z' && c as u32 + 32 == letter as u32)
}

/// Whether `s` from `from` on is `word`, in upper or lower case.
pub open spec fn is_word(s: Seq<char>, from: int, word: Seq<char>) -> bool {
    &&& s.len() - from == word.len()
    &&& forall|i: int| 0 <= i < word.len() ==> is_letter(#[trigger] s[from + i], word[i])
}

/// Whether `s` from `from` on names infinity or not-a-number.
pub open spec fn is_special(s: Seq<char>, from: int) -> bool {
    ||| is_word(s, from, seq!['i', 'n', 'f'])
    ||| is_word(s, from, seq!['n', 'a', 'n'])
    ||| is_word(s, from, seq!['i', 'n', 'f', 'i', 'n', 'i', 't', 'y'])
}

/// Whether `s` from `at` on is an exponent: `e` or `E`, an optional sign, and
/// one or more digits up to the end.
pub open spec fn is_exponent(s: Seq<char>, at: int) -> bool {
    let from = if at + 1 < s.len() && (s[at + 1] == '+' || s[at + 1] == '-') {
        at + 2
    } else {
        at + 1
    };
    &&& 0 <= at < s.len()
    &&& (s[at] == 'e' || s[at] == 'E')
    &&& from < s.len()
    &&& digits_end(s, from) == s.len()
}

/// Whether `s` from `from` on is a number: digits with at most one point among
/// them, before it or after it or both, and then nothing or an exponent.
pub open spec fn is_number(s: Seq<char>, from: int) -> bool {
    let whole_end = digits_end(s, from);
    let pointed = whole_end < s.len() && s[whole_end] == '.';
    let end = if pointed {
        digits_end(s, whole_end + 1)
    } else {
        whole_end
    };
    let digits = if pointed {
        end - from - 1
    } else {
        end - from
    };
    digits > 0 && (end == s.len() || is_exponent(s, end))
}

/// Whether `s` writes a decimal number as the floating-point types read one:
/// an optional sign, and then a number or a name of infinity or not-a-number.
pub open spec fn is_decimal(s: Seq<char>) -> bool {
    let from: int = if s.len() > 0 && (s[0] == '+' || s[0] == '-') {
        1
    } else {
        0
    };
    is_number(s, from) || is_special(s, from)
}

/// Finds the end of the run of digits that starts at `from`.
fn skip_digits(chars: &Vec<char>, from: usize) -> (end: usize)
    requires
        from <= chars.len(),
    ensures
        end == digits_end(chars@, from as int),
        from <= end <= chars.len(),
{
    let mut end: usize = from;
    while end < chars.len() && chars[end] >= '0' && chars[end] <= '9'
        invariant
            from <= end <= chars.len(),
            digits_end(chars@, from as int) == digits_end(chars@, end as int),
        decreases chars.len() - end,
    {
        end += 1;
    }
    end
}

/// Tests [`is_word`].
fn word_at(chars: &Vec<char>, from: usize, word: &Vec<char>) -> (found: bool)
    requires
        from <= chars.len(),
    ensures
        found == is_word(chars@, from as int, word@),
{
    if chars.len() - from != word.len() {
        return false;
    }
    let mut i: usize = 0;
    while i < word.len()
        invariant
            i <= word.len(),
            chars.len() - from == word.len(),
            forall|j: int| 0 <= j < i ==> is_letter(#[trigger] chars@[from + j], word@[j]),
        decreases word.len() - i,
    {
        let c = chars[from + i];
        let w = word[i];
        let same = c == w || (c >= 'A' && c <= 'Z' && c as u32 + 32 == w as u32);
        if !same {
            assert(!is_letter(chars@[from + i], word@[i as int]));
            return false;
        }
        i += 1;
    }
    true
}

/// Tests whether `text` writes a decimal number. See [`is_decimal`].
pub fn is_decimal_text(text: &str) -> (decimal: bool)
    ensures
        decimal == is_decimal(text@),
{
    let chars = chars_of(text);
    let len = chars.len();
    let from: usize = if len > 0 && (chars[0] == '+' || chars[0] == '-') {
        1
    } else {
        0
    };
    let whole_end = skip_digits(&chars, from);
    let pointed = whole_end < len && chars[whole_end] == '.';
    let end = if pointed {
        skip_digits(&chars, whole_end + 1)
    } else {
        whole_end
    };
    let has_digits = if pointed {
        end - from > 1
    } else {
        end - from > 0
    };
    let number = has_digits && (end == len || {
        if chars[end] == 'e' || chars[end] == 'E' {
            let exp: usize = if end + 1 < len && (chars[end + 1] == '+' || chars[end + 1] == '-') {
                end + 2
            } else {
                end + 1
            };
            exp < len && skip_digits(&chars, exp) == len
        } else {
            false
        }
    });
    if number {
        return true;
    }
    word_at(&chars, from, &vec!['i', 'n', 'f']) || word_at(&chars, from, &vec!['n', 'a', 'n'])
        || word_at(&chars, from, &vec!['i', 'n', 'f', 'i', 'n', 'i', 't', 'y'])
}

/// A decimal number, kept as the text that writes it. Every `Decimal` holds a
/// text for which [`is_decimal`] holds.
#[derive(Debug, PartialEq)]
pub struct Decimal {
    text: String,
}

impl View for Decimal {
    type V = Seq<char>;

    closed spec fn view(&self) -> Seq<char> {
        self.text@
    }
}

impl DeepView for Decimal {
    type V = Seq<char>;

    open spec fn deep_view(&self) -> Seq<char> {
        self@
    }
}

impl Decimal {
    #[verifier::type_invariant]
    closed spec fn writes_a_number(self) -> bool {
        is_decimal(self.text@)
    }

    /// The number that `text` writes, if it writes one.
    pub fn parse(text: &str) -> (number: Option<Decimal>)
        ensures
            number.deep_view() == if is_decimal(text@) {
                Some(text@)
            } else {
                None
            },
    {
        if is_decimal_text(text) {
            Some(Decimal { text: text.to_owned() })
        } else {
            None
        }
    }

    /// The text that writes the number.
    pub fn as_str(&self) -> (text: &str)
        ensures
            text@ == self@,
            is_decimal(text@),
    {
        proof {
            use_type_invariant(self);
        }
        self.text.as_str()
    }
}

impl Clone for Decimal {
    fn clone(&self) -> (copy: Decimal)
        ensures
            copy@ == self@,
    {
        proof {
            use_type_invariant(self);
        }
        Decimal { text: self.text.clone() }
    }
}

} // verus!

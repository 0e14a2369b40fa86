//! Plain text: the ways this crate takes text apart and puts it together.
//!
//! Text is modelled as the sequence of its characters. Exact executable
//! counterparts work on slices of characters.

use vstd::prelude::*;
use vstd::utf8::*;

verus! {

/// Appends one character, as `String::push` is documented to.
pub assume_specification[ String::push ](s: &mut String, c: char)
    ensures
        final(s)@ == old(s)@.push(c),
;

/// The characters of `s`, in order.
pub fn chars_of(s: &str) -> (out: Vec<char>)
    ensures
        out@ == s@,
{
    let mut out: Vec<char> = Vec::new();
    for c in it: s.chars()
        invariant
            out@ == it.seq().take(it.index() as int),
            it.seq() == s@,
    {
        out.push(c);
    }
    out
}

/// The string made of the characters `chars`, in order.
pub fn string_of(chars: &[char]) -> (out: String)
    ensures
        out@ == chars@,
{
    let mut out = String::new();
    let mut i: usize = 0;
    while i < chars.len()
        invariant
            i <= chars.len(),
            out@ == chars@.take(i as int),
        decreases chars.len() - i,
    {
        out.push(chars[i]);
        i += 1;
    }
    out
}

/// The texts of strings.
pub open spec fn texts(v: Seq<String>) -> Seq<Seq<char>> {
    v.map_values(|s: String| s@)
}

/// Copies strings.
pub fn copy_of(all: &Vec<String>) -> (out: Vec<String>)
    ensures
        texts(out@) == texts(all@),
{
    let mut out: Vec<String> = Vec::new();
    let mut i: usize = 0;
    while i < all.len()
        invariant
            i <= all.len(),
            texts(out@) == texts(all@).take(i as int),
        decreases all.len() - i,
    {
        out.push(all[i].clone());
        assert(texts(out@) == texts(all@).take(i as int).push(all@[i as int]@));
        i += 1;
    }
    out
}

/// The text that the standard library's `Debug` writes for a string: quoted, with escapes.
pub uninterp spec fn debug_text(s: Seq<char>) -> Seq<char>;

/// Writes `s` as `format!("{s:?}")` does. The contract says only that the text is determined
/// by `s`.
#[verifier::external_body]
pub(crate) fn quoted(s: &str) -> (out: String)
    ensures
        out@ == debug_text(s@),
{
    format!("{s:?}")
}

/// What `String::from_utf8_lossy` makes of bytes that are not UTF-8.
pub uninterp spec fn repaired_utf8(bytes: Seq<u8>) -> Seq<char>;

/// Calls `String::from_utf8_lossy`. Bytes that are UTF-8 give the text they encode; of other
/// bytes the contract says only that the text is determined by them.
#[verifier::external_body]
pub(crate) fn utf8_lossy(bytes: &[u8]) -> (text: String)
    ensures
        text@ == (if valid_utf8(bytes@) {
            decode_utf8(bytes@)
        } else {
            repaired_utf8(bytes@)
        }),
{
    String::from_utf8_lossy(bytes).into_owned()
}

/// The text that bytes stand for: what they encode, or else their repaired form.
pub open spec fn lossy(bytes: Seq<u8>) -> Seq<char> {
    if valid_utf8(bytes) {
        decode_utf8(bytes)
    } else {
        repaired_utf8(bytes)
    }
}

/// Whether `c` has the Unicode property White_Space.
pub open spec fn white_space(c: char) -> bool {
    ||| '\u{9}' <= c <= '\u{d}'
    ||| c == '\u{20}'
    ||| c == '\u{85}'
    ||| c == '\u{a0}'
    ||| c == '\u{1680}'
    ||| '\u{2000}' <= c <= '\u{200a}'
    ||| c == '\u{2028}'
    ||| c == '\u{2029}'
    ||| c == '\u{202f}'
    ||| c == '\u{205f}'
    ||| c == '\u{3000}'
}

/// Tells whether `c` is white space.
pub fn is_white_space(c: char) -> (yes: bool)
    ensures
        yes == white_space(c),
{
    ('\u{9}' <= c && c <= '\u{d}') || c == '\u{20}' || c == '\u{85}' || c == '\u{a0}' || c
        == '\u{1680}' || ('\u{2000}' <= c && c <= '\u{200a}') || c == '\u{2028}' || c
        == '\u{2029}' || c == '\u{202f}' || c == '\u{205f}' || c == '\u{3000}'
}

/// Whether `s` holds nothing but white space.
pub open spec fn blank(s: Seq<char>) -> bool {
    forall|i: int| 0 <= i < s.len() ==> white_space(#[trigger] s[i])
}

/// Tells whether `s` is blank.
pub fn is_blank(s: &[char]) -> (yes: bool)
    ensures
        yes == blank(s@),
{
    let mut i: usize = 0;
    while i < s.len()
        invariant
            i <= s.len(),
            blank(s@.take(i as int)),
        decreases s.len() - i,
    {
        if !is_white_space(s[i]) {
            assert(!white_space(s@[i as int]));
            return false;
        }
        assert(s@.take(i + 1) == s@.take(i as int).push(s@[i as int]));
        i += 1;
    }
    assert(s@.take(i as int) == s@);
    true
}

/// What parts words from each other.
#[derive(Debug, Clone, Copy, PartialEq, Eq, Structural)]
pub enum Gap {
    /// Any white space.
    WhiteSpace,
    /// Spaces and tabs only.
    SpaceOrTab,
}

impl Gap {
    /// Whether `c` lies in a gap.
    pub open spec fn holds(self, c: char) -> bool {
        match self {
            Gap::WhiteSpace => white_space(c),
            Gap::SpaceOrTab => c == ' ' || c == '\t',
        }
    }

    /// Tells whether `c` lies in a gap.
    pub fn contains(self, c: char) -> (yes: bool)
        ensures
            yes == self.holds(c),
    {
        match self {
            Gap::WhiteSpace => is_white_space(c),
            Gap::SpaceOrTab => c == ' ' || c == '\t',
        }
    }
}

/// How many characters at the start of `s` come before the first that lies in a gap.
pub open spec fn word_len(s: Seq<char>, gap: Gap) -> nat
    decreases s.len(),
{
    if s.len() == 0 || gap.holds(s[0]) {
        0
    } else {
        1 + word_len(s.drop_first(), gap)
    }
}

/// A word is no longer than the text it begins.
pub proof fn lemma_word_len(s: Seq<char>, gap: Gap)
    ensures
        word_len(s, gap) <= s.len(),
        forall|i: int| 0 <= i < word_len(s, gap) ==> !gap.holds(#[trigger] s[i]),
        word_len(s, gap) < s.len() ==> gap.holds(s[word_len(s, gap) as int]),
    decreases s.len(),
{
    if s.len() != 0 && !gap.holds(s[0]) {
        lemma_word_len(s.drop_first(), gap);
        assert forall|i: int| 0 <= i < word_len(s, gap) implies !gap.holds(#[trigger] s[i]) by {
            if i > 0 {
                assert(s[i] == s.drop_first()[i - 1]);
            }
        }
    }
}

/// The maximal runs of characters outside gaps, in order.
pub open spec fn words(s: Seq<char>, gap: Gap) -> Seq<Seq<char>>
    decreases s.len(),
{
    if s.len() == 0 {
        Seq::empty()
    } else if gap.holds(s[0]) {
        words(s.drop_first(), gap)
    } else {
        let n = 1 + word_len(s.drop_first(), gap);
        proof {
            lemma_word_len(s.drop_first(), gap);
        }
        seq![s.take(n as int)] + words(s.skip(n as int), gap)
    }
}

/// The texts held by a vector of character vectors.
pub open spec fn views(v: Seq<Vec<char>>) -> Seq<Seq<char>> {
    v.map_values(|w: Vec<char>| w@)
}

/// Appending a vector appends its text.
pub proof fn lemma_views_push(v: Seq<Vec<char>>, w: Vec<char>)
    ensures
        views(v.push(w)) == views(v).push(w@),
{
}

/// Copies the characters `from..to` of `s`.
pub fn slice_of(s: &[char], from: usize, to: usize) -> (out: Vec<char>)
    requires
        from <= to <= s.len(),
    ensures
        out@ == s@.subrange(from as int, to as int),
{
    let mut out: Vec<char> = Vec::new();
    let mut i: usize = from;
    while i < to
        invariant
            from <= i <= to <= s.len(),
            out@ == s@.subrange(from as int, i as int),
        decreases to - i,
    {
        out.push(s[i]);
        i += 1;
    }
    out
}

/// Splits `s` into its words. With gaps of any white space, that is what
/// `str::split_whitespace` does.
pub fn split_words(s: &[char], gap: Gap) -> (out: Vec<Vec<char>>)
    ensures
        views(out@) == words(s@, gap),
{
    let mut out: Vec<Vec<char>> = Vec::new();
    let mut i: usize = 0;
    assert(s@.skip(0) == s@);
    while i < s.len()
        invariant
            i <= s.len(),
            views(out@) + words(s@.skip(i as int), gap) == words(s@, gap),
        decreases s.len() - i,
    {
        let ghost rest = s@.skip(i as int);
        if gap.contains(s[i]) {
            assert(rest.drop_first() == s@.skip(i + 1));
            i += 1;
        } else {
            let start = i;
            i += 1;
            assert(rest.drop_first() == s@.skip(i as int));
            while i < s.len() && !gap.contains(s[i])
                invariant
                    start < i <= s.len(),
                    rest == s@.skip(start as int),
                    word_len(rest.drop_first(), gap) == (i - start - 1) + word_len(
                        s@.skip(i as int),
                        gap,
                    ),
                decreases s.len() - i,
            {
                assert(s@.skip(i as int).drop_first() == s@.skip(i + 1));
                i += 1;
            }
            let word = slice_of(s, start, i);
            proof {
                assert(word@ == rest.take(i - start));
                assert(rest.skip(i - start) == s@.skip(i as int));
                lemma_views_push(out@, word);
                assert(views(out@) + (seq![word@] + words(s@.skip(i as int), gap)) == views(out@).push(
                    word@,
                ) + words(s@.skip(i as int), gap));
            }
            out.push(word);
        }
    }
    assert(s@.skip(i as int) == Seq::<char>::empty());
    assert(views(out@) + Seq::<Seq<char>>::empty() == views(out@));
    out
}

/// How many characters of `s` come before its first line feed, or all of them.
pub open spec fn line_len(s: Seq<char>) -> nat
    decreases s.len(),
{
    if s.len() == 0 || s[0] == '\n' {
        0
    } else {
        1 + line_len(s.drop_first())
    }
}

/// A line is no longer than the text it begins, and ends at a line feed or with the text.
pub proof fn lemma_line_len(s: Seq<char>)
    ensures
        line_len(s) <= s.len(),
        forall|i: int| 0 <= i < line_len(s) ==> #[trigger] s[i] != '\n',
        line_len(s) < s.len() ==> s[line_len(s) as int] == '\n',
    decreases s.len(),
{
    if s.len() != 0 && s[0] != '\n' {
        lemma_line_len(s.drop_first());
        assert forall|i: int| 0 <= i < line_len(s) implies #[trigger] s[i] != '\n' by {
            if i > 0 {
                assert(s[i] == s.drop_first()[i - 1]);
            }
        }
    }
}

/// `s` without a carriage return at its end.
pub open spec fn strip_cr(s: Seq<char>) -> Seq<char> {
    if s.len() > 0 && s.last() == '\r' {
        s.drop_last()
    } else {
        s
    }
}

/// The lines of `s`: it is cut after each line feed, and the line ending, `\n` or `\r\n`, is
/// dropped. The last line may lack its ending, and then keeps a carriage return at its end.
pub open spec fn lines(s: Seq<char>) -> Seq<Seq<char>>
    decreases s.len(),
{
    if s.len() == 0 {
        Seq::empty()
    } else {
        let n = line_len(s);
        proof {
            lemma_line_len(s);
        }
        if n >= s.len() {
            seq![s]
        } else {
            seq![strip_cr(s.take(n as int))] + lines(s.skip(n as int + 1))
        }
    }
}

/// Splits `s` into its lines, as `str::lines` does.
pub fn split_lines(s: &[char]) -> (out: Vec<Vec<char>>)
    ensures
        views(out@) == lines(s@),
{
    let mut out: Vec<Vec<char>> = Vec::new();
    let mut i: usize = 0;
    assert(s@.skip(0) == s@);
    while i < s.len()
        invariant
            i <= s.len(),
            views(out@) + lines(s@.skip(i as int)) == lines(s@),
        decreases s.len() - i,
    {
        let ghost rest = s@.skip(i as int);
        let start = i;
        while i < s.len() && s[i] != '\n'
            invariant
                start <= i <= s.len(),
                rest == s@.skip(start as int),
                line_len(rest) == (i - start) + line_len(s@.skip(i as int)),
            decreases s.len() - i,
        {
            assert(s@.skip(i as int).drop_first() == s@.skip(i + 1));
            i += 1;
        }
        assert(line_len(rest) == i - start);
        if i == s.len() {
            let line = slice_of(s, start, i);
            proof {
                assert(line@ == rest);
                lemma_views_push(out@, line);
                assert(lines(s@.skip(i as int)) == Seq::<Seq<char>>::empty());
                assert(views(out@) + seq![line@] == views(out@).push(line@) + lines(
                    s@.skip(i as int),
                ));
            }
            out.push(line);
        } else {
            let end = if i > start && s[i - 1] == '\r' {
                i - 1
            } else {
                i
            };
            let line = slice_of(s, start, end);
            proof {
                assert(line@ == strip_cr(rest.take(i - start)));
                assert(rest.skip(i - start + 1) == s@.skip(i + 1));
                lemma_views_push(out@, line);
                assert(views(out@) + (seq![line@] + lines(s@.skip(i + 1))) == views(out@).push(
                    line@,
                ) + lines(s@.skip(i + 1)));
            }
            out.push(line);
            i += 1;
        }
    }
    assert(s@.skip(i as int) == Seq::<char>::empty());
    assert(views(out@) + Seq::<Seq<char>>::empty() == views(out@));
    out
}

/// Whether `pattern` stands in `s` at position `i`.
pub open spec fn occurs_at(s: Seq<char>, pattern: Seq<char>, i: int) -> bool {
    0 <= i && i + pattern.len() <= s.len() && s.subrange(i, i + pattern.len()) == pattern
}

/// Whether the first place where `pattern` stands in `s` is position `i`.
pub open spec fn first_at(s: Seq<char>, pattern: Seq<char>, i: int) -> bool {
    occurs_at(s, pattern, i) && forall|j: int| 0 <= j < i ==> !occurs_at(s, pattern, j)
}

/// What comes before and after the first `pattern` in `s`, if there is one.
pub open spec fn split_once(s: Seq<char>, pattern: Seq<char>) -> Option<(Seq<char>, Seq<char>)> {
    if exists|i: int| first_at(s, pattern, i) {
        let i = choose|i: int| first_at(s, pattern, i);
        Some((s.take(i), s.skip(i + pattern.len())))
    } else {
        None
    }
}

/// Tells whether `pattern` stands in `s` at position `at`.
pub fn matches_at(s: &[char], pattern: &[char], at: usize) -> (yes: bool)
    requires
        at <= s.len(),
    ensures
        yes == occurs_at(s@, pattern@, at as int),
{
    if pattern.len() > s.len() - at {
        return false;
    }
    let mut i: usize = 0;
    while i < pattern.len()
        invariant
            i <= pattern.len(),
            at + pattern.len() <= s.len(),
            forall|j: int| 0 <= j < i ==> s@[at + j] == #[trigger] pattern@[j],
        decreases pattern.len() - i,
    {
        if s[at + i] != pattern[i] {
            assert(s@.subrange(at as int, at + pattern@.len())[i as int] != pattern@[i as int]);
            return false;
        }
        i += 1;
    }
    assert(s@.subrange(at as int, at + pattern@.len()) == pattern@);
    true
}

/// Splits `s` at the first `pattern`, as `str::split_once` does.
pub fn cut_once(s: &[char], pattern: &[char]) -> (out: Option<(Vec<char>, Vec<char>)>)
    ensures
        match out {
            Some(parts) => split_once(s@, pattern@) == Some((parts.0@, parts.1@)),
            None => split_once(s@, pattern@) is None,
        },
{
    let mut i: usize = 0;
    while i < s.len()
        invariant
            i <= s.len(),
            forall|j: int| 0 <= j < i ==> !occurs_at(s@, pattern@, j),
        decreases s.len() - i,
    {
        if matches_at(s, pattern, i) {
            assert(first_at(s@, pattern@, i as int));
            let before = slice_of(s, 0, i);
            let after = slice_of(s, i + pattern.len(), s.len());
            assert(before@ == s@.take(i as int));
            assert(after@ == s@.skip(i + pattern@.len()));
            return Some((before, after));
        }
        i += 1;
    }
    if matches_at(s, pattern, i) {
        assert(first_at(s@, pattern@, i as int));
        let before = slice_of(s, 0, i);
        let after: Vec<char> = Vec::new();
        assert(before@ == s@.take(i as int));
        assert(after@ == s@.skip(i + pattern@.len()));
        return Some((before, after));
    }
    assert(forall|j: int| !first_at(s@, pattern@, j));
    None
}

/// What follows `prefix` in `s`, if `s` begins with it.
pub open spec fn after_prefix(s: Seq<char>, prefix: Seq<char>) -> Option<Seq<char>> {
    if occurs_at(s, prefix, 0) {
        Some(s.skip(prefix.len() as int))
    } else {
        None
    }
}

/// Removes `prefix` from the start of `s`, as `str::strip_prefix` does.
pub fn cut_prefix(s: &[char], prefix: &[char]) -> (out: Option<Vec<char>>)
    ensures
        match out {
            Some(rest) => after_prefix(s@, prefix@) == Some(rest@),
            None => after_prefix(s@, prefix@) is None,
        },
{
    if matches_at(s, prefix, 0) {
        let rest = slice_of(s, prefix.len(), s.len());
        assert(rest@ == s@.skip(prefix@.len() as int));
        Some(rest)
    } else {
        None
    }
}

/// Whether `c` is one of the ASCII decimal digits.
pub open spec fn decimal_digit(c: char) -> bool {
    '0' <= c <= '9'
}

/// The number that decimal digits denote, the most significant first.
pub open spec fn digits_value(s: Seq<char>) -> nat
    decreases s.len(),
{
    if s.len() == 0 {
        0
    } else {
        10 * digits_value(s.drop_last()) + (s.last() as nat - '0' as nat) as nat
    }
}

/// `s` without a plus sign at its start.
pub open spec fn unsigned(s: Seq<char>) -> Seq<char> {
    if s.len() > 0 && s[0] == '+' {
        s.drop_first()
    } else {
        s
    }
}

/// The number that `s` denotes as an unsigned 64-bit integer: an optional plus sign, then
/// decimal digits only and at least one of them, with a value that fits.
pub open spec fn number(s: Seq<char>) -> Option<u64> {
    let digits = unsigned(s);
    if digits.len() > 0 && (forall|i: int|
        0 <= i < digits.len() ==> decimal_digit(#[trigger] digits[i])) && digits_value(digits)
        <= u64::MAX {
        Some(digits_value(digits) as u64)
    } else {
        None
    }
}

/// A longer run of digits denotes no smaller a number.
proof fn lemma_digits_value_grows(s: Seq<char>, n: int)
    requires
        0 <= n <= s.len(),
        forall|i: int| 0 <= i < s.len() ==> decimal_digit(#[trigger] s[i]),
    ensures
        digits_value(s.take(n)) <= digits_value(s),
    decreases s.len() - n,
{
    if n == s.len() {
        assert(s.take(n) == s);
    } else {
        assert(s.take(n + 1).drop_last() == s.take(n));
        lemma_digits_value_grows(s, n + 1);
    }
}

/// Reads `s` as an unsigned 64-bit integer, as `str::parse` does.
pub fn parse_number(s: &[char]) -> (out: Option<u64>)
    ensures
        out == number(s@),
{
    let start: usize = if s.len() > 0 && s[0] == '+' {
        1
    } else {
        0
    };
    let ghost digits = unsigned(s@);
    assert(digits == s@.skip(start as int));
    if start == s.len() {
        return None;
    }
    let mut i: usize = start;
    while i < s.len()
        invariant
            start <= i <= s.len(),
            digits == s@.skip(start as int),
            digits == unsigned(s@),
            forall|j: int| 0 <= j < i - start ==> decimal_digit(#[trigger] digits[j]),
        decreases s.len() - i,
    {
        if !('0' <= s[i] && s[i] <= '9') {
            assert(!decimal_digit(digits[i - start]));
            return None;
        }
        i += 1;
    }
    let mut value: u64 = 0;
    i = start;
    while i < s.len()
        invariant
            start <= i <= s.len(),
            digits == s@.skip(start as int),
            digits == unsigned(s@),
            forall|j: int| 0 <= j < digits.len() ==> decimal_digit(#[trigger] digits[j]),
            value == digits_value(digits.take(i - start)),
        decreases s.len() - i,
    {
        let ghost k = i - start;
        assert(digits[k] == s@[i as int]);
        let digit: u64 = s[i] as u64 - '0' as u64;
        proof {
            assert(digits.take(k + 1).drop_last() == digits.take(k));
            lemma_digits_value_grows(digits, k + 1);
        }
        if value > (u64::MAX - digit) / 10 {
            return None;
        }
        value = value * 10 + digit;
        i += 1;
    }
    assert(digits.take(i - start) == digits);
    Some(value)
}

/// The digit, decimal or hexadecimal, that stands for `d`.
pub open spec fn digit_char(d: nat) -> char {
    if d < 10 {
        ('0' as nat + d) as char
    } else {
        ('a' as nat + (d - 10)) as char
    }
}

/// Gives the digit that stands for `d`.
pub fn digit_of(d: u8) -> (c: char)
    requires
        d < 16,
    ensures
        c == digit_char(d as nat),
{
    if d < 10 {
        (48u8 + d) as char
    } else {
        (97u8 + (d - 10)) as char
    }
}

/// `n` in decimal, without leading zeros.
pub open spec fn decimal(n: nat) -> Seq<char>
    decreases n,
{
    if n < 10 {
        seq![digit_char(n)]
    } else {
        decimal(n / 10).push(digit_char(n % 10))
    }
}

/// Writes `n` in decimal.
pub fn decimal_of(n: u64) -> (out: String)
    ensures
        out@ == decimal(n as nat),
    decreases n,
{
    let mut out = if n < 10 {
        String::new()
    } else {
        decimal_of(n / 10)
    };
    out.push(digit_of((n % 10) as u8));
    out
}

/// The last `width` hexadecimal digits of `n`, with leading zeros.
pub open spec fn hex(n: nat, width: nat) -> Seq<char>
    decreases width,
{
    if width == 0 {
        Seq::empty()
    } else {
        hex(n / 16, (width - 1) as nat).push(digit_char(n % 16))
    }
}

/// Writes the last `width` hexadecimal digits of `n`.
pub fn hex_of(n: u64, width: u8) -> (out: String)
    ensures
        out@ == hex(n as nat, width as nat),
    decreases width,
{
    if width == 0 {
        String::new()
    } else {
        let mut out = hex_of(n / 16, width - 1);
        out.push(digit_of((n % 16) as u8));
        out
    }
}

/// The number `0` or `1` that stands for a flag.
pub open spec fn flag(b: bool) -> Seq<char> {
    decimal(if b {
        1
    } else {
        0
    })
}

/// Writes a flag as a number.
pub fn flag_of(b: bool) -> (out: String)
    ensures
        out@ == flag(b),
{
    decimal_of(
        if b {
            1
        } else {
            0
        },
    )
}

/// What the decimal digits of a number are, and what they denote.
pub proof fn lemma_decimal(n: nat)
    ensures
        decimal(n).len() > 0,
        forall|i: int| 0 <= i < decimal(n).len() ==> decimal_digit(#[trigger] decimal(n)[i]),
        digits_value(decimal(n)) == n,
    decreases n,
{
    if n < 10 {
        assert(decimal(n).drop_last() == Seq::<char>::empty());
        reveal_with_fuel(digits_value, 2);
    } else {
        lemma_decimal(n / 10);
        assert(decimal(n).drop_last() == decimal(n / 10));
        assert forall|i: int| 0 <= i < decimal(n).len() implies decimal_digit(
            #[trigger] decimal(n)[i],
        ) by {
            if i < decimal(n).len() - 1 {
                assert(decimal(n)[i] == decimal(n / 10)[i]);
            }
        }
    }
}

/// Reading back what was written gives the number that was written.
pub proof fn decimal_reads_back(n: u64)
    ensures
        number(decimal(n as nat)) == Some(n),
{
    lemma_decimal(n as nat);
    assert(decimal_digit(decimal(n as nat)[0]));
}

/// `s` from its first character that is not white space on.
pub open spec fn trim_start(s: Seq<char>) -> Seq<char>
    decreases s.len(),
{
    if s.len() > 0 && white_space(s[0]) {
        trim_start(s.drop_first())
    } else {
        s
    }
}

/// `s` up to its last character that is not white space.
pub open spec fn trim_end(s: Seq<char>) -> Seq<char>
    decreases s.len(),
{
    if s.len() > 0 && white_space(s.last()) {
        trim_end(s.drop_last())
    } else {
        s
    }
}

/// `s` without the white space at its ends.
pub open spec fn trimmed(s: Seq<char>) -> Seq<char> {
    trim_end(trim_start(s))
}

/// Removes the white space at both ends of `s`, as `str::trim` does.
pub fn trim(s: &str) -> (out: String)
    ensures
        out@ == trimmed(s@),
{
    let chars = chars_of(s);
    let mut from: usize = 0;
    assert(chars@.skip(0) == chars@);
    while from < chars.len() && is_white_space(chars[from])
        invariant
            from <= chars.len(),
            trim_start(chars@) == trim_start(chars@.skip(from as int)),
        decreases chars.len() - from,
    {
        assert(chars@.skip(from as int).drop_first() == chars@.skip(from + 1));
        from += 1;
    }
    let ghost rest = chars@.skip(from as int);
    assert(trim_start(chars@) == rest);
    let mut to: usize = chars.len();
    assert(chars@.subrange(from as int, to as int) == rest);
    while to > from && is_white_space(chars[to - 1])
        invariant
            from <= to <= chars.len(),
            trim_end(rest) == trim_end(chars@.subrange(from as int, to as int)),
        decreases to,
    {
        assert(chars@.subrange(from as int, to as int).drop_last() == chars@.subrange(
            from as int,
            to - 1,
        ));
        to -= 1;
    }
    let kept = slice_of(chars.as_slice(), from, to);
    string_of(kept.as_slice())
}

/// Tells whether two texts are equal.
pub fn same(a: &str, b: &str) -> (yes: bool)
    ensures
        yes == (a@ == b@),
{
    a.to_owned() == b.to_owned()
}

} // verus!

//! Laws of plain text: how what is taken apart relates to its parts, and what is written to what
//! it denotes. Characters are told by their code points.

use crate::text;
use crate::text::Gap;
use vstd::prelude::*;
use vstd::utf8::*;

verus! {

/// Whether `c` is one of the code points that Unicode lists as white space.
pub open spec fn unicode_space(c: char) -> bool {
    let code = c as int;
    ||| 9 <= code <= 13
    ||| code == 32 || code == 133 || code == 160 || code == 5760
    ||| 8192 <= code <= 8202
    ||| code == 8232 || code == 8233 || code == 8239 || code == 8287 || code == 12288
}

/// White space is what Unicode lists as such; in a line of fields only space and tab part words.
pub proof fn gaps_are_by_code_point(c: char)
    ensures
        text::white_space(c) <==> unicode_space(c),
        Gap::WhiteSpace.holds(c) <==> unicode_space(c),
        Gap::SpaceOrTab.holds(c) <==> c as int == 32 || c as int == 9,
{
}

/// A text is blank exactly where all of it is white space.
pub proof fn blank_is_all_white_space(s: Seq<char>)
    ensures
        text::blank(s) <==> forall|i: int| 0 <= i < s.len() ==> unicode_space(#[trigger] s[i]),
{
    if text::blank(s) {
        assert forall|i: int| 0 <= i < s.len() implies unicode_space(#[trigger] s[i]) by {
            assert(text::white_space(s[i]));
        }
    }
}

/// The length of a word that a gap or the end of the text follows.
proof fn lemma_word(w: Seq<char>, rest: Seq<char>, gap: Gap)
    requires
        forall|i: int| 0 <= i < w.len() ==> !gap.holds(#[trigger] w[i]),
        rest.len() > 0 ==> gap.holds(rest[0]),
    ensures
        text::word_len(w + rest, gap) == w.len(),
    decreases w.len(),
{
    if w.len() == 0 {
        assert(w + rest == rest);
    } else {
        assert((w + rest)[0] == w[0]);
        assert((w + rest).drop_first() == w.drop_first() + rest);
        lemma_word(w.drop_first(), rest, gap);
    }
}

/// Text is put together from words and gaps: a gap adds no word, wherever it stands, and a run of
/// other characters up to a gap or the end is one word.
pub proof fn words_are_what_gaps_part(w: Seq<char>, g: char, rest: Seq<char>, gap: Gap)
    requires
        w.len() > 0,
        forall|i: int| 0 <= i < w.len() ==> !gap.holds(#[trigger] w[i]),
        gap.holds(g),
    ensures
        text::words(Seq::<char>::empty(), gap) == Seq::<Seq<char>>::empty(),
        text::words(seq![g] + rest, gap) == text::words(rest, gap),
        text::words(w, gap) == seq![w],
        text::words(w + seq![g] + rest, gap) == seq![w] + text::words(rest, gap),
{
    let tail = seq![g] + rest;
    assert(tail.drop_first() == rest);
    lemma_word(w.drop_first(), Seq::empty(), gap);
    assert(w.drop_first() + Seq::<char>::empty() == w.drop_first());
    assert(w.take(w.len() as int) == w);
    assert(w.skip(w.len() as int) == Seq::<char>::empty());
    assert(!gap.holds(w[0]));
    assert(text::words(Seq::<char>::empty(), gap) == Seq::<Seq<char>>::empty());
    let n: nat = 1 + text::word_len(w.drop_first(), gap);
    assert(n == w.len());
    assert(text::words(w, gap) == seq![w.take(n as int)] + text::words(w.skip(n as int), gap));
    assert(seq![w] + Seq::<Seq<char>>::empty() == seq![w]);
    let s = w + seq![g] + rest;
    assert(s == w + tail);
    assert(s[0] == w[0]);
    assert(s.drop_first() == w.drop_first() + tail);
    lemma_word(w.drop_first(), tail, gap);
    assert(s.take(w.len() as int) == w);
    assert(s.skip(w.len() as int) == tail);
}

/// The length of a line that a line feed or the end of the text follows.
proof fn lemma_line(l: Seq<char>, rest: Seq<char>)
    requires
        forall|i: int| 0 <= i < l.len() ==> #[trigger] l[i] != '\n',
        rest.len() > 0 ==> rest[0] == '\n',
    ensures
        text::line_len(l + rest) == l.len(),
    decreases l.len(),
{
    if l.len() == 0 {
        assert(l + rest == rest);
    } else {
        assert((l + rest)[0] == l[0]);
        assert((l + rest).drop_first() == l.drop_first() + rest);
        lemma_line(l.drop_first(), rest);
    }
}

/// A line feed ends a line, and takes a carriage return before it along; what follows the last
/// line feed is a line if it is not empty.
pub proof fn lines_are_what_line_feeds_end(l: Seq<char>, rest: Seq<char>)
    requires
        forall|i: int| 0 <= i < l.len() ==> #[trigger] l[i] != '\n',
    ensures
        text::lines(Seq::<char>::empty()) == Seq::<Seq<char>>::empty(),
        l.len() > 0 ==> text::lines(l) == seq![l],
        text::lines(l + seq!['\r', '\n'] + rest) == seq![l] + text::lines(rest),
        l.len() == 0 || l[l.len() - 1] != '\r' ==> text::lines(l + seq!['\n'] + rest) == seq![l]
            + text::lines(rest),
{
    assert(l + Seq::<char>::empty() == l);
    lemma_line(l, Seq::empty());
    let tail = seq!['\n'] + rest;
    let s = l + seq!['\n'] + rest;
    assert(s == l + tail);
    lemma_line(l, tail);
    assert(s.take(l.len() as int) == l);
    assert(s.skip(l.len() as int + 1) == rest);
    let longer = l.push('\r');
    let t = l + seq!['\r', '\n'] + rest;
    assert(t == longer + tail);
    lemma_line(longer, tail);
    assert(t.take(longer.len() as int) == longer);
    assert(t.skip(longer.len() as int + 1) == rest);
    assert(longer.drop_last() == l);
}

/// Whether `pattern` stands in `s` right behind its first `i` characters.
pub open spec fn stands_behind(s: Seq<char>, pattern: Seq<char>, i: int) -> bool {
    exists|front: Seq<char>, back: Seq<char>|
        front.len() == i && s == #[trigger] (front + pattern + back)
}

/// To stand behind some characters is to be the part that follows them.
proof fn lemma_stands(s: Seq<char>, pattern: Seq<char>, i: int)
    ensures
        stands_behind(s, pattern, i) <==> text::occurs_at(s, pattern, i),
{
    if text::occurs_at(s, pattern, i) {
        let front = s.take(i);
        let back = s.skip(i + pattern.len());
        assert(s == front + pattern + back) by {
            assert forall|k: int| 0 <= k < s.len() implies s[k] == (front + pattern + back)[k] by {
                if i <= k < i + pattern.len() {
                    assert(s.subrange(i, i + pattern.len())[k - i] == s[k]);
                }
            }
        }
        assert(front.len() == i);
    }
    if stands_behind(s, pattern, i) {
        let (front, back) = choose|front: Seq<char>, back: Seq<char>|
            front.len() == i && s == #[trigger] (front + pattern + back);
        assert(s.subrange(i, i + pattern.len()) == pattern);
    }
}

/// A pattern that stands somewhere stands somewhere first.
proof fn lemma_first(s: Seq<char>, pattern: Seq<char>, i: int)
    requires
        text::occurs_at(s, pattern, i),
    ensures
        exists|j: int| text::first_at(s, pattern, j),
    decreases i,
{
    if !text::first_at(s, pattern, i) {
        let j = choose|j: int| 0 <= j < i && text::occurs_at(s, pattern, j);
        lemma_first(s, pattern, j);
    }
}

/// A text is divided at the first place where the pattern stands: the parts and the pattern make
/// up the text, and the pattern stands nowhere earlier. It is not divided exactly where the
/// pattern stands nowhere.
pub proof fn text_is_divided_at_the_first_pattern(s: Seq<char>, pattern: Seq<char>)
    ensures
        match text::split_once(s, pattern) {
            Some((front, back)) => {
                &&& s == front + pattern + back
                &&& forall|j: int| 0 <= j < front.len() ==> !stands_behind(s, pattern, j)
            },
            None => forall|j: int| !stands_behind(s, pattern, j),
        },
{
    if exists|i: int| text::first_at(s, pattern, i) {
        let i = choose|i: int| text::first_at(s, pattern, i);
        let (front, back) = text::split_once(s, pattern)->0;
        assert(s == front + pattern + back) by {
            assert forall|k: int| 0 <= k < s.len() implies s[k] == (front + pattern + back)[k] by {
                if i <= k < i + pattern.len() {
                    assert(s.subrange(i, i + pattern.len())[k - i] == s[k]);
                }
            }
        }
        assert forall|j: int| 0 <= j < front.len() implies !stands_behind(s, pattern, j) by {
            lemma_stands(s, pattern, j);
        }
    } else {
        assert forall|j: int| !stands_behind(s, pattern, j) by {
            lemma_stands(s, pattern, j);
            if text::occurs_at(s, pattern, j) {
                lemma_first(s, pattern, j);
            }
        }
    }
}

/// A prefix is taken off where the text begins with it, and only there.
pub proof fn prefix_is_what_a_text_begins_with(s: Seq<char>, prefix: Seq<char>)
    ensures
        text::after_prefix(s, prefix) matches Some(rest) ==> s == prefix + rest,
        text::after_prefix(s, prefix) is None ==> forall|rest: Seq<char>|
            s != #[trigger] (prefix + rest),
{
    if text::occurs_at(s, prefix, 0) {
        let rest = s.skip(prefix.len() as int);
        assert forall|k: int| 0 <= k < s.len() implies s[k] == (prefix + rest)[k] by {
            if k < prefix.len() {
                assert(s.subrange(0, prefix.len() as int)[k] == s[k]);
            }
        }
        assert(s == prefix + rest);
    } else {
        assert forall|rest: Seq<char>| s != #[trigger] (prefix + rest) by {
            if s == prefix + rest {
                assert(s.subrange(0, prefix.len() as int) == prefix);
            }
        }
    }
}

/// Whether `s` is a run of digits, none left out.
pub open spec fn all_digits(s: Seq<char>) -> bool {
    s.len() > 0 && forall|i: int| 0 <= i < s.len() ==> 48 <= (#[trigger] s[i]) as int <= 57
}

/// The number that a run of digits denotes: the first digit counts most.
pub open spec fn denoted(s: Seq<char>) -> nat
    decreases s.len(),
{
    if s.len() == 0 {
        0
    } else {
        (denoted(s.drop_last()) * 10 + (s[s.len() - 1] as int - 48)) as nat
    }
}

/// The two ways to say what digits denote agree.
proof fn lemma_denoted(s: Seq<char>)
    requires
        forall|i: int| 0 <= i < s.len() ==> 48 <= (#[trigger] s[i]) as int <= 57,
    ensures
        denoted(s) == text::digits_value(s),
    decreases s.len(),
{
    if s.len() != 0 {
        assert forall|i: int| 0 <= i < s.drop_last().len() implies 48 <= (
        #[trigger] s.drop_last()[i]) as int <= 57 by {
            assert(s.drop_last()[i] == s[i]);
        }
        lemma_denoted(s.drop_last());
        assert(48 <= s[s.len() - 1] as int <= 57);
    }
}

/// Digits are read as the number they denote, if 64 bits hold it, with or without a plus sign.
pub proof fn digits_are_read_as_they_denote(s: Seq<char>)
    requires
        all_digits(s),
    ensures
        text::number(s) == if denoted(s) <= u64::MAX {
            Some(denoted(s) as u64)
        } else {
            None
        },
        text::number(seq!['+'] + s) == text::number(s),
{
    lemma_denoted(s);
    assert(48 <= s[0] as int <= 57);
    assert forall|i: int| 0 <= i < s.len() implies text::decimal_digit(#[trigger] s[i]) by {
        assert(48 <= s[i] as int <= 57);
    }
    assert((seq!['+'] + s).drop_first() == s);
}

/// Nothing but digits, with or without a plus sign, is read as a number.
pub proof fn only_digits_are_numbers(s: Seq<char>)
    requires
        text::number(s) is Some,
    ensures
        all_digits(s) || exists|digits: Seq<char>|
            all_digits(digits) && s == #[trigger] (seq!['+'] + digits),
{
    let digits = text::unsigned(s);
    assert forall|i: int| 0 <= i < digits.len() implies 48 <= (#[trigger] digits[i]) as int
        <= 57 by {
        assert(text::decimal_digit(digits[i]));
    }
    assert(all_digits(digits));
    if s != digits {
        assert(s == seq!['+'] + digits);
    }
}

/// Whether `s` is how `n` is usually written: digits that denote it, without a zero in front.
pub open spec fn usual(s: Seq<char>, n: nat) -> bool {
    &&& all_digits(s)
    &&& denoted(s) == n
    &&& s.len() > 1 ==> s[0] != '0'
}

/// A number that is not zero is not written with a zero in front.
proof fn lemma_no_leading_zero(n: nat)
    requires
        n > 0,
    ensures
        text::decimal(n)[0] != '0',
    decreases n,
{
    text::lemma_decimal(n);
    if n >= 10 {
        lemma_no_leading_zero(n / 10);
        text::lemma_decimal(n / 10);
        assert(text::decimal(n)[0] == text::decimal(n / 10)[0]);
    }
}

/// Numbers are written in the usual way, and flags as 1 and 0.
pub proof fn numbers_are_written_as_usual(n: nat)
    ensures
        usual(text::decimal(n), n),
        text::flag(true) == seq!['1'],
        text::flag(false) == seq!['0'],
{
    text::lemma_decimal(n);
    let s = text::decimal(n);
    assert forall|i: int| 0 <= i < s.len() implies 48 <= (#[trigger] s[i]) as int <= 57 by {
        assert(text::decimal_digit(s[i]));
    }
    lemma_denoted(s);
    if n > 0 {
        lemma_no_leading_zero(n);
    }
}

/// There is one usual way to write a number.
pub proof fn usual_is_unique(s: Seq<char>, t: Seq<char>, n: nat)
    requires
        usual(s, n),
        usual(t, n),
    ensures
        s == t,
    decreases s.len(),
{
    lemma_lengths(s);
    lemma_lengths(t);
    let a = s.drop_last();
    let b = t.drop_last();
    let x = s[s.len() - 1] as int - 48;
    let y = t[t.len() - 1] as int - 48;
    assert(48 <= s[s.len() - 1] as int <= 57 && 48 <= t[t.len() - 1] as int <= 57);
    assert(denoted(a) == denoted(b) && x == y) by {
        assert(denoted(a) * 10 + x == denoted(b) * 10 + y);
    }
    assert(s == a.push(s[s.len() - 1]));
    assert(t == b.push(t[t.len() - 1]));
    if a.len() > 0 {
        lemma_front(s);
    }
    if b.len() > 0 {
        lemma_front(t);
    }
    if a.len() > 0 && b.len() > 0 {
        usual_is_unique(a, b, denoted(a));
    } else {
        assert(a.len() == 0 && b.len() == 0) by {
            if a.len() > 0 {
                lemma_lengths(a);
            }
            if b.len() > 0 {
                lemma_lengths(b);
            }
        }
        assert(a == b);
    }
}

/// All but the last of the usual digits are usual digits.
proof fn lemma_front(s: Seq<char>)
    requires
        all_digits(s),
        s.len() > 1,
        s[0] != '0',
    ensures
        usual(s.drop_last(), denoted(s.drop_last())),
        s.drop_last()[0] != '0',
{
    let a = s.drop_last();
    assert forall|i: int| 0 <= i < a.len() implies 48 <= (#[trigger] a[i]) as int <= 57 by {
        assert(a[i] == s[i]);
    }
}

/// Digits without a zero in front denote no zero.
proof fn lemma_lengths(s: Seq<char>)
    requires
        all_digits(s),
    ensures
        s[0] != '0' ==> denoted(s) > 0,
    decreases s.len(),
{
    assert(48 <= s[0] as int <= 57);
    assert(48 <= s[s.len() - 1] as int <= 57);
    if s.len() > 1 && s[0] != '0' {
        lemma_front(s);
        lemma_lengths(s.drop_last());
    } else if s.len() == 1 {
        assert(s.drop_last() == Seq::<char>::empty());
        assert(denoted(s.drop_last()) == 0);
    }
}

/// The number that a hexadecimal digit stands for: `0` to `9`, then `a` to `f`.
pub open spec fn hex_digit(c: char) -> int {
    if c as int <= 57 {
        c as int - 48
    } else {
        c as int - 97 + 10
    }
}

/// The digits that a number is written with to the base 16, the last one told by the remainder.
pub proof fn hexadecimal_digits_are_remainders(n: nat, width: nat)
    ensures
        text::hex(n, width).len() == width,
        width > 0 ==> {
            let s = text::hex(n, width);
            let c = s[width - 1];
            &&& 48 <= c as int <= 57 || 97 <= c as int <= 102
            &&& hex_digit(c) == n % 16
            &&& s.drop_last() == text::hex(n / 16, (width - 1) as nat)
        },
    decreases width,
{
    if width > 0 {
        hexadecimal_digits_are_remainders(n / 16, (width - 1) as nat);
        assert(text::hex(n, width).drop_last() == text::hex(n / 16, (width - 1) as nat));
    }
}

/// What stands between white space is what is left, if it neither begins nor ends with any;
/// where there is nothing but white space, nothing is left.
pub proof fn trimming_takes_the_white_space_at_the_ends(
    front: Seq<char>,
    kept: Seq<char>,
    back: Seq<char>,
)
    requires
        forall|i: int| 0 <= i < front.len() ==> unicode_space(#[trigger] front[i]),
        forall|i: int| 0 <= i < back.len() ==> unicode_space(#[trigger] back[i]),
        kept.len() > 0 ==> !unicode_space(kept[0]) && !unicode_space(kept[kept.len() - 1]),
    ensures
        text::trimmed(front + kept + back) == kept,
{
    let rest = kept + back;
    assert(front + kept + back == front + rest);
    if kept.len() == 0 {
        let all = front + back;
        assert(front + rest == all + Seq::<char>::empty());
        assert forall|i: int| 0 <= i < all.len() implies unicode_space(#[trigger] all[i]) by {
            if i < front.len() {
                assert(all[i] == front[i]);
            } else {
                assert(all[i] == back[i - front.len()]);
            }
        }
        lemma_trim_start(all, Seq::empty());
        assert(kept == Seq::<char>::empty());
    } else {
        assert(rest[0] == kept[0]);
        lemma_trim_start(front, rest);
        lemma_trim_end(kept, back);
    }
}

/// White space at the start is taken off.
proof fn lemma_trim_start(front: Seq<char>, rest: Seq<char>)
    requires
        forall|i: int| 0 <= i < front.len() ==> unicode_space(#[trigger] front[i]),
        rest.len() > 0 ==> !unicode_space(rest[0]),
    ensures
        text::trim_start(front + rest) == rest,
    decreases front.len(),
{
    let s = front + rest;
    if front.len() == 0 {
        assert(s == rest);
    } else {
        let shorter = front.drop_first();
        assert(s[0] == front[0]);
        assert(unicode_space(front[0]));
        assert(s.drop_first() == shorter + rest);
        assert forall|i: int| 0 <= i < shorter.len() implies unicode_space(
            #[trigger] shorter[i],
        ) by {
            assert(shorter[i] == front[i + 1]);
        }
        lemma_trim_start(shorter, rest);
    }
}

/// White space at the end is taken off.
proof fn lemma_trim_end(kept: Seq<char>, back: Seq<char>)
    requires
        forall|i: int| 0 <= i < back.len() ==> unicode_space(#[trigger] back[i]),
        kept.len() > 0,
        !unicode_space(kept[kept.len() - 1]),
    ensures
        text::trim_end(kept + back) == kept,
    decreases back.len(),
{
    let s = kept + back;
    if back.len() == 0 {
        assert(s == kept);
    } else {
        let shorter = back.drop_last();
        assert(s.last() == back[back.len() - 1]);
        assert(unicode_space(back[back.len() - 1]));
        assert(s.drop_last() == kept + shorter);
        assert forall|i: int| 0 <= i < shorter.len() implies unicode_space(
            #[trigger] shorter[i],
        ) by {
            assert(shorter[i] == back[i]);
        }
        lemma_trim_end(kept, shorter);
    }
}

/// Bytes that encode a text stand for it, and only they do without being repaired.
pub proof fn bytes_stand_for_the_text_they_encode(s: Seq<char>, bytes: Seq<u8>)
    ensures
        text::lossy(encode_utf8(s)) == s,
        !valid_utf8(bytes) ==> text::lossy(bytes) == text::repaired_utf8(bytes),
{
    encode_utf8_decode_utf8(s);
    encode_utf8_valid_utf8(s);
}

/// The texts of strings are those of each, in order.
pub proof fn texts_are_one_by_one(v: Seq<String>)
    ensures
        text::texts(v).len() == v.len(),
        forall|i: int| 0 <= i < v.len() ==> #[trigger] text::texts(v)[i] == v[i]@,
{
}

} // verus!

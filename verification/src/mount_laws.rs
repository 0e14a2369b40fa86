//! Laws of the mountinfo reader: what it makes of the lines that the kernel writes.

use crate::mounts;
use crate::mounts::{
    Finding, Identity, MountError, MountExpectation, MountIdentity, MountTable, MountVerdict,
};
use crate::text;
use crate::text::Gap;
use vstd::prelude::*;
use vstd::utf8::*;

verus! {

/// How the kernel writes one character of a name: space, tab, newline and backslash as a
/// backslash and three octal digits, any other character as it is.
pub open spec fn kernel_char(c: char) -> Seq<char> {
    if c == ' ' {
        seq!['\\', '0', '4', '0']
    } else if c == '\t' {
        seq!['\\', '0', '1', '1']
    } else if c == '\n' {
        seq!['\\', '0', '1', '2']
    } else if c == '\\' {
        seq!['\\', '1', '3', '4']
    } else {
        seq![c]
    }
}

/// How the kernel writes a name as a mountinfo field.
pub open spec fn kernel_escaped(name: Seq<char>) -> Seq<char>
    decreases name.len(),
{
    if name.len() == 0 {
        Seq::empty()
    } else {
        kernel_char(name[0]) + kernel_escaped(name.drop_first())
    }
}

/// The encoding of two texts in a row is their encodings in a row.
proof fn lemma_encode_concat(a: Seq<char>, b: Seq<char>)
    ensures
        encode_utf8(a + b) == encode_utf8(a) + encode_utf8(b),
    decreases a.len(),
{
    if a.len() == 0 {
        assert(a + b == b);
        assert(encode_utf8(a) + encode_utf8(b) == encode_utf8(b));
    } else {
        assert((a + b).drop_first() == a.drop_first() + b);
        lemma_encode_concat(a.drop_first(), b);
        let first = encode_scalar(a[0] as u32);
        assert(first + (encode_utf8(a.drop_first()) + encode_utf8(b)) == (first + encode_utf8(
            a.drop_first(),
        )) + encode_utf8(b));
    }
}

/// No byte of the encoding of a character other than the backslash is a backslash.
proof fn lemma_no_backslash(c: char)
    requires
        c != '\\',
    ensures
        forall|i: int|
            0 <= i < encode_scalar(c as u32).len() ==> #[trigger] encode_scalar(c as u32)[i]
                != 0x5c,
{
    let s = c as u32;
    assert(has_width_1_encoding(s) && s != 0x5c ==> leading_byte_width_1(s) != 0x5c)
        by (bit_vector);
    assert(leading_byte_width_2(s) != 0x5c) by (bit_vector);
    assert(leading_byte_width_3(s) != 0x5c) by (bit_vector);
    assert(leading_byte_width_4(s) != 0x5c) by (bit_vector);
    assert(last_continuation_byte(s) != 0x5c) by (bit_vector);
    assert(second_last_continuation_byte(s) != 0x5c) by (bit_vector);
    assert(third_last_continuation_byte(s) != 0x5c) by (bit_vector);
    assert(s != 0x5c);
}

/// Bytes before the first backslash stay as they are.
proof fn lemma_plain_bytes(plain: Seq<u8>, rest: Seq<u8>)
    requires
        forall|i: int| 0 <= i < plain.len() ==> #[trigger] plain[i] != 0x5c,
    ensures
        mounts::decode_escapes(plain + rest) == plain + mounts::decode_escapes(rest),
    decreases plain.len(),
{
    if plain.len() == 0 {
        assert(plain + rest == rest);
        assert(plain + mounts::decode_escapes(rest) == mounts::decode_escapes(rest));
    } else {
        assert((plain + rest)[0] == plain[0]);
        assert((plain + rest).skip(1) == plain.drop_first() + rest);
        lemma_plain_bytes(plain.drop_first(), rest);
        assert(seq![plain[0]] + (plain.drop_first() + mounts::decode_escapes(rest)) == plain
            + mounts::decode_escapes(rest));
    }
}

/// What the kernel wrote for one character is decoded to the encoding of that character.
proof fn lemma_kernel_char(c: char, rest: Seq<u8>)
    ensures
        mounts::decode_escapes(encode_utf8(kernel_char(c)) + rest) == encode_scalar(c as u32)
            + mounts::decode_escapes(rest),
{
    let written = kernel_char(c);
    let bytes = encode_utf8(written);
    if c == ' ' || c == '\t' || c == '\n' || c == '\\' {
        is_ascii_chars_encode_utf8(written);
        assert(written[0] as u8 == bytes[0]);
        assert(written[1] as u8 == bytes[1]);
        assert(written[2] as u8 == bytes[2]);
        assert(written[3] as u8 == bytes[3]);
        let all = bytes + rest;
        assert(all[0] == bytes[0] && all[1] == bytes[1] && all[2] == bytes[2] && all[3]
            == bytes[3]);
        assert(mounts::escaped(all));
        assert(all.skip(4) == rest);
        let s = c as u32;
        assert(has_width_1_encoding(s) ==> leading_byte_width_1(s) == s as u8) by (bit_vector);
        assert(encode_scalar(s) == seq![c as u8]);
    } else {
        reveal_with_fuel(encode_utf8, 2);
        assert(written.drop_first() == Seq::<char>::empty());
        assert(bytes == encode_scalar(c as u32));
        lemma_no_backslash(c);
        lemma_plain_bytes(bytes, rest);
    }
}

/// Decoding what the kernel wrote for a name gives the bytes of the name.
proof fn lemma_kernel_escaped(name: Seq<char>)
    ensures
        mounts::decode_escapes(encode_utf8(kernel_escaped(name))) == encode_utf8(name),
    decreases name.len(),
{
    if name.len() != 0 {
        let rest = kernel_escaped(name.drop_first());
        lemma_encode_concat(kernel_char(name[0]), rest);
        lemma_kernel_char(name[0], encode_utf8(rest));
        lemma_kernel_escaped(name.drop_first());
    }
}

/// Whatever name the kernel writes into mountinfo, unescaping gives that name back.
pub proof fn unescape_undoes_the_kernel(name: Seq<char>)
    ensures
        mounts::unescaped(kernel_escaped(name)) == name,
{
    lemma_kernel_escaped(name);
    encode_utf8_valid_utf8(name);
    encode_utf8_decode_utf8(name);
}

/// A field without a backslash stands for itself, whatever other characters it holds.
pub proof fn plain_field_stands_for_itself(field: Seq<char>)
    requires
        forall|i: int| 0 <= i < field.len() ==> #[trigger] field[i] != '\\',
    ensures
        mounts::unescaped(field) == field,
{
    lemma_plain_field(field);
    encode_utf8_valid_utf8(field);
    encode_utf8_decode_utf8(field);
}

/// The bytes of a field without a backslash are decoded to themselves.
proof fn lemma_plain_field(field: Seq<char>)
    requires
        forall|i: int| 0 <= i < field.len() ==> #[trigger] field[i] != '\\',
    ensures
        mounts::decode_escapes(encode_utf8(field)) == encode_utf8(field),
    decreases field.len(),
{
    if field.len() != 0 {
        lemma_no_backslash(field[0]);
        lemma_plain_bytes(encode_scalar(field[0] as u32), encode_utf8(field.drop_first()));
        lemma_plain_field(field.drop_first());
    }
}

/// Whether `f` can stand as one field: it is not empty and holds neither space nor tab.
pub open spec fn one_field(f: Seq<char>) -> bool {
    f.len() > 0 && forall|i: int| 0 <= i < f.len() ==> !Gap::SpaceOrTab.holds(#[trigger] f[i])
}

/// The fields in a row, with one space between each two.
pub open spec fn spaced(fields: Seq<Seq<char>>) -> Seq<char>
    decreases fields.len(),
{
    if fields.len() == 0 {
        Seq::empty()
    } else if fields.len() == 1 {
        fields[0]
    } else {
        fields[0] + seq![' '] + spaced(fields.drop_first())
    }
}

/// A field ends where a gap begins.
proof fn lemma_word_len_of(f: Seq<char>, rest: Seq<char>)
    requires
        forall|i: int| 0 <= i < f.len() ==> !Gap::SpaceOrTab.holds(#[trigger] f[i]),
        rest.len() > 0 ==> Gap::SpaceOrTab.holds(rest[0]),
    ensures
        text::word_len(f + rest, Gap::SpaceOrTab) == f.len(),
    decreases f.len(),
{
    if f.len() == 0 {
        assert(f + rest == rest);
    } else {
        assert((f + rest)[0] == f[0]);
        assert((f + rest).drop_first() == f.drop_first() + rest);
        lemma_word_len_of(f.drop_first(), rest);
    }
}

/// The words of spaced fields are the fields.
proof fn lemma_words_of_spaced(fields: Seq<Seq<char>>)
    requires
        forall|i: int| 0 <= i < fields.len() ==> one_field(#[trigger] fields[i]),
    ensures
        text::words(spaced(fields), Gap::SpaceOrTab) == fields,
    decreases fields.len(),
{
    if fields.len() != 0 {
        let f = fields[0];
        let rest = if fields.len() == 1 {
            Seq::<char>::empty()
        } else {
            seq![' '] + spaced(fields.drop_first())
        };
        let s = spaced(fields);
        assert(one_field(f));
        assert(s == f + rest);
        assert(s[0] == f[0]);
        assert(s.drop_first() == f.drop_first() + rest);
        lemma_word_len_of(f.drop_first(), rest);
        assert(s.take(f.len() as int) == f);
        assert(s.skip(f.len() as int) == rest);
        if fields.len() == 1 {
            assert(text::words(rest, Gap::SpaceOrTab) == Seq::<Seq<char>>::empty());
            assert(fields == seq![f] + Seq::<Seq<char>>::empty());
        } else {
            lemma_words_of_spaced(fields.drop_first());
            assert(rest.drop_first() == spaced(fields.drop_first()));
            assert(Gap::SpaceOrTab.holds(rest[0]));
            assert(text::words(rest, Gap::SpaceOrTab) == text::words(rest.drop_first(), Gap::SpaceOrTab));
            assert(fields == seq![f] + fields.drop_first());
        }
        let n: nat = 1 + text::word_len(s.drop_first(), Gap::SpaceOrTab);
        assert(n == f.len());
        assert(text::words(s, Gap::SpaceOrTab) == seq![f] + text::words(rest, Gap::SpaceOrTab));
    } else {
        assert(fields == Seq::<Seq<char>>::empty());
    }
}

/// The separator does not stand among spaced fields, unless a field is a lone hyphen.
proof fn lemma_no_separator(fields: Seq<Seq<char>>, tail: Seq<char>, j: int)
    requires
        forall|i: int|
            0 <= i < fields.len() ==> one_field(#[trigger] fields[i]) && fields[i] != seq!['-'],
        0 <= j < spaced(fields).len(),
    ensures
        !text::occurs_at(spaced(fields) + tail, seq![' ', '-', ' '], j),
    decreases fields.len(),
{
    let pattern = seq![' ', '-', ' '];
    let s = spaced(fields) + tail;
    if text::occurs_at(s, pattern, j) {
        let found = s.subrange(j, j + 3);
        assert(found == pattern);
        assert(s[j] == found[0] && s[j + 1] == found[1] && s[j + 2] == found[2]);
        let f = fields[0];
        assert(one_field(f));
        if j < f.len() {
            assert(s[j] == f[j]);
        } else {
            let others = fields.drop_first();
            let n = f.len() as int + 1;
            assert forall|i: int| 0 <= i < others.len() implies one_field(#[trigger] others[i])
                && others[i] != seq!['-'] by {
                assert(others[i] == fields[i + 1]);
            }
            let t = spaced(others) + tail;
            assert(s.skip(n) == t);
            if j == f.len() {
                let g = others[0];
                assert(one_field(g));
                assert(t[0] == g[0]);
                assert(s[j + 1] == t[0]);
                if g.len() == 1 {
                    assert(g == seq!['-']);
                } else {
                    assert(t[1] == g[1]);
                    assert(s[j + 2] == t[1]);
                }
            } else {
                assert(t.subrange(j - n, j - n + 3) == found);
                assert(text::occurs_at(t, pattern, j - n));
                lemma_no_separator(others, tail, j - n);
            }
        }
    }
}

/// A mountinfo line is read by its separator: however many optional fields stand before it,
/// the mountpoint is the fifth field, the root the fourth, and the filesystem type and source
/// the first two fields behind the separator.
#[verifier::rlimit(60)]
#[verifier::spinoff_prover]
pub proof fn line_reads_by_its_separator(head: Seq<Seq<char>>, tail: Seq<Seq<char>>)
    requires
        head.len() >= 5,
        tail.len() >= 2,
        forall|i: int|
            0 <= i < head.len() ==> one_field(#[trigger] head[i]) && head[i] != seq!['-'],
        forall|i: int| 0 <= i < tail.len() ==> one_field(#[trigger] tail[i]),
    ensures
        mounts::mount_line(spaced(head) + " - "@ + spaced(tail)) == Ok::<
            (Seq<char>, Identity),
            Seq<char>,
        >(
            (
                mounts::unescaped(head[4]),
                Identity {
                    source: mounts::unescaped(tail[1]),
                    fstype: mounts::unescaped(tail[0]),
                    root: mounts::unescaped(head[3]),
                },
            ),
        ),
{
    reveal_strlit(" - ");
    let pattern = " - "@;
    assert(pattern == seq![' ', '-', ' ']);
    let n = spaced(head).len() as int;
    let line = spaced(head) + pattern + spaced(tail);
    assert(line == spaced(head) + (pattern + spaced(tail)));
    assert(line.subrange(n, n + 3) == pattern);
    assert forall|j: int| 0 <= j < n implies !text::occurs_at(line, pattern, j) by {
        lemma_no_separator(head, pattern + spaced(tail), j);
    }
    assert(text::first_at(line, pattern, n));
    assert(line.take(n) == spaced(head));
    assert(line.skip(n + 3) == spaced(tail));
    lemma_words_of_spaced(head);
    lemma_words_of_spaced(tail);
}

/// A name that is not empty is written as one field, whatever it holds.
proof fn lemma_one_name(name: Seq<char>)
    requires
        name.len() > 0,
    ensures
        one_field(kernel_escaped(name)),
    decreases name.len(),
{
    let first = kernel_char(name[0]);
    assert(one_field(first));
    if name.len() == 1 {
        assert(name.drop_first() == Seq::<char>::empty());
        assert(kernel_escaped(name.drop_first()) == Seq::<char>::empty());
        assert(kernel_escaped(name) == first);
    } else {
        let rest = name.drop_first();
        lemma_one_name(rest);
        let written = kernel_escaped(name);
        assert forall|i: int| 0 <= i < written.len() implies !Gap::SpaceOrTab.holds(
            #[trigger] written[i],
        ) by {
            if i < first.len() {
                assert(written[i] == first[i]);
            } else {
                assert(written[i] == kernel_escaped(rest)[i - first.len()]);
            }
        }
    }
}

/// Only the name `-` is written as a lone hyphen.
proof fn lemma_hyphen(name: Seq<char>)
    requires
        name != seq!['-'],
    ensures
        kernel_escaped(name) != seq!['-'],
{
    if kernel_escaped(name) == seq!['-'] {
        unescape_undoes_the_kernel(name);
        assert forall|i: int| 0 <= i < seq!['-'].len() implies #[trigger] seq!['-'][i] != '\\' by {}
        plain_field_stands_for_itself(seq!['-']);
    }
}

/// The line that the kernel writes for a mount is read as that mount: its mountpoint, source,
/// filesystem type and root come back as they are, whatever characters they hold, and
/// whatever optional fields stand between.
pub proof fn kernel_line_reads_back(
    ids: Seq<Seq<char>>,
    root: Seq<char>,
    path: Seq<char>,
    options: Seq<Seq<char>>,
    fstype: Seq<char>,
    source: Seq<char>,
    super_options: Seq<Seq<char>>,
)
    requires
        ids.len() == 3,
        forall|i: int|
            0 <= i < ids.len() ==> one_field(#[trigger] ids[i]) && ids[i] != seq!['-'],
        forall|i: int|
            0 <= i < options.len() ==> one_field(#[trigger] options[i]) && options[i] != seq!['-'],
        forall|i: int| 0 <= i < super_options.len() ==> one_field(#[trigger] super_options[i]),
        root.len() > 0,
        path.len() > 0,
        fstype.len() > 0,
        source.len() > 0,
        root != seq!['-'],
        path != seq!['-'],
    ensures
        mounts::mount_line(
            spaced(ids + seq![kernel_escaped(root), kernel_escaped(path)] + options) + " - "@
                + spaced(seq![kernel_escaped(fstype), kernel_escaped(source)] + super_options),
        ) == Ok::<(Seq<char>, Identity), Seq<char>>((path, Identity { source, fstype, root })),
{
    let names = seq![kernel_escaped(root), kernel_escaped(path)];
    let head = ids + names + options;
    let tail_names = seq![kernel_escaped(fstype), kernel_escaped(source)];
    let tail = tail_names + super_options;
    lemma_one_name(root);
    lemma_one_name(path);
    lemma_one_name(fstype);
    lemma_one_name(source);
    lemma_hyphen(root);
    lemma_hyphen(path);
    unescape_undoes_the_kernel(root);
    unescape_undoes_the_kernel(path);
    unescape_undoes_the_kernel(fstype);
    unescape_undoes_the_kernel(source);
    assert forall|i: int| 0 <= i < head.len() implies one_field(#[trigger] head[i]) && head[i]
        != seq!['-'] by {
        if i < 3 {
            assert(head[i] == ids[i]);
        } else if i < 5 {
            assert(head[i] == names[i - 3]);
        } else {
            assert(head[i] == options[i - 5]);
        }
    }
    assert forall|i: int| 0 <= i < tail.len() implies one_field(#[trigger] tail[i]) by {
        if i < 2 {
            assert(tail[i] == tail_names[i]);
        } else {
            assert(tail[i] == super_options[i - 2]);
        }
    }
    assert(head[3] == names[0] && head[4] == names[1]);
    assert(tail[0] == tail_names[0] && tail[1] == tail_names[1]);
    line_reads_by_its_separator(head, tail);
}

/// Of two lines on one mountpoint the later holds: what a further line says replaces what was
/// recorded at its mountpoint, and leaves every other mountpoint as it was.
pub proof fn later_line_wins(all: Seq<Seq<char>>, line: Seq<char>)
    requires
        mounts::mount_lines(all) is Ok,
        !text::blank(line),
        mounts::mount_line(line) is Ok,
    ensures
        mounts::mount_lines(all.push(line)) == Ok::<Map<Seq<char>, Identity>, (nat, Seq<char>)>(
            mounts::mount_lines(all)->Ok_0.insert(
                mounts::mount_line(line)->Ok_0.0,
                mounts::mount_line(line)->Ok_0.1,
            ),
        ),
{
    assert(all.push(line).drop_last() == all);
}

/// A malformed line is never skipped: it, or one before it, is reported.
pub proof fn malformed_line_is_reported(all: Seq<Seq<char>>, i: int)
    requires
        0 <= i < all.len(),
        !text::blank(all[i]),
        mounts::mount_line(all[i]) is Err,
    ensures
        mounts::mount_lines(all) is Err,
        1 <= mounts::mount_lines(all)->Err_0.0 <= i + 1,
    decreases all.len(),
{
    lemma_fault_line(all);
    if i < all.len() - 1 {
        malformed_line_is_reported(all.drop_last(), i);
    } else {
        lemma_fault_line(all.drop_last());
    }
}

/// The line number of a fault is that of a line of the text.
proof fn lemma_fault_line(all: Seq<Seq<char>>)
    ensures
        mounts::mount_lines(all) matches Err(fault) ==> 1 <= fault.0 <= all.len(),
    decreases all.len(),
{
    if all.len() != 0 {
        lemma_fault_line(all.drop_last());
    }
}

/// What the last line on `path` says is mounted there, if any line is on it.
pub open spec fn last_on(all: Seq<Seq<char>>, path: Seq<char>) -> Option<Identity>
    decreases all.len(),
{
    if all.len() == 0 {
        None
    } else {
        match mounts::mount_line(all.last()) {
            Ok((at, identity)) if at == path && !text::blank(all.last()) => Some(identity),
            _ => last_on(all.drop_last(), path),
        }
    }
}

/// The table holds what the last line on a path says.
proof fn lemma_last_on(all: Seq<Seq<char>>, path: Seq<char>)
    requires
        mounts::mount_lines(all) is Ok,
    ensures
        ({
            let table = mounts::mount_lines(all)->Ok_0;
            &&& table.contains_key(path) <==> last_on(all, path) is Some
            &&& table.contains_key(path) ==> last_on(all, path) == Some(table[path])
        }),
    decreases all.len(),
{
    if all.len() != 0 {
        lemma_last_on(all.drop_last(), path);
    }
}

/// A path verifies exactly where the filesystem that a process sees there is the expected one.
/// That something is mounted there is not enough: another filesystem is a mismatch, told with
/// what it is, and a path that no line is on is missing.
pub proof fn verdict_tells_what_is_mounted(all: Seq<Seq<char>>, want: MountExpectation)
    requires
        mounts::mount_lines(all) is Ok,
    ensures
        mounts::finding(want, mounts::mount_lines(all)->Ok_0) == match last_on(all, want.path@) {
            None => Finding::Nothing,
            Some(identity) => if identity == want.identity() {
                Finding::Expected
            } else {
                Finding::Other(identity)
            },
        },
{
    lemma_last_on(all, want.path@);
}

/// Whether `b` is one of the eight octal digits.
pub open spec fn eight(b: u8) -> bool {
    48 <= b <= 55
}

/// The byte that an escape denotes, told by its three digits.
pub open spec fn denoted_byte(a: u8, b: u8, c: u8) -> int {
    (a - 48) * 64 + (b - 48) * 8 + (c - 48)
}

/// Escapes are undone from the left: a backslash and three octal digits that denote a byte are
/// that byte, and any other byte, a backslash among them, stands for itself.
pub proof fn escapes_are_undone_from_the_left(a: u8, b: u8, c: u8, other: u8, rest: Seq<u8>)
    ensures
        mounts::decode_escapes(Seq::<u8>::empty()) == Seq::<u8>::empty(),
        eight(a) && eight(b) && eight(c) && denoted_byte(a, b, c) < 256
            ==> mounts::decode_escapes(seq![92u8, a, b, c] + rest) == seq![
            denoted_byte(a, b, c) as u8,
        ] + mounts::decode_escapes(rest),
        !(eight(a) && eight(b) && eight(c) && denoted_byte(a, b, c) < 256)
            ==> mounts::decode_escapes(seq![92u8, a, b, c] + rest) == seq![92u8]
            + mounts::decode_escapes(seq![a, b, c] + rest),
        other != 92 || rest.len() < 3 ==> mounts::decode_escapes(seq![other] + rest) == seq![other]
            + mounts::decode_escapes(rest),
{
    let s = seq![92u8, a, b, c] + rest;
    assert(s[0] == 92 && s[1] == a && s[2] == b && s[3] == c);
    assert(s.skip(4) == rest);
    assert(s.skip(1) == seq![a, b, c] + rest);
    let t = seq![other] + rest;
    assert(t.skip(1) == rest);
}

/// A field is unescaped as bytes, and the bytes are then read as text.
pub proof fn a_field_is_unescaped_as_bytes(field: &str, text: String)
    requires
        call_ensures(mounts::unescape, (field,), text),
    ensures
        text@ == text::lossy(mounts::decode_escapes(encode_utf8(field@))),
        text@ == mounts::unescaped(field@),
{
}

/// A line tells its mountpoint by the fifth field and the root by the fourth, before the first
/// ` - `, and the type and source by the first two fields behind it. A line without ` - `, or with
/// too few fields on either side, is wrong, and it is said which.
pub proof fn a_line_tells_by_its_fields(line: Seq<char>)
    ensures
        match text::split_once(line, " - "@) {
            None => mounts::mount_line(line) == Err::<(Seq<char>, Identity), Seq<char>>(
                "no ' - ' separator"@,
            ),
            Some((head, tail)) => {
                let before = text::words(head, Gap::SpaceOrTab);
                let behind = text::words(tail, Gap::SpaceOrTab);
                if before.len() < 5 {
                    mounts::mount_line(line) matches Err(why) && why
                        == "expected at least 5 fields before separator, got "@ + text::decimal(
                        before.len(),
                    )
                } else if behind.len() < 2 {
                    mounts::mount_line(line) matches Err(why) && why
                        == "expected fstype and source after separator"@
                } else {
                    &&& mounts::mount_line(line) is Ok
                    &&& mounts::mount_line(line)->Ok_0.0 == mounts::unescaped(before[4])
                    &&& mounts::mount_line(line)->Ok_0.1.root == mounts::unescaped(before[3])
                    &&& mounts::mount_line(line)->Ok_0.1.fstype == mounts::unescaped(behind[0])
                    &&& mounts::mount_line(line)->Ok_0.1.source == mounts::unescaped(behind[1])
                }
            },
        },
{
}

/// Lines are read in order: no lines tell no mounts, a blank line adds nothing, any other line
/// adds what it tells, in place of what was told of its mountpoint, and the first line that is
/// wrong ends it, with its number counted from one.
pub proof fn lines_are_read_in_order(all: Seq<Seq<char>>, line: Seq<char>)
    ensures
        mounts::mount_lines(Seq::<Seq<char>>::empty()) == Ok::<
            Map<Seq<char>, Identity>,
            (nat, Seq<char>),
        >(Map::empty()),
        match mounts::mount_lines(all) {
            Err(fault) => mounts::mount_lines(all.push(line)) == Err::<
                Map<Seq<char>, Identity>,
                (nat, Seq<char>),
            >(fault),
            Ok(table) => if text::blank(line) {
                mounts::mount_lines(all.push(line)) == Ok::<
                    Map<Seq<char>, Identity>,
                    (nat, Seq<char>),
                >(table)
            } else {
                match mounts::mount_line(line) {
                    Err(why) => mounts::mount_lines(all.push(line)) == Err::<
                        Map<Seq<char>, Identity>,
                        (nat, Seq<char>),
                    >((all.len() + 1, why)),
                    Ok((path, identity)) => mounts::mount_lines(all.push(line)) == Ok::<
                        Map<Seq<char>, Identity>,
                        (nat, Seq<char>),
                    >(table.insert(path, identity)),
                }
            },
        },
{
    assert(all.push(line).drop_last() == all);
}

/// Reading mountinfo gives what its lines tell: a table of them, or the number and the reason of
/// the first line that is wrong.
pub proof fn mountinfo_is_read_by_its_lines(text: &str, out: Result<MountTable, MountError>)
    requires
        call_ensures(mounts::parse_mountinfo, (text,), out),
    ensures
        match mounts::mount_lines(text::lines(text@)) {
            Ok(table) => out is Ok && out->Ok_0@ == table,
            Err((number, why)) => out matches Err(MountError::Malformed { line, reason }) && line
                == number && reason@ == why,
        },
{
}

/// A malformed line is reported by its number and what is wrong with it.
pub proof fn mount_errors_name_line_and_reason(error: &MountError, text: String)
    requires
        call_ensures(MountError::message, (error,), text),
    ensures
        error matches MountError::Malformed { line, reason } && text@ == "mountinfo line "@
            + text::decimal(*line as nat) + ": "@ + reason@,
{
}

/// A table tells of a mountpoint what was last put in for it.
pub proof fn a_table_tells_what_was_put_in(
    table: &mut MountTable,
    path: String,
    identity: MountIdentity,
    new: MountTable,
    at: &str,
    read: &MountTable,
    found: Option<&MountIdentity>,
    there: bool,
)
    requires
        call_ensures(MountTable::new, (), new),
        call_ensures(MountTable::insert, (table, path, identity), ()),
        call_ensures(MountTable::get, (read, at), found),
        call_ensures(MountTable::contains_key, (read, at), there),
    ensures
        forall|p: Seq<char>| !(#[trigger] new@.contains_key(p)),
        final(table)@.contains_key(path@),
        final(table)@[path@].source == identity.source@,
        final(table)@[path@].fstype == identity.fstype@,
        final(table)@[path@].root == identity.root@,
        forall|p: Seq<char>|
            p != path@ ==> (#[trigger] final(table)@.contains_key(p) == old(
                table,
            )@.contains_key(p)) && (old(table)@.contains_key(p) ==> final(table)@[p] == old(
                table,
            )@[p]),
        there <==> read@.contains_key(at@),
        found is Some <==> there,
        found matches Some(got) ==> got.source@ == read@[at@].source && got.fstype@
            == read@[at@].fstype && got.root@ == read@[at@].root,
{
}

/// Each expectation gets a verdict under its own path, in order: verified exactly where the table
/// has the path with the very source, type and root that are expected; missing exactly where the
/// table does not have the path; and else a mismatch that tells what is mounted there.
pub proof fn every_part_of_an_expectation_must_match(
    wanted: &[MountExpectation],
    table: &MountTable,
    out: Vec<(String, MountVerdict)>,
    i: int,
)
    requires
        call_ensures(mounts::verify, (wanted, table), out),
        0 <= i < wanted@.len(),
    ensures
        ({
            let want = wanted@[i];
            let there = table@.contains_key(want.path@);
            let is = table@[want.path@];
            let same = is.source == want.source@ && is.fstype == want.fstype@ && is.root
                == want.root@;
            &&& out@.len() == wanted@.len()
            &&& out@[i].0@ == want.path@
            &&& out@[i].1 is Verified <==> there && same
            &&& out@[i].1 is Missing <==> !there
            &&& out@[i].1 matches MountVerdict::Mismatch { actual } ==> there && !same
                && actual.source@ == is.source && actual.fstype@ == is.fstype && actual.root@
                == is.root
        }),
{
    assert(out[i].1@ == mounts::finding(wanted[i], table@));
}

} // verus!

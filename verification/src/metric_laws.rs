//! Laws of the published metrics: a reader of the file finds in it what was written.

use crate::metrics;
use crate::metrics::Published;
use crate::mounts::Finding;
use crate::text;
use vstd::prelude::*;

verus! {

/// How a reader of the exposition format takes a label value from what follows its opening
/// quote: up to the first quote that is not escaped, with the escapes undone. Gives the value
/// and what follows the closing quote, or nothing if the line ends first.
pub open spec fn read_label(s: Seq<char>) -> Option<(Seq<char>, Seq<char>)>
    decreases s.len(),
{
    if s.len() == 0 || s[0] == '\n' {
        None
    } else if s[0] == '"' {
        Some((Seq::empty(), s.skip(1)))
    } else if s[0] == '\\' {
        if s.len() == 1 || (s[1] != '\\' && s[1] != '"' && s[1] != 'n') {
            None
        } else {
            match read_label(s.skip(2)) {
                Some((value, rest)) => Some(
                    (
                        seq![
                            if s[1] == 'n' {
                                '\n'
                            } else {
                                s[1]
                            },
                        ] + value,
                        rest,
                    ),
                ),
                None => None,
            }
        }
    } else {
        match read_label(s.skip(1)) {
            Some((value, rest)) => Some((seq![s[0]] + value, rest)),
            None => None,
        }
    }
}

/// A label value is written character by character, from the first.
proof fn lemma_label_front(value: Seq<char>)
    requires
        value.len() > 0,
    ensures
        metrics::label_text(value) == metrics::label_char(value[0]) + metrics::label_text(
            value.drop_first(),
        ),
    decreases value.len(),
{
    if value.len() == 1 {
        assert(value.drop_last() == Seq::<char>::empty());
        assert(value.drop_first() == Seq::<char>::empty());
        assert(metrics::label_text(Seq::<char>::empty()) == Seq::<char>::empty());
        let one = metrics::label_char(value[0]);
        assert(Seq::<char>::empty() + one == one + Seq::<char>::empty());
    } else {
        let shorter = value.drop_last();
        lemma_label_front(shorter);
        assert(shorter.drop_first() == value.drop_first().drop_last());
        assert(value.drop_first().last() == value.last());
        let first = metrics::label_char(value[0]);
        let last = metrics::label_char(value.last());
        let middle = metrics::label_text(shorter.drop_first());
        assert((first + middle) + last == first + (middle + last));
    }
}

/// Whatever a label value holds, quotes, backslashes and line feeds among it, a reader of the
/// line takes exactly that value from it, and finds what follows the label.
pub proof fn label_reads_back(value: Seq<char>, rest: Seq<char>)
    ensures
        read_label(metrics::label_text(value) + seq!['"'] + rest) == Some((value, rest)),
    decreases value.len(),
{
    let s = metrics::label_text(value) + seq!['"'] + rest;
    if value.len() == 0 {
        assert(s[0] == '"');
        assert(s.skip(1) == rest);
        assert(value == Seq::<char>::empty());
    } else {
        let others = value.drop_first();
        let first = metrics::label_char(value[0]);
        lemma_label_front(value);
        label_reads_back(others, rest);
        let t = metrics::label_text(others) + seq!['"'] + rest;
        assert(s == first + t);
        assert(s[0] == first[0]);
        assert(s.skip(first.len() as int) == t);
        if first.len() == 2 {
            assert(s[1] == first[1]);
        }
        assert(seq![value[0]] + others == value);
    }
}

/// Whether `l` can stand as a line: it holds no line feed, and no carriage return at its end.
pub open spec fn one_line(l: Seq<char>) -> bool {
    &&& forall|i: int| 0 <= i < l.len() ==> #[trigger] l[i] != '\n'
    &&& l.len() > 0 ==> l.last() != '\r'
}

/// The first line of ended lines stands first.
proof fn lemma_ended_front(all: Seq<Seq<char>>)
    requires
        all.len() > 0,
    ensures
        metrics::ended(all) == all[0] + "\n"@ + metrics::ended(all.drop_first()),
    decreases all.len(),
{
    if all.len() == 1 {
        assert(all.drop_last() == Seq::<Seq<char>>::empty());
        assert(all.drop_first() == Seq::<Seq<char>>::empty());
        assert(metrics::ended(Seq::<Seq<char>>::empty()) == Seq::<char>::empty());
        assert(Seq::<char>::empty() + all[0] + "\n"@ == all[0] + "\n"@ + Seq::<char>::empty());
    } else {
        let shorter = all.drop_last();
        lemma_ended_front(shorter);
        assert(shorter.drop_first() == all.drop_first().drop_last());
        assert(all.drop_first().last() == all.last());
        let middle = metrics::ended(shorter.drop_first());
        assert((all[0] + "\n"@ + middle) + all.last() + "\n"@ == all[0] + "\n"@ + (middle
            + all.last() + "\n"@));
    }
}

/// The length of a first line that ends in a line feed.
proof fn lemma_line_len_of(l: Seq<char>, rest: Seq<char>)
    requires
        forall|i: int| 0 <= i < l.len() ==> #[trigger] l[i] != '\n',
        rest.len() > 0,
        rest[0] == '\n',
    ensures
        text::line_len(l + rest) == l.len(),
    decreases l.len(),
{
    if l.len() == 0 {
        assert(l + rest == rest);
    } else {
        assert((l + rest)[0] == l[0]);
        assert((l + rest).drop_first() == l.drop_first() + rest);
        lemma_line_len_of(l.drop_first(), rest);
    }
}

/// Lines that were ended are read back as those lines.
pub proof fn ended_lines_read_back(all: Seq<Seq<char>>)
    requires
        forall|i: int| 0 <= i < all.len() ==> one_line(#[trigger] all[i]),
    ensures
        text::lines(metrics::ended(all)) == all,
    decreases all.len(),
{
    if all.len() == 0 {
        assert(all == Seq::<Seq<char>>::empty());
    } else {
        reveal_strlit("\n");
        let l = all[0];
        assert(one_line(l));
        let others = all.drop_first();
        assert forall|i: int| 0 <= i < others.len() implies one_line(#[trigger] others[i]) by {
            assert(others[i] == all[i + 1]);
        }
        ended_lines_read_back(others);
        lemma_ended_front(all);
        let rest = "\n"@ + metrics::ended(others);
        let s = metrics::ended(all);
        assert(s == l + rest);
        lemma_line_len_of(l, rest);
        assert(s.take(l.len() as int) == l);
        assert(s.skip(l.len() as int + 1) == metrics::ended(others));
        assert(text::strip_cr(l) == l);
        assert(all == seq![l] + others);
    }
}

/// Whether `l` is a comment.
pub open spec fn comment(l: Seq<char>) -> bool {
    l.len() > 0 && l[0] == '#'
}

/// Whether `value` is a number: decimal digits, or the text of the stalled share of time.
pub open spec fn number_text(value: Seq<char>, percent: Seq<char>) -> bool {
    ||| value == percent
    ||| value.len() > 0 && forall|i: int|
        0 <= i < value.len() ==> text::decimal_digit(#[trigger] value[i])
}

/// Whether `value` is one word that ends no line: it is not empty, and holds neither space nor
/// line feed.
pub open spec fn one_value(value: Seq<char>) -> bool {
    &&& value.len() > 0
    &&& forall|i: int| 0 <= i < value.len() ==> #[trigger] value[i] != ' '
    &&& one_line(value)
}

/// Whether `s` begins as the names of all metrics do.
pub open spec fn prefixed(s: Seq<char>) -> bool {
    let prefix = "host_guardian_"@;
    s.len() > prefix.len() && s.take(prefix.len() as int) == prefix
}

/// Whether `l` is `key`, the name of a metric with or without a label, a space and the number
/// `value`. The number holds no space, so the last space of the line divides it.
pub open spec fn key_space_value(
    l: Seq<char>,
    key: Seq<char>,
    value: Seq<char>,
    percent: Seq<char>,
) -> bool {
    &&& l == metrics::sample_line(key, value)
    &&& prefixed(key)
    &&& one_value(value)
    &&& number_text(value, percent)
}

/// Whether `l` is a line of the exposition format: one line that is a comment, or a key, a space
/// and a number.
pub open spec fn exposition_line(l: Seq<char>, percent: Seq<char>) -> bool {
    &&& one_line(l)
    &&& comment(l) || exists|key: Seq<char>, value: Seq<char>|
        key_space_value(l, key, value, percent)
}

/// Whether all of these are lines of the exposition format.
pub open spec fn exposition_lines(all: Seq<Seq<char>>, percent: Seq<char>) -> bool {
    forall|i: int| 0 <= i < all.len() ==> exposition_line(#[trigger] all[i], percent)
}

/// Whether `name` is the plain name of a metric.
pub open spec fn metric_name(name: Seq<char>) -> bool {
    &&& prefixed(name)
    &&& forall|i: int| 0 <= i < name.len() ==> 'a' <= #[trigger] name[i] <= 'z' || name[i] == '_'
}

/// More lines of the format are lines of the format.
proof fn lemma_more_lines(a: Seq<Seq<char>>, b: Seq<Seq<char>>, percent: Seq<char>)
    requires
        exposition_lines(a, percent),
        exposition_lines(b, percent),
    ensures
        exposition_lines(a + b, percent),
{
    assert forall|i: int| 0 <= i < (a + b).len() implies exposition_line(
        #[trigger] (a + b)[i],
        percent,
    ) by {
        if i < a.len() {
            assert((a + b)[i] == a[i]);
        } else {
            assert((a + b)[i] == b[i - a.len()]);
        }
    }
}

/// Two texts without a line feed have none together.
proof fn lemma_one_line_concat(a: Seq<char>, b: Seq<char>)
    requires
        forall|i: int| 0 <= i < a.len() ==> #[trigger] a[i] != '\n',
        one_line(b),
        b.len() > 0,
    ensures
        one_line(a + b),
{
    assert forall|i: int| 0 <= i < (a + b).len() implies #[trigger] (a + b)[i] != '\n' by {
        if i < a.len() {
            assert((a + b)[i] == a[i]);
        } else {
            assert((a + b)[i] == b[i - a.len()]);
        }
    }
    assert((a + b).last() == b.last());
}

/// A metric is declared by a comment line.
proof fn lemma_type_line(name: Seq<char>, percent: Seq<char>)
    requires
        metric_name(name),
    ensures
        exposition_line(metrics::type_line(name), percent),
{
    reveal_strlit("# TYPE ");
    reveal_strlit(" gauge");
    let front = "# TYPE "@ + name;
    assert forall|i: int| 0 <= i < front.len() implies #[trigger] front[i] != '\n' by {
        if i >= 7 {
            assert(front[i] == name[i - 7]);
        }
    }
    lemma_one_line_concat(front, " gauge"@);
    assert(metrics::type_line(name)[0] == '#');
}

/// A metric is explained by a comment line.
proof fn lemma_help_line(name: Seq<char>, about: Seq<char>, percent: Seq<char>)
    requires
        metric_name(name),
        one_line(about),
        about.len() > 0,
    ensures
        exposition_line(metrics::help_line(name, about), percent),
{
    reveal_strlit("# HELP ");
    reveal_strlit(" ");
    let front = "# HELP "@ + name + " "@;
    assert forall|i: int| 0 <= i < front.len() implies #[trigger] front[i] != '\n' by {
        if 7 <= i < 7 + name.len() {
            assert(front[i] == name[i - 7]);
        }
    }
    lemma_one_line_concat(front, about);
    assert(metrics::help_line(name, about)[0] == '#');
}

/// A key without a line feed and a number make a line of the format.
proof fn lemma_sample_line(key: Seq<char>, value: Seq<char>, percent: Seq<char>)
    requires
        prefixed(key),
        forall|i: int| 0 <= i < key.len() ==> #[trigger] key[i] != '\n',
        number_text(value, percent),
        one_value(percent),
    ensures
        exposition_line(metrics::sample_line(key, value), percent),
{
    reveal_strlit(" ");
    let front = key + " "@;
    assert forall|i: int| 0 <= i < front.len() implies #[trigger] front[i] != '\n' by {
        if i < key.len() {
            assert(front[i] == key[i]);
        }
    }
    assert(value != percent ==> text::decimal_digit(value[value.len() - 1]));
    assert(one_value(value));
    lemma_one_line_concat(front, value);
    assert(key_space_value(metrics::sample_line(key, value), key, value, percent));
}

/// The lines of a metric that has one value are lines of the format.
proof fn lemma_gauge(name: Seq<char>, value: Seq<char>, percent: Seq<char>)
    requires
        metric_name(name),
        number_text(value, percent),
        one_value(percent),
    ensures
        exposition_lines(metrics::gauge(name, value), percent),
{
    lemma_type_line(name, percent);
    lemma_sample_line(name, value, percent);
}

/// What a label value is written as holds no line feed.
proof fn lemma_label_text(value: Seq<char>)
    ensures
        forall|i: int|
            0 <= i < metrics::label_text(value).len() ==> #[trigger] metrics::label_text(value)[i]
                != '\n',
    decreases value.len(),
{
    if value.len() != 0 {
        let front = metrics::label_text(value.drop_last());
        let last = metrics::label_char(value.last());
        lemma_label_text(value.drop_last());
        assert forall|i: int| 0 <= i < metrics::label_text(value).len() implies
            #[trigger] metrics::label_text(value)[i] != '\n' by {
            if i < front.len() {
                assert(metrics::label_text(value)[i] == front[i]);
            } else {
                assert(metrics::label_text(value)[i] == last[i - front.len()]);
            }
        }
    }
}

/// The line of a metric for one item is a line of the format, whatever the item is called.
proof fn lemma_labelled(
    name: Seq<char>,
    label: Seq<char>,
    item: Seq<char>,
    flag: bool,
    percent: Seq<char>,
)
    requires
        metric_name(name),
        forall|i: int| 0 <= i < label.len() ==> #[trigger] label[i] != '\n',
        one_value(percent),
    ensures
        exposition_line(
            metrics::sample_line(metrics::labelled(name, label, item), text::flag(flag)),
            percent,
        ),
{
    reveal_strlit("{");
    reveal_strlit("=\"");
    reveal_strlit("\"}");
    let key = metrics::labelled(name, label, item);
    let value = metrics::label_text(item);
    lemma_label_text(item);
    let a = name.len() as int;
    let b = a + 1;
    let c = b + label.len();
    let d = c + 2;
    let e = d + value.len();
    assert forall|i: int| 0 <= i < key.len() implies #[trigger] key[i] != '\n' by {
        if i < a {
            assert(key[i] == name[i]);
        } else if b <= i < c {
            assert(key[i] == label[i - b]);
        } else if d <= i < e {
            assert(key[i] == value[i - d]);
        }
    }
    assert(key.take("host_guardian_"@.len() as int) == name.take("host_guardian_"@.len() as int));
    text::lemma_decimal(
        if flag {
            1
        } else {
            0
        },
    );
    lemma_sample_line(key, text::flag(flag), percent);
}

/// The lines that have one entry per mount or unit are lines of the format.
proof fn lemma_item_lines(
    mounts: Seq<(Seq<char>, Finding)>,
    units: Seq<(Seq<char>, bool)>,
    percent: Seq<char>,
)
    requires
        one_value(percent),
    ensures
        exposition_lines(metrics::mount_ok_lines(mounts), percent),
        exposition_lines(metrics::mount_present_lines(mounts), percent),
        exposition_lines(metrics::unit_lines(units), percent),
{
    lemma_names();
    reveal_strlit("path");
    reveal_strlit("unit");
    assert forall|i: int| 0 <= i < mounts.len() implies exposition_line(
        #[trigger] metrics::mount_ok_lines(mounts)[i],
        percent,
    ) by {
        let ok = mounts[i].1 == Finding::Expected;
        lemma_labelled("host_guardian_mount_ok"@, "path"@, mounts[i].0, ok, percent);
    }
    assert forall|i: int| 0 <= i < mounts.len() implies exposition_line(
        #[trigger] metrics::mount_present_lines(mounts)[i],
        percent,
    ) by {
        let present = mounts[i].1 != Finding::Nothing;
        lemma_labelled("host_guardian_mount_present"@, "path"@, mounts[i].0, present, percent);
    }
    assert forall|i: int| 0 <= i < units.len() implies exposition_line(
        #[trigger] metrics::unit_lines(units)[i],
        percent,
    ) by {
        lemma_labelled("host_guardian_unit_active"@, "unit"@, units[i].0, units[i].1, percent);
    }
}

/// The names of the metrics are plain.
proof fn lemma_names()
    ensures
        metric_name("host_guardian_up"@),
        metric_name("host_guardian_observe_only"@),
        metric_name("host_guardian_last_run_timestamp_seconds"@),
        metric_name("host_guardian_errors"@),
        metric_name("host_guardian_memory_available_bytes"@),
        metric_name("host_guardian_memory_full_psi_percent"@),
        metric_name("host_guardian_memory_emergency"@),
        metric_name("host_guardian_actions_in_window"@),
        metric_name("host_guardian_mount_ok"@),
        metric_name("host_guardian_mount_present"@),
        metric_name("host_guardian_unit_active"@),
{
    reveal_strlit("host_guardian_");
    reveal_strlit("host_guardian_up");
    reveal_strlit("host_guardian_observe_only");
    reveal_strlit("host_guardian_last_run_timestamp_seconds");
    reveal_strlit("host_guardian_errors");
    reveal_strlit("host_guardian_memory_available_bytes");
    reveal_strlit("host_guardian_memory_full_psi_percent");
    reveal_strlit("host_guardian_memory_emergency");
    reveal_strlit("host_guardian_actions_in_window");
    reveal_strlit("host_guardian_mount_ok");
    reveal_strlit("host_guardian_mount_present");
    reveal_strlit("host_guardian_unit_active");
    let prefix = "host_guardian_"@;
    assert("host_guardian_up"@.take(14) == prefix);
    assert("host_guardian_observe_only"@.take(14) == prefix);
    assert("host_guardian_last_run_timestamp_seconds"@.take(14) == prefix);
    assert("host_guardian_errors"@.take(14) == prefix);
    assert("host_guardian_memory_available_bytes"@.take(14) == prefix);
    assert("host_guardian_memory_full_psi_percent"@.take(14) == prefix);
    assert("host_guardian_memory_emergency"@.take(14) == prefix);
    assert("host_guardian_actions_in_window"@.take(14) == prefix);
    assert("host_guardian_mount_ok"@.take(14) == prefix);
    assert("host_guardian_mount_present"@.take(14) == prefix);
    assert("host_guardian_unit_active"@.take(14) == prefix);
}

/// The explanations of metrics are single lines.
proof fn lemma_explanations()
    ensures
        one_line("Whether the last evaluation completed without errors."@),
        "Whether the last evaluation completed without errors."@.len() > 0,
        one_line("Whether a mount matches its expected identity."@),
        "Whether a mount matches its expected identity."@.len() > 0,
{
    reveal_strlit("Whether the last evaluation completed without errors.");
    reveal_strlit("Whether a mount matches its expected identity.");
}

/// Every published line is a comment, or the key of a metric, a space and a number without one,
/// whatever mountpoints and units are called; and a reader of the file finds exactly those lines in it.
pub proof fn published_file_is_well_formed(s: Published)
    requires
        one_value(s.full_psi_percent),
    ensures
        exposition_lines(metrics::exposition(s), s.full_psi_percent),
        text::lines(metrics::ended(metrics::exposition(s))) == metrics::exposition(s),
{
    let p = s.full_psi_percent;
    lemma_names();
    lemma_explanations();
    text::lemma_decimal(0);
    text::lemma_decimal(1);
    text::lemma_decimal(s.timestamp as nat);
    text::lemma_decimal(s.errors);
    text::lemma_decimal(s.available_bytes as nat);
    text::lemma_decimal(s.actions_in_window);

    let about_up = metrics::help_line(
        "host_guardian_up"@,
        "Whether the last evaluation completed without errors."@,
    );
    lemma_help_line(
        "host_guardian_up"@,
        "Whether the last evaluation completed without errors."@,
        p,
    );
    let all = seq![about_up];
    assert(exposition_lines(all, p));
    let all = lemma_append_gauge(all, "host_guardian_up"@, text::flag(s.up), p);
    let all = lemma_append_gauge(all, "host_guardian_observe_only"@, text::flag(s.observe_only), p);
    let all = lemma_append_gauge(
        all,
        "host_guardian_last_run_timestamp_seconds"@,
        text::decimal(s.timestamp as nat),
        p,
    );
    let all = lemma_append_gauge(all, "host_guardian_errors"@, text::decimal(s.errors), p);
    let all = lemma_append_gauge(
        all,
        "host_guardian_memory_available_bytes"@,
        text::decimal(s.available_bytes as nat),
        p,
    );
    let all = lemma_append_gauge(all, "host_guardian_memory_full_psi_percent"@, p, p);
    let all = lemma_append_gauge(
        all,
        "host_guardian_memory_emergency"@,
        text::flag(s.emergency_active),
        p,
    );
    let all = lemma_append_gauge(
        all,
        "host_guardian_actions_in_window"@,
        text::decimal(s.actions_in_window),
        p,
    );
    let about_ok = metrics::help_line(
        "host_guardian_mount_ok"@,
        "Whether a mount matches its expected identity."@,
    );
    lemma_help_line(
        "host_guardian_mount_ok"@,
        "Whether a mount matches its expected identity."@,
        p,
    );
    lemma_type_line("host_guardian_mount_ok"@, p);
    lemma_type_line("host_guardian_mount_present"@, p);
    lemma_type_line("host_guardian_unit_active"@, p);
    lemma_item_lines(s.mounts, s.unit_active, p);

    let head = seq![about_ok, metrics::type_line("host_guardian_mount_ok"@)];
    lemma_more_lines(all, head, p);
    let all = all + head;
    lemma_more_lines(all, metrics::mount_ok_lines(s.mounts), p);
    let all = all + metrics::mount_ok_lines(s.mounts);
    let head = seq![metrics::type_line("host_guardian_mount_present"@)];
    lemma_more_lines(all, head, p);
    let all = all + head;
    lemma_more_lines(all, metrics::mount_present_lines(s.mounts), p);
    let all = all + metrics::mount_present_lines(s.mounts);
    let head = seq![metrics::type_line("host_guardian_unit_active"@)];
    lemma_more_lines(all, head, p);
    let all = all + head;
    lemma_more_lines(all, metrics::unit_lines(s.unit_active), p);
    let all = all + metrics::unit_lines(s.unit_active);
    assert(all == metrics::exposition(s));
    ended_lines_read_back(all);
}

/// Adds the lines of a metric that has one value.
proof fn lemma_append_gauge(
    all: Seq<Seq<char>>,
    name: Seq<char>,
    value: Seq<char>,
    percent: Seq<char>,
) -> (longer: Seq<Seq<char>>)
    requires
        exposition_lines(all, percent),
        metric_name(name),
        number_text(value, percent),
        one_value(percent),
    ensures
        longer == all + metrics::gauge(name, value),
        exposition_lines(longer, percent),
{
    lemma_gauge(name, value, percent);
    lemma_more_lines(all, metrics::gauge(name, value), percent);
    all + metrics::gauge(name, value)
}

} // verus!

//! Laws of incident records: under which name each is kept, and what it tells.

use crate::guardian;
use crate::guardian::Evaluation;
use crate::incident;
use crate::incident::{Field, FieldText, Incident};
use crate::mounts::MountVerdict;
use crate::text;
use vstd::prelude::*;
use vstd::utf8::*;

verus! {

/// Whether `c` is an ASCII letter or digit, told by its code point.
pub open spec fn letter_or_digit(c: char) -> bool {
    let code = c as int;
    48 <= code <= 57 || 65 <= code <= 90 || 97 <= code <= 122
}

/// Each byte changes the digest by an exclusive or and a multiplication modulo two to the power
/// 64, from a fixed start.
pub proof fn the_digest_takes_in_each_byte(bytes: Seq<u8>, b: u8)
    ensures
        incident::digest(Seq::<u8>::empty()) == 14695981039346656037,
        incident::digest(bytes.push(b)) == ((incident::digest(bytes) ^ (b as u64))
            * 17592186044851) % 18446744073709551616,
{
    assert(bytes.push(b).drop_last() == bytes);
}

/// A slug shows the first 96 characters of the key, a hyphen in place of each that is neither
/// letter nor digit, and behind another hyphen the digest of all its bytes in sixteen hexadecimal
/// digits.
pub proof fn a_slug_shows_the_key_and_its_digest(event: &str, out: String)
    requires
        call_ensures(incident::incident_slug, (event,), out),
    ensures
        ({
            let n: int = if event@.len() < 96 {
                event@.len() as int
            } else {
                96
            };
            &&& out@.len() == n + 17
            &&& forall|i: int|
                0 <= i < n ==> #[trigger] out@[i] == if letter_or_digit(event@[i]) {
                    event@[i]
                } else {
                    '-'
                }
            &&& out@[n] == '-'
            &&& out@.skip(n + 1) == text::hex(incident::digest(encode_utf8(event@)) as nat, 16)
        }),
{
    reveal_strlit("-");
    let n = incident::shown(event@).len() as int;
    let digits = text::hex(incident::digest(encode_utf8(event@)) as nat, 16);
    lemma_hex_len(incident::digest(encode_utf8(event@)) as nat, 16);
    assert(out@ == incident::shown(event@) + "-"@ + digits);
    assert forall|i: int| 0 <= i < n implies #[trigger] out@[i] == if letter_or_digit(event@[i]) {
        event@[i]
    } else {
        '-'
    } by {
        assert(out@[i] == incident::shown(event@)[i]);
    }
    assert(out@.skip(n + 1) == digits);
}

/// As many digits are written as are asked for.
proof fn lemma_hex_len(n: nat, width: nat)
    ensures
        text::hex(n, width).len() == width,
    decreases width,
{
    if width > 0 {
        lemma_hex_len(n / 16, (width - 1) as nat);
    }
}

/// A record is kept under its time, its slug and `.json`.
pub proof fn a_record_is_kept_under_time_and_slug(
    now: u64,
    event: &str,
    name: String,
    slug: String,
)
    requires
        call_ensures(incident::incident_file_name, (now, event), name),
        call_ensures(incident::incident_slug, (event,), slug),
    ensures
        name@ == text::decimal(now as nat) + "-"@ + slug@ + ".json"@,
{
}

/// A verdict is written with all that it tells: that the mount is fine, that it is missing, or
/// the source, type and root of what is mounted in its place, each quoted.
pub proof fn a_verdict_tells_what_was_found(verdict: &MountVerdict, out: String)
    requires
        call_ensures(incident::describe_verdict, (verdict,), out),
    ensures
        match verdict {
            MountVerdict::Verified => out@ == "Ok"@,
            MountVerdict::Missing => out@ == "Missing"@,
            MountVerdict::Mismatch { actual } => out@
                == "Mismatch { actual: MountIdentity { source: "@ + text::debug_text(actual.source@)
                + ", fstype: "@ + text::debug_text(actual.fstype@) + ", root: "@
                + text::debug_text(actual.root@) + " } }"@,
        },
{
}

/// Verdicts of different kinds never read the same.
pub proof fn verdicts_read_apart(a: &MountVerdict, b: &MountVerdict, s: String, t: String)
    requires
        call_ensures(incident::describe_verdict, (a,), s),
        call_ensures(incident::describe_verdict, (b,), t),
        s@ == t@,
    ensures
        a is Verified <==> b is Verified,
        a is Missing <==> b is Missing,
        a is Mismatch <==> b is Mismatch,
{
    reveal_strlit("Ok");
    reveal_strlit("Missing");
    reveal_strlit("Mismatch { actual: MountIdentity { source: ");
    assert("Ok"@[0] == 'O');
    assert("Missing"@[0] == 'M' && "Missing"@[3] == 's');
    lemma_mismatch_front(a, s);
    lemma_mismatch_front(b, t);
}

/// How a mismatch begins.
proof fn lemma_mismatch_front(v: &MountVerdict, s: String)
    requires
        call_ensures(incident::describe_verdict, (v,), s),
    ensures
        v is Mismatch ==> s@.len() > 3 && s@[0] == 'M' && s@[3] == 'm',
{
    reveal_strlit("Mismatch { actual: MountIdentity { source: ");
    let front = "Mismatch { actual: MountIdentity { source: "@;
    if let MountVerdict::Mismatch { actual } = v {
        let rest = text::debug_text(actual.source@) + ", fstype: "@ + text::debug_text(
            actual.fstype@,
        ) + ", root: "@ + text::debug_text(actual.root@) + " } }"@;
        assert(s@ == front + rest);
        assert(s@[0] == front[0] && s@[3] == front[3]);
    }
}

/// Whether `f` is the text `value` under `name`.
pub open spec fn has_text(f: (String, Field), name: Seq<char>, value: Seq<char>) -> bool {
    f.0@ == name && (f.1 matches Field::Text(s) && s@ == value)
}

/// Whether `f` is the number `value` under `name`.
pub open spec fn has_number(f: (String, Field), name: Seq<char>, value: u64) -> bool {
    f.0@ == name && (f.1 matches Field::Number(n) && n == value)
}

/// Whether `f` is the JSON text `value` under `name`.
pub open spec fn has_json(f: (String, Field), name: Seq<char>, value: Seq<char>) -> bool {
    f.0@ == name && (f.1 matches Field::Json(s) && s@ == value)
}

/// An incident is recorded with its event, its time and all that it tells, and nothing else.
pub proof fn an_incident_is_recorded_in_full(incident: &Incident, out: Vec<(String, Field)>)
    requires
        call_ensures(incident::incident_fields, (incident,), out),
    ensures
        match incident {
            Incident::MountIdentity { path, verdict, timestamp } => {
                &&& out@.len() == 4
                &&& has_text(out@[0], "event"@, "mount_identity"@)
                &&& has_text(out@[1], "path"@, path@)
                &&& has_text(out@[2], "verdict"@, verdict@)
                &&& has_number(out@[3], "timestamp"@, *timestamp)
            },
            Incident::EmergencyBegan {
                available_bytes,
                full_psi_percent,
                would_stop,
                timestamp,
            } => {
                &&& out@.len() == if would_stop is Some {
                    5int
                } else {
                    4int
                }
                &&& has_text(out@[0], "event"@, "memory_emergency_began"@)
                &&& has_number(out@[1], "available_bytes"@, *available_bytes)
                &&& has_json(out@[2], "full_psi_percent"@, full_psi_percent@)
                &&& has_number(out@[3], "timestamp"@, *timestamp)
                &&& would_stop matches Some(units) ==> out@[4].0@ == "would_stop"@ && (
                out@[4].1 matches Field::Texts(told) && text::texts(told@) == text::texts(units@))
            },
            Incident::EmergencyShed {
                unit,
                result,
                available_bytes,
                full_psi_percent,
                timestamp,
            } => {
                &&& out@.len() == 6
                &&& has_text(out@[0], "event"@, "memory_emergency_shed"@)
                &&& has_text(out@[1], "unit"@, unit@)
                &&& has_text(out@[2], "result"@, result@)
                &&& has_number(out@[3], "available_bytes"@, *available_bytes)
                &&& has_json(out@[4], "full_psi_percent"@, full_psi_percent@)
                &&& has_number(out@[5], "timestamp"@, *timestamp)
            },
        },
        incident::field_texts(out@) == incident::fields(*incident),
{
    let all = incident::field_texts(out@);
    assert(all == incident::fields(*incident));
    assert(all.len() == out@.len());
    lemma_field(out@, 0);
    lemma_field(out@, 1);
    lemma_field(out@, 2);
    lemma_field(out@, 3);
    if all.len() > 4 {
        lemma_field(out@, 4);
    }
    if all.len() > 5 {
        lemma_field(out@, 5);
    }
}

/// The text of a field among others is its own.
proof fn lemma_field(all: Seq<(String, Field)>, i: int)
    requires
        0 <= i < all.len(),
    ensures
        incident::field_texts(all)[i] == (all[i].0@, all[i].1@),
{
}

/// What a field stands for is what it holds.
pub proof fn fields_stand_for_what_they_hold(f: Field)
    ensures
        match f {
            Field::Text(s) => f@ == FieldText::Text(s@),
            Field::Texts(all) => f@ == FieldText::Texts(text::texts(all@)),
            Field::Number(n) => f@ == FieldText::Number(n),
            Field::Json(s) => f@ == FieldText::Json(s@),
        },
{
}

/// A record has a member for each field, and none besides: without fields there is none, and a
/// further field adds its own, or makes the record impossible where it has no value. Texts and
/// numbers always have one.
pub proof fn a_record_has_a_member_for_each_field(
    all: Seq<(Seq<char>, FieldText)>,
    key: Seq<char>,
    field: FieldText,
)
    ensures
        incident::object_of(Seq::<(Seq<char>, FieldText)>::empty()) == Some(
            Map::<Seq<char>, Seq<char>>::empty(),
        ),
        match (incident::object_of(all), incident::json_value(field)) {
            (Some(members), Some(value)) => incident::object_of(all.push((key, field))) == Some(
                members.insert(key, value),
            ),
            _ => incident::object_of(all.push((key, field))) is None,
        },
        !(field is Json) ==> incident::json_value(field) is Some,
        field matches FieldText::Json(s) ==> incident::json_value(field)
            == incident::json_reading(s),
        field matches FieldText::Number(n) ==> incident::json_value(field) == Some(
            text::decimal(n as nat),
        ),
        field matches FieldText::Text(s) ==> incident::json_value(field) == Some(
            seq!['"'] + incident::json_chars(s) + seq!['"'],
        ),
{
    assert(all.push((key, field)).drop_last() == all);
}

/// Strings in a list are written with commas between, in brackets.
pub proof fn a_list_is_written_item_by_item(all: Seq<Seq<char>>, s: Seq<char>)
    ensures
        incident::json_value(FieldText::Texts(all)) == Some(
            seq!['['] + incident::json_items(all) + seq![']'],
        ),
        incident::json_items(Seq::<Seq<char>>::empty()) == Seq::<char>::empty(),
        incident::json_items(all.push(s)) == if all.len() == 0 {
            incident::json_string(s)
        } else {
            incident::json_items(all) + seq![','] + incident::json_string(s)
        },
{
    assert(all.push(s).drop_last() == all);
    if all.len() == 0 {
        assert(all.push(s)[0] == s);
    }
}

/// A character of a string is written as it is, unless it is a quote, a backslash or a control
/// character: those are escaped, by a letter where there is one for them.
pub proof fn characters_are_escaped_for_json(s: Seq<char>, c: char)
    ensures
        incident::json_chars(Seq::<char>::empty()) == Seq::<char>::empty(),
        incident::json_chars(s.push(c)) == incident::json_chars(s) + incident::json_char(c),
        c as int == 34 ==> incident::json_char(c) == seq!['\\', '"'],
        c as int == 92 ==> incident::json_char(c) == seq!['\\', '\\'],
        c as int == 8 ==> incident::json_char(c) == seq!['\\', 'b'],
        c as int == 9 ==> incident::json_char(c) == seq!['\\', 't'],
        c as int == 10 ==> incident::json_char(c) == seq!['\\', 'n'],
        c as int == 12 ==> incident::json_char(c) == seq!['\\', 'f'],
        c as int == 13 ==> incident::json_char(c) == seq!['\\', 'r'],
        (c as int) < 8 || c as int == 11 || 14 <= c as int <= 31 ==> incident::json_char(c) == seq![
            '\\',
            'u',
        ] + text::hex(c as nat, 4),
        c as int >= 32 && c as int != 34 && c as int != 92 ==> incident::json_char(c) == seq![c],
{
    assert(s.push(c).drop_last() == s);
}

/// The text of an incident is the object that has its fields, or an empty one where a field has
/// no value, and a line feed.
pub proof fn an_incident_is_one_object_and_a_line_feed(
    incident: &Incident,
    out: String,
    listed: Vec<(String, Field)>,
)
    requires
        call_ensures(incident::incident_text, (incident,), out),
        call_ensures(incident::incident_fields, (incident,), listed),
    ensures
        match incident::object_of(incident::field_texts(listed@)) {
            Some(members) => out@ == incident::pretty_object(members) + seq!['\n'],
            None => out@ == seq!['{', '}', '\n'],
        },
{
    reveal_strlit("\n");
    reveal_strlit("{}");
    assert("\n"@ == seq!['\n']);
    assert("{}"@ + "\n"@ == seq!['{', '}', '\n']);
}

/// An object that was written is framed by a line feed behind it, and an empty one stands in for
/// one that was not.
pub proof fn a_record_is_framed_by_a_line_feed(object: Option<String>, out: String)
    requires
        call_ensures(incident::frame_record, (object,), out),
    ensures
        match object {
            Some(text) => out@ == text@ + seq!['\n'],
            None => out@ == seq!['{', '}', '\n'],
        },
{
    reveal_strlit("\n");
    reveal_strlit("{}");
    assert("\n"@ == seq!['\n']);
    assert("{}"@ + "\n"@ == seq!['{', '}', '\n']);
}

/// The stop of a unit is recorded under the name of that unit, with how the stop went, the
/// readings of the evaluation and the time.
pub proof fn a_stop_is_recorded_with_its_outcome(
    unit: &str,
    outcome: Result<(), String>,
    ev: &Evaluation,
    now: u64,
    out: (String, Incident),
)
    requires
        call_ensures(guardian::shed_record, (unit, outcome, ev, now), out),
    ensures
        out.0@ == "memory-emergency-"@ + unit@,
        out.1 matches Incident::EmergencyShed {
            unit: told,
            result,
            available_bytes,
            full_psi_percent,
            timestamp,
        } && told@ == unit@ && (match outcome {
            Ok(_) => result@ == "shed"@,
            Err(why) => result@ == "failed: "@ + why@,
        }) && available_bytes == ev.pressure.available_bytes && full_psi_percent@
            == ev.percent_json@ && timestamp == now,
{
    let result = match outcome {
        Ok(_) => "shed"@,
        Err(why) => "failed: "@ + why@,
    };
    let all = incident::fields(out.1);
    let expected = incident::shed_fields(
        unit@,
        result,
        ev.pressure.available_bytes,
        ev.percent_json@,
        now,
    );
    assert(all == expected);
    assert(all.len() == 6);
    assert(out.1 is EmergencyShed);
    assert(all[1] == expected[1] && all[2] == expected[2] && all[3] == expected[3] && all[4]
        == expected[4] && all[5] == expected[5]);
}

} // verus!

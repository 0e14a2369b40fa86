//! Incident records: what is written down when something happens, and under which name.

use crate::mounts::{Finding, MountVerdict};
use crate::text;
use vstd::prelude::*;
use vstd::utf8::*;

verus! {

/// How many characters of an event key a file name shows.
pub const SHOWN: usize = 96;

/// Where the digest of a key starts.
pub const DIGEST_START: u64 = 0xcbf2_9ce4_8422_2325;

/// What the digest is multiplied by for each byte.
pub const DIGEST_FACTOR: u64 = 0x1000_0000_01b3;

/// Whether `c` is an ASCII letter or digit.
pub open spec fn alphanumeric(c: char) -> bool {
    '0' <= c <= '9' || 'A' <= c <= 'Z' || 'a' <= c <= 'z'
}

/// `c` if it can stand in any file name, else a hyphen.
pub open spec fn safe_char(c: char) -> char {
    if alphanumeric(c) {
        c
    } else {
        '-'
    }
}

/// What a file name shows of an event key.
pub open spec fn shown(event: Seq<char>) -> Seq<char> {
    let n = if event.len() <= SHOWN {
        event.len()
    } else {
        SHOWN as nat
    };
    Seq::new(n, |i: int| safe_char(event[i]))
}

/// The digest after one more byte.
pub open spec fn digest_step(digest: u64, byte: u8) -> u64 {
    (digest ^ (byte as u64)).wrapping_mul(DIGEST_FACTOR)
}

/// The digest of bytes: each is mixed in by an exclusive or and a multiplication.
pub open spec fn digest(bytes: Seq<u8>) -> u64
    decreases bytes.len(),
{
    if bytes.len() == 0 {
        DIGEST_START
    } else {
        digest_step(digest(bytes.drop_last()), bytes.last())
    }
}

/// The file name of an event, without time and extension.
pub open spec fn slug(event: Seq<char>) -> Seq<char> {
    shown(event) + "-"@ + text::hex(digest(encode_utf8(event)) as nat, 16)
}

/// Filename-safe rendering of an event key, with a digest so distinct keys
/// do not come to share a file.
///
/// Sanitising alone collides: `mount:/srv/data` and `mount:/srv-data` both
/// flatten to the same name, and one incident would silently overwrite the
/// other. The digest is for disambiguation, not security.
pub fn incident_slug(event: &str) -> (out: String)
    ensures
        out@ == slug(event@),
{
    let chars = text::chars_of(event);
    let mut out = String::new();
    let mut i: usize = 0;
    while i < chars.len() && i < SHOWN
        invariant
            i <= chars.len(),
            i <= SHOWN,
            chars@ == event@,
            out@ == shown(event@).take(i as int),
        decreases chars.len() - i,
    {
        let c = chars[i];
        if ('0' <= c && c <= '9') || ('A' <= c && c <= 'Z') || ('a' <= c && c <= 'z') {
            out.push(c);
        } else {
            out.push('-');
        }
        assert(out@ == shown(event@).take(i + 1));
        i += 1;
    }
    assert(out@ == shown(event@));

    let bytes = event.as_bytes();
    let mut hash: u64 = DIGEST_START;
    let mut k: usize = 0;
    while k < bytes.len()
        invariant
            k <= bytes.len(),
            hash == digest(bytes@.take(k as int)),
        decreases bytes.len() - k,
    {
        assert(bytes@.take(k + 1).drop_last() == bytes@.take(k as int));
        hash = hash ^ (bytes[k] as u64);
        hash = hash.wrapping_mul(DIGEST_FACTOR);
        k += 1;
    }
    assert(bytes@.take(k as int) == bytes@);
    out.append("-");
    out.append(text::hex_of(hash, 16).as_str());
    out
}

/// The name of the file that records an event of time `now`.
pub fn incident_file_name(now: u64, event: &str) -> (name: String)
    ensures
        name@ == text::decimal(now as nat) + "-"@ + slug(event@) + ".json"@,
{
    let mut name = text::decimal_of(now);
    name.append("-");
    name.append(incident_slug(event).as_str());
    name.append(".json");
    name
}

/// What happened. Percentages are given as their JSON text.
#[derive(Debug, PartialEq, Eq)]
pub enum Incident {
    MountIdentity { path: String, verdict: String, timestamp: u64 },
    EmergencyBegan {
        available_bytes: u64,
        full_psi_percent: String,
        /// Where nothing may be stopped: the units that would have been.
        would_stop: Option<Vec<String>>,
        timestamp: u64,
    },
    EmergencyShed {
        unit: String,
        result: String,
        available_bytes: u64,
        full_psi_percent: String,
        timestamp: u64,
    },
}

/// The text that tells what was found at a mountpoint.
pub open spec fn finding_text(finding: Finding) -> Seq<char> {
    match finding {
        Finding::Expected => "Ok"@,
        Finding::Nothing => "Missing"@,
        Finding::Other(actual) => "Mismatch { actual: MountIdentity { source: "@
            + text::debug_text(actual.source) + ", fstype: "@ + text::debug_text(actual.fstype)
            + ", root: "@ + text::debug_text(actual.root) + " } }"@,
    }
}

/// Writes a verdict.
pub fn describe_verdict(verdict: &MountVerdict) -> (out: String)
    ensures
        out@ == finding_text(verdict@),
{
    match verdict {
        MountVerdict::Verified => "Ok".to_owned(),
        MountVerdict::Missing => "Missing".to_owned(),
        MountVerdict::Mismatch { actual } => {
            let mut out = "Mismatch { actual: MountIdentity { source: ".to_owned();
            out.append(text::quoted(actual.source.as_str()).as_str());
            out.append(", fstype: ");
            out.append(text::quoted(actual.fstype.as_str()).as_str());
            out.append(", root: ");
            out.append(text::quoted(actual.root.as_str()).as_str());
            out.append(" } }");
            out
        },
    }
}

/// The value of one field of a record.
pub enum Field {
    Text(String),
    Texts(Vec<String>),
    Number(u64),
    /// A value given as its JSON text.
    Json(String),
}

/// What a [`Field`] stands for.
pub enum FieldText {
    Text(Seq<char>),
    Texts(Seq<Seq<char>>),
    Number(u64),
    Json(Seq<char>),
}

impl View for Field {
    type V = FieldText;

    open spec fn view(&self) -> FieldText {
        match self {
            Field::Text(s) => FieldText::Text(s@),
            Field::Texts(all) => FieldText::Texts(text::texts(all@)),
            Field::Number(n) => FieldText::Number(*n),
            Field::Json(s) => FieldText::Json(s@),
        }
    }
}

/// The fields that record what was found at a mountpoint.
pub open spec fn mount_fields(path: Seq<char>, verdict: Seq<char>, timestamp: u64) -> Seq<
    (Seq<char>, FieldText),
> {
    seq![
        ("event"@, FieldText::Text("mount_identity"@)),
        ("path"@, FieldText::Text(path)),
        ("verdict"@, FieldText::Text(verdict)),
        ("timestamp"@, FieldText::Number(timestamp)),
    ]
}

/// The fields that record that an emergency began. Where nothing may be stopped they name the
/// units that would have been.
pub open spec fn began_fields(
    available_bytes: u64,
    full_psi_percent: Seq<char>,
    would_stop: Option<Seq<Seq<char>>>,
    timestamp: u64,
) -> Seq<(Seq<char>, FieldText)> {
    let always = seq![
        ("event"@, FieldText::Text("memory_emergency_began"@)),
        ("available_bytes"@, FieldText::Number(available_bytes)),
        ("full_psi_percent"@, FieldText::Json(full_psi_percent)),
        ("timestamp"@, FieldText::Number(timestamp)),
    ];
    match would_stop {
        Some(units) => always.push(("would_stop"@, FieldText::Texts(units))),
        None => always,
    }
}

/// The fields that record that a unit was shed, or was to be.
pub open spec fn shed_fields(
    unit: Seq<char>,
    result: Seq<char>,
    available_bytes: u64,
    full_psi_percent: Seq<char>,
    timestamp: u64,
) -> Seq<(Seq<char>, FieldText)> {
    seq![
        ("event"@, FieldText::Text("memory_emergency_shed"@)),
        ("unit"@, FieldText::Text(unit)),
        ("result"@, FieldText::Text(result)),
        ("available_bytes"@, FieldText::Number(available_bytes)),
        ("full_psi_percent"@, FieldText::Json(full_psi_percent)),
        ("timestamp"@, FieldText::Number(timestamp)),
    ]
}

/// The fields of the record of an incident.
pub open spec fn fields(incident: Incident) -> Seq<(Seq<char>, FieldText)> {
    match incident {
        Incident::MountIdentity { path, verdict, timestamp } => mount_fields(
            path@,
            verdict@,
            timestamp,
        ),
        Incident::EmergencyBegan { available_bytes, full_psi_percent, would_stop, timestamp } =>
            began_fields(
            available_bytes,
            full_psi_percent@,
            match would_stop {
                Some(units) => Some(text::texts(units@)),
                None => None,
            },
            timestamp,
        ),
        Incident::EmergencyShed {
            unit,
            result,
            available_bytes,
            full_psi_percent,
            timestamp,
        } => shed_fields(unit@, result@, available_bytes, full_psi_percent@, timestamp),
    }
}

/// The texts of fields.
pub open spec fn field_texts(all: Seq<(String, Field)>) -> Seq<(Seq<char>, FieldText)> {
    all.map_values(|f: (String, Field)| (f.0@, f.1@))
}

/// Lists the fields of the record of an incident.
pub fn incident_fields(incident: &Incident) -> (out: Vec<(String, Field)>)
    ensures
        field_texts(out@) == fields(*incident),
{
    let mut out: Vec<(String, Field)> = Vec::new();
    match incident {
        Incident::MountIdentity { path, verdict, timestamp } => {
            out.push(("event".to_owned(), Field::Text("mount_identity".to_owned())));
            out.push(("path".to_owned(), Field::Text(path.clone())));
            out.push(("verdict".to_owned(), Field::Text(verdict.clone())));
            out.push(("timestamp".to_owned(), Field::Number(*timestamp)));
        },
        Incident::EmergencyBegan { available_bytes, full_psi_percent, would_stop, timestamp } => {
            out.push(("event".to_owned(), Field::Text("memory_emergency_began".to_owned())));
            out.push(("available_bytes".to_owned(), Field::Number(*available_bytes)));
            out.push(("full_psi_percent".to_owned(), Field::Json(full_psi_percent.clone())));
            out.push(("timestamp".to_owned(), Field::Number(*timestamp)));
            if let Some(units) = would_stop {
                out.push(("would_stop".to_owned(), Field::Texts(text::copy_of(units))));
            }
        },
        Incident::EmergencyShed {
            unit,
            result,
            available_bytes,
            full_psi_percent,
            timestamp,
        } => {
            out.push(("event".to_owned(), Field::Text("memory_emergency_shed".to_owned())));
            out.push(("unit".to_owned(), Field::Text(unit.clone())));
            out.push(("result".to_owned(), Field::Text(result.clone())));
            out.push(("available_bytes".to_owned(), Field::Number(*available_bytes)));
            out.push(("full_psi_percent".to_owned(), Field::Json(full_psi_percent.clone())));
            out.push(("timestamp".to_owned(), Field::Number(*timestamp)));
        },
    }
    assert(field_texts(out@) == fields(*incident));
    out
}

/// Makes the type of JSON values known. Nothing is said of what is inside one.
#[verifier::external_type_specification]
#[verifier::external_body]
pub struct ExValue(serde_json::Value);

/// Makes the type of JSON objects known.
#[verifier::external_type_specification]
#[verifier::external_body]
#[verifier::reject_recursive_types(K)]
#[verifier::reject_recursive_types(V)]
pub struct ExMap<K, V>(serde_json::Map<K, V>);

/// The members of a JSON object: by its key, the compact JSON text of each value.
pub uninterp spec fn members(object: serde_json::Map<String, serde_json::Value>) -> Map<
    Seq<char>,
    Seq<char>,
>;

/// The compact JSON text of the value that `serde_json::from_str` reads in a text, if it reads one.
pub uninterp spec fn json_reading(s: Seq<char>) -> Option<Seq<char>>;

/// The text that `serde_json::to_string_pretty` gives for an object with these members.
pub uninterp spec fn pretty_object(members: Map<Seq<char>, Seq<char>>) -> Seq<char>;

/// How one character of a string is written in JSON: quotes, backslashes and control characters
/// are escaped, and any other character stands for itself.
pub open spec fn json_char(c: char) -> Seq<char> {
    if c == '"' {
        seq!['\\', '"']
    } else if c == '\\' {
        seq!['\\', '\\']
    } else if c == '\u{8}' {
        seq!['\\', 'b']
    } else if c == '\t' {
        seq!['\\', 't']
    } else if c == '\n' {
        seq!['\\', 'n']
    } else if c == '\u{c}' {
        seq!['\\', 'f']
    } else if c == '\r' {
        seq!['\\', 'r']
    } else if c <= '\u{1f}' {
        seq!['\\', 'u'] + text::hex(c as nat, 4)
    } else {
        seq![c]
    }
}

/// How the characters of a string are written in JSON.
pub open spec fn json_chars(s: Seq<char>) -> Seq<char>
    decreases s.len(),
{
    if s.len() == 0 {
        Seq::empty()
    } else {
        json_chars(s.drop_last()) + json_char(s.last())
    }
}

/// The JSON text of a string.
pub open spec fn json_string(s: Seq<char>) -> Seq<char> {
    seq!['"'] + json_chars(s) + seq!['"']
}

/// The JSON texts of strings, with commas between.
pub open spec fn json_items(all: Seq<Seq<char>>) -> Seq<char>
    decreases all.len(),
{
    if all.len() == 0 {
        Seq::empty()
    } else if all.len() == 1 {
        json_string(all[0])
    } else {
        json_items(all.drop_last()) + seq![','] + json_string(all.last())
    }
}

/// The compact JSON text of the value of a field, if it has one. Only a text that is no JSON has
/// none.
pub open spec fn json_value(field: FieldText) -> Option<Seq<char>> {
    match field {
        FieldText::Text(s) => Some(json_string(s)),
        FieldText::Texts(all) => Some(seq!['['] + json_items(all) + seq![']']),
        FieldText::Number(n) => Some(text::decimal(n as nat)),
        FieldText::Json(s) => json_reading(s),
    }
}

/// The members of an object that has none.
pub open spec fn no_members() -> Map<Seq<char>, Seq<char>> {
    Map::empty()
}

/// Calls `serde_json::Map::new`: the object has no members.
#[verifier::external_body]
fn new_object() -> (object: serde_json::Map<String, serde_json::Value>)
    ensures
        members(object) == no_members(),
{
    serde_json::Map::new()
}

/// Calls `serde_json::Map::insert`, with the field made a `serde_json::Value`: the member takes
/// the place of one with the same key, and no other member changes. A field that is given as JSON
/// text is read by `serde_json::from_str`; where that fails nothing is put in, and of what it
/// reads the contract says only that it is determined by the text.
#[verifier::external_body]
fn put(
    object: &mut serde_json::Map<String, serde_json::Value>,
    key: &str,
    field: &Field,
) -> (done: bool)
    ensures
        done == (field@ matches FieldText::Json(s) ==> json_reading(s) is Some),
        members(*final(object)) == if done {
            members(*old(object)).insert(key@, json_value(field@)->0)
        } else {
            members(*old(object))
        },
{
    let value = match field {
        Field::Text(s) => Ok(serde_json::Value::from(s.as_str())),
        Field::Texts(all) => Ok(serde_json::Value::from(all.clone())),
        Field::Number(n) => Ok(serde_json::Value::from(*n)),
        Field::Json(s) => serde_json::from_str(s),
    };
    value.map(|v| object.insert(key.to_owned(), v)).is_ok()
}

/// Calls `serde_json::to_string_pretty` on an object. The text is determined by the members; an
/// object of JSON values always has one.
#[verifier::external_body]
fn pretty(object: &serde_json::Map<String, serde_json::Value>) -> (out: Option<String>)
    ensures
        maybe_text(out) == Some(pretty_object(members(*object))),
{
    serde_json::to_string_pretty(object).ok()
}

/// The members of the object that has these fields, if all of them have a value. Of two fields
/// with one key the later counts.
pub open spec fn object_of(all: Seq<(Seq<char>, FieldText)>) -> Option<Map<Seq<char>, Seq<char>>>
    decreases all.len(),
{
    if all.len() == 0 {
        Some(no_members())
    } else {
        match (object_of(all.drop_last()), json_value(all.last().1)) {
            (Some(before), Some(value)) => Some(before.insert(all.last().0, value)),
            _ => None,
        }
    }
}

/// What is written for fields: their object, or an empty one where that cannot be had.
pub open spec fn record(all: Seq<(Seq<char>, FieldText)>) -> Seq<char> {
    framed(
        match object_of(all) {
            Some(object) => Some(pretty_object(object)),
            None => None,
        },
    )
}

/// The text of a record whose object has this text, or an empty object where there is none.
pub open spec fn framed(object: Option<Seq<char>>) -> Seq<char> {
    (match object {
        Some(text) => text,
        None => "{}"@,
    }) + "\n"@
}

/// The text of an optional string.
pub open spec fn maybe_text(s: Option<String>) -> Option<Seq<char>> {
    match s {
        Some(s) => Some(s@),
        None => None,
    }
}

/// A value that one field lacks, the object lacks.
proof fn lemma_no_object(all: Seq<(Seq<char>, FieldText)>, n: int)
    requires
        0 <= n <= all.len(),
        object_of(all.take(n)) is None,
    ensures
        object_of(all) is None,
    decreases all.len(),
{
    if n == all.len() {
        assert(all.take(n) == all);
    } else {
        assert(all.drop_last().take(n) == all.take(n));
        lemma_no_object(all.drop_last(), n);
    }
}

/// Writes fields as the text of a record.
fn write_fields(all: &Vec<(String, Field)>) -> (out: String)
    ensures
        out@ == record(field_texts(all@)),
{
    let ghost model = field_texts(all@);
    let mut object = new_object();
    let mut i: usize = 0;
    while i < all.len()
        invariant
            i <= all.len(),
            model == field_texts(all@),
            object_of(model.take(i as int)) == Some(members(object)),
        decreases all.len() - i,
    {
        proof {
            assert(model.take(i + 1).drop_last() == model.take(i as int));
            assert(model.take(i + 1).last() == (all@[i as int].0@, all@[i as int].1@));
        }
        if !put(&mut object, all[i].0.as_str(), &all[i].1) {
            proof {
                lemma_no_object(model, i + 1);
            }
            return frame_record(None);
        }
        i += 1;
    }
    assert(model.take(i as int) == model);
    frame_record(pretty(&object))
}

/// Makes a record of the text of its object: a line feed ends it, and an empty object stands in
/// for one that could not be had.
pub fn frame_record(object: Option<String>) -> (out: String)
    ensures
        out@ == framed(maybe_text(object)),
{
    let mut out = match object {
        Some(text) => text,
        None => "{}".to_owned(),
    };
    out.append("\n");
    out
}

/// Writes the record of an incident: one JSON object and a line feed.
pub fn incident_text(incident: &Incident) -> (out: String)
    ensures
        out@ == record(fields(*incident)),
{
    write_fields(&incident_fields(incident))
}

} // verus!

//! Mount identity verification against `/proc/self/mountinfo`.
//!
//! Checking a path is *mounted* is easy; checking the thing mounted there is
//! still the filesystem you expected is not covered by anything standard. A
//! vanished nested mount exposes its writable parent, so writes meant for a
//! dedicated volume silently fill the root filesystem instead.

use crate::text;
use crate::text::Gap;
use vstd::hash_map::StringHashMap;
use vstd::prelude::*;
use vstd::utf8::*;

verus! {

/// One line of `/proc/self/mountinfo`, reduced to the fields that establish
/// identity. The device major:minor is deliberately excluded: minor numbers are
/// reallocated across boots, so pinning them produces false alarms.
#[derive(Debug, PartialEq, Eq)]
pub struct MountIdentity {
    pub source: String,
    pub fstype: String,
    /// The subtree of the source filesystem that is mounted, not the mountpoint.
    /// A bind mount of `/data/sub` onto `/mnt` has root `/data/sub`.
    pub root: String,
}

/// The texts of a [`MountIdentity`].
pub struct Identity {
    pub source: Seq<char>,
    pub fstype: Seq<char>,
    pub root: Seq<char>,
}

impl View for MountIdentity {
    type V = Identity;

    open spec fn view(&self) -> Identity {
        Identity { source: self.source@, fstype: self.fstype@, root: self.root@ }
    }
}

impl Clone for MountIdentity {
    fn clone(&self) -> (copy: Self)
        ensures
            copy@ == self@,
    {
        MountIdentity {
            source: self.source.clone(),
            fstype: self.fstype.clone(),
            root: self.root.clone(),
        }
    }
}

/// The filesystem that an operator declares to be mounted at `path`.
#[derive(Debug, Clone)]
pub struct MountExpectation {
    pub path: String,
    pub source: String,
    pub fstype: String,
    pub root: String,
}

impl MountExpectation {
    /// The identity that the expectation asks for.
    pub open spec fn identity(&self) -> Identity {
        Identity { source: self.source@, fstype: self.fstype@, root: self.root@ }
    }
}

/// The subtree that an expectation names when it names none: the whole filesystem.
pub fn default_root() -> (root: String)
    ensures
        root@ == "/"@,
{
    "/".to_owned()
}

/// Why a mountinfo text could not be read.
#[derive(Debug)]
pub enum MountError {
    Malformed { line: usize, reason: String },
}

impl MountError {
    /// The text that reports the error.
    pub fn message(&self) -> (text: String)
        ensures
            match self {
                MountError::Malformed { line, reason } => text@ == "mountinfo line "@ + text::decimal(
                    *line as nat,
                ) + ": "@ + reason@,
            },
    {
        match self {
            MountError::Malformed { line, reason } => {
                let mut text = "mountinfo line ".to_owned();
                text.append(text::decimal_of(*line as u64).as_str());
                text.append(": ");
                text.append(reason.as_str());
                text
            },
        }
    }
}

/// The number that three bytes denote as octal digits.
pub open spec fn octal(a: u8, b: u8, c: u8) -> int {
    (a - 0x30) * 64 + (b - 0x30) * 8 + (c - 0x30)
}

/// Whether a byte is an octal digit.
pub open spec fn octal_digit(b: u8) -> bool {
    0x30 <= b <= 0x37
}

/// Whether `bytes` begins with an escape: a backslash, then three octal digits that denote a
/// byte.
pub open spec fn escaped(bytes: Seq<u8>) -> bool {
    &&& bytes.len() >= 4
    &&& bytes[0] == 0x5c
    &&& octal_digit(bytes[1])
    &&& octal_digit(bytes[2])
    &&& octal_digit(bytes[3])
    &&& octal(bytes[1], bytes[2], bytes[3]) <= 0xff
}

/// `bytes` with each escape, read from the left, replaced by the byte it denotes.
pub open spec fn decode_escapes(bytes: Seq<u8>) -> Seq<u8>
    decreases bytes.len(),
{
    if bytes.len() == 0 {
        Seq::empty()
    } else if escaped(bytes) {
        seq![octal(bytes[1], bytes[2], bytes[3]) as u8] + decode_escapes(bytes.skip(4))
    } else {
        seq![bytes[0]] + decode_escapes(bytes.skip(1))
    }
}

/// The text that a mountinfo field stands for.
pub open spec fn unescaped(field: Seq<char>) -> Seq<char> {
    text::lossy(decode_escapes(encode_utf8(field)))
}

/// Decode the octal escapes the kernel applies to mountinfo fields.
///
/// A path containing a space is written `\040`; without decoding, such a mount
/// never matches its expectation and the guardian reports a phantom failure.
/// The work is done on bytes: the kernel escapes bytes, and mountpoints are
/// arbitrary UTF-8.
pub fn unescape(field: &str) -> (text: String)
    ensures
        text@ == unescaped(field@),
{
    let bytes = field.as_bytes();
    let mut out: Vec<u8> = Vec::new();
    let mut i: usize = 0;
    assert(bytes@.skip(0) == bytes@);
    while i < bytes.len()
        invariant
            i <= bytes.len(),
            out@ + decode_escapes(bytes@.skip(i as int)) == decode_escapes(bytes@),
        decreases bytes.len() - i,
    {
        let ghost rest = bytes@.skip(i as int);
        let ghost before = out@;
        if bytes[i] == 0x5c && bytes.len() - i > 3 {
            let a = bytes[i + 1];
            let b = bytes[i + 2];
            let c = bytes[i + 3];
            if 0x30 <= a && a <= 0x37 && 0x30 <= b && b <= 0x37 && 0x30 <= c && c <= 0x37 {
                let value: u16 = (a - 0x30) as u16 * 64 + (b - 0x30) as u16 * 8 + (c - 0x30) as u16;
                if value <= 0xff {
                    out.push(value as u8);
                    proof {
                        assert(escaped(rest));
                        assert(rest.skip(4) == bytes@.skip(i + 4));
                        assert(before + (seq![value as u8] + decode_escapes(rest.skip(4)))
                            == before.push(value as u8) + decode_escapes(rest.skip(4)));
                    }
                    i += 4;
                    continue;
                }
            }
        }
        out.push(bytes[i]);
        proof {
            assert(!escaped(rest));
            assert(rest.skip(1) == bytes@.skip(i + 1));
            assert(before + (seq![rest[0]] + decode_escapes(rest.skip(1))) == before.push(rest[0])
                + decode_escapes(rest.skip(1)));
        }
        i += 1;
    }
    proof {
        assert(bytes@.skip(i as int) == Seq::<u8>::empty());
        assert(out@ + Seq::<u8>::empty() == out@);
    }
    text::utf8_lossy(out.as_slice())
}

/// What one line of mountinfo says: the mountpoint and the identity of what is mounted there,
/// or what is wrong with the line.
///
/// Layout: `ID PARENT MAJ:MIN ROOT MOUNTPOINT OPTS... - FSTYPE SOURCE OPTS`. The run of optional
/// fields before the separator is of any length, so the tail is located by the separator rather
/// than by a fixed index. Fields are parted by spaces and tabs only: the kernel escapes those in a
/// name, and any other white space in a name stands as it is.
pub open spec fn mount_line(line: Seq<char>) -> Result<(Seq<char>, Identity), Seq<char>> {
    match text::split_once(line, " - "@) {
        None => Err("no ' - ' separator"@),
        Some((head, tail)) => {
            let h = text::words(head, Gap::SpaceOrTab);
            let t = text::words(tail, Gap::SpaceOrTab);
            if h.len() < 5 {
                Err("expected at least 5 fields before separator, got "@ + text::decimal(h.len()))
            } else if t.len() < 2 {
                Err("expected fstype and source after separator"@)
            } else {
                Ok(
                    (
                        unescaped(h[4]),
                        Identity {
                            source: unescaped(t[1]),
                            fstype: unescaped(t[0]),
                            root: unescaped(h[3]),
                        },
                    ),
                )
            }
        },
    }
}

/// What the lines of mountinfo say together: which identity is mounted where, or the number of
/// the first line that is wrong and what is wrong with it. Blank lines say nothing, and of two
/// lines on one mountpoint the later holds.
pub open spec fn mount_lines(all: Seq<Seq<char>>) -> Result<
    Map<Seq<char>, Identity>,
    (nat, Seq<char>),
>
    decreases all.len(),
{
    if all.len() == 0 {
        Ok(Map::empty())
    } else {
        match mount_lines(all.drop_last()) {
            Err(fault) => Err(fault),
            Ok(table) => if text::blank(all.last()) {
                Ok(table)
            } else {
                match mount_line(all.last()) {
                    Err(reason) => Err((all.len(), reason)),
                    Ok((path, identity)) => Ok(table.insert(path, identity)),
                }
            },
        }
    }
}

/// Which identity is mounted at each mountpoint.
pub struct MountTable {
    mounts: StringHashMap<MountIdentity>,
}

impl View for MountTable {
    type V = Map<Seq<char>, Identity>;

    closed spec fn view(&self) -> Map<Seq<char>, Identity> {
        Map::new(|path: Seq<char>| self.mounts@.contains_key(path), |path| self.mounts@[path]@)
    }
}

impl MountTable {
    /// A table with no mount in it.
    pub fn new() -> (table: Self)
        ensures
            table@ == Map::<Seq<char>, Identity>::empty(),
    {
        MountTable { mounts: StringHashMap::new() }
    }

    /// Records what is mounted at `path`, in place of what was recorded there before.
    pub fn insert(&mut self, path: String, identity: MountIdentity)
        ensures
            final(self)@ == old(self)@.insert(path@, identity@),
    {
        self.mounts.insert(path, identity);
    }

    /// What is mounted at `path`.
    pub fn get(&self, path: &str) -> (identity: Option<&MountIdentity>)
        ensures
            match identity {
                Some(got) => self@.contains_key(path@) && got@ == self@[path@],
                None => !self@.contains_key(path@),
            },
    {
        self.mounts.get(path)
    }

    /// Tells whether anything is mounted at `path`.
    pub fn contains_key(&self, path: &str) -> (yes: bool)
        ensures
            yes == self@.contains_key(path@),
    {
        self.mounts.contains_key(path)
    }
}

/// Reads one line of mountinfo.
fn read_mount_line(line: &[char]) -> (out: Result<(String, MountIdentity), String>)
    ensures
        match out {
            Ok(entry) => mount_line(line@) == Ok::<(Seq<char>, Identity), Seq<char>>(
                (entry.0@, entry.1@),
            ),
            Err(reason) => mount_line(line@) == Err::<(Seq<char>, Identity), Seq<char>>(reason@),
        },
{
    let separator = text::chars_of(" - ");
    let (head, tail) = match text::cut_once(line, separator.as_slice()) {
        Some(parts) => parts,
        None => {
            return Err("no ' - ' separator".to_owned());
        },
    };

    let head_fields = text::split_words(head.as_slice(), Gap::SpaceOrTab);
    if head_fields.len() < 5 {
        let mut reason = "expected at least 5 fields before separator, got ".to_owned();
        reason.append(text::decimal_of(head_fields.len() as u64).as_str());
        return Err(reason);
    }
    let tail_fields = text::split_words(tail.as_slice(), Gap::SpaceOrTab);
    if tail_fields.len() < 2 {
        return Err("expected fstype and source after separator".to_owned());
    }
    let path = text::string_of(head_fields[4].as_slice());
    let source = text::string_of(tail_fields[1].as_slice());
    let fstype = text::string_of(tail_fields[0].as_slice());
    let root = text::string_of(head_fields[3].as_slice());
    proof {
        assert(text::words(head@, Gap::SpaceOrTab)[4] == path@);
        assert(text::words(head@, Gap::SpaceOrTab)[3] == root@);
        assert(text::words(tail@, Gap::SpaceOrTab)[0] == fstype@);
        assert(text::words(tail@, Gap::SpaceOrTab)[1] == source@);
    }
    Ok(
        (
            unescape(path.as_str()),
            MountIdentity {
                source: unescape(source.as_str()),
                fstype: unescape(fstype.as_str()),
                root: unescape(root.as_str()),
            },
        ),
    )
}

/// A fault in the first lines is the fault of all of them.
proof fn lemma_first_fault(all: Seq<Seq<char>>, n: int)
    requires
        0 <= n <= all.len(),
        mount_lines(all.take(n)) is Err,
    ensures
        mount_lines(all) == mount_lines(all.take(n)),
    decreases all.len(),
{
    if n == all.len() {
        assert(all.take(n) == all);
    } else {
        assert(all.drop_last().take(n) == all.take(n));
        lemma_first_fault(all.drop_last(), n);
    }
}

/// Parse mountinfo into mountpoint -> identity.
///
/// Later lines win: the kernel lists mounts in mount order, so when two
/// filesystems are stacked on one mountpoint the last one is what a process
/// actually sees.
pub fn parse_mountinfo(text: &str) -> (out: Result<MountTable, MountError>)
    ensures
        match out {
            Ok(table) => mount_lines(text::lines(text@)) == Ok::<
                Map<Seq<char>, Identity>,
                (nat, Seq<char>),
            >(table@),
            Err(MountError::Malformed { line, reason }) => mount_lines(text::lines(text@)) == Err::<
                Map<Seq<char>, Identity>,
                (nat, Seq<char>),
            >((line as nat, reason@)),
        },
{
    let chars = text::chars_of(text);
    let all = text::split_lines(chars.as_slice());
    let ghost model = text::views(all@);
    let mut mounts = MountTable::new();
    let mut idx: usize = 0;
    while idx < all.len()
        invariant
            idx <= all.len(),
            model == text::views(all@),
            model == text::lines(text@),
            mount_lines(model.take(idx as int)) == Ok::<
                Map<Seq<char>, Identity>,
                (nat, Seq<char>),
            >(mounts@),
        decreases all.len() - idx,
    {
        let line = all[idx].as_slice();
        proof {
            assert(model.take(idx + 1).drop_last() == model.take(idx as int));
            assert(model.take(idx + 1).last() == line@);
        }
        if !text::is_blank(line) {
            match read_mount_line(line) {
                Ok((path, identity)) => {
                    mounts.insert(path, identity);
                },
                Err(reason) => {
                    proof {
                        lemma_first_fault(model, idx + 1);
                    }
                    return Err(MountError::Malformed { line: idx + 1, reason });
                },
            }
        }
        idx += 1;
    }
    assert(model.take(idx as int) == model);
    Ok(mounts)
}

/// What was found where a filesystem was expected.
#[derive(Debug, PartialEq, Eq)]
pub enum MountVerdict {
    Verified,
    Missing,
    Mismatch { actual: MountIdentity },
}

/// The verdict on a path: what was found there, if it is not what was expected.
pub enum Finding {
    Expected,
    Nothing,
    Other(Identity),
}

impl View for MountVerdict {
    type V = Finding;

    open spec fn view(&self) -> Finding {
        match self {
            MountVerdict::Verified => Finding::Expected,
            MountVerdict::Missing => Finding::Nothing,
            MountVerdict::Mismatch { actual } => Finding::Other(actual@),
        }
    }
}

/// What a table says of an expectation.
pub open spec fn finding(want: MountExpectation, table: Map<Seq<char>, Identity>) -> Finding {
    if !table.contains_key(want.path@) {
        Finding::Nothing
    } else if table[want.path@] == want.identity() {
        Finding::Expected
    } else {
        Finding::Other(table[want.path@])
    }
}

/// Checks each expectation against what is mounted at its path.
pub fn verify(expectations: &[MountExpectation], mounts: &MountTable) -> (out: Vec<
    (String, MountVerdict),
>)
    ensures
        out.len() == expectations.len(),
        forall|i: int|
            0 <= i < out.len() ==> (#[trigger] out[i]).0@ == expectations[i].path@ && out[i].1@
                == finding(expectations[i], mounts@),
{
    let mut out: Vec<(String, MountVerdict)> = Vec::new();
    let mut i: usize = 0;
    while i < expectations.len()
        invariant
            i <= expectations.len(),
            out.len() == i,
            forall|k: int|
                0 <= k < i ==> (#[trigger] out[k]).0@ == expectations[k].path@ && out[k].1@
                    == finding(expectations[k], mounts@),
        decreases expectations.len() - i,
    {
        let want = &expectations[i];
        let verdict = match mounts.get(want.path.as_str()) {
            None => MountVerdict::Missing,
            Some(got) => {
                if got.source == want.source && got.fstype == want.fstype && got.root == want.root {
                    MountVerdict::Verified
                } else {
                    MountVerdict::Mismatch { actual: got.clone() }
                }
            },
        };
        out.push((want.path.clone(), verdict));
        i += 1;
    }
    out
}

} // verus!

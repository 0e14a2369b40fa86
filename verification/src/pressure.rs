//! Memory pressure sensing.
//!
//! Only the emergency signal lives here. Warning-level thresholds for memory,
//! CPU, IO, load and disk are node-exporter's job: it already exports all of
//! them and Prometheus can alert on them. Duplicating that in-process buys
//! nothing and drifts.

use crate::percent::Percent;
use crate::text;
use crate::text::Gap;
use vstd::prelude::*;

verus! {

/// What the host's memory sensors read.
#[derive(Debug, Clone, Copy, PartialEq, Eq)]
pub struct Pressure {
    pub available_bytes: u64,
    pub full_avg10_percent: Percent,
}

/// Why a sensor's text could not be read.
#[derive(Debug)]
pub enum SensorError {
    Malformed { file: String, reason: String },
}

impl SensorError {
    /// The file that was malformed.
    pub open spec fn file_text(self) -> Seq<char> {
        match self {
            SensorError::Malformed { file, reason } => file@,
        }
    }

    /// What was wrong with it.
    pub open spec fn reason_text(self) -> Seq<char> {
        match self {
            SensorError::Malformed { file, reason } => reason@,
        }
    }

    /// The text that reports the error.
    pub open spec fn report(self) -> Seq<char> {
        self.file_text() + ": "@ + self.reason_text()
    }

    /// Gives the text that reports the error.
    pub fn message(&self) -> (text: String)
        ensures
            text@ == self.report(),
    {
        match self {
            SensorError::Malformed { file, reason } => {
                let mut text = file.clone();
                text.append(": ");
                text.append(reason.as_str());
                text
            },
        }
    }
}

/// What can be wrong with a meminfo text.
pub enum MeminfoFault {
    NoLine,
    NoValue,
    NotANumber(Seq<char>),
}

/// How a fault of a meminfo text is worded.
pub open spec fn meminfo_reason(fault: MeminfoFault) -> Seq<char> {
    match fault {
        MeminfoFault::NoLine => "no MemAvailable line"@,
        MeminfoFault::NoValue => "MemAvailable has no value"@,
        MeminfoFault::NotANumber(value) => "MemAvailable value "@ + text::debug_text(value)
            + " is not a number"@,
    }
}

/// What the lines of a meminfo text say of available memory, in KiB, or what is wrong with
/// them. The first line that begins with `MemAvailable:` decides.
pub open spec fn mem_available_kib(all: Seq<Seq<char>>) -> Result<u64, MeminfoFault>
    decreases all.len(),
{
    if all.len() == 0 {
        Err(MeminfoFault::NoLine)
    } else {
        match text::after_prefix(all[0], "MemAvailable:"@) {
            None => mem_available_kib(all.drop_first()),
            Some(rest) => {
                let parts = text::words(rest, Gap::WhiteSpace);
                if parts.len() == 0 {
                    Err(MeminfoFault::NoValue)
                } else {
                    match text::number(parts[0]) {
                        Some(kib) => Ok(kib),
                        None => Err(MeminfoFault::NotANumber(parts[0])),
                    }
                }
            },
        }
    }
}

/// Whether the available memory that a meminfo text states, if it states any, is a number of
/// bytes that 64 bits can hold.
pub open spec fn mem_fits(meminfo: Seq<char>) -> bool {
    mem_available_kib(text::lines(meminfo)) matches Ok(kib) ==> kib * 1024 <= u64::MAX
}

/// The error that a meminfo text is malformed.
fn meminfo_error(reason: String) -> (error: SensorError)
    ensures
        error.file_text() == "meminfo"@,
        error.reason_text() == reason@,
{
    SensorError::Malformed { file: "meminfo".to_owned(), reason }
}

/// Reads the available memory in KiB.
fn read_mem_available_kib(meminfo: &str) -> (out: Result<u64, SensorError>)
    ensures
        match out {
            Ok(kib) => mem_available_kib(text::lines(meminfo@)) == Ok::<u64, MeminfoFault>(kib),
            Err(error) => mem_available_kib(text::lines(meminfo@)) matches Err(fault)
                && error.file_text() == "meminfo"@ && error.reason_text() == meminfo_reason(fault),
        },
{
    let chars = text::chars_of(meminfo);
    let all = text::split_lines(chars.as_slice());
    let prefix = text::chars_of("MemAvailable:");
    let ghost model = text::views(all@);
    let mut i: usize = 0;
    assert(model.skip(0) == model);
    while i < all.len()
        invariant
            i <= all.len(),
            prefix@ == "MemAvailable:"@,
            model == text::views(all@),
            model == text::lines(meminfo@),
            mem_available_kib(model) == mem_available_kib(model.skip(i as int)),
        decreases all.len() - i,
    {
        proof {
            assert(model.skip(i as int)[0] == all@[i as int]@);
            assert(model.skip(i as int).drop_first() == model.skip(i + 1));
        }
        if let Some(rest) = text::cut_prefix(all[i].as_slice(), prefix.as_slice()) {
            let parts = text::split_words(rest.as_slice(), Gap::WhiteSpace);
            if parts.len() == 0 {
                return Err(meminfo_error("MemAvailable has no value".to_owned()));
            }
            assert(text::words(rest@, Gap::WhiteSpace)[0] == parts@[0]@);
            let value = parts[0].as_slice();
            match text::parse_number(value) {
                Some(kib) => {
                    return Ok(kib);
                },
                None => {
                    let mut reason = "MemAvailable value ".to_owned();
                    reason.append(text::quoted(text::string_of(value).as_str()).as_str());
                    reason.append(" is not a number");
                    return Err(meminfo_error(reason));
                },
            }
        }
        i += 1;
    }
    Err(meminfo_error("no MemAvailable line".to_owned()))
}

/// Tells whether the available memory that `meminfo` states fits in 64 bits.
pub fn mem_available_fits(meminfo: &str) -> (yes: bool)
    ensures
        yes == mem_fits(meminfo@),
{
    match read_mem_available_kib(meminfo) {
        Ok(kib) => kib <= u64::MAX / 1024,
        Err(_) => true,
    }
}

/// `MemAvailable` is the kernel's own estimate of what is allocatable without
/// swapping. `MemFree` is not a substitute: reclaimable page cache counts as
/// available but not as free, so free alone reads as an emergency on a healthy
/// box with a warm cache.
pub fn parse_mem_available(meminfo: &str) -> (out: Result<u64, SensorError>)
    requires
        mem_fits(meminfo@),
    ensures
        match mem_available_kib(text::lines(meminfo@)) {
            Ok(kib) => out == Ok::<u64, SensorError>((kib * 1024) as u64),
            Err(fault) => out matches Err(error) && error.file_text() == "meminfo"@
                && error.reason_text() == meminfo_reason(fault),
        },
{
    match read_mem_available_kib(meminfo) {
        Ok(kib) => Ok(kib * 1024),
        Err(error) => Err(error),
    }
}

/// The first of the fields that gives an `avg10`, without its label.
pub open spec fn avg10_field(fields: Seq<Seq<char>>) -> Option<Seq<char>>
    decreases fields.len(),
{
    if fields.len() == 0 {
        None
    } else {
        match text::after_prefix(fields[0], "avg10="@) {
            Some(value) => Some(value),
            None => avg10_field(fields.drop_first()),
        }
    }
}

/// The text of the `avg10` of the first line of a PSI file that begins with `full ` and gives
/// one.
pub open spec fn full_avg10(all: Seq<Seq<char>>) -> Option<Seq<char>>
    decreases all.len(),
{
    if all.len() == 0 {
        None
    } else {
        let here = match text::after_prefix(all[0], "full "@) {
            Some(rest) => avg10_field(text::words(rest, Gap::WhiteSpace)),
            None => None,
        };
        match here {
            Some(value) => Some(value),
            None => full_avg10(all.drop_first()),
        }
    }
}

/// The error that a PSI file is malformed.
fn psi_error(reason: String) -> (error: SensorError)
    ensures
        error.file_text() == "pressure"@,
        error.reason_text() == reason@,
{
    SensorError::Malformed { file: "pressure".to_owned(), reason }
}

/// Finds the first `avg10` among `fields`.
fn find_avg10(fields: &Vec<Vec<char>>) -> (out: Option<String>)
    ensures
        match out {
            Some(value) => avg10_field(text::views(fields@)) == Some(value@),
            None => avg10_field(text::views(fields@)) is None,
        },
{
    let label = text::chars_of("avg10=");
    let ghost model = text::views(fields@);
    let mut i: usize = 0;
    assert(model.skip(0) == model);
    while i < fields.len()
        invariant
            i <= fields.len(),
            label@ == "avg10="@,
            model == text::views(fields@),
            avg10_field(model) == avg10_field(model.skip(i as int)),
        decreases fields.len() - i,
    {
        proof {
            assert(model.skip(i as int)[0] == fields@[i as int]@);
            assert(model.skip(i as int).drop_first() == model.skip(i + 1));
        }
        if let Some(value) = text::cut_prefix(fields[i].as_slice(), label.as_slice()) {
            return Some(text::string_of(value.as_slice()));
        }
        i += 1;
    }
    None
}

/// Find the text of `full avg10` in a PSI file.
///
/// `full` means every task was stalled, which is the signal that the machine is
/// genuinely wedged rather than merely busy; `some` fires under normal load.
pub fn find_psi_full_avg10(psi: &str) -> (out: Result<String, SensorError>)
    ensures
        match full_avg10(text::lines(psi@)) {
            Some(value) => out matches Ok(found) && found@ == value,
            None => out matches Err(error) && error.file_text() == "pressure"@
                && error.reason_text() == "no 'full' line with avg10"@,
        },
{
    let chars = text::chars_of(psi);
    let all = text::split_lines(chars.as_slice());
    let prefix = text::chars_of("full ");
    let ghost model = text::views(all@);
    let mut i: usize = 0;
    assert(model.skip(0) == model);
    while i < all.len()
        invariant
            i <= all.len(),
            prefix@ == "full "@,
            model == text::views(all@),
            model == text::lines(psi@),
            full_avg10(model) == full_avg10(model.skip(i as int)),
        decreases all.len() - i,
    {
        proof {
            assert(model.skip(i as int)[0] == all@[i as int]@);
            assert(model.skip(i as int).drop_first() == model.skip(i + 1));
        }
        if let Some(rest) = text::cut_prefix(all[i].as_slice(), prefix.as_slice()) {
            let fields = text::split_words(rest.as_slice(), Gap::WhiteSpace);
            if let Some(value) = find_avg10(&fields) {
                return Ok(value);
            }
        }
        i += 1;
    }
    Err(psi_error("no 'full' line with avg10".to_owned()))
}

/// Read `full avg10` out of a PSI file, given the number that its text denotes, or none if it
/// denotes none.
pub fn parse_psi_full_avg10(psi: &str, number: Option<Percent>) -> (out: Result<
    Percent,
    SensorError,
>)
    ensures
        match full_avg10(text::lines(psi@)) {
            Some(value) => match number {
                Some(percent) => out == Ok::<Percent, SensorError>(percent),
                None => out matches Err(error) && error.file_text() == "pressure"@
                    && error.reason_text() == "avg10 value "@ + text::debug_text(value)
                    + " is not a number"@,
            },
            None => out matches Err(error) && error.file_text() == "pressure"@
                && error.reason_text() == "no 'full' line with avg10"@,
        },
{
    let value = match find_psi_full_avg10(psi) {
        Ok(value) => value,
        Err(error) => {
            return Err(error);
        },
    };
    match number {
        Some(percent) => Ok(percent),
        None => {
            let mut reason = "avg10 value ".to_owned();
            reason.append(text::quoted(value.as_str()).as_str());
            reason.append(" is not a number");
            Err(psi_error(reason))
        },
    }
}

/// When memory is short enough, and tasks are stalled enough, to act.
#[derive(Debug, Clone, Copy)]
pub struct EmergencyThresholds {
    pub available_bytes: u64,
    pub full_psi_percent: Percent,
}

/// Whether the sensors read an emergency: memory strictly below its threshold, and the share of
/// stalled time at or above its own.
pub open spec fn emergency(p: Pressure, t: EmergencyThresholds) -> bool {
    &&& p.available_bytes < t.available_bytes
    &&& !p.full_avg10_percent.nan()
    &&& !t.full_psi_percent.nan()
    &&& p.full_avg10_percent.units() >= t.full_psi_percent.units()
}

/// Both conditions must hold. Low available memory alone is normal on a box
/// with a large page cache, and a PSI spike alone is normal during heavy IO;
/// only together do they mean the machine is failing to make progress.
#[must_use]
pub fn is_emergency(p: Pressure, t: EmergencyThresholds) -> (yes: bool)
    ensures
        yes == emergency(p, t),
{
    p.available_bytes < t.available_bytes && p.full_avg10_percent.at_least(t.full_psi_percent)
}

} // verus!

//! Laws of memory pressure: what percentages denote, what the sensors' texts say, and when there
//! is an emergency.

use crate::percent;
use crate::percent::Percent;
use crate::pressure;
use crate::pressure::{EmergencyThresholds, Pressure, SensorError};
use crate::text;
use crate::text::Gap;
use crate::text_laws;
use vstd::arithmetic::power2::*;
use vstd::prelude::*;

verus! {

/// The bits of a percentage denote what IEEE 754 says: a sign, eleven bits of exponent and 52
/// bits of fraction, counted here in units of two to the power -1074. The largest exponent tells
/// infinity, and with a fraction no number at all.
pub proof fn bits_denote_a_double(negative: bool, exponent: u64, fraction: u64)
    requires
        exponent <= 2047,
        fraction < 4503599627370496,
    ensures
        ({
            let sign: int = if negative {
                9223372036854775808
            } else {
                0
            };
            let p = Percent { bits: (sign + exponent * 4503599627370496 + fraction) as u64 };
            let size = if exponent == 0 {
                fraction as int
            } else {
                (4503599627370496 + fraction) * pow2((exponent - 1) as nat)
            };
            &&& p.nan() <==> exponent == 2047 && fraction > 0
            &&& p.units() == if negative {
                -size
            } else {
                size
            }
        }),
{
    let m: nat = (exponent * 4503599627370496 + fraction) as nat;
    assert(m / 4503599627370496nat == exponent && m % 4503599627370496nat == fraction)
        by (nonlinear_arith)
        requires
            m == exponent * 4503599627370496 + fraction,
            fraction < 4503599627370496,
    ;
    assert(percent::FRACTION_SIZE == 4503599627370496);
    assert(percent::SIGN_BIT == 9223372036854775808);
    assert(percent::INFINITY_BITS == 2047 * 4503599627370496);
}

/// Percentages compare as the numbers they denote. What is no number compares with nothing, and
/// is in range because it is neither below 0 nor above 100.
pub proof fn percentages_compare_as_numbers(
    p: Percent,
    q: Percent,
    at_least: bool,
    above: bool,
    in_range: bool,
    is_nan: bool,
)
    requires
        call_ensures(Percent::at_least, (p, q), at_least),
        call_ensures(Percent::above, (p, q), above),
        call_ensures(Percent::is_in_range, (p,), in_range),
        call_ensures(Percent::is_nan, (p,), is_nan),
    ensures
        is_nan <==> p.nan(),
        at_least <==> !p.nan() && !q.nan() && p.units() >= q.units(),
        above <==> !p.nan() && !q.nan() && p.units() > q.units(),
        in_range <==> p.nan() || 0 <= p.units() <= 100 * pow2(1074),
{
}

/// There is an emergency exactly where both signals hold: memory strictly below its threshold,
/// and a stalled share of time that is a number no smaller than the number of its threshold.
/// Neither signal makes one alone, however strong it is.
pub proof fn an_emergency_is_both_signals(p: Pressure, t: EmergencyThresholds, yes: bool)
    requires
        call_ensures(pressure::is_emergency, (p, t), yes),
    ensures
        yes ==> p.available_bytes < t.available_bytes,
        yes ==> !p.full_avg10_percent.nan() && !t.full_psi_percent.nan(),
        yes ==> p.full_avg10_percent.units() >= t.full_psi_percent.units(),
        p.available_bytes < t.available_bytes && !p.full_avg10_percent.nan()
            && !t.full_psi_percent.nan() && p.full_avg10_percent.units()
            >= t.full_psi_percent.units() ==> yes,
        yes == pressure::emergency(p, t),
{
}

/// More pressure never ends an emergency: with less memory, and no smaller a share of stalled
/// time, there still is one.
pub proof fn more_pressure_keeps_an_emergency(p: Pressure, q: Pressure, t: EmergencyThresholds)
    requires
        pressure::emergency(p, t),
        q.available_bytes <= p.available_bytes,
        !q.full_avg10_percent.nan(),
        q.full_avg10_percent.units() >= p.full_avg10_percent.units(),
    ensures
        pressure::emergency(q, t),
{
}

/// Whether `s` begins with `prefix`.
pub open spec fn begins(s: Seq<char>, prefix: Seq<char>) -> bool {
    exists|rest: Seq<char>| s == #[trigger] (prefix + rest)
}

/// To begin with a prefix is to have something behind it.
proof fn lemma_begins(s: Seq<char>, prefix: Seq<char>)
    ensures
        begins(s, prefix) <==> text::after_prefix(s, prefix) is Some,
        forall|rest: Seq<char>|
            s == #[trigger] (prefix + rest) ==> text::after_prefix(s, prefix) == Some(rest),
{
    text_laws::prefix_is_what_a_text_begins_with(s, prefix);
    assert forall|rest: Seq<char>| s == #[trigger] (prefix + rest) implies text::after_prefix(
        s,
        prefix,
    ) == Some(rest) by {
        assert(s.skip(prefix.len() as int) == rest);
        if text::after_prefix(s, prefix) is Some {
            assert(s == prefix + text::after_prefix(s, prefix)->0);
            assert(s.skip(prefix.len() as int) == text::after_prefix(s, prefix)->0);
        }
    }
}

/// Lines that do not begin with the label do not matter.
proof fn lemma_first_mem_line(all: Seq<Seq<char>>, i: int)
    requires
        0 <= i <= all.len(),
        forall|j: int| 0 <= j < i ==> !begins(#[trigger] all[j], "MemAvailable:"@),
    ensures
        pressure::mem_available_kib(all) == pressure::mem_available_kib(all.skip(i)),
    decreases i,
{
    if i == 0 {
        assert(all.skip(0) == all);
    } else {
        lemma_first_mem_line(all, i - 1);
        lemma_begins(all[i - 1], "MemAvailable:"@);
        assert(!begins(all[i - 1], "MemAvailable:"@));
        assert(all.skip(i - 1)[0] == all[i - 1]);
        assert(all.skip(i - 1).drop_first() == all.skip(i));
    }
}

/// The error that `reason` is wrong with `file`.
pub open spec fn complaint(error: SensorError, file: Seq<char>, reason: Seq<char>) -> bool {
    error matches SensorError::Malformed { file: f, reason: r } && f@ == file && r@ == reason
}

/// Where no line of meminfo begins with `MemAvailable:`, that is the error.
pub proof fn meminfo_without_its_line_is_an_error(meminfo: &str, out: Result<u64, SensorError>)
    requires
        call_ensures(pressure::parse_mem_available, (meminfo,), out),
        forall|j: int|
            0 <= j < text::lines(meminfo@).len() ==> !begins(
                #[trigger] text::lines(meminfo@)[j],
                "MemAvailable:"@,
            ),
    ensures
        out matches Err(error) && complaint(error, "meminfo"@, "no MemAvailable line"@),
{
    let all = text::lines(meminfo@);
    lemma_first_mem_line(all, all.len() as int);
    assert(all.skip(all.len() as int) == Seq::<Seq<char>>::empty());
}

/// The first line of meminfo that begins with `MemAvailable:` tells the available memory: its
/// first word is a number of KiB, each of which is 1024 bytes. A line without a word, or with one
/// that is no number, is an error that says so; later lines do not matter.
pub proof fn first_mem_available_line_tells(
    meminfo: &str,
    out: Result<u64, SensorError>,
    fits: bool,
    i: int,
    rest: Seq<char>,
)
    requires
        call_ensures(pressure::parse_mem_available, (meminfo,), out),
        call_ensures(pressure::mem_available_fits, (meminfo,), fits),
        0 <= i < text::lines(meminfo@).len(),
        forall|j: int|
            0 <= j < i ==> !begins(#[trigger] text::lines(meminfo@)[j], "MemAvailable:"@),
        text::lines(meminfo@)[i] == "MemAvailable:"@ + rest,
    ensures
        ({
            let parts = text::words(rest, Gap::WhiteSpace);
            if parts.len() == 0 {
                &&& out matches Err(error) && complaint(
                    error,
                    "meminfo"@,
                    "MemAvailable has no value"@,
                )
                &&& fits
            } else {
                match text::number(parts[0]) {
                    Some(kib) => {
                        &&& fits <==> kib * 1024 <= u64::MAX
                        &&& fits ==> out == Ok::<u64, SensorError>((kib * 1024) as u64)
                    },
                    None => {
                        &&& out matches Err(error) && complaint(
                            error,
                            "meminfo"@,
                            "MemAvailable value "@ + text::debug_text(parts[0])
                                + " is not a number"@,
                        )
                        &&& fits
                    },
                }
            }
        }),
{
    let all = text::lines(meminfo@);
    lemma_first_mem_line(all, i);
    lemma_begins(all[i], "MemAvailable:"@);
    assert(all.skip(i)[0] == all[i]);
}

/// Fields that do not begin with the label do not matter.
proof fn lemma_first_avg10(fields: Seq<Seq<char>>, k: int)
    requires
        0 <= k <= fields.len(),
        forall|j: int| 0 <= j < k ==> !begins(#[trigger] fields[j], "avg10="@),
    ensures
        pressure::avg10_field(fields) == pressure::avg10_field(fields.skip(k)),
    decreases k,
{
    if k == 0 {
        assert(fields.skip(0) == fields);
    } else {
        lemma_first_avg10(fields, k - 1);
        lemma_begins(fields[k - 1], "avg10="@);
        assert(!begins(fields[k - 1], "avg10="@));
        assert(fields.skip(k - 1)[0] == fields[k - 1]);
        assert(fields.skip(k - 1).drop_first() == fields.skip(k));
    }
}

/// Whether no word of `line` behind `full ` begins with `avg10=`, or the line does not begin so.
pub open spec fn tells_no_avg10(line: Seq<char>) -> bool {
    forall|rest: Seq<char>, k: int|
        #![trigger "full "@ + rest, text::words(rest, Gap::WhiteSpace)[k]]
        line == "full "@ + rest && 0 <= k < text::words(rest, Gap::WhiteSpace).len() ==> !begins(
            text::words(rest, Gap::WhiteSpace)[k],
            "avg10="@,
        )
}

/// Lines that tell no average do not matter.
proof fn lemma_first_full_line(all: Seq<Seq<char>>, i: int)
    requires
        0 <= i <= all.len(),
        forall|j: int| 0 <= j < i ==> tells_no_avg10(#[trigger] all[j]),
    ensures
        pressure::full_avg10(all) == pressure::full_avg10(all.skip(i)),
    decreases i,
{
    if i == 0 {
        assert(all.skip(0) == all);
    } else {
        lemma_first_full_line(all, i - 1);
        let line = all[i - 1];
        assert(tells_no_avg10(line));
        lemma_begins(line, "full "@);
        assert(all.skip(i - 1)[0] == line);
        assert(all.skip(i - 1).drop_first() == all.skip(i));
        text_laws::prefix_is_what_a_text_begins_with(line, "full "@);
        if text::after_prefix(line, "full "@) is Some {
            let rest = text::after_prefix(line, "full "@)->0;
            let fields = text::words(rest, Gap::WhiteSpace);
            assert(line == "full "@ + rest);
            lemma_first_avg10(fields, fields.len() as int);
            assert(fields.skip(fields.len() as int) == Seq::<Seq<char>>::empty());
        }
    }
}

/// Where no line of a PSI file tells a `full avg10`, that is the error; it is no zero.
pub proof fn psi_without_full_avg10_is_an_error(
    psi: &str,
    number: Option<Percent>,
    found: Result<String, SensorError>,
    out: Result<Percent, SensorError>,
)
    requires
        call_ensures(pressure::find_psi_full_avg10, (psi,), found),
        call_ensures(pressure::parse_psi_full_avg10, (psi, number), out),
        forall|j: int|
            0 <= j < text::lines(psi@).len() ==> tells_no_avg10(#[trigger] text::lines(psi@)[j]),
    ensures
        found matches Err(error) && complaint(error, "pressure"@, "no 'full' line with avg10"@),
        out matches Err(error) && complaint(error, "pressure"@, "no 'full' line with avg10"@),
{
    let all = text::lines(psi@);
    lemma_first_full_line(all, all.len() as int);
    assert(all.skip(all.len() as int) == Seq::<Seq<char>>::empty());
}

/// The first `avg10=` of the first line that begins with `full ` and has one tells the stalled
/// share of time. It is the number that its text denotes, and an error where it denotes none.
pub proof fn first_full_avg10_tells(
    psi: &str,
    number: Option<Percent>,
    found: Result<String, SensorError>,
    out: Result<Percent, SensorError>,
    i: int,
    rest: Seq<char>,
    k: int,
    value: Seq<char>,
)
    requires
        call_ensures(pressure::find_psi_full_avg10, (psi,), found),
        call_ensures(pressure::parse_psi_full_avg10, (psi, number), out),
        0 <= i < text::lines(psi@).len(),
        forall|j: int| 0 <= j < i ==> tells_no_avg10(#[trigger] text::lines(psi@)[j]),
        text::lines(psi@)[i] == "full "@ + rest,
        0 <= k < text::words(rest, Gap::WhiteSpace).len(),
        forall|j: int|
            0 <= j < k ==> !begins(#[trigger] text::words(rest, Gap::WhiteSpace)[j], "avg10="@),
        text::words(rest, Gap::WhiteSpace)[k] == "avg10="@ + value,
    ensures
        found matches Ok(s) && s@ == value,
        match number {
            Some(percent) => out matches Ok(p) && p == percent,
            None => out matches Err(error) && complaint(
                error,
                "pressure"@,
                "avg10 value "@ + text::debug_text(value) + " is not a number"@,
            ),
        },
{
    let all = text::lines(psi@);
    let fields = text::words(rest, Gap::WhiteSpace);
    lemma_first_full_line(all, i);
    lemma_begins(all[i], "full "@);
    assert(all.skip(i)[0] == all[i]);
    lemma_first_avg10(fields, k);
    lemma_begins(fields[k], "avg10="@);
    assert(fields.skip(k)[0] == fields[k]);
}

/// An error of a sensor is reported by its file and what is wrong with it.
pub proof fn sensor_errors_name_file_and_reason(error: &SensorError, text: String)
    requires
        call_ensures(SensorError::message, (error,), text),
    ensures
        error matches SensorError::Malformed { file, reason } && text@ == file@ + ": "@ + reason@,
{
}

} // verus!

use hostguard::percent::Percent;
use hostguard::pressure::{
    find_psi_full_avg10, is_emergency, mem_available_fits, parse_mem_available,
    parse_psi_full_avg10, EmergencyThresholds, Pressure,
};

const MEMINFO: &str = "\
MemTotal:       131923516 kB
MemFree:         2048000 kB
MemAvailable:   50510752 kB
Buffers:          123456 kB
";

const PSI: &str = "\
some avg10=1.23 avg60=0.45 avg300=0.11 total=123456
full avg10=7.50 avg60=0.20 avg300=0.05 total=54321
";

fn percent(x: f64) -> Percent {
    Percent { bits: x.to_bits() }
}

/// Reads a PSI file, with the number that its text denotes.
fn read_psi(psi: &str) -> Result<f64, String> {
    let number = match find_psi_full_avg10(psi) {
        Ok(value) => value.parse::<f64>().ok().map(percent),
        Err(_) => None,
    };
    match parse_psi_full_avg10(psi, number) {
        Ok(found) => Ok(f64::from_bits(found.bits)),
        Err(error) => Err(error.message()),
    }
}

#[test]
fn reads_mem_available_as_bytes() {
    assert_eq!(parse_mem_available(MEMINFO).unwrap(), 50_510_752 * 1024);
}

#[test]
fn does_not_confuse_mem_free_for_mem_available() {
    let got = parse_mem_available(MEMINFO).unwrap();
    assert_ne!(got, 2_048_000 * 1024, "picked up MemFree");
}

#[test]
fn reads_full_not_some_psi() {
    assert!((read_psi(PSI).unwrap() - 7.50).abs() < f64::EPSILON);
}

#[test]
fn missing_fields_error_rather_than_defaulting_to_zero() {
    // Defaulting to 0 would read as "no pressure" and silently disarm the
    // guardian on a kernel without PSI compiled in.
    assert!(read_psi("some avg10=1.0 total=5").is_err());
    assert!(parse_mem_available("MemFree: 100 kB").is_err());
}

#[test]
fn non_numeric_values_error() {
    assert!(parse_mem_available("MemAvailable:   banana kB").is_err());
    assert!(read_psi("full avg10=banana total=1").is_err());
}

fn thresholds() -> EmergencyThresholds {
    EmergencyThresholds {
        available_bytes: 8 * 1024 * 1024 * 1024,
        full_psi_percent: percent(10.0),
    }
}

fn p(gib: u64, psi: f64) -> Pressure {
    Pressure {
        available_bytes: gib * 1024 * 1024 * 1024,
        full_avg10_percent: percent(psi),
    }
}

#[test]
fn emergency_needs_both_signals() {
    assert!(is_emergency(p(4, 20.0), thresholds()));
    assert!(!is_emergency(p(4, 1.0), thresholds()), "low memory alone is not an emergency");
    assert!(!is_emergency(p(64, 20.0), thresholds()), "psi alone is not an emergency");
    assert!(!is_emergency(p(64, 1.0), thresholds()));
}

#[test]
fn thresholds_are_inclusive_on_psi_and_exclusive_on_memory() {
    assert!(is_emergency(p(4, 10.0), thresholds()), "psi exactly at threshold counts");
    assert!(!is_emergency(p(8, 20.0), thresholds()), "memory exactly at threshold does not");
}

#[test]
fn what_is_no_number_is_no_emergency() {
    assert!(!is_emergency(p(4, f64::NAN), thresholds()));
    let mut t = thresholds();
    t.full_psi_percent = percent(f64::NAN);
    assert!(!is_emergency(p(4, 20.0), t));
}

#[test]
fn percentages_are_ordered_as_their_numbers() {
    let numbers = [
        0.0,
        -0.0,
        f64::from_bits(1),
        -f64::from_bits(1),
        f64::MIN_POSITIVE,
        0.1,
        0.5,
        1.0,
        1.0000000000000002,
        7.5,
        99.99999999999999,
        100.0,
        100.00000000000001,
        -3.0,
        f64::MAX,
        f64::MIN,
        f64::INFINITY,
        f64::NEG_INFINITY,
        f64::NAN,
        -f64::NAN,
    ];
    for a in numbers {
        assert_eq!(percent(a).is_nan(), a.is_nan());
        assert_eq!(percent(a).is_in_range(), !(a < 0.0 || a > 100.0), "{a}");
        for b in numbers {
            assert_eq!(percent(a).at_least(percent(b)), a >= b, "{a} at least {b}");
            assert_eq!(percent(a).above(percent(b)), a > b, "{a} above {b}");
        }
    }
}

#[test]
fn each_malformed_meminfo_is_told() {
    let complaint = |text: &str| parse_mem_available(text).unwrap_err().message();
    assert_eq!(complaint("MemFree: 100 kB"), "meminfo: no MemAvailable line");
    assert_eq!(complaint(" MemAvailable: 1 kB"), "meminfo: no MemAvailable line");
    assert_eq!(complaint("MemAvailable:  \nMemAvailable: 5"), "meminfo: MemAvailable has no value");
    for bad in ["banana", "-1", "1.5", "18446744073709551616", "\"x\"", "+"] {
        assert_eq!(
            complaint(&format!("MemAvailable: {bad} kB")),
            format!("meminfo: MemAvailable value {bad:?} is not a number")
        );
    }
}

#[test]
fn the_first_mem_available_decides() {
    assert_eq!(parse_mem_available("MemAvailable:7\nMemAvailable: 9 kB").unwrap(), 7 * 1024);
    assert_eq!(parse_mem_available("MemAvailable: +3 kB\r\n").unwrap(), 3072);
    assert_eq!(parse_mem_available("MemAvailable: 0 kB").unwrap(), 0);
}

#[test]
fn the_largest_memory_that_fits_is_told() {
    let largest = u64::MAX / 1024;
    let fits = format!("MemAvailable: {largest} kB");
    assert!(mem_available_fits(&fits));
    assert_eq!(parse_mem_available(&fits).unwrap(), largest * 1024);
    assert!(!mem_available_fits(&format!("MemAvailable: {} kB", largest + 1)));
    assert!(mem_available_fits("MemAvailable: banana kB"));
    assert!(mem_available_fits(""));
}

#[test]
fn each_malformed_psi_is_told() {
    assert_eq!(
        read_psi("some avg10=1.0 total=5").unwrap_err(),
        "pressure: no 'full' line with avg10"
    );
    assert_eq!(read_psi("full avg60=1.0").unwrap_err(), "pressure: no 'full' line with avg10");
    assert_eq!(read_psi("fullavg10=1.0").unwrap_err(), "pressure: no 'full' line with avg10");
    assert_eq!(
        read_psi("full avg10=ban\"ana total=1").unwrap_err(),
        "pressure: avg10 value \"ban\\\"ana\" is not a number"
    );
}

#[test]
fn a_full_line_without_avg10_is_passed_over() {
    assert_eq!(find_psi_full_avg10("full avg60=1\nfull x avg10=2.5 avg10=3").unwrap(), "2.5");
    assert_eq!(read_psi("full avg60=1\nfull x avg10=2.5 avg10=3").unwrap(), 2.5);
}

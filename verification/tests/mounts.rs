use hostguard::mounts::{
    parse_mountinfo, unescape, verify, MountError, MountExpectation, MountIdentity, MountTable,
    MountVerdict,
};

const SAMPLE: &str = "\
25 0 253:1 / / rw,relatime shared:1 - ext4 /dev/mapper/vg--root rw
26 25 0:31 / /tmp rw,nosuid,nodev shared:2 - tmpfs tmpfs rw,size=32G
27 25 253:2 /sub /mnt/bind rw,relatime shared:3 - ext4 /dev/mapper/vg--data rw
28 25 0:44 / /odd\\040path rw,relatime shared:4 - ext4 /dev/sdz rw
";

fn expect(path: &str, source: &str, fstype: &str, root: &str) -> MountExpectation {
    MountExpectation {
        path: path.into(),
        source: source.into(),
        fstype: fstype.into(),
        root: root.into(),
    }
}

fn table(text: &str) -> MountTable {
    match parse_mountinfo(text) {
        Ok(table) => table,
        Err(error) => panic!("{}", error.message()),
    }
}

fn complaint(text: &str) -> String {
    match parse_mountinfo(text) {
        Ok(_) => panic!("accepted {text:?}"),
        Err(error) => error.message(),
    }
}

#[test]
fn parses_source_fstype_and_root() {
    let m = table(SAMPLE);
    let root = m.get("/").unwrap();
    assert_eq!(root.source, "/dev/mapper/vg--root");
    assert_eq!(root.fstype, "ext4");
    assert_eq!(root.root, "/");
}

#[test]
fn bind_mount_root_is_the_source_subtree_not_the_mountpoint() {
    let m = table(SAMPLE);
    assert_eq!(m.get("/mnt/bind").unwrap().root, "/sub");
}

#[test]
fn decodes_octal_escaped_mountpoints() {
    let m = table(SAMPLE);
    assert!(m.contains_key("/odd path"));
}

#[test]
fn non_ascii_mountpoints_survive_intact() {
    // Latin-1 reinterpretation here would leave a perfectly healthy mount
    // permanently failing its expectation and crying wolf every cycle.
    let line = "25 0 253:1 / /srv/café_data rw - ext4 /dev/sdz rw";
    let m = table(line);
    assert!(m.contains_key("/srv/café_data"));

    let want = expect("/srv/café_data", "/dev/sdz", "ext4", "/");
    assert_eq!(verify(&[want], &m)[0].1, MountVerdict::Verified);
}

#[test]
fn a_backslash_before_a_multibyte_char_does_not_panic() {
    // panic = "abort" in release turns any panic here into instant death of
    // a root daemon, so the parser must not index across a char boundary.
    let line = "25 0 253:1 / /a\\€b rw - ext4 /dev/sdz rw";
    assert!(parse_mountinfo(line).is_ok());
}

#[test]
fn a_non_octal_escape_is_left_alone() {
    let line = "25 0 253:1 / /a\\99x rw - ext4 /dev/sdz rw";
    let m = table(line);
    assert!(m.contains_key("/a\\99x"));
}

#[test]
fn later_mount_on_the_same_point_wins() {
    let stacked = "\
25 0 253:1 / /data rw - ext4 /dev/first rw
26 0 253:2 / /data rw - ext4 /dev/second rw
";
    let m = table(stacked);
    assert_eq!(m.get("/data").unwrap().source, "/dev/second");
}

#[test]
fn variable_length_optional_fields_do_not_shift_the_tail() {
    // No optional fields at all, versus two of them.
    let bare = "25 0 253:1 / /a rw - ext4 /dev/x rw";
    let rich = "25 0 253:1 / /a rw shared:1 master:2 - ext4 /dev/x rw";
    assert_eq!(table(bare).get("/a").unwrap(), table(rich).get("/a").unwrap());
}

#[test]
fn missing_mount_is_reported_not_silently_ok() {
    let m = table(SAMPLE);
    let v = verify(&[expect("/gone", "/dev/x", "ext4", "/")], &m);
    assert_eq!(v[0].1, MountVerdict::Missing);
}

#[test]
fn replaced_filesystem_is_a_mismatch_even_though_the_path_is_mounted() {
    // The failure this crate exists for: /tmp is still a mountpoint, but a
    // different filesystem now backs it.
    let m = table(SAMPLE);
    let v = verify(&[expect("/tmp", "/dev/mapper/vg--tmp", "ext4", "/")], &m);
    match &v[0].1 {
        MountVerdict::Mismatch { actual } => assert_eq!(actual.fstype, "tmpfs"),
        other => panic!("expected mismatch, got {other:?}"),
    }
}

#[test]
fn matching_mount_verifies() {
    let m = table(SAMPLE);
    let v = verify(&[expect("/", "/dev/mapper/vg--root", "ext4", "/")], &m);
    assert_eq!(v[0].1, MountVerdict::Verified);
}

#[test]
fn malformed_line_errors_rather_than_being_skipped() {
    assert!(parse_mountinfo("25 0 253:1 / / rw ext4 /dev/x rw").is_err());
}

#[test]
fn escapes_denote_bytes() {
    assert_eq!(unescape("/odd\\040path"), "/odd path");
    assert_eq!(unescape("a\\011b\\012c\\134d"), "a\tb\nc\\d");
    assert_eq!(unescape("caf\\303\\251"), "café");
    assert_eq!(unescape("\\134040"), "\\040");
    assert_eq!(unescape(""), "");
}

#[test]
fn what_is_no_escape_stays() {
    for same in ["plain", "\\", "\\04", "\\08x", "\\400", "\\777", "tail\\", "€\\€", "\\€123"] {
        assert_eq!(unescape(same), same);
    }
}

#[test]
fn bytes_that_are_no_text_are_repaired() {
    assert_eq!(unescape("a\\377b"), "a\u{fffd}b");
    assert_eq!(unescape("\\303("), "\u{fffd}(");
    for bytes in ["\\360\\237\\222", "\\200\\200", "x\\355\\240\\200y"] {
        let decoded = match bytes {
            "\\360\\237\\222" => vec![0xf0, 0x9f, 0x92],
            "\\200\\200" => vec![0x80, 0x80],
            _ => vec![b'x', 0xed, 0xa0, 0x80, b'y'],
        };
        assert_eq!(unescape(bytes), String::from_utf8_lossy(&decoded));
    }
}

#[test]
fn a_line_of_the_kernel_comes_back() {
    let line = "36 35 98:0 /sub\\040tree /mnt/a\\134b\\011c rw,noatime master:1 - fuse.x host:/dir\\012x rw,errors=continue";
    let m = table(line);
    let got = m.get("/mnt/a\\b\tc").unwrap();
    assert_eq!(got.root, "/sub tree");
    assert_eq!(got.fstype, "fuse.x");
    assert_eq!(got.source, "host:/dir\nx");
}

#[test]
fn each_malformed_line_is_told_with_its_number() {
    let good = "25 0 253:1 / / rw - ext4 /dev/x rw";
    assert_eq!(complaint("25 0 253:1 / / rw"), "mountinfo line 1: no ' - ' separator");
    assert_eq!(
        complaint(&format!("{good}\n\n1 2 3 4 - ext4 x\n")),
        "mountinfo line 3: expected at least 5 fields before separator, got 4"
    );
    assert_eq!(
        complaint(&format!("{good}\r\n{good}\n1 2 3 4 5 - ext4\n")),
        "mountinfo line 3: expected fstype and source after separator"
    );
    match parse_mountinfo("x") {
        Err(MountError::Malformed { line, reason }) => {
            assert_eq!(line, 1);
            assert_eq!(reason, "no ' - ' separator");
        }
        Ok(_) => panic!("accepted"),
    }
}

#[test]
fn blank_lines_say_nothing() {
    let m = table("\n   \n\t\r\n25 0 253:1 / /a rw - ext4 /dev/x rw\n \u{a0}\n");
    assert!(m.contains_key("/a"));
    assert!(!m.contains_key("/"));
    assert!(!table("").contains_key("/"));
}

#[test]
fn the_first_separator_divides_the_line() {
    let m = table("25 0 253:1 / /a rw - ext4 /dev/x - rw");
    assert_eq!(m.get("/a").unwrap().source, "/dev/x");
}

#[test]
fn every_part_of_an_identity_counts() {
    let m = table(SAMPLE);
    let found = verify(
        &[
            expect("/mnt/bind", "/dev/mapper/vg--data", "ext4", "/sub"),
            expect("/mnt/bind", "/dev/other", "ext4", "/sub"),
            expect("/mnt/bind", "/dev/mapper/vg--data", "xfs", "/sub"),
            expect("/mnt/bind", "/dev/mapper/vg--data", "ext4", "/"),
        ],
        &m,
    );
    let actual = MountIdentity {
        source: "/dev/mapper/vg--data".into(),
        fstype: "ext4".into(),
        root: "/sub".into(),
    };
    assert_eq!(found.len(), 4);
    assert_eq!(found[0], ("/mnt/bind".to_string(), MountVerdict::Verified));
    for other in &found[1..] {
        assert_eq!(other.1, MountVerdict::Mismatch { actual: actual.clone() });
    }
}

#[test]
fn a_table_keeps_what_was_put_in_last() {
    let identity = |source: &str| MountIdentity {
        source: source.into(),
        fstype: "ext4".into(),
        root: "/".into(),
    };
    let mut table = MountTable::new();
    assert!(table.get("/a").is_none());
    table.insert("/a".to_string(), identity("one"));
    table.insert("/b".to_string(), identity("two"));
    table.insert("/a".to_string(), identity("three"));
    assert_eq!(table.get("/a").unwrap().source, "three");
    assert_eq!(table.get("/b").unwrap().source, "two");
}

#[test]
fn only_spaces_and_tabs_part_fields() {
    for c in ['\u{a0}', '\u{b}', '\u{c}', '\r', '\u{85}', '\u{2003}', '\u{2028}', '\u{3000}'] {
        let path = format!("/srv/a{c}b");
        let m = table(&format!("25 0 253:1 /r{c} {path} rw - ext4 /dev/s{c}z rw"));
        let got = m.get(&path).unwrap();
        assert_eq!(got.root, format!("/r{c}"));
        assert_eq!(got.source, format!("/dev/s{c}z"));
        let want = expect(&path, &format!("/dev/s{c}z"), "ext4", &format!("/r{c}"));
        assert_eq!(verify(&[want], &m)[0].1, MountVerdict::Verified);
    }
    assert!(table("25\t0  253:1 / /a rw - ext4\t/dev/x").contains_key("/a"));
}

use hostguard::incident::{
    describe_verdict, frame_record, incident_file_name, incident_slug, incident_text, Incident,
};
use hostguard::mounts::{MountIdentity, MountVerdict};

#[test]
fn distinct_events_never_share_an_incident_filename() {
    // Sanitising alone flattens these onto one name, so one incident would
    // silently overwrite the other.
    let collide = [
        ("mount:/srv/data", "mount:/srv-data"),
        (
            "memory-emergency-foo-bar.service",
            "memory-emergency-foo.bar.service",
        ),
    ];
    for (a, b) in collide {
        assert_ne!(incident_slug(a), incident_slug(b), "{a} and {b} collided");
    }
}

#[test]
fn incident_slug_is_stable_and_filename_safe() {
    let s = incident_slug("mount:/srv/data");
    assert_eq!(s, incident_slug("mount:/srv/data"), "not deterministic");
    assert!(
        s.chars().all(|c| c.is_ascii_alphanumeric() || c == '-'),
        "unsafe filename: {s}"
    );
    assert!(s.len() < 120, "unbounded slug length");
}

#[test]
fn slugs_show_the_key_and_its_digest() {
    assert_eq!(incident_slug(""), "-cbf29ce484222325");
    assert_eq!(incident_slug("a"), "a-af74d84c8601ec8c");
    assert_eq!(incident_slug("mount:/srv/data"), "mount--srv-data-e8599fe4014f0a57");
    assert_eq!(incident_slug("mount:/srv/café"), "mount--srv-caf--fb5d2a7e65ed0153");
    assert_eq!(
        incident_slug(&"a".repeat(100)),
        format!("{}-a9045aac2e5a9d79", "a".repeat(96))
    );
}

#[test]
fn keys_that_differ_in_one_character_have_slugs_of_their_own() {
    let mut seen: Vec<String> = Vec::new();
    for c in ['/', '-', '.', '_', ' ', 'é', '€', 'a', 'b'] {
        let slug = incident_slug(&format!("mount:/srv{c}data"));
        assert!(!seen.contains(&slug), "{slug} twice");
        seen.push(slug);
    }
}

#[test]
fn incident_files_carry_their_time() {
    assert_eq!(
        incident_file_name(1_700_000_000, "memory-emergency"),
        "1700000000-memory-emergency-3e44a17a4e0b8fbe.json"
    );
}

fn mismatch() -> MountVerdict {
    MountVerdict::Mismatch {
        actual: MountIdentity {
            source: "tm\"pfs".into(),
            fstype: "tmpfs".into(),
            root: "/a b\n".into(),
        },
    }
}

#[test]
fn verdicts_are_written_out() {
    assert_eq!(describe_verdict(&MountVerdict::Verified), "Ok");
    assert_eq!(describe_verdict(&MountVerdict::Missing), "Missing");
    assert_eq!(describe_verdict(&mismatch()), format!("{:?}", mismatch()));
    assert_eq!(
        describe_verdict(&mismatch()),
        "Mismatch { actual: MountIdentity { source: \"tm\\\"pfs\", fstype: \"tmpfs\", root: \"/a b\\n\" } }"
    );
}

#[test]
fn a_mount_incident_is_one_object() {
    let text = incident_text(&Incident::MountIdentity {
        path: "/srv/\"q\"\\\n\u{1}é".into(),
        verdict: "Missing".into(),
        timestamp: 1_700_000_000,
    });
    assert_eq!(
        text,
        "{\n  \"event\": \"mount_identity\",\n  \"path\": \"/srv/\\\"q\\\"\\\\\\n\\u0001é\",\n  \
         \"timestamp\": 1700000000,\n  \"verdict\": \"Missing\"\n}\n"
    );
}

#[test]
fn an_emergency_incident_is_one_object() {
    let text = incident_text(&Incident::EmergencyBegan {
        available_bytes: u64::MAX,
        full_psi_percent: "99.5".into(),
        would_stop: None,
        timestamp: 7,
    });
    assert_eq!(
        text,
        "{\n  \"available_bytes\": 18446744073709551615,\n  \"event\": \"memory_emergency_began\",\n  \
         \"full_psi_percent\": 99.5,\n  \"timestamp\": 7\n}\n"
    );
}

#[test]
fn a_shed_incident_is_one_object() {
    let text = incident_text(&Incident::EmergencyShed {
        unit: "a.service".into(),
        result: "shed".into(),
        available_bytes: 1024,
        full_psi_percent: "0.0".into(),
        timestamp: 8,
    });
    assert_eq!(
        text,
        "{\n  \"available_bytes\": 1024,\n  \"event\": \"memory_emergency_shed\",\n  \
         \"full_psi_percent\": 0.0,\n  \"result\": \"shed\",\n  \"timestamp\": 8,\n  \
         \"unit\": \"a.service\"\n}\n"
    );
}

#[test]
fn records_agree_with_the_value_that_they_encode() {
    let text = incident_text(&Incident::EmergencyBegan {
        available_bytes: 1024,
        full_psi_percent: serde_json::to_string(&7.25f64).unwrap(),
        would_stop: Some(vec!["a\"\\\u{8}\t\n\u{c}\r\u{1f}\u{7f}é".into(), "b".into()]),
        timestamp: 9,
    });
    let mut object = serde_json::Map::new();
    object.insert("event".into(), serde_json::Value::from("memory_emergency_began"));
    object.insert("available_bytes".into(), serde_json::Value::from(1024u64));
    object.insert("full_psi_percent".into(), serde_json::Value::from(7.25f64));
    object.insert("timestamp".into(), serde_json::Value::from(9u64));
    object.insert(
        "would_stop".into(),
        serde_json::Value::from(vec!["a\"\\\u{8}\t\n\u{c}\r\u{1f}\u{7f}é", "b"]),
    );
    let value = serde_json::Value::Object(object);
    assert_eq!(text, format!("{}\n", serde_json::to_string_pretty(&value).unwrap()));
}

#[test]
fn a_record_that_cannot_be_had_is_an_empty_object() {
    assert_eq!(frame_record(None), "{}\n");
    assert_eq!(frame_record(Some("{\"a\": 1}".to_string())), "{\"a\": 1}\n");
    let text = incident_text(&Incident::EmergencyBegan {
        available_bytes: 1,
        full_psi_percent: "not json".into(),
        would_stop: None,
        timestamp: 9,
    });
    assert_eq!(text, "{}\n");
}

#[test]
fn keys_share_a_file_only_where_their_digests_collide() {
    // The digest has 64 bits, so some keys do collide.
    let a = "!`!\"!!!\"\"!!!!!\"\"!\"(\"!\"!\"";
    let b = "\"!\"`%\"!\"%#!#<!!?%-%!#&'#";
    assert_ne!(a, b);
    assert_eq!(incident_slug(a), format!("{}-0eff72edbf79397e", "-".repeat(24)));
    assert_eq!(incident_slug(a), incident_slug(b));
    assert_ne!(incident_slug(&a[1..]), incident_slug(&b[1..]));
}

#[test]
fn an_observed_emergency_names_the_units() {
    let began = |units: Vec<String>| {
        incident_text(&Incident::EmergencyBegan {
            available_bytes: 1024,
            full_psi_percent: "99.0".into(),
            would_stop: Some(units),
            timestamp: 8,
        })
    };
    assert_eq!(
        began(vec!["a.service".into(), "b\u{1}\".service".into()]),
        "{\n  \"available_bytes\": 1024,\n  \"event\": \"memory_emergency_began\",\n  \
         \"full_psi_percent\": 99.0,\n  \"timestamp\": 8,\n  \"would_stop\": [\n    \
         \"a.service\",\n    \"b\\u0001\\\".service\"\n  ]\n}\n"
    );
    assert!(began(Vec::new()).ends_with("\"would_stop\": []\n}\n"));
}

#[test]
fn percentages_are_written_as_they_were_given() {
    for number in [0.0f64, 7.5, 99.99, 1e-7, 0.1 + 0.2, 1e16, 123456789.12345679, -0.0] {
        let json = serde_json::to_string(&number).unwrap();
        let text = incident_text(&Incident::EmergencyBegan {
            available_bytes: 1,
            full_psi_percent: json.clone(),
            would_stop: None,
            timestamp: 1,
        });
        assert!(text.contains(&format!("\"full_psi_percent\": {json},\n")), "{text}");
    }
    let text = incident_text(&Incident::EmergencyBegan {
        available_bytes: 1,
        full_psi_percent: serde_json::to_string(&f64::NAN).unwrap(),
        would_stop: None,
        timestamp: 1,
    });
    assert!(text.contains("\"full_psi_percent\": null,\n"), "{text}");
}

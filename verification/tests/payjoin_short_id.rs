use payjoin_blackpill_test::payjoin_probe::{
    derive_short_id, encoding_nonempty, mailbox_id_encodes, parse_short_id_text,
    round_trip_matches, run_payjoin_tests, same_id, short_id_round_trip, short_id_string,
    MAILBOX_TAG, ROUND_TRIP_TAG,
};

const PROBE_ID: [u8; 8] = [251, 167, 210, 34, 69, 94, 41, 183];
const MAILBOX_ID: [u8; 8] = [81, 117, 57, 183, 92, 27, 45, 81];

#[test]
fn short_id_is_truncated_sha256() {
    assert_eq!(derive_short_id(ROUND_TRIP_TAG.as_bytes()), PROBE_ID);
    assert_eq!(derive_short_id(MAILBOX_TAG.as_bytes()), MAILBOX_ID);
    assert_eq!(derive_short_id(b""), [227, 176, 196, 66, 152, 252, 28, 20]);
}

#[test]
fn short_id_text_form() {
    assert_eq!(short_id_string(PROBE_ID), "LWNAYGJ9TC5MW");
    assert_eq!(short_id_string(MAILBOX_ID), "296NND6URVK4Z");
    assert_eq!(short_id_string([0; 8]), "QQQQQQQQQQQQQ");
}

#[test]
fn short_id_parses_back() {
    assert_eq!(parse_short_id_text("LWNAYGJ9TC5MW"), Some(PROBE_ID));
    let text = short_id_string(MAILBOX_ID);
    assert_eq!(parse_short_id_text(&text), Some(MAILBOX_ID));
}

#[test]
fn bad_short_id_text_refused() {
    assert_eq!(parse_short_id_text("not a short id!"), None);
    assert_eq!(parse_short_id_text("QQ"), None);
}

#[test]
fn id_comparisons() {
    assert!(same_id(&PROBE_ID, &PROBE_ID));
    assert!(!same_id(&PROBE_ID, &MAILBOX_ID));
    assert!(round_trip_matches(&PROBE_ID, Some(PROBE_ID)));
    assert!(!round_trip_matches(&PROBE_ID, Some(MAILBOX_ID)));
    assert!(!round_trip_matches(&PROBE_ID, None));
    assert!(encoding_nonempty(&String::from("A")));
    assert!(!encoding_nonempty(&String::new()));
}

#[test]
fn round_trip_and_mailbox_checks() {
    assert!(short_id_round_trip(ROUND_TRIP_TAG.as_bytes()));
    assert!(short_id_round_trip(b"any other seed"));
    assert!(mailbox_id_encodes(MAILBOX_TAG.as_bytes()));
}

#[test]
fn self_test_passes() {
    assert!(run_payjoin_tests());
}

#[test]
fn any_thirteen_character_text_parses() {
    // Thirteen bech32 characters always decode to eight bytes; the trailing
    // pad bit is dropped.
    assert_eq!(parse_short_id_text("QQQQQQQQQQQQP"), Some([0; 8]));
    assert_eq!(parse_short_id_text("0000000000000"), Some([0x7b, 0xde, 0xf7, 0xbd, 0xef, 0x7b, 0xde, 0xf7]));
}

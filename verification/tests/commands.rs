use funke::audio::{
    card_name, get_device_profiles, list_cards_arguments, parse_card_profiles, set_card_profile,
    set_card_profile_arguments, AudioProfile,
};
use funke::bluetooth::rfkill_unblock_bluetooth;
use funke::process::CommandOutput;

fn ran(success: bool, stdout: &[u8], stderr: &[u8]) -> Result<CommandOutput, String> {
    Ok(CommandOutput { success, stdout: stdout.to_vec(), stderr: stderr.to_vec() })
}

const REPORT: &str = "Card #1\n\tName: bluez_card.AA_BB\n\tProfiles:\n\t\ta: First (sinks: 1)\n\t\tb: Second\n\tActive Profile: b\n";

#[test]
fn cards_are_named_after_the_address() {
    assert_eq!(card_name("AA:BB:CC"), "bluez_card.AA_BB_CC");
    assert_eq!(list_cards_arguments(), ["list", "cards"]);
    assert_eq!(
        set_card_profile_arguments("AA:BB", "a2dp-sink"),
        ["set-card-profile", "bluez_card.AA_BB", "a2dp-sink"]
    );
}

#[test]
fn profiles_come_from_the_standard_output() {
    let profiles = get_device_profiles("AA:BB", ran(true, REPORT.as_bytes(), b"")).unwrap();
    assert_eq!(
        profiles,
        [
            AudioProfile { name: "a".into(), description: "First".into(), active: false },
            AudioProfile { name: "b".into(), description: "Second".into(), active: true },
        ]
    );
}

#[test]
fn a_command_that_does_not_run_is_an_error() {
    let missing = || Err("No such file".to_string());
    assert_eq!(
        get_device_profiles("AA:BB", missing()).unwrap_err(),
        "Failed to run pactl: No such file"
    );
    assert_eq!(set_card_profile(missing()).unwrap_err(), "Failed to run pactl: No such file");
    assert_eq!(
        rfkill_unblock_bluetooth(missing()).unwrap_err(),
        "Failed to run rfkill: No such file"
    );
}

#[test]
fn a_command_that_fails_is_an_error_with_its_message() {
    let failed = || ran(false, b"ignored", b"  Connection refused \n");
    assert_eq!(
        get_device_profiles("AA:BB", failed()).unwrap_err(),
        "pactl failed: Connection refused"
    );
    assert_eq!(
        set_card_profile(failed()).unwrap_err(),
        "Profile switch failed: Connection refused"
    );
    assert_eq!(
        rfkill_unblock_bluetooth(failed()).unwrap_err(),
        "rfkill unblock failed: Connection refused"
    );
}

#[test]
fn a_command_that_succeeds_is_fine() {
    assert!(set_card_profile(ran(true, b"", b"noise")).is_ok());
    assert!(rfkill_unblock_bluetooth(ran(true, b"", b"")).is_ok());
}

#[test]
fn bytes_that_are_no_text_are_replaced() {
    assert_eq!(
        set_card_profile(ran(false, b"", b"bad \xff byte")).unwrap_err(),
        "Profile switch failed: bad \u{fffd} byte"
    );
    assert_eq!(
        set_card_profile(ran(false, b"", "Gerät".as_bytes())).unwrap_err(),
        "Profile switch failed: Gerät"
    );
}

#[test]
fn a_report_without_profiles_is_an_error() {
    let report = "Card #1\n\tName: bluez_card.AA_BB\n\tProfiles:\n\t\toff: Off\n\tActive Profile: off\n";
    assert_eq!(
        get_device_profiles("AA:BB", ran(true, report.as_bytes(), b"")).unwrap_err(),
        "No audio profiles found"
    );
}

#[test]
fn the_profile_section_ends_at_a_line_that_is_not_indented() {
    let report = "Name: card\nProfiles:\n  a: One\nSinks:\n  b: Two\n";
    let profiles = parse_card_profiles(report, "card").unwrap();
    assert_eq!(profiles.len(), 1);
    assert_eq!(profiles[0].name, "a");
    assert!(!profiles[0].active);
}

#[test]
fn another_card_ends_the_one_looked_for() {
    let report = "Card #1\n\tName: one\n\tProfiles:\n\t\ta: A\nCard #2\n\tName: two\n\tProfiles:\n\t\tb: B\n\tActive Profile: b\n";
    let profiles = parse_card_profiles(report, "one").unwrap();
    assert_eq!(profiles.len(), 1);
    assert_eq!(profiles[0].name, "a");
    assert!(!profiles[0].active);
}

#[test]
fn reading_stops_at_the_active_profile() {
    let report = "\tName: card\n\tProfiles:\n\t\ta: A\n\tActive Profile: a\n\tProfiles:\n\t\tb: B\n";
    let profiles = parse_card_profiles(report, "card").unwrap();
    assert_eq!(profiles.len(), 1);
    assert!(profiles[0].active);
}

#[test]
fn lines_without_a_description_are_skipped() {
    let report = "\tName: card\n\tProfiles:\n\t\tnonsense\n\n\t\ta: b: c (sinks: 1)\r\n\tActive Profile:\n";
    let profiles = parse_card_profiles(report, "card").unwrap();
    assert_eq!(profiles.len(), 1);
    assert_eq!(profiles[0].name, "a");
    assert_eq!(profiles[0].description, "b: c");
}

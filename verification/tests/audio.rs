use funke::audio::parse_card_profiles;

const PACTL_OUTPUT: &str = "\
Card #46
\tName: bluez_card.AA_BB_CC_DD_EE_FF
\tDriver: module-bluez5-device.c
\tOwner Module: 23
\tProperties:
\t\tdevice.string = \"AA:BB:CC:DD:EE:FF\"
\tProfiles:
\t\ta2dp-sink: High Fidelity Playback (A2DP Sink, codec SBC) (sinks: 1, sources: 0, priority: 40, available: yes)
\t\theadset-head-unit: Headset Head Unit (HSP/HFP) (sinks: 1, sources: 1, priority: 30, available: yes)
\t\ta2dp-sink-aac: High Fidelity Playback (A2DP Sink, codec AAC) (sinks: 1, sources: 0, priority: 40, available: yes)
\t\toff: Off (sinks: 0, sources: 0, priority: 0, available: yes)
\tActive Profile: a2dp-sink
\tPorts:
\t\tspeaker-output: Speaker (type: Speaker, priority: 0, latency offset: 0 usec, available)
";

#[test]
fn test_parse_card_profiles() {
    let profiles =
        parse_card_profiles(PACTL_OUTPUT, "bluez_card.AA_BB_CC_DD_EE_FF").unwrap();
    assert_eq!(profiles.len(), 3);
    assert_eq!(profiles[0].name, "a2dp-sink");
    assert_eq!(
        profiles[0].description,
        "High Fidelity Playback (A2DP Sink, codec SBC)"
    );
    assert!(profiles[0].active);
    assert_eq!(profiles[1].name, "headset-head-unit");
    assert_eq!(profiles[1].description, "Headset Head Unit (HSP/HFP)");
    assert!(!profiles[1].active);
    assert_eq!(profiles[2].name, "a2dp-sink-aac");
    assert!(!profiles[2].active);
}

#[test]
fn test_parse_card_profiles_no_card() {
    let result = parse_card_profiles(PACTL_OUTPUT, "bluez_card.11_22_33_44_55_66");
    assert!(result.is_err());
    assert!(result.unwrap_err().contains("No audio profiles found"));
}

#[test]
fn test_parse_card_profiles_empty_output() {
    let result = parse_card_profiles("", "bluez_card.AA_BB_CC_DD_EE_FF");
    assert!(result.is_err());
}

#[test]
fn test_parse_card_profiles_multiple_cards() {
    let output = format!(
        "\
Card #10
\tName: alsa_card.pci-0000_00_1f.3
\tProfiles:
\t\toutput:analog-stereo: Analog Stereo Output (sinks: 1, sources: 0, priority: 6500, available: yes)
\t\toff: Off (sinks: 0, sources: 0, priority: 0, available: yes)
\tActive Profile: output:analog-stereo

{}",
        PACTL_OUTPUT
    );
    let profiles =
        parse_card_profiles(&output, "bluez_card.AA_BB_CC_DD_EE_FF").unwrap();
    assert_eq!(profiles.len(), 3);
    assert_eq!(profiles[0].name, "a2dp-sink");
}

#[test]
fn test_parse_card_profiles_skips_off() {
    let profiles =
        parse_card_profiles(PACTL_OUTPUT, "bluez_card.AA_BB_CC_DD_EE_FF").unwrap();
    assert!(!profiles.iter().any(|p| p.name == "off"));
}

#[test]
fn test_parse_card_profiles_active_marked() {
    let profiles =
        parse_card_profiles(PACTL_OUTPUT, "bluez_card.AA_BB_CC_DD_EE_FF").unwrap();
    let active: Vec<_> = profiles.iter().filter(|p| p.active).collect();
    assert_eq!(active.len(), 1);
    assert_eq!(active[0].name, "a2dp-sink");
}

#[test]
fn other_cards_do_not_count() {
    let card = "bluez_card.AA_BB_CC_DD_EE_FF";
    let other = "Card #10\n\tName: alsa_card.pci\n\tProfiles:\n\t\tx: X (sinks: 1)\n\tActive Profile: x\n";
    let alone = parse_card_profiles(PACTL_OUTPUT, card).unwrap();
    let after = format!("{other}{PACTL_OUTPUT}");
    assert_eq!(parse_card_profiles(&after, card).unwrap(), alone);
    let before = format!("{PACTL_OUTPUT}{other}");
    assert_eq!(parse_card_profiles(&before, card).unwrap(), alone);
    let both = format!("{other}\n{PACTL_OUTPUT}\n{other}");
    assert_eq!(parse_card_profiles(&both, card).unwrap(), alone);
}

#[test]
fn a_block_is_read_line_by_line() {
    let report = "Card #1\n\tName: c1\n\tState: idle\n\tProfiles:\n\t\ta: First (x) (sinks: 1)\n\n\t\tno profile\n\t\toff: Off (sinks: 0)\n  b:c: Second\n\tActive Profile: b:c \nCard #2\n\tName: c2\n";
    assert!(parse_card_profiles(report, "c2").is_err());
    let profiles = parse_card_profiles(report, "c1").unwrap();
    let read: Vec<(&str, &str, bool)> =
        profiles.iter().map(|p| (p.name.as_str(), p.description.as_str(), p.active)).collect();
    assert_eq!(read, [("a", "First (x)", false), ("b:c", "Second", true)]);
}

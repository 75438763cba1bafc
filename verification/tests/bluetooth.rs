use std::collections::HashMap;

use funke::bluetooth::{device_object_path, AdapterInfo, DeviceInfo};
use funke::bus::{parse_device_from_interfaces, parse_devices_from_objects, AGENT_PATH};
use zbus::zvariant::{OwnedObjectPath, OwnedValue};
use zbus::zvariant::Value;

#[test]
fn test_adapter_info_clone_and_debug() {
    let info = AdapterInfo {
        name: "hci0".to_string(),
        address: "00:11:22:33:44:55".to_string(),
        powered: true,
    };
    let cloned = info.clone();
    assert_eq!(cloned.name, "hci0");
    assert_eq!(cloned.address, "00:11:22:33:44:55");
    assert!(cloned.powered);
    let debug = format!("{:?}", info);
    assert!(debug.contains("hci0"));
}

#[test]
fn test_device_info_display_name_with_name() {
    let device = DeviceInfo {
        name: Some("My Speaker".to_string()),
        address: "11:22:33:44:55:66".to_string(),
        paired: true,
        connected: false,
        trusted: false,
        icon: None,
        uuids: vec![],
    };
    assert_eq!(device.display_name(), "My Speaker");
}

#[test]
fn test_device_info_display_name_without_name() {
    let device = DeviceInfo {
        name: None,
        address: "11:22:33:44:55:66".to_string(),
        paired: false,
        connected: false,
        trusted: false,
        icon: None,
        uuids: vec![],
    };
    assert_eq!(device.display_name(), "11:22:33:44:55:66");
}

#[test]
fn test_parse_devices_from_objects_empty() {
    let objects = HashMap::new();
    let devices = parse_devices_from_objects(&objects);
    assert!(devices.is_empty());
}

fn make_device_props(
    name: Option<&str>,
    address: &str,
    paired: bool,
    connected: bool,
) -> HashMap<String, OwnedValue> {
    let mut props = HashMap::new();
    if let Some(n) = name {
        props.insert("Name".to_string(), Value::from(n.to_string()).try_into().unwrap());
    }
    props.insert("Address".to_string(), Value::from(address.to_string()).try_into().unwrap());
    props.insert("Paired".to_string(), Value::from(paired).try_into().unwrap());
    props.insert("Connected".to_string(), Value::from(connected).try_into().unwrap());
    props.insert("Trusted".to_string(), Value::from(false).try_into().unwrap());
    props
}

#[test]
fn test_parse_devices_from_objects() {
    let mut objects: HashMap<OwnedObjectPath, HashMap<String, HashMap<String, OwnedValue>>> =
        HashMap::new();

    let mut ifaces1 = HashMap::new();
    ifaces1.insert(
        "org.bluez.Device1".to_string(),
        make_device_props(Some("Speaker"), "AA:BB:CC:DD:EE:01", true, false),
    );
    objects.insert(
        OwnedObjectPath::try_from("/org/bluez/hci0/dev_AA_BB_CC_DD_EE_01").unwrap(),
        ifaces1,
    );

    let mut ifaces2 = HashMap::new();
    ifaces2.insert(
        "org.bluez.Device1".to_string(),
        make_device_props(None, "AA:BB:CC:DD:EE:02", false, false),
    );
    objects.insert(
        OwnedObjectPath::try_from("/org/bluez/hci0/dev_AA_BB_CC_DD_EE_02").unwrap(),
        ifaces2,
    );

    let mut ifaces3 = HashMap::new();
    ifaces3.insert(
        "org.bluez.Device1".to_string(),
        make_device_props(Some("Headphones"), "AA:BB:CC:DD:EE:03", true, true),
    );
    objects.insert(
        OwnedObjectPath::try_from("/org/bluez/hci0/dev_AA_BB_CC_DD_EE_03").unwrap(),
        ifaces3,
    );

    let devices = parse_devices_from_objects(&objects);
    assert_eq!(devices.len(), 3);

    // Connected device should be first
    assert_eq!(devices[0].display_name(), "Headphones");
    assert!(devices[0].connected);

    // Paired device second
    assert_eq!(devices[1].display_name(), "Speaker");
    assert!(devices[1].paired);
    assert!(!devices[1].connected);
}

#[test]
fn test_parse_devices_ignores_non_device_interfaces() {
    let mut objects: HashMap<OwnedObjectPath, HashMap<String, HashMap<String, OwnedValue>>> =
        HashMap::new();

    // An object with only Adapter1 interface, no Device1
    let mut ifaces = HashMap::new();
    ifaces.insert("org.bluez.Adapter1".to_string(), HashMap::new());
    objects.insert(
        OwnedObjectPath::try_from("/org/bluez/hci0").unwrap(),
        ifaces,
    );

    let devices = parse_devices_from_objects(&objects);
    assert!(devices.is_empty());
}

#[test]
fn test_parse_device_from_interfaces_with_device1() {
    let mut interfaces = HashMap::new();
    interfaces.insert(
        "org.bluez.Device1".to_string(),
        make_device_props(Some("Headset"), "11:22:33:44:55:66", false, false),
    );
    let device = parse_device_from_interfaces(&interfaces).unwrap();
    assert_eq!(device.display_name(), "Headset");
    assert_eq!(device.address, "11:22:33:44:55:66");
    assert!(!device.paired);
    assert!(!device.connected);
}

#[test]
fn test_parse_device_from_interfaces_without_device1() {
    let mut interfaces = HashMap::new();
    interfaces.insert("org.bluez.Adapter1".to_string(), HashMap::new());
    assert!(parse_device_from_interfaces(&interfaces).is_none());
}

#[test]
fn test_parse_device_from_interfaces_empty() {
    let interfaces = HashMap::new();
    assert!(parse_device_from_interfaces(&interfaces).is_none());
}

#[test]
fn test_parse_device_from_interfaces_with_extended_props() {
    let mut props = make_device_props(Some("Speaker"), "AA:BB:CC:DD:EE:01", true, true);
    props.insert("Trusted".to_string(), Value::from(true).try_into().unwrap());
    props.insert("Icon".to_string(), Value::from("audio-card".to_string()).try_into().unwrap());
    let uuids: Vec<String> = vec!["0000110b-0000-1000-8000-00805f9b34fb".to_string()];
    props.insert("UUIDs".to_string(), Value::from(uuids.clone()).try_into().unwrap());

    let mut interfaces = HashMap::new();
    interfaces.insert("org.bluez.Device1".to_string(), props);

    let device = parse_device_from_interfaces(&interfaces).unwrap();
    assert!(device.trusted);
    assert_eq!(device.icon.as_deref(), Some("audio-card"));
    assert_eq!(device.uuids, uuids);
}

#[test]
fn test_parse_device_from_interfaces_defaults_extended_props() {
    let mut interfaces = HashMap::new();
    interfaces.insert(
        "org.bluez.Device1".to_string(),
        make_device_props(Some("Headset"), "11:22:33:44:55:66", false, false),
    );
    let device = parse_device_from_interfaces(&interfaces).unwrap();
    assert!(!device.trusted);
    assert!(device.icon.is_none());
    assert!(device.uuids.is_empty());
}

#[test]
fn test_has_audio_profiles_true() {
    let device = DeviceInfo {
        name: Some("Speaker".to_string()),
        address: "AA:BB:CC:DD:EE:FF".to_string(),
        paired: true,
        connected: true,
        trusted: false,
        icon: Some("audio-card".to_string()),
        uuids: vec!["0000110b-0000-1000-8000-00805f9b34fb".to_string()],
    };
    assert!(device.has_audio_profiles());
}

#[test]
fn test_has_audio_profiles_false() {
    let device = DeviceInfo {
        name: Some("Keyboard".to_string()),
        address: "AA:BB:CC:DD:EE:FF".to_string(),
        paired: true,
        connected: false,
        trusted: false,
        icon: Some("input-keyboard".to_string()),
        uuids: vec!["00001124-0000-1000-8000-00805f9b34fb".to_string()],
    };
    assert!(!device.has_audio_profiles());
}

#[test]
fn test_has_audio_profiles_empty_uuids() {
    let device = DeviceInfo {
        name: Some("Unknown".to_string()),
        address: "AA:BB:CC:DD:EE:FF".to_string(),
        paired: false,
        connected: false,
        trusted: false,
        icon: None,
        uuids: vec![],
    };
    assert!(!device.has_audio_profiles());
}

#[test]
fn test_has_audio_profiles_multiple_uuids() {
    let device = DeviceInfo {
        name: Some("Headset".to_string()),
        address: "AA:BB:CC:DD:EE:FF".to_string(),
        paired: true,
        connected: true,
        trusted: false,
        icon: None,
        uuids: vec![
            "00001200-0000-1000-8000-00805f9b34fb".to_string(), // non-audio
            "0000111e-0000-1000-8000-00805f9b34fb".to_string(), // HFP HF
        ],
    };
    assert!(device.has_audio_profiles());
}

#[test]
fn test_device_object_path() {
    assert_eq!(
        device_object_path("AA:BB:CC:DD:EE:FF"),
        "/org/bluez/hci0/dev_AA_BB_CC_DD_EE_FF"
    );
    assert_eq!(
        device_object_path("11:22:33:44:55:66"),
        "/org/bluez/hci0/dev_11_22_33_44_55_66"
    );
}

#[test]
fn test_agent_path_constant() {
    assert_eq!(AGENT_PATH, "/org/bluez/funke_agent");
}

use std::collections::HashMap;

use funke::bluetooth::{sort_devices, AdapterInfo, DeviceInfo};
use funke::bus::{
    adapter_answer, device_from_properties, devices_among, is_adapter_missing, parse_device_from_interfaces,
    parse_devices_from_objects, says_adapter_missing, try_get_adapter_info, BusError,
    DeviceProperties, Interfaces,
};
use zbus::zvariant::{OwnedObjectPath, OwnedValue, Value};

fn owned(value: Value<'_>) -> OwnedValue {
    value.try_into().unwrap()
}

fn device(name: Option<&str>, address: &str, connected: bool, paired: bool) -> DeviceInfo {
    DeviceInfo {
        name: name.map(|n| n.to_string()),
        address: address.to_string(),
        paired,
        connected,
        trusted: false,
        icon: None,
        uuids: vec![],
    }
}

fn object(props: Vec<(&str, Value<'_>)>) -> Interfaces {
    let mut map = HashMap::new();
    for (key, value) in props {
        map.insert(key.to_string(), owned(value));
    }
    let mut interfaces = HashMap::new();
    interfaces.insert("org.bluez.Device1".to_string(), map);
    interfaces
}

fn path(s: &str) -> OwnedObjectPath {
    OwnedObjectPath::try_from(s).unwrap()
}

#[test]
fn properties_of_another_type_count_as_absent() {
    let found = parse_device_from_interfaces(&object(vec![
        ("Name", Value::from(7_u32)),
        ("Address", Value::from(true)),
        ("Paired", Value::from("yes")),
        ("Connected", Value::from(1_u8)),
        ("Trusted", Value::from("true")),
        ("Icon", Value::from(false)),
        ("UUIDs", Value::from("0000110b")),
    ]))
    .unwrap();
    assert_eq!(found, device(None, "", false, false));
}

#[test]
fn properties_are_read_by_their_names() {
    let uuids = vec!["a".to_string(), "b".to_string()];
    let found = parse_device_from_interfaces(&object(vec![
        ("Name", Value::from("N")),
        ("Address", Value::from("A")),
        ("Paired", Value::from(true)),
        ("Connected", Value::from(false)),
        ("Trusted", Value::from(true)),
        ("Icon", Value::from("I")),
        ("UUIDs", Value::from(uuids.clone())),
        ("Alias", Value::from("ignored")),
    ]))
    .unwrap();
    assert_eq!(
        found,
        DeviceInfo {
            name: Some("N".into()),
            address: "A".into(),
            paired: true,
            connected: false,
            trusted: true,
            icon: Some("I".into()),
            uuids,
        }
    );
}

#[test]
fn arrays_of_other_things_are_no_texts() {
    let found =
        parse_device_from_interfaces(&object(vec![("UUIDs", Value::from(vec![1_u32, 2]))])).unwrap();
    assert!(found.uuids.is_empty());
}

#[test]
fn absent_properties_have_defaults() {
    let found = device_from_properties(DeviceProperties {
        name: None,
        address: None,
        paired: None,
        connected: None,
        trusted: None,
        icon: None,
        uuids: None,
    });
    assert_eq!(found, device(None, "", false, false));
}

#[test]
fn objects_outside_of_bluez_are_ignored() {
    let mut objects = HashMap::new();
    objects.insert(path("/org/other/dev"), object(vec![("Address", Value::from("A"))]));
    objects.insert(path("/org/bluez"), object(vec![("Address", Value::from("B"))]));
    objects.insert(path("/org/bluez/hci0/dev"), object(vec![("Address", Value::from("C"))]));
    let found = parse_devices_from_objects(&objects);
    assert_eq!(found.len(), 1);
    assert_eq!(found[0].address, "C");
}

#[test]
fn the_order_of_the_objects_does_not_matter() {
    let a = (path("/org/bluez/a"), object(vec![("Address", Value::from("1")), ("Name", Value::from("b"))]));
    let b = (path("/org/bluez/b"), object(vec![("Address", Value::from("2")), ("Name", Value::from("A"))]));
    let one = devices_among(&vec![(&a.0, &a.1), (&b.0, &b.1)]);
    let two = devices_among(&vec![(&b.0, &b.1), (&a.0, &a.1)]);
    assert_eq!(one, two);
    assert_eq!(one[0].address, "2");
}

#[test]
fn sorting_goes_by_connection_pairing_and_name() {
    let sorted = sort_devices(vec![
        device(Some("zeta"), "1", false, false),
        device(None, "beta", false, false),
        device(Some("Alpha"), "2", false, true),
        device(Some("omega"), "3", true, false),
        device(Some("Psi"), "4", true, true),
        device(Some("ALPHA"), "5", false, true),
        device(Some("Éa"), "6", false, false),
    ]);
    let addresses: Vec<&str> = sorted.iter().map(|d| d.address.as_str()).collect();
    assert_eq!(addresses, ["4", "3", "2", "5", "beta", "1", "6"]);
}

#[test]
fn ties_keep_their_order() {
    let sorted = sort_devices(vec![
        device(Some("x"), "1", false, false),
        device(Some("X"), "2", false, false),
        device(Some("x"), "3", false, false),
    ]);
    let addresses: Vec<&str> = sorted.iter().map(|d| d.address.as_str()).collect();
    assert_eq!(addresses, ["1", "2", "3"]);
}

#[test]
fn services_count_in_any_case() {
    let mut d = device(None, "1", true, true);
    d.uuids = vec!["0000110B-0000-1000-8000-00805F9B34FB".to_string()];
    assert!(d.has_audio_profiles());
    for prefix in ["0000110a", "0000110b", "00001108", "00001112", "0000111e", "0000111f"] {
        d.uuids = vec![prefix.to_string()];
        assert!(d.has_audio_profiles());
    }
    d.uuids = vec!["x0000110b".to_string(), "0000110".to_string(), "0000110c".to_string()];
    assert!(!d.has_audio_profiles());
}

#[test]
fn errors_that_say_that_the_adapter_is_missing() {
    let fdo = |e: zbus::fdo::Error| zbus::Error::FDO(Box::new(e));
    assert!(is_adapter_missing(&fdo(zbus::fdo::Error::UnknownObject("x".into()))));
    assert!(is_adapter_missing(&fdo(zbus::fdo::Error::ServiceUnknown("x".into()))));
    assert!(is_adapter_missing(&fdo(zbus::fdo::Error::UnknownInterface("x".into()))));
    assert!(!is_adapter_missing(&fdo(zbus::fdo::Error::AccessDenied("UnknownObject".into()))));
    assert!(is_adapter_missing(&zbus::Error::InterfaceNotFound));
    assert!(is_adapter_missing(&zbus::Error::Address("got UnknownObject".into())));
    assert!(is_adapter_missing(&zbus::Error::Failure("ServiceUnknown here".into())));
    assert!(!is_adapter_missing(&zbus::Error::Failure("no luck".into())));
}

fn error_reply(name: &str) -> zbus::Error {
    let call = zbus::message::Message::method_call("/", "Get").unwrap().build(&()).unwrap();
    let reply = zbus::message::Message::error(&call.header(), name).unwrap().build(&()).unwrap();
    zbus::Error::MethodError(zbus::names::OwnedErrorName::try_from(name).unwrap(), None, reply)
}

#[test]
fn error_replies_are_told_apart_by_name() {
    assert!(is_adapter_missing(&error_reply("org.freedesktop.DBus.Error.UnknownObject")));
    assert!(is_adapter_missing(&error_reply("org.freedesktop.DBus.Error.ServiceUnknown")));
    assert!(!is_adapter_missing(&error_reply("org.freedesktop.DBus.Error.AccessDenied")));
    assert!(!is_adapter_missing(&error_reply("org.example.UnknownObject")));
}

#[test]
fn every_kind_of_error_is_judged() {
    assert!(says_adapter_missing(&BusError::UnknownObject));
    assert!(says_adapter_missing(&BusError::ServiceUnknown));
    assert!(says_adapter_missing(&BusError::UnknownInterface));
    assert!(says_adapter_missing(&BusError::InterfaceNotFound));
    assert!(!says_adapter_missing(&BusError::OtherStandard));
    assert!(!says_adapter_missing(&BusError::Other("UnknownInterface".into())));
    assert!(says_adapter_missing(&BusError::Other("a ServiceUnknown b".into())));
    assert!(says_adapter_missing(&BusError::Machine("a ServiceUnknown b".into())));
    assert!(!says_adapter_missing(&BusError::Machine("refused".into())));
    assert!(!says_adapter_missing(&BusError::Method("UnknownObject".into())));
}

#[test]
fn a_missing_adapter_is_no_error() {
    let info = AdapterInfo { name: "hci0".into(), address: "A".into(), powered: true };
    assert_eq!(try_get_adapter_info(Ok(info)).unwrap().unwrap().name, "hci0");
    assert!(try_get_adapter_info(Err(zbus::Error::InterfaceNotFound)).unwrap().is_none());
    assert!(try_get_adapter_info(Err(zbus::Error::Failure("no luck".into()))).is_err());
}

#[test]
fn messages_decide_over_other_errors() {
    let io = |text: &str| std::io::Error::new(std::io::ErrorKind::Other, text.to_string());
    assert!(is_adapter_missing(&zbus::Error::InputOutput(io("UnknownObject").into())));
    assert!(!is_adapter_missing(&zbus::Error::InputOutput(io("refused").into())));
    let variant = |e: zbus::zvariant::Error| zbus::Error::Variant(e);
    assert!(is_adapter_missing(&variant(zbus::zvariant::Error::Message("ServiceUnknown".into()))));
    assert!(!is_adapter_missing(&variant(zbus::zvariant::Error::IncorrectType)));
    assert!(is_adapter_missing(&variant(io("ServiceUnknown").into())));
    assert!(is_adapter_missing(&zbus::Error::Handshake("UnknownObject".into())));
    assert!(is_adapter_missing(&zbus::Error::MissingParameter("UnknownObject")));
    for error in [
        zbus::Error::InvalidField,
        zbus::Error::ExcessData,
        zbus::Error::IncorrectEndian,
        zbus::Error::InvalidReply,
        zbus::Error::MissingField,
        zbus::Error::InvalidGUID,
        zbus::Error::Unsupported,
        zbus::Error::NameTaken,
        zbus::Error::InvalidMatchRule,
        zbus::Error::InvalidSerial,
    ] {
        assert!(!is_adapter_missing(&error));
        assert!(try_get_adapter_info(Err(error)).is_err());
    }
    assert!(try_get_adapter_info(Err(zbus::Error::Handshake("UnknownObject".into()))).unwrap().is_none());
}

#[test]
fn the_answer_keeps_the_error() {
    let failure = || Err(zbus::Error::Failure("why".into()));
    assert!(adapter_answer(failure(), true).unwrap().is_none());
    assert_eq!(adapter_answer(failure(), false).unwrap_err(), zbus::Error::Failure("why".into()));
    let info = AdapterInfo { name: "hci0".into(), address: "A".into(), powered: true };
    assert!(adapter_answer(Ok(info), true).unwrap().is_some());
}

//! What the D-Bus side hands over: property maps, object paths and errors.
use std::collections::HashMap;

use vstd::prelude::*;
use zbus::zvariant::{OwnedObjectPath, OwnedValue};

use crate::bluetooth;
use crate::bluetooth::{AdapterInfo, DeviceInfo, DeviceView};
use crate::text;

verus! {

/// A property value on the bus.
#[verifier::external_type_specification]
#[verifier::external_body]
pub struct ExOwnedValue(zbus::zvariant::OwnedValue);

/// The path of an object on the bus.
#[verifier::external_type_specification]
#[verifier::external_body]
pub struct ExOwnedObjectPath(zbus::zvariant::OwnedObjectPath);

/// An error of the bus library.
#[verifier::external_type_specification]
#[verifier::external_body]
pub struct ExBusError(zbus::Error);

/// The D-Bus object path for our pairing agent.
pub const AGENT_PATH: &'static str = "/org/bluez/funke_agent";

/// The input and output abilities that our pairing agent announces.
pub const AGENT_CAPABILITY: &'static str = "KeyboardDisplay";

/// The properties of one interface, by name.
pub type Properties = HashMap<String, OwnedValue>;

/// The interfaces of one object, by name.
pub type Interfaces = HashMap<String, HashMap<String, OwnedValue>>;

/// What a property value holds, as far as devices have such properties.
pub enum Held {
    /// A text.
    Text(Seq<char>),
    /// A truth value.
    Flag(bool),
    /// An array whose elements are texts, or variants that hold texts.
    Texts(Seq<Seq<char>>),
    /// Anything else.
    Other,
}

/// What a value of the bus library holds.
pub uninterp spec fn held(value: OwnedValue) -> Held;

/// `<&str>::try_from(&OwnedValue)`: gives the text of a value that holds a text, and an error for
/// every other value.
#[verifier::external_body]
fn read_text(value: &OwnedValue) -> (found: Option<String>)
    ensures
        text::opt_text(found) == as_text(held(*value)),
{
    match <&str>::try_from(value) {
        Ok(content) => Some(content.to_string()),
        Err(_) => None,
    }
}

/// `bool::try_from(&OwnedValue)`: gives the truth value of a value that holds one, and an error for
/// every other value.
#[verifier::external_body]
fn read_flag(value: &OwnedValue) -> (found: Option<bool>)
    ensures
        found == as_flag(held(*value)),
{
    bool::try_from(value).ok()
}

/// `Vec::<String>::try_from(OwnedValue)`, on a copy made by `OwnedValue::try_clone`: gives the texts
/// of an array of texts, and an error for every other value. Copying fails for values with file
/// descriptors only, which hold no such array.
#[verifier::external_body]
fn read_texts(value: &OwnedValue) -> (found: Option<Vec<String>>)
    ensures
        opt_texts(found) == as_texts(held(*value)),
{
    match value.try_clone() {
        Ok(copy) => Vec::<String>::try_from(copy).ok(),
        Err(_) => None,
    }
}

/// The text in a value that holds one.
pub open spec fn as_text(value: Held) -> Option<Seq<char>> {
    match value {
        Held::Text(content) => Some(content),
        _ => None,
    }
}

/// The truth value in a value that holds one.
pub open spec fn as_flag(value: Held) -> Option<bool> {
    match value {
        Held::Flag(content) => Some(content),
        _ => None,
    }
}

/// The texts in a value that holds an array of them.
pub open spec fn as_texts(value: Held) -> Option<Seq<Seq<char>>> {
    match value {
        Held::Texts(content) => Some(content),
        _ => None,
    }
}

/// The characters of each text of a list that may be absent.
pub open spec fn opt_texts(list: Option<Vec<String>>) -> Option<Seq<Seq<char>>> {
    match list {
        Some(list) => Some(text::texts(list@)),
        None => None,
    }
}

/// The value that a map has under a key with the characters `key`.
pub open spec fn entry<V>(map: Map<String, V>, key: Seq<char>) -> Option<V> {
    if exists|k: String| map.contains_key(k) && k@ == key {
        Some(map[choose|k: String| map.contains_key(k) && k@ == key])
    } else {
        None
    }
}

/// `HashMap::get` with a text as the key: the value under the key with these characters, of which a
/// map has one at most.
#[verifier::external_body]
fn lookup<'a, V>(map: &'a HashMap<String, V>, key: &str) -> (found: Option<&'a V>)
    ensures
        match found {
            Some(value) => entry(map@, key@) == Some(*value),
            None => entry(map@, key@) is None,
        },
{
    map.get(key)
}

/// What the properties of the device interface say, each absent where there is no such property or
/// where it is of another type.
pub struct DeviceProperties {
    pub name: Option<String>,
    pub address: Option<String>,
    pub paired: Option<bool>,
    pub connected: Option<bool>,
    pub trusted: Option<bool>,
    pub icon: Option<String>,
    pub uuids: Option<Vec<String>>,
}

/// The model of [`DeviceProperties`].
#[verifier::ext_equal]
pub struct PropertiesView {
    pub name: Option<Seq<char>>,
    pub address: Option<Seq<char>>,
    pub paired: Option<bool>,
    pub connected: Option<bool>,
    pub trusted: Option<bool>,
    pub icon: Option<Seq<char>>,
    pub uuids: Option<Seq<Seq<char>>>,
}

impl View for DeviceProperties {
    type V = PropertiesView;

    open spec fn view(&self) -> PropertiesView {
        PropertiesView {
            name: text::opt_text(self.name),
            address: text::opt_text(self.address),
            paired: self.paired,
            connected: self.connected,
            trusted: self.trusted,
            icon: text::opt_text(self.icon),
            uuids: opt_texts(self.uuids),
        }
    }
}

/// The device with these properties: an absent flag is down, an absent address or service list is
/// empty.
pub open spec fn described(properties: PropertiesView) -> DeviceView {
    DeviceView {
        name: properties.name,
        address: properties.address.unwrap_or(Seq::empty()),
        paired: properties.paired.unwrap_or(false),
        connected: properties.connected.unwrap_or(false),
        trusted: properties.trusted.unwrap_or(false),
        icon: properties.icon,
        uuids: properties.uuids.unwrap_or(Seq::empty()),
    }
}

/// The device with these properties.
pub fn device_from_properties(properties: DeviceProperties) -> (device: DeviceInfo)
    ensures
        device@ == described(properties@),
{
    let address = match properties.address {
        Some(address) => address,
        None => String::new(),
    };
    let uuids: Vec<String> = match properties.uuids {
        Some(uuids) => uuids,
        None => Vec::new(),
    };
    assert(properties.uuids is None ==> text::texts(uuids@) =~= Seq::empty());
    DeviceInfo {
        name: properties.name,
        address,
        paired: properties.paired.unwrap_or(false),
        connected: properties.connected.unwrap_or(false),
        trusted: properties.trusted.unwrap_or(false),
        icon: properties.icon,
        uuids,
    }
}

/// The text under a key, where there is one.
pub open spec fn text_at(properties: Map<String, OwnedValue>, key: Seq<char>) -> Option<Seq<char>> {
    match entry(properties, key) {
        Some(value) => as_text(held(value)),
        None => None,
    }
}

/// The truth value under a key, where there is one.
pub open spec fn flag_at(properties: Map<String, OwnedValue>, key: Seq<char>) -> Option<bool> {
    match entry(properties, key) {
        Some(value) => as_flag(held(value)),
        None => None,
    }
}

/// The texts under a key, where there are such.
pub open spec fn texts_at(properties: Map<String, OwnedValue>, key: Seq<char>) -> Option<
    Seq<Seq<char>>,
> {
    match entry(properties, key) {
        Some(value) => as_texts(held(value)),
        None => None,
    }
}

/// What a property map says of a device.
pub open spec fn properties_in(properties: Map<String, OwnedValue>) -> PropertiesView {
    PropertiesView {
        name: text_at(properties, "Name"@),
        address: text_at(properties, "Address"@),
        paired: flag_at(properties, "Paired"@),
        connected: flag_at(properties, "Connected"@),
        trusted: flag_at(properties, "Trusted"@),
        icon: text_at(properties, "Icon"@),
        uuids: texts_at(properties, "UUIDs"@),
    }
}

/// The text under a key.
fn text_under(properties: &Properties, key: &str) -> (found: Option<String>)
    ensures
        text::opt_text(found) == text_at(properties@, key@),
{
    match lookup(properties, key) {
        Some(value) => read_text(value),
        None => None,
    }
}

/// The truth value under a key.
fn flag_under(properties: &Properties, key: &str) -> (found: Option<bool>)
    ensures
        found == flag_at(properties@, key@),
{
    match lookup(properties, key) {
        Some(value) => read_flag(value),
        None => None,
    }
}

/// The texts under a key.
fn texts_under(properties: &Properties, key: &str) -> (found: Option<Vec<String>>)
    ensures
        opt_texts(found) == texts_at(properties@, key@),
{
    match lookup(properties, key) {
        Some(value) => read_texts(value),
        None => None,
    }
}

/// The device that the interfaces of an object describe: the one of the device interface, where the
/// object has that.
pub open spec fn device_in(interfaces: Map<String, Properties>) -> Option<DeviceView> {
    match entry(interfaces, "org.bluez.Device1"@) {
        Some(properties) => Some(described(properties_in(properties@))),
        None => None,
    }
}

/// Parse a single device from a D-Bus interfaces map (used for both ObjectManager enumeration and
/// InterfacesAdded signals).
pub fn parse_device_from_interfaces(interfaces: &Interfaces) -> (device: Option<DeviceInfo>)
    ensures
        match device {
            Some(d) => device_in(interfaces@) == Some(d@),
            None => device_in(interfaces@) is None,
        },
{
    match lookup(interfaces, "org.bluez.Device1") {
        Some(properties) => Some(
            device_from_properties(
                DeviceProperties {
                    name: text_under(properties, "Name"),
                    address: text_under(properties, "Address"),
                    paired: flag_under(properties, "Paired"),
                    connected: flag_under(properties, "Connected"),
                    trusted: flag_under(properties, "Trusted"),
                    icon: text_under(properties, "Icon"),
                    uuids: texts_under(properties, "UUIDs"),
                },
            ),
        ),
        None => None,
    }
}

/// The characters of an object path.
pub uninterp spec fn path_text(path: OwnedObjectPath) -> Seq<char>;

/// `ObjectPath::as_str`: the characters of the path.
#[verifier::external_body]
fn path_str(path: &OwnedObjectPath) -> (characters: &str)
    ensures
        characters@ == path_text(*path),
{
    path.as_str()
}

/// `walk` meets each entry of `map` once.
pub open spec fn walks(
    walk: Seq<(OwnedObjectPath, Interfaces)>,
    map: Map<OwnedObjectPath, Interfaces>,
) -> bool {
    &&& forall|i: int|
        0 <= i < walk.len() ==> map.contains_key((#[trigger] walk[i]).0) && map[walk[i].0]
            == walk[i].1
    &&& forall|i: int, j: int|
        0 <= i < j < walk.len() ==> (#[trigger] walk[i]).0 != (#[trigger] walk[j]).0
    &&& forall|path: OwnedObjectPath| #[trigger]
        map.contains_key(path) ==> exists|i: int| 0 <= i < walk.len() && walk[i].0 == path
}

/// The entries of a list of references.
pub open spec fn entries_of(list: Seq<(&OwnedObjectPath, &Interfaces)>) -> Seq<
    (OwnedObjectPath, Interfaces),
> {
    list.map_values(|e: (&OwnedObjectPath, &Interfaces)| (*e.0, *e.1))
}

/// `HashMap::iter`, gathered into a list: each entry comes once. In which order they come is not
/// said.
#[verifier::external_body]
fn entries<'a>(objects: &'a HashMap<OwnedObjectPath, Interfaces>) -> (list: Vec<
    (&'a OwnedObjectPath, &'a Interfaces),
>)
    ensures
        walks(entries_of(list@), objects@),
{
    objects.iter().collect()
}

/// An object with this path is one that BlueZ manages.
pub open spec fn managed_path(path: Seq<char>) -> bool {
    text::has_prefix(path, "/org/bluez/"@)
}

/// Whether an object with this path is one that BlueZ manages.
pub fn is_managed_path(path: &str) -> (managed: bool)
    ensures
        managed == managed_path(path@),
{
    let chars = text::chars_of(path);
    text::starts_with(chars.as_slice(), "/org/bluez/")
}

/// The device of an object that BlueZ manages.
pub open spec fn managed_device(object: (OwnedObjectPath, Interfaces)) -> Option<DeviceView> {
    if managed_path(path_text(object.0)) {
        device_in(object.1@)
    } else {
        None
    }
}

/// The devices among objects, in the order of the objects.
pub open spec fn managed_devices(objects: Seq<(OwnedObjectPath, Interfaces)>) -> Seq<DeviceView>
    decreases objects.len(),
{
    if objects.len() == 0 {
        Seq::empty()
    } else {
        let before = managed_devices(objects.drop_last());
        match managed_device(objects.last()) {
            Some(device) => before.push(device),
            None => before,
        }
    }
}

/// The devices among objects that come in a given order, in listing order.
pub fn devices_among(objects: &Vec<(&OwnedObjectPath, &Interfaces)>) -> (devices: Vec<DeviceInfo>)
    ensures
        bluetooth::in_listing_order(
            managed_devices(entries_of(objects@)),
            bluetooth::device_views(devices@),
        ),
{
    let ghost all = entries_of(objects@);
    let mut found: Vec<DeviceInfo> = Vec::new();
    let mut i: usize = 0;
    assert(bluetooth::device_views(found@) =~= managed_devices(all.take(0)));
    while i < objects.len()
        invariant
            i <= objects@.len(),
            all == entries_of(objects@),
            bluetooth::device_views(found@) == managed_devices(all.take(i as int)),
        decreases objects.len() - i,
    {
        let (path, interfaces) = objects[i];
        assert(all.take(i + 1).drop_last() =~= all.take(i as int));
        assert(all.take(i + 1).last() == (*path, *interfaces));
        if is_managed_path(path_str(path)) {
            match parse_device_from_interfaces(interfaces) {
                Some(device) => {
                    let ghost before = found@;
                    let ghost view = device@;
                    found.push(device);
                    assert(bluetooth::device_views(found@) =~= bluetooth::device_views(before).push(
                        view,
                    ));
                },
                None => {},
            }
        }
        i = i + 1;
    }
    assert(all.take(i as int) =~= all);
    bluetooth::sort_devices(found)
}

/// Parse device information from ObjectManager's managed objects.
pub fn parse_devices_from_objects(objects: &HashMap<OwnedObjectPath, Interfaces>) -> (devices: Vec<
    DeviceInfo,
>)
    ensures
        exists|walk: Seq<(OwnedObjectPath, Interfaces)>|
            #![trigger managed_devices(walk)]
            walks(walk, objects@) && bluetooth::in_listing_order(
                managed_devices(walk),
                bluetooth::device_views(devices@),
            ),
{
    let list = entries(objects);
    devices_among(&list)
}

/// What an error of the bus library says about the object that was asked for.
#[derive(Debug, Clone, PartialEq)]
pub enum BusError {
    /// The reply was an error with this name.
    Method(String),
    /// The standard error for an unknown object.
    UnknownObject,
    /// The standard error for an unknown service.
    ServiceUnknown,
    /// The standard error for an unknown interface.
    UnknownInterface,
    /// Another standard error.
    OtherStandard,
    /// The interface could not be found.
    InterfaceNotFound,
    /// An error whose message holds one of the operating system, with that message.
    Machine(String),
    /// Any other error, with its message.
    Other(String),
}

/// The model of a [`BusError`]; a message of the operating system is not part of it.
pub enum BusErrorView {
    Method(Seq<char>),
    UnknownObject,
    ServiceUnknown,
    UnknownInterface,
    OtherStandard,
    InterfaceNotFound,
    Machine,
    Other(Seq<char>),
}

impl View for BusError {
    type V = BusErrorView;

    open spec fn view(&self) -> BusErrorView {
        match *self {
            BusError::Method(name) => BusErrorView::Method(name@),
            BusError::UnknownObject => BusErrorView::UnknownObject,
            BusError::ServiceUnknown => BusErrorView::ServiceUnknown,
            BusError::UnknownInterface => BusErrorView::UnknownInterface,
            BusError::OtherStandard => BusErrorView::OtherStandard,
            BusError::InterfaceNotFound => BusErrorView::InterfaceNotFound,
            BusError::Machine(_) => BusErrorView::Machine,
            BusError::Other(message) => BusErrorView::Other(message@),
        }
    }
}

/// Which kind of error an error of the bus library is, the name in an error reply, and the message of
/// an error that is neither a reply nor a standard error, unless that holds one of the operating
/// system.
pub uninterp spec fn error_kind(error: zbus::Error) -> BusErrorView;

/// The variants of `zbus::Error` and, for the standard errors, of `zbus::fdo::Error`; an error of
/// another kind is kept as the message of its `Display`, which the error alone fixes. The exceptions
/// are the four variants that hold an `std::io::Error`: its message is the machine's, so nothing is
/// said of theirs.
#[verifier::external_body]
fn classify(error: &zbus::Error) -> (kind: BusError)
    ensures
        kind@ == error_kind(*error),
{
    match error {
        zbus::Error::MethodError(name, _, _) => BusError::Method(name.as_str().to_string()),
        zbus::Error::FDO(standard) => match standard.as_ref() {
            zbus::fdo::Error::UnknownObject(_) => BusError::UnknownObject,
            zbus::fdo::Error::ServiceUnknown(_) => BusError::ServiceUnknown,
            zbus::fdo::Error::UnknownInterface(_) => BusError::UnknownInterface,
            _ => BusError::OtherStandard,
        },
        zbus::Error::InterfaceNotFound => BusError::InterfaceNotFound,
        zbus::Error::InputOutput(_) | zbus::Error::Connection(_, _)
        | zbus::Error::Variant(zbus::zvariant::Error::InputOutput(_))
        | zbus::Error::Names(zbus::names::Error::Variant(zbus::zvariant::Error::InputOutput(_)))
            => BusError::Machine(error.to_string()),
        other => BusError::Other(other.to_string()),
    }
}

/// Whether an error of this kind says that the adapter object does not exist; `None` where only a
/// message of the operating system can tell.
pub open spec fn missing_by_kind(kind: BusErrorView) -> Option<bool> {
    match kind {
        BusErrorView::Method(name) => Some(
            name == "org.freedesktop.DBus.Error.UnknownObject"@ || name
                == "org.freedesktop.DBus.Error.ServiceUnknown"@,
        ),
        BusErrorView::UnknownObject => Some(true),
        BusErrorView::ServiceUnknown => Some(true),
        BusErrorView::UnknownInterface => Some(true),
        BusErrorView::OtherStandard => Some(false),
        BusErrorView::InterfaceNotFound => Some(true),
        BusErrorView::Machine => None,
        BusErrorView::Other(message) => Some(missing_by_message(message)),
    }
}

/// The message of an error names one of the known D-Bus errors.
pub open spec fn missing_by_message(message: Seq<char>) -> bool {
    text::has_text(message, "UnknownObject"@) || text::has_text(message, "ServiceUnknown"@)
}

/// Whether an error says that the adapter object does not exist.
pub fn says_adapter_missing(error: &BusError) -> (missing: bool)
    ensures
        match *error {
            BusError::Machine(message) => missing == missing_by_message(message@),
            _ => missing_by_kind(error@) == Some(missing),
        },
{
    match error {
        BusError::Method(name) => {
            *name == "org.freedesktop.DBus.Error.UnknownObject".to_string() || *name
                == "org.freedesktop.DBus.Error.ServiceUnknown".to_string()
        },
        BusError::UnknownObject => true,
        BusError::ServiceUnknown => true,
        BusError::UnknownInterface => true,
        BusError::OtherStandard => false,
        BusError::InterfaceNotFound => true,
        BusError::Machine(message) => names_missing(message.as_str()),
        BusError::Other(message) => names_missing(message.as_str()),
    }
}

/// Whether a message names one of the known D-Bus errors.
fn names_missing(message: &str) -> (missing: bool)
    ensures
        missing == missing_by_message(message@),
{
    let chars = text::chars_of(message);
    text::contains(chars.as_slice(), "UnknownObject") || text::contains(
        chars.as_slice(),
        "ServiceUnknown",
    )
}

/// Returns true if the error indicates the adapter D-Bus object does not exist. For an error that
/// holds one of the operating system the message of that decides, which no clause speaks of.
pub fn is_adapter_missing(error: &zbus::Error) -> (missing: bool)
    ensures
        missing_by_kind(error_kind(*error)) matches Some(known) ==> missing == known,
{
    let kind = classify(error);
    says_adapter_missing(&kind)
}

/// The answer to asking for the adapter, where `missing` says whether an error means that it does not
/// exist.
pub open spec fn adapter_answered(
    asked: Result<AdapterInfo, zbus::Error>,
    missing: bool,
) -> Result<Option<AdapterInfo>, zbus::Error> {
    match asked {
        Ok(info) => Ok(Some(info)),
        Err(error) => if missing {
            Ok(None)
        } else {
            Err(error)
        },
    }
}

/// The answer to asking for the adapter, where `missing` says whether an error means that it does not
/// exist.
pub fn adapter_answer(asked: Result<AdapterInfo, zbus::Error>, missing: bool) -> (answer: Result<
    Option<AdapterInfo>,
    zbus::Error,
>)
    ensures
        answer == adapter_answered(asked, missing),
{
    match asked {
        Ok(info) => Ok(Some(info)),
        Err(error) => if missing {
            Ok(None)
        } else {
            Err(error)
        },
    }
}

/// Turn the outcome of asking for the adapter into `None` if the adapter D-Bus object does not exist
/// (e.g. adapter hardware is off).
pub fn try_get_adapter_info(asked: Result<AdapterInfo, zbus::Error>) -> (answer: Result<
    Option<AdapterInfo>,
    zbus::Error,
>)
    ensures
        match asked {
            Ok(_) => answer == adapter_answered(asked, false),
            Err(error) => match missing_by_kind(error_kind(error)) {
                Some(missing) => answer == adapter_answered(asked, missing),
                None => answer == adapter_answered(asked, true) || answer == adapter_answered(
                    asked,
                    false,
                ),
            },
        },
{
    let missing = match &asked {
        Ok(_) => false,
        Err(error) => is_adapter_missing(error),
    };
    adapter_answer(asked, missing)
}

} // verus!

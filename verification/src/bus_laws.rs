//! What is made of the answers of the bus, stated of the calls themselves.
use std::collections::HashMap;

use vstd::prelude::*;
use zbus::zvariant::{OwnedObjectPath, OwnedValue};

use crate::bluetooth;
use crate::bluetooth::{AdapterInfo, DeviceInfo, DeviceView};
use crate::bus;
use crate::bus::{BusError, BusErrorView, DeviceProperties, Held, Interfaces, Properties};
use crate::listing_laws;
use crate::process::CommandOutput;
use crate::states;
use crate::text;

verus! {

// ---------------------------------------------------------------------------------------------
// One device
// ---------------------------------------------------------------------------------------------

/// Each property alone decides its field, whatever the others say: a flag that is absent is down, an
/// absent name or icon stays absent, an absent address is empty, and absent services are none.
pub proof fn law_each_property_decides_its_field(properties: DeviceProperties, device: DeviceInfo)
    requires
        call_ensures(bus::device_from_properties, (properties,), device),
    ensures
        device.paired == (properties.paired == Some(true)),
        device.connected == (properties.connected == Some(true)),
        device.trusted == (properties.trusted == Some(true)),
        states::same_text(device.name, properties.name),
        states::same_text(device.icon, properties.icon),
        properties.address matches Some(address) ==> device.address@ == address@,
        properties.address is None ==> device.address@.len() == 0,
        properties.uuids matches Some(uuids) ==> states::same_texts(device.uuids@, uuids@),
        properties.uuids is None ==> device.uuids@.len() == 0,
{
    if let Some(uuids) = properties.uuids {
        lemma_same_texts(device.uuids@, uuids@);
    } else {
        assert(text::texts(device.uuids@).len() == device.uuids@.len());
    }
}

/// Lists with the same characters hold the same texts.
proof fn lemma_same_texts(a: Seq<String>, b: Seq<String>)
    requires
        text::texts(a) == text::texts(b),
    ensures
        states::same_texts(a, b),
{
    assert(text::texts(a).len() == a.len());
    assert(text::texts(b).len() == b.len());
    assert forall|i: int| 0 <= i < a.len() implies (#[trigger] a[i])@ == (#[trigger] b[i])@ by {
        assert(text::texts(a)[i] == a[i]@);
        assert(text::texts(b)[i] == b[i]@);
    }
}

/// The map has a value under the key, and it is this one.
pub open spec fn maps_to<V>(map: Map<String, V>, key: Seq<char>, value: V) -> bool {
    &&& exists|k: String| #[trigger] map.contains_key(k) && k@ == key
    &&& forall|k: String| #[trigger] map.contains_key(k) && k@ == key ==> map[k] == value
}

/// The map has no value under the key.
pub open spec fn lacks<V>(map: Map<String, V>, key: Seq<char>) -> bool {
    forall|k: String| #[trigger] map.contains_key(k) ==> k@ != key
}

/// The value under a key is the one that is found there.
proof fn lemma_maps_to<V>(map: Map<String, V>, key: Seq<char>, value: V)
    requires
        maps_to(map, key, value),
    ensures
        bus::entry(map, key) == Some(value),
{
    let some = choose|k: String| #[trigger] map.contains_key(k) && k@ == key;
    assert(map.contains_key(some) && some@ == key);
    let chosen = choose|k: String| map.contains_key(k) && k@ == key;
    assert(map.contains_key(chosen) && chosen@ == key);
}

/// An object describes a device if and only if it has the device interface.
pub proof fn law_devices_have_the_interface(interfaces: &Interfaces, device: Option<DeviceInfo>)
    requires
        call_ensures(bus::parse_device_from_interfaces, (interfaces,), device),
    ensures
        lacks(interfaces@, "org.bluez.Device1"@) <==> device is None,
{
    if exists|k: String| interfaces@.contains_key(k) && k@ == "org.bluez.Device1"@ {
        let k = choose|k: String| interfaces@.contains_key(k) && k@ == "org.bluez.Device1"@;
        assert(interfaces@.contains_key(k));
    }
}

/// A flag of the device interface that holds a truth value is that of the device, whatever the other
/// properties say; one that is absent or holds anything else is down.
pub proof fn law_flags_are_read(
    interfaces: &Interfaces,
    properties: Properties,
    device: Option<DeviceInfo>,
    value: OwnedValue,
)
    requires
        call_ensures(bus::parse_device_from_interfaces, (interfaces,), device),
        maps_to(interfaces@, "org.bluez.Device1"@, properties),
    ensures
        device matches Some(d) && {
            &&& maps_to(properties@, "Paired"@, value) ==> d.paired == (bus::held(value)
                == Held::Flag(true))
            &&& lacks(properties@, "Paired"@) ==> !d.paired
            &&& maps_to(properties@, "Connected"@, value) ==> d.connected == (bus::held(value)
                == Held::Flag(true))
            &&& lacks(properties@, "Connected"@) ==> !d.connected
            &&& maps_to(properties@, "Trusted"@, value) ==> d.trusted == (bus::held(value)
                == Held::Flag(true))
            &&& lacks(properties@, "Trusted"@) ==> !d.trusted
        },
{
    lemma_maps_to(interfaces@, "org.bluez.Device1"@, properties);
    if maps_to(properties@, "Paired"@, value) {
        lemma_maps_to(properties@, "Paired"@, value);
    }
    if maps_to(properties@, "Connected"@, value) {
        lemma_maps_to(properties@, "Connected"@, value);
    }
    if maps_to(properties@, "Trusted"@, value) {
        lemma_maps_to(properties@, "Trusted"@, value);
    }
}

/// A text of the device interface is that of the device, whatever the other properties say: the name,
/// the address and the icon. One that is absent or is no text leaves the field empty.
pub proof fn law_texts_are_read(
    interfaces: &Interfaces,
    properties: Properties,
    device: Option<DeviceInfo>,
    value: OwnedValue,
)
    requires
        call_ensures(bus::parse_device_from_interfaces, (interfaces,), device),
        maps_to(interfaces@, "org.bluez.Device1"@, properties),
    ensures
        device matches Some(d) && {
            &&& maps_to(properties@, "Name"@, value) ==> match bus::held(value) {
                Held::Text(content) => d.name matches Some(name) && name@ == content,
                _ => d.name is None,
            }
            &&& lacks(properties@, "Name"@) ==> d.name is None
            &&& maps_to(properties@, "Icon"@, value) ==> match bus::held(value) {
                Held::Text(content) => d.icon matches Some(icon) && icon@ == content,
                _ => d.icon is None,
            }
            &&& lacks(properties@, "Icon"@) ==> d.icon is None
            &&& maps_to(properties@, "Address"@, value) ==> match bus::held(value) {
                Held::Text(content) => d.address@ == content,
                _ => d.address@.len() == 0,
            }
            &&& lacks(properties@, "Address"@) ==> d.address@.len() == 0
        },
{
    lemma_maps_to(interfaces@, "org.bluez.Device1"@, properties);
    if maps_to(properties@, "Name"@, value) {
        lemma_maps_to(properties@, "Name"@, value);
    }
    if maps_to(properties@, "Icon"@, value) {
        lemma_maps_to(properties@, "Icon"@, value);
    }
    if maps_to(properties@, "Address"@, value) {
        lemma_maps_to(properties@, "Address"@, value);
    }
}

/// The services of the device interface are those of the device, in their order, whatever the other
/// properties say; where they are absent or are no texts it has none.
pub proof fn law_services_are_read(
    interfaces: &Interfaces,
    properties: Properties,
    device: Option<DeviceInfo>,
    value: OwnedValue,
)
    requires
        call_ensures(bus::parse_device_from_interfaces, (interfaces,), device),
        maps_to(interfaces@, "org.bluez.Device1"@, properties),
    ensures
        device matches Some(d) && {
            &&& maps_to(properties@, "UUIDs"@, value) ==> match bus::held(value) {
                Held::Texts(list) => d.uuids@.len() == list.len() && forall|i: int|
                    0 <= i < list.len() ==> (#[trigger] d.uuids@[i])@ == list[i],
                _ => d.uuids@.len() == 0,
            }
            &&& lacks(properties@, "UUIDs"@) ==> d.uuids@.len() == 0
        },
{
    lemma_maps_to(interfaces@, "org.bluez.Device1"@, properties);
    let d = device->0;
    assert(text::texts(d.uuids@).len() == d.uuids@.len());
    assert forall|i: int| 0 <= i < d.uuids@.len() implies (#[trigger] d.uuids@[i])@ == text::texts(
        d.uuids@,
    )[i] by {}
    if maps_to(properties@, "UUIDs"@, value) {
        lemma_maps_to(properties@, "UUIDs"@, value);
    }
}

/// A device is shown under its name, or else under its address.
pub proof fn law_display_name(device: &DeviceInfo, name: &str)
    requires
        call_ensures(DeviceInfo::display_name, (device,), name),
    ensures
        device.name matches Some(own) ==> name@ == own@,
        device.name is None ==> name@ == device.address@,
{
}

// ---------------------------------------------------------------------------------------------
// Lists of devices
// ---------------------------------------------------------------------------------------------

/// `a` comes before `b` in a dictionary, or is `b`: where they differ first `a` has the lower
/// character, or it ends.
pub open spec fn in_dictionary_order(a: Seq<char>, b: Seq<char>) -> bool {
    exists|common: int| #[trigger] same_up_to(a, b, common) && (common == a.len() || (common < b.len()
        && a[common] < b[common]))
}

/// The texts have the same first `n` characters.
pub open spec fn same_up_to(a: Seq<char>, b: Seq<char>, n: int) -> bool {
    0 <= n <= a.len() && n <= b.len() && forall|i: int| 0 <= i < n ==> #[trigger] a[i] == b[i]
}

/// The order of the dictionary is that of the first difference.
proof fn lemma_dictionary_order(a: Seq<char>, b: Seq<char>)
    requires
        text::lexical_le(a, b),
    ensures
        in_dictionary_order(a, b),
    decreases a.len(),
{
    if a.len() == 0 || a[0] != b[0] {
        assert(same_up_to(a, b, 0));
    } else {
        let (x, y) = (a.drop_first(), b.drop_first());
        lemma_dictionary_order(x, y);
        let n = choose|n: int| #[trigger] same_up_to(x, y, n) && (n == x.len() || (n < y.len() && x[n]
            < y[n]));
        assert forall|i: int| 0 <= i < n + 1 implies #[trigger] a[i] == b[i] by {
            if i > 0 {
                assert(x[i - 1] == y[i - 1]);
            }
        }
        assert(same_up_to(a, b, n + 1));
        if n < x.len() {
            assert(x[n] == a[n + 1] && y[n] == b[n + 1]);
        }
    }
}

/// `first` may be listed before `second`: connected devices come first, then paired ones, then the
/// names in lower case decide.
pub open spec fn may_come_first(first: DeviceInfo, second: DeviceInfo) -> bool {
    &&& second.connected ==> first.connected
    &&& first.connected == second.connected && second.paired ==> first.paired
    &&& first.connected == second.connected && first.paired == second.paired ==> in_dictionary_order(
        text::lowercased(states::shown_name(first)),
        text::lowercased(states::shown_name(second)),
    )
}

/// `source` says where each device of `sorted` stood in `devices`.
pub open spec fn rearranged(
    devices: Seq<DeviceInfo>,
    sorted: Seq<DeviceInfo>,
    source: Seq<int>,
) -> bool {
    &&& devices.len() == sorted.len() == source.len()
    &&& source.no_duplicates()
    &&& forall|i: int|
        0 <= i < source.len() ==> 0 <= #[trigger] source[i] < devices.len() && states::same_device(
            sorted[i],
            devices[source[i]],
        )
}

/// Devices in listing order may come in that order.
proof fn lemma_listed(input: Seq<DeviceView>, sorted: Seq<DeviceInfo>, i: int, j: int)
    requires
        bluetooth::in_listing_order(input, bluetooth::device_views(sorted)),
        0 <= i < j < sorted.len(),
    ensures
        may_come_first(sorted[i], sorted[j]),
{
    let views = bluetooth::device_views(sorted);
    assert(views[i] == sorted[i]@);
    assert(views[j] == sorted[j]@);
    listing_laws::law_listing_order(input, views, i, j);
    if sorted[i].connected == sorted[j].connected && sorted[i].paired == sorted[j].paired {
        lemma_dictionary_order(
            text::lowercased(states::shown_name(sorted[i])),
            text::lowercased(states::shown_name(sorted[j])),
        );
    }
}

/// Sorting loses no device, invents none and changes none, and of any two the first may come first.
#[verifier::rlimit(40)]
pub proof fn law_sorting(devices: Vec<DeviceInfo>, sorted: Vec<DeviceInfo>)
    requires
        call_ensures(bluetooth::sort_devices, (devices,), sorted),
    ensures
        exists|source: Seq<int>| rearranged(devices@, sorted@, source),
        forall|i: int, j: int|
            0 <= i < j < sorted@.len() ==> may_come_first(
                #[trigger] sorted@[i],
                #[trigger] sorted@[j],
            ),
{
    let input = bluetooth::device_views(devices@);
    let output = bluetooth::device_views(sorted@);
    let source = choose|source: Seq<int>| bluetooth::arranged(input, output, source);
    assert(bluetooth::arranged(input, output, source));
    assert(input.len() == devices@.len() && output.len() == sorted@.len());
    assert forall|i: int| 0 <= i < source.len() implies 0 <= #[trigger] source[i] < devices@.len()
        && states::same_device(sorted@[i], devices@[source[i]]) by {
        assert(output[i] == sorted@[i]@);
        assert(input[source[i]] == devices@[source[i]]@);
        states::lemma_same_device(sorted@[i], devices@[source[i]]);
    }
    assert(rearranged(devices@, sorted@, source));
    assert forall|i: int, j: int| 0 <= i < j < sorted@.len() implies may_come_first(
        #[trigger] sorted@[i],
        #[trigger] sorted@[j],
    ) by {
        lemma_listed(input, sorted@, i, j);
    }
}

/// The object at this path is a device that BlueZ manages.
pub open spec fn is_device_object(
    objects: Map<OwnedObjectPath, Interfaces>,
    path: OwnedObjectPath,
) -> bool {
    &&& objects.contains_key(path)
    &&& path_begins(bus::path_text(path))
    &&& !lacks(objects[path]@, "org.bluez.Device1"@)
}

/// Some object that BlueZ manages describes this device.
pub open spec fn stems_from_an_object(
    objects: Map<OwnedObjectPath, Interfaces>,
    device: DeviceInfo,
) -> bool {
    exists|path: OwnedObjectPath| #[trigger]
        is_device_object(objects, path) && bus::device_in(objects[path]@) == Some(device@)
}

/// The path begins with that of BlueZ.
pub open spec fn path_begins(path: Seq<char>) -> bool {
    path.len() >= 11 && forall|i: int| 0 <= i < 11 ==> #[trigger] path[i] == "/org/bluez/"@[i]
}

/// The path of an object that BlueZ manages.
proof fn lemma_path_begins(path: Seq<char>)
    ensures
        path_begins(path) == bus::managed_path(path),
{
    reveal_strlit("/org/bluez/");
    if path_begins(path) {
        assert(path.subrange(0, 11) =~= "/org/bluez/"@);
    }
    if bus::managed_path(path) {
        assert forall|i: int| 0 <= i < 11 implies #[trigger] path[i] == "/org/bluez/"@[i] by {
            assert(path.subrange(0, 11)[i] == path[i]);
        }
    }
}

/// The devices of an object are those of the calls on it.
proof fn lemma_device_object(interfaces: Interfaces)
    ensures
        lacks(interfaces@, "org.bluez.Device1"@) <==> bus::device_in(interfaces@) is None,
{
    if exists|k: String| interfaces@.contains_key(k) && k@ == "org.bluez.Device1"@ {
        let k = choose|k: String| interfaces@.contains_key(k) && k@ == "org.bluez.Device1"@;
        assert(interfaces@.contains_key(k));
    }
}

/// A managed device of a walk is among those of the walk.
proof fn lemma_managed_member(walk: Seq<(OwnedObjectPath, Interfaces)>, i: int)
    requires
        0 <= i < walk.len(),
        bus::managed_device(walk[i]) is Some,
    ensures
        bus::managed_devices(walk).contains(bus::managed_device(walk[i])->0),
    decreases walk.len(),
{
    let device = bus::managed_device(walk[i])->0;
    let before = bus::managed_devices(walk.drop_last());
    if i == walk.len() - 1 {
        assert(bus::managed_devices(walk) == before.push(device));
        assert(before.push(device)[before.len() as int] == device);
    } else {
        lemma_managed_member(walk.drop_last(), i);
        let at = choose|at: int| 0 <= at < before.len() && before[at] == device;
        assert(bus::managed_devices(walk)[at] == device);
    }
}

/// A device of a walk stems from an object of the walk.
proof fn lemma_managed_origin(walk: Seq<(OwnedObjectPath, Interfaces)>, at: int) -> (i: int)
    requires
        0 <= at < bus::managed_devices(walk).len(),
    ensures
        0 <= i < walk.len(),
        bus::managed_device(walk[i]) == Some(bus::managed_devices(walk)[at]),
    decreases walk.len(),
{
    let before = bus::managed_devices(walk.drop_last());
    if at < before.len() {
        let i = lemma_managed_origin(walk.drop_last(), at);
        assert(walk.drop_last()[i] == walk[i]);
        i
    } else {
        walk.len() - 1
    }
}

/// The devices that are listed are those of the objects that BlueZ manages: each of those objects has
/// its device on the list, each device of the list stems from one, and of any two the first may come
/// first.
#[verifier::rlimit(40)]
pub proof fn law_known_devices_are_listed(
    objects: &HashMap<OwnedObjectPath, Interfaces>,
    devices: Vec<DeviceInfo>,
)
    requires
        call_ensures(bus::parse_devices_from_objects, (objects,), devices),
    ensures
        forall|path: OwnedObjectPath, parsed: DeviceInfo|
            is_device_object(objects@, path) && #[trigger] call_ensures(
                bus::parse_device_from_interfaces,
                (&objects@[path],),
                Some(parsed),
            ) ==> exists|i: int|
                0 <= i < devices@.len() && states::same_device(#[trigger] devices@[i], parsed),
        forall|i: int|
            0 <= i < devices@.len() ==> stems_from_an_object(objects@, #[trigger] devices@[i]),
        forall|i: int, j: int|
            0 <= i < j < devices@.len() ==> may_come_first(
                #[trigger] devices@[i],
                #[trigger] devices@[j],
            ),
{
    let output = bluetooth::device_views(devices@);
    let walk = choose|walk: Seq<(OwnedObjectPath, Interfaces)>|
        #![trigger bus::managed_devices(walk)]
        bus::walks(walk, objects@) && bluetooth::in_listing_order(
            bus::managed_devices(walk),
            bluetooth::device_views(devices@),
        );
    let input = bus::managed_devices(walk);
    assert(bus::walks(walk, objects@) && bluetooth::in_listing_order(input, output));
    assert(output.len() == devices@.len());
    assert forall|i: int, j: int| 0 <= i < j < devices@.len() implies may_come_first(
        #[trigger] devices@[i],
        #[trigger] devices@[j],
    ) by {
        lemma_listed(input, devices@, i, j);
    }
    let source = choose|source: Seq<int>| bluetooth::arranged(input, output, source);
    assert(bluetooth::arranged(input, output, source));
    assert forall|i: int| 0 <= i < devices@.len() implies stems_from_an_object(
        objects@,
        #[trigger] devices@[i],
    ) by {
        assert(output[i] == devices@[i]@);
        assert(0 <= source[i] < input.len() && output[i] == input[source[i]]);
        let at = lemma_managed_origin(walk, source[i]);
        let path = walk[at].0;
        lemma_path_begins(bus::path_text(path));
        lemma_device_object(walk[at].1);
        assert(is_device_object(objects@, path));
    }
    assert forall|path: OwnedObjectPath, parsed: DeviceInfo|
        is_device_object(objects@, path) && #[trigger] call_ensures(
            bus::parse_device_from_interfaces,
            (&objects@[path],),
            Some(parsed),
        ) implies exists|i: int|
        0 <= i < devices@.len() && states::same_device(#[trigger] devices@[i], parsed) by {
        lemma_path_begins(bus::path_text(path));
        let at = choose|at: int| 0 <= at < walk.len() && walk[at].0 == path;
        assert(walk[at].1 == objects@[path]);
        assert(bus::managed_device(walk[at]) == Some(parsed@));
        lemma_managed_member(walk, at);
        listing_laws::law_listing_keeps_devices(input, output);
        assert(input.to_multiset().count(parsed@) > 0) by {
            broadcast use vstd::seq_lib::group_to_multiset_ensures;

            assert(input.contains(parsed@));
        }
        assert(output.contains(parsed@)) by {
            broadcast use vstd::seq_lib::group_to_multiset_ensures;

        }
        let i = choose|i: int| 0 <= i < output.len() && output[i] == parsed@;
        assert(output[i] == devices@[i]@);
        states::lemma_same_device(devices@[i], parsed);
    }
}

/// How many of the objects are devices that BlueZ manages.
pub open spec fn device_objects(objects: Seq<(&OwnedObjectPath, &Interfaces)>) -> nat
    decreases objects.len(),
{
    if objects.len() == 0 {
        0
    } else {
        let (path, interfaces) = objects.last();
        device_objects(objects.drop_last()) + if path_begins(bus::path_text(*path)) && !lacks(
            interfaces@,
            "org.bluez.Device1"@,
        ) {
            1nat
        } else {
            0nat
        }
    }
}

/// Each object that is a device gives one.
proof fn lemma_device_objects(objects: Seq<(&OwnedObjectPath, &Interfaces)>)
    ensures
        bus::managed_devices(bus::entries_of(objects)).len() == device_objects(objects),
    decreases objects.len(),
{
    let all = bus::entries_of(objects);
    if objects.len() > 0 {
        lemma_device_objects(objects.drop_last());
        assert(all.drop_last() =~= bus::entries_of(objects.drop_last()));
        let (path, interfaces) = objects.last();
        assert(all.last() == (*path, *interfaces));
        lemma_path_begins(bus::path_text(*path));
        lemma_device_object(*interfaces);
    }
}

/// The list has as many devices as there are objects that are devices.
pub proof fn law_devices_are_counted(
    objects: &Vec<(&OwnedObjectPath, &Interfaces)>,
    devices: Vec<DeviceInfo>,
)
    requires
        call_ensures(bus::devices_among, (objects,), devices),
    ensures
        devices@.len() == device_objects(objects@),
{
    lemma_device_objects(objects@);
    let input = bus::managed_devices(bus::entries_of(objects@));
    let output = bluetooth::device_views(devices@);
    let source = choose|source: Seq<int>| bluetooth::arranged(input, output, source);
    assert(bluetooth::arranged(input, output, source));
    assert(output.len() == devices@.len());
}

// ---------------------------------------------------------------------------------------------
// Paths, arguments and errors
// ---------------------------------------------------------------------------------------------

/// `result` is `prefix` followed by the address with `_` for each `:`.
pub open spec fn prefixed_address(
    result: Seq<char>,
    prefix: Seq<char>,
    address: Seq<char>,
) -> bool {
    &&& result.len() == prefix.len() + address.len()
    &&& forall|i: int| 0 <= i < prefix.len() ==> #[trigger] result[i] == prefix[i]
    &&& forall|i: int|
        0 <= i < address.len() ==> #[trigger] result[prefix.len() + i] == if address[i] == ':' {
            '_'
        } else {
            address[i]
        }
}

/// The object of a device is asked for at the path that BlueZ gives it.
pub proof fn law_object_path(address: &str, path: String)
    requires
        call_ensures(bluetooth::device_object_path, (address,), path),
    ensures
        prefixed_address(path@, "/org/bluez/hci0/dev_"@, address@),
{
}

/// The adapter is unblocked by `rfkill unblock bluetooth`, which succeeds if the command does.
pub proof fn law_unblocking(
    arguments: Vec<String>,
    output: Result<CommandOutput, String>,
    result: Result<(), String>,
)
    requires
        call_ensures(bluetooth::rfkill_arguments, (), arguments),
        call_ensures(bluetooth::rfkill_unblock_bluetooth, (output,), result),
    ensures
        arguments@.len() == 2 && arguments@[0]@ == "unblock"@ && arguments@[1]@ == "bluetooth"@,
        result is Ok <==> (output matches Ok(done) && done.success),
        output matches Err(error) ==> (result matches Err(message) && message@
            == "Failed to run rfkill: "@ + error@),
{
    assert(text::texts(arguments@).len() == arguments@.len());
    assert(text::texts(arguments@)[0] == arguments@[0]@);
    assert(text::texts(arguments@)[1] == arguments@[1]@);
}

/// A message speaks of a missing object or service.
pub open spec fn speaks_of_missing(message: Seq<char>) -> bool {
    ||| exists|at: int|
        0 <= at <= message.len() - 13 && #[trigger] message.subrange(at, at + 13)
            == "UnknownObject"@
    ||| exists|at: int|
        0 <= at <= message.len() - 14 && #[trigger] message.subrange(at, at + 14)
            == "ServiceUnknown"@
}

/// The adapter counts as missing on the two replies that say that its object or its service is
/// unknown, on the standard errors for an unknown object, service or interface, on an interface that
/// was not found, and on a message that speaks of one of the first two; and on nothing else.
pub proof fn law_missing_adapter(error: &BusError, missing: bool)
    requires
        call_ensures(bus::says_adapter_missing, (error,), missing),
    ensures
        missing == match *error {
            BusError::Method(name) => name@ == "org.freedesktop.DBus.Error.UnknownObject"@ || name@
                == "org.freedesktop.DBus.Error.ServiceUnknown"@,
            BusError::UnknownObject => true,
            BusError::ServiceUnknown => true,
            BusError::UnknownInterface => true,
            BusError::OtherStandard => false,
            BusError::InterfaceNotFound => true,
            BusError::Machine(message) => speaks_of_missing(message@),
            BusError::Other(message) => speaks_of_missing(message@),
        },
{
    match *error {
        BusError::Machine(message) => lemma_speaks(message@),
        BusError::Other(message) => lemma_speaks(message@),
        _ => {},
    }
}

/// What a message speaks of is what is looked for in it.
proof fn lemma_speaks(message: Seq<char>)
    ensures
        speaks_of_missing(message) == bus::missing_by_message(message),
{
    reveal_strlit("UnknownObject");
    reveal_strlit("ServiceUnknown");
    if exists|at: int|
        0 <= at <= message.len() - 13 && #[trigger] message.subrange(at, at + 13)
            == "UnknownObject"@ {
        let at = choose|at: int|
            0 <= at <= message.len() - 13 && #[trigger] message.subrange(at, at + 13)
                == "UnknownObject"@;
        assert(text::occurs_at(message, "UnknownObject"@, at));
    }
    if exists|at: int|
        0 <= at <= message.len() - 14 && #[trigger] message.subrange(at, at + 14)
            == "ServiceUnknown"@ {
        let at = choose|at: int|
            0 <= at <= message.len() - 14 && #[trigger] message.subrange(at, at + 14)
                == "ServiceUnknown"@;
        assert(text::occurs_at(message, "ServiceUnknown"@, at));
    }
    if text::has_text(message, "UnknownObject"@) {
        let at = choose|at: int| text::occurs_at(message, "UnknownObject"@, at);
        assert(message.subrange(at, at + 13) == "UnknownObject"@);
    }
    if text::has_text(message, "ServiceUnknown"@) {
        let at = choose|at: int| text::occurs_at(message, "ServiceUnknown"@, at);
        assert(message.subrange(at, at + 14) == "ServiceUnknown"@);
    }
}

/// An error of this kind means that the adapter is missing, as far as the kind decides that: a message
/// of the operating system is left open.
pub open spec fn means_missing(kind: BusErrorView) -> Option<bool> {
    match kind {
        BusErrorView::Method(name) => Some(
            name == "org.freedesktop.DBus.Error.UnknownObject"@ || name
                == "org.freedesktop.DBus.Error.ServiceUnknown"@,
        ),
        BusErrorView::UnknownObject => Some(true),
        BusErrorView::ServiceUnknown => Some(true),
        BusErrorView::UnknownInterface => Some(true),
        BusErrorView::OtherStandard => Some(false),
        BusErrorView::InterfaceNotFound => Some(true),
        BusErrorView::Machine => None,
        BusErrorView::Other(message) => Some(speaks_of_missing(message)),
    }
}

/// An error of the bus library is judged by its kind; asked for the adapter, it is answered with
/// `None` where it means that there is none, and with itself otherwise.
pub proof fn law_errors_are_judged(
    error: zbus::Error,
    missing: bool,
    answer: Result<Option<AdapterInfo>, zbus::Error>,
)
    requires
        call_ensures(bus::is_adapter_missing, (&error,), missing),
        call_ensures(bus::try_get_adapter_info, (Err::<AdapterInfo, zbus::Error>(error),), answer),
    ensures
        means_missing(bus::error_kind(error)) matches Some(known) ==> missing == known,
        means_missing(bus::error_kind(error)) == Some(true) ==> answer matches Ok(None),
        means_missing(bus::error_kind(error)) == Some(false) ==> answer == Err::<
            Option<AdapterInfo>,
            zbus::Error,
        >(error),
        (answer matches Ok(None)) || answer == Err::<Option<AdapterInfo>, zbus::Error>(error),
{
    if let BusErrorView::Other(message) = bus::error_kind(error) {
        lemma_speaks(message);
    }
}

/// An adapter that answers is passed on as it is; an error means that there is none where it counts
/// as missing, and is passed on otherwise.
pub proof fn law_adapter_answer(
    asked: Result<AdapterInfo, zbus::Error>,
    missing: bool,
    answer: Result<Option<AdapterInfo>, zbus::Error>,
)
    requires
        call_ensures(bus::adapter_answer, (asked, missing), answer),
    ensures
        match asked {
            Ok(info) => answer matches Ok(Some(given)) && states::same_adapter(info, given),
            Err(error) => if missing {
                answer matches Ok(None)
            } else {
                answer == Err::<Option<AdapterInfo>, zbus::Error>(error)
            },
        },
{
}

/// Asking for the adapter gives it where it answers, and never `None` in its place.
pub proof fn law_answering_adapter(
    info: AdapterInfo,
    answer: Result<Option<AdapterInfo>, zbus::Error>,
)
    requires
        call_ensures(bus::try_get_adapter_info, (Ok::<AdapterInfo, zbus::Error>(info),), answer),
    ensures
        answer matches Ok(Some(given)) && states::same_adapter(info, given),
{
}

} // verus!

//! Adapters and devices, as BlueZ describes them, and the order in which devices are listed.
use vstd::prelude::*;

use crate::process;
use crate::process::CommandOutput;
use crate::text;

verus! {

/// Information about a BlueZ adapter.
#[derive(Debug, Clone)]
pub struct AdapterInfo {
    pub name: String,
    pub address: String,
    pub powered: bool,
}

/// The model of an [`AdapterInfo`].
#[verifier::ext_equal]
pub struct AdapterView {
    pub name: Seq<char>,
    pub address: Seq<char>,
    pub powered: bool,
}

impl View for AdapterInfo {
    type V = AdapterView;

    open spec fn view(&self) -> AdapterView {
        AdapterView { name: self.name@, address: self.address@, powered: self.powered }
    }
}

/// The model of an adapter that may be absent.
pub open spec fn opt_adapter(adapter: Option<AdapterInfo>) -> Option<AdapterView> {
    match adapter {
        Some(info) => Some(info@),
        None => None,
    }
}

/// Information about a Bluetooth device.
#[derive(Debug, Clone, PartialEq)]
pub struct DeviceInfo {
    pub name: Option<String>,
    pub address: String,
    pub paired: bool,
    pub connected: bool,
    pub trusted: bool,
    pub icon: Option<String>,
    pub uuids: Vec<String>,
}

/// The model of a [`DeviceInfo`].
#[verifier::ext_equal]
pub struct DeviceView {
    pub name: Option<Seq<char>>,
    pub address: Seq<char>,
    pub paired: bool,
    pub connected: bool,
    pub trusted: bool,
    pub icon: Option<Seq<char>>,
    pub uuids: Seq<Seq<char>>,
}

impl View for DeviceInfo {
    type V = DeviceView;

    open spec fn view(&self) -> DeviceView {
        DeviceView {
            name: text::opt_text(self.name),
            address: self.address@,
            paired: self.paired,
            connected: self.connected,
            trusted: self.trusted,
            icon: text::opt_text(self.icon),
            uuids: text::texts(self.uuids@),
        }
    }
}

/// The models of a list of devices.
pub open spec fn device_views(list: Seq<DeviceInfo>) -> Seq<DeviceView> {
    list.map_values(|d: DeviceInfo| d@)
}

/// A service identifier in lower case names an audio role: A2DP source or sink, HSP headset or
/// gateway, HFP hands-free or gateway.
pub open spec fn audio_role(uuid: Seq<char>) -> bool {
    ||| text::has_prefix(uuid, "0000110a"@)
    ||| text::has_prefix(uuid, "0000110b"@)
    ||| text::has_prefix(uuid, "00001108"@)
    ||| text::has_prefix(uuid, "00001112"@)
    ||| text::has_prefix(uuid, "0000111e"@)
    ||| text::has_prefix(uuid, "0000111f"@)
}

impl DeviceView {
    /// The name where there is one, otherwise the address.
    pub open spec fn display_name(self) -> Seq<char> {
        match self.name {
            Some(name) => name,
            None => self.address,
        }
    }

    /// One of the services, written in lower case, names an audio role.
    pub open spec fn has_audio_profiles(self) -> bool {
        exists|i: int|
            0 <= i < self.uuids.len() && audio_role(text::lowercased(#[trigger] self.uuids[i]))
    }

    /// The services are written in ASCII.
    pub open spec fn ascii_services(self) -> bool {
        forall|i: int| 0 <= i < self.uuids.len() ==> text::all_ascii(#[trigger] self.uuids[i])
    }
}

/// Whether a service identifier in lower case names an audio role.
pub fn is_audio_role(uuid: &str) -> (found: bool)
    ensures
        found == audio_role(uuid@),
{
    let chars = text::chars_of(uuid);
    let uuid = chars.as_slice();
    text::starts_with(uuid, "0000110a") || text::starts_with(uuid, "0000110b")
        || text::starts_with(uuid, "00001108") || text::starts_with(uuid, "00001112")
        || text::starts_with(uuid, "0000111e") || text::starts_with(uuid, "0000111f")
}

impl DeviceInfo {
    /// Returns the display name: the device name if available, otherwise the address.
    pub fn display_name(&self) -> (name: &str)
        ensures
            name@ == self@.display_name(),
    {
        match &self.name {
            Some(name) => name.as_str(),
            None => self.address.as_str(),
        }
    }

    /// Returns true if the device has audio-related Bluetooth UUIDs.
    pub fn has_audio_profiles(&self) -> (found: bool)
        ensures
            found == self@.has_audio_profiles(),
            self@.ascii_services() ==> found == exists|i: int|
                0 <= i < self@.uuids.len() && audio_role(
                    text::ascii_lowercased(#[trigger] self@.uuids[i]),
                ),
    {
        let mut i: usize = 0;
        while i < self.uuids.len()
            invariant
                i <= self.uuids@.len(),
                forall|j: int|
                    0 <= j < i ==> {
                        &&& !audio_role(text::lowercased(#[trigger] self@.uuids[j]))
                        &&& text::all_ascii(self@.uuids[j]) ==> !audio_role(
                            text::ascii_lowercased(self@.uuids[j]),
                        )
                    },
            decreases self.uuids.len() - i,
        {
            let lower = self.uuids[i].as_str().to_lowercase();
            assert(self@.uuids[i as int] == self.uuids@[i as int]@);
            if is_audio_role(lower.as_str()) {
                return true;
            }
            i = i + 1;
        }
        false
    }
}

/// The D-Bus object path of a device behind the default adapter.
pub open spec fn object_path(address: Seq<char>) -> Seq<char> {
    "/org/bluez/hci0/dev_"@ + text::replaced(address, ':', '_')
}

/// Construct the BlueZ D-Bus object path for a device given its address.
pub fn device_object_path(address: &str) -> (path: String)
    ensures
        path@ == object_path(address@),
{
    let suffix = text::replace(address, ':', '_');
    "/org/bluez/hci0/dev_".to_string().concat(suffix.as_str())
}

/// The arguments with which `rfkill` unblocks the adapter.
pub fn rfkill_arguments() -> (arguments: Vec<String>)
    ensures
        text::texts(arguments@) == seq!["unblock"@, "bluetooth"@],
{
    let arguments: Vec<String> = vec!["unblock".to_string(), "bluetooth".to_string()];
    assert(text::texts(arguments@) =~= seq!["unblock"@, "bluetooth"@]);
    arguments
}

/// Unblock the Bluetooth adapter via rfkill: what running `rfkill unblock bluetooth` came to.
pub fn rfkill_unblock_bluetooth(output: Result<CommandOutput, String>) -> (result: Result<
    (),
    String,
>)
    ensures
        match process::trouble(output, "Failed to run rfkill: "@, "rfkill unblock failed: "@) {
            Some(message) => result matches Err(m) && m@ == message,
            None => result is Ok,
        },
{
    process::completed(output, "Failed to run rfkill: ", "rfkill unblock failed: ")
}

/// `a` may be listed before `b`, where their names are compared as `a_name` and `b_name`: connected
/// devices come first, then paired ones, then the order of the names decides.
pub open spec fn ranked_before(
    a: DeviceView,
    a_name: Seq<char>,
    b: DeviceView,
    b_name: Seq<char>,
) -> bool {
    if a.connected != b.connected {
        a.connected
    } else if a.paired != b.paired {
        a.paired
    } else {
        text::lexical_le(a_name, b_name)
    }
}

/// `a` may be listed before `b`: their display names are compared in lower case.
pub open spec fn listed_before(a: DeviceView, b: DeviceView) -> bool {
    ranked_before(
        a,
        text::lowercased(a.display_name()),
        b,
        text::lowercased(b.display_name()),
    )
}

/// `output` is `input` in listing order, where `source[i]` is the place in `input` of the device at
/// place `i`; devices that may stand either way keep the order they had.
pub open spec fn arranged(
    input: Seq<DeviceView>,
    output: Seq<DeviceView>,
    source: Seq<int>,
) -> bool {
    &&& source.len() == input.len()
    &&& output.len() == input.len()
    &&& source.no_duplicates()
    &&& forall|i: int|
        0 <= i < source.len() ==> 0 <= #[trigger] source[i] < input.len() && output[i]
            == input[source[i]]
    &&& forall|i: int, j: int|
        0 <= i < j < output.len() ==> {
            &&& listed_before(#[trigger] output[i], #[trigger] output[j])
            &&& listed_before(output[j], output[i]) ==> source[i] < source[j]
        }
}

/// `output` is `input` in listing order.
pub open spec fn in_listing_order(input: Seq<DeviceView>, output: Seq<DeviceView>) -> bool {
    exists|source: Seq<int>| arranged(input, output, source)
}

/// Whether `a` may be listed before `b`, where their names are compared as `a_name` and `b_name`.
pub fn ranks_before(a: &DeviceInfo, a_name: &str, b: &DeviceInfo, b_name: &str) -> (result: bool)
    ensures
        result == ranked_before(a@, a_name@, b@, b_name@),
{
    if a.connected != b.connected {
        a.connected
    } else if a.paired != b.paired {
        a.paired
    } else {
        text::precedes(a_name, b_name)
    }
}

/// Whether `a` may be listed before `b`.
fn may_precede(a: &DeviceInfo, b: &DeviceInfo) -> (result: bool)
    ensures
        result == listed_before(a@, b@),
{
    let left = a.display_name().to_lowercase();
    let right = b.display_name().to_lowercase();
    ranks_before(a, left.as_str(), b, right.as_str())
}

/// Of two devices one may be listed before the other.
proof fn lemma_listing_total(a: DeviceView, b: DeviceView)
    ensures
        listed_before(a, b) || listed_before(b, a),
{
    text::lemma_lexical_total(
        text::lowercased(a.display_name()),
        text::lowercased(b.display_name()),
    );
}

/// The listing order is transitive.
proof fn lemma_listing_transitive(a: DeviceView, b: DeviceView, c: DeviceView)
    requires
        listed_before(a, b),
        listed_before(b, c),
    ensures
        listed_before(a, c),
{
    if a.connected == b.connected && b.connected == c.connected && a.paired == b.paired && b.paired
        == c.paired {
        text::lemma_lexical_transitive(
            text::lowercased(a.display_name()),
            text::lowercased(b.display_name()),
            text::lowercased(c.display_name()),
        );
    }
}

/// The place at which one more device goes into a list in listing order: behind those that may
/// stand before it.
fn place_for(sorted: &Vec<DeviceInfo>, device: &DeviceInfo) -> (at: usize)
    ensures
        at <= sorted@.len(),
        forall|j: int| 0 <= j < at ==> listed_before((#[trigger] sorted@[j])@, device@),
        at < sorted@.len() ==> !listed_before(sorted@[at as int]@, device@),
{
    let mut at: usize = 0;
    while at < sorted.len()
        invariant
            at <= sorted@.len(),
            forall|j: int| 0 <= j < at ==> listed_before((#[trigger] sorted@[j])@, device@),
        decreases sorted.len() - at,
    {
        if !may_precede(&sorted[at], device) {
            return at;
        }
        at = at + 1;
    }
    at
}

/// One more device of the input goes to its place.
proof fn lemma_arranged_insert(
    input: Seq<DeviceView>,
    output: Seq<DeviceView>,
    source: Seq<int>,
    device: DeviceView,
    at: int,
)
    requires
        arranged(input, output, source),
        0 <= at <= output.len(),
        forall|j: int| 0 <= j < at ==> listed_before(#[trigger] output[j], device),
        at < output.len() ==> !listed_before(output[at], device),
    ensures
        arranged(input.push(device), output.insert(at, device), source.insert(at, input.len() as int)),
{
    let input2 = input.push(device);
    let output2 = output.insert(at, device);
    let source2 = source.insert(at, input.len() as int);
    assert forall|i: int, j: int| 0 <= i < j < source2.len() implies source2[i] != source2[j] by {
        let i1 = if i < at { i } else { i - 1 };
        let j1 = if j < at { j } else { j - 1 };
        if i != at {
            assert(source[i1] < input.len());
        }
        if j != at {
            assert(source[j1] < input.len());
        }
    }
    assert forall|i: int| 0 <= i < source2.len() implies 0 <= #[trigger] source2[i] < input2.len()
        && output2[i] == input2[source2[i]] by {
        let i1 = if i < at { i } else { i - 1 };
        if i != at {
            assert(source2[i] == source[i1]);
        }
    }
    assert forall|i: int, j: int| 0 <= i < j < output2.len() implies {
        &&& listed_before(#[trigger] output2[i], #[trigger] output2[j])
        &&& listed_before(output2[j], output2[i]) ==> source2[i] < source2[j]
    } by {
        if j < at {
            assert(output2[i] == output[i] && output2[j] == output[j]);
        } else if j == at {
            assert(output2[i] == output[i]);
            assert(source[i] < input.len());
        } else if i == at {
            assert(output2[j] == output[j - 1]);
            lemma_listing_total(output[at], device);
            if j - 1 > at {
                assert(listed_before(output[at], output[j - 1]));
                lemma_listing_transitive(device, output[at], output[j - 1]);
                if listed_before(output[j - 1], device) {
                    lemma_listing_transitive(output[at], output[j - 1], device);
                }
            }
        } else {
            let i1 = if i < at { i } else { i - 1 };
            assert(output2[i] == output[i1] && output2[j] == output[j - 1]);
        }
    }
}

/// Sort devices: connected first, then paired, then by display name.
pub fn sort_devices(devices: Vec<DeviceInfo>) -> (sorted: Vec<DeviceInfo>)
    ensures
        in_listing_order(device_views(devices@), device_views(sorted@)),
{
    let mut rest = devices;
    let mut sorted: Vec<DeviceInfo> = Vec::new();
    let ghost input = device_views(devices@);
    let ghost mut done: int = 0;
    let ghost mut source: Seq<int> = Seq::empty();
    while rest.len() > 0
        invariant
            0 <= done,
            done + rest@.len() == input.len(),
            device_views(rest@) == input.skip(done),
            arranged(input.take(done), device_views(sorted@), source),
        decreases rest.len(),
    {
        let ghost before = rest@;
        let device = rest.remove(0);
        assert(device_views(before)[0] == device@);
        assert(device_views(rest@) =~= device_views(before).skip(1));
        assert(input.skip(done).skip(1) =~= input.skip(done + 1));
        let at: usize = place_for(&sorted, &device);
        proof {
            let output = device_views(sorted@);
            assert forall|j: int| 0 <= j < at implies listed_before(#[trigger] output[j], device@) by {
                assert(output[j] == sorted@[j]@);
            }
            lemma_arranged_insert(input.take(done), output, source, device@, at as int);
            source = source.insert(at as int, done);
            assert(input.take(done).push(device@) =~= input.take(done + 1));
            assert(device_views(sorted@.insert(at as int, device)) =~= output.insert(
                at as int,
                device@,
            ));
            done = done + 1;
        }
        sorted.insert(at, device);
    }
    assert(input.take(done) =~= input);
    sorted
}

} // verus!

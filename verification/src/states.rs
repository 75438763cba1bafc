//! What it means that two states agree, field by field.
use vstd::prelude::*;

use crate::agent::AgentPrompt;
use crate::app::{App, AppView, PendingConfirm, ProfileMenu};
use crate::audio;
use crate::audio::AudioProfile;
use crate::bluetooth;
use crate::bluetooth::{AdapterInfo, DeviceInfo};
use crate::session::Session;
use crate::text;

verus! {

/// Two texts that may be absent are the same.
pub open spec fn same_text(a: Option<String>, b: Option<String>) -> bool {
    match (a, b) {
        (Some(a), Some(b)) => a@ == b@,
        (None, None) => true,
        _ => false,
    }
}

/// Two lists hold the same texts.
pub open spec fn same_texts(a: Seq<String>, b: Seq<String>) -> bool {
    a.len() == b.len() && forall|i: int|
        0 <= i < a.len() ==> (#[trigger] a[i])@ == (#[trigger] b[i])@
}

/// Two devices agree in every field.
pub open spec fn same_device(a: DeviceInfo, b: DeviceInfo) -> bool {
    &&& same_text(a.name, b.name)
    &&& a.address@ == b.address@
    &&& a.paired == b.paired && a.connected == b.connected && a.trusted == b.trusted
    &&& same_text(a.icon, b.icon)
    &&& same_texts(a.uuids@, b.uuids@)
}

/// Two lists hold the same devices, in the same order.
pub open spec fn same_devices(a: Seq<DeviceInfo>, b: Seq<DeviceInfo>) -> bool {
    a.len() == b.len() && forall|i: int|
        0 <= i < a.len() ==> #[trigger] same_device(a[i], b[i])
}

/// Two adapters agree in every field.
pub open spec fn same_adapter(a: AdapterInfo, b: AdapterInfo) -> bool {
    a.name@ == b.name@ && a.address@ == b.address@ && a.powered == b.powered
}

/// Two profiles agree in every field.
pub open spec fn same_profile(a: AudioProfile, b: AudioProfile) -> bool {
    a.name@ == b.name@ && a.description@ == b.description@ && a.active == b.active
}

/// Two lists hold the same profiles, in the same order.
pub open spec fn same_profiles(a: Seq<AudioProfile>, b: Seq<AudioProfile>) -> bool {
    a.len() == b.len() && forall|i: int| 0 <= i < a.len() ==> #[trigger] same_profile(a[i], b[i])
}

/// Two menus agree in every field.
pub open spec fn same_menu(a: ProfileMenu, b: ProfileMenu) -> bool {
    &&& same_profiles(a.profiles@, b.profiles@)
    &&& a.selected == b.selected
    &&& a.address@ == b.address@ && a.name@ == b.name@
}

/// Two confirmations agree in every field.
pub open spec fn same_confirm(a: PendingConfirm, b: PendingConfirm) -> bool {
    &&& a.message@ == b.message@
    &&& a.address@ == b.address@ && a.name@ == b.name@
    &&& a.confirm_type == b.confirm_type
}

/// Two prompts agree in every field.
pub open spec fn same_prompt(a: AgentPrompt, b: AgentPrompt) -> bool {
    match (a, b) {
        (
            AgentPrompt::PinCode { device: d, input: i, reply: r },
            AgentPrompt::PinCode { device, input, reply },
        ) => d@ == device@ && i@ == input@ && r == reply,
        (
            AgentPrompt::Passkey { device: d, input: i, reply: r },
            AgentPrompt::Passkey { device, input, reply },
        ) => d@ == device@ && i@ == input@ && r == reply,
        (
            AgentPrompt::DisplayPasskey { device: d, passkey: k },
            AgentPrompt::DisplayPasskey { device, passkey },
        ) => d@ == device@ && k == passkey,
        (
            AgentPrompt::Confirmation { device: d, passkey: k, reply: r },
            AgentPrompt::Confirmation { device, passkey, reply },
        ) => d@ == device@ && k == passkey && r == reply,
        (
            AgentPrompt::AuthorizeService { device: d, uuid: u, reply: r },
            AgentPrompt::AuthorizeService { device, uuid, reply },
        ) => d@ == device@ && u@ == uuid@ && r == reply,
        _ => false,
    }
}

/// A part of the state of the interface.
pub enum Part {
    Adapter,
    Known,
    Discovered,
    Selection,
    Running,
    Scanning,
    Status,
    Confirm,
    Prompt,
    Menu,
    Detail,
    Help,
}

/// Two states agree in a part.
pub open spec fn same_part(a: App, b: App, part: Part) -> bool {
    match part {
        Part::Adapter => match (a.adapter, b.adapter) {
            (Some(a), Some(b)) => same_adapter(a, b),
            (None, None) => true,
            _ => false,
        },
        Part::Known => same_devices(a.devices@, b.devices@),
        Part::Discovered => same_devices(a.discovered_devices@, b.discovered_devices@),
        Part::Selection => a.list_state == b.list_state,
        Part::Running => a.running == b.running,
        Part::Scanning => a.scanning == b.scanning,
        Part::Status => same_text(a.status_message, b.status_message),
        Part::Confirm => match (a.pending_confirm, b.pending_confirm) {
            (Some(a), Some(b)) => same_confirm(a, b),
            (None, None) => true,
            _ => false,
        },
        Part::Prompt => match (a.agent_prompt, b.agent_prompt) {
            (Some(a), Some(b)) => same_prompt(a, b),
            (None, None) => true,
            _ => false,
        },
        Part::Menu => match (a.profile_menu, b.profile_menu) {
            (Some(a), Some(b)) => same_menu(a, b),
            (None, None) => true,
            _ => false,
        },
        Part::Detail => a.show_detail == b.show_detail,
        Part::Help => a.show_help == b.show_help,
    }
}

/// Two sessions agree in everything but these parts of the interface.
pub open spec fn differ_only_in(a: Session, b: Session, parts: Set<Part>) -> bool {
    &&& a.adapter_retry_counter == b.adapter_retry_counter
    &&& a.agent_registered == b.agent_registered
    &&& forall|part: Part| !parts.contains(part) ==> #[trigger] same_part(a.app, b.app, part)
}

/// Two sessions agree in everything.
pub open spec fn same_session(a: Session, b: Session) -> bool {
    differ_only_in(a, b, Set::empty())
}

/// Nothing lies over the device list.
pub open spec fn nothing_open(app: App) -> bool {
    &&& app.agent_prompt is None
    &&& app.profile_menu is None
    &&& app.pending_confirm is None
    &&& !app.show_detail
    &&& !app.show_help
}

/// The device at this place of the list, in which the known devices come before the discovered ones.
pub open spec fn listed_device(app: App, index: int) -> DeviceInfo {
    if index < app.devices@.len() {
        app.devices@[index]
    } else {
        app.discovered_devices@[index - app.devices@.len()]
    }
}

/// The number of devices on the list.
pub open spec fn list_length(app: App) -> nat {
    app.devices@.len() + app.discovered_devices@.len()
}

/// This device is the selected one.
pub open spec fn is_selected(app: App, device: DeviceInfo) -> bool {
    app.list_state.selected matches Some(index) && index < list_length(app) && listed_device(
        app,
        index as int,
    ) == device
}

/// The name under which a device is shown: its name, or else its address.
pub open spec fn shown_name(device: DeviceInfo) -> Seq<char> {
    match device.name {
        Some(name) => name@,
        None => device.address@,
    }
}

/// Devices with the same model agree in every field.
pub proof fn lemma_same_device(a: DeviceInfo, b: DeviceInfo)
    requires
        a@ == b@,
    ensures
        same_device(a, b),
{
    assert(text::texts(a.uuids@).len() == text::texts(b.uuids@).len());
    assert forall|i: int| 0 <= i < a.uuids@.len() implies (#[trigger] a.uuids@[i])@ == (
    #[trigger] b.uuids@[i])@ by {
        assert(text::texts(a.uuids@)[i] == text::texts(b.uuids@)[i]);
    }
}

/// Lists of devices with the same models hold the same devices.
pub proof fn lemma_same_devices(a: Seq<DeviceInfo>, b: Seq<DeviceInfo>)
    requires
        bluetooth::device_views(a) == bluetooth::device_views(b),
    ensures
        same_devices(a, b),
{
    assert(bluetooth::device_views(a).len() == a.len());
    assert(bluetooth::device_views(b).len() == b.len());
    assert forall|i: int| 0 <= i < a.len() implies #[trigger] same_device(a[i], b[i]) by {
        assert(bluetooth::device_views(a)[i] == a[i]@);
        assert(bluetooth::device_views(b)[i] == b[i]@);
        lemma_same_device(a[i], b[i]);
    }
}

/// Lists of profiles with the same models hold the same profiles.
pub proof fn lemma_same_profiles(a: Seq<AudioProfile>, b: Seq<AudioProfile>)
    requires
        audio::profile_views(a) == audio::profile_views(b),
    ensures
        same_profiles(a, b),
{
    assert(audio::profile_views(a).len() == a.len());
    assert(audio::profile_views(b).len() == b.len());
    assert forall|i: int| 0 <= i < a.len() implies #[trigger] same_profile(a[i], b[i]) by {
        assert(audio::profile_views(a)[i] == a[i]@);
        assert(audio::profile_views(b)[i] == b[i]@);
    }
}

/// Two models agree in a part.
pub open spec fn same_part_view(a: AppView, b: AppView, part: Part) -> bool {
    match part {
        Part::Adapter => a.adapter == b.adapter,
        Part::Known => a.devices == b.devices,
        Part::Discovered => a.discovered_devices == b.discovered_devices,
        Part::Selection => a.list_state == b.list_state,
        Part::Running => a.running == b.running,
        Part::Scanning => a.scanning == b.scanning,
        Part::Status => a.status_message == b.status_message,
        Part::Confirm => a.pending_confirm == b.pending_confirm,
        Part::Prompt => a.agent_prompt == b.agent_prompt,
        Part::Menu => a.profile_menu == b.profile_menu,
        Part::Detail => a.show_detail == b.show_detail,
        Part::Help => a.show_help == b.show_help,
    }
}

/// States whose models agree in a part agree in that part.
pub proof fn lemma_parts(a: App, b: App)
    ensures
        forall|part: Part|
            same_part_view(a@, b@, part) ==> #[trigger] same_part(a, b, part),
{
    assert forall|part: Part| same_part_view(a@, b@, part) implies #[trigger] same_part(
        a,
        b,
        part,
    ) by {
        match part {
            Part::Known => lemma_same_devices(a.devices@, b.devices@),
            Part::Discovered => lemma_same_devices(a.discovered_devices@, b.discovered_devices@),
            Part::Menu => {
                if a.profile_menu is Some && b.profile_menu is Some {
                    assert(a.profile_menu->0@ == b.profile_menu->0@);
                    lemma_same_profiles(
                        a.profile_menu->0.profiles@,
                        b.profile_menu->0.profiles@,
                    );
                }
            },
            Part::Adapter => {
                if a.adapter is Some && b.adapter is Some {
                    assert(a.adapter->0@ == b.adapter->0@);
                }
            },
            Part::Confirm => {
                if a.pending_confirm is Some && b.pending_confirm is Some {
                    assert(a.pending_confirm->0@ == b.pending_confirm->0@);
                }
            },
            Part::Prompt => {
                if a.agent_prompt is Some && b.agent_prompt is Some {
                    assert(a.agent_prompt->0@ == b.agent_prompt->0@);
                }
            },
            _ => {},
        }
    }
}

/// The model of the selected device is the selected one of the model.
pub proof fn lemma_selected(app: App, device: DeviceInfo)
    requires
        is_selected(app, device),
    ensures
        app@.selected_device() == Some(device@),
        device@.display_name() == shown_name(device),
{
}

} // verus!

//! What discoveries, results and the clock do, stated of the calls themselves: the session before and
//! after, and the work that is asked for.
use vstd::prelude::*;

use crate::app;
use crate::app::{App, ListState};
use crate::audio;
use crate::audio::AudioProfile;
use crate::bluetooth;
use crate::bluetooth::{AdapterInfo, DeviceInfo, DeviceView};
use crate::key_laws;
use crate::keys::{KeyCode, KeyEvent};
use crate::session;
use crate::session::{Command, DeviceOpResult, Refresh, Session, Task};
use crate::states;
use crate::states::Part;

verus! {

/// Some device of the list has this address.
pub open spec fn is_listed(list: Seq<DeviceInfo>, address: Seq<char>) -> bool {
    exists|i: int| 0 <= i < list.len() && (#[trigger] list[i]).address@ == address
}

/// `at` is the first place of the list with this address.
pub open spec fn first_place(list: Seq<DeviceInfo>, address: Seq<char>, at: int) -> bool {
    &&& 0 <= at < list.len() && list[at].address@ == address
    &&& forall|i: int| 0 <= i < at ==> (#[trigger] list[i]).address@ != address
}

/// The list has the same devices but for the one at `at`, which is `device` now.
pub open spec fn replaced_at(
    before: Seq<DeviceInfo>,
    after: Seq<DeviceInfo>,
    at: int,
    device: DeviceInfo,
) -> bool {
    &&& before.len() == after.len()
    &&& states::same_device(after[at], device)
    &&& forall|i: int|
        0 <= i < before.len() && i != at ==> #[trigger] states::same_device(before[i], after[i])
}

/// The status bar says this.
pub open spec fn says(app: App, message: Seq<char>) -> bool {
    app.status_message matches Some(shown) && shown@ == message
}

/// An address occurs among devices if and only if it does among their models.
proof fn lemma_is_listed(list: Seq<DeviceInfo>, address: Seq<char>)
    ensures
        is_listed(list, address) == app::has_address(bluetooth::device_views(list), address),
{
    let views = bluetooth::device_views(list);
    assert forall|i: int| 0 <= i < list.len() implies #[trigger] views[i] == list[i]@ by {}
    if is_listed(list, address) {
        let i = choose|i: int| 0 <= i < list.len() && (#[trigger] list[i]).address@ == address;
        assert(views[i].address == address);
    }
    if app::has_address(views, address) {
        let i = choose|i: int| 0 <= i < views.len() && (#[trigger] views[i]).address == address;
        assert(list[i].address@ == address);
    }
}

/// The first place of an address among devices is the one among their models.
proof fn lemma_first_place(list: Seq<DeviceInfo>, address: Seq<char>, at: int)
    requires
        first_place(list, address, at),
    ensures
        app::place_of(bluetooth::device_views(list), address) == Some(at),
{
    let views = bluetooth::device_views(list);
    assert forall|i: int| 0 <= i < list.len() implies #[trigger] views[i] == list[i]@ by {}
    assert(app::first_with(views, address, at));
    let chosen = choose|at: int| app::first_with(views, address, at);
    assert(app::first_with(views, address, chosen));
    assert(!(chosen < at) && !(at < chosen)) by {
        assert(views[chosen].address == address);
        assert(views[at].address == address);
        if chosen < at {
            assert(list[chosen].address@ != address);
        }
    }
}

/// An address that does not occur has no first place.
proof fn lemma_no_place(list: Seq<DeviceInfo>, address: Seq<char>)
    requires
        !is_listed(list, address),
    ensures
        app::place_of(bluetooth::device_views(list), address) is None,
{
    lemma_is_listed(list, address);
    let views = bluetooth::device_views(list);
    if exists|at: int| app::first_with(views, address, at) {
        let at = choose|at: int| app::first_with(views, address, at);
        assert(views[at].address == address);
    }
}

/// The devices behind the models of a list.
proof fn lemma_models(list: Seq<DeviceInfo>)
    ensures
        bluetooth::device_views(list).len() == list.len(),
        forall|i: int|
            0 <= i < list.len() ==> #[trigger] bluetooth::device_views(list)[i] == list[i]@,
{
}

/// A list whose models are those of another but for one has the same devices but for that one.
proof fn lemma_replaced(
    before: Seq<DeviceInfo>,
    after: Seq<DeviceInfo>,
    at: int,
    device: DeviceInfo,
)
    requires
        0 <= at < before.len(),
        bluetooth::device_views(after) == bluetooth::device_views(before).update(at, device@),
    ensures
        replaced_at(before, after, at, device),
{
    lemma_models(before);
    lemma_models(after);
    assert(bluetooth::device_views(after)[at] == after[at]@);
    states::lemma_same_device(after[at], device);
    assert forall|i: int| 0 <= i < before.len() && i != at implies #[trigger] states::same_device(
        before[i],
        after[i],
    ) by {
        assert(bluetooth::device_views(after)[i] == after[i]@);
        assert(bluetooth::device_views(before)[i] == before[i]@);
        states::lemma_same_device(before[i], after[i]);
    }
}

// ---------------------------------------------------------------------------------------------
// The start
// ---------------------------------------------------------------------------------------------

/// A session starts with the adapter and the devices it is given, nothing open, no scan, and the
/// first device selected if there is one.
pub proof fn law_start(
    adapter: Option<AdapterInfo>,
    devices: Vec<DeviceInfo>,
    agent_registered: bool,
    session: Session,
)
    requires
        call_ensures(Session::new, (adapter, devices, agent_registered), session),
    ensures
        match (adapter, session.app.adapter) {
            (Some(given), Some(kept)) => states::same_adapter(given, kept),
            (None, None) => true,
            _ => false,
        },
        states::same_devices(devices@, session.app.devices@),
        session.app.discovered_devices@.len() == 0,
        session.app.list_state.offset == 0,
        session.app.list_state.selected == if devices@.len() > 0 {
            Some(0usize)
        } else {
            None
        },
        states::nothing_open(session.app),
        session.app.running && !session.app.scanning,
        session.app.status_message is None,
        session.adapter_retry_counter == 0,
        session.agent_registered == agent_registered,
{
    lemma_models(devices@);
    lemma_models(session.app.devices@);
    lemma_models(session.app.discovered_devices@);
    states::lemma_same_devices(devices@, session.app.devices@);
    if adapter is Some {
        assert(session.app@.adapter == Some(adapter->0@));
        assert(session.app.adapter is Some);
        assert(session.app.adapter->0@ == adapter->0@);
    }
}

// ---------------------------------------------------------------------------------------------
// Scans
// ---------------------------------------------------------------------------------------------

/// A device whose address is not on the list joins it as the last, as it was found, and every other
/// device stays as it was. It is selected if nothing was and no device is known.
pub proof fn law_new_device_joins(session: &mut Session, device: DeviceInfo)
    requires
        call_ensures(Session::on_device, (session, device), ()),
        !is_listed(old(session).app.devices@, device.address@),
        !is_listed(old(session).app.discovered_devices@, device.address@),
    ensures
        ({
            let before = old(session).app.discovered_devices@;
            let after = final(session).app.discovered_devices@;
            &&& after.len() == before.len() + 1
            &&& states::same_device(after[before.len() as int], device)
            &&& forall|i: int|
                0 <= i < before.len() ==> #[trigger] states::same_device(before[i], after[i])
        }),
        old(session).app.list_state.selected is None && old(session).app.devices@.len() == 0
            ==> final(session).app.list_state.selected == Some(0usize),
        final(session).app.list_state.offset == old(session).app.list_state.offset,
        old(session).app.list_state.selected is Some || old(session).app.devices@.len() > 0
            ==> final(session).app.list_state == old(session).app.list_state,
        states::differ_only_in(
            *old(session),
            *final(session),
            set![Part::Discovered, Part::Selection],
        ),
{
    let before = old(session).app.discovered_devices@;
    let after = final(session).app.discovered_devices@;
    lemma_is_listed(old(session).app.devices@, device.address@);
    lemma_is_listed(before, device.address@);
    lemma_models(before);
    lemma_models(after);
    lemma_models(old(session).app.devices@);
    states::lemma_parts(old(session).app, final(session).app);
    assert(bluetooth::device_views(after) == bluetooth::device_views(before).push(device@));
    assert(bluetooth::device_views(after)[before.len() as int] == device@);
    states::lemma_same_device(after[before.len() as int], device);
    assert forall|i: int| 0 <= i < before.len() implies #[trigger] states::same_device(
        before[i],
        after[i],
    ) by {
        assert(bluetooth::device_views(after)[i] == bluetooth::device_views(before)[i]);
        states::lemma_same_device(before[i], after[i]);
    }
}

/// A device whose address is on the list already changes nothing.
pub proof fn law_listed_device_changes_nothing(session: &mut Session, device: DeviceInfo)
    requires
        call_ensures(Session::on_device, (session, device), ()),
        is_listed(old(session).app.devices@, device.address@) || is_listed(
            old(session).app.discovered_devices@,
            device.address@,
        ),
    ensures
        states::same_session(*old(session), *final(session)),
{
    lemma_is_listed(old(session).app.devices@, device.address@);
    lemma_is_listed(old(session).app.discovered_devices@, device.address@);
    states::lemma_parts(old(session).app, final(session).app);
}

/// A device that was discovered can be paired: where it is not paired and its place is selected, `p`
/// asks to pair it.
pub proof fn law_discovered_device_can_be_paired(
    finding: &mut Session,
    pressing: &mut Session,
    device: DeviceInfo,
    key: KeyEvent,
    command: Option<Command>,
)
    requires
        call_ensures(Session::on_device, (finding, device), ()),
        !is_listed(old(finding).app.devices@, device.address@),
        !is_listed(old(finding).app.discovered_devices@, device.address@),
        !device.paired,
        states::same_part(final(finding).app, old(pressing).app, Part::Known),
        states::same_part(final(finding).app, old(pressing).app, Part::Discovered),
        states::nothing_open(old(pressing).app),
        old(pressing).app.adapter is Some,
        old(pressing).app.list_state.selected matches Some(index) && index as int
            == states::list_length(old(finding).app),
        key.code == KeyCode::Char('p'),
        call_ensures(Session::on_key, (pressing, key), command),
    ensures
        key_laws::asks_pair(command, device),
{
    law_new_device_joins(finding, device);
    let index = states::list_length(old(finding).app) as int;
    let found = states::listed_device(old(pressing).app, index);
    assert(states::same_part(old(finding).app, final(finding).app, Part::Known));
    let at = old(finding).app.discovered_devices@.len() as int;
    assert(found == old(pressing).app.discovered_devices@[at]);
    assert(states::same_device(
        final(finding).app.discovered_devices@[at],
        old(pressing).app.discovered_devices@[at],
    ));
    key_laws::law_pair_key(pressing, key, command, found);
}

/// A scan runs once its start is reported, and a start that failed changes nothing.
pub proof fn law_scan_starts(session: &mut Session, started: bool)
    requires
        call_ensures(Session::on_scan_started, (session, started), ()),
    ensures
        final(session).app.scanning == (old(session).app.scanning || started),
        states::differ_only_in(*old(session), *final(session), set![Part::Scanning]),
{
    states::lemma_parts(old(session).app, final(session).app);
}

/// The end of a scan takes the discovered devices off the list and leaves the known ones; a selection
/// that pointed behind them goes to the last known device.
pub proof fn law_scan_stops(session: &mut Session)
    requires
        call_ensures(Session::on_scan_stopped, (session,), ()),
        old(session).app.devices@.len() <= usize::MAX,
    ensures
        !final(session).app.scanning,
        final(session).app.discovered_devices@.len() == 0,
        final(session).app.list_state.selected == match old(session).app.list_state.selected {
            Some(index) => if old(session).app.devices@.len() == 0 {
                None
            } else if index >= old(session).app.devices@.len() {
                Some((old(session).app.devices@.len() - 1) as usize)
            } else {
                Some(index)
            },
            None => None,
        },
        final(session).app.list_state.offset == if states::list_length(final(session).app) == 0 {
            0
        } else {
            old(session).app.list_state.offset
        },
        states::differ_only_in(
            *old(session),
            *final(session),
            set![Part::Scanning, Part::Discovered, Part::Selection],
        ),
{
    lemma_models(old(session).app.devices@);
    lemma_models(final(session).app.discovered_devices@);
    states::lemma_parts(old(session).app, final(session).app);
}

// ---------------------------------------------------------------------------------------------
// Tasks and their results
// ---------------------------------------------------------------------------------------------

/// A task that succeeds results in what it was to bring about, for the device that it was for.
pub proof fn law_success_fits_the_task(task: Task, result: DeviceOpResult)
    requires
        call_ensures(Task::finish, (task, Ok::<(), String>(())), result),
    ensures
        match (task, result) {
            (
                Task::Connect { address: a, name: n },
                DeviceOpResult::Connected { address, name },
            ) => a@ == address@ && n@ == name@,
            (
                Task::Disconnect { address: a, name: n },
                DeviceOpResult::Disconnected { address, name },
            ) => a@ == address@ && n@ == name@,
            (Task::Pair { address: a, name: n }, DeviceOpResult::Paired { address, name }) => a@
                == address@ && n@ == name@,
            (Task::Unpair { address: a, name: n }, DeviceOpResult::Unpaired { address, name }) => a@
                == address@ && n@ == name@,
            (Task::Trust { address: a, name: n }, DeviceOpResult::Trusted { address, name }) => a@
                == address@ && n@ == name@,
            (Task::Untrust { address: a, name: n }, DeviceOpResult::Untrusted { address, name }) => a@
                == address@ && n@ == name@,
            (
                Task::SwitchProfile { name: n, description, .. },
                DeviceOpResult::ProfileSwitched { name, profile },
            ) => n@ == name@ && description@ == profile@,
            (Task::PowerOn, DeviceOpResult::AdapterPoweredOn) => true,
            (Task::PowerOff, DeviceOpResult::AdapterPoweredOff) => true,
            _ => false,
        },
{
}

/// What stands before the error of a task, in the words of the user.
pub open spec fn complaint(task: Task) -> Seq<char> {
    match task {
        Task::Connect { .. } => "Connection failed: "@,
        Task::Disconnect { .. } => "Disconnect failed: "@,
        Task::Pair { .. } => "Pairing failed: "@,
        Task::Trust { .. } => "Trust failed: "@,
        Task::Untrust { .. } => "Untrust failed: "@,
        Task::Unpair { .. } => "Unpair failed: "@,
        Task::SwitchProfile { .. } => ""@,
        Task::PowerOn => "Power on failed: "@,
        Task::PowerOff => "Power off failed: "@,
    }
}

/// A task that fails results in its error, with what failed before it; taking that in changes the
/// status bar and nothing else.
pub proof fn law_failure_is_reported(
    task: Task,
    error: String,
    result: DeviceOpResult,
    session: &mut Session,
    command: Option<Command>,
)
    requires
        call_ensures(Task::finish, (task, Err::<(), String>(error)), result),
        call_ensures(Session::on_result, (session, result), command),
    ensures
        command is None,
        says(final(session).app, complaint(task) + error@),
        states::differ_only_in(*old(session), *final(session), set![Part::Status]),
{
    reveal_strlit("");
    assert(Seq::<char>::empty() =~= ""@);
    states::lemma_parts(old(session).app, final(session).app);
}

/// Once a connection is reported, or its end, the first known device with the address is connected,
/// or not, and nothing else has changed but the status bar, which names it.
pub proof fn law_connection_is_kept(
    session: &mut Session,
    result: DeviceOpResult,
    command: Option<Command>,
    at: int,
)
    requires
        call_ensures(Session::on_result, (session, result), command),
        match result {
            DeviceOpResult::Connected { address, .. } => first_place(
                old(session).app.devices@,
                address@,
                at,
            ),
            DeviceOpResult::Disconnected { address, .. } => first_place(
                old(session).app.devices@,
                address@,
                at,
            ),
            _ => false,
        },
    ensures
        command is None,
        replaced_at(
            old(session).app.devices@,
            final(session).app.devices@,
            at,
            DeviceInfo { connected: result is Connected, ..old(session).app.devices@[at] },
        ),
        result matches DeviceOpResult::Connected { name, .. } ==> says(
            final(session).app,
            "Connected to "@ + name@,
        ),
        result matches DeviceOpResult::Disconnected { name, .. } ==> says(
            final(session).app,
            "Disconnected from "@ + name@,
        ),
        states::differ_only_in(*old(session), *final(session), set![Part::Known, Part::Status]),
{
    let before = old(session).app.devices@;
    let address = match result {
        DeviceOpResult::Connected { address, .. } => address@,
        DeviceOpResult::Disconnected { address, .. } => address@,
        _ => Seq::empty(),
    };
    lemma_first_place(before, address, at);
    lemma_models(before);
    let device = DeviceInfo { connected: result is Connected, ..before[at] };
    assert(device@ == DeviceView { connected: result is Connected, ..before[at]@ });
    lemma_replaced(before, final(session).app.devices@, at, device);
    states::lemma_parts(old(session).app, final(session).app);
}

/// Once trust is reported, or its end, the first known device with the address is trusted, or not,
/// and nothing else has changed but the status bar, which names it.
pub proof fn law_trust_is_kept(
    session: &mut Session,
    result: DeviceOpResult,
    command: Option<Command>,
    at: int,
)
    requires
        call_ensures(Session::on_result, (session, result), command),
        match result {
            DeviceOpResult::Trusted { address, .. } => first_place(
                old(session).app.devices@,
                address@,
                at,
            ),
            DeviceOpResult::Untrusted { address, .. } => first_place(
                old(session).app.devices@,
                address@,
                at,
            ),
            _ => false,
        },
    ensures
        command is None,
        replaced_at(
            old(session).app.devices@,
            final(session).app.devices@,
            at,
            DeviceInfo { trusted: result is Trusted, ..old(session).app.devices@[at] },
        ),
        result matches DeviceOpResult::Trusted { name, .. } ==> says(
            final(session).app,
            "Trusted "@ + name@,
        ),
        result matches DeviceOpResult::Untrusted { name, .. } ==> says(
            final(session).app,
            "Untrusted "@ + name@,
        ),
        states::differ_only_in(*old(session), *final(session), set![Part::Known, Part::Status]),
{
    let before = old(session).app.devices@;
    let address = match result {
        DeviceOpResult::Trusted { address, .. } => address@,
        DeviceOpResult::Untrusted { address, .. } => address@,
        _ => Seq::empty(),
    };
    lemma_first_place(before, address, at);
    lemma_models(before);
    let device = DeviceInfo { trusted: result is Trusted, ..before[at] };
    assert(device@ == DeviceView { trusted: result is Trusted, ..before[at]@ });
    lemma_replaced(before, final(session).app.devices@, at, device);
    states::lemma_parts(old(session).app, final(session).app);
}

/// Once a pairing is reported, a known device with the address is paired in its place, and nothing
/// else has changed but the status bar, which names it.
pub proof fn law_pairing_of_a_known_device(
    session: &mut Session,
    result: DeviceOpResult,
    command: Option<Command>,
    at: int,
)
    requires
        call_ensures(Session::on_result, (session, result), command),
        result matches DeviceOpResult::Paired { address, .. } && first_place(
            old(session).app.devices@,
            address@,
            at,
        ),
    ensures
        command is None,
        replaced_at(
            old(session).app.devices@,
            final(session).app.devices@,
            at,
            DeviceInfo { paired: true, ..old(session).app.devices@[at] },
        ),
        says(final(session).app, "Paired with "@ + result->Paired_name@),
        states::differ_only_in(*old(session), *final(session), set![Part::Known, Part::Status]),
{
    let before = old(session).app.devices@;
    lemma_first_place(before, result->Paired_address@, at);
    lemma_models(before);
    let device = DeviceInfo { paired: true, ..before[at] };
    assert(device@ == DeviceView { paired: true, ..before[at]@ });
    lemma_replaced(before, final(session).app.devices@, at, device);
    states::lemma_parts(old(session).app, final(session).app);
}

/// Once a pairing is reported, a discovered device with the address is the last of the known ones, as
/// it was but paired; it is gone from the discovered ones, and the others stay in their order.
#[verifier::rlimit(40)]
pub proof fn law_pairing_of_a_discovered_device(
    session: &mut Session,
    result: DeviceOpResult,
    command: Option<Command>,
    at: int,
)
    requires
        call_ensures(Session::on_result, (session, result), command),
        result matches DeviceOpResult::Paired { address, .. } && !is_listed(
            old(session).app.devices@,
            address@,
        ) && first_place(old(session).app.discovered_devices@, address@, at),
    ensures
        command is None,
        ({
            let known = old(session).app.devices@;
            let found = old(session).app.discovered_devices@;
            let known_after = final(session).app.devices@;
            let found_after = final(session).app.discovered_devices@;
            &&& known_after.len() == known.len() + 1
            &&& states::same_device(
                known_after[known.len() as int],
                DeviceInfo { paired: true, ..found[at] },
            )
            &&& forall|i: int|
                0 <= i < known.len() ==> #[trigger] states::same_device(known[i], known_after[i])
            &&& states::same_devices(found.remove(at), found_after)
        }),
        says(final(session).app, "Paired with "@ + result->Paired_name@),
        states::differ_only_in(
            *old(session),
            *final(session),
            set![Part::Known, Part::Discovered, Part::Status],
        ),
{
    let address = result->Paired_address@;
    let known = old(session).app.devices@;
    let found = old(session).app.discovered_devices@;
    let known_after = final(session).app.devices@;
    let found_after = final(session).app.discovered_devices@;
    lemma_no_place(known, address);
    lemma_first_place(found, address, at);
    lemma_models(known);
    lemma_models(found);
    lemma_models(known_after);
    let device = DeviceInfo { paired: true, ..found[at] };
    assert(device@ == DeviceView { paired: true, ..found[at]@ });
    assert(bluetooth::device_views(known_after) == bluetooth::device_views(known).push(device@));
    assert(bluetooth::device_views(known_after)[known.len() as int] == device@);
    states::lemma_same_device(known_after[known.len() as int], device);
    assert forall|i: int| 0 <= i < known.len() implies #[trigger] states::same_device(
        known[i],
        known_after[i],
    ) by {
        assert(bluetooth::device_views(known_after)[i] == bluetooth::device_views(known)[i]);
        states::lemma_same_device(known[i], known_after[i]);
    }
    assert(bluetooth::device_views(found.remove(at)) =~= bluetooth::device_views(found).remove(at));
    states::lemma_same_devices(found.remove(at), found_after);
    states::lemma_parts(old(session).app, final(session).app);
}

/// A result for an address that is not on the list changes the status bar only.
pub proof fn law_result_for_no_device(
    session: &mut Session,
    result: DeviceOpResult,
    command: Option<Command>,
)
    requires
        call_ensures(Session::on_result, (session, result), command),
        match result {
            DeviceOpResult::Connected { address, .. } => !is_listed(old(session).app.devices@, address@),
            DeviceOpResult::Disconnected { address, .. } => !is_listed(
                old(session).app.devices@,
                address@,
            ),
            DeviceOpResult::Trusted { address, .. } => !is_listed(old(session).app.devices@, address@),
            DeviceOpResult::Untrusted { address, .. } => !is_listed(old(session).app.devices@, address@),
            DeviceOpResult::Paired { address, .. } => !is_listed(old(session).app.devices@, address@)
                && !is_listed(old(session).app.discovered_devices@, address@),
            _ => false,
        },
    ensures
        command is None,
        states::differ_only_in(*old(session), *final(session), set![Part::Status]),
{
    let address = match result {
        DeviceOpResult::Connected { address, .. } => address@,
        DeviceOpResult::Disconnected { address, .. } => address@,
        DeviceOpResult::Trusted { address, .. } => address@,
        DeviceOpResult::Untrusted { address, .. } => address@,
        DeviceOpResult::Paired { address, .. } => address@,
        _ => Seq::empty(),
    };
    lemma_no_place(old(session).app.devices@, address);
    if result is Paired {
        lemma_no_place(old(session).app.discovered_devices@, address);
    }
    states::lemma_parts(old(session).app, final(session).app);
}

/// The devices of a list without those of an address, in their order.
pub open spec fn without(list: Seq<DeviceInfo>, address: Seq<char>) -> Seq<DeviceInfo>
    decreases list.len(),
{
    if list.len() == 0 {
        Seq::empty()
    } else if list.last().address@ == address {
        without(list.drop_last(), address)
    } else {
        without(list.drop_last(), address).push(list.last())
    }
}

/// The models of the devices that are left.
proof fn lemma_without(list: Seq<DeviceInfo>, address: Seq<char>)
    ensures
        bluetooth::device_views(without(list, address)) == bluetooth::device_views(list).filter(
            |d: DeviceView| d.address != address,
        ),
    decreases list.len(),
{
    reveal(Seq::filter);
    let views = bluetooth::device_views(list);
    let keep = |d: DeviceView| d.address != address;
    if list.len() == 0 {
        assert(views =~= Seq::empty());
        assert(bluetooth::device_views(without(list, address)) =~= views.filter(keep));
    } else {
        lemma_without(list.drop_last(), address);
        assert(views.drop_last() =~= bluetooth::device_views(list.drop_last()));
        assert(views.last() == list.last()@);
        let rest = without(list.drop_last(), address);
        assert(bluetooth::device_views(rest.push(list.last())) =~= bluetooth::device_views(
            rest,
        ).push(list.last()@));
    }
}

/// Once the end of a pairing is reported, no known device has the address and all others stay in their
/// order; a selection behind the end of the list goes to its last device.
#[verifier::rlimit(40)]
pub proof fn law_unpairing_removes(
    session: &mut Session,
    result: DeviceOpResult,
    command: Option<Command>,
)
    requires
        call_ensures(Session::on_result, (session, result), command),
        result is Unpaired,
        states::list_length(old(session).app) <= usize::MAX,
    ensures
        command is None,
        states::same_devices(
            without(old(session).app.devices@, result->Unpaired_address@),
            final(session).app.devices@,
        ),
        says(final(session).app, "Unpaired "@ + result->Unpaired_name@),
        ({
            let total = states::list_length(final(session).app);
            final(session).app.list_state.selected == match old(session).app.list_state.selected {
                Some(index) => if total == 0 {
                    None
                } else if index >= total {
                    Some((total - 1) as usize)
                } else {
                    Some(index)
                },
                None => None,
            }
        }),
        final(session).app.list_state.offset == if states::list_length(final(session).app) == 0 {
            0
        } else {
            old(session).app.list_state.offset
        },
        states::differ_only_in(
            *old(session),
            *final(session),
            set![Part::Known, Part::Selection, Part::Status],
        ),
{
    let before = old(session).app.devices@;
    let after = final(session).app.devices@;
    let address = result->Unpaired_address@;
    lemma_without(before, address);
    states::lemma_same_devices(without(before, address), after);
    lemma_models(after);
    lemma_models(final(session).app.discovered_devices@);
    lemma_models(old(session).app.discovered_devices@);
    states::lemma_parts(old(session).app, final(session).app);
    assert(states::same_part(old(session).app, final(session).app, Part::Discovered));
}

/// Profiles that were loaded are shown in a menu for their device, with the first active one selected,
/// or the first of all.
#[verifier::rlimit(40)]
pub proof fn law_profiles_open_a_menu(
    session: &mut Session,
    result: DeviceOpResult,
    command: Option<Command>,
)
    requires
        call_ensures(Session::on_result, (session, result), command),
        result is ProfilesLoaded,
        result->ProfilesLoaded_profiles@.len() <= usize::MAX,
    ensures
        command is None,
        ({
            let profiles = result->ProfilesLoaded_profiles@;
            &&& final(session).app.profile_menu matches Some(menu)
            &&& states::same_profiles(profiles, menu.profiles@)
            &&& menu.address@ == result->ProfilesLoaded_address@
            &&& menu.name@ == result->ProfilesLoaded_name@
            &&& forall|i: int| 0 <= i < menu.selected ==> !(#[trigger] profiles[i]).active
            &&& (exists|i: int| 0 <= i < profiles.len() && (#[trigger] profiles[i]).active)
                ==> menu.selected < profiles.len() && profiles[menu.selected as int].active
            &&& (forall|i: int| 0 <= i < profiles.len() ==> !(#[trigger] profiles[i]).active)
                ==> menu.selected == 0
        }),
        states::differ_only_in(*old(session), *final(session), set![Part::Menu]),
{
    let profiles = result->ProfilesLoaded_profiles@;
    let views = audio::profile_views(profiles);
    let menu = final(session).app.profile_menu->0;
    assert(final(session).app.profile_menu is Some);
    assert forall|i: int| 0 <= i < profiles.len() implies #[trigger] views[i] == profiles[i]@ by {}
    states::lemma_same_profiles(profiles, menu.profiles@);
    states::lemma_parts(old(session).app, final(session).app);
    if exists|i: int| 0 <= i < profiles.len() && (#[trigger] profiles[i]).active {
        let some = choose|i: int| 0 <= i < profiles.len() && (#[trigger] profiles[i]).active;
        lemma_first_active(views, some);
        let at = choose|at: int| session::first_active(views, at);
        assert(session::first_active(views, at));
        assert(menu.selected == at);
        assert forall|i: int| 0 <= i < menu.selected implies !(#[trigger] profiles[i]).active by {
            assert(views[i] == profiles[i]@);
        }
    } else if exists|at: int| session::first_active(views, at) {
        let at = choose|at: int| session::first_active(views, at);
        assert(views[at] == profiles[at]@);
    }
}

/// Where a profile is active one of them is the first.
proof fn lemma_first_active(views: Seq<audio::ProfileView>, some: int)
    requires
        0 <= some < views.len(),
        views[some].active,
    ensures
        exists|at: int| session::first_active(views, at),
    decreases some,
{
    if exists|i: int| 0 <= i < some && (#[trigger] views[i]).active {
        let i = choose|i: int| 0 <= i < some && (#[trigger] views[i]).active;
        lemma_first_active(views, i);
    } else {
        assert(session::first_active(views, some));
    }
}

/// Profiles that were loaded, or not, result in what opens the menu for the device, or in the error.
pub proof fn law_profiles_result(
    address: String,
    name: String,
    outcome: Result<Vec<AudioProfile>, String>,
    result: DeviceOpResult,
)
    requires
        call_ensures(session::profiles_result, (address, name, outcome), result),
    ensures
        match (outcome, result) {
            (Ok(list), DeviceOpResult::ProfilesLoaded { address: a, name: n, profiles }) => a@
                == address@ && n@ == name@ && states::same_profiles(list@, profiles@),
            (Err(error), DeviceOpResult::Error { message }) => message@ == error@,
            _ => false,
        },
{
}

/// A switch of a profile is reported with the device and the profile, and an error as it is.
pub proof fn law_reports(session: &mut Session, result: DeviceOpResult, command: Option<Command>)
    requires
        call_ensures(Session::on_result, (session, result), command),
        result is ProfileSwitched || result is Error,
    ensures
        command is None,
        result matches DeviceOpResult::ProfileSwitched { name, profile } ==> says(
            final(session).app,
            "Switched "@ + name@ + " to "@ + profile@,
        ),
        result matches DeviceOpResult::Error { message } ==> says(final(session).app, message@),
        states::differ_only_in(*old(session), *final(session), set![Part::Status]),
{
    states::lemma_parts(old(session).app, final(session).app);
}

// ---------------------------------------------------------------------------------------------
// The adapter
// ---------------------------------------------------------------------------------------------

/// Once the power is reported on, the adapter is on, otherwise as it was, and its devices are fetched.
pub proof fn law_power_on(session: &mut Session, command: Option<Command>)
    requires
        call_ensures(Session::on_result, (session, DeviceOpResult::AdapterPoweredOn), command),
    ensures
        old(session).app.adapter matches Some(before) ==> (final(session).app.adapter matches Some(
            after,
        ) && states::same_adapter(AdapterInfo { powered: true, ..before }, after)),
        old(session).app.adapter is None ==> final(session).app.adapter is None,
        command == Some(Command::FetchDevices(Refresh::AdapterPoweredOn)),
        states::differ_only_in(*old(session), *final(session), set![Part::Adapter]),
{
    states::lemma_parts(old(session).app, final(session).app);
    if let Some(before) = old(session).app.adapter {
        assert(final(session).app@.adapter == Some(AdapterInfo { powered: true, ..before }@));
    }
}

/// Once the power is reported off, the adapter is off, otherwise as it was; the list is empty, nothing
/// is selected, no scan runs, and the status bar says so.
pub proof fn law_power_off(session: &mut Session, command: Option<Command>)
    requires
        call_ensures(Session::on_result, (session, DeviceOpResult::AdapterPoweredOff), command),
    ensures
        old(session).app.adapter matches Some(before) ==> (final(session).app.adapter matches Some(
            after,
        ) && states::same_adapter(AdapterInfo { powered: false, ..before }, after)),
        old(session).app.adapter is None ==> final(session).app.adapter is None,
        states::list_length(final(session).app) == 0,
        final(session).app.list_state == (ListState { offset: 0, selected: None }),
        !final(session).app.scanning,
        says(final(session).app, "Adapter powered off"@),
        command is None,
        states::differ_only_in(
            *old(session),
            *final(session),
            set![
                Part::Adapter,
                Part::Known,
                Part::Discovered,
                Part::Selection,
                Part::Scanning,
                Part::Status,
            ],
        ),
{
    states::lemma_parts(old(session).app, final(session).app);
    lemma_models(final(session).app.devices@);
    lemma_models(final(session).app.discovered_devices@);
    if let Some(before) = old(session).app.adapter {
        assert(final(session).app@.adapter == Some(AdapterInfo { powered: false, ..before }@));
    }
}

/// The power key alternates: the task that `o` asks for, once it has succeeded and that is reported,
/// has switched the adapter, and `o` then asks for the opposite.
pub proof fn law_power_alternates(
    first: &mut Session,
    reporting: &mut Session,
    second: &mut Session,
    key: KeyEvent,
    task: Task,
    asked: Option<Command>,
    result: DeviceOpResult,
    command: Option<Command>,
    again: Option<Command>,
)
    requires
        key.code == KeyCode::Char('o'),
        states::nothing_open(old(first).app),
        old(first).app.adapter is Some,
        call_ensures(Session::on_key, (first, key), asked),
        asked == Some(Command::Run(task)),
        call_ensures(Task::finish, (task, Ok::<(), String>(())), result),
        *old(reporting) == *final(first),
        call_ensures(Session::on_result, (reporting, result), command),
        *old(second) == *final(reporting),
        call_ensures(Session::on_key, (second, key), again),
    ensures
        final(reporting).app.adapter matches Some(adapter) && adapter.powered
            == !old(first).app.adapter->0.powered,
        old(first).app.adapter->0.powered ==> task is PowerOff && again == Some(
            Command::Run(Task::PowerOn),
        ),
        !old(first).app.adapter->0.powered ==> task is PowerOn && again == Some(
            Command::Run(Task::PowerOff),
        ),
{
    key_laws::law_power_key(first, key, asked);
    law_success_fits_the_task(task, result);
    assert(states::same_part(old(first).app, final(first).app, Part::Adapter));
    assert(states::same_part(old(first).app, final(first).app, Part::Prompt));
    assert(states::same_part(old(first).app, final(first).app, Part::Menu));
    assert(states::same_part(old(first).app, final(first).app, Part::Confirm));
    assert(states::same_part(old(first).app, final(first).app, Part::Detail));
    assert(states::same_part(old(first).app, final(first).app, Part::Help));
    if old(first).app.adapter->0.powered {
        assert(result is AdapterPoweredOff);
        law_power_off(reporting, command);
    } else {
        assert(result is AdapterPoweredOn);
        law_power_on(reporting, command);
    }
    assert(states::same_part(old(reporting).app, final(reporting).app, Part::Prompt));
    assert(states::same_part(old(reporting).app, final(reporting).app, Part::Menu));
    assert(states::same_part(old(reporting).app, final(reporting).app, Part::Confirm));
    assert(states::same_part(old(reporting).app, final(reporting).app, Part::Detail));
    assert(states::same_part(old(reporting).app, final(reporting).app, Part::Help));
    key_laws::law_power_key(second, key, again);
}

/// An adapter that was found is the adapter from then on, and its devices are fetched.
pub proof fn law_found_adapter_is_used(
    session: &mut Session,
    result: DeviceOpResult,
    command: Option<Command>,
)
    requires
        call_ensures(Session::on_result, (session, result), command),
        result is AdapterFound,
    ensures
        final(session).app.adapter matches Some(adapter) && states::same_adapter(
            adapter,
            result->AdapterFound_adapter,
        ),
        command == Some(Command::FetchDevices(Refresh::AdapterFound)),
        states::differ_only_in(*old(session), *final(session), set![Part::Adapter]),
{
    states::lemma_parts(old(session).app, final(session).app);
    assert(final(session).app@.adapter == Some(result->AdapterFound_adapter@));
}

/// A search results in the adapter that is there, and in nothing otherwise.
pub proof fn law_search_result(
    answer: Result<Option<AdapterInfo>, zbus::Error>,
    result: Option<DeviceOpResult>,
)
    requires
        call_ensures(session::probe_result, (answer,), result),
    ensures
        answer matches Ok(Some(adapter)) ==> (result matches Some(
            DeviceOpResult::AdapterFound { adapter: found },
        ) && states::same_adapter(adapter, found)),
        !(answer matches Ok(Some(_))) ==> result is None,
{
}

/// Devices that were fetched are the known devices from then on, in the order they came in, and the
/// first is selected if nothing was; where they could not be fetched the list stays as it is.
pub proof fn law_fetched_devices_are_listed(
    session: &mut Session,
    refresh: Refresh,
    devices: Option<Vec<DeviceInfo>>,
    command: Option<Command>,
)
    requires
        call_ensures(Session::on_devices, (session, refresh, devices), command),
    ensures
        devices matches Some(list) ==> states::same_devices(list@, final(session).app.devices@),
        devices matches Some(list) && list@.len() > 0 && old(session).app.list_state.selected is None
            ==> final(session).app.list_state.selected == Some(0usize),
        final(session).app.list_state.offset == old(session).app.list_state.offset,
        old(session).app.list_state.selected is Some ==> final(session).app.list_state == old(session).app.list_state,
        devices is None ==> states::same_part(old(session).app, final(session).app, Part::Known)
            && final(session).app.list_state == old(session).app.list_state,
        states::differ_only_in(
            *old(session),
            *final(session),
            set![Part::Known, Part::Selection, Part::Status],
        ),
{
    states::lemma_parts(old(session).app, final(session).app);
    if let Some(list) = devices {
        lemma_models(list@);
        states::lemma_same_devices(list@, final(session).app.devices@);
    }
}

/// With a new adapter the pairing agent is registered unless it is already; what is reached is said
/// in the status bar.
pub proof fn law_fetching_goes_on(
    session: &mut Session,
    refresh: Refresh,
    devices: Option<Vec<DeviceInfo>>,
    command: Option<Command>,
)
    requires
        call_ensures(Session::on_devices, (session, refresh, devices), command),
    ensures
        refresh == Refresh::AdapterFound && !old(session).agent_registered ==> command == Some(
            Command::RegisterAgent,
        ) && states::same_part(old(session).app, final(session).app, Part::Status),
        refresh == Refresh::AdapterFound && old(session).agent_registered ==> command is None
            && says(final(session).app, "Adapter found"@),
        refresh == Refresh::AdapterPoweredOn ==> command is None && says(
            final(session).app,
            "Adapter powered on"@,
        ),
{
    states::lemma_parts(old(session).app, final(session).app);
}

/// The agent counts as registered once it is, and the adapter is then reported.
pub proof fn law_agent_registration(session: &mut Session, registered: bool)
    requires
        call_ensures(Session::on_agent_registered, (session, registered), ()),
    ensures
        final(session).agent_registered == (old(session).agent_registered || registered),
        final(session).adapter_retry_counter == old(session).adapter_retry_counter,
        says(final(session).app, "Adapter found"@),
        forall|part: Part|
            part != Part::Status ==> #[trigger] states::same_part(
                old(session).app,
                final(session).app,
                part,
            ),
{
    states::lemma_parts(old(session).app, final(session).app);
}

/// Each tick without an adapter counts, and the twentieth searches for one and counts anew; with an
/// adapter no tick does anything. Nothing else depends on the clock.
pub proof fn law_ticks(session: &mut Session, probe: bool)
    requires
        call_ensures(Session::on_tick, (session,), probe),
        old(session).adapter_retry_counter < 20,
    ensures
        old(session).app.adapter is Some ==> !probe && final(session).adapter_retry_counter == old(session).adapter_retry_counter,
        old(session).app.adapter is None ==> final(session).adapter_retry_counter < 20 && (final(session).adapter_retry_counter == (old(session).adapter_retry_counter + 1) % 20) && (probe
            <==> final(session).adapter_retry_counter == 0),
        final(session).agent_registered == old(session).agent_registered,
        forall|part: Part| #[trigger]
            states::same_part(old(session).app, final(session).app, part),
{
    states::lemma_parts(old(session).app, final(session).app);
}

} // verus!

//! What holds of the library as a whole, for every state and every input.
use vstd::prelude::*;

use crate::agent;
use crate::agent::{AgentRequest, PromptView, ReplyView};
use crate::app;
use crate::app::{AppView, ConfirmType, ListState, MenuView};
use crate::audio;
use crate::audio::ProfileView;
use crate::bluetooth;
use crate::bluetooth::{AdapterView, DeviceView};
use crate::keys::{Action, KeyCode, KeyEvent};
use crate::number;
use crate::session;
use crate::session::{CommandView, DeviceOpResult, Refresh, SessionView, TaskView};
use crate::text;

verus! {

// ---------------------------------------------------------------------------------------------
// Keys
// ---------------------------------------------------------------------------------------------

/// Something lies over the device list.
pub open spec fn overlaid(app: AppView) -> bool {
    app.agent_prompt is Some || app.profile_menu is Some || app.pending_confirm is Some
        || app.show_detail || app.show_help
}

/// A key press changes nothing but the prompt, the menu, the selection and whether the program runs
/// on.
pub proof fn law_keys_keep_the_rest(app: AppView, key: KeyEvent)
    ensures
        app::pressed(app, key).0 == (AppView {
            agent_prompt: app::pressed(app, key).0.agent_prompt,
            profile_menu: app::pressed(app, key).0.profile_menu,
            list_state: app::pressed(app, key).0.list_state,
            running: app::pressed(app, key).0.running,
            ..app
        }),
{
}

/// While something lies over the device list, no key quits and none moves the selection.
pub proof fn law_overlays_block_keys(app: AppView, key: KeyEvent)
    requires
        overlaid(app),
    ensures
        app::pressed(app, key).0.running == app.running,
        app::pressed(app, key).0.list_state == app.list_state,
{
}

/// What a key asks for while something lies over the device list concerns the thing on top: an
/// answer to the agent, a choice of a profile, an answer to a confirmation, or to close a view.
pub proof fn law_overlays_take_keys(app: AppView, key: KeyEvent)
    requires
        overlaid(app),
        app::pressed(app, key).1 != Action::Nothing,
    ensures
        match app::pressed(app, key).1 {
            Action::AgentSubmit => app.agent_prompt is Some,
            Action::AgentCancel => app.agent_prompt is Some,
            Action::SelectProfile => app.profile_menu is Some && app.agent_prompt is None,
            Action::CloseProfiles => app.profile_menu is Some && app.agent_prompt is None,
            Action::ConfirmUnpair => app.pending_confirm is Some,
            Action::ConfirmUntrust => app.pending_confirm is Some,
            Action::CancelConfirm => app.pending_confirm is Some,
            Action::CloseDetail => app.show_detail,
            Action::CloseHelp => app.show_help,
            _ => false,
        },
{
}

/// The program stops running on a key if and only if the key quits and nothing lies over the list.
pub proof fn law_quitting(app: AppView, key: KeyEvent)
    requires
        app.running,
    ensures
        !app::pressed(app, key).0.running <==> app::quits(key) && !overlaid(app),
{
}

/// Without an adapter the list knows no action but to show the help.
pub proof fn law_no_adapter_no_action(app: AppView, key: KeyEvent)
    requires
        app.adapter is None,
        !overlaid(app),
    ensures
        app::pressed(app, key).1 == Action::Nothing || app::pressed(app, key).1
            == Action::ToggleHelp,
        app::pressed(app, key).0.list_state == app.list_state,
{
}

// ---------------------------------------------------------------------------------------------
// Navigation
// ---------------------------------------------------------------------------------------------

/// A device is selected, and it is one of the list; or there is none to select.
pub open spec fn in_range(app: AppView) -> bool {
    match app.list_state.selected {
        Some(index) => index < app.total(),
        None => app.total() == 0,
    }
}

/// Going down and up again, or up and down again, comes back.
pub proof fn law_down_and_up(app: AppView)
    requires
        in_range(app),
        app.countable(),
    ensures
        app.select_next().select_previous() == app,
        app.select_previous().select_next() == app,
{
}

/// The selection after going down `n` times.
pub open spec fn after_downs(app: AppView, n: nat) -> AppView
    decreases n,
{
    if n == 0 {
        app
    } else {
        after_downs(app, (n - 1) as nat).select_next()
    }
}

/// Going down walks the list in order and starts over at its end.
pub proof fn law_downs_walk_the_list(app: AppView, n: nat)
    requires
        app.list_state.selected is Some,
        in_range(app),
        app.countable(),
    ensures
        after_downs(app, n) == app.selecting(
            Some(((app.list_state.selected->0 + n) % (app.total() as int)) as usize),
        ),
    decreases n,
{
    let start = app.list_state.selected->0 as int;
    let total = app.total() as int;
    if n == 0 {
        vstd::arithmetic::div_mod::lemma_small_mod(start as nat, total as nat);
    } else {
        law_downs_walk_the_list(app, (n - 1) as nat);
        let before = after_downs(app, (n - 1) as nat);
        let index = (start + (n - 1)) % total;
        vstd::arithmetic::div_mod::lemma_mod_bound(start + (n - 1), total);
        assert(before.list_state.selected == Some(index as usize));
        vstd::arithmetic::div_mod::lemma_add_mod_noop(start + (n - 1), 1, total);
        if total == 1 {
            vstd::arithmetic::div_mod::lemma_mod_bound(start + n, total);
        } else {
            vstd::arithmetic::div_mod::lemma_small_mod(1, total as nat);
            if index + 1 < total {
                vstd::arithmetic::div_mod::lemma_small_mod((index + 1) as nat, total as nat);
            } else {
                vstd::arithmetic::div_mod::lemma_mod_self_0(total);
            }
        }
        assert((start + n) % total == if index + 1 < total {
            index + 1
        } else {
            0
        });
    }
}

/// Going down as many times as there are devices comes back.
pub proof fn law_downs_come_round(app: AppView)
    requires
        app.list_state.selected is Some,
        in_range(app),
        app.countable(),
    ensures
        after_downs(app, app.total()) == app,
{
    law_downs_walk_the_list(app, app.total());
    let start = app.list_state.selected->0 as int;
    vstd::arithmetic::div_mod::lemma_mod_add_multiples_vanish(start, app.total() as int);
    vstd::arithmetic::div_mod::lemma_small_mod(start as nat, app.total());
}

/// Every device can be reached by going down.
pub proof fn law_every_device_reachable(app: AppView, index: usize) -> (n: nat)
    requires
        app.list_state.selected is Some,
        in_range(app),
        app.countable(),
        index < app.total(),
    ensures
        after_downs(app, n).selected_device() == Some(app.all_devices()[index as int]),
{
    let start = app.list_state.selected->0 as int;
    let n: nat = if index >= start {
        (index - start) as nat
    } else {
        (index - start + app.total()) as nat
    };
    law_downs_walk_the_list(app, n);
    vstd::arithmetic::div_mod::lemma_small_mod(index as nat, app.total());
    if index < start {
        vstd::arithmetic::div_mod::lemma_mod_add_multiples_vanish(index as int, app.total() as int);
        assert(start + n == app.total() + index);
    }
    n
}

/// Where the selection is in range, a device is selected unless the list is empty.
pub proof fn law_in_range_selects(app: AppView)
    requires
        in_range(app),
    ensures
        app.selected_device() is None <==> app.total() == 0,
{
}

/// The selection is in range at the start.
pub proof fn law_start_in_range(adapter: Option<AdapterView>, devices: Seq<DeviceView>)
    ensures
        in_range(app::started(adapter, devices)),
{
}

/// A key press keeps the selection in range.
pub proof fn law_keys_keep_range(app: AppView, key: KeyEvent)
    requires
        in_range(app),
        app.countable(),
    ensures
        in_range(app::pressed(app, key).0),
{
}

/// The action of a key press keeps the selection in range.
pub proof fn law_actions_keep_range(app: AppView, action: Action)
    requires
        in_range(app),
    ensures
        in_range(session::performed(app, action).0),
{
}

/// A discovered device keeps the selection in range.
pub proof fn law_discovery_keeps_range(app: AppView, device: DeviceView)
    requires
        in_range(app),
    ensures
        in_range(app.discovering(device)),
{
}

/// The end of a scan keeps the selection in range.
pub proof fn law_scan_end_keeps_range(app: AppView)
    requires
        in_range(app),
        app.countable(),
    ensures
        in_range(app.without_discovered()),
{
}

/// The result of an operation keeps the selection in range.
pub proof fn law_results_keep_range(app: AppView, result: DeviceOpResult)
    requires
        in_range(app),
        app.countable(),
    ensures
        in_range(session::resulted(app, result).0),
{
    match result {
        DeviceOpResult::Paired { address, .. } => {
            lemma_place_found(app.devices, address@);
            lemma_place_found(app.discovered_devices, address@);
        },
        DeviceOpResult::Unpaired { address, .. } => {
            app::lemma_filter_shorter(app.devices, |d: DeviceView| d.address != address@);
        },
        _ => {},
    }
}

/// A request of the agent keeps the selection in range.
pub proof fn law_requests_keep_range(app: AppView, request: AgentRequest)
    requires
        in_range(app),
    ensures
        in_range(session::requested(app, request).0),
{
}

/// Known devices that are fetched anew keep the selection in range, unless there are so few of them
/// that the selected place is gone.
pub proof fn law_refresh_keeps_range(app: AppView, devices: Seq<DeviceView>)
    requires
        in_range(app),
        app.list_state.selected matches Some(index) ==> index < devices.len()
            + app.discovered_devices.len(),
    ensures
        in_range(session::refreshed(app, devices)),
{
}

/// The place that is found for an address is the first with that address.
proof fn lemma_place_found(devices: Seq<DeviceView>, address: Seq<char>)
    ensures
        app::place_of(devices, address) matches Some(at) ==> app::first_with(devices, address, at),
        app::place_of(devices, address) is None ==> !app::has_address(devices, address),
{
    if app::has_address(devices, address) {
        lemma_first_place(devices, address, devices.len() as int);
    }
}

/// An address that occurs has a first place.
proof fn lemma_first_place(devices: Seq<DeviceView>, address: Seq<char>, n: int)
    requires
        0 <= n <= devices.len(),
        exists|i: int| 0 <= i < n && (#[trigger] devices[i]).address == address,
    ensures
        exists|at: int| app::first_with(devices, address, at),
    decreases n,
{
    if exists|i: int| 0 <= i < n - 1 && (#[trigger] devices[i]).address == address {
        lemma_first_place(devices, address, n - 1);
    } else {
        assert(app::first_with(devices, address, n - 1));
    }
}

// ---------------------------------------------------------------------------------------------
// Devices
// ---------------------------------------------------------------------------------------------

/// No two devices of the list have the same address.
pub open spec fn distinct(devices: Seq<DeviceView>) -> bool {
    forall|i: int, j: int|
        0 <= i < j < devices.len() ==> (#[trigger] devices[i]).address != (
        #[trigger] devices[j]).address
}

/// A discovered device is on the list afterwards, and no address is there twice because of it.
pub proof fn law_discovery_deduplicates(app: AppView, device: DeviceView)
    requires
        distinct(app.all_devices()),
    ensures
        distinct(app.discovering(device).all_devices()),
        app::has_address(app.discovering(device).all_devices(), device.address),
{
    let all = app.all_devices();
    if app::has_address(app.devices, device.address) {
        let i = choose|i: int|
            0 <= i < app.devices.len() && (#[trigger] app.devices[i]).address == device.address;
        assert(all[i].address == device.address);
    } else if app::has_address(app.discovered_devices, device.address) {
        let i = choose|i: int|
            0 <= i < app.discovered_devices.len() && (
            #[trigger] app.discovered_devices[i]).address == device.address;
        assert(all[app.devices.len() + i].address == device.address);
    } else {
        let new = app.discovering(device).all_devices();
        assert(new =~= all.push(device));
        assert(new[all.len() as int].address == device.address);
        assert forall|i: int| 0 <= i < all.len() implies (#[trigger] all[i]).address
            != device.address by {
            if i < app.devices.len() {
                assert(all[i] == app.devices[i]);
            } else {
                assert(all[i] == app.discovered_devices[i - app.devices.len()]);
            }
        }
    }
}

/// Discovering a device a second time changes nothing, whatever else is said of it then.
pub proof fn law_discovery_idempotent(app: AppView, device: DeviceView, again: DeviceView)
    requires
        again.address == device.address,
    ensures
        app.discovering(device).discovering(again) == app.discovering(device),
{
    let found = app.discovering(device);
    if found != app {
        assert(found.discovered_devices[app.discovered_devices.len() as int] == device);
        assert(app::has_address(found.discovered_devices, again.address));
    }
}

/// Pairing a device that was discovered moves it to the known devices: the list keeps its length and
/// its addresses, and the device is paired.
pub proof fn law_pairing_moves(app: AppView, address: Seq<char>)
    requires
        distinct(app.all_devices()),
        app::has_address(app.all_devices(), address),
    ensures
        app.with_paired(address).total() == app.total(),
        distinct(app.with_paired(address).all_devices()),
        app::place_of(app.with_paired(address).devices, address) matches Some(at)
            && app.with_paired(address).devices[at].paired,
        !app::has_address(app.with_paired(address).discovered_devices, address),
{
    lemma_place_found(app.devices, address);
    lemma_place_found(app.discovered_devices, address);
    let all = app.all_devices();
    let new = app.with_paired(address);
    lemma_place_found(new.devices, address);
    lemma_place_found(new.discovered_devices, address);
    let known = app.devices.len();
    match app::place_of(app.devices, address) {
        Some(at) => {
            assert(new.all_devices().len() == all.len());
            assert forall|i: int| 0 <= i < all.len() implies (
            #[trigger] new.all_devices()[i]).address == all[i].address by {}
            assert(new.devices[at].address == address);
            assert(app::has_address(new.devices, address));
            let found = app::place_of(new.devices, address)->0;
            assert(new.all_devices()[found].address == all[found].address);
            assert(all[found].address == all[at].address);
            assert(found == at);
            assert forall|i: int| 0 <= i < app.discovered_devices.len() implies (
            #[trigger] app.discovered_devices[i]).address != address by {
                assert(all[known + i] == app.discovered_devices[i]);
                assert(all[at].address == address);
            }
        },
        None => {
            let i = choose|i: int| 0 <= i < all.len() && (#[trigger] all[i]).address == address;
            if i < known {
                assert(app.devices[i].address == address);
                assert(app::has_address(app.devices, address));
            } else {
                assert(app.discovered_devices[i - known].address == address);
                assert(app::has_address(app.discovered_devices, address));
            }
            let at = app::place_of(app.discovered_devices, address)->0;
            let moved = new.devices[known as int];
            assert(moved.address == address);
            assert(app::has_address(new.devices, address));
            let found = app::place_of(new.devices, address)->0;
            if found < known {
                assert(app.devices[found].address == address);
                assert(app::has_address(app.devices, address));
            }
            assert forall|j: int| 0 <= j < new.discovered_devices.len() implies (
            #[trigger] new.discovered_devices[j]).address != address by {
                let source = if j < at {
                    j
                } else {
                    j + 1
                };
                assert(new.discovered_devices[j] == app.discovered_devices[source]);
                assert(all[known + source] == app.discovered_devices[source]);
                assert(all[known + at] == app.discovered_devices[at]);
            }
            assert forall|j: int, k: int| 0 <= j < k < new.all_devices().len() implies (
            #[trigger] new.all_devices()[j]).address != (
            #[trigger] new.all_devices()[k]).address by {
                let j1 = lemma_pairing_source(app, address, at, j);
                let k1 = lemma_pairing_source(app, address, at, k);
                assert(j1 != k1);
            }
        },
    }
}

/// Where a device of the list stood before the discovered device at `at` was paired.
proof fn lemma_pairing_source(app: AppView, address: Seq<char>, at: int, j: int) -> (source: int)
    requires
        app::place_of(app.devices, address) is None,
        app::place_of(app.discovered_devices, address) == Some(at),
        app::first_with(app.discovered_devices, address, at),
        0 <= j < app.total(),
    ensures
        0 <= source < app.total(),
        app.with_paired(address).all_devices()[j].address == app.all_devices()[source].address,
        source == if j < app.devices.len() {
            j
        } else if j == app.devices.len() {
            app.devices.len() + at
        } else if j - 1 < app.devices.len() + at {
            j - 1
        } else {
            j
        },
{
    let known = app.devices.len() as int;
    let new = app.with_paired(address);
    let source = if j < known {
        j
    } else if j == known {
        known + at
    } else if j - 1 < known + at {
        j - 1
    } else {
        j
    };
    if j < known {
        assert(new.all_devices()[j] == app.devices[j]);
        assert(app.all_devices()[j] == app.devices[j]);
    } else if j == known {
        assert(new.all_devices()[j] == new.devices[known]);
        assert(app.all_devices()[known + at] == app.discovered_devices[at]);
    } else {
        assert(new.all_devices()[j] == new.discovered_devices[j - known - 1]);
        assert(app.all_devices()[source] == app.discovered_devices[source - known]);
    }
    source
}

/// After unpairing, no known device has the address, and every other known device is kept.
pub proof fn law_unpairing_forgets(app: AppView, address: Seq<char>, device: DeviceView)
    ensures
        !app::has_address(app.without_known(address).devices, address),
        device.address != address ==> (app.without_known(address).devices.contains(device)
            <==> app.devices.contains(device)),
        app.without_known(address).discovered_devices == app.discovered_devices,
{
    let keep = |d: DeviceView| d.address != address;
    lemma_filter_members(app.devices, keep);
    let left = app.devices.filter(keep);
    assert forall|i: int| 0 <= i < left.len() implies (#[trigger] left[i]).address != address by {
        assert(keep(left[i]));
    }
    if app.devices.contains(device) && device.address != address {
        assert(keep(device));
    }
    if left.contains(device) {
        let i = choose|i: int| 0 <= i < left.len() && left[i] == device;
        assert(app.devices.contains(left[i]));
    }
}

/// What a selection of a list holds: what the list holds and the condition admits.
proof fn lemma_filter_members(list: Seq<DeviceView>, keep: spec_fn(DeviceView) -> bool)
    ensures
        forall|i: int|
            0 <= i < list.filter(keep).len() ==> keep(#[trigger] list.filter(keep)[i])
                && list.contains(list.filter(keep)[i]),
        forall|d: DeviceView| #[trigger] list.contains(d) && keep(d) ==> list.filter(keep).contains(d),
    decreases list.len(),
{
    reveal(Seq::filter);
    if list.len() > 0 {
        let before = list.drop_last();
        lemma_filter_members(before, keep);
        let left = list.filter(keep);
        assert forall|i: int| 0 <= i < left.len() implies keep(#[trigger] left[i])
            && list.contains(left[i]) by {
            if i < before.filter(keep).len() {
                assert(left[i] == before.filter(keep)[i]);
                let k = choose|k: int| 0 <= k < before.len() && before[k] == left[i];
                assert(list[k] == left[i]);
            } else {
                assert(list[list.len() - 1] == left[i]);
            }
        }
        assert forall|d: DeviceView| #[trigger] list.contains(d) && keep(d) implies left.contains(
            d,
        ) by {
            let k = choose|k: int| 0 <= k < list.len() && list[k] == d;
            if k < before.len() {
                assert(before[k] == d);
                assert(before.contains(d));
                let i = choose|i: int| 0 <= i < before.filter(keep).len() && before.filter(keep)[i]
                    == d;
                assert(left[i] == d);
            } else {
                assert(left[left.len() - 1] == d);
            }
        }
    }
}

/// An update of a device that is not known changes nothing.
pub proof fn law_unknown_address_changes_nothing(app: AppView, address: Seq<char>, flag: bool)
    requires
        !app::has_address(app.devices, address),
    ensures
        app.with_connected(address, flag) == app,
        app.with_trusted(address, flag) == app,
        !app::has_address(app.discovered_devices, address) ==> app.with_paired(address) == app,
{
    if app::place_of(app.devices, address) is Some {
        let at = choose|at: int| app::first_with(app.devices, address, at);
        assert(app.devices[at].address == address);
    }
    if app::place_of(app.discovered_devices, address) is Some {
        let at = choose|at: int| app::first_with(app.discovered_devices, address, at);
        assert(app.discovered_devices[at].address == address);
    }
}

/// Of two updates of the connection of a device the later one counts.
pub proof fn law_last_connection_counts(app: AppView, address: Seq<char>, first: bool, last: bool)
    ensures
        app.with_connected(address, first).with_connected(address, last) == app.with_connected(
            address,
            last,
        ),
{
    lemma_place_found(app.devices, address);
    lemma_place_kept(app.devices, app.with_connected(address, first).devices, address);
}

/// Of two updates of the trust in a device the later one counts.
pub proof fn law_last_trust_counts(app: AppView, address: Seq<char>, first: bool, last: bool)
    ensures
        app.with_trusted(address, first).with_trusted(address, last) == app.with_trusted(
            address,
            last,
        ),
{
    lemma_place_found(app.devices, address);
    lemma_place_kept(app.devices, app.with_trusted(address, first).devices, address);
}

/// Where the addresses of a list stay as they are, each keeps its place.
proof fn lemma_place_kept(before: Seq<DeviceView>, after: Seq<DeviceView>, address: Seq<char>)
    requires
        before.len() == after.len(),
        forall|i: int|
            #![trigger before[i]]
            #![trigger after[i]]
            0 <= i < before.len() ==> before[i].address == after[i].address,
    ensures
        app::place_of(after, address) == app::place_of(before, address),
{
    assert forall|at: int|
        #![trigger app::first_with(before, address, at)]
        #![trigger app::first_with(after, address, at)]
        app::first_with(before, address, at) == app::first_with(after, address, at) by {}
    if let Some(at) = app::place_of(before, address) {
        assert(app::first_with(before, address, at));
        let other = app::place_of(after, address)->0;
        assert(app::first_with(after, address, other));
    }
}

/// The end of a scan forgets the discovered devices and keeps the known ones.
pub proof fn law_scan_end_keeps_known(app: AppView)
    ensures
        app.without_discovered().devices == app.devices,
        app.without_discovered().total() == app.devices.len(),
{
}

/// Switching the adapter off leaves nothing: no device, no selection, no scan.
pub proof fn law_power_off_clears(app: AppView)
    ensures
        ({
            let off = session::resulted(app, DeviceOpResult::AdapterPoweredOff).0;
            &&& off.total() == 0
            &&& off.list_state == (ListState { offset: 0, selected: None })
            &&& !off.scanning
            &&& off.adapter matches Some(adapter) ==> !adapter.powered
        }),
{
}

// ---------------------------------------------------------------------------------------------
// Confirmations
// ---------------------------------------------------------------------------------------------

/// What a key press asks the event loop to do, all told.
pub open spec fn asked(app: AppView, key: KeyEvent) -> Option<CommandView> {
    let (after, action) = app::pressed(app, key);
    session::performed(after, action).1
}

/// The state after a key press, all told.
pub open spec fn after_key(app: AppView, key: KeyEvent) -> AppView {
    let (after, action) = app::pressed(app, key);
    session::performed(after, action).0
}

/// A device is unpaired only on a `y` at the dialog that names it.
pub proof fn law_unpairing_is_confirmed(
    app: AppView,
    key: KeyEvent,
    address: Seq<char>,
    name: Seq<char>,
)
    requires
        asked(app, key) == Some(CommandView::Run(TaskView::Unpair { address, name })),
    ensures
        key.code == KeyCode::Char('y'),
        app.pending_confirm matches Some(confirm) && confirm.confirm_type == ConfirmType::Unpair
            && confirm.address == address && confirm.name == name,
        after_key(app, key).pending_confirm is None,
{
}

/// A device loses trust only on a `y` at the dialog that names it.
pub proof fn law_untrusting_is_confirmed(
    app: AppView,
    key: KeyEvent,
    address: Seq<char>,
    name: Seq<char>,
)
    requires
        asked(app, key) == Some(CommandView::Run(TaskView::Untrust { address, name })),
    ensures
        key.code == KeyCode::Char('y'),
        app.pending_confirm matches Some(confirm) && confirm.confirm_type == ConfirmType::Untrust
            && confirm.address == address && confirm.name == name,
        after_key(app, key).pending_confirm is None,
{
}

/// The list is ready for a key that concerns the selected device.
pub open spec fn ready(app: AppView, device: DeviceView) -> bool {
    !overlaid(app) && app.adapter is Some && app.selected_device() == Some(device)
}

/// `u` on a paired device asks first; `y` then unpairs that device, `n` and Esc come back to where
/// the list was.
pub proof fn law_unpair_dialog(app: AppView, device: DeviceView, modifiers: u8)
    requires
        ready(app, device),
        device.paired,
    ensures
        ({
            let u = KeyEvent { code: KeyCode::Char('u'), modifiers };
            let y = KeyEvent { code: KeyCode::Char('y'), modifiers };
            let n = KeyEvent { code: KeyCode::Char('n'), modifiers };
            let esc = KeyEvent { code: KeyCode::Esc, modifiers };
            &&& asked(app, u) is None
            &&& asked(after_key(app, u), y) == Some(
                CommandView::Run(
                    TaskView::Unpair { address: device.address, name: device.display_name() },
                ),
            )
            &&& asked(after_key(app, u), n) is None
            &&& after_key(after_key(app, u), n) == app
            &&& asked(after_key(app, u), esc) is None
            &&& after_key(after_key(app, u), esc) == app
        }),
{
}

/// `t` on a device that is paired and trusted asks first; `y` then withdraws the trust in that
/// device, `n` and Esc come back to where the list was.
pub proof fn law_untrust_dialog(app: AppView, device: DeviceView, modifiers: u8)
    requires
        ready(app, device),
        device.paired,
        device.trusted,
    ensures
        ({
            let t = KeyEvent { code: KeyCode::Char('t'), modifiers };
            let y = KeyEvent { code: KeyCode::Char('y'), modifiers };
            let n = KeyEvent { code: KeyCode::Char('n'), modifiers };
            let esc = KeyEvent { code: KeyCode::Esc, modifiers };
            &&& asked(app, t) is None
            &&& asked(after_key(app, t), y) == Some(
                CommandView::Run(
                    TaskView::Untrust { address: device.address, name: device.display_name() },
                ),
            )
            &&& asked(after_key(app, t), n) is None
            &&& after_key(after_key(app, t), n) == app
            &&& asked(after_key(app, t), esc) is None
            &&& after_key(after_key(app, t), esc) == app
        }),
{
}

/// The keys that open the help and the details close them again.
pub proof fn law_views_open_and_close(app: AppView, device: DeviceView, modifiers: u8)
    requires
        ready(app, device),
    ensures
        ({
            let help = KeyEvent { code: KeyCode::Char('?'), modifiers };
            let details = KeyEvent { code: KeyCode::Char('i'), modifiers };
            &&& after_key(app, help).show_help
            &&& after_key(after_key(app, help), help) == app
            &&& after_key(app, details).show_detail
            &&& after_key(after_key(app, details), details) == app
        }),
{
}

/// Esc closes what lies on top, and nothing else: the prompt, the menu, the dialog, the details or
/// the help.
pub proof fn law_escape_closes_the_top(app: AppView, modifiers: u8)
    requires
        overlaid(app),
    ensures
        after_key(app, KeyEvent { code: KeyCode::Esc, modifiers }) == if app.agent_prompt is Some {
            AppView { agent_prompt: None, ..app }
        } else if app.profile_menu is Some {
            AppView { profile_menu: None, ..app }
        } else if app.pending_confirm is Some {
            AppView { pending_confirm: None, ..app }
        } else if app.show_detail {
            AppView { show_detail: false, ..app }
        } else {
            AppView { show_help: false, ..app }
        },
{
}

/// A device is connected, disconnected, paired or trusted only if its state calls for it: a paired
/// device that is not connected, one that is, one that is not paired, a paired one without trust.
pub proof fn law_work_suits_the_device(app: AppView, key: KeyEvent)
    ensures
        match asked(app, key) {
            Some(CommandView::Run(TaskView::Connect { address, name })) => ({
                &&& app.selected_device() matches Some(d)
                &&& d.paired && !d.connected && d.address == address && d.display_name() == name
            }),
            Some(CommandView::Run(TaskView::Disconnect { address, name })) => ({
                &&& app.selected_device() matches Some(d)
                &&& d.paired && d.connected && d.address == address && d.display_name() == name
            }),
            Some(CommandView::Run(TaskView::Pair { address, name })) => ({
                &&& app.selected_device() matches Some(d)
                &&& !d.paired && d.address == address && d.display_name() == name
            }),
            Some(CommandView::Run(TaskView::Trust { address, name })) => ({
                &&& app.selected_device() matches Some(d)
                &&& d.paired && !d.trusted && d.address == address && d.display_name() == name
            }),
            Some(CommandView::LoadProfiles { address, name }) => ({
                &&& app.selected_device() matches Some(d)
                &&& d.connected && d.has_audio_profiles() && d.address == address
                    && d.display_name() == name
            }),
            Some(CommandView::Run(TaskView::PowerOff)) => app.adapter matches Some(a) && a.powered,
            Some(CommandView::Run(TaskView::PowerOn)) => app.adapter matches Some(a) && !a.powered,
            Some(CommandView::StartDiscovery) => !app.scanning,
            Some(CommandView::StopDiscovery) => app.scanning,
            _ => true,
        },
{
}

/// Enter toggles: once a connection is reported for the selected device Enter asks to disconnect it,
/// and once its end is reported Enter asks to connect it.
pub proof fn law_enter_toggles_connection(
    app: AppView,
    device: DeviceView,
    connected: DeviceOpResult,
    disconnected: DeviceOpResult,
    modifiers: u8,
)
    requires
        ready(app, device),
        device.paired,
        app.list_state.selected->0 < app.devices.len(),
        distinct(app.all_devices()),
        connected matches DeviceOpResult::Connected { address, .. } && address@ == device.address,
        disconnected matches DeviceOpResult::Disconnected { address, .. } && address@
            == device.address,
    ensures
        ({
            let enter = KeyEvent { code: KeyCode::Enter, modifiers };
            let address = device.address;
            let name = device.display_name();
            &&& asked(session::resulted(app, connected).0, enter) == Some(
                CommandView::Run(TaskView::Disconnect { address, name }),
            )
            &&& asked(session::resulted(app, disconnected).0, enter) == Some(
                CommandView::Run(TaskView::Connect { address, name }),
            )
        }),
{
    let index = app.list_state.selected->0 as int;
    assert(app.all_devices()[index] == app.devices[index]);
    assert(app::first_with(app.devices, device.address, index)) by {
        assert forall|i: int| 0 <= i < index implies (#[trigger] app.devices[i]).address
            != device.address by {
            assert(app.all_devices()[i] == app.devices[i]);
        }
    }
    let at = app::place_of(app.devices, device.address)->0;
    assert(app::first_with(app.devices, device.address, at));
    assert(at == index);
}

// ---------------------------------------------------------------------------------------------
// The pairing agent
// ---------------------------------------------------------------------------------------------

/// An answer that grants what the agent asked for.
pub open spec fn grants(reply: ReplyView) -> bool {
    match reply {
        ReplyView::PinCode { answer, .. } => answer is Some,
        ReplyView::Passkey { answer, .. } => answer is Some,
        ReplyView::Decision { answer, .. } => answer,
    }
}

/// The agent is granted something only on Enter in an input field or `y` at a question, and nothing
/// but the open prompt is answered.
pub proof fn law_granting_takes_consent(app: AppView, key: KeyEvent, reply: ReplyView)
    requires
        asked(app, key) == Some(CommandView::Answer(reply)),
    ensures
        app.agent_prompt matches Some(prompt) && (agent::submitted(prompt) == Some(reply)
            || agent::cancelled(prompt) == Some(reply)),
        grants(reply) ==> match app.agent_prompt->0 {
            PromptView::PinCode { .. } => key.code == KeyCode::Enter,
            PromptView::Passkey { .. } => key.code == KeyCode::Enter,
            _ => key.code == KeyCode::Char('y'),
        },
{
}

/// A prompt that is called off grants nothing.
pub proof fn law_cancelling_grants_nothing(prompt: PromptView)
    ensures
        agent::cancelled(prompt) matches Some(reply) ==> !grants(reply),
{
}

/// A prompt is answered once: with the answer it is gone, and neither a key nor a cancellation
/// answers it again.
pub proof fn law_prompts_are_answered_once(app: AppView, key: KeyEvent, later: KeyEvent)
    requires
        asked(app, key) is Some,
        asked(app, key)->0 is Answer,
    ensures
        after_key(app, key).agent_prompt is None,
        asked(after_key(app, key), later) matches Some(command) ==> command !is Answer,
        session::requested(after_key(app, key), AgentRequest::Cancel).1 is None,
{
}

/// Backspace takes back the character that was typed.
pub proof fn law_backspace_undoes(input: Seq<char>, c: char)
    ensures
        agent::typed(agent::typed(input, KeyCode::Char(c)), KeyCode::Backspace) == input,
{
    assert(input.push(c).drop_last() =~= input);
}

/// The state after the keys of a text.
pub open spec fn after_typing(app: AppView, keys: Seq<char>, modifiers: u8) -> AppView
    decreases keys.len(),
{
    if keys.len() == 0 {
        app
    } else {
        after_key(
            after_typing(app, keys.drop_last(), modifiers),
            KeyEvent { code: KeyCode::Char(keys.last()), modifiers },
        )
    }
}

/// What is typed into the prompt for a PIN is what the agent gets.
pub proof fn law_pin_reaches_the_agent(
    app: AppView,
    request: AgentRequest,
    pin: Seq<char>,
    modifiers: u8,
)
    requires
        request is RequestPinCode,
        pin.len() > 0,
    ensures
        ({
            let asking = session::requested(app, request).0;
            let enter = KeyEvent { code: KeyCode::Enter, modifiers };
            asked(after_typing(asking, pin, modifiers), enter) == Some(
                CommandView::Answer(
                    ReplyView::PinCode { reply: request->RequestPinCode_reply, answer: Some(pin) },
                ),
            )
        }),
{
    let asking = session::requested(app, request).0;
    lemma_typing_fills(asking, asking.agent_prompt->0, pin, modifiers);
}

/// A prompt with a field for input, with `input` in that field.
spec fn with_input(prompt: PromptView, input: Seq<char>) -> PromptView {
    match prompt {
        PromptView::PinCode { device, reply, .. } => PromptView::PinCode { device, input, reply },
        PromptView::Passkey { device, reply, .. } => PromptView::Passkey { device, input, reply },
        _ => prompt,
    }
}

/// Typing fills the field of a prompt that has one.
proof fn lemma_typing_fills(app: AppView, prompt: PromptView, keys: Seq<char>, modifiers: u8)
    requires
        prompt is PinCode || prompt is Passkey,
        app.agent_prompt == Some(with_input(prompt, Seq::empty())),
    ensures
        after_typing(app, keys, modifiers).agent_prompt == Some(with_input(prompt, keys)),
    decreases keys.len(),
{
    if keys.len() > 0 {
        lemma_typing_fills(app, prompt, keys.drop_last(), modifiers);
        assert(keys.drop_last().push(keys.last()) =~= keys);
    } else {
        assert(keys =~= Seq::empty());
    }
}

/// A passkey that is typed as it is displayed is the one that the agent gets.
pub proof fn law_passkey_reaches_the_agent(
    app: AppView,
    request: AgentRequest,
    passkey: u32,
    modifiers: u8,
)
    requires
        request is RequestPasskey,
    ensures
        ({
            let asking = session::requested(app, request).0;
            let enter = KeyEvent { code: KeyCode::Enter, modifiers };
            let shown = number::zero_padded(number::decimal(passkey as nat), 6);
            asked(after_typing(asking, shown, modifiers), enter) == Some(
                CommandView::Answer(
                    ReplyView::Passkey {
                        reply: request->RequestPasskey_reply,
                        answer: Some(passkey),
                    },
                ),
            )
        }),
{
    let shown = number::zero_padded(number::decimal(passkey as nat), 6);
    let asking = session::requested(app, request).0;
    lemma_typing_fills(asking, asking.agent_prompt->0, shown, modifiers);
    law_numerals_are_read_back(passkey);
}

/// A numeral is read back as its number, with leading zeros or without.
pub proof fn law_numerals_are_read_back(n: u32)
    ensures
        number::denoted(number::decimal(n as nat)) == Some(n),
        number::denoted(number::zero_padded(number::decimal(n as nat), 6)) == Some(n),
{
    let digits = number::decimal(n as nat);
    lemma_decimal(n as nat);
    assert(digits[0] != '+') by {
        assert(number::is_digit(digits[0]));
    }
    if digits.len() < 6 {
        let zeros = (6 - digits.len()) as nat;
        lemma_leading_zeros(zeros, digits);
        let padded = number::zero_padded(digits, 6);
        assert(padded[0] == '0');
        assert(number::without_plus(padded) == padded);
    }
}

/// A numeral consists of digits, and they stand for the number.
proof fn lemma_decimal(n: nat)
    ensures
        number::decimal(n).len() > 0,
        number::all_digits(number::decimal(n)),
        number::value_of(number::decimal(n)) == n,
    decreases n,
{
    let digits = number::decimal(n);
    if n < 10 {
        assert(digits.drop_last() =~= Seq::empty());
        assert(number::value_of(digits.drop_last()) == 0);
        assert(number::digit_value(digits.last()) == n);
    } else {
        lemma_decimal(n / 10);
        assert(digits.drop_last() =~= number::decimal(n / 10));
        assert(number::digit_value(digits.last()) == n % 10);
        assert forall|i: int| 0 <= i < digits.len() implies number::is_digit(#[trigger] digits[i]) by {
            if i < digits.len() - 1 {
                assert(digits[i] == number::decimal(n / 10)[i]);
            }
        }
    }
}

/// Leading zeros change nothing.
proof fn lemma_leading_zeros(zeros: nat, digits: Seq<char>)
    requires
        number::all_digits(digits),
    ensures
        number::all_digits(Seq::new(zeros, |i: int| '0') + digits),
        number::value_of(Seq::new(zeros, |i: int| '0') + digits) == number::value_of(digits),
    decreases zeros + digits.len(),
{
    let all = Seq::new(zeros, |i: int| '0') + digits;
    assert forall|i: int| 0 <= i < all.len() implies number::is_digit(#[trigger] all[i]) by {
        if i >= zeros {
            assert(all[i] == digits[i - zeros]);
        }
    }
    if digits.len() > 0 {
        assert forall|i: int| 0 <= i < digits.drop_last().len() implies number::is_digit(
            #[trigger] digits.drop_last()[i],
        ) by {
            assert(number::is_digit(digits[i]));
        }
        lemma_leading_zeros(zeros, digits.drop_last());
        assert(all.drop_last() =~= Seq::new(zeros, |i: int| '0') + digits.drop_last());
    } else if zeros > 0 {
        let fewer = (zeros - 1) as nat;
        lemma_leading_zeros(fewer, digits);
        assert(all.drop_last() =~= Seq::new(fewer, |i: int| '0') + digits);
        assert(all.last() == '0');
    } else {
        assert(all =~= digits);
    }
}

// ---------------------------------------------------------------------------------------------
// Names on the bus and at the sound server
// ---------------------------------------------------------------------------------------------

/// Devices with different addresses have different object paths and different sound cards.
pub proof fn law_names_tell_devices_apart(a: Seq<char>, b: Seq<char>)
    requires
        !a.contains('_'),
        !b.contains('_'),
        a != b,
    ensures
        bluetooth::object_path(a) != bluetooth::object_path(b),
        audio::card_of(a) != audio::card_of(b),
{
    let ra = text::replaced(a, ':', '_');
    let rb = text::replaced(b, ':', '_');
    if ra == rb {
        assert(a.len() == ra.len() && b.len() == rb.len());
        assert forall|i: int| 0 <= i < a.len() implies a[i] == b[i] by {
            assert(ra[i] == rb[i]);
            assert(a.contains(a[i]) && b.contains(b[i]));
        }
        assert(a =~= b);
    }
    let path = "/org/bluez/hci0/dev_"@;
    let card = "bluez_card."@;
    assert((path + ra).skip(path.len() as int) =~= ra);
    assert((path + rb).skip(path.len() as int) =~= rb);
    assert((card + ra).skip(card.len() as int) =~= ra);
    assert((card + rb).skip(card.len() as int) =~= rb);
}

// ---------------------------------------------------------------------------------------------
// Audio profiles
// ---------------------------------------------------------------------------------------------

/// The profiles that are offered for a card: none is named "off", and exactly those are marked that
/// bear the name that the report gives as active.
pub proof fn law_offered_profiles(report: Seq<char>, card: Seq<char>, i: int)
    requires
        0 <= i < audio::card_profiles(report, card).len(),
    ensures
        audio::card_profiles(report, card)[i].name != "off"@,
        audio::card_profiles(report, card)[i].active <==> audio::card_profiles(report, card)[i].name
            == audio::scan_lines(audio::scan_start(), text::lines(report), card).active.unwrap_or(
            Seq::empty(),
        ),
{
    lemma_scan_skips_off(audio::scan_start(), text::lines(report), card, i);
}

/// No scan finds a profile named "off" that was not there before.
proof fn lemma_scan_skips_off(
    scan: audio::CardScan,
    report: Seq<Seq<char>>,
    card: Seq<char>,
    i: int,
)
    requires
        forall|j: int| 0 <= j < scan.found.len() ==> (#[trigger] scan.found[j]).0 != "off"@,
        0 <= i < audio::scan_lines(scan, report, card).found.len(),
    ensures
        audio::scan_lines(scan, report, card).found[i].0 != "off"@,
    decreases report.len(),
{
    if report.len() > 0 && scan.active is None {
        let next = audio::scan_line(scan, report[0], card);
        assert forall|j: int| 0 <= j < next.found.len() implies (#[trigger] next.found[j]).0
            != "off"@ by {
            if j < scan.found.len() {
                assert(next.found[j] == scan.found[j]);
            }
        }
        lemma_scan_skips_off(next, report.subrange(1, report.len() as int), card, i);
    }
}

/// A line of a report names the card.
pub open spec fn names_card(line: Seq<char>, card: Seq<char>) -> bool {
    text::has_text(line, "Name:"@) && text::has_text(line, card)
}

/// Some line of a report names the card.
pub open spec fn has_card(report: Seq<Seq<char>>, card: Seq<char>) -> bool {
    exists|i: int| 0 <= i < report.len() && names_card(#[trigger] report[i], card)
}

/// A report that does not name the card offers no profile for it.
pub proof fn law_absent_card_has_no_profiles(report: Seq<char>, card: Seq<char>)
    requires
        !has_card(text::lines(report), card),
    ensures
        audio::card_profiles(report, card).len() == 0,
{
    lemma_scan_without_card(text::lines(report), card);
}

/// What a report says before it names the card, of other cards for instance, does not change the
/// profiles that are offered.
pub proof fn law_earlier_cards_do_not_count(before: Seq<char>, report: Seq<char>, card: Seq<char>)
    requires
        before.len() > 0 ==> before.last() == '\n',
        !has_card(text::lines(before), card),
    ensures
        audio::card_profiles(before + report, card) == audio::card_profiles(report, card),
{
    text::lemma_lines_joined(before, report);
    lemma_scan_joined(audio::scan_start(), text::lines(before), text::lines(report), card);
    lemma_scan_without_card(text::lines(before), card);
}

/// What a report says after the active profile of the card, of other cards for instance, does not
/// change the profiles that are offered.
pub proof fn law_later_cards_do_not_count(report: Seq<char>, after: Seq<char>, card: Seq<char>)
    requires
        report.len() > 0 ==> report.last() == '\n',
        audio::scan_lines(audio::scan_start(), text::lines(report), card).active is Some,
    ensures
        audio::card_profiles(report + after, card) == audio::card_profiles(report, card),
{
    text::lemma_lines_joined(report, after);
    lemma_scan_joined(audio::scan_start(), text::lines(report), text::lines(after), card);
}

/// The profiles that the lines of a profile section describe, in order.
pub open spec fn profiles_listed(section: Seq<Seq<char>>) -> Seq<(Seq<char>, Seq<char>)>
    decreases section.len(),
{
    if section.len() == 0 {
        Seq::empty()
    } else {
        let earlier = profiles_listed(section.drop_last());
        match audio::listed_profile(section.last()) {
            Some(profile) => earlier.push(profile),
            None => earlier,
        }
    }
}

/// A line gives the active profile.
pub open spec fn gives_active(line: Seq<char>) -> bool {
    text::has_prefix(text::trimmed(line), "Active Profile:"@)
}

/// The name that a line gives as that of the active profile.
pub open spec fn active_name(line: Seq<char>) -> Seq<char> {
    let content = text::trimmed(line);
    text::trimmed(content.subrange("Active Profile:"@.len() as int, content.len() as int))
}

/// The report has a block of the card: the line `name` names it, the lines between `section` and
/// `active` are its profile section, indented or blank, and the line `active` gives the active
/// profile.
pub open spec fn has_block(
    report: Seq<Seq<char>>,
    card: Seq<char>,
    name: int,
    section: int,
    active: int,
) -> bool {
    &&& 0 <= name < section < active < report.len()
    &&& forall|i: int|
        0 <= i <= active ==> (names_card(#[trigger] report[i], card) <==> i == name)
    &&& forall|i: int|
        name < i <= active ==> !text::has_prefix(#[trigger] report[i], "Card #"@)
    &&& forall|i: int| name < i <= active ==> (gives_active(#[trigger] report[i]) <==> i == active)
    &&& forall|i: int|
        name < i <= section ==> (text::trimmed(#[trigger] report[i]) == "Profiles:"@ <==> i
            == section)
    &&& forall|i: int|
        section < i < active ==> audio::indented(#[trigger] report[i]) || text::trimmed(
            report[i],
        ).len() == 0
}

/// The profiles that are offered for a card are those that the lines of its profile section describe,
/// in order and no others, with those marked that bear the name of the active one.
pub proof fn law_blocks_are_read(
    report: Seq<char>,
    card: Seq<char>,
    name: int,
    section: int,
    active: int,
)
    requires
        has_block(text::lines(report), card, name, section, active),
    ensures
        audio::card_profiles(report, card) == profiles_listed(
            text::lines(report).subrange(section + 1, active),
        ).map_values(
            |p: (Seq<char>, Seq<char>)|
                ProfileView {
                    name: p.0,
                    description: p.1,
                    active: p.0 == active_name(text::lines(report)[active]),
                },
        ),
{
    let lines = text::lines(report);
    lemma_block_scanned(lines, card, name, section, active, active);
    lemma_scan_next(lines, card, active);
    let rest = lines.subrange(active + 1, lines.len() as int);
    assert(lines =~= lines.take(active + 1) + rest);
    lemma_scan_joined(audio::scan_start(), lines.take(active + 1), rest, card);
    assert(text::trimmed(lines[active]) != "Profiles:"@) by {
        reveal_strlit("Profiles:");
        reveal_strlit("Active Profile:");
    }
}

/// What a scan knows before the line `n` of a report with a block of the card.
pub proof fn lemma_block_scanned(
    report: Seq<Seq<char>>,
    card: Seq<char>,
    name: int,
    section: int,
    active: int,
    n: int,
)
    requires
        has_block(report, card, name, section, active),
        0 <= n <= active,
    ensures
        audio::scan_lines(audio::scan_start(), report.take(n), card) == (audio::CardScan {
            in_card: name < n,
            in_profiles: section < n,
            found: if section < n {
                profiles_listed(report.subrange(section + 1, n))
            } else {
                Seq::empty()
            },
            active: None,
        }),
    decreases n,
{
    if n > 0 {
        let line = report[n - 1];
        lemma_block_scanned(report, card, name, section, active, n - 1);
        lemma_scan_next(report, card, n - 1);
        if n == section + 1 {
            assert(report.subrange(section + 1, n) =~= Seq::empty());
        }
        if section < n - 1 {
            let lines = report.subrange(section + 1, n);
            assert(lines.drop_last() =~= report.subrange(section + 1, n - 1));
            assert(lines.last() == line);
            if text::trimmed(line) == "Profiles:"@ || text::trimmed(line).len() == 0 {
                lemma_no_profile(line);
            }
        }
    }
}

/// The heading of the section and a blank line describe no profile.
proof fn lemma_no_profile(line: Seq<char>)
    requires
        text::trimmed(line) == "Profiles:"@ || text::trimmed(line).len() == 0,
    ensures
        audio::listed_profile(line) is None,
{
    reveal_strlit("Profiles:");
    reveal_strlit(": ");
    let content = text::trimmed(line);
    assert forall|at: int| !text::occurs_at(content, ": "@, at) by {
        if text::occurs_at(content, ": "@, at) {
            assert(content.subrange(at, at + 2)[0] == content[at]);
            assert(content.subrange(at, at + 2)[1] == content[at + 1]);
        }
    }
}

/// A scan that has not met the active profile reads the next line.
proof fn lemma_scan_next(report: Seq<Seq<char>>, card: Seq<char>, n: int)
    requires
        0 <= n < report.len(),
        audio::scan_lines(audio::scan_start(), report.take(n), card).active is None,
    ensures
        audio::scan_lines(audio::scan_start(), report.take(n + 1), card) == audio::scan_line(
            audio::scan_lines(audio::scan_start(), report.take(n), card),
            report[n],
            card,
        ),
{
    let scan = audio::scan_lines(audio::scan_start(), report.take(n), card);
    let line = seq![report[n]];
    assert(report.take(n + 1) =~= report.take(n) + line);
    lemma_scan_joined(audio::scan_start(), report.take(n), line, card);
    reveal_with_fuel(audio::scan_lines, 2);
    assert(line.subrange(1, 1) =~= Seq::empty());
}

/// A scan that meets no line with the card learns nothing.
proof fn lemma_scan_without_card(report: Seq<Seq<char>>, card: Seq<char>)
    requires
        !has_card(report, card),
    ensures
        audio::scan_lines(audio::scan_start(), report, card) == audio::scan_start(),
    decreases report.len(),
{
    if report.len() > 0 {
        let rest = report.subrange(1, report.len() as int);
        assert(!names_card(report[0], card));
        assert forall|i: int| 0 <= i < rest.len() implies !names_card(#[trigger] rest[i], card) by {
            assert(rest[i] == report[i + 1]);
        }
        lemma_scan_without_card(rest, card);
    }
}

/// A scan of two parts of a report goes on with the second where it stopped in the first.
pub proof fn lemma_scan_joined(
    scan: audio::CardScan,
    first: Seq<Seq<char>>,
    second: Seq<Seq<char>>,
    card: Seq<char>,
)
    ensures
        audio::scan_lines(scan, first + second, card) == audio::scan_lines(
            audio::scan_lines(scan, first, card),
            second,
            card,
        ),
    decreases first.len(),
{
    let whole = first + second;
    if first.len() == 0 {
        assert(whole =~= second);
    } else if scan.active is None {
        let rest = first.subrange(1, first.len() as int);
        assert(whole.subrange(1, whole.len() as int) =~= rest + second);
        lemma_scan_joined(audio::scan_line(scan, first[0], card), rest, second, card);
    }
}

/// The menu opens on one of its profiles, on the active one if there is one.
pub proof fn law_menu_opens_on_the_active_profile(profiles: Seq<ProfileView>)
    requires
        0 < profiles.len() <= usize::MAX,
    ensures
        session::initial_choice(profiles) < profiles.len(),
        (exists|i: int| 0 <= i < profiles.len() && (#[trigger] profiles[i]).active)
            ==> profiles[session::initial_choice(profiles) as int].active,
{
    if exists|i: int| 0 <= i < profiles.len() && (#[trigger] profiles[i]).active {
        lemma_first_active(profiles, profiles.len() as int);
        let at = choose|at: int| session::first_active(profiles, at);
        assert(session::first_active(profiles, at));
    } else if exists|at: int| session::first_active(profiles, at) {
        let at = choose|at: int| session::first_active(profiles, at);
        assert(profiles[at].active);
    }
}

/// Where a profile is active there is a first one.
proof fn lemma_first_active(profiles: Seq<ProfileView>, n: int)
    requires
        0 <= n <= profiles.len(),
        exists|i: int| 0 <= i < n && (#[trigger] profiles[i]).active,
    ensures
        exists|at: int| session::first_active(profiles, at),
    decreases n,
{
    if exists|i: int| 0 <= i < n - 1 && (#[trigger] profiles[i]).active {
        lemma_first_active(profiles, n - 1);
    } else {
        assert(session::first_active(profiles, n - 1));
    }
}

/// A key keeps the selection of the menu on one of its profiles.
pub proof fn law_menu_stays_in_range(menu: MenuView, code: KeyCode)
    requires
        menu.selected < menu.profiles.len() <= usize::MAX,
    ensures
        app::menu_pressed(menu, code).0.selected < menu.profiles.len(),
        app::menu_pressed(menu, code).0.profiles == menu.profiles,
{
}

/// In the menu going down and up again, or up and down again, comes back.
pub proof fn law_menu_down_and_up(menu: MenuView)
    requires
        menu.selected < menu.profiles.len() <= usize::MAX,
    ensures
        app::menu_pressed(app::menu_pressed(menu, KeyCode::Down).0, KeyCode::Up).0 == menu,
        app::menu_pressed(app::menu_pressed(menu, KeyCode::Up).0, KeyCode::Down).0 == menu,
{
}

/// Enter in the menu switches to the profile that the menu points at, and closes the menu.
pub proof fn law_enter_switches_profile(app: AppView, menu: MenuView, modifiers: u8)
    requires
        app.agent_prompt is None,
        app.profile_menu == Some(menu),
        menu.selected < menu.profiles.len(),
    ensures
        ({
            let enter = KeyEvent { code: KeyCode::Enter, modifiers };
            let profile = menu.profiles[menu.selected as int];
            &&& asked(app, enter) == Some(
                CommandView::Run(
                    TaskView::SwitchProfile {
                        address: menu.address,
                        name: menu.name,
                        profile: profile.name,
                        description: profile.description,
                    },
                ),
            )
            &&& after_key(app, enter) == (AppView { profile_menu: None, ..app })
        }),
{
}

// ---------------------------------------------------------------------------------------------
// The search for an adapter
// ---------------------------------------------------------------------------------------------

/// The session after `n` ticks.
pub open spec fn after_ticks(session: SessionView, n: nat) -> SessionView
    decreases n,
{
    if n == 0 {
        session
    } else {
        session::ticked(after_ticks(session, (n - 1) as nat)).0
    }
}

/// Without an adapter every twentieth tick searches for one, and no other tick does.
pub proof fn law_search_every_twentieth_tick(session: SessionView, n: nat)
    requires
        session.app.adapter is None,
        session.adapter_retry_counter == 0,
        n > 0,
    ensures
        session::ticked(after_ticks(session, (n - 1) as nat)).1 <==> n % 20 == 0,
{
    lemma_ticks_count(session, (n - 1) as nat);
}

/// The counter holds the ticks since the last search.
proof fn lemma_ticks_count(session: SessionView, n: nat)
    requires
        session.app.adapter is None,
        session.adapter_retry_counter == 0,
    ensures
        after_ticks(session, n) == (SessionView {
            adapter_retry_counter: (n % 20) as u32,
            ..session
        }),
    decreases n,
{
    if n > 0 {
        lemma_ticks_count(session, (n - 1) as nat);
    }
}

/// With an adapter a tick does nothing.
pub proof fn law_no_search_with_an_adapter(session: SessionView)
    requires
        session.app.adapter is Some,
    ensures
        session::ticked(session) == (session, false),
{
}

/// The counter stays below the number of ticks between two searches.
pub proof fn law_tick_counter_bounded(session: SessionView)
    requires
        session.adapter_retry_counter < session::TICKS_PER_PROBE,
    ensures
        session::ticked(session).0.adapter_retry_counter < session::TICKS_PER_PROBE,
{
}

/// An adapter that was found gets the pairing agent once: after it is registered, a further adapter
/// does not ask for it again.
pub proof fn law_agent_registered_once(
    session: SessionView,
    refresh: Refresh,
    devices: Option<Seq<DeviceView>>,
)
    ensures
        session::fetched(session, refresh, devices).1 matches Some(command) ==> command
            == CommandView::RegisterAgent && !session.agent_registered && refresh
            == Refresh::AdapterFound,
        session::fetched(session, refresh, devices).0.agent_registered == session.agent_registered,
{
}

// ---------------------------------------------------------------------------------------------
// Whole sessions
// ---------------------------------------------------------------------------------------------

/// What can happen to a session.
pub enum Event {
    Key(KeyEvent),
    Result(DeviceOpResult),
    Discovered(DeviceView),
    Request(AgentRequest),
    ScanStarted(bool),
    ScanStopped,
    Devices(Refresh, Option<Seq<DeviceView>>),
    AgentRegistered(bool),
    Tick,
}

/// The session after an event.
pub open spec fn stepped(session: SessionView, event: Event) -> SessionView {
    let app = session.app;
    match event {
        Event::Key(key) => SessionView { app: after_key(app, key), ..session },
        Event::Result(result) => SessionView { app: session::resulted(app, result).0, ..session },
        Event::Discovered(device) => SessionView { app: app.discovering(device), ..session },
        Event::Request(request) => SessionView { app: session::requested(app, request).0, ..session },
        Event::ScanStarted(started) => SessionView {
            app: AppView { scanning: app.scanning || started, ..app },
            ..session
        },
        Event::ScanStopped => SessionView {
            app: AppView { scanning: false, ..app }.without_discovered(),
            ..session
        },
        Event::Devices(refresh, devices) => session::fetched(session, refresh, devices).0,
        Event::AgentRegistered(registered) => SessionView {
            app: session::noting(app, "Adapter found"@),
            agent_registered: session.agent_registered || registered,
            ..session
        },
        Event::Tick => session::ticked(session).0,
    }
}

/// What every state of a session keeps: the selection is one of the list, no address is listed
/// twice, the menu points at one of its profiles, and the ticks are counted up to the next search.
pub open spec fn sound(session: SessionView) -> bool {
    &&& in_range(session.app)
    &&& distinct(session.app.all_devices())
    &&& session.app.profile_menu matches Some(menu) ==> menu.selected < menu.profiles.len()
    &&& session.adapter_retry_counter < session::TICKS_PER_PROBE
}

/// The event brings nothing that breaks this: profiles that were loaded are not empty, and devices
/// that were fetched are distinct and leave the selected place in the list.
pub open spec fn benign(session: SessionView, event: Event) -> bool {
    match event {
        Event::Result(DeviceOpResult::ProfilesLoaded { profiles, .. }) => 0 < profiles@.len()
            <= usize::MAX,
        Event::Devices(_, Some(devices)) => {
            &&& distinct(devices + session.app.discovered_devices)
            &&& session.app.list_state.selected matches Some(index) ==> index < devices.len()
                + session.app.discovered_devices.len()
        },
        _ => true,
    }
}

/// A session can be counted by the machine: its devices and the profiles of its menu.
pub open spec fn countable(session: SessionView) -> bool {
    session.app.countable() && (session.app.profile_menu matches Some(menu) ==> menu.profiles.len()
        <= usize::MAX)
}

/// No event takes a session out of what every state keeps.
pub proof fn law_events_keep_sessions_sound(session: SessionView, event: Event)
    requires
        sound(session),
        countable(session),
        benign(session, event),
    ensures
        sound(stepped(session, event)),
{
    let app = session.app;
    match event {
        Event::Key(key) => {
            let (after, action) = app::pressed(app, key);
            law_keys_keep_range(app, key);
            law_actions_keep_range(after, action);
            law_keys_keep_the_rest(app, key);
            assert(after.all_devices() == app.all_devices());
            lemma_actions_keep_devices(after, action);
            if app.profile_menu is Some {
                law_menu_stays_in_range(app.profile_menu->0, key.code);
            }
            lemma_actions_keep_menu(after, action);
        },
        Event::Result(result) => {
            law_results_keep_range(app, result);
            lemma_results_keep_distinct(app, result);
            match result {
                DeviceOpResult::ProfilesLoaded { profiles, .. } => {
                    law_menu_opens_on_the_active_profile(audio::profile_views(profiles@));
                },
                _ => {},
            }
        },
        Event::Discovered(device) => {
            law_discovery_keeps_range(app, device);
            law_discovery_deduplicates(app, device);
        },
        Event::Request(request) => {
            law_requests_keep_range(app, request);
        },
        Event::ScanStarted(_) => {
            assert(stepped(session, event).app.all_devices() == app.all_devices());
        },
        Event::ScanStopped => {
            law_scan_end_keeps_range(AppView { scanning: false, ..app });
            let left = stepped(session, event).app;
            assert(left.all_devices() =~= app.devices);
            assert forall|i: int, j: int| 0 <= i < j < app.devices.len() implies (
            #[trigger] app.devices[i]).address != (#[trigger] app.devices[j]).address by {
                assert(app.all_devices()[i] == app.devices[i]);
                assert(app.all_devices()[j] == app.devices[j]);
            }
        },
        Event::Devices(_, devices) => {
            match devices {
                Some(devices) => {
                    law_refresh_keeps_range(app, devices);
                    assert(stepped(session, event).app.all_devices() == devices
                        + app.discovered_devices);
                },
                None => {
                    assert(stepped(session, event).app.all_devices() == app.all_devices());
                },
            }
        },
        Event::AgentRegistered(_) => {
            assert(stepped(session, event).app.all_devices() == app.all_devices());
        },
        Event::Tick => {
            law_tick_counter_bounded(session);
        },
    }
}

/// An action leaves the devices alone.
proof fn lemma_actions_keep_devices(app: AppView, action: Action)
    ensures
        session::performed(app, action).0.all_devices() == app.all_devices(),
{
}

/// An action leaves the menu alone or closes it.
proof fn lemma_actions_keep_menu(app: AppView, action: Action)
    ensures
        session::performed(app, action).0.profile_menu == app.profile_menu || session::performed(
            app,
            action,
        ).0.profile_menu is None,
{
}

/// The result of an operation lists no address twice.
proof fn lemma_results_keep_distinct(app: AppView, result: DeviceOpResult)
    requires
        distinct(app.all_devices()),
    ensures
        distinct(session::resulted(app, result).0.all_devices()),
{
    let new = session::resulted(app, result).0;
    match result {
        DeviceOpResult::Connected { address, .. } => {
            lemma_update_keeps_distinct(app, app.with_connected(address@, true), address@);
        },
        DeviceOpResult::Disconnected { address, .. } => {
            lemma_update_keeps_distinct(app, app.with_connected(address@, false), address@);
        },
        DeviceOpResult::Trusted { address, .. } => {
            lemma_update_keeps_distinct(app, app.with_trusted(address@, true), address@);
        },
        DeviceOpResult::Untrusted { address, .. } => {
            lemma_update_keeps_distinct(app, app.with_trusted(address@, false), address@);
        },
        DeviceOpResult::Paired { address, .. } => {
            if app::has_address(app.all_devices(), address@) {
                law_pairing_moves(app, address@);
                assert(new.all_devices() == app.with_paired(address@).all_devices());
            } else {
                assert forall|i: int| 0 <= i < app.devices.len() implies (
                #[trigger] app.devices[i]).address != address@ by {
                    assert(app.all_devices()[i] == app.devices[i]);
                }
                assert forall|i: int| 0 <= i < app.discovered_devices.len() implies (
                #[trigger] app.discovered_devices[i]).address != address@ by {
                    assert(app.all_devices()[app.devices.len() + i] == app.discovered_devices[i]);
                }
                law_unknown_address_changes_nothing(app, address@, true);
                assert(new.all_devices() == app.all_devices());
            }
        },
        DeviceOpResult::Unpaired { address, .. } => {
            let keep = |d: DeviceView| d.address != address@;
            lemma_filter_keeps_distinct(app.devices, app.discovered_devices, keep);
            assert(new.all_devices() == app.devices.filter(keep) + app.discovered_devices);
        },
        DeviceOpResult::AdapterPoweredOff => {
            assert(new.all_devices().len() == 0);
        },
        _ => {
            assert(new.all_devices() == app.all_devices());
        },
    }
}

/// An update of a known device leaves the addresses as they are.
proof fn lemma_update_keeps_distinct(app: AppView, new: AppView, address: Seq<char>)
    requires
        distinct(app.all_devices()),
        new.discovered_devices == app.discovered_devices,
        match app::place_of(app.devices, address) {
            Some(at) => exists|d: DeviceView|
                d.address == app.devices[at].address && new.devices == app.devices.update(at, d),
            None => new.devices == app.devices,
        },
    ensures
        distinct(new.all_devices()),
{
    lemma_place_found(app.devices, address);
    assert forall|i: int| 0 <= i < app.total() implies (#[trigger] new.all_devices()[i]).address
        == app.all_devices()[i].address by {}
}

/// A selection of the first of two lists leaves no address twice that was not there twice.
proof fn lemma_filter_keeps_distinct(
    list: Seq<DeviceView>,
    rest: Seq<DeviceView>,
    keep: spec_fn(DeviceView) -> bool,
)
    requires
        distinct(list + rest),
    ensures
        distinct(list.filter(keep) + rest),
    decreases list.len(),
{
    reveal(Seq::filter);
    if list.len() == 0 {
        assert(list.filter(keep) + rest =~= list + rest);
    } else {
        let before = list.drop_last();
        let last = list.last();
        let all = list + rest;
        if keep(last) {
            assert(before + (seq![last] + rest) =~= all);
            lemma_filter_keeps_distinct(before, seq![last] + rest, keep);
            assert(list.filter(keep) + rest =~= before.filter(keep) + (seq![last] + rest));
        } else {
            assert forall|i: int, j: int| 0 <= i < j < (before + rest).len() implies (
            #[trigger] (before + rest)[i]).address != (#[trigger] (before + rest)[j]).address by {
                let i1 = if i < before.len() {
                    i
                } else {
                    i + 1
                };
                let j1 = if j < before.len() {
                    j
                } else {
                    j + 1
                };
                assert((before + rest)[i] == all[i1]);
                assert((before + rest)[j] == all[j1]);
            }
            lemma_filter_keeps_distinct(before, rest, keep);
        }
    }
}

/// The session after a sequence of events.
pub open spec fn after_events(session: SessionView, events: Seq<Event>) -> SessionView
    decreases events.len(),
{
    if events.len() == 0 {
        session
    } else {
        stepped(after_events(session, events.drop_last()), events.last())
    }
}

/// The session at the start.
pub open spec fn session_start(
    adapter: Option<AdapterView>,
    devices: Seq<DeviceView>,
    agent_registered: bool,
) -> SessionView {
    SessionView {
        app: app::started(adapter, devices),
        adapter_retry_counter: 0,
        agent_registered,
    }
}

/// Whatever happens in a session that started with distinct devices, each of its states keeps what
/// every state keeps.
pub proof fn law_sessions_stay_sound(
    adapter: Option<AdapterView>,
    devices: Seq<DeviceView>,
    agent_registered: bool,
    events: Seq<Event>,
)
    requires
        distinct(devices),
        forall|n: int|
            0 <= n < events.len() ==> {
                let state = after_events(
                    session_start(adapter, devices, agent_registered),
                    #[trigger] events.take(n),
                );
                countable(state) && benign(state, events[n])
            },
    ensures
        sound(after_events(session_start(adapter, devices, agent_registered), events)),
    decreases events.len(),
{
    let start = session_start(adapter, devices, agent_registered);
    if events.len() == 0 {
        assert(start.app.all_devices() =~= devices);
    } else {
        let before = events.drop_last();
        assert forall|n: int| 0 <= n < before.len() implies {
            let state = after_events(start, #[trigger] before.take(n));
            countable(state) && benign(state, before[n])
        } by {
            assert(before.take(n) =~= events.take(n));
        }
        law_sessions_stay_sound(adapter, devices, agent_registered, before);
        assert(events.take(events.len() - 1) =~= before);
        law_events_keep_sessions_sound(after_events(start, before), events.last());
    }
}

} // verus!

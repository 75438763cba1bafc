//! What each key does, stated of the calls themselves: the session before and after, and the work
//! that is asked for.
use vstd::prelude::*;

use crate::app::{App, ConfirmType};
use crate::bluetooth;
use crate::bluetooth::DeviceInfo;
use crate::keys::{KeyCode, KeyEvent};
use crate::session::{Command, Exit, Session, Task};
use crate::states;
use crate::states::Part;
use crate::text;

verus! {

/// The list takes the keys, and this device is the selected one.
pub open spec fn at_device(app: App, device: DeviceInfo) -> bool {
    states::nothing_open(app) && app.adapter is Some && states::is_selected(app, device)
}

/// The command is to connect the device.
pub open spec fn asks_connect(command: Option<Command>, device: DeviceInfo) -> bool {
    command matches Some(Command::Run(Task::Connect { address, name })) && address@
        == device.address@ && name@ == states::shown_name(device)
}

/// The command is to disconnect the device.
pub open spec fn asks_disconnect(command: Option<Command>, device: DeviceInfo) -> bool {
    command matches Some(Command::Run(Task::Disconnect { address, name })) && address@
        == device.address@ && name@ == states::shown_name(device)
}

/// The command is to pair the device.
pub open spec fn asks_pair(command: Option<Command>, device: DeviceInfo) -> bool {
    command matches Some(Command::Run(Task::Pair { address, name })) && address@ == device.address@
        && name@ == states::shown_name(device)
}

/// The command is to trust the device.
pub open spec fn asks_trust(command: Option<Command>, device: DeviceInfo) -> bool {
    command matches Some(Command::Run(Task::Trust { address, name })) && address@
        == device.address@ && name@ == states::shown_name(device)
}

/// The command is to load the audio profiles of the device.
pub open spec fn asks_profiles(command: Option<Command>, device: DeviceInfo) -> bool {
    command matches Some(Command::LoadProfiles { address, name }) && address@ == device.address@
        && name@ == states::shown_name(device)
}

/// The session says this in the status bar, and is otherwise as it was.
pub open spec fn only_says(before: Session, after: Session, message: Seq<char>) -> bool {
    &&& after.app.status_message matches Some(shown) && shown@ == message
    &&& states::differ_only_in(before, after, set![Part::Status])
}

/// A dialog of this type for the device is open, and the session is otherwise as it was.
pub open spec fn only_asks(
    before: Session,
    after: Session,
    confirm_type: ConfirmType,
    device: DeviceInfo,
) -> bool {
    &&& after.app.pending_confirm matches Some(confirm) && confirm.confirm_type == confirm_type
        && confirm.address@ == device.address@ && confirm.name@ == states::shown_name(device)
    &&& states::differ_only_in(before, after, set![Part::Confirm])
}

/// A key press is made of the key and the modifiers.
pub proof fn law_key_events(code: KeyCode, modifiers: u8, key: KeyEvent)
    requires
        call_ensures(KeyEvent::new, (code, modifiers), key),
    ensures
        key.code == code,
        key.modifiers == modifiers,
{
}

/// Enter connects a paired device, or disconnects it if it is connected; a device that is not paired
/// it only says so of.
pub proof fn law_enter_key(
    session: &mut Session,
    key: KeyEvent,
    command: Option<Command>,
    device: DeviceInfo,
)
    requires
        call_ensures(Session::on_key, (session, key), command),
        key.code == KeyCode::Enter,
        at_device(old(session).app, device),
    ensures
        device.paired && !device.connected ==> asks_connect(command, device)
            && states::same_session(*old(session), *final(session)),
        device.paired && device.connected ==> asks_disconnect(command, device)
            && states::same_session(*old(session), *final(session)),
        !device.paired ==> command is None && only_says(
            *old(session),
            *final(session),
            "Device not paired"@,
        ),
{
    states::lemma_selected(old(session).app, device);
    states::lemma_parts(old(session).app, final(session).app);
}

/// `p` pairs a device that is not paired; of another it only says so.
pub proof fn law_pair_key(
    session: &mut Session,
    key: KeyEvent,
    command: Option<Command>,
    device: DeviceInfo,
)
    requires
        call_ensures(Session::on_key, (session, key), command),
        key.code == KeyCode::Char('p'),
        at_device(old(session).app, device),
    ensures
        !device.paired ==> asks_pair(command, device) && states::same_session(
            *old(session),
            *final(session),
        ),
        device.paired ==> command is None && only_says(
            *old(session),
            *final(session),
            "Device already paired"@,
        ),
{
    states::lemma_selected(old(session).app, device);
    states::lemma_parts(old(session).app, final(session).app);
}

/// `u` asks whether to unpair a paired device, in a dialog that names it; a device that is not paired
/// it only says so of.
pub proof fn law_unpair_key(
    session: &mut Session,
    key: KeyEvent,
    command: Option<Command>,
    device: DeviceInfo,
)
    requires
        call_ensures(Session::on_key, (session, key), command),
        key.code == KeyCode::Char('u'),
        at_device(old(session).app, device),
    ensures
        command is None,
        device.paired ==> only_asks(*old(session), *final(session), ConfirmType::Unpair, device)
            && final(session).app.pending_confirm->0.message@ == "Unpair device "@
            + states::shown_name(device) + "? y/n"@,
        !device.paired ==> only_says(*old(session), *final(session), "Device not paired"@),
{
    states::lemma_selected(old(session).app, device);
    states::lemma_parts(old(session).app, final(session).app);
}

/// `t` trusts a paired device, or asks whether to withdraw the trust it has, in a dialog that names
/// it; a device that is not paired it only says so of.
pub proof fn law_trust_key(
    session: &mut Session,
    key: KeyEvent,
    command: Option<Command>,
    device: DeviceInfo,
)
    requires
        call_ensures(Session::on_key, (session, key), command),
        key.code == KeyCode::Char('t'),
        at_device(old(session).app, device),
    ensures
        device.paired && !device.trusted ==> asks_trust(command, device) && states::same_session(
            *old(session),
            *final(session),
        ),
        device.paired && device.trusted ==> command is None && only_asks(
            *old(session),
            *final(session),
            ConfirmType::Untrust,
            device,
        ) && final(session).app.pending_confirm->0.message@ == "Untrust device "@
            + states::shown_name(device) + "? y/n"@,
        !device.paired ==> command is None && only_says(
            *old(session),
            *final(session),
            "Device not paired"@,
        ),
{
    states::lemma_selected(old(session).app, device);
    states::lemma_parts(old(session).app, final(session).app);
}

/// The identifier begins with these eight characters.
pub open spec fn begins_with(uuid: Seq<char>, start: Seq<char>) -> bool {
    uuid.len() >= start.len() && forall|i: int| 0 <= i < start.len() ==> #[trigger] uuid[i] == start[i]
}

/// An identifier in lower case stands for one of the audio services: A2DP source or sink, HSP headset
/// or gateway, HFP hands-free or gateway.
pub open spec fn audio_service(uuid: Seq<char>) -> bool {
    ||| begins_with(uuid, "0000110a"@)
    ||| begins_with(uuid, "0000110b"@)
    ||| begins_with(uuid, "00001108"@)
    ||| begins_with(uuid, "00001112"@)
    ||| begins_with(uuid, "0000111e"@)
    ||| begins_with(uuid, "0000111f"@)
}

/// One of the services of the device, in lower case, is an audio service.
pub open spec fn plays_audio(device: DeviceInfo) -> bool {
    exists|i: int|
        0 <= i < device.uuids@.len() && audio_service(
            text::lowercased((#[trigger] device.uuids@[i])@),
        )
}

/// A text begins with another if and only if it holds its characters one by one.
proof fn lemma_begins(uuid: Seq<char>, start: Seq<char>)
    ensures
        begins_with(uuid, start) == text::has_prefix(uuid, start),
{
    if begins_with(uuid, start) {
        assert(uuid.subrange(0, start.len() as int) =~= start);
    }
    if text::has_prefix(uuid, start) {
        assert forall|i: int| 0 <= i < start.len() implies #[trigger] uuid[i] == start[i] by {
            assert(uuid.subrange(0, start.len() as int)[i] == uuid[i]);
        }
    }
}

/// The audio services are those that are looked for.
proof fn lemma_audio_service(uuid: Seq<char>)
    ensures
        audio_service(uuid) == bluetooth::audio_role(uuid),
{
    lemma_begins(uuid, "0000110a"@);
    lemma_begins(uuid, "0000110b"@);
    lemma_begins(uuid, "00001108"@);
    lemma_begins(uuid, "00001112"@);
    lemma_begins(uuid, "0000111e"@);
    lemma_begins(uuid, "0000111f"@);
}

/// A device plays audio if and only if its model has audio profiles.
pub proof fn lemma_plays_audio(device: DeviceInfo)
    ensures
        plays_audio(device) == device@.has_audio_profiles(),
{
    assert forall|uuid: Seq<char>| #[trigger] audio_service(uuid) == bluetooth::audio_role(uuid) by {
        lemma_audio_service(uuid);
    }
    if plays_audio(device) {
        let i = choose|i: int|
            0 <= i < device.uuids@.len() && audio_service(
                text::lowercased((#[trigger] device.uuids@[i])@),
            );
        assert(device@.uuids[i] == device.uuids@[i]@);
        assert(bluetooth::audio_role(text::lowercased(device@.uuids[i])));
    }
    if device@.has_audio_profiles() {
        let i = choose|i: int|
            0 <= i < device@.uuids.len() && bluetooth::audio_role(
                text::lowercased(#[trigger] device@.uuids[i]),
            );
        assert(device@.uuids[i] == device.uuids@[i]@);
        assert(audio_service(text::lowercased(device.uuids@[i]@)));
    }
}

/// A device is said to have audio profiles if and only if one of its services is an audio service.
pub proof fn law_audio_devices(device: &DeviceInfo, found: bool)
    requires
        call_ensures(DeviceInfo::has_audio_profiles, (device,), found),
    ensures
        found == plays_audio(*device),
{
    lemma_plays_audio(*device);
}

/// `a` loads the profiles of a connected device that plays audio; of another it says why not.
pub proof fn law_profiles_key(
    session: &mut Session,
    key: KeyEvent,
    command: Option<Command>,
    device: DeviceInfo,
)
    requires
        call_ensures(Session::on_key, (session, key), command),
        key.code == KeyCode::Char('a'),
        at_device(old(session).app, device),
    ensures
        device.connected && plays_audio(device) ==> asks_profiles(command, device)
            && states::same_session(*old(session), *final(session)),
        device.connected && !plays_audio(device) ==> command is None && only_says(
            *old(session),
            *final(session),
            "No audio profiles available"@,
        ),
        !device.connected ==> command is None && only_says(
            *old(session),
            *final(session),
            "Device not connected"@,
        ),
{
    lemma_plays_audio(device);
    states::lemma_selected(old(session).app, device);
    states::lemma_parts(old(session).app, final(session).app);
}

/// `i` shows the details of the selected device.
pub proof fn law_details_key(
    session: &mut Session,
    key: KeyEvent,
    command: Option<Command>,
    device: DeviceInfo,
)
    requires
        call_ensures(Session::on_key, (session, key), command),
        key.code == KeyCode::Char('i'),
        at_device(old(session).app, device),
    ensures
        command is None,
        final(session).app.show_detail,
        states::differ_only_in(*old(session), *final(session), set![Part::Detail]),
{
    states::lemma_selected(old(session).app, device);
    states::lemma_parts(old(session).app, final(session).app);
}

/// The keys that concern a device do nothing where none is selected.
pub proof fn law_no_device_no_work(session: &mut Session, key: KeyEvent, command: Option<Command>)
    requires
        call_ensures(Session::on_key, (session, key), command),
        states::nothing_open(old(session).app),
        old(session).app.adapter is Some,
        old(session).app.list_state.selected matches Some(index) ==> index >= states::list_length(
            old(session).app,
        ),
        key.code == KeyCode::Enter || key.code == KeyCode::Char('p') || key.code == KeyCode::Char('u')
            || key.code == KeyCode::Char('t') || key.code == KeyCode::Char('a') || key.code
            == KeyCode::Char('i'),
    ensures
        command is None,
        states::same_session(*old(session), *final(session)),
{
    states::lemma_parts(old(session).app, final(session).app);
}

/// `s` stops the scan that runs, and starts one where none runs. Whether one runs changes only when
/// that is reported.
pub proof fn law_scan_key(session: &mut Session, key: KeyEvent, command: Option<Command>)
    requires
        call_ensures(Session::on_key, (session, key), command),
        states::nothing_open(old(session).app),
        old(session).app.adapter is Some,
        key.code == KeyCode::Char('s'),
    ensures
        old(session).app.scanning ==> command == Some(Command::StopDiscovery),
        !old(session).app.scanning ==> command == Some(Command::StartDiscovery),
        states::same_session(*old(session), *final(session)),
{
    states::lemma_parts(old(session).app, final(session).app);
}

/// `o` switches the adapter off that is on, and on that is off.
pub proof fn law_power_key(session: &mut Session, key: KeyEvent, command: Option<Command>)
    requires
        call_ensures(Session::on_key, (session, key), command),
        states::nothing_open(old(session).app),
        old(session).app.adapter is Some,
        key.code == KeyCode::Char('o'),
    ensures
        old(session).app.adapter->0.powered ==> command == Some(Command::Run(Task::PowerOff)),
        !old(session).app.adapter->0.powered ==> command == Some(Command::Run(Task::PowerOn)),
        states::same_session(*old(session), *final(session)),
{
    states::lemma_parts(old(session).app, final(session).app);
}

/// `?` shows the help, with an adapter or without one.
pub proof fn law_help_key(session: &mut Session, key: KeyEvent, command: Option<Command>)
    requires
        call_ensures(Session::on_key, (session, key), command),
        states::nothing_open(old(session).app),
        key.code == KeyCode::Char('?'),
    ensures
        command is None,
        final(session).app.show_help,
        states::differ_only_in(*old(session), *final(session), set![Part::Help]),
{
    states::lemma_parts(old(session).app, final(session).app);
}

/// `q`, and `c` with the control key, end the program, with an adapter or without one.
pub proof fn law_quit_keys(session: &mut Session, key: KeyEvent, command: Option<Command>)
    requires
        call_ensures(Session::on_key, (session, key), command),
        states::nothing_open(old(session).app),
        key.code == KeyCode::Char('q') || (key.code == KeyCode::Char('c') && key.modifiers & 2u8
            == 2u8),
    ensures
        command is None,
        !final(session).app.running,
        states::differ_only_in(*old(session), *final(session), set![Part::Running]),
{
    states::lemma_parts(old(session).app, final(session).app);
}

/// Down selects the next device, and the first one after the last; Up the previous one, and the last
/// one before the first. Where no device was selected they select the first and the last.
pub proof fn law_arrow_keys(session: &mut Session, key: KeyEvent, command: Option<Command>)
    requires
        call_ensures(Session::on_key, (session, key), command),
        states::nothing_open(old(session).app),
        old(session).app.adapter is Some,
        0 < states::list_length(old(session).app) <= usize::MAX,
        key.code == KeyCode::Down || key.code == KeyCode::Up,
        old(session).app.list_state.selected matches Some(index) ==> index < states::list_length(
            old(session).app,
        ),
    ensures
        command is None,
        final(session).app.list_state.selected matches Some(index) && index < states::list_length(
            old(session).app,
        ) && index as int == match (old(session).app.list_state.selected, key.code) {
            (Some(from), KeyCode::Down) => (from + 1) % (states::list_length(old(session).app) as int),
            (Some(from), _) => (from + states::list_length(old(session).app) - 1) % (
            states::list_length(old(session).app) as int),
            (None, KeyCode::Down) => 0,
            (None, _) => states::list_length(old(session).app) - 1,
        },
        final(session).app.list_state.offset == old(session).app.list_state.offset,
        states::differ_only_in(*old(session), *final(session), set![Part::Selection]),
{
    states::lemma_parts(old(session).app, final(session).app);
    let total = states::list_length(old(session).app) as int;
    assert(old(session).app@.total() == total);
    if let Some(from) = old(session).app.list_state.selected {
        if from + 1 < total {
            assert((from + 1) % total == from + 1) by (nonlinear_arith)
                requires
                    0 <= from + 1 < total,
            ;
        } else {
            assert((from + 1) % total == 0) by (nonlinear_arith)
                requires
                    from + 1 == total,
                    total > 0,
            ;
        }
        if from == 0 {
            assert((from + total - 1) % total == total - 1) by (nonlinear_arith)
                requires
                    from == 0,
                    total > 0,
            ;
        } else {
            assert((from + total - 1) % total == from - 1) by (nonlinear_arith)
                requires
                    0 < from < total,
            ;
        }
    }
}

/// Without an adapter no key but those that quit and the one for the help does anything.
pub proof fn law_keys_wait_for_an_adapter(
    session: &mut Session,
    key: KeyEvent,
    command: Option<Command>,
)
    requires
        call_ensures(Session::on_key, (session, key), command),
        states::nothing_open(old(session).app),
        old(session).app.adapter is None,
        key.code != KeyCode::Char('q') && key.code != KeyCode::Char('?'),
        key.code == KeyCode::Char('c') ==> key.modifiers & 2u8 != 2u8,
    ensures
        command is None,
        states::same_session(*old(session), *final(session)),
{
    states::lemma_parts(old(session).app, final(session).app);
}

/// A key that means something in the device list.
pub open spec fn is_list_key(key: KeyEvent) -> bool {
    match key.code {
        KeyCode::Up => true,
        KeyCode::Down => true,
        KeyCode::Enter => true,
        KeyCode::Char(c) => c == 'q' || (c == 'c' && key.modifiers & 2u8 == 2u8) || c == 's' || c
            == 'p' || c == 'u' || c == 't' || c == 'i' || c == 'a' || c == '?' || c == 'o',
        _ => false,
    }
}

/// A key that means nothing in the device list does nothing there.
pub proof fn law_other_keys_do_nothing(
    session: &mut Session,
    key: KeyEvent,
    command: Option<Command>,
)
    requires
        call_ensures(Session::on_key, (session, key), command),
        states::nothing_open(old(session).app),
        !is_list_key(key),
    ensures
        command is None,
        states::same_session(*old(session), *final(session)),
{
    states::lemma_parts(old(session).app, final(session).app);
}

/// At a dialog `y` does what it asks about, for the device that it names; `n` and Esc do not. All
/// three close it, and no other key does anything.
pub proof fn law_dialog_keys(session: &mut Session, key: KeyEvent, command: Option<Command>)
    requires
        call_ensures(Session::on_key, (session, key), command),
        old(session).app.agent_prompt is None,
        old(session).app.profile_menu is None,
        old(session).app.pending_confirm is Some,
    ensures
        ({
            let confirm = old(session).app.pending_confirm->0;
            &&& key.code == KeyCode::Char('y') && confirm.confirm_type == ConfirmType::Unpair ==> (
            command matches Some(Command::Run(Task::Unpair { address, name })) && address@
                == confirm.address@ && name@ == confirm.name@)
            &&& key.code == KeyCode::Char('y') && confirm.confirm_type == ConfirmType::Untrust ==> (
            command matches Some(Command::Run(Task::Untrust { address, name })) && address@
                == confirm.address@ && name@ == confirm.name@)
            &&& key.code != KeyCode::Char('y') ==> command is None
        }),
        key.code == KeyCode::Char('y') || key.code == KeyCode::Char('n') || key.code == KeyCode::Esc
            ==> final(session).app.pending_confirm is None && states::differ_only_in(
            *old(session),
            *final(session),
            set![Part::Confirm],
        ),
        key.code != KeyCode::Char('y') && key.code != KeyCode::Char('n') && key.code != KeyCode::Esc
            ==> states::same_session(*old(session), *final(session)),
{
    states::lemma_parts(old(session).app, final(session).app);
}

/// In the details `i` and Esc close them, in the help `?` and Esc close that; no other key does
/// anything.
pub proof fn law_view_keys(session: &mut Session, key: KeyEvent, command: Option<Command>)
    requires
        call_ensures(Session::on_key, (session, key), command),
        old(session).app.agent_prompt is None,
        old(session).app.profile_menu is None,
        old(session).app.pending_confirm is None,
        old(session).app.show_detail || old(session).app.show_help,
    ensures
        command is None,
        ({
            let detail = old(session).app.show_detail;
            let closing = key.code == KeyCode::Esc || key.code == KeyCode::Char(
                if detail {
                    'i'
                } else {
                    '?'
                },
            );
            &&& closing && detail ==> !final(session).app.show_detail && states::differ_only_in(
                *old(session),
                *final(session),
                set![Part::Detail],
            )
            &&& closing && !detail ==> !final(session).app.show_help && states::differ_only_in(
                *old(session),
                *final(session),
                set![Part::Help],
            )
            &&& !closing ==> states::same_session(*old(session), *final(session))
        }),
{
    states::lemma_parts(old(session).app, final(session).app);
}

/// In the profile menu Enter switches the device of the menu to the selected profile, by the name
/// that the sound server knows it under, and closes the menu.
pub proof fn law_menu_choice(session: &mut Session, key: KeyEvent, command: Option<Command>)
    requires
        call_ensures(Session::on_key, (session, key), command),
        old(session).app.agent_prompt is None,
        old(session).app.profile_menu is Some,
        key.code == KeyCode::Enter,
    ensures
        ({
            let menu = old(session).app.profile_menu->0;
            let profile = menu.profiles@[menu.selected as int];
            &&& menu.selected < menu.profiles@.len() ==> (command matches Some(
                Command::Run(
                    Task::SwitchProfile { address, name, profile: chosen, description },
                ),
            ) && address@ == menu.address@ && name@ == menu.name@ && chosen@ == profile.name@
                && description@ == profile.description@)
            &&& menu.selected >= menu.profiles@.len() ==> command is None
        }),
        final(session).app.profile_menu is None,
        states::differ_only_in(*old(session), *final(session), set![Part::Menu]),
{
    states::lemma_parts(old(session).app, final(session).app);
    let menu = old(session).app.profile_menu->0;
    assert(menu@.profiles.len() == menu.profiles@.len());
    if menu.selected < menu.profiles@.len() {
        assert(menu@.profiles[menu.selected as int] == menu.profiles@[menu.selected as int]@);
    }
}

/// In the profile menu Down and Up go round the profiles, Esc closes the menu, and no other key but
/// Enter does anything.
pub proof fn law_menu_keys(session: &mut Session, key: KeyEvent, command: Option<Command>)
    requires
        call_ensures(Session::on_key, (session, key), command),
        old(session).app.agent_prompt is None,
        old(session).app.profile_menu is Some,
        old(session).app.profile_menu->0.selected < old(session).app.profile_menu->0.profiles@.len(),
        old(session).app.profile_menu->0.profiles@.len() <= usize::MAX,
        key.code != KeyCode::Enter,
    ensures
        command is None,
        key.code == KeyCode::Esc ==> final(session).app.profile_menu is None
            && states::differ_only_in(*old(session), *final(session), set![Part::Menu]),
        key.code == KeyCode::Down || key.code == KeyCode::Up ==> ({
            let from = old(session).app.profile_menu->0;
            let last = from.profiles@.len() - 1;
            &&& final(session).app.profile_menu matches Some(to)
            &&& states::same_profiles(from.profiles@, to.profiles@)
            &&& to.address@ == from.address@ && to.name@ == from.name@
            &&& to.selected as int == if key.code == KeyCode::Down {
                if from.selected == last {
                    0
                } else {
                    from.selected + 1
                }
            } else {
                if from.selected == 0 {
                    last
                } else {
                    from.selected - 1
                }
            }
            &&& states::differ_only_in(*old(session), *final(session), set![Part::Menu])
        }),
        key.code != KeyCode::Esc && key.code != KeyCode::Down && key.code != KeyCode::Up
            ==> states::same_session(*old(session), *final(session)),
{
    states::lemma_parts(old(session).app, final(session).app);
    let menu = old(session).app.profile_menu->0;
    assert(menu@.profiles.len() == menu.profiles@.len());
    if key.code == KeyCode::Down || key.code == KeyCode::Up {
        let to = final(session).app.profile_menu->0;
        states::lemma_same_profiles(menu.profiles@, to.profiles@);
    }
}

/// The loop stays while the program runs; it then leaves, and ends a scan that still runs.
pub proof fn law_leaving(session: &Session, exit: Exit)
    requires
        call_ensures(Session::exit, (session,), exit),
    ensures
        exit == Exit::Stay <==> session.app.running,
        exit == Exit::StopDiscoveryAndLeave <==> !session.app.running && session.app.scanning,
        exit == Exit::Leave <==> !session.app.running && !session.app.scanning,
{
}

} // verus!

use funke::agent::{
    authorization_result, confirmation_result, passkey_result, pin_code_result, AgentPrompt,
    AgentReply, AgentRequest,
};
use funke::app::{App, ConfirmType, ListState, PendingConfirm, ProfileMenu};
use funke::audio::AudioProfile;
use funke::bluetooth::{AdapterInfo, DeviceInfo};
use funke::keys::{Action, KeyCode, KeyEvent, CONTROL, NO_MODIFIERS};
use funke::session::{
    probe_result, profiles_result, Command, DeviceOpResult, Exit, Refresh, Session, Task,
};
use tokio::sync::oneshot;

fn adapter(powered: bool) -> AdapterInfo {
    AdapterInfo { name: "hci0".into(), address: "00".into(), powered }
}

fn device(name: &str, address: &str) -> DeviceInfo {
    DeviceInfo {
        name: Some(name.into()),
        address: address.into(),
        paired: false,
        connected: false,
        trusted: false,
        icon: None,
        uuids: vec![],
    }
}

fn paired(name: &str, address: &str) -> DeviceInfo {
    DeviceInfo { paired: true, ..device(name, address) }
}

fn session(devices: Vec<DeviceInfo>) -> Session {
    Session::new(Some(adapter(true)), devices, true)
}

fn press(session: &mut Session, c: char) -> Option<Command> {
    session.on_key(KeyEvent::new(KeyCode::Char(c), NO_MODIFIERS))
}

fn key(session: &mut Session, code: KeyCode) -> Option<Command> {
    session.on_key(KeyEvent::new(code, NO_MODIFIERS))
}

fn message(session: &Session) -> &str {
    session.app.status_message.as_deref().unwrap_or("")
}

fn profile(name: &str, active: bool) -> AudioProfile {
    AudioProfile { name: name.into(), description: format!("The {name}"), active }
}

#[test]
fn scanning_starts_and_stops() {
    let mut s = session(vec![]);
    assert!(matches!(press(&mut s, 's'), Some(Command::StartDiscovery)));
    s.on_scan_started(false);
    assert!(!s.app.scanning);
    s.on_scan_started(true);
    assert!(s.app.scanning);
    s.on_device(device("New", "1"));
    assert_eq!(s.app.total_devices(), 1);
    assert!(matches!(press(&mut s, 's'), Some(Command::StopDiscovery)));
    s.on_scan_stopped();
    assert!(!s.app.scanning);
    assert_eq!(s.app.total_devices(), 0);
    assert_eq!(s.app.list_state.selected(), None);
}

#[test]
fn enter_connects_and_disconnects() {
    let mut s = session(vec![paired("Speaker", "1")]);
    let task = match key(&mut s, KeyCode::Enter) {
        Some(Command::Run(task)) => task,
        _ => panic!("expected a task"),
    };
    assert!(matches!(&task, Task::Connect { address, name } if address == "1" && name == "Speaker"));
    let result = task.finish(Ok(()));
    assert!(s.on_result(result).is_none());
    assert!(s.app.devices[0].connected);
    assert_eq!(message(&s), "Connected to Speaker");
    let task = match key(&mut s, KeyCode::Enter) {
        Some(Command::Run(task)) => task,
        _ => panic!("expected a task"),
    };
    assert!(matches!(&task, Task::Disconnect { .. }));
    s.on_result(task.finish(Ok(())));
    assert!(!s.app.devices[0].connected);
    assert_eq!(message(&s), "Disconnected from Speaker");
}

#[test]
fn unpaired_devices_are_paired_first() {
    let mut s = session(vec![device("Mouse", "1")]);
    for c in ['u', 't'] {
        assert!(press(&mut s, c).is_none());
        assert_eq!(message(&s), "Device not paired");
        s.app.status_message = None;
    }
    assert!(key(&mut s, KeyCode::Enter).is_none());
    assert_eq!(message(&s), "Device not paired");
    let task = match press(&mut s, 'p') {
        Some(Command::Run(task)) => task,
        _ => panic!("expected a task"),
    };
    assert!(matches!(&task, Task::Pair { address, .. } if address == "1"));
    s.on_result(task.finish(Ok(())));
    assert!(s.app.devices[0].paired);
    assert_eq!(message(&s), "Paired with Mouse");
    assert!(press(&mut s, 'p').is_none());
    assert_eq!(message(&s), "Device already paired");
}

#[test]
fn keys_without_a_device_do_nothing() {
    let mut s = session(vec![]);
    for c in ['p', 'u', 't', 'i', 'a'] {
        assert!(press(&mut s, c).is_none());
    }
    assert!(key(&mut s, KeyCode::Enter).is_none());
    assert!(s.app.status_message.is_none());
    assert!(!s.app.show_detail);
}

#[test]
fn unpairing_asks_first() {
    let mut s = session(vec![paired("Speaker", "1"), paired("Other", "2")]);
    assert!(press(&mut s, 'u').is_none());
    assert_eq!(
        s.app.pending_confirm,
        Some(PendingConfirm {
            message: "Unpair device Speaker? y/n".into(),
            address: "1".into(),
            name: "Speaker".into(),
            confirm_type: ConfirmType::Unpair,
        })
    );
    assert!(press(&mut s, 'n').is_none());
    assert!(s.app.pending_confirm.is_none());
    press(&mut s, 'u');
    let task = match press(&mut s, 'y') {
        Some(Command::Run(task)) => task,
        _ => panic!("expected a task"),
    };
    assert!(s.app.pending_confirm.is_none());
    assert!(matches!(&task, Task::Unpair { address, .. } if address == "1"));
    s.on_result(task.finish(Ok(())));
    assert_eq!(s.app.devices.len(), 1);
    assert_eq!(s.app.devices[0].address, "2");
    assert_eq!(message(&s), "Unpaired Speaker");
}

#[test]
fn trust_is_given_at_once_and_taken_after_a_question() {
    let mut s = session(vec![paired("Speaker", "1")]);
    let task = match press(&mut s, 't') {
        Some(Command::Run(task)) => task,
        _ => panic!("expected a task"),
    };
    assert!(matches!(&task, Task::Trust { .. }));
    s.on_result(task.finish(Ok(())));
    assert!(s.app.devices[0].trusted);
    assert_eq!(message(&s), "Trusted Speaker");
    assert!(press(&mut s, 't').is_none());
    let dialog = s.app.pending_confirm.as_ref().unwrap();
    assert_eq!(dialog.message, "Untrust device Speaker? y/n");
    assert_eq!(dialog.confirm_type, ConfirmType::Untrust);
    key(&mut s, KeyCode::Esc);
    assert!(s.app.pending_confirm.is_none());
    press(&mut s, 't');
    let task = match press(&mut s, 'y') {
        Some(Command::Run(task)) => task,
        _ => panic!("expected a task"),
    };
    assert!(matches!(&task, Task::Untrust { .. }));
    s.on_result(task.finish(Ok(())));
    assert!(!s.app.devices[0].trusted);
    assert_eq!(message(&s), "Untrusted Speaker");
}

#[test]
fn failures_are_told() {
    let pair = || ("1".to_string(), "N".to_string());
    let tasks: Vec<(Task, &str)> = vec![
        (Task::Connect { address: pair().0, name: pair().1 }, "Connection failed: why"),
        (Task::Disconnect { address: pair().0, name: pair().1 }, "Disconnect failed: why"),
        (Task::Pair { address: pair().0, name: pair().1 }, "Pairing failed: why"),
        (Task::Trust { address: pair().0, name: pair().1 }, "Trust failed: why"),
        (Task::Untrust { address: pair().0, name: pair().1 }, "Untrust failed: why"),
        (Task::Unpair { address: pair().0, name: pair().1 }, "Unpair failed: why"),
        (
            Task::SwitchProfile {
                address: pair().0,
                name: pair().1,
                profile: "p".into(),
                description: "d".into(),
            },
            "why",
        ),
        (Task::PowerOn, "Power on failed: why"),
        (Task::PowerOff, "Power off failed: why"),
    ];
    for (task, expected) in tasks {
        let mut s = session(vec![]);
        let result = task.finish(Err("why".into()));
        assert!(matches!(&result, DeviceOpResult::Error { .. }));
        assert!(s.on_result(result).is_none());
        assert_eq!(message(&s), expected);
    }
}

#[test]
fn profiles_need_a_connected_audio_device() {
    let mut s = session(vec![paired("Speaker", "1")]);
    press(&mut s, 'a');
    assert_eq!(message(&s), "Device not connected");
    s.app.devices[0].connected = true;
    press(&mut s, 'a');
    assert_eq!(message(&s), "No audio profiles available");
    s.app.devices[0].uuids = vec!["0000110B-0000".into()];
    assert!(matches!(
        press(&mut s, 'a'),
        Some(Command::LoadProfiles { address, name }) if address == "1" && name == "Speaker"
    ));
}

#[test]
fn the_menu_opens_on_the_active_profile() {
    let mut s = session(vec![]);
    let loaded = profiles_result(
        "1".into(),
        "Speaker".into(),
        Ok(vec![profile("a", false), profile("b", true), profile("c", true)]),
    );
    assert!(s.on_result(loaded).is_none());
    assert_eq!(s.app.profile_menu.as_ref().unwrap().selected, 1);
    match key(&mut s, KeyCode::Enter) {
        Some(Command::Run(Task::SwitchProfile { address, name, profile, description })) => {
            assert_eq!((address.as_str(), name.as_str()), ("1", "Speaker"));
            assert_eq!((profile.as_str(), description.as_str()), ("b", "The b"));
        }
        _ => panic!("expected a switch"),
    }
    assert!(s.app.profile_menu.is_none());
    s.on_result(DeviceOpResult::ProfileSwitched { name: "Speaker".into(), profile: "The b".into() });
    assert_eq!(message(&s), "Switched Speaker to The b");
}

#[test]
fn a_menu_without_an_active_profile_opens_on_the_first() {
    let mut s = session(vec![]);
    s.on_result(profiles_result("1".into(), "S".into(), Ok(vec![profile("a", false)])));
    assert_eq!(s.app.profile_menu.as_ref().unwrap().selected, 0);
    assert!(key(&mut s, KeyCode::Esc).is_none());
    assert!(s.app.profile_menu.is_none());
    s.on_result(profiles_result("1".into(), "S".into(), Err("No audio profiles found".into())));
    assert_eq!(message(&s), "No audio profiles found");
    assert!(s.app.profile_menu.is_none());
}

#[test]
fn a_menu_that_points_nowhere_switches_nothing() {
    let mut app = App::new(None, vec![]);
    app.profile_menu = Some(ProfileMenu {
        profiles: vec![],
        selected: 0,
        address: "1".into(),
        name: "S".into(),
    });
    assert_eq!(app.handle_key(KeyEvent::new(KeyCode::Up, NO_MODIFIERS)), Action::Nothing);
    assert_eq!(app.profile_menu.as_ref().unwrap().selected, 0);
    assert!(app.perform(Action::SelectProfile).is_none());
    assert!(app.profile_menu.is_none());
}

#[test]
fn the_power_key_toggles() {
    let mut s = session(vec![paired("Speaker", "1")]);
    s.app.scanning = true;
    s.on_device(device("New", "2"));
    assert!(matches!(press(&mut s, 'o'), Some(Command::Run(Task::PowerOff))));
    assert!(s.on_result(DeviceOpResult::AdapterPoweredOff).is_none());
    assert!(!s.app.adapter.as_ref().unwrap().powered);
    assert!(!s.app.scanning);
    assert_eq!(s.app.total_devices(), 0);
    assert_eq!(s.app.list_state, ListState { offset: 0, selected: None });
    assert_eq!(message(&s), "Adapter powered off");
    assert!(matches!(press(&mut s, 'o'), Some(Command::Run(Task::PowerOn))));
    let asked = s.on_result(DeviceOpResult::AdapterPoweredOn);
    assert!(matches!(asked, Some(Command::FetchDevices(Refresh::AdapterPoweredOn))));
    assert!(s.app.adapter.as_ref().unwrap().powered);
    let next = s.on_devices(Refresh::AdapterPoweredOn, Some(vec![paired("Speaker", "1")]));
    assert!(next.is_none());
    assert_eq!(s.app.list_state.selected(), Some(0));
    assert_eq!(message(&s), "Adapter powered on");
}

#[test]
fn a_found_adapter_brings_devices_and_the_agent() {
    let mut s = Session::new(None, vec![], false);
    let asked = s.on_result(DeviceOpResult::AdapterFound { adapter: adapter(true) });
    assert!(matches!(asked, Some(Command::FetchDevices(Refresh::AdapterFound))));
    assert!(s.app.adapter.is_some());
    let next = s.on_devices(Refresh::AdapterFound, None);
    assert!(matches!(next, Some(Command::RegisterAgent)));
    assert!(s.app.status_message.is_none());
    s.on_agent_registered(false);
    assert!(!s.agent_registered);
    assert_eq!(message(&s), "Adapter found");
    let next = s.on_devices(Refresh::AdapterFound, Some(vec![device("A", "1")]));
    assert!(matches!(next, Some(Command::RegisterAgent)));
    s.on_agent_registered(true);
    assert!(s.agent_registered);
    assert!(s.on_devices(Refresh::AdapterFound, Some(vec![])).is_none());
    assert_eq!(message(&s), "Adapter found");
}

#[test]
fn adapters_are_searched_every_twentieth_tick() {
    let mut s = Session::new(None, vec![], false);
    let probes: Vec<usize> = (1..=60).filter(|_| s.on_tick()).collect();
    assert_eq!(probes, [20, 40, 60]);
    let mut s = session(vec![]);
    assert!((0..60).all(|_| !s.on_tick()));
    assert_eq!(s.adapter_retry_counter, 0);
    s.adapter_retry_counter = u32::MAX;
    assert!(!s.on_tick());
    assert_eq!(s.adapter_retry_counter, u32::MAX);
}

#[test]
fn a_search_reports_an_adapter_only() {
    assert!(matches!(
        probe_result(Ok(Some(adapter(false)))),
        Some(DeviceOpResult::AdapterFound { adapter }) if !adapter.powered
    ));
    assert!(probe_result(Ok(None)).is_none());
    assert!(probe_result(Err(zbus::Error::InterfaceNotFound)).is_none());
}

#[test]
fn the_loop_ends_when_the_user_quits() {
    let mut s = session(vec![]);
    assert_eq!(s.exit(), Exit::Stay);
    s.app.scanning = true;
    assert!(press(&mut s, 'q').is_none());
    assert_eq!(s.exit(), Exit::StopDiscoveryAndLeave);
    s.app.scanning = false;
    assert_eq!(s.exit(), Exit::Leave);
}

#[test]
fn control_is_found_among_other_modifiers() {
    let mut s = session(vec![]);
    s.on_key(KeyEvent::new(KeyCode::Char('c'), 0b1101));
    assert!(s.app.running);
    s.on_key(KeyEvent::new(KeyCode::Char('c'), CONTROL | 1));
    assert!(!s.app.running);
    assert_eq!(crossterm::event::KeyModifiers::CONTROL.bits(), CONTROL);
}

#[test]
fn views_open_and_close() {
    let mut s = session(vec![device("A", "1")]);
    press(&mut s, 'i');
    assert!(s.app.show_detail);
    press(&mut s, 'i');
    assert!(!s.app.show_detail);
    press(&mut s, '?');
    assert!(s.app.show_help);
    key(&mut s, KeyCode::Esc);
    assert!(!s.app.show_help);
}

#[test]
fn a_pin_goes_back_to_the_agent() {
    let mut s = session(vec![]);
    let (reply, mut receiver) = oneshot::channel();
    assert!(s.on_agent_request(AgentRequest::RequestPinCode { device: "d".into(), reply }).is_none());
    for c in ['1', '2', 'x'] {
        press(&mut s, c);
    }
    key(&mut s, KeyCode::Backspace);
    match key(&mut s, KeyCode::Enter) {
        Some(Command::Answer(AgentReply::PinCode { reply, answer })) => reply.send(answer).unwrap(),
        _ => panic!("expected an answer"),
    }
    assert_eq!(receiver.try_recv().unwrap(), Some("12".to_string()));
    assert!(s.app.agent_prompt.is_none());
    assert!(s.on_agent_request(AgentRequest::Cancel).is_none());
    assert_eq!(message(&s), "Pairing cancelled");
}

#[test]
fn an_empty_pin_is_no_pin() {
    let (reply, _receiver) = oneshot::channel();
    let prompt = AgentPrompt::PinCode { device: "d".into(), input: "".into(), reply };
    assert!(matches!(prompt.submit(), Some(AgentReply::PinCode { answer: None, .. })));
}

#[test]
fn a_passkey_goes_back_as_a_number() {
    for (input, expected) in [("123456", Some(123456)), ("000042", Some(42)), ("12a", None), ("", None)] {
        let (reply, _receiver) = oneshot::channel();
        let prompt = AgentPrompt::Passkey { device: "d".into(), input: input.into(), reply };
        match prompt.submit() {
            Some(AgentReply::Passkey { answer, .. }) => assert_eq!(answer, expected),
            _ => panic!("expected a passkey"),
        }
    }
}

#[test]
fn questions_are_answered_with_yes_or_no() {
    for (c, expected) in [('y', true), ('n', false)] {
        let mut s = session(vec![]);
        let (reply, mut receiver) = oneshot::channel();
        s.on_agent_request(AgentRequest::RequestConfirmation { device: "d".into(), passkey: 1, reply });
        assert!(press(&mut s, 'q').is_none());
        match press(&mut s, c) {
            Some(Command::Answer(AgentReply::Decision { reply, answer })) => reply.send(answer).unwrap(),
            _ => panic!("expected an answer"),
        }
        assert_eq!(receiver.try_recv().unwrap(), expected);
        let (reply, mut receiver) = oneshot::channel();
        s.on_agent_request(AgentRequest::AuthorizeService {
            device: "d".into(),
            uuid: "u".into(),
            reply,
        });
        match press(&mut s, c) {
            Some(Command::Answer(AgentReply::Decision { reply, answer })) => reply.send(answer).unwrap(),
            _ => panic!("expected an answer"),
        }
        assert_eq!(receiver.try_recv().unwrap(), expected);
    }
}

#[test]
fn a_cancelled_pairing_declines_the_prompt() {
    let mut s = session(vec![]);
    let (reply, _receiver) = oneshot::channel();
    s.on_agent_request(AgentRequest::RequestPasskey { device: "d".into(), reply });
    press(&mut s, '7');
    assert!(matches!(
        s.on_agent_request(AgentRequest::Cancel),
        Some(Command::Answer(AgentReply::Passkey { answer: None, .. }))
    ));
    assert!(s.app.agent_prompt.is_none());
    let (reply, _receiver) = oneshot::channel();
    let prompt = AgentPrompt::AuthorizeService { device: "d".into(), uuid: "u".into(), reply };
    assert!(matches!(prompt.cancel(), Some(AgentReply::Decision { answer: false, .. })));
    let (reply, _receiver) = oneshot::channel();
    let prompt = AgentPrompt::PinCode { device: "d".into(), input: "1".into(), reply };
    assert!(matches!(prompt.cancel(), Some(AgentReply::PinCode { answer: None, .. })));
}

#[test]
fn a_displayed_passkey_has_no_answer() {
    let mut s = session(vec![]);
    s.on_agent_request(AgentRequest::DisplayPasskey { device: "d".into(), passkey: 7 });
    assert!(press(&mut s, 'x').is_none());
    assert!(s.app.agent_prompt.is_some());
    assert!(key(&mut s, KeyCode::Enter).is_none());
    assert!(s.app.agent_prompt.is_none());
    let prompt = AgentPrompt::DisplayPasskey { device: "d".into(), passkey: 7 };
    assert!(prompt.submit().is_none());
}

#[test]
fn a_new_request_takes_the_place_of_the_old_one() {
    let mut s = session(vec![]);
    let (reply, mut receiver) = oneshot::channel::<Option<u32>>();
    s.on_agent_request(AgentRequest::RequestPasskey { device: "d".into(), reply });
    s.on_agent_request(AgentRequest::DisplayPasskey { device: "e".into(), passkey: 7 });
    assert!(receiver.try_recv().is_err());
    assert!(matches!(&s.app.agent_prompt, Some(AgentPrompt::DisplayPasskey { device, .. }) if device == "e"));
}

#[test]
fn bluez_is_told_what_was_answered() {
    assert_eq!(pin_code_result(Some(Some("1".into()))), Ok("1".to_string()));
    assert_eq!(pin_code_result(Some(None)), Err("PIN entry cancelled".to_string()));
    assert_eq!(pin_code_result(None), Err("PIN entry cancelled".to_string()));
    assert_eq!(passkey_result(Some(Some(7))), Ok(7));
    assert_eq!(passkey_result(Some(None)), Err("Passkey entry cancelled".to_string()));
    assert_eq!(passkey_result(None), Err("Passkey entry cancelled".to_string()));
    assert_eq!(confirmation_result(Some(true)), Ok(()));
    assert_eq!(confirmation_result(Some(false)), Err("Confirmation rejected".to_string()));
    assert_eq!(confirmation_result(None), Err("Confirmation rejected".to_string()));
    assert_eq!(authorization_result(Some(true)), Ok(()));
    assert_eq!(authorization_result(Some(false)), Err("Service not authorized".to_string()));
    assert_eq!(authorization_result(None), Err("Service not authorized".to_string()));
}

#[test]
fn list_states_are_those_of_the_list_widget() {
    let mut ours = ListState::new();
    let mut widget = ratatui::widgets::ListState::default();
    assert_eq!((ours.offset, ours.selected()), (widget.offset(), widget.selected()));
    ours.offset = 5;
    *widget.offset_mut() = 5;
    for index in [Some(3), Some(9), None, Some(0)] {
        ours.select(index);
        widget.select(index);
        assert_eq!((ours.offset, ours.selected()), (widget.offset(), widget.selected()));
    }
}

#[test]
fn down_comes_round_and_up_undoes_it() {
    let mut app = App::new(Some(adapter(true)), vec![device("A", "1"), device("B", "2")]);
    app.add_discovered_device(device("C", "3"));
    for expected in [1, 2, 0] {
        app.select_next();
        assert_eq!(app.list_state.selected(), Some(expected));
    }
    app.select_previous();
    assert_eq!(app.list_state.selected(), Some(2));
    app.select_next();
    assert_eq!(app.list_state.selected(), Some(0));
}

#[test]
fn a_refresh_can_leave_the_selection_behind() {
    let mut s = session(vec![device("A", "1"), device("B", "2")]);
    key(&mut s, KeyCode::Down);
    s.on_devices(Refresh::AdapterPoweredOn, Some(vec![device("A", "1")]));
    assert_eq!(s.app.list_state.selected(), Some(1));
    assert!(s.app.selected_device().is_none());
}

#[test]
fn removing_takes_every_device_with_the_address() {
    let mut app = App::new(
        Some(adapter(true)),
        vec![device("A", "1"), device("B", "2"), device("A again", "1"), device("C", "3")],
    );
    app.remove_known_device("1");
    let left: Vec<&str> = app.devices.iter().map(|d| d.address.as_str()).collect();
    assert_eq!(left, ["2", "3"]);
}

#[test]
fn updates_change_the_first_device_with_the_address() {
    let mut app = App::new(Some(adapter(true)), vec![device("A", "1"), device("A again", "1")]);
    app.update_device_connected("1", true);
    app.update_device_trusted("1", true);
    app.update_device_paired("1");
    let first = &app.devices[0];
    assert!(first.connected && first.trusted && first.paired);
    let second = &app.devices[1];
    assert!(!second.connected && !second.trusted && !second.paired);
}

#[test]
fn escape_closes_one_thing_after_the_other() {
    let mut s = session(vec![device("A", "1")]);
    s.app.show_help = true;
    s.app.show_detail = true;
    s.app.pending_confirm = Some(PendingConfirm {
        message: "?".into(),
        address: "1".into(),
        name: "A".into(),
        confirm_type: ConfirmType::Unpair,
    });
    s.app.profile_menu = Some(ProfileMenu {
        profiles: vec![profile("a", true)],
        selected: 0,
        address: "1".into(),
        name: "A".into(),
    });
    s.app.agent_prompt = Some(AgentPrompt::DisplayPasskey { device: "d".into(), passkey: 1 });
    key(&mut s, KeyCode::Esc);
    assert!(s.app.agent_prompt.is_none() && s.app.profile_menu.is_some());
    key(&mut s, KeyCode::Esc);
    assert!(s.app.profile_menu.is_none() && s.app.pending_confirm.is_some());
    key(&mut s, KeyCode::Esc);
    assert!(s.app.pending_confirm.is_none() && s.app.show_detail);
    key(&mut s, KeyCode::Esc);
    assert!(!s.app.show_detail && s.app.show_help);
    key(&mut s, KeyCode::Esc);
    assert!(!s.app.show_help && s.app.running);
}

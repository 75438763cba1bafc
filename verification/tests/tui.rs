use funke::agent::AgentPrompt;
use funke::app::{App, ConfirmType, PendingConfirm, ProfileMenu};
use funke::audio::AudioProfile;
use funke::bluetooth::{AdapterInfo, DeviceInfo};
use funke::keys::{Action, KeyCode, KeyEvent, CONTROL, NO_MODIFIERS};
use funke::screen::{format_device_line, help_bar_text, try_draw, Area, Body, Tone};
use ratatui::layout::{Alignment, Rect};
use ratatui::style::{Color, Modifier, Style};
use ratatui::text::Line;
use ratatui::widgets::{Block, Borders, Clear, List, ListItem, ListState, Paragraph};
use ratatui::Terminal;

fn test_adapter() -> Option<AdapterInfo> {
    Some(AdapterInfo {
        name: "hci0".to_string(),
        address: "AA:BB:CC:DD:EE:FF".to_string(),
        powered: true,
    })
}

fn test_devices() -> Vec<DeviceInfo> {
    vec![
        DeviceInfo {
            name: Some("Speaker".to_string()),
            address: "11:22:33:44:55:66".to_string(),
            paired: true,
            connected: true,
            trusted: false,
            icon: Some("audio-card".to_string()),
            uuids: vec!["0000110b-0000-1000-8000-00805f9b34fb".to_string()],
        },
        DeviceInfo {
            name: Some("Keyboard".to_string()),
            address: "AA:BB:CC:DD:EE:FF".to_string(),
            paired: true,
            connected: false,
            trusted: true,
            icon: Some("input-keyboard".to_string()),
            uuids: vec![],
        },
        DeviceInfo {
            name: None,
            address: "FF:EE:DD:CC:BB:AA".to_string(),
            paired: false,
            connected: false,
            trusted: false,
            icon: None,
            uuids: vec![],
        },
    ]
}

fn make_key(code: KeyCode, modifiers: u8) -> KeyEvent {
    KeyEvent { code, modifiers }
}

/// Render what the library lays out.
fn draw(frame: &mut ratatui::Frame, app: &mut App) {
    let area = frame.area();
    let outer = Area { x: area.x, y: area.y, width: area.width, height: area.height };
    let screen = try_draw(app, outer).unwrap();
    let rect = |area: Area| Rect::new(area.x, area.y, area.width, area.height);
    let chunks = [
        rect(screen.regions.list),
        rect(screen.regions.help_bar),
        rect(screen.regions.status_bar),
    ];
    let block = Block::default().title(" Devices ").borders(Borders::ALL);
    match &screen.body {
        Body::Notice(lines) => {
            let items: Vec<ListItem> = lines.iter().map(|l| ListItem::new(l.as_str())).collect();
            frame.render_widget(List::new(items).block(block), chunks[0]);
        }
        Body::Devices(rows) => {
            let items: Vec<ListItem> = rows.iter().map(|r| ListItem::new(r.content.as_str())).collect();
            let list = List::new(items).block(block).highlight_symbol("▸ ");
            let mut state = ListState::default()
                .with_offset(app.list_state.offset)
                .with_selected(app.list_state.selected());
            frame.render_stateful_widget(list, chunks[0], &mut state);
        }
    }
    for popup in &screen.popups {
        let place = rect(popup.area);
        let color = match popup.tone {
            Tone::Yellow => Color::Yellow,
            Tone::Cyan => Color::Cyan,
            Tone::Green => Color::Green,
            Tone::Magenta => Color::Magenta,
        };
        let lines: Vec<Line> = popup
            .lines
            .iter()
            .map(|l| {
                if l.selected {
                    Line::styled(l.content.as_str(), Style::default().add_modifier(Modifier::BOLD))
                } else {
                    Line::from(l.content.as_str())
                }
            })
            .collect();
        let alignment = if popup.centered { Alignment::Center } else { Alignment::Left };
        let frame_block = Block::default()
            .borders(Borders::ALL)
            .title(popup.title.as_str())
            .style(Style::default().fg(color));
        frame.render_widget(Clear, place);
        frame.render_widget(Paragraph::new(lines).alignment(alignment).block(frame_block), place);
    }
    frame.render_widget(Paragraph::new(Line::from(screen.help_bar.as_str())), chunks[1]);
    frame.render_widget(Paragraph::new(Line::from(screen.status_bar.as_str())), chunks[2]);
}

fn buffer_content(backend: &ratatui::backend::TestBackend) -> String {
    backend
        .buffer()
        .content()
        .iter()
        .map(|cell| cell.symbol().chars().next().unwrap_or(' '))
        .collect()
}

#[test]
fn test_app_new_with_devices() {
    let app = App::new(test_adapter(), test_devices());
    assert!(app.running);
    assert!(!app.scanning);
    assert!(app.discovered_devices.is_empty());
    assert_eq!(app.adapter.as_ref().unwrap().name, "hci0");
    assert_eq!(app.devices.len(), 3);
    assert_eq!(app.list_state.selected(), Some(0));
}

#[test]
fn test_app_new_empty_devices() {
    let app = App::new(test_adapter(), vec![]);
    assert_eq!(app.list_state.selected(), None);
}

#[test]
fn test_quit_with_q() {
    let mut app = App::new(test_adapter(), vec![]);
    let action = app.handle_key(make_key(KeyCode::Char('q'), NO_MODIFIERS));
    assert!(!app.running);
    assert_eq!(action, Action::Nothing);
}

#[test]
fn test_quit_with_ctrl_c() {
    let mut app = App::new(test_adapter(), vec![]);
    let action = app.handle_key(make_key(KeyCode::Char('c'), CONTROL));
    assert!(!app.running);
    assert_eq!(action, Action::Nothing);
}

#[test]
fn test_other_keys_dont_quit() {
    let mut app = App::new(test_adapter(), vec![]);
    app.handle_key(make_key(KeyCode::Char('a'), NO_MODIFIERS));
    assert!(app.running);
}

#[test]
fn test_s_returns_toggle_scan() {
    let mut app = App::new(test_adapter(), vec![]);
    let action = app.handle_key(make_key(KeyCode::Char('s'), NO_MODIFIERS));
    assert_eq!(action, Action::ToggleScan);
    assert!(app.running); // s does not quit
}

#[test]
fn test_enter_returns_connect_toggle() {
    let mut app = App::new(test_adapter(), test_devices());
    let action = app.handle_key(make_key(KeyCode::Enter, NO_MODIFIERS));
    assert_eq!(action, Action::ConnectToggle);
    assert!(app.running);
}

#[test]
fn test_selected_device() {
    let app = App::new(test_adapter(), test_devices());
    let device = app.selected_device().unwrap();
    assert_eq!(device.address, "11:22:33:44:55:66");
}

#[test]
fn test_selected_device_discovered() {
    let mut app = App::new(test_adapter(), test_devices());
    app.add_discovered_device(DeviceInfo {
        name: Some("New Device".to_string()),
        address: "DD:DD:DD:DD:DD:DD".to_string(),
        paired: false,
        connected: false,
        trusted: false,
        icon: None,
        uuids: vec![],
    });
    app.list_state.select(Some(3));
    let device = app.selected_device().unwrap();
    assert_eq!(device.address, "DD:DD:DD:DD:DD:DD");
}

#[test]
fn test_selected_device_none_when_empty() {
    let app = App::new(test_adapter(), vec![]);
    assert!(app.selected_device().is_none());
}

#[test]
fn test_update_device_connected() {
    let mut app = App::new(test_adapter(), test_devices());
    // Keyboard is at index 1, paired but not connected
    assert!(!app.devices[1].connected);
    app.update_device_connected("AA:BB:CC:DD:EE:FF", true);
    assert!(app.devices[1].connected);
}

#[test]
fn test_update_device_disconnected() {
    let mut app = App::new(test_adapter(), test_devices());
    // Speaker is at index 0, connected
    assert!(app.devices[0].connected);
    app.update_device_connected("11:22:33:44:55:66", false);
    assert!(!app.devices[0].connected);
}

#[test]
fn test_update_device_connected_unknown_address() {
    let mut app = App::new(test_adapter(), test_devices());
    // Should not panic for unknown address
    app.update_device_connected("00:00:00:00:00:00", true);
    // No device changed
    assert!(app.devices[0].connected);
    assert!(!app.devices[1].connected);
}

#[test]
fn test_status_message_initially_none() {
    let app = App::new(test_adapter(), test_devices());
    assert!(app.status_message.is_none());
}

#[test]
fn test_navigate_down() {
    let mut app = App::new(test_adapter(), test_devices());
    assert_eq!(app.list_state.selected(), Some(0));
    app.handle_key(make_key(KeyCode::Down, NO_MODIFIERS));
    assert_eq!(app.list_state.selected(), Some(1));
    app.handle_key(make_key(KeyCode::Down, NO_MODIFIERS));
    assert_eq!(app.list_state.selected(), Some(2));
    // Wraps around
    app.handle_key(make_key(KeyCode::Down, NO_MODIFIERS));
    assert_eq!(app.list_state.selected(), Some(0));
}

#[test]
fn test_navigate_up() {
    let mut app = App::new(test_adapter(), test_devices());
    assert_eq!(app.list_state.selected(), Some(0));
    // Wraps to last
    app.handle_key(make_key(KeyCode::Up, NO_MODIFIERS));
    assert_eq!(app.list_state.selected(), Some(2));
    app.handle_key(make_key(KeyCode::Up, NO_MODIFIERS));
    assert_eq!(app.list_state.selected(), Some(1));
}

#[test]
fn test_navigate_empty_list() {
    let mut app = App::new(test_adapter(), vec![]);
    app.handle_key(make_key(KeyCode::Down, NO_MODIFIERS));
    assert_eq!(app.list_state.selected(), None);
    app.handle_key(make_key(KeyCode::Up, NO_MODIFIERS));
    assert_eq!(app.list_state.selected(), None);
}

#[test]
fn test_navigate_includes_discovered_devices() {
    let mut app = App::new(test_adapter(), test_devices());
    app.add_discovered_device(DeviceInfo {
        name: Some("New Device".to_string()),
        address: "DD:DD:DD:DD:DD:DD".to_string(),
        paired: false,
        connected: false,
        trusted: false,
        icon: None,
        uuids: vec![],
    });
    assert_eq!(app.total_devices(), 4);

    // Navigate to the discovered device (index 3)
    app.list_state.select(Some(2));
    app.handle_key(make_key(KeyCode::Down, NO_MODIFIERS));
    assert_eq!(app.list_state.selected(), Some(3));

    // Wraps around from discovered device
    app.handle_key(make_key(KeyCode::Down, NO_MODIFIERS));
    assert_eq!(app.list_state.selected(), Some(0));
}

#[test]
fn test_add_discovered_device() {
    let mut app = App::new(test_adapter(), test_devices());
    app.add_discovered_device(DeviceInfo {
        name: Some("New Device".to_string()),
        address: "DD:DD:DD:DD:DD:DD".to_string(),
        paired: false,
        connected: false,
        trusted: false,
        icon: None,
        uuids: vec![],
    });
    assert_eq!(app.discovered_devices.len(), 1);
    assert_eq!(app.discovered_devices[0].display_name(), "New Device");
}

#[test]
fn test_add_discovered_device_dedup_known() {
    let mut app = App::new(test_adapter(), test_devices());
    // Try to add a device that already exists in known devices
    app.add_discovered_device(DeviceInfo {
        name: Some("Speaker".to_string()),
        address: "11:22:33:44:55:66".to_string(),
        paired: false,
        connected: false,
        trusted: false,
        icon: None,
        uuids: vec![],
    });
    assert!(app.discovered_devices.is_empty());
}

#[test]
fn test_add_discovered_device_dedup_discovered() {
    let mut app = App::new(test_adapter(), test_devices());
    let device = DeviceInfo {
        name: Some("New Device".to_string()),
        address: "DD:DD:DD:DD:DD:DD".to_string(),
        paired: false,
        connected: false,
        trusted: false,
        icon: None,
        uuids: vec![],
    };
    app.add_discovered_device(device.clone());
    app.add_discovered_device(device);
    assert_eq!(app.discovered_devices.len(), 1);
}

#[test]
fn test_add_discovered_device_selects_first_when_empty() {
    let mut app = App::new(test_adapter(), vec![]);
    assert_eq!(app.list_state.selected(), None);
    app.add_discovered_device(DeviceInfo {
        name: Some("New Device".to_string()),
        address: "DD:DD:DD:DD:DD:DD".to_string(),
        paired: false,
        connected: false,
        trusted: false,
        icon: None,
        uuids: vec![],
    });
    assert_eq!(app.list_state.selected(), Some(0));
}

#[test]
fn test_clear_discovered_devices() {
    let mut app = App::new(test_adapter(), test_devices());
    app.add_discovered_device(DeviceInfo {
        name: Some("New Device".to_string()),
        address: "DD:DD:DD:DD:DD:DD".to_string(),
        paired: false,
        connected: false,
        trusted: false,
        icon: None,
        uuids: vec![],
    });
    assert_eq!(app.total_devices(), 4);

    app.clear_discovered_devices();
    assert!(app.discovered_devices.is_empty());
    assert_eq!(app.total_devices(), 3);
}

#[test]
fn test_clear_discovered_devices_adjusts_selection() {
    let mut app = App::new(test_adapter(), test_devices());
    app.add_discovered_device(DeviceInfo {
        name: Some("New Device".to_string()),
        address: "DD:DD:DD:DD:DD:DD".to_string(),
        paired: false,
        connected: false,
        trusted: false,
        icon: None,
        uuids: vec![],
    });
    // Select the discovered device (index 3)
    app.list_state.select(Some(3));

    app.clear_discovered_devices();
    // Selection should clamp to last known device
    assert_eq!(app.list_state.selected(), Some(2));
}

#[test]
fn test_clear_discovered_devices_empty_known() {
    let mut app = App::new(test_adapter(), vec![]);
    app.add_discovered_device(DeviceInfo {
        name: Some("New Device".to_string()),
        address: "DD:DD:DD:DD:DD:DD".to_string(),
        paired: false,
        connected: false,
        trusted: false,
        icon: None,
        uuids: vec![],
    });
    assert_eq!(app.list_state.selected(), Some(0));

    app.clear_discovered_devices();
    assert_eq!(app.list_state.selected(), None);
}

#[test]
fn test_draw_with_devices() {
    let mut app = App::new(test_adapter(), test_devices());
    let backend = ratatui::backend::TestBackend::new(80, 24);
    let mut terminal = Terminal::new(backend).unwrap();
    terminal.draw(|frame| draw(frame, &mut app)).unwrap();

    let content = buffer_content(terminal.backend());
    assert!(content.contains("Speaker"));
    assert!(content.contains("Keyboard"));
    assert!(content.contains("[P][C][ ] Speaker"));
    assert!(content.contains("[P][ ][T] Keyboard"));
    assert!(content.contains("[ ][ ][ ] FF:EE:DD:CC:BB:AA"));
    assert!(content.contains("Power: ON"));
}

#[test]
fn test_draw_empty_devices() {
    let mut app = App::new(test_adapter(), vec![]);
    let backend = ratatui::backend::TestBackend::new(80, 24);
    let mut terminal = Terminal::new(backend).unwrap();
    terminal.draw(|frame| draw(frame, &mut app)).unwrap();

    let content = buffer_content(terminal.backend());
    assert!(content.contains("No devices"));
}

#[test]
fn test_draw_powered_off() {
    let mut adapter = test_adapter();
    adapter.as_mut().unwrap().powered = false;
    let mut app = App::new(adapter, vec![]);
    let backend = ratatui::backend::TestBackend::new(80, 24);
    let mut terminal = Terminal::new(backend).unwrap();
    terminal.draw(|frame| draw(frame, &mut app)).unwrap();

    let content = buffer_content(terminal.backend());
    assert!(content.contains("Power: OFF"));
}

#[test]
fn test_draw_scanning_indicator() {
    let mut app = App::new(test_adapter(), vec![]);
    app.scanning = true;
    let backend = ratatui::backend::TestBackend::new(80, 24);
    let mut terminal = Terminal::new(backend).unwrap();
    terminal.draw(|frame| draw(frame, &mut app)).unwrap();

    let content = buffer_content(terminal.backend());
    assert!(content.contains("Scanning..."));
}

#[test]
fn test_draw_no_scanning_indicator_when_not_scanning() {
    let mut app = App::new(test_adapter(), vec![]);
    app.scanning = false;
    let backend = ratatui::backend::TestBackend::new(80, 24);
    let mut terminal = Terminal::new(backend).unwrap();
    terminal.draw(|frame| draw(frame, &mut app)).unwrap();

    let content = buffer_content(terminal.backend());
    assert!(!content.contains("Scanning"));
}

#[test]
fn test_draw_status_message() {
    let mut app = App::new(test_adapter(), test_devices());
    app.status_message = Some("Connected to Speaker".to_string());
    let backend = ratatui::backend::TestBackend::new(80, 24);
    let mut terminal = Terminal::new(backend).unwrap();
    terminal.draw(|frame| draw(frame, &mut app)).unwrap();

    let content = buffer_content(terminal.backend());
    assert!(content.contains("Connected to Speaker"));
}

#[test]
fn test_draw_no_status_message() {
    let mut app = App::new(test_adapter(), test_devices());
    let backend = ratatui::backend::TestBackend::new(80, 24);
    let mut terminal = Terminal::new(backend).unwrap();
    terminal.draw(|frame| draw(frame, &mut app)).unwrap();

    let content = buffer_content(terminal.backend());
    // Should not contain a pipe separator for status message
    // Status line is: " hci0 (AA:BB:CC:DD:EE:FF) | Power: ON"
    assert!(!content.contains("Connected to"));
    assert!(!content.contains("Disconnected from"));
}

#[test]
fn test_draw_discovered_devices_distinguishable() {
    let mut app = App::new(test_adapter(), test_devices());
    app.add_discovered_device(DeviceInfo {
        name: Some("New Headset".to_string()),
        address: "DD:DD:DD:DD:DD:DD".to_string(),
        paired: false,
        connected: false,
        trusted: false,
        icon: None,
        uuids: vec![],
    });

    let backend = ratatui::backend::TestBackend::new(80, 24);
    let mut terminal = Terminal::new(backend).unwrap();
    terminal.draw(|frame| draw(frame, &mut app)).unwrap();

    let content = buffer_content(terminal.backend());
    // Known devices use [P][C] or [ ][ ] format
    assert!(content.contains("[P][C][ ] Speaker"));
    // Discovered devices use [~][ ][ ] format
    assert!(content.contains("[~][ ][ ] New Headset"));
}

#[test]
fn test_format_device_line() {
    let device = DeviceInfo {
        name: Some("Test".to_string()),
        address: "AA:BB:CC:DD:EE:FF".to_string(),
        paired: true,
        connected: true,
        trusted: false,
        icon: None,
        uuids: vec![],
    };
    assert_eq!(format_device_line(&device, false), "[P][C][ ] Test");

    let device2 = DeviceInfo {
        name: None,
        address: "11:22:33:44:55:66".to_string(),
        paired: false,
        connected: false,
        trusted: false,
        icon: None,
        uuids: vec![],
    };
    assert_eq!(format_device_line(&device2, false), "[ ][ ][ ] 11:22:33:44:55:66");
}

#[test]
fn test_format_device_line_trusted() {
    let device = DeviceInfo {
        name: Some("Trusted Device".to_string()),
        address: "AA:BB:CC:DD:EE:FF".to_string(),
        paired: true,
        connected: false,
        trusted: true,
        icon: None,
        uuids: vec![],
    };
    assert_eq!(format_device_line(&device, false), "[P][ ][T] Trusted Device");
}

#[test]
fn test_format_device_line_discovered() {
    let device = DeviceInfo {
        name: Some("New Device".to_string()),
        address: "DD:DD:DD:DD:DD:DD".to_string(),
        paired: false,
        connected: false,
        trusted: false,
        icon: None,
        uuids: vec![],
    };
    assert_eq!(format_device_line(&device, true), "[~][ ][ ] New Device");
}

#[test]
fn test_p_returns_pair_action() {
    let mut app = App::new(test_adapter(), test_devices());
    let action = app.handle_key(make_key(KeyCode::Char('p'), NO_MODIFIERS));
    assert_eq!(action, Action::Pair);
    assert!(app.running);
}

#[test]
fn test_u_returns_request_unpair_action() {
    let mut app = App::new(test_adapter(), test_devices());
    let action = app.handle_key(make_key(KeyCode::Char('u'), NO_MODIFIERS));
    assert_eq!(action, Action::RequestUnpair);
}

#[test]
fn test_confirm_dialog_y_returns_confirm_unpair() {
    let mut app = App::new(test_adapter(), test_devices());
    app.pending_confirm = Some(PendingConfirm {
        message: "Unpair device Speaker? y/n".to_string(),
        address: "11:22:33:44:55:66".to_string(),
        name: "Speaker".to_string(),
        confirm_type: ConfirmType::Unpair,
    });
    let action = app.handle_key(make_key(KeyCode::Char('y'), NO_MODIFIERS));
    assert_eq!(action, Action::ConfirmUnpair);
}

#[test]
fn test_confirm_dialog_n_returns_cancel() {
    let mut app = App::new(test_adapter(), test_devices());
    app.pending_confirm = Some(PendingConfirm {
        message: "Unpair device Speaker? y/n".to_string(),
        address: "11:22:33:44:55:66".to_string(),
        name: "Speaker".to_string(),
        confirm_type: ConfirmType::Unpair,
    });
    let action = app.handle_key(make_key(KeyCode::Char('n'), NO_MODIFIERS));
    assert_eq!(action, Action::CancelConfirm);
}

#[test]
fn test_confirm_dialog_esc_returns_cancel() {
    let mut app = App::new(test_adapter(), test_devices());
    app.pending_confirm = Some(PendingConfirm {
        message: "Unpair device Speaker? y/n".to_string(),
        address: "11:22:33:44:55:66".to_string(),
        name: "Speaker".to_string(),
        confirm_type: ConfirmType::Unpair,
    });
    let action = app.handle_key(make_key(KeyCode::Esc, NO_MODIFIERS));
    assert_eq!(action, Action::CancelConfirm);
}

#[test]
fn test_confirm_dialog_blocks_other_keys() {
    let mut app = App::new(test_adapter(), test_devices());
    app.pending_confirm = Some(PendingConfirm {
        message: "Unpair device Speaker? y/n".to_string(),
        address: "11:22:33:44:55:66".to_string(),
        name: "Speaker".to_string(),
        confirm_type: ConfirmType::Unpair,
    });
    // 'q' should not quit while confirm is active
    let action = app.handle_key(make_key(KeyCode::Char('q'), NO_MODIFIERS));
    assert_eq!(action, Action::Nothing);
    assert!(app.running);
}

#[test]
fn test_update_device_paired_known() {
    let mut app = App::new(test_adapter(), test_devices());
    // Device at index 2 is unpaired
    assert!(!app.devices[2].paired);
    app.update_device_paired("FF:EE:DD:CC:BB:AA");
    assert!(app.devices[2].paired);
}

#[test]
fn test_update_device_paired_moves_discovered() {
    let mut app = App::new(test_adapter(), test_devices());
    app.add_discovered_device(DeviceInfo {
        name: Some("New Device".to_string()),
        address: "DD:DD:DD:DD:DD:DD".to_string(),
        paired: false,
        connected: false,
        trusted: false,
        icon: None,
        uuids: vec![],
    });
    assert_eq!(app.discovered_devices.len(), 1);
    assert_eq!(app.devices.len(), 3);

    app.update_device_paired("DD:DD:DD:DD:DD:DD");

    assert!(app.discovered_devices.is_empty());
    assert_eq!(app.devices.len(), 4);
    assert!(app.devices[3].paired);
}

#[test]
fn test_remove_known_device() {
    let mut app = App::new(test_adapter(), test_devices());
    assert_eq!(app.devices.len(), 3);
    app.remove_known_device("AA:BB:CC:DD:EE:FF");
    assert_eq!(app.devices.len(), 2);
    assert!(!app.devices.iter().any(|d| d.address == "AA:BB:CC:DD:EE:FF"));
}

#[test]
fn test_remove_known_device_adjusts_selection() {
    let mut app = App::new(test_adapter(), test_devices());
    app.list_state.select(Some(2));
    app.remove_known_device("FF:EE:DD:CC:BB:AA"); // remove last
    assert_eq!(app.list_state.selected(), Some(1));
}

#[test]
fn test_remove_known_device_all_empty() {
    let devices = vec![DeviceInfo {
        name: Some("Only".to_string()),
        address: "11:11:11:11:11:11".to_string(),
        paired: true,
        connected: false,
        trusted: false,
        icon: None,
        uuids: vec![],
    }];
    let mut app = App::new(test_adapter(), devices);
    app.remove_known_device("11:11:11:11:11:11");
    assert_eq!(app.list_state.selected(), None);
}

#[test]
fn test_pending_confirm_initially_none() {
    let app = App::new(test_adapter(), test_devices());
    assert!(app.pending_confirm.is_none());
}

#[test]
fn test_agent_prompt_initially_none() {
    let app = App::new(test_adapter(), test_devices());
    assert!(app.agent_prompt.is_none());
}

#[test]
fn test_agent_pin_input_typing() {
    let mut app = App::new(test_adapter(), test_devices());
    let (_tx, _rx) = tokio::sync::oneshot::channel();
    app.agent_prompt = Some(AgentPrompt::PinCode {
        device: "test".to_string(),
        input: String::new(),
        reply: _tx,
    });
    // Type characters
    let action = app.handle_key(make_key(KeyCode::Char('1'), NO_MODIFIERS));
    assert_eq!(action, Action::Nothing);
    if let Some(AgentPrompt::PinCode { input, .. }) = &app.agent_prompt {
        assert_eq!(input, "1");
    } else {
        panic!("Expected PinCode prompt");
    }

    app.handle_key(make_key(KeyCode::Char('2'), NO_MODIFIERS));
    app.handle_key(make_key(KeyCode::Char('3'), NO_MODIFIERS));
    if let Some(AgentPrompt::PinCode { input, .. }) = &app.agent_prompt {
        assert_eq!(input, "123");
    }
}

#[test]
fn test_agent_pin_input_backspace() {
    let mut app = App::new(test_adapter(), test_devices());
    let (tx, _rx) = tokio::sync::oneshot::channel();
    app.agent_prompt = Some(AgentPrompt::PinCode {
        device: "test".to_string(),
        input: "123".to_string(),
        reply: tx,
    });
    app.handle_key(make_key(KeyCode::Backspace, NO_MODIFIERS));
    if let Some(AgentPrompt::PinCode { input, .. }) = &app.agent_prompt {
        assert_eq!(input, "12");
    }
}

#[test]
fn test_agent_pin_enter_submits() {
    let mut app = App::new(test_adapter(), test_devices());
    let (tx, _rx) = tokio::sync::oneshot::channel();
    app.agent_prompt = Some(AgentPrompt::PinCode {
        device: "test".to_string(),
        input: "1234".to_string(),
        reply: tx,
    });
    let action = app.handle_key(make_key(KeyCode::Enter, NO_MODIFIERS));
    assert_eq!(action, Action::AgentSubmit);
}

#[test]
fn test_agent_pin_esc_cancels() {
    let mut app = App::new(test_adapter(), test_devices());
    let (tx, _rx) = tokio::sync::oneshot::channel();
    app.agent_prompt = Some(AgentPrompt::PinCode {
        device: "test".to_string(),
        input: String::new(),
        reply: tx,
    });
    let action = app.handle_key(make_key(KeyCode::Esc, NO_MODIFIERS));
    assert_eq!(action, Action::AgentCancel);
}

#[test]
fn test_agent_confirmation_y_submits() {
    let mut app = App::new(test_adapter(), test_devices());
    let (tx, _rx) = tokio::sync::oneshot::channel();
    app.agent_prompt = Some(AgentPrompt::Confirmation {
        device: "test".to_string(),
        passkey: 123456,
        reply: tx,
    });
    let action = app.handle_key(make_key(KeyCode::Char('y'), NO_MODIFIERS));
    assert_eq!(action, Action::AgentSubmit);
}

#[test]
fn test_agent_confirmation_n_cancels() {
    let mut app = App::new(test_adapter(), test_devices());
    let (tx, _rx) = tokio::sync::oneshot::channel();
    app.agent_prompt = Some(AgentPrompt::Confirmation {
        device: "test".to_string(),
        passkey: 123456,
        reply: tx,
    });
    let action = app.handle_key(make_key(KeyCode::Char('n'), NO_MODIFIERS));
    assert_eq!(action, Action::AgentCancel);
}

#[test]
fn test_agent_prompt_blocks_other_keys() {
    let mut app = App::new(test_adapter(), test_devices());
    let (tx, _rx) = tokio::sync::oneshot::channel();
    app.agent_prompt = Some(AgentPrompt::Confirmation {
        device: "test".to_string(),
        passkey: 123456,
        reply: tx,
    });
    // 'q' should not quit while agent prompt is active
    let action = app.handle_key(make_key(KeyCode::Char('q'), NO_MODIFIERS));
    assert_eq!(action, Action::Nothing);
    assert!(app.running);
}

#[test]
fn test_agent_passkey_input_typing() {
    let mut app = App::new(test_adapter(), test_devices());
    let (tx, _rx) = tokio::sync::oneshot::channel();
    app.agent_prompt = Some(AgentPrompt::Passkey {
        device: "test".to_string(),
        input: String::new(),
        reply: tx,
    });
    app.handle_key(make_key(KeyCode::Char('4'), NO_MODIFIERS));
    app.handle_key(make_key(KeyCode::Char('2'), NO_MODIFIERS));
    if let Some(AgentPrompt::Passkey { input, .. }) = &app.agent_prompt {
        assert_eq!(input, "42");
    }
}

#[test]
fn test_agent_display_passkey_dismiss() {
    let mut app = App::new(test_adapter(), test_devices());
    app.agent_prompt = Some(AgentPrompt::DisplayPasskey {
        device: "test".to_string(),
        passkey: 123456,
    });
    let action = app.handle_key(make_key(KeyCode::Esc, NO_MODIFIERS));
    assert_eq!(action, Action::AgentCancel);
}

#[test]
fn test_agent_authorize_service_y() {
    let mut app = App::new(test_adapter(), test_devices());
    let (tx, _rx) = tokio::sync::oneshot::channel();
    app.agent_prompt = Some(AgentPrompt::AuthorizeService {
        device: "test".to_string(),
        uuid: "0000110b-0000-1000-8000-00805f9b34fb".to_string(),
        reply: tx,
    });
    let action = app.handle_key(make_key(KeyCode::Char('y'), NO_MODIFIERS));
    assert_eq!(action, Action::AgentSubmit);
}

#[test]
fn test_draw_agent_pin_prompt() {
    let mut app = App::new(test_adapter(), test_devices());
    let (tx, _rx) = tokio::sync::oneshot::channel();
    app.agent_prompt = Some(AgentPrompt::PinCode {
        device: "/org/bluez/hci0/dev_AA_BB".to_string(),
        input: "12".to_string(),
        reply: tx,
    });
    let backend = ratatui::backend::TestBackend::new(80, 24);
    let mut terminal = Terminal::new(backend).unwrap();
    terminal.draw(|frame| draw(frame, &mut app)).unwrap();

    let content = buffer_content(terminal.backend());
    assert!(content.contains("PIN Entry"));
    assert!(content.contains("12"));
}

#[test]
fn test_draw_agent_confirmation_prompt() {
    let mut app = App::new(test_adapter(), test_devices());
    let (tx, _rx) = tokio::sync::oneshot::channel();
    app.agent_prompt = Some(AgentPrompt::Confirmation {
        device: "/org/bluez/hci0/dev_AA_BB".to_string(),
        passkey: 123456,
        reply: tx,
    });
    let backend = ratatui::backend::TestBackend::new(80, 24);
    let mut terminal = Terminal::new(backend).unwrap();
    terminal.draw(|frame| draw(frame, &mut app)).unwrap();

    let content = buffer_content(terminal.backend());
    assert!(content.contains("Confirm Passkey"));
    assert!(content.contains("123456"));
}

#[test]
fn test_draw_agent_display_passkey() {
    let mut app = App::new(test_adapter(), test_devices());
    app.agent_prompt = Some(AgentPrompt::DisplayPasskey {
        device: "/org/bluez/hci0/dev_AA_BB".to_string(),
        passkey: 42,
    });
    let backend = ratatui::backend::TestBackend::new(80, 24);
    let mut terminal = Terminal::new(backend).unwrap();
    terminal.draw(|frame| draw(frame, &mut app)).unwrap();

    let content = buffer_content(terminal.backend());
    assert!(content.contains("Passkey Display"));
    assert!(content.contains("000042"));
}

#[test]
fn test_draw_confirm_dialog() {
    let mut app = App::new(test_adapter(), test_devices());
    app.pending_confirm = Some(PendingConfirm {
        message: "Unpair device Speaker? y/n".to_string(),
        address: "11:22:33:44:55:66".to_string(),
        name: "Speaker".to_string(),
        confirm_type: ConfirmType::Unpair,
    });
    let backend = ratatui::backend::TestBackend::new(80, 24);
    let mut terminal = Terminal::new(backend).unwrap();
    terminal.draw(|frame| draw(frame, &mut app)).unwrap();

    let content = buffer_content(terminal.backend());
    assert!(content.contains("Unpair device Speaker? y/n"));
    assert!(content.contains("Confirm"));
}

#[test]
fn test_show_detail_initially_false() {
    let app = App::new(test_adapter(), test_devices());
    assert!(!app.show_detail);
}

#[test]
fn test_i_returns_toggle_detail() {
    let mut app = App::new(test_adapter(), test_devices());
    let action = app.handle_key(make_key(KeyCode::Char('i'), NO_MODIFIERS));
    assert_eq!(action, Action::ToggleDetail);
    assert!(app.running);
}

#[test]
fn test_detail_view_i_closes() {
    let mut app = App::new(test_adapter(), test_devices());
    app.show_detail = true;
    let action = app.handle_key(make_key(KeyCode::Char('i'), NO_MODIFIERS));
    assert_eq!(action, Action::CloseDetail);
}

#[test]
fn test_detail_view_esc_closes() {
    let mut app = App::new(test_adapter(), test_devices());
    app.show_detail = true;
    let action = app.handle_key(make_key(KeyCode::Esc, NO_MODIFIERS));
    assert_eq!(action, Action::CloseDetail);
}

#[test]
fn test_detail_view_blocks_other_keys() {
    let mut app = App::new(test_adapter(), test_devices());
    app.show_detail = true;
    // 'q' should not quit while detail view is open
    let action = app.handle_key(make_key(KeyCode::Char('q'), NO_MODIFIERS));
    assert_eq!(action, Action::Nothing);
    assert!(app.running);
    // 's' should not toggle scan
    let action = app.handle_key(make_key(KeyCode::Char('s'), NO_MODIFIERS));
    assert_eq!(action, Action::Nothing);
}

#[test]
fn test_draw_detail_view() {
    let mut app = App::new(test_adapter(), test_devices());
    app.show_detail = true;
    let backend = ratatui::backend::TestBackend::new(80, 30);
    let mut terminal = Terminal::new(backend).unwrap();
    terminal.draw(|frame| draw(frame, &mut app)).unwrap();

    let content = buffer_content(terminal.backend());
    assert!(content.contains("Device Details"));
    assert!(content.contains("Speaker"));
    assert!(content.contains("11:22:33:44:55:66"));
    assert!(content.contains("Paired"));
    assert!(content.contains("Connected"));
    assert!(content.contains("Trusted"));
    assert!(content.contains("audio-card"));
    assert!(content.contains("Profiles/UUIDs"));
}

#[test]
fn test_draw_detail_view_no_icon() {
    let mut app = App::new(test_adapter(), test_devices());
    // Select device at index 2 (no name, no icon)
    app.list_state.select(Some(2));
    app.show_detail = true;
    let backend = ratatui::backend::TestBackend::new(80, 30);
    let mut terminal = Terminal::new(backend).unwrap();
    terminal.draw(|frame| draw(frame, &mut app)).unwrap();

    let content = buffer_content(terminal.backend());
    assert!(content.contains("Device Details"));
    assert!(content.contains("FF:EE:DD:CC:BB:AA"));
    assert!(content.contains("unknown"));
    assert!(content.contains("(none)"));
}

#[test]
fn test_draw_detail_view_with_uuids() {
    let mut app = App::new(test_adapter(), test_devices());
    // Speaker at index 0 has a UUID
    app.list_state.select(Some(0));
    app.show_detail = true;
    let backend = ratatui::backend::TestBackend::new(80, 30);
    let mut terminal = Terminal::new(backend).unwrap();
    terminal.draw(|frame| draw(frame, &mut app)).unwrap();

    let content = buffer_content(terminal.backend());
    assert!(content.contains("0000110b-0000-1000-8000-00805f9b34fb"));
}

#[test]
fn test_draw_detail_view_trusted_device() {
    let mut app = App::new(test_adapter(), test_devices());
    // Keyboard at index 1 is trusted
    app.list_state.select(Some(1));
    app.show_detail = true;
    let backend = ratatui::backend::TestBackend::new(80, 30);
    let mut terminal = Terminal::new(backend).unwrap();
    terminal.draw(|frame| draw(frame, &mut app)).unwrap();

    let content = buffer_content(terminal.backend());
    assert!(content.contains("Trusted:   Yes"));
}

#[test]
fn test_detail_not_shown_when_no_device_selected() {
    let mut app = App::new(test_adapter(), vec![]);
    app.show_detail = true;
    let backend = ratatui::backend::TestBackend::new(80, 24);
    let mut terminal = Terminal::new(backend).unwrap();
    terminal.draw(|frame| draw(frame, &mut app)).unwrap();

    let content = buffer_content(terminal.backend());
    // No device selected, so detail popup should not appear
    assert!(!content.contains("Device Details"));
}

#[test]
fn test_t_returns_trust_toggle() {
    let mut app = App::new(test_adapter(), test_devices());
    let action = app.handle_key(make_key(KeyCode::Char('t'), NO_MODIFIERS));
    assert_eq!(action, Action::TrustToggle);
    assert!(app.running);
}

#[test]
fn test_update_device_trusted() {
    let mut app = App::new(test_adapter(), test_devices());
    // Speaker at index 0 is not trusted
    assert!(!app.devices[0].trusted);
    app.update_device_trusted("11:22:33:44:55:66", true);
    assert!(app.devices[0].trusted);
}

#[test]
fn test_update_device_untrusted() {
    let mut app = App::new(test_adapter(), test_devices());
    // Keyboard at index 1 is trusted
    assert!(app.devices[1].trusted);
    app.update_device_trusted("AA:BB:CC:DD:EE:FF", false);
    assert!(!app.devices[1].trusted);
}

#[test]
fn test_update_device_trusted_unknown_address() {
    let mut app = App::new(test_adapter(), test_devices());
    // Should not panic for unknown address
    app.update_device_trusted("00:00:00:00:00:00", true);
    assert!(!app.devices[0].trusted);
    assert!(app.devices[1].trusted);
}

#[test]
fn test_confirm_untrust_dialog_y_returns_confirm_untrust() {
    let mut app = App::new(test_adapter(), test_devices());
    app.pending_confirm = Some(PendingConfirm {
        message: "Untrust device Keyboard? y/n".to_string(),
        address: "AA:BB:CC:DD:EE:FF".to_string(),
        name: "Keyboard".to_string(),
        confirm_type: ConfirmType::Untrust,
    });
    let action = app.handle_key(make_key(KeyCode::Char('y'), NO_MODIFIERS));
    assert_eq!(action, Action::ConfirmUntrust);
}

#[test]
fn test_confirm_untrust_dialog_n_returns_cancel() {
    let mut app = App::new(test_adapter(), test_devices());
    app.pending_confirm = Some(PendingConfirm {
        message: "Untrust device Keyboard? y/n".to_string(),
        address: "AA:BB:CC:DD:EE:FF".to_string(),
        name: "Keyboard".to_string(),
        confirm_type: ConfirmType::Untrust,
    });
    let action = app.handle_key(make_key(KeyCode::Char('n'), NO_MODIFIERS));
    assert_eq!(action, Action::CancelConfirm);
}

#[test]
fn test_confirm_untrust_dialog_blocks_other_keys() {
    let mut app = App::new(test_adapter(), test_devices());
    app.pending_confirm = Some(PendingConfirm {
        message: "Untrust device Keyboard? y/n".to_string(),
        address: "AA:BB:CC:DD:EE:FF".to_string(),
        name: "Keyboard".to_string(),
        confirm_type: ConfirmType::Untrust,
    });
    let action = app.handle_key(make_key(KeyCode::Char('q'), NO_MODIFIERS));
    assert_eq!(action, Action::Nothing);
    assert!(app.running);
}

#[test]
fn test_draw_trust_indicator_in_device_list() {
    let mut app = App::new(test_adapter(), test_devices());
    let backend = ratatui::backend::TestBackend::new(80, 24);
    let mut terminal = Terminal::new(backend).unwrap();
    terminal.draw(|frame| draw(frame, &mut app)).unwrap();

    let content = buffer_content(terminal.backend());
    // Keyboard is trusted
    assert!(content.contains("[P][ ][T] Keyboard"));
    // Speaker is not trusted
    assert!(content.contains("[P][C][ ] Speaker"));
}

#[test]
fn test_draw_untrust_confirm_dialog() {
    let mut app = App::new(test_adapter(), test_devices());
    app.pending_confirm = Some(PendingConfirm {
        message: "Untrust device Keyboard? y/n".to_string(),
        address: "AA:BB:CC:DD:EE:FF".to_string(),
        name: "Keyboard".to_string(),
        confirm_type: ConfirmType::Untrust,
    });
    let backend = ratatui::backend::TestBackend::new(80, 24);
    let mut terminal = Terminal::new(backend).unwrap();
    terminal.draw(|frame| draw(frame, &mut app)).unwrap();

    let content = buffer_content(terminal.backend());
    assert!(content.contains("Untrust device Keyboard? y/n"));
    assert!(content.contains("Confirm"));
}

#[test]
fn test_a_returns_open_profiles() {
    let mut app = App::new(test_adapter(), test_devices());
    let action = app.handle_key(make_key(KeyCode::Char('a'), NO_MODIFIERS));
    assert_eq!(action, Action::OpenProfiles);
    assert!(app.running);
}

#[test]
fn test_profile_menu_initially_none() {
    let app = App::new(test_adapter(), test_devices());
    assert!(app.profile_menu.is_none());
}

fn test_profile_menu() -> ProfileMenu {
    ProfileMenu {
        profiles: vec![
            AudioProfile {
                name: "a2dp-sink".to_string(),
                description: "High Fidelity Playback (A2DP Sink)".to_string(),
                active: true,
            },
            AudioProfile {
                name: "headset-head-unit".to_string(),
                description: "Headset Head Unit (HSP/HFP)".to_string(),
                active: false,
            },
        ],
        selected: 0,
        address: "11:22:33:44:55:66".to_string(),
        name: "Speaker".to_string(),
    }
}

#[test]
fn test_profile_menu_navigate_down() {
    let mut app = App::new(test_adapter(), test_devices());
    app.profile_menu = Some(test_profile_menu());

    let action = app.handle_key(make_key(KeyCode::Down, NO_MODIFIERS));
    assert_eq!(action, Action::Nothing);
    assert_eq!(app.profile_menu.as_ref().unwrap().selected, 1);
}

#[test]
fn test_profile_menu_navigate_down_wraps() {
    let mut app = App::new(test_adapter(), test_devices());
    app.profile_menu = Some(test_profile_menu());
    app.profile_menu.as_mut().unwrap().selected = 1;

    app.handle_key(make_key(KeyCode::Down, NO_MODIFIERS));
    assert_eq!(app.profile_menu.as_ref().unwrap().selected, 0);
}

#[test]
fn test_profile_menu_navigate_up() {
    let mut app = App::new(test_adapter(), test_devices());
    app.profile_menu = Some(test_profile_menu());
    app.profile_menu.as_mut().unwrap().selected = 1;

    let action = app.handle_key(make_key(KeyCode::Up, NO_MODIFIERS));
    assert_eq!(action, Action::Nothing);
    assert_eq!(app.profile_menu.as_ref().unwrap().selected, 0);
}

#[test]
fn test_profile_menu_navigate_up_wraps() {
    let mut app = App::new(test_adapter(), test_devices());
    app.profile_menu = Some(test_profile_menu());

    app.handle_key(make_key(KeyCode::Up, NO_MODIFIERS));
    assert_eq!(app.profile_menu.as_ref().unwrap().selected, 1);
}

#[test]
fn test_profile_menu_enter_selects() {
    let mut app = App::new(test_adapter(), test_devices());
    app.profile_menu = Some(test_profile_menu());

    let action = app.handle_key(make_key(KeyCode::Enter, NO_MODIFIERS));
    assert_eq!(action, Action::SelectProfile);
}

#[test]
fn test_profile_menu_esc_closes() {
    let mut app = App::new(test_adapter(), test_devices());
    app.profile_menu = Some(test_profile_menu());

    let action = app.handle_key(make_key(KeyCode::Esc, NO_MODIFIERS));
    assert_eq!(action, Action::CloseProfiles);
}

#[test]
fn test_profile_menu_blocks_other_keys() {
    let mut app = App::new(test_adapter(), test_devices());
    app.profile_menu = Some(test_profile_menu());

    let action = app.handle_key(make_key(KeyCode::Char('q'), NO_MODIFIERS));
    assert_eq!(action, Action::Nothing);
    assert!(app.running);

    let action = app.handle_key(make_key(KeyCode::Char('s'), NO_MODIFIERS));
    assert_eq!(action, Action::Nothing);
}

#[test]
fn test_draw_profile_menu() {
    let mut app = App::new(test_adapter(), test_devices());
    app.profile_menu = Some(test_profile_menu());

    let backend = ratatui::backend::TestBackend::new(80, 24);
    let mut terminal = Terminal::new(backend).unwrap();
    terminal.draw(|frame| draw(frame, &mut app)).unwrap();

    let content = buffer_content(terminal.backend());
    assert!(content.contains("Audio Profiles"));
    assert!(content.contains("High Fidelity Playback"));
    assert!(content.contains("Headset Head Unit"));
}

#[test]
fn test_draw_profile_menu_active_indicator() {
    let mut app = App::new(test_adapter(), test_devices());
    app.profile_menu = Some(test_profile_menu());

    let backend = ratatui::backend::TestBackend::new(80, 24);
    let mut terminal = Terminal::new(backend).unwrap();
    terminal.draw(|frame| draw(frame, &mut app)).unwrap();

    let content = buffer_content(terminal.backend());
    // Active profile should have ● indicator
    assert!(content.contains("●"));
}

#[test]
fn test_question_mark_returns_toggle_help() {
    let mut app = App::new(test_adapter(), test_devices());
    let action = app.handle_key(make_key(KeyCode::Char('?'), NO_MODIFIERS));
    assert_eq!(action, Action::ToggleHelp);
}

#[test]
fn test_help_overlay_close_with_question_mark() {
    let mut app = App::new(test_adapter(), test_devices());
    app.show_help = true;
    let action = app.handle_key(make_key(KeyCode::Char('?'), NO_MODIFIERS));
    assert_eq!(action, Action::CloseHelp);
}

#[test]
fn test_help_overlay_close_with_esc() {
    let mut app = App::new(test_adapter(), test_devices());
    app.show_help = true;
    let action = app.handle_key(make_key(KeyCode::Esc, NO_MODIFIERS));
    assert_eq!(action, Action::CloseHelp);
}

#[test]
fn test_help_overlay_blocks_other_keys() {
    let mut app = App::new(test_adapter(), test_devices());
    app.show_help = true;
    let action = app.handle_key(make_key(KeyCode::Char('q'), NO_MODIFIERS));
    assert_eq!(action, Action::Nothing);
    assert!(app.running); // q should not quit while help is open
}

#[test]
fn test_show_help_initially_false() {
    let app = App::new(test_adapter(), test_devices());
    assert!(!app.show_help);
}

#[test]
fn test_help_bar_no_device_selected() {
    let app = App::new(test_adapter(), vec![]);
    let text = help_bar_text(&app);
    assert!(text.contains("q: Quit"));
    assert!(text.contains("s: Scan"));
    assert!(text.contains("?: Help"));
    assert!(!text.contains("Enter:"));
}

#[test]
fn test_help_bar_paired_connected_device() {
    let app = App::new(test_adapter(), test_devices());
    // First device is paired + connected + has audio UUIDs
    let text = help_bar_text(&app);
    assert!(text.contains("Enter: Disconnect"));
    assert!(text.contains("u: Unpair"));
    assert!(text.contains("a: Profiles"));
    assert!(text.contains("i: Details"));
}

#[test]
fn test_help_bar_paired_disconnected_device() {
    let mut app = App::new(test_adapter(), test_devices());
    app.list_state.select(Some(1)); // Keyboard: paired, not connected
    let text = help_bar_text(&app);
    assert!(text.contains("Enter: Connect"));
    assert!(!text.contains("Enter: Disconnect"));
    assert!(text.contains("u: Unpair"));
}

#[test]
fn test_help_bar_unpaired_device() {
    let mut app = App::new(test_adapter(), test_devices());
    app.list_state.select(Some(2)); // Unpaired device
    let text = help_bar_text(&app);
    assert!(text.contains("p: Pair"));
    assert!(!text.contains("Enter: Connect"));
    assert!(!text.contains("u: Unpair"));
}

#[test]
fn test_help_bar_trusted_device_shows_untrust() {
    let mut app = App::new(test_adapter(), test_devices());
    app.list_state.select(Some(1)); // Keyboard: paired + trusted
    let text = help_bar_text(&app);
    assert!(text.contains("t: Untrust"));
}

#[test]
fn test_help_bar_untrusted_device_shows_trust() {
    let app = App::new(test_adapter(), test_devices());
    // First device (Speaker): paired, not trusted
    let text = help_bar_text(&app);
    assert!(text.contains("t: Trust"));
}

#[test]
fn test_draw_help_bar_visible() {
    let mut app = App::new(test_adapter(), test_devices());
    let backend = ratatui::backend::TestBackend::new(120, 24);
    let mut terminal = Terminal::new(backend).unwrap();
    terminal.draw(|frame| draw(frame, &mut app)).unwrap();

    let content = buffer_content(terminal.backend());
    assert!(content.contains("q: Quit"));
    assert!(content.contains("?: Help"));
}

#[test]
fn test_draw_help_overlay() {
    let mut app = App::new(test_adapter(), test_devices());
    app.show_help = true;
    let backend = ratatui::backend::TestBackend::new(80, 24);
    let mut terminal = Terminal::new(backend).unwrap();
    terminal.draw(|frame| draw(frame, &mut app)).unwrap();

    let content = buffer_content(terminal.backend());
    assert!(content.contains("Keyboard Shortcuts"));
    assert!(content.contains("Toggle scan"));
    assert!(content.contains("Audio profiles"));
}

#[test]
fn test_help_bar_no_audio_profiles_for_non_audio_device() {
    let mut app = App::new(test_adapter(), test_devices());
    app.list_state.select(Some(1)); // Keyboard: no audio UUIDs
    let text = help_bar_text(&app);
    assert!(!text.contains("a: Profiles"));
}

fn test_adapter_powered_off() -> Option<AdapterInfo> {
    Some(AdapterInfo {
        name: "hci0".to_string(),
        address: "AA:BB:CC:DD:EE:FF".to_string(),
        powered: false,
    })
}

#[test]
fn test_draw_adapter_powered_off_shows_message() {
    let mut app = App::new(test_adapter_powered_off(), vec![]);
    let backend = ratatui::backend::TestBackend::new(80, 24);
    let mut terminal = Terminal::new(backend).unwrap();
    terminal.draw(|frame| draw(frame, &mut app)).unwrap();

    let content = buffer_content(terminal.backend());
    assert!(content.contains("powered off"));
    assert!(content.contains("Power: OFF"));
}

#[test]
fn test_draw_adapter_powered_off_shows_power_on_hint() {
    let mut app = App::new(test_adapter_powered_off(), vec![]);
    let backend = ratatui::backend::TestBackend::new(80, 24);
    let mut terminal = Terminal::new(backend).unwrap();
    terminal.draw(|frame| draw(frame, &mut app)).unwrap();

    let content = buffer_content(terminal.backend());
    assert!(content.contains("'o' to power on"));
}

#[test]
fn test_help_bar_adapter_powered_off() {
    let app = App::new(test_adapter_powered_off(), vec![]);
    let text = help_bar_text(&app);
    assert!(text.contains("o: Power On"));
    assert!(text.contains("q: Quit"));
    assert!(!text.contains("s: Scan"));
}

#[test]
fn test_help_bar_adapter_powered_on() {
    let app = App::new(test_adapter(), test_devices());
    let text = help_bar_text(&app);
    assert!(text.contains("s: Scan"));
    assert!(text.contains("o: Power Off"));
    assert!(!text.contains("o: Power On"));
}

#[test]
fn test_key_o_when_adapter_off_returns_power_on() {
    let mut app = App::new(test_adapter_powered_off(), vec![]);
    let key = KeyEvent::new(KeyCode::Char('o'), NO_MODIFIERS);
    assert_eq!(app.handle_key(key), Action::PowerOn);
}

#[test]
fn test_key_o_when_adapter_on_returns_power_off() {
    let mut app = App::new(test_adapter(), test_devices());
    let key = KeyEvent::new(KeyCode::Char('o'), NO_MODIFIERS);
    assert_eq!(app.handle_key(key), Action::PowerOff);
}

#[test]
fn test_adapter_powered_on_updates_state() {
    let mut app = App::new(test_adapter_powered_off(), vec![]);
    assert!(!app.adapter.as_ref().unwrap().powered);
    app.adapter.as_mut().unwrap().powered = true;
    assert!(app.adapter.as_ref().unwrap().powered);
}

#[test]
fn test_draw_adapter_off_hides_devices() {
    // Even if there are devices, powered-off state should show the power-off message
    let mut app = App::new(test_adapter_powered_off(), test_devices());
    let backend = ratatui::backend::TestBackend::new(80, 24);
    let mut terminal = Terminal::new(backend).unwrap();
    terminal.draw(|frame| draw(frame, &mut app)).unwrap();

    let content = buffer_content(terminal.backend());
    assert!(content.contains("powered off"));
}

#[test]
fn test_help_overlay_includes_power_on() {
    let mut app = App::new(test_adapter(), test_devices());
    app.show_help = true;
    let backend = ratatui::backend::TestBackend::new(80, 24);
    let mut terminal = Terminal::new(backend).unwrap();
    terminal.draw(|frame| draw(frame, &mut app)).unwrap();

    let content = buffer_content(terminal.backend());
    assert!(content.contains("Toggle adapter power"));
}

#[test]
fn test_status_bar_shows_power_off() {
    let mut app = App::new(test_adapter_powered_off(), vec![]);
    let backend = ratatui::backend::TestBackend::new(80, 24);
    let mut terminal = Terminal::new(backend).unwrap();
    terminal.draw(|frame| draw(frame, &mut app)).unwrap();

    let content = buffer_content(terminal.backend());
    assert!(content.contains("Power: OFF"));
}

#[test]
fn test_adapter_powered_off_clears_state() {
    let mut app = App::new(test_adapter(), test_devices());
    assert!(app.adapter.as_ref().unwrap().powered);
    assert!(!app.devices.is_empty());

    // Simulate power-off result
    app.adapter.as_mut().unwrap().powered = false;
    app.scanning = false;
    app.devices.clear();
    app.discovered_devices.clear();
    app.list_state.select(None);

    assert!(!app.adapter.as_ref().unwrap().powered);
    assert!(app.devices.is_empty());
    assert!(app.discovered_devices.is_empty());
    assert!(!app.scanning);
    assert_eq!(app.list_state.selected(), None);
}

#[test]
fn test_status_bar_shows_dbus_errors() {
    let mut app = App::new(test_adapter(), test_devices());
    app.status_message = Some("Connection failed: org.bluez.Error".to_string());
    let backend = ratatui::backend::TestBackend::new(120, 24);
    let mut terminal = Terminal::new(backend).unwrap();
    terminal.draw(|frame| draw(frame, &mut app)).unwrap();

    let content = buffer_content(terminal.backend());
    assert!(content.contains("Connection failed"));
}

#[test]
fn test_app_new_no_adapter() {
    let app = App::new(None, vec![]);
    assert!(app.adapter.is_none());
    assert!(app.devices.is_empty());
    assert!(app.running);
    assert_eq!(app.list_state.selected(), None);
}

#[test]
fn test_draw_no_adapter_shows_message() {
    let mut app = App::new(None, vec![]);
    let backend = ratatui::backend::TestBackend::new(80, 24);
    let mut terminal = Terminal::new(backend).unwrap();
    terminal.draw(|frame| draw(frame, &mut app)).unwrap();

    let content = buffer_content(terminal.backend());
    assert!(content.contains("No Bluetooth adapter found"));
}

#[test]
fn test_draw_no_adapter_shows_waiting() {
    let mut app = App::new(None, vec![]);
    let backend = ratatui::backend::TestBackend::new(80, 24);
    let mut terminal = Terminal::new(backend).unwrap();
    terminal.draw(|frame| draw(frame, &mut app)).unwrap();

    let content = buffer_content(terminal.backend());
    assert!(content.contains("Waiting for adapter"));
}

#[test]
fn test_key_handling_no_adapter_quit() {
    let mut app = App::new(None, vec![]);
    let action = app.handle_key(make_key(KeyCode::Char('q'), NO_MODIFIERS));
    assert!(!app.running);
    assert_eq!(action, Action::Nothing);
}

#[test]
fn test_key_handling_no_adapter_ctrl_c() {
    let mut app = App::new(None, vec![]);
    let action = app.handle_key(make_key(KeyCode::Char('c'), CONTROL));
    assert!(!app.running);
    assert_eq!(action, Action::Nothing);
}

#[test]
fn test_key_handling_no_adapter_help() {
    let mut app = App::new(None, vec![]);
    let action = app.handle_key(make_key(KeyCode::Char('?'), NO_MODIFIERS));
    assert_eq!(action, Action::ToggleHelp);
}

#[test]
fn test_key_handling_no_adapter_blocks_scan() {
    let mut app = App::new(None, vec![]);
    let action = app.handle_key(make_key(KeyCode::Char('s'), NO_MODIFIERS));
    assert_eq!(action, Action::Nothing);
}

#[test]
fn test_key_handling_no_adapter_blocks_connect() {
    let mut app = App::new(None, vec![]);
    let action = app.handle_key(make_key(KeyCode::Enter, NO_MODIFIERS));
    assert_eq!(action, Action::Nothing);
}

#[test]
fn test_key_handling_no_adapter_blocks_power() {
    let mut app = App::new(None, vec![]);
    let action = app.handle_key(make_key(KeyCode::Char('o'), NO_MODIFIERS));
    assert_eq!(action, Action::Nothing);
}

#[test]
fn test_help_bar_no_adapter() {
    let app = App::new(None, vec![]);
    let text = help_bar_text(&app);
    assert!(text.contains("Quit"));
    assert!(text.contains("Help"));
    assert!(text.contains("Waiting for adapter"));
}

#[test]
fn test_status_bar_no_adapter() {
    let mut app = App::new(None, vec![]);
    let backend = ratatui::backend::TestBackend::new(80, 24);
    let mut terminal = Terminal::new(backend).unwrap();
    terminal.draw(|frame| draw(frame, &mut app)).unwrap();

    let content = buffer_content(terminal.backend());
    assert!(content.contains("No adapter"));
}

#[test]
fn test_adapter_found_updates_state() {
    let mut app = App::new(None, vec![]);
    assert!(app.adapter.is_none());

    // Simulate adapter being found
    app.adapter = Some(AdapterInfo {
        name: "hci0".to_string(),
        address: "AA:BB:CC:DD:EE:FF".to_string(),
        powered: true,
    });
    app.status_message = Some("Adapter found".to_string());

    assert!(app.adapter.is_some());
    assert!(app.adapter.as_ref().unwrap().powered);
    assert_eq!(app.status_message, Some("Adapter found".to_string()));

    // Now keys should work normally
    let action = app.handle_key(make_key(KeyCode::Char('s'), NO_MODIFIERS));
    assert_eq!(action, Action::ToggleScan);
}

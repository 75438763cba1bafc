use funke::agent::AgentPrompt;
use funke::app::{App, ConfirmType, PendingConfirm, ProfileMenu};
use funke::audio::AudioProfile;
use funke::bluetooth::{AdapterInfo, DeviceInfo};
use funke::screen::{
    can_draw, draw, draw_on, help_bar_text, menu_popup_with, regions_of, status_bar_text, try_draw,
    Area, Body, Regions, Tone, HELP_COLUMNS, HELP_LINES,
};

const TERMINAL: Area = Area { x: 0, y: 0, width: 80, height: 24 };

fn app() -> App {
    App::new(
        Some(AdapterInfo { name: "hci0".into(), address: "AA:BB".into(), powered: true }),
        vec![DeviceInfo {
            name: Some("Speaker".into()),
            address: "11:22".into(),
            paired: true,
            connected: true,
            trusted: false,
            icon: None,
            uuids: vec!["0000110b".into()],
        }],
    )
}

fn menu(name: &str, description: &str) -> ProfileMenu {
    ProfileMenu {
        profiles: vec![
            AudioProfile { name: "a".into(), description: description.into(), active: true },
            AudioProfile { name: "b".into(), description: "B".into(), active: false },
        ],
        selected: 1,
        address: "11:22".into(),
        name: name.into(),
    }
}

#[test]
fn the_status_bar_tells_all() {
    let mut app = app();
    assert_eq!(status_bar_text(&app), " hci0 (AA:BB) | Power: ON");
    app.scanning = true;
    app.status_message = Some("Hello".into());
    assert_eq!(status_bar_text(&app), " hci0 (AA:BB) | Power: ON | Scanning... | Hello");
    app.adapter.as_mut().unwrap().powered = false;
    app.scanning = false;
    assert_eq!(status_bar_text(&app), " hci0 (AA:BB) | Power: OFF | Hello");
    app.adapter = None;
    assert_eq!(status_bar_text(&app), " No adapter | Hello");
    app.status_message = None;
    assert_eq!(status_bar_text(&app), " No adapter");
}

#[test]
fn the_help_bar_follows_the_device() {
    let mut app = app();
    assert_eq!(
        help_bar_text(&app),
        "q: Quit | i: Details | Enter: Disconnect | u: Unpair | t: Trust | a: Profiles | s: Scan | o: Power Off | ?: Help"
    );
    app.devices[0].connected = false;
    app.devices[0].trusted = true;
    assert_eq!(
        help_bar_text(&app),
        "q: Quit | i: Details | Enter: Connect | u: Unpair | t: Untrust | s: Scan | o: Power Off | ?: Help"
    );
    app.devices[0].paired = false;
    assert_eq!(
        help_bar_text(&app),
        "q: Quit | i: Details | p: Pair | s: Scan | o: Power Off | ?: Help"
    );
    app.list_state.select(None);
    assert_eq!(help_bar_text(&app), "q: Quit | s: Scan | o: Power Off | ?: Help");
    assert_eq!(draw(&app, TERMINAL).help_bar, format!(" {}", help_bar_text(&app)));
}

#[test]
fn a_plain_screen_has_no_popups() {
    let screen = draw(&app(), TERMINAL);
    assert!(screen.popups.is_empty());
    match screen.body {
        Body::Devices(rows) => {
            assert_eq!(rows.len(), 1);
            assert_eq!(rows[0].content, "[P][C][ ] Speaker");
            assert!(!rows[0].discovered);
        }
        Body::Notice(_) => panic!("expected devices"),
    }
}

#[test]
fn the_dialog_stands_in_the_middle() {
    let mut app = app();
    app.pending_confirm = Some(PendingConfirm {
        message: "Unpair device Speaker? y/n".into(),
        address: "11:22".into(),
        name: "Speaker".into(),
        confirm_type: ConfirmType::Unpair,
    });
    let screen = draw(&app, TERMINAL);
    let popup = &screen.popups[0];
    assert_eq!(popup.title, " Confirm ");
    assert_eq!(popup.area, Area { x: 25, y: 10, width: 30, height: 3 });
    assert_eq!(popup.tone, Tone::Yellow);
    assert!(popup.centered);
    let tiny = Area { x: 2, y: 1, width: 9, height: 2 };
    assert_eq!(draw(&app, tiny).popups[0].area, Area { x: 2, y: 1, width: 9, height: 3 });
}

#[test]
fn prompts_show_what_was_typed() {
    let mut app = app();
    let (reply, _receiver) = tokio::sync::oneshot::channel();
    app.agent_prompt = Some(AgentPrompt::Passkey { device: "dev".into(), input: "12".into(), reply });
    let screen = draw(&app, TERMINAL);
    let popup = &screen.popups[0];
    let lines: Vec<&str> = popup.lines.iter().map(|l| l.content.as_str()).collect();
    assert_eq!(popup.title, " Passkey Entry ");
    assert_eq!(lines, ["Device: dev", "Passkey: 12_", "[Enter] Submit  [Esc] Cancel"]);
    assert_eq!(popup.area, Area { x: 24, y: 9, width: 32, height: 5 });
    assert_eq!(popup.tone, Tone::Cyan);
}

#[test]
fn every_prompt_has_its_text() {
    let lines = |prompt: AgentPrompt| {
        let mut app = app();
        app.agent_prompt = Some(prompt);
        let screen = draw(&app, TERMINAL);
        let popup = &screen.popups[0];
        let lines: Vec<String> = popup.lines.iter().map(|l| l.content.clone()).collect();
        (popup.title.clone(), lines.join("/"))
    };
    let (reply, _receiver) = tokio::sync::oneshot::channel();
    assert_eq!(
        lines(AgentPrompt::PinCode { device: "d".into(), input: "1".into(), reply }),
        (" PIN Entry ".into(), "Device: d/PIN: 1_/[Enter] Submit  [Esc] Cancel".into())
    );
    assert_eq!(
        lines(AgentPrompt::DisplayPasskey { device: "d".into(), passkey: 42 }),
        (" Passkey Display ".into(), "Device: d/Passkey: 000042/[Esc] Dismiss".into())
    );
    let (reply, _receiver) = tokio::sync::oneshot::channel();
    assert_eq!(
        lines(AgentPrompt::Confirmation { device: "d".into(), passkey: 1_234_567, reply }),
        (" Confirm Passkey ".into(), "Device: d/Passkey: 1234567/Confirm? (y/n)".into())
    );
    let (reply, _receiver) = tokio::sync::oneshot::channel();
    assert_eq!(
        lines(AgentPrompt::AuthorizeService { device: "d".into(), uuid: "u".into(), reply }),
        (" Authorize Service ".into(), "Device: d/Service: u/Authorize? (y/n)".into())
    );
}

#[test]
fn the_details_name_everything() {
    let mut app = app();
    app.show_detail = true;
    let screen = draw(&app, TERMINAL);
    let popup = &screen.popups[0];
    let lines: Vec<&str> = popup.lines.iter().map(|l| l.content.as_str()).collect();
    assert_eq!(
        lines,
        [
            "Name:      Speaker",
            "Address:   11:22",
            "Paired:    Yes",
            "Connected: Yes",
            "Trusted:   No",
            "Type:      unknown",
            "",
            "Profiles/UUIDs:",
            "  0000110b",
            "",
            "[Esc/i] Close",
        ]
    );
    assert_eq!(popup.area, Area { x: 29, y: 5, width: 22, height: 13 });
    assert_eq!(popup.tone, Tone::Green);
    assert!(!popup.centered);
}

#[test]
fn the_menu_marks_the_cursor_and_the_active_profile() {
    let mut app = app();
    app.profile_menu = Some(menu("S", "High Fidelity Playback (A2DP)"));
    let screen = draw(&app, TERMINAL);
    let popup = &screen.popups[0];
    let lines: Vec<(&str, bool)> =
        popup.lines.iter().map(|l| (l.content.as_str(), l.selected)).collect();
    assert_eq!(popup.title, " S - Audio Profiles ");
    assert_eq!(
        lines,
        [
            ("  ● High Fidelity Playback (A2DP)", false),
            ("▸   B", true),
            ("", false),
            ("[Enter] Select  [Esc] Close", false),
        ]
    );
    // The lines are measured in columns: 33 for the first.
    assert_eq!(popup.area, Area { x: 21, y: 9, width: 37, height: 6 });
    assert_eq!(popup.tone, Tone::Magenta);
}

#[test]
fn wide_characters_take_two_columns() {
    let mut app = app();
    app.profile_menu = Some(menu("S", "音音音音音音音音音音音音音音音音音音音音"));
    assert_eq!(draw(&app, TERMINAL).popups[0].area.width, 4 + 40 + 4);
}

#[test]
fn the_title_counts_for_the_width_of_the_menu() {
    let title = " A device with a rather long name - Audio Profiles ";
    let popup = menu_popup_with(&menu("A device with a rather long name", "A"), 27, TERMINAL);
    assert_eq!(popup.title, title);
    assert_eq!(popup.area.width as usize, title.len() + 4);
    let popup = menu_popup_with(&menu("S", "A"), 60, TERMINAL);
    assert_eq!(popup.area.width, 64);
}

#[test]
fn the_help_overlay_is_as_wide_as_its_lines() {
    let mut app = app();
    app.show_help = true;
    let screen = draw(&app, TERMINAL);
    let popup = &screen.popups[0];
    assert_eq!(popup.lines.len(), HELP_LINES);
    assert_eq!(popup.lines.iter().map(|l| l.content.len()).max(), Some(HELP_COLUMNS));
    assert_eq!(popup.area, Area { x: 19, y: 3, width: 41, height: 18 });
}

#[test]
fn popups_shrink_with_the_terminal() {
    let mut app = app();
    app.show_help = true;
    app.show_detail = true;
    let small = Area { x: 0, y: 0, width: 20, height: 6 };
    let screen = draw(&app, small);
    assert_eq!(screen.popups.len(), 2);
    for popup in &screen.popups {
        assert_eq!(popup.area, small);
    }
}

#[test]
fn popups_lie_over_each_other_in_order() {
    let mut app = app();
    app.show_help = true;
    app.profile_menu = Some(menu("S", "A"));
    app.show_detail = true;
    app.agent_prompt = Some(AgentPrompt::DisplayPasskey { device: "d".into(), passkey: 1 });
    app.pending_confirm = Some(PendingConfirm {
        message: "?".into(),
        address: "11:22".into(),
        name: "Speaker".into(),
        confirm_type: ConfirmType::Untrust,
    });
    let titles: Vec<String> =
        draw(&app, TERMINAL).popups.iter().map(|p| p.title.trim().to_string()).collect();
    assert_eq!(titles, ["Confirm", "Passkey Display", "Device Details", "S - Audio Profiles", "Help"]);
}

#[test]
fn what_cannot_be_placed_is_not_drawn() {
    let mut app = app();
    app.profile_menu = Some(menu(&"n".repeat(65_530), "A"));
    assert!(can_draw(&app, TERMINAL));
    app.profile_menu = Some(menu(&"n".repeat(65_514), "A"));
    assert!(!can_draw(&app, TERMINAL));
    assert!(try_draw(&app, TERMINAL).is_none());
    app.profile_menu = Some(menu("S", &"d".repeat(65_530)));
    assert!(!can_draw(&app, TERMINAL));
    app.profile_menu = None;
    assert!(try_draw(&app, TERMINAL).is_some());
    assert!(!can_draw(&app, Area { x: 65_500, y: 0, width: 80, height: 24 }));
    assert!(!can_draw(&app, Area { x: 0, y: 65_530, width: 80, height: 24 }));
    app.pending_confirm = Some(PendingConfirm {
        message: "m".repeat(65_532),
        address: "11:22".into(),
        name: "Speaker".into(),
        confirm_type: ConfirmType::Untrust,
    });
    assert!(!can_draw(&app, TERMINAL));
}

#[test]
fn the_bars_stand_below_the_list() {
    let screen = draw(&app(), TERMINAL);
    assert_eq!(screen.regions.list, Area { x: 0, y: 0, width: 80, height: 22 });
    assert_eq!(screen.regions.help_bar, Area { x: 0, y: 22, width: 80, height: 1 });
    assert_eq!(screen.regions.status_bar, Area { x: 0, y: 23, width: 80, height: 1 });
}

#[test]
fn regions_fill_the_terminal() {
    for y in [0, 1, 7, 1000] {
        for height in [3, 4, 5, 6, 10, 24, 25, 50, 99, 333, 2000, 60000] {
            let outer = Area { x: 3, y, width: 11, height };
            let regions = regions_of(outer);
            let line = |top: u16, lines: u16| Area { x: 3, y: top, width: 11, height: lines };
            assert_eq!(regions.list, line(y, height - 2));
            assert_eq!(regions.help_bar, line(y + height - 2, 1));
            assert_eq!(regions.status_bar, line(y + height - 1, 1));
        }
    }
    let corner = Area { x: 0xfff0, y: 0xfff0, width: 15, height: 15 };
    assert_eq!(regions_of(corner).status_bar, Area { x: 0xfff0, y: 0xfffe, width: 15, height: 1 });
}

#[test]
fn the_list_keeps_a_line_of_a_low_terminal() {
    for height in 0..3 {
        let outer = Area { x: 1, y: 5, width: 40, height };
        let regions = regions_of(outer);
        for part in [regions.list, regions.help_bar, regions.status_bar] {
            assert_eq!((part.x, part.width), (1, 40));
        }
        assert_eq!((regions.list.y, regions.list.height), (5, height.min(1)));
        assert_eq!(regions.help_bar.y, regions.list.y + regions.list.height);
        assert_eq!(regions.status_bar.y, regions.help_bar.y + regions.help_bar.height);
        assert_eq!(regions.status_bar.y + regions.status_bar.height, 5 + height);
        assert!(regions.help_bar.height <= 1 && regions.status_bar.height <= 1);
    }
}

#[test]
fn the_screen_takes_its_regions() {
    let part = Area { x: 1, y: 2, width: 3, height: 4 };
    let regions = Regions { list: part, help_bar: TERMINAL, status_bar: part };
    let screen = draw_on(&app(), TERMINAL, regions);
    assert_eq!(screen.regions, regions);
    assert_eq!(screen.status_bar, status_bar_text(&app()));
}

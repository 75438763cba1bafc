//! What holds of everything that is shown.
use vstd::prelude::*;

use crate::app::AppView;
use crate::bluetooth::DeviceView;
use crate::keys::Action;
use crate::laws;
use crate::number;
use crate::screen;
use crate::screen::{Area, BodyView, PopupView, Regions};
use crate::session;
use crate::session::{CommandView, TaskView};
use crate::text;

verus! {

/// `inner` lies within `outer`.
pub open spec fn within(inner: Area, outer: Area) -> bool {
    &&& outer.x <= inner.x && inner.x + inner.width <= outer.x + outer.width
    &&& outer.y <= inner.y && inner.y + inner.height <= outer.y + outer.height
}

/// `inner` stands in the middle of `outer`, give or take one cell.
pub open spec fn centered(inner: Area, outer: Area) -> bool {
    &&& 0 <= (outer.width - inner.width) - 2 * (inner.x - outer.x) <= 1
    &&& 0 <= (outer.height - inner.height) - 2 * (inner.y - outer.y) <= 1
}

/// The list and the bars fill the terminal from top to bottom, without a gap.
pub proof fn law_regions_fill_the_terminal(outer: Area, regions: Regions)
    requires
        screen::bounded(outer),
        screen::divided(outer, screen::LIST_LINES, screen::BAR_LINES, screen::BAR_LINES, regions),
    ensures
        within(regions.list, outer),
        within(regions.help_bar, outer),
        within(regions.status_bar, outer),
        regions.list.y == outer.y,
        regions.help_bar.y == regions.list.y + regions.list.height,
        regions.status_bar.y == regions.help_bar.y + regions.help_bar.height,
        regions.status_bar.y + regions.status_bar.height == outer.y + outer.height,
{
}

/// Each bar has one line if the terminal has three, and the list the others. On a lower terminal the
/// list keeps one line, if there is one, and a second line goes to one of the bars.
pub proof fn law_bars_have_a_line(outer: Area, regions: Regions)
    requires
        screen::bounded(outer),
        screen::divided(outer, screen::LIST_LINES, screen::BAR_LINES, screen::BAR_LINES, regions),
    ensures
        outer.height >= 3 ==> regions.list.height == outer.height - 2 && regions.help_bar.height == 1
            && regions.status_bar.height == 1,
        outer.height < 3 ==> regions.list.height == if outer.height == 0 {
            0int
        } else {
            1
        },
        outer.height < 3 ==> regions.help_bar.height + regions.status_bar.height == outer.height
            - regions.list.height,
{
}

/// A popup lies within the terminal, in its middle.
pub proof fn law_popups_fit(outer: Area, columns: nat, lines: nat)
    requires
        screen::bounded(outer),
    ensures
        within(screen::placed(outer, columns, lines), outer),
        centered(screen::placed(outer, columns, lines), outer),
{
}

/// The confirmation dialog lies within the terminal, in its middle, if the terminal has three lines.
pub proof fn law_dialog_fits(outer: Area, columns: nat)
    requires
        screen::bounded(outer),
        outer.height >= 3,
    ensures
        within(screen::dialog_placed(outer, columns), outer),
        centered(screen::dialog_placed(outer, columns), outer),
{
}

/// Every popup of a list lies within the terminal.
spec fn all_within(popups: Seq<PopupView>, outer: Area) -> bool {
    forall|i: int| 0 <= i < popups.len() ==> within((#[trigger] popups[i]).area, outer)
}

/// Whatever is open, every popup lies within the terminal if that has three lines.
pub proof fn law_all_popups_fit(app: AppView, outer: Area, regions: Regions, i: int)
    requires
        screen::bounded(outer),
        outer.height >= 3,
        0 <= i < screen::drawn(app, outer, regions).popups.len(),
    ensures
        within(screen::drawn(app, outer, regions).popups[i].area, outer),
{
    let confirm = match app.pending_confirm {
        Some(confirm) => {
            law_dialog_fits(outer, text::byte_len(confirm.message));
            seq![screen::confirm_popup(confirm, outer)]
        },
        None => Seq::empty(),
    };
    assert(all_within(confirm, outer));
    let prompt = match app.agent_prompt {
        Some(prompt) => {
            let lines = screen::prompt_lines(prompt);
            law_popups_fit(outer, screen::longest(lines), lines.len());
            seq![screen::prompt_popup(prompt, outer)]
        },
        None => Seq::empty(),
    };
    assert(all_within(prompt, outer));
    let detail = match screen::detailed_device(app) {
        Some(device) => {
            let lines = screen::detail_lines(device);
            law_popups_fit(outer, screen::longest(lines), lines.len());
            seq![screen::detail_popup(device, outer)]
        },
        None => Seq::empty(),
    };
    assert(all_within(detail, outer));
    let menu = match app.profile_menu {
        Some(menu) => {
            law_popups_fit(
                outer,
                screen::larger(
                    screen::menu_width(menu),
                    text::byte_len(screen::menu_title(menu)),
                ),
                screen::menu_lines(menu).len(),
            );
            seq![screen::menu_popup(menu, screen::menu_width(menu), outer)]
        },
        None => Seq::empty(),
    };
    assert(all_within(menu, outer));
    let help = if app.show_help {
        law_popups_fit(outer, screen::HELP_COLUMNS as nat, screen::HELP_LINES as nat);
        seq![screen::help_popup(outer)]
    } else {
        Seq::empty()
    };
    assert(all_within(help, outer));
    lemma_joined_within(confirm, prompt, outer);
    lemma_joined_within(confirm + prompt, detail, outer);
    lemma_joined_within(confirm + prompt + detail, menu, outer);
    lemma_joined_within(confirm + prompt + detail + menu, help, outer);
    assert(screen::drawn(app, outer, regions).popups =~= confirm + prompt + detail + menu + help);
}

/// Two lists of popups within the terminal make one.
proof fn lemma_joined_within(first: Seq<PopupView>, second: Seq<PopupView>, outer: Area)
    requires
        all_within(first, outer),
        all_within(second, outer),
    ensures
        all_within(first + second, outer),
{
    assert forall|i: int| 0 <= i < (first + second).len() implies within(
        (#[trigger] (first + second)[i]).area,
        outer,
    ) by {
        if i < first.len() {
            assert((first + second)[i] == first[i]);
        } else {
            assert((first + second)[i] == second[i - first.len()]);
        }
    }
}

/// A popup is shown if and only if something lies over the list; the details need a device.
pub proof fn law_popups_shown(app: AppView, outer: Area, regions: Regions)
    ensures
        screen::drawn(app, outer, regions).popups.len() > 0 <==> app.pending_confirm is Some
            || app.agent_prompt is Some || (app.show_detail && app.selected_device() is Some)
            || app.profile_menu is Some || app.show_help,
        !laws::overlaid(app) ==> screen::drawn(app, outer, regions).popups.len() == 0,
{
}

/// Without an adapter that is switched on no device is shown.
pub proof fn law_devices_hidden_without_power(app: AppView, outer: Area, regions: Regions)
    requires
        app.adapter matches Some(adapter) ==> !adapter.powered,
    ensures
        screen::drawn(app, outer, regions).body is Notice,
{
}

/// The list has a row for each device, in the order in which they are selected.
pub proof fn law_rows_follow_the_list(app: AppView, outer: Area, regions: Regions, i: int)
    requires
        app.adapter matches Some(adapter) && adapter.powered,
        0 <= i < app.total(),
    ensures
        screen::drawn(app, outer, regions).body matches BodyView::Devices(list) && list.len() == app.total()
            && list[i].discovered == (i >= app.devices.len()) && list[i].content
            == screen::device_line(app.all_devices()[i], i >= app.devices.len()),
{
}

/// A row begins with the mark of a discovered device if and only if the device was discovered.
pub proof fn law_discovered_rows_are_marked(device: DeviceView, discovered: bool)
    ensures
        text::has_prefix(screen::device_line(device, discovered), "[~]"@) <==> discovered,
{
    reveal_strlit("[~]");
    reveal_strlit("[~][ ][ ] ");
    reveal_strlit("[");
    reveal_strlit("P");
    reveal_strlit(" ");
    let line = screen::device_line(device, discovered);
    if discovered {
        assert(line.subrange(0, 3) =~= "[~]"@);
    } else {
        assert(line[1] == 'P' || line[1] == ' ');
        if text::has_prefix(line, "[~]"@) {
            assert(line.subrange(0, 3)[1] == line[1]);
        }
    }
}

/// A message is in the status bar, at its end.
pub proof fn law_messages_are_shown(app: AppView, message: Seq<char>)
    requires
        app.status_message == Some(message),
    ensures
        text::has_text(screen::status_text(app), message),
        message.is_suffix_of(screen::status_text(app)),
{
    let line = screen::status_text(app);
    let at = line.len() - message.len();
    assert(line.subrange(at as int, line.len() as int) =~= message);
    assert(text::occurs_at(line, message, at as int));
}

/// A passkey is shown with six digits, or with as many as it takes.
pub proof fn law_passkeys_have_six_digits(passkey: u32)
    ensures
        screen::passkey_text(passkey).len() >= 6,
        screen::passkey_text(passkey).len() == 6 <==> passkey < 1_000_000,
        number::all_digits(screen::passkey_text(passkey)),
        number::value_of(screen::passkey_text(passkey)) == passkey,
{
    reveal_with_fuel(number::decimal, 11);
    let digits = number::decimal(passkey as nat);
    laws::law_numerals_are_read_back(passkey);
    let shown = screen::passkey_text(passkey);
    assert(number::denoted(shown) == Some(passkey));
    assert(shown[0] != '+') by {
        if digits.len() < 6 {
            assert(shown[0] == '0');
        } else {
            assert(number::denoted(digits) == Some(passkey));
            assert(digits[0] != '+');
        }
    }
    number::lemma_value_grows(shown, 0);
}

/// What the help bar offers for the selected device is what its keys do: pairing where a device can
/// be paired; connecting, disconnecting, trusting and unpairing where it is paired; profiles and
/// details where they are offered.
pub proof fn law_hints_keep_their_word(app: AppView, device: DeviceView)
    requires
        app.selected_device() == Some(device),
        app.pending_confirm is None,
    ensures
        screen::device_hints(device).contains("p: Pair"@) <==> session::performed(
            app,
            Action::Pair,
        ).1 is Some,
        screen::device_hints(device).contains("Enter: Connect"@) <==> (session::performed(
            app,
            Action::ConnectToggle,
        ).1 matches Some(CommandView::Run(TaskView::Connect { .. }))),
        screen::device_hints(device).contains("Enter: Disconnect"@) <==> (session::performed(
            app,
            Action::ConnectToggle,
        ).1 matches Some(CommandView::Run(TaskView::Disconnect { .. }))),
        screen::device_hints(device).contains("t: Trust"@) <==> (session::performed(
            app,
            Action::TrustToggle,
        ).1 matches Some(CommandView::Run(TaskView::Trust { .. }))),
        screen::device_hints(device).contains("u: Unpair"@) <==> session::performed(
            app,
            Action::RequestUnpair,
        ).0.pending_confirm == Some(session::unpair_dialog(device)),
        screen::device_hints(device).contains("t: Untrust"@) <==> session::performed(
            app,
            Action::TrustToggle,
        ).0.pending_confirm == Some(session::untrust_dialog(device)),
        screen::device_hints(device).contains("a: Profiles"@) ==> (session::performed(
            app,
            Action::OpenProfiles,
        ).1 matches Some(CommandView::LoadProfiles { .. })),
        screen::device_hints(device).contains("i: Details"@) && session::performed(
            app,
            Action::ToggleDetail,
        ).0.show_detail,
{
    reveal_strlit("i: Details");
    reveal_strlit("p: Pair");
    reveal_strlit("Enter: Connect");
    reveal_strlit("Enter: Disconnect");
    reveal_strlit("u: Unpair");
    reveal_strlit("t: Trust");
    reveal_strlit("t: Untrust");
    reveal_strlit("a: Profiles");
    assert("t: Trust"@.len() != "t: Untrust"@.len());
    assert("Enter: Connect"@.len() != "Enter: Disconnect"@.len());
    assert("i: Details"@[0] == 'i');
    assert("p: Pair"@[0] == 'p');
    assert("Enter: Connect"@[0] == 'E');
    assert("Enter: Disconnect"@[0] == 'E');
    assert("u: Unpair"@[0] == 'u');
    assert("t: Trust"@[0] == 't');
    assert("t: Untrust"@[0] == 't');
    assert("a: Profiles"@[0] == 'a');
    let hints = screen::device_hints(device);
    assert(hints[0] == "i: Details"@);
    if device.paired {
        assert(hints[1] == if device.connected {
            "Enter: Disconnect"@
        } else {
            "Enter: Connect"@
        });
        assert(hints[2] == "u: Unpair"@);
        assert(hints[3] == if device.trusted {
            "t: Untrust"@
        } else {
            "t: Trust"@
        });
    } else {
        assert(hints[1] == "p: Pair"@);
    }
}

} // verus!

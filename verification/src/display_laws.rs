//! What is shown, stated of the calls themselves: the state of the interface, and the screen that is
//! drawn of it.
use vstd::prelude::*;

use crate::app::{App, ProfileMenu};
use crate::bluetooth::DeviceInfo;
use crate::cli;
use crate::cli::CliAction;
use crate::key_laws;
use crate::screen;
use crate::screen::{Area, Body, Popup, Regions, Screen};
use crate::states;
use crate::text;

verus! {

// ---------------------------------------------------------------------------------------------
// The list
// ---------------------------------------------------------------------------------------------

/// The line begins with three boxes that hold these characters, and then gives the name.
pub open spec fn is_boxed(
    line: Seq<char>,
    first: char,
    second: char,
    third: char,
    name: Seq<char>,
) -> bool {
    line == seq!['[', first, ']', '[', second, ']', '[', third, ']', ' '] + name
}

/// The mark of a flag.
pub open spec fn mark(flag: bool, c: char) -> char {
    if flag {
        c
    } else {
        ' '
    }
}

/// A known device is shown with `P` if it is paired, `C` if it is connected, `T` if it is trusted, and
/// under its name; a discovered one with `~`, and under its name.
#[verifier::rlimit(40)]
pub proof fn law_device_lines(device: &DeviceInfo, discovered: bool, line: String)
    requires
        call_ensures(screen::format_device_line, (device, discovered), line),
    ensures
        !discovered ==> is_boxed(
            line@,
            mark(device.paired, 'P'),
            mark(device.connected, 'C'),
            mark(device.trusted, 'T'),
            states::shown_name(*device),
        ),
        discovered ==> is_boxed(line@, '~', ' ', ' ', states::shown_name(*device)),
{
    lemma_device_line(*device, discovered);
}

/// The characters of the line of a device.
#[verifier::rlimit(40)]
proof fn lemma_device_line(device: DeviceInfo, discovered: bool)
    ensures
        is_row_of(screen::device_line(device@, discovered), device, discovered),
{
    reveal_strlit("[~][ ][ ] ");
    reveal_strlit("[");
    reveal_strlit("][");
    reveal_strlit("] ");
    reveal_strlit("P");
    reveal_strlit("C");
    reveal_strlit("T");
    reveal_strlit(" ");
    let line = screen::device_line(device@, discovered);
    let name = states::shown_name(device);
    if discovered {
        assert(line =~= seq!['[', '~', ']', '[', ' ', ']', '[', ' ', ']', ' '] + name);
    } else {
        assert(line =~= seq![
            '[',
            mark(device.paired, 'P'),
            ']',
            '[',
            mark(device.connected, 'C'),
            ']',
            '[',
            mark(device.trusted, 'T'),
            ']',
            ' ',
        ] + name);
    }
}

/// The line is that of the device.
pub open spec fn is_row_of(line: Seq<char>, device: DeviceInfo, discovered: bool) -> bool {
    if discovered {
        is_boxed(line, '~', ' ', ' ', states::shown_name(device))
    } else {
        is_boxed(
            line,
            mark(device.paired, 'P'),
            mark(device.connected, 'C'),
            mark(device.trusted, 'T'),
            states::shown_name(device),
        )
    }
}

/// With an adapter that is on, each device of the list has a row, in the order in which they are
/// selected: first the known ones, then the discovered ones.
#[verifier::rlimit(40)]
pub proof fn law_devices_are_shown(app: &App, outer: Area, regions: Regions, shown: Screen)
    requires
        call_ensures(screen::draw_on, (app, outer, regions), shown),
        app.adapter matches Some(adapter) && adapter.powered,
        states::list_length(*app) > 0,
    ensures
        shown.body matches Body::Devices(rows) && {
            &&& rows@.len() == states::list_length(*app)
            &&& forall|i: int|
                0 <= i < rows@.len() ==> {
                    &&& (#[trigger] rows@[i]).discovered == (i >= app.devices@.len())
                    &&& is_row_of(
                        rows@[i].content@,
                        states::listed_device(*app, i),
                        i >= app.devices@.len(),
                    )
                }
        },
{
    assert(shown@.body == screen::body(app@));
    assert(app@.total() == states::list_length(*app));
    assert(shown.body is Devices);
    let rows = shown.body->Devices_0;
    let views = screen::device_rows(app@);
    assert(screen::row_views(rows@) == views);
    assert(screen::row_views(rows@).len() == rows@.len());
    assert forall|i: int| 0 <= i < rows@.len() implies {
        &&& (#[trigger] rows@[i]).discovered == (i >= app.devices@.len())
        &&& is_row_of(
            rows@[i].content@,
            states::listed_device(*app, i),
            i >= app.devices@.len(),
        )
    } by {
        assert(screen::row_views(rows@)[i] == rows@[i]@);
        let device = states::listed_device(*app, i);
        lemma_device_line(device, i >= app.devices@.len());
        if i < app.devices@.len() {
            assert(app@.devices[i] == device@);
            assert(views[i].content == screen::device_line(device@, false));
        } else {
            let j = i - app.devices@.len();
            assert(app@.discovered_devices[j] == device@);
            assert(views[i].content == screen::device_line(device@, true));
        }
    }
}

/// Without an adapter, with one that is off, or with no devices, no device is shown but lines that say
/// why.
#[verifier::rlimit(40)]
pub proof fn law_notices(app: &App, outer: Area, regions: Regions, shown: Screen)
    requires
        call_ensures(screen::draw_on, (app, outer, regions), shown),
    ensures
        app.adapter is None ==> (shown.body matches Body::Notice(lines) && lines@.len() == 2
            && lines@[0]@ == "No Bluetooth adapter found"@ && lines@[1]@
            == "Waiting for adapter..."@),
        app.adapter matches Some(adapter) && !adapter.powered ==> (shown.body matches Body::Notice(
            lines,
        ) && lines@.len() == 2 && lines@[0]@ == "Bluetooth adapter is powered off"@ && lines@[1]@
            == "Press 'o' to power on"@),
        app.adapter matches Some(adapter) && adapter.powered && states::list_length(*app) == 0 ==> (
        shown.body matches Body::Notice(lines) && lines@.len() == 1 && lines@[0]@ == "No devices"@),
{
    assert(shown@.body == screen::body(app@));
    assert(app@.total() == states::list_length(*app));
    if let Body::Notice(lines) = shown.body {
        assert(text::texts(lines@).len() == lines@.len());
        if lines@.len() > 0 {
            assert(text::texts(lines@)[0] == lines@[0]@);
        }
        if lines@.len() > 1 {
            assert(text::texts(lines@)[1] == lines@[1]@);
        }
    }
}

// ---------------------------------------------------------------------------------------------
// The bars
// ---------------------------------------------------------------------------------------------

/// What the status bar says of the state: the adapter and whether it is on, whether a scan runs, and
/// the message.
pub open spec fn status_of(app: App) -> Seq<char> {
    let scan = if app.scanning {
        " | Scanning..."@
    } else {
        ""@
    };
    let adapter = match app.adapter {
        Some(adapter) => {
            let power = if adapter.powered {
                "ON"@
            } else {
                "OFF"@
            };
            " "@ + adapter.name@ + " ("@ + adapter.address@ + ") | Power: "@ + power + scan
        },
        None => " No adapter"@,
    };
    match app.status_message {
        Some(message) => adapter + " | "@ + message@,
        None => adapter,
    }
}

/// The status bar says what there is to say, on the screen too.
#[verifier::rlimit(40)]
pub proof fn law_status_bar(
    app: &App,
    line: String,
    outer: Area,
    regions: Regions,
    shown: Screen,
)
    requires
        call_ensures(screen::status_bar_text, (app,), line),
        call_ensures(screen::draw_on, (app, outer, regions), shown),
    ensures
        line@ == status_of(*app),
        shown.status_bar@ == line@,
{
    reveal_strlit("");
    assert(line@ =~= status_of(*app));
}

/// What the help bar offers of a device.
pub open spec fn offers_of(device: DeviceInfo) -> Seq<char> {
    let enter = if device.connected {
        "Enter: Disconnect | "@
    } else {
        "Enter: Connect | "@
    };
    let trust = if device.trusted {
        "t: Untrust | "@
    } else {
        "t: Trust | "@
    };
    let profiles = if device.connected && key_laws::plays_audio(device) {
        "a: Profiles | "@
    } else {
        ""@
    };
    if device.paired {
        "i: Details | "@ + enter + "u: Unpair | "@ + trust + profiles
    } else {
        "i: Details | "@ + "p: Pair | "@
    }
}

/// The help bar offers the keys that do something now: for the selected device what its state calls
/// for, and what can be done with the adapter.
#[verifier::rlimit(40)]
pub proof fn law_help_bar(
    app: &App,
    line: String,
    outer: Area,
    regions: Regions,
    shown: Screen,
    device: DeviceInfo,
)
    requires
        call_ensures(screen::help_bar_text, (app,), line),
        call_ensures(screen::draw_on, (app, outer, regions), shown),
    ensures
        shown.help_bar@ == " "@ + line@,
        app.adapter is None ==> line@ == "q: Quit | ?: Help | Waiting for adapter..."@,
        app.adapter matches Some(adapter) && !adapter.powered ==> line@
            == "q: Quit | o: Power On | ?: Help"@,
        app.adapter matches Some(adapter) && adapter.powered && states::is_selected(*app, device)
            ==> line@ == "q: Quit | "@ + offers_of(device) + "s: Scan | o: Power Off | ?: Help"@,
        app.adapter matches Some(adapter) && adapter.powered && (
        app.list_state.selected matches Some(index) ==> index >= states::list_length(*app))
            ==> line@ == "q: Quit | s: Scan | o: Power Off | ?: Help"@,
{
    assert(app@.total() == states::list_length(*app));
    if app.adapter is Some && app.adapter->0.powered {
        if states::is_selected(*app, device) {
            states::lemma_selected(*app, device);
            lemma_hints(device);
        } else if app@.selected_device() is None {
            lemma_plain_hints();
        }
    }
}

/// The hints without a device.
proof fn lemma_plain_hints()
    ensures
        text::joined(screen::hints(None), " | "@) == "q: Quit | s: Scan | o: Power Off | ?: Help"@,
{
    reveal_strlit("q: Quit");
    reveal_strlit("s: Scan");
    reveal_strlit("o: Power Off");
    reveal_strlit("?: Help");
    reveal_strlit(" | ");
    reveal_strlit("q: Quit | s: Scan | o: Power Off | ?: Help");
    let hints = screen::hints(None);
    assert(hints =~= seq!["q: Quit"@, "s: Scan"@, "o: Power Off"@, "?: Help"@]);
    lemma_join_step(hints, " | "@);
    lemma_join_step(hints.drop_last(), " | "@);
    lemma_join_step(hints.drop_last().drop_last(), " | "@);
    assert(text::joined(hints, " | "@)
        =~= "q: Quit | s: Scan | o: Power Off | ?: Help"@);
}

/// One more text behind a separator.
proof fn lemma_join_step(list: Seq<Seq<char>>, separator: Seq<char>)
    requires
        list.len() > 1,
    ensures
        text::joined(list, separator) == text::joined(list.drop_last(), separator) + separator
            + list.last(),
        list.drop_last().len() == 1 ==> text::joined(list.drop_last(), separator) == list[0],
{
}

/// Texts that are joined, each with the separator behind it.
spec fn ended(list: Seq<Seq<char>>, separator: Seq<char>) -> Seq<char>
    decreases list.len(),
{
    if list.len() == 0 {
        Seq::empty()
    } else {
        ended(list.drop_last(), separator) + list.last() + separator
    }
}

/// A joined list begins with its texts before the last, each with the separator behind it.
proof fn lemma_joined_ends(list: Seq<Seq<char>>, separator: Seq<char>)
    requires
        list.len() > 0,
    ensures
        text::joined(list, separator) == ended(list.drop_last(), separator) + list.last(),
    decreases list.len(),
{
    if list.len() > 1 {
        lemma_joined_ends(list.drop_last(), separator);
        assert(text::joined(list, separator) =~= ended(list.drop_last(), separator) + list.last());
    } else {
        assert(text::joined(list, separator) =~= ended(list.drop_last(), separator) + list.last());
    }
}

/// The texts of two lists with the separator behind each.
proof fn lemma_ended_joined(first: Seq<Seq<char>>, second: Seq<Seq<char>>, separator: Seq<char>)
    ensures
        ended(first + second, separator) == ended(first, separator) + ended(second, separator),
    decreases second.len(),
{
    if second.len() == 0 {
        assert(first + second =~= first);
        assert(ended(first + second, separator) =~= ended(first, separator) + ended(
            second,
            separator,
        ));
    } else {
        lemma_ended_joined(first, second.drop_last(), separator);
        assert((first + second).drop_last() =~= first + second.drop_last());
        assert(ended(first + second, separator) =~= ended(first, separator) + ended(
            second,
            separator,
        ));
    }
}

/// One text with the separator behind it.
proof fn lemma_ended_one(s: Seq<char>, separator: Seq<char>)
    ensures
        ended(seq![s], separator) == s + separator,
{
    assert(seq![s].drop_last() =~= Seq::<Seq<char>>::empty());
    reveal_with_fuel(ended, 2);
    assert(ended(seq![s], separator) =~= s + separator);
}

/// The hints for a device are what is offered of it.
#[verifier::rlimit(40)]
proof fn lemma_device_hints(device: DeviceInfo)
    ensures
        ended(screen::device_hints(device@), " | "@) == offers_of(device),
{
    key_laws::lemma_plays_audio(device);
    reveal_strlit(" | ");
    reveal_strlit("");
    reveal_strlit("i: Details");
    reveal_strlit("i: Details | ");
    reveal_strlit("p: Pair");
    reveal_strlit("p: Pair | ");
    reveal_strlit("Enter: Connect");
    reveal_strlit("Enter: Connect | ");
    reveal_strlit("Enter: Disconnect");
    reveal_strlit("Enter: Disconnect | ");
    reveal_strlit("u: Unpair");
    reveal_strlit("u: Unpair | ");
    reveal_strlit("t: Trust");
    reveal_strlit("t: Trust | ");
    reveal_strlit("t: Untrust");
    reveal_strlit("t: Untrust | ");
    reveal_strlit("a: Profiles");
    reveal_strlit("a: Profiles | ");
    let bar = " | "@;
    let details = seq!["i: Details"@];
    lemma_ended_one("i: Details"@, bar);
    assert("i: Details"@ + bar =~= "i: Details | "@);
    if !device.paired {
        lemma_ended_one("p: Pair"@, bar);
        assert("p: Pair"@ + bar =~= "p: Pair | "@);
        lemma_ended_joined(details, seq!["p: Pair"@], bar);
    } else {
        let enter = if device.connected {
            "Enter: Disconnect"@
        } else {
            "Enter: Connect"@
        };
        let trust = if device.trusted {
            "t: Untrust"@
        } else {
            "t: Trust"@
        };
        let profiles = if device.connected && key_laws::plays_audio(device) {
            seq!["a: Profiles"@]
        } else {
            Seq::empty()
        };
        let three = seq![enter] + seq!["u: Unpair"@] + seq![trust];
        assert(screen::device_hints(device@) =~= details + (three + profiles));
        lemma_ended_joined(details, three + profiles, bar);
        lemma_ended_joined(three, profiles, bar);
        lemma_ended_joined(seq![enter] + seq!["u: Unpair"@], seq![trust], bar);
        lemma_ended_joined(seq![enter], seq!["u: Unpair"@], bar);
        lemma_ended_one(enter, bar);
        lemma_ended_one("u: Unpair"@, bar);
        lemma_ended_one(trust, bar);
        lemma_ended_one("a: Profiles"@, bar);
        assert("Enter: Disconnect"@ + bar =~= "Enter: Disconnect | "@);
        assert("Enter: Connect"@ + bar =~= "Enter: Connect | "@);
        assert("u: Unpair"@ + bar =~= "u: Unpair | "@);
        assert("t: Untrust"@ + bar =~= "t: Untrust | "@);
        assert("t: Trust"@ + bar =~= "t: Trust | "@);
        assert("a: Profiles"@ + bar =~= "a: Profiles | "@);
        assert(ended(Seq::<Seq<char>>::empty(), bar) =~= ""@);
    }
    assert(ended(screen::device_hints(device@), bar) =~= offers_of(device));
}

/// The hints with a device.
#[verifier::rlimit(40)]
proof fn lemma_hints(device: DeviceInfo)
    ensures
        text::joined(screen::hints(Some(device@)), " | "@) == "q: Quit | "@ + offers_of(device)
            + "s: Scan | o: Power Off | ?: Help"@,
{
    reveal_strlit("q: Quit");
    reveal_strlit("q: Quit | ");
    reveal_strlit("s: Scan");
    reveal_strlit("o: Power Off");
    reveal_strlit("?: Help");
    reveal_strlit(" | ");
    reveal_strlit("s: Scan | o: Power Off | ?: Help");
    let bar = " | "@;
    let hints = screen::hints(Some(device@));
    let quit = seq!["q: Quit"@];
    let of_device = screen::device_hints(device@);
    let rest = seq!["s: Scan"@] + seq!["o: Power Off"@];
    assert(hints =~= (quit + of_device + rest).push("?: Help"@));
    lemma_joined_ends(hints, bar);
    assert(hints.drop_last() =~= quit + of_device + rest);
    lemma_ended_joined(quit + of_device, rest, bar);
    lemma_ended_joined(quit, of_device, bar);
    lemma_ended_joined(seq!["s: Scan"@], seq!["o: Power Off"@], bar);
    lemma_ended_one("q: Quit"@, bar);
    lemma_ended_one("s: Scan"@, bar);
    lemma_ended_one("o: Power Off"@, bar);
    lemma_device_hints(device);
    assert("q: Quit"@ + bar =~= "q: Quit | "@);
    assert("s: Scan"@ + bar + ("o: Power Off"@ + bar) + "?: Help"@
        =~= "s: Scan | o: Power Off | ?: Help"@);
    assert(text::joined(hints, bar) =~= "q: Quit | "@ + offers_of(device)
        + "s: Scan | o: Power Off | ?: Help"@);
}

// ---------------------------------------------------------------------------------------------
// Popups
// ---------------------------------------------------------------------------------------------

/// The popup has this text in line `at`.
pub open spec fn line_is(popup: Popup, at: int, content: Seq<char>) -> bool {
    0 <= at < popup.lines@.len() && popup.lines@[at].content@ == content
}

/// The popup at `at` is on the screen.
#[verifier::rlimit(40)]
proof fn lemma_popup(app: &App, outer: Area, regions: Regions, shown: Screen, at: int)
    requires
        call_ensures(screen::draw_on, (app, outer, regions), shown),
        0 <= at < screen::popups(app@, outer).len(),
    ensures
        at < shown.popups@.len(),
        shown.popups@[at]@ == screen::popups(app@, outer)[at],
        shown.popups@[at]@.lines.len() == shown.popups@[at].lines@.len(),
        forall|i: int|
            0 <= i < shown.popups@[at].lines@.len() ==> (
            #[trigger] shown.popups@[at].lines@[i]).content@ == shown.popups@[at]@.lines[i].content,
        forall|i: int|
            0 <= i < shown.popups@[at].lines@.len() ==> (
            #[trigger] shown.popups@[at].lines@[i]).selected == shown.popups@[at]@.lines[i].selected,
{
    assert(shown@.popups.len() == shown.popups@.len());
    assert(shown@.popups[at] == shown.popups@[at]@);
    let popup = shown.popups@[at];
    assert forall|i: int| 0 <= i < popup.lines@.len() implies #[trigger] popup.lines@[i]@
        == popup@.lines[i] by {}
}

/// The dialog is on the screen, below everything else, and shows its question.
#[verifier::rlimit(40)]
pub proof fn law_dialog_is_shown(app: &App, outer: Area, regions: Regions, shown: Screen)
    requires
        call_ensures(screen::draw_on, (app, outer, regions), shown),
        app.pending_confirm is Some,
    ensures
        shown.popups@.len() > 0,
        shown.popups@[0].lines@.len() == 1,
        line_is(shown.popups@[0], 0, app.pending_confirm->0.message@),
{
    let popups = screen::popups(app@, outer);
    assert(popups[0] == screen::confirm_popup(app.pending_confirm->0@, outer));
    lemma_popup(app, outer, regions, shown, 0);
}

/// A flag in words.
pub open spec fn in_words(flag: bool) -> Seq<char> {
    if flag {
        "Yes"@
    } else {
        "No"@
    }
}

/// The popup shows what there is to know of the device: its name, its address, its flags, its type
/// and its services, one by one.
pub open spec fn shows_details(popup: Popup, device: DeviceInfo) -> bool {
    &&& line_is(popup, 0, "Name:      "@ + states::shown_name(device))
    &&& line_is(popup, 1, "Address:   "@ + device.address@)
    &&& line_is(popup, 2, "Paired:    "@ + in_words(device.paired))
    &&& line_is(popup, 3, "Connected: "@ + in_words(device.connected))
    &&& line_is(popup, 4, "Trusted:   "@ + in_words(device.trusted))
    &&& device.icon matches Some(icon) ==> line_is(popup, 5, "Type:      "@ + icon@)
    &&& device.icon is None ==> line_is(popup, 5, "Type:      unknown"@)
    &&& forall|i: int|
        0 <= i < device.uuids@.len() ==> line_is(popup, 8 + i, "  "@ + (#[trigger] device.uuids@[i])@)
    &&& popup.lines@.len() == if device.uuids@.len() == 0 {
        11
    } else {
        10 + device.uuids@.len()
    }
}

/// The details that are open are those of the selected device.
#[verifier::rlimit(40)]
pub proof fn law_details_are_shown(
    app: &App,
    outer: Area,
    regions: Regions,
    shown: Screen,
    device: DeviceInfo,
)
    requires
        call_ensures(screen::draw_on, (app, outer, regions), shown),
        app.show_detail,
        states::is_selected(*app, device),
    ensures
        exists|at: int| 0 <= at < shown.popups@.len() && shows_details(
            #[trigger] shown.popups@[at],
            device,
        ) && (is_countable(shown.popups@[at]) ==> holds_its_lines(shown.popups@[at], outer)),
{
    states::lemma_selected(*app, device);
    let at: int = (if app.pending_confirm is Some {
        1int
    } else {
        0
    }) + (if app.agent_prompt is Some {
        1int
    } else {
        0
    });
    let popups = screen::popups(app@, outer);
    assert(popups[at] == screen::detail_popup(device@, outer));
    lemma_popup(app, outer, regions, shown, at);
    let popup = shown.popups@[at];
    let lines = screen::detail_lines(device@);
    assert(popup@.lines =~= screen::plain_lines(lines));
    assert(popup.lines@.len() == lines.len());
    assert forall|i: int| 0 <= i < lines.len() implies (#[trigger] popup.lines@[i]).content@
        == lines[i] by {}
    assert(device@.uuids.len() == device.uuids@.len());
    reveal_strlit("Type:      ");
    reveal_strlit("unknown");
    reveal_strlit("Type:      unknown");
    assert("Type:      "@ + "unknown"@ =~= "Type:      unknown"@);
    assert forall|i: int| 0 <= i < device.uuids@.len() implies line_is(
        popup,
        8 + i,
        "  "@ + (#[trigger] device.uuids@[i])@,
    ) by {
        assert(device@.uuids[i] == device.uuids@[i]@);
        assert(lines[8 + i] == "  "@ + device@.uuids[i]);
        assert(popup.lines@[8 + i].content@ == lines[8 + i]);
    }
    assert(popup.lines@[0].content@ == lines[0]);
    assert(popup.lines@[1].content@ == lines[1]);
    assert(popup.lines@[2].content@ == lines[2]);
    assert(popup.lines@[3].content@ == lines[3]);
    assert(popup.lines@[4].content@ == lines[4]);
    assert(popup.lines@[5].content@ == lines[5]);
    assert(shows_details(popup, device));
    if is_countable(popup) {
        lemma_holds(popup, lines, outer);
    }
}

/// What stands before a profile in the menu: the cursor if it is selected, and a dot if it is active.
pub open spec fn menu_marks(selected: bool, active: bool) -> Seq<char> {
    if selected && active {
        "▸ "@ + "● "@
    } else if selected {
        "▸ "@ + "  "@
    } else if active {
        "  "@ + "● "@
    } else {
        "  "@ + "  "@
    }
}

/// The popup shows a line for each profile of the menu: the cursor at the selected one, a dot at the
/// active ones, and the description.
pub open spec fn shows_menu(popup: Popup, menu: ProfileMenu) -> bool {
    &&& popup.title@ == " "@ + menu.name@ + " - Audio Profiles "@
    &&& popup.lines@.len() == menu.profiles@.len() + 2
    &&& forall|i: int|
        0 <= i < menu.profiles@.len() ==> {
            &&& line_is(
                popup,
                i,
                menu_marks(i == menu.selected, menu.profiles@[i].active) + (
                #[trigger] menu.profiles@[i]).description@,
            )
            &&& popup.lines@[i].selected == (i == menu.selected)
        }
}

/// The profile menu that is open is on the screen.
#[verifier::rlimit(40)]
pub proof fn law_menu_is_shown(app: &App, outer: Area, regions: Regions, shown: Screen)
    requires
        call_ensures(screen::draw_on, (app, outer, regions), shown),
        app.profile_menu is Some,
    ensures
        exists|at: int| 0 <= at < shown.popups@.len() && shows_menu(
            #[trigger] shown.popups@[at],
            app.profile_menu->0,
        ),
{
    let menu = app.profile_menu->0;
    let at: int = (if app.pending_confirm is Some {
        1int
    } else {
        0
    }) + (if app.agent_prompt is Some {
        1int
    } else {
        0
    }) + (if screen::detailed_device(app@) is Some {
        1int
    } else {
        0
    });
    let popups = screen::popups(app@, outer);
    assert(popups[at] == screen::menu_popup(menu@, screen::menu_width(menu@), outer));
    lemma_popup(app, outer, regions, shown, at);
    let popup = shown.popups@[at];
    let lines = screen::menu_lines(menu@);
    assert(menu@.profiles.len() == menu.profiles@.len());
    assert forall|i: int| 0 <= i < menu.profiles@.len() implies {
        &&& line_is(
            popup,
            i,
            menu_marks(i == menu.selected, menu.profiles@[i].active) + (
            #[trigger] menu.profiles@[i]).description@,
        )
        &&& popup.lines@[i].selected == (i == menu.selected)
    } by {
        assert(menu@.profiles[i] == menu.profiles@[i]@);
        assert(lines[i] == screen::profile_line(menu@.profiles[i], i == menu.selected));
        assert(popup.lines@[i].content@ == lines[i].content);
        assert(popup.lines@[i].selected == lines[i].selected);
    }
    assert(shows_menu(popup, menu));
}

/// The popup is wide and high enough for its lines, its frame and its margin, or as wide and high as
/// the terminal.
pub open spec fn holds_its_lines(popup: Popup, outer: Area) -> bool {
    &&& popup.area.height == outer.height || popup.area.height == popup.lines@.len() + 2
    &&& popup.area.width == outer.width || forall|i: int|
        0 <= i < popup.lines@.len() ==> text::byte_len((#[trigger] popup.lines@[i]).content@) + 4
            <= popup.area.width
}

/// The greatest number of a list is not exceeded.
proof fn lemma_greatest(list: Seq<nat>, i: int)
    requires
        0 <= i < list.len(),
    ensures
        list[i] <= screen::greatest(list),
    decreases list.len(),
{
    if i < list.len() - 1 {
        lemma_greatest(list.drop_last(), i);
    }
}

/// No line is longer than the longest.
proof fn lemma_longest(lines: Seq<Seq<char>>, i: int)
    requires
        0 <= i < lines.len(),
    ensures
        text::byte_len(lines[i]) <= screen::longest(lines),
{
    let lengths = lines.map_values(|l: Seq<char>| text::byte_len(l));
    lemma_greatest(lengths, i);
}

/// The lines of the popup, with its frame and its margin, can be counted in 16 bits.
pub open spec fn is_countable(popup: Popup) -> bool {
    &&& popup.lines@.len() + 2 <= 0xffff
    &&& forall|i: int|
        0 <= i < popup.lines@.len() ==> text::byte_len((#[trigger] popup.lines@[i]).content@) + 4
            <= 0xffff
}

/// A popup that is placed for its longest line holds its lines.
proof fn lemma_holds(popup: Popup, lines: Seq<Seq<char>>, outer: Area)
    requires
        is_countable(popup),
        popup.lines@.len() == lines.len(),
        forall|i: int|
            0 <= i < lines.len() ==> (#[trigger] popup.lines@[i]).content@ == lines[i],
        popup.area == screen::placed(outer, screen::longest(lines), lines.len()),
    ensures
        holds_its_lines(popup, outer),
{
    lemma_longest_reached(lines);
    assert(screen::longest(lines) + 4 <= 0xffff) by {
        if lines.len() > 0 {
            let i = choose|i: int|
                0 <= i < lines.len() && text::byte_len(#[trigger] lines[i]) == screen::longest(
                    lines,
                );
            assert(popup.lines@[i].content@ == lines[i]);
        }
    }
    assert forall|i: int| 0 <= i < popup.lines@.len() implies text::byte_len(
        (#[trigger] popup.lines@[i]).content@,
    ) <= screen::longest(lines) by {
        lemma_longest(lines, i);
        assert(popup.lines@[i].content@ == lines[i]);
    }
}

/// The popup of a prompt holds its lines.
#[verifier::rlimit(40)]
pub proof fn law_prompts_hold_their_lines(app: &App, outer: Area, regions: Regions, shown: Screen)
    requires
        call_ensures(screen::draw_on, (app, outer, regions), shown),
        app.agent_prompt is Some,
        app.pending_confirm is None,
        is_countable(shown.popups@[0]),
    ensures
        shown.popups@.len() > 0,
        holds_its_lines(shown.popups@[0], outer),
{
    let popups = screen::popups(app@, outer);
    let popup = shown.popups@[0];
    assert(popups[0] == screen::prompt_popup(app.agent_prompt->0@, outer));
    lemma_popup(app, outer, regions, shown, 0);
    let lines = screen::prompt_lines(app.agent_prompt->0@);
    assert(popup@.lines =~= screen::plain_lines(lines));
    assert forall|i: int| 0 <= i < lines.len() implies (#[trigger] popup.lines@[i]).content@
        == lines[i] by {}
    lemma_holds(popup, lines, outer);
}

/// The dialog is three lines high, and holds its question.
#[verifier::rlimit(40)]
pub proof fn law_dialog_holds_its_question(app: &App, outer: Area, regions: Regions, shown: Screen)
    requires
        call_ensures(screen::draw_on, (app, outer, regions), shown),
        app.pending_confirm is Some,
        text::byte_len(app.pending_confirm->0.message@) + 4 <= 0xffff,
    ensures
        shown.popups@.len() > 0,
        shown.popups@[0].area.height == 3,
        shown.popups@[0].area.width == outer.width || shown.popups@[0].area.width == text::byte_len(
            app.pending_confirm->0.message@,
        ) + 4,
{
    let popups = screen::popups(app@, outer);
    assert(popups[0] == screen::confirm_popup(app.pending_confirm->0@, outer));
    lemma_popup(app, outer, regions, shown, 0);
}

/// The widest line of the menu has room in its popup, or the popup is as wide as the terminal.
#[verifier::rlimit(40)]
pub proof fn law_menu_holds_its_lines(
    app: &App,
    outer: Area,
    regions: Regions,
    shown: Screen,
    i: int,
)
    requires
        call_ensures(screen::draw_on, (app, outer, regions), shown),
        app.profile_menu is Some,
        states::nothing_open(App { profile_menu: None, ..*app }),
        shown.popups@.len() == 1,
        0 <= i < shown.popups@[0].lines@.len(),
        shown.popups@[0].lines@.len() + 2 <= 0xffff,
        screen::menu_width(app.profile_menu->0@) + 4 <= 0xffff,
        text::byte_len(shown.popups@[0].title@) + 4 <= 0xffff,
    ensures
        shown.popups@[0].area.height == outer.height || shown.popups@[0].area.height
            == shown.popups@[0].lines@.len() + 2,
        shown.popups@[0].area.width == outer.width || screen::line_width(
            shown.popups@[0].lines@[i].content@,
        ) + 4 <= shown.popups@[0].area.width,
        shown.popups@[0].area.width == outer.width || text::byte_len(shown.popups@[0].title@) + 4
            <= shown.popups@[0].area.width,
{
    let menu = app.profile_menu->0;
    let popups = screen::popups(app@, outer);
    assert(popups[0] == screen::menu_popup(menu@, screen::menu_width(menu@), outer));
    lemma_popup(app, outer, regions, shown, 0);
    let popup = shown.popups@[0];
    let lines = screen::menu_lines(menu@);
    let widths = screen::contents(lines).map_values(|l: Seq<char>| screen::line_width(l));
    assert(popup.lines@[i].content@ == lines[i].content);
    assert(screen::contents(lines)[i] == lines[i].content);
    assert(widths[i] == screen::line_width(lines[i].content));
    lemma_greatest(widths, i);
}

/// Some line is as long as the longest.
proof fn lemma_longest_reached(lines: Seq<Seq<char>>)
    ensures
        lines.len() > 0 ==> exists|i: int|
            0 <= i < lines.len() && text::byte_len(#[trigger] lines[i]) == screen::longest(lines),
        lines.len() == 0 ==> screen::longest(lines) == 0,
{
    let lengths = lines.map_values(|l: Seq<char>| text::byte_len(l));
    if lines.len() > 0 {
        lemma_greatest_reached(lengths);
        let i = choose|i: int| 0 <= i < lengths.len() && lengths[i] == screen::greatest(lengths);
        assert(text::byte_len(lines[i]) == lengths[i]);
    }
}

/// The greatest number of a list is one of them.
proof fn lemma_greatest_reached(list: Seq<nat>)
    requires
        list.len() > 0,
    ensures
        exists|i: int| 0 <= i < list.len() && list[i] == screen::greatest(list),
    decreases list.len(),
{
    let before = screen::greatest(list.drop_last());
    if list.last() >= before {
        assert(list[list.len() - 1] == screen::greatest(list));
    } else {
        lemma_greatest_reached(list.drop_last());
        let i = choose|i: int| 0 <= i < list.len() - 1 && list.drop_last()[i] == before;
        assert(list[i] == screen::greatest(list));
    }
}

/// The popup lists the keys of the device list and what each is for.
pub open spec fn shows_help(popup: Popup) -> bool {
    &&& popup.title@ == " Help "@
    &&& line_is(popup, 2, "  q / Ctrl+C   Quit"@)
    &&& line_is(popup, 3, "  s            Toggle scan"@)
    &&& line_is(popup, 4, "  Enter        Connect / Disconnect"@)
    &&& line_is(popup, 5, "  p            Pair device"@)
    &&& line_is(popup, 6, "  u            Unpair device"@)
    &&& line_is(popup, 7, "  t            Trust / Untrust device"@)
    &&& line_is(popup, 8, "  i            Device details"@)
    &&& line_is(popup, 9, "  a            Audio profiles"@)
    &&& line_is(popup, 10, "  o            Toggle adapter power"@)
    &&& line_is(popup, 11, "  Up/Down      Navigate device list"@)
    &&& line_is(popup, 12, "  ?            Toggle this help"@)
    &&& line_is(popup, 13, "  Esc          Close overlay / Cancel"@)
}

/// The help that is open is on the screen, on top of everything else.
#[verifier::rlimit(40)]
pub proof fn law_help_is_shown(app: &App, outer: Area, regions: Regions, shown: Screen)
    requires
        call_ensures(screen::draw_on, (app, outer, regions), shown),
        app.show_help,
    ensures
        shown.popups@.len() > 0,
        shows_help(shown.popups@.last()),
        shown.popups@.last().area.height == outer.height || shown.popups@.last().area.height
            == shown.popups@.last().lines@.len() + 2,
        shown.popups@.last().area.width == outer.width || forall|i: int|
            0 <= i < shown.popups@.last().lines@.len() ==> (
            #[trigger] shown.popups@.last().lines@[i]).content@.len() + 4
                <= shown.popups@.last().area.width,
{
    let popups = screen::popups(app@, outer);
    let at = popups.len() - 1;
    assert(popups[at] == screen::help_popup(outer));
    lemma_popup(app, outer, regions, shown, at);
    assert(shown@.popups.len() == shown.popups@.len());
    let popup = shown.popups@[at];
    let lines = screen::help_lines();
    assert(popup@.lines =~= screen::plain_lines(lines));
    assert(popup.lines@.len() == 16);
    assert forall|i: int| 0 <= i < 16 implies (#[trigger] popup.lines@[i]).content@ == lines[i] by {}
    assert(popup.lines@[2].content@ == lines[2]);
    assert(popup.lines@[3].content@ == lines[3]);
    assert(popup.lines@[4].content@ == lines[4]);
    assert(popup.lines@[5].content@ == lines[5]);
    assert(popup.lines@[6].content@ == lines[6]);
    assert(popup.lines@[7].content@ == lines[7]);
    assert(popup.lines@[8].content@ == lines[8]);
    assert(popup.lines@[9].content@ == lines[9]);
    assert(popup.lines@[10].content@ == lines[10]);
    assert(popup.lines@[11].content@ == lines[11]);
    assert(popup.lines@[12].content@ == lines[12]);
    assert(popup.lines@[13].content@ == lines[13]);
    screen::lemma_help_lines();
    assert forall|i: int| 0 <= i < popup.lines@.len() implies (
    #[trigger] popup.lines@[i]).content@.len() <= screen::HELP_COLUMNS by {
        assert(popup.lines@[i].content@ == lines[i]);
    }
}

/// The regions fill the terminal from top to bottom, each as wide as it is: the list on top, and one
/// line each for the help bar and the status bar if there are three lines. On a lower terminal the
/// list keeps one line, if there is one.
pub open spec fn fill(regions: Regions, outer: Area) -> bool {
    &&& regions.list.x == outer.x && regions.list.width == outer.width
    &&& regions.help_bar.x == outer.x && regions.help_bar.width == outer.width
    &&& regions.status_bar.x == outer.x && regions.status_bar.width == outer.width
    &&& regions.list.y == outer.y
    &&& regions.help_bar.y == regions.list.y + regions.list.height
    &&& regions.status_bar.y == regions.help_bar.y + regions.help_bar.height
    &&& regions.status_bar.y + regions.status_bar.height == outer.y + outer.height
    &&& regions.help_bar.height <= 1 && regions.status_bar.height <= 1
    &&& outer.height >= 3 ==> regions.help_bar.height == 1 && regions.status_bar.height == 1
    &&& 1 <= outer.height < 3 ==> regions.list.height == 1
}

/// The terminal is divided so that the regions fill it, on the screen too.
#[verifier::rlimit(40)]
pub proof fn law_terminal_is_divided(app: &App, outer: Area, regions: Regions, shown: Screen)
    requires
        is_bounded(outer),
        call_ensures(screen::regions_of, (outer,), regions),
        call_ensures(screen::draw, (app, outer), shown),
    ensures
        fill(regions, outer),
        fill(shown.regions, outer),
{
}

/// The screen on given regions has those.
#[verifier::rlimit(40)]
pub proof fn law_regions_are_kept(app: &App, outer: Area, regions: Regions, shown: Screen)
    requires
        call_ensures(screen::draw_on, (app, outer, regions), shown),
    ensures
        shown.regions == regions,
{
}

/// The terminal ends within 16 bits.
pub open spec fn is_bounded(outer: Area) -> bool {
    outer.x + outer.width <= 0xffff && outer.y + outer.height <= 0xffff
}

/// A text of so many bytes on so many lines has room within 16 bits, with its frame and its margin.
pub open spec fn has_room(bytes: nat, lines: nat) -> bool {
    bytes + 4 <= 0xffff && lines + 2 <= 0xffff
}

/// There is room for what is open: the dialog, the prompt, the details and the menu.
pub open spec fn has_room_for_popups(app: App) -> bool {
    &&& app.pending_confirm matches Some(confirm) ==> has_room(text::byte_len(confirm.message@), 1)
    &&& app.agent_prompt matches Some(prompt) ==> has_room(
        screen::longest(screen::prompt_lines(prompt@)),
        screen::prompt_lines(prompt@).len(),
    )
    &&& screen::detailed_device(app@) matches Some(device) ==> has_room(
        screen::longest(screen::detail_lines(device)),
        screen::detail_lines(device).len(),
    )
    &&& app.profile_menu matches Some(menu) ==> has_room(
        screen::menu_width(menu@),
        screen::menu_lines(menu@).len(),
    ) && has_room(text::byte_len(screen::menu_title(menu@)), 1)
}

/// What has room can be placed.
proof fn lemma_room(bytes: nat, lines: nat)
    requires
        has_room(bytes, lines),
    ensures
        screen::placeable(bytes, lines),
{
}

/// The screen is drawn whenever the terminal and the popups stay within 16 bits, and never on a
/// terminal that does not.
#[verifier::rlimit(40)]
pub proof fn law_screen_is_drawn(app: &App, outer: Area, tried: Option<Screen>)
    requires
        call_ensures(screen::try_draw, (app, outer), tried),
        has_room_for_popups(*app),
    ensures
        tried is Some <==> is_bounded(outer),
{
    if let Some(confirm) = app.pending_confirm {
        lemma_room(text::byte_len(confirm.message@), 1);
    }
    if let Some(prompt) = app.agent_prompt {
        lemma_room(
            screen::longest(screen::prompt_lines(prompt@)),
            screen::prompt_lines(prompt@).len(),
        );
    }
    if let Some(device) = screen::detailed_device(app@) {
        lemma_room(screen::longest(screen::detail_lines(device)), screen::detail_lines(device).len());
    }
    if let Some(menu) = app.profile_menu {
        lemma_room(
            screen::larger(screen::menu_width(menu@), text::byte_len(screen::menu_title(menu@))),
            screen::menu_lines(menu@).len(),
        );
    }
    assert(is_bounded(outer) ==> screen::drawable(app@, outer));
}

/// A screen that is drawn is the one that is drawn on its regions.
#[verifier::rlimit(40)]
pub proof fn law_one_screen(
    app: &App,
    outer: Area,
    tried: Option<Screen>,
    regions: Regions,
    drawn: Screen,
)
    requires
        call_ensures(screen::try_draw, (app, outer), tried),
        call_ensures(screen::draw_on, (app, outer, regions), drawn),
    ensures
        tried matches Some(shown) && regions == shown.regions ==> tried->0@ == drawn@,
{
}

// ---------------------------------------------------------------------------------------------
// The command line
// ---------------------------------------------------------------------------------------------

/// The version is printed if and only if the first argument behind the name of the program asks for
/// it, in one of three ways.
pub proof fn law_command_line(args: &[&str], action: CliAction)
    requires
        call_ensures(cli::parse_cli, (args,), action),
    ensures
        action == CliAction::PrintVersion <==> args@.len() > 1 && (args@[1]@ == "version"@
            || args@[1]@ == "--version"@ || args@[1]@ == "-V"@),
        action == CliAction::RunTui || action == CliAction::PrintVersion,
{
}

} // verus!

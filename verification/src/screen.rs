//! What the screen shows: the texts and the places of its parts.
use ratatui::layout::{Constraint, Layout, Rect};
use vstd::prelude::*;

use crate::agent::{AgentPrompt, PromptView};
use crate::app::{App, AppView, ConfirmView, MenuView, PendingConfirm, ProfileMenu};
use crate::audio::ProfileView;
use crate::bluetooth::{DeviceInfo, DeviceView};
use crate::number;
use crate::text;

verus! {

/// A rectangle of terminal cells.
#[derive(Debug, Clone, Copy, PartialEq, Eq, Structural)]
pub struct Area {
    pub x: u16,
    pub y: u16,
    pub width: u16,
    pub height: u16,
}

/// The color of a popup.
#[derive(Debug, Clone, Copy, PartialEq, Eq, Structural)]
pub enum Tone {
    Yellow,
    Cyan,
    Green,
    Magenta,
}

/// A line of a popup.
#[derive(Debug, Clone, PartialEq)]
pub struct TextLine {
    pub content: String,
    /// The line is the selected one.
    pub selected: bool,
}

/// The model of a [`TextLine`].
#[verifier::ext_equal]
pub struct TextLineView {
    pub content: Seq<char>,
    pub selected: bool,
}

impl View for TextLine {
    type V = TextLineView;

    open spec fn view(&self) -> TextLineView {
        TextLineView { content: self.content@, selected: self.selected }
    }
}

/// A framed box over the device list.
#[derive(Debug, Clone, PartialEq)]
pub struct Popup {
    pub title: String,
    pub lines: Vec<TextLine>,
    pub area: Area,
    pub tone: Tone,
    pub centered: bool,
}

/// The model of a [`Popup`].
#[verifier::ext_equal]
pub struct PopupView {
    pub title: Seq<char>,
    pub lines: Seq<TextLineView>,
    pub area: Area,
    pub tone: Tone,
    pub centered: bool,
}

/// The models of the lines of a popup.
pub open spec fn line_views(lines: Seq<TextLine>) -> Seq<TextLineView> {
    lines.map_values(|l: TextLine| l@)
}

impl View for Popup {
    type V = PopupView;

    open spec fn view(&self) -> PopupView {
        PopupView {
            title: self.title@,
            lines: line_views(self.lines@),
            area: self.area,
            tone: self.tone,
            centered: self.centered,
        }
    }
}

/// A row of the device list.
#[derive(Debug, Clone, PartialEq)]
pub struct Row {
    pub content: String,
    pub discovered: bool,
}

/// The model of a [`Row`].
#[verifier::ext_equal]
pub struct RowView {
    pub content: Seq<char>,
    pub discovered: bool,
}

impl View for Row {
    type V = RowView;

    open spec fn view(&self) -> RowView {
        RowView { content: self.content@, discovered: self.discovered }
    }
}

/// What stands in the frame of the device list.
#[derive(Debug, Clone, PartialEq)]
pub enum Body {
    /// Lines that say why there are no devices.
    Notice(Vec<String>),
    /// The devices.
    Devices(Vec<Row>),
}

/// The model of a [`Body`].
#[verifier::ext_equal]
pub enum BodyView {
    Notice(Seq<Seq<char>>),
    Devices(Seq<RowView>),
}

/// The models of the rows of a list.
pub open spec fn row_views(rows: Seq<Row>) -> Seq<RowView> {
    rows.map_values(|r: Row| r@)
}

impl View for Body {
    type V = BodyView;

    open spec fn view(&self) -> BodyView {
        match *self {
            Body::Notice(lines) => BodyView::Notice(text::texts(lines@)),
            Body::Devices(rows) => BodyView::Devices(row_views(rows@)),
        }
    }
}

/// A device as a row of the list.
pub open spec fn device_line(device: DeviceView, discovered: bool) -> Seq<char> {
    if discovered {
        "[~][ ][ ] "@ + device.display_name()
    } else {
        let paired = if device.paired {
            "P"@
        } else {
            " "@
        };
        let connected = if device.connected {
            "C"@
        } else {
            " "@
        };
        let trusted = if device.trusted {
            "T"@
        } else {
            " "@
        };
        "["@ + paired + "]["@ + connected + "]["@ + trusted + "] "@ + device.display_name()
    }
}

/// Format a device as a display line.
pub fn format_device_line(device: &DeviceInfo, discovered: bool) -> (line: String)
    ensures
        line@ == device_line(device@, discovered),
{
    if discovered {
        "[~][ ][ ] ".to_string().concat(device.display_name())
    } else {
        let paired = if device.paired {
            "P"
        } else {
            " "
        };
        let connected = if device.connected {
            "C"
        } else {
            " "
        };
        let trusted = if device.trusted {
            "T"
        } else {
            " "
        };
        "[".to_string().concat(paired).concat("][").concat(connected).concat("][").concat(
            trusted,
        ).concat("] ").concat(device.display_name())
    }
}

/// The keys that the help bar offers for a device.
pub open spec fn device_hints(device: DeviceView) -> Seq<Seq<char>> {
    seq!["i: Details"@] + if device.paired {
        seq![
            if device.connected {
                "Enter: Disconnect"@
            } else {
                "Enter: Connect"@
            },
            "u: Unpair"@,
            if device.trusted {
                "t: Untrust"@
            } else {
                "t: Trust"@
            },
        ] + if device.connected && device.has_audio_profiles() {
            seq!["a: Profiles"@]
        } else {
            Seq::empty()
        }
    } else {
        seq!["p: Pair"@]
    }
}

/// The keys that the help bar offers while the adapter is on.
pub open spec fn hints(selected: Option<DeviceView>) -> Seq<Seq<char>> {
    seq!["q: Quit"@] + match selected {
        Some(device) => device_hints(device),
        None => Seq::empty(),
    } + seq!["s: Scan"@, "o: Power Off"@, "?: Help"@]
}

/// The text of the help bar.
pub open spec fn help_text(app: AppView) -> Seq<char> {
    match app.adapter {
        None => "q: Quit | ?: Help | Waiting for adapter..."@,
        Some(adapter) => if !adapter.powered {
            "q: Quit | o: Power On | ?: Help"@
        } else {
            text::joined(hints(app.selected_device()), " | "@)
        },
    }
}

/// Build context-sensitive help bar text based on the selected device's state.
pub fn help_bar_text(app: &App) -> (line: String)
    ensures
        line@ == help_text(app@),
{
    match &app.adapter {
        None => {
            return "q: Quit | ?: Help | Waiting for adapter...".to_string();
        },
        Some(adapter) => {
            if !adapter.powered {
                return "q: Quit | o: Power On | ?: Help".to_string();
            }
        },
    }
    let mut list: Vec<String> = Vec::new();
    list.push("q: Quit".to_string());
    match app.selected_device() {
        Some(device) => {
            list.push("i: Details".to_string());
            if device.paired {
                if device.connected {
                    list.push("Enter: Disconnect".to_string());
                } else {
                    list.push("Enter: Connect".to_string());
                }
                list.push("u: Unpair".to_string());
                if device.trusted {
                    list.push("t: Untrust".to_string());
                } else {
                    list.push("t: Trust".to_string());
                }
                if device.connected && device.has_audio_profiles() {
                    list.push("a: Profiles".to_string());
                }
            } else {
                list.push("p: Pair".to_string());
            }
        },
        None => {},
    }
    list.push("s: Scan".to_string());
    list.push("o: Power Off".to_string());
    list.push("?: Help".to_string());
    assert(text::texts(list@) =~= hints(app@.selected_device()));
    text::join(&list, " | ")
}

/// A message behind a separator, where there is one.
pub open spec fn message_part(message: Option<Seq<char>>) -> Seq<char> {
    match message {
        Some(message) => " | "@ + message,
        None => Seq::empty(),
    }
}

/// The text of the status bar.
pub open spec fn status_text(app: AppView) -> Seq<char> {
    match app.adapter {
        Some(adapter) => {
            let power = if adapter.powered {
                "ON"@
            } else {
                "OFF"@
            };
            let scan = if app.scanning {
                " | Scanning..."@
            } else {
                Seq::empty()
            };
            " "@ + adapter.name + " ("@ + adapter.address + ") | Power: "@ + power + scan
                + message_part(app.status_message)
        },
        None => " No adapter"@ + message_part(app.status_message),
    }
}

/// Build the text of the status bar.
pub fn status_bar_text(app: &App) -> (line: String)
    ensures
        line@ == status_text(app@),
{
    let mut line = match &app.adapter {
        Some(adapter) => {
            let power = if adapter.powered {
                "ON"
            } else {
                "OFF"
            };
            let mut line = " ".to_string().concat(adapter.name.as_str()).concat(" (").concat(
                adapter.address.as_str(),
            ).concat(") | Power: ").concat(power);
            if app.scanning {
                line.append(" | Scanning...");
            }
            line
        },
        None => " No adapter".to_string(),
    };
    match &app.status_message {
        Some(message) => {
            line.append(" | ");
            line.append(message.as_str());
        },
        None => {},
    }
    assert(line@ =~= status_text(app@));
    line
}

/// The rows of the device list: the known devices, then the discovered ones.
pub open spec fn device_rows(app: AppView) -> Seq<RowView> {
    app.devices.map_values(
        |d: DeviceView| RowView { content: device_line(d, false), discovered: false },
    ) + app.discovered_devices.map_values(
        |d: DeviceView| RowView { content: device_line(d, true), discovered: true },
    )
}

/// What stands in the frame of the device list.
pub open spec fn body(app: AppView) -> BodyView {
    match app.adapter {
        None => BodyView::Notice(seq!["No Bluetooth adapter found"@, "Waiting for adapter..."@]),
        Some(adapter) => if !adapter.powered {
            BodyView::Notice(seq!["Bluetooth adapter is powered off"@, "Press 'o' to power on"@])
        } else if app.total() == 0 {
            BodyView::Notice(seq!["No devices"@])
        } else {
            BodyView::Devices(device_rows(app))
        },
    }
}

/// The rows of the device list.
fn rows_of(app: &App) -> (rows: Vec<Row>)
    ensures
        row_views(rows@) == device_rows(app@),
{
    let ghost all = device_rows(app@);
    let mut rows: Vec<Row> = Vec::new();
    let mut i: usize = 0;
    while i < app.devices.len()
        invariant
            i <= app.devices@.len(),
            all == device_rows(app@),
            row_views(rows@) =~= all.take(i as int),
        decreases app.devices.len() - i,
    {
        let ghost before = rows@;
        assert(app@.devices[i as int] == app.devices@[i as int]@);
        rows.push(
            Row { content: format_device_line(&app.devices[i], false), discovered: false },
        );
        assert(row_views(rows@) =~= row_views(before).push(rows@.last()@));
        assert(all[i as int] == rows@.last()@);
        i = i + 1;
    }
    let mut j: usize = 0;
    while j < app.discovered_devices.len()
        invariant
            j <= app.discovered_devices@.len(),
            all == device_rows(app@),
            row_views(rows@) =~= all.take(app.devices@.len() + j),
        decreases app.discovered_devices.len() - j,
    {
        let ghost before = rows@;
        assert(app@.discovered_devices[j as int] == app.discovered_devices@[j as int]@);
        rows.push(
            Row {
                content: format_device_line(&app.discovered_devices[j], true),
                discovered: true,
            },
        );
        assert(row_views(rows@) =~= row_views(before).push(rows@.last()@));
        assert(all[app.devices@.len() + j] == rows@.last()@);
        j = j + 1;
    }
    assert(row_views(rows@) =~= all);
    rows
}

/// Build what stands in the frame of the device list.
fn body_of(app: &App) -> (shown: Body)
    ensures
        shown@ == body(app@),
{
    let notice: Vec<String> = match &app.adapter {
        None => vec!["No Bluetooth adapter found".to_string(), "Waiting for adapter...".to_string()],
        Some(adapter) => if !adapter.powered {
            vec![
                "Bluetooth adapter is powered off".to_string(),
                "Press 'o' to power on".to_string(),
            ]
        } else if app.devices.len() == 0 && app.discovered_devices.len() == 0 {
            vec!["No devices".to_string()]
        } else {
            return Body::Devices(rows_of(app));
        },
    };
    let shown = Body::Notice(notice);
    assert(shown@ =~~= body(app@));
    shown
}

/// The columns that `Line::width` counts for a line with this text.
pub uninterp spec fn line_width(s: Seq<char>) -> nat;

/// `s` holds printable ASCII characters only.
pub open spec fn printable(s: Seq<char>) -> bool {
    forall|i: int| 0 <= i < s.len() ==> ' ' <= #[trigger] s[i] <= '~'
}

/// `Line::width`, on a line made of the text: the result depends on the text alone, and a printable
/// ASCII character takes one column. How many others take is left to the name.
#[verifier::external_body]
fn width_of(content: &str) -> (width: usize)
    ensures
        width == line_width(content@),
        printable(content@) ==> width == content@.len(),
{
    ratatui::text::Line::from(content).width()
}

/// What is left of a count in 16 bits.
pub open spec fn low16(n: nat) -> int {
    (n % 0x1_0000) as int
}

/// A popup with a content of this size can be placed: with the frame and the margin around it the
/// size still fits in 16 bits.
pub open spec fn placeable(columns: nat, lines: nat) -> bool {
    low16(columns) + 4 <= u16::MAX && low16(lines) + 2 <= u16::MAX
}

/// The middle of `outer`, for a box of this width and height.
pub open spec fn middle(outer: Area, width: int, height: int) -> Area {
    Area {
        x: (outer.x + (if outer.width > width {
            (outer.width - width) / 2
        } else {
            0
        })) as u16,
        y: (outer.y + (if outer.height > height {
            (outer.height - height) / 2
        } else {
            0
        })) as u16,
        width: width as u16,
        height: height as u16,
    }
}

/// The smaller of two numbers.
pub open spec fn smaller(a: int, b: int) -> int {
    if a <= b {
        a
    } else {
        b
    }
}

/// The place of a popup with a content of this size: in the middle of `outer`, with a frame and a
/// margin, and no larger than `outer`.
pub open spec fn placed(outer: Area, columns: nat, lines: nat) -> Area {
    middle(
        outer,
        smaller(low16(columns) + 4, outer.width as int),
        smaller(low16(lines) + 2, outer.height as int),
    )
}

/// The place of the confirmation dialog: one line and its frame, whatever the height of `outer`.
pub open spec fn dialog_placed(outer: Area, columns: nat) -> Area {
    middle(outer, smaller(low16(columns) + 4, outer.width as int), 3)
}

/// The area ends within the coordinates of the terminal.
pub open spec fn bounded(outer: Area) -> bool {
    outer.x + outer.width <= u16::MAX && outer.y + outer.height <= u16::MAX
}

/// The low 16 bits of a count.
fn truncated(n: usize) -> (low: u16)
    ensures
        low == low16(n as nat),
{
    assert((n as u16) as usize == n % 0x1_0000) by (bit_vector);
    #[verifier::truncate]
    (n as u16)
}

/// The middle of `outer`, for a box of this width and height.
fn middle_of(outer: Area, width: u16, height: u16) -> (area: Area)
    requires
        bounded(outer),
    ensures
        area == middle(outer, width as int, height as int),
{
    let left: u16 = if outer.width > width {
        (outer.width - width) / 2
    } else {
        0
    };
    let top: u16 = if outer.height > height {
        (outer.height - height) / 2
    } else {
        0
    };
    Area { x: outer.x + left, y: outer.y + top, width, height }
}

/// The width of a popup with this content.
fn popup_width(outer: Area, columns: usize) -> (width: u16)
    requires
        low16(columns as nat) + 4 <= u16::MAX,
    ensures
        width == smaller(low16(columns as nat) + 4, outer.width as int),
{
    let wanted: u16 = truncated(columns) + 4;
    if wanted <= outer.width {
        wanted
    } else {
        outer.width
    }
}

/// The place of a popup with a content of this size.
fn place(outer: Area, columns: usize, lines: usize) -> (area: Area)
    requires
        bounded(outer),
        placeable(columns as nat, lines as nat),
    ensures
        area == placed(outer, columns as nat, lines as nat),
{
    let width: u16 = popup_width(outer, columns);
    let wanted: u16 = truncated(lines) + 2;
    let height: u16 = if wanted <= outer.height {
        wanted
    } else {
        outer.height
    };
    middle_of(outer, width, height)
}

/// The greatest of a list of numbers; zero where there are none.
pub open spec fn greatest(list: Seq<nat>) -> nat
    decreases list.len(),
{
    if list.len() == 0 {
        0
    } else {
        let before = greatest(list.drop_last());
        if list.last() >= before {
            list.last()
        } else {
            before
        }
    }
}

/// The bytes of the longest line.
pub open spec fn longest(lines: Seq<Seq<char>>) -> nat {
    greatest(lines.map_values(|l: Seq<char>| text::byte_len(l)))
}

/// The columns of the widest line.
pub open spec fn widest(lines: Seq<Seq<char>>) -> nat {
    greatest(lines.map_values(|l: Seq<char>| line_width(l)))
}

/// Lines of which none is selected.
pub open spec fn plain_lines(lines: Seq<Seq<char>>) -> Seq<TextLineView> {
    lines.map_values(|l: Seq<char>| TextLineView { content: l, selected: false })
}

/// The bytes of the longest line.
fn longest_of(lines: &Vec<String>) -> (bytes: usize)
    ensures
        bytes == longest(text::texts(lines@)),
{
    let ghost all = text::texts(lines@).map_values(|l: Seq<char>| text::byte_len(l));
    let mut bytes: usize = 0;
    let mut i: usize = 0;
    while i < lines.len()
        invariant
            i <= lines@.len(),
            all == text::texts(lines@).map_values(|l: Seq<char>| text::byte_len(l)),
            bytes == greatest(all.take(i as int)),
        decreases lines.len() - i,
    {
        let count: usize = text::bytes_in(lines[i].as_str());
        if count >= bytes {
            bytes = count;
        }
        assert(all.take(i + 1).drop_last() =~= all.take(i as int));
        assert(all.take(i + 1).last() == count);
        i = i + 1;
    }
    assert(all.take(i as int) =~= all);
    bytes
}

/// Lines of which none is selected.
fn plain(lines: Vec<String>) -> (result: Vec<TextLine>)
    ensures
        line_views(result@) == plain_lines(text::texts(lines@)),
{
    let mut rest = lines;
    let mut result: Vec<TextLine> = Vec::new();
    let ghost all = lines@;
    let ghost mut done: int = 0;
    while rest.len() > 0
        invariant
            0 <= done <= all.len(),
            rest@ == all.skip(done),
            line_views(result@) =~= plain_lines(text::texts(all)).take(done),
        decreases rest.len(),
    {
        let ghost before = result@;
        let content = rest.remove(0);
        assert(content == all[done]);
        result.push(TextLine { content, selected: false });
        assert(line_views(result@) =~= line_views(before).push(result@.last()@));
        assert(plain_lines(text::texts(all))[done] == result@.last()@);
        proof {
            done = done + 1;
        }
    }
    assert(line_views(result@) =~= plain_lines(text::texts(all)));
    result
}

/// The confirmation dialog.
pub open spec fn confirm_popup(confirm: ConfirmView, outer: Area) -> PopupView {
    PopupView {
        title: " Confirm "@,
        lines: plain_lines(seq![confirm.message]),
        area: dialog_placed(outer, text::byte_len(confirm.message)),
        tone: Tone::Yellow,
        centered: true,
    }
}

/// Build the confirmation dialog.
fn confirm_popup_of(confirm: &PendingConfirm, outer: Area) -> (popup: Popup)
    requires
        bounded(outer),
        low16(text::byte_len(confirm.message@)) + 4 <= u16::MAX,
    ensures
        popup@ == confirm_popup(confirm@, outer),
{
    let width: u16 = popup_width(outer, text::bytes_in(confirm.message.as_str()));
    let popup = Popup {
        title: " Confirm ".to_string(),
        lines: vec![TextLine { content: confirm.message.clone(), selected: false }],
        area: middle_of(outer, width, 3),
        tone: Tone::Yellow,
        centered: true,
    };
    assert(popup@.lines =~= plain_lines(seq![confirm@.message]));
    popup
}

/// The title of the popup of a prompt.
pub open spec fn prompt_title(prompt: PromptView) -> Seq<char> {
    match prompt {
        PromptView::PinCode { .. } => " PIN Entry "@,
        PromptView::Passkey { .. } => " Passkey Entry "@,
        PromptView::DisplayPasskey { .. } => " Passkey Display "@,
        PromptView::Confirmation { .. } => " Confirm Passkey "@,
        PromptView::AuthorizeService { .. } => " Authorize Service "@,
    }
}

/// The numeral of a passkey: at least six digits.
pub open spec fn passkey_text(passkey: u32) -> Seq<char> {
    number::zero_padded(number::decimal(passkey as nat), 6)
}

/// The text of the popup of a prompt.
pub open spec fn prompt_message(prompt: PromptView) -> Seq<char> {
    match prompt {
        PromptView::PinCode { device, input, .. } => "Device: "@ + device + "\nPIN: "@ + input
            + "_\n[Enter] Submit  [Esc] Cancel"@,
        PromptView::Passkey { device, input, .. } => "Device: "@ + device + "\nPasskey: "@ + input
            + "_\n[Enter] Submit  [Esc] Cancel"@,
        PromptView::DisplayPasskey { device, passkey } => "Device: "@ + device + "\nPasskey: "@
            + passkey_text(passkey) + "\n[Esc] Dismiss"@,
        PromptView::Confirmation { device, passkey, .. } => "Device: "@ + device + "\nPasskey: "@
            + passkey_text(passkey) + "\nConfirm? (y/n)"@,
        PromptView::AuthorizeService { device, uuid, .. } => "Device: "@ + device + "\nService: "@
            + uuid + "\nAuthorize? (y/n)"@,
    }
}

/// The lines of the popup of a prompt.
pub open spec fn prompt_lines(prompt: PromptView) -> Seq<Seq<char>> {
    text::lines(prompt_message(prompt))
}

/// The popup of a prompt.
pub open spec fn prompt_popup(prompt: PromptView, outer: Area) -> PopupView {
    let lines = prompt_lines(prompt);
    PopupView {
        title: prompt_title(prompt),
        lines: plain_lines(lines),
        area: placed(outer, longest(lines), lines.len()),
        tone: Tone::Cyan,
        centered: true,
    }
}

/// `head`, then `first`, then `middle`, then `second`, then `tail`.
fn assembled(head: &str, first: &str, middle: &str, second: &str, tail: &str) -> (result: String)
    ensures
        result@ == head@ + first@ + middle@ + second@ + tail@,
{
    head.to_string().concat(first).concat(middle).concat(second).concat(tail)
}

/// The text of the popup of a prompt.
fn prompt_message_of(prompt: &AgentPrompt) -> (message: String)
    ensures
        message@ == prompt_message(prompt@),
{
    match prompt {
        AgentPrompt::PinCode { device, input, .. } => assembled(
            "Device: ",
            device.as_str(),
            "\nPIN: ",
            input.as_str(),
            "_\n[Enter] Submit  [Esc] Cancel",
        ),
        AgentPrompt::Passkey { device, input, .. } => assembled(
            "Device: ",
            device.as_str(),
            "\nPasskey: ",
            input.as_str(),
            "_\n[Enter] Submit  [Esc] Cancel",
        ),
        AgentPrompt::DisplayPasskey { device, passkey } => assembled(
            "Device: ",
            device.as_str(),
            "\nPasskey: ",
            number::six_digits(*passkey).as_str(),
            "\n[Esc] Dismiss",
        ),
        AgentPrompt::Confirmation { device, passkey, .. } => assembled(
            "Device: ",
            device.as_str(),
            "\nPasskey: ",
            number::six_digits(*passkey).as_str(),
            "\nConfirm? (y/n)",
        ),
        AgentPrompt::AuthorizeService { device, uuid, .. } => assembled(
            "Device: ",
            device.as_str(),
            "\nService: ",
            uuid.as_str(),
            "\nAuthorize? (y/n)",
        ),
    }
}

/// The lines of a text, each as a text of its own.
fn split_lines(message: &str) -> (lines: Vec<String>)
    ensures
        text::texts(lines@) == text::lines(message@),
{
    let list = text::lines_of(message);
    let ghost all = list@.map_values(|line: Vec<char>| line@);
    let mut lines: Vec<String> = Vec::new();
    let mut i: usize = 0;
    while i < list.len()
        invariant
            i <= list@.len(),
            all == list@.map_values(|line: Vec<char>| line@),
            text::texts(lines@) =~= all.take(i as int),
        decreases list.len() - i,
    {
        let ghost before = lines@;
        lines.push(text::text_of(list[i].as_slice()));
        assert(text::texts(lines@) =~= text::texts(before).push(lines@.last()@));
        assert(all[i as int] == lines@.last()@);
        i = i + 1;
    }
    assert(text::texts(lines@) =~= all);
    lines
}

/// Build the popup of a prompt.
fn prompt_popup_of(prompt: &AgentPrompt, outer: Area) -> (popup: Popup)
    requires
        bounded(outer),
        placeable(longest(prompt_lines(prompt@)), prompt_lines(prompt@).len()),
    ensures
        popup@ == prompt_popup(prompt@, outer),
{
    let title = match prompt {
        AgentPrompt::PinCode { .. } => " PIN Entry ".to_string(),
        AgentPrompt::Passkey { .. } => " Passkey Entry ".to_string(),
        AgentPrompt::DisplayPasskey { .. } => " Passkey Display ".to_string(),
        AgentPrompt::Confirmation { .. } => " Confirm Passkey ".to_string(),
        AgentPrompt::AuthorizeService { .. } => " Authorize Service ".to_string(),
    };
    let message = prompt_message_of(prompt);
    let lines = split_lines(message.as_str());
    let area = place(outer, longest_of(&lines), lines.len());
    Popup { title, lines: plain(lines), area, tone: Tone::Cyan, centered: true }
}

/// A flag in words.
pub open spec fn yes_or_no(flag: bool) -> Seq<char> {
    if flag {
        "Yes"@
    } else {
        "No"@
    }
}

/// The lines of the detail view.
pub open spec fn detail_lines(device: DeviceView) -> Seq<Seq<char>> {
    seq![
        "Name:      "@ + device.display_name(),
        "Address:   "@ + device.address,
        "Paired:    "@ + yes_or_no(device.paired),
        "Connected: "@ + yes_or_no(device.connected),
        "Trusted:   "@ + yes_or_no(device.trusted),
        "Type:      "@ + device.icon.unwrap_or("unknown"@),
        ""@,
        "Profiles/UUIDs:"@,
    ] + if device.uuids.len() == 0 {
        seq!["  (none)"@]
    } else {
        device.uuids.map_values(|u: Seq<char>| "  "@ + u)
    } + seq![""@, "[Esc/i] Close"@]
}

/// The detail view of a device.
pub open spec fn detail_popup(device: DeviceView, outer: Area) -> PopupView {
    let lines = detail_lines(device);
    PopupView {
        title: " Device Details "@,
        lines: plain_lines(lines),
        area: placed(outer, longest(lines), lines.len()),
        tone: Tone::Green,
        centered: false,
    }
}

/// A flag in words.
fn yes_or_no_of(flag: bool) -> (word: &'static str)
    ensures
        word@ == yes_or_no(flag),
{
    if flag {
        "Yes"
    } else {
        "No"
    }
}

/// The lines of the detail view.
fn detail_lines_of(device: &DeviceInfo) -> (lines: Vec<String>)
    ensures
        text::texts(lines@) == detail_lines(device@),
{
    let icon = match &device.icon {
        Some(icon) => icon.as_str(),
        None => "unknown",
    };
    let mut lines: Vec<String> = vec![
        "Name:      ".to_string().concat(device.display_name()),
        "Address:   ".to_string().concat(device.address.as_str()),
        "Paired:    ".to_string().concat(yes_or_no_of(device.paired)),
        "Connected: ".to_string().concat(yes_or_no_of(device.connected)),
        "Trusted:   ".to_string().concat(yes_or_no_of(device.trusted)),
        "Type:      ".to_string().concat(icon),
        "".to_string(),
        "Profiles/UUIDs:".to_string(),
    ];
    let ghost head = seq![
        "Name:      "@ + device@.display_name(),
        "Address:   "@ + device@.address,
        "Paired:    "@ + yes_or_no(device@.paired),
        "Connected: "@ + yes_or_no(device@.connected),
        "Trusted:   "@ + yes_or_no(device@.trusted),
        "Type:      "@ + device@.icon.unwrap_or("unknown"@),
        ""@,
        "Profiles/UUIDs:"@,
    ];
    assert(text::texts(lines@) =~= head);
    let ghost services = device@.uuids.map_values(|u: Seq<char>| "  "@ + u);
    if device.uuids.len() == 0 {
        lines.push("  (none)".to_string());
        assert(text::texts(lines@) =~= head + seq!["  (none)"@]);
    } else {
        let mut i: usize = 0;
        while i < device.uuids.len()
            invariant
                i <= device.uuids@.len(),
                services == device@.uuids.map_values(|u: Seq<char>| "  "@ + u),
                text::texts(lines@) =~= head + services.take(i as int),
            decreases device.uuids.len() - i,
        {
            let ghost before = lines@;
            assert(device@.uuids[i as int] == device.uuids@[i as int]@);
            lines.push("  ".to_string().concat(device.uuids[i].as_str()));
            assert(text::texts(lines@) =~= text::texts(before).push(lines@.last()@));
            assert(services[i as int] == lines@.last()@);
            i = i + 1;
        }
        assert(services.take(i as int) =~= services);
    }
    let ghost listed = text::texts(lines@);
    lines.push("".to_string());
    lines.push("[Esc/i] Close".to_string());
    assert(text::texts(lines@) =~= listed + seq![""@, "[Esc/i] Close"@]);
    lines
}

/// Build the detail view of a device.
fn detail_popup_of(device: &DeviceInfo, outer: Area) -> (popup: Popup)
    requires
        bounded(outer),
        placeable(longest(detail_lines(device@)), detail_lines(device@).len()),
    ensures
        popup@ == detail_popup(device@, outer),
{
    let lines = detail_lines_of(device);
    let area = place(outer, longest_of(&lines), lines.len());
    Popup {
        title: " Device Details ".to_string(),
        lines: plain(lines),
        area,
        tone: Tone::Green,
        centered: false,
    }
}

/// The title of the profile menu.
pub open spec fn menu_title(menu: MenuView) -> Seq<char> {
    " "@ + menu.name + " - Audio Profiles "@
}

/// A profile as a line of the menu.
pub open spec fn profile_line(profile: ProfileView, selected: bool) -> TextLineView {
    let cursor = if selected {
        "▸ "@
    } else {
        "  "@
    };
    let active = if profile.active {
        "● "@
    } else {
        "  "@
    };
    TextLineView { content: cursor + active + profile.description, selected }
}

/// The lines of the profile menu.
pub open spec fn menu_lines(menu: MenuView) -> Seq<TextLineView> {
    menu.profiles.map(|i: int, p: ProfileView| profile_line(p, i == menu.selected)) + plain_lines(
        seq![""@, "[Enter] Select  [Esc] Close"@],
    )
}

/// The texts of lines.
pub open spec fn contents(lines: Seq<TextLineView>) -> Seq<Seq<char>> {
    lines.map_values(|l: TextLineView| l.content)
}

/// The greater of two numbers.
pub open spec fn larger(a: nat, b: nat) -> nat {
    if a >= b {
        a
    } else {
        b
    }
}

/// The profile menu, where its widest line takes `columns` columns.
pub open spec fn menu_popup(menu: MenuView, columns: nat, outer: Area) -> PopupView {
    let lines = menu_lines(menu);
    PopupView {
        title: menu_title(menu),
        lines,
        area: placed(outer, larger(columns, text::byte_len(menu_title(menu))), lines.len()),
        tone: Tone::Magenta,
        centered: false,
    }
}

/// The profile menu with a widest line of `columns` columns can be placed.
pub open spec fn menu_placeable(menu: MenuView, columns: nat) -> bool {
    placeable(larger(columns, text::byte_len(menu_title(menu))), menu_lines(menu).len())
}

/// The lines of the profile menu.
fn menu_lines_of(menu: &ProfileMenu) -> (lines: Vec<TextLine>)
    ensures
        line_views(lines@) == menu_lines(menu@),
{
    let ghost all = menu@.profiles.map(
        |i: int, p: ProfileView| profile_line(p, i == menu@.selected),
    );
    let mut lines: Vec<TextLine> = Vec::new();
    let mut i: usize = 0;
    while i < menu.profiles.len()
        invariant
            i <= menu.profiles@.len(),
            all == menu@.profiles.map(
                |i: int, p: ProfileView| profile_line(p, i == menu@.selected),
            ),
            line_views(lines@) =~= all.take(i as int),
        decreases menu.profiles.len() - i,
    {
        let profile = &menu.profiles[i];
        assert(menu@.profiles[i as int] == profile@);
        let selected = i == menu.selected;
        let cursor = if selected {
            "▸ "
        } else {
            "  "
        };
        let active = if profile.active {
            "● "
        } else {
            "  "
        };
        let ghost before = lines@;
        lines.push(
            TextLine {
                content: cursor.to_string().concat(active).concat(profile.description.as_str()),
                selected,
            },
        );
        assert(line_views(lines@) =~= line_views(before).push(lines@.last()@));
        assert(all[i as int] == lines@.last()@);
        i = i + 1;
    }
    assert(line_views(lines@) =~= all);
    let ghost tail = plain_lines(seq![""@, "[Enter] Select  [Esc] Close"@]);
    lines.push(TextLine { content: "".to_string(), selected: false });
    assert(lines@.last()@ == tail[0]);
    lines.push(TextLine { content: "[Enter] Select  [Esc] Close".to_string(), selected: false });
    assert(lines@.last()@ == tail[1]);
    assert(line_views(lines@) =~= all + tail);
    lines
}

/// The columns of the widest line.
fn widest_of(lines: &Vec<TextLine>) -> (columns: usize)
    ensures
        columns == widest(contents(line_views(lines@))),
{
    let ghost all = contents(line_views(lines@)).map_values(|l: Seq<char>| line_width(l));
    let mut columns: usize = 0;
    let mut i: usize = 0;
    while i < lines.len()
        invariant
            i <= lines@.len(),
            all == contents(line_views(lines@)).map_values(|l: Seq<char>| line_width(l)),
            columns == greatest(all.take(i as int)),
        decreases lines.len() - i,
    {
        let width: usize = width_of(lines[i].content.as_str());
        if width >= columns {
            columns = width;
        }
        assert(all.take(i + 1).drop_last() =~= all.take(i as int));
        assert(all.take(i + 1).last() == width);
        i = i + 1;
    }
    assert(all.take(i as int) =~= all);
    columns
}

/// The columns of the widest line of the profile menu.
fn menu_columns(menu: &ProfileMenu) -> (columns: usize)
    ensures
        columns == widest(contents(menu_lines(menu@))),
{
    let lines = menu_lines_of(menu);
    widest_of(&lines)
}

/// Build the profile menu, where its widest line takes `columns` columns.
pub fn menu_popup_with(menu: &ProfileMenu, columns: usize, outer: Area) -> (popup: Popup)
    requires
        bounded(outer),
        menu_placeable(menu@, columns as nat),
    ensures
        popup@ == menu_popup(menu@, columns as nat, outer),
{
    let title = " ".to_string().concat(menu.name.as_str()).concat(" - Audio Profiles ");
    let lines = menu_lines_of(menu);
    let title_bytes: usize = text::bytes_in(title.as_str());
    let content: usize = if columns >= title_bytes {
        columns
    } else {
        title_bytes
    };
    let area = place(outer, content, lines.len());
    Popup { title, lines, area, tone: Tone::Magenta, centered: false }
}

/// The lines of the help overlay.
pub open spec fn help_lines() -> Seq<Seq<char>> {
    seq![
        "Keyboard Shortcuts"@,
        ""@,
        "  q / Ctrl+C   Quit"@,
        "  s            Toggle scan"@,
        "  Enter        Connect / Disconnect"@,
        "  p            Pair device"@,
        "  u            Unpair device"@,
        "  t            Trust / Untrust device"@,
        "  i            Device details"@,
        "  a            Audio profiles"@,
        "  o            Toggle adapter power"@,
        "  Up/Down      Navigate device list"@,
        "  ?            Toggle this help"@,
        "  Esc          Close overlay / Cancel"@,
        ""@,
        "[?/Esc] Close"@,
    ]
}

/// The columns of the help overlay: those of its longest line.
pub const HELP_COLUMNS: usize = 37;

/// The lines of the help overlay.
pub const HELP_LINES: usize = 16;

/// The help overlay.
pub open spec fn help_popup(outer: Area) -> PopupView {
    PopupView {
        title: " Help "@,
        lines: plain_lines(help_lines()),
        area: placed(outer, HELP_COLUMNS as nat, HELP_LINES as nat),
        tone: Tone::Cyan,
        centered: false,
    }
}

/// The lines of the help overlay.
fn help_lines_of() -> (lines: Vec<String>)
    ensures
        text::texts(lines@) == help_lines(),
{
    let lines: Vec<String> = vec![
        "Keyboard Shortcuts".to_string(),
        "".to_string(),
        "  q / Ctrl+C   Quit".to_string(),
        "  s            Toggle scan".to_string(),
        "  Enter        Connect / Disconnect".to_string(),
        "  p            Pair device".to_string(),
        "  u            Unpair device".to_string(),
        "  t            Trust / Untrust device".to_string(),
        "  i            Device details".to_string(),
        "  a            Audio profiles".to_string(),
        "  o            Toggle adapter power".to_string(),
        "  Up/Down      Navigate device list".to_string(),
        "  ?            Toggle this help".to_string(),
        "  Esc          Close overlay / Cancel".to_string(),
        "".to_string(),
        "[?/Esc] Close".to_string(),
    ];
    assert(text::texts(lines@) =~= help_lines());
    lines
}

/// The lines of the help overlay are printable, and none is longer than the overlay is wide.
pub proof fn lemma_help_lines()
    ensures
        forall|i: int|
            0 <= i < help_lines().len() ==> printable(#[trigger] help_lines()[i])
                && help_lines()[i].len() <= HELP_COLUMNS,
        help_lines()[7].len() == HELP_COLUMNS,
        help_lines().len() == HELP_LINES,
{
    reveal_strlit("Keyboard Shortcuts");
    reveal_strlit("");
    reveal_strlit("  q / Ctrl+C   Quit");
    reveal_strlit("  s            Toggle scan");
    reveal_strlit("  Enter        Connect / Disconnect");
    reveal_strlit("  p            Pair device");
    reveal_strlit("  u            Unpair device");
    reveal_strlit("  t            Trust / Untrust device");
    reveal_strlit("  i            Device details");
    reveal_strlit("  a            Audio profiles");
    reveal_strlit("  o            Toggle adapter power");
    reveal_strlit("  Up/Down      Navigate device list");
    reveal_strlit("  ?            Toggle this help");
    reveal_strlit("  Esc          Close overlay / Cancel");
    reveal_strlit("[?/Esc] Close");
}

/// Build the help overlay.
fn help_popup_of(outer: Area) -> (popup: Popup)
    requires
        bounded(outer),
    ensures
        popup@ == help_popup(outer),
{
    let lines = help_lines_of();
    proof {
        lemma_help_lines();
    }
    let mut columns: usize = 0;
    let mut i: usize = 0;
    while i < lines.len()
        invariant
            i <= lines@.len(),
            text::texts(lines@) == help_lines(),
            forall|j: int|
                0 <= j < help_lines().len() ==> printable(#[trigger] help_lines()[j])
                    && help_lines()[j].len() <= HELP_COLUMNS,
            help_lines()[7].len() == HELP_COLUMNS,
            columns <= HELP_COLUMNS,
            i > 7 ==> columns == HELP_COLUMNS,
        decreases lines.len() - i,
    {
        assert(help_lines()[i as int] == lines@[i as int]@);
        let width: usize = width_of(lines[i].as_str());
        if width >= columns {
            columns = width;
        }
        i = i + 1;
    }
    let area = place(outer, columns, lines.len());
    Popup {
        title: " Help ".to_string(),
        lines: plain(lines),
        area,
        tone: Tone::Cyan,
        centered: false,
    }
}

/// The regions that the terminal is divided into, from top to bottom.
#[derive(Debug, Clone, Copy, PartialEq, Eq, Structural)]
pub struct Regions {
    /// The frame of the device list.
    pub list: Area,
    pub help_bar: Area,
    pub status_bar: Area,
}

/// The lines that the frame of the device list takes at least.
pub const LIST_LINES: u16 = 1;

/// The lines of each of the two bars.
pub const BAR_LINES: u16 = 1;

/// `lines` lines of `outer`, from its line `top` on.
pub open spec fn lines_of(outer: Area, top: int, lines: int) -> Area {
    Area { x: outer.x, y: (outer.y + top) as u16, width: outer.width, height: lines as u16 }
}

/// The lines that the list has: what the bars leave, and at least `list` of those that are there.
pub open spec fn list_lines(outer: Area, list: u16, help: u16, status: u16) -> int {
    let rest = outer.height - help - status;
    if list <= rest {
        rest
    } else if list <= outer.height {
        list as int
    } else {
        outer.height as int
    }
}

/// A division of `outer` into regions that fill it from top to bottom. The list has its lines; what
/// is left goes to the bars, of which neither has more lines than it takes.
pub open spec fn divided(outer: Area, list: u16, help: u16, status: u16, regions: Regions) -> bool {
    let top = list_lines(outer, list, help, status);
    let below = top + regions.help_bar.height;
    &&& regions.list == lines_of(outer, 0, top)
    &&& regions.help_bar == lines_of(outer, top, regions.help_bar.height as int)
    &&& regions.status_bar == lines_of(outer, below, outer.height - below)
    &&& regions.help_bar.height <= help
    &&& below + regions.status_bar.height == outer.height && regions.status_bar.height <= status
}

/// `ratatui::layout::Layout::split` for a vertical layout: at least `list` lines, and below them
/// `help` and `status` lines. All three are as wide as the area and lie within it, which the
/// solver requires of every solution, and no space is left between them or around them. A minimum
/// comes before a length, and a length before the growth of the first region: that one grows where
/// there is room for all, and keeps its minimum where there is not. How two lengths that do not both
/// fit share what is left is not said. The solver takes a minimum for an `i16`, hence the bound.
#[verifier::external_body]
fn split_regions(outer: Area, list: u16, help: u16, status: u16) -> (regions: Regions)
    requires
        bounded(outer),
        list <= i16::MAX,
    ensures
        divided(outer, list, help, status, regions),
{
    let area = Rect::new(outer.x, outer.y, outer.width, outer.height);
    let sizes = [Constraint::Min(list), Constraint::Length(help), Constraint::Length(status)];
    let parts = Layout::vertical(sizes).split(area);
    let (a, b, c) = (parts[0], parts[1], parts[2]);
    Regions {
        list: Area { x: a.x, y: a.y, width: a.width, height: a.height },
        help_bar: Area { x: b.x, y: b.y, width: b.width, height: b.height },
        status_bar: Area { x: c.x, y: c.y, width: c.width, height: c.height },
    }
}

/// Divide a terminal of this area: the device list, and below it the two bars.
pub fn regions_of(outer: Area) -> (regions: Regions)
    requires
        bounded(outer),
    ensures
        divided(outer, LIST_LINES, BAR_LINES, BAR_LINES, regions),
{
    split_regions(outer, LIST_LINES, BAR_LINES, BAR_LINES)
}

/// What the screen shows.
#[derive(Debug, Clone, PartialEq)]
pub struct Screen {
    /// Where the list and the bars stand.
    pub regions: Regions,
    /// What stands in the frame of the device list.
    pub body: Body,
    /// The popups over it; a later one covers an earlier one.
    pub popups: Vec<Popup>,
    /// The line below.
    pub help_bar: String,
    /// The last line.
    pub status_bar: String,
}

/// The model of a [`Screen`].
#[verifier::ext_equal]
pub struct ScreenView {
    pub regions: Regions,
    pub body: BodyView,
    pub popups: Seq<PopupView>,
    pub help_bar: Seq<char>,
    pub status_bar: Seq<char>,
}

/// The models of popups.
pub open spec fn popup_views(popups: Seq<Popup>) -> Seq<PopupView> {
    popups.map_values(|p: Popup| p@)
}

impl View for Screen {
    type V = ScreenView;

    open spec fn view(&self) -> ScreenView {
        ScreenView {
            regions: self.regions,
            body: self.body@,
            popups: popup_views(self.popups@),
            help_bar: self.help_bar@,
            status_bar: self.status_bar@,
        }
    }
}

/// The device whose details are shown.
pub open spec fn detailed_device(app: AppView) -> Option<DeviceView> {
    if app.show_detail {
        app.selected_device()
    } else {
        None
    }
}

/// The columns of the widest line of the profile menu.
pub open spec fn menu_width(menu: MenuView) -> nat {
    widest(contents(menu_lines(menu)))
}

/// The popups, from the confirmation dialog at the bottom to the help overlay on top.
pub open spec fn popups(app: AppView, outer: Area) -> Seq<PopupView> {
    let confirm = match app.pending_confirm {
        Some(confirm) => seq![confirm_popup(confirm, outer)],
        None => Seq::empty(),
    };
    let prompt = match app.agent_prompt {
        Some(prompt) => seq![prompt_popup(prompt, outer)],
        None => Seq::empty(),
    };
    let detail = match detailed_device(app) {
        Some(device) => seq![detail_popup(device, outer)],
        None => Seq::empty(),
    };
    let menu = match app.profile_menu {
        Some(menu) => seq![menu_popup(menu, menu_width(menu), outer)],
        None => Seq::empty(),
    };
    let help = if app.show_help {
        seq![help_popup(outer)]
    } else {
        Seq::empty()
    };
    confirm + prompt + detail + menu + help
}

/// The screen on a terminal of this area.
pub open spec fn drawn(app: AppView, outer: Area, regions: Regions) -> ScreenView {
    ScreenView {
        regions,
        body: body(app),
        popups: popups(app, outer),
        help_bar: " "@ + help_text(app),
        status_bar: status_text(app),
    }
}

/// The parts of the screen can be placed on a terminal of this area.
pub open spec fn drawable(app: AppView, outer: Area) -> bool {
    &&& bounded(outer)
    &&& app.pending_confirm matches Some(confirm) ==> low16(text::byte_len(confirm.message)) + 4
        <= u16::MAX
    &&& app.agent_prompt matches Some(prompt) ==> placeable(
        longest(prompt_lines(prompt)),
        prompt_lines(prompt).len(),
    )
    &&& detailed_device(app) matches Some(device) ==> placeable(
        longest(detail_lines(device)),
        detail_lines(device).len(),
    )
    &&& app.profile_menu matches Some(menu) ==> menu_placeable(menu, menu_width(menu))
}

/// The selected device, where its details are shown.
fn device_in_detail(app: &App) -> (device: Option<&DeviceInfo>)
    ensures
        match device {
            Some(d) => detailed_device(app@) == Some(d@),
            None => detailed_device(app@) is None,
        },
{
    if app.show_detail {
        app.selected_device()
    } else {
        None
    }
}

/// Lay out the screen on a terminal of this area.
pub fn draw(app: &App, outer: Area) -> (screen: Screen)
    requires
        drawable(app@, outer),
    ensures
        screen@ == drawn(app@, outer, screen.regions),
        divided(outer, LIST_LINES, BAR_LINES, BAR_LINES, screen.regions),
{
    draw_on(app, outer, regions_of(outer))
}

/// Lay out the screen on a terminal of this area, which is divided in this way.
pub fn draw_on(app: &App, outer: Area, regions: Regions) -> (screen: Screen)
    requires
        drawable(app@, outer),
    ensures
        screen@ == drawn(app@, outer, regions),
{
    let mut list: Vec<Popup> = Vec::new();
    match &app.pending_confirm {
        Some(confirm) => list.push(confirm_popup_of(confirm, outer)),
        None => {},
    }
    match &app.agent_prompt {
        Some(prompt) => list.push(prompt_popup_of(prompt, outer)),
        None => {},
    }
    match device_in_detail(app) {
        Some(device) => list.push(detail_popup_of(device, outer)),
        None => {},
    }
    match &app.profile_menu {
        Some(menu) => {
            let columns: usize = menu_columns(menu);
            list.push(menu_popup_with(menu, columns, outer));
        },
        None => {},
    }
    if app.show_help {
        list.push(help_popup_of(outer));
    }
    assert(popup_views(list@) =~= popups(app@, outer));
    let help_bar = " ".to_string().concat(help_bar_text(app).as_str());
    Screen { regions, body: body_of(app), popups: list, help_bar, status_bar: status_bar_text(app) }
}

/// Whether a popup with a content of this size can be placed.
fn can_place(columns: usize, lines: usize) -> (result: bool)
    ensures
        result == placeable(columns as nat, lines as nat),
{
    truncated(columns) <= 0xffff - 4 && truncated(lines) <= 0xffff - 2
}

/// Whether the parts of the screen can be placed on a terminal of this area.
pub fn can_draw(app: &App, outer: Area) -> (result: bool)
    ensures
        result == drawable(app@, outer),
{
    if outer.x > 0xffff - outer.width || outer.y > 0xffff - outer.height {
        return false;
    }
    match &app.pending_confirm {
        Some(confirm) => {
            if !can_place(text::bytes_in(confirm.message.as_str()), 0) {
                return false;
            }
        },
        None => {},
    }
    match &app.agent_prompt {
        Some(prompt) => {
            let message = prompt_message_of(prompt);
            let lines = split_lines(message.as_str());
            if !can_place(longest_of(&lines), lines.len()) {
                return false;
            }
        },
        None => {},
    }
    match device_in_detail(app) {
        Some(device) => {
            let lines = detail_lines_of(device);
            if !can_place(longest_of(&lines), lines.len()) {
                return false;
            }
        },
        None => {},
    }
    match &app.profile_menu {
        Some(menu) => {
            let title = " ".to_string().concat(menu.name.as_str()).concat(" - Audio Profiles ");
            let title_bytes: usize = text::bytes_in(title.as_str());
            let lines = menu_lines_of(menu);
            let columns: usize = widest_of(&lines);
            let content: usize = if columns >= title_bytes {
                columns
            } else {
                title_bytes
            };
            if !can_place(content, lines.len()) {
                return false;
            }
        },
        None => {},
    }
    true
}

/// Lay out the screen on a terminal of this area, where its parts can be placed there.
pub fn try_draw(app: &App, outer: Area) -> (screen: Option<Screen>)
    ensures
        match screen {
            Some(shown) => drawable(app@, outer) && shown@ == drawn(app@, outer, shown.regions)
                && divided(outer, LIST_LINES, BAR_LINES, BAR_LINES, shown.regions),
            None => !drawable(app@, outer),
        },
{
    if can_draw(app, outer) {
        Some(draw(app, outer))
    } else {
        None
    }
}

} // verus!

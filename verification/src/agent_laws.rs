//! What the pairing agent's questions come to, stated of the calls themselves: the prompt that opens,
//! what is shown of it, and the answer that is sent.
use tokio::sync::oneshot::Sender;
use vstd::prelude::*;

use crate::agent;
use crate::agent::{AgentPrompt, AgentReply, AgentRequest};
use crate::app::App;
use crate::keys::{KeyCode, KeyEvent};
use crate::number;
use crate::screen;
use crate::screen::{Area, Popup, Regions, Screen};
use crate::screen_laws;
use crate::session::{Command, Session};
use crate::states;
use crate::states::Part;
use crate::text;

verus! {

// ---------------------------------------------------------------------------------------------
// Requests
// ---------------------------------------------------------------------------------------------

/// The prompt asks what the request asks, of the same device, with nothing typed yet, and answers on
/// the same channel.
pub open spec fn fits(request: AgentRequest, prompt: AgentPrompt) -> bool {
    match (request, prompt) {
        (
            AgentRequest::RequestPinCode { device: d, reply: r },
            AgentPrompt::PinCode { device, input, reply },
        ) => d@ == device@ && input@.len() == 0 && r == reply,
        (
            AgentRequest::RequestPasskey { device: d, reply: r },
            AgentPrompt::Passkey { device, input, reply },
        ) => d@ == device@ && input@.len() == 0 && r == reply,
        (
            AgentRequest::DisplayPasskey { device: d, passkey: k },
            AgentPrompt::DisplayPasskey { device, passkey },
        ) => d@ == device@ && k == passkey,
        (
            AgentRequest::RequestConfirmation { device: d, passkey: k, reply: r },
            AgentPrompt::Confirmation { device, passkey, reply },
        ) => d@ == device@ && k == passkey && r == reply,
        (
            AgentRequest::AuthorizeService { device: d, uuid: u, reply: r },
            AgentPrompt::AuthorizeService { device, uuid, reply },
        ) => d@ == device@ && u@ == uuid@ && r == reply,
        _ => false,
    }
}

/// Every request but a cancellation has a prompt that fits it.
pub proof fn law_prompts_fit_requests(request: AgentRequest, prompt: Option<AgentPrompt>)
    requires
        call_ensures(AgentRequest::into_prompt, (request,), prompt),
    ensures
        request is Cancel ==> prompt is None,
        request !is Cancel ==> (prompt matches Some(p) && fits(request, p)),
{
}

/// A request opens the prompt that fits it, in the place of one that was open, and changes nothing
/// else.
pub proof fn law_requests_open_prompts(
    session: &mut Session,
    request: AgentRequest,
    command: Option<Command>,
)
    requires
        call_ensures(Session::on_agent_request, (session, request), command),
        request !is Cancel,
    ensures
        command is None,
        final(session).app.agent_prompt matches Some(prompt) && fits(request, prompt),
        states::differ_only_in(*old(session), *final(session), set![Part::Prompt]),
{
    states::lemma_parts(old(session).app, final(session).app);
    let prompt = final(session).app.agent_prompt->0;
    assert(final(session).app.agent_prompt is Some);
    assert(prompt@ == agent::prompt_for(request)->0);
}

/// The answer refuses what the prompt asks for, on its channel: no PIN, no passkey, or a no.
pub open spec fn refuses(prompt: AgentPrompt, command: Option<Command>) -> bool {
    match prompt {
        AgentPrompt::PinCode { reply, .. } => command matches Some(
            Command::Answer(AgentReply::PinCode { reply: r, answer }),
        ) && r == reply && answer is None,
        AgentPrompt::Passkey { reply, .. } => command matches Some(
            Command::Answer(AgentReply::Passkey { reply: r, answer }),
        ) && r == reply && answer is None,
        AgentPrompt::Confirmation { reply, .. } => command matches Some(
            Command::Answer(AgentReply::Decision { reply: r, answer }),
        ) && r == reply && !answer,
        AgentPrompt::AuthorizeService { reply, .. } => command matches Some(
            Command::Answer(AgentReply::Decision { reply: r, answer }),
        ) && r == reply && !answer,
        AgentPrompt::DisplayPasskey { .. } => command is None,
    }
}

/// A cancellation closes the prompt, refuses what it asked for, and says so.
pub proof fn law_cancellation(
    session: &mut Session,
    request: AgentRequest,
    command: Option<Command>,
)
    requires
        call_ensures(Session::on_agent_request, (session, request), command),
        request is Cancel,
    ensures
        final(session).app.agent_prompt is None,
        old(session).app.agent_prompt matches Some(prompt) ==> refuses(prompt, command),
        old(session).app.agent_prompt is None ==> command is None,
        final(session).app.status_message matches Some(message) && message@ == "Pairing cancelled"@,
        states::differ_only_in(*old(session), *final(session), set![Part::Prompt, Part::Status]),
{
    states::lemma_parts(old(session).app, final(session).app);
}

// ---------------------------------------------------------------------------------------------
// Answers
// ---------------------------------------------------------------------------------------------

/// Esc closes a prompt and refuses what it asked for.
pub proof fn law_escape_refuses(session: &mut Session, key: KeyEvent, command: Option<Command>)
    requires
        call_ensures(Session::on_key, (session, key), command),
        old(session).app.agent_prompt is Some,
        key.code == KeyCode::Esc,
    ensures
        refuses(old(session).app.agent_prompt->0, command),
        final(session).app.agent_prompt is None,
        states::differ_only_in(*old(session), *final(session), set![Part::Prompt]),
{
    states::lemma_parts(old(session).app, final(session).app);
}

/// At a question `y` says yes and `n` says no, on the channel of the prompt, and both close it; no
/// other key but Esc does anything.
pub proof fn law_questions(
    session: &mut Session,
    key: KeyEvent,
    command: Option<Command>,
    reply: Sender<bool>,
)
    requires
        call_ensures(Session::on_key, (session, key), command),
        match old(session).app.agent_prompt {
            Some(AgentPrompt::Confirmation { reply: r, .. }) => r == reply,
            Some(AgentPrompt::AuthorizeService { reply: r, .. }) => r == reply,
            _ => false,
        },
    ensures
        key.code == KeyCode::Char('y') ==> command == Some(
            Command::Answer(AgentReply::Decision { reply, answer: true }),
        ),
        key.code == KeyCode::Char('n') ==> command == Some(
            Command::Answer(AgentReply::Decision { reply, answer: false }),
        ),
        key.code == KeyCode::Char('y') || key.code == KeyCode::Char('n') ==> final(
            session
        ).app.agent_prompt is None && states::differ_only_in(
            *old(session),
            *final(session),
            set![Part::Prompt],
        ),
        key.code != KeyCode::Char('y') && key.code != KeyCode::Char('n') && key.code != KeyCode::Esc
            ==> command is None && states::same_session(*old(session), *final(session)),
{
    states::lemma_parts(old(session).app, final(session).app);
}

/// A passkey that is displayed stays until Esc or Enter closes it, which answers nothing.
pub proof fn law_displayed_passkey(session: &mut Session, key: KeyEvent, command: Option<Command>)
    requires
        call_ensures(Session::on_key, (session, key), command),
        old(session).app.agent_prompt matches Some(AgentPrompt::DisplayPasskey { .. }),
    ensures
        command is None,
        key.code == KeyCode::Esc || key.code == KeyCode::Enter ==> final(session).app.agent_prompt
            is None && states::differ_only_in(*old(session), *final(session), set![Part::Prompt]),
        key.code != KeyCode::Esc && key.code != KeyCode::Enter ==> states::same_session(
            *old(session),
            *final(session),
        ),
{
    states::lemma_parts(old(session).app, final(session).app);
}

/// What a prompt with a field has in it.
pub open spec fn field(prompt: AgentPrompt) -> Seq<char> {
    match prompt {
        AgentPrompt::PinCode { input, .. } => input@,
        AgentPrompt::Passkey { input, .. } => input@,
        _ => Seq::empty(),
    }
}

/// Two prompts agree in everything but what is in their field.
pub open spec fn same_but_field(a: AgentPrompt, b: AgentPrompt) -> bool {
    match (a, b) {
        (
            AgentPrompt::PinCode { device: d, reply: r, .. },
            AgentPrompt::PinCode { device, reply, .. },
        ) => d@ == device@ && r == reply,
        (
            AgentPrompt::Passkey { device: d, reply: r, .. },
            AgentPrompt::Passkey { device, reply, .. },
        ) => d@ == device@ && r == reply,
        _ => false,
    }
}

/// In a field a character is put behind what was typed, and Backspace takes the last one away; no
/// other key but Enter and Esc does anything.
pub proof fn law_typing(session: &mut Session, key: KeyEvent, command: Option<Command>)
    requires
        call_ensures(Session::on_key, (session, key), command),
        old(session).app.agent_prompt is Some,
        old(session).app.agent_prompt->0 is PinCode || old(session).app.agent_prompt->0 is Passkey,
        key.code != KeyCode::Enter && key.code != KeyCode::Esc,
    ensures
        command is None,
        ({
            let before = old(session).app.agent_prompt->0;
            &&& final(session).app.agent_prompt matches Some(after)
            &&& same_but_field(before, after)
            &&& field(after) == match key.code {
                KeyCode::Char(c) => field(before).push(c),
                KeyCode::Backspace => if field(before).len() > 0 {
                    field(before).drop_last()
                } else {
                    field(before)
                },
                _ => field(before),
            }
        }),
        states::differ_only_in(*old(session), *final(session), set![Part::Prompt]),
{
    states::lemma_parts(old(session).app, final(session).app);
}

/// Enter in the field for a PIN sends what was typed, or no PIN if nothing was, and closes the prompt.
pub proof fn law_pin_is_sent(session: &mut Session, key: KeyEvent, command: Option<Command>)
    requires
        call_ensures(Session::on_key, (session, key), command),
        old(session).app.agent_prompt matches Some(AgentPrompt::PinCode { .. }),
        key.code == KeyCode::Enter,
    ensures
        ({
            let prompt = old(session).app.agent_prompt->0;
            &&& command matches Some(Command::Answer(AgentReply::PinCode { reply, answer }))
            &&& reply == prompt->PinCode_reply
            &&& field(prompt).len() > 0 ==> (answer matches Some(pin) && pin@ == field(prompt))
            &&& field(prompt).len() == 0 ==> answer is None
        }),
        final(session).app.agent_prompt is None,
        states::differ_only_in(*old(session), *final(session), set![Part::Prompt]),
{
    states::lemma_parts(old(session).app, final(session).app);
}

/// The number that decimal digits stand for.
pub open spec fn reading(digits: Seq<char>) -> int
    decreases digits.len(),
{
    if digits.len() == 0 {
        0
    } else {
        10 * reading(digits.drop_last()) + (digits.last() as int - '0' as int)
    }
}

/// The text consists of decimal digits.
pub open spec fn are_digits(digits: Seq<char>) -> bool {
    forall|i: int| 0 <= i < digits.len() ==> '0' <= #[trigger] digits[i] <= '9'
}

/// Digits are read as the number they stand for.
proof fn lemma_reading(digits: Seq<char>)
    ensures
        reading(digits) == number::value_of(digits),
        are_digits(digits) == number::all_digits(digits),
    decreases digits.len(),
{
    if digits.len() > 0 {
        lemma_reading(digits.drop_last());
    }
    if are_digits(digits) {
        assert forall|i: int| 0 <= i < digits.len() implies number::is_digit(#[trigger] digits[i]) by {}
    }
    if number::all_digits(digits) {
        assert forall|i: int| 0 <= i < digits.len() implies '0' <= #[trigger] digits[i] <= '9' by {
            assert(number::is_digit(digits[i]));
        }
    }
}

/// `number` is what the digits of a text stand for, behind a plus sign if there is one; a text that
/// holds anything else, no digit, or more than 32 bits hold, is no number.
pub open spec fn is_number_in(number: Option<u32>, content: Seq<char>) -> bool {
    let digits = if content.len() > 0 && content[0] == '+' {
        content.drop_first()
    } else {
        content
    };
    if digits.len() > 0 && are_digits(digits) && reading(digits) <= u32::MAX {
        number matches Some(n) && n == reading(digits)
    } else {
        number is None
    }
}

/// What is read of a text is the number in it.
proof fn lemma_number_in(content: Seq<char>)
    ensures
        is_number_in(number::denoted(content), content),
{
    let digits = number::without_plus(content);
    lemma_reading(digits);
    if are_digits(digits) {
        number::lemma_value_grows(digits, 0);
    }
}

/// Enter in the field for a passkey sends the number that was typed, or no passkey if what was typed
/// is no number, and closes the prompt.
pub proof fn law_passkey_is_sent(session: &mut Session, key: KeyEvent, command: Option<Command>)
    requires
        call_ensures(Session::on_key, (session, key), command),
        old(session).app.agent_prompt matches Some(AgentPrompt::Passkey { .. }),
        key.code == KeyCode::Enter,
    ensures
        ({
            let prompt = old(session).app.agent_prompt->0;
            &&& command matches Some(Command::Answer(AgentReply::Passkey { reply, answer }))
            &&& reply == prompt->Passkey_reply
            &&& is_number_in(answer, field(prompt))
        }),
        final(session).app.agent_prompt is None,
        states::differ_only_in(*old(session), *final(session), set![Part::Prompt]),
{
    states::lemma_parts(old(session).app, final(session).app);
    lemma_number_in(field(old(session).app.agent_prompt->0));
}

/// A text is read as the number in it.
pub proof fn law_numbers(content: &str, number: Option<u32>)
    requires
        call_ensures(number::parse_u32, (content,), number),
    ensures
        is_number_in(number, content@),
{
    lemma_number_in(content@);
}

/// BlueZ gets the PIN, the passkey or the consent that came on the channel, and an error otherwise:
/// where none was given, where it was refused, and where nothing came.
pub proof fn law_answers_to_bluez(
    pin: Option<Option<String>>,
    pin_result: Result<String, String>,
    passkey: Option<Option<u32>>,
    passkey_result: Result<u32, String>,
    decision: Option<bool>,
    confirmed: Result<(), String>,
    authorized: Result<(), String>,
)
    requires
        call_ensures(agent::pin_code_result, (pin,), pin_result),
        call_ensures(agent::passkey_result, (passkey,), passkey_result),
        call_ensures(agent::confirmation_result, (decision,), confirmed),
        call_ensures(agent::authorization_result, (decision,), authorized),
    ensures
        pin matches Some(Some(given)) ==> (pin_result matches Ok(sent) && sent@ == given@),
        !(pin matches Some(Some(_))) ==> pin_result is Err,
        passkey matches Some(Some(given)) ==> (passkey_result matches Ok(sent) && sent == given),
        !(passkey matches Some(Some(_))) ==> passkey_result is Err,
        confirmed is Ok <==> decision == Some(true),
        authorized is Ok <==> decision == Some(true),
{
}

// ---------------------------------------------------------------------------------------------
// What is shown
// ---------------------------------------------------------------------------------------------

/// The popup has this text in the line `from_end` lines before the end of its content.
pub open spec fn has_line(popup: Popup, from_end: int, content: Seq<char>) -> bool {
    0 < from_end <= popup.lines@.len() && popup.lines@[popup.lines@.len() - from_end].content@
        == content
}

/// A text without a line feed, and without a carriage return at its end, is one line.
proof fn lemma_one_line(line: Seq<char>)
    requires
        line.len() > 0,
        forall|i: int| 0 <= i < line.len() ==> #[trigger] line[i] != '\n',
    ensures
        text::lines(line) == seq![line],
{
    let feed = seq!['\n'];
    assert forall|at: int| !text::occurs_at(line, feed, at) by {
        if text::occurs_at(line, feed, at) {
            assert(line.subrange(at, at + 1)[0] == line[at]);
        }
    }
}

/// A line before a line feed is a line of its own.
pub proof fn lemma_ended_line(line: Seq<char>)
    requires
        forall|i: int| 0 <= i < line.len() ==> #[trigger] line[i] != '\n',
        line.len() > 0 ==> line.last() != '\r',
    ensures
        text::lines(line.push('\n')) == seq![line],
{
    let feed = seq!['\n'];
    let ended = line.push('\n');
    let at = line.len() as int;
    assert(ended.subrange(at, at + 1) =~= feed);
    assert forall|other: int| 0 <= other < at implies !text::occurs_at(ended, feed, other) by {
        if text::occurs_at(ended, feed, other) {
            assert(ended.subrange(other, other + 1)[0] == line[other]);
        }
    }
    assert(text::first_at(ended, feed, at));
    text::lemma_split_at(ended, feed, at);
    assert(text::occurs_at(ended, feed, at));
    assert(ended.subrange(0, at) =~= line);
    assert(ended.subrange(at + 1, ended.len() as int) =~= Seq::empty());
    assert(text::lines(Seq::<char>::empty()) =~= Seq::empty());
    assert(text::lines(ended) =~= seq![line]);
}

/// The last two lines of a text that ends in them.
proof fn lemma_last_lines(head: Seq<char>, line: Seq<char>, tail: Seq<char>)
    requires
        head.len() > 0 ==> head.last() == '\n',
        line.len() > 0 && tail.len() > 0,
        forall|i: int| 0 <= i < line.len() ==> #[trigger] line[i] != '\n',
        line.last() != '\r',
        forall|i: int| 0 <= i < tail.len() ==> #[trigger] tail[i] != '\n',
    ensures
        text::lines(head + (line.push('\n') + tail)) == text::lines(head) + seq![line, tail],
{
    text::lemma_lines_joined(head, line.push('\n') + tail);
    text::lemma_lines_joined(line.push('\n'), tail);
    lemma_ended_line(line);
    lemma_one_line(tail);
    assert(seq![line] + seq![tail] =~= seq![line, tail]);
}

/// The lines of the popup of a prompt whose message ends in these two lines.
#[verifier::rlimit(40)]
proof fn lemma_prompt_lines(
    prompt: AgentPrompt,
    head: Seq<char>,
    line: Seq<char>,
    tail: Seq<char>,
    outer: Area,
    popup: Popup,
)
    requires
        popup@ == screen::prompt_popup(prompt@, outer),
        screen::prompt_message(prompt@) == head + (line.push('\n') + tail),
        head.len() > 0 ==> head.last() == '\n',
        line.len() > 0 && tail.len() > 0,
        forall|i: int| 0 <= i < line.len() ==> #[trigger] line[i] != '\n',
        line.last() != '\r',
        forall|i: int| 0 <= i < tail.len() ==> #[trigger] tail[i] != '\n',
    ensures
        has_line(popup, 2, line),
        has_line(popup, 1, tail),
{
    lemma_last_lines(head, line, tail);
    let lines = screen::prompt_lines(prompt@);
    let n = lines.len() as int;
    assert(lines[n - 2] == line);
    assert(lines[n - 1] == tail);
    assert(popup@.lines.len() == popup.lines@.len());
    assert(popup@.lines[n - 2] == popup.lines@[n - 2]@);
    assert(popup@.lines[n - 1] == popup.lines@[n - 1]@);
    assert(popup@.lines[n - 2].content == lines[n - 2]);
    assert(popup@.lines[n - 1].content == lines[n - 1]);
}

/// The popup of an open prompt is on the screen.
#[verifier::rlimit(40)]
proof fn lemma_prompt_popup(app: &App, outer: Area, regions: Regions, shown: Screen) -> (at: int)
    requires
        call_ensures(screen::draw_on, (app, outer, regions), shown),
        app.agent_prompt is Some,
    ensures
        0 <= at < shown.popups@.len(),
        shown.popups@[at]@ == screen::prompt_popup(app.agent_prompt->0@, outer),
{
    let at: int = if app.pending_confirm is Some {
        1
    } else {
        0
    };
    let popups = screen::popups(app@, outer);
    assert(popups[at] == screen::prompt_popup(app.agent_prompt->0@, outer));
    assert(shown@.popups == popups);
    assert(shown@.popups.len() == shown.popups@.len());
    assert(shown@.popups[at] == shown.popups@[at]@);
    at
}

/// Digits, at least six, that stand for this passkey.
pub open spec fn shows_passkey(digits: Seq<char>, passkey: u32) -> bool {
    are_digits(digits) && digits.len() >= 6 && reading(digits) == passkey
}

/// What the last line of the popup of a prompt tells the user to press.
pub open spec fn instruction(prompt: AgentPrompt) -> Seq<char> {
    match prompt {
        AgentPrompt::PinCode { .. } => "[Enter] Submit  [Esc] Cancel"@,
        AgentPrompt::Passkey { .. } => "[Enter] Submit  [Esc] Cancel"@,
        AgentPrompt::DisplayPasskey { .. } => "[Esc] Dismiss"@,
        AgentPrompt::Confirmation { .. } => "Confirm? (y/n)"@,
        AgentPrompt::AuthorizeService { .. } => "Authorize? (y/n)"@,
    }
}

/// What a prompt asks for, as a title.
pub open spec fn asked_in_title(prompt: AgentPrompt) -> Seq<char> {
    match prompt {
        AgentPrompt::PinCode { .. } => " PIN Entry "@,
        AgentPrompt::Passkey { .. } => " Passkey Entry "@,
        AgentPrompt::DisplayPasskey { .. } => " Passkey Display "@,
        AgentPrompt::Confirmation { .. } => " Confirm Passkey "@,
        AgentPrompt::AuthorizeService { .. } => " Authorize Service "@,
    }
}

/// The popup of a prompt says in its title what is asked.
#[verifier::rlimit(40)]
pub proof fn law_prompt_titles(app: &App, outer: Area, regions: Regions, shown: Screen)
    requires
        call_ensures(screen::draw_on, (app, outer, regions), shown),
        app.agent_prompt is Some,
    ensures
        exists|at: int|
            0 <= at < shown.popups@.len() && (#[trigger] shown.popups@[at]).title@ == asked_in_title(
                app.agent_prompt->0,
            ),
{
    let at = lemma_prompt_popup(app, outer, regions, shown);
    assert(shown.popups@[at]@.title == shown.popups@[at].title@);
}

/// The digits of a passkey, and the line that shows them.
proof fn lemma_passkey_line(passkey: u32)
    ensures
        shows_passkey(screen::passkey_text(passkey), passkey),
        ({
            let line = "Passkey: "@ + screen::passkey_text(passkey);
            &&& line.len() > 0 && line.last() != '\r'
            &&& forall|i: int| 0 <= i < line.len() ==> #[trigger] line[i] != '\n'
        }),
{
    reveal_strlit("Passkey: ");
    let digits = screen::passkey_text(passkey);
    screen_laws::law_passkeys_have_six_digits(passkey);
    lemma_reading(digits);
    let line = "Passkey: "@ + digits;
    assert forall|i: int| 0 <= i < line.len() implies #[trigger] line[i] != '\n' by {
        if i >= 9 {
            assert(line[i] == digits[i - 9]);
        }
    }
    assert(line.last() == digits[digits.len() - 1]);
}

/// What a prompt with a passkey shows ends in the line of the passkey and the instruction.
#[verifier::rlimit(40)]
proof fn lemma_passkey_message(prompt: AgentPrompt, passkey: u32) -> (head: Seq<char>)
    requires
        match prompt {
            AgentPrompt::DisplayPasskey { passkey: k, .. } => k == passkey,
            AgentPrompt::Confirmation { passkey: k, .. } => k == passkey,
            _ => false,
        },
    ensures
        head.len() > 0 && head.last() == '\n',
        screen::prompt_message(prompt@) == head + (("Passkey: "@ + screen::passkey_text(
            passkey,
        )).push('\n') + instruction(prompt)),
        instruction(prompt).len() > 0,
        forall|i: int| 0 <= i < instruction(prompt).len() ==> #[trigger] instruction(prompt)[i]
            != '\n',
{
    reveal_strlit("Passkey: ");
    reveal_strlit("\nPasskey: ");
    reveal_strlit("\n[Esc] Dismiss");
    reveal_strlit("\nConfirm? (y/n)");
    reveal_strlit("[Esc] Dismiss");
    reveal_strlit("Confirm? (y/n)");
    let device = match prompt {
        AgentPrompt::DisplayPasskey { device, .. } => device@,
        AgentPrompt::Confirmation { device, .. } => device@,
        _ => Seq::empty(),
    };
    let head = ("Device: "@ + device).push('\n');
    let line = "Passkey: "@ + screen::passkey_text(passkey);
    assert(screen::prompt_message(prompt@) =~= head + (line.push('\n') + instruction(prompt)));
    head
}

/// The passkey of a prompt is on the screen: the last line but one of a popup is "Passkey: " and the
/// digits of that number.
#[verifier::rlimit(40)]
pub proof fn law_passkeys_are_shown(
    app: &App,
    outer: Area,
    regions: Regions,
    shown: Screen,
    passkey: u32,
)
    requires
        call_ensures(screen::draw_on, (app, outer, regions), shown),
        match app.agent_prompt {
            Some(AgentPrompt::DisplayPasskey { passkey: k, .. }) => k == passkey,
            Some(AgentPrompt::Confirmation { passkey: k, .. }) => k == passkey,
            _ => false,
        },
    ensures
        exists|at: int, digits: Seq<char>|
            0 <= at < shown.popups@.len() && #[trigger] has_line(
                shown.popups@[at],
                2,
                "Passkey: "@ + digits,
            ) && shows_passkey(digits, passkey) && has_line(
                shown.popups@[at],
                1,
                instruction(app.agent_prompt->0),
            ),
{
    let at = lemma_prompt_popup(app, outer, regions, shown);
    let prompt = app.agent_prompt->0;
    let digits = screen::passkey_text(passkey);
    lemma_passkey_line(passkey);
    let head = lemma_passkey_message(prompt, passkey);
    lemma_prompt_lines(
        prompt,
        head,
        "Passkey: "@ + digits,
        instruction(prompt),
        outer,
        shown.popups@[at],
    );
    assert(has_line(shown.popups@[at], 2, "Passkey: "@ + digits));
}

/// A request to confirm or to display a passkey opens a prompt that holds it, and the screen that is
/// drawn then shows the digits of that very number.
#[verifier::rlimit(40)]
pub proof fn law_requested_passkeys_are_shown(
    session: &mut Session,
    request: AgentRequest,
    command: Option<Command>,
    app: &App,
    outer: Area,
    regions: Regions,
    shown: Screen,
    passkey: u32,
)
    requires
        call_ensures(Session::on_agent_request, (session, request), command),
        match request {
            AgentRequest::DisplayPasskey { passkey: k, .. } => k == passkey,
            AgentRequest::RequestConfirmation { passkey: k, .. } => k == passkey,
            _ => false,
        },
        *app == final(session).app,
        call_ensures(screen::draw_on, (app, outer, regions), shown),
    ensures
        match final(session).app.agent_prompt {
            Some(AgentPrompt::DisplayPasskey { passkey: k, .. }) => request is DisplayPasskey && k
                == passkey,
            Some(AgentPrompt::Confirmation { passkey: k, .. }) => request is RequestConfirmation && k
                == passkey,
            _ => false,
        },
        exists|at: int, digits: Seq<char>|
            0 <= at < shown.popups@.len() && #[trigger] has_line(
                shown.popups@[at],
                2,
                "Passkey: "@ + digits,
            ) && shows_passkey(digits, passkey),
{
    law_requests_open_prompts(session, request, command);
    law_passkeys_are_shown(app, outer, regions, shown, passkey);
}

/// What stands before the field of a prompt.
pub open spec fn field_label(prompt: AgentPrompt) -> Seq<char> {
    if prompt is PinCode {
        "PIN: "@
    } else {
        "Passkey: "@
    }
}

/// What is typed is on the screen: the last line but one of a popup is the name of the field, what
/// was typed, and the cursor.
#[verifier::rlimit(40)]
pub proof fn law_typed_text_is_shown(app: &App, outer: Area, regions: Regions, shown: Screen)
    requires
        call_ensures(screen::draw_on, (app, outer, regions), shown),
        app.agent_prompt is Some,
        app.agent_prompt->0 is PinCode || app.agent_prompt->0 is Passkey,
        forall|i: int|
            0 <= i < field(app.agent_prompt->0).len() ==> #[trigger] field(app.agent_prompt->0)[i]
                != '\n',
    ensures
        exists|at: int|
            0 <= at < shown.popups@.len() && #[trigger] has_line(
                shown.popups@[at],
                2,
                (field_label(app.agent_prompt->0) + field(app.agent_prompt->0)).push('_'),
            ) && has_line(shown.popups@[at], 1, instruction(app.agent_prompt->0)),
{
    let at = lemma_prompt_popup(app, outer, regions, shown);
    let prompt = app.agent_prompt->0;
    let input = field(prompt);
    reveal_strlit("Passkey: ");
    reveal_strlit("\nPasskey: ");
    reveal_strlit("PIN: ");
    reveal_strlit("\nPIN: ");
    reveal_strlit("_\n[Enter] Submit  [Esc] Cancel");
    reveal_strlit("[Enter] Submit  [Esc] Cancel");
    let device = match prompt {
        AgentPrompt::PinCode { device, .. } => device@,
        AgentPrompt::Passkey { device, .. } => device@,
        _ => Seq::empty(),
    };
    let label = field_label(prompt);
    let head = ("Device: "@ + device).push('\n');
    let line = (label + input).push('_');
    let tail = "[Enter] Submit  [Esc] Cancel"@;
    assert(screen::prompt_message(prompt@) =~= head + (line.push('\n') + tail));
    assert forall|i: int| 0 <= i < line.len() implies #[trigger] line[i] != '\n' by {
        if label.len() <= i < label.len() + input.len() {
            assert(line[i] == input[i - label.len()]);
        }
    }
    lemma_prompt_lines(prompt, head, line, tail, outer, shown.popups@[at]);
}

/// The service that wants to be authorized is on the screen, in the last line but one of a popup.
#[verifier::rlimit(40)]
pub proof fn law_service_is_shown(
    app: &App,
    outer: Area,
    regions: Regions,
    shown: Screen,
    uuid: Seq<char>,
)
    requires
        call_ensures(screen::draw_on, (app, outer, regions), shown),
        app.agent_prompt matches Some(AgentPrompt::AuthorizeService { uuid: u, .. }) && u@ == uuid,
        forall|i: int| 0 <= i < uuid.len() ==> #[trigger] uuid[i] != '\n' && uuid[i] != '\r',
    ensures
        exists|at: int|
            0 <= at < shown.popups@.len() && #[trigger] has_line(
                shown.popups@[at],
                2,
                "Service: "@ + uuid,
            ) && has_line(shown.popups@[at], 1, instruction(app.agent_prompt->0)),
{
    let at = lemma_prompt_popup(app, outer, regions, shown);
    let prompt = app.agent_prompt->0;
    reveal_strlit("Service: ");
    reveal_strlit("\nService: ");
    reveal_strlit("\nAuthorize? (y/n)");
    reveal_strlit("Authorize? (y/n)");
    let device = prompt->AuthorizeService_device@;
    let head = ("Device: "@ + device).push('\n');
    let line = "Service: "@ + uuid;
    let tail = "Authorize? (y/n)"@;
    assert(screen::prompt_message(prompt@) =~= head + (line.push('\n') + tail));
    assert forall|i: int| 0 <= i < line.len() implies #[trigger] line[i] != '\n' by {
        if i >= 9 {
            assert(line[i] == uuid[i - 9]);
        }
    }
    if uuid.len() > 0 {
        assert(line.last() == uuid[uuid.len() - 1]);
    }
    lemma_prompt_lines(prompt, head, line, tail, outer, shown.popups@[at]);
}

/// The device that a prompt is about is on the screen, in the first line of its popup.
#[verifier::rlimit(40)]
pub proof fn law_prompting_device_is_shown(
    app: &App,
    outer: Area,
    regions: Regions,
    shown: Screen,
    device: Seq<char>,
)
    requires
        call_ensures(screen::draw_on, (app, outer, regions), shown),
        match app.agent_prompt {
            Some(AgentPrompt::PinCode { device: d, .. }) => d@ == device,
            Some(AgentPrompt::Passkey { device: d, .. }) => d@ == device,
            Some(AgentPrompt::DisplayPasskey { device: d, .. }) => d@ == device,
            Some(AgentPrompt::Confirmation { device: d, .. }) => d@ == device,
            Some(AgentPrompt::AuthorizeService { device: d, .. }) => d@ == device,
            None => false,
        },
        forall|i: int| 0 <= i < device.len() ==> #[trigger] device[i] != '\n' && device[i] != '\r',
    ensures
        exists|at: int|
            0 <= at < shown.popups@.len() && shown.popups@[at].lines@.len() > 0 && (
            #[trigger] shown.popups@[at]).lines@[0].content@ == "Device: "@ + device,
{
    let at = lemma_prompt_popup(app, outer, regions, shown);
    let prompt = app.agent_prompt->0;
    let line = "Device: "@ + device;
    reveal_strlit("Device: ");
    reveal_strlit("\nPasskey: ");
    reveal_strlit("\nPIN: ");
    reveal_strlit("\nService: ");
    let message = screen::prompt_message(prompt@);
    let head = line.push('\n');
    let rest = message.subrange(head.len() as int, message.len() as int);
    assert(message =~= head + rest);
    assert forall|i: int| 0 <= i < line.len() implies #[trigger] line[i] != '\n' by {
        if i >= 8 {
            assert(line[i] == device[i - 8]);
        }
    }
    if device.len() > 0 {
        assert(line.last() == device[device.len() - 1]);
    }
    lemma_ended_line(line);
    text::lemma_lines_joined(head, rest);
    let lines = screen::prompt_lines(prompt@);
    assert(lines[0] == line);
    let popup = shown.popups@[at];
    assert(popup@.lines.len() == popup.lines@.len());
    assert(popup@.lines[0] == popup.lines@[0]@);
    assert(popup@.lines[0].content == lines[0]);
}

} // verus!

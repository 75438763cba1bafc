//! The pairing agent: what BlueZ asks, what the user sees of it, and what is answered.
use tokio::sync::oneshot::Sender;
use vstd::prelude::*;

use crate::keys::{Action, KeyCode};
use crate::number;
use crate::text;

verus! {

/// The sending half of a channel for one value.
#[verifier::external_type_specification]
#[verifier::external_body]
#[verifier::reject_recursive_types(T)]
pub struct ExSender<T>(tokio::sync::oneshot::Sender<T>);

/// A request from the BlueZ pairing agent to the TUI for user interaction.
pub enum AgentRequest {
    RequestPinCode { device: String, reply: Sender<Option<String>> },
    RequestPasskey { device: String, reply: Sender<Option<u32>> },
    DisplayPasskey { device: String, passkey: u32 },
    RequestConfirmation { device: String, passkey: u32, reply: Sender<bool> },
    AuthorizeService { device: String, uuid: String, reply: Sender<bool> },
    Cancel,
}

/// An active prompt from the BlueZ pairing agent.
pub enum AgentPrompt {
    PinCode { device: String, input: String, reply: Sender<Option<String>> },
    Passkey { device: String, input: String, reply: Sender<Option<u32>> },
    DisplayPasskey { device: String, passkey: u32 },
    Confirmation { device: String, passkey: u32, reply: Sender<bool> },
    AuthorizeService { device: String, uuid: String, reply: Sender<bool> },
}

/// The model of an [`AgentPrompt`].
#[verifier::ext_equal]
pub enum PromptView {
    PinCode { device: Seq<char>, input: Seq<char>, reply: Sender<Option<String>> },
    Passkey { device: Seq<char>, input: Seq<char>, reply: Sender<Option<u32>> },
    DisplayPasskey { device: Seq<char>, passkey: u32 },
    Confirmation { device: Seq<char>, passkey: u32, reply: Sender<bool> },
    AuthorizeService { device: Seq<char>, uuid: Seq<char>, reply: Sender<bool> },
}

impl View for AgentPrompt {
    type V = PromptView;

    open spec fn view(&self) -> PromptView {
        match *self {
            AgentPrompt::PinCode { device, input, reply } => PromptView::PinCode {
                device: device@,
                input: input@,
                reply,
            },
            AgentPrompt::Passkey { device, input, reply } => PromptView::Passkey {
                device: device@,
                input: input@,
                reply,
            },
            AgentPrompt::DisplayPasskey { device, passkey } => PromptView::DisplayPasskey {
                device: device@,
                passkey,
            },
            AgentPrompt::Confirmation { device, passkey, reply } => PromptView::Confirmation {
                device: device@,
                passkey,
                reply,
            },
            AgentPrompt::AuthorizeService { device, uuid, reply } => PromptView::AuthorizeService {
                device: device@,
                uuid: uuid@,
                reply,
            },
        }
    }
}

/// The model of a prompt that may be absent.
pub open spec fn opt_prompt(prompt: Option<AgentPrompt>) -> Option<PromptView> {
    match prompt {
        Some(prompt) => Some(prompt@),
        None => None,
    }
}

/// The prompt that a request opens, with nothing typed yet; a cancellation opens none.
pub open spec fn prompt_for(request: AgentRequest) -> Option<PromptView> {
    match request {
        AgentRequest::RequestPinCode { device, reply } => Some(
            PromptView::PinCode { device: device@, input: Seq::empty(), reply },
        ),
        AgentRequest::RequestPasskey { device, reply } => Some(
            PromptView::Passkey { device: device@, input: Seq::empty(), reply },
        ),
        AgentRequest::DisplayPasskey { device, passkey } => Some(
            PromptView::DisplayPasskey { device: device@, passkey },
        ),
        AgentRequest::RequestConfirmation { device, passkey, reply } => Some(
            PromptView::Confirmation { device: device@, passkey, reply },
        ),
        AgentRequest::AuthorizeService { device, uuid, reply } => Some(
            PromptView::AuthorizeService { device: device@, uuid: uuid@, reply },
        ),
        AgentRequest::Cancel => None,
    }
}

impl AgentRequest {
    /// The prompt that this request opens.
    pub fn into_prompt(self) -> (prompt: Option<AgentPrompt>)
        ensures
            opt_prompt(prompt) == prompt_for(self),
    {
        match self {
            AgentRequest::RequestPinCode { device, reply } => Some(
                AgentPrompt::PinCode { device, input: String::new(), reply },
            ),
            AgentRequest::RequestPasskey { device, reply } => Some(
                AgentPrompt::Passkey { device, input: String::new(), reply },
            ),
            AgentRequest::DisplayPasskey { device, passkey } => Some(
                AgentPrompt::DisplayPasskey { device, passkey },
            ),
            AgentRequest::RequestConfirmation { device, passkey, reply } => Some(
                AgentPrompt::Confirmation { device, passkey, reply },
            ),
            AgentRequest::AuthorizeService { device, uuid, reply } => Some(
                AgentPrompt::AuthorizeService { device, uuid, reply },
            ),
            AgentRequest::Cancel => None,
        }
    }
}

/// The text after a key press in an input field.
pub open spec fn typed(input: Seq<char>, code: KeyCode) -> Seq<char> {
    match code {
        KeyCode::Backspace => if input.len() > 0 {
            input.drop_last()
        } else {
            input
        },
        KeyCode::Char(c) => input.push(c),
        _ => input,
    }
}

/// What a key press asks for in an input field.
pub open spec fn field_action(code: KeyCode) -> Action {
    match code {
        KeyCode::Enter => Action::AgentSubmit,
        KeyCode::Esc => Action::AgentCancel,
        _ => Action::Nothing,
    }
}

/// What a key press asks for at a question.
pub open spec fn question_action(code: KeyCode) -> Action {
    match code {
        KeyCode::Char('y') => Action::AgentSubmit,
        KeyCode::Char('n') => Action::AgentCancel,
        KeyCode::Esc => Action::AgentCancel,
        _ => Action::Nothing,
    }
}

/// What a key press asks for at a notice.
pub open spec fn notice_action(code: KeyCode) -> Action {
    match code {
        KeyCode::Esc => Action::AgentCancel,
        KeyCode::Enter => Action::AgentCancel,
        _ => Action::Nothing,
    }
}

/// The prompt after a key press, and the action that the key press asks for.
pub open spec fn prompt_pressed(prompt: PromptView, code: KeyCode) -> (PromptView, Action) {
    match prompt {
        PromptView::PinCode { device, input, reply } => (
            PromptView::PinCode { device, input: typed(input, code), reply },
            field_action(code),
        ),
        PromptView::Passkey { device, input, reply } => (
            PromptView::Passkey { device, input: typed(input, code), reply },
            field_action(code),
        ),
        PromptView::DisplayPasskey { .. } => (prompt, notice_action(code)),
        PromptView::Confirmation { .. } => (prompt, question_action(code)),
        PromptView::AuthorizeService { .. } => (prompt, question_action(code)),
    }
}

/// Handle a key press in an input field.
fn press_in_field(input: &mut String, code: KeyCode) -> (action: Action)
    ensures
        final(input)@ == typed(old(input)@, code),
        action == field_action(code),
{
    match code {
        KeyCode::Enter => Action::AgentSubmit,
        KeyCode::Esc => Action::AgentCancel,
        KeyCode::Backspace => {
            input.pop();
            Action::Nothing
        },
        KeyCode::Char(c) => {
            input.push(c);
            Action::Nothing
        },
        _ => Action::Nothing,
    }
}

/// Handle a key press at a question.
fn press_at_question(code: KeyCode) -> (action: Action)
    ensures
        action == question_action(code),
{
    match code {
        KeyCode::Char('y') => Action::AgentSubmit,
        KeyCode::Char('n') => Action::AgentCancel,
        KeyCode::Esc => Action::AgentCancel,
        _ => Action::Nothing,
    }
}

impl AgentPrompt {
    /// Handle a key press while the prompt is active.
    pub fn handle_key(&mut self, code: KeyCode) -> (action: Action)
        ensures
            (final(self)@, action) == prompt_pressed(old(self)@, code),
    {
        match self {
            AgentPrompt::PinCode { input, .. } => press_in_field(input, code),
            AgentPrompt::Passkey { input, .. } => press_in_field(input, code),
            AgentPrompt::Confirmation { .. } => press_at_question(code),
            AgentPrompt::AuthorizeService { .. } => press_at_question(code),
            AgentPrompt::DisplayPasskey { .. } => match code {
                KeyCode::Esc => Action::AgentCancel,
                KeyCode::Enter => Action::AgentCancel,
                _ => Action::Nothing,
            },
        }
    }
}

/// An answer to the agent, and the channel on which it waits for it.
pub enum AgentReply {
    PinCode { reply: Sender<Option<String>>, answer: Option<String> },
    Passkey { reply: Sender<Option<u32>>, answer: Option<u32> },
    Decision { reply: Sender<bool>, answer: bool },
}

/// The model of an [`AgentReply`].
#[verifier::ext_equal]
pub enum ReplyView {
    PinCode { reply: Sender<Option<String>>, answer: Option<Seq<char>> },
    Passkey { reply: Sender<Option<u32>>, answer: Option<u32> },
    Decision { reply: Sender<bool>, answer: bool },
}

impl View for AgentReply {
    type V = ReplyView;

    open spec fn view(&self) -> ReplyView {
        match *self {
            AgentReply::PinCode { reply, answer } => ReplyView::PinCode {
                reply,
                answer: text::opt_text(answer),
            },
            AgentReply::Passkey { reply, answer } => ReplyView::Passkey { reply, answer },
            AgentReply::Decision { reply, answer } => ReplyView::Decision { reply, answer },
        }
    }
}

/// The model of a reply that may be absent.
pub open spec fn opt_reply(reply: Option<AgentReply>) -> Option<ReplyView> {
    match reply {
        Some(reply) => Some(reply@),
        None => None,
    }
}

/// The answer of a user who agrees: the PIN if there is one, the passkey if what was typed is a
/// number, or a yes. A notice has no answer.
pub open spec fn submitted(prompt: PromptView) -> Option<ReplyView> {
    match prompt {
        PromptView::PinCode { input, reply, .. } => Some(
            ReplyView::PinCode {
                reply,
                answer: if input.len() == 0 {
                    None
                } else {
                    Some(input)
                },
            },
        ),
        PromptView::Passkey { input, reply, .. } => Some(
            ReplyView::Passkey { reply, answer: number::denoted(input) },
        ),
        PromptView::DisplayPasskey { .. } => None,
        PromptView::Confirmation { reply, .. } => Some(ReplyView::Decision { reply, answer: true }),
        PromptView::AuthorizeService { reply, .. } => Some(
            ReplyView::Decision { reply, answer: true },
        ),
    }
}

/// The answer of a user who declines: no PIN, no passkey, or a no. A notice has no answer.
pub open spec fn cancelled(prompt: PromptView) -> Option<ReplyView> {
    match prompt {
        PromptView::PinCode { reply, .. } => Some(ReplyView::PinCode { reply, answer: None }),
        PromptView::Passkey { reply, .. } => Some(ReplyView::Passkey { reply, answer: None }),
        PromptView::DisplayPasskey { .. } => None,
        PromptView::Confirmation { reply, .. } => Some(ReplyView::Decision { reply, answer: false }),
        PromptView::AuthorizeService { reply, .. } => Some(
            ReplyView::Decision { reply, answer: false },
        ),
    }
}

impl AgentPrompt {
    /// The answer of a user who agrees.
    pub fn submit(self) -> (reply: Option<AgentReply>)
        ensures
            opt_reply(reply) == submitted(self@),
    {
        match self {
            AgentPrompt::PinCode { input, reply, .. } => {
                let answer = if input.as_str().unicode_len() == 0 {
                    None
                } else {
                    Some(input)
                };
                Some(AgentReply::PinCode { reply, answer })
            },
            AgentPrompt::Passkey { input, reply, .. } => Some(
                AgentReply::Passkey { reply, answer: number::parse_u32(input.as_str()) },
            ),
            AgentPrompt::DisplayPasskey { .. } => None,
            AgentPrompt::Confirmation { reply, .. } => Some(
                AgentReply::Decision { reply, answer: true },
            ),
            AgentPrompt::AuthorizeService { reply, .. } => Some(
                AgentReply::Decision { reply, answer: true },
            ),
        }
    }

    /// The answer of a user who declines, or of a pairing that was called off.
    pub fn cancel(self) -> (reply: Option<AgentReply>)
        ensures
            opt_reply(reply) == cancelled(self@),
    {
        match self {
            AgentPrompt::PinCode { reply, .. } => Some(AgentReply::PinCode { reply, answer: None }),
            AgentPrompt::Passkey { reply, .. } => Some(AgentReply::Passkey { reply, answer: None }),
            AgentPrompt::DisplayPasskey { .. } => None,
            AgentPrompt::Confirmation { reply, .. } => Some(
                AgentReply::Decision { reply, answer: false },
            ),
            AgentPrompt::AuthorizeService { reply, .. } => Some(
                AgentReply::Decision { reply, answer: false },
            ),
        }
    }
}

/// What BlueZ is told of a PIN: `received` is what came on the reply channel, if anything did.
pub fn pin_code_result(received: Option<Option<String>>) -> (result: Result<String, String>)
    ensures
        match received {
            Some(Some(pin)) => result == Ok::<String, String>(pin),
            _ => result matches Err(m) && m@ == "PIN entry cancelled"@,
        },
{
    match received {
        Some(Some(pin)) => Ok(pin),
        _ => Err("PIN entry cancelled".to_string()),
    }
}

/// What BlueZ is told of a passkey.
pub fn passkey_result(received: Option<Option<u32>>) -> (result: Result<u32, String>)
    ensures
        match received {
            Some(Some(passkey)) => result == Ok::<u32, String>(passkey),
            _ => result matches Err(m) && m@ == "Passkey entry cancelled"@,
        },
{
    match received {
        Some(Some(passkey)) => Ok(passkey),
        _ => Err("Passkey entry cancelled".to_string()),
    }
}

/// What BlueZ is told of a decision: a refusal, or no decision at all, is an error with `refusal`.
fn decision_result(received: Option<bool>, refusal: &str) -> (result: Result<(), String>)
    ensures
        match received {
            Some(true) => result is Ok,
            _ => result matches Err(m) && m@ == refusal@,
        },
{
    match received {
        Some(true) => Ok(()),
        _ => Err(refusal.to_string()),
    }
}

/// What BlueZ is told of a passkey that was to be confirmed.
pub fn confirmation_result(received: Option<bool>) -> (result: Result<(), String>)
    ensures
        match received {
            Some(true) => result is Ok,
            _ => result matches Err(m) && m@ == "Confirmation rejected"@,
        },
{
    decision_result(received, "Confirmation rejected")
}

/// What BlueZ is told of a service that was to be authorized.
pub fn authorization_result(received: Option<bool>) -> (result: Result<(), String>)
    ensures
        match received {
            Some(true) => result is Ok,
            _ => result matches Err(m) && m@ == "Service not authorized"@,
        },
{
    decision_result(received, "Service not authorized")
}

} // verus!

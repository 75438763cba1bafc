//! A running session: which work each event asks for, and what the outcome of that work does.
//!
//! The event loop hands events in and performs the commands that come back. Commands that take long
//! end in a [`DeviceOpResult`], which comes in as an event of its own.
use vstd::prelude::*;

use crate::agent;
use crate::agent::{AgentReply, AgentRequest, ReplyView};
use crate::app;
use crate::app::{App, AppView, ConfirmType, ConfirmView, MenuView, PendingConfirm, ProfileMenu};
use crate::audio;
use crate::audio::{AudioProfile, ProfileView};
use crate::bluetooth;
use crate::bluetooth::{AdapterInfo, AdapterView, DeviceInfo, DeviceView};
use crate::keys::{Action, KeyEvent};

verus! {

/// Result of an async device operation.
pub enum DeviceOpResult {
    Connected { address: String, name: String },
    Disconnected { address: String, name: String },
    Paired { address: String, name: String },
    Unpaired { address: String, name: String },
    Trusted { address: String, name: String },
    Untrusted { address: String, name: String },
    ProfilesLoaded { address: String, name: String, profiles: Vec<AudioProfile> },
    ProfileSwitched { name: String, profile: String },
    AdapterFound { adapter: AdapterInfo },
    AdapterPoweredOn,
    AdapterPoweredOff,
    Error { message: String },
}

/// Work that runs beside the event loop and either succeeds or fails with a message.
pub enum Task {
    Connect { address: String, name: String },
    Disconnect { address: String, name: String },
    Pair { address: String, name: String },
    Trust { address: String, name: String },
    Untrust { address: String, name: String },
    Unpair { address: String, name: String },
    SwitchProfile { address: String, name: String, profile: String, description: String },
    PowerOn,
    PowerOff,
}

/// The model of a [`Task`].
#[verifier::ext_equal]
pub enum TaskView {
    Connect { address: Seq<char>, name: Seq<char> },
    Disconnect { address: Seq<char>, name: Seq<char> },
    Pair { address: Seq<char>, name: Seq<char> },
    Trust { address: Seq<char>, name: Seq<char> },
    Untrust { address: Seq<char>, name: Seq<char> },
    Unpair { address: Seq<char>, name: Seq<char> },
    SwitchProfile {
        address: Seq<char>,
        name: Seq<char>,
        profile: Seq<char>,
        description: Seq<char>,
    },
    PowerOn,
    PowerOff,
}

impl View for Task {
    type V = TaskView;

    open spec fn view(&self) -> TaskView {
        match *self {
            Task::Connect { address, name } => TaskView::Connect { address: address@, name: name@ },
            Task::Disconnect { address, name } => TaskView::Disconnect {
                address: address@,
                name: name@,
            },
            Task::Pair { address, name } => TaskView::Pair { address: address@, name: name@ },
            Task::Trust { address, name } => TaskView::Trust { address: address@, name: name@ },
            Task::Untrust { address, name } => TaskView::Untrust { address: address@, name: name@ },
            Task::Unpair { address, name } => TaskView::Unpair { address: address@, name: name@ },
            Task::SwitchProfile { address, name, profile, description } => TaskView::SwitchProfile {
                address: address@,
                name: name@,
                profile: profile@,
                description: description@,
            },
            Task::PowerOn => TaskView::PowerOn,
            Task::PowerOff => TaskView::PowerOff,
        }
    }
}

/// What a task that succeeded results in.
pub open spec fn success_of(task: Task) -> DeviceOpResult {
    match task {
        Task::Connect { address, name } => DeviceOpResult::Connected { address, name },
        Task::Disconnect { address, name } => DeviceOpResult::Disconnected { address, name },
        Task::Pair { address, name } => DeviceOpResult::Paired { address, name },
        Task::Trust { address, name } => DeviceOpResult::Trusted { address, name },
        Task::Untrust { address, name } => DeviceOpResult::Untrusted { address, name },
        Task::Unpair { address, name } => DeviceOpResult::Unpaired { address, name },
        Task::SwitchProfile { name, description, .. } => DeviceOpResult::ProfileSwitched {
            name,
            profile: description,
        },
        Task::PowerOn => DeviceOpResult::AdapterPoweredOn,
        Task::PowerOff => DeviceOpResult::AdapterPoweredOff,
    }
}

/// What stands before the message of a task that failed.
pub open spec fn failure_prefix(task: TaskView) -> Seq<char> {
    match task {
        TaskView::Connect { .. } => "Connection failed: "@,
        TaskView::Disconnect { .. } => "Disconnect failed: "@,
        TaskView::Pair { .. } => "Pairing failed: "@,
        TaskView::Trust { .. } => "Trust failed: "@,
        TaskView::Untrust { .. } => "Untrust failed: "@,
        TaskView::Unpair { .. } => "Unpair failed: "@,
        TaskView::SwitchProfile { .. } => Seq::empty(),
        TaskView::PowerOn => "Power on failed: "@,
        TaskView::PowerOff => "Power off failed: "@,
    }
}

impl Task {
    /// What the outcome of the work, or the message of its error, results in.
    pub fn finish(self, outcome: Result<(), String>) -> (result: DeviceOpResult)
        ensures
            match outcome {
                Ok(()) => result == success_of(self),
                Err(error) => result matches DeviceOpResult::Error { message } && message@
                    == failure_prefix(self@) + error@,
            },
    {
        match outcome {
            Ok(()) => match self {
                Task::Connect { address, name } => DeviceOpResult::Connected { address, name },
                Task::Disconnect { address, name } => DeviceOpResult::Disconnected { address, name },
                Task::Pair { address, name } => DeviceOpResult::Paired { address, name },
                Task::Trust { address, name } => DeviceOpResult::Trusted { address, name },
                Task::Untrust { address, name } => DeviceOpResult::Untrusted { address, name },
                Task::Unpair { address, name } => DeviceOpResult::Unpaired { address, name },
                Task::SwitchProfile { name, description, .. } => DeviceOpResult::ProfileSwitched {
                    name,
                    profile: description,
                },
                Task::PowerOn => DeviceOpResult::AdapterPoweredOn,
                Task::PowerOff => DeviceOpResult::AdapterPoweredOff,
            },
            Err(error) => {
                let prefix = match self {
                    Task::Connect { .. } => "Connection failed: ".to_string(),
                    Task::Disconnect { .. } => "Disconnect failed: ".to_string(),
                    Task::Pair { .. } => "Pairing failed: ".to_string(),
                    Task::Trust { .. } => "Trust failed: ".to_string(),
                    Task::Untrust { .. } => "Untrust failed: ".to_string(),
                    Task::Unpair { .. } => "Unpair failed: ".to_string(),
                    Task::SwitchProfile { .. } => String::new(),
                    Task::PowerOn => "Power on failed: ".to_string(),
                    Task::PowerOff => "Power off failed: ".to_string(),
                };
                DeviceOpResult::Error { message: prefix.concat(error.as_str()) }
            },
        }
    }
}

/// What loading the profiles of a device results in.
pub fn profiles_result(
    address: String,
    name: String,
    outcome: Result<Vec<AudioProfile>, String>,
) -> (result: DeviceOpResult)
    ensures
        result == match outcome {
            Ok(profiles) => DeviceOpResult::ProfilesLoaded { address, name, profiles },
            Err(message) => DeviceOpResult::Error { message },
        },
{
    match outcome {
        Ok(profiles) => DeviceOpResult::ProfilesLoaded { address, name, profiles },
        Err(message) => DeviceOpResult::Error { message },
    }
}

/// What looking for an adapter results in, if anything.
pub fn probe_result(answer: Result<Option<AdapterInfo>, zbus::Error>) -> (result: Option<
    DeviceOpResult,
>)
    ensures
        result == match answer {
            Ok(Some(adapter)) => Some(DeviceOpResult::AdapterFound { adapter }),
            _ => None,
        },
{
    match answer {
        Ok(Some(adapter)) => Some(DeviceOpResult::AdapterFound { adapter }),
        _ => None,
    }
}

/// Why the known devices are fetched again.
#[derive(Debug, Clone, Copy, PartialEq, Eq, Structural)]
pub enum Refresh {
    AdapterFound,
    AdapterPoweredOn,
}

/// What the event loop is asked to do.
pub enum Command {
    /// Start discovery, and report through [`Session::on_scan_started`].
    StartDiscovery,
    /// Stop discovery, and report through [`Session::on_scan_stopped`].
    StopDiscovery,
    /// Run a task; its outcome comes back as a [`DeviceOpResult`].
    Run(Task),
    /// Load the audio profiles of a device; they come back as a [`DeviceOpResult`].
    LoadProfiles { address: String, name: String },
    /// Send an answer to the pairing agent.
    Answer(AgentReply),
    /// Fetch the known devices, and report through [`Session::on_devices`].
    FetchDevices(Refresh),
    /// Register the pairing agent, and report through [`Session::on_agent_registered`].
    RegisterAgent,
}

/// The model of a [`Command`].
#[verifier::ext_equal]
pub enum CommandView {
    StartDiscovery,
    StopDiscovery,
    Run(TaskView),
    LoadProfiles { address: Seq<char>, name: Seq<char> },
    Answer(ReplyView),
    FetchDevices(Refresh),
    RegisterAgent,
}

impl View for Command {
    type V = CommandView;

    open spec fn view(&self) -> CommandView {
        match *self {
            Command::StartDiscovery => CommandView::StartDiscovery,
            Command::StopDiscovery => CommandView::StopDiscovery,
            Command::Run(task) => CommandView::Run(task@),
            Command::LoadProfiles { address, name } => CommandView::LoadProfiles {
                address: address@,
                name: name@,
            },
            Command::Answer(reply) => CommandView::Answer(reply@),
            Command::FetchDevices(refresh) => CommandView::FetchDevices(refresh),
            Command::RegisterAgent => CommandView::RegisterAgent,
        }
    }
}

/// The model of a command that may be absent.
pub open spec fn opt_command(command: Option<Command>) -> Option<CommandView> {
    match command {
        Some(command) => Some(command@),
        None => None,
    }
}

/// The state with a message in the status bar.
pub open spec fn noting(app: AppView, message: Seq<char>) -> AppView {
    AppView { status_message: Some(message), ..app }
}

/// The dialog that asks whether to unpair a device.
pub open spec fn unpair_dialog(device: DeviceView) -> ConfirmView {
    ConfirmView {
        message: "Unpair device "@ + device.display_name() + "? y/n"@,
        address: device.address,
        name: device.display_name(),
        confirm_type: ConfirmType::Unpair,
    }
}

/// The dialog that asks whether to withdraw the trust in a device.
pub open spec fn untrust_dialog(device: DeviceView) -> ConfirmView {
    ConfirmView {
        message: "Untrust device "@ + device.display_name() + "? y/n"@,
        address: device.address,
        name: device.display_name(),
        confirm_type: ConfirmType::Untrust,
    }
}

/// What an action on the selected device does: the state after it, and the work it asks for.
pub open spec fn performed_on(app: AppView, device: DeviceView, action: Action) -> (
    AppView,
    Option<CommandView>,
) {
    let address = device.address;
    let name = device.display_name();
    match action {
        Action::ConnectToggle => if !device.paired {
            (noting(app, "Device not paired"@), None)
        } else if device.connected {
            (app, Some(CommandView::Run(TaskView::Disconnect { address, name })))
        } else {
            (app, Some(CommandView::Run(TaskView::Connect { address, name })))
        },
        Action::Pair => if device.paired {
            (noting(app, "Device already paired"@), None)
        } else {
            (app, Some(CommandView::Run(TaskView::Pair { address, name })))
        },
        Action::RequestUnpair => if !device.paired {
            (noting(app, "Device not paired"@), None)
        } else {
            (AppView { pending_confirm: Some(unpair_dialog(device)), ..app }, None)
        },
        Action::TrustToggle => if !device.paired {
            (noting(app, "Device not paired"@), None)
        } else if device.trusted {
            (AppView { pending_confirm: Some(untrust_dialog(device)), ..app }, None)
        } else {
            (app, Some(CommandView::Run(TaskView::Trust { address, name })))
        },
        Action::ToggleDetail => (AppView { show_detail: true, ..app }, None),
        Action::OpenProfiles => if !device.connected {
            (noting(app, "Device not connected"@), None)
        } else if !device.has_audio_profiles() {
            (noting(app, "No audio profiles available"@), None)
        } else {
            (app, Some(CommandView::LoadProfiles { address, name }))
        },
        _ => (app, None),
    }
}

/// The actions that concern the selected device.
pub open spec fn concerns_device(action: Action) -> bool {
    match action {
        Action::ConnectToggle => true,
        Action::Pair => true,
        Action::RequestUnpair => true,
        Action::TrustToggle => true,
        Action::ToggleDetail => true,
        Action::OpenProfiles => true,
        _ => false,
    }
}

/// The work that the profile menu asks for: to switch to the selected profile, where there is one.
pub open spec fn profile_choice(menu: MenuView) -> Option<CommandView> {
    if menu.selected < menu.profiles.len() {
        let profile = menu.profiles[menu.selected as int];
        Some(
            CommandView::Run(
                TaskView::SwitchProfile {
                    address: menu.address,
                    name: menu.name,
                    profile: profile.name,
                    description: profile.description,
                },
            ),
        )
    } else {
        None
    }
}

/// The command that sends a reply.
pub open spec fn answering(reply: Option<ReplyView>) -> Option<CommandView> {
    match reply {
        Some(reply) => Some(CommandView::Answer(reply)),
        None => None,
    }
}

/// What an action does: the state after it, and the work it asks for.
pub open spec fn performed(app: AppView, action: Action) -> (AppView, Option<CommandView>) {
    if concerns_device(action) {
        match app.selected_device() {
            Some(device) => performed_on(app, device, action),
            None => (app, None),
        }
    } else {
        match action {
            Action::ToggleScan => (
                app,
                Some(
                    if app.scanning {
                        CommandView::StopDiscovery
                    } else {
                        CommandView::StartDiscovery
                    },
                ),
            ),
            Action::ConfirmUnpair => match app.pending_confirm {
                Some(confirm) => (
                    AppView { pending_confirm: None, ..app },
                    Some(
                        CommandView::Run(
                            TaskView::Unpair { address: confirm.address, name: confirm.name },
                        ),
                    ),
                ),
                None => (app, None),
            },
            Action::ConfirmUntrust => match app.pending_confirm {
                Some(confirm) => (
                    AppView { pending_confirm: None, ..app },
                    Some(
                        CommandView::Run(
                            TaskView::Untrust { address: confirm.address, name: confirm.name },
                        ),
                    ),
                ),
                None => (app, None),
            },
            Action::CancelConfirm => (AppView { pending_confirm: None, ..app }, None),
            Action::AgentSubmit => match app.agent_prompt {
                Some(prompt) => (
                    AppView { agent_prompt: None, ..app },
                    answering(agent::submitted(prompt)),
                ),
                None => (app, None),
            },
            Action::AgentCancel => match app.agent_prompt {
                Some(prompt) => (
                    AppView { agent_prompt: None, ..app },
                    answering(agent::cancelled(prompt)),
                ),
                None => (app, None),
            },
            Action::CloseDetail => (AppView { show_detail: false, ..app }, None),
            Action::SelectProfile => match app.profile_menu {
                Some(menu) => (AppView { profile_menu: None, ..app }, profile_choice(menu)),
                None => (app, None),
            },
            Action::CloseProfiles => (AppView { profile_menu: None, ..app }, None),
            Action::ToggleHelp => (AppView { show_help: true, ..app }, None),
            Action::CloseHelp => (AppView { show_help: false, ..app }, None),
            Action::PowerOn => (app, Some(CommandView::Run(TaskView::PowerOn))),
            Action::PowerOff => (app, Some(CommandView::Run(TaskView::PowerOff))),
            _ => (app, None),
        }
    }
}

/// The question that a dialog asks.
fn question(verb: &str, name: &str) -> (message: String)
    ensures
        message@ == verb@ + name@ + "? y/n"@,
{
    verb.to_string().concat(name).concat("? y/n")
}

/// What an action on the selected device comes to, before it is carried out.
enum Verdict {
    Note(String),
    Ask(PendingConfirm),
    ShowDetail,
    Do(Command),
    Skip,
}

/// The state after a verdict, and the work it asks for.
spec fn carried_out(app: AppView, verdict: Verdict) -> (AppView, Option<CommandView>) {
    match verdict {
        Verdict::Note(message) => (noting(app, message@), None),
        Verdict::Ask(confirm) => (AppView { pending_confirm: Some(confirm@), ..app }, None),
        Verdict::ShowDetail => (AppView { show_detail: true, ..app }, None),
        Verdict::Do(command) => (app, Some(command@)),
        Verdict::Skip => (app, None),
    }
}

/// Decide what an action on a device comes to.
fn judge(device: &DeviceInfo, action: Action) -> (verdict: Verdict)
    ensures
        forall|app: AppView| #[trigger]
            carried_out(app, verdict) == performed_on(app, device@, action),
{
    let address = device.address.clone();
    let name = device.display_name().to_string();
    match action {
        Action::ConnectToggle => if !device.paired {
            Verdict::Note("Device not paired".to_string())
        } else if device.connected {
            Verdict::Do(Command::Run(Task::Disconnect { address, name }))
        } else {
            Verdict::Do(Command::Run(Task::Connect { address, name }))
        },
        Action::Pair => if device.paired {
            Verdict::Note("Device already paired".to_string())
        } else {
            Verdict::Do(Command::Run(Task::Pair { address, name }))
        },
        Action::RequestUnpair => if !device.paired {
            Verdict::Note("Device not paired".to_string())
        } else {
            let message = question("Unpair device ", name.as_str());
            Verdict::Ask(
                PendingConfirm { message, address, name, confirm_type: ConfirmType::Unpair },
            )
        },
        Action::TrustToggle => if !device.paired {
            Verdict::Note("Device not paired".to_string())
        } else if device.trusted {
            let message = question("Untrust device ", name.as_str());
            Verdict::Ask(
                PendingConfirm { message, address, name, confirm_type: ConfirmType::Untrust },
            )
        } else {
            Verdict::Do(Command::Run(Task::Trust { address, name }))
        },
        Action::ToggleDetail => Verdict::ShowDetail,
        Action::OpenProfiles => if !device.connected {
            Verdict::Note("Device not connected".to_string())
        } else if !device.has_audio_profiles() {
            Verdict::Note("No audio profiles available".to_string())
        } else {
            Verdict::Do(Command::LoadProfiles { address, name })
        },
        _ => Verdict::Skip,
    }
}

/// The command that switches to the selected profile of a menu.
fn choose_profile(menu: ProfileMenu) -> (command: Option<Command>)
    ensures
        opt_command(command) == profile_choice(menu@),
{
    if menu.selected < menu.profiles.len() {
        let profile = &menu.profiles[menu.selected];
        assert(menu@.profiles[menu.selected as int] == profile@);
        let profile_name = profile.name.clone();
        let description = profile.description.clone();
        Some(
            Command::Run(
                Task::SwitchProfile {
                    address: menu.address,
                    name: menu.name,
                    profile: profile_name,
                    description,
                },
            ),
        )
    } else {
        None
    }
}

/// The command that sends a reply.
fn answer(reply: Option<AgentReply>) -> (command: Option<Command>)
    ensures
        opt_command(command) == answering(agent::opt_reply(reply)),
{
    match reply {
        Some(reply) => Some(Command::Answer(reply)),
        None => None,
    }
}

impl App {
    /// Carry out an action on the selected device.
    fn perform_on_selected(&mut self, action: Action) -> (command: Option<Command>)
        requires
            concerns_device(action),
        ensures
            (final(self)@, opt_command(command)) == performed(old(self)@, action),
    {
        let verdict = match self.selected_device() {
            Some(device) => judge(device, action),
            None => Verdict::Skip,
        };
        proof {
            if self@.selected_device() is Some {
                assert(carried_out(self@, verdict) == performed(self@, action));
            }
        }
        match verdict {
            Verdict::Note(message) => {
                self.status_message = Some(message);
                None
            },
            Verdict::Ask(confirm) => {
                self.pending_confirm = Some(confirm);
                None
            },
            Verdict::ShowDetail => {
                self.show_detail = true;
                None
            },
            Verdict::Do(command) => Some(command),
            Verdict::Skip => None,
        }
    }

    /// Carry out an action; the work that it asks for is returned.
    pub fn perform(&mut self, action: Action) -> (command: Option<Command>)
        ensures
            (final(self)@, opt_command(command)) == performed(old(self)@, action),
    {
        match action {
            Action::ToggleScan => if self.scanning {
                Some(Command::StopDiscovery)
            } else {
                Some(Command::StartDiscovery)
            },
            Action::ConfirmUnpair => match self.pending_confirm.take() {
                Some(confirm) => Some(
                    Command::Run(Task::Unpair { address: confirm.address, name: confirm.name }),
                ),
                None => None,
            },
            Action::ConfirmUntrust => match self.pending_confirm.take() {
                Some(confirm) => Some(
                    Command::Run(Task::Untrust { address: confirm.address, name: confirm.name }),
                ),
                None => None,
            },
            Action::CancelConfirm => {
                self.pending_confirm = None;
                None
            },
            Action::AgentSubmit => match self.agent_prompt.take() {
                Some(prompt) => answer(prompt.submit()),
                None => None,
            },
            Action::AgentCancel => match self.agent_prompt.take() {
                Some(prompt) => answer(prompt.cancel()),
                None => None,
            },
            Action::CloseDetail => {
                self.show_detail = false;
                None
            },
            Action::SelectProfile => match self.profile_menu.take() {
                Some(menu) => choose_profile(menu),
                None => None,
            },
            Action::CloseProfiles => {
                self.profile_menu = None;
                None
            },
            Action::ToggleHelp => {
                self.show_help = true;
                None
            },
            Action::CloseHelp => {
                self.show_help = false;
                None
            },
            Action::PowerOn => Some(Command::Run(Task::PowerOn)),
            Action::PowerOff => Some(Command::Run(Task::PowerOff)),
            Action::Nothing => None,
            action => self.perform_on_selected(action),
        }
    }
}

/// The number of ticks between two searches for an adapter.
pub const TICKS_PER_PROBE: u32 = 20;

/// The state of a running session.
pub struct Session {
    pub app: App,
    /// Ticks without an adapter since the last search for one.
    pub adapter_retry_counter: u32,
    /// The pairing agent is registered with BlueZ.
    pub agent_registered: bool,
}

/// The model of a [`Session`].
#[verifier::ext_equal]
pub struct SessionView {
    pub app: AppView,
    pub adapter_retry_counter: u32,
    pub agent_registered: bool,
}

impl View for Session {
    type V = SessionView;

    open spec fn view(&self) -> SessionView {
        SessionView {
            app: self.app@,
            adapter_retry_counter: self.adapter_retry_counter,
            agent_registered: self.agent_registered,
        }
    }
}

/// `at` is the first active profile.
pub open spec fn first_active(profiles: Seq<ProfileView>, at: int) -> bool {
    &&& 0 <= at < profiles.len()
    &&& profiles[at].active
    &&& forall|i: int| 0 <= i < at ==> !(#[trigger] profiles[i]).active
}

/// The profile that a menu opens with: the first active one, or the first of all.
pub open spec fn initial_choice(profiles: Seq<ProfileView>) -> usize {
    if exists|at: int| first_active(profiles, at) {
        (choose|at: int| first_active(profiles, at)) as usize
    } else {
        0
    }
}

/// The profile that a menu opens with.
fn initial_profile(profiles: &Vec<AudioProfile>) -> (selected: usize)
    ensures
        selected == initial_choice(audio::profile_views(profiles@)),
{
    let ghost views = audio::profile_views(profiles@);
    let mut at: usize = 0;
    while at < profiles.len()
        invariant
            at <= profiles@.len(),
            views == audio::profile_views(profiles@),
            forall|i: int| 0 <= i < at ==> !(#[trigger] views[i]).active,
        decreases profiles.len() - at,
    {
        assert(views[at as int] == profiles@[at as int]@);
        if profiles[at].active {
            proof {
                assert(first_active(views, at as int));
                let chosen = choose|at: int| first_active(views, at);
                assert(first_active(views, chosen));
                assert(!(chosen < at) && !(at < chosen));
            }
            return at;
        }
        at = at + 1;
    }
    0
}

/// The adapter with its power switched.
pub open spec fn with_power(adapter: Option<AdapterView>, powered: bool) -> Option<AdapterView> {
    match adapter {
        Some(adapter) => Some(AdapterView { powered, ..adapter }),
        None => None,
    }
}

/// What the result of an operation does to the state, and the work it asks for.
pub open spec fn resulted(app: AppView, result: DeviceOpResult) -> (AppView, Option<CommandView>) {
    match result {
        DeviceOpResult::Connected { address, name } => (
            noting(app.with_connected(address@, true), "Connected to "@ + name@),
            None,
        ),
        DeviceOpResult::Disconnected { address, name } => (
            noting(app.with_connected(address@, false), "Disconnected from "@ + name@),
            None,
        ),
        DeviceOpResult::Paired { address, name } => (
            noting(app.with_paired(address@), "Paired with "@ + name@),
            None,
        ),
        DeviceOpResult::Unpaired { address, name } => (
            noting(app.without_known(address@), "Unpaired "@ + name@),
            None,
        ),
        DeviceOpResult::Trusted { address, name } => (
            noting(app.with_trusted(address@, true), "Trusted "@ + name@),
            None,
        ),
        DeviceOpResult::Untrusted { address, name } => (
            noting(app.with_trusted(address@, false), "Untrusted "@ + name@),
            None,
        ),
        DeviceOpResult::ProfilesLoaded { address, name, profiles } => {
            let profiles = audio::profile_views(profiles@);
            (
                AppView {
                    profile_menu: Some(
                        MenuView {
                            profiles,
                            selected: initial_choice(profiles),
                            address: address@,
                            name: name@,
                        },
                    ),
                    ..app
                },
                None,
            )
        },
        DeviceOpResult::ProfileSwitched { name, profile } => (
            noting(app, "Switched "@ + name@ + " to "@ + profile@),
            None,
        ),
        DeviceOpResult::AdapterFound { adapter } => (
            AppView { adapter: Some(adapter@), ..app },
            Some(CommandView::FetchDevices(Refresh::AdapterFound)),
        ),
        DeviceOpResult::AdapterPoweredOn => (
            AppView { adapter: with_power(app.adapter, true), ..app },
            Some(CommandView::FetchDevices(Refresh::AdapterPoweredOn)),
        ),
        DeviceOpResult::AdapterPoweredOff => (
            noting(
                AppView {
                    adapter: with_power(app.adapter, false),
                    scanning: false,
                    devices: Seq::empty(),
                    discovered_devices: Seq::empty(),
                    list_state: app::with_selection(app.list_state, None),
                    ..app
                },
                "Adapter powered off"@,
            ),
            None,
        ),
        DeviceOpResult::Error { message } => (noting(app, message@), None),
    }
}

/// The state with known devices that were fetched anew; the first is selected if nothing was.
pub open spec fn refreshed(app: AppView, devices: Seq<DeviceView>) -> AppView {
    AppView {
        devices,
        list_state: if devices.len() > 0 && app.list_state.selected is None {
            app::with_selection(app.list_state, Some(0))
        } else {
            app.list_state
        },
        ..app
    }
}

/// What known devices that were fetched, or could not be, do to the session, and the work that is
/// left: a new adapter needs the pairing agent.
pub open spec fn fetched(
    session: SessionView,
    refresh: Refresh,
    devices: Option<Seq<DeviceView>>,
) -> (SessionView, Option<CommandView>) {
    let app = match devices {
        Some(devices) => refreshed(session.app, devices),
        None => session.app,
    };
    match refresh {
        Refresh::AdapterFound => if session.agent_registered {
            (SessionView { app: noting(app, "Adapter found"@), ..session }, None)
        } else {
            (SessionView { app, ..session }, Some(CommandView::RegisterAgent))
        },
        Refresh::AdapterPoweredOn => (
            SessionView { app: noting(app, "Adapter powered on"@), ..session },
            None,
        ),
    }
}

/// What a request of the pairing agent does: it opens its prompt in the place of another one, or it
/// calls the open prompt off.
pub open spec fn requested(app: AppView, request: AgentRequest) -> (AppView, Option<CommandView>) {
    match agent::prompt_for(request) {
        Some(prompt) => (AppView { agent_prompt: Some(prompt), ..app }, None),
        None => (
            noting(AppView { agent_prompt: None, ..app }, "Pairing cancelled"@),
            match app.agent_prompt {
                Some(prompt) => answering(agent::cancelled(prompt)),
                None => None,
            },
        ),
    }
}

/// The counter after a tick, and whether an adapter is to be searched for: every so many ticks
/// without an adapter.
pub open spec fn ticked(session: SessionView) -> (SessionView, bool) {
    if session.app.adapter is Some {
        (session, false)
    } else if session.adapter_retry_counter + 1 >= TICKS_PER_PROBE {
        (SessionView { adapter_retry_counter: 0, ..session }, true)
    } else {
        (
            SessionView {
                adapter_retry_counter: (session.adapter_retry_counter + 1) as u32,
                ..session
            },
            false,
        )
    }
}

/// What the event loop does after an event.
#[derive(Debug, Clone, Copy, PartialEq, Eq, Structural)]
pub enum Exit {
    Stay,
    Leave,
    StopDiscoveryAndLeave,
}

/// What the event loop does after an event: it leaves once the user has quit, and stops a discovery
/// that still runs.
pub open spec fn leaving(app: AppView) -> Exit {
    if app.running {
        Exit::Stay
    } else if app.scanning {
        Exit::StopDiscoveryAndLeave
    } else {
        Exit::Leave
    }
}

impl App {
    /// Put a message in the status bar.
    fn note(&mut self, message: String)
        ensures
            final(self)@ == noting(old(self)@, message@),
    {
        self.status_message = Some(message);
    }

    /// Switch the power of the adapter, where there is one.
    fn set_power(&mut self, powered: bool)
        ensures
            final(self)@ == (AppView { adapter: with_power(old(self)@.adapter, powered), ..old(self)@ }),
    {
        match &mut self.adapter {
            Some(adapter) => {
                adapter.powered = powered;
            },
            None => {},
        }
    }

    /// Take in the result of an operation; the work that it asks for is returned.
    pub fn take_result(&mut self, result: DeviceOpResult) -> (command: Option<Command>)
        requires
            result is Unpaired ==> old(self)@.countable(),
        ensures
            (final(self)@, opt_command(command)) == resulted(old(self)@, result),
    {
        match result {
            DeviceOpResult::Connected { address, name } => {
                self.update_device_connected(address.as_str(), true);
                self.note("Connected to ".to_string().concat(name.as_str()));
                None
            },
            DeviceOpResult::Disconnected { address, name } => {
                self.update_device_connected(address.as_str(), false);
                self.note("Disconnected from ".to_string().concat(name.as_str()));
                None
            },
            DeviceOpResult::Paired { address, name } => {
                self.update_device_paired(address.as_str());
                self.note("Paired with ".to_string().concat(name.as_str()));
                None
            },
            DeviceOpResult::Unpaired { address, name } => {
                self.remove_known_device(address.as_str());
                self.note("Unpaired ".to_string().concat(name.as_str()));
                None
            },
            DeviceOpResult::Trusted { address, name } => {
                self.update_device_trusted(address.as_str(), true);
                self.note("Trusted ".to_string().concat(name.as_str()));
                None
            },
            DeviceOpResult::Untrusted { address, name } => {
                self.update_device_trusted(address.as_str(), false);
                self.note("Untrusted ".to_string().concat(name.as_str()));
                None
            },
            DeviceOpResult::ProfilesLoaded { address, name, profiles } => {
                let selected: usize = initial_profile(&profiles);
                self.profile_menu = Some(ProfileMenu { profiles, selected, address, name });
                None
            },
            DeviceOpResult::ProfileSwitched { name, profile } => {
                self.note(
                    "Switched ".to_string().concat(name.as_str()).concat(" to ").concat(
                        profile.as_str(),
                    ),
                );
                None
            },
            DeviceOpResult::AdapterFound { adapter } => {
                self.adapter = Some(adapter);
                Some(Command::FetchDevices(Refresh::AdapterFound))
            },
            DeviceOpResult::AdapterPoweredOn => {
                self.set_power(true);
                Some(Command::FetchDevices(Refresh::AdapterPoweredOn))
            },
            DeviceOpResult::AdapterPoweredOff => {
                self.set_power(false);
                self.scanning = false;
                self.devices.clear();
                self.discovered_devices.clear();
                self.list_state.select(None);
                self.note("Adapter powered off".to_string());
                assert(self@.devices =~= Seq::empty());
                assert(self@.discovered_devices =~= Seq::empty());
                None
            },
            DeviceOpResult::Error { message } => {
                self.note(message);
                None
            },
        }
    }

    /// Take in known devices that were fetched anew.
    fn refresh_devices(&mut self, devices: Vec<DeviceInfo>)
        ensures
            final(self)@ == refreshed(old(self)@, bluetooth::device_views(devices@)),
    {
        self.devices = devices;
        if self.devices.len() > 0 && self.list_state.selected().is_none() {
            self.list_state.select(Some(0));
        }
    }

    /// Take in a request of the pairing agent; the answer that it calls for is returned.
    pub fn take_request(&mut self, request: AgentRequest) -> (command: Option<Command>)
        ensures
            (final(self)@, opt_command(command)) == requested(old(self)@, request),
    {
        match request.into_prompt() {
            Some(prompt) => {
                self.agent_prompt = Some(prompt);
                None
            },
            None => {
                let command = match self.agent_prompt.take() {
                    Some(prompt) => answer(prompt.cancel()),
                    None => None,
                };
                self.note("Pairing cancelled".to_string());
                command
            },
        }
    }
}

impl Session {
    /// The session at the start.
    pub fn new(
        adapter: Option<AdapterInfo>,
        devices: Vec<DeviceInfo>,
        agent_registered: bool,
    ) -> (session: Session)
        ensures
            session@ == (SessionView {
                app: app::started(
                    bluetooth::opt_adapter(adapter),
                    bluetooth::device_views(devices@),
                ),
                adapter_retry_counter: 0,
                agent_registered,
            }),
    {
        Session { app: App::new(adapter, devices), adapter_retry_counter: 0, agent_registered }
    }

    /// A key was pressed.
    pub fn on_key(&mut self, key: KeyEvent) -> (command: Option<Command>)
        requires
            app::can_press(old(self)@.app, key),
        ensures
            ({
                let (app, action) = app::pressed(old(self)@.app, key);
                let (app, asked) = performed(app, action);
                final(self)@ == SessionView { app, ..old(self)@ } && opt_command(command) == asked
            }),
    {
        let action = self.app.handle_key(key);
        self.app.perform(action)
    }

    /// Discovery was started, or could not be.
    pub fn on_scan_started(&mut self, started: bool)
        ensures
            final(self)@ == (SessionView {
                app: AppView { scanning: old(self)@.app.scanning || started, ..old(self)@.app },
                ..old(self)@
            }),
    {
        if started {
            self.app.scanning = true;
        }
    }

    /// Discovery was stopped: its findings leave the list.
    pub fn on_scan_stopped(&mut self)
        ensures
            final(self)@ == (SessionView {
                app: AppView { scanning: false, ..old(self)@.app }.without_discovered(),
                ..old(self)@
            }),
    {
        self.app.scanning = false;
        self.app.clear_discovered_devices();
    }

    /// An operation came to a result.
    pub fn on_result(&mut self, result: DeviceOpResult) -> (command: Option<Command>)
        requires
            result is Unpaired ==> old(self)@.app.countable(),
        ensures
            ({
                let (app, asked) = resulted(old(self)@.app, result);
                final(self)@ == SessionView { app, ..old(self)@ } && opt_command(command) == asked
            }),
    {
        self.app.take_result(result)
    }

    /// The known devices were fetched, or could not be.
    pub fn on_devices(&mut self, refresh: Refresh, devices: Option<Vec<DeviceInfo>>) -> (command:
        Option<Command>)
        ensures
            (final(self)@, opt_command(command)) == fetched(
                old(self)@,
                refresh,
                match devices {
                    Some(devices) => Some(bluetooth::device_views(devices@)),
                    None => None,
                },
            ),
    {
        match devices {
            Some(devices) => self.app.refresh_devices(devices),
            None => {},
        }
        match refresh {
            Refresh::AdapterFound => if self.agent_registered {
                self.app.note("Adapter found".to_string());
                None
            } else {
                Some(Command::RegisterAgent)
            },
            Refresh::AdapterPoweredOn => {
                self.app.note("Adapter powered on".to_string());
                None
            },
        }
    }

    /// The pairing agent was registered for a new adapter, or could not be.
    pub fn on_agent_registered(&mut self, registered: bool)
        ensures
            final(self)@ == (SessionView {
                app: noting(old(self)@.app, "Adapter found"@),
                agent_registered: old(self)@.agent_registered || registered,
                ..old(self)@
            }),
    {
        if registered {
            self.agent_registered = true;
        }
        self.app.note("Adapter found".to_string());
    }

    /// A device was discovered.
    pub fn on_device(&mut self, device: DeviceInfo)
        ensures
            final(self)@ == (SessionView {
                app: old(self)@.app.discovering(device@),
                ..old(self)@
            }),
    {
        self.app.add_discovered_device(device);
    }

    /// The pairing agent asks for something.
    pub fn on_agent_request(&mut self, request: AgentRequest) -> (command: Option<Command>)
        ensures
            ({
                let (app, asked) = requested(old(self)@.app, request);
                final(self)@ == SessionView { app, ..old(self)@ } && opt_command(command) == asked
            }),
    {
        self.app.take_request(request)
    }

    /// A tick of the clock. Returns whether an adapter is to be searched for.
    pub fn on_tick(&mut self) -> (probe: bool)
        requires
            old(self)@.app.adapter is None ==> old(self).adapter_retry_counter < u32::MAX,
        ensures
            (final(self)@, probe) == ticked(old(self)@),
    {
        if self.app.adapter.is_some() {
            return false;
        }
        self.adapter_retry_counter = self.adapter_retry_counter + 1;
        if self.adapter_retry_counter >= TICKS_PER_PROBE {
            self.adapter_retry_counter = 0;
            true
        } else {
            false
        }
    }

    /// What the event loop does after an event.
    pub fn exit(&self) -> (exit: Exit)
        ensures
            exit == leaving(self@.app),
    {
        if self.app.running {
            Exit::Stay
        } else if self.app.scanning {
            Exit::StopDiscoveryAndLeave
        } else {
            Exit::Leave
        }
    }
}

} // verus!

//! The state of the interface, and what keys and device updates do to it.
use vstd::prelude::*;

use crate::agent;
use crate::agent::{AgentPrompt, PromptView};
use crate::audio;
use crate::audio::{AudioProfile, ProfileView};
use crate::bluetooth;
use crate::bluetooth::{AdapterInfo, AdapterView, DeviceInfo, DeviceView};
use crate::keys;
use crate::keys::{Action, KeyCode, KeyEvent};
use crate::text;

verus! {

/// What a list shows: the first item in view, and the selected item.
#[derive(Debug, Clone, Copy, PartialEq, Eq, Structural)]
pub struct ListState {
    pub offset: usize,
    pub selected: Option<usize>,
}

/// The state after a selection; without one the list goes back to its beginning.
pub open spec fn with_selection(state: ListState, index: Option<usize>) -> ListState {
    ListState {
        offset: if index is None {
            0
        } else {
            state.offset
        },
        selected: index,
    }
}

impl ListState {
    /// The state of a list at its beginning with nothing selected.
    pub fn new() -> (state: ListState)
        ensures
            state == (ListState { offset: 0, selected: None }),
    {
        ListState { offset: 0, selected: None }
    }

    /// The index of the selected item.
    pub fn selected(&self) -> (index: Option<usize>)
        ensures
            index == self.selected,
    {
        self.selected
    }

    /// Select an item, or none.
    pub fn select(&mut self, index: Option<usize>)
        ensures
            *final(self) == with_selection(*old(self), index),
    {
        self.selected = index;
        if index.is_none() {
            self.offset = 0;
        }
    }
}

/// A profile selection menu for audio devices.
pub struct ProfileMenu {
    pub profiles: Vec<AudioProfile>,
    pub selected: usize,
    pub address: String,
    pub name: String,
}

/// The model of a [`ProfileMenu`].
#[verifier::ext_equal]
pub struct MenuView {
    pub profiles: Seq<ProfileView>,
    pub selected: usize,
    pub address: Seq<char>,
    pub name: Seq<char>,
}

impl View for ProfileMenu {
    type V = MenuView;

    open spec fn view(&self) -> MenuView {
        MenuView {
            profiles: audio::profile_views(self.profiles@),
            selected: self.selected,
            address: self.address@,
            name: self.name@,
        }
    }
}

/// The model of a menu that may be absent.
pub open spec fn opt_menu(menu: Option<ProfileMenu>) -> Option<MenuView> {
    match menu {
        Some(menu) => Some(menu@),
        None => None,
    }
}

/// The type of pending confirmation.
#[derive(Debug, Clone, Copy, PartialEq, Eq, Structural)]
pub enum ConfirmType {
    Unpair,
    Untrust,
}

/// A pending confirmation dialog.
#[derive(Debug, Clone, PartialEq)]
pub struct PendingConfirm {
    pub message: String,
    pub address: String,
    pub name: String,
    pub confirm_type: ConfirmType,
}

/// The model of a [`PendingConfirm`].
#[verifier::ext_equal]
pub struct ConfirmView {
    pub message: Seq<char>,
    pub address: Seq<char>,
    pub name: Seq<char>,
    pub confirm_type: ConfirmType,
}

impl View for PendingConfirm {
    type V = ConfirmView;

    open spec fn view(&self) -> ConfirmView {
        ConfirmView {
            message: self.message@,
            address: self.address@,
            name: self.name@,
            confirm_type: self.confirm_type,
        }
    }
}

/// The model of a confirmation that may be absent.
pub open spec fn opt_confirm(confirm: Option<PendingConfirm>) -> Option<ConfirmView> {
    match confirm {
        Some(confirm) => Some(confirm@),
        None => None,
    }
}

/// Application state for the TUI.
pub struct App {
    pub adapter: Option<AdapterInfo>,
    pub devices: Vec<DeviceInfo>,
    pub discovered_devices: Vec<DeviceInfo>,
    pub list_state: ListState,
    pub running: bool,
    pub scanning: bool,
    pub status_message: Option<String>,
    pub pending_confirm: Option<PendingConfirm>,
    pub agent_prompt: Option<AgentPrompt>,
    pub show_detail: bool,
    pub profile_menu: Option<ProfileMenu>,
    pub show_help: bool,
}

/// The model of an [`App`].
#[verifier::ext_equal]
pub struct AppView {
    pub adapter: Option<AdapterView>,
    pub devices: Seq<DeviceView>,
    pub discovered_devices: Seq<DeviceView>,
    pub list_state: ListState,
    pub running: bool,
    pub scanning: bool,
    pub status_message: Option<Seq<char>>,
    pub pending_confirm: Option<ConfirmView>,
    pub agent_prompt: Option<PromptView>,
    pub show_detail: bool,
    pub profile_menu: Option<MenuView>,
    pub show_help: bool,
}

impl View for App {
    type V = AppView;

    open spec fn view(&self) -> AppView {
        AppView {
            adapter: bluetooth::opt_adapter(self.adapter),
            devices: bluetooth::device_views(self.devices@),
            discovered_devices: bluetooth::device_views(self.discovered_devices@),
            list_state: self.list_state,
            running: self.running,
            scanning: self.scanning,
            status_message: text::opt_text(self.status_message),
            pending_confirm: opt_confirm(self.pending_confirm),
            agent_prompt: agent::opt_prompt(self.agent_prompt),
            show_detail: self.show_detail,
            profile_menu: opt_menu(self.profile_menu),
            show_help: self.show_help,
        }
    }
}

impl AppView {
    /// The devices in the order of the list: the known ones, then the discovered ones.
    pub open spec fn all_devices(self) -> Seq<DeviceView> {
        self.devices + self.discovered_devices
    }

    /// The number of devices in the list.
    pub open spec fn total(self) -> nat {
        self.devices.len() + self.discovered_devices.len()
    }

    /// The number of devices can be counted by the machine.
    pub open spec fn countable(self) -> bool {
        self.total() <= usize::MAX
    }

    /// The selected device, if any.
    pub open spec fn selected_device(self) -> Option<DeviceView> {
        match self.list_state.selected {
            Some(index) => if index < self.total() {
                Some(self.all_devices()[index as int])
            } else {
                None
            },
            None => None,
        }
    }

    /// The selection moved to `index`.
    pub open spec fn selecting(self, index: Option<usize>) -> AppView {
        AppView { list_state: with_selection(self.list_state, index), ..self }
    }

    /// The selection moved to the next device, from the last one to the first.
    pub open spec fn select_next(self) -> AppView {
        if self.total() == 0 {
            self
        } else {
            self.selecting(
                Some(
                    match self.list_state.selected {
                        Some(index) => if index >= self.total() - 1 {
                            0
                        } else {
                            (index + 1) as usize
                        },
                        None => 0,
                    },
                ),
            )
        }
    }

    /// The selection moved to the previous device, from the first one to the last.
    pub open spec fn select_previous(self) -> AppView {
        if self.total() == 0 {
            self
        } else {
            self.selecting(
                Some(
                    match self.list_state.selected {
                        Some(index) => if index == 0 {
                            (self.total() - 1) as usize
                        } else {
                            (index - 1) as usize
                        },
                        None => (self.total() - 1) as usize,
                    },
                ),
            )
        }
    }
}

/// The menu after a key press, and the action that the key press asks for.
pub open spec fn menu_pressed(menu: MenuView, code: KeyCode) -> (MenuView, Action) {
    match code {
        KeyCode::Up => (
            MenuView {
                selected: if menu.selected > 0 {
                    (menu.selected - 1) as usize
                } else if menu.profiles.len() > 0 {
                    (menu.profiles.len() - 1) as usize
                } else {
                    0
                },
                ..menu
            },
            Action::Nothing,
        ),
        KeyCode::Down => (
            MenuView {
                selected: if menu.selected + 1 < menu.profiles.len() {
                    (menu.selected + 1) as usize
                } else {
                    0
                },
                ..menu
            },
            Action::Nothing,
        ),
        KeyCode::Enter => (menu, Action::SelectProfile),
        KeyCode::Esc => (menu, Action::CloseProfiles),
        _ => (menu, Action::Nothing),
    }
}

/// What a key press asks for at a confirmation dialog.
pub open spec fn confirm_pressed(confirm_type: ConfirmType, code: KeyCode) -> Action {
    match code {
        KeyCode::Char('y') => match confirm_type {
            ConfirmType::Unpair => Action::ConfirmUnpair,
            ConfirmType::Untrust => Action::ConfirmUntrust,
        },
        KeyCode::Char('n') => Action::CancelConfirm,
        KeyCode::Esc => Action::CancelConfirm,
        _ => Action::Nothing,
    }
}

/// What a key press asks for in the detail view.
pub open spec fn detail_pressed(code: KeyCode) -> Action {
    match code {
        KeyCode::Char('i') => Action::CloseDetail,
        KeyCode::Esc => Action::CloseDetail,
        _ => Action::Nothing,
    }
}

/// What a key press asks for in the help overlay.
pub open spec fn help_pressed(code: KeyCode) -> Action {
    match code {
        KeyCode::Char('?') => Action::CloseHelp,
        KeyCode::Esc => Action::CloseHelp,
        _ => Action::Nothing,
    }
}

/// The key press that quits.
pub open spec fn quits(key: KeyEvent) -> bool {
    key.code == KeyCode::Char('q') || (key.code == KeyCode::Char('c') && key.with_control())
}

/// What a key press that does not quit asks for in the device list.
pub open spec fn list_action(powered: bool, code: KeyCode) -> Action {
    match code {
        KeyCode::Char('s') => Action::ToggleScan,
        KeyCode::Char('p') => Action::Pair,
        KeyCode::Char('u') => Action::RequestUnpair,
        KeyCode::Char('t') => Action::TrustToggle,
        KeyCode::Char('i') => Action::ToggleDetail,
        KeyCode::Char('a') => Action::OpenProfiles,
        KeyCode::Char('?') => Action::ToggleHelp,
        KeyCode::Char('o') => if powered {
            Action::PowerOff
        } else {
            Action::PowerOn
        },
        KeyCode::Enter => Action::ConnectToggle,
        _ => Action::Nothing,
    }
}

/// The state after a key press, and the action that the key press asks for. A prompt of the agent
/// comes first, then the profile menu, a confirmation, the detail view and the help overlay; the
/// device list gets what is left, and without an adapter it knows only quitting and help.
pub open spec fn pressed(app: AppView, key: KeyEvent) -> (AppView, Action) {
    match app.agent_prompt {
        Some(prompt) => {
            let (prompt, action) = agent::prompt_pressed(prompt, key.code);
            (AppView { agent_prompt: Some(prompt), ..app }, action)
        },
        None => match app.profile_menu {
            Some(menu) => {
                let (menu, action) = menu_pressed(menu, key.code);
                (AppView { profile_menu: Some(menu), ..app }, action)
            },
            None => match app.pending_confirm {
                Some(confirm) => (app, confirm_pressed(confirm.confirm_type, key.code)),
                None => if app.show_detail {
                    (app, detail_pressed(key.code))
                } else if app.show_help {
                    (app, help_pressed(key.code))
                } else if quits(key) {
                    (AppView { running: false, ..app }, Action::Nothing)
                } else {
                    match app.adapter {
                        None => (
                            app,
                            if key.code == KeyCode::Char('?') {
                                Action::ToggleHelp
                            } else {
                                Action::Nothing
                            },
                        ),
                        Some(adapter) => (
                            match key.code {
                                KeyCode::Up => app.select_previous(),
                                KeyCode::Down => app.select_next(),
                                _ => app,
                            },
                            list_action(adapter.powered, key.code),
                        ),
                    }
                },
            },
        },
    }
}

/// The key press walks the device list, of an app without a prompt or a menu: nothing else lies over
/// the list, and there is an adapter.
pub open spec fn walks_list(app: AppView, key: KeyEvent) -> bool {
    &&& key.code == KeyCode::Up || key.code == KeyCode::Down
    &&& app.pending_confirm is None && !app.show_detail && !app.show_help
    &&& app.adapter is Some
}

/// The machine can handle the key press: the devices can be counted where they are walked, and the
/// successor of the selected profile can be counted where it is asked for.
pub open spec fn can_press(app: AppView, key: KeyEvent) -> bool {
    match (app.agent_prompt, app.profile_menu) {
        (Some(_), _) => true,
        (None, Some(menu)) => key.code == KeyCode::Down ==> menu.selected < usize::MAX,
        (None, None) => walks_list(app, key) ==> app.countable(),
    }
}

impl ProfileMenu {
    /// Handle a key press while the menu is open.
    pub fn handle_key(&mut self, code: KeyCode) -> (action: Action)
        requires
            code == KeyCode::Down ==> old(self).selected < usize::MAX,
        ensures
            (final(self)@, action) == menu_pressed(old(self)@, code),
    {
        match code {
            KeyCode::Up => {
                if self.selected > 0 {
                    self.selected = self.selected - 1;
                } else if self.profiles.len() > 0 {
                    self.selected = self.profiles.len() - 1;
                } else {
                    self.selected = 0;
                }
                Action::Nothing
            },
            KeyCode::Down => {
                if self.selected + 1 < self.profiles.len() {
                    self.selected = self.selected + 1;
                } else {
                    self.selected = 0;
                }
                Action::Nothing
            },
            KeyCode::Enter => Action::SelectProfile,
            KeyCode::Esc => Action::CloseProfiles,
            _ => Action::Nothing,
        }
    }
}

/// Handle a key press at a confirmation dialog.
fn press_at_confirm(confirm_type: ConfirmType, code: KeyCode) -> (action: Action)
    ensures
        action == confirm_pressed(confirm_type, code),
{
    match code {
        KeyCode::Char('y') => match confirm_type {
            ConfirmType::Unpair => Action::ConfirmUnpair,
            ConfirmType::Untrust => Action::ConfirmUntrust,
        },
        KeyCode::Char('n') => Action::CancelConfirm,
        KeyCode::Esc => Action::CancelConfirm,
        _ => Action::Nothing,
    }
}

/// The action of a key press that does not quit in the device list.
fn press_in_list(powered: bool, code: KeyCode) -> (action: Action)
    ensures
        action == list_action(powered, code),
{
    match code {
        KeyCode::Char('s') => Action::ToggleScan,
        KeyCode::Char('p') => Action::Pair,
        KeyCode::Char('u') => Action::RequestUnpair,
        KeyCode::Char('t') => Action::TrustToggle,
        KeyCode::Char('i') => Action::ToggleDetail,
        KeyCode::Char('a') => Action::OpenProfiles,
        KeyCode::Char('?') => Action::ToggleHelp,
        KeyCode::Char('o') => if powered {
            Action::PowerOff
        } else {
            Action::PowerOn
        },
        KeyCode::Enter => Action::ConnectToggle,
        _ => Action::Nothing,
    }
}

impl App {
    /// The state at the start: the first device selected, nothing open.
    pub fn new(adapter: Option<AdapterInfo>, devices: Vec<DeviceInfo>) -> (app: App)
        ensures
            app@ == started(bluetooth::opt_adapter(adapter), bluetooth::device_views(devices@)),
    {
        let mut list_state = ListState::new();
        if devices.len() > 0 {
            list_state.select(Some(0));
        }
        let app = App {
            adapter,
            devices,
            discovered_devices: Vec::new(),
            list_state,
            running: true,
            scanning: false,
            status_message: None,
            pending_confirm: None,
            agent_prompt: None,
            show_detail: false,
            profile_menu: None,
            show_help: false,
        };
        assert(app@.discovered_devices =~= Seq::empty());
        app
    }

    /// The number of devices in the list.
    pub fn total_devices(&self) -> (total: usize)
        requires
            self@.countable(),
        ensures
            total == self@.total(),
    {
        self.devices.len() + self.discovered_devices.len()
    }

    /// Handle a key event. Returns an action for the event loop to process.
    pub fn handle_key(&mut self, key: KeyEvent) -> (action: Action)
        requires
            can_press(old(self)@, key),
        ensures
            (final(self)@, action) == pressed(old(self)@, key),
    {
        match &mut self.agent_prompt {
            Some(prompt) => {
                return prompt.handle_key(key.code);
            },
            None => {},
        }
        match &mut self.profile_menu {
            Some(menu) => {
                return menu.handle_key(key.code);
            },
            None => {},
        }
        match &self.pending_confirm {
            Some(confirm) => {
                return press_at_confirm(confirm.confirm_type, key.code);
            },
            None => {},
        }
        if self.show_detail {
            return match key.code {
                KeyCode::Char('i') => Action::CloseDetail,
                KeyCode::Esc => Action::CloseDetail,
                _ => Action::Nothing,
            };
        }
        if self.show_help {
            return match key.code {
                KeyCode::Char('?') => Action::CloseHelp,
                KeyCode::Esc => Action::CloseHelp,
                _ => Action::Nothing,
            };
        }
        if key.code == KeyCode::Char('q') || (key.code == KeyCode::Char('c') && keys::control_held(
            key.modifiers,
        )) {
            self.running = false;
            return Action::Nothing;
        }
        let powered = match &self.adapter {
            Some(adapter) => adapter.powered,
            None => {
                return if key.code == KeyCode::Char('?') {
                    Action::ToggleHelp
                } else {
                    Action::Nothing
                };
            },
        };
        match key.code {
            KeyCode::Up => self.select_previous(),
            KeyCode::Down => self.select_next(),
            _ => {},
        }
        press_in_list(powered, key.code)
    }

    /// Move the selection to the next device, from the last one to the first.
    pub fn select_next(&mut self)
        requires
            old(self)@.countable(),
        ensures
            final(self)@ == old(self)@.select_next(),
    {
        let total: usize = self.total_devices();
        if total == 0 {
            return;
        }
        let index: usize = match self.list_state.selected() {
            Some(index) => if index >= total - 1 {
                0
            } else {
                index + 1
            },
            None => 0,
        };
        self.list_state.select(Some(index));
    }

    /// Move the selection to the previous device, from the first one to the last.
    pub fn select_previous(&mut self)
        requires
            old(self)@.countable(),
        ensures
            final(self)@ == old(self)@.select_previous(),
    {
        let total: usize = self.total_devices();
        if total == 0 {
            return;
        }
        let index: usize = match self.list_state.selected() {
            Some(index) => if index == 0 {
                total - 1
            } else {
                index - 1
            },
            None => total - 1,
        };
        self.list_state.select(Some(index));
    }

    /// Returns the currently selected device, if any.
    pub fn selected_device(&self) -> (device: Option<&DeviceInfo>)
        ensures
            match device {
                Some(d) => self@.selected_device() == Some(d@),
                None => self@.selected_device() is None,
            },
    {
        match self.list_state.selected() {
            Some(index) => if index < self.devices.len() {
                Some(&self.devices[index])
            } else {
                let rest: usize = index - self.devices.len();
                if rest < self.discovered_devices.len() {
                    Some(&self.discovered_devices[rest])
                } else {
                    None
                }
            },
            None => None,
        }
    }
}

/// `at` is the first place in `devices` with this address.
pub open spec fn first_with(devices: Seq<DeviceView>, address: Seq<char>, at: int) -> bool {
    &&& 0 <= at < devices.len()
    &&& devices[at].address == address
    &&& forall|i: int| 0 <= i < at ==> (#[trigger] devices[i]).address != address
}

/// The first place in `devices` with this address.
pub open spec fn place_of(devices: Seq<DeviceView>, address: Seq<char>) -> Option<int> {
    if exists|at: int| first_with(devices, address, at) {
        Some(choose|at: int| first_with(devices, address, at))
    } else {
        None
    }
}

/// Some device in `devices` has this address.
pub open spec fn has_address(devices: Seq<DeviceView>, address: Seq<char>) -> bool {
    exists|i: int| 0 <= i < devices.len() && (#[trigger] devices[i]).address == address
}

/// A selection that points behind the last of `total` devices goes back to the last one.
pub open spec fn settled(state: ListState, total: nat) -> ListState {
    if total == 0 {
        with_selection(state, None)
    } else {
        match state.selected {
            Some(index) => if index >= total {
                with_selection(state, Some((total - 1) as usize))
            } else {
                state
            },
            None => state,
        }
    }
}

impl AppView {
    /// A device was discovered: it joins the list unless its address is there already. If nothing
    /// was selected and no device is known, the first of the list is selected.
    pub open spec fn discovering(self, device: DeviceView) -> AppView {
        if has_address(self.devices, device.address) || has_address(
            self.discovered_devices,
            device.address,
        ) {
            self
        } else {
            AppView {
                discovered_devices: self.discovered_devices.push(device),
                list_state: if self.list_state.selected is None && self.devices.len() == 0 {
                    with_selection(self.list_state, Some(0))
                } else {
                    self.list_state
                },
                ..self
            }
        }
    }

    /// The first known device with this address is connected, or is not.
    pub open spec fn with_connected(self, address: Seq<char>, connected: bool) -> AppView {
        match place_of(self.devices, address) {
            Some(at) => AppView {
                devices: self.devices.update(at, DeviceView { connected, ..self.devices[at] }),
                ..self
            },
            None => self,
        }
    }

    /// The first known device with this address is trusted, or is not.
    pub open spec fn with_trusted(self, address: Seq<char>, trusted: bool) -> AppView {
        match place_of(self.devices, address) {
            Some(at) => AppView {
                devices: self.devices.update(at, DeviceView { trusted, ..self.devices[at] }),
                ..self
            },
            None => self,
        }
    }

    /// The first known device with this address is paired; otherwise the first discovered one
    /// becomes the last known device, and is paired.
    pub open spec fn with_paired(self, address: Seq<char>) -> AppView {
        match place_of(self.devices, address) {
            Some(at) => AppView {
                devices: self.devices.update(at, DeviceView { paired: true, ..self.devices[at] }),
                ..self
            },
            None => match place_of(self.discovered_devices, address) {
                Some(at) => AppView {
                    devices: self.devices.push(
                        DeviceView { paired: true, ..self.discovered_devices[at] },
                    ),
                    discovered_devices: self.discovered_devices.remove(at),
                    ..self
                },
                None => self,
            },
        }
    }

    /// No known device has this address any more.
    pub open spec fn without_known(self, address: Seq<char>) -> AppView {
        let devices = self.devices.filter(|d: DeviceView| d.address != address);
        AppView {
            devices,
            list_state: settled(self.list_state, devices.len() + self.discovered_devices.len()),
            ..self
        }
    }

    /// No device is discovered any more.
    pub open spec fn without_discovered(self) -> AppView {
        AppView {
            discovered_devices: Seq::empty(),
            list_state: settled(self.list_state, self.devices.len()),
            ..self
        }
    }
}

/// The first place in `list` with this address.
fn find(list: &Vec<DeviceInfo>, address: &str) -> (place: Option<usize>)
    ensures
        match place {
            Some(at) => at < list@.len() && place_of(bluetooth::device_views(list@), address@)
                == Some(at as int),
            None => place_of(bluetooth::device_views(list@), address@) is None,
        },
        place is Some <==> has_address(bluetooth::device_views(list@), address@),
{
    let wanted = address.to_string();
    let ghost views = bluetooth::device_views(list@);
    let mut at: usize = 0;
    while at < list.len()
        invariant
            at <= list@.len(),
            wanted@ == address@,
            views == bluetooth::device_views(list@),
            forall|i: int| 0 <= i < at ==> (#[trigger] views[i]).address != address@,
        decreases list.len() - at,
    {
        assert(views[at as int] == list@[at as int]@);
        if list[at].address == wanted {
            proof {
                assert(first_with(views, address@, at as int));
                let chosen = choose|at: int| first_with(views, address@, at);
                assert(first_with(views, address@, chosen));
                assert(!(chosen < at) && !(at < chosen));
            }
            return Some(at);
        }
        at = at + 1;
    }
    None
}

/// Keep the selection within the list.
fn settle(state: &mut ListState, total: usize)
    ensures
        *final(state) == settled(*old(state), total as nat),
{
    if total == 0 {
        state.select(None);
    } else {
        match state.selected() {
            Some(index) => {
                if index >= total {
                    state.select(Some(total - 1));
                }
            },
            None => {},
        }
    }
}

/// Remove the devices with this address from a list.
fn remove_all(list: &mut Vec<DeviceInfo>, address: &str)
    ensures
        bluetooth::device_views(final(list)@) == bluetooth::device_views(old(list)@).filter(
            |d: DeviceView| d.address != address@,
        ),
{
    let wanted = address.to_string();
    let ghost before = bluetooth::device_views(list@);
    let ghost keep = |d: DeviceView| d.address != address@;
    let ghost mut seen: int = 0;
    let mut at: usize = 0;
    proof {
        reveal(Seq::filter);
        assert(before.take(0).filter(keep) =~= Seq::empty());
        assert(bluetooth::device_views(list@) =~= before.take(0).filter(keep) + before.skip(0));
    }
    while at < list.len()
        invariant
            wanted@ == address@,
            keep == (|d: DeviceView| d.address != address@),
            0 <= seen <= before.len(),
            at <= list@.len(),
            at == before.take(seen).filter(keep).len(),
            bluetooth::device_views(list@) == before.take(seen).filter(keep) + before.skip(seen),
        decreases list.len() - at,
    {
        let ghost views = bluetooth::device_views(list@);
        let ghost kept = before.take(seen).filter(keep);
        proof {
            reveal(Seq::filter);
            assert(views.len() == kept.len() + before.skip(seen).len());
            assert(views[at as int] == list@[at as int]@);
            assert(views[at as int] == before[seen]);
            assert(before.take(seen + 1).drop_last() =~= before.take(seen));
            assert(before.take(seen + 1).last() == before[seen]);
        }
        if list[at].address == wanted {
            list.remove(at);
            assert(bluetooth::device_views(list@) =~= views.remove(at as int));
            assert(views.remove(at as int) =~= kept + before.skip(seen + 1));
        } else {
            assert(kept + before.skip(seen) =~= kept.push(before[seen]) + before.skip(seen + 1));
            at = at + 1;
        }
        proof {
            seen = seen + 1;
        }
    }
    proof {
        assert(before.skip(seen).len() == 0);
        assert(before.take(seen) =~= before);
        assert(bluetooth::device_views(list@) =~= before.filter(keep));
    }
}

impl App {
    /// Add a discovered device, deduplicating against known and already-discovered devices.
    pub fn add_discovered_device(&mut self, device: DeviceInfo)
        ensures
            final(self)@ == old(self)@.discovering(device@),
    {
        if find(&self.devices, device.address.as_str()).is_some() {
            return;
        }
        if find(&self.discovered_devices, device.address.as_str()).is_some() {
            return;
        }
        let ghost before = self.discovered_devices@;
        let ghost view = device@;
        self.discovered_devices.push(device);
        assert(bluetooth::device_views(self.discovered_devices@) =~= bluetooth::device_views(
            before,
        ).push(view));
        if self.list_state.selected().is_none() && self.devices.len() == 0 {
            self.list_state.select(Some(0));
        }
    }

    /// Update the `connected` status of a device by address.
    pub fn update_device_connected(&mut self, address: &str, connected: bool)
        ensures
            final(self)@ == old(self)@.with_connected(address@, connected),
    {
        match find(&self.devices, address) {
            Some(at) => {
                self.devices[at].connected = connected;
                assert(self@.devices =~= old(self)@.with_connected(address@, connected).devices);
            },
            None => {},
        }
    }

    /// Update the `paired` status of a device by address.
    /// If the device was in discovered_devices, move it to known devices.
    pub fn update_device_paired(&mut self, address: &str)
        ensures
            final(self)@ == old(self)@.with_paired(address@),
    {
        match find(&self.devices, address) {
            Some(at) => {
                self.devices[at].paired = true;
                assert(self@.devices =~= old(self)@.with_paired(address@).devices);
                return;
            },
            None => {},
        }
        match find(&self.discovered_devices, address) {
            Some(at) => {
                let mut device = self.discovered_devices.remove(at);
                device.paired = true;
                self.devices.push(device);
                assert(self@.devices =~= old(self)@.with_paired(address@).devices);
                assert(self@.discovered_devices =~= old(self)@.with_paired(
                    address@,
                ).discovered_devices);
            },
            None => {},
        }
    }

    /// Update the `trusted` status of a device by address.
    pub fn update_device_trusted(&mut self, address: &str, trusted: bool)
        ensures
            final(self)@ == old(self)@.with_trusted(address@, trusted),
    {
        match find(&self.devices, address) {
            Some(at) => {
                self.devices[at].trusted = trusted;
                assert(self@.devices =~= old(self)@.with_trusted(address@, trusted).devices);
            },
            None => {},
        }
    }

    /// Remove a device from the known devices list (after unpairing).
    pub fn remove_known_device(&mut self, address: &str)
        requires
            old(self)@.countable(),
        ensures
            final(self)@ == old(self)@.without_known(address@),
    {
        proof {
            lemma_filter_shorter(self@.devices, |d: DeviceView| d.address != address@);
        }
        remove_all(&mut self.devices, address);
        let total: usize = self.total_devices();
        settle(&mut self.list_state, total);
    }

    /// Clear all discovered devices and adjust selection if needed.
    pub fn clear_discovered_devices(&mut self)
        ensures
            final(self)@ == old(self)@.without_discovered(),
    {
        self.discovered_devices.clear();
        assert(self@.discovered_devices =~= Seq::empty());
        let total: usize = self.devices.len();
        settle(&mut self.list_state, total);
    }
}

/// A selection of a list is no longer than the list.
pub proof fn lemma_filter_shorter(list: Seq<DeviceView>, keep: spec_fn(DeviceView) -> bool)
    ensures
        list.filter(keep).len() <= list.len(),
    decreases list.len(),
{
    reveal(Seq::filter);
    if list.len() > 0 {
        lemma_filter_shorter(list.drop_last(), keep);
    }
}

/// The state at the start: the first device selected, nothing open.
pub open spec fn started(adapter: Option<AdapterView>, devices: Seq<DeviceView>) -> AppView {
    AppView {
        adapter,
        devices,
        discovered_devices: Seq::empty(),
        list_state: ListState {
            offset: 0,
            selected: if devices.len() > 0 {
                Some(0)
            } else {
                None
            },
        },
        running: true,
        scanning: false,
        status_message: None,
        pending_confirm: None,
        agent_prompt: None,
        show_detail: false,
        profile_menu: None,
        show_help: false,
    }
}

} // verus!

//! The tray model: the state of a session, and what each command does to it.
//!
//! The model never touches the file system. Where a command needs the
//! configuration file read or written, the update it returns says so in
//! `pending`; the caller does the work and hands the outcome to the method
//! that finishes the command.

use crate::config::presets::Pair;
use crate::config::{first_display_selector, resolve, resolve_spec, Config};
use crate::platform::{display_models, optional_text, Backend, BackendError, DisplayInfo, DisplayListReport};
use crate::text::number::{decimal, decimal_chars};
use crate::text::push_chars;
use crate::tray::commands::{
    Command, CMD_BASE_INPUT, CMD_EDIT_CONFIG, CMD_OPEN_CONFIG_FOLDER, CMD_QUIT, CMD_RELOAD,
    CMD_TOGGLE_STARTUP,
};
use crate::tray::common::{
    apply_startup_pref, build_inputs, default_inputs, default_rows, outcome_of_read, outcome_of_set,
    outcome_view, pretty_input_label, pretty_label, table_of, InputsTable, TableModel,
};
use crate::tray::menu::{MenuItem, MenuItemModel, MenuSpec};
use crate::tray::startup::StartupManager;
use vstd::prelude::*;

verus! {

/// `std::path::PathBuf`, a path of the file system. Nothing of its inside
/// is known here: the model hands paths on as it gets them.
#[verifier::external_type_specification]
#[verifier::external_body]
pub struct ExPathBuf(std::path::PathBuf);

/// `PathBuf::clone` gives a path. Nothing is stated of it.
pub assume_specification[ <std::path::PathBuf as Clone>::clone ](
    path: &std::path::PathBuf,
) -> std::path::PathBuf;

/// Work on the configuration file that a command leaves to the caller.
#[derive(Debug, Clone, Copy, PartialEq, Eq, Structural)]
pub enum FileRequest {
    /// Read the configuration; then call `reload_config`.
    Load,
    /// Write the startup preference; then call `startup_persisted`.
    StoreStartup(bool),
    /// Create the configuration file where there is none; then call
    /// `edit_config`.
    EnsureConfigFile,
    /// Find the folder of the configuration file; then call
    /// `open_config_folder`.
    LocateConfigFolder,
}

/// What the user interface does after a command.
#[derive(Debug, Default, Clone)]
pub struct ModelUpdate {
    pub refresh_menu: bool,
    pub refresh_tooltip: bool,
    pub quit: bool,
    pub open_path: Option<std::path::PathBuf>,
    pub pending: Option<FileRequest>,
}

/// Where the folder of the configuration file was looked for.
#[derive(Debug, Clone)]
pub enum FolderLookup {
    Found(std::path::PathBuf),
    NoConfigPath,
    NoParent,
}

/// The update that asks for nothing.
pub open spec fn no_update() -> ModelUpdate {
    ModelUpdate {
        refresh_menu: false,
        refresh_tooltip: false,
        quit: false,
        open_path: None,
        pending: None,
    }
}

/// The update after a command that may have changed the last error.
pub open spec fn tooltip_update() -> ModelUpdate {
    ModelUpdate { refresh_tooltip: true, ..no_update() }
}

/// The update after a command that may have changed the menu.
pub open spec fn menu_update() -> ModelUpdate {
    ModelUpdate { refresh_menu: true, refresh_tooltip: true, ..no_update() }
}

/// The update that hands the caller a path to open.
pub open spec fn open_update(path: std::path::PathBuf) -> ModelUpdate {
    ModelUpdate { open_path: Some(path), ..no_update() }
}

/// The update that leaves work on the configuration file to the caller.
pub open spec fn pending_update(request: FileRequest) -> ModelUpdate {
    ModelUpdate { pending: Some(request), ..no_update() }
}

/// The update that ends the session.
pub open spec fn quit_update() -> ModelUpdate {
    ModelUpdate { quit: true, ..no_update() }
}

/// The state of a session as contracts see it.
pub struct TrayState {
    pub inputs: TableModel,
    pub display_selector: Seq<char>,
    pub last_error: Option<Seq<char>>,
    pub start_enabled: bool,
    pub start_pref: Option<bool>,
}

/// What loading comes to, before the startup preference is looked at: the
/// display, the table of inputs, the startup preference and what went wrong.
pub struct LoadModel {
    pub display_selector: Seq<char>,
    pub inputs: TableModel,
    pub start_pref: Option<bool>,
    pub load_error: Option<Seq<char>>,
}

/// The text noted where selecting an input failed: what was being done,
/// with the input and the display. Why the backend failed is not part of
/// it.
pub open spec fn input_error_text(value: u16, display_selector: Seq<char>) -> Seq<char> {
    "set input "@ + decimal(value as nat) + " on '"@ + display_selector + "'"@
}

/// What loading comes to where the configuration could not be read: the
/// first display, the default inputs, and the failure.
pub open spec fn load_failed(error: Seq<char>) -> LoadModel {
    LoadModel {
        display_selector: first_display_selector(),
        inputs: TableModel { base: CMD_BASE_INPUT, rows: default_rows() },
        start_pref: None,
        load_error: Some(error),
    }
}

/// The startup preference that a configuration holds.
pub open spec fn startup_pref_of(config: Option<Config>) -> Option<bool> {
    match config {
        Some(c) => c.start_with_windows,
        None => None,
    }
}

/// What loading comes to where the configuration was read (or there is
/// none) and the backend answered `listing` when asked for the displays.
/// Where the listing failed the configuration is resolved against no
/// display and the failure is noted.
pub open spec fn load_done(
    config: Option<Config>,
    listing: Result<DisplayListReport, BackendError>,
) -> LoadModel {
    let displays = match listing {
        Ok(report) => display_models(report.displays@),
        Err(_) => Seq::<crate::platform::DisplayModel>::empty(),
    };
    let resolved = resolve_spec(
        match config {
            Some(c) => Some(c@),
            None => None,
        },
        displays,
        None,
    );
    let list_error = match listing {
        Ok(_) => None,
        Err(e) => Some(e.context@),
    };
    LoadModel {
        display_selector: resolved.display_selector,
        inputs: table_of(resolved.inputs, CMD_BASE_INPUT),
        start_pref: startup_pref_of(config),
        load_error: list_error,
    }
}

/// The text noted where the system refused the startup preference.
pub open spec fn startup_write_text() -> Seq<char> {
    "update startup setting"@
}

/// The text noted where the system's startup state could not be read.
pub open spec fn startup_read_text() -> Seq<char> {
    "read startup setting"@
}

/// The startup flag and the failure noted, once the preference `pref` was
/// brought to bear and the system answered.
pub open spec fn startup_synced(pref: Option<bool>, wrote_ok: bool, read: Option<bool>) -> (
    bool,
    Option<Seq<char>>,
) {
    match pref {
        Some(enabled) => (
            enabled,
            if wrote_ok {
                None
            } else {
                Some(startup_write_text())
            },
        ),
        None => match read {
            Some(enabled) => (enabled, None),
            None => (false, Some(startup_read_text())),
        },
    }
}

/// The state after loading and bringing the startup preference to bear. A
/// failure of loading is shown before one of the startup setting.
pub open spec fn state_after_load(load: LoadModel, startup: (bool, Option<Seq<char>>)) -> TrayState {
    TrayState {
        inputs: load.inputs,
        display_selector: load.display_selector,
        last_error: match load.load_error {
            Some(e) => Some(e),
            None => startup.1,
        },
        start_enabled: startup.0,
        start_pref: load.start_pref,
    }
}

/// The state after the backend was asked to select an input: nothing but
/// the last error changes.
pub open spec fn state_after_input(s: TrayState, value: u16, ok: bool) -> TrayState {
    TrayState {
        last_error: if ok {
            None
        } else {
            Some(input_error_text(value, s.display_selector))
        },
        ..s
    }
}

/// The state with `text` noted as the last error.
pub open spec fn state_with_error(s: TrayState, text: Seq<char>) -> TrayState {
    TrayState { last_error: Some(text), ..s }
}

/// The state after the startup preference `enabled` was handed to the
/// system and written to the configuration file.
pub open spec fn state_after_toggle(s: TrayState, enabled: bool) -> TrayState {
    TrayState { start_enabled: enabled, last_error: None, ..s }
}

/// The title of the menu entry of a row.
pub open spec fn input_title(row: Pair) -> Seq<char> {
    pretty_label(row.0) + " ("@ + decimal(row.1 as nat) + ")"@
}

/// The menu entry that does something.
pub open spec fn action_item(id: u16, title: Seq<char>, checked: bool) -> MenuItemModel {
    MenuItemModel::Action { id, title, checked, enabled: true }
}

/// The entries of the inputs: one for each row, under the id of the row.
pub open spec fn input_items(table: TableModel) -> Seq<MenuItemModel> {
    Seq::new(
        table.rows.len(),
        |i: int| action_item(table.id_of(i), input_title(table.rows[i]), false),
    )
}

/// The entries below the inputs.
pub open spec fn action_items(start_enabled: bool) -> Seq<MenuItemModel> {
    seq![
        MenuItemModel::Separator,
        MenuItemModel::Header("Actions"@),
        action_item(CMD_TOGGLE_STARTUP, "Start at login"@, start_enabled),
        action_item(CMD_EDIT_CONFIG, "Edit config"@, false),
        action_item(CMD_OPEN_CONFIG_FOLDER, "Open config folder"@, false),
        action_item(CMD_RELOAD, "Reload config"@, false),
        action_item(CMD_QUIT, "Quit"@, false),
    ]
}

/// The menu of a state: the inputs under their header, then the actions.
pub open spec fn menu_of(s: TrayState) -> Seq<MenuItemModel> {
    seq![MenuItemModel::Header("Inputs"@)] + input_items(s.inputs) + action_items(s.start_enabled)
}

/// What loading comes to, as a value.
pub struct Loaded {
    pub display_selector: String,
    pub inputs: InputsTable,
    pub start_pref: Option<bool>,
    pub load_error: Option<String>,
}

impl View for Loaded {
    type V = LoadModel;

    open spec fn view(&self) -> LoadModel {
        LoadModel {
            display_selector: self.display_selector@,
            inputs: self.inputs@,
            start_pref: self.start_pref,
            load_error: optional_text(self.load_error),
        }
    }
}

/// What loading comes to where the configuration could not be read.
pub fn load_failure(error: String) -> (r: Loaded)
    ensures
        r@ == load_failed(error@),
{
    Loaded {
        display_selector: crate::config::default_selector(),
        inputs: default_inputs(CMD_BASE_INPUT),
        start_pref: None,
        load_error: Some(error),
    }
}

/// What loading comes to where the configuration was read and the backend
/// answered `listing` when asked for the displays.
pub fn load_with_listing(config: Option<Config>, listing: Result<DisplayListReport, BackendError>) -> (r:
    Loaded)
    ensures
        r@ == load_done(config, listing),
{
    let start_pref = match &config {
        Some(c) => c.start_with_windows,
        None => None,
    };
    let (displays, list_error): (Vec<DisplayInfo>, Option<String>) = match listing {
        Ok(report) => (report.displays, None),
        Err(e) => (Vec::new(), Some(e.text())),
    };
    let resolved = resolve(config.as_ref(), displays.as_slice(), None);
    proof {
        assert(display_models(Seq::<DisplayInfo>::empty()) =~= Seq::<
            crate::platform::DisplayModel,
        >::empty());
    }
    let inputs = build_inputs(&resolved.inputs, CMD_BASE_INPUT);
    Loaded { display_selector: resolved.display_selector, inputs, start_pref, load_error: list_error }
}

/// Loads the display and the inputs of a session from what reading the
/// configuration file came to. The backend is asked for the displays only
/// where the configuration could be read.
pub fn load_display_and_inputs<B: Backend>(backend: &B, loaded: Result<Option<Config>, String>) -> (r:
    Loaded)
    ensures
        match loaded {
            Err(e) => r@ == load_failed(e@),
            Ok(config) => exists|listing: Result<DisplayListReport, BackendError>|
                backend.list_reply(listing) && r@ == load_done(config, listing),
        },
{
    match loaded {
        Err(e) => load_failure(e),
        Ok(config) => {
            let listing = backend.list_displays();
            load_with_listing(config, listing)
        },
    }
}

/// What the system's answer to reading the startup state comes to.
pub open spec fn read_of(reply: Result<bool, String>) -> Option<bool> {
    match reply {
        Ok(enabled) => Some(enabled),
        Err(_) => None,
    }
}

/// Brings the startup preference to bear on the system. A written
/// preference is handed to the system and stands whatever comes back;
/// without one the system's own state is read. The failure noted says what
/// was being done.
pub fn sync_startup<S: StartupManager>(pref: Option<bool>, startup: &S) -> (out: (
    bool,
    Option<String>,
))
    ensures
        match pref {
            Some(enabled) => exists|reply: Result<(), String>|
                startup.write_reply(enabled, reply) && outcome_view(out) == startup_synced(
                    pref,
                    reply is Ok,
                    None,
                ),
            None => exists|reply: Result<bool, String>|
                startup.read_reply(reply) && outcome_view(out) == startup_synced(
                    pref,
                    true,
                    read_of(reply),
                ),
        },
{
    let set_enabled = |enabled: bool| -> (r: Result<(), String>)
        ensures
            exists|reply: Result<(), String>|
                startup.write_reply(enabled, reply) && outcome_of_set(enabled, r) == startup_synced(
                    Some(enabled),
                    reply is Ok,
                    None,
                ),
        {
            let reply = startup.set_enabled(enabled);
            match reply {
                Ok(()) => Ok(()),
                Err(_) => Err(String::from_str("update startup setting")),
            }
        };
    let is_enabled = || -> (r: Result<bool, String>)
        ensures
            exists|reply: Result<bool, String>|
                startup.read_reply(reply) && outcome_of_read(r) == startup_synced(
                    None,
                    true,
                    read_of(reply),
                ),
        {
            let reply = startup.is_enabled();
            match reply {
                Ok(enabled) => Ok(enabled),
                Err(_) => Err(String::from_str("read startup setting")),
            }
        };
    apply_startup_pref(pref, set_enabled, is_enabled)
}

/// The session: the table of inputs, the display they are selected on, the
/// backend that selects them, the last failure, and the startup state.
pub struct TrayModel<B: Backend> {
    inputs: InputsTable,
    display_selector: String,
    backend: B,
    last_error: Option<String>,
    start_enabled: bool,
    start_pref: Option<bool>,
}

impl<B: Backend> View for TrayModel<B> {
    type V = TrayState;

    closed spec fn view(&self) -> TrayState {
        TrayState {
            inputs: self.inputs@,
            display_selector: self.display_selector@,
            last_error: optional_text(self.last_error),
            start_enabled: self.start_enabled,
            start_pref: self.start_pref,
        }
    }
}

/// The startup state that the toggle asks for: the opposite of the present
/// one.
pub open spec fn toggle_target(s: TrayState) -> bool {
    !s.start_enabled
}

/// What a command comes to. `ok` says whether the one call that the
/// command makes outside the model succeeded: the backend's `set_input`
/// for an input, the startup manager's `set_enabled` for the toggle. The
/// other commands make no call.
pub open spec fn handled(s: TrayState, cmd: Command, ok: bool) -> (TrayState, ModelUpdate) {
    match cmd {
        Command::Input(value) => (state_after_input(s, value, ok), tooltip_update()),
        Command::Reload => (s, pending_update(FileRequest::Load)),
        Command::ToggleStartup => if ok {
            (s, pending_update(FileRequest::StoreStartup(toggle_target(s))))
        } else {
            (state_with_error(s, startup_write_text()), tooltip_update())
        },
        Command::EditConfig => (s, pending_update(FileRequest::EnsureConfigFile)),
        Command::OpenConfigFolder => (s, pending_update(FileRequest::LocateConfigFolder)),
        Command::Quit => (s, quit_update()),
    }
}

/// What finishing the toggle comes to, once the preference that the
/// toggle handed out was written to the configuration file or could not
/// be. The state it turns to is the one the toggle asked for: the opposite
/// of the present one.
pub open spec fn toggled(s: TrayState, stored: bool) -> (TrayState, ModelUpdate) {
    if stored {
        (state_after_toggle(s, toggle_target(s)), menu_update())
    } else {
        (state_with_error(s, "update config"@), tooltip_update())
    }
}

impl<B: Backend> TrayModel<B> {
    #[verifier::type_invariant]
    spec fn inv(&self) -> bool {
        self.inputs@.base == CMD_BASE_INPUT && self.inputs@.wf()
    }

    /// The backend of the session.
    pub closed spec fn backend_of(&self) -> B {
        self.backend
    }

    /// Starts a session: loads display and inputs from what reading the
    /// configuration came to, then brings the startup preference to bear.
    /// Nothing that fails keeps the session from starting; the failure is
    /// the last error.
    pub fn new<S: StartupManager>(
        backend: B,
        loaded: Result<Option<Config>, String>,
        startup: &S,
    ) -> (r: Self)
        ensures
            r.backend_of() == backend,
            r@.inputs.base == CMD_BASE_INPUT,
            r@.inputs.wf(),
            exists|load: LoadModel, synced: (bool, Option<Seq<char>>)|
                {
                    &&& is_load(&backend, loaded, load)
                    &&& is_sync(startup, load.start_pref, synced)
                    &&& r@ == state_after_load(load, synced)
                },
    {
        let load = load_display_and_inputs(&backend, loaded);
        let (start_enabled, startup_error) = sync_startup(load.start_pref, startup);
        let ghost load_model = load@;
        let ghost synced = outcome_view((start_enabled, startup_error));
        let last_error = match load.load_error {
            Some(e) => Some(e),
            None => startup_error,
        };
        let _rows = load.inputs.len();
        let r = TrayModel {
            inputs: load.inputs,
            display_selector: load.display_selector,
            backend,
            last_error,
            start_enabled,
            start_pref: load.start_pref,
        };
        // the outcomes that the postcondition speaks of
        assert(is_load(&backend, loaded, load_model));
        assert(is_sync(startup, load_model.start_pref, synced));
        assert(r@ == state_after_load(load_model, synced));
        r
    }

    /// The table of inputs.
    pub fn inputs(&self) -> (r: &InputsTable)
        ensures
            r@ == self@.inputs,
            r@.base == CMD_BASE_INPUT,
            r@.wf(),
    {
        proof {
            use_type_invariant(self);
        }
        &self.inputs
    }

    /// The selector of the display that inputs are selected on.
    pub fn display_selector(&self) -> (r: &str)
        ensures
            r@ == self@.display_selector,
    {
        self.display_selector.as_str()
    }

    /// The text of the last failure, if the last command failed.
    pub fn last_error(&self) -> (r: Option<&str>)
        ensures
            match r {
                Some(text) => self@.last_error == Some(text@),
                None => self@.last_error is None,
            },
    {
        match &self.last_error {
            Some(text) => Some(text.as_str()),
            None => None,
        }
    }

    /// Whether the tray starts with the login session.
    pub fn start_enabled(&self) -> (r: bool)
        ensures
            r == self@.start_enabled,
    {
        self.start_enabled
    }

    /// The startup preference that the configuration held when it was last
    /// loaded.
    pub fn start_pref(&self) -> (r: Option<bool>)
        ensures
            r == self@.start_pref,
    {
        self.start_pref
    }

    /// Notes `text` as the last error.
    pub fn note_error(&mut self, text: String) -> (update: ModelUpdate)
        ensures
            final(self).backend_of() == old(self).backend_of(),
            final(self)@ == state_with_error(old(self)@, text@),
            update == tooltip_update(),
    {
        proof {
            use_type_invariant(&*self);
        }
        self.last_error = Some(text);
        ModelUpdate {
            refresh_menu: false,
            refresh_tooltip: true,
            quit: false,
            open_path: None,
            pending: None,
        }
    }

    /// The text noted where selecting the input `value` fails.
    pub fn input_error(&self, value: u16) -> (r: String)
        ensures
            r@ == input_error_text(value, self@.display_selector),
    {
        let mut s = String::from_str("set input ");
        let digits = decimal_chars(value as u64);
        push_chars(&mut s, &digits);
        s.append(" on '");
        s.append(self.display_selector.as_str());
        s.append("'");
        s
    }

    /// Takes in the backend's answer to selecting the input `value`:
    /// success clears the last error, failure is noted. Nothing else
    /// changes.
    pub fn input_answered(&mut self, value: u16, reply: Result<(), BackendError>) -> (update:
        ModelUpdate)
        ensures
            final(self).backend_of() == old(self).backend_of(),
            (final(self)@, update) == handled(old(self)@, Command::Input(value), reply is Ok),
    {
        proof {
            use_type_invariant(&*self);
        }
        match reply {
            Ok(()) => {
                self.last_error = None;
                ModelUpdate {
                    refresh_menu: false,
                    refresh_tooltip: true,
                    quit: false,
                    open_path: None,
                    pending: None,
                }
            },
            Err(_) => {
                let text = self.input_error(value);
                self.note_error(text)
            },
        }
    }

    /// Asks the backend to select the input `value` on the display of the
    /// session.
    pub fn set_input(&mut self, value: u16) -> (update: ModelUpdate)
        ensures
            final(self).backend_of() == old(self).backend_of(),
            exists|reply: Result<(), BackendError>|
                {
                    &&& old(self).backend_of().set_reply(old(self)@.display_selector, value, reply)
                    &&& (final(self)@, update) == handled(
                        old(self)@,
                        Command::Input(value),
                        reply is Ok,
                    )
                },
    {
        let reply = self.backend.set_input(self.display_selector.as_str(), value);
        self.input_answered(value, reply)
    }

    /// Takes in the startup manager's answer to the toggle: after success
    /// the preference is left to the caller to write down, a failure is
    /// noted. The startup state itself does not change yet.
    pub fn toggle_answered(&mut self, reply: Result<(), String>) -> (update: ModelUpdate)
        ensures
            final(self).backend_of() == old(self).backend_of(),
            (final(self)@, update) == handled(old(self)@, Command::ToggleStartup, reply is Ok),
    {
        match reply {
            Ok(()) => ModelUpdate {
                refresh_menu: false,
                refresh_tooltip: false,
                quit: false,
                open_path: None,
                pending: Some(FileRequest::StoreStartup(!self.start_enabled)),
            },
            Err(_) => self.note_error(String::from_str("update startup setting")),
        }
    }

    /// Asks the startup manager for the opposite of the present startup
    /// state.
    pub fn toggle_startup<S: StartupManager>(&mut self, startup: &S) -> (update: ModelUpdate)
        ensures
            final(self).backend_of() == old(self).backend_of(),
            exists|reply: Result<(), String>|
                {
                    &&& startup.write_reply(toggle_target(old(self)@), reply)
                    &&& (final(self)@, update) == handled(
                        old(self)@,
                        Command::ToggleStartup,
                        reply is Ok,
                    )
                },
    {
        let reply = startup.set_enabled(!self.start_enabled);
        self.toggle_answered(reply)
    }

    /// Finishes the toggle: the preference that the toggle handed out was
    /// written to the configuration file, or could not be. Only after it
    /// was written does the startup state change, to the state that the
    /// toggle asked the system for.
    pub fn startup_persisted(&mut self, stored: Result<(), String>) -> (update: ModelUpdate)
        ensures
            final(self).backend_of() == old(self).backend_of(),
            (final(self)@, update) == toggled(old(self)@, stored is Ok),
            stored is Ok ==> final(self)@.start_enabled == toggle_target(old(self)@),
    {
        proof {
            use_type_invariant(&*self);
        }
        match stored {
            Ok(()) => {
                self.start_enabled = !self.start_enabled;
                self.last_error = None;
                ModelUpdate {
                    refresh_menu: true,
                    refresh_tooltip: true,
                    quit: false,
                    open_path: None,
                    pending: None,
                }
            },
            Err(_) => self.note_error(String::from_str("update config")),
        }
    }

    /// Finishes a reload: loads display and inputs anew from what reading
    /// the configuration came to, then brings the startup preference to
    /// bear, as at the start of the session.
    pub fn reload_config<S: StartupManager>(
        &mut self,
        loaded: Result<Option<Config>, String>,
        startup: &S,
    ) -> (update: ModelUpdate)
        ensures
            final(self).backend_of() == old(self).backend_of(),
            update == menu_update(),
            exists|load: LoadModel, synced: (bool, Option<Seq<char>>)|
                {
                    &&& is_load(&old(self).backend_of(), loaded, load)
                    &&& is_sync(startup, load.start_pref, synced)
                    &&& final(self)@ == state_after_load(load, synced)
                },
    {
        let load = load_display_and_inputs(&self.backend, loaded);
        let (start_enabled, startup_error) = sync_startup(load.start_pref, startup);
        let ghost load_model = load@;
        let ghost synced = outcome_view((start_enabled, startup_error));
        let _rows = load.inputs.len();
        proof {
            use_type_invariant(&*self);
        }
        self.display_selector = load.display_selector;
        self.inputs = load.inputs;
        self.start_pref = load.start_pref;
        self.start_enabled = start_enabled;
        self.last_error = match load.load_error {
            Some(e) => Some(e),
            None => startup_error,
        };
        // the outcomes that the postcondition speaks of
        assert(is_load(&old(self).backend_of(), loaded, load_model));
        assert(is_sync(startup, load_model.start_pref, synced));
        assert(self@ == state_after_load(load_model, synced));
        ModelUpdate {
            refresh_menu: true,
            refresh_tooltip: true,
            quit: false,
            open_path: None,
            pending: None,
        }
    }

    /// Finishes `EditConfig`: the configuration file is there at `path`,
    /// for the caller to open, or could not be made.
    pub fn edit_config(&mut self, ensured: Result<std::path::PathBuf, String>) -> (update:
        ModelUpdate)
        ensures
            final(self).backend_of() == old(self).backend_of(),
            match ensured {
                Ok(path) => final(self)@ == old(self)@ && update == open_update(path),
                Err(_) => final(self)@ == state_with_error(old(self)@, "ensure config exists"@)
                    && update == tooltip_update(),
            },
    {
        match ensured {
            Ok(path) => ModelUpdate {
                refresh_menu: false,
                refresh_tooltip: false,
                quit: false,
                open_path: Some(path),
                pending: None,
            },
            Err(_) => self.note_error(String::from_str("ensure config exists")),
        }
    }

    /// Finishes `OpenConfigFolder`: the folder was found, for the caller to
    /// open, or there is no place for a configuration file, or the place
    /// has no folder above it.
    pub fn open_config_folder(&mut self, lookup: FolderLookup) -> (update: ModelUpdate)
        ensures
            final(self).backend_of() == old(self).backend_of(),
            match lookup {
                FolderLookup::Found(path) => final(self)@ == old(self)@ && update == open_update(
                    path,
                ),
                FolderLookup::NoConfigPath => final(self)@ == state_with_error(
                    old(self)@,
                    "No config path available"@,
                ) && update == tooltip_update(),
                FolderLookup::NoParent => final(self)@ == state_with_error(
                    old(self)@,
                    "No parent directory for config path"@,
                ) && update == tooltip_update(),
            },
    {
        match lookup {
            FolderLookup::Found(path) => ModelUpdate {
                refresh_menu: false,
                refresh_tooltip: false,
                quit: false,
                open_path: Some(path),
                pending: None,
            },
            FolderLookup::NoConfigPath => self.note_error(
                String::from_str("No config path available"),
            ),
            FolderLookup::NoParent => self.note_error(
                String::from_str("No parent directory for config path"),
            ),
        }
    }

    /// Performs a command. A failure never leaves the model: it becomes the
    /// last error, and the update asks for the tooltip to be shown anew.
    ///
    /// An input is selected through the backend. The toggle asks the
    /// startup manager for the opposite state, and leaves the startup
    /// state as it is until the caller has written the preference down.
    /// Reloading, editing the configuration and opening its folder need the
    /// file system: the update names the work in `pending`. Quitting only
    /// says so.
    pub fn handle<S: StartupManager>(&mut self, cmd: Command, startup: &S) -> (update: ModelUpdate)
        ensures
            final(self).backend_of() == old(self).backend_of(),
            exists|ok: bool|
                {
                    &&& (final(self)@, update) == handled(old(self)@, cmd, ok)
                    &&& cmd matches Command::Input(value) ==> exists|reply: Result<(), BackendError>|
                        old(self).backend_of().set_reply(old(self)@.display_selector, value, reply)
                            && ok == (reply is Ok)
                    &&& cmd is ToggleStartup ==> exists|reply: Result<(), String>|
                        startup.write_reply(toggle_target(old(self)@), reply) && ok == (reply is Ok)
                },
    {
        match cmd {
            Command::Input(value) => self.set_input(value),
            Command::ToggleStartup => self.toggle_startup(startup),
            // these make no call outside the model: any `ok` will do
            Command::Reload => {
                assert((self@, pending_update(FileRequest::Load)) == handled(self@, cmd, true));
                ModelUpdate {
                    refresh_menu: false,
                    refresh_tooltip: false,
                    quit: false,
                    open_path: None,
                    pending: Some(FileRequest::Load),
                }
            },
            Command::EditConfig => {
                assert((self@, pending_update(FileRequest::EnsureConfigFile)) == handled(
                    self@,
                    cmd,
                    true,
                ));
                ModelUpdate {
                    refresh_menu: false,
                    refresh_tooltip: false,
                    quit: false,
                    open_path: None,
                    pending: Some(FileRequest::EnsureConfigFile),
                }
            },
            Command::OpenConfigFolder => {
                assert((self@, pending_update(FileRequest::LocateConfigFolder)) == handled(
                    self@,
                    cmd,
                    true,
                ));
                ModelUpdate {
                    refresh_menu: false,
                    refresh_tooltip: false,
                    quit: false,
                    open_path: None,
                    pending: Some(FileRequest::LocateConfigFolder),
                }
            },
            Command::Quit => {
                assert((self@, quit_update()) == handled(self@, cmd, true));
                ModelUpdate {
                    refresh_menu: false,
                    refresh_tooltip: false,
                    quit: true,
                    open_path: None,
                    pending: None,
                }
            },
        }
    }

    /// The menu to show now.
    pub fn menu_spec(&self) -> (r: MenuSpec)
        ensures
            r@ == menu_of(self@),
    {
        proof {
            use_type_invariant(self);
        }
        let mut items: Vec<MenuItem> = Vec::new();
        items.push(MenuItem::Header(String::from_str("Inputs")));
        let n = self.inputs.len();
        let ghost table = self.inputs@;
        let mut i: usize = 0;
        while i < n
            invariant
                i <= n,
                n == table.rows.len(),
                table == self.inputs@,
                items@.len() == i + 1,
                items@[0]@ == MenuItemModel::Header("Inputs"@),
                forall|k: int| 0 <= k < i ==> (#[trigger] items@[k + 1])@ == input_items(table)[k],
            decreases n - i,
        {
            let name = self.inputs.name_at(i);
            let value = self.inputs.value_at(i);
            let mut title = String::from_str(pretty_input_label(name.as_str()));
            title.append(" (");
            let digits = decimal_chars(value as u64);
            push_chars(&mut title, &digits);
            title.append(")");
            items.push(
                MenuItem::Action { id: self.inputs.id_at(i), title, checked: false, enabled: true },
            );
            i += 1;
        }
        items.push(MenuItem::Separator);
        items.push(MenuItem::Header(String::from_str("Actions")));
        items.push(
            MenuItem::Action {
                id: CMD_TOGGLE_STARTUP,
                title: String::from_str("Start at login"),
                checked: self.start_enabled,
                enabled: true,
            },
        );
        items.push(
            MenuItem::Action {
                id: CMD_EDIT_CONFIG,
                title: String::from_str("Edit config"),
                checked: false,
                enabled: true,
            },
        );
        items.push(
            MenuItem::Action {
                id: CMD_OPEN_CONFIG_FOLDER,
                title: String::from_str("Open config folder"),
                checked: false,
                enabled: true,
            },
        );
        items.push(
            MenuItem::Action {
                id: CMD_RELOAD,
                title: String::from_str("Reload config"),
                checked: false,
                enabled: true,
            },
        );
        items.push(
            MenuItem::Action {
                id: CMD_QUIT,
                title: String::from_str("Quit"),
                checked: false,
                enabled: true,
            },
        );
        let r = MenuSpec::new(items);
        proof {
            let want = menu_of(self@);
            assert(r@.len() == want.len());
            assert forall|k: int| 0 <= k < want.len() implies r@[k] == want[k] by {
                if 1 <= k <= n {
                    assert(r@[k] == items@[(k - 1) + 1]@);
                }
            }
            assert(r@ =~= want);
        }
        r
    }
}

/// `load` is what loading comes to with this backend and this outcome of
/// reading the configuration: the backend is asked for the displays where
/// the configuration could be read, and not otherwise.
pub open spec fn is_load<B: Backend>(
    backend: &B,
    loaded: Result<Option<Config>, String>,
    load: LoadModel,
) -> bool {
    match loaded {
        Err(e) => load == load_failed(e@),
        Ok(config) => exists|listing: Result<DisplayListReport, BackendError>|
            backend.list_reply(listing) && load == load_done(config, listing),
    }
}

/// `synced` is what bringing the preference `pref` to bear comes to with
/// this startup manager.
pub open spec fn is_sync<S: StartupManager>(
    startup: &S,
    pref: Option<bool>,
    synced: (bool, Option<Seq<char>>),
) -> bool {
    match pref {
        Some(enabled) => exists|reply: Result<(), String>|
            startup.write_reply(enabled, reply) && synced == startup_synced(pref, reply is Ok, None),
        None => exists|reply: Result<bool, String>|
            startup.read_reply(reply) && synced == startup_synced(pref, true, read_of(reply)),
    }
}

/// Where the backend refuses an input, the display and the table of
/// inputs stay as they are, and so does the startup state: the failure is
/// the last error, and the tooltip is to be shown anew.
pub proof fn lemma_failed_input_changes_only_error(s: TrayState, value: u16)
    ensures
        ({
            let (after, update) = handled(s, Command::Input(value), false);
            &&& after.display_selector == s.display_selector
            &&& after.inputs == s.inputs
            &&& after.start_enabled == s.start_enabled
            &&& after.start_pref == s.start_pref
            &&& after.last_error == Some(input_error_text(value, s.display_selector))
            &&& update == tooltip_update()
        }),
{
}

/// Where the backend selects the input, the last error is cleared and
/// nothing else changes.
pub proof fn lemma_input_clears_error(s: TrayState, value: u16)
    ensures
        ({
            let (after, update) = handled(s, Command::Input(value), true);
            &&& after == (TrayState { last_error: None, ..s })
            &&& update == tooltip_update()
        }),
{
}

/// The state after one whole toggle that succeeds: the system took the
/// opposite state and the preference was written down.
pub open spec fn toggled_once(s: TrayState) -> TrayState {
    toggled(handled(s, Command::ToggleStartup, true).0, true).0
}

/// The preference that one whole toggle asks the caller to write down.
pub open spec fn toggle_request(s: TrayState) -> Option<FileRequest> {
    handled(s, Command::ToggleStartup, true).1.pending
}

/// Toggling twice, with nothing failing, brings the startup state back to
/// what it was. The preference that each toggle hands out to be written
/// down is the startup state after that toggle.
pub proof fn lemma_toggle_twice(s: TrayState)
    ensures
        toggled_once(toggled_once(s)).start_enabled == s.start_enabled,
        toggle_request(s) == Some(FileRequest::StoreStartup(toggled_once(s).start_enabled)),
        toggle_request(toggled_once(s)) == Some(
            FileRequest::StoreStartup(toggled_once(toggled_once(s)).start_enabled),
        ),
        toggled_once(s).start_enabled == !s.start_enabled,
        toggled_once(s).inputs == s.inputs,
        toggled_once(s).display_selector == s.display_selector,
{
}

/// A toggle that the system refuses, or whose preference cannot be written
/// down, leaves the startup state as it was.
pub proof fn lemma_failed_toggle_keeps_state(s: TrayState)
    ensures
        handled(s, Command::ToggleStartup, false).0.start_enabled == s.start_enabled,
        handled(s, Command::ToggleStartup, false).1.pending is None,
        toggled(s, false).0.start_enabled == s.start_enabled,
{
}

} // verus!

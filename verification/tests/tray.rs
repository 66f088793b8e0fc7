use monitorctl::config::presets::InputPresets;
use monitorctl::config::{Config, MonitorConfig, MonitorMatch};
use monitorctl::platform::{Backend, BackendError, DisplayInfo, DisplayListReport, DoctorReport};
use monitorctl::tray::commands::{
    decode, Command, CMD_BASE_INPUT, CMD_EDIT_CONFIG, CMD_OPEN_CONFIG_FOLDER, CMD_QUIT, CMD_RELOAD,
    CMD_TOGGLE_STARTUP,
};
use monitorctl::tray::common::{
    apply_startup_pref, build_inputs, default_inputs, pretty_input_label, InputsTable,
};
use monitorctl::tray::menu::{MenuItem, MenuSpec};
use monitorctl::tray::model::{
    load_display_and_inputs, sync_startup, FileRequest, FolderLookup, ModelUpdate, TrayModel,
};
use monitorctl::tray::startup::StartupManager;
use std::cell::{Cell, RefCell};
use std::path::PathBuf;
use std::rc::Rc;

fn presets(items: &[(&str, u16)]) -> InputPresets {
    let mut p = InputPresets::new();
    for (name, value) in items {
        p.insert(name, *value);
    }
    p
}

fn rows(table: &InputsTable) -> Vec<(u16, String, u16)> {
    (0..table.len()).map(|i| (table.id_at(i), table.name_at(i).clone(), table.value_at(i))).collect()
}

struct FakeBackend {
    fail_set: Cell<bool>,
    fail_list: Cell<bool>,
    displays: Vec<DisplayInfo>,
    set_calls: Rc<RefCell<Vec<(String, u16)>>>,
    list_calls: Rc<Cell<u32>>,
}

impl FakeBackend {
    fn new() -> Self {
        FakeBackend {
            fail_set: Cell::new(false),
            fail_list: Cell::new(false),
            displays: vec![
                DisplayInfo { index: 1, product_name: Some("Dell U2720Q".to_string()), system_uuid: None },
                DisplayInfo {
                    index: 2,
                    product_name: Some("XG27ACS".to_string()),
                    system_uuid: Some("AB-12".to_string()),
                },
            ],
            set_calls: Rc::new(RefCell::new(Vec::new())),
            list_calls: Rc::new(Cell::new(0)),
        }
    }
}

impl Backend for FakeBackend {
    fn list_displays(&self) -> Result<DisplayListReport, BackendError> {
        self.list_calls.set(self.list_calls.get() + 1);
        if self.fail_list.get() {
            return Err(BackendError::new("running m1ddc display list", "No such file"));
        }
        Ok(DisplayListReport { displays: self.displays.clone(), raw: None })
    }

    fn set_input(&self, display_selector: &str, value: u16) -> Result<(), BackendError> {
        self.set_calls.borrow_mut().push((display_selector.to_string(), value));
        if self.fail_set.get() {
            Err(BackendError::new("SetVCPFeature(VCP=0x60)", "access denied"))
        } else {
            Ok(())
        }
    }

    fn get_input(&self, _display_selector: &str) -> Result<u16, BackendError> {
        Err(BackendError::new("get input", "unsupported"))
    }

    fn doctor(&self) -> Result<DoctorReport, BackendError> {
        Ok(DoctorReport { ok: true, message: "fine".to_string() })
    }
}

struct FakeStartup {
    enabled: Cell<bool>,
    fail_write: Cell<bool>,
    fail_read: Cell<bool>,
    writes: RefCell<Vec<bool>>,
    reads: Cell<u32>,
}

impl FakeStartup {
    fn new(enabled: bool) -> Self {
        FakeStartup {
            enabled: Cell::new(enabled),
            fail_write: Cell::new(false),
            fail_read: Cell::new(false),
            writes: RefCell::new(Vec::new()),
            reads: Cell::new(0),
        }
    }
}

impl StartupManager for FakeStartup {
    fn is_enabled(&self) -> Result<bool, String> {
        self.reads.set(self.reads.get() + 1);
        if self.fail_read.get() {
            return Err("cannot read the registry".to_string());
        }
        Ok(self.enabled.get())
    }

    fn set_enabled(&self, enabled: bool) -> Result<(), String> {
        self.writes.borrow_mut().push(enabled);
        if self.fail_write.get() {
            return Err("registry is read-only".to_string());
        }
        self.enabled.set(enabled);
        Ok(())
    }
}

fn config(start: Option<bool>, inputs: &[(&str, u16)]) -> Config {
    Config { start_with_windows: start, default_display: None, inputs: presets(inputs), monitors: Vec::new() }
}

fn plain(update: &ModelUpdate) -> (bool, bool, bool, Option<PathBuf>, Option<FileRequest>) {
    (update.refresh_menu, update.refresh_tooltip, update.quit, update.open_path.clone(), update.pending)
}

#[test]
fn inputs_table_from_presets() {
    let table = build_inputs(&presets(&[("usb_c", 26), ("dp1", 15)]), 2000);
    assert_eq!(rows(&table), vec![(2000, "dp1".to_string(), 15), (2001, "usb_c".to_string(), 26)]);
    assert_eq!(table.base(), 2000);
    assert!(!table.is_empty());
    let (name, value) = table.get(2000).unwrap();
    assert_eq!((name.as_str(), value), ("dp1", 15));
    let (name, value) = table.get(2001).unwrap();
    assert_eq!((name.as_str(), value), ("usb_c", 26));
    assert!(table.get(1999).is_none());
    assert!(table.get(2002).is_none());
    assert!(table.get(0).is_none());
    assert!(table.get(65535).is_none());
    assert_eq!(rows(&table.clone()), rows(&table));
}

#[test]
fn inputs_table_is_the_same_for_the_same_presets() {
    let one = presets(&[("hdmi2", 18), ("dp1", 15), ("usb_c", 26), ("hdmi1", 17), ("dp2", 16)]);
    let other = presets(&[("dp2", 16), ("hdmi1", 17), ("usb_c", 1), ("dp1", 15), ("hdmi2", 18), ("usb_c", 26)]);
    let expected = vec![
        (CMD_BASE_INPUT, "dp1".to_string(), 15),
        (CMD_BASE_INPUT + 1, "dp2".to_string(), 16),
        (CMD_BASE_INPUT + 2, "hdmi1".to_string(), 17),
        (CMD_BASE_INPUT + 3, "hdmi2".to_string(), 18),
        (CMD_BASE_INPUT + 4, "usb_c".to_string(), 26),
    ];
    assert_eq!(rows(&build_inputs(&one, CMD_BASE_INPUT)), expected);
    assert_eq!(rows(&build_inputs(&other, CMD_BASE_INPUT)), expected);
    assert_eq!(rows(&build_inputs(&one, CMD_BASE_INPUT)), expected);
}

#[test]
fn inputs_table_defaults() {
    let expected = vec![(2000, "dp1".to_string(), 15), (2001, "usb_c".to_string(), 26)];
    assert_eq!(rows(&build_inputs(&InputPresets::new(), 2000)), expected);
    assert_eq!(rows(&default_inputs(2000)), expected);
    assert_eq!(
        rows(&default_inputs(65534)),
        vec![(65534, "dp1".to_string(), 15), (65535, "usb_c".to_string(), 26)]
    );
    assert_eq!(rows(&default_inputs(0)), vec![(0, "dp1".to_string(), 15), (1, "usb_c".to_string(), 26)]);
    assert_eq!(rows(&build_inputs(&presets(&[("x", 1)]), 4999)), vec![(4999, "x".to_string(), 1)]);
    assert_eq!(rows(&build_inputs(&presets(&[("x", 1)]), 65535)), vec![(65535, "x".to_string(), 1)]);
}

#[test]
fn decode_inputs_and_actions() {
    let table = build_inputs(&presets(&[("dp1", 15), ("usb_c", 26)]), CMD_BASE_INPUT);
    assert_eq!(decode(2000, &table), Some(Command::Input(15)));
    assert_eq!(decode(2001, &table), Some(Command::Input(26)));
    assert_eq!(decode(5001, &table), Some(Command::Quit));
    assert_eq!(decode(9999, &table), None);
    assert_eq!(decode(CMD_RELOAD, &table), Some(Command::Reload));
    assert_eq!(decode(CMD_QUIT, &table), Some(Command::Quit));
    assert_eq!(decode(CMD_TOGGLE_STARTUP, &table), Some(Command::ToggleStartup));
    assert_eq!(decode(CMD_EDIT_CONFIG, &table), Some(Command::EditConfig));
    assert_eq!(decode(CMD_OPEN_CONFIG_FOLDER, &table), Some(Command::OpenConfigFolder));
    assert_eq!(decode(5000, &table), Some(Command::Reload));
    assert_eq!(decode(5002, &table), Some(Command::ToggleStartup));
    assert_eq!(decode(5003, &table), Some(Command::EditConfig));
    assert_eq!(decode(5004, &table), Some(Command::OpenConfigFolder));
    for id in [0, 1, 1999, 2002, 4999, 5005, 65535] {
        assert_eq!(decode(id, &table), None, "id {id}");
    }
}

#[test]
fn decode_with_a_table_beyond_the_actions() {
    let table = build_inputs(&presets(&[("a", 1), ("b", 2)]), 5005);
    assert_eq!(decode(5005, &table), Some(Command::Input(1)));
    assert_eq!(decode(5006, &table), Some(Command::Input(2)));
    assert_eq!(decode(5004, &table), Some(Command::OpenConfigFolder));
    assert_eq!(decode(5007, &table), None);
}

#[test]
fn pretty_labels() {
    assert_eq!(pretty_input_label("dp1"), "DisplayPort 1");
    assert_eq!(pretty_input_label("dp2"), "DisplayPort 2");
    assert_eq!(pretty_input_label("usb_c"), "USB-C");
    assert_eq!(pretty_input_label("usbc"), "USB-C");
    assert_eq!(pretty_input_label("hdmi1"), "HDMI 1");
    assert_eq!(pretty_input_label("hdmi2"), "HDMI 2");
    assert_eq!(pretty_input_label("DP1"), "DP1");
    assert_eq!(pretty_input_label("dp3"), "dp3");
    assert_eq!(pretty_input_label(""), "");
    assert_eq!(pretty_input_label("dp1 "), "dp1 ");
}

#[test]
fn startup_preference_is_written_and_stands() {
    let written = Cell::new(None);
    let out = apply_startup_pref(
        Some(true),
        |enabled| {
            written.set(Some(enabled));
            Ok(())
        },
        || -> Result<bool, String> { panic!("not read where a preference is written") },
    );
    assert_eq!(out, (true, None));
    assert_eq!(written.get(), Some(true));
    let out = apply_startup_pref(
        Some(false),
        |_enabled| Err("denied".to_string()),
        || -> Result<bool, String> { panic!("not read where a preference is written") },
    );
    assert_eq!(out, (false, Some("denied".to_string())));
    let out = apply_startup_pref(
        Some(true),
        |_enabled| Err("denied".to_string()),
        || -> Result<bool, String> { Ok(false) },
    );
    assert_eq!(out, (true, Some("denied".to_string())));
}

#[test]
fn startup_state_is_read_without_a_preference() {
    for state in [true, false] {
        let out = apply_startup_pref(
            None,
            |_enabled| -> Result<(), String> { panic!("nothing is written without a preference") },
            || Ok(state),
        );
        assert_eq!(out, (state, None));
    }
    let out = apply_startup_pref(
        None,
        |_enabled| -> Result<(), String> { panic!("nothing is written without a preference") },
        || Err("no registry".to_string()),
    );
    assert_eq!(out, (false, Some("no registry".to_string())));
}

#[test]
fn sync_startup_names_what_was_being_done() {
    let startup = FakeStartup::new(true);
    assert_eq!(sync_startup(None, &startup), (true, None));
    assert_eq!(sync_startup(Some(false), &startup), (false, None));
    assert!(!startup.enabled.get());
    startup.fail_write.set(true);
    assert_eq!(sync_startup(Some(true), &startup), (true, Some("update startup setting".to_string())));
    startup.fail_read.set(true);
    assert_eq!(sync_startup(None, &startup), (false, Some("read startup setting".to_string())));
    assert_eq!(*startup.writes.borrow(), vec![false, true]);
    assert_eq!(startup.reads.get(), 2);
}

fn menu_rows(menu: &MenuSpec) -> Vec<String> {
    menu.items
        .iter()
        .map(|item| match item {
            MenuItem::Header(text) => format!("# {text}"),
            MenuItem::Separator => "---".to_string(),
            MenuItem::Action { id, title, checked, enabled } => {
                format!("{id} {title} checked={checked} enabled={enabled}")
            }
        })
        .collect()
}

#[test]
fn menu_spec_new_keeps_the_items() {
    let menu = MenuSpec::new(vec![MenuItem::Separator, MenuItem::Header("H".to_string())]);
    assert_eq!(menu_rows(&menu), vec!["---", "# H"]);
    assert!(MenuSpec::new(Vec::new()).items.is_empty());
}

#[test]
fn menu_lists_inputs_then_actions() {
    let startup = FakeStartup::new(true);
    let cfg = config(None, &[("usb_c", 26), ("dp1", 15), ("custom", 65535), ("hdmi1", 0)]);
    let model = TrayModel::new(FakeBackend::new(), Ok(Some(cfg)), &startup);
    assert_eq!(
        menu_rows(&model.menu_spec()),
        vec![
            "# Inputs",
            "2000 custom (65535) checked=false enabled=true",
            "2001 DisplayPort 1 (15) checked=false enabled=true",
            "2002 HDMI 1 (0) checked=false enabled=true",
            "2003 USB-C (26) checked=false enabled=true",
            "---",
            "# Actions",
            "5002 Start at login checked=true enabled=true",
            "5003 Edit config checked=false enabled=true",
            "5004 Open config folder checked=false enabled=true",
            "5000 Reload config checked=false enabled=true",
            "5001 Quit checked=false enabled=true",
        ]
    );
}

#[test]
fn menu_without_presets_shows_the_defaults() {
    let startup = FakeStartup::new(false);
    let model = TrayModel::new(FakeBackend::new(), Ok(None), &startup);
    assert_eq!(
        menu_rows(&model.menu_spec()),
        vec![
            "# Inputs",
            "2000 DisplayPort 1 (15) checked=false enabled=true",
            "2001 USB-C (26) checked=false enabled=true",
            "---",
            "# Actions",
            "5002 Start at login checked=false enabled=true",
            "5003 Edit config checked=false enabled=true",
            "5004 Open config folder checked=false enabled=true",
            "5000 Reload config checked=false enabled=true",
            "5001 Quit checked=false enabled=true",
        ]
    );
    // every entry of the menu decodes to what it stands for
    let menu = model.menu_spec();
    for item in &menu.items {
        if let MenuItem::Action { id, .. } = item {
            assert!(decode(*id, model.inputs()).is_some());
        }
    }
}

#[test]
fn new_reads_the_startup_state_without_a_preference() {
    let startup = FakeStartup::new(true);
    let model = TrayModel::new(FakeBackend::new(), Ok(Some(config(None, &[("dp1", 15)]))), &startup);
    assert!(model.start_enabled());
    assert_eq!(model.start_pref(), None);
    assert_eq!(model.last_error(), None);
    assert_eq!(model.display_selector(), "1");
    assert_eq!(rows(model.inputs()), vec![(2000, "dp1".to_string(), 15)]);
    assert!(startup.writes.borrow().is_empty());
    assert_eq!(startup.reads.get(), 1);
}

#[test]
fn new_enforces_a_written_preference() {
    let startup = FakeStartup::new(true);
    let model = TrayModel::new(FakeBackend::new(), Ok(Some(config(Some(false), &[]))), &startup);
    assert!(!model.start_enabled());
    assert_eq!(model.start_pref(), Some(false));
    assert_eq!(*startup.writes.borrow(), vec![false]);
    assert_eq!(startup.reads.get(), 0);
    assert!(!startup.enabled.get());
    assert_eq!(model.last_error(), None);

    let startup = FakeStartup::new(false);
    startup.fail_write.set(true);
    let model = TrayModel::new(FakeBackend::new(), Ok(Some(config(Some(true), &[]))), &startup);
    assert!(model.start_enabled());
    assert_eq!(model.last_error(), Some("update startup setting"));
}

#[test]
fn new_survives_a_config_that_cannot_be_read() {
    let startup = FakeStartup::new(true);
    let backend = FakeBackend::new();
    let list_calls = backend.list_calls.clone();
    let model = TrayModel::new(backend, Err("parsing /tmp/monitorctl.json".to_string()), &startup);
    assert_eq!(model.last_error(), Some("parsing /tmp/monitorctl.json"));
    assert_eq!(model.display_selector(), "1");
    assert_eq!(
        rows(model.inputs()),
        vec![(2000, "dp1".to_string(), 15), (2001, "usb_c".to_string(), 26)]
    );
    assert_eq!(model.start_pref(), None);
    assert!(model.start_enabled());
    assert_eq!(list_calls.get(), 0);
}

#[test]
fn new_survives_a_failed_enumeration() {
    let startup = FakeStartup::new(false);
    startup.fail_read.set(true);
    let backend = FakeBackend::new();
    backend.fail_list.set(true);
    let cfg = Config {
        start_with_windows: None,
        default_display: None,
        inputs: presets(&[("dp1", 15)]),
        monitors: vec![MonitorConfig {
            match_rule: MonitorMatch { contains: Some("xg27".to_string()), index: None },
            display: None,
            inputs: presets(&[("usb_c", 26)]),
        }],
    };
    let model = TrayModel::new(backend, Ok(Some(cfg)), &startup);
    // the failure of loading is shown before the one of the startup setting
    assert_eq!(model.last_error(), Some("running m1ddc display list"));
    assert_eq!(model.display_selector(), "1");
    assert_eq!(rows(model.inputs()), vec![(2000, "dp1".to_string(), 15)]);
    assert!(!model.start_enabled());
}

#[test]
fn load_resolves_against_the_displays_found() {
    let backend = FakeBackend::new();
    let cfg = Config {
        start_with_windows: Some(true),
        default_display: None,
        inputs: presets(&[("dp1", 15)]),
        monitors: vec![MonitorConfig {
            match_rule: MonitorMatch { contains: Some("xg27".to_string()), index: None },
            display: None,
            inputs: presets(&[("usb_c", 26)]),
        }],
    };
    let loaded = load_display_and_inputs(&backend, Ok(Some(cfg)));
    assert_eq!(loaded.display_selector, "uuid:AB-12");
    assert_eq!(
        rows(&loaded.inputs),
        vec![(2000, "dp1".to_string(), 15), (2001, "usb_c".to_string(), 26)]
    );
    assert_eq!(loaded.start_pref, Some(true));
    assert_eq!(loaded.load_error, None);
    assert_eq!(backend.list_calls.get(), 1);
}

#[test]
fn load_lists_as_many_presets_as_there_are_ids() {
    let backend = FakeBackend::new();
    let mut inputs = InputPresets::new();
    for i in 0..3000u16 {
        inputs.insert(&format!("p{i:04}"), i);
    }
    let cfg = Config { start_with_windows: None, default_display: None, inputs: inputs.clone(), monitors: Vec::new() };
    let loaded = load_display_and_inputs(&backend, Ok(Some(cfg)));
    assert_eq!(loaded.load_error, None);
    assert_eq!(loaded.inputs.len(), 3000);
    assert_eq!(loaded.inputs.id_at(2999), 4999);
    assert_eq!(decode(4999, &loaded.inputs), Some(Command::Input(2999)));
    assert_eq!(decode(5000, &loaded.inputs), Some(Command::Reload));
    inputs.insert("q", 1);
    inputs.insert("a", 2);
    let cfg = Config { start_with_windows: None, default_display: None, inputs, monitors: Vec::new() };
    let loaded = load_display_and_inputs(&backend, Ok(Some(cfg)));
    assert_eq!(loaded.load_error, None);
    assert_eq!(loaded.inputs.len(), 3000);
    assert_eq!(loaded.inputs.name_at(0), "a");
    assert_eq!(loaded.inputs.name_at(2999), "p2998");
    assert_eq!(decode(2000, &loaded.inputs), Some(Command::Input(2)));
    assert_eq!(decode(4999, &loaded.inputs), Some(Command::Input(2998)));
    for id in 5000..=5004 {
        assert!(!matches!(decode(id, &loaded.inputs), Some(Command::Input(_)) | None));
    }
    assert_eq!(decode(5005, &loaded.inputs), None);
}

#[test]
fn tables_keep_clear_of_the_action_ids() {
    let mut many = InputPresets::new();
    for i in 0..40u16 {
        many.insert(&format!("p{i:02}"), i);
    }
    for base in [0u16, 1999, 2000, 4960, 4990, 4999, 5000, 5001, 5004, 5005, 65500, 65534, 65535] {
        for presets in [InputPresets::new(), presets(&[("x", 1)]), many.clone()] {
            let table = build_inputs(&presets, base);
            let room: usize = if base <= 5000 {
                5000 - base as usize
            } else if base <= 5004 {
                0
            } else {
                65536 - base as usize
            };
            let wanted = if presets.is_empty() { 2 } else { presets.len() };
            assert_eq!(table.len(), wanted.min(room), "base {base}");
            assert_eq!(table.base(), base);
            for i in 0..table.len() {
                let id = table.id_at(i);
                assert_eq!(id as usize, base as usize + i);
                assert!(!(5000..=5004).contains(&id));
                assert_eq!(decode(id, &table), Some(Command::Input(table.value_at(i))));
                if !presets.is_empty() {
                    assert_eq!(table.name_at(i), presets.name_at(i));
                    assert_eq!(table.value_at(i), presets.value_at(i));
                }
            }
            assert_eq!(decode(5000, &table), Some(Command::Reload));
            assert_eq!(decode(5004, &table), Some(Command::OpenConfigFolder));
        }
    }
    assert_eq!(rows(&default_inputs(4999)), vec![(4999, "dp1".to_string(), 15)]);
    assert!(default_inputs(5000).is_empty());
    assert!(default_inputs(5003).is_empty());
    assert_eq!(rows(&default_inputs(65535)), vec![(65535, "dp1".to_string(), 15)]);
}

#[test]
fn tables_do_not_depend_on_the_order_of_insertion() {
    let names = ["usb_c", "dp1", "hdmi2", "dp2", "hdmi1", "x", ""];
    let mut forward = InputPresets::new();
    for (i, name) in names.iter().enumerate() {
        forward.insert(name, i as u16);
    }
    let mut backward = InputPresets::new();
    for (i, name) in names.iter().enumerate().rev() {
        backward.insert(name, 999);
        backward.insert(name, i as u16);
    }
    assert_eq!(rows(&build_inputs(&forward, 2000)), rows(&build_inputs(&backward, 2000)));
    assert_eq!(rows(&build_inputs(&forward, 4997)), rows(&build_inputs(&backward, 4997)));
    assert_eq!(build_inputs(&forward, 4997).len(), 3);
}

#[test]
fn input_goes_to_the_backend_and_clears_the_error() {
    let startup = FakeStartup::new(false);
    let backend = FakeBackend::new();
    let calls = backend.set_calls.clone();
    let mut model = TrayModel::new(backend, Err("unreadable".to_string()), &startup);
    assert_eq!(model.last_error(), Some("unreadable"));
    let update = model.handle(Command::Input(26), &startup);
    assert_eq!(plain(&update), (false, true, false, None, None));
    assert_eq!(model.last_error(), None);
    assert_eq!(*calls.borrow(), vec![("1".to_string(), 26)]);
}

#[test]
fn failed_input_changes_nothing_but_the_error() {
    let startup = FakeStartup::new(true);
    let backend = FakeBackend::new();
    backend.fail_set.set(true);
    let calls = backend.set_calls.clone();
    let cfg = Config {
        start_with_windows: None,
        default_display: Some("uuid:AB-12".to_string()),
        inputs: presets(&[("dp1", 15), ("hdmi1", 17)]),
        monitors: Vec::new(),
    };
    let mut model = TrayModel::new(backend, Ok(Some(cfg)), &startup);
    let before = rows(model.inputs());
    let update = model.handle(Command::Input(17), &startup);
    assert_eq!(plain(&update), (false, true, false, None, None));
    assert_eq!(model.display_selector(), "uuid:AB-12");
    assert_eq!(rows(model.inputs()), before);
    assert!(model.start_enabled());
    assert_eq!(model.last_error(), Some("set input 17 on 'uuid:AB-12'"));
    assert_eq!(*calls.borrow(), vec![("uuid:AB-12".to_string(), 17)]);
    let update = model.handle(Command::Input(65535), &startup);
    assert_eq!(plain(&update), (false, true, false, None, None));
    assert_eq!(model.last_error(), Some("set input 65535 on 'uuid:AB-12'"));
}

#[test]
fn toggle_twice_returns_to_the_start() {
    for start in [false, true] {
        let startup = FakeStartup::new(start);
        let mut model = TrayModel::new(FakeBackend::new(), Ok(None), &startup);
        assert_eq!(model.start_enabled(), start);
        let mut persisted = None;
        for round in 0..2 {
            let update = model.handle(Command::ToggleStartup, &startup);
            let next = match update.pending {
                Some(FileRequest::StoreStartup(next)) => next,
                other => panic!("round {round}: {other:?}"),
            };
            assert_eq!(plain(&update), (false, false, false, None, Some(FileRequest::StoreStartup(next))));
            // nothing changes before the preference is written down
            assert_eq!(model.start_enabled(), !next);
            persisted = Some(next);
            let update = model.startup_persisted(Ok(()));
            assert_eq!(plain(&update), (true, true, false, None, None));
            assert_eq!(model.start_enabled(), next);
            assert_eq!(startup.enabled.get(), next);
            assert_eq!(model.last_error(), None);
        }
        assert_eq!(model.start_enabled(), start);
        assert_eq!(startup.enabled.get(), start);
        assert_eq!(persisted, Some(start));
        assert_eq!(*startup.writes.borrow(), vec![!start, start]);
    }
}

#[test]
fn toggle_that_the_system_refuses_changes_nothing() {
    let startup = FakeStartup::new(false);
    let mut model = TrayModel::new(FakeBackend::new(), Ok(None), &startup);
    startup.fail_write.set(true);
    let update = model.handle(Command::ToggleStartup, &startup);
    assert_eq!(plain(&update), (false, true, false, None, None));
    assert!(!model.start_enabled());
    assert_eq!(model.last_error(), Some("update startup setting"));
    assert_eq!(*startup.writes.borrow(), vec![true]);
}

#[test]
fn toggle_that_cannot_be_written_down_changes_nothing() {
    let startup = FakeStartup::new(false);
    let mut model = TrayModel::new(FakeBackend::new(), Ok(None), &startup);
    let update = model.handle(Command::ToggleStartup, &startup);
    assert_eq!(update.pending, Some(FileRequest::StoreStartup(true)));
    let update = model.startup_persisted(Err("disk full".to_string()));
    assert_eq!(plain(&update), (false, true, false, None, None));
    assert!(!model.start_enabled());
    assert_eq!(model.last_error(), Some("update config"));
}

#[test]
fn reload_asks_for_the_file_then_loads_anew() {
    let startup = FakeStartup::new(false);
    let mut model = TrayModel::new(FakeBackend::new(), Ok(None), &startup);
    let update = model.handle(Command::Reload, &startup);
    assert_eq!(plain(&update), (false, false, false, None, Some(FileRequest::Load)));
    assert_eq!(model.display_selector(), "1");
    let cfg = Config {
        start_with_windows: Some(true),
        default_display: Some("2".to_string()),
        inputs: presets(&[("hdmi2", 18)]),
        monitors: Vec::new(),
    };
    let update = model.reload_config(Ok(Some(cfg)), &startup);
    assert_eq!(plain(&update), (true, true, false, None, None));
    assert_eq!(model.display_selector(), "2");
    assert_eq!(rows(model.inputs()), vec![(2000, "hdmi2".to_string(), 18)]);
    assert_eq!(model.start_pref(), Some(true));
    assert!(model.start_enabled());
    assert!(startup.enabled.get());
    assert_eq!(model.last_error(), None);
    let update = model.reload_config(Err("reading config /x".to_string()), &startup);
    assert_eq!(plain(&update), (true, true, false, None, None));
    assert_eq!(model.last_error(), Some("reading config /x"));
    assert_eq!(model.display_selector(), "1");
    assert_eq!(model.start_pref(), None);
    assert!(model.start_enabled());
}

#[test]
fn edit_and_open_hand_out_a_path() {
    let startup = FakeStartup::new(false);
    let mut model = TrayModel::new(FakeBackend::new(), Ok(None), &startup);
    let update = model.handle(Command::EditConfig, &startup);
    assert_eq!(plain(&update), (false, false, false, None, Some(FileRequest::EnsureConfigFile)));
    let update = model.edit_config(Ok(PathBuf::from("/home/u/.config/monitorctl/config.json")));
    assert_eq!(
        plain(&update),
        (false, false, false, Some(PathBuf::from("/home/u/.config/monitorctl/config.json")), None)
    );
    assert_eq!(model.last_error(), None);
    let update = model.edit_config(Err("permission denied".to_string()));
    assert_eq!(plain(&update), (false, true, false, None, None));
    assert_eq!(model.last_error(), Some("ensure config exists"));

    let update = model.handle(Command::OpenConfigFolder, &startup);
    assert_eq!(plain(&update), (false, false, false, None, Some(FileRequest::LocateConfigFolder)));
    assert_eq!(model.last_error(), Some("ensure config exists"));
    let update = model.open_config_folder(FolderLookup::Found(PathBuf::from("/home/u/.config/monitorctl")));
    assert_eq!(plain(&update), (false, false, false, Some(PathBuf::from("/home/u/.config/monitorctl")), None));
    let update = model.open_config_folder(FolderLookup::NoConfigPath);
    assert_eq!(plain(&update), (false, true, false, None, None));
    assert_eq!(model.last_error(), Some("No config path available"));
    let update = model.open_config_folder(FolderLookup::NoParent);
    assert_eq!(plain(&update), (false, true, false, None, None));
    assert_eq!(model.last_error(), Some("No parent directory for config path"));
}

#[test]
fn quit_only_says_so() {
    let startup = FakeStartup::new(true);
    let backend = FakeBackend::new();
    let calls = backend.set_calls.clone();
    let mut model = TrayModel::new(backend, Err("bad".to_string()), &startup);
    let update = model.handle(Command::Quit, &startup);
    assert_eq!(plain(&update), (false, false, true, None, None));
    assert_eq!(model.last_error(), Some("bad"));
    assert!(calls.borrow().is_empty());
    assert!(startup.writes.borrow().is_empty());
}

#[test]
fn note_error_asks_for_the_tooltip() {
    let startup = FakeStartup::new(true);
    let mut model = TrayModel::new(FakeBackend::new(), Ok(None), &startup);
    let update = model.note_error("something".to_string());
    assert_eq!(plain(&update), (false, true, false, None, None));
    assert_eq!(model.last_error(), Some("something"));
    assert_eq!(model.input_error(7), "set input 7 on '1'");
    let update = model.input_answered(7, Ok(()));
    assert_eq!(plain(&update), (false, true, false, None, None));
    assert_eq!(model.last_error(), None);
    let update = model.toggle_answered(Ok(()));
    assert_eq!(update.pending, Some(FileRequest::StoreStartup(false)));
    let update = model.set_input(3);
    assert_eq!(plain(&update), (false, true, false, None, None));
    let update = model.toggle_startup(&startup);
    assert_eq!(update.pending, Some(FileRequest::StoreStartup(false)));
}

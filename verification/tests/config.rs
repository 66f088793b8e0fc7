use monitorctl::config::document::{default_config_text, patch_start_with_windows, DocumentError};
use monitorctl::config::path::{resolve_config_path, ConfigPlace};
use monitorctl::config::presets::InputPresets;
use monitorctl::config::{
    match_display, parse_input_value, resolve, selector_for_display, Config, MonitorConfig,
    MonitorMatch, ResolvedConfig,
};
use monitorctl::platform::DisplayInfo;

fn presets(items: &[(&str, u16)]) -> InputPresets {
    let mut p = InputPresets::new();
    for (name, value) in items {
        p.insert(name, *value);
    }
    p
}

fn listed(p: &InputPresets) -> Vec<(String, u16)> {
    (0..p.len()).map(|i| (p.name_at(i).clone(), p.value_at(i))).collect()
}

fn display(index: u32, name: Option<&str>, uuid: Option<&str>) -> DisplayInfo {
    DisplayInfo {
        index,
        product_name: name.map(|s| s.to_string()),
        system_uuid: uuid.map(|s| s.to_string()),
    }
}

fn rule(contains: Option<&str>, index: Option<u32>, display: Option<&str>, inputs: &[(&str, u16)]) -> MonitorConfig {
    MonitorConfig {
        match_rule: MonitorMatch { contains: contains.map(|s| s.to_string()), index },
        display: display.map(|s| s.to_string()),
        inputs: presets(inputs),
    }
}

fn config(default_display: Option<&str>, inputs: &[(&str, u16)], monitors: Vec<MonitorConfig>) -> Config {
    Config {
        start_with_windows: None,
        default_display: default_display.map(|s| s.to_string()),
        inputs: presets(inputs),
        monitors,
    }
}

#[test]
fn presets_keep_one_value_for_a_name() {
    let mut p = InputPresets::new();
    assert!(p.is_empty());
    assert_eq!(p.len(), 0);
    p.insert("usb_c", 26);
    p.insert("dp1", 15);
    p.insert("hdmi1", 17);
    p.insert("dp1", 16);
    assert_eq!(p.len(), 3);
    assert!(!p.is_empty());
    assert_eq!(p.get("dp1"), Some(16));
    assert_eq!(p.get("usb_c"), Some(26));
    assert_eq!(p.get("dp"), None);
    assert_eq!(p.get(""), None);
    assert_eq!(
        listed(&p),
        vec![("dp1".to_string(), 16), ("hdmi1".to_string(), 17), ("usb_c".to_string(), 26)]
    );
}

#[test]
fn presets_are_ordered_by_code_point() {
    let p = presets(&[("b", 1), ("a", 2), ("B", 3), ("ab", 4), ("", 5), ("\u{e9}", 6), ("z", 7)]);
    let names: Vec<String> = listed(&p).into_iter().map(|(n, _)| n).collect();
    assert_eq!(names, vec!["", "B", "a", "ab", "b", "z", "\u{e9}"]);
    let mut by_std = names.clone();
    by_std.sort();
    assert_eq!(names, by_std);
}

#[test]
fn presets_clone_and_merge() {
    let base = presets(&[("dp1", 15), ("usb_c", 26)]);
    let over = presets(&[("usb_c", 27), ("hdmi1", 17)]);
    let merged = base.merged(&over);
    assert_eq!(
        listed(&merged),
        vec![("dp1".to_string(), 15), ("hdmi1".to_string(), 17), ("usb_c".to_string(), 27)]
    );
    assert_eq!(listed(&base.clone()), listed(&base));
    assert_eq!(listed(&base.merged(&InputPresets::new())), listed(&base));
}

#[test]
fn resolve_without_config_is_first_display() {
    let r = resolve(None, &[], None);
    assert_eq!(r.display_selector, "1");
    assert!(r.inputs.is_empty());
    let r = resolve(None, &[display(2, Some("X"), None)], Some("uuid:ABC"));
    assert_eq!(r.display_selector, "uuid:ABC");
    assert!(r.inputs.is_empty());
}

#[test]
fn resolve_without_rules_is_first_display_unless_overridden() {
    let cfg = config(None, &[("dp1", 15)], Vec::new());
    let displays = [display(1, Some("XG27ACS"), Some("U-1")), display(2, None, None)];
    let r = resolve(Some(&cfg), &displays, None);
    assert_eq!(r.display_selector, "1");
    assert_eq!(listed(&r.inputs), vec![("dp1".to_string(), 15)]);
    let r = resolve(Some(&cfg), &displays, Some("2"));
    assert_eq!(r.display_selector, "2");
    assert_eq!(listed(&r.inputs), vec![("dp1".to_string(), 15)]);
}

#[test]
fn resolve_override_beats_default_and_rules() {
    let cfg = config(
        Some("uuid:DEFAULT"),
        &[("dp1", 15)],
        vec![rule(Some("xg27"), None, Some("3"), &[("dp1", 99)])],
    );
    let displays = [display(1, Some("XG27ACS"), None)];
    let r = resolve(Some(&cfg), &displays, Some("name:foo"));
    assert_eq!(r.display_selector, "name:foo");
    assert_eq!(listed(&r.inputs), vec![("dp1".to_string(), 15)]);
    let r = resolve(Some(&cfg), &displays, None);
    assert_eq!(r.display_selector, "uuid:DEFAULT");
    assert_eq!(listed(&r.inputs), vec![("dp1".to_string(), 15)]);
}

#[test]
fn resolve_first_matching_rule_wins() {
    let displays = [display(1, Some("Dell U2720Q"), Some("AAA")), display(2, Some("ASUS XG27ACS"), None)];
    let first = rule(Some("xg27"), None, None, &[("usb_c", 26), ("dp1", 15)]);
    let second = rule(Some("dell"), None, Some("7"), &[("dp1", 1)]);
    let never = rule(Some("nothing"), None, Some("9"), &[("dp1", 2)]);
    let cfg = config(None, &[("dp1", 3), ("hdmi1", 17)], vec![never.clone(), first.clone(), second.clone()]);
    let r = resolve(Some(&cfg), &displays, None);
    assert_eq!(r.display_selector, "2");
    assert_eq!(
        listed(&r.inputs),
        vec![("dp1".to_string(), 15), ("hdmi1".to_string(), 17), ("usb_c".to_string(), 26)]
    );
    let cfg = config(None, &[("dp1", 3), ("hdmi1", 17)], vec![second, first, never]);
    let r = resolve(Some(&cfg), &displays, None);
    assert_eq!(r.display_selector, "7");
    assert_eq!(listed(&r.inputs), vec![("dp1".to_string(), 1), ("hdmi1".to_string(), 17)]);
}

#[test]
fn resolve_no_rule_matches() {
    let displays = [display(1, Some("Dell"), None)];
    let cfg = config(None, &[("dp1", 3)], vec![rule(Some("asus"), None, Some("5"), &[("dp1", 9)]), rule(None, Some(2), None, &[])]);
    let r = resolve(Some(&cfg), &displays, None);
    assert_eq!(r.display_selector, "1");
    assert_eq!(listed(&r.inputs), vec![("dp1".to_string(), 3)]);
}

#[test]
fn rule_infers_uuid_then_index() {
    let displays = [display(4, Some("Dell"), None), display(12, Some("ASUS"), Some("37D8832A-2D66"))];
    let r = resolve(Some(&config(None, &[], vec![rule(Some("asus"), None, None, &[])])), &displays, None);
    assert_eq!(r.display_selector, "uuid:37D8832A-2D66");
    let r = resolve(Some(&config(None, &[], vec![rule(Some("dell"), None, None, &[])])), &displays, None);
    assert_eq!(r.display_selector, "4");
    assert_eq!(selector_for_display(&display(4294967295, None, None)), "4294967295");
    assert_eq!(selector_for_display(&display(0, None, None)), "0");
    assert_eq!(selector_for_display(&display(10, None, Some(""))), "uuid:");
}

#[test]
fn match_index_is_exact_and_comes_first() {
    let displays = [display(1, Some("ASUS"), None), display(2, Some("Dell"), None), display(2, Some("Second two"), None)];
    let (d, sel) = match_display(&rule(None, Some(2), None, &[]), &displays).unwrap();
    assert_eq!(d.product_name.as_deref(), Some("Dell"));
    assert_eq!(sel, "2");
    assert!(match_display(&rule(None, Some(3), None, &[]), &displays).is_none());
    assert!(match_display(&rule(None, Some(0), None, &[]), &displays).is_none());
    // the index is the whole test: the text is not looked at
    assert!(match_display(&rule(Some("asus"), Some(3), None, &[]), &displays).is_none());
    let (d, _) = match_display(&rule(Some("asus"), Some(2), None, &[]), &displays).unwrap();
    assert_eq!(d.product_name.as_deref(), Some("Dell"));
    assert!(match_display(&rule(None, None, None, &[]), &displays).is_none());
}

#[test]
fn match_contains_ignores_case_and_needs_a_name() {
    let displays = [display(1, None, Some("U")), display(2, Some(""), None), display(3, Some("ASUS xg27ACS"), None)];
    for needle in ["XG27", "xg27", "Xg27acs", "s x", "ASUS xg27ACS", ""] {
        let (d, _) = match_display(&rule(Some(needle), None, None, &[]), &displays).unwrap();
        assert_eq!(d.index, 3, "needle {needle:?}");
    }
    for needle in ["xg28", "asus  xg", "ASUS xg27ACS ", "\u{e4}"] {
        assert!(match_display(&rule(Some(needle), None, None, &[]), &displays).is_none());
    }
    let nameless = [display(1, None, None), display(2, Some(""), None)];
    for needle in ["", "a"] {
        assert!(match_display(&rule(Some(needle), None, None, &[]), &nameless).is_none());
    }
    // only ASCII letters are folded
    let umlaut = [display(1, Some("B\u{dc}RO"), None)];
    assert!(match_display(&rule(Some("b\u{fc}ro"), None, None, &[]), &umlaut).is_none());
    assert!(match_display(&rule(Some("b\u{dc}ro"), None, None, &[]), &umlaut).is_some());
}

fn resolved(items: &[(&str, u16)]) -> ResolvedConfig {
    ResolvedConfig { display_selector: "1".to_string(), inputs: presets(items) }
}

#[test]
fn input_value_number_comes_first() {
    let r = resolved(&[("26", 1), ("dp1", 15)]);
    assert_eq!(parse_input_value("26", &r).unwrap(), 26);
    assert_eq!(parse_input_value("0", &r).unwrap(), 0);
    assert_eq!(parse_input_value("65535", &r).unwrap(), 65535);
    assert_eq!(parse_input_value("+7", &r).unwrap(), 7);
    assert_eq!(parse_input_value("007", &r).unwrap(), 7);
    assert_eq!(parse_input_value("0000000000000000000000000065535", &r).unwrap(), 65535);
    assert_eq!(parse_input_value("dp1", &r).unwrap(), 15);
}

#[test]
fn input_value_that_is_no_number_is_a_name() {
    let r = resolved(&[("65536", 3), ("-1", 4), (" 5", 5), ("+", 6), ("", 7), ("1_0", 8), ("\u{663}", 9)]);
    assert_eq!(parse_input_value("65536", &r).unwrap(), 3);
    assert_eq!(parse_input_value("-1", &r).unwrap(), 4);
    assert_eq!(parse_input_value(" 5", &r).unwrap(), 5);
    assert_eq!(parse_input_value("+", &r).unwrap(), 6);
    assert_eq!(parse_input_value("", &r).unwrap(), 7);
    assert_eq!(parse_input_value("1_0", &r).unwrap(), 8);
    assert_eq!(parse_input_value("\u{663}", &r).unwrap(), 9);
    for text in ["65536", "-1", " 5", "+", "", "1_0", "5 ", "++5", "+-5", "0x10", "99999999999999999999"] {
        assert_eq!(text.parse::<u16>().ok(), parse_input_value(text, &resolved(&[])).ok());
    }
}

#[test]
fn input_value_unknown_lists_the_presets() {
    let r = resolved(&[("usb_c", 26), ("dp1", 15), ("hdmi1", 17)]);
    let e = parse_input_value("dp2", &r).unwrap_err();
    assert_eq!(e.value, "dp2");
    assert_eq!(e.known, vec!["dp1", "hdmi1", "usb_c"]);
    assert_eq!(
        e.message(),
        "Invalid input value 'dp2'. Expected a number or a configured preset name. Known presets: dp1, hdmi1, usb_c"
    );
    let e = parse_input_value("70000", &resolved(&[("one", 1)])).unwrap_err();
    assert_eq!(
        e.message(),
        "Invalid input value '70000'. Expected a number or a configured preset name. Known presets: one"
    );
    let e = parse_input_value("DP1", &resolved(&[])).unwrap_err();
    assert!(e.known.is_empty());
    assert_eq!(
        e.message(),
        "Invalid input value 'DP1'. Expected a number or a configured preset name. No input presets configured."
    );
}

fn place(p: Option<ConfigPlace>) -> Option<(String, Vec<String>)> {
    p.map(|p| {
        let kind = match &p {
            ConfigPlace::Override(_) => "override",
            ConfigPlace::WorkingDir => "cwd",
            ConfigPlace::AppData => "appdata",
            ConfigPlace::Home => "home",
        };
        (kind.to_string(), p.segments())
    })
}

#[test]
fn config_path_priority() {
    assert_eq!(
        place(resolve_config_path(Some("/etc/m.json"), true, true, true)),
        Some(("override".to_string(), vec!["/etc/m.json".to_string()]))
    );
    assert_eq!(
        place(resolve_config_path(Some("  x "), false, false, false)),
        Some(("override".to_string(), vec!["  x ".to_string()]))
    );
    for blank in [None, Some(""), Some("   "), Some("\t\n"), Some("\u{a0}\u{3000}")] {
        assert_eq!(
            place(resolve_config_path(blank, true, true, true)),
            Some(("cwd".to_string(), vec!["monitorctl.json".to_string()]))
        );
        assert_eq!(
            place(resolve_config_path(blank, false, true, true)),
            Some(("appdata".to_string(), vec!["monitorctl".to_string(), "config.json".to_string()]))
        );
        assert_eq!(
            place(resolve_config_path(blank, false, false, true)),
            Some((
                "home".to_string(),
                vec![".config".to_string(), "monitorctl".to_string(), "config.json".to_string()]
            ))
        );
        assert_eq!(place(resolve_config_path(blank, false, false, false)), None);
    }
    // a zero-width space is no white space
    assert!(matches!(
        resolve_config_path(Some("\u{200b}"), true, true, true),
        Some(ConfigPlace::Override(_))
    ));
}

#[test]
fn blank_agrees_with_trim() {
    for text in ["", " ", "\u{85}", "\u{1680}", "\u{2000}\u{200a}", "\u{2028}\u{2029}\u{202f}\u{205f}", "\u{180e}", "\u{feff}", "\u{b}\u{c}\r", "\u{1c}"] {
        let is_override = matches!(resolve_config_path(Some(text), false, false, false), Some(_));
        assert_eq!(is_override, !text.trim().is_empty(), "text {text:?}");
    }
}

#[test]
fn fresh_config_text() {
    let text = default_config_text();
    assert_eq!(text, "{\n  \"inputs\": {},\n  \"start_with_windows\": false\n}\n");
}

#[test]
fn patch_writes_the_startup_preference() {
    assert_eq!(patch_start_with_windows(None, true).unwrap(), "{\n  \"start_with_windows\": true\n}\n");
    assert_eq!(patch_start_with_windows(None, false).unwrap(), "{\n  \"start_with_windows\": false\n}\n");
    assert_eq!(
        patch_start_with_windows(Some(b"{}"), true).unwrap(),
        "{\n  \"start_with_windows\": true\n}\n"
    );
    let existing = b"{\"start_with_windows\": false, \"inputs\": {\"dp1\": 15}, \"monitors\": [], \"extra\": null}";
    let text = patch_start_with_windows(Some(existing), true).unwrap();
    assert_eq!(
        text,
        "{\n  \"extra\": null,\n  \"inputs\": {\n    \"dp1\": 15\n  },\n  \"monitors\": [],\n  \"start_with_windows\": true\n}\n"
    );
    let again = patch_start_with_windows(Some(text.as_bytes()), false).unwrap();
    let value: serde_json::Value = serde_json::from_str(&again).unwrap();
    assert_eq!(value.get("start_with_windows").and_then(|v| v.as_bool()), Some(false));
    assert_eq!(value.get("inputs").and_then(|v| v.get("dp1")).and_then(|v| v.as_u64()), Some(15));
    assert!(again.ends_with("}\n"));
}

#[test]
fn patch_replaces_a_value_of_any_kind() {
    let text = patch_start_with_windows(Some(b"{\"start_with_windows\": \"yes\"}"), false).unwrap();
    assert_eq!(text, "{\n  \"start_with_windows\": false\n}\n");
}

#[test]
fn patch_refuses_what_is_no_object() {
    assert_eq!(patch_start_with_windows(Some(b"[1, 2]"), true), Err(DocumentError::NotAnObject));
    assert_eq!(patch_start_with_windows(Some(b"null"), true), Err(DocumentError::NotAnObject));
    assert_eq!(patch_start_with_windows(Some(b"\"text\""), true), Err(DocumentError::NotAnObject));
    assert_eq!(patch_start_with_windows(Some(b"{"), true), Err(DocumentError::Parse));
    assert_eq!(patch_start_with_windows(Some(b""), true), Err(DocumentError::Parse));
    assert_eq!(patch_start_with_windows(Some(b"{} x"), true), Err(DocumentError::Parse));
    assert_eq!(patch_start_with_windows(Some(&[0xff, 0xfe]), true), Err(DocumentError::Parse));
}

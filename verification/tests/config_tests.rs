use kindle_button_mapper::config::{
    direction_named, get, key_from, parse_bool, parse_dpad_direction, parse_key, parse_trigger,
    trigger_named, Config, DeviceConfig, Key, LoadError, DEFAULT_CONFIG,
};
use kindle_button_mapper::mappings::{DpadDirection, DpadMap, Trigger, TriggerMap};
use kindle_button_mapper::outside::Section;

fn load_str(body: &str) -> Config {
    Config::load(body).expect("load test config")
}

#[test]
fn load_leaves_an_unmapped_device_unmapped() {
    // The worker decides on defaults from the opened node's capabilities;
    // load must not guess.
    let cfg = load_str("[device.pad]\nuniq = AA:BB:CC:DD:EE:FF\n");
    assert!(cfg.devices[0].is_unmapped());
}

#[test]
fn default_layout_covers_dpad_and_face_buttons() {
    let mut dev = DeviceConfig::new("pad".into());
    dev.apply_default_layout();
    assert!(!dev.is_unmapped());
    assert_eq!(dev.dpad_mappings.len(), 4);
    assert!(dev.dpad_mappings.get(DpadDirection::Left).unwrap().ends_with("key.sh KEY_LEFT"));
    assert!(dev.mappings[&Key::new(304).code()].ends_with("key.sh KEY_ENTER"));
    assert!(dev.mappings[&Key::new(311).code()].ends_with("key.sh page_next"));
}

#[test]
fn grab_is_only_explicit_when_the_file_says_so() {
    // The worker downgrades an implicit grab on anything that isn't a
    // gamepad, so the difference has to survive the parse.
    let cfg = load_str(
        "[device.pad]\nuniq = AA:BB:CC:DD:EE:FF\n\n[device.kbd]\nuniq = 11:22:33:44:55:66\ngrab = true\n",
    );
    let pad = cfg.devices.iter().find(|d| d.id == "pad").expect("pad");
    assert!(pad.grab && !pad.grab_explicit);
    let kbd = cfg.devices.iter().find(|d| d.id == "kbd").expect("kbd");
    assert!(kbd.grab && kbd.grab_explicit);
}

#[test]
fn passthrough_is_off_unless_asked_for() {
    let cfg = load_str(
        "[device.pad]\nuniq = AA:BB:CC:DD:EE:FF\n\n[device.kbd]\nuniq = 11:22:33:44:55:66\ngrab = true\npassthrough = true\n",
    );
    let pad = cfg.devices.iter().find(|d| d.id == "pad").expect("pad");
    assert!(!pad.passthrough);
    let kbd = cfg.devices.iter().find(|d| d.id == "kbd").expect("kbd");
    assert!(kbd.passthrough && kbd.grab && kbd.grab_explicit);
}

#[test]
fn one_hand_mapped_button_counts_as_mapped() {
    let cfg = load_str(
        "[device.pad]\nuniq = AA:BB:CC:DD:EE:FF\n\n[device.pad.buttons]\n304 = /mnt/us/mine.sh\n",
    );
    let dev = &cfg.devices[0];
    assert!(!dev.is_unmapped());
    assert!(dev.dpad_mappings.is_empty());
    assert_eq!(dev.mappings[&Key::new(304).code()], "/mnt/us/mine.sh");
}

#[test]
fn default_file_loads() {
    let cfg = load_str(DEFAULT_CONFIG);
    assert_eq!(cfg.debounce_ms, 0);
    assert_eq!(cfg.long_press_ms, 500);
    assert_eq!(cfg.repeat_ms, 100);
    assert!(cfg.log_buttons && cfg.keep_awake);
    assert!(cfg.devices.is_empty());
    assert!(DEFAULT_CONFIG.starts_with("# Kindle Button Mapper - default config\n# Edit via"));
}

#[test]
fn settings_have_defaults() {
    let plain = Config::default();
    for cfg in [load_str(""), load_str("[other]\na = 1\n"), plain] {
        assert_eq!(cfg.debounce_ms, 200);
        assert_eq!(cfg.long_press_ms, 500);
        assert_eq!(cfg.repeat_ms, 100);
        assert!(!cfg.log_buttons);
        assert!(cfg.keep_awake);
        assert_eq!(cfg.on_connect, None);
        assert_eq!(cfg.on_disconnect, None);
        assert!(cfg.devices.is_empty());
    }
}

#[test]
fn settings_are_read() {
    let cfg = load_str(
        "[Settings]\nDebounce_ms = 7\nlong_press_ms = soon\nrepeat_ms = -1\nlog_buttons = YES\nkeep_awake = no\non_connect = /mnt/us/hello.sh\non_disconnect =\n",
    );
    assert_eq!(cfg.debounce_ms, 7);
    assert_eq!(cfg.long_press_ms, 500);
    assert_eq!(cfg.repeat_ms, 100);
    assert!(cfg.log_buttons);
    assert!(!cfg.keep_awake);
    assert_eq!(cfg.on_connect.as_deref(), Some("/mnt/us/hello.sh"));
    assert_eq!(cfg.on_disconnect, None);
}

#[test]
fn every_part_of_a_device_is_read() {
    let cfg = load_str(
        "[device.pad.buttons]\n304 = a.sh\nkey_enter = b.sh\n0x131 = c.sh\nnot_a_key = d.sh\n\n\
         [device.pad.longpress]\n305 = l.sh\n\n\
         [device.pad.dpad]\nup = u.sh\nsideways = s.sh\n\n\
         [device.pad.dpad_longpress]\nright = r.sh\n\n\
         [device.pad.triggers]\nlt = t.sh\nright = v.sh\n\n\
         [device.pad.triggers_longpress]\nleft = w.sh\n\n\
         [device.pad.unknown]\nup = x.sh\n\n\
         [device.pad]\nname = Pad\ngrab = off\nkeyboard_layout =  us \n",
    );
    assert_eq!(cfg.devices.len(), 1);
    let dev = &cfg.devices[0];
    assert_eq!(dev.id, "pad");
    assert_eq!(dev.name.as_deref(), Some("Pad"));
    assert_eq!(dev.uniq, None);
    assert!(!dev.grab && dev.grab_explicit);
    assert_eq!(dev.keyboard_layout.as_deref(), Some("us"));
    assert_eq!(dev.mappings.len(), 3);
    assert_eq!(dev.mappings[&304], "a.sh");
    assert_eq!(dev.mappings[&28], "b.sh");
    assert_eq!(dev.mappings[&305], "c.sh");
    assert_eq!(dev.long_press_mappings.len(), 1);
    assert_eq!(dev.long_press_mappings[&305], "l.sh");
    assert_eq!(dev.dpad_mappings.len(), 1);
    assert_eq!(dev.dpad_mappings.get(DpadDirection::Up).unwrap(), "u.sh");
    assert_eq!(dev.dpad_longpress_mappings.get(DpadDirection::Right).unwrap(), "r.sh");
    assert_eq!(dev.trigger_mappings.get(Trigger::LT).unwrap(), "t.sh");
    assert_eq!(dev.trigger_mappings.get(Trigger::RT).unwrap(), "v.sh");
    assert_eq!(dev.trigger_longpress_mappings.get(Trigger::LT).unwrap(), "w.sh");
    assert_eq!(dev.trigger_longpress_mappings.get(Trigger::RT), None);
}

#[test]
fn later_binding_of_a_key_counts() {
    let cfg = load_str(
        "[device.pad]\nname = Pad\n[device.pad.buttons]\n304 = first.sh\n0x130 = second.sh\n305\n",
    );
    assert_eq!(cfg.devices[0].mappings.len(), 1);
    assert_eq!(cfg.devices[0].mappings[&304], "second.sh");
}

#[test]
fn devices_come_in_the_order_of_the_file() {
    let cfg = load_str(
        "[device.c.buttons]\n1 = x\n[device.b]\nname = B\n[device.a]\nuniq = A\n[device.c]\nname = C\n[device.d]\ngrab = no\n[devices.e]\nname = E\n",
    );
    let ids: Vec<&str> = cfg.devices.iter().map(|d| d.id.as_str()).collect();
    // Nothing says how to recognise d.
    assert_eq!(ids, vec!["c", "b", "a"]);
}

#[test]
fn old_format_is_refused() {
    for name in [
        "device", "buttons", "longpress", "dpad", "dpad_longpress", "triggers",
        "triggers_longpress",
    ] {
        let e = Config::load(&format!("[device.pad]\nname = Pad\n[{}]\na = 1\n", name));
        match e {
            Err(LoadError::OldFormat) => (),
            other => panic!("{:?}", other),
        }
    }
    assert_eq!(
        LoadError::OldFormat.message("/x.ini"),
        "/x.ini uses the old config format. Delete it and re-add your device via the Button Mapper app."
    );
}

#[test]
fn bad_lines_are_reported() {
    match Config::load("[settings\na = 1\n") {
        Err(LoadError::Read(why)) => {
            assert!(why.contains("closing bracket"));
            assert_eq!(
                LoadError::Read(why.clone()).message("/x.ini"),
                format!("Failed to load config: couldn't read /x.ini: {}", why)
            );
        }
        other => panic!("{:?}", other),
    }
    assert_eq!(
        LoadError::Create("no space".into()).message("/x.ini"),
        "Cannot create /x.ini: no space"
    );
}

#[test]
fn sections_as_a_list() {
    let sections = vec![
        Section {
            name: "device.pad.buttons".into(),
            entries: vec![
                ("1".into(), Some("a.sh".into())),
                ("2".into(), None),
                ("1".into(), Some("b.sh".into())),
            ],
        },
        Section {
            name: "device.pad".into(),
            entries: vec![("uniq".into(), Some("u".into())), ("name".into(), None)],
        },
        Section { name: "device.pad.buttons.more".into(), entries: vec![("3".into(), Some("c.sh".into()))] },
    ];
    let cfg = Config::from_sections(&sections).expect("config");
    assert_eq!(cfg.devices.len(), 1);
    assert_eq!(cfg.devices[0].uniq.as_deref(), Some("u"));
    assert_eq!(cfg.devices[0].name, None);
    assert_eq!(cfg.devices[0].mappings.len(), 2);
    assert_eq!(cfg.devices[0].mappings[&1], "b.sh");
    assert_eq!(cfg.devices[0].mappings[&3], "c.sh");
    assert_eq!(get(&sections[0].entries, "1"), Some("a.sh"));
    assert_eq!(get(&sections[0].entries, "2"), None);
    assert_eq!(get(&sections[0].entries, "4"), None);
}

#[test]
fn keys_are_read() {
    assert_eq!(parse_key("304"), Some(Key::new(304)));
    assert_eq!(parse_key("+304"), Some(Key::new(304)));
    assert_eq!(parse_key("65535"), Some(Key::new(65535)));
    assert_eq!(parse_key("65536"), None);
    assert_eq!(parse_key("0x130"), Some(Key::new(304)));
    assert_eq!(parse_key("0x+1F"), Some(Key::new(31)));
    assert_eq!(parse_key("0x10000"), None);
    assert_eq!(parse_key("0X130"), None);
    assert_eq!(parse_key("KEY_A"), Some(Key::new(30)));
    assert_eq!(parse_key("key_a"), Some(Key::new(30)));
    assert_eq!(parse_key("btn_south"), Some(Key::new(304)));
    assert_eq!(parse_key("KEY_HOME"), Some(Key::new(102)));
    assert_eq!(parse_key("KEY_FOOBAR"), None);
    assert_eq!(parse_key(""), None);
    assert_eq!(parse_key(" 1"), None);
    assert_eq!(parse_key("-1"), None);
}

#[test]
fn every_code_reads_back() {
    for code in 0..=u16::MAX {
        if code % 97 == 0 {
            assert_eq!(parse_key(&code.to_string()), Some(Key::new(code)));
            assert_eq!(parse_key(&format!("0x{:x}", code)), Some(Key::new(code)));
        }
    }
}

#[test]
fn directions_and_triggers_are_read() {
    assert_eq!(parse_dpad_direction("UP"), Some(DpadDirection::Up));
    assert_eq!(parse_dpad_direction("down"), Some(DpadDirection::Down));
    assert_eq!(parse_dpad_direction("Left"), Some(DpadDirection::Left));
    assert_eq!(parse_dpad_direction("right"), Some(DpadDirection::Right));
    assert_eq!(parse_dpad_direction("lt"), None);
    assert_eq!(direction_named("UP"), None);
    assert_eq!(parse_trigger("LT"), Some(Trigger::LT));
    assert_eq!(parse_trigger("left"), Some(Trigger::LT));
    assert_eq!(parse_trigger("Rt"), Some(Trigger::RT));
    assert_eq!(parse_trigger("RIGHT"), Some(Trigger::RT));
    assert_eq!(parse_trigger("up"), None);
    assert_eq!(trigger_named("LT"), None);
}

#[test]
fn switches_are_read() {
    for yes in ["true", "yes", "1", "on", " TRUE ", "Yes\t", "ON"] {
        assert!(parse_bool(yes));
    }
    for no in ["false", "no", "0", "off", "", "true x", "y"] {
        assert!(!parse_bool(no));
    }
}

#[test]
fn default_layout_keeps_what_is_bound() {
    let mut dev = DeviceConfig::for_test("pad");
    assert!(dev.is_unmapped());
    dev.mappings.insert(1, "mine.sh".into());
    dev.mappings.insert(304, "old.sh".into());
    dev.apply_default_layout();
    let once = dev.clone();
    dev.apply_default_layout();
    assert_eq!(dev.mappings, once.mappings);
    assert_eq!(dev.mappings.len(), 5);
    assert_eq!(dev.mappings[&1], "mine.sh");
    assert_eq!(
        dev.mappings[&304],
        "/mnt/us/kindle-button-mapper/scripts/key.sh KEY_ENTER"
    );
    assert_eq!(
        dev.mappings[&305],
        "/mnt/us/kindle-button-mapper/scripts/key.sh KEY_BACK"
    );
    assert!(dev.long_press_mappings.is_empty());
    assert!(dev.trigger_mappings.is_empty());
}

#[test]
fn small_maps() {
    let mut d = DpadMap::new();
    assert!(d.is_empty());
    assert_eq!(d.len(), 0);
    for dir in [
        DpadDirection::Up,
        DpadDirection::Down,
        DpadDirection::Left,
        DpadDirection::Right,
    ] {
        assert_eq!(d.get(dir), None);
        d.insert(dir, format!("{:?}", dir));
    }
    d.insert(DpadDirection::Up, "again".into());
    assert_eq!(d.len(), 4);
    assert_eq!(d.clone().get(DpadDirection::Up).unwrap(), "again");
    let mut t = TriggerMap::new();
    assert!(t.is_empty());
    t.insert(Trigger::RT, "r".into());
    assert_eq!(t.len(), 1);
    assert_eq!(t.clone().get(Trigger::RT).unwrap(), "r");
    assert_eq!(t.get(Trigger::LT), None);
}

#[test]
fn any_binding_counts_as_mapped() {
    for (part, entry, bound) in [
        ("buttons", "304 = a.sh", true),
        ("longpress", "key_enter = a.sh", true),
        ("dpad", "up = a.sh", true),
        ("dpad_longpress", "right = a.sh", true),
        ("triggers", "lt = a.sh", true),
        ("triggers_longpress", "right = a.sh", true),
        ("buttons", "not_a_key = a.sh", false),
        ("dpad", "lt = a.sh", false),
        ("triggers", "up = a.sh", false),
        ("buttons", "304", false),
        ("other", "304 = a.sh", false),
    ] {
        let cfg = load_str(&format!(
            "[device.pad]\nname = Pad\n[device.pad.{}]\n{}\n",
            part, entry
        ));
        assert_eq!(!cfg.devices[0].is_unmapped(), bound, "{} {}", part, entry);
    }
}

#[test]
fn later_binding_of_a_direction_or_trigger_counts() {
    let cfg = load_str(
        "[device.pad]\nname = Pad\n[device.pad.triggers]\nleft = first.sh\nrt = other.sh\nlt = second.sh\n",
    );
    let triggers = &cfg.devices[0].trigger_mappings;
    assert_eq!(triggers.get(Trigger::LT).map(String::as_str), Some("second.sh"));
    assert_eq!(triggers.get(Trigger::RT).map(String::as_str), Some("other.sh"));

    let entry = |k: &str, v: &str| (k.to_string(), Some(v.to_string()));
    let mut dev = DeviceConfig::for_test("pad");
    dev.update(
        &Some("dpad".to_string()),
        &vec![entry("up", "first.sh"), entry("UP", "second.sh")],
    );
    assert_eq!(dev.dpad_mappings.len(), 1);
    assert_eq!(
        dev.dpad_mappings.get(DpadDirection::Up).map(String::as_str),
        Some("second.sh")
    );
}

#[test]
fn keys_that_the_library_names_have_the_kernels_codes() {
    for (name, code) in [
        ("KEY_ENTER", 28),
        ("KEY_HOME", 102),
        ("KEY_UP", 103),
        ("KEY_LEFT", 105),
        ("KEY_RIGHT", 106),
        ("KEY_DOWN", 108),
        ("KEY_BACK", 158),
    ] {
        assert_eq!(parse_key(name), Some(Key::new(code)));
        assert_eq!(parse_key(&name.to_lowercase()), Some(Key::new(code)));
    }
}

#[test]
fn unbound_directions_and_triggers_keep_their_scripts() {
    let entry = |k: &str, v: &str| (k.to_string(), Some(v.to_string()));
    let mut dev = DeviceConfig::for_test("pad");
    dev.update(&Some("dpad".to_string()), &vec![entry("up", "a.sh"), entry("left", "b.sh")]);
    dev.update(&Some("dpad".to_string()), &vec![entry("left", "c.sh")]);
    dev.update(&Some("triggers".to_string()), &vec![entry("lt", "d.sh")]);
    dev.update(&Some("triggers".to_string()), &vec![entry("rt", "e.sh"), entry("up", "f.sh")]);
    assert_eq!(dev.dpad_mappings.get(DpadDirection::Up).map(String::as_str), Some("a.sh"));
    assert_eq!(dev.dpad_mappings.get(DpadDirection::Left).map(String::as_str), Some("c.sh"));
    assert_eq!(dev.trigger_mappings.get(Trigger::LT).map(String::as_str), Some("d.sh"));
    assert_eq!(dev.trigger_mappings.get(Trigger::RT).map(String::as_str), Some("e.sh"));
}

#[test]
fn sections_of_another_device_change_nothing() {
    let alone = load_str("[device.pad]\nname = Pad\n[device.pad.dpad]\nup = a.sh\n");
    let both = load_str(
        "[device.kbd]\nname = Kbd\ngrab = no\n[device.pad]\nname = Pad\n[device.kbd.dpad]\nup = b.sh\n[device.pad.dpad]\nup = a.sh\n",
    );
    assert_eq!(alone.devices.len(), 1);
    assert_eq!(both.devices.len(), 2);
    assert_eq!(format!("{:?}", alone.devices[0]), format!("{:?}", both.devices[1]));
}

#[test]
fn a_device_is_listed_where_its_own_section_identifies_it() {
    assert_eq!(load_str("[device.pad]\nuniq = AA\n").devices.len(), 1);
    assert_eq!(load_str("[device.pad]\ngrab = yes\n").devices.len(), 0);
    assert_eq!(load_str("[device.pad.dpad]\nname = Pad\n").devices.len(), 0);
}

#[test]
fn a_code_counts_before_the_named_key() {
    for (text, named, code) in [
        ("304", Some(1), Some(304)),
        ("+7", None, Some(7)),
        ("0x130", Some(1), Some(0x130)),
        ("65536", Some(1), Some(1)),
        ("0xfffff", None, None),
        ("key_enter", Some(28), Some(28)),
        ("key_enter", None, None),
        ("", Some(1), Some(1)),
    ] {
        assert_eq!(key_from(text, named), code.map(Key::new), "{}", text);
    }
}

#[test]
fn unknown_names_are_no_keys() {
    for name in ["not_a_key", "KEY", "KEY_FOOBAR", "btn_foobar", "enter", "0x", "-1"] {
        assert_eq!(parse_key(name), None, "{}", name);
    }
    assert_eq!(parse_key("btn_south"), Some(Key::new(304)));
}

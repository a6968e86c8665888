use kindle_button_mapper::action::{
    execute, injectable, is_event_name, koreader_event, native_key, plan, run, Dispatch, Move, Step,
};
use kindle_button_mapper::config::DeviceConfig;
use kindle_button_mapper::mappings::DpadDirection;
use kindle_button_mapper::vkeyboard::{inject, Injection, Injector, Pager};

#[test]
fn page_turns_are_planned() {
    assert_eq!(
        plan("/mnt/us/kindle-button-mapper/scripts/kindle.sh next_page"),
        Some(vec![Step::Key("page_next".into())])
    );
    assert_eq!(
        plan("scripts/koreader.sh prev_page"),
        Some(vec![Step::Koreader("GotoViewRel/-1".into())])
    );
    assert_eq!(
        plan("/mnt/us/kindle-button-mapper/scripts/auto.sh next_page"),
        Some(vec![
            Step::Koreader("GotoViewRel/1".into()),
            Step::Key("page_next".into()),
        ])
    );
}

#[test]
fn key_injection_is_planned() {
    assert_eq!(
        plan("/mnt/us/kindle-button-mapper/scripts/key.sh KEY_LEFT"),
        Some(vec![Step::Key("KEY_LEFT".into())])
    );
    // Lowercase and bare codes are what parse_key takes, so they plan too.
    assert_eq!(
        plan("scripts/key.sh key_enter"),
        Some(vec![Step::Key("key_enter".into())])
    );
    assert_eq!(
        plan("scripts/key.sh 105"),
        Some(vec![Step::Key("105".into())])
    );
    assert_eq!(
        plan("scripts/key.sh page_next"),
        Some(vec![Step::Key("page_next".into())])
    );
    // Unknown names stay a shell call so key.sh can still try evemu.
    assert_eq!(plan("scripts/key.sh NOT_A_KEY"), None);
}

#[test]
fn koreader_events_are_planned() {
    assert_eq!(
        plan("/mnt/us/kindle-button-mapper/scripts/koreader.sh event ShowMenu"),
        Some(vec![Step::Koreader("ShowMenu".into())])
    );
    assert_eq!(
        plan("scripts/koreader.sh event ToggleNightMode"),
        Some(vec![Step::Koreader("ToggleNightMode".into())])
    );
    // Already carries an argument, the shell url-encodes it.
    assert_eq!(plan("scripts/koreader.sh event GotoViewRel/1"), None);
    // Two arguments is never a hot path.
    assert_eq!(plan("scripts/koreader.sh event Foo Bar"), None);
    // The named shortcuts still work and win over the generic form.
    assert_eq!(
        plan("scripts/koreader.sh next_page"),
        Some(vec![Step::Koreader("GotoViewRel/1".into())])
    );
}

#[test]
fn lipc_and_user_scripts_stay_shell() {
    // auto.sh menu falls back to the native toolbar over lipc
    assert_eq!(plan("scripts/auto.sh menu"), None);
    assert_eq!(plan("scripts/kindle.sh toolbar"), None);
    assert_eq!(plan("scripts/koreader.sh brightness 2"), None);
    assert_eq!(plan("scripts/auto.sh next_page && echo hi"), None);
    assert_eq!(plan("lipc-set-prop com.lab126.powerd flIntensity 5"), None);
    assert_eq!(plan("/mnt/us/my-script.sh next_page"), None);
    assert_eq!(plan(""), None);
}

#[test]
fn every_shell_character_stays_shell() {
    for c in "|&;<>()$`\\\"'*?[#~=%\n".chars() {
        assert_eq!(plan(&format!("scripts/key.sh 105{}", c)), None);
    }
    assert_eq!(
        plan("scripts/key.sh\t105 "),
        Some(vec![Step::Key("105".into())])
    );
    assert_eq!(plan("key.sh"), None);
    assert_eq!(plan("key.sh 1"), Some(vec![Step::Key("1".into())]));
    assert_eq!(plan("scripts/key.sh/ 1"), None);
}

#[test]
fn named_shortcuts() {
    let events = [
        ("next_page", "GotoViewRel/1"),
        ("prev_page", "GotoViewRel/-1"),
        ("brightness_toggle", "ToggleFrontlight"),
        ("night_mode", "ToggleNightMode"),
        ("menu", "ShowMenu"),
        ("toggle_status_bar", "ToggleFooterMode"),
        ("rotate", "IterateRotation"),
    ];
    for (cmd, event) in events {
        assert_eq!(koreader_event(cmd), Some(event));
    }
    assert_eq!(koreader_event("home"), None);
    assert_eq!(native_key("next_page"), Some("page_next"));
    assert_eq!(native_key("prev_page"), Some("page_prev"));
    assert_eq!(native_key("home"), Some("KEY_HOME"));
    assert_eq!(native_key("menu"), None);
    // What the native reader is asked for is something the injector takes.
    assert_eq!(injectable("KEY_HOME"), Some("KEY_HOME".to_string()));
}

#[test]
fn event_names() {
    assert!(is_event_name("ShowMenu"));
    assert!(is_event_name("a_1"));
    assert!(!is_event_name(""));
    assert!(!is_event_name("_a"));
    assert!(!is_event_name("1a"));
    assert!(!is_event_name("GotoViewRel/1"));
    assert!(!is_event_name("é"));
    assert!(!is_event_name("aé"));
}

#[test]
fn planned_scripts_are_queued_and_others_go_to_the_shell() {
    assert_eq!(
        run("scripts/kindle.sh home"),
        Dispatch::Queue {
            script: "scripts/kindle.sh home".into(),
            steps: vec![Step::Key("KEY_HOME".into())],
        }
    );
    assert_eq!(
        run("echo hi"),
        Dispatch::Shell { script: "echo hi".into() }
    );
}

fn moves(script: &str, lands: &[bool]) -> Vec<Move> {
    let steps = plan(script).expect("planned");
    let mut out = Vec::new();
    let mut tried = 0;
    let mut landed = false;
    loop {
        let next = execute(script, &steps, tried, landed);
        let more = matches!(next, Move::Send(_) | Move::Inject(_));
        out.push(next);
        if !more {
            return out;
        }
        landed = lands[tried];
        tried += 1;
    }
}

#[test]
fn steps_run_until_one_lands() {
    let auto = "scripts/auto.sh next_page";
    let send = || Move::Send("GotoViewRel/1".to_string());
    let inject = || Move::Inject("page_next".to_string());
    assert_eq!(moves(auto, &[true, true]), vec![send(), Move::Landed]);
    assert_eq!(moves(auto, &[false, true]), vec![send(), inject(), Move::Landed]);
    assert_eq!(
        moves(auto, &[false, false]),
        vec![send(), inject(), Move::Shell(auto.to_string())]
    );
    assert_eq!(
        moves("scripts/koreader.sh next_page", &[false]),
        vec![send(), Move::NoneLanded]
    );
    assert_eq!(execute("", &Vec::new(), 0, false), Move::NoneLanded);
}

#[test]
fn planned_keys_are_accepted_by_the_injector() {
    let slot = Some(Injector { keyboard: true, pager: Pager::VirtualKeyboard });
    for cmd in ["105", "0x69", "key_left", "page_next", "page_prev"] {
        let script = format!("scripts/key.sh {}", cmd);
        assert_eq!(plan(&script), Some(vec![Step::Key(cmd.to_string())]));
        assert!(matches!(
            inject(&slot, cmd),
            Some(Injection::Type { .. }) | Some(Injection::Turn(_))
        ));
    }
}

#[test]
fn planned_events_need_no_encoding() {
    for script in [
        "koreader.sh next_page",
        "koreader.sh prev_page",
        "koreader.sh event A_1",
        "auto.sh prev_page",
    ] {
        match &plan(script).expect("planned")[0] {
            Step::Koreader(event) => assert!(event
                .chars()
                .all(|c| c.is_ascii_alphanumeric() || c == '_' || c == '/' || c == '-')),
            other => panic!("{:?}", other),
        }
    }
}

#[test]
fn default_layout_runs_in_process() {
    let mut dev = DeviceConfig::for_test("pad");
    dev.apply_default_layout();
    let dirs = [
        (DpadDirection::Up, "KEY_UP"),
        (DpadDirection::Down, "KEY_DOWN"),
        (DpadDirection::Left, "KEY_LEFT"),
        (DpadDirection::Right, "KEY_RIGHT"),
    ];
    for (dir, key) in dirs {
        let script = dev.dpad_mappings.get(dir).expect("bound");
        assert_eq!(plan(script), Some(vec![Step::Key(key.to_string())]));
    }
    assert_eq!(dev.mappings.len(), 4);
    for (code, request) in [(304, "KEY_ENTER"), (305, "KEY_BACK"), (310, "page_prev"), (311, "page_next")] {
        assert_eq!(
            plan(&dev.mappings[&code]),
            Some(vec![Step::Key(request.to_string())])
        );
    }
}

#[test]
fn every_planned_key_is_accepted() {
    let slot = Some(Injector { keyboard: true, pager: Pager::VirtualKeyboard });
    for script in ["kindle.sh home", "kindle.sh next_page", "auto.sh prev_page", "key.sh KEY_A"] {
        for step in plan(script).expect("planned") {
            if let Step::Key(request) = step {
                assert!(matches!(
                    inject(&slot, &request),
                    Some(Injection::Type { .. }) | Some(Injection::Turn(_))
                ));
            }
        }
    }
}

use kindle_button_mapper::input::{
    create_device, device_setup, report_key, supported_keys, tap, ByteOrder, Emit, InputEvent,
    SetupStep, DEV_NAME, KEY_DOWN, KEY_PAGEDOWN, KEY_PAGEUP, KEY_UP,
};
use kindle_button_mapper::nodes::{
    dev_node, ensure_event_node, ensure_uinput_node, is_page_buttons, is_touchscreen,
    page_button_node, sysname, AxisLimits, Candidate, CommandResult, EventNodeStep, InputDevice, NodeStep,
    ABS_MT_POSITION_X, ABS_MT_POSITION_Y, BUS_HOST, INPUT_PROP_DIRECT, KEY_A,
};
use kindle_button_mapper::touch::Touchscreen;
use kindle_button_mapper::vkeyboard::{
    available, fifo_loop, forward, inject, serve, try_init, FifoEvent, FifoMove, InitEvent,
    InitMove, Injection, Injector, Pager, Served, Turn, Turned,
};

fn event(kind: u16, code: u16, value: i32) -> Emit {
    Emit::Event(InputEvent { kind, code, value })
}

fn syn() -> Emit {
    event(0, 0, 0)
}

fn buttons() -> InputDevice {
    InputDevice {
        name: Some("gpio-keys".into()),
        bus_type: BUS_HOST,
        properties: vec![],
        keys: Some(vec![104, 109]),
        axes: None,
        limits: None,
    }
}

fn panel(max_x: i32, max_y: i32, max_touch: i32) -> InputDevice {
    InputDevice {
        name: Some("goodix-ts".into()),
        bus_type: 0x18,
        properties: vec![0, 1],
        keys: None,
        axes: Some(vec![0x30, 0x35, 0x36]),
        limits: Some(AxisLimits { max_x, max_y, max_touch }),
    }
}

fn at(file: &str, device: InputDevice) -> Candidate {
    Candidate { file: file.into(), device: Some(device) }
}

#[test]
fn codes_are_those_of_evdev() {
    assert_eq!(KEY_A, evdev::Key::KEY_A.code());
    assert_eq!(KEY_UP, evdev::Key::KEY_UP.code());
    assert_eq!(KEY_DOWN, evdev::Key::KEY_DOWN.code());
    assert_eq!(KEY_PAGEUP, evdev::Key::KEY_PAGEUP.code());
    assert_eq!(KEY_PAGEDOWN, evdev::Key::KEY_PAGEDOWN.code());
    assert_eq!(BUS_HOST, evdev::BusType::BUS_HOST.0);
    assert_eq!(INPUT_PROP_DIRECT, evdev::PropType::DIRECT.0);
    assert_eq!(ABS_MT_POSITION_X, evdev::AbsoluteAxisType::ABS_MT_POSITION_X.0);
    assert_eq!(ABS_MT_POSITION_Y, evdev::AbsoluteAxisType::ABS_MT_POSITION_Y.0);
}

#[test]
fn events_have_the_kernels_layout() {
    let ev = InputEvent { kind: 0x0102, code: 0x0304, value: -2 };
    assert_eq!(
        ev.encode(4, ByteOrder::Little),
        vec![0, 0, 0, 0, 0, 0, 0, 0, 2, 1, 4, 3, 0xfe, 0xff, 0xff, 0xff]
    );
    assert_eq!(
        ev.encode(8, ByteOrder::Big),
        vec![
            0, 0, 0, 0, 0, 0, 0, 0, 0, 0, 0, 0, 0, 0, 0, 0, 1, 2, 3, 4, 0xff, 0xff, 0xff, 0xfe
        ]
    );
    for value in [0, 1, -1, i32::MIN, i32::MAX] {
        let bytes = InputEvent { kind: 1, code: 2, value }.encode(8, ByteOrder::Little);
        assert_eq!(bytes[20..], value.to_le_bytes());
    }
}

#[test]
fn setup_has_the_kernels_layout() {
    let bytes = device_setup(ByteOrder::Little);
    assert_eq!(bytes.len(), 1116);
    assert_eq!(&bytes[..20], b"kindle-button-mapper");
    assert!(bytes[20..80].iter().all(|b| *b == 0));
    assert_eq!(bytes[80..88], [3, 0, 0x34, 0x12, 0x78, 0x56, 0x11, 0x01]);
    assert!(bytes[88..].iter().all(|b| *b == 0));
    assert_eq!(
        device_setup(ByteOrder::Big)[80..88],
        [0, 3, 0x12, 0x34, 0x56, 0x78, 0x01, 0x11]
    );
}

#[test]
fn keyboard_has_keys_and_no_buttons() {
    let expected: Vec<u32> = (1..0x100).chain(0x160..0x2c0).collect();
    assert_eq!(supported_keys(), expected);
    let steps = create_device(ByteOrder::Little);
    assert_eq!(steps.len(), expected.len() + 3);
    assert_eq!(steps[0], SetupStep::EventKind(1));
    assert_eq!(steps[1], SetupStep::KeyCode(1));
    assert_eq!(steps[expected.len()], SetupStep::KeyCode(0x2bf));
    assert_eq!(
        steps[expected.len() + 1],
        SetupStep::Write(device_setup(ByteOrder::Little))
    );
    assert_eq!(steps[expected.len() + 2], SetupStep::Create);
}

#[test]
fn keys_are_tapped_and_reported() {
    assert_eq!(tap(30), vec![event(1, 30, 1), syn(), event(1, 30, 0), syn()]);
    assert_eq!(report_key(30, 2), vec![event(1, 30, 2), syn()]);
}

#[test]
fn page_buttons_are_recognised() {
    assert!(is_page_buttons(&buttons()));
    let own = InputDevice { name: Some(DEV_NAME.into()), ..buttons() };
    assert!(!is_page_buttons(&own));
    assert!(is_page_buttons(&InputDevice { name: None, ..buttons() }));
    assert!(!is_page_buttons(&InputDevice { bus_type: 3, ..buttons() }));
    assert!(!is_page_buttons(&InputDevice { keys: None, ..buttons() }));
    assert!(!is_page_buttons(&InputDevice { keys: Some(vec![104]), ..buttons() }));
    assert!(!is_page_buttons(&InputDevice { keys: Some(vec![104, 109, 30]), ..buttons() }));
}

#[test]
fn touchscreens_are_recognised() {
    assert!(is_touchscreen(&panel(1, 1, 1)));
    let own = InputDevice { name: Some(DEV_NAME.into()), ..panel(1, 1, 1) };
    assert!(!is_touchscreen(&own));
    assert!(!is_touchscreen(&InputDevice { properties: vec![0], ..panel(1, 1, 1) }));
    assert!(!is_touchscreen(&InputDevice { axes: None, ..panel(1, 1, 1) }));
    assert!(!is_touchscreen(&InputDevice { axes: Some(vec![0x35]), ..panel(1, 1, 1) }));
}

#[test]
fn the_first_node_by_name_is_used() {
    let found = vec![
        at("mouse0", buttons()),
        at("event2", buttons()),
        Candidate { file: "event0".into(), device: None },
        at("event10", buttons()),
        at("event1", panel(10, 10, 0)),
    ];
    assert_eq!(page_button_node(&found), Some("/dev/input/event10".to_string()));
    assert_eq!(page_button_node(&vec![]), None);

    let panels = vec![
        at("event3", panel(1071, 1447, 255)),
        at("event1", panel(0, 10, 5)),
        at("event4", panel(5, 5, 5)),
        at("event2", InputDevice { limits: None, ..panel(1, 1, 1) }),
    ];
    let touch = Touchscreen::find(&panels).expect("panel");
    assert_eq!(touch.path, "/dev/input/event3");
    assert_eq!((touch.max_x, touch.max_y, touch.touch_size), (1071, 1447, 24));
    assert!(!touch.open);
    let small = Touchscreen::find(&vec![at("event0", panel(5, 5, 8))]).expect("panel");
    assert_eq!(small.touch_size, 8);
    let unsized_panel = Touchscreen::find(&vec![at("event0", panel(5, 5, 0))]).expect("panel");
    assert_eq!(unsized_panel.touch_size, 24);
}

#[test]
fn the_pager_prefers_buttons() {
    let all = vec![at("event1", panel(9, 9, 9)), at("event2", buttons())];
    assert!(matches!(
        Pager::find(&all),
        Pager::Buttons { ref path, open: false } if path == "/dev/input/event2"
    ));
    assert!(matches!(
        Pager::find(&vec![at("event1", panel(9, 9, 9))]),
        Pager::Touchscreen(ref t) if t.path == "/dev/input/event1"
    ));
    assert!(matches!(Pager::find(&vec![]), Pager::VirtualKeyboard));
}

fn paperwhite() -> Touchscreen {
    Touchscreen {
        path: "/dev/input/event1".into(),
        open: false,
        max_x: 1071,
        max_y: 1447,
        touch_size: 24,
    }
}

#[test]
fn a_swipe_drags_one_contact() {
    for forward in [true, false] {
        let (x0, x1) = if forward { (910, 160) } else { (160, 910) };
        let mut expected = vec![
            event(3, 0x39, 0),
            event(3, 0x3a, 24),
            event(3, 0x35, x0),
            event(3, 0x36, 723),
            event(3, 0x30, 24),
            event(3, 0x32, 24),
            syn(),
        ];
        for i in 1..=14 {
            expected.push(Emit::Pause(16));
            expected.push(event(3, 0x35, x0 + (x1 - x0) * i / 14));
            expected.push(syn());
        }
        expected.push(Emit::Pause(16));
        expected.push(event(3, 0x39, -1));
        expected.push(syn());
        let touch = paperwhite();
        assert!(touch.is_swipeable());
        assert_eq!(touch.swipe(forward), expected);
    }
}

#[test]
fn a_panel_too_large_for_a_swipe() {
    assert!(Touchscreen { max_x: 25264513, ..paperwhite() }.is_swipeable());
    assert!(!Touchscreen { max_x: 25264514, ..paperwhite() }.is_swipeable());
    assert!(!Touchscreen { max_y: i32::MAX, ..paperwhite() }.is_swipeable());
    assert!(!Pager::Touchscreen(Touchscreen { max_x: i32::MAX, ..paperwhite() }).is_turnable());
    assert!(Pager::VirtualKeyboard.is_turnable());
}

#[test]
fn a_node_is_reopened_after_a_failure() {
    let mut pager = Pager::Buttons { path: "/dev/input/event2".into(), open: false };
    let opens = |pager: &Pager| match pager.turn(true, 109, 108, true) {
        Turn::Node { path, open_first, emits } => {
            assert_eq!(path, "/dev/input/event2");
            assert_eq!(emits, tap(109));
            open_first
        }
        other => panic!("{:?}", other),
    };
    assert!(opens(&pager));
    pager.turned(Turned::OpenFailed);
    assert!(opens(&pager));
    pager.turned(Turned::Done);
    assert!(!opens(&pager));
    pager.turned(Turned::WriteFailed);
    assert!(opens(&pager));
    let mut touch = Pager::Touchscreen(paperwhite());
    touch.turned(Turned::Done);
    assert!(matches!(touch, Pager::Touchscreen(Touchscreen { open: true, .. })));
}

#[test]
fn requests_are_injected() {
    let slot = Some(Injector { keyboard: true, pager: Pager::VirtualKeyboard });
    assert!(matches!(inject(&slot, "  "), Some(Injection::Nothing)));
    match inject(&slot, " page_next\n") {
        Some(Injection::Turn(Turn::Keyboard { emits })) => assert_eq!(emits, tap(108)),
        other => panic!("{:?}", other),
    }
    match inject(&slot, "page_prev") {
        Some(Injection::Turn(Turn::Keyboard { emits })) => assert_eq!(emits, tap(103)),
        other => panic!("{:?}", other),
    }
    match inject(&slot, "key_left") {
        Some(Injection::Type { emits }) => assert_eq!(emits, tap(105)),
        other => panic!("{:?}", other),
    }
    assert!(matches!(inject(&slot, "NOT_A_KEY"), Some(Injection::UnknownKey)));
    assert!(inject(&None, "key_left").is_none());

    let swiping = Some(Injector { keyboard: false, pager: Pager::Touchscreen(paperwhite()) });
    assert!(matches!(inject(&swiping, "30"), Some(Injection::NoKeyboard)));
    match inject(&swiping, "page_prev") {
        Some(Injection::Turn(Turn::Node { emits, open_first, .. })) => {
            assert_eq!(emits, paperwhite().swipe(false));
            assert!(open_first);
        }
        other => panic!("{:?}", other),
    }
    let bare = Some(Injector { keyboard: false, pager: Pager::VirtualKeyboard });
    assert!(matches!(
        inject(&bare, "page_next"),
        Some(Injection::Turn(Turn::NoKeyboard))
    ));
}

#[test]
fn keys_are_forwarded_where_there_is_a_keyboard() {
    let slot = Some(Injector { keyboard: true, pager: Pager::VirtualKeyboard });
    assert!(available(&slot));
    assert_eq!(forward(&slot, 30, 2), Some(report_key(30, 2)));
    let bare = Some(Injector { keyboard: false, pager: Pager::Touchscreen(paperwhite()) });
    assert!(!available(&bare));
    assert_eq!(forward(&bare, 30, 1), None);
    assert!(!available(&None));
    assert_eq!(forward(&None, 30, 1), None);
}

#[test]
fn injection_is_served_once_and_only_where_it_can_be() {
    let mut slot = None;
    assert_eq!(serve(&mut slot, false, Pager::VirtualKeyboard), Served::Nothing);
    assert!(slot.is_none());
    assert_eq!(serve(&mut slot, false, Pager::Touchscreen(paperwhite())), Served::Open);
    assert!(matches!(slot, Some(Injector { keyboard: false, .. })));
    assert_eq!(serve(&mut slot, true, Pager::VirtualKeyboard), Served::Already);
    assert!(matches!(slot, Some(Injector { keyboard: false, pager: Pager::Touchscreen(_) })));
}

#[test]
fn the_fifo_is_served_until_it_cannot_be_opened() {
    assert_eq!(fifo_loop(FifoEvent::Started), FifoMove::Open);
    assert_eq!(fifo_loop(FifoEvent::Opened), FifoMove::Read);
    assert_eq!(fifo_loop(FifoEvent::Line("a".into())), FifoMove::Inject("a".into()));
    assert_eq!(fifo_loop(FifoEvent::Injected), FifoMove::Read);
    assert_eq!(fifo_loop(FifoEvent::ReadFailed), FifoMove::Open);
    assert_eq!(fifo_loop(FifoEvent::Ended), FifoMove::Open);
    assert_eq!(fifo_loop(FifoEvent::OpenFailed), FifoMove::Stop);
}

#[test]
fn the_keyboard_is_kept_once_created() {
    assert_eq!(try_init(InitEvent::Started), InitMove::EnsureNode);
    assert_eq!(try_init(InitEvent::NodeEnsured(false)), InitMove::GiveUp);
    assert_eq!(try_init(InitEvent::NodeEnsured(true)), InitMove::CreateDevice);
    assert_eq!(try_init(InitEvent::Created(false)), InitMove::GiveUp);
    assert_eq!(try_init(InitEvent::Created(true)), InitMove::ResolveNode);
    assert_eq!(
        try_init(InitEvent::Resolved(Some("/dev/input/event5".into()))),
        InitMove::Record("/dev/input/event5".into())
    );
    assert_eq!(try_init(InitEvent::Resolved(None)), InitMove::Keep);
    assert_eq!(try_init(InitEvent::Recorded(false)), InitMove::Keep);
}

#[test]
fn the_keyboards_own_node_is_found() {
    assert_eq!(sysname(b"input7\0rest", 64), Ok("input7".to_string()));
    assert_eq!(sysname(b"input7", 5), Ok("input".to_string()));
    assert_eq!(sysname(b"", 5), Ok("".to_string()));
    assert_eq!(sysname(b"a\xff\0b", 4), Err(b"a\xff".to_vec()));
    let dir = "/sys/devices/virtual/input/input7";
    let entries = vec!["power".to_string(), "event5".to_string(), "event6".to_string()];
    let node = dev_node(dir, &entries).expect("node");
    assert_eq!(node.path, "/dev/input/event5");
    assert_eq!(node.sysfs, "/sys/devices/virtual/input/input7/event5");
    assert_eq!(
        dev_node(dir, &vec!["power".to_string()]).err(),
        Some("no event node under /sys/devices/virtual/input/input7".to_string())
    );
}

fn command(step: NodeStep) -> (bool, String, Vec<String>) {
    match step {
        NodeStep::Run(c) => (true, c.program, c.args),
        NodeStep::Finish(c) => (false, c.program, c.args),
        other => panic!("{:?}", other),
    }
}

fn failure(step: NodeStep) -> String {
    match step {
        NodeStep::Failed(why) => why,
        other => panic!("{:?}", other),
    }
}

fn any_node(step: EventNodeStep) -> NodeStep {
    match step {
        EventNodeStep::Node(step) => step,
        other => panic!("{:?}", other),
    }
}

fn strings(args: &[&str]) -> Vec<String> {
    args.iter().map(|a| a.to_string()).collect()
}

#[test]
fn the_uinput_node_is_made() {
    assert!(matches!(ensure_uinput_node(true, &None), NodeStep::Ready));
    assert_eq!(
        command(ensure_uinput_node(false, &None)),
        (true, "mknod".into(), strings(&["/dev/uinput", "c", "10", "223"]))
    );
    let exited = |success, code| Some(CommandResult::Exited { success, code });
    assert_eq!(
        command(ensure_uinput_node(false, &exited(true, Some(0)))),
        (false, "chmod".into(), strings(&["600", "/dev/uinput"]))
    );
    assert_eq!(failure(ensure_uinput_node(false, &exited(false, Some(3)))), "mknod exit 3");
    assert_eq!(failure(ensure_uinput_node(false, &exited(false, None))), "mknod exit -1");
    assert_eq!(
        failure(ensure_uinput_node(false, &Some(CommandResult::NotStarted("gone".into())))),
        "mknod missing: gone"
    );
}

#[test]
fn an_event_node_is_made() {
    let path = "/dev/input/event5";
    let dev = Some(" 13:69\n".to_string());
    assert!(matches!(ensure_event_node(path, true, &None, &None), EventNodeStep::Node(NodeStep::Ready)));
    assert!(matches!(ensure_event_node(path, false, &None, &None), EventNodeStep::ReadNumbers));
    assert_eq!(
        command(any_node(ensure_event_node(path, false, &dev, &None))),
        (true, "mknod".into(), strings(&[path, "c", "13", "69"]))
    );
    assert!(matches!(
        ensure_event_node(path, false, &Some("13".into()), &None),
        EventNodeStep::BadNumbers
    ));
    let exited = |success, code| Some(CommandResult::Exited { success, code });
    for (success, exists) in [(true, true), (true, false), (false, true)] {
        assert_eq!(
            command(any_node(ensure_event_node(path, exists, &dev, &exited(success, Some(1))))),
            (false, "chmod".into(), strings(&["600", path]))
        );
    }
    assert_eq!(
        failure(any_node(ensure_event_node(path, false, &dev, &exited(false, Some(1))))),
        "mknod /dev/input/event5 exit 1"
    );
    assert_eq!(
        failure(any_node(ensure_event_node(path, false, &dev, &Some(CommandResult::NotStarted("no".into()))))),
        "no"
    );
}

#[test]
fn set_up_ends_with_a_keyboard_where_one_was_created() {
    for (node, device, path, keeps) in [
        (true, true, Some("/dev/input/event7"), true),
        (true, true, None, true),
        (true, false, None, false),
        (false, true, None, false),
    ] {
        let mut event = InitEvent::Started;
        let mut recorded = None;
        let kept = loop {
            event = match try_init(event) {
                InitMove::EnsureNode => InitEvent::NodeEnsured(node),
                InitMove::CreateDevice => InitEvent::Created(device),
                InitMove::ResolveNode => InitEvent::Resolved(path.map(String::from)),
                InitMove::Record(p) => {
                    recorded = Some(p);
                    InitEvent::Recorded(false)
                }
                InitMove::Keep => break true,
                InitMove::GiveUp => break false,
            };
        };
        assert_eq!(kept, keeps);
        assert_eq!(recorded.as_deref(), path);
    }
}

#[test]
fn every_line_of_the_fifo_is_injected_once() {
    let mut reads = vec![
        FifoEvent::Line("a".to_string()),
        FifoEvent::Line("b".to_string()),
        FifoEvent::ReadFailed,
        FifoEvent::Line("c".to_string()),
        FifoEvent::Ended,
    ]
    .into_iter();
    let mut opens = vec![true, true, false].into_iter();
    let mut injected = Vec::new();
    let mut event = FifoEvent::Started;
    loop {
        event = match fifo_loop(event) {
            FifoMove::Open => {
                if opens.next().expect("opened again") {
                    FifoEvent::Opened
                } else {
                    FifoEvent::OpenFailed
                }
            }
            FifoMove::Read => reads.next().expect("read on"),
            FifoMove::Inject(line) => {
                injected.push(line);
                FifoEvent::Injected
            }
            FifoMove::Stop => break,
        };
    }
    assert_eq!(injected, vec!["a", "b", "c"]);
    assert!(reads.next().is_none() && opens.next().is_none());
}

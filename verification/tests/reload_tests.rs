use kindle_button_mapper::config::{Config, LoadError};
use kindle_button_mapper::reload::{
    device_config, generation, handle_sighup, poll, publish, Polled, Reload,
};

const PAD: &str = "[device.pad]\nname = Pad\n";
const TWO: &str = "[device.kbd]\nname = Keys\n[device.pad]\nname = Other\n";

fn running() -> Reload {
    let mut state = Reload::new();
    publish(&mut state, &Config::load(PAD).expect("config"));
    state
}

#[test]
fn nothing_happens_without_a_signal() {
    let mut state = running();
    assert!(matches!(poll(&mut state, Ok(TWO.to_string())), Polled::Idle));
    assert_eq!(generation(&state), 0);
    assert!(device_config(&state, "kbd").is_none());
}

#[test]
fn a_reload_is_applied_once() {
    let mut state = running();
    handle_sighup(&mut state);
    handle_sighup(&mut state);
    match poll(&mut state, Ok(TWO.to_string())) {
        Polled::Applied { unwatched } => assert_eq!(unwatched, vec!["kbd".to_string()]),
        other => panic!("{:?}", other),
    }
    assert_eq!(generation(&state), 1);
    assert_eq!(
        device_config(&state, "pad").expect("pad").name.as_deref(),
        Some("Other")
    );
    assert!(matches!(poll(&mut state, Ok(PAD.to_string())), Polled::Idle));
    assert_eq!(generation(&state), 1);
}

#[test]
fn a_failed_reload_keeps_the_config() {
    let mut state = running();
    handle_sighup(&mut state);
    assert!(matches!(
        poll(&mut state, Ok("[buttons]\n".to_string())),
        Polled::Kept(LoadError::OldFormat)
    ));
    handle_sighup(&mut state);
    assert!(matches!(
        poll(&mut state, Ok("[broken\n".to_string())),
        Polled::Kept(LoadError::Read(_))
    ));
    handle_sighup(&mut state);
    assert!(matches!(
        poll(&mut state, Err(LoadError::Create("gone".into()))),
        Polled::Kept(LoadError::Create(_))
    ));
    assert!(!state.requested);
    assert_eq!(generation(&state), 0);
    assert!(device_config(&state, "pad").is_some());
}

#[test]
fn a_removed_device_is_gone() {
    let mut state = running();
    handle_sighup(&mut state);
    match poll(&mut state, Ok(String::new())) {
        Polled::Applied { unwatched } => assert!(unwatched.is_empty()),
        other => panic!("{:?}", other),
    }
    assert!(device_config(&state, "pad").is_none());
}

#[test]
fn the_generation_wraps() {
    let mut state = running();
    state.generation = u64::MAX;
    handle_sighup(&mut state);
    poll(&mut state, Ok(PAD.to_string()));
    assert_eq!(generation(&state), 0);
}

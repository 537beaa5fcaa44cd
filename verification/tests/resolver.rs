use puniyu_plugin::resolver::{advance, begin, LoadAction, LoadEvent, LoadState};
use puniyu_plugin::version::is_compatible;
use puniyu_plugin::{Error, PluginRegistry, VERSION};

#[test]
fn missing_file_ends_in_load_error_and_registry_stays_empty() {
    let (state, action) = advance(begin(), &LoadEvent::OpenFailed);
    assert_eq!(state, LoadState::Failed(Error::LoadError));
    assert_eq!(action, LoadAction::Abandon(Error::LoadError));
    let mut registry = PluginRegistry::new();
    let error = match action {
        LoadAction::Abandon(e) => e,
        other => panic!("unexpected action {:?}", other),
    };
    let r = registry.register(Err(error), None);
    assert_eq!(r.err(), Some(Error::LoadError));
    assert!(registry.list().is_empty());
}

#[test]
fn loading_begins_by_opening() {
    assert_eq!(begin(), LoadState::Opening);
}

#[test]
fn compatible_library_is_loaded_step_by_step() {
    let (s1, a1) = advance(begin(), &LoadEvent::Opened);
    assert_eq!((s1, a1), (LoadState::Inspecting, LoadAction::Inspect));
    let (s2, a2) = advance(s1, &LoadEvent::SymbolFound(VERSION.to_string()));
    assert_eq!((s2, a2), (LoadState::Constructing, LoadAction::Construct));
    let (s3, a3) = advance(s2, &LoadEvent::Constructed);
    assert_eq!((s3, a3), (LoadState::Loaded, LoadAction::Enroll));
}

#[test]
fn missing_constructor_is_symbol_not_found() {
    let r = advance(LoadState::Inspecting, &LoadEvent::SymbolMissing);
    assert_eq!(r, (LoadState::Failed(Error::SymbolNotFound), LoadAction::Abandon(Error::SymbolNotFound)));
}

#[test]
fn other_version_is_refused_before_construction() {
    let r = advance(LoadState::Inspecting, &LoadEvent::SymbolFound("9.9.9".to_string()));
    assert_eq!(r, (LoadState::Failed(Error::VersionMismatch), LoadAction::Abandon(Error::VersionMismatch)));
    let r = advance(LoadState::Inspecting, &LoadEvent::SymbolFound(String::new()));
    assert_eq!(r.1, LoadAction::Abandon(Error::VersionMismatch));
    let r = advance(LoadState::Inspecting, &LoadEvent::SymbolFound(format!("{} ", VERSION)));
    assert_eq!(r.1, LoadAction::Abandon(Error::VersionMismatch));
}

#[test]
fn faulting_constructor_is_construction_failed() {
    let r = advance(LoadState::Constructing, &LoadEvent::Faulted);
    assert_eq!(
        r,
        (LoadState::Failed(Error::ConstructionFailed), LoadAction::Abandon(Error::ConstructionFailed))
    );
}

#[test]
fn timeout_while_loading_is_load_error() {
    for state in [LoadState::Opening, LoadState::Inspecting, LoadState::Constructing] {
        let r = advance(state, &LoadEvent::TimedOut);
        assert_eq!(r, (LoadState::Failed(Error::LoadError), LoadAction::Abandon(Error::LoadError)));
    }
}

#[test]
fn events_out_of_turn_are_ignored() {
    assert_eq!(advance(LoadState::Opening, &LoadEvent::Constructed), (LoadState::Opening, LoadAction::Ignore));
    assert_eq!(
        advance(LoadState::Opening, &LoadEvent::SymbolFound(VERSION.to_string())),
        (LoadState::Opening, LoadAction::Ignore)
    );
    assert_eq!(advance(LoadState::Inspecting, &LoadEvent::Opened), (LoadState::Inspecting, LoadAction::Ignore));
    assert_eq!(
        advance(LoadState::Constructing, &LoadEvent::SymbolMissing),
        (LoadState::Constructing, LoadAction::Ignore)
    );
}

#[test]
fn ended_loading_does_not_move() {
    let events = [
        LoadEvent::OpenFailed,
        LoadEvent::Opened,
        LoadEvent::SymbolMissing,
        LoadEvent::SymbolFound(VERSION.to_string()),
        LoadEvent::Faulted,
        LoadEvent::Constructed,
        LoadEvent::TimedOut,
    ];
    for event in events.iter() {
        assert_eq!(advance(LoadState::Loaded, event), (LoadState::Loaded, LoadAction::Ignore));
        assert_eq!(
            advance(LoadState::Failed(Error::LoadError), event),
            (LoadState::Failed(Error::LoadError), LoadAction::Ignore)
        );
    }
}

#[test]
fn version_is_compared_verbatim() {
    assert_eq!(VERSION, "0.1.0");
    assert!(is_compatible(VERSION));
    assert!(is_compatible("0.1.0"));
    assert!(!is_compatible("0.1"));
    assert!(!is_compatible("0.1.1"));
    assert!(!is_compatible(""));
}

//! Tests of the resolution engine: adapter ordering, the fallback
//! policy, and the state machine.

use display_icc::{
    adapter_chain, detect_platform, resolve_attempts, AdapterKind, Display, EngineState,
    Platform, ProfileConfig, ProfileError, ResolutionEngine,
};

fn displays(name: &str) -> Vec<Display> {
    vec![Display { id: name.to_string(), name: name.to_string(), is_primary: true }]
}

#[test]
fn test_platform_detection() {
    let platform = detect_platform("linux");
    assert!(platform.is_ok());

    assert!(matches!(detect_platform("macos"), Ok(Platform::MacOS)));
    assert!(matches!(detect_platform("linux"), Ok(Platform::Linux)));
    assert!(matches!(detect_platform("windows"), Ok(Platform::Windows)));
}

#[test]
fn test_adapter_chain_orders() {
    let default_config = ProfileConfig::default();

    let linux_bus = adapter_chain(Platform::Linux, &default_config, true);
    assert_eq!(
        linux_bus,
        vec![AdapterKind::MessageBus, AdapterKind::CommandTool, AdapterKind::FilesystemScan]
    );

    // An unreachable service shortens the chain; so does preferring the
    // command tool.
    let linux_no_bus = adapter_chain(Platform::Linux, &default_config, false);
    assert_eq!(linux_no_bus, vec![AdapterKind::CommandTool, AdapterKind::FilesystemScan]);

    let prefer_tool = ProfileConfig { linux_prefer_dbus: false, fallback_enabled: true };
    let linux_tool = adapter_chain(Platform::Linux, &prefer_tool, true);
    assert_eq!(linux_tool, vec![AdapterKind::CommandTool, AdapterKind::FilesystemScan]);

    let mac = adapter_chain(Platform::MacOS, &default_config, false);
    assert_eq!(mac, vec![AdapterKind::NativeApi, AdapterKind::BuiltIn]);

    let win = adapter_chain(Platform::Windows, &default_config, false);
    assert_eq!(
        win,
        vec![
            AdapterKind::NativeApi,
            AdapterKind::Registry,
            AdapterKind::FilesystemScan,
            AdapterKind::BuiltIn,
        ]
    );
}

#[test]
fn test_fallback_tries_baseline_next() {
    // Preferred adapter always fails, fallback on: the baseline is tried
    // next and its success is what the caller observes.
    let replies: Vec<Result<Vec<Display>, ProfileError>> = vec![
        Err(ProfileError::SystemError("bus down".to_string())),
        Ok(displays("from-baseline")),
    ];
    let (outcome, tried) = resolve_attempts(
        replies,
        true,
        ProfileError::SystemError("exhausted".to_string()),
    );
    assert_eq!(tried, 2);
    assert_eq!(outcome.unwrap()[0].id, "from-baseline");

    // And when the baseline fails too, its failure is what the caller
    // observes.
    let replies: Vec<Result<Vec<Display>, ProfileError>> = vec![
        Err(ProfileError::SystemError("bus down".to_string())),
        Err(ProfileError::SystemError("tool broke".to_string())),
    ];
    let (outcome, tried) = resolve_attempts(
        replies,
        true,
        ProfileError::SystemError("exhausted".to_string()),
    );
    assert_eq!(tried, 2);
    match outcome {
        Err(ProfileError::SystemError(msg)) => assert_eq!(msg, "tool broke"),
        _ => panic!("Expected the baseline's own error"),
    }
}

#[test]
fn test_no_fallback_baseline_never_invoked() {
    // Fallback off: the caller observes exactly the preferred adapter's
    // error, and no further adapter is consulted.
    let replies: Vec<Result<Vec<Display>, ProfileError>> = vec![
        Err(ProfileError::SystemError("bus down".to_string())),
        Ok(displays("from-baseline")),
    ];
    let (outcome, tried) = resolve_attempts(
        replies,
        false,
        ProfileError::SystemError("exhausted".to_string()),
    );
    assert_eq!(tried, 1);
    match outcome {
        Err(ProfileError::SystemError(msg)) => assert_eq!(msg, "bus down"),
        _ => panic!("Expected exactly the preferred adapter's error"),
    }
}

#[test]
fn test_first_success_wins_in_order() {
    let replies: Vec<Result<Vec<Display>, ProfileError>> = vec![
        Ok(displays("first")),
        Ok(displays("second")),
    ];
    let (outcome, tried) = resolve_attempts(
        replies,
        true,
        ProfileError::SystemError("exhausted".to_string()),
    );
    assert_eq!(tried, 1);
    assert_eq!(outcome.unwrap()[0].id, "first");
}

#[test]
fn test_empty_chain_yields_given_error() {
    let replies: Vec<Result<Vec<Display>, ProfileError>> = Vec::new();
    let (outcome, tried) = resolve_attempts(
        replies,
        true,
        ProfileError::SystemError("no adapters".to_string()),
    );
    assert_eq!(tried, 0);
    match outcome {
        Err(ProfileError::SystemError(msg)) => assert_eq!(msg, "no adapters"),
        _ => panic!("Expected the empty-chain error"),
    }
}

#[test]
fn test_engine_state_machine_walk() {
    let chain = vec![AdapterKind::MessageBus, AdapterKind::CommandTool];
    let mut engine = ResolutionEngine::new(chain, true);
    assert_eq!(engine.state, EngineState::NotTried);

    let first = engine.begin();
    assert_eq!(first, Some(AdapterKind::MessageBus));
    assert_eq!(engine.state, EngineState::Trying(0));

    let next = engine.fail();
    assert_eq!(next, Some(AdapterKind::CommandTool));
    assert_eq!(engine.state, EngineState::Trying(1));

    engine.succeed();
    assert_eq!(engine.state, EngineState::Succeeded);
}

#[test]
fn test_engine_no_fallback_exhausts_at_once() {
    let chain = vec![AdapterKind::MessageBus, AdapterKind::CommandTool];
    let mut engine = ResolutionEngine::new(chain, false);
    let first = engine.begin();
    assert_eq!(first, Some(AdapterKind::MessageBus));

    // The first failure ends the resolution: the baseline is never up.
    let next = engine.fail();
    assert_eq!(next, None);
    assert_eq!(engine.state, EngineState::Exhausted);
}

#[test]
fn test_engine_exhausts_after_last_adapter() {
    let chain = vec![AdapterKind::CommandTool];
    let mut engine = ResolutionEngine::new(chain, true);
    engine.begin();
    let next = engine.fail();
    assert_eq!(next, None);
    assert_eq!(engine.state, EngineState::Exhausted);
}

#[test]
fn test_engine_empty_chain() {
    let mut engine = ResolutionEngine::new(Vec::new(), true);
    assert_eq!(engine.begin(), None);
    assert_eq!(engine.state, EngineState::Exhausted);
}

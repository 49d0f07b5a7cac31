use termaite::chat::{ChatSession, DispatchOutcome, SessionEnd};
use termaite::config::{Color, Config, Profile, ProfileMap};
use termaite::driver::{apply_override, next_action, DriverAction};
use termaite::errors::{ApiError, ApiErrorResponse, ApiFailure};

fn small_config(active: &str) -> Config {
    let mut profiles = ProfileMap::new();
    profiles.push(
        "default".to_string(),
        Profile {
            model_name: "m-default".to_string(),
            chars: 5,
            system_prompt: vec!["s".to_string()],
        },
    );
    profiles.push(
        "other".to_string(),
        Profile {
            model_name: "m-other".to_string(),
            chars: 6,
            system_prompt: vec!["t".to_string()],
        },
    );
    Config {
        api_key: "secret".to_string(),
        active_profile: active.to_string(),
        profiles,
        color: Color::Blue,
    }
}

#[test]
fn profile_switch_round_trip() {
    // A session on the default profile is told to switch.
    let config = small_config("default");
    let mut session = ChatSession::new(&config).unwrap();
    let pending = match session.dispatch_line("profile other") {
        DispatchOutcome::Terminated(end) => match next_action(end) {
            DriverAction::Restart(name) => Some(name),
            _ => panic!("a profile switch must restart the loop"),
        },
        _ => panic!("expected termination"),
    };
    // The next iteration reloads from disk and applies the override.
    let mut reloaded = small_config("default");
    apply_override(&mut reloaded, &pending);
    assert_eq!(reloaded.active_profile, "other");
    assert_eq!(reloaded.api_key, "secret");
    assert_eq!(reloaded.color, Color::Blue);
    assert_eq!(reloaded.profiles.len(), 2);
    let next = ChatSession::new(&reloaded).unwrap();
    assert_eq!(next.model_name, "m-other");
    assert_eq!(next.ledger.len(), 0);
}

#[test]
fn no_override_keeps_the_loaded_pointer() {
    let mut reloaded = small_config("default");
    apply_override(&mut reloaded, &None);
    assert_eq!(reloaded.active_profile, "default");
}

#[test]
fn exit_and_idle_stop_the_loop() {
    assert!(matches!(next_action(SessionEnd::Exit), DriverAction::Stop));
    assert!(matches!(next_action(SessionEnd::Idle), DriverAction::Stop));
}

#[test]
fn bootstrap_defaults_carry_the_fixed_profile() {
    let config = Config::default();
    assert_eq!(config.api_key, "YOUR_API_KEY");
    assert_eq!(config.active_profile, "default");
    assert_eq!(config.color, Color::Blue);
    assert_eq!(config.profiles.len(), 1);
    let p = config.profiles.get("default").expect("default profile");
    assert_eq!(p.model_name, "gemini-2.0-flash");
    assert_eq!(p.chars, 4000);
    assert_eq!(p.system_prompt, vec!["Please reply in about {chars} chars.".to_string()]);
}

#[test]
fn a_structured_failure_reports_its_own_message() {
    let failure = ApiFailure::Structured(ApiErrorResponse {
        error: ApiError {
            code: 429,
            message: "Quota exceeded".to_string(),
            status: "RESOURCE_EXHAUSTED".to_string(),
            details: None,
        },
    });
    match next_action(SessionEnd::Failure(failure)) {
        DriverAction::Report(m) => assert_eq!(m, "Quota exceeded"),
        _ => panic!("a failure must be reported"),
    }
}

#[test]
fn a_malformed_failure_body_still_yields_a_diagnostic() {
    let failure = ApiFailure::Undecodable("expected value at line 1 column 1".to_string());
    match next_action(SessionEnd::Failure(failure)) {
        DriverAction::Report(m) => assert_eq!(m, "expected value at line 1 column 1"),
        _ => panic!("a failure must be reported"),
    }
}

#[test]
fn an_unclassified_failure_reports_the_fixed_line() {
    match next_action(SessionEnd::Failure(ApiFailure::Unknown)) {
        DriverAction::Report(m) => assert_eq!(m, "Unknown error."),
        _ => panic!("a failure must be reported"),
    }
}

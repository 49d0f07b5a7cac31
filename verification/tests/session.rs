use termaite::chat::{
    Candidate, ChatSession, DispatchOutcome, ReplyPart, Role, SessionEnd,
};
use termaite::config::{Color, Config, Profile, ProfileMap};

fn profile(model: &str, lines: &[&str]) -> Profile {
    Profile {
        model_name: model.to_string(),
        chars: 100,
        system_prompt: lines.iter().map(|l| l.to_string()).collect(),
    }
}

fn config_with(active: &str, names: &[&str]) -> Config {
    let mut profiles = ProfileMap::new();
    for n in names {
        profiles.push(n.to_string(), profile(&format!("model-{}", n), &["sys"]));
    }
    Config {
        api_key: "k".to_string(),
        active_profile: active.to_string(),
        profiles,
        color: Color::Cyan,
    }
}

fn text_reply(texts: &[&str]) -> Vec<Candidate> {
    vec![Candidate { parts: texts.iter().map(|t| ReplyPart::Text(t.to_string())).collect() }]
}

#[test]
fn session_captures_the_active_profile() {
    let config = config_with("work", &["default", "work"]);
    let s = ChatSession::new(&config).expect("construction");
    assert_eq!(s.model_name, "model-work");
    assert_eq!(s.system_lines, vec!["sys".to_string()]);
    assert_eq!(s.fg_color, Color::Cyan);
    assert_eq!(s.bg_color, None);
    assert_eq!(s.ledger.len(), 0);
}

#[test]
fn missing_active_profile_falls_back_to_default() {
    let config = config_with("gone", &["default", "work"]);
    let s = ChatSession::new(&config).expect("construction");
    assert_eq!(s.model_name, "model-default");
}

#[test]
fn no_profile_at_all_fails_construction() {
    let config = config_with("gone", &["other"]);
    assert!(ChatSession::new(&config).is_err());
}

#[test]
fn exit_terminates_the_session() {
    let config = config_with("default", &["default"]);
    let mut s = ChatSession::new(&config).unwrap();
    assert!(matches!(
        s.dispatch_line("exit"),
        DispatchOutcome::Terminated(SessionEnd::Exit)
    ));
    assert_eq!(s.ledger.len(), 0);
}

#[test]
fn profile_switch_terminates_with_the_name() {
    let config = config_with("default", &["default"]);
    let mut s = ChatSession::new(&config).unwrap();
    match s.dispatch_line("profile other") {
        DispatchOutcome::Terminated(SessionEnd::ProfileSwitch(name)) => {
            assert_eq!(name, "other")
        }
        _ => panic!("expected a profile switch"),
    }
}

#[test]
fn profile_list_reports_the_known_names() {
    let config = config_with("default", &["default", "work"]);
    let mut s = ChatSession::new(&config).unwrap();
    match s.dispatch_line("profile list") {
        DispatchOutcome::ProfileList(names) => {
            assert_eq!(names, vec!["default".to_string(), "work".to_string()])
        }
        _ => panic!("expected the profile list"),
    }
}

#[test]
fn set_fgcolor_changes_only_the_foreground() {
    let config = config_with("default", &["default"]);
    let mut s = ChatSession::new(&config).unwrap();
    assert!(matches!(s.dispatch_line("set FGCOLOR Red"), DispatchOutcome::Applied));
    assert_eq!(s.fg_color, Color::Red);
    assert_eq!(s.bg_color, None);
}

#[test]
fn set_bgcolor_changes_only_the_background() {
    let config = config_with("default", &["default"]);
    let mut s = ChatSession::new(&config).unwrap();
    assert!(matches!(s.dispatch_line("set bgcolor black"), DispatchOutcome::Applied));
    assert_eq!(s.bg_color, Some(Color::Black));
    assert_eq!(s.fg_color, Color::Cyan);
}

#[test]
fn an_unparsable_color_falls_back() {
    let config = config_with("default", &["default"]);
    let mut s = ChatSession::new(&config).unwrap();
    assert!(matches!(s.dispatch_line("set fgcolor chartreuse"), DispatchOutcome::Applied));
    assert_eq!(s.fg_color, Color::White);
}

#[test]
fn an_unknown_option_changes_nothing() {
    let config = config_with("default", &["default"]);
    let mut s = ChatSession::new(&config).unwrap();
    assert!(matches!(s.dispatch_line("set volume high"), DispatchOutcome::UnknownOption));
    assert_eq!(s.fg_color, Color::Cyan);
    assert_eq!(s.bg_color, None);
}

#[test]
fn a_parse_failure_mutates_nothing() {
    let config = config_with("default", &["default"]);
    let mut s = ChatSession::new(&config).unwrap();
    assert!(matches!(s.dispatch_line(""), DispatchOutcome::ParseFailure(_)));
    assert_eq!(s.ledger.len(), 0);
}

#[test]
fn prompts_and_replies_alternate_in_the_ledger() {
    let config = config_with("default", &["default"]);
    let mut s = ChatSession::new(&config).unwrap();
    let prompts = ["first question", "second question", "third question"];
    let replies = ["first answer", "second answer", "third answer"];
    for (p, r) in prompts.iter().zip(replies.iter()) {
        assert!(matches!(s.dispatch_line(p), DispatchOutcome::CallModel));
        let texts = s.record_reply(&text_reply(&[r]));
        assert_eq!(texts, vec![r.to_string()]);
    }
    let turns = s.ledger.iterate();
    assert_eq!(turns.len(), 6);
    for i in 0..3 {
        assert_eq!(turns[2 * i].role, Role::User);
        assert_eq!(turns[2 * i].text, prompts[i]);
        assert_eq!(turns[2 * i + 1].role, Role::Model);
        assert_eq!(turns[2 * i + 1].text, replies[i]);
    }
}

#[test]
fn non_text_parts_are_silently_skipped() {
    let config = config_with("default", &["default"]);
    let mut s = ChatSession::new(&config).unwrap();
    assert!(matches!(s.dispatch_line("ask"), DispatchOutcome::CallModel));
    let reply = vec![Candidate {
        parts: vec![
            ReplyPart::Other,
            ReplyPart::Text("kept".to_string()),
            ReplyPart::Other,
        ],
    }];
    let texts = s.record_reply(&reply);
    assert_eq!(texts, vec!["kept".to_string()]);
    let turns = s.ledger.iterate();
    assert_eq!(turns.len(), 2);
    assert_eq!(turns[1].role, Role::Model);
    assert_eq!(turns[1].text, "kept");
}

#[test]
fn every_candidate_contributes_its_texts_in_order() {
    let config = config_with("default", &["default"]);
    let mut s = ChatSession::new(&config).unwrap();
    let reply = vec![
        Candidate { parts: vec![ReplyPart::Text("a".to_string())] },
        Candidate { parts: vec![ReplyPart::Text("b".to_string()), ReplyPart::Text("c".to_string())] },
    ];
    let texts = s.record_reply(&reply);
    assert_eq!(texts, vec!["a".to_string(), "b".to_string(), "c".to_string()]);
}

#[test]
fn the_request_replays_the_whole_ledger() {
    let config = config_with("default", &["default"]);
    let mut s = ChatSession::new(&config).unwrap();
    assert!(matches!(s.dispatch_line("question one"), DispatchOutcome::CallModel));
    s.record_reply(&text_reply(&["answer one"]));
    assert!(matches!(s.dispatch_line("question two"), DispatchOutcome::CallModel));
    let req = s.build_request();
    assert_eq!(req.system_parts, vec!["sys".to_string()]);
    assert_eq!(req.contents.len(), 3);
    assert_eq!(req.contents[0].role, Role::User);
    assert_eq!(req.contents[0].text, "question one");
    assert_eq!(req.contents[1].role, Role::Model);
    assert_eq!(req.contents[1].text, "answer one");
    assert_eq!(req.contents[2].role, Role::User);
    assert_eq!(req.contents[2].text, "question two");
}

use termaite::config::{Color, Config, Profile, ProfileMap};

fn profile_with(chars: usize, lines: &[&str]) -> Profile {
    Profile {
        model_name: "gemini-2.0-flash".to_string(),
        chars,
        system_prompt: lines.iter().map(|l| l.to_string()).collect(),
    }
}

#[test]
fn template_substitutes_the_target_length() {
    let p = profile_with(4000, &["Reply in {chars} chars."]);
    let r = p.rendered();
    assert_eq!(r.system_prompt, vec!["Reply in 4000 chars.".to_string()]);
    assert_eq!(r.model_name, "gemini-2.0-flash");
    assert_eq!(r.chars, 4000);
}

#[test]
fn rendering_twice_is_a_no_op() {
    let p = profile_with(4000, &["Reply in {chars} chars."]);
    let once = p.rendered();
    let twice = once.rendered();
    assert_eq!(once.system_prompt, twice.system_prompt);
}

#[test]
fn every_occurrence_is_substituted() {
    let p = profile_with(7, &["{chars}{chars}", "a {chars} b {chars} c"]);
    let r = p.rendered();
    assert_eq!(r.system_prompt, vec!["77".to_string(), "a 7 b 7 c".to_string()]);
}

#[test]
fn a_line_without_the_placeholder_is_unchanged() {
    let p = profile_with(123, &["no placeholder here", "{char} {charss}"]);
    let r = p.rendered();
    assert_eq!(
        r.system_prompt,
        vec!["no placeholder here".to_string(), "{char} {charss}".to_string()]
    );
}

#[test]
fn config_render_touches_every_profile_and_nothing_else() {
    let mut profiles = ProfileMap::new();
    profiles.push("default".to_string(), profile_with(10, &["be {chars} short"]));
    profiles.push("long".to_string(), profile_with(9000, &["be {chars} long"]));
    let mut config = Config {
        api_key: "k".to_string(),
        active_profile: "default".to_string(),
        profiles,
        color: Color::Green,
    };
    config.render();
    assert_eq!(config.api_key, "k");
    assert_eq!(config.active_profile, "default");
    assert_eq!(config.color, Color::Green);
    let d = config.profiles.get("default").expect("default profile");
    assert_eq!(d.system_prompt, vec!["be 10 short".to_string()]);
    let l = config.profiles.get("long").expect("long profile");
    assert_eq!(l.system_prompt, vec!["be 9000 long".to_string()]);
}

#[test]
fn color_names_parse_case_insensitively() {
    assert_eq!(Color::parse("Red"), Color::Red);
    assert_eq!(Color::parse("RED"), Color::Red);
    assert_eq!(Color::parse("red"), Color::Red);
    assert_eq!(Color::parse("blue"), Color::Blue);
    assert_eq!(Color::parse("Cyan"), Color::Cyan);
    assert_eq!(Color::parse("grey"), Color::Grey);
    assert_eq!(Color::parse("Black"), Color::Black);
    assert_eq!(Color::parse("green"), Color::Green);
    assert_eq!(Color::parse("Reset"), Color::Reset);
    assert_eq!(Color::parse("white"), Color::White);
    assert_eq!(Color::parse("YELLOW"), Color::Yellow);
}

#[test]
fn unrecognized_color_falls_back_to_white() {
    assert_eq!(Color::parse("magenta"), Color::White);
    assert_eq!(Color::parse(""), Color::White);
}

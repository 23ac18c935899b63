use rtop::chars::{parse_u64, trimmed_lower};
use rtop::config::{AppConfig, ThemeName};
use rtop::input::{handle_key, Key, KeyAction};
use rtop::metrics::SamplerCommand;

fn args(list: &[&str]) -> Vec<String> {
    list.iter().map(|s| s.to_string()).collect()
}

#[test]
fn theme_names_are_trimmed_and_case_blind() {
    assert_eq!(ThemeName::parse("ocean"), Some(ThemeName::Ocean));
    assert_eq!(ThemeName::parse("  Ember\t"), Some(ThemeName::Ember));
    assert_eq!(ThemeName::parse("MONO"), Some(ThemeName::Mono));
    assert_eq!(ThemeName::parse("monochrome"), Some(ThemeName::Mono));
    assert_eq!(ThemeName::parse("gruvbox"), Some(ThemeName::GruvboxDark));
    assert_eq!(ThemeName::parse("Gruvbox-Dark"), Some(ThemeName::GruvboxDark));
    assert_eq!(ThemeName::parse("gruvbox_dark\n"), Some(ThemeName::GruvboxDark));
    assert_eq!(ThemeName::parse("\u{3000}ocean\u{a0}"), Some(ThemeName::Ocean));
}

#[test]
fn unknown_theme_names_are_refused() {
    assert_eq!(ThemeName::parse(""), None);
    assert_eq!(ThemeName::parse("oce an"), None);
    assert_eq!(ThemeName::parse("solarized"), None);
    assert_eq!(ThemeName::parse("gruvbox dark"), None);
    assert_eq!(ThemeName::parse("\u{c9}mber"), None);
}

#[test]
fn trimming_matches_std() {
    for s in ["", "  a b  ", "\u{2003}x\u{2029}", "\u{85}Q\u{1680}", "\u{200b}z", "ÄbC"] {
        let expected: Vec<char> = s.trim().to_ascii_lowercase().chars().collect();
        assert_eq!(trimmed_lower(s), expected, "{s:?}");
    }
}

#[test]
fn theme_cycle_follows_the_key_order() {
    let start = ThemeName::Ocean;
    assert_eq!(start.next(), ThemeName::Ember);
    assert_eq!(start.next().next(), ThemeName::Mono);
    assert_eq!(start.next().next().next(), ThemeName::Ocean);
    assert_eq!(ThemeName::Mono.next(), ThemeName::Ocean);
    assert_eq!(ThemeName::GruvboxDark.next(), ThemeName::Ocean);
    for t in [ThemeName::Ocean, ThemeName::Ember, ThemeName::Mono] {
        assert_eq!(t.next().next().next(), t);
        assert_ne!(t.next(), t);
    }
    for t in [ThemeName::Ocean, ThemeName::Ember, ThemeName::Mono, ThemeName::GruvboxDark] {
        assert_ne!(t.next(), ThemeName::GruvboxDark);
    }
}

#[test]
fn numbers_parse_as_std_parses_them() {
    let cases = [
        "0", "7", "+7", "+", "-", "-0", "", " 1", "1 ", "12a", "007", "18446744073709551615",
        "18446744073709551616", "99999999999999999999", "+18446744073709551615", "١٢",
    ];
    for s in cases {
        assert_eq!(parse_u64(s), s.parse::<u64>().ok(), "{s:?}");
    }
}

#[test]
fn defaults_apply_without_settings() {
    let c = AppConfig::from_sources(None, None, &args(&[]));
    assert_eq!(c.sample_interval_ms, 200);
    assert_eq!(c.frame_interval_ms, 100);
    assert_eq!(c.theme, ThemeName::GruvboxDark);
}

#[test]
fn environment_then_arguments() {
    let c = AppConfig::from_sources(Some("150"), Some("mono"), &args(&[]));
    assert_eq!((c.sample_interval_ms, c.theme), (150, ThemeName::Mono));
    let c = AppConfig::from_sources(Some("150"), Some("mono"), &args(&["--interval", "300", "--theme", "ember"]));
    assert_eq!((c.sample_interval_ms, c.theme), (300, ThemeName::Ember));
}

#[test]
fn intervals_are_clamped() {
    let c = AppConfig::from_sources(Some("10"), None, &args(&[]));
    assert_eq!(c.sample_interval_ms, 50);
    let c = AppConfig::from_sources(None, None, &args(&["--interval", "999999"]));
    assert_eq!(c.sample_interval_ms, 5000);
}

#[test]
fn bad_values_keep_the_previous_setting() {
    let c = AppConfig::from_sources(Some("fast"), Some("neon"), &args(&["--interval", "x", "--theme", "y"]));
    assert_eq!((c.sample_interval_ms, c.theme), (200, ThemeName::GruvboxDark));
}

#[test]
fn option_value_is_consumed_even_when_it_looks_like_an_option() {
    let c = AppConfig::from_sources(None, None, &args(&["--interval", "--theme", "ocean"]));
    assert_eq!((c.sample_interval_ms, c.theme), (200, ThemeName::GruvboxDark));
    let c = AppConfig::from_sources(None, None, &args(&["--theme"]));
    assert_eq!(c.theme, ThemeName::GruvboxDark);
    let c = AppConfig::from_sources(None, None, &args(&["-v", "--theme", "ocean", "extra"]));
    assert_eq!(c.theme, ThemeName::Ocean);
}

#[test]
fn later_arguments_win() {
    let c = AppConfig::from_sources(None, None, &args(&["--interval", "60", "--interval", "70"]));
    assert_eq!(c.sample_interval_ms, 70);
}

fn config(ms: u64, theme: ThemeName) -> AppConfig {
    AppConfig { sample_interval_ms: ms, frame_interval_ms: 100, theme }
}

#[test]
fn quit_keys() {
    let c = config(200, ThemeName::Ocean);
    assert_eq!(handle_key(c, Key::Char('q'), true), KeyAction::Quit);
    assert_eq!(handle_key(c, Key::Esc, true), KeyAction::Quit);
    assert_eq!(
        handle_key(c, Key::Esc, false),
        KeyAction::Continue { config: c, interval_changed: false }
    );
}

#[test]
fn interval_keys_step_by_25_within_limits() {
    let c = config(200, ThemeName::Ocean);
    assert_eq!(
        handle_key(c, Key::Char('+'), true),
        KeyAction::Continue { config: config(225, ThemeName::Ocean), interval_changed: true }
    );
    assert_eq!(
        handle_key(c, Key::Char('='), true),
        KeyAction::Continue { config: config(225, ThemeName::Ocean), interval_changed: true }
    );
    assert_eq!(
        handle_key(c, Key::Char('-'), true),
        KeyAction::Continue { config: config(175, ThemeName::Ocean), interval_changed: true }
    );
    assert_eq!(
        handle_key(config(60, ThemeName::Ocean), Key::Char('-'), true),
        KeyAction::Continue { config: config(50, ThemeName::Ocean), interval_changed: true }
    );
    assert_eq!(
        handle_key(config(50, ThemeName::Ocean), Key::Char('-'), true),
        KeyAction::Continue { config: config(50, ThemeName::Ocean), interval_changed: false }
    );
    assert_eq!(
        handle_key(config(4990, ThemeName::Ocean), Key::Char('+'), true),
        KeyAction::Continue { config: config(5000, ThemeName::Ocean), interval_changed: true }
    );
}

#[test]
fn theme_key_cycles() {
    let mut c = config(200, ThemeName::GruvboxDark);
    for expected in [ThemeName::Ocean, ThemeName::Ember, ThemeName::Mono, ThemeName::Ocean, ThemeName::Ember, ThemeName::Mono] {
        match handle_key(c, Key::Char('t'), true) {
            KeyAction::Continue { config, interval_changed } => {
                assert!(!interval_changed);
                assert_eq!(config.theme, expected);
                c = config;
            }
            KeyAction::Quit => panic!("t must not quit"),
        }
    }
    assert_eq!(c, config(200, ThemeName::Mono));
    assert_eq!(
        handle_key(c, Key::Other, true),
        KeyAction::Continue { config: c, interval_changed: false }
    );
}

#[test]
fn sampler_commands_carry_milliseconds() {
    assert_eq!(SamplerCommand::SetInterval(225), SamplerCommand::SetInterval(225));
    assert_ne!(SamplerCommand::SetInterval(225), SamplerCommand::SetInterval(250));
}

#[test]
fn plus_then_minus_returns_to_the_start() {
    let c = config(300, ThemeName::Ember);
    let up = match handle_key(c, Key::Char('+'), true) {
        KeyAction::Continue { config, .. } => config,
        KeyAction::Quit => panic!("+ must not quit"),
    };
    match handle_key(up, Key::Char('-'), true) {
        KeyAction::Continue { config, .. } => assert_eq!(config, c),
        KeyAction::Quit => panic!("- must not quit"),
    }
}

#[test]
fn configured_interval_stays_in_range() {
    for v in ["0", "49", "50", "5000", "5001", "18446744073709551615", "abc"] {
        let c = AppConfig::from_sources(Some(v), None, &args(&["--interval", v]));
        assert!((50..=5000).contains(&c.sample_interval_ms), "{v}");
    }
}

#[test]
fn theme_names_ignore_ascii_case() {
    for name in ["ocean", "Ember", "MONO", "monochrome", "gruvbox", "Gruvbox-Dark", "gruvbox_dark", "nope", " mono\t", ""] {
        assert_eq!(ThemeName::parse(name), ThemeName::parse(&name.to_ascii_uppercase()), "{name:?}");
        assert_eq!(ThemeName::parse(name), ThemeName::parse(&name.to_ascii_lowercase()), "{name:?}");
    }
}

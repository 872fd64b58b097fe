use crossterm::style::Color;
use herdr_modes::config::{build, parse_color, BindingConfig, File, Loaded, ModeConfig, UiConfig, Ui};
use herdr_modes::keymap::{shared_exits, Action, Dir, KeyCode, KeyEvent};

/// A config with the given `[ui] accent` and mode tables.
fn file(accent: Option<&str>, modes: Vec<(&str, ModeConfig)>) -> File {
    File {
        modes: modes.into_iter().map(|(n, m)| (n.to_string(), m)).collect(),
        ui: UiConfig { accent: accent.map(str::to_string) },
    }
}

/// A `[modes.<name>]` table with just these keys.
fn keys(bindings: &[(&str, &str)]) -> ModeConfig {
    ModeConfig {
        label: None,
        hint: None,
        defaults: true,
        keys: bindings
            .iter()
            .map(|(k, a)| (k.to_string(), BindingConfig::Action(a.to_string())))
            .collect(),
    }
}

fn load(f: File) -> Loaded {
    build(f, Vec::new())
}

fn press(c: char) -> KeyEvent {
    KeyEvent { code: KeyCode::Char(c), ctrl: false }
}

#[test]
fn accent_defaults_to_terminal_magenta() {
    let loaded = load(File::empty());
    assert_eq!(loaded.ui.accent, Color::Magenta);
    assert!(loaded.warnings.is_empty());
    assert_eq!(Ui::default().accent, Color::Magenta);
}

#[test]
fn accent_accepts_hex_with_or_without_hash() {
    let mauve = Color::Rgb { r: 0xcb, g: 0xa6, b: 0xf7 };
    assert_eq!(parse_color("#cba6f7"), Ok(mauve));
    assert_eq!(parse_color("cba6f7"), Ok(mauve));
    assert_eq!(parse_color("CBA6F7"), Ok(mauve));
}

#[test]
fn accent_accepts_crossterm_names() {
    assert_eq!(parse_color("blue"), Ok(Color::Blue));
    assert_eq!(parse_color("dark_red"), Ok(Color::DarkRed));
    assert_eq!(parse_color("Cyan"), Ok(Color::Cyan));
}

#[test]
fn bad_accent_warns_and_keeps_the_default() {
    let loaded = load(file(Some("mauve"), vec![]));
    assert_eq!(loaded.ui.accent, Color::Magenta);
    assert_eq!(loaded.warnings.len(), 1);
    assert!(loaded.warnings[0].starts_with("[ui] accent:"), "{:?}", loaded.warnings);
    assert!(parse_color("#cba6").is_err());
    assert!(parse_color("#gggggg").is_err());
}

#[test]
fn accent_reaches_the_ui_alongside_the_modes() {
    let loaded = load(file(Some("#cba6f7"), vec![("pane", keys(&[("h", "focus_left")]))]));
    assert!(loaded.warnings.is_empty(), "{:?}", loaded.warnings);
    assert!(matches!(loaded.ui.accent, Color::Rgb { .. }));
    assert!(loaded.mode("pane").unwrap().keys.len() > shared_exits().len());
}

// Beyond the scenarios above.

#[test]
fn a_bad_colour_says_what_it_wanted() {
    assert_eq!(
        parse_color(" mauve "),
        Err("`mauve` is not #rrggbb or a colour name such as `magenta`".to_string())
    );
    assert_eq!(parse_color("  #000000 "), Ok(Color::Rgb { r: 0, g: 0, b: 0 }));
}

#[test]
fn every_built_in_mode_is_built_even_without_a_file() {
    let loaded = load(File::empty());
    let names: Vec<&str> = loaded.modes.iter().map(|(n, _)| n.as_str()).collect();
    assert_eq!(names, ["agent", "move", "pane", "space", "tab"]);
    let pane = loaded.mode("pane").unwrap();
    assert_eq!(pane.label, "PANE");
    assert_eq!(pane.keys.len(), shared_exits().len());
    assert!(loaded.mode("nowhere").is_none());
}

#[test]
fn a_mode_the_config_names_is_built_too() {
    let loaded = load(file(None, vec![("resize", keys(&[("h", "focus_left")]))]));
    let names: Vec<&str> = loaded.modes.iter().map(|(n, _)| n.as_str()).collect();
    assert_eq!(names, ["agent", "move", "pane", "resize", "space", "tab"]);
    assert_eq!(loaded.mode("resize").unwrap().label, "RESIZE");
}

#[test]
fn a_typo_costs_one_binding_not_the_keymap() {
    let loaded = load(file(None, vec![("pane", keys(&[("h", "focus_left"), ("j", "focus_dwon"), ("zz", "zoom")]))]));
    assert_eq!(loaded.warnings.len(), 2, "{:?}", loaded.warnings);
    assert_eq!(loaded.warnings[0], "[pane] key `j`: unknown action `focus_dwon`");
    assert_eq!(loaded.warnings[1], "[pane] unrecognised key `zz`");
    let pane = loaded.mode("pane").unwrap();
    let b = pane.lookup(&press('h')).expect("h still bound");
    assert!(b.action == Action::Focus(Dir::Left));
    assert!(!b.sticky);
}

#[test]
fn an_empty_action_unbinds_and_defaults_false_starts_empty() {
    let mut cfg = keys(&[("esc", "")]);
    cfg.label = Some("WINDOW".into());
    let loaded = load(file(None, vec![("pane", cfg)]));
    let pane = loaded.mode("pane").unwrap();
    assert_eq!(pane.label, "WINDOW");
    assert_eq!(pane.keys.len(), shared_exits().len() - 1);
    assert!(pane.lookup(&KeyEvent { code: KeyCode::Esc, ctrl: false }).is_none());

    let mut bare = keys(&[]);
    bare.defaults = false;
    let loaded = load(file(None, vec![("tab", bare)]));
    assert!(loaded.mode("tab").unwrap().keys.is_empty());
}

#[test]
fn a_full_binding_sets_stickiness() {
    let cfg = ModeConfig {
        label: None,
        hint: Some(String::new()),
        defaults: true,
        keys: vec![(
            "k".to_string(),
            BindingConfig::Full { action: "focus_up".to_string(), sticky: Some(true) },
        )],
    };
    let loaded = load(file(None, vec![("pane", cfg)]));
    let pane = loaded.mode("pane").unwrap();
    assert!(pane.lookup(&press('k')).unwrap().sticky);
    assert_eq!(pane.hint_text(), None);
}

#[test]
fn warnings_already_found_come_first() {
    let loaded = build(file(Some("nope"), vec![]), vec!["config.toml: bad".to_string()]);
    assert_eq!(loaded.warnings[0], "config.toml: bad");
    assert!(loaded.warnings[1].starts_with("[ui] accent: `nope`"));
}

#[test]
fn colour_names_are_read_in_any_case() {
    assert_eq!(parse_color("Blue"), Ok(Color::Blue));
    assert_eq!(parse_color(" DARK_GREY "), Ok(Color::DarkGrey));
    assert_eq!(parse_color("reset"), Ok(Color::Reset));
    assert_eq!(parse_color("Grey"), Ok(Color::Grey));
    assert!(parse_color("dark grey").is_err());
}

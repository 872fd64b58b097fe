use herdr_modes::keymap::{
    actions, shared_exits, Action, Binding, Dir, Group, Key, KeyCode, KeyEvent, KeySpec, Mode,
};
use std::collections::BTreeSet;

fn key(c: char) -> KeySpec {
    KeySpec {
        ctrl: false,
        key: Key::Char(c),
    }
}

#[test]
fn names_are_unique() {
    let table = actions();
    let names: BTreeSet<_> = table.iter().map(|s| s.name).collect();
    assert_eq!(names.len(), table.len());
}

#[test]
fn every_name_parses_and_finds_its_own_row() {
    for spec in actions() {
        let k = if spec.takes_digit() {
            key('3')
        } else {
            key('h')
        };
        let action = Action::parse(spec.name, &k)
            .unwrap_or_else(|e| panic!("{} did not parse: {e}", spec.name));
        assert_eq!(action.spec().name, spec.name);
        assert_eq!(action.hint_label(), spec.label);
        assert_eq!(action.may_leave_tab(), spec.leaves_tab);
    }
}

#[test]
fn goto_reads_the_digit_and_refuses_other_keys() {
    assert!(Action::parse("goto_tab", &key('7')).unwrap() == Action::GotoTab(7));
    assert!(Action::parse("goto_agent", &key('1')).unwrap() == Action::GotoAgent(1));
    assert!(Action::parse("goto_space", &key('9')).unwrap() == Action::GotoSpace(9));
    assert!(Action::parse("goto_tab", &key('0')).is_err());
    assert!(Action::parse("goto_tab", &key('h')).is_err());
    assert!(Action::parse("goto_nowhere", &key('1')).is_err());
}

#[test]
fn parse_errors_name_the_problem() {
    assert_eq!(
        Action::parse("goto_nowhere", &key('1')).unwrap_err(),
        "unknown action `goto_nowhere`"
    );
    assert_eq!(
        Action::parse("goto_tab", &key('0')).unwrap_err(),
        "goto_tab must be bound to a digit 1-9"
    );
}

#[test]
fn the_hop_set_is_unchanged() {
    let leaving: BTreeSet<_> = actions()
        .iter()
        .filter(|s| s.leaves_tab)
        .map(|s| s.name)
        .collect();
    let expected: BTreeSet<_> = [
        "prev_tab",
        "next_tab",
        "last_tab",
        "goto_tab",
        "new_tab",
        "break_pane_new",
        "break_pane_prev",
        "break_pane_next",
        "prev_agent",
        "next_agent",
        "last_agent",
        "goto_agent",
        "next_attention",
        "prev_attention",
        "prev_space",
        "next_space",
        "last_space",
        "goto_space",
        "next_space_attention",
        "prev_space_attention",
    ]
    .into_iter()
    .collect();
    assert_eq!(leaving, expected);
}

#[test]
fn every_group_is_listed_in_doc_order() {
    let names: Vec<&str> = Group::all().iter().map(|g| g.as_str()).collect();
    assert_eq!(names, ["pane", "tab", "move", "agent", "space", "any"]);
    assert_eq!(Dir::Left.as_str(), "left");
    assert_eq!(Dir::Down.as_str(), "down");
}

#[test]
fn key_strings_parse() {
    assert_eq!(KeySpec::parse("h").unwrap(), key('h'));
    assert_eq!(KeySpec::parse("H").unwrap(), key('H'));
    assert_eq!(KeySpec::parse("space").unwrap(), key(' '));
    assert_eq!(
        KeySpec::parse("ctrl+c").unwrap(),
        KeySpec {
            ctrl: true,
            key: Key::Char('c')
        }
    );
    assert_eq!(KeySpec::parse("return").unwrap().key, Key::Enter);
    assert_eq!(KeySpec::parse("escape").unwrap().key, Key::Esc);
    assert_eq!(KeySpec::parse("tab").unwrap().key, Key::Tab);
    assert_eq!(KeySpec::parse("backspace").unwrap().key, Key::Backspace);
    assert_eq!(KeySpec::parse("hh").unwrap_err(), "unrecognised key `hh`");
    assert!(KeySpec::parse("").is_err());
    assert!(KeySpec::parse("ctrl+").is_err());
}

#[test]
fn key_text_is_what_a_config_writes() {
    for raw in ["h", "ctrl+c", "space", "tab", "enter", "esc", "backspace", "ctrl+space"] {
        assert_eq!(KeySpec::parse(raw).unwrap().to_text(), raw);
    }
}

#[test]
fn ctrl_chords_are_looked_up_lowercase() {
    let ev = KeyEvent {
        code: KeyCode::Char('C'),
        ctrl: true,
    };
    assert_eq!(
        KeySpec::from_event(&ev),
        Some(KeySpec {
            ctrl: true,
            key: Key::Char('c')
        })
    );
    let back = KeyEvent {
        code: KeyCode::BackTab,
        ctrl: false,
    };
    assert_eq!(KeySpec::from_event(&back).unwrap().key, Key::Tab);
    let other = KeyEvent {
        code: KeyCode::Other,
        ctrl: false,
    };
    assert_eq!(KeySpec::from_event(&other), None);
}

fn empty_mode() -> Mode {
    Mode {
        label: "PANE".into(),
        hint: None,
        keys: Vec::new(),
    }
}

fn press(c: char) -> KeyEvent {
    KeyEvent {
        code: KeyCode::Char(c),
        ctrl: false,
    }
}

fn plain(action: Action) -> Binding {
    Binding {
        action,
        sticky: false,
    }
}

#[test]
fn bind_replaces_in_place_and_unbind_removes() {
    let mut m = empty_mode();
    m.bind(key('h'), plain(Action::Focus(Dir::Left)));
    m.bind(key('l'), plain(Action::Focus(Dir::Right)));
    m.bind(key('h'), plain(Action::Zoom));
    assert_eq!(m.keys.len(), 2);
    assert_eq!(m.keys[0].0, key('h'));
    assert_eq!(m.lookup(&press('h')), Some(plain(Action::Zoom)));
    assert_eq!(m.lookup(&press('l')), Some(plain(Action::Focus(Dir::Right))));
    m.unbind(key('h'));
    assert_eq!(m.lookup(&press('h')), None);
    assert_eq!(m.lookup(&press('l')), Some(plain(Action::Focus(Dir::Right))));
    assert_eq!(m.keys.len(), 1);
}

#[test]
fn hint_collapses_keys_sharing_a_label() {
    let mut m = empty_mode();
    for (c, d) in [('h', Dir::Left), ('j', Dir::Down), ('k', Dir::Up), ('l', Dir::Right)] {
        m.bind(key(c), plain(Action::Focus(d)));
    }
    m.bind(key('x'), plain(Action::ClosePane));
    m.bind(KeySpec::parse("esc").unwrap(), plain(Action::Quit));
    m.bind(KeySpec::parse("enter").unwrap(), plain(Action::Quit));
    m.bind(key('?'), plain(Action::Quit));
    assert_eq!(
        m.hint_text().unwrap(),
        "hjkl focus  x close  esc/enter/? exit"
    );
}

#[test]
fn a_configured_hint_wins_and_an_empty_one_hides_the_bar() {
    let mut m = empty_mode();
    m.bind(key('h'), plain(Action::Focus(Dir::Left)));
    m.hint = Some("custom".into());
    assert_eq!(m.hint_text().as_deref(), Some("custom"));
    m.hint = Some(String::new());
    assert_eq!(m.hint_text(), None);
    assert_eq!(empty_mode().hint_text().as_deref(), Some(""));
}

#[test]
fn the_exits_are_the_only_defaults() {
    let exits = shared_exits();
    assert_eq!(exits, [("esc", "exit"), ("enter", "exit"), ("ctrl+c", "exit")]);
}

#[test]
fn every_key_text_parses_back_to_its_key() {
    for s in ["h", "H", "1", "tab", "enter", "esc", "backspace", "space", "ctrl+c", "ctrl+space", "ctrl+tab"] {
        let k = KeySpec::parse(s).unwrap();
        assert_eq!(KeySpec::parse(&k.to_text()).unwrap(), k);
    }
    assert_eq!(KeySpec::parse("return").unwrap().to_text(), "enter");
    assert_eq!(KeySpec::parse("escape").unwrap().to_text(), "esc");
}

#[test]
fn the_action_listing_pads_and_says_which_actions_hop() {
    let rows = herdr_modes::keymap::actions();
    let pane = herdr_modes::keymap::listing(&rows, herdr_modes::keymap::Group::Pane);
    assert_eq!(pane.len(), 10);
    assert_eq!(
        pane[0],
        format!("  {:<28} {:<10} {}", "focus_left", "focus", "stays on the tab")
    );
    let tab = herdr_modes::keymap::listing(&rows, herdr_modes::keymap::Group::Tab);
    assert_eq!(
        tab[3],
        format!("  {:<28} {:<10} {}", "goto_tab (bind to 1-9)", "goto", "may leave the tab, so a sticky binding hops")
    );
}

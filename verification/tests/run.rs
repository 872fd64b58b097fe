use herdr_modes::client::{Api, Error, Json};
use herdr_modes::keymap::{Action, Binding, Dir, KeyCode, KeyEvent, KeySpec, Mode};
use herdr_modes::modes::Session;
use herdr_modes::resume::{NoteStore, Resume, Store, Stored};
use herdr_modes::run::{opening_feedback, Driver, Outcome};

const SOCKET: &str = "/run/herdr/test.sock";
const MODE: &str = "tab";

/// A server that answers from a script and remembers what it was asked.
struct FakeApi {
    replies: Vec<(String, Result<Json, Error>)>,
    calls: Vec<(String, Json)>,
}

impl FakeApi {
    fn new() -> FakeApi {
        FakeApi { replies: Vec::new(), calls: Vec::new() }
    }

    fn reply(mut self, method: &str, v: Json) -> FakeApi {
        self.replies.push((method.to_string(), Ok(v)));
        self
    }

    fn fail(mut self, method: &str, code: &str, message: &str) -> FakeApi {
        self.replies.push((
            method.to_string(),
            Err(Error::Api { code: code.to_string(), message: message.to_string() }),
        ));
        self
    }

    fn methods(&self) -> Vec<&str> {
        self.calls.iter().map(|(m, _)| m.as_str()).collect()
    }

    /// The calls, as text, for comparing with what a test expects.
    fn calls(&self) -> Vec<(String, String)> {
        self.calls.iter().map(|(m, p)| (m.clone(), format!("{p:?}"))).collect()
    }
}

impl Api for FakeApi {
    fn call(&mut self, method: &str, params: Json) -> Result<Json, Error> {
        self.calls.push((method.to_string(), params));
        match self.replies.iter().position(|(m, _)| m == method) {
            Some(i) => self.replies.remove(i).1,
            None => Ok(Json::Obj(Vec::new())),
        }
    }
}

/// Notes kept in memory, one per path.
#[derive(Default)]
struct MemNotes {
    kept: Vec<(String, Option<Resume>)>,
}

impl NoteStore for MemNotes {
    fn write(&mut self, store: &Store, note: &Resume) -> Result<(), Error> {
        self.clear(store);
        self.kept.push((store.path().to_string(), Some(note.clone())));
        Ok(())
    }

    fn read(&mut self, store: &Store) -> Stored {
        match self.kept.iter().find(|(p, _)| p == store.path()) {
            Some((_, Some(n))) => Stored::Note(n.clone()),
            Some((_, None)) => Stored::Garbled,
            None => Stored::Absent,
        }
    }

    fn clear(&mut self, store: &Store) {
        self.kept.retain(|(p, _)| p != store.path());
    }

    fn holds(&mut self, store: &Store) -> bool {
        self.kept.iter().any(|(p, _)| p == store.path())
    }
}

fn st(v: &str) -> Json {
    Json::Str(v.to_string())
}

fn obj(members: &[(&str, Json)]) -> Json {
    Json::Obj(members.iter().map(|(k, v)| (k.to_string(), clone_json(v))).collect())
}

fn clone_json(v: &Json) -> Json {
    match v {
        Json::Null => Json::Null,
        Json::Bool(b) => Json::Bool(*b),
        Json::Num(n) => Json::Num(n.clone()),
        Json::Str(t) => Json::Str(t.clone()),
        Json::Arr(a) => Json::Arr(a.iter().map(clone_json).collect()),
        Json::Obj(es) => Json::Obj(es.iter().map(|(k, v)| (k.clone(), clone_json(v))).collect()),
    }
}

fn call(method: &str, params: Json) -> (String, String) {
    (method.to_string(), format!("{params:?}"))
}

fn key(c: char) -> KeyEvent {
    KeyEvent { code: KeyCode::Char(c), ctrl: false }
}

/// A mode with one binding per `(key, action, sticky)`.
fn mode(bindings: &[(char, Action, bool)]) -> Mode {
    Mode {
        label: MODE.to_uppercase(),
        hint: None,
        keys: bindings
            .iter()
            .map(|(c, action, sticky)| {
                let spec = KeySpec::parse(&c.to_string()).unwrap();
                (spec, Binding { action: *action, sticky: *sticky })
            })
            .collect(),
    }
}

fn store() -> Store {
    Store::new("/tmp/herdr-modes-test", SOCKET)
}

/// A driver on pane `p1` of tab `t1` in space `w1`.
fn driver<'m>(api: FakeApi, mode: &'m Mode) -> Driver<'m, FakeApi, MemNotes> {
    let session = Session::new(
        api,
        MemNotes::default(),
        store(),
        "herdr-modes".to_string(),
        "w1".to_string(),
        "t1".to_string(),
        "p1".to_string(),
    );
    Driver::new(session, MODE, mode)
}

fn tabs(ids: &[&str]) -> Json {
    let rows = ids.iter().map(|id| obj(&[("tab_id", st(id))])).collect();
    obj(&[("tabs", Json::Arr(rows))])
}

fn focused_tab(id: &str) -> Json {
    obj(&[("snapshot", obj(&[("focused_tab_id", st(id))]))])
}

fn no_prompt(_: &str) -> Option<String> {
    None
}

#[test]
fn a_sticky_tab_switch_that_lands_elsewhere_hops() {
    let api = FakeApi::new()
        .reply("tab.list", tabs(&["t1", "t2"]))
        .reply("session.snapshot", focused_tab("t2"))
        .reply("session.snapshot", focused_tab("t2"));
    let mode = mode(&[('n', Action::NextTab, true)]);
    let mut d = driver(api, &mode);

    let outcome = d.step(&key('n'), "", no_prompt);

    assert_eq!(outcome, Outcome::Hop);
    assert_eq!(
        d.session.api.methods(),
        ["tab.list", "tab.focus", "session.snapshot", "session.snapshot", "plugin.action.invoke"]
    );
    let note = store().pending(&mut d.session.files, MODE).expect("note left for open");
    assert_eq!(note.feedback, "tab 2/2");
    assert_eq!(note.prev_tab_id.as_deref(), Some("t1"));
}

#[test]
fn a_sticky_tab_switch_that_stays_put_continues() {
    // The server reports the same tab after the switch, so as far as the
    // popup is concerned nothing moved.
    let api = FakeApi::new()
        .reply("tab.list", tabs(&["t1", "t2"]))
        .reply("session.snapshot", focused_tab("t1"))
        .reply("session.snapshot", focused_tab("t1"));
    let mode = mode(&[('n', Action::NextTab, true)]);
    let mut d = driver(api, &mode);

    let outcome = d.step(&key('n'), "", no_prompt);

    assert_eq!(outcome, Outcome::Continue("tab 2/2".into()));
    assert!(!d.session.api.methods().contains(&"plugin.action.invoke"));
    assert!(!store().still_pending(&mut d.session.files));
}

#[test]
fn a_non_sticky_action_exits_without_hopping() {
    let api = FakeApi::new()
        .reply("tab.list", tabs(&["t1", "t2"]))
        .reply("session.snapshot", focused_tab("t2"));
    let mode = mode(&[('n', Action::NextTab, false)]);
    let mut d = driver(api, &mode);

    let outcome = d.step(&key('n'), "", no_prompt);

    assert_eq!(outcome, Outcome::Exit);
    assert_eq!(d.session.api.methods(), ["tab.list", "tab.focus", "session.snapshot"]);
    assert!(!store().still_pending(&mut d.session.files));
}

#[test]
fn a_non_sticky_pane_action_exits() {
    let mode = mode(&[('h', Action::Focus(Dir::Left), false)]);
    let mut d = driver(FakeApi::new(), &mode);

    assert_eq!(d.step(&key('h'), "", no_prompt), Outcome::Exit);
    assert_eq!(d.session.api.methods(), ["pane.focus_direction"]);
}

#[test]
fn cancel_exits_even_when_sticky() {
    let mode = mode(&[('c', Action::Cancel, true)]);
    let mut d = driver(FakeApi::new(), &mode);

    assert_eq!(d.step(&key('c'), "", no_prompt), Outcome::Exit);
}

#[test]
fn exit_is_decided_without_touching_the_server() {
    let mode = mode(&[('q', Action::Quit, true)]);
    let mut d = driver(FakeApi::new(), &mode);

    assert_eq!(d.step(&key('q'), "", no_prompt), Outcome::Exit);
    assert!(d.session.api.calls().is_empty());
}

#[test]
fn close_tab_arms_the_hop_before_the_call() {
    let mode = mode(&[('x', Action::CloseTab, true)]);
    let mut d = driver(FakeApi::new(), &mode);

    let outcome = d.step(&key('x'), "tab 1/2", no_prompt);

    assert_eq!(outcome, Outcome::Hop);
    assert_eq!(
        d.session.api.calls(),
        vec![
            call("plugin.action.invoke", obj(&[("plugin_id", st("herdr-modes")), ("action_id", st(MODE))])),
            call("tab.close", obj(&[("tab_id", st("t1"))])),
            call("session.snapshot", obj(&[])),
        ]
    );
    // The action never gets to report, so the line on screen carries over.
    let note = store().pending(&mut d.session.files, MODE).expect("note left for open");
    assert_eq!(note.feedback, "tab 1/2");
}

#[test]
fn a_failed_close_tab_withdraws_the_note_and_stays() {
    let api = FakeApi::new().fail("tab.close", "not_found", "no such tab");
    let mode = mode(&[('x', Action::CloseTab, true)]);
    let mut d = driver(api, &mode);

    let outcome = d.step(&key('x'), "", no_prompt);

    assert_eq!(outcome, Outcome::Continue("error: not_found: no such tab".into()));
    assert_eq!(d.session.api.methods(), ["plugin.action.invoke", "tab.close"]);
    assert!(!store().still_pending(&mut d.session.files));
}

#[test]
fn an_unbound_key_names_itself() {
    let mode = mode(&[('n', Action::NextTab, true)]);
    let mut d = driver(FakeApi::new(), &mode);

    assert_eq!(d.step(&key('z'), "", no_prompt), Outcome::Continue("unbound: z".into()));
    assert!(d.session.api.calls().is_empty());
}

#[test]
fn opening_feedback_prefers_config_problems() {
    let resumed = Resume::new(MODE, SOCKET, "tab 2/3", None, None, None, "w1".into(), "p1".into());
    assert_eq!(opening_feedback(&[], None), "");
    assert_eq!(opening_feedback(&[], Some(&resumed)), "tab 2/3");
    assert_eq!(opening_feedback(&["bad key".into()], Some(&resumed)), "config: bad key");
    assert_eq!(
        opening_feedback(&["bad key".into(), "bad action".into(), "x".into()], None),
        "config: bad key (2 more)"
    );
}

// Beyond the scenarios above.

#[test]
fn a_failed_hop_before_closing_stays_and_says_why() {
    let api = FakeApi::new().fail("plugin.action.invoke", "not_found", "no such action");
    let mode = mode(&[('x', Action::CloseTab, true)]);
    let mut d = driver(api, &mode);

    let outcome = d.step(&key('x'), "", no_prompt);

    assert_eq!(outcome, Outcome::Continue("hop failed: not_found: no such action".into()));
    assert_eq!(d.session.api.methods(), ["plugin.action.invoke"]);
}

#[test]
fn a_failed_pane_count_stays_with_the_error() {
    let api = FakeApi::new().fail("pane.list", "boom", "down");
    let mode = mode(&[('x', Action::ClosePane, true)]);
    let mut d = driver(api, &mode);

    assert_eq!(d.step(&key('x'), "", no_prompt), Outcome::Continue("error: boom: down".into()));
    assert_eq!(d.session.api.methods(), ["pane.list"]);
}

#[test]
fn a_hop_that_fails_after_landing_elsewhere_keeps_the_feedback() {
    let api = FakeApi::new()
        .reply("tab.list", tabs(&["t1", "t2"]))
        .reply("session.snapshot", focused_tab("t2"))
        .reply("session.snapshot", focused_tab("t2"))
        .fail("plugin.action.invoke", "not_found", "gone");
    let mode = mode(&[('n', Action::NextTab, true)]);
    let mut d = driver(api, &mode);

    let outcome = d.step(&key('n'), "", no_prompt);

    assert_eq!(outcome, Outcome::Continue("tab 2/2 \u{b7} hop failed: not_found: gone".into()));
    assert!(!store().still_pending(&mut d.session.files));
}

#[test]
fn a_sticky_pane_action_continues_without_reading_focus_back() {
    let mode = mode(&[('z', Action::Zoom, true)]);
    let mut d = driver(FakeApi::new(), &mode);

    assert_eq!(d.step(&key('z'), "", no_prompt), Outcome::Continue("zoom".into()));
    assert_eq!(d.session.api.methods(), ["pane.zoom"]);
}

#[test]
fn an_error_on_a_sticky_binding_is_shown() {
    let api = FakeApi::new().fail("pane.zoom", "boom", "down");
    let mode = mode(&[('z', Action::Zoom, true)]);
    let mut d = driver(api, &mode);

    assert_eq!(d.step(&key('z'), "", no_prompt), Outcome::Continue("error: boom: down".into()));
}

#[test]
fn an_unbound_key_with_no_name_says_unbound() {
    let mode = mode(&[('n', Action::NextTab, true)]);
    let mut d = driver(FakeApi::new(), &mode);

    let other = KeyEvent { code: KeyCode::Other, ctrl: false };
    assert_eq!(d.step(&other, "", no_prompt), Outcome::Continue("unbound".into()));
}

#[test]
fn opening_feedback_with_two_warnings_counts_one_more() {
    assert_eq!(opening_feedback(&["a".into(), "b".into()], None), "config: a (1 more)");
}

#[test]
fn an_unlisted_binding_runs_when_it_does_not_stick() {
    let api = FakeApi::new().reply("pane.split", obj(&[("pane", obj(&[("pane_id", st("p3"))]))]));
    let mode = mode(&[('u', Action::Split(Dir::Up), false)]);
    let mut d = driver(api, &mode);

    assert_eq!(d.step(&key('u'), "", no_prompt), Outcome::Exit);
    assert_eq!(
        d.session.api.calls(),
        vec![call(
            "pane.split",
            obj(&[("direction", st("up")), ("target_pane_id", st("p1")), ("focus", Json::Bool(true))])
        )]
    );
}

#[test]
fn a_key_beside_an_unlisted_sticky_binding_still_runs() {
    let mode = mode(&[('h', Action::Focus(Dir::Left), false), ('u', Action::Split(Dir::Up), true)]);
    let mut d = driver(FakeApi::new(), &mode);

    assert_eq!(d.step(&key('h'), "", no_prompt), Outcome::Exit);
    assert_eq!(d.session.api.methods(), ["pane.focus_direction"]);
}

use herdr_modes::client::{Api, Error, Json};
use herdr_modes::keymap::{Action, BreakTo, Dir};
use herdr_modes::modes::{status_of, AgentStatus, Session};
use herdr_modes::resume::{NoteStore, Resume, Store, Stored};

const SOCKET: &str = "/run/herdr/test.sock";

/// A server that answers from a script and remembers what it was asked.
struct FakeApi {
    replies: Vec<(String, Result<Json, Error>)>,
    calls: Vec<(String, Json)>,
}

impl FakeApi {
    fn new() -> FakeApi {
        FakeApi { replies: Vec::new(), calls: Vec::new() }
    }

    fn reply(mut self, method: &str, v: Json) -> FakeApi {
        self.replies.push((method.to_string(), Ok(v)));
        self
    }

    fn fail(mut self, method: &str, code: &str, message: &str) -> FakeApi {
        self.replies.push((
            method.to_string(),
            Err(Error::Api { code: code.to_string(), message: message.to_string() }),
        ));
        self
    }

    fn methods(&self) -> Vec<&str> {
        self.calls.iter().map(|(m, _)| m.as_str()).collect()
    }

    /// The calls, as text, for comparing with what a test expects.
    fn calls(&self) -> Vec<(String, String)> {
        self.calls.iter().map(|(m, p)| (m.clone(), format!("{p:?}"))).collect()
    }
}

impl Api for FakeApi {
    fn call(&mut self, method: &str, params: Json) -> Result<Json, Error> {
        self.calls.push((method.to_string(), params));
        match self.replies.iter().position(|(m, _)| m == method) {
            Some(i) => self.replies.remove(i).1,
            None => Ok(Json::Obj(Vec::new())),
        }
    }
}

/// Notes kept in memory, one per path.
#[derive(Default)]
struct MemNotes {
    kept: Vec<(String, Option<Resume>)>,
}

impl NoteStore for MemNotes {
    fn write(&mut self, store: &Store, note: &Resume) -> Result<(), Error> {
        self.clear(store);
        self.kept.push((store.path().to_string(), Some(note.clone())));
        Ok(())
    }

    fn read(&mut self, store: &Store) -> Stored {
        match self.kept.iter().find(|(p, _)| p == store.path()) {
            Some((_, Some(n))) => Stored::Note(n.clone()),
            Some((_, None)) => Stored::Garbled,
            None => Stored::Absent,
        }
    }

    fn clear(&mut self, store: &Store) {
        self.kept.retain(|(p, _)| p != store.path());
    }

    fn holds(&mut self, store: &Store) -> bool {
        self.kept.iter().any(|(p, _)| p == store.path())
    }
}

fn st(v: &str) -> Json {
    Json::Str(v.to_string())
}

fn obj(members: &[(&str, Json)]) -> Json {
    Json::Obj(members.iter().map(|(k, v)| (k.to_string(), clone_json(v))).collect())
}

fn clone_json(v: &Json) -> Json {
    match v {
        Json::Null => Json::Null,
        Json::Bool(b) => Json::Bool(*b),
        Json::Num(n) => Json::Num(n.clone()),
        Json::Str(t) => Json::Str(t.clone()),
        Json::Arr(a) => Json::Arr(a.iter().map(clone_json).collect()),
        Json::Obj(es) => Json::Obj(es.iter().map(|(k, v)| (k.clone(), clone_json(v))).collect()),
    }
}

fn call(method: &str, params: Json) -> (String, String) {
    (method.to_string(), format!("{params:?}"))
}

fn store() -> Store {
    Store::new("/tmp/herdr-modes-test", SOCKET)
}

/// A session opened on pane `p1` of tab `t1` in space `w1`.
fn session(api: FakeApi) -> Session<FakeApi, MemNotes> {
    Session::new(
        api,
        MemNotes::default(),
        store(),
        "herdr-modes".to_string(),
        "w1".to_string(),
        "t1".to_string(),
        "p1".to_string(),
    )
}

fn agents(rows: &[(&str, &str)]) -> Json {
    let rows = rows
        .iter()
        .map(|(pane, status)| obj(&[("pane_id", st(pane)), ("name", st(pane)), ("agent_status", st(status))]))
        .collect();
    obj(&[("agents", Json::Arr(rows))])
}

fn tabs(ids: &[&str]) -> Json {
    let rows = ids.iter().map(|id| obj(&[("tab_id", st(id))])).collect();
    obj(&[("tabs", Json::Arr(rows))])
}

fn panes(rows: &[(&str, &str)]) -> Json {
    let rows = rows.iter().map(|(pane, tab)| obj(&[("pane_id", st(pane)), ("tab_id", st(tab))])).collect();
    obj(&[("panes", Json::Arr(rows))])
}

fn spaces(rows: &[(&str, &str, &str, bool)]) -> Json {
    let rows = rows
        .iter()
        .map(|(id, label, status, focused)| {
            obj(&[
                ("workspace_id", st(id)),
                ("label", st(label)),
                ("agent_status", st(status)),
                ("focused", Json::Bool(*focused)),
            ])
        })
        .collect();
    obj(&[("workspaces", Json::Arr(rows))])
}

fn snapshot(ws: &str, tab: &str, pane: &str) -> Json {
    obj(&[(
        "snapshot",
        obj(&[("focused_workspace_id", st(ws)), ("focused_tab_id", st(tab)), ("focused_pane_id", st(pane))]),
    )])
}

fn no_prompt(_: &str) -> Option<String> {
    None
}

#[test]
fn focus_agent_from_an_agent_row_records_where_it_came_from() {
    let api = FakeApi::new().reply("agent.list", agents(&[("p1", "idle"), ("p2", "done")]));
    let mut s = session(api);

    let line = s.execute(Action::GotoAgent(2), no_prompt).unwrap();

    assert_eq!(line, "2/2 p2 \u{b7} done");
    assert_eq!(
        s.api.calls(),
        vec![
            call("agent.list", obj(&[])),
            call("agent.focus", obj(&[("target", st("p2"))])),
            call("pane.focus", obj(&[("pane_id", st("p2"))])),
            call("session.snapshot", obj(&[])),
        ]
    );
    assert_eq!(s.prev_agent_id(), Some("p1"));
}

#[test]
fn focus_agent_from_a_plain_pane_records_no_previous_agent() {
    let api = FakeApi::new().reply("agent.list", agents(&[("p2", "blocked")]));
    let mut s = session(api);

    s.execute(Action::NextAgent, no_prompt).unwrap();

    assert_eq!(s.api.methods(), ["agent.list", "agent.focus", "pane.focus", "session.snapshot"]);
    assert_eq!(s.api.calls()[2], call("pane.focus", obj(&[("pane_id", st("p2"))])));
    assert_eq!(s.prev_agent_id(), None);
}

#[test]
fn break_pane_to_a_new_tab_moves_then_brings_the_client_along() {
    let mut s = session(FakeApi::new());

    let line = s.execute(Action::BreakPane(BreakTo::New), no_prompt).unwrap();

    assert_eq!(line, "broke pane out");
    assert_eq!(
        s.api.calls(),
        vec![
            call(
                "pane.move",
                obj(&[
                    ("pane_id", st("p1")),
                    ("destination", obj(&[("type", st("new_tab"))])),
                    ("focus", Json::Bool(true)),
                ])
            ),
            call("pane.focus", obj(&[("pane_id", st("p1"))])),
            call("session.snapshot", obj(&[])),
        ]
    );
}

#[test]
fn closing_the_tab_always_takes_the_owner_tab_away() {
    let mut s = session(FakeApi::new());
    assert!(s.will_close_owner_tab(Action::CloseTab).unwrap());
    assert!(s.api.calls().is_empty());
}

#[test]
fn closing_the_last_pane_takes_the_owner_tab_away() {
    let api = FakeApi::new().reply("pane.list", panes(&[("p1", "t1"), ("p9", "t2")]));
    let mut s = session(api);
    assert!(s.will_close_owner_tab(Action::ClosePane).unwrap());
    assert_eq!(s.api.calls(), vec![call("pane.list", obj(&[("workspace_id", st("w1"))]))]);
}

#[test]
fn closing_one_of_two_panes_keeps_the_owner_tab() {
    let api = FakeApi::new().reply("pane.list", panes(&[("p1", "t1"), ("p2", "t1")]));
    let mut s = session(api);
    assert!(!s.will_close_owner_tab(Action::ClosePane).unwrap());
}

#[test]
fn other_actions_never_take_the_owner_tab_away() {
    let mut s = session(FakeApi::new());
    assert!(!s.will_close_owner_tab(Action::NextTab).unwrap());
    assert!(!s.will_close_owner_tab(Action::Zoom).unwrap());
    assert!(s.api.calls().is_empty());
}

#[test]
fn arm_hop_leaves_a_note_and_invokes_the_open_action() {
    let mut s = session(FakeApi::new());
    s.restore(&Resume::new("tab", SOCKET, "", Some("t0".into()), None, Some("w0".into()), "w1".into(), "p1".into()));

    s.arm_hop("tab", "tab 2/3").unwrap();

    assert_eq!(
        s.api.calls(),
        vec![call("plugin.action.invoke", obj(&[("plugin_id", st("herdr-modes")), ("action_id", st("tab"))]))]
    );
    let note = store().pending(&mut s.files, "tab").expect("note written");
    assert_eq!(note.mode, "tab");
    assert_eq!(note.socket, SOCKET);
    assert_eq!(note.feedback, "tab 2/3");
    assert_eq!(note.prev_tab_id.as_deref(), Some("t0"));
    assert_eq!(note.prev_agent_id, None);
    assert_eq!(note.prev_workspace_id.as_deref(), Some("w0"));
    assert_eq!(note.origin_workspace_id, "w1");
    assert_eq!(note.origin_pane_id, "p1");
}

#[test]
fn arm_hop_withdraws_the_note_when_the_invoke_fails() {
    let api = FakeApi::new().fail("plugin.action.invoke", "not_found", "no such action");
    let mut s = session(api);

    let err = s.arm_hop("tab", "").unwrap_err();

    assert_eq!(err.message(), "not_found: no such action");
    assert_eq!(s.api.methods(), ["plugin.action.invoke"]);
    assert!(!store().still_pending(&mut s.files));
}

#[test]
fn disarm_hop_removes_the_note() {
    let mut s = session(FakeApi::new());
    s.arm_hop("tab", "").unwrap();
    assert!(store().still_pending(&mut s.files));
    s.disarm_hop();
    assert!(!store().still_pending(&mut s.files));
}

#[test]
fn cancel_at_the_origin_pane_does_nothing() {
    let mut s = session(FakeApi::new());
    assert_eq!(s.execute(Action::Cancel, no_prompt).unwrap(), "");
    assert!(s.api.calls().is_empty());
}

#[test]
fn cancel_elsewhere_goes_back_to_the_origin() {
    let mut s = session(FakeApi::new());
    s.workspace_id = "w2".into();
    s.tab_id = "t5".into();
    s.pane_id = "p7".into();

    assert_eq!(s.execute(Action::Cancel, no_prompt).unwrap(), "");

    assert_eq!(
        s.api.calls(),
        vec![
            call("workspace.focus", obj(&[("workspace_id", st("w1"))])),
            call("pane.focus", obj(&[("pane_id", st("p1"))])),
            call("session.snapshot", obj(&[])),
        ]
    );
}

#[test]
fn step_tab_wraps_from_the_last_tab_to_the_first() {
    let api = FakeApi::new().reply("tab.list", tabs(&["ta", "tb", "t1"]));
    let mut s = session(api);

    let line = s.execute(Action::NextTab, no_prompt).unwrap();

    assert_eq!(line, "tab 1/3");
    assert_eq!(
        s.api.calls(),
        vec![
            call("tab.list", obj(&[("workspace_id", st("w1"))])),
            call("tab.focus", obj(&[("tab_id", st("ta"))])),
            call("session.snapshot", obj(&[])),
        ]
    );
    assert_eq!(s.tab_id, "ta");
    assert_eq!(s.prev_tab_id(), Some("t1"));
}

#[test]
fn restore_then_resume_round_trips_the_ids() {
    let note = Resume::new(
        "pane",
        SOCKET,
        "before the hop",
        Some("t0".into()),
        Some("p0".into()),
        Some("w0".into()),
        "w9".into(),
        "p9".into(),
    );
    let mut s = session(FakeApi::new());

    s.restore(&note);
    let again = s.resume("pane", "after the hop");

    assert_eq!(again.prev_tab_id.as_deref(), Some("t0"));
    assert_eq!(again.prev_agent_id.as_deref(), Some("p0"));
    assert_eq!(again.prev_workspace_id.as_deref(), Some("w0"));
    assert_eq!(again.origin_workspace_id, "w9");
    assert_eq!(again.origin_pane_id, "p9");
    assert_eq!(again.socket, SOCKET);
    assert_eq!(again.feedback, "after the hop");
    assert!(s.api.calls().is_empty());
}

#[test]
fn status_round_trips_through_display() {
    for raw in ["blocked", "done", "working", "idle", "thinking"] {
        let Ok(status) = raw.parse::<AgentStatus>();
        assert_eq!(status.as_text(), raw);
    }
}

#[test]
fn only_blocked_and_done_want_attention() {
    let wants = |raw: &str| {
        let Ok(status) = raw.parse::<AgentStatus>();
        status.wants_attention()
    };
    assert!(wants("blocked"));
    assert!(wants("done"));
    assert!(!wants("working"));
    assert!(!wants("idle"));
    assert!(!wants("unknown"));
}

#[test]
fn missing_status_reads_as_unknown() {
    assert_eq!(status_of(&obj(&[])).as_text(), "unknown");
    assert_eq!(status_of(&obj(&[("agent_status", st("done"))])), AgentStatus::Done);
}

// What follows goes beyond the scenarios above: every other action, and the
// edges each one handles.

#[test]
fn focus_reports_an_edge_instead_of_doing_nothing() {
    let api = FakeApi::new().reply(
        "pane.focus_direction",
        obj(&[("focus", obj(&[("changed", Json::Bool(false)), ("reason", st("no_neighbor"))]))]),
    );
    let mut s = session(api);
    assert_eq!(s.execute(Action::Focus(Dir::Left), no_prompt).unwrap(), "left \u{b7} no_neighbor");
    assert_eq!(
        s.api.calls(),
        vec![call("pane.focus_direction", obj(&[("direction", st("left")), ("pane_id", st("p1"))]))]
    );
}

#[test]
fn focus_follows_the_pane_the_server_names() {
    let api = FakeApi::new().reply(
        "pane.focus_direction",
        obj(&[("focus", obj(&[("changed", Json::Bool(true)), ("focused_pane_id", st("p4"))]))]),
    );
    let mut s = session(api);
    assert_eq!(s.execute(Action::Focus(Dir::Down), no_prompt).unwrap(), "focus down");
    assert_eq!(s.pane_id, "p4");
}

#[test]
fn cycle_focus_moves_to_the_next_pane_of_the_tab() {
    let api = FakeApi::new().reply("pane.list", panes(&[("p1", "t1"), ("p8", "t2"), ("p2", "t1")]));
    let mut s = session(api);
    assert_eq!(s.execute(Action::CycleFocus, no_prompt).unwrap(), "cycle");
    assert_eq!(s.api.calls()[1], call("pane.focus", obj(&[("pane_id", st("p2"))])));
    assert_eq!(s.pane_id, "p2");
}

#[test]
fn cycle_focus_with_one_pane_says_so() {
    let api = FakeApi::new().reply("pane.list", panes(&[("p1", "t1")]));
    let mut s = session(api);
    assert_eq!(s.execute(Action::CycleFocus, no_prompt).unwrap(), "only one pane");
    assert_eq!(s.api.methods(), ["pane.list"]);
}

#[test]
fn split_follows_the_new_pane() {
    let api = FakeApi::new().reply("pane.split", obj(&[("pane", obj(&[("pane_id", st("p3"))]))]));
    let mut s = session(api);
    assert_eq!(s.execute(Action::Split(Dir::Right), no_prompt).unwrap(), "split right");
    assert_eq!(
        s.api.calls(),
        vec![call(
            "pane.split",
            obj(&[("direction", st("right")), ("target_pane_id", st("p1")), ("focus", Json::Bool(true))])
        )]
    );
    assert_eq!(s.pane_id, "p3");
}

#[test]
fn zoom_and_swap_name_what_they_did() {
    let mut s = session(FakeApi::new());
    assert_eq!(s.execute(Action::Zoom, no_prompt).unwrap(), "zoom");
    assert_eq!(s.execute(Action::Swap(Dir::Up), no_prompt).unwrap(), "swap up");
    assert_eq!(
        s.api.calls(),
        vec![
            call("pane.zoom", obj(&[("pane_id", st("p1")), ("mode", st("toggle"))])),
            call("pane.swap", obj(&[("direction", st("up")), ("pane_id", st("p1"))])),
        ]
    );
}

#[test]
fn rename_pane_with_nothing_typed_clears_the_label() {
    let mut s = session(FakeApi::new());
    let line = s.execute(Action::RenamePane, |_: &str| Some(String::new())).unwrap();
    assert_eq!(line, "renamed pane");
    assert_eq!(s.api.calls(), vec![call("pane.rename", obj(&[("pane_id", st("p1")), ("label", Json::Null)]))]);
}

#[test]
fn rename_cancelled_touches_nothing() {
    let mut s = session(FakeApi::new());
    assert_eq!(s.execute(Action::RenamePane, no_prompt).unwrap(), "cancelled");
    assert_eq!(s.execute(Action::RenameTab, |_: &str| Some(String::new())).unwrap(), "cancelled");
    assert!(s.api.calls().is_empty());
}

#[test]
fn rename_tab_sends_the_label() {
    let mut s = session(FakeApi::new());
    let line = s.execute(Action::RenameTab, |label: &str| Some(format!("{label}x"))).unwrap();
    assert_eq!(line, "renamed tab");
    assert_eq!(
        s.api.calls(),
        vec![call("tab.rename", obj(&[("tab_id", st("t1")), ("label", st("rename tab: x"))]))]
    );
}

#[test]
fn last_tab_without_a_previous_one_says_so() {
    let mut s = session(FakeApi::new());
    assert_eq!(s.execute(Action::LastTab, no_prompt).unwrap(), "no previous tab");
    assert!(s.api.calls().is_empty());
}

#[test]
fn last_tab_goes_back_after_a_step() {
    let api = FakeApi::new().reply("tab.list", tabs(&["t1", "t2"]));
    let mut s = session(api);
    assert_eq!(s.execute(Action::NextTab, no_prompt).unwrap(), "tab 2/2");
    assert_eq!(s.execute(Action::LastTab, no_prompt).unwrap(), "last tab");
    assert_eq!(s.api.calls()[3], call("tab.focus", obj(&[("tab_id", st("t1"))])));
    assert_eq!(s.tab_id, "t1");
    assert_eq!(s.prev_tab_id(), Some("t2"));
}

#[test]
fn goto_tab_counts_from_one() {
    let api = FakeApi::new().reply("tab.list", tabs(&["t1", "t2"])).reply("tab.list", tabs(&["t1", "t2"]));
    let mut s = session(api);
    assert_eq!(s.execute(Action::GotoTab(2), no_prompt).unwrap(), "tab 2");
    assert_eq!(s.api.calls()[1], call("tab.focus", obj(&[("tab_id", st("t2"))])));
    assert_eq!(s.execute(Action::GotoTab(3), no_prompt).unwrap(), "no tab 3");
}

#[test]
fn new_and_close_tab_read_focus_back() {
    let api = FakeApi::new().reply("session.snapshot", snapshot("w1", "t9", "p9"));
    let mut s = session(api);
    assert_eq!(s.execute(Action::NewTab, no_prompt).unwrap(), "new tab");
    assert_eq!(s.tab_id, "t9");
    assert_eq!(s.execute(Action::CloseTab, no_prompt).unwrap(), "closed tab");
    assert_eq!(s.prev_tab_id(), None);
    assert_eq!(
        s.api.calls(),
        vec![
            call("tab.create", obj(&[("workspace_id", st("w1")), ("focus", Json::Bool(true))])),
            call("session.snapshot", obj(&[])),
            call("tab.close", obj(&[("tab_id", st("t9"))])),
            call("session.snapshot", obj(&[])),
        ]
    );
}

#[test]
fn move_tab_asks_for_the_slot_past_its_own() {
    let api = FakeApi::new().reply("tab.list", tabs(&["t1", "t2", "t3"]));
    let mut s = session(api);
    assert_eq!(s.execute(Action::MoveTab(1), no_prompt).unwrap(), "moved tab -> 2");
    assert_eq!(
        s.api.calls()[1],
        call("tab.move", obj(&[("tab_id", st("t1")), ("insert_index", Json::Num("2".into()))]))
    );
}

#[test]
fn move_tab_past_the_edge_stays() {
    let api = FakeApi::new().reply("tab.list", tabs(&["t1", "t2"]));
    let mut s = session(api);
    assert_eq!(s.execute(Action::MoveTab(-1), no_prompt).unwrap(), "at end");
    assert_eq!(s.api.methods(), ["tab.list"]);
}

#[test]
fn break_pane_to_the_previous_tab_wraps() {
    let api = FakeApi::new().reply("tab.list", tabs(&["t1", "t2", "t3"]));
    let mut s = session(api);
    assert_eq!(s.execute(Action::BreakPane(BreakTo::Prev), no_prompt).unwrap(), "broke pane out");
    assert_eq!(
        s.api.calls()[1],
        call(
            "pane.move",
            obj(&[
                ("pane_id", st("p1")),
                ("destination", obj(&[("type", st("tab")), ("tab_id", st("t3")), ("split", st("right"))])),
                ("focus", Json::Bool(true)),
            ])
        )
    );
}

#[test]
fn break_pane_with_one_tab_has_nowhere_to_go() {
    let api = FakeApi::new().reply("tab.list", tabs(&["t1"]));
    let mut s = session(api);
    assert_eq!(s.execute(Action::BreakPane(BreakTo::Next), no_prompt).unwrap(), "no other tab");
}

#[test]
fn swap_cycle_swaps_with_the_previous_pane() {
    let api = FakeApi::new().reply("pane.list", panes(&[("p1", "t1"), ("p2", "t1"), ("p3", "t1")]));
    let mut s = session(api);
    assert_eq!(s.execute(Action::SwapCycle(false), no_prompt).unwrap(), "swap back");
    assert_eq!(
        s.api.calls()[1],
        call("pane.swap", obj(&[("source_pane_id", st("p1")), ("target_pane_id", st("p3"))]))
    );
}

#[test]
fn an_agent_already_focused_is_reported_without_a_call() {
    let api = FakeApi::new().reply("agent.list", agents(&[("p1", "working")]));
    let mut s = session(api);
    assert_eq!(s.execute(Action::GotoAgent(1), no_prompt).unwrap(), "1/1 p1 \u{b7} already here");
    assert_eq!(s.api.methods(), ["agent.list"]);
}

#[test]
fn agent_steps_and_gotos_at_the_edges() {
    let api = FakeApi::new()
        .reply("agent.list", agents(&[]))
        .reply("agent.list", agents(&[("p2", "idle")]))
        .reply("agent.list", agents(&[("p2", "idle")]));
    let mut s = session(api);
    assert_eq!(s.execute(Action::PrevAgent, no_prompt).unwrap(), "no agents");
    assert_eq!(s.execute(Action::GotoAgent(4), no_prompt).unwrap(), "no agent 4");
    assert_eq!(s.execute(Action::LastAgent, no_prompt).unwrap(), "no previous agent");
}

#[test]
fn attention_skips_the_busy_agents() {
    let api = FakeApi::new().reply(
        "agent.list",
        agents(&[("p1", "idle"), ("p2", "working"), ("p3", "blocked"), ("p4", "done")]),
    );
    let mut s = session(api);
    assert_eq!(s.execute(Action::NextAttention, no_prompt).unwrap(), "3/4 p3 \u{b7} blocked");
    assert_eq!(s.api.calls()[1], call("agent.focus", obj(&[("target", st("p3"))])));
}

#[test]
fn attention_with_nothing_waiting_says_so() {
    let api = FakeApi::new().reply("agent.list", agents(&[("p1", "idle"), ("p2", "working")]));
    let mut s = session(api);
    assert_eq!(s.execute(Action::PrevAttention, no_prompt).unwrap(), "nothing waiting");
    assert_eq!(s.api.methods(), ["agent.list"]);
}

#[test]
fn next_space_moves_along_the_sidebar_and_remembers_where_it_was() {
    let api = FakeApi::new()
        .reply("workspace.list", spaces(&[("w1", "main", "idle", true), ("w2", "web", "done", false)]))
        .reply("session.snapshot", snapshot("w2", "t7", "p7"));
    let mut s = session(api);
    assert_eq!(s.execute(Action::NextSpace, no_prompt).unwrap(), "2/2 web \u{b7} done");
    assert_eq!(s.api.calls()[1], call("workspace.focus", obj(&[("workspace_id", st("w2"))])));
    assert_eq!(s.prev_workspace_id(), Some("w1"));
    assert_eq!(s.workspace_id, "w2");
    assert_eq!(s.pane_id, "p7");
}

#[test]
fn goto_space_on_the_current_one_says_already_here() {
    let api = FakeApi::new().reply("workspace.list", spaces(&[("w1", "main", "idle", true)]));
    let mut s = session(api);
    assert_eq!(s.execute(Action::GotoSpace(1), no_prompt).unwrap(), "1/1 main \u{b7} idle \u{b7} already here");
}

#[test]
fn space_edges_are_reported() {
    let api = FakeApi::new()
        .reply("workspace.list", spaces(&[("w1", "main", "idle", true)]))
        .reply("workspace.list", spaces(&[]))
        .reply("workspace.list", spaces(&[("w1", "main", "idle", true)]))
        .reply("workspace.list", spaces(&[("w1", "main", "idle", true)]));
    let mut s = session(api);
    assert_eq!(s.execute(Action::PrevSpace, no_prompt).unwrap(), "only one space");
    assert_eq!(s.execute(Action::NextSpaceAttention, no_prompt).unwrap(), "no spaces");
    assert_eq!(s.execute(Action::LastSpace, no_prompt).unwrap(), "no previous space");
    assert_eq!(s.execute(Action::GotoSpace(2), no_prompt).unwrap(), "no space 2");
}

#[test]
fn a_failed_request_ends_the_action_with_its_error() {
    let api = FakeApi::new().fail("tab.list", "boom", "down");
    let mut s = session(api);
    assert_eq!(s.execute(Action::NextTab, no_prompt).unwrap_err().message(), "boom: down");
    assert_eq!(s.api.methods(), ["tab.list"]);
}

#[test]
fn sync_view_focuses_the_session_tab() {
    let mut s = session(FakeApi::new());
    s.sync_view().unwrap();
    assert_eq!(s.api.calls(), vec![call("tab.focus", obj(&[("tab_id", st("t1"))]))]);
    s.tab_id = String::new();
    s.sync_view().unwrap();
    assert_eq!(s.api.calls().len(), 1);
}

#[test]
fn refresh_keeps_what_the_snapshot_leaves_out() {
    let api = FakeApi::new().reply("session.snapshot", obj(&[("snapshot", obj(&[("focused_tab_id", st("t4"))]))]));
    let mut s = session(api);
    s.refresh().unwrap();
    assert_eq!(s.tab_id, "t4");
    assert_eq!(s.workspace_id, "w1");
    assert_eq!(s.pane_id, "p1");
}

#[test]
fn begin_reads_focus_back_and_picks_up_a_hop() {
    let api = FakeApi::new().reply("session.snapshot", snapshot("w2", "t2", "p2"));
    let mut s = session(api);
    let note = Resume::new("tab", SOCKET, "tab 2/2", Some("t1".into()), None, None, "w1".into(), "p1".into());

    s.begin(Some(&note)).unwrap();

    assert_eq!(
        s.api.calls(),
        vec![call("session.snapshot", obj(&[])), call("tab.focus", obj(&[("tab_id", st("t2"))]))]
    );
    assert_eq!(s.tab_id, "t2");
    assert_eq!(s.prev_tab_id(), Some("t1"));
}

#[test]
fn begin_without_a_note_only_reads_focus_back() {
    let mut s = session(FakeApi::new());
    s.begin(None).unwrap();
    assert_eq!(s.api.methods(), ["session.snapshot"]);
    let failing = FakeApi::new().fail("session.snapshot", "boom", "down");
    let mut t = session(failing);
    assert_eq!(t.begin(None).unwrap_err().message(), "boom: down");
}

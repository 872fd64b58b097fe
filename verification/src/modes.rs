//! Executes a keymap action against the herdr socket API.
use crate::client::{member_of, Api, Error, Json};
use crate::config::texts;
use crate::keymap::{Action, BreakTo, Dir};
use crate::nav;
use crate::resume::{NoteStore, Notes, Resume, Store};
use crate::script::{
    agent_flags, agent_label, agent_position, agent_rows, call_is, focused_row, is_id, on_pane, space_is, fields_are, in_space, is_bool,
    is_count, is_null, is_obj, is_text, lemma_attention, line_view, moved_tab, note_is, opt_index,
    opt_view, pane_moved, panes_in, place, position, replay_arm_hop, replay_begin,
    replay_break_pane, replay_cancel, replay_close_pane, replay_close_tab, replay_cycle_focus,
    replay_execute, replay_focus, replay_focus_agent, replay_focus_space, replay_focus_tab,
    replay_goto_agent, replay_goto_space, replay_goto_tab, replay_last_agent, replay_last_space,
    replay_last_tab, replay_move_tab, replay_new_tab, replay_refresh, replay_rename_pane,
    replay_rename_tab, replay_split, replay_step_agent, replay_step_attention, replay_step_space,
    replay_step_space_attention, replay_step_tab, replay_swap, replay_swap_cycle, replay_sync_view,
    replay_will_close, replay_zoom, restored, rows_at, runs, space_at_focus, space_flags,
    space_rows, status_text, tab_ids, wants, quiet, lemma_quiet_join, AgentRow, Effect, Memo, ROW_LIMIT, Run, SpaceRow,
};
use crate::search::{first_index, lemma_first_index_is, lemma_first_index_none};
use crate::text::{decimal_text, joined, owned, same_text};
use vstd::prelude::*;

verus! {

/// An agent's status as herdr reports it, in `agent_status` on both
/// `agent.list` rows and `workspace.list` rows (where it is the roll-up of the
/// space's agents). Unknown values are kept verbatim so feedback lines print
/// what the server said.
#[derive(Clone, Debug, PartialEq, Eq)]
pub enum AgentStatus {
    Blocked,
    Done,
    Working,
    Idle,
    Other(String),
}

/// Whether `r` is the status herdr means by `s`: the four it names, and
/// anything else kept as it was written.
pub open spec fn status_named(s: Seq<char>, r: AgentStatus) -> bool {
    &&& r.text() == s
    &&& (r is Blocked <==> s == "blocked"@)
    &&& (r is Done <==> s == "done"@)
    &&& (r is Working <==> s == "working"@)
    &&& (r is Idle <==> s == "idle"@)
}

impl AgentStatus {
    /// The status as herdr writes it.
    pub open spec fn text(&self) -> Seq<char> {
        match self {
            AgentStatus::Blocked => "blocked"@,
            AgentStatus::Done => "done"@,
            AgentStatus::Working => "working"@,
            AgentStatus::Idle => "idle"@,
            AgentStatus::Other(s) => s@,
        }
    }

    /// `blocked` is an approval or question waiting on you; `done` is finished
    /// background work you have not seen yet. Those two are the panel's
    /// attention queue; the rest are either busy or already read.
    pub fn wants_attention(&self) -> (r: bool)
        ensures
            r == (self is Blocked || self is Done),
    {
        match self {
            AgentStatus::Blocked | AgentStatus::Done => true,
            _ => false,
        }
    }

    /// Read a status as herdr writes it.
    pub fn parse(s: &str) -> (r: AgentStatus)
        ensures
            status_named(s@, r),
    {
        proof {
            reveal_strlit("blocked");
            reveal_strlit("done");
            reveal_strlit("working");
            reveal_strlit("idle");
            assert("blocked"@.len() == 7 && "done"@.len() == 4);
            assert("working"@.len() == 7 && "idle"@.len() == 4);
            assert("blocked"@ != "done"@ && "working"@ != "idle"@ && "blocked"@ != "idle"@
                && "done"@ != "working"@);
            assert("blocked"@ != "working"@) by {
                assert("blocked"@[0] != "working"@[0]);
            }
            assert("done"@ != "idle"@) by {
                assert("done"@[0] != "idle"@[0]);
            }
        }
        if same_text(s, "blocked") {
            AgentStatus::Blocked
        } else if same_text(s, "done") {
            AgentStatus::Done
        } else if same_text(s, "working") {
            AgentStatus::Working
        } else if same_text(s, "idle") {
            AgentStatus::Idle
        } else {
            AgentStatus::Other(owned(s))
        }
    }

    /// The status as herdr writes it, for a feedback line.
    pub fn as_text(&self) -> (r: String)
        ensures
            r@ == self.text(),
    {
        match self {
            AgentStatus::Blocked => owned("blocked"),
            AgentStatus::Done => owned("done"),
            AgentStatus::Working => owned("working"),
            AgentStatus::Idle => owned("idle"),
            AgentStatus::Other(s) => owned(s.as_str()),
        }
    }
}

impl std::str::FromStr for AgentStatus {
    type Err = std::convert::Infallible;

    fn from_str(s: &str) -> (r: Result<AgentStatus, std::convert::Infallible>)
        ensures
            r matches Ok(st) && status_named(s@, st),
    {
        Ok(AgentStatus::parse(s))
    }
}

/// A status that is what its text says: the four herdr names, or another.
pub open spec fn well_named(st: AgentStatus) -> bool {
    status_named(st.text(), st)
}

/// The `agent_status` field of a list row; "unknown" when it is missing.
pub fn status_of(row: &Json) -> (r: AgentStatus)
    ensures
        status_named(status_text(*row), r),
{
    match row.text_at("agent_status") {
        Some(s) => AgentStatus::parse(s.as_str()),
        None => AgentStatus::parse("unknown"),
    }
}


pub struct Session<A: Api, F: NoteStore> {
    pub api: A,
    /// Where hop notes go, with what was asked of it.
    pub files: Notes<F>,
    /// Where a hop note is left, and for which herdr session.
    store: Store,
    /// This plugin's id, the one `plugin.action.invoke` is addressed to.
    plugin_id: String,
    pub workspace_id: String,
    pub tab_id: String,
    pub pane_id: String,
    /// For zellij's `tab` binding (ToggleTab).
    prev_tab_id: Option<String>,
    /// The agent pane focus came from, for `last_agent`.
    prev_agent_id: Option<String>,
    /// The space focus came from, for `last_space`.
    prev_workspace_id: Option<String>,
    /// Where the mode opened, for `cancel`.
    origin_workspace_id: String,
    origin_pane_id: String,
    /// Everything this session has done to the world.
    effects: Ghost<Seq<Effect>>,
}

impl<A: Api, F: NoteStore> Session<A, F> {
    /// Where focus is and has been.
    pub closed spec fn memo(&self) -> Memo {
        Memo {
            workspace: self.workspace_id@,
            tab: self.tab_id@,
            pane: self.pane_id@,
            prev_tab: opt_view(self.prev_tab_id),
            prev_agent: opt_view(self.prev_agent_id),
            prev_workspace: opt_view(self.prev_workspace_id),
            origin_workspace: self.origin_workspace_id@,
            origin_pane: self.origin_pane_id@,
        }
    }

    /// Everything this session has done so far.
    pub closed spec fn done(&self) -> Seq<Effect> {
        self.effects@
    }

    /// This plugin's id.
    pub closed spec fn plugin(&self) -> Seq<char> {
        self.plugin_id@
    }

    /// Where hop notes are left.
    pub closed spec fn note_store(&self) -> Store {
        self.store
    }

    /// What a call did, after a session in state `old` became `self`: it
    /// only added effects, and these are they.
    pub open spec fn since(&self, old: &Self) -> Seq<Effect> {
        self.done().skip(old.done().len() as int)
    }

    /// `self` came from `old` by adding effects and nothing else fixed changed.
    pub open spec fn follows(&self, old: &Self) -> bool {
        &&& old.done().len() <= self.done().len()
        &&& self.done().take(old.done().len() as int) == old.done()
        &&& self.plugin() == old.plugin()
        &&& self.note_store() == old.note_store()
    }

    /// A session that only added `added` to what `old` had done follows it.
    pub proof fn lemma_grew(new: &Self, old: &Self, added: Seq<Effect>)
        requires
            new.done() == old.done() + added,
            new.plugin() == old.plugin(),
            new.note_store() == old.note_store(),
        ensures
            new.follows(old),
            new.since(old) == added,
    {
        assert(new.done().take(old.done().len() as int) =~= old.done());
        assert(new.since(old) =~= added);
    }

    /// Following is transitive, and what was added adds up.
    pub proof fn lemma_chain(c: &Self, b: &Self, a: &Self)
        requires
            b.follows(a),
            c.follows(b),
        ensures
            c.follows(a),
            c.since(a) == b.since(a) + c.since(b),
    {
        assert(c.done().take(a.done().len() as int) =~= a.done()) by {
            assert(c.done().take(a.done().len() as int) =~= c.done().take(
                b.done().len() as int,
            ).take(a.done().len() as int));
        }
        assert(c.since(a) =~= b.since(a) + c.since(b)) by {
            assert(b.done() =~= c.done().take(b.done().len() as int));
        }
    }

    /// A session opened where focus is, which is also where `cancel` goes back to.
    pub fn new(
        api: A,
        files: F,
        store: Store,
        plugin_id: String,
        workspace_id: String,
        tab_id: String,
        pane_id: String,
    ) -> (r: Self)
        ensures
            r.memo() == (Memo {
                workspace: workspace_id@,
                tab: tab_id@,
                pane: pane_id@,
                prev_tab: None,
                prev_agent: None,
                prev_workspace: None,
                origin_workspace: workspace_id@,
                origin_pane: pane_id@,
            }),
            r.done() == Seq::<Effect>::empty(),
            r.plugin() == plugin_id@,
            r.note_store() == store,
    {
        Session {
            api,
            files: Notes::new(files),
            store,
            plugin_id,
            origin_workspace_id: owned(workspace_id.as_str()),
            origin_pane_id: owned(pane_id.as_str()),
            workspace_id,
            tab_id,
            pane_id,
            prev_tab_id: None,
            prev_agent_id: None,
            prev_workspace_id: None,
            effects: Ghost(Seq::empty()),
        }
    }

    /// The focused tab, as the session last read it.
    pub fn tab(&self) -> (r: &str)
        ensures
            r@ == self.memo().tab,
    {
        self.tab_id.as_str()
    }

    /// The tab focus came from, for `last_tab`.
    pub fn prev_tab_id(&self) -> (r: Option<&str>)
        ensures
            r matches Some(t) ==> self.memo().prev_tab == Some(t@),
            r is None ==> self.memo().prev_tab is None,
    {
        match &self.prev_tab_id {
            Some(t) => Some(t.as_str()),
            None => None,
        }
    }

    /// The agent pane focus came from, for `last_agent`.
    pub fn prev_agent_id(&self) -> (r: Option<&str>)
        ensures
            r matches Some(t) ==> self.memo().prev_agent == Some(t@),
            r is None ==> self.memo().prev_agent is None,
    {
        match &self.prev_agent_id {
            Some(t) => Some(t.as_str()),
            None => None,
        }
    }

    /// The space focus came from, for `last_space`.
    pub fn prev_workspace_id(&self) -> (r: Option<&str>)
        ensures
            r matches Some(t) ==> self.memo().prev_workspace == Some(t@),
            r is None ==> self.memo().prev_workspace is None,
    {
        match &self.prev_workspace_id {
            Some(t) => Some(t.as_str()),
            None => None,
        }
    }

    /// Pick up where the popup this one replaced left off.
    pub fn restore(&mut self, r: &Resume)
        ensures
            final(self).memo() == restored(old(self).memo(), *r),
            final(self).done() == old(self).done(),
            final(self).plugin() == old(self).plugin(),
            final(self).note_store() == old(self).note_store(),
    {
        self.prev_tab_id = copy_opt(&r.prev_tab_id);
        self.prev_agent_id = copy_opt(&r.prev_agent_id);
        self.prev_workspace_id = copy_opt(&r.prev_workspace_id);
        self.origin_workspace_id = owned(r.origin_workspace_id.as_str());
        self.origin_pane_id = owned(r.origin_pane_id.as_str());
    }

    /// The note a hop leaves for `mode`, carrying `feedback` and everything
    /// `restore` picks back up.
    pub fn resume(&self, mode: &str, feedback: &str) -> (r: Resume)
        ensures
            note_is(r, mode@, feedback@, self.note_store().socket_view(), self.memo()),
    {
        Resume::new(
            mode,
            self.store.socket(),
            feedback,
            copy_opt(&self.prev_tab_id),
            copy_opt(&self.prev_agent_id),
            copy_opt(&self.prev_workspace_id),
            owned(self.origin_workspace_id.as_str()),
            owned(self.origin_pane_id.as_str()),
        )
    }

    /// One request to herdr, recorded.
    fn request(&mut self, method: &str, params: Json) -> (r: Result<Json, Error>)
        ensures
            final(self).follows(&*old(self)),
            quiet(final(self).since(&*old(self))),
            final(self).since(&*old(self)) == seq![Effect::Call { method: method@, params, reply: r }],
            final(self).memo() == old(self).memo(),
    {
        let ghost p = params;
        let ghost before = *self;
        let r = self.api.call(method, params);
        let ghost e = Effect::Call { method: method@, params: p, reply: r };
        proof {
            self.effects@ = self.effects@.push(e);
            assert(self.done() =~= before.done() + seq![e]);
            Self::lemma_grew(&*self, &before, seq![e]);
        }
        r
    }

    /// Nothing done: the log is as it was.
    pub proof fn lemma_same(new: &Self, old: &Self)
        requires
            new.done() == old.done(),
            new.plugin() == old.plugin(),
            new.note_store() == old.note_store(),
        ensures
            new.follows(old),
            new.since(old) == Seq::<Effect>::empty(),
            quiet(new.since(old)),
    {
        assert(new.done() =~= old.done() + Seq::<Effect>::empty());
        Self::lemma_grew(new, old, Seq::<Effect>::empty());
    }

    /// What `a` to `c` did splits where `b` stood.
    pub proof fn lemma_split(c: &Self, b: &Self, a: &Self)
        requires
            b.follows(a),
            c.follows(b),
        ensures
            c.follows(a),
            c.since(a).len() == b.since(a).len() + c.since(b).len(),
            c.since(a).take(b.since(a).len() as int) == b.since(a),
            c.since(a).skip(b.since(a).len() as int) == c.since(b),
            c.since(a) == b.since(a) + c.since(b),
    {
        Self::lemma_chain(c, b, a);
        assert(c.since(a).take(b.since(a).len() as int) =~= b.since(a));
        assert(c.since(a).skip(b.since(a).len() as int) =~= c.since(b));
    }

    /// What `a` to `c` did is `a` to `b`'s one effect, then `b` to `c`'s.
    pub proof fn lemma_after_one(c: &Self, b: &Self, a: &Self)
        requires
            b.follows(a),
            b.since(a).len() == 1,
            c.follows(b),
        ensures
            c.follows(a),
            c.since(a).len() == 1 + c.since(b).len(),
            c.since(a)[0] == b.since(a)[0],
            c.since(a).skip(1) == c.since(b),
            quiet(b.since(a)) && quiet(c.since(b)) ==> quiet(c.since(a)),
    {
        Self::lemma_split(c, b, a);
        if quiet(b.since(a)) && quiet(c.since(b)) {
            lemma_quiet_join(b.since(a), c.since(b));
        }
        assert(c.since(a)[0] == c.since(a).take(1)[0]);
    }

    /// Re-read focus from the server. Popups have no pane id of their own, so
    /// the snapshot always reports the real underlying pane even while a mode
    /// is on screen.
    pub fn refresh(&mut self) -> (r: Result<(), Error>)
        ensures
            final(self).follows(&*old(self)),
            quiet(final(self).since(&*old(self))),
            replay_refresh(old(self).memo(), final(self).since(&*old(self))) == Some(
                (final(self).memo(), r),
            ),
    {
        let params = Json::Obj(Vec::new());
        assert(fields_are(params, seq![]));
        let r = self.request("session.snapshot", params);
        let v = match r {
            Ok(v) => v,
            Err(e) => return Err(e),
        };
        let ghost mid = *self;
        if let Some(s) = v.get("snapshot") {
            if let Some(w) = s.text_at("focused_workspace_id") {
                self.workspace_id = w;
            }
            if let Some(t) = s.text_at("focused_tab_id") {
                self.tab_id = t;
            }
            if let Some(p) = s.text_at("focused_pane_id") {
                self.pane_id = p;
            }
        }
        assert(self.done() == mid.done());
        Ok(())
    }

    /// `focus_*`: move focus to the neighbour in `dir`.
    fn focus(&mut self, dir: Dir) -> (r: Result<String, Error>)
        ensures
            final(self).follows(&*old(self)),
            quiet(final(self).since(&*old(self))),
            replay_focus(old(self).memo(), dir, final(self).since(&*old(self))) == Some(
                (final(self).memo(), line_view(r)),
            ),
    {
        let ghost m = self.memo();
        let d = dir.as_str();
        let params = Json::Obj(vec![text_member("direction", d), text_member("pane_id", self.pane_id.as_str())]);
        assert(fields_are(params, seq![("direction"@, is_text(dir.name())), ("pane_id"@, is_text(m.pane))]));
        let v = match self.request("pane.focus_direction", params) {
            Ok(v) => v,
            Err(e) => return Err(e),
        };
        let ghost mid = *self;
        let (landed, changed, reason) = match v.get("focus") {
            Some(f) => (f.text_at("focused_pane_id"), f.bool_at("changed"), f.text_at("reason")),
            None => (None, None, None),
        };
        if let Some(id) = landed {
            self.pane_id = id;
        }
        assert(self.done() == mid.done());
        let unchanged = match changed {
            Some(c) => !c,
            None => false,
        };
        if unchanged {
            let mut line = joined(d, " \u{b7} ");
            match reason {
                Some(why) => line.append(why.as_str()),
                None => line.append("no change"),
            }
            Ok(line)
        } else {
            Ok(joined("focus ", d))
        }
    }

    /// `close_pane`: close the focused pane.
    fn close_pane(&mut self) -> (r: Result<String, Error>)
        ensures
            final(self).follows(&*old(self)),
            quiet(final(self).since(&*old(self))),
            replay_close_pane(old(self).memo(), final(self).since(&*old(self))) == Some(
                (final(self).memo(), line_view(r)),
            ),
    {
        let ghost m = self.memo();
        let ghost start = *self;
        let params = Json::Obj(vec![text_member("pane_id", self.pane_id.as_str())]);
        assert(fields_are(params, seq![("pane_id"@, is_text(m.pane))]));
        if let Err(e) = self.request("pane.close", params) {
            return Err(e);
        }
        let ghost mid = *self;
        let done = self.refresh();
        proof {
            Self::lemma_after_one(&*self, &mid, &start);
        }
        match done {
            Ok(()) => Ok(owned("closed pane")),
            Err(e) => Err(e),
        }
    }

    /// `split_*`: split the focused pane, the new pane on the `dir` side.
    fn split(&mut self, dir: Dir) -> (r: Result<String, Error>)
        ensures
            final(self).follows(&*old(self)),
            quiet(final(self).since(&*old(self))),
            replay_split(old(self).memo(), dir, final(self).since(&*old(self))) == Some(
                (final(self).memo(), line_view(r)),
            ),
    {
        let ghost m = self.memo();
        let d = dir.as_str();
        let params = Json::Obj(
            vec![
                text_member("direction", d),
                text_member("target_pane_id", self.pane_id.as_str()),
                bool_member("focus", true),
            ],
        );
        assert(fields_are(
            params,
            seq![
                ("direction"@, is_text(dir.name())),
                ("target_pane_id"@, is_text(m.pane)),
                ("focus"@, is_bool(true)),
            ],
        ));
        let v = match self.request("pane.split", params) {
            Ok(v) => v,
            Err(e) => return Err(e),
        };
        let ghost mid = *self;
        let made = match v.get("pane") {
            Some(p) => p.text_at("pane_id"),
            None => None,
        };
        if let Some(id) = made {
            self.pane_id = id;
        }
        assert(self.done() == mid.done());
        Ok(joined("split ", d))
    }

    /// `swap_*`: swap the focused pane with its neighbour in `dir`.
    fn swap(&mut self, dir: Dir) -> (r: Result<String, Error>)
        ensures
            final(self).follows(&*old(self)),
            quiet(final(self).since(&*old(self))),
            replay_swap(old(self).memo(), dir, final(self).since(&*old(self))) == Some(
                (final(self).memo(), line_view(r)),
            ),
    {
        let ghost m = self.memo();
        let d = dir.as_str();
        let params = Json::Obj(vec![text_member("direction", d), text_member("pane_id", self.pane_id.as_str())]);
        assert(fields_are(params, seq![("direction"@, is_text(dir.name())), ("pane_id"@, is_text(m.pane))]));
        match self.request("pane.swap", params) {
            Ok(_) => Ok(joined("swap ", d)),
            Err(e) => Err(e),
        }
    }

    /// `new_tab`: open a tab in the focused space and follow it.
    fn new_tab(&mut self) -> (r: Result<String, Error>)
        ensures
            final(self).follows(&*old(self)),
            quiet(final(self).since(&*old(self))),
            replay_new_tab(old(self).memo(), final(self).since(&*old(self))) == Some(
                (final(self).memo(), line_view(r)),
            ),
    {
        let ghost m = self.memo();
        let ghost start = *self;
        let params = Json::Obj(
            vec![text_member("workspace_id", self.workspace_id.as_str()), bool_member("focus", true)],
        );
        assert(fields_are(params, seq![("workspace_id"@, is_text(m.workspace)), ("focus"@, is_bool(true))]));
        if let Err(e) = self.request("tab.create", params) {
            return Err(e);
        }
        let ghost mid = *self;
        let done = self.refresh();
        proof {
            Self::lemma_after_one(&*self, &mid, &start);
        }
        match done {
            Ok(()) => Ok(owned("new tab")),
            Err(e) => Err(e),
        }
    }

    /// `close_tab`: close the focused tab.
    fn close_tab(&mut self) -> (r: Result<String, Error>)
        ensures
            final(self).follows(&*old(self)),
            quiet(final(self).since(&*old(self))),
            replay_close_tab(old(self).memo(), final(self).since(&*old(self))) == Some(
                (final(self).memo(), line_view(r)),
            ),
    {
        let ghost m = self.memo();
        let ghost start = *self;
        let params = Json::Obj(vec![text_member("tab_id", self.tab_id.as_str())]);
        assert(fields_are(params, seq![("tab_id"@, is_text(m.tab))]));
        if let Err(e) = self.request("tab.close", params) {
            return Err(e);
        }
        self.prev_tab_id = None;
        let ghost mid = *self;
        let done = self.refresh();
        proof {
            Self::lemma_after_one(&*self, &mid, &start);
        }
        match done {
            Ok(()) => Ok(owned("closed tab")),
            Err(e) => Err(e),
        }
    }

    /// The tabs of the focused space.
    fn tabs(&mut self) -> (r: Result<Vec<String>, Error>)
        ensures
            final(self).follows(&*old(self)),
            quiet(final(self).since(&*old(self))),
            final(self).memo() == old(self).memo(),
            final(self).since(&*old(self)).len() == 1,
            call_is(final(self).since(&*old(self))[0], "tab.list"@, in_space(old(self).memo())),
            match final(self).since(&*old(self))[0]->reply {
                Ok(v) => r matches Ok(ts) && texts(ts@) == tab_ids(rows_at(v, "tabs"@)) && ts@.len()
                    <= ROW_LIMIT,
                Err(e) => r == Err::<Vec<String>, Error>(e),
            },
    {
        let params = Json::Obj(vec![text_member("workspace_id", self.workspace_id.as_str())]);
        assert(fields_are(params, in_space(self.memo())));
        match self.request("tab.list", params) {
            Ok(v) => Ok(tab_list(&v)),
            Err(e) => Err(e),
        }
    }

    /// Focus tab `tab`, then read focus back.
    fn focus_tab(&mut self, tab: &str) -> (r: Result<(), Error>)
        ensures
            final(self).follows(&*old(self)),
            quiet(final(self).since(&*old(self))),
            replay_focus_tab(old(self).memo(), tab@, final(self).since(&*old(self))) == Some(
                (final(self).memo(), r),
            ),
    {
        let ghost m = self.memo();
        let ghost start = *self;
        let params = Json::Obj(vec![text_member("tab_id", tab)]);
        assert(fields_are(params, seq![("tab_id"@, is_text(tab@))]));
        if let Err(e) = self.request("tab.focus", params) {
            return Err(e);
        }
        if !same_text(tab, self.tab_id.as_str()) {
            let left = owned(self.tab_id.as_str());
            self.tab_id = owned(tab);
            self.prev_tab_id = Some(left);
        }
        assert(self.memo() == moved_tab(m, tab@));
        let ghost mid = *self;
        let done = self.refresh();
        proof {
            Self::lemma_after_one(&*self, &mid, &start);
        }
        done
    }

    /// `prev_tab` / `next_tab`: one tab along, wrapping.
    fn step_tab(&mut self, delta: i64) -> (r: Result<String, Error>)
        requires
            delta == 1 || delta == -1,
        ensures
            final(self).follows(&*old(self)),
            quiet(final(self).since(&*old(self))),
            replay_step_tab(old(self).memo(), delta as int, final(self).since(&*old(self))) == Some(
                (final(self).memo(), line_view(r)),
            ),
    {
        let ghost m = self.memo();
        let ghost start = *self;
        let tabs = match self.tabs() {
            Ok(t) => t,
            Err(e) => return Err(e),
        };
        let ghost mid = *self;
        let n = tabs.len();
        if n < 2 {
            return Ok(owned("only one tab"));
        }
        let cur = match find_text(&tabs, self.tab_id.as_str()) {
            Some(i) => i,
            None => 0,
        };
        let next = nav::step(Some(cur), delta, n);
        let target = owned(tabs[next].as_str());
        let done = self.focus_tab(target.as_str());
        proof {
            Self::lemma_after_one(&*self, &mid, &start);
        }
        match done {
            Ok(()) => Ok(joined("tab ", place_text(next, n).as_str())),
            Err(e) => Err(e),
        }
    }

    /// The panes of the focused tab, in list order.
    fn tab_panes(&mut self) -> (r: Result<Vec<String>, Error>)
        ensures
            final(self).follows(&*old(self)),
            quiet(final(self).since(&*old(self))),
            final(self).memo() == old(self).memo(),
            final(self).since(&*old(self)).len() == 1,
            call_is(final(self).since(&*old(self))[0], "pane.list"@, in_space(old(self).memo())),
            match final(self).since(&*old(self))[0]->reply {
                Ok(v) => r matches Ok(ps) && texts(ps@) == panes_in(rows_at(v, "panes"@), old(self).memo().tab)
                    && ps@.len() <= ROW_LIMIT,
                Err(e) => r == Err::<Vec<String>, Error>(e),
            },
    {
        let params = Json::Obj(vec![text_member("workspace_id", self.workspace_id.as_str())]);
        assert(fields_are(params, in_space(self.memo())));
        match self.request("pane.list", params) {
            Ok(v) => Ok(pane_list(&v, self.tab_id.as_str())),
            Err(e) => Err(e),
        }
    }

    /// `last_tab`: back to the tab focus came from.
    fn last_tab(&mut self) -> (r: Result<String, Error>)
        ensures
            final(self).follows(&*old(self)),
            quiet(final(self).since(&*old(self))),
            replay_last_tab(old(self).memo(), final(self).since(&*old(self))) == Some(
                (final(self).memo(), line_view(r)),
            ),
    {
        let ghost start = *self;
        let prev = match &self.prev_tab_id {
            Some(p) => owned(p.as_str()),
            None => {
                proof {
                    Self::lemma_same(&*self, &start);
                }
                return Ok(owned("no previous tab"));
            },
        };
        match self.focus_tab(prev.as_str()) {
            Ok(()) => Ok(owned("last tab")),
            Err(e) => Err(e),
        }
    }

    /// `goto_tab`: the `n`th tab of the space, counting from 1.
    fn goto_tab(&mut self, n: usize) -> (r: Result<String, Error>)
        requires
            n >= 1,
        ensures
            final(self).follows(&*old(self)),
            quiet(final(self).since(&*old(self))),
            replay_goto_tab(old(self).memo(), n as nat, final(self).since(&*old(self))) == Some(
                (final(self).memo(), line_view(r)),
            ),
    {
        let ghost start = *self;
        let tabs = match self.tabs() {
            Ok(t) => t,
            Err(e) => return Err(e),
        };
        let ghost mid = *self;
        if n > tabs.len() {
            return Ok(joined("no tab ", decimal_text(n as u64).as_str()));
        }
        let target = owned(tabs[n - 1].as_str());
        let done = self.focus_tab(target.as_str());
        proof {
            Self::lemma_after_one(&*self, &mid, &start);
        }
        match done {
            Ok(()) => Ok(joined("tab ", decimal_text(n as u64).as_str())),
            Err(e) => Err(e),
        }
    }

    /// `tab.move` has no CLI subcommand; it is reachable only over the socket.
    /// `nav::tab_move` explains the off-by-one in `insert_index`.
    fn move_tab(&mut self, delta: i64) -> (r: Result<String, Error>)
        ensures
            final(self).follows(&*old(self)),
            quiet(final(self).since(&*old(self))),
            replay_move_tab(old(self).memo(), delta as int, final(self).since(&*old(self))) == Some(
                (final(self).memo(), line_view(r)),
            ),
    {
        let ghost m = self.memo();
        let ghost start = *self;
        let tabs = match self.tabs() {
            Ok(t) => t,
            Err(e) => return Err(e),
        };
        let ghost mid = *self;
        let n = tabs.len();
        if n < 2 {
            return Ok(owned("only one tab"));
        }
        let cur = match find_text(&tabs, self.tab_id.as_str()) {
            Some(i) => i,
            None => 0,
        };
        let (insert, landed) = match nav::tab_move(cur, delta, n) {
            Some(p) => p,
            None => return Ok(owned("at end")),
        };
        let params = Json::Obj(vec![text_member("tab_id", self.tab_id.as_str()), member_of("insert_index", Json::count(insert))]);
        assert(fields_are(params, seq![("tab_id"@, is_text(m.tab)), ("insert_index"@, is_count(insert as nat))]));
        let done = self.request("tab.move", params);
        proof {
            Self::lemma_after_one(&*self, &mid, &start);
        }
        match done {
            Ok(_) => Ok(joined("moved tab -> ", decimal_text((landed + 1) as u64).as_str())),
            Err(e) => Err(e),
        }
    }

    /// Move the focused pane to `dest`, then bring the client along: the
    /// move's `focus` reaches the server only.
    fn move_pane(&mut self, dest: Json, Ghost(test): Ghost<spec_fn(Json) -> bool>) -> (r: Result<String, Error>)
        requires
            test(dest),
        ensures
            final(self).follows(&*old(self)),
            quiet(final(self).since(&*old(self))),
            pane_moved(old(self).memo(), test, final(self).since(&*old(self))) == Some(
                (final(self).memo(), line_view(r)),
            ),
    {
        let ghost m = self.memo();
        let ghost start = *self;
        let params = Json::Obj(
            vec![
                text_member("pane_id", self.pane_id.as_str()),
                member_of("destination", dest),
                bool_member("focus", true),
            ],
        );
        assert(fields_are(
            params,
            seq![("pane_id"@, is_text(m.pane)), ("destination"@, test), ("focus"@, is_bool(true))],
        ));
        if let Err(e) = self.request("pane.move", params) {
            return Err(e);
        }
        let ghost mid = *self;
        let pane = owned(self.pane_id.as_str());
        let params = Json::Obj(vec![text_member("pane_id", pane.as_str())]);
        assert(fields_are(params, seq![("pane_id"@, is_text(m.pane))]));
        let focused = self.request("pane.focus", params);
        proof {
            Self::lemma_after_one(&*self, &mid, &start);
        }
        if let Err(e) = focused {
            return Err(e);
        }
        let ghost mid2 = *self;
        let done = self.refresh();
        proof {
            Self::lemma_after_one(&*self, &mid2, &mid);
            Self::lemma_after_one(&*self, &mid, &start);
        }
        match done {
            Ok(()) => Ok(owned("broke pane out")),
            Err(e) => Err(e),
        }
    }

    /// `break_pane_*`: send the focused pane to a new tab, or to the tab
    /// before or after this one.
    fn break_pane(&mut self, target: BreakTo) -> (r: Result<String, Error>)
        ensures
            final(self).follows(&*old(self)),
            quiet(final(self).since(&*old(self))),
            replay_break_pane(old(self).memo(), target, final(self).since(&*old(self))) == Some(
                (final(self).memo(), line_view(r)),
            ),
    {
        let ghost start = *self;
        match target {
            BreakTo::New => {
                let dest = Json::Obj(vec![text_member("type", "new_tab")]);
                let ghost test = is_obj(seq![("type"@, is_text("new_tab"@))]);
                assert(test(dest));
                self.move_pane(dest, Ghost(test))
            },
            _ => {
                let tabs = match self.tabs() {
                    Ok(t) => t,
                    Err(e) => return Err(e),
                };
                let ghost mid = *self;
                let n = tabs.len();
                if n < 2 {
                    return Ok(owned("no other tab"));
                }
                let cur = match find_text(&tabs, self.tab_id.as_str()) {
                    Some(i) => i,
                    None => 0,
                };
                let delta: i64 = match target {
                    BreakTo::Prev => -1,
                    _ => 1,
                };
                let idx = nav::wrap(cur as i64 + delta, n);
                let dest = Json::Obj(
                    vec![
                        text_member("type", "tab"),
                        text_member("tab_id", tabs[idx].as_str()),
                        text_member("split", "right"),
                    ],
                );
                let ghost test = is_obj(
                    seq![
                        ("type"@, is_text("tab"@)),
                        ("tab_id"@, is_text(tabs@[idx as int]@)),
                        ("split"@, is_text("right"@)),
                    ],
                );
                assert(test(dest));
                let done = self.move_pane(dest, Ghost(test));
                proof {
                    Self::lemma_after_one(&*self, &mid, &start);
                }
                done
            },
        }
    }

    /// Ask the user for a line under `label`, recorded.
    fn ask<P: FnOnce(&str) -> Option<String>>(&mut self, prompt: P, label: &str) -> (r: Option<String>)
        requires
            call_requires(prompt, (label,)),
        ensures
            final(self).follows(&*old(self)),
            quiet(final(self).since(&*old(self))),
            final(self).since(&*old(self)) == seq![Effect::Asked { label: label@, answer: opt_view(r) }],
            final(self).memo() == old(self).memo(),
    {
        let ghost before = *self;
        let answer = prompt(label);
        let ghost e = Effect::Asked { label: label@, answer: opt_view(answer) };
        proof {
            self.effects@ = self.effects@.push(e);
            assert(self.done() =~= before.done() + seq![e]);
            Self::lemma_grew(&*self, &before, seq![e]);
        }
        answer
    }

    /// `rename_tab`: ask for a label; nothing typed cancels.
    fn rename_tab<P: FnOnce(&str) -> Option<String>>(&mut self, prompt: P) -> (r: Result<String, Error>)
        requires
            forall|s: &str| call_requires(prompt, (s,)),
        ensures
            final(self).follows(&*old(self)),
            quiet(final(self).since(&*old(self))),
            replay_rename_tab(old(self).memo(), final(self).since(&*old(self))) == Some(
                (final(self).memo(), line_view(r)),
            ),
    {
        let ghost m = self.memo();
        let ghost start = *self;
        let answer = self.ask(prompt, "rename tab: ");
        let ghost mid = *self;
        let label = match answer {
            Some(l) => l,
            None => return Ok(owned("cancelled")),
        };
        if label.as_str().unicode_len() == 0 {
            return Ok(owned("cancelled"));
        }
        let params = Json::Obj(vec![text_member("tab_id", self.tab_id.as_str()), text_member("label", label.as_str())]);
        assert(fields_are(params, seq![("tab_id"@, is_text(m.tab)), ("label"@, is_text(label@))]));
        let done = self.request("tab.rename", params);
        proof {
            Self::lemma_after_one(&*self, &mid, &start);
        }
        match done {
            Ok(_) => Ok(owned("renamed tab")),
            Err(e) => Err(e),
        }
    }

    /// `rename_pane`: ask for a label; an empty one clears it.
    fn rename_pane<P: FnOnce(&str) -> Option<String>>(&mut self, prompt: P) -> (r: Result<String, Error>)
        requires
            forall|s: &str| call_requires(prompt, (s,)),
        ensures
            final(self).follows(&*old(self)),
            quiet(final(self).since(&*old(self))),
            replay_rename_pane(old(self).memo(), final(self).since(&*old(self))) == Some(
                (final(self).memo(), line_view(r)),
            ),
    {
        let ghost m = self.memo();
        let ghost start = *self;
        let answer = self.ask(prompt, "rename pane: ");
        let ghost mid = *self;
        let label = match answer {
            Some(l) => l,
            None => return Ok(owned("cancelled")),
        };
        let ghost test = if label@.len() == 0 { is_null() } else { is_text(label@) };
        let value = if label.as_str().unicode_len() == 0 {
            Json::Null
        } else {
            Json::Str(label)
        };
        assert(test(value));
        let params = Json::Obj(vec![text_member("pane_id", self.pane_id.as_str()), member_of("label", value)]);
        assert(fields_are(params, seq![("pane_id"@, is_text(m.pane)), ("label"@, test)]));
        let done = self.request("pane.rename", params);
        proof {
            Self::lemma_after_one(&*self, &mid, &start);
        }
        match done {
            Ok(_) => Ok(owned("renamed pane")),
            Err(e) => Err(e),
        }
    }

    /// `cycle_focus`: focus the next pane of the tab, in list order.
    fn cycle_focus(&mut self) -> (r: Result<String, Error>)
        ensures
            final(self).follows(&*old(self)),
            quiet(final(self).since(&*old(self))),
            replay_cycle_focus(old(self).memo(), final(self).since(&*old(self))) == Some(
                (final(self).memo(), line_view(r)),
            ),
    {
        let ghost start = *self;
        let panes = match self.tab_panes() {
            Ok(p) => p,
            Err(e) => return Err(e),
        };
        let ghost mid = *self;
        let n = panes.len();
        if n < 2 {
            return Ok(owned("only one pane"));
        }
        let cur = match find_text(&panes, self.pane_id.as_str()) {
            Some(i) => i,
            None => 0,
        };
        let next = owned(panes[(cur + 1) % n].as_str());
        let params = Json::Obj(vec![text_member("pane_id", next.as_str())]);
        let done = self.request("pane.focus", params);
        proof {
            Self::lemma_after_one(&*self, &mid, &start);
        }
        match done {
            Ok(_) => {
                self.pane_id = next;
                Ok(owned("cycle"))
            },
            Err(e) => Err(e),
        }
    }

    /// `swap_forward` / `swap_backward`: swap the focused pane with the next
    /// or previous pane of the tab, wrapping.
    fn swap_cycle(&mut self, forward: bool) -> (r: Result<String, Error>)
        ensures
            final(self).follows(&*old(self)),
            quiet(final(self).since(&*old(self))),
            replay_swap_cycle(old(self).memo(), forward, final(self).since(&*old(self))) == Some(
                (final(self).memo(), line_view(r)),
            ),
    {
        let ghost m = self.memo();
        let ghost start = *self;
        let panes = match self.tab_panes() {
            Ok(p) => p,
            Err(e) => return Err(e),
        };
        let ghost mid = *self;
        let n = panes.len();
        if n < 2 {
            return Ok(owned("only one pane"));
        }
        let cur = match find_text(&panes, self.pane_id.as_str()) {
            Some(i) => i,
            None => 0,
        };
        let delta: i64 = if forward { 1 } else { -1 };
        let idx = nav::wrap(cur as i64 + delta, n);
        let params = Json::Obj(
            vec![
                text_member("source_pane_id", self.pane_id.as_str()),
                text_member("target_pane_id", panes[idx].as_str()),
            ],
        );
        assert(fields_are(
            params,
            seq![("source_pane_id"@, is_text(m.pane)), ("target_pane_id"@, is_text(panes@[idx as int]@))],
        ));
        let done = self.request("pane.swap", params);
        proof {
            Self::lemma_after_one(&*self, &mid, &start);
        }
        match done {
            Ok(_) => Ok(owned(if forward { "swap forward" } else { "swap back" })),
            Err(e) => Err(e),
        }
    }

    /// The agents of herdr's panel.
    fn agents(&mut self) -> (r: Result<Vec<Agent>, Error>)
        ensures
            final(self).follows(&*old(self)),
            quiet(final(self).since(&*old(self))),
            final(self).memo() == old(self).memo(),
            final(self).since(&*old(self)).len() == 1,
            call_is(final(self).since(&*old(self))[0], "agent.list"@, seq![]),
            match final(self).since(&*old(self))[0]->reply {
                Ok(v) => r matches Ok(a) && agents_view(a@) == agent_rows(rows_at(v, "agents"@)) && a@.len()
                    <= ROW_LIMIT && forall|i: int| 0 <= i < a@.len() ==> well_named(#[trigger] a@[i].status),
                Err(e) => r == Err::<Vec<Agent>, Error>(e),
            },
    {
        let params = Json::Obj(Vec::new());
        assert(fields_are(params, seq![]));
        match self.request("agent.list", params) {
            Ok(v) => Ok(agent_list(&v)),
            Err(e) => Err(e),
        }
    }

    /// `agent.focus` crosses spaces and tabs on its own, so the whole snapshot
    /// has to be re-read afterwards, not just the pane.
    fn focus_agent(&mut self, agents: &Vec<Agent>, index: usize) -> (r: Result<String, Error>)
        requires
            index < agents@.len(),
        ensures
            final(self).follows(&*old(self)),
            quiet(final(self).since(&*old(self))),
            replay_focus_agent(old(self).memo(), agents_view(agents@), index as int, final(self).since(&*old(self)))
                == Some((final(self).memo(), line_view(r))),
    {
        let ghost m = self.memo();
        let ghost start = *self;
        let n = agents.len();
        let target = &agents[index];
        let mut line = place_text(index, n);
        line.append(" ");
        line.append(target.label.as_str());
        line.append(" \u{b7} ");
        if same_text(target.pane_id.as_str(), self.pane_id.as_str()) {
            line.append("already here");
            proof {
                Self::lemma_same(&*self, &start);
            }
            return Ok(line);
        }
        line.append(target.status.as_text().as_str());
        let params = Json::Obj(vec![text_member("target", target.pane_id.as_str())]);
        if let Err(e) = self.request("agent.focus", params) {
            return Err(e);
        }
        if find_agent(agents, self.pane_id.as_str()).is_some() {
            self.prev_agent_id = Some(owned(self.pane_id.as_str()));
        }
        let ghost mid = *self;
        // `agent.focus` moves the server's focus but, on herdr 0.9.0, not the
        // client's view. `pane.focus` is one of the calls the client follows.
        let params = Json::Obj(vec![text_member("pane_id", target.pane_id.as_str())]);
        let focused = self.request("pane.focus", params);
        proof {
            Self::lemma_after_one(&*self, &mid, &start);
        }
        if let Err(e) = focused {
            return Err(e);
        }
        let ghost mid2 = *self;
        let done = self.refresh();
        proof {
            Self::lemma_after_one(&*self, &mid2, &mid);
            Self::lemma_after_one(&*self, &mid, &start);
        }
        match done {
            Ok(()) => Ok(line),
            Err(e) => Err(e),
        }
    }

    /// `prev_agent` / `next_agent`: one agent along the panel, wrapping.
    fn step_agent(&mut self, delta: i64) -> (r: Result<String, Error>)
        requires
            delta == 1 || delta == -1,
        ensures
            final(self).follows(&*old(self)),
            quiet(final(self).since(&*old(self))),
            replay_step_agent(old(self).memo(), delta as int, final(self).since(&*old(self))) == Some(
                (final(self).memo(), line_view(r)),
            ),
    {
        let ghost start = *self;
        let agents = match self.agents() {
            Ok(a) => a,
            Err(e) => return Err(e),
        };
        let ghost mid = *self;
        if agents.len() == 0 {
            return Ok(owned("no agents"));
        }
        // From a pane with no agent in it, stepping enters the panel at
        // whichever end the direction implies rather than doing nothing.
        let next = nav::step(self.agent_at_focus(&agents), delta, agents.len());
        let done = self.focus_agent(&agents, next);
        proof {
            Self::lemma_after_one(&*self, &mid, &start);
        }
        done
    }

    /// `goto_agent`: the `n`th agent of the panel, counting from 1.
    fn goto_agent(&mut self, n: usize) -> (r: Result<String, Error>)
        requires
            n >= 1,
        ensures
            final(self).follows(&*old(self)),
            quiet(final(self).since(&*old(self))),
            replay_goto_agent(old(self).memo(), n as nat, final(self).since(&*old(self))) == Some(
                (final(self).memo(), line_view(r)),
            ),
    {
        let ghost start = *self;
        let agents = match self.agents() {
            Ok(a) => a,
            Err(e) => return Err(e),
        };
        let ghost mid = *self;
        if n > agents.len() {
            return Ok(joined("no agent ", decimal_text(n as u64).as_str()));
        }
        let done = self.focus_agent(&agents, n - 1);
        proof {
            Self::lemma_after_one(&*self, &mid, &start);
        }
        done
    }

    /// `last_agent`: back to the agent focus came from, if it is still there.
    fn last_agent(&mut self) -> (r: Result<String, Error>)
        ensures
            final(self).follows(&*old(self)),
            quiet(final(self).since(&*old(self))),
            replay_last_agent(old(self).memo(), final(self).since(&*old(self))) == Some(
                (final(self).memo(), line_view(r)),
            ),
    {
        let ghost start = *self;
        let agents = match self.agents() {
            Ok(a) => a,
            Err(e) => return Err(e),
        };
        let ghost mid = *self;
        // The agent may have exited while we were away.
        let index = match &self.prev_agent_id {
            Some(p) => find_agent(&agents, p.as_str()),
            None => None,
        };
        let index = match index {
            Some(i) => i,
            None => return Ok(owned("no previous agent")),
        };
        let done = self.focus_agent(&agents, index);
        proof {
            Self::lemma_after_one(&*self, &mid, &start);
        }
        done
    }

    /// Walk the panel from the cursor until an agent that wants you turns up,
    /// wrapping once around. Skipping the busy ones is the whole point, so this
    /// searches the list rather than cycling a filtered copy of it.
    fn step_attention(&mut self, delta: i64) -> (r: Result<String, Error>)
        requires
            delta == 1 || delta == -1,
        ensures
            final(self).follows(&*old(self)),
            quiet(final(self).since(&*old(self))),
            replay_step_attention(old(self).memo(), delta as int, final(self).since(&*old(self))) == Some(
                (final(self).memo(), line_view(r)),
            ),
    {
        let ghost start = *self;
        let agents = match self.agents() {
            Ok(a) => a,
            Err(e) => return Err(e),
        };
        let ghost mid = *self;
        if agents.len() == 0 {
            return Ok(owned("no agents"));
        }
        let cur = self.agent_at_focus(&agents);
        let wanted = |a: &Agent| -> (b: bool)
            ensures
                b == (a.status is Blocked || a.status is Done),
            { a.status.wants_attention() };
        let hit = nav::find_attention(agents.as_slice(), cur, delta, wanted);
        proof {
            let rows = agents_view(agents@);
            assert forall|i: int, b: bool|
                0 <= i < agents@.len() && #[trigger] call_ensures(wanted, (&agents@[i],), b) implies b == agent_flags(
                rows,
            )[i] by {
                assert(well_named(agents@[i].status));
            }
            lemma_attention(agents@, agent_flags(rows), cur, delta as int, wanted, hit);
        }
        let done = match hit {
            Some(i) => self.focus_agent(&agents, i),
            None => return Ok(owned("nothing waiting")),
        };
        proof {
            Self::lemma_after_one(&*self, &mid, &start);
        }
        done
    }

    /// The spaces of herdr's sidebar.
    fn spaces(&mut self) -> (r: Result<Vec<Space>, Error>)
        ensures
            final(self).follows(&*old(self)),
            quiet(final(self).since(&*old(self))),
            final(self).memo() == old(self).memo(),
            final(self).since(&*old(self)).len() == 1,
            call_is(final(self).since(&*old(self))[0], "workspace.list"@, seq![]),
            match final(self).since(&*old(self))[0]->reply {
                Ok(v) => r matches Ok(a) && spaces_view(a@) == space_rows(rows_at(v, "workspaces"@)) && a@.len()
                    <= ROW_LIMIT && forall|i: int| 0 <= i < a@.len() ==> well_named(#[trigger] a@[i].status),
                Err(e) => r == Err::<Vec<Space>, Error>(e),
            },
    {
        let params = Json::Obj(Vec::new());
        assert(fields_are(params, seq![]));
        match self.request("workspace.list", params) {
            Ok(v) => Ok(space_list(&v)),
            Err(e) => Err(e),
        }
    }

    /// Where the sidebar's cursor sits. `focused` comes from the server, so it
    /// stays right even if a space was created or closed since the mode opened.
    fn space_at_focus(&self, spaces: &Vec<Space>) -> (r: Option<usize>)
        ensures
            opt_index(space_at_focus(spaces_view(spaces@), self.memo())) == r,
            match r {
                Some(i) => i < spaces@.len() && space_at_focus(spaces_view(spaces@), self.memo()) == Some(i as int),
                None => space_at_focus(spaces_view(spaces@), self.memo()) is None,
            },
    {
        match find_focused(spaces) {
            Some(i) => Some(i),
            None => find_space(spaces, self.workspace_id.as_str()),
        }
    }

    /// Focusing *is* the preview: the space really switches underneath, and the
    /// popup keeps the keystrokes because it is session-modal. `cancel` is what
    /// makes that safe to do while only browsing.
    fn focus_space(&mut self, spaces: &Vec<Space>, index: usize) -> (r: Result<String, Error>)
        requires
            index < spaces@.len(),
        ensures
            final(self).follows(&*old(self)),
            quiet(final(self).since(&*old(self))),
            replay_focus_space(old(self).memo(), spaces_view(spaces@), index as int, final(self).since(&*old(self)))
                == Some((final(self).memo(), line_view(r))),
    {
        let ghost start = *self;
        let n = spaces.len();
        let target = &spaces[index];
        let mut line = place_text(index, n);
        line.append(" ");
        line.append(target.label.as_str());
        line.append(" \u{b7} ");
        line.append(target.status.as_text().as_str());
        if same_text(target.id.as_str(), self.workspace_id.as_str()) {
            line.append(" \u{b7} ");
            line.append("already here");
            proof {
                Self::lemma_same(&*self, &start);
            }
            return Ok(line);
        }
        let params = Json::Obj(vec![text_member("workspace_id", target.id.as_str())]);
        if let Err(e) = self.request("workspace.focus", params) {
            return Err(e);
        }
        let left = owned(self.workspace_id.as_str());
        self.workspace_id = owned(target.id.as_str());
        self.prev_workspace_id = Some(left);
        let ghost mid = *self;
        // The new space brings its own active tab and pane with it.
        let done = self.refresh();
        proof {
            Self::lemma_after_one(&*self, &mid, &start);
        }
        match done {
            Ok(()) => Ok(line),
            Err(e) => Err(e),
        }
    }

    /// `prev_space` / `next_space`: one space along the sidebar, wrapping.
    fn step_space(&mut self, delta: i64) -> (r: Result<String, Error>)
        requires
            delta == 1 || delta == -1,
        ensures
            final(self).follows(&*old(self)),
            quiet(final(self).since(&*old(self))),
            replay_step_space(old(self).memo(), delta as int, final(self).since(&*old(self))) == Some(
                (final(self).memo(), line_view(r)),
            ),
    {
        let ghost start = *self;
        let spaces = match self.spaces() {
            Ok(s) => s,
            Err(e) => return Err(e),
        };
        let ghost mid = *self;
        if spaces.len() < 2 {
            return Ok(owned("only one space"));
        }
        let cur = match self.space_at_focus(&spaces) {
            Some(i) => i,
            None => 0,
        };
        let next = nav::step(Some(cur), delta, spaces.len());
        let done = self.focus_space(&spaces, next);
        proof {
            Self::lemma_after_one(&*self, &mid, &start);
        }
        done
    }

    /// `goto_space`: the `n`th space of the sidebar, counting from 1.
    fn goto_space(&mut self, n: usize) -> (r: Result<String, Error>)
        requires
            n >= 1,
        ensures
            final(self).follows(&*old(self)),
            quiet(final(self).since(&*old(self))),
            replay_goto_space(old(self).memo(), n as nat, final(self).since(&*old(self))) == Some(
                (final(self).memo(), line_view(r)),
            ),
    {
        let ghost start = *self;
        let spaces = match self.spaces() {
            Ok(s) => s,
            Err(e) => return Err(e),
        };
        let ghost mid = *self;
        if n > spaces.len() {
            return Ok(joined("no space ", decimal_text(n as u64).as_str()));
        }
        let done = self.focus_space(&spaces, n - 1);
        proof {
            Self::lemma_after_one(&*self, &mid, &start);
        }
        done
    }

    /// `last_space`: back to the space focus came from, if it is still there.
    fn last_space(&mut self) -> (r: Result<String, Error>)
        ensures
            final(self).follows(&*old(self)),
            quiet(final(self).since(&*old(self))),
            replay_last_space(old(self).memo(), final(self).since(&*old(self))) == Some(
                (final(self).memo(), line_view(r)),
            ),
    {
        let ghost start = *self;
        let spaces = match self.spaces() {
            Ok(s) => s,
            Err(e) => return Err(e),
        };
        let ghost mid = *self;
        // The space may have been closed while we were away.
        let index = match &self.prev_workspace_id {
            Some(p) => find_space(&spaces, p.as_str()),
            None => None,
        };
        let index = match index {
            Some(i) => i,
            None => return Ok(owned("no previous space")),
        };
        let done = self.focus_space(&spaces, index);
        proof {
            Self::lemma_after_one(&*self, &mid, &start);
        }
        done
    }

    /// `step_attention` one level up: skip the spaces whose agents are all busy
    /// or already read, and land on the next one that is waiting on you.
    fn step_space_attention(&mut self, delta: i64) -> (r: Result<String, Error>)
        requires
            delta == 1 || delta == -1,
        ensures
            final(self).follows(&*old(self)),
            quiet(final(self).since(&*old(self))),
            replay_step_space_attention(old(self).memo(), delta as int, final(self).since(&*old(self))) == Some(
                (final(self).memo(), line_view(r)),
            ),
    {
        let ghost start = *self;
        let spaces = match self.spaces() {
            Ok(s) => s,
            Err(e) => return Err(e),
        };
        let ghost mid = *self;
        if spaces.len() == 0 {
            return Ok(owned("no spaces"));
        }
        let cur = self.space_at_focus(&spaces);
        let wanted = |s: &Space| -> (b: bool)
            ensures
                b == (s.status is Blocked || s.status is Done),
            { s.status.wants_attention() };
        let hit = nav::find_attention(spaces.as_slice(), cur, delta, wanted);
        proof {
            let rows = spaces_view(spaces@);
            assert forall|i: int, b: bool|
                0 <= i < spaces@.len() && #[trigger] call_ensures(wanted, (&spaces@[i],), b) implies b == space_flags(
                rows,
            )[i] by {
                assert(well_named(spaces@[i].status));
            }
            lemma_attention(spaces@, space_flags(rows), cur, delta as int, wanted, hit);
        }
        let done = match hit {
            Some(i) => self.focus_space(&spaces, i),
            None => return Ok(owned("nothing waiting")),
        };
        proof {
            Self::lemma_after_one(&*self, &mid, &start);
        }
        done
    }

    /// Start a popup: the plugin context is a snapshot from when the open was
    /// requested, and it may not name a tab at all. The popup is tied to
    /// whatever tab the server has focused now, so read that back. A popup
    /// that replaces one that hopped picks up its memory, then puts the
    /// client on the popup's tab: herdr moves the client only for explicit
    /// focus calls, and a tab that just closed under it lands wherever the
    /// client's fallback says.
    pub fn begin(&mut self, resumed: Option<&Resume>) -> (r: Result<(), Error>)
        ensures
            final(self).follows(&*old(self)),
            replay_begin(
                old(self).memo(),
                match resumed {
                    Some(n) => Some(*n),
                    None => None,
                },
                final(self).since(&*old(self)),
            ) == Some((final(self).memo(), r)),
    {
        let ghost start = *self;
        let refreshed = self.refresh();
        let ghost mid = *self;
        if let Err(e) = refreshed {
            proof {
                assert(self.since(&start).take(1) =~= self.since(&start));
            }
            return Err(e);
        }
        match resumed {
            Some(note) => {
                self.restore(note);
                let ghost mid2 = *self;
                let synced = self.sync_view();
                proof {
                    Self::lemma_split(&*self, &mid2, &start);
                    assert(mid2.since(&start) == mid.since(&start));
                }
                synced
            },
            None => {
                proof {
                    assert(self.since(&start).take(1) =~= self.since(&start));
                }
                Ok(())
            },
        }
    }

    /// Leave `note` in the store, recorded.
    fn write_note(&mut self, note: &Resume) -> (r: Result<(), Error>)
        ensures
            final(self).follows(&*old(self)),
            final(self).since(&*old(self)) == seq![Effect::Write { note: *note, outcome: r }],
            final(self).memo() == old(self).memo(),
    {
        let ghost before = *self;
        let r = self.store.write(&mut self.files, note);
        let ghost e = Effect::Write { note: *note, outcome: r };
        proof {
            self.effects@ = self.effects@.push(e);
            assert(self.done() =~= before.done() + seq![e]);
            Self::lemma_grew(&*self, &before, seq![e]);
        }
        r
    }

    /// Take the note away, recorded.
    fn clear_note(&mut self)
        ensures
            final(self).follows(&*old(self)),
            final(self).since(&*old(self)) == seq![Effect::Clear],
            final(self).memo() == old(self).memo(),
    {
        let ghost before = *self;
        self.store.clear(&mut self.files);
        proof {
            self.effects@ = self.effects@.push(Effect::Clear);
            assert(self.done() =~= before.done() + seq![Effect::Clear]);
            Self::lemma_grew(&*self, &before, seq![Effect::Clear]);
        }
    }

    /// Arrange for a fresh popup on whatever tab is on screen once this one
    /// is gone: leave the note, then have herdr run the mode's `open` action.
    /// The caller exits afterwards; the action waits for that.
    pub fn arm_hop(&mut self, mode: &str, feedback: &str) -> (r: Result<(), Error>)
        ensures
            final(self).follows(&*old(self)),
            replay_arm_hop(
                old(self).memo(),
                old(self).plugin(),
                old(self).note_store().socket_view(),
                mode@,
                feedback@,
                final(self).since(&*old(self)),
            ) == Some((final(self).memo(), r)),
    {
        let ghost m = self.memo();
        let ghost start = *self;
        let note = self.resume(mode, feedback);
        let written = self.write_note(&note);
        let ghost mid = *self;
        match written {
            Ok(()) => {},
            Err(e) => return Err(e),
        }
        let params = Json::Obj(vec![text_member("plugin_id", self.plugin_id.as_str()), text_member("action_id", mode)]);
        assert(fields_are(params, seq![("plugin_id"@, is_text(start.plugin())), ("action_id"@, is_text(mode@))]));
        let invoked = self.request("plugin.action.invoke", params);
        proof {
            Self::lemma_after_one(&*self, &mid, &start);
            let es = self.since(&start);
            assert(es[0] == Effect::Write { note, outcome: written });
            assert(es[1] == self.since(&mid)[0]);
        }
        match invoked {
            Ok(_) => {
                proof {
                    assert(self.since(&start).skip(2).len() == 0);
                }
                Ok(())
            },
            Err(e) => {
                let ghost mid2 = *self;
                self.clear_note();
                proof {
                    Self::lemma_after_one(&*self, &mid2, &mid);
                    Self::lemma_after_one(&*self, &mid, &start);
                    assert(self.since(&start).skip(2) =~= seq![Effect::Clear]);
                    let es = self.since(&start);
                    assert(es[2] == es.skip(2)[0]);
                }
                Err(e)
            },
        }
    }

    /// Call an armed hop off: the action it was armed for failed, so the
    /// popup is staying and the waiting `open` should stand down.
    pub fn disarm_hop(&mut self)
        ensures
            final(self).follows(&*old(self)),
            final(self).since(&*old(self)) == seq![Effect::Clear],
            final(self).memo() == old(self).memo(),
    {
        self.clear_note();
    }

    /// Put the viewing client on the tab the server (and so this popup) is on.
    pub fn sync_view(&mut self) -> (r: Result<(), Error>)
        ensures
            final(self).follows(&*old(self)),
            quiet(final(self).since(&*old(self))),
            replay_sync_view(old(self).memo(), final(self).since(&*old(self))) == Some((final(self).memo(), r)),
    {
        let ghost start = *self;
        if self.tab_id.as_str().unicode_len() == 0 {
            proof {
                Self::lemma_same(&*self, &start);
            }
            return Ok(());
        }
        let params = Json::Obj(vec![text_member("tab_id", self.tab_id.as_str())]);
        match self.request("tab.focus", params) {
            Ok(_) => Ok(()),
            Err(e) => Err(e),
        }
    }

    /// Whether this action is about to take the popup's own tab away, which
    /// herdr answers by closing the popup before the request even returns.
    /// Such actions arm the hop first, since there is no "after".
    pub fn will_close_owner_tab(&mut self, action: Action) -> (r: Result<bool, Error>)
        ensures
            final(self).follows(&*old(self)),
            quiet(final(self).since(&*old(self))),
            replay_will_close(old(self).memo(), action, final(self).since(&*old(self))) == Some(
                (final(self).memo(), r),
            ),
    {
        let ghost start = *self;
        match action {
            Action::CloseTab => {
                proof {
                    Self::lemma_same(&*self, &start);
                }
                Ok(true)
            },
            Action::ClosePane => match self.tab_panes() {
                Ok(panes) => Ok(panes.len() <= 1),
                Err(e) => Err(e),
            },
            _ => {
                proof {
                    Self::lemma_same(&*self, &start);
                }
                Ok(false)
            },
        }
    }

    /// Where the panel's cursor sits: the agent holding the focused pane, or
    /// `None` when focus is on a pane that has no agent in it at all.
    fn agent_at_focus(&self, agents: &Vec<Agent>) -> (r: Option<usize>)
        ensures
            opt_index(agent_position(agents_view(agents@), self.memo().pane)) == r,
            match r {
                Some(i) => i < agents@.len() && agent_position(agents_view(agents@), self.memo().pane) == Some(
                    i as int,
                ),
                None => agent_position(agents_view(agents@), self.memo().pane) is None,
            },
    {
        find_agent(agents, self.pane_id.as_str())
    }

    /// Leaving has two meanings once navigation is live: `exit` keeps wherever
    /// you landed, `cancel` puts you back where the mode opened.
    fn cancel(&mut self) -> (r: Result<String, Error>)
        ensures
            final(self).follows(&*old(self)),
            quiet(final(self).since(&*old(self))),
            replay_cancel(old(self).memo(), final(self).since(&*old(self))) == Some(
                (final(self).memo(), line_view(r)),
            ),
    {
        let ghost m = self.memo();
        let ghost start = *self;
        proof {
            reveal_strlit("");
            assert(""@ =~= Seq::<char>::empty());
        }
        if same_text(self.pane_id.as_str(), self.origin_pane_id.as_str()) {
            proof {
                Self::lemma_same(&*self, &start);
            }
            return Ok(String::new());
        }
        let workspace = owned(self.origin_workspace_id.as_str());
        let pane = owned(self.origin_pane_id.as_str());
        let params = Json::Obj(vec![text_member("workspace_id", workspace.as_str())]);
        if let Err(e) = self.request("workspace.focus", params) {
            return Err(e);
        }
        let ghost mid = *self;
        // The pane may be gone, closed from inside the mode, and then the
        // space it lived in is as close to where you were as there is.
        let params = Json::Obj(vec![text_member("pane_id", pane.as_str())]);
        assert(fields_are(params, seq![("pane_id"@, is_text(m.origin_pane))]));
        let _ = self.request("pane.focus", params);
        let ghost mid2 = *self;
        let done = self.refresh();
        proof {
            Self::lemma_after_one(&*self, &mid2, &mid);
            Self::lemma_after_one(&*self, &mid, &start);
        }
        match done {
            Ok(()) => Ok(String::new()),
            Err(e) => Err(e),
        }
    }

    /// Run `action`. `prompt` is asked for a line when the action needs one;
    /// `None` from it cancels the action.
    pub fn execute<P: FnOnce(&str) -> Option<String>>(&mut self, action: Action, prompt: P) -> (r: Result<
        String,
        Error,
    >)
        requires
            runs(action),
            forall|s: &str| call_requires(prompt, (s,)),
        ensures
            final(self).follows(&*old(self)),
            quiet(final(self).since(&*old(self))),
            replay_execute(old(self).memo(), action, final(self).since(&*old(self))) == Some(
                (final(self).memo(), line_view(r)),
            ),
    {
        proof {
            reveal(replay_execute);
        }
        match action {
            Action::Focus(dir) => self.focus(dir),
            Action::CycleFocus => self.cycle_focus(),
            Action::ClosePane => self.close_pane(),
            Action::Split(dir) => self.split(dir),
            Action::Zoom => self.zoom(),
            Action::RenamePane => self.rename_pane(prompt),
            Action::PrevTab => self.step_tab(-1),
            Action::NextTab => self.step_tab(1),
            Action::LastTab => self.last_tab(),
            Action::GotoTab(n) => self.goto_tab(n),
            Action::NewTab => self.new_tab(),
            Action::CloseTab => self.close_tab(),
            Action::RenameTab => self.rename_tab(prompt),
            Action::MoveTab(delta) => self.move_tab(delta),
            Action::BreakPane(target) => self.break_pane(target),
            Action::Swap(dir) => self.swap(dir),
            Action::SwapCycle(forward) => self.swap_cycle(forward),
            Action::PrevAgent => self.step_agent(-1),
            Action::NextAgent => self.step_agent(1),
            Action::LastAgent => self.last_agent(),
            Action::GotoAgent(n) => self.goto_agent(n),
            Action::NextAttention => self.step_attention(1),
            Action::PrevAttention => self.step_attention(-1),
            Action::PrevSpace => self.step_space(-1),
            Action::NextSpace => self.step_space(1),
            Action::LastSpace => self.last_space(),
            Action::GotoSpace(n) => self.goto_space(n),
            Action::NextSpaceAttention => self.step_space_attention(1),
            Action::PrevSpaceAttention => self.step_space_attention(-1),
            Action::Cancel => self.cancel(),
            // `exit` closes the popup and touches nothing, so the key loop
            // answers it before asking the session to execute anything.
            Action::Quit => {
                proof {
                    assert(false);
                }
                Ok(String::new())
            },
        }
    }

    /// `zoom`: toggle the focused pane's zoom.
    fn zoom(&mut self) -> (r: Result<String, Error>)
        ensures
            final(self).follows(&*old(self)),
            quiet(final(self).since(&*old(self))),
            replay_zoom(old(self).memo(), final(self).since(&*old(self))) == Some(
                (final(self).memo(), line_view(r)),
            ),
    {
        let ghost m = self.memo();
        let params = Json::Obj(vec![text_member("pane_id", self.pane_id.as_str()), text_member("mode", "toggle")]);
        assert(fields_are(params, seq![("pane_id"@, is_text(m.pane)), ("mode"@, is_text("toggle"@))]));
        match self.request("pane.zoom", params) {
            Ok(_) => Ok(owned("zoom")),
            Err(e) => Err(e),
        }
    }
}

/// A list of strings, read as characters.
proof fn lemma_texts_push(s: Seq<String>, x: String)
    ensures
        texts(s.push(x)) == texts(s).push(x@),
{
    assert(texts(s.push(x)) =~= texts(s).push(x@));
}

/// How many of a listing's `n` rows a session reads.
fn readable(n: usize) -> (r: usize)
    ensures
        r as int == if n > ROW_LIMIT {
            ROW_LIMIT as int
        } else {
            n as int
        },
{
    if (n as u64) > ROW_LIMIT {
        ROW_LIMIT as usize
    } else {
        n
    }
}

/// The ids of the tabs a `tab.list` reply lists.
fn tab_list(v: &Json) -> (r: Vec<String>)
    ensures
        texts(r@) == tab_ids(rows_at(*v, "tabs"@)),
        r@.len() <= ROW_LIMIT,
{
    let mut out: Vec<String> = Vec::new();
    let ghost rows = rows_at(*v, "tabs"@);
    match v.array_at("tabs") {
        Some(a) => {
            let n = readable(a.len());
            assert(rows =~= a@.take(n as int));
            let mut i: usize = 0;
            while i < n
                invariant
                    n <= a@.len(),
                    n <= ROW_LIMIT,
                    rows == a@.take(n as int),
                    i <= n,
                    out@.len() <= i,
                    texts(out@) == tab_ids(rows.take(i as int)),
                decreases n - i,
            {
                proof {
                    assert(rows.take(i + 1).drop_last() =~= rows.take(i as int));
                    assert(rows.take(i + 1).last() == a@[i as int]);
                }
                match a[i].text_at("tab_id") {
                    Some(t) => {
                        proof {
                            lemma_texts_push(out@, t);
                        }
                        out.push(t);
                    },
                    None => {},
                }
                i = i + 1;
            }
            assert(rows.take(n as int) =~= rows);
        },
        None => {
            assert(texts(out@) =~= Seq::<Seq<char>>::empty());
        },
    }
    out
}

/// The ids of the panes of tab `tab` a `pane.list` reply lists.
fn pane_list(v: &Json, tab: &str) -> (r: Vec<String>)
    ensures
        texts(r@) == panes_in(rows_at(*v, "panes"@), tab@),
        r@.len() <= ROW_LIMIT,
{
    let mut out: Vec<String> = Vec::new();
    let ghost rows = rows_at(*v, "panes"@);
    match v.array_at("panes") {
        Some(a) => {
            let n = readable(a.len());
            assert(rows =~= a@.take(n as int));
            let mut i: usize = 0;
            while i < n
                invariant
                    n <= a@.len(),
                    n <= ROW_LIMIT,
                    rows == a@.take(n as int),
                    i <= n,
                    out@.len() <= i,
                    texts(out@) == panes_in(rows.take(i as int), tab@),
                decreases n - i,
            {
                proof {
                    assert(rows.take(i + 1).drop_last() =~= rows.take(i as int));
                    assert(rows.take(i + 1).last() == a@[i as int]);
                }
                let on_tab = match a[i].text_at("tab_id") {
                    Some(t) => same_text(t.as_str(), tab),
                    None => false,
                };
                if on_tab {
                    match a[i].text_at("pane_id") {
                        Some(p) => {
                            proof {
                                lemma_texts_push(out@, p);
                            }
                            out.push(p);
                        },
                        None => {},
                    }
                }
                i = i + 1;
            }
            assert(rows.take(n as int) =~= rows);
        },
        None => {
            assert(texts(out@) =~= Seq::<Seq<char>>::empty());
        },
    }
    out
}

/// One row of herdr's agent panel, in the order `agent.list` reports them:
/// grouped by space, which is the panel's own `agent_panel_sort = "spaces"`
/// ordering.
struct Agent {
    pane_id: String,
    status: AgentStatus,
    label: String,
}

/// An agent row as the script sees it.
spec fn agent_view(a: Agent) -> AgentRow {
    AgentRow { pane: a.pane_id@, status: a.status.text(), label: a.label@ }
}

/// Agent rows as the script sees them.
spec fn agents_view(s: Seq<Agent>) -> Seq<AgentRow> {
    s.map_values(|a: Agent| agent_view(a))
}

/// One row of herdr's space sidebar, in `workspace.list` order, the same
/// order the sidebar draws and `number` counts.
struct Space {
    id: String,
    label: String,
    /// The space's rolled-up agent status.
    status: AgentStatus,
    focused: bool,
}

/// A space row as the script sees it.
spec fn space_view(s: Space) -> SpaceRow {
    SpaceRow { id: s.id@, label: s.label@, status: s.status.text(), focused: s.focused }
}

/// Space rows as the script sees them.
spec fn spaces_view(s: Seq<Space>) -> Seq<SpaceRow> {
    s.map_values(|x: Space| space_view(x))
}

/// An agent's label: the most identifying name the row has. Several rows
/// are usually the same kind of agent, so the kind alone names nothing.
fn agent_label_of(row: &Json) -> (r: String)
    ensures
        r@ == agent_label(*row),
{
    if let Some(l) = row.text_at("name") {
        return l;
    }
    if let Some(l) = row.text_at("terminal_title_stripped") {
        return l;
    }
    if let Some(l) = row.text_at("display_agent") {
        return l;
    }
    match row.text_at("agent") {
        Some(l) => l,
        None => owned("agent"),
    }
}

/// The agents an `agent.list` reply lists.
fn agent_list(v: &Json) -> (r: Vec<Agent>)
    ensures
        agents_view(r@) == agent_rows(rows_at(*v, "agents"@)),
        r@.len() <= ROW_LIMIT,
        forall|i: int| 0 <= i < r@.len() ==> well_named(#[trigger] r@[i].status),
{
    let mut out: Vec<Agent> = Vec::new();
    let ghost rows = rows_at(*v, "agents"@);
    match v.array_at("agents") {
        Some(a) => {
            let n = readable(a.len());
            assert(rows =~= a@.take(n as int));
            let mut i: usize = 0;
            while i < n
                invariant
                    n <= a@.len(),
                    n <= ROW_LIMIT,
                    rows == a@.take(n as int),
                    i <= n,
                    out@.len() <= i,
                    agents_view(out@) == agent_rows(rows.take(i as int)),
                    forall|j: int| 0 <= j < out@.len() ==> well_named(#[trigger] out@[j].status),
                decreases n - i,
            {
                proof {
                    assert(rows.take(i + 1).drop_last() =~= rows.take(i as int));
                    assert(rows.take(i + 1).last() == a@[i as int]);
                }
                let row = &a[i];
                match row.text_at("pane_id") {
                    Some(p) => {
                        let agent = Agent { pane_id: p, status: status_of(row), label: agent_label_of(row) };
                        let ghost before = out@;
                        out.push(agent);
                        assert(agents_view(out@) =~= agents_view(before).push(agent_view(agent)));
                    },
                    None => {},
                }
                i = i + 1;
            }
            assert(rows.take(n as int) =~= rows);
        },
        None => {
            assert(agents_view(out@) =~= Seq::<AgentRow>::empty());
        },
    }
    out
}

/// The spaces a `workspace.list` reply lists.
fn space_list(v: &Json) -> (r: Vec<Space>)
    ensures
        spaces_view(r@) == space_rows(rows_at(*v, "workspaces"@)),
        r@.len() <= ROW_LIMIT,
        forall|i: int| 0 <= i < r@.len() ==> well_named(#[trigger] r@[i].status),
{
    let mut out: Vec<Space> = Vec::new();
    let ghost rows = rows_at(*v, "workspaces"@);
    match v.array_at("workspaces") {
        Some(a) => {
            let n = readable(a.len());
            assert(rows =~= a@.take(n as int));
            let mut i: usize = 0;
            while i < n
                invariant
                    n <= a@.len(),
                    n <= ROW_LIMIT,
                    rows == a@.take(n as int),
                    i <= n,
                    out@.len() <= i,
                    spaces_view(out@) == space_rows(rows.take(i as int)),
                    forall|j: int| 0 <= j < out@.len() ==> well_named(#[trigger] out@[j].status),
                decreases n - i,
            {
                proof {
                    assert(rows.take(i + 1).drop_last() =~= rows.take(i as int));
                    assert(rows.take(i + 1).last() == a@[i as int]);
                }
                let row = &a[i];
                match row.text_at("workspace_id") {
                    Some(id) => {
                        let label = match row.text_at("label") {
                            Some(l) => l,
                            None => owned("space"),
                        };
                        let focused = match row.bool_at("focused") {
                            Some(b) => b,
                            None => false,
                        };
                        let space = Space { id, label, status: status_of(row), focused };
                        let ghost before = out@;
                        out.push(space);
                        assert(spaces_view(out@) =~= spaces_view(before).push(space_view(space)));
                    },
                    None => {},
                }
                i = i + 1;
            }
            assert(rows.take(n as int) =~= rows);
        },
        None => {
            assert(spaces_view(out@) =~= Seq::<SpaceRow>::empty());
        },
    }
    out
}

/// Where the agent holding pane `pane` sits.
fn find_agent(agents: &Vec<Agent>, pane: &str) -> (r: Option<usize>)
    ensures
        opt_index(agent_position(agents_view(agents@), pane@)) == r,
        match r {
            Some(i) => i < agents@.len() && agent_position(agents_view(agents@), pane@) == Some(i as int),
            None => agent_position(agents_view(agents@), pane@) is None,
        },
{
    let ghost rows = agents_view(agents@);
    let mut i: usize = 0;
    while i < agents.len()
        invariant
            rows == agents_view(agents@),
            i <= agents@.len(),
            forall|j: int| 0 <= j < i ==> !(on_pane(pane@))(#[trigger] rows[j]),
        decreases agents.len() - i,
    {
        if same_text(agents[i].pane_id.as_str(), pane) {
            proof {
                lemma_first_index_is(rows, on_pane(pane@), i as int);
            }
            return Some(i);
        }
        i = i + 1;
    }
    proof {
        lemma_first_index_none(rows, on_pane(pane@));
    }
    None
}

/// Where the space `id` sits.
fn find_space(spaces: &Vec<Space>, id: &str) -> (r: Option<usize>)
    ensures
        match r {
            Some(i) => i < spaces@.len() && first_index(spaces_view(spaces@), space_is(id@)) == Some(
                i as int,
            ),
            None => first_index(spaces_view(spaces@), space_is(id@)) is None,
        },
{
    let ghost rows = spaces_view(spaces@);
    let mut i: usize = 0;
    while i < spaces.len()
        invariant
            rows == spaces_view(spaces@),
            i <= spaces@.len(),
            forall|j: int| 0 <= j < i ==> !(space_is(id@))(#[trigger] rows[j]),
        decreases spaces.len() - i,
    {
        if same_text(spaces[i].id.as_str(), id) {
            proof {
                lemma_first_index_is(rows, space_is(id@), i as int);
            }
            return Some(i);
        }
        i = i + 1;
    }
    proof {
        lemma_first_index_none(rows, space_is(id@));
    }
    None
}

/// Where the space the server says is focused sits.
fn find_focused(spaces: &Vec<Space>) -> (r: Option<usize>)
    ensures
        match r {
            Some(i) => i < spaces@.len() && first_index(spaces_view(spaces@), focused_row()) == Some(
                i as int,
            ),
            None => first_index(spaces_view(spaces@), focused_row()) is None,
        },
{
    let ghost rows = spaces_view(spaces@);
    let mut i: usize = 0;
    while i < spaces.len()
        invariant
            rows == spaces_view(spaces@),
            i <= spaces@.len(),
            forall|j: int| 0 <= j < i ==> !(focused_row())(#[trigger] rows[j]),
        decreases spaces.len() - i,
    {
        if spaces[i].focused {
            proof {
                lemma_first_index_is(rows, focused_row(), i as int);
            }
            return Some(i);
        }
        i = i + 1;
    }
    proof {
        lemma_first_index_none(rows, focused_row());
    }
    None
}

/// Where `x` first occurs in `list`.
fn find_text(list: &Vec<String>, x: &str) -> (r: Option<usize>)
    ensures
        opt_index(position(texts(list@), x@)) == r,
        match r {
            Some(i) => i < list@.len() && position(texts(list@), x@) == Some(i as int),
            None => position(texts(list@), x@) is None,
        },
{
    let ghost ids = texts(list@);
    let mut i: usize = 0;
    while i < list.len()
        invariant
            ids == texts(list@),
            i <= list@.len(),
            forall|j: int| 0 <= j < i ==> !(is_id(x@))(#[trigger] ids[j]),
        decreases list.len() - i,
    {
        if same_text(list[i].as_str(), x) {
            proof {
                lemma_first_index_is(ids, is_id(x@), i as int);
            }
            return Some(i);
        }
        i = i + 1;
    }
    proof {
        lemma_first_index_none(ids, is_id(x@));
    }
    None
}

/// `"{i + 1}/{n}"`.
fn place_text(i: usize, n: usize) -> (r: String)
    requires
        i < n,
    ensures
        r@ == place(i as int, n as int),
{
    let mut r = decimal_text((i + 1) as u64);
    r.append("/");
    r.append(decimal_text(n as u64).as_str());
    r
}

/// A string member of a request's params.
fn text_member(key: &str, value: &str) -> (r: (String, Json))
    ensures
        r.0@ == key@,
        (is_text(value@))(r.1),
{
    member_of(key, Json::text(value))
}

/// A boolean member of a request's params.
fn bool_member(key: &str, value: bool) -> (r: (String, Json))
    ensures
        r.0@ == key@,
        (is_bool(value))(r.1),
{
    member_of(key, Json::Bool(value))
}

/// A copy of an optional string.
fn copy_opt(o: &Option<String>) -> (r: Option<String>)
    ensures
        opt_view(r) == opt_view(*o),
{
    match o {
        Some(s) => Some(owned(s.as_str())),
        None => None,
    }
}

} // verus!

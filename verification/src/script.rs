//! What a session does to the world, written as the script of requests it
//! sends and what it makes of each reply.
//!
//! A session keeps a ghost log of its effects. Each operation is specified by
//! a `replay_*` function that reads the effects an operation added, checks
//! that each request is the one the operation sends given the replies before
//! it, and returns where focus ends up and what the operation answers.
//! `None` means the effects are not what the operation does.
use crate::client::{Error, Json};
use crate::keymap::{counts_from_one, Action, BreakTo, Dir};
use crate::nav::{all_refused, spec_step, spec_tab_move, walk_row, walk_start};
use crate::resume::{spec_fresh, spec_verdict, Resume, Stored};
use crate::search::{first_index, lemma_first_index, lemma_first_index_is, lemma_first_index_none};
use crate::text::decimal;
use vstd::prelude::*;

verus! {

/// Something a session did to the world, in the order it did it.
pub ghost enum Effect {
    /// A request to herdr, and what came back.
    Call { method: Seq<char>, params: Json, reply: Result<Json, Error> },
    /// A hop note left for the `open` action.
    Write { note: Resume, outcome: Result<(), Error> },
    /// The hop note taken away.
    Clear,
    /// The user asked for a line, and what they typed, if anything.
    Asked { label: Seq<char>, answer: Option<Seq<char>> },
}

/// What a session knows of where focus is and where it has been.
pub ghost struct Memo {
    pub workspace: Seq<char>,
    pub tab: Seq<char>,
    pub pane: Seq<char>,
    pub prev_tab: Option<Seq<char>>,
    pub prev_agent: Option<Seq<char>>,
    pub prev_workspace: Option<Seq<char>>,
    pub origin_workspace: Seq<char>,
    pub origin_pane: Seq<char>,
}

/// Where an operation leaves focus, and what it answers; `None` when the
/// effects are not the operation's.
pub type Run<R> = Option<(Memo, Result<R, Error>)>;

/// One member of a request's params: its key, and what its value must be.
pub type Field = (Seq<char>, spec_fn(Json) -> bool);

/// Effects that leave the hop note alone: requests and questions only.
pub open spec fn quiet(es: Seq<Effect>) -> bool {
    forall|i: int| 0 <= i < es.len() ==> (#[trigger] es[i] is Call || es[i] is Asked)
}

/// Whether, after `es`, a hop note is left in the store by them: a note
/// was written and not taken away since.
#[verifier::opaque]
pub open spec fn note_kept(es: Seq<Effect>) -> bool
    decreases es.len(),
{
    if es.len() == 0 {
        false
    } else {
        match es.last() {
            Effect::Clear => false,
            Effect::Write { outcome, .. } => outcome is Ok || note_kept(es.drop_last()),
            _ => note_kept(es.drop_last()),
        }
    }
}

/// `e` is a `plugin.action.invoke` of `mode`'s `open` action for `plugin`
/// that herdr accepted.
pub open spec fn invokes(e: Effect, plugin: Seq<char>, mode: Seq<char>) -> bool {
    &&& call_is(e, "plugin.action.invoke"@, seq![("plugin_id"@, is_text(plugin)), ("action_id"@, is_text(mode))])
    &&& e->reply is Ok
}

/// Some effect of `es` asked herdr, successfully, to run `mode`'s `open`.
#[verifier::opaque]
pub open spec fn invoked(es: Seq<Effect>, plugin: Seq<char>, mode: Seq<char>) -> bool {
    exists|i: int| 0 <= i < es.len() && #[trigger] invokes(es[i], plugin, mode)
}

/// Effects that leave the note alone change nothing about it.
pub proof fn lemma_quiet_keeps(a: Seq<Effect>, b: Seq<Effect>)
    requires
        quiet(b),
    ensures
        note_kept(a + b) == note_kept(a),
    decreases b.len(),
{
    reveal(note_kept);
    if b.len() > 0 {
        let d = b.drop_last();
        assert(quiet(d)) by {
            assert forall|i: int| 0 <= i < d.len() implies (#[trigger] d[i] is Call || d[i] is Asked) by {
                assert(d[i] == b[i]);
            }
        }
        lemma_quiet_keeps(a, d);
        assert((a + b).drop_last() =~= a + d);
        assert((a + b).last() == b.last());
        assert(b.last() == b[b.len() - 1]);
    } else {
        assert(a + b =~= a);
    }
}

/// Quiet effects leave no note.
pub proof fn lemma_quiet_keeps_none(b: Seq<Effect>)
    requires
        quiet(b),
    ensures
        !note_kept(b),
{
    reveal(note_kept);
    lemma_quiet_keeps(Seq::empty(), b);
    assert(Seq::<Effect>::empty() + b =~= b);
}

/// Two stretches of quiet effects are quiet.
pub proof fn lemma_quiet_join(a: Seq<Effect>, b: Seq<Effect>)
    requires
        quiet(a),
        quiet(b),
    ensures
        quiet(a + b),
{
    assert forall|i: int| 0 <= i < (a + b).len() implies (#[trigger] (a + b)[i] is Call || (a + b)[i] is Asked) by {
        if i < a.len() {
            assert((a + b)[i] == a[i]);
        } else {
            assert((a + b)[i] == b[i - a.len()]);
        }
    }
}

/// After quiet effects, arming a hop leaves a note exactly when it
/// succeeded, and a successful one asked herdr to run `mode`'s `open`.
pub proof fn lemma_arm_keeps(
    w: Seq<Effect>,
    a: Seq<Effect>,
    m: Memo,
    plugin: Seq<char>,
    socket: Seq<char>,
    mode: Seq<char>,
    feedback: Seq<char>,
)
    requires
        quiet(w),
        replay_arm_hop(m, plugin, socket, mode, feedback, a) is Some,
    ensures
        match replay_arm_hop(m, plugin, socket, mode, feedback, a) {
            Some((_, r)) => note_kept(w + a) == (r is Ok) && (r is Ok ==> a.len() == 2 && invokes(
                a[1],
                plugin,
                mode,
            )),
            None => true,
        },
{
    lemma_quiet_keeps_none(w);
    reveal(note_kept);
    reveal_with_fuel(note_kept, 2);
    let wa = w + a;
    if a.len() == 1 {
        assert(a[0]->outcome is Err);
        assert(wa.drop_last() =~= w);
        assert(wa.last() == a[0]);
    } else if a.len() == 2 {
        assert(a[0]->outcome is Ok);
        assert(a[1]->reply is Ok);
        assert(wa.last() == a[1]);
        assert(wa.drop_last() =~= w + seq![a[0]]);
        assert(wa.drop_last().last() == a[0]);
    } else {
        assert(a.len() == 3 && a[2] is Clear);
        assert(wa.last() == a[2]);
    }
}

/// Effects that end with the note taken away leave none.
pub proof fn lemma_cleared_keeps_none(es: Seq<Effect>)
    requires
        0 < es.len(),
        es.last() is Clear,
    ensures
        !note_kept(es),
{
    reveal(note_kept);
}

/// An accepted invoke among some effects is among any that contain them.
pub proof fn lemma_invoked_within(pre: Seq<Effect>, a: Seq<Effect>, post: Seq<Effect>, i: int, plugin: Seq<char>, mode: Seq<char>)
    requires
        0 <= i < a.len(),
        invokes(a[i], plugin, mode),
    ensures
        invoked(pre + a + post, plugin, mode),
{
    reveal(invoked);
    assert((pre + a + post)[pre.len() + i] == a[i]);
}

/// An optional string read as characters.
pub open spec fn opt_view(o: Option<String>) -> Option<Seq<char>> {
    match o {
        Some(s) => Some(s@),
        None => None,
    }
}

/// An object whose members are, in order, the given keys with values the
/// given tests accept.
pub open spec fn fields_are(p: Json, fields: Seq<Field>) -> bool {
    match p {
        Json::Obj(es) => es@.len() == fields.len() && forall|i: int|
            0 <= i < fields.len() ==> (#[trigger] es@[i]).0@ == fields[i].0 && (fields[i].1)(
                es@[i].1,
            ),
        _ => false,
    }
}

/// The string `s`.
pub open spec fn is_text(s: Seq<char>) -> spec_fn(Json) -> bool {
    |j: Json| j.text_value() == Some(s)
}

/// The boolean `b`.
pub open spec fn is_bool(b: bool) -> spec_fn(Json) -> bool {
    |j: Json| j.bool_value() == Some(b)
}

/// The number `n`.
pub open spec fn is_count(n: nat) -> spec_fn(Json) -> bool {
    |j: Json| j matches Json::Num(t) && t@ == decimal(n)
}

/// `null`.
pub open spec fn is_null() -> spec_fn(Json) -> bool {
    |j: Json| j is Null
}

/// An object with the given members.
pub open spec fn is_obj(fields: Seq<Field>) -> spec_fn(Json) -> bool {
    |j: Json| fields_are(j, fields)
}

/// A request for `method` with the given members as its params.
pub open spec fn call_is(e: Effect, method: Seq<char>, fields: Seq<Field>) -> bool {
    e matches Effect::Call { method: m, params, .. } && m == method && fields_are(params, fields)
}

/// The string member `key` of the object member `outer`.
pub open spec fn inner_text(v: Json, outer: Seq<char>, key: Seq<char>) -> Option<Seq<char>> {
    match v.field(outer) {
        Some(s) => s.text_field(key),
        None => None,
    }
}

/// The boolean member `key` of the object member `outer`.
pub open spec fn inner_bool(v: Json, outer: Seq<char>, key: Seq<char>) -> Option<bool> {
    match v.field(outer) {
        Some(s) => s.bool_field(key),
        None => None,
    }
}

/// `old` replaced by `new` when there is one.
pub open spec fn or_keep(new: Option<Seq<char>>, old: Seq<char>) -> Seq<char> {
    match new {
        Some(n) => n,
        None => old,
    }
}

/// The effects are exactly one request for `method` with params that pass
/// `fields`, or start with one that succeeded; on success `k` takes the
/// reply. A failed request ends the operation with its error.
pub open spec fn call_then<R>(
    es: Seq<Effect>,
    m: Memo,
    method: Seq<char>,
    fields: Seq<Field>,
    k: spec_fn(Json) -> Run<R>,
) -> Run<R> {
    if 0 < es.len() && call_is(es[0], method, fields) {
        match es[0]->reply {
            Ok(v) => k(v),
            Err(e) => if es.len() == 1 {
                Some((m, Err(e)))
            } else {
                None
            },
        }
    } else {
        None
    }
}

/// Nothing more happens: focus is `m` and the answer `r`.
pub open spec fn finish<R>(es: Seq<Effect>, m: Memo, r: R) -> Run<R> {
    if es.len() == 0 {
        Some((m, Ok(r)))
    } else {
        None
    }
}

/// A step that answers nothing, followed by the answer `line`.
pub open spec fn with_line<R>(run: Run<()>, line: R) -> Run<R> {
    match run {
        Some((m, Ok(()))) => Some((m, Ok(line))),
        Some((m, Err(e))) => Some((m, Err(e))),
        None => None,
    }
}

/// The members of the server's snapshot that a refresh reads.
pub open spec fn snapshot_text(v: Json, key: Seq<char>) -> Option<Seq<char>> {
    inner_text(v, "snapshot"@, key)
}

/// Focus as the server's snapshot reports it; what it leaves out stays.
pub open spec fn after_snapshot(m: Memo, v: Json) -> Memo {
    Memo {
        workspace: or_keep(snapshot_text(v, "focused_workspace_id"@), m.workspace),
        tab: or_keep(snapshot_text(v, "focused_tab_id"@), m.tab),
        pane: or_keep(snapshot_text(v, "focused_pane_id"@), m.pane),
        ..m
    }
}

/// A refresh: one `session.snapshot`, then focus as it reports.
pub open spec fn replay_refresh(m: Memo, es: Seq<Effect>) -> Run<()> {
    call_then(es, m, "session.snapshot"@, seq![], |v: Json| finish(es.skip(1), after_snapshot(m, v), ()))
}

/// A note for `mode` that carries `feedback` and a session's memory.
pub open spec fn note_is(r: Resume, mode: Seq<char>, feedback: Seq<char>, socket: Seq<char>, m: Memo) -> bool {
    &&& r.mode@ == mode
    &&& r.socket@ == socket
    &&& r.feedback@ == feedback
    &&& opt_view(r.prev_tab_id) == m.prev_tab
    &&& opt_view(r.prev_agent_id) == m.prev_agent
    &&& opt_view(r.prev_workspace_id) == m.prev_workspace
    &&& r.origin_workspace_id@ == m.origin_workspace
    &&& r.origin_pane_id@ == m.origin_pane
}

/// Focus memory after picking up the note `r` left by the popup this one
/// replaced: where focus was before, and where the mode first opened.
pub open spec fn restored(m: Memo, r: Resume) -> Memo {
    Memo {
        prev_tab: opt_view(r.prev_tab_id),
        prev_agent: opt_view(r.prev_agent_id),
        prev_workspace: opt_view(r.prev_workspace_id),
        origin_workspace: r.origin_workspace_id@,
        origin_pane: r.origin_pane_id@,
        ..m
    }
}

/// A note handed on by `restore` then `resume` carries the ids it came with.
pub proof fn law_restore_then_resume(m: Memo, r: Resume, again: Resume, mode: Seq<char>, feedback: Seq<char>, socket: Seq<char>)
    requires
        note_is(again, mode, feedback, socket, restored(m, r)),
    ensures
        opt_view(again.prev_tab_id) == opt_view(r.prev_tab_id),
        opt_view(again.prev_agent_id) == opt_view(r.prev_agent_id),
        opt_view(again.prev_workspace_id) == opt_view(r.prev_workspace_id),
        again.origin_workspace_id@ == r.origin_workspace_id@,
        again.origin_pane_id@ == r.origin_pane_id@,
{
}

/// A hop carries a popup's memory across: the note written from focus
/// memory `m`, picked up by the next popup wherever its focus is, gives it
/// `m`'s previous tab, agent and space and the place the mode opened, so
/// `last_tab`, `last_agent`, `last_space` and `cancel` work as before.
pub proof fn law_hop_carries_memory(m: Memo, next: Memo, note: Resume, mode: Seq<char>, feedback: Seq<char>, socket: Seq<char>)
    requires
        note_is(note, mode, feedback, socket, m),
    ensures
        restored(next, note) == (Memo {
            workspace: next.workspace,
            tab: next.tab,
            pane: next.pane,
            ..m
        }),
{
}

/// The note a hop leaves for `mode` is the one `open` for that mode hands to
/// the next popup, as long as it is read back within `FRESH_FOR_MS` and
/// under the same herdr session.
pub proof fn law_hop_note_is_honoured(note: Resume, mode: Seq<char>, feedback: Seq<char>, m: Memo, socket: Seq<char>, now: u64)
    requires
        note_is(note, mode, feedback, socket, m),
        spec_fresh(note.written_unix_ms, now),
    ensures
        spec_verdict(Stored::Note(note), mode, socket, now) == (Some(note), false),
{
}

// ---------------------------------------------------------------------------
// Lists the server replies with.

/// How many rows of a listing a session reads. No reply that fits in memory
/// comes near it; it keeps the index arithmetic inside `i64`.
pub const ROW_LIMIT: u64 = 0x3fff_ffff_ffff_ffff;

/// The rows of the array member `key`, up to `ROW_LIMIT` of them; none when
/// the member is missing or not an array.
pub open spec fn rows_at(v: Json, key: Seq<char>) -> Seq<Json> {
    match v.array_field(key) {
        Some(a) => if a.len() > ROW_LIMIT {
            a.take(ROW_LIMIT as int)
        } else {
            a
        },
        None => seq![],
    }
}

/// The `tab_id` of each row that has one, in order.
pub open spec fn tab_ids(rows: Seq<Json>) -> Seq<Seq<char>>
    decreases rows.len(),
{
    if rows.len() == 0 {
        seq![]
    } else {
        let before = tab_ids(rows.drop_last());
        match rows.last().text_field("tab_id"@) {
            Some(t) => before.push(t),
            None => before,
        }
    }
}

/// The `pane_id` of each row on tab `tab`, in order.
pub open spec fn panes_in(rows: Seq<Json>, tab: Seq<char>) -> Seq<Seq<char>>
    decreases rows.len(),
{
    if rows.len() == 0 {
        seq![]
    } else {
        let before = panes_in(rows.drop_last(), tab);
        let row = rows.last();
        if row.text_field("tab_id"@) == Some(tab) {
            match row.text_field("pane_id"@) {
                Some(p) => before.push(p),
                None => before,
            }
        } else {
            before
        }
    }
}

/// The `agent_status` a list row carries; "unknown" when it is missing.
pub open spec fn status_text(row: Json) -> Seq<char> {
    or_keep(row.text_field("agent_status"@), "unknown"@)
}

/// Whether a status is one the attention queue holds: `blocked` or `done`.
pub open spec fn wants(status: Seq<char>) -> bool {
    status == "blocked"@ || status == "done"@
}

/// One row of herdr's agent panel.
pub ghost struct AgentRow {
    pub pane: Seq<char>,
    pub status: Seq<char>,
    pub label: Seq<char>,
}

/// The agent row of pane `pane`.
pub open spec fn on_pane(pane: Seq<char>) -> spec_fn(AgentRow) -> bool {
    |a: AgentRow| a.pane == pane
}

/// An agent's label: the most identifying name the row has.
pub open spec fn agent_label(row: Json) -> Seq<char> {
    match row.text_field("name"@) {
        Some(l) => l,
        None => match row.text_field("terminal_title_stripped"@) {
            Some(l) => l,
            None => match row.text_field("display_agent"@) {
                Some(l) => l,
                None => or_keep(row.text_field("agent"@), "agent"@),
            },
        },
    }
}

/// The agent rows that name a pane, in panel order.
pub open spec fn agent_rows(rows: Seq<Json>) -> Seq<AgentRow>
    decreases rows.len(),
{
    if rows.len() == 0 {
        seq![]
    } else {
        let before = agent_rows(rows.drop_last());
        let row = rows.last();
        match row.text_field("pane_id"@) {
            Some(p) => before.push(AgentRow { pane: p, status: status_text(row), label: agent_label(row) }),
            None => before,
        }
    }
}

/// One row of herdr's space sidebar.
pub ghost struct SpaceRow {
    pub id: Seq<char>,
    pub label: Seq<char>,
    pub status: Seq<char>,
    pub focused: bool,
}

/// The space row with id `id`.
pub open spec fn space_is(id: Seq<char>) -> spec_fn(SpaceRow) -> bool {
    |s: SpaceRow| s.id == id
}

/// The space row herdr marks focused.
pub open spec fn focused_row() -> spec_fn(SpaceRow) -> bool {
    |s: SpaceRow| s.focused
}

/// The space rows that name a space, in sidebar order.
pub open spec fn space_rows(rows: Seq<Json>) -> Seq<SpaceRow>
    decreases rows.len(),
{
    if rows.len() == 0 {
        seq![]
    } else {
        let before = space_rows(rows.drop_last());
        let row = rows.last();
        match row.text_field("workspace_id"@) {
            Some(id) => before.push(
                SpaceRow {
                    id,
                    label: or_keep(row.text_field("label"@), "space"@),
                    status: status_text(row),
                    focused: row.bool_field("focused"@) == Some(true),
                },
            ),
            None => before,
        }
    }
}

/// Where `x` first occurs in `s`.
pub open spec fn position(s: Seq<Seq<char>>, x: Seq<char>) -> Option<int> {
    first_index(s, is_id(x))
}

/// Being the id `x`.
pub open spec fn is_id(x: Seq<char>) -> spec_fn(Seq<char>) -> bool {
    |t: Seq<char>| t == x
}

/// The first `x` in `s` is at `i` when `s[i]` is `x` and nothing before is.
pub proof fn lemma_position_is(s: Seq<Seq<char>>, x: Seq<char>, i: int)
    requires
        0 <= i < s.len(),
        s[i] == x,
        forall|j: int| 0 <= j < i ==> s[j] != x,
    ensures
        position(s, x) == Some(i),
{
    assert forall|j: int| 0 <= j < i implies !(is_id(x))(#[trigger] s[j]) by {}
    lemma_first_index_is(s, is_id(x), i);
}

/// An index, or 0 for none.
pub open spec fn or_zero(i: Option<int>) -> int {
    match i {
        Some(i) => i,
        None => 0,
    }
}

/// The row a walk for attention lands on: once around from `cur` in the
/// `delta` direction, the first row whose flag is set.
pub open spec fn attention_hit(flags: Seq<bool>, cur: Option<usize>, delta: int) -> Option<int> {
    let n = flags.len() as int;
    let from = walk_start(cur, delta, n);
    match first_index(Seq::new(n as nat, |s: int| flags[walk_row(from, delta, s + 1, n)]), |b: bool| b) {
        Some(k) => Some(walk_row(from, delta, k + 1, n)),
        None => None,
    }
}

/// What `nav::find_attention` finds, when `wants` says of each row what
/// `flags` says, is the row `attention_hit` names.
pub proof fn lemma_attention<T, F: Fn(&T) -> bool>(
    rows: Seq<T>,
    flags: Seq<bool>,
    cur: Option<usize>,
    delta: int,
    wants: F,
    r: Option<usize>,
)
    requires
        flags.len() == rows.len(),
        0 < rows.len(),
        forall|i: int, b: bool|
            0 <= i < rows.len() && #[trigger] call_ensures(wants, (&rows[i],), b) ==> b == flags[i],
        r matches Some(i) ==> exists|s: int|
            1 <= s <= rows.len() && i == walk_row(
                walk_start(cur, delta, rows.len() as int),
                delta,
                s,
                rows.len() as int,
            ) && all_refused(wants, rows, walk_start(cur, delta, rows.len() as int), delta, s)
                && call_ensures(wants, (&rows[i as int],), true),
        r is None ==> all_refused(
            wants,
            rows,
            walk_start(cur, delta, rows.len() as int),
            delta,
            rows.len() + 1int,
        ),
    ensures
        match r {
            Some(i) => attention_hit(flags, cur, delta) == Some(i as int),
            None => attention_hit(flags, cur, delta) is None,
        },
{
    let n = rows.len() as int;
    let from = walk_start(cur, delta, n);
    let walk = Seq::new(n as nat, |k: int| flags[walk_row(from, delta, k + 1, n)]);
    assert forall|t: int| #![trigger walk_row(from, delta, t, n)] 0 <= walk_row(from, delta, t, n) < n by {
        vstd::arithmetic::div_mod::lemma_mod_bound(from + delta * t, n);
    }
    match r {
        Some(i) => {
            let s = choose|s: int|
                1 <= s <= n && i == walk_row(from, delta, s, n) && all_refused(wants, rows, from, delta, s)
                    && call_ensures(wants, (&rows[i as int],), true);
            assert(walk[s - 1] == flags[i as int]);
            assert forall|j: int| 0 <= j < s - 1 implies !(|b: bool| b)(#[trigger] walk[j]) by {
                let w = walk_row(from, delta, j + 1, n);
                assert(call_ensures(wants, (&rows[w],), false));
            }
            lemma_first_index_is(walk, |b: bool| b, s - 1);
        },
        None => {
            assert forall|j: int| 0 <= j < n implies !(|b: bool| b)(#[trigger] walk[j]) by {
                let w = walk_row(from, delta, j + 1, n);
                assert(call_ensures(wants, (&rows[w],), false));
            }
            lemma_first_index_none(walk, |b: bool| b);
        },
    }
}

/// `"{i + 1}/{n}"`, a row's place in a list.
pub open spec fn place(i: int, n: int) -> Seq<char> {
    decimal((i + 1) as nat) + "/"@ + decimal(n as nat)
}

/// The separator of a feedback line.
pub open spec fn dot() -> Seq<char> {
    " \u{b7} "@
}


/// A result's answer read as characters.
pub open spec fn line_view(r: Result<String, Error>) -> Result<Seq<char>, Error> {
    match r {
        Ok(s) => Ok(s@),
        Err(e) => Err(e),
    }
}

// ---------------------------------------------------------------------------
// The pane actions.

/// `focus_*`: move focus to the neighbour in `d`, reporting an edge rather
/// than doing nothing silently.
pub open spec fn replay_focus(m: Memo, d: Dir, es: Seq<Effect>) -> Run<Seq<char>> {
    call_then(
        es,
        m,
        "pane.focus_direction"@,
        seq![("direction"@, is_text(d.name())), ("pane_id"@, is_text(m.pane))],
        |v: Json|
            {
                let landed = Memo { pane: or_keep(inner_text(v, "focus"@, "focused_pane_id"@), m.pane), ..m };
                let line = if inner_bool(v, "focus"@, "changed"@) == Some(false) {
                    d.name() + dot() + or_keep(inner_text(v, "focus"@, "reason"@), "no change"@)
                } else {
                    "focus "@ + d.name()
                };
                finish(es.skip(1), landed, line)
            },
    )
}

/// `close_pane`: close the focused pane, then read focus back.
pub open spec fn replay_close_pane(m: Memo, es: Seq<Effect>) -> Run<Seq<char>> {
    call_then(
        es,
        m,
        "pane.close"@,
        seq![("pane_id"@, is_text(m.pane))],
        |v: Json| with_line(replay_refresh(m, es.skip(1)), "closed pane"@),
    )
}

/// `split_*`: split the focused pane; focus follows the new pane.
pub open spec fn replay_split(m: Memo, d: Dir, es: Seq<Effect>) -> Run<Seq<char>> {
    call_then(
        es,
        m,
        "pane.split"@,
        seq![
            ("direction"@, is_text(d.name())),
            ("target_pane_id"@, is_text(m.pane)),
            ("focus"@, is_bool(true)),
        ],
        |v: Json|
            finish(
                es.skip(1),
                Memo { pane: or_keep(inner_text(v, "pane"@, "pane_id"@), m.pane), ..m },
                "split "@ + d.name(),
            ),
    )
}

/// `zoom`: toggle the focused pane's zoom.
pub open spec fn replay_zoom(m: Memo, es: Seq<Effect>) -> Run<Seq<char>> {
    call_then(
        es,
        m,
        "pane.zoom"@,
        seq![("pane_id"@, is_text(m.pane)), ("mode"@, is_text("toggle"@))],
        |v: Json| finish(es.skip(1), m, "zoom"@),
    )
}

/// `swap_*`: swap the focused pane with its neighbour in `d`.
pub open spec fn replay_swap(m: Memo, d: Dir, es: Seq<Effect>) -> Run<Seq<char>> {
    call_then(
        es,
        m,
        "pane.swap"@,
        seq![("direction"@, is_text(d.name())), ("pane_id"@, is_text(m.pane))],
        |v: Json| finish(es.skip(1), m, "swap "@ + d.name()),
    )
}

/// `new_tab`: open a tab in the focused space and follow it.
pub open spec fn replay_new_tab(m: Memo, es: Seq<Effect>) -> Run<Seq<char>> {
    call_then(
        es,
        m,
        "tab.create"@,
        seq![("workspace_id"@, is_text(m.workspace)), ("focus"@, is_bool(true))],
        |v: Json| with_line(replay_refresh(m, es.skip(1)), "new tab"@),
    )
}

/// `close_tab`: close the focused tab; there is no previous tab to go back
/// to any more.
pub open spec fn replay_close_tab(m: Memo, es: Seq<Effect>) -> Run<Seq<char>> {
    call_then(
        es,
        m,
        "tab.close"@,
        seq![("tab_id"@, is_text(m.tab))],
        |v: Json| with_line(replay_refresh(Memo { prev_tab: None, ..m }, es.skip(1)), "closed tab"@),
    )
}

// ---------------------------------------------------------------------------
// Steps several actions share.

/// The user was asked for a line under `label`; `k` takes the answer.
pub open spec fn asked_then<R>(
    es: Seq<Effect>,
    label: Seq<char>,
    k: spec_fn(Option<Seq<char>>) -> Run<R>,
) -> Run<R> {
    if 0 < es.len() && (es[0] matches Effect::Asked { label: l, .. } && l == label) {
        k(es[0]->answer)
    } else {
        None
    }
}

/// Focus as it stands after focusing tab `tab`: the tab left behind becomes
/// the previous one, unless focus stayed put.
pub open spec fn moved_tab(m: Memo, tab: Seq<char>) -> Memo {
    if tab != m.tab {
        Memo { prev_tab: Some(m.tab), tab, ..m }
    } else {
        m
    }
}

/// Focusing tab `tab`, then reading focus back.
pub open spec fn replay_focus_tab(m: Memo, tab: Seq<char>, es: Seq<Effect>) -> Run<()> {
    call_then(
        es,
        m,
        "tab.focus"@,
        seq![("tab_id"@, is_text(tab))],
        |v: Json| replay_refresh(moved_tab(m, tab), es.skip(1)),
    )
}

/// The params of a request about the focused space.
pub open spec fn in_space(m: Memo) -> Seq<Field> {
    seq![("workspace_id"@, is_text(m.workspace))]
}

/// The tabs of the focused space, then `k` on their ids.
pub open spec fn tabs_then(es: Seq<Effect>, m: Memo, k: spec_fn(Seq<Seq<char>>) -> Run<Seq<char>>) -> Run<
    Seq<char>,
> {
    call_then(es, m, "tab.list"@, in_space(m), |v: Json| k(tab_ids(rows_at(v, "tabs"@))))
}

/// The panes of the focused tab, then `k` on their ids.
pub open spec fn panes_then<R>(es: Seq<Effect>, m: Memo, k: spec_fn(Seq<Seq<char>>) -> Run<R>) -> Run<R> {
    call_then(es, m, "pane.list"@, in_space(m), |v: Json| k(panes_in(rows_at(v, "panes"@), m.tab)))
}

/// Where the focused one sits in a list of ids, or the first row.
pub open spec fn here(ids: Seq<Seq<char>>, cur: Seq<char>) -> int {
    or_zero(position(ids, cur))
}

/// An index that is there, as a `usize`.
pub open spec fn opt_index(i: Option<int>) -> Option<usize> {
    match i {
        Some(i) => Some(i as usize),
        None => None,
    }
}

// ---------------------------------------------------------------------------
// The tab actions.

/// `prev_tab` / `next_tab`: one tab along, wrapping.
pub open spec fn replay_step_tab(m: Memo, delta: int, es: Seq<Effect>) -> Run<Seq<char>> {
    tabs_then(
        es,
        m,
        |tabs: Seq<Seq<char>>|
            if tabs.len() < 2 {
                finish(es.skip(1), m, "only one tab"@)
            } else {
                let next = spec_step(Some(here(tabs, m.tab) as usize), delta, tabs.len() as int);
                with_line(replay_focus_tab(m, tabs[next], es.skip(1)), "tab "@ + place(next, tabs.len() as int))
            },
    )
}

/// `prev_tab` and `next_tab` step one tab in opposite directions around the
/// focused space's tab list, wrapping at the ends. From the tab at `i` of
/// `n` (two or more), `prev_tab` has herdr focus the tab at `i - 1`, the last
/// one from the first, and `next_tab` the tab at `i + 1`, the first one from
/// the last; so one undoes the other. Either answers with the place it went to.
pub proof fn law_tab_steps_go_opposite_ways(
    m: Memo,
    a: Action,
    es: Seq<Effect>,
    tabs: Seq<Seq<char>>,
    i: int,
)
    requires
        a == Action::PrevTab || a == Action::NextTab,
        replay_execute(m, a, es) is Some,
        0 < es.len(),
        es[0] matches Effect::Call { reply: Ok(v), .. } && tab_ids(rows_at(v, "tabs"@)) == tabs,
        2 <= tabs.len() <= usize::MAX,
        0 <= i < tabs.len(),
        tabs[i] == m.tab,
        forall|j: int| 0 <= j < i ==> tabs[j] != m.tab,
    ensures
        ({
            let n = tabs.len() as int;
            let to = if a == Action::PrevTab {
                if i == 0 { n - 1 } else { i - 1 }
            } else {
                if i == n - 1 { 0 } else { i + 1 }
            };
            &&& 1 < es.len()
            &&& call_is(es[1], "tab.focus"@, seq![("tab_id"@, is_text(tabs[to]))])
            &&& replay_execute(m, a, es) matches Some((_, Ok(line))) ==> line == "tab "@ + decimal(
                (to + 1) as nat,
            ) + "/"@ + decimal(n as nat)
        }),
{
    let n = tabs.len() as int;
    let delta: int = if a == Action::PrevTab { -1 } else { 1 };
    reveal(replay_execute);
    if a == Action::PrevTab {
        assert(replay_execute(m, a, es) == replay_step_tab(m, -1, es));
    } else {
        assert(replay_execute(m, a, es) == replay_step_tab(m, 1, es));
    }
    lemma_position_is(tabs, m.tab, i);
    assert(here(tabs, m.tab) == i);
    let next = spec_step(Some(i as usize), delta, n);
    let to = if a == Action::PrevTab {
        if i == 0 { n - 1 } else { i - 1 }
    } else {
        if i == n - 1 { 0 } else { i + 1 }
    };
    assert(next == to) by {
        if a == Action::PrevTab {
            if i == 0 {
                assert((0 - 1) % n == n - 1) by (nonlinear_arith)
                    requires n >= 2;
            } else {
                assert((i - 1) % n == i - 1) by (nonlinear_arith)
                    requires 1 <= i < n;
            }
        } else {
            if i == n - 1 {
                assert((n - 1 + 1) % n == 0) by (nonlinear_arith)
                    requires n >= 2;
            } else {
                assert((i + 1) % n == i + 1) by (nonlinear_arith)
                    requires 0 <= i, i + 1 < n;
            }
        }
    }
    assert(place(to, n) == decimal((to + 1) as nat) + "/"@ + decimal(n as nat));
}

/// `last_tab`: back to the tab focus came from.
pub open spec fn replay_last_tab(m: Memo, es: Seq<Effect>) -> Run<Seq<char>> {
    match m.prev_tab {
        Some(p) => with_line(replay_focus_tab(m, p, es), "last tab"@),
        None => finish(es, m, "no previous tab"@),
    }
}

/// `goto_tab` bound to digit `n`: the `n`th tab, counting from 1.
pub open spec fn replay_goto_tab(m: Memo, n: nat, es: Seq<Effect>) -> Run<Seq<char>> {
    tabs_then(
        es,
        m,
        |tabs: Seq<Seq<char>>|
            if n <= tabs.len() {
                with_line(replay_focus_tab(m, tabs[n - 1], es.skip(1)), "tab "@ + decimal(n))
            } else {
                finish(es.skip(1), m, "no tab "@ + decimal(n))
            },
    )
}

/// `move_tab_*`: move the focused tab one slot; `nav::tab_move` says where.
pub open spec fn replay_move_tab(m: Memo, delta: int, es: Seq<Effect>) -> Run<Seq<char>> {
    tabs_then(
        es,
        m,
        |tabs: Seq<Seq<char>>|
            if tabs.len() < 2 {
                finish(es.skip(1), m, "only one tab"@)
            } else {
                match spec_tab_move(here(tabs, m.tab), delta, tabs.len() as int) {
                    None => finish(es.skip(1), m, "at end"@),
                    Some((insert, landed)) => call_then(
                        es.skip(1),
                        m,
                        "tab.move"@,
                        seq![("tab_id"@, is_text(m.tab)), ("insert_index"@, is_count(insert as nat))],
                        |v: Json| finish(es.skip(2), m, "moved tab -> "@ + decimal((landed + 1) as nat)),
                    ),
                }
            },
    )
}

/// Moving the focused pane to `dest`, then bringing the client along.
pub open spec fn pane_moved(m: Memo, dest: spec_fn(Json) -> bool, es: Seq<Effect>) -> Run<Seq<char>> {
    call_then(
        es,
        m,
        "pane.move"@,
        seq![("pane_id"@, is_text(m.pane)), ("destination"@, dest), ("focus"@, is_bool(true))],
        |v: Json|
            call_then(
                es.skip(1),
                m,
                "pane.focus"@,
                seq![("pane_id"@, is_text(m.pane))],
                |w: Json| with_line(replay_refresh(m, es.skip(2)), "broke pane out"@),
            ),
    )
}

/// `break_pane_*`: send the focused pane to a new tab, or to the tab before
/// or after this one.
pub open spec fn replay_break_pane(m: Memo, target: BreakTo, es: Seq<Effect>) -> Run<Seq<char>> {
    match target {
        BreakTo::New => pane_moved(m, is_obj(seq![("type"@, is_text("new_tab"@))]), es),
        _ => tabs_then(
            es,
            m,
            |tabs: Seq<Seq<char>>|
                if tabs.len() < 2 {
                    finish(es.skip(1), m, "no other tab"@)
                } else {
                    let delta: int = if target is Prev { -1 } else { 1 };
                    let idx = (here(tabs, m.tab) + delta) % (tabs.len() as int);
                    pane_moved(
                        m,
                        is_obj(
                            seq![
                                ("type"@, is_text("tab"@)),
                                ("tab_id"@, is_text(tabs[idx])),
                                ("split"@, is_text("right"@)),
                            ],
                        ),
                        es.skip(1),
                    )
                },
        ),
    }
}

/// `rename_tab`: ask for a label; nothing typed cancels.
pub open spec fn replay_rename_tab(m: Memo, es: Seq<Effect>) -> Run<Seq<char>> {
    asked_then(
        es,
        "rename tab: "@,
        |answer: Option<Seq<char>>|
            match answer {
                Some(l) => if l.len() == 0 {
                    finish(es.skip(1), m, "cancelled"@)
                } else {
                    call_then(
                        es.skip(1),
                        m,
                        "tab.rename"@,
                        seq![("tab_id"@, is_text(m.tab)), ("label"@, is_text(l))],
                        |v: Json| finish(es.skip(2), m, "renamed tab"@),
                    )
                },
                None => finish(es.skip(1), m, "cancelled"@),
            },
    )
}

// ---------------------------------------------------------------------------
// The pane actions that walk the tab's panes.

/// `rename_pane`: ask for a label; an empty one clears the label.
pub open spec fn replay_rename_pane(m: Memo, es: Seq<Effect>) -> Run<Seq<char>> {
    asked_then(
        es,
        "rename pane: "@,
        |answer: Option<Seq<char>>|
            match answer {
                Some(l) => call_then(
                    es.skip(1),
                    m,
                    "pane.rename"@,
                    seq![
                        ("pane_id"@, is_text(m.pane)),
                        ("label"@, if l.len() == 0 { is_null() } else { is_text(l) }),
                    ],
                    |v: Json| finish(es.skip(2), m, "renamed pane"@),
                ),
                None => finish(es.skip(1), m, "cancelled"@),
            },
    )
}

/// `cycle_focus`: focus the next pane of the tab, in list order.
pub open spec fn replay_cycle_focus(m: Memo, es: Seq<Effect>) -> Run<Seq<char>> {
    panes_then(
        es,
        m,
        |panes: Seq<Seq<char>>|
            if panes.len() < 2 {
                finish(es.skip(1), m, "only one pane"@)
            } else {
                let next = panes[(here(panes, m.pane) + 1) % (panes.len() as int)];
                call_then(
                    es.skip(1),
                    m,
                    "pane.focus"@,
                    seq![("pane_id"@, is_text(next))],
                    |v: Json| finish(es.skip(2), Memo { pane: next, ..m }, "cycle"@),
                )
            },
    )
}

/// `swap_forward` / `swap_backward`: swap the focused pane with the next or
/// previous one of the tab, wrapping.
pub open spec fn replay_swap_cycle(m: Memo, forward: bool, es: Seq<Effect>) -> Run<Seq<char>> {
    panes_then(
        es,
        m,
        |panes: Seq<Seq<char>>|
            if panes.len() < 2 {
                finish(es.skip(1), m, "only one pane"@)
            } else {
                let delta: int = if forward { 1 } else { -1 };
                let idx = (here(panes, m.pane) + delta) % (panes.len() as int);
                call_then(
                    es.skip(1),
                    m,
                    "pane.swap"@,
                    seq![("source_pane_id"@, is_text(m.pane)), ("target_pane_id"@, is_text(panes[idx]))],
                    |v: Json| finish(es.skip(2), m, if forward { "swap forward"@ } else { "swap back"@ }),
                )
            },
    )
}

// ---------------------------------------------------------------------------
// The agent actions.

/// Where the agent holding pane `pane` sits in the panel.
pub open spec fn agent_position(agents: Seq<AgentRow>, pane: Seq<char>) -> Option<int> {
    first_index(agents, on_pane(pane))
}

/// Which agents want attention, row by row.
pub open spec fn agent_flags(agents: Seq<AgentRow>) -> Seq<bool> {
    agents.map_values(|a: AgentRow| wants(a.status))
}

/// The agents of herdr's panel, then `k` on them.
pub open spec fn agents_then(es: Seq<Effect>, m: Memo, k: spec_fn(Seq<AgentRow>) -> Run<Seq<char>>) -> Run<
    Seq<char>,
> {
    call_then(es, m, "agent.list"@, seq![], |v: Json| k(agent_rows(rows_at(v, "agents"@))))
}

/// Focusing the agent at `i`: `agent.focus` moves the server, `pane.focus`
/// brings the client along, and the snapshot is read back, since the agent
/// may live in another space or tab.
pub open spec fn replay_focus_agent(m: Memo, agents: Seq<AgentRow>, i: int, es: Seq<Effect>) -> Run<Seq<char>> {
    let t = agents[i];
    let head = place(i, agents.len() as int) + " "@ + t.label + dot();
    if t.pane == m.pane {
        finish(es, m, head + "already here"@)
    } else {
        call_then(
            es,
            m,
            "agent.focus"@,
            seq![("target"@, is_text(t.pane))],
            |v: Json|
                {
                    let left = if agent_position(agents, m.pane) is Some {
                        Memo { prev_agent: Some(m.pane), ..m }
                    } else {
                        m
                    };
                    call_then(
                        es.skip(1),
                        left,
                        "pane.focus"@,
                        seq![("pane_id"@, is_text(t.pane))],
                        |w: Json| with_line(replay_refresh(left, es.skip(2)), head + t.status),
                    )
                },
        )
    }
}

/// `prev_agent` / `next_agent`: one agent along the panel, wrapping; from a
/// pane with no agent, into the panel at the end the direction implies.
pub open spec fn replay_step_agent(m: Memo, delta: int, es: Seq<Effect>) -> Run<Seq<char>> {
    agents_then(
        es,
        m,
        |agents: Seq<AgentRow>|
            if agents.len() == 0 {
                finish(es.skip(1), m, "no agents"@)
            } else {
                let next = spec_step(opt_index(agent_position(agents, m.pane)), delta, agents.len() as int);
                replay_focus_agent(m, agents, next, es.skip(1))
            },
    )
}

/// `goto_agent` bound to digit `n`: the `n`th agent, counting from 1.
pub open spec fn replay_goto_agent(m: Memo, n: nat, es: Seq<Effect>) -> Run<Seq<char>> {
    agents_then(
        es,
        m,
        |agents: Seq<AgentRow>|
            if n > agents.len() {
                finish(es.skip(1), m, "no agent "@ + decimal(n))
            } else {
                replay_focus_agent(m, agents, n - 1, es.skip(1))
            },
    )
}

/// `last_agent`: back to the agent focus came from, if it is still there.
pub open spec fn replay_last_agent(m: Memo, es: Seq<Effect>) -> Run<Seq<char>> {
    agents_then(
        es,
        m,
        |agents: Seq<AgentRow>|
            match m.prev_agent {
                Some(p) => match agent_position(agents, p) {
                    Some(i) => replay_focus_agent(m, agents, i, es.skip(1)),
                    None => finish(es.skip(1), m, "no previous agent"@),
                },
                None => finish(es.skip(1), m, "no previous agent"@),
            },
    )
}

/// `next_attention` / `prev_attention`: the next agent that wants you.
pub open spec fn replay_step_attention(m: Memo, delta: int, es: Seq<Effect>) -> Run<Seq<char>> {
    agents_then(
        es,
        m,
        |agents: Seq<AgentRow>|
            if agents.len() == 0 {
                finish(es.skip(1), m, "no agents"@)
            } else {
                match attention_hit(agent_flags(agents), opt_index(agent_position(agents, m.pane)), delta) {
                    Some(i) => replay_focus_agent(m, agents, i, es.skip(1)),
                    None => finish(es.skip(1), m, "nothing waiting"@),
                }
            },
    )
}

// ---------------------------------------------------------------------------
// The space actions.

/// Where the sidebar's cursor sits: the space the server says is focused,
/// else the one focus was last known to be in.
pub open spec fn space_at_focus(spaces: Seq<SpaceRow>, m: Memo) -> Option<int> {
    match first_index(spaces, focused_row()) {
        Some(i) => Some(i),
        None => first_index(spaces, space_is(m.workspace)),
    }
}

/// Which spaces want attention, row by row.
pub open spec fn space_flags(spaces: Seq<SpaceRow>) -> Seq<bool> {
    spaces.map_values(|s: SpaceRow| wants(s.status))
}

/// The spaces of herdr's sidebar, then `k` on them.
pub open spec fn spaces_then(es: Seq<Effect>, m: Memo, k: spec_fn(Seq<SpaceRow>) -> Run<Seq<char>>) -> Run<
    Seq<char>,
> {
    call_then(es, m, "workspace.list"@, seq![], |v: Json| k(space_rows(rows_at(v, "workspaces"@))))
}

/// Focusing the space at `i`; the new space brings its own tab and pane.
pub open spec fn replay_focus_space(m: Memo, spaces: Seq<SpaceRow>, i: int, es: Seq<Effect>) -> Run<Seq<char>> {
    let t = spaces[i];
    let line = place(i, spaces.len() as int) + " "@ + t.label + dot() + t.status;
    if t.id == m.workspace {
        finish(es, m, line + dot() + "already here"@)
    } else {
        call_then(
            es,
            m,
            "workspace.focus"@,
            seq![("workspace_id"@, is_text(t.id))],
            |v: Json|
                with_line(
                    replay_refresh(Memo { prev_workspace: Some(m.workspace), workspace: t.id, ..m }, es.skip(1)),
                    line,
                ),
        )
    }
}

/// `prev_space` / `next_space`: one space along the sidebar, wrapping.
pub open spec fn replay_step_space(m: Memo, delta: int, es: Seq<Effect>) -> Run<Seq<char>> {
    spaces_then(
        es,
        m,
        |spaces: Seq<SpaceRow>|
            if spaces.len() < 2 {
                finish(es.skip(1), m, "only one space"@)
            } else {
                let next = spec_step(Some(or_zero(space_at_focus(spaces, m)) as usize), delta, spaces.len() as int);
                replay_focus_space(m, spaces, next, es.skip(1))
            },
    )
}

/// `goto_space` bound to digit `n`: the `n`th space, counting from 1.
pub open spec fn replay_goto_space(m: Memo, n: nat, es: Seq<Effect>) -> Run<Seq<char>> {
    spaces_then(
        es,
        m,
        |spaces: Seq<SpaceRow>|
            if n > spaces.len() {
                finish(es.skip(1), m, "no space "@ + decimal(n))
            } else {
                replay_focus_space(m, spaces, n - 1, es.skip(1))
            },
    )
}

/// `last_space`: back to the space focus came from, if it is still there.
pub open spec fn replay_last_space(m: Memo, es: Seq<Effect>) -> Run<Seq<char>> {
    spaces_then(
        es,
        m,
        |spaces: Seq<SpaceRow>|
            match m.prev_workspace {
                Some(p) => match first_index(spaces, space_is(p)) {
                    Some(i) => replay_focus_space(m, spaces, i, es.skip(1)),
                    None => finish(es.skip(1), m, "no previous space"@),
                },
                None => finish(es.skip(1), m, "no previous space"@),
            },
    )
}

/// `next_space_attention` / `prev_space_attention`: the next space whose
/// agents want you.
pub open spec fn replay_step_space_attention(m: Memo, delta: int, es: Seq<Effect>) -> Run<Seq<char>> {
    spaces_then(
        es,
        m,
        |spaces: Seq<SpaceRow>|
            if spaces.len() == 0 {
                finish(es.skip(1), m, "no spaces"@)
            } else {
                match attention_hit(space_flags(spaces), opt_index(space_at_focus(spaces, m)), delta) {
                    Some(i) => replay_focus_space(m, spaces, i, es.skip(1)),
                    None => finish(es.skip(1), m, "nothing waiting"@),
                }
            },
    )
}

// ---------------------------------------------------------------------------
// Leaving, and the session as a whole.

/// `cancel`: back to the space and pane the mode opened on. The pane may be
/// gone, so whatever `pane.focus` answers, focus is read back.
pub open spec fn replay_cancel(m: Memo, es: Seq<Effect>) -> Run<Seq<char>> {
    if m.pane == m.origin_pane {
        finish(es, m, ""@)
    } else {
        call_then(
            es,
            m,
            "workspace.focus"@,
            seq![("workspace_id"@, is_text(m.origin_workspace))],
            |v: Json|
                if 1 < es.len() && call_is(es[1], "pane.focus"@, seq![("pane_id"@, is_text(m.origin_pane))]) {
                    with_line(replay_refresh(m, es.skip(2)), ""@)
                } else {
                    None
                },
        )
    }
}

/// Whether the session can run `a`: `exit` is answered before a session
/// sees it, and the goto actions count from 1.
pub open spec fn runs(a: Action) -> bool {
    a !is Quit && counts_from_one(a)
}

/// The row a step of `delta` (one back or one on) reaches in a ring of `n`
/// rows from row `i`, or from outside the ring when `i` is `None`: going back
/// from outside lands on the last row, going on from outside on the first.
pub open spec fn ring_step(i: Option<int>, back: bool, n: int) -> int {
    match i {
        Some(i) => if back {
            if i == 0 { n - 1 } else { i - 1 }
        } else {
            if i == n - 1 { 0 } else { i + 1 }
        },
        None => if back { n - 1 } else { 0 },
    }
}

/// What `nav::step` is for one step back or on.
proof fn lemma_step_is_ring_step(i: Option<int>, back: bool, n: int)
    requires
        1 <= n <= usize::MAX,
        i matches Some(k) ==> 0 <= k < n,
    ensures
        spec_step(opt_index(i), if back { -1 } else { 1 }, n) == ring_step(i, back, n),
{
    if let Some(k) = i {
        if back {
            if k == 0 {
                assert((0 - 1) % n == n - 1) by (nonlinear_arith)
                    requires n >= 1;
            } else {
                assert((k - 1) % n == k - 1) by (nonlinear_arith)
                    requires 1 <= k < n;
            }
        } else {
            if k == n - 1 {
                assert((n - 1 + 1) % n == 0) by (nonlinear_arith)
                    requires n >= 1;
            } else {
                assert((k + 1) % n == k + 1) by (nonlinear_arith)
                    requires 0 <= k, k + 1 < n;
            }
        }
    }
}

/// `prev_agent` and `next_agent` walk herdr's agent list in opposite
/// directions, wrapping at the ends: from the agent at `i`, `prev_agent`
/// goes to `i - 1` and `next_agent` to `i + 1`; from a pane that is no agent,
/// to the last agent and to the first. Unless that agent is the pane already
/// focused, herdr is asked to focus its pane.
pub proof fn law_agent_steps_go_opposite_ways(m: Memo, a: Action, es: Seq<Effect>, agents: Seq<AgentRow>)
    requires
        a == Action::PrevAgent || a == Action::NextAgent,
        replay_execute(m, a, es) is Some,
        0 < es.len(),
        es[0] matches Effect::Call { reply: Ok(v), .. } && agent_rows(rows_at(v, "agents"@)) == agents,
        1 <= agents.len() <= usize::MAX,
    ensures
        ({
            let to = ring_step(agent_position(agents, m.pane), a == Action::PrevAgent, agents.len() as int);
            agents[to].pane != m.pane ==> 1 < es.len() && call_is(
                es[1],
                "agent.focus"@,
                seq![("target"@, is_text(agents[to].pane))],
            )
        }),
{
    reveal(replay_execute);
    let n = agents.len() as int;
    if a == Action::PrevAgent {
        assert(replay_execute(m, a, es) == replay_step_agent(m, -1, es));
    } else {
        assert(replay_execute(m, a, es) == replay_step_agent(m, 1, es));
    }
    lemma_first_index(agents, on_pane(m.pane));
    lemma_step_is_ring_step(agent_position(agents, m.pane), a == Action::PrevAgent, n);
}

/// `prev_space` and `next_space` walk herdr's space list in opposite
/// directions, wrapping at the ends: from the focused space at `i`,
/// `prev_space` goes to `i - 1` and `next_space` to `i + 1`. Unless that is
/// the space already focused, herdr is asked to focus it.
pub proof fn law_space_steps_go_opposite_ways(m: Memo, a: Action, es: Seq<Effect>, spaces: Seq<SpaceRow>)
    requires
        a == Action::PrevSpace || a == Action::NextSpace,
        replay_execute(m, a, es) is Some,
        0 < es.len(),
        es[0] matches Effect::Call { reply: Ok(v), .. } && space_rows(rows_at(v, "workspaces"@)) == spaces,
        2 <= spaces.len() <= usize::MAX,
    ensures
        ({
            let to = ring_step(Some(or_zero(space_at_focus(spaces, m))), a == Action::PrevSpace, spaces.len() as int);
            spaces[to].id != m.workspace ==> 1 < es.len() && call_is(
                es[1],
                "workspace.focus"@,
                seq![("workspace_id"@, is_text(spaces[to].id))],
            )
        }),
{
    reveal(replay_execute);
    let n = spaces.len() as int;
    if a == Action::PrevSpace {
        assert(replay_execute(m, a, es) == replay_step_space(m, -1, es));
    } else {
        assert(replay_execute(m, a, es) == replay_step_space(m, 1, es));
    }
    lemma_first_index(spaces, focused_row());
    lemma_first_index(spaces, space_is(m.workspace));
    lemma_step_is_ring_step(Some(or_zero(space_at_focus(spaces, m))), a == Action::PrevSpace, n);
}

/// What running `a` does.
#[verifier::opaque]
pub open spec fn replay_execute(m: Memo, a: Action, es: Seq<Effect>) -> Run<Seq<char>> {
    match a {
        Action::Focus(d) => replay_focus(m, d, es),
        Action::CycleFocus => replay_cycle_focus(m, es),
        Action::ClosePane => replay_close_pane(m, es),
        Action::Split(d) => replay_split(m, d, es),
        Action::Zoom => replay_zoom(m, es),
        Action::RenamePane => replay_rename_pane(m, es),
        Action::PrevTab => replay_step_tab(m, -1, es),
        Action::NextTab => replay_step_tab(m, 1, es),
        Action::LastTab => replay_last_tab(m, es),
        Action::GotoTab(n) => replay_goto_tab(m, n as nat, es),
        Action::NewTab => replay_new_tab(m, es),
        Action::CloseTab => replay_close_tab(m, es),
        Action::RenameTab => replay_rename_tab(m, es),
        Action::MoveTab(delta) => replay_move_tab(m, delta as int, es),
        Action::BreakPane(target) => replay_break_pane(m, target, es),
        Action::Swap(d) => replay_swap(m, d, es),
        Action::SwapCycle(forward) => replay_swap_cycle(m, forward, es),
        Action::PrevAgent => replay_step_agent(m, -1, es),
        Action::NextAgent => replay_step_agent(m, 1, es),
        Action::LastAgent => replay_last_agent(m, es),
        Action::GotoAgent(n) => replay_goto_agent(m, n as nat, es),
        Action::NextAttention => replay_step_attention(m, 1, es),
        Action::PrevAttention => replay_step_attention(m, -1, es),
        Action::PrevSpace => replay_step_space(m, -1, es),
        Action::NextSpace => replay_step_space(m, 1, es),
        Action::LastSpace => replay_last_space(m, es),
        Action::GotoSpace(n) => replay_goto_space(m, n as nat, es),
        Action::NextSpaceAttention => replay_step_space_attention(m, 1, es),
        Action::PrevSpaceAttention => replay_step_space_attention(m, -1, es),
        Action::Cancel => replay_cancel(m, es),
        Action::Quit => None,
    }
}

/// `will_close_owner_tab`: whether `a` takes the popup's own tab away.
/// Closing the tab always does; closing a pane does when it is the tab's
/// last one.
pub open spec fn replay_will_close(m: Memo, a: Action, es: Seq<Effect>) -> Run<bool> {
    match a {
        Action::CloseTab => finish(es, m, true),
        Action::ClosePane => panes_then(es, m, |panes: Seq<Seq<char>>| finish(es.skip(1), m, panes.len() <= 1)),
        _ => finish(es, m, false),
    }
}

/// `sync_view`: put the viewing client on the session's tab, if it knows one.
pub open spec fn replay_sync_view(m: Memo, es: Seq<Effect>) -> Run<()> {
    if m.tab.len() == 0 {
        finish(es, m, ())
    } else {
        call_then(es, m, "tab.focus"@, seq![("tab_id"@, is_text(m.tab))], |v: Json| finish(es.skip(1), m, ()))
    }
}

/// `arm_hop`: leave a note for `mode` carrying `feedback`, then ask herdr to
/// run the mode's `open` action. If herdr refuses, the note is taken back.
pub open spec fn replay_arm_hop(
    m: Memo,
    plugin: Seq<char>,
    socket: Seq<char>,
    mode: Seq<char>,
    feedback: Seq<char>,
    es: Seq<Effect>,
) -> Run<()> {
    if 0 < es.len() && (es[0] matches Effect::Write { note, .. } && note_is(note, mode, feedback, socket, m)) {
        match es[0]->outcome {
            Err(e) => if es.len() == 1 {
                Some((m, Err(e)))
            } else {
                None
            },
            Ok(()) => if 1 < es.len() && call_is(
                es[1],
                "plugin.action.invoke"@,
                seq![("plugin_id"@, is_text(plugin)), ("action_id"@, is_text(mode))],
            ) {
                match es[1]->reply {
                    Ok(v) => finish(es.skip(2), m, ()),
                    Err(e) => if es.len() == 3 && es[2] is Clear {
                        Some((m, Err(e)))
                    } else {
                        None
                    },
                }
            } else {
                None
            },
        }
    } else {
        None
    }
}

/// A popup starting up: read focus back, then, if it replaces one that hopped,
/// pick up that popup's memory and put the client on the popup's tab.
pub open spec fn replay_begin(m: Memo, resumed: Option<Resume>, es: Seq<Effect>) -> Run<()> {
    if 1 <= es.len() {
        match replay_refresh(m, es.take(1)) {
            Some((m1, Ok(()))) => match resumed {
                Some(r) => replay_sync_view(restored(m1, r), es.skip(1)),
                None => finish(es.skip(1), m1, ()),
            },
            Some((m1, Err(e))) => if es.len() == 1 {
                Some((m1, Err(e)))
            } else {
                None
            },
            None => None,
        }
    } else {
        None
    }
}

} // verus!

//! Actions, key specs, and the resolved keymap a mode runs on.
//!
//! Everything here is data. The keymap itself comes from the user's config;
//! the only bindings this file contributes are the exits, so a mode is always
//! escapable before it is configured.
use crate::search::{first_index, lemma_first_index, lemma_first_index_is, lemma_first_index_none};
use crate::text::{
    all_alphanumeric, char_is_alphanumeric, joined, owned, push_char, result_view, same_text, text_is_alphanumeric,
};
use vstd::prelude::*;

verus! {

#[derive(Clone, Copy, PartialEq, Eq, Structural, Debug)]
pub enum Dir {
    Left,
    Right,
    Up,
    Down,
}

impl Dir {
    /// The direction's name on the wire.
    pub open spec fn name(self) -> Seq<char> {
        match self {
            Dir::Left => "left"@,
            Dir::Right => "right"@,
            Dir::Up => "up"@,
            Dir::Down => "down"@,
        }
    }

    pub fn as_str(self) -> (r: &'static str)
        ensures
            r@ == self.name(),
    {
        match self {
            Dir::Left => "left",
            Dir::Right => "right",
            Dir::Up => "up",
            Dir::Down => "down",
        }
    }
}

/// Where `break_pane_*` sends the pane.
#[derive(Clone, Copy, PartialEq, Eq, Structural, Debug)]
pub enum BreakTo {
    New,
    Prev,
    Next,
}

#[derive(Clone, Copy, PartialEq, Eq, Structural, Debug)]
pub enum Action {
    Focus(Dir),
    CycleFocus,
    ClosePane,
    /// Split the focused pane; the new pane lands on this side.
    Split(Dir),
    Zoom,
    RenamePane,
    PrevTab,
    NextTab,
    LastTab,
    GotoTab(usize),
    NewTab,
    CloseTab,
    RenameTab,
    MoveTab(i64),
    BreakPane(BreakTo),
    Swap(Dir),
    SwapCycle(bool),
    PrevAgent,
    NextAgent,
    LastAgent,
    GotoAgent(usize),
    /// Step to the next agent that wants you: `blocked` or `done`.
    NextAttention,
    PrevAttention,
    PrevSpace,
    NextSpace,
    LastSpace,
    GotoSpace(usize),
    /// Step to the next space whose agents want you: `blocked` or `done`.
    NextSpaceAttention,
    PrevSpaceAttention,
    /// Leave, putting focus back where the mode opened. Every action here
    /// moves focus for real, so a browse needs a way to be taken back.
    Cancel,
    Quit,
}

/// The mode an action is documented under. Modes are only namespaces for a
/// keymap, so this says where the action is listed, not where it may be bound.
#[derive(Clone, Copy, PartialEq, Eq, Structural, Debug)]
pub enum Group {
    Pane,
    Tab,
    Move,
    Agent,
    Space,
    Any,
}

impl Group {
    /// In the order the docs list them.
    pub fn all() -> (r: [Group; 6])
        ensures
            r@ == seq![Group::Pane, Group::Tab, Group::Move, Group::Agent, Group::Space, Group::Any],
    {
        [Group::Pane, Group::Tab, Group::Move, Group::Agent, Group::Space, Group::Any]
    }

    /// The group's name in the docs.
    pub open spec fn name(self) -> Seq<char> {
        match self {
            Group::Pane => "pane"@,
            Group::Tab => "tab"@,
            Group::Move => "move"@,
            Group::Agent => "agent"@,
            Group::Space => "space"@,
            Group::Any => "any"@,
        }
    }

    pub fn as_str(self) -> (r: &'static str)
        ensures
            r@ == self.name(),
    {
        match self {
            Group::Pane => "pane",
            Group::Tab => "tab",
            Group::Move => "move",
            Group::Agent => "agent",
            Group::Space => "space",
            Group::Any => "any",
        }
    }
}

/// Which ring a `goto_*` action jumps into.
#[derive(Clone, Copy, PartialEq, Eq, Structural, Debug)]
pub enum GotoKind {
    Tab,
    Agent,
    Space,
}

impl GotoKind {
    /// The action that jumps to row `n` of this ring.
    pub open spec fn to(self, n: usize) -> Action {
        match self {
            GotoKind::Tab => Action::GotoTab(n),
            GotoKind::Agent => Action::GotoAgent(n),
            GotoKind::Space => Action::GotoSpace(n),
        }
    }

    /// Whether `a` is a jump into this ring, whatever the row.
    pub open spec fn covers(self, a: Action) -> bool {
        match self {
            GotoKind::Tab => a is GotoTab,
            GotoKind::Agent => a is GotoAgent,
            GotoKind::Space => a is GotoSpace,
        }
    }

    pub fn action(self, n: usize) -> (r: Action)
        ensures
            r == self.to(n),
    {
        match self {
            GotoKind::Tab => Action::GotoTab(n),
            GotoKind::Agent => Action::GotoAgent(n),
            GotoKind::Space => Action::GotoSpace(n),
        }
    }
}

/// How a name becomes an `Action`. Most names are one fixed variant; the
/// `goto_*` names take their index from the digit key they are bound to.
#[derive(Clone, Copy, PartialEq, Eq, Structural, Debug)]
pub enum Build {
    Plain(Action),
    Digit(GotoKind),
}

impl Build {
    /// Whether `a` can have come from this row.
    pub open spec fn produces(self, a: Action) -> bool {
        match self {
            Build::Plain(p) => p == a,
            Build::Digit(k) => k.covers(a),
        }
    }
}

/// One row of the action table: everything the config parser, the hint bar,
/// the hop check and the docs need to know about a name.
#[derive(Clone, Copy, Debug)]
pub struct ActionSpec {
    pub name: &'static str,
    pub group: Group,
    /// Short label for the auto-generated hint bar. Directional variants
    /// share a label so their keys collapse into one group ("hjkl focus").
    pub label: &'static str,
    /// Whether the action can land the view on a different tab. A popup is
    /// tied to the tab it opened on, so after one of these the popup has to
    /// hop. Pane-level moves within a tab never need it.
    pub leaves_tab: bool,
    pub build: Build,
}

/// The message for a `goto_*` name bound to something other than `1`-`9`.
pub open spec fn digit_message(name: Seq<char>) -> Seq<char> {
    name + " must be bound to a digit 1-9"@
}

/// The message for a name that is not in the table.
pub open spec fn unknown_action_message(name: Seq<char>) -> Seq<char> {
    "unknown action `"@ + name + "`"@
}

/// The index a `goto_*` name reads from its key: the digit `1`-`9`.
pub open spec fn spec_digit(name: Seq<char>, key: KeySpec) -> Result<usize, Seq<char>> {
    match key.key {
        Key::Char(c) => if '1' <= c <= '9' {
            Ok((c as u32 - '0' as u32) as usize)
        } else {
            Err(digit_message(name))
        },
        _ => Err(digit_message(name)),
    }
}

impl ActionSpec {
    /// The action a binding of `key` to this row stands for.
    pub open spec fn spec_action(self, key: KeySpec) -> Result<Action, Seq<char>> {
        match self.build {
            Build::Plain(a) => Ok(a),
            Build::Digit(k) => match spec_digit(self.name@, key) {
                Ok(n) => Ok(k.to(n)),
                Err(e) => Err(e),
            },
        }
    }

    /// Build the action for a binding. `key` matters only for the `goto_*`
    /// names, which read their index from it.
    pub fn action(&self, key: &KeySpec) -> (r: Result<Action, String>)
        ensures
            result_view(r) == self.spec_action(*key),
    {
        match self.build {
            Build::Plain(a) => Ok(a),
            Build::Digit(k) => match digit(self.name, key) {
                Ok(n) => Ok(k.action(n)),
                Err(e) => Err(e),
            },
        }
    }

    /// Whether the name must be bound to a digit key.
    pub fn takes_digit(&self) -> (r: bool)
        ensures
            r == (self.build is Digit),
    {
        match self.build {
            Build::Digit(_) => true,
            Build::Plain(_) => false,
        }
    }

    /// Whether `action` came from this row. Plain rows compare the whole
    /// value, so `focus_left` and `focus_right` stay apart; digit rows compare
    /// the variant, since the digit is the only payload.
    fn matches(&self, action: Action) -> (r: bool)
        ensures
            r == self.build.produces(action),
    {
        match self.build {
            Build::Plain(a) => a == action,
            Build::Digit(GotoKind::Tab) => matches!(action, Action::GotoTab(_)),
            Build::Digit(GotoKind::Agent) => matches!(action, Action::GotoAgent(_)),
            Build::Digit(GotoKind::Space) => matches!(action, Action::GotoSpace(_)),
        }
    }
}

pub open spec fn plain_row(
    name: &'static str,
    group: Group,
    label: &'static str,
    leaves_tab: bool,
    action: Action,
) -> ActionSpec {
    ActionSpec { name, group, label, leaves_tab, build: Build::Plain(action) }
}

pub open spec fn goto_row(
    name: &'static str,
    group: Group,
    label: &'static str,
    leaves_tab: bool,
    kind: GotoKind,
) -> ActionSpec {
    ActionSpec { name, group, label, leaves_tab, build: Build::Digit(kind) }
}

fn act(
    name: &'static str,
    group: Group,
    label: &'static str,
    leaves_tab: bool,
    action: Action,
) -> (r: ActionSpec)
    ensures
        r == plain_row(name, group, label, leaves_tab, action),
{
    ActionSpec { name, group, label, leaves_tab, build: Build::Plain(action) }
}

fn goto(
    name: &'static str,
    group: Group,
    label: &'static str,
    leaves_tab: bool,
    kind: GotoKind,
) -> (r: ActionSpec)
    ensures
        r == goto_row(name, group, label, leaves_tab, kind),
{
    ActionSpec { name, group, label, leaves_tab, build: Build::Digit(kind) }
}

/// `s` padded with spaces to `w` columns.
pub open spec fn padded(s: Seq<char>, w: nat) -> Seq<char> {
    if s.len() >= w {
        s
    } else {
        s + Seq::new((w - s.len()) as nat, |i: int| ' ')
    }
}

/// One line of the action listing: the name (with how to bind it, for the
/// goto names), its hint label, and whether a sticky binding of it hops.
pub open spec fn listing_line(r: ActionSpec) -> Seq<char> {
    let name = if r.build is Digit {
        r.name@ + " (bind to 1-9)"@
    } else {
        r.name@
    };
    let tab = if r.leaves_tab {
        "may leave the tab, so a sticky binding hops"@
    } else {
        "stays on the tab"@
    };
    "  "@ + padded(name, 28) + " "@ + padded(r.label@, 10) + " "@ + tab
}

/// The listing lines of the rows in `group`, in table order.
pub open spec fn spec_listing(rows: Seq<ActionSpec>, group: Group) -> Seq<Seq<char>>
    decreases rows.len(),
{
    if rows.len() == 0 {
        seq![]
    } else {
        let before = spec_listing(rows.drop_last(), group);
        if rows.last().group == group {
            before.push(listing_line(rows.last()))
        } else {
            before
        }
    }
}

/// Pad `s` with spaces to `w` columns.
fn pad(s: &mut String, w: usize)
    ensures
        final(s)@ == padded(old(s)@, w as nat),
{
    let ghost start = s@;
    let mut n = s.as_str().unicode_len();
    while n < w
        invariant
            n == s@.len(),
            start.len() <= n,
            n <= w || n == start.len(),
            s@ == start + Seq::new((n - start.len()) as nat, |i: int| ' '),
        decreases w - n,
    {
        push_char(s, ' ');
        n = n + 1;
        assert(s@ =~= start + Seq::new((n - start.len()) as nat, |i: int| ' '));
    }
    assert(start.len() >= w ==> s@ =~= start);
}

/// The lines `check --actions` prints for `group`.
pub fn listing(rows: &Vec<ActionSpec>, group: Group) -> (r: Vec<String>)
    ensures
        r@.map_values(|l: String| l@) == spec_listing(rows@, group),
{
    let mut out: Vec<String> = Vec::new();
    let mut i: usize = 0;
    while i < rows.len()
        invariant
            i <= rows@.len(),
            out@.map_values(|l: String| l@) == spec_listing(rows@.take(i as int), group),
        decreases rows.len() - i,
    {
        let row = rows[i];
        proof {
            assert(rows@.take(i + 1).drop_last() =~= rows@.take(i as int));
        }
        if row.group == group {
            let mut name = owned(row.name);
            if row.takes_digit() {
                name.append(" (bind to 1-9)");
            }
            pad(&mut name, 28);
            let mut label = owned(row.label);
            pad(&mut label, 10);
            let mut line = joined("  ", name.as_str());
            line.append(" ");
            line.append(label.as_str());
            line.append(" ");
            line.append(if row.leaves_tab {
                "may leave the tab, so a sticky binding hops"
            } else {
                "stays on the tab"
            });
            let ghost before = out@;
            out.push(line);
            assert(out@.map_values(|l: String| l@) =~= before.map_values(|l: String| l@).push(line@));
        }
        i = i + 1;
    }
    assert(rows@.take(rows@.len() as int) =~= rows@);
    out
}

/// Every action a config may name. `Action::parse`, the hint bar, the hop
/// check and the docs all read this table, so a new action is one row here.
pub open spec fn spec_actions() -> Seq<ActionSpec> {
    seq![
        plain_row("focus_left", Group::Pane, "focus", false, Action::Focus(Dir::Left)),
        plain_row("focus_right", Group::Pane, "focus", false, Action::Focus(Dir::Right)),
        plain_row("focus_up", Group::Pane, "focus", false, Action::Focus(Dir::Up)),
        plain_row("focus_down", Group::Pane, "focus", false, Action::Focus(Dir::Down)),
        plain_row("cycle_focus", Group::Pane, "cycle", false, Action::CycleFocus),
        plain_row("close_pane", Group::Pane, "close", false, Action::ClosePane),
        plain_row("split_right", Group::Pane, "split", false, Action::Split(Dir::Right)),
        plain_row("split_down", Group::Pane, "split", false, Action::Split(Dir::Down)),
        plain_row("zoom", Group::Pane, "zoom", false, Action::Zoom),
        plain_row("rename_pane", Group::Pane, "rename", false, Action::RenamePane),
        plain_row("prev_tab", Group::Tab, "switch", true, Action::PrevTab),
        plain_row("next_tab", Group::Tab, "switch", true, Action::NextTab),
        plain_row("last_tab", Group::Tab, "last", true, Action::LastTab),
        goto_row("goto_tab", Group::Tab, "goto", true, GotoKind::Tab),
        plain_row("new_tab", Group::Tab, "new", true, Action::NewTab),
        plain_row("close_tab", Group::Tab, "close", false, Action::CloseTab),
        plain_row("rename_tab", Group::Tab, "rename", false, Action::RenameTab),
        plain_row("move_tab_left", Group::Tab, "move", false, Action::MoveTab(-1i64)),
        plain_row("move_tab_right", Group::Tab, "move", false, Action::MoveTab(1i64)),
        plain_row("break_pane_new", Group::Tab, "break", true, Action::BreakPane(BreakTo::New)),
        plain_row("break_pane_prev", Group::Tab, "break", true, Action::BreakPane(BreakTo::Prev)),
        plain_row("break_pane_next", Group::Tab, "break", true, Action::BreakPane(BreakTo::Next)),
        plain_row("swap_left", Group::Move, "swap", false, Action::Swap(Dir::Left)),
        plain_row("swap_right", Group::Move, "swap", false, Action::Swap(Dir::Right)),
        plain_row("swap_up", Group::Move, "swap", false, Action::Swap(Dir::Up)),
        plain_row("swap_down", Group::Move, "swap", false, Action::Swap(Dir::Down)),
        plain_row("swap_forward", Group::Move, "swap", false, Action::SwapCycle(true)),
        plain_row("swap_backward", Group::Move, "swap", false, Action::SwapCycle(false)),
        plain_row("prev_agent", Group::Agent, "agent", true, Action::PrevAgent),
        plain_row("next_agent", Group::Agent, "agent", true, Action::NextAgent),
        plain_row("last_agent", Group::Agent, "last", true, Action::LastAgent),
        goto_row("goto_agent", Group::Agent, "goto", true, GotoKind::Agent),
        plain_row("next_attention", Group::Agent, "attention", true, Action::NextAttention),
        plain_row("prev_attention", Group::Agent, "attention", true, Action::PrevAttention),
        plain_row("prev_space", Group::Space, "space", true, Action::PrevSpace),
        plain_row("next_space", Group::Space, "space", true, Action::NextSpace),
        plain_row("last_space", Group::Space, "last", true, Action::LastSpace),
        goto_row("goto_space", Group::Space, "goto", true, GotoKind::Space),
        plain_row("next_space_attention", Group::Space, "attention", true, Action::NextSpaceAttention),
        plain_row("prev_space_attention", Group::Space, "attention", true, Action::PrevSpaceAttention),
        plain_row("exit", Group::Any, "exit", false, Action::Quit),
        plain_row("cancel", Group::Any, "cancel", false, Action::Cancel),
    ]
}

/// The action table, in the order the docs list it.
pub fn actions() -> (r: Vec<ActionSpec>)
    ensures
        r@ == spec_actions(),
{
    vec![
        act("focus_left", Group::Pane, "focus", false, Action::Focus(Dir::Left)),
        act("focus_right", Group::Pane, "focus", false, Action::Focus(Dir::Right)),
        act("focus_up", Group::Pane, "focus", false, Action::Focus(Dir::Up)),
        act("focus_down", Group::Pane, "focus", false, Action::Focus(Dir::Down)),
        act("cycle_focus", Group::Pane, "cycle", false, Action::CycleFocus),
        act("close_pane", Group::Pane, "close", false, Action::ClosePane),
        act("split_right", Group::Pane, "split", false, Action::Split(Dir::Right)),
        act("split_down", Group::Pane, "split", false, Action::Split(Dir::Down)),
        act("zoom", Group::Pane, "zoom", false, Action::Zoom),
        act("rename_pane", Group::Pane, "rename", false, Action::RenamePane),
        act("prev_tab", Group::Tab, "switch", true, Action::PrevTab),
        act("next_tab", Group::Tab, "switch", true, Action::NextTab),
        act("last_tab", Group::Tab, "last", true, Action::LastTab),
        goto("goto_tab", Group::Tab, "goto", true, GotoKind::Tab),
        act("new_tab", Group::Tab, "new", true, Action::NewTab),
        act("close_tab", Group::Tab, "close", false, Action::CloseTab),
        act("rename_tab", Group::Tab, "rename", false, Action::RenameTab),
        act("move_tab_left", Group::Tab, "move", false, Action::MoveTab(-1i64)),
        act("move_tab_right", Group::Tab, "move", false, Action::MoveTab(1i64)),
        act("break_pane_new", Group::Tab, "break", true, Action::BreakPane(BreakTo::New)),
        act("break_pane_prev", Group::Tab, "break", true, Action::BreakPane(BreakTo::Prev)),
        act("break_pane_next", Group::Tab, "break", true, Action::BreakPane(BreakTo::Next)),
        act("swap_left", Group::Move, "swap", false, Action::Swap(Dir::Left)),
        act("swap_right", Group::Move, "swap", false, Action::Swap(Dir::Right)),
        act("swap_up", Group::Move, "swap", false, Action::Swap(Dir::Up)),
        act("swap_down", Group::Move, "swap", false, Action::Swap(Dir::Down)),
        act("swap_forward", Group::Move, "swap", false, Action::SwapCycle(true)),
        act("swap_backward", Group::Move, "swap", false, Action::SwapCycle(false)),
        act("prev_agent", Group::Agent, "agent", true, Action::PrevAgent),
        act("next_agent", Group::Agent, "agent", true, Action::NextAgent),
        act("last_agent", Group::Agent, "last", true, Action::LastAgent),
        goto("goto_agent", Group::Agent, "goto", true, GotoKind::Agent),
        act("next_attention", Group::Agent, "attention", true, Action::NextAttention),
        act("prev_attention", Group::Agent, "attention", true, Action::PrevAttention),
        act("prev_space", Group::Space, "space", true, Action::PrevSpace),
        act("next_space", Group::Space, "space", true, Action::NextSpace),
        act("last_space", Group::Space, "last", true, Action::LastSpace),
        goto("goto_space", Group::Space, "goto", true, GotoKind::Space),
        act("next_space_attention", Group::Space, "attention", true, Action::NextSpaceAttention),
        act("prev_space_attention", Group::Space, "attention", true, Action::PrevSpaceAttention),
        act("exit", Group::Any, "exit", false, Action::Quit),
        act("cancel", Group::Any, "cancel", false, Action::Cancel),
    ]
}

/// The row called `name`.
pub open spec fn named(name: Seq<char>) -> spec_fn(ActionSpec) -> bool {
    |row: ActionSpec| row.name@ == name
}

/// The row `a` came from.
pub open spec fn source_of(a: Action) -> spec_fn(ActionSpec) -> bool {
    |row: ActionSpec| row.build.produces(a)
}

/// Whether some row of the table produces `a`. Actions built by `parse`
/// always are; a `Split` upward, say, is not.
pub open spec fn is_listed(a: Action) -> bool {
    first_index(spec_actions(), source_of(a)) is Some
}

/// The table row `a` came from.
pub open spec fn row_of(a: Action) -> ActionSpec {
    spec_actions()[first_index(spec_actions(), source_of(a))->0]
}

/// What a config binding of `name` to `key` means.
pub open spec fn spec_parse_action(name: Seq<char>, key: KeySpec) -> Result<Action, Seq<char>> {
    match first_index(spec_actions(), named(name)) {
        Some(i) => spec_actions()[i].spec_action(key),
        None => Err(unknown_action_message(name)),
    }
}

/// What tells the names of the action table apart: length, first and last
/// character.
spec fn name_sig(s: Seq<char>) -> (nat, char, char) {
    (s.len(), s[0], s[s.len() - 1])
}

/// No two rows of the action table share a name.
#[verifier::rlimit(100)]
proof fn lemma_names_distinct()
    ensures
        forall|j: int, k: int|
            0 <= j < k < spec_actions().len() ==> #[trigger] spec_actions()[j].name@ != #[trigger] spec_actions()[k].name@,
{
    reveal_strlit("focus_left");
    assert(name_sig("focus_left"@) == (10nat, 'f', 't'));
    reveal_strlit("focus_right");
    assert(name_sig("focus_right"@) == (11nat, 'f', 't'));
    reveal_strlit("focus_up");
    assert(name_sig("focus_up"@) == (8nat, 'f', 'p'));
    reveal_strlit("focus_down");
    assert(name_sig("focus_down"@) == (10nat, 'f', 'n'));
    reveal_strlit("cycle_focus");
    assert(name_sig("cycle_focus"@) == (11nat, 'c', 's'));
    reveal_strlit("close_pane");
    assert(name_sig("close_pane"@) == (10nat, 'c', 'e'));
    reveal_strlit("split_right");
    assert(name_sig("split_right"@) == (11nat, 's', 't'));
    reveal_strlit("split_down");
    assert(name_sig("split_down"@) == (10nat, 's', 'n'));
    reveal_strlit("zoom");
    assert(name_sig("zoom"@) == (4nat, 'z', 'm'));
    reveal_strlit("rename_pane");
    assert(name_sig("rename_pane"@) == (11nat, 'r', 'e'));
    reveal_strlit("prev_tab");
    assert(name_sig("prev_tab"@) == (8nat, 'p', 'b'));
    reveal_strlit("next_tab");
    assert(name_sig("next_tab"@) == (8nat, 'n', 'b'));
    reveal_strlit("last_tab");
    assert(name_sig("last_tab"@) == (8nat, 'l', 'b'));
    reveal_strlit("goto_tab");
    assert(name_sig("goto_tab"@) == (8nat, 'g', 'b'));
    reveal_strlit("new_tab");
    assert(name_sig("new_tab"@) == (7nat, 'n', 'b'));
    reveal_strlit("close_tab");
    assert(name_sig("close_tab"@) == (9nat, 'c', 'b'));
    reveal_strlit("rename_tab");
    assert(name_sig("rename_tab"@) == (10nat, 'r', 'b'));
    reveal_strlit("move_tab_left");
    assert(name_sig("move_tab_left"@) == (13nat, 'm', 't'));
    reveal_strlit("move_tab_right");
    assert(name_sig("move_tab_right"@) == (14nat, 'm', 't'));
    reveal_strlit("break_pane_new");
    assert(name_sig("break_pane_new"@) == (14nat, 'b', 'w'));
    reveal_strlit("break_pane_prev");
    assert(name_sig("break_pane_prev"@) == (15nat, 'b', 'v'));
    reveal_strlit("break_pane_next");
    assert(name_sig("break_pane_next"@) == (15nat, 'b', 't'));
    reveal_strlit("swap_left");
    assert(name_sig("swap_left"@) == (9nat, 's', 't'));
    reveal_strlit("swap_right");
    assert(name_sig("swap_right"@) == (10nat, 's', 't'));
    reveal_strlit("swap_up");
    assert(name_sig("swap_up"@) == (7nat, 's', 'p'));
    reveal_strlit("swap_down");
    assert(name_sig("swap_down"@) == (9nat, 's', 'n'));
    reveal_strlit("swap_forward");
    assert(name_sig("swap_forward"@) == (12nat, 's', 'd'));
    reveal_strlit("swap_backward");
    assert(name_sig("swap_backward"@) == (13nat, 's', 'd'));
    reveal_strlit("prev_agent");
    assert(name_sig("prev_agent"@) == (10nat, 'p', 't'));
    reveal_strlit("next_agent");
    assert(name_sig("next_agent"@) == (10nat, 'n', 't'));
    reveal_strlit("last_agent");
    assert(name_sig("last_agent"@) == (10nat, 'l', 't'));
    reveal_strlit("goto_agent");
    assert(name_sig("goto_agent"@) == (10nat, 'g', 't'));
    reveal_strlit("next_attention");
    assert(name_sig("next_attention"@) == (14nat, 'n', 'n'));
    reveal_strlit("prev_attention");
    assert(name_sig("prev_attention"@) == (14nat, 'p', 'n'));
    reveal_strlit("prev_space");
    assert(name_sig("prev_space"@) == (10nat, 'p', 'e'));
    reveal_strlit("next_space");
    assert(name_sig("next_space"@) == (10nat, 'n', 'e'));
    reveal_strlit("last_space");
    assert(name_sig("last_space"@) == (10nat, 'l', 'e'));
    reveal_strlit("goto_space");
    assert(name_sig("goto_space"@) == (10nat, 'g', 'e'));
    reveal_strlit("next_space_attention");
    assert(name_sig("next_space_attention"@) == (20nat, 'n', 'n'));
    reveal_strlit("prev_space_attention");
    assert(name_sig("prev_space_attention"@) == (20nat, 'p', 'n'));
    reveal_strlit("exit");
    assert(name_sig("exit"@) == (4nat, 'e', 't'));
    reveal_strlit("cancel");
    assert(name_sig("cancel"@) == (6nat, 'c', 'l'));
}

/// A key that a binding of `row`'s name accepts: `3` for the `goto_*` names,
/// which read their index from it, `h` for the rest.
pub open spec fn accepted_key(row: ActionSpec) -> KeySpec {
    KeySpec { ctrl: false, key: Key::Char(if row.build is Digit { '3' } else { 'h' }) }
}

/// Every name of the action table, bound to a key it accepts, parses to a
/// listed action whose row is the one the name was read from: the hint bar
/// and the hop check then see that row's name, label and tab behaviour.
pub proof fn law_every_row_parses_to_itself(i: int)
    requires
        0 <= i < spec_actions().len(),
    ensures
        spec_parse_action(spec_actions()[i].name@, accepted_key(spec_actions()[i])) matches Ok(a)
            && is_listed(a) && row_of(a) == spec_actions()[i],
{
    let rows = spec_actions();
    let row = rows[i];
    lemma_row_named(i);
    let a = row.spec_action(accepted_key(row))->Ok_0;
    assert(row.spec_action(accepted_key(row)) == Ok::<Action, Seq<char>>(a));
    assert forall|j: int| 0 <= j < i implies !(source_of(a))(#[trigger] rows[j]) by {}
    lemma_first_index_is(rows, source_of(a), i);
}

/// Row `i` is the first, and so the one, that answers to its name.
proof fn lemma_row_named(i: int)
    requires
        0 <= i < spec_actions().len(),
    ensures
        first_index(spec_actions(), named(spec_actions()[i].name@)) == Some(i),
{
    let rows = spec_actions();
    lemma_names_distinct();
    assert forall|j: int| 0 <= j < i implies !(named(rows[i].name@))(#[trigger] rows[j]) by {}
    lemma_first_index_is(rows, named(rows[i].name@), i);
}

/// Every action name a config may bind, other than the `goto_*` ones, means
/// the action it says, whatever key it is bound to: `focus_up` focuses up,
/// `prev_tab` goes back a tab, `move_tab_left` moves the tab left.
pub proof fn law_names_mean_what_they_say(key: KeySpec)
    ensures
        spec_parse_action("focus_left"@, key) == Ok::<Action, Seq<char>>(Action::Focus(Dir::Left)),
        spec_parse_action("focus_right"@, key) == Ok::<Action, Seq<char>>(Action::Focus(Dir::Right)),
        spec_parse_action("focus_up"@, key) == Ok::<Action, Seq<char>>(Action::Focus(Dir::Up)),
        spec_parse_action("focus_down"@, key) == Ok::<Action, Seq<char>>(Action::Focus(Dir::Down)),
        spec_parse_action("cycle_focus"@, key) == Ok::<Action, Seq<char>>(Action::CycleFocus),
        spec_parse_action("close_pane"@, key) == Ok::<Action, Seq<char>>(Action::ClosePane),
        spec_parse_action("split_right"@, key) == Ok::<Action, Seq<char>>(Action::Split(Dir::Right)),
        spec_parse_action("split_down"@, key) == Ok::<Action, Seq<char>>(Action::Split(Dir::Down)),
        spec_parse_action("zoom"@, key) == Ok::<Action, Seq<char>>(Action::Zoom),
        spec_parse_action("rename_pane"@, key) == Ok::<Action, Seq<char>>(Action::RenamePane),
        spec_parse_action("prev_tab"@, key) == Ok::<Action, Seq<char>>(Action::PrevTab),
        spec_parse_action("next_tab"@, key) == Ok::<Action, Seq<char>>(Action::NextTab),
        spec_parse_action("last_tab"@, key) == Ok::<Action, Seq<char>>(Action::LastTab),
        spec_parse_action("new_tab"@, key) == Ok::<Action, Seq<char>>(Action::NewTab),
        spec_parse_action("close_tab"@, key) == Ok::<Action, Seq<char>>(Action::CloseTab),
        spec_parse_action("rename_tab"@, key) == Ok::<Action, Seq<char>>(Action::RenameTab),
        spec_parse_action("move_tab_left"@, key) == Ok::<Action, Seq<char>>(Action::MoveTab(-1i64)),
        spec_parse_action("move_tab_right"@, key) == Ok::<Action, Seq<char>>(Action::MoveTab(1i64)),
        spec_parse_action("break_pane_new"@, key) == Ok::<Action, Seq<char>>(Action::BreakPane(BreakTo::New)),
        spec_parse_action("break_pane_prev"@, key) == Ok::<Action, Seq<char>>(Action::BreakPane(BreakTo::Prev)),
        spec_parse_action("break_pane_next"@, key) == Ok::<Action, Seq<char>>(Action::BreakPane(BreakTo::Next)),
        spec_parse_action("swap_left"@, key) == Ok::<Action, Seq<char>>(Action::Swap(Dir::Left)),
        spec_parse_action("swap_right"@, key) == Ok::<Action, Seq<char>>(Action::Swap(Dir::Right)),
        spec_parse_action("swap_up"@, key) == Ok::<Action, Seq<char>>(Action::Swap(Dir::Up)),
        spec_parse_action("swap_down"@, key) == Ok::<Action, Seq<char>>(Action::Swap(Dir::Down)),
        spec_parse_action("swap_forward"@, key) == Ok::<Action, Seq<char>>(Action::SwapCycle(true)),
        spec_parse_action("swap_backward"@, key) == Ok::<Action, Seq<char>>(Action::SwapCycle(false)),
        spec_parse_action("prev_agent"@, key) == Ok::<Action, Seq<char>>(Action::PrevAgent),
        spec_parse_action("next_agent"@, key) == Ok::<Action, Seq<char>>(Action::NextAgent),
        spec_parse_action("last_agent"@, key) == Ok::<Action, Seq<char>>(Action::LastAgent),
        spec_parse_action("next_attention"@, key) == Ok::<Action, Seq<char>>(Action::NextAttention),
        spec_parse_action("prev_attention"@, key) == Ok::<Action, Seq<char>>(Action::PrevAttention),
        spec_parse_action("prev_space"@, key) == Ok::<Action, Seq<char>>(Action::PrevSpace),
        spec_parse_action("next_space"@, key) == Ok::<Action, Seq<char>>(Action::NextSpace),
        spec_parse_action("last_space"@, key) == Ok::<Action, Seq<char>>(Action::LastSpace),
        spec_parse_action("next_space_attention"@, key) == Ok::<Action, Seq<char>>(Action::NextSpaceAttention),
        spec_parse_action("prev_space_attention"@, key) == Ok::<Action, Seq<char>>(Action::PrevSpaceAttention),
        spec_parse_action("exit"@, key) == Ok::<Action, Seq<char>>(Action::Quit),
        spec_parse_action("cancel"@, key) == Ok::<Action, Seq<char>>(Action::Cancel),
{
    lemma_row_named(0);
    lemma_row_named(1);
    lemma_row_named(2);
    lemma_row_named(3);
    lemma_row_named(4);
    lemma_row_named(5);
    lemma_row_named(6);
    lemma_row_named(7);
    lemma_row_named(8);
    lemma_row_named(9);
    lemma_row_named(10);
    lemma_row_named(11);
    lemma_row_named(12);
    lemma_row_named(14);
    lemma_row_named(15);
    lemma_row_named(16);
    lemma_row_named(17);
    lemma_row_named(18);
    lemma_row_named(19);
    lemma_row_named(20);
    lemma_row_named(21);
    lemma_row_named(22);
    lemma_row_named(23);
    lemma_row_named(24);
    lemma_row_named(25);
    lemma_row_named(26);
    lemma_row_named(27);
    lemma_row_named(28);
    lemma_row_named(29);
    lemma_row_named(30);
    lemma_row_named(32);
    lemma_row_named(33);
    lemma_row_named(34);
    lemma_row_named(35);
    lemma_row_named(36);
    lemma_row_named(38);
    lemma_row_named(39);
    lemma_row_named(40);
    lemma_row_named(41);
}

/// A `goto_*` name bound to a digit key jumps to the tab, agent or space
/// with that number, counting from 1; bound to `0` or to a key that is not a
/// character, it does not parse.
pub proof fn law_goto_reads_its_digit(ctrl: bool, key: Key)
    ensures
        spec_parse_action("goto_tab"@, KeySpec { ctrl, key: Key::Char('1') }) == Ok::<Action, Seq<char>>(Action::GotoTab(1)),
        spec_parse_action("goto_tab"@, KeySpec { ctrl, key: Key::Char('2') }) == Ok::<Action, Seq<char>>(Action::GotoTab(2)),
        spec_parse_action("goto_tab"@, KeySpec { ctrl, key: Key::Char('3') }) == Ok::<Action, Seq<char>>(Action::GotoTab(3)),
        spec_parse_action("goto_tab"@, KeySpec { ctrl, key: Key::Char('4') }) == Ok::<Action, Seq<char>>(Action::GotoTab(4)),
        spec_parse_action("goto_tab"@, KeySpec { ctrl, key: Key::Char('5') }) == Ok::<Action, Seq<char>>(Action::GotoTab(5)),
        spec_parse_action("goto_tab"@, KeySpec { ctrl, key: Key::Char('6') }) == Ok::<Action, Seq<char>>(Action::GotoTab(6)),
        spec_parse_action("goto_tab"@, KeySpec { ctrl, key: Key::Char('7') }) == Ok::<Action, Seq<char>>(Action::GotoTab(7)),
        spec_parse_action("goto_tab"@, KeySpec { ctrl, key: Key::Char('8') }) == Ok::<Action, Seq<char>>(Action::GotoTab(8)),
        spec_parse_action("goto_tab"@, KeySpec { ctrl, key: Key::Char('9') }) == Ok::<Action, Seq<char>>(Action::GotoTab(9)),
        spec_parse_action("goto_tab"@, KeySpec { ctrl, key: Key::Char('0') }) is Err,
        !(key is Char) ==> spec_parse_action("goto_tab"@, KeySpec { ctrl, key }) is Err,
        spec_parse_action("goto_agent"@, KeySpec { ctrl, key: Key::Char('1') }) == Ok::<Action, Seq<char>>(Action::GotoAgent(1)),
        spec_parse_action("goto_agent"@, KeySpec { ctrl, key: Key::Char('2') }) == Ok::<Action, Seq<char>>(Action::GotoAgent(2)),
        spec_parse_action("goto_agent"@, KeySpec { ctrl, key: Key::Char('3') }) == Ok::<Action, Seq<char>>(Action::GotoAgent(3)),
        spec_parse_action("goto_agent"@, KeySpec { ctrl, key: Key::Char('4') }) == Ok::<Action, Seq<char>>(Action::GotoAgent(4)),
        spec_parse_action("goto_agent"@, KeySpec { ctrl, key: Key::Char('5') }) == Ok::<Action, Seq<char>>(Action::GotoAgent(5)),
        spec_parse_action("goto_agent"@, KeySpec { ctrl, key: Key::Char('6') }) == Ok::<Action, Seq<char>>(Action::GotoAgent(6)),
        spec_parse_action("goto_agent"@, KeySpec { ctrl, key: Key::Char('7') }) == Ok::<Action, Seq<char>>(Action::GotoAgent(7)),
        spec_parse_action("goto_agent"@, KeySpec { ctrl, key: Key::Char('8') }) == Ok::<Action, Seq<char>>(Action::GotoAgent(8)),
        spec_parse_action("goto_agent"@, KeySpec { ctrl, key: Key::Char('9') }) == Ok::<Action, Seq<char>>(Action::GotoAgent(9)),
        spec_parse_action("goto_agent"@, KeySpec { ctrl, key: Key::Char('0') }) is Err,
        !(key is Char) ==> spec_parse_action("goto_agent"@, KeySpec { ctrl, key }) is Err,
        spec_parse_action("goto_space"@, KeySpec { ctrl, key: Key::Char('1') }) == Ok::<Action, Seq<char>>(Action::GotoSpace(1)),
        spec_parse_action("goto_space"@, KeySpec { ctrl, key: Key::Char('2') }) == Ok::<Action, Seq<char>>(Action::GotoSpace(2)),
        spec_parse_action("goto_space"@, KeySpec { ctrl, key: Key::Char('3') }) == Ok::<Action, Seq<char>>(Action::GotoSpace(3)),
        spec_parse_action("goto_space"@, KeySpec { ctrl, key: Key::Char('4') }) == Ok::<Action, Seq<char>>(Action::GotoSpace(4)),
        spec_parse_action("goto_space"@, KeySpec { ctrl, key: Key::Char('5') }) == Ok::<Action, Seq<char>>(Action::GotoSpace(5)),
        spec_parse_action("goto_space"@, KeySpec { ctrl, key: Key::Char('6') }) == Ok::<Action, Seq<char>>(Action::GotoSpace(6)),
        spec_parse_action("goto_space"@, KeySpec { ctrl, key: Key::Char('7') }) == Ok::<Action, Seq<char>>(Action::GotoSpace(7)),
        spec_parse_action("goto_space"@, KeySpec { ctrl, key: Key::Char('8') }) == Ok::<Action, Seq<char>>(Action::GotoSpace(8)),
        spec_parse_action("goto_space"@, KeySpec { ctrl, key: Key::Char('9') }) == Ok::<Action, Seq<char>>(Action::GotoSpace(9)),
        spec_parse_action("goto_space"@, KeySpec { ctrl, key: Key::Char('0') }) is Err,
        !(key is Char) ==> spec_parse_action("goto_space"@, KeySpec { ctrl, key }) is Err,
{
    lemma_row_named(13);
    lemma_row_named(31);
    lemma_row_named(37);
}

/// Without ctrl, a character press is the key of that very character, case
/// and all, so `H` and `h` can be bound apart. Only a ctrl chord is folded to
/// lower case, since terminals report some of them in upper case. Tab and
/// back-tab are one key; keys a keymap cannot name give nothing.
pub proof fn law_plain_presses_keep_their_case(c: char, ctrl: bool)
    ensures
        spec_from_event(KeyEvent { code: KeyCode::Char(c), ctrl: false }) == Some(
            KeySpec { ctrl: false, key: Key::Char(c) },
        ),
        'A' <= c <= 'Z' ==> spec_from_event(KeyEvent { code: KeyCode::Char(c), ctrl: true }) == Some(
            KeySpec { ctrl: true, key: Key::Char(((c as u32) + 32) as char) },
        ),
        !('A' <= c <= 'Z') ==> spec_from_event(KeyEvent { code: KeyCode::Char(c), ctrl: true }) == Some(
            KeySpec { ctrl: true, key: Key::Char(c) },
        ),
        spec_from_event(KeyEvent { code: KeyCode::Tab, ctrl }) == Some(KeySpec { ctrl, key: Key::Tab }),
        spec_from_event(KeyEvent { code: KeyCode::BackTab, ctrl }) == Some(KeySpec { ctrl, key: Key::Tab }),
        spec_from_event(KeyEvent { code: KeyCode::Enter, ctrl }) == Some(KeySpec { ctrl, key: Key::Enter }),
        spec_from_event(KeyEvent { code: KeyCode::Esc, ctrl }) == Some(KeySpec { ctrl, key: Key::Esc }),
        spec_from_event(KeyEvent { code: KeyCode::Backspace, ctrl }) == Some(
            KeySpec { ctrl, key: Key::Backspace },
        ),
        spec_from_event(KeyEvent { code: KeyCode::Other, ctrl }) is None,
{
}

impl Action {
    /// Parse a config action name. `key` is needed because the `goto_*` actions
    /// take their index from the key they are bound to.
    pub fn parse(name: &str, key: &KeySpec) -> (r: Result<Action, String>)
        ensures
            result_view(r) == spec_parse_action(name@, *key),
    {
        let rows = actions();
        let mut i: usize = 0;
        while i < rows.len()
            invariant
                rows@ == spec_actions(),
                i <= rows@.len(),
                forall|j: int| 0 <= j < i ==> !(named(name@))(#[trigger] rows@[j]),
            decreases rows.len() - i,
        {
            if same_text(rows[i].name, name) {
                proof {
                    lemma_first_index_is(rows@, named(name@), i as int);
                }
                return rows[i].action(key);
            }
            i = i + 1;
        }
        proof {
            lemma_first_index_none(rows@, named(name@));
        }
        let mut msg = owned("unknown action `");
        msg.append(name);
        msg.append("`");
        Err(msg)
    }

    /// The table row this action came from. A scan over a few dozen rows,
    /// once per keystroke.
    pub fn spec(self) -> (r: ActionSpec)
        requires
            is_listed(self),
        ensures
            r == row_of(self),
    {
        let rows = actions();
        let mut i: usize = 0;
        proof {
            lemma_first_index(spec_actions(), source_of(self));
        }
        while i < rows.len()
            invariant
                rows@ == spec_actions(),
                i <= rows@.len(),
                is_listed(self),
                forall|j: int| 0 <= j < i ==> !(source_of(self))(#[trigger] rows@[j]),
            decreases rows.len() - i,
        {
            if rows[i].matches(self) {
                proof {
                    lemma_first_index_is(rows@, source_of(self), i as int);
                }
                return rows[i];
            }
            i = i + 1;
        }
        proof {
            lemma_first_index_none(rows@, source_of(self));
        }
        rows[0]
    }

    /// See `ActionSpec::leaves_tab`.
    pub fn may_leave_tab(self) -> (r: bool)
        requires
            is_listed(self),
        ensures
            r == row_of(self).leaves_tab,
    {
        self.spec().leaves_tab
    }

    /// See `ActionSpec::label`.
    pub fn hint_label(self) -> (r: &'static str)
        requires
            is_listed(self),
        ensures
            r == row_of(self).label,
    {
        self.spec().label
    }
}

/// The `goto_*` actions take their index from the key they are bound to, so
/// `1 = "goto_tab"` reads the way the keymap looks.
fn digit(name: &str, key: &KeySpec) -> (r: Result<usize, String>)
    ensures
        result_view(r) == spec_digit(name@, *key),
{
    if let Key::Char(c) = key.key {
        if '1' <= c && c <= '9' {
            return Ok((c as u32 - '0' as u32) as usize);
        }
    }
    Err(joined(name, " must be bound to a digit 1-9"))
}

#[derive(Clone, Copy, PartialEq, Eq, Hash, Structural, Debug)]
pub enum Key {
    Char(char),
    Tab,
    Enter,
    Esc,
    Backspace,
}

#[derive(Clone, Copy, PartialEq, Eq, Hash, Structural, Debug)]
pub struct KeySpec {
    pub ctrl: bool,
    pub key: Key,
}


/// A key press as the terminal reports it, reduced to what a keymap reads:
/// the key itself and whether Ctrl was held.
#[derive(Clone, Copy, PartialEq, Eq, Structural, Debug)]
pub enum KeyCode {
    Char(char),
    Tab,
    BackTab,
    Enter,
    Esc,
    Backspace,
    /// Any other key: arrows, function keys, media keys and the like.
    Other,
}

#[derive(Clone, Copy, PartialEq, Eq, Structural, Debug)]
pub struct KeyEvent {
    pub code: KeyCode,
    pub ctrl: bool,
}

/// `c` with an ASCII capital turned lowercase, as `char::to_ascii_lowercase`.
pub open spec fn ascii_lower(c: char) -> char {
    if 'A' <= c <= 'Z' {
        ((c as u32) + 32) as char
    } else {
        c
    }
}

fn to_ascii_lowercase(c: char) -> (r: char)
    ensures
        r == ascii_lower(c),
{
    if 'A' <= c && c <= 'Z' {
        ((c as u8) + 32) as char
    } else {
        c
    }
}

/// The message for a key string that names no key.
pub open spec fn bad_key_message(s: Seq<char>) -> Seq<char> {
    "unrecognised key `"@ + s + "`"@
}

/// The key a config key string names, without its `ctrl+` prefix.
pub open spec fn spec_key_name(rest: Seq<char>) -> Option<Key> {
    if rest == "tab"@ {
        Some(Key::Tab)
    } else if rest == "enter"@ || rest == "return"@ {
        Some(Key::Enter)
    } else if rest == "esc"@ || rest == "escape"@ {
        Some(Key::Esc)
    } else if rest == "backspace"@ {
        Some(Key::Backspace)
    } else if rest == "space"@ {
        Some(Key::Char(' '))
    } else if rest.len() == 1 {
        Some(Key::Char(rest[0]))
    } else {
        None
    }
}

/// Writing a key spec out and parsing it back gives the same spec: what the
/// hint bar shows for a key is a config key string that binds it.
pub proof fn law_key_text_parses_back(k: KeySpec)
    ensures
        spec_parse_key(k.text()) == Ok::<KeySpec, Seq<char>>(k),
{
    reveal_strlit("ctrl+");
    reveal_strlit("space");
    reveal_strlit("tab");
    reveal_strlit("enter");
    reveal_strlit("return");
    reveal_strlit("esc");
    reveal_strlit("escape");
    reveal_strlit("backspace");
    let t = k.text();
    let name = match k.key {
        Key::Char(c) => if c == ' ' {
            "space"@
        } else {
            seq![c]
        },
        Key::Tab => "tab"@,
        Key::Enter => "enter"@,
        Key::Esc => "esc"@,
        Key::Backspace => "backspace"@,
    };
    if k.ctrl {
        assert(t == "ctrl+"@ + name);
        assert(t.subrange(0, 5) =~= "ctrl+"@);
        assert(t.subrange(5, t.len() as int) =~= name);
    } else {
        assert(t =~= name);
        if name.len() >= 5 {
            assert(name.subrange(0, 5) != "ctrl+"@) by {
                assert(name.subrange(0, 5)[0] != "ctrl+"@[0]);
            }
        }
    }
    assert(spec_key_name(name) == Some(k.key)) by {
        assert("tab"@.len() == 3 && "esc"@.len() == 3 && "enter"@.len() == 5 && "space"@.len() == 5);
        assert("return"@.len() == 6 && "escape"@.len() == 6 && "backspace"@.len() == 9);
        assert("tab"@[0] != "esc"@[0]);
        assert("enter"@[0] != "space"@[0]);
        assert("return"@[0] != "escape"@[0]);
    }
}

/// Whether a key string carries the `ctrl+` prefix.
pub open spec fn has_ctrl_prefix(s: Seq<char>) -> bool {
    s.len() >= 5 && s.subrange(0, 5) == "ctrl+"@
}

/// What a config key string means.
pub open spec fn spec_parse_key(s: Seq<char>) -> Result<KeySpec, Seq<char>> {
    let ctrl = has_ctrl_prefix(s);
    let rest = if ctrl { s.subrange(5, s.len() as int) } else { s };
    match spec_key_name(rest) {
        Some(key) => Ok(KeySpec { ctrl, key }),
        None => Err(bad_key_message(s)),
    }
}

/// The key spec a live key press looks up.
pub open spec fn spec_from_event(ev: KeyEvent) -> Option<KeySpec> {
    let key = match ev.code {
        KeyCode::Char(c) => Some(
            if ev.ctrl {
                Key::Char(ascii_lower(c))
            } else {
                Key::Char(c)
            },
        ),
        KeyCode::Tab | KeyCode::BackTab => Some(Key::Tab),
        KeyCode::Enter => Some(Key::Enter),
        KeyCode::Esc => Some(Key::Esc),
        KeyCode::Backspace => Some(Key::Backspace),
        KeyCode::Other => None,
    };
    match key {
        Some(k) => Some(KeySpec { ctrl: ev.ctrl, key: k }),
        None => None,
    }
}

impl KeySpec {
    /// How the key is written in a config and shown in the hint bar.
    pub open spec fn text(self) -> Seq<char> {
        let prefix = if self.ctrl { "ctrl+"@ } else { Seq::<char>::empty() };
        prefix + match self.key {
            Key::Char(c) => if c == ' ' {
                "space"@
            } else {
                seq![c]
            },
            Key::Tab => "tab"@,
            Key::Enter => "enter"@,
            Key::Esc => "esc"@,
            Key::Backspace => "backspace"@,
        }
    }

    /// Parse a config key string: `h`, `H`, `1`, `tab`, `esc`, `enter`, `ctrl+c`.
    pub fn parse(s: &str) -> (r: Result<KeySpec, String>)
        ensures
            result_view(r) == spec_parse_key(s@),
    {
        let n = s.unicode_len();
        let ctrl = n >= 5 && same_text(s.substring_char(0, 5), "ctrl+");
        let rest = if ctrl { s.substring_char(5, n) } else { s };
        let key = if same_text(rest, "tab") {
            Key::Tab
        } else if same_text(rest, "enter") || same_text(rest, "return") {
            Key::Enter
        } else if same_text(rest, "esc") || same_text(rest, "escape") {
            Key::Esc
        } else if same_text(rest, "backspace") {
            Key::Backspace
        } else if same_text(rest, "space") {
            Key::Char(' ')
        } else if rest.unicode_len() == 1 {
            Key::Char(rest.get_char(0))
        } else {
            let mut msg = owned("unrecognised key `");
            msg.append(s);
            msg.append("`");
            return Err(msg);
        };
        Ok(KeySpec { ctrl, key })
    }

    /// Build a spec from a live key event so it can be looked up in the table.
    pub fn from_event(ev: &KeyEvent) -> (r: Option<KeySpec>)
        ensures
            r == spec_from_event(*ev),
    {
        let ctrl = ev.ctrl;
        let key = match ev.code {
            // Ctrl chords arrive uppercase on some terminals; normalise so
            // `ctrl+c` in config matches regardless.
            KeyCode::Char(c) => if ctrl {
                Key::Char(to_ascii_lowercase(c))
            } else {
                Key::Char(c)
            },
            KeyCode::Tab | KeyCode::BackTab => Key::Tab,
            KeyCode::Enter => Key::Enter,
            KeyCode::Esc => Key::Esc,
            KeyCode::Backspace => Key::Backspace,
            KeyCode::Other => return None,
        };
        Some(KeySpec { ctrl, key })
    }

    /// The key as a config writes it: `ctrl+c`, `space`, `h`.
    pub fn to_text(&self) -> (r: String)
        ensures
            r@ == self.text(),
    {
        let mut out = if self.ctrl { owned("ctrl+") } else { String::new() };
        match self.key {
            Key::Char(c) => if c == ' ' {
                out.append("space");
            } else {
                push_char(&mut out, c);
            },
            Key::Tab => out.append("tab"),
            Key::Enter => out.append("enter"),
            Key::Esc => out.append("esc"),
            Key::Backspace => out.append("backspace"),
        }
        proof {
            let prefix = if self.ctrl { "ctrl+"@ } else { Seq::<char>::empty() };
            assert(prefix + Seq::<char>::empty() =~= prefix);
        }
        out
    }
}


#[derive(Clone, Copy, PartialEq, Eq, Structural, Debug)]
pub struct Binding {
    pub action: Action,
    pub sticky: bool,
}

/// The entry for `spec` in a key table.
pub open spec fn keyed(spec: KeySpec) -> spec_fn((KeySpec, Binding)) -> bool {
    |e: (KeySpec, Binding)| e.0 == spec
}

/// What `spec` is bound to in `keys`: the first entry for it.
pub open spec fn spec_lookup(keys: Seq<(KeySpec, Binding)>, spec: KeySpec) -> Option<Binding> {
    match first_index(keys, keyed(spec)) {
        Some(i) => Some(keys[i].1),
        None => None,
    }
}

/// `keys` with `spec` bound to `binding`: the entry is replaced where it
/// stands, or appended when the key was unbound.
pub open spec fn spec_bind(
    keys: Seq<(KeySpec, Binding)>,
    spec: KeySpec,
    binding: Binding,
) -> Seq<(KeySpec, Binding)> {
    match first_index(keys, keyed(spec)) {
        Some(i) => keys.update(i, (spec, binding)),
        None => keys.push((spec, binding)),
    }
}

/// `keys` with every entry for `spec` gone.
pub open spec fn spec_unbind(keys: Seq<(KeySpec, Binding)>, spec: KeySpec) -> Seq<(
    KeySpec,
    Binding,
)> {
    keys.filter(unkeyed(spec))
}

/// Every entry but those for `spec`.
pub open spec fn unkeyed(spec: KeySpec) -> spec_fn((KeySpec, Binding)) -> bool {
    |e: (KeySpec, Binding)| e.0 != spec
}

/// No key appears twice.
pub open spec fn keys_unique(keys: Seq<(KeySpec, Binding)>) -> bool {
    forall|i: int, j: int| 0 <= i < j < keys.len() ==> keys[i].0 != keys[j].0
}

pub struct Mode {
    pub label: String,
    pub hint: Option<String>,
    /// Kept in insertion order, so the generated hint reads the same way twice.
    /// A handful of entries per mode, so a scan beats a map.
    pub keys: Vec<(KeySpec, Binding)>,
}

impl Mode {
    /// The index of the entry for `spec`, if any.
    fn position(&self, spec: KeySpec) -> (r: Option<usize>)
        ensures
            r matches Some(i) ==> first_index(self.keys@, keyed(spec)) == Some(i as int) && i
                < self.keys@.len(),
            r is None ==> first_index(self.keys@, keyed(spec)) is None,
    {
        let mut i: usize = 0;
        while i < self.keys.len()
            invariant
                i <= self.keys@.len(),
                forall|j: int| 0 <= j < i ==> !(keyed(spec))(#[trigger] self.keys@[j]),
            decreases self.keys.len() - i,
        {
            if self.keys[i].0 == spec {
                proof {
                    lemma_first_index_is(self.keys@, keyed(spec), i as int);
                }
                return Some(i);
            }
            i = i + 1;
        }
        proof {
            lemma_first_index_none(self.keys@, keyed(spec));
        }
        None
    }

    pub fn lookup(&self, ev: &KeyEvent) -> (r: Option<Binding>)
        ensures
            r == match spec_from_event(*ev) {
                Some(spec) => spec_lookup(self.keys@, spec),
                None => None,
            },
    {
        let spec = KeySpec::from_event(ev)?;
        match self.position(spec) {
            Some(i) => Some(self.keys[i].1),
            None => None,
        }
    }

    /// Bind a key, replacing whatever it was bound to.
    pub fn bind(&mut self, spec: KeySpec, binding: Binding)
        ensures
            final(self).keys@ == spec_bind(old(self).keys@, spec, binding),
            final(self).label == old(self).label,
            final(self).hint == old(self).hint,
    {
        match self.position(spec) {
            Some(i) => {
                self.keys.set(i, (spec, binding));
            },
            None => {
                self.keys.push((spec, binding));
            },
        }
    }

    pub fn unbind(&mut self, spec: KeySpec)
        ensures
            final(self).keys@ == spec_unbind(old(self).keys@, spec),
            final(self).label == old(self).label,
            final(self).hint == old(self).hint,
    {
        let ghost pred = unkeyed(spec);
        let mut kept: Vec<(KeySpec, Binding)> = Vec::new();
        let mut i: usize = 0;
        while i < self.keys.len()
            invariant
                i <= self.keys@.len(),
                pred == unkeyed(spec),
                kept@ == self.keys@.take(i as int).filter(pred),
            decreases self.keys.len() - i,
        {
            let e = self.keys[i];
            proof {
                let t = self.keys@.take(i + 1);
                assert(t.drop_last() =~= self.keys@.take(i as int));
                assert(t.last() == e);
                reveal_with_fuel(Seq::filter, 1);
                assert(t.filter(pred) == if pred(e) {
                    t.drop_last().filter(pred).push(e)
                } else {
                    t.drop_last().filter(pred)
                });
            }
            if e.0 != spec {
                kept.push(e);
            }
            i = i + 1;
        }
        proof {
            assert(self.keys@.take(self.keys@.len() as int) =~= self.keys@);
        }
        self.keys = kept;
    }
}


/// Looking a key up in a table one entry longer: the earlier entries win.
proof fn lemma_lookup_push(keys: Seq<(KeySpec, Binding)>, e: (KeySpec, Binding), spec: KeySpec)
    ensures
        spec_lookup(keys.push(e), spec) == match spec_lookup(keys, spec) {
            Some(b) => Some(b),
            None => if e.0 == spec {
                Some(e.1)
            } else {
                None
            },
        },
{
    let k = keys.push(e);
    assert(k.drop_last() =~= keys);
    lemma_first_index(keys, keyed(spec));
}

/// After `key` is bound to `binding`, looking `key` up finds `binding`.
pub proof fn law_lookup_after_bind(keys: Seq<(KeySpec, Binding)>, key: KeySpec, binding: Binding)
    ensures
        spec_lookup(spec_bind(keys, key, binding), key) == Some(binding),
{
    lemma_first_index(keys, keyed(key));
    match first_index(keys, keyed(key)) {
        Some(i) => {
            let k = keys.update(i, (key, binding));
            assert forall|j: int| 0 <= j < i implies !(keyed(key))(#[trigger] k[j]) by {
                assert(k[j] == keys[j]);
            }
            lemma_first_index_is(k, keyed(key), i);
        },
        None => {
            lemma_lookup_push(keys, (key, binding), key);
        },
    }
}

/// Binding one key leaves what every other key is bound to alone.
pub proof fn law_bind_leaves_other_keys(
    keys: Seq<(KeySpec, Binding)>,
    key: KeySpec,
    binding: Binding,
    other: KeySpec,
)
    requires
        other != key,
    ensures
        spec_lookup(spec_bind(keys, key, binding), other) == spec_lookup(keys, other),
{
    lemma_first_index(keys, keyed(key));
    match first_index(keys, keyed(key)) {
        Some(i) => {
            let k = keys.update(i, (key, binding));
            lemma_first_index(keys, keyed(other));
            match first_index(keys, keyed(other)) {
                Some(j) => {
                    assert forall|t: int| 0 <= t < j implies !(keyed(other))(#[trigger] k[t]) by {
                        if t != i {
                            assert(k[t] == keys[t]);
                        }
                    }
                    assert(k[j] == keys[j]);
                    lemma_first_index_is(k, keyed(other), j);
                },
                None => {
                    assert forall|t: int| 0 <= t < k.len() implies !(keyed(other))(
                        #[trigger] k[t],
                    ) by {
                        if t != i {
                            assert(k[t] == keys[t]);
                        }
                    }
                    lemma_first_index_none(k, keyed(other));
                },
            }
        },
        None => {
            lemma_lookup_push(keys, (key, binding), other);
        },
    }
}

/// After `key` is unbound, looking it up finds nothing, and every other key
/// is bound as before.
pub proof fn law_lookup_after_unbind(keys: Seq<(KeySpec, Binding)>, key: KeySpec, other: KeySpec)
    ensures
        spec_lookup(spec_unbind(keys, key), key) is None,
        other != key ==> spec_lookup(spec_unbind(keys, key), other) == spec_lookup(keys, other),
    decreases keys.len(),
{
    if keys.len() == 0 {
        reveal_with_fuel(Seq::filter, 1);
        lemma_first_index_none(spec_unbind(keys, key), keyed(key));
        lemma_first_index_none(spec_unbind(keys, key), keyed(other));
        lemma_first_index_none(keys, keyed(other));
    } else {
        let d = keys.drop_last();
        let e = keys.last();
        law_lookup_after_unbind(d, key, other);
        assert(d.push(e) =~= keys);
        reveal_with_fuel(Seq::filter, 1);
        if e.0 != key {
            assert(spec_unbind(keys, key) == spec_unbind(d, key).push(e));
            lemma_lookup_push(spec_unbind(d, key), e, key);
            lemma_lookup_push(spec_unbind(d, key), e, other);
        } else {
            assert(spec_unbind(keys, key) == spec_unbind(d, key));
        }
        lemma_lookup_push(d, e, other);
    }
}

/// Binding keeps a table free of duplicate keys, and a key that was
/// already bound keeps its place, so the hint bar reads the same way.
pub proof fn law_bind_keeps_keys_unique(keys: Seq<(KeySpec, Binding)>, key: KeySpec, binding: Binding)
    requires
        keys_unique(keys),
    ensures
        keys_unique(spec_bind(keys, key, binding)),
        spec_lookup(keys, key) is Some ==> spec_bind(keys, key, binding).len() == keys.len(),
        spec_lookup(keys, key) is None ==> spec_bind(keys, key, binding).len() == keys.len() + 1,
{
    lemma_first_index(keys, keyed(key));
}

/// Unbinding keeps a table free of duplicate keys.
pub proof fn law_unbind_keeps_keys_unique(keys: Seq<(KeySpec, Binding)>, key: KeySpec)
    requires
        keys_unique(keys),
    ensures
        keys_unique(spec_unbind(keys, key)),
    decreases keys.len(),
{
    reveal_with_fuel(Seq::filter, 1);
    if keys.len() > 0 {
        let d = keys.drop_last();
        let e = keys.last();
        law_unbind_keeps_keys_unique(d, key);
        if e.0 != key {
            let f = spec_unbind(d, key);
            assert forall|i: int| 0 <= i < f.len() implies f[i].0 != e.0 by {
                assert(f.contains(f[i]));
                d.lemma_filter_contains_rev(unkeyed(key), f[i]);
                let j = choose|j: int| 0 <= j < d.len() && d[j] == f[i];
                assert(keys[j] == d[j]);
            }
        }
    }
}


/// The hint-bar group called `label`.
pub open spec fn labelled(label: Seq<char>) -> spec_fn((Seq<char>, Seq<char>)) -> bool {
    |g: (Seq<char>, Seq<char>)| g.0 == label
}

/// `keys` with one more key `k` added to the group. Single alphanumeric keys
/// run together (`hjkl`); punctuation and multi-character names stay
/// separated by `/`.
pub open spec fn merge_key(keys: Seq<char>, k: Seq<char>) -> Seq<char> {
    if k.len() == 1 && all_alphanumeric(k) && all_alphanumeric(keys) {
        keys + k
    } else {
        keys.push('/') + k
    }
}

/// The hint bar's groups, as `(label, keys)`, in the order their labels
/// first appear in the table: every key joins the group of its action's label.
pub open spec fn hint_groups(keys: Seq<(KeySpec, Binding)>) -> Seq<(Seq<char>, Seq<char>)>
    decreases keys.len(),
{
    if keys.len() == 0 {
        Seq::empty()
    } else {
        let g = hint_groups(keys.drop_last());
        let e = keys.last();
        let label = row_of(e.1.action).label@;
        let k = e.0.text();
        match first_index(g, labelled(label)) {
            Some(j) => g.update(j, (label, merge_key(g[j].1, k))),
            None => g.push((label, k)),
        }
    }
}

/// A binding whose label already has a group joins that group and changes
/// no other. Its key goes last; the keys already there stay as they were.
/// A key runs on without a separator only when it is one alphanumeric
/// character and the group so far is alphanumeric throughout (`hjkl`);
/// otherwise a `/` comes first, so `ctrl+c` then `q` reads `ctrl+c/q`. A
/// binding with a label new to the bar opens a group of its own at the end.
pub proof fn law_legend_keeps_keys_apart(keys: Seq<(KeySpec, Binding)>, e: (KeySpec, Binding))
    ensures
        ({
            let g = hint_groups(keys);
            let h = hint_groups(keys.push(e));
            let label = row_of(e.1.action).label@;
            let k = e.0.text();
            match first_index(g, labelled(label)) {
                Some(j) => {
                    let before = g[j].1;
                    let after = h[j].1;
                    &&& h.len() == g.len()
                    &&& h[j].0 == label
                    &&& forall|i: int| 0 <= i < g.len() && i != j ==> #[trigger] h[i] == g[i]
                    &&& after.take(before.len() as int) == before
                    &&& after.skip(after.len() - k.len()) == k
                    &&& (k.len() == 1 && char_is_alphanumeric(k[0]) && forall|i: int|
                        0 <= i < before.len() ==> char_is_alphanumeric(#[trigger] before[i])) ==> after
                        == before + k
                    &&& (k.len() != 1 || !char_is_alphanumeric(k[0]) || exists|i: int|
                        0 <= i < before.len() && !char_is_alphanumeric(#[trigger] before[i])) ==> after
                        == before + seq!['/'] + k
                },
                None => {
                    &&& forall|i: int| 0 <= i < g.len() ==> (#[trigger] g[i]).0 != label
                    &&& h == g.push((label, k))
                },
            }
        }),
{
    let g = hint_groups(keys);
    let label = row_of(e.1.action).label@;
    let k = e.0.text();
    assert(keys.push(e).drop_last() =~= keys);
    assert(keys.push(e).last() == e);
    lemma_first_index(g, labelled(label));
    match first_index(g, labelled(label)) {
        Some(j) => {
            let before = g[j].1;
            let after = hint_groups(keys.push(e))[j].1;
            assert(after == merge_key(before, k));
            assert((before + k).take(before.len() as int) =~= before);
            assert((before + k).skip(before.len() as int) =~= k);
            assert((before.push('/') + k).take(before.len() as int) =~= before);
            assert((before.push('/') + k).skip(before.len() as int + 1) =~= k);
            assert(before.push('/') + k =~= before + seq!['/'] + k);
        },
        None => {},
    }
}

/// One group as the bar shows it: its keys, a space, its label.
pub open spec fn legend_entry(g: (Seq<char>, Seq<char>)) -> Seq<char> {
    g.1.push(' ') + g.0
}

/// The groups, two spaces apart.
pub open spec fn legend(groups: Seq<(Seq<char>, Seq<char>)>) -> Seq<char>
    decreases groups.len(),
{
    if groups.len() == 0 {
        Seq::empty()
    } else if groups.len() == 1 {
        legend_entry(groups[0])
    } else {
        legend(groups.drop_last()) + "  "@ + legend_entry(groups.last())
    }
}

/// What the hint bar shows for a mode: the configured hint, nothing for an
/// empty one, or the legend generated from the bindings.
pub open spec fn spec_hint_text(hint: Option<Seq<char>>, keys: Seq<(KeySpec, Binding)>) -> Option<
    Seq<char>,
> {
    match hint {
        Some(h) => if h.len() == 0 {
            None
        } else {
            Some(h)
        },
        None => Some(legend(hint_groups(keys))),
    }
}

/// The goto actions count from 1: a digit key names the first row as `1`.
pub open spec fn counts_from_one(a: Action) -> bool {
    match a {
        Action::GotoTab(n) => n >= 1,
        Action::GotoAgent(n) => n >= 1,
        Action::GotoSpace(n) => n >= 1,
        _ => true,
    }
}

/// Every binding's goto action counts from 1.
pub open spec fn all_count_from_one(keys: Seq<(KeySpec, Binding)>) -> bool {
    forall|i: int| 0 <= i < keys.len() ==> counts_from_one(#[trigger] keys[i].1.action)
}

/// A row whose action is fixed has one that counts from 1.
pub open spec fn row_counts_from_one(r: ActionSpec) -> bool {
    match r.build {
        Build::Plain(p) => counts_from_one(p),
        Build::Digit(_) => true,
    }
}

/// No row of the table binds a goto action to a fixed index.
proof fn lemma_rows_count_from_one()
    ensures
        forall|j: int| 0 <= j < spec_actions().len() ==> #[trigger] row_counts_from_one(spec_actions()[j]),
{
    assert forall|j: int| 0 <= j < spec_actions().len() implies #[trigger] row_counts_from_one(
        spec_actions()[j],
    ) by {}
}

/// Whatever a config binds, the action it gets counts from 1.
pub proof fn law_parsed_counts_from_one(name: Seq<char>, key: KeySpec)
    ensures
        spec_parse_action(name, key) matches Ok(a) ==> counts_from_one(a),
{
    lemma_first_index(spec_actions(), named(name));
    lemma_rows_count_from_one();
    if let Some(i) = first_index(spec_actions(), named(name)) {
        assert(row_counts_from_one(spec_actions()[i]));
    }
}

/// Every binding's action has a row in the table.
pub open spec fn all_listed(keys: Seq<(KeySpec, Binding)>) -> bool {
    forall|i: int| 0 <= i < keys.len() ==> is_listed(#[trigger] keys[i].1.action)
}

/// The groups as characters.
pub open spec fn groups_view(groups: Seq<(&'static str, String)>) -> Seq<(Seq<char>, Seq<char>)> {
    groups.map_values(|g: (&'static str, String)| (g.0@, g.1@))
}

impl Mode {
    /// The configured hint, as characters.
    pub open spec fn hint_view(&self) -> Option<Seq<char>> {
        match self.hint {
            Some(h) => Some(h@),
            None => None,
        }
    }

    /// Hint bar text: the configured string, or one generated from the
    /// bindings with keys sharing a label collapsed together. `hint = ""`
    /// hides the bar entirely, so this returns `None`.
    pub fn hint_text(&self) -> (r: Option<String>)
        requires
            self.hint is None ==> all_listed(self.keys@),
        ensures
            match r {
                Some(t) => spec_hint_text(self.hint_view(), self.keys@) == Some(t@),
                None => spec_hint_text(self.hint_view(), self.keys@) is None,
            },
    {
        if let Some(h) = &self.hint {
            if h.as_str().unicode_len() == 0 {
                return None;
            }
            return Some(h.clone());
        }
        let groups = self.groups();
        let ghost gv = groups_view(groups@);
        let mut out = String::new();
        let mut j: usize = 0;
        while j < groups.len()
            invariant
                gv == groups_view(groups@),
                j <= groups@.len(),
                out@ == legend(gv.take(j as int)),
            decreases groups.len() - j,
        {
            proof {
                let t = gv.take(j + 1);
                assert(t.drop_last() =~= gv.take(j as int));
                assert(t.last() == gv[j as int]);
                assert(gv.take(0) =~= Seq::<(Seq<char>, Seq<char>)>::empty());
            }
            if j > 0 {
                out.append("  ");
            }
            out.append(groups[j].1.as_str());
            push_char(&mut out, ' ');
            out.append(groups[j].0);
            proof {
                if j == 0 {
                    assert(gv.take(1) =~= seq![gv[0]]);
                }
            }
            j = j + 1;
        }
        proof {
            assert(gv.take(gv.len() as int) =~= gv);
        }
        Some(out)
    }

    /// The hint bar's groups, built key by key.
    fn groups(&self) -> (r: Vec<(&'static str, String)>)
        requires
            all_listed(self.keys@),
        ensures
            groups_view(r@) == hint_groups(self.keys@),
    {
        let mut groups: Vec<(&'static str, String)> = Vec::new();
        let mut i: usize = 0;
        while i < self.keys.len()
            invariant
                i <= self.keys@.len(),
                all_listed(self.keys@),
                groups_view(groups@) == hint_groups(self.keys@.take(i as int)),
            decreases self.keys.len() - i,
        {
            let ghost before = groups_view(groups@);
            proof {
                let t = self.keys@.take(i + 1);
                assert(t.drop_last() =~= self.keys@.take(i as int));
                assert(t.last() == self.keys@[i as int]);
            }
            let (spec, b) = self.keys[i];
            assert(is_listed(self.keys@[i as int].1.action));
            let label = b.action.hint_label();
            let k = spec.to_text();
            let mut j: usize = 0;
            let mut found: Option<usize> = None;
            while j < groups.len()
                invariant_except_break
                    found is None,
                invariant
                    j <= groups@.len(),
                    before == groups_view(groups@),
                    forall|t: int| 0 <= t < j ==> !(labelled(label@))(#[trigger] before[t]),
                ensures
                    found matches Some(f) ==> f < groups@.len() && first_index(
                        before,
                        labelled(label@),
                    ) == Some(f as int),
                    found is None ==> forall|t: int|
                        0 <= t < before.len() ==> !(labelled(label@))(#[trigger] before[t]),
                decreases groups.len() - j,
            {
                if same_text(groups[j].0, label) {
                    proof {
                        lemma_first_index_is(before, labelled(label@), j as int);
                    }
                    found = Some(j);
                    break;
                }
                j = j + 1;
            }
            proof {
                if found is None {
                    lemma_first_index_none(before, labelled(label@));
                }
            }
            match found {
                Some(f) => {
                    let mut ks = groups[f].1.clone();
                    if k.as_str().unicode_len() == 1 && text_is_alphanumeric(k.as_str())
                        && text_is_alphanumeric(ks.as_str()) {
                        ks.append(k.as_str());
                    } else {
                        push_char(&mut ks, '/');
                        ks.append(k.as_str());
                    }
                    groups.set(f, (label, ks));
                    proof {
                        assert(groups_view(groups@) =~= before.update(
                            f as int,
                            (label@, merge_key(before[f as int].1, k@)),
                        ));
                    }
                },
                None => {
                    groups.push((label, k));
                    proof {
                        assert(groups_view(groups@) =~= before.push((label@, k@)));
                    }
                },
            }
            i = i + 1;
        }
        proof {
            assert(self.keys@.take(self.keys@.len() as int) =~= self.keys@);
        }
        groups
    }
}

/// The modes the binary ships with. They exist so an unconfigured popup still
/// opens (with only the shared exits bound); every action key is the user's to
/// choose. Config may name modes beyond these.
pub open spec fn spec_mode_names() -> Seq<&'static str> {
    seq!["pane", "tab", "move", "agent", "space"]
}

pub fn mode_names() -> (r: Vec<&'static str>)
    ensures
        r@ == spec_mode_names(),
{
    vec!["pane", "tab", "move", "agent", "space"]
}

/// The only built-in bindings: bound in every mode, matching zellij's
/// `shared_except` blocks, so a mode is always escapable before it is
/// configured. Users can rebind or unbind them per mode like any other key.
pub open spec fn spec_shared_exits() -> Seq<(&'static str, &'static str)> {
    seq![("esc", "exit"), ("enter", "exit"), ("ctrl+c", "exit")]
}

pub fn shared_exits() -> (r: Vec<(&'static str, &'static str)>)
    ensures
        r@ == spec_shared_exits(),
{
    vec![("esc", "exit"), ("enter", "exit"), ("ctrl+c", "exit")]
}

} // verus!

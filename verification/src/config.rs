//! The user's keymap. The binary contributes only the exits, so everything
//! else in a mode comes from the config file
//! (`$HERDR_PLUGIN_CONFIG_DIR/config.toml`):
//!
//! ```toml
//! [modes.pane]
//! label = "PANE"          # optional; defaults to the mode name uppercased
//! hint  = "custom text"   # optional; generated from the bindings otherwise
//!                         # `hint = ""` hides the hint bar
//!
//! [modes.pane.keys]
//! w = "focus_up"                                  # add or override
//! k = ""                                          # unbind
//! x = { action = "close_pane", sticky = false }   # override stickiness
//!
//! [ui]
//! accent = "#cba6f7"      # hex, or a crossterm colour name like "blue"
//! ```
//!
//! Bindings merge over the exits, matching herdr's own config style where
//! `previous_tab = ""` unbinds. `defaults = false` on a mode drops the exits
//! too and starts from an empty table. Reading the file and parsing its TOML
//! is the binary's business; what the parsed file means is decided here.
use crate::keymap::{
    ascii_lower,
    all_count_from_one, all_listed, counts_from_one, is_listed, keys_unique, law_parsed_counts_from_one, law_bind_keeps_keys_unique, law_unbind_keeps_keys_unique,
    named, shared_exits, spec_actions, spec_bind, spec_lookup, spec_mode_names, spec_parse_action,
    law_lookup_after_bind, law_bind_leaves_other_keys, law_lookup_after_unbind,
    spec_parse_key, spec_shared_exits, spec_unbind, source_of, mode_names, Action, Binding,
    KeySpec, Mode,
};
use crate::search::{first_index, lemma_first_index, lemma_first_index_is, lemma_first_index_none};
use crate::text::{
    joined, owned, result_view, same_text, spec_trim, text_less, text_lt, to_uppercase, trim,
    uppercase,
};
use vstd::prelude::*;

verus! {

#[verifier::external_type_specification]
#[verifier::external_body]
pub struct ExColor(crossterm::style::Color);

/// The colour crossterm's `Color::try_from(&str)` gives for `name`: it
/// lowercases the text and matches it against its colour names.
pub uninterp spec fn crossterm_color_named(name: Seq<char>) -> Option<crossterm::style::Color>;

/// crossterm's `Color::Rgb { r, g, b }`.
pub uninterp spec fn crossterm_rgb(r: u8, g: u8, b: u8) -> crossterm::style::Color;

/// The names crossterm's `Color::try_from(&str)` matches its lowercased
/// text against.
pub open spec fn crossterm_color_names() -> Seq<Seq<char>> {
    seq![
        "reset"@,
        "black"@,
        "dark_grey"@,
        "red"@,
        "dark_red"@,
        "green"@,
        "dark_green"@,
        "yellow"@,
        "dark_yellow"@,
        "blue"@,
        "dark_blue"@,
        "magenta"@,
        "dark_magenta"@,
        "cyan"@,
        "dark_cyan"@,
        "white"@,
        "grey"@,
    ]
}

/// Every character of `s` is ASCII.
pub open spec fn all_ascii(s: Seq<char>) -> bool {
    forall|i: int| 0 <= i < s.len() ==> (#[trigger] s[i] as u32) < 128
}

/// `s` with its ASCII capitals turned lowercase.
pub open spec fn ascii_lowercase(s: Seq<char>) -> Seq<char> {
    s.map_values(|c: char| ascii_lower(c))
}

/// `Color::try_from(name)`, with the error dropped: crossterm's `()` says
/// nothing beyond "no such colour". It lowercases the text and matches it
/// against its seventeen colour names; for ASCII text that lowercasing is
/// the ASCII one, which is stated. What it makes of other text rests on
/// Unicode's lowercase mapping, which is left to the name.
#[verifier::external_body]
fn color_named(name: &str) -> (r: Option<crossterm::style::Color>)
    ensures
        r == crossterm_color_named(name@),
        all_ascii(name@) ==> (r is Some <==> crossterm_color_names().contains(ascii_lowercase(name@))),
        all_ascii(name@) ==> r == crossterm_color_named(ascii_lowercase(name@)),
{
    crossterm::style::Color::try_from(name).ok()
}

/// `Color::Rgb { r, g, b }`.
#[verifier::external_body]
fn color_rgb(r: u8, g: u8, b: u8) -> (c: crossterm::style::Color)
    ensures
        c == crossterm_rgb(r, g, b),
{
    crossterm::style::Color::Rgb { r, g, b }
}

/// `Color::Magenta`, which is what crossterm's `try_from("magenta")` gives.
#[verifier::external_body]
fn terminal_magenta() -> (c: crossterm::style::Color)
    ensures
        crossterm_color_named("magenta"@) == Some(c),
{
    crossterm::style::Color::Magenta
}

/// Hint bar appearance.
#[derive(Debug, Clone, Copy, PartialEq, Eq)]
pub struct Ui {
    /// Colour of the mode label. Defaults to the terminal's magenta so the
    /// popup follows whatever palette the user already runs.
    pub accent: crossterm::style::Color,
}

impl Default for Ui {
    fn default() -> (r: Ui)
        ensures
            crossterm_color_named("magenta"@) == Some(r.accent),
    {
        Ui { accent: terminal_magenta() }
    }
}

/// The value of an ASCII hex digit.
pub open spec fn hex_value(c: char) -> nat {
    if '0' <= c <= '9' {
        (c as u32 - '0' as u32) as nat
    } else if 'a' <= c <= 'f' {
        (c as u32 - 'a' as u32 + 10) as nat
    } else {
        (c as u32 - 'A' as u32 + 10) as nat
    }
}

/// Whether `c` is an ASCII hex digit.
pub open spec fn is_hex_digit(c: char) -> bool {
    ('0' <= c <= '9') || ('a' <= c <= 'f') || ('A' <= c <= 'F')
}

/// The byte written by the two hex digits at `i` and `i + 1`.
pub open spec fn hex_byte(hex: Seq<char>, i: int) -> u8 {
    (hex_value(hex[i]) * 16 + hex_value(hex[i + 1])) as u8
}

/// Six hex digits.
pub open spec fn is_hex_color(hex: Seq<char>) -> bool {
    hex.len() == 6 && forall|i: int| 0 <= i < 6 ==> is_hex_digit(#[trigger] hex[i])
}

/// The message for an accent that is neither hex nor a colour name.
pub open spec fn bad_color_message(raw: Seq<char>) -> Seq<char> {
    "`"@ + raw + "` is not #rrggbb or a colour name such as `magenta`"@
}

/// The digits of a hex colour: the text without its leading `#`, if any.
pub open spec fn hex_part(t: Seq<char>) -> Seq<char> {
    if t.len() > 0 && t[0] == '#' {
        t.drop_first()
    } else {
        t
    }
}

/// `#rrggbb` (the `#` is optional) or one of crossterm's colour names, with
/// surrounding white space ignored.
pub open spec fn spec_parse_color(raw: Seq<char>) -> Result<crossterm::style::Color, Seq<char>> {
    let t = spec_trim(raw);
    let hex = hex_part(t);
    if is_hex_color(hex) {
        Ok(crossterm_rgb(hex_byte(hex, 0), hex_byte(hex, 2), hex_byte(hex, 4)))
    } else {
        match crossterm_color_named(t) {
            Some(c) => Ok(c),
            None => Err(bad_color_message(t)),
        }
    }
}

fn hex_digit_value(c: char) -> (r: u8)
    requires
        is_hex_digit(c),
    ensures
        r == hex_value(c),
{
    if '0' <= c && c <= '9' {
        (c as u32 - '0' as u32) as u8
    } else if 'a' <= c && c <= 'f' {
        (c as u32 - 'a' as u32 + 10) as u8
    } else {
        (c as u32 - 'A' as u32 + 10) as u8
    }
}

/// `#rrggbb` (the `#` is optional) or one of crossterm's colour names, in
/// any case: reset, black, red, green, yellow, blue, magenta, cyan, white,
/// grey, and the `dark_` variants of all but black and white.
pub fn parse_color(raw: &str) -> (r: Result<crossterm::style::Color, String>)
    ensures
        result_view(r) == spec_parse_color(raw@),
        all_ascii(spec_trim(raw@)) ==> (r is Ok <==> (is_hex_color(hex_part(spec_trim(raw@)))
            || crossterm_color_names().contains(ascii_lowercase(spec_trim(raw@))))),
{
    let t = trim(raw);
    let n = t.unicode_len();
    let hex = if n > 0 && t.get_char(0) == '#' { t.substring_char(1, n) } else { t };
    proof {
        if n > 0 && t@[0] == '#' {
            assert(t@.subrange(1, n as int) =~= t@.drop_first());
        }
    }
    if hex.unicode_len() == 6 {
        let mut all_hex = true;
        let mut i: usize = 0;
        while i < 6
            invariant
                hex@.len() == 6,
                i <= 6,
                all_hex == forall|j: int| 0 <= j < i ==> is_hex_digit(#[trigger] hex@[j]),
            decreases 6 - i,
        {
            let c = hex.get_char(i);
            if !(('0' <= c && c <= '9') || ('a' <= c && c <= 'f') || ('A' <= c && c <= 'F')) {
                all_hex = false;
            }
            i = i + 1;
        }
        if all_hex {
            let red = hex_digit_value(hex.get_char(0)) * 16 + hex_digit_value(hex.get_char(1));
            let green = hex_digit_value(hex.get_char(2)) * 16 + hex_digit_value(hex.get_char(3));
            let blue = hex_digit_value(hex.get_char(4)) * 16 + hex_digit_value(hex.get_char(5));
            return Ok(color_rgb(red, green, blue));
        }
    }
    match color_named(t) {
        Some(c) => Ok(c),
        None => {
            let mut msg = joined("`", t);
            msg.append("` is not #rrggbb or a colour name such as `magenta`");
            Err(msg)
        },
    }
}


/// One binding as the config writes it.
pub enum BindingConfig {
    /// `h = "focus_left"`, or `h = ""` to unbind.
    Action(String),
    /// `h = { action = "focus_left", sticky = true }`
    Full { action: String, sticky: Option<bool> },
}

/// One `[modes.<name>]` table.
pub struct ModeConfig {
    pub label: Option<String>,
    pub hint: Option<String>,
    /// Start from the built-in bindings, which are just the exits.
    pub defaults: bool,
    /// The `keys` table, each key once.
    pub keys: Vec<(String, BindingConfig)>,
}

/// The `[ui]` table.
pub struct UiConfig {
    pub accent: Option<String>,
}

/// A parsed config file: its mode tables, each name once, and its `[ui]`.
pub struct File {
    pub modes: Vec<(String, ModeConfig)>,
    pub ui: UiConfig,
}

impl File {
    /// The file that is not there: no modes, no `[ui]`.
    pub fn empty() -> (r: File)
        ensures
            r.modes@.len() == 0,
            r.ui.accent is None,
    {
        File { modes: Vec::new(), ui: UiConfig { accent: None } }
    }
}

/// A mode table's `defaults` when it does not say: true.
pub fn yes() -> (r: bool)
    ensures
        r,
{
    true
}

/// Everything a config file yields: the keymaps, the hint bar look, and any
/// non-fatal problems found on the way.
pub struct Loaded {
    /// Every built-in mode and every mode the config names, sorted by name.
    pub modes: Vec<(String, Mode)>,
    pub ui: Ui,
    pub warnings: Vec<String>,
}

/// Strings as characters.
pub open spec fn texts(ws: Seq<String>) -> Seq<Seq<char>> {
    ws.map_values(|w: String| w@)
}

/// A key table and the warnings so far.
pub type KeyState = (Seq<(KeySpec, Binding)>, Seq<Seq<char>>);

/// One config binding read as characters: key, then action and stickiness.
pub type Entry = (Seq<char>, (Seq<char>, Option<bool>));

/// The action and stickiness a binding names.
pub open spec fn binding_parts(b: BindingConfig) -> (Seq<char>, Option<bool>) {
    match b {
        BindingConfig::Action(a) => (a@, None),
        BindingConfig::Full { action, sticky } => (action@, sticky),
    }
}

/// A `keys` table read as characters.
pub open spec fn entries_of(keys: Seq<(String, BindingConfig)>) -> Seq<Entry> {
    keys.map_values(|e: (String, BindingConfig)| (e.0@, binding_parts(e.1)))
}

/// The warning for a key string that names no key.
pub open spec fn key_warning(origin: Seq<char>, message: Seq<char>) -> Seq<char> {
    "["@ + origin + "] "@ + message
}

/// The warning for a key bound to an action that does not parse.
pub open spec fn action_warning(origin: Seq<char>, key: KeySpec, message: Seq<char>) -> Seq<char> {
    "["@ + origin + "] key `"@ + key.text() + "`: "@ + message
}

/// `key` bound to `action`, or a warning when the action does not parse.
/// Nothing is sticky unless the binding asks for it.
pub open spec fn spec_insert(
    st: KeyState,
    key: KeySpec,
    action: Seq<char>,
    sticky: Option<bool>,
    origin: Seq<char>,
) -> KeyState {
    match spec_parse_action(action, key) {
        Ok(a) => (
            spec_bind(
                st.0,
                key,
                Binding {
                    action: a,
                    sticky: match sticky {
                        Some(b) => b,
                        None => false,
                    },
                },
            ),
            st.1,
        ),
        Err(e) => (st.0, st.1.push(action_warning(origin, key, e))),
    }
}

/// One built-in exit applied to a table.
pub open spec fn spec_default(st: KeyState, exit: (Seq<char>, Seq<char>)) -> KeyState {
    match spec_parse_key(exit.0) {
        Ok(key) => spec_insert(st, key, exit.1, None, "default"@),
        Err(m) => (st.0, st.1.push(key_warning("default"@, m))),
    }
}

/// The built-in exits applied in order.
pub open spec fn spec_defaults(st: KeyState, exits: Seq<(Seq<char>, Seq<char>)>) -> KeyState
    decreases exits.len(),
{
    if exits.len() == 0 {
        st
    } else {
        spec_default(spec_defaults(st, exits.drop_last()), exits.last())
    }
}

/// The built-in exits as characters.
pub open spec fn exit_pairs() -> Seq<(Seq<char>, Seq<char>)> {
    spec_shared_exits().map_values(|p: (&'static str, &'static str)| (p.0@, p.1@))
}

/// One config binding applied to a table: `key = ""` unbinds.
pub open spec fn spec_entry(st: KeyState, origin: Seq<char>, e: Entry) -> KeyState {
    match spec_parse_key(e.0) {
        Err(m) => (st.0, st.1.push(key_warning(origin, m))),
        Ok(key) => if e.1.0.len() == 0 {
            (spec_unbind(st.0, key), st.1)
        } else {
            spec_insert(st, key, e.1.0, e.1.1, origin)
        },
    }
}

/// Config bindings applied in order.
pub open spec fn spec_entries(st: KeyState, origin: Seq<char>, es: Seq<Entry>) -> KeyState
    decreases es.len(),
{
    if es.len() == 0 {
        st
    } else {
        spec_entry(spec_entries(st, origin, es.drop_last()), origin, es.last())
    }
}

/// A config binding is kept as written. When a binding's key and action
/// both parse, and no binding applied after it names the same key, the key
/// ends up bound to that action, sticky exactly when the binding says
/// `sticky = true`: `sticky = false`, or saying nothing, leaves it one-shot.
pub proof fn law_bindings_keep_their_stickiness(
    st: KeyState,
    origin: Seq<char>,
    es: Seq<Entry>,
    i: int,
    key: KeySpec,
    a: Action,
)
    requires
        0 <= i < es.len(),
        spec_parse_key(es[i].0) == Ok::<KeySpec, Seq<char>>(key),
        es[i].1.0.len() > 0,
        spec_parse_action(es[i].1.0, key) == Ok::<Action, Seq<char>>(a),
        forall|j: int| i < j < es.len() ==> spec_parse_key(#[trigger] es[j].0) != Ok::<KeySpec, Seq<char>>(key),
    ensures
        spec_lookup(spec_entries(st, origin, es).0, key) matches Some(b) && b.action == a && b.sticky == (
        es[i].1.1 == Some(true)),
    decreases es.len(),
{
    let d = es.drop_last();
    let e = es.last();
    let before = spec_entries(st, origin, d);
    if i == es.len() - 1 {
        let b = Binding { action: a, sticky: match e.1.1 { Some(x) => x, None => false } };
        law_lookup_after_bind(before.0, key, b);
    } else {
        assert forall|j: int| i < j < d.len() implies spec_parse_key(#[trigger] d[j].0) != Ok::<KeySpec, Seq<char>>(
            key,
        ) by {
            assert(d[j] == es[j]);
        }
        law_bindings_keep_their_stickiness(st, origin, d, i, key, a);
        assert(spec_parse_key(es[es.len() - 1].0) != Ok::<KeySpec, Seq<char>>(key));
        match spec_parse_key(e.0) {
            Err(_) => {},
            Ok(k) => {
                if e.1.0.len() == 0 {
                    law_lookup_after_unbind(before.0, k, key);
                } else {
                    match spec_parse_action(e.1.0, k) {
                        Ok(a2) => {
                            let b2 = Binding { action: a2, sticky: match e.1.1 { Some(x) => x, None => false } };
                            law_bind_leaves_other_keys(before.0, k, b2, key);
                        },
                        Err(_) => {},
                    }
                }
            },
        }
    }
}

/// Applying bindings where every one that names `key` is `x`, and some
/// does, leaves `key` bound as `x` says.
proof fn lemma_only_binding_decides(st: KeyState, origin: Seq<char>, es: Seq<Entry>, x: Entry, key: KeySpec, a: Action)
    requires
        es.contains(x),
        spec_parse_key(x.0) == Ok::<KeySpec, Seq<char>>(key),
        x.1.0.len() > 0,
        spec_parse_action(x.1.0, key) == Ok::<Action, Seq<char>>(a),
        forall|j: int| 0 <= j < es.len() && spec_parse_key(#[trigger] es[j].0) == Ok::<KeySpec, Seq<char>>(key) ==> es[j] == x,
    ensures
        spec_lookup(spec_entries(st, origin, es).0, key) matches Some(b) && b.action == a && b.sticky == (
        x.1.1 == Some(true)),
    decreases es.len(),
{
    let i = choose|i: int| 0 <= i < es.len() && es[i] == x;
    if es[es.len() - 1] == x {
        law_bindings_keep_their_stickiness(st, origin, es, es.len() - 1, key, a);
    } else {
        let d = es.drop_last();
        assert(i < es.len() - 1);
        assert(d[i] == x);
        assert(d.contains(x));
        assert forall|j: int| 0 <= j < d.len() && spec_parse_key(#[trigger] d[j].0) == Ok::<KeySpec, Seq<char>>(key) implies d[j] == x by {
            assert(d[j] == es[j]);
        }
        lemma_only_binding_decides(st, origin, d, x, key, a);
        let e = es.last();
        let before = spec_entries(st, origin, d);
        assert(spec_parse_key(es[es.len() - 1].0) != Ok::<KeySpec, Seq<char>>(key));
        match spec_parse_key(e.0) {
            Err(_) => {},
            Ok(k) => {
                if e.1.0.len() == 0 {
                    law_lookup_after_unbind(before.0, k, key);
                } else {
                    match spec_parse_action(e.1.0, k) {
                        Ok(a2) => {
                            let b2 = Binding { action: a2, sticky: match e.1.1 { Some(y) => y, None => false } };
                            law_bind_leaves_other_keys(before.0, k, b2, key);
                        },
                        Err(_) => {},
                    }
                }
            },
        }
    }
}

/// Entries whose key sorts after `key`.
pub open spec fn later_entry(key: Seq<char>) -> spec_fn(Entry) -> bool {
    |e: Entry| text_lt(key, e.0)
}

/// `x` placed after every entry whose key does not sort after its own.
pub open spec fn sorted_insert(s: Seq<Entry>, x: Entry) -> Seq<Entry> {
    match first_index(s, later_entry(x.0)) {
        Some(i) => s.insert(i, x),
        None => s.push(x),
    }
}

/// The entries sorted by key, ties kept in order. TOML tables come in no
/// order; sorting makes the generated hint and the warnings come out the
/// same on every run.
pub open spec fn sorted_entries(es: Seq<Entry>) -> Seq<Entry>
    decreases es.len(),
{
    if es.len() == 0 {
        es
    } else {
        sorted_insert(sorted_entries(es.drop_last()), es.last())
    }
}

/// Sorting keeps every entry and adds none.
proof fn lemma_sorted_same_entries(es: Seq<Entry>)
    ensures
        forall|y: Entry| #[trigger] sorted_entries(es).contains(y) <==> es.contains(y),
    decreases es.len(),
{
    if es.len() > 0 {
        let d = es.drop_last();
        let x = es.last();
        let s = sorted_entries(d);
        lemma_sorted_same_entries(d);
        assert forall|y: Entry| #[trigger] sorted_insert(s, x).contains(y) <==> (s.contains(y) || y == x) by {
            match first_index(s, later_entry(x.0)) {
                Some(i) => {
                    lemma_first_index(s, later_entry(x.0));
                    let t = s.insert(i, x);
                    if t.contains(y) {
                        let k = choose|k: int| 0 <= k < t.len() && t[k] == y;
                        if k < i {
                            assert(s[k] == y);
                        } else if k > i {
                            assert(s[k - 1] == y);
                        }
                    }
                    if s.contains(y) {
                        let k = choose|k: int| 0 <= k < s.len() && s[k] == y;
                        if k < i {
                            assert(t[k] == y);
                        } else {
                            assert(t[k + 1] == y);
                        }
                    }
                    if y == x {
                        assert(t[i] == y);
                    }
                },
                None => {
                    let t = s.push(x);
                    if t.contains(y) {
                        let k = choose|k: int| 0 <= k < t.len() && t[k] == y;
                        if k < s.len() {
                            assert(s[k] == y);
                        }
                    }
                    if s.contains(y) {
                        let k = choose|k: int| 0 <= k < s.len() && s[k] == y;
                        assert(t[k] == y);
                    }
                    if y == x {
                        assert(t[s.len() as int] == y);
                    }
                },
            }
        }
        assert forall|y: Entry| #[trigger] es.contains(y) <==> (d.contains(y) || y == x) by {
            if es.contains(y) {
                let k = choose|k: int| 0 <= k < es.len() && es[k] == y;
                if k < d.len() {
                    assert(d[k] == y);
                }
            }
            if d.contains(y) {
                let k = choose|k: int| 0 <= k < d.len() && d[k] == y;
                assert(es[k] == y);
            }
            if y == x {
                assert(es[es.len() - 1] == y);
            }
        }
    }
}

/// Names that sort after `name`.
pub open spec fn later_name(name: Seq<char>) -> spec_fn(Seq<char>) -> bool {
    |n: Seq<char>| text_lt(name, n)
}

/// `name` added to a sorted list of names, unless it is there already.
pub open spec fn name_insert(s: Seq<Seq<char>>, name: Seq<char>) -> Seq<Seq<char>> {
    if s.contains(name) {
        s
    } else {
        match first_index(s, later_name(name)) {
            Some(i) => s.insert(i, name),
            None => s.push(name),
        }
    }
}

/// The names, each once, in sorted order.
pub open spec fn name_set(names: Seq<Seq<char>>) -> Seq<Seq<char>>
    decreases names.len(),
{
    if names.len() == 0 {
        names
    } else {
        name_insert(name_set(names.drop_last()), names.last())
    }
}

/// Every built-in mode, plus any the config names.
pub open spec fn mode_list(modes: Seq<(String, ModeConfig)>) -> Seq<Seq<char>> {
    name_set(
        spec_mode_names().map_values(|n: &'static str| n@) + modes.map_values(
            |e: (String, ModeConfig)| e.0@,
        ),
    )
}

/// The table called `name`.
pub open spec fn mode_named(name: Seq<char>) -> spec_fn((String, ModeConfig)) -> bool {
    |e: (String, ModeConfig)| e.0@ == name
}

/// The config's table for the mode `name`, if it has one.
pub open spec fn config_for(modes: Seq<(String, ModeConfig)>, name: Seq<char>) -> Option<ModeConfig> {
    match first_index(modes, mode_named(name)) {
        Some(i) => Some(modes[i].1),
        None => None,
    }
}

/// A mode as characters: label, hint, keys.
pub type ModeView = (Seq<char>, Option<Seq<char>>, Seq<(KeySpec, Binding)>);

/// A mode read as characters.
pub open spec fn mode_view(m: Mode) -> ModeView {
    (
        m.label@,
        match m.hint {
            Some(h) => Some(h@),
            None => None,
        },
        m.keys@,
    )
}

/// The mode `name` built from its config table, if any: the exits unless
/// `defaults = false`, then the table's bindings in key order.
pub open spec fn spec_mode(name: Seq<char>, cfg: Option<ModeConfig>, warnings: Seq<Seq<char>>) -> (
    ModeView,
    Seq<Seq<char>>,
) {
    let defaults = match cfg {
        Some(c) => c.defaults,
        None => true,
    };
    let start: KeyState = (Seq::empty(), warnings);
    let with_exits = if defaults {
        spec_defaults(start, exit_pairs())
    } else {
        start
    };
    let done = match cfg {
        Some(c) => spec_entries(with_exits, name, sorted_entries(entries_of(c.keys@))),
        None => with_exits,
    };
    let label = match cfg {
        Some(c) => match c.label {
            Some(l) => l@,
            None => uppercase(name),
        },
        None => uppercase(name),
    };
    let hint = match cfg {
        Some(c) => match c.hint {
            Some(h) => Some(h@),
            None => None,
        },
        None => None,
    };
    ((label, hint, done.0), done.1)
}

/// The modes called `names`, built in order, with the warnings after.
pub open spec fn spec_modes(
    names: Seq<Seq<char>>,
    modes: Seq<(String, ModeConfig)>,
    warnings: Seq<Seq<char>>,
) -> (Seq<(Seq<char>, ModeView)>, Seq<Seq<char>>)
    decreases names.len(),
{
    if names.len() == 0 {
        (Seq::empty(), warnings)
    } else {
        let (built, w) = spec_modes(names.drop_last(), modes, warnings);
        let name = names.last();
        let (m, w2) = spec_mode(name, config_for(modes, name), w);
        (built.push((name, m)), w2)
    }
}

/// In a built mode, a key that one binding of the mode's table names (every
/// binding naming it is that one) is bound to its action, sticky exactly
/// when the binding says `sticky = true`; whatever the built-in exits bound
/// there is overridden, and the order the table came in does not matter.
pub proof fn law_built_bindings_keep_their_stickiness(
    name: Seq<char>,
    c: ModeConfig,
    warnings: Seq<Seq<char>>,
    i: int,
    key: KeySpec,
    a: Action,
)
    requires
        0 <= i < c.keys@.len(),
        spec_parse_key(entries_of(c.keys@)[i].0) == Ok::<KeySpec, Seq<char>>(key),
        entries_of(c.keys@)[i].1.0.len() > 0,
        spec_parse_action(entries_of(c.keys@)[i].1.0, key) == Ok::<Action, Seq<char>>(a),
        forall|j: int|
            0 <= j < c.keys@.len() && spec_parse_key(#[trigger] entries_of(c.keys@)[j].0) == Ok::<KeySpec, Seq<char>>(
                key,
            ) ==> entries_of(c.keys@)[j] == entries_of(c.keys@)[i],
    ensures
        ({
            let (view, _) = spec_mode(name, Some(c), warnings);
            let x = entries_of(c.keys@)[i];
            spec_lookup(view.2, key) matches Some(b) && b.action == a && b.sticky == (x.1.1 == Some(true))
        }),
{
    let es = entries_of(c.keys@);
    let x = es[i];
    let srt = sorted_entries(es);
    lemma_sorted_same_entries(es);
    assert(es.contains(x));
    assert(srt.contains(x));
    assert forall|j: int| 0 <= j < srt.len() && spec_parse_key(#[trigger] srt[j].0) == Ok::<KeySpec, Seq<char>>(key) implies srt[j] == x by {
        assert(srt.contains(srt[j]));
        assert(es.contains(srt[j]));
        let k = choose|k: int| 0 <= k < es.len() && es[k] == srt[j];
        assert(es[k] == srt[j]);
    }
    let start: KeyState = (Seq::empty(), warnings);
    let with_exits = if c.defaults {
        spec_defaults(start, exit_pairs())
    } else {
        start
    };
    lemma_only_binding_decides(with_exits, name, srt, x, key, a);
}

/// The accent the `[ui]` table asks for, if it asks for one that parses, and
/// the warnings after. A bad colour is a warning, not an error: the popup
/// opens in the default accent and the feedback row says why.
pub open spec fn spec_ui(cfg: UiConfig, warnings: Seq<Seq<char>>) -> (
    Option<crossterm::style::Color>,
    Seq<Seq<char>>,
) {
    match cfg.accent {
        None => (None, warnings),
        Some(raw) => match spec_parse_color(raw@) {
            Ok(c) => (Some(c), warnings),
            Err(e) => (None, warnings.push("[ui] accent: "@ + e)),
        },
    }
}

/// A parsed action is always one of the table's.
proof fn lemma_parsed_is_listed(name: Seq<char>, key: KeySpec)
    ensures
        spec_parse_action(name, key) matches Ok(a) ==> is_listed(a),
{
    lemma_first_index(spec_actions(), named(name));
    if let Some(i) = first_index(spec_actions(), named(name)) {
        if let Ok(a) = spec_parse_action(name, key) {
            assert((source_of(a))(spec_actions()[i]));
            lemma_first_index(spec_actions(), source_of(a));
        }
    }
}

/// Keys each once, every action from the table, every goto counting from 1.
pub open spec fn table_ok(keys: Seq<(KeySpec, Binding)>) -> bool {
    keys_unique(keys) && all_listed(keys) && all_count_from_one(keys)
}

proof fn lemma_insert_ok(st: KeyState, key: KeySpec, action: Seq<char>, sticky: Option<bool>, origin: Seq<char>)
    requires
        table_ok(st.0),
    ensures
        table_ok(spec_insert(st, key, action, sticky, origin).0),
{
    lemma_parsed_is_listed(action, key);
    law_parsed_counts_from_one(action, key);
    if let Ok(a) = spec_parse_action(action, key) {
        let b = Binding { action: a, sticky: match sticky { Some(x) => x, None => false } };
        law_bind_keeps_keys_unique(st.0, key, b);
        lemma_first_index(st.0, crate::keymap::keyed(key));
    }
}

proof fn lemma_unbind_ok(keys: Seq<(KeySpec, Binding)>, key: KeySpec)
    requires
        table_ok(keys),
    ensures
        table_ok(spec_unbind(keys, key)),
{
    law_unbind_keeps_keys_unique(keys, key);
    let f = spec_unbind(keys, key);
    assert forall|i: int| 0 <= i < f.len() implies is_listed(#[trigger] f[i].1.action) && counts_from_one(
        f[i].1.action,
    ) by {
        assert(f.contains(f[i]));
        keys.lemma_filter_contains_rev(crate::keymap::unkeyed(key), f[i]);
    }
}

/// Building a mode's keys from the exits and a config's bindings always
/// yields a table in which every key appears once and every action is one of
/// the table's, whatever the file says: a typo costs a binding, never the
/// table.
pub proof fn law_built_tables_are_sound(name: Seq<char>, cfg: Option<ModeConfig>, warnings: Seq<Seq<char>>)
    ensures
        table_ok(spec_mode(name, cfg, warnings).0.2),
{
    let start: KeyState = (Seq::empty(), warnings);
    lemma_defaults_ok(start, exit_pairs());
    let defaults = match cfg { Some(c) => c.defaults, None => true };
    let with_exits = if defaults { spec_defaults(start, exit_pairs()) } else { start };
    if let Some(c) = cfg {
        lemma_entries_ok(with_exits, name, sorted_entries(entries_of(c.keys@)));
    }
}

proof fn lemma_defaults_ok(st: KeyState, exits: Seq<(Seq<char>, Seq<char>)>)
    requires
        table_ok(st.0),
    ensures
        table_ok(spec_defaults(st, exits).0),
    decreases exits.len(),
{
    if exits.len() > 0 {
        lemma_defaults_ok(st, exits.drop_last());
        let s = spec_defaults(st, exits.drop_last());
        if let Ok(key) = spec_parse_key(exits.last().0) {
            lemma_insert_ok(s, key, exits.last().1, None, "default"@);
        }
    }
}

proof fn lemma_entries_ok(st: KeyState, origin: Seq<char>, es: Seq<Entry>)
    requires
        table_ok(st.0),
    ensures
        table_ok(spec_entries(st, origin, es).0),
    decreases es.len(),
{
    if es.len() > 0 {
        lemma_entries_ok(st, origin, es.drop_last());
        let s = spec_entries(st, origin, es.drop_last());
        let e = es.last();
        if let Ok(key) = spec_parse_key(e.0) {
            if e.1.0.len() == 0 {
                lemma_unbind_ok(s.0, key);
            } else {
                lemma_insert_ok(s, key, e.1.0, e.1.1, origin);
            }
        }
    }
}


/// Sorted bindings read as characters.
pub open spec fn entry_views(v: Seq<(String, String, Option<bool>)>) -> Seq<Entry> {
    v.map_values(|e: (String, String, Option<bool>)| (e.0@, (e.1@, e.2)))
}

/// Parse a config key, or note why it did not parse.
fn parse_key(key: &str, origin: &str, warnings: &mut Vec<String>) -> (r: Option<KeySpec>)
    ensures
        match spec_parse_key(key@) {
            Ok(k) => r == Some(k) && texts(final(warnings)@) == texts(old(warnings)@),
            Err(m) => r is None && texts(final(warnings)@) == texts(old(warnings)@).push(
                key_warning(origin@, m),
            ),
        },
{
    match KeySpec::parse(key) {
        Ok(s) => Some(s),
        Err(e) => {
            let mut w = joined("[", origin);
            w.append("] ");
            w.append(e.as_str());
            let ghost before = warnings@;
            warnings.push(w);
            assert(texts(warnings@) =~= texts(before).push(w@));
            None
        },
    }
}

/// Bind `spec` to the action `action` names, or note why it does not parse.
fn insert(
    mode: &mut Mode,
    spec: KeySpec,
    action: &str,
    sticky: Option<bool>,
    warnings: &mut Vec<String>,
    origin: &str,
)
    ensures
        (final(mode).keys@, texts(final(warnings)@)) == spec_insert(
            (old(mode).keys@, texts(old(warnings)@)),
            spec,
            action@,
            sticky,
            origin@,
        ),
        final(mode).label == old(mode).label,
        final(mode).hint == old(mode).hint,
{
    match Action::parse(action, &spec) {
        Ok(a) => {
            // Nothing is sticky unless the binding asks for it: one keystroke,
            // then the mode closes.
            let sticky = match sticky {
                Some(b) => b,
                None => false,
            };
            mode.bind(spec, Binding { action: a, sticky });
        },
        Err(e) => {
            let mut w = joined("[", origin);
            w.append("] key `");
            w.append(spec.to_text().as_str());
            w.append("`: ");
            w.append(e.as_str());
            let ghost before = warnings@;
            warnings.push(w);
            assert(texts(warnings@) =~= texts(before).push(w@));
        },
    }
}

/// The built-in exits, bound in order.
fn bind_exits(mode: &mut Mode, warnings: &mut Vec<String>)
    ensures
        (final(mode).keys@, texts(final(warnings)@)) == spec_defaults(
            (old(mode).keys@, texts(old(warnings)@)),
            exit_pairs(),
        ),
        final(mode).label == old(mode).label,
        final(mode).hint == old(mode).hint,
{
    let exits = shared_exits();
    let ghost start: KeyState = (mode.keys@, texts(warnings@));
    let ghost pairs = exit_pairs();
    let mut i: usize = 0;
    while i < exits.len()
        invariant
            exits@ == spec_shared_exits(),
            pairs == exit_pairs(),
            pairs.len() == exits@.len(),
            i <= exits@.len(),
            (mode.keys@, texts(warnings@)) == spec_defaults(start, pairs.take(i as int)),
            mode.label == old(mode).label,
            mode.hint == old(mode).hint,
        decreases exits.len() - i,
    {
        proof {
            assert(pairs.take(i + 1).drop_last() =~= pairs.take(i as int));
            assert(pairs[i as int] == (exits@[i as int].0@, exits@[i as int].1@));
        }
        let (key, action) = exits[i];
        if let Some(spec) = parse_key(key, "default", warnings) {
            insert(mode, spec, action, None, warnings, "default");
        }
        i = i + 1;
    }
    proof {
        assert(pairs.take(pairs.len() as int) =~= pairs);
    }
}

/// A mode table's bindings, sorted by key.
fn sorted_bindings(keys: &Vec<(String, BindingConfig)>) -> (r: Vec<(String, String, Option<bool>)>)
    ensures
        entry_views(r@) == sorted_entries(entries_of(keys@)),
{
    let ghost es = entries_of(keys@);
    let mut out: Vec<(String, String, Option<bool>)> = Vec::new();
    let mut i: usize = 0;
    while i < keys.len()
        invariant
            es == entries_of(keys@),
            i <= keys@.len(),
            entry_views(out@) == sorted_entries(es.take(i as int)),
        decreases keys.len() - i,
    {
        proof {
            assert(es.take(i + 1).drop_last() =~= es.take(i as int));
        }
        let (action, sticky) = match &keys[i].1 {
            BindingConfig::Action(a) => (owned(a.as_str()), None),
            BindingConfig::Full { action, sticky } => (owned(action.as_str()), *sticky),
        };
        let key = owned(keys[i].0.as_str());
        let ghost x: Entry = (key@, (action@, sticky));
        assert(x == es[i as int]);
        let ghost before = entry_views(out@);
        let mut j: usize = 0;
        let mut at: Option<usize> = None;
        while j < out.len()
            invariant_except_break
                at is None,
            invariant
                j <= out@.len(),
                x.0 == key@,
                before == entry_views(out@),
                forall|t: int| 0 <= t < j ==> !(later_entry(x.0))(#[trigger] before[t]),
            ensures
                at matches Some(f) ==> f < out@.len() && first_index(before, later_entry(x.0))
                    == Some(f as int),
                at is None ==> forall|t: int|
                    0 <= t < before.len() ==> !(later_entry(x.0))(#[trigger] before[t]),
            decreases out.len() - j,
        {
            if text_less(key.as_str(), out[j].0.as_str()) {
                proof {
                    lemma_first_index_is(before, later_entry(x.0), j as int);
                }
                at = Some(j);
                break;
            }
            j = j + 1;
        }
        match at {
            Some(f) => {
                out.insert(f, (key, action, sticky));
                assert(entry_views(out@) =~= before.insert(f as int, x));
            },
            None => {
                proof {
                    lemma_first_index_none(before, later_entry(x.0));
                }
                out.push((key, action, sticky));
                assert(entry_views(out@) =~= before.push(x));
            },
        }
        i = i + 1;
    }
    proof {
        assert(es.take(es.len() as int) =~= es);
    }
    out
}

/// Whether `names` holds `name`.
fn has_name(names: &Vec<String>, name: &str) -> (r: bool)
    ensures
        r == texts(names@).contains(name@),
{
    let mut i: usize = 0;
    while i < names.len()
        invariant
            i <= names@.len(),
            forall|t: int| 0 <= t < i ==> names@[t]@ != name@,
        decreases names.len() - i,
    {
        if same_text(names[i].as_str(), name) {
            assert(texts(names@)[i as int] == name@);
            return true;
        }
        i = i + 1;
    }
    false
}

/// `name` added to the sorted `names` unless it is there.
fn add_name(names: &mut Vec<String>, name: &str)
    ensures
        texts(final(names)@) == name_insert(texts(old(names)@), name@),
{
    if has_name(names, name) {
        return;
    }
    let ghost before = texts(names@);
    let mut j: usize = 0;
    while j < names.len()
        invariant
            j <= names@.len(),
            before == texts(names@),
            before == texts(old(names)@),
            !before.contains(name@),
            forall|t: int| 0 <= t < j ==> !(later_name(name@))(#[trigger] before[t]),
        decreases names.len() - j,
    {
        if text_less(name, names[j].as_str()) {
            proof {
                lemma_first_index_is(before, later_name(name@), j as int);
            }
            names.insert(j, owned(name));
            assert(texts(names@) =~= before.insert(j as int, name@));
            return;
        }
        j = j + 1;
    }
    proof {
        lemma_first_index_none(before, later_name(name@));
    }
    names.push(owned(name));
    assert(texts(names@) =~= before.push(name@));
}

/// Every built-in mode, plus any the config names, sorted, each once.
fn mode_name_list(modes: &Vec<(String, ModeConfig)>) -> (r: Vec<String>)
    ensures
        texts(r@) == mode_list(modes@),
{
    let builtin = mode_names();
    let ghost all = spec_mode_names().map_values(|n: &'static str| n@) + modes@.map_values(
        |e: (String, ModeConfig)| e.0@,
    );
    let ghost nb = builtin@.len();
    let mut names: Vec<String> = Vec::new();
    let mut i: usize = 0;
    while i < builtin.len()
        invariant
            builtin@ == spec_mode_names(),
            nb == builtin@.len(),
            all == spec_mode_names().map_values(|n: &'static str| n@) + modes@.map_values(
                |e: (String, ModeConfig)| e.0@,
            ),
            i <= nb,
            texts(names@) == name_set(all.take(i as int)),
        decreases builtin.len() - i,
    {
        proof {
            assert(all.take(i + 1).drop_last() =~= all.take(i as int));
            assert(all[i as int] == builtin@[i as int]@);
        }
        add_name(&mut names, builtin[i]);
        i = i + 1;
    }
    let mut k: usize = 0;
    while k < modes.len()
        invariant
            nb == spec_mode_names().len(),
            all == spec_mode_names().map_values(|n: &'static str| n@) + modes@.map_values(
                |e: (String, ModeConfig)| e.0@,
            ),
            k <= modes@.len(),
            texts(names@) == name_set(all.take((nb + k) as int)),
        decreases modes.len() - k,
    {
        proof {
            assert(all.take((nb + k + 1) as int).drop_last() =~= all.take((nb + k) as int));
            assert(all[(nb + k) as int] == modes@[k as int].0@);
        }
        add_name(&mut names, modes[k].0.as_str());
        k = k + 1;
    }
    proof {
        assert(all.take((nb + modes@.len()) as int) =~= all);
    }
    names
}

/// The config's table for `name`, if it has one.
fn config_index(modes: &Vec<(String, ModeConfig)>, name: &str) -> (r: Option<usize>)
    ensures
        match r {
            Some(i) => i < modes@.len() && first_index(modes@, mode_named(name@)) == Some(i as int),
            None => first_index(modes@, mode_named(name@)) is None,
        },
{
    let mut i: usize = 0;
    while i < modes.len()
        invariant
            i <= modes@.len(),
            forall|t: int| 0 <= t < i ==> !(mode_named(name@))(#[trigger] modes@[t]),
        decreases modes.len() - i,
    {
        if same_text(modes[i].0.as_str(), name) {
            proof {
                lemma_first_index_is(modes@, mode_named(name@), i as int);
            }
            return Some(i);
        }
        i = i + 1;
    }
    proof {
        lemma_first_index_none(modes@, mode_named(name@));
    }
    None
}

/// Build the mode `name` from its table, if any.
fn build_mode(name: &str, cfg: Option<&ModeConfig>, warnings: &mut Vec<String>) -> (r: Mode)
    ensures
        (mode_view(r), texts(final(warnings)@)) == spec_mode(
            name@,
            match cfg {
                Some(c) => Some(*c),
                None => None,
            },
            texts(old(warnings)@),
        ),
{
    let label = match cfg {
        Some(c) => match &c.label {
            Some(l) => owned(l.as_str()),
            None => to_uppercase(name),
        },
        None => to_uppercase(name),
    };
    let hint = match cfg {
        Some(c) => match &c.hint {
            Some(h) => Some(owned(h.as_str())),
            None => None,
        },
        None => None,
    };
    let mut mode = Mode { label, hint, keys: Vec::new() };
    let defaults = match cfg {
        Some(c) => c.defaults,
        None => true,
    };
    // The shared exits are the only built-ins, and they can still be
    // rebound or unbound per mode.
    if defaults {
        bind_exits(&mut mode, warnings);
    }
    if let Some(c) = cfg {
        let sorted = sorted_bindings(&c.keys);
        let ghost es = entry_views(sorted@);
        let ghost start: KeyState = (mode.keys@, texts(warnings@));
        let ghost label_now = mode.label;
        let ghost hint_now = mode.hint;
        let mut i: usize = 0;
        while i < sorted.len()
            invariant
                es == entry_views(sorted@),
                i <= sorted@.len(),
                (mode.keys@, texts(warnings@)) == spec_entries(start, name@, es.take(i as int)),
                mode.label == label_now,
                mode.hint == hint_now,
            decreases sorted.len() - i,
        {
            proof {
                assert(es.take(i + 1).drop_last() =~= es.take(i as int));
            }
            let key = sorted[i].0.as_str();
            let action = sorted[i].1.as_str();
            let sticky = sorted[i].2;
            if let Some(spec) = parse_key(key, name, warnings) {
                // `key = ""` unbinds.
                if action.unicode_len() == 0 {
                    mode.unbind(spec);
                } else {
                    insert(&mut mode, spec, action, sticky, warnings, name);
                }
            }
            i = i + 1;
        }
        proof {
            assert(es.take(es.len() as int) =~= es);
        }
    }
    mode
}

/// Build every mode from one parsed config file, after the problems noted so
/// far. A typo degrades to "that one binding is ignored" rather than losing
/// the whole keymap.
pub fn build(file: File, warnings: Vec<String>) -> (r: Loaded)
    ensures
        ({
            let (accent, w1) = spec_ui(file.ui, texts(warnings@));
            let (built, w2) = spec_modes(mode_list(file.modes@), file.modes@, w1);
            &&& texts(r.warnings@) == w2
            &&& r.modes@.map_values(|e: (String, Mode)| (e.0@, mode_view(e.1))) == built
            &&& match accent {
                Some(c) => r.ui.accent == c,
                None => crossterm_color_named("magenta"@) == Some(r.ui.accent),
            }
        }),
        forall|i: int| 0 <= i < r.modes@.len() ==> table_ok(#[trigger] r.modes@[i].1.keys@),
{
    let mut warnings = warnings;
    let ui = build_ui(&file.ui, &mut warnings);
    let ghost w1 = texts(warnings@);
    let names = mode_name_list(&file.modes);
    let ghost nv = texts(names@);
    let mut modes: Vec<(String, Mode)> = Vec::new();
    let mut i: usize = 0;
    while i < names.len()
        invariant
            nv == texts(names@),
            nv == mode_list(file.modes@),
            i <= names@.len(),
            (modes@.map_values(|e: (String, Mode)| (e.0@, mode_view(e.1))), texts(warnings@))
                == spec_modes(nv.take(i as int), file.modes@, w1),
            forall|t: int| 0 <= t < modes@.len() ==> table_ok(#[trigger] modes@[t].1.keys@),
        decreases names.len() - i,
    {
        proof {
            assert(nv.take(i + 1).drop_last() =~= nv.take(i as int));
            assert(nv.take(i + 1).last() == names@[i as int]@);
        }
        let name = names[i].as_str();
        let cfg = match config_index(&file.modes, name) {
            Some(k) => Some(&file.modes[k].1),
            None => None,
        };
        let ghost before = modes@.map_values(|e: (String, Mode)| (e.0@, mode_view(e.1)));
        let ghost w_before = texts(warnings@);
        let mode = build_mode(name, cfg, &mut warnings);
        proof {
            law_built_tables_are_sound(
                name@,
                config_for(file.modes@, name@),
                w_before,
            );
        }
        modes.push((owned(name), mode));
        proof {
            assert(modes@.map_values(|e: (String, Mode)| (e.0@, mode_view(e.1))) =~= before.push(
                (name@, mode_view(mode)),
            ));
        }
        i = i + 1;
    }
    proof {
        assert(nv.take(nv.len() as int) =~= nv);
    }
    Loaded { modes, ui, warnings }
}

/// A bad colour is a warning, not an error: the popup opens in the default
/// accent and the feedback row says why.
fn build_ui(cfg: &UiConfig, warnings: &mut Vec<String>) -> (r: Ui)
    ensures
        ({
            let (accent, w) = spec_ui(*cfg, texts(old(warnings)@));
            &&& texts(final(warnings)@) == w
            &&& match accent {
                Some(c) => r.accent == c,
                None => crossterm_color_named("magenta"@) == Some(r.accent),
            }
        }),
{
    let mut ui = Ui::default();
    if let Some(raw) = &cfg.accent {
        match parse_color(raw.as_str()) {
            Ok(c) => ui.accent = c,
            Err(e) => {
                let w = joined("[ui] accent: ", e.as_str());
                let ghost before = warnings@;
                warnings.push(w);
                assert(texts(warnings@) =~= texts(before).push(w@));
            },
        }
    }
    ui
}

impl Loaded {
    /// The mode called `name`.
    pub fn mode(&self, name: &str) -> (r: Option<&Mode>)
        ensures
            r matches Some(m) ==> exists|i: int|
                0 <= i < self.modes@.len() && self.modes@[i].0@ == name@ && self.modes@[i].1 == *m,
            r is None ==> forall|i: int|
                0 <= i < self.modes@.len() ==> #[trigger] self.modes@[i].0@ != name@,
    {
        let mut i: usize = 0;
        while i < self.modes.len()
            invariant
                i <= self.modes@.len(),
                forall|t: int| 0 <= t < i ==> #[trigger] self.modes@[t].0@ != name@,
            decreases self.modes.len() - i,
        {
            if same_text(self.modes[i].0.as_str(), name) {
                return Some(&self.modes[i].1);
            }
            i = i + 1;
        }
        None
    }
}

} // verus!

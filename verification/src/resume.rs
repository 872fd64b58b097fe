//! Carrying a mode across a popup hop.
//!
//! A popup belongs to the tab it opened on: the client draws it and routes
//! keys to it only while that tab is the one on screen. Any action that
//! lands on another tab (or space) therefore strands the popup. The way
//! through is to let this popup die and have a fresh one open on the new tab:
//! the popup leaves a note, asks herdr to run the mode's own `open` action,
//! and exits; the action hands the note to the new popup.
//!
//! The state dir is per plugin, not per herdr session, so each session keeps
//! its note in a file named from a hash of its socket path. Two herdr
//! sessions hopping at once then never touch each other's note. Reading and
//! writing the file is the binary's business; what the note holds, where it
//! lives and when it has gone stale is decided here.
use crate::client::Error;
use crate::text::{owned, push_char};
use vstd::prelude::*;

verus! {

/// Env var the reopened popup reads its state from.
pub const ENV: &'static str = "HERDR_MODES_RESUME";

/// A note older than this many milliseconds belongs to a hop that never
/// completed; ignore it.
pub const FRESH_FOR_MS: u64 = 5000;

#[derive(Clone, Debug, PartialEq, Eq)]
pub struct Resume {
    pub mode: String,
    /// The herdr socket the note was written for, so an `open` under another
    /// herdr session never picks it up.
    pub socket: String,
    /// Set by `new`, so a note is never written unstamped.
    pub written_unix_ms: u64,
    pub prev_tab_id: Option<String>,
    pub prev_agent_id: Option<String>,
    pub prev_workspace_id: Option<String>,
    pub origin_workspace_id: String,
    pub origin_pane_id: String,
    /// Last feedback line, so the new popup does not come up blank.
    pub feedback: String,
}

#[verifier::external_type_specification]
#[verifier::external_body]
pub struct ExSystemTime(std::time::SystemTime);

/// `SystemTime::now`: the system clock's reading. Nothing is promised of it.
#[verifier::external_body]
fn system_now() -> (r: std::time::SystemTime) {
    std::time::SystemTime::now()
}

/// `SystemTime::duration_since(UNIX_EPOCH)`: how long after the epoch `t`
/// is, `None` for a time before it. Nothing is promised of the length.
#[verifier::external_body]
fn since_epoch(t: std::time::SystemTime) -> (r: Option<std::time::Duration>) {
    t.duration_since(std::time::UNIX_EPOCH).ok()
}

/// `Duration::as_millis`: the whole milliseconds in `d`. `Duration` is opaque
/// here, so nothing is stated of the count.
#[verifier::external_body]
fn whole_millis(d: std::time::Duration) -> (r: u128) {
    d.as_millis()
}

/// Milliseconds since the Unix epoch by the system clock, cut to 64 bits;
/// 0 for a clock set before the epoch. Nothing is promised of the value: it
/// is the time.
fn now_ms() -> u64 {
    match since_epoch(system_now()) {
        Some(d) => {
            let ms = whole_millis(d);
            #[verifier::truncate]
            (ms as u64)
        },
        None => 0,
    }
}

/// Whether a note written at `written` is still fresh at `now`. A clock that
/// went backwards counts as no time passed.
pub open spec fn spec_fresh(written: u64, now: u64) -> bool {
    (if now >= written { now - written } else { 0 }) < FRESH_FOR_MS
}

impl Resume {
    /// A note stamped with the current time, as `stamped` makes it with the
    /// clock's reading. `mode` is the entrypoint the
    /// `open` action will be asked for; the rest is what `Session::restore`
    /// picks back up.
    pub fn new(
        mode: &str,
        socket: &str,
        feedback: &str,
        prev_tab_id: Option<String>,
        prev_agent_id: Option<String>,
        prev_workspace_id: Option<String>,
        origin_workspace_id: String,
        origin_pane_id: String,
    ) -> (r: Resume)
        ensures
            r.mode@ == mode@,
            r.socket@ == socket@,
            r.feedback@ == feedback@,
            r.prev_tab_id == prev_tab_id,
            r.prev_agent_id == prev_agent_id,
            r.prev_workspace_id == prev_workspace_id,
            r.origin_workspace_id == origin_workspace_id,
            r.origin_pane_id == origin_pane_id,
    {
        let now = now_ms();
        Resume::stamped(
            mode,
            socket,
            feedback,
            prev_tab_id,
            prev_agent_id,
            prev_workspace_id,
            origin_workspace_id,
            origin_pane_id,
            now,
        )
    }

    /// A note stamped as written at `written_unix_ms`.
    pub fn stamped(
        mode: &str,
        socket: &str,
        feedback: &str,
        prev_tab_id: Option<String>,
        prev_agent_id: Option<String>,
        prev_workspace_id: Option<String>,
        origin_workspace_id: String,
        origin_pane_id: String,
        written_unix_ms: u64,
    ) -> (r: Resume)
        ensures
            r.mode@ == mode@,
            r.socket@ == socket@,
            r.feedback@ == feedback@,
            r.written_unix_ms == written_unix_ms,
            r.prev_tab_id == prev_tab_id,
            r.prev_agent_id == prev_agent_id,
            r.prev_workspace_id == prev_workspace_id,
            r.origin_workspace_id == origin_workspace_id,
            r.origin_pane_id == origin_pane_id,
    {
        Resume {
            mode: owned(mode),
            socket: owned(socket),
            written_unix_ms,
            prev_tab_id,
            prev_agent_id,
            prev_workspace_id,
            origin_workspace_id,
            origin_pane_id,
            feedback: owned(feedback),
        }
    }

    /// Whether the note is still fresh at `now_ms`.
    pub fn fresh_at(&self, now_ms: u64) -> (r: bool)
        ensures
            r == spec_fresh(self.written_unix_ms, now_ms),
    {
        now_ms.saturating_sub(self.written_unix_ms) < FRESH_FOR_MS
    }

    /// Whether the note is still fresh by the system clock.
    pub fn fresh(&self) -> (r: bool)
        ensures
            exists|now: u64| r == spec_fresh(self.written_unix_ms, now),
    {
        let now = now_ms();
        self.fresh_at(now)
    }
}

/// FNV-1a over `bytes`.
pub open spec fn spec_fnv1a(bytes: Seq<u8>) -> u64
    decreases bytes.len(),
{
    if bytes.len() == 0 {
        0xcbf2_9ce4_8422_2325
    } else {
        vstd::wrapping::u64_specs::wrapping_mul(
            spec_fnv1a(bytes.drop_last()) ^ (bytes.last() as u64),
            0x0100_0000_01b3,
        )
    }
}

/// FNV-1a over the bytes, so a socket path maps to the same file name
/// whichever build of the plugin wrote or reads it.
pub fn fnv1a(bytes: &[u8]) -> (r: u64)
    ensures
        r == spec_fnv1a(bytes@),
{
    let mut h: u64 = 0xcbf2_9ce4_8422_2325;
    let mut i: usize = 0;
    while i < bytes.len()
        invariant
            i <= bytes@.len(),
            h == spec_fnv1a(bytes@.take(i as int)),
        decreases bytes.len() - i,
    {
        proof {
            let t = bytes@.take(i + 1);
            assert(t.drop_last() =~= bytes@.take(i as int));
        }
        h = (h ^ (bytes[i] as u64)).wrapping_mul(0x0100_0000_01b3);
        i = i + 1;
    }
    proof {
        assert(bytes@.take(bytes@.len() as int) =~= bytes@);
    }
    h
}

/// The lowercase hex digit for `d < 16`.
pub open spec fn hex_char(d: nat) -> char {
    if d < 10 {
        ('0' as nat + d) as char
    } else {
        ('a' as nat + d - 10) as char
    }
}

/// The last `k` hex digits of `n`, zero-padded, most significant first.
pub open spec fn hex_digits(n: nat, k: nat) -> Seq<char>
    decreases k,
{
    if k == 0 {
        Seq::empty()
    } else {
        hex_digits(n / 16, (k - 1) as nat).push(hex_char(n % 16))
    }
}

/// `n` as sixteen lowercase hex digits, as `format!("{n:016x}")`.
pub fn hex16(n: u64) -> (r: String)
    ensures
        r@ == hex_digits(n as nat, 16),
{
    let mut digits: Vec<char> = Vec::new();
    let mut rest = n;
    let mut k: usize = 0;
    while k < 16
        invariant
            k <= 16,
            hex_digits(n as nat, 16) == hex_digits(rest as nat, (16 - k) as nat) + digits@.reverse(),
        decreases 16 - k,
    {
        let d = rest % 16;
        let c = if d < 10 {
            ((d as u32) + ('0' as u32)) as u8 as char
        } else {
            ((d as u32) - 10 + ('a' as u32)) as u8 as char
        };
        assert(c == hex_char(d as nat));
        let ghost before = digits@;
        digits.push(c);
        proof {
            assert(hex_digits(rest as nat, (16 - k) as nat) == hex_digits(
                (rest / 16) as nat,
                (16 - k - 1) as nat,
            ).push(c));
            assert(digits@.reverse() =~= seq![c] + before.reverse());
            assert(hex_digits(n as nat, 16) =~= hex_digits((rest / 16) as nat, (16 - k - 1) as nat)
                + digits@.reverse());
        }
        rest = rest / 16;
        k = k + 1;
    }
    assert(hex_digits(rest as nat, 0) =~= Seq::<char>::empty());
    assert(hex_digits(n as nat, 16) =~= digits@.reverse());
    let mut out = String::new();
    let mut j = digits.len();
    while j > 0
        invariant
            j <= digits@.len(),
            out@ == digits@.reverse().subrange(0, (digits@.len() - j) as int),
        decreases j,
    {
        j = j - 1;
        push_char(&mut out, digits[j]);
        assert(out@ =~= digits@.reverse().subrange(0, (digits@.len() - j) as int));
    }
    assert(out@ =~= digits@.reverse());
    out
}

/// The file a herdr session's note lives in: `resume-<hash>.json`, with the
/// FNV-1a hash of the socket path's UTF-8 bytes in sixteen hex digits.
pub open spec fn note_file_name(socket: Seq<char>) -> Seq<char> {
    "resume-"@ + hex_digits(spec_fnv1a(vstd::utf8::encode_utf8(socket)) as nat, 16) + ".json"@
}

/// `name` inside the directory `dir`, as `Path::join` puts a relative name
/// under a Unix directory: nothing is added to an empty directory or to one
/// that already ends in a separator.
pub open spec fn spec_join(dir: Seq<char>, name: Seq<char>) -> Seq<char> {
    if dir.len() == 0 {
        name
    } else if dir.last() == '/' {
        dir + name
    } else {
        dir.push('/') + name
    }
}

/// What a store holds for a session.
pub enum Stored {
    /// No note.
    Absent,
    /// Something that does not read back as a note.
    Garbled,
    /// A note.
    Note(Resume),
}

/// Where hop notes are kept: the plugin's state directory, in the binary;
/// anything that keeps a note per path, in a test.
pub trait NoteStore {
    /// Leave `note` where `store` says.
    fn write(&mut self, store: &Store, note: &Resume) -> Result<(), Error>;

    /// What is kept where `store` says.
    fn read(&mut self, store: &Store) -> Stored;

    /// Take away what is kept where `store` says, if anything.
    fn clear(&mut self, store: &Store);

    /// Whether anything is kept where `store` says.
    fn holds(&mut self, store: &Store) -> bool;
}

/// One request the library made of a note store, and what it answered.
pub ghost enum NoteCall {
    /// What was kept at `path`.
    Read { path: Seq<char>, stored: Stored },
    /// `note` left at `path`, and whether that worked.
    Write { path: Seq<char>, note: Resume, outcome: Result<(), Error> },
    /// Whatever was kept at `path` taken away.
    Clear { path: Seq<char> },
    /// Whether anything was kept at `path`.
    Holds { path: Seq<char>, held: bool },
}

/// A note store, with the record of every request the library made of it.
pub struct Notes<F> {
    pub files: F,
    asked: Ghost<Seq<NoteCall>>,
}

impl<F: NoteStore> Notes<F> {
    /// The requests made so far, oldest first.
    pub closed spec fn asked(&self) -> Seq<NoteCall> {
        self.asked@
    }

    /// `files`, with nothing asked of it yet.
    pub fn new(files: F) -> (r: Notes<F>)
        ensures
            r.asked() == Seq::<NoteCall>::empty(),
    {
        Notes { files, asked: Ghost(Seq::empty()) }
    }
}

/// What `pending` makes of what it found: the note to honour, if any, and
/// whether what was found is to be removed. A fresh note written for another
/// herdr session is left alone; a fresh one for this session is honoured
/// when it is for `mode`; anything else is removed.
pub open spec fn spec_verdict(stored: Stored, mode: Seq<char>, socket: Seq<char>, now: u64) -> (Option<Resume>, bool) {
    match stored {
        Stored::Absent => (None, false),
        Stored::Garbled => (None, true),
        Stored::Note(n) => if spec_fresh(n.written_unix_ms, now) && n.socket@ != socket {
            (None, false)
        } else if spec_fresh(n.written_unix_ms, now) && n.mode@ == mode {
            (Some(n), false)
        } else {
            (None, true)
        },
    }
}

/// An `open` under another herdr session neither picks up nor removes a
/// fresh note written for this one.
pub proof fn law_fresh_notes_stay_with_their_session(n: Resume, mode: Seq<char>, socket: Seq<char>, now: u64)
    requires
        spec_fresh(n.written_unix_ms, now),
        n.socket@ != socket,
    ensures
        spec_verdict(Stored::Note(n), mode, socket, now) == (None::<Resume>, false),
{
}

/// A note is honoured only when it is fresh, for the mode asked for, and
/// for this herdr session; an honoured note stays where it is.
pub proof fn law_honoured_notes_are_fresh_and_ours(stored: Stored, mode: Seq<char>, socket: Seq<char>, now: u64)
    ensures
        spec_verdict(stored, mode, socket, now).0 matches Some(n) ==> stored == Stored::Note(n)
            && spec_fresh(n.written_unix_ms, now) && n.mode@ == mode && n.socket@ == socket
            && !spec_verdict(stored, mode, socket, now).1,
{
}

/// Where this herdr session's note lives.
#[derive(Clone, Debug)]
pub struct Store {
    path: String,
    socket: String,
}

impl Store {
    /// The note's path.
    pub closed spec fn path_view(&self) -> Seq<char> {
        self.path@
    }

    /// The herdr socket the note is kept for.
    pub closed spec fn socket_view(&self) -> Seq<char> {
        self.socket@
    }

    /// The file name of the note for the herdr session at `socket`.
    pub fn file_name(socket: &str) -> (r: String)
        ensures
            r@ == note_file_name(socket@),
    {
        let hash = fnv1a(socket.as_bytes());
        let mut r = owned("resume-");
        r.append(hex16(hash).as_str());
        r.append(".json");
        r
    }

    /// The note under `dir` for the herdr session at `socket`.
    pub fn new(dir: &str, socket: &str) -> (r: Store)
        ensures
            r.path_view() == spec_join(dir@, note_file_name(socket@)),
            r.socket_view() == socket@,
    {
        let name = Store::file_name(socket);
        let n = dir.unicode_len();
        let path = if n == 0 {
            name
        } else {
            let mut p = owned(dir);
            if dir.get_char(n - 1) != '/' {
                push_char(&mut p, '/');
            }
            p.append(name.as_str());
            p
        };
        Store { path, socket: owned(socket) }
    }

    /// Where the note is kept.
    pub fn path(&self) -> (r: &str)
        ensures
            r@ == self.path_view(),
    {
        self.path.as_str()
    }

    /// The herdr socket the note is kept for.
    pub fn socket(&self) -> (r: &str)
        ensures
            r@ == self.socket_view(),
    {
        self.socket.as_str()
    }

    /// Whether a note read back from this store may be honoured by `open`
    /// for `mode` at `now_ms`: it is fresh, for this mode, and for this
    /// session. Anything else is removed rather than honoured, so a hop that
    /// never finished cannot haunt the next plain keypress.
    pub fn honours(&self, note: &Resume, mode: &str, now_ms: u64) -> (r: bool)
        ensures
            r == (spec_fresh(note.written_unix_ms, now_ms) && note.mode@ == mode@ && note.socket@
                == self.socket_view()),
    {
        note.fresh_at(now_ms) && crate::text::same_text(note.mode.as_str(), mode)
            && crate::text::same_text(note.socket.as_str(), self.socket.as_str())
    }

    /// What `pending` does with what the store holds at `now_ms`: honour a
    /// fresh note for this mode and session, leave another session's fresh
    /// note alone, and remove anything else it found, so a hop that never
    /// finished cannot haunt the next plain keypress.
    pub fn verdict(&self, stored: Stored, mode: &str, now_ms: u64) -> (r: (Option<Resume>, bool))
        ensures
            r == spec_verdict(stored, mode@, self.socket_view(), now_ms),
    {
        match stored {
            Stored::Absent => (None, false),
            Stored::Garbled => (None, true),
            Stored::Note(n) => {
                let fresh = n.fresh_at(now_ms);
                if fresh && !crate::text::same_text(n.socket.as_str(), self.socket.as_str()) {
                    (None, false)
                } else if self.honours(&n, mode, now_ms) {
                    (Some(n), false)
                } else {
                    (None, true)
                }
            },
        }
    }

    /// What `pending` asks of the store: the read that found `stored`, then
    /// the removal when the verdict at `now` says so.
    pub open spec fn pending_calls(&self, stored: Stored, mode: Seq<char>, now: u64) -> Seq<NoteCall> {
        seq![NoteCall::Read { path: self.path_view(), stored }] + if spec_verdict(
            stored,
            mode,
            self.socket_view(),
            now,
        ).1 {
            seq![NoteCall::Clear { path: self.path_view() }]
        } else {
            Seq::empty()
        }
    }

    /// The note waiting for `open` for `mode` at `now_ms`, if any. A stale,
    /// unreadable or other-mode note is removed rather than honoured, so a hop
    /// that never finished cannot haunt the next plain keypress; another
    /// session's fresh note is left for it, and an honoured note stays. What
    /// the store held comes from outside: whatever it was, the result is the
    /// verdict on it, and the note is removed exactly when that verdict says
    /// so.
    pub fn pending_at<F: NoteStore>(&self, notes: &mut Notes<F>, mode: &str, now_ms: u64) -> (r: Option<Resume>)
        ensures
            exists|stored: Stored|
                {
                    &&& final(notes).asked() == old(notes).asked() + self.pending_calls(stored, mode@, now_ms)
                    &&& r == spec_verdict(stored, mode@, self.socket_view(), now_ms).0
                },
    {
        let ghost before = notes.asked@;
        let stored = notes.files.read(self);
        proof {
            notes.asked@ = notes.asked@.push(NoteCall::Read { path: self.path_view(), stored });
        }
        let ghost seen = stored;
        let (note, remove) = self.verdict(stored, mode, now_ms);
        if remove {
            self.clear(notes);
        }
        assert(notes.asked() =~= before + self.pending_calls(seen, mode@, now_ms));
        note
    }

    /// `pending_at` by the system clock.
    pub fn pending<F: NoteStore>(&self, notes: &mut Notes<F>, mode: &str) -> (r: Option<Resume>)
        ensures
            exists|stored: Stored, now: u64|
                {
                    &&& final(notes).asked() == old(notes).asked() + self.pending_calls(stored, mode@, now)
                    &&& r == spec_verdict(stored, mode@, self.socket_view(), now).0
                },
            r matches Some(n) ==> n.mode@ == mode@ && n.socket@ == self.socket_view() && exists|now: u64|
                spec_fresh(n.written_unix_ms, now),
    {
        let now = now_ms();
        self.pending_at(notes, mode, now)
    }

    /// Whether the note is still kept: the popup deletes it to call a hop
    /// off after the action it was armed for failed.
    pub fn still_pending<F: NoteStore>(&self, notes: &mut Notes<F>) -> (r: bool)
        ensures
            final(notes).asked() == old(notes).asked().push(NoteCall::Holds { path: self.path_view(), held: r }),
    {
        let r = notes.files.holds(self);
        proof {
            notes.asked@ = notes.asked@.push(NoteCall::Holds { path: self.path_view(), held: r });
        }
        r
    }

    /// Remove the note.
    pub fn clear<F: NoteStore>(&self, notes: &mut Notes<F>)
        ensures
            final(notes).asked() == old(notes).asked().push(NoteCall::Clear { path: self.path_view() }),
    {
        notes.files.clear(self);
        proof {
            notes.asked@ = notes.asked@.push(NoteCall::Clear { path: self.path_view() });
        }
    }

    /// Leave the note for the `open` action.
    pub fn write<F: NoteStore>(&self, notes: &mut Notes<F>, note: &Resume) -> (r: Result<(), Error>)
        ensures
            final(notes).asked() == old(notes).asked().push(
                NoteCall::Write { path: self.path_view(), note: *note, outcome: r },
            ),
    {
        let r = notes.files.write(self, note);
        proof {
            notes.asked@ = notes.asked@.push(NoteCall::Write { path: self.path_view(), note: *note, outcome: r });
        }
        r
    }
}

} // verus!

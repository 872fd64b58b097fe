use herdr_modes::client::Error;
use herdr_modes::resume::{fnv1a, NoteStore, Notes, Resume, Store, Stored, FRESH_FOR_MS};

/// Notes kept in memory, one per path.
#[derive(Default)]
struct MemNotes {
    kept: Vec<(String, Option<Resume>)>,
}

impl MemNotes {
    fn garble(&mut self, store: &Store) {
        self.clear(store);
        self.kept.push((store.path().to_string(), None));
    }
}

impl NoteStore for MemNotes {
    fn write(&mut self, store: &Store, note: &Resume) -> Result<(), Error> {
        self.clear(store);
        self.kept.push((store.path().to_string(), Some(note.clone())));
        Ok(())
    }

    fn read(&mut self, store: &Store) -> Stored {
        match self.kept.iter().find(|(p, _)| p == store.path()) {
            Some((_, Some(n))) => Stored::Note(n.clone()),
            Some((_, None)) => Stored::Garbled,
            None => Stored::Absent,
        }
    }

    fn clear(&mut self, store: &Store) {
        self.kept.retain(|(p, _)| p != store.path());
    }

    fn holds(&mut self, store: &Store) -> bool {
        self.kept.iter().any(|(p, _)| p == store.path())
    }
}

const DIR: &str = "/tmp/herdr-modes-test";

fn note(mode: &str) -> Resume {
    Resume::new(mode, "/run/herdr/a.sock", "hello", Some("t0".into()), None, None, "w0".into(), "p0".into())
}

fn now_ms() -> u64 {
    std::time::SystemTime::now()
        .duration_since(std::time::UNIX_EPOCH)
        .map(|d| d.as_millis() as u64)
        .unwrap_or(0)
}

#[test]
fn pending_returns_a_fresh_note_for_this_mode() {
    let store = Store::new(DIR, "/run/herdr/a.sock");
    let mut files = Notes::new(MemNotes::default());
    let n = note("tab");
    store.write(&mut files, &n).unwrap();
    assert_eq!(store.pending(&mut files, "tab"), Some(n));
    assert!(store.still_pending(&mut files));
}

#[test]
fn pending_removes_a_stale_note() {
    let store = Store::new(DIR, "/run/herdr/a.sock");
    let mut files = Notes::new(MemNotes::default());
    let mut n = note("tab");
    n.written_unix_ms = now_ms() - FRESH_FOR_MS - 1;
    store.write(&mut files, &n).unwrap();
    assert_eq!(store.pending(&mut files, "tab"), None);
    assert!(!store.still_pending(&mut files));
}

#[test]
fn pending_removes_a_note_for_another_mode() {
    let store = Store::new(DIR, "/run/herdr/a.sock");
    let mut files = Notes::new(MemNotes::default());
    store.write(&mut files, &note("pane")).unwrap();
    assert_eq!(store.pending(&mut files, "tab"), None);
    assert!(!store.still_pending(&mut files));
}

#[test]
fn pending_removes_an_unreadable_note() {
    let store = Store::new(DIR, "/run/herdr/a.sock");
    let mut files = Notes::new(MemNotes::default());
    files.files.garble(&store);
    assert_eq!(store.pending(&mut files, "tab"), None);
    assert!(!store.still_pending(&mut files));
}

#[test]
fn clear_removes_the_note() {
    let store = Store::new(DIR, "/run/herdr/a.sock");
    let mut files = Notes::new(MemNotes::default());
    store.write(&mut files, &note("tab")).unwrap();
    store.clear(&mut files);
    assert!(!store.still_pending(&mut files));
    assert_eq!(store.pending(&mut files, "tab"), None);
}

/// The name has to come out the same from every build, or a popup and
/// the `open` it invokes could disagree about where the note is.
#[test]
fn the_file_name_is_a_fixed_hash_of_the_socket() {
    assert_eq!(fnv1a(b""), 0xcbf2_9ce4_8422_2325);
    assert_eq!(fnv1a(b"a"), 0xaf63_dc4c_8601_ec8c);
    let store = Store::new(DIR, "/run/herdr/a.sock");
    assert_eq!(store.path(), "/tmp/herdr-modes-test/resume-1efef9257105457d.json");
    assert_eq!(Store::file_name("/run/herdr/a.sock"), "resume-1efef9257105457d.json");
}

/// Two herdr sessions hopping close together each write a note before
/// either `open` has run. Neither may overwrite the other's.
#[test]
fn two_sessions_keep_their_notes_apart() {
    let a = Store::new(DIR, "/run/herdr/a.sock");
    let b = Store::new(DIR, "/run/herdr/b.sock");
    let mut files = Notes::new(MemNotes::default());
    let na = note("tab");
    let nb = Resume {
        feedback: "from b".into(),
        socket: "/run/herdr/b.sock".into(),
        ..note("space")
    };
    a.write(&mut files, &na).unwrap();
    b.write(&mut files, &nb).unwrap();

    assert!(a.still_pending(&mut files));
    assert_eq!(a.pending(&mut files, "tab"), Some(na));
    a.clear(&mut files);

    assert!(b.still_pending(&mut files));
    assert_eq!(b.pending(&mut files, "space"), Some(nb));
}

/// What `open` does on a plain keypress in session A while session B's
/// hop is in flight: find no note of its own, open its popup, clear.
/// B's note has to survive that, or B's `open` finds nothing to reopen.
#[test]
fn a_plain_open_in_another_session_keeps_the_note() {
    let mine = Store::new(DIR, "/run/herdr/a.sock");
    let theirs = Store::new(DIR, "/run/herdr/b.sock");
    let mut files = Notes::new(MemNotes::default());
    let n = Resume { socket: "/run/herdr/b.sock".into(), ..note("tab") };
    theirs.write(&mut files, &n).unwrap();

    assert_eq!(mine.pending(&mut files, "tab"), None);
    mine.clear(&mut files);

    assert!(theirs.still_pending(&mut files));
    assert_eq!(theirs.pending(&mut files, "tab"), Some(n));
}

// Beyond the scenarios above.

#[test]
fn a_note_for_another_session_is_not_honoured() {
    let store = Store::new(DIR, "/run/herdr/a.sock");
    let stray = Resume { socket: "/run/herdr/b.sock".into(), ..note("tab") };
    assert!(!store.honours(&stray, "tab", now_ms()));
    assert!(store.honours(&note("tab"), "tab", now_ms()));
}

#[test]
fn freshness_ends_at_the_limit_and_survives_a_clock_going_back() {
    let mut n = note("tab");
    n.written_unix_ms = 10_000;
    assert!(n.fresh_at(10_000 + FRESH_FOR_MS - 1));
    assert!(!n.fresh_at(10_000 + FRESH_FOR_MS));
    assert!(n.fresh_at(5));
    assert!(note("tab").fresh());
}

#[test]
fn another_sessions_fresh_note_is_left_alone() {
    let store = Store::new(DIR, "/run/herdr/a.sock");
    let mut files = Notes::new(MemNotes::default());
    let stray = Resume { socket: "/run/herdr/b.sock".into(), ..note("tab") };
    store.write(&mut files, &stray).unwrap();
    assert_eq!(store.pending(&mut files, "tab"), None);
    assert!(store.still_pending(&mut files));
}

#[test]
fn verdict_keeps_absent_and_removes_garbage() {
    let store = Store::new(DIR, "/run/herdr/a.sock");
    assert_eq!(store.verdict(Stored::Absent, "tab", 0), (None, false));
    assert_eq!(store.verdict(Stored::Garbled, "tab", 0), (None, true));
}

#[test]
fn a_store_under_a_bare_dir_joins_with_a_slash() {
    assert_eq!(Store::new("/tmp/x/", "s").path(), format!("/tmp/x/{}", Store::file_name("s")));
    assert_eq!(Store::new("", "s").path(), Store::file_name("s"));
    assert_eq!(Store::new("/run/a.sock", "/run/a.sock").socket(), "/run/a.sock");
}

#[test]
fn pending_at_judges_by_the_time_it_is_given() {
    let store = Store::new(DIR, "/run/herdr/a.sock");
    let mut files = Notes::new(MemNotes::default());
    let n = Resume::stamped("tab", "/run/herdr/a.sock", "hi", None, None, None, "w0".into(), "p0".into(), 10_000);
    store.write(&mut files, &n).unwrap();
    assert_eq!(store.pending_at(&mut files, "tab", 10_000 + FRESH_FOR_MS - 1), Some(n.clone()));
    assert!(store.still_pending(&mut files));
    assert_eq!(store.pending_at(&mut files, "tab", 10_000 + FRESH_FOR_MS), None);
    assert!(!store.still_pending(&mut files));
}

#[test]
fn another_sessions_stale_note_is_removed() {
    let store = Store::new(DIR, "/run/herdr/a.sock");
    let mut files = Notes::new(MemNotes::default());
    let n = Resume::stamped("tab", "/run/herdr/b.sock", "", None, None, None, "w0".into(), "p0".into(), 10_000);
    files.files.write(&store, &n).unwrap();
    assert_eq!(store.pending_at(&mut files, "tab", 10_000 + FRESH_FOR_MS), None);
    assert!(!store.still_pending(&mut files));
}

#[test]
fn stamped_keeps_what_it_is_given() {
    let n = Resume::stamped("tab", "/s", "fb", Some("t0".into()), Some("a0".into()), None, "w0".into(), "p0".into(), 42);
    assert_eq!(n.written_unix_ms, 42);
    assert_eq!(n.mode, "tab");
    assert_eq!(n.socket, "/s");
    assert_eq!(n.feedback, "fb");
    assert_eq!(n.prev_tab_id.as_deref(), Some("t0"));
    assert_eq!(n.prev_agent_id.as_deref(), Some("a0"));
    assert_eq!(n.prev_workspace_id, None);
    assert_eq!(n.origin_workspace_id, "w0");
    assert_eq!(n.origin_pane_id, "p0");
}

//! One key through a mode: which binding it hit, what the action did, and
//! whether the popup stays, exits, or hops. The terminal is not touched here;
//! the binary renders what comes back and reads the next key.
use crate::client::{Api, Error};
use crate::keymap::{
    all_count_from_one, all_listed, counts_from_one, is_listed, keyed, row_of, spec_from_event,
    spec_lookup, Action, Binding, KeyEvent, KeySpec, Mode,
};
use crate::config::table_ok;
use crate::modes::Session;
use crate::resume::{NoteStore, Resume};
use crate::script::{
    invoked, lemma_arm_keeps, lemma_invoked_within, lemma_quiet_keeps, lemma_quiet_keeps_none, note_kept,
    lemma_cleared_keeps_none, quiet, dot, replay_arm_hop, replay_execute, replay_refresh, replay_will_close, Effect, Memo};
use crate::search::{first_index, lemma_first_index};
use crate::text::{decimal, decimal_text, joined, owned, same_text};
use vstd::prelude::*;

verus! {

/// What the popup shows before the first key. A config problem wins over
/// whatever the popup this one replaced was showing, since it is the only
/// place the problem will actually be seen.
pub open spec fn spec_opening_feedback(warnings: Seq<Seq<char>>, resumed: Option<Seq<char>>) -> Seq<
    char,
> {
    if warnings.len() == 0 {
        match resumed {
            Some(f) => f,
            None => Seq::empty(),
        }
    } else if warnings.len() == 1 {
        "config: "@ + warnings[0]
    } else {
        "config: "@ + warnings[0] + " ("@ + decimal((warnings.len() - 1) as nat) + " more)"@
    }
}

/// What the popup shows before the first key.
pub fn opening_feedback(warnings: &[String], resumed: Option<&Resume>) -> (r: String)
    ensures
        r@ == spec_opening_feedback(
            warnings@.map_values(|w: String| w@),
            match resumed {
                Some(n) => Some(n.feedback@),
                None => None,
            },
        ),
{
    let n = warnings.len();
    if n == 0 {
        return match resumed {
            Some(note) => owned(note.feedback.as_str()),
            None => String::new(),
        };
    }
    let mut r = joined("config: ", warnings[0].as_str());
    if n > 1 {
        r.append(" (");
        r.append(decimal_text((n - 1) as u64).as_str());
        r.append(" more)");
    }
    r
}

/// What the popup does after a key.
#[derive(Debug, PartialEq, Eq)]
pub enum Outcome {
    /// Stay up and show this on the feedback row.
    Continue(String),
    /// Close.
    Exit,
    /// Close; a hop is armed and the mode's `open` action is waiting for
    /// this popup to be gone.
    Hop,
}

/// An outcome as the contracts speak of it.
pub ghost enum Said {
    Continue(Seq<char>),
    Exit,
    Hop,
}

/// What `o` says.
pub open spec fn said(o: Outcome) -> Said {
    match o {
        Outcome::Continue(s) => Said::Continue(s@),
        Outcome::Exit => Said::Exit,
        Outcome::Hop => Said::Hop,
    }
}

/// An error as a feedback line.
pub open spec fn error_line(e: Error) -> Seq<char> {
    "error: "@ + e.text()
}

/// What the popup says of a key that is bound to nothing.
pub open spec fn unbound_line(key: KeyEvent) -> Seq<char> {
    match spec_from_event(key) {
        Some(s) => "unbound: "@ + s.text(),
        None => "unbound"@,
    }
}

/// Everything a step reads before it does anything.
pub ghost struct StepCtx {
    /// Focus as the session knows it.
    pub m: Memo,
    /// This plugin's id, which a hop invokes.
    pub plugin: Seq<char>,
    /// The herdr socket the hop note is kept for.
    pub socket: Seq<char>,
    /// The mode's name, the `open` action a hop asks for.
    pub mode: Seq<char>,
    /// The tab the popup belongs to.
    pub owner: Seq<char>,
    /// What the key is bound to.
    pub binding: Option<Binding>,
    /// The key.
    pub key: KeyEvent,
    /// The feedback line on screen as the key arrives.
    pub shown: Seq<char>,
}

/// After the action ran with no hop armed before it: a non-sticky binding
/// and `cancel` close the popup; an action that may have left the tab reads
/// focus back, and hands over to a fresh popup if it did.
pub open spec fn after_action(
    c: StepCtx,
    b: Binding,
    m: Memo,
    x: Result<Seq<char>, Error>,
    es: Seq<Effect>,
    end: Memo,
    out: Said,
) -> bool {
    let feedback = match x {
        Ok(msg) => msg,
        Err(e) => error_line(e),
    };
    if b.action is Cancel || !b.sticky {
        es.len() == 0 && end == m && out == Said::Exit
    } else if row_of(b.action).leaves_tab {
        1 <= es.len() && match replay_refresh(m, es.take(1)) {
            Some((m2, rr)) => if rr is Ok && m2.tab != c.owner {
                match replay_arm_hop(m2, c.plugin, c.socket, c.mode, feedback, es.skip(1)) {
                    Some((m3, h)) => end == m3 && out == match h {
                        Ok(()) => Said::Hop,
                        Err(e) => Said::Continue(feedback + dot() + "hop failed: "@ + e.text()),
                    },
                    None => false,
                }
            } else {
                es.len() == 1 && end == m2 && out == Said::Continue(feedback)
            },
            None => false,
        }
    } else {
        es.len() == 0 && end == m && out == Said::Continue(feedback)
    }
}

/// The action run on focus `m` with no hop armed, `k` effects long, then
/// what follows it.
pub open spec fn ran_then(c: StepCtx, b: Binding, m: Memo, es: Seq<Effect>, k: int, end: Memo, out: Said) -> bool {
    0 <= k <= es.len() && match replay_execute(m, b.action, es.take(k)) {
        Some((m2, x)) => after_action(c, b, m2, x, es.skip(k), end, out),
        None => false,
    }
}

/// The action run on focus `m` after a hop was armed, `k` effects long: on
/// success the popup is gone; on failure the note is taken back.
pub open spec fn armed_ran(b: Binding, m: Memo, es: Seq<Effect>, k: int, end: Memo, out: Said) -> bool {
    0 <= k <= es.len() && match replay_execute(m, b.action, es.take(k)) {
        Some((m2, Ok(_))) => es.len() == k && end == m2 && out == Said::Hop,
        Some((m2, Err(e))) => es.skip(k) == seq![Effect::Clear] && end == m2 && out == Said::Continue(
            error_line(e),
        ),
        None => false,
    }
}

/// A hop armed on focus `m`, `k` effects long, then the action.
pub open spec fn armed_then(c: StepCtx, b: Binding, m: Memo, es: Seq<Effect>, k: int, end: Memo, out: Said) -> bool {
    0 <= k <= es.len() && match replay_arm_hop(m, c.plugin, c.socket, c.mode, c.shown, es.take(k)) {
        Some((m2, Err(e))) => es.len() == k && end == m2 && out == Said::Continue("hop failed: "@ + e.text()),
        Some((m2, Ok(()))) => exists|j: int| #[trigger] armed_ran(b, m2, es.skip(k), j, end, out),
        None => false,
    }
}

/// How many requests deciding whether an action takes the owner tab away
/// makes: closing a pane has to count the tab's panes.
pub open spec fn will_len(a: Action) -> int {
    if a is ClosePane {
        1
    } else {
        0
    }
}

/// One key through a mode: `es` is what the session did, `end` where focus
/// ended up and `out` what the popup does next.
pub open spec fn stepped(c: StepCtx, es: Seq<Effect>, end: Memo, out: Said) -> bool {
    match c.binding {
        None => es.len() == 0 && end == c.m && out == Said::Continue(unbound_line(c.key)),
        Some(b) => if b.action is Quit {
            es.len() == 0 && end == c.m && out == Said::Exit
        } else {
            // Taking the owner tab away closes the popup before the request
            // even returns, so the hop has to be armed beforehand.
            let w = will_len(b.action);
            w <= es.len() && match replay_will_close(c.m, b.action, es.take(w)) {
                Some((m1, Err(e))) => es.len() == w && end == m1 && out == Said::Continue(error_line(e)),
                Some((m1, Ok(true))) => exists|k: int| #[trigger] armed_then(c, b, m1, es.skip(w), k, end, out),
                Some((m1, Ok(false))) => exists|k: int| #[trigger] ran_then(c, b, m1, es.skip(w), k, end, out),
                None => false,
            }
        },
    }
}

/// `exit` keeps wherever you landed: it closes the popup without a request.
pub proof fn law_exit_touches_nothing(c: StepCtx, es: Seq<Effect>, end: Memo, out: Said)
    requires
        c.binding matches Some(b) && b.action is Quit,
        stepped(c, es, end, out),
    ensures
        es.len() == 0,
        end == c.m,
        out == Said::Exit,
{
}

/// A key bound to nothing only names itself.
pub proof fn law_unbound_touches_nothing(c: StepCtx, es: Seq<Effect>, end: Memo, out: Said)
    requires
        c.binding is None,
        stepped(c, es, end, out),
    ensures
        es.len() == 0,
        end == c.m,
        out == Said::Continue(unbound_line(c.key)),
{
}

/// `cancel` always closes the popup, sticky or not, whatever the requests
/// that put focus back answered.
pub proof fn law_cancel_closes(c: StepCtx, es: Seq<Effect>, end: Memo, out: Said)
    requires
        c.binding matches Some(b) && b.action is Cancel,
        stepped(c, es, end, out),
    ensures
        out == Said::Exit,
{
    let b = c.binding->0;
    assert(will_len(b.action) == 0);
    assert(es.take(0) =~= Seq::<Effect>::empty());
    assert(es.skip(0) =~= es);
    let k = choose|k: int| #[trigger] ran_then(c, b, c.m, es, k, end, out);
    assert(ran_then(c, b, c.m, es, k, end, out));
}

/// Closing the popup's own tab closes the popup mid-request, so the hop is
/// armed first: the first thing such a step does is leave the note.
pub proof fn law_close_tab_arms_first(c: StepCtx, es: Seq<Effect>, end: Memo, out: Said)
    requires
        c.binding matches Some(b) && b.action is CloseTab,
        stepped(c, es, end, out),
    ensures
        0 < es.len(),
        es[0] is Write,
{
    let b = c.binding->0;
    assert(es.take(0) =~= Seq::<Effect>::empty());
    assert(es.skip(0) =~= es);
    let k = choose|k: int| #[trigger] armed_then(c, b, c.m, es, k, end, out);
    assert(armed_then(c, b, c.m, es, k, end, out));
    assert(es.take(k)[0] == es[0]);
}

/// Whether a step can take `binding`: `exit`, or an action a session can
/// run, which for a sticky action other than `cancel` must also be in the
/// action table, since whether it may leave the tab is read from there.
pub open spec fn steppable(binding: Option<Binding>) -> bool {
    match binding {
        None => true,
        Some(b) => b.action is Quit || (counts_from_one(b.action) && (b.sticky && !(b.action is Cancel)
            ==> is_listed(b.action))),
    }
}

/// Every key of a mode built from a config can be stepped: its table has
/// only listed actions and gotos counting from 1.
pub proof fn law_built_modes_step(keys: Seq<(KeySpec, Binding)>, spec: KeySpec)
    requires
        table_ok(keys),
    ensures
        steppable(spec_lookup(keys, spec)),
{
    lemma_first_index(keys, keyed(spec));
    if let Some(i) = first_index(keys, keyed(spec)) {
        assert(is_listed(keys[i].1.action));
        assert(counts_from_one(keys[i].1.action));
    }
}

/// A session driven by keys from one mode's keymap.
pub struct Driver<'m, A: Api, F: NoteStore> {
    pub session: Session<A, F>,
    mode_name: &'m str,
    mode: &'m Mode,
    /// The tab this popup belongs to. herdr draws the popup and routes keys
    /// to it only while this tab is the one on screen, so leaving it means
    /// a hop.
    owner_tab_id: String,
}

impl<'m, A: Api, F: NoteStore> Driver<'m, A, F> {
    /// The session the keys drive.
    pub closed spec fn driven(&self) -> Session<A, F> {
        self.session
    }

    /// The mode's name.
    pub closed spec fn name(&self) -> Seq<char> {
        self.mode_name@
    }

    /// The mode's key table.
    pub closed spec fn keys(&self) -> Seq<(KeySpec, Binding)> {
        self.mode.keys@
    }

    /// The tab the popup belongs to.
    pub closed spec fn owner(&self) -> Seq<char> {
        self.owner_tab_id@
    }

    /// What a step on `key` with `shown` on screen starts from.
    pub open spec fn ctx(&self, key: KeyEvent, shown: Seq<char>) -> StepCtx {
        StepCtx {
            m: self.driven().memo(),
            plugin: self.driven().plugin(),
            socket: self.driven().note_store().socket_view(),
            mode: self.name(),
            owner: self.owner(),
            binding: match spec_from_event(key) {
                Some(spec) => spec_lookup(self.keys(), spec),
                None => None,
            },
            key,
            shown,
        }
    }

    /// The session must already know the server's focus (see
    /// `Session::refresh`): the tab it reports now is the popup's owner.
    pub fn new(session: Session<A, F>, mode_name: &'m str, mode: &'m Mode) -> (r: Self)
        ensures
            r.driven() == session,
            r.name() == mode_name@,
            r.keys() == mode.keys@,
            r.owner() == session.memo().tab,
    {
        Driver { owner_tab_id: owned(session.tab()), session, mode_name, mode }
    }

    /// Run whatever `key` is bound to. `shown` is the feedback line on screen
    /// as the key arrives; an action that closes the popup mid-request has
    /// no chance to report, so that line is what the hop carries over.
    /// `prompt` is asked for a line when the action needs one; `None` from
    /// it cancels the action.
    #[verifier::rlimit(100)]
    #[verifier::spinoff_prover]
    pub fn step<P: FnOnce(&str) -> Option<String>>(&mut self, key: &KeyEvent, shown: &str, prompt: P) -> (r: Outcome)
        requires
            steppable(old(self).ctx(*key, shown@).binding),
            forall|s: &str| call_requires(prompt, (s,)),
        ensures
            final(self).name() == old(self).name(),
            final(self).keys() == old(self).keys(),
            final(self).owner() == old(self).owner(),
            final(self).driven().follows(&old(self).driven()),
            stepped(
                old(self).ctx(*key, shown@),
                final(self).driven().since(&old(self).driven()),
                final(self).driven().memo(),
                said(r),
            ),
            said(r) == Said::Hop <==> note_kept(final(self).driven().since(&old(self).driven())),
            said(r) == Said::Hop ==> invoked(
                final(self).driven().since(&old(self).driven()),
                old(self).driven().plugin(),
                old(self).name(),
            ),
    {
        let ghost s0 = self.session;
        let ghost c = self.ctx(*key, shown@);
        let binding = match self.mode.lookup(key) {
            Some(b) => b,
            None => {
                let line = match KeySpec::from_event(key) {
                    Some(s) => joined("unbound: ", s.to_text().as_str()),
                    None => owned("unbound"),
                };
                proof {
                    Session::lemma_same(&self.session, &s0);
                    lemma_quiet_keeps_none(self.session.since(&s0));
                }
                return Outcome::Continue(line);
            },
        };
        let ghost w = will_len(binding.action);
        if let Action::Quit = binding.action {
            proof {
                Session::lemma_same(&self.session, &s0);
                lemma_quiet_keeps_none(self.session.since(&s0));
            }
            return Outcome::Exit;
        }
        let closes = self.session.will_close_owner_tab(binding.action);
        let ghost s1 = self.session;
        proof {
            assert(s1.since(&s0).len() == w);
        }
        let armed = match closes {
            Ok(false) => false,
            Ok(true) => {
                let hop = self.session.arm_hop(self.mode_name, shown);
                let ghost s2 = self.session;
                proof {
                    Session::lemma_split(&s2, &s1, &s0);
                }
                match hop {
                    Ok(()) => true,
                    Err(e) => {
                        proof {
                            let es = s2.since(&s0);
                            assert(es.take(w) == s1.since(&s0));
                            assert(es.skip(w).take(s2.since(&s1).len() as int) =~= s2.since(&s1));
                            assert(armed_then(
                                c,
                                binding,
                                s1.memo(),
                                es.skip(w),
                                s2.since(&s1).len() as int,
                                s2.memo(),
                                Said::Continue("hop failed: "@ + e.text()),
                            ));
                            lemma_arm_keeps(
                                s1.since(&s0),
                                s2.since(&s1),
                                s1.memo(),
                                s1.plugin(),
                                s1.note_store().socket_view(),
                                self.name(),
                                shown@,
                            );
                        }
                        return Outcome::Continue(joined("hop failed: ", e.message().as_str()));
                    },
                }
            },
            Err(e) => {
                proof {
                    assert(s1.since(&s0).take(w) =~= s1.since(&s0));
                    lemma_quiet_keeps_none(s1.since(&s0));
                }
                return Outcome::Continue(joined("error: ", e.message().as_str()));
            },
        };
        let ghost s2 = self.session;
        let result = self.session.execute(binding.action, prompt);
        let ghost s3 = self.session;
        if armed {
            proof {
                Session::lemma_split(&s2, &s1, &s0);
                Session::lemma_split(&s3, &s2, &s1);
            }
            return match result {
                Ok(_) => {
                    proof {
                        Session::lemma_split(&s3, &s1, &s0);
                        let es = s3.since(&s0);
                        let k = s2.since(&s1).len() as int;
                        let j = s3.since(&s2).len() as int;
                        assert(es.take(w) == s1.since(&s0));
                        assert(es.skip(w) == s3.since(&s1));
                        assert(s3.since(&s1).take(k) == s2.since(&s1));
                        assert(s3.since(&s1).skip(k).take(j) =~= s3.since(&s2));
                        assert(armed_ran(binding, s2.memo(), s3.since(&s1).skip(k), j, s3.memo(), Said::Hop));
                        assert(armed_then(c, binding, s1.memo(), es.skip(w), k, s3.memo(), Said::Hop));
                        Session::lemma_split(&s3, &s2, &s0);
                        lemma_arm_keeps(
                            s1.since(&s0),
                            s2.since(&s1),
                            s1.memo(),
                            s1.plugin(),
                            s1.note_store().socket_view(),
                            self.name(),
                            shown@,
                        );
                        lemma_quiet_keeps(s2.since(&s0), s3.since(&s2));
                        lemma_invoked_within(s1.since(&s0), s2.since(&s1), s3.since(&s2), 1, s0.plugin(), self.name());
                    }
                    Outcome::Hop
                },
                Err(e) => {
                    self.session.disarm_hop();
                    proof {
                        let s4 = self.session;
                        Session::lemma_split(&s4, &s3, &s2);
                        Session::lemma_split(&s4, &s2, &s1);
                        Session::lemma_split(&s4, &s1, &s0);
                        let es = s4.since(&s0);
                        let k = s2.since(&s1).len() as int;
                        let j = s3.since(&s2).len() as int;
                        let out = Said::Continue(error_line(e));
                        assert(es.take(w) == s1.since(&s0));
                        assert(es.skip(w) == s4.since(&s1));
                        assert(s4.since(&s1).take(k) == s2.since(&s1));
                        assert(s4.since(&s1).skip(k) == s4.since(&s2));
                        assert(s4.since(&s2).take(j) == s3.since(&s2));
                        assert(s4.since(&s2).skip(j) == s4.since(&s3));
                        assert(armed_ran(binding, s2.memo(), s4.since(&s2), j, s4.memo(), out));
                        assert(armed_then(c, binding, s1.memo(), es.skip(w), k, s4.memo(), out));
                        Session::lemma_split(&s3, &s1, &s0);
                        Session::lemma_split(&s4, &s3, &s0);
                        assert(es.last() == s4.since(&s3)[0]);
                        lemma_cleared_keeps_none(es);
                    }
                    Outcome::Continue(joined("error: ", e.message().as_str()))
                },
            };
        }
        proof {
            Session::lemma_split(&s3, &s1, &s0);
            assert(s2 == s1);
        }
        let feedback = match result {
            Ok(msg) => msg,
            Err(e) => joined("error: ", e.message().as_str()),
        };
        let ghost fb = feedback@;
        let cancel = match binding.action {
            Action::Cancel => true,
            _ => false,
        };
        // `cancel` has already put focus back; staying open would only invite
        // another move from a place the user just said they were done with.
        if cancel || !binding.sticky {
            proof {
                let es = s3.since(&s0);
                let k = s3.since(&s1).len() as int;
                assert(es.take(w) == s1.since(&s0));
                assert(es.skip(w) == s3.since(&s1));
                assert(s3.since(&s1).take(k) =~= s3.since(&s1));
                assert(ran_then(c, binding, s1.memo(), es.skip(w), k, s3.memo(), Said::Exit));
                lemma_quiet_keeps_none(es);
            }
            return Outcome::Exit;
        }
        // Landed on another tab: this popup is now invisible and deaf where
        // the user is looking. Hand over to a fresh one there.
        if binding.action.may_leave_tab() {
            let refreshed = self.session.refresh();
            let ghost s4 = self.session;
            proof {
                Session::lemma_split(&s4, &s3, &s1);
                Session::lemma_split(&s4, &s1, &s0);
                Session::lemma_split(&s4, &s3, &s0);
                assert(quiet(s4.since(&s0)));
            }
            if refreshed.is_ok() && !same_text(self.session.tab(), self.owner_tab_id.as_str()) {
                let hop = self.session.arm_hop(self.mode_name, feedback.as_str());
                let ghost s5 = self.session;
                proof {
                    Session::lemma_split(&s5, &s4, &s3);
                    Session::lemma_split(&s5, &s3, &s1);
                    Session::lemma_split(&s5, &s1, &s0);
                }
                return match hop {
                    Ok(()) => {
                        proof {
                            let es = s5.since(&s0);
                            let k = s3.since(&s1).len() as int;
                            assert(es.take(w) == s1.since(&s0));
                            assert(es.skip(w) == s5.since(&s1));
                            assert(s5.since(&s1).take(k) == s3.since(&s1));
                            assert(s5.since(&s1).skip(k) == s5.since(&s3));
                            assert(s5.since(&s3).take(1) == s4.since(&s3));
                            assert(s5.since(&s3).skip(1) == s5.since(&s4));
                            assert(ran_then(c, binding, s1.memo(), es.skip(w), k, s5.memo(), Said::Hop));
                            Session::lemma_split(&s5, &s4, &s0);
                            lemma_arm_keeps(
                                s4.since(&s0),
                                s5.since(&s4),
                                s4.memo(),
                                s4.plugin(),
                                s4.note_store().socket_view(),
                                self.name(),
                                fb,
                            );
                            assert(es =~= s4.since(&s0) + s5.since(&s4) + Seq::<Effect>::empty());
                            lemma_invoked_within(s4.since(&s0), s5.since(&s4), Seq::<Effect>::empty(), 1, s0.plugin(), self.name());
                        }
                        Outcome::Hop
                    },
                    Err(e) => {
                        let mut line = feedback;
                        line.append(" \u{b7} ");
                        line.append("hop failed: ");
                        line.append(e.message().as_str());
                        proof {
                            let es = s5.since(&s0);
                            let k = s3.since(&s1).len() as int;
                            let out = Said::Continue(fb + dot() + "hop failed: "@ + e.text());
                            assert(line@ =~= fb + dot() + "hop failed: "@ + e.text());
                            assert(es.take(w) == s1.since(&s0));
                            assert(es.skip(w) == s5.since(&s1));
                            assert(s5.since(&s1).take(k) == s3.since(&s1));
                            assert(s5.since(&s1).skip(k) == s5.since(&s3));
                            assert(s5.since(&s3).take(1) == s4.since(&s3));
                            assert(s5.since(&s3).skip(1) == s5.since(&s4));
                            assert(ran_then(c, binding, s1.memo(), es.skip(w), k, s5.memo(), out));
                            Session::lemma_split(&s5, &s4, &s0);
                            lemma_arm_keeps(
                                s4.since(&s0),
                                s5.since(&s4),
                                s4.memo(),
                                s4.plugin(),
                                s4.note_store().socket_view(),
                                self.name(),
                                fb,
                            );
                        }
                        Outcome::Continue(line)
                    },
                };
            }
            proof {
                let es = s4.since(&s0);
                let k = s3.since(&s1).len() as int;
                assert(es.take(w) == s1.since(&s0));
                assert(es.skip(w) == s4.since(&s1));
                assert(s4.since(&s1).take(k) == s3.since(&s1));
                assert(s4.since(&s1).skip(k) == s4.since(&s3));
                assert(s4.since(&s3).take(1) =~= s4.since(&s3));
                assert(ran_then(c, binding, s1.memo(), es.skip(w), k, s4.memo(), Said::Continue(fb)));
                lemma_quiet_keeps_none(es);
            }
            return Outcome::Continue(feedback);
        }
        proof {
            let es = s3.since(&s0);
            let k = s3.since(&s1).len() as int;
            assert(es.take(w) == s1.since(&s0));
            assert(es.skip(w) == s3.since(&s1));
            assert(s3.since(&s1).take(k) =~= s3.since(&s1));
            assert(ran_then(c, binding, s1.memo(), es.skip(w), k, s3.memo(), Said::Continue(fb)));
            lemma_quiet_keeps_none(es);
        }
        Outcome::Continue(feedback)
    }
}

} // verus!

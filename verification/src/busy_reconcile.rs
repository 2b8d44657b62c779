//! Recovery, at startup, of sessions that an earlier process left marked as
//! busy with a bot-owned turn. Threads are scanned one by one; each session
//! (workspace and session id) is looked up once, and every thread bound to
//! a recovered session is told so.
use vstd::prelude::*;
use crate::paths::{absolute, path_canonicalize};
use crate::string_map::StringMap;
use crate::text::{blank, owned, push_str, trim, trimmed, is_blank};
use crate::thread_model::{
    opt_view, turn_busy, SessionActivitySource, SessionBinding, SessionCurrentStatus, SessionStatusOwner,
    WorkspaceStatusPhase,
};

verus! {

/// The log line written to every thread whose session was recovered.
pub const STARTUP_STALE_BUSY_RECOVERED_LOG: &'static str =
    "Recovered stale busy state from previous threadBridge process during startup.";

/// Counts from one startup reconciliation.
#[derive(Debug, Clone, Copy, Default, PartialEq, Eq)]
pub struct StaleBusyReconciliationReport {
    pub scanned_threads: usize,
    pub unique_sessions: usize,
    pub recovered_sessions: usize,
    pub recovered_threads: usize,
    pub skipped_threads: usize,
}

/// What happens to a thread when the reconciliation reaches it.
#[derive(Debug, Clone, Copy, PartialEq, Eq, Structural)]
pub enum ThreadStep {
    /// The thread has no usable binding and is skipped.
    Skipped,
    /// The thread's session was recovered earlier: log the recovery.
    Recovered,
    /// The thread's session was looked up earlier and not recovered.
    NotRecovered,
    /// The session is new: read its status and call `resolve_session`.
    AwaitSnapshot,
}

/// The session id a binding currently selects, trimmed, when not blank.
pub open spec fn bound_session_id(b: SessionBinding) -> Option<Seq<char>> {
    match b.current_codex_thread_id {
        Some(id) => if is_blank(id@) {
            None
        } else {
            Some(trimmed(id@))
        },
        None => None,
    }
}

/// The key under which a session is looked up once: the canonical
/// workspace path, `::`, the session id.
pub open spec fn session_key(canonical_workspace: Seq<char>, session_id: Seq<char>) -> Seq<char> {
    canonical_workspace + "::"@ + session_id
}

/// A snapshot left by the managed runtime with its turn still busy.
pub open spec fn managed_busy_stale(s: SessionCurrentStatus) -> bool {
    s.activity_source == SessionActivitySource::ManagedRuntime && turn_busy(s.phase)
}

/// The session id a binding currently selects, trimmed, when not blank.
pub fn current_bound_session_id(binding: &SessionBinding) -> (r: Option<String>)
    ensures
        opt_view(r) == bound_session_id(*binding),
{
    match &binding.current_codex_thread_id {
        Some(id) => if blank(id.as_str()) {
            None
        } else {
            Some(trim(id.as_str()))
        },
        None => None,
    }
}

/// The session id and workspace path to reconcile for a thread: none when
/// the thread has no binding, its binding is not healthy, it selects no
/// session, or it names no workspace.
pub open spec fn target_of(binding: Option<&SessionBinding>, healthy: bool) -> Option<(Seq<char>, Seq<char>)> {
    match binding {
        Some(b) => if !healthy {
            None
        } else {
            match (bound_session_id(*b), b.workspace_cwd) {
                (Some(sid), Some(ws)) => Some((sid, ws@)),
                _ => None,
            }
        },
        None => None,
    }
}

/// The session and workspace to reconcile for a thread (see `target_of`).
pub fn reconciliation_target(binding: Option<&SessionBinding>, healthy: bool) -> (r: Option<(String, String)>)
    ensures
        match r {
            Some((sid, ws)) => target_of(binding, healthy) == Some((sid@, ws@)),
            None => target_of(binding, healthy) is None,
        },
{
    let b = match binding {
        Some(b) => b,
        None => return None,
    };
    if !healthy {
        return None;
    }
    let sid = match current_bound_session_id(b) {
        Some(s) => s,
        None => return None,
    };
    match &b.workspace_cwd {
        Some(ws) => Some((sid, owned(ws.as_str()))),
        None => None,
    }
}

/// The lookup key of a session, from the canonical workspace path.
pub fn reconciliation_key(canonical_workspace: &str, session_id: &str) -> (r: String)
    ensures
        r@ == session_key(canonical_workspace@, session_id@),
{
    let mut r = owned(canonical_workspace);
    push_str(&mut r, "::");
    push_str(&mut r, session_id);
    r
}

/// The lookup key of a session for one outcome of canonicalizing the
/// workspace path: the canonical path, or the path as given when there was
/// none.
pub open spec fn key_for(workspace_path: Seq<char>, canonical: Option<Seq<char>>, session_id: Seq<char>) -> Seq<char> {
    session_key(
        match canonical {
            Some(c) => c,
            None => workspace_path,
        },
        session_id,
    )
}

/// The lookup key of a session, given what canonicalizing the workspace
/// path gave.
pub fn session_key_given(workspace_path: &str, canonical: Option<String>, session_id: &str) -> (r: String)
    ensures
        r@ == key_for(workspace_path@, opt_view(canonical), session_id@),
{
    match canonical {
        Some(c) => reconciliation_key(c.as_str(), session_id),
        None => reconciliation_key(workspace_path, session_id),
    }
}

/// The lookup key of a session: the workspace path is canonicalized on
/// disk when it can be, and used as given otherwise.
pub fn session_reconciliation_key(workspace_path: &str, session_id: &str) -> (r: String)
    ensures
        exists|c: Option<Seq<char>>|
            (c matches Some(s) ==> absolute(s)) && r@ == #[trigger] key_for(workspace_path@, c, session_id@),
{
    let canonical = path_canonicalize(workspace_path);
    let ghost c = opt_view(canonical);
    let r = session_key_given(workspace_path, canonical, session_id);
    assert(c matches Some(s) ==> absolute(s));
    assert(r@ == key_for(workspace_path@, c, session_id@));
    r
}

/// Whether a snapshot shows a turn of the managed runtime left busy.
pub fn should_recover_stale_bot_busy(snapshot: &SessionCurrentStatus) -> (b: bool)
    ensures
        b == managed_busy_stale(*snapshot),
{
    snapshot.activity_source == SessionActivitySource::ManagedRuntime
        && snapshot.phase.is_turn_busy()
}

/// Which snapshots a reconciliation recovers. The runtime's startup pass
/// recovers turns of the managed runtime left busy; the pass over the bot's
/// repository recovers turns that the bot owns left busy, and leaves a busy
/// turn of the CLI alone.
#[derive(Debug, Clone, Copy, PartialEq, Eq, Structural)]
pub enum RecoveryRule {
    ManagedRuntimeBusy,
    BotOwnedBusy,
}

/// A snapshot that the rule recovers.
pub open spec fn rule_recovers(rule: RecoveryRule, s: SessionCurrentStatus) -> bool {
    match rule {
        RecoveryRule::ManagedRuntimeBusy => managed_busy_stale(s),
        RecoveryRule::BotOwnedBusy => s.owner == SessionStatusOwner::Bot && turn_busy(s.phase),
    }
}

/// Whether the status read of a session is recovered under the rule: a
/// session without a recorded status is not.
pub open spec fn recovers(rule: RecoveryRule, snapshot: Option<SessionCurrentStatus>) -> bool {
    match snapshot {
        Some(s) => rule_recovers(rule, s),
        None => false,
    }
}

/// Which busy turns each startup pass recovers, for every snapshot: the
/// runtime's pass recovers exactly the running or finalizing turns whose
/// activity comes from the managed runtime, so a busy turn driven by the
/// shared TUI is left alone whoever owns it; the repository pass recovers
/// exactly the running or finalizing turns that the bot owns, so a busy CLI
/// turn is left alone. An idle session, or one without a recorded status, is
/// never recovered.
pub proof fn lemma_recovery_rules(s: SessionCurrentStatus)
    ensures
        recovers(RecoveryRule::ManagedRuntimeBusy, Some(s)) <==> (s.activity_source
            == SessionActivitySource::ManagedRuntime && (s.phase == WorkspaceStatusPhase::TurnRunning || s.phase
            == WorkspaceStatusPhase::TurnFinalizing)),
        s.activity_source == SessionActivitySource::Tui ==> !recovers(RecoveryRule::ManagedRuntimeBusy, Some(s)),
        recovers(RecoveryRule::BotOwnedBusy, Some(s)) <==> (s.owner == SessionStatusOwner::Bot && (s.phase
            == WorkspaceStatusPhase::TurnRunning || s.phase == WorkspaceStatusPhase::TurnFinalizing)),
        s.owner == SessionStatusOwner::Cli ==> !recovers(RecoveryRule::BotOwnedBusy, Some(s)),
        s.phase == WorkspaceStatusPhase::Idle ==> !recovers(RecoveryRule::ManagedRuntimeBusy, Some(s))
            && !recovers(RecoveryRule::BotOwnedBusy, Some(s)),
        !recovers(RecoveryRule::ManagedRuntimeBusy, None),
        !recovers(RecoveryRule::BotOwnedBusy, None),
{
}

/// Whether the status read of a session is recovered under the rule.
pub fn snapshot_recovers(rule: RecoveryRule, snapshot: Option<&SessionCurrentStatus>) -> (b: bool)
    ensures
        b == recovers(
            rule,
            match snapshot {
                Some(s) => Some(*s),
                None => None,
            },
        ),
{
    match snapshot {
        None => false,
        Some(s) => match rule {
            RecoveryRule::ManagedRuntimeBusy => should_recover_stale_bot_busy(s),
            RecoveryRule::BotOwnedBusy => crate::status_sync::should_recover_stale_bot_busy(s),
        },
    }
}

/// The reconciliation in progress: the counts so far, the outcome of each
/// session looked up, and the session whose status is awaited.
pub struct StaleBusyReconciler {
    report: StaleBusyReconciliationReport,
    recovery_by_session: StringMap<bool>,
    awaiting: Option<String>,
    scanned: Ghost<Seq<Option<Seq<char>>>>,
}

/// The sessions that some of the threads' keys name.
pub open spec fn sessions_of(keys: Seq<Option<Seq<char>>>) -> Set<Seq<char>> {
    Set::new(|k: Seq<char>| exists|i: int| 0 <= i < keys.len() && keys[i] == Some(k))
}

/// How many of the threads' keys name a session recovered in `outcomes`.
pub open spec fn recovered_count(keys: Seq<Option<Seq<char>>>, outcomes: Map<Seq<char>, bool>) -> nat
    decreases keys.len(),
{
    if keys.len() == 0 {
        0
    } else {
        recovered_count(keys.drop_last(), outcomes) + match keys.last() {
            Some(k) => if outcomes.contains_key(k) && outcomes[k] {
                1nat
            } else {
                0
            },
            None => 0,
        }
    }
}

/// The sessions recovered in `outcomes`.
pub open spec fn recovered_set(outcomes: Map<Seq<char>, bool>) -> Set<Seq<char>> {
    outcomes.dom().filter(|k: Seq<char>| outcomes[k])
}

proof fn lemma_sessions_push(keys: Seq<Option<Seq<char>>>, x: Option<Seq<char>>)
    ensures
        sessions_of(keys.push(x)) == match x {
            Some(k) => sessions_of(keys).insert(k),
            None => sessions_of(keys),
        },
{
    let a = sessions_of(keys.push(x));
    let b = match x {
        Some(k) => sessions_of(keys).insert(k),
        None => sessions_of(keys),
    };
    assert forall|k: Seq<char>| a.contains(k) <==> b.contains(k) by {
        if a.contains(k) {
            let i = choose|i: int| 0 <= i < keys.push(x).len() && keys.push(x)[i] == Some(k);
            if i < keys.len() {
                assert(keys[i] == Some(k));
            }
        }
        if sessions_of(keys).contains(k) {
            let i = choose|i: int| 0 <= i < keys.len() && keys[i] == Some(k);
            assert(keys.push(x)[i] == Some(k));
        }
        if x == Some(k) {
            assert(keys.push(x)[keys.len() as int] == Some(k));
        }
    }
    assert(a =~= b);
}

proof fn lemma_recovered_count_frame(keys: Seq<Option<Seq<char>>>, o: Map<Seq<char>, bool>, k: Seq<char>, b: bool)
    requires
        !sessions_of(keys).contains(k),
    ensures
        recovered_count(keys, o.insert(k, b)) == recovered_count(keys, o),
    decreases keys.len(),
{
    if keys.len() > 0 {
        lemma_sessions_push(keys.drop_last(), keys.last());
        assert(keys.drop_last().push(keys.last()) =~= keys);
        lemma_recovered_count_frame(keys.drop_last(), o, k, b);
    }
}

proof fn lemma_recovered_set_insert(o: Map<Seq<char>, bool>, k: Seq<char>, b: bool)
    requires
        o.dom().finite(),
        !o.contains_key(k),
    ensures
        recovered_set(o.insert(k, b)) == if b {
            recovered_set(o).insert(k)
        } else {
            recovered_set(o)
        },
        recovered_set(o).finite(),
        !recovered_set(o).contains(k),
{
    let o2 = o.insert(k, b);
    assert(recovered_set(o2) =~= if b {
        recovered_set(o).insert(k)
    } else {
        recovered_set(o)
    });
    vstd::set_lib::lemma_set_subset_finite(o.dom(), recovered_set(o));
}

impl StaleBusyReconciler {
    /// The lookup keys of the threads scanned so far, in order (none for a
    /// thread without a usable session).
    pub closed spec fn scanned_keys(&self) -> Seq<Option<Seq<char>>> {
        self.scanned@
    }

    /// The counts so far.
    pub closed spec fn counts(&self) -> StaleBusyReconciliationReport {
        self.report
    }

    /// The outcome of each session looked up so far.
    pub closed spec fn outcomes(&self) -> Map<Seq<char>, bool> {
        self.recovery_by_session.view()
    }

    /// The session whose status is awaited, if any.
    pub closed spec fn awaited(&self) -> Option<Seq<char>> {
        opt_view(self.awaiting)
    }

    /// The reconciliation's invariant: every thread scanned is counted as
    /// recovered or skipped unless its session is awaited; each session is
    /// counted once, and no more sessions are recovered than looked up.
    pub closed spec fn wf(&self) -> bool {
        &&& self.recovery_by_session.wf()
        &&& self.recovery_by_session.view().dom().finite()
        &&& self.report.scanned_threads == self.report.recovered_threads
            + self.report.skipped_threads + if self.awaiting is Some {
            1int
        } else {
            0
        }
        &&& self.report.unique_sessions == self.recovery_by_session.view().dom().len() + if self.awaiting
            is Some {
            1int
        } else {
            0
        }
        &&& self.report.recovered_sessions <= self.recovery_by_session.view().dom().len()
        &&& self.report.unique_sessions <= self.report.scanned_threads
        &&& self.awaiting matches Some(k) ==> !self.recovery_by_session.view().contains_key(k@)
        &&& self.scanned@.len() == self.report.scanned_threads
        &&& self.awaiting matches Some(k) ==> self.scanned@.len() > 0 && self.scanned@.last() == Some(k@)
        &&& self.recovery_by_session.view().dom() == sessions_of(self.settled())
        &&& self.report.recovered_threads == recovered_count(self.settled(), self.recovery_by_session.view())
        &&& self.report.recovered_sessions == recovered_set(self.recovery_by_session.view()).len()
    }

    /// The keys of the threads whose outcome is known: all scanned but the
    /// one whose session is awaited.
    closed spec fn settled(&self) -> Seq<Option<Seq<char>>> {
        if self.awaiting is Some {
            self.scanned@.drop_last()
        } else {
            self.scanned@
        }
    }

    /// A reconciliation that has scanned nothing.
    pub fn new() -> (r: Self)
        ensures
            r.wf(),
            r.counts() == StaleBusyReconciliationReport::default_report(),
            r.outcomes() == Map::<Seq<char>, bool>::empty(),
            r.awaited() is None,
            r.scanned_keys() == Seq::<Option<Seq<char>>>::empty(),
    {
        let m = StringMap::new();
        proof {
            assert(m.view().dom() =~= Set::<Seq<char>>::empty());
            assert(sessions_of(Seq::empty()) =~= Set::<Seq<char>>::empty());
            assert(recovered_set(m.view()) =~= Set::<Seq<char>>::empty());
        }
        StaleBusyReconciler {
            report: StaleBusyReconciliationReport {
                scanned_threads: 0,
                unique_sessions: 0,
                recovered_sessions: 0,
                recovered_threads: 0,
                skipped_threads: 0,
            },
            recovery_by_session: m,
            awaiting: None,
            scanned: Ghost(Seq::empty()),
        }
    }

    /// Takes the next thread, with the lookup key of its session when it has
    /// a usable one. A thread without one is skipped; a thread whose session
    /// was looked up before gets that session's outcome; a new session is to
    /// be read and resolved.
    pub fn begin_thread(&mut self, key: Option<String>) -> (step: ThreadStep)
        requires
            old(self).wf(),
            old(self).awaited() is None,
            old(self).counts().scanned_threads < usize::MAX,
        ensures
            final(self).wf(),
            final(self).counts().scanned_threads == old(self).counts().scanned_threads + 1,
            final(self).scanned_keys() == old(self).scanned_keys().push(opt_view(key)),
            match key {
                None => step == ThreadStep::Skipped && final(self).counts() == (
                StaleBusyReconciliationReport {
                    scanned_threads: final(self).counts().scanned_threads,
                    skipped_threads: (old(self).counts().skipped_threads + 1) as usize,
                    ..old(self).counts()
                }) && final(self).outcomes() == old(self).outcomes() && final(self).awaited() is None,
                Some(k) => if old(self).outcomes().contains_key(k@) {
                    final(self).outcomes() == old(self).outcomes() && final(self).awaited() is None
                        && if old(self).outcomes()[k@] {
                        step == ThreadStep::Recovered && final(self).counts() == (
                        StaleBusyReconciliationReport {
                            scanned_threads: final(self).counts().scanned_threads,
                            recovered_threads: (old(self).counts().recovered_threads + 1) as usize,
                            ..old(self).counts()
                        })
                    } else {
                        step == ThreadStep::NotRecovered && final(self).counts() == (
                        StaleBusyReconciliationReport {
                            scanned_threads: final(self).counts().scanned_threads,
                            skipped_threads: (old(self).counts().skipped_threads + 1) as usize,
                            ..old(self).counts()
                        })
                    }
                } else {
                    step == ThreadStep::AwaitSnapshot && final(self).awaited() == Some(k@)
                        && final(self).outcomes() == old(self).outcomes() && final(self).counts()
                        == (StaleBusyReconciliationReport {
                        scanned_threads: final(self).counts().scanned_threads,
                        unique_sessions: (old(self).counts().unique_sessions + 1) as usize,
                        ..old(self).counts()
                    })
                },
            },
    {
        let ghost kv = opt_view(key);
        let ghost before = self.scanned@;
        let ghost o = self.recovery_by_session.view();
        proof {
            lemma_sessions_push(before, kv);
            assert(before.push(kv).drop_last() =~= before);
        }
        self.report.scanned_threads = self.report.scanned_threads + 1;
        self.scanned = Ghost(before.push(kv));
        match key {
            None => {
                self.report.skipped_threads = self.report.skipped_threads + 1;
                ThreadStep::Skipped
            },
            Some(k) => {
                match self.recovery_by_session.get(k.as_str()) {
                    Some(known) => {
                        proof {
                            assert(sessions_of(before).insert(k@) =~= sessions_of(before));
                        }
                        if *known {
                            self.report.recovered_threads = self.report.recovered_threads + 1;
                            ThreadStep::Recovered
                        } else {
                            self.report.skipped_threads = self.report.skipped_threads + 1;
                            ThreadStep::NotRecovered
                        }
                    },
                    None => {
                        self.report.unique_sessions = self.report.unique_sessions + 1;
                        self.awaiting = Some(k);
                        ThreadStep::AwaitSnapshot
                    },
                }
            },
        }
    }

    /// Records the outcome for the awaited session: `recover` says whether
    /// its status showed a stale busy turn (which the caller then marks as
    /// recovered). The thread that waited is counted as recovered or skipped.
    pub fn resolve_session(&mut self, recover: bool)
        requires
            old(self).wf(),
            old(self).awaited() is Some,
        ensures
            final(self).wf(),
            final(self).awaited() is None,
            final(self).scanned_keys() == old(self).scanned_keys(),
            final(self).outcomes() == old(self).outcomes().insert(old(self).awaited()->0, recover),
            final(self).counts() == if recover {
                StaleBusyReconciliationReport {
                    recovered_sessions: (old(self).counts().recovered_sessions + 1) as usize,
                    recovered_threads: (old(self).counts().recovered_threads + 1) as usize,
                    ..old(self).counts()
                }
            } else {
                StaleBusyReconciliationReport {
                    skipped_threads: (old(self).counts().skipped_threads + 1) as usize,
                    ..old(self).counts()
                }
            },
    {
        let key = self.awaiting.take().unwrap();
        let ghost k = key@;
        let ghost all = self.scanned@;
        let ghost o = self.recovery_by_session.view();
        proof {
            assert(self.recovery_by_session.view().insert(k, recover).dom() =~= self.recovery_by_session.view().dom().insert(k));
            lemma_sessions_push(all.drop_last(), Some(k));
            assert(all.drop_last().push(Some(k)) =~= all);
            lemma_recovered_count_frame(all.drop_last(), o, k, recover);
            lemma_recovered_set_insert(o, k, recover);
            assert(o.insert(k, recover).contains_key(k));
        }
        self.recovery_by_session.insert(key, recover);
        if recover {
            self.report.recovered_sessions = self.report.recovered_sessions + 1;
            self.report.recovered_threads = self.report.recovered_threads + 1;
        } else {
            self.report.skipped_threads = self.report.skipped_threads + 1;
        }
    }

    /// The counts of a reconciliation that awaits nothing.
    pub fn report(&self) -> (r: StaleBusyReconciliationReport)
        requires
            self.wf(),
        ensures
            r == self.counts(),
    {
        self.report
    }
}

impl StaleBusyReconciliationReport {
    pub open spec fn default_report() -> Self {
        StaleBusyReconciliationReport {
            scanned_threads: 0,
            unique_sessions: 0,
            recovered_sessions: 0,
            recovered_threads: 0,
            skipped_threads: 0,
        }
    }
}

/// Each thread scanned is either recovered or skipped once no session is
/// awaited, and no more sessions are recovered than there are distinct
/// sessions, nor more distinct sessions than threads.
pub proof fn lemma_reconciler_counts(r: StaleBusyReconciler)
    requires
        r.wf(),
        r.awaited() is None,
    ensures
        r.counts().scanned_threads == r.counts().recovered_threads + r.counts().skipped_threads,
        r.counts().recovered_sessions <= r.counts().unique_sessions,
        r.counts().unique_sessions <= r.counts().scanned_threads,
        r.counts().unique_sessions == r.outcomes().dom().len(),
{
}

/// Over the whole run: once no session is awaited, as many threads were
/// scanned as keys were taken; each distinct session named by the keys was
/// looked up exactly once; the threads recovered are those whose key names
/// a recovered session, the others are skipped; and the sessions recovered
/// are those whose status showed a stale busy turn.
pub proof fn lemma_reconciliation_run(r: StaleBusyReconciler)
    requires
        r.wf(),
        r.awaited() is None,
    ensures
        r.counts().scanned_threads == r.scanned_keys().len(),
        r.outcomes().dom() == sessions_of(r.scanned_keys()),
        r.counts().unique_sessions == sessions_of(r.scanned_keys()).len(),
        r.counts().recovered_threads == recovered_count(r.scanned_keys(), r.outcomes()),
        r.counts().skipped_threads == r.scanned_keys().len() - recovered_count(r.scanned_keys(), r.outcomes()),
        r.counts().recovered_sessions == recovered_set(r.outcomes()).len(),
{
}

} // verus!

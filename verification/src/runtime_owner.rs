//! Status that the desktop runtime owner reports about reconciling the
//! managed workspaces, and the steps of one reconciliation.
//!
//! A reconciliation takes the managed workspaces once each, in path order,
//! and ensures each one's runtime and proxy; the first failure ends it.
//! Ensuring, the clock and the lock around the status belong to the caller.
use vstd::prelude::*;
use crate::paths::{absolute, path_canonicalize};
use crate::text::{lemma_seq_order, owned, seq_lt, str_eq, str_lt};
use crate::thread_model::opt_view;

verus! {

/// Counts from one reconciliation of the managed workspaces.
#[derive(Debug, Clone, Copy, Default, PartialEq, Eq)]
pub struct RuntimeOwnerReconcileReport {
    pub scanned_workspaces: usize,
    pub ensured_workspaces: usize,
    pub ensured_proxies: usize,
}

/// The runtime owner's state and the outcome of its latest reconciliation.
#[derive(Debug, Clone)]
pub struct RuntimeOwnerStatus {
    pub state: &'static str,
    pub last_reconcile_started_at: Option<String>,
    pub last_reconcile_finished_at: Option<String>,
    pub last_successful_reconcile_at: Option<String>,
    pub last_error: Option<String>,
    pub last_report: RuntimeOwnerReconcileReport,
}

impl RuntimeOwnerStatus {
    /// The status of an owner that is not running: state `inactive`, no
    /// reconciliation recorded, an empty report.
    pub fn inactive() -> (s: Self)
        ensures
            s.state@ == "inactive"@,
            s.last_reconcile_started_at is None,
            s.last_reconcile_finished_at is None,
            s.last_successful_reconcile_at is None,
            s.last_error is None,
            s.last_report == (RuntimeOwnerReconcileReport {
                scanned_workspaces: 0,
                ensured_workspaces: 0,
                ensured_proxies: 0,
            }),
    {
        RuntimeOwnerStatus {
            state: "inactive",
            last_reconcile_started_at: None,
            last_reconcile_finished_at: None,
            last_successful_reconcile_at: None,
            last_error: None,
            last_report: RuntimeOwnerReconcileReport {
                scanned_workspaces: 0,
                ensured_workspaces: 0,
                ensured_proxies: 0,
            },
        }
    }
}

/// The state of an owner that has not reconciled yet.
pub const STATE_IDLE: &'static str = "idle";

/// The state while a reconciliation runs.
pub const STATE_RUNNING: &'static str = "running";

/// The state after a reconciliation failed.
pub const STATE_ERROR: &'static str = "error";

/// The state after a reconciliation succeeded.
pub const STATE_HEALTHY: &'static str = "healthy";

impl RuntimeOwnerStatus {
    /// The status of an owner that has not reconciled yet.
    pub fn idle() -> (s: Self)
        ensures
            s.state@ == STATE_IDLE@,
            s.last_reconcile_started_at is None,
            s.last_reconcile_finished_at is None,
            s.last_successful_reconcile_at is None,
            s.last_error is None,
            s.last_report == (RuntimeOwnerReconcileReport {
                scanned_workspaces: 0,
                ensured_workspaces: 0,
                ensured_proxies: 0,
            }),
    {
        RuntimeOwnerStatus {
            state: STATE_IDLE,
            last_reconcile_started_at: None,
            last_reconcile_finished_at: None,
            last_successful_reconcile_at: None,
            last_error: None,
            last_report: RuntimeOwnerReconcileReport {
                scanned_workspaces: 0,
                ensured_workspaces: 0,
                ensured_proxies: 0,
            },
        }
    }

    /// A reconciliation starts at `started_at`: the owner is running and the
    /// last error is cleared.
    pub fn begin_reconcile(&mut self, started_at: String)
        ensures
            final(self).state@ == STATE_RUNNING@,
            final(self).last_reconcile_started_at == Some(started_at),
            final(self).last_error is None,
            final(self).last_reconcile_finished_at == old(self).last_reconcile_finished_at,
            final(self).last_successful_reconcile_at == old(self).last_successful_reconcile_at,
            final(self).last_report == old(self).last_report,
    {
        self.state = STATE_RUNNING;
        self.last_reconcile_started_at = Some(started_at);
        self.last_error = None;
    }

    /// The reconciliation failed at `finished_at` with `error`, after the
    /// work that `report` counts.
    pub fn fail_reconcile(&mut self, finished_at: String, error: String, report: RuntimeOwnerReconcileReport)
        ensures
            final(self).state@ == STATE_ERROR@,
            final(self).last_reconcile_finished_at == Some(finished_at),
            final(self).last_error == Some(error),
            final(self).last_report == report,
            final(self).last_reconcile_started_at == old(self).last_reconcile_started_at,
            final(self).last_successful_reconcile_at == old(self).last_successful_reconcile_at,
    {
        self.state = STATE_ERROR;
        self.last_reconcile_finished_at = Some(finished_at);
        self.last_error = Some(error);
        self.last_report = report;
    }

    /// The reconciliation succeeded at `finished_at`, with `report`.
    pub fn finish_reconcile(&mut self, finished_at: String, report: RuntimeOwnerReconcileReport)
        ensures
            final(self).state@ == STATE_HEALTHY@,
            final(self).last_reconcile_finished_at == Some(finished_at),
            final(self).last_successful_reconcile_at == Some(finished_at),
            final(self).last_error is None,
            final(self).last_report == report,
            final(self).last_reconcile_started_at == old(self).last_reconcile_started_at,
    {
        self.state = STATE_HEALTHY;
        self.last_successful_reconcile_at = Some(finished_at.clone());
        self.last_reconcile_finished_at = Some(finished_at);
        self.last_error = None;
        self.last_report = report;
    }
}

/// Strictly increasing: in path order, each path once.
pub open spec fn strictly_sorted(s: Seq<String>) -> bool {
    forall|a: int, b: int| #![trigger s[a], s[b]] 0 <= a < b < s.len() ==> seq_lt(s[a]@, s[b]@)
}

/// Path `p` is among `s`.
pub open spec fn holds_path(s: Seq<String>, p: Seq<char>) -> bool {
    exists|i: int| 0 <= i < s.len() && #[trigger] s[i]@ == p
}

/// The workspace path used to reconcile it, for one outcome of
/// canonicalizing it: the canonical path, or the path as given.
pub open spec fn workspace_for(workspace_path: Seq<char>, canonical: Option<Seq<char>>) -> Seq<char> {
    match canonical {
        Some(c) => c,
        None => workspace_path,
    }
}

/// The workspace path used to reconcile it: canonicalized on disk when it
/// can be, as given otherwise.
pub fn canonical_workspace_string(workspace_path: &str) -> (r: String)
    ensures
        exists|c: Option<Seq<char>>|
            (c matches Some(s) ==> absolute(s)) && r@ == #[trigger] workspace_for(workspace_path@, c),
{
    let canonical = path_canonicalize(workspace_path);
    let ghost c = opt_view(canonical);
    let r = match canonical {
        Some(s) => s,
        None => owned(workspace_path),
    };
    assert(r@ == workspace_for(workspace_path@, c));
    r
}

/// The paths, each once, in path order.
pub fn unique_sorted(paths: Vec<String>) -> (r: Vec<String>)
    ensures
        strictly_sorted(r@),
        forall|p: Seq<char>| #[trigger] holds_path(r@, p) <==> holds_path(paths@, p),
{
    let mut out: Vec<String> = Vec::new();
    let mut i: usize = 0;
    while i < paths.len()
        invariant
            i <= paths@.len(),
            strictly_sorted(out@),
            forall|p: Seq<char>| #[trigger] holds_path(out@, p) <==> holds_path(paths@.take(i as int), p),
        decreases paths@.len() - i,
    {
        let x = &paths[i];
        let ghost xv = x@;
        let ghost o = out@;
        let mut p: usize = 0;
        while p < out.len() && str_lt(out[p].as_str(), x.as_str())
            invariant
                out@ == o,
                xv == x@,
                p <= o.len(),
                forall|a: int| 0 <= a < p ==> seq_lt(#[trigger] o[a]@, xv),
            decreases o.len() - p,
        {
            p += 1;
        }
        proof {
            assert(paths@.take(i + 1).drop_last() =~= paths@.take(i as int));
            assert forall|q: Seq<char>| #[trigger] holds_path(paths@.take(i + 1), q) <==> (holds_path(
                paths@.take(i as int),
                q,
            ) || q == xv) by {
                let t1 = paths@.take(i + 1);
                if holds_path(t1, q) {
                    let k = choose|k: int| 0 <= k < t1.len() && #[trigger] t1[k]@ == q;
                    if k < i {
                        assert(paths@.take(i as int)[k] == t1[k]);
                    }
                }
                if holds_path(paths@.take(i as int), q) {
                    let k = choose|k: int| 0 <= k < i && #[trigger] paths@.take(i as int)[k]@ == q;
                    assert(t1[k] == paths@.take(i as int)[k]);
                }
                if q == xv {
                    assert(t1[i as int]@ == q);
                }
            }
        }
        if p < out.len() && str_eq(out[p].as_str(), x.as_str()) {
            proof {
                assert(holds_path(o, xv)) by {
                    assert(o[p as int]@ == xv);
                }
            }
        } else {
            out.insert(p, x.clone());
            proof {
                let n = out@;
                assert(n[p as int]@ == xv);
                assert forall|a: int| 0 <= a < n.len() implies (a < p && #[trigger] n[a] == o[a]) || (a == p
                    && n[a]@ == xv) || (a > p && n[a] == o[a - 1]) by {}
                assert forall|a: int, b: int| 0 <= a < b < n.len() implies seq_lt(
                    #[trigger] n[a]@,
                    #[trigger] n[b]@,
                ) by {
                    if b < p {
                    } else if b == p {
                    } else if a < p {
                        assert(n[b] == o[b - 1]);
                    } else if a == p {
                        assert(n[b] == o[b - 1]);
                        lemma_seq_order(xv, o[p as int]@, o[b - 1]@);
                        lemma_seq_order(o[p as int]@, xv, xv);
                        if b - 1 > p {
                            assert(seq_lt(o[p as int]@, o[b - 1]@));
                        }
                    } else {
                        assert(n[a] == o[a - 1] && n[b] == o[b - 1]);
                    }
                }
                assert forall|q: Seq<char>| #[trigger] holds_path(n, q) <==> (holds_path(o, q) || q == xv) by {
                    if holds_path(n, q) {
                        let k = choose|k: int| 0 <= k < n.len() && #[trigger] n[k]@ == q;
                        if k < p {
                            assert(o[k]@ == q);
                        } else if k > p {
                            assert(o[k - 1]@ == q);
                        }
                    }
                    if holds_path(o, q) {
                        let k = choose|k: int| 0 <= k < o.len() && #[trigger] o[k]@ == q;
                        if k < p {
                            assert(n[k]@ == q);
                        } else {
                            assert(n[k + 1]@ == q);
                        }
                    }
                }
            }
        }
        i += 1;
    }
    proof {
        assert(paths@.take(i as int) =~= paths@);
    }
    out
}

impl RuntimeOwnerReconcileReport {
    /// The report of a reconciliation that has yet to ensure any of
    /// `scanned` workspaces.
    pub fn starting(scanned: usize) -> (r: Self)
        ensures
            r == (RuntimeOwnerReconcileReport {
                scanned_workspaces: scanned,
                ensured_workspaces: 0,
                ensured_proxies: 0,
            }),
    {
        RuntimeOwnerReconcileReport { scanned_workspaces: scanned, ensured_workspaces: 0, ensured_proxies: 0 }
    }

    /// One more workspace had its runtime and proxy ensured.
    pub fn record_ensured(&mut self)
        requires
            old(self).ensured_workspaces < old(self).scanned_workspaces,
            old(self).ensured_proxies < old(self).scanned_workspaces,
        ensures
            final(self).scanned_workspaces == old(self).scanned_workspaces,
            final(self).ensured_workspaces == old(self).ensured_workspaces + 1,
            final(self).ensured_proxies == old(self).ensured_proxies + 1,
    {
        self.ensured_workspaces = self.ensured_workspaces + 1;
        self.ensured_proxies = self.ensured_proxies + 1;
    }
}


/// A copy of an optional text.
fn copy_text(t: &Option<String>) -> (r: Option<String>)
    ensures
        r == *t,
{
    match t {
        Some(x) => Some(x.clone()),
        None => None,
    }
}

/// One reconciliation of the managed workspaces in progress: the status it
/// reports into, the workspaces to ensure (each once, in path order), how
/// many of them are ensured, and the report so far.
pub struct WorkspaceReconciliation {
    status: RuntimeOwnerStatus,
    workspaces: Vec<String>,
    ensured: usize,
    report: RuntimeOwnerReconcileReport,
    successful_before: Ghost<Option<String>>,
}

impl WorkspaceReconciliation {
    /// The workspaces of the run, in the order they are ensured.
    pub closed spec fn workspaces(&self) -> Seq<String> {
        self.workspaces@
    }

    /// How many of them are ensured so far.
    pub closed spec fn ensured_count(&self) -> nat {
        self.ensured as nat
    }

    /// The status while the run goes on.
    pub closed spec fn status(&self) -> RuntimeOwnerStatus {
        self.status
    }

    /// The last successful reconciliation before this run began.
    pub closed spec fn successful_before(&self) -> Option<String> {
        self.successful_before@
    }

    pub closed spec fn wf(&self) -> bool {
        &&& self.ensured <= self.workspaces@.len()
        &&& self.workspaces@.len() <= usize::MAX
        &&& self.report == (RuntimeOwnerReconcileReport {
            scanned_workspaces: self.workspaces@.len() as usize,
            ensured_workspaces: self.ensured,
            ensured_proxies: self.ensured,
        })
        &&& self.status.last_successful_reconcile_at == self.successful_before@
        &&& strictly_sorted(self.workspaces@)
    }

    /// Begins a run at `started_at` over the managed workspaces (their paths
    /// as canonicalized): each path is taken once, in path order; the owner
    /// is running, its last error is cleared, and nothing is ensured yet.
    pub fn start(status: RuntimeOwnerStatus, canonical_workspaces: Vec<String>, started_at: String) -> (r: Self)
        ensures
            r.wf(),
            strictly_sorted(r.workspaces()),
            forall|p: Seq<char>| #[trigger] holds_path(r.workspaces(), p) <==> holds_path(canonical_workspaces@, p),
            r.ensured_count() == 0,
            r.successful_before() == status.last_successful_reconcile_at,
            r.status().state@ == STATE_RUNNING@,
            r.status().last_reconcile_started_at == Some(started_at),
            r.status().last_error is None,
            r.status().last_reconcile_finished_at == status.last_reconcile_finished_at,
            r.status().last_report == status.last_report,
            run_started(status, canonical_workspaces@, started_at, r),
    {
        let workspaces = unique_sorted(canonical_workspaces);
        let report = RuntimeOwnerReconcileReport::starting(workspaces.len());
        let ghost before = status.last_successful_reconcile_at;
        let mut status = status;
        status.begin_reconcile(started_at);
        WorkspaceReconciliation { status, workspaces, ensured: 0, report, successful_before: Ghost(before) }
    }

    /// A copy of the status while the run goes on, to publish.
    pub fn current_status(&self) -> (s: RuntimeOwnerStatus)
        ensures
            s == self.status(),
    {
        RuntimeOwnerStatus {
            state: self.status.state,
            last_reconcile_started_at: copy_text(&self.status.last_reconcile_started_at),
            last_reconcile_finished_at: copy_text(&self.status.last_reconcile_finished_at),
            last_successful_reconcile_at: copy_text(&self.status.last_successful_reconcile_at),
            last_error: copy_text(&self.status.last_error),
            last_report: self.status.last_report,
        }
    }

    /// The workspace to ensure next, if any are left.
    pub fn next_workspace(&self) -> (w: Option<&String>)
        requires
            self.wf(),
        ensures
            match w {
                Some(p) => self.ensured_count() < self.workspaces().len() && *p == self.workspaces()[
                    self.ensured_count() as int],
                None => self.ensured_count() == self.workspaces().len(),
            },
    {
        if self.ensured < self.workspaces.len() {
            Some(&self.workspaces[self.ensured])
        } else {
            None
        }
    }

    /// The next workspace's runtime, daemon and proxy were ensured.
    pub fn workspace_ensured(&mut self)
        requires
            old(self).wf(),
            old(self).ensured_count() < old(self).workspaces().len(),
        ensures
            final(self).wf(),
            final(self).ensured_count() == old(self).ensured_count() + 1,
            final(self).workspaces() == old(self).workspaces(),
            final(self).status() == old(self).status(),
            final(self).successful_before() == old(self).successful_before(),
            run_step(*old(self), *final(self)),
    {
        assert(self.report.scanned_workspaces == self.workspaces.len());
        self.report.record_ensured();
        self.ensured = self.ensured + 1;
    }

    /// Ensuring the next workspace failed at `finished_at` with `error`: the
    /// run ends there, and no later workspace is ensured. The owner is in
    /// error, with the error and the counts of the workspaces ensured before
    /// it; its last successful reconciliation stays what it was before the
    /// run.
    pub fn fail(self, finished_at: String, error: String) -> (r: (RuntimeOwnerStatus, RuntimeOwnerReconcileReport))
        requires
            self.wf(),
        ensures
            r.1 == (RuntimeOwnerReconcileReport {
                scanned_workspaces: self.workspaces().len() as usize,
                ensured_workspaces: self.ensured_count() as usize,
                ensured_proxies: self.ensured_count() as usize,
            }),
            r.0.state@ == STATE_ERROR@,
            r.0.last_error == Some(error),
            r.0.last_report == r.1,
            r.0.last_reconcile_finished_at == Some(finished_at),
            r.0.last_reconcile_started_at == self.status().last_reconcile_started_at,
            r.0.last_successful_reconcile_at == self.successful_before(),
            run_failed(self, finished_at, error, r),
    {
        let mut status = self.status;
        status.fail_reconcile(finished_at, error, self.report);
        (status, self.report)
    }

    /// Every workspace was ensured; the run ends at `finished_at`. The owner
    /// is healthy, with no error, and every workspace counted as ensured
    /// with its proxy; the finish is the last successful reconciliation.
    pub fn finish(self, finished_at: String) -> (r: (RuntimeOwnerStatus, RuntimeOwnerReconcileReport))
        requires
            self.wf(),
            self.ensured_count() == self.workspaces().len(),
        ensures
            r.1 == (RuntimeOwnerReconcileReport {
                scanned_workspaces: self.workspaces().len() as usize,
                ensured_workspaces: self.workspaces().len() as usize,
                ensured_proxies: self.workspaces().len() as usize,
            }),
            r.0.state@ == STATE_HEALTHY@,
            r.0.last_error is None,
            r.0.last_report == r.1,
            r.0.last_reconcile_finished_at == Some(finished_at),
            r.0.last_successful_reconcile_at == Some(finished_at),
            r.0.last_reconcile_started_at == self.status().last_reconcile_started_at,
            run_finished(self, finished_at, r),
    {
        let mut status = self.status;
        status.finish_reconcile(finished_at, self.report);
        (status, self.report)
    }
}


/// The first state of a run, as `start` leaves it from the owner's status
/// `before`, the managed paths `paths` and the start time.
pub open spec fn run_started(
    before: RuntimeOwnerStatus,
    paths: Seq<String>,
    started_at: String,
    r: WorkspaceReconciliation,
) -> bool {
    &&& r.wf()
    &&& strictly_sorted(r.workspaces())
    &&& forall|p: Seq<char>| #[trigger] holds_path(r.workspaces(), p) <==> holds_path(paths, p)
    &&& r.ensured_count() == 0
    &&& r.successful_before() == before.last_successful_reconcile_at
    &&& r.status().state@ == STATE_RUNNING@
    &&& r.status().last_reconcile_started_at == Some(started_at)
    &&& r.status().last_error is None
}

/// One step of a run, as `workspace_ensured` takes it: the next workspace
/// is ensured, and nothing else changes.
pub open spec fn run_step(a: WorkspaceReconciliation, b: WorkspaceReconciliation) -> bool {
    &&& a.ensured_count() < a.workspaces().len()
    &&& b.wf()
    &&& b.ensured_count() == a.ensured_count() + 1
    &&& b.workspaces() == a.workspaces()
    &&& b.status() == a.status()
    &&& b.successful_before() == a.successful_before()
}

/// The end of a run in which every workspace was ensured, as `finish`
/// gives it.
pub open spec fn run_finished(
    r: WorkspaceReconciliation,
    finished_at: String,
    out: (RuntimeOwnerStatus, RuntimeOwnerReconcileReport),
) -> bool {
    &&& out.1 == (RuntimeOwnerReconcileReport {
        scanned_workspaces: r.workspaces().len() as usize,
        ensured_workspaces: r.workspaces().len() as usize,
        ensured_proxies: r.workspaces().len() as usize,
    })
    &&& out.0.state@ == STATE_HEALTHY@
    &&& out.0.last_error is None
    &&& out.0.last_report == out.1
    &&& out.0.last_reconcile_finished_at == Some(finished_at)
    &&& out.0.last_successful_reconcile_at == Some(finished_at)
    &&& out.0.last_reconcile_started_at == r.status().last_reconcile_started_at
}

/// The end of a run whose next workspace could not be ensured, as `fail`
/// gives it.
pub open spec fn run_failed(
    r: WorkspaceReconciliation,
    finished_at: String,
    error: String,
    out: (RuntimeOwnerStatus, RuntimeOwnerReconcileReport),
) -> bool {
    &&& out.1 == (RuntimeOwnerReconcileReport {
        scanned_workspaces: r.workspaces().len() as usize,
        ensured_workspaces: r.ensured_count() as usize,
        ensured_proxies: r.ensured_count() as usize,
    })
    &&& out.0.state@ == STATE_ERROR@
    &&& out.0.last_error == Some(error)
    &&& out.0.last_report == out.1
    &&& out.0.last_reconcile_finished_at == Some(finished_at)
    &&& out.0.last_reconcile_started_at == r.status().last_reconcile_started_at
    &&& out.0.last_successful_reconcile_at == r.successful_before()
}

/// A run of states: it starts as `start` leaves it and each next state is
/// one step further.
pub open spec fn is_run(
    before: RuntimeOwnerStatus,
    paths: Seq<String>,
    started_at: String,
    run: Seq<WorkspaceReconciliation>,
) -> bool {
    &&& run.len() > 0
    &&& run_started(before, paths, started_at, run[0])
    &&& forall|i: int| 0 <= i < run.len() - 1 ==> run_step(#[trigger] run[i], run[i + 1])
}

/// The distinct managed paths, as text.
pub open spec fn distinct_paths(paths: Seq<String>) -> Set<Seq<char>> {
    paths.map_values(|s: String| s@).to_set()
}

/// Along a run, the k-th state has ensured k workspaces, and the workspaces,
/// the status and the last success before the run stay those of the start.
proof fn lemma_run_prefix(
    before: RuntimeOwnerStatus,
    paths: Seq<String>,
    started_at: String,
    run: Seq<WorkspaceReconciliation>,
    k: int,
)
    requires
        is_run(before, paths, started_at, run),
        0 <= k < run.len(),
    ensures
        run[k].wf(),
        run[k].ensured_count() == k,
        run[k].workspaces() == run[0].workspaces(),
        run[k].status() == run[0].status(),
        run[k].successful_before() == before.last_successful_reconcile_at,
    decreases k,
{
    if k > 0 {
        lemma_run_prefix(before, paths, started_at, run, k - 1);
        assert(run_step(run[k - 1], run[k]));
    }
}

/// The workspaces of a run are the distinct managed paths, each once.
proof fn lemma_run_workspaces(paths: Seq<String>, ws: Seq<String>)
    requires
        strictly_sorted(ws),
        forall|p: Seq<char>| #[trigger] holds_path(ws, p) <==> holds_path(paths, p),
    ensures
        ws.len() == distinct_paths(paths).len(),
{
    let v = ws.map_values(|s: String| s@);
    assert(v.no_duplicates()) by {
        assert forall|i: int, j: int| 0 <= i < v.len() && 0 <= j < v.len() && i != j implies v[i] != v[j] by {
            if i < j {
                assert(seq_lt(ws[i]@, ws[j]@));
            } else {
                assert(seq_lt(ws[j]@, ws[i]@));
            }
            lemma_seq_order(ws[i]@, ws[j]@, ws[j]@);
        }
    }
    v.unique_seq_to_set();
    assert(v.to_set() =~= distinct_paths(paths)) by {
        assert forall|p: Seq<char>| v.to_set().contains(p) <==> distinct_paths(paths).contains(p) by {
            let pv = paths.map_values(|s: String| s@);
            if v.to_set().contains(p) {
                let i = choose|i: int| 0 <= i < v.len() && v[i] == p;
                assert(holds_path(ws, p)) by {
                    assert(ws[i]@ == p);
                }
                let j = choose|j: int| 0 <= j < paths.len() && #[trigger] paths[j]@ == p;
                assert(pv[j] == p);
            }
            if distinct_paths(paths).contains(p) {
                let j = choose|j: int| 0 <= j < pv.len() && pv[j] == p;
                assert(holds_path(paths, p)) by {
                    assert(paths[j]@ == p);
                }
                assert(holds_path(ws, p));
                let i = choose|i: int| 0 <= i < ws.len() && #[trigger] ws[i]@ == p;
                assert(v[i] == p);
            }
        }
    }
}

/// A reconciliation in which every managed workspace is ensured: each
/// distinct path is ensured once, in path order, one step each; at the end
/// the owner is healthy, with no error, and every workspace counted as
/// scanned, ensured and with its proxy ensured; the run's finish is both its
/// last finish and its last success, and its start is recorded.
pub proof fn lemma_reconciliation_succeeds(
    before: RuntimeOwnerStatus,
    paths: Seq<String>,
    started_at: String,
    run: Seq<WorkspaceReconciliation>,
    finished_at: String,
    out: (RuntimeOwnerStatus, RuntimeOwnerReconcileReport),
)
    requires
        is_run(before, paths, started_at, run),
        run.last().ensured_count() == run.last().workspaces().len(),
        run_finished(run.last(), finished_at, out),
    ensures
        strictly_sorted(run[0].workspaces()),
        run[0].workspaces().len() == distinct_paths(paths).len(),
        forall|k: int| 0 <= k < run.len() ==> (#[trigger] run[k]).ensured_count() == k && run[k].workspaces()
            == run[0].workspaces(),
        run.len() == distinct_paths(paths).len() + 1,
        out.1.scanned_workspaces == distinct_paths(paths).len(),
        out.1.ensured_workspaces == distinct_paths(paths).len(),
        out.1.ensured_proxies == distinct_paths(paths).len(),
        out.0.state@ == STATE_HEALTHY@,
        out.0.last_error is None,
        out.0.last_report == out.1,
        out.0.last_reconcile_started_at == Some(started_at),
        out.0.last_reconcile_finished_at == Some(finished_at),
        out.0.last_successful_reconcile_at == Some(finished_at),
{
    assert forall|k: int| 0 <= k < run.len() implies (#[trigger] run[k]).ensured_count() == k && run[k].workspaces()
        == run[0].workspaces() by {
        lemma_run_prefix(before, paths, started_at, run, k);
    }
    lemma_run_prefix(before, paths, started_at, run, run.len() - 1);
    lemma_run_workspaces(paths, run[0].workspaces());
}

/// A reconciliation that fails: the workspaces before the failing one (in
/// path order) were ensured, one step each, and the run stops there. The
/// owner is in error with that error, the report counts every distinct path
/// as scanned and as many ensured as steps were taken, and the last success
/// stays what it was before the run.
pub proof fn lemma_reconciliation_fails(
    before: RuntimeOwnerStatus,
    paths: Seq<String>,
    started_at: String,
    run: Seq<WorkspaceReconciliation>,
    finished_at: String,
    error: String,
    out: (RuntimeOwnerStatus, RuntimeOwnerReconcileReport),
)
    requires
        is_run(before, paths, started_at, run),
        run_failed(run.last(), finished_at, error, out),
    ensures
        strictly_sorted(run[0].workspaces()),
        run[0].workspaces().len() == distinct_paths(paths).len(),
        forall|k: int| 0 <= k < run.len() ==> (#[trigger] run[k]).ensured_count() == k && run[k].workspaces()
            == run[0].workspaces(),
        run.len() - 1 <= distinct_paths(paths).len(),
        out.1.scanned_workspaces == distinct_paths(paths).len(),
        out.1.ensured_workspaces == run.len() - 1,
        out.1.ensured_proxies == run.len() - 1,
        out.0.state@ == STATE_ERROR@,
        out.0.last_error == Some(error),
        out.0.last_report == out.1,
        out.0.last_reconcile_started_at == Some(started_at),
        out.0.last_reconcile_finished_at == Some(finished_at),
        out.0.last_successful_reconcile_at == before.last_successful_reconcile_at,
{
    assert forall|k: int| 0 <= k < run.len() implies (#[trigger] run[k]).ensured_count() == k && run[k].workspaces()
        == run[0].workspaces() by {
        lemma_run_prefix(before, paths, started_at, run, k);
    }
    lemma_run_prefix(before, paths, started_at, run, run.len() - 1);
    lemma_run_workspaces(paths, run[0].workspaces());
}

} // verus!

//! The local Codex home directory: its session index and recorded sessions.
//!
//! Reading the files is left to the caller; this module decides what the
//! index says, which sessions are the most recent, and how a session is
//! resolved from its index entry and its rollout's metadata.
use vstd::prelude::*;
use crate::paths::{joined, path_join};
use crate::string_map::{StringMap, distinct_keys, key_at, lemma_map_of, lemma_map_len};
use crate::text::{
    blank, contains_seq, ends_with, is_blank, lemma_seq_order, owned, seq_le, seq_lt, str_contains,
    str_ends_with, str_eq, str_lt,
};
use crate::thread_model::opt_view;

verus! {

/// The title given to a session whose index entry names none.
pub const UNTITLED_SESSION_TITLE: &'static str = "(untitled session)";

/// The directory under the user's home that holds Codex's files.
pub const CODEX_DIR_NAME: &'static str = ".codex";

/// The session index file, one JSON object per line.
pub const SESSION_INDEX_FILE_NAME: &'static str = "session_index.jsonl";

/// The directory that holds the session rollouts.
pub const SESSIONS_DIR_NAME: &'static str = "sessions";

/// The rollout event kind that carries a session's metadata.
pub const SESSION_META_KIND: &'static str = "session_meta";

/// The file-name suffix of a session rollout.
pub const ROLLOUT_SUFFIX: &'static str = ".jsonl";

/// A Codex home directory.
#[derive(Debug, Clone)]
pub struct CodexHome {
    root: String,
}

/// A session as listed in the session index.
#[derive(Debug, Clone)]
pub struct CodexSessionSummary {
    pub id: String,
    pub title: String,
    pub updated_at: String,
}

/// A session resolved to its recorded rollout.
#[derive(Debug, Clone)]
pub struct CodexSessionRecord {
    pub id: String,
    pub title: String,
    pub updated_at: Option<String>,
    pub cwd: String,
    pub rollout_path: String,
}

/// One line of the session index (a missing thread name reads as empty).
#[derive(Debug, Clone)]
pub struct SessionIndexEntry {
    pub id: String,
    pub thread_name: String,
    pub updated_at: String,
}

/// One event of a session rollout, as far as its metadata goes.
#[derive(Debug, Clone)]
pub struct SessionMetaEnvelope {
    pub kind: String,
    pub payload: SessionMetaPayload,
}

/// The metadata of a recorded session.
#[derive(Debug, Clone)]
pub struct SessionMetaPayload {
    pub id: String,
    pub cwd: String,
}

/// The index the entries make, by session id: a later line for an id
/// replaces an earlier one.
pub open spec fn index_map(es: Seq<SessionIndexEntry>) -> Map<Seq<char>, SessionIndexEntry>
    decreases es.len(),
{
    if es.len() == 0 {
        Map::empty()
    } else {
        index_map(es.drop_last()).insert(es.last().id@, es.last())
    }
}

/// The title shown for a thread name: the name, unless it is blank.
pub open spec fn title_for(name: Seq<char>) -> Seq<char> {
    if is_blank(name) {
        UNTITLED_SESSION_TITLE@
    } else {
        name
    }
}

/// `s` is the summary of index entry `e`.
pub open spec fn summarizes(s: CodexSessionSummary, e: SessionIndexEntry) -> bool {
    &&& s.id@ == e.id@
    &&& s.title@ == title_for(e.thread_name@)
    &&& s.updated_at@ == e.updated_at@
}

/// Most recently updated first (timestamps compared as text).
pub open spec fn newest_first(o: Seq<CodexSessionSummary>) -> bool {
    forall|a: int, b: int|
        #![trigger o[a], o[b]]
        0 <= a < b < o.len() ==> seq_le(o[b].updated_at@, o[a].updated_at@)
}

/// No session is listed twice.
pub open spec fn ids_distinct(o: Seq<CodexSessionSummary>) -> bool {
    forall|a: int, b: int| #![trigger o[a], o[b]] 0 <= a < b < o.len() ==> o[a].id@ != o[b].id@
}

/// Session `k` is listed.
pub open spec fn listed_id(o: Seq<CodexSessionSummary>, k: Seq<char>) -> bool {
    exists|a: int| 0 <= a < o.len() && #[trigger] o[a].id@ == k
}

/// Every listed session was updated no earlier than `u`.
pub open spec fn no_newer_than(o: Seq<CodexSessionSummary>, u: Seq<char>) -> bool {
    forall|a: int| 0 <= a < o.len() ==> seq_le(u, #[trigger] o[a].updated_at@)
}

/// `r` lists the `limit` most recently updated sessions of index `m`, newest
/// first, each summarized from its entry; sessions updated at the same time
/// may come in either order.
pub open spec fn is_recent_listing(
    r: Seq<CodexSessionSummary>,
    m: Map<Seq<char>, SessionIndexEntry>,
    limit: nat,
) -> bool {
    &&& r.len() == if limit < m.dom().len() {
        limit
    } else {
        m.dom().len()
    }
    &&& forall|a: int|
        0 <= a < r.len() ==> m.contains_key(#[trigger] r[a].id@) && summarizes(r[a], m[r[a].id@])
    &&& ids_distinct(r)
    &&& newest_first(r)
    &&& forall|k: Seq<char>|
        #[trigger] m.contains_key(k) && !listed_id(r, k) ==> no_newer_than(r, m[k].updated_at@)
}

/// The title of a resolved session: the name its index entry gives, unless
/// there is no entry or the name is blank.
pub open spec fn resolved_title(m: Map<Seq<char>, SessionIndexEntry>, id: Seq<char>) -> Seq<char> {
    if m.contains_key(id) {
        title_for(m[id].thread_name@)
    } else {
        UNTITLED_SESSION_TITLE@
    }
}

/// The update time of a resolved session, from its index entry.
pub open spec fn resolved_updated_at(m: Map<Seq<char>, SessionIndexEntry>, id: Seq<char>) -> Option<Seq<char>> {
    if m.contains_key(id) {
        Some(m[id].updated_at@)
    } else {
        None
    }
}

/// Every entry of the index is stored under its own id.
proof fn lemma_index_map_ids(es: Seq<SessionIndexEntry>)
    ensures
        forall|k: Seq<char>| #[trigger] index_map(es).contains_key(k) ==> index_map(es)[k].id@ == k,
    decreases es.len(),
{
    if es.len() > 0 {
        lemma_index_map_ids(es.drop_last());
        let m = index_map(es);
        assert(m == index_map(es.drop_last()).insert(es.last().id@, es.last()));
        assert forall|k: Seq<char>| #[trigger] m.contains_key(k) implies m[k].id@ == k by {
            if k != es.last().id@ {
                assert(index_map(es.drop_last()).contains_key(k));
            }
        }
    }
}

/// The session index built from its lines, in file order.
pub fn session_index(index: Vec<SessionIndexEntry>) -> (m: StringMap<SessionIndexEntry>)
    ensures
        m.wf(),
        m.view() == index_map(index@),
{
    let ghost all = index@;
    let mut rest = index;
    let mut map: StringMap<SessionIndexEntry> = StringMap::new();
    let ghost mut i: int = 0;
    proof {
        assert(all.take(0) =~= Seq::<SessionIndexEntry>::empty());
        assert(all.skip(0) =~= all);
    }
    while rest.len() > 0
        invariant
            map.wf(),
            0 <= i <= all.len(),
            rest@ == all.skip(i),
            map.view() == index_map(all.take(i)),
        decreases rest@.len(),
    {
        let e = rest.remove(0);
        let key = e.id.clone();
        proof {
            assert(e == all[i]);
            assert(all.take(i + 1).drop_last() =~= all.take(i));
            assert(all.take(i + 1).last() == all[i]);
            assert(all.skip(i).remove(0) =~= all.skip(i + 1));
        }
        map.insert(key, e);
        proof {
            i = i + 1;
        }
    }
    proof {
        assert(all.take(i) =~= all);
    }
    map
}

/// The summary shown for an index entry.
fn summary_of(e: &SessionIndexEntry) -> (s: CodexSessionSummary)
    ensures
        summarizes(s, *e),
{
    let title = if blank(e.thread_name.as_str()) {
        owned(UNTITLED_SESSION_TITLE)
    } else {
        e.thread_name.clone()
    };
    CodexSessionSummary { id: e.id.clone(), title, updated_at: e.updated_at.clone() }
}

/// Inserts `s` into a listing that is newest first, after every entry
/// updated no earlier than it, and drops the last entry when the listing
/// then holds more than `limit`. Returns where `s` was inserted.
fn insert_ranked(out: &mut Vec<CodexSessionSummary>, s: CodexSessionSummary, limit: usize) -> (p: usize)
    requires
        newest_first(old(out)@),
        old(out)@.len() <= limit,
    ensures
        p <= old(out)@.len(),
        forall|a: int| 0 <= a < p ==> seq_le(s.updated_at@, #[trigger] old(out)@[a].updated_at@),
        p < old(out)@.len() ==> seq_lt(old(out)@[p as int].updated_at@, s.updated_at@),
        final(out)@ == if old(out)@.len() < limit {
            old(out)@.insert(p as int, s)
        } else {
            old(out)@.insert(p as int, s).drop_last()
        },
        newest_first(final(out)@),
{
    let ghost o = out@;
    let mut p: usize = 0;
    while p < out.len() && !str_lt(out[p].updated_at.as_str(), s.updated_at.as_str())
        invariant
            out@ == o,
            p <= o.len(),
            forall|a: int| 0 <= a < p ==> seq_le(s.updated_at@, #[trigger] o[a].updated_at@),
        decreases o.len() - p,
    {
        proof {
            lemma_seq_order(s.updated_at@, o[p as int].updated_at@, s.updated_at@);
        }
        p += 1;
    }
    let ghost gs = s;
    out.insert(p, s);
    let ghost n = o.insert(p as int, gs);
    proof {
        assert(out@ == n);
        assert forall|a: int, b: int| 0 <= a < b < n.len() implies seq_le(
            #[trigger] n[b].updated_at@,
            #[trigger] n[a].updated_at@,
        ) by {
            if b < p {
                assert(n[a] == o[a] && n[b] == o[b]);
            } else if b == p {
                assert(n[a] == o[a]);
            } else if a < p {
                assert(n[a] == o[a] && n[b] == o[b - 1]);
                assert(seq_le(o[b - 1].updated_at@, o[a].updated_at@));
            } else if a == p {
                assert(n[b] == o[b - 1]);
                if b - 1 > p {
                    assert(seq_le(o[b - 1].updated_at@, o[p as int].updated_at@));
                }
                lemma_seq_order(o[b - 1].updated_at@, o[p as int].updated_at@, gs.updated_at@);
                lemma_seq_order(o[p as int].updated_at@, o[p as int].updated_at@, gs.updated_at@);
            } else {
                assert(n[a] == o[a - 1] && n[b] == o[b - 1]);
                assert(seq_le(o[b - 1].updated_at@, o[a - 1].updated_at@));
            }
        }
    }
    if out.len() > limit {
        out.pop();
        proof {
            let d = n.drop_last();
            assert(out@ == d);
            assert forall|a: int, b: int| 0 <= a < b < d.len() implies seq_le(
                #[trigger] d[b].updated_at@,
                #[trigger] d[a].updated_at@,
            ) by {
                assert(d[a] == n[a] && d[b] == n[b]);
            }
        }
    }
    p
}

/// The ranking so far: `out` holds the `limit` (or fewer) newest of the
/// summaries `built`, newest first, each once; a summary left out is no
/// newer than any listed one.
spec fn rank_inv(out: Seq<CodexSessionSummary>, built: Seq<CodexSessionSummary>, limit: int) -> bool {
    &&& out.len() == if limit < built.len() {
        limit
    } else {
        built.len() as int
    }
    &&& newest_first(out)
    &&& ids_distinct(out)
    &&& forall|a: int|
        0 <= a < out.len() ==> exists|t: int| 0 <= t < built.len() && #[trigger] built[t] == #[trigger] out[a]
    &&& out.len() < limit ==> forall|t: int| 0 <= t < built.len() ==> out.contains(#[trigger] built[t])
    &&& forall|t: int|
        0 <= t < built.len() && !out.contains(#[trigger] built[t]) ==> no_newer_than(
            out,
            built[t].updated_at@,
        )
}

/// Inserting one more summary (with an id not seen before) keeps the
/// ranking.
proof fn lemma_rank_step(
    o: Seq<CodexSessionSummary>,
    built: Seq<CodexSessionSummary>,
    gs: CodexSessionSummary,
    p: int,
    limit: int,
    outn: Seq<CodexSessionSummary>,
)
    requires
        rank_inv(o, built, limit),
        0 <= limit,
        o.len() <= limit,
        0 <= p <= o.len(),
        forall|a: int| 0 <= a < p ==> seq_le(gs.updated_at@, #[trigger] o[a].updated_at@),
        p < o.len() ==> seq_lt(o[p].updated_at@, gs.updated_at@),
        outn == if o.len() < limit {
            o.insert(p, gs)
        } else {
            o.insert(p, gs).drop_last()
        },
        newest_first(outn),
        forall|t: int| 0 <= t < built.len() ==> #[trigger] built[t].id@ != gs.id@,
    ensures
        rank_inv(outn, built.push(gs), limit),
{
    let j = built.len() as int;
        let nb = built.push(gs);
        let ins = o.insert(p, gs);
        assert(nb[j] == gs);
        assert forall|t: int| 0 <= t < j implies #[trigger] nb[t] == built[t] by {}
        // The new summary's id differs from every listed one.
        assert forall|a: int| 0 <= a < o.len() implies #[trigger] o[a].id@ != gs.id@ by {
            let t = choose|t: int| 0 <= t < j && #[trigger] built[t] == o[a];
        }
        // Where each entry of the new listing comes from.
        assert forall|a: int| 0 <= a < ins.len() implies (a < p && #[trigger] ins[a] == o[a]) || (a
            == p && ins[a] == gs) || (a > p && ins[a] == o[a - 1]) by {}
        assert forall|a: int| 0 <= a < outn.len() implies #[trigger] outn[a] == ins[a] by {}
        assert forall|a: int| 0 <= a < outn.len() implies exists|t: int|
            0 <= t < j + 1 && #[trigger] nb[t] == #[trigger] outn[a] by {
            if a < p {
                let t = choose|t: int| 0 <= t < j && #[trigger] built[t] == o[a];
                assert(nb[t] == outn[a]);
            } else if a == p {
                assert(nb[j] == outn[a]);
            } else {
                let t = choose|t: int| 0 <= t < j && #[trigger] built[t] == o[a - 1];
                assert(nb[t] == outn[a]);
            }
        }
        assert forall|a: int, b: int| 0 <= a < b < outn.len() implies #[trigger] outn[a].id@
            != #[trigger] outn[b].id@ by {
            assert(outn[a] == ins[a] && outn[b] == ins[b]);
            if a < p && b < p {
                assert(o[a].id@ != o[b].id@);
            } else if a < p && b > p {
                assert(o[a].id@ != o[b - 1].id@);
            } else if a > p && b > p {
                assert(o[a - 1].id@ != o[b - 1].id@);
            }
        }
        if o.len() < limit {
            assert forall|t: int| 0 <= t < j + 1 implies outn.contains(#[trigger] nb[t]) by {
                if t == j {
                    assert(outn[p] == gs);
                } else {
                    assert(o.contains(built[t]));
                    let i = choose|i: int| 0 <= i < o.len() && o[i] == built[t];
                    if i < p {
                        assert(outn[i] == built[t]);
                    } else {
                        assert(outn[i + 1] == built[t]);
                    }
                }
            }
        } else if p == o.len() {
            assert(outn =~= o);
            assert forall|t: int| 0 <= t < j + 1 && !outn.contains(#[trigger] nb[t]) implies no_newer_than(
                outn,
                nb[t].updated_at@,
            ) by {
                if t == j {
                    assert forall|a: int| 0 <= a < outn.len() implies seq_le(
                        gs.updated_at@,
                        #[trigger] outn[a].updated_at@,
                    ) by {
                        assert(outn[a] == o[a]);
                    }
                }
            }
        } else {
            let last = o[o.len() - 1];
            assert forall|a: int| 0 <= a < outn.len() implies seq_le(
                last.updated_at@,
                #[trigger] outn[a].updated_at@,
            ) by {
                if a < p {
                    lemma_seq_order(last.updated_at@, last.updated_at@, last.updated_at@);
                    if a < o.len() - 1 {
                        assert(seq_le(o[o.len() - 1].updated_at@, o[a].updated_at@));
                    }
                } else if a == p {
                    if p < o.len() - 1 {
                        assert(seq_le(o[o.len() - 1].updated_at@, o[p].updated_at@));
                    }
                    lemma_seq_order(last.updated_at@, o[p].updated_at@, gs.updated_at@);
                    lemma_seq_order(o[p].updated_at@, o[p].updated_at@, gs.updated_at@);
                } else {
                    assert(outn[a] == o[a - 1]);
                    lemma_seq_order(last.updated_at@, last.updated_at@, last.updated_at@);
                    if a - 1 < o.len() - 1 {
                        assert(seq_le(o[o.len() - 1].updated_at@, o[a - 1].updated_at@));
                    }
                }
            }
            assert forall|t: int| 0 <= t < j + 1 && !outn.contains(#[trigger] nb[t]) implies no_newer_than(
                outn,
                nb[t].updated_at@,
            ) by {
                assert(outn[p] == gs);
                assert(t != j);
                assert(nb[t] == built[t]);
                let u = built[t].updated_at@;
                if o.contains(built[t]) {
                    let i = choose|i: int| 0 <= i < o.len() && o[i] == built[t];
                    if i < p {
                        assert(outn[i] == built[t]);
                    } else if i < o.len() - 1 {
                        assert(outn[i + 1] == built[t]);
                    }
                    assert(i == o.len() - 1);
                    lemma_seq_order(u, u, u);
                } else {
                    assert(seq_le(u, o[o.len() - 1].updated_at@));
                }
                assert(seq_le(u, last.updated_at@));
                assert forall|a: int| 0 <= a < outn.len() implies seq_le(
                    u,
                    #[trigger] outn[a].updated_at@,
                ) by {
                    assert(seq_le(last.updated_at@, outn[a].updated_at@));
                    lemma_seq_order(u, last.updated_at@, outn[a].updated_at@);
                }
            }
        }
}

impl CodexHome {
    /// A Codex home rooted at `root`.
    pub fn new(root: String) -> (h: Self)
        ensures
            h.root_path() == root@,
    {
        CodexHome { root }
    }

    /// The Codex home under a user's home directory.
    pub fn in_home_dir(home: &str) -> (h: Self)
        ensures
            h.root_path() == joined(home@, CODEX_DIR_NAME@),
    {
        CodexHome { root: path_join(home, CODEX_DIR_NAME) }
    }

    pub closed spec fn root_path(&self) -> Seq<char> {
        self.root@
    }

    /// The root directory.
    pub fn root(&self) -> (r: &str)
        ensures
            r@ == self.root_path(),
    {
        self.root.as_str()
    }

    /// Where the session index is.
    pub fn session_index_path(&self) -> (r: String)
        ensures
            r@ == joined(self.root_path(), SESSION_INDEX_FILE_NAME@),
    {
        path_join(self.root.as_str(), SESSION_INDEX_FILE_NAME)
    }

    /// The directory searched for session rollouts.
    pub fn sessions_root(&self) -> (r: String)
        ensures
            r@ == joined(self.root_path(), SESSIONS_DIR_NAME@),
    {
        path_join(self.root.as_str(), SESSIONS_DIR_NAME)
    }

    /// The `limit` most recently updated sessions of the index whose lines
    /// are `index`, newest first.
    pub fn list_recent_sessions(&self, index: Vec<SessionIndexEntry>, limit: usize) -> (r: Vec<CodexSessionSummary>)
        ensures
            is_recent_listing(r@, index_map(index@), limit as nat),
    {
        let ghost lines = index@;
        let map = session_index(index);
        let ghost m = map.view();
        proof {
            lemma_index_map_ids(lines);
        }
        let ents = map.into_entries();
        proof {
            lemma_map_of(ents@);
            lemma_map_len(ents@);
            assert forall|t: int| 0 <= t < ents@.len() implies #[trigger] ents@[t].1.id@ == ents@[t].0@ by {
                assert(key_at(ents@, ents@[t].0@, t));
                assert(m.contains_key(ents@[t].0@));
            }
        }
        let mut out: Vec<CodexSessionSummary> = Vec::new();
        let ghost mut built: Seq<CodexSessionSummary> = Seq::empty();
        let mut j: usize = 0;
        while j < ents.len()
            invariant
                j <= ents@.len(),
                distinct_keys(ents@),
                forall|t: int| 0 <= t < ents@.len() ==> #[trigger] ents@[t].1.id@ == ents@[t].0@,
                built.len() == j,
                forall|t: int| 0 <= t < j ==> summarizes(#[trigger] built[t], ents@[t].1),
                rank_inv(out@, built, limit as int),
            decreases ents@.len() - j,
        {
            let s = summary_of(&ents[j].1);
            let ghost gs = s;
            let ghost o = out@;
            let p = insert_ranked(&mut out, s, limit);
            proof {
                assert forall|t: int| 0 <= t < j implies #[trigger] built[t].id@ != gs.id@ by {
                    assert(ents@[t].0@ != ents@[j as int].0@);
                }
                lemma_rank_step(o, built, gs, p as int, limit as int, out@);
                built = built.push(gs);
                assert forall|t: int| 0 <= t < j + 1 implies summarizes(#[trigger] built[t], ents@[t].1) by {
                    if t < j {
                        assert(built[t] == built.drop_last()[t]);
                    }
                }
            }
            j += 1;
        }
        proof {
            assert forall|a: int| 0 <= a < out@.len() implies m.contains_key(#[trigger] out@[a].id@)
                && summarizes(out@[a], m[out@[a].id@]) by {
                let t = choose|t: int| 0 <= t < j && #[trigger] built[t] == out@[a];
                assert(summarizes(built[t], ents@[t].1));
                assert(key_at(ents@, ents@[t].0@, t));
            }
            assert forall|k: Seq<char>| #[trigger] m.contains_key(k) && !listed_id(out@, k) implies no_newer_than(
                out@,
                m[k].updated_at@,
            ) by {
                let t = choose|t: int| key_at(ents@, k, t);
                assert(summarizes(built[t], ents@[t].1));
                if out@.contains(built[t]) {
                    let a = choose|a: int| 0 <= a < out@.len() && out@[a] == built[t];
                    assert(out@[a].id@ == k);
                }
            }
        }
        out
    }

    /// The session `session_id`, from the index whose lines are `index` and
    /// the rollout found for it, if any (its path and the metadata it
    /// records); no record when no rollout was found.
    pub fn resolve_session(
        &self,
        index: Vec<SessionIndexEntry>,
        session_id: &str,
        rollout: Option<(String, SessionMetaPayload)>,
    ) -> (r: Option<CodexSessionRecord>)
        ensures
            match rollout {
                None => r is None,
                Some((path, meta)) => r matches Some(rec) && rec.id@ == meta.id@ && rec.title@
                    == resolved_title(index_map(index@), session_id@) && opt_view(rec.updated_at)
                    == resolved_updated_at(index_map(index@), session_id@) && rec.cwd@ == meta.cwd@
                    && rec.rollout_path@ == path@,
            },
    {
        let map = session_index(index);
        let (path, meta) = match rollout {
            Some(found) => found,
            None => return None,
        };
        let (title, updated_at) = match map.get(session_id) {
            Some(entry) => {
                let title = if blank(entry.thread_name.as_str()) {
                    owned(UNTITLED_SESSION_TITLE)
                } else {
                    entry.thread_name.clone()
                };
                (title, Some(entry.updated_at.clone()))
            },
            None => (owned(UNTITLED_SESSION_TITLE), None),
        };
        Some(CodexSessionRecord { id: meta.id, title, updated_at, cwd: meta.cwd, rollout_path: path })
    }
}

/// A file is a rollout of session `session_id` when its name ends in
/// `.jsonl` and contains the session id.
pub fn is_rollout_for(file_name: &str, session_id: &str) -> (b: bool)
    ensures
        b == (ends_with(file_name@, ROLLOUT_SUFFIX@) && contains_seq(file_name@, session_id@)),
{
    str_ends_with(file_name, ROLLOUT_SUFFIX) && str_contains(file_name, session_id)
}

/// The session metadata a rollout event carries, when it is the
/// `session_meta` event.
pub fn session_meta_payload(event: SessionMetaEnvelope) -> (r: Option<SessionMetaPayload>)
    ensures
        r is Some <==> event.kind@ == SESSION_META_KIND@,
        r matches Some(p) ==> p == event.payload,
{
    if str_eq(event.kind.as_str(), SESSION_META_KIND) {
        Some(event.payload)
    } else {
        None
    }
}

} // verus!

//! Forum topic titles that show a thread's binding state, the viewer notices
//! shown while a local CLI drives a thread's session, and the busy texts.
use vstd::prelude::*;
use crate::paths::{file_name_of, path_file_name};
use crate::text::{
    blank, chars_of, decimal, decimal_string, is_blank, owned, push_str, str_eq,
    string_from_range, trim, trimmed,
};
use crate::thread_model::{
    opt_view, turn_busy, CliOwnerClaim, SessionAttachmentState, SessionBinding, SessionCurrentStatus,
    SessionStatusOwner, ThreadRecord, WorkspaceAggregateStatus, WorkspaceStatusPhase,
};

verus! {

/// Maximum characters of a Telegram forum topic title.
pub const TELEGRAM_TOPIC_TITLE_MAX_CHARS: usize = 128;

/// The CLI state a topic title shows.
#[derive(Debug, Clone, Copy, PartialEq, Eq, Structural)]
pub enum CliTopicMarker {
    NoMarker,
    Cli,
    CliConflict,
    Attach,
}

/// The viewer notice currently shown in a thread: which CLI shell lifecycle
/// it belongs to.
#[derive(Debug, Clone, PartialEq, Eq)]
pub struct CliViewerInjectionState {
    pub lifecycle_id: String,
    pub shell_pid: u32,
}

/// What to do about the viewer notice of a thread.
#[derive(Debug, Clone, PartialEq, Eq)]
pub enum CliViewerInjectionTransition {
    Unchanged,
    Enter(CliViewerInjectionState),
    Exit,
    ExitAndEnter(CliViewerInjectionState),
    ClearSilently,
}

/// The title cut to fit a topic: a suffix of the maximum length or more is
/// cut itself; otherwise the base is kept whole when it fits beside the
/// suffix, or cut with `...` so that it does.
pub open spec fn fit_title(base: Seq<char>, suffix: Seq<char>) -> Seq<char> {
    let max = TELEGRAM_TOPIC_TITLE_MAX_CHARS as int;
    if suffix.len() >= max {
        suffix.take(max)
    } else if base.len() <= max - suffix.len() {
        base + suffix
    } else {
        let keep = if max - suffix.len() >= 3 {
            max - suffix.len() - 3
        } else {
            0
        };
        base.take(keep) + "..."@ + suffix
    }
}

/// The last component of a workspace path, trimmed, when it is not blank.
pub open spec fn workspace_basename(path: Option<Seq<char>>) -> Option<Seq<char>> {
    match path {
        Some(p) => match file_name_of(p) {
            Some(n) => if is_blank(n) {
                None
            } else {
                Some(trimmed(n))
            },
            None => None,
        },
        None => None,
    }
}

/// The title base: the thread's title when it is not blank, else the
/// workspace's folder name, else `Unbound`.
pub open spec fn title_base(title: Option<Seq<char>>, workspace: Option<Seq<char>>) -> Seq<char> {
    if title is Some && !is_blank(title->0) {
        trimmed(title->0)
    } else if workspace_basename(workspace) is Some {
        workspace_basename(workspace)->0
    } else {
        "Unbound"@
    }
}

/// The suffix that a marker adds to a title.
pub open spec fn marker_suffix(marker: CliTopicMarker) -> Seq<char> {
    match marker {
        CliTopicMarker::Attach => " · attach"@,
        CliTopicMarker::Cli => " · cli"@,
        CliTopicMarker::CliConflict => " · cli!"@,
        CliTopicMarker::NoMarker => Seq::empty(),
    }
}

/// The topic title of a thread.
pub open spec fn topic_title(
    title: Option<Seq<char>>,
    broken: bool,
    workspace: Option<Seq<char>>,
    marker: CliTopicMarker,
) -> Seq<char> {
    fit_title(
        title_base(title, workspace),
        marker_suffix(marker) + if broken {
            " · broken"@
        } else {
            Seq::empty()
        },
    )
}

/// Live CLI sessions in the workspace conflict with the owner claim: there
/// is no claim, more than one live session, or the claimed session is not
/// among them.
pub open spec fn cli_conflict(aggregate: Option<Seq<Seq<char>>>, claim_session: Option<Option<Seq<char>>>) -> bool {
    match aggregate {
        None => false,
        Some(live) => {
            if live.len() == 0 {
                false
            } else {
                match claim_session {
                    None => true,
                    Some(expected) => live.len() > 1 || match expected {
                        None => false,
                        Some(e) => forall|i: int| 0 <= i < live.len() ==> live[i] != e,
                    },
                }
            }
        },
    }
}

pub open spec fn live_ids(aggregate: Option<WorkspaceAggregateStatus>) -> Option<Seq<Seq<char>>> {
    match aggregate {
        Some(a) => Some(a.live_cli_session_ids@.map_values(|s: String| s@)),
        None => None,
    }
}

pub open spec fn claim_session(claim: Option<CliOwnerClaim>) -> Option<Option<Seq<char>>> {
    match claim {
        Some(c) => Some(opt_view(c.session_id)),
        None => None,
    }
}

/// The marker of a thread: `attach` while the CLI has been handed the
/// session, `cli!` on a conflict, `cli` for the thread the CLI claims.
pub open spec fn topic_marker(
    thread_key: Seq<char>,
    session: Option<SessionBinding>,
    aggregate: Option<WorkspaceAggregateStatus>,
    claim: Option<CliOwnerClaim>,
) -> CliTopicMarker {
    if session is Some && session->0.attachment_state == SessionAttachmentState::CliHandoff {
        CliTopicMarker::Attach
    } else if cli_conflict(live_ids(aggregate), claim_session(claim)) {
        CliTopicMarker::CliConflict
    } else if claim is Some && claim->0.thread_key@ == thread_key {
        CliTopicMarker::Cli
    } else {
        CliTopicMarker::NoMarker
    }
}

/// The lifecycle of a CLI shell that claims a thread:
/// `<thread_key>:<shell_pid>:<started_at>`.
pub open spec fn lifecycle_id(claim: CliOwnerClaim) -> Seq<char> {
    claim.thread_key@ + seq![':'] + decimal(claim.shell_pid as nat) + seq![':'] + claim.started_at@
}

/// The viewer notice a thread should show: one for the claiming shell when
/// the thread is marked `cli` and the claim is this thread's.
pub open spec fn viewer_state(
    marker: CliTopicMarker,
    thread_key: Seq<char>,
    claim: Option<CliOwnerClaim>,
) -> Option<(Seq<char>, u32)> {
    if marker == CliTopicMarker::Cli && claim is Some && claim->0.thread_key@ == thread_key {
        Some((lifecycle_id(claim->0), claim->0.shell_pid))
    } else {
        None
    }
}

/// The transition holds what should happen to the viewer notice, given the
/// one shown before (by lifecycle) and the one due now.
pub open spec fn transition_holds(
    t: CliViewerInjectionTransition,
    previous: Option<Seq<char>>,
    marker: CliTopicMarker,
    current: Option<(Seq<char>, u32)>,
) -> bool {
    match marker {
        CliTopicMarker::Attach | CliTopicMarker::CliConflict => if previous is Some {
            t == CliViewerInjectionTransition::ClearSilently
        } else {
            t == CliViewerInjectionTransition::Unchanged
        },
        CliTopicMarker::NoMarker => if previous is Some {
            t == CliViewerInjectionTransition::Exit
        } else {
            t == CliViewerInjectionTransition::Unchanged
        },
        CliTopicMarker::Cli => match (previous, current) {
            (None, Some(c)) => t matches CliViewerInjectionTransition::Enter(s) && s.lifecycle_id@
                == c.0 && s.shell_pid == c.1,
            (Some(p), Some(c)) => if p == c.0 {
                t == CliViewerInjectionTransition::Unchanged
            } else {
                t matches CliViewerInjectionTransition::ExitAndEnter(s) && s.lifecycle_id@ == c.0
                    && s.shell_pid == c.1
            },
            _ => t == CliViewerInjectionTransition::Unchanged,
        },
    }
}

/// A title fitted to the limit stays within it and keeps its whole suffix,
/// for any suffix that leaves room for the `...` of a cut base; a base that
/// fits beside the suffix is kept whole.
pub proof fn lemma_fit_title_bounds(base: Seq<char>, suffix: Seq<char>)
    requires
        suffix.len() + 3 <= TELEGRAM_TOPIC_TITLE_MAX_CHARS,
    ensures
        fit_title(base, suffix).len() <= TELEGRAM_TOPIC_TITLE_MAX_CHARS,
        crate::text::ends_with(fit_title(base, suffix), suffix),
        base.len() + suffix.len() <= TELEGRAM_TOPIC_TITLE_MAX_CHARS ==> fit_title(base, suffix)
            == base + suffix,
{
    reveal_strlit("...");
    let r = fit_title(base, suffix);
    assert(r.skip(r.len() - suffix.len()) =~= suffix);
}

/// Every topic title fits Telegram's limit and ends with the suffix of its
/// marker and broken state.
pub proof fn lemma_topic_title_fits(
    title: Option<Seq<char>>,
    broken: bool,
    workspace: Option<Seq<char>>,
    marker: CliTopicMarker,
)
    ensures
        topic_title(title, broken, workspace, marker).len() <= TELEGRAM_TOPIC_TITLE_MAX_CHARS,
        crate::text::ends_with(
            topic_title(title, broken, workspace, marker),
            marker_suffix(marker) + if broken {
                " · broken"@
            } else {
                Seq::empty()
            },
        ),
{
    reveal_strlit(" · attach");
    reveal_strlit(" · cli");
    reveal_strlit(" · cli!");
    reveal_strlit(" · broken");
    let suffix = marker_suffix(marker) + if broken {
        " · broken"@
    } else {
        Seq::<char>::empty()
    };
    assert(" · broken"@.len() == 9);
    assert(marker_suffix(marker).len() <= 9) by {
        assert(" · attach"@.len() == 9);
        assert(" · cli"@.len() == 6);
        assert(" · cli!"@.len() == 7);
    }
    assert(suffix.len() <= 18);
    lemma_fit_title_bounds(title_base(title, workspace), suffix);
}

/// `truncate_topic_base`: the title from a base and a suffix, fitted to
/// the topic title limit.
pub fn truncate_topic_base(base: &str, suffix: &str) -> (r: String)
    ensures
        r@ == fit_title(base@, suffix@),
{
    let b = chars_of(base);
    let s = chars_of(suffix);
    let max = TELEGRAM_TOPIC_TITLE_MAX_CHARS;
    if s.len() >= max {
        return string_from_range(&s, 0, max);
    }
    let max_base = max - s.len();
    if b.len() <= max_base {
        let mut r = owned(base);
        push_str(&mut r, suffix);
        return r;
    }
    let keep = max_base.saturating_sub(3);
    let mut r = string_from_range(&b, 0, keep);
    push_str(&mut r, "...");
    push_str(&mut r, suffix);
    r
}

/// The folder name of a workspace path, trimmed, when it is not blank.
pub fn workspace_basename_of(path: Option<&str>) -> (r: Option<String>)
    ensures
        opt_view(r) == workspace_basename(
            match path {
                Some(p) => Some(p@),
                None => None,
            },
        ),
{
    match path {
        Some(p) => match path_file_name(p) {
            Some(name) => {
                if blank(name.as_str()) {
                    None
                } else {
                    Some(trim(name.as_str()))
                }
            },
            None => None,
        },
        None => None,
    }
}

/// The topic title of a thread.
pub fn render_topic_title(record: &ThreadRecord, workspace_path: Option<&str>, marker: CliTopicMarker) -> (r: String)
    ensures
        r@ == topic_title(
            opt_view(record.metadata.title),
            record.metadata.session_broken,
            match workspace_path {
                Some(p) => Some(p@),
                None => None,
            },
            marker,
        ),
{
    let base = match &record.metadata.title {
        Some(t) if !blank(t.as_str()) => trim(t.as_str()),
        _ => match workspace_basename_of(workspace_path) {
            Some(name) => name,
            None => owned("Unbound"),
        },
    };
    let mut suffix = String::new();
    match marker {
        CliTopicMarker::Attach => push_str(&mut suffix, " · attach"),
        CliTopicMarker::Cli => push_str(&mut suffix, " · cli"),
        CliTopicMarker::CliConflict => push_str(&mut suffix, " · cli!"),
        CliTopicMarker::NoMarker => {},
    }
    if record.metadata.session_broken {
        push_str(&mut suffix, " · broken");
    }
    assert(suffix@ =~= marker_suffix(marker) + if record.metadata.session_broken {
        " · broken"@
    } else {
        Seq::empty()
    });
    truncate_topic_base(base.as_str(), suffix.as_str())
}

/// Whether live CLI sessions conflict with the workspace's owner claim.
pub fn workspace_cli_conflict(aggregate: Option<&WorkspaceAggregateStatus>, owner_claim: Option<&CliOwnerClaim>) -> (b: bool)
    ensures
        b == cli_conflict(
            live_ids(
                match aggregate {
                    Some(a) => Some(*a),
                    None => None,
                },
            ),
            claim_session(
                match owner_claim {
                    Some(c) => Some(*c),
                    None => None,
                },
            ),
        ),
{
    let agg = match aggregate {
        Some(a) => a,
        None => return false,
    };
    let live = &agg.live_cli_session_ids;
    let ghost ids = live@.map_values(|s: String| s@);
    assert(ids.len() == live@.len());
    if live.len() == 0 {
        return false;
    }
    let claim = match owner_claim {
        Some(c) => c,
        None => return true,
    };
    if live.len() > 1 {
        return true;
    }
    let expected = match &claim.session_id {
        Some(e) => e,
        None => return false,
    };
    let mut i: usize = 0;
    while i < live.len()
        invariant
            i <= live@.len(),
            ids == live@.map_values(|s: String| s@),
            ids.len() == 1,
            aggregate == Some(agg),
            owner_claim == Some(claim),
            live == &agg.live_cli_session_ids,
            claim.session_id == Some(*expected),
            forall|j: int| 0 <= j < i ==> ids[j] != expected@,
        decreases live@.len() - i,
    {
        if str_eq(live[i].as_str(), expected.as_str()) {
            assert(ids[i as int] == expected@);
            assert(!cli_conflict(Some(ids), Some(Some(expected@))));
            return false;
        }
        i += 1;
    }
    true
}

/// The CLI marker of a thread's topic title.
pub fn cli_topic_marker_for_record(
    record: &ThreadRecord,
    session: Option<&SessionBinding>,
    aggregate: Option<&WorkspaceAggregateStatus>,
    owner_claim: Option<&CliOwnerClaim>,
) -> (m: CliTopicMarker)
    ensures
        m == topic_marker(
            record.metadata.thread_key@,
            match session {
                Some(s) => Some(*s),
                None => None,
            },
            match aggregate {
                Some(a) => Some(*a),
                None => None,
            },
            match owner_claim {
                Some(c) => Some(*c),
                None => None,
            },
        ),
{
    if let Some(binding) = session {
        if binding.attachment_state == SessionAttachmentState::CliHandoff {
            return CliTopicMarker::Attach;
        }
    }
    if workspace_cli_conflict(aggregate, owner_claim) {
        return CliTopicMarker::CliConflict;
    }
    if let Some(claim) = owner_claim {
        if str_eq(claim.thread_key.as_str(), record.metadata.thread_key.as_str()) {
            return CliTopicMarker::Cli;
        }
    }
    CliTopicMarker::NoMarker
}

/// The short label of a marker.
pub fn cli_marker_label(marker: CliTopicMarker) -> (r: &'static str)
    ensures
        r@ == match marker {
            CliTopicMarker::NoMarker => "none"@,
            CliTopicMarker::Cli => ".cli"@,
            CliTopicMarker::CliConflict => ".cli!"@,
            CliTopicMarker::Attach => ".attach"@,
        },
{
    match marker {
        CliTopicMarker::NoMarker => "none",
        CliTopicMarker::Cli => ".cli",
        CliTopicMarker::CliConflict => ".cli!",
        CliTopicMarker::Attach => ".attach",
    }
}

/// The viewer notice due for a thread.
pub fn cli_viewer_injection_state(marker: CliTopicMarker, record: &ThreadRecord, owner_claim: Option<&CliOwnerClaim>) -> (r: Option<CliViewerInjectionState>)
    ensures
        match viewer_state(
            marker,
            record.metadata.thread_key@,
            match owner_claim {
                Some(c) => Some(*c),
                None => None,
            },
        ) {
            Some(v) => r matches Some(s) && s.lifecycle_id@ == v.0 && s.shell_pid == v.1,
            None => r is None,
        },
{
    if marker != CliTopicMarker::Cli {
        return None;
    }
    let claim = match owner_claim {
        Some(c) => c,
        None => return None,
    };
    if !str_eq(claim.thread_key.as_str(), record.metadata.thread_key.as_str()) {
        return None;
    }
    let mut id = owned(claim.thread_key.as_str());
    push_str(&mut id, ":");
    let pid = decimal_string(claim.shell_pid as u64);
    push_str(&mut id, pid.as_str());
    push_str(&mut id, ":");
    push_str(&mut id, claim.started_at.as_str());
    proof {
        reveal_strlit(":");
    }
    assert(id@ =~= lifecycle_id(*claim));
    Some(CliViewerInjectionState { lifecycle_id: id, shell_pid: claim.shell_pid })
}

/// What to do about a thread's viewer notice: enter when the claiming
/// shell's notice is due and none is shown, replace it when the lifecycle
/// changed, leave it when the lifecycle is the same, exit when the marker
/// is gone, and clear it without notice on `attach` or a conflict.
pub fn cli_viewer_injection_transition(
    previous: Option<&CliViewerInjectionState>,
    marker: CliTopicMarker,
    record: &ThreadRecord,
    owner_claim: Option<&CliOwnerClaim>,
) -> (t: CliViewerInjectionTransition)
    ensures
        transition_holds(
            t,
            match previous {
                Some(p) => Some(p.lifecycle_id@),
                None => None,
            },
            marker,
            viewer_state(
                marker,
                record.metadata.thread_key@,
                match owner_claim {
                    Some(c) => Some(*c),
                    None => None,
                },
            ),
        ),
{
    let current = cli_viewer_injection_state(marker, record, owner_claim);
    match marker {
        CliTopicMarker::Attach | CliTopicMarker::CliConflict => {
            if previous.is_some() {
                CliViewerInjectionTransition::ClearSilently
            } else {
                CliViewerInjectionTransition::Unchanged
            }
        },
        CliTopicMarker::Cli => match (previous, current) {
            (None, Some(current)) => CliViewerInjectionTransition::Enter(current),
            (Some(previous), Some(current)) => {
                if str_eq(previous.lifecycle_id.as_str(), current.lifecycle_id.as_str()) {
                    CliViewerInjectionTransition::Unchanged
                } else {
                    CliViewerInjectionTransition::ExitAndEnter(current)
                }
            },
            _ => CliViewerInjectionTransition::Unchanged,
        },
        CliTopicMarker::NoMarker => {
            if previous.is_some() {
                CliViewerInjectionTransition::Exit
            } else {
                CliViewerInjectionTransition::Unchanged
            }
        },
    }
}

/// The notice that a CLI shell now drives the thread's session.
pub fn cli_viewer_enter_message(shell_pid: u32) -> (r: String)
    ensures
        r@ == "as shell "@ + decimal(shell_pid as nat) + " viewer"@,
{
    let mut r = owned("as shell ");
    let pid = decimal_string(shell_pid as u64);
    push_str(&mut r, pid.as_str());
    push_str(&mut r, " viewer");
    r
}

/// The notice that the CLI no longer drives the thread's session.
pub fn cli_viewer_exit_message() -> (r: &'static str)
    ensures
        r@ == "exit session viewer"@,
{
    "exit session viewer"
}

/// The reply to a Telegram message while the session is busy, by who owns
/// the running turn and whether an image was just saved.
pub fn busy_text_message(snapshot: &SessionCurrentStatus, image_saved: bool) -> (r: &'static str)
    ensures
        r@ == match snapshot.owner {
            SessionStatusOwner::Cli => if image_saved {
                "Image saved. Analysis will stay pending until the attached CLI session finishes its current turn."@
            } else {
                "The attached CLI session is already running a turn. Wait for it to finish before sending a new Telegram request."@
            },
            SessionStatusOwner::Bot => "This thread's selected Codex session is already handling another Telegram request. Wait for it to finish before sending a new one."@,
        },
{
    match snapshot.owner {
        SessionStatusOwner::Cli => if image_saved {
            "Image saved. Analysis will stay pending until the attached CLI session finishes its current turn."
        } else {
            "The attached CLI session is already running a turn. Wait for it to finish before sending a new Telegram request."
        },
        SessionStatusOwner::Bot => "This thread's selected Codex session is already handling another Telegram request. Wait for it to finish before sending a new one.",
    }
}

/// The reply to a session command while the session is busy.
pub fn busy_command_message(snapshot: &SessionCurrentStatus) -> (r: &'static str)
    ensures
        r@ == match snapshot.owner {
            SessionStatusOwner::Cli => "The attached CLI session is already running a turn. Wait for it to finish before changing this thread's session selection."@,
            SessionStatusOwner::Bot => "This thread's selected Codex session is already handling another Telegram request. Wait for it to finish before changing session state."@,
        },
{
    match snapshot.owner {
        SessionStatusOwner::Cli => "The attached CLI session is already running a turn. Wait for it to finish before changing this thread's session selection.",
        SessionStatusOwner::Bot => "This thread's selected Codex session is already handling another Telegram request. Wait for it to finish before changing session state.",
    }
}

/// The reply to a Telegram message while the local CLI owns the session.
pub fn cli_owned_text_message(image_saved: bool) -> (r: &'static str)
    ensures
        r@ == if image_saved {
            "Image saved. Local Codex CLI currently owns this session. Run /attach_cli_session to take it over before starting analysis."@
        } else {
            "Local Codex CLI currently owns this session. Run /attach_cli_session to take it over in Telegram."@
        },
{
    if image_saved {
        "Image saved. Local Codex CLI currently owns this session. Run /attach_cli_session to take it over before starting analysis."
    } else {
        "Local Codex CLI currently owns this session. Run /attach_cli_session to take it over in Telegram."
    }
}

/// The reply to a session command while the local CLI owns the session.
pub fn cli_owned_command_message() -> (r: &'static str)
    ensures
        r@ == "Local Codex CLI currently owns this session. Run /attach_cli_session to take it over before changing thread session state."@,
{
    "Local Codex CLI currently owns this session. Run /attach_cli_session to take it over before changing thread session state."
}

/// A bot-owned turn left busy by an earlier process is to be recovered.
pub open spec fn bot_busy_stale(s: SessionCurrentStatus) -> bool {
    s.owner == SessionStatusOwner::Bot && turn_busy(s.phase)
}

/// A snapshot counts as a bot turn left busy exactly when the bot owns it
/// and its turn is running or finalizing: a busy CLI turn and an idle
/// session never do.
pub proof fn lemma_bot_busy_stale(s: SessionCurrentStatus)
    ensures
        bot_busy_stale(s) <==> (s.owner == SessionStatusOwner::Bot && (s.phase == WorkspaceStatusPhase::TurnRunning
            || s.phase == WorkspaceStatusPhase::TurnFinalizing)),
{
}

/// Whether a session snapshot shows a bot-owned turn left busy.
pub fn should_recover_stale_bot_busy(snapshot: &SessionCurrentStatus) -> (b: bool)
    ensures
        b == bot_busy_stale(*snapshot),
{
    snapshot.owner == SessionStatusOwner::Bot && snapshot.phase.is_turn_busy()
}

} // verus!

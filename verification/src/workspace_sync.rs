//! The state the workspace status watcher keeps between its passes, and
//! the decisions of each pass: which topic titles and viewer notices to
//! send, and which workspace events to mirror into the owning thread.
//!
//! Reading the repository and the workspace files, and sending to
//! Telegram, belong to the caller, which hands each decision what it read.
use vstd::prelude::*;
use crate::busy_reconcile::{bound_session_id, current_bound_session_id};
use crate::status_sync::{cli_viewer_enter_message, cli_viewer_exit_message, CliViewerInjectionState, CliViewerInjectionTransition};
use crate::string_map::{listed, StringMap};
use crate::text::{blank, decimal, is_blank, owned, push_str, starts_with, str_eq, str_starts_with, trim, trimmed};
use crate::thread_model::{
    SessionAttachmentState, SessionBinding, ThreadRecord, TranscriptMirrorDelivery,
    TranscriptMirrorEntry, TranscriptMirrorOrigin, TranscriptMirrorRole, WorkspaceAggregateStatus,
    WorkspaceStatusEvent,
};

verus! {

/// The workspace event of a prompt typed into the CLI.
pub const USER_PROMPT_SUBMITTED: &'static str = "user_prompt_submitted";

/// The workspace event of a finished turn.
pub const TURN_COMPLETED: &'static str = "turn_completed";

/// Session `sid` is live in the CLI of the workspace.
pub open spec fn is_live(a: WorkspaceAggregateStatus, sid: Seq<char>) -> bool {
    exists|i: int| 0 <= i < a.live_cli_session_ids@.len() && #[trigger] a.live_cli_session_ids@[i]@ == sid
}

/// A CLI handoff ends once the session it selected is live in the CLI
/// again.
pub open spec fn releases_cli_handoff(
    binding: Option<SessionBinding>,
    aggregate: Option<WorkspaceAggregateStatus>,
) -> bool {
    match binding {
        Some(b) => match aggregate {
            Some(a) => b.attachment_state == SessionAttachmentState::CliHandoff && match bound_session_id(b) {
                Some(sid) => is_live(a, sid),
                None => false,
            },
            None => false,
        },
        None => false,
    }
}

/// Whether the thread's CLI handoff ends: it is bound in handoff and the
/// session it selects is among the workspace's live CLI sessions.
pub fn should_release_cli_handoff(binding: Option<&SessionBinding>, aggregate: Option<&WorkspaceAggregateStatus>) -> (b: bool)
    ensures
        b == releases_cli_handoff(
            match binding {
                Some(x) => Some(*x),
                None => None,
            },
            match aggregate {
                Some(x) => Some(*x),
                None => None,
            },
        ),
{
    let (bnd, agg) = match (binding, aggregate) {
        (Some(x), Some(y)) => (x, y),
        _ => return false,
    };
    if bnd.attachment_state != SessionAttachmentState::CliHandoff {
        return false;
    }
    let sid = match current_bound_session_id(bnd) {
        Some(s) => s,
        None => return false,
    };
    let ids = &agg.live_cli_session_ids;
    let mut i: usize = 0;
    while i < ids.len()
        invariant
            i <= ids@.len(),
            ids@ == agg.live_cli_session_ids@,
            binding == Some(bnd),
            aggregate == Some(agg),
            bnd.attachment_state == SessionAttachmentState::CliHandoff,
            bound_session_id(*bnd) == Some(sid@),
            forall|j: int| 0 <= j < i ==> #[trigger] ids@[j]@ != sid@,
        decreases ids@.len() - i,
    {
        if str_eq(ids[i].as_str(), sid.as_str()) {
            assert(agg.live_cli_session_ids@[i as int]@ == sid@);
            assert(is_live(*agg, sid@));
            return true;
        }
        i += 1;
    }
    false
}

/// The notices a viewer transition sends (and logs), in order.
pub open spec fn viewer_notices(t: CliViewerInjectionTransition) -> Seq<Seq<char>> {
    match t {
        CliViewerInjectionTransition::Enter(s) => seq!["as shell "@ + decimal(s.shell_pid as nat) + " viewer"@],
        CliViewerInjectionTransition::Exit => seq!["exit session viewer"@],
        CliViewerInjectionTransition::ExitAndEnter(s) => seq![
            "exit session viewer"@,
            "as shell "@ + decimal(s.shell_pid as nat) + " viewer"@,
        ],
        _ => Seq::empty(),
    }
}

/// A rendered title still has to be applied to a conversation's topic: it
/// is not the one last applied there.
pub open spec fn title_pending(titles: Map<Seq<char>, String>, conversation: Seq<char>, rendered: Seq<char>) -> bool {
    !(titles.contains_key(conversation) && titles[conversation]@ == rendered)
}

/// A title once applied is not applied again until it changes.
pub proof fn lemma_applied_title_settles(titles: Map<Seq<char>, String>, conversation: Seq<char>, rendered: String, other: Seq<char>)
    ensures
        !title_pending(titles.insert(conversation, rendered), conversation, rendered@),
        other != rendered@ ==> title_pending(titles.insert(conversation, rendered), conversation, other),
{
}

/// What the title watcher remembers: the title last applied to each
/// thread's topic, and the viewer notice shown in each thread, by
/// conversation.
pub struct TopicSyncState {
    applied_titles: StringMap<String>,
    viewer_injections: StringMap<CliViewerInjectionState>,
}

impl TopicSyncState {
    /// The title last applied, by conversation.
    pub closed spec fn titles(&self) -> Map<Seq<char>, String> {
        self.applied_titles.view()
    }

    /// The viewer notice shown, by conversation.
    pub closed spec fn viewers(&self) -> Map<Seq<char>, CliViewerInjectionState> {
        self.viewer_injections.view()
    }

    pub closed spec fn wf(&self) -> bool {
        self.applied_titles.wf() && self.viewer_injections.wf()
    }

    /// Nothing applied or shown yet.
    pub fn new() -> (s: Self)
        ensures
            s.wf(),
            s.titles() == Map::<Seq<char>, String>::empty(),
            s.viewers() == Map::<Seq<char>, CliViewerInjectionState>::empty(),
    {
        TopicSyncState { applied_titles: StringMap::new(), viewer_injections: StringMap::new() }
    }

    /// The viewer notice shown in a conversation.
    pub fn viewer(&self, conversation_key: &str) -> (r: Option<&CliViewerInjectionState>)
        requires
            self.wf(),
        ensures
            r matches Some(v) ==> self.viewers().contains_key(conversation_key@) && self.viewers()[conversation_key@] == *v,
            r is None ==> !self.viewers().contains_key(conversation_key@),
    {
        self.viewer_injections.get(conversation_key)
    }

    /// Applies a viewer transition for a conversation, and gives the notices
    /// to send and log: entering records the new notice, exiting or
    /// clearing forgets it.
    pub fn apply_viewer_transition(&mut self, conversation_key: &str, t: CliViewerInjectionTransition) -> (notices: Vec<String>)
        requires
            old(self).wf(),
        ensures
            final(self).wf(),
            final(self).titles() == old(self).titles(),
            notices@.len() == viewer_notices(t).len(),
            forall|i: int| 0 <= i < notices@.len() ==> #[trigger] notices@[i]@ == viewer_notices(t)[i],
            final(self).viewers() == match t {
                CliViewerInjectionTransition::Enter(s) => old(self).viewers().insert(conversation_key@, s),
                CliViewerInjectionTransition::ExitAndEnter(s) => old(self).viewers().insert(conversation_key@, s),
                CliViewerInjectionTransition::Exit => old(self).viewers().remove(conversation_key@),
                CliViewerInjectionTransition::ClearSilently => old(self).viewers().remove(conversation_key@),
                CliViewerInjectionTransition::Unchanged => old(self).viewers(),
            },
    {
        let mut notices: Vec<String> = Vec::new();
        match t {
            CliViewerInjectionTransition::Unchanged => {},
            CliViewerInjectionTransition::Enter(s) => {
                notices.push(cli_viewer_enter_message(s.shell_pid));
                self.viewer_injections.insert(owned(conversation_key), s);
            },
            CliViewerInjectionTransition::Exit => {
                notices.push(owned(cli_viewer_exit_message()));
                self.viewer_injections.remove(conversation_key);
            },
            CliViewerInjectionTransition::ExitAndEnter(s) => {
                notices.push(owned(cli_viewer_exit_message()));
                notices.push(cli_viewer_enter_message(s.shell_pid));
                self.viewer_injections.insert(owned(conversation_key), s);
            },
            CliViewerInjectionTransition::ClearSilently => {
                self.viewer_injections.remove(conversation_key);
            },
        }
        notices
    }

    /// Whether a rendered title still has to be applied: it differs from
    /// the one last applied to the conversation, or none was.
    pub fn title_due(&self, conversation_key: &str, rendered: &str) -> (b: bool)
        requires
            self.wf(),
        ensures
            b == title_pending(self.titles(), conversation_key@, rendered@),
    {
        match self.applied_titles.get(conversation_key) {
            Some(previous) => !str_eq(previous.as_str(), rendered),
            None => true,
        }
    }

    /// Remembers the title applied to a conversation's topic.
    pub fn title_applied(&mut self, conversation_key: String, rendered: String)
        requires
            old(self).wf(),
        ensures
            final(self).wf(),
            final(self).titles() == old(self).titles().insert(conversation_key@, rendered),
            final(self).viewers() == old(self).viewers(),
    {
        self.applied_titles.insert(conversation_key, rendered);
    }

    /// Forgets the conversations that are no longer active.
    pub fn retain_active(&mut self, active: &Vec<String>)
        requires
            old(self).wf(),
        ensures
            final(self).wf(),
            forall|k: Seq<char>| #[trigger] final(self).titles().contains_key(k) <==> (old(self).titles().contains_key(k) && listed(active@, k)),
            forall|k: Seq<char>| #[trigger] final(self).titles().contains_key(k) ==> final(self).titles()[k] == old(self).titles()[k],
            forall|k: Seq<char>| #[trigger] final(self).viewers().contains_key(k) <==> (old(self).viewers().contains_key(k) && listed(active@, k)),
            forall|k: Seq<char>| #[trigger] final(self).viewers().contains_key(k) ==> final(self).viewers()[k] == old(self).viewers()[k],
    {
        self.applied_titles.retain_keys(active);
        self.viewer_injections.retain_keys(active);
    }
}

/// The thread a CLI claim names among a workspace's threads: the first
/// with the claimed thread key.
pub fn owner_record_index(records: &Vec<ThreadRecord>, thread_key: &str) -> (r: Option<usize>)
    ensures
        match r {
            Some(i) => i < records@.len() && records@[i as int].metadata.thread_key@ == thread_key@ && forall|j: int|
                0 <= j < i ==> #[trigger] records@[j].metadata.thread_key@ != thread_key@,
            None => forall|j: int| 0 <= j < records@.len() ==> #[trigger] records@[j].metadata.thread_key@ != thread_key@,
        },
{
    let mut i: usize = 0;
    while i < records.len()
        invariant
            i <= records@.len(),
            forall|j: int| 0 <= j < i ==> #[trigger] records@[j].metadata.thread_key@ != thread_key@,
        decreases records@.len() - i,
    {
        if str_eq(records[i].metadata.thread_key.as_str(), thread_key) {
            return Some(i);
        }
        i += 1;
    }
    None
}

/// The key under which a CLI prompt waits for its turn to complete:
/// the workspace, `::`, the session id.
pub open spec fn prompt_key(workspace_key: Seq<char>, session_id: Seq<char>) -> Seq<char> {
    workspace_key + "::"@ + session_id
}

/// The transcript entry a workspace event gives for the owning thread, as
/// (time, session, role, text): a CLI prompt or a turn's last assistant
/// message, of the expected session when one is expected, with text that
/// is not blank (trimmed).
pub open spec fn mirror_entry(
    e: WorkspaceStatusEvent,
    expected: Option<Seq<char>>,
) -> Option<(Seq<char>, Seq<char>, TranscriptMirrorRole, Seq<char>)> {
    let (sid, text, role) = if e.event@ == USER_PROMPT_SUBMITTED@ {
        (e.session_id, e.prompt, TranscriptMirrorRole::User)
    } else if e.event@ == TURN_COMPLETED@ {
        (e.thread_id, e.last_assistant_message, TranscriptMirrorRole::Assistant)
    } else {
        (None, None, TranscriptMirrorRole::User)
    };
    match (sid, text) {
        (Some(s), Some(t)) => if (expected matches Some(x) && x != s@) || is_blank(t@) {
            None
        } else {
            Some((e.occurred_at@, s@, role, trimmed(t@)))
        },
        _ => None,
    }
}

/// `entry` is the CLI transcript entry for (time, session, role, text).
pub open spec fn entry_is(entry: TranscriptMirrorEntry, m: (Seq<char>, Seq<char>, TranscriptMirrorRole, Seq<char>)) -> bool {
    &&& entry.timestamp@ == m.0
    &&& entry.session_id@ == m.1
    &&& entry.origin == TranscriptMirrorOrigin::Cli
    &&& entry.role == m.2
    &&& entry.delivery == TranscriptMirrorDelivery::Final
    &&& entry.text@ == m.3
}

/// The transcript entry a workspace event gives for the owning thread.
pub fn cli_mirror_entry_from_event(event: &WorkspaceStatusEvent, expected_session_id: Option<&str>) -> (r: Option<TranscriptMirrorEntry>)
    ensures
        match mirror_entry(
            *event,
            match expected_session_id {
                Some(x) => Some(x@),
                None => None,
            },
        ) {
            Some(m) => r matches Some(entry) && entry_is(entry, m),
            None => r is None,
        },
{
    let (sid, text, role) = if str_eq(event.event.as_str(), USER_PROMPT_SUBMITTED) {
        (&event.session_id, &event.prompt, TranscriptMirrorRole::User)
    } else if str_eq(event.event.as_str(), TURN_COMPLETED) {
        (&event.thread_id, &event.last_assistant_message, TranscriptMirrorRole::Assistant)
    } else {
        return None;
    };
    let (sid, text) = match (sid, text) {
        (Some(s), Some(t)) => (s, t),
        _ => return None,
    };
    match expected_session_id {
        Some(x) => if !str_eq(x, sid.as_str()) {
            return None;
        },
        None => {},
    }
    if blank(text.as_str()) {
        return None;
    }
    Some(TranscriptMirrorEntry {
        timestamp: event.occurred_at.clone(),
        session_id: sid.clone(),
        origin: TranscriptMirrorOrigin::Cli,
        role,
        delivery: TranscriptMirrorDelivery::Final,
        text: trim(text.as_str()),
    })
}

/// The key under which a CLI prompt waits for its turn to complete.
pub fn cli_prompt_tracking_key(workspace_key: &str, session_id: &str) -> (r: String)
    ensures
        r@ == prompt_key(workspace_key@, session_id@),
{
    let mut r = owned(workspace_key);
    push_str(&mut r, "::");
    push_str(&mut r, session_id);
    r
}

/// Something the mirror noticed that is worth a warning.
#[derive(Debug, Clone, Copy, PartialEq, Eq, Structural)]
pub enum MirrorWarning {
    /// A CLI prompt event without a session id.
    PromptWithoutSession,
    /// A CLI prompt event without text to mirror.
    PromptWithoutText,
    /// A turn of the expected session completed with no CLI prompt seen.
    PromptMissing,
}

/// What to do with one workspace event: the transcript entry to append to
/// the owning thread, the chat text to send there, and a warning.
pub struct MirrorStep {
    pub entry: Option<TranscriptMirrorEntry>,
    pub chat_text: Option<String>,
    pub warning: Option<MirrorWarning>,
}

/// The chat text that mirrors an entry: `CLI: ` before a prompt, `Codex: `
/// before an assistant message.
pub open spec fn chat_text_for(role: TranscriptMirrorRole, text: Seq<char>) -> Seq<char> {
    match role {
        TranscriptMirrorRole::User => "CLI: "@ + text,
        TranscriptMirrorRole::Assistant => "Codex: "@ + text,
    }
}

/// The step mirrors entry `m`: it appends it and sends its chat text.
pub open spec fn mirrors(step: MirrorStep, m: (Seq<char>, Seq<char>, TranscriptMirrorRole, Seq<char>)) -> bool {
    &&& step.entry is Some
    &&& entry_is(step.entry->0, m)
    &&& step.chat_text is Some
    &&& step.chat_text->0@ == chat_text_for(m.2, m.3)
}

/// What the mirror watcher remembers: how many lines of each workspace's
/// event log it has read, and the CLI prompts still waiting for their turn
/// to complete.
pub struct MirrorSyncState {
    offsets: StringMap<usize>,
    pending_prompts: StringMap<bool>,
}

impl MirrorSyncState {
    /// Lines read, by workspace.
    pub closed spec fn offsets(&self) -> Map<Seq<char>, usize> {
        self.offsets.view()
    }

    /// The prompts waiting for their turn, by tracking key.
    pub closed spec fn pending(&self) -> Set<Seq<char>> {
        self.pending_prompts.view().dom()
    }

    pub closed spec fn wf(&self) -> bool {
        self.offsets.wf() && self.pending_prompts.wf()
    }

    /// Nothing read, nothing pending.
    pub fn new() -> (s: Self)
        ensures
            s.wf(),
            s.offsets() == Map::<Seq<char>, usize>::empty(),
            s.pending() == Set::<Seq<char>>::empty(),
    {
        let s = MirrorSyncState { offsets: StringMap::new(), pending_prompts: StringMap::new() };
        proof {
            assert(s.pending_prompts.view().dom() =~= Set::<Seq<char>>::empty());
        }
        s
    }

    /// A workspace that is not mirrored now (no claiming shell, a conflict,
    /// or no thread of the claim): its pending prompts are dropped, and when
    /// its event log exists (`line_count` lines), it counts as read.
    pub fn skip_workspace(&mut self, workspace_key: &str, line_count: Option<usize>)
        requires
            old(self).wf(),
        ensures
            final(self).wf(),
            forall|k: Seq<char>| #[trigger] final(self).pending().contains(k) <==> (old(self).pending().contains(k) && !starts_with(k, workspace_key@)),
            final(self).offsets() == match line_count {
                Some(n) => old(self).offsets().insert(workspace_key@, n),
                None => old(self).offsets(),
            },
    {
        let keys = self.pending_prompts.keys();
        let ghost before = self.pending_prompts.view();
        let mut j: usize = 0;
        while j < keys.len()
            invariant
                self.pending_prompts.wf(),
                self.offsets == old(self).offsets,
                before == old(self).pending_prompts.view(),
                j <= keys@.len(),
                forall|k: Seq<char>| before.contains_key(k) <==> exists|i: int| 0 <= i < keys@.len() && #[trigger] keys@[i]@ == k,
                forall|k: Seq<char>| #[trigger] self.pending_prompts.view().contains_key(k) <==> (before.contains_key(k) && !(exists|i: int| 0 <= i < j && #[trigger] keys@[i]@ == k && starts_with(k, workspace_key@))),
            decreases keys@.len() - j,
        {
            let ghost k = keys@[j as int]@;
            if str_starts_with(keys[j].as_str(), workspace_key) {
                self.pending_prompts.remove(keys[j].as_str());
            }
            proof {
                assert forall|kk: Seq<char>| #[trigger] self.pending_prompts.view().contains_key(kk) <==> (before.contains_key(kk) && !(exists|i: int| 0 <= i < j + 1 && #[trigger] keys@[i]@ == kk && starts_with(kk, workspace_key@))) by {
                    if kk != k {
                        if exists|i: int| 0 <= i < j + 1 && #[trigger] keys@[i]@ == kk && starts_with(kk, workspace_key@) {
                            let i = choose|i: int| 0 <= i < j + 1 && #[trigger] keys@[i]@ == kk && starts_with(kk, workspace_key@);
                            assert(i != j);
                        }
                    }
                }
            }
            j += 1;
        }
        proof {
            assert forall|k: Seq<char>| #[trigger] self.pending_prompts.view().dom().contains(k) <==> (before.dom().contains(k) && !starts_with(k, workspace_key@)) by {
                if before.contains_key(k) {
                    let i = choose|i: int| 0 <= i < keys@.len() && #[trigger] keys@[i]@ == k;
                    assert(keys@[i]@ == k);
                }
            }
        }
        match line_count {
            Some(n) => self.offsets.insert(owned(workspace_key), n),
            None => {},
        }
    }

    /// Starts reading a mirrored workspace's event log of `line_count`
    /// lines: the number of lines read before, if the workspace was seen;
    /// a workspace seen for the first time counts its lines as read.
    pub fn begin_workspace(&mut self, workspace_key: &str, line_count: usize) -> (r: Option<usize>)
        requires
            old(self).wf(),
        ensures
            final(self).wf(),
            final(self).pending() == old(self).pending(),
            match r {
                Some(n) => old(self).offsets().contains_key(workspace_key@) && n == old(self).offsets()[workspace_key@]
                    && final(self).offsets() == old(self).offsets(),
                None => !old(self).offsets().contains_key(workspace_key@) && final(self).offsets()
                    == old(self).offsets().insert(workspace_key@, line_count),
            },
    {
        match self.offsets.get(workspace_key) {
            Some(n) => Some(*n),
            None => {
                self.offsets.insert(owned(workspace_key), line_count);
                None
            },
        }
    }

    /// The workspace's event log has been read up to `line_count` lines.
    pub fn finish_workspace(&mut self, workspace_key: &str, line_count: usize)
        requires
            old(self).wf(),
        ensures
            final(self).wf(),
            final(self).pending() == old(self).pending(),
            final(self).offsets() == old(self).offsets().insert(workspace_key@, line_count),
    {
        self.offsets.insert(owned(workspace_key), line_count);
    }

    /// Mirrors one event of a workspace whose CLI claim expects
    /// `expected_session_id` (if any). A CLI prompt is mirrored and waits
    /// for its turn; a completed turn of the expected session releases the
    /// prompt it answers (a warning when there was none) and mirrors its
    /// last assistant message.
    pub fn mirror_event(&mut self, workspace_key: &str, event: &WorkspaceStatusEvent, expected_session_id: Option<&str>) -> (step: MirrorStep)
        requires
            old(self).wf(),
        ensures
            final(self).wf(),
            final(self).offsets() == old(self).offsets(),
            ({
                let expected = match expected_session_id {
                    Some(x) => Some(x@),
                    None => None::<Seq<char>>,
                };
                let m = mirror_entry(*event, expected);
                if event.event@ == USER_PROMPT_SUBMITTED@ {
                    match event.session_id {
                        None => step.entry is None && step.chat_text is None && step.warning == Some(MirrorWarning::PromptWithoutSession)
                            && final(self).pending() == old(self).pending(),
                        Some(sid) => if expected matches Some(x) && x != sid@ {
                            step.entry is None && step.chat_text is None && step.warning is None
                                && final(self).pending() == old(self).pending()
                        } else {
                            match m {
                                None => step.entry is None && step.chat_text is None && step.warning == Some(MirrorWarning::PromptWithoutText)
                                    && final(self).pending() == old(self).pending(),
                                Some(mm) => mirrors(step, mm) && step.warning is None
                                    && final(self).pending() == old(self).pending().insert(prompt_key(workspace_key@, mm.1)),
                            }
                        },
                    }
                } else {
                    &&& match m {
                        Some(mm) => mirrors(step, mm),
                        None => step.entry is None && step.chat_text is None,
                    }
                    &&& if event.event@ == TURN_COMPLETED@ && event.thread_id is Some && (expected is None
                        || expected == Some(event.thread_id->0@)) {
                        let key = prompt_key(workspace_key@, event.thread_id->0@);
                        &&& final(self).pending() == old(self).pending().remove(key)
                        &&& (step.warning == Some(MirrorWarning::PromptMissing)) == !old(self).pending().contains(key)
                        &&& (step.warning is None) == old(self).pending().contains(key)
                    } else {
                        final(self).pending() == old(self).pending() && step.warning is None
                    }
                }
            }),
    {
        if str_eq(event.event.as_str(), USER_PROMPT_SUBMITTED) {
            let sid = match &event.session_id {
                Some(s) => s,
                None => return MirrorStep { entry: None, chat_text: None, warning: Some(MirrorWarning::PromptWithoutSession) },
            };
            match expected_session_id {
                Some(x) => if !str_eq(x, sid.as_str()) {
                    return MirrorStep { entry: None, chat_text: None, warning: None };
                },
                None => {},
            }
            let entry = match cli_mirror_entry_from_event(event, expected_session_id) {
                Some(e) => e,
                None => return MirrorStep { entry: None, chat_text: None, warning: Some(MirrorWarning::PromptWithoutText) },
            };
            let key = cli_prompt_tracking_key(workspace_key, entry.session_id.as_str());
            let ghost before = self.pending_prompts.view();
            self.pending_prompts.insert(key, true);
            proof {
                assert(self.pending_prompts.view().dom() =~= before.dom().insert(prompt_key(workspace_key@, entry.session_id@)));
            }
            let mut chat = owned("CLI: ");
            push_str(&mut chat, entry.text.as_str());
            return MirrorStep { entry: Some(entry), chat_text: Some(chat), warning: None };
        }
        let mut warning: Option<MirrorWarning> = None;
        if str_eq(event.event.as_str(), TURN_COMPLETED) {
            match &event.thread_id {
                Some(sid) => {
                    let matches_claim = match expected_session_id {
                        Some(x) => str_eq(x, sid.as_str()),
                        None => true,
                    };
                    if matches_claim {
                        let key = cli_prompt_tracking_key(workspace_key, sid.as_str());
                        let ghost before = self.pending_prompts.view();
                        let was_pending = self.pending_prompts.contains_key(key.as_str());
                        self.pending_prompts.remove(key.as_str());
                        proof {
                            assert(self.pending_prompts.view().dom() =~= before.dom().remove(key@));
                        }
                        if !was_pending {
                            warning = Some(MirrorWarning::PromptMissing);
                        }
                    }
                },
                None => {},
            }
        }
        match cli_mirror_entry_from_event(event, expected_session_id) {
            Some(entry) => {
                let mut chat = match entry.role {
                    TranscriptMirrorRole::User => owned("CLI: "),
                    TranscriptMirrorRole::Assistant => owned("Codex: "),
                };
                push_str(&mut chat, entry.text.as_str());
                MirrorStep { entry: Some(entry), chat_text: Some(chat), warning }
            },
            None => MirrorStep { entry: None, chat_text: None, warning },
        }
    }
}

/// A mirrored CLI prompt waits for its turn, and the completed turn of the
/// same session releases it: the prompt is pending after it is mirrored,
/// and no longer once its turn completes.
pub proof fn lemma_prompt_released_by_its_turn(pending: Set<Seq<char>>, workspace_key: Seq<char>, session_id: Seq<char>)
    ensures
        pending.insert(prompt_key(workspace_key, session_id)).contains(prompt_key(workspace_key, session_id)),
        !pending.insert(prompt_key(workspace_key, session_id)).remove(prompt_key(workspace_key, session_id)).contains(
            prompt_key(workspace_key, session_id),
        ),
        pending.insert(prompt_key(workspace_key, session_id)).remove(prompt_key(workspace_key, session_id))
            =~= pending.remove(prompt_key(workspace_key, session_id)),
{
}

} // verus!

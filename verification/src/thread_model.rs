//! The records that the Telegram runtime reads about threads, their session
//! bindings and the shared workspace status, as plain values.
use vstd::prelude::*;

verus! {

/// Whether a thread is live or archived.
#[derive(Debug, Clone, Copy, PartialEq, Eq, Structural)]
pub enum ThreadStatus {
    Active,
    Archived,
}

/// What the runtime stores about a Telegram thread.
#[derive(Debug, Clone)]
pub struct ThreadMetadata {
    pub chat_id: i64,
    pub message_thread_id: Option<i32>,
    pub thread_key: String,
    pub title: Option<String>,
    pub session_broken: bool,
    pub status: ThreadStatus,
}

/// A Telegram thread known to the runtime.
#[derive(Debug, Clone)]
pub struct ThreadRecord {
    pub conversation_key: String,
    pub metadata: ThreadMetadata,
}

/// Who currently drives a bound session.
#[derive(Debug, Clone, Copy, PartialEq, Eq, Structural)]
pub enum SessionAttachmentState {
    Unattached,
    CliHandoff,
}

/// The binding of a thread to a workspace and a Codex session.
#[derive(Debug, Clone)]
pub struct SessionBinding {
    pub current_codex_thread_id: Option<String>,
    pub attachment_state: SessionAttachmentState,
    pub workspace_cwd: Option<String>,
}

/// Who owns a session's current turn.
#[derive(Debug, Clone, Copy, PartialEq, Eq, Structural)]
pub enum SessionStatusOwner {
    Cli,
    Bot,
}

/// Where a session's activity comes from.
#[derive(Debug, Clone, Copy, PartialEq, Eq, Structural)]
pub enum SessionActivitySource {
    Tui,
    ManagedRuntime,
}

/// Phase of a session's current turn.
#[derive(Debug, Clone, Copy, PartialEq, Eq, Structural)]
pub enum WorkspaceStatusPhase {
    Idle,
    TurnRunning,
    TurnFinalizing,
}

/// A turn is running or settling.
pub open spec fn turn_busy(p: WorkspaceStatusPhase) -> bool {
    p == WorkspaceStatusPhase::TurnRunning || p == WorkspaceStatusPhase::TurnFinalizing
}

impl WorkspaceStatusPhase {
    /// A turn is running or settling.
    pub fn is_turn_busy(&self) -> (b: bool)
        ensures
            b == turn_busy(*self),
    {
        match self {
            WorkspaceStatusPhase::Idle => false,
            _ => true,
        }
    }
}

/// The current status of one session in a workspace.
#[derive(Debug, Clone)]
pub struct SessionCurrentStatus {
    pub session_id: String,
    pub owner: SessionStatusOwner,
    pub activity_source: SessionActivitySource,
    pub phase: WorkspaceStatusPhase,
    pub turn_id: Option<String>,
}

/// The shared status of a workspace: the CLI sessions that are live in it.
#[derive(Debug, Clone)]
pub struct WorkspaceAggregateStatus {
    pub workspace_cwd: String,
    pub live_cli_session_ids: Vec<String>,
}

/// A local CLI shell's claim on a workspace for a thread.
#[derive(Debug, Clone)]
pub struct CliOwnerClaim {
    pub thread_key: String,
    pub shell_pid: u32,
    pub session_id: Option<String>,
    pub started_at: String,
}

/// One event of a workspace's status log, with the payload fields that the
/// runtime reads (each present only when the payload holds it as a string).
#[derive(Debug, Clone)]
pub struct WorkspaceStatusEvent {
    pub event: String,
    pub occurred_at: String,
    pub session_id: Option<String>,
    pub prompt: Option<String>,
    pub thread_id: Option<String>,
    pub last_assistant_message: Option<String>,
}

/// Who wrote a transcript entry.
#[derive(Debug, Clone, Copy, PartialEq, Eq, Structural)]
pub enum TranscriptMirrorOrigin {
    Telegram,
    Cli,
    Tui,
}

/// The speaker of a transcript entry.
#[derive(Debug, Clone, Copy, PartialEq, Eq, Structural)]
pub enum TranscriptMirrorRole {
    User,
    Assistant,
}

/// Whether a transcript entry is final.
#[derive(Debug, Clone, Copy, PartialEq, Eq, Structural)]
pub enum TranscriptMirrorDelivery {
    Final,
}

/// One entry of a thread's transcript mirror.
#[derive(Debug, Clone)]
pub struct TranscriptMirrorEntry {
    pub timestamp: String,
    pub session_id: String,
    pub origin: TranscriptMirrorOrigin,
    pub role: TranscriptMirrorRole,
    pub delivery: TranscriptMirrorDelivery,
    pub text: String,
}

pub open spec fn opt_view(o: Option<String>) -> Option<Seq<char>> {
    match o {
        Some(s) => Some(s@),
        None => None,
    }
}

} // verus!

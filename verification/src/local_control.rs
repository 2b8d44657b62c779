//! The local management UI's actions on threads: the titles, notices and
//! log lines they produce, and the checks they make before acting.
//!
//! Creating topics, sending messages and writing the repository belong to
//! the caller.
use vstd::prelude::*;
use crate::paths::{absolute, file_name_of, is_absolute, path_file_name};
use crate::text::{blank, is_blank, owned, push_str, signed_decimal, signed_decimal_string, trim, trimmed};
use crate::thread_model::{opt_view, ThreadRecord, ThreadStatus};

verus! {

/// The mark added to the title of a restored thread.
pub const RESTORED_TITLE_SUFFIX: &'static str = " · 已恢復";

/// The log line of a thread created from the management UI.
pub const THREAD_CREATED_LOG: &'static str = "Telegram thread created from local management UI.";

/// The notice sent into a thread created from the management UI.
pub const THREAD_CREATED_NOTICE: &'static str = "Thread created from local management UI.";

/// The log line of a thread archived from the management UI.
pub const THREAD_ARCHIVED_LOG: &'static str = "Thread archived from local management UI.";

/// The log line of an adopted TUI session.
pub const TUI_SESSION_ADOPTED_LOG: &'static str = "Adopted the active TUI session from local management UI.";

/// The log line of a rejected TUI session.
pub const TUI_SESSION_REJECTED_LOG: &'static str = "Rejected the active TUI session from local management UI.";

/// The notice sent into a restored thread.
pub const THREAD_RESTORED_NOTICE: &'static str = "This thread has been restored from archive.";

/// The error when the control chat has not been set up.
pub const CONTROL_CHAT_NOT_READY: &'static str =
    "Control chat is not ready yet. Send /start to the bot from the target Telegram chat first.";

/// A thread created from the management UI, with its topic's title.
#[derive(Debug, Clone)]
pub struct CreatedThread {
    pub record: ThreadRecord,
    pub title: String,
}

/// What adding a workspace did: created a thread for it, or found the one
/// bound to it.
#[derive(Debug, Clone)]
pub enum AddWorkspaceOutcome {
    Created(ThreadRecord),
    Existing(ThreadRecord),
}

impl AddWorkspaceOutcome {
    /// The thread of the workspace.
    pub fn record(&self) -> (r: &ThreadRecord)
        ensures
            *r == match self {
                AddWorkspaceOutcome::Created(t) => t,
                AddWorkspaceOutcome::Existing(t) => t,
            },
    {
        match self {
            AddWorkspaceOutcome::Created(record) => record,
            AddWorkspaceOutcome::Existing(record) => record,
        }
    }

    /// Whether a thread was created.
    pub fn created(&self) -> (b: bool)
        ensures
            b == (self is Created),
    {
        match self {
            AddWorkspaceOutcome::Created(_) => true,
            AddWorkspaceOutcome::Existing(_) => false,
        }
    }
}

/// The title of a restored thread: its stored title (trimmed) unless
/// blank, else `Thread <id>` by its former topic (0 when it had none), with
/// the restored mark.
pub open spec fn restored_title(title: Option<Seq<char>>, fallback_thread_id: Option<i32>) -> Seq<char> {
    let base = match title {
        Some(t) => if is_blank(t) {
            "Thread "@ + signed_decimal(
                match fallback_thread_id {
                    Some(id) => id as int,
                    None => 0,
                },
            )
        } else {
            trimmed(t)
        },
        None => "Thread "@ + signed_decimal(
            match fallback_thread_id {
                Some(id) => id as int,
                None => 0,
            },
        ),
    };
    base + RESTORED_TITLE_SUFFIX@
}

/// The title of a restored thread.
pub fn restored_thread_title(title: Option<&str>, fallback_thread_id: Option<i32>) -> (r: String)
    ensures
        r@ == restored_title(
            match title {
                Some(t) => Some(t@),
                None => None,
            },
            fallback_thread_id,
        ),
{
    let named = match title {
        Some(t) => if blank(t) {
            None
        } else {
            Some(trim(t))
        },
        None => None,
    };
    let mut r = match named {
        Some(n) => n,
        None => {
            let id: i64 = match fallback_thread_id {
                Some(id) => id as i64,
                None => 0,
            };
            let mut b = owned("Thread ");
            let digits = signed_decimal_string(id);
            push_str(&mut b, digits.as_str());
            b
        },
    };
    push_str(&mut r, RESTORED_TITLE_SUFFIX);
    r
}

/// The title of a new thread: the one given (trimmed) unless blank, else
/// `Thread <time>` with the local time label (`%m-%d %H:%M`).
pub fn new_thread_title(title: Option<String>, now_label: &str) -> (r: String)
    ensures
        r@ == match title {
            Some(t) => if is_blank(t@) {
                "Thread "@ + now_label@
            } else {
                trimmed(t@)
            },
            None => "Thread "@ + now_label@,
        },
{
    match title {
        Some(t) => if !blank(t.as_str()) {
            return trim(t.as_str());
        },
        None => {},
    }
    let mut r = owned("Thread ");
    push_str(&mut r, now_label);
    r
}

/// The title of a thread created for a workspace: the workspace's folder
/// name, or the whole path when it has none.
pub fn workspace_thread_title(workspace_path: &str) -> (r: String)
    ensures
        r@ == match file_name_of(workspace_path@) {
            Some(n) => n,
            None => workspace_path@,
        },
{
    match path_file_name(workspace_path) {
        Some(name) => name,
        None => owned(workspace_path),
    }
}

/// Why a management action was refused.
#[derive(Debug, Clone, PartialEq, Eq)]
pub enum LocalControlError {
    /// The workspace path given is not absolute.
    WorkspaceNotAbsolute,
    /// The workspace path does not exist (or cannot be read).
    WorkspaceMissing(String),
    /// The workspace path is not a directory.
    WorkspaceNotDirectory,
    /// No thread of the control chat has the key given.
    UnknownThread,
    /// The thread to restore is not archived.
    NotArchived,
    /// Repairing the session binding did not verify the session.
    RepairFailed,
}

/// The text of a management error.
pub open spec fn local_control_error_text(e: LocalControlError) -> Seq<char> {
    match e {
        LocalControlError::WorkspaceNotAbsolute => "Workspace path must be absolute."@,
        LocalControlError::WorkspaceMissing(p) => "workspace path does not exist: "@ + p@,
        LocalControlError::WorkspaceNotDirectory => "Workspace path must point to a directory."@,
        LocalControlError::UnknownThread => "thread_key is not a known thread"@,
        LocalControlError::NotArchived => "thread_key is not archived"@,
        LocalControlError::RepairFailed => "Codex session repair failed. Use New Session first."@,
    }
}

impl LocalControlError {
    /// The error's text.
    pub fn message(&self) -> (r: String)
        ensures
            r@ == local_control_error_text(*self),
    {
        match self {
            LocalControlError::WorkspaceNotAbsolute => owned("Workspace path must be absolute."),
            LocalControlError::WorkspaceMissing(p) => {
                let mut r = owned("workspace path does not exist: ");
                push_str(&mut r, p.as_str());
                r
            },
            LocalControlError::WorkspaceNotDirectory => owned("Workspace path must point to a directory."),
            LocalControlError::UnknownThread => owned("thread_key is not a known thread"),
            LocalControlError::NotArchived => owned("thread_key is not archived"),
            LocalControlError::RepairFailed => owned("Codex session repair failed. Use New Session first."),
        }
    }
}

/// The workspace path given to an action, trimmed; it must be absolute.
pub fn workspace_argument(raw: &str) -> (r: Result<String, LocalControlError>)
    ensures
        match r {
            Ok(p) => p@ == trimmed(raw@) && absolute(trimmed(raw@)),
            Err(e) => e == LocalControlError::WorkspaceNotAbsolute && !absolute(trimmed(raw@)),
        },
{
    let input = trim(raw);
    if !is_absolute(input.as_str()) {
        return Err(LocalControlError::WorkspaceNotAbsolute);
    }
    Ok(input)
}

/// The workspace directory to use, given what the file system says of the
/// path (`is_dir`: none when it could not be read) and what canonicalizing
/// it gave: the canonical path, or the path itself.
pub fn workspace_directory(path: String, is_dir: Option<bool>, canonical: Option<String>) -> (r: Result<String, LocalControlError>)
    ensures
        match is_dir {
            None => match r {
                Err(LocalControlError::WorkspaceMissing(p)) => p@ == path@,
                _ => false,
            },
            Some(false) => r == Err::<String, LocalControlError>(LocalControlError::WorkspaceNotDirectory),
            Some(true) => match r {
                Ok(p) => p@ == match canonical {
                    Some(c) => c@,
                    None => path@,
                },
                Err(_) => false,
            },
        },
{
    match is_dir {
        None => Err(LocalControlError::WorkspaceMissing(path)),
        Some(false) => Err(LocalControlError::WorkspaceNotDirectory),
        Some(true) => match canonical {
            Some(c) => Ok(c),
            None => Ok(path),
        },
    }
}

/// A thread can be restored only from the archive.
pub fn check_restorable(record: &ThreadRecord) -> (r: Result<(), LocalControlError>)
    ensures
        r is Ok <==> record.metadata.status == ThreadStatus::Archived,
        r is Err ==> r == Err::<(), LocalControlError>(LocalControlError::NotArchived),
{
    match record.metadata.status {
        ThreadStatus::Archived => Ok(()),
        ThreadStatus::Active => Err(LocalControlError::NotArchived),
    }
}

/// What restoring a thread asks of Telegram and the repository: a forum
/// topic to open in `chat_id` under `topic_title`, into which `record` is
/// then restored. A refused restore carries none of it.
#[derive(Debug, Clone)]
pub struct RestoreRequest {
    pub chat_id: i64,
    pub topic_title: String,
    pub record: ThreadRecord,
}

/// Decides a restore from the lookup of the thread key in the control chat.
/// An unknown key and a thread that is not archived are refused, and then
/// nothing is due: no topic is opened, no message sent and the repository is
/// left as it is. An archived thread is reopened in its own chat, under its
/// restored title.
pub fn plan_restore(found: Option<ThreadRecord>) -> (r: Result<RestoreRequest, LocalControlError>)
    ensures
        match found {
            None => r == Err::<RestoreRequest, LocalControlError>(LocalControlError::UnknownThread),
            Some(t) => if t.metadata.status == ThreadStatus::Archived {
                match r {
                    Ok(q) => q.record == t && q.chat_id == t.metadata.chat_id && q.topic_title@ == restored_title(
                        opt_view(t.metadata.title),
                        t.metadata.message_thread_id,
                    ),
                    Err(_) => false,
                }
            } else {
                r == Err::<RestoreRequest, LocalControlError>(LocalControlError::NotArchived)
            },
        },
{
    match found {
        None => Err(LocalControlError::UnknownThread),
        Some(t) => {
            match check_restorable(&t) {
                Err(e) => Err(e),
                Ok(()) => {
                    let title = match &t.metadata.title {
                        Some(x) => restored_thread_title(Some(x.as_str()), t.metadata.message_thread_id),
                        None => restored_thread_title(None, t.metadata.message_thread_id),
                    };
                    Ok(RestoreRequest { chat_id: t.metadata.chat_id, topic_title: title, record: t })
                },
            }
        },
    }
}

/// The outcome of repairing a session binding: the record when the
/// session was verified, an error otherwise; and the log line either way.
pub fn repair_outcome(record: ThreadRecord, verified: bool) -> (r: (Result<ThreadRecord, LocalControlError>, &'static str))
    ensures
        verified ==> r.0 == Ok::<ThreadRecord, LocalControlError>(record) && r.1@ == "Codex session revalidated from local management UI."@,
        !verified ==> r.0 == Err::<ThreadRecord, LocalControlError>(LocalControlError::RepairFailed) && r.1@ == "Codex session revalidation failed from local management UI."@,
{
    if verified {
        (Ok(record), "Codex session revalidated from local management UI.")
    } else {
        (Err(LocalControlError::RepairFailed), "Codex session revalidation failed from local management UI.")
    }
}

/// The notice sent to the control chat when a thread is created.
pub fn created_thread_notice(topic_name: &str) -> (r: String)
    ensures
        r@ == "Created thread \""@ + topic_name@ + "\"."@,
{
    let mut r = owned("Created thread \"");
    push_str(&mut r, topic_name);
    push_str(&mut r, "\".");
    r
}

/// The log line of a thread bound to a workspace.
pub fn bound_workspace_log(workspace: &str) -> (r: String)
    ensures
        r@ == "Bound Telegram thread to workspace "@ + workspace@ + " from local management UI."@,
{
    let mut r = owned("Bound Telegram thread to workspace ");
    push_str(&mut r, workspace);
    push_str(&mut r, " from local management UI.");
    r
}

/// The notice sent into a thread bound to a workspace, with the command
/// that starts the managed TUI there.
pub fn bound_workspace_notice(workspace: &str) -> (r: String)
    ensures
        r@ == "Bound workspace: `"@ + workspace@
            + "`\n\nFor the managed local TUI path in this workspace, run:\n`"@ + workspace@
            + "/.threadbridge/bin/hcodex`"@,
{
    let mut r = owned("Bound workspace: `");
    push_str(&mut r, workspace);
    push_str(&mut r, "`\n\nFor the managed local TUI path in this workspace, run:\n`");
    push_str(&mut r, workspace);
    push_str(&mut r, "/.threadbridge/bin/hcodex`");
    r
}

/// The log line of a restored thread.
pub fn restored_thread_log(topic_name: &str, message_thread_id: i32) -> (r: String)
    ensures
        r@ == "Thread restored from local management UI into Telegram thread \""@ + topic_name@
            + "\" (message_thread_id "@ + signed_decimal(message_thread_id as int) + ")."@,
{
    let mut r = owned("Thread restored from local management UI into Telegram thread \"");
    push_str(&mut r, topic_name);
    push_str(&mut r, "\" (message_thread_id ");
    let digits = signed_decimal_string(message_thread_id as i64);
    push_str(&mut r, digits.as_str());
    push_str(&mut r, ").");
    r
}

/// The notice sent to the control chat when a thread is restored.
pub fn restored_thread_notice(topic_name: &str) -> (r: String)
    ensures
        r@ == "Restored into \""@ + topic_name@ + "\". Continue there."@,
{
    let mut r = owned("Restored into \"");
    push_str(&mut r, topic_name);
    push_str(&mut r, "\". Continue there.");
    r
}

} // verus!

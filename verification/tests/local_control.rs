use threadbridge::local_control::{
    bound_workspace_notice, check_restorable, new_thread_title, plan_restore, repair_outcome, restored_thread_title,
    workspace_argument, workspace_directory, workspace_thread_title, AddWorkspaceOutcome, LocalControlError,
};
use threadbridge::thread_model::{ThreadMetadata, ThreadRecord, ThreadStatus};

fn record(status: ThreadStatus) -> ThreadRecord {
    ThreadRecord {
        conversation_key: "thread:1".to_owned(),
        metadata: ThreadMetadata {
            chat_id: 1,
            message_thread_id: Some(7),
            thread_key: "k".to_owned(),
            title: None,
            session_broken: false,
            status,
        },
    }
}

#[test]
fn workspace_thread_title_prefers_folder_name() {
    let title = workspace_thread_title("/tmp/threadBridge/workspaces/Trackly");
    assert_eq!(title, "Trackly");
}

#[test]
fn workspace_thread_title_falls_back_to_full_path() {
    let title = workspace_thread_title("/");
    assert_eq!(title, "/");
}

#[test]
fn restored_title_keeps_the_stored_title() {
    assert_eq!(restored_thread_title(Some("  Notes "), Some(5)), "Notes · 已恢復");
    assert_eq!(restored_thread_title(Some("   "), Some(5)), "Thread 5 · 已恢復");
    assert_eq!(restored_thread_title(None, None), "Thread 0 · 已恢復");
    assert_eq!(restored_thread_title(None, Some(-3)), "Thread -3 · 已恢復");
}

#[test]
fn new_thread_title_falls_back_to_time() {
    assert_eq!(new_thread_title(Some(" Plan ".to_owned()), "03-19 10:00"), "Plan");
    assert_eq!(new_thread_title(Some(" ".to_owned()), "03-19 10:00"), "Thread 03-19 10:00");
    assert_eq!(new_thread_title(None, "03-19 10:00"), "Thread 03-19 10:00");
}

#[test]
fn workspace_argument_must_be_absolute_directory() {
    assert_eq!(workspace_argument("  /srv/ws "), Ok("/srv/ws".to_owned()));
    let err = workspace_argument("relative/ws").unwrap_err();
    assert_eq!(err, LocalControlError::WorkspaceNotAbsolute);
    assert_eq!(err.message(), "Workspace path must be absolute.");
    let missing = workspace_directory("/srv/ws".to_owned(), None, None).unwrap_err();
    assert_eq!(missing.message(), "workspace path does not exist: /srv/ws");
    assert_eq!(
        workspace_directory("/srv/ws".to_owned(), Some(false), None),
        Err(LocalControlError::WorkspaceNotDirectory)
    );
    assert_eq!(workspace_directory("/srv/ws".to_owned(), Some(true), Some("/real".to_owned())), Ok("/real".to_owned()));
    assert_eq!(workspace_directory("/srv/ws".to_owned(), Some(true), None), Ok("/srv/ws".to_owned()));
}

#[test]
fn only_archived_threads_are_restored() {
    assert!(check_restorable(&record(ThreadStatus::Archived)).is_ok());
    let err = check_restorable(&record(ThreadStatus::Active)).unwrap_err();
    assert_eq!(err.message(), "thread_key is not archived");
}

#[test]
fn failed_repair_is_an_error() {
    let (result, log) = repair_outcome(record(ThreadStatus::Active), false);
    assert_eq!(result.unwrap_err().message(), "Codex session repair failed. Use New Session first.");
    assert_eq!(log, "Codex session revalidation failed from local management UI.");
    let (result, log) = repair_outcome(record(ThreadStatus::Active), true);
    assert_eq!(result.unwrap().metadata.thread_key, "k");
    assert_eq!(log, "Codex session revalidated from local management UI.");
}

#[test]
fn add_workspace_outcome_reports_creation() {
    let created = AddWorkspaceOutcome::Created(record(ThreadStatus::Active));
    assert!(created.created());
    assert_eq!(created.record().metadata.thread_key, "k");
    assert!(!AddWorkspaceOutcome::Existing(record(ThreadStatus::Active)).created());
}

#[test]
fn bound_workspace_notice_names_hcodex() {
    assert_eq!(
        bound_workspace_notice("/w"),
        "Bound workspace: `/w`\n\nFor the managed local TUI path in this workspace, run:\n`/w/.threadbridge/bin/hcodex`"
    );
}

#[test]
fn restore_refuses_an_unknown_thread() {
    let err = plan_restore(None).unwrap_err();
    assert_eq!(err, LocalControlError::UnknownThread);
    assert_eq!(err.message(), "thread_key is not a known thread");
}

#[test]
fn restore_refuses_a_live_thread() {
    let err = plan_restore(Some(record(ThreadStatus::Active))).unwrap_err();
    assert_eq!(err, LocalControlError::NotArchived);
    assert_eq!(err.message(), "thread_key is not archived");
}

#[test]
fn restore_reopens_an_archived_thread_in_its_chat() {
    let request = plan_restore(Some(record(ThreadStatus::Archived))).unwrap();
    assert_eq!(request.chat_id, 1);
    assert_eq!(request.topic_title, "Thread 7 · 已恢復");
    assert_eq!(request.record.metadata.thread_key, "k");
}

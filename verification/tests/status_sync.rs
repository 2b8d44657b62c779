use threadbridge::busy_reconcile::{
    reconciliation_target, session_key_given, snapshot_recovers, RecoveryRule, StaleBusyReconciler, ThreadStep,
    STARTUP_STALE_BUSY_RECOVERED_LOG,
};
use threadbridge::status_sync::{
    cli_marker_label, cli_topic_marker_for_record, cli_viewer_enter_message, cli_viewer_injection_transition,
    render_topic_title, should_recover_stale_bot_busy, truncate_topic_base, CliTopicMarker,
    CliViewerInjectionState, CliViewerInjectionTransition,
};
use threadbridge::thread_model::{
    CliOwnerClaim, SessionActivitySource, SessionAttachmentState, SessionBinding, SessionCurrentStatus,
    SessionStatusOwner, ThreadMetadata, ThreadRecord, ThreadStatus, TranscriptMirrorOrigin,
    TranscriptMirrorRole, WorkspaceAggregateStatus, WorkspaceStatusEvent, WorkspaceStatusPhase,
};
use threadbridge::workspace_sync::{
    cli_mirror_entry_from_event, cli_prompt_tracking_key, should_release_cli_handoff, MirrorSyncState,
    MirrorWarning, TopicSyncState,
};

fn record(title: Option<&str>, session_broken: bool) -> ThreadRecord {
    ThreadRecord {
        conversation_key: "thread:test".to_owned(),
        metadata: ThreadMetadata {
            chat_id: 1,
            message_thread_id: Some(123),
            thread_key: "thread-key".to_owned(),
            title: title.map(str::to_owned),
            session_broken,
            status: ThreadStatus::Active,
        },
    }
}

fn aggregate(session_ids: &[&str]) -> WorkspaceAggregateStatus {
    WorkspaceAggregateStatus {
        workspace_cwd: "/tmp/workspace".to_owned(),
        live_cli_session_ids: session_ids.iter().map(|value| (*value).to_owned()).collect(),
    }
}

fn owner_claim(thread_key: &str, session_id: Option<&str>) -> CliOwnerClaim {
    CliOwnerClaim {
        thread_key: thread_key.to_owned(),
        shell_pid: 42,
        session_id: session_id.map(str::to_owned),
        started_at: "2026-03-19T00:00:00.000Z".to_owned(),
    }
}

fn binding(selected_session_id: Option<&str>, attachment_state: SessionAttachmentState) -> SessionBinding {
    SessionBinding {
        current_codex_thread_id: selected_session_id.map(str::to_owned),
        attachment_state,
        workspace_cwd: Some("/tmp/workspace".to_owned()),
    }
}

fn event(name: &str, session_id: Option<&str>, prompt: Option<&str>, thread_id: Option<&str>, message: Option<&str>) -> WorkspaceStatusEvent {
    WorkspaceStatusEvent {
        event: name.to_owned(),
        occurred_at: "2026-03-19T00:00:00.000Z".to_owned(),
        session_id: session_id.map(str::to_owned),
        prompt: prompt.map(str::to_owned),
        thread_id: thread_id.map(str::to_owned),
        last_assistant_message: message.map(str::to_owned),
    }
}

#[test]
fn render_title_uses_attach_for_cli_handoff_binding() {
    let title = render_topic_title(&record(Some("Status Sync"), true), Some("/tmp/workspace"), CliTopicMarker::Attach);
    assert_eq!(title, "Status Sync · attach · broken");
}

#[test]
fn render_title_uses_cli_for_owner_thread() {
    let marker = cli_topic_marker_for_record(
        &record(None, false),
        Some(&binding(Some("thr_bot"), SessionAttachmentState::Unattached)),
        Some(&aggregate(&["thr_cli"])),
        Some(&owner_claim("thread-key", Some("thr_cli"))),
    );
    let title = render_topic_title(&record(None, false), Some("/tmp/example-workspace"), marker);
    assert_eq!(title, "example-workspace · cli");
}

#[test]
fn render_title_truncates_before_attach_suffix() {
    let long_title = "x".repeat(140);
    let title = render_topic_title(&record(Some(&long_title), false), Some("/tmp/workspace"), CliTopicMarker::Attach);
    assert!(title.ends_with(" · attach"));
    assert!(title.chars().count() <= 128);
}

#[test]
fn cli_conflict_marker_appears_when_live_cli_has_no_owner_claim() {
    let marker = cli_topic_marker_for_record(
        &record(Some("Conflict"), false),
        Some(&binding(Some("thr_bot"), SessionAttachmentState::Unattached)),
        Some(&aggregate(&["thr_cli"])),
        None,
    );
    let title = render_topic_title(&record(Some("Conflict"), false), Some("/tmp/workspace"), marker);
    assert_eq!(title, "Conflict · cli!");
}

#[test]
fn cli_user_prompt_event_creates_cli_user_entry() {
    let e = event("user_prompt_submitted", Some("thr_cli"), Some("inspect this repo"), None, None);
    let entry = cli_mirror_entry_from_event(&e, Some("thr_cli")).expect("cli user entry");
    assert_eq!(entry.origin, TranscriptMirrorOrigin::Cli);
    assert_eq!(entry.role, TranscriptMirrorRole::User);
    assert_eq!(entry.text, "inspect this repo");
}

#[test]
fn cli_viewer_transition_enters_for_owner_thread_cli_marker() {
    let record = record(Some("Viewer"), false);
    let transition = cli_viewer_injection_transition(
        None,
        CliTopicMarker::Cli,
        &record,
        Some(&owner_claim("thread-key", Some("thr_cli"))),
    );
    assert_eq!(
        transition,
        CliViewerInjectionTransition::Enter(CliViewerInjectionState {
            lifecycle_id: "thread-key:42:2026-03-19T00:00:00.000Z".to_owned(),
            shell_pid: 42,
        })
    );
}

#[test]
fn cli_viewer_transition_exits_when_marker_returns_to_none() {
    let record = record(Some("Viewer"), false);
    let previous = CliViewerInjectionState {
        lifecycle_id: "thread-key:42:2026-03-19T00:00:00.000Z".to_owned(),
        shell_pid: 42,
    };
    let transition = cli_viewer_injection_transition(Some(&previous), CliTopicMarker::NoMarker, &record, None);
    assert_eq!(transition, CliViewerInjectionTransition::Exit);
}

#[test]
fn cli_viewer_transition_clears_silently_on_attach() {
    let record = record(Some("Viewer"), false);
    let previous = CliViewerInjectionState {
        lifecycle_id: "thread-key:42:2026-03-19T00:00:00.000Z".to_owned(),
        shell_pid: 42,
    };
    let transition = cli_viewer_injection_transition(
        Some(&previous),
        CliTopicMarker::Attach,
        &record,
        Some(&owner_claim("thread-key", Some("thr_cli"))),
    );
    assert_eq!(transition, CliViewerInjectionTransition::ClearSilently);
}

#[test]
fn cli_user_prompt_event_without_prompt_is_ignored() {
    let e = event("user_prompt_submitted", Some("thr_cli"), None, None, None);
    assert!(cli_mirror_entry_from_event(&e, Some("thr_cli")).is_none());
}

#[test]
fn turn_completed_does_not_fallback_to_input_messages_for_cli_user_entry() {
    let e = event("turn_completed", None, None, Some("thr_cli"), None);
    assert!(cli_mirror_entry_from_event(&e, Some("thr_cli")).is_none());
}

fn busy_snapshot(owner: SessionStatusOwner, phase: WorkspaceStatusPhase) -> SessionCurrentStatus {
    SessionCurrentStatus {
        session_id: "thr_test".to_owned(),
        owner,
        activity_source: SessionActivitySource::ManagedRuntime,
        phase,
        turn_id: Some("turn-1".to_owned()),
    }
}

#[test]
fn startup_reconciliation_recovers_bot_busy_session() {
    let mut reconciler = StaleBusyReconciler::new();
    let key = session_key_given("/data/workspace", None, "thr_test");
    assert_eq!(reconciler.begin_thread(Some(key)), ThreadStep::AwaitSnapshot);
    let snapshot = busy_snapshot(SessionStatusOwner::Bot, WorkspaceStatusPhase::TurnRunning);
    let recover = snapshot_recovers(RecoveryRule::BotOwnedBusy, Some(&snapshot));
    assert!(recover);
    reconciler.resolve_session(recover);
    let report = reconciler.report();
    assert_eq!(report.scanned_threads, 1);
    assert_eq!(report.unique_sessions, 1);
    assert_eq!(report.recovered_sessions, 1);
    assert_eq!(report.recovered_threads, 1);
    assert_eq!(report.skipped_threads, 0);
    assert!(STARTUP_STALE_BUSY_RECOVERED_LOG.contains("Recovered stale busy state"));
}

#[test]
fn startup_reconciliation_does_not_recover_cli_busy_session() {
    let mut reconciler = StaleBusyReconciler::new();
    let key = session_key_given("/data/workspace", None, "thr_test");
    assert_eq!(reconciler.begin_thread(Some(key)), ThreadStep::AwaitSnapshot);
    let snapshot = busy_snapshot(SessionStatusOwner::Cli, WorkspaceStatusPhase::TurnRunning);
    let recover = snapshot_recovers(RecoveryRule::BotOwnedBusy, Some(&snapshot));
    assert!(!recover);
    assert_eq!(snapshot.owner, SessionStatusOwner::Cli);
    assert_eq!(snapshot.phase, WorkspaceStatusPhase::TurnRunning);
    reconciler.resolve_session(recover);
    let report = reconciler.report();
    assert_eq!(report.recovered_sessions, 0);
    assert_eq!(report.recovered_threads, 0);
    assert_eq!(report.skipped_threads, 1);
}

#[test]
fn startup_reconciliation_recovers_shared_session_once_and_logs_all_threads() {
    let mut reconciler = StaleBusyReconciler::new();
    let key = session_key_given("/data/workspace", None, "thr_shared");
    assert_eq!(reconciler.begin_thread(Some(key.clone())), ThreadStep::AwaitSnapshot);
    reconciler.resolve_session(true);
    assert_eq!(reconciler.begin_thread(Some(key)), ThreadStep::Recovered);
    let report = reconciler.report();
    assert_eq!(report.scanned_threads, 2);
    assert_eq!(report.unique_sessions, 1);
    assert_eq!(report.recovered_sessions, 1);
    assert_eq!(report.recovered_threads, 2);
    assert_eq!(report.skipped_threads, 0);
}

#[test]
fn reconciliation_skips_threads_without_usable_binding() {
    assert!(reconciliation_target(None, true).is_none());
    let b = binding(Some("  "), SessionAttachmentState::Unattached);
    assert!(reconciliation_target(Some(&b), true).is_none());
    let b = binding(Some(" thr_x "), SessionAttachmentState::Unattached);
    assert!(reconciliation_target(Some(&b), false).is_none());
    assert_eq!(
        reconciliation_target(Some(&b), true),
        Some(("thr_x".to_owned(), "/tmp/workspace".to_owned()))
    );
    let mut reconciler = StaleBusyReconciler::new();
    assert_eq!(reconciler.begin_thread(None), ThreadStep::Skipped);
    assert_eq!(reconciler.report().skipped_threads, 1);
}

#[test]
fn reconciliation_key_prefers_canonical_workspace() {
    assert_eq!(session_key_given("/ws", Some("/real/ws".to_owned()), "s1"), "/real/ws::s1");
    assert_eq!(session_key_given("/ws", None, "s1"), "/ws::s1");
}

#[test]
fn cli_handoff_is_released_once_the_session_is_live() {
    let handoff = binding(Some("thr_cli"), SessionAttachmentState::CliHandoff);
    assert!(should_release_cli_handoff(Some(&handoff), Some(&aggregate(&["other", "thr_cli"]))));
    assert!(!should_release_cli_handoff(Some(&handoff), Some(&aggregate(&["other"]))));
    let plain = binding(Some("thr_cli"), SessionAttachmentState::Unattached);
    assert!(!should_release_cli_handoff(Some(&plain), Some(&aggregate(&["thr_cli"]))));
    assert!(!should_release_cli_handoff(Some(&handoff), None));
}

#[test]
fn topic_sync_applies_each_title_once() {
    let mut state = TopicSyncState::new();
    assert!(state.title_due("c1", "T"));
    state.title_applied("c1".to_owned(), "T".to_owned());
    assert!(!state.title_due("c1", "T"));
    assert!(state.title_due("c1", "U"));
    state.retain_active(&vec!["c2".to_owned()]);
    assert!(state.title_due("c1", "T"));
}

#[test]
fn viewer_transitions_send_their_notices() {
    let mut state = TopicSyncState::new();
    let s = CliViewerInjectionState { lifecycle_id: "k:7:t".to_owned(), shell_pid: 7 };
    let notices = state.apply_viewer_transition("c1", CliViewerInjectionTransition::Enter(s.clone()));
    assert_eq!(notices, vec![cli_viewer_enter_message(7)]);
    assert_eq!(notices, vec!["as shell 7 viewer".to_owned()]);
    assert_eq!(state.viewer("c1"), Some(&s));
    let s2 = CliViewerInjectionState { lifecycle_id: "k:8:t".to_owned(), shell_pid: 8 };
    let notices = state.apply_viewer_transition("c1", CliViewerInjectionTransition::ExitAndEnter(s2));
    assert_eq!(notices, vec!["exit session viewer".to_owned(), "as shell 8 viewer".to_owned()]);
    let notices = state.apply_viewer_transition("c1", CliViewerInjectionTransition::ClearSilently);
    assert!(notices.is_empty());
    assert!(state.viewer("c1").is_none());
}

#[test]
fn mirror_tracks_prompt_until_its_turn_completes() {
    let mut state = MirrorSyncState::new();
    assert_eq!(state.begin_workspace("/ws", 3), None);
    assert_eq!(state.begin_workspace("/ws", 5), Some(3));
    let prompt = event("user_prompt_submitted", Some("s1"), Some("  hi there "), None, None);
    let step = state.mirror_event("/ws", &prompt, Some("s1"));
    assert_eq!(step.chat_text, Some("CLI: hi there".to_owned()));
    assert!(step.warning.is_none());
    let done = event("turn_completed", None, None, Some("s1"), Some("answer"));
    let step = state.mirror_event("/ws", &done, Some("s1"));
    assert_eq!(step.chat_text, Some("Codex: answer".to_owned()));
    assert_eq!(step.entry.map(|e| e.role), Some(TranscriptMirrorRole::Assistant));
    assert!(step.warning.is_none());
    let again = state.mirror_event("/ws", &done, Some("s1"));
    assert_eq!(again.warning, Some(MirrorWarning::PromptMissing));
    let no_session = event("user_prompt_submitted", None, Some("x"), None, None);
    assert_eq!(state.mirror_event("/ws", &no_session, None).warning, Some(MirrorWarning::PromptWithoutSession));
    let blank_prompt = event("user_prompt_submitted", Some("s1"), Some("   "), None, None);
    assert_eq!(state.mirror_event("/ws", &blank_prompt, Some("s1")).warning, Some(MirrorWarning::PromptWithoutText));
    let other = event("user_prompt_submitted", Some("s2"), Some("x"), None, None);
    let step = state.mirror_event("/ws", &other, Some("s1"));
    assert!(step.entry.is_none() && step.warning.is_none());
}

#[test]
fn skipping_a_workspace_drops_its_pending_prompts() {
    let mut state = MirrorSyncState::new();
    let prompt = event("user_prompt_submitted", Some("s1"), Some("hi"), None, None);
    state.mirror_event("/ws", &prompt, None);
    state.skip_workspace("/ws", Some(9));
    assert_eq!(state.begin_workspace("/ws", 12), Some(9));
    let done = event("turn_completed", None, None, Some("s1"), None);
    assert_eq!(state.mirror_event("/ws", &done, None).warning, Some(MirrorWarning::PromptMissing));
    assert_eq!(cli_prompt_tracking_key("/ws", "s1"), "/ws::s1");
}

#[test]
fn topic_title_helpers() {
    assert_eq!(cli_marker_label(CliTopicMarker::CliConflict), ".cli!");
    let suffix = "s".repeat(124);
    assert_eq!(truncate_topic_base("abcdef", &suffix), format!("a...{}", suffix));
    assert_eq!(truncate_topic_base("ab", &"s".repeat(130)), "s".repeat(128));
    let title = render_topic_title(&record(None, false), None, CliTopicMarker::NoMarker);
    assert_eq!(title, "Unbound");
}

#[test]
fn the_two_startup_rules_differ_on_a_cli_owned_managed_turn() {
    let snapshot = busy_snapshot(SessionStatusOwner::Cli, WorkspaceStatusPhase::TurnFinalizing);
    assert!(snapshot_recovers(RecoveryRule::ManagedRuntimeBusy, Some(&snapshot)));
    assert!(!snapshot_recovers(RecoveryRule::BotOwnedBusy, Some(&snapshot)));
    assert!(!snapshot_recovers(RecoveryRule::BotOwnedBusy, None));
    let idle = busy_snapshot(SessionStatusOwner::Bot, WorkspaceStatusPhase::Idle);
    assert!(!snapshot_recovers(RecoveryRule::BotOwnedBusy, Some(&idle)));
    assert!(should_recover_stale_bot_busy(&busy_snapshot(SessionStatusOwner::Bot, WorkspaceStatusPhase::TurnRunning)));
}

use threadbridge::busy_copy::{busy_command_message, busy_text_message};
use threadbridge::image_artifacts::{build_image_analysis_prompt, render_pending_image_batch, PendingImageBatch, PendingImageBatchEntry};
use threadbridge::observer::{
    extract_user_prompt_text, observer_key, CodexItem, CodexThreadEvent, ObserverRegistry, ObserverStart, ObserverState,
};
use threadbridge::runtime_owner::{unique_sorted, RuntimeOwnerReconcileReport, RuntimeOwnerStatus, WorkspaceReconciliation};
use threadbridge::thread_model::{SessionActivitySource, SessionCurrentStatus, SessionStatusOwner, WorkspaceStatusPhase};
use threadbridge::tool_results::{validate_telegram_outbox, TelegramDeliverySurface, TelegramOutbox, TelegramOutboxError, TelegramOutboxItem};
use threadbridge::viewer::{mirror_path, render_entry, resume_shell_command, shell_single_quote, shows_entry, ViewerArgs};
use threadbridge::ws_bridge::{after_read, after_send, RelayRead, RelayStep, WsErrorKind};
use threadbridge::ws_worker::{
    loopback_ws_url, socket_addr_from_parts, socket_addr_from_ws_url, UrlParts, WorkerCli, WorkerCliError, WorkerFlag,
    WorkerUrlError,
};

fn batch(caption: Option<&str>, count: usize) -> PendingImageBatch {
    let image = PendingImageBatchEntry {
        added_at: "t".to_owned(),
        caption: None,
        file_name: "a.png".to_owned(),
        mime_type: "image/png".to_owned(),
        relative_path: "images/a.png".to_owned(),
        source_message_id: 1,
        telegram_file_id: "f".to_owned(),
    };
    PendingImageBatch {
        batch_id: "b".to_owned(),
        control_message_id: None,
        created_at: "t".to_owned(),
        images: vec![image; count],
        latest_caption: caption.map(str::to_owned),
        updated_at: "t".to_owned(),
    }
}

#[test]
fn pending_batch_notice() {
    assert_eq!(
        render_pending_image_batch(&batch(Some("cats"), 2)),
        "Image batch queued for this thread.\nImages: 2\nLatest hint: cats\nPress the button below for direct analysis, or send your next text message as the analysis request for this image batch."
    );
}

#[test]
fn analysis_prompt_uses_the_request() {
    let prompt = build_image_analysis_prompt(&batch(None, 1), Some("  what breed? "));
    assert!(prompt.ends_with("User request: what breed?"));
    let general = build_image_analysis_prompt(&batch(Some("cats"), 1), Some("  "));
    assert!(general.starts_with("Please analyze this batch of images."));
    assert!(general.ends_with("\n\nUser hint: cats"));
}

#[test]
fn outbox_refuses_blank_items_in_order() {
    let ok = TelegramOutbox {
        items: vec![TelegramOutboxItem::Text { text: "hello".to_owned(), surface: TelegramDeliverySurface::default() }],
    };
    assert!(validate_telegram_outbox(ok).is_ok());
    let bad = TelegramOutbox {
        items: vec![
            TelegramOutboxItem::Photo { path: " ".to_owned(), caption: None, surface: TelegramDeliverySurface::Content },
            TelegramOutboxItem::Text { text: "".to_owned(), surface: TelegramDeliverySurface::Status },
        ],
    };
    let err = validate_telegram_outbox(bad).unwrap_err();
    assert_eq!(err, TelegramOutboxError::InvalidFileItem);
    assert_eq!(err.message(), "Invalid telegram outbox file item.");
    let bad_text = TelegramOutbox {
        items: vec![TelegramOutboxItem::Text { text: "\n".to_owned(), surface: TelegramDeliverySurface::Draft }],
    };
    assert_eq!(validate_telegram_outbox(bad_text).unwrap_err().message(), "Invalid telegram outbox text item.");
    assert_eq!(TelegramDeliverySurface::default(), TelegramDeliverySurface::Content);
}

#[test]
fn busy_copy_depends_on_phase_and_source() {
    let snapshot = SessionCurrentStatus {
        session_id: "s".to_owned(),
        owner: SessionStatusOwner::Bot,
        activity_source: SessionActivitySource::Tui,
        phase: WorkspaceStatusPhase::TurnFinalizing,
        turn_id: None,
    };
    assert!(busy_text_message(&snapshot, true).starts_with("Image saved. The shared TUI session is already settling"));
    assert!(busy_command_message(&snapshot).contains("before changing this thread's session state."));
}

#[test]
fn runtime_owner_status_transitions() {
    let mut status = RuntimeOwnerStatus::idle();
    assert_eq!(status.state, "idle");
    status.begin_reconcile("t0".to_owned());
    assert_eq!(status.state, "running");
    let mut report = RuntimeOwnerReconcileReport::starting(2);
    report.record_ensured();
    status.fail_reconcile("t1".to_owned(), "boom".to_owned(), report);
    assert_eq!(status.state, "error");
    assert_eq!(status.last_report.ensured_workspaces, 1);
    status.finish_reconcile("t2".to_owned(), report);
    assert_eq!(status.state, "healthy");
    assert_eq!(status.last_successful_reconcile_at, Some("t2".to_owned()));
    assert_eq!(status.last_error, None);
    assert_eq!(RuntimeOwnerStatus::inactive().state, "inactive");
}

#[test]
fn managed_workspaces_are_unique_and_sorted() {
    let ws = unique_sorted(vec!["/b".to_owned(), "/a".to_owned(), "/b".to_owned(), "/c".to_owned(), "/a".to_owned()]);
    assert_eq!(ws, vec!["/a".to_owned(), "/b".to_owned(), "/c".to_owned()]);
}

#[test]
fn observer_registry_starts_once_per_thread() {
    let mut registry = ObserverRegistry::new();
    let key = observer_key("/w/", "k");
    assert_eq!(key, "/w::k");
    assert_eq!(registry.ensure(key.clone(), "t1".to_owned()), ObserverStart::Start { replaces: false });
    assert_eq!(registry.ensure(key.clone(), "t1".to_owned()), ObserverStart::AlreadyRunning);
    assert_eq!(registry.ensure(key.clone(), "t2".to_owned()), ObserverStart::Start { replaces: true });
    assert!(registry.stop(&key));
    assert!(!registry.stop(&key));
}

#[test]
fn observer_records_messages_and_plans() {
    let mut state = ObserverState::new();
    let message = CodexThreadEvent::ItemUpdated {
        item: CodexItem { item_type: Some("agent_message".to_owned()), text: Some(" draft ".to_owned()), content_texts: None },
    };
    let seen = state.observe(&message);
    assert_eq!(seen.preview_text, Some("draft".to_owned()));
    assert_eq!(state.latest_assistant_message, "draft");
    let plan = CodexThreadEvent::ItemCompleted {
        item: CodexItem { item_type: Some("plan".to_owned()), text: Some("1. do".to_owned()), content_texts: None },
    };
    state.observe(&plan);
    let finish = state.finish_turn(None, Some("failed".to_owned()), true);
    assert_eq!(finish.final_text, Some("failed".to_owned()));
    assert!(finish.send_plan_prompt);
    assert_eq!(state.latest_completed_plan_text, None);
    assert_eq!(state.latest_assistant_message, "");
}

#[test]
fn user_prompt_falls_back_to_content_texts() {
    let event = CodexThreadEvent::ItemCompleted {
        item: CodexItem {
            item_type: Some("user_message".to_owned()),
            text: Some("  ".to_owned()),
            content_texts: Some(vec![Some(" one ".to_owned()), None, Some(" ".to_owned()), Some("two".to_owned())]),
        },
    };
    assert_eq!(extract_user_prompt_text(&event), Some("one\n\ntwo".to_owned()));
    let empty = CodexThreadEvent::ItemCompleted {
        item: CodexItem { item_type: Some("user_message".to_owned()), text: None, content_texts: Some(vec![None]) },
    };
    assert_eq!(extract_user_prompt_text(&empty), None);
}

#[test]
fn viewer_arguments_and_rendering() {
    let args: Vec<String> = ["--repo-root", "/r", "--data-root", "/d", "--workspace", "/w", "--thread-key", "k", "--session-id", "s", "--since", "t"]
        .iter()
        .map(|s| (*s).to_owned())
        .collect();
    let parsed = ViewerArgs::parse(&args).unwrap();
    assert_eq!(parsed.since, "t");
    let err = ViewerArgs::parse(&vec!["--bogus".to_owned()]).unwrap_err();
    assert_eq!(err.message(), "unknown argument: --bogus");
    let err = ViewerArgs::parse(&vec![]).unwrap_err();
    assert_eq!(err.message(), "--data-root is required");
    assert_eq!(render_entry("cli", "assistant", " done "), Some("Codex: done".to_owned()));
    assert_eq!(render_entry("tui", "user", "x"), None);
    assert!(shows_entry("2026-03-19T00:00:01", "2026-03-19T00:00:00"));
    assert!(!shows_entry("2026-03-18", "2026-03-19"));
    assert_eq!(mirror_path("/d", "k"), "/d/k/state/transcript-mirror.jsonl");
    assert_eq!(shell_single_quote("it's"), "'it'\"'\"'s'");
    assert_eq!(
        resume_shell_command("/w", "s", "k"),
        "source '/w/.threadbridge/shell/codex-sync.bash' && hcodex resume 's' --thread-key 'k'"
    );
}

#[test]
fn worker_arguments_and_listen_url() {
    let args: Vec<String> = ["--workspace", "/w", "--listen-ws-url", "ws://127.0.0.1:0", "--ready-file", "/r"]
        .iter()
        .map(|s| (*s).to_owned())
        .collect();
    let cli = WorkerCli::parse(&args).unwrap();
    assert_eq!(cli.listen_ws_url, "ws://127.0.0.1:0");
    assert_eq!(WorkerCli::parse(&vec!["--nope".to_owned()]).unwrap_err().message(), "unsupported app_server_ws_worker argument: --nope");
    assert_eq!(socket_addr_from_ws_url("ws://127.0.0.1:4501"), Ok("127.0.0.1:4501".to_owned()));
    assert_eq!(socket_addr_from_ws_url("http://127.0.0.1:4501"), Err(WorkerUrlError::NotWs));
    assert_eq!(socket_addr_from_ws_url("ws://127.0.0.1:4501/x"), Err(WorkerUrlError::NotRootPath));
    assert_eq!(socket_addr_from_ws_url("ws://127.0.0.1"), Err(WorkerUrlError::MissingPort));
    assert_eq!(socket_addr_from_ws_url("nope").unwrap_err().message(), "invalid websocket url: nope");
    assert_eq!(loopback_ws_url(8080), "ws://127.0.0.1:8080");
}

#[test]
fn relay_steps() {
    assert_eq!(after_read(RelayRead::Message { is_close: false }), RelayStep::Forward);
    assert_eq!(after_read(RelayRead::Error(WsErrorKind::ConnectionClosed)), RelayStep::Stop);
    assert_eq!(after_read(RelayRead::Error(WsErrorKind::Other)), RelayStep::FailRead);
    assert_eq!(after_send(true, Some(WsErrorKind::SendAfterClosing)), RelayStep::Stop);
    assert_eq!(after_send(false, Some(WsErrorKind::SendAfterClosing)), RelayStep::FailForward);
    assert_eq!(after_send(false, None), RelayStep::Continue);
}

#[test]
fn remaining_argument_and_url_errors() {
    let parts = UrlParts {
        scheme: "ws".to_owned(),
        host: None,
        port: Some(1),
        path: "/".to_owned(),
        query: None,
        fragment: None,
    };
    assert_eq!(socket_addr_from_parts("ws://?", Some(parts)), Err(WorkerUrlError::MissingHost));
    assert_eq!(WorkerUrlError::MissingHost.message(), "worker websocket url is missing host");
    let err = WorkerCli::parse(&vec!["--workspace".to_owned()]).unwrap_err();
    assert_eq!(err, WorkerCliError::MissingValue(WorkerFlag::Workspace));
    assert_eq!(err.message(), "missing value for --workspace");
    let err = WorkerCli::parse(&vec![]).unwrap_err();
    assert_eq!(err.message(), "missing required --workspace");
    let err = ViewerArgs::parse(&vec!["--since".to_owned()]).unwrap_err();
    assert_eq!(err.message(), "missing value for --since");
}

#[test]
fn observer_key_does_not_depend_on_the_path_existing() {
    let missing = "/nonexistent-threadbridge-workspace/./project/";
    assert_eq!(observer_key(missing, "k"), "/nonexistent-threadbridge-workspace/project::k");
    assert_eq!(observer_key("/tmp/", "k"), "/tmp::k");
}

fn paths(items: &[&str]) -> Vec<String> {
    items.iter().map(|s| (*s).to_owned()).collect()
}

#[test]
fn workspace_reconciliation_ensures_each_workspace_once_in_order() {
    let mut run = WorkspaceReconciliation::start(RuntimeOwnerStatus::idle(), paths(&["/b", "/a", "/b"]), "t0".to_owned());
    assert_eq!(run.current_status().state, "running");
    let mut visited = Vec::new();
    while let Some(w) = run.next_workspace().cloned() {
        visited.push(w);
        run.workspace_ensured();
    }
    assert_eq!(visited, paths(&["/a", "/b"]));
    let (status, report) = run.finish("t1".to_owned());
    let expected = RuntimeOwnerReconcileReport { scanned_workspaces: 2, ensured_workspaces: 2, ensured_proxies: 2 };
    assert_eq!(report, expected);
    assert_eq!(status.state, "healthy");
    assert_eq!(status.last_error, None);
    assert_eq!(status.last_report, expected);
    assert_eq!(status.last_reconcile_started_at.as_deref(), Some("t0"));
    assert_eq!(status.last_successful_reconcile_at.as_deref(), Some("t1"));
    assert_eq!(status.last_reconcile_finished_at.as_deref(), Some("t1"));
}

#[test]
fn workspace_reconciliation_stops_at_the_first_failure() {
    let mut before = RuntimeOwnerStatus::idle();
    before.finish_reconcile("earlier".to_owned(), RuntimeOwnerReconcileReport::default());
    let mut run = WorkspaceReconciliation::start(before, paths(&["/c", "/a", "/b"]), "t0".to_owned());
    assert_eq!(run.next_workspace().map(String::as_str), Some("/a"));
    run.workspace_ensured();
    assert_eq!(run.next_workspace().map(String::as_str), Some("/b"));
    let (status, report) = run.fail("t1".to_owned(), "boom".to_owned());
    let expected = RuntimeOwnerReconcileReport { scanned_workspaces: 3, ensured_workspaces: 1, ensured_proxies: 1 };
    assert_eq!(report, expected);
    assert_eq!(status.state, "error");
    assert_eq!(status.last_error.as_deref(), Some("boom"));
    assert_eq!(status.last_report, expected);
    assert_eq!(status.last_reconcile_finished_at.as_deref(), Some("t1"));
    assert_eq!(status.last_successful_reconcile_at.as_deref(), Some("earlier"));
}

#[test]
fn legacy_outbox_items_are_accepted_as_content() {
    // `{"items":[{"type":"text","text":"hello"},{"type":"document","path":"reply.md"}]}`:
    // no item names a surface, so each takes the default one.
    let outbox = TelegramOutbox {
        items: vec![
            TelegramOutboxItem::Text { text: "hello".to_owned(), surface: TelegramDeliverySurface::default() },
            TelegramOutboxItem::Document {
                path: "reply.md".to_owned(),
                caption: None,
                surface: TelegramDeliverySurface::default(),
            },
        ],
    };
    let parsed = validate_telegram_outbox(outbox).unwrap();
    assert!(matches!(
        &parsed.items[0],
        TelegramOutboxItem::Text { text, surface: TelegramDeliverySurface::Content } if text == "hello"
    ));
    assert!(matches!(
        &parsed.items[1],
        TelegramOutboxItem::Document { path, surface: TelegramDeliverySurface::Content, .. } if path == "reply.md"
    ));
}

#[test]
fn explicit_delivery_surface_is_kept() {
    // `{"items":[{"type":"text","text":"busy","surface":"status"}]}`
    let outbox = TelegramOutbox {
        items: vec![TelegramOutboxItem::Text { text: "busy".to_owned(), surface: TelegramDeliverySurface::Status }],
    };
    let parsed = validate_telegram_outbox(outbox).unwrap();
    assert!(matches!(
        &parsed.items[0],
        TelegramOutboxItem::Text { text, surface: TelegramDeliverySurface::Status } if text == "busy"
    ));
}

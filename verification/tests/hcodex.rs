use threadbridge::hcodex_launch::{
    bound_threads_for_workspace, child_command_line, hcodex_command, launch_output_line, launch_ws_url,
    missing_runtime_owner_message, parse_u32, plan_hcodex_launch, runtime_is_live, runtime_state_path,
    select_bound_thread, socket_addr_of, BoundThreadCandidate, BoundThreadLaunchMatch, CliArgError, CliFlag,
    EnsureHcodexRuntimeCli, HcodexCommand, HcodexLaunchError, ResolveHcodexLaunchCli, RunHcodexSessionCli,
};
use threadbridge::ws_bridge::is_codex_safe_remote_ws_url;

fn args(items: &[&str]) -> Vec<String> {
    items.iter().map(|s| (*s).to_owned()).collect()
}

fn bound(key: &str, current: Option<&str>) -> BoundThreadLaunchMatch {
    BoundThreadLaunchMatch { thread_key: key.to_owned(), current_codex_thread_id: current.map(str::to_owned) }
}

#[test]
fn ignores_other_commands() {
    assert_eq!(hcodex_command("threadbridge"), None);
    assert_eq!(hcodex_command("run-hcodex-session"), Some(HcodexCommand::RunSession));
}

#[test]
fn bare_remote_ws_url_passes_through_without_bridge() {
    assert!(is_codex_safe_remote_ws_url("ws://127.0.0.1:4500"));
}

#[test]
fn launch_urls_with_query_or_path_need_a_bridge() {
    assert!(!is_codex_safe_remote_ws_url("ws://127.0.0.1:4500/?launch_ticket=test-ticket"));
    assert!(!is_codex_safe_remote_ws_url("ws://127.0.0.1:4500/bridge/path"));
    assert!(!is_codex_safe_remote_ws_url("ws://127.0.0.1"));
    assert!(!is_codex_safe_remote_ws_url("not a url"));
    assert!(is_codex_safe_remote_ws_url("wss://example.com:9443/"));
}

#[test]
fn ensure_runtime_arguments() {
    let cli = EnsureHcodexRuntimeCli::parse(&args(&[
        "--workspace", "/w", "--data-root", "/d", "--parent-pid", "+42", "--ready-file", "/r",
    ]))
    .unwrap();
    assert_eq!(cli.workspace, "/w");
    assert_eq!(cli.data_root, "/d");
    assert_eq!(cli.parent_pid, Some(42));
    assert_eq!(cli.ready_file, Some("/r".to_owned()));
    let err = EnsureHcodexRuntimeCli::parse(&args(&["--workspace", "/w", "--parent-pid", "4294967296"])).unwrap_err();
    assert_eq!(err.message(), "invalid --parent-pid: 4294967296");
    let err = EnsureHcodexRuntimeCli::parse(&args(&["--workspace", "/w"])).unwrap_err();
    assert_eq!(err, CliArgError::MissingRequired(CliFlag::DataRoot));
    assert_eq!(err.message(), "missing required --data-root");
    let err = EnsureHcodexRuntimeCli::parse(&args(&["--thread-key", "k"])).unwrap_err();
    assert_eq!(err.message(), "unsupported ensure-hcodex-runtime argument: --thread-key");
    let err = EnsureHcodexRuntimeCli::parse(&args(&["--workspace"])).unwrap_err();
    assert_eq!(err.message(), "missing value for --workspace");
}

#[test]
fn run_session_arguments_pass_the_rest_to_codex() {
    let cli = RunHcodexSessionCli::parse(&args(&[
        "--workspace", "/w", "--data-root", "/d", "--thread-key", "k", "--codex-bin", "codex",
        "--remote-ws-url", "ws://h:1", "--", "resume", "--last",
    ]))
    .unwrap();
    assert_eq!(cli.thread_key, "k");
    assert_eq!(cli.codex_bin, "codex");
    assert_eq!(cli.remote_ws_url, "ws://h:1");
    assert_eq!(cli.codex_args, args(&["resume", "--last"]));
    let err = RunHcodexSessionCli::parse(&args(&["--workspace", "/w", "--data-root", "/d", "--", "x"])).unwrap_err();
    assert_eq!(err.message(), "missing required --thread-key");
}

#[test]
fn resolve_launch_arguments() {
    let cli = ResolveHcodexLaunchCli::parse(&args(&["--data-root", "/d", "--workspace", "/w"])).unwrap();
    assert_eq!(cli.thread_key, None);
    let err = ResolveHcodexLaunchCli::parse(&args(&["--workspace", "/w", "--data-root", "/d", "--", "x"])).unwrap_err();
    assert_eq!(err.message(), "unsupported resolve-hcodex-launch argument: --");
}

#[test]
fn process_ids_parse_like_str_parse() {
    assert_eq!(parse_u32("0"), Some(0));
    assert_eq!(parse_u32("4294967295"), Some(u32::MAX));
    assert_eq!(parse_u32("4294967296"), None);
    assert_eq!(parse_u32("+7"), Some(7));
    assert_eq!(parse_u32("+"), None);
    assert_eq!(parse_u32(""), None);
    assert_eq!(parse_u32("-1"), None);
    assert_eq!(parse_u32("12a"), None);
    for text in ["17", "+3", "99999999999", "x", "007"] {
        assert_eq!(parse_u32(text), text.parse::<u32>().ok());
    }
}

#[test]
fn selecting_the_bound_thread() {
    let matches = vec![bound("a", Some("s1")), bound("b", None)];
    assert_eq!(select_bound_thread(matches.clone(), Some("b")).unwrap().thread_key, "b");
    let err = select_bound_thread(matches.clone(), Some("c")).unwrap_err();
    assert_eq!(err.message(), "hcodex: no active Telegram thread binding found for --thread-key c");
    assert_eq!(select_bound_thread(matches, None).unwrap_err(), HcodexLaunchError::MultipleBindings);
    assert_eq!(select_bound_thread(vec![], None).unwrap_err(), HcodexLaunchError::NoBindingForWorkspace);
    assert_eq!(select_bound_thread(vec![bound("only", None)], None).unwrap().thread_key, "only");
}

#[test]
fn planning_a_launch() {
    let plan = plan_hcodex_launch(Some("ws://h:1/x?a=b".to_owned()), vec![bound("k", Some("s1"))], None).unwrap();
    assert_eq!(plan.current_thread, "s1");
    assert_eq!(launch_output_line(&plan, "T"), "ws://h:1/x?a=b&launch_ticket=T\tk\ts1");
    assert_eq!(launch_ws_url("ws://h:1/", "T"), "ws://h:1/?launch_ticket=T");
    assert_eq!(
        plan_hcodex_launch(Some("  ".to_owned()), vec![bound("k", Some("s1"))], None).unwrap_err(),
        HcodexLaunchError::MissingHcodexWsUrl
    );
    let err = plan_hcodex_launch(Some("ws://h:1".to_owned()), vec![bound("k", Some(" "))], None).unwrap_err();
    assert_eq!(err.message(), "hcodex: bound Telegram thread is missing current_codex_thread_id");
}

#[test]
fn bound_threads_are_filtered_and_ordered() {
    let candidates = vec![
        BoundThreadCandidate { thread_key: "z".to_owned(), current_codex_thread_id: None, bound_workspace: "/w/".to_owned() },
        BoundThreadCandidate { thread_key: "m".to_owned(), current_codex_thread_id: Some("s".to_owned()), bound_workspace: "/other".to_owned() },
        BoundThreadCandidate { thread_key: "a".to_owned(), current_codex_thread_id: None, bound_workspace: "/w".to_owned() },
    ];
    let keys: Vec<String> = bound_threads_for_workspace(candidates, "/w").into_iter().map(|m| m.thread_key).collect();
    assert_eq!(keys, vec!["a".to_owned(), "z".to_owned()]);
}

#[test]
fn runtime_state_and_liveness() {
    assert_eq!(runtime_state_path("/w"), "/w/.threadbridge/state/app-server/current.json");
    assert_eq!(socket_addr_of("ws://127.0.0.1:9"), Some("127.0.0.1:9".to_owned()));
    assert_eq!(socket_addr_of("wss://x:1"), None);
    assert!(runtime_is_live(true, Some(true)));
    assert!(!runtime_is_live(true, None));
    assert!(!runtime_is_live(false, Some(true)));
    assert_eq!(
        missing_runtime_owner_message("/w"),
        "hcodex requires the desktop runtime owner. Start threadbridge_desktop and repair the workspace runtime for /w."
    );
    assert_eq!(child_command_line("codex", "ws://h:1"), "codex --remote ws://h:1");
}

#[test]
fn process_ids_read_back_as_written() {
    for n in [0u32, 7, 42, 65535, 4000000000, u32::MAX] {
        assert_eq!(parse_u32(&n.to_string()), Some(n));
    }
}

#[test]
fn bound_threads_with_equal_keys_keep_their_order() {
    let candidates = vec![
        BoundThreadCandidate { thread_key: "b".to_owned(), current_codex_thread_id: Some("1".to_owned()), bound_workspace: "/w".to_owned() },
        BoundThreadCandidate { thread_key: "a".to_owned(), current_codex_thread_id: Some("2".to_owned()), bound_workspace: "/w".to_owned() },
        BoundThreadCandidate { thread_key: "a".to_owned(), current_codex_thread_id: Some("3".to_owned()), bound_workspace: "/w/".to_owned() },
    ];
    let got: Vec<(String, Option<String>)> = bound_threads_for_workspace(candidates, "/w")
        .into_iter()
        .map(|m| (m.thread_key, m.current_codex_thread_id))
        .collect();
    assert_eq!(
        got,
        vec![
            ("a".to_owned(), Some("2".to_owned())),
            ("a".to_owned(), Some("3".to_owned())),
            ("b".to_owned(), Some("1".to_owned())),
        ]
    );
}

#[test]
fn planning_a_launch_for_a_requested_thread() {
    let url = || Some("ws://h:1".to_owned());
    let matches = || vec![bound("a", Some("s0")), bound("k", Some("s1")), bound("k", Some("s2"))];
    let plan = plan_hcodex_launch(url(), matches(), Some("k")).unwrap();
    assert_eq!((plan.thread_key.as_str(), plan.current_thread.as_str()), ("k", "s1"));
    assert_eq!(
        plan_hcodex_launch(url(), matches(), Some("q")).unwrap_err(),
        HcodexLaunchError::NoBindingForThreadKey("q".to_owned())
    );
    assert_eq!(
        plan_hcodex_launch(url(), vec![bound("k", None), bound("k", Some("s2"))], Some("k")).unwrap_err(),
        HcodexLaunchError::MissingCurrentThread
    );
}

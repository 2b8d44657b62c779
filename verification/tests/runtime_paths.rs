use threadbridge::runtime_paths::{
    resolve_from_base, resolve_runtime_paths_with, runtime_paths_given, BuildFlavor, RuntimePathError, RuntimePathOverrides,
    DEBUG_EVENTS_RELATIVE_PATH,
};

fn temp_path(name: &str) -> String {
    format!("/tmp/threadbridge-runtime-paths-{name}-7f3c2a9e-4b1d-4e5f-9a0b-1c2d3e4f5a6b")
}

fn join(base: &str, rel: &str) -> String {
    format!("{base}/{rel}")
}

#[test]
fn debug_build_defaults_to_repo_local_data_root() {
    let cwd = temp_path("debug-default");
    let paths = resolve_runtime_paths_with(
        &cwd,
        BuildFlavor::Debug,
        Some(temp_path("platform")),
        RuntimePathOverrides::default(),
    )
    .unwrap();
    assert_eq!(paths.data_root_path, join(&cwd, "data"));
    assert_eq!(paths.debug_log_path, join(&join(&cwd, "data"), DEBUG_EVENTS_RELATIVE_PATH));
}

#[test]
fn release_build_defaults_to_platform_local_data_dir() {
    let cwd = temp_path("release-default");
    let platform_root = temp_path("platform");
    let paths = resolve_runtime_paths_with(
        &cwd,
        BuildFlavor::Release,
        Some(platform_root.clone()),
        RuntimePathOverrides::default(),
    )
    .unwrap();
    assert_eq!(paths.data_root_path, join(&platform_root, "threadBridge"));
    assert_eq!(
        paths.debug_log_path,
        join(&join(&platform_root, "threadBridge"), DEBUG_EVENTS_RELATIVE_PATH)
    );
}

#[test]
fn data_root_override_has_highest_precedence() {
    let cwd = temp_path("override");
    let paths = resolve_runtime_paths_with(
        &cwd,
        BuildFlavor::Release,
        None,
        RuntimePathOverrides {
            data_root: Some("./custom-data".to_owned()),
            bot_data_path: Some("./ignored/state.json".to_owned()),
            debug_log_path: None,
        },
    )
    .unwrap();
    assert_eq!(paths.data_root_path, join(&cwd, "custom-data"));
    assert_eq!(paths.debug_log_path, join(&join(&cwd, "custom-data"), DEBUG_EVENTS_RELATIVE_PATH));
}

#[test]
fn legacy_bot_data_path_uses_parent_directory() {
    let cwd = temp_path("legacy");
    let paths = resolve_runtime_paths_with(
        &cwd,
        BuildFlavor::Release,
        Some(temp_path("platform")),
        RuntimePathOverrides {
            data_root: None,
            bot_data_path: Some("./legacy/state.json".to_owned()),
            debug_log_path: None,
        },
    )
    .unwrap();
    assert_eq!(paths.data_root_path, join(&cwd, "legacy"));
}

#[test]
fn debug_log_override_is_resolved_relative_to_cwd() {
    let cwd = temp_path("debug-log");
    let paths = resolve_runtime_paths_with(
        &cwd,
        BuildFlavor::Debug,
        None,
        RuntimePathOverrides {
            data_root: Some("./custom-data".to_owned()),
            bot_data_path: None,
            debug_log_path: Some("./logs/custom.jsonl".to_owned()),
        },
    )
    .unwrap();
    assert_eq!(paths.data_root_path, join(&cwd, "custom-data"));
    assert_eq!(paths.debug_log_path, join(&cwd, "logs/custom.jsonl"));
}

#[test]
fn release_build_requires_platform_local_data_dir_without_overrides() {
    let error = resolve_runtime_paths_with(
        &temp_path("missing-platform"),
        BuildFlavor::Release,
        None,
        RuntimePathOverrides::default(),
    )
    .unwrap_err();
    assert!(error.message().contains("failed to resolve a local application data directory"));
}

#[test]
fn absolute_overrides_are_preserved() {
    let cwd = temp_path("absolute");
    let data_root = temp_path("explicit-data-root");
    let debug_log = join(&temp_path("explicit-debug-log"), "events.jsonl");
    let paths = resolve_runtime_paths_with(
        &cwd,
        BuildFlavor::Debug,
        None,
        RuntimePathOverrides {
            data_root: Some(data_root.clone()),
            bot_data_path: None,
            debug_log_path: Some(debug_log.clone()),
        },
    )
    .unwrap();
    assert_eq!(paths.data_root_path, data_root);
    assert_eq!(paths.debug_log_path, debug_log);
}

#[test]
fn canonical_forms_replace_the_normalized_paths() {
    let paths = runtime_paths_given(
        "/work",
        BuildFlavor::Debug,
        None,
        RuntimePathOverrides {
            data_root: None,
            bot_data_path: None,
            debug_log_path: Some("logs/../x.jsonl".to_owned()),
        },
        Some("/real/data".to_owned()),
        None,
    )
    .unwrap();
    assert_eq!(paths.data_root_path, "/real/data");
    assert_eq!(paths.debug_log_path, "/work/logs/../x.jsonl");
}

#[test]
fn legacy_bot_data_file_at_root_falls_back_to_debug_root() {
    let paths = runtime_paths_given(
        "/work",
        BuildFlavor::Release,
        None,
        RuntimePathOverrides { data_root: None, bot_data_path: Some("/".to_owned()), debug_log_path: None },
        None,
        None,
    )
    .unwrap();
    assert_eq!(paths.data_root_path, "/work/./data");
}

#[test]
fn missing_local_data_dir_is_the_only_error() {
    let err = runtime_paths_given("/w", BuildFlavor::Release, None, RuntimePathOverrides::default(), None, None);
    assert_eq!(err, Err(RuntimePathError::MissingLocalDataDir));
}

#[test]
fn existing_paths_are_canonicalized() {
    assert_eq!(resolve_from_base("/", "tmp/.."), "/");
    assert_eq!(resolve_from_base("/nonexistent-threadbridge-base", "a/./b"), "/nonexistent-threadbridge-base/a/b");
    assert_eq!(threadbridge::busy_reconcile::session_reconciliation_key("/tmp/..", "s"), "/::s");
}

//! Verified core of threadBridge, which connects Telegram forum threads
//! with Codex sessions running in local workspaces.
use vstd::prelude::*;

pub mod text;
pub mod image_artifacts;
pub mod runtime_owner;
pub mod tool_results;
pub mod codex_home;
pub mod runtime_paths;
pub mod ws_worker;
pub mod markdown;
pub mod paths;
pub mod final_reply;
pub mod string_map;
pub mod thread_model;
pub mod status_sync;
pub mod busy_reconcile;
pub mod telemetry;
pub mod workspace_sync;
pub mod busy_copy;
pub mod hcodex_launch;
pub mod ws_bridge;
pub mod observer;
pub mod local_control;
pub mod viewer;

//! The replies sent while a session's turn is busy, by where its activity
//! comes from and whether the turn is settling after an interrupt.
use vstd::prelude::*;
use crate::thread_model::{SessionActivitySource, SessionCurrentStatus, WorkspaceStatusPhase};

verus! {

/// The reply to a Telegram message while the session is busy.
pub open spec fn busy_text(source: SessionActivitySource, phase: WorkspaceStatusPhase, image_saved: bool) -> Seq<char> {
    if phase == WorkspaceStatusPhase::TurnFinalizing {
        match source {
            SessionActivitySource::Tui => if image_saved {
                "Image saved. The shared TUI session is already settling after an interrupt request. Analysis will stay pending until that turn fully stops."@
            } else {
                "The shared TUI session is already settling after an interrupt request. Wait for it to stop before sending a new Telegram request."@
            },
            SessionActivitySource::ManagedRuntime => "This thread's current Codex session is already settling after an interrupt request. Wait for it to stop before sending a new Telegram request."@,
        }
    } else {
        match source {
            SessionActivitySource::Tui => if image_saved {
                "Image saved. Analysis will stay pending until the shared TUI session finishes its current turn. Use /stop if you want to interrupt it."@
            } else {
                "The shared TUI session is already running a turn. Wait for it to finish before sending a new Telegram request, or use /stop to interrupt it."@
            },
            SessionActivitySource::ManagedRuntime => "This thread's current Codex session is already handling another Telegram request. Wait for it to finish before sending a new one, or use /stop to interrupt it."@,
        }
    }
}

/// The reply to a session command while the session is busy.
pub open spec fn busy_command(source: SessionActivitySource, phase: WorkspaceStatusPhase) -> Seq<char> {
    if phase == WorkspaceStatusPhase::TurnFinalizing {
        match source {
            SessionActivitySource::Tui => "The shared TUI session is already settling after an interrupt request. Wait for it to stop before changing this thread's session state."@,
            SessionActivitySource::ManagedRuntime => "This thread's current Codex session is already settling after an interrupt request. Wait for it to stop before changing session state."@,
        }
    } else {
        match source {
            SessionActivitySource::Tui => "The shared TUI session is already running a turn. Wait for it to finish before changing this thread's session state, or use /stop to interrupt it."@,
            SessionActivitySource::ManagedRuntime => "This thread's current Codex session is already handling another Telegram request. Wait for it to finish before changing session state, or use /stop to interrupt it."@,
        }
    }
}

/// The reply to a Telegram message while the session is busy.
pub fn busy_text_message(snapshot: &SessionCurrentStatus, image_saved: bool) -> (r: &'static str)
    ensures
        r@ == busy_text(snapshot.activity_source, snapshot.phase, image_saved),
{
    if snapshot.phase == WorkspaceStatusPhase::TurnFinalizing {
        return match snapshot.activity_source {
            SessionActivitySource::Tui => if image_saved {
                "Image saved. The shared TUI session is already settling after an interrupt request. Analysis will stay pending until that turn fully stops."
            } else {
                "The shared TUI session is already settling after an interrupt request. Wait for it to stop before sending a new Telegram request."
            },
            SessionActivitySource::ManagedRuntime => "This thread's current Codex session is already settling after an interrupt request. Wait for it to stop before sending a new Telegram request.",
        };
    }
    match snapshot.activity_source {
        SessionActivitySource::Tui => if image_saved {
            "Image saved. Analysis will stay pending until the shared TUI session finishes its current turn. Use /stop if you want to interrupt it."
        } else {
            "The shared TUI session is already running a turn. Wait for it to finish before sending a new Telegram request, or use /stop to interrupt it."
        },
        SessionActivitySource::ManagedRuntime => "This thread's current Codex session is already handling another Telegram request. Wait for it to finish before sending a new one, or use /stop to interrupt it.",
    }
}

/// The reply to a session command while the session is busy.
pub fn busy_command_message(snapshot: &SessionCurrentStatus) -> (r: &'static str)
    ensures
        r@ == busy_command(snapshot.activity_source, snapshot.phase),
{
    if snapshot.phase == WorkspaceStatusPhase::TurnFinalizing {
        return match snapshot.activity_source {
            SessionActivitySource::Tui => "The shared TUI session is already settling after an interrupt request. Wait for it to stop before changing this thread's session state.",
            SessionActivitySource::ManagedRuntime => "This thread's current Codex session is already settling after an interrupt request. Wait for it to stop before changing session state.",
        };
    }
    match snapshot.activity_source {
        SessionActivitySource::Tui => "The shared TUI session is already running a turn. Wait for it to finish before changing this thread's session state, or use /stop to interrupt it.",
        SessionActivitySource::ManagedRuntime => "This thread's current Codex session is already handling another Telegram request. Wait for it to finish before changing session state, or use /stop to interrupt it.",
    }
}

} // verus!

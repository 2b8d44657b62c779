//! The observer that follows a Codex thread driven from the TUI, and
//! mirrors what it sees into the workspace status and the Telegram thread.
//!
//! Following the thread's events, writing the workspace status and talking
//! to Telegram belong to the caller, which hands each event here as plain
//! values and acts on what comes back.
use vstd::prelude::*;
use crate::paths::{normalized, path_normalize};
use crate::string_map::StringMap;
use crate::text::{blank, char_count, is_blank, owned, push_str, str_eq, trim, trimmed};
use crate::thread_model::opt_view;

verus! {

/// The key of the observer of a thread in a workspace: the workspace path
/// normalized component by component, `::`, the thread key.
pub open spec fn observer_key_of(workspace_path: Seq<char>, thread_key: Seq<char>) -> Seq<char> {
    normalized(workspace_path) + "::"@ + thread_key
}

/// The key of the observer of a thread in a workspace. It is computed from
/// the text of the path alone, so that registering an observer for a fresh
/// session (whose workspace may not exist yet) and forwarding its frames
/// later agree on the key whether or not the path exists by then.
pub fn observer_key(workspace_path: &str, thread_key: &str) -> (r: String)
    ensures
        r@ == observer_key_of(workspace_path@, thread_key@),
{
    let mut r = path_normalize(workspace_path);
    push_str(&mut r, "::");
    push_str(&mut r, thread_key);
    r
}

/// What to do when an observer is asked for.
#[derive(Debug, Clone, Copy, PartialEq, Eq, Structural)]
pub enum ObserverStart {
    /// An observer of the same Codex thread runs already.
    AlreadyRunning,
    /// Start one; `replaces` says whether one of another Codex thread runs
    /// under the key and is to be aborted first.
    Start { replaces: bool },
}

/// The observers running, by key, with the Codex thread each follows.
pub struct ObserverRegistry {
    running: StringMap<String>,
}

impl ObserverRegistry {
    /// The Codex thread followed, by observer key.
    pub closed spec fn followed(&self) -> Map<Seq<char>, String> {
        self.running.view()
    }

    pub closed spec fn wf(&self) -> bool {
        self.running.wf()
    }

    /// No observer runs.
    pub fn new() -> (r: Self)
        ensures
            r.wf(),
            r.followed() == Map::<Seq<char>, String>::empty(),
    {
        ObserverRegistry { running: StringMap::new() }
    }

    /// Asks for an observer of Codex thread `thread_id` under `key`: none
    /// is started when one follows that thread already; otherwise the new
    /// one is recorded, in place of any other.
    pub fn ensure(&mut self, key: String, thread_id: String) -> (s: ObserverStart)
        requires
            old(self).wf(),
        ensures
            final(self).wf(),
            old(self).followed().contains_key(key@) && old(self).followed()[key@]@ == thread_id@ ==> s
                == ObserverStart::AlreadyRunning && final(self).followed() == old(self).followed(),
            !(old(self).followed().contains_key(key@) && old(self).followed()[key@]@ == thread_id@) ==> s
                == (ObserverStart::Start { replaces: old(self).followed().contains_key(key@) })
                && final(self).followed() == old(self).followed().insert(key@, thread_id),
    {
        let replaces = match self.running.get(key.as_str()) {
            Some(existing) => {
                if str_eq(existing.as_str(), thread_id.as_str()) {
                    return ObserverStart::AlreadyRunning;
                }
                true
            },
            None => false,
        };
        self.running.insert(key, thread_id);
        ObserverStart::Start { replaces }
    }

    /// Forgets the observer under `key`; whether one ran (and is to be
    /// aborted).
    pub fn stop(&mut self, key: &str) -> (was_running: bool)
        requires
            old(self).wf(),
        ensures
            final(self).wf(),
            was_running == old(self).followed().contains_key(key@),
            final(self).followed() == old(self).followed().remove(key@),
    {
        let was_running = self.running.contains_key(key);
        self.running.remove(key);
        was_running
    }
}

/// An item of a Codex thread event, as far as the observer reads it: its
/// type, its text, and the texts of its content entries (each present only
/// when it is a string; the list only when the content is a list).
#[derive(Debug, Clone)]
pub struct CodexItem {
    pub item_type: Option<String>,
    pub text: Option<String>,
    pub content_texts: Option<Vec<Option<String>>>,
}

/// The events of a Codex thread.
#[derive(Debug, Clone)]
pub enum CodexThreadEvent {
    ThreadStarted,
    TurnStarted,
    TurnCompleted { turn_id: Option<String> },
    TurnFailed { turn_id: Option<String>, error: String },
    Error,
    ItemStarted { item: CodexItem },
    ItemUpdated { item: CodexItem },
    ItemCompleted { item: CodexItem },
}

/// A text, trimmed, when it is not blank.
pub open spec fn nonblank(t: Option<String>) -> Option<Seq<char>> {
    match t {
        Some(s) => if is_blank(s@) {
            None
        } else {
            Some(trimmed(s@))
        },
        None => None,
    }
}

/// The texts of content entries that are not blank, trimmed and joined by
/// a blank line.
pub open spec fn joined_texts(cs: Seq<Option<String>>) -> Seq<char>
    decreases cs.len(),
{
    if cs.len() == 0 {
        Seq::empty()
    } else {
        let acc = joined_texts(cs.drop_last());
        match nonblank(cs.last()) {
            None => acc,
            Some(p) => if acc.len() == 0 {
                p
            } else {
                acc + "\n\n"@ + p
            },
        }
    }
}

/// The item's type is `kind`.
pub open spec fn item_is(item: CodexItem, kind: Seq<char>) -> bool {
    item.item_type matches Some(t) && t@ == kind
}

/// The agent message an event carries: an updated or completed agent
/// message item with text.
pub open spec fn agent_message_text(e: CodexThreadEvent) -> Option<Seq<char>> {
    match e {
        CodexThreadEvent::ItemUpdated { item } => if item_is(item, "agent_message"@) {
            nonblank(item.text)
        } else {
            None
        },
        CodexThreadEvent::ItemCompleted { item } => if item_is(item, "agent_message"@) {
            nonblank(item.text)
        } else {
            None
        },
        _ => None,
    }
}

/// The plan an event completes: a completed plan item with text.
pub open spec fn completed_plan_text(e: CodexThreadEvent) -> Option<Seq<char>> {
    match e {
        CodexThreadEvent::ItemCompleted { item } => if item_is(item, "plan"@) {
            nonblank(item.text)
        } else {
            None
        },
        _ => None,
    }
}

/// The prompt an event submits: a completed user message item, by its
/// text, or else by the texts of its content.
pub open spec fn user_prompt_text(e: CodexThreadEvent) -> Option<Seq<char>> {
    match e {
        CodexThreadEvent::ItemCompleted { item } => if item_is(item, "user_message"@) {
            match nonblank(item.text) {
                Some(t) => Some(t),
                None => match item.content_texts {
                    Some(cs) => if joined_texts(cs@).len() == 0 {
                        None
                    } else {
                        Some(joined_texts(cs@))
                    },
                    None => None,
                },
            }
        } else {
            None
        },
        _ => None,
    }
}

/// Which events carry an agent message, for every item: an agent message
/// item gives its text, trimmed, when it is updated and again when it is
/// completed (the two agree), and nothing when its text is blank or absent;
/// an item of another type, and an item only started, gives none.
pub proof fn lemma_agent_message_events(item: CodexItem, ty: String, x: String)
    ensures
        agent_message_text(CodexThreadEvent::ItemCompleted { item }) == agent_message_text(
            CodexThreadEvent::ItemUpdated { item },
        ),
        (item.item_type == Some(ty) && ty@ == "agent_message"@ && item.text == Some(x) && !is_blank(x@))
            ==> agent_message_text(CodexThreadEvent::ItemCompleted { item }) == Some(trimmed(x@)),
        (item.text is None || (item.text == Some(x) && is_blank(x@)))
            ==> agent_message_text(CodexThreadEvent::ItemCompleted { item }) is None,
        (item.item_type is None || (item.item_type == Some(ty) && ty@ != "agent_message"@)) ==> agent_message_text(
            CodexThreadEvent::ItemCompleted { item },
        ) is None,
        agent_message_text(CodexThreadEvent::ItemStarted { item }) is None,
{
}

/// Which events complete a plan or submit a prompt, for every item: a
/// completed plan item gives its trimmed text when not blank, and an updated
/// one gives nothing; a completed user message gives its trimmed text when
/// not blank.
pub proof fn lemma_plan_and_prompt_events(item: CodexItem, ty: String, x: String)
    ensures
        (item.item_type == Some(ty) && ty@ == "plan"@ && item.text == Some(x) && !is_blank(x@))
            ==> completed_plan_text(CodexThreadEvent::ItemCompleted { item }) == Some(trimmed(x@)),
        completed_plan_text(CodexThreadEvent::ItemUpdated { item }) is None,
        (item.item_type == Some(ty) && ty@ == "user_message"@ && item.text == Some(x) && !is_blank(x@))
            ==> user_prompt_text(CodexThreadEvent::ItemCompleted { item }) == Some(trimmed(x@)),
        user_prompt_text(CodexThreadEvent::ItemUpdated { item }) is None,
{
}

/// A text, trimmed, when it is not blank.
fn nonblank_of(t: &Option<String>) -> (r: Option<String>)
    ensures
        opt_view(r) == nonblank(*t),
{
    match t {
        Some(s) => if blank(s.as_str()) {
            None
        } else {
            Some(trim(s.as_str()))
        },
        None => None,
    }
}

/// Whether the item's type is `kind`.
fn item_kind_is(item: &CodexItem, kind: &str) -> (b: bool)
    ensures
        b == item_is(*item, kind@),
{
    match &item.item_type {
        Some(t) => str_eq(t.as_str(), kind),
        None => false,
    }
}

/// The texts of content entries that are not blank, joined.
fn join_texts(cs: &Vec<Option<String>>) -> (r: String)
    ensures
        r@ == joined_texts(cs@),
{
    let mut r = owned("");
    proof {
        reveal_strlit("");
        assert(cs@.take(0) =~= Seq::<Option<String>>::empty());
    }
    let mut i: usize = 0;
    while i < cs.len()
        invariant
            i <= cs@.len(),
            r@ == joined_texts(cs@.take(i as int)),
        decreases cs@.len() - i,
    {
        proof {
            assert(cs@.take(i + 1).drop_last() =~= cs@.take(i as int));
            assert(cs@.take(i + 1).last() == cs@[i as int]);
        }
        match nonblank_of(&cs[i]) {
            Some(p) => {
                if char_count(r.as_str()) == 0 {
                    r = p;
                } else {
                    push_str(&mut r, "\n\n");
                    push_str(&mut r, p.as_str());
                }
            },
            None => {},
        }
        i += 1;
    }
    proof {
        assert(cs@.take(i as int) =~= cs@);
    }
    r
}

/// The agent message an event carries.
pub fn extract_agent_message_text(event: &CodexThreadEvent) -> (r: Option<String>)
    ensures
        opt_view(r) == agent_message_text(*event),
{
    let item = match event {
        CodexThreadEvent::ItemUpdated { item } => item,
        CodexThreadEvent::ItemCompleted { item } => item,
        _ => return None,
    };
    if !item_kind_is(item, "agent_message") {
        return None;
    }
    nonblank_of(&item.text)
}

/// The plan an event completes.
pub fn extract_completed_plan_text(event: &CodexThreadEvent) -> (r: Option<String>)
    ensures
        opt_view(r) == completed_plan_text(*event),
{
    let item = match event {
        CodexThreadEvent::ItemCompleted { item } => item,
        _ => return None,
    };
    if !item_kind_is(item, "plan") {
        return None;
    }
    nonblank_of(&item.text)
}

/// The prompt an event submits.
pub fn extract_user_prompt_text(event: &CodexThreadEvent) -> (r: Option<String>)
    ensures
        opt_view(r) == user_prompt_text(*event),
{
    let item = match event {
        CodexThreadEvent::ItemCompleted { item } => item,
        _ => return None,
    };
    if !item_kind_is(item, "user_message") {
        return None;
    }
    match nonblank_of(&item.text) {
        Some(t) => Some(t),
        None => match &item.content_texts {
            Some(cs) => {
                let j = join_texts(cs);
                if char_count(j.as_str()) == 0 {
                    None
                } else {
                    Some(j)
                }
            },
            None => None,
        },
    }
}

/// What the observer records while a turn runs: the latest agent message,
/// and the plan the turn completed, if any.
pub struct ObserverState {
    pub latest_assistant_message: String,
    pub latest_completed_plan_text: Option<String>,
}

/// What the observer reports of one event: the prompt submitted and the
/// assistant text to preview, if any.
pub struct ObservedEvent {
    pub prompt: Option<String>,
    pub preview_text: Option<String>,
}

/// What ends a turn: the final text to record (the composed reply, or the
/// failure when there is none), and whether the plan implementation prompt
/// is to be sent.
pub struct TurnFinish {
    pub final_text: Option<String>,
    pub send_plan_prompt: bool,
}

impl ObserverState {
    /// Nothing recorded yet.
    pub fn new() -> (s: Self)
        ensures
            s.latest_assistant_message@ == Seq::<char>::empty(),
            s.latest_completed_plan_text is None,
    {
        let s = ObserverState { latest_assistant_message: owned(""), latest_completed_plan_text: None };
        proof {
            reveal_strlit("");
        }
        s
    }

    /// Takes in one event: records its agent message and completed plan,
    /// and reports its prompt and preview.
    pub fn observe(&mut self, event: &CodexThreadEvent) -> (o: ObservedEvent)
        ensures
            opt_view(o.prompt) == user_prompt_text(*event),
            opt_view(o.preview_text) == agent_message_text(*event),
            final(self).latest_assistant_message@ == match agent_message_text(*event) {
                Some(t) => t,
                None => old(self).latest_assistant_message@,
            },
            opt_view(final(self).latest_completed_plan_text) == match completed_plan_text(*event) {
                Some(t) => Some(t),
                None => opt_view(old(self).latest_completed_plan_text),
            },
    {
        let prompt = extract_user_prompt_text(event);
        let preview_text = extract_agent_message_text(event);
        match &preview_text {
            Some(t) => self.latest_assistant_message = t.clone(),
            None => {},
        }
        match extract_completed_plan_text(event) {
            Some(p) => self.latest_completed_plan_text = Some(p),
            None => {},
        }
        ObservedEvent { prompt, preview_text }
    }

    /// Ends a turn: `composed` is the visible reply composed from what was
    /// recorded, `failure` the turn's error if it failed, `plan_mode`
    /// whether the turn ran in plan mode. The plan prompt is due for a plan
    /// turn that completed a plan. The record is cleared.
    pub fn finish_turn(&mut self, composed: Option<String>, failure: Option<String>, plan_mode: bool) -> (f: TurnFinish)
        ensures
            opt_view(f.final_text) == match composed {
                Some(c) => Some(c@),
                None => opt_view(failure),
            },
            f.send_plan_prompt == (plan_mode && old(self).latest_completed_plan_text is Some),
            final(self).latest_assistant_message@ == Seq::<char>::empty(),
            final(self).latest_completed_plan_text is None,
    {
        let final_text = match composed {
            Some(c) => Some(c),
            None => failure,
        };
        let send_plan_prompt = plan_mode && self.latest_completed_plan_text.is_some();
        self.latest_assistant_message = owned("");
        self.latest_completed_plan_text = None;
        proof {
            reveal_strlit("");
        }
        TurnFinish { final_text, send_plan_prompt }
    }
}

} // verus!

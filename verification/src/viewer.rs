//! The read-only transcript viewer shown in a terminal during a CLI
//! handoff: its arguments, which mirrored entries it shows and how, and the
//! shell command that resumes the local CLI.
//!
//! The terminal, the polling of the mirror file and the `exec` belong to
//! the caller.
use vstd::prelude::*;
use crate::paths::{joined, path_join};
use crate::text::{owned, push_char, push_str, seq_lt, starts_with, str_eq, str_lt, chars_of, trim, trimmed};
use crate::thread_model::opt_view;

verus! {

/// The viewer's flags, each with a value.
#[derive(Debug, Clone, Copy, PartialEq, Eq, Structural)]
pub enum ViewerFlag {
    RepoRoot,
    DataRoot,
    Workspace,
    ThreadKey,
    SessionId,
    Since,
}

/// The flag as written.
pub open spec fn viewer_flag_text(f: ViewerFlag) -> Seq<char> {
    match f {
        ViewerFlag::RepoRoot => "--repo-root"@,
        ViewerFlag::DataRoot => "--data-root"@,
        ViewerFlag::Workspace => "--workspace"@,
        ViewerFlag::ThreadKey => "--thread-key"@,
        ViewerFlag::SessionId => "--session-id"@,
        ViewerFlag::Since => "--since"@,
    }
}

impl ViewerFlag {
    /// The flag as written.
    pub fn text(&self) -> (r: &'static str)
        ensures
            r@ == viewer_flag_text(*self),
    {
        match self {
            ViewerFlag::RepoRoot => "--repo-root",
            ViewerFlag::DataRoot => "--data-root",
            ViewerFlag::Workspace => "--workspace",
            ViewerFlag::ThreadKey => "--thread-key",
            ViewerFlag::SessionId => "--session-id",
            ViewerFlag::Since => "--since",
        }
    }
}

/// The flag an argument names, if the viewer takes it.
pub open spec fn viewer_flag_named(arg: Seq<char>) -> Option<ViewerFlag> {
    if arg == viewer_flag_text(ViewerFlag::RepoRoot) {
        Some(ViewerFlag::RepoRoot)
    } else if arg == viewer_flag_text(ViewerFlag::DataRoot) {
        Some(ViewerFlag::DataRoot)
    } else if arg == viewer_flag_text(ViewerFlag::Workspace) {
        Some(ViewerFlag::Workspace)
    } else if arg == viewer_flag_text(ViewerFlag::ThreadKey) {
        Some(ViewerFlag::ThreadKey)
    } else if arg == viewer_flag_text(ViewerFlag::SessionId) {
        Some(ViewerFlag::SessionId)
    } else if arg == viewer_flag_text(ViewerFlag::Since) {
        Some(ViewerFlag::Since)
    } else {
        None
    }
}

/// Why the viewer's arguments were refused.
#[derive(Debug, Clone, PartialEq, Eq)]
pub enum ViewerArgError {
    /// `missing value for <flag>`
    MissingValue(ViewerFlag),
    /// `unknown argument: <argument>`
    UnknownArgument(String),
    /// `<flag> is required`
    Required(ViewerFlag),
}

/// The text of an argument error.
pub open spec fn viewer_error_text(e: ViewerArgError) -> Seq<char> {
    match e {
        ViewerArgError::MissingValue(f) => "missing value for "@ + viewer_flag_text(f),
        ViewerArgError::UnknownArgument(a) => "unknown argument: "@ + a@,
        ViewerArgError::Required(f) => viewer_flag_text(f) + " is required"@,
    }
}

impl ViewerArgError {
    /// The error's text.
    pub fn message(&self) -> (r: String)
        ensures
            r@ == viewer_error_text(*self),
    {
        match self {
            ViewerArgError::MissingValue(f) => {
                let mut r = owned("missing value for ");
                push_str(&mut r, f.text());
                r
            },
            ViewerArgError::UnknownArgument(a) => {
                let mut r = owned("unknown argument: ");
                push_str(&mut r, a.as_str());
                r
            },
            ViewerArgError::Required(f) => {
                let mut r = owned(f.text());
                push_str(&mut r, " is required");
                r
            },
        }
    }
}

/// The flag values read so far: data root, workspace, thread key, session
/// id, since.
pub type ViewerValues = (Option<Seq<char>>, Option<Seq<char>>, Option<Seq<char>>, Option<Seq<char>>, Option<Seq<char>>);

/// The viewer's flags read from `args[i..]` on top of `acc`: each takes the
/// next argument as its value (the last given winning); `--repo-root` is
/// read and ignored.
pub open spec fn viewer_scan(args: Seq<String>, i: int, acc: ViewerValues) -> Result<ViewerValues, ViewerArgError>
    decreases args.len() - i,
{
    if i < 0 || i >= args.len() {
        Ok(acc)
    } else {
        match viewer_flag_named(args[i]@) {
            None => Err(ViewerArgError::UnknownArgument(args[i])),
            Some(f) => if i + 1 >= args.len() {
                Err(ViewerArgError::MissingValue(f))
            } else {
                let v = Some(args[i + 1]@);
                viewer_scan(
                    args,
                    i + 2,
                    match f {
                        ViewerFlag::RepoRoot => acc,
                        ViewerFlag::DataRoot => (v, acc.1, acc.2, acc.3, acc.4),
                        ViewerFlag::Workspace => (acc.0, v, acc.2, acc.3, acc.4),
                        ViewerFlag::ThreadKey => (acc.0, acc.1, v, acc.3, acc.4),
                        ViewerFlag::SessionId => (acc.0, acc.1, acc.2, v, acc.4),
                        ViewerFlag::Since => (acc.0, acc.1, acc.2, acc.3, v),
                    },
                )
            },
        }
    }
}

/// The viewer's arguments.
#[derive(Debug, Clone)]
pub struct ViewerArgs {
    pub data_root: String,
    pub workspace: String,
    pub thread_key: String,
    pub session_id: String,
    pub since: String,
}

impl ViewerArgs {
    /// The values of the arguments, in flag order.
    pub open spec fn values(&self) -> ViewerValues {
        (Some(self.data_root@), Some(self.workspace@), Some(self.thread_key@), Some(self.session_id@), Some(self.since@))
    }

    /// Reads the viewer's arguments; all but `--repo-root` are required.
    pub fn parse(args: &Vec<String>) -> (r: Result<Self, ViewerArgError>)
        ensures
            match viewer_scan(args@, 0, (None, None, None, None, None)) {
                Err(e) => r == Err::<Self, ViewerArgError>(e),
                Ok(v) => if v.0 is None {
                    r == Err::<Self, ViewerArgError>(ViewerArgError::Required(ViewerFlag::DataRoot))
                } else if v.1 is None {
                    r == Err::<Self, ViewerArgError>(ViewerArgError::Required(ViewerFlag::Workspace))
                } else if v.2 is None {
                    r == Err::<Self, ViewerArgError>(ViewerArgError::Required(ViewerFlag::ThreadKey))
                } else if v.3 is None {
                    r == Err::<Self, ViewerArgError>(ViewerArgError::Required(ViewerFlag::SessionId))
                } else if v.4 is None {
                    r == Err::<Self, ViewerArgError>(ViewerArgError::Required(ViewerFlag::Since))
                } else {
                    match r {
                        Ok(a) => a.values() == v,
                        Err(_) => false,
                    }
                },
            },
    {
        let mut data_root: Option<String> = None;
        let mut workspace: Option<String> = None;
        let mut thread_key: Option<String> = None;
        let mut session_id: Option<String> = None;
        let mut since: Option<String> = None;
        let mut i: usize = 0;
        while i < args.len()
            invariant
                i <= args@.len(),
                viewer_scan(args@, 0, (None, None, None, None, None)) == viewer_scan(
                    args@,
                    i as int,
                    (opt_view(data_root), opt_view(workspace), opt_view(thread_key), opt_view(session_id), opt_view(since)),
                ),
            decreases args@.len() - i,
        {
            let arg = args[i].as_str();
            let f = if str_eq(arg, ViewerFlag::RepoRoot.text()) {
                ViewerFlag::RepoRoot
            } else if str_eq(arg, ViewerFlag::DataRoot.text()) {
                ViewerFlag::DataRoot
            } else if str_eq(arg, ViewerFlag::Workspace.text()) {
                ViewerFlag::Workspace
            } else if str_eq(arg, ViewerFlag::ThreadKey.text()) {
                ViewerFlag::ThreadKey
            } else if str_eq(arg, ViewerFlag::SessionId.text()) {
                ViewerFlag::SessionId
            } else if str_eq(arg, ViewerFlag::Since.text()) {
                ViewerFlag::Since
            } else {
                return Err(ViewerArgError::UnknownArgument(args[i].clone()));
            };
            if i + 1 >= args.len() {
                return Err(ViewerArgError::MissingValue(f));
            }
            let value = args[i + 1].clone();
            match f {
                ViewerFlag::RepoRoot => {},
                ViewerFlag::DataRoot => data_root = Some(value),
                ViewerFlag::Workspace => workspace = Some(value),
                ViewerFlag::ThreadKey => thread_key = Some(value),
                ViewerFlag::SessionId => session_id = Some(value),
                ViewerFlag::Since => since = Some(value),
            }
            i += 2;
        }
        let data_root = match data_root {
            Some(v) => v,
            None => return Err(ViewerArgError::Required(ViewerFlag::DataRoot)),
        };
        let workspace = match workspace {
            Some(v) => v,
            None => return Err(ViewerArgError::Required(ViewerFlag::Workspace)),
        };
        let thread_key = match thread_key {
            Some(v) => v,
            None => return Err(ViewerArgError::Required(ViewerFlag::ThreadKey)),
        };
        let session_id = match session_id {
            Some(v) => v,
            None => return Err(ViewerArgError::Required(ViewerFlag::SessionId)),
        };
        let since = match since {
            Some(v) => v,
            None => return Err(ViewerArgError::Required(ViewerFlag::Since)),
        };
        Ok(ViewerArgs { data_root, workspace, thread_key, session_id, since })
    }
}

/// The body of a single-quoted shell word: each `'` closes the quote,
/// adds a double-quoted `'`, and reopens it.
pub open spec fn quote_body(s: Seq<char>) -> Seq<char>
    decreases s.len(),
{
    if s.len() == 0 {
        Seq::empty()
    } else {
        quote_body(s.drop_last()) + if s.last() == '\'' {
            seq!['\'', '"', '\'', '"', '\'']
        } else {
            seq![s.last()]
        }
    }
}

/// A value quoted as one shell word.
pub open spec fn single_quoted(s: Seq<char>) -> Seq<char> {
    seq!['\''] + quote_body(s) + seq!['\'']
}

/// Quoting keeps the value as one shell word, for every value: text without
/// a single quote is wrapped in single quotes unchanged; each single quote
/// is written as `'"'"'` (close the quoted part, a double-quoted quote,
/// reopen); and quoting works piece by piece, so the quoted body of two
/// texts joined is the two quoted bodies joined.
pub proof fn lemma_single_quoting(a: Seq<char>, b: Seq<char>)
    ensures
        quote_body(a + b) == quote_body(a) + quote_body(b),
        (forall|i: int| 0 <= i < a.len() ==> a[i] != '\'') ==> single_quoted(a) == seq!['\''] + a + seq!['\''],
        quote_body(seq!['\'']) == seq!['\'', '"', '\'', '"', '\''],
    decreases b.len(),
{
    if b.len() == 0 {
        assert(a + b =~= a);
        assert(quote_body(a) + quote_body(b) =~= quote_body(a));
    } else {
        lemma_single_quoting(a, b.drop_last());
        assert((a + b).drop_last() =~= a + b.drop_last());
        assert(quote_body(a + b) =~= quote_body(a) + quote_body(b));
    }
    lemma_quote_plain(a);
    let q = seq!['\''];
    assert(q.drop_last() =~= Seq::<char>::empty());
    assert(quote_body(q.drop_last()) == Seq::<char>::empty());
    assert(q.last() == '\'');
    assert(quote_body(q) =~= Seq::<char>::empty() + seq!['\'', '"', '\'', '"', '\'']);
}

/// Text without a single quote is its own quoted body.
proof fn lemma_quote_plain(a: Seq<char>)
    ensures
        (forall|i: int| 0 <= i < a.len() ==> a[i] != '\'') ==> quote_body(a) == a,
    decreases a.len(),
{
    if a.len() > 0 {
        lemma_quote_plain(a.drop_last());
        if forall|i: int| 0 <= i < a.len() ==> a[i] != '\'' {
            assert(a.drop_last().push(a.last()) =~= a);
            assert(a.last() == a[a.len() - 1]);
        }
    }
}

/// A value quoted as one shell word.
pub fn shell_single_quote(value: &str) -> (r: String)
    ensures
        r@ == single_quoted(value@),
{
    let v = chars_of(value);
    let mut r = String::new();
    push_char(&mut r, '\'');
    let mut i: usize = 0;
    proof {
        assert(v@.take(0) =~= Seq::<char>::empty());
    }
    while i < v.len()
        invariant
            i <= v@.len(),
            v@ == value@,
            r@ == seq!['\''] + quote_body(v@.take(i as int)),
        decreases v@.len() - i,
    {
        proof {
            assert(v@.take(i + 1).drop_last() =~= v@.take(i as int));
            assert(v@.take(i + 1).last() == v@[i as int]);
        }
        if v[i] == '\'' {
            push_char(&mut r, '\'');
            push_char(&mut r, '"');
            push_char(&mut r, '\'');
            push_char(&mut r, '"');
            push_char(&mut r, '\'');
        } else {
            push_char(&mut r, v[i]);
        }
        i += 1;
    }
    push_char(&mut r, '\'');
    proof {
        assert(v@.take(i as int) =~= v@);
    }
    r
}

/// How an entry of the transcript mirror is shown: with who spoke, for
/// the Telegram and CLI origins; other entries are not shown.
pub open spec fn rendered_entry(origin: Seq<char>, role: Seq<char>, text: Seq<char>) -> Option<Seq<char>> {
    let prefix = if origin == "telegram"@ && role == "user"@ {
        Some("Telegram"@)
    } else if origin == "telegram"@ && role == "assistant"@ {
        Some("Codex"@)
    } else if origin == "cli"@ && role == "user"@ {
        Some("CLI"@)
    } else if origin == "cli"@ && role == "assistant"@ {
        Some("Codex"@)
    } else {
        None
    };
    match prefix {
        Some(p) => Some(p + ": "@ + trimmed(text)),
        None => None,
    }
}

/// Who each entry is attributed to, for every text: a user's message from
/// Telegram is shown as `Telegram: `, a user's message from the CLI as
/// `CLI: `, and an assistant's reply from either as `Codex: `, each followed
/// by the trimmed text. A user's message is never attributed to Codex, and
/// entries of any other origin or role are not shown.
pub proof fn lemma_entry_speakers(origin: Seq<char>, role: Seq<char>, text: Seq<char>)
    ensures
        rendered_entry("telegram"@, "user"@, text) == Some("Telegram: "@ + trimmed(text)),
        rendered_entry("cli"@, "user"@, text) == Some("CLI: "@ + trimmed(text)),
        rendered_entry("telegram"@, "assistant"@, text) == Some("Codex: "@ + trimmed(text)),
        rendered_entry("cli"@, "assistant"@, text) == Some("Codex: "@ + trimmed(text)),
        role == "user"@ ==> match rendered_entry(origin, role, text) {
            Some(r) => !starts_with(r, "Codex"@),
            None => true,
        },
        !(origin == "telegram"@ || origin == "cli"@) || !(role == "user"@ || role == "assistant"@)
            ==> rendered_entry(origin, role, text) is None,
{
    reveal_strlit("telegram");
    reveal_strlit("cli");
    reveal_strlit("user");
    reveal_strlit("assistant");
    reveal_strlit("Telegram");
    reveal_strlit("CLI");
    reveal_strlit("Codex");
    reveal_strlit(": ");
    reveal_strlit("Telegram: ");
    reveal_strlit("CLI: ");
    reveal_strlit("Codex: ");
    assert("telegram"@.len() == 8 && "cli"@.len() == 3);
    assert("user"@.len() == 4 && "assistant"@.len() == 9);
    assert("telegram"@ != "cli"@);
    assert("user"@ != "assistant"@);
    assert("Telegram"@ + ": "@ =~= "Telegram: "@);
    assert("CLI"@ + ": "@ =~= "CLI: "@);
    assert("Codex"@ + ": "@ =~= "Codex: "@);
    if role == "user"@ {
        match rendered_entry(origin, role, text) {
            Some(r) => {
                assert(r.len() >= 3);
                if origin == "telegram"@ {
                    assert(r[0] == 'T');
                } else {
                    assert(r[1] == 'L');
                }
                assert(!starts_with(r, "Codex"@)) by {
                    if starts_with(r, "Codex"@) {
                        assert(r[0] == "Codex"@[0]);
                        assert(r[1] == "Codex"@[1]);
                    }
                }
            },
            None => {},
        }
    }
}

/// How an entry of the transcript mirror is shown, if it is.
pub fn render_entry(origin: &str, role: &str, text: &str) -> (r: Option<String>)
    ensures
        opt_view(r) == rendered_entry(origin@, role@, text@),
{
    let prefix = if str_eq(origin, "telegram") && str_eq(role, "user") {
        "Telegram"
    } else if str_eq(origin, "telegram") && str_eq(role, "assistant") {
        "Codex"
    } else if str_eq(origin, "cli") && str_eq(role, "user") {
        "CLI"
    } else if str_eq(origin, "cli") && str_eq(role, "assistant") {
        "Codex"
    } else {
        return None;
    };
    let mut r = owned(prefix);
    push_str(&mut r, ": ");
    let t = trim(text);
    push_str(&mut r, t.as_str());
    Some(r)
}

/// Entries recorded before the handoff started are not shown.
pub fn shows_entry(timestamp: &str, since: &str) -> (b: bool)
    ensures
        b == !seq_lt(timestamp@, since@),
{
    !str_lt(timestamp, since)
}

/// The transcript mirror of a thread:
/// `<data_root>/<thread_key>/state/transcript-mirror.jsonl`.
pub fn mirror_path(data_root: &str, thread_key: &str) -> (r: String)
    ensures
        r@ == joined(joined(joined(data_root@, thread_key@), "state"@), "transcript-mirror.jsonl"@),
{
    let a = path_join(data_root, thread_key);
    let b = path_join(a.as_str(), "state");
    path_join(b.as_str(), "transcript-mirror.jsonl")
}

/// The shell command that resumes the local CLI on the session:
/// `source <sync script> && hcodex resume <session> --thread-key <key>`,
/// each value quoted.
pub fn resume_shell_command(workspace: &str, session_id: &str, thread_key: &str) -> (r: String)
    ensures
        r@ == "source "@ + single_quoted(joined(workspace@, ".threadbridge/shell/codex-sync.bash"@))
            + " && hcodex resume "@ + single_quoted(session_id@) + " --thread-key "@ + single_quoted(
            thread_key@,
        ),
{
    let snippet = path_join(workspace, ".threadbridge/shell/codex-sync.bash");
    let mut r = owned("source ");
    let q = shell_single_quote(snippet.as_str());
    push_str(&mut r, q.as_str());
    push_str(&mut r, " && hcodex resume ");
    let s = shell_single_quote(session_id);
    push_str(&mut r, s.as_str());
    push_str(&mut r, " --thread-key ");
    let k = shell_single_quote(thread_key);
    push_str(&mut r, k.as_str());
    r
}

} // verus!

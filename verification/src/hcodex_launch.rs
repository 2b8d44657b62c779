//! The `hcodex` helper commands: their arguments, where a workspace keeps
//! its runtime state, and which bound Telegram thread a launch resumes.
//!
//! Running the commands (processes, sockets, files, the repository) is
//! left to the caller.
use vstd::prelude::*;
use crate::paths::{joined, path_join, normalized, path_normalize};
use crate::text::{
    decimal, digit_char, lemma_digit_char, blank, chars_of, contains_seq, is_blank, lemma_seq_order, owned, push_str, seq_le, seq_lt, starts_with,
    str_contains, str_eq, str_lt, str_starts_with, string_from_range,
};
use crate::thread_model::opt_view;

verus! {

/// The helper commands.
#[derive(Debug, Clone, Copy, PartialEq, Eq, Structural)]
pub enum HcodexCommand {
    /// `ensure-hcodex-runtime`
    EnsureRuntime,
    /// `run-hcodex-session`
    RunSession,
    /// `resolve-hcodex-launch`
    ResolveLaunch,
}

impl HcodexCommand {
    /// The command's name on the command line.
    pub fn name(&self) -> (r: &'static str)
        ensures
            r@ == command_name(*self),
    {
        match self {
            HcodexCommand::EnsureRuntime => "ensure-hcodex-runtime",
            HcodexCommand::RunSession => "run-hcodex-session",
            HcodexCommand::ResolveLaunch => "resolve-hcodex-launch",
        }
    }
}

/// The command's name on the command line.
pub open spec fn command_name(c: HcodexCommand) -> Seq<char> {
    match c {
        HcodexCommand::EnsureRuntime => "ensure-hcodex-runtime"@,
        HcodexCommand::RunSession => "run-hcodex-session"@,
        HcodexCommand::ResolveLaunch => "resolve-hcodex-launch"@,
    }
}

/// The helper command a process was started for, if its first argument
/// names one.
pub open spec fn command_named(arg: Seq<char>) -> Option<HcodexCommand> {
    if arg == command_name(HcodexCommand::EnsureRuntime) {
        Some(HcodexCommand::EnsureRuntime)
    } else if arg == command_name(HcodexCommand::RunSession) {
        Some(HcodexCommand::RunSession)
    } else if arg == command_name(HcodexCommand::ResolveLaunch) {
        Some(HcodexCommand::ResolveLaunch)
    } else {
        None
    }
}

/// The helper command named by the first argument, if any.
pub fn hcodex_command(first_arg: &str) -> (r: Option<HcodexCommand>)
    ensures
        r == command_named(first_arg@),
{
    if str_eq(first_arg, HcodexCommand::EnsureRuntime.name()) {
        Some(HcodexCommand::EnsureRuntime)
    } else if str_eq(first_arg, HcodexCommand::RunSession.name()) {
        Some(HcodexCommand::RunSession)
    } else if str_eq(first_arg, HcodexCommand::ResolveLaunch.name()) {
        Some(HcodexCommand::ResolveLaunch)
    } else {
        None
    }
}

/// The flags the commands take, each with a value.
#[derive(Debug, Clone, Copy, PartialEq, Eq, Structural)]
pub enum CliFlag {
    Workspace,
    DataRoot,
    ParentPid,
    ReadyFile,
    ThreadKey,
    CodexBin,
    RemoteWsUrl,
}

/// The flag as written.
pub open spec fn flag_text(f: CliFlag) -> Seq<char> {
    match f {
        CliFlag::Workspace => "--workspace"@,
        CliFlag::DataRoot => "--data-root"@,
        CliFlag::ParentPid => "--parent-pid"@,
        CliFlag::ReadyFile => "--ready-file"@,
        CliFlag::ThreadKey => "--thread-key"@,
        CliFlag::CodexBin => "--codex-bin"@,
        CliFlag::RemoteWsUrl => "--remote-ws-url"@,
    }
}

impl CliFlag {
    /// The flag as written.
    pub fn text(&self) -> (r: &'static str)
        ensures
            r@ == flag_text(*self),
    {
        match self {
            CliFlag::Workspace => "--workspace",
            CliFlag::DataRoot => "--data-root",
            CliFlag::ParentPid => "--parent-pid",
            CliFlag::ReadyFile => "--ready-file",
            CliFlag::ThreadKey => "--thread-key",
            CliFlag::CodexBin => "--codex-bin",
            CliFlag::RemoteWsUrl => "--remote-ws-url",
        }
    }
}

/// The flag an argument names for a command, if the command takes it.
pub open spec fn flag_named(command: HcodexCommand, arg: Seq<char>) -> Option<CliFlag> {
    if arg == flag_text(CliFlag::Workspace) {
        Some(CliFlag::Workspace)
    } else if arg == flag_text(CliFlag::DataRoot) {
        Some(CliFlag::DataRoot)
    } else if command == HcodexCommand::EnsureRuntime && arg == flag_text(CliFlag::ParentPid) {
        Some(CliFlag::ParentPid)
    } else if command == HcodexCommand::EnsureRuntime && arg == flag_text(CliFlag::ReadyFile) {
        Some(CliFlag::ReadyFile)
    } else if command != HcodexCommand::EnsureRuntime && arg == flag_text(CliFlag::ThreadKey) {
        Some(CliFlag::ThreadKey)
    } else if command == HcodexCommand::RunSession && arg == flag_text(CliFlag::CodexBin) {
        Some(CliFlag::CodexBin)
    } else if command == HcodexCommand::RunSession && arg == flag_text(CliFlag::RemoteWsUrl) {
        Some(CliFlag::RemoteWsUrl)
    } else {
        None
    }
}

/// The flag an argument names for a command, if the command takes it.
fn flag_for(command: HcodexCommand, arg: &str) -> (r: Option<CliFlag>)
    ensures
        r == flag_named(command, arg@),
{
    if str_eq(arg, CliFlag::Workspace.text()) {
        Some(CliFlag::Workspace)
    } else if str_eq(arg, CliFlag::DataRoot.text()) {
        Some(CliFlag::DataRoot)
    } else if command == HcodexCommand::EnsureRuntime && str_eq(arg, CliFlag::ParentPid.text()) {
        Some(CliFlag::ParentPid)
    } else if command == HcodexCommand::EnsureRuntime && str_eq(arg, CliFlag::ReadyFile.text()) {
        Some(CliFlag::ReadyFile)
    } else if command != HcodexCommand::EnsureRuntime && str_eq(arg, CliFlag::ThreadKey.text()) {
        Some(CliFlag::ThreadKey)
    } else if command == HcodexCommand::RunSession && str_eq(arg, CliFlag::CodexBin.text()) {
        Some(CliFlag::CodexBin)
    } else if command == HcodexCommand::RunSession && str_eq(arg, CliFlag::RemoteWsUrl.text()) {
        Some(CliFlag::RemoteWsUrl)
    } else {
        None
    }
}

/// Why the arguments of a helper command were refused.
#[derive(Debug, Clone, PartialEq, Eq)]
pub enum CliArgError {
    /// A flag is the last argument: `missing value for <flag>`.
    MissingValue(CliFlag),
    /// `--parent-pid` is not a process id: `invalid --parent-pid: <value>`.
    InvalidParentPid(String),
    /// An argument the command does not take:
    /// `unsupported <command> argument: <argument>`.
    UnsupportedArgument(HcodexCommand, String),
    /// A flag the command needs was not given: `missing required <flag>`.
    MissingRequired(CliFlag),
}

/// The text of an argument error.
pub open spec fn cli_error_text(e: CliArgError) -> Seq<char> {
    match e {
        CliArgError::MissingValue(f) => "missing value for "@ + flag_text(f),
        CliArgError::InvalidParentPid(v) => "invalid --parent-pid: "@ + v@,
        CliArgError::UnsupportedArgument(c, a) => "unsupported "@ + command_name(c) + " argument: "@ + a@,
        CliArgError::MissingRequired(f) => "missing required "@ + flag_text(f),
    }
}

impl CliArgError {
    /// The error's text.
    pub fn message(&self) -> (r: String)
        ensures
            r@ == cli_error_text(*self),
    {
        match self {
            CliArgError::MissingValue(f) => {
                let mut r = owned("missing value for ");
                push_str(&mut r, f.text());
                r
            },
            CliArgError::InvalidParentPid(v) => {
                let mut r = owned("invalid --parent-pid: ");
                push_str(&mut r, v.as_str());
                r
            },
            CliArgError::UnsupportedArgument(c, a) => {
                let mut r = owned("unsupported ");
                push_str(&mut r, c.name());
                push_str(&mut r, " argument: ");
                push_str(&mut r, a.as_str());
                r
            },
            CliArgError::MissingRequired(f) => {
                let mut r = owned("missing required ");
                push_str(&mut r, f.text());
                r
            },
        }
    }
}

/// The value of a run of decimal digits.
pub open spec fn digits_value(s: Seq<char>) -> nat
    decreases s.len(),
{
    if s.len() == 0 {
        0
    } else {
        (digits_value(s.drop_last()) * 10 + (s.last() as int - '0' as int)) as nat
    }
}

/// Every character is an ASCII digit.
pub open spec fn all_digits(s: Seq<char>) -> bool {
    forall|i: int| 0 <= i < s.len() ==> '0' <= #[trigger] s[i] <= '9'
}

/// What `str::parse::<u32>` gives for a text: an optional `+` and at least
/// one digit, with a value that fits.
pub open spec fn parsed_u32(s: Seq<char>) -> Option<u32> {
    let d = if s.len() > 0 && s[0] == '+' {
        s.drop_first()
    } else {
        s
    };
    if d.len() > 0 && all_digits(d) && digits_value(d) <= u32::MAX {
        Some(digits_value(d) as u32)
    } else {
        None
    }
}

/// The digits' value never falls as digits are added.
proof fn lemma_digits_value_grows(s: Seq<char>, i: int)
    requires
        all_digits(s),
        0 <= i <= s.len(),
    ensures
        digits_value(s.take(i)) <= digits_value(s),
    decreases s.len() - i,
{
    if i < s.len() {
        lemma_digits_value_grows(s, i + 1);
        assert(s.take(i + 1).drop_last() =~= s.take(i));
    } else {
        assert(s.take(i) =~= s);
    }
}

/// The decimal rendering of a number is a run of digits worth the number.
proof fn lemma_decimal_digits(n: nat)
    ensures
        decimal(n).len() > 0,
        all_digits(decimal(n)),
        digits_value(decimal(n)) == n,
    decreases n,
{
    assert('0' as int == 48);
    if n < 10 {
        lemma_digit_char(n);
        let d = decimal(n);
        assert(d.drop_last() =~= Seq::<char>::empty());
        assert(digits_value(d.drop_last()) == 0);
        assert(d.last() as int == 48 + n);
    } else {
        lemma_decimal_digits(n / 10);
        lemma_digit_char(n % 10);
        let d = decimal(n);
        assert(d.drop_last() == decimal(n / 10));
        assert(d.last() == digit_char(n % 10));
        assert(d.last() as int == 48 + n % 10);
        assert((n / 10) * 10 + n % 10 == n);
        assert forall|i: int| 0 <= i < d.len() implies '0' <= #[trigger] d[i] <= '9' by {
            if i < d.len() - 1 {
                assert(d[i] == decimal(n / 10)[i]);
            }
        }
    }
}

/// A process id written in decimal reads back as the same id: what a
/// launcher passes as `--parent-pid` is what the helper waits on.
pub proof fn lemma_parse_decimal_roundtrip(n: u32)
    ensures
        parsed_u32(decimal(n as nat)) == Some(n),
{
    lemma_decimal_digits(n as nat);
    lemma_digit_char(0);
    let d = decimal(n as nat);
    assert(d[0] != '+');
}

/// A decimal process id, as `str::parse::<u32>` reads it.
pub fn parse_u32(text: &str) -> (r: Option<u32>)
    ensures
        r == parsed_u32(text@),
{
    let v = chars_of(text);
    let start: usize = if v.len() > 0 && v[0] == '+' {
        1
    } else {
        0
    };
    let ghost d = if v@.len() > 0 && v@[0] == '+' {
        v@.drop_first()
    } else {
        v@
    };
    assert(d =~= v@.skip(start as int));
    if start >= v.len() {
        return None;
    }
    let mut value: u64 = 0;
    let mut i: usize = start;
    while i < v.len()
        invariant
            start <= i <= v@.len(),
            start < v@.len(),
            v@ == text@,
            d == (if v@.len() > 0 && v@[0] == '+' {
                v@.drop_first()
            } else {
                v@
            }),
            d == v@.skip(start as int),
            all_digits(v@.subrange(start as int, i as int)),
            value == digits_value(v@.subrange(start as int, i as int)),
            value <= u32::MAX,
        decreases v@.len() - i,
    {
        let c = v[i];
        let ghost pre = v@.subrange(start as int, i as int);
        let ghost post = v@.subrange(start as int, i + 1);
        assert(post.drop_last() =~= pre);
        if c < '0' || c > '9' {
            assert(d[i - start] == c);
            return None;
        }
        let digit: u64 = (c as u32 - '0' as u32) as u64;
        let next: u64 = value * 10 + digit;
        if next > 4294967295u64 {
            proof {
                assert(digits_value(post) == next);
                if all_digits(d) {
                    assert(post =~= d.take(i + 1 - start));
                    lemma_digits_value_grows(d, i + 1 - start);
                }
            }
            return None;
        }
        value = next;
        i += 1;
    }
    assert(v@.subrange(start as int, i as int) =~= d);
    Some(value as u32)
}

/// The flags given to a helper command, and what follows `--`.
pub struct CliArgsView {
    pub workspace: Option<Seq<char>>,
    pub data_root: Option<Seq<char>>,
    pub parent_pid: Option<u32>,
    pub ready_file: Option<Seq<char>>,
    pub thread_key: Option<Seq<char>>,
    pub codex_bin: Option<Seq<char>>,
    pub remote_ws_url: Option<Seq<char>>,
    pub codex_args: Seq<String>,
}

/// No flag given yet.
pub open spec fn no_args() -> CliArgsView {
    CliArgsView {
        workspace: None,
        data_root: None,
        parent_pid: None,
        ready_file: None,
        thread_key: None,
        codex_bin: None,
        remote_ws_url: None,
        codex_args: Seq::empty(),
    }
}

/// `acc` with the value of a flag (other than `--parent-pid`) set, the
/// last one given winning.
pub open spec fn with_flag(acc: CliArgsView, f: CliFlag, v: Seq<char>) -> CliArgsView {
    match f {
        CliFlag::Workspace => CliArgsView { workspace: Some(v), ..acc },
        CliFlag::DataRoot => CliArgsView { data_root: Some(v), ..acc },
        CliFlag::ReadyFile => CliArgsView { ready_file: Some(v), ..acc },
        CliFlag::ThreadKey => CliArgsView { thread_key: Some(v), ..acc },
        CliFlag::CodexBin => CliArgsView { codex_bin: Some(v), ..acc },
        CliFlag::RemoteWsUrl => CliArgsView { remote_ws_url: Some(v), ..acc },
        CliFlag::ParentPid => acc,
    }
}

/// The flags read from `args[i..]`, on top of `acc`: each flag takes the
/// next argument as its value; for `run-hcodex-session`, everything after
/// `--` is passed on to Codex.
pub open spec fn scan_args(command: HcodexCommand, args: Seq<String>, i: int, acc: CliArgsView) -> Result<CliArgsView, CliArgError>
    decreases args.len() - i,
{
    if i < 0 || i >= args.len() {
        Ok(acc)
    } else if command == HcodexCommand::RunSession && args[i]@ == "--"@ {
        Ok(CliArgsView { codex_args: args.skip(i + 1), ..acc })
    } else {
        match flag_named(command, args[i]@) {
            None => Err(CliArgError::UnsupportedArgument(command, args[i])),
            Some(f) => if i + 1 >= args.len() {
                Err(CliArgError::MissingValue(f))
            } else if f == CliFlag::ParentPid {
                match parsed_u32(args[i + 1]@) {
                    Some(n) => scan_args(command, args, i + 2, CliArgsView { parent_pid: Some(n), ..acc }),
                    None => Err(CliArgError::InvalidParentPid(args[i + 1])),
                }
            } else {
                scan_args(command, args, i + 2, with_flag(acc, f, args[i + 1]@))
            },
        }
    }
}

/// The flags given to a helper command.
pub struct CliArgs {
    pub workspace: Option<String>,
    pub data_root: Option<String>,
    pub parent_pid: Option<u32>,
    pub ready_file: Option<String>,
    pub thread_key: Option<String>,
    pub codex_bin: Option<String>,
    pub remote_ws_url: Option<String>,
    pub codex_args: Vec<String>,
}

impl CliArgs {
    pub open spec fn view_of(&self) -> CliArgsView {
        CliArgsView {
            workspace: opt_view(self.workspace),
            data_root: opt_view(self.data_root),
            parent_pid: self.parent_pid,
            ready_file: opt_view(self.ready_file),
            thread_key: opt_view(self.thread_key),
            codex_bin: opt_view(self.codex_bin),
            remote_ws_url: opt_view(self.remote_ws_url),
            codex_args: self.codex_args@,
        }
    }
}

/// Reads the flags of a helper command's arguments.
pub fn scan_cli_args(command: HcodexCommand, args: &Vec<String>) -> (r: Result<CliArgs, CliArgError>)
    ensures
        match scan_args(command, args@, 0, no_args()) {
            Ok(v) => r matches Ok(a) && a.view_of() == v,
            Err(e) => r == Err::<CliArgs, CliArgError>(e),
        },
{
    let mut acc = CliArgs {
        workspace: None,
        data_root: None,
        parent_pid: None,
        ready_file: None,
        thread_key: None,
        codex_bin: None,
        remote_ws_url: None,
        codex_args: Vec::new(),
    };
    let mut i: usize = 0;
    while i < args.len()
        invariant
            i <= args@.len(),
            acc.codex_args@ == Seq::<String>::empty(),
            scan_args(command, args@, 0, no_args()) == scan_args(command, args@, i as int, acc.view_of()),
        decreases args@.len() - i,
    {
        let arg = args[i].as_str();
        if command == HcodexCommand::RunSession && str_eq(arg, "--") {
            let mut rest: Vec<String> = Vec::new();
            let mut j: usize = i + 1;
            while j < args.len()
                invariant
                    i + 1 <= j <= args@.len(),
                    rest@ == args@.subrange(i + 1, j as int),
                decreases args@.len() - j,
            {
                rest.push(args[j].clone());
                j += 1;
            }
            assert(rest@ =~= args@.skip(i + 1));
            acc.codex_args = rest;
            return Ok(acc);
        }
        let f = match flag_for(command, arg) {
            Some(f) => f,
            None => return Err(CliArgError::UnsupportedArgument(command, args[i].clone())),
        };
        if i + 1 >= args.len() {
            return Err(CliArgError::MissingValue(f));
        }
        let value = &args[i + 1];
        match f {
            CliFlag::ParentPid => match parse_u32(value.as_str()) {
                Some(n) => acc.parent_pid = Some(n),
                None => return Err(CliArgError::InvalidParentPid(value.clone())),
            },
            CliFlag::Workspace => acc.workspace = Some(value.clone()),
            CliFlag::DataRoot => acc.data_root = Some(value.clone()),
            CliFlag::ReadyFile => acc.ready_file = Some(value.clone()),
            CliFlag::ThreadKey => acc.thread_key = Some(value.clone()),
            CliFlag::CodexBin => acc.codex_bin = Some(value.clone()),
            CliFlag::RemoteWsUrl => acc.remote_ws_url = Some(value.clone()),
        }
        i += 2;
    }
    Ok(acc)
}

/// Arguments of `ensure-hcodex-runtime`.
#[derive(Debug, Clone)]
pub struct EnsureHcodexRuntimeCli {
    pub workspace: String,
    pub data_root: String,
    pub parent_pid: Option<u32>,
    pub ready_file: Option<String>,
}

/// Arguments of `run-hcodex-session`.
#[derive(Debug, Clone)]
pub struct RunHcodexSessionCli {
    pub workspace: String,
    pub data_root: String,
    pub thread_key: String,
    pub codex_bin: String,
    pub remote_ws_url: String,
    pub codex_args: Vec<String>,
}

/// Arguments of `resolve-hcodex-launch`.
#[derive(Debug, Clone)]
pub struct ResolveHcodexLaunchCli {
    pub workspace: String,
    pub data_root: String,
    pub thread_key: Option<String>,
}

/// The first required flag of `required` that the scan did not give.
pub open spec fn first_missing(v: CliArgsView, required: Seq<CliFlag>) -> Option<CliFlag>
    decreases required.len(),
{
    if required.len() == 0 {
        None
    } else if flag_value(v, required[0]) is None {
        Some(required[0])
    } else {
        first_missing(v, required.drop_first())
    }
}

/// The value a flag was given, if any (`--parent-pid` has none as text).
pub open spec fn flag_value(v: CliArgsView, f: CliFlag) -> Option<Seq<char>> {
    match f {
        CliFlag::Workspace => v.workspace,
        CliFlag::DataRoot => v.data_root,
        CliFlag::ReadyFile => v.ready_file,
        CliFlag::ThreadKey => v.thread_key,
        CliFlag::CodexBin => v.codex_bin,
        CliFlag::RemoteWsUrl => v.remote_ws_url,
        CliFlag::ParentPid => None,
    }
}

impl EnsureHcodexRuntimeCli {
    /// Reads the arguments that follow `ensure-hcodex-runtime`:
    /// `--workspace` and `--data-root` are required, `--parent-pid` and
    /// `--ready-file` optional.
    pub fn parse(args: &Vec<String>) -> (r: Result<Self, CliArgError>)
        ensures
            match scan_args(HcodexCommand::EnsureRuntime, args@, 0, no_args()) {
                Err(e) => r == Err::<Self, CliArgError>(e),
                Ok(v) => match first_missing(v, seq![CliFlag::Workspace, CliFlag::DataRoot]) {
                    Some(f) => r == Err::<Self, CliArgError>(CliArgError::MissingRequired(f)),
                    None => r matches Ok(c) && Some(c.workspace@) == v.workspace && Some(c.data_root@) == v.data_root
                        && c.parent_pid == v.parent_pid && opt_view(c.ready_file) == v.ready_file,
                },
            },
    {
        let a = scan_cli_args(HcodexCommand::EnsureRuntime, args)?;
        proof {
            reveal_with_fuel(first_missing, 3);
        }
        let workspace = match a.workspace {
            Some(w) => w,
            None => return Err(CliArgError::MissingRequired(CliFlag::Workspace)),
        };
        let data_root = match a.data_root {
            Some(d) => d,
            None => return Err(CliArgError::MissingRequired(CliFlag::DataRoot)),
        };
        Ok(EnsureHcodexRuntimeCli { workspace, data_root, parent_pid: a.parent_pid, ready_file: a.ready_file })
    }
}

impl RunHcodexSessionCli {
    /// Reads the arguments that follow `run-hcodex-session`: `--workspace`,
    /// `--data-root`, `--thread-key`, `--codex-bin` and `--remote-ws-url`
    /// are required; what follows `--` is passed on to Codex.
    pub fn parse(args: &Vec<String>) -> (r: Result<Self, CliArgError>)
        ensures
            match scan_args(HcodexCommand::RunSession, args@, 0, no_args()) {
                Err(e) => r == Err::<Self, CliArgError>(e),
                Ok(v) => match first_missing(
                    v,
                    seq![CliFlag::Workspace, CliFlag::DataRoot, CliFlag::ThreadKey, CliFlag::CodexBin, CliFlag::RemoteWsUrl],
                ) {
                    Some(f) => r == Err::<Self, CliArgError>(CliArgError::MissingRequired(f)),
                    None => r matches Ok(c) && Some(c.workspace@) == v.workspace && Some(c.data_root@) == v.data_root
                        && Some(c.thread_key@) == v.thread_key && Some(c.codex_bin@) == v.codex_bin && Some(
                        c.remote_ws_url@,
                    ) == v.remote_ws_url && c.codex_args@ == v.codex_args,
                },
            },
    {
        let a = scan_cli_args(HcodexCommand::RunSession, args)?;
        proof {
            reveal_with_fuel(first_missing, 6);
        }
        let workspace = match a.workspace {
            Some(w) => w,
            None => return Err(CliArgError::MissingRequired(CliFlag::Workspace)),
        };
        let data_root = match a.data_root {
            Some(d) => d,
            None => return Err(CliArgError::MissingRequired(CliFlag::DataRoot)),
        };
        let thread_key = match a.thread_key {
            Some(t) => t,
            None => return Err(CliArgError::MissingRequired(CliFlag::ThreadKey)),
        };
        let codex_bin = match a.codex_bin {
            Some(b) => b,
            None => return Err(CliArgError::MissingRequired(CliFlag::CodexBin)),
        };
        let remote_ws_url = match a.remote_ws_url {
            Some(u) => u,
            None => return Err(CliArgError::MissingRequired(CliFlag::RemoteWsUrl)),
        };
        Ok(RunHcodexSessionCli { workspace, data_root, thread_key, codex_bin, remote_ws_url, codex_args: a.codex_args })
    }
}

impl ResolveHcodexLaunchCli {
    /// Reads the arguments that follow `resolve-hcodex-launch`:
    /// `--workspace` and `--data-root` are required, `--thread-key`
    /// optional.
    pub fn parse(args: &Vec<String>) -> (r: Result<Self, CliArgError>)
        ensures
            match scan_args(HcodexCommand::ResolveLaunch, args@, 0, no_args()) {
                Err(e) => r == Err::<Self, CliArgError>(e),
                Ok(v) => match first_missing(v, seq![CliFlag::Workspace, CliFlag::DataRoot]) {
                    Some(f) => r == Err::<Self, CliArgError>(CliArgError::MissingRequired(f)),
                    None => r matches Ok(c) && Some(c.workspace@) == v.workspace && Some(c.data_root@) == v.data_root
                        && opt_view(c.thread_key) == v.thread_key,
                },
            },
    {
        let a = scan_cli_args(HcodexCommand::ResolveLaunch, args)?;
        proof {
            reveal_with_fuel(first_missing, 3);
        }
        let workspace = match a.workspace {
            Some(w) => w,
            None => return Err(CliArgError::MissingRequired(CliFlag::Workspace)),
        };
        let data_root = match a.data_root {
            Some(d) => d,
            None => return Err(CliArgError::MissingRequired(CliFlag::DataRoot)),
        };
        Ok(ResolveHcodexLaunchCli { workspace, data_root, thread_key: a.thread_key })
    }
}

/// The text a live runtime's ready file holds.
pub const READY_FILE_CONTENTS: &'static str = "{\n  \"ready\": true\n}\n";

/// Where a workspace's app-server state is recorded:
/// `.threadbridge/state/app-server/current.json` under the workspace.
pub open spec fn runtime_state_file(workspace: Seq<char>) -> Seq<char> {
    joined(joined(joined(joined(workspace, ".threadbridge"@), "state"@), "app-server"@), "current.json"@)
}

/// Where a workspace's app-server state is recorded.
pub fn runtime_state_path(workspace: &str) -> (r: String)
    ensures
        r@ == runtime_state_file(workspace@),
{
    let a = path_join(workspace, ".threadbridge");
    let b = path_join(a.as_str(), "state");
    let c = path_join(b.as_str(), "app-server");
    path_join(c.as_str(), "current.json")
}

/// The socket address of a `ws://` URL: what follows the scheme.
pub open spec fn ws_socket_addr(url: Seq<char>) -> Option<Seq<char>> {
    if starts_with(url, "ws://"@) {
        Some(url.skip(5))
    } else {
        None
    }
}

/// The address to probe for a runtime endpoint; none unless the URL is a
/// `ws://` one.
pub fn socket_addr_of(url: &str) -> (r: Option<String>)
    ensures
        opt_view(r) == ws_socket_addr(url@),
{
    if !str_starts_with(url, "ws://") {
        return None;
    }
    proof {
        reveal_strlit("ws://");
    }
    let v = chars_of(url);
    let r = string_from_range(&v, 5, v.len());
    assert(r@ =~= url@.skip(5));
    Some(r)
}

/// The workspace's runtime is live when its daemon answers and its hcodex
/// proxy (when the state names one) does too.
pub fn runtime_is_live(daemon_live: bool, proxy_live: Option<bool>) -> (b: bool)
    ensures
        b == (daemon_live && proxy_live == Some(true)),
{
    daemon_live && match proxy_live {
        Some(live) => live,
        None => false,
    }
}

/// The error when no live runtime serves a workspace.
pub open spec fn missing_owner_text(workspace: Seq<char>) -> Seq<char> {
    "hcodex requires the desktop runtime owner. Start threadbridge_desktop and repair the workspace runtime for "@
        + workspace + "."@
}

/// The error when no live runtime serves a workspace.
pub fn missing_runtime_owner_message(workspace: &str) -> (r: String)
    ensures
        r@ == missing_owner_text(workspace@),
{
    let mut r = owned(
        "hcodex requires the desktop runtime owner. Start threadbridge_desktop and repair the workspace runtime for ",
    );
    push_str(&mut r, workspace);
    push_str(&mut r, ".");
    r
}

/// The command line recorded for a launched Codex child:
/// `<codex_bin> --remote <url>`.
pub fn child_command_line(codex_bin: &str, remote_ws_url: &str) -> (r: String)
    ensures
        r@ == codex_bin@ + " --remote "@ + remote_ws_url@,
{
    let mut r = owned(codex_bin);
    push_str(&mut r, " --remote ");
    push_str(&mut r, remote_ws_url);
    r
}

/// A Telegram thread bound to the workspace being launched.
#[derive(Debug, Clone)]
pub struct BoundThreadLaunchMatch {
    pub thread_key: String,
    pub current_codex_thread_id: Option<String>,
}

/// A thread with a session binding, and its bound workspace as the file
/// system canonicalized it (or as recorded, when it could not).
#[derive(Debug, Clone)]
pub struct BoundThreadCandidate {
    pub thread_key: String,
    pub current_codex_thread_id: Option<String>,
    pub bound_workspace: String,
}

/// Ordered by thread key.
pub open spec fn by_thread_key(s: Seq<BoundThreadLaunchMatch>) -> bool {
    forall|a: int, b: int| #![trigger s[a], s[b]] 0 <= a < b < s.len() ==> seq_le(s[a].thread_key@, s[b].thread_key@)
}

/// The match a candidate gives.
pub open spec fn match_of(c: BoundThreadCandidate) -> BoundThreadLaunchMatch {
    BoundThreadLaunchMatch { thread_key: c.thread_key, current_codex_thread_id: c.current_codex_thread_id }
}

/// The candidates whose workspace is the launched one (compared as paths,
/// component by component), as matches.
pub open spec fn matching(cands: Seq<BoundThreadCandidate>, workspace: Seq<char>) -> Seq<BoundThreadLaunchMatch>
    decreases cands.len(),
{
    if cands.len() == 0 {
        Seq::empty()
    } else {
        let rest = matching(cands.drop_last(), workspace);
        if normalized(cands.last().bound_workspace@) == normalized(workspace) {
            rest.push(match_of(cands.last()))
        } else {
            rest
        }
    }
}

/// Where `m` goes in `s` when each item is placed after every item before it
/// whose key is not greater: the index of the first item with a greater key.
pub open spec fn insert_pos(s: Seq<BoundThreadLaunchMatch>, m: BoundThreadLaunchMatch) -> int
    decreases s.len(),
{
    if s.len() == 0 {
        0
    } else if seq_lt(m.thread_key@, s[0].thread_key@) {
        0
    } else {
        1 + insert_pos(s.drop_first(), m)
    }
}

/// The matches ordered by thread key, those with equal keys in the order they
/// came: a stable sort, stated as insertion of each item in turn.
pub open spec fn stably_by_thread_key(s: Seq<BoundThreadLaunchMatch>) -> Seq<BoundThreadLaunchMatch>
    decreases s.len(),
{
    if s.len() == 0 {
        Seq::empty()
    } else {
        let done = stably_by_thread_key(s.drop_last());
        done.insert(insert_pos(done, s.last()), s.last())
    }
}

/// The threads bound to `workspace`, ordered by thread key.
pub fn bound_threads_for_workspace(candidates: Vec<BoundThreadCandidate>, workspace: &str) -> (r: Vec<BoundThreadLaunchMatch>)
    ensures
        r@ == stably_by_thread_key(matching(candidates@, workspace@)),
        by_thread_key(r@),
        r@.to_multiset() == matching(candidates@, workspace@).to_multiset(),
{
    let target = path_normalize(workspace);
    let mut out: Vec<BoundThreadLaunchMatch> = Vec::new();
    let mut i: usize = 0;
    while i < candidates.len()
        invariant
            i <= candidates@.len(),
            target@ == normalized(workspace@),
            by_thread_key(out@),
            out@ == stably_by_thread_key(matching(candidates@.take(i as int), workspace@)),
            out@.to_multiset() == matching(candidates@.take(i as int), workspace@).to_multiset(),
        decreases candidates@.len() - i,
    {
        let c = &candidates[i];
        proof {
            assert(candidates@.take(i + 1).drop_last() =~= candidates@.take(i as int));
        }
        let here = path_normalize(c.bound_workspace.as_str());
        let ghost prev = matching(candidates@.take(i as int), workspace@);
        proof {
            assert(candidates@.take(i + 1).last() == candidates@[i as int]);
        }
        if str_eq(here.as_str(), target.as_str()) {
            assert(matching(candidates@.take(i + 1), workspace@) == prev.push(match_of(*c)));
            let m = BoundThreadLaunchMatch {
                thread_key: c.thread_key.clone(),
                current_codex_thread_id: match &c.current_codex_thread_id {
                    Some(t) => Some(t.clone()),
                    None => None,
                },
            };
            assert(m == match_of(*c));
            let ghost o = out@;
            let mut p: usize = 0;
            proof {
                assert(o.subrange(0, o.len() as int) =~= o);
            }
            while p < out.len() && !str_lt(m.thread_key.as_str(), out[p].thread_key.as_str())
                invariant
                    out@ == o,
                    p <= o.len(),
                    forall|a: int| 0 <= a < p ==> seq_le(#[trigger] o[a].thread_key@, m.thread_key@),
                    insert_pos(o, m) == p + insert_pos(o.subrange(p as int, o.len() as int), m),
                decreases o.len() - p,
            {
                proof {
                    lemma_seq_order(o[p as int].thread_key@, m.thread_key@, m.thread_key@);
                    let sub = o.subrange(p as int, o.len() as int);
                    assert(sub[0] == o[p as int]);
                    assert(sub.drop_first() =~= o.subrange(p + 1, o.len() as int));
                }
                p += 1;
            }
            proof {
                let sub = o.subrange(p as int, o.len() as int);
                if p < o.len() {
                    assert(sub[0] == o[p as int]);
                }
                assert(insert_pos(o, m) == p);
            }
            let ghost gm = m;
            out.insert(p, m);
            proof {
                let n = out@;
                assert(n == o.insert(p as int, gm));
                assert(prev.push(gm).drop_last() =~= prev);
                assert(stably_by_thread_key(prev.push(gm)) == n);
                assert forall|a: int, b: int| 0 <= a < b < n.len() implies seq_le(
                    #[trigger] n[a].thread_key@,
                    #[trigger] n[b].thread_key@,
                ) by {
                    if b < p {
                        assert(n[a] == o[a] && n[b] == o[b]);
                    } else if b == p {
                        assert(n[a] == o[a]);
                    } else if a < p {
                        assert(n[a] == o[a] && n[b] == o[b - 1]);
                    } else if a == p {
                        assert(n[b] == o[b - 1]);
                        if b - 1 > p {
                            assert(seq_le(o[p as int].thread_key@, o[b - 1].thread_key@));
                        }
                        lemma_seq_order(gm.thread_key@, o[p as int].thread_key@, o[b - 1].thread_key@);
                        lemma_seq_order(o[p as int].thread_key@, gm.thread_key@, gm.thread_key@);
                    } else {
                        assert(n[a] == o[a - 1] && n[b] == o[b - 1]);
                    }
                }
                vstd::seq_lib::to_multiset_insert(o, p as int, gm);
                vstd::seq_lib::to_multiset_build(prev, gm);
            }
        } else {
            assert(matching(candidates@.take(i + 1), workspace@) == prev);
        }
        i += 1;
    }
    proof {
        assert(candidates@.take(i as int) =~= candidates@);
    }
    out
}

/// Why a launch could not be resolved.
#[derive(Debug, Clone, PartialEq, Eq)]
pub enum HcodexLaunchError {
    /// The app-server state names no hcodex endpoint.
    MissingHcodexWsUrl,
    /// No bound thread has the requested thread key.
    NoBindingForThreadKey(String),
    /// No thread is bound to the workspace.
    NoBindingForWorkspace,
    /// Several threads are bound to the workspace and none was requested.
    MultipleBindings,
    /// The selected thread has no current Codex session.
    MissingCurrentThread,
}

/// The text of a launch error.
pub open spec fn launch_error_text(e: HcodexLaunchError) -> Seq<char> {
    match e {
        HcodexLaunchError::MissingHcodexWsUrl => "hcodex: app-server state is missing hcodex_ws_url"@,
        HcodexLaunchError::NoBindingForThreadKey(k) => "hcodex: no active Telegram thread binding found for --thread-key "@
            + k@,
        HcodexLaunchError::NoBindingForWorkspace => "hcodex: no active Telegram thread binding found for this workspace"@,
        HcodexLaunchError::MultipleBindings => "hcodex: multiple active Telegram thread bindings use this workspace; pass --thread-key"@,
        HcodexLaunchError::MissingCurrentThread => "hcodex: bound Telegram thread is missing current_codex_thread_id"@,
    }
}

impl HcodexLaunchError {
    /// The error's text.
    pub fn message(&self) -> (r: String)
        ensures
            r@ == launch_error_text(*self),
    {
        match self {
            HcodexLaunchError::MissingHcodexWsUrl => owned("hcodex: app-server state is missing hcodex_ws_url"),
            HcodexLaunchError::NoBindingForThreadKey(k) => {
                let mut r = owned("hcodex: no active Telegram thread binding found for --thread-key ");
                push_str(&mut r, k.as_str());
                r
            },
            HcodexLaunchError::NoBindingForWorkspace => owned(
                "hcodex: no active Telegram thread binding found for this workspace",
            ),
            HcodexLaunchError::MultipleBindings => owned(
                "hcodex: multiple active Telegram thread bindings use this workspace; pass --thread-key",
            ),
            HcodexLaunchError::MissingCurrentThread => owned(
                "hcodex: bound Telegram thread is missing current_codex_thread_id",
            ),
        }
    }
}

/// The first match with thread key `k`, if any.
pub open spec fn first_with_key(s: Seq<BoundThreadLaunchMatch>, k: Seq<char>) -> Option<BoundThreadLaunchMatch>
    decreases s.len(),
{
    if s.len() == 0 {
        None
    } else if s[0].thread_key@ == k {
        Some(s[0])
    } else {
        first_with_key(s.drop_first(), k)
    }
}

/// The match at `i` is the first with key `k`.
proof fn lemma_first_with_key(s: Seq<BoundThreadLaunchMatch>, k: Seq<char>, i: int)
    requires
        0 <= i < s.len(),
        s[i].thread_key@ == k,
        forall|j: int| 0 <= j < i ==> #[trigger] s[j].thread_key@ != k,
    ensures
        first_with_key(s, k) == Some(s[i]),
    decreases i,
{
    if i > 0 {
        assert forall|j: int| 0 <= j < i - 1 implies #[trigger] s.drop_first()[j].thread_key@ != k by {
            assert(s.drop_first()[j] == s[j + 1]);
        }
        lemma_first_with_key(s.drop_first(), k, i - 1);
    }
}

/// No match has key `k`.
proof fn lemma_none_with_key(s: Seq<BoundThreadLaunchMatch>, k: Seq<char>)
    requires
        forall|j: int| 0 <= j < s.len() ==> #[trigger] s[j].thread_key@ != k,
    ensures
        first_with_key(s, k) is None,
    decreases s.len(),
{
    if s.len() > 0 {
        assert forall|j: int| 0 <= j < s.len() - 1 implies #[trigger] s.drop_first()[j].thread_key@ != k by {
            assert(s.drop_first()[j] == s[j + 1]);
        }
        lemma_none_with_key(s.drop_first(), k);
    }
}

/// The thread a launch resumes: the first with the requested key, or else
/// the only bound one.
pub fn select_bound_thread(matches: Vec<BoundThreadLaunchMatch>, requested_thread_key: Option<&str>) -> (r: Result<BoundThreadLaunchMatch, HcodexLaunchError>)
    ensures
        match requested_thread_key {
            Some(k) => match r {
                Ok(m) => exists|i: int| 0 <= i < matches@.len() && matches@[i] == m && m.thread_key@ == k@ && forall|j: int| 0 <= j < i ==> #[trigger] matches@[j].thread_key@ != k@,
                Err(e) => (forall|i: int| 0 <= i < matches@.len() ==> #[trigger] matches@[i].thread_key@ != k@) && e is NoBindingForThreadKey && e->0@ == k@,
            },
            None => if matches@.len() == 0 {
                r == Err::<BoundThreadLaunchMatch, HcodexLaunchError>(HcodexLaunchError::NoBindingForWorkspace)
            } else if matches@.len() == 1 {
                r == Ok::<BoundThreadLaunchMatch, HcodexLaunchError>(matches@[0])
            } else {
                r == Err::<BoundThreadLaunchMatch, HcodexLaunchError>(HcodexLaunchError::MultipleBindings)
            },
        },
        requested_thread_key matches Some(k) ==> match first_with_key(matches@, k@) {
            Some(m) => r == Ok::<BoundThreadLaunchMatch, HcodexLaunchError>(m),
            None => r matches Err(HcodexLaunchError::NoBindingForThreadKey(x)) && x@ == k@,
        },
{
    let mut ms = matches;
    match requested_thread_key {
        Some(k) => {
            let ghost all = ms@;
            let mut i: usize = 0;
            while i < ms.len()
                invariant
                    ms@ == all,
                    all == matches@,
                    requested_thread_key == Some(k),
                    i <= all.len(),
                    forall|j: int| 0 <= j < i ==> #[trigger] all[j].thread_key@ != k@,
                decreases all.len() - i,
            {
                if str_eq(ms[i].thread_key.as_str(), k) {
                    let m = ms.remove(i);
                    assert(all[i as int] == m);
                    assert(matches@[i as int] == m);
                    proof {
                        lemma_first_with_key(all, k@, i as int);
                    }
                    return Ok(m);
                }
                i += 1;
            }
            proof {
                lemma_none_with_key(all, k@);
            }
            Err(HcodexLaunchError::NoBindingForThreadKey(owned(k)))
        },
        None => {
            if ms.len() == 0 {
                Err(HcodexLaunchError::NoBindingForWorkspace)
            } else if ms.len() == 1 {
                Ok(ms.remove(0))
            } else {
                Err(HcodexLaunchError::MultipleBindings)
            }
        },
    }
}

/// The endpoint a launch connects to: the hcodex URL with the launch
/// ticket added as a query parameter.
pub open spec fn launch_url(ws_url: Seq<char>, ticket: Seq<char>) -> Seq<char> {
    ws_url + (if contains_seq(ws_url, "?"@) {
        "&"@
    } else {
        "?"@
    }) + "launch_ticket="@ + ticket
}

/// The endpoint a launch connects to.
pub fn launch_ws_url(hcodex_ws_url: &str, ticket: &str) -> (r: String)
    ensures
        r@ == launch_url(hcodex_ws_url@, ticket@),
{
    let mut r = owned(hcodex_ws_url);
    if str_contains(hcodex_ws_url, "?") {
        push_str(&mut r, "&");
    } else {
        push_str(&mut r, "?");
    }
    push_str(&mut r, "launch_ticket=");
    push_str(&mut r, ticket);
    r
}

/// What a resolved launch needs before its ticket is issued.
#[derive(Debug, Clone)]
pub struct HcodexLaunchPlan {
    pub hcodex_ws_url: String,
    pub thread_key: String,
    pub current_thread: String,
}

/// The match a launch resumes, if one is selected: the first with the
/// requested key, or else the only bound one.
pub open spec fn launch_selection(matches: Seq<BoundThreadLaunchMatch>, requested: Option<Seq<char>>) -> Option<BoundThreadLaunchMatch> {
    match requested {
        Some(k) => first_with_key(matches, k),
        None => if matches.len() == 1 {
            Some(matches[0])
        } else {
            None
        },
    }
}

/// Resolves a launch: the workspace's hcodex endpoint must be recorded and
/// not blank, a bound thread is selected (the requested one, or the only
/// one), and it must have a current Codex session that is not blank.
pub fn plan_hcodex_launch(
    hcodex_ws_url: Option<String>,
    matches: Vec<BoundThreadLaunchMatch>,
    requested_thread_key: Option<&str>,
) -> (r: Result<HcodexLaunchPlan, HcodexLaunchError>)
    ensures
        match hcodex_ws_url {
            None => r == Err::<HcodexLaunchPlan, HcodexLaunchError>(HcodexLaunchError::MissingHcodexWsUrl),
            Some(u) => if is_blank(u@) {
                r == Err::<HcodexLaunchPlan, HcodexLaunchError>(HcodexLaunchError::MissingHcodexWsUrl)
            } else {
                match launch_selection(
                    matches@,
                    match requested_thread_key {
                        Some(k) => Some(k@),
                        None => None,
                    },
                ) {
                    Some(m) => match opt_view(m.current_codex_thread_id) {
                        Some(t) => if is_blank(t) {
                            r == Err::<HcodexLaunchPlan, HcodexLaunchError>(HcodexLaunchError::MissingCurrentThread)
                        } else {
                            r matches Ok(p) && p.hcodex_ws_url@ == u@ && p.thread_key@ == m.thread_key@
                                && p.current_thread@ == t
                        },
                        None => r == Err::<HcodexLaunchPlan, HcodexLaunchError>(HcodexLaunchError::MissingCurrentThread),
                    },
                    None => match requested_thread_key {
                        Some(k) => r matches Err(HcodexLaunchError::NoBindingForThreadKey(x)) && x@ == k@,
                        None => if matches@.len() == 0 {
                            r == Err::<HcodexLaunchPlan, HcodexLaunchError>(HcodexLaunchError::NoBindingForWorkspace)
                        } else {
                            r == Err::<HcodexLaunchPlan, HcodexLaunchError>(HcodexLaunchError::MultipleBindings)
                        },
                    },
                }
            },
        },
{
    let url = match hcodex_ws_url {
        Some(u) => u,
        None => return Err(HcodexLaunchError::MissingHcodexWsUrl),
    };
    if blank(url.as_str()) {
        return Err(HcodexLaunchError::MissingHcodexWsUrl);
    }
    let selected = match select_bound_thread(matches, requested_thread_key) {
        Ok(m) => m,
        Err(e) => return Err(e),
    };
    let current = match selected.current_codex_thread_id {
        Some(t) => t,
        None => return Err(HcodexLaunchError::MissingCurrentThread),
    };
    if blank(current.as_str()) {
        return Err(HcodexLaunchError::MissingCurrentThread);
    }
    Ok(HcodexLaunchPlan { hcodex_ws_url: url, thread_key: selected.thread_key, current_thread: current })
}

/// The line a resolved launch prints: the launch URL, the thread key and
/// the current session, separated by tabs.
pub fn launch_output_line(plan: &HcodexLaunchPlan, ticket: &str) -> (r: String)
    ensures
        r@ == launch_url(plan.hcodex_ws_url@, ticket@) + "\t"@ + plan.thread_key@ + "\t"@ + plan.current_thread@,
{
    let mut r = launch_ws_url(plan.hcodex_ws_url.as_str(), ticket);
    push_str(&mut r, "\t");
    push_str(&mut r, plan.thread_key.as_str());
    push_str(&mut r, "\t");
    push_str(&mut r, plan.current_thread.as_str());
    r
}

} // verus!

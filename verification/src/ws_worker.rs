//! The app-server websocket worker: its command line, the websocket URLs
//! it listens on and reports, and its readiness record.
//!
//! Spawning Codex, listening and proxying belong to the caller.
use vstd::prelude::*;
use crate::text::{decimal, decimal_string, owned, push_str, str_eq};
use crate::thread_model::opt_view;

verus! {

/// What the worker writes once it accepts connections.
#[derive(Debug, Clone)]
pub struct WorkerReadyState {
    pub worker_ws_url: String,
    pub daemon_ws_url: String,
}

/// The parts of a parsed URL that websocket addresses are judged by.
#[derive(Debug, Clone)]
pub struct UrlParts {
    pub scheme: String,
    pub host: Option<String>,
    pub port: Option<u16>,
    pub path: String,
    pub query: Option<String>,
    pub fragment: Option<String>,
}

/// The parts of a URL as plain values: scheme, host, explicit port (none
/// for the scheme's default), path, query, fragment.
pub open spec fn parts_view(p: UrlParts) -> UrlPartsView {
    (p.scheme@, opt_view(p.host), p.port, p.path@, opt_view(p.query), opt_view(p.fragment))
}

/// What `url::Url::parse` makes of a text: its parts, or none when the text
/// is not an absolute URL.
pub uninterp spec fn url_parse(text: Seq<char>) -> Option<(Seq<char>, Option<Seq<char>>, Option<u16>, Seq<char>, Option<Seq<char>>, Option<Seq<char>>)>;

/// The parts of a URL, if any, as plain values.
pub open spec fn opt_parts(p: Option<UrlParts>) -> Option<UrlPartsView> {
    match p {
        Some(x) => Some(parts_view(x)),
        None => None,
    }
}

/// `url::Url::parse`, with the parsed URL's scheme, host, port, path,
/// query and fragment read out. The contract names the result and says no
/// more of it: URL parsing follows the WHATWG standard.
#[verifier::external_body]
pub(crate) fn parse_url(text: &str) -> (r: Option<UrlParts>)
    ensures
        opt_parts(r) == url_parse(text@),
{
    let u = url::Url::parse(text).ok()?;
    let (host, query, fragment) = (u.host_str(), u.query(), u.fragment());
    let (scheme, path) = (u.scheme().to_owned(), u.path().to_owned());
    let host = host.map(String::from);
    let (query, fragment) = (query.map(String::from), fragment.map(String::from));
    Some(UrlParts { scheme, host, port: u.port(), path, query, fragment })
}

/// The loopback websocket URL of a port: `ws://127.0.0.1:<port>`.
pub open spec fn loopback_url(port: u16) -> Seq<char> {
    "ws://127.0.0.1:"@ + decimal(port as nat)
}

/// The loopback websocket URL of a port.
pub fn loopback_ws_url(port: u16) -> (r: String)
    ensures
        r@ == loopback_url(port),
{
    let mut r = owned("ws://127.0.0.1:");
    let p = decimal_string(port as u64);
    push_str(&mut r, p.as_str());
    r
}

/// Why a listen URL was refused.
#[derive(Debug, Clone, PartialEq, Eq)]
pub enum WorkerUrlError {
    /// `invalid websocket url: <url>`
    Invalid(String),
    /// Not a `ws://` URL.
    NotWs,
    /// A path other than the root.
    NotRootPath,
    /// No host.
    MissingHost,
    /// No explicit port.
    MissingPort,
}

/// The text of a listen URL error.
pub open spec fn worker_url_error_text(e: WorkerUrlError) -> Seq<char> {
    match e {
        WorkerUrlError::Invalid(u) => "invalid websocket url: "@ + u@,
        WorkerUrlError::NotWs => "worker websocket url must start with ws://"@,
        WorkerUrlError::NotRootPath => "worker websocket url must use root path"@,
        WorkerUrlError::MissingHost => "worker websocket url is missing host"@,
        WorkerUrlError::MissingPort => "worker websocket url is missing port"@,
    }
}

impl WorkerUrlError {
    /// The error's text.
    pub fn message(&self) -> (r: String)
        ensures
            r@ == worker_url_error_text(*self),
    {
        match self {
            WorkerUrlError::Invalid(u) => {
                let mut r = owned("invalid websocket url: ");
                push_str(&mut r, u.as_str());
                r
            },
            WorkerUrlError::NotWs => owned("worker websocket url must start with ws://"),
            WorkerUrlError::NotRootPath => owned("worker websocket url must use root path"),
            WorkerUrlError::MissingHost => owned("worker websocket url is missing host"),
            WorkerUrlError::MissingPort => owned("worker websocket url is missing port"),
        }
    }
}

/// The parts of a URL, as plain values.
pub type UrlPartsView = (Seq<char>, Option<Seq<char>>, Option<u16>, Seq<char>, Option<Seq<char>>, Option<Seq<char>>);

/// `r` is what a worker listen URL gives, from its parsed parts: a `ws` URL
/// at the root path with a host and an explicit port gives
/// `<host>:<port>`; each other case its error.
pub open spec fn listen_outcome(r: Result<String, WorkerUrlError>, url: Seq<char>, parts: Option<UrlPartsView>) -> bool {
    match parts {
        None => match r {
            Err(WorkerUrlError::Invalid(u)) => u@ == url,
            _ => false,
        },
        Some(p) => if p.0 != "ws"@ {
            r == Err::<String, WorkerUrlError>(WorkerUrlError::NotWs)
        } else if p.3 != "/"@ && p.3.len() != 0 {
            r == Err::<String, WorkerUrlError>(WorkerUrlError::NotRootPath)
        } else {
            match (p.1, p.2) {
                (None, _) => r == Err::<String, WorkerUrlError>(WorkerUrlError::MissingHost),
                (Some(_), None) => r == Err::<String, WorkerUrlError>(WorkerUrlError::MissingPort),
                (Some(h), Some(port)) => match r {
                    Ok(a) => a@ == h + ":"@ + decimal(port as nat),
                    Err(_) => false,
                },
            }
        },
    }
}

/// The socket address a worker listen URL names, from its parsed parts.
pub fn socket_addr_from_parts(url: &str, parts: Option<UrlParts>) -> (r: Result<String, WorkerUrlError>)
    ensures
        listen_outcome(r, url@, opt_parts(parts)),
{
    let p = match parts {
        Some(p) => p,
        None => return Err(WorkerUrlError::Invalid(owned(url))),
    };
    if !str_eq(p.scheme.as_str(), "ws") {
        return Err(WorkerUrlError::NotWs);
    }
    if !str_eq(p.path.as_str(), "/") && !str_eq(p.path.as_str(), "") {
        proof {
            reveal_strlit("");
            if p.path@.len() == 0 {
                assert(p.path@ =~= ""@);
            }
        }
        return Err(WorkerUrlError::NotRootPath);
    }
    proof {
        reveal_strlit("");
    }
    let host = match p.host {
        Some(h) => h,
        None => return Err(WorkerUrlError::MissingHost),
    };
    let port = match p.port {
        Some(n) => n,
        None => return Err(WorkerUrlError::MissingPort),
    };
    let mut r = host;
    push_str(&mut r, ":");
    let digits = decimal_string(port as u64);
    push_str(&mut r, digits.as_str());
    Ok(r)
}

/// The socket address a worker listen URL names.
pub fn socket_addr_from_ws_url(url: &str) -> (r: Result<String, WorkerUrlError>)
    ensures
        listen_outcome(r, url@, url_parse(url@)),
{
    let parts = parse_url(url);
    socket_addr_from_parts(url, parts)
}

/// The worker's flags, each with a value.
#[derive(Debug, Clone, Copy, PartialEq, Eq, Structural)]
pub enum WorkerFlag {
    Workspace,
    ListenWsUrl,
    ReadyFile,
}

/// The flag as written.
pub open spec fn worker_flag_text(f: WorkerFlag) -> Seq<char> {
    match f {
        WorkerFlag::Workspace => "--workspace"@,
        WorkerFlag::ListenWsUrl => "--listen-ws-url"@,
        WorkerFlag::ReadyFile => "--ready-file"@,
    }
}

impl WorkerFlag {
    /// The flag as written.
    pub fn text(&self) -> (r: &'static str)
        ensures
            r@ == worker_flag_text(*self),
    {
        match self {
            WorkerFlag::Workspace => "--workspace",
            WorkerFlag::ListenWsUrl => "--listen-ws-url",
            WorkerFlag::ReadyFile => "--ready-file",
        }
    }
}

/// The flag an argument names, if the worker takes it.
pub open spec fn worker_flag_named(arg: Seq<char>) -> Option<WorkerFlag> {
    if arg == worker_flag_text(WorkerFlag::Workspace) {
        Some(WorkerFlag::Workspace)
    } else if arg == worker_flag_text(WorkerFlag::ListenWsUrl) {
        Some(WorkerFlag::ListenWsUrl)
    } else if arg == worker_flag_text(WorkerFlag::ReadyFile) {
        Some(WorkerFlag::ReadyFile)
    } else {
        None
    }
}

/// Why the worker's arguments were refused.
#[derive(Debug, Clone, PartialEq, Eq)]
pub enum WorkerCliError {
    /// `missing value for <flag>`
    MissingValue(WorkerFlag),
    /// `unsupported app_server_ws_worker argument: <argument>`
    UnsupportedArgument(String),
    /// `missing required <flag>`
    MissingRequired(WorkerFlag),
}

/// The text of an argument error.
pub open spec fn worker_cli_error_text(e: WorkerCliError) -> Seq<char> {
    match e {
        WorkerCliError::MissingValue(f) => "missing value for "@ + worker_flag_text(f),
        WorkerCliError::UnsupportedArgument(a) => "unsupported app_server_ws_worker argument: "@ + a@,
        WorkerCliError::MissingRequired(f) => "missing required "@ + worker_flag_text(f),
    }
}

impl WorkerCliError {
    /// The error's text.
    pub fn message(&self) -> (r: String)
        ensures
            r@ == worker_cli_error_text(*self),
    {
        match self {
            WorkerCliError::MissingValue(f) => {
                let mut r = owned("missing value for ");
                push_str(&mut r, f.text());
                r
            },
            WorkerCliError::UnsupportedArgument(a) => {
                let mut r = owned("unsupported app_server_ws_worker argument: ");
                push_str(&mut r, a.as_str());
                r
            },
            WorkerCliError::MissingRequired(f) => {
                let mut r = owned("missing required ");
                push_str(&mut r, f.text());
                r
            },
        }
    }
}

/// The worker's flags read from `args[i..]` on top of `acc` (workspace,
/// listen URL, ready file): each flag takes the next argument as its
/// value, the last one given winning.
pub open spec fn worker_scan(
    args: Seq<String>,
    i: int,
    acc: (Option<Seq<char>>, Option<Seq<char>>, Option<Seq<char>>),
) -> Result<(Option<Seq<char>>, Option<Seq<char>>, Option<Seq<char>>), WorkerCliError>
    decreases args.len() - i,
{
    if i < 0 || i >= args.len() {
        Ok(acc)
    } else {
        match worker_flag_named(args[i]@) {
            None => Err(WorkerCliError::UnsupportedArgument(args[i])),
            Some(f) => if i + 1 >= args.len() {
                Err(WorkerCliError::MissingValue(f))
            } else {
                let v = Some(args[i + 1]@);
                worker_scan(
                    args,
                    i + 2,
                    match f {
                        WorkerFlag::Workspace => (v, acc.1, acc.2),
                        WorkerFlag::ListenWsUrl => (acc.0, v, acc.2),
                        WorkerFlag::ReadyFile => (acc.0, acc.1, v),
                    },
                )
            },
        }
    }
}

/// The worker's command line.
#[derive(Debug, Clone)]
pub struct WorkerCli {
    pub workspace: String,
    pub listen_ws_url: String,
    pub ready_file: String,
}

impl WorkerCli {
    /// Reads the worker's arguments: `--workspace`, `--listen-ws-url` and
    /// `--ready-file` are all required.
    pub fn parse(args: &Vec<String>) -> (r: Result<Self, WorkerCliError>)
        ensures
            match worker_scan(args@, 0, (None, None, None)) {
                Err(e) => r == Err::<Self, WorkerCliError>(e),
                Ok(v) => match v {
                    (None, _, _) => r == Err::<Self, WorkerCliError>(WorkerCliError::MissingRequired(WorkerFlag::Workspace)),
                    (Some(_), None, _) => r == Err::<Self, WorkerCliError>(WorkerCliError::MissingRequired(WorkerFlag::ListenWsUrl)),
                    (Some(_), Some(_), None) => r == Err::<Self, WorkerCliError>(WorkerCliError::MissingRequired(WorkerFlag::ReadyFile)),
                    (Some(w), Some(l), Some(f)) => match r {
                        Ok(c) => c.workspace@ == w && c.listen_ws_url@ == l && c.ready_file@ == f,
                        Err(_) => false,
                    },
                },
            },
    {
        let mut workspace: Option<String> = None;
        let mut listen_ws_url: Option<String> = None;
        let mut ready_file: Option<String> = None;
        let mut i: usize = 0;
        while i < args.len()
            invariant
                i <= args@.len(),
                worker_scan(args@, 0, (None, None, None)) == worker_scan(
                    args@,
                    i as int,
                    (opt_view(workspace), opt_view(listen_ws_url), opt_view(ready_file)),
                ),
            decreases args@.len() - i,
        {
            let arg = args[i].as_str();
            let f = if str_eq(arg, WorkerFlag::Workspace.text()) {
                WorkerFlag::Workspace
            } else if str_eq(arg, WorkerFlag::ListenWsUrl.text()) {
                WorkerFlag::ListenWsUrl
            } else if str_eq(arg, WorkerFlag::ReadyFile.text()) {
                WorkerFlag::ReadyFile
            } else {
                return Err(WorkerCliError::UnsupportedArgument(args[i].clone()));
            };
            if i + 1 >= args.len() {
                return Err(WorkerCliError::MissingValue(f));
            }
            let value = args[i + 1].clone();
            match f {
                WorkerFlag::Workspace => workspace = Some(value),
                WorkerFlag::ListenWsUrl => listen_ws_url = Some(value),
                WorkerFlag::ReadyFile => ready_file = Some(value),
            }
            i += 2;
        }
        let workspace = match workspace {
            Some(w) => w,
            None => return Err(WorkerCliError::MissingRequired(WorkerFlag::Workspace)),
        };
        let listen_ws_url = match listen_ws_url {
            Some(l) => l,
            None => return Err(WorkerCliError::MissingRequired(WorkerFlag::ListenWsUrl)),
        };
        let ready_file = match ready_file {
            Some(f) => f,
            None => return Err(WorkerCliError::MissingRequired(WorkerFlag::ReadyFile)),
        };
        Ok(WorkerCli { workspace, listen_ws_url, ready_file })
    }
}

/// The error when the worker's Codex app-server never answered.
pub fn daemon_unhealthy_message(daemon_ws_url: &str) -> (r: String)
    ensures
        r@ == "worker-owned codex app-server did not become healthy at "@ + daemon_ws_url@,
{
    let mut r = owned("worker-owned codex app-server did not become healthy at ");
    push_str(&mut r, daemon_ws_url);
    r
}

} // verus!

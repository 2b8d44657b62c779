//! Where the runtime keeps its data and debug log.
//!
//! Explicit paths win over the defaults; a debug build keeps its data next
//! to the working directory, a release build under the platform's local
//! data directory. Paths given relative are taken from the working
//! directory and canonicalized when they exist.
use vstd::prelude::*;
use crate::paths::{
    absolute, joined, normalized, parent_of, path_canonicalize, path_join, path_normalize, path_parent,
    is_absolute,
};
use crate::text::owned;
use crate::thread_model::opt_view;

verus! {

/// The data root of a debug build, relative to the working directory.
pub const DEBUG_DATA_ROOT: &'static str = "./data";

/// The directory under the platform's local data directory.
pub const APP_DATA_DIR_NAME: &'static str = "threadBridge";

/// The debug log, relative to the data root.
pub const DEBUG_EVENTS_RELATIVE_PATH: &'static str = "debug/events.jsonl";

/// Why a release build without overrides has no data root.
pub const MISSING_LOCAL_DATA_DIR_MESSAGE: &'static str =
    "failed to resolve a local application data directory for the release runtime";

/// The kind of build the process runs as.
#[derive(Debug, Clone, Copy, PartialEq, Eq, Structural)]
pub enum BuildFlavor {
    Debug,
    Release,
}

/// Paths given explicitly, which take precedence over the defaults.
#[derive(Debug, Clone, Default)]
pub struct RuntimePathOverrides {
    pub data_root: Option<String>,
    pub bot_data_path: Option<String>,
    pub debug_log_path: Option<String>,
}

/// The resolved data root and debug log path.
#[derive(Debug, Clone, PartialEq, Eq)]
pub struct RuntimePaths {
    pub data_root_path: String,
    pub debug_log_path: String,
}

/// Why the runtime paths could not be resolved.
#[derive(Debug, Clone, Copy, PartialEq, Eq, Structural)]
pub enum RuntimePathError {
    /// A release build has no override and the platform gave no local data
    /// directory.
    MissingLocalDataDir,
}

impl RuntimePathError {
    /// The error's text.
    pub fn message(&self) -> (r: &'static str)
        ensures
            r@ == MISSING_LOCAL_DATA_DIR_MESSAGE@,
    {
        MISSING_LOCAL_DATA_DIR_MESSAGE
    }
}

/// `input` taken from `base`: an absolute path stays as it is.
pub open spec fn anchored(base: Seq<char>, input: Seq<char>) -> Seq<char> {
    if absolute(input) {
        input
    } else {
        joined(base, input)
    }
}

/// The path kept for `path`: its canonical form when canonicalizing gave
/// one, else the path with its components normalized.
pub open spec fn settled(path: Seq<char>, canonical: Option<Seq<char>>) -> Seq<char> {
    match canonical {
        Some(c) => c,
        None => normalized(path),
    }
}

/// The path canonicalized on the way to the data root, if any.
pub open spec fn data_root_source(cwd: Seq<char>, flavor: BuildFlavor, ov: RuntimePathOverrides) -> Option<Seq<char>> {
    match ov.data_root {
        Some(p) => Some(anchored(cwd, p@)),
        None => match ov.bot_data_path {
            Some(p) => Some(anchored(cwd, p@)),
            None => match flavor {
                BuildFlavor::Debug => Some(anchored(cwd, DEBUG_DATA_ROOT@)),
                BuildFlavor::Release => None,
            },
        },
    }
}

/// The data root, given what canonicalizing its source gave (`dc`): the
/// data-root override; else the directory of the legacy bot data file
/// (the debug root next to `cwd` when it has none); else the debug root
/// for a debug build; else `threadBridge` under the platform directory,
/// which a release build cannot do without.
pub open spec fn resolved_data_root(
    cwd: Seq<char>,
    flavor: BuildFlavor,
    platform: Option<Seq<char>>,
    ov: RuntimePathOverrides,
    dc: Option<Seq<char>>,
) -> Option<Seq<char>> {
    match ov.data_root {
        Some(p) => Some(settled(anchored(cwd, p@), dc)),
        None => match ov.bot_data_path {
            Some(p) => Some(
                match parent_of(settled(anchored(cwd, p@), dc)) {
                    Some(q) => q,
                    None => joined(cwd, DEBUG_DATA_ROOT@),
                },
            ),
            None => match flavor {
                BuildFlavor::Debug => Some(settled(anchored(cwd, DEBUG_DATA_ROOT@), dc)),
                BuildFlavor::Release => match platform {
                    Some(root) => Some(joined(root, APP_DATA_DIR_NAME@)),
                    None => None,
                },
            },
        },
    }
}

/// The debug log, given the data root and what canonicalizing the
/// override gave (`lc`): the override, else the events file under the
/// data root.
pub open spec fn resolved_debug_log(
    cwd: Seq<char>,
    data_root: Seq<char>,
    ov: RuntimePathOverrides,
    lc: Option<Seq<char>>,
) -> Seq<char> {
    match ov.debug_log_path {
        Some(p) => settled(anchored(cwd, p@), lc),
        None => joined(data_root, DEBUG_EVENTS_RELATIVE_PATH@),
    }
}

/// `r` is the resolution of the runtime paths for the given canonical
/// forms.
pub open spec fn resolves_paths(
    r: Result<RuntimePaths, RuntimePathError>,
    cwd: Seq<char>,
    flavor: BuildFlavor,
    platform: Option<Seq<char>>,
    ov: RuntimePathOverrides,
    dc: Option<Seq<char>>,
    lc: Option<Seq<char>>,
) -> bool {
    match resolved_data_root(cwd, flavor, platform, ov, dc) {
        Some(d) => r matches Ok(p) && p.data_root_path@ == d && p.debug_log_path@ == resolved_debug_log(
            cwd,
            d,
            ov,
            lc,
        ),
        None => r matches Err(e) && e == RuntimePathError::MissingLocalDataDir,
    }
}

/// A canonical form the file system may give: absolute.
pub open spec fn possible_canonical(c: Option<Seq<char>>) -> bool {
    c matches Some(s) ==> absolute(s)
}

/// `input` taken from `base`.
pub fn anchor(base: &str, input: &str) -> (r: String)
    ensures
        r@ == anchored(base@, input@),
{
    if is_absolute(input) {
        owned(input)
    } else {
        path_join(base, input)
    }
}

/// The path kept for `path`, given what canonicalizing it gave.
pub fn settle(path: &str, canonical: Option<String>) -> (r: String)
    ensures
        r@ == settled(path@, opt_view(canonical)),
{
    match canonical {
        Some(c) => c,
        None => path_normalize(path),
    }
}

/// `input` resolved from `base`: canonicalized on disk when it exists,
/// normalized otherwise.
pub fn resolve_from_base(base: &str, input: &str) -> (r: String)
    ensures
        exists|c: Option<Seq<char>>|
            possible_canonical(c) && r@ == #[trigger] settled(anchored(base@, input@), c),
{
    let path = anchor(base, input);
    let canonical = path_canonicalize(path.as_str());
    let ghost c = opt_view(canonical);
    let r = settle(path.as_str(), canonical);
    assert(possible_canonical(c) && r@ == settled(anchored(base@, input@), c));
    r
}

/// Canonicalizes an optional path.
fn canonicalize_source(source: &Option<String>) -> (c: Option<String>)
    ensures
        possible_canonical(opt_view(c)),
        source is None ==> c is None,
{
    match source {
        Some(p) => path_canonicalize(p.as_str()),
        None => None,
    }
}

/// The path canonicalized on the way to the data root, if any.
fn data_root_source_of(cwd: &str, flavor: BuildFlavor, overrides: &RuntimePathOverrides) -> (r: Option<String>)
    ensures
        opt_view(r) == data_root_source(cwd@, flavor, *overrides),
{
    match &overrides.data_root {
        Some(p) => Some(anchor(cwd, p.as_str())),
        None => match &overrides.bot_data_path {
            Some(p) => Some(anchor(cwd, p.as_str())),
            None => match flavor {
                BuildFlavor::Debug => Some(anchor(cwd, DEBUG_DATA_ROOT)),
                BuildFlavor::Release => None,
            },
        },
    }
}

/// The data root, given the canonical form of its source.
fn data_root_given(
    cwd: &str,
    flavor: BuildFlavor,
    platform_local_data_dir: Option<String>,
    overrides: &RuntimePathOverrides,
    data_canonical: Option<String>,
) -> (r: Option<String>)
    ensures
        opt_view(r) == resolved_data_root(
            cwd@,
            flavor,
            opt_view(platform_local_data_dir),
            *overrides,
            opt_view(data_canonical),
        ),
{
    match &overrides.data_root {
        Some(p) => {
            let path = anchor(cwd, p.as_str());
            Some(settle(path.as_str(), data_canonical))
        },
        None => match &overrides.bot_data_path {
            Some(p) => {
                let path = anchor(cwd, p.as_str());
                let bot_data_path = settle(path.as_str(), data_canonical);
                match path_parent(bot_data_path.as_str()) {
                    Some(q) => Some(q),
                    None => Some(path_join(cwd, DEBUG_DATA_ROOT)),
                }
            },
            None => match flavor {
                BuildFlavor::Debug => {
                    let path = anchor(cwd, DEBUG_DATA_ROOT);
                    Some(settle(path.as_str(), data_canonical))
                },
                BuildFlavor::Release => match platform_local_data_dir {
                    Some(root) => Some(path_join(root.as_str(), APP_DATA_DIR_NAME)),
                    None => None,
                },
            },
        },
    }
}

/// The runtime paths, given what canonicalizing the data root's source
/// (`data_canonical`) and the debug log override (`log_canonical`) gave.
pub fn runtime_paths_given(
    cwd: &str,
    flavor: BuildFlavor,
    platform_local_data_dir: Option<String>,
    overrides: RuntimePathOverrides,
    data_canonical: Option<String>,
    log_canonical: Option<String>,
) -> (r: Result<RuntimePaths, RuntimePathError>)
    ensures
        resolves_paths(
            r,
            cwd@,
            flavor,
            opt_view(platform_local_data_dir),
            overrides,
            opt_view(data_canonical),
            opt_view(log_canonical),
        ),
{
    let data_root_path = match data_root_given(
        cwd,
        flavor,
        platform_local_data_dir,
        &overrides,
        data_canonical,
    ) {
        Some(d) => d,
        None => return Err(RuntimePathError::MissingLocalDataDir),
    };
    let debug_log_path = match &overrides.debug_log_path {
        Some(p) => {
            let path = anchor(cwd, p.as_str());
            settle(path.as_str(), log_canonical)
        },
        None => path_join(data_root_path.as_str(), DEBUG_EVENTS_RELATIVE_PATH),
    };
    Ok(RuntimePaths { data_root_path, debug_log_path })
}

/// The runtime paths for a process running in `cwd` as `flavor`, with the
/// platform's local data directory if it has one: relative paths are
/// canonicalized on disk when they exist.
pub fn resolve_runtime_paths_with(
    cwd: &str,
    flavor: BuildFlavor,
    platform_local_data_dir: Option<String>,
    overrides: RuntimePathOverrides,
) -> (r: Result<RuntimePaths, RuntimePathError>)
    ensures
        exists|dc: Option<Seq<char>>, lc: Option<Seq<char>>|
            possible_canonical(dc) && possible_canonical(lc) && #[trigger] resolves_paths(
                r,
                cwd@,
                flavor,
                opt_view(platform_local_data_dir),
                overrides,
                dc,
                lc,
            ),
        r is Err <==> (overrides.data_root is None && overrides.bot_data_path is None && flavor
            == BuildFlavor::Release && platform_local_data_dir is None),
{
    let ghost platform = opt_view(platform_local_data_dir);
    let ghost ov = overrides;
    let data_source = data_root_source_of(cwd, flavor, &overrides);
    let data_canonical = canonicalize_source(&data_source);
    let log_source = match &overrides.debug_log_path {
        Some(p) => Some(anchor(cwd, p.as_str())),
        None => None,
    };
    let log_canonical = canonicalize_source(&log_source);
    let ghost dc = opt_view(data_canonical);
    let ghost lc = opt_view(log_canonical);
    let r = runtime_paths_given(cwd, flavor, platform_local_data_dir, overrides, data_canonical, log_canonical);
    assert(possible_canonical(dc) && possible_canonical(lc) && resolves_paths(r, cwd@, flavor, platform, ov, dc, lc));
    r
}

} // verus!

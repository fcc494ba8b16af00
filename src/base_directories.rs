//! The layered directory configuration and the operations that resolve
//! paths against it.
//!
//! Filesystem work (probing existence, reading directories, creating
//! directories, reading permission bits) happens outside this module: the
//! operations here compute which paths to probe or create, and take what was
//! observed as plain values.

use vstd::prelude::*;

use crate::paths::{
    is_absolute, join_path, same_text, spec_absolute_entries, spec_is_absolute, spec_join,
    split_path_list, views,
};
use crate::permissions::Permissions;

verus! {

/// The resolved base directories of one application session.
///
/// `user_prefix` is `shared_prefix` joined with the profile; it applies to the
/// home-rooted directories only, while `shared_prefix` applies to every
/// directory of the system-wide lists.
#[derive(Debug, Clone)]
pub struct BaseDirectories {
    pub home_dir: Option<String>,
    pub shared_prefix: String,
    pub user_prefix: String,
    pub data_home: Option<String>,
    pub config_home: Option<String>,
    pub cache_home: Option<String>,
    pub state_home: Option<String>,
    pub data_dirs: Vec<String>,
    pub config_dirs: Vec<String>,
    pub runtime_dir: Option<String>,
}

/// The mathematical content of a [`BaseDirectories`].
pub struct DirsView {
    pub home_dir: Option<Seq<char>>,
    pub shared_prefix: Seq<char>,
    pub user_prefix: Seq<char>,
    pub data_home: Option<Seq<char>>,
    pub config_home: Option<Seq<char>>,
    pub cache_home: Option<Seq<char>>,
    pub state_home: Option<Seq<char>>,
    pub data_dirs: Seq<Seq<char>>,
    pub config_dirs: Seq<Seq<char>>,
    pub runtime_dir: Option<Seq<char>>,
}

pub open spec fn opt_view(o: Option<String>) -> Option<Seq<char>> {
    match o {
        Some(s) => Some(s@),
        None => None,
    }
}

impl View for BaseDirectories {
    type V = DirsView;

    open spec fn view(&self) -> DirsView {
        DirsView {
            home_dir: opt_view(self.home_dir),
            shared_prefix: self.shared_prefix@,
            user_prefix: self.user_prefix@,
            data_home: opt_view(self.data_home),
            config_home: opt_view(self.config_home),
            cache_home: opt_view(self.cache_home),
            state_home: opt_view(self.state_home),
            data_dirs: views(self.data_dirs@),
            config_dirs: views(self.config_dirs@),
            runtime_dir: opt_view(self.runtime_dir),
        }
    }
}

/// The views of a vector of string pairs.
pub open spec fn pair_views(v: Seq<(String, String)>) -> Seq<(Seq<char>, Seq<char>)> {
    v.map_values(|e: (String, String)| (e.0@, e.1@))
}

/// The value of the first pair of `env` whose name is `name`.
pub open spec fn spec_env_lookup(env: Seq<(Seq<char>, Seq<char>)>, name: Seq<char>) -> Option<
    Seq<char>,
>
    decreases env.len(),
{
    if env.len() == 0 {
        None
    } else if env[0].0 == name {
        Some(env[0].1)
    } else {
        spec_env_lookup(env.drop_first(), name)
    }
}

/// The value of `name` when it is set to an absolute path; a relative value
/// counts as unset.
pub open spec fn spec_env_path(env: Seq<(Seq<char>, Seq<char>)>, name: Seq<char>) -> Option<Seq<char>> {
    match spec_env_lookup(env, name) {
        Some(v) => if spec_is_absolute(v) {
            Some(v)
        } else {
            None
        },
        None => None,
    }
}

/// A home-rooted category root: the variable `name` when absolute, else
/// `home` joined with `sub`, else nothing.
pub open spec fn spec_home_root(
    env: Seq<(Seq<char>, Seq<char>)>,
    name: Seq<char>,
    home: Option<Seq<char>>,
    sub: Seq<char>,
) -> Option<Seq<char>> {
    match spec_env_path(env, name) {
        Some(p) => Some(p),
        None => match home {
            Some(h) => Some(spec_join(h, sub)),
            None => None,
        },
    }
}

/// A system-wide list: the absolute entries of the variable `name`, or
/// `defaults` when that leaves none.
pub open spec fn spec_dir_list(
    env: Seq<(Seq<char>, Seq<char>)>,
    name: Seq<char>,
    defaults: Seq<Seq<char>>,
) -> Seq<Seq<char>> {
    match spec_env_lookup(env, name) {
        Some(v) => if spec_absolute_entries(v).len() > 0 {
            spec_absolute_entries(v)
        } else {
            defaults
        },
        None => defaults,
    }
}

/// The configuration for `prefix`, `profile`, a resolved `home` and the
/// environment `env`.
pub open spec fn spec_configure(
    prefix: Seq<char>,
    profile: Seq<char>,
    home: Option<Seq<char>>,
    env: Seq<(Seq<char>, Seq<char>)>,
) -> DirsView {
    DirsView {
        home_dir: home,
        shared_prefix: prefix,
        user_prefix: spec_join(prefix, profile),
        data_home: spec_home_root(env, "XDG_DATA_HOME"@, home, ".local/share"@),
        config_home: spec_home_root(env, "XDG_CONFIG_HOME"@, home, ".config"@),
        cache_home: spec_home_root(env, "XDG_CACHE_HOME"@, home, ".cache"@),
        state_home: spec_home_root(env, "XDG_STATE_HOME"@, home, ".local/state"@),
        data_dirs: spec_dir_list(env, "XDG_DATA_DIRS"@, seq!["/usr/local/share"@, "/usr/share"@]),
        config_dirs: spec_dir_list(env, "XDG_CONFIG_DIRS"@, seq!["/etc/xdg"@]),
        runtime_dir: spec_env_path(env, "XDG_RUNTIME_DIR"@),
    }
}

/// Looks `name` up in `env`.
pub fn env_lookup<'a>(env: &'a Vec<(String, String)>, name: &str) -> (r: Option<&'a String>)
    ensures
        match r {
            Some(v) => spec_env_lookup(pair_views(env@), name@) == Some(v@),
            None => spec_env_lookup(pair_views(env@), name@) is None,
        },
{
    let mut i: usize = 0;
    proof {
        assert(pair_views(env@).subrange(0, pair_views(env@).len() as int) =~= pair_views(env@));
    }
    while i < env.len()
        invariant
            i <= env@.len(),
            spec_env_lookup(pair_views(env@), name@) == spec_env_lookup(
                pair_views(env@).subrange(i as int, pair_views(env@).len() as int),
                name@,
            ),
        decreases env.len() - i,
    {
        let ghost rest = pair_views(env@).subrange(i as int, pair_views(env@).len() as int);
        proof {
            assert(rest[0] == pair_views(env@)[i as int]);
            assert(rest.drop_first() =~= pair_views(env@).subrange(i + 1, pair_views(env@).len() as int));
        }
        if same_text(env[i].0.as_str(), name) {
            return Some(&env[i].1);
        }
        i = i + 1;
    }
    None
}

fn env_path(env: &Vec<(String, String)>, name: &str) -> (r: Option<String>)
    ensures
        opt_view(r) == spec_env_path(pair_views(env@), name@),
{
    match env_lookup(env, name) {
        Some(v) => if is_absolute(v.as_str()) {
            Some(v.clone())
        } else {
            None
        },
        None => None,
    }
}

fn home_root(env: &Vec<(String, String)>, name: &str, home: &Option<String>, sub: &str) -> (r:
    Option<String>)
    ensures
        opt_view(r) == spec_home_root(pair_views(env@), name@, opt_view(*home), sub@),
{
    match env_path(env, name) {
        Some(p) => Some(p),
        None => match home {
            Some(h) => Some(join_path(h.as_str(), sub)),
            None => None,
        },
    }
}

fn dir_list(env: &Vec<(String, String)>, name: &str, defaults: Vec<String>) -> (r: Vec<String>)
    ensures
        views(r@) == spec_dir_list(pair_views(env@), name@, views(defaults@)),
{
    match env_lookup(env, name) {
        Some(v) => {
            let entries = split_path_list(v.as_str());
            if entries.len() > 0 {
                entries
            } else {
                defaults
            }
        },
        None => defaults,
    }
}

/// Relies on `dirs::home_dir`: the home directory that the platform reports
/// for the current user, which depends on the environment and the user
/// database; nothing is promised of it.
#[verifier::external_body]
fn platform_home_dir() -> (r: Option<String>) {
    match dirs::home_dir() {
        Some(p) => Some(p.to_string_lossy().into_owned()),
        None => None,
    }
}

impl BaseDirectories {
    /// Builds the configuration for `prefix` and `profile` from the
    /// environment `env`. A non-empty `home` is used verbatim as the home
    /// directory; an empty one asks the platform, and the configuration is
    /// then the one for whatever home it reported.
    pub fn with_env(prefix: &str, profile: &str, home: &str, env: &Vec<(String, String)>) -> (r:
        BaseDirectories)
        ensures
            home@.len() > 0 ==> r@ == spec_configure(prefix@, profile@, Some(home@), pair_views(env@)),
            home@.len() == 0 ==> r@ == spec_configure(prefix@, profile@, r@.home_dir, pair_views(env@)),
    {
        let resolved = if home.unicode_len() == 0 {
            platform_home_dir()
        } else {
            Some(String::from_str(home))
        };
        BaseDirectories::with_home_dir(prefix, profile, resolved, env)
    }

    /// Builds the configuration from a resolved home directory (`None` when
    /// none could be determined) and the environment `env`, given as
    /// name/value pairs of which the first with a name counts.
    pub fn with_home_dir(
        prefix: &str,
        profile: &str,
        home: Option<String>,
        env: &Vec<(String, String)>,
    ) -> (r: BaseDirectories)
        ensures
            r@ == spec_configure(prefix@, profile@, opt_view(home), pair_views(env@)),
    {
        let data_home = home_root(env, "XDG_DATA_HOME", &home, ".local/share");
        let config_home = home_root(env, "XDG_CONFIG_HOME", &home, ".config");
        let cache_home = home_root(env, "XDG_CACHE_HOME", &home, ".cache");
        let state_home = home_root(env, "XDG_STATE_HOME", &home, ".local/state");
        let data_defaults = vec![String::from_str("/usr/local/share"), String::from_str("/usr/share")];
        let config_defaults = vec![String::from_str("/etc/xdg")];
        proof {
            assert(views(data_defaults@) =~= seq!["/usr/local/share"@, "/usr/share"@]);
            assert(views(config_defaults@) =~= seq!["/etc/xdg"@]);
        }
        let data_dirs = dir_list(env, "XDG_DATA_DIRS", data_defaults);
        let config_dirs = dir_list(env, "XDG_CONFIG_DIRS", config_defaults);
        let runtime_dir = env_path(env, "XDG_RUNTIME_DIR");
        let r = BaseDirectories {
            home_dir: home,
            shared_prefix: String::from_str(prefix),
            user_prefix: join_path(prefix, profile),
            data_home,
            config_home,
            cache_home,
            state_home,
            data_dirs,
            config_dirs,
            runtime_dir,
        };
        r
    }
}


/// A failure of an operation on [`BaseDirectories`].
#[derive(Debug, Clone)]
pub enum Error {
    /// No home directory is known, and the operation needs one.
    HomeMissing,
    /// The runtime directory could not be read: its path and what the
    /// filesystem reported.
    RuntimeDirInaccessible(String, String),
    /// The runtime directory grants access to the group or to others: its
    /// path and the permission bits observed.
    RuntimeDirInsecure(String, Permissions),
    /// No runtime directory is configured.
    RuntimeDirMissing,
}

/// The mathematical content of an [`Error`].
pub enum ErrorView {
    HomeMissing,
    RuntimeDirInaccessible(Seq<char>, Seq<char>),
    RuntimeDirInsecure(Seq<char>, u32),
    RuntimeDirMissing,
}

impl View for Error {
    type V = ErrorView;

    open spec fn view(&self) -> ErrorView {
        match self {
            Error::HomeMissing => ErrorView::HomeMissing,
            Error::RuntimeDirInaccessible(p, e) => ErrorView::RuntimeDirInaccessible(p@, e@),
            Error::RuntimeDirInsecure(p, m) => ErrorView::RuntimeDirInsecure(p@, m.0),
            Error::RuntimeDirMissing => ErrorView::RuntimeDirMissing,
        }
    }
}

impl Error {
    /// A short description of the failure.
    pub fn description(&self) -> (r: &'static str) {
        match self {
            Error::HomeMissing => "$HOME must be set",
            Error::RuntimeDirInaccessible(_, _) => "$XDG_RUNTIME_DIR must be accessible by the current user",
            Error::RuntimeDirInsecure(_, _) => "$XDG_RUNTIME_DIR must be secure: have permissions 0700",
            Error::RuntimeDirMissing => "$XDG_RUNTIME_DIR is not set",
        }
    }
}

/// What the filesystem showed of the runtime directory: either it could not
/// be listed or its metadata could not be read (with the reported failure),
/// or its permission bits.
#[derive(Debug, Clone)]
pub enum DirStatus {
    Inaccessible(String),
    Mode(u32),
}

/// The mathematical content of a [`DirStatus`].
pub enum DirStatusView {
    Inaccessible(Seq<char>),
    Mode(u32),
}

impl View for DirStatus {
    type V = DirStatusView;

    open spec fn view(&self) -> DirStatusView {
        match self {
            DirStatus::Inaccessible(e) => DirStatusView::Inaccessible(e@),
            DirStatus::Mode(m) => DirStatusView::Mode(*m),
        }
    }
}

/// The outcome of the runtime directory guard for the configured directory
/// `rt` and what the filesystem showed of it.
pub open spec fn spec_runtime_directory(rt: Option<Seq<char>>, status: DirStatusView) -> Result<
    Seq<char>,
    ErrorView,
> {
    match rt {
        None => Err(ErrorView::RuntimeDirMissing),
        Some(p) => match status {
            DirStatusView::Inaccessible(e) => Err(ErrorView::RuntimeDirInaccessible(p, e)),
            DirStatusView::Mode(m) => if Permissions(m).spec_only_owner() {
                Ok(p)
            } else {
                Err(ErrorView::RuntimeDirInsecure(p, m))
            },
        },
    }
}

pub open spec fn result_view<T: View>(r: Result<T, Error>) -> Result<T::V, ErrorView> {
    match r {
        Ok(v) => Ok(v@),
        Err(e) => Err(e@),
    }
}

pub open spec fn spec_is_ok<A, B>(r: Result<A, B>) -> bool {
    r is Ok
}

/// The path `path` under the root `root` and the prefix `prefix`, as the
/// `get_*` operations compute it.
pub open spec fn spec_under(root: Seq<char>, prefix: Seq<char>, path: Seq<char>) -> Seq<char> {
    spec_join(root, spec_join(prefix, path))
}

/// [`spec_under`] for a root that may be missing.
pub open spec fn spec_opt_under(root: Option<Seq<char>>, prefix: Seq<char>, path: Seq<char>) -> Option<
    Seq<char>,
> {
    match root {
        Some(h) => Some(spec_under(h, prefix, path)),
        None => None,
    }
}

/// A root that must be present, or `HomeMissing`.
pub open spec fn spec_require_home(root: Option<Seq<char>>) -> Result<Seq<char>, ErrorView> {
    match root {
        Some(h) => Ok(h),
        None => Err(ErrorView::HomeMissing),
    }
}

/// The name of what `std::path::Path::parent` returns for a path.
pub uninterp spec fn path_parent(p: Seq<char>) -> Option<Seq<char>>;

/// Relies on `std::path::Path::parent`: the path without its final
/// component, and nothing for an empty path.
#[verifier::external_body]
fn parent_of(p: &str) -> (r: Option<String>)
    ensures
        opt_view(r) == path_parent(p@),
        p@.len() == 0 ==> r is None,
{
    match std::path::Path::new(p).parent() {
        Some(q) => Some(q.to_string_lossy().into_owned()),
        None => None,
    }
}

/// Where a file is placed: the directory to create first, and the file's path.
#[derive(Debug, Clone)]
pub struct Placement {
    pub directory: String,
    pub path: String,
}

/// The mathematical content of a [`Placement`].
pub struct PlacementView {
    pub directory: Seq<char>,
    pub path: Seq<char>,
}

impl View for Placement {
    type V = PlacementView;

    open spec fn view(&self) -> PlacementView {
        PlacementView { directory: self.directory@, path: self.path@ }
    }
}

/// The placement of `path` under `root`, after the prefix `prefix`: the
/// directory to create is `root` joined with the parent of the prefixed
/// path, or `root` itself when that has no parent.
pub open spec fn spec_placement(root: Seq<char>, prefix: Seq<char>, path: Seq<char>) -> PlacementView {
    let rel = spec_join(prefix, path);
    PlacementView {
        directory: match path_parent(rel) {
            Some(q) => spec_join(root, q),
            None => root,
        },
        path: spec_join(root, rel),
    }
}

pub open spec fn spec_opt_placement(
    root: Result<Seq<char>, ErrorView>,
    prefix: Seq<char>,
    path: Seq<char>,
) -> Result<PlacementView, ErrorView> {
    match root {
        Ok(h) => Ok(spec_placement(h, prefix, path)),
        Err(e) => Err(e),
    }
}

/// The placement of `path` under `root`, after the prefix `prefix`.
fn placement(root: &str, prefix: &str, path: &str) -> (r: Placement)
    ensures
        r@ == spec_placement(root@, prefix@, path@),
{
    let rel = join_path(prefix, path);
    let directory = match parent_of(rel.as_str()) {
        Some(q) => join_path(root, q.as_str()),
        None => String::from_str(root),
    };
    Placement { directory, path: join_path(root, rel.as_str()) }
}

/// The candidates of a search for `path`, highest priority first: under the
/// home-rooted directory with `user_prefix` (when there is one), then under
/// each system-wide directory with `shared_prefix`.
pub open spec fn spec_search_paths(
    home: Option<Seq<char>>,
    dirs: Seq<Seq<char>>,
    user_prefix: Seq<char>,
    shared_prefix: Seq<char>,
    path: Seq<char>,
) -> Seq<Seq<char>> {
    let system = dirs.map_values(|d: Seq<char>| spec_join(spec_join(d, shared_prefix), path));
    match home {
        Some(h) => seq![spec_join(spec_join(h, user_prefix), path)] + system,
        None => system,
    }
}

/// Whether the `i`-th probe reported an existing file; probes beyond the end
/// report nothing.
pub open spec fn spec_found(exists: Seq<bool>, i: int) -> bool {
    0 <= i < exists.len() && exists[i]
}

/// The first of `cs`, from index `i` on, whose probe reported an existing file.
pub open spec fn spec_first_existing(cs: Seq<Seq<char>>, exists: Seq<bool>, i: int) -> Option<
    Seq<char>,
>
    decreases cs.len() - i,
{
    if i < 0 || i >= cs.len() {
        None
    } else if spec_found(exists, i) {
        Some(cs[i])
    } else {
        spec_first_existing(cs, exists, i + 1)
    }
}

/// The first candidate that exists, given `exists[i]` for
/// whether `candidates[i]` exists.
pub fn read_file(candidates: &Vec<String>, exists: &Vec<bool>) -> (r: Option<String>)
    ensures
        opt_view(r) == spec_first_existing(views(candidates@), exists@, 0),
{
    let mut i: usize = 0;
    while i < candidates.len()
        invariant
            i <= candidates@.len(),
            spec_first_existing(views(candidates@), exists@, 0) == spec_first_existing(
                views(candidates@),
                exists@,
                i as int,
            ),
        decreases candidates.len() - i,
    {
        if i < exists.len() && exists[i] {
            return Some(candidates[i].clone());
        }
        i = i + 1;
    }
    None
}

/// The candidates for `path`, highest priority first.
fn search_paths(
    home: &Option<String>,
    dirs: &Vec<String>,
    user_prefix: &str,
    shared_prefix: &str,
    path: &str,
) -> (r: Vec<String>)
    ensures
        views(r@) == spec_search_paths(
            opt_view(*home),
            views(dirs@),
            user_prefix@,
            shared_prefix@,
            path@,
        ),
{
    let mut r: Vec<String> = Vec::new();
    match home {
        Some(h) => {
            let base = join_path(h.as_str(), user_prefix);
            r.push(join_path(base.as_str(), path));
        },
        None => {},
    }
    let ghost start = views(r@);
    let mut i: usize = 0;
    while i < dirs.len()
        invariant
            i <= dirs@.len(),
            views(r@) == start + views(dirs@).subrange(0, i as int).map_values(
                |d: Seq<char>| spec_join(spec_join(d, shared_prefix@), path@),
            ),
        decreases dirs.len() - i,
    {
        let base = join_path(dirs[i].as_str(), shared_prefix);
        let ghost before = r@;
        let c = join_path(base.as_str(), path);
        r.push(c);
        proof {
            assert(views(r@) =~= views(before).push(c@));
            assert(views(dirs@).subrange(0, i + 1) =~= views(dirs@).subrange(0, i as int).push(
                dirs@[i as int]@,
            ));
            assert(views(r@) =~= start + views(dirs@).subrange(0, i + 1).map_values(
                |d: Seq<char>| spec_join(spec_join(d, shared_prefix@), path@),
            ));
        }
        i = i + 1;
    }
    proof {
        assert(views(dirs@).subrange(0, dirs@.len() as int) =~= views(dirs@));
        assert(views(r@) =~= spec_search_paths(
            opt_view(*home),
            views(dirs@),
            user_prefix@,
            shared_prefix@,
            path@,
        ));
    }
    r
}


/// `root` joined with `prefix`, for a root that may be missing.
pub open spec fn spec_opt_join(root: Option<Seq<char>>, prefix: Seq<char>) -> Option<Seq<char>> {
    match root {
        Some(h) => Some(spec_join(h, prefix)),
        None => None,
    }
}

/// The directory `path` under a root that must be present.
pub open spec fn spec_directory(
    root: Result<Seq<char>, ErrorView>,
    prefix: Seq<char>,
    path: Seq<char>,
) -> Result<Seq<char>, ErrorView> {
    match root {
        Ok(h) => Ok(spec_under(h, prefix, path)),
        Err(e) => Err(e),
    }
}

/// The names read from each directory, as plain sequences.
pub open spec fn name_views(names: Seq<Vec<String>>) -> Seq<Seq<Seq<char>>> {
    names.map_values(|v: Vec<String>| views(v@))
}

/// The entries found in `dir` from the names read there, each paired with
/// its name; nothing when no names were read.
pub open spec fn spec_entries_in(dir: Seq<char>, names: Seq<Seq<Seq<char>>>, i: int) -> Seq<
    (Seq<char>, Seq<char>),
> {
    if 0 <= i < names.len() {
        names[i].map_values(|n: Seq<char>| (n, spec_join(dir, n)))
    } else {
        Seq::empty()
    }
}

/// Every entry of the listed directories, each paired with its name: the
/// entries of `dirs[0]` first, then those of `dirs[1]`, and so on.
pub open spec fn spec_named_listing(dirs: Seq<Seq<char>>, names: Seq<Seq<Seq<char>>>) -> Seq<
    (Seq<char>, Seq<char>),
>
    decreases dirs.len(),
{
    if dirs.len() == 0 {
        Seq::empty()
    } else {
        spec_named_listing(dirs.drop_last(), names) + spec_entries_in(
            dirs.last(),
            names,
            dirs.len() - 1,
        )
    }
}

pub open spec fn spec_paths_of(es: Seq<(Seq<char>, Seq<char>)>) -> Seq<Seq<char>> {
    es.map_values(|e: (Seq<char>, Seq<char>)| e.1)
}

pub open spec fn spec_names_of(es: Seq<(Seq<char>, Seq<char>)>) -> Seq<Seq<char>> {
    es.map_values(|e: (Seq<char>, Seq<char>)| e.0)
}

/// Every entry of the listed directories.
pub open spec fn spec_listing(dirs: Seq<Seq<char>>, names: Seq<Seq<Seq<char>>>) -> Seq<Seq<char>> {
    spec_paths_of(spec_named_listing(dirs, names))
}

/// The entries of `es` whose name does not occur earlier in `es`.
pub open spec fn spec_first_of_each_name(es: Seq<(Seq<char>, Seq<char>)>) -> Seq<
    (Seq<char>, Seq<char>),
>
    decreases es.len(),
{
    if es.len() == 0 {
        Seq::empty()
    } else if spec_names_of(es.drop_last()).contains(es.last().0) {
        spec_first_of_each_name(es.drop_last())
    } else {
        spec_first_of_each_name(es.drop_last()).push(es.last())
    }
}

/// The entries of the listed directories, keeping only the first entry of
/// each name.
pub open spec fn spec_listing_once(dirs: Seq<Seq<char>>, names: Seq<Seq<Seq<char>>>) -> Seq<
    Seq<char>,
> {
    spec_paths_of(spec_first_of_each_name(spec_named_listing(dirs, names)))
}

proof fn lemma_push_contains(s: Seq<Seq<char>>, x: Seq<char>, n: Seq<char>)
    ensures
        s.push(x).contains(n) == (s.contains(n) || x == n),
{
    if s.push(x).contains(n) {
        let k = choose|k: int| 0 <= k < s.push(x).len() && s.push(x)[k] == n;
        if k < s.len() {
            assert(s[k] == n);
        }
    }
    if s.contains(n) {
        let k = choose|k: int| 0 <= k < s.len() && s[k] == n;
        assert(s.push(x)[k] == n);
    }
    if x == n {
        assert(s.push(x)[s.len() as int] == n);
    }
}

/// A name occurs among the entries kept by [`spec_first_of_each_name`]
/// exactly when it occurs among all entries.
pub proof fn lemma_first_of_each_name_names(es: Seq<(Seq<char>, Seq<char>)>, n: Seq<char>)
    ensures
        spec_names_of(spec_first_of_each_name(es)).contains(n) == spec_names_of(es).contains(n),
    decreases es.len(),
{
    if es.len() > 0 {
        let init = es.drop_last();
        let x = es.last().0;
        lemma_first_of_each_name_names(init, n);
        assert(spec_names_of(es) =~= spec_names_of(init).push(x));
        lemma_push_contains(spec_names_of(init), x, n);
        let kept = spec_first_of_each_name(init);
        if !spec_names_of(init).contains(x) {
            assert(spec_names_of(kept.push(es.last())) =~= spec_names_of(kept).push(x));
            lemma_push_contains(spec_names_of(kept), x, n);
        }
    }
}

/// Flattens the names read from each of `dirs` into the entries found.
fn named_listing(dirs: &Vec<String>, names: &Vec<Vec<String>>) -> (r: Vec<(String, String)>)
    ensures
        r@.map_values(|e: (String, String)| (e.0@, e.1@)) == spec_named_listing(
            views(dirs@),
            name_views(names@),
        ),
{
    let mut r: Vec<(String, String)> = Vec::new();
    let mut i: usize = 0;
    while i < dirs.len()
        invariant
            i <= dirs@.len(),
            r@.map_values(|e: (String, String)| (e.0@, e.1@)) == spec_named_listing(
                views(dirs@).subrange(0, i as int),
                name_views(names@),
            ),
        decreases dirs.len() - i,
    {
        let ghost before = r@.map_values(|e: (String, String)| (e.0@, e.1@));
        let ghost entries = spec_entries_in(dirs@[i as int]@, name_views(names@), i as int);
        proof {
            let d = views(dirs@).subrange(0, i + 1);
            assert(d.drop_last() =~= views(dirs@).subrange(0, i as int));
            assert(d.last() == dirs@[i as int]@);
        }
        if i < names.len() {
            let list = &names[i];
            let mut j: usize = 0;
            while j < list.len()
                invariant
                    i < names@.len(),
                    i < dirs@.len(),
                    list == names@[i as int],
                    j <= list@.len(),
                    entries == views(list@).map_values(
                        |n: Seq<char>| (n, spec_join(dirs@[i as int]@, n)),
                    ),
                    r@.map_values(|e: (String, String)| (e.0@, e.1@)) == before + entries.subrange(
                        0,
                        j as int,
                    ),
                decreases list.len() - j,
            {
                let ghost prev = r@;
                let path = join_path(dirs[i].as_str(), list[j].as_str());
                let entry = (list[j].clone(), path);
                r.push(entry);
                proof {
                    assert(r@.map_values(|e: (String, String)| (e.0@, e.1@)) =~= prev.map_values(
                        |e: (String, String)| (e.0@, e.1@),
                    ).push((entry.0@, entry.1@)));
                    assert(entries.subrange(0, j + 1) =~= entries.subrange(0, j as int).push(
                        entries[j as int],
                    ));
                }
                j = j + 1;
            }
            proof {
                assert(entries.subrange(0, list@.len() as int) =~= entries);
            }
        } else {
            proof {
                assert(entries =~= Seq::<(Seq<char>, Seq<char>)>::empty());
                assert(before + entries =~= before);
            }
        }
        i = i + 1;
    }
    proof {
        assert(views(dirs@).subrange(0, dirs@.len() as int) =~= views(dirs@));
    }
    r
}

/// Whether `n` is one of `names`.
fn contains_name(names: &Vec<String>, n: &str) -> (r: bool)
    ensures
        r == views(names@).contains(n@),
{
    let mut i: usize = 0;
    while i < names.len()
        invariant
            i <= names@.len(),
            forall|k: int| 0 <= k < i ==> names@[k]@ != n@,
        decreases names.len() - i,
    {
        if same_text(names[i].as_str(), n) {
            assert(views(names@)[i as int] == n@);
            return true;
        }
        i = i + 1;
    }
    proof {
        if views(names@).contains(n@) {
            let k = choose|k: int| 0 <= k < views(names@).len() && views(names@)[k] == n@;
            assert(names@[k]@ == n@);
        }
    }
    false
}

/// Every entry found in `dirs`, given the names read from each.
pub fn list_files(dirs: &Vec<String>, names: &Vec<Vec<String>>) -> (r: Vec<String>)
    ensures
        views(r@) == spec_listing(views(dirs@), name_views(names@)),
{
    let entries = named_listing(dirs, names);
    let mut r: Vec<String> = Vec::new();
    let mut i: usize = 0;
    let ghost ev = entries@.map_values(|e: (String, String)| (e.0@, e.1@));
    while i < entries.len()
        invariant
            i <= entries@.len(),
            ev == entries@.map_values(|e: (String, String)| (e.0@, e.1@)),
            views(r@) == spec_paths_of(ev.subrange(0, i as int)),
        decreases entries.len() - i,
    {
        let ghost prev = r@;
        r.push(entries[i].1.clone());
        proof {
            assert(views(r@) =~= views(prev).push(entries@[i as int].1@));
            assert(ev.subrange(0, i + 1) =~= ev.subrange(0, i as int).push(ev[i as int]));
            assert(spec_paths_of(ev.subrange(0, i + 1)) =~= spec_paths_of(
                ev.subrange(0, i as int),
            ).push(ev[i as int].1));
        }
        i = i + 1;
    }
    proof {
        assert(ev.subrange(0, entries@.len() as int) =~= ev);
    }
    r
}

/// Like [`list_files`], keeping only the first entry of
/// each name.
pub fn list_files_once(dirs: &Vec<String>, names: &Vec<Vec<String>>) -> (r: Vec<String>)
    ensures
        views(r@) == spec_listing_once(views(dirs@), name_views(names@)),
{
    let entries = named_listing(dirs, names);
    let ghost ev = entries@.map_values(|e: (String, String)| (e.0@, e.1@));
    let mut r: Vec<String> = Vec::new();
    let mut seen: Vec<String> = Vec::new();
    let mut i: usize = 0;
    while i < entries.len()
        invariant
            i <= entries@.len(),
            ev == entries@.map_values(|e: (String, String)| (e.0@, e.1@)),
            views(r@) == spec_paths_of(spec_first_of_each_name(ev.subrange(0, i as int))),
            views(seen@) == spec_names_of(spec_first_of_each_name(ev.subrange(0, i as int))),
        decreases entries.len() - i,
    {
        let ghost pre = ev.subrange(0, i as int);
        let ghost next = ev.subrange(0, i + 1);
        proof {
            assert(next.drop_last() =~= pre);
            assert(next.last() == ev[i as int]);
            lemma_first_of_each_name_names(pre, ev[i as int].0);
        }
        let name = &entries[i].0;
        if !contains_name(&seen, name.as_str()) {
            let ghost prev_r = r@;
            let ghost prev_seen = seen@;
            r.push(entries[i].1.clone());
            seen.push(name.clone());
            proof {
                let kept = spec_first_of_each_name(pre);
                assert(spec_first_of_each_name(next) == kept.push(ev[i as int]));
                assert(views(r@) =~= views(prev_r).push(entries@[i as int].1@));
                assert(views(seen@) =~= views(prev_seen).push(entries@[i as int].0@));
                assert(spec_paths_of(kept.push(ev[i as int])) =~= spec_paths_of(kept).push(
                    ev[i as int].1,
                ));
                assert(spec_names_of(kept.push(ev[i as int])) =~= spec_names_of(kept).push(
                    ev[i as int].0,
                ));
            }
        }
        i = i + 1;
    }
    proof {
        assert(ev.subrange(0, entries@.len() as int) =~= ev);
    }
    r
}


/// A two-ended cursor over the candidates of a search, lowest priority
/// first. Each step hands out one candidate path; whether it exists is for
/// the caller to probe. Steps from the two ends meet in the middle, after
/// which both ends are exhausted.
pub struct FileFindIterator {
    search_dirs: Vec<String>,
    front: usize,
    back: usize,
    relpath: String,
}

impl View for FileFindIterator {
    type V = Seq<Seq<char>>;

    /// The candidates not yet handed out, lowest priority first.
    closed spec fn view(&self) -> Seq<Seq<char>> {
        views(self.search_dirs@).subrange(self.front as int, self.back as int).map_values(
            |d: Seq<char>| spec_join(d, self.relpath@),
        )
    }
}

impl FileFindIterator {
    #[verifier::type_invariant]
    spec fn inv(&self) -> bool {
        self.front <= self.back <= self.search_dirs@.len()
    }

    /// The candidates for `path`, lowest priority
    /// first: the system-wide directories from last to first, then the
    /// home-rooted directory.
    fn new(
        home: &Option<String>,
        dirs: &Vec<String>,
        user_prefix: &str,
        shared_prefix: &str,
        path: &str,
    ) -> (r: FileFindIterator)
        ensures
            r@ == spec_search_paths(
                opt_view(*home),
                views(dirs@),
                user_prefix@,
                shared_prefix@,
                path@,
            ).reverse(),
    {
        let mut search_dirs: Vec<String> = Vec::new();
        let n = dirs.len();
        let mut k: usize = n;
        while k > 0
            invariant
                k <= n,
                n == dirs@.len(),
                search_dirs@.len() == n - k,
                forall|j: int|
                    0 <= j < n - k ==> #[trigger] search_dirs@[j]@ == spec_join(
                        dirs@[n - 1 - j]@,
                        shared_prefix@,
                    ),
            decreases k,
        {
            k = k - 1;
            search_dirs.push(join_path(dirs[k].as_str(), shared_prefix));
        }
        let m = search_dirs.len();
        match home {
            Some(h) => search_dirs.push(join_path(h.as_str(), user_prefix)),
            None => {},
        }
        let r = FileFindIterator {
            front: 0,
            back: search_dirs.len(),
            search_dirs,
            relpath: String::from_str(path),
        };
        proof {
            let s = spec_search_paths(
                opt_view(*home),
                views(dirs@),
                user_prefix@,
                shared_prefix@,
                path@,
            );
            let sd = views(r.search_dirs@);
            assert(sd.subrange(0, sd.len() as int) =~= sd);
            match home {
                Some(h) => {
                    assert(s.len() == n + 1);
                    assert forall|j: int| 0 <= j < s.len() implies #[trigger] r@[j] == s.reverse()[j] by {
                        if j < n {
                            assert(r.search_dirs@[j]@ == spec_join(dirs@[n - 1 - j]@, shared_prefix@));
                            assert(s[s.len() - 1 - j] == s.subrange(1, s.len() as int)[n - 1 - j]);
                        }
                    }
                },
                None => {
                    assert forall|j: int| 0 <= j < s.len() implies #[trigger] r@[j] == s.reverse()[j] by {
                        assert(r.search_dirs@[j]@ == spec_join(dirs@[n - 1 - j]@, shared_prefix@));
                    }
                },
            }
            assert(r@ =~= s.reverse());
        }
        r
    }

    /// Hands out the lowest-priority candidate not yet handed out.
    pub fn next_candidate(&mut self) -> (r: Option<String>)
        ensures
            old(self)@.len() == 0 ==> r is None && final(self)@ == old(self)@,
            old(self)@.len() > 0 ==> opt_view(r) == Some(old(self)@[0]) && final(self)@
                == old(self)@.drop_first(),
    {
        proof {
            use_type_invariant(&*self);
        }
        if self.front < self.back {
            let c = join_path(self.search_dirs[self.front].as_str(), self.relpath.as_str());
            let ghost before = self@;
            self.front = self.front + 1;
            proof {
                assert(self@ =~= before.drop_first());
            }
            Some(c)
        } else {
            None
        }
    }

    /// Hands out the highest-priority candidate not yet handed out.
    pub fn next_back_candidate(&mut self) -> (r: Option<String>)
        ensures
            old(self)@.len() == 0 ==> r is None && final(self)@ == old(self)@,
            old(self)@.len() > 0 ==> opt_view(r) == Some(old(self)@.last()) && final(self)@
                == old(self)@.drop_last(),
    {
        proof {
            use_type_invariant(&*self);
        }
        if self.front < self.back {
            let c = join_path(self.search_dirs[self.back - 1].as_str(), self.relpath.as_str());
            let ghost before = self@;
            self.back = self.back - 1;
            proof {
                assert(self@ =~= before.drop_last());
            }
            Some(c)
        } else {
            None
        }
    }

    /// How many candidates are left.
    pub fn remaining(&self) -> (r: usize)
        ensures
            r == self@.len(),
    {
        proof {
            use_type_invariant(self);
        }
        self.back - self.front
    }
}


fn opt_under(root: &Option<String>, prefix: &str, path: &str) -> (r: Option<String>)
    ensures
        opt_view(r) == spec_opt_under(opt_view(*root), prefix@, path@),
{
    match root {
        Some(h) => {
            let rel = join_path(prefix, path);
            Some(join_path(h.as_str(), rel.as_str()))
        },
        None => None,
    }
}

fn opt_join(root: &Option<String>, prefix: &str) -> (r: Option<String>)
    ensures
        opt_view(r) == spec_opt_join(opt_view(*root), prefix@),
{
    match root {
        Some(h) => Some(join_path(h.as_str(), prefix)),
        None => None,
    }
}

fn require_home(root: &Option<String>) -> (r: Result<&String, Error>)
    ensures
        result_view(r) == spec_require_home(opt_view(*root)),
{
    match root {
        Some(h) => Ok(h),
        None => Err(Error::HomeMissing),
    }
}

fn place_in(root: Result<&String, Error>, prefix: &str, path: &str) -> (r: Result<Placement, Error>)
    ensures
        result_view(r) == spec_opt_placement(result_view(root), prefix@, path@),
{
    match root {
        Ok(h) => Ok(placement(h.as_str(), prefix, path)),
        Err(e) => Err(e),
    }
}

/// The directory `path` under a root that must be present.
fn directory_in(root: Result<&String, Error>, prefix: &str, path: &str) -> (r: Result<String, Error>)
    ensures
        result_view(r) == spec_directory(result_view(root), prefix@, path@),
{
    match root {
        Ok(h) => {
            let rel = join_path(prefix, path);
            Ok(join_path(h.as_str(), rel.as_str()))
        },
        Err(e) => Err(e),
    }
}

/// Each of `dirs` joined with `prefix`.
fn joined_all(dirs: &Vec<String>, prefix: &str) -> (r: Vec<String>)
    ensures
        views(r@) == views(dirs@).map_values(|d: Seq<char>| spec_join(d, prefix@)),
{
    let mut r: Vec<String> = Vec::new();
    let mut i: usize = 0;
    while i < dirs.len()
        invariant
            i <= dirs@.len(),
            views(r@) == views(dirs@).subrange(0, i as int).map_values(
                |d: Seq<char>| spec_join(d, prefix@),
            ),
        decreases dirs.len() - i,
    {
        let ghost before = r@;
        let c = join_path(dirs[i].as_str(), prefix);
        r.push(c);
        proof {
            assert(views(r@) =~= views(before).push(c@));
            assert(views(dirs@).subrange(0, i + 1) =~= views(dirs@).subrange(0, i as int).push(
                dirs@[i as int]@,
            ));
            assert(views(r@) =~= views(dirs@).subrange(0, i + 1).map_values(
                |d: Seq<char>| spec_join(d, prefix@),
            ));
        }
        i = i + 1;
    }
    proof {
        assert(views(dirs@).subrange(0, dirs@.len() as int) =~= views(dirs@));
    }
    r
}

/// The runtime directory when the guard accepts it, as a search root.
fn runtime_root(dirs: &BaseDirectories, status: &DirStatus) -> (r: Option<String>)
    ensures
        opt_view(r) == match spec_runtime_directory(dirs@.runtime_dir, status@) {
            Ok(d) => Some(d),
            Err(_) => None,
        },
{
    match dirs.get_runtime_directory(status) {
        Ok(d) => Some(d.clone()),
        Err(_) => None,
    }
}

impl BaseDirectories {
    /// The runtime directory, checked against what the filesystem showed of
    /// it: it must be configured, readable, and accessible to its owner only.
    pub fn get_runtime_directory(&self, status: &DirStatus) -> (r: Result<&String, Error>)
        ensures
            result_view(r) == spec_runtime_directory(self@.runtime_dir, status@),
    {
        match &self.runtime_dir {
            None => Err(Error::RuntimeDirMissing),
            Some(dir) => match status {
                DirStatus::Inaccessible(e) => Err(Error::RuntimeDirInaccessible(dir.clone(), e.clone())),
                DirStatus::Mode(m) => {
                    let perms = Permissions(*m);
                    if perms.is_only_owner_full_control() {
                        Ok(dir)
                    } else {
                        Err(Error::RuntimeDirInsecure(dir.clone(), perms))
                    }
                },
            },
        }
    }

    /// Whether the runtime directory passes its guard.
    pub fn has_runtime_directory(&self, status: &DirStatus) -> (r: bool)
        ensures
            r == spec_is_ok(spec_runtime_directory(self@.runtime_dir, status@)),
    {
        self.get_runtime_directory(status).is_ok()
    }

    /// `path` under the runtime directory, when the guard accepts it.
    pub fn get_runtime_file(&self, status: &DirStatus, path: &str) -> (r: Result<String, Error>)
        ensures
            result_view(r) == spec_directory(
                spec_runtime_directory(self@.runtime_dir, status@),
                self@.user_prefix,
                path@,
            ),
    {
        directory_in(self.get_runtime_directory(status), self.user_prefix.as_str(), path)
    }

    /// Where to place `path` under the runtime directory, when the guard
    /// accepts it.
    pub fn place_runtime_file(&self, status: &DirStatus, path: &str) -> (r: Result<Placement, Error>)
        ensures
            result_view(r) == spec_opt_placement(
                spec_runtime_directory(self@.runtime_dir, status@),
                self@.user_prefix,
                path@,
            ),
    {
        place_in(self.get_runtime_directory(status), self.user_prefix.as_str(), path)
    }

    /// The candidates for `path` under the runtime directory: one when the
    /// guard accepts it, none otherwise.
    pub fn runtime_search_paths(&self, status: &DirStatus, path: &str) -> (r: Vec<String>)
        ensures
            views(r@) == spec_search_paths(
                match spec_runtime_directory(self@.runtime_dir, status@) {
                    Ok(d) => Some(d),
                    Err(_) => None,
                },
                Seq::empty(),
                self@.user_prefix,
                self@.shared_prefix,
                path@,
            ),
    {
        let root = runtime_root(self, status);
        let none: Vec<String> = Vec::new();
        proof {
            assert(views(none@) =~= Seq::<Seq<char>>::empty());
        }
        search_paths(&root, &none, self.user_prefix.as_str(), self.shared_prefix.as_str(), path)
    }

    /// The existing runtime file `path`, given whether each candidate of
    /// [`BaseDirectories::runtime_search_paths`] exists; nothing when the guard
    /// rejects the runtime directory.
    pub fn find_runtime_file(&self, status: &DirStatus, path: &str, exists: &Vec<bool>) -> (r:
        Option<String>)
        ensures
            opt_view(r) == spec_first_existing(
                spec_search_paths(
                    match spec_runtime_directory(self@.runtime_dir, status@) {
                        Ok(d) => Some(d),
                        Err(_) => None,
                    },
                    Seq::empty(),
                    self@.user_prefix,
                    self@.shared_prefix,
                    path@,
                ),
                exists@,
                0,
            ),
    {
        let candidates = self.runtime_search_paths(status, path);
        read_file(&candidates, exists)
    }

    /// The runtime directory `path`, to be created, when the guard accepts
    /// the runtime directory.
    pub fn create_runtime_directory(&self, status: &DirStatus, path: &str) -> (r: Result<
        String,
        Error,
    >)
        ensures
            result_view(r) == spec_directory(
                spec_runtime_directory(self@.runtime_dir, status@),
                self@.user_prefix,
                path@,
            ),
    {
        directory_in(self.get_runtime_directory(status), self.user_prefix.as_str(), path)
    }

    /// Every entry of the runtime directory `path`, given the names read
    /// there; nothing when the guard rejects the runtime directory.
    pub fn list_runtime_files(&self, status: &DirStatus, path: &str, names: &Vec<Vec<String>>) -> (r:
        Vec<String>)
        ensures
            views(r@) == spec_listing(
                spec_search_paths(
                    match spec_runtime_directory(self@.runtime_dir, status@) {
                        Ok(d) => Some(d),
                        Err(_) => None,
                    },
                    Seq::empty(),
                    self@.user_prefix,
                    self@.shared_prefix,
                    path@,
                ),
                name_views(names@),
            ),
    {
        let dirs = self.runtime_search_paths(status, path);
        list_files(&dirs, names)
    }

    /// `path` under the config home and the user prefix; nothing without a home.
    pub fn get_config_file(&self, path: &str) -> (r: Option<String>)
        ensures
            opt_view(r) == spec_opt_under(self@.config_home, self@.user_prefix, path@),
    {
        opt_under(&self.config_home, self.user_prefix.as_str(), path)
    }

    /// Where to place the config file `path`: the same path as
    /// [`BaseDirectories::get_config_file`], and the directory to create first.
    pub fn place_config_file(&self, path: &str) -> (r: Result<Placement, Error>)
        ensures
            result_view(r) == spec_opt_placement(
                spec_require_home(self@.config_home),
                self@.user_prefix,
                path@,
            ),
    {
        place_in(require_home(&self.config_home), self.user_prefix.as_str(), path)
    }

    /// The candidates for the config file `path`, highest priority first.
    pub fn config_search_paths(&self, path: &str) -> (r: Vec<String>)
        ensures
            views(r@) == spec_search_paths(
                self@.config_home,
                self@.config_dirs,
                self@.user_prefix,
                self@.shared_prefix,
                path@,
            ),
    {
        search_paths(
            &self.config_home,
            &self.config_dirs,
            self.user_prefix.as_str(),
            self.shared_prefix.as_str(),
            path,
        )
    }

    /// The existing config file `path` of highest priority, given whether each
    /// candidate of [`BaseDirectories::config_search_paths`] exists.
    pub fn find_config_file(&self, path: &str, exists: &Vec<bool>) -> (r: Option<String>)
        ensures
            opt_view(r) == spec_first_existing(
                spec_search_paths(
                    self@.config_home,
                    self@.config_dirs,
                    self@.user_prefix,
                    self@.shared_prefix,
                    path@,
                ),
                exists@,
                0,
            ),
    {
        let candidates = self.config_search_paths(path);
        read_file(&candidates, exists)
    }

    /// The config directory `path`, to be created; fails without a home.
    pub fn create_config_directory(&self, path: &str) -> (r: Result<String, Error>)
        ensures
            result_view(r) == spec_directory(
                spec_require_home(self@.config_home),
                self@.user_prefix,
                path@,
            ),
    {
        directory_in(require_home(&self.config_home), self.user_prefix.as_str(), path)
    }

    /// Every entry of the config directories `path`, given the names read from
    /// each candidate of [`BaseDirectories::config_search_paths`].
    pub fn list_config_files(&self, path: &str, names: &Vec<Vec<String>>) -> (r: Vec<String>)
        ensures
            views(r@) == spec_listing(
                spec_search_paths(
                    self@.config_home,
                    self@.config_dirs,
                    self@.user_prefix,
                    self@.shared_prefix,
                    path@,
                ),
                name_views(names@),
            ),
    {
        let dirs = self.config_search_paths(path);
        list_files(&dirs, names)
    }

    /// The config home with the user prefix; nothing without a home.
    pub fn get_config_home(&self) -> (r: Option<String>)
        ensures
            opt_view(r) == spec_opt_join(self@.config_home, self@.user_prefix),
    {
        opt_join(&self.config_home, self.user_prefix.as_str())
    }

    /// Like [`BaseDirectories::list_config_files`], keeping only the first entry
    /// of each name.
    pub fn list_config_files_once(&self, path: &str, names: &Vec<Vec<String>>) -> (r: Vec<String>)
        ensures
            views(r@) == spec_listing_once(
                spec_search_paths(
                    self@.config_home,
                    self@.config_dirs,
                    self@.user_prefix,
                    self@.shared_prefix,
                    path@,
                ),
                name_views(names@),
            ),
    {
        let dirs = self.config_search_paths(path);
        list_files_once(&dirs, names)
    }

    /// The candidates for the config file `path` as a two-ended cursor, lowest
    /// priority first.
    pub fn find_config_files(&self, path: &str) -> (r: FileFindIterator)
        ensures
            r@ == spec_search_paths(
                self@.config_home,
                self@.config_dirs,
                self@.user_prefix,
                self@.shared_prefix,
                path@,
            ).reverse(),
    {
        FileFindIterator::new(
            &self.config_home,
            &self.config_dirs,
            self.user_prefix.as_str(),
            self.shared_prefix.as_str(),
            path,
        )
    }

    /// The system-wide config directories with the shared prefix, highest
    /// priority first.
    pub fn get_config_dirs(&self) -> (r: Vec<String>)
        ensures
            views(r@) == self@.config_dirs.map_values(|d: Seq<char>| spec_join(d, self@.shared_prefix)),
    {
        joined_all(&self.config_dirs, self.shared_prefix.as_str())
    }

    /// `path` under the data home and the user prefix; nothing without a home.
    pub fn get_data_file(&self, path: &str) -> (r: Option<String>)
        ensures
            opt_view(r) == spec_opt_under(self@.data_home, self@.user_prefix, path@),
    {
        opt_under(&self.data_home, self.user_prefix.as_str(), path)
    }

    /// Where to place the data file `path`: the same path as
    /// [`BaseDirectories::get_data_file`], and the directory to create first.
    pub fn place_data_file(&self, path: &str) -> (r: Result<Placement, Error>)
        ensures
            result_view(r) == spec_opt_placement(
                spec_require_home(self@.data_home),
                self@.user_prefix,
                path@,
            ),
    {
        place_in(require_home(&self.data_home), self.user_prefix.as_str(), path)
    }

    /// The candidates for the data file `path`, highest priority first.
    pub fn data_search_paths(&self, path: &str) -> (r: Vec<String>)
        ensures
            views(r@) == spec_search_paths(
                self@.data_home,
                self@.data_dirs,
                self@.user_prefix,
                self@.shared_prefix,
                path@,
            ),
    {
        search_paths(
            &self.data_home,
            &self.data_dirs,
            self.user_prefix.as_str(),
            self.shared_prefix.as_str(),
            path,
        )
    }

    /// The existing data file `path` of highest priority, given whether each
    /// candidate of [`BaseDirectories::data_search_paths`] exists.
    pub fn find_data_file(&self, path: &str, exists: &Vec<bool>) -> (r: Option<String>)
        ensures
            opt_view(r) == spec_first_existing(
                spec_search_paths(
                    self@.data_home,
                    self@.data_dirs,
                    self@.user_prefix,
                    self@.shared_prefix,
                    path@,
                ),
                exists@,
                0,
            ),
    {
        let candidates = self.data_search_paths(path);
        read_file(&candidates, exists)
    }

    /// The data directory `path`, to be created; fails without a home.
    pub fn create_data_directory(&self, path: &str) -> (r: Result<String, Error>)
        ensures
            result_view(r) == spec_directory(
                spec_require_home(self@.data_home),
                self@.user_prefix,
                path@,
            ),
    {
        directory_in(require_home(&self.data_home), self.user_prefix.as_str(), path)
    }

    /// Every entry of the data directories `path`, given the names read from
    /// each candidate of [`BaseDirectories::data_search_paths`].
    pub fn list_data_files(&self, path: &str, names: &Vec<Vec<String>>) -> (r: Vec<String>)
        ensures
            views(r@) == spec_listing(
                spec_search_paths(
                    self@.data_home,
                    self@.data_dirs,
                    self@.user_prefix,
                    self@.shared_prefix,
                    path@,
                ),
                name_views(names@),
            ),
    {
        let dirs = self.data_search_paths(path);
        list_files(&dirs, names)
    }

    /// The data home with the user prefix; nothing without a home.
    pub fn get_data_home(&self) -> (r: Option<String>)
        ensures
            opt_view(r) == spec_opt_join(self@.data_home, self@.user_prefix),
    {
        opt_join(&self.data_home, self.user_prefix.as_str())
    }

    /// Like [`BaseDirectories::list_data_files`], keeping only the first entry
    /// of each name.
    pub fn list_data_files_once(&self, path: &str, names: &Vec<Vec<String>>) -> (r: Vec<String>)
        ensures
            views(r@) == spec_listing_once(
                spec_search_paths(
                    self@.data_home,
                    self@.data_dirs,
                    self@.user_prefix,
                    self@.shared_prefix,
                    path@,
                ),
                name_views(names@),
            ),
    {
        let dirs = self.data_search_paths(path);
        list_files_once(&dirs, names)
    }

    /// The candidates for the data file `path` as a two-ended cursor, lowest
    /// priority first.
    pub fn find_data_files(&self, path: &str) -> (r: FileFindIterator)
        ensures
            r@ == spec_search_paths(
                self@.data_home,
                self@.data_dirs,
                self@.user_prefix,
                self@.shared_prefix,
                path@,
            ).reverse(),
    {
        FileFindIterator::new(
            &self.data_home,
            &self.data_dirs,
            self.user_prefix.as_str(),
            self.shared_prefix.as_str(),
            path,
        )
    }

    /// The system-wide data directories with the shared prefix, highest
    /// priority first.
    pub fn get_data_dirs(&self) -> (r: Vec<String>)
        ensures
            views(r@) == self@.data_dirs.map_values(|d: Seq<char>| spec_join(d, self@.shared_prefix)),
    {
        joined_all(&self.data_dirs, self.shared_prefix.as_str())
    }

    /// `path` under the cache home and the user prefix; nothing without a home.
    pub fn get_cache_file(&self, path: &str) -> (r: Option<String>)
        ensures
            opt_view(r) == spec_opt_under(self@.cache_home, self@.user_prefix, path@),
    {
        opt_under(&self.cache_home, self.user_prefix.as_str(), path)
    }

    /// Where to place the cache file `path`: the same path as
    /// [`BaseDirectories::get_cache_file`], and the directory to create first.
    pub fn place_cache_file(&self, path: &str) -> (r: Result<Placement, Error>)
        ensures
            result_view(r) == spec_opt_placement(
                spec_require_home(self@.cache_home),
                self@.user_prefix,
                path@,
            ),
    {
        place_in(require_home(&self.cache_home), self.user_prefix.as_str(), path)
    }

    /// The candidates for the cache file `path`, highest priority first.
    pub fn cache_search_paths(&self, path: &str) -> (r: Vec<String>)
        ensures
            views(r@) == spec_search_paths(
                self@.cache_home,
                Seq::empty(),
                self@.user_prefix,
                self@.shared_prefix,
                path@,
            ),
    {
        let none: Vec<String> = Vec::new();
        proof {
            assert(views(none@) =~= Seq::<Seq<char>>::empty());
        }
        search_paths(&self.cache_home, &none, self.user_prefix.as_str(), self.shared_prefix.as_str(), path)
    }

    /// The existing cache file `path` of highest priority, given whether each
    /// candidate of [`BaseDirectories::cache_search_paths`] exists.
    pub fn find_cache_file(&self, path: &str, exists: &Vec<bool>) -> (r: Option<String>)
        ensures
            opt_view(r) == spec_first_existing(
                spec_search_paths(
                    self@.cache_home,
                    Seq::empty(),
                    self@.user_prefix,
                    self@.shared_prefix,
                    path@,
                ),
                exists@,
                0,
            ),
    {
        let candidates = self.cache_search_paths(path);
        read_file(&candidates, exists)
    }

    /// The cache directory `path`, to be created; fails without a home.
    pub fn create_cache_directory(&self, path: &str) -> (r: Result<String, Error>)
        ensures
            result_view(r) == spec_directory(
                spec_require_home(self@.cache_home),
                self@.user_prefix,
                path@,
            ),
    {
        directory_in(require_home(&self.cache_home), self.user_prefix.as_str(), path)
    }

    /// Every entry of the cache directories `path`, given the names read from
    /// each candidate of [`BaseDirectories::cache_search_paths`].
    pub fn list_cache_files(&self, path: &str, names: &Vec<Vec<String>>) -> (r: Vec<String>)
        ensures
            views(r@) == spec_listing(
                spec_search_paths(
                    self@.cache_home,
                    Seq::empty(),
                    self@.user_prefix,
                    self@.shared_prefix,
                    path@,
                ),
                name_views(names@),
            ),
    {
        let dirs = self.cache_search_paths(path);
        list_files(&dirs, names)
    }

    /// The cache home with the user prefix; nothing without a home.
    pub fn get_cache_home(&self) -> (r: Option<String>)
        ensures
            opt_view(r) == spec_opt_join(self@.cache_home, self@.user_prefix),
    {
        opt_join(&self.cache_home, self.user_prefix.as_str())
    }

    /// `path` under the state home and the user prefix; nothing without a home.
    pub fn get_state_file(&self, path: &str) -> (r: Option<String>)
        ensures
            opt_view(r) == spec_opt_under(self@.state_home, self@.user_prefix, path@),
    {
        opt_under(&self.state_home, self.user_prefix.as_str(), path)
    }

    /// Where to place the state file `path`: the same path as
    /// [`BaseDirectories::get_state_file`], and the directory to create first.
    pub fn place_state_file(&self, path: &str) -> (r: Result<Placement, Error>)
        ensures
            result_view(r) == spec_opt_placement(
                spec_require_home(self@.state_home),
                self@.user_prefix,
                path@,
            ),
    {
        place_in(require_home(&self.state_home), self.user_prefix.as_str(), path)
    }

    /// The candidates for the state file `path`, highest priority first.
    pub fn state_search_paths(&self, path: &str) -> (r: Vec<String>)
        ensures
            views(r@) == spec_search_paths(
                self@.state_home,
                Seq::empty(),
                self@.user_prefix,
                self@.shared_prefix,
                path@,
            ),
    {
        let none: Vec<String> = Vec::new();
        proof {
            assert(views(none@) =~= Seq::<Seq<char>>::empty());
        }
        search_paths(&self.state_home, &none, self.user_prefix.as_str(), self.shared_prefix.as_str(), path)
    }

    /// The existing state file `path` of highest priority, given whether each
    /// candidate of [`BaseDirectories::state_search_paths`] exists.
    pub fn find_state_file(&self, path: &str, exists: &Vec<bool>) -> (r: Option<String>)
        ensures
            opt_view(r) == spec_first_existing(
                spec_search_paths(
                    self@.state_home,
                    Seq::empty(),
                    self@.user_prefix,
                    self@.shared_prefix,
                    path@,
                ),
                exists@,
                0,
            ),
    {
        let candidates = self.state_search_paths(path);
        read_file(&candidates, exists)
    }

    /// The state directory `path`, to be created; fails without a home.
    pub fn create_state_directory(&self, path: &str) -> (r: Result<String, Error>)
        ensures
            result_view(r) == spec_directory(
                spec_require_home(self@.state_home),
                self@.user_prefix,
                path@,
            ),
    {
        directory_in(require_home(&self.state_home), self.user_prefix.as_str(), path)
    }

    /// Every entry of the state directories `path`, given the names read from
    /// each candidate of [`BaseDirectories::state_search_paths`].
    pub fn list_state_files(&self, path: &str, names: &Vec<Vec<String>>) -> (r: Vec<String>)
        ensures
            views(r@) == spec_listing(
                spec_search_paths(
                    self@.state_home,
                    Seq::empty(),
                    self@.user_prefix,
                    self@.shared_prefix,
                    path@,
                ),
                name_views(names@),
            ),
    {
        let dirs = self.state_search_paths(path);
        list_files(&dirs, names)
    }

    /// The state home with the user prefix; nothing without a home.
    pub fn get_state_home(&self) -> (r: Option<String>)
        ensures
            opt_view(r) == spec_opt_join(self@.state_home, self@.user_prefix),
    {
        opt_join(&self.state_home, self.user_prefix.as_str())
    }
}

} // verus!

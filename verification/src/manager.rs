//! The state of one install run and the decisions of its tasks: whether a
//! package is still to be installed, where its record comes from, what is
//! written down once it stands, and which packages follow from it.

use crate::claims::{
    claimed, claims_contains, claims_first, claims_insert, claims_new, claims_remove, lists_scripts,
    no_claims, no_scripts, scripts_held, scripts_insert, scripts_is_empty, scripts_list,
    scripts_new,
};
use crate::installer::Installer;
use crate::name_map::{has_name, text_pairs, value_of, NameMap};
use crate::output::{format_install_progress, progress_text};
use crate::platform::{is_version_platform_compatible, platform_allows, Platform};
use crate::registry::{lookup_target, parse_package_alias, PackageAlias, Registry};
use crate::text::{chars_of, join2, pair_texts, texts};
use crate::types::{
    clone_bin, clone_text, opt_bin, opt_text, BinField, BinView, LockFile, LockPackage,
    LockPackageView, PackageJson, RegistryVersion,
};
use crate::version::{lock_satisfies, lock_serves};
use vstd::prelude::*;
use vstd::string::*;

verus! {

/// How many requests to the registry may be under way at once.
pub const FETCH_PERMITS: usize = 50;

/// How many install scripts may run at once.
pub const POSTINSTALL_PERMITS: usize = 10;

/// The format of the lockfile that is written.
pub const LOCKFILE_VERSION: u32 = 3;

/// What a task knows of the package it installs, from the lockfile or from
/// the registry.
pub struct ResolvedPackage {
    pub version: String,
    pub tarball: String,
    pub dependencies: NameMap<String>,
    pub peer_dependencies: NameMap<String>,
    pub optional_dependencies: NameMap<String>,
    pub postinstall: Option<String>,
    pub bin: Option<BinField>,
}

/// What a resolved package says, as texts.
pub struct ResolvedView {
    pub version: Seq<char>,
    pub tarball: Seq<char>,
    pub dependencies: Seq<(Seq<char>, Seq<char>)>,
    pub peer_dependencies: Seq<(Seq<char>, Seq<char>)>,
    pub optional_dependencies: Seq<(Seq<char>, Seq<char>)>,
    pub postinstall: Option<Seq<char>>,
    pub bin: Option<BinView>,
}

impl View for ResolvedPackage {
    type V = ResolvedView;

    open spec fn view(&self) -> ResolvedView {
        ResolvedView {
            version: self.version@,
            tarball: self.tarball@,
            dependencies: text_pairs(self.dependencies@),
            peer_dependencies: text_pairs(self.peer_dependencies@),
            optional_dependencies: text_pairs(self.optional_dependencies@),
            postinstall: opt_text(self.postinstall),
            bin: opt_bin(self.bin),
        }
    }
}

/// What a lock entry tells a task.
pub open spec fn of_lock_entry(e: LockPackageView) -> ResolvedView {
    ResolvedView {
        version: e.version,
        tarball: e.resolved,
        dependencies: e.dependencies,
        peer_dependencies: e.peer_dependencies,
        optional_dependencies: e.optional_dependencies,
        postinstall: e.postinstall,
        bin: e.bin,
    }
}

/// The lock entry that is written for an installed package.
pub open spec fn as_lock_entry(p: ResolvedView) -> LockPackageView {
    LockPackageView {
        version: p.version,
        resolved: p.tarball,
        integrity: None,
        dependencies: p.dependencies,
        peer_dependencies: p.peer_dependencies,
        optional_dependencies: p.optional_dependencies,
        postinstall: p.postinstall,
        bin: p.bin,
    }
}

/// The script that is run after a version is installed: its `postinstall`
/// script, or else its `install` script.
pub open spec fn install_script(scripts: Seq<(Seq<char>, String)>) -> Option<Seq<char>> {
    if has_name(scripts, "postinstall"@) {
        Some(value_of(scripts, "postinstall"@)@)
    } else if has_name(scripts, "install"@) {
        Some(value_of(scripts, "install"@)@)
    } else {
        None
    }
}

/// What a version record of the registry tells a task.
pub open spec fn of_registry_version(v: RegistryVersion) -> ResolvedView {
    ResolvedView {
        version: v.version@,
        tarball: v.dist.tarball@,
        dependencies: text_pairs(v.dependencies@),
        peer_dependencies: text_pairs(v.peer_dependencies@),
        optional_dependencies: text_pairs(v.optional_dependencies@),
        postinstall: install_script(v.scripts@),
        bin: opt_bin(v.bin),
    }
}

/// The name under which the lockfile records the package installed as
/// `name`.
pub open spec fn lock_key_of(name: Seq<char>) -> Seq<char> {
    "node_modules/"@ + name
}

/// The name under which the lockfile records the package installed as
/// `name`.
pub fn lock_key(name: &str) -> (k: String)
    ensures
        k@ == lock_key_of(name@),
{
    join2("node_modules/", name)
}

/// What a task proceeds with, given a lock entry that serves its range.
pub fn resolved_from_lock(entry: &LockPackage) -> (p: ResolvedPackage)
    ensures
        p@ == of_lock_entry(entry@),
{
    ResolvedPackage {
        version: entry.version.clone(),
        tarball: entry.resolved.clone(),
        dependencies: entry.dependencies.duplicate(),
        peer_dependencies: entry.peer_dependencies.duplicate(),
        optional_dependencies: entry.optional_dependencies.duplicate(),
        postinstall: clone_text(&entry.postinstall),
        bin: clone_bin(&entry.bin),
    }
}

/// What a task proceeds with, given the version that the registry's record
/// offers for its range.
pub fn resolved_from_registry(version: &RegistryVersion) -> (p: ResolvedPackage)
    ensures
        p@ == of_registry_version(*version),
{
    let postinstall = match version.scripts.get("postinstall") {
        Some(s) => Some(s.clone()),
        None => match version.scripts.get("install") {
            Some(s) => Some(s.clone()),
            None => None,
        },
    };
    ResolvedPackage {
        version: version.version.clone(),
        tarball: version.dist.tarball.clone(),
        dependencies: version.dependencies.duplicate(),
        peer_dependencies: version.peer_dependencies.duplicate(),
        optional_dependencies: version.optional_dependencies.duplicate(),
        postinstall,
        bin: clone_bin(&version.bin),
    }
}

/// Where the record of a package comes from.
pub enum TaskPlan {
    /// The name is claimed: there is nothing to do.
    AlreadyInstalled,
    /// The lockfile holds a version that serves the range.
    FromLockfile(ResolvedPackage),
    /// The registry has to be asked for this name and range.
    Fetch { name: String, range: String },
}

/// How placing a package under `node_modules` ended.
#[derive(PartialEq, Eq, Structural, Clone, Copy, Debug)]
pub enum InstallOutcome {
    /// The package was copied from the store.
    Installed,
    /// The package stood there already.
    AlreadyPresent,
    /// The package could not be placed.
    Failed,
}

/// The state of one install run.
pub struct Manager {
    pub registry: Registry,
    pub installer: Installer,
    pub installed: dashmap::DashMap<String, String>,
    pub lockfile: LockFile,
    pub postinstalls: dashmap::DashMap<String, (String, String)>,
    pub auto_confirm: bool,
    pub ignore_scripts: bool,
    pub packages_installed: usize,
    pub packages_resolved: usize,
    pub packages_cached: usize,
    pub current_packages: dashmap::DashMap<String, String>,
}

/// The entries of a lockfile by their names.
pub open spec fn lock_map(s: Seq<(Seq<char>, LockPackage)>) -> Map<Seq<char>, LockPackageView> {
    Map::new(|k: Seq<char>| has_name(s, k), |k: Seq<char>| value_of(s, k)@)
}

/// The state of an install run, as plain values.
pub struct ManagerView {
    pub claims: Map<Seq<char>, Seq<char>>,
    pub lock_name: Seq<char>,
    pub lock_version: Seq<char>,
    pub lock: Map<Seq<char>, LockPackageView>,
    pub scripts: Map<Seq<char>, (Seq<char>, Seq<char>)>,
    pub auto_confirm: bool,
    pub ignore_scripts: bool,
    pub installed: usize,
    pub resolved: usize,
    pub cached: usize,
    pub current: Map<Seq<char>, Seq<char>>,
}

impl View for Manager {
    type V = ManagerView;

    open spec fn view(&self) -> ManagerView {
        ManagerView {
            claims: claimed(self.installed),
            lock_name: self.lockfile.name@,
            lock_version: self.lockfile.version@,
            lock: lock_map(self.lockfile.packages@),
            scripts: scripts_held(self.postinstalls),
            auto_confirm: self.auto_confirm,
            ignore_scripts: self.ignore_scripts,
            installed: self.packages_installed,
            resolved: self.packages_resolved,
            cached: self.packages_cached,
            current: claimed(self.current_packages),
        }
    }
}

/// A lockfile without entries.
pub fn empty_lockfile() -> (l: LockFile)
    ensures
        l.name@.len() == 0,
        l.version@.len() == 0,
        l.lockfile_version == LOCKFILE_VERSION,
        l.packages@.len() == 0,
{
    LockFile {
        name: String::new(),
        version: String::new(),
        lockfile_version: LOCKFILE_VERSION,
        packages: NameMap::new(),
    }
}

/// The state before anything is claimed, locked or counted.
pub open spec fn initial_view(auto_confirm: bool, ignore_scripts: bool) -> ManagerView {
    ManagerView {
        claims: no_claims(),
        lock_name: Seq::empty(),
        lock_version: Seq::empty(),
        lock: Map::empty(),
        scripts: no_scripts(),
        auto_confirm,
        ignore_scripts,
        installed: 0,
        resolved: 0,
        cached: 0,
        current: no_claims(),
    }
}

/// The state after the lockfile found on disk was taken over.
pub open spec fn after_load(s: ManagerView, found: Option<LockFile>) -> ManagerView {
    match found {
        Some(l) => ManagerView {
            lock_name: l.name@,
            lock_version: l.version@,
            lock: lock_map(l.packages@),
            ..s
        },
        None => ManagerView {
            lock_name: Seq::empty(),
            lock_version: Seq::empty(),
            lock: Map::empty(),
            ..s
        },
    }
}

/// Which record a task for `name` and `range` proceeds with in the state
/// `s`: none where the name is claimed, the lock entry where it serves the
/// range, else what the registry is to be asked for.
pub open spec fn is_plan(s: ManagerView, name: Seq<char>, range: Seq<char>, plan: TaskPlan) -> bool {
    let key = lock_key_of(name);
    if s.claims.contains_key(name) {
        plan is AlreadyInstalled
    } else if s.lock.contains_key(key) && lock_serves(s.lock[key].version, range) {
        plan matches TaskPlan::FromLockfile(p) && p@ == of_lock_entry(s.lock[key])
    } else {
        plan matches TaskPlan::Fetch { name: n, range: r } && (n@, r@) == lookup_target(name, range)
    }
}

/// The state after a claim of `name` for `version`: a name claimed before
/// keeps its version.
pub open spec fn after_claim(s: ManagerView, name: Seq<char>, version: Seq<char>) -> ManagerView {
    ManagerView {
        claims: if s.claims.contains_key(name) {
            s.claims
        } else {
            s.claims.insert(name, version)
        },
        resolved: s.resolved.wrapping_add(1),
        ..s
    }
}

/// The state after the package claimed as `name` was placed, or was not.
pub open spec fn after_settle(
    s: ManagerView,
    name: Seq<char>,
    p: ResolvedView,
    install_path: Seq<char>,
    outcome: InstallOutcome,
) -> ManagerView {
    match outcome {
        InstallOutcome::Failed => s,
        InstallOutcome::AlreadyPresent => ManagerView {
            cached: s.cached.wrapping_add(1),
            lock: s.lock.insert(lock_key_of(name), as_lock_entry(p)),
            ..s
        },
        InstallOutcome::Installed => ManagerView {
            installed: s.installed.wrapping_add(1),
            scripts: match p.postinstall {
                Some(command) => s.scripts.insert(name, (install_path, command)),
                None => s.scripts,
            },
            lock: s.lock.insert(lock_key_of(name), as_lock_entry(p)),
            ..s
        },
    }
}

/// A name is claimed once: a second claim leaves the first in place.
pub proof fn lemma_claimed_once(s: ManagerView, name: Seq<char>, first: Seq<char>, second: Seq<char>)
    ensures
        after_claim(s, name, first).claims.contains_key(name),
        after_claim(after_claim(s, name, first), name, second).claims == after_claim(
            s,
            name,
            first,
        ).claims,
{
}

/// A task that takes its record from the lockfile installs a version that
/// serves its range.
pub proof fn lemma_locked_version_serves(
    s: ManagerView,
    name: Seq<char>,
    range: Seq<char>,
    plan: TaskPlan,
)
    requires
        is_plan(s, name, range, plan),
        plan is FromLockfile,
    ensures
        lock_serves(plan->FromLockfile_0@.version, range),
{
}

/// A package declared under an alias is recorded and installed under the
/// declared name, while the registry is asked for the aliased one.
pub proof fn lemma_alias_keeps_declared_name(
    s: ManagerView,
    declared: Seq<char>,
    actual: Seq<char>,
    wanted: Seq<char>,
    plan: TaskPlan,
    p: ResolvedView,
    install_path: Seq<char>,
)
    requires
        crate::registry::is_alias_name(actual),
        is_plan(s, declared, crate::registry::alias_text(actual, wanted), plan),
        plan is Fetch,
    ensures
        plan->Fetch_name@ == actual,
        plan->Fetch_range@ == wanted,
        after_claim(s, declared, p.version).claims.contains_key(declared),
        after_settle(s, declared, p, install_path, InstallOutcome::Installed).lock.contains_key(
            lock_key_of(declared),
        ),
{
    crate::registry::lemma_alias_names_target(declared, actual, wanted);
}

/// Recording a package a second time changes nothing in the lockfile.
pub proof fn lemma_relock_changes_nothing(
    s: ManagerView,
    name: Seq<char>,
    p: ResolvedView,
    install_path: Seq<char>,
)
    ensures
        after_settle(
            after_settle(s, name, p, install_path, InstallOutcome::Installed),
            name,
            p,
            install_path,
            InstallOutcome::AlreadyPresent,
        ).lock == after_settle(s, name, p, install_path, InstallOutcome::Installed).lock,
{
    let once = after_settle(s, name, p, install_path, InstallOutcome::Installed);
    let twice = after_settle(once, name, p, install_path, InstallOutcome::AlreadyPresent);
    assert(twice.lock =~= once.lock);
}

/// Where every declared package stands on disk in its locked version, a
/// run has nothing to install.
pub proof fn lemma_nothing_to_install(
    lock: Map<Seq<char>, LockPackageView>,
    on_disk: Seq<(Seq<char>, String)>,
    deps: Seq<(Seq<char>, Seq<char>)>,
)
    requires
        forall|i: int| 0 <= i < deps.len() ==> up_to_date(lock, on_disk, (#[trigger] deps[i]).0),
    ensures
        pick(deps, is_stale(lock, on_disk)).len() == 0,
    decreases deps.len(),
{
    if deps.len() > 0 {
        let front = deps.drop_last();
        assert forall|i: int| 0 <= i < front.len() implies up_to_date(
            lock,
            on_disk,
            (#[trigger] front[i]).0,
        ) by {
            assert(front[i] == deps[i]);
        }
        lemma_nothing_to_install(lock, on_disk, front);
        assert(up_to_date(lock, on_disk, deps[deps.len() - 1].0));
    }
}

/// Whether an optional dependency is installed: its name is not claimed
/// and the version found for it runs on the platform.
pub open spec fn optional_admitted(
    s: ManagerView,
    name: Seq<char>,
    record: RegistryVersion,
    platform: Platform,
) -> bool {
    !s.claims.contains_key(name) && platform_allows(
        texts(record.os@),
        texts(record.cpu@),
        platform.os@,
        platform.cpu@,
    )
}

/// Whether `msg` is the progress message of the state `s` that names the
/// package `picked` with what is done to it: one of those that are worked
/// on, or none where none is.
pub open spec fn shows_progress(
    s: ManagerView,
    msg: Seq<char>,
    picked: Option<(Seq<char>, Seq<char>)>,
) -> bool {
    match picked {
        Some(entry) => {
            &&& s.current.contains_key(entry.0)
            &&& s.current[entry.0] == entry.1
            &&& msg == progress_text(
                s.resolved as nat,
                s.installed as nat,
                s.cached as nat,
                Some(entry.1 + " "@ + entry.0),
            )
        },
        None => {
            &&& s.current == no_claims()
            &&& msg == progress_text(s.resolved as nat, s.installed as nat, s.cached as nat, None)
        },
    }
}

/// An optional dependency whose lists of operating systems and processors
/// leave the platform out is not installed.
pub proof fn lemma_excluded_optional_is_left_out(
    s: ManagerView,
    name: Seq<char>,
    record: RegistryVersion,
    platform: Platform,
)
    requires
        !platform_allows(texts(record.os@), texts(record.cpu@), platform.os@, platform.cpu@),
    ensures
        !optional_admitted(s, name, record, platform),
{
}

/// The pairs of `s` that `keep` accepts, in their order.
pub open spec fn pick(
    s: Seq<(Seq<char>, Seq<char>)>,
    keep: spec_fn((Seq<char>, Seq<char>)) -> bool,
) -> Seq<(Seq<char>, Seq<char>)>
    decreases s.len(),
{
    if s.len() == 0 {
        Seq::empty()
    } else {
        let rest = pick(s.drop_last(), keep);
        if keep(s.last()) {
            rest.push(s.last())
        } else {
            rest
        }
    }
}

/// Accepts the dependencies whose name is not claimed.
pub open spec fn not_claimed(claims: Map<Seq<char>, Seq<char>>) -> spec_fn(
    (Seq<char>, Seq<char>),
) -> bool {
    |d: (Seq<char>, Seq<char>)| !claims.contains_key(d.0)
}

/// The packages that follow from an installed one and are installed with
/// it: its dependencies, and those of its peer dependencies whose name is
/// not claimed.
pub open spec fn children_of(s: ManagerView, p: ResolvedView) -> Seq<(Seq<char>, Seq<char>)> {
    p.dependencies + pick(p.peer_dependencies, not_claimed(s.claims))
}

/// What is to be asked of the registry before an optional dependency is
/// installed: nothing where its name is claimed, else the name and range
/// that it stands for.
pub open spec fn is_optional_plan(
    s: ManagerView,
    name: Seq<char>,
    range: Seq<char>,
    r: Option<PackageAlias>,
) -> bool {
    if s.claims.contains_key(name) {
        r is None
    } else {
        r matches Some(t) && (t.actual_name@, t.version_range@) == lookup_target(name, range)
    }
}

/// The dependencies that a manifest declares for an install: the regular
/// ones, then those for development.
pub open spec fn declared(m: PackageJson) -> Seq<(Seq<char>, Seq<char>)> {
    text_pairs(m.dependencies@) + text_pairs(m.dev_dependencies@)
}

/// Whether the package installed as `name` needs no work: the lockfile
/// holds it and the version found on disk is the locked one.
pub open spec fn up_to_date(
    lock: Map<Seq<char>, LockPackageView>,
    on_disk: Seq<(Seq<char>, String)>,
    name: Seq<char>,
) -> bool {
    &&& lock.contains_key(lock_key_of(name))
    &&& has_name(on_disk, name)
    &&& value_of(on_disk, name)@ == lock[lock_key_of(name)].version
}

/// Accepts the dependencies that need work.
pub open spec fn is_stale(
    lock: Map<Seq<char>, LockPackageView>,
    on_disk: Seq<(Seq<char>, String)>,
) -> spec_fn((Seq<char>, Seq<char>)) -> bool {
    |d: (Seq<char>, Seq<char>)| !up_to_date(lock, on_disk, d.0)
}

/// The claims after the dependencies that need no work were claimed for
/// their locked versions.
pub open spec fn with_fresh_claims(
    claims: Map<Seq<char>, Seq<char>>,
    lock: Map<Seq<char>, LockPackageView>,
    on_disk: Seq<(Seq<char>, String)>,
    deps: Seq<(Seq<char>, Seq<char>)>,
) -> Map<Seq<char>, Seq<char>>
    decreases deps.len(),
{
    if deps.len() == 0 {
        claims
    } else {
        let rest = with_fresh_claims(claims, lock, on_disk, deps.drop_last());
        let name = deps.last().0;
        if up_to_date(lock, on_disk, name) {
            rest.insert(name, lock[lock_key_of(name)].version)
        } else {
            rest
        }
    }
}

/// Accepts the dependencies that the lockfile resolves: it holds their name
/// with a version that serves the range.
pub open spec fn lock_ready(lock: Map<Seq<char>, LockPackageView>) -> spec_fn(
    (Seq<char>, Seq<char>),
) -> bool {
    |d: (Seq<char>, Seq<char>)|
        lock.contains_key(lock_key_of(d.0)) && lock_serves(lock[lock_key_of(d.0)].version, d.1)
}

/// Accepts the dependencies that the registry has to be asked for.
pub open spec fn needs_fetch(lock: Map<Seq<char>, LockPackageView>) -> spec_fn(
    (Seq<char>, Seq<char>),
) -> bool {
    |d: (Seq<char>, Seq<char>)| !lock_ready(lock)(d)
}

/// The order in which dependencies are scheduled: those that the lockfile
/// resolves first, then the others, each group in its own order.
pub open spec fn lazy_order(lock: Map<Seq<char>, LockPackageView>, deps: Seq<(Seq<char>, Seq<char>)>) -> Seq<
    (Seq<char>, Seq<char>),
> {
    pick(deps, lock_ready(lock)) + pick(deps, needs_fetch(lock))
}

/// What a run has to install, and how many declared packages need no work.
pub struct InstallSet {
    pub to_install: Vec<(String, String)>,
    pub up_to_date: usize,
}

/// Whether the character is white space.
pub open spec fn is_space(c: char) -> bool {
    c == ' ' || ('\u{9}' <= c && c <= '\u{d}') || c == '\u{85}' || c == '\u{a0}' || c == '\u{1680}'
        || ('\u{2000}' <= c && c <= '\u{200a}') || c == '\u{2028}' || c == '\u{2029}' || c
        == '\u{202f}' || c == '\u{205f}' || c == '\u{3000}'
}

/// Whether an answer is a yes: the letter `y`, small or capital, with
/// nothing but white space around it.
pub open spec fn is_yes(answer: Seq<char>) -> bool {
    exists|i: int|
        0 <= i < answer.len() && (#[trigger] answer[i] == 'y' || answer[i] == 'Y') && forall|j: int|
            0 <= j < answer.len() && j != i ==> is_space(#[trigger] answer[j])
}

/// Whether the scripts that wait are run: never where scripts are switched
/// off, else where the user need not be asked or has said yes.
pub open spec fn scripts_run(s: ManagerView, confirmed: bool) -> bool {
    !s.ignore_scripts && (s.auto_confirm || confirmed)
}

fn space(c: char) -> (r: bool)
    ensures
        r == is_space(c),
{
    c == ' ' || ('\u{9}' <= c && c <= '\u{d}') || c == '\u{85}' || c == '\u{a0}' || c == '\u{1680}'
        || ('\u{2000}' <= c && c <= '\u{200a}') || c == '\u{2028}' || c == '\u{2029}' || c
        == '\u{202f}' || c == '\u{205f}' || c == '\u{3000}'
}

/// Whether the user's answer to the question if scripts may run is a yes.
pub fn confirms(answer: &str) -> (r: bool)
    ensures
        r == is_yes(answer@),
{
    let v = chars_of(answer);
    let mut found: Option<usize> = None;
    let mut i: usize = 0;
    while i < v.len()
        invariant
            i <= v.len(),
            v@ == answer@,
            found matches Some(p) ==> p < i && (v@[p as int] == 'y' || v@[p as int] == 'Y'),
            forall|j: int| 0 <= j < i && found != Some(j as usize) ==> is_space(#[trigger] v@[j]),
        decreases v.len() - i,
    {
        if !space(v[i]) {
            if found.is_none() && (v[i] == 'y' || v[i] == 'Y') {
                found = Some(i);
            } else {
                proof {
                    if is_yes(answer@) {
                        let w = choose|w: int|
                            0 <= w < answer@.len() && (#[trigger] answer@[w] == 'y' || answer@[w]
                                == 'Y') && forall|j: int|
                                0 <= j < answer@.len() && j != w ==> is_space(
                                    #[trigger] answer@[j],
                                );
                        if w != i {
                            assert(is_space(answer@[i as int]));
                        } else {
                            let p = found->0;
                            assert(is_space(answer@[p as int]));
                        }
                    }
                }
                return false;
            }
        }
        i += 1;
    }
    match found {
        Some(p) => {
            assert(answer@[p as int] == 'y' || answer@[p as int] == 'Y');
            true
        },
        None => {
            proof {
                if is_yes(answer@) {
                    let w = choose|w: int|
                        0 <= w < answer@.len() && (#[trigger] answer@[w] == 'y' || answer@[w] == 'Y')
                            && forall|j: int|
                            0 <= j < answer@.len() && j != w ==> is_space(#[trigger] answer@[j]);
                    assert(is_space(answer@[w]));
                }
            }
            false
        },
    }
}

/// Whether a script that could not be started is tried once more under the
/// command interpreter of Windows.
pub fn retry_with_cmd(spawn_failed: bool, on_windows: bool) -> (r: bool)
    ensures
        r == (spawn_failed && on_windows),
{
    spawn_failed && on_windows
}

impl Manager {
    /// The state at the start of a run.
    pub fn new(home: &str, force_no_cache: bool, auto_confirm: bool, ignore_scripts: bool) -> (m:
        Self)
        ensures
            m@ == initial_view(auto_confirm, ignore_scripts),
            m.installer.force_no_cache == force_no_cache,
            m.installer.cache_dir@ == home@ + "/.rpm/store"@,
    {
        let m = Manager {
            registry: Registry::new(),
            installer: Installer::new(home, force_no_cache),
            installed: claims_new(),
            lockfile: empty_lockfile(),
            postinstalls: scripts_new(),
            auto_confirm,
            ignore_scripts,
            packages_installed: 0,
            packages_resolved: 0,
            packages_cached: 0,
            current_packages: claims_new(),
        };
        assert(m@.lock =~= Map::empty());
        assert(m@.lock_name =~= Seq::empty());
        assert(m@.lock_version =~= Seq::empty());
        m
    }

    /// Sets the three counters of the run back to zero.
    pub fn reset_progress(&mut self)
        ensures
            final(self)@ == (ManagerView { installed: 0, resolved: 0, cached: 0, ..old(self)@ }),
    {
        self.packages_installed = 0;
        self.packages_resolved = 0;
        self.packages_cached = 0;
    }

    /// Mark a package as currently being processed
    pub fn set_current_package(&mut self, name: &str, status: &str)
        ensures
            final(self)@ == (ManagerView {
                current: old(self)@.current.insert(name@, status@),
                ..old(self)@
            }),
    {
        claims_insert(&mut self.current_packages, name.to_owned(), status.to_owned());
    }

    /// Remove a package from the current processing list
    pub fn clear_current_package(&mut self, name: &str)
        ensures
            final(self)@ == (ManagerView {
                current: old(self)@.current.remove(name@),
                ..old(self)@
            }),
    {
        claims_remove(&mut self.current_packages, name);
    }

    /// The message beside the spinner: the counters of the run and one of
    /// the packages that are worked on, with what is done to it.
    pub fn update_progress(&self) -> (msg: String)
        ensures
            exists|picked: Option<(Seq<char>, Seq<char>)>| #[trigger]
                shows_progress(self@, msg@, picked),
    {
        match claims_first(&self.current_packages) {
            Some(entry) => {
                let current = crate::text::join3(entry.1.as_str(), " ", entry.0.as_str());
                let msg = format_install_progress(
                    self.packages_resolved,
                    self.packages_installed,
                    self.packages_cached,
                    Some(current.as_str()),
                );
                assert(shows_progress(self@, msg@, Some((entry.0@, entry.1@))));
                msg
            },
            None => {
                let msg = format_install_progress(
                    self.packages_resolved,
                    self.packages_installed,
                    self.packages_cached,
                    None,
                );
                assert(shows_progress(self@, msg@, None));
                msg
            },
        }
    }

    /// Decides where the record of a package comes from.
    pub fn plan(&self, name: &str, range: &str) -> (plan: TaskPlan)
        ensures
            is_plan(self@, name@, range@, plan),
    {
        if claims_contains(&self.installed, name) {
            return TaskPlan::AlreadyInstalled;
        }
        let key = lock_key(name);
        match self.lockfile.packages.get(key.as_str()) {
            Some(entry) => {
                if lock_satisfies(entry.version.as_str(), range) {
                    return TaskPlan::FromLockfile(resolved_from_lock(entry));
                }
            },
            None => {},
        }
        match parse_package_alias(range) {
            Some(alias) => TaskPlan::Fetch { name: alias.actual_name, range: alias.version_range },
            None => TaskPlan::Fetch { name: name.to_owned(), range: range.to_owned() },
        }
    }

    /// Claims `name` for `version`, unless another task has claimed it. The
    /// task that gets `true` installs the package; every other one stops.
    pub fn claim(&mut self, name: &str, version: &str) -> (won: bool)
        ensures
            won == !old(self)@.claims.contains_key(name@),
            final(self)@ == after_claim(old(self)@, name@, version@),
    {
        self.packages_resolved = self.packages_resolved.wrapping_add(1);
        if claims_contains(&self.installed, name) {
            false
        } else {
            claims_insert(&mut self.installed, name.to_owned(), version.to_owned());
            true
        }
    }

    /// Writes down how placing the package claimed as `name` ended: counts
    /// it, keeps its install script for later where it was freshly placed,
    /// and records it in the lockfile. A package that could not be placed
    /// leaves no trace but its claim.
    pub fn settle(
        &mut self,
        name: &str,
        package: &ResolvedPackage,
        install_path: &str,
        outcome: InstallOutcome,
    ) -> (ok: bool)
        ensures
            ok == (outcome != InstallOutcome::Failed),
            final(self)@ == after_settle(old(self)@, name@, package@, install_path@, outcome),
    {
        match outcome {
            InstallOutcome::Failed => {
                return false;
            },
            InstallOutcome::AlreadyPresent => {
                self.packages_cached = self.packages_cached.wrapping_add(1);
            },
            InstallOutcome::Installed => {
                self.packages_installed = self.packages_installed.wrapping_add(1);
                match &package.postinstall {
                    Some(command) => {
                        scripts_insert(
                            &mut self.postinstalls,
                            name.to_owned(),
                            install_path.to_owned(),
                            command.clone(),
                        );
                    },
                    None => {},
                }
            },
        }
        let entry = LockPackage {
            version: package.version.clone(),
            resolved: package.tarball.clone(),
            integrity: None,
            dependencies: package.dependencies.duplicate(),
            peer_dependencies: package.peer_dependencies.duplicate(),
            optional_dependencies: package.optional_dependencies.duplicate(),
            postinstall: clone_text(&package.postinstall),
            bin: clone_bin(&package.bin),
        };
        assert(entry@ == as_lock_entry(package@));
        let ghost before = self.lockfile.packages@;
        let key = lock_key(name);
        self.lockfile.packages.insert(key, entry);
        proof {
            let after = self.lockfile.packages@;
            let target = lock_map(before).insert(lock_key_of(name@), as_lock_entry(package@));
            assert forall|k: Seq<char>| lock_map(after).contains_key(k) == target.contains_key(
                k,
            ) by {
                if k != lock_key_of(name@) {
                    assert(has_name(after, k) == has_name(before, k));
                }
            }
            assert forall|k: Seq<char>| lock_map(after).contains_key(k) implies lock_map(after)[k]
                == target[k] by {
                if k != lock_key_of(name@) {
                    assert(has_name(after, k) == has_name(before, k));
                    assert(value_of(after, k) == value_of(before, k));
                }
            }
            assert(lock_map(after) =~= lock_map(before).insert(
                lock_key_of(name@),
                as_lock_entry(package@),
            ));
        }
        true
    }
    /// Takes over the lockfile that was found on disk; one that could not
    /// be read as a lockfile counts as empty.
    pub fn load_lockfile(&mut self, found: Option<LockFile>)
        ensures
            final(self)@ == after_load(old(self)@, found),
            found matches Some(l) ==> final(self).lockfile == l,
            found is None ==> final(self).lockfile.lockfile_version == LOCKFILE_VERSION,
    {
        match found {
            Some(l) => {
                self.lockfile = l;
            },
            None => {
                self.lockfile = empty_lockfile();
                assert(lock_map(self.lockfile.packages@) =~= Map::empty());
                assert(self.lockfile.name@ =~= Seq::empty());
                assert(self.lockfile.version@ =~= Seq::empty());
            },
        }
    }

    /// Names the lockfile after the project before it is written.
    pub fn save_lockfile(&mut self, package_name: &str, package_version: &str)
        ensures
            final(self)@ == (ManagerView {
                lock_name: package_name@,
                lock_version: package_version@,
                ..old(self)@
            }),
            final(self).lockfile.packages == old(self).lockfile.packages,
            final(self).lockfile.lockfile_version == old(self).lockfile.lockfile_version,
    {
        self.lockfile.name = package_name.to_owned();
        self.lockfile.version = package_version.to_owned();
    }

    /// The packages that are installed together with an installed one.
    pub fn children(&self, package: &ResolvedPackage) -> (list: Vec<(String, String)>)
        ensures
            pair_texts(list@) == children_of(self@, package@),
    {
        let mut list = package.dependencies.pairs();
        let peers = package.peer_dependencies.pairs();
        let ghost first = pair_texts(list@);
        let ghost keep = not_claimed(self@.claims);
        let mut i: usize = 0;
        while i < peers.len()
            invariant
                i <= peers.len(),
                keep == not_claimed(self@.claims),
                pair_texts(list@) == first + pick(pair_texts(peers@).take(i as int), keep),
            decreases peers.len() - i,
        {
            proof {
                let next = pair_texts(peers@).take(i + 1);
                assert(next.drop_last() =~= pair_texts(peers@).take(i as int));
                assert(next.last() == (peers@[i as int].0@, peers@[i as int].1@));
            }
            if !claims_contains(&self.installed, peers[i].0.as_str()) {
                let ghost before = pair_texts(list@);
                list.push((peers[i].0.clone(), peers[i].1.clone()));
                assert(pair_texts(list@) =~= before.push((peers@[i as int].0@, peers@[i as int].1@)));
                assert(pair_texts(list@) =~= first + pick(pair_texts(peers@).take(i + 1), keep));
            }
            i += 1;
        }
        assert(pair_texts(peers@).take(peers.len() as int) =~= pair_texts(peers@));
        list
    }

    /// Decides what the registry is asked before an optional dependency is
    /// installed.
    pub fn plan_optional(&self, name: &str, range: &str) -> (r: Option<PackageAlias>)
        ensures
            is_optional_plan(self@, name@, range@, r),
    {
        if claims_contains(&self.installed, name) {
            return None;
        }
        match parse_package_alias(range) {
            Some(alias) => Some(alias),
            None => Some(
                PackageAlias { actual_name: name.to_owned(), version_range: range.to_owned() },
            ),
        }
    }

    /// Decides whether an optional dependency is installed, given the
    /// version that the registry offers for it: one that does not run on
    /// the platform is left out, and the state stays as it is.
    pub fn admit_optional(&self, name: &str, record: &RegistryVersion, platform: &Platform) -> (r:
        bool)
        ensures
            r == optional_admitted(self@, name@, *record, *platform),
    {
        !claims_contains(&self.installed, name) && is_version_platform_compatible(record, platform)
    }

    /// Compute which packages need to be installed: a declared package
    /// whose locked version is the one found on disk is claimed for that
    /// version and left alone.
    pub fn compute_packages_to_install(
        &mut self,
        package_json: &PackageJson,
        on_disk: &NameMap<String>,
    ) -> (r: InstallSet)
        ensures
            pair_texts(r.to_install@) == pick(
                declared(*package_json),
                is_stale(old(self)@.lock, on_disk@),
            ),
            r.up_to_date == declared(*package_json).len() - r.to_install@.len(),
            final(self)@ == (ManagerView {
                claims: with_fresh_claims(
                    old(self)@.claims,
                    old(self)@.lock,
                    on_disk@,
                    declared(*package_json),
                ),
                ..old(self)@
            }),
    {
        let mut all = package_json.dependencies.pairs();
        let mut dev = package_json.dev_dependencies.pairs();
        let ghost first = pair_texts(all@);
        let ghost second = pair_texts(dev@);
        all.append(&mut dev);
        assert(pair_texts(all@) =~= first + second);
        let ghost deps = declared(*package_json);
        let ghost start = self@;
        let ghost stale = is_stale(start.lock, on_disk@);
        let mut to_install: Vec<(String, String)> = Vec::new();
        let mut fresh: usize = 0;
        let mut i: usize = 0;
        while i < all.len()
            invariant
                i <= all.len(),
                pair_texts(all@) == deps,
                stale == is_stale(start.lock, on_disk@),
                pair_texts(to_install@) == pick(deps.take(i as int), stale),
                fresh + to_install@.len() == i,
                self@ == (ManagerView {
                    claims: with_fresh_claims(
                        start.claims,
                        start.lock,
                        on_disk@,
                        deps.take(i as int),
                    ),
                    ..start
                }),
            decreases all.len() - i,
        {
            proof {
                let next = deps.take(i + 1);
                assert(next.drop_last() =~= deps.take(i as int));
                assert(next.last() == deps[i as int]);
                assert(deps[i as int] == (all@[i as int].0@, all@[i as int].1@));
            }
            let name = all[i].0.as_str();
            let key = lock_key(name);
            let mut done = false;
            match self.lockfile.packages.get(key.as_str()) {
                Some(entry) => {
                    match on_disk.get(name) {
                        Some(found) => {
                            if crate::text::same_text(found.as_str(), entry.version.as_str()) {
                                done = true;
                                let expected = entry.version.clone();
                                claims_insert(&mut self.installed, name.to_owned(), expected);
                            }
                        },
                        None => {},
                    }
                },
                None => {},
            }
            assert(done == up_to_date(start.lock, on_disk@, name@));
            if done {
                fresh += 1;
            } else {
                let ghost before = pair_texts(to_install@);
                to_install.push((all[i].0.clone(), all[i].1.clone()));
                assert(pair_texts(to_install@) =~= before.push(deps[i as int]));
            }
            i += 1;
        }
        assert(deps.take(all.len() as int) =~= deps);
        InstallSet { to_install, up_to_date: fresh }
    }

    /// Orders dependencies for scheduling: those that the lockfile resolves
    /// come first, so that their own dependencies can be walked while the
    /// registry is asked for the others.
    pub fn order_lazy_first(&self, deps: &Vec<(String, String)>) -> (ordered: Vec<(String, String)>)
        ensures
            pair_texts(ordered@) == lazy_order(self@.lock, pair_texts(deps@)),
    {
        let ghost all = pair_texts(deps@);
        let ghost ready = lock_ready(self@.lock);
        let ghost unready = needs_fetch(self@.lock);
        let mut from_lockfile: Vec<(String, String)> = Vec::new();
        let mut fetch: Vec<(String, String)> = Vec::new();
        let mut i: usize = 0;
        while i < deps.len()
            invariant
                i <= deps.len(),
                all == pair_texts(deps@),
                ready == lock_ready(self@.lock),
                unready == needs_fetch(self@.lock),
                pair_texts(from_lockfile@) == pick(all.take(i as int), ready),
                pair_texts(fetch@) == pick(all.take(i as int), unready),
            decreases deps.len() - i,
        {
            proof {
                let next = all.take(i + 1);
                assert(next.drop_last() =~= all.take(i as int));
                assert(next.last() == (deps@[i as int].0@, deps@[i as int].1@));
            }
            let key = lock_key(deps[i].0.as_str());
            let served = match self.lockfile.packages.get(key.as_str()) {
                Some(entry) => lock_satisfies(entry.version.as_str(), deps[i].1.as_str()),
                None => false,
            };
            assert(served == ready(all[i as int]));
            if served {
                let ghost before = pair_texts(from_lockfile@);
                from_lockfile.push((deps[i].0.clone(), deps[i].1.clone()));
                assert(pair_texts(from_lockfile@) =~= before.push(all[i as int]));
            } else {
                let ghost before = pair_texts(fetch@);
                fetch.push((deps[i].0.clone(), deps[i].1.clone()));
                assert(pair_texts(fetch@) =~= before.push(all[i as int]));
            }
            i += 1;
        }
        assert(all.take(deps.len() as int) =~= all);
        let ghost head = pair_texts(from_lockfile@);
        let ghost tail = pair_texts(fetch@);
        from_lockfile.append(&mut fetch);
        assert(pair_texts(from_lockfile@) =~= head + tail);
        from_lockfile
    }

    /// Whether the user has to be asked before the scripts that wait are
    /// run.
    pub fn needs_confirmation(&self) -> (r: bool)
        ensures
            r == (self@.scripts != no_scripts() && !self@.ignore_scripts && !self@.auto_confirm),
    {
        !scripts_is_empty(&self.postinstalls) && !self.ignore_scripts && !self.auto_confirm
    }

    /// The scripts to run at the end of the install, each with the name of
    /// its package, the directory to run it in and the command: all that
    /// wait, or none where scripts are switched off or the user, having
    /// been asked, has not said yes.
    pub fn scripts_to_run(&self, confirmed: bool) -> (list: Vec<(String, String, String)>)
        ensures
            scripts_run(self@, confirmed) ==> lists_scripts(list@, self@.scripts),
            !scripts_run(self@, confirmed) ==> list@.len() == 0,
    {
        if self.ignore_scripts || !(self.auto_confirm || confirmed) {
            Vec::new()
        } else {
            scripts_list(&self.postinstalls)
        }
    }
}

} // verus!

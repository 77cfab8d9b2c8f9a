//! Workspaces: the members of a monorepo, and the dependencies that are
//! installed once at its root.

use crate::installer::install_path_of;
use crate::name_map::{has_name, lemma_found_at, place_of, text_pairs, value_of, NameMap};
use crate::registry::index_from;
use crate::text::{
    chars_of, has_prefix, join2, join3, lemma_text_order, same_text, starts_with_at, text_less,
    text_lt, text_of_range, texts,
};
use crate::types::{PackageJson, WorkspaceMember};
use crate::version::{semver_order, semver_version_ok, version_order, version_parses};
use vstd::prelude::*;
use vstd::string::*;

verus! {

/// A workspace: a root project and the members found under it.
pub struct Workspace {
    /// Root directory of the workspace
    pub root: String,
    /// The manifest at the root
    pub root_package: PackageJson,
    /// All workspace members, in the order of their names
    pub members: Vec<WorkspaceMember>,
}

/// `s` with every leading `p` taken off.
pub open spec fn stripped(s: Seq<char>, p: Seq<char>) -> Seq<char>
    decreases s.len(),
{
    if p.len() > 0 && has_prefix(s, p) {
        stripped(s.skip(p.len() as int), p)
    } else {
        s
    }
}

/// A version token without the range operators in front of it: the carets
/// are taken off, then the tildes, then `>=`, `<=`, `>` and `<`, each as
/// often as it stands there.
pub open spec fn clean_version(v: Seq<char>) -> Seq<char> {
    stripped(
        stripped(stripped(stripped(stripped(stripped(v, "^"@), "~"@), ">="@), "<="@), ">"@),
        "<"@,
    )
}

/// How two texts stand in the order of texts: -1, 0 or 1.
pub open spec fn text_order(a: Seq<char>, b: Seq<char>) -> int {
    if text_less(a, b) {
        -1
    } else if text_less(b, a) {
        1
    } else {
        0
    }
}

/// How two version tokens stand to each other: by the order of versions
/// where both, cleaned, parse as versions, else by the order of texts.
pub open spec fn version_compare(a: Seq<char>, b: Seq<char>) -> int {
    let x = clean_version(a);
    let y = clean_version(b);
    if semver_version_ok(x) && semver_version_ok(y) {
        semver_order(x, y)
    } else {
        text_order(x, y)
    }
}

fn strip_at(v: &Vec<char>, at: usize, p: &str) -> (r: usize)
    requires
        at <= v.len(),
        p@.len() > 0,
    ensures
        at <= r <= v.len(),
        v@.skip(r as int) == stripped(v@.skip(at as int), p@),
{
    let n = p.unicode_len();
    let mut r: usize = at;
    while starts_with_at(v, r, p)
        invariant
            at <= r <= v.len(),
            n == p@.len(),
            n > 0,
            stripped(v@.skip(r as int), p@) == stripped(v@.skip(at as int), p@),
        decreases v.len() - r,
    {
        assert(v@.skip(r as int).skip(n as int) =~= v@.skip(r + n));
        r = r + n;
    }
    r
}

/// Cleans a version token of the range operators in front of it.
pub fn cleaned(v: &str) -> (r: String)
    ensures
        r@ == clean_version(v@),
{
    let c = chars_of(v);
    proof {
        reveal_strlit("^");
        reveal_strlit("~");
        reveal_strlit(">=");
        reveal_strlit("<=");
        reveal_strlit(">");
        reveal_strlit("<");
        assert(c@.skip(0) =~= c@);
    }
    let a = strip_at(&c, 0, "^");
    let b = strip_at(&c, a, "~");
    let d = strip_at(&c, b, ">=");
    let e = strip_at(&c, d, "<=");
    let f = strip_at(&c, e, ">");
    let g = strip_at(&c, f, "<");
    let r = text_of_range(&c, g, c.len());
    assert(c@.subrange(g as int, c.len() as int) =~= c@.skip(g as int));
    r
}

/// Who declares which dependency at which version: the declaring package,
/// the dependency's name and the declared range.
pub open spec fn uses_of(user: Seq<char>, deps: Seq<(Seq<char>, Seq<char>)>) -> Seq<
    (Seq<char>, Seq<char>, Seq<char>),
> {
    Seq::new(deps.len(), |i: int| (user, deps[i].0, deps[i].1))
}

/// What a package declares: its dependencies, then those for development.
pub open spec fn package_uses(user: Seq<char>, p: PackageJson) -> Seq<
    (Seq<char>, Seq<char>, Seq<char>),
> {
    uses_of(user, text_pairs(p.dependencies@)) + uses_of(user, text_pairs(p.dev_dependencies@))
}

/// What the members declare, member after member.
pub open spec fn member_uses(members: Seq<WorkspaceMember>) -> Seq<
    (Seq<char>, Seq<char>, Seq<char>),
>
    decreases members.len(),
{
    if members.len() == 0 {
        Seq::empty()
    } else {
        member_uses(members.drop_last()) + package_uses(
            members.last().name@,
            members.last().package_json,
        )
    }
}

/// What the root and the members declare, the root first.
pub open spec fn all_uses(ws: Workspace) -> Seq<(Seq<char>, Seq<char>, Seq<char>)> {
    package_uses(ws.root_package.name@, ws.root_package) + member_uses(ws.members@)
}

/// The packages that declare `dep` at `version`, in the order of their
/// declarations.
pub open spec fn users_of(
    uses: Seq<(Seq<char>, Seq<char>, Seq<char>)>,
    dep: Seq<char>,
    version: Seq<char>,
) -> Seq<Seq<char>>
    decreases uses.len(),
{
    if uses.len() == 0 {
        Seq::empty()
    } else {
        let rest = users_of(uses.drop_last(), dep, version);
        if uses.last().1 == dep && uses.last().2 == version {
            rest.push(uses.last().0)
        } else {
            rest
        }
    }
}

/// The users that `all` records for `dep` at `version`.
pub open spec fn recorded(
    all: Seq<(Seq<char>, NameMap<Vec<String>>)>,
    dep: Seq<char>,
    version: Seq<char>,
) -> Seq<Seq<char>> {
    if has_name(all, dep) && has_name(value_of(all, dep)@, version) {
        texts(value_of(value_of(all, dep)@, version)@)
    } else {
        Seq::empty()
    }
}

/// Whether `all` records the declarations `uses` and nothing else: under
/// each dependency and each of its versions the packages that declare it.
pub open spec fn tallies(
    all: Seq<(Seq<char>, NameMap<Vec<String>>)>,
    uses: Seq<(Seq<char>, Seq<char>, Seq<char>)>,
) -> bool {
    &&& forall|d: Seq<char>, v: Seq<char>| #[trigger] recorded(all, d, v) == users_of(uses, d, v)
    &&& forall|d: Seq<char>| #[trigger] has_name(all, d) ==> value_of(all, d)@.len() > 0
    &&& forall|d: Seq<char>, v: Seq<char>|
        has_name(all, d) && #[trigger] has_name(value_of(all, d)@, v) ==> value_of(
            value_of(all, d)@,
            v,
        )@.len() > 0
}

fn add_use(
    all: &mut NameMap<NameMap<Vec<String>>>,
    user: &str,
    dep: &str,
    version: &str,
    Ghost(uses): Ghost<Seq<(Seq<char>, Seq<char>, Seq<char>)>>,
)
    requires
        tallies(old(all)@, uses),
    ensures
        tallies(final(all)@, uses.push((user@, dep@, version@))),
{
    let ghost start = all@;
    let ghost next = uses.push((user@, dep@, version@));
    let mut inner = match all.remove(dep) {
        Some(m) => m,
        None => NameMap::new(),
    };
    let ghost inner_start = inner@;
    let mut users = match inner.remove(version) {
        Some(u) => u,
        None => Vec::new(),
    };
    let ghost users_start = users@;
    users.push(user.to_owned());
    assert(texts(users@) =~= texts(users_start).push(user@));
    assert(texts(users_start) == recorded(start, dep@, version@)) by {
        if has_name(start, dep@) {
            if !has_name(inner_start, version@) {
                assert(texts(users_start) =~= Seq::empty());
            }
        } else {
            assert(!has_name(inner_start, version@)) by {
                if has_name(inner_start, version@) {
                    let w = choose|i: int|
                        0 <= i < inner_start.len() && #[trigger] inner_start[i].0 == version@;
                }
            }
            assert(texts(users_start) =~= Seq::empty());
        }
    }
    inner.insert(version.to_owned(), users);
    let ghost inner_end = inner@;
    assert(inner_end.len() > 0);
    all.insert(dep.to_owned(), inner);
    proof {
        let end = all@;
        assert(next.drop_last() =~= uses);
        assert(next.last() == (user@, dep@, version@));
        assert(value_of(end, dep@)@ == inner_end);
        assert forall|d: Seq<char>, v: Seq<char>| #[trigger]
            recorded(end, d, v) == users_of(next, d, v) by {
            assert(recorded(start, d, v) == users_of(uses, d, v));
            if d == dep@ {
                if v == version@ {
                } else {
                    assert(has_name(inner_end, v) == has_name(inner_start, v));
                    if has_name(inner_start, v) {
                        assert(value_of(inner_end, v) == value_of(inner_start, v));
                    }
                    if !has_name(start, dep@) {
                        assert(!has_name(inner_start, v)) by {
                            if has_name(inner_start, v) {
                                let w = choose|i: int|
                                    0 <= i < inner_start.len() && #[trigger] inner_start[i].0 == v;
                            }
                        }
                    }
                }
            } else {
                assert(has_name(end, d) == has_name(start, d));
                if has_name(start, d) {
                    assert(value_of(end, d) == value_of(start, d));
                }
            }
        }
        assert forall|d: Seq<char>| #[trigger] has_name(end, d) implies value_of(end, d)@.len()
            > 0 by {
            if d != dep@ {
                assert(has_name(end, d) == has_name(start, d));
                assert(value_of(end, d) == value_of(start, d));
            }
        }
        assert forall|d: Seq<char>, v: Seq<char>|
            has_name(end, d) && #[trigger] has_name(value_of(end, d)@, v) implies value_of(
            value_of(end, d)@,
            v,
        )@.len() > 0 by {
            if d != dep@ {
                assert(has_name(end, d) == has_name(start, d));
                assert(value_of(end, d) == value_of(start, d));
            } else if v != version@ {
                assert(has_name(inner_end, v) == has_name(inner_start, v));
                assert(value_of(inner_end, v) == value_of(inner_start, v));
                if !has_name(start, dep@) {
                    let w = choose|i: int|
                        0 <= i < inner_start.len() && #[trigger] inner_start[i].0 == v;
                }
            }
        }
    }
}

fn add_deps(
    all: &mut NameMap<NameMap<Vec<String>>>,
    user: &str,
    deps: &NameMap<String>,
    Ghost(uses): Ghost<Seq<(Seq<char>, Seq<char>, Seq<char>)>>,
)
    requires
        tallies(old(all)@, uses),
    ensures
        tallies(final(all)@, uses + uses_of(user@, text_pairs(deps@))),
{
    let ghost added = uses_of(user@, text_pairs(deps@));
    let n = deps.len();
    let mut i: usize = 0;
    assert(uses + added.take(0) =~= uses);
    while i < n
        invariant
            i <= n,
            n == deps@.len(),
            added == uses_of(user@, text_pairs(deps@)),
            tallies(all@, uses + added.take(i as int)),
        decreases n - i,
    {
        add_use(
            all,
            user,
            deps.name_at(i).as_str(),
            deps.value_at(i).as_str(),
            Ghost(uses + added.take(i as int)),
        );
        assert((uses + added.take(i as int)).push(added[i as int]) =~= uses + added.take(i + 1));
        i += 1;
    }
    assert(added.take(n as int) =~= added);
}

fn add_package(
    all: &mut NameMap<NameMap<Vec<String>>>,
    user: &str,
    package: &PackageJson,
    Ghost(uses): Ghost<Seq<(Seq<char>, Seq<char>, Seq<char>)>>,
)
    requires
        tallies(old(all)@, uses),
    ensures
        tallies(final(all)@, uses + package_uses(user@, *package)),
{
    add_deps(all, user, &package.dependencies, Ghost(uses));
    let ghost mid = uses + uses_of(user@, text_pairs(package.dependencies@));
    add_deps(all, user, &package.dev_dependencies, Ghost(mid));
    assert(mid + uses_of(user@, text_pairs(package.dev_dependencies@)) =~= uses + package_uses(
        user@,
        *package,
    ));
}

/// Whether the version `a` of a dependency is preferred to the version `b`:
/// more packages ask for it, or as many do and it compares greater.
pub open spec fn outranks(a: (Seq<char>, Vec<String>), b: (Seq<char>, Vec<String>)) -> bool {
    a.1@.len() > b.1@.len() || (a.1@.len() == b.1@.len() && version_compare(a.0, b.0) > 0)
}

/// The position of the preferred version among the first `n`: the versions
/// are walked in order, and the one held gives way to the next unless it is
/// preferred to it.
pub open spec fn best_place(versions: Seq<(Seq<char>, Vec<String>)>, n: int) -> int
    decreases n,
{
    if n <= 1 {
        0
    } else {
        let held = best_place(versions, n - 1);
        if outranks(versions[held], versions[n - 1]) {
            held
        } else {
            n - 1
        }
    }
}

/// The version that is hoisted of those asked of one dependency.
pub open spec fn best_version(versions: Seq<(Seq<char>, Vec<String>)>) -> Seq<char> {
    if versions.len() == 0 {
        Seq::empty()
    } else {
        versions[best_place(versions, versions.len() as int)].0
    }
}

/// No version asked of a dependency has more users than the hoisted one.
pub proof fn lemma_best_is_most_used(versions: Seq<(Seq<char>, Vec<String>)>, n: int, j: int)
    requires
        0 <= j < n <= versions.len(),
    ensures
        0 <= best_place(versions, n) < n,
        versions[best_place(versions, n)].1@.len() >= versions[j].1@.len(),
    decreases n,
{
    if n > 1 {
        if j < n - 1 {
            lemma_best_is_most_used(versions, n - 1, j);
        } else {
            lemma_best_is_most_used(versions, n - 1, 0);
        }
    }
}

/// Whether a member of the workspace has the name.
pub open spec fn is_member_name(members: Seq<WorkspaceMember>, name: Seq<char>) -> bool {
    exists|i: int| 0 <= i < members.len() && (#[trigger] members[i]).name@ == name
}

/// Whether the dependency `d` is installed at the root: it is asked for, it
/// is no member of the workspace, and its preferred version is not empty.
pub open spec fn hoistable(
    all: Seq<(Seq<char>, NameMap<Vec<String>>)>,
    members: Seq<WorkspaceMember>,
    d: Seq<char>,
) -> bool {
    has_name(all, d) && !is_member_name(members, d) && best_version(value_of(all, d)@).len() > 0
}

/// Whether `h` holds the hoisted dependencies of `all`: each dependency
/// that is installed at the root, with its preferred version.
pub open spec fn is_hoisted(
    h: Seq<(Seq<char>, String)>,
    all: Seq<(Seq<char>, NameMap<Vec<String>>)>,
    members: Seq<WorkspaceMember>,
) -> bool {
    &&& forall|d: Seq<char>| #[trigger] has_name(h, d) == hoistable(all, members, d)
    &&& forall|d: Seq<char>| #[trigger]
        has_name(h, d) ==> value_of(h, d)@ == best_version(value_of(all, d)@)
}

/// The members that have a script of the given name, each with the script,
/// in the order of the members.
pub open spec fn scripts_named(members: Seq<WorkspaceMember>, script: Seq<char>) -> Seq<
    (WorkspaceMember, String),
>
    decreases members.len(),
{
    if members.len() == 0 {
        Seq::empty()
    } else {
        let rest = scripts_named(members.drop_last(), script);
        let last = members.last();
        if has_name(last.package_json.scripts@, script) {
            rest.push((last, value_of(last.package_json.scripts@, script)))
        } else {
            rest
        }
    }
}

/// What a list of references to members and scripts refers to.
pub open spec fn referred<'a>(found: Seq<(&'a WorkspaceMember, &'a String)>) -> Seq<
    (WorkspaceMember, String),
> {
    Seq::new(found.len(), |i: int| (*found[i].0, *found[i].1))
}

/// The names of the members, in order.
pub open spec fn member_names(members: Seq<WorkspaceMember>) -> Seq<Seq<char>> {
    Seq::new(members.len(), |i: int| members[i].name@)
}

/// Whether no member stands before one whose name comes first.
pub open spec fn sorted_by_name(members: Seq<WorkspaceMember>) -> bool {
    forall|i: int, j: int|
        0 <= i < j < members.len() ==> !text_less(
            (#[trigger] members[j]).name@,
            (#[trigger] members[i]).name@,
        )
}

/// The members of the given name, in their order.
pub open spec fn members_named(members: Seq<WorkspaceMember>, name: Seq<char>) -> Seq<
    WorkspaceMember,
>
    decreases members.len(),
{
    if members.len() == 0 {
        Seq::empty()
    } else if members.last().name@ == name {
        members_named(members.drop_last(), name).push(members.last())
    } else {
        members_named(members.drop_last(), name)
    }
}

/// Whether `sorted` holds the members of `found` in the order of their
/// names, members of one name in the order in which they were found.
pub open spec fn is_sorted_from(sorted: Seq<WorkspaceMember>, found: Seq<WorkspaceMember>) -> bool {
    &&& sorted.to_multiset() == found.to_multiset()
    &&& sorted_by_name(sorted)
    &&& forall|name: Seq<char>| #[trigger] members_named(sorted, name) == members_named(found, name)
}

/// How two members stand in the order of their names.
pub fn by_name(a: &WorkspaceMember, b: &WorkspaceMember) -> (o: std::cmp::Ordering)
    ensures
        o is Less <==> text_less(a.name@, b.name@),
        o is Greater <==> text_less(b.name@, a.name@),
{
    proof {
        lemma_text_order(a.name@, b.name@, a.name@);
    }
    if text_lt(a.name.as_str(), b.name.as_str()) {
        std::cmp::Ordering::Less
    } else if text_lt(b.name.as_str(), a.name.as_str()) {
        std::cmp::Ordering::Greater
    } else {
        std::cmp::Ordering::Equal
    }
}

/// Calls `sort_by` of the standard library on the members, with the order
/// of their names: the list keeps its members and ends sorted, and, the
/// sort being stable, members of one name keep their order.
#[verifier::external_body]
fn sort_members(members: &mut Vec<WorkspaceMember>)
    ensures
        is_sorted_from(final(members)@, old(members)@),
{
    members.sort_by(|a, b| by_name(a, b));
}

/// Calls `pathdiff::diff_paths`: the path that leads from `base` to `path`,
/// if the crate finds one. How paths are read depends on the platform, so
/// nothing is promised of the result.
#[verifier::external_body]
fn relative_path(path: &str, base: &str) -> (r: Option<String>) {
    pathdiff::diff_paths(path, base).map(|p| p.to_string_lossy().into_owned())
}

/// The globs that name the members of a workspace: those of the manifest
/// where it has any, else those of `pnpm-workspace.yaml` where that file
/// could be read, else those of `pnpm-workspace.yml`; none otherwise.
pub open spec fn patterns_of(
    manifest: Seq<String>,
    yaml: Option<Vec<String>>,
    yml: Option<Vec<String>>,
) -> Seq<Seq<char>> {
    if manifest.len() > 0 {
        texts(manifest)
    } else {
        match yaml {
            Some(list) => texts(list@),
            None => match yml {
                Some(list) => texts(list@),
                None => Seq::empty(),
            },
        }
    }
}

fn clone_list(list: &Vec<String>) -> (r: Vec<String>)
    ensures
        texts(r@) == texts(list@),
{
    let mut r: Vec<String> = Vec::new();
    let mut i: usize = 0;
    while i < list.len()
        invariant
            i <= list.len(),
            r.len() == i,
            texts(r@) == texts(list@).take(i as int),
        decreases list.len() - i,
    {
        r.push(list[i].clone());
        assert(texts(r@) =~= texts(list@).take(i + 1));
        i += 1;
    }
    assert(texts(list@).take(list.len() as int) =~= texts(list@));
    r
}

/// Where a member is linked into the root's `node_modules`.
pub struct MemberLink {
    /// Where the link stands.
    pub link_path: String,
    /// The directory of the member's scope, which has to exist before the
    /// link is made.
    pub scope_dir: Option<String>,
    /// What the link points to.
    pub target: String,
}

/// The scope of a name: what stands before its first `/`, if it has one.
pub open spec fn scope_of(name: Seq<char>) -> Option<Seq<char>> {
    let at = index_from(name, '/', 0);
    if at < name.len() {
        Some(name.take(at))
    } else {
        None
    }
}

/// Whether `link` places the member `m` under the `node_modules` of `root`.
pub open spec fn links_member(link: MemberLink, root: Seq<char>, m: WorkspaceMember) -> bool {
    &&& link.link_path@ == install_path_of(root, m.name@)
    &&& match scope_of(m.name@) {
        Some(scope) => link.scope_dir matches Some(dir) && dir@ == install_path_of(root, scope),
        None => link.scope_dir is None,
    }
}

/// What a member's link points to: the relative path that was found, else
/// the member's own path.
pub fn link_target(relative: Option<String>, member_path: &str) -> (t: String)
    ensures
        t@ == (match relative {
            Some(r) => r@,
            None => member_path@,
        }),
{
    match relative {
        Some(r) => r,
        None => member_path.to_owned(),
    }
}

impl Workspace {
    /// Get all dependencies across the workspace: under each dependency
    /// and each version that is asked of it, the packages that ask for it.
    pub fn collect_all_dependencies(&self) -> (all: NameMap<NameMap<Vec<String>>>)
        ensures
            tallies(all@, all_uses(*self)),
    {
        let mut all: NameMap<NameMap<Vec<String>>> = NameMap::new();
        let ghost none: Seq<(Seq<char>, Seq<char>, Seq<char>)> = Seq::empty();
        assert(tallies(all@, none)) by {
            assert forall|d: Seq<char>| !has_name(all@, d) by {
                if has_name(all@, d) {
                    let w = choose|i: int| 0 <= i < all@.len() && #[trigger] all@[i].0 == d;
                }
            }
        }
        add_package(&mut all, self.root_package.name.as_str(), &self.root_package, Ghost(none));
        let ghost root = package_uses(self.root_package.name@, self.root_package);
        assert(none + root =~= root);
        let mut i: usize = 0;
        assert(self.members@.take(0) =~= Seq::empty());
        assert(root + member_uses(self.members@.take(0)) =~= root);
        while i < self.members.len()
            invariant
                i <= self.members.len(),
                root == package_uses(self.root_package.name@, self.root_package),
                tallies(all@, root + member_uses(self.members@.take(i as int))),
            decreases self.members.len() - i,
        {
            let member = &self.members[i];
            let ghost before = root + member_uses(self.members@.take(i as int));
            add_package(&mut all, member.name.as_str(), &member.package_json, Ghost(before));
            proof {
                let next = self.members@.take(i + 1);
                assert(next.drop_last() =~= self.members@.take(i as int));
                assert(next.last() == self.members@[i as int]);
                assert(before + package_uses(member.name@, member.package_json) =~= root
                    + member_uses(next));
            }
            i += 1;
        }
        assert(self.members@.take(self.members.len() as int) =~= self.members@);
        all
    }

    /// Compare two version strings (prefers higher versions)
    pub fn compare_versions(v1: &str, v2: &str) -> (o: i8)
        ensures
            o == version_compare(v1@, v2@),
    {
        let x = cleaned(v1);
        let y = cleaned(v2);
        if version_parses(x.as_str()) && version_parses(y.as_str()) {
            version_order(x.as_str(), y.as_str())
        } else if text_lt(x.as_str(), y.as_str()) {
            -1
        } else if text_lt(y.as_str(), x.as_str()) {
            1
        } else {
            0
        }
    }
    /// The globs that name the members of the workspace.
    pub fn get_workspace_patterns(
        root_package: &PackageJson,
        yaml: Option<Vec<String>>,
        yml: Option<Vec<String>>,
    ) -> (r: Vec<String>)
        ensures
            texts(r@) == patterns_of(root_package.workspaces@, yaml, yml),
    {
        if root_package.workspaces.len() > 0 {
            return clone_list(&root_package.workspaces);
        }
        match yaml {
            Some(list) => list,
            None => match yml {
                Some(list) => list,
                None => Vec::new(),
            },
        }
    }

    /// The workspace at `root` with the members that were found, ordered
    /// by their names; none where no glob names a member.
    pub fn discover(
        root: &str,
        root_package: PackageJson,
        patterns: &Vec<String>,
        found: Vec<WorkspaceMember>,
    ) -> (r: Option<Workspace>)
        ensures
            r.is_some() == (patterns@.len() > 0),
            r matches Some(ws) ==> ws.root@ == root@ && ws.root_package == root_package
                && is_sorted_from(ws.members@, found@),
    {
        if patterns.len() == 0 {
            return None;
        }
        let mut members = found;
        sort_members(&mut members);
        Some(Workspace { root: root.to_owned(), root_package, members })
    }

    fn is_member(&self, name: &str) -> (r: bool)
        ensures
            r == is_member_name(self.members@, name@),
    {
        let mut i: usize = 0;
        while i < self.members.len()
            invariant
                i <= self.members.len(),
                forall|j: int| 0 <= j < i ==> (#[trigger] self.members@[j]).name@ != name@,
            decreases self.members.len() - i,
        {
            if same_text(self.members[i].name.as_str(), name) {
                return true;
            }
            i += 1;
        }
        false
    }

    fn best_of(versions: &NameMap<Vec<String>>) -> (best: usize)
        requires
            versions@.len() > 0,
        ensures
            best == best_place(versions@, versions@.len() as int),
            best < versions@.len(),
    {
        let n = versions.len();
        let mut best: usize = 0;
        let mut k: usize = 1;
        while k < n
            invariant
                1 <= k <= n,
                n == versions@.len(),
                best < k,
                best == best_place(versions@, k as int),
            decreases n - k,
        {
            let held = versions.value_at(best).len();
            let next = versions.value_at(k).len();
            let keeps = held > next || (held == next && Workspace::compare_versions(
                versions.name_at(best).as_str(),
                versions.name_at(k).as_str(),
            ) > 0);
            if !keeps {
                best = k;
            }
            k += 1;
        }
        best
    }

    /// The hoisted dependencies of `all`: each dependency that is no member
    /// of the workspace, with the version that most packages ask for and,
    /// among such, the one that compares greater.
    pub fn hoist(&self, all: &NameMap<NameMap<Vec<String>>>) -> (h: NameMap<String>)
        ensures
            is_hoisted(h@, all@, self.members@),
    {
        proof {
            use_type_invariant(all);
        }
        let mut h: NameMap<String> = NameMap::new();
        assert forall|d: Seq<char>| !has_name(h@, d) by {
            if has_name(h@, d) {
                let w = choose|i: int| 0 <= i < h@.len() && #[trigger] h@[i].0 == d;
            }
        }
        let n = all.len();
        let mut i: usize = 0;
        while i < n
            invariant
                i <= n,
                n == all@.len(),
                crate::name_map::ascending(all@),
                forall|d: Seq<char>| #[trigger]
                    has_name(h@, d) ==> hoistable(all@, self.members@, d) && place_of(all@, d) < i
                        && value_of(h@, d)@ == best_version(value_of(all@, d)@),
                forall|j: int|
                    0 <= j < i && hoistable(all@, self.members@, (#[trigger] all@[j]).0)
                        ==> has_name(h@, all@[j].0),
            decreases n - i,
        {
            let name = all.name_at(i);
            let versions = all.value_at(i);
            proof {
                lemma_found_at(all@, i as int);
            }
            let ghost before = h@;
            if versions.len() > 0 && !self.is_member(name.as_str()) {
                let best = Workspace::best_of(versions);
                let version = versions.name_at(best);
                if version.as_str().unicode_len() > 0 {
                    h.insert(name.clone(), version.clone());
                    proof {
                        assert forall|d: Seq<char>| #[trigger] has_name(h@, d) implies hoistable(
                            all@,
                            self.members@,
                            d,
                        ) && place_of(all@, d) < i + 1 && value_of(h@, d)@ == best_version(
                            value_of(all@, d)@,
                        ) by {
                            if d != name@ {
                                assert(has_name(before, d));
                                assert(value_of(h@, d) == value_of(before, d));
                            }
                        }
                        assert forall|j: int|
                            0 <= j < i + 1 && hoistable(
                                all@,
                                self.members@,
                                (#[trigger] all@[j]).0,
                            ) implies has_name(h@, all@[j].0) by {
                            if j < i {
                                assert(has_name(before, all@[j].0));
                                if all@[j].0 == name@ {
                                    crate::name_map::lemma_one_place(all@, i as int, j);
                                }
                                assert(has_name(h@, all@[j].0) == has_name(before, all@[j].0));
                            }
                        }
                    }
                }
            }
            i += 1;
        }
        proof {
            assert forall|d: Seq<char>| #[trigger] has_name(h@, d) == hoistable(
                all@,
                self.members@,
                d,
            ) by {
                if hoistable(all@, self.members@, d) {
                    let j = place_of(all@, d);
                    assert(all@[j].0 == d);
                }
            }
        }
        h
    }

    /// Get hoisted dependencies: what is installed once at the root of the
    /// workspace for the root and all its members.
    pub fn get_hoisted_dependencies(&self) -> (h: NameMap<String>)
        ensures
            exists|all: NameMap<NameMap<Vec<String>>>| #[trigger]
                tallies(all@, all_uses(*self)) && is_hoisted(h@, all@, self.members@),
    {
        let all = self.collect_all_dependencies();
        self.hoist(&all)
    }

    /// Get the list of workspace package names (for linking)
    pub fn get_workspace_package_names(&self) -> (names: Vec<String>)
        ensures
            texts(names@) == member_names(self.members@),
    {
        let mut names: Vec<String> = Vec::new();
        let mut i: usize = 0;
        while i < self.members.len()
            invariant
                i <= self.members.len(),
                names.len() == i,
                texts(names@) == member_names(self.members@).take(i as int),
            decreases self.members.len() - i,
        {
            names.push(self.members[i].name.clone());
            assert(texts(names@) =~= member_names(self.members@).take(i + 1));
            i += 1;
        }
        assert(member_names(self.members@).take(self.members.len() as int) =~= member_names(
            self.members@,
        ));
        names
    }

    /// Find a workspace member by name: the first that has it.
    pub fn find_member(&self, name: &str) -> (r: Option<&WorkspaceMember>)
        ensures
            r.is_some() == is_member_name(self.members@, name@),
            r matches Some(m) ==> exists|i: int|
                0 <= i < self.members@.len() && *m == #[trigger] self.members@[i] && m.name@
                    == name@ && forall|j: int|
                    0 <= j < i ==> (#[trigger] self.members@[j]).name@ != name@,
    {
        let mut i: usize = 0;
        while i < self.members.len()
            invariant
                i <= self.members.len(),
                forall|j: int| 0 <= j < i ==> (#[trigger] self.members@[j]).name@ != name@,
            decreases self.members.len() - i,
        {
            if same_text(self.members[i].name.as_str(), name) {
                return Some(&self.members[i]);
            }
            i += 1;
        }
        None
    }

    /// Find a workspace member by path: the first that lies there.
    pub fn find_member_by_path(&self, path: &str) -> (r: Option<&WorkspaceMember>)
        ensures
            r.is_some() == (exists|i: int|
                0 <= i < self.members@.len() && (#[trigger] self.members@[i]).path@ == path@),
            r matches Some(m) ==> exists|i: int|
                0 <= i < self.members@.len() && *m == #[trigger] self.members@[i] && m.path@
                    == path@ && forall|j: int|
                    0 <= j < i ==> (#[trigger] self.members@[j]).path@ != path@,
    {
        let mut i: usize = 0;
        while i < self.members.len()
            invariant
                i <= self.members.len(),
                forall|j: int| 0 <= j < i ==> (#[trigger] self.members@[j]).path@ != path@,
            decreases self.members.len() - i,
        {
            if same_text(self.members[i].path.as_str(), path) {
                return Some(&self.members[i]);
            }
            i += 1;
        }
        None
    }

    /// Get all scripts of a given name across workspaces: each member that
    /// has one, with the script, in the order of the members.
    pub fn get_scripts(&self, script_name: &str) -> (found: Vec<(&WorkspaceMember, &String)>)
        ensures
            referred(found@) == scripts_named(self.members@, script_name@),
    {
        let mut found: Vec<(&WorkspaceMember, &String)> = Vec::new();
        let mut i: usize = 0;
        while i < self.members.len()
            invariant
                i <= self.members.len(),
                referred(found@) == scripts_named(self.members@.take(i as int), script_name@),
            decreases self.members.len() - i,
        {
            proof {
                let next = self.members@.take(i + 1);
                assert(next.drop_last() =~= self.members@.take(i as int));
                assert(next.last() == self.members@[i as int]);
            }
            let member = &self.members[i];
            match member.package_json.scripts.get(script_name) {
                Some(script) => {
                    let ghost before = referred(found@);
                    found.push((member, script));
                    assert(referred(found@) =~= before.push((*member, *script)));
                },
                None => {},
            }
            i += 1;
        }
        assert(self.members@.take(self.members.len() as int) =~= self.members@);
        found
    }

    /// Where each member is linked into the root's `node_modules`, in the
    /// order of the members.
    pub fn member_links(&self) -> (links: Vec<MemberLink>)
        ensures
            links@.len() == self.members@.len(),
            forall|i: int|
                0 <= i < links@.len() ==> links_member(
                    #[trigger] links@[i],
                    self.root@,
                    self.members@[i],
                ),
    {
        let base = join2(self.root.as_str(), "/node_modules");
        let mut links: Vec<MemberLink> = Vec::new();
        let mut i: usize = 0;
        while i < self.members.len()
            invariant
                i <= self.members.len(),
                links@.len() == i,
                forall|j: int|
                    0 <= j < i ==> links_member(#[trigger] links@[j], self.root@, self.members@[j]),
            decreases self.members.len() - i,
        {
            let member = &self.members[i];
            let link_path = join3(self.root.as_str(), "/node_modules/", member.name.as_str());
            let v = chars_of(member.name.as_str());
            let mut at: usize = 0;
            while at < v.len() && v[at] != '/'
                invariant
                    at <= v.len(),
                    v@ == member.name@,
                    index_from(v@, '/', 0) == index_from(v@, '/', at as int),
                decreases v.len() - at,
            {
                at += 1;
            }
            let scope_dir = if at < v.len() {
                let scope = text_of_range(&v, 0, at);
                assert(v@.subrange(0, at as int) =~= v@.take(at as int));
                Some(join3(self.root.as_str(), "/node_modules/", scope.as_str()))
            } else {
                None
            };
            let relative = relative_path(member.path.as_str(), base.as_str());
            let target = link_target(relative, member.path.as_str());
            links.push(MemberLink { link_path, scope_dir, target });
            i += 1;
        }
        links
    }
}

} // verus!

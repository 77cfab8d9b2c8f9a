//! The registry client's rules: where a package's record is asked for, which
//! version a range selects, and what a failed request means.

use crate::name_map::{has_name, value_of, NameMap};
use crate::output::RpmError;
use crate::text::{chars_of, has_prefix, join2, join3, starts_with_at, text_of_range, texts};
use crate::types::{RegistryPackage, RegistryVersion};
use crate::version::{
    admits, all_versions, descending, range_admits, range_parses, semver_order, semver_range_ok,
    semver_version_ok, sort_newest_first, version_order, version_parses,
};
use vstd::prelude::*;
use vstd::string::*;

verus! {

/// The registry that packages are asked from, with the records that were
/// fetched from it so far.
pub struct Registry {
    pub base_url: String,
    pub fetched: NameMap<RegistryPackage>,
}

/// A dependency declared under one name that installs another package.
pub struct PackageAlias {
    pub actual_name: String,
    pub version_range: String,
}

/// The range that is searched with: the requested one where it parses, else
/// the range that accepts every release.
pub open spec fn effective_range(range: Seq<char>) -> Seq<char> {
    if semver_range_ok(range) {
        range
    } else {
        "*"@
    }
}

/// Whether the version at position `i` parses and lies in the range.
pub open spec fn is_candidate(
    vs: Seq<(Seq<char>, RegistryVersion)>,
    range: Seq<char>,
    i: int,
) -> bool {
    0 <= i < vs.len() && admits(range, vs[i].1.version@)
}

/// Whether the version at position `i` is the one that the range selects:
/// it lies in the range, no other version in the range is greater, and of
/// equal ones it stands first.
pub open spec fn is_selected(
    vs: Seq<(Seq<char>, RegistryVersion)>,
    range: Seq<char>,
    i: int,
) -> bool {
    &&& is_candidate(vs, range, i)
    &&& forall|j: int| #[trigger]
        is_candidate(vs, range, j) && j != i ==> semver_order(
            vs[i].1.version@,
            vs[j].1.version@,
        ) >= 0
    &&& forall|j: int| #[trigger]
        is_candidate(vs, range, j) && j < i ==> semver_order(vs[i].1.version@, vs[j].1.version@)
            > 0
}

/// The version texts of a package that parse, in the order of the record.
pub open spec fn parseable_versions(vs: Seq<(Seq<char>, RegistryVersion)>) -> Seq<Seq<char>>
    decreases vs.len(),
{
    if vs.len() == 0 {
        Seq::empty()
    } else {
        let rest = parseable_versions(vs.drop_last());
        let t = vs.last().1.version@;
        if semver_version_ok(t) {
            rest.push(t)
        } else {
            rest
        }
    }
}

/// Whether `e` reports that no version of the package serves the range,
/// with the package's parseable versions listed newest first.
pub open spec fn is_version_not_found(e: RpmError, package: RegistryPackage, range: Seq<char>) -> bool {
    match e {
        RpmError::VersionNotFound { name, requested, available } => {
            &&& name@ == package.name@
            &&& requested@ == range
            &&& texts(available@).to_multiset() == parseable_versions(package.versions@).to_multiset()
            &&& descending(texts(available@))
        },
        _ => false,
    }
}

/// What resolving `range` against `package` gives: the tagged version where
/// the range is a tag, else the greatest version in the range; an error
/// where there is none.
pub open spec fn resolves_to(
    package: RegistryPackage,
    range: Seq<char>,
    r: Result<&RegistryVersion, RpmError>,
) -> bool {
    if has_name(package.dist_tags@, range) {
        let tagged = value_of(package.dist_tags@, range)@;
        if has_name(package.versions@, tagged) {
            r matches Ok(v) && *v == value_of(package.versions@, tagged)
        } else {
            r matches Err(e) && is_version_not_found(e, package, range)
        }
    } else {
        match r {
            Ok(v) => exists|i: int| #[trigger]
                is_selected(package.versions@, effective_range(range), i) && *v
                    == package.versions@[i].1,
            Err(e) => {
                &&& forall|i: int| !#[trigger] is_candidate(
                    package.versions@,
                    effective_range(range),
                    i,
                )
                &&& is_version_not_found(e, package, range)
            },
        }
    }
}

/// Where a range is no tag and parses, the version that resolving it gives
/// lies in the range.
pub proof fn lemma_resolved_version_satisfies(
    package: RegistryPackage,
    range: Seq<char>,
    r: Result<&RegistryVersion, RpmError>,
)
    requires
        resolves_to(package, range, r),
        r is Ok,
        !has_name(package.dist_tags@, range),
        semver_range_ok(range),
    ensures
        admits(range, r->Ok_0.version@),
{
}

/// Where a range is a tag that names a version of the package, resolving
/// gives that version.
pub proof fn lemma_tag_selects(
    package: RegistryPackage,
    range: Seq<char>,
    r: Result<&RegistryVersion, RpmError>,
)
    requires
        resolves_to(package, range, r),
        has_name(package.dist_tags@, range),
        has_name(package.versions@, value_of(package.dist_tags@, range)@),
    ensures
        r is Ok,
        *r->Ok_0 == value_of(package.versions@, value_of(package.dist_tags@, range)@),
{
}

/// The error that tells that no version of `package` serves `range`.
pub fn version_not_found(package: &RegistryPackage, range: &str) -> (e: RpmError)
    ensures
        is_version_not_found(e, *package, range@),
{
    let mut available: Vec<String> = Vec::new();
    let n = package.versions.len();
    let mut i: usize = 0;
    while i < n
        invariant
            n == package.versions@.len(),
            i <= n,
            texts(available@) == parseable_versions(package.versions@.take(i as int)),
            all_versions(texts(available@)),
        decreases n - i,
    {
        let v = package.versions.value_at(i);
        proof {
            let next = package.versions@.take(i + 1);
            assert(next.drop_last() =~= package.versions@.take(i as int));
            assert(next.last() == package.versions@[i as int]);
        }
        if version_parses(v.version.as_str()) {
            let ghost before = texts(available@);
            available.push(v.version.clone());
            assert(texts(available@) =~= before.push(v.version@));
        }
        i += 1;
    }
    assert(package.versions@.take(n as int) =~= package.versions@);
    sort_newest_first(&mut available);
    RpmError::VersionNotFound {
        name: package.name.clone(),
        requested: range.to_owned(),
        available,
    }
}

/// The first position from `from` on at which `s` holds `c`, or the length
/// of `s` where it holds none.
pub open spec fn index_from(s: Seq<char>, c: char, from: int) -> int
    decreases s.len() - from,
{
    if from < 0 || from >= s.len() {
        s.len() as int
    } else if s[from] == c {
        from
    } else {
        index_from(s, c, from + 1)
    }
}

/// What a range of the form `npm:<name>@<range>` stands for: the name and
/// the range. The `@` that opens a scoped name does not part the two.
pub open spec fn alias_of(range: Seq<char>) -> Option<(Seq<char>, Seq<char>)> {
    if !has_prefix(range, "npm:"@) {
        None
    } else {
        let rest = range.skip(4);
        let start: int = if rest.len() > 0 && rest[0] == '@' {
            1
        } else {
            0
        };
        let at = index_from(rest, '@', start);
        if at >= rest.len() {
            None
        } else {
            Some((rest.take(at), rest.skip(at + 1)))
        }
    }
}

/// Reads a range as an alias, if it is one.
pub fn parse_package_alias(range: &str) -> (r: Option<PackageAlias>)
    ensures
        match r {
            Some(a) => alias_of(range@) == Some((a.actual_name@, a.version_range@)),
            None => alias_of(range@) is None,
        },
{
    let v = chars_of(range);
    proof {
        reveal_strlit("npm:");
        assert(v@.skip(0) == v@);
    }
    if !starts_with_at(&v, 0, "npm:") {
        return None;
    }
    let ghost rest = range@.skip(4);
    let start: usize = if v.len() > 4 && v[4] == '@' {
        5
    } else {
        4
    };
    let mut i: usize = start;
    while i < v.len() && v[i] != '@'
        invariant
            v@ == range@,
            rest == range@.skip(4),
            4 <= start <= i,
            i <= v.len() || i == 5,
            v.len() >= 4,
            index_from(rest, '@', start - 4) == index_from(rest, '@', i - 4),
        decreases v.len() - i,
    {
        i += 1;
    }
    if i >= v.len() {
        return None;
    }
    let name = text_of_range(&v, 4, i);
    let wanted = text_of_range(&v, i + 1, v.len());
    proof {
        assert(rest.take(i - 4) =~= v@.subrange(4, i as int));
        assert(rest.skip(i - 4 + 1) =~= v@.subrange(i + 1, v.len() as int));
    }
    Some(PackageAlias { actual_name: name, version_range: wanted })
}

/// The name and range that the registry is asked for when `name` is
/// declared with `range`: those of the alias where the range is one, else
/// the declared ones.
pub open spec fn lookup_target(name: Seq<char>, range: Seq<char>) -> (Seq<char>, Seq<char>) {
    match alias_of(range) {
        Some(target) => target,
        None => (name, range),
    }
}

/// Whether `name` can stand in an alias: it is not empty and holds no `@`
/// but one that opens it.
pub open spec fn is_alias_name(name: Seq<char>) -> bool {
    name.len() > 0 && index_from(
        name,
        '@',
        if name[0] == '@' {
            1
        } else {
            0
        },
    ) == name.len()
}

/// The alias `npm:<actual>@<wanted>`.
pub open spec fn alias_text(actual: Seq<char>, wanted: Seq<char>) -> Seq<char> {
    "npm:"@ + actual + "@"@ + wanted
}

proof fn lemma_index_in_front(name: Seq<char>, tail: Seq<char>, from: int)
    requires
        0 <= from <= name.len(),
        index_from(name, '@', from) == name.len(),
        tail.len() > 0,
        tail[0] == '@',
    ensures
        index_from(name + tail, '@', from) == name.len(),
    decreases name.len() - from,
{
    let whole = name + tail;
    if from < name.len() {
        assert(whole[from] == name[from]);
        lemma_index_in_front(name, tail, from + 1);
    } else {
        assert(whole[from] == tail[0]);
    }
}

/// A dependency declared under any name with the range `npm:<actual>@<wanted>`
/// asks the registry for `actual` at the range `wanted`.
pub proof fn lemma_alias_names_target(declared: Seq<char>, actual: Seq<char>, wanted: Seq<char>)
    requires
        is_alias_name(actual),
    ensures
        alias_of(alias_text(actual, wanted)) == Some((actual, wanted)),
        lookup_target(declared, alias_text(actual, wanted)) == (actual, wanted),
{
    reveal_strlit("npm:");
    reveal_strlit("@");
    let text = alias_text(actual, wanted);
    assert(text.subrange(0, 4) =~= "npm:"@);
    let rest = text.skip(4);
    let tail = "@"@ + wanted;
    assert(rest =~= actual + tail);
    let start: int = if actual[0] == '@' {
        1
    } else {
        0
    };
    assert(rest[0] == actual[0]);
    lemma_index_in_front(actual, tail, start);
    assert(rest.take(actual.len() as int) =~= actual);
    assert(rest.skip(actual.len() as int + 1) =~= wanted);
}

/// The last position before `n` at which `s` holds `c`, or -1 where it
/// holds none.
pub open spec fn last_index(s: Seq<char>, c: char, n: int) -> int
    decreases n,
{
    if n <= 0 || n > s.len() {
        -1
    } else if s[n - 1] == c {
        n - 1
    } else {
        last_index(s, c, n - 1)
    }
}

/// What a package given as `name@range` names: the last `@` parts the two,
/// and one that opens the text parts nothing; without a range the tag
/// `latest` is asked for.
pub open spec fn package_spec(input: Seq<char>) -> (Seq<char>, Seq<char>) {
    let at = last_index(input, '@', input.len() as int);
    if at <= 0 {
        (input, "latest"@)
    } else {
        (input.take(at), input.skip(at + 1))
    }
}

/// Reads a package given as `name` or `name@range`.
pub fn parse_package_spec(input: &str) -> (r: (String, String))
    ensures
        (r.0@, r.1@) == package_spec(input@),
{
    let v = chars_of(input);
    let mut n: usize = v.len();
    while n > 0 && v[n - 1] != '@'
        invariant
            n <= v.len(),
            v@ == input@,
            last_index(input@, '@', input@.len() as int) == last_index(input@, '@', n as int),
        decreases n,
    {
        n -= 1;
    }
    if n <= 1 {
        (input.to_owned(), "latest".to_owned())
    } else {
        let name = text_of_range(&v, 0, n - 1);
        let range = text_of_range(&v, n, v.len());
        proof {
            assert(v@.subrange(0, n - 1) =~= input@.take(n - 1));
            assert(v@.subrange(n as int, v.len() as int) =~= input@.skip(n as int));
        }
        (name, range)
    }
}

/// The range that is written into the manifest for a package that was
/// added at `version`: the versions compatible with it.
pub fn caret_range(version: &str) -> (r: String)
    ensures
        r@ == "^"@ + version@,
{
    join2("^", version)
}

/// `s` without its dashes.
pub open spec fn without_dashes(s: Seq<char>) -> Seq<char>
    decreases s.len(),
{
    if s.len() == 0 {
        s
    } else if s.last() == '-' {
        without_dashes(s.drop_last())
    } else {
        without_dashes(s.drop_last()).push(s.last())
    }
}

/// Names that a mistyped `name` may have been meant for: the type
/// declarations of an unscoped name, the name with `-js` and with `js`
/// behind it, and the name without its dashes where it has any.
pub open spec fn suggestions_for(name: Seq<char>) -> Seq<Seq<char>> {
    let typed = if name.len() > 0 && name[0] == '@' {
        Seq::empty()
    } else {
        seq!["@types/"@ + name]
    };
    let plain = if without_dashes(name) != name {
        seq![without_dashes(name)]
    } else {
        Seq::empty()
    };
    typed + seq![name + "-js"@, name + "js"@] + plain
}

/// The suggestions for a name that the registry does not know.
pub fn suggest_names(name: &str) -> (r: Vec<String>)
    ensures
        texts(r@) == suggestions_for(name@),
        r@.len() <= 5,
{
    let v = chars_of(name);
    let mut r: Vec<String> = Vec::new();
    if !(v.len() > 0 && v[0] == '@') {
        r.push(join2("@types/", name));
    }
    r.push(join2(name, "-js"));
    r.push(join2(name, "js"));
    let mut bare: Vec<char> = Vec::new();
    let mut i: usize = 0;
    while i < v.len()
        invariant
            i <= v.len(),
            bare@ == without_dashes(v@.take(i as int)),
            bare@.len() <= i,
            (bare@.len() == i) == (bare@ =~= v@.take(i as int)),
        decreases v.len() - i,
    {
        proof {
            assert(v@.take(i + 1).drop_last() =~= v@.take(i as int));
            assert(v@.take(i + 1) =~= v@.take(i as int).push(v@[i as int]));
        }
        if v[i] != '-' {
            bare.push(v[i]);
        }
        i += 1;
    }
    assert(v@.take(v.len() as int) =~= v@);
    if bare.len() != v.len() {
        r.push(crate::text::text_of(&bare));
    }
    assert(texts(r@) =~= suggestions_for(name@));
    r
}

/// What a response of the registry with the given status means for the
/// request of `name`: nothing wrong where the status is one of success, an
/// unknown package where it is 404, a network failure otherwise.
pub open spec fn is_status_error(
    r: Option<RpmError>,
    name: Seq<char>,
    status: u16,
    reason: Seq<char>,
) -> bool {
    if 200 <= status < 300 {
        r is None
    } else if status == 404 {
        r matches Some(RpmError::PackageNotFound { name: n, suggestions }) && n@ == name && texts(
            suggestions@,
        ) == suggestions_for(name)
    } else {
        r matches Some(RpmError::NetworkError { name: n, status: s, message }) && n@ == name && s
            == Some(status) && message@ == reason
    }
}

/// Judges the status of a response of the registry.
pub fn status_error(name: &str, status: u16, reason: &str) -> (r: Option<RpmError>)
    ensures
        is_status_error(r, name@, status, reason@),
{
    if 200 <= status && status < 300 {
        None
    } else if status == 404 {
        Some(RpmError::PackageNotFound { name: name.to_owned(), suggestions: suggest_names(name) })
    } else {
        Some(
            RpmError::NetworkError {
                name: name.to_owned(),
                status: Some(status),
                message: reason.to_owned(),
            },
        )
    }
}

/// The error for a request that got no response.
pub fn transport_error(name: &str, message: &str) -> (e: RpmError)
    ensures
        e matches RpmError::NetworkError { name: n, status: s, message: m } && n@ == name@ && s
            is None && m@ == message@,
{
    RpmError::NetworkError { name: name.to_owned(), status: None, message: message.to_owned() }
}

/// The error for a response that could not be decoded.
pub fn decode_error(name: &str, message: &str) -> (e: RpmError)
    ensures
        e matches RpmError::ParseError { name: n, message: m } && n@ == name@ && m@ == message@,
{
    RpmError::ParseError { name: name.to_owned(), message: message.to_owned() }
}

impl Registry {
    /// The public registry.
    pub fn new() -> (r: Self)
        ensures
            r.base_url@ == "https://registry.npmjs.org"@,
            r.fetched@.len() == 0,
    {
        Registry { base_url: "https://registry.npmjs.org".to_owned(), fetched: NameMap::new() }
    }

    /// The address that the record of `name` is asked from: the name is
    /// appended as it stands, the slash of a scoped name included.
    pub fn package_url(&self, name: &str) -> (url: String)
        ensures
            url@ == self.base_url@ + "/"@ + name@,
    {
        join3(self.base_url.as_str(), "/", name)
    }

    /// The record of `name`, if it was fetched before: a package is asked
    /// for once.
    pub fn known(&self, name: &str) -> (r: Option<&RegistryPackage>)
        ensures
            r.is_some() == has_name(self.fetched@, name@),
            r matches Some(p) ==> *p == value_of(self.fetched@, name@),
    {
        self.fetched.get(name)
    }

    /// Keeps the record that was fetched for `name`.
    pub fn remember(&mut self, name: &str, package: RegistryPackage)
        ensures
            final(self).base_url == old(self).base_url,
            has_name(final(self).fetched@, name@),
            value_of(final(self).fetched@, name@) == package,
            forall|o: Seq<char>|
                #![trigger has_name(final(self).fetched@, o)]
                o != name@ ==> has_name(final(self).fetched@, o) == has_name(old(self).fetched@, o),
            forall|o: Seq<char>|
                #![trigger value_of(final(self).fetched@, o)]
                o != name@ && has_name(old(self).fetched@, o) ==> value_of(final(self).fetched@, o)
                    == value_of(old(self).fetched@, o),
    {
        self.fetched.insert(name.to_owned(), package);
    }

    /// Picks the version of `package` that `range` asks for.
    pub fn resolve_version<'a>(&self, package: &'a RegistryPackage, range: &str) -> (r: Result<
        &'a RegistryVersion,
        RpmError,
    >)
        ensures
            resolves_to(*package, range@, r),
    {
        match package.dist_tags.get(range) {
            Some(tag) => {
                return match package.versions.get(tag.as_str()) {
                    Some(v) => Ok(v),
                    None => Err(version_not_found(package, range)),
                };
            },
            None => {},
        }
        let searched: &str = if range_parses(range) {
            range
        } else {
            "*"
        };
        assert(searched@ == effective_range(range@));
        let ghost vs = package.versions@;
        let n = package.versions.len();
        let mut best: Option<usize> = None;
        let mut i: usize = 0;
        while i < n
            invariant
                n == vs.len(),
                vs == package.versions@,
                i <= n,
                best is None ==> forall|j: int| 0 <= j < i ==> !#[trigger] is_candidate(
                    vs,
                    searched@,
                    j,
                ),
                best matches Some(b) ==> {
                    &&& b < i
                    &&& is_candidate(vs, searched@, b as int)
                    &&& forall|j: int| #[trigger]
                        is_candidate(vs, searched@, j) && j < i && j != b ==> semver_order(
                            vs[b as int].1.version@,
                            vs[j].1.version@,
                        ) >= 0
                    &&& forall|j: int| #[trigger]
                        is_candidate(vs, searched@, j) && j < b ==> semver_order(
                            vs[b as int].1.version@,
                            vs[j].1.version@,
                        ) > 0
                },
            decreases n - i,
        {
            let v = package.versions.value_at(i);
            if range_admits(searched, v.version.as_str()) {
                match best {
                    None => {
                        best = Some(i);
                    },
                    Some(b) => {
                        let held = package.versions.value_at(b);
                        let o = version_order(v.version.as_str(), held.version.as_str());
                        if o > 0 {
                            proof {
                                assert forall|j: int| #[trigger]
                                    is_candidate(vs, searched@, j) && j < i + 1 && j
                                        != i implies semver_order(
                                    vs[i as int].1.version@,
                                    vs[j].1.version@,
                                ) > 0 by {
                                    if j != b {
                                        assert(semver_order(
                                            vs[b as int].1.version@,
                                            vs[j].1.version@,
                                        ) >= 0);
                                    }
                                }
                            }
                            best = Some(i);
                        }
                    },
                }
            }
            i += 1;
        }
        match best {
            Some(b) => {
                assert(is_selected(vs, searched@, b as int));
                Ok(package.versions.value_at(b))
            },
            None => Err(version_not_found(package, range)),
        }
    }
}

} // verus!

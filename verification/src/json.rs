//! JSON documents as values, and what the manifest, the registry's records
//! and the lockfile look like in them.

use crate::name_map::{ascending, has_name, lemma_found_at, text_pairs, value_of, NameMap};
use crate::text::{lemma_text_order, same_text, text_less, texts};
use crate::types::{
    opt_bin, opt_text, BinField, BinView, LockFile, LockFileView, LockPackage, LockPackageView,
    PackageJson, RegistryDist, RegistryPackage, RegistryVersion,
};
use vstd::prelude::*;
use vstd::string::*;

verus! {

broadcast use vstd::string::group_string_axioms;

/// A JSON value. A number that is no whole number from 0 to 2^64 - 1 is
/// held as it is written.
pub enum Json {
    Null,
    Bool(bool),
    Integer(u64),
    Number(String),
    Text(String),
    List(Vec<Json>),
    Object(Vec<(String, Json)>),
}

/// The value of the first member from position `i` on that is named `key`.
pub open spec fn field_from(members: Seq<(String, Json)>, key: Seq<char>, i: int) -> Option<Json>
    decreases members.len() - i,
{
    if i < 0 || i >= members.len() {
        None
    } else if members[i].0@ == key {
        Some(members[i].1)
    } else {
        field_from(members, key, i + 1)
    }
}

/// The member of an object that is named `key`: the first, if there are
/// several. A member that is `null` counts as missing.
pub open spec fn field(j: Json, key: Seq<char>) -> Option<Json> {
    match j {
        Json::Object(members) => {
            let found = field_from(members@, key, 0);
            if found is Some && found->0 is Null {
                None
            } else {
                found
            }
        },
        _ => None,
    }
}

/// The text of a member that has to be there as a string.
pub open spec fn text_field(j: Json, key: Seq<char>) -> Option<Seq<char>> {
    match field(j, key) {
        Some(Json::Text(t)) => Some(t@),
        _ => None,
    }
}

/// Whether a member is missing or a string.
pub open spec fn text_or_missing(j: Json, key: Seq<char>) -> bool {
    match field(j, key) {
        None => true,
        Some(Json::Text(_)) => true,
        _ => false,
    }
}

fn find_member<'a>(members: &'a Vec<(String, Json)>, key: &str) -> (r: Option<&'a Json>)
    ensures
        match r {
            Some(found) => field_from(members@, key@, 0) == Some(*found),
            None => field_from(members@, key@, 0) is None,
        },
{
    let mut i: usize = 0;
    while i < members.len()
        invariant
            i <= members.len(),
            field_from(members@, key@, 0) == field_from(members@, key@, i as int),
        decreases members.len() - i,
    {
        if same_text(members[i].0.as_str(), key) {
            return Some(&members[i].1);
        }
        i += 1;
    }
    None
}

impl Json {
    /// The member of an object that is named `key`.
    pub fn get(&self, key: &str) -> (r: Option<&Json>)
        ensures
            match r {
                Some(found) => field(*self, key@) == Some(*found),
                None => field(*self, key@) is None,
            },
    {
        match self {
            Json::Object(members) => match find_member(members, key) {
                Some(Json::Null) => None,
                Some(found) => Some(found),
                None => None,
            },
            _ => None,
        }
    }

    /// The text of a member that has to be there as a string.
    pub fn get_text(&self, key: &str) -> (r: Option<String>)
        ensures
            opt_text(r) == text_field(*self, key@),
    {
        match self.get(key) {
            Some(Json::Text(t)) => Some(t.clone()),
            _ => None,
        }
    }
}

/// Whether every member of an object is a string.
pub open spec fn all_text(members: Seq<(String, Json)>) -> bool {
    forall|i: int| 0 <= i < members.len() ==> (#[trigger] members[i]).1 is Text
}

/// Whether a member is the last of its name.
pub open spec fn is_last(members: Seq<(String, Json)>, i: int) -> bool {
    0 <= i < members.len() && forall|j: int|
        i < j < members.len() ==> (#[trigger] members[j]).0@ != members[i].0@
}

/// Whether the map `m` holds what the members say: a name for each member's
/// name, and under it the text of the last member of that name.
pub open spec fn names_from(members: Seq<(String, Json)>, m: Seq<(Seq<char>, String)>) -> bool {
    &&& ascending(m)
    &&& forall|k: Seq<char>| #[trigger]
        has_name(m, k) == exists|i: int| 0 <= i < members.len() && (#[trigger] members[i]).0@ == k
    &&& forall|i: int| #[trigger]
        is_last(members, i) ==> (members[i].1 matches Json::Text(t) && value_of(
            m,
            members[i].0@,
        )@ == t@)
}

/// What a member that holds a map of names says: nothing where it is
/// missing, no map at all where it is no object of strings.
pub open spec fn names_field(j: Json, key: Seq<char>, r: Option<NameMap<String>>) -> bool {
    match field(j, key) {
        None => r matches Some(m) && m@.len() == 0,
        Some(Json::Object(members)) => if all_text(members@) {
            r matches Some(m) && names_from(members@, m@)
        } else {
            r is None
        },
        _ => r is None,
    }
}

fn read_names(members: &Vec<(String, Json)>) -> (r: Option<NameMap<String>>)
    ensures
        r.is_some() == all_text(members@),
        r matches Some(m) ==> names_from(members@, m@),
{
    let mut m: NameMap<String> = NameMap::new();
    proof {
        use_type_invariant(&m);
    }
    assert forall|k: Seq<char>| !has_name(m@, k) by {
        if has_name(m@, k) {
            let w = choose|i: int| 0 <= i < m@.len() && #[trigger] m@[i].0 == k;
        }
    }
    let mut i: usize = 0;
    assert(names_from(members@.take(0), m@));
    while i < members.len()
        invariant
            i <= members.len(),
            all_text(members@.take(i as int)),
            names_from(members@.take(i as int), m@),
            m.ordered(),
        decreases members.len() - i,
    {
        let ghost before = members@.take(i as int);
        let ghost after = members@.take(i + 1);
        let ghost old_m = m@;
        proof {
            assert(after[i as int] == members@[i as int]);
            assert forall|j: int| 0 <= j < i implies after[j] == before[j] by {}
        }
        match &members[i].1 {
            Json::Text(t) => {
                m.insert(members[i].0.clone(), t.clone());
                proof {
                    use_type_invariant(&m);
                    let k0 = members@[i as int].0@;
                    assert forall|k: Seq<char>| #[trigger]
                        has_name(m@, k) == exists|x: int|
                            0 <= x < after.len() && (#[trigger] after[x]).0@ == k by {
                        if k == k0 {
                            assert(after[i as int].0@ == k);
                        } else {
                            assert(has_name(m@, k) == has_name(old_m, k));
                            if has_name(old_m, k) {
                                let x = choose|x: int|
                                    0 <= x < before.len() && (#[trigger] before[x]).0@ == k;
                                assert(after[x].0@ == k);
                            }
                            if exists|x: int| 0 <= x < after.len() && (#[trigger] after[x]).0@ == k {
                                let x = choose|x: int|
                                    0 <= x < after.len() && (#[trigger] after[x]).0@ == k;
                                assert(before[x].0@ == k);
                            }
                        }
                    }
                    assert forall|x: int| #[trigger] is_last(after, x) implies (
                    after[x].1 matches Json::Text(tx) && value_of(m@, after[x].0@)@ == tx@) by {
                        if x < i {
                            assert(after[i as int].0@ != after[x].0@);
                            assert(is_last(before, x)) by {
                                assert forall|y: int| x < y < before.len() implies (
                                #[trigger] before[y]).0@ != before[x].0@ by {
                                    assert(after[y].0@ != after[x].0@);
                                }
                            }
                            assert(has_name(old_m, before[x].0@)) by {
                                assert(before[x].0@ == before[x].0@);
                            }
                            assert(value_of(m@, before[x].0@) == value_of(old_m, before[x].0@));
                        }
                    }
                    assert(all_text(after));
                }
            },
            _ => {
                assert(!all_text(members@));
                return None;
            },
        }
        i += 1;
    }
    assert(members@.take(members.len() as int) =~= members@);
    Some(m)
}

/// Reads a member that holds a map from names to strings.
pub fn get_names(j: &Json, key: &str) -> (r: Option<NameMap<String>>)
    ensures
        names_field(*j, key@, r),
{
    match j.get(key) {
        None => Some(NameMap::new()),
        Some(Json::Object(members)) => read_names(members),
        Some(_) => None,
    }
}

/// Whether a member that holds a map of names can be read: it is missing
/// or an object of strings.
pub open spec fn names_readable(j: Json, key: Seq<char>) -> bool {
    match field(j, key) {
        None => true,
        Some(Json::Object(members)) => all_text(members@),
        _ => false,
    }
}

/// The members of an object that are strings, in their order.
pub open spec fn text_members(members: Seq<(String, Json)>) -> Seq<(String, Json)>
    decreases members.len(),
{
    if members.len() == 0 {
        Seq::empty()
    } else if members.last().1 is Text {
        text_members(members.drop_last()).push(members.last())
    } else {
        text_members(members.drop_last())
    }
}

/// What a `bin` member says: one path where it is a string, a table of the
/// members that are strings where it is an object, nothing otherwise.
pub open spec fn bin_field(j: Json, key: Seq<char>, r: Option<BinField>) -> bool {
    match field(j, key) {
        Some(Json::Text(t)) => r matches Some(BinField::Single(p)) && p@ == t@,
        Some(Json::Object(members)) => r matches Some(BinField::Table(m)) && names_from(
            text_members(members@),
            m@,
        ),
        _ => r is None,
    }
}

/// Reads a `bin` member.
pub fn get_bin(j: &Json, key: &str) -> (r: Option<BinField>)
    ensures
        bin_field(*j, key@, r),
{
    match j.get(key) {
        Some(Json::Text(t)) => Some(BinField::Single(t.clone())),
        Some(Json::Object(members)) => {
            let mut kept: Vec<(String, Json)> = Vec::new();
            let mut i: usize = 0;
            while i < members.len()
                invariant
                    i <= members.len(),
                    kept@ == text_members(members@.take(i as int)),
                    all_text(kept@),
                decreases members.len() - i,
            {
                proof {
                    let next = members@.take(i + 1);
                    assert(next.drop_last() =~= members@.take(i as int));
                    assert(next.last() == members@[i as int]);
                }
                match &members[i].1 {
                    Json::Text(t) => {
                        kept.push((members[i].0.clone(), Json::Text(t.clone())));
                    },
                    _ => {},
                }
                i += 1;
            }
            assert(members@.take(members.len() as int) =~= members@);
            match read_names(&kept) {
                Some(m) => Some(BinField::Table(m)),
                None => None,
            }
        },
        _ => None,
    }
}

/// Whether an object can be read as a lock entry: it has a version and a
/// place it was fetched from, and what else it holds has the right shape.
pub open spec fn entry_readable(j: Json) -> bool {
    &&& text_field(j, "version"@) is Some
    &&& text_field(j, "resolved"@) is Some
    &&& text_or_missing(j, "integrity"@)
    &&& names_readable(j, "dependencies"@)
    &&& names_readable(j, "peerDependencies"@)
    &&& names_readable(j, "optionalDependencies"@)
    &&& text_or_missing(j, "postinstall"@)
}

/// What reading an object as a lock entry gives.
pub open spec fn entry_of(j: Json, r: Option<LockPackage>) -> bool {
    &&& r.is_some() == entry_readable(j)
    &&& r matches Some(e) ==> {
        &&& Some(e.version@) == text_field(j, "version"@)
        &&& Some(e.resolved@) == text_field(j, "resolved"@)
        &&& opt_text(e.integrity) == text_field(j, "integrity"@)
        &&& names_field(j, "dependencies"@, Some(e.dependencies))
        &&& names_field(j, "peerDependencies"@, Some(e.peer_dependencies))
        &&& names_field(j, "optionalDependencies"@, Some(e.optional_dependencies))
        &&& opt_text(e.postinstall) == text_field(j, "postinstall"@)
        &&& bin_field(j, "bin"@, e.bin)
    }
}

fn get_optional_text(j: &Json, key: &str) -> (r: Option<Option<String>>)
    ensures
        r.is_some() == text_or_missing(*j, key@),
        r matches Some(t) ==> opt_text(t) == text_field(*j, key@),
{
    match j.get(key) {
        None => Some(None),
        Some(Json::Text(t)) => Some(Some(t.clone())),
        Some(_) => None,
    }
}

impl LockPackage {
    /// Reads a lock entry from its JSON object.
    pub fn from_json(j: &Json) -> (r: Option<LockPackage>)
        ensures
            entry_of(*j, r),
    {
        let version = match j.get_text("version") {
            Some(t) => t,
            None => {
                return None;
            },
        };
        let resolved = match j.get_text("resolved") {
            Some(t) => t,
            None => {
                return None;
            },
        };
        let integrity = match get_optional_text(j, "integrity") {
            Some(t) => t,
            None => {
                return None;
            },
        };
        let dependencies = match get_names(j, "dependencies") {
            Some(m) => m,
            None => {
                return None;
            },
        };
        let peer_dependencies = match get_names(j, "peerDependencies") {
            Some(m) => m,
            None => {
                return None;
            },
        };
        let optional_dependencies = match get_names(j, "optionalDependencies") {
            Some(m) => m,
            None => {
                return None;
            },
        };
        let postinstall = match get_optional_text(j, "postinstall") {
            Some(t) => t,
            None => {
                return None;
            },
        };
        let bin = get_bin(j, "bin");
        Some(
            LockPackage {
                version,
                resolved,
                integrity,
                dependencies,
                peer_dependencies,
                optional_dependencies,
                postinstall,
                bin,
            },
        )
    }
}

/// The format number of a lockfile: a whole number that fits 32 bits.
pub open spec fn format_field(j: Json) -> Option<u32> {
    match field(j, "lockfileVersion"@) {
        Some(Json::Integer(n)) => if n <= u32::MAX {
            Some(n as u32)
        } else {
            None
        },
        _ => None,
    }
}

/// Whether every member can be read as a lock entry.
pub open spec fn all_entries(members: Seq<(String, Json)>) -> bool {
    forall|i: int| 0 <= i < members.len() ==> entry_readable((#[trigger] members[i]).1)
}

/// Whether the member `packages` can be read: it is missing or an object of
/// lock entries.
pub open spec fn packages_readable(j: Json) -> bool {
    match field(j, "packages"@) {
        None => true,
        Some(Json::Object(members)) => all_entries(members@),
        _ => false,
    }
}

/// Whether the map `m` holds what the members say: a name for each member's
/// name, and under it the entry read from the last member of that name.
pub open spec fn packages_from(members: Seq<(String, Json)>, m: Seq<(Seq<char>, LockPackage)>) -> bool {
    &&& ascending(m)
    &&& forall|k: Seq<char>| #[trigger]
        has_name(m, k) == exists|i: int| 0 <= i < members.len() && (#[trigger] members[i]).0@ == k
    &&& forall|i: int| #[trigger]
        is_last(members, i) ==> entry_of(members[i].1, Some(value_of(m, members[i].0@)))
}

/// Whether an object can be read as a lockfile.
pub open spec fn lock_readable(j: Json) -> bool {
    &&& text_field(j, "name"@) is Some
    &&& text_field(j, "version"@) is Some
    &&& format_field(j) is Some
    &&& packages_readable(j)
}

/// What reading an object as a lockfile gives.
pub open spec fn lock_of(j: Json, r: Option<LockFile>) -> bool {
    &&& r.is_some() == lock_readable(j)
    &&& r matches Some(l) ==> {
        &&& Some(l.name@) == text_field(j, "name"@)
        &&& Some(l.version@) == text_field(j, "version"@)
        &&& Some(l.lockfile_version) == format_field(j)
        &&& match field(j, "packages"@) {
            Some(Json::Object(members)) => packages_from(members@, l.packages@),
            _ => l.packages@.len() == 0,
        }
    }
}

fn read_packages(members: &Vec<(String, Json)>) -> (r: Option<NameMap<LockPackage>>)
    ensures
        r.is_some() == all_entries(members@),
        r matches Some(m) ==> packages_from(members@, m@),
{
    let mut m: NameMap<LockPackage> = NameMap::new();
    proof {
        use_type_invariant(&m);
    }
    assert forall|k: Seq<char>| !has_name(m@, k) by {
        if has_name(m@, k) {
            let w = choose|i: int| 0 <= i < m@.len() && #[trigger] m@[i].0 == k;
        }
    }
    let mut i: usize = 0;
    assert(packages_from(members@.take(0), m@));
    while i < members.len()
        invariant
            i <= members.len(),
            all_entries(members@.take(i as int)),
            packages_from(members@.take(i as int), m@),
            m.ordered(),
        decreases members.len() - i,
    {
        let ghost before = members@.take(i as int);
        let ghost after = members@.take(i + 1);
        let ghost old_m = m@;
        proof {
            assert(after[i as int] == members@[i as int]);
            assert forall|j: int| 0 <= j < i implies after[j] == before[j] by {}
        }
        match LockPackage::from_json(&members[i].1) {
            Some(entry) => {
                m.insert(members[i].0.clone(), entry);
                proof {
                    use_type_invariant(&m);
                    let k0 = members@[i as int].0@;
                    assert forall|k: Seq<char>| #[trigger]
                        has_name(m@, k) == exists|x: int|
                            0 <= x < after.len() && (#[trigger] after[x]).0@ == k by {
                        if k == k0 {
                            assert(after[i as int].0@ == k);
                        } else {
                            assert(has_name(m@, k) == has_name(old_m, k));
                            if has_name(old_m, k) {
                                let x = choose|x: int|
                                    0 <= x < before.len() && (#[trigger] before[x]).0@ == k;
                                assert(after[x].0@ == k);
                            }
                            if exists|x: int| 0 <= x < after.len() && (#[trigger] after[x]).0@ == k {
                                let x = choose|x: int|
                                    0 <= x < after.len() && (#[trigger] after[x]).0@ == k;
                                assert(before[x].0@ == k);
                            }
                        }
                    }
                    assert forall|x: int| #[trigger] is_last(after, x) implies entry_of(
                        after[x].1,
                        Some(value_of(m@, after[x].0@)),
                    ) by {
                        if x < i {
                            assert(after[i as int].0@ != after[x].0@);
                            assert(is_last(before, x)) by {
                                assert forall|y: int| x < y < before.len() implies (
                                #[trigger] before[y]).0@ != before[x].0@ by {
                                    assert(after[y].0@ != after[x].0@);
                                }
                            }
                            assert(has_name(old_m, before[x].0@)) by {
                                assert(before[x].0@ == before[x].0@);
                            }
                            assert(value_of(m@, before[x].0@) == value_of(old_m, before[x].0@));
                        }
                    }
                    assert(all_entries(after));
                }
            },
            None => {
                assert(!all_entries(members@));
                return None;
            },
        }
        i += 1;
    }
    assert(members@.take(members.len() as int) =~= members@);
    Some(m)
}

impl LockFile {
    /// Reads a lockfile from its JSON document.
    pub fn from_json(j: &Json) -> (r: Option<LockFile>)
        ensures
            lock_of(*j, r),
    {
        let name = match j.get_text("name") {
            Some(t) => t,
            None => {
                return None;
            },
        };
        let version = match j.get_text("version") {
            Some(t) => t,
            None => {
                return None;
            },
        };
        let lockfile_version: u32 = match j.get("lockfileVersion") {
            Some(Json::Integer(n)) => {
                if *n <= 0xffff_ffff {
                    *n as u32
                } else {
                    return None;
                }
            },
            _ => {
                return None;
            },
        };
        let packages = match j.get("packages") {
            None => NameMap::new(),
            Some(Json::Object(members)) => match read_packages(members) {
                Some(m) => m,
                None => {
                    return None;
                },
            },
            Some(_) => {
                return None;
            },
        };
        Some(LockFile { name, version, lockfile_version, packages })
    }
}

/// Whether the members list the names of `deps` with their texts, in
/// order.
pub open spec fn lists_names(members: Seq<(String, Json)>, deps: Seq<(Seq<char>, Seq<char>)>) -> bool {
    &&& members.len() == deps.len()
    &&& forall|i: int|
        0 <= i < members.len() ==> (#[trigger] members[i]).0@ == deps[i].0 && (
        members[i].1 matches Json::Text(t) && t@ == deps[i].1)
}

/// Whether an object has no member named `key`.
pub open spec fn absent(j: Json, key: Seq<char>) -> bool {
    j matches Json::Object(members) && field_from(members@, key, 0) is None
}

/// Whether an optional text is written as a string, or left out.
pub open spec fn text_written(j: Json, key: Seq<char>, t: Option<Seq<char>>) -> bool {
    match t {
        Some(t) => text_field(j, key) == Some(t),
        None => absent(j, key),
    }
}

/// Whether a map of names is written as an object of strings, or left out
/// where it is empty.
pub open spec fn names_written(j: Json, key: Seq<char>, deps: Seq<(Seq<char>, Seq<char>)>) -> bool {
    if deps.len() == 0 {
        absent(j, key)
    } else {
        field(j, key) matches Some(Json::Object(members)) && lists_names(members@, deps)
    }
}

/// Whether a `bin` field is written as it stands, or left out.
pub open spec fn bin_written(j: Json, key: Seq<char>, b: Option<BinView>) -> bool {
    match b {
        None => absent(j, key),
        Some(BinView::Single(p)) => text_field(j, key) == Some(p),
        Some(BinView::Table(t)) => field(j, key) matches Some(Json::Object(members))
            && lists_names(members@, t),
    }
}

/// The names of the members, in order.
pub open spec fn member_keys(members: Seq<(String, Json)>) -> Seq<Seq<char>> {
    Seq::new(members.len(), |i: int| members[i].0@)
}

/// `key` where it is written, nothing otherwise.
pub open spec fn key_if(written: bool, key: Seq<char>) -> Seq<Seq<char>> {
    if written {
        seq![key]
    } else {
        Seq::empty()
    }
}

/// The names of the members of a lock entry's object, in the order in
/// which they are written.
pub open spec fn entry_keys(e: LockPackageView) -> Seq<Seq<char>> {
    seq!["version"@, "resolved"@] + key_if(e.integrity is Some, "integrity"@) + key_if(
        e.dependencies.len() > 0,
        "dependencies"@,
    ) + key_if(e.peer_dependencies.len() > 0, "peerDependencies"@) + key_if(
        e.optional_dependencies.len() > 0,
        "optionalDependencies"@,
    ) + key_if(e.postinstall is Some, "postinstall"@) + key_if(e.bin is Some, "bin"@)
}

/// How many members the object of a lock entry has.
pub open spec fn entry_size(e: LockPackageView) -> int {
    2 + (if e.integrity is Some {
        1int
    } else {
        0
    }) + (if e.dependencies.len() > 0 {
        1int
    } else {
        0
    }) + (if e.peer_dependencies.len() > 0 {
        1int
    } else {
        0
    }) + (if e.optional_dependencies.len() > 0 {
        1int
    } else {
        0
    }) + (if e.postinstall is Some {
        1int
    } else {
        0
    }) + (if e.bin is Some {
        1int
    } else {
        0
    })
}

/// Whether `j` is the object written for a lock entry: its version and the
/// place it was fetched from, and of the rest what is there; an integrity,
/// a script or a `bin` that is missing and a map that is empty are left
/// out.
pub open spec fn is_entry_json(j: Json, e: LockPackageView) -> bool {
    &&& j matches Json::Object(members) && members@.len() == entry_size(e) && member_keys(members@)
        == entry_keys(e)
    &&& text_field(j, "version"@) == Some(e.version)
    &&& text_field(j, "resolved"@) == Some(e.resolved)
    &&& text_written(j, "integrity"@, e.integrity)
    &&& names_written(j, "dependencies"@, e.dependencies)
    &&& names_written(j, "peerDependencies"@, e.peer_dependencies)
    &&& names_written(j, "optionalDependencies"@, e.optional_dependencies)
    &&& text_written(j, "postinstall"@, e.postinstall)
    &&& bin_written(j, "bin"@, e.bin)
}

/// Whether the members list the entries of a lockfile, in order.
pub open spec fn lists_entries(
    members: Seq<(String, Json)>,
    packages: Seq<(Seq<char>, LockPackageView)>,
) -> bool {
    &&& members.len() == packages.len()
    &&& forall|i: int|
        0 <= i < members.len() ==> (#[trigger] members[i]).0@ == packages[i].0 && is_entry_json(
            members[i].1,
            packages[i].1,
        )
}

/// Whether `j` is the document written for a lockfile: the project's name
/// and version, the format number and the entries in the order of their
/// names.
pub open spec fn is_lock_json(j: Json, l: LockFileView) -> bool {
    j matches Json::Object(members) && {
        let m = members@;
        &&& m.len() == 4
        &&& m[0].0@ == "name"@
        &&& (m[0].1 matches Json::Text(t) && t@ == l.name)
        &&& m[1].0@ == "version"@
        &&& (m[1].1 matches Json::Text(t) && t@ == l.version)
        &&& m[2].0@ == "lockfileVersion"@
        &&& m[2].1 == Json::Integer(l.lockfile_version as u64)
        &&& m[3].0@ == "packages"@
        &&& (m[3].1 matches Json::Object(entries) && lists_entries(entries@, l.packages))
    }
}

proof fn lemma_field_push(members: Seq<(String, Json)>, x: (String, Json), key: Seq<char>, i: int)
    requires
        0 <= i <= members.len(),
    ensures
        field_from(members.push(x), key, i) == (match field_from(members, key, i) {
            Some(v) => Some(v),
            None => if x.0@ == key {
                Some(x.1)
            } else {
                None
            },
        }),
    decreases members.len() - i,
{
    let after = members.push(x);
    if i < members.len() {
        assert(after[i] == members[i]);
        lemma_field_push(members, x, key, i + 1);
    } else {
        assert(after[i] == x);
        assert(field_from(after, key, i + 1) is None);
    }
}

fn put_member(members: &mut Vec<(String, Json)>, key: &str, value: Json)
    ensures
        final(members)@.len() == old(members)@.len() + 1,
        member_keys(final(members)@) == member_keys(old(members)@).push(key@),
        forall|k: Seq<char>| #[trigger]
            field_from(final(members)@, k, 0) == (match field_from(old(members)@, k, 0) {
                Some(v) => Some(v),
                None => if k == key@ {
                    Some(value)
                } else {
                    None
                },
            }),
{
    let ghost before = members@;
    let name = key.to_owned();
    members.push((name, value));
    proof {
        assert(member_keys(members@) =~= member_keys(before).push(key@));
        assert forall|k: Seq<char>| #[trigger]
            field_from(members@, k, 0) == (match field_from(before, k, 0) {
                Some(v) => Some(v),
                None => if k == key@ {
                    Some(value)
                } else {
                    None
                },
            }) by {
            lemma_field_push(before, (name, value), k, 0);
        }
    }
}

fn names_to_json(m: &NameMap<String>) -> (j: Json)
    ensures
        j matches Json::Object(members) && lists_names(members@, text_pairs(m@)),
{
    let mut members: Vec<(String, Json)> = Vec::new();
    let n = m.len();
    let mut i: usize = 0;
    while i < n
        invariant
            i <= n,
            n == m@.len(),
            lists_names(members@, text_pairs(m@).take(i as int)),
        decreases n - i,
    {
        members.push((m.name_at(i).clone(), Json::Text(m.value_at(i).clone())));
        i += 1;
    }
    assert(text_pairs(m@).take(n as int) =~= text_pairs(m@));
    Json::Object(members)
}

/// Whether the members hold `t` under `key` as a string, or nothing where
/// there is no text.
pub open spec fn text_member(members: Seq<(String, Json)>, key: Seq<char>, t: Option<Seq<char>>) -> bool {
    match t {
        Some(t) => field_from(members, key, 0) matches Some(Json::Text(x)) && x@ == t,
        None => field_from(members, key, 0) is None,
    }
}

/// Whether the members hold `deps` under `key` as an object of strings, or
/// nothing where there are none.
pub open spec fn names_member(
    members: Seq<(String, Json)>,
    key: Seq<char>,
    deps: Seq<(Seq<char>, Seq<char>)>,
) -> bool {
    if deps.len() == 0 {
        field_from(members, key, 0) is None
    } else {
        field_from(members, key, 0) matches Some(Json::Object(ms)) && lists_names(ms@, deps)
    }
}

/// Whether the members hold a `bin` field under `key`, or nothing where
/// there is none.
pub open spec fn bin_member(members: Seq<(String, Json)>, key: Seq<char>, b: Option<BinView>) -> bool {
    match b {
        None => field_from(members, key, 0) is None,
        Some(BinView::Single(p)) => field_from(members, key, 0) matches Some(Json::Text(x)) && x@
            == p,
        Some(BinView::Table(t)) => field_from(members, key, 0) matches Some(Json::Object(ms))
            && lists_names(ms@, t),
    }
}

/// What the object of a lock entry holds once the first `n` of its eight
/// parts are written.
pub open spec fn written_so_far(members: Seq<(String, Json)>, e: LockPackageView, n: int) -> bool {
    &&& if n > 0 {
        text_member(members, "version"@, Some(e.version))
    } else {
        field_from(members, "version"@, 0) is None
    }
    &&& if n > 1 {
        text_member(members, "resolved"@, Some(e.resolved))
    } else {
        field_from(members, "resolved"@, 0) is None
    }
    &&& if n > 2 {
        text_member(members, "integrity"@, e.integrity)
    } else {
        field_from(members, "integrity"@, 0) is None
    }
    &&& if n > 3 {
        names_member(members, "dependencies"@, e.dependencies)
    } else {
        field_from(members, "dependencies"@, 0) is None
    }
    &&& if n > 4 {
        names_member(members, "peerDependencies"@, e.peer_dependencies)
    } else {
        field_from(members, "peerDependencies"@, 0) is None
    }
    &&& if n > 5 {
        names_member(members, "optionalDependencies"@, e.optional_dependencies)
    } else {
        field_from(members, "optionalDependencies"@, 0) is None
    }
    &&& if n > 6 {
        text_member(members, "postinstall"@, e.postinstall)
    } else {
        field_from(members, "postinstall"@, 0) is None
    }
    &&& if n > 7 {
        bin_member(members, "bin"@, e.bin)
    } else {
        field_from(members, "bin"@, 0) is None
    }
}

/// The names of the parts of a lock entry differ in length, and so from
/// each other.
proof fn lemma_entry_keys()
    ensures
        "version"@.len() == 7,
        "resolved"@.len() == 8,
        "integrity"@.len() == 9,
        "dependencies"@.len() == 12,
        "peerDependencies"@.len() == 16,
        "optionalDependencies"@.len() == 20,
        "postinstall"@.len() == 11,
        "bin"@.len() == 3,
{
    reveal_strlit("version");
    reveal_strlit("resolved");
    reveal_strlit("integrity");
    reveal_strlit("dependencies");
    reveal_strlit("peerDependencies");
    reveal_strlit("optionalDependencies");
    reveal_strlit("postinstall");
    reveal_strlit("bin");
}

impl LockPackage {
    /// The JSON object that is written for the entry.
    pub fn to_json(&self) -> (j: Json)
        ensures
            is_entry_json(j, self@),
    {
        proof {
            lemma_entry_keys();
        }
        let ghost e = self@;
        let mut members: Vec<(String, Json)> = Vec::new();
        assert(written_so_far(members@, e, 0));
        assert(member_keys(members@) =~= Seq::empty());
        put_member(&mut members, "version", Json::Text(self.version.clone()));
        assert(written_so_far(members@, e, 1));
        put_member(&mut members, "resolved", Json::Text(self.resolved.clone()));
        assert(written_so_far(members@, e, 2));
        let ghost size: int = 2;
        let ghost keys: Seq<Seq<char>> = seq!["version"@, "resolved"@];
        assert(member_keys(members@) =~= keys);
        match &self.integrity {
            Some(t) => {
                put_member(&mut members, "integrity", Json::Text(t.clone()));
                proof {
                    size = size + 1;
                }
            },
            None => {},
        }
        proof {
            keys = keys + key_if(e.integrity is Some, "integrity"@);
        }
        assert(member_keys(members@) =~= keys);
        assert(written_so_far(members@, e, 3));
        if self.dependencies.len() > 0 {
            put_member(&mut members, "dependencies", names_to_json(&self.dependencies));
            proof {
                size = size + 1;
            }
        }
        proof {
            keys = keys + key_if(e.dependencies.len() > 0, "dependencies"@);
        }
        assert(member_keys(members@) =~= keys);
        assert(written_so_far(members@, e, 4));
        if self.peer_dependencies.len() > 0 {
            put_member(&mut members, "peerDependencies", names_to_json(&self.peer_dependencies));
            proof {
                size = size + 1;
            }
        }
        proof {
            keys = keys + key_if(e.peer_dependencies.len() > 0, "peerDependencies"@);
        }
        assert(member_keys(members@) =~= keys);
        assert(written_so_far(members@, e, 5));
        if self.optional_dependencies.len() > 0 {
            put_member(
                &mut members,
                "optionalDependencies",
                names_to_json(&self.optional_dependencies),
            );
            proof {
                size = size + 1;
            }
        }
        proof {
            keys = keys + key_if(e.optional_dependencies.len() > 0, "optionalDependencies"@);
        }
        assert(member_keys(members@) =~= keys);
        assert(written_so_far(members@, e, 6));
        match &self.postinstall {
            Some(t) => {
                put_member(&mut members, "postinstall", Json::Text(t.clone()));
                proof {
                    size = size + 1;
                }
            },
            None => {},
        }
        proof {
            keys = keys + key_if(e.postinstall is Some, "postinstall"@);
        }
        assert(member_keys(members@) =~= keys);
        assert(written_so_far(members@, e, 7));
        match &self.bin {
            Some(BinField::Single(p)) => {
                put_member(&mut members, "bin", Json::Text(p.clone()));
                proof {
                    size = size + 1;
                }
            },
            Some(BinField::Table(t)) => {
                put_member(&mut members, "bin", names_to_json(t));
                proof {
                    size = size + 1;
                }
            },
            None => {},
        }
        proof {
            keys = keys + key_if(e.bin is Some, "bin"@);
        }
        assert(member_keys(members@) =~= keys);
        assert(keys == entry_keys(e));
        assert(written_so_far(members@, e, 8));
        assert(members@.len() == size);
        assert(size == entry_size(e));
        Json::Object(members)
    }
}

impl LockFile {
    /// The JSON document that is written for the lockfile.
    pub fn to_json(&self) -> (j: Json)
        ensures
            is_lock_json(j, self@),
    {
        let mut entries: Vec<(String, Json)> = Vec::new();
        let n = self.packages.len();
        let mut i: usize = 0;
        while i < n
            invariant
                i <= n,
                n == self.packages@.len(),
                lists_entries(entries@, self@.packages.take(i as int)),
            decreases n - i,
        {
            let entry = self.packages.value_at(i).to_json();
            entries.push((self.packages.name_at(i).clone(), entry));
            i += 1;
        }
        assert(self@.packages.take(n as int) =~= self@.packages);
        let mut members: Vec<(String, Json)> = Vec::new();
        members.push(("name".to_owned(), Json::Text(self.name.clone())));
        members.push(("version".to_owned(), Json::Text(self.version.clone())));
        members.push(("lockfileVersion".to_owned(), Json::Integer(self.lockfile_version as u64)));
        members.push(("packages".to_owned(), Json::Object(entries)));
        Json::Object(members)
    }
}

/// Whether the maps of a lock entry are in the order of their names.
pub open spec fn wf_entry(e: LockPackageView) -> bool {
    &&& ascending(e.dependencies)
    &&& ascending(e.peer_dependencies)
    &&& ascending(e.optional_dependencies)
    &&& e.bin matches Some(BinView::Table(t)) ==> ascending(t)
}

/// Whether the entries of a lockfile and their maps are in the order of
/// their names.
pub open spec fn wf_lock(l: LockFileView) -> bool {
    &&& ascending(l.packages)
    &&& forall|i: int| 0 <= i < l.packages.len() ==> wf_entry((#[trigger] l.packages[i]).1)
}

proof fn lemma_listed_are_text(members: Seq<(String, Json)>, deps: Seq<(Seq<char>, Seq<char>)>)
    requires
        lists_names(members, deps),
    ensures
        all_text(members),
        text_members(members) == members,
    decreases members.len(),
{
    if members.len() > 0 {
        let front = members.drop_last();
        let fewer = deps.drop_last();
        assert(lists_names(front, fewer)) by {
            assert forall|i: int| 0 <= i < front.len() implies (#[trigger] front[i]).0@
                == fewer[i].0 && (front[i].1 matches Json::Text(t) && t@ == fewer[i].1) by {
                assert(front[i] == members[i]);
            }
        }
        lemma_listed_are_text(front, fewer);
        assert(members.last() == members[members.len() - 1]);
        assert(front.push(members.last()) =~= members);
    } else {
        assert(text_members(members) =~= members);
    }
}

proof fn lemma_names_back(
    members: Seq<(String, Json)>,
    deps: Seq<(Seq<char>, Seq<char>)>,
    m: Seq<(Seq<char>, String)>,
)
    requires
        lists_names(members, deps),
        ascending(deps),
        names_from(members, m),
    ensures
        text_pairs(m) == deps,
{
    assert forall|k: Seq<char>| has_name(m, k) == has_name(deps, k) by {
        if has_name(deps, k) {
            let i = choose|i: int| 0 <= i < deps.len() && #[trigger] deps[i].0 == k;
            assert(members[i].0@ == k);
        }
        if has_name(m, k) {
            let i = choose|i: int| 0 <= i < members.len() && (#[trigger] members[i]).0@ == k;
            assert(deps[i].0 == k);
        }
    }
    crate::name_map::lemma_same_names(m, deps);
    assert forall|i: int| 0 <= i < m.len() implies #[trigger] text_pairs(m)[i] == deps[i] by {
        assert(is_last(members, i)) by {
            assert forall|j: int| i < j < members.len() implies (#[trigger] members[j]).0@
                != members[i].0@ by {
                assert(text_less(deps[i].0, deps[j].0));
                lemma_text_order(deps[i].0, deps[j].0, deps[i].0);
            }
        }
        lemma_found_at(m, i);
    }
    assert(text_pairs(m) =~= deps);
}

proof fn lemma_names_field_back(
    j: Json,
    key: Seq<char>,
    deps: Seq<(Seq<char>, Seq<char>)>,
    m: NameMap<String>,
)
    requires
        names_written(j, key, deps),
        ascending(deps),
        names_field(j, key, Some(m)),
    ensures
        text_pairs(m@) == deps,
        names_readable(j, key),
{
    if deps.len() == 0 {
        assert(text_pairs(m@) =~= deps);
    } else {
        let members = field(j, key)->0->Object_0;
        lemma_listed_are_text(members@, deps);
        lemma_names_back(members@, deps, m@);
    }
}

/// What is written for a lock entry can be read as one.
pub proof fn lemma_entry_readable(j: Json, e: LockPackageView)
    requires
        is_entry_json(j, e),
    ensures
        entry_readable(j),
{
    if e.dependencies.len() > 0 {
        lemma_listed_are_text(field(j, "dependencies"@)->0->Object_0@, e.dependencies);
    }
    if e.peer_dependencies.len() > 0 {
        lemma_listed_are_text(field(j, "peerDependencies"@)->0->Object_0@, e.peer_dependencies);
    }
    if e.optional_dependencies.len() > 0 {
        lemma_listed_are_text(
            field(j, "optionalDependencies"@)->0->Object_0@,
            e.optional_dependencies,
        );
    }
}

/// Reading what was written for a lock entry gives the entry back.
pub proof fn lemma_entry_round_trip(j: Json, e: LockPackageView, r: Option<LockPackage>)
    requires
        is_entry_json(j, e),
        wf_entry(e),
        entry_of(j, r),
    ensures
        r is Some,
        r->0@ == e,
{
    lemma_entry_readable(j, e);
    let x = r->0;
    lemma_names_field_back(j, "dependencies"@, e.dependencies, x.dependencies);
    lemma_names_field_back(j, "peerDependencies"@, e.peer_dependencies, x.peer_dependencies);
    lemma_names_field_back(
        j,
        "optionalDependencies"@,
        e.optional_dependencies,
        x.optional_dependencies,
    );
    match e.bin {
        Some(BinView::Table(t)) => {
            let members = field(j, "bin"@)->0->Object_0;
            lemma_listed_are_text(members@, t);
            lemma_names_back(members@, t, x.bin->0->Table_0@);
        },
        _ => {},
    }
    assert(opt_bin(x.bin) == e.bin);
    assert(x@.dependencies == e.dependencies);
    assert(x@ == e);
}

/// Reading what was written for a lockfile gives the lockfile back.
pub proof fn lemma_lockfile_round_trip(j: Json, l: LockFileView, r: Option<LockFile>)
    requires
        is_lock_json(j, l),
        wf_lock(l),
        lock_of(j, r),
    ensures
        r is Some,
        r->0@ == l,
{
    reveal_strlit("name");
    reveal_strlit("version");
    reveal_strlit("lockfileVersion");
    reveal_strlit("packages");
    assert("name"@.len() == 4);
    assert("version"@.len() == 7);
    assert("lockfileVersion"@.len() == 15);
    assert("packages"@.len() == 8);
    let m = j->Object_0@;
    let entries = m[3].1->Object_0@;
    assert forall|k: Seq<char>|
        field_from(m, k, 0) == (if k == "name"@ {
            Some(m[0].1)
        } else if k == "version"@ {
            Some(m[1].1)
        } else if k == "lockfileVersion"@ {
            Some(m[2].1)
        } else if k == "packages"@ {
            Some(m[3].1)
        } else {
            None
        }) by {
        assert(field_from(m, k, 4) is None);
        assert(field_from(m, k, 3) == if k == "packages"@ {
            Some(m[3].1)
        } else {
            None
        });
        assert(field_from(m, k, 2) == if k == "lockfileVersion"@ {
            Some(m[2].1)
        } else {
            field_from(m, k, 3)
        });
        assert(field_from(m, k, 1) == if k == "version"@ {
            Some(m[1].1)
        } else {
            field_from(m, k, 2)
        });
    }
    assert(field(j, "name"@) == Some(m[0].1));
    assert(field(j, "version"@) == Some(m[1].1));
    assert(field(j, "lockfileVersion"@) == Some(m[2].1));
    assert(field(j, "packages"@) == Some(m[3].1));
    assert(all_entries(entries)) by {
        assert forall|i: int| 0 <= i < entries.len() implies entry_readable(
            (#[trigger] entries[i]).1,
        ) by {
            lemma_entry_readable(entries[i].1, l.packages[i].1);
        }
    }
    assert(lock_readable(j));
    let x = r->0;
    let found = x.packages@;
    assert forall|k: Seq<char>| has_name(found, k) == has_name(l.packages, k) by {
        if has_name(l.packages, k) {
            let i = choose|i: int| 0 <= i < l.packages.len() && #[trigger] l.packages[i].0 == k;
            assert(entries[i].0@ == k);
        }
        if has_name(found, k) {
            let i = choose|i: int| 0 <= i < entries.len() && (#[trigger] entries[i]).0@ == k;
            assert(l.packages[i].0 == k);
        }
    }
    crate::name_map::lemma_same_names(found, l.packages);
    assert forall|i: int| 0 <= i < found.len() implies #[trigger] crate::types::lock_pairs(
        found,
    )[i] == l.packages[i] by {
        assert(is_last(entries, i)) by {
            assert forall|y: int| i < y < entries.len() implies (#[trigger] entries[y]).0@
                != entries[i].0@ by {
                assert(text_less(l.packages[i].0, l.packages[y].0));
                lemma_text_order(l.packages[i].0, l.packages[y].0, l.packages[i].0);
            }
        }
        lemma_found_at(found, i);
        lemma_entry_round_trip(entries[i].1, l.packages[i].1, Some(found[i].1));
    }
    assert(crate::types::lock_pairs(found) =~= l.packages);
    assert(x@ == l);
}

/// Whether every item of a list is a string.
pub open spec fn all_strings(items: Seq<Json>) -> bool {
    forall|i: int| 0 <= i < items.len() ==> (#[trigger] items[i]) is Text
}

/// The texts of a list of strings.
pub open spec fn strings_of(items: Seq<Json>) -> Seq<Seq<char>> {
    Seq::new(items.len(), |i: int| items[i]->Text_0@)
}

/// What a member that holds a list of strings says: nothing where it is
/// missing, no list at all where it is no list of strings.
pub open spec fn list_field(j: Json, key: Seq<char>) -> Option<Seq<Seq<char>>> {
    match field(j, key) {
        None => Some(Seq::empty()),
        Some(Json::List(items)) => if all_strings(items@) {
            Some(strings_of(items@))
        } else {
            None
        },
        _ => None,
    }
}

/// The texts of an optional list of strings.
pub open spec fn opt_texts(r: Option<Vec<String>>) -> Option<Seq<Seq<char>>> {
    match r {
        Some(v) => Some(texts(v@)),
        None => None,
    }
}

fn read_strings(items: &Vec<Json>) -> (r: Option<Vec<String>>)
    ensures
        r.is_some() == all_strings(items@),
        r matches Some(v) ==> texts(v@) == strings_of(items@),
{
    let mut v: Vec<String> = Vec::new();
    let mut i: usize = 0;
    while i < items.len()
        invariant
            i <= items.len(),
            v.len() == i,
            all_strings(items@.take(i as int)),
            texts(v@) == strings_of(items@).take(i as int),
        decreases items.len() - i,
    {
        match &items[i] {
            Json::Text(t) => {
                v.push(t.clone());
                assert(texts(v@) =~= strings_of(items@).take(i + 1));
                assert forall|x: int| 0 <= x < i + 1 implies (#[trigger] items@.take(i + 1)[x])
                    is Text by {
                    if x < i {
                        assert(items@.take(i as int)[x] is Text);
                    }
                }
            },
            _ => {
                assert(!all_strings(items@));
                return None;
            },
        }
        i += 1;
    }
    assert(items@.take(items.len() as int) =~= items@);
    assert(strings_of(items@).take(items.len() as int) =~= strings_of(items@));
    Some(v)
}

/// Reads a member that holds a list of strings.
pub fn get_list(j: &Json, key: &str) -> (r: Option<Vec<String>>)
    ensures
        opt_texts(r) == list_field(*j, key@),
{
    match j.get(key) {
        None => {
            let v: Vec<String> = Vec::new();
            assert(texts(v@) =~= Seq::empty());
            Some(v)
        },
        Some(Json::List(items)) => read_strings(items),
        Some(_) => None,
    }
}

/// The version that a manifest declares: `0.0.0` where it declares none.
pub open spec fn manifest_version(j: Json) -> Option<Seq<char>> {
    match field(j, "version"@) {
        None => Some("0.0.0"@),
        Some(Json::Text(t)) => Some(t@),
        _ => None,
    }
}

/// Whether an object can be read as a manifest: it has a name, and what
/// else it holds of a manifest's members has the right shape.
pub open spec fn manifest_readable(j: Json) -> bool {
    &&& text_field(j, "name"@) is Some
    &&& manifest_version(j) is Some
    &&& names_readable(j, "dependencies"@)
    &&& names_readable(j, "devDependencies"@)
    &&& names_readable(j, "peerDependencies"@)
    &&& names_readable(j, "optionalDependencies"@)
    &&& names_readable(j, "scripts"@)
    &&& list_field(j, "workspaces"@) is Some
}

/// What reading an object as a manifest gives. Members that a manifest
/// does not have are passed over.
pub open spec fn manifest_of(j: Json, r: Option<PackageJson>) -> bool {
    &&& r.is_some() == manifest_readable(j)
    &&& r matches Some(m) ==> {
        &&& Some(m.name@) == text_field(j, "name"@)
        &&& Some(m.version@) == manifest_version(j)
        &&& names_field(j, "dependencies"@, Some(m.dependencies))
        &&& names_field(j, "devDependencies"@, Some(m.dev_dependencies))
        &&& names_field(j, "peerDependencies"@, Some(m.peer_dependencies))
        &&& names_field(j, "optionalDependencies"@, Some(m.optional_dependencies))
        &&& names_field(j, "scripts"@, Some(m.scripts))
        &&& bin_field(j, "bin"@, m.bin)
        &&& Some(texts(m.workspaces@)) == list_field(j, "workspaces"@)
    }
}

impl PackageJson {
    /// Reads a manifest from its JSON document.
    pub fn from_json(j: &Json) -> (r: Option<PackageJson>)
        ensures
            manifest_of(*j, r),
    {
        let name = match j.get_text("name") {
            Some(t) => t,
            None => {
                return None;
            },
        };
        let version = match j.get("version") {
            None => "0.0.0".to_owned(),
            Some(Json::Text(t)) => t.clone(),
            Some(_) => {
                return None;
            },
        };
        let dependencies = match get_names(j, "dependencies") {
            Some(m) => m,
            None => {
                return None;
            },
        };
        let dev_dependencies = match get_names(j, "devDependencies") {
            Some(m) => m,
            None => {
                return None;
            },
        };
        let peer_dependencies = match get_names(j, "peerDependencies") {
            Some(m) => m,
            None => {
                return None;
            },
        };
        let optional_dependencies = match get_names(j, "optionalDependencies") {
            Some(m) => m,
            None => {
                return None;
            },
        };
        let scripts = match get_names(j, "scripts") {
            Some(m) => m,
            None => {
                return None;
            },
        };
        let bin = get_bin(j, "bin");
        let workspaces = match get_list(j, "workspaces") {
            Some(v) => v,
            None => {
                return None;
            },
        };
        Some(
            PackageJson {
                name,
                version,
                dependencies,
                dev_dependencies,
                peer_dependencies,
                optional_dependencies,
                scripts,
                bin,
                workspaces,
            },
        )
    }
}

/// The address of a version's archive: the member `tarball` of its member
/// `dist`.
pub open spec fn tarball_field(j: Json) -> Option<Seq<char>> {
    match field(j, "dist"@) {
        Some(dist) => text_field(dist, "tarball"@),
        None => None,
    }
}

/// The integrity of a version's archive, where its `dist` names one.
pub open spec fn integrity_field(j: Json) -> Option<Seq<char>> {
    match field(j, "dist"@) {
        Some(dist) => text_field(dist, "integrity"@),
        None => None,
    }
}

/// Whether an object can be read as a version record: it has a version and
/// an archive, and what else it holds has the right shape.
pub open spec fn version_readable(j: Json) -> bool {
    &&& text_field(j, "version"@) is Some
    &&& tarball_field(j) is Some
    &&& text_or_missing(j, "name"@)
    &&& text_or_missing(field(j, "dist"@)->0, "integrity"@)
    &&& names_readable(j, "dependencies"@)
    &&& names_readable(j, "peerDependencies"@)
    &&& names_readable(j, "optionalDependencies"@)
    &&& names_readable(j, "scripts"@)
    &&& list_field(j, "os"@) is Some
    &&& list_field(j, "cpu"@) is Some
}

/// The text of a member, or the empty text where it is missing.
pub open spec fn text_or_empty(j: Json, key: Seq<char>) -> Seq<char> {
    match text_field(j, key) {
        Some(t) => t,
        None => Seq::empty(),
    }
}

/// What reading an object as a version record gives.
pub open spec fn version_of(j: Json, r: Option<RegistryVersion>) -> bool {
    &&& r.is_some() == version_readable(j)
    &&& r matches Some(v) ==> {
        &&& v.name@ == text_or_empty(j, "name"@)
        &&& Some(v.version@) == text_field(j, "version"@)
        &&& Some(v.dist.tarball@) == tarball_field(j)
        &&& opt_text(v.dist.integrity) == integrity_field(j)
        &&& names_field(j, "dependencies"@, Some(v.dependencies))
        &&& names_field(j, "peerDependencies"@, Some(v.peer_dependencies))
        &&& names_field(j, "optionalDependencies"@, Some(v.optional_dependencies))
        &&& names_field(j, "scripts"@, Some(v.scripts))
        &&& bin_field(j, "bin"@, v.bin)
        &&& Some(texts(v.os@)) == list_field(j, "os"@)
        &&& Some(texts(v.cpu@)) == list_field(j, "cpu"@)
    }
}

impl RegistryVersion {
    /// Reads a version record from its JSON object.
    pub fn from_json(j: &Json) -> (r: Option<RegistryVersion>)
        ensures
            version_of(*j, r),
    {
        let version = match j.get_text("version") {
            Some(t) => t,
            None => {
                return None;
            },
        };
        let dist = match j.get("dist") {
            Some(d) => d,
            None => {
                return None;
            },
        };
        let tarball = match dist.get_text("tarball") {
            Some(t) => t,
            None => {
                return None;
            },
        };
        let integrity = match get_optional_text(dist, "integrity") {
            Some(t) => t,
            None => {
                return None;
            },
        };
        let name = match get_optional_text(j, "name") {
            Some(Some(t)) => t,
            Some(None) => String::new(),
            None => {
                return None;
            },
        };
        let dependencies = match get_names(j, "dependencies") {
            Some(m) => m,
            None => {
                return None;
            },
        };
        let peer_dependencies = match get_names(j, "peerDependencies") {
            Some(m) => m,
            None => {
                return None;
            },
        };
        let optional_dependencies = match get_names(j, "optionalDependencies") {
            Some(m) => m,
            None => {
                return None;
            },
        };
        let scripts = match get_names(j, "scripts") {
            Some(m) => m,
            None => {
                return None;
            },
        };
        let bin = get_bin(j, "bin");
        let os = match get_list(j, "os") {
            Some(v) => v,
            None => {
                return None;
            },
        };
        let cpu = match get_list(j, "cpu") {
            Some(v) => v,
            None => {
                return None;
            },
        };
        Some(
            RegistryVersion {
                name,
                version,
                dist: RegistryDist { tarball, integrity },
                dependencies,
                peer_dependencies,
                optional_dependencies,
                scripts,
                bin,
                os,
                cpu,
            },
        )
    }
}

/// Whether every member can be read as a version record.
pub open spec fn all_versions(members: Seq<(String, Json)>) -> bool {
    forall|i: int| 0 <= i < members.len() ==> version_readable((#[trigger] members[i]).1)
}

/// Whether the map `m` holds what the members say: a name for each member's
/// name, and under it the version record read from the last member of that
/// name.
pub open spec fn versions_from(members: Seq<(String, Json)>, m: Seq<(Seq<char>, RegistryVersion)>) -> bool {
    &&& ascending(m)
    &&& forall|k: Seq<char>| #[trigger]
        has_name(m, k) == exists|i: int| 0 <= i < members.len() && (#[trigger] members[i]).0@ == k
    &&& forall|i: int| #[trigger]
        is_last(members, i) ==> version_of(members[i].1, Some(value_of(m, members[i].0@)))
}

/// Whether the member `versions` can be read: it is missing or an object of
/// version records.
pub open spec fn versions_readable(j: Json) -> bool {
    match field(j, "versions"@) {
        None => true,
        Some(Json::Object(members)) => all_versions(members@),
        _ => false,
    }
}

/// What reading an object as the registry's record of a package gives.
pub open spec fn package_of(j: Json, r: Option<RegistryPackage>) -> bool {
    &&& r.is_some() == (text_or_missing(j, "name"@) && names_readable(j, "dist-tags"@)
        && versions_readable(j))
    &&& r matches Some(p) ==> {
        &&& p.name@ == text_or_empty(j, "name"@)
        &&& names_field(j, "dist-tags"@, Some(p.dist_tags))
        &&& match field(j, "versions"@) {
            Some(Json::Object(members)) => versions_from(members@, p.versions@),
            _ => p.versions@.len() == 0,
        }
    }
}

fn read_versions(members: &Vec<(String, Json)>) -> (r: Option<NameMap<RegistryVersion>>)
    ensures
        r.is_some() == all_versions(members@),
        r matches Some(m) ==> versions_from(members@, m@),
{
    let mut m: NameMap<RegistryVersion> = NameMap::new();
    proof {
        use_type_invariant(&m);
    }
    assert forall|k: Seq<char>| !has_name(m@, k) by {
        if has_name(m@, k) {
            let w = choose|i: int| 0 <= i < m@.len() && #[trigger] m@[i].0 == k;
        }
    }
    let mut i: usize = 0;
    assert(versions_from(members@.take(0), m@));
    while i < members.len()
        invariant
            i <= members.len(),
            all_versions(members@.take(i as int)),
            versions_from(members@.take(i as int), m@),
            m.ordered(),
        decreases members.len() - i,
    {
        let ghost before = members@.take(i as int);
        let ghost after = members@.take(i + 1);
        let ghost old_m = m@;
        proof {
            assert(after[i as int] == members@[i as int]);
            assert forall|j: int| 0 <= j < i implies after[j] == before[j] by {}
        }
        match RegistryVersion::from_json(&members[i].1) {
            Some(record) => {
                m.insert(members[i].0.clone(), record);
                proof {
                    use_type_invariant(&m);
                    let k0 = members@[i as int].0@;
                    assert forall|k: Seq<char>| #[trigger]
                        has_name(m@, k) == exists|x: int|
                            0 <= x < after.len() && (#[trigger] after[x]).0@ == k by {
                        if k == k0 {
                            assert(after[i as int].0@ == k);
                        } else {
                            assert(has_name(m@, k) == has_name(old_m, k));
                            if has_name(old_m, k) {
                                let x = choose|x: int|
                                    0 <= x < before.len() && (#[trigger] before[x]).0@ == k;
                                assert(after[x].0@ == k);
                            }
                            if exists|x: int| 0 <= x < after.len() && (#[trigger] after[x]).0@ == k {
                                let x = choose|x: int|
                                    0 <= x < after.len() && (#[trigger] after[x]).0@ == k;
                                assert(before[x].0@ == k);
                            }
                        }
                    }
                    assert forall|x: int| #[trigger] is_last(after, x) implies version_of(
                        after[x].1,
                        Some(value_of(m@, after[x].0@)),
                    ) by {
                        if x < i {
                            assert(after[i as int].0@ != after[x].0@);
                            assert(is_last(before, x)) by {
                                assert forall|y: int| x < y < before.len() implies (
                                #[trigger] before[y]).0@ != before[x].0@ by {
                                    assert(after[y].0@ != after[x].0@);
                                }
                            }
                            assert(has_name(old_m, before[x].0@)) by {
                                assert(before[x].0@ == before[x].0@);
                            }
                            assert(value_of(m@, before[x].0@) == value_of(old_m, before[x].0@));
                        }
                    }
                    assert(all_versions(after));
                }
            },
            None => {
                assert(!all_versions(members@));
                return None;
            },
        }
        i += 1;
    }
    assert(members@.take(members.len() as int) =~= members@);
    Some(m)
}

impl RegistryPackage {
    /// Reads the registry's record of a package from its JSON document.
    pub fn from_json(j: &Json) -> (r: Option<RegistryPackage>)
        ensures
            package_of(*j, r),
    {
        let name = match get_optional_text(j, "name") {
            Some(Some(t)) => t,
            Some(None) => String::new(),
            None => {
                return None;
            },
        };
        let dist_tags = match get_names(j, "dist-tags") {
            Some(m) => m,
            None => {
                return None;
            },
        };
        let versions = match j.get("versions") {
            None => NameMap::new(),
            Some(Json::Object(members)) => match read_versions(members) {
                Some(m) => m,
                None => {
                    return None;
                },
            },
            Some(_) => {
                return None;
            },
        };
        Some(RegistryPackage { name, dist_tags, versions })
    }
}

} // verus!

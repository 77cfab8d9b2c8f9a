//! The two concurrent maps of an install run, held in `dashmap::DashMap`:
//! which names have been claimed, and which install scripts wait to be run.

use vstd::prelude::*;

verus! {

/// `dashmap::DashMap`, a hash map that many tasks may share. What a map
/// holds is seen only through the functions below.
#[verifier::external_type_specification]
#[verifier::external_body]
#[verifier::reject_recursive_types(K)]
#[verifier::reject_recursive_types(V)]
#[verifier::reject_recursive_types(S)]
pub struct ExDashMap<K, V, S>(dashmap::DashMap<K, V, S>);

/// The names that a map of claims holds, each with the version it was
/// claimed for.
pub uninterp spec fn claimed(m: dashmap::DashMap<String, String>) -> Map<Seq<char>, Seq<char>>;

/// The scripts that a map of pending scripts holds: under a package's name
/// the directory it was installed into and the command to run there.
pub uninterp spec fn scripts_held(m: dashmap::DashMap<String, (String, String)>) -> Map<
    Seq<char>,
    (Seq<char>, Seq<char>),
>;

/// No claim at all.
pub open spec fn no_claims() -> Map<Seq<char>, Seq<char>> {
    Map::empty()
}

/// No script at all.
pub open spec fn no_scripts() -> Map<Seq<char>, (Seq<char>, Seq<char>)> {
    Map::empty()
}

/// `DashMap::new`: a map that holds nothing.
#[verifier::external_body]
pub(crate) fn claims_new() -> (m: dashmap::DashMap<String, String>)
    ensures
        claimed(m) == no_claims(),
{
    dashmap::DashMap::new()
}

/// `DashMap::contains_key`: whether the map holds the name.
#[verifier::external_body]
pub(crate) fn claims_contains(m: &dashmap::DashMap<String, String>, name: &str) -> (b: bool)
    ensures
        b == claimed(*m).contains_key(name@),
{
    m.contains_key(name)
}

/// `DashMap::insert`: afterwards the map holds the version under the name,
/// and under every other name what it held before.
#[verifier::external_body]
pub(crate) fn claims_insert(m: &mut dashmap::DashMap<String, String>, name: String, version: String)
    ensures
        claimed(*final(m)) == claimed(*old(m)).insert(name@, version@),
{
    m.insert(name, version);
}

/// `DashMap::remove`: afterwards the map does not hold the name, and under
/// every other name what it held before.
#[verifier::external_body]
pub(crate) fn claims_remove(m: &mut dashmap::DashMap<String, String>, name: &str)
    ensures
        claimed(*final(m)) == claimed(*old(m)).remove(name@),
{
    m.remove(name);
}

/// Whether `r` is an entry of `held`, or nothing where `held` is empty.
pub open spec fn is_one_of(r: Option<(String, String)>, held: Map<Seq<char>, Seq<char>>) -> bool {
    match r {
        Some(entry) => held.contains_key(entry.0@) && held[entry.0@] == entry.1@,
        None => held == no_claims(),
    }
}

/// `DashMap::iter`, the first entry copied out: some entry of the map,
/// whichever the map happens to walk first, or none where it holds nothing.
#[verifier::external_body]
pub(crate) fn claims_first(m: &dashmap::DashMap<String, String>) -> (r: Option<(String, String)>)
    ensures
        is_one_of(r, claimed(*m)),
{
    m.iter().next().map(|e| (e.key().clone(), e.value().clone()))
}

/// `DashMap::new`: a map that holds nothing.
#[verifier::external_body]
pub(crate) fn scripts_new() -> (m: dashmap::DashMap<String, (String, String)>)
    ensures
        scripts_held(m) == no_scripts(),
{
    dashmap::DashMap::new()
}

/// `DashMap::insert`: afterwards the map holds the directory and the
/// command under the name, and under every other name what it held before.
#[verifier::external_body]
pub(crate) fn scripts_insert(
    m: &mut dashmap::DashMap<String, (String, String)>,
    name: String,
    path: String,
    command: String,
)
    ensures
        scripts_held(*final(m)) == scripts_held(*old(m)).insert(name@, (path@, command@)),
{
    m.insert(name, (path, command));
}

/// `DashMap::is_empty`: whether the map holds nothing.
#[verifier::external_body]
pub(crate) fn scripts_is_empty(m: &dashmap::DashMap<String, (String, String)>) -> (b: bool)
    ensures
        b == (scripts_held(*m) == no_scripts()),
{
    m.is_empty()
}

/// Whether `list` names every script of `held` once, with its directory
/// and its command, and nothing else.
pub open spec fn lists_scripts(
    list: Seq<(String, String, String)>,
    held: Map<Seq<char>, (Seq<char>, Seq<char>)>,
) -> bool {
    &&& forall|i: int|
        0 <= i < list.len() ==> held.contains_key(#[trigger] list[i].0@) && held[list[i].0@] == (
            list[i].1@,
            list[i].2@,
        )
    &&& forall|k: Seq<char>| #[trigger]
        held.contains_key(k) ==> exists|i: int| 0 <= i < list.len() && #[trigger] list[i].0@ == k
    &&& forall|i: int, j: int|
        0 <= i < j < list.len() ==> #[trigger] list[i].0@ != #[trigger] list[j].0@
}

/// `DashMap::iter`, each entry copied out: every script of the map once, in
/// the order in which the map happens to be walked.
#[verifier::external_body]
pub(crate) fn scripts_list(m: &dashmap::DashMap<String, (String, String)>) -> (list: Vec<
    (String, String, String),
>)
    ensures
        lists_scripts(list@, scripts_held(*m)),
{
    m.iter().map(|e| (e.key().clone(), e.value().0.clone(), e.value().1.clone())).collect()
}

} // verus!

//! Semantic versions and version ranges, as the `semver` crate reads them.

use crate::text::{same_text, texts};
use vstd::prelude::*;

verus! {

/// Whether `semver::Version::parse` accepts the text.
pub uninterp spec fn semver_version_ok(text: Seq<char>) -> bool;

/// Whether `semver::VersionReq::parse` accepts the text.
pub uninterp spec fn semver_range_ok(text: Seq<char>) -> bool;

/// What `semver::VersionReq::matches` answers for the range and the version
/// that the two texts parse to.
pub uninterp spec fn semver_matches(range: Seq<char>, version: Seq<char>) -> bool;

/// How `semver::Version` orders the versions that the two texts parse to:
/// negative where the first is the lesser, zero where they are equal,
/// positive where the first is the greater.
pub uninterp spec fn semver_order(a: Seq<char>, b: Seq<char>) -> int;

/// Whether the text is a range that admits the version.
pub open spec fn admits(range: Seq<char>, version: Seq<char>) -> bool {
    semver_range_ok(range) && semver_version_ok(version) && semver_matches(range, version)
}

/// Calls `semver::Version::parse` and tells whether it succeeded.
#[verifier::external_body]
pub(crate) fn version_parses(text: &str) -> (ok: bool)
    ensures
        ok == semver_version_ok(text@),
{
    semver::Version::parse(text).is_ok()
}

/// Calls `semver::VersionReq::parse` and tells whether it succeeded.
#[verifier::external_body]
pub(crate) fn range_parses(text: &str) -> (ok: bool)
    ensures
        ok == semver_range_ok(text@),
{
    semver::VersionReq::parse(text).is_ok()
}

/// Parses both texts and calls `semver::VersionReq::matches`; where either
/// text does not parse the answer is `false`.
#[verifier::external_body]
pub(crate) fn range_admits(range: &str, version: &str) -> (r: bool)
    ensures
        r == (semver_range_ok(range@) && semver_version_ok(version@) && semver_matches(
            range@,
            version@,
        )),
{
    match (semver::VersionReq::parse(range), semver::Version::parse(version)) {
        (Ok(req), Ok(v)) => req.matches(&v),
        _ => false,
    }
}

/// Parses both texts and compares the versions with `Ord::cmp` of
/// `semver::Version`, whose documentation promises a total order: the result
/// is -1, 0 or 1, swapping the arguments negates it, and a version that is
/// not below a second one is not below anything that the second is not
/// below. Where either text does not parse the result is 0 and nothing is
/// claimed.
#[verifier::external_body]
pub(crate) fn version_order(a: &str, b: &str) -> (r: i8)
    ensures
        semver_version_ok(a@) && semver_version_ok(b@) ==> r == semver_order(a@, b@),
        -1 <= r <= 1,
        semver_version_ok(a@) && semver_version_ok(b@) ==> semver_order(b@, a@) == -r,
        forall|c: Seq<char>|
            semver_version_ok(a@) && semver_version_ok(b@) && semver_version_ok(c) && r >= 0
                && #[trigger] semver_order(b@, c) >= 0 ==> semver_order(a@, c) >= 0,
        forall|c: Seq<char>|
            semver_version_ok(a@) && semver_version_ok(b@) && semver_version_ok(c) && r > 0
                && #[trigger] semver_order(b@, c) >= 0 ==> semver_order(a@, c) > 0,
{
    match (semver::Version::parse(a), semver::Version::parse(b)) {
        (Ok(x), Ok(y)) => match x.cmp(&y) {
            std::cmp::Ordering::Less => -1,
            std::cmp::Ordering::Equal => 0,
            std::cmp::Ordering::Greater => 1,
        },
        _ => 0,
    }
}

/// How two version texts stand to each other, newest first: the order that
/// a list of versions is shown in.
pub fn newest_first(a: &String, b: &String) -> (o: std::cmp::Ordering)
    ensures
        semver_version_ok(a@) && semver_version_ok(b@) ==> (o is Less <==> semver_order(a@, b@) > 0),
        semver_version_ok(a@) && semver_version_ok(b@) ==> (o is Greater <==> semver_order(a@, b@)
            < 0),
{
    let r = version_order(a.as_str(), b.as_str());
    if r > 0 {
        std::cmp::Ordering::Less
    } else if r < 0 {
        std::cmp::Ordering::Greater
    } else {
        std::cmp::Ordering::Equal
    }
}

/// Whether every text parses as a version.
pub open spec fn all_versions(v: Seq<Seq<char>>) -> bool {
    forall|i: int| 0 <= i < v.len() ==> semver_version_ok(#[trigger] v[i])
}

/// Whether no text of the list stands before a greater version.
pub open spec fn descending(v: Seq<Seq<char>>) -> bool {
    forall|i: int, j: int| 0 <= i < j < v.len() ==> semver_order(#[trigger] v[i], #[trigger] v[j]) >= 0
}

/// Calls `sort_by` of the standard library on the list, with the order
/// newest first: the list keeps its elements and ends sorted. The order is
/// total on texts that parse, which is what `sort_by` asks of it.
#[verifier::external_body]
pub(crate) fn sort_newest_first(v: &mut Vec<String>)
    requires
        all_versions(texts(old(v)@)),
    ensures
        texts(final(v)@).to_multiset() == texts(old(v)@).to_multiset(),
        descending(texts(final(v)@)),
{
    v.sort_by(|a, b| newest_first(a, b));
}

/// Whether the text parses as a semantic version.
pub fn is_version(text: &str) -> (ok: bool)
    ensures
        ok == semver_version_ok(text@),
{
    version_parses(text)
}

/// Whether the text parses as a version range.
pub fn is_range(text: &str) -> (ok: bool)
    ensures
        ok == semver_range_ok(text@),
{
    range_parses(text)
}

/// Whether `range` parses as a range, `version` as a version, and the range
/// admits the version.
pub fn satisfies(range: &str, version: &str) -> (r: bool)
    ensures
        r == admits(range@, version@),
{
    range_admits(range, version)
}

/// Whether a locked version may stand for a requested range: the range
/// admits it, or the range is the version, letter for letter.
pub open spec fn lock_serves(locked: Seq<char>, range: Seq<char>) -> bool {
    admits(range, locked) || range == locked
}

/// Whether a locked version may stand for a requested range without asking
/// the registry.
pub fn lock_satisfies(locked: &str, range: &str) -> (r: bool)
    ensures
        r == lock_serves(locked@, range@),
{
    range_admits(range, locked) || same_text(range, locked)
}

} // verus!

//! The content store's layout, and what to do when an entry is asked for.

use crate::text::{
    chars_of, has_prefix, join2, join3, replace_char, replaced, starts_with_at, text_of,
    text_of_range,
};
use vstd::prelude::*;
use vstd::string::*;

verus! {

/// The content store of one user.
pub struct Installer {
    pub cache_dir: String,
    pub force_no_cache: bool,
}

/// What has to happen before an entry of the store can be handed out.
#[derive(PartialEq, Eq, Structural, Clone, Copy, Debug)]
pub enum CachePlan {
    /// The entry is there: hand it out.
    UseExisting,
    /// The entry is there and the cache is switched off: delete it, then
    /// fetch it anew.
    ReplaceExisting,
    /// The entry is missing: fetch it.
    Download,
}

/// How moving a freshly extracted tree onto its place in the store ended.
#[derive(PartialEq, Eq, Structural, Clone, Copy, Debug)]
pub enum PublishOutcome {
    /// The tree stands at its place.
    Published,
    /// Another caller's tree stands there already: discard this one and use
    /// the other.
    AlreadyPublished,
    /// The tree could not be moved and nothing stands at its place.
    Failed,
}

/// What has to happen before an entry can be handed out: an entry that
/// stands in the store is used as it is, unless the cache is switched off.
pub open spec fn planned(force_no_cache: bool, exists: bool) -> CachePlan {
    if !exists {
        CachePlan::Download
    } else if force_no_cache {
        CachePlan::ReplaceExisting
    } else {
        CachePlan::UseExisting
    }
}

/// How a move onto the entry's place ended: where it failed and the place
/// is taken, another caller has published the entry.
pub open spec fn published(renamed: bool, target_exists: bool) -> PublishOutcome {
    if renamed {
        PublishOutcome::Published
    } else if target_exists {
        PublishOutcome::AlreadyPublished
    } else {
        PublishOutcome::Failed
    }
}

/// `name` with every `/` replaced by `+`.
pub open spec fn escaped_name(name: Seq<char>) -> Seq<char> {
    replaced(name, '/', '+')
}

/// The place of `name@version` in the store under `store`.
pub open spec fn cache_path_of(store: Seq<char>, name: Seq<char>, version: Seq<char>) -> Seq<char> {
    store + "/"@ + escaped_name(name) + "@"@ + version
}

/// The path of an archive entry with one leading `package/` taken off.
pub open spec fn without_package_prefix(path: Seq<char>) -> Seq<char> {
    if has_prefix(path, "package/"@) {
        path.skip(8)
    } else {
        path
    }
}

/// The directory that `name` is installed into under `root`.
pub open spec fn install_path_of(root: Seq<char>, name: Seq<char>) -> Seq<char> {
    root + "/node_modules/"@ + name
}

/// No directory below `tmp` is the place of an entry: what is being
/// extracted is never seen where entries are looked for.
pub proof fn lemma_temp_is_no_entry(
    store: Seq<char>,
    name: Seq<char>,
    version: Seq<char>,
    temp: Seq<char>,
)
    requires
        has_prefix(temp, store + "/tmp/"@),
    ensures
        temp != cache_path_of(store, name, version),
{
    reveal_strlit("/tmp/");
    reveal_strlit("/");
    reveal_strlit("@");
    let lead = store + "/tmp/"@;
    let entry = cache_path_of(store, name, version);
    let escaped = escaped_name(name);
    let base = store.len() as int;
    assert("/tmp/"@.len() == 5);
    assert("/"@.len() == 1);
    assert("@"@.len() == 1);
    if temp == entry {
        assert(temp.subrange(0, lead.len() as int) == lead);
        assert forall|i: int| 0 <= i < 5 implies temp[base + i] == "/tmp/"@[i] by {
            assert(temp.subrange(0, lead.len() as int)[base + i] == lead[base + i]);
        }
        assert(entry.len() == base + 1 + escaped.len() + 1 + version.len());
        let k = escaped.len() as int;
        assert("/tmp/"@[1] == 't' && "/tmp/"@[2] == 'm' && "/tmp/"@[3] == 'p' && "/tmp/"@[4] == '/');
        assert("@"@[0] == '@');
        if k >= 4 {
            assert(entry[base + 4] == escaped[3]);
            assert(escaped[3] != '/');
            assert(temp[base + 4] != entry[base + 4]);
        } else {
            assert(entry[base + 1 + k] == '@');
            assert(temp[base + 1 + k] == "/tmp/"@[1 + k]);
            assert(temp[base + 1 + k] != entry[base + 1 + k]);
        }
    }
}

/// Two packages are installed into the same directory under one root only
/// if they are installed under the same name: the layout is flat, one
/// directory for each name.
pub proof fn lemma_one_directory_per_name(root: Seq<char>, a: Seq<char>, b: Seq<char>)
    requires
        install_path_of(root, a) == install_path_of(root, b),
    ensures
        a == b,
{
    let base = root + "/node_modules/"@;
    assert((base + a).skip(base.len() as int) =~= a);
    assert((base + b).skip(base.len() as int) =~= b);
}

/// The directory that `name` is installed into under `root`.
pub fn install_path(root: &str, name: &str) -> (p: String)
    ensures
        p@ == install_path_of(root@, name@),
{
    join3(root, "/node_modules/", name)
}

/// The manifest of the package installed as `name` under `root`.
pub fn installed_manifest_path(root: &str, name: &str) -> (p: String)
    ensures
        p@ == install_path_of(root@, name@) + "/package.json"@,
{
    let dir = install_path(root, name);
    join2(dir.as_str(), "/package.json")
}

/// Calls `uuid::Uuid::new_v4` and writes the result out: a random
/// identifier, of which nothing is promised.
#[verifier::external_body]
fn fresh_id() -> (id: String) {
    uuid::Uuid::new_v4().to_string()
}

/// Where an archive entry is unpacked to below `dir`: its path with one
/// leading `package/` taken off.
pub fn entry_destination(dir: &str, entry_path: &str) -> (p: String)
    ensures
        p@ == dir@ + "/"@ + without_package_prefix(entry_path@),
{
    let v = chars_of(entry_path);
    proof {
        reveal_strlit("package/");
        assert(v@.skip(0) == v@);
    }
    let rest = if starts_with_at(&v, 0, "package/") {
        let r = text_of_range(&v, 8, v.len());
        assert(v@.subrange(8, v.len() as int) =~= entry_path@.skip(8));
        r
    } else {
        text_of(&v)
    };
    join3(dir, "/", rest.as_str())
}

impl Installer {
    /// The store of the user whose home directory is `home`.
    pub fn new(home: &str, force_no_cache: bool) -> (r: Self)
        ensures
            r.cache_dir@ == home@ + "/.rpm/store"@,
            r.force_no_cache == force_no_cache,
    {
        Installer { cache_dir: join2(home, "/.rpm/store"), force_no_cache }
    }

    /// The place of `name@version` in the store.
    pub fn get_cache_path(&self, name: &str, version: &str) -> (p: String)
        ensures
            p@ == cache_path_of(self.cache_dir@, name@, version@),
    {
        let safe = replace_char(name, '/', '+');
        let mut p = self.cache_dir.clone();
        p.append("/");
        p.append(safe.as_str());
        p.append("@");
        p.append(version);
        assert(p@ =~= cache_path_of(self.cache_dir@, name@, version@));
        p
    }

    /// A fresh directory of the store to extract an archive into, on the
    /// store's own filesystem.
    pub fn new_temp_path(&self) -> (p: String)
        ensures
            has_prefix(p@, self.cache_dir@ + "/tmp/"@),
    {
        let id = fresh_id();
        let p = join3(self.cache_dir.as_str(), "/tmp/", id.as_str());
        assert(p@.subrange(0, (self.cache_dir@ + "/tmp/"@).len() as int) =~= self.cache_dir@
            + "/tmp/"@);
        p
    }

    /// What has to happen before the entry can be handed out, given whether
    /// it stands in the store.
    pub fn cache_plan(&self, exists: bool) -> (plan: CachePlan)
        ensures
            plan == planned(self.force_no_cache, exists),
    {
        if !exists {
            CachePlan::Download
        } else if self.force_no_cache {
            CachePlan::ReplaceExisting
        } else {
            CachePlan::UseExisting
        }
    }

    /// Judges the move of an extracted tree onto its place: where the move
    /// failed because the place is taken, the tree that stands there wins.
    pub fn after_rename(renamed: bool, target_exists: bool) -> (o: PublishOutcome)
        ensures
            o == published(renamed, target_exists),
    {
        if renamed {
            PublishOutcome::Published
        } else if target_exists {
            PublishOutcome::AlreadyPublished
        } else {
            PublishOutcome::Failed
        }
    }
}

} // verus!

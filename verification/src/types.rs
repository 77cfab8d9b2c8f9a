//! The manifest, the registry's records and the lockfile.

use crate::name_map::{text_pairs, NameMap};
use vstd::prelude::*;

verus! {

/// The `bin` field of a manifest or of a version record: one path, or a
/// table from command names to paths.
pub enum BinField {
    Single(String),
    Table(NameMap<String>),
}

/// What a `bin` field says, as texts.
pub enum BinView {
    Single(Seq<char>),
    Table(Seq<(Seq<char>, Seq<char>)>),
}

impl View for BinField {
    type V = BinView;

    open spec fn view(&self) -> BinView {
        match self {
            BinField::Single(path) => BinView::Single(path@),
            BinField::Table(table) => BinView::Table(text_pairs(table@)),
        }
    }
}

impl BinField {
    /// A `bin` field that says the same.
    pub fn duplicate(&self) -> (b: Self)
        ensures
            b@ == self@,
    {
        match self {
            BinField::Single(path) => BinField::Single(path.clone()),
            BinField::Table(table) => BinField::Table(table.duplicate()),
        }
    }
}

/// The text of an optional string.
pub open spec fn opt_text(o: Option<String>) -> Option<Seq<char>> {
    match o {
        Some(s) => Some(s@),
        None => None,
    }
}

/// What an optional `bin` field says.
pub open spec fn opt_bin(o: Option<BinField>) -> Option<BinView> {
    match o {
        Some(b) => Some(b@),
        None => None,
    }
}

/// A copy of an optional string.
pub fn clone_text(o: &Option<String>) -> (r: Option<String>)
    ensures
        opt_text(r) == opt_text(*o),
{
    match o {
        Some(s) => Some(s.clone()),
        None => None,
    }
}

/// A copy of an optional `bin` field.
pub fn clone_bin(o: &Option<BinField>) -> (r: Option<BinField>)
    ensures
        opt_bin(r) == opt_bin(*o),
{
    match o {
        Some(b) => Some(b.duplicate()),
        None => None,
    }
}

/// The project manifest.
pub struct PackageJson {
    pub name: String,
    pub version: String,
    pub dependencies: NameMap<String>,
    pub dev_dependencies: NameMap<String>,
    pub peer_dependencies: NameMap<String>,
    pub optional_dependencies: NameMap<String>,
    pub scripts: NameMap<String>,
    pub bin: Option<BinField>,
    pub workspaces: Vec<String>,
}

/// Where a published version can be fetched from.
pub struct RegistryDist {
    pub tarball: String,
    pub integrity: Option<String>,
}

/// One published version of a package, as the registry describes it.
pub struct RegistryVersion {
    pub name: String,
    pub version: String,
    pub dist: RegistryDist,
    pub dependencies: NameMap<String>,
    pub peer_dependencies: NameMap<String>,
    pub optional_dependencies: NameMap<String>,
    pub scripts: NameMap<String>,
    pub bin: Option<BinField>,
    pub os: Vec<String>,
    pub cpu: Vec<String>,
}

/// A package as the registry describes it: its tags and its versions.
pub struct RegistryPackage {
    pub name: String,
    pub dist_tags: NameMap<String>,
    pub versions: NameMap<RegistryVersion>,
}

/// What the lockfile records of one installed package.
pub struct LockPackage {
    pub version: String,
    pub resolved: String,
    pub integrity: Option<String>,
    pub dependencies: NameMap<String>,
    pub peer_dependencies: NameMap<String>,
    pub optional_dependencies: NameMap<String>,
    pub postinstall: Option<String>,
    pub bin: Option<BinField>,
}

/// What a lock entry says, as texts.
pub struct LockPackageView {
    pub version: Seq<char>,
    pub resolved: Seq<char>,
    pub integrity: Option<Seq<char>>,
    pub dependencies: Seq<(Seq<char>, Seq<char>)>,
    pub peer_dependencies: Seq<(Seq<char>, Seq<char>)>,
    pub optional_dependencies: Seq<(Seq<char>, Seq<char>)>,
    pub postinstall: Option<Seq<char>>,
    pub bin: Option<BinView>,
}

impl View for LockPackage {
    type V = LockPackageView;

    open spec fn view(&self) -> LockPackageView {
        LockPackageView {
            version: self.version@,
            resolved: self.resolved@,
            integrity: opt_text(self.integrity),
            dependencies: text_pairs(self.dependencies@),
            peer_dependencies: text_pairs(self.peer_dependencies@),
            optional_dependencies: text_pairs(self.optional_dependencies@),
            postinstall: opt_text(self.postinstall),
            bin: opt_bin(self.bin),
        }
    }
}

/// The lockfile: the packages of the last install, by their place under
/// `node_modules`.
pub struct LockFile {
    pub name: String,
    pub version: String,
    pub lockfile_version: u32,
    pub packages: NameMap<LockPackage>,
}

/// The entries of a lockfile, as texts.
pub open spec fn lock_pairs(s: Seq<(Seq<char>, LockPackage)>) -> Seq<(Seq<char>, LockPackageView)> {
    Seq::new(s.len(), |i: int| (s[i].0, s[i].1@))
}

/// What a lockfile says, as texts.
pub struct LockFileView {
    pub name: Seq<char>,
    pub version: Seq<char>,
    pub lockfile_version: u32,
    pub packages: Seq<(Seq<char>, LockPackageView)>,
}

impl View for LockFile {
    type V = LockFileView;

    open spec fn view(&self) -> LockFileView {
        LockFileView {
            name: self.name@,
            version: self.version@,
            lockfile_version: self.lockfile_version,
            packages: lock_pairs(self.packages@),
        }
    }
}

/// A member of a workspace: a directory with a manifest of its own.
pub struct WorkspaceMember {
    pub name: String,
    pub path: String,
    pub package_json: PackageJson,
}

} // verus!

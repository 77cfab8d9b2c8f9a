//! Binary shims: the commands that an installed package offers under
//! `node_modules/.bin`.

use crate::manager::Manager;
use crate::name_map::text_pairs;
use crate::text::{join3, replace_char, replaced};
use crate::types::{BinField, BinView};
use vstd::prelude::*;
use vstd::string::*;

verus! {

/// The mode that the file behind a shim is given: its owner may run it.
pub const BIN_MODE: u32 = 0o755;

/// One command of a package: where its shim stands and what it points to.
pub struct BinLink {
    /// The command's name.
    pub name: String,
    /// Where the link stands: `node_modules/.bin/<name>` under the root.
    pub link_path: String,
    /// What the link points to, relative to the directory it stands in.
    pub target: String,
    /// The file that the command runs, under the root.
    pub target_path: String,
    /// The text of the `.cmd` file that Windows gets in place of the link.
    pub cmd_shim: String,
    /// The text of the `.ps1` file that Windows gets in place of the link.
    pub ps1_shim: String,
}

/// A command's shim, as texts.
pub struct BinLinkView {
    pub name: Seq<char>,
    pub link_path: Seq<char>,
    pub target: Seq<char>,
    pub target_path: Seq<char>,
    pub cmd_shim: Seq<char>,
    pub ps1_shim: Seq<char>,
}

impl View for BinLink {
    type V = BinLinkView;

    open spec fn view(&self) -> BinLinkView {
        BinLinkView {
            name: self.name@,
            link_path: self.link_path@,
            target: self.target@,
            target_path: self.target_path@,
            cmd_shim: self.cmd_shim@,
            ps1_shim: self.ps1_shim@,
        }
    }
}

/// The commands that a `bin` field declares, each with the path of its
/// file inside the package: one path alone is the command named like the
/// package.
pub open spec fn bin_table(package_name: Seq<char>, bin: BinView) -> Seq<(Seq<char>, Seq<char>)> {
    match bin {
        BinView::Single(path) => seq![(package_name, path)],
        BinView::Table(table) => table,
    }
}

/// The shim of the command `entry` of the package installed as
/// `package_name` under `root`.
pub open spec fn link_for(root: Seq<char>, package_name: Seq<char>, entry: (Seq<char>, Seq<char>)) -> BinLinkView {
    BinLinkView {
        name: entry.0,
        link_path: root + "/node_modules/.bin/"@ + entry.0,
        target: "../"@ + package_name + "/"@ + entry.1,
        target_path: root + "/node_modules/"@ + package_name + "/"@ + entry.1,
        cmd_shim: "@ECHO off\r\n\"%~dp0\\..\\"@ + package_name + "\\"@ + replaced(entry.1, '/', '\\')
            + "\" %*\r\n"@,
        ps1_shim: "& \"$PSScriptRoot\\..\\"@ + package_name + "\\"@ + replaced(entry.1, '/', '\\')
            + "\" $args\r\n"@,
    }
}

/// Whether `links` holds the shim of every command of `table`, in order.
pub open spec fn links_of(
    links: Seq<BinLink>,
    root: Seq<char>,
    package_name: Seq<char>,
    table: Seq<(Seq<char>, Seq<char>)>,
) -> bool {
    &&& links.len() == table.len()
    &&& forall|i: int| 0 <= i < links.len() ==> (#[trigger] links[i])@ == link_for(
        root,
        package_name,
        table[i],
    )
}

fn link_one(root: &str, package_name: &str, name: &str, path: &str) -> (link: BinLink)
    ensures
        link@ == link_for(root@, package_name@, (name@, path@)),
{
    let link_path = join3(root, "/node_modules/.bin/", name);
    let mut target = join3("../", package_name, "/");
    target.append(path);
    let mut target_path = join3(root, "/node_modules/", package_name);
    target_path.append("/");
    target_path.append(path);
    let back = replace_char(path, '/', '\\');
    let mut cmd_shim = join3("@ECHO off\r\n\"%~dp0\\..\\", package_name, "\\");
    cmd_shim.append(back.as_str());
    cmd_shim.append("\" %*\r\n");
    let mut ps1_shim = join3("& \"$PSScriptRoot\\..\\", package_name, "\\");
    ps1_shim.append(back.as_str());
    ps1_shim.append("\" $args\r\n");
    let link = BinLink {
        name: name.to_owned(),
        link_path,
        target,
        target_path,
        cmd_shim,
        ps1_shim,
    };
    proof {
        let want = link_for(root@, package_name@, (name@, path@));
        assert(link@.target =~= want.target);
        assert(link@.target_path =~= want.target_path);
        assert(link@.cmd_shim =~= want.cmd_shim);
        assert(link@.ps1_shim =~= want.ps1_shim);
    }
    link
}

impl Manager {
    /// The shims to create for the commands of the package installed as
    /// `package_name` under `target_dir`.
    pub fn link_binaries(target_dir: &str, package_name: &str, bin: &BinField) -> (links: Vec<
        BinLink,
    >)
        ensures
            links_of(links@, target_dir@, package_name@, bin_table(package_name@, bin@)),
    {
        let mut links: Vec<BinLink> = Vec::new();
        match bin {
            BinField::Single(path) => {
                links.push(link_one(target_dir, package_name, package_name, path.as_str()));
            },
            BinField::Table(table) => {
                let ghost want = text_pairs(table@);
                let n = table.len();
                let mut i: usize = 0;
                while i < n
                    invariant
                        i <= n,
                        n == table@.len(),
                        want == text_pairs(table@),
                        links_of(links@, target_dir@, package_name@, want.take(i as int)),
                    decreases n - i,
                {
                    let link = link_one(
                        target_dir,
                        package_name,
                        table.name_at(i).as_str(),
                        table.value_at(i).as_str(),
                    );
                    links.push(link);
                    i += 1;
                }
                assert(want.take(n as int) =~= want);
            },
        }
        links
    }
}

} // verus!

//! The small rules of the commands beside `install`: which binary a package
//! runs, what a script's command line is, when a package counts as
//! outdated.

use crate::name_map::{has_name, value_of};
use crate::output::{join_with, joined};
use crate::registry::last_index;
use crate::text::{
    chars_of, has_prefix, join3, same_text, starts_with_at, text_of_range, texts,
};
use crate::types::{BinField, BinView};
use vstd::prelude::*;
use vstd::string::*;

verus! {

/// Whether `s` holds `part` somewhere.
pub open spec fn holds(s: Seq<char>, part: Seq<char>) -> bool {
    exists|i: int| 0 <= i <= s.len() && #[trigger] has_prefix(s.skip(i), part)
}

/// Whether `s` holds `part` somewhere.
pub fn contains_text(s: &str, part: &str) -> (r: bool)
    ensures
        r == holds(s@, part@),
{
    let v = chars_of(s);
    let mut i: usize = 0;
    while i < v.len()
        invariant
            i <= v.len(),
            v@ == s@,
            forall|j: int| 0 <= j < i ==> !#[trigger] has_prefix(s@.skip(j), part@),
        decreases v.len() - i,
    {
        if starts_with_at(&v, i, part) {
            return true;
        }
        i += 1;
    }
    starts_with_at(&v, i, part)
}

/// The name of the command that a package is expected to offer: the name
/// of the package, without its scope.
pub open spec fn bin_name_of(package: Seq<char>) -> Seq<char> {
    if package.len() > 0 && package[0] == '@' {
        package.skip(last_index(package, '/', package.len() as int) + 1)
    } else {
        package
    }
}

/// The name of the command that a package is expected to offer.
pub fn bin_name(package: &str) -> (r: String)
    ensures
        r@ == bin_name_of(package@),
{
    let v = chars_of(package);
    if !(v.len() > 0 && v[0] == '@') {
        return package.to_owned();
    }
    let mut n: usize = v.len();
    while n > 0 && v[n - 1] != '/'
        invariant
            n <= v.len(),
            v@ == package@,
            last_index(package@, '/', package@.len() as int) == last_index(package@, '/', n as int),
        decreases n,
    {
        n -= 1;
    }
    let r = text_of_range(&v, n, v.len());
    assert(v@.subrange(n as int, v.len() as int) =~= package@.skip(n as int));
    r
}

/// The file that runs for the command `name` of a package: the one path of
/// its `bin` field, or the path under `name` in its table, or the first of
/// the table where it names no such command.
pub open spec fn binary_of(bin: BinView, name: Seq<char>) -> Option<Seq<char>> {
    match bin {
        BinView::Single(path) => Some(path),
        BinView::Table(table) => if has_name(table, name) {
            Some(value_of(table, name))
        } else if table.len() > 0 {
            Some(table[0].1)
        } else {
            None
        },
    }
}

/// Picks the file that runs for the command `name` of a package.
pub fn pick_binary(bin: &BinField, name: &str) -> (r: Option<String>)
    ensures
        crate::types::opt_text(r) == binary_of(bin@, name@),
{
    match bin {
        BinField::Single(path) => Some(path.clone()),
        BinField::Table(table) => {
            proof {
                use_type_invariant(table);
                let pairs = crate::name_map::text_pairs(table@);
                assert(has_name(pairs, name@) == has_name(table@, name@)) by {
                    if has_name(pairs, name@) {
                        let i = choose|i: int| 0 <= i < pairs.len() && #[trigger] pairs[i].0 == name@;
                        assert(table@[i].0 == name@);
                    }
                    if has_name(table@, name@) {
                        let i = choose|i: int|
                            0 <= i < table@.len() && #[trigger] table@[i].0 == name@;
                        assert(pairs[i].0 == name@);
                    }
                }
            }
            match table.find(name) {
                Some(i) => {
                    proof {
                        let pairs = crate::name_map::text_pairs(table@);
                        assert(crate::name_map::ascending(pairs)) by {
                            assert forall|x: int, y: int| 0 <= x < y < pairs.len() implies crate::text::text_less(
                                #[trigger] pairs[x].0,
                                #[trigger] pairs[y].0,
                            ) by {
                                assert(crate::text::text_less(table@[x].0, table@[y].0));
                            }
                        }
                        assert(pairs[i as int].0 == name@);
                        crate::name_map::lemma_found_at(pairs, i as int);
                    }
                    Some(table.value_at(i).clone())
                },
                None => {
                    if table.len() > 0 {
                        Some(table.value_at(0).clone())
                    } else {
                        None
                    }
                },
            }
        },
    }
}

/// The command line of a script that is run with further arguments: the
/// script, then the arguments, with a blank before each.
pub open spec fn command_line(script: Seq<char>, args: Seq<Seq<char>>) -> Seq<char> {
    if args.len() == 0 {
        script
    } else {
        script + " "@ + joined(args, " "@)
    }
}

/// The command line of a script that is run with further arguments.
pub fn full_command(script: &str, args: &Vec<String>) -> (r: String)
    ensures
        r@ == command_line(script@, texts(args@)),
{
    if args.len() == 0 {
        script.to_owned()
    } else {
        let rest = join_with(args, " ");
        join3(script, " ", rest.as_str())
    }
}

/// Whether an installed package is behind: it is not the version that its
/// range selects, or not the latest.
pub fn is_outdated(current: &str, wanted: &str, latest: &str) -> (r: bool)
    ensures
        r == (current@ != wanted@ || current@ != latest@),
{
    !same_text(current, wanted) || !same_text(current, latest)
}

/// Whether a link under `.bin` belongs to the package `name`: its target
/// passes through a directory of that name.
pub open spec fn points_into(target: Seq<char>, name: Seq<char>) -> bool {
    holds(target, "/"@ + name + "/"@) || holds(target, "\\"@ + name + "\\"@)
}

/// Whether a link under `.bin` belongs to the package `name`.
pub fn link_belongs_to(target: &str, name: &str) -> (r: bool)
    ensures
        r == points_into(target@, name@),
{
    let posix = join3("/", name, "/");
    let windows = join3("\\", name, "\\");
    contains_text(target, posix.as_str()) || contains_text(target, windows.as_str())
}

} // verus!

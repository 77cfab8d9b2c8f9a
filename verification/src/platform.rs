//! Platform gating: which operating systems and processors a package says
//! it runs on, and whether the current ones are among them.

use crate::text::{chars_of, same_text, texts};
use crate::types::RegistryVersion;
use vstd::prelude::*;
use vstd::string::*;

verus! {

/// The operating system and the processor that packages are installed for,
/// under the names that package records use.
pub struct Platform {
    pub os: String,
    pub cpu: String,
}

/// The name that package records use for an operating system, given the
/// name that the compiler uses for it.
pub open spec fn os_name(target_os: Seq<char>) -> Seq<char> {
    if target_os == "windows"@ {
        "win32"@
    } else if target_os == "macos"@ {
        "darwin"@
    } else if target_os == "linux"@ {
        "linux"@
    } else if target_os == "freebsd"@ {
        "freebsd"@
    } else if target_os == "openbsd"@ {
        "openbsd"@
    } else if target_os == "android"@ {
        "android"@
    } else {
        "unknown"@
    }
}

/// The name that package records use for a processor, given the name that
/// the compiler uses for it.
pub open spec fn cpu_name(target_arch: Seq<char>) -> Seq<char> {
    if target_arch == "x86_64"@ {
        "x64"@
    } else if target_arch == "aarch64"@ {
        "arm64"@
    } else if target_arch == "x86"@ {
        "ia32"@
    } else if target_arch == "arm"@ {
        "arm"@
    } else {
        "unknown"@
    }
}

/// Get the current OS name in npm's format
pub fn get_current_os(target_os: &str) -> (name: &'static str)
    ensures
        name@ == os_name(target_os@),
{
    if same_text(target_os, "windows") {
        "win32"
    } else if same_text(target_os, "macos") {
        "darwin"
    } else if same_text(target_os, "linux") {
        "linux"
    } else if same_text(target_os, "freebsd") {
        "freebsd"
    } else if same_text(target_os, "openbsd") {
        "openbsd"
    } else if same_text(target_os, "android") {
        "android"
    } else {
        "unknown"
    }
}

/// Get the current CPU architecture in npm's format
pub fn get_current_cpu(target_arch: &str) -> (name: &'static str)
    ensures
        name@ == cpu_name(target_arch@),
{
    if same_text(target_arch, "x86_64") {
        "x64"
    } else if same_text(target_arch, "aarch64") {
        "arm64"
    } else if same_text(target_arch, "x86") {
        "ia32"
    } else if same_text(target_arch, "arm") {
        "arm"
    } else {
        "unknown"
    }
}

impl Platform {
    /// The platform that the compiler's names for the operating system and
    /// the processor stand for.
    pub fn of_target(target_os: &str, target_arch: &str) -> (p: Self)
        ensures
            p.os@ == os_name(target_os@),
            p.cpu@ == cpu_name(target_arch@),
    {
        Platform {
            os: get_current_os(target_os).to_owned(),
            cpu: get_current_cpu(target_arch).to_owned(),
        }
    }
}

/// Whether the token is a negated one: it begins with `!`.
pub open spec fn is_negated(token: Seq<char>) -> bool {
    token.len() > 0 && token[0] == '!'
}

/// Whether some token of the list is negated.
pub open spec fn has_negation(list: Seq<Seq<char>>) -> bool {
    exists|i: int| 0 <= i < list.len() && is_negated(#[trigger] list[i])
}

/// Whether some token of the list is `current`.
pub open spec fn names(list: Seq<Seq<char>>, current: Seq<char>) -> bool {
    exists|i: int| 0 <= i < list.len() && #[trigger] list[i] == current
}

/// Whether some token of the list is `current` negated.
pub open spec fn excludes(list: Seq<Seq<char>>, current: Seq<char>) -> bool {
    exists|i: int| 0 <= i < list.len() && #[trigger] list[i] == seq!['!'] + current
}

/// Whether a list of platform tokens admits `current`: an empty list admits
/// everything, a list with a negated token admits what it does not exclude,
/// any other list admits what it names.
pub open spec fn list_allows(list: Seq<Seq<char>>, current: Seq<char>) -> bool {
    if list.len() == 0 {
        true
    } else if has_negation(list) {
        !excludes(list, current)
    } else {
        names(list, current)
    }
}

/// Whether a package with the given `os` and `cpu` lists runs on the
/// platform.
pub open spec fn platform_allows(
    os: Seq<Seq<char>>,
    cpu: Seq<Seq<char>>,
    current_os: Seq<char>,
    current_cpu: Seq<char>,
) -> bool {
    list_allows(os, current_os) && list_allows(cpu, current_cpu)
}

fn token_allows(list: &Vec<String>, current: &str) -> (r: bool)
    ensures
        r == list_allows(texts(list@), current@),
{
    if list.len() == 0 {
        return true;
    }
    let ghost ts = texts(list@);
    let mut negation = false;
    let mut excluded = false;
    let mut named = false;
    let mut i: usize = 0;
    while i < list.len()
        invariant
            i <= list.len(),
            ts == texts(list@),
            negation == has_negation(ts.take(i as int)),
            excluded == excludes(ts.take(i as int), current@),
            named == names(ts.take(i as int), current@),
        decreases list.len() - i,
    {
        let token = list[i].as_str();
        let chars = chars_of(token);
        let ghost before = ts.take(i as int);
        let ghost after = ts.take(i + 1);
        let is_neg = chars.len() > 0 && chars[0] == '!';
        let mut is_excluded = false;
        if is_neg {
            let tail = crate::text::text_of_range(&chars, 1, chars.len());
            is_excluded = same_text(tail.as_str(), current);
            proof {
                if is_excluded {
                    assert(chars@ =~= seq!['!'] + current@);
                } else if chars@ == seq!['!'] + current@ {
                    assert(chars@.subrange(1, chars@.len() as int) =~= current@);
                }
            }
        } else {
            proof {
                if chars@ == seq!['!'] + current@ {
                    assert(chars@[0] == '!');
                }
            }
        }
        let is_named = same_text(token, current);
        proof {
            assert(after[i as int] == ts[i as int]);
            assert(forall|j: int| 0 <= j < i ==> after[j] == before[j]);
            assert(has_negation(after) == (has_negation(before) || is_neg)) by {
                if has_negation(before) {
                    let w = choose|j: int| 0 <= j < before.len() && is_negated(#[trigger] before[j]);
                    assert(is_negated(after[w]));
                }
                if is_neg {
                    assert(is_negated(after[i as int]));
                }
                if has_negation(after) {
                    let w = choose|j: int| 0 <= j < after.len() && is_negated(#[trigger] after[j]);
                    if w < i {
                        assert(is_negated(before[w]));
                    }
                }
            }
            assert(excludes(after, current@) == (excludes(before, current@) || is_excluded)) by {
                if excludes(before, current@) {
                    let w = choose|j: int|
                        0 <= j < before.len() && #[trigger] before[j] == seq!['!'] + current@;
                    assert(after[w] == seq!['!'] + current@);
                }
                if is_excluded {
                    assert(after[i as int] == seq!['!'] + current@);
                }
                if excludes(after, current@) {
                    let w = choose|j: int|
                        0 <= j < after.len() && #[trigger] after[j] == seq!['!'] + current@;
                    if w < i {
                        assert(before[w] == seq!['!'] + current@);
                    }
                }
            }
            assert(names(after, current@) == (names(before, current@) || is_named)) by {
                if names(before, current@) {
                    let w = choose|j: int| 0 <= j < before.len() && #[trigger] before[j] == current@;
                    assert(after[w] == current@);
                }
                if is_named {
                    assert(after[i as int] == current@);
                }
                if names(after, current@) {
                    let w = choose|j: int| 0 <= j < after.len() && #[trigger] after[j] == current@;
                    if w < i {
                        assert(before[w] == current@);
                    }
                }
            }
        }
        negation = negation || is_neg;
        excluded = excluded || is_excluded;
        named = named || is_named;
        i += 1;
    }
    assert(ts.take(list.len() as int) =~= ts);
    if negation {
        !excluded
    } else {
        named
    }
}

/// Check if a package is compatible with the current platform
pub fn is_platform_compatible(os: &Vec<String>, cpu: &Vec<String>, platform: &Platform) -> (r:
    bool)
    ensures
        r == platform_allows(texts(os@), texts(cpu@), platform.os@, platform.cpu@),
{
    let os_ok = token_allows(os, platform.os.as_str());
    let cpu_ok = token_allows(cpu, platform.cpu.as_str());
    os_ok && cpu_ok
}

/// Check if a RegistryVersion is compatible with current platform
pub fn is_version_platform_compatible(version: &RegistryVersion, platform: &Platform) -> (r: bool)
    ensures
        r == platform_allows(
            texts(version.os@),
            texts(version.cpu@),
            platform.os@,
            platform.cpu@,
        ),
{
    is_platform_compatible(&version.os, &version.cpu, platform)
}

} // verus!

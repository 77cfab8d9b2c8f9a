//! The texts shown to the user: summaries, sizes, progress lines and errors.

use crate::colors::{BOLD, BOLD_RED, CYAN, GRAY, GREEN, RED, RESET, YELLOW};
use crate::symbols::{ARROW_RIGHT, ARROW_UP, MINUS, PLUS, SEPARATOR, SUCCESS};
use crate::text::{chars_of, decimal, decimal_text, digit_char, digit_of, texts};
use vstd::prelude::*;
use vstd::string::*;

verus! {

/// What can go wrong while packages are resolved, fetched and run.
pub enum RpmError {
    /// The registry does not know the package.
    PackageNotFound { name: String, suggestions: Vec<String> },
    /// No version of the package satisfies the requested range.
    VersionNotFound { name: String, requested: String, available: Vec<String> },
    /// The registry could not be reached, or answered with a failure.
    NetworkError { name: String, status: Option<u16>, message: String },
    /// The registry's answer could not be decoded.
    ParseError { name: String, message: String },
    /// The manifest has no script of that name.
    ScriptNotFound { script: String, available: Vec<String> },
    /// The package offers no such binary.
    BinaryNotFound { package: String, binary: String },
    /// The workspace is not laid out as expected.
    WorkspaceError { message: String },
    /// Any other failure, with an optional hint.
    Other { message: String, hint: Option<String> },
}

/// The texts of `parts`, each followed by `sep` but the last.
pub open spec fn joined(parts: Seq<Seq<char>>, sep: Seq<char>) -> Seq<char>
    decreases parts.len(),
{
    if parts.len() == 0 {
        Seq::empty()
    } else if parts.len() == 1 {
        parts[0]
    } else {
        joined(parts.drop_last(), sep) + sep + parts.last()
    }
}

/// Joins the strings of `parts` with `sep` between them.
pub fn join_with(parts: &Vec<String>, sep: &str) -> (s: String)
    ensures
        s@ == joined(texts(parts@), sep@),
{
    let mut s = String::new();
    let mut i: usize = 0;
    while i < parts.len()
        invariant
            i <= parts.len(),
            s@ == joined(texts(parts@).take(i as int), sep@),
        decreases parts.len() - i,
    {
        let ghost before = texts(parts@).take(i as int);
        let ghost after = texts(parts@).take(i + 1);
        proof {
            assert(after.drop_last() =~= before);
            assert(after.last() == parts@[i as int]@);
        }
        if i > 0 {
            s.append(sep);
        }
        s.append(parts[i].as_str());
        proof {
            if i == 0 {
                assert(s@ =~= parts@[0]@);
            }
        }
        i += 1;
    }
    assert(texts(parts@).take(parts.len() as int) =~= texts(parts@));
    s
}

/// The separator between the parts of a summary or status line.
pub open spec fn part_separator() -> Seq<char> {
    "  "@ + GRAY@ + SEPARATOR@ + RESET@ + "  "@
}

/// The parts of an install summary: what was installed, what came from the
/// cache, what was linked; a count of zero has no part.
pub open spec fn summary_parts(installed: nat, cached: nat, linked: Option<nat>) -> Seq<Seq<char>> {
    let first = if installed > 0 {
        seq![GREEN@ + "+"@ + decimal(installed) + RESET@ + " installed"@]
    } else {
        Seq::empty()
    };
    let second = if cached > 0 {
        seq![YELLOW@ + decimal(cached) + RESET@ + " cached"@]
    } else {
        Seq::empty()
    };
    let third = match linked {
        Some(l) if l > 0 => seq![CYAN@ + decimal(l) + RESET@ + " linked"@],
        _ => Seq::empty(),
    };
    first + second + third
}

/// The install summary line.
pub open spec fn summary_text(installed: nat, cached: nat, linked: Option<nat>) -> Seq<char> {
    let parts = summary_parts(installed, cached, linked);
    if parts.len() == 0 {
        GRAY@ + "No packages to install"@ + RESET@
    } else {
        joined(parts, part_separator())
    }
}

fn separator_text() -> (s: String)
    ensures
        s@ == part_separator(),
{
    let mut s = String::new();
    s.append("  ");
    s.append(GRAY);
    s.append(SEPARATOR);
    s.append(RESET);
    s.append("  ");
    assert(s@ =~= part_separator());
    s
}

fn counted(before: &str, lead: &str, n: usize, after: &str) -> (s: String)
    ensures
        s@ == before@ + lead@ + decimal(n as nat) + RESET@ + after@,
{
    let mut s = String::new();
    s.append(before);
    s.append(lead);
    let d = decimal_text(n as u64);
    s.append(d.as_str());
    s.append(RESET);
    s.append(after);
    assert(s@ =~= before@ + lead@ + decimal(n as nat) + RESET@ + after@);
    s
}

/// Format an install summary line.
pub fn format_summary(installed: usize, cached: usize, linked: Option<usize>) -> (s: String)
    ensures
        s@ == summary_text(
            installed as nat,
            cached as nat,
            match linked {
                Some(l) => Some(l as nat),
                None => None,
            },
        ),
{
    let ghost spec_linked: Option<nat> = match linked {
        Some(l) => Some(l as nat),
        None => None,
    };
    let mut parts: Vec<String> = Vec::new();
    if installed > 0 {
        let p = counted(GREEN, "+", installed, " installed");
        parts.push(p);
    }
    if cached > 0 {
        let p = counted(YELLOW, "", cached, " cached");
        assert(p@ =~= YELLOW@ + decimal(cached as nat) + RESET@ + " cached"@) by {
            reveal_strlit("");
        }
        parts.push(p);
    }
    match linked {
        Some(l) => {
            if l > 0 {
                let p = counted(CYAN, "", l, " linked");
                assert(p@ =~= CYAN@ + decimal(l as nat) + RESET@ + " linked"@) by {
                    reveal_strlit("");
                }
                parts.push(p);
            }
        },
        None => {},
    }
    assert(texts(parts@) =~= summary_parts(installed as nat, cached as nat, spec_linked));
    if parts.len() == 0 {
        let mut s = String::new();
        s.append(GRAY);
        s.append("No packages to install");
        s.append(RESET);
        assert(s@ =~= GRAY@ + "No packages to install"@ + RESET@);
        s
    } else {
        let sep = separator_text();
        join_with(&parts, sep.as_str())
    }
}

/// The summary line of a workspace install: what was installed, what came
/// from the cache and how many members were linked; where nothing was
/// installed, only the members that were linked, if any.
pub open spec fn workspace_summary_text(installed: nat, cached: nat, linked: nat) -> Seq<char> {
    if installed > 0 || cached > 0 {
        joined(
            summary_parts(installed, cached, None).push(
                CYAN@ + decimal(linked) + RESET@ + " linked"@,
            ),
            part_separator(),
        )
    } else if linked > 0 {
        CYAN@ + decimal(linked) + RESET@ + " workspace packages linked"@
    } else {
        GRAY@ + "No packages to install"@ + RESET@
    }
}

/// Format the summary line of a workspace install
pub fn format_workspace_summary(installed: usize, cached: usize, linked: usize) -> (s: String)
    ensures
        s@ == workspace_summary_text(installed as nat, cached as nat, linked as nat),
{
    proof {
        reveal_strlit("");
    }
    if installed > 0 || cached > 0 {
        let mut parts: Vec<String> = Vec::new();
        if installed > 0 {
            parts.push(counted(GREEN, "+", installed, " installed"));
        }
        if cached > 0 {
            let p = counted(YELLOW, "", cached, " cached");
            assert(p@ =~= YELLOW@ + decimal(cached as nat) + RESET@ + " cached"@);
            parts.push(p);
        }
        let p = counted(CYAN, "", linked, " linked");
        assert(p@ =~= CYAN@ + decimal(linked as nat) + RESET@ + " linked"@);
        parts.push(p);
        assert(texts(parts@) =~= summary_parts(installed as nat, cached as nat, None).push(
            CYAN@ + decimal(linked as nat) + RESET@ + " linked"@,
        ));
        let sep = separator_text();
        join_with(&parts, sep.as_str())
    } else if linked > 0 {
        let p = counted(CYAN, "", linked, " workspace packages linked");
        assert(p@ =~= CYAN@ + decimal(linked as nat) + RESET@ + " workspace packages linked"@);
        p
    } else {
        let mut s = String::new();
        s.append(GRAY);
        s.append("No packages to install");
        s.append(RESET);
        assert(s@ =~= GRAY@ + "No packages to install"@ + RESET@);
        s
    }
}

/// The parts of a progress line: how many packages are resolved, how many
/// installed and, where there are any, how many came from the cache.
pub open spec fn progress_parts(resolving: nat, installing: nat, cached: nat) -> Seq<Seq<char>> {
    let head = seq![
        BOLD@ + "Resolving"@ + RESET@ + " "@ + CYAN@ + decimal(resolving) + RESET@ + " packages"@,
        BOLD@ + "Installing"@ + RESET@ + " "@ + GREEN@ + decimal(installing) + RESET@,
    ];
    if cached > 0 {
        head.push(GRAY@ + "Cached"@ + RESET@ + " "@ + YELLOW@ + decimal(cached) + RESET@)
    } else {
        head
    }
}

fn labelled(style: &str, label: &str, color: &str, n: usize, after: &str) -> (s: String)
    ensures
        s@ == style@ + label@ + RESET@ + " "@ + color@ + decimal(n as nat) + RESET@ + after@,
{
    let mut s = String::new();
    s.append(style);
    s.append(label);
    s.append(RESET);
    s.append(" ");
    s.append(color);
    let d = decimal_text(n as u64);
    s.append(d.as_str());
    s.append(RESET);
    s.append(after);
    assert(s@ =~= style@ + label@ + RESET@ + " "@ + color@ + decimal(n as nat) + RESET@ + after@);
    s
}

/// Create a progress status line for package installation
pub fn format_progress_status(resolving: usize, installing: usize, cached: usize) -> (s: String)
    ensures
        s@ == joined(
            progress_parts(resolving as nat, installing as nat, cached as nat),
            part_separator(),
        ),
{
    let mut parts: Vec<String> = Vec::new();
    parts.push(labelled(BOLD, "Resolving", CYAN, resolving, " packages"));
    let second = labelled(BOLD, "Installing", GREEN, installing, "");
    assert(second@ =~= BOLD@ + "Installing"@ + RESET@ + " "@ + GREEN@ + decimal(installing as nat)
        + RESET@) by {
        reveal_strlit("");
    }
    parts.push(second);
    if cached > 0 {
        let third = labelled(GRAY, "Cached", YELLOW, cached, "");
        assert(third@ =~= GRAY@ + "Cached"@ + RESET@ + " "@ + YELLOW@ + decimal(cached as nat)
            + RESET@) by {
            reveal_strlit("");
        }
        parts.push(third);
    }
    assert(texts(parts@) =~= progress_parts(resolving as nat, installing as nat, cached as nat));
    let sep = separator_text();
    join_with(&parts, sep.as_str())
}

/// `s` from position `i` on without its escape sequences: an escape
/// character and what follows it up to the next `m` are left out.
pub open spec fn stripped_from(s: Seq<char>, i: int, skipping: bool) -> Seq<char>
    decreases s.len() - i,
{
    if i < 0 || i >= s.len() {
        Seq::empty()
    } else if skipping {
        stripped_from(s, i + 1, s[i] != 'm')
    } else if s[i] == '\x1b' {
        stripped_from(s, i + 1, true)
    } else {
        seq![s[i]] + stripped_from(s, i + 1, false)
    }
}

/// `s` without its colour codes.
pub open spec fn without_colors(s: Seq<char>) -> Seq<char> {
    stripped_from(s, 0, false)
}

/// Takes the colour codes out of a string.
pub fn strip_colors(s: &str) -> (r: String)
    ensures
        r@ == without_colors(s@),
{
    let v = chars_of(s);
    let mut r = String::new();
    let mut skipping = false;
    let mut i: usize = 0;
    while i < v.len()
        invariant
            i <= v.len(),
            v@ == s@,
            r@ + stripped_from(s@, i as int, skipping) == without_colors(s@),
        decreases v.len() - i,
    {
        let c = v[i];
        let ghost before = r@;
        if skipping {
            skipping = c != 'm';
        } else if c == '\x1b' {
            skipping = true;
        } else {
            r.push(c);
            assert(r@ + stripped_from(s@, i + 1, false) =~= before + stripped_from(
                s@,
                i as int,
                false,
            ));
        }
        i += 1;
    }
    assert(r@ + Seq::<char>::empty() =~= r@);
    r
}

/// Strip ANSI color codes from a string if colors are disabled
pub fn maybe_strip_colors(s: &str, use_colors: bool) -> (r: String)
    ensures
        r@ == if use_colors {
            s@
        } else {
            without_colors(s@)
        },
{
    if use_colors {
        s.to_owned()
    } else {
        strip_colors(s)
    }
}

/// Whether colours are used: never where `NO_COLOR` is set, else always
/// where `FORCE_COLOR` is set, else where the output is a terminal.
pub fn should_use_colors(no_color: bool, force_color: bool, is_terminal: bool) -> (r: bool)
    ensures
        r == (!no_color && (force_color || is_terminal)),
{
    if no_color {
        false
    } else if force_color {
        true
    } else {
        is_terminal
    }
}

/// `num / den` rounded to the nearest whole number, a tie to the even one.
pub open spec fn half_even(num: nat, den: nat) -> nat {
    let q = num / den;
    let r = num % den;
    if 2 * r > den || (2 * r == den && q % 2 == 1) {
        q + 1
    } else {
        q
    }
}

/// The step between the numbers near `b` that a 64-bit float can hold: 1
/// below 2^53, twice as much for each further bit.
pub open spec fn float_unit(b: nat) -> nat
    decreases b,
{
    if b < 0x20_0000_0000_0000 {
        1
    } else {
        2 * float_unit(b / 2)
    }
}

/// The number that a 64-bit float holds for `b`: the nearest that it can
/// hold, a tie going to the even one.
pub open spec fn as_float(b: nat) -> nat {
    half_even(b, float_unit(b)) * float_unit(b)
}

/// `n` hundredths written with two decimal places.
pub open spec fn two_places(n: nat) -> Seq<char> {
    decimal(n / 100) + "."@ + seq![digit_char((n / 10) % 10), digit_char(n % 10)]
}

/// `n` tenths written with one decimal place.
pub open spec fn one_place(n: nat) -> Seq<char> {
    decimal(n / 10) + "."@ + seq![digit_char(n % 10)]
}

/// A number of bytes for a reader: in bytes below 1024, else in KB with one
/// decimal place, from 1024 KB on in MB and from 1024 MB on in GB with two,
/// each rounded to the nearest, a tie to the even digit.
pub open spec fn bytes_text(b: nat) -> Seq<char> {
    if b >= 0x4000_0000 {
        two_places(half_even(as_float(b) * 100, 0x4000_0000)) + " GB"@
    } else if b >= 0x10_0000 {
        two_places(half_even(b * 100, 0x10_0000)) + " MB"@
    } else if b >= 0x400 {
        one_place(half_even(b * 10, 0x400)) + " KB"@
    } else {
        decimal(b) + " B"@
    }
}

fn round_half_even(num: u128, den: u128) -> (q: u128)
    requires
        den > 0,
        num < 0x1_0000_0000_0000_0000_0000_0000,
        den < 0x1_0000_0000_0000_0000,
    ensures
        q == half_even(num as nat, den as nat),
        q <= num / den + 1,
{
    let q = num / den;
    let r = num % den;
    if 2 * r > den || (2 * r == den && q % 2 == 1) {
        q + 1
    } else {
        q
    }
}

fn float_of(b: u64) -> (x: u128)
    ensures
        x == as_float(b as nat),
        x <= 0x1_0000_0000_0000_1000,
{
    let mut t: u64 = b;
    let mut unit: u128 = 1;
    while t >= 0x20_0000_0000_0000
        invariant
            unit >= 1,
            unit * float_unit(t as nat) == float_unit(b as nat),
            t * unit <= b,
            t >= 0x10_0000_0000_0000 || unit == 1,
        decreases t,
    {
        let ghost t0 = t;
        let ghost u0 = unit;
        assert(unit < 0x800) by (nonlinear_arith)
            requires
                t >= 0x20_0000_0000_0000,
                t * unit <= b,
                b < 0x1_0000_0000_0000_0000,
                unit >= 1,
        ;
        t = t / 2;
        unit = unit * 2;
        assert(unit * float_unit(t as nat) == u0 * float_unit(t0 as nat)) by (nonlinear_arith)
            requires
                unit == 2 * u0,
                float_unit(t0 as nat) == 2 * float_unit(t as nat),
        ;
        assert(t * unit <= t0 * u0) by (nonlinear_arith)
            requires
                t == t0 / 2,
                unit == 2 * u0,
                u0 >= 1,
        ;
    }
    assert(unit == float_unit(b as nat)) by (nonlinear_arith)
        requires
            unit * float_unit(t as nat) == float_unit(b as nat),
            float_unit(t as nat) == 1,
    ;
    assert(unit < 0x1000) by (nonlinear_arith)
        requires
            t * unit <= b,
            b < 0x1_0000_0000_0000_0000,
            unit >= 1,
            t >= 0x10_0000_0000_0000 || unit == 1,
    ;
    let m = round_half_even(b as u128, unit);
    assert(m * unit <= b + unit) by (nonlinear_arith)
        requires
            m <= (b as u128) / unit + 1,
            unit >= 1,
    ;
    m * unit
}

fn with_two_places(n: u64, unit: &str) -> (s: String)
    ensures
        s@ == two_places(n as nat) + unit@,
{
    let mut s = decimal_text(n / 100);
    s.append(".");
    let ghost head = s@;
    s.push(digit_of((n / 10) % 10));
    s.push(digit_of(n % 10));
    assert(s@ =~= head + seq![digit_char(((n / 10) % 10) as nat), digit_char((n % 10) as nat)]);
    s.append(unit);
    s
}

fn with_one_place(n: u64, unit: &str) -> (s: String)
    ensures
        s@ == one_place(n as nat) + unit@,
{
    let mut s = decimal_text(n / 10);
    s.append(".");
    let ghost head = s@;
    s.push(digit_of(n % 10));
    assert(s@ =~= head + seq![digit_char((n % 10) as nat)]);
    s.append(unit);
    s
}

/// Format bytes in a human-readable way
pub fn format_bytes(bytes: u64) -> (s: String)
    ensures
        s@ == bytes_text(bytes as nat),
{
    if bytes >= 0x4000_0000 {
        let x = float_of(bytes);
        let q = round_half_even(x * 100, 0x4000_0000);
        with_two_places(q as u64, " GB")
    } else if bytes >= 0x10_0000 {
        let q = round_half_even((bytes as u128) * 100, 0x10_0000);
        with_two_places(q as u64, " MB")
    } else if bytes >= 0x400 {
        let q = round_half_even((bytes as u128) * 10, 0x400);
        with_one_place(q as u64, " KB")
    } else {
        let mut s = decimal_text(bytes);
        s.append(" B");
        s
    }
}

pub const TIP_PACKAGE: &'static str =
    "Tip: Check the package name spelling or search at https://www.npmjs.com";

pub const TIP_NETWORK: &'static str = "Tip: Check your internet connection or try again later";

pub const TIP_UNPUBLISHED: &'static str =
    "     The package may have been unpublished or the name is incorrect";

pub const TIP_PARSE: &'static str = "Tip: This may be a temporary registry issue. Try again later";

pub const TIP_REPORT: &'static str = "     or report this issue at https://github.com/lassejlv/rpm";

pub const TIP_SCRIPTS: &'static str = "Tip: Run 'rpm run' to see all available scripts";

pub const TIP_BINARY: &'static str = "Tip: The package may not provide an executable binary";

pub const TIP_DOCS: &'static str =
    "     Check the package documentation at https://www.npmjs.com/package/";

pub const TIP_WORKSPACE: &'static str =
    "Tip: Make sure you're in a workspace root with 'workspaces' field in package.json";

/// One item of a list in a message, on a line of its own.
pub open spec fn bullet(item: Seq<char>) -> Seq<char> {
    "\n        "@ + CYAN@ + "•"@ + RESET@ + " "@ + item
}

/// The first `n` items as a list, or all where there are fewer.
pub open spec fn bullets(items: Seq<Seq<char>>, n: int) -> Seq<char>
    decreases n,
{
    if n <= 0 {
        Seq::empty()
    } else if n > items.len() {
        bullets(items, n - 1)
    } else {
        bullets(items, n - 1) + bullet(items[n - 1])
    }
}

/// The line that tells how many items a list leaves out.
pub open spec fn and_more(total: int, shown: int) -> Seq<char> {
    if total > shown {
        "\n        "@ + GRAY@ + "... and "@ + decimal((total - shown) as nat) + " more"@ + RESET@
    } else {
        Seq::empty()
    }
}

/// A hint below a message, set off by an empty line.
pub open spec fn tip(text: Seq<char>) -> Seq<char> {
    "\n\n      "@ + GRAY@ + text + RESET@
}

/// A further line of a hint.
pub open spec fn tip_line(text: Seq<char>) -> Seq<char> {
    "\n      "@ + GRAY@ + text + RESET@
}

/// A name as it is shown in a message: in quotes and bold.
pub open spec fn quoted(name: Seq<char>) -> Seq<char> {
    BOLD@ + "'"@ + name + "'"@ + RESET@
}

/// A list of items in a message under a heading: the first `n` items, and
/// how many there are besides.
pub open spec fn listing(heading: Seq<char>, items: Seq<Seq<char>>, n: int) -> Seq<char> {
    tip(heading) + bullets(items, n) + and_more(items.len() as int, n)
}

/// The message for a package that the registry does not know.
pub open spec fn package_not_found_text(name: Seq<char>, suggestions: Seq<Seq<char>>) -> Seq<char> {
    "Package "@ + quoted(name) + " not found in registry"@ + (if suggestions.len() > 0 {
        tip("Did you mean one of these?"@) + bullets(suggestions, 3)
    } else {
        Seq::empty()
    }) + tip(TIP_PACKAGE@)
}

/// The message for a range that no version serves.
pub open spec fn version_not_found_text(
    name: Seq<char>,
    requested: Seq<char>,
    available: Seq<Seq<char>>,
) -> Seq<char> {
    "No version of "@ + quoted(name) + " matches "@ + (YELLOW@ + "'"@ + requested + "'"@ + RESET@)
        + (if available.len() > 0 {
        listing("Available versions:"@, available, 5)
    } else {
        Seq::empty()
    }) + tip("Tip: Use 'rpm info "@ + name + "' to see all available versions"@)
}

/// The message for a request that failed.
pub open spec fn network_error_text(name: Seq<char>, status: Option<u16>, message: Seq<char>) -> Seq<
    char,
> {
    "Failed to fetch package "@ + quoted(name) + (match status {
        Some(code) => " (HTTP "@ + decimal(code as nat) + ")"@,
        None => Seq::empty(),
    }) + (": "@ + message) + tip(TIP_NETWORK@) + (if status == Some(404u16) {
        tip_line(TIP_UNPUBLISHED@)
    } else {
        Seq::empty()
    })
}

/// The message for a record that could not be decoded.
pub open spec fn parse_error_text(name: Seq<char>, message: Seq<char>) -> Seq<char> {
    "Failed to parse metadata for "@ + quoted(name) + (": "@ + message) + tip(TIP_PARSE@)
        + tip_line(TIP_REPORT@)
}

/// The message for a script that the manifest does not have.
pub open spec fn script_not_found_text(script: Seq<char>, available: Seq<Seq<char>>) -> Seq<char> {
    "Script "@ + quoted(script) + " not found"@ + (if available.len() == 0 {
        tip("No scripts defined in package.json"@)
    } else {
        listing("Available scripts:"@, available, 10)
    }) + tip(TIP_SCRIPTS@)
}

/// The message for a binary that a package does not offer.
pub open spec fn binary_not_found_text(package: Seq<char>, binary: Seq<char>) -> Seq<char> {
    "Binary "@ + quoted(binary) + " not found in package "@ + quoted(package) + tip(TIP_BINARY@)
        + tip_line(TIP_DOCS@ + package)
}

/// The message of an error: what went wrong, what might help, and the
/// first few of the names or versions that could have been meant.
pub open spec fn error_text(e: RpmError) -> Seq<char> {
    match e {
        RpmError::PackageNotFound { name, suggestions } => package_not_found_text(
            name@,
            texts(suggestions@),
        ),
        RpmError::VersionNotFound { name, requested, available } => version_not_found_text(
            name@,
            requested@,
            texts(available@),
        ),
        RpmError::NetworkError { name, status, message } => network_error_text(
            name@,
            status,
            message@,
        ),
        RpmError::ParseError { name, message } => parse_error_text(name@, message@),
        RpmError::ScriptNotFound { script, available } => script_not_found_text(
            script@,
            texts(available@),
        ),
        RpmError::BinaryNotFound { package, binary } => binary_not_found_text(package@, binary@),
        RpmError::WorkspaceError { message } => message@ + tip(TIP_WORKSPACE@),
        RpmError::Other { message, hint } => message@ + (match hint {
            Some(h) => tip("Tip: "@ + h@),
            None => Seq::empty(),
        }),
    }
}

fn bullet_list(items: &Vec<String>, n: usize) -> (s: String)
    ensures
        s@ == bullets(texts(items@), n as int),
{
    let mut s = String::new();
    let mut i: usize = 0;
    while i < n
        invariant
            i <= n,
            s@ == bullets(texts(items@), i as int),
        decreases n - i,
    {
        if i < items.len() {
            let ghost before = s@;
            s.append("\n        ");
            s.append(CYAN);
            s.append("•");
            s.append(RESET);
            s.append(" ");
            s.append(items[i].as_str());
            assert(s@ =~= before + bullet(items@[i as int]@));
        }
        i += 1;
    }
    s
}

fn more_line(total: usize, shown: usize) -> (s: String)
    ensures
        s@ == and_more(total as int, shown as int),
{
    let mut s = String::new();
    if total > shown {
        s.append("\n        ");
        s.append(GRAY);
        s.append("... and ");
        let d = decimal_text((total - shown) as u64);
        s.append(d.as_str());
        s.append(" more");
        s.append(RESET);
        assert(s@ =~= and_more(total as int, shown as int));
    }
    s
}

fn tip_text(text: &str) -> (s: String)
    ensures
        s@ == tip(text@),
{
    let mut s = String::new();
    s.append("\n\n      ");
    s.append(GRAY);
    s.append(text);
    s.append(RESET);
    assert(s@ =~= tip(text@));
    s
}

fn tip_line_text(text: &str) -> (s: String)
    ensures
        s@ == tip_line(text@),
{
    let mut s = String::new();
    s.append("\n      ");
    s.append(GRAY);
    s.append(text);
    s.append(RESET);
    assert(s@ =~= tip_line(text@));
    s
}

fn quote(name: &str) -> (s: String)
    ensures
        s@ == quoted(name@),
{
    let mut s = String::new();
    s.append(BOLD);
    s.append("'");
    s.append(name);
    s.append("'");
    s.append(RESET);
    assert(s@ =~= quoted(name@));
    s
}

fn listing_text(heading: &str, items: &Vec<String>, n: usize) -> (s: String)
    ensures
        s@ == listing(heading@, texts(items@), n as int),
{
    let mut s = tip_text(heading);
    s.append(bullet_list(items, n).as_str());
    s.append(more_line(items.len(), n).as_str());
    s
}

fn package_not_found_message(name: &str, suggestions: &Vec<String>) -> (s: String)
    ensures
        s@ == package_not_found_text(name@, texts(suggestions@)),
{
    let mut s = String::new();
    s.append("Package ");
    s.append(quote(name).as_str());
    s.append(" not found in registry");
    let ghost head = s@;
    if suggestions.len() > 0 {
        let mut list = tip_text("Did you mean one of these?");
        list.append(bullet_list(suggestions, 3).as_str());
        s.append(list.as_str());
    } else {
        assert(s@ =~= head + Seq::<char>::empty());
    }
    s.append(tip_text(TIP_PACKAGE).as_str());
    s
}

fn version_not_found_message(name: &str, requested: &str, available: &Vec<String>) -> (s: String)
    ensures
        s@ == version_not_found_text(name@, requested@, texts(available@)),
{
    let mut s = String::new();
    s.append("No version of ");
    s.append(quote(name).as_str());
    s.append(" matches ");
    let mut asked = String::new();
    asked.append(YELLOW);
    asked.append("'");
    asked.append(requested);
    asked.append("'");
    asked.append(RESET);
    assert(asked@ =~= YELLOW@ + "'"@ + requested@ + "'"@ + RESET@);
    s.append(asked.as_str());
    let ghost head = s@;
    if available.len() > 0 {
        s.append(listing_text("Available versions:", available, 5).as_str());
    } else {
        assert(s@ =~= head + Seq::<char>::empty());
    }
    let mut hint = String::new();
    hint.append("Tip: Use 'rpm info ");
    hint.append(name);
    hint.append("' to see all available versions");
    assert(hint@ =~= "Tip: Use 'rpm info "@ + name@ + "' to see all available versions"@);
    s.append(tip_text(hint.as_str()).as_str());
    s
}

fn network_error_message(name: &str, status: &Option<u16>, message: &str) -> (s: String)
    ensures
        s@ == network_error_text(name@, *status, message@),
{
    let mut s = String::new();
    s.append("Failed to fetch package ");
    s.append(quote(name).as_str());
    let ghost head = s@;
    match status {
        Some(code) => {
            let mut http = String::new();
            http.append(" (HTTP ");
            http.append(decimal_text(*code as u64).as_str());
            http.append(")");
            assert(http@ =~= " (HTTP "@ + decimal(*code as nat) + ")"@);
            s.append(http.as_str());
        },
        None => {
            assert(s@ =~= head + Seq::<char>::empty());
        },
    }
    let mut reason = String::new();
    reason.append(": ");
    reason.append(message);
    s.append(reason.as_str());
    s.append(tip_text(TIP_NETWORK).as_str());
    let ghost body = s@;
    let unpublished = match status {
        Some(code) => *code == 404,
        None => false,
    };
    if unpublished {
        s.append(tip_line_text(TIP_UNPUBLISHED).as_str());
    } else {
        assert(s@ =~= body + Seq::<char>::empty());
    }
    s
}

fn parse_error_message(name: &str, message: &str) -> (s: String)
    ensures
        s@ == parse_error_text(name@, message@),
{
    let mut s = String::new();
    s.append("Failed to parse metadata for ");
    s.append(quote(name).as_str());
    let mut reason = String::new();
    reason.append(": ");
    reason.append(message);
    s.append(reason.as_str());
    s.append(tip_text(TIP_PARSE).as_str());
    s.append(tip_line_text(TIP_REPORT).as_str());
    s
}

fn script_not_found_message(script: &str, available: &Vec<String>) -> (s: String)
    ensures
        s@ == script_not_found_text(script@, texts(available@)),
{
    let mut s = String::new();
    s.append("Script ");
    s.append(quote(script).as_str());
    s.append(" not found");
    if available.len() == 0 {
        s.append(tip_text("No scripts defined in package.json").as_str());
    } else {
        s.append(listing_text("Available scripts:", available, 10).as_str());
    }
    s.append(tip_text(TIP_SCRIPTS).as_str());
    s
}

fn binary_not_found_message(package: &str, binary: &str) -> (s: String)
    ensures
        s@ == binary_not_found_text(package@, binary@),
{
    let mut s = String::new();
    s.append("Binary ");
    s.append(quote(binary).as_str());
    s.append(" not found in package ");
    s.append(quote(package).as_str());
    s.append(tip_text(TIP_BINARY).as_str());
    let mut docs = String::new();
    docs.append(TIP_DOCS);
    docs.append(package);
    s.append(tip_line_text(docs.as_str()).as_str());
    s
}

impl RpmError {
    /// The message of the error, as it is shown to the user.
    pub fn message(&self) -> (s: String)
        ensures
            s@ == error_text(*self),
    {
        match self {
            RpmError::PackageNotFound { name, suggestions } => package_not_found_message(
                name.as_str(),
                suggestions,
            ),
            RpmError::VersionNotFound { name, requested, available } => version_not_found_message(
                name.as_str(),
                requested.as_str(),
                available,
            ),
            RpmError::NetworkError { name, status, message } => network_error_message(
                name.as_str(),
                status,
                message.as_str(),
            ),
            RpmError::ParseError { name, message } => parse_error_message(
                name.as_str(),
                message.as_str(),
            ),
            RpmError::ScriptNotFound { script, available } => script_not_found_message(
                script.as_str(),
                available,
            ),
            RpmError::BinaryNotFound { package, binary } => binary_not_found_message(
                package.as_str(),
                binary.as_str(),
            ),
            RpmError::WorkspaceError { message } => {
                let mut s = message.clone();
                s.append(tip_text(TIP_WORKSPACE).as_str());
                s
            },
            RpmError::Other { message, hint } => {
                let mut s = message.clone();
                match hint {
                    Some(h) => {
                        let mut t = String::new();
                        t.append("Tip: ");
                        t.append(h.as_str());
                        s.append(tip_text(t.as_str()).as_str());
                    },
                    None => {
                        assert(s@ =~= message@ + Seq::<char>::empty());
                    },
                }
                s
            },
        }
    }
}

/// A line as it is shown: as it stands where colours are used, else
/// without its colour codes.
pub open spec fn shown(line: Seq<char>, use_colors: bool) -> Seq<char> {
    if use_colors {
        line
    } else {
        without_colors(line)
    }
}

fn show(line: String, use_colors: bool) -> (s: String)
    ensures
        s@ == shown(line@, use_colors),
{
    if use_colors {
        line
    } else {
        strip_colors(line.as_str())
    }
}

/// The line of a success message: a green check mark, then the message.
pub fn success(msg: &str, use_colors: bool) -> (s: String)
    ensures
        s@ == shown(GREEN@ + SUCCESS@ + RESET@ + " "@ + msg@, use_colors),
{
    let mut line = String::new();
    line.append(GREEN);
    line.append(SUCCESS);
    line.append(RESET);
    line.append(" ");
    line.append(msg);
    assert(line@ =~= GREEN@ + SUCCESS@ + RESET@ + " "@ + msg@);
    show(line, use_colors)
}

/// The line of a warning: `warn:` in yellow, then the message.
pub fn warning(msg: &str, use_colors: bool) -> (s: String)
    ensures
        s@ == shown(YELLOW@ + "warn:"@ + RESET@ + " "@ + msg@, use_colors),
{
    let mut line = String::new();
    line.append(YELLOW);
    line.append("warn:");
    line.append(RESET);
    line.append(" ");
    line.append(msg);
    assert(line@ =~= YELLOW@ + "warn:"@ + RESET@ + " "@ + msg@);
    show(line, use_colors)
}

/// The line of an error: `error:` in bold red, then the message.
pub fn error(msg: &str, use_colors: bool) -> (s: String)
    ensures
        s@ == shown(BOLD_RED@ + "error:"@ + RESET@ + " "@ + msg@, use_colors),
{
    let mut line = String::new();
    line.append(BOLD_RED);
    line.append("error:");
    line.append(RESET);
    line.append(" ");
    line.append(msg);
    assert(line@ =~= BOLD_RED@ + "error:"@ + RESET@ + " "@ + msg@);
    show(line, use_colors)
}

/// The line of a notice: `info:` in cyan, then the message.
pub fn info(msg: &str, use_colors: bool) -> (s: String)
    ensures
        s@ == shown(CYAN@ + "info:"@ + RESET@ + " "@ + msg@, use_colors),
{
    let mut line = String::new();
    line.append(CYAN);
    line.append("info:");
    line.append(RESET);
    line.append(" ");
    line.append(msg);
    assert(line@ =~= CYAN@ + "info:"@ + RESET@ + " "@ + msg@);
    show(line, use_colors)
}

/// The line of a hint: indented and grey.
pub fn hint(msg: &str, use_colors: bool) -> (s: String)
    ensures
        s@ == shown("      "@ + GRAY@ + msg@ + RESET@, use_colors),
{
    let mut line = String::new();
    line.append("      ");
    line.append(GRAY);
    line.append(msg);
    line.append(RESET);
    assert(line@ =~= "      "@ + GRAY@ + msg@ + RESET@);
    show(line, use_colors)
}

/// The line that tells that a package was added.
pub fn package_added(name: &str, version: &str, use_colors: bool) -> (s: String)
    ensures
        s@ == shown(
            GREEN@ + PLUS@ + RESET@ + " "@ + BOLD@ + name@ + RESET@ + "@"@ + GRAY@ + version@
                + RESET@,
            use_colors,
        ),
{
    let mut line = String::new();
    line.append(GREEN);
    line.append(PLUS);
    line.append(RESET);
    line.append(" ");
    line.append(BOLD);
    line.append(name);
    line.append(RESET);
    line.append("@");
    line.append(GRAY);
    line.append(version);
    line.append(RESET);
    assert(line@ =~= GREEN@ + PLUS@ + RESET@ + " "@ + BOLD@ + name@ + RESET@ + "@"@ + GRAY@
        + version@ + RESET@);
    show(line, use_colors)
}

/// The line that tells that a package was removed.
pub fn package_removed(name: &str, use_colors: bool) -> (s: String)
    ensures
        s@ == shown(RED@ + MINUS@ + RESET@ + " "@ + BOLD@ + name@ + RESET@, use_colors),
{
    let mut line = String::new();
    line.append(RED);
    line.append(MINUS);
    line.append(RESET);
    line.append(" ");
    line.append(BOLD);
    line.append(name);
    line.append(RESET);
    assert(line@ =~= RED@ + MINUS@ + RESET@ + " "@ + BOLD@ + name@ + RESET@);
    show(line, use_colors)
}

/// The line that tells that a package went from one version to another.
pub fn package_updated(name: &str, old_version: &str, new_version: &str, use_colors: bool) -> (s:
    String)
    ensures
        s@ == shown(
            CYAN@ + ARROW_UP@ + RESET@ + " "@ + BOLD@ + name@ + RESET@ + " "@ + GRAY@
                + old_version@ + RESET@ + " "@ + ARROW_RIGHT@ + " "@ + GREEN@ + new_version@
                + RESET@,
            use_colors,
        ),
{
    let mut line = String::new();
    line.append(CYAN);
    line.append(ARROW_UP);
    line.append(RESET);
    line.append(" ");
    line.append(BOLD);
    line.append(name);
    line.append(RESET);
    line.append(" ");
    line.append(GRAY);
    line.append(old_version);
    line.append(RESET);
    line.append(" ");
    line.append(ARROW_RIGHT);
    line.append(" ");
    line.append(GREEN);
    line.append(new_version);
    line.append(RESET);
    assert(line@ =~= CYAN@ + ARROW_UP@ + RESET@ + " "@ + BOLD@ + name@ + RESET@ + " "@ + GRAY@
        + old_version@ + RESET@ + " "@ + ARROW_RIGHT@ + " "@ + GREEN@ + new_version@ + RESET@);
    show(line, use_colors)
}

/// The start of the message beside the spinner: how many packages are
/// resolved and how many installed.
pub open spec fn progress_head(resolved: nat, installed: nat) -> Seq<char> {
    BOLD@ + "Resolved"@ + RESET@ + " "@ + CYAN@ + decimal(resolved) + RESET@ + " "@ + GRAY@
        + SEPARATOR@ + RESET@ + "  "@ + (BOLD@ + "Installed"@ + RESET@ + " "@ + GREEN@ + decimal(
        installed,
    ) + RESET@)
}

/// The part of the message that tells how many packages came from the
/// cache, where any did.
pub open spec fn progress_cached(cached: nat) -> Seq<char> {
    if cached > 0 {
        part_separator() + (GRAY@ + "Cached"@ + RESET@ + " "@ + YELLOW@ + decimal(cached) + RESET@)
    } else {
        Seq::empty()
    }
}

/// The part of the message that names the package that is worked on, where
/// one is.
pub open spec fn progress_current(current: Option<Seq<char>>) -> Seq<char> {
    match current {
        Some(package) => part_separator() + GRAY@ + package + RESET@,
        None => Seq::empty(),
    }
}

/// The message beside the spinner while packages are installed: how many
/// are resolved and installed, how many came from the cache where any did,
/// and the package that is worked on where one is.
pub open spec fn progress_text(
    resolved: nat,
    installed: nat,
    cached: nat,
    current: Option<Seq<char>>,
) -> Seq<char> {
    progress_head(resolved, installed) + progress_cached(cached) + progress_current(current)
}

fn head_of_progress(resolved: usize, installed: usize) -> (s: String)
    ensures
        s@ == progress_head(resolved as nat, installed as nat),
{
    let mut s = labelled(BOLD, "Resolved", CYAN, resolved, " ");
    s.append(GRAY);
    s.append(SEPARATOR);
    s.append(RESET);
    s.append("  ");
    let second = labelled(BOLD, "Installed", GREEN, installed, "");
    assert(second@ =~= BOLD@ + "Installed"@ + RESET@ + " "@ + GREEN@ + decimal(installed as nat)
        + RESET@) by {
        reveal_strlit("");
    }
    s.append(second.as_str());
    s
}

fn cached_of_progress(cached: usize) -> (s: String)
    ensures
        s@ == progress_cached(cached as nat),
{
    if cached > 0 {
        let mut s = separator_text();
        let part = labelled(GRAY, "Cached", YELLOW, cached, "");
        assert(part@ =~= GRAY@ + "Cached"@ + RESET@ + " "@ + YELLOW@ + decimal(cached as nat)
            + RESET@) by {
            reveal_strlit("");
        }
        s.append(part.as_str());
        s
    } else {
        String::new()
    }
}

fn current_of_progress(current: Option<&str>) -> (s: String)
    ensures
        s@ == progress_current(
            match current {
                Some(c) => Some(c@),
                None => None,
            },
        ),
{
    match current {
        Some(package) => {
            let mut s = separator_text();
            s.append(GRAY);
            s.append(package);
            s.append(RESET);
            s
        },
        None => String::new(),
    }
}

/// The message beside the spinner while packages are installed.
pub fn format_install_progress(
    resolved: usize,
    installed: usize,
    cached: usize,
    current: Option<&str>,
) -> (s: String)
    ensures
        s@ == progress_text(
            resolved as nat,
            installed as nat,
            cached as nat,
            match current {
                Some(c) => Some(c@),
                None => None,
            },
        ),
{
    let mut s = head_of_progress(resolved, installed);
    s.append(cached_of_progress(cached).as_str());
    s.append(current_of_progress(current).as_str());
    s
}

} // verus!

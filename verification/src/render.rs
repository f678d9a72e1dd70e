//! The text of the package listing and of the summary line.
//!
//! Nothing here touches the terminal: every function returns the text that is
//! to be printed.

use crate::ansi::{decimal, foreground, push_decimal, reset, reset_text, tint_text, Tint};
use vstd::prelude::*;
use vstd::string::StringExecFns;

verus! {

/// One package of a listing.
#[derive(Clone, Debug)]
pub struct PackageInfo {
    pub name: String,
    pub version: String,
    /// Where the package comes from: `aur`, `core`, `extra`, `community`,
    /// `local`, or anything else.
    pub source: String,
    pub description: String,
}

/// The packages of a listing, in the order in which they are shown.
#[derive(Clone, Debug)]
pub struct PackageInfoList {
    pub pkgs: Vec<PackageInfo>,
}

/// The number shown in front of the entry at `position` of a listing of
/// `count` entries: the last entry is number 1, the first is number `count`.
pub open spec fn label_of(count: nat, position: nat) -> int {
    count - position
}

/// `input` painted in `tint`: the colour, the text, and the reset that ends
/// the colour.
pub open spec fn styled_text(input: Seq<char>, tint: Tint) -> Seq<char> {
    tint_text(tint) + input + reset_text()
}

/// The colour of a source, where the source is one of the five known ones.
pub open spec fn source_tint(source: Seq<char>) -> Option<Tint> {
    if source == "aur"@ {
        Some(Tint::LightGreen)
    } else if source == "core"@ {
        Some(Tint::Magenta)
    } else if source == "extra"@ {
        Some(Tint::Blue)
    } else if source == "community"@ {
        Some(Tint::Cyan)
    } else if source == "local"@ {
        Some(Tint::LightBlack)
    } else {
        None
    }
}

/// How a source is shown: painted in its colour, or not at all where it is
/// none of the known ones.
pub open spec fn source_text(source: Seq<char>) -> Seq<char> {
    match source_tint(source) {
        Some(tint) => styled_text(source, tint),
        None => Seq::<char>::empty(),
    }
}

/// The two lines of one entry: number, source, name and version on the
/// first, the description behind a tab on the second.
pub open spec fn entry_text(package: PackageInfo, number: int) -> Seq<char> {
    " "@ + decimal(number as nat) + " "@ + source_text(package.source@) + "/"@ + styled_text(
        package.name@,
        Tint::LightCyan,
    ) + " "@ + styled_text(package.version@, Tint::Yellow) + "\n"@ + "\t"@ + package.description@
        + "\n"@
}

/// The lines of the first `k` entries of a listing.
pub open spec fn listing_prefix(pkgs: Seq<PackageInfo>, k: nat) -> Seq<char>
    decreases k,
{
    if k == 0 || k > pkgs.len() {
        Seq::<char>::empty()
    } else {
        listing_prefix(pkgs, (k - 1) as nat) + entry_text(
            pkgs[k - 1],
            label_of(pkgs.len(), (k - 1) as nat),
        )
    }
}

/// The lines of a whole listing.
pub open spec fn listing_text(pkgs: Seq<PackageInfo>) -> Seq<char> {
    listing_prefix(pkgs, pkgs.len())
}

/// The names of the first `k` packages, each painted, with `, ` between them.
pub open spec fn joined_names(pkgs: Seq<PackageInfo>, k: nat) -> Seq<char>
    decreases k,
{
    if k == 0 || k > pkgs.len() {
        Seq::<char>::empty()
    } else if k == 1 {
        styled_text(pkgs[0].name@, Tint::LightCyan)
    } else {
        joined_names(pkgs, (k - 1) as nat) + ", "@ + styled_text(
            pkgs[k - 1].name@,
            Tint::LightCyan,
        )
    }
}

/// The two summary lines: the names, then the caption in brackets and the
/// number of packages.
pub open spec fn summary_text(info: Seq<char>, pkgs: Seq<PackageInfo>) -> Seq<char> {
    joined_names(pkgs, pkgs.len()) + " \n"@ + tint_text(Tint::LightBlack) + "["@ + info + "]"@
        + tint_text(Tint::LightMagenta) + decimal(pkgs.len()) + " packages"@ + reset_text() + "\n"@
}

/// The line that reports why the list could not be loaded in full.
pub open spec fn error_text(message: Seq<char>) -> Seq<char> {
    "Error: "@ + message + "\n"@
}

/// Whether two texts are the same.
fn same_text(a: &str, b: &str) -> (r: bool)
    ensures
        r == (a@ == b@),
{
    let x = a.to_owned();
    let y = b.to_owned();
    x == y
}

/// The number shown in front of the entry at `position` of a listing of
/// `count` entries.
pub fn label(count: usize, position: usize) -> (r: usize)
    requires
        position < count,
    ensures
        r == label_of(count as nat, position as nat),
        1 <= r <= count,
{
    count - position
}

/// `input` painted in `tint`.
pub fn style(input: &str, tint: Tint) -> (text: String)
    ensures
        text@ == styled_text(input@, tint),
{
    let mut out = foreground(tint);
    out.append(input);
    let plain = reset();
    out.append(plain.as_str());
    out
}

/// The source painted in its colour; the empty text for a source that is none
/// of the known ones.
pub fn style_for_source(source: &str) -> (text: String)
    ensures
        text@ == source_text(source@),
{
    if same_text(source, "aur") {
        style(source, Tint::LightGreen)
    } else if same_text(source, "core") {
        style(source, Tint::Magenta)
    } else if same_text(source, "extra") {
        style(source, Tint::Blue)
    } else if same_text(source, "community") {
        style(source, Tint::Cyan)
    } else if same_text(source, "local") {
        style(source, Tint::LightBlack)
    } else {
        String::new()
    }
}

/// The two lines of one entry under the number `number`.
pub fn entry(package: &PackageInfo, number: usize) -> (text: String)
    ensures
        text@ == entry_text(*package, number as int),
{
    let source = style_for_source(package.source.as_str());
    let name = style(package.name.as_str(), Tint::LightCyan);
    let version = style(package.version.as_str(), Tint::Yellow);
    let mut out = String::new();
    out.append(" ");
    push_decimal(&mut out, number as u64);
    out.append(" ");
    out.append(source.as_str());
    out.append("/");
    out.append(name.as_str());
    out.append(" ");
    out.append(version.as_str());
    out.append("\n");
    out.append("\t");
    out.append(package.description.as_str());
    out.append("\n");
    assert(out@ =~= entry_text(*package, number as int));
    out
}

/// The line that reports why the list could not be loaded in full.
pub fn error_line(message: &str) -> (text: String)
    ensures
        text@ == error_text(message@),
{
    let mut out = String::new();
    out.append("Error: ");
    out.append(message);
    out.append("\n");
    assert(out@ =~= error_text(message@));
    out
}

/// The two summary lines for `lst` under the caption `info`.
pub fn print_pkg_list(info: &str, lst: &PackageInfoList) -> (text: String)
    ensures
        text@ == summary_text(info@, lst.pkgs@),
{
    let n = lst.len();
    let mut out = String::new();
    let mut i: usize = 0;
    while i < n
        invariant
            i <= n,
            n == lst.pkgs@.len(),
            out@ == joined_names(lst.pkgs@, i as nat),
        decreases n - i,
    {
        if i > 0 {
            out.append(", ");
        }
        let name = style(lst.pkgs[i].name.as_str(), Tint::LightCyan);
        out.append(name.as_str());
        i += 1;
        assert(out@ =~= joined_names(lst.pkgs@, i as nat));
    }
    let grey = foreground(Tint::LightBlack);
    let pink = foreground(Tint::LightMagenta);
    let plain = reset();
    out.append(" \n");
    out.append(grey.as_str());
    out.append("[");
    out.append(info);
    out.append("]");
    out.append(pink.as_str());
    push_decimal(&mut out, n as u64);
    out.append(" packages");
    out.append(plain.as_str());
    out.append("\n");
    assert(out@ =~= summary_text(info@, lst.pkgs@));
    out
}

impl PackageInfoList {
    /// The number of packages.
    pub fn len(&self) -> (n: usize)
        ensures
            n == self.pkgs@.len(),
    {
        self.pkgs.len()
    }

    /// The lines of the listing: two for each package, the first package
    /// under the highest number and the last under number 1.
    pub fn listing(&self) -> (text: String)
        ensures
            text@ == listing_text(self.pkgs@),
    {
        let n = self.len();
        let mut out = String::new();
        let mut i: usize = 0;
        while i < n
            invariant
                i <= n,
                n == self.pkgs@.len(),
                out@ == listing_prefix(self.pkgs@, i as nat),
            decreases n - i,
        {
            let lines = entry(&self.pkgs[i], label(n, i));
            out.append(lines.as_str());
            i += 1;
        }
        out
    }
}

} // verus!

//! The list of installed packages, read from the package manager's listing.
use vstd::prelude::*;

use crate::text::{
    chars_of, find_char, find_char_exec, lemma_find_char_from_bounds, lines, lines_exec,
    slice_chars, string_of, trim, trim_exec,
};

verus! {

/// A package as the listing names it.
#[derive(Debug, Clone)]
pub struct PackageInfo {
    pub app_name: String,
    pub package_name: String,
}

/// An app as the web interface reports it.
#[derive(Debug, Clone)]
pub struct AppInfo {
    pub name: String,
    pub package_name: String,
}

/// The package a listing line (`package:<path>=<name>`) names: the text after
/// the first `=` that follows the first `:`, trimmed.
pub open spec fn package_of_line(l: Seq<char>) -> Option<Seq<char>> {
    let i = find_char(l, ':');
    if i < 0 {
        None
    } else {
        let rest = l.skip(i + 1);
        let j = find_char(rest, '=');
        if j < 0 {
            None
        } else {
            Some(trim(rest.skip(j + 1)))
        }
    }
}

/// The packages the lines from index `i` on name, in order.
pub open spec fn packages_from(ls: Seq<Seq<char>>, i: int) -> Seq<Seq<char>>
    decreases ls.len() - i,
{
    if i < 0 || i >= ls.len() {
        Seq::empty()
    } else {
        match package_of_line(ls[i]) {
            Some(p) => seq![p] + packages_from(ls, i + 1),
            None => packages_from(ls, i + 1),
        }
    }
}

/// The packages a whole listing names.
pub open spec fn packages_of(output: Seq<char>) -> Seq<Seq<char>> {
    packages_from(lines(output), 0)
}

fn package_of_line_exec(l: &Vec<char>) -> (r: Option<Vec<char>>)
    ensures
        match r {
            Some(p) => package_of_line(l@) == Some(p@),
            None => package_of_line(l@) is None,
        },
{
    let i = match find_char_exec(l, ':', 0) {
        Some(i) => i,
        None => return None,
    };
    proof {
        lemma_find_char_from_bounds(l@, ':', 0);
        assert(i < l.len());
    }
    let rest = slice_chars(l, i + 1, l.len());
    assert(rest@ =~= l@.skip(i + 1));
    let j = match find_char_exec(&rest, '=', 0) {
        Some(j) => j,
        None => return None,
    };
    proof {
        lemma_find_char_from_bounds(rest@, '=', 0);
        assert(j < rest@.len());
    }
    let tail = slice_chars(&rest, j + 1, rest.len());
    assert(tail@ =~= rest@.skip(j + 1));
    Some(trim_exec(&tail))
}

/// The packages a listing names, each with its name as the app name.
pub fn parse_installed_packages(output: &str) -> (r: Vec<PackageInfo>)
    ensures
        r@.len() == packages_of(output@).len(),
        forall|k: int| 0 <= k < r@.len() ==> #[trigger] r@[k].package_name@ == packages_of(output@)[k]
            && r@[k].app_name@ == packages_of(output@)[k],
{
    let v = chars_of(output);
    let ls = lines_exec(&v);
    let ghost g = lines(v@);
    let mut r: Vec<PackageInfo> = Vec::new();
    let mut i: usize = 0;
    while i < ls.len()
        invariant
            i <= ls@.len(),
            ls@.len() == g.len(),
            g == lines(output@),
            forall|k: int| 0 <= k < ls@.len() ==> #[trigger] ls@[k]@ == g[k],
            r@.len() + packages_from(g, i as int).len() == packages_from(g, 0).len(),
            forall|k: int| 0 <= k < r@.len() ==> #[trigger] r@[k].package_name@ == packages_from(g, 0)[k]
                && r@[k].app_name@ == packages_from(g, 0)[k],
            forall|k: int| 0 <= k < packages_from(g, i as int).len() ==> #[trigger] packages_from(g, i as int)[k]
                == packages_from(g, 0)[r@.len() + k],
        decreases ls@.len() - i,
    {
        let ghost pf = packages_from(g, i as int);
        match package_of_line_exec(&ls[i]) {
            Some(p) => {
                let name = string_of(&p);
                let name2 = string_of(&p);
                assert(pf[0] == p@);
                assert forall|k: int| 0 <= k < packages_from(g, i + 1).len() implies #[trigger] packages_from(
                    g,
                    i + 1,
                )[k] == packages_from(g, 0)[r@.len() + 1 + k] by {
                    assert(pf[k + 1] == packages_from(g, i + 1)[k]);
                }
                r.push(PackageInfo { app_name: name, package_name: name2 });
            },
            None => {},
        }
        i += 1;
    }
    r
}

/// The apps the packages stand for.
pub fn apps_of(packages: Vec<PackageInfo>) -> (r: Vec<AppInfo>)
    ensures
        r@.len() == packages@.len(),
        forall|k: int| 0 <= k < r@.len() ==> #[trigger] r@[k].name == packages@[k].app_name
            && r@[k].package_name == packages@[k].package_name,
{
    let mut r: Vec<AppInfo> = Vec::new();
    let mut rest = packages;
    let ghost all = rest@;
    assert(all.len() == rest.len());
    let mut i: usize = 0;
    while rest.len() > 0
        invariant
            i + rest@.len() == all.len(),
            all.len() <= usize::MAX,
            rest@ == all.skip(i as int),
            r@.len() == i,
            forall|k: int| 0 <= k < i ==> #[trigger] r@[k].name == all[k].app_name
                && r@[k].package_name == all[k].package_name,
        decreases rest@.len(),
    {
        let p = rest.remove(0);
        assert(p == all[i as int]);
        assert(rest@ =~= all.skip(i + 1));
        r.push(AppInfo { name: p.app_name, package_name: p.package_name });
        i += 1;
    }
    r
}

} // verus!

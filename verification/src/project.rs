//! Project discovery: walking from a start directory up to the nearest
//! directory that holds a manifest, and reducing a project's target list
//! to its binary target names.
//!
//! The walk itself is pure: the filesystem facts it needs — which
//! candidate directories hold a manifest — are handed in as values, so
//! the caller performs only existence probes.
use crate::paths::normalized_abs;
use crate::paths::parent_dir;
use crate::paths::parent_view;
use crate::paths::lemma_last_occur;
use crate::text::contains_str;
use crate::InstallError;
use vstd::prelude::*;
use vstd::string::StrSliceExecFns;
use vstd::string::StringExecFns;

verus! {

/// `start` and every directory above it, nearest first, ending at the
/// root.
pub open spec fn ancestors_view(p: Seq<char>) -> Seq<Seq<char>>
    decreases p.len(),
    via ancestors_view_decreases
{
    if p.len() <= 1 {
        seq![p]
    } else {
        seq![p] + ancestors_view(parent_view(p))
    }
}

#[via_fn]
proof fn ancestors_view_decreases(p: Seq<char>) {
    lemma_last_occur(p, '/');
}

/// List `start` and all its ancestor directories, nearest first.
pub fn ancestors_of(start: &str) -> (r: Vec<String>)
    requires
        normalized_abs(start@),
    ensures
        r.deep_view() == ancestors_view(start@),
    decreases start@.len(),
{
    if start.unicode_len() <= 1 {
        let mut r: Vec<String> = Vec::new();
        r.push(String::from_str(start));
        proof {
            assert(r.deep_view() =~= ancestors_view(start@));
        }
        r
    } else {
        let par = parent_dir(start);
        let ghost rest = ancestors_view(parent_view(start@));
        let mut r = ancestors_of(par.as_str());
        r.insert(0, String::from_str(start));
        proof {
            assert(r.deep_view() =~= seq![start@] + rest);
        }
        r
    }
}

/// The nearest directory at or above `p` that is among `dirs`, walking
/// parent by parent; nothing when the walk reaches the root without a
/// match.
pub open spec fn find_root_view(p: Seq<char>, dirs: Seq<Seq<char>>) -> Option<Seq<char>>
    decreases p.len(),
    via find_root_view_decreases
{
    if dirs.contains(p) {
        Some(p)
    } else if p.len() <= 1 {
        None
    } else {
        find_root_view(parent_view(p), dirs)
    }
}

#[via_fn]
proof fn find_root_view_decreases(p: Seq<char>, dirs: Seq<Seq<char>>) {
    lemma_last_occur(p, '/');
}

/// Locate the project root: the nearest directory at or above `start`
/// that holds a manifest.  `manifest_dirs` lists the directories at or
/// above `start` in which a manifest file exists.
pub fn find_crate_root(start: &str, manifest_dirs: &Vec<String>) -> (r: Result<
    String,
    InstallError,
>)
    requires
        normalized_abs(start@),
    ensures
        r is Ok <==> find_root_view(start@, manifest_dirs.deep_view()) is Some,
        r is Ok ==> r->Ok_0@ == find_root_view(start@, manifest_dirs.deep_view())->0,
        r is Err ==> r->Err_0 == InstallError::ProjectNotFound,
{
    let mut current: String = String::from_str(start);
    loop
        invariant
            normalized_abs(current@),
            find_root_view(current@, manifest_dirs.deep_view()) == find_root_view(
                start@,
                manifest_dirs.deep_view(),
            ),
        decreases current@.len(),
    {
        if contains_str(manifest_dirs, current.as_str()) {
            return Ok(current);
        }
        if current.as_str().unicode_len() <= 1 {
            return Err(InstallError::ProjectNotFound);
        }
        current = parent_dir(current.as_str());
    }
}

/// One build target of the project, reduced to the facts the tool
/// reads: its name and whether it is a binary target.
#[derive(Debug, Clone)]
pub struct BinTarget {
    pub name: String,
    pub is_bin: bool,
}

/// The names of the binary targets, in the order given.
pub open spec fn bin_names_view(ts: Seq<BinTarget>) -> Seq<Seq<char>>
    decreases ts.len(),
{
    if ts.len() == 0 {
        Seq::empty()
    } else {
        bin_names_view(ts.drop_last()) + if ts.last().is_bin {
            seq![ts.last().name@]
        } else {
            Seq::empty()
        }
    }
}

/// Keep the name of every binary target, in order.
pub fn bin_target_names(targets: &Vec<BinTarget>) -> (r: Vec<String>)
    ensures
        r.deep_view() == bin_names_view(targets@),
{
    let mut r: Vec<String> = Vec::new();
    let mut i: usize = 0;
    while i < targets.len()
        invariant
            i <= targets.len(),
            r.deep_view() =~= bin_names_view(targets@.take(i as int)),
        decreases targets.len() - i,
    {
        proof {
            assert(targets@.take(i + 1).drop_last() =~= targets@.take(i as int));
            assert(targets@.take(i + 1).last() == targets@[i as int]);
        }
        if targets[i].is_bin {
            r.push(targets[i].name.clone());
        }
        proof {
            assert(r.deep_view() =~= bin_names_view(targets@.take(i + 1)));
        }
        i = i + 1;
    }
    proof {
        assert(targets@.take(targets@.len() as int) =~= targets@);
    }
    r
}

} // verus!

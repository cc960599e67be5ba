//! The structured request handed in by the command-line layer, and the
//! normalization applied to raw arguments before flag parsing.
use crate::text::str_eq;
use vstd::prelude::*;

verus! {

/// What the caller asked for: an optional explicit binary name and
/// whether overwriting an existing wrapper is permitted.
#[derive(Debug, Clone, PartialEq, Eq)]
pub struct CliArgs {
    pub bin: Option<String>,
    pub force: bool,
}

/// Raw arguments with one leading pseudo-subcommand token (the word
/// after the program name) removed, so the tool parses the same flags
/// whether invoked directly or as a project-tool subcommand.
pub open spec fn normalized_args_view(a: Seq<Seq<char>>) -> Seq<Seq<char>> {
    if a.len() >= 2 && a[1] == "dev-install"@ {
        a.remove(1)
    } else {
        a
    }
}

/// Strip the pseudo-subcommand token if present; see
/// `normalized_args_view`.
pub fn normalize_args(argv: &Vec<String>) -> (r: Vec<String>)
    ensures
        r.deep_view() == normalized_args_view(argv.deep_view()),
{
    let mut r: Vec<String> = Vec::new();
    let mut i: usize = 0;
    while i < argv.len()
        invariant
            i <= argv.len(),
            r@.len() == i,
            forall|k: int| 0 <= k < i ==> #[trigger] r@[k]@ == argv@[k]@,
        decreases argv.len() - i,
    {
        r.push(argv[i].clone());
        proof {
            assert(r@[i as int]@ == argv@[i as int]@);
        }
        i = i + 1;
    }
    proof {
        assert forall|k: int| 0 <= k < argv@.len() implies r.deep_view()[k] == argv.deep_view()[k]
        by {
            assert(r@[k]@ == argv@[k]@);
        }
        assert(r.deep_view() =~= argv.deep_view());
    }
    if argv.len() >= 2 && str_eq(argv[1].as_str(), "dev-install") {
        r.remove(1);
        proof {
            assert(r.deep_view() =~= argv.deep_view().remove(1));
        }
    }
    r
}

} // verus!

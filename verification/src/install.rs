//! Location policy and the computable parts of the wrapper write
//! protocol: where the wrapper goes, whether that directory is already
//! discoverable through the search path, what the wrapper says, and the
//! sibling temporary name used for the crash-safe write.
use crate::paths::join_view;
use crate::paths::last_occur;
use crate::paths::lemma_last_occur;
use crate::paths::path_join;
use crate::paths::rfind_char;
use crate::text::first_occur;
use crate::text::lemma_first_occur;
use crate::text::str_eq;
use crate::EnvSnapshot;
use crate::InstallError;
use vstd::prelude::*;
use vstd::string::StrSliceExecFns;
use vstd::string::StringExecFns;

verus! {

/// Where the wrapper is installed: the override directory when one is
/// set, else `.local/bin` under the home directory, else nowhere.
pub open spec fn install_dir_view(env: EnvSnapshot) -> Option<Seq<char>> {
    if env.xdg_bin_home is Some {
        Some(env.xdg_bin_home->0@)
    } else if env.home is Some {
        Some(join_view(env.home->0@, ".local/bin"@))
    } else {
        None
    }
}

/// Compute the install directory from the environment snapshot alone.
/// The override directory always wins; with neither it nor a home
/// directory present there is nowhere to install.
pub fn install_dir(env: &EnvSnapshot) -> (r: Option<String>)
    ensures
        r is Some <==> install_dir_view(*env) is Some,
        r is Some ==> r->0@ == install_dir_view(*env)->0,
{
    match &env.xdg_bin_home {
        Some(x) => Some(x.clone()),
        None => match &env.home {
            Some(h) => Some(path_join(h.as_str(), ".local/bin")),
            None => None,
        },
    }
}

/// The separator-delimited entries of a search-path string.  Empty
/// entries are kept as empty strings; no entry is normalized.
pub open spec fn search_entries(s: Seq<char>) -> Seq<Seq<char>>
    decreases s.len(),
    via search_entries_decreases
{
    if first_occur(s, ':') == s.len() {
        seq![s]
    } else {
        seq![s.take(first_occur(s, ':'))] + search_entries(s.skip(first_occur(s, ':') + 1))
    }
}

#[via_fn]
proof fn search_entries_decreases(s: Seq<char>) {
    lemma_first_occur(s, ':');
}

fn on_path_from(path_var: &str, pos: usize, dir: &str) -> (r: bool)
    requires
        pos <= path_var@.len(),
    ensures
        r == search_entries(path_var@.skip(pos as int)).contains(dir@),
    decreases path_var@.len() - pos,
{
    let n: usize = path_var.unicode_len();
    let ghost rest = path_var@.skip(pos as int);
    proof {
        lemma_first_occur(rest, ':');
    }
    let mut e: usize = pos;
    while e < n && path_var.get_char(e) != ':'
        invariant
            path_var@.len() == n,
            pos <= e <= n,
            rest == path_var@.skip(pos as int),
            e - pos <= first_occur(rest, ':'),
        decreases n - e,
    {
        proof {
            lemma_first_occur(rest, ':');
            assert(rest[e - pos] == path_var@[e as int]);
        }
        e = e + 1;
    }
    proof {
        lemma_first_occur(rest, ':');
        if e < n {
            assert(rest[e - pos] == path_var@[e as int]);
        }
        assert(e - pos == first_occur(rest, ':'));
    }
    let entry = path_var.substring_char(pos, e);
    proof {
        assert(entry@ =~= rest.take(first_occur(rest, ':')));
    }
    if str_eq(entry, dir) {
        proof {
            if e < n {
                assert(search_entries(rest)[0] == dir@);
            } else {
                assert(rest.take(first_occur(rest, ':')) =~= rest);
                assert(search_entries(rest)[0] == dir@);
            }
        }
        return true;
    }
    if e == n {
        proof {
            assert(rest.take(first_occur(rest, ':')) =~= rest);
            if search_entries(rest).contains(dir@) {
                let k = choose|k: int|
                    0 <= k < search_entries(rest).len() && search_entries(rest)[k] == dir@;
            }
        }
        return false;
    }
    let r = on_path_from(path_var, e + 1, dir);
    proof {
        assert(path_var@.skip(e + 1) =~= rest.skip(first_occur(rest, ':') + 1));
        let tail = search_entries(rest.skip(first_occur(rest, ':') + 1));
        if r {
            let k = choose|k: int| 0 <= k < tail.len() && tail[k] == dir@;
            assert(search_entries(rest)[k + 1] == dir@);
        } else {
            if search_entries(rest).contains(dir@) {
                let k = choose|k: int|
                    0 <= k < search_entries(rest).len() && search_entries(rest)[k] == dir@;
                assert(k > 0);
                assert(tail[k - 1] == dir@);
            }
        }
    }
    r
}

/// Whether `dir` appears verbatim among the separator-delimited entries
/// of the search-path string.  A missing search path counts as not
/// discoverable.
pub fn is_on_path(dir: &str, path_var: Option<&str>) -> (r: bool)
    ensures
        r == match path_var {
            Some(p) => search_entries(p@).contains(dir@),
            None => false,
        },
{
    match path_var {
        Some(p) => {
            let r = on_path_from(p, 0, dir);
            proof {
                assert(p@.skip(0) =~= p@);
            }
            r
        },
        None => false,
    }
}

/// The text of the installed wrapper: a shell script that re-invokes the
/// project's build-and-run tooling from the project root, forwarding all
/// arguments.
pub open spec fn wrapper_view(root: Seq<char>) -> Seq<char> {
    "#!/usr/bin/env bash\nset -euo pipefail\n\nREPO=\""@ + root
        + "\"\nexec cargo run --manifest-path \"$REPO/Cargo.toml\" -- \"$@\"\n"@
}

/// Render the wrapper script for a project rooted at `crate_root`.
pub fn render_wrapper(crate_root: &str) -> (r: String)
    ensures
        r@ == wrapper_view(crate_root@),
{
    let s = String::from_str("#!/usr/bin/env bash\nset -euo pipefail\n\nREPO=\"");
    let s = s.concat(crate_root);
    let s = s.concat("\"\nexec cargo run --manifest-path \"$REPO/Cargo.toml\" -- \"$@\"\n");
    proof {
        assert(s@ =~= wrapper_view(crate_root@));
    }
    s
}

/// The sibling temporary name for a crash-safe write to `p`: the file
/// name's extension (if any) replaced by `tmp`, matching the standard
/// path library's extension-replacement rule.
pub open spec fn temp_path_view(p: Seq<char>) -> Seq<char> {
    let cut = if last_occur(p, '.') > last_occur(p, '/') + 1 {
        last_occur(p, '.')
    } else {
        p.len() as int
    };
    p.take(cut) + ".tmp"@
}

/// Compute the sibling temporary path for `path`; see `temp_path_view`.
pub fn temp_sibling_path(path: &str) -> (r: String)
    ensures
        r@ == temp_path_view(path@),
{
    let n: usize = path.unicode_len();
    proof {
        lemma_last_occur(path@, '.');
        lemma_last_occur(path@, '/');
    }
    let dot = rfind_char(path, '.');
    let slash = rfind_char(path, '/');
    let cut: usize = match (dot, slash) {
        (Some(d), Some(s)) => if d > s + 1 {
            d
        } else {
            n
        },
        (Some(d), None) => if d > 0 {
            d
        } else {
            n
        },
        _ => n,
    };
    let stem = path.substring_char(0, cut);
    let r = String::from_str(stem).concat(".tmp");
    proof {
        assert(path@.take(n as int) =~= path@);
        assert(r@ =~= temp_path_view(path@));
    }
    r
}

/// The overwrite-protection decision of the wrapper writer: an occupied
/// target is refused unless overwriting was allowed; nothing else is
/// refused here.
pub fn write_precheck(target_exists: bool, allow_overwrite: bool) -> (r: Result<
    (),
    InstallError,
>)
    ensures
        r == if target_exists && !allow_overwrite {
            Err::<(), InstallError>(InstallError::AlreadyExists)
        } else {
            Ok::<(), InstallError>(())
        },
{
    if target_exists && !allow_overwrite {
        Err(InstallError::AlreadyExists)
    } else {
        Ok(())
    }
}

} // verus!

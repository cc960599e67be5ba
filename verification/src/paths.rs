//! POSIX-style path strings: joining, taking parents, and locating the
//! pieces of a file name.
//!
//! Paths are plain strings here. The tool only targets POSIX conventions,
//! so `/` is the one separator and no other normalization is performed.
use vstd::prelude::*;
use vstd::string::StrSliceExecFns;
use vstd::string::StringExecFns;

verus! {

/// A path in the normal form produced by the operating system's
/// current-directory query: absolute, no trailing separator (except the
/// root itself), and no empty components.
pub open spec fn normalized_abs(p: Seq<char>) -> bool {
    &&& p.len() > 0
    &&& p[0] == '/'
    &&& (p.len() == 1 || p.last() != '/')
    &&& forall|i: int| 0 < i < p.len() ==> !(#[trigger] p[i] == '/' && p[i - 1] == '/')
}

/// Join a base directory and a relative part with a single separator.
pub open spec fn join_view(base: Seq<char>, rel: Seq<char>) -> Seq<char> {
    if base.len() > 0 && base.last() == '/' {
        base + rel
    } else {
        base + seq!['/'] + rel
    }
}

pub fn path_join(base: &str, rel: &str) -> (r: String)
    ensures
        r@ == join_view(base@, rel@),
{
    let n: usize = base.unicode_len();
    let mut s: String = String::from_str(base);
    if n == 0 || base.get_char(n - 1) != '/' {
        s.append("/");
        proof {
            reveal_strlit("/");
            assert(s@ =~= base@ + seq!['/']);
        }
    }
    s.append(rel);
    proof {
        if base@.len() > 0 && base@.last() == '/' {
        } else {
            assert(s@ =~= base@ + seq!['/'] + rel@);
        }
    }
    s
}

/// Index of the last occurrence of `c` in `p`, or `-1` when there is none.
pub open spec fn last_occur(p: Seq<char>, c: char) -> int
    decreases p.len(),
{
    if p.len() == 0 {
        -1
    } else if p.last() == c {
        p.len() - 1
    } else {
        last_occur(p.drop_last(), c)
    }
}

pub proof fn lemma_last_occur(p: Seq<char>, c: char)
    ensures
        -1 <= last_occur(p, c) < p.len(),
        last_occur(p, c) >= 0 ==> p[last_occur(p, c)] == c,
        forall|k: int| last_occur(p, c) < k < p.len() ==> p[k] != c,
    decreases p.len(),
{
    if p.len() > 0 && p.last() != c {
        lemma_last_occur(p.drop_last(), c);
        assert forall|k: int| last_occur(p, c) < k < p.len() implies p[k] != c by {
            if k < p.len() - 1 {
                assert(p.drop_last()[k] == p[k]);
            }
        }
    }
}

/// Index of the last occurrence of `c`, as an `Option`.
pub fn rfind_char(s: &str, c: char) -> (r: Option<usize>)
    ensures
        r is Some <==> last_occur(s@, c) >= 0,
        r is Some ==> r->0 == last_occur(s@, c),
{
    let n: usize = s.unicode_len();
    proof {
        lemma_last_occur(s@, c);
    }
    let mut j: usize = n;
    while j > 0
        invariant
            s@.len() == n,
            j <= n,
            last_occur(s@, c) < j,
        decreases j,
    {
        proof {
            lemma_last_occur(s@, c);
        }
        if s.get_char(j - 1) == c {
            return Some(j - 1);
        }
        j = j - 1;
    }
    None
}

/// Index of the last separator in `p`, or `-1` when there is none.
pub open spec fn last_slash(p: Seq<char>) -> int {
    last_occur(p, '/')
}

/// The directory containing `p`: everything before the last separator,
/// or the root when that separator is the leading one.
pub open spec fn parent_view(p: Seq<char>) -> Seq<char> {
    if last_slash(p) <= 0 {
        seq!['/']
    } else {
        p.take(last_slash(p))
    }
}

pub fn parent_dir(path: &str) -> (r: String)
    requires
        normalized_abs(path@),
        path@.len() > 1,
    ensures
        r@ == parent_view(path@),
        normalized_abs(r@),
        r@.len() < path@.len(),
{
    proof {
        lemma_last_occur(path@, '/');
        assert(last_slash(path@) >= 0);
    }
    let j_opt = rfind_char(path, '/');
    let j: usize = match j_opt {
        Some(j) => j,
        None => 0,
    };
    if j == 0 {
        let r = String::from_str("/");
        proof {
            reveal_strlit("/");
            assert(r@ =~= seq!['/']);
        }
        r
    } else {
        let r = path.substring_char(0, j);
        proof {
            // the character before the last separator is not itself a
            // separator, so the parent keeps its normal form
            assert(path@[j - 1] != '/');
            assert(r@ == path@.take(j as int));
            assert(r@.last() == path@[j - 1]);
        }
        String::from_str(r)
    }
}

} // verus!

//! Disambiguating among several binary targets over a line-oriented
//! channel: a numbered menu, a repeated choice prompt, and a parser for
//! the user's reply.
//!
//! The channel is modeled as data: the whole machine is a function from
//! the candidate list and the input text to an outcome and the full
//! prompt transcript, so it is testable without a terminal.  A caller
//! attached to a live terminal drives the same steps one line at a time
//! with `menu_text`, `choice_prompt`, `parse_selection` and
//! `invalid_text`.
use crate::text::dec_rep;
use crate::text::lines_view;
use crate::text::parse_usize;
use crate::text::parsed_usize;
use crate::text::parses_as_usize;
use crate::text::split_lines;
use crate::text::trim;
use crate::text::trim_view;
use crate::text::usize_to_string;
use crate::InstallError;
use vstd::prelude::*;
use vstd::string::StrSliceExecFns;
use vstd::string::StringExecFns;

verus! {

/// The menu lines for the candidates from index `i` on, each
/// `  <number>) <name>` with numbering starting at one.
pub open spec fn menu_items_view(bins: Seq<Seq<char>>, i: int) -> Seq<char>
    decreases bins.len() - i,
{
    if i < 0 || i >= bins.len() {
        Seq::empty()
    } else {
        "  "@ + dec_rep((i + 1) as nat) + ") "@ + bins[i] + "\n"@ + menu_items_view(bins, i + 1)
    }
}

/// The full menu: a heading and one numbered line per candidate.
pub open spec fn menu_view(bins: Seq<Seq<char>>) -> Seq<char> {
    "Select a binary:\n"@ + menu_items_view(bins, 0)
}

/// The prompt written before each read.
pub open spec fn prompt_view(n: nat) -> Seq<char> {
    "Enter choice (1-"@ + dec_rep(n) + "): "@
}

/// The message written after an invalid reply.
pub open spec fn invalid_view() -> Seq<char> {
    "Invalid selection. Try again.\n"@
}

/// What one reply line selects: the zero-based candidate index, when
/// the trimmed line is a numeral between one and the candidate count.
pub open spec fn choice_of(bins_len: nat, line: Seq<char>) -> Option<nat> {
    let t = trim_view(line);
    if parses_as_usize(t) && 1 <= parsed_usize(t) <= bins_len {
        Some((parsed_usize(t) - 1) as nat)
    } else {
        None
    }
}

/// The prompting loop over the remaining reply lines: each line either
/// resolves, or adds an invalid-selection message and reads on; running
/// out of input fails the selection.  The second component is the text
/// written from the first prompt on.
pub open spec fn session_view(bins: Seq<Seq<char>>, lines: Seq<Seq<char>>) -> (Result<
    Seq<char>,
    InstallError,
>, Seq<char>)
    decreases lines.len(),
{
    if lines.len() == 0 {
        (Err(InstallError::SelectionFailed), prompt_view(bins.len()))
    } else {
        match choice_of(bins.len(), lines[0]) {
            Some(k) => (Ok(bins[k as int]), prompt_view(bins.len())),
            None => {
                let rec = session_view(bins, lines.drop_first());
                (rec.0, prompt_view(bins.len()) + invalid_view() + rec.1)
            },
        }
    }
}

/// The whole selection over the candidate list and the input text: a
/// single candidate is returned at once with nothing written; an empty
/// list cannot resolve; otherwise the menu is written and the prompting
/// loop runs over the input lines.
pub open spec fn select_view(bins: Seq<Seq<char>>, input: Seq<char>) -> (Result<
    Seq<char>,
    InstallError,
>, Seq<char>) {
    if bins.len() == 1 {
        (Ok(bins[0]), Seq::empty())
    } else if bins.len() == 0 {
        (Err(InstallError::NoTargets), Seq::empty())
    } else {
        let s = session_view(bins, lines_view(input));
        (s.0, menu_view(bins) + s.1)
    }
}

/// How an executable outcome-and-transcript pair realizes its
/// specification-level counterpart.
pub open spec fn outcome_matches(
    r: (Result<String, InstallError>, String),
    s: (Result<Seq<char>, InstallError>, Seq<char>),
) -> bool {
    &&& r.0 is Ok <==> s.0 is Ok
    &&& (r.0 is Ok ==> r.0->Ok_0@ == s.0->Ok_0)
    &&& (r.0 is Err ==> r.0->Err_0 == s.0->Err_0)
    &&& r.1@ == s.1
}

proof fn lemma_session_in_candidates(bins: Seq<Seq<char>>, lines: Seq<Seq<char>>)
    ensures
        session_view(bins, lines).0 is Ok ==> bins.contains(session_view(bins, lines).0->Ok_0),
    decreases lines.len(),
{
    if lines.len() > 0 {
        match choice_of(bins.len() as nat, lines[0]) {
            Some(k) => {
                assert(bins.contains(bins[k as int]));
            },
            None => {
                lemma_session_in_candidates(bins, lines.drop_first());
            },
        }
    }
}

/// Whatever the input, a selection that resolves resolves to one of the
/// candidates it was shown.
pub proof fn lemma_selection_in_candidates(bins: Seq<Seq<char>>, input: Seq<char>)
    ensures
        select_view(bins, input).0 is Ok ==> bins.contains(select_view(bins, input).0->Ok_0),
{
    if bins.len() == 1 {
        assert(bins.contains(bins[0]));
    } else if bins.len() >= 2 {
        lemma_session_in_candidates(bins, lines_view(input));
    }
}

/// Render the numbered menu for the candidate list.
pub fn menu_text(bins: &Vec<String>) -> (r: String)
    ensures
        r@ == menu_view(bins.deep_view()),
{
    let items = menu_items_from(bins, 0);
    let r = String::from_str("Select a binary:\n").concat(items.as_str());
    proof {
        assert(r@ =~= menu_view(bins.deep_view()));
    }
    r
}

fn menu_items_from(bins: &Vec<String>, i: usize) -> (r: String)
    requires
        i <= bins.len(),
    ensures
        r@ == menu_items_view(bins.deep_view(), i as int),
    decreases bins.len() - i,
{
    if i == bins.len() {
        let r = String::new();
        proof {
            assert(r@ =~= menu_items_view(bins.deep_view(), i as int));
        }
        r
    } else {
        let num = usize_to_string(i + 1);
        let mut s = String::from_str("  ");
        s.append(num.as_str());
        s.append(") ");
        s.append(bins[i].as_str());
        s.append("\n");
        let rest = menu_items_from(bins, i + 1);
        let r = s.concat(rest.as_str());
        proof {
            assert(bins.deep_view()[i as int] == bins@[i as int]@);
            assert(r@ =~= menu_items_view(bins.deep_view(), i as int));
        }
        r
    }
}

/// Render the choice prompt for `n` candidates.
pub fn choice_prompt(n: usize) -> (r: String)
    ensures
        r@ == prompt_view(n as nat),
{
    let num = usize_to_string(n);
    let mut s = String::from_str("Enter choice (1-");
    s.append(num.as_str());
    s.append("): ");
    proof {
        assert(s@ =~= prompt_view(n as nat));
    }
    s
}

/// The invalid-selection message.
pub fn invalid_text() -> (r: &'static str)
    ensures
        r@ == invalid_view(),
{
    "Invalid selection. Try again.\n"
}

/// Parse one reply line against `bins_len` candidates; see `choice_of`.
pub fn parse_selection(bins_len: usize, line: &str) -> (r: Option<usize>)
    ensures
        r is Some <==> choice_of(bins_len as nat, line@) is Some,
        r is Some ==> r->0 == choice_of(bins_len as nat, line@)->0,
{
    let t = trim(line);
    match parse_usize(t) {
        Some(v) => {
            if 1 <= v && v <= bins_len {
                Some(v - 1)
            } else {
                None
            }
        },
        None => None,
    }
}

fn session_from(bins: &Vec<String>, lines: &Vec<String>, i: usize) -> (r: (Result<
    String,
    InstallError,
>, String))
    requires
        i <= lines.len(),
    ensures
        outcome_matches(r, session_view(bins.deep_view(), lines.deep_view().skip(i as int))),
    decreases lines.len() - i,
{
    let ghost rest = lines.deep_view().skip(i as int);
    let p = choice_prompt(bins.len());
    if i == lines.len() {
        proof {
            assert(rest.len() == 0);
        }
        (Err(InstallError::SelectionFailed), p)
    } else {
        proof {
            assert(rest[0] == lines.deep_view()[i as int]);
        }
        match parse_selection(bins.len(), lines[i].as_str()) {
            Some(k) => {
                proof {
                    assert(choice_of(bins.len() as nat, rest[0])->0 == k as nat);
                    assert(bins.deep_view()[k as int] == bins@[k as int]@);
                }
                (Ok(bins[k].clone()), p)
            },
            None => {
                let rec = session_from(bins, lines, i + 1);
                let mut t = p;
                t.append(invalid_text());
                let t = t.concat(rec.1.as_str());
                proof {
                    assert(rest.drop_first() =~= lines.deep_view().skip(i + 1));
                    assert(t@ =~= prompt_view(bins.len() as nat) + invalid_view() + rec.1@);
                }
                (rec.0, t)
            },
        }
    }
}

/// Resolve one candidate from the list over the given input text,
/// returning the outcome and everything written to the channel; see
/// `select_view`.
pub fn select_bin(bin_names: &Vec<String>, input: &str) -> (r: (Result<String, InstallError>, String))
    ensures
        outcome_matches(r, select_view(bin_names.deep_view(), input@)),
{
    if bin_names.len() == 1 {
        (Ok(bin_names[0].clone()), String::new())
    } else if bin_names.len() == 0 {
        (Err(InstallError::NoTargets), String::new())
    } else {
        let lines = split_lines(input);
        let menu = menu_text(bin_names);
        let s = session_from(bin_names, &lines, 0);
        let out = menu.concat(s.1.as_str());
        proof {
            assert(lines.deep_view().skip(0) =~= lines.deep_view());
            assert(out@ =~= menu_view(bin_names.deep_view()) + session_view(
                bin_names.deep_view(),
                lines.deep_view(),
            ).1);
        }
        (s.0, out)
    }
}

} // verus!

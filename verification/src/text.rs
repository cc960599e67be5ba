//! Small verified text utilities: string comparison, whitespace trimming,
//! decimal parsing and rendering, and splitting input into lines.
use vstd::prelude::*;
use vstd::string::StrSliceExecFns;
use vstd::string::StringExecFns;

verus! {

pub fn str_eq(a: &str, b: &str) -> (r: bool)
    ensures
        r == (a@ == b@),
{
    let n: usize = a.unicode_len();
    let m: usize = b.unicode_len();
    if n != m {
        return false;
    }
    let mut i: usize = 0;
    while i < n
        invariant
            a@.len() == n,
            b@.len() == n,
            i <= n,
            forall|k: int| 0 <= k < i ==> a@[k] == b@[k],
        decreases n - i,
    {
        if a.get_char(i) != b.get_char(i) {
            return false;
        }
        i = i + 1;
    }
    proof {
        assert(a@ =~= b@);
    }
    true
}

/// Whether `s` holds `x` as one of its entries.
pub fn contains_str(v: &Vec<String>, x: &str) -> (r: bool)
    ensures
        r == v.deep_view().contains(x@),
{
    let mut i: usize = 0;
    while i < v.len()
        invariant
            i <= v.len(),
            forall|k: int| 0 <= k < i ==> v.deep_view()[k] != x@,
        decreases v.len() - i,
    {
        if str_eq(v[i].as_str(), x) {
            proof {
                assert(v.deep_view()[i as int] == x@);
            }
            return true;
        }
        i = i + 1;
    }
    proof {
        if v.deep_view().contains(x@) {
            let k = choose|k: int| 0 <= k < v.deep_view().len() && v.deep_view()[k] == x@;
            assert(v.deep_view()[k] != x@);
        }
    }
    false
}

/// The whitespace characters stripped by trimming: the ASCII white space
/// class.
pub open spec fn is_space(c: char) -> bool {
    c == ' ' || c == '\t' || c == '\n' || c == '\r' || c == '\u{b}' || c == '\u{c}'
}

fn is_space_char(c: char) -> (r: bool)
    ensures
        r == is_space(c),
{
    c == ' ' || c == '\t' || c == '\n' || c == '\r' || c == '\u{b}' || c == '\u{c}'
}

/// Count of leading whitespace characters.
pub open spec fn trim_start(s: Seq<char>) -> int
    decreases s.len(),
{
    if s.len() == 0 {
        0
    } else if is_space(s[0]) {
        1 + trim_start(s.drop_first())
    } else {
        0
    }
}

/// End of the string with trailing whitespace removed.
pub open spec fn trim_end(s: Seq<char>) -> int
    decreases s.len(),
{
    if s.len() == 0 {
        0
    } else if is_space(s.last()) {
        trim_end(s.drop_last())
    } else {
        s.len() as int
    }
}

/// `s` with leading and trailing whitespace removed.
pub open spec fn trim_view(s: Seq<char>) -> Seq<char> {
    if trim_start(s) <= trim_end(s) {
        s.subrange(trim_start(s), trim_end(s))
    } else {
        Seq::empty()
    }
}

proof fn lemma_trim_start(s: Seq<char>)
    ensures
        0 <= trim_start(s) <= s.len(),
        forall|k: int| 0 <= k < trim_start(s) ==> is_space(s[k]),
        trim_start(s) < s.len() ==> !is_space(s[trim_start(s)]),
    decreases s.len(),
{
    if s.len() > 0 && is_space(s[0]) {
        lemma_trim_start(s.drop_first());
        assert forall|k: int| 0 <= k < trim_start(s) implies is_space(s[k]) by {
            if k > 0 {
                assert(s.drop_first()[k - 1] == s[k]);
            }
        }
    }
}

proof fn lemma_trim_end(s: Seq<char>)
    ensures
        0 <= trim_end(s) <= s.len(),
        forall|k: int| trim_end(s) <= k < s.len() ==> is_space(s[k]),
        trim_end(s) > 0 ==> !is_space(s[trim_end(s) - 1]),
    decreases s.len(),
{
    if s.len() > 0 && is_space(s.last()) {
        lemma_trim_end(s.drop_last());
        assert forall|k: int| trim_end(s) <= k < s.len() implies is_space(s[k]) by {
            if k < s.len() - 1 {
                assert(s.drop_last()[k] == s[k]);
            }
        }
    }
}

pub fn trim(s: &str) -> (r: &str)
    ensures
        r@ == trim_view(s@),
{
    let n: usize = s.unicode_len();
    proof {
        lemma_trim_start(s@);
        lemma_trim_end(s@);
    }
    let mut a: usize = 0;
    while a < n && is_space_char(s.get_char(a))
        invariant
            s@.len() == n,
            a <= trim_start(s@),
        decreases n - a,
    {
        proof {
            lemma_trim_start(s@);
        }
        a = a + 1;
    }
    proof {
        assert(a == trim_start(s@));
    }
    let mut b: usize = n;
    while b > a && is_space_char(s.get_char(b - 1))
        invariant
            s@.len() == n,
            a == trim_start(s@),
            a <= b <= n,
            trim_end(s@) <= b,
        decreases b,
    {
        proof {
            lemma_trim_end(s@);
        }
        b = b - 1;
    }
    proof {
        lemma_trim_end(s@);
        if b > a {
            assert(b == trim_end(s@));
            assert(s@.subrange(a as int, b as int) == trim_view(s@));
        } else {
            assert(s@.subrange(a as int, b as int) =~= trim_view(s@));
        }
    }
    s.substring_char(a, b)
}

pub open spec fn is_digit(c: char) -> bool {
    '0' <= c && c <= '9'
}

pub open spec fn digit_val(c: char) -> nat {
    ((c as int) - ('0' as int)) as nat
}

pub open spec fn all_digits(s: Seq<char>) -> bool {
    forall|k: int| 0 <= k < s.len() ==> is_digit(#[trigger] s[k])
}

/// The number written in decimal by the digit string `s`.
pub open spec fn digits_val(s: Seq<char>) -> nat
    decreases s.len(),
{
    if s.len() == 0 {
        0
    } else {
        digits_val(s.drop_last()) * 10 + digit_val(s.last())
    }
}

/// `s` without one optional leading plus sign.
pub open spec fn strip_plus(s: Seq<char>) -> Seq<char> {
    if s.len() > 0 && s[0] == '+' {
        s.drop_first()
    } else {
        s
    }
}

/// Whether `s` is a decimal numeral that fits in `usize`, in the shape
/// the standard numeric parser accepts: an optional plus sign followed
/// by at least one digit.
pub open spec fn parses_as_usize(s: Seq<char>) -> bool {
    let d = strip_plus(s);
    d.len() > 0 && all_digits(d) && digits_val(d) <= usize::MAX
}

pub open spec fn parsed_usize(s: Seq<char>) -> nat {
    digits_val(strip_plus(s))
}

proof fn lemma_digits_prefix(s: Seq<char>, k: int)
    requires
        0 <= k <= s.len(),
    ensures
        digits_val(s) >= digits_val(s.take(k)),
    decreases s.len() - k,
{
    if k == s.len() {
        assert(s.take(k) =~= s);
    } else {
        lemma_digits_prefix(s, k + 1);
        assert(s.take(k + 1).drop_last() =~= s.take(k));
        assert(digits_val(s.take(k + 1)) >= digits_val(s.take(k)));
    }
}

/// Parse `s` as a decimal `usize`, exactly as the standard parser does:
/// `Some` iff `s` is an optional plus sign followed by digits whose value
/// fits.
pub fn parse_usize(s: &str) -> (r: Option<usize>)
    ensures
        r is Some <==> parses_as_usize(s@),
        r is Some ==> r->0 == parsed_usize(s@),
{
    let n: usize = s.unicode_len();
    let mut i: usize = 0;
    if n > 0 && s.get_char(0) == '+' {
        i = 1;
    }
    let ghost d = strip_plus(s@);
    let ghost off = i as int;
    if i == n {
        // no digits at all
        return None;
    }
    let mut acc: usize = 0;
    while i < n
        invariant
            s@.len() == n,
            d == strip_plus(s@),
            off == if s@.len() > 0 && s@[0] == '+' { 1int } else { 0int },
            off <= i <= n,
            d.len() == n - off,
            forall|k: int| 0 <= k < d.len() ==> d[k] == s@[k + off],
            all_digits(d.take(i - off)),
            acc == digits_val(d.take(i - off)),
        decreases n - i,
    {
        let c = s.get_char(i);
        if !('0' <= c && c <= '9') {
            proof {
                assert(d[i - off] == c);
                assert(!is_digit(d[i - off]));
            }
            return None;
        }
        let dv: usize = (c as usize) - ('0' as usize);
        if acc > (usize::MAX - dv) / 10 {
            proof {
                assert(d.take(i + 1 - off).drop_last() =~= d.take(i - off));
                assert(d.take(i + 1 - off).last() == d[i - off]);
                assert(digits_val(d.take(i + 1 - off)) == acc * 10 + dv);
                assert(acc * 10 + dv > usize::MAX) by (nonlinear_arith)
                    requires
                        acc > (usize::MAX - dv) / 10,
                        0 <= dv < 10,
                ;
                lemma_digits_prefix(d, i + 1 - off);
            }
            return None;
        }
        proof {
            assert(acc * 10 + dv <= usize::MAX) by (nonlinear_arith)
                requires
                    acc <= (usize::MAX - dv) / 10,
                    0 <= dv < 10,
            ;
            assert(d.take(i + 1 - off).drop_last() =~= d.take(i - off));
            assert(d.take(i + 1 - off).last() == d[i - off]);
        }
        acc = acc * 10 + dv;
        i = i + 1;
    }
    proof {
        assert(d.take(n - off) =~= d);
    }
    Some(acc)
}

/// The decimal digit characters, by value.
pub open spec fn digit_char(d: nat) -> char {
    if d == 0 {
        '0'
    } else if d == 1 {
        '1'
    } else if d == 2 {
        '2'
    } else if d == 3 {
        '3'
    } else if d == 4 {
        '4'
    } else if d == 5 {
        '5'
    } else if d == 6 {
        '6'
    } else if d == 7 {
        '7'
    } else if d == 8 {
        '8'
    } else {
        '9'
    }
}

/// The decimal numeral for `n`, most significant digit first.
pub open spec fn dec_rep(n: nat) -> Seq<char>
    decreases n,
{
    if n < 10 {
        seq![digit_char(n)]
    } else {
        dec_rep(n / 10).push(digit_char(n % 10))
    }
}

fn digit_str(d: usize) -> (r: &'static str)
    requires
        d < 10,
    ensures
        r@ == seq![digit_char(d as nat)],
{
    if d == 0 {
        proof {
            reveal_strlit("0");
            assert("0"@ =~= seq!['0']);
        }
        "0"
    } else if d == 1 {
        proof {
            reveal_strlit("1");
            assert("1"@ =~= seq!['1']);
        }
        "1"
    } else if d == 2 {
        proof {
            reveal_strlit("2");
            assert("2"@ =~= seq!['2']);
        }
        "2"
    } else if d == 3 {
        proof {
            reveal_strlit("3");
            assert("3"@ =~= seq!['3']);
        }
        "3"
    } else if d == 4 {
        proof {
            reveal_strlit("4");
            assert("4"@ =~= seq!['4']);
        }
        "4"
    } else if d == 5 {
        proof {
            reveal_strlit("5");
            assert("5"@ =~= seq!['5']);
        }
        "5"
    } else if d == 6 {
        proof {
            reveal_strlit("6");
            assert("6"@ =~= seq!['6']);
        }
        "6"
    } else if d == 7 {
        proof {
            reveal_strlit("7");
            assert("7"@ =~= seq!['7']);
        }
        "7"
    } else if d == 8 {
        proof {
            reveal_strlit("8");
            assert("8"@ =~= seq!['8']);
        }
        "8"
    } else {
        proof {
            reveal_strlit("9");
            assert("9"@ =~= seq!['9']);
        }
        "9"
    }
}

/// Render `n` in decimal.
pub fn usize_to_string(n: usize) -> (r: String)
    ensures
        r@ == dec_rep(n as nat),
    decreases n,
{
    if n < 10 {
        String::from_str(digit_str(n))
    } else {
        let mut s = usize_to_string(n / 10);
        s.append(digit_str(n % 10));
        proof {
            assert(s@ =~= dec_rep((n / 10) as nat).push(digit_char((n % 10) as nat)));
        }
        s
    }
}

/// Index of the first occurrence of `c` in `s`, or the length of `s`
/// when there is none.
pub open spec fn first_occur(s: Seq<char>, c: char) -> int
    decreases s.len(),
{
    if s.len() == 0 {
        0
    } else if s[0] == c {
        0
    } else {
        1 + first_occur(s.drop_first(), c)
    }
}

pub proof fn lemma_first_occur(s: Seq<char>, c: char)
    ensures
        0 <= first_occur(s, c) <= s.len(),
        first_occur(s, c) < s.len() ==> s[first_occur(s, c)] == c,
        forall|k: int| 0 <= k < first_occur(s, c) ==> s[k] != c,
    decreases s.len(),
{
    if s.len() > 0 && s[0] != c {
        lemma_first_occur(s.drop_first(), c);
        assert forall|k: int| 0 <= k < first_occur(s, c) implies s[k] != c by {
            if k > 0 {
                assert(s.drop_first()[k - 1] == s[k]);
            }
        }
    }
}

/// Index of the first line feed in `s`, or its length when there is none.
pub open spec fn first_nl(s: Seq<char>) -> int {
    first_occur(s, '\n')
}

/// `s` cut into lines the way a buffered line read delivers them: each
/// line keeps its terminating line feed, and a final fragment without
/// one is still a line.
pub open spec fn lines_view(s: Seq<char>) -> Seq<Seq<char>>
    decreases s.len(),
    via lines_view_decreases
{
    if s.len() == 0 {
        Seq::empty()
    } else if first_nl(s) == s.len() {
        seq![s]
    } else {
        seq![s.take(first_nl(s) + 1)] + lines_view(s.skip(first_nl(s) + 1))
    }
}

#[via_fn]
proof fn lines_view_decreases(s: Seq<char>) {
    lemma_first_occur(s, '\n');
}

fn split_lines_from(s: &str, pos: usize) -> (r: Vec<String>)
    requires
        pos <= s@.len(),
    ensures
        r.deep_view() == lines_view(s@.skip(pos as int)),
    decreases s@.len() - pos,
{
    let n: usize = s.unicode_len();
    let ghost rest = s@.skip(pos as int);
    if pos == n {
        let r: Vec<String> = Vec::new();
        proof {
            assert(rest =~= Seq::<char>::empty());
            assert(r.deep_view() =~= lines_view(rest));
        }
        return r;
    }
    proof {
        lemma_first_occur(rest, '\n');
    }
    let mut e: usize = pos;
    while e < n && s.get_char(e) != '\n'
        invariant
            s@.len() == n,
            pos <= e <= n,
            rest == s@.skip(pos as int),
            e - pos <= first_nl(rest),
        decreases n - e,
    {
        proof {
            lemma_first_occur(rest, '\n');
            assert(rest[e - pos] == s@[e as int]);
        }
        e = e + 1;
    }
    proof {
        lemma_first_occur(rest, '\n');
        if e < n {
            assert(rest[e - pos] == s@[e as int]);
            assert(e - pos == first_nl(rest));
        } else {
            assert(e - pos == first_nl(rest));
        }
    }
    if e < n {
        let line = s.substring_char(pos, e + 1);
        let ghost rec_dv = lines_view(s@.skip(e + 1));
        let mut r: Vec<String> = split_lines_from(s, e + 1);
        r.insert(0, String::from_str(line));
        proof {
            assert(line@ =~= rest.take(first_nl(rest) + 1));
            assert(s@.skip(e + 1) =~= rest.skip(first_nl(rest) + 1));
            assert(r.deep_view() =~= seq![line@] + rec_dv);
            assert(r.deep_view() =~= lines_view(rest));
        }
        r
    } else {
        let line = s.substring_char(pos, n);
        let mut r: Vec<String> = Vec::new();
        r.push(String::from_str(line));
        proof {
            assert(line@ =~= rest);
            assert(r.deep_view() =~= seq![rest]);
            assert(r.deep_view() =~= lines_view(rest));
        }
        r
    }
}

/// Cut `s` into lines; see `lines_view`.
pub fn split_lines(s: &str) -> (r: Vec<String>)
    ensures
        r.deep_view() == lines_view(s@),
{
    let r = split_lines_from(s, 0);
    proof {
        assert(s@.skip(0) =~= s@);
    }
    r
}

} // verus!

//! Naive stripping of dangerous LaTeX commands, and the MathML envelope.
use vstd::prelude::*;
use wasm_bindgen::JsValue;
use crate::text::{occurs_at, contains, lemma_contains_subrange, chars_of, string_of, matches_at};

verus! {

/// `s` with every non-overlapping occurrence of `p` deleted, scanning from the left.
pub open spec fn remove_all(s: Seq<char>, p: Seq<char>) -> Seq<char>
    decreases s.len(),
{
    if s.len() == 0 || p.len() == 0 {
        s
    } else if occurs_at(s, p, 0) {
        remove_all(s.subrange(p.len() as int, s.len() as int), p)
    } else {
        seq![s[0]] + remove_all(s.subrange(1, s.len() as int), p)
    }
}

/// Unicode `White_Space`, the set that `char::is_whitespace` tests.
pub open spec fn is_white_space(c: char) -> bool {
    let u = c as u32;
    (0x9 <= u && u <= 0xd) || u == 0x20 || u == 0x85 || u == 0xa0 || u == 0x1680
        || (0x2000 <= u && u <= 0x200a) || u == 0x2028 || u == 0x2029 || u == 0x202f
        || u == 0x205f || u == 0x3000
}

pub open spec fn trim_start(s: Seq<char>) -> Seq<char>
    decreases s.len(),
{
    if s.len() > 0 && is_white_space(s[0]) {
        trim_start(s.drop_first())
    } else {
        s
    }
}

pub open spec fn trim_end(s: Seq<char>) -> Seq<char>
    decreases s.len(),
{
    if s.len() > 0 && is_white_space(s.last()) {
        trim_end(s.drop_last())
    } else {
        s
    }
}

/// `s` without leading and trailing white space.
pub open spec fn trim(s: Seq<char>) -> Seq<char> {
    trim_end(trim_start(s))
}

pub open spec fn input_cmd() -> Seq<char> {
    seq!['\\', 'i', 'n', 'p', 'u', 't']
}

/// The file-inclusion command.
pub open spec fn incl_cmd() -> Seq<char> {
    seq!['\\', 'i', 'n', 'c', 'l', 'u', 'd', 'e']
}

pub open spec fn write_cmd() -> Seq<char> {
    seq!['\\', 'w', 'r', 'i', 't', 'e']
}

pub open spec fn openout_cmd() -> Seq<char> {
    seq!['\\', 'o', 'p', 'e', 'n', 'o', 'u', 't']
}

/// What `sanitize_latex` returns: the four commands deleted in turn, then trimmed.
pub open spec fn sanitized(s: Seq<char>) -> Seq<char> {
    trim(
        remove_all(
            remove_all(remove_all(remove_all(s, input_cmd()), incl_cmd()), write_cmd()),
            openout_cmd(),
        ),
    )
}

fn white_space(c: char) -> (r: bool)
    ensures
        r == is_white_space(c),
{
    let u = c as u32;
    (0x9 <= u && u <= 0xd) || u == 0x20 || u == 0x85 || u == 0xa0 || u == 0x1680
        || (0x2000 <= u && u <= 0x200a) || u == 0x2028 || u == 0x2029 || u == 0x202f
        || u == 0x205f || u == 0x3000
}

proof fn lemma_occurs_at_suffix(s: Seq<char>, p: Seq<char>, i: int)
    requires
        0 <= i <= s.len(),
    ensures
        occurs_at(s.subrange(i, s.len() as int), p, 0) == occurs_at(s, p, i),
{
    if i + p.len() <= s.len() {
        assert(s.subrange(i, s.len() as int).subrange(0, p.len() as int) =~= s.subrange(
            i,
            i + p.len(),
        ));
    }
}

/// Deletes every occurrence of `p` from `s`, left to right.
pub fn remove_all_chars(s: &Vec<char>, p: &Vec<char>) -> (r: Vec<char>)
    requires
        p@.len() > 0,
    ensures
        r@ == remove_all(s@, p@),
{
    let n = s.len();
    let mut out: Vec<char> = Vec::new();
    let mut i: usize = 0;
    assert(s@.subrange(0, n as int) =~= s@);
    while i < n
        invariant
            n == s@.len(),
            p@.len() > 0,
            i <= n,
            out@ + remove_all(s@.subrange(i as int, n as int), p@) == remove_all(s@, p@),
        decreases n - i,
    {
        proof {
            lemma_occurs_at_suffix(s@, p@, i as int);
        }
        let rest = Ghost(s@.subrange(i as int, n as int));
        if matches_at(s, p, i) {
            assert(rest@.subrange(p@.len() as int, rest@.len() as int) =~= s@.subrange(
                i + p@.len(),
                n as int,
            ));
            i = i + p.len();
        } else {
            assert(rest@.subrange(1, rest@.len() as int) =~= s@.subrange(i + 1, n as int));
            proof {
                let tail = remove_all(s@.subrange(i + 1, n as int), p@);
                assert(out@.push(s@[i as int]) + tail =~= out@ + (seq![s@[i as int]] + tail));
            }
            out.push(s[i]);
            i = i + 1;
        }
    }
    assert(s@.subrange(n as int, n as int) =~= Seq::<char>::empty());
    assert(out@ + Seq::<char>::empty() =~= out@);
    out
}

/// `s` without leading and trailing white space.
pub fn trim_chars(s: &Vec<char>) -> (r: Vec<char>)
    ensures
        r@ == trim(s@),
{
    let n = s.len();
    let mut lo: usize = 0;
    assert(s@.subrange(0, n as int) =~= s@);
    while lo < n && white_space(s[lo])
        invariant
            n == s@.len(),
            lo <= n,
            trim_start(s@) == trim_start(s@.subrange(lo as int, n as int)),
        decreases n - lo,
    {
        assert(s@.subrange(lo as int, n as int).drop_first() =~= s@.subrange(lo + 1, n as int));
        lo = lo + 1;
    }
    assert(trim_start(s@) == s@.subrange(lo as int, n as int));
    let mut hi: usize = n;
    while hi > lo && white_space(s[hi - 1])
        invariant
            n == s@.len(),
            lo <= hi <= n,
            trim(s@) == trim_end(s@.subrange(lo as int, hi as int)),
        decreases hi,
    {
        assert(s@.subrange(lo as int, hi as int).drop_last() =~= s@.subrange(lo as int, hi - 1));
        hi = hi - 1;
    }
    assert(trim(s@) == s@.subrange(lo as int, hi as int));
    let mut out: Vec<char> = Vec::new();
    let mut j: usize = lo;
    while j < hi
        invariant
            lo <= j <= hi <= n,
            n == s@.len(),
            out@ == s@.subrange(lo as int, j as int),
        decreases hi - j,
    {
        out.push(s[j]);
        j = j + 1;
        assert(out@ =~= s@.subrange(lo as int, j as int));
    }
    out
}

/// A value of the JavaScript host, the error side of a boundary call.
#[verifier::external_type_specification]
#[verifier::external_body]
pub struct ExJsValue(JsValue);

/// Deletes every occurrence of `\input`, the file-inclusion command, `\write` and
/// `\openout` (as plain substrings, in that order), then trims white space.
pub fn sanitize_latex(latex: &str) -> (r: String)
    ensures
        r@ == sanitized(latex@),
{
    let s = chars_of(latex);
    let s = remove_all_chars(&s, &vec!['\\', 'i', 'n', 'p', 'u', 't']);
    let s = remove_all_chars(&s, &vec!['\\', 'i', 'n', 'c', 'l', 'u', 'd', 'e']);
    let s = remove_all_chars(&s, &vec!['\\', 'w', 'r', 'i', 't', 'e']);
    let s = remove_all_chars(&s, &vec!['\\', 'o', 'p', 'e', 'n', 'o', 'u', 't']);
    let s = trim_chars(&s);
    string_of(&s)
}

pub open spec fn math_open() -> Seq<char> {
    "<math xmlns=\"http://www.w3.org/1998/Math/MathML\">\n  <mrow>\n    "@
}

pub open spec fn mtext_open() -> Seq<char> {
    "<mtext>"@
}

pub open spec fn mtext_close() -> Seq<char> {
    "</mtext>"@
}

pub open spec fn math_close() -> Seq<char> {
    "\n  </mrow>\n</math>"@
}

/// The MathML document for formula `f`: its sanitized text as one `<mtext>` run.
pub open spec fn mathml_of(f: Seq<char>) -> Seq<char> {
    math_open() + mtext_open() + sanitized(f) + mtext_close() + math_close()
}

/// Wraps the sanitized formula, uninterpreted, in a MathML envelope. Never fails.
pub fn latex_formula_to_mathml(formula: &str) -> (r: Result<String, JsValue>)
    ensures
        r matches Ok(m) && m@ == mathml_of(formula@),
{
    let sanitized = sanitize_latex(formula);
    let mut m = String::from_str("<math xmlns=\"http://www.w3.org/1998/Math/MathML\">\n  <mrow>\n    ");
    m.append("<mtext>");
    m.append(sanitized.as_str());
    m.append("</mtext>");
    m.append("\n  </mrow>\n</math>");
    Ok(m)
}

/// The MathML output holds the sanitized formula verbatim inside an `<mtext>` element.
pub proof fn lemma_mathml_holds_sanitized(f: Seq<char>)
    ensures
        contains(mathml_of(f), mtext_open() + sanitized(f) + mtext_close()),
{
    let d = mathml_of(f);
    let x = mtext_open() + sanitized(f) + mtext_close();
    let i = math_open().len() as int;
    assert(d.subrange(i, i + x.len()) =~= x);
    assert(occurs_at(d, x, i));
}

proof fn lemma_remove_all_absent(s: Seq<char>, p: Seq<char>)
    requires
        p.len() > 0,
        !contains(s, p),
    ensures
        remove_all(s, p) == s,
    decreases s.len(),
{
    if s.len() > 0 {
        assert(!occurs_at(s, p, 0));
        let t = s.subrange(1, s.len() as int);
        if contains(t, p) {
            lemma_contains_subrange(s, p, 1, s.len() as int);
        }
        lemma_remove_all_absent(t, p);
        assert(seq![s[0]] + t =~= s);
    }
}

proof fn lemma_trim_start_bounds(s: Seq<char>) -> (a: int)
    ensures
        0 <= a <= s.len(),
        trim_start(s) == s.subrange(a, s.len() as int),
        trim_start(s).len() == 0 || !is_white_space(trim_start(s)[0]),
    decreases s.len(),
{
    if s.len() > 0 && is_white_space(s[0]) {
        let a = lemma_trim_start_bounds(s.drop_first());
        assert(s.drop_first().subrange(a, s.len() - 1) =~= s.subrange(a + 1, s.len() as int));
        a + 1
    } else {
        assert(s.subrange(0, s.len() as int) =~= s);
        0
    }
}

proof fn lemma_trim_end_bounds(s: Seq<char>) -> (b: int)
    ensures
        0 <= b <= s.len(),
        trim_end(s) == s.subrange(0, b),
        trim_end(s).len() == 0 || !is_white_space(trim_end(s).last()),
    decreases s.len(),
{
    if s.len() > 0 && is_white_space(s.last()) {
        let b = lemma_trim_end_bounds(s.drop_last());
        assert(s.drop_last().subrange(0, b) =~= s.subrange(0, b));
        b
    } else {
        assert(s.subrange(0, s.len() as int) =~= s);
        s.len() as int
    }
}

proof fn lemma_trim_bounds(s: Seq<char>) -> (ab: (int, int))
    ensures
        0 <= ab.0 <= ab.1 <= s.len(),
        trim(s) == s.subrange(ab.0, ab.1),
        trim(trim(s)) == trim(s),
{
    let a = lemma_trim_start_bounds(s);
    let t = trim_start(s);
    let b = lemma_trim_end_bounds(t);
    let u = trim_end(t);
    assert(s.subrange(a, s.len() as int).subrange(0, b) =~= s.subrange(a, a + b));
    if u.len() > 0 {
        assert(u[0] == t[0]);
    }
    assert(trim_start(u) == u);
    assert(trim_end(u) == u);
    (a, a + b)
}

proof fn lemma_absent_in_trim(s: Seq<char>, p: Seq<char>)
    requires
        !contains(s, p),
    ensures
        !contains(trim(s), p),
{
    let (a, b) = lemma_trim_bounds(s);
    if contains(trim(s), p) {
        lemma_contains_subrange(s, p, a, b);
    }
}

/// On text free of the four commands, sanitizing only trims white space, and
/// sanitizing again changes nothing.
pub proof fn lemma_sanitize_clean_text(s: Seq<char>)
    requires
        !contains(s, input_cmd()),
        !contains(s, incl_cmd()),
        !contains(s, write_cmd()),
        !contains(s, openout_cmd()),
    ensures
        sanitized(s) == trim(s),
        sanitized(sanitized(s)) == sanitized(s),
{
    lemma_remove_all_absent(s, input_cmd());
    lemma_remove_all_absent(s, incl_cmd());
    lemma_remove_all_absent(s, write_cmd());
    lemma_remove_all_absent(s, openout_cmd());
    let t = trim(s);
    lemma_absent_in_trim(s, input_cmd());
    lemma_absent_in_trim(s, incl_cmd());
    lemma_absent_in_trim(s, write_cmd());
    lemma_absent_in_trim(s, openout_cmd());
    lemma_remove_all_absent(t, input_cmd());
    lemma_remove_all_absent(t, incl_cmd());
    lemma_remove_all_absent(t, write_cmd());
    lemma_remove_all_absent(t, openout_cmd());
    lemma_trim_bounds(s);
}

} // verus!

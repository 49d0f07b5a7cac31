//! Character and string utilities the rest of the crate builds on:
//! whitespace tokenization, ASCII case folding, substring search,
//! decimal rendering, and placeholder substitution.

use vstd::prelude::*;

verus! {

/// A character the grammar treats as token-separating whitespace.
pub open spec fn is_space(c: char) -> bool {
    c == ' ' || c == '\t' || c == '\n' || c == '\r'
}

/// Whether `c` is an ASCII decimal digit.
pub open spec fn is_digit(c: char) -> bool {
    '0' <= c && c <= '9'
}

/// ASCII case folding of one character: uppercase letters map to lowercase,
/// everything else is unchanged.
pub open spec fn lower_char(c: char) -> char {
    if 'A' <= c && c <= 'Z' {
        ((c as u8) + 32) as char
    } else {
        c
    }
}

/// ASCII case folding of a whole character sequence.
pub open spec fn lower(s: Seq<char>) -> Seq<char> {
    s.map_values(|c: char| lower_char(c))
}

/// Relies on `String::push` from std: appends the given character
/// to the end of the string.
#[verifier::external_body]
pub(crate) fn push_char(s: &mut String, c: char)
    ensures
        final(s)@ == old(s)@.push(c),
{
    s.push(c);
}

/// Executable ASCII case folding of one character.
pub fn lower_char_exec(c: char) -> (r: char)
    ensures
        r == lower_char(c),
{
    if 'A' <= c && c <= 'Z' {
        ((c as u8) + 32) as char
    } else {
        c
    }
}

/// Returns the ASCII-lowercased copy of `s`.
pub fn to_lower(s: &str) -> (r: String)
    ensures
        r@ == lower(s@),
{
    let n = s.unicode_len();
    let mut out = String::new();
    let mut i: usize = 0;
    while i < n
        invariant
            n == s@.len(),
            i <= n,
            out@ == lower(s@.subrange(0, i as int)),
        decreases n - i,
    {
        let c = s.get_char(i);
        let lc = lower_char_exec(c);
        push_char(&mut out, lc);
        i = i + 1;
        proof {
            assert(s@.subrange(0, i as int).drop_last() =~= s@.subrange(0, i as int - 1));
            assert(lower(s@.subrange(0, i as int)) =~= lower(s@.subrange(0, i as int - 1)).push(lc));
        }
    }
    proof {
        assert(s@.subrange(0, n as int) =~= s@);
    }
    out
}

/// Index just past the maximal run of non-space characters starting at `i`.
pub open spec fn token_end(s: Seq<char>, i: int) -> int
    decreases s.len() - i,
{
    if 0 <= i < s.len() && !is_space(s[i]) {
        token_end(s, i + 1)
    } else {
        i
    }
}

/// `token_end` stays within bounds, moves forward, and stops exactly at the
/// first space (or the end of the sequence).
pub proof fn lemma_token_end(s: Seq<char>, i: int)
    requires
        0 <= i <= s.len(),
    ensures
        i <= token_end(s, i) <= s.len(),
        forall|k: int| i <= k < token_end(s, i) ==> !is_space(s[k]),
        token_end(s, i) == s.len() || is_space(s[token_end(s, i)]),
    decreases s.len() - i,
{
    if 0 <= i < s.len() && !is_space(s[i]) {
        lemma_token_end(s, i + 1);
    }
}

/// `token_end(s, i) == j` exactly when everything in `[i, j)` is non-space
/// and `j` is a space or the end.
pub proof fn lemma_token_end_eq(s: Seq<char>, i: int, j: int)
    requires
        0 <= i <= j <= s.len(),
        forall|k: int| i <= k < j ==> !is_space(s[k]),
        j == s.len() || is_space(s[j]),
    ensures
        token_end(s, i) == j,
    decreases j - i,
{
    if i < j {
        lemma_token_end_eq(s, i + 1, j);
    }
}

/// The whitespace-separated tokens of `s`, from position `i` on.
pub open spec fn tokens_from(s: Seq<char>, i: int) -> Seq<Seq<char>>
    decreases s.len() - i,
    when 0 <= i
    via tokens_from_decreases
{
    if i >= s.len() {
        Seq::empty()
    } else if is_space(s[i]) {
        tokens_from(s, i + 1)
    } else {
        seq![s.subrange(i, token_end(s, i))] + tokens_from(s, token_end(s, i))
    }
}

#[via_fn]
proof fn tokens_from_decreases(s: Seq<char>, i: int) {
    if 0 <= i < s.len() && !is_space(s[i]) {
        lemma_token_end(s, i);
        assert(token_end(s, i) == token_end(s, i + 1));
    }
}

/// The whitespace-separated tokens of `s`: maximal runs of non-space
/// characters, in order, with all whitespace discarded.
pub open spec fn tokens(s: Seq<char>) -> Seq<Seq<char>> {
    tokens_from(s, 0)
}

/// The views of a vector of strings.
pub open spec fn views(v: Seq<String>) -> Seq<Seq<char>> {
    v.map_values(|t: String| t@)
}

/// Executable whitespace test.
pub fn is_space_char(c: char) -> (b: bool)
    ensures
        b == is_space(c),
{
    c == ' ' || c == '\t' || c == '\n' || c == '\r'
}

/// Splits `s` into its whitespace-separated tokens.
pub fn tokenize(s: &str) -> (toks: Vec<String>)
    ensures
        views(toks@) == tokens(s@),
{
    let n = s.unicode_len();
    let mut toks: Vec<String> = Vec::new();
    let mut i: usize = 0;
    while i < n
        invariant
            n == s@.len(),
            i <= n,
            views(toks@) + tokens_from(s@, i as int) == tokens(s@),
        decreases n - i,
    {
        let c = s.get_char(i);
        if is_space_char(c) {
            i = i + 1;
        } else {
            let ghost start = i as int;
            let mut j: usize = i + 1;
            while j < n && !is_space_char(s.get_char(j))
                invariant
                    n == s@.len(),
                    start < j as int <= n,
                    forall|k: int| start <= k < j as int ==> !is_space(s@[k]),
                decreases n - j,
            {
                j = j + 1;
            }
            proof {
                lemma_token_end_eq(s@, start, j as int);
            }
            let tok = s.substring_char(i, j).to_owned();
            toks.push(tok);
            proof {
                assert(views(toks@) =~= views(toks@.drop_last()).push(s@.subrange(start, j as int)));
                assert(views(toks@) + tokens_from(s@, j as int) =~= (views(toks@.drop_last())
                    + tokens_from(s@, start)));
            }
            i = j;
        }
    }
    proof {
        assert(views(toks@) =~= tokens(s@));
    }
    toks
}

/// Character-for-character string equality.
pub fn str_eq(a: &str, b: &str) -> (r: bool)
    ensures
        r == (a@ == b@),
{
    let an = a.unicode_len();
    let bn = b.unicode_len();
    if an != bn {
        proof {
            assert(a@ != b@);
        }
        return false;
    }
    let mut i: usize = 0;
    while i < an
        invariant
            an == a@.len(),
            an == b@.len(),
            i <= an,
            forall|j: int| 0 <= j < i ==> a@[j] == b@[j],
        decreases an - i,
    {
        if a.get_char(i) != b.get_char(i) {
            proof {
                assert(a@[i as int] != b@[i as int]);
            }
            return false;
        }
        i = i + 1;
    }
    proof {
        assert(a@ =~= b@);
    }
    true
}

/// Whether `needle` occurs as a contiguous subsequence of `hay`.
pub open spec fn contains_seq(hay: Seq<char>, needle: Seq<char>) -> bool {
    exists|i: int|
        0 <= i <= hay.len() - needle.len() && #[trigger] hay.subrange(i, i + needle.len() as int)
            == needle
}

/// Substring search: whether `needle` occurs contiguously inside `hay`.
pub fn contains_sub(hay: &str, needle: &str) -> (r: bool)
    ensures
        r == contains_seq(hay@, needle@),
{
    let hn = hay.unicode_len();
    let nn = needle.unicode_len();
    if nn > hn {
        return false;
    }
    if nn == 0 {
        proof {
            assert(hay@.subrange(0, 0 + needle@.len() as int) =~= needle@);
        }
        return true;
    }
    let mut i: usize = 0;
    while i <= hn - nn
        invariant
            hn == hay@.len(),
            nn == needle@.len(),
            1 <= nn <= hn,
            i <= hn - nn + 1,
            forall|p: int|
                0 <= p < i ==> #[trigger] hay@.subrange(p, p + nn as int) != needle@,
        decreases hn - i,
    {
        let mut j: usize = 0;
        let mut mismatch = false;
        while j < nn
            invariant
                hn == hay@.len(),
                nn == needle@.len(),
                i + nn <= hn,
                j <= nn,
                !mismatch ==> forall|k: int| 0 <= k < j ==> hay@[i + k] == needle@[k],
                mismatch ==> hay@.subrange(i as int, i + nn as int) != needle@,
            decreases nn - j,
        {
            if hay.get_char(i + j) != needle.get_char(j) {
                proof {
                    assert(hay@.subrange(i as int, i + nn as int)[j as int] != needle@[j as int]);
                }
                mismatch = true;
                j = nn;
            } else {
                j = j + 1;
            }
        }
        if !mismatch {
            proof {
                assert(hay@.subrange(i as int, i + nn as int) =~= needle@);
            }
            return true;
        }
        i = i + 1;
    }
    proof {
        assert(forall|p: int|
            0 <= p <= hn - nn ==> #[trigger] hay@.subrange(p, p + nn as int) != needle@);
    }
    false
}

/// The character for one decimal digit value.
pub open spec fn digit_char(d: int) -> char {
    if d == 0 {
        '0'
    } else if d == 1 {
        '1'
    } else if d == 2 {
        '2'
    } else if d == 3 {
        '3'
    } else if d == 4 {
        '4'
    } else if d == 5 {
        '5'
    } else if d == 6 {
        '6'
    } else if d == 7 {
        '7'
    } else if d == 8 {
        '8'
    } else {
        '9'
    }
}

/// The usual decimal rendering of a natural number, most significant
/// digit first, with no leading zeros (zero itself is `"0"`).
pub open spec fn decimal(n: nat) -> Seq<char>
    decreases n,
{
    if n < 10 {
        seq![digit_char(n as int)]
    } else {
        decimal(n / 10) + seq![digit_char((n % 10) as int)]
    }
}

/// A decimal rendering is never empty and holds digit characters only.
pub proof fn lemma_decimal_digits(n: nat)
    ensures
        decimal(n).len() >= 1,
        forall|i: int| 0 <= i < decimal(n).len() ==> is_digit(decimal(n)[i]),
        digits_ok(decimal(n)),
    decreases n,
{
    if n >= 10 {
        lemma_decimal_digits(n / 10);
    }
}

/// Executable digit character for a value below ten.
fn digit_char_exec(d: usize) -> (c: char)
    requires
        d < 10,
    ensures
        c == digit_char(d as int),
{
    if d == 0 {
        '0'
    } else if d == 1 {
        '1'
    } else if d == 2 {
        '2'
    } else if d == 3 {
        '3'
    } else if d == 4 {
        '4'
    } else if d == 5 {
        '5'
    } else if d == 6 {
        '6'
    } else if d == 7 {
        '7'
    } else if d == 8 {
        '8'
    } else {
        '9'
    }
}

/// Renders `n` in decimal.
pub fn to_decimal(n: usize) -> (s: String)
    ensures
        s@ == decimal(n as nat),
{
    let mut digits: Vec<char> = Vec::new();
    let mut m: usize = n;
    loop
        invariant_except_break
            decimal(n as nat) == decimal(m as nat) + digits@,
        ensures
            digits@ == decimal(n as nat),
        decreases m,
    {
        let d = m % 10;
        let c = digit_char_exec(d);
        let ghost dpre = digits@;
        digits.insert(0, c);
        proof {
            assert(digits@ =~= seq![digit_char((m % 10) as int)] + dpre);
        }
        if m < 10 {
            proof {
                assert(decimal(m as nat) =~= seq![digit_char((m % 10) as int)]);
                assert(decimal(n as nat) =~= digits@);
            }
            break;
        }
        proof {
            assert(decimal(m as nat) + dpre =~= decimal((m / 10) as nat) + digits@);
        }
        m = m / 10;
    }
    let mut s = String::new();
    let mut i: usize = 0;
    while i < digits.len()
        invariant
            s@ == digits@.subrange(0, i as int),
            i <= digits@.len(),
            digits@ == decimal(n as nat),
        decreases digits@.len() - i,
    {
        push_char(&mut s, digits[i]);
        proof {
            assert(digits@.subrange(0, i + 1) =~= digits@.subrange(0, i as int).push(digits@[i as int]));
        }
        i = i + 1;
    }
    proof {
        assert(digits@.subrange(0, digits@.len() as int) =~= digits@);
    }
    s
}

/// Copies a vector of strings, value for value.
pub fn clone_strings(v: &Vec<String>) -> (r: Vec<String>)
    ensures
        views(r@) == views(v@),
{
    let n = v.len();
    let mut r: Vec<String> = Vec::new();
    let mut i: usize = 0;
    while i < n
        invariant
            n == v@.len(),
            i <= n,
            views(r@) == views(v@).subrange(0, i as int),
        decreases n - i,
    {
        let ghost pre = r@;
        r.push(v[i].clone());
        proof {
            assert(views(r@) =~= views(pre).push(r@.last()@));
            assert(views(r@) =~= views(v@).subrange(0, i + 1));
        }
        i = i + 1;
    }
    proof {
        assert(views(v@).subrange(0, n as int) =~= views(v@));
    }
    r
}

/// The template placeholder that profile prompt lines may carry.
pub open spec fn placeholder() -> Seq<char> {
    seq!['{', 'c', 'h', 'a', 'r', 's', '}']
}

/// A sequence fit to substitute for the placeholder: non-empty and
/// made of decimal digit characters only.
pub open spec fn digits_ok(d: Seq<char>) -> bool {
    d.len() >= 1 && forall|i: int| 0 <= i < d.len() ==> is_digit(d[i])
}

/// `s` with every occurrence of the placeholder replaced by `d`,
/// scanning left to right.
pub open spec fn replace_all(s: Seq<char>, d: Seq<char>) -> Seq<char>
    decreases s.len(),
{
    if s.len() >= 7 && s.subrange(0, 7) == placeholder() {
        d + replace_all(s.subrange(7, s.len() as int), d)
    } else if s.len() > 0 {
        seq![s[0]] + replace_all(s.subrange(1, s.len() as int), d)
    } else {
        s
    }
}

/// Whether the placeholder occurs nowhere in `s`.
pub open spec fn no_placeholder(s: Seq<char>) -> bool {
    forall|i: int| 0 <= i <= s.len() - 7 ==> #[trigger] s.subrange(i, i + 7) != placeholder()
}

/// Whether the placeholder stands at position `i` of `line`.
fn placeholder_at(line: &str, i: usize, n: usize) -> (b: bool)
    requires
        n == line@.len(),
        i < n,
    ensures
        b == (n - i >= 7 && line@.subrange(i as int, n as int).subrange(0, 7) == placeholder()),
{
    if n - i < 7 {
        return false;
    }
    let b = line.get_char(i) == '{' && line.get_char(i + 1) == 'c' && line.get_char(i + 2) == 'h'
        && line.get_char(i + 3) == 'a' && line.get_char(i + 4) == 'r' && line.get_char(i + 5)
        == 's' && line.get_char(i + 6) == '}';
    proof {
        let sub = line@.subrange(i as int, n as int).subrange(0, 7);
        assert(forall|k: int| 0 <= k < 7 ==> sub[k] == line@[i + k]);
        if b {
            assert(sub =~= placeholder());
        } else {
            if sub == placeholder() {
                assert(line@[i as int] == sub[0] && sub[0] == '{');
                assert(line@[i + 1] == sub[1] && sub[1] == 'c');
                assert(line@[i + 2] == sub[2] && sub[2] == 'h');
                assert(line@[i + 3] == sub[3] && sub[3] == 'a');
                assert(line@[i + 4] == sub[4] && sub[4] == 'r');
                assert(line@[i + 5] == sub[5] && sub[5] == 's');
                assert(line@[i + 6] == sub[6] && sub[6] == '}');
                assert(false);
            }
        }
    }
    b
}

/// Substitutes `digits` for every occurrence of the placeholder in `line`.
pub fn render_line(line: &str, digits: &str) -> (out: String)
    ensures
        out@ == replace_all(line@, digits@),
{
    let n = line.unicode_len();
    let mut out = String::new();
    proof {
        assert(line@.subrange(0, n as int) =~= line@);
        assert(out@ + replace_all(line@, digits@) =~= replace_all(line@, digits@));
    }
    let mut i: usize = 0;
    while i < n
        invariant
            n == line@.len(),
            i <= n,
            out@ + replace_all(line@.subrange(i as int, n as int), digits@) == replace_all(
                line@,
                digits@,
            ),
        decreases n - i,
    {
        let ghost pre = out@;
        let ghost suffix = line@.subrange(i as int, n as int);
        if placeholder_at(line, i, n) {
            out.append(digits);
            proof {
                assert(suffix.subrange(7, suffix.len() as int) =~= line@.subrange(
                    i + 7,
                    n as int,
                ));
                assert(out@ + replace_all(line@.subrange(i + 7, n as int), digits@) =~= pre
                    + replace_all(suffix, digits@));
            }
            i = i + 7;
        } else {
            let c = line.get_char(i);
            push_char(&mut out, c);
            proof {
                assert(suffix[0] == c);
                assert(suffix.subrange(1, suffix.len() as int) =~= line@.subrange(
                    i + 1,
                    n as int,
                ));
                assert(out@ + replace_all(line@.subrange(i + 1, n as int), digits@) =~= pre
                    + replace_all(suffix, digits@));
            }
            i = i + 1;
        }
    }
    proof {
        assert(line@.subrange(n as int, n as int) =~= Seq::<char>::empty());
        assert(out@ =~= replace_all(line@, digits@));
    }
    out
}

/// Substitution is the identity on a line without the placeholder.
pub proof fn lemma_replace_all_identity(s: Seq<char>, d: Seq<char>)
    requires
        no_placeholder(s),
    ensures
        replace_all(s, d) == s,
    decreases s.len(),
{
    if s.len() >= 7 && s.subrange(0, 7) == placeholder() {
        assert(s.subrange(0int, 0int + 7) == placeholder());
        assert(false);
    } else if s.len() > 0 {
        let s2 = s.subrange(1, s.len() as int);
        assert forall|i: int| 0 <= i <= s2.len() - 7 implies #[trigger] s2.subrange(i, i + 7)
            != placeholder() by {
            assert(s2.subrange(i, i + 7) =~= s.subrange(i + 1, i + 1 + 7));
            assert(s.subrange(i + 1, i + 1 + 7) != placeholder());
        }
        lemma_replace_all_identity(s2, d);
        assert(replace_all(s, d) =~= s);
    } else {
        assert(replace_all(s, d) =~= s);
    }
}

/// If the output of a substitution starts with the tail `placeholder()[j..]`
/// of the placeholder, that tail was already at the start of the input:
/// substituted digits can never help to spell the placeholder.
proof fn lemma_replace_all_prefix(s: Seq<char>, d: Seq<char>, j: int)
    requires
        digits_ok(d),
        1 <= j <= 7,
        replace_all(s, d).len() >= 7 - j,
        replace_all(s, d).subrange(0, 7 - j) == placeholder().subrange(j, 7),
    ensures
        s.len() >= 7 - j,
        s.subrange(0, 7 - j) == placeholder().subrange(j, 7),
    decreases s.len(),
{
    let r = replace_all(s, d);
    if j == 7 {
        assert(s.subrange(0, 0) =~= placeholder().subrange(7, 7));
    } else if s.len() >= 7 && s.subrange(0, 7) == placeholder() {
        assert(r[0] == d[0]);
        assert(is_digit(d[0]));
        assert(r.subrange(0, 7 - j)[0] == placeholder().subrange(j, 7)[0]);
        assert(r[0] == placeholder()[j]);
        assert(!is_digit(placeholder()[1]) && !is_digit(placeholder()[2]) && !is_digit(
            placeholder()[3],
        ) && !is_digit(placeholder()[4]) && !is_digit(placeholder()[5]) && !is_digit(
            placeholder()[6],
        ));
        assert(false);
    } else if s.len() > 0 {
        let s2 = s.subrange(1, s.len() as int);
        let r2 = replace_all(s2, d);
        assert(r == seq![s[0]] + r2);
        assert(r.subrange(0, 7 - j)[0] == placeholder().subrange(j, 7)[0]);
        assert(s[0] == placeholder()[j]);
        assert forall|k: int| 0 <= k < 7 - (j + 1) implies #[trigger] r2.subrange(0, 7 - (j + 1))[k]
            == placeholder().subrange(j + 1, 7)[k] by {
            assert(r2[k] == r[k + 1]);
            assert(r.subrange(0, 7 - j)[k + 1] == placeholder().subrange(j, 7)[k + 1]);
        }
        assert(r2.subrange(0, 7 - (j + 1)) =~= placeholder().subrange(j + 1, 7));
        lemma_replace_all_prefix(s2, d, j + 1);
        assert forall|k: int| 0 <= k < 7 - j implies #[trigger] s.subrange(0, 7 - j)[k]
            == placeholder().subrange(j, 7)[k] by {
            if k >= 1 {
                assert(s2.subrange(0, 7 - (j + 1))[k - 1] == placeholder().subrange(
                    j + 1,
                    7,
                )[k - 1]);
                assert(s[k] == s2[k - 1]);
            }
        }
        assert(s.subrange(0, 7 - j) =~= placeholder().subrange(j, 7));
    } else {
        assert(r.len() == 0);
        assert(false);
    }
}

/// The output of a substitution never contains the placeholder.
pub proof fn lemma_replace_all_no_placeholder(s: Seq<char>, d: Seq<char>)
    requires
        digits_ok(d),
    ensures
        no_placeholder(replace_all(s, d)),
    decreases s.len(),
{
    let r = replace_all(s, d);
    if s.len() >= 7 && s.subrange(0, 7) == placeholder() {
        let s2 = s.subrange(7, s.len() as int);
        lemma_replace_all_no_placeholder(s2, d);
        let r2 = replace_all(s2, d);
        assert forall|k: int| 0 <= k <= r.len() - 7 implies #[trigger] r.subrange(k, k + 7)
            != placeholder() by {
            if r.subrange(k, k + 7) == placeholder() {
                if k < d.len() {
                    assert(r.subrange(k, k + 7)[0] == r[k]);
                    assert(r[k] == d[k]);
                    assert(is_digit(d[k]));
                    assert(placeholder()[0] == '{');
                    assert(false);
                } else {
                    assert(r2.subrange(k - d.len(), k - d.len() + 7) =~= r.subrange(k, k + 7));
                    assert(false);
                }
            }
        }
    } else if s.len() > 0 {
        let s2 = s.subrange(1, s.len() as int);
        lemma_replace_all_no_placeholder(s2, d);
        let r2 = replace_all(s2, d);
        assert forall|k: int| 0 <= k <= r.len() - 7 implies #[trigger] r.subrange(k, k + 7)
            != placeholder() by {
            if r.subrange(k, k + 7) == placeholder() {
                if k >= 1 {
                    assert(r2.subrange(k - 1, k - 1 + 7) =~= r.subrange(k, k + 7));
                    assert(r2.subrange(k - 1, k - 1 + 7) != placeholder());
                    assert(false);
                } else {
                    assert(r.subrange(0, 7)[0] == s[0]);
                    assert(placeholder()[0] == '{');
                    assert(r2.subrange(0, 6) =~= r.subrange(0, 7).subrange(1, 7));
                    assert(r2.subrange(0, 7 - 1) == placeholder().subrange(1, 7));
                    lemma_replace_all_prefix(s2, d, 1);
                    assert(s.subrange(0, 7) =~= seq![s[0]] + s2.subrange(0, 6));
                    assert(s.subrange(0, 7) =~= placeholder());
                    assert(false);
                }
            }
        }
    }
}

/// Substituting twice is the same as substituting once: one pass removes
/// every placeholder, so a second pass finds nothing to do.
pub proof fn lemma_replace_all_idempotent(s: Seq<char>, d: Seq<char>)
    requires
        digits_ok(d),
    ensures
        replace_all(replace_all(s, d), d) == replace_all(s, d),
{
    lemma_replace_all_no_placeholder(s, d);
    lemma_replace_all_identity(replace_all(s, d), d);
}

} // verus!

//! Character classes and small text helpers shared by the scanner model and
//! the executable scanner: horizontal whitespace, identifier characters,
//! line counting, decimal rendering, trimming and substring replacement.

use vstd::prelude::*;

verus! {

/// Horizontal whitespace: blanks that a directive skips between its tokens.
pub open spec fn is_space_char(c: char) -> bool {
    c == ' ' || c == '\t' || c == '\r'
}

/// First character of an identifier: a letter or an underscore.
pub open spec fn is_ident_start_char(c: char) -> bool {
    c == '_' || ('a' <= c && c <= 'z') || ('A' <= c && c <= 'Z')
}

pub open spec fn is_digit_char(c: char) -> bool {
    '0' <= c && c <= '9'
}

/// Continuation character of an identifier: a letter, a digit or `_`.
pub open spec fn is_ident_char(c: char) -> bool {
    is_ident_start_char(c) || is_digit_char(c)
}

/// Characters removed from both ends of a macro body when it is stored.
pub open spec fn is_trim_char(c: char) -> bool {
    is_space_char(c) || c == '\n'
}

pub fn is_space(c: char) -> (b: bool)
    ensures
        b == is_space_char(c),
{
    c == ' ' || c == '\t' || c == '\r'
}

pub fn is_ident_start(c: char) -> (b: bool)
    ensures
        b == is_ident_start_char(c),
{
    c == '_' || ('a' <= c && c <= 'z') || ('A' <= c && c <= 'Z')
}

pub fn is_ident(c: char) -> (b: bool)
    ensures
        b == is_ident_char(c),
{
    is_ident_start(c) || ('0' <= c && c <= '9')
}

pub fn is_trim(c: char) -> (b: bool)
    ensures
        b == is_trim_char(c),
{
    is_space(c) || c == '\n'
}

/// Index of the first character at or after `i` that is not horizontal
/// whitespace (or the end of the text).
pub open spec fn skip_spaces(s: Seq<char>, i: int) -> int
    decreases s.len() - i,
{
    if 0 <= i < s.len() && is_space_char(s[i]) {
        skip_spaces(s, i + 1)
    } else {
        i
    }
}

/// End of the identifier that starts at `i`: the first index at or after `i`
/// whose character no longer belongs to an identifier.
pub open spec fn ident_end(s: Seq<char>, i: int) -> int
    decreases s.len() - i,
{
    if 0 <= i < s.len() && is_ident_char(s[i]) {
        ident_end(s, i + 1)
    } else {
        i
    }
}

/// The identifier that starts at `i`.
pub open spec fn ident_at(s: Seq<char>, i: int) -> Seq<char> {
    s.subrange(i, ident_end(s, i))
}

/// One-based line number of position `i`: one more than the number of line
/// breaks before `i`.
pub open spec fn line_of(s: Seq<char>, i: int) -> int
    decreases i,
{
    if i <= 0 {
        1
    } else {
        line_of(s, i - 1) + if s[i - 1] == '\n' { 1int } else { 0int }
    }
}

pub fn eat_spaces(s: &Vec<char>, i: usize) -> (r: usize)
    requires
        i <= s.len(),
    ensures
        r as int == skip_spaces(s@, i as int),
        i <= r <= s.len(),
    decreases s.len() - i,
{
    if i < s.len() && is_space(s[i]) {
        eat_spaces(s, i + 1)
    } else {
        i
    }
}

/// Reads the identifier starting at `i`, returning its characters and the
/// index just past it.
pub fn read_ident(s: &Vec<char>, i: usize) -> (r: (Vec<char>, usize))
    requires
        i <= s.len(),
    ensures
        r.1 as int == ident_end(s@, i as int),
        r.0@ == ident_at(s@, i as int),
        i <= r.1 <= s.len(),
    decreases s.len() - i,
{
    if i < s.len() && is_ident(s[i]) {
        let c = s[i];
        let (mut rest, end) = read_ident(s, i + 1);
        rest.insert(0, c);
        proof {
            assert(rest@ =~= ident_at(s@, i as int));
        }
        (rest, end)
    } else {
        proof {
            assert(Seq::<char>::empty() =~= ident_at(s@, i as int));
        }
        (Vec::new(), i)
    }
}

/// Counts line breaks before `i` and returns the one-based line number.
pub fn line_at(s: &Vec<char>, i: usize) -> (r: u128)
    requires
        i <= s.len(),
    ensures
        r as int == line_of(s@, i as int),
{
    let mut count: usize = 0;
    let mut j: usize = 0;
    while j < i
        invariant
            j <= i <= s.len(),
            count <= j,
            count as int + 1 == line_of(s@, j as int),
        decreases i - j,
    {
        if s[j] == '\n' {
            count = count + 1;
        }
        j = j + 1;
    }
    (count as u128) + 1
}

/// The digit character for a value below ten.
pub open spec fn digit_char(d: int) -> char {
    if d == 0 { '0' }
    else if d == 1 { '1' }
    else if d == 2 { '2' }
    else if d == 3 { '3' }
    else if d == 4 { '4' }
    else if d == 5 { '5' }
    else if d == 6 { '6' }
    else if d == 7 { '7' }
    else if d == 8 { '8' }
    else { '9' }
}

/// Decimal rendering of a number, most significant digit first.
pub open spec fn dec_str(n: nat) -> Seq<char>
    decreases n,
{
    if n < 10 {
        seq![digit_char(n as int)]
    } else {
        dec_str(n / 10).push(digit_char((n % 10) as int))
    }
}

fn digit(d: u128) -> (c: char)
    requires
        d < 10,
    ensures
        c == digit_char(d as int),
{
    if d == 0 { '0' }
    else if d == 1 { '1' }
    else if d == 2 { '2' }
    else if d == 3 { '3' }
    else if d == 4 { '4' }
    else if d == 5 { '5' }
    else if d == 6 { '6' }
    else if d == 7 { '7' }
    else if d == 8 { '8' }
    else { '9' }
}

/// Appends the decimal rendering of `n` to `out`.
pub fn push_dec(n: u128, out: &mut Vec<char>)
    ensures
        final(out)@ == old(out)@ + dec_str(n as nat),
    decreases n,
{
    if n < 10 {
        out.push(digit(n));
        proof {
            assert(out@ =~= old(out)@ + dec_str(n as nat));
        }
    } else {
        push_dec(n / 10, out);
        out.push(digit(n % 10));
        proof {
            assert(out@ =~= old(out)@ + dec_str(n as nat));
        }
    }
}

/// Copies `src` onto the end of `dst`.
pub fn append_chars(dst: &mut Vec<char>, src: &Vec<char>)
    ensures
        final(dst)@ == old(dst)@ + src@,
{
    let mut k: usize = 0;
    while k < src.len()
        invariant
            k <= src.len(),
            dst@ == old(dst)@ + src@.subrange(0, k as int),
        decreases src.len() - k,
    {
        dst.push(src[k]);
        k = k + 1;
        proof {
            assert(dst@ =~= old(dst)@ + src@.subrange(0, k as int));
        }
    }
    proof {
        assert(src@.subrange(0, src@.len() as int) =~= src@);
    }
}

/// A fresh copy of the characters of `v`.
pub fn copy_chars(v: &Vec<char>) -> (r: Vec<char>)
    ensures
        r@ == v@,
{
    let mut out: Vec<char> = Vec::new();
    append_chars(&mut out, v);
    proof {
        assert(out@ =~= v@);
    }
    out
}

/// The characters of `v` from `a` (inclusive) to `b` (exclusive).
pub fn sub_chars(v: &Vec<char>, a: usize, b: usize) -> (r: Vec<char>)
    requires
        a <= b <= v.len(),
    ensures
        r@ == v@.subrange(a as int, b as int),
{
    let mut out: Vec<char> = Vec::new();
    let mut k: usize = a;
    while k < b
        invariant
            a <= k <= b <= v.len(),
            out@ == v@.subrange(a as int, k as int),
        decreases b - k,
    {
        out.push(v[k]);
        k = k + 1;
        proof {
            assert(out@ =~= v@.subrange(a as int, k as int));
        }
    }
    out
}

/// First index at or after `i` whose character is not trimmable.
pub open spec fn trim_start(s: Seq<char>, i: int) -> int
    decreases s.len() - i,
{
    if 0 <= i < s.len() && is_trim_char(s[i]) {
        trim_start(s, i + 1)
    } else {
        i
    }
}

/// Last index at or before `j` such that everything from it on is trimmable.
pub open spec fn trim_end(s: Seq<char>, j: int) -> int
    decreases j,
{
    if 0 < j <= s.len() && is_trim_char(s[j - 1]) {
        trim_end(s, j - 1)
    } else {
        j
    }
}

/// `s` with trimmable characters removed from both ends.
pub open spec fn trim(s: Seq<char>) -> Seq<char> {
    let a = trim_start(s, 0);
    let b = trim_end(s, s.len() as int);
    if a <= b {
        s.subrange(a, b)
    } else {
        Seq::empty()
    }
}

fn trim_start_at(s: &Vec<char>, i: usize) -> (r: usize)
    requires
        i <= s.len(),
    ensures
        r as int == trim_start(s@, i as int),
        i <= r <= s.len(),
    decreases s.len() - i,
{
    if i < s.len() && is_trim(s[i]) {
        trim_start_at(s, i + 1)
    } else {
        i
    }
}

fn trim_end_at(s: &Vec<char>, j: usize) -> (r: usize)
    requires
        j <= s.len(),
    ensures
        r as int == trim_end(s@, j as int),
        r <= j,
    decreases j,
{
    if j > 0 && is_trim(s[j - 1]) {
        trim_end_at(s, j - 1)
    } else {
        j
    }
}

/// A copy of `v` with trimmable characters removed from both ends.
pub fn trim_chars(v: &Vec<char>) -> (r: Vec<char>)
    ensures
        r@ == trim(v@),
{
    let a = trim_start_at(v, 0);
    let b = trim_end_at(v, v.len());
    if a <= b {
        sub_chars(v, a, b)
    } else {
        proof {
            assert(Seq::<char>::empty() =~= trim(v@));
        }
        Vec::new()
    }
}

/// `t` with every occurrence of `pat` replaced by `rep`: matches are found
/// left to right and do not overlap, exactly as plain substring replacement
/// does. An empty pattern replaces nothing.
pub open spec fn replace_all(t: Seq<char>, pat: Seq<char>, rep: Seq<char>) -> Seq<char>
    decreases t.len(),
{
    if pat.len() == 0 || t.len() < pat.len() {
        t
    } else if t.take(pat.len() as int) == pat {
        rep + replace_all(t.skip(pat.len() as int), pat, rep)
    } else {
        seq![t[0]] + replace_all(t.skip(1), pat, rep)
    }
}

fn prefix_matches(t: &Vec<char>, pat: &Vec<char>) -> (r: bool)
    requires
        pat.len() <= t.len(),
    ensures
        r == (t@.take(pat@.len() as int) == pat@),
{
    let mut k: usize = 0;
    while k < pat.len()
        invariant
            k <= pat.len() <= t.len(),
            forall|j: int| 0 <= j < k ==> t@[j] == pat@[j],
        decreases pat.len() - k,
    {
        if t[k] != pat[k] {
            proof {
                assert(t@.take(pat@.len() as int)[k as int] == t@[k as int]);
            }
            return false;
        }
        k = k + 1;
    }
    proof {
        assert(t@.take(pat@.len() as int) =~= pat@);
    }
    true
}

/// Substring replacement over character vectors.
pub fn replace_chars(t: &Vec<char>, pat: &Vec<char>, rep: &Vec<char>) -> (r: Vec<char>)
    ensures
        r@ == replace_all(t@, pat@, rep@),
    decreases t.len(),
{
    if pat.len() == 0 || t.len() < pat.len() {
        return copy_chars(t);
    }
    if prefix_matches(t, pat) {
        let rest = sub_chars(t, pat.len(), t.len());
        proof {
            assert(rest@ =~= t@.skip(pat@.len() as int));
        }
        let tail = replace_chars(&rest, pat, rep);
        let mut out = copy_chars(rep);
        append_chars(&mut out, &tail);
        out
    } else {
        let rest = sub_chars(t, 1, t.len());
        proof {
            assert(rest@ =~= t@.skip(1));
        }
        let tail = replace_chars(&rest, pat, rep);
        let mut out: Vec<char> = Vec::new();
        out.push(t[0]);
        append_chars(&mut out, &tail);
        proof {
            assert(out@ =~= seq![t@[0]] + replace_all(t@.skip(1), pat@, rep@));
        }
        out
    }
}

/// Whether the two character vectors hold the same text.
pub fn chars_eq(a: &Vec<char>, b: &Vec<char>) -> (r: bool)
    ensures
        r == (a@ == b@),
{
    if a.len() != b.len() {
        proof {
            assert(a@ != b@);
        }
        return false;
    }
    let mut k: usize = 0;
    while k < a.len()
        invariant
            k <= a.len(),
            a.len() == b.len(),
            forall|j: int| 0 <= j < k ==> a@[j] == b@[j],
        decreases a.len() - k,
    {
        if a[k] != b[k] {
            proof {
                assert(a@ != b@);
            }
            return false;
        }
        k = k + 1;
    }
    proof {
        assert(a@ =~= b@);
    }
    true
}

} // verus!

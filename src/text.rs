//! Character-level helpers shared by the script reader and the evaluator.
use vstd::prelude::*;

verus! {

/// Blank characters that may surround the parts of a script line.
pub open spec fn is_space(c: char) -> bool {
    c == ' ' || c == '\t' || c == '\r'
}

/// ASCII letters and digits.
pub open spec fn is_alnum(c: char) -> bool {
    ('a' <= c && c <= 'z') || ('A' <= c && c <= 'Z') || ('0' <= c && c <= '9')
}

/// Characters that may follow the first one of an identifier.
pub open spec fn is_ident_char(c: char) -> bool {
    is_alnum(c) || c == '_'
}

/// Characters that may start an identifier.
pub open spec fn is_ident_start(c: char) -> bool {
    ('a' <= c && c <= 'z') || ('A' <= c && c <= 'Z') || c == '_'
}

pub open spec fn is_digit(c: char) -> bool {
    '0' <= c && c <= '9'
}

/// The first position at or after `i` that holds no blank, or the end.
pub open spec fn skip_ws(l: Seq<char>, i: int) -> int
    decreases l.len() - i,
{
    if i < 0 || i >= l.len() {
        if i < 0 { 0 } else { l.len() as int }
    } else if is_space(l[i]) {
        skip_ws(l, i + 1)
    } else {
        i
    }
}

/// The end of the run of identifier characters that starts at `i`.
pub open spec fn scan_ident(l: Seq<char>, i: int) -> int
    decreases l.len() - i,
{
    if i < 0 || i >= l.len() {
        if i < 0 { 0 } else { l.len() as int }
    } else if is_ident_char(l[i]) {
        scan_ident(l, i + 1)
    } else {
        i
    }
}

/// The end of the run of ASCII letters and digits that starts at `i`.
pub open spec fn scan_alnum(l: Seq<char>, i: int) -> int
    decreases l.len() - i,
{
    if i < 0 || i >= l.len() {
        if i < 0 { 0 } else { l.len() as int }
    } else if is_alnum(l[i]) {
        scan_alnum(l, i + 1)
    } else {
        i
    }
}

/// The end of the run of decimal digits that starts at `i`.
pub open spec fn scan_digits(l: Seq<char>, i: int) -> int
    decreases l.len() - i,
{
    if i < 0 || i >= l.len() {
        if i < 0 { 0 } else { l.len() as int }
    } else if is_digit(l[i]) {
        scan_digits(l, i + 1)
    } else {
        i
    }
}

/// The first position at or after `i` that holds `c`, or the end.
pub open spec fn find_char(l: Seq<char>, i: int, c: char) -> int
    decreases l.len() - i,
{
    if i < 0 || i >= l.len() {
        if i < 0 { 0 } else { l.len() as int }
    } else if l[i] == c {
        i
    } else {
        find_char(l, i + 1, c)
    }
}

/// The end of `l[lo..hi]` once blanks at its end are dropped.
pub open spec fn trim_end(l: Seq<char>, lo: int, hi: int) -> int
    decreases hi - lo,
{
    if hi <= lo {
        lo
    } else if is_space(l[hi - 1]) {
        trim_end(l, lo, hi - 1)
    } else {
        hi
    }
}

pub proof fn lemma_skip_ws_bounds(l: Seq<char>, i: int)
    requires
        0 <= i <= l.len(),
    ensures
        i <= skip_ws(l, i) <= l.len(),
        skip_ws(l, i) < l.len() ==> !is_space(l[skip_ws(l, i)]),
    decreases l.len() - i,
{
    if i < l.len() && is_space(l[i]) {
        lemma_skip_ws_bounds(l, i + 1);
    }
}

pub proof fn lemma_scan_ident_bounds(l: Seq<char>, i: int)
    requires
        0 <= i <= l.len(),
    ensures
        i <= scan_ident(l, i) <= l.len(),
        scan_ident(l, i) < l.len() ==> !is_ident_char(l[scan_ident(l, i)]),
        forall|k: int| i <= k < scan_ident(l, i) ==> is_ident_char(#[trigger] l[k]),
    decreases l.len() - i,
{
    if i < l.len() && is_ident_char(l[i]) {
        lemma_scan_ident_bounds(l, i + 1);
    }
}

pub proof fn lemma_scan_alnum_bounds(l: Seq<char>, i: int)
    requires
        0 <= i <= l.len(),
    ensures
        i <= scan_alnum(l, i) <= l.len(),
        scan_alnum(l, i) < l.len() ==> !is_alnum(l[scan_alnum(l, i)]),
    decreases l.len() - i,
{
    if i < l.len() && is_alnum(l[i]) {
        lemma_scan_alnum_bounds(l, i + 1);
    }
}

pub proof fn lemma_scan_digits_bounds(l: Seq<char>, i: int)
    requires
        0 <= i <= l.len(),
    ensures
        i <= scan_digits(l, i) <= l.len(),
        forall|k: int| i <= k < scan_digits(l, i) ==> is_digit(#[trigger] l[k]),
    decreases l.len() - i,
{
    if i < l.len() && is_digit(l[i]) {
        lemma_scan_digits_bounds(l, i + 1);
    }
}

pub proof fn lemma_find_char_bounds(l: Seq<char>, i: int, c: char)
    requires
        0 <= i <= l.len(),
    ensures
        i <= find_char(l, i, c) <= l.len(),
        find_char(l, i, c) < l.len() ==> l[find_char(l, i, c)] == c,
    decreases l.len() - i,
{
    if i < l.len() && l[i] != c {
        lemma_find_char_bounds(l, i + 1, c);
    }
}

pub proof fn lemma_trim_end_bounds(l: Seq<char>, lo: int, hi: int)
    requires
        0 <= lo <= hi <= l.len(),
    ensures
        lo <= trim_end(l, lo, hi) <= hi,
    decreases hi - lo,
{
    if hi > lo && is_space(l[hi - 1]) {
        lemma_trim_end_bounds(l, lo, hi - 1);
    }
}

pub fn exec_is_space(c: char) -> (r: bool)
    ensures
        r == is_space(c),
{
    c == ' ' || c == '\t' || c == '\r'
}

pub fn exec_is_alnum(c: char) -> (r: bool)
    ensures
        r == is_alnum(c),
{
    ('a' <= c && c <= 'z') || ('A' <= c && c <= 'Z') || ('0' <= c && c <= '9')
}

pub fn exec_is_ident_char(c: char) -> (r: bool)
    ensures
        r == is_ident_char(c),
{
    exec_is_alnum(c) || c == '_'
}

pub fn exec_is_ident_start(c: char) -> (r: bool)
    ensures
        r == is_ident_start(c),
{
    ('a' <= c && c <= 'z') || ('A' <= c && c <= 'Z') || c == '_'
}

pub fn exec_is_digit(c: char) -> (r: bool)
    ensures
        r == is_digit(c),
{
    '0' <= c && c <= '9'
}

pub fn exec_skip_ws(l: &Vec<char>, i: usize) -> (r: usize)
    requires
        i <= l@.len(),
    ensures
        r == skip_ws(l@, i as int),
{
    let mut j = i;
    while j < l.len() && exec_is_space(l[j])
        invariant
            i <= j <= l@.len(),
            skip_ws(l@, i as int) == skip_ws(l@, j as int),
        decreases l@.len() - j,
    {
        j = j + 1;
    }
    j
}

pub fn exec_scan_ident(l: &Vec<char>, i: usize) -> (r: usize)
    requires
        i <= l@.len(),
    ensures
        r == scan_ident(l@, i as int),
{
    let mut j = i;
    while j < l.len() && exec_is_ident_char(l[j])
        invariant
            i <= j <= l@.len(),
            scan_ident(l@, i as int) == scan_ident(l@, j as int),
        decreases l@.len() - j,
    {
        j = j + 1;
    }
    j
}

pub fn exec_scan_alnum(l: &Vec<char>, i: usize) -> (r: usize)
    requires
        i <= l@.len(),
    ensures
        r == scan_alnum(l@, i as int),
{
    let mut j = i;
    while j < l.len() && exec_is_alnum(l[j])
        invariant
            i <= j <= l@.len(),
            scan_alnum(l@, i as int) == scan_alnum(l@, j as int),
        decreases l@.len() - j,
    {
        j = j + 1;
    }
    j
}

pub fn exec_scan_digits(l: &Vec<char>, i: usize) -> (r: usize)
    requires
        i <= l@.len(),
    ensures
        r == scan_digits(l@, i as int),
{
    let mut j = i;
    while j < l.len() && exec_is_digit(l[j])
        invariant
            i <= j <= l@.len(),
            scan_digits(l@, i as int) == scan_digits(l@, j as int),
        decreases l@.len() - j,
    {
        j = j + 1;
    }
    j
}

pub fn exec_find_char(l: &Vec<char>, i: usize, c: char) -> (r: usize)
    requires
        i <= l@.len(),
    ensures
        r == find_char(l@, i as int, c),
{
    let mut j = i;
    while j < l.len() && l[j] != c
        invariant
            i <= j <= l@.len(),
            find_char(l@, i as int, c) == find_char(l@, j as int, c),
        decreases l@.len() - j,
    {
        j = j + 1;
    }
    j
}

pub fn exec_trim_end(l: &Vec<char>, lo: usize, hi: usize) -> (r: usize)
    requires
        lo <= hi <= l@.len(),
    ensures
        r == trim_end(l@, lo as int, hi as int),
{
    let mut j = hi;
    while j > lo && exec_is_space(l[j - 1])
        invariant
            lo <= j <= hi <= l@.len(),
            trim_end(l@, lo as int, hi as int) == trim_end(l@, lo as int, j as int),
        decreases j,
    {
        j = j - 1;
    }
    j
}

/// The characters of `s`, in order.
pub fn chars_of(s: &str) -> (r: Vec<char>)
    ensures
        r@ == s@,
{
    let mut v: Vec<char> = Vec::new();
    for c in it: s.chars()
        invariant
            it.seq() == s@,
            v@ == it.seq().take(it.index() as int),
    {
        v.push(c);
    }
    v
}

/// Relies on String::push: appends one character at the end of the string.
#[verifier::external_body]
fn push_char(s: &mut String, c: char)
    ensures
        final(s)@ == old(s)@.push(c),
{
    s.push(c);
}

/// The string made of `l[lo..hi]`.
pub fn string_of(l: &Vec<char>, lo: usize, hi: usize) -> (r: String)
    requires
        lo <= hi <= l@.len(),
    ensures
        r@ == l@.subrange(lo as int, hi as int),
{
    let mut s = String::new();
    let mut i = lo;
    while i < hi
        invariant
            lo <= i <= hi <= l@.len(),
            s@ == l@.subrange(lo as int, i as int),
        decreases hi - i,
    {
        push_char(&mut s, l[i]);
        assert(l@.subrange(lo as int, i + 1) == l@.subrange(lo as int, i as int).push(l@[i as int]));
        i = i + 1;
    }
    s
}

/// Whether `s` holds exactly the characters of `w`.
pub fn same_text(s: &str, w: &str) -> (r: bool)
    ensures
        r == (s@ == w@),
{
    let a = chars_of(s);
    let b = chars_of(w);
    if a.len() != b.len() {
        return false;
    }
    let mut i: usize = 0;
    while i < a.len()
        invariant
            a@ == s@,
            b@ == w@,
            a@.len() == b@.len(),
            i <= a@.len(),
            forall|k: int| 0 <= k < i ==> a@[k] == b@[k],
        decreases a@.len() - i,
    {
        if a[i] != b[i] {
            return false;
        }
        i = i + 1;
    }
    assert(a@ == b@);
    true
}

} // verus!

//! The script grammar and its reader, which turns script text into a parse tree.
//!
//! A script is read line by line:
//! - a blank line, or one whose first non-blank character is `#`, is skipped;
//! - `:: name` starts a scene called `name` (letters, digits and `_`);
//! - `@keyword` or `@keyword(arg, ...)` is a directive, whose arguments are
//!   identifiers, string literals in double quotes, or decimal numbers;
//! - any other line is dialogue, `speaker: text`.
//! Every dialogue or directive line belongs to the scene opened last.
use vstd::prelude::*;
use crate::text::{
    exec_find_char, exec_is_digit, exec_is_ident_start, exec_scan_digits, exec_scan_ident,
    exec_skip_ws, exec_trim_end, find_char, is_digit, is_ident_start, lemma_find_char_bounds,
    lemma_scan_digits_bounds, lemma_scan_ident_bounds, lemma_skip_ws_bounds, lemma_trim_end_bounds,
    scan_digits, scan_ident, skip_ws, string_of, trim_end,
};

verus! {

/// What the reader expected where it stopped.
#[derive(Debug, Clone, Copy, PartialEq, Eq, Structural)]
pub enum Expected {
    /// A `:: name` line before the first statement.
    SceneHeader,
    /// A scene name after `::`.
    SceneName,
    /// A directive keyword after `@`.
    Keyword,
    /// `(` after a directive keyword.
    OpenParen,
    /// An identifier, a string literal or a number.
    Argument,
    /// `,` or `)` after an argument.
    CommaOrParen,
    /// The `"` that closes a string literal.
    ClosingQuote,
    /// Nothing more on the line.
    EndOfLine,
    /// The `:` between speaker and text.
    Colon,
    /// A speaker before `:`.
    Speaker,
    /// A number that fits in 64 bits.
    SmallerNumber,
}

/// A malformed script: where (the 1-based line, and the 0-based column counted in
/// characters) and what was expected there.
#[derive(Debug, Clone, Copy, PartialEq, Eq, Structural)]
pub struct SyntaxError {
    pub line: usize,
    pub column: usize,
    pub expected: Expected,
}

pub struct SyntaxErrorV {
    pub line: nat,
    pub column: nat,
    pub expected: Expected,
}

impl View for SyntaxError {
    type V = SyntaxErrorV;

    open spec fn view(&self) -> SyntaxErrorV {
        SyntaxErrorV { line: self.line as nat, column: self.column as nat, expected: self.expected }
    }
}

/// One argument of a directive.
#[derive(Debug, Clone, PartialEq, Eq)]
pub enum Arg {
    Ident(String),
    Text(String),
    Number(u64),
}

pub enum ArgV {
    Ident(Seq<char>),
    Text(Seq<char>),
    Number(u64),
}

impl View for Arg {
    type V = ArgV;

    open spec fn view(&self) -> ArgV {
        match self {
            Arg::Ident(s) => ArgV::Ident(s@),
            Arg::Text(s) => ArgV::Text(s@),
            Arg::Number(n) => ArgV::Number(*n),
        }
    }
}

pub open spec fn args_view(a: Seq<Arg>) -> Seq<ArgV> {
    a.map_values(|x: Arg| x@)
}

/// One statement line of a scene, as written.
#[derive(Debug, Clone, PartialEq, Eq)]
pub enum Entry {
    Dialogue { speaker: String, text: String },
    Directive { keyword: String, args: Vec<Arg> },
}

pub enum EntryV {
    Dialogue { speaker: Seq<char>, text: Seq<char> },
    Directive { keyword: Seq<char>, args: Seq<ArgV> },
}

impl View for Entry {
    type V = EntryV;

    open spec fn view(&self) -> EntryV {
        match self {
            Entry::Dialogue { speaker, text } => EntryV::Dialogue { speaker: speaker@, text: text@ },
            Entry::Directive { keyword, args } => EntryV::Directive {
                keyword: keyword@,
                args: args_view(args@),
            },
        }
    }
}

/// A statement line with its 1-based line number.
#[derive(Debug, Clone, PartialEq, Eq)]
pub struct ParsedLine {
    pub line: usize,
    pub entry: Entry,
}

pub struct ParsedLineV {
    pub line: nat,
    pub entry: EntryV,
}

impl View for ParsedLine {
    type V = ParsedLineV;

    open spec fn view(&self) -> ParsedLineV {
        ParsedLineV { line: self.line as nat, entry: self.entry@ }
    }
}

pub open spec fn lines_view(a: Seq<ParsedLine>) -> Seq<ParsedLineV> {
    a.map_values(|x: ParsedLine| x@)
}

/// A scene of the parse tree: its name, the line of its header, and its statement lines.
#[derive(Debug, Clone, PartialEq, Eq)]
pub struct ParsedScene {
    pub name: String,
    pub line: usize,
    pub items: Vec<ParsedLine>,
}

pub struct ParsedSceneV {
    pub name: Seq<char>,
    pub line: nat,
    pub items: Seq<ParsedLineV>,
}

impl View for ParsedScene {
    type V = ParsedSceneV;

    open spec fn view(&self) -> ParsedSceneV {
        ParsedSceneV { name: self.name@, line: self.line as nat, items: lines_view(self.items@) }
    }
}

pub open spec fn parsed_scenes_view(a: Seq<ParsedScene>) -> Seq<ParsedSceneV> {
    a.map_values(|x: ParsedScene| x@)
}

/// The lines of `s`, split at each `'\n'`; a text without one is a single line.
pub open spec fn split_lines(s: Seq<char>) -> Seq<Seq<char>>
    decreases s.len(),
{
    if s.len() == 0 {
        seq![Seq::<char>::empty()]
    } else {
        let prev = split_lines(s.drop_last());
        if s.last() == '\n' {
            prev.push(Seq::<char>::empty())
        } else {
            prev.update(prev.len() - 1, prev.last().push(s.last()))
        }
    }
}

pub proof fn lemma_split_lines_nonempty(s: Seq<char>)
    ensures
        split_lines(s).len() >= 1,
    decreases s.len(),
{
    if s.len() > 0 {
        lemma_split_lines_nonempty(s.drop_last());
    }
}

/// What one line holds.
pub enum LineV {
    Blank,
    Header(Seq<char>),
    Item(EntryV),
}

/// The numeric value of the decimal digits `l[i..j]`.
pub open spec fn digits_value(l: Seq<char>, i: int, j: int) -> nat
    decreases j - i,
{
    if j <= i {
        0
    } else {
        digits_value(l, i, j - 1) * 10 + ((l[j - 1] as u32 - '0' as u32) as nat)
    }
}

/// One argument starting at `q`, and where it ends; or what was expected and where.
pub open spec fn arg_at(l: Seq<char>, q: int, e: int) -> Result<(ArgV, int), (Expected, int)> {
    if q >= e {
        Err((Expected::Argument, q))
    } else if l[q] == '"' {
        let c = find_char(l, q + 1, '"');
        if c >= e {
            Err((Expected::ClosingQuote, q))
        } else {
            Ok((ArgV::Text(l.subrange(q + 1, c)), c + 1))
        }
    } else if is_digit(l[q]) {
        let k = scan_digits(l, q);
        let v = digits_value(l, q, k);
        if v > u64::MAX {
            Err((Expected::SmallerNumber, q))
        } else {
            Ok((ArgV::Number(v as u64), k))
        }
    } else if is_ident_start(l[q]) {
        let k = scan_ident(l, q);
        Ok((ArgV::Ident(l.subrange(q, k)), k))
    } else {
        Err((Expected::Argument, q))
    }
}

pub proof fn lemma_arg_at_advances(l: Seq<char>, q: int, e: int)
    requires
        0 <= q < e <= l.len(),
    ensures
        arg_at(l, q, e) matches Ok((_, after)) ==> q < after <= l.len(),
{
    lemma_find_char_bounds(l, q + 1, '"');
    lemma_scan_digits_bounds(l, q + 1);
    lemma_scan_ident_bounds(l, q + 1);
}

/// The arguments from the one at `q` up to the closing `)`, and the position after it.
pub open spec fn args_from(l: Seq<char>, q: int, e: int) -> Result<(Seq<ArgV>, int), (Expected, int)>
    decreases l.len() - q,
{
    if q < 0 || q >= e || e > l.len() {
        Err((Expected::Argument, q))
    } else {
        match arg_at(l, q, e) {
            Err(x) => Err(x),
            Ok((a, after)) => {
                let r = skip_ws(l, after);
                if r >= e {
                    Err((Expected::CommaOrParen, r))
                } else if l[r] == ')' {
                    Ok((seq![a], r + 1))
                } else if l[r] == ',' {
                    let q2 = skip_ws(l, r + 1);
                    proof {
                        lemma_arg_at_advances(l, q, e);
                        lemma_skip_ws_bounds(l, after);
                        lemma_skip_ws_bounds(l, r + 1);
                    }
                    match args_from(l, q2, e) {
                        Err(x) => Err(x),
                        Ok((rest, end)) => Ok((seq![a] + rest, end)),
                    }
                } else {
                    Err((Expected::CommaOrParen, r))
                }
            },
        }
    }
}

/// The argument list after `(` at position `i - 1`, and the position after `)`.
pub open spec fn arg_list(l: Seq<char>, i: int, e: int) -> Result<(Seq<ArgV>, int), (Expected, int)> {
    let q = skip_ws(l, i);
    if q < e && l[q] == ')' {
        Ok((seq![], q + 1))
    } else {
        args_from(l, q, e)
    }
}

/// A directive whose keyword starts at `i`; `e` is the end of the line's text.
pub open spec fn directive_line(l: Seq<char>, i: int, e: int) -> Result<LineV, (Expected, int)> {
    let k = scan_ident(l, i);
    if k == i {
        Err((Expected::Keyword, i))
    } else {
        let p = skip_ws(l, k);
        if p >= e {
            Ok(LineV::Item(EntryV::Directive { keyword: l.subrange(i, k), args: seq![] }))
        } else if l[p] != '(' {
            Err((Expected::OpenParen, p))
        } else {
            match arg_list(l, p + 1, e) {
                Err(x) => Err(x),
                Ok((args, end)) => {
                    let z = skip_ws(l, end);
                    if z < e {
                        Err((Expected::EndOfLine, z))
                    } else {
                        Ok(LineV::Item(EntryV::Directive { keyword: l.subrange(i, k), args }))
                    }
                },
            }
        }
    }
}

/// A scene header whose name follows `::` at position `i - 2`.
pub open spec fn header_line(l: Seq<char>, i: int, e: int) -> Result<LineV, (Expected, int)> {
    let n = skip_ws(l, i);
    let k = scan_ident(l, n);
    if k == n {
        Err((Expected::SceneName, n))
    } else if k < e {
        Err((Expected::EndOfLine, k))
    } else {
        Ok(LineV::Header(l.subrange(n, k)))
    }
}

/// A dialogue line whose text spans `l[s..e]`.
pub open spec fn dialogue_line(l: Seq<char>, s: int, e: int) -> Result<LineV, (Expected, int)> {
    let c = find_char(l, s, ':');
    if c >= e {
        Err((Expected::Colon, e))
    } else {
        let se = trim_end(l, s, c);
        if se == s {
            Err((Expected::Speaker, s))
        } else {
            let t = skip_ws(l, c + 1);
            let ts = if t < e { t } else { e };
            Ok(LineV::Item(EntryV::Dialogue { speaker: l.subrange(s, se), text: l.subrange(ts, e) }))
        }
    }
}

/// What line `l` holds, or what was expected and at which 0-based column.
pub open spec fn parse_line(l: Seq<char>) -> Result<LineV, (Expected, int)> {
    let s = skip_ws(l, 0);
    let e = trim_end(l, s, l.len() as int);
    if s == e || l[s] == '#' {
        Ok(LineV::Blank)
    } else if l[s] == ':' && s + 1 < e && l[s + 1] == ':' {
        header_line(l, s + 2, e)
    } else if l[s] == '@' {
        directive_line(l, s + 1, e)
    } else {
        dialogue_line(l, s, e)
    }
}

/// The scenes read from the first `n` lines.
pub open spec fn parse_lines(ls: Seq<Seq<char>>, n: int) -> Result<Seq<ParsedSceneV>, SyntaxErrorV>
    decreases n,
{
    if n <= 0 {
        Ok(seq![])
    } else {
        match parse_lines(ls, n - 1) {
            Err(x) => Err(x),
            Ok(sc) => match parse_line(ls[n - 1]) {
                Err((x, col)) => Err(SyntaxErrorV { line: n as nat, column: col as nat, expected: x }),
                Ok(LineV::Blank) => Ok(sc),
                Ok(LineV::Header(name)) => Ok(sc.push(ParsedSceneV { name, line: n as nat, items: seq![] })),
                Ok(LineV::Item(en)) => {
                    if sc.len() == 0 {
                        Err(SyntaxErrorV {
                            line: n as nat,
                            column: skip_ws(ls[n - 1], 0) as nat,
                            expected: Expected::SceneHeader,
                        })
                    } else {
                        let last = sc.last();
                        Ok(sc.update(sc.len() - 1, ParsedSceneV {
                            name: last.name,
                            line: last.line,
                            items: last.items.push(ParsedLineV { line: n as nat, entry: en }),
                        }))
                    }
                },
            },
        }
    }
}

/// The parse tree of a whole script: its scenes in order of appearance.
pub open spec fn parse_spec(src: Seq<char>) -> Result<Seq<ParsedSceneV>, SyntaxErrorV> {
    let ls = split_lines(src);
    parse_lines(ls, ls.len() as int)
}

/// What one line holds.
pub enum LineKind {
    Blank,
    Header(String),
    Item(Entry),
}

impl View for LineKind {
    type V = LineV;

    open spec fn view(&self) -> LineV {
        match self {
            LineKind::Blank => LineV::Blank,
            LineKind::Header(s) => LineV::Header(s@),
            LineKind::Item(en) => LineV::Item(en@),
        }
    }
}

pub open spec fn err_view(x: (Expected, usize)) -> (Expected, int) {
    (x.0, x.1 as int)
}

pub open spec fn prepend_args(
    p: Seq<ArgV>,
    r: Result<(Seq<ArgV>, int), (Expected, int)>,
) -> Result<(Seq<ArgV>, int), (Expected, int)> {
    match r {
        Ok((rest, end)) => Ok((p + rest, end)),
        Err(x) => Err(x),
    }
}

proof fn lemma_digits_value_monotone(l: Seq<char>, i: int, j: int, k: int)
    requires
        i <= j <= k,
    ensures
        digits_value(l, i, j) <= digits_value(l, i, k),
    decreases k - j,
{
    if j < k {
        lemma_digits_value_monotone(l, i, j, k - 1);
    }
}

fn exec_number(l: &Vec<char>, q: usize) -> (r: Option<(u64, usize)>)
    requires
        q <= l@.len(),
    ensures
        ({
            let k = scan_digits(l@, q as int);
            match r {
                Some((v, end)) => end == k && v as nat == digits_value(l@, q as int, k),
                None => digits_value(l@, q as int, k) > u64::MAX,
            }
        }),
{
    let k = exec_scan_digits(l, q);
    proof {
        lemma_scan_digits_bounds(l@, q as int);
    }
    let mut v: u64 = 0;
    let mut i = q;
    while i < k
        invariant
            q <= i <= k <= l@.len(),
            k == scan_digits(l@, q as int),
            forall|m: int| q <= m < k ==> is_digit(#[trigger] l@[m]),
            v as nat == digits_value(l@, q as int, i as int),
        decreases k - i,
    {
        let c = l[i];
        assert(is_digit(l@[i as int]));
        let d: u64 = (c as u32 - '0' as u32) as u64;
        assert(d <= 9);
        if v > (u64::MAX - d) / 10 {
            proof {
                assert(v * 10 + d > u64::MAX) by (nonlinear_arith)
                    requires
                        v > (u64::MAX - d) / 10,
                        d <= 9,
                ;
                lemma_digits_value_monotone(l@, q as int, i + 1, k as int);
            }
            return None;
        }
        assert(v * 10 + d <= u64::MAX) by (nonlinear_arith)
            requires
                v <= (u64::MAX - d) / 10,
                d <= 9,
        ;
        v = v * 10 + d;
        i = i + 1;
    }
    Some((v, k))
}

fn exec_arg_at(l: &Vec<char>, q: usize, e: usize) -> (r: Result<(Arg, usize), (Expected, usize)>)
    requires
        q <= l@.len(),
        e <= l@.len(),
    ensures
        match r {
            Ok((a, k)) => k <= l@.len() && arg_at(l@, q as int, e as int) == Ok::<(ArgV, int), (Expected, int)>((a@, k as int)),
            Err(x) => arg_at(l@, q as int, e as int) == Err::<(ArgV, int), (Expected, int)>(err_view(x)),
        },
{
    if q >= e {
        Err((Expected::Argument, q))
    } else if l[q] == '"' {
        let c = exec_find_char(l, q + 1, '"');
        if c >= e {
            Err((Expected::ClosingQuote, q))
        } else {
            proof {
                lemma_find_char_bounds(l@, q + 1, '"');
            }
            Ok((Arg::Text(string_of(l, q + 1, c)), c + 1))
        }
    } else if exec_is_digit(l[q]) {
        proof {
            lemma_scan_digits_bounds(l@, q as int);
        }
        match exec_number(l, q) {
            None => Err((Expected::SmallerNumber, q)),
            Some((v, k)) => Ok((Arg::Number(v), k)),
        }
    } else if exec_is_ident_start(l[q]) {
        let k = exec_scan_ident(l, q);
        proof {
            lemma_scan_ident_bounds(l@, q as int);
        }
        Ok((Arg::Ident(string_of(l, q, k)), k))
    } else {
        Err((Expected::Argument, q))
    }
}

fn exec_args_from(l: &Vec<char>, q0: usize, e: usize) -> (r: Result<(Vec<Arg>, usize), (Expected, usize)>)
    requires
        q0 <= l@.len(),
        e <= l@.len(),
    ensures
        match r {
            Ok((a, k)) => k <= l@.len() && args_from(l@, q0 as int, e as int) == Ok::<(Seq<ArgV>, int), (Expected, int)>((args_view(a@), k as int)),
            Err(x) => args_from(l@, q0 as int, e as int) == Err::<(Seq<ArgV>, int), (Expected, int)>(err_view(x)),
        },
{
    let mut acc: Vec<Arg> = Vec::new();
    let mut q = q0;
    assert(prepend_args(args_view(acc@), args_from(l@, q as int, e as int)) == args_from(l@, q0 as int, e as int)) by {
        match args_from(l@, q as int, e as int) {
            Ok((rest, end)) => { assert(args_view(acc@) + rest =~= rest); },
            Err(x) => {},
        }
    }
    loop
        invariant
            q <= l@.len(),
            e <= l@.len(),
            args_from(l@, q0 as int, e as int) == prepend_args(args_view(acc@), args_from(l@, q as int, e as int)),
        decreases l@.len() - q,
    {
        if q >= e {
            return Err((Expected::Argument, q));
        }
        let (a, after) = match exec_arg_at(l, q, e) {
            Err(x) => {
                return Err(x);
            },
            Ok(p) => p,
        };
        proof {
            reveal_with_fuel(args_from, 1);
        }
        let r = exec_skip_ws(l, after);
        if r >= e {
            return Err((Expected::CommaOrParen, r));
        }
        let ghost prev = acc@;
        if l[r] == ')' {
            acc.push(a);
            assert(args_view(acc@) =~= args_view(prev) + seq![a@]);
            return Ok((acc, r + 1));
        } else if l[r] == ',' {
            let q2 = exec_skip_ws(l, r + 1);
            proof {
                lemma_arg_at_advances(l@, q as int, e as int);
                lemma_skip_ws_bounds(l@, after as int);
                lemma_skip_ws_bounds(l@, r + 1);
            }
            acc.push(a);
            assert(args_view(acc@) =~= args_view(prev) + seq![a@]);
            proof {
                match args_from(l@, q2 as int, e as int) {
                    Ok((rest, end)) => {
                        assert(args_view(prev) + (seq![a@] + rest) =~= args_view(acc@) + rest);
                    },
                    Err(x) => {},
                }
            }
            q = q2;
        } else {
            return Err((Expected::CommaOrParen, r));
        }
    }
}

fn exec_arg_list(l: &Vec<char>, i: usize, e: usize) -> (r: Result<(Vec<Arg>, usize), (Expected, usize)>)
    requires
        i <= l@.len(),
        e <= l@.len(),
    ensures
        match r {
            Ok((a, k)) => k <= l@.len() && arg_list(l@, i as int, e as int) == Ok::<(Seq<ArgV>, int), (Expected, int)>((args_view(a@), k as int)),
            Err(x) => arg_list(l@, i as int, e as int) == Err::<(Seq<ArgV>, int), (Expected, int)>(err_view(x)),
        },
{
    let q = exec_skip_ws(l, i);
    proof {
        lemma_skip_ws_bounds(l@, i as int);
    }
    if q < e && l[q] == ')' {
        let empty: Vec<Arg> = Vec::new();
        assert(args_view(empty@) =~= seq![]);
        Ok((empty, q + 1))
    } else {
        exec_args_from(l, q, e)
    }
}

pub open spec fn line_res_view(r: Result<LineKind, (Expected, usize)>) -> Result<LineV, (Expected, int)> {
    match r {
        Ok(k) => Ok(k@),
        Err(x) => Err(err_view(x)),
    }
}

fn exec_directive_line(l: &Vec<char>, i: usize, e: usize) -> (r: Result<LineKind, (Expected, usize)>)
    requires
        i <= l@.len(),
        e <= l@.len(),
    ensures
        line_res_view(r) == directive_line(l@, i as int, e as int),
{
    let k = exec_scan_ident(l, i);
    if k == i {
        return Err((Expected::Keyword, i));
    }
    proof {
        lemma_scan_ident_bounds(l@, i as int);
    }
    let p = exec_skip_ws(l, k);
    proof {
        lemma_skip_ws_bounds(l@, k as int);
    }
    let keyword = string_of(l, i, k);
    if p >= e {
        let args: Vec<Arg> = Vec::new();
        assert(args_view(args@) =~= seq![]);
        Ok(LineKind::Item(Entry::Directive { keyword, args }))
    } else if l[p] != '(' {
        Err((Expected::OpenParen, p))
    } else {
        match exec_arg_list(l, p + 1, e) {
            Err(x) => Err(x),
            Ok((args, end)) => {
                let z = exec_skip_ws(l, end);
                if z < e {
                    Err((Expected::EndOfLine, z))
                } else {
                    Ok(LineKind::Item(Entry::Directive { keyword, args }))
                }
            },
        }
    }
}

fn exec_header_line(l: &Vec<char>, i: usize, e: usize) -> (r: Result<LineKind, (Expected, usize)>)
    requires
        i <= l@.len(),
        e <= l@.len(),
    ensures
        line_res_view(r) == header_line(l@, i as int, e as int),
{
    let n = exec_skip_ws(l, i);
    proof {
        lemma_skip_ws_bounds(l@, i as int);
    }
    let k = exec_scan_ident(l, n);
    proof {
        lemma_scan_ident_bounds(l@, n as int);
    }
    if k == n {
        Err((Expected::SceneName, n))
    } else if k < e {
        Err((Expected::EndOfLine, k))
    } else {
        Ok(LineKind::Header(string_of(l, n, k)))
    }
}

fn exec_dialogue_line(l: &Vec<char>, s: usize, e: usize) -> (r: Result<LineKind, (Expected, usize)>)
    requires
        s <= e <= l@.len(),
    ensures
        line_res_view(r) == dialogue_line(l@, s as int, e as int),
{
    let c = exec_find_char(l, s, ':');
    proof {
        lemma_find_char_bounds(l@, s as int, ':');
    }
    if c >= e {
        return Err((Expected::Colon, e));
    }
    let se = exec_trim_end(l, s, c);
    proof {
        lemma_trim_end_bounds(l@, s as int, c as int);
    }
    if se == s {
        return Err((Expected::Speaker, s));
    }
    let t = exec_skip_ws(l, c + 1);
    let ts = if t < e { t } else { e };
    let speaker = string_of(l, s, se);
    let text = string_of(l, ts, e);
    Ok(LineKind::Item(Entry::Dialogue { speaker, text }))
}

/// Reads one line of a script: blank, a scene header, or a statement line; or what
/// was expected and at which 0-based column.
pub fn read_line(l: &Vec<char>) -> (r: Result<LineKind, (Expected, usize)>)
    ensures
        line_res_view(r) == parse_line(l@),
{
    let s = exec_skip_ws(l, 0);
    proof {
        lemma_skip_ws_bounds(l@, 0);
    }
    let e = exec_trim_end(l, s, l.len());
    proof {
        lemma_trim_end_bounds(l@, s as int, l@.len() as int);
    }
    if s == e || l[s] == '#' {
        Ok(LineKind::Blank)
    } else if l[s] == ':' && s + 1 < e && l[s + 1] == ':' {
        exec_header_line(l, s + 2, e)
    } else if l[s] == '@' {
        exec_directive_line(l, s + 1, e)
    } else {
        exec_dialogue_line(l, s, e)
    }
}

pub open spec fn rows_view(v: Seq<Vec<char>>) -> Seq<Seq<char>> {
    v.map_values(|x: Vec<char>| x@)
}

/// The lines of `src`, split at each `'\n'`.
pub fn split_into_lines(src: &Vec<char>) -> (r: Vec<Vec<char>>)
    ensures
        rows_view(r@) == split_lines(src@),
{
    let mut done: Vec<Vec<char>> = Vec::new();
    let mut cur: Vec<char> = Vec::new();
    let mut i: usize = 0;
    assert(src@.take(0) =~= Seq::<char>::empty());
    assert(rows_view(done@).push(cur@) =~= seq![Seq::<char>::empty()]);
    while i < src.len()
        invariant
            i <= src@.len(),
            split_lines(src@.take(i as int)) == rows_view(done@).push(cur@),
        decreases src@.len() - i,
    {
        let c = src[i];
        assert(src@.take(i + 1).drop_last() =~= src@.take(i as int));
        assert(src@.take(i + 1).last() == c);
        let ghost before = rows_view(done@).push(cur@);
        if c == '\n' {
            let finished = cur;
            cur = Vec::new();
            done.push(finished);
            assert(rows_view(done@).push(cur@) =~= before.push(Seq::<char>::empty()));
        } else {
            cur.push(c);
            assert(rows_view(done@).push(cur@) =~= before.update(before.len() - 1, before.last().push(c)));
        }
        i = i + 1;
    }
    assert(src@.take(src@.len() as int) =~= src@);
    done.push(cur);
    assert(rows_view(done@) =~= split_lines(src@));
    done
}

proof fn lemma_parse_lines_err_stays(ls: Seq<Seq<char>>, n: int, m: int)
    requires
        0 <= n <= m,
        parse_lines(ls, n) is Err,
    ensures
        parse_lines(ls, m) == parse_lines(ls, n),
    decreases m - n,
{
    if m > n {
        lemma_parse_lines_err_stays(ls, n, m - 1);
    }
}

pub open spec fn open_view(
    done: Seq<ParsedScene>,
    open: bool,
    name: Seq<char>,
    line: nat,
    items: Seq<ParsedLine>,
) -> Seq<ParsedSceneV> {
    if open {
        parsed_scenes_view(done).push(ParsedSceneV { name, line, items: lines_view(items) })
    } else {
        parsed_scenes_view(done)
    }
}

/// Reads a whole script into its parse tree: the scenes in order, each with its
/// statement lines; or the first syntax error.
pub fn parse(src: &str) -> (r: Result<Vec<ParsedScene>, SyntaxError>)
    ensures
        match r {
            Ok(v) => parse_spec(src@) == Ok::<Seq<ParsedSceneV>, SyntaxErrorV>(parsed_scenes_view(v@)),
            Err(x) => parse_spec(src@) == Err::<Seq<ParsedSceneV>, SyntaxErrorV>(x@),
        },
{
    let chars = crate::text::chars_of(src);
    let rows = split_into_lines(&chars);
    let ghost ls = split_lines(src@);
    let mut done: Vec<ParsedScene> = Vec::new();
    let mut open = false;
    let mut cur_name = String::new();
    let mut cur_line: usize = 0;
    let mut cur_items: Vec<ParsedLine> = Vec::new();
    let mut n: usize = 0;
    assert(parsed_scenes_view(done@) =~= seq![]);
    while n < rows.len()
        invariant
            ls == split_lines(src@),
            rows_view(rows@) == ls,
            n <= rows@.len(),
            !open ==> done@.len() == 0,
            parse_lines(ls, n as int) == Ok::<Seq<ParsedSceneV>, SyntaxErrorV>(
                open_view(done@, open, cur_name@, cur_line as nat, cur_items@),
            ),
        decreases rows@.len() - n,
    {
        let row = &rows[n];
        assert(row@ == ls[n as int]);
        let ghost sc = open_view(done@, open, cur_name@, cur_line as nat, cur_items@);
        match read_line(row) {
            Err((x, col)) => {
                proof {
                    lemma_parse_lines_err_stays(ls, n + 1, ls.len() as int);
                }
                let err = SyntaxError { line: n + 1, column: col, expected: x };
                assert(parse_lines(ls, ls.len() as int) == parse_lines(ls, n + 1));
                assert(ls == split_lines(src@));
                assert(parse_spec(src@) == parse_lines(split_lines(src@), split_lines(src@).len() as int));
                assert(parse_spec(src@) == Err::<Seq<ParsedSceneV>, SyntaxErrorV>(err@));
                return Err(err);
            },
            Ok(LineKind::Blank) => {},
            Ok(LineKind::Header(name)) => {
                if open {
                    let finished = ParsedScene { name: cur_name, line: cur_line, items: cur_items };
                    done.push(finished);
                    assert(parsed_scenes_view(done@) =~= sc);
                }
                open = true;
                cur_name = name;
                cur_line = n + 1;
                cur_items = Vec::new();
                assert(lines_view(cur_items@) =~= seq![]);
                assert(open_view(done@, open, cur_name@, cur_line as nat, cur_items@) =~= sc.push(
                    ParsedSceneV { name: cur_name@, line: (n + 1) as nat, items: seq![] },
                ));
            },
            Ok(LineKind::Item(entry)) => {
                if !open {
                    let col = exec_skip_ws(row, 0);
                    proof {
                        lemma_parse_lines_err_stays(ls, n + 1, ls.len() as int);
                    }
                    return Err(SyntaxError { line: n + 1, column: col, expected: Expected::SceneHeader });
                }
                let ghost en = entry@;
                cur_items.push(ParsedLine { line: n + 1, entry });
                assert(lines_view(cur_items@) =~= sc.last().items.push(ParsedLineV { line: (n + 1) as nat, entry: en }));
                assert(open_view(done@, open, cur_name@, cur_line as nat, cur_items@) =~= sc.update(
                    sc.len() - 1,
                    ParsedSceneV {
                        name: sc.last().name,
                        line: sc.last().line,
                        items: sc.last().items.push(ParsedLineV { line: (n + 1) as nat, entry: en }),
                    },
                ));
            },
        }
        n = n + 1;
    }
    if open {
        done.push(ParsedScene { name: cur_name, line: cur_line, items: cur_items });
    }
    proof {
        lemma_split_lines_nonempty(src@);
    }
    assert(parsed_scenes_view(done@) =~= parse_spec(src@)->Ok_0);
    Ok(done)
}

} // verus!

//! The typed program a script compiles to: statements and the expressions they carry.
use vstd::prelude::*;
use crate::character::{CharacterChangeMessage, CharacterChangeMessageV};
use crate::text::{exec_scan_alnum, lemma_scan_alnum_bounds, scan_alnum, string_of};

verus! {

/// A piece of a line of text: literal characters, or a variable to look up when the
/// line is shown.
#[derive(Debug, Clone, PartialEq, Eq)]
pub enum Segment {
    Text(String),
    Var(String),
}

pub enum SegmentV {
    Text(Seq<char>),
    Var(Seq<char>),
}

impl View for Segment {
    type V = SegmentV;

    open spec fn view(&self) -> SegmentV {
        match self {
            Segment::Text(s) => SegmentV::Text(s@),
            Segment::Var(s) => SegmentV::Var(s@),
        }
    }
}

pub open spec fn segments_view(v: Seq<Segment>) -> Seq<SegmentV> {
    v.map_values(|s: Segment| s@)
}

/// A line of text as written, split into literal pieces and variable references.
#[derive(Debug, Clone, PartialEq, Eq)]
pub struct Expression {
    pub segments: Vec<Segment>,
}

impl View for Expression {
    type V = Seq<SegmentV>;

    open spec fn view(&self) -> Seq<SegmentV> {
        segments_view(self.segments@)
    }
}

/// Whether a variable marker `[_NAME_]` starts at `i`; `NAME` is one or more ASCII
/// letters or digits.
pub open spec fn marker_at(t: Seq<char>, i: int) -> bool {
    &&& 0 <= i
    &&& i + 1 < t.len()
    &&& t[i] == '['
    &&& t[i + 1] == '_'
    &&& scan_alnum(t, i + 2) > i + 2
    &&& scan_alnum(t, i + 2) + 1 < t.len()
    &&& t[scan_alnum(t, i + 2)] == '_'
    &&& t[scan_alnum(t, i + 2) + 1] == ']'
}

/// The first position at or after `i` where a marker starts, or the end.
pub open spec fn next_marker(t: Seq<char>, i: int) -> int
    decreases t.len() - i,
{
    if i < 0 || i >= t.len() {
        if i < 0 { 0 } else { t.len() as int }
    } else if marker_at(t, i) {
        i
    } else {
        next_marker(t, i + 1)
    }
}

/// The pieces of `t` from position `i` on: each run of text up to the next marker,
/// then the marker's variable.
pub open spec fn segments_from(t: Seq<char>, i: int) -> Seq<SegmentV>
    decreases t.len() - i,
{
    if i < 0 || i >= t.len() {
        seq![]
    } else {
        let j = next_marker(t, i);
        if i < j && j <= t.len() {
            seq![SegmentV::Text(t.subrange(i, j))] + segments_from(t, j)
        } else if marker_at(t, i) {
            let k = scan_alnum(t, i + 2);
            seq![SegmentV::Var(t.subrange(i + 2, k))] + segments_from(t, k + 2)
        } else {
            seq![]
        }
    }
}

/// The expression a line of text is read as.
pub open spec fn parse_expression(t: Seq<char>) -> Seq<SegmentV> {
    segments_from(t, 0)
}

proof fn lemma_next_marker(t: Seq<char>, i: int)
    requires
        0 <= i <= t.len(),
    ensures
        i <= next_marker(t, i) <= t.len(),
        next_marker(t, i) == i && i < t.len() ==> marker_at(t, i),
    decreases t.len() - i,
{
    if i < t.len() && !marker_at(t, i) {
        lemma_next_marker(t, i + 1);
    }
}

fn exec_marker_at(t: &Vec<char>, i: usize) -> (r: bool)
    requires
        i <= t@.len(),
    ensures
        r == marker_at(t@, i as int),
{
    if i < t.len() && i + 1 < t.len() && t[i] == '[' && t[i + 1] == '_' {
        let k = exec_scan_alnum(t, i + 2);
        k > i + 2 && k < t.len() && k + 1 < t.len() && t[k] == '_' && t[k + 1] == ']'
    } else {
        false
    }
}

fn exec_next_marker(t: &Vec<char>, i: usize) -> (r: usize)
    requires
        i <= t@.len(),
    ensures
        r == next_marker(t@, i as int),
{
    let mut j = i;
    while j < t.len() && !exec_marker_at(t, j)
        invariant
            i <= j <= t@.len(),
            next_marker(t@, i as int) == next_marker(t@, j as int),
        decreases t@.len() - j,
    {
        j = j + 1;
    }
    j
}

impl Expression {
    /// Reads a line of text: `[_NAME_]` refers to the variable `NAME`, all else is
    /// literal text.
    pub fn parse(text: &str) -> (r: Expression)
        ensures
            r@ == parse_expression(text@),
    {
        let t = crate::text::chars_of(text);
        let mut segments: Vec<Segment> = Vec::new();
        let mut i: usize = 0;
        assert(segments_view(segments@) + segments_from(t@, 0) =~= segments_from(t@, 0));
        while i < t.len()
            invariant
                t@ == text@,
                i <= t@.len(),
                segments_view(segments@) + segments_from(t@, i as int) == parse_expression(text@),
            decreases t@.len() - i,
        {
            let ghost prev = segments_view(segments@);
            let j = exec_next_marker(&t, i);
            proof {
                lemma_next_marker(t@, i as int);
            }
            if j > i {
                segments.push(Segment::Text(string_of(&t, i, j)));
                assert(segments_view(segments@) =~= prev + seq![SegmentV::Text(t@.subrange(i as int, j as int))]);
                assert(segments_view(segments@) + segments_from(t@, j as int) =~= prev + segments_from(t@, i as int));
                i = j;
            } else {
                let k = exec_scan_alnum(&t, i + 2);
                proof {
                    lemma_scan_alnum_bounds(t@, i + 2);
                }
                segments.push(Segment::Var(string_of(&t, i + 2, k)));
                assert(segments_view(segments@) =~= prev + seq![SegmentV::Var(t@.subrange(i + 2, k as int))]);
                assert(segments_view(segments@) + segments_from(t@, k + 2) =~= prev + segments_from(t@, i as int));
                i = k + 2;
            }
        }
        Expression { segments }
    }

    /// A copy of this expression.
    pub fn duplicate(&self) -> (r: Expression)
        ensures
            r@ == self@,
    {
        let mut segments: Vec<Segment> = Vec::new();
        let mut i: usize = 0;
        while i < self.segments.len()
            invariant
                i <= self.segments@.len(),
                segments@.len() == i,
                forall|k: int| 0 <= k < i ==> (#[trigger] segments@[k])@ == self.segments@[k]@,
            decreases self.segments@.len() - i,
        {
            let s = match &self.segments[i] {
                Segment::Text(x) => Segment::Text(x.clone()),
                Segment::Var(x) => Segment::Var(x.clone()),
            };
            segments.push(s);
            i = i + 1;
        }
        assert(segments_view(segments@) =~= segments_view(self.segments@));
        Expression { segments }
    }
}

/// A line of dialogue: who speaks, and what.
#[derive(Debug, Clone, PartialEq, Eq)]
pub struct Dialogue {
    /// The speaker as written; `[_PLAYERNAME_]` stands for the player.
    pub character: String,
    pub dialogue: Expression,
}

pub struct DialogueV {
    pub character: Seq<char>,
    pub dialogue: Seq<SegmentV>,
}

impl View for Dialogue {
    type V = DialogueV;

    open spec fn view(&self) -> DialogueV {
        DialogueV { character: self.character@, dialogue: self.dialogue@ }
    }
}

/// One step of a scene.
#[derive(Debug, Clone, PartialEq, Eq)]
pub enum Statement {
    /// A character says a line.
    Dialogue(Dialogue),
    /// Play goes on in the scene of that name.
    Jump(String),
    /// The background changes to the image of that name.
    Background(String),
    /// A pause, in milliseconds.
    Wait(u64),
    /// Something happens to a character on stage.
    Character(CharacterChangeMessage),
}

pub enum StatementV {
    Dialogue(DialogueV),
    Jump(Seq<char>),
    Background(Seq<char>),
    Wait(u64),
    Character(CharacterChangeMessageV),
}

impl View for Statement {
    type V = StatementV;

    open spec fn view(&self) -> StatementV {
        match self {
            Statement::Dialogue(d) => StatementV::Dialogue(d@),
            Statement::Jump(s) => StatementV::Jump(s@),
            Statement::Background(s) => StatementV::Background(s@),
            Statement::Wait(n) => StatementV::Wait(*n),
            Statement::Character(m) => StatementV::Character(m@),
        }
    }
}

pub open spec fn statements_view(v: Seq<Statement>) -> Seq<StatementV> {
    v.map_values(|s: Statement| s@)
}

impl Statement {
    /// Whether this is a line of dialogue.
    pub open spec fn is_dialogue_spec(&self) -> bool {
        self is Dialogue
    }

    /// A copy of this statement.
    pub fn duplicate(&self) -> (r: Statement)
        ensures
            r@ == self@,
    {
        match self {
            Statement::Dialogue(d) => Statement::Dialogue(
                Dialogue { character: d.character.clone(), dialogue: d.dialogue.duplicate() },
            ),
            Statement::Jump(s) => Statement::Jump(s.clone()),
            Statement::Background(s) => Statement::Background(s.clone()),
            Statement::Wait(n) => Statement::Wait(*n),
            Statement::Character(m) => Statement::Character(m.duplicate()),
        }
    }
}

} // verus!

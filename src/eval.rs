//! Evaluation of expressions against the values the host binds to variables.
use vstd::prelude::*;
use crate::ast::{parse_expression, Dialogue, Expression, Segment, SegmentV};
use crate::text::same_text;

verus! {

/// The variable that holds the player's name.
pub const PLAYER_NAME: &'static str = "PLAYERNAME";

/// A value bound to a variable name.
#[derive(Debug, Clone, PartialEq, Eq)]
pub struct Binding {
    pub name: String,
    pub value: String,
}

/// The values of variables, as the host supplies them for one evaluation.
/// When a name is bound more than once, the latest binding counts.
#[derive(Debug, Clone, PartialEq, Eq)]
pub struct Bindings {
    entries: Vec<Binding>,
}

impl View for Bindings {
    type V = Seq<(Seq<char>, Seq<char>)>;

    closed spec fn view(&self) -> Seq<(Seq<char>, Seq<char>)> {
        self.entries@.map_values(|b: Binding| (b.name@, b.value@))
    }
}

/// The value of `name` among the first `n` bindings: the latest one of that name.
pub open spec fn lookup_in(b: Seq<(Seq<char>, Seq<char>)>, name: Seq<char>, n: int) -> Option<Seq<char>>
    decreases n,
{
    if n <= 0 {
        None
    } else if b[n - 1].0 == name {
        Some(b[n - 1].1)
    } else {
        lookup_in(b, name, n - 1)
    }
}

pub open spec fn lookup(b: Seq<(Seq<char>, Seq<char>)>, name: Seq<char>) -> Option<Seq<char>> {
    lookup_in(b, name, b.len() as int)
}

/// A variable that no binding gives a value.
#[derive(Debug, Clone, PartialEq, Eq)]
pub enum EvaluationError {
    UnresolvedVariable(String),
}

/// The text of the first `n` pieces, or the name of the first variable that has no value.
pub open spec fn eval_prefix(segs: Seq<SegmentV>, b: Seq<(Seq<char>, Seq<char>)>, n: int) -> Result<Seq<char>, Seq<char>>
    decreases n,
{
    if n <= 0 {
        Ok(seq![])
    } else {
        match eval_prefix(segs, b, n - 1) {
            Err(v) => Err(v),
            Ok(s) => match segs[n - 1] {
                SegmentV::Text(t) => Ok(s + t),
                SegmentV::Var(v) => match lookup(b, v) {
                    Some(x) => Ok(s + x),
                    None => Err(v),
                },
            },
        }
    }
}

/// The text an expression shows under bindings `b`: its pieces in order, each
/// variable replaced by its value; or the first variable without one.
pub open spec fn evaluate_spec(segs: Seq<SegmentV>, b: Seq<(Seq<char>, Seq<char>)>) -> Result<Seq<char>, Seq<char>> {
    eval_prefix(segs, b, segs.len() as int)
}

/// The name shown for a speaker: when the speaker is written as one variable marker
/// and that variable has a value, the value; otherwise the speaker as written.
pub open spec fn speaker_shown(c: Seq<char>, b: Seq<(Seq<char>, Seq<char>)>) -> Seq<char> {
    let segs = parse_expression(c);
    if segs.len() == 1 && segs[0] is Var && lookup(b, segs[0]->Var_0) is Some {
        lookup(b, segs[0]->Var_0)->Some_0
    } else {
        c
    }
}

impl Bindings {
    /// No variable bound.
    pub fn new() -> (r: Bindings)
        ensures
            r@ == Seq::<(Seq<char>, Seq<char>)>::empty(),
    {
        let r = Bindings { entries: Vec::new() };
        assert(r@ =~= Seq::<(Seq<char>, Seq<char>)>::empty());
        r
    }

    /// Binds `value` to `name`, over any earlier binding of that name.
    pub fn bind(&mut self, name: &str, value: &str)
        ensures
            final(self)@ == old(self)@.push((name@, value@)),
    {
        let b = Binding { name: name.to_owned(), value: value.to_owned() };
        self.entries.push(b);
        assert(self@ =~= old(self)@.push((name@, value@)));
    }

    /// The bindings that give the player's name.
    pub fn with_player_name(player: &str) -> (r: Bindings)
        ensures
            r@ == seq![(PLAYER_NAME@, player@)],
    {
        let mut b = Bindings::new();
        b.bind(PLAYER_NAME, player);
        assert(b@ =~= seq![(PLAYER_NAME@, player@)]);
        b
    }

    /// The value bound last to `name`, if any.
    pub fn lookup(&self, name: &str) -> (r: Option<String>)
        ensures
            match r {
                Some(s) => lookup(self@, name@) == Some(s@),
                None => lookup(self@, name@) is None,
            },
    {
        let mut n = self.entries.len();
        while n > 0
            invariant
                n <= self.entries@.len(),
                lookup(self@, name@) == lookup_in(self@, name@, n as int),
            decreases n,
        {
            let e = &self.entries[n - 1];
            if same_text(e.name.as_str(), name) {
                return Some(e.value.clone());
            }
            n = n - 1;
        }
        None
    }
}

impl Expression {
    /// The text this expression shows under `bindings`.
    pub fn evaluate(&self, bindings: &Bindings) -> (r: Result<String, EvaluationError>)
        ensures
            match r {
                Ok(s) => evaluate_spec(self@, bindings@) == Ok::<Seq<char>, Seq<char>>(s@),
                Err(EvaluationError::UnresolvedVariable(v)) => evaluate_spec(self@, bindings@) == Err::<Seq<char>, Seq<char>>(v@),
            },
    {
        let mut out = String::new();
        let mut i: usize = 0;
        while i < self.segments.len()
            invariant
                i <= self.segments@.len(),
                eval_prefix(self@, bindings@, i as int) == Ok::<Seq<char>, Seq<char>>(out@),
            decreases self.segments@.len() - i,
        {
            match &self.segments[i] {
                Segment::Text(t) => {
                    out.append(t.as_str());
                },
                Segment::Var(v) => {
                    match bindings.lookup(v.as_str()) {
                        Some(x) => {
                            out.append(x.as_str());
                        },
                        None => {
                            proof {
                                lemma_eval_err_stays(self@, bindings@, i + 1, self@.len() as int);
                            }
                            return Err(EvaluationError::UnresolvedVariable(v.clone()));
                        },
                    }
                },
            }
            i = i + 1;
        }
        Ok(out)
    }
}

proof fn lemma_eval_err_stays(segs: Seq<SegmentV>, b: Seq<(Seq<char>, Seq<char>)>, n: int, m: int)
    requires
        0 <= n <= m,
        eval_prefix(segs, b, n) is Err,
    ensures
        eval_prefix(segs, b, m) == eval_prefix(segs, b, n),
    decreases m - n,
{
    if m > n {
        lemma_eval_err_stays(segs, b, n, m - 1);
    }
}

impl Dialogue {
    /// The speaker's name as shown: `[_PLAYERNAME_]` becomes the player's name.
    pub fn speaker_name(&self, bindings: &Bindings) -> (r: String)
        ensures
            r@ == speaker_shown(self.character@, bindings@),
    {
        let e = Expression::parse(self.character.as_str());
        if e.segments.len() == 1 {
            if let Segment::Var(v) = &e.segments[0] {
                if let Some(x) = bindings.lookup(v.as_str()) {
                    return x;
                }
            }
        }
        self.character.clone()
    }
}

} // verus!

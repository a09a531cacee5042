//! The history panel: the log of an act rendered as lines of text.
use vstd::prelude::*;
use crate::ast::{DialogueV, Statement, StatementV};
use crate::eval::{evaluate_spec, Bindings, EvaluationError};
use crate::playback::{history_view, Act, HistoryItem, HistoryItemV};

verus! {

/// How a line of dialogue shows in the history: `speaker: text`.
pub open spec fn summary_line(speaker: Seq<char>, text: Seq<char>) -> Seq<char> {
    speaker + ": "@ + text
}

/// The lines for the first `n` log entries, or the first variable without a value.
pub open spec fn summary_prefix(h: Seq<HistoryItemV>, b: Seq<(Seq<char>, Seq<char>)>, n: int) -> Result<Seq<Seq<char>>, Seq<char>>
    decreases n,
{
    if n <= 0 {
        Ok(seq![])
    } else {
        match summary_prefix(h, b, n - 1) {
            Err(v) => Err(v),
            Ok(lines) => match h[n - 1] {
                HistoryItemV::Descriptor(t) => Ok(lines.push(t)),
                HistoryItemV::Statement(StatementV::Dialogue(d)) => match evaluate_spec(d.dialogue, b) {
                    Ok(text) => Ok(lines.push(summary_line(d.character, text))),
                    Err(v) => Err(v),
                },
                HistoryItemV::Statement(_) => Ok(lines),
            },
        }
    }
}

/// The history as shown: one line per dialogue entry, its text evaluated under `b`,
/// and each descriptor as it is, in the order of the log.
pub open spec fn summary_spec(h: Seq<HistoryItemV>, b: Seq<(Seq<char>, Seq<char>)>) -> Result<Seq<Seq<char>>, Seq<char>> {
    summary_prefix(h, b, h.len() as int)
}

pub open spec fn texts_view(v: Seq<String>) -> Seq<Seq<char>> {
    v.map_values(|s: String| s@)
}

proof fn lemma_summary_err_stays(h: Seq<HistoryItemV>, b: Seq<(Seq<char>, Seq<char>)>, n: int, m: int)
    requires
        0 <= n <= m,
        summary_prefix(h, b, n) is Err,
    ensures
        summary_prefix(h, b, m) == summary_prefix(h, b, n),
    decreases m - n,
{
    if m > n {
        lemma_summary_err_stays(h, b, n, m - 1);
    }
}

/// Renders a history log: one line per dialogue entry, `speaker: text`, with the
/// text evaluated under `bindings` now; each descriptor as it is; other statements
/// leave no line.
pub fn summarize(history: &Vec<HistoryItem>, bindings: &Bindings) -> (r: Result<Vec<String>, EvaluationError>)
    ensures
        match r {
            Ok(v) => summary_spec(history_view(history@), bindings@) == Ok::<Seq<Seq<char>>, Seq<char>>(texts_view(v@)),
            Err(EvaluationError::UnresolvedVariable(x)) => summary_spec(history_view(history@), bindings@)
                == Err::<Seq<Seq<char>>, Seq<char>>(x@),
        },
{
    let ghost h = history_view(history@);
    let mut out: Vec<String> = Vec::new();
    let mut n: usize = 0;
    assert(texts_view(out@) =~= seq![]);
    while n < history.len()
        invariant
            h == history_view(history@),
            n <= history@.len(),
            summary_prefix(h, bindings@, n as int) == Ok::<Seq<Seq<char>>, Seq<char>>(texts_view(out@)),
        decreases history@.len() - n,
    {
        assert(h[n as int] == history@[n as int]@);
        let ghost prev = texts_view(out@);
        match &history[n] {
            HistoryItem::Descriptor(t) => {
                out.push(t.clone());
                assert(texts_view(out@) =~= prev.push(t@));
            },
            HistoryItem::Statement(Statement::Dialogue(d)) => {
                match d.dialogue.evaluate(bindings) {
                    Ok(text) => {
                        let mut line = d.character.clone();
                        line.append(": ");
                        line.append(text.as_str());
                        out.push(line);
                        assert(texts_view(out@) =~= prev.push(summary_line(d.character@, text@)));
                    },
                    Err(e) => {
                        proof {
                            lemma_summary_err_stays(h, bindings@, n + 1, h.len() as int);
                        }
                        return Err(e);
                    },
                }
            },
            HistoryItem::Statement(_) => {},
        }
        n = n + 1;
    }
    Ok(out)
}

impl Act {
    /// The act's history as the history panel shows it, evaluated under `bindings`.
    pub fn summarize_history(&self, bindings: &Bindings) -> (r: Result<Vec<String>, EvaluationError>)
        ensures
            match r {
                Ok(v) => summary_spec(self@.history, bindings@) == Ok::<Seq<Seq<char>>, Seq<char>>(texts_view(v@)),
                Err(EvaluationError::UnresolvedVariable(x)) => summary_spec(self@.history, bindings@)
                    == Err::<Seq<Seq<char>>, Seq<char>>(x@),
            },
    {
        summarize(self.history(), bindings)
    }
}

/// The dialogue entries among the first `n` log entries, in order.
pub open spec fn dialogue_entries(h: Seq<HistoryItemV>, n: int) -> Seq<DialogueV>
    decreases n,
{
    if n <= 0 {
        seq![]
    } else {
        match h[n - 1] {
            HistoryItemV::Statement(StatementV::Dialogue(d)) => dialogue_entries(h, n - 1).push(d),
            _ => dialogue_entries(h, n - 1),
        }
    }
}

proof fn lemma_summary_prefix_lines(h: Seq<HistoryItemV>, b: Seq<(Seq<char>, Seq<char>)>, n: int)
    requires
        0 <= n <= h.len(),
        forall|i: int| 0 <= i < h.len() ==> (#[trigger] h[i]) is Statement,
        summary_prefix(h, b, n) is Ok,
    ensures
        ({
            let lines = summary_prefix(h, b, n)->Ok_0;
            let ds = dialogue_entries(h, n);
            &&& lines.len() == ds.len()
            &&& forall|k: int| 0 <= k < ds.len() ==> evaluate_spec((#[trigger] ds[k]).dialogue, b) is Ok
                && lines[k] == summary_line(ds[k].character, evaluate_spec(ds[k].dialogue, b)->Ok_0)
        }),
    decreases n,
{
    if n > 0 {
        assert(h[n - 1] is Statement);
        lemma_summary_prefix_lines(h, b, n - 1);
    }
}

/// When the log holds only played statements, as an act's log does, the summary has
/// exactly one line per dialogue entry, repeats included, in the order of the log,
/// each `speaker: text` with the text evaluated under the bindings given now.
pub proof fn lemma_summary_lines(h: Seq<HistoryItemV>, b: Seq<(Seq<char>, Seq<char>)>)
    requires
        forall|i: int| 0 <= i < h.len() ==> (#[trigger] h[i]) is Statement,
        summary_spec(h, b) is Ok,
    ensures
        ({
            let lines = summary_spec(h, b)->Ok_0;
            let ds = dialogue_entries(h, h.len() as int);
            &&& lines.len() == ds.len()
            &&& forall|k: int| 0 <= k < ds.len() ==> evaluate_spec((#[trigger] ds[k]).dialogue, b) is Ok
                && lines[k] == summary_line(ds[k].character, evaluate_spec(ds[k].dialogue, b)->Ok_0)
        }),
{
    lemma_summary_prefix_lines(h, b, h.len() as int);
}

} // verus!

//! What the host keeps while a script plays.
use vstd::prelude::*;
use crate::eval::{Bindings, EvaluationError, PLAYER_NAME};
use crate::history::{summary_spec, texts_view};
use crate::playback::{Act, PlaybackError};

verus! {

/// The player's name, the act being played, whether playback waits for an effect on
/// screen to finish (the host sets and clears this flag, and does not advance the
/// act while it is set), and how many steps back a rewind still has to go.
pub struct VisualNovelState {
    pub playername: String,
    pub act: Act,
    pub blocking: bool,
    pub rewinding: usize,
}

impl VisualNovelState {
    /// The state at the start of `act`, for the player called `playername`.
    pub fn new(act: Act, playername: String) -> (r: VisualNovelState)
        ensures
            r.act@ == act@,
            r.playername@ == playername@,
            !r.blocking,
            r.rewinding == 0,
    {
        VisualNovelState { playername, act, blocking: false, rewinding: 0 }
    }

    /// Starts a rewind to the last dialogue before the cursor in its scene: sets how
    /// many steps back remain. When the act cannot rewind, says why and changes nothing.
    pub fn begin_rewind(&mut self) -> (r: Result<(), PlaybackError>)
        requires
            old(self).act@.well_formed(),
        ensures
            final(self).act@ == old(self).act@,
            final(self).playername == old(self).playername,
            final(self).blocking == old(self).blocking,
            match r {
                Ok(()) => old(self).act@.rewind_distance() == Ok::<int, PlaybackError>(final(self).rewinding as int),
                Err(e) => old(self).act@.rewind_distance() == Err::<int, PlaybackError>(e)
                    && final(self).rewinding == old(self).rewinding,
            },
    {
        match self.act.rewind_distance() {
            Ok(d) => {
                self.rewinding = d;
                Ok(())
            },
            Err(e) => Err(e),
        }
    }

    /// Takes one step of a rewind in progress, one per frame so the host can show
    /// each; tells whether a step was taken.
    pub fn rewind_tick(&mut self) -> (r: bool)
        requires
            old(self).act@.well_formed(),
        ensures
            final(self).act@.well_formed(),
            final(self).playername == old(self).playername,
            final(self).blocking == old(self).blocking,
            r == (old(self).rewinding > 0),
            r ==> final(self).rewinding == old(self).rewinding - 1 && final(self).act@ == old(self).act@.stepped_back(),
            !r ==> final(self).rewinding == 0 && final(self).act@ == old(self).act@,
    {
        if self.rewinding == 0 {
            return false;
        }
        self.act.rewind_one_step();
        self.rewinding = self.rewinding - 1;
        true
    }

    /// The history panel's lines, with the player's name as it is now.
    pub fn history_summary(&self) -> (r: Result<Vec<String>, EvaluationError>)
        ensures
            match r {
                Ok(v) => summary_spec(self.act@.history, seq![(PLAYER_NAME@, self.playername@)])
                    == Ok::<Seq<Seq<char>>, Seq<char>>(texts_view(v@)),
                Err(EvaluationError::UnresolvedVariable(x)) => summary_spec(self.act@.history, seq![(PLAYER_NAME@, self.playername@)])
                    == Err::<Seq<Seq<char>>, Seq<char>>(x@),
            },
    {
        let bindings = Bindings::with_player_name(self.playername.as_str());
        self.act.summarize_history(&bindings)
    }
}

} // verus!

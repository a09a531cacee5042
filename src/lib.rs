//! A narrative-script compiler and playback engine.
//!
//! Script text is read into a parse tree (`script`), built into typed scenes and
//! statements (`builder`, `ast`), and loaded as an `Act` (`load`). The host then steps
//! through the act (`playback`), evaluates lines of text under its bindings (`eval`),
//! and shows the history of what was played (`history`).
use vstd::prelude::*;

pub mod text;
pub mod script;
pub mod character;
pub mod ast;
pub mod builder;
pub mod eval;
pub mod playback;
pub mod load;
pub mod history;
pub mod state;

pub use ast::{Dialogue, Expression, Segment, Statement};
pub use builder::{BuildError, DirectiveError};
pub use character::{
    CharacterChangeMessage, CharacterConfig, CharacterDirection, CharacterJsonLoader,
    CharacterOperation, CharacterPosition, SpawnInfo, SpriteKey, StageAction, UnknownEmotion,
    UnknownPosition,
};
pub use eval::{Binding, Bindings, EvaluationError, PLAYER_NAME};
pub use history::summarize;
pub use load::{load, LoadError};
pub use playback::{Act, HistoryItem, PlaybackError, Scene};
pub use script::{parse, Expected, SyntaxError};
pub use state::VisualNovelState;

verus! {

} // verus!

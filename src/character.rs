//! Characters on stage: where they stand, what an actor directive asks of them,
//! and the configuration record a character is described by.
use vstd::prelude::*;
use crate::text::same_text;

verus! {

/// A place on the stage, from far left to far right, and off stage on either side.
#[derive(Debug, Clone, Copy, PartialEq, Eq, Structural)]
pub enum CharacterPosition {
    Center,
    FarLeft,
    FarRight,
    Left,
    Right,
    InvisibleLeft,
    InvisibleRight,
}

/// The name a script uses for each position.
pub open spec fn position_named(s: Seq<char>) -> Option<CharacterPosition> {
    if s == "center"@ {
        Some(CharacterPosition::Center)
    } else if s == "far left"@ {
        Some(CharacterPosition::FarLeft)
    } else if s == "far right"@ {
        Some(CharacterPosition::FarRight)
    } else if s == "left"@ {
        Some(CharacterPosition::Left)
    } else if s == "right"@ {
        Some(CharacterPosition::Right)
    } else if s == "invisible left"@ {
        Some(CharacterPosition::InvisibleLeft)
    } else if s == "invisible right"@ {
        Some(CharacterPosition::InvisibleRight)
    } else {
        None
    }
}

/// A position name that names no position.
#[derive(Debug, Clone, PartialEq, Eq)]
pub struct UnknownPosition {
    pub name: String,
}

impl CharacterPosition {
    /// The position a script names, such as `"far left"`.
    pub fn try_from(value: &str) -> (r: Result<CharacterPosition, UnknownPosition>)
        ensures
            match r {
                Ok(p) => position_named(value@) == Some(p),
                Err(e) => position_named(value@) is None && e.name@ == value@,
            },
    {
        if same_text(value, "center") {
            Ok(CharacterPosition::Center)
        } else if same_text(value, "far left") {
            Ok(CharacterPosition::FarLeft)
        } else if same_text(value, "far right") {
            Ok(CharacterPosition::FarRight)
        } else if same_text(value, "left") {
            Ok(CharacterPosition::Left)
        } else if same_text(value, "right") {
            Ok(CharacterPosition::Right)
        } else if same_text(value, "invisible left") {
            Ok(CharacterPosition::InvisibleLeft)
        } else if same_text(value, "invisible right") {
            Ok(CharacterPosition::InvisibleRight)
        } else {
            Err(UnknownPosition { name: value.to_owned() })
        }
    }
}

/// The way a character faces.
#[derive(Debug, Clone, Copy, PartialEq, Eq, Structural)]
pub enum CharacterDirection {
    Left,
    Right,
}

/// How a character enters the stage.
#[derive(Debug, Clone, PartialEq, Eq)]
pub struct SpawnInfo {
    pub emotion: Option<String>,
    pub position: CharacterPosition,
    pub fading: bool,
}

pub struct SpawnInfoV {
    pub emotion: Option<Seq<char>>,
    pub position: CharacterPosition,
    pub fading: bool,
}

impl View for SpawnInfo {
    type V = SpawnInfoV;

    open spec fn view(&self) -> SpawnInfoV {
        SpawnInfoV {
            emotion: match self.emotion {
                Some(e) => Some(e@),
                None => None,
            },
            position: self.position,
            fading: self.fading,
        }
    }
}

/// What an actor directive does to a character.
#[derive(Debug, Clone, PartialEq, Eq)]
pub enum CharacterOperation {
    Spawn(SpawnInfo),
    EmotionChange(String),
    /// Leaves the stage; fading out when the flag is set.
    Despawn(bool),
    Look(CharacterDirection),
    Move(CharacterPosition),
}

pub enum CharacterOperationV {
    Spawn(SpawnInfoV),
    EmotionChange(Seq<char>),
    Despawn(bool),
    Look(CharacterDirection),
    Move(CharacterPosition),
}

impl View for CharacterOperation {
    type V = CharacterOperationV;

    open spec fn view(&self) -> CharacterOperationV {
        match self {
            CharacterOperation::Spawn(i) => CharacterOperationV::Spawn(i@),
            CharacterOperation::EmotionChange(e) => CharacterOperationV::EmotionChange(e@),
            CharacterOperation::Despawn(f) => CharacterOperationV::Despawn(*f),
            CharacterOperation::Look(d) => CharacterOperationV::Look(*d),
            CharacterOperation::Move(p) => CharacterOperationV::Move(*p),
        }
    }
}

/// An actor directive: which character, and what happens to it.
#[derive(Debug, Clone, PartialEq, Eq)]
pub struct CharacterChangeMessage {
    pub character: String,
    pub operation: CharacterOperation,
}

pub struct CharacterChangeMessageV {
    pub character: Seq<char>,
    pub operation: CharacterOperationV,
}

impl View for CharacterChangeMessage {
    type V = CharacterChangeMessageV;

    open spec fn view(&self) -> CharacterChangeMessageV {
        CharacterChangeMessageV { character: self.character@, operation: self.operation@ }
    }
}

/// Whether an operation plays an effect the player has to wait for: a fade in or a fade out.
pub open spec fn operation_blocks(op: CharacterOperationV) -> bool {
    match op {
        CharacterOperationV::Spawn(info) => info.fading,
        CharacterOperationV::Despawn(fading) => fading,
        _ => false,
    }
}

impl CharacterChangeMessage {
    /// Whether the host has to hold playback until this change has played out.
    pub fn is_blocking(&self) -> (r: bool)
        ensures
            r == operation_blocks(self.operation@),
    {
        match &self.operation {
            CharacterOperation::Spawn(info) => info.fading,
            CharacterOperation::Despawn(fading) => *fading,
            _ => false,
        }
    }

    /// A copy of this message.
    pub fn duplicate(&self) -> (r: CharacterChangeMessage)
        ensures
            r@ == self@,
    {
        let operation = match &self.operation {
            CharacterOperation::Spawn(info) => {
                let emotion = match &info.emotion {
                    Some(e) => Some(e.clone()),
                    None => None,
                };
                CharacterOperation::Spawn(SpawnInfo { emotion, position: info.position, fading: info.fading })
            },
            CharacterOperation::EmotionChange(e) => CharacterOperation::EmotionChange(e.clone()),
            CharacterOperation::Despawn(f) => CharacterOperation::Despawn(*f),
            CharacterOperation::Look(d) => CharacterOperation::Look(*d),
            CharacterOperation::Move(p) => CharacterOperation::Move(*p),
        };
        CharacterChangeMessage { character: self.character.clone(), operation }
    }
}

/// How a character is described: its current outfit and emotion, and those it has.
#[derive(Debug, Clone, PartialEq, Eq, Default)]
pub struct CharacterConfig {
    pub name: String,
    pub outfit: String,
    pub emotion: String,
    pub description: String,
    pub emotions: Vec<String>,
    pub outfits: Vec<String>,
}

impl CharacterConfig {
    /// Whether `emotion` is one of the character's emotions.
    pub fn has_emotion(&self, emotion: &str) -> (r: bool)
        ensures
            r == exists|i: int| 0 <= i < self.emotions@.len() && #[trigger] self.emotions@[i]@ == emotion@,
    {
        let mut i: usize = 0;
        while i < self.emotions.len()
            invariant
                i <= self.emotions@.len(),
                forall|k: int| 0 <= k < i ==> #[trigger] self.emotions@[k]@ != emotion@,
            decreases self.emotions@.len() - i,
        {
            if same_text(self.emotions[i].as_str(), emotion) {
                return true;
            }
            i = i + 1;
        }
        false
    }
}

/// The sprite of a character in an outfit with an emotion.
#[derive(Debug, Clone, PartialEq, Eq, Hash)]
pub struct SpriteKey {
    pub character: String,
    pub outfit: String,
    pub emotion: String,
}

impl CharacterConfig {
    /// The sprite that shows this character, in its current outfit, with `emotion`.
    pub fn sprite_key(&self, emotion: &str) -> (r: SpriteKey)
        ensures
            r.character@ == self.name@,
            r.outfit@ == self.outfit@,
            r.emotion@ == emotion@,
    {
        SpriteKey { character: self.name.clone(), outfit: self.outfit.clone(), emotion: emotion.to_owned() }
    }
}

/// What the stage does for an actor directive, once the character's configuration
/// has been consulted.
#[derive(Debug, Clone, PartialEq, Eq)]
pub enum StageAction {
    /// Put the character on stage with this emotion.
    Spawn { emotion: String, position: CharacterPosition, fading: bool },
    /// Show the character with this emotion.
    ShowEmotion(String),
    /// Take the character off stage.
    Despawn { fading: bool },
    /// Turn the character; its sprite is mirrored when it faces left.
    Face { flip_x: bool },
    /// Move the character to a position.
    MoveTo(CharacterPosition),
}

pub enum StageActionV {
    Spawn { emotion: Seq<char>, position: CharacterPosition, fading: bool },
    ShowEmotion(Seq<char>),
    Despawn { fading: bool },
    Face { flip_x: bool },
    MoveTo(CharacterPosition),
}

impl View for StageAction {
    type V = StageActionV;

    open spec fn view(&self) -> StageActionV {
        match self {
            StageAction::Spawn { emotion, position, fading } => StageActionV::Spawn {
                emotion: emotion@,
                position: *position,
                fading: *fading,
            },
            StageAction::ShowEmotion(e) => StageActionV::ShowEmotion(e@),
            StageAction::Despawn { fading } => StageActionV::Despawn { fading: *fading },
            StageAction::Face { flip_x } => StageActionV::Face { flip_x: *flip_x },
            StageAction::MoveTo(p) => StageActionV::MoveTo(*p),
        }
    }
}

/// An emotion the character does not have.
#[derive(Debug, Clone, PartialEq, Eq)]
pub struct UnknownEmotion {
    pub emotion: String,
}

/// Whether `e` is one of the emotions listed in `emotions`.
pub open spec fn lists_emotion(emotions: Seq<String>, e: Seq<char>) -> bool {
    exists|i: int| 0 <= i < emotions.len() && #[trigger] emotions[i]@ == e
}

/// The stage action for `op` on a character whose current emotion is `current` and
/// whose emotions are `emotions`; a spawn without an emotion keeps the current one,
/// and an emotion change must name one of the character's emotions.
pub open spec fn stage_action(current: Seq<char>, emotions: Seq<String>, op: CharacterOperationV) -> Result<StageActionV, Seq<char>> {
    match op {
        CharacterOperationV::Spawn(info) => Ok(StageActionV::Spawn {
            emotion: match info.emotion {
                Some(e) => e,
                None => current,
            },
            position: info.position,
            fading: info.fading,
        }),
        CharacterOperationV::EmotionChange(e) => if lists_emotion(emotions, e) {
            Ok(StageActionV::ShowEmotion(e))
        } else {
            Err(e)
        },
        CharacterOperationV::Despawn(fading) => Ok(StageActionV::Despawn { fading }),
        CharacterOperationV::Look(d) => Ok(StageActionV::Face { flip_x: d == CharacterDirection::Left }),
        CharacterOperationV::Move(p) => Ok(StageActionV::MoveTo(p)),
    }
}

impl CharacterConfig {
    /// Decides what the stage does for `op` on this character. A spawn sets the
    /// character's current emotion to the one it appears with.
    pub fn plan_change(&mut self, op: &CharacterOperation) -> (r: Result<StageAction, UnknownEmotion>)
        ensures
            match r {
                Ok(a) => stage_action(old(self).emotion@, old(self).emotions@, op@) == Ok::<StageActionV, Seq<char>>(a@),
                Err(u) => stage_action(old(self).emotion@, old(self).emotions@, op@) == Err::<StageActionV, Seq<char>>(u.emotion@),
            },
            final(self).emotion@ == match r {
                Ok(StageAction::Spawn { emotion, .. }) => emotion@,
                _ => old(self).emotion@,
            },
            final(self).name == old(self).name,
            final(self).outfit == old(self).outfit,
            final(self).description == old(self).description,
            final(self).emotions == old(self).emotions,
            final(self).outfits == old(self).outfits,
    {
        match op {
            CharacterOperation::Spawn(info) => {
                let emotion = match &info.emotion {
                    Some(e) => e.clone(),
                    None => self.emotion.clone(),
                };
                self.emotion = emotion.clone();
                Ok(StageAction::Spawn { emotion, position: info.position, fading: info.fading })
            },
            CharacterOperation::EmotionChange(e) => {
                if self.has_emotion(e.as_str()) {
                    Ok(StageAction::ShowEmotion(e.clone()))
                } else {
                    Err(UnknownEmotion { emotion: e.clone() })
                }
            },
            CharacterOperation::Despawn(fading) => Ok(StageAction::Despawn { fading: *fading }),
            CharacterOperation::Look(d) => Ok(StageAction::Face {
                flip_x: match d {
                    CharacterDirection::Left => true,
                    CharacterDirection::Right => false,
                },
            }),
            CharacterOperation::Move(p) => Ok(StageAction::MoveTo(*p)),
        }
    }
}

/// Reads character configuration files, which carry the `json` extension.
#[derive(Debug, Clone, Copy, PartialEq, Eq, Default)]
pub struct CharacterJsonLoader;

impl CharacterJsonLoader {
    /// The file extensions this loader reads.
    pub fn extensions(&self) -> (r: &'static [&'static str])
        ensures
            r@.len() == 1,
            r@[0]@ == "json"@,
    {
        &["json"]
    }
}

} // verus!

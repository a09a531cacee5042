use sabi::{
    Bindings, CharacterChangeMessage, CharacterConfig, CharacterJsonLoader, CharacterOperation,
    CharacterDirection, CharacterPosition, Dialogue, EvaluationError, Expression, SpawnInfo,
    StageAction, UnknownEmotion,
};

fn message(operation: CharacterOperation) -> CharacterChangeMessage {
    CharacterChangeMessage { character: "Amy".to_string(), operation }
}

#[test]
fn positions_by_name() {
    assert_eq!(CharacterPosition::try_from("center"), Ok(CharacterPosition::Center));
    assert_eq!(CharacterPosition::try_from("far left"), Ok(CharacterPosition::FarLeft));
    assert_eq!(CharacterPosition::try_from("far right"), Ok(CharacterPosition::FarRight));
    assert_eq!(CharacterPosition::try_from("left"), Ok(CharacterPosition::Left));
    assert_eq!(CharacterPosition::try_from("right"), Ok(CharacterPosition::Right));
    assert_eq!(CharacterPosition::try_from("invisible left"), Ok(CharacterPosition::InvisibleLeft));
    assert_eq!(CharacterPosition::try_from("invisible right"), Ok(CharacterPosition::InvisibleRight));
    let err = CharacterPosition::try_from("Left").unwrap_err();
    assert_eq!(err.name, "Left");
}

#[test]
fn only_fades_block() {
    let spawn = |fading| {
        message(CharacterOperation::Spawn(SpawnInfo { emotion: None, position: CharacterPosition::Center, fading }))
    };
    assert!(spawn(true).is_blocking());
    assert!(!spawn(false).is_blocking());
    assert!(message(CharacterOperation::Despawn(true)).is_blocking());
    assert!(!message(CharacterOperation::Despawn(false)).is_blocking());
    assert!(!message(CharacterOperation::EmotionChange("sad".to_string())).is_blocking());
    assert!(!message(CharacterOperation::Move(CharacterPosition::Left)).is_blocking());
}

#[test]
fn emotions_of_a_character() {
    let config = CharacterConfig {
        name: "Amy".to_string(),
        outfit: "casual".to_string(),
        emotion: "happy".to_string(),
        description: "A friend".to_string(),
        emotions: vec!["happy".to_string(), "sad".to_string()],
        outfits: vec!["casual".to_string()],
    };
    assert!(config.has_emotion("sad"));
    assert!(!config.has_emotion("angry"));
    assert!(!CharacterConfig::default().has_emotion("happy"));
}

#[test]
fn json_loader_extensions() {
    assert_eq!(CharacterJsonLoader.extensions(), &["json"]);
}

#[test]
fn evaluation_uses_latest_binding() {
    let e = Expression::parse("[_X_]-[_Y_]");
    let mut b = Bindings::new();
    b.bind("X", "1");
    b.bind("Y", "2");
    b.bind("X", "3");
    assert_eq!(e.evaluate(&b).unwrap(), "3-2");
    assert_eq!(b.lookup("X"), Some("3".to_string()));
    assert_eq!(b.lookup("Z"), None);
}

#[test]
fn evaluation_reports_first_missing_variable() {
    let e = Expression::parse("[_A_][_B_]");
    assert_eq!(e.evaluate(&Bindings::new()), Err(EvaluationError::UnresolvedVariable("A".to_string())));
    assert_eq!(Expression::parse("plain").evaluate(&Bindings::new()).unwrap(), "plain");
}

#[test]
fn speaker_placeholder_shows_player_name() {
    let b = Bindings::with_player_name("Sam");
    let player = Dialogue { character: "[_PLAYERNAME_]".to_string(), dialogue: Expression::parse("hi") };
    assert_eq!(player.speaker_name(&b), "Sam");
    assert_eq!(player.speaker_name(&Bindings::new()), "[_PLAYERNAME_]");
    let amy = Dialogue { character: "Amy".to_string(), dialogue: Expression::parse("hi") };
    assert_eq!(amy.speaker_name(&b), "Amy");
}

#[test]
fn duplicate_keeps_statement() {
    let m = message(CharacterOperation::Spawn(SpawnInfo {
        emotion: Some("sad".to_string()),
        position: CharacterPosition::Right,
        fading: true,
    }));
    assert_eq!(m.duplicate(), m);
    let e = Expression::parse("a [_B_] c");
    assert_eq!(e.duplicate(), e);
}

fn amy_config() -> CharacterConfig {
    CharacterConfig {
        name: "Amy".to_string(),
        outfit: "casual".to_string(),
        emotion: "happy".to_string(),
        description: String::new(),
        emotions: vec!["happy".to_string(), "sad".to_string()],
        outfits: vec!["casual".to_string()],
    }
}

#[test]
fn plan_spawn_keeps_or_sets_emotion() {
    let mut config = amy_config();
    let op = CharacterOperation::Spawn(SpawnInfo { emotion: None, position: CharacterPosition::Left, fading: true });
    assert_eq!(
        config.plan_change(&op),
        Ok(StageAction::Spawn { emotion: "happy".to_string(), position: CharacterPosition::Left, fading: true })
    );
    assert_eq!(config.emotion, "happy");
    let op = CharacterOperation::Spawn(SpawnInfo {
        emotion: Some("sad".to_string()),
        position: CharacterPosition::Right,
        fading: false,
    });
    assert_eq!(
        config.plan_change(&op),
        Ok(StageAction::Spawn { emotion: "sad".to_string(), position: CharacterPosition::Right, fading: false })
    );
    assert_eq!(config.emotion, "sad");
}

#[test]
fn plan_rejects_unknown_emotion() {
    let mut config = amy_config();
    assert_eq!(
        config.plan_change(&CharacterOperation::EmotionChange("angry".to_string())),
        Err(UnknownEmotion { emotion: "angry".to_string() })
    );
    assert_eq!(
        config.plan_change(&CharacterOperation::EmotionChange("sad".to_string())),
        Ok(StageAction::ShowEmotion("sad".to_string()))
    );
    assert_eq!(config.emotion, "happy");
}

#[test]
fn plan_other_operations() {
    let mut config = amy_config();
    assert_eq!(config.plan_change(&CharacterOperation::Despawn(true)), Ok(StageAction::Despawn { fading: true }));
    assert_eq!(
        config.plan_change(&CharacterOperation::Look(CharacterDirection::Left)),
        Ok(StageAction::Face { flip_x: true })
    );
    assert_eq!(
        config.plan_change(&CharacterOperation::Look(CharacterDirection::Right)),
        Ok(StageAction::Face { flip_x: false })
    );
    assert_eq!(
        config.plan_change(&CharacterOperation::Move(CharacterPosition::FarLeft)),
        Ok(StageAction::MoveTo(CharacterPosition::FarLeft))
    );
}

#[test]
fn sprite_key_for_emotion() {
    let key = amy_config().sprite_key("sad");
    assert_eq!(
        key,
        sabi::SpriteKey { character: "Amy".to_string(), outfit: "casual".to_string(), emotion: "sad".to_string() }
    );
}

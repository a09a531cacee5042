use sabi::{load, Act, Bindings, HistoryItem, PlaybackError, Statement, VisualNovelState};

const PARK: &str = ":: intro\nAmy: Hello\nAmy: [_PLAYERNAME_], hi.\n\n:: park\nBen: Bye\n";

fn park_act() -> Act {
    load(PARK, "chapter1").expect("script loads")
}

fn sam() -> Bindings {
    Bindings::with_player_name("Sam")
}

fn cursor(act: &Act) -> (usize, usize) {
    (act.scene_index(), act.scenes()[act.scene_index()].index())
}

#[test]
fn load_starts_at_first_statement() {
    let act = park_act();
    assert_eq!(act.name(), "chapter1");
    assert_eq!(act.scenes().len(), 2);
    assert_eq!(act.scenes()[0].name(), "intro");
    assert_eq!(act.scenes()[1].name(), "park");
    assert_eq!(cursor(&act), (0, 0));
    assert!(act.history().is_empty());
    match act.current() {
        Some(Statement::Dialogue(d)) => {
            assert_eq!(d.character, "Amy");
            assert_eq!(d.dialogue.evaluate(&sam()).unwrap(), "Hello");
        }
        other => panic!("unexpected first statement: {:?}", other),
    }
}

#[test]
fn park_scenario_plays_through() {
    let mut act = park_act();
    let b = sam();

    assert_eq!(act.advance(), Ok(()));
    assert_eq!(cursor(&act), (0, 0));
    assert_eq!(act.summarize_history(&b).unwrap(), vec!["Amy: Hello".to_string()]);

    assert_eq!(act.advance(), Ok(()));
    assert_eq!(cursor(&act), (0, 1));
    match act.history().last() {
        Some(HistoryItem::Statement(Statement::Dialogue(d))) => {
            assert_eq!(d.character, "Amy");
            assert_eq!(d.dialogue.evaluate(&b).unwrap(), "Sam, hi.");
        }
        other => panic!("unexpected history entry: {:?}", other),
    }
    assert_eq!(
        act.summarize_history(&b).unwrap(),
        vec!["Amy: Hello".to_string(), "Amy: Sam, hi.".to_string()]
    );

    assert_eq!(act.advance(), Ok(()));
    assert_eq!(cursor(&act), (1, 0));
    assert_eq!(act.scenes()[act.scene_index()].name(), "park");

    assert_eq!(act.advance(), Err(PlaybackError::ActFinished));
    assert_eq!(cursor(&act), (1, 0));
    assert_eq!(act.history().len(), 3);
}

#[test]
fn park_scene_start_cannot_rewind() {
    let mut act = park_act();
    for _ in 0..3 {
        act.advance().unwrap();
    }
    assert_eq!(cursor(&act), (1, 0));
    assert_eq!(act.rewind_distance(), Err(PlaybackError::AtSceneStart));
    assert_eq!(cursor(&act), (1, 0));
}

#[test]
fn advance_succeeds_once_per_statement() {
    let src = ":: a\nA: one\n@wait(10)\n:: b\n@background(sky)\nB: two\nB: three\n";
    let mut act = load(src, "count").unwrap();
    for _ in 0..5 {
        assert_eq!(act.advance(), Ok(()));
    }
    assert_eq!(act.advance(), Err(PlaybackError::ActFinished));
    assert_eq!(act.advance(), Err(PlaybackError::ActFinished));
    assert_eq!(act.history().len(), 5);
}

#[test]
fn advance_logs_every_statement_in_order() {
    let src = ":: a\nA: one\n@wait(10)\n:: b\n@background(sky)\nB: two\n";
    let mut act = load(src, "order").unwrap();
    while act.advance().is_ok() {}
    let kinds: Vec<&str> = act
        .history()
        .iter()
        .map(|h| match h {
            HistoryItem::Statement(Statement::Dialogue(_)) => "dialogue",
            HistoryItem::Statement(Statement::Wait(10)) => "wait",
            HistoryItem::Statement(Statement::Background(b)) if b == "sky" => "background",
            _ => "other",
        })
        .collect();
    assert_eq!(kinds, vec!["dialogue", "wait", "background", "dialogue"]);
}

#[test]
fn change_scene_to_unknown_name_fails_and_keeps_cursor() {
    let mut act = park_act();
    act.advance().unwrap();
    act.advance().unwrap();
    let before = cursor(&act);
    let history = act.history().len();
    assert_eq!(act.change_scene("nowhere"), Err(PlaybackError::UnknownScene("nowhere".to_string())));
    assert_eq!(act.change_scene("nowhere"), Err(PlaybackError::UnknownScene("nowhere".to_string())));
    assert_eq!(cursor(&act), before);
    assert_eq!(act.history().len(), history);
}

#[test]
fn change_scene_moves_to_first_statement_of_scene() {
    let mut act = park_act();
    act.advance().unwrap();
    act.advance().unwrap();
    assert_eq!(act.change_scene("park"), Ok(()));
    assert_eq!(cursor(&act), (1, 0));
    assert_eq!(act.history().len(), 2);
    assert_eq!(act.advance(), Ok(()));
    assert_eq!(cursor(&act), (1, 0));
    assert_eq!(act.summarize_history(&sam()).unwrap().last().unwrap(), "Ben: Bye");
    assert_eq!(act.change_scene("intro"), Ok(()));
    assert_eq!(cursor(&act), (0, 0));
    assert_eq!(act.advance(), Ok(()));
    assert_eq!(act.summarize_history(&sam()).unwrap().last().unwrap(), "Amy: Hello");
}

const REWIND: &str = ":: s\nA: first\n@wait(1)\nB: second\n@background(x)\n@wait(2)\nC: third\n";

#[test]
fn rewind_lands_on_previous_dialogue() {
    let mut act = load(REWIND, "rewind").unwrap();
    for _ in 0..5 {
        act.advance().unwrap();
    }
    assert_eq!(cursor(&act), (0, 4));
    let d = act.rewind_distance().unwrap();
    assert_eq!(d, 2);
    for _ in 0..d {
        act.rewind_one_step();
    }
    assert_eq!(cursor(&act), (0, 2));
    match act.current() {
        Some(Statement::Dialogue(d)) => assert_eq!(d.character, "B"),
        other => panic!("not on dialogue: {:?}", other),
    }
}

#[test]
fn rewind_skips_only_to_nearest_dialogue() {
    let mut act = load(REWIND, "rewind").unwrap();
    for _ in 0..3 {
        act.advance().unwrap();
    }
    assert_eq!(cursor(&act), (0, 2));
    assert_eq!(act.rewind_distance(), Ok(2));
    act.rewind_one_step();
    act.rewind_one_step();
    assert_eq!(cursor(&act), (0, 0));
    assert_eq!(act.rewind_distance(), Err(PlaybackError::AtSceneStart));
}

#[test]
fn rewind_without_prior_dialogue_fails() {
    let src = ":: s\n@wait(1)\n@wait(2)\nA: hi\n";
    let mut act = load(src, "x").unwrap();
    act.advance().unwrap();
    act.advance().unwrap();
    assert_eq!(cursor(&act), (0, 1));
    assert_eq!(act.rewind_distance(), Err(PlaybackError::NoDialogueToRewindTo));
    assert_eq!(cursor(&act), (0, 1));
}

#[test]
fn rewind_one_step_stays_at_scene_start() {
    let mut act = park_act();
    act.advance().unwrap();
    act.rewind_one_step();
    assert_eq!(cursor(&act), (0, 0));
}

#[test]
fn replayed_dialogue_appears_again_in_history() {
    let mut act = load(REWIND, "rewind").unwrap();
    for _ in 0..6 {
        act.advance().unwrap();
    }
    assert_eq!(cursor(&act), (0, 5));
    let d = act.rewind_distance().unwrap();
    assert_eq!(d, 3);
    for _ in 0..d {
        act.rewind_one_step();
    }
    assert_eq!(cursor(&act), (0, 2));
    for _ in 0..3 {
        act.advance().unwrap();
    }
    assert_eq!(act.advance(), Err(PlaybackError::ActFinished));
    let lines = act.summarize_history(&Bindings::new()).unwrap();
    assert_eq!(lines, vec!["A: first", "B: second", "C: third", "C: third"]);
}

#[test]
fn summary_uses_bindings_at_summary_time() {
    let mut act = park_act();
    act.advance().unwrap();
    act.advance().unwrap();
    assert_eq!(act.summarize_history(&sam()).unwrap()[1], "Amy: Sam, hi.");
    let kim = Bindings::with_player_name("Kim");
    assert_eq!(act.summarize_history(&kim).unwrap()[1], "Amy: Kim, hi.");
}

#[test]
fn summary_fails_on_unbound_variable() {
    let mut act = park_act();
    act.advance().unwrap();
    act.advance().unwrap();
    assert_eq!(
        act.summarize_history(&Bindings::new()),
        Err(sabi::EvaluationError::UnresolvedVariable("PLAYERNAME".to_string()))
    );
}

#[test]
fn summary_counts_dialogue_only() {
    let src = ":: s\nA: one\n@wait(3)\n@spawn(A, left)\nB: two\n";
    let mut act = load(src, "x").unwrap();
    while act.advance().is_ok() {}
    assert_eq!(act.history().len(), 4);
    assert_eq!(act.summarize_history(&Bindings::new()).unwrap(), vec!["A: one", "B: two"]);
}

#[test]
fn summarize_passes_descriptors_through() {
    let mut act = park_act();
    act.advance().unwrap();
    let mut log: Vec<HistoryItem> = act.history().to_vec();
    log.push(HistoryItem::Descriptor("- scene changed -".to_string()));
    let lines = sabi::summarize(&log, &sam()).unwrap();
    assert_eq!(lines, vec!["Amy: Hello", "- scene changed -"]);
}

#[test]
fn visual_novel_state_summary_uses_player_name() {
    let mut act = park_act();
    act.advance().unwrap();
    act.advance().unwrap();
    let state = VisualNovelState::new(act, "Lee".to_string());
    assert!(!state.blocking);
    assert_eq!(state.history_summary().unwrap(), vec!["Amy: Hello", "Amy: Lee, hi."]);
}

#[test]
fn set_name_renames_act() {
    let mut act = park_act();
    act.set_name("other".to_string());
    assert_eq!(act.name(), "other");
}

#[test]
fn host_rewinds_one_step_per_tick() {
    let mut act = load(REWIND, "rewind").unwrap();
    for _ in 0..5 {
        act.advance().unwrap();
    }
    let mut state = VisualNovelState::new(act, "Sam".to_string());
    assert_eq!(state.begin_rewind(), Ok(()));
    assert_eq!(state.rewinding, 2);
    assert!(state.rewind_tick());
    assert_eq!(cursor(&state.act), (0, 3));
    assert!(state.rewind_tick());
    assert_eq!(cursor(&state.act), (0, 2));
    assert!(!state.rewind_tick());
    assert_eq!(state.rewinding, 0);
    assert_eq!(cursor(&state.act), (0, 2));
}

#[test]
fn host_rewind_at_scene_start_is_refused() {
    let mut act = park_act();
    act.advance().unwrap();
    let mut state = VisualNovelState::new(act, "Sam".to_string());
    assert_eq!(state.begin_rewind(), Err(PlaybackError::AtSceneStart));
    assert_eq!(state.rewinding, 0);
    assert!(!state.rewind_tick());
}

use sabi::{
    load, parse, BuildError, CharacterDirection, CharacterOperation, CharacterPosition,
    DirectiveError, Expected, Expression, LoadError, Segment, Statement, SyntaxError,
};
use sabi::script::{Arg, Entry};

fn syntax(src: &str) -> SyntaxError {
    match load(src, "x") {
        Err(LoadError::Syntax(e)) => e,
        other => panic!("expected a syntax error, got {:?}", other.map(|a| a.name().clone())),
    }
}

fn build_error(src: &str) -> BuildError {
    match load(src, "x") {
        Err(LoadError::Build(e)) => e,
        other => panic!("expected a build error, got {:?}", other.map(|a| a.name().clone())),
    }
}

fn only_statement(src: &str) -> Statement {
    let act = load(src, "x").unwrap();
    assert_eq!(act.scenes().len(), 1);
    assert_eq!(act.scenes()[0].statements().len(), 1);
    act.scenes()[0].statements()[0].clone()
}

fn at(line: usize, column: usize, expected: Expected) -> SyntaxError {
    SyntaxError { line, column, expected }
}

#[test]
fn parse_tree_keeps_lines_and_arguments() {
    let src = "# a comment\n:: intro\n  Amy :  Hello there  \n@spawn(Amy, \"far left\", 42)\n\n:: end_2\n@jump(intro)\n";
    let tree = parse(src).unwrap();
    assert_eq!(tree.len(), 2);
    assert_eq!(tree[0].name, "intro");
    assert_eq!(tree[0].line, 2);
    assert_eq!(tree[0].items.len(), 2);
    assert_eq!(tree[0].items[0].line, 3);
    assert_eq!(
        tree[0].items[0].entry,
        Entry::Dialogue { speaker: "Amy".to_string(), text: "Hello there".to_string() }
    );
    assert_eq!(tree[0].items[1].line, 4);
    assert_eq!(
        tree[0].items[1].entry,
        Entry::Directive {
            keyword: "spawn".to_string(),
            args: vec![
                Arg::Ident("Amy".to_string()),
                Arg::Text("far left".to_string()),
                Arg::Number(42),
            ],
        }
    );
    assert_eq!(tree[1].name, "end_2");
    assert_eq!(tree[1].line, 6);
}

#[test]
fn parse_is_deterministic() {
    let src = ":: a\nA: b\n@wait(5)\n";
    assert_eq!(parse(src), parse(src));
    assert_eq!(syntax("A: b\n"), syntax("A: b\n"));
}

#[test]
fn directive_without_arguments_and_empty_list() {
    let tree = parse(":: s\n@pause\n@pause( )\n").unwrap();
    assert_eq!(tree[0].items[0].entry, Entry::Directive { keyword: "pause".to_string(), args: vec![] });
    assert_eq!(tree[0].items[1].entry, Entry::Directive { keyword: "pause".to_string(), args: vec![] });
}

#[test]
fn largest_number_is_read() {
    let tree = parse(":: s\n@wait(18446744073709551615)\n").unwrap();
    assert_eq!(
        tree[0].items[0].entry,
        Entry::Directive { keyword: "wait".to_string(), args: vec![Arg::Number(u64::MAX)] }
    );
}

#[test]
fn syntax_errors_carry_line_column_and_expectation() {
    assert_eq!(syntax("Amy: hi\n"), at(1, 0, Expected::SceneHeader));
    assert_eq!(syntax(":: a\nA: b\n::   \n"), at(3, 5, Expected::SceneName));
    assert_eq!(syntax(":: a b\n"), at(1, 4, Expected::EndOfLine));
    assert_eq!(syntax(":: a\n@(x)\n"), at(2, 1, Expected::Keyword));
    assert_eq!(syntax(":: a\n@jump x\n"), at(2, 6, Expected::OpenParen));
    assert_eq!(syntax(":: a\n@jump(,)\n"), at(2, 6, Expected::Argument));
    assert_eq!(syntax(":: a\n@jump(a b)\n"), at(2, 8, Expected::CommaOrParen));
    assert_eq!(syntax(":: a\n@jump(a\n"), at(2, 7, Expected::CommaOrParen));
    assert_eq!(syntax(":: a\n@background(\"sky)\n"), at(2, 12, Expected::ClosingQuote));
    assert_eq!(syntax(":: a\n@jump(a) x\n"), at(2, 9, Expected::EndOfLine));
    assert_eq!(syntax(":: a\nAmy says hi\n"), at(2, 11, Expected::Colon));
    assert_eq!(syntax(":: a\n: hi\n"), at(2, 0, Expected::Speaker));
    assert_eq!(syntax(":: a\n@wait(18446744073709551616)\n"), at(2, 6, Expected::SmallerNumber));
}

#[test]
fn build_errors() {
    assert_eq!(build_error(""), BuildError::NoScenes);
    assert_eq!(build_error("# nothing\n\n"), BuildError::NoScenes);
    assert_eq!(
        build_error(":: a\nA: x\n:: b\n"),
        BuildError::EmptyScene { name: "b".to_string(), line: 3 }
    );
    assert_eq!(
        build_error(":: a\nA: x\n:: a\nB: y\n"),
        BuildError::DuplicateScene { name: "a".to_string(), line: 3 }
    );
    assert_eq!(
        build_error(":: a\n@dance(A)\n"),
        BuildError::Directive { line: 2, keyword: "dance".to_string(), problem: DirectiveError::UnknownDirective }
    );
    assert_eq!(
        build_error(":: a\n@despawn\n"),
        BuildError::Directive { line: 2, keyword: "despawn".to_string(), problem: DirectiveError::ArgumentCount }
    );
    assert_eq!(
        build_error(":: a\n@wait(soon)\n"),
        BuildError::Directive { line: 2, keyword: "wait".to_string(), problem: DirectiveError::BadArgument(0) }
    );
    assert_eq!(
        build_error(":: a\n@move(A, \"upstairs\")\n"),
        BuildError::Directive { line: 2, keyword: "move".to_string(), problem: DirectiveError::BadArgument(1) }
    );
    assert_eq!(
        build_error(":: a\n@spawn(A, left, 3)\n"),
        BuildError::Directive { line: 2, keyword: "spawn".to_string(), problem: DirectiveError::BadArgument(2) }
    );
    assert_eq!(
        build_error(":: a\n@jump(b)\n"),
        BuildError::Directive { line: 2, keyword: "jump".to_string(), problem: DirectiveError::UnknownScene }
    );
}

#[test]
fn directives_build_typed_statements() {
    assert_eq!(only_statement(":: a\n@jump(a)\n"), Statement::Jump("a".to_string()));
    assert_eq!(only_statement(":: a\n@background(\"night sky\")\n"), Statement::Background("night sky".to_string()));
    assert_eq!(only_statement(":: a\n@wait(250)\n"), Statement::Wait(250));
    match only_statement(":: a\n@fadein(Amy, \"far right\", happy)\n") {
        Statement::Character(m) => {
            assert_eq!(m.character, "Amy");
            match m.operation {
                CharacterOperation::Spawn(info) => {
                    assert_eq!(info.emotion.as_deref(), Some("happy"));
                    assert_eq!(info.position, CharacterPosition::FarRight);
                    assert!(info.fading);
                }
                other => panic!("{:?}", other),
            }
        }
        other => panic!("{:?}", other),
    }
    match only_statement(":: a\n@spawn(Amy, center)\n") {
        Statement::Character(m) => match m.operation {
            CharacterOperation::Spawn(info) => {
                assert_eq!(info.emotion, None);
                assert_eq!(info.position, CharacterPosition::Center);
                assert!(!info.fading);
            }
            other => panic!("{:?}", other),
        },
        other => panic!("{:?}", other),
    }
    match only_statement(":: a\n@fadeout(Amy)\n") {
        Statement::Character(m) => assert_eq!(m.operation, CharacterOperation::Despawn(true)),
        other => panic!("{:?}", other),
    }
    match only_statement(":: a\n@despawn(Amy)\n") {
        Statement::Character(m) => assert_eq!(m.operation, CharacterOperation::Despawn(false)),
        other => panic!("{:?}", other),
    }
    match only_statement(":: a\n@emotion(Amy, sad)\n") {
        Statement::Character(m) => assert_eq!(m.operation, CharacterOperation::EmotionChange("sad".to_string())),
        other => panic!("{:?}", other),
    }
    match only_statement(":: a\n@look(Amy, left)\n") {
        Statement::Character(m) => assert_eq!(m.operation, CharacterOperation::Look(CharacterDirection::Left)),
        other => panic!("{:?}", other),
    }
    match only_statement(":: a\n@move(Amy, \"invisible left\")\n") {
        Statement::Character(m) => assert_eq!(m.operation, CharacterOperation::Move(CharacterPosition::InvisibleLeft)),
        other => panic!("{:?}", other),
    }
}

#[test]
fn dialogue_text_becomes_expression() {
    match only_statement(":: a\n[_PLAYERNAME_]: [_PLAYERNAME_], hi.\n") {
        Statement::Dialogue(d) => {
            assert_eq!(d.character, "[_PLAYERNAME_]");
            assert_eq!(
                d.dialogue.segments,
                vec![Segment::Var("PLAYERNAME".to_string()), Segment::Text(", hi.".to_string())]
            );
        }
        other => panic!("{:?}", other),
    }
}

#[test]
fn expression_markers() {
    let e = Expression::parse("Hi [_A1_] and [_B_]!");
    assert_eq!(
        e.segments,
        vec![
            Segment::Text("Hi ".to_string()),
            Segment::Var("A1".to_string()),
            Segment::Text(" and ".to_string()),
            Segment::Var("B".to_string()),
            Segment::Text("!".to_string()),
        ]
    );
    assert_eq!(Expression::parse("").segments, vec![]);
    assert_eq!(Expression::parse("[__] [_a b_] [_x_").segments, vec![Segment::Text("[__] [_a b_] [_x_".to_string())]);
}

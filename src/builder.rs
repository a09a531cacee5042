//! Turns the parse tree into typed statements, checking every directive.
//!
//! Directives, with the arguments each takes (a word is an identifier or a string
//! literal; a position is a word that names a stage position):
//! - `@jump(scene)`: the name of a scene of the script;
//! - `@background(word)`;
//! - `@wait(number)`;
//! - `@spawn(character, position)` and `@spawn(character, position, emotion)`;
//!   `@fadein` takes the same and fades the character in;
//! - `@despawn(character)`, and `@fadeout(character)` which fades it out;
//! - `@emotion(character, emotion)`;
//! - `@look(character, left)` or `@look(character, right)`;
//! - `@move(character, position)`.
use vstd::prelude::*;
use crate::ast::{
    parse_expression, Dialogue, DialogueV, Expression, Statement, StatementV, statements_view,
};
use crate::character::{
    position_named, CharacterChangeMessage, CharacterChangeMessageV, CharacterDirection,
    CharacterOperation, CharacterOperationV, CharacterPosition, SpawnInfo, SpawnInfoV,
};
use crate::script::{args_view, Arg, ArgV, Entry, EntryV, ParsedLine, ParsedLineV, ParsedScene, ParsedSceneV, lines_view, parsed_scenes_view};
use crate::playback::Scene;
use crate::text::same_text;

verus! {

/// What is wrong with a directive.
#[derive(Debug, Clone, Copy, PartialEq, Eq, Structural)]
pub enum DirectiveError {
    /// No directive has this keyword.
    UnknownDirective,
    /// The directive takes another number of arguments.
    ArgumentCount,
    /// The argument at this 0-based index is not of the kind the directive takes.
    BadArgument(usize),
    /// The scene a jump names is not in the script.
    UnknownScene,
}

/// A script that reads well but does not make a playable act.
#[derive(Debug, Clone, PartialEq, Eq)]
pub enum BuildError {
    /// The script has no scene.
    NoScenes,
    /// The scene that starts at this line has no statement.
    EmptyScene { name: String, line: usize },
    /// A scene has the name of an earlier one.
    DuplicateScene { name: String, line: usize },
    /// The directive at this line is malformed.
    Directive { line: usize, keyword: String, problem: DirectiveError },
}

pub enum BuildErrorV {
    NoScenes,
    EmptyScene { name: Seq<char>, line: nat },
    DuplicateScene { name: Seq<char>, line: nat },
    Directive { line: nat, keyword: Seq<char>, problem: DirectiveError },
}

impl View for BuildError {
    type V = BuildErrorV;

    open spec fn view(&self) -> BuildErrorV {
        match self {
            BuildError::NoScenes => BuildErrorV::NoScenes,
            BuildError::EmptyScene { name, line } => BuildErrorV::EmptyScene { name: name@, line: *line as nat },
            BuildError::DuplicateScene { name, line } => BuildErrorV::DuplicateScene {
                name: name@,
                line: *line as nat,
            },
            BuildError::Directive { line, keyword, problem } => BuildErrorV::Directive {
                line: *line as nat,
                keyword: keyword@,
                problem: *problem,
            },
        }
    }
}

/// The text of an identifier or string literal argument.
pub open spec fn word_of(a: ArgV) -> Option<Seq<char>> {
    match a {
        ArgV::Ident(s) => Some(s),
        ArgV::Text(s) => Some(s),
        ArgV::Number(_) => None,
    }
}

/// The stage position an argument names.
pub open spec fn position_of(a: ArgV) -> Option<CharacterPosition> {
    match word_of(a) {
        Some(s) => position_named(s),
        None => None,
    }
}

/// The direction an argument names.
pub open spec fn direction_of(a: ArgV) -> Option<CharacterDirection> {
    match word_of(a) {
        Some(s) => if s == "left"@ {
            Some(CharacterDirection::Left)
        } else if s == "right"@ {
            Some(CharacterDirection::Right)
        } else {
            None
        },
        None => None,
    }
}

pub open spec fn actor(c: Seq<char>, op: CharacterOperationV) -> StatementV {
    StatementV::Character(CharacterChangeMessageV { character: c, operation: op })
}

/// The actor directives that take a character and one more argument.
pub open spec fn actor_pair(kw: Seq<char>, c: Seq<char>, a: ArgV) -> Result<StatementV, DirectiveError> {
    if kw == "emotion"@ {
        match word_of(a) {
            Some(e) => Ok(actor(c, CharacterOperationV::EmotionChange(e))),
            None => Err(DirectiveError::BadArgument(1)),
        }
    } else if kw == "look"@ {
        match direction_of(a) {
            Some(d) => Ok(actor(c, CharacterOperationV::Look(d))),
            None => Err(DirectiveError::BadArgument(1)),
        }
    } else {
        match position_of(a) {
            Some(p) => Ok(actor(c, CharacterOperationV::Move(p))),
            None => Err(DirectiveError::BadArgument(1)),
        }
    }
}

/// `@spawn` and `@fadein`.
pub open spec fn spawn_directive(fading: bool, args: Seq<ArgV>) -> Result<StatementV, DirectiveError> {
    if args.len() != 2 && args.len() != 3 {
        Err(DirectiveError::ArgumentCount)
    } else {
        match word_of(args[0]) {
            None => Err(DirectiveError::BadArgument(0)),
            Some(c) => match position_of(args[1]) {
                None => Err(DirectiveError::BadArgument(1)),
                Some(p) => if args.len() == 3 {
                    match word_of(args[2]) {
                        None => Err(DirectiveError::BadArgument(2)),
                        Some(e) => Ok(actor(c, CharacterOperationV::Spawn(SpawnInfoV { emotion: Some(e), position: p, fading }))),
                    }
                } else {
                    Ok(actor(c, CharacterOperationV::Spawn(SpawnInfoV { emotion: None, position: p, fading })))
                },
            },
        }
    }
}

/// The statement a directive stands for, given the names of the script's scenes.
pub open spec fn build_directive(kw: Seq<char>, args: Seq<ArgV>, names: Seq<Seq<char>>) -> Result<StatementV, DirectiveError> {
    if kw == "jump"@ {
        if args.len() != 1 {
            Err(DirectiveError::ArgumentCount)
        } else {
            match args[0] {
                ArgV::Ident(n) => if names.contains(n) {
                    Ok(StatementV::Jump(n))
                } else {
                    Err(DirectiveError::UnknownScene)
                },
                _ => Err(DirectiveError::BadArgument(0)),
            }
        }
    } else if kw == "background"@ {
        if args.len() != 1 {
            Err(DirectiveError::ArgumentCount)
        } else {
            match word_of(args[0]) {
                Some(x) => Ok(StatementV::Background(x)),
                None => Err(DirectiveError::BadArgument(0)),
            }
        }
    } else if kw == "wait"@ {
        if args.len() != 1 {
            Err(DirectiveError::ArgumentCount)
        } else {
            match args[0] {
                ArgV::Number(n) => Ok(StatementV::Wait(n)),
                _ => Err(DirectiveError::BadArgument(0)),
            }
        }
    } else if kw == "spawn"@ || kw == "fadein"@ {
        spawn_directive(kw == "fadein"@, args)
    } else if kw == "despawn"@ || kw == "fadeout"@ {
        if args.len() != 1 {
            Err(DirectiveError::ArgumentCount)
        } else {
            match word_of(args[0]) {
                Some(c) => Ok(actor(c, CharacterOperationV::Despawn(kw == "fadeout"@))),
                None => Err(DirectiveError::BadArgument(0)),
            }
        }
    } else if kw == "emotion"@ || kw == "look"@ || kw == "move"@ {
        if args.len() != 2 {
            Err(DirectiveError::ArgumentCount)
        } else {
            match word_of(args[0]) {
                Some(c) => actor_pair(kw, c, args[1]),
                None => Err(DirectiveError::BadArgument(0)),
            }
        }
    } else {
        Err(DirectiveError::UnknownDirective)
    }
}

/// The statement a line of a scene stands for.
pub open spec fn build_entry(en: EntryV, names: Seq<Seq<char>>) -> Result<StatementV, DirectiveError> {
    match en {
        EntryV::Dialogue { speaker, text } => Ok(
            StatementV::Dialogue(DialogueV { character: speaker, dialogue: parse_expression(text) }),
        ),
        EntryV::Directive { keyword, args } => build_directive(keyword, args, names),
    }
}

pub open spec fn keyword_of(en: EntryV) -> Seq<char> {
    match en {
        EntryV::Directive { keyword, .. } => keyword,
        _ => seq![],
    }
}

/// The statements of the first `n` lines of a scene.
pub open spec fn build_items(items: Seq<ParsedLineV>, names: Seq<Seq<char>>, n: int) -> Result<Seq<StatementV>, BuildErrorV>
    decreases n,
{
    if n <= 0 {
        Ok(seq![])
    } else {
        match build_items(items, names, n - 1) {
            Err(e) => Err(e),
            Ok(ss) => match build_entry(items[n - 1].entry, names) {
                Ok(s) => Ok(ss.push(s)),
                Err(p) => Err(BuildErrorV::Directive {
                    line: items[n - 1].line,
                    keyword: keyword_of(items[n - 1].entry),
                    problem: p,
                }),
            },
        }
    }
}

pub open spec fn scene_names(ps: Seq<ParsedSceneV>) -> Seq<Seq<char>> {
    ps.map_values(|s: ParsedSceneV| s.name)
}

/// The first `n` scenes, each as its name and statements.
pub open spec fn build_scenes(ps: Seq<ParsedSceneV>, n: int) -> Result<Seq<(Seq<char>, Seq<StatementV>)>, BuildErrorV>
    decreases n,
{
    if n <= 0 {
        Ok(seq![])
    } else {
        match build_scenes(ps, n - 1) {
            Err(e) => Err(e),
            Ok(prev) => {
                let sc = ps[n - 1];
                if sc.items.len() == 0 {
                    Err(BuildErrorV::EmptyScene { name: sc.name, line: sc.line })
                } else if scene_names(ps).take(n - 1).contains(sc.name) {
                    Err(BuildErrorV::DuplicateScene { name: sc.name, line: sc.line })
                } else {
                    match build_items(sc.items, scene_names(ps), sc.items.len() as int) {
                        Err(e) => Err(e),
                        Ok(ss) => Ok(prev.push((sc.name, ss))),
                    }
                }
            },
        }
    }
}

/// The scenes a parse tree makes, each as its name and statements; or the first
/// problem found, scene by scene and line by line.
pub open spec fn build_spec(ps: Seq<ParsedSceneV>) -> Result<Seq<(Seq<char>, Seq<StatementV>)>, BuildErrorV> {
    if ps.len() == 0 {
        Err(BuildErrorV::NoScenes)
    } else {
        build_scenes(ps, ps.len() as int)
    }
}

pub open spec fn opt_text(o: Option<String>) -> Option<Seq<char>> {
    match o {
        Some(s) => Some(s@),
        None => None,
    }
}

pub open spec fn names_view(v: Seq<String>) -> Seq<Seq<char>> {
    v.map_values(|s: String| s@)
}

pub open spec fn statement_result_view(r: Result<Statement, DirectiveError>) -> Result<StatementV, DirectiveError> {
    match r {
        Ok(s) => Ok(s@),
        Err(e) => Err(e),
    }
}

fn word_arg(a: &Arg) -> (r: Option<String>)
    ensures
        opt_text(r) == word_of(a@),
{
    match a {
        Arg::Ident(s) => Some(s.clone()),
        Arg::Text(s) => Some(s.clone()),
        Arg::Number(_) => None,
    }
}

fn position_arg(a: &Arg) -> (r: Option<CharacterPosition>)
    ensures
        r == position_of(a@),
{
    match a {
        Arg::Ident(s) | Arg::Text(s) => match CharacterPosition::try_from(s.as_str()) {
            Ok(p) => Some(p),
            Err(_) => None,
        },
        Arg::Number(_) => None,
    }
}

fn direction_arg(a: &Arg) -> (r: Option<CharacterDirection>)
    ensures
        r == direction_of(a@),
{
    match a {
        Arg::Ident(s) | Arg::Text(s) => if same_text(s.as_str(), "left") {
            Some(CharacterDirection::Left)
        } else if same_text(s.as_str(), "right") {
            Some(CharacterDirection::Right)
        } else {
            None
        },
        Arg::Number(_) => None,
    }
}

/// Whether `n` is one of `names`.
fn has_name(names: &Vec<String>, n: &String) -> (r: bool)
    ensures
        r == names_view(names@).contains(n@),
{
    let mut i: usize = 0;
    while i < names.len()
        invariant
            i <= names@.len(),
            forall|k: int| 0 <= k < i ==> names@[k]@ != n@,
        decreases names@.len() - i,
    {
        if names[i] == *n {
            assert(names_view(names@)[i as int] == n@);
            return true;
        }
        i = i + 1;
    }
    assert(!names_view(names@).contains(n@)) by {
        if names_view(names@).contains(n@) {
            let k = choose|k: int| 0 <= k < names_view(names@).len() && names_view(names@)[k] == n@;
            assert(names@[k]@ == n@);
        }
    }
    false
}

fn actor_statement(c: String, op: CharacterOperation) -> (r: Statement)
    ensures
        r@ == actor(c@, op@),
{
    Statement::Character(CharacterChangeMessage { character: c, operation: op })
}

fn exec_spawn(fading: bool, args: &Vec<Arg>) -> (r: Result<Statement, DirectiveError>)
    ensures
        statement_result_view(r) == spawn_directive(fading, args_view(args@)),
{
    if args.len() != 2 && args.len() != 3 {
        return Err(DirectiveError::ArgumentCount);
    }
    let c = match word_arg(&args[0]) {
        None => {
            return Err(DirectiveError::BadArgument(0));
        },
        Some(c) => c,
    };
    let p = match position_arg(&args[1]) {
        None => {
            return Err(DirectiveError::BadArgument(1));
        },
        Some(p) => p,
    };
    if args.len() == 3 {
        match word_arg(&args[2]) {
            None => Err(DirectiveError::BadArgument(2)),
            Some(e) => Ok(actor_statement(c, CharacterOperation::Spawn(SpawnInfo { emotion: Some(e), position: p, fading }))),
        }
    } else {
        Ok(actor_statement(c, CharacterOperation::Spawn(SpawnInfo { emotion: None, position: p, fading })))
    }
}

fn exec_actor_pair(kw: &String, c: String, a: &Arg) -> (r: Result<Statement, DirectiveError>)
    ensures
        statement_result_view(r) == actor_pair(kw@, c@, a@),
{
    if same_text(kw.as_str(), "emotion") {
        match word_arg(a) {
            Some(e) => Ok(actor_statement(c, CharacterOperation::EmotionChange(e))),
            None => Err(DirectiveError::BadArgument(1)),
        }
    } else if same_text(kw.as_str(), "look") {
        match direction_arg(a) {
            Some(d) => Ok(actor_statement(c, CharacterOperation::Look(d))),
            None => Err(DirectiveError::BadArgument(1)),
        }
    } else {
        match position_arg(a) {
            Some(p) => Ok(actor_statement(c, CharacterOperation::Move(p))),
            None => Err(DirectiveError::BadArgument(1)),
        }
    }
}

/// The statement a directive stands for, given the names of the script's scenes.
pub fn directive_statement(kw: &String, args: &Vec<Arg>, names: &Vec<String>) -> (r: Result<Statement, DirectiveError>)
    ensures
        statement_result_view(r) == build_directive(kw@, args_view(args@), names_view(names@)),
{
    let k = kw.as_str();
    if same_text(k, "jump") {
        if args.len() != 1 {
            Err(DirectiveError::ArgumentCount)
        } else {
            match &args[0] {
                Arg::Ident(n) => if has_name(names, n) {
                    Ok(Statement::Jump(n.clone()))
                } else {
                    Err(DirectiveError::UnknownScene)
                },
                _ => Err(DirectiveError::BadArgument(0)),
            }
        }
    } else if same_text(k, "background") {
        if args.len() != 1 {
            Err(DirectiveError::ArgumentCount)
        } else {
            match word_arg(&args[0]) {
                Some(x) => Ok(Statement::Background(x)),
                None => Err(DirectiveError::BadArgument(0)),
            }
        }
    } else if same_text(k, "wait") {
        if args.len() != 1 {
            Err(DirectiveError::ArgumentCount)
        } else {
            match &args[0] {
                Arg::Number(n) => Ok(Statement::Wait(*n)),
                _ => Err(DirectiveError::BadArgument(0)),
            }
        }
    } else if same_text(k, "spawn") || same_text(k, "fadein") {
        exec_spawn(same_text(k, "fadein"), args)
    } else if same_text(k, "despawn") || same_text(k, "fadeout") {
        if args.len() != 1 {
            Err(DirectiveError::ArgumentCount)
        } else {
            match word_arg(&args[0]) {
                Some(c) => Ok(actor_statement(c, CharacterOperation::Despawn(same_text(k, "fadeout")))),
                None => Err(DirectiveError::BadArgument(0)),
            }
        }
    } else if same_text(k, "emotion") || same_text(k, "look") || same_text(k, "move") {
        if args.len() != 2 {
            Err(DirectiveError::ArgumentCount)
        } else {
            match word_arg(&args[0]) {
                Some(c) => exec_actor_pair(kw, c, &args[1]),
                None => Err(DirectiveError::BadArgument(0)),
            }
        }
    } else {
        Err(DirectiveError::UnknownDirective)
    }
}

pub open spec fn built_view(v: Seq<Scene>) -> Seq<(Seq<char>, Seq<StatementV>)> {
    v.map_values(|s: Scene| (s@.name, s@.statements))
}

proof fn lemma_build_items_err_stays(items: Seq<ParsedLineV>, names: Seq<Seq<char>>, n: int, m: int)
    requires
        0 <= n <= m,
        build_items(items, names, n) is Err,
    ensures
        build_items(items, names, m) == build_items(items, names, n),
    decreases m - n,
{
    if m > n {
        lemma_build_items_err_stays(items, names, n, m - 1);
    }
}

proof fn lemma_build_scenes_err_stays(ps: Seq<ParsedSceneV>, n: int, m: int)
    requires
        0 <= n <= m,
        build_scenes(ps, n) is Err,
    ensures
        build_scenes(ps, m) == build_scenes(ps, n),
    decreases m - n,
{
    if m > n {
        lemma_build_scenes_err_stays(ps, n, m - 1);
    }
}

/// The statement of one line of a scene.
fn entry_statement(item: &ParsedLine, names: &Vec<String>) -> (r: Result<Statement, BuildError>)
    ensures
        match r {
            Ok(s) => build_entry(item@.entry, names_view(names@)) == Ok::<StatementV, DirectiveError>(s@),
            Err(e) => build_entry(item@.entry, names_view(names@)) is Err && e@ == (BuildErrorV::Directive {
                line: item@.line,
                keyword: keyword_of(item@.entry),
                problem: build_entry(item@.entry, names_view(names@))->Err_0,
            }),
        },
{
    match &item.entry {
        Entry::Dialogue { speaker, text } => Ok(Statement::Dialogue(
            Dialogue { character: speaker.clone(), dialogue: Expression::parse(text.as_str()) },
        )),
        Entry::Directive { keyword, args } => match directive_statement(keyword, args, names) {
            Ok(s) => Ok(s),
            Err(problem) => Err(BuildError::Directive { line: item.line, keyword: keyword.clone(), problem }),
        },
    }
}

/// The statements of the lines of one scene, or the first malformed directive.
fn scene_statements(items: &Vec<ParsedLine>, names: &Vec<String>) -> (r: Result<Vec<Statement>, BuildError>)
    ensures
        match r {
            Ok(v) => build_items(lines_view(items@), names_view(names@), items@.len() as int)
                == Ok::<Seq<StatementV>, BuildErrorV>(statements_view(v@)),
            Err(e) => build_items(lines_view(items@), names_view(names@), items@.len() as int)
                == Err::<Seq<StatementV>, BuildErrorV>(e@),
        },
{
    let mut out: Vec<Statement> = Vec::new();
    let mut n: usize = 0;
    assert(statements_view(out@) =~= seq![]);
    while n < items.len()
        invariant
            n <= items@.len(),
            build_items(lines_view(items@), names_view(names@), n as int)
                == Ok::<Seq<StatementV>, BuildErrorV>(statements_view(out@)),
        decreases items@.len() - n,
    {
        assert(lines_view(items@)[n as int] == items@[n as int]@);
        match entry_statement(&items[n], names) {
            Ok(s) => {
                let ghost prev = statements_view(out@);
                out.push(s);
                assert(statements_view(out@) =~= prev.push(s@));
            },
            Err(e) => {
                proof {
                    lemma_build_items_err_stays(lines_view(items@), names_view(names@), n + 1, items@.len() as int);
                }
                return Err(e);
            },
        }
        n = n + 1;
    }
    Ok(out)
}

/// Whether `names[n]` is among the names before it.
fn named_before(names: &Vec<String>, n: usize) -> (r: bool)
    requires
        n < names@.len(),
    ensures
        r == names_view(names@).take(n as int).contains(names@[n as int]@),
{
    let mut j: usize = 0;
    while j < n
        invariant
            j <= n < names@.len(),
            forall|k: int| 0 <= k < j ==> names@[k]@ != names@[n as int]@,
        decreases n - j,
    {
        if names[j] == names[n] {
            assert(names_view(names@).take(n as int)[j as int] == names@[n as int]@);
            return true;
        }
        j = j + 1;
    }
    assert(!names_view(names@).take(n as int).contains(names@[n as int]@)) by {
        if names_view(names@).take(n as int).contains(names@[n as int]@) {
            let k = choose|k: int| 0 <= k < n && names_view(names@).take(n as int)[k] == names@[n as int]@;
            assert(names@[k]@ == names@[n as int]@);
        }
    }
    false
}

/// The scenes of a parse tree, each at its first statement; or the first problem
/// found, scene by scene and line by line.
pub fn build(parsed: &Vec<ParsedScene>) -> (r: Result<Vec<Scene>, BuildError>)
    ensures
        match r {
            Ok(v) => build_spec(parsed_scenes_view(parsed@)) == Ok::<Seq<(Seq<char>, Seq<StatementV>)>, BuildErrorV>(built_view(v@))
                && forall|i: int| 0 <= i < v@.len() ==> (#[trigger] v@[i])@.index == 0,
            Err(e) => build_spec(parsed_scenes_view(parsed@)) == Err::<Seq<(Seq<char>, Seq<StatementV>)>, BuildErrorV>(e@),
        },
{
    let ghost ps = parsed_scenes_view(parsed@);
    if parsed.len() == 0 {
        return Err(BuildError::NoScenes);
    }
    let mut names: Vec<String> = Vec::new();
    let mut i: usize = 0;
    while i < parsed.len()
        invariant
            ps == parsed_scenes_view(parsed@),
            i <= parsed@.len(),
            names_view(names@) == scene_names(ps).take(i as int),
        decreases parsed@.len() - i,
    {
        assert(ps[i as int].name == parsed@[i as int].name@);
        let ghost prev = names_view(names@);
        let nm = parsed[i].name.clone();
        names.push(nm);
        assert(names_view(names@) =~= prev.push(nm@));
        assert(scene_names(ps).take(i + 1) =~= scene_names(ps).take(i as int).push(ps[i as int].name));
        i = i + 1;
    }
    assert(names_view(names@) =~= scene_names(ps));
    let mut out: Vec<Scene> = Vec::new();
    let mut n: usize = 0;
    assert(built_view(out@) =~= seq![]);
    while n < parsed.len()
        invariant
            ps == parsed_scenes_view(parsed@),
            n <= parsed@.len(),
            names_view(names@) == scene_names(ps),
            names@.len() == parsed@.len(),
            build_scenes(ps, n as int) == Ok::<Seq<(Seq<char>, Seq<StatementV>)>, BuildErrorV>(built_view(out@)),
            forall|k: int| 0 <= k < out@.len() ==> (#[trigger] out@[k])@.index == 0,
        decreases parsed@.len() - n,
    {
        let sc = &parsed[n];
        assert(ps[n as int] == sc@);
        if sc.items.len() == 0 {
            proof {
                lemma_build_scenes_err_stays(ps, n + 1, ps.len() as int);
            }
            return Err(BuildError::EmptyScene { name: sc.name.clone(), line: sc.line });
        }
        assert(names_view(names@)[n as int] == scene_names(ps)[n as int]);
        assert(names@[n as int]@ == sc.name@);
        if named_before(&names, n) {
            proof {
                lemma_build_scenes_err_stays(ps, n + 1, ps.len() as int);
            }
            return Err(BuildError::DuplicateScene { name: sc.name.clone(), line: sc.line });
        }
        match scene_statements(&sc.items, &names) {
            Err(e) => {
                proof {
                    lemma_build_scenes_err_stays(ps, n + 1, ps.len() as int);
                }
                return Err(e);
            },
            Ok(stmts) => {
                let ghost prev = built_view(out@);
                let scene = Scene::new(sc.name.clone(), stmts);
                out.push(scene);
                assert(built_view(out@) =~= prev.push((sc@.name, scene@.statements)));
            },
        }
        n = n + 1;
    }
    Ok(out)
}

} // verus!

//! The entry point: from script text to a playable act.
use vstd::prelude::*;
use crate::ast::StatementV;
use crate::builder::{build, build_items, build_scenes, build_spec, built_view, scene_names, BuildError, BuildErrorV};
use crate::playback::{find_scene, scenes_view, Act, ActV, SceneV};
use crate::script::{parse, parse_spec, ParsedLineV, ParsedSceneV, SyntaxError, SyntaxErrorV};

verus! {

/// Why a script could not be loaded.
#[derive(Debug, Clone, PartialEq, Eq)]
pub enum LoadError {
    Syntax(SyntaxError),
    Build(BuildError),
}

pub enum LoadErrorV {
    Syntax(SyntaxErrorV),
    Build(BuildErrorV),
}

impl View for LoadError {
    type V = LoadErrorV;

    open spec fn view(&self) -> LoadErrorV {
        match self {
            LoadError::Syntax(e) => LoadErrorV::Syntax(e@),
            LoadError::Build(e) => LoadErrorV::Build(e@),
        }
    }
}

/// A fresh act: at the first statement of the first scene, nothing played.
pub open spec fn initial_act(name: Seq<char>, built: Seq<(Seq<char>, Seq<StatementV>)>) -> ActV {
    ActV {
        name,
        scenes: built.map_values(|p: (Seq<char>, Seq<StatementV>)| SceneV { name: p.0, statements: p.1, index: 0 }),
        scene_index: 0,
        entered: false,
        history: seq![],
    }
}

/// The act that script `src` compiles to under the name `name`, or why it does not.
pub open spec fn load_spec(src: Seq<char>, name: Seq<char>) -> Result<ActV, LoadErrorV> {
    match parse_spec(src) {
        Err(e) => Err(LoadErrorV::Syntax(e)),
        Ok(ps) => match build_spec(ps) {
            Err(e) => Err(LoadErrorV::Build(e)),
            Ok(built) => Ok(initial_act(name, built)),
        },
    }
}

proof fn lemma_build_items_props(items: Seq<ParsedLineV>, names: Seq<Seq<char>>, n: int)
    requires
        0 <= n <= items.len(),
        build_items(items, names, n) is Ok,
    ensures
        build_items(items, names, n)->Ok_0.len() == n,
        forall|k: int| 0 <= k < n && (#[trigger] build_items(items, names, n)->Ok_0[k]) is Jump
            ==> names.contains(build_items(items, names, n)->Ok_0[k]->Jump_0),
    decreases n,
{
    if n > 0 {
        lemma_build_items_props(items, names, n - 1);
        let prev = build_items(items, names, n - 1)->Ok_0;
        let ss = build_items(items, names, n)->Ok_0;
        assert forall|k: int| 0 <= k < n && (#[trigger] ss[k]) is Jump implies names.contains(ss[k]->Jump_0) by {
            if k < n - 1 {
                assert(ss[k] == prev[k]);
            }
        }
    }
}

proof fn lemma_build_scenes_props(ps: Seq<ParsedSceneV>, n: int)
    requires
        0 <= n <= ps.len(),
        build_scenes(ps, n) is Ok,
    ensures
        ({
            let out = build_scenes(ps, n)->Ok_0;
            &&& out.len() == n
            &&& forall|i: int| 0 <= i < n ==> (#[trigger] out[i]).0 == ps[i].name && out[i].1.len() > 0
            &&& forall|i: int, j: int| 0 <= i < j < n ==> (#[trigger] out[i]).0 != (#[trigger] out[j]).0
            &&& forall|i: int, k: int| 0 <= i < n && 0 <= k < out[i].1.len() && (#[trigger] out[i].1[k]) is Jump
                ==> scene_names(ps).contains(out[i].1[k]->Jump_0)
        }),
    decreases n,
{
    if n > 0 {
        lemma_build_scenes_props(ps, n - 1);
        let prev = build_scenes(ps, n - 1)->Ok_0;
        let out = build_scenes(ps, n)->Ok_0;
        let sc = ps[n - 1];
        lemma_build_items_props(sc.items, scene_names(ps), sc.items.len() as int);
        assert(out == prev.push((sc.name, build_items(sc.items, scene_names(ps), sc.items.len() as int)->Ok_0)));
        assert forall|i: int| 0 <= i < n - 1 implies ps[i].name != sc.name by {
            assert(scene_names(ps).take(n - 1)[i] == ps[i].name);
        }
        assert forall|i: int, j: int| 0 <= i < j < n implies (#[trigger] out[i]).0 != (#[trigger] out[j]).0 by {
            if j < n - 1 {
                assert(out[i] == prev[i] && out[j] == prev[j]);
            } else {
                assert(out[i] == prev[i]);
            }
        }
        assert forall|i: int, k: int| 0 <= i < n && 0 <= k < out[i].1.len() && (#[trigger] out[i].1[k]) is Jump
            implies scene_names(ps).contains(out[i].1[k]->Jump_0) by {
            if i < n - 1 {
                assert(out[i] == prev[i]);
            }
        }
    }
}

proof fn lemma_find_scene_exists(scenes: Seq<SceneV>, x: Seq<char>, j: int, i: int)
    requires
        0 <= j <= i < scenes.len(),
        scenes[i].name == x,
    ensures
        find_scene(scenes, x, j) is Some,
    decreases i - j,
{
    if scenes[j].name != x {
        lemma_find_scene_exists(scenes, x, j + 1, i);
    }
}

/// A fresh act over what the builder accepted is well formed.
proof fn lemma_initial_act_well_formed(name: Seq<char>, ps: Seq<ParsedSceneV>)
    requires
        build_spec(ps) is Ok,
    ensures
        initial_act(name, build_spec(ps)->Ok_0).well_formed(),
{
    let out = build_spec(ps)->Ok_0;
    lemma_build_scenes_props(ps, ps.len() as int);
    let a = initial_act(name, out);
    assert forall|i: int, k: int| 0 <= i < a.scenes.len() && 0 <= k < a.scenes[i].statements.len()
        && (#[trigger] a.scenes[i].statements[k]) is Jump
        implies find_scene(a.scenes, a.scenes[i].statements[k]->Jump_0, 0) is Some by {
        let x = a.scenes[i].statements[k]->Jump_0;
        assert(out[i].1[k] is Jump);
        let m = choose|m: int| 0 <= m < scene_names(ps).len() && scene_names(ps)[m] == x;
        assert(a.scenes[m].name == x);
        lemma_find_scene_exists(a.scenes, x, 0, m);
    }
}

/// Compiles script text into an act named `name`: reads it, builds its scenes, and
/// sets the cursor on the first statement of the first scene, with nothing played.
pub fn load(src: &str, name: &str) -> (r: Result<Act, LoadError>)
    ensures
        match r {
            Ok(a) => load_spec(src@, name@) == Ok::<ActV, LoadErrorV>(a@) && a@.well_formed(),
            Err(e) => load_spec(src@, name@) == Err::<ActV, LoadErrorV>(e@),
        },
{
    let parsed = match parse(src) {
        Err(e) => {
            return Err(LoadError::Syntax(e));
        },
        Ok(p) => p,
    };
    let scenes = match build(&parsed) {
        Err(e) => {
            return Err(LoadError::Build(e));
        },
        Ok(s) => s,
    };
    let ghost built = build_spec(parse_spec(src@)->Ok_0)->Ok_0;
    assert(scenes_view(scenes@) =~= initial_act(name@, built).scenes) by {
        assert forall|i: int| 0 <= i < scenes@.len() implies #[trigger] scenes_view(scenes@)[i] == initial_act(name@, built).scenes[i] by {
            assert(built_view(scenes@)[i] == built[i]);
            assert(scenes@[i]@.index == 0);
        }
    }
    proof {
        lemma_initial_act_well_formed(name@, parse_spec(src@)->Ok_0);
    }
    Ok(Act::new(name.to_owned(), scenes))
}

/// Every script that reads and builds (so it has a scene, and each scene a
/// statement) loads into a well-formed act whose current statement is the first
/// statement of its first scene, with nothing played yet.
pub proof fn lemma_load_starts_at_first_statement(src: Seq<char>, name: Seq<char>)
    requires
        parse_spec(src) is Ok,
        build_spec(parse_spec(src)->Ok_0) is Ok,
    ensures
        load_spec(src, name) is Ok,
        ({
            let a = load_spec(src, name)->Ok_0;
            let ps = parse_spec(src)->Ok_0;
            let built = build_spec(ps)->Ok_0;
            &&& a.well_formed()
            &&& a.scene_index == 0
            &&& a.cur_scene().name == ps[0].name
            &&& a.current() == built[0].1[0]
            &&& !a.entered
            &&& a.history.len() == 0
        }),
{
    let ps = parse_spec(src)->Ok_0;
    lemma_build_scenes_props(ps, ps.len() as int);
    lemma_initial_act_well_formed(name, ps);
}

} // verus!

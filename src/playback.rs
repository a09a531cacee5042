//! The playback engine: an act, its cursor over scenes and statements, and the
//! log of what has been played.
use vstd::prelude::*;
use crate::ast::{Statement, StatementV, statements_view};
use crate::text::same_text;

verus! {

/// An entry of the history log: a statement that was played, or a line of text.
#[derive(Debug, Clone, PartialEq, Eq)]
pub enum HistoryItem {
    Statement(Statement),
    Descriptor(String),
}

pub enum HistoryItemV {
    Statement(StatementV),
    Descriptor(Seq<char>),
}

impl View for HistoryItem {
    type V = HistoryItemV;

    open spec fn view(&self) -> HistoryItemV {
        match self {
            HistoryItem::Statement(s) => HistoryItemV::Statement(s@),
            HistoryItem::Descriptor(t) => HistoryItemV::Descriptor(t@),
        }
    }
}

pub open spec fn history_view(h: Seq<HistoryItem>) -> Seq<HistoryItemV> {
    h.map_values(|x: HistoryItem| x@)
}

/// The conditions under which the cursor cannot move as asked.
#[derive(Debug, Clone, PartialEq, Eq)]
pub enum PlaybackError {
    /// The last statement of the last scene has been played.
    ActFinished,
    /// The cursor is on the first statement of its scene.
    AtSceneStart,
    /// No statement before the cursor in its scene is dialogue.
    NoDialogueToRewindTo,
    /// No scene has this name.
    UnknownScene(String),
}

/// A named sequence of statements, with the position of the statement it is at.
#[derive(Debug)]
pub struct Scene {
    name: String,
    statements: Vec<Statement>,
    index: usize,
}

pub struct SceneV {
    pub name: Seq<char>,
    pub statements: Seq<StatementV>,
    pub index: int,
}

impl View for Scene {
    type V = SceneV;

    closed spec fn view(&self) -> SceneV {
        SceneV { name: self.name@, statements: statements_view(self.statements@), index: self.index as int }
    }
}

pub open spec fn scenes_view(s: Seq<Scene>) -> Seq<SceneV> {
    s.map_values(|x: Scene| x@)
}

impl Scene {
    /// A scene at its first statement.
    pub fn new(name: String, statements: Vec<Statement>) -> (r: Scene)
        ensures
            r@ == (SceneV { name: name@, statements: statements_view(statements@), index: 0 }),
    {
        Scene { name, statements, index: 0 }
    }

    pub fn name(&self) -> (r: &String)
        ensures
            r@ == self@.name,
    {
        &self.name
    }

    pub fn statements(&self) -> (r: &Vec<Statement>)
        ensures
            statements_view(r@) == self@.statements,
    {
        &self.statements
    }

    pub fn index(&self) -> (r: usize)
        ensures
            r as int == self@.index,
    {
        self.index
    }
}

/// The state of an act, as the contracts speak of it.
pub struct ActV {
    pub name: Seq<char>,
    pub scenes: Seq<SceneV>,
    pub scene_index: int,
    /// Whether the statement at the cursor has been played.
    pub entered: bool,
    pub history: Seq<HistoryItemV>,
}

/// The position of the last dialogue statement before position `i`.
pub open spec fn last_dialogue_before(stmts: Seq<StatementV>, i: int) -> Option<int>
    decreases i,
{
    if i <= 0 {
        None
    } else if stmts[i - 1] is Dialogue {
        Some(i - 1)
    } else {
        last_dialogue_before(stmts, i - 1)
    }
}

/// The position of the first scene named `name`, from position `j` on.
pub open spec fn find_scene(scenes: Seq<SceneV>, name: Seq<char>, j: int) -> Option<int>
    decreases scenes.len() - j,
{
    if j < 0 || j >= scenes.len() {
        None
    } else if scenes[j].name == name {
        Some(j)
    } else {
        find_scene(scenes, name, j + 1)
    }
}

/// The number of statements of the first `n` scenes.
pub open spec fn statements_before(scenes: Seq<SceneV>, n: int) -> int
    decreases n,
{
    if n <= 0 {
        0
    } else {
        statements_before(scenes, n - 1) + scenes[n - 1].statements.len()
    }
}

impl ActV {
    /// Every scene has a statement and a cursor within it, scene names are unique,
    /// every jump names a scene, and the log holds only played statements.
    pub open spec fn well_formed(self) -> bool {
        &&& self.scenes.len() > 0
        &&& 0 <= self.scene_index < self.scenes.len()
        &&& forall|i: int| 0 <= i < self.scenes.len() ==> #[trigger] self.scenes[i].statements.len() > 0
        &&& forall|i: int| 0 <= i < self.scenes.len() ==> 0 <= #[trigger] self.scenes[i].index < self.scenes[i].statements.len()
        &&& forall|i: int, j: int| 0 <= i < j < self.scenes.len() ==> #[trigger] self.scenes[i].name != #[trigger] self.scenes[j].name
        &&& forall|i: int, k: int| 0 <= i < self.scenes.len() && 0 <= k < self.scenes[i].statements.len()
            && (#[trigger] self.scenes[i].statements[k]) is Jump
            ==> find_scene(self.scenes, self.scenes[i].statements[k]->Jump_0, 0) is Some
        &&& forall|h: int| 0 <= h < self.history.len() ==> (#[trigger] self.history[h]) is Statement
        &&& !self.entered ==> self.scenes[self.scene_index].index == 0
    }

    pub open spec fn cur_scene(self) -> SceneV {
        self.scenes[self.scene_index]
    }

    /// The statement at the cursor.
    pub open spec fn current(self) -> StatementV {
        self.cur_scene().statements[self.cur_scene().index]
    }

    /// The act with the cursor at statement `k` of scene `s`.
    pub open spec fn at(self, s: int, k: int) -> ActV {
        ActV {
            scenes: self.scenes.update(s, SceneV { index: k, ..self.scenes[s] }),
            scene_index: s,
            ..self
        }
    }

    /// The act once the statement at the cursor is played and logged.
    pub open spec fn played(self) -> ActV {
        ActV { entered: true, history: self.history.push(HistoryItemV::Statement(self.current())), ..self }
    }

    /// Whether `advance` finds a statement to move to.
    pub open spec fn can_advance(self) -> bool {
        ||| !self.entered
        ||| self.cur_scene().index + 1 < self.cur_scene().statements.len()
        ||| self.scene_index + 1 < self.scenes.len()
    }

    /// The act after a successful `advance`.
    pub open spec fn advanced(self) -> ActV {
        if !self.entered {
            self.played()
        } else if self.cur_scene().index + 1 < self.cur_scene().statements.len() {
            self.at(self.scene_index, self.cur_scene().index + 1).played()
        } else {
            self.at(self.scene_index + 1, 0).played()
        }
    }

    /// The act after `n` successful advances.
    pub open spec fn advanced_by(self, n: nat) -> ActV
        decreases n,
    {
        if n == 0 {
            self
        } else {
            self.advanced_by((n - 1) as nat).advanced()
        }
    }

    /// The act after a successful jump to scene `j`: at its first statement, not yet played.
    pub open spec fn jumped(self, j: int) -> ActV {
        ActV { entered: false, ..self.at(j, 0) }
    }

    /// How many steps back the last dialogue of the scene before the cursor lies.
    pub open spec fn rewind_distance(self) -> Result<int, PlaybackError> {
        let i = self.cur_scene().index;
        if i == 0 {
            Err(PlaybackError::AtSceneStart)
        } else {
            match last_dialogue_before(self.cur_scene().statements, i) {
                Some(k) => Ok(i - k),
                None => Err(PlaybackError::NoDialogueToRewindTo),
            }
        }
    }

    /// The act with the cursor one statement back, or left at the first statement.
    pub open spec fn stepped_back(self) -> ActV {
        let i = self.cur_scene().index;
        self.at(self.scene_index, if i > 0 { i - 1 } else { 0 })
    }

    /// The act after `n` steps back.
    pub open spec fn stepped_back_by(self, n: nat) -> ActV
        decreases n,
    {
        if n == 0 {
            self
        } else {
            self.stepped_back_by((n - 1) as nat).stepped_back()
        }
    }

    /// How many statements have been played to reach the cursor, counting scene by scene.
    pub open spec fn position(self) -> int {
        statements_before(self.scenes, self.scene_index) + self.cur_scene().index + if self.entered { 1int } else { 0int }
    }

    /// The number of statements of the act.
    pub open spec fn total_statements(self) -> int {
        statements_before(self.scenes, self.scenes.len() as int)
    }
}

proof fn lemma_find_scene_same_names(a: Seq<SceneV>, b: Seq<SceneV>, name: Seq<char>, j: int)
    requires
        a.len() == b.len(),
        forall|i: int| 0 <= i < a.len() ==> #[trigger] a[i].name == b[i].name,
    ensures
        find_scene(a, name, j) == find_scene(b, name, j),
    decreases a.len() - j,
{
    if 0 <= j < a.len() && a[j].name != name {
        lemma_find_scene_same_names(a, b, name, j + 1);
    }
}

proof fn lemma_find_scene_found(a: Seq<SceneV>, name: Seq<char>, j: int)
    ensures
        find_scene(a, name, j) matches Some(k) ==> j <= k < a.len() && a[k].name == name,
    decreases a.len() - j,
{
    if 0 <= j < a.len() && a[j].name != name {
        lemma_find_scene_found(a, name, j + 1);
    }
}

/// Moving the cursor within the act keeps it well formed.
proof fn lemma_at_well_formed(a: ActV, s: int, k: int)
    requires
        a.well_formed(),
        0 <= s < a.scenes.len(),
        0 <= k < a.scenes[s].statements.len(),
        a.entered || k == 0,
    ensures
        a.at(s, k).well_formed(),
        (ActV { entered: false, ..a.at(s, k) }).well_formed() || k != 0,
{
    let b = a.at(s, k);
    assert forall|i: int| 0 <= i < a.scenes.len() implies #[trigger] b.scenes[i].name == a.scenes[i].name
        && b.scenes[i].statements == a.scenes[i].statements by {}
    assert forall|n: Seq<char>| find_scene(b.scenes, n, 0) == find_scene(a.scenes, n, 0) by {
        lemma_find_scene_same_names(b.scenes, a.scenes, n, 0);
    }
}

/// Playing the statement at the cursor keeps the act well formed.
proof fn lemma_played_well_formed(a: ActV)
    requires
        a.well_formed(),
    ensures
        a.played().well_formed(),
{
    let b = a.played();
    assert forall|h: int| 0 <= h < b.history.len() implies (#[trigger] b.history[h]) is Statement by {
        if h < a.history.len() {
            assert(b.history[h] == a.history[h]);
        }
    }
}

/// A compiled script: its scenes, the cursor, and the history log.
///
/// Acts are made by `load`, which makes them well formed, and every method keeps
/// them so.
#[derive(Debug)]
pub struct Act {
    name: String,
    scenes: Vec<Scene>,
    scene_index: usize,
    entered: bool,
    history: Vec<HistoryItem>,
}

impl View for Act {
    type V = ActV;

    closed spec fn view(&self) -> ActV {
        ActV {
            name: self.name@,
            scenes: scenes_view(self.scenes@),
            scene_index: self.scene_index as int,
            entered: self.entered,
            history: history_view(self.history@),
        }
    }
}

impl Act {
    /// A fresh act over `scenes`, at the first statement of the first scene, with
    /// nothing played.
    pub(crate) fn new(name: String, scenes: Vec<Scene>) -> (r: Act)
        requires
            (ActV {
                name: name@,
                scenes: scenes_view(scenes@),
                scene_index: 0,
                entered: false,
                history: seq![],
            }).well_formed(),
        ensures
            r@ == (ActV {
                name: name@,
                scenes: scenes_view(scenes@),
                scene_index: 0,
                entered: false,
                history: seq![],
            }),
    {
        let history: Vec<HistoryItem> = Vec::new();
        assert(history_view(history@) =~= seq![]);
        Act { name, scenes, scene_index: 0, entered: false, history }
    }

    pub fn name(&self) -> (r: &String)
        ensures
            r@ == self@.name,
    {
        &self.name
    }

    pub fn set_name(&mut self, name: String)
        requires
            old(self)@.well_formed(),
        ensures
            final(self)@.well_formed(),
            final(self)@ == (ActV { name: name@, ..old(self)@ }),
    {
        self.name = name;
    }

    pub fn scenes(&self) -> (r: &Vec<Scene>)
        ensures
            scenes_view(r@) == self@.scenes,
    {
        &self.scenes
    }

    pub fn scene_index(&self) -> (r: usize)
        ensures
            r as int == self@.scene_index,
    {
        self.scene_index
    }

    pub fn history(&self) -> (r: &Vec<HistoryItem>)
        ensures
            history_view(r@) == self@.history,
    {
        &self.history
    }

    /// The statement at the cursor.
    pub fn current(&self) -> (r: Option<Statement>)
        requires
            self@.well_formed(),
        ensures
            r is Some,
            r->Some_0@ == self@.current(),
    {
        let scene = &self.scenes[self.scene_index];
        Some(scene.statements[scene.index].duplicate())
    }

    /// Plays the statement at the cursor: logs it and marks it played.
    fn play_current(&mut self)
        requires
            old(self)@.well_formed(),
        ensures
            final(self)@ == old(self)@.played(),
    {
        let si = self.scene_index;
        let s = self.scenes[si].statements[self.scenes[si].index].duplicate();
        let ghost before = self.history@;
        self.history.push(HistoryItem::Statement(s));
        assert(history_view(self.history@) =~= history_view(before).push(HistoryItemV::Statement(old(self)@.current())));
        self.entered = true;
    }

    /// Moves the cursor to the next statement, in this scene or at the start of the
    /// next one, and logs the statement it lands on. When the cursor has not played
    /// its statement yet (a fresh act, or just after a scene change), it stays and
    /// plays that one. After the last statement of the last scene, fails with
    /// `ActFinished` and changes nothing.
    pub fn advance(&mut self) -> (r: Result<(), PlaybackError>)
        requires
            old(self)@.well_formed(),
        ensures
            final(self)@.well_formed(),
            match r {
                Ok(()) => old(self)@.can_advance() && final(self)@ == old(self)@.advanced(),
                Err(e) => !old(self)@.can_advance() && e == PlaybackError::ActFinished && final(self)@ == old(self)@,
            },
    {
        let si = self.scene_index;
        assert(self@.scenes[si as int] == self.scenes@[si as int]@);
        assert(0 <= self@.scenes[si as int].index < self@.scenes[si as int].statements.len());
        assert(si < self.scenes@.len());
        if !self.entered {
            self.play_current();
            proof {
                lemma_played_well_formed(old(self)@);
            }
            Ok(())
        } else if self.scenes[si].statements.len() - self.scenes[si].index > 1 {
            let k = self.scenes[si].index + 1;
            self.scenes[si].index = k;
            assert(self@ == old(self)@.at(si as int, k as int)) by {
                assert(scenes_view(self.scenes@) =~= old(self)@.scenes.update(si as int, SceneV { index: k as int, ..old(self)@.scenes[si as int] }));
            }
            proof {
                lemma_at_well_formed(old(self)@, si as int, k as int);
                lemma_played_well_formed(self@);
            }
            self.play_current();
            Ok(())
        } else if self.scenes.len() - si > 1 {
            self.scenes[si + 1].index = 0;
            self.scene_index = si + 1;
            assert(self@ == old(self)@.at(si + 1, 0)) by {
                assert(scenes_view(self.scenes@) =~= old(self)@.scenes.update(si + 1, SceneV { index: 0, ..old(self)@.scenes[si + 1] }));
            }
            proof {
                lemma_at_well_formed(old(self)@, si + 1, 0);
                lemma_played_well_formed(self@);
            }
            self.play_current();
            Ok(())
        } else {
            Err(PlaybackError::ActFinished)
        }
    }

    fn scene_position(&self, name: &str) -> (r: Option<usize>)
        ensures
            match r {
                Some(j) => find_scene(self@.scenes, name@, 0) == Some(j as int),
                None => find_scene(self@.scenes, name@, 0) is None,
            },
    {
        let mut j: usize = 0;
        while j < self.scenes.len()
            invariant
                j <= self.scenes@.len(),
                find_scene(self@.scenes, name@, 0) == find_scene(self@.scenes, name@, j as int),
            decreases self.scenes@.len() - j,
        {
            if same_text(self.scenes[j].name.as_str(), name) {
                return Some(j);
            }
            j = j + 1;
        }
        None
    }

    /// Makes the scene called `name` current, at its first statement, which the next
    /// `advance` plays. With no scene of that name, fails with `UnknownScene` and
    /// changes nothing.
    pub fn change_scene(&mut self, name: &str) -> (r: Result<(), PlaybackError>)
        requires
            old(self)@.well_formed(),
        ensures
            final(self)@.well_formed(),
            match r {
                Ok(()) => find_scene(old(self)@.scenes, name@, 0) is Some
                    && final(self)@ == old(self)@.jumped(find_scene(old(self)@.scenes, name@, 0)->Some_0),
                Err(e) => find_scene(old(self)@.scenes, name@, 0) is None
                    && (e matches PlaybackError::UnknownScene(n) && n@ == name@)
                    && final(self)@ == old(self)@,
            },
    {
        match self.scene_position(name) {
            None => Err(PlaybackError::UnknownScene(name.to_owned())),
            Some(j) => {
                proof {
                    lemma_find_scene_found(self@.scenes, name@, 0);
                    lemma_at_well_formed(old(self)@, j as int, 0);
                }
                self.scenes[j].index = 0;
                self.scene_index = j;
                self.entered = false;
                assert(self@ == old(self)@.jumped(j as int)) by {
                    assert(scenes_view(self.scenes@) =~= old(self)@.scenes.update(j as int, SceneV { index: 0, ..old(self)@.scenes[j as int] }));
                }
                Ok(())
            },
        }
    }

    /// How many `rewind_one_step` calls bring the cursor back to the last dialogue
    /// before it in the current scene. Fails with `AtSceneStart` at the first
    /// statement of the scene, and with `NoDialogueToRewindTo` when no statement
    /// before the cursor in the scene is dialogue.
    pub fn rewind_distance(&self) -> (r: Result<usize, PlaybackError>)
        requires
            self@.well_formed(),
        ensures
            match r {
                Ok(d) => self@.rewind_distance() == Ok::<int, PlaybackError>(d as int),
                Err(e) => self@.rewind_distance() == Err::<int, PlaybackError>(e),
            },
    {
        let scene = &self.scenes[self.scene_index];
        assert(scene@ == self@.cur_scene());
        let i = scene.index;
        if i == 0 {
            return Err(PlaybackError::AtSceneStart);
        }
        let mut k = i;
        while k > 0
            invariant
                k <= i < scene.statements@.len(),
                scene@ == self@.cur_scene(),
                i as int == scene@.index,
                last_dialogue_before(scene@.statements, i as int) == last_dialogue_before(scene@.statements, k as int),
            decreases k,
        {
            assert(scene@.statements[k - 1] == scene.statements@[k - 1]@);
            if let Statement::Dialogue(_) = &scene.statements[k - 1] {
                return Ok(i - (k - 1));
            }
            k = k - 1;
        }
        Err(PlaybackError::NoDialogueToRewindTo)
    }

    /// Moves the cursor one statement back in its scene; at the first statement, stays.
    pub fn rewind_one_step(&mut self)
        requires
            old(self)@.well_formed(),
        ensures
            final(self)@.well_formed(),
            final(self)@ == old(self)@.stepped_back(),
    {
        let si = self.scene_index;
        assert(self@.scenes[si as int] == self.scenes@[si as int]@);
        assert(0 <= self@.scenes[si as int].index < self@.scenes[si as int].statements.len());
        let i = self.scenes[si].index;
        let k = if i > 0 { i - 1 } else { 0 };
        proof {
            lemma_at_well_formed(old(self)@, si as int, k as int);
        }
        self.scenes[si].index = k;
        assert(self@ == old(self)@.at(si as int, k as int)) by {
            assert(scenes_view(self.scenes@) =~= old(self)@.scenes.update(si as int, SceneV { index: k as int, ..old(self)@.scenes[si as int] }));
        }
    }
}

proof fn lemma_statements_before_same(a: Seq<SceneV>, b: Seq<SceneV>, n: int)
    requires
        0 <= n <= a.len(),
        a.len() == b.len(),
        forall|i: int| 0 <= i < a.len() ==> #[trigger] a[i].statements == b[i].statements,
    ensures
        statements_before(a, n) == statements_before(b, n),
    decreases n,
{
    if n > 0 {
        lemma_statements_before_same(a, b, n - 1);
    }
}

proof fn lemma_statements_before_grows(a: Seq<SceneV>, s: int, t: int)
    requires
        0 <= s <= t <= a.len(),
    ensures
        statements_before(a, s) <= statements_before(a, t),
    decreases t - s,
{
    if s < t {
        lemma_statements_before_grows(a, s, t - 1);
    }
}

/// One successful advance from a well-formed act keeps it well formed and moves
/// one statement further; an advance succeeds exactly while statements remain.
proof fn lemma_advance_step(a: ActV)
    requires
        a.well_formed(),
    ensures
        a.can_advance() <==> a.position() < a.total_statements(),
        a.can_advance() ==> a.advanced().well_formed() && a.advanced().position() == a.position() + 1
            && a.advanced().total_statements() == a.total_statements(),
{
    let si = a.scene_index;
    let len = a.cur_scene().statements.len();
    let idx = a.cur_scene().index;
    lemma_statements_before_grows(a.scenes, si + 1, a.scenes.len() as int);
    assert(statements_before(a.scenes, si + 1) == statements_before(a.scenes, si) + len);
    if !a.entered {
        lemma_played_well_formed(a);
    } else if idx + 1 < len {
        lemma_at_well_formed(a, si, idx + 1);
        lemma_played_well_formed(a.at(si, idx + 1));
        lemma_statements_before_same(a.at(si, idx + 1).scenes, a.scenes, si);
        lemma_statements_before_same(a.at(si, idx + 1).scenes, a.scenes, a.scenes.len() as int);
    } else if si + 1 < a.scenes.len() {
        lemma_statements_before_grows(a.scenes, si + 2, a.scenes.len() as int);
        assert(a.scenes[si + 1].statements.len() > 0);
        lemma_at_well_formed(a, si + 1, 0);
        lemma_played_well_formed(a.at(si + 1, 0));
        lemma_statements_before_same(a.at(si + 1, 0).scenes, a.scenes, si + 1);
        lemma_statements_before_same(a.at(si + 1, 0).scenes, a.scenes, a.scenes.len() as int);
    }
}

/// From a fresh act (nothing played, at the first scene), `advance` succeeds exactly
/// as many times as the act has statements: each of the first that many advances
/// finds a statement, and the next one reports the act finished.
pub proof fn lemma_advance_count(a: ActV, n: nat)
    requires
        a.well_formed(),
        !a.entered,
        a.scene_index == 0,
    ensures
        n < a.total_statements() ==> a.advanced_by(n).can_advance(),
        !a.advanced_by(a.total_statements() as nat).can_advance(),
{
    lemma_statements_before_grows(a.scenes, 0, a.scenes.len() as int);
    if n < a.total_statements() {
        lemma_advanced_by(a, n);
        lemma_advance_step(a.advanced_by(n));
    }
    lemma_advanced_by(a, a.total_statements() as nat);
    lemma_advance_step(a.advanced_by(a.total_statements() as nat));
}

/// The first `n` advances from a fresh act, while statements remain, keep it well
/// formed and count one statement each.
proof fn lemma_advanced_by(a: ActV, n: nat)
    requires
        a.well_formed(),
        !a.entered,
        a.scene_index == 0,
        n <= a.total_statements(),
    ensures
        a.advanced_by(n).well_formed(),
        a.advanced_by(n).position() == n,
        a.advanced_by(n).total_statements() == a.total_statements(),
    decreases n,
{
    if n > 0 {
        lemma_advanced_by(a, (n - 1) as nat);
        lemma_advance_step(a.advanced_by((n - 1) as nat));
    } else {
        assert(statements_before(a.scenes, 0) == 0);
    }
}

proof fn lemma_last_dialogue_before(s: Seq<StatementV>, i: int)
    requires
        0 <= i <= s.len(),
    ensures
        match last_dialogue_before(s, i) {
            Some(k) => 0 <= k < i && s[k] is Dialogue && forall|m: int| k < m < i ==> !(#[trigger] s[m] is Dialogue),
            None => forall|m: int| 0 <= m < i ==> !(#[trigger] s[m] is Dialogue),
        },
    decreases i,
{
    if i > 0 {
        lemma_last_dialogue_before(s, i - 1);
    }
}

proof fn lemma_stepped_back_by(a: ActV, n: nat)
    requires
        a.well_formed(),
        n <= a.cur_scene().index,
    ensures
        a.stepped_back_by(n) == a.at(a.scene_index, a.cur_scene().index - n),
    decreases n,
{
    let si = a.scene_index;
    if n == 0 {
        assert(a.at(si, a.cur_scene().index).scenes =~= a.scenes);
    } else {
        lemma_stepped_back_by(a, (n - 1) as nat);
        let b = a.at(si, a.cur_scene().index - (n - 1));
        assert(b.stepped_back().scenes =~= a.at(si, a.cur_scene().index - n).scenes);
    }
}

/// Rewinding as `rewind_distance` says: when it succeeds, that many steps back put
/// the cursor on the last dialogue before it in the same scene, with no dialogue
/// between, the log untouched and the act well formed; it fails exactly when no
/// statement before the cursor in the scene is dialogue.
pub proof fn lemma_rewind_lands_on_dialogue(a: ActV)
    requires
        a.well_formed(),
    ensures
        a.rewind_distance() is Err <==> forall|m: int| 0 <= m < a.cur_scene().index
            ==> !(#[trigger] a.cur_scene().statements[m] is Dialogue),
        a.rewind_distance() matches Ok(d) ==> {
            let b = a.stepped_back_by(d as nat);
            &&& b.well_formed()
            &&& b.scene_index == a.scene_index
            &&& b.history == a.history
            &&& b.cur_scene().index < a.cur_scene().index
            &&& b.current() is Dialogue
            &&& forall|m: int| b.cur_scene().index < m < a.cur_scene().index
                ==> !(#[trigger] a.cur_scene().statements[m] is Dialogue)
        },
{
    let i = a.cur_scene().index;
    let stmts = a.cur_scene().statements;
    lemma_last_dialogue_before(stmts, i);
    if let Some(k) = last_dialogue_before(stmts, i) {
        if i > 0 {
            lemma_stepped_back_by(a, (i - k) as nat);
            lemma_at_well_formed(a, a.scene_index, k);
        }
    }
}

} // verus!

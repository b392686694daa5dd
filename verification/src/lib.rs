//! A lightweight composition layer for frame-stepped interactive programs:
//! generation-checked resource tickets, a layered scene stage, and an
//! edge-detecting input action engine, assembled by a host loop that the
//! application drives.

pub mod app;
pub mod draw;
pub mod input;
pub mod loading;
pub mod scene;
pub mod utility;
pub mod utility2d;

use vstd::prelude::*;
use vstd::hash_map::StringHashMap;
use vstd::pervasive::unreached;
use crate::scene::Scene;

verus! {

/// What a scene asks of the outside world during an update tick: either a
/// message for a sibling scene, delivered immediately by the stage, or an
/// instruction handed back to the host once the tick is over.
pub enum Response<Key, Message, Instruction> {
    Message(Key, Message),
    Instruction(Instruction),
}

/// Structural failures of the stage's passes. An empty active list and a
/// message to an unregistered key are programming errors surfaced as values,
/// not faults to retry.
#[derive(Debug)]
pub enum StageError {
    NoScenesToUpdateError,
    NoScenesToDrawError,
    UpdateSceneNotFoundError(String),
    MessageSceneNotFoundError(String),
}

/// Ghost image of a [`Stage`]: the stored scenes, the key-to-slot lookup,
/// and the active list, bottom to top.
pub struct StageView<S> {
    pub scenes: Seq<S>,
    pub keys: Map<Seq<char>, usize>,
    pub active: Seq<String>,
}

impl<S> StageView<S> {
    /// Every registered key names a live slot, and no two keys share one.
    pub open spec fn wf(self) -> bool {
        &&& forall|k: Seq<char>| #[trigger] self.keys.contains_key(k) ==> self.keys[k]
            < self.scenes.len()
        &&& forall|k1: Seq<char>, k2: Seq<char>|
            #![trigger self.keys[k1], self.keys[k2]]
            self.keys.contains_key(k1) && self.keys.contains_key(k2) && self.keys[k1]
                == self.keys[k2] ==> k1 == k2
    }

    /// Every active key is registered (what the draw pass requires).
    pub open spec fn active_registered(self) -> bool {
        forall|i: int| 0 <= i < self.active.len() ==> self.keys.contains_key(
            #[trigger] self.active[i]@,
        )
    }
}

/// Result of running (part of) an update pass at the specification level:
/// the scene states it leaves behind, the instructions gathered so far, and
/// the error that stopped it, if one did. On an error the instructions are
/// the ones gathered before the stop; the stage then discards them.
pub struct UpdateOutcome<S: Scene> {
    pub scenes: Seq<S>,
    pub instructions: Seq<S::Instruction>,
    pub error: Option<StageError>,
}

/// Folds one scene's responses, in emission order, into the stage: a
/// message mutates its target scene at once (or stops the pass if the target
/// key is unregistered), an instruction is appended to the gathered list.
pub open spec fn dispatch_outcome<S: Scene<Key = String>>(
    scenes: Seq<S>,
    keys: Map<Seq<char>, usize>,
    responses: Seq<Response<String, S::Message, S::Instruction>>,
    instructions: Seq<S::Instruction>,
) -> UpdateOutcome<S>
    decreases responses.len(),
{
    if responses.len() == 0 {
        UpdateOutcome { scenes, instructions, error: None }
    } else {
        match responses[0] {
            Response::Message(target, message) => {
                if keys.contains_key(target@) {
                    let idx = keys[target@] as int;
                    dispatch_outcome(
                        scenes.update(idx, scenes[idx].post_receive(message)),
                        keys,
                        responses.drop_first(),
                        instructions,
                    )
                } else {
                    UpdateOutcome {
                        scenes,
                        instructions,
                        error: Some(StageError::MessageSceneNotFoundError(target)),
                    }
                }
            },
            Response::Instruction(instruction) => dispatch_outcome(
                scenes,
                keys,
                responses.drop_first(),
                instructions.push(instruction),
            ),
        }
    }
}

/// The update pass from the active scene at index `i` downward: update that
/// scene, dispatch its responses, and continue below it only while the scene
/// just updated is not blocking (queried on its fresh state) and the bottom
/// has not been reached.
pub open spec fn update_pass<S: Scene<Key = String>>(
    scenes: Seq<S>,
    keys: Map<Seq<char>, usize>,
    active: Seq<String>,
    update: S::Update,
    delta: S::Time,
    i: int,
    instructions: Seq<S::Instruction>,
) -> UpdateOutcome<S>
    decreases i,
    when 0 <= i < active.len()
{
    let target = active[i];
    if !keys.contains_key(target@) {
        UpdateOutcome {
            scenes,
            instructions,
            error: Some(StageError::UpdateSceneNotFoundError(target)),
        }
    } else {
        let idx = keys[target@] as int;
        let outcome = dispatch_outcome(
            scenes.update(idx, scenes[idx].post_update(update, delta)),
            keys,
            scenes[idx].responses_of(update, delta),
            instructions,
        );
        if outcome.error is Some {
            outcome
        } else if outcome.scenes[idx].spec_blocking() || i == 0 {
            outcome
        } else {
            update_pass(outcome.scenes, keys, active, update, delta, i - 1, outcome.instructions)
        }
    }
}

/// The index the draw pass starts from: scanning down from the active scene
/// at index `i`, the first covering scene found, or the bottom.
pub open spec fn draw_start<S: Scene<Key = String>>(
    scenes: Seq<S>,
    keys: Map<Seq<char>, usize>,
    active: Seq<String>,
    i: int,
) -> int
    decreases i,
    when 0 <= i < active.len()
{
    if i <= 0 {
        0
    } else if keys.contains_key(active[i]@) && scenes[keys[active[i]@] as int].spec_covering() {
        i
    } else {
        draw_start(scenes, keys, active, i - 1)
    }
}

/// Where the update pass descending from index `i` stops, for scenes that
/// emit no responses: the first index at which the freshly updated scene
/// blocks, or the bottom of the active list.
pub open spec fn blocking_stop<S: Scene<Key = String>>(
    scenes: Seq<S>,
    keys: Map<Seq<char>, usize>,
    active: Seq<String>,
    update: S::Update,
    delta: S::Time,
    i: int,
) -> int
    decreases i,
    when 0 <= i < active.len()
{
    if i <= 0 {
        0
    } else if scenes[keys[active[i]@] as int].post_update(update, delta).spec_blocking() {
        i
    } else {
        blocking_stop(scenes, keys, active, update, delta, i - 1)
    }
}

/// `blocking_stop` stays within the range it descends over.
proof fn lemma_blocking_stop_bounds<S: Scene<Key = String>>(
    scenes: Seq<S>,
    keys: Map<Seq<char>, usize>,
    active: Seq<String>,
    update: S::Update,
    delta: S::Time,
    i: int,
)
    requires
        0 <= i < active.len(),
    ensures
        0 <= blocking_stop(scenes, keys, active, update, delta, i) <= i,
    decreases i,
{
    if i > 0 && !scenes[keys[active[i]@] as int].post_update(update, delta).spec_blocking() {
        lemma_blocking_stop_bounds(scenes, keys, active, update, delta, i - 1);
    }
}

/// `blocking_stop` reads only the scenes the active list names up to `i`.
proof fn lemma_blocking_stop_agrees<S: Scene<Key = String>>(
    scenes1: Seq<S>,
    scenes2: Seq<S>,
    keys: Map<Seq<char>, usize>,
    active: Seq<String>,
    update: S::Update,
    delta: S::Time,
    i: int,
)
    requires
        0 <= i < active.len(),
        forall|j: int| 0 <= j <= i ==> scenes1[keys[#[trigger] active[j]@] as int] == scenes2[keys[
            active[j]@
        ] as int],
    ensures
        blocking_stop(scenes1, keys, active, update, delta, i) == blocking_stop(
            scenes2,
            keys,
            active,
            update,
            delta,
            i,
        ),
    decreases i,
{
    if i > 0 {
        lemma_blocking_stop_agrees(scenes1, scenes2, keys, active, update, delta, i - 1);
    }
}

/// The blocking rule of the update pass, for scenes that emit no responses
/// (messages move state between layers and are covered by `update_pass`
/// itself): descending from index `i`, exactly the scenes from
/// `blocking_stop` up to `i` are updated, each exactly once from its
/// original state, and every other scene — in particular every active
/// scene below the stop — is left untouched. With a blocking scene at the
/// top, only it updates.
pub proof fn lemma_update_pass_blocking_descent<S: Scene<Key = String>>(
    scenes: Seq<S>,
    keys: Map<Seq<char>, usize>,
    active: Seq<String>,
    update: S::Update,
    delta: S::Time,
    i: int,
    instructions: Seq<S::Instruction>,
)
    requires
        forall|k: Seq<char>| #[trigger] keys.contains_key(k) ==> keys[k] < scenes.len(),
        forall|k1: Seq<char>, k2: Seq<char>|
            #![trigger keys[k1], keys[k2]]
            keys.contains_key(k1) && keys.contains_key(k2) && keys[k1] == keys[k2] ==> k1 == k2,
        forall|j: int| 0 <= j < active.len() ==> keys.contains_key(#[trigger] active[j]@),
        0 <= i < active.len(),
        forall|j1: int, j2: int| 0 <= j1 < j2 < active.len() ==> #[trigger] active[j1]@
            != #[trigger] active[j2]@,
        forall|j: int| 0 <= j <= i ==> scenes[keys[#[trigger] active[j]@] as int].responses_of(
            update,
            delta,
        ).len() == 0,
    ensures
        ({
            let outcome = update_pass(scenes, keys, active, update, delta, i, instructions);
            let stop = blocking_stop(scenes, keys, active, update, delta, i);
            &&& 0 <= stop <= i
            &&& outcome.error is None
            &&& outcome.instructions == instructions
            &&& forall|j: int| stop <= j <= i ==> outcome.scenes[keys[#[trigger] active[j]@] as int]
                == scenes[keys[active[j]@] as int].post_update(update, delta)
            &&& (forall|slot: int|
                0 <= slot < scenes.len() && !(exists|j: int| stop <= j <= i && keys[
                    #[trigger] active[j]@
                ] == slot) ==> #[trigger] outcome.scenes[slot] == scenes[slot])
        }),
    decreases i,
{
    let idx = keys[active[i]@] as int;
    let updated_scene = scenes[idx].post_update(update, delta);
    let scenes1 = scenes.update(idx, updated_scene);
    assert(keys.contains_key(active[i]@));
    assert(idx < scenes.len());
    assert(scenes1[idx] == updated_scene);
    assert(dispatch_outcome(
        scenes1,
        keys,
        scenes[idx].responses_of(update, delta),
        instructions,
    ) == UpdateOutcome::<S> { scenes: scenes1, instructions, error: None });
    lemma_blocking_stop_bounds(scenes, keys, active, update, delta, i);
    let outcome = update_pass(scenes, keys, active, update, delta, i, instructions);
    let stop = blocking_stop(scenes, keys, active, update, delta, i);
    if updated_scene.spec_blocking() || i == 0 {
        // the pass stops here; only the scene at `i` was touched
        assert(outcome == UpdateOutcome::<S> { scenes: scenes1, instructions, error: None });
        assert(stop == i);
        assert forall|slot: int|
            0 <= slot < scenes.len() && !(exists|j: int| stop <= j <= i && keys[
                #[trigger] active[j]@
            ] == slot) implies outcome.scenes[slot] == scenes[slot] by {
            if slot == idx {
                assert(keys[active[i]@] == slot);
                assert(false);
            }
        }
    } else {
        // the slot updated at `i` is named nowhere below `i`
        assert forall|j: int| 0 <= j <= i - 1 implies keys[#[trigger] active[j]@] as int
            != idx by {
            assert(keys.contains_key(active[j]@));
            assert(keys.contains_key(active[i]@));
            assert(active[j]@ != active[i]@);
            assert(!(keys[active[j]@] == keys[active[i]@] && active[j]@ != active[i]@));
        }
        assert forall|j: int| 0 <= j <= i - 1 implies scenes1[keys[#[trigger] active[j]@] as int]
            == scenes[keys[active[j]@] as int] by {
            assert(keys[active[j]@] as int != idx);
        }
        lemma_update_pass_blocking_descent(
            scenes1,
            keys,
            active,
            update,
            delta,
            i - 1,
            instructions,
        );
        lemma_blocking_stop_agrees(scenes1, scenes, keys, active, update, delta, i - 1);
        let sub = update_pass(scenes1, keys, active, update, delta, i - 1, instructions);
        let sub_stop = blocking_stop(scenes1, keys, active, update, delta, i - 1);
        assert(outcome == sub);
        assert(stop == sub_stop);
        // the freshly updated top scene keeps its state through the sub-pass
        lemma_blocking_stop_bounds(scenes1, keys, active, update, delta, i - 1);
        assert(forall|j: int| sub_stop <= j <= i - 1 ==> keys[#[trigger] active[j]@] as int
            != idx);
        assert(sub.scenes[idx] == scenes1[idx]);
        assert forall|j: int| stop <= j <= i implies outcome.scenes[keys[
            #[trigger] active[j]@
        ] as int] == scenes[keys[active[j]@] as int].post_update(update, delta) by {
            if j == i {
                assert(outcome.scenes[idx] == scenes1[idx]);
            } else {
                assert(sub.scenes[keys[active[j]@] as int] == scenes1[keys[
                    active[j]@
                ] as int].post_update(update, delta));
                assert(scenes1[keys[active[j]@] as int] == scenes[keys[active[j]@] as int]);
            }
        }
        assert forall|slot: int|
            0 <= slot < scenes.len() && !(exists|j: int| stop <= j <= i && keys[
                #[trigger] active[j]@
            ] == slot) implies outcome.scenes[slot] == scenes[slot] by {
            if slot == idx {
                assert(keys[active[i]@] == slot);
                assert(false);
            }
            assert(!(exists|j: int| sub_stop <= j <= i - 1 && keys[#[trigger] active[j]@]
                == slot)) by {
                if exists|j: int| sub_stop <= j <= i - 1 && keys[#[trigger] active[j]@] == slot {
                    let j0 = choose|j: int| sub_stop <= j <= i - 1 && keys[
                        #[trigger] active[j]@
                    ] == slot;
                    assert(stop <= j0 <= i && keys[active[j0]@] == slot);
                    assert(false);
                }
            }
            assert(sub.scenes[slot] == scenes1[slot]);
            assert(scenes1[slot] == scenes[slot]);
        }
    }
}

/// Where the draw pass starts, characterized: the start is the bottom or a
/// covering scene, and no active scene strictly above it (up to `i`) is
/// covering — so a covering scene hides exactly what lies below itself.
pub proof fn lemma_draw_start_covering<S: Scene<Key = String>>(
    scenes: Seq<S>,
    keys: Map<Seq<char>, usize>,
    active: Seq<String>,
    i: int,
)
    requires
        0 <= i < active.len(),
    ensures
        ({
            let start = draw_start(scenes, keys, active, i);
            &&& 0 <= start <= i
            &&& start > 0 ==> keys.contains_key(active[start]@) && scenes[keys[
                active[start]@
            ] as int].spec_covering()
            &&& forall|j: int| start < j <= i && keys.contains_key(#[trigger] active[j]@)
                ==> !scenes[keys[active[j]@] as int].spec_covering()
        }),
    decreases i,
{
    if i > 0 && !(keys.contains_key(active[i]@) && scenes[keys[
        active[i]@
    ] as int].spec_covering()) {
        lemma_draw_start_covering(scenes, keys, active, i - 1);
    }
}

/// Message routing fails exactly on the first unregistered target: if the
/// responses up to position `j` name only registered targets and the one at
/// `j` is a message to an unregistered key, the dispatch stops with
/// `MessageSceneNotFoundError` carrying that key.
pub proof fn lemma_dispatch_unknown_target<S: Scene<Key = String>>(
    scenes: Seq<S>,
    keys: Map<Seq<char>, usize>,
    responses: Seq<Response<String, S::Message, S::Instruction>>,
    instructions: Seq<S::Instruction>,
    j: int,
)
    requires
        0 <= j < responses.len(),
        forall|l: int| 0 <= l < j ==> ((#[trigger] responses[l]) matches Response::Message(
            target,
            _,
        ) ==> keys.contains_key(target@)),
        responses[j] matches Response::Message(target, _) && !keys.contains_key(target@),
    ensures
        ({
            let outcome = dispatch_outcome(scenes, keys, responses, instructions);
            outcome.error matches Some(e) && e matches StageError::MessageSceneNotFoundError(
                missing,
            ) && missing == responses[j]->Message_0
        }),
    decreases j,
{
    if j > 0 {
        match responses[0] {
            Response::Message(target, message) => {
                let idx = keys[target@] as int;
                lemma_dispatch_unknown_target(
                    scenes.update(idx, scenes[idx].post_receive(message)),
                    keys,
                    responses.drop_first(),
                    instructions,
                    j - 1,
                );
            },
            Response::Instruction(instruction) => {
                lemma_dispatch_unknown_target(
                    scenes,
                    keys,
                    responses.drop_first(),
                    instructions.push(instruction),
                    j - 1,
                );
            },
        }
    }
}

/// The update pass reports the missing target of whichever updated scene
/// first names one: if the pass descends cleanly past the scenes above
/// index `j` (they emit nothing and do not block), and the scene at `j`
/// emits `responses` whose first message to an unregistered target stands
/// at position `p`, the whole pass stops with `MessageSceneNotFoundError`
/// carrying exactly that target key.
pub proof fn lemma_update_pass_reports_missing_target<S: Scene<Key = String>>(
    scenes: Seq<S>,
    keys: Map<Seq<char>, usize>,
    active: Seq<String>,
    update: S::Update,
    delta: S::Time,
    i: int,
    j: int,
    responses: Seq<Response<String, S::Message, S::Instruction>>,
    p: int,
    instructions: Seq<S::Instruction>,
)
    requires
        forall|k: Seq<char>| #[trigger] keys.contains_key(k) ==> keys[k] < scenes.len(),
        forall|k1: Seq<char>, k2: Seq<char>|
            #![trigger keys[k1], keys[k2]]
            keys.contains_key(k1) && keys.contains_key(k2) && keys[k1] == keys[k2] ==> k1 == k2,
        forall|l: int| 0 <= l < active.len() ==> keys.contains_key(#[trigger] active[l]@),
        forall|l1: int, l2: int| 0 <= l1 < l2 < active.len() ==> #[trigger] active[l1]@
            != #[trigger] active[l2]@,
        0 <= j <= i < active.len(),
        // the pass descends past every scene above `j`
        forall|l: int| j < l <= i ==> scenes[keys[#[trigger] active[l]@] as int].responses_of(
            update,
            delta,
        ).len() == 0,
        forall|l: int| j < l <= i ==> !scenes[keys[#[trigger] active[l]@] as int].post_update(
            update,
            delta,
        ).spec_blocking(),
        // the scene at `j` emits `responses`, whose first message to an
        // unregistered target stands at position `p`
        responses == scenes[keys[active[j]@] as int].responses_of(update, delta),
        0 <= p < responses.len(),
        forall|l: int| 0 <= l < p ==> ((#[trigger] responses[l]) matches Response::Message(
            target,
            _,
        ) ==> keys.contains_key(target@)),
        responses[p] matches Response::Message(target, _) && !keys.contains_key(target@),
    ensures
        ({
            let outcome = update_pass(scenes, keys, active, update, delta, i, instructions);
            outcome.error matches Some(e) && e matches StageError::MessageSceneNotFoundError(
                missing,
            ) && missing == responses[p]->Message_0
        }),
    decreases i - j,
{
    let idx = keys[active[i]@] as int;
    let updated_scene = scenes[idx].post_update(update, delta);
    let scenes1 = scenes.update(idx, updated_scene);
    assert(keys.contains_key(active[i]@));
    assert(idx < scenes.len());
    assert(scenes1[idx] == updated_scene);
    if i == j {
        lemma_dispatch_unknown_target(scenes1, keys, responses, instructions, p);
    } else {
        // the scene at `i` is one the pass descends past
        assert(scenes[idx].responses_of(update, delta).len() == 0);
        assert(dispatch_outcome(
            scenes1,
            keys,
            scenes[idx].responses_of(update, delta),
            instructions,
        ) == UpdateOutcome::<S> { scenes: scenes1, instructions, error: None });
        assert(!updated_scene.spec_blocking());
        // the slot updated at `i` is named nowhere below `i`
        assert forall|l: int| 0 <= l <= i - 1 implies keys[#[trigger] active[l]@] as int
            != idx by {
            assert(keys.contains_key(active[l]@));
            assert(keys.contains_key(active[i]@));
            assert(active[l]@ != active[i]@);
            assert(!(keys[active[l]@] == keys[active[i]@] && active[l]@ != active[i]@));
        }
        assert forall|l: int| 0 <= l <= i - 1 implies scenes1[keys[#[trigger] active[l]@] as int]
            == scenes[keys[active[l]@] as int] by {
            assert(keys[active[l]@] as int != idx);
        }
        lemma_update_pass_reports_missing_target(
            scenes1,
            keys,
            active,
            update,
            delta,
            i - 1,
            j,
            responses,
            p,
            instructions,
        );
        assert(update_pass(scenes, keys, active, update, delta, i, instructions) == update_pass(
            scenes1,
            keys,
            active,
            update,
            delta,
            i - 1,
            instructions,
        ));
    }
}

/// Registry of scenes plus the ordered active list (bottom to top) that
/// receives per-frame work. Order encodes z-order: each frame the stage
/// decides from the scenes' fresh `blocking`/`covering` flags which of them
/// update and draw, routes messages between them, and gathers instructions
/// for the host.
pub struct Stage<S> {
    scenes: Vec<S>,
    keys: StringHashMap<usize>,
    active: Vec<String>,
}

impl<S> View for Stage<S> {
    type V = StageView<S>;

    closed spec fn view(&self) -> StageView<S> {
        StageView { scenes: self.scenes@, keys: self.keys@, active: self.active@ }
    }
}

impl<S: Scene<Key = String>> Stage<S> {
    pub fn new() -> (r: Stage<S>)
        ensures
            r@.wf(),
            r@.scenes == Seq::<S>::empty(),
            r@.keys == Map::<Seq<char>, usize>::empty(),
            r@.active == Seq::<String>::empty(),
    {
        Stage { scenes: Vec::new(), keys: StringHashMap::new(), active: Vec::new() }
    }

    /// Registers `scene` under `key` (replacing in place what the key named
    /// before, if anything) and, if `active`, appends the key to the active
    /// list as the new top.
    pub fn add_scene(&mut self, key: String, scene: S, active: bool)
        requires
            old(self)@.wf(),
        ensures
            final(self)@.wf(),
            old(self)@.keys.contains_key(key@) ==> final(self)@.keys == old(self)@.keys
                && final(self)@.scenes == old(self)@.scenes.update(
                old(self)@.keys[key@] as int,
                scene,
            ),
            !old(self)@.keys.contains_key(key@) ==> final(self)@.keys == old(
                self,
            )@.keys.insert(key@, old(self)@.scenes.len() as usize) && final(self)@.scenes == old(
                self,
            )@.scenes.push(scene),
            active ==> final(self)@.active == old(self)@.active.push(key),
            !active ==> final(self)@.active == old(self)@.active,
    {
        if active {
            self.active.push(key.clone());
        }
        let slot = match self.keys.get(key.as_str()) {
            Some(i) => Some(*i),
            None => None,
        };
        match slot {
            Some(idx) => {
                proof {
                    assert(old(self)@.keys.contains_key(key@));
                }
                self.scenes[idx] = scene;
                proof {
                    assert forall|k: Seq<char>| #[trigger] self@.keys.contains_key(k)
                        implies self@.keys[k] < self@.scenes.len() by {
                        assert(old(self)@.keys.contains_key(k));
                    }
                    assert forall|k1: Seq<char>, k2: Seq<char>|
                        self@.keys.contains_key(k1) && self@.keys.contains_key(k2)
                            && #[trigger] self@.keys[k1] == #[trigger] self@.keys[k2]
                        implies k1 == k2 by {
                        assert(old(self)@.keys.contains_key(k1));
                        assert(old(self)@.keys.contains_key(k2));
                    }
                }
            },
            None => {
                self.scenes.push(scene);
                let idx = self.scenes.len() - 1;
                self.keys.insert(key, idx);
                proof {
                    assert forall|k: Seq<char>| #[trigger] self@.keys.contains_key(k)
                        implies self@.keys[k] < self@.scenes.len() by {
                        if k != key@ {
                            assert(old(self)@.keys.contains_key(k));
                        }
                    }
                    assert forall|k1: Seq<char>, k2: Seq<char>|
                        self@.keys.contains_key(k1) && self@.keys.contains_key(k2)
                            && #[trigger] self@.keys[k1] == #[trigger] self@.keys[k2]
                        implies k1 == k2 by {
                        if k1 != key@ && k2 != key@ {
                            assert(old(self)@.keys.contains_key(k1));
                            assert(old(self)@.keys.contains_key(k2));
                        } else if k1 == key@ && k2 != key@ {
                            assert(old(self)@.keys.contains_key(k2));
                        } else if k1 != key@ && k2 == key@ {
                            assert(old(self)@.keys.contains_key(k1));
                        }
                    }
                }
            },
        }
    }

    /// Runs one update tick per the pass described by [`update_pass`]:
    /// always updates the topmost active scene, then continues downward
    /// while the scene just updated is not blocking; every emitted message
    /// is delivered at once, every instruction gathered into the result.
    /// Fails with `NoScenesToUpdateError` on an empty active list, with
    /// `UpdateSceneNotFoundError` on an active key that is not registered,
    /// and with `MessageSceneNotFoundError(target)` on a message whose
    /// target is not registered; any failure aborts the pass at once and
    /// discards the instructions gathered so far.
    #[verifier::loop_isolation(false)]
    pub fn update(&mut self, update: &S::Update, delta: &S::Time) -> (r: Result<
        Vec<S::Instruction>,
        StageError,
    >)
        requires
            old(self)@.wf(),
        ensures
            final(self)@.wf(),
            final(self)@.keys == old(self)@.keys,
            final(self)@.active == old(self)@.active,
            old(self)@.active.len() == 0 ==> (r matches Err(e) && e
                == StageError::NoScenesToUpdateError && final(self)@.scenes == old(self)@.scenes),
            old(self)@.active.len() > 0 ==> ({
                let outcome = update_pass(
                    old(self)@.scenes,
                    old(self)@.keys,
                    old(self)@.active,
                    *update,
                    *delta,
                    old(self)@.active.len() - 1,
                    Seq::<S::Instruction>::empty(),
                );
                &&& final(self)@.scenes == outcome.scenes
                &&& match outcome.error {
                    Some(e) => r matches Err(e2) && e2 == e,
                    None => r matches Ok(v) && v@ == outcome.instructions,
                }
            }),
    {
        if self.active.len() == 0 {
            return Err(StageError::NoScenesToUpdateError);
        }
        let ghost goal = update_pass(
            self@.scenes,
            self@.keys,
            self@.active,
            *update,
            *delta,
            self@.active.len() - 1,
            Seq::<S::Instruction>::empty(),
        );
        let mut instructions: Vec<S::Instruction> = Vec::new();
        let mut i: usize = self.active.len() - 1;
        loop
            invariant
                i < self@.active.len(),
                self@.wf(),
                self@.keys == old(self)@.keys,
                self@.active == old(self)@.active,
                goal == update_pass(
                    self@.scenes,
                    self@.keys,
                    self@.active,
                    *update,
                    *delta,
                    i as int,
                    instructions@,
                ),
            decreases i,
        {
            let key = self.active[i].clone();
            let slot = match self.keys.get(key.as_str()) {
                Some(j) => Some(*j),
                None => None,
            };
            let idx = match slot {
                Some(j) => j,
                None => {
                    return Err(StageError::UpdateSceneNotFoundError(key));
                },
            };
            let ghost before = self@.scenes;
            let mut responses = self.scenes[idx].update(update, delta);
            let ghost dispatch_goal = dispatch_outcome(
                self@.scenes,
                self@.keys,
                responses@,
                instructions@,
            );
            while responses.len() > 0
                invariant
                    self@.wf(),
                    self@.keys == old(self)@.keys,
                    self@.active == old(self)@.active,
                    dispatch_goal == dispatch_outcome(
                        self@.scenes,
                        self@.keys,
                        responses@,
                        instructions@,
                    ),
                decreases responses@.len(),
            {
                let response = responses.remove(0);
                match response {
                    Response::Message(target, message) => {
                        let target_slot = match self.keys.get(target.as_str()) {
                            Some(j) => Some(*j),
                            None => None,
                        };
                        match target_slot {
                            Some(tidx) => {
                                self.scenes[tidx].receive_message(&message);
                            },
                            None => {
                                proof {
                                    assert(goal == dispatch_goal);
                                }
                                return Err(StageError::MessageSceneNotFoundError(target));
                            },
                        }
                    },
                    Response::Instruction(instruction) => {
                        instructions.push(instruction);
                    },
                }
            }
            proof {
                assert(dispatch_goal == UpdateOutcome::<S> {
                    scenes: self@.scenes,
                    instructions: instructions@,
                    error: None,
                });
            }
            let blocking = self.scenes[idx].blocking();
            if blocking || i == 0 {
                proof {
                    assert(goal == dispatch_goal);
                }
                return Ok(instructions);
            }
            i = i - 1;
        }
    }

    /// Renders one frame per the scan described by [`draw_start`]: batches
    /// are gathered bottom-to-top from the first covering active scene below
    /// the top (or the bottom of the list), so that a covering scene hides
    /// everything beneath it. Fails with `NoScenesToDrawError` on an empty
    /// active list.
    #[verifier::loop_isolation(false)]
    pub fn draw(&self, draw: &S::Draw, interp: &S::Time) -> (r: Result<
        Vec<S::DrawBatch>,
        StageError,
    >)
        requires
            self@.wf(),
            self@.active_registered(),
        ensures
            self@.active.len() == 0 ==> (r matches Err(e) && e == StageError::NoScenesToDrawError),
            self@.active.len() > 0 ==> ({
                let start = draw_start(
                    self@.scenes,
                    self@.keys,
                    self@.active,
                    self@.active.len() - 1,
                );
                &&& r matches Ok(batches)
                &&& batches@.len() == self@.active.len() - start
                &&& forall|j: int| 0 <= j < batches@.len() ==> batches@[j] == self@.scenes[
                    self@.keys[self@.active[start + j]@] as int
                ].batch_of(*draw, *interp)
            }),
    {
        if self.active.len() == 0 {
            return Err(StageError::NoScenesToDrawError);
        }
        let mut start: usize = self.active.len() - 1;
        while start > 0 && !self.covering_at(start)
            invariant
                start < self@.active.len(),
                draw_start(self@.scenes, self@.keys, self@.active, self@.active.len() - 1)
                    == draw_start(self@.scenes, self@.keys, self@.active, start as int),
            decreases start,
        {
            start = start - 1;
        }
        let mut batches: Vec<S::DrawBatch> = Vec::new();
        let mut i: usize = start;
        while i < self.active.len()
            invariant
                start <= i <= self@.active.len(),
                batches@.len() == i - start,
                forall|j: int| 0 <= j < batches@.len() ==> batches@[j] == self@.scenes[
                    self@.keys[self@.active[start + j]@] as int
                ].batch_of(*draw, *interp),
            decreases self@.active.len() - i,
        {
            let idx = self.scene_slot(i);
            let batch = self.scenes[idx].draw(draw, interp);
            batches.push(batch);
            i = i + 1;
        }
        Ok(batches)
    }

    /// Slot of the active scene at position `i`.
    fn scene_slot(&self, i: usize) -> (idx: usize)
        requires
            self@.wf(),
            self@.active_registered(),
            i < self@.active.len(),
        ensures
            idx == self@.keys[self@.active[i as int]@],
            idx < self@.scenes.len(),
    {
        match self.keys.get(self.active[i].as_str()) {
            Some(j) => *j,
            None => unreached(),
        }
    }

    /// Fresh `covering` flag of the active scene at position `i`.
    fn covering_at(&self, i: usize) -> (b: bool)
        requires
            self@.wf(),
            self@.active_registered(),
            i < self@.active.len(),
        ensures
            b == self@.scenes[self@.keys[self@.active[i as int]@] as int].spec_covering(),
    {
        let idx = self.scene_slot(i);
        self.scenes[idx].covering()
    }
}

} // verus!

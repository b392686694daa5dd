//! Scene stage compositor: update descent, draw scan, message routing.

use stagecraft::scene::Scene;
use stagecraft::{Response, Stage, StageError};
use std::cell::RefCell;
use std::rc::Rc;

/// A scene scripted by its flags: it records every update and received
/// message into a shared journal, and emits a fixed set of responses on
/// each update tick.
struct ScriptedScene {
    id: String,
    blocking: bool,
    covering: bool,
    messages: Vec<(String, String)>,
    instructions: Vec<i32>,
    journal: Rc<RefCell<Vec<String>>>,
}

impl ScriptedScene {
    fn silent(id: &str, blocking: bool, covering: bool, journal: &Rc<RefCell<Vec<String>>>) -> Self {
        ScriptedScene {
            id: id.to_string(),
            blocking,
            covering,
            messages: Vec::new(),
            instructions: Vec::new(),
            journal: Rc::clone(journal),
        }
    }
}

impl Scene for ScriptedScene {
    type Key = String;
    type Initialize = ();
    type Update = ();
    type Message = String;
    type Instruction = i32;
    type Draw = ();
    type DrawBatch = String;
    type Time = u64;

    fn initialize(&mut self, _init: &mut ()) {}

    fn update(&mut self, _update: &(), _delta: &u64) -> Vec<Response<String, String, i32>> {
        self.journal.borrow_mut().push(format!("update:{}", self.id));
        let mut responses = Vec::new();
        for (target, message) in &self.messages {
            responses.push(Response::Message(target.clone(), message.clone()));
        }
        for instruction in &self.instructions {
            responses.push(Response::Instruction(*instruction));
        }
        responses
    }

    fn draw(&self, _draw: &(), _interp: &u64) -> String {
        self.id.clone()
    }

    fn receive_message(&mut self, message: &String) {
        self.journal
            .borrow_mut()
            .push(format!("recv:{}:{}", self.id, message));
    }

    fn covering(&self) -> bool {
        self.covering
    }

    fn blocking(&self) -> bool {
        self.blocking
    }
}

fn journal() -> Rc<RefCell<Vec<String>>> {
    Rc::new(RefCell::new(Vec::new()))
}

#[test]
fn update_descends_to_blocking_scene_top_down() {
    let log = journal();
    let mut stage: Stage<ScriptedScene> = Stage::new();
    stage.add_scene("A".to_string(), ScriptedScene::silent("A", false, false, &log), true);
    stage.add_scene("B".to_string(), ScriptedScene::silent("B", true, false, &log), true);
    stage.add_scene("C".to_string(), ScriptedScene::silent("C", false, false, &log), true);
    let result = stage.update(&(), &16).unwrap();
    assert!(result.is_empty());
    // C first (top), then B, which blocks; A is never updated
    assert_eq!(*log.borrow(), vec!["update:C".to_string(), "update:B".to_string()]);
}

#[test]
fn single_blocking_top_scene_updates_alone() {
    let log = journal();
    let mut stage: Stage<ScriptedScene> = Stage::new();
    stage.add_scene("A".to_string(), ScriptedScene::silent("A", false, false, &log), true);
    stage.add_scene("B".to_string(), ScriptedScene::silent("B", true, false, &log), true);
    stage.update(&(), &16).unwrap();
    assert_eq!(*log.borrow(), vec!["update:B".to_string()]);
}

#[test]
fn update_with_empty_active_list_fails() {
    let mut stage: Stage<ScriptedScene> = Stage::new();
    assert!(matches!(
        stage.update(&(), &16),
        Err(StageError::NoScenesToUpdateError)
    ));
}

#[test]
fn instructions_accumulate_in_update_order() {
    let log = journal();
    let mut stage: Stage<ScriptedScene> = Stage::new();
    let mut bottom = ScriptedScene::silent("bottom", true, false, &log);
    bottom.instructions = vec![30];
    let mut top = ScriptedScene::silent("top", false, false, &log);
    top.instructions = vec![10, 20];
    stage.add_scene("bottom".to_string(), bottom, true);
    stage.add_scene("top".to_string(), top, true);
    let instructions = stage.update(&(), &16).unwrap();
    assert_eq!(instructions, vec![10, 20, 30]);
}

#[test]
fn message_is_delivered_to_registered_target() {
    let log = journal();
    let mut stage: Stage<ScriptedScene> = Stage::new();
    let mut hud = ScriptedScene::silent("UI", false, false, &log);
    hud.messages = vec![("game".to_string(), "Collision".to_string())];
    stage.add_scene("game".to_string(), ScriptedScene::silent("game", true, true, &log), true);
    stage.add_scene("UI".to_string(), hud, true);
    stage.update(&(), &16).unwrap();
    let entries = log.borrow();
    assert_eq!(
        *entries,
        vec![
            "update:UI".to_string(),
            "recv:game:Collision".to_string(),
            "update:game".to_string(),
        ]
    );
}

#[test]
fn message_to_unregistered_key_fails_with_that_key() {
    let log = journal();
    let mut stage: Stage<ScriptedScene> = Stage::new();
    let mut talker = ScriptedScene::silent("talker", true, false, &log);
    talker.messages = vec![("ghost".to_string(), "hello".to_string())];
    stage.add_scene("talker".to_string(), talker, true);
    match stage.update(&(), &16) {
        Err(StageError::MessageSceneNotFoundError(key)) => assert_eq!(key, "ghost"),
        other => panic!("expected MessageSceneNotFoundError, got {:?}", other),
    }
}

#[test]
fn missing_target_is_reported_from_a_scene_below_the_top() {
    let log = journal();
    let mut stage: Stage<ScriptedScene> = Stage::new();
    let mut talker = ScriptedScene::silent("talker", true, false, &log);
    talker.messages = vec![("phantom".to_string(), "boo".to_string())];
    stage.add_scene("talker".to_string(), talker, true);
    stage.add_scene("quiet".to_string(), ScriptedScene::silent("quiet", false, false, &log), true);
    match stage.update(&(), &16) {
        Err(StageError::MessageSceneNotFoundError(key)) => assert_eq!(key, "phantom"),
        other => panic!("expected MessageSceneNotFoundError, got {:?}", other),
    }
    // the pass descended past the quiet top scene and stopped at the talker
    assert_eq!(
        *log.borrow(),
        vec!["update:quiet".to_string(), "update:talker".to_string()]
    );
}

#[test]
fn draw_starts_at_lowest_covering_scene_bottom_up() {
    let log = journal();
    let mut stage: Stage<ScriptedScene> = Stage::new();
    stage.add_scene("game".to_string(), ScriptedScene::silent("game", false, true, &log), true);
    stage.add_scene("mid".to_string(), ScriptedScene::silent("mid", false, false, &log), true);
    stage.add_scene("hud".to_string(), ScriptedScene::silent("hud", false, false, &log), true);
    let batches = stage.draw(&(), &0).unwrap();
    assert_eq!(batches, vec!["game".to_string(), "mid".to_string(), "hud".to_string()]);
}

#[test]
fn covering_scene_hides_everything_below_it() {
    let log = journal();
    let mut stage: Stage<ScriptedScene> = Stage::new();
    stage.add_scene("game".to_string(), ScriptedScene::silent("game", false, false, &log), true);
    stage.add_scene("menu".to_string(), ScriptedScene::silent("menu", false, true, &log), true);
    stage.add_scene("hud".to_string(), ScriptedScene::silent("hud", false, false, &log), true);
    let batches = stage.draw(&(), &0).unwrap();
    assert_eq!(batches, vec!["menu".to_string(), "hud".to_string()]);
}

#[test]
fn covering_top_scene_draws_alone() {
    let log = journal();
    let mut stage: Stage<ScriptedScene> = Stage::new();
    stage.add_scene("game".to_string(), ScriptedScene::silent("game", false, false, &log), true);
    stage.add_scene("overlay".to_string(), ScriptedScene::silent("overlay", false, true, &log), true);
    let batches = stage.draw(&(), &0).unwrap();
    assert_eq!(batches, vec!["overlay".to_string()]);
}

#[test]
fn draw_with_no_covering_scene_paints_the_whole_stack() {
    let log = journal();
    let mut stage: Stage<ScriptedScene> = Stage::new();
    stage.add_scene("a".to_string(), ScriptedScene::silent("a", false, false, &log), true);
    stage.add_scene("b".to_string(), ScriptedScene::silent("b", false, false, &log), true);
    let batches = stage.draw(&(), &0).unwrap();
    assert_eq!(batches, vec!["a".to_string(), "b".to_string()]);
}

#[test]
fn draw_with_empty_active_list_fails() {
    let stage: Stage<ScriptedScene> = Stage::new();
    assert!(matches!(stage.draw(&(), &0), Err(StageError::NoScenesToDrawError)));
}

#[test]
fn inactive_scene_receives_no_frame_work_but_takes_messages() {
    let log = journal();
    let mut stage: Stage<ScriptedScene> = Stage::new();
    let mut talker = ScriptedScene::silent("talker", true, true, &log);
    talker.messages = vec![("hidden".to_string(), "ping".to_string())];
    stage.add_scene("hidden".to_string(), ScriptedScene::silent("hidden", false, false, &log), false);
    stage.add_scene("talker".to_string(), talker, true);
    stage.update(&(), &16).unwrap();
    let batches = stage.draw(&(), &0).unwrap();
    assert_eq!(batches, vec!["talker".to_string()]);
    assert_eq!(
        *log.borrow(),
        vec!["update:talker".to_string(), "recv:hidden:ping".to_string()]
    );
}

#[test]
fn registering_an_existing_key_replaces_the_scene() {
    let log = journal();
    let mut stage: Stage<ScriptedScene> = Stage::new();
    stage.add_scene("solo".to_string(), ScriptedScene::silent("first", true, true, &log), true);
    stage.add_scene("solo".to_string(), ScriptedScene::silent("second", true, true, &log), false);
    let batches = stage.draw(&(), &0).unwrap();
    assert_eq!(batches, vec!["second".to_string()]);
}

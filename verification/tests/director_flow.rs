use opengb::director::{
    procedure_is_wf, SceCommand, SceCommandRolePathTo, SceDirector, SceFault, SceneManager,
    UiContext, MAX_INSTANT_CHAIN,
};
use opengb::math::Vec3;
use opengb::scene::{
    NavFile, NavRegion, RoleAnimationRepeatMode, ScnFile, ScnScene, ANIM_STANDING,
};
use opengb::state::SceState;

fn scene_with_roles() -> ScnScene {
    let mut scene = ScnScene::new(
        b"q01".to_vec(),
        b"q01y".to_vec(),
        ScnFile { scn_base_name: b"q01".to_vec(), nodes: vec![], roles: vec![] },
        NavFile { regions: vec![NavRegion { origin: Vec3::new(0, 0, 0) }] },
    );
    scene.load_roles();
    scene
}

fn loaded_manager() -> SceneManager {
    let mut mgr = SceneManager::new();
    mgr.load_scene(scene_with_roles());
    mgr
}

fn ui() -> UiContext {
    UiContext { dialogue_acknowledged: false }
}

fn ui_ack() -> UiContext {
    UiContext { dialogue_acknowledged: true }
}

#[test]
fn instant_chain_completes_in_one_tick() {
    let mut director = SceDirector::new();
    director.load_procedure(vec![
        SceCommand::Let { key: 1, value: 10 },
        SceCommand::Let { key: 2, value: 20 },
        SceCommand::Let { key: 3, value: 30 },
    ]);
    let mut mgr = loaded_manager();
    let mut state = SceState::new();
    let r = director.tick(&mut mgr, &ui(), &mut state, 100);
    assert_eq!(r, Ok(true));
    assert_eq!(director.cursor, 3);
    assert_eq!(state.get(1), 10);
    assert_eq!(state.get(2), 20);
    assert_eq!(state.get(3), 30);
}

#[test]
fn instant_chain_over_the_guard_faults() {
    let mut commands = Vec::new();
    for _ in 0..(MAX_INSTANT_CHAIN + 1) {
        commands.push(SceCommand::Let { key: 1, value: 1 });
    }
    let mut director = SceDirector::new();
    director.load_procedure(commands);
    let mut mgr = loaded_manager();
    let mut state = SceState::new();
    let r = director.tick(&mut mgr, &ui(), &mut state, 100);
    assert!(matches!(r, Err(SceFault::ScriptFault { .. })));
}

#[test]
fn cursor_advances_one_position_per_completion() {
    let mut director = SceDirector::new();
    director.load_procedure(vec![
        SceCommand::Let { key: 1, value: 1 },
        SceCommand::Wait { millis: 300 },
        SceCommand::Let { key: 2, value: 2 },
    ]);
    let mut mgr = loaded_manager();
    let mut state = SceState::new();
    assert_eq!(director.tick(&mut mgr, &ui(), &mut state, 100), Ok(false));
    assert_eq!(director.cursor, 1);
    assert_eq!(director.tick(&mut mgr, &ui(), &mut state, 100), Ok(false));
    assert_eq!(director.cursor, 1);
    assert_eq!(director.tick(&mut mgr, &ui(), &mut state, 100), Ok(true));
    assert_eq!(director.cursor, 3);
}

#[test]
fn state_write_is_visible_to_a_branch_later_in_the_same_tick() {
    let mut director = SceDirector::new();
    director.load_procedure(vec![
        SceCommand::Let { key: 1, value: 1 },
        SceCommand::BranchIf { key: 1, target: 3 },
        SceCommand::Let { key: 2, value: 99 },
        SceCommand::Let { key: 3, value: 42 },
    ]);
    let mut mgr = loaded_manager();
    let mut state = SceState::new();
    assert_eq!(director.tick(&mut mgr, &ui(), &mut state, 100), Ok(true));
    assert_eq!(state.get(2), 0, "the skipped write must not have happened");
    assert_eq!(state.get(3), 42);
}

#[test]
fn branch_falls_through_when_the_flag_is_clear() {
    let mut director = SceDirector::new();
    director.load_procedure(vec![
        SceCommand::BranchIf { key: 9, target: 2 },
        SceCommand::Let { key: 2, value: 5 },
    ]);
    let mut mgr = loaded_manager();
    let mut state = SceState::new();
    assert_eq!(director.tick(&mut mgr, &ui(), &mut state, 100), Ok(true));
    assert_eq!(state.get(2), 5);
}

#[test]
fn call_and_return_resume_after_the_call() {
    let mut director = SceDirector::new();
    director.load_procedure(vec![
        SceCommand::Call { target: 3 },
        SceCommand::Let { key: 2, value: 22 },
        SceCommand::Jump { target: 5 },
        SceCommand::Let { key: 1, value: 11 },
        SceCommand::Return,
    ]);
    let mut mgr = loaded_manager();
    let mut state = SceState::new();
    assert_eq!(director.tick(&mut mgr, &ui(), &mut state, 100), Ok(true));
    assert_eq!(state.get(1), 11);
    assert_eq!(state.get(2), 22);
    assert_eq!(director.cursor, 5);
}

#[test]
fn jump_out_of_bounds_faults() {
    let mut director = SceDirector::new();
    director.load_procedure(vec![SceCommand::Jump { target: 7 }]);
    let mut mgr = loaded_manager();
    let mut state = SceState::new();
    assert_eq!(
        director.tick(&mut mgr, &ui(), &mut state, 100),
        Err(SceFault::CursorOutOfBounds { command_index: 0, target: 7 })
    );
}

#[test]
fn return_without_call_faults() {
    let mut director = SceDirector::new();
    director.load_procedure(vec![SceCommand::Return]);
    let mut mgr = loaded_manager();
    let mut state = SceState::new();
    assert_eq!(
        director.tick(&mut mgr, &ui(), &mut state, 100),
        Err(SceFault::ReturnWithoutCall { command_index: 0 })
    );
}

#[test]
fn ticking_without_a_scene_is_an_invariant_violation() {
    let mut director = SceDirector::new();
    director.load_procedure(vec![SceCommand::Let { key: 1, value: 1 }]);
    let mut mgr = SceneManager::new();
    let mut state = SceState::new();
    assert_eq!(director.tick(&mut mgr, &ui(), &mut state, 100), Err(SceFault::NoSceneLoaded));
}

#[test]
fn play_anim_for_a_missing_role_faults() {
    let mut director = SceDirector::new();
    director.load_procedure(vec![SceCommand::PlayAnim {
        role_id: 999,
        anim_id: 3,
        repeat: RoleAnimationRepeatMode::PlayOnce,
    }]);
    let mut mgr = loaded_manager();
    let mut state = SceState::new();
    assert_eq!(
        director.tick(&mut mgr, &ui(), &mut state, 100),
        Err(SceFault::RoleNotFound { role_id: 999 })
    );
}

#[test]
fn dialogue_waits_for_acknowledgement() {
    let mut director = SceDirector::new();
    director.load_procedure(vec![SceCommand::Dialogue { text_id: 12 }]);
    let mut mgr = loaded_manager();
    let mut state = SceState::new();
    assert_eq!(director.tick(&mut mgr, &ui(), &mut state, 100), Ok(false));
    assert_eq!(director.tick(&mut mgr, &ui(), &mut state, 100), Ok(false));
    assert_eq!(director.tick(&mut mgr, &ui_ack(), &mut state, 100), Ok(true));
    assert_eq!(director.cursor, 1);
}

#[test]
fn load_scene_command_sets_the_pending_request() {
    let mut director = SceDirector::new();
    director.load_procedure(vec![SceCommand::LoadScene { scene_id: 7 }]);
    let mut mgr = loaded_manager();
    let mut state = SceState::new();
    assert_eq!(director.tick(&mut mgr, &ui(), &mut state, 100), Ok(true));
    assert_eq!(director.pending_scene, Some(7));
}

#[test]
fn camera_set_repositions_the_camera() {
    let mut director = SceDirector::new();
    director.load_procedure(vec![SceCommand::CameraSet { position: Vec3::new(5, 6, 7) }]);
    let mut mgr = loaded_manager();
    let mut state = SceState::new();
    assert_eq!(director.tick(&mut mgr, &ui(), &mut state, 100), Ok(true));
    let cam = mgr.scene.as_ref().unwrap().camera_position;
    assert_eq!((cam.x, cam.y, cam.z), (5, 6, 7));
}

#[test]
fn wait_command_spans_the_right_number_of_frames() {
    let mut director = SceDirector::new();
    director.load_procedure(vec![SceCommand::Wait { millis: 250 }]);
    let mut mgr = loaded_manager();
    let mut state = SceState::new();
    assert_eq!(director.tick(&mut mgr, &ui(), &mut state, 100), Ok(false));
    assert_eq!(director.tick(&mut mgr, &ui(), &mut state, 100), Ok(false));
    assert_eq!(director.tick(&mut mgr, &ui(), &mut state, 100), Ok(true));
}

#[test]
fn role_path_runs_under_the_director_for_thirty_ticks() {
    let mut director = SceDirector::new();
    director.load_procedure(vec![SceCommand::RolePathTo(SceCommandRolePathTo::new(
        -1, 300, 0, 0,
    ))]);
    let mut mgr = loaded_manager();
    let mut state = SceState::new();
    for _ in 1..=29u32 {
        assert_eq!(director.tick(&mut mgr, &ui(), &mut state, 100), Ok(false));
        assert_eq!(director.cursor, 0);
    }
    assert_eq!(director.tick(&mut mgr, &ui(), &mut state, 100), Ok(true));
    assert_eq!(director.cursor, 1);
    let scene = mgr.scene.as_ref().unwrap();
    let p = scene.entities[0].transform.position;
    assert_eq!((p.x, p.y, p.z), (300_000, 0, 0));
    assert_eq!(scene.entities[0].anim_id, ANIM_STANDING);
}

#[test]
fn background_wait_ticks_without_blocking_the_cursor() {
    let mut director = SceDirector::new();
    director.load_procedure(vec![SceCommand::Wait { millis: 10_000 }]);
    director.start_background(SceCommand::Wait { millis: 250 });
    let mut mgr = loaded_manager();
    let mut state = SceState::new();
    assert_eq!(director.tick(&mut mgr, &ui(), &mut state, 100), Ok(false));
    assert_eq!(director.background.len(), 1);
    assert_eq!(director.tick(&mut mgr, &ui(), &mut state, 100), Ok(false));
    assert_eq!(director.background.len(), 1);
    assert_eq!(director.tick(&mut mgr, &ui(), &mut state, 100), Ok(false));
    assert_eq!(director.background.len(), 0, "the finished wait must leave the set");
    assert_eq!(director.cursor, 0, "background work must not move the cursor");
}

#[test]
fn cancelling_the_scene_keeps_the_cursor_and_drops_scene_commands() {
    let mut director = SceDirector::new();
    director.load_procedure(vec![
        SceCommand::Let { key: 1, value: 1 },
        SceCommand::Wait { millis: 10_000 },
    ]);
    director.start_background(SceCommand::PlayAnim {
        role_id: 101,
        anim_id: 3,
        repeat: RoleAnimationRepeatMode::Repeat,
    });
    director.start_background(SceCommand::Wait { millis: 9_000 });
    director.start_background(SceCommand::RolePathTo(SceCommandRolePathTo::new(-1, 10, 0, 0)));
    let mut mgr = loaded_manager();
    let mut state = SceState::new();
    assert_eq!(director.tick(&mut mgr, &ui(), &mut state, 100), Ok(false));
    assert_eq!(director.cursor, 1);
    director.cancel_scene();
    assert_eq!(director.cursor, 1, "cancellation must not move the cursor");
    assert!(director.halted);
    assert_eq!(director.background.len(), 1, "only the scene-free command stays");
    assert!(matches!(director.background[0].cmd, SceCommand::Wait { millis: 9_000 }));
    let before = director.cursor;
    assert_eq!(director.tick(&mut mgr, &ui(), &mut state, 100), Ok(true));
    assert_eq!(director.cursor, before, "a halted director must not advance");
}

#[test]
fn is_running_reflects_the_cursor_and_halt_flag() {
    let mut director = SceDirector::new();
    assert!(!director.is_running());
    director.load_procedure(vec![SceCommand::Wait { millis: 500 }]);
    assert!(director.is_running());
    director.cancel_scene();
    assert!(!director.is_running());
}

#[test]
fn background_wait_keeps_its_timer_between_frames() {
    let mut director = SceDirector::new();
    director.start_background(SceCommand::Wait { millis: 250 });
    let mut mgr = loaded_manager();
    let mut state = SceState::new();
    assert_eq!(director.tick(&mut mgr, &ui(), &mut state, 100), Ok(true));
    assert_eq!(director.background[0].wait_left_ms, 150);
    assert!(director.background[0].initialized);
    assert_eq!(director.tick(&mut mgr, &ui(), &mut state, 100), Ok(true));
    assert_eq!(director.background[0].wait_left_ms, 50);
    assert_eq!(director.tick(&mut mgr, &ui(), &mut state, 100), Ok(true));
    assert_eq!(director.background.len(), 0);
}

#[test]
fn procedure_validator_mirrors_operand_bounds() {
    let good = vec![
        SceCommand::Let { key: 1, value: 1 },
        SceCommand::RolePathTo(SceCommandRolePathTo::new(-1, 300, 0, 0)),
    ];
    assert!(procedure_is_wf(&good));
    let bad = vec![SceCommand::RolePathTo(SceCommandRolePathTo {
        role_id: 101,
        nav_x: 0x2000_0000,
        nav_y: 0,
        unknown: 0,
    })];
    assert!(!procedure_is_wf(&bad), "a destination outside the budget must be rejected");
}

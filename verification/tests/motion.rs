use opengb::director::{map_role_id, SceCommandRolePathTo, SceFault, UiContext};
use opengb::math::{isqrt64, Vec3};
use opengb::scene::{NavFile, NavRegion, ScnFile, ScnScene, ANIM_STANDING, ANIM_WALKING};
use opengb::state::SceState;

fn nav_at_origin() -> NavFile {
    NavFile { regions: vec![NavRegion { origin: Vec3::new(0, 0, 0) }] }
}

fn empty_scn_file() -> ScnFile {
    ScnFile { scn_base_name: b"q01".to_vec(), nodes: vec![], roles: vec![] }
}

fn scene_with_roles() -> ScnScene {
    let mut scene = ScnScene::new(b"q01".to_vec(), b"q01y".to_vec(), empty_scn_file(),
        nav_at_origin());
    scene.load_roles();
    scene
}

fn ui() -> UiContext {
    UiContext { dialogue_acknowledged: false }
}

#[test]
fn motion_reaches_navigation_point_in_thirty_ticks() {
    // Entity at the origin, destination 300 world units along x, speed 100
    // units per second, 0.1 s frames: active exactly 30 ticks, the last
    // one snapping exactly onto the destination.
    let mut scene = scene_with_roles();
    let mut state = SceState::new();
    let cmd = SceCommandRolePathTo::new(-1, 300, 0, 0);
    cmd.initialize(&mut scene).unwrap();
    assert_eq!(scene.entities[0].anim_id, ANIM_WALKING);
    for k in 1..=29u32 {
        let done = cmd.update(&mut scene, &ui(), &mut state, 100).unwrap();
        assert!(!done, "completed early at tick {k}");
        let p = scene.entities[0].transform.position;
        assert_eq!((p.x, p.y, p.z), (10_000 * k as i64, 0, 0));
        assert_eq!(scene.entities[0].anim_id, ANIM_WALKING);
    }
    let done = cmd.update(&mut scene, &ui(), &mut state, 100).unwrap();
    assert!(done, "destination not reached on the 30th tick");
    let p = scene.entities[0].transform.position;
    assert_eq!((p.x, p.y, p.z), (300_000, 0, 0));
    assert_eq!(scene.entities[0].anim_id, ANIM_STANDING);
}

#[test]
fn motion_zero_distance_completes_on_first_update() {
    let mut scene = scene_with_roles();
    let mut state = SceState::new();
    let cmd = SceCommandRolePathTo::new(-1, 0, 0, 0);
    cmd.initialize(&mut scene).unwrap();
    let done = cmd.update(&mut scene, &ui(), &mut state, 100).unwrap();
    assert!(done);
    let p = scene.entities[0].transform.position;
    assert_eq!((p.x, p.y, p.z), (0, 0, 0));
    assert_eq!(scene.entities[0].anim_id, ANIM_STANDING);
}

#[test]
fn motion_diagonal_path_terminates_exactly() {
    // A 3-4-5 triangle: 30 units along x and 40 along the grid's second
    // axis is 50 units of distance, 5 ticks at 10 units per tick.
    let mut scene = scene_with_roles();
    let mut state = SceState::new();
    let cmd = SceCommandRolePathTo::new(-1, 30, 40, 0);
    cmd.initialize(&mut scene).unwrap();
    for _ in 1..=4u32 {
        let done = cmd.update(&mut scene, &ui(), &mut state, 100).unwrap();
        assert!(!done);
    }
    let done = cmd.update(&mut scene, &ui(), &mut state, 100).unwrap();
    assert!(done);
    let p = scene.entities[0].transform.position;
    assert_eq!((p.x, p.y, p.z), (30_000, 0, 40_000));
}

#[test]
fn motion_faces_the_destination_while_walking() {
    let mut scene = scene_with_roles();
    let mut state = SceState::new();
    let cmd = SceCommandRolePathTo::new(-1, 300, 0, 0);
    cmd.initialize(&mut scene).unwrap();
    cmd.update(&mut scene, &ui(), &mut state, 100).unwrap();
    let f = scene.entities[0].transform.facing_target;
    assert_eq!((f.x, f.y, f.z), (300_000, 0, 0));
}

#[test]
fn motion_missing_role_is_an_invariant_violation() {
    let mut scene = ScnScene::new(b"q01".to_vec(), b"q01y".to_vec(), empty_scn_file(),
        nav_at_origin());
    let mut state = SceState::new();
    let cmd = SceCommandRolePathTo::new(-1, 300, 0, 0);
    assert_eq!(cmd.initialize(&mut scene), Err(SceFault::RoleNotFound { role_id: 101 }));
    assert_eq!(cmd.update(&mut scene, &ui(), &mut state, 100),
        Err(SceFault::RoleNotFound { role_id: 101 }));
}

#[test]
fn isqrt_rounds_down_exactly() {
    assert_eq!(isqrt64(0), 0);
    assert_eq!(isqrt64(1), 1);
    assert_eq!(isqrt64(2), 1);
    assert_eq!(isqrt64(3), 1);
    assert_eq!(isqrt64(4), 2);
    assert_eq!(isqrt64(99), 9);
    assert_eq!(isqrt64(100), 10);
    assert_eq!(isqrt64(1_000_000_000_000_000_000), 1_000_000_000);
    assert_eq!(isqrt64(2_000_000_000 * 2_000_000_000 - 1), 1_999_999_999);
}

#[test]
fn map_role_id_sends_negatives_to_the_player_slot() {
    assert_eq!(map_role_id(-1), 101);
    assert_eq!(map_role_id(0), 101);
    assert_eq!(map_role_id(5), 106);
}

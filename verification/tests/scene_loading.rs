use opengb::math::Vec3;
use opengb::scene::{
    nav_coord_to_scene_coord, NavFile, NavRegion, NodeLoad, ScnFile, ScnNode, ScnRole, ScnScene,
    ANIM_STANDING,
};
use opengb::state::SceState;
use opengb::texture::{Image, ImageView, Sampler, VulkanTexture};

fn node(name: &[u8], node_type: u32, x: i64, rot: u32) -> ScnNode {
    ScnNode {
        node_type,
        name: name.to_vec(),
        position: Vec3::new(x, 0, 0),
        rotation_millideg: rot,
    }
}

fn scene_from(scn_file: ScnFile, origin: Vec3) -> ScnScene {
    ScnScene::new(
        b"q01".to_vec(),
        b"q01y".to_vec(),
        scn_file,
        NavFile { regions: vec![NavRegion { origin }] },
    )
}

#[test]
fn load_objects_classifies_nodes_and_keeps_their_order() {
    let scn_file = ScnFile {
        scn_base_name: b"q01".to_vec(),
        nodes: vec![
            node(b"_scenery", 0, 1, 0),
            node(b"door.pol", 0, 2, 90_000),
            node(b"fan.cvd", 0, 3, 0),
            node(b"+marker", 0, 4, 0),
            node(b"", 0, 5, 0),
            node(b"hidden", 37, 6, 0),
            node(b"hidden2", 43, 7, 0),
            node(b"chest", 0, 8, 0),
        ],
        roles: vec![],
    };
    let mut scene = scene_from(scn_file, Vec3::new(0, 0, 0));
    scene.load_objects();
    let names: Vec<&[u8]> = scene.objects.iter().map(|o| o.name.as_slice()).collect();
    assert_eq!(
        names,
        vec![
            b"q01.pol".as_slice(),
            b"_scenery".as_slice(),
            b"door.pol".as_slice(),
            b"chest".as_slice(),
            b"fan.cvd".as_slice(),
        ]
    );
    assert_eq!(scene.objects[0].kind, NodeLoad::ScenePol);
    assert_eq!(scene.objects[1].kind, NodeLoad::ScenePol);
    assert_eq!(scene.objects[2].kind, NodeLoad::ItemPol);
    assert_eq!(scene.objects[3].kind, NodeLoad::ItemPol);
    assert_eq!(scene.objects[4].kind, NodeLoad::ItemCvd);
    assert_eq!(scene.objects[2].transform.position.x, 2);
    assert_eq!(scene.objects[2].transform.yaw_millideg, 90_000);
}

#[test]
fn load_roles_creates_the_standard_party_then_the_level_roles() {
    let scn_file = ScnFile {
        scn_base_name: b"q01".to_vec(),
        nodes: vec![],
        roles: vec![ScnRole {
            index: 201,
            model_id: 4,
            action_id: 7,
            position: Vec3::new(1000, 0, 2000),
        }],
    };
    let mut scene = scene_from(scn_file, Vec3::new(0, 0, 0));
    scene.load_roles();
    assert_eq!(scene.entities.len(), 11);
    for (slot, entity) in scene.entities.iter().take(10).enumerate() {
        assert_eq!(entity.name_id, 101 + slot as u32);
        assert_eq!(entity.transform.position, Vec3::new(0, 0, 0));
        assert_eq!(entity.anim_id, ANIM_STANDING);
        assert_eq!(entity.transform.yaw_millideg, 0);
    }
    let level_role = &scene.entities[10];
    assert_eq!(level_role.name_id, 201);
    assert_eq!(level_role.transform.position, Vec3::new(1000, 0, 2000));
    assert_eq!(level_role.transform.yaw_millideg, 180_000);
    assert_eq!(level_role.anim_id, 7);
}

#[test]
fn get_role_entity_returns_the_first_match() {
    let scn_file = ScnFile { scn_base_name: b"q01".to_vec(), nodes: vec![], roles: vec![] };
    let mut scene = scene_from(scn_file, Vec3::new(0, 0, 0));
    scene.load_roles();
    assert_eq!(scene.get_role_entity(101), Some(0));
    assert_eq!(scene.get_role_entity(110), Some(9));
    assert_eq!(scene.get_role_entity(999), None);
    let mut twin = scene.entities[4];
    twin.transform.position = Vec3::new(77, 0, 0);
    scene.add_entity(twin);
    assert_eq!(scene.get_role_entity(105), Some(4), "the first of two twins wins");
}

#[test]
fn nav_coordinates_map_through_the_navigation_origin() {
    let scn_file = ScnFile { scn_base_name: b"q01".to_vec(), nodes: vec![], roles: vec![] };
    let scene = scene_from(scn_file, Vec3::new(1000, 2000, 3000));
    assert_eq!(*scene.nav_origin(), Vec3::new(1000, 2000, 3000));
    let world = nav_coord_to_scene_coord(&scene, 50, -70);
    assert_eq!(world, Vec3::new(1050, 2000, 2930));
}

#[test]
fn state_store_defaults_to_zero_and_overwrites_in_place() {
    let mut state = SceState::new();
    assert_eq!(state.get(5), 0);
    state.set(5, 7);
    assert_eq!(state.get(5), 7);
    assert_eq!(state.get(6), 0, "a write must not disturb another key");
    state.set(5, -3);
    assert_eq!(state.get(5), -3);
    state.set(6, 1);
    assert_eq!(state.get(5), -3);
    assert_eq!(state.get(6), 1);
}

#[test]
fn vulkan_texture_hands_back_its_resources() {
    let image = Image { handle: 11, width: 64, height: 32 };
    let view = ImageView { handle: 22 };
    let sampler = Sampler { handle: 33 };
    let texture = VulkanTexture::new(image, view, sampler);
    assert_eq!(*texture.image(), image);
    assert_eq!(texture.image().width, 64);
    assert_eq!(texture.image().height, 32);
    assert_eq!(*texture.image_view(), view);
    assert_eq!(*texture.sampler(), sampler);
}

#[test]
fn draw_order_sort_is_a_stable_three_way_partition() {
    let scn_file = ScnFile {
        scn_base_name: b"q01".to_vec(),
        nodes: vec![
            node(b"_scenery", 0, 1, 0),
            node(b"window.pol", 0, 2, 0),
            node(b"fan.cvd", 0, 3, 0),
            node(b"chest", 0, 4, 0),
        ],
        roles: vec![],
    };
    let mut scene = scene_from(scn_file, Vec3::new(0, 0, 0));
    scene.load_objects();
    // order before the sort: q01.pol, _scenery, window.pol, chest, fan.cvd
    assert_eq!(scene.objects.len(), 5);
    // the decoded models mark the window and the ground as transparent
    scene.objects[0].has_alpha = true;
    scene.objects[2].has_alpha = true;
    scene.sort_objects_by_alpha();
    let names: Vec<&[u8]> = scene.objects.iter().map(|o| o.name.as_slice()).collect();
    assert_eq!(
        names,
        vec![
            b"_scenery".as_slice(),
            b"chest".as_slice(),
            b"q01.pol".as_slice(),
            b"window.pol".as_slice(),
            b"fan.cvd".as_slice(),
        ],
        "opaque scenery first, transparent scenery next, animated models last"
    );
}

#[test]
fn wf_checkers_mirror_the_coordinate_budget() {
    let good = ScnFile { scn_base_name: b"q01".to_vec(), nodes: vec![], roles: vec![] };
    let scene = scene_from(good, Vec3::new(0, 0, 0));
    assert!(scene.check_wf());
    let far = ScnFile {
        scn_base_name: b"q01".to_vec(),
        nodes: vec![node(b"chest", 0, 0x2000_0000, 0)],
        roles: vec![],
    };
    assert!(!far.check_wf(), "a node outside the budget must be rejected");
    let empty_nav = NavFile { regions: vec![] };
    assert!(!empty_nav.check_wf(), "navigation data needs at least one region");
}

//! The loaded scene: role entities, scenery objects and the navigation
//! data that maps grid coordinates into world space.
//!
//! Asset decoding itself is a collaborator outside this crate; the scene
//! records which objects and roles a loaded level asks for, with the
//! transform each one starts from, and owns the live role entities that
//! the script commands move and animate.

use vstd::prelude::*;
use crate::math::Vec3;

verus! {

/// Half the coordinate budget: level data and navigation coordinates stay
/// within this bound so that their sums stay within `COORD_LIMIT`.
pub const COORD_HALF: i64 = 0x1000_0000;

/// A vector whose components fit the level-data budget.
pub open spec fn half_bounded(v: Vec3) -> bool {
    &&& -COORD_HALF <= v.x <= COORD_HALF
    &&& -COORD_HALF <= v.y <= COORD_HALF
    &&& -COORD_HALF <= v.z <= COORD_HALF
}

/// How an animation keeps playing once it reaches its last frame.
#[derive(Clone, Copy, PartialEq, Eq, Structural, Debug)]
pub enum RoleAnimationRepeatMode {
    PlayOnce,
    Repeat,
}

/// The idle loop every role falls back to when it stops acting.
pub const ANIM_STANDING: u32 = 1;

/// The walking loop used while a role follows a path.
pub const ANIM_WALKING: u32 = 2;

/// Position and orientation of an entity.  Orientation is recorded as an
/// accumulated yaw about the vertical axis plus, for roles that were told
/// to face somewhere, the point being looked at.
#[derive(Clone, Copy, PartialEq, Eq, Structural, Debug)]
pub struct Transform {
    pub position: Vec3,
    pub yaw_millideg: u32,
    pub facing_target: Vec3,
}

impl Transform {
    pub open spec fn wf(self) -> bool {
        &&& self.position.wf()
        &&& self.facing_target.wf()
        &&& self.yaw_millideg < 360000
    }

    /// A transform at `position` with no rotation, facing where it stands.
    pub fn at_position(position: &Vec3) -> (r: Transform)
        ensures
            r == (Transform { position: *position, yaw_millideg: 0, facing_target: *position }),
    {
        Transform { position: *position, yaw_millideg: 0, facing_target: *position }
    }

    pub fn set_position(&mut self, p: &Vec3)
        ensures
            *final(self) == (Transform { position: *p, ..*old(self) }),
    {
        self.position = *p;
    }

    /// Rotate about the vertical axis by `millideg` thousandths of a
    /// degree, keeping the accumulated yaw below a full turn.
    pub fn rotate_yaw(&mut self, millideg: u32)
        requires
            millideg < 360000,
            old(self).yaw_millideg < 360000,
        ensures
            *final(self) == (Transform {
                yaw_millideg: (((old(self).yaw_millideg + millideg) as int % 360000) as u32),
                ..*old(self)
            }),
            final(self).yaw_millideg < 360000,
    {
        self.yaw_millideg = (self.yaw_millideg + millideg) % 360000;
    }

    /// Turn to face `target`.
    pub fn look_at(&mut self, target: &Vec3)
        ensures
            *final(self) == (Transform { facing_target: *target, ..*old(self) }),
    {
        self.facing_target = *target;
    }
}

/// A live role entity: looked up by its numeric name each frame, moved
/// and animated by the script commands.
#[derive(Clone, Copy, PartialEq, Eq, Structural, Debug)]
pub struct RoleEntity {
    pub name_id: u32,
    pub transform: Transform,
    pub anim_id: u32,
    pub anim_repeat: RoleAnimationRepeatMode,
}

impl RoleEntity {
    pub open spec fn wf(self) -> bool {
        self.transform.wf()
    }
}

/// One scenery node of a loaded level file.
#[derive(Clone, Debug)]
pub struct ScnNode {
    pub node_type: u32,
    pub name: Vec<u8>,
    pub position: Vec3,
    pub rotation_millideg: u32,
}

impl ScnNode {
    pub open spec fn wf(self) -> bool {
        &&& half_bounded(self.position)
        &&& self.rotation_millideg < 360000
    }
}

/// One role record of a loaded level file.
#[derive(Clone, Copy, PartialEq, Eq, Structural, Debug)]
pub struct ScnRole {
    pub index: u32,
    pub model_id: u32,
    pub action_id: u32,
    pub position: Vec3,
}

impl ScnRole {
    pub open spec fn wf(self) -> bool {
        half_bounded(self.position)
    }
}

/// A decoded level file: the base scenery name plus its nodes and roles.
#[derive(Clone, Debug)]
pub struct ScnFile {
    pub scn_base_name: Vec<u8>,
    pub nodes: Vec<ScnNode>,
    pub roles: Vec<ScnRole>,
}

impl ScnFile {
    pub open spec fn wf(self) -> bool {
        &&& forall|i: int| 0 <= i < self.nodes@.len() ==> (#[trigger] self.nodes@[i]).wf()
        &&& forall|i: int| 0 <= i < self.roles@.len() ==> (#[trigger] self.roles@[i]).wf()
    }

    /// Executable mirror of `wf`, for callers outside the proofs.
    pub fn check_wf(&self) -> (r: bool)
        ensures
            r == self.wf(),
    {
        let n = self.nodes.len();
        let mut i: usize = 0;
        while i < n
            invariant
                i <= n,
                n == self.nodes@.len(),
                forall|j: int| 0 <= j < i ==> (#[trigger] self.nodes@[j]).wf(),
            decreases n - i,
        {
            let node = &self.nodes[i];
            if !(check_half_bounded(&node.position) && node.rotation_millideg < 360000) {
                return false;
            }
            i = i + 1;
        }
        let m = self.roles.len();
        let mut i: usize = 0;
        while i < m
            invariant
                i <= m,
                m == self.roles@.len(),
                forall|j: int| 0 <= j < self.nodes@.len() ==> (#[trigger] self.nodes@[j]).wf(),
                forall|j: int| 0 <= j < i ==> (#[trigger] self.roles@[j]).wf(),
            decreases m - i,
        {
            if !check_half_bounded(&self.roles[i].position) {
                return false;
            }
            i = i + 1;
        }
        true
    }
}

/// One region of the navigation data; the script uses its world-space
/// origin to map grid coordinates into the scene.
#[derive(Clone, Copy, PartialEq, Eq, Structural, Debug)]
pub struct NavRegion {
    pub origin: Vec3,
}

/// Decoded navigation data: one region per walkable layer.
#[derive(Clone, Debug)]
pub struct NavFile {
    pub regions: Vec<NavRegion>,
}

impl NavFile {
    pub open spec fn wf(self) -> bool {
        &&& self.regions@.len() >= 1
        &&& forall|i: int| 0 <= i < self.regions@.len()
            ==> half_bounded((#[trigger] self.regions@[i]).origin)
    }

    /// Executable mirror of `wf`, for callers outside the proofs.
    pub fn check_wf(&self) -> (r: bool)
        ensures
            r == self.wf(),
    {
        if self.regions.len() == 0 {
            return false;
        }
        let n = self.regions.len();
        let mut i: usize = 0;
        while i < n
            invariant
                i <= n,
                n == self.regions@.len(),
                forall|j: int| 0 <= j < i
                    ==> half_bounded((#[trigger] self.regions@[j]).origin),
            decreases n - i,
        {
            if !check_half_bounded(&self.regions[i].origin) {
                return false;
            }
            i = i + 1;
        }
        true
    }
}

/// What a scenery node asks the asset collaborator to load.
#[derive(Clone, Copy, PartialEq, Eq, Structural, Debug)]
pub enum NodeLoad {
    /// A scenery model named by the level itself.
    ScenePol,
    /// A standalone object model.
    ItemPol,
    /// An animated object model.
    ItemCvd,
}

/// A scenery object placed in the scene, awaiting its model.  The
/// transparency flag belongs to the decoded model: it starts false and
/// the host sets it once the model is decoded, before the draw-order
/// sort.
#[derive(Clone, Debug)]
pub struct SceneObject {
    pub kind: NodeLoad,
    pub name: Vec<u8>,
    pub transform: Transform,
    pub has_alpha: bool,
}

/// The mathematical image of a scenery object.
pub struct SceneObjectView {
    pub kind: NodeLoad,
    pub name: Seq<u8>,
    pub transform: Transform,
    pub has_alpha: bool,
}

impl View for SceneObject {
    type V = SceneObjectView;

    open spec fn view(&self) -> SceneObjectView {
        SceneObjectView {
            kind: self.kind,
            name: self.name@,
            transform: self.transform,
            has_alpha: self.has_alpha,
        }
    }
}

/// The images of a list of scenery objects.
pub open spec fn objects_view(s: Seq<SceneObject>) -> Seq<SceneObjectView> {
    s.map_values(|o: SceneObject| o@)
}

/// Node types the loader ignores outright.
pub const NODE_TYPE_HIDDEN_A: u32 = 37;

/// Node types the loader ignores outright.
pub const NODE_TYPE_HIDDEN_B: u32 = 43;

pub open spec fn ends_with_pol(name: Seq<u8>) -> bool {
    &&& name.len() >= 4
    &&& name[name.len() - 4] == 0x2e
    &&& name[name.len() - 3] == 0x70
    &&& name[name.len() - 2] == 0x6f
    &&& name[name.len() - 1] == 0x6c
}

pub open spec fn ends_with_cvd(name: Seq<u8>) -> bool {
    &&& name.len() >= 4
    &&& name[name.len() - 4] == 0x2e
    &&& name[name.len() - 3] == 0x63
    &&& name[name.len() - 2] == 0x76
    &&& name[name.len() - 1] == 0x64
}

/// How one scenery node is loaded, if at all: hidden node types and
/// unnamed or marker nodes load nothing; a leading underscore names a
/// scenery model of the level; otherwise the extension decides, with a
/// plain object model as the default.
pub open spec fn classify(node: ScnNode) -> Option<NodeLoad> {
    if node.node_type == NODE_TYPE_HIDDEN_A || node.node_type == NODE_TYPE_HIDDEN_B
        || node.name@.len() == 0 {
        None
    } else if node.name@[0] == 0x5f {
        Some(NodeLoad::ScenePol)
    } else if ends_with_pol(node.name@) {
        Some(NodeLoad::ItemPol)
    } else if ends_with_cvd(node.name@) {
        Some(NodeLoad::ItemCvd)
    } else if node.name@[0] == 0x2b {
        None
    } else {
        Some(NodeLoad::ItemPol)
    }
}

/// The scene object a node turns into: its model name at the node's
/// position, rotated by the node's yaw.
pub open spec fn node_object(node: ScnNode, kind: NodeLoad) -> SceneObjectView {
    SceneObjectView {
        kind,
        name: node.name@,
        transform: Transform {
            position: node.position,
            yaw_millideg: node.rotation_millideg,
            facing_target: node.position,
        },
        has_alpha: false,
    }
}

/// The scenery models the nodes ask for, in node order.
pub open spec fn pol_objects_of(nodes: Seq<ScnNode>) -> Seq<SceneObjectView>
    decreases nodes.len(),
{
    if nodes.len() == 0 {
        Seq::empty()
    } else {
        let rest = pol_objects_of(nodes.drop_last());
        match classify(nodes.last()) {
            Some(NodeLoad::ScenePol) => rest.push(node_object(nodes.last(), NodeLoad::ScenePol)),
            Some(NodeLoad::ItemPol) => rest.push(node_object(nodes.last(), NodeLoad::ItemPol)),
            _ => rest,
        }
    }
}

/// The animated object models the nodes ask for, in node order.
pub open spec fn cvd_objects_of(nodes: Seq<ScnNode>) -> Seq<SceneObjectView>
    decreases nodes.len(),
{
    if nodes.len() == 0 {
        Seq::empty()
    } else {
        let rest = cvd_objects_of(nodes.drop_last());
        match classify(nodes.last()) {
            Some(NodeLoad::ItemCvd) => rest.push(node_object(nodes.last(), NodeLoad::ItemCvd)),
            _ => rest,
        }
    }
}

/// The opaque scenery models of a list, in their relative order.
pub open spec fn opaque_pols_of(s: Seq<SceneObject>) -> Seq<SceneObject>
    decreases s.len(),
{
    if s.len() == 0 {
        Seq::empty()
    } else {
        let rest = opaque_pols_of(s.drop_last());
        if s.last().kind is ItemCvd || s.last().has_alpha {
            rest
        } else {
            rest.push(s.last())
        }
    }
}

/// The transparent scenery models of a list, in their relative order.
pub open spec fn alpha_pols_of(s: Seq<SceneObject>) -> Seq<SceneObject>
    decreases s.len(),
{
    if s.len() == 0 {
        Seq::empty()
    } else {
        let rest = alpha_pols_of(s.drop_last());
        if !(s.last().kind is ItemCvd) && s.last().has_alpha {
            rest.push(s.last())
        } else {
            rest
        }
    }
}

/// The animated models of a list, in their relative order.
pub open spec fn cvd_objects_in(s: Seq<SceneObject>) -> Seq<SceneObject>
    decreases s.len(),
{
    if s.len() == 0 {
        Seq::empty()
    } else {
        let rest = cvd_objects_in(s.drop_last());
        if s.last().kind is ItemCvd {
            rest.push(s.last())
        } else {
            rest
        }
    }
}

/// The extension of a scenery model name, as bytes.
pub open spec fn pol_extension() -> Seq<u8> {
    seq![0x2eu8, 0x70u8, 0x6fu8, 0x6cu8]
}

/// The ground scenery model: the level's base name with the scenery
/// extension appended, placed at the origin.
pub open spec fn ground_object(base_name: Seq<u8>) -> SceneObjectView {
    SceneObjectView {
        kind: NodeLoad::ScenePol,
        name: base_name + pol_extension(),
        transform: Transform {
            position: Vec3 { x: 0, y: 0, z: 0 },
            yaw_millideg: 0,
            facing_target: Vec3 { x: 0, y: 0, z: 0 },
        },
        has_alpha: false,
    }
}

/// The ten player-party roles every scene starts with, named 101 through
/// 110, standing idle at the origin.
pub open spec fn standard_role(id: int) -> RoleEntity {
    RoleEntity {
        name_id: id as u32,
        transform: Transform {
            position: Vec3 { x: 0, y: 0, z: 0 },
            yaw_millideg: 0,
            facing_target: Vec3 { x: 0, y: 0, z: 0 },
        },
        anim_id: ANIM_STANDING,
        anim_repeat: RoleAnimationRepeatMode::Repeat,
    }
}

pub open spec fn standard_roles() -> Seq<RoleEntity> {
    Seq::new(10, |i: int| standard_role(101 + i))
}

/// The entity a level role record turns into: placed at its position,
/// turned half a circle to face the camera, playing its start action.
pub open spec fn scene_role_entity(r: ScnRole) -> RoleEntity {
    RoleEntity {
        name_id: r.index,
        transform: Transform {
            position: r.position,
            yaw_millideg: 180000,
            facing_target: r.position,
        },
        anim_id: r.action_id,
        anim_repeat: RoleAnimationRepeatMode::Repeat,
    }
}

pub open spec fn scene_roles_of(roles: Seq<ScnRole>) -> Seq<RoleEntity> {
    roles.map_values(|r: ScnRole| scene_role_entity(r))
}

/// The loaded scene: level and navigation data plus the live entities.
pub struct ScnScene {
    pub cpk_name: Vec<u8>,
    pub scn_name: Vec<u8>,
    pub scn_file: ScnFile,
    pub nav_file: NavFile,
    pub objects: Vec<SceneObject>,
    pub entities: Vec<RoleEntity>,
    pub camera_position: Vec3,
}

impl ScnScene {
    pub open spec fn wf(self) -> bool {
        &&& self.scn_file.wf()
        &&& self.nav_file.wf()
        &&& forall|i: int| 0 <= i < self.entities@.len() ==> (#[trigger] self.entities@[i]).wf()
    }

    /// A freshly loaded scene: level and navigation data recorded, no
    /// objects or entities yet.
    pub fn new(cpk_name: Vec<u8>, scn_name: Vec<u8>, scn_file: ScnFile, nav_file: NavFile)
        -> (r: ScnScene)
        requires
            scn_file.wf(),
            nav_file.wf(),
        ensures
            r == (ScnScene {
                cpk_name,
                scn_name,
                scn_file,
                nav_file,
                objects: r.objects,
                entities: r.entities,
                camera_position: Vec3 { x: 0, y: 0, z: 0 },
            }),
            r.objects@.len() == 0,
            r.entities@.len() == 0,
            r.wf(),
    {
        ScnScene {
            cpk_name,
            scn_name,
            scn_file,
            nav_file,
            objects: Vec::new(),
            entities: Vec::new(),
            camera_position: Vec3 { x: 0, y: 0, z: 0 },
        }
    }

    /// The world-space origin of the navigation grid: the first region's
    /// origin in the navigation data.
    pub fn nav_origin(&self) -> (r: &Vec3)
        requires
            self.nav_file.regions@.len() >= 1,
        ensures
            r == self.nav_file.regions@[0].origin,
    {
        &self.nav_file.regions[0].origin
    }

    /// Position of the first role entity named `name_id`, if any: roles
    /// are re-resolved by name every frame because scene transitions can
    /// add and remove entities.
    pub fn get_role_entity(&self, name_id: u32) -> (r: Option<usize>)
        ensures
            match r {
                Some(i) => {
                    &&& i < self.entities@.len()
                    &&& self.entities@[i as int].name_id == name_id
                    &&& forall|j: int| 0 <= j < i
                        ==> (#[trigger] self.entities@[j]).name_id != name_id
                },
                None => forall|j: int| 0 <= j < self.entities@.len()
                    ==> (#[trigger] self.entities@[j]).name_id != name_id,
            },
    {
        let n = self.entities.len();
        let mut i: usize = 0;
        while i < n
            invariant
                i <= n,
                n == self.entities@.len(),
                forall|j: int| 0 <= j < i ==> (#[trigger] self.entities@[j]).name_id != name_id,
            decreases n - i,
        {
            if self.entities[i].name_id == name_id {
                return Some(i);
            }
            i = i + 1;
        }
        None
    }

    /// Record the scenery objects the level asks for: the ground model
    /// first, then each node's scenery model in node order, then each
    /// node's animated model in node order.
    pub fn load_objects(&mut self)
        requires
            old(self).objects@.len() == 0,
            old(self).scn_file.wf(),
        ensures
            objects_view(final(self).objects@)
                =~= seq![ground_object(old(self).scn_file.scn_base_name@)]
                    + pol_objects_of(old(self).scn_file.nodes@)
                    + cvd_objects_of(old(self).scn_file.nodes@),
            (*final(self) == ScnScene { objects: final(self).objects, ..*old(self) }),
    {
        let ground_name = append_pol_extension(&self.scn_file.scn_base_name);
        let ground = SceneObject {
            kind: NodeLoad::ScenePol,
            name: ground_name,
            transform: Transform::at_position(&Vec3::new(0, 0, 0)),
            has_alpha: false,
        };
        self.objects.push(ground);
        proof {
            assert(objects_view(self.objects@)
                =~= seq![ground_object(self.scn_file.scn_base_name@)]);
        }
        let n = self.scn_file.nodes.len();
        let mut i: usize = 0;
        while i < n
            invariant
                i <= n,
                n == self.scn_file.nodes@.len(),
                old(self).scn_file.wf(),
                (*self == ScnScene { objects: self.objects, ..*old(self) }),
                self.objects@.len() >= 1,
                objects_view(self.objects@)
                    =~= seq![ground_object(old(self).scn_file.scn_base_name@)]
                        + pol_objects_of(self.scn_file.nodes@.take(i as int)),
            decreases n - i,
        {
            let node = &self.scn_file.nodes[i];
            proof {
                assert(self.scn_file == old(self).scn_file);
                assert(old(self).scn_file.nodes@[i as int].wf());
                assert(self.scn_file.nodes@[i as int].wf());
            }
            let kind = classify_node(node);
            proof {
                assert(self.scn_file.nodes@.take(i as int + 1).drop_last()
                    =~= self.scn_file.nodes@.take(i as int));
                assert(self.scn_file.nodes@.take(i as int + 1).last()
                    == self.scn_file.nodes@[i as int]);
            }
            match kind {
                Some(NodeLoad::ScenePol) | Some(NodeLoad::ItemPol) => {
                    let obj = SceneObject {
                        kind: if matches!(kind, Some(NodeLoad::ScenePol)) {
                            NodeLoad::ScenePol
                        } else {
                            NodeLoad::ItemPol
                        },
                        name: copy_bytes(&self.scn_file.nodes[i].name),
                        transform: node_start_transform(&self.scn_file.nodes[i]),
                        has_alpha: false,
                    };
                    proof {
                        assert(obj@ == node_object(self.scn_file.nodes@[i as int], obj.kind));
                    }
                    let ghost prev = self.objects@;
                    self.objects.push(obj);
                    proof {
                        assert(objects_view(prev.push(obj)) =~= objects_view(prev).push(obj@));
                    }
                },
                _ => {},
            }
            i = i + 1;
        }
        proof {
            assert(self.scn_file.nodes@.take(n as int) =~= self.scn_file.nodes@);
        }
        let mut i: usize = 0;
        while i < n
            invariant
                i <= n,
                n == self.scn_file.nodes@.len(),
                old(self).scn_file.wf(),
                (*self == ScnScene { objects: self.objects, ..*old(self) }),
                objects_view(self.objects@)
                    =~= seq![ground_object(old(self).scn_file.scn_base_name@)]
                        + pol_objects_of(self.scn_file.nodes@)
                        + cvd_objects_of(self.scn_file.nodes@.take(i as int)),
            decreases n - i,
        {
            let node = &self.scn_file.nodes[i];
            proof {
                assert(self.scn_file == old(self).scn_file);
                assert(old(self).scn_file.nodes@[i as int].wf());
                assert(self.scn_file.nodes@[i as int].wf());
            }
            let kind = classify_node(node);
            proof {
                assert(self.scn_file.nodes@.take(i as int + 1).drop_last()
                    =~= self.scn_file.nodes@.take(i as int));
                assert(self.scn_file.nodes@.take(i as int + 1).last()
                    == self.scn_file.nodes@[i as int]);
            }
            match kind {
                Some(NodeLoad::ItemCvd) => {
                    let obj = SceneObject {
                        kind: NodeLoad::ItemCvd,
                        name: copy_bytes(&self.scn_file.nodes[i].name),
                        transform: node_start_transform(&self.scn_file.nodes[i]),
                        has_alpha: false,
                    };
                    proof {
                        assert(obj@ == node_object(self.scn_file.nodes@[i as int],
                            NodeLoad::ItemCvd));
                    }
                    let ghost prev = self.objects@;
                    self.objects.push(obj);
                    proof {
                        assert(objects_view(prev.push(obj)) =~= objects_view(prev).push(obj@));
                    }
                },
                _ => {},
            }
            i = i + 1;
        }
        proof {
            assert(self.scn_file.nodes@.take(n as int) =~= self.scn_file.nodes@);
        }
    }

    /// Bring the roles to life: the ten standard party roles first, then
    /// the level's own role records, appended to the entity list in
    /// record order.
    pub fn load_roles(&mut self)
        requires
            old(self).wf(),
        ensures
            final(self).entities@ =~= old(self).entities@ + standard_roles()
                + scene_roles_of(old(self).scn_file.roles@),
            (*final(self) == ScnScene { entities: final(self).entities, ..*old(self) }),
            final(self).wf(),
    {
        let mut id: u32 = 101;
        while id < 111
            invariant
                101 <= id <= 111,
                (*self == ScnScene { entities: self.entities, ..*old(self) }),
                self.entities@ =~= old(self).entities@
                    + standard_roles().take(id as int - 101),
                self.wf(),
            decreases 111 - id,
        {
            let role = RoleEntity {
                name_id: id,
                transform: Transform::at_position(&Vec3::new(0, 0, 0)),
                anim_id: ANIM_STANDING,
                anim_repeat: RoleAnimationRepeatMode::Repeat,
            };
            self.entities.push(role);
            proof {
                assert(standard_roles().take(id as int + 1 - 101)
                    =~= standard_roles().take(id as int - 101).push(standard_role(id as int)));
            }
            id = id + 1;
        }
        proof {
            assert(standard_roles().take(10) =~= standard_roles());
        }
        let n = self.scn_file.roles.len();
        let mut i: usize = 0;
        while i < n
            invariant
                i <= n,
                n == self.scn_file.roles@.len(),
                (*self == ScnScene { entities: self.entities, ..*old(self) }),
                self.entities@ =~= old(self).entities@ + standard_roles()
                    + scene_roles_of(self.scn_file.roles@.take(i as int)),
                self.wf(),
            decreases n - i,
        {
            let r = self.scn_file.roles[i];
            let mut transform = Transform::at_position(&r.position);
            transform.rotate_yaw(180000);
            let role = RoleEntity {
                name_id: r.index,
                transform,
                anim_id: r.action_id,
                anim_repeat: RoleAnimationRepeatMode::Repeat,
            };
            self.entities.push(role);
            proof {
                assert(scene_roles_of(self.scn_file.roles@.take(i as int + 1))
                    =~= scene_roles_of(self.scn_file.roles@.take(i as int))
                        .push(scene_role_entity(self.scn_file.roles@[i as int])));
            }
            i = i + 1;
        }
        proof {
            assert(self.scn_file.roles@.take(n as int) =~= self.scn_file.roles@);
        }
    }

    /// Executable mirror of `wf`, for callers outside the proofs.
    pub fn check_wf(&self) -> (r: bool)
        ensures
            r == self.wf(),
    {
        if !(self.scn_file.check_wf() && self.nav_file.check_wf()) {
            return false;
        }
        let n = self.entities.len();
        let mut i: usize = 0;
        while i < n
            invariant
                i <= n,
                n == self.entities@.len(),
                self.scn_file.wf(),
                self.nav_file.wf(),
                forall|j: int| 0 <= j < i ==> (#[trigger] self.entities@[j]).wf(),
            decreases n - i,
        {
            let t = &self.entities[i].transform;
            if !(t.position.check_wf() && t.facing_target.check_wf()
                && t.yaw_millideg < 360000) {
                return false;
            }
            i = i + 1;
        }
        true
    }

    /// Restore the draw order once the models are decoded and their
    /// transparency known: opaque scenery models first, then the
    /// transparent ones, then the animated models, each group keeping
    /// its relative order.
    pub fn sort_objects_by_alpha(&mut self)
        ensures
            final(self).objects@ == opaque_pols_of(old(self).objects@)
                + alpha_pols_of(old(self).objects@) + cvd_objects_in(old(self).objects@),
            (*final(self) == ScnScene { objects: final(self).objects, ..*old(self) }),
    {
        let mut src: Vec<SceneObject> = Vec::new();
        core::mem::swap(&mut src, &mut self.objects);
        let ghost all = src@;
        let mut opaque: Vec<SceneObject> = Vec::new();
        let mut alpha: Vec<SceneObject> = Vec::new();
        let mut cvds: Vec<SceneObject> = Vec::new();
        let ghost mut k: int = 0;
        while src.len() > 0
            invariant
                0 <= k <= all.len(),
                src@ == all.skip(k),
                opaque@ == opaque_pols_of(all.take(k)),
                alpha@ == alpha_pols_of(all.take(k)),
                cvds@ == cvd_objects_in(all.take(k)),
                self.objects@.len() == 0,
                (*self == ScnScene { objects: self.objects, ..*old(self) }),
            decreases src.len(),
        {
            let o = src.remove(0);
            proof {
                assert(o == all[k]);
                assert(all.skip(k).remove(0) =~= all.skip(k + 1));
                assert(all.take(k + 1).drop_last() =~= all.take(k));
                assert(all.take(k + 1).last() == all[k]);
            }
            let is_cvd = matches!(o.kind, NodeLoad::ItemCvd);
            if is_cvd {
                cvds.push(o);
            } else if o.has_alpha {
                alpha.push(o);
            } else {
                opaque.push(o);
            }
            proof {
                k = k + 1;
            }
        }
        proof {
            assert(all.take(all.len() as int) =~= all);
            assert(all.skip(k).len() == 0);
            assert(k == all.len());
        }
        self.objects = opaque;
        self.objects.append(&mut alpha);
        self.objects.append(&mut cvds);
    }

    /// Hand a new entity to the scene; it joins the end of the entity
    /// list and is found by name from the next lookup on.
    pub fn add_entity(&mut self, entity: RoleEntity)
        requires
            entity.wf(),
        ensures
            final(self).entities@ == old(self).entities@.push(entity),
            (*final(self) == ScnScene { entities: final(self).entities, ..*old(self) }),
            old(self).wf() ==> final(self).wf(),
    {
        self.entities.push(entity);
    }

    /// Switch the animation of the role entity at `idx`.
    pub fn play_role_anim(&mut self, idx: usize, anim_id: u32, repeat: RoleAnimationRepeatMode)
        requires
            idx < old(self).entities@.len(),
        ensures
            final(self).entities@ == old(self).entities@.update(idx as int, RoleEntity {
                anim_id,
                anim_repeat: repeat,
                ..old(self).entities@[idx as int]
            }),
            (*final(self) == ScnScene { entities: final(self).entities, ..*old(self) }),
    {
        let e = &mut self.entities[idx];
        e.anim_id = anim_id;
        e.anim_repeat = repeat;
    }

    /// Move the role entity at `idx` one motion frame: it turns to face
    /// `target` and stands at `new_position`.
    pub fn move_role(&mut self, idx: usize, target: &Vec3, new_position: &Vec3)
        requires
            idx < old(self).entities@.len(),
        ensures
            final(self).entities@ == old(self).entities@.update(idx as int, RoleEntity {
                transform: Transform {
                    position: *new_position,
                    facing_target: *target,
                    ..old(self).entities@[idx as int].transform
                },
                ..old(self).entities@[idx as int]
            }),
            (*final(self) == ScnScene { entities: final(self).entities, ..*old(self) }),
    {
        let e = &mut self.entities[idx];
        e.transform.look_at(target);
        e.transform.set_position(new_position);
    }
}

/// The start transform a node gives its object: its recorded position,
/// rotated by its recorded yaw.
pub fn node_start_transform(node: &ScnNode) -> (r: Transform)
    requires
        node.wf(),
    ensures
        r == (Transform {
            position: node.position,
            yaw_millideg: node.rotation_millideg,
            facing_target: node.position,
        }),
{
    let mut t = Transform::at_position(&node.position);
    t.rotate_yaw(node.rotation_millideg);
    t
}

/// A fresh copy of a byte string.
pub fn copy_bytes(b: &Vec<u8>) -> (r: Vec<u8>)
    ensures
        r@ =~= b@,
{
    let mut r: Vec<u8> = Vec::new();
    let n = b.len();
    let mut i: usize = 0;
    while i < n
        invariant
            i <= n,
            n == b@.len(),
            r@ =~= b@.take(i as int),
        decreases n - i,
    {
        r.push(b[i]);
        proof {
            assert(b@.take(i as int + 1) =~= b@.take(i as int).push(b@[i as int]));
        }
        i = i + 1;
    }
    proof {
        assert(b@.take(n as int) =~= b@);
    }
    r
}

/// `base` with the scenery model extension appended.
pub fn append_pol_extension(base: &Vec<u8>) -> (r: Vec<u8>)
    ensures
        r@ =~= base@ + pol_extension(),
{
    let mut r = copy_bytes(base);
    r.push(0x2e);
    r.push(0x70);
    r.push(0x6f);
    r.push(0x6c);
    r
}

/// Executable mirror of `half_bounded`, for callers outside the proofs.
pub fn check_half_bounded(v: &Vec3) -> (r: bool)
    ensures
        r == half_bounded(*v),
{
    -COORD_HALF <= v.x && v.x <= COORD_HALF
        && -COORD_HALF <= v.y && v.y <= COORD_HALF
        && -COORD_HALF <= v.z && v.z <= COORD_HALF
}

/// Executable mirror of `classify`.
pub fn classify_node(node: &ScnNode) -> (r: Option<NodeLoad>)
    ensures
        r == classify(*node),
{
    if node.node_type == NODE_TYPE_HIDDEN_A || node.node_type == NODE_TYPE_HIDDEN_B
        || node.name.len() == 0 {
        return None;
    }
    let len = node.name.len();
    let first = node.name[0];
    if first == 0x5f {
        return Some(NodeLoad::ScenePol);
    }
    if len >= 4 && node.name[len - 4] == 0x2e && node.name[len - 3] == 0x70
        && node.name[len - 2] == 0x6f && node.name[len - 1] == 0x6c {
        return Some(NodeLoad::ItemPol);
    }
    if len >= 4 && node.name[len - 4] == 0x2e && node.name[len - 3] == 0x63
        && node.name[len - 2] == 0x76 && node.name[len - 1] == 0x64 {
        return Some(NodeLoad::ItemCvd);
    }
    if first == 0x2b {
        return None;
    }
    Some(NodeLoad::ItemPol)
}

/// Map a navigation-grid coordinate into world space by adding the
/// scene's navigation origin; the grid is horizontal, so its second
/// coordinate lands on the world's depth axis and the height comes from
/// the origin alone.
pub open spec fn nav_to_world(origin: Vec3, nav_x: int, nav_y: int) -> Vec3 {
    Vec3 { x: (origin.x + nav_x) as i64, y: origin.y, z: (origin.z + nav_y) as i64 }
}

/// Executable mirror of `nav_to_world` against the scene's own origin.
pub fn nav_coord_to_scene_coord(scene: &ScnScene, nav_x: i64, nav_y: i64) -> (r: Vec3)
    requires
        scene.wf(),
        -COORD_HALF <= nav_x <= COORD_HALF,
        -COORD_HALF <= nav_y <= COORD_HALF,
    ensures
        r == nav_to_world(scene.nav_file.regions@[0].origin, nav_x as int, nav_y as int),
        r.wf(),
{
    let origin = scene.nav_origin();
    Vec3 { x: origin.x + nav_x, y: origin.y, z: origin.z + nav_y }
}

} // verus!

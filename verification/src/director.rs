//! The director: a cooperative scheduler that advances a procedure of
//! script commands once per frame.  The foreground cursor walks the
//! procedure strictly in order, one command engaged at a time; chains of
//! instantly-completing commands run within a single tick, bounded by a
//! loop guard that turns malformed control flow into a script fault
//! instead of a hung frame.  Background commands tick independently and
//! never block the cursor.

use vstd::prelude::*;
use vstd::pervasive::unreached;
use crate::math::{Vec3, sq_dist, stepped, step_towards, MIN_STEP, MAX_STEP};
use crate::scene::{
    ScnScene, RoleEntity, Transform, RoleAnimationRepeatMode, ANIM_STANDING, ANIM_WALKING,
    COORD_HALF, nav_to_world, nav_coord_to_scene_coord,
};
use crate::state::SceState;

verus! {

/// Fixed motion speed of path commands, in fixed-point units per second
/// (one hundred world units per second).
pub const SPEED: i64 = 100_000;

/// Most commands allowed to complete within one tick before the director
/// declares the procedure malformed.
pub const MAX_INSTANT_CHAIN: u32 = 1000;

/// The per-frame UI context: commands awaiting user acknowledgement poll
/// its advance signal.
#[derive(Clone, Copy, PartialEq, Eq, Structural, Debug)]
pub struct UiContext {
    pub dialogue_acknowledged: bool,
}

/// Why the director aborted the current procedure.
#[derive(Clone, Copy, PartialEq, Eq, Structural, Debug)]
pub enum SceFault {
    /// A command was ticked before any scene was loaded: an engine
    /// ordering bug, not a recoverable condition.
    NoSceneLoaded,
    /// A command referenced a role entity absent from the scene.
    RoleNotFound { role_id: u32 },
    /// A control-flow command targeted a position outside the procedure.
    CursorOutOfBounds { command_index: usize, target: usize },
    /// Too many commands completed within a single tick: malformed
    /// control flow such as a self-jump loop.
    ScriptFault { command_index: usize },
    /// A return command ran with no call on the stack.
    ReturnWithoutCall { command_index: usize },
}

/// Map a script role operand to the entity name it addresses: negative
/// operands mean the player character, which occupies the first standard
/// slot; others count upward from it.
pub open spec fn mapped_role_id(role_id: int) -> int {
    if role_id < 0 {
        101
    } else {
        101 + role_id
    }
}

pub fn map_role_id(role_id: i32) -> (r: u32)
    ensures
        r as int == mapped_role_id(role_id as int),
{
    if role_id < 0 {
        101
    } else {
        101 + role_id as u32
    }
}

/// Move a role to a navigation-grid point at the fixed walking speed.
#[derive(Clone, Copy, PartialEq, Eq, Structural, Debug)]
pub struct SceCommandRolePathTo {
    pub role_id: u32,
    pub nav_x: i64,
    pub nav_y: i64,
    pub unknown: i32,
}

/// One script operation, with its operands.
#[derive(Clone, Copy, PartialEq, Eq, Structural, Debug)]
pub enum SceCommand {
    /// Walk a role to a navigation point, over as many frames as needed.
    RolePathTo(SceCommandRolePathTo),
    /// Write a value into the Script State Store.
    Let { key: u32, value: i32 },
    /// Unconditionally move the cursor.
    Jump { target: usize },
    /// Move the cursor when the key reads non-zero.
    BranchIf { key: u32, target: usize },
    /// Enter a sub-procedure, remembering where to come back.
    Call { target: usize },
    /// Come back from the innermost call.
    Return,
    /// Switch a role's animation.
    PlayAnim { role_id: u32, anim_id: u32, repeat: RoleAnimationRepeatMode },
    /// Reposition the camera instantly.
    CameraSet { position: Vec3 },
    /// Do nothing for a span of milliseconds.
    Wait { millis: u32 },
    /// Show a line of dialogue until the player acknowledges it.
    Dialogue { text_id: u32 },
    /// Ask the host to load another scene.
    LoadScene { scene_id: u32 },
}

/// Commands that steer the cursor rather than advancing past themselves.
pub open spec fn is_control(c: SceCommand) -> bool {
    c is Jump || c is BranchIf || c is Call || c is Return
}

/// Commands that complete on their very first update, touch no entity
/// and never steer the cursor.
pub open spec fn is_simple_instant(c: SceCommand) -> bool {
    c is Let || c is CameraSet || c is LoadScene
}

/// Operand validity: navigation targets stay within the level-data
/// coordinate budget.
pub open spec fn command_wf(c: SceCommand) -> bool {
    match c {
        SceCommand::RolePathTo(p) => {
            &&& -COORD_HALF <= p.nav_x <= COORD_HALF
            &&& -COORD_HALF <= p.nav_y <= COORD_HALF
        },
        _ => true,
    }
}

/// Where the cursor goes after a command completes.
#[derive(Clone, Copy, PartialEq, Eq, Structural, Debug)]
pub enum CursorEffect {
    /// Past the completed command.
    Next,
    /// To the command's jump target.
    Goto(usize),
    /// Into a sub-procedure, remembering the position after the call.
    PushCall(usize),
    /// Back to the position remembered by the innermost call.
    PopReturn,
}

/// What one update of a command reported.
#[derive(Clone, Copy, PartialEq, Eq, Structural, Debug)]
pub enum CommandStatus {
    /// Still working; poll again next frame.
    Running,
    /// Done; the cursor may move on.
    Completed(CursorEffect),
}

/// The per-frame step length: the fixed speed scaled by the frame time.
pub open spec fn step_len(delta_ms: int) -> int {
    (SPEED * delta_ms) / 1000
}

/// Executable mirror of `step_len`, with its bounds.
pub fn step_len_for(delta_ms: u32) -> (r: i64)
    requires
        1 <= delta_ms <= 10_000,
    ensures
        r == step_len(delta_ms as int),
        MIN_STEP <= r <= MAX_STEP,
{
    proof {
        assert((SPEED as int) * (delta_ms as int) >= 100_000) by (nonlinear_arith)
            requires delta_ms >= 1;
        assert((SPEED as int) * (delta_ms as int) <= 1_000_000_000) by (nonlinear_arith)
            requires delta_ms <= 10_000;
    }
    let prod: u64 = (SPEED as u64) * (delta_ms as u64);
    let r = (prod / 1000) as i64;
    proof {
        vstd::arithmetic::div_mod::lemma_div_is_ordered(
            100_000, (SPEED as int) * (delta_ms as int), 1000);
        vstd::arithmetic::div_mod::lemma_div_is_ordered(
            (SPEED as int) * (delta_ms as int), 1_000_000_000, 1000);
    }
    r
}

/// The first entity slot named `id`, or a negative value when none is.
pub open spec fn first_role_index(s: Seq<RoleEntity>, id: u32) -> int
    decreases s.len(),
{
    if s.len() == 0 {
        -1
    } else if s[0].name_id == id {
        0
    } else {
        let r = first_role_index(s.drop_first(), id);
        if r < 0 {
            -1
        } else {
            r + 1
        }
    }
}

proof fn lemma_first_role_index(s: Seq<RoleEntity>, id: u32)
    ensures
        first_role_index(s, id) < 0 ==> forall|j: int| 0 <= j < s.len()
            ==> (#[trigger] s[j]).name_id != id,
        first_role_index(s, id) >= 0 ==> {
            let i = first_role_index(s, id);
            &&& i < s.len()
            &&& s[i].name_id == id
            &&& forall|j: int| 0 <= j < i ==> (#[trigger] s[j]).name_id != id
        },
    decreases s.len(),
{
    if s.len() == 0 {
    } else if s[0].name_id == id {
    } else {
        lemma_first_role_index(s.drop_first(), id);
        assert forall|j: int| 1 <= j < s.len()
            implies s[j] == s.drop_first()[j - 1] by {}
    }
}

proof fn lemma_first_role_index_unique(s: Seq<RoleEntity>, id: u32, i: int)
    requires
        0 <= i < s.len(),
        s[i].name_id == id,
        forall|j: int| 0 <= j < i ==> (#[trigger] s[j]).name_id != id,
    ensures
        first_role_index(s, id) == i,
    decreases s.len(),
{
    if i == 0 {
    } else {
        assert(s[0].name_id != id);
        assert(s.drop_first()[i - 1] == s[i]);
        assert forall|j: int| 0 <= j < i - 1 implies (#[trigger] s.drop_first()[j]).name_id != id by {
            assert(s.drop_first()[j] == s[j + 1]);
        }
        lemma_first_role_index_unique(s.drop_first(), id, i - 1);
    }
}

impl SceCommandRolePathTo {
    /// Build the command from raw script operands: the role operand is
    /// mapped to an entity name and the grid coordinates are scaled into
    /// fixed-point world units.
    pub fn new(role_id: i32, nav_x: i32, nav_y: i32, unknown: i32) -> (r: SceCommandRolePathTo)
        requires
            -200_000 <= nav_x <= 200_000,
            -200_000 <= nav_y <= 200_000,
        ensures
            r.role_id as int == mapped_role_id(role_id as int),
            r.nav_x == nav_x as int * 1000,
            r.nav_y == nav_y as int * 1000,
            r.unknown == unknown,
            command_wf(SceCommand::RolePathTo(r)),
    {
        SceCommandRolePathTo {
            role_id: map_role_id(role_id),
            nav_x: (nav_x as i64) * 1000,
            nav_y: (nav_y as i64) * 1000,
            unknown,
        }
    }

    /// Where this command is walking to, in world space.
    pub open spec fn destination(self, scene: ScnScene) -> Vec3 {
        nav_to_world(scene.nav_file.regions@[0].origin, self.nav_x as int, self.nav_y as int)
    }

    /// One-shot start-up: the role begins its walking loop.
    pub fn initialize(&self, scene: &mut ScnScene) -> (r: Result<(), SceFault>)
        requires
            old(scene).wf(),
        ensures
            final(scene).wf(),
            (*final(scene) == ScnScene { entities: final(scene).entities, ..*old(scene) }),
            first_role_index(old(scene).entities@, self.role_id) < 0
                ==> r == Err::<(), SceFault>(SceFault::RoleNotFound { role_id: self.role_id })
                    && *final(scene) == *old(scene),
            first_role_index(old(scene).entities@, self.role_id) >= 0 ==> {
                let i = first_role_index(old(scene).entities@, self.role_id);
                &&& r is Ok
                &&& final(scene).entities@ == old(scene).entities@.update(i, (RoleEntity {
                    anim_id: ANIM_WALKING,
                    anim_repeat: RoleAnimationRepeatMode::Repeat,
                    ..old(scene).entities@[i]
                }))
            },
    {
        proof {
            lemma_first_role_index(scene.entities@, self.role_id);
        }
        match scene.get_role_entity(self.role_id) {
            None => Err(SceFault::RoleNotFound { role_id: self.role_id }),
            Some(i) => {
                proof {
                    lemma_first_role_index_unique(scene.entities@, self.role_id, i as int);
                }
                scene.play_role_anim(i, ANIM_WALKING, RoleAnimationRepeatMode::Repeat);
                Ok(())
            },
        }
    }

    /// One motion frame: walk the step towards the destination, snapping
    /// onto it and falling back to the idle loop once it is within
    /// reach.  Reports true exactly when the destination was reached.
    pub fn update(&self, scene: &mut ScnScene, ui: &UiContext, state: &mut SceState,
        delta_ms: u32) -> (r: Result<bool, SceFault>)
        requires
            old(scene).wf(),
            command_wf(SceCommand::RolePathTo(*self)),
            1 <= delta_ms <= 10_000,
        ensures
            final(scene).wf(),
            (*final(scene) == ScnScene { entities: final(scene).entities, ..*old(scene) }),
            *final(state) == *old(state),
            first_role_index(old(scene).entities@, self.role_id) < 0
                ==> r == Err::<bool, SceFault>(SceFault::RoleNotFound { role_id: self.role_id })
                    && *final(scene) == *old(scene),
            first_role_index(old(scene).entities@, self.role_id) >= 0 ==> {
                let i = first_role_index(old(scene).entities@, self.role_id);
                let pos0 = old(scene).entities@[i].transform.position;
                let to = self.destination(*old(scene));
                let s = step_len(delta_ms as int);
                &&& (r == Ok::<bool, SceFault>(true) <==> sq_dist(pos0, to) <= s * s)
                &&& r is Ok
                &&& (r == Ok::<bool, SceFault>(true) ==> final(scene).entities@
                    == old(scene).entities@.update(i, (RoleEntity {
                        transform: Transform {
                            position: to,
                            facing_target: to,
                            ..old(scene).entities@[i].transform
                        },
                        anim_id: ANIM_STANDING,
                        anim_repeat: RoleAnimationRepeatMode::Repeat,
                        ..old(scene).entities@[i]
                    })))
                &&& (r == Ok::<bool, SceFault>(false) ==> {
                    let np = stepped(pos0, to, s);
                    &&& final(scene).entities@ == old(scene).entities@.update(i, (RoleEntity {
                        transform: Transform {
                            position: np,
                            facing_target: to,
                            ..old(scene).entities@[i].transform
                        },
                        ..old(scene).entities@[i]
                    }))
                    &&& sq_dist(np, to) < sq_dist(pos0, to)
                })
            },
    {
        proof {
            lemma_first_role_index(scene.entities@, self.role_id);
        }
        match scene.get_role_entity(self.role_id) {
            None => Err(SceFault::RoleNotFound { role_id: self.role_id }),
            Some(i) => {
                proof {
                    lemma_first_role_index_unique(scene.entities@, self.role_id, i as int);
                }
                let to = nav_coord_to_scene_coord(scene, self.nav_x, self.nav_y);
                let pos = scene.entities[i].transform.position;
                proof {
                    assert(scene.entities@[i as int].wf());
                }
                let step = step_len_for(delta_ms);
                let (new_position, completed) = step_towards(&pos, &to, step);
                scene.move_role(i, &to, &new_position);
                if completed {
                    scene.play_role_anim(i, ANIM_STANDING, RoleAnimationRepeatMode::Repeat);
                    proof {
                        assert(scene.entities@ =~= old(scene).entities@.update(i as int,
                            (RoleEntity {
                                transform: Transform {
                                    position: to,
                                    facing_target: to,
                                    ..old(scene).entities@[i as int].transform
                                },
                                anim_id: ANIM_STANDING,
                                anim_repeat: RoleAnimationRepeatMode::Repeat,
                                ..old(scene).entities@[i as int]
                            })));
                    }
                    Ok(true)
                } else {
                    Ok(false)
                }
            },
        }
    }
}

/// Executable mirror of `command_wf`, for callers outside the proofs.
pub fn command_is_wf(cmd: &SceCommand) -> (r: bool)
    ensures
        r == command_wf(*cmd),
{
    match cmd {
        SceCommand::RolePathTo(p) => {
            -COORD_HALF <= p.nav_x && p.nav_x <= COORD_HALF
                && -COORD_HALF <= p.nav_y && p.nav_y <= COORD_HALF
        },
        _ => true,
    }
}

/// Every command of a procedure has valid operands; callers outside the
/// proofs gate on this before loading a procedure.
pub fn procedure_is_wf(commands: &Vec<SceCommand>) -> (r: bool)
    ensures
        r == (forall|i: int| 0 <= i < commands@.len()
            ==> command_wf(#[trigger] commands@[i])),
{
    let n = commands.len();
    let mut i: usize = 0;
    while i < n
        invariant
            i <= n,
            n == commands@.len(),
            forall|j: int| 0 <= j < i ==> command_wf(#[trigger] commands@[j]),
        decreases n - i,
    {
        if !command_is_wf(&commands[i]) {
            return false;
        }
        i = i + 1;
    }
    true
}

/// One-shot start-up of a freshly reached command: path commands start
/// their walking loop, waits arm their timer, everything else does
/// nothing here.
pub fn init_command(cmd: &SceCommand, scene: &mut ScnScene, wait_left: &mut u32)
    -> (r: Result<(), SceFault>)
    requires
        old(scene).wf(),
    ensures
        final(scene).wf(),
        (*final(scene) == ScnScene { entities: final(scene).entities, ..*old(scene) }),
        r is Err ==> !is_simple_instant(*cmd) && *final(scene) == *old(scene)
            && *final(wait_left) == *old(wait_left),
        match *cmd {
            SceCommand::RolePathTo(p) => {
                &&& *final(wait_left) == *old(wait_left)
                &&& (first_role_index(old(scene).entities@, p.role_id) < 0
                    ==> r == Err::<(), SceFault>(SceFault::RoleNotFound { role_id: p.role_id }))
                &&& (first_role_index(old(scene).entities@, p.role_id) >= 0 ==> {
                    let i = first_role_index(old(scene).entities@, p.role_id);
                    &&& r is Ok
                    &&& final(scene).entities@ == old(scene).entities@.update(i, (RoleEntity {
                        anim_id: ANIM_WALKING,
                        anim_repeat: RoleAnimationRepeatMode::Repeat,
                        ..old(scene).entities@[i]
                    }))
                })
            },
            SceCommand::Wait { millis } => r is Ok && *final(wait_left) == millis
                && *final(scene) == *old(scene),
            _ => r is Ok && *final(scene) == *old(scene)
                && *final(wait_left) == *old(wait_left),
        },
{
    match cmd {
        SceCommand::RolePathTo(p) => p.initialize(scene),
        SceCommand::Wait { millis } => {
            *wait_left = *millis;
            Ok(())
        },
        _ => Ok(()),
    }
}

/// One frame of one command, against the live scene, the UI context and
/// the Script State Store.  Reports whether the command completed and,
/// if so, where the cursor goes.
pub fn run_command(cmd: &SceCommand, scene: &mut ScnScene, ui: &UiContext, state: &mut SceState,
    delta_ms: u32, wait_left: &mut u32, pending_scene: &mut Option<u32>)
    -> (r: Result<CommandStatus, SceFault>)
    requires
        old(scene).wf(),
        command_wf(*cmd),
        1 <= delta_ms <= 10_000,
    ensures
        final(scene).wf(),
        (*final(scene) == ScnScene {
            entities: final(scene).entities,
            camera_position: final(scene).camera_position,
            ..*old(scene)
        }),
        r is Err ==> !is_simple_instant(*cmd) && *final(scene) == *old(scene)
            && *final(state) == *old(state) && *final(wait_left) == *old(wait_left)
            && *final(pending_scene) == *old(pending_scene),
        !(*cmd is Let) ==> forall|k: u32|
            final(state).value_of(k) == old(state).value_of(k),
        !is_control(*cmd) ==> (match r {
            Ok(CommandStatus::Completed(e)) => e is Next,
            _ => true,
        }),
        is_simple_instant(*cmd)
            ==> r == Ok::<CommandStatus, SceFault>(
                CommandStatus::Completed(CursorEffect::Next)),
        match *cmd {
            SceCommand::RolePathTo(p) => {
                &&& *final(wait_left) == *old(wait_left)
                &&& *final(pending_scene) == *old(pending_scene)
                &&& final(scene).camera_position == old(scene).camera_position
                &&& (first_role_index(old(scene).entities@, p.role_id) < 0
                    ==> r == Err::<CommandStatus, SceFault>(
                        SceFault::RoleNotFound { role_id: p.role_id }))
                &&& (first_role_index(old(scene).entities@, p.role_id) >= 0 ==> {
                    let i = first_role_index(old(scene).entities@, p.role_id);
                    let pos0 = old(scene).entities@[i].transform.position;
                    let to = p.destination(*old(scene));
                    let s = step_len(delta_ms as int);
                    &&& r is Ok
                    &&& (r == Ok::<CommandStatus, SceFault>(
                            CommandStatus::Completed(CursorEffect::Next))
                        <==> sq_dist(pos0, to) <= s * s)
                    &&& (sq_dist(pos0, to) <= s * s ==> final(scene).entities@
                        == old(scene).entities@.update(i, (RoleEntity {
                            transform: Transform {
                                position: to,
                                facing_target: to,
                                ..old(scene).entities@[i].transform
                            },
                            anim_id: ANIM_STANDING,
                            anim_repeat: RoleAnimationRepeatMode::Repeat,
                            ..old(scene).entities@[i]
                        })))
                    &&& (sq_dist(pos0, to) > s * s ==> {
                        let np = stepped(pos0, to, s);
                        &&& r == Ok::<CommandStatus, SceFault>(CommandStatus::Running)
                        &&& final(scene).entities@ == old(scene).entities@.update(i,
                            (RoleEntity {
                                transform: Transform {
                                    position: np,
                                    facing_target: to,
                                    ..old(scene).entities@[i].transform
                                },
                                ..old(scene).entities@[i]
                            }))
                        &&& sq_dist(np, to) < sq_dist(pos0, to)
                    })
                })
            },
            SceCommand::Let { key, value } => {
                &&& r == Ok::<CommandStatus, SceFault>(
                    CommandStatus::Completed(CursorEffect::Next))
                &&& final(state).value_of(key) == value
                &&& forall|k: u32| k != key
                    ==> final(state).value_of(k) == old(state).value_of(k)
                &&& *final(scene) == *old(scene)
                &&& *final(wait_left) == *old(wait_left)
                &&& *final(pending_scene) == *old(pending_scene)
            },
            SceCommand::Jump { target } => {
                &&& r == Ok::<CommandStatus, SceFault>(
                    CommandStatus::Completed(CursorEffect::Goto(target)))
                &&& *final(scene) == *old(scene)
                &&& *final(wait_left) == *old(wait_left)
                &&& *final(pending_scene) == *old(pending_scene)
            },
            SceCommand::BranchIf { key, target } => {
                &&& r == Ok::<CommandStatus, SceFault>(CommandStatus::Completed(
                    if old(state).value_of(key) != 0 {
                        CursorEffect::Goto(target)
                    } else {
                        CursorEffect::Next
                    }))
                &&& *final(scene) == *old(scene)
                &&& *final(wait_left) == *old(wait_left)
                &&& *final(pending_scene) == *old(pending_scene)
            },
            SceCommand::Call { target } => {
                &&& r == Ok::<CommandStatus, SceFault>(
                    CommandStatus::Completed(CursorEffect::PushCall(target)))
                &&& *final(scene) == *old(scene)
                &&& *final(wait_left) == *old(wait_left)
                &&& *final(pending_scene) == *old(pending_scene)
            },
            SceCommand::Return => {
                &&& r == Ok::<CommandStatus, SceFault>(
                    CommandStatus::Completed(CursorEffect::PopReturn))
                &&& *final(scene) == *old(scene)
                &&& *final(wait_left) == *old(wait_left)
                &&& *final(pending_scene) == *old(pending_scene)
            },
            SceCommand::PlayAnim { role_id, anim_id, repeat } => {
                &&& *final(wait_left) == *old(wait_left)
                &&& *final(pending_scene) == *old(pending_scene)
                &&& (first_role_index(old(scene).entities@, role_id) < 0
                    ==> r == Err::<CommandStatus, SceFault>(
                        SceFault::RoleNotFound { role_id }))
                &&& (first_role_index(old(scene).entities@, role_id) >= 0 ==> {
                    let i = first_role_index(old(scene).entities@, role_id);
                    &&& r == Ok::<CommandStatus, SceFault>(
                        CommandStatus::Completed(CursorEffect::Next))
                    &&& final(scene).entities@ == old(scene).entities@.update(i, (RoleEntity {
                        anim_id,
                        anim_repeat: repeat,
                        ..old(scene).entities@[i]
                    }))
                })
            },
            SceCommand::CameraSet { position } => {
                &&& r == Ok::<CommandStatus, SceFault>(
                    CommandStatus::Completed(CursorEffect::Next))
                &&& final(scene).camera_position == position
                &&& final(scene).entities == old(scene).entities
                &&& *final(wait_left) == *old(wait_left)
                &&& *final(pending_scene) == *old(pending_scene)
            },
            SceCommand::Wait { millis } => {
                &&& *final(scene) == *old(scene)
                &&& *final(pending_scene) == *old(pending_scene)
                &&& (*old(wait_left) <= delta_ms ==> r == Ok::<CommandStatus, SceFault>(
                        CommandStatus::Completed(CursorEffect::Next))
                    && *final(wait_left) == 0)
                &&& (*old(wait_left) > delta_ms ==> r == Ok::<CommandStatus, SceFault>(
                        CommandStatus::Running)
                    && *final(wait_left) == *old(wait_left) - delta_ms)
            },
            SceCommand::Dialogue { .. } => {
                &&& *final(scene) == *old(scene)
                &&& *final(wait_left) == *old(wait_left)
                &&& *final(pending_scene) == *old(pending_scene)
                &&& r == Ok::<CommandStatus, SceFault>(if ui.dialogue_acknowledged {
                    CommandStatus::Completed(CursorEffect::Next)
                } else {
                    CommandStatus::Running
                })
            },
            SceCommand::LoadScene { scene_id } => {
                &&& r == Ok::<CommandStatus, SceFault>(
                    CommandStatus::Completed(CursorEffect::Next))
                &&& *final(pending_scene) == Some(scene_id)
                &&& *final(scene) == *old(scene)
                &&& *final(wait_left) == *old(wait_left)
            },
        },
{
    match cmd {
        SceCommand::RolePathTo(p) => {
            match p.update(scene, ui, state, delta_ms) {
                Ok(true) => Ok(CommandStatus::Completed(CursorEffect::Next)),
                Ok(false) => Ok(CommandStatus::Running),
                Err(f) => Err(f),
            }
        },
        SceCommand::Let { key, value } => {
            state.set(*key, *value);
            Ok(CommandStatus::Completed(CursorEffect::Next))
        },
        SceCommand::Jump { target } => {
            Ok(CommandStatus::Completed(CursorEffect::Goto(*target)))
        },
        SceCommand::BranchIf { key, target } => {
            let v = state.get(*key);
            if v != 0 {
                Ok(CommandStatus::Completed(CursorEffect::Goto(*target)))
            } else {
                Ok(CommandStatus::Completed(CursorEffect::Next))
            }
        },
        SceCommand::Call { target } => {
            Ok(CommandStatus::Completed(CursorEffect::PushCall(*target)))
        },
        SceCommand::Return => {
            Ok(CommandStatus::Completed(CursorEffect::PopReturn))
        },
        SceCommand::PlayAnim { role_id, anim_id, repeat } => {
            proof {
                lemma_first_role_index(scene.entities@, *role_id);
            }
            match scene.get_role_entity(*role_id) {
                None => Err(SceFault::RoleNotFound { role_id: *role_id }),
                Some(i) => {
                    proof {
                        lemma_first_role_index_unique(scene.entities@, *role_id, i as int);
                    }
                    scene.play_role_anim(i, *anim_id, *repeat);
                    Ok(CommandStatus::Completed(CursorEffect::Next))
                },
            }
        },
        SceCommand::CameraSet { position } => {
            scene.camera_position = *position;
            Ok(CommandStatus::Completed(CursorEffect::Next))
        },
        SceCommand::Wait { .. } => {
            if *wait_left <= delta_ms {
                *wait_left = 0;
                Ok(CommandStatus::Completed(CursorEffect::Next))
            } else {
                *wait_left = *wait_left - delta_ms;
                Ok(CommandStatus::Running)
            }
        },
        SceCommand::Dialogue { .. } => {
            if ui.dialogue_acknowledged {
                Ok(CommandStatus::Completed(CursorEffect::Next))
            } else {
                Ok(CommandStatus::Running)
            }
        },
        SceCommand::LoadScene { scene_id } => {
            *pending_scene = Some(*scene_id);
            Ok(CommandStatus::Completed(CursorEffect::Next))
        },
    }
}

/// Owner of the scene currently driven by the director, if any.
pub struct SceneManager {
    pub scene: Option<ScnScene>,
}

impl SceneManager {
    pub fn new() -> (r: SceneManager)
        ensures
            r.scene is None,
    {
        SceneManager { scene: None }
    }

    pub fn load_scene(&mut self, s: ScnScene)
        ensures
            final(self).scene == Some(s),
    {
        self.scene = Some(s);
    }

    pub fn unload_scene(&mut self)
        ensures
            final(self).scene is None,
    {
        self.scene = None;
    }
}

/// The director's view onto any scene manager: demand the loaded scene.
pub trait SceneManagerExtensions {
    spec fn current_scene(&self) -> Option<ScnScene>;

    /// The loaded scene.  Ticking script commands before scene loading
    /// completes is an engine-ordering bug, so callers must establish
    /// that a scene is present before asking.
    fn scene_mut_or_fail(&mut self) -> (r: &mut ScnScene)
        requires
            old(self).current_scene() is Some,
        ensures
            Some(*r) == old(self).current_scene(),
            final(self).current_scene() == Some(*final(r)),
    ;
}

impl SceneManagerExtensions for SceneManager {
    open spec fn current_scene(&self) -> Option<ScnScene> {
        self.scene
    }

    fn scene_mut_or_fail(&mut self) -> (r: &mut ScnScene) {
        match &mut self.scene {
            Some(s) => s,
            None => unreached(),
        }
    }
}

/// A background command with its private execution state: initialized
/// once, then ticked every frame until it reports completion.
#[derive(Clone, Copy, PartialEq, Eq, Structural, Debug)]
pub struct BgCommand {
    pub cmd: SceCommand,
    pub initialized: bool,
    pub wait_left_ms: u32,
}

/// Commands whose target lives in the scene: cancelling the scene
/// removes the background commands that reference it.
pub open spec fn references_scene(c: SceCommand) -> bool {
    c is RolePathTo || c is PlayAnim
}

/// The background set after a scene cancellation: exactly the commands
/// that do not reference the scene, keeping their order.
pub open spec fn bg_after_cancel(s: Seq<BgCommand>) -> Seq<BgCommand>
    decreases s.len(),
{
    if s.len() == 0 {
        Seq::empty()
    } else {
        let rest = bg_after_cancel(s.drop_last());
        if references_scene(s.last().cmd) {
            rest
        } else {
            rest.push(s.last())
        }
    }
}

/// Whether a background slot outlives one frame: a wait longer than the
/// frame or a dialogue not yet acknowledged.  Every other command either
/// completes on its first update or is dropped with its target.
pub open spec fn bg_slot_survives(s: BgCommand, ui: UiContext, delta_ms: int) -> bool {
    match s.cmd {
        SceCommand::Wait { millis } => (if s.initialized {
            s.wait_left_ms as int
        } else {
            millis as int
        }) > delta_ms,
        SceCommand::Dialogue { .. } => !ui.dialogue_acknowledged,
        _ => false,
    }
}

/// A surviving background slot after one frame: initialized, with a
/// wait's timer advanced by the frame.
pub open spec fn bg_slot_after(s: BgCommand, delta_ms: int) -> BgCommand {
    match s.cmd {
        SceCommand::Wait { millis } => BgCommand {
            cmd: s.cmd,
            initialized: true,
            wait_left_ms: (((if s.initialized {
                s.wait_left_ms as int
            } else {
                millis as int
            }) - delta_ms) as u32),
        },
        _ => BgCommand { cmd: s.cmd, initialized: true, wait_left_ms: s.wait_left_ms },
    }
}

/// No slot of the set walks an entity; for such sets the one-frame step
/// of the whole set is a function of the slots, the UI and the frame.
pub open spec fn no_path_slots(s: Seq<BgCommand>) -> bool {
    forall|i: int| 0 <= i < s.len() ==> !((#[trigger] s[i]).cmd is RolePathTo)
}

/// The background set after one frame: each slot updated exactly once,
/// the finished ones gone, the order of the rest kept.
pub open spec fn bg_after_tick(s: Seq<BgCommand>, ui: UiContext, delta_ms: int) -> Seq<BgCommand>
    decreases s.len(),
{
    if s.len() == 0 {
        Seq::empty()
    } else {
        let rest = bg_after_tick(s.drop_last(), ui, delta_ms);
        if bg_slot_survives(s.last(), ui, delta_ms) {
            rest.push(bg_slot_after(s.last(), delta_ms))
        } else {
            rest
        }
    }
}

/// The last value the non-control commands between `lo` and `hi` of the
/// procedure write under `key`, if any of them writes it.
pub open spec fn last_store_write(cmds: Seq<SceCommand>, lo: int, hi: int, key: u32)
    -> Option<i32>
    decreases hi - lo,
{
    if hi <= lo || hi > cmds.len() || lo < 0 {
        None
    } else {
        match cmds[hi - 1] {
            SceCommand::Let { key: k, value } => if k == key {
                Some(value)
            } else {
                last_store_write(cmds, lo, hi - 1, key)
            },
            _ => last_store_write(cmds, lo, hi - 1, key),
        }
    }
}

/// A freshly engaged command that polls without completing this frame:
/// a wait longer than the frame, a dialogue not yet acknowledged, or a
/// walk whose destination is farther away than one step.
pub open spec fn engages_without_completing(cmd: SceCommand, scene: ScnScene, ui: UiContext,
    delta_ms: int) -> bool {
    match cmd {
        SceCommand::Wait { millis } => millis > delta_ms,
        SceCommand::Dialogue { .. } => !ui.dialogue_acknowledged,
        SceCommand::RolePathTo(p) => {
            let i = first_role_index(scene.entities@, p.role_id);
            &&& i >= 0
            &&& sq_dist(scene.entities@[i].transform.position, p.destination(scene))
                > step_len(delta_ms) * step_len(delta_ms)
        },
        _ => false,
    }
}

/// The image of that first engaged frame: the wait timer armed and
/// advanced, or everything untouched while a dialogue waits, or one
/// motion step with the walking loop started.
pub open spec fn engaged_frame_image(cmd: SceCommand, scn0: ScnScene, scene: ScnScene,
    wait0: u32, wait: u32, delta_ms: int) -> bool {
    match cmd {
        SceCommand::Wait { millis } => wait == millis - delta_ms && scene == scn0,
        SceCommand::Dialogue { .. } => wait == wait0 && scene == scn0,
        SceCommand::RolePathTo(p) => {
            let i = first_role_index(scn0.entities@, p.role_id);
            let e = scn0.entities@[i];
            let to = p.destination(scn0);
            let np = stepped(e.transform.position, to, step_len(delta_ms));
            &&& wait == wait0
            &&& scene.entities@ == scn0.entities@.update(i, (RoleEntity {
                transform: Transform {
                    position: np,
                    facing_target: to,
                    ..e.transform
                },
                anim_id: ANIM_WALKING,
                anim_repeat: RoleAnimationRepeatMode::Repeat,
                ..e
            }))
            &&& (scene == ScnScene { entities: scene.entities, ..scn0 })
        },
        _ => false,
    }
}

/// The scheduler: owns the current procedure, the foreground cursor with
/// its call stack, and the set of background commands.
pub struct SceDirector {
    pub procedure: Vec<SceCommand>,
    pub cursor: usize,
    pub stack: Vec<usize>,
    pub initialized: bool,
    pub wait_left_ms: u32,
    pub background: Vec<BgCommand>,
    pub halted: bool,
    pub pending_scene: Option<u32>,
}

impl SceDirector {
    /// Every loaded command has valid operands.
    pub open spec fn wf(self) -> bool {
        &&& forall|i: int| 0 <= i < self.procedure@.len()
            ==> command_wf(#[trigger] self.procedure@[i])
        &&& forall|i: int| 0 <= i < self.background@.len()
            ==> command_wf((#[trigger] self.background@[i]).cmd)
    }

    /// No command of the procedure steers the cursor.
    pub open spec fn no_control_flow(self) -> bool {
        forall|i: int| 0 <= i < self.procedure@.len()
            ==> !is_control(#[trigger] self.procedure@[i])
    }

    /// Every command of the procedure completes instantly.
    pub open spec fn all_simple_instant(self) -> bool {
        forall|i: int| 0 <= i < self.procedure@.len()
            ==> is_simple_instant(#[trigger] self.procedure@[i])
    }

    /// An idle director with nothing loaded.
    pub fn new() -> (r: SceDirector)
        ensures
            r.procedure@.len() == 0,
            r.cursor == 0,
            r.stack@.len() == 0,
            !r.initialized,
            r.background@.len() == 0,
            !r.halted,
            r.pending_scene is None,
            r.wf(),
    {
        SceDirector {
            procedure: Vec::new(),
            cursor: 0,
            stack: Vec::new(),
            initialized: false,
            wait_left_ms: 0,
            background: Vec::new(),
            halted: false,
            pending_scene: None,
        }
    }

    /// Load a procedure and rewind the cursor to its first command.
    pub fn load_procedure(&mut self, commands: Vec<SceCommand>)
        requires
            forall|i: int| 0 <= i < commands@.len() ==> command_wf(#[trigger] commands@[i]),
            old(self).wf(),
        ensures
            final(self).procedure == commands,
            final(self).cursor == 0,
            final(self).stack@.len() == 0,
            !final(self).initialized,
            !final(self).halted,
            final(self).pending_scene is None,
            final(self).background == old(self).background,
            final(self).wf(),
    {
        self.procedure = commands;
        self.cursor = 0;
        self.stack = Vec::new();
        self.initialized = false;
        self.wait_left_ms = 0;
        self.halted = false;
        self.pending_scene = None;
    }

    /// Whether the foreground still has commands to run.
    pub fn is_running(&self) -> (r: bool)
        ensures
            r == (!self.halted && self.cursor < self.procedure@.len()),
    {
        !self.halted && self.cursor < self.procedure.len()
    }

    /// Opt a command into background execution: it ticks every frame
    /// from now on without blocking the cursor.
    pub fn start_background(&mut self, cmd: SceCommand)
        requires
            command_wf(cmd),
            old(self).wf(),
        ensures
            final(self).background@ == old(self).background@.push(BgCommand {
                cmd,
                initialized: false,
                wait_left_ms: 0,
            }),
            (*final(self) == SceDirector { background: final(self).background, ..*old(self) }),
            final(self).wf(),
    {
        self.background.push(BgCommand { cmd, initialized: false, wait_left_ms: 0 });
    }

    /// The scene is going away: drop every background command that
    /// references it, without running any of their hooks, and halt
    /// foreground execution from the next tick on.  The foreground
    /// cursor and call stack keep their positions.
    pub fn cancel_scene(&mut self)
        requires
            old(self).wf(),
        ensures
            final(self).background@ == bg_after_cancel(old(self).background@),
            final(self).halted,
            (*final(self) == SceDirector {
                background: final(self).background,
                halted: true,
                ..*old(self)
            }),
            final(self).wf(),
    {
        let n = self.background.len();
        let mut kept: Vec<BgCommand> = Vec::new();
        let mut j: usize = 0;
        while j < n
            invariant
                j <= n,
                n == self.background@.len(),
                old(self).wf(),
                *self == *old(self),
                kept@ =~= bg_after_cancel(self.background@.take(j as int)),
                forall|k: int| 0 <= k < kept@.len()
                    ==> command_wf((#[trigger] kept@[k]).cmd),
            decreases n - j,
        {
            let slot = self.background[j];
            proof {
                assert(self.background@.take(j as int + 1).drop_last()
                    =~= self.background@.take(j as int));
                assert(self.background@.take(j as int + 1).last()
                    == self.background@[j as int]);
            }
            match slot.cmd {
                SceCommand::RolePathTo(..) | SceCommand::PlayAnim { .. } => {},
                _ => {
                    kept.push(slot);
                },
            }
            j = j + 1;
        }
        proof {
            assert(self.background@.take(n as int) =~= self.background@);
        }
        self.background = kept;
        self.halted = true;
    }

    /// One frame of the background set: initialize or update each
    /// command once, dropping the ones that completed or whose target
    /// vanished.  The foreground cursor, call stack and procedure are
    /// untouched.
    fn tick_background(&mut self, scene: &mut ScnScene, ui: &UiContext, state: &mut SceState,
        delta_ms: u32)
        requires
            old(self).wf(),
            old(scene).wf(),
            1 <= delta_ms <= 10_000,
        ensures
            final(self).wf(),
            final(scene).wf(),
            (*final(scene) == ScnScene {
                entities: final(scene).entities,
                camera_position: final(scene).camera_position,
                ..*old(scene)
            }),
            (*final(self) == SceDirector {
                background: final(self).background,
                pending_scene: final(self).pending_scene,
                ..*old(self)
            }),
            old(self).background@.len() == 0 ==> final(self).background@.len() == 0
                && *final(scene) == *old(scene) && *final(state) == *old(state)
                && final(self).pending_scene == old(self).pending_scene,
            no_path_slots(old(self).background@) ==> final(self).background@
                == bg_after_tick(old(self).background@, *ui, delta_ms as int),
    {
        let n = self.background.len();
        let mut kept: Vec<BgCommand> = Vec::new();
        let mut j: usize = 0;
        while j < n
            invariant
                j <= n,
                n == self.background@.len(),
                self.wf(),
                scene.wf(),
                1 <= delta_ms <= 10_000,
                (*self == SceDirector { pending_scene: self.pending_scene, ..*old(self) }),
                (*scene == ScnScene {
                    entities: scene.entities,
                    camera_position: scene.camera_position,
                    ..*old(scene)
                }),
                forall|k: int| 0 <= k < kept@.len()
                    ==> command_wf((#[trigger] kept@[k]).cmd),
                no_path_slots(old(self).background@) ==> kept@
                    == bg_after_tick(old(self).background@.take(j as int), *ui, delta_ms as int),
                old(self).background@.len() == 0 ==> kept@.len() == 0
                    && *scene == *old(scene) && *state == *old(state)
                    && self.pending_scene == old(self).pending_scene,
            decreases n - j,
        {
            let mut slot = self.background[j];
            proof {
                assert(command_wf(self.background@[j as int].cmd));
                assert(old(self).background@.take(j as int + 1).drop_last()
                    =~= old(self).background@.take(j as int));
                assert(old(self).background@.take(j as int + 1).last()
                    == old(self).background@[j as int]);
                if no_path_slots(old(self).background@) {
                    assert(!(old(self).background@[j as int].cmd is RolePathTo));
                }
            }
            let mut keep = true;
            if !slot.initialized {
                match init_command(&slot.cmd, scene, &mut slot.wait_left_ms) {
                    Ok(()) => {
                        slot.initialized = true;
                    },
                    Err(_) => {
                        keep = false;
                    },
                }
            }
            if keep {
                match run_command(&slot.cmd, scene, ui, state, delta_ms, &mut slot.wait_left_ms,
                    &mut self.pending_scene) {
                    Ok(CommandStatus::Running) => {
                        kept.push(slot);
                    },
                    Ok(CommandStatus::Completed(_)) => {},
                    Err(_) => {},
                }
            }
            j = j + 1;
        }
        proof {
            assert(old(self).background@.take(n as int) =~= old(self).background@);
        }
        self.background = kept;
    }

    /// One frame of the whole director: initialize and update the
    /// foreground command, advancing through chains of instantly
    /// completing commands within this same tick under the loop guard,
    /// then tick every background command once.  Reports true when the
    /// procedure is exhausted (or execution was halted), false while a
    /// foreground command is still running.
    #[verifier::loop_isolation(false)]
    pub fn tick(&mut self, mgr: &mut SceneManager, ui: &UiContext, state: &mut SceState,
        delta_ms: u32) -> (r: Result<bool, SceFault>)
        requires
            old(self).wf(),
            1 <= delta_ms <= 10_000,
            match old(mgr).scene {
                Some(s) => s.wf(),
                None => true,
            },
        ensures
            final(self).wf(),
            final(self).procedure == old(self).procedure,
            final(self).halted == old(self).halted,
            (final(mgr).scene is Some) == (old(mgr).scene is Some),
            match final(mgr).scene {
                Some(s) => s.wf(),
                None => true,
            },
            old(self).halted ==> r == Ok::<bool, SceFault>(true)
                && *final(self) == *old(self) && *final(mgr) == *old(mgr)
                && *final(state) == *old(state),
            old(self).no_control_flow() ==> final(self).cursor >= old(self).cursor,
            !old(self).halted && old(mgr).scene is Some && old(self).no_control_flow()
                ==> final(self).cursor as int
                    <= old(self).cursor + MAX_INSTANT_CHAIN,
            !old(self).halted && old(mgr).scene is Some && old(self).all_simple_instant()
                && old(self).cursor <= old(self).procedure@.len()
                && old(self).procedure@.len() - old(self).cursor <= MAX_INSTANT_CHAIN
                ==> r == Ok::<bool, SceFault>(true)
                    && final(self).cursor == old(self).procedure@.len(),
            !old(self).halted && old(mgr).scene is Some && old(self).all_simple_instant()
                && old(self).cursor <= old(self).procedure@.len()
                && old(self).procedure@.len() - old(self).cursor > MAX_INSTANT_CHAIN
                ==> (match r {
                    Err(f) => f is ScriptFault,
                    _ => false,
                }),
            !old(self).halted && old(self).cursor < old(self).procedure@.len()
                && old(mgr).scene is None
                ==> r == Err::<bool, SceFault>(SceFault::NoSceneLoaded)
                    && *final(self) == *old(self) && *final(mgr) == *old(mgr),
            r == Ok::<bool, SceFault>(true)
                ==> final(self).halted || final(self).cursor >= final(self).procedure@.len(),
            r == Ok::<bool, SceFault>(false)
                ==> final(self).cursor < final(self).procedure@.len(),
            !old(self).halted && old(mgr).scene is Some && old(self).no_control_flow()
                && old(self).background@.len() == 0
                && old(self).cursor <= old(self).procedure@.len()
                ==> old(self).cursor <= final(self).cursor
                    && final(self).cursor <= old(self).procedure@.len()
                    && (forall|k: u32| final(state).value_of(k) == (match last_store_write(
                        old(self).procedure@, old(self).cursor as int,
                        final(self).cursor as int, k) {
                        Some(v) => v,
                        None => old(state).value_of(k),
                    })),
            match old(mgr).scene {
                Some(scn0) => (!old(self).halted
                    && old(self).cursor < old(self).procedure@.len()
                    && !old(self).initialized && old(self).background@.len() == 0
                    && engages_without_completing(
                        old(self).procedure@[old(self).cursor as int], scn0, *ui,
                        delta_ms as int))
                    ==> r == Ok::<bool, SceFault>(false)
                        && final(self).cursor == old(self).cursor
                        && final(self).initialized
                        && final(self).stack == old(self).stack
                        && final(self).pending_scene == old(self).pending_scene
                        && (forall|k: u32| final(state).value_of(k) == old(state).value_of(k))
                        && (match final(mgr).scene {
                            Some(s2) => engaged_frame_image(
                                old(self).procedure@[old(self).cursor as int], scn0, s2,
                                old(self).wait_left_ms, final(self).wait_left_ms,
                                delta_ms as int),
                            None => false,
                        }),
                None => true,
            },
    {
        if self.halted {
            return Ok(true);
        }
        if mgr.scene.is_none() {
            if self.cursor < self.procedure.len() {
                return Err(SceFault::NoSceneLoaded);
            }
            return Ok(true);
        }
        let ghost dir0 = *self;
        let scene = mgr.scene_mut_or_fail();
        let mut instants: u32 = 0;
        let mut finished: bool = false;
        let mut blocked: bool = false;
        while !finished && !blocked
            invariant
                dir0 == *old(self),
                !dir0.halted,
                self.procedure == dir0.procedure,
                self.background == dir0.background,
                self.halted == dir0.halted,
                self.wf(),
                dir0.wf(),
                scene.wf(),
                1 <= delta_ms <= 10_000,
                instants <= MAX_INSTANT_CHAIN,
                self.cursor <= self.procedure@.len() || self.cursor == dir0.cursor,
                finished ==> self.cursor >= self.procedure@.len(),
                blocked ==> self.cursor < self.procedure@.len(),
                dir0.no_control_flow() ==> self.cursor >= dir0.cursor
                    && self.cursor as int == dir0.cursor + instants,
                dir0.all_simple_instant() ==> !blocked,
                dir0.no_control_flow() && dir0.background@.len() == 0
                    && dir0.cursor <= dir0.procedure@.len()
                    ==> dir0.cursor <= self.cursor && self.cursor <= self.procedure@.len()
                        && (forall|k: u32| state.value_of(k) == (match last_store_write(
                            dir0.procedure@, dir0.cursor as int, self.cursor as int, k) {
                            Some(v) => v,
                            None => old(state).value_of(k),
                        })),
                match old(mgr).scene {
                    Some(scn0) => (!dir0.halted && dir0.cursor < dir0.procedure@.len()
                        && !dir0.initialized && dir0.background@.len() == 0
                        && engages_without_completing(dir0.procedure@[dir0.cursor as int],
                            scn0, *ui, delta_ms as int))
                        ==> ({
                            ||| (!blocked && !finished && instants == 0
                                && self.cursor == dir0.cursor && !self.initialized
                                && self.wait_left_ms == dir0.wait_left_ms
                                && self.stack == dir0.stack
                                && self.pending_scene == dir0.pending_scene
                                && *scene == scn0
                                && (forall|k: u32| state.value_of(k)
                                    == old(state).value_of(k)))
                            ||| (blocked && !finished && self.cursor == dir0.cursor
                                && self.initialized && self.stack == dir0.stack
                                && self.pending_scene == dir0.pending_scene
                                && (forall|k: u32| state.value_of(k)
                                    == old(state).value_of(k))
                                && engaged_frame_image(dir0.procedure@[dir0.cursor as int],
                                    scn0, *scene, dir0.wait_left_ms, self.wait_left_ms,
                                    delta_ms as int))
                        }),
                    None => true,
                },
            decreases (MAX_INSTANT_CHAIN as int + 1 - instants as int) * 2
                + (if finished || blocked { 0int } else { 1int }),
        {
            if self.cursor >= self.procedure.len() {
                finished = true;
            } else if instants >= MAX_INSTANT_CHAIN {
                proof {
                    if dir0.all_simple_instant() {
                        assert(self.procedure@.len() - dir0.cursor > MAX_INSTANT_CHAIN);
                    }
                }
                return Err(SceFault::ScriptFault { command_index: self.cursor });
            } else {
                let at = self.cursor;
                let cmd = self.procedure[at];
                proof {
                    assert(command_wf(dir0.procedure@[at as int]));
                    if dir0.all_simple_instant() {
                        assert(is_simple_instant(dir0.procedure@[at as int]));
                    }
                    if dir0.no_control_flow() {
                        assert(!is_control(dir0.procedure@[at as int]));
                    }
                }
                let ghost scene_pre = *scene;
                if !self.initialized {
                    match init_command(&cmd, scene, &mut self.wait_left_ms) {
                        Ok(()) => {
                            self.initialized = true;
                        },
                        Err(f) => {
                            return Err(f);
                        },
                    }
                }
                let ghost scene_mid = *scene;
                proof {
                    match old(mgr).scene {
                        Some(scn0) => {
                            if !dir0.halted && dir0.cursor < dir0.procedure@.len()
                                && !dir0.initialized && dir0.background@.len() == 0
                                && engages_without_completing(
                                    dir0.procedure@[dir0.cursor as int], scn0, *ui,
                                    delta_ms as int)
                                && instants == 0 && self.cursor == dir0.cursor
                                && scene_pre == scn0 {
                                match cmd {
                                    SceCommand::RolePathTo(p) => {
                                        let i = first_role_index(scn0.entities@, p.role_id);
                                        lemma_first_role_index(scn0.entities@, p.role_id);
                                        assert(scene_mid.entities@[i].name_id == p.role_id);
                                        assert forall|j: int| 0 <= j < i implies
                                            (#[trigger] scene_mid.entities@[j]).name_id
                                                != p.role_id by {
                                            assert(scene_mid.entities@[j]
                                                == scn0.entities@[j]);
                                        }
                                        lemma_first_role_index_unique(scene_mid.entities@,
                                            p.role_id, i);
                                        assert(scene_mid.nav_file == scn0.nav_file);
                                        assert(scene_mid.entities@[i].transform.position
                                            == scn0.entities@[i].transform.position);
                                    },
                                    _ => {},
                                }
                            }
                        },
                        None => {},
                    }
                }
                let status = match run_command(&cmd, scene, ui, state, delta_ms,
                    &mut self.wait_left_ms, &mut self.pending_scene) {
                    Ok(st) => st,
                    Err(f) => {
                        return Err(f);
                    },
                };
                match status {
                    CommandStatus::Running => {
                        blocked = true;
                        proof {
                            match old(mgr).scene {
                                Some(scn0) => {
                                    if !dir0.halted && dir0.cursor < dir0.procedure@.len()
                                        && !dir0.initialized
                                        && dir0.background@.len() == 0
                                        && engages_without_completing(
                                            dir0.procedure@[dir0.cursor as int], scn0, *ui,
                                            delta_ms as int)
                                        && instants == 0 && self.cursor == dir0.cursor
                                        && scene_pre == scn0 {
                                        match cmd {
                                            SceCommand::RolePathTo(p) => {
                                                let i = first_role_index(scn0.entities@,
                                                    p.role_id);
                                                let e = scn0.entities@[i];
                                                let to = p.destination(scn0);
                                                let np = stepped(e.transform.position, to,
                                                    step_len(delta_ms as int));
                                                assert(scene.entities@
                                                    =~= scn0.entities@.update(i,
                                                    (RoleEntity {
                                                        transform: Transform {
                                                            position: np,
                                                            facing_target: to,
                                                            ..e.transform
                                                        },
                                                        anim_id: ANIM_WALKING,
                                                        anim_repeat:
                                                            RoleAnimationRepeatMode::Repeat,
                                                        ..e
                                                    })));
                                            },
                                            _ => {},
                                        }
                                    }
                                },
                                None => {},
                            }
                        }
                    },
                    CommandStatus::Completed(effect) => {
                        self.initialized = false;
                        instants = instants + 1;
                        match effect {
                            CursorEffect::Next => {
                                self.cursor = at + 1;
                                proof {
                                    if dir0.no_control_flow() && dir0.background@.len() == 0
                                        && dir0.cursor <= dir0.procedure@.len() {
                                        assert forall|k: u32| state.value_of(k)
                                            == (match last_store_write(dir0.procedure@,
                                                dir0.cursor as int, self.cursor as int, k) {
                                                Some(v) => v,
                                                None => old(state).value_of(k),
                                            }) by {
                                            assert(self.cursor as int == at as int + 1);
                                            assert(dir0.procedure@[at as int] == cmd);
                                        }
                                    }
                                }
                            },
                            CursorEffect::Goto(t) => {
                                if t <= self.procedure.len() {
                                    self.cursor = t;
                                } else {
                                    return Err(SceFault::CursorOutOfBounds {
                                        command_index: at,
                                        target: t,
                                    });
                                }
                            },
                            CursorEffect::PushCall(t) => {
                                if t <= self.procedure.len() {
                                    self.stack.push(at + 1);
                                    self.cursor = t;
                                } else {
                                    return Err(SceFault::CursorOutOfBounds {
                                        command_index: at,
                                        target: t,
                                    });
                                }
                            },
                            CursorEffect::PopReturn => {
                                match self.stack.pop() {
                                    Some(ra) => {
                                        if ra <= self.procedure.len() {
                                            self.cursor = ra;
                                        } else {
                                            return Err(SceFault::CursorOutOfBounds {
                                                command_index: at,
                                                target: ra,
                                            });
                                        }
                                    },
                                    None => {
                                        return Err(SceFault::ReturnWithoutCall {
                                            command_index: at,
                                        });
                                    },
                                }
                            },
                        }
                    },
                }
            }
        }
        self.tick_background(scene, ui, state, delta_ms);
        Ok(finished)
    }
}

} // verus!

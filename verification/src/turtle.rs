//! The robot command vocabulary, the per-robot session state, and the
//! update step that turns one incoming robot report into world
//! observations and a reply.
use vstd::prelude::*;

use crate::blocks::{Block, Direction, Position, Vec3};
use crate::names::Name;

verus! {

/// Time (s) between robot polls when idle.
pub const IDLE_TIME: u32 = 3;

/// Times to attempt a route before giving up.
pub const RETRIES: usize = 42;

/// One primitive robot command, sent as the reply to a robot update.
#[derive(Clone, PartialEq, Eq, Structural, Debug)]
pub enum TurtleCommand {
    Wait(u32),
    Forward(u32),
    Backward(u32),
    Up(u32),
    Down(u32),
    Left,
    Right,
    Dig,
    DigUp,
    DigDown,
    PlaceUp,
    Place,
    PlaceDown,
    /// Count
    DropFront(u32),
    DropUp(u32),
    DropDown(u32),
    SuckFront(u32),
    SuckUp(u32),
    SuckDown(u32),
    Select(u32),
    /// Slot in inventory
    ItemInfo(u32),
    Update,
    Poweroff,
    Refuel,
    CycleFront,
    /// Name of the computer in front of the one commanded
    NameFront,
    /// Name of the current computer
    Name,
}

/// One inventory slot: an item name and how many of it are stacked.
#[derive(Clone, PartialEq, Eq, Debug)]
pub struct InventorySlot {
    pub name: String,
    pub count: u32,
}

/// A robot-reported name, carried as a bare string.
#[derive(Clone, PartialEq, Eq, Debug)]
pub struct TurtleString {
    pub string: String,
}

/// What a robot reports as the outcome of its previous command.
#[derive(Clone, PartialEq, Eq, Debug)]
pub enum TurtleCommandResponse {
    Nothing,
    Success,
    Failure,
    Item(InventorySlot),
    Inventory(Vec<InventorySlot>),
    Name(TurtleString),
}

/// Multiply a unit component by a non-negative count without overflow.
fn scale_unit(u: i32, n: i32) -> (r: i32)
    requires
        -1 <= u <= 1,
        0 <= n,
    ensures
        r == u * n,
{
    if u == 0 {
        proof {
            assert(0 * n == 0) by (nonlinear_arith);
        }
        0
    } else if u == 1 {
        proof {
            assert(1 * n == n) by (nonlinear_arith);
        }
        n
    } else {
        proof {
            assert((-1) * n == -n) by (nonlinear_arith);
        }
        -n
    }
}

impl TurtleCommand {
    /// The unit movement vector this command queues for a robot facing
    /// `direction`; zero for anything that does not move the robot.
    pub open spec fn spec_unit(self, direction: Direction) -> Vec3 {
        match self {
            TurtleCommand::Forward(_) => direction.spec_unit(),
            TurtleCommand::Backward(_) => direction.spec_left().spec_left().spec_unit(),
            TurtleCommand::Up(_) => Vec3 { x: 0, y: 1, z: 0 },
            TurtleCommand::Down(_) => Vec3 { x: 0, y: -1i32, z: 0 },
            _ => Vec3 { x: 0, y: 0, z: 0 },
        }
    }

    /// Unit movement vector of the command for a robot facing `direction`.
    pub fn unit(&self, direction: Direction) -> (r: Vec3)
        ensures
            r == self.spec_unit(direction),
    {
        match self {
            TurtleCommand::Forward(_) => direction.unit(),
            TurtleCommand::Backward(_) => direction.left().left().unit(),
            TurtleCommand::Up(_) => Vec3 { x: 0, y: 1, z: 0 },
            TurtleCommand::Down(_) => Vec3 { x: 0, y: -1, z: 0 },
            _ => Vec3 { x: 0, y: 0, z: 0 },
        }
    }

    /// The total displacement of the command: its unit vector times its
    /// repeat count.
    pub open spec fn spec_delta(self, direction: Direction) -> Vec3 {
        let u = self.spec_unit(direction);
        let n: int = match self {
            TurtleCommand::Forward(count) => count as int,
            TurtleCommand::Backward(count) => count as int,
            TurtleCommand::Up(count) => count as int,
            TurtleCommand::Down(count) => count as int,
            _ => 0,
        };
        Vec3 { x: (u.x * n) as i32, y: (u.y * n) as i32, z: (u.z * n) as i32 }
    }

    /// Displacement of the command, where it fits the coordinate type.
    pub fn delta(&self, direction: Direction) -> (r: Vec3)
        requires
            match self {
                TurtleCommand::Forward(count) => count <= i32::MAX,
                TurtleCommand::Backward(count) => count <= i32::MAX,
                TurtleCommand::Up(count) => count <= i32::MAX,
                TurtleCommand::Down(count) => count <= i32::MAX,
                _ => true,
            },
        ensures
            r == self.spec_delta(direction),
    {
        let u = self.unit(direction);
        let n: i32 = match self {
            TurtleCommand::Forward(count) => *count as i32,
            TurtleCommand::Backward(count) => *count as i32,
            TurtleCommand::Up(count) => *count as i32,
            TurtleCommand::Down(count) => *count as i32,
            _ => 0,
        };
        Vec3 { x: scale_unit(u.x, n), y: scale_unit(u.y, n), z: scale_unit(u.z, n) }
    }
}

/// One report from a robot: its fuel, the three blocks it sees, and the
/// outcome of its previous command.
pub struct TurtleUpdate {
    pub fuel: usize,
    /// Block name ahead of the robot.
    pub ahead: String,
    pub above: String,
    pub below: String,
    pub ret: TurtleCommandResponse,
}

/// What the session hands the caller that awaits a reply: the robot's
/// pose and fuel after the update, and what it reported.
pub struct TurtleInfo {
    pub name: Name,
    pub pos: Position,
    pub fuel: usize,
    /// Block name ahead of the robot.
    pub ahead: String,
    pub above: String,
    pub below: String,
    pub ret: TurtleCommandResponse,
}

/// The host-side state of one robot.
pub struct Turtle {
    pub name: Name,
    pub fuel: usize,
    pub fuel_limit: usize,
    /// Movement vector of the last movement command handed out.
    pub queued_movement: Vec3,
    pub position: Position,
    /// Whether the robot should re-pull its code on its next poll.
    pub pending_update: bool,
}

/// An integer clamped into the coordinate type.
pub open spec fn clamp_i32(v: int) -> int {
    if v < i32::MIN {
        i32::MIN as int
    } else if v > i32::MAX {
        i32::MAX as int
    } else {
        v
    }
}

/// One coordinate after attributing a fuel drop to the queued unit
/// movement.
pub open spec fn spec_moved(pos: i32, unit: i32, diff: int) -> int {
    clamp_i32(pos + unit * diff)
}

/// Advance one coordinate by the queued unit times the fuel drop,
/// saturating at the coordinate type's bounds.
fn move_coord(pos: i32, unit: i32, diff: usize) -> (r: i32)
    requires
        -1 <= unit <= 1,
    ensures
        r == spec_moved(pos, unit, diff as int),
{
    if unit == 0 {
        proof {
            assert(0 * diff == 0) by (nonlinear_arith);
        }
        return pos;
    }
    let d64: u64 = diff as u64;
    let capped: i64 = if d64 > 0x1_0000_0000u64 {
        0x1_0000_0000i64
    } else {
        d64 as i64
    };
    let moved: i64 = if unit == 1 {
        proof {
            assert(1 * diff == diff && 1 * capped == capped) by (nonlinear_arith);
        }
        pos as i64 + capped
    } else {
        proof {
            assert((-1) * diff == -diff && (-1) * capped == -capped) by (nonlinear_arith);
        }
        pos as i64 - capped
    };
    if moved < i32::MIN as i64 {
        i32::MIN
    } else if moved > i32::MAX as i64 {
        i32::MAX
    } else {
        moved as i32
    }
}

/// What one robot report leads to: an immediate code-reload reply, or
/// three world observations and the info for the awaiting caller.
pub enum UpdateOutcome {
    /// The robot was asked to re-pull its code; nothing else happens.
    Reload,
    /// The observations to record and the reply for the caller.
    Observed(Vec<Block>, TurtleInfo),
}

impl Turtle {
    /// The queued movement is a unit vector or zero.
    pub open spec fn wf(self) -> bool {
        &&& -1 <= self.queued_movement.x <= 1
        &&& -1 <= self.queued_movement.y <= 1
        &&& -1 <= self.queued_movement.z <= 1
    }

    /// A freshly registered robot, about to re-pull its code.
    pub fn new(id: u32, position: Position, fuel: usize, fuel_limit: usize) -> (r: Self)
        ensures
            r.wf(),
            r.name.raw == crate::names::scrambled_of(
                id,
                crate::names::spec_feistel_key(),
                crate::names::FEISTEL_ROUNDS,
            ),
            r.fuel == fuel,
            r.fuel_limit == fuel_limit,
            r.queued_movement == (Vec3 { x: 0, y: 0, z: 0 }),
            r.position == position,
            r.pending_update,
    {
        Self {
            name: Name::from_num(id),
            fuel,
            fuel_limit,
            queued_movement: Vec3 { x: 0, y: 0, z: 0 },
            position,
            pending_update: true,
        }
    }

    /// The persisted face of the robot: the same identifier, pose and
    /// fuel.
    pub fn info(&self) -> (r: Self)
        ensures
            r.name == self.name,
            r.fuel == self.fuel,
            r.fuel_limit == self.fuel_limit,
            r.queued_movement == self.queued_movement,
            r.position == self.position,
            r.pending_update == self.pending_update,
    {
        Self {
            name: self.name,
            fuel: self.fuel,
            fuel_limit: self.fuel_limit,
            queued_movement: self.queued_movement,
            position: self.position,
            pending_update: self.pending_update,
        }
    }

    /// Take one robot report: ask for a code reload if one is pending;
    /// otherwise attribute any fuel drop to the queued movement, then
    /// observe the three adjacent cells around the updated pose and
    /// build the caller's reply.
    pub fn apply_update(&mut self, update: TurtleUpdate) -> (r: UpdateOutcome)
        requires
            old(self).wf(),
        ensures
            final(self).wf(),
            final(self).name == old(self).name,
            final(self).fuel_limit == old(self).fuel_limit,
            match r {
                UpdateOutcome::Reload => {
                    &&& old(self).pending_update
                    &&& !final(self).pending_update
                    &&& final(self).fuel == old(self).fuel
                    &&& final(self).position == old(self).position
                    &&& final(self).queued_movement == old(self).queued_movement
                },
                UpdateOutcome::Observed(obs, info) => {
                    &&& !old(self).pending_update
                    &&& !final(self).pending_update
                    &&& final(self).fuel == update.fuel
                    &&& final(self).position.dir == old(self).position.dir
                    &&& if old(self).fuel > update.fuel {
                        let diff = old(self).fuel - update.fuel;
                        &&& final(self).position.pos.x == spec_moved(
                            old(self).position.pos.x,
                            old(self).queued_movement.x,
                            diff,
                        )
                        &&& final(self).position.pos.y == spec_moved(
                            old(self).position.pos.y,
                            old(self).queued_movement.y,
                            diff,
                        )
                        &&& final(self).position.pos.z == spec_moved(
                            old(self).position.pos.z,
                            old(self).queued_movement.z,
                            diff,
                        )
                        &&& final(self).queued_movement == (Vec3 { x: 0, y: 0, z: 0 })
                    } else {
                        &&& final(self).position == old(self).position
                        &&& final(self).queued_movement == old(self).queued_movement
                    }
                    &&& obs@.len() == 3
                    &&& obs@[0].name@ == update.above@
                    &&& obs@[0].pos.x == final(self).position.pos.x
                    &&& obs@[0].pos.y == clamp_i32(final(self).position.pos.y + 1)
                    &&& obs@[0].pos.z == final(self).position.pos.z
                    &&& obs@[1].name@ == update.ahead@
                    &&& obs@[1].pos.x == clamp_i32(
                        final(self).position.pos.x + final(self).position.dir.spec_unit().x,
                    )
                    &&& obs@[1].pos.y == final(self).position.pos.y
                    &&& obs@[1].pos.z == clamp_i32(
                        final(self).position.pos.z + final(self).position.dir.spec_unit().z,
                    )
                    &&& obs@[2].name@ == update.below@
                    &&& obs@[2].pos.x == final(self).position.pos.x
                    &&& obs@[2].pos.y == clamp_i32(final(self).position.pos.y - 1)
                    &&& obs@[2].pos.z == final(self).position.pos.z
                    &&& info.name == old(self).name
                    &&& info.pos == final(self).position
                    &&& info.fuel == update.fuel
                    &&& info.ahead@ == update.ahead@
                    &&& info.above@ == update.above@
                    &&& info.below@ == update.below@
                    &&& info.ret == update.ret
                },
            },
    {
        if self.pending_update {
            self.pending_update = false;
            return UpdateOutcome::Reload;
        }
        if self.fuel > update.fuel {
            let diff: usize = self.fuel - update.fuel;
            let qm = self.queued_movement;
            self.position.pos = Vec3 {
                x: move_coord(self.position.pos.x, qm.x, diff),
                y: move_coord(self.position.pos.y, qm.y, diff),
                z: move_coord(self.position.pos.z, qm.z, diff),
            };
            self.queued_movement = Vec3 { x: 0, y: 0, z: 0 };
        }
        self.fuel = update.fuel;
        let p = self.position.pos;
        let unit = self.position.dir.unit();
        let mut obs: Vec<Block> = Vec::new();
        obs.push(
            Block { name: update.above.clone(), pos: Vec3 { x: p.x, y: sat_add(p.y, 1), z: p.z } },
        );
        obs.push(
            Block {
                name: update.ahead.clone(),
                pos: Vec3 { x: sat_add(p.x, unit.x), y: p.y, z: sat_add(p.z, unit.z) },
            },
        );
        obs.push(
            Block { name: update.below.clone(), pos: Vec3 { x: p.x, y: sat_add(p.y, -1), z: p.z } },
        );
        let info = TurtleInfo {
            name: self.name,
            pos: self.position,
            fuel: update.fuel,
            ahead: update.ahead,
            above: update.above,
            below: update.below,
            ret: update.ret,
        };
        UpdateOutcome::Observed(obs, info)
    }

    /// Take the command a caller queued: rotations turn the stored
    /// facing at once, and movement commands queue their unit vector so
    /// the next fuel drop can be attributed.
    pub fn accept_command(&mut self, cmd: &TurtleCommand)
        requires
            old(self).wf(),
        ensures
            final(self).wf(),
            final(self).name == old(self).name,
            final(self).fuel == old(self).fuel,
            final(self).fuel_limit == old(self).fuel_limit,
            final(self).pending_update == old(self).pending_update,
            final(self).position.pos == old(self).position.pos,
            final(self).position.dir == match cmd {
                TurtleCommand::Left => old(self).position.dir.spec_left(),
                TurtleCommand::Right => old(self).position.dir.spec_right(),
                _ => old(self).position.dir,
            },
            final(self).queued_movement == cmd.spec_unit(final(self).position.dir),
    {
        match cmd {
            TurtleCommand::Left => {
                self.position.dir = self.position.dir.left();
            },
            TurtleCommand::Right => {
                self.position.dir = self.position.dir.right();
            },
            _ => {},
        }
        self.queued_movement = cmd.unit(self.position.dir);
        proof {
            let u = self.queued_movement;
            assert(-1 <= u.x <= 1 && -1 <= u.y <= 1 && -1 <= u.z <= 1);
        }
    }
}

/// The reply a session gives when no caller queued a command in time.
pub fn idle_reply() -> (r: TurtleCommand)
    ensures
        r == TurtleCommand::Wait(IDLE_TIME),
{
    TurtleCommand::Wait(IDLE_TIME)
}

/// Saturating add of a small offset to a coordinate.
fn sat_add(a: i32, b: i32) -> (r: i32)
    ensures
        r == clamp_i32(a + b),
{
    let v: i64 = a as i64 + b as i64;
    if v < i32::MIN as i64 {
        i32::MIN
    } else if v > i32::MAX as i64 {
        i32::MAX
    } else {
        v as i32
    }
}

/// What the route walker should do before taking its next step.
#[derive(Clone, PartialEq, Eq, Structural, Debug)]
pub enum StepCheck {
    /// The next cell is passable: issue the movement command.
    Proceed,
    /// A garbage block sits in the way: dig it with this command, then
    /// move.
    DigFirst(TurtleCommand),
    /// A block the robot may not break sits in the way: plan a new
    /// route.
    Replan,
}

/// Check the next pose of a route against the world as it is now known:
/// valid routes tell the robot to break ground explicitly, so a newly
/// observed block on the way is dug when garbage and causes a replan
/// when hard.
pub fn goto_step(world: &crate::world::World, recent: Position, next: Position) -> (r: StepCheck)
    requires
        world.wf(),
    ensures
        r == spec_goto_step(world@, recent, next),
{
    if world.occupied(next.pos) {
        if world.garbage(next.pos) {
            match recent.dig(next.pos) {
                Some(c) => StepCheck::DigFirst(c),
                None => StepCheck::Replan,
            }
        } else {
            StepCheck::Replan
        }
    } else {
        StepCheck::Proceed
    }
}

/// The step decision: dig a known garbage block in the way, replan on a
/// hard or unreachable one, and otherwise move.
pub open spec fn spec_goto_step(
    w: Map<Vec3, Seq<char>>,
    recent: Position,
    next: Position,
) -> StepCheck {
    if w.contains_key(next.pos) && !crate::paths::spec_transparent(w[next.pos]) {
        if crate::paths::spec_difficulty(w[next.pos]) is Some {
            match crate::blocks::spec_dig(recent, next.pos) {
                Some(c) => StepCheck::DigFirst(c),
                None => StepCheck::Replan,
            }
        } else {
            StepCheck::Replan
        }
    } else {
        StepCheck::Proceed
    }
}

/// The movement commands that walk a route, one per consecutive pair of
/// poses. `None` where some pair is not a single primitive command
/// apart; on a planner route every pair is.
pub fn route_commands(route: &Vec<Position>) -> (r: Option<Vec<TurtleCommand>>)
    requires
        route@.len() >= 1,
    ensures
        match r {
            Some(cmds) => {
                &&& cmds@.len() == route@.len() - 1
                &&& forall|i: int|
                    0 <= i < cmds@.len() ==> crate::blocks::spec_apply(
                        route@[i],
                        #[trigger] cmds@[i],
                    ) == route@[i + 1]
            },
            None => exists|i: int|
                0 <= i < route@.len() - 1 && !crate::blocks::primitive_step(
                    #[trigger] route@[i],
                    route@[i + 1],
                ),
        },
{
    let mut cmds: Vec<TurtleCommand> = Vec::new();
    let n: usize = route.len();
    let mut i: usize = 0;
    while i < n - 1
        invariant
            route@.len() >= 1,
            n == route@.len(),
            i <= route@.len() - 1,
            cmds@.len() == i,
            forall|k: int|
                0 <= k < cmds@.len() ==> crate::blocks::spec_apply(route@[k], #[trigger] cmds@[k])
                    == route@[k + 1],
        decreases route@.len() - i,
    {
        match route[i].difference(route[i + 1]) {
            Some(c) => {
                cmds.push(c);
            },
            None => {
                return None;
            },
        }
        i = i + 1;
    }
    Some(cmds)
}

/// Whether a successful command leaves the cached inventory snapshot
/// stale: everything but waiting, moving and turning does.
pub fn invalidates_inventory(cmd: &TurtleCommand) -> (r: bool)
    ensures
        r == match cmd {
            TurtleCommand::Wait(_) => false,
            TurtleCommand::Forward(_) => false,
            TurtleCommand::Backward(_) => false,
            TurtleCommand::Up(_) => false,
            TurtleCommand::Down(_) => false,
            TurtleCommand::Left => false,
            TurtleCommand::Right => false,
            _ => true,
        },
{
    match cmd {
        TurtleCommand::Wait(_) => false,
        TurtleCommand::Forward(_) => false,
        TurtleCommand::Backward(_) => false,
        TurtleCommand::Up(_) => false,
        TurtleCommand::Down(_) => false,
        TurtleCommand::Left => false,
        TurtleCommand::Right => false,
        _ => true,
    }
}

} // verus!

//! The tree farm: fell logs upward, sweep the floor for saplings, and
//! replant, on a fixed schedule.
use vstd::prelude::*;

use crate::blocks::{Position, Vec3, Direction};
use crate::mine::{fill, spec_fill};
use crate::strings::spec_contains;
use crate::strings::string_contains;
use crate::tasks::TaskState;
use crate::turtle::InventorySlot;
use crate::world::World;

verus! {

/// Minutes between sweeps of one farm.
pub const SWEEP_DELAY: i64 = 16;

/// Minutes a whole, possibly negative, second span covers, rounded
/// toward zero.
pub open spec fn spec_whole_minutes(d: int) -> int {
    if d >= 0 {
        d / 60
    } else {
        -((-d) / 60)
    }
}

/// An integer clamped into the second-count type.
pub open spec fn clamp_i64(v: int) -> int {
    if v < -(i64::MAX as int) {
        -(i64::MAX as int)
    } else if v > i64::MAX {
        i64::MAX as int
    } else {
        v
    }
}

/// A farm of trees on a grid, swept on a fixed schedule.
pub struct TreeFarm {
    pub position: Vec3,
    /// Trees per axis.
    pub size: Vec3,
    /// When the farm was last swept, as whole seconds.
    pub last_sweep: i64,
}

impl TreeFarm {
    /// The tree grid is small, and its corner leaves room for the grid's
    /// own extent before the coordinate bounds.
    pub open spec fn wf(self) -> bool {
        &&& 1 <= self.size.x <= 8 && 1 <= self.size.y <= 8 && 1 <= self.size.z <= 8
        &&& i32::MIN + 256 <= self.position.x <= i32::MAX - 256
        &&& i32::MIN + 256 <= self.position.y <= i32::MAX - 256
        &&& i32::MIN + 256 <= self.position.z <= i32::MAX - 256
    }

    /// A farm of ten trees at the given corner, never yet swept.
    pub fn new(position: Vec3) -> (r: Self)
        requires
            i32::MIN + 256 <= position.x <= i32::MAX - 256,
            i32::MIN + 256 <= position.y <= i32::MAX - 256,
            i32::MIN + 256 <= position.z <= i32::MAX - 256,
        ensures
            r.wf(),
            r.position == position,
            r.size == (Vec3 { x: 5, y: 1, z: 2 }),
            r.last_sweep == 0,
    {
        Self { position, size: Vec3 { x: 5, y: 1, z: 2 }, last_sweep: 0 }
    }

    /// What polling the farm yields at time `now` (whole seconds): ready
    /// once the sweep delay has passed, which also restarts the clock.
    pub open spec fn spec_poll(self, now: i64) -> TaskState {
        if spec_whole_minutes(clamp_i64(now - self.last_sweep)) <= SWEEP_DELAY {
            TaskState::Waiting
        } else {
            TaskState::Ready(Position { pos: self.position, dir: Direction::North })
        }
    }

    /// The farm after one poll: a ready poll restarts the clock.
    pub open spec fn spec_poll_next(self, now: i64) -> TreeFarm {
        if self.spec_poll(now) is Ready {
            TreeFarm { last_sweep: now, ..self }
        } else {
            self
        }
    }

    pub fn poll(&mut self, now: i64) -> (r: TaskState)
        requires
            old(self).wf(),
        ensures
            final(self).wf(),
            r == old(self).spec_poll(now),
            *final(self) == old(self).spec_poll_next(now),
    {
        let elapsed: i64 = sub_sat(now, self.last_sweep);
        let minutes: i64 = if elapsed >= 0 {
            elapsed / 60
        } else {
            -((-elapsed) / 60)
        };
        if minutes <= SWEEP_DELAY {
            return TaskState::Waiting;
        }
        self.last_sweep = now;
        TaskState::Ready(Position { pos: self.position, dir: Direction::North })
    }

    /// The bottom cell of each tree of the farm, in serpentine order.
    pub fn tree_positions(&self) -> (r: Vec<Vec3>)
        requires
            self.wf(),
        ensures
            r@.len() == self.size.x * self.size.y * self.size.z,
            forall|n: int|
                0 <= n < r@.len() ==> {
                    &&& (#[trigger] r@[n]).x == self.position.x + 2 * spec_fill(self.size, n).x
                    &&& r@[n].y == self.position.y + 32 * spec_fill(self.size, n).y
                    &&& r@[n].z == self.position.z + 2 * spec_fill(self.size, n).z
                },
    {
        proof {
            assert(1 <= self.size.x * self.size.y && self.size.x * self.size.y <= 64 && 1
                <= self.size.x * self.size.y * self.size.z && self.size.x * self.size.y
                * self.size.z <= 512) by (nonlinear_arith)
                requires
                    1 <= self.size.x <= 8,
                    1 <= self.size.y <= 8,
                    1 <= self.size.z <= 8,
            ;
        }
        let trees: i32 = self.size.x * self.size.y * self.size.z;
        let mut out: Vec<Vec3> = Vec::new();
        let mut n: i32 = 0;
        while n < trees
            invariant
                self.wf(),
                trees == self.size.x * self.size.y * self.size.z,
                trees <= 512,
                0 <= n <= trees,
                out@.len() == n,
                forall|m: int|
                    0 <= m < out@.len() ==> {
                        &&& (#[trigger] out@[m]).x == self.position.x + 2 * spec_fill(
                            self.size,
                            m,
                        ).x
                        &&& out@[m].y == self.position.y + 32 * spec_fill(self.size, m).y
                        &&& out@[m].z == self.position.z + 2 * spec_fill(self.size, m).z
                    },
            decreases trees - n,
        {
            let rel = fill(self.size, n);
            out.push(
                Vec3 {
                    x: self.position.x + 2 * rel.x,
                    y: self.position.y + 32 * rel.y,
                    z: self.position.z + 2 * rel.z,
                },
            );
            n = n + 1;
        }
        out
    }

    /// The floor tiles of the sweep pass, one cell past the far corner
    /// and back to the near corner, in serpentine order.
    pub fn sweep_tiles(&self) -> (r: Vec<Vec3>)
        requires
            self.wf(),
        ensures
            r@.len() == (2 * self.size.x + 1) * (2 * self.size.z + 1),
            forall|n: int|
                0 <= n < r@.len() ==> {
                    let scale = Vec3 {
                        x: (2 * self.size.x + 1) as i32,
                        y: self.size.y,
                        z: (2 * self.size.z + 1) as i32,
                    };
                    &&& (#[trigger] r@[n]).x == self.position.x + spec_fill(scale, n).x - 1
                    &&& r@[n].y == self.position.y + spec_fill(scale, n).y
                    &&& r@[n].z == self.position.z + spec_fill(scale, n).z - 1
                },
    {
        let scale = Vec3 { x: 2 * self.size.x + 1, y: self.size.y, z: 2 * self.size.z + 1 };
        proof {
            assert(1 <= scale.x * scale.z && scale.x * scale.z <= 289) by (nonlinear_arith)
                requires
                    3 <= scale.x <= 17,
                    3 <= scale.z <= 17,
            ;
        }
        let area: i32 = scale.x * scale.z;
        proof {
            assert(scale.x * scale.z <= scale.x * scale.y * scale.z) by (nonlinear_arith)
                requires
                    1 <= scale.x,
                    1 <= scale.y,
                    1 <= scale.z,
            ;
        }
        let mut out: Vec<Vec3> = Vec::new();
        let mut n: i32 = 0;
        while n < area
            invariant
                area <= scale.x * scale.y * scale.z,
                self.wf(),
                scale == (Vec3 {
                    x: (2 * self.size.x + 1) as i32,
                    y: self.size.y,
                    z: (2 * self.size.z + 1) as i32,
                }),
                3 <= scale.x <= 17,
                3 <= scale.z <= 17,
                1 <= scale.y <= 8,
                area == scale.x * scale.z,
                area <= 289,
                0 <= n <= area,
                out@.len() == n,
                forall|m: int|
                    0 <= m < out@.len() ==> {
                        &&& (#[trigger] out@[m]).x == self.position.x + spec_fill(scale, m).x - 1
                        &&& out@[m].y == self.position.y + spec_fill(scale, m).y
                        &&& out@[m].z == self.position.z + spec_fill(scale, m).z - 1
                    },
            decreases area - n,
        {
            let rel = fill(scale, n);
            out.push(
                Vec3 {
                    x: self.position.x + rel.x - 1,
                    y: self.position.y + rel.y,
                    z: self.position.z + rel.z - 1,
                },
            );
            n = n + 1;
        }
        out
    }
}

/// Difference of two second counts, saturating at the type bounds.
fn sub_sat(a: i64, b: i64) -> (r: i64)
    ensures
        r == clamp_i64(a - b),
{
    let w: i128 = a as i128 - b as i128;
    if w > i64::MAX as i128 {
        i64::MAX
    } else if w < -(i64::MAX as i128) {
        -i64::MAX
    } else {
        w as i64
    }
}

/// Whether felling should continue at this cell: it is unseen, or its
/// known block is still a log.
pub fn keep_felling(world: &World, log: Vec3) -> (r: bool)
    requires
        world.wf(),
    ensures
        r == (!world@.contains_key(log) || spec_contains(world@[log], "log"@)),
{
    match world.get(log) {
        Some(b) => string_contains(b.name.as_str(), "log"),
        None => true,
    }
}

/// The inventory slots holding saplings, with their counts -- all of
/// them: what the replant pass draws from.
pub fn sapling_slots(inventory: &Vec<Option<InventorySlot>>) -> (r: Vec<(u32, u32)>)
    requires
        inventory@.len() <= 16,
    ensures
        forall|k: int|
            0 <= k < r@.len() ==> {
                &&& 1 <= (#[trigger] r@[k]).0 <= inventory@.len()
                &&& inventory@[r@[k].0 - 1] is Some
                &&& spec_contains(inventory@[r@[k].0 - 1]->0.name@, "sapling"@)
                &&& r@[k].1 == inventory@[r@[k].0 - 1]->0.count
            },
        forall|j: int|
            0 <= j < inventory@.len() && inventory@[j] is Some && spec_contains(
                inventory@[j]->0.name@,
                "sapling"@,
            ) ==> r@.contains(((j + 1) as u32, inventory@[j]->0.count)),
{
    let mut out: Vec<(u32, u32)> = Vec::new();
    let mut i: usize = 0;
    while i < inventory.len()
        invariant
            inventory@.len() <= 16,
            i <= inventory@.len(),
            forall|k: int|
                0 <= k < out@.len() ==> {
                    &&& 1 <= (#[trigger] out@[k]).0 <= inventory@.len()
                    &&& inventory@[out@[k].0 - 1] is Some
                    &&& spec_contains(inventory@[out@[k].0 - 1]->0.name@, "sapling"@)
                    &&& out@[k].1 == inventory@[out@[k].0 - 1]->0.count
                },
            forall|j: int|
                0 <= j < i && inventory@[j] is Some && spec_contains(
                    inventory@[j]->0.name@,
                    "sapling"@,
                ) ==> out@.contains(((j + 1) as u32, inventory@[j]->0.count)),
        decreases inventory@.len() - i,
    {
        let ghost pre = out@;
        let ghost entry = (((i + 1) as u32), inventory@[i as int]->0.count);
        match &inventory[i] {
            Some(slot) => {
                if string_contains(slot.name.as_str(), "sapling") {
                    out.push(((i as u32) + 1, slot.count));
                }
            },
            None => {},
        }
        proof {
            assert forall|j: int|
                0 <= j < i + 1 && inventory@[j] is Some && spec_contains(
                    inventory@[j]->0.name@,
                    "sapling"@,
                ) implies out@.contains(((j + 1) as u32, inventory@[j]->0.count)) by {
                crate::seqs::lemma_push_keeps_contains(
                    pre,
                    entry,
                    ((j + 1) as u32, inventory@[j]->0.count),
                );
            }
        }
        i = i + 1;
    }
    out
}

/// Draw one sapling for planting: the last listed slot, its count
/// reduced by one and dropped from the list once empty. `None` when no
/// saplings remain.
pub fn next_sapling(saplings: &mut Vec<(u32, u32)>) -> (r: Option<u32>)
    ensures
        match r {
            Some(slot) => {
                &&& old(saplings)@.len() > 0
                &&& slot == old(saplings)@.last().0
                &&& final(saplings)@ == if old(saplings)@.last().1 > 1 {
                    old(saplings)@.update(
                        old(saplings)@.len() - 1,
                        (old(saplings)@.last().0, (old(saplings)@.last().1 - 1) as u32),
                    )
                } else {
                    old(saplings)@.drop_last()
                }
            },
            None => old(saplings)@.len() == 0 && final(saplings)@ == old(saplings)@,
        },
{
    match saplings.pop() {
        Some((slot, count)) => {
            if count > 1 {
                saplings.push((slot, count - 1));
                proof {
                    assert(saplings@ =~= old(saplings)@.update(
                        old(saplings)@.len() - 1,
                        (old(saplings)@.last().0, (old(saplings)@.last().1 - 1) as u32),
                    ));
                }
            }
            Some(slot)
        },
        None => None,
    }
}

} // verus!

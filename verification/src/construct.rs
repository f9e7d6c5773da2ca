//! Schematic building: paint a decoded schematic into the live world,
//! one layer at a time, drawing blocks from an input chest.
use vstd::prelude::*;

use crate::blocks::{Position, Vec3, Direction};
use crate::mine::{fill, spec_fill};
use crate::tasks::TaskState;
use crate::turtle::InventorySlot;
use crate::world::World;

verus! {

/// A one-robot schematic build. The decoded schematic is held as a
/// virtual world keyed from the origin; `progress` counts the layers
/// already begun, bottom to top.
pub struct BuildSimple {
    /// Where the schematic's origin sits in the live world.
    pub pos: Vec3,
    pub size: Vec3,
    /// The decoded schematic, absent after a restore, which cannot
    /// resume an in-flight build.
    pub region: Option<World>,
    /// The chest the blocks are drawn from, assumed never to run dry.
    pub input: Position,
    /// Robots working the build.
    pub miners: usize,
    /// Layers begun.
    pub progress: i32,
    pub height: i32,
}

impl BuildSimple {
    /// The schematic box is well-formed, and its origin leaves room for
    /// the box's own extent before the coordinate bounds.
    pub open spec fn wf(self) -> bool {
        &&& 1 <= self.size.x <= 1024 && 1 <= self.size.y <= 1024 && 1 <= self.size.z <= 1024
        &&& self.height == self.size.y
        &&& 0 <= self.progress <= self.height
        &&& i32::MIN + 2048 <= self.pos.x <= i32::MAX - 2048
        &&& i32::MIN + 2048 <= self.pos.y <= i32::MAX - 2048
        &&& i32::MIN + 2048 <= self.pos.z <= i32::MAX - 2048
        &&& match self.region {
            Some(w) => w.wf(),
            None => true,
        }
    }

    /// A build of the decoded schematic `region` of the given size, its
    /// origin at `position`, drawing from the chest at `input`.
    pub fn new(position: Vec3, region: World, size: Vec3, input: Position) -> (r: Self)
        requires
            region.wf(),
            1 <= size.x <= 1024,
            1 <= size.y <= 1024,
            1 <= size.z <= 1024,
            i32::MIN + 2048 <= position.x <= i32::MAX - 2048,
            i32::MIN + 2048 <= position.y <= i32::MAX - 2048,
            i32::MIN + 2048 <= position.z <= i32::MAX - 2048,
        ensures
            r.wf(),
            r.pos == position,
            r.size == size,
            r.region == Some(region),
            r.input == input,
            r.miners == 0,
            r.progress == 0,
            r.height == size.y,
    {
        BuildSimple {
            pos: position,
            size,
            region: Some(region),
            input,
            miners: 0,
            progress: 0,
            height: size.y,
        }
    }

    /// What polling the build yields: complete without a schematic (a
    /// restore cannot resume) or once every layer is begun; ready for a
    /// single robot otherwise.
    pub open spec fn spec_poll(self) -> TaskState {
        if self.region is None {
            TaskState::Complete
        } else if self.progress == self.height {
            TaskState::Complete
        } else if self.miners < 1 {
            TaskState::Ready(Position { pos: self.pos, dir: Direction::North })
        } else {
            TaskState::Waiting
        }
    }

    /// The build after one poll: a ready poll admits the robot.
    pub open spec fn spec_poll_next(self) -> BuildSimple {
        if self.spec_poll() is Ready {
            BuildSimple { miners: (self.miners + 1) as usize, ..self }
        } else {
            self
        }
    }

    pub fn poll(&mut self) -> (r: TaskState)
        requires
            old(self).wf(),
        ensures
            final(self).wf(),
            r == old(self).spec_poll(),
            *final(self) == old(self).spec_poll_next(),
    {
        if self.region.is_none() {
            return TaskState::Complete;
        }
        if self.progress == self.height {
            return TaskState::Complete;
        }
        if self.miners < 1 {
            self.miners = self.miners + 1;
            return TaskState::Ready(Position { pos: self.pos, dir: Direction::North });
        }
        TaskState::Waiting
    }

    /// Begin the next layer: its index, also advancing the layer
    /// counter. `None` when every layer is begun or no schematic is
    /// loaded.
    pub fn begin_layer(&mut self) -> (r: Option<i32>)
        requires
            old(self).wf(),
        ensures
            final(self).wf(),
            match r {
                Some(layer) => {
                    &&& layer == old(self).progress
                    &&& 0 <= layer < old(self).height
                    &&& *final(self) == BuildSimple {
                        progress: (old(self).progress + 1) as i32,
                        ..*old(self)
                    }
                },
                None => *final(self) == *old(self) && (old(self).progress == old(self).height || old(self).region is None),
            },
    {
        if self.region.is_none() || self.progress == self.height {
            return None;
        }
        let layer: i32 = self.progress;
        self.progress = self.progress + 1;
        Some(layer)
    }

    /// A failed layer is backed out of the counter, to be retried.
    pub fn layer_failed(&mut self)
        requires
            old(self).wf(),
        ensures
            final(self).wf(),
            final(self).progress == if old(self).progress > 0 {
                (old(self).progress - 1) as i32
            } else {
                0i32
            },
            final(self).pos == old(self).pos,
            final(self).size == old(self).size,
            final(self).region == old(self).region,
            final(self).miners == old(self).miners,
            final(self).height == old(self).height,
    {
        if self.progress > 0 {
            self.progress = self.progress - 1;
        }
    }

    /// One worker leaves the build.
    pub fn worker_done(&mut self)
        requires
            old(self).wf(),
        ensures
            final(self).wf(),
            final(self).miners == if old(self).miners > 0 {
                (old(self).miners - 1) as usize
            } else {
                0usize
            },
            final(self).progress == old(self).progress,
            final(self).region == old(self).region,
    {
        if self.miners > 0 {
            self.miners = self.miners - 1;
        }
    }

    /// The `n`-th schematic cell of a layer's scan, keyed from the
    /// schematic's origin.
    pub open spec fn spec_layer_rel(self, layer: i32, n: int) -> Vec3 {
        let flat = spec_fill(Vec3 { x: self.size.x, y: 1, z: self.size.z }, n);
        Vec3 { x: flat.x, y: layer, z: flat.z }
    }

    /// The `n`-th cell of a layer's scan, placed in the live world.
    pub open spec fn spec_layer_cell(self, layer: i32, n: int) -> Vec3 {
        let rel = self.spec_layer_rel(layer, n);
        Vec3 {
            x: (self.pos.x + rel.x) as i32,
            y: (self.pos.y + rel.y) as i32,
            z: (self.pos.z + rel.z) as i32,
        }
    }

    /// The live-world cells of one layer still to place -- every
    /// schematic cell of the layer that holds a block where the live
    /// world has no occupied block yet, in serpentine order.
    pub fn layer_targets(&self, layer: i32, world: &World) -> (r: Vec<Vec3>)
        requires
            self.wf(),
            world.wf(),
            self.region is Some,
            0 <= layer < self.height,
        ensures
            forall|k: int|
                0 <= k < r@.len() ==> {
                    let cell = #[trigger] r@[k];
                    let rel = Vec3 {
                        x: (cell.x - self.pos.x) as i32,
                        y: (cell.y - self.pos.y) as i32,
                        z: (cell.z - self.pos.z) as i32,
                    };
                    &&& rel.y == layer
                    &&& self.region->0@.contains_key(rel)
                    &&& !(world@.contains_key(cell) && !crate::paths::spec_transparent(
                        world@[cell],
                    ))
                },
            forall|n: int|
                0 <= n < self.size.x * self.size.z && self.region->0@.contains_key(
                    #[trigger] self.spec_layer_rel(layer, n),
                ) && !(world@.contains_key(self.spec_layer_cell(layer, n))
                    && !crate::paths::spec_transparent(world@[self.spec_layer_cell(layer, n)]))
                    ==> r@.contains(self.spec_layer_cell(layer, n)),
    {
        let layer_size = Vec3 { x: self.size.x, y: 1, z: self.size.z };
        proof {
            assert(1 <= layer_size.x * layer_size.z && layer_size.x * layer_size.z <= 1024
                * 1024) by (nonlinear_arith)
                requires
                    1 <= layer_size.x <= 1024,
                    1 <= layer_size.z <= 1024,
            ;
        }
        let area: i32 = layer_size.x * layer_size.z;
        let region = match &self.region {
            Some(w) => w,
            None => {
                return Vec::new();
            },
        };
        let mut out: Vec<Vec3> = Vec::new();
        let mut n: i32 = 0;
        while n < area
            invariant
                self.wf(),
                world.wf(),
                self.region is Some,
                region == self.region->0,
                0 <= layer < self.height,
                layer_size == (Vec3 { x: self.size.x, y: 1, z: self.size.z }),
                area == layer_size.x * layer_size.z,
                area <= 1024 * 1024,
                0 <= n <= area,
                forall|k: int|
                    0 <= k < out@.len() ==> {
                        let cell = #[trigger] out@[k];
                        let rel = Vec3 {
                            x: (cell.x - self.pos.x) as i32,
                            y: (cell.y - self.pos.y) as i32,
                            z: (cell.z - self.pos.z) as i32,
                        };
                        &&& rel.y == layer
                        &&& self.region->0@.contains_key(rel)
                        &&& !(world@.contains_key(cell) && !crate::paths::spec_transparent(
                            world@[cell],
                        ))
                    },
                forall|m: int|
                    0 <= m < n && self.region->0@.contains_key(
                        #[trigger] self.spec_layer_rel(layer, m),
                    ) && !(world@.contains_key(self.spec_layer_cell(layer, m))
                        && !crate::paths::spec_transparent(
                        world@[self.spec_layer_cell(layer, m)],
                    )) ==> out@.contains(self.spec_layer_cell(layer, m)),
            decreases area - n,
        {
            proof {
                assert(self.size.x * 1 * self.size.z == self.size.x * self.size.z)
                    by (nonlinear_arith);
            }
            let flat = fill(layer_size, n);
            let rel = Vec3 { x: flat.x, y: layer, z: flat.z };
            proof {
                assert(rel == self.spec_layer_rel(layer, n as int));
            }
            let ghost pre = out@;
            if region.get(rel).is_some() {
                let cell = Vec3 {
                    x: self.pos.x + rel.x,
                    y: self.pos.y + rel.y,
                    z: self.pos.z + rel.z,
                };
                proof {
                    assert(cell == self.spec_layer_cell(layer, n as int));
                }
                if !world.occupied(cell) {
                    out.push(cell);
                }
            }
            proof {
                assert forall|m: int|
                    0 <= m < n + 1 && self.region->0@.contains_key(
                        #[trigger] self.spec_layer_rel(layer, m),
                    ) && !(world@.contains_key(self.spec_layer_cell(layer, m))
                        && !crate::paths::spec_transparent(
                        world@[self.spec_layer_cell(layer, m)],
                    )) implies out@.contains(self.spec_layer_cell(layer, m)) by {
                    crate::seqs::lemma_push_keeps_contains(
                        pre,
                        self.spec_layer_cell(layer, n as int),
                        self.spec_layer_cell(layer, m),
                    );
                }
            }
            n = n + 1;
        }
        out
    }
}

/// The first inventory slot, 1-based, still holding items: where the
/// builder reaches for blocks after a failed place.
pub fn next_stocked_slot(inventory: &Vec<Option<InventorySlot>>) -> (r: Option<u32>)
    requires
        inventory@.len() <= 16,
    ensures
        match r {
            Some(slot) => 1 <= slot <= inventory@.len() && inventory@[slot - 1] is Some
                && inventory@[slot - 1]->0.count > 0,
            None => forall|j: int|
                0 <= j < inventory@.len() ==> !((#[trigger] inventory@[j]) is Some
                    && inventory@[j]->0.count > 0),
        },
{
    let mut i: usize = 0;
    while i < inventory.len()
        invariant
            inventory@.len() <= 16,
            i <= inventory@.len(),
            forall|j: int|
                0 <= j < i ==> !((#[trigger] inventory@[j]) is Some && inventory@[j]->0.count > 0),
        decreases inventory@.len() - i,
    {
        match &inventory[i] {
            Some(slot) => {
                if slot.count > 0 {
                    return Some((i as u32) + 1);
                }
            },
            None => {},
        }
        i = i + 1;
    }
    None
}

} // verus!

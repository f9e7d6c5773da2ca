//! The depot registry: operator-designated dock poses, each with an
//! exclusive lease, and the decisions of the dump-and-refuel protocol.
use vstd::prelude::*;

use crate::blocks::{l1, Position};
use crate::turtle::InventorySlot;

verus! {

/// The registered depots and which of them are leased out. Below a
/// depot pose lies an output chest of unbounded capacity; ahead of it, a
/// chest of combustibles.
pub struct Depots {
    pub depots: Vec<Position>,
    /// Whether the depot with the same index is leased out.
    pub leased: Vec<bool>,
}

impl Depots {
    /// One lease flag per depot.
    pub open spec fn wf(self) -> bool {
        self.leased@.len() == self.depots@.len()
    }

    /// How many depots are leased out.
    pub open spec fn leased_count(self) -> int {
        self.leased@.fold_left(0int, |acc: int, b: bool| if b { acc + 1 } else { acc })
    }

    /// A registry of the given depot poses, none leased.
    pub fn from_vec(vec: Vec<Position>) -> (r: Self)
        ensures
            r.wf(),
            r.depots@ == vec@,
            forall|i: int| 0 <= i < r.leased@.len() ==> !(#[trigger] r.leased@[i]),
    {
        let n: usize = vec.len();
        let mut leased: Vec<bool> = Vec::new();
        let mut i: usize = 0;
        while i < n
            invariant
                i <= n,
                leased@.len() == i,
                forall|j: int| 0 <= j < i ==> !(#[trigger] leased@[j]),
            decreases n - i,
        {
            leased.push(false);
            i = i + 1;
        }
        Depots { depots: vec, leased }
    }

    /// The registered depot poses.
    pub fn to_vec(self) -> (r: Vec<Position>)
        ensures
            r@ == self.depots@,
    {
        self.depots
    }

    /// Register one more depot, free.
    pub fn add(&mut self, pos: Position)
        requires
            old(self).wf(),
        ensures
            final(self).wf(),
            final(self).depots@ == old(self).depots@.push(pos),
            final(self).leased@ == old(self).leased@.push(false),
    {
        self.depots.push(pos);
        self.leased.push(false);
    }

    /// Lease the free depot nearest to `pos`: the lease excludes every
    /// other caller until `release`. `None` when every depot is leased
    /// out (a caller then waits and retries).
    pub fn nearest(&mut self, pos: Position) -> (r: Option<usize>)
        requires
            old(self).wf(),
        ensures
            final(self).wf(),
            final(self).depots@ == old(self).depots@,
            match r {
                Some(i) => {
                    &&& i < old(self).depots@.len()
                    &&& !old(self).leased@[i as int]
                    &&& final(self).leased@ == old(self).leased@.update(i as int, true)
                    &&& forall|j: int|
                        0 <= j < old(self).depots@.len() && !old(self).leased@[j] ==> l1(
                            old(self).depots@[i as int].pos,
                            pos.pos,
                        ) <= l1(#[trigger] old(self).depots@[j].pos, pos.pos)
                },
                None => {
                    &&& final(self).leased@ == old(self).leased@
                    &&& forall|j: int|
                        0 <= j < old(self).depots@.len() ==> #[trigger] old(self).leased@[j]
                },
            },
    {
        let mut best: Option<usize> = None;
        let mut i: usize = 0;
        while i < self.depots.len()
            invariant
                self.wf(),
                i <= self.depots@.len(),
                match best {
                    Some(b) => b < i && !self.leased@[b as int] && forall|j: int|
                        0 <= j < i && !self.leased@[j] ==> l1(self.depots@[b as int].pos, pos.pos)
                            <= l1(#[trigger] self.depots@[j].pos, pos.pos),
                    None => forall|j: int| 0 <= j < i ==> #[trigger] self.leased@[j],
                },
            decreases self.depots@.len() - i,
        {
            if !self.leased[i] {
                let di: i64 = self.depots[i].pos.l1_to(pos.pos);
                best = match best {
                    Some(b) => {
                        let db: i64 = self.depots[b].pos.l1_to(pos.pos);
                        if di < db {
                            Some(i)
                        } else {
                            Some(b)
                        }
                    },
                    None => Some(i),
                };
            }
            i = i + 1;
        }
        match best {
            Some(b) => {
                self.leased[b] = true;
                Some(b)
            },
            None => None,
        }
    }

    /// The pose of a depot.
    pub fn position(&self, i: usize) -> (r: Position)
        requires
            self.wf(),
            i < self.depots@.len(),
        ensures
            r == self.depots@[i as int],
    {
        self.depots[i]
    }

    /// Give a lease back.
    pub fn release(&mut self, i: usize)
        requires
            old(self).wf(),
            i < old(self).leased@.len(),
        ensures
            final(self).wf(),
            final(self).depots@ == old(self).depots@,
            final(self).leased@ == old(self).leased@.update(i as int, false),
    {
        self.leased[i] = false;
    }
}

/// What the refuel loop does next.
#[derive(Clone, Copy, PartialEq, Eq, Structural, Debug)]
pub enum RefuelAction {
    /// Enough fuel on board: step out of the loop.
    Done,
    /// Draw from the fuel chest and burn it.
    Draw,
    /// The last draw failed and fuel is still short: wait and retry.
    Pause,
}

/// One decision of the refuel loop: filled up within a thousand of the
/// limit ends it; a failed draw ends it only once fuel passed 1500, and
/// otherwise pauses before the retry.
pub fn refuel_step(fuel: usize, limit: usize, last_draw_failed: bool) -> (r: RefuelAction)
    ensures
        r == if fuel + 1000 >= limit {
            RefuelAction::Done
        } else if last_draw_failed && fuel > 1500 {
            RefuelAction::Done
        } else if last_draw_failed {
            RefuelAction::Pause
        } else {
            RefuelAction::Draw
        },
{
    if fuel >= limit || limit - fuel <= 1000 {
        RefuelAction::Done
    } else if last_draw_failed && fuel > 1500 {
        RefuelAction::Done
    } else if last_draw_failed {
        RefuelAction::Pause
    } else {
        RefuelAction::Draw
    }
}

/// The inventory slots that hold something, as 1-based slot numbers in
/// order: the slots the dump step empties into the chest below.
pub fn dump_slots(inventory: &Vec<Option<InventorySlot>>) -> (r: Vec<u32>)
    requires
        inventory@.len() <= 16,
    ensures
        forall|k: int|
            0 <= k < r@.len() ==> 1 <= #[trigger] r@[k] <= inventory@.len() && inventory@[r@[k]
                - 1] is Some,
        forall|j: int|
            0 <= j < inventory@.len() && inventory@[j] is Some ==> r@.contains((j + 1) as u32),
{
    let mut out: Vec<u32> = Vec::new();
    let mut i: usize = 0;
    while i < inventory.len()
        invariant
            inventory@.len() <= 16,
            i <= inventory@.len(),
            forall|k: int|
                0 <= k < out@.len() ==> 1 <= #[trigger] out@[k] <= inventory@.len()
                    && inventory@[out@[k] - 1] is Some,
            forall|j: int|
                0 <= j < i && inventory@[j] is Some ==> out@.contains((j + 1) as u32),
        decreases inventory@.len() - i,
    {
        if inventory[i].is_some() {
            let slot: u32 = (i as u32) + 1;
            let ghost pre = out@;
            out.push(slot);
            proof {
                assert forall|j: int| 0 <= j < i + 1 && inventory@[j] is Some implies
                    out@.contains((j + 1) as u32) by {
                    if j < i as int {
                        let k = choose|k: int| 0 <= k < pre.len() && pre[k] == (j + 1) as u32;
                        assert(out@[k] == (j + 1) as u32);
                    } else {
                        assert(out@[out@.len() - 1] == slot);
                    }
                }
            }
        } else {
            proof {
                assert forall|j: int| 0 <= j < i + 1 && inventory@[j] is Some implies
                    out@.contains((j + 1) as u32) by {
                    if j < i as int {
                        let k = choose|k: int| 0 <= k < out@.len() && out@[k] == (j + 1) as u32;
                        assert(out@[k] == (j + 1) as u32);
                    }
                }
            }
        }
        i = i + 1;
    }
    out
}

} // verus!

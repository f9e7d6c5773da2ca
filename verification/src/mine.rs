//! Mining jobs: the serpentine cell enumeration, the concurrent-work
//! tracker that hands out disjoint sub-cube indices, and the quarry,
//! strip-mine and vein-removal tasks.
use vstd::prelude::*;

use crate::blocks::{iabs, l1, Position, Vec3, Direction};
use crate::turtle::InventorySlot;
use crate::strings::{string_contains, spec_contains};
use crate::tasks::TaskState;
use crate::world::World;

verus! {

/// One leg of a serpent walk: count `n` zigzags from 0 to `x - 1` and
/// back, resting one step on each end.
pub open spec fn spec_step(n: int, x: int) -> int {
    let half = n % x;
    let full = n % (2 * x);
    if full > x - 1 {
        x - half - 1
    } else {
        full
    }
}

/// Zig from 0 to `x - 1` and back, stopping on each end.
pub fn step(n: i32, x: i32) -> (r: i32)
    requires
        0 <= n,
        1 <= x <= 0x3fff_ffff,
    ensures
        r == spec_step(n as int, x as int),
        0 <= r < x,
{
    let half: i32 = n % x;
    let full: i32 = n % (2 * x);
    if full > x - 1 {
        x - half - 1
    } else {
        full
    }
}

/// The n-th cell of the serpentine enumeration of a `scale`-sized box:
/// the walk zigzags along `x`, advances along `y` at each end, and along
/// `z` at each end of a layer.
pub open spec fn spec_fill(scale: Vec3, n: int) -> Vec3 {
    Vec3 {
        x: spec_step(n, scale.x as int) as i32,
        y: spec_step(n / (scale.x as int), scale.y as int) as i32,
        z: spec_step(n / (scale.x as int) / (scale.y as int), scale.z as int) as i32,
    }
}

/// Generates a sequence of adjacent positions within a volume: the n-th
/// cell of the serpentine enumeration.
pub fn fill(scale: Vec3, n: i32) -> (r: Vec3)
    requires
        1 <= scale.x <= 0x3fff_ffff,
        1 <= scale.y <= 0x3fff_ffff,
        1 <= scale.z <= 0x3fff_ffff,
        0 <= n < scale.x * scale.y * scale.z,
    ensures
        r == spec_fill(scale, n as int),
        0 <= r.x < scale.x,
        0 <= r.y < scale.y,
        0 <= r.z < scale.z,
{
    Vec3 {
        x: step(n, scale.x),
        y: step(n / scale.x, scale.y),
        z: step(n / scale.x / scale.y, scale.z),
    }
}


/// One count of the serpent leg: at a multiple of the leg length the
/// value rests, anywhere else it moves by exactly one.
pub proof fn lemma_step_adjacent(n: int, x: int)
    requires
        0 <= n,
        1 <= x,
    ensures
        (n + 1) % x == 0 ==> spec_step(n + 1, x) == spec_step(n, x),
        (n + 1) % x != 0 ==> iabs(spec_step(n + 1, x) - spec_step(n, x)) == 1,
        (n + 1) % x == 0 ==> (n + 1) / x == n / x + 1,
        (n + 1) % x != 0 ==> (n + 1) / x == n / x,
{
    let half = n % x;
    let full = n % (2 * x);
    vstd::arithmetic::div_mod::lemma_fundamental_div_mod(n, x);
    vstd::arithmetic::div_mod::lemma_fundamental_div_mod(n, 2 * x);
    vstd::arithmetic::div_mod::lemma_mod_bound(n, x);
    vstd::arithmetic::div_mod::lemma_mod_bound(n, 2 * x);
    // advance the remainders by one count
    assert(x * (n / x) == (n / x) * x && (2 * x) * (n / (2 * x)) == (n / (2 * x)) * (2 * x) && (n
        / x + 1) * x == (n / x) * x + x && (n / (2 * x) + 1) * (2 * x) == (n / (2 * x)) * (2 * x)
        + 2 * x) by (nonlinear_arith);
    if half + 1 < x {
        vstd::arithmetic::div_mod::lemma_fundamental_div_mod_converse(n + 1, x, n / x, half + 1);
    } else {
        vstd::arithmetic::div_mod::lemma_fundamental_div_mod_converse(n + 1, x, n / x + 1, 0);
    }
    if full + 1 < 2 * x {
        vstd::arithmetic::div_mod::lemma_fundamental_div_mod_converse(
            n + 1,
            2 * x,
            n / (2 * x),
            full + 1,
        );
    } else {
        vstd::arithmetic::div_mod::lemma_fundamental_div_mod_converse(
            n + 1,
            2 * x,
            n / (2 * x) + 1,
            0,
        );
    }
    // the two remainders agree below x and differ by x above
    assert((full < x ==> half == full) && (full >= x ==> half == full - x)) by {
        assert((2 * (n / (2 * x))) * x == (2 * x) * (n / (2 * x)) && (2 * (n / (2 * x)) + 1) * x
            == (2 * x) * (n / (2 * x)) + x) by (nonlinear_arith);
        if full < x {
            vstd::arithmetic::div_mod::lemma_fundamental_div_mod_converse(
                n,
                x,
                2 * (n / (2 * x)),
                full,
            );
        } else {
            vstd::arithmetic::div_mod::lemma_fundamental_div_mod_converse(
                n,
                x,
                2 * (n / (2 * x)) + 1,
                full - x,
            );
        }
    }
}

/// Successive cells of the serpentine enumeration are adjacent: one
/// count moves the walk by exactly one cell.
pub proof fn lemma_fill_adjacent(scale: Vec3, n: int)
    requires
        1 <= scale.x,
        1 <= scale.y,
        1 <= scale.z,
        0 <= n,
        n + 1 < scale.x * scale.y * scale.z,
    ensures
        l1(spec_fill(scale, n), spec_fill(scale, n + 1)) == 1,
{
    let sx = scale.x as int;
    let sy = scale.y as int;
    let sz = scale.z as int;
    lemma_step_adjacent(n, sx);
    if (n + 1) % sx != 0 {
        // the x leg moves; the outer counters rest
        assert(iabs(spec_step(n + 1, sx) - spec_step(n, sx)) == 1);
        assert((n + 1) / sx == n / sx);
        return ;
    }
    let m = n / sx;
    vstd::arithmetic::div_mod::lemma_div_pos_is_pos(n, sx);
    lemma_step_adjacent(m, sy);
    if (m + 1) % sy != 0 {
        assert(iabs(spec_step(m + 1, sy) - spec_step(m, sy)) == 1);
        assert((m + 1) / sy == m / sy);
        return ;
    }
    let k = m / sy;
    vstd::arithmetic::div_mod::lemma_div_pos_is_pos(m, sy);
    lemma_step_adjacent(k, sz);
    if (k + 1) % sz != 0 {
        assert(iabs(spec_step(k + 1, sz) - spec_step(k, sz)) == 1);
        return ;
    }
    // every leg rests at once only at the end of the whole box
    assert(false) by {
        vstd::arithmetic::div_mod::lemma_fundamental_div_mod(n + 1, sx);
        assert(n + 1 == sx * (m + 1));
        vstd::arithmetic::div_mod::lemma_fundamental_div_mod(m + 1, sy);
        assert(m + 1 == sy * (k + 1));
        vstd::arithmetic::div_mod::lemma_fundamental_div_mod(k + 1, sz);
        assert(k + 1 == sz * ((k + 1) / sz));
        let q = (k + 1) / sz;
        assert(q >= 1) by (nonlinear_arith)
            requires
                k + 1 >= 1,
                k + 1 == sz * q,
                sz >= 1,
        ;
        assert(n + 1 == sx * (sy * (sz * q))) by (nonlinear_arith)
            requires
                n + 1 == sx * (m + 1),
                m + 1 == sy * (k + 1),
                k + 1 == sz * q,
        ;
        assert(sx * (sy * (sz * q)) >= sx * sy * sz) by (nonlinear_arith)
            requires
                q >= 1,
                sx >= 1,
                sy >= 1,
                sz >= 1,
        ;
    }
}

/// A concurrent allocator of integer work indices in `[0, max)`. A
/// worker draws an index, then either finishes it or cancels it;
/// canceled indices queue up and are handed out again before fresh ones.
/// The low-water mark `confirmed` advances only while no cancellation is
/// outstanding.
pub struct ChunkedTask {
    /// Highest index marked done while the cancel queue was empty.
    pub confirmed: i32,
    /// Number of indices this job is divided into.
    pub max: i32,
    /// Next fresh index to hand out.
    pub head: i32,
    /// Canceled indices waiting to be handed out again, oldest first.
    pub canceled: Vec<i32>,
}

impl ChunkedTask {
    /// The tracker invariant: marks within range and every queued
    /// cancellation below the allocation head.
    pub open spec fn wf(self) -> bool {
        &&& 0 <= self.confirmed <= self.head <= self.max
        &&& forall|i: int| 0 <= i < self.canceled@.len() ==> 0 <= #[trigger] self.canceled@[i]
            < self.head
        &&& forall|i: int, j: int|
            0 <= i < j < self.canceled@.len() ==> #[trigger] self.canceled@[i]
                != #[trigger] self.canceled@[j]
    }

    /// The fresh index `next_chunk` would draw: the head, caught up with
    /// the confirmed mark after a restore.
    pub open spec fn spec_bump(self) -> int {
        if self.confirmed > self.head {
            self.confirmed as int
        } else {
            self.head as int
        }
    }

    /// A tracker for a job of `parts` indices, none yet allocated.
    pub fn new(parts: i32) -> (r: Self)
        requires
            0 <= parts,
        ensures
            r.wf(),
            r.max == parts,
            r.confirmed == 0,
            r.head == 0,
            r.canceled@.len() == 0,
    {
        Self { confirmed: 0, max: parts, head: 0, canceled: Vec::new() }
    }

    /// Whether the whole job is done: the low-water mark has reached the
    /// last index.
    pub fn done(&self) -> (r: bool)
        requires
            self.wf(),
        ensures
            r == (self.confirmed + 1 >= self.max),
    {
        self.confirmed >= self.max - 1
    }

    /// Whether every index is out with some worker: nothing fresh to
    /// draw and nothing canceled to re-issue.
    pub fn allocated(&self) -> (r: bool)
        requires
            self.wf(),
        ensures
            r == (self.head + 1 >= self.max && self.canceled@.len() == 0),
    {
        self.head >= self.max - 1 && self.canceled.is_empty()
    }

    /// Draw an index to work on: the oldest canceled one if any is
    /// queued, else the next fresh one; `None` when all are out.
    pub fn next_chunk(&mut self) -> (r: Option<i32>)
        requires
            old(self).wf(),
        ensures
            final(self).wf(),
            final(self).max == old(self).max,
            final(self).confirmed == old(self).confirmed,
            match r {
                Some(c) => {
                    &&& 0 <= c < old(self).max
                    &&& if old(self).canceled@.len() > 0 {
                        &&& c == old(self).canceled@[0]
                        &&& final(self).canceled@ == old(self).canceled@.drop_first()
                        &&& final(self).head == old(self).head
                    } else {
                        &&& c == old(self).spec_bump()
                        &&& final(self).head == c + 1
                        &&& final(self).canceled@ == old(self).canceled@
                    }
                },
                None => {
                    &&& old(self).canceled@.len() == 0
                    &&& old(self).spec_bump() >= old(self).max
                    &&& final(self).head == old(self).spec_bump()
                    &&& final(self).canceled@ == old(self).canceled@
                },
            },
    {
        if self.canceled.len() > 0 {
            let c: i32 = self.canceled.remove(0);
            return Some(c);
        }
        // catch the head up with the confirmed mark after a restore
        if self.confirmed > self.head {
            self.head = self.confirmed;
        }
        if self.head < self.max {
            let c: i32 = self.head;
            self.head = self.head + 1;
            Some(c)
        } else {
            None
        }
    }

    /// Mark an index done. The low-water mark advances to it only while
    /// no cancellation is outstanding.
    pub fn finish(&mut self, chunk: i32)
        requires
            old(self).wf(),
            0 <= chunk < old(self).head,
        ensures
            final(self).wf(),
            final(self).max == old(self).max,
            final(self).head == old(self).head,
            final(self).canceled@ == old(self).canceled@,
            final(self).confirmed == if old(self).canceled@.len() == 0 && chunk > old(self).confirmed {
                chunk
            } else {
                old(self).confirmed
            },
    {
        if self.canceled.is_empty() {
            if chunk > self.confirmed {
                self.confirmed = chunk;
            }
        }
    }

    /// Give an index back: queue it for the next worker. An index that
    /// was never drawn is not cancellable and is ignored; one already
    /// queued must not be canceled again, or two workers would draw it.
    pub fn cancel(&mut self, chunk: i32)
        requires
            old(self).wf(),
            0 <= chunk,
            !old(self).canceled@.contains(chunk),
        ensures
            final(self).wf(),
            final(self).max == old(self).max,
            final(self).head == old(self).head,
            final(self).confirmed == old(self).confirmed,
            final(self).canceled@ == if chunk < old(self).head {
                old(self).canceled@.push(chunk)
            } else {
                old(self).canceled@
            },
    {
        if chunk < self.head {
            self.canceled.push(chunk);
        }
    }
}

/// Robots allowed on one quarry at a time.
pub const MAX_MINERS: usize = 42;

/// An endless strip mine: sweeps one sub-cube after another along `z`.
pub struct Mine {
    pub pos: Vec3,
    pub chunk: Vec3,
    /// Robots working this mine.
    pub miners: usize,
}

impl Mine {
    pub fn new(pos: Vec3, chunk: Vec3) -> (r: Self)
        ensures
            r.pos == pos,
            r.chunk == chunk,
            r.miners == 0,
    {
        Self { pos, chunk, miners: 0 }
    }

    /// What polling the mine yields: ready for one robot at a time.
    pub open spec fn spec_poll(self) -> TaskState {
        if self.miners < 1 {
            TaskState::Ready(Position { pos: self.pos, dir: Direction::North })
        } else {
            TaskState::Waiting
        }
    }

    pub fn poll(&self) -> (r: TaskState)
        ensures
            r == self.spec_poll(),
    {
        if self.miners < 1 {
            TaskState::Ready(Position { pos: self.pos, dir: Direction::North })
        } else {
            TaskState::Waiting
        }
    }
}

/// A quarry over a box: the box is cut into 4-cell sub-cubes, handed to
/// workers through a tracker.
pub struct Quarry {
    pub pos: Vec3,
    pub size: Vec3,
    /// Robots working this quarry.
    pub miners: usize,
    pub progress: ChunkedTask,
}

impl Quarry {
    /// The box is well-formed, its corner plus size stays in range, and
    /// the tracker covers exactly its sub-cubes.
    pub open spec fn wf(self) -> bool {
        &&& self.progress.wf()
        &&& 0 <= self.size.x && 0 <= self.size.y && 0 <= self.size.z
        &&& self.pos.x + self.size.x <= i32::MAX && self.pos.y + self.size.y <= i32::MAX
            && self.pos.z + self.size.z <= i32::MAX
        &&& self.progress.max == (self.size.x as int / 4) * (self.size.y as int / 4) * (
        self.size.z as int / 4)
    }

    /// A quarry over the box from `lower` (inclusive) to `upper`.
    pub fn new(lower: Vec3, upper: Vec3) -> (r: Self)
        requires
            lower.x <= upper.x,
            lower.y <= upper.y,
            lower.z <= upper.z,
            upper.x - lower.x <= i32::MAX,
            upper.y - lower.y <= i32::MAX,
            upper.z - lower.z <= i32::MAX,
            (((upper.x - lower.x) as int) / 4) * (((upper.y - lower.y) as int) / 4) <= i32::MAX,
            (((upper.x - lower.x) as int) / 4) * (((upper.y - lower.y) as int) / 4) * (((upper.z
                - lower.z) as int) / 4) <= i32::MAX,
        ensures
            r.wf(),
            r.pos == lower,
            r.size.x == upper.x - lower.x,
            r.size.y == upper.y - lower.y,
            r.size.z == upper.z - lower.z,
            r.miners == 0,
            r.progress.confirmed == 0 && r.progress.head == 0 && r.progress.canceled@.len() == 0,
    {
        let size = Vec3 { x: upper.x - lower.x, y: upper.y - lower.y, z: upper.z - lower.z };
        let ex: i32 = size.x / 4;
        let ey: i32 = size.y / 4;
        let ez: i32 = size.z / 4;
        proof {
            assert(ex == size.x as int / 4 && ey == size.y as int / 4 && ez == size.z as int / 4);
            assert(0 <= ex * ey && ex * ey <= (size.x as int / 4) * (size.y as int / 4))
                by (nonlinear_arith)
                requires
                    0 <= ex,
                    0 <= ey,
                    ex == size.x as int / 4,
                    ey == size.y as int / 4,
            ;
            assert(0 <= (ex * ey) * ez && (ex * ey) * ez == (size.x as int / 4) * (size.y as int
                / 4) * (size.z as int / 4)) by (nonlinear_arith)
                requires
                    0 <= ex * ey,
                    0 <= ez,
                    ex * ey == (size.x as int / 4) * (size.y as int / 4),
                    ez == size.z as int / 4,
            ;
        }
        let parts: i32 = (ex * ey) * ez;
        Self { pos: lower, size, miners: 0, progress: ChunkedTask::new(parts) }
    }

    /// The 16-cell-aligned quarry that covers the given cell.
    pub fn chunk(pos: Vec3) -> (r: Self)
        requires
            pos.x <= i32::MAX - 16,
            pos.y <= i32::MAX - 16,
            pos.z <= i32::MAX - 16,
        ensures
            r.wf(),
            r.size == (Vec3 { x: 16, y: 16, z: 16 }),
            r.miners == 0,
    {
        let base = Vec3 { x: pos.x - pos.x % 16, y: pos.y - pos.y % 16, z: pos.z - pos.z % 16 };
        proof {
            assert((16int) / 4 == 4);
        }
        Self::new(base, Vec3 { x: base.x + 16, y: base.y + 16, z: base.z + 16 })
    }

    /// What polling the quarry yields: complete when the tracker is
    /// done, waiting while everything is allocated or the miner cap is
    /// reached, and otherwise ready, counting the miner in.
    pub open spec fn spec_poll(self) -> TaskState {
        if self.progress.confirmed + 1 >= self.progress.max {
            TaskState::Complete
        } else if self.progress.head + 1 >= self.progress.max && self.progress.canceled@.len()
            == 0 {
            TaskState::Waiting
        } else if self.miners < MAX_MINERS {
            TaskState::Ready(Position { pos: self.pos, dir: Direction::North })
        } else {
            TaskState::Waiting
        }
    }

    /// The task state after one poll: a ready poll admits one miner.
    pub open spec fn spec_poll_next(self) -> Quarry {
        if self.spec_poll() is Ready {
            Quarry { miners: (self.miners + 1) as usize, ..self }
        } else {
            self
        }
    }

    pub fn poll(&mut self) -> (r: TaskState)
        requires
            old(self).wf(),
        ensures
            final(self).wf(),
            r == old(self).spec_poll(),
            *final(self) == old(self).spec_poll_next(),
    {
        if self.progress.done() {
            return TaskState::Complete;
        }
        if self.progress.allocated() {
            return TaskState::Waiting;
        }
        if self.miners < MAX_MINERS {
            self.miners = self.miners + 1;
            return TaskState::Ready(Position { pos: self.pos, dir: Direction::North });
        }
        TaskState::Waiting
    }

    /// One worker leaves the quarry.
    pub fn worker_done(&mut self)
        requires
            old(self).wf(),
        ensures
            final(self).wf(),
            final(self).miners == if old(self).miners > 0 {
                (old(self).miners - 1) as usize
            } else {
                0usize
            },
            final(self).pos == old(self).pos,
            final(self).size == old(self).size,
            final(self).progress == old(self).progress,
    {
        if self.miners > 0 {
            self.miners = self.miners - 1;
        }
    }

    /// Draw the next sub-cube to mine: its tracker index and the cell at
    /// its lower corner. `None` when every sub-cube is out or done.
    pub fn next_assignment(&mut self) -> (r: Option<(i32, Vec3)>)
        requires
            old(self).wf(),
        ensures
            final(self).wf(),
            final(self).pos == old(self).pos,
            final(self).size == old(self).size,
            final(self).miners == old(self).miners,
            match r {
                Some((c, corner)) => {
                    &&& 0 <= c < old(self).progress.max
                    &&& corner.x == old(self).pos.x + 4 * spec_fill(
                        Vec3 {
                            x: (old(self).size.x as int / 4) as i32,
                            y: (old(self).size.y as int / 4) as i32,
                            z: (old(self).size.z as int / 4) as i32,
                        },
                        c as int,
                    ).x
                    &&& corner.y == old(self).pos.y + 4 * spec_fill(
                        Vec3 {
                            x: (old(self).size.x as int / 4) as i32,
                            y: (old(self).size.y as int / 4) as i32,
                            z: (old(self).size.z as int / 4) as i32,
                        },
                        c as int,
                    ).y
                    &&& corner.z == old(self).pos.z + 4 * spec_fill(
                        Vec3 {
                            x: (old(self).size.x as int / 4) as i32,
                            y: (old(self).size.y as int / 4) as i32,
                            z: (old(self).size.z as int / 4) as i32,
                        },
                        c as int,
                    ).z
                },
                None => true,
            },
    {
        let c: i32 = match self.progress.next_chunk() {
            Some(c) => c,
            None => {
                return None;
            },
        };
        let ex: i32 = self.size.x / 4;
        let ey: i32 = self.size.y / 4;
        let ez: i32 = self.size.z / 4;
        proof {
            assert(ex * ey * ez == self.progress.max);
            assert(1 <= ex && 1 <= ey && 1 <= ez) by (nonlinear_arith)
                requires
                    0 <= ex,
                    0 <= ey,
                    0 <= ez,
                    ex * ey * ez >= 1,
            ;
        }
        let e = Vec3 { x: ex, y: ey, z: ez };
        proof {
            assert(c < ex * ey * ez);
        }
        let rel = fill(e, c);
        proof {
            assert(4 * rel.x < 4 * ex && 4 * ex <= self.size.x) by (nonlinear_arith)
                requires
                    rel.x < ex,
                    ex == self.size.x as int / 4,
                    0 <= self.size.x,
            ;
            assert(4 * rel.y < 4 * ey && 4 * ey <= self.size.y) by (nonlinear_arith)
                requires
                    rel.y < ey,
                    ey == self.size.y as int / 4,
                    0 <= self.size.y,
            ;
            assert(4 * rel.z < 4 * ez && 4 * ez <= self.size.z) by (nonlinear_arith)
                requires
                    rel.z < ez,
                    ez == self.size.z as int / 4,
                    0 <= self.size.z,
            ;
        }
        let corner = Vec3 {
            x: self.pos.x + 4 * rel.x,
            y: self.pos.y + 4 * rel.y,
            z: self.pos.z + 4 * rel.z,
        };
        Some((c, corner))
    }
}

/// A flood-fill removal of every block around a seed whose name holds a
/// given fragment.
pub struct Remove {
    pub start: Vec3,
    /// The name fragment that marks a block for removal.
    pub block: String,
    pub miners: usize,
    pub done: bool,
    /// Cells waiting to be visited, most recent last.
    pub pending: Vec<Vec3>,
}

impl Remove {
    pub fn new(start: Vec3, block: String) -> (r: Self)
        ensures
            r.start == start,
            r.block@ == block@,
            r.miners == 0,
            !r.done,
            r.pending@.len() == 0,
    {
        Self { start, block, miners: 0, done: false, pending: Vec::new() }
    }

    /// What polling the removal yields.
    pub open spec fn spec_poll(self) -> TaskState {
        if self.done {
            TaskState::Complete
        } else if self.miners < 1 {
            TaskState::Ready(Position { pos: self.start, dir: Direction::North })
        } else {
            TaskState::Waiting
        }
    }

    pub fn poll(&self) -> (r: TaskState)
        ensures
            r == self.spec_poll(),
    {
        if self.done {
            TaskState::Complete
        } else if self.miners < 1 {
            TaskState::Ready(Position { pos: self.start, dir: Direction::North })
        } else {
            TaskState::Waiting
        }
    }

    /// Whether the cell is known to hold a wanted block; unknown where
    /// the world has nothing recorded.
    pub fn wanted(&self, world: &World, pos: Vec3) -> (r: Option<bool>)
        requires
            world.wf(),
        ensures
            match r {
                Some(b) => world@.contains_key(pos) && b == spec_contains(
                    world@[pos],
                    self.block@,
                ),
                None => !world@.contains_key(pos),
            },
    {
        match world.get(pos) {
            Some(b) => Some(string_contains(b.name.as_str(), self.block.as_str())),
            None => None,
        }
    }

    /// Queue the seed cell where it is wanted or still unseen.
    pub fn seed(&mut self, world: &World)
        requires
            world.wf(),
        ensures
            final(self).pending@ == if !world@.contains_key(old(self).start) || spec_contains(
                world@[old(self).start],
                old(self).block@,
            ) {
                old(self).pending@.push(old(self).start)
            } else {
                old(self).pending@
            },
            final(self).start == old(self).start,
            final(self).block == old(self).block,
            final(self).miners == old(self).miners,
            final(self).done == old(self).done,
    {
        let start = self.start;
        let push: bool = match self.wanted(world, start) {
            Some(b) => b,
            None => true,
        };
        if push {
            self.pending.push(start);
        }
    }

    /// Whether a cell of the frontier is dropped unvisited: it is known
    /// and its name lacks the wanted fragment.
    pub open spec fn spec_rejected(self, w: Map<Vec3, Seq<char>>, cell: Vec3) -> bool {
        w.contains_key(cell) && !spec_contains(w[cell], self.block@)
    }

    /// Pop cells from the newest end until one is wanted or unseen: the
    /// next cell to visit, with everything older still pending; `None`
    /// only once every popped cell proved known and unwanted and the
    /// frontier is empty.
    pub fn next_target(&mut self, world: &World) -> (r: Option<Vec3>)
        requires
            world.wf(),
        ensures
            final(self).start == old(self).start,
            final(self).block == old(self).block,
            final(self).miners == old(self).miners,
            final(self).done == old(self).done,
            match r {
                Some(cell) => exists|i: int|
                    {
                        &&& 0 <= i < old(self).pending@.len()
                        &&& cell == old(self).pending@[i]
                        &&& final(self).pending@ == old(self).pending@.take(i)
                        &&& !old(self).spec_rejected(world@, cell)
                        &&& forall|k: int|
                            i < k < old(self).pending@.len() ==> old(self).spec_rejected(
                                world@,
                                #[trigger] old(self).pending@[k],
                            )
                    },
                None => {
                    &&& final(self).pending@.len() == 0
                    &&& forall|k: int|
                        0 <= k < old(self).pending@.len() ==> old(self).spec_rejected(
                            world@,
                            #[trigger] old(self).pending@[k],
                        )
                },
            },
    {
        loop
            invariant
                world.wf(),
                self.start == old(self).start,
                self.block == old(self).block,
                self.miners == old(self).miners,
                self.done == old(self).done,
                self.pending@.len() <= old(self).pending@.len(),
                self.pending@ == old(self).pending@.take(self.pending@.len() as int),
                forall|k: int|
                    self.pending@.len() <= k < old(self).pending@.len() ==> old(
                        self,
                    ).spec_rejected(world@, #[trigger] old(self).pending@[k]),
            decreases self.pending@.len(),
        {
            match self.pending.pop() {
                Some(cell) => {
                    proof {
                        assert(cell == old(self).pending@[self.pending@.len() as int]);
                        assert(self.pending@ =~= old(self).pending@.take(
                            self.pending@.len() as int,
                        ));
                    }
                    let keep: bool = match self.wanted(world, cell) {
                        Some(b) => b,
                        None => true,
                    };
                    if keep {
                        return Some(cell);
                    }
                },
                None => {
                    return None;
                },
            }
        }
    }

    /// Mark the whole removal finished: the next poll reports complete.
    pub fn mark_done(&mut self)
        ensures
            *final(self) == (Remove { done: true, ..*old(self) }),
    {
        self.done = true;
    }

    /// One worker leaves the removal.
    pub fn worker_done(&mut self)
        ensures
            final(self).miners == if old(self).miners > 0 {
                (old(self).miners - 1) as usize
            } else {
                0usize
            },
            final(self).start == old(self).start,
            final(self).block == old(self).block,
            final(self).done == old(self).done,
            final(self).pending == old(self).pending,
    {
        if self.miners > 0 {
            self.miners = self.miners - 1;
        }
    }

    /// Queue the six face neighbors of a visited cell; they are checked
    /// again when popped.
    pub fn enqueue_neighbors(&mut self, cell: Vec3)
        requires
            i32::MIN < cell.x < i32::MAX,
            i32::MIN < cell.y < i32::MAX,
            i32::MIN < cell.z < i32::MAX,
        ensures
            final(self).pending@.len() == old(self).pending@.len() + 6,
            final(self).start == old(self).start,
            final(self).block == old(self).block,
            final(self).miners == old(self).miners,
            final(self).done == old(self).done,
            forall|k: int|
                0 <= k < old(self).pending@.len() ==> final(self).pending@[k] == old(self).pending@[k],
            forall|k: int|
                old(self).pending@.len() <= k < final(self).pending@.len() ==> l1(
                    final(self).pending@[k],
                    cell,
                ) == 1,
    {
        self.pending.push(Vec3 { x: cell.x + 1, y: cell.y, z: cell.z });
        self.pending.push(Vec3 { x: cell.x - 1, y: cell.y, z: cell.z });
        self.pending.push(Vec3 { x: cell.x, y: cell.y + 1, z: cell.z });
        self.pending.push(Vec3 { x: cell.x, y: cell.y - 1, z: cell.z });
        self.pending.push(Vec3 { x: cell.x, y: cell.y, z: cell.z + 1 });
        self.pending.push(Vec3 { x: cell.x, y: cell.y, z: cell.z - 1 });
    }
}


/// Block names not worth hauling home: a mined slot holding one of
/// these is emptied in the field.
pub open spec fn spec_useless(name: Seq<char>) -> bool {
    ||| name == "minecraft:dirt"@
    ||| name == "minecraft:gravel"@
    ||| name == "minecraft:cobblestone"@
    ||| name == "minecraft:cobbled_deepslate"@
    ||| name == "minecraft:rhyolite"@
}

/// Whether the named item is in the not-worth-hauling set.
pub fn name_useless(name: &str) -> (r: bool)
    ensures
        r == spec_useless(name@),
{
    crate::strings::str_eq(name, "minecraft:dirt") || crate::strings::str_eq(
        name,
        "minecraft:gravel",
    ) || crate::strings::str_eq(name, "minecraft:cobblestone") || crate::strings::str_eq(
        name,
        "minecraft:cobbled_deepslate",
    ) || crate::strings::str_eq(name, "minecraft:rhyolite")
}

/// How many slots of the inventory hold something not in the
/// not-worth-hauling set.
pub open spec fn spec_kept_count(inv: Seq<Option<InventorySlot>>) -> int
    decreases inv.len(),
{
    if inv.len() == 0 {
        0
    } else {
        spec_kept_count(inv.drop_last()) + if inv.last() is Some && !spec_useless(
            inv.last()->0.name@,
        ) {
            1int
        } else {
            0int
        }
    }
}

/// The 1-based slots holding items to leave in the field -- all of
/// them -- and how many slots stay full afterwards: the storage check
/// that sends a miner to a depot when it exceeds a dozen.
pub fn useless_slots(inventory: &Vec<Option<InventorySlot>>) -> (r: (Vec<u32>, u32))
    requires
        inventory@.len() <= 16,
    ensures
        forall|k: int|
            0 <= k < r.0@.len() ==> {
                &&& 1 <= #[trigger] r.0@[k] <= inventory@.len()
                &&& inventory@[r.0@[k] - 1] is Some
                &&& spec_useless(inventory@[r.0@[k] - 1]->0.name@)
            },
        forall|j: int|
            0 <= j < inventory@.len() && inventory@[j] is Some && spec_useless(
                inventory@[j]->0.name@,
            ) ==> r.0@.contains((j + 1) as u32),
        r.1 == spec_kept_count(inventory@),
{
    let mut drop_list: Vec<u32> = Vec::new();
    let mut kept: u32 = 0;
    let mut i: usize = 0;
    while i < inventory.len()
        invariant
            inventory@.len() <= 16,
            i <= inventory@.len(),
            kept <= i,
            kept == spec_kept_count(inventory@.take(i as int)),
            forall|k: int|
                0 <= k < drop_list@.len() ==> {
                    &&& 1 <= #[trigger] drop_list@[k] <= inventory@.len()
                    &&& inventory@[drop_list@[k] - 1] is Some
                    &&& spec_useless(inventory@[drop_list@[k] - 1]->0.name@)
                },
            forall|j: int|
                0 <= j < i && inventory@[j] is Some && spec_useless(inventory@[j]->0.name@)
                    ==> drop_list@.contains((j + 1) as u32),
        decreases inventory@.len() - i,
    {
        let ghost pre = drop_list@;
        proof {
            assert(inventory@.take(i + 1).drop_last() =~= inventory@.take(i as int));
            assert(inventory@.take(i + 1).last() == inventory@[i as int]);
        }
        match &inventory[i] {
            Some(slot) => {
                if name_useless(slot.name.as_str()) {
                    drop_list.push((i as u32) + 1);
                } else {
                    kept = kept + 1;
                }
            },
            None => {},
        }
        proof {
            assert forall|j: int|
                0 <= j < i + 1 && inventory@[j] is Some && spec_useless(
                    inventory@[j]->0.name@,
                ) implies drop_list@.contains((j + 1) as u32) by {
                crate::seqs::lemma_push_keeps_contains(pre, (i + 1) as u32, (j + 1) as u32);
            }
        }
        i = i + 1;
    }
    proof {
        assert(inventory@.take(inventory@.len() as int) =~= inventory@);
    }
    (drop_list, kept)
}

/// The `n`-th cell of the ore scan around a sub-cube at `pos`: the
/// serpentine walk of the doubled box, shifted back by half the box.
pub open spec fn spec_scan_cell(pos: Vec3, chunk: Vec3, n: int) -> Vec3 {
    let rel = spec_fill(
        Vec3 { x: (2 * chunk.x) as i32, y: (2 * chunk.y) as i32, z: (2 * chunk.z) as i32 },
        n,
    );
    Vec3 {
        x: (pos.x + rel.x - chunk.x as int / 2) as i32,
        y: (pos.y + rel.y - chunk.y as int / 2) as i32,
        z: (pos.z + rel.z - chunk.z as int / 2) as i32,
    }
}

/// Whether the world records an ore worth sweeping at the cell: a known
/// name that carries the ore fragment and is not air.
pub open spec fn spec_valuable(w: Map<Vec3, Seq<char>>, cell: Vec3) -> bool {
    &&& w.contains_key(cell)
    &&& crate::strings::spec_contains(w[cell], "ore"@)
    &&& w[cell] != "minecraft:air"@
}

/// The known ore cells near a mined sub-cube: every cell of the doubled
/// box around it whose recorded name carries the ore fragment and is
/// not air, in scan order. These are swept after the sub-cube itself.
pub fn near_valuables(world: &World, pos: Vec3, chunk: Vec3) -> (r: Vec<Vec3>)
    requires
        world.wf(),
        1 <= chunk.x <= 32,
        1 <= chunk.y <= 32,
        1 <= chunk.z <= 32,
        i32::MIN + 64 <= pos.x <= i32::MAX - 64,
        i32::MIN + 64 <= pos.y <= i32::MAX - 64,
        i32::MIN + 64 <= pos.z <= i32::MAX - 64,
    ensures
        forall|k: int|
            0 <= k < r@.len() ==> spec_valuable(world@, #[trigger] r@[k]),
        forall|n: int|
            0 <= n < (2 * chunk.x) * (2 * chunk.y) * (2 * chunk.z) && spec_valuable(
                world@,
                #[trigger] spec_scan_cell(pos, chunk, n),
            ) ==> r@.contains(spec_scan_cell(pos, chunk, n)),
{
    let double = Vec3 { x: 2 * chunk.x, y: 2 * chunk.y, z: 2 * chunk.z };
    proof {
        assert(1 <= double.x * double.y && double.x * double.y <= 64 * 64 && 1 <= double.x
            * double.y * double.z && double.x * double.y * double.z <= 64 * 64 * 64)
            by (nonlinear_arith)
            requires
                2 <= double.x <= 64,
                2 <= double.y <= 64,
                2 <= double.z <= 64,
        ;
    }
    let volume: i32 = double.x * double.y * double.z;
    let mut out: Vec<Vec3> = Vec::new();
    let mut n: i32 = 0;
    while n < volume
        invariant
            world.wf(),
            1 <= chunk.x <= 32,
            1 <= chunk.y <= 32,
            1 <= chunk.z <= 32,
            i32::MIN + 64 <= pos.x <= i32::MAX - 64,
            i32::MIN + 64 <= pos.y <= i32::MAX - 64,
            i32::MIN + 64 <= pos.z <= i32::MAX - 64,
            double == (Vec3 { x: (2 * chunk.x) as i32, y: (2 * chunk.y) as i32, z: (2
                * chunk.z) as i32 }),
            volume == double.x * double.y * double.z,
            volume <= 64 * 64 * 64,
            0 <= n <= volume,
            forall|k: int| 0 <= k < out@.len() ==> spec_valuable(world@, #[trigger] out@[k]),
            forall|m: int|
                0 <= m < n && spec_valuable(world@, #[trigger] spec_scan_cell(pos, chunk, m))
                    ==> out@.contains(spec_scan_cell(pos, chunk, m)),
        decreases volume - n,
    {
        let rel = fill(double, n);
        let cell = Vec3 {
            x: pos.x + rel.x - chunk.x / 2,
            y: pos.y + rel.y - chunk.y / 2,
            z: pos.z + rel.z - chunk.z / 2,
        };
        proof {
            assert(cell == spec_scan_cell(pos, chunk, n as int));
        }
        let ghost pre = out@;
        let hit: bool = match world.get(cell) {
            Some(b) => !crate::strings::str_eq(b.name.as_str(), "minecraft:air")
                && string_contains(b.name.as_str(), "ore"),
            None => false,
        };
        if hit {
            out.push(cell);
        }
        proof {
            assert forall|m: int|
                0 <= m < n + 1 && spec_valuable(
                    world@,
                    #[trigger] spec_scan_cell(pos, chunk, m),
                ) implies out@.contains(spec_scan_cell(pos, chunk, m)) by {
                if m < n {
                    crate::seqs::lemma_push_keeps_contains(pre, cell, spec_scan_cell(pos, chunk, m));
                } else {
                    crate::seqs::lemma_push_keeps_contains(pre, cell, cell);
                }
            }
        }
        n = n + 1;
    }
    out
}

/// The cells of one sub-cube to mine, in serpentine order from its
/// corner: successive cells stay adjacent, so a robot walks them without
/// long detours.
pub fn mine_chunk_targets(pos: Vec3, chunk: Vec3) -> (r: Vec<Vec3>)
    requires
        1 <= chunk.x <= 64,
        1 <= chunk.y <= 64,
        1 <= chunk.z <= 64,
        pos.x + chunk.x <= i32::MAX,
        pos.y + chunk.y <= i32::MAX,
        pos.z + chunk.z <= i32::MAX,
    ensures
        r@.len() == chunk.x * chunk.y * chunk.z,
        forall|n: int|
            0 <= n < r@.len() ==> {
                &&& (#[trigger] r@[n]).x == pos.x + spec_fill(chunk, n).x
                &&& r@[n].y == pos.y + spec_fill(chunk, n).y
                &&& r@[n].z == pos.z + spec_fill(chunk, n).z
            },
{
    proof {
        assert(1 <= chunk.x * chunk.y && chunk.x * chunk.y <= 64 * 64 && 1 <= chunk.x * chunk.y
            * chunk.z && chunk.x * chunk.y * chunk.z <= 64 * 64 * 64) by (nonlinear_arith)
            requires
                1 <= chunk.x <= 64,
                1 <= chunk.y <= 64,
                1 <= chunk.z <= 64,
        ;
    }
    let volume: i32 = chunk.x * chunk.y * chunk.z;
    let mut out: Vec<Vec3> = Vec::new();
    let mut n: i32 = 0;
    while n < volume
        invariant
            1 <= chunk.x <= 64,
            1 <= chunk.y <= 64,
            1 <= chunk.z <= 64,
            pos.x + chunk.x <= i32::MAX,
            pos.y + chunk.y <= i32::MAX,
            pos.z + chunk.z <= i32::MAX,
            volume == chunk.x * chunk.y * chunk.z,
            0 <= n <= volume,
            out@.len() == n,
            forall|m: int|
                0 <= m < out@.len() ==> {
                    &&& (#[trigger] out@[m]).x == pos.x + spec_fill(chunk, m).x
                    &&& out@[m].y == pos.y + spec_fill(chunk, m).y
                    &&& out@[m].z == pos.z + spec_fill(chunk, m).z
                },
        decreases volume - n,
    {
        let rel = fill(chunk, n);
        out.push(Vec3 { x: pos.x + rel.x, y: pos.y + rel.y, z: pos.z + rel.z });
        n = n + 1;
    }
    out
}

/// The inventory slots, 1-based, holding an item whose name carries the
/// given fragment -- all of them: the slots `devore` sends to a depot,
/// and the slots a dump filter empties.
pub fn slots_matching(inventory: &Vec<Option<InventorySlot>>, fragment: &str) -> (r: Vec<u32>)
    requires
        inventory@.len() <= 16,
    ensures
        forall|k: int|
            0 <= k < r@.len() ==> {
                &&& 1 <= #[trigger] r@[k] <= inventory@.len()
                &&& inventory@[r@[k] - 1] is Some
                &&& spec_contains(inventory@[r@[k] - 1]->0.name@, fragment@)
            },
        forall|j: int|
            0 <= j < inventory@.len() && inventory@[j] is Some && spec_contains(
                inventory@[j]->0.name@,
                fragment@,
            ) ==> r@.contains((j + 1) as u32),
{
    let mut out: Vec<u32> = Vec::new();
    let mut i: usize = 0;
    while i < inventory.len()
        invariant
            inventory@.len() <= 16,
            i <= inventory@.len(),
            forall|k: int|
                0 <= k < out@.len() ==> {
                    &&& 1 <= #[trigger] out@[k] <= inventory@.len()
                    &&& inventory@[out@[k] - 1] is Some
                    &&& spec_contains(inventory@[out@[k] - 1]->0.name@, fragment@)
                },
            forall|j: int|
                0 <= j < i && inventory@[j] is Some && spec_contains(
                    inventory@[j]->0.name@,
                    fragment@,
                ) ==> out@.contains((j + 1) as u32),
        decreases inventory@.len() - i,
    {
        let ghost pre = out@;
        match &inventory[i] {
            Some(slot) => {
                if string_contains(slot.name.as_str(), fragment) {
                    out.push((i as u32) + 1);
                }
            },
            None => {},
        }
        proof {
            assert forall|j: int|
                0 <= j < i + 1 && inventory@[j] is Some && spec_contains(
                    inventory@[j]->0.name@,
                    fragment@,
                ) implies out@.contains((j + 1) as u32) by {
                crate::seqs::lemma_push_keeps_contains(pre, (i + 1) as u32, (j + 1) as u32);
            }
        }
        i = i + 1;
    }
    out
}

} // verus!

//! The task interface and the scheduler: polling the job list and
//! assigning ready jobs to the nearest free robot, with a cooperative
//! shutdown latch.
use vstd::prelude::*;

use crate::blocks::{l1, Position};
use crate::construct::BuildSimple;
use crate::fell::TreeFarm;
use crate::mine::{Mine, Quarry, Remove};
use crate::names::Name;

verus! {

/// What polling a task yields: ready for another worker near the given
/// pose, not now, or finished for good.
#[derive(Clone, Copy, PartialEq, Eq, Structural, Debug)]
pub enum TaskState {
    Ready(Position),
    Waiting,
    Complete,
}

/// The pose a ready poll asks a robot near.
pub open spec fn ready_hint(st: TaskState) -> Option<Position> {
    match st {
        TaskState::Ready(p) => Some(p),
        _ => None,
    }
}

/// A one-shot errand: send a robot to a pose.
pub struct Goto {
    pub position: Position,
    pub done: bool,
}

impl Goto {
    pub fn new(position: Position) -> (r: Self)
        ensures
            r.position == position,
            !r.done,
    {
        Self { position, done: false }
    }

    /// What polling the errand yields: ready until a robot takes it.
    pub open spec fn spec_poll(self) -> TaskState {
        if self.done {
            TaskState::Complete
        } else {
            TaskState::Ready(self.position)
        }
    }

    pub fn poll(&self) -> (r: TaskState)
        ensures
            r == self.spec_poll(),
    {
        if self.done {
            TaskState::Complete
        } else {
            TaskState::Ready(self.position)
        }
    }
}

/// One job the scheduler can hold: the discriminated sum of the
/// concrete tasks.
pub enum TaskKind {
    Mine(Mine),
    Quarry(Quarry),
    Remove(Remove),
    TreeFarm(TreeFarm),
    BuildSimple(BuildSimple),
    Goto(Goto),
}

impl TaskKind {
    pub open spec fn wf(self) -> bool {
        match self {
            TaskKind::Mine(_) => true,
            TaskKind::Quarry(q) => q.wf(),
            TaskKind::Remove(_) => true,
            TaskKind::TreeFarm(f) => f.wf(),
            TaskKind::BuildSimple(b) => b.wf(),
            TaskKind::Goto(_) => true,
        }
    }

    /// What polling the task at time `now` (whole seconds) yields.
    pub open spec fn spec_poll(self, now: i64) -> TaskState {
        match self {
            TaskKind::Mine(m) => m.spec_poll(),
            TaskKind::Quarry(q) => q.spec_poll(),
            TaskKind::Remove(r) => r.spec_poll(),
            TaskKind::TreeFarm(f) => f.spec_poll(now),
            TaskKind::BuildSimple(b) => b.spec_poll(),
            TaskKind::Goto(g) => g.spec_poll(),
        }
    }

    /// The task after one poll: some tasks count a worker in or restart
    /// a clock as they turn ready.
    pub open spec fn spec_poll_next(self, now: i64) -> TaskKind {
        match self {
            TaskKind::Quarry(q) => TaskKind::Quarry(q.spec_poll_next()),
            TaskKind::TreeFarm(f) => TaskKind::TreeFarm(f.spec_poll_next(now)),
            TaskKind::BuildSimple(b) => TaskKind::BuildSimple(b.spec_poll_next()),
            _ => self,
        }
    }

    pub fn poll(&mut self, now: i64) -> (r: TaskState)
        requires
            old(self).wf(),
        ensures
            final(self).wf(),
            r == old(self).spec_poll(now),
            *final(self) == old(self).spec_poll_next(now),
    {
        match self {
            TaskKind::Mine(m) => m.poll(),
            TaskKind::Quarry(q) => q.poll(),
            TaskKind::Remove(r) => r.poll(),
            TaskKind::TreeFarm(f) => f.poll(now),
            TaskKind::BuildSimple(b) => b.poll(),
            TaskKind::Goto(g) => g.poll(),
        }
    }

    /// The task once a worker starts on it: counting the worker in, or
    /// marking a one-shot errand taken.
    pub open spec fn spec_begin_run(self) -> TaskKind {
        match self {
            TaskKind::Mine(m) => TaskKind::Mine(
                Mine {
                    miners: if m.miners < usize::MAX {
                        (m.miners + 1) as usize
                    } else {
                        m.miners
                    },
                    ..m
                },
            ),
            TaskKind::Remove(r) => TaskKind::Remove(
                Remove {
                    miners: if r.miners < usize::MAX {
                        (r.miners + 1) as usize
                    } else {
                        r.miners
                    },
                    ..r
                },
            ),
            TaskKind::Goto(g) => TaskKind::Goto(Goto { done: true, ..g }),
            _ => self,
        }
    }

    /// A worker starts on the task.
    pub fn begin_run(&mut self)
        requires
            old(self).wf(),
        ensures
            final(self).wf(),
            *final(self) == old(self).spec_begin_run(),
    {
        match self {
            TaskKind::Mine(m) => {
                if m.miners < usize::MAX {
                    m.miners = m.miners + 1;
                }
            },
            TaskKind::Remove(r) => {
                if r.miners < usize::MAX {
                    r.miners = r.miners + 1;
                }
            },
            TaskKind::Goto(g) => {
                g.done = true;
            },
            _ => {},
        }
    }
}

/// One robot slot of the scheduler: its name and whether a task is
/// running on it.
pub struct RobotSlot {
    pub name: Name,
    /// Whether a task handle occupies the slot.
    pub busy: bool,
}

/// The scheduler: registered robots, the ordered job list, and the
/// shutdown latch.
pub struct Scheduler {
    pub turtles: Vec<RobotSlot>,
    pub tasks: Vec<TaskKind>,
    /// Whether a shutdown was requested and its completion signal not
    /// yet fired.
    pub shutdown: bool,
}

/// Whether robot `j` is free once finished handles are reaped.
pub open spec fn spec_free0(turtles: Seq<RobotSlot>, finished: Seq<bool>, j: int) -> bool {
    !turtles[j].busy || finished[j]
}

/// Whether an earlier assignment of this cycle took robot `j`.
pub open spec fn robot_taken(assigned: Seq<(usize, usize)>, upto: int, j: int) -> bool {
    exists|m: int| 0 <= m < upto && (#[trigger] assigned[m]).0 == j
}

/// The first registered slot bearing the name, scanning from index `i`.
pub open spec fn first_named_from(turtles: Seq<RobotSlot>, name: Name, i: int) -> Option<int>
    decreases turtles.len() - i,
{
    if !(0 <= i < turtles.len()) {
        None
    } else if turtles[i].name == name {
        Some(i)
    } else {
        first_named_from(turtles, name, i + 1)
    }
}

/// Whether the cycle assigned task `t` to some robot.
pub open spec fn task_assigned(assigned: Seq<(usize, usize)>, t: int) -> bool {
    exists|k: int| 0 <= k < assigned.len() && (#[trigger] assigned[k]).1 == t
}

/// One assignment of a cycle holds up: the robot exists, was free after
/// reaping and not yet taken by an earlier assignment, the task polled
/// ready, and no other robot still free at that moment sat closer to
/// the task's hint.
#[verifier::opaque]
pub open spec fn assignment_ok(
    a: Seq<(usize, usize)>,
    k: int,
    tasks0: Seq<TaskKind>,
    turtles0: Seq<RobotSlot>,
    finished: Seq<bool>,
    positions: Seq<Position>,
    now: i64,
) -> bool {
    let rj = a[k].0;
    let tk = a[k].1;
    &&& (rj as int) < turtles0.len()
    &&& (tk as int) < tasks0.len()
    &&& spec_free0(turtles0, finished, rj as int)
    &&& !robot_taken(a, k, rj as int)
    &&& ready_hint(tasks0[tk as int].spec_poll(now)) is Some
    &&& forall|j: int|
        0 <= j < turtles0.len() && spec_free0(turtles0, finished, j) && !robot_taken(a, k, j)
            ==> l1(
            positions[rj as int].pos,
            ready_hint(tasks0[tk as int].spec_poll(now))->0.pos,
        ) <= l1((#[trigger] positions[j]).pos, ready_hint(tasks0[tk as int].spec_poll(now))->0.pos)
}

/// Every assignment of the cycle holds up.
#[verifier::opaque]
pub open spec fn assignments_ok(
    a: Seq<(usize, usize)>,
    tasks0: Seq<TaskKind>,
    turtles0: Seq<RobotSlot>,
    finished: Seq<bool>,
    positions: Seq<Position>,
    now: i64,
) -> bool {
    forall|k: int|
        0 <= k < a.len() ==> #[trigger] assignment_ok(a, k, tasks0, turtles0, finished, positions, now)
}

/// Whether some polled task answered ready and was left without a
/// robot: what the cycle's starvation flag reports.
#[verifier::opaque]
pub open spec fn unserved_ready(
    a: Seq<(usize, usize)>,
    polled: int,
    tasks0: Seq<TaskKind>,
    now: i64,
) -> bool {
    exists|t: int|
        0 <= t < polled && (#[trigger] ready_hint(tasks0[t].spec_poll(now))) is Some
            && !task_assigned(a, t)
}

/// Polling a task that did not answer ready leaves the starvation
/// record where it was.
proof fn lemma_unserved_unready(a: Seq<(usize, usize)>, polled: int, tasks0: Seq<TaskKind>, now: i64)
    requires
        0 <= polled < tasks0.len(),
        ready_hint(tasks0[polled].spec_poll(now)) is None,
    ensures
        unserved_ready(a, polled + 1, tasks0, now) == unserved_ready(a, polled, tasks0, now),
{
    reveal(unserved_ready);
    if unserved_ready(a, polled + 1, tasks0, now) {
        let t = choose|t: int|
            0 <= t < polled + 1 && (#[trigger] ready_hint(tasks0[t].spec_poll(now))) is Some
                && !task_assigned(a, t);
        assert(t < polled);
        assert(unserved_ready(a, polled, tasks0, now));
    }
}

/// A ready task that found no free robot is on the starvation record
/// from here on.
proof fn lemma_unserved_starved(
    a: Seq<(usize, usize)>,
    polled: int,
    tasks0: Seq<TaskKind>,
    now: i64,
)
    requires
        0 <= polled < tasks0.len(),
        ready_hint(tasks0[polled].spec_poll(now)) is Some,
        !task_assigned(a, polled),
    ensures
        unserved_ready(a, polled + 1, tasks0, now),
{
    reveal(unserved_ready);
}

/// Assigning the polled, ready task to a robot leaves the starvation
/// record where it was.
proof fn lemma_unserved_assigned(
    a: Seq<(usize, usize)>,
    polled: usize,
    rj: usize,
    tasks0: Seq<TaskKind>,
    now: i64,
)
    requires
        polled < tasks0.len(),
        forall|k: int| 0 <= k < a.len() ==> (#[trigger] a[k]).1 < polled,
    ensures
        task_assigned(a.push((rj, polled)), polled as int),
        unserved_ready(a.push((rj, polled)), polled + 1, tasks0, now) == unserved_ready(
            a,
            polled as int,
            tasks0,
            now,
        ),
{
    reveal(unserved_ready);
    let b = a.push((rj, polled));
    let kb = a.len() as int;
    assert(task_assigned(b, polled as int)) by {
        assert(b[kb].1 == polled);
    }
    assert forall|t: int| 0 <= t < polled implies #[trigger] task_assigned(b, t) == task_assigned(
        a,
        t,
    ) by {
        if task_assigned(b, t) {
            let w = choose|w: int| 0 <= w < b.len() && (#[trigger] b[w]).1 == t;
            assert(w < kb);
            assert(a[w].1 == t);
        }
        if task_assigned(a, t) {
            let w = choose|w: int| 0 <= w < a.len() && (#[trigger] a[w]).1 == t;
            assert(b[w].1 == t);
        }
    }
    if unserved_ready(b, polled + 1, tasks0, now) {
        let t = choose|t: int|
            0 <= t < polled + 1 && (#[trigger] ready_hint(tasks0[t].spec_poll(now))) is Some
                && !task_assigned(b, t);
        assert(t < polled);
        assert(unserved_ready(a, polled as int, tasks0, now));
    }
    if unserved_ready(a, polled as int, tasks0, now) {
        let t = choose|t: int|
            0 <= t < polled && (#[trigger] ready_hint(tasks0[t].spec_poll(now))) is Some
                && !task_assigned(a, t);
        assert(!task_assigned(b, t));
        assert(unserved_ready(b, polled + 1, tasks0, now));
    }
}

/// A legitimately chosen new assignment joins a record of good ones.
proof fn lemma_assignments_ok_push(
    a: Seq<(usize, usize)>,
    polled: usize,
    rj: usize,
    tasks0: Seq<TaskKind>,
    turtles0: Seq<RobotSlot>,
    finished: Seq<bool>,
    positions: Seq<Position>,
    now: i64,
)
    requires
        assignments_ok(a, tasks0, turtles0, finished, positions, now),
        polled < tasks0.len(),
        (rj as int) < turtles0.len(),
        spec_free0(turtles0, finished, rj as int),
        !robot_taken(a, a.len() as int, rj as int),
        ready_hint(tasks0[polled as int].spec_poll(now)) is Some,
        forall|j: int|
            0 <= j < turtles0.len() && spec_free0(turtles0, finished, j) && !robot_taken(
                a,
                a.len() as int,
                j,
            ) ==> l1(
                positions[rj as int].pos,
                ready_hint(tasks0[polled as int].spec_poll(now))->0.pos,
            ) <= l1(
                (#[trigger] positions[j]).pos,
                ready_hint(tasks0[polled as int].spec_poll(now))->0.pos,
            ),
    ensures
        assignments_ok(a.push((rj, polled)), tasks0, turtles0, finished, positions, now),
{
    reveal(assignments_ok);
    let b = a.push((rj, polled));
    let kb = a.len() as int;
    assert forall|k: int| 0 <= k < b.len() implies #[trigger] assignment_ok(
        b,
        k,
        tasks0,
        turtles0,
        finished,
        positions,
        now,
    ) by {
        if k < kb {
            assert(assignment_ok(a, k, tasks0, turtles0, finished, positions, now));
            lemma_assignment_ok_push(a, k, (rj, polled), tasks0, turtles0, finished, positions, now);
        } else {
            reveal(assignment_ok);
            assert(b[kb] == (rj, polled));
            assert forall|j: int| #[trigger] robot_taken(b, kb, j) == robot_taken(
                a,
                a.len() as int,
                j,
            ) by {
                if robot_taken(b, kb, j) {
                    let w = choose|w: int| 0 <= w < kb && (#[trigger] b[w]).0 == j;
                    assert(a[w].0 == j);
                }
                if robot_taken(a, a.len() as int, j) {
                    let w = choose|w: int| 0 <= w < a.len() && (#[trigger] a[w]).0 == j;
                    assert(b[w].0 == j);
                }
            }
            assert(assignment_ok(b, kb, tasks0, turtles0, finished, positions, now));
        }
    }
}

/// A later assignment does not disturb an earlier one's legitimacy.
proof fn lemma_assignment_ok_push(
    a: Seq<(usize, usize)>,
    k: int,
    extra: (usize, usize),
    tasks0: Seq<TaskKind>,
    turtles0: Seq<RobotSlot>,
    finished: Seq<bool>,
    positions: Seq<Position>,
    now: i64,
)
    requires
        0 <= k < a.len(),
        assignment_ok(a, k, tasks0, turtles0, finished, positions, now),
    ensures
        assignment_ok(a.push(extra), k, tasks0, turtles0, finished, positions, now),
{
    reveal(assignment_ok);
    let b = a.push(extra);
    assert(b[k] == a[k]);
    assert forall|j: int| #[trigger] robot_taken(b, k, j) == robot_taken(a, k, j) by {
        if robot_taken(b, k, j) {
            let w = choose|w: int| 0 <= w < k && (#[trigger] b[w]).0 == j;
            assert(a[w].0 == j);
        }
        if robot_taken(a, k, j) {
            let w = choose|w: int| 0 <= w < k && (#[trigger] a[w]).0 == j;
            assert(b[w].0 == j);
        }
    }
}

/// The job list left after polling the first `polled` tasks: complete
/// ones dropped, the rest advanced by their poll, and those the cycle
/// assigned advanced further by the start of their run.
pub open spec fn polled_kept(
    tasks: Seq<TaskKind>,
    now: i64,
    polled: int,
    assigned: Seq<(usize, usize)>,
) -> Seq<TaskKind>
    decreases polled,
{
    if polled <= 0 {
        Seq::empty()
    } else {
        let pre = polled_kept(tasks, now, polled - 1, assigned);
        let t = tasks[polled - 1];
        if t.spec_poll(now) is Complete {
            pre
        } else {
            let t1 = t.spec_poll_next(now);
            if task_assigned(assigned, polled - 1) {
                pre.push(t1.spec_begin_run())
            } else {
                pre.push(t1)
            }
        }
    }
}

/// Assignments of later tasks do not change what the earlier polls kept.
proof fn lemma_polled_kept_grow(
    tasks: Seq<TaskKind>,
    now: i64,
    polled: int,
    assigned: Seq<(usize, usize)>,
    extra: (usize, usize),
)
    requires
        extra.1 >= polled,
    ensures
        polled_kept(tasks, now, polled, assigned.push(extra)) == polled_kept(
            tasks,
            now,
            polled,
            assigned,
        ),
    decreases polled,
{
    if polled > 0 {
        lemma_polled_kept_grow(tasks, now, polled - 1, assigned, extra);
        assert(task_assigned(assigned.push(extra), polled - 1) == task_assigned(
            assigned,
            polled - 1,
        )) by {
            if task_assigned(assigned.push(extra), polled - 1) {
                let k = choose|k: int|
                    0 <= k < assigned.push(extra).len() && (#[trigger] assigned.push(extra)[k]).1
                        == polled - 1;
                assert(k < assigned.len());
                assert(assigned[k].1 == polled - 1);
            }
            if task_assigned(assigned, polled - 1) {
                let k = choose|k: int|
                    0 <= k < assigned.len() && (#[trigger] assigned[k]).1 == polled - 1;
                assert(assigned.push(extra)[k].1 == polled - 1);
            }
        }
    }
}

/// The free robot whose pose lies nearest the hint: the heart of the
/// assignment rule.
pub fn closest_free(positions: &Vec<Position>, free: &Vec<bool>, hint: Position) -> (r: Option<
    usize,
>)
    requires
        positions@.len() == free@.len(),
    ensures
        match r {
            Some(i) => i < free@.len() && free@[i as int] && forall|j: int|
                0 <= j < free@.len() && free@[j] ==> l1(positions@[i as int].pos, hint.pos) <= l1(
                    (#[trigger] positions@[j]).pos,
                    hint.pos,
                ),
            None => forall|j: int| 0 <= j < free@.len() ==> !(#[trigger] free@[j]),
        },
{
    let mut best: Option<usize> = None;
    let mut i: usize = 0;
    while i < free.len()
        invariant
            positions@.len() == free@.len(),
            i <= free@.len(),
            match best {
                Some(b) => b < i && free@[b as int] && forall|j: int|
                    0 <= j < i && free@[j] ==> l1(positions@[b as int].pos, hint.pos) <= l1(
                        (#[trigger] positions@[j]).pos,
                        hint.pos,
                    ),
                None => forall|j: int| 0 <= j < i ==> !(#[trigger] free@[j]),
            },
        decreases free@.len() - i,
    {
        if free[i] {
            best = match best {
                Some(b) => {
                    let db: i64 = positions[b].pos.l1_to(hint.pos);
                    let di: i64 = positions[i].pos.l1_to(hint.pos);
                    if di < db {
                        Some(i)
                    } else {
                        Some(b)
                    }
                },
                None => Some(i),
            };
        }
        i = i + 1;
    }
    best
}

/// What one scheduler cycle did: which robot starts which task, whether
/// the shutdown completion signal fired, how many tasks were examined,
/// and whether a ready task found no free robot.
pub struct PollOutcome {
    /// Pairs of robot index and task index (into the job list as it
    /// stood before the cycle).
    pub assignments: Vec<(usize, usize)>,
    /// Whether the shutdown latch saw every slot empty and fired.
    pub completion_fired: bool,
    /// How many tasks of the list were polled before the cycle stopped.
    pub polled: usize,
    /// Whether a ready task found every robot taken, which stops the
    /// cycle.
    pub starved: bool,
}

impl Scheduler {
    pub open spec fn wf(self) -> bool {
        forall|t: int| 0 <= t < self.tasks@.len() ==> (#[trigger] self.tasks@[t]).wf()
    }

    /// An empty scheduler: no robots, no jobs, no shutdown pending.
    pub fn new() -> (r: Self)
        ensures
            r.wf(),
            r.turtles@.len() == 0,
            r.tasks@.len() == 0,
            !r.shutdown,
    {
        Scheduler { turtles: Vec::new(), tasks: Vec::new(), shutdown: false }
    }

    /// Register a robot; one already registered under the same name is
    /// left alone.
    pub fn add_turtle(&mut self, name: Name)
        requires
            old(self).wf(),
        ensures
            final(self).wf(),
            final(self).tasks@ == old(self).tasks@,
            final(self).shutdown == old(self).shutdown,
            (exists|j: int|
                0 <= j < old(self).turtles@.len() && (#[trigger] old(self).turtles@[j]).name
                    == name) ==> final(self).turtles@ == old(self).turtles@,
            !(exists|j: int|
                0 <= j < old(self).turtles@.len() && (#[trigger] old(self).turtles@[j]).name
                    == name) ==> final(self).turtles@ == old(self).turtles@.push(
                RobotSlot { name, busy: false },
            ),
    {
        let mut j: usize = 0;
        while j < self.turtles.len()
            invariant
                old(self).wf(),
                *self == *old(self),
                j <= self.turtles@.len(),
                forall|k: int| 0 <= k < j ==> (#[trigger] self.turtles@[k]).name != name,
            decreases self.turtles@.len() - j,
        {
            if self.turtles[j].name.raw == name.raw {
                proof {
                    assert(self.turtles@[j as int].name == name);
                }
                return ;
            }
            j = j + 1;
        }
        self.turtles.push(RobotSlot { name, busy: false });
    }

    /// Queue a job at the end of the list.
    pub fn add_task(&mut self, task: TaskKind)
        requires
            old(self).wf(),
            task.wf(),
        ensures
            final(self).wf(),
            final(self).tasks@ == old(self).tasks@.push(task),
            final(self).turtles@ == old(self).turtles@,
            final(self).shutdown == old(self).shutdown,
    {
        self.tasks.push(task);
    }

    /// Install the shutdown latch; the completion signal fires on the
    /// first cycle that finds every robot slot empty.
    pub fn shutdown(&mut self)
        requires
            old(self).wf(),
        ensures
            final(self).wf(),
            final(self).shutdown,
            final(self).tasks@ == old(self).tasks@,
            final(self).turtles@ == old(self).turtles@,
    {
        self.shutdown = true;
    }

    /// Pin a job to the named robot: the job starts at once on the first
    /// slot bearing the name, if that slot is free, and the caller
    /// drives it. The job does not join the list; a missing name or a
    /// busy slot declines.
    pub fn task_on(&mut self, task: TaskKind, name: Name) -> (r: Option<(usize, TaskKind)>)
        requires
            old(self).wf(),
            task.wf(),
        ensures
            final(self).wf(),
            final(self).tasks@ == old(self).tasks@,
            final(self).shutdown == old(self).shutdown,
            match first_named_from(old(self).turtles@, name, 0) {
                Some(j) => if !old(self).turtles@[j].busy {
                    &&& r is Some
                    &&& (r->0).0 == j
                    &&& (r->0).1 == task.spec_begin_run()
                    &&& final(self).turtles@ == old(self).turtles@.update(
                        j,
                        RobotSlot { name: old(self).turtles@[j].name, busy: true },
                    )
                } else {
                    r is None && final(self).turtles@ == old(self).turtles@
                },
                None => r is None && final(self).turtles@ == old(self).turtles@,
            },
    {
        let mut j: usize = 0;
        while j < self.turtles.len()
            invariant
                old(self).wf(),
                task.wf(),
                *self == *old(self),
                j <= self.turtles@.len(),
                first_named_from(self.turtles@, name, 0) == first_named_from(
                    self.turtles@,
                    name,
                    j as int,
                ),
            decreases self.turtles@.len() - j,
        {
            if self.turtles[j].name.raw == name.raw {
                proof {
                    assert(self.turtles@[j as int].name == name);
                    assert(first_named_from(self.turtles@, name, j as int) == Some(j as int));
                }
                if self.turtles[j].busy {
                    return None;
                }
                let nm = self.turtles[j].name;
                self.turtles[j] = RobotSlot { name: nm, busy: true };
                let mut started = task;
                started.begin_run();
                return Some((j, started));
            }
            j = j + 1;
        }
        proof {
            assert(first_named_from(self.turtles@, name, j as int) is None);
        }
        None
    }

    /// Reserve the named robot for an ad-hoc piece of work the caller
    /// drives itself; the slot is busy until the next cycle reaps it. A
    /// missing name or a busy slot declines.
    pub fn do_on(&mut self, name: Name) -> (r: Option<usize>)
        requires
            old(self).wf(),
        ensures
            final(self).wf(),
            final(self).tasks@ == old(self).tasks@,
            final(self).shutdown == old(self).shutdown,
            match first_named_from(old(self).turtles@, name, 0) {
                Some(j) => if !old(self).turtles@[j].busy {
                    &&& r == Some(j as usize)
                    &&& final(self).turtles@ == old(self).turtles@.update(
                        j,
                        RobotSlot { name: old(self).turtles@[j].name, busy: true },
                    )
                } else {
                    r is None && final(self).turtles@ == old(self).turtles@
                },
                None => r is None && final(self).turtles@ == old(self).turtles@,
            },
    {
        let mut j: usize = 0;
        while j < self.turtles.len()
            invariant
                old(self).wf(),
                *self == *old(self),
                j <= self.turtles@.len(),
                first_named_from(self.turtles@, name, 0) == first_named_from(
                    self.turtles@,
                    name,
                    j as int,
                ),
            decreases self.turtles@.len() - j,
        {
            if self.turtles[j].name.raw == name.raw {
                proof {
                    assert(self.turtles@[j as int].name == name);
                    assert(first_named_from(self.turtles@, name, j as int) == Some(j as int));
                }
                if self.turtles[j].busy {
                    return None;
                }
                let nm = self.turtles[j].name;
                self.turtles[j] = RobotSlot { name: nm, busy: true };
                return Some(j);
            }
            j = j + 1;
        }
        proof {
            assert(first_named_from(self.turtles@, name, j as int) is None);
        }
        None
    }

    /// One scheduling cycle. Finished handles are reaped first. Under a
    /// pending shutdown nothing is scheduled: the completion signal
    /// fires exactly when every slot is empty, clearing the latch, so it
    /// cannot fire twice. Otherwise every job is polled, in order: each
    /// ready job is matched with the free robot nearest its hint, a
    /// ready job that finds every robot taken marks the cycle starved
    /// and goes without, and complete jobs leave the list.
    #[verifier::rlimit(100)]
    #[verifier::spinoff_prover]
    pub fn poll(&mut self, finished: &Vec<bool>, positions: &Vec<Position>, now: i64) -> (r:
        PollOutcome)
        requires
            old(self).wf(),
            finished@.len() == old(self).turtles@.len(),
            positions@.len() == old(self).turtles@.len(),
        ensures
            final(self).wf(),
            final(self).turtles@.len() == old(self).turtles@.len(),
            forall|j: int|
                0 <= j < old(self).turtles@.len() ==> (#[trigger] final(self).turtles@[j]).name
                    == old(self).turtles@[j].name,
            r.completion_fired == (old(self).shutdown && (forall|j: int|
                0 <= j < old(self).turtles@.len() ==> spec_free0(
                    old(self).turtles@,
                    finished@,
                    j,
                ))),
            final(self).shutdown == (old(self).shutdown && !r.completion_fired),
            old(self).shutdown ==> {
                &&& r.assignments@.len() == 0
                &&& r.polled == 0
                &&& !r.starved
                &&& final(self).tasks@ == old(self).tasks@
                &&& forall|j: int|
                    0 <= j < old(self).turtles@.len() ==> (#[trigger] final(self).turtles@[j]).busy == !spec_free0(old(self).turtles@, finished@, j)
            },
            !old(self).shutdown ==> {
                &&& r.polled == old(self).tasks@.len()
                &&& final(self).tasks@ == polled_kept(
                    old(self).tasks@,
                    now,
                    r.polled as int,
                    r.assignments@,
                ) + old(self).tasks@.skip(r.polled as int)
                &&& assignments_ok(
                    r.assignments@,
                    old(self).tasks@,
                    old(self).turtles@,
                    finished@,
                    positions@,
                    now,
                )
                &&& forall|k: int|
                    0 <= k < r.assignments@.len() ==> (#[trigger] r.assignments@[k]).1 < r.polled
                &&& r.starved == unserved_ready(
                    r.assignments@,
                    r.polled as int,
                    old(self).tasks@,
                    now,
                )
                &&& (r.starved ==> forall|j: int|
                    0 <= j < old(self).turtles@.len() && spec_free0(
                        old(self).turtles@,
                        finished@,
                        j,
                    ) ==> robot_taken(r.assignments@, r.assignments@.len() as int, j))
                &&& forall|j: int|
                    0 <= j < old(self).turtles@.len() ==> (#[trigger] final(self).turtles@[j]).busy == (!spec_free0(old(self).turtles@, finished@, j)
                        || robot_taken(r.assignments@, r.assignments@.len() as int, j))
            },
    {
        let n: usize = self.turtles.len();
        // reap finished handles
        let mut j: usize = 0;
        while j < n
            invariant
                old(self).wf(),
                n == old(self).turtles@.len(),
                finished@.len() == n,
                self.tasks@ == old(self).tasks@,
                self.shutdown == old(self).shutdown,
                self.turtles@.len() == n,
                j <= n,
                forall|k: int|
                    0 <= k < n ==> (#[trigger] self.turtles@[k]).name == old(self).turtles@[k].name,
                forall|k: int|
                    0 <= k < j ==> (#[trigger] self.turtles@[k]).busy == !spec_free0(
                        old(self).turtles@,
                        finished@,
                        k,
                    ),
                forall|k: int|
                    j <= k < n ==> (#[trigger] self.turtles@[k]).busy == old(self).turtles@[k].busy,
            decreases n - j,
        {
            let was = self.turtles[j].busy;
            let nm = self.turtles[j].name;
            self.turtles[j] = RobotSlot { name: nm, busy: was && !finished[j] };
            j = j + 1;
        }
        if self.shutdown {
            let mut any_busy: bool = false;
            let mut k: usize = 0;
            while k < n
                invariant
                    n == self.turtles@.len(),
                    k <= n,
                    any_busy == exists|m: int| 0 <= m < k && (#[trigger] self.turtles@[m]).busy,
                decreases n - k,
            {
                if self.turtles[k].busy {
                    any_busy = true;
                }
                k = k + 1;
            }
            let fired: bool = !any_busy;
            proof {
                if !any_busy {
                    assert forall|j2: int| 0 <= j2 < n implies spec_free0(
                        old(self).turtles@,
                        finished@,
                        j2,
                    ) by {
                        assert(!self.turtles@[j2].busy);
                    }
                } else {
                    let m = choose|m: int| 0 <= m < n && (#[trigger] self.turtles@[m]).busy;
                    assert(!spec_free0(old(self).turtles@, finished@, m));
                }
            }
            if fired {
                self.shutdown = false;
            }
            return PollOutcome {
                assignments: Vec::new(),
                completion_fired: fired,
                polled: 0,
                starved: false,
            };
        }
        // free robots this cycle, shrinking as assignments take them
        let mut free: Vec<bool> = Vec::new();
        let mut k: usize = 0;
        while k < n
            invariant
                n == self.turtles@.len(),
                k <= n,
                free@.len() == k,
                forall|m: int| 0 <= m < k ==> #[trigger] free@[m] == !self.turtles@[m].busy,
            decreases n - k,
        {
            free.push(!self.turtles[k].busy);
            k = k + 1;
        }
        let ghost turtles0 = old(self).turtles@;
        let ghost tasks0 = self.tasks@;
        let mut pending: Vec<TaskKind> = Vec::new();
        core::mem::swap(&mut pending, &mut self.tasks);
        let mut kept: Vec<TaskKind> = Vec::new();
        let mut assignments: Vec<(usize, usize)> = Vec::new();
        let mut polled: usize = 0;
        let mut starved: bool = false;
        let total: usize = pending.len();
        proof {
            reveal(assignments_ok);
            reveal(unserved_ready);
            assert(assignments_ok(assignments@, tasks0, turtles0, finished@, positions@, now));
            assert(!unserved_ready(assignments@, 0, tasks0, now));
            assert(pending@ =~= tasks0.skip(0));
        }
        while polled < total
            invariant
                self.turtles@.len() == n,
                positions@.len() == n,
                finished@.len() == n,
                free@.len() == n,
                old(self).wf(),
                forall|t: int| 0 <= t < tasks0.len() ==> (#[trigger] tasks0[t]).wf(),
                total == tasks0.len(),
                turtles0.len() == n,
                tasks0 == old(self).tasks@,
                turtles0 == old(self).turtles@,

                pending@ == tasks0.skip(polled as int),
                polled <= total,
                !self.shutdown,
                forall|k2: int|
                    0 <= k2 < n ==> (#[trigger] self.turtles@[k2]).name == old(self).turtles@[k2].name,
                forall|k2: int| 0 <= k2 < kept@.len() ==> (#[trigger] kept@[k2]).wf(),
                kept@ == polled_kept(tasks0, now, polled as int, assignments@),
                assignments_ok(assignments@, tasks0, turtles0, finished@, positions@, now),
                forall|k2: int|
                    0 <= k2 < assignments@.len() ==> (#[trigger] assignments@[k2]).1 < polled,
                starved == unserved_ready(assignments@, polled as int, tasks0, now),
                starved ==> forall|j2: int|
                    0 <= j2 < n && spec_free0(turtles0, finished@, j2) ==> robot_taken(
                        assignments@,
                        assignments@.len() as int,
                        j2,
                    ),
                forall|m: int|
                    0 <= m < n ==> #[trigger] free@[m] == (spec_free0(turtles0, finished@, m)
                        && !robot_taken(
                        assignments@,
                        assignments@.len() as int,
                        m,
                    )),
                forall|m: int| 0 <= m < n ==> (#[trigger] self.turtles@[m]).busy == !free@[m],
            decreases total - polled,
        {
            let mut task = pending.remove(0);
            proof {
                assert(tasks0.skip(polled as int)[0] == tasks0[polled as int]);
                assert(pending@ == tasks0.skip(polled as int).drop_first());
                assert(tasks0.skip(polled as int).drop_first() =~= tasks0.skip(polled as int + 1));
            }
            let st = task.poll(now);
            let ghost k_before = assignments@.len() as int;
            match st {
                TaskState::Complete => {
                    proof {
                        assert(!task_assigned(assignments@, polled as int)) by {
                            if task_assigned(assignments@, polled as int) {
                                let w = choose|k: int|
                                    0 <= k < assignments@.len() && (#[trigger] assignments@[k]).1
                                        == polled as int;
                                assert(assignments@[w].1 < polled);
                            }
                        }
                        lemma_unserved_unready(assignments@, polled as int, tasks0, now);
                    }
                },
                TaskState::Waiting => {
                    kept.push(task);
                    proof {
                        assert(!task_assigned(assignments@, polled as int)) by {
                            if task_assigned(assignments@, polled as int) {
                                let w = choose|k: int|
                                    0 <= k < assignments@.len() && (#[trigger] assignments@[k]).1
                                        == polled as int;
                                assert(assignments@[w].1 < polled);
                            }
                        }
                        lemma_unserved_unready(assignments@, polled as int, tasks0, now);
                    }
                },
                TaskState::Ready(hint) => {
                    let ghost free_pre = free@;
                    match closest_free(positions, &free, hint) {
                        Some(rj) => {
                            free[rj] = false;
                            let nm = self.turtles[rj].name;
                            self.turtles[rj] = RobotSlot { name: nm, busy: true };
                            let ghost pre_assignments = assignments@;
                            assignments.push((rj, polled));
                            task.begin_run();
                            kept.push(task);
                            proof {
                                assert(ready_hint(tasks0[polled as int].spec_poll(now)) == Some(
                                    hint,
                                ));
                                assert(spec_free0(turtles0, finished@, rj as int) && !robot_taken(
                                    pre_assignments,
                                    pre_assignments.len() as int,
                                    rj as int,
                                )) by {
                                    assert(free_pre[rj as int]);
                                }
                                assert forall|j2: int|
                                    0 <= j2 < turtles0.len() && spec_free0(turtles0, finished@, j2)
                                        && !robot_taken(
                                        pre_assignments,
                                        pre_assignments.len() as int,
                                        j2,
                                    ) implies l1(
                                    positions@[rj as int].pos,
                                    ready_hint(tasks0[polled as int].spec_poll(now))->0.pos,
                                ) <= l1(
                                    (#[trigger] positions@[j2]).pos,
                                    ready_hint(tasks0[polled as int].spec_poll(now))->0.pos,
                                ) by {
                                    assert(free_pre[j2]);
                                }
                                lemma_assignments_ok_push(
                                    pre_assignments,
                                    polled,
                                    rj,
                                    tasks0,
                                    turtles0,
                                    finished@,
                                    positions@,
                                    now,
                                );
                                lemma_unserved_assigned(pre_assignments, polled, rj, tasks0, now);
                                if starved {
                                    assert forall|j2: int|
                                        0 <= j2 < n && spec_free0(
                                            turtles0,
                                            finished@,
                                            j2,
                                        ) implies robot_taken(
                                        assignments@,
                                        assignments@.len() as int,
                                        j2,
                                    ) by {
                                        let w = choose|w: int|
                                            0 <= w < pre_assignments.len() && (
                                            #[trigger] pre_assignments[w]).0 == j2;
                                        assert(assignments@[w].0 == j2);
                                    }
                                }
                                assert(!task_assigned(pre_assignments, polled as int)) by {
                                    if task_assigned(pre_assignments, polled as int) {
                                        let w = choose|k: int|
                                            0 <= k < pre_assignments.len() && (
                                            #[trigger] pre_assignments[k]).1 == polled as int;
                                        assert(pre_assignments[w].1 < polled);
                                    }
                                }
                                assert forall|k2: int|
                                    0 <= k2 < assignments@.len() implies (
                                #[trigger] assignments@[k2]).1 < polled + 1 by {
                                    if k2 < pre_assignments.len() {
                                        assert(assignments@[k2] == pre_assignments[k2]);
                                    } else {
                                        assert(assignments@[k2] == (rj, polled));
                                    }
                                }
                                lemma_polled_kept_grow(
                                    tasks0,
                                    now,
                                    polled as int,
                                    pre_assignments,
                                    (rj, polled),
                                );
                                assert forall|m: int| 0 <= m < n implies #[trigger] free@[m] == (
                                spec_free0(turtles0, finished@, m) && !robot_taken(
                                    assignments@,
                                    assignments@.len() as int,
                                    m,
                                )) by {
                                    if m != rj as int {
                                        assert(robot_taken(
                                            assignments@,
                                            assignments@.len() as int,
                                            m,
                                        ) == robot_taken(
                                            pre_assignments,
                                            pre_assignments.len() as int,
                                            m,
                                        )) by {
                                            if robot_taken(
                                                assignments@,
                                                assignments@.len() as int,
                                                m,
                                            ) {
                                                let w = choose|w: int|
                                                    0 <= w < assignments@.len() && (
                                                    #[trigger] assignments@[w]).0 == m;
                                                assert(w < pre_assignments.len());
                                                assert(pre_assignments[w].0 == m);
                                            }
                                            if robot_taken(
                                                pre_assignments,
                                                pre_assignments.len() as int,
                                                m,
                                            ) {
                                                let w = choose|w: int|
                                                    0 <= w < pre_assignments.len() && (
                                                    #[trigger] pre_assignments[w]).0 == m;
                                                assert(assignments@[w].0 == m);
                                            }
                                        }
                                    } else {
                                        assert(assignments@[pre_assignments.len() as int].0 == rj);
                                    }
                                }
                            }
                        },
                        None => {
                            starved = true;
                            kept.push(task);
                            proof {
                                assert(!task_assigned(assignments@, polled as int)) by {
                                    if task_assigned(assignments@, polled as int) {
                                        let w = choose|k: int|
                                            0 <= k < assignments@.len() && (#[trigger] assignments@[k]).1
                                                == polled as int;
                                        assert(assignments@[w].1 < polled);
                                    }
                                }
                                lemma_unserved_starved(assignments@, polled as int, tasks0, now);
                                assert forall|j2: int|
                                    0 <= j2 < n && spec_free0(
                                        turtles0,
                                        finished@,
                                        j2,
                                    ) implies robot_taken(
                                    assignments@,
                                    assignments@.len() as int,
                                    j2,
                                ) by {
                                    assert(!free@[j2]);
                                }
                            }
                        },
                    }
                },
            }
            polled = polled + 1;
        }
        proof {
            assert(kept@ =~= polled_kept(tasks0, now, polled as int, assignments@) + tasks0.skip(
                polled as int,
            ));
        }
        core::mem::swap(&mut self.tasks, &mut kept);
        PollOutcome { assignments, completion_fired: false, polled, starved }
    }
}











} // verus!

use avarus::blocks::{Block, Direction, Position, Vec3};
use avarus::construct::{next_stocked_slot, BuildSimple};
use avarus::depot::{dump_slots, refuel_step, Depots, RefuelAction};
use avarus::fell::TreeFarm;
use avarus::mine::{fill, mine_chunk_targets, near_valuables, step, useless_slots, Quarry, Remove};
use avarus::names::Name;
use avarus::tasks::{Goto, Scheduler, TaskKind, TaskState};
use avarus::turtle::{idle_reply, InventorySlot, Turtle, TurtleCommand, TurtleCommandResponse, TurtleUpdate, UpdateOutcome, IDLE_TIME};
use avarus::world::World;

fn pos(x: i32, y: i32, z: i32, dir: Direction) -> Position {
    Position { pos: Vec3::new(x, y, z), dir }
}

#[test]
fn serpentine_is_adjacent_and_exact() {
    // the walk zigs from 0 to the end and rests on each end
    assert_eq!(step(0, 3), 0);
    assert_eq!(step(1, 3), 1);
    assert_eq!(step(2, 3), 2);
    assert_eq!(step(3, 3), 2);
    assert_eq!(step(4, 3), 1);
    assert_eq!(step(5, 3), 0);
    assert_eq!(step(6, 3), 0);
    assert_eq!(fill(Vec3::new(2, 2, 2), 0), Vec3::new(0, 0, 0));
    assert_eq!(fill(Vec3::new(2, 2, 2), 1), Vec3::new(1, 0, 0));
    assert_eq!(fill(Vec3::new(2, 2, 2), 2), Vec3::new(1, 1, 0));
    assert_eq!(fill(Vec3::new(2, 2, 2), 3), Vec3::new(0, 1, 0));
    // successive cells of a box are adjacent
    let scale = Vec3::new(4, 3, 2);
    let volume = scale.x * scale.y * scale.z;
    let mut prev = fill(scale, 0);
    for n in 1..volume {
        let cur = fill(scale, n);
        let d = (cur.x - prev.x).abs() + (cur.y - prev.y).abs() + (cur.z - prev.z).abs();
        assert_eq!(d, 1);
        prev = cur;
    }
}

#[test]
fn quarry_completion() {
    // a box of stone-filled sub-cubes: a robot works them one by one
    // until the tracker reports done and every cell is air
    let mut world = World::new();
    for cell in mine_chunk_targets(Vec3::new(0, 0, 0), Vec3::new(8, 4, 4)) {
        world.set(Block { name: "minecraft:stone".to_string(), pos: cell });
    }
    let mut quarry = Quarry::new(Vec3::new(0, 0, 0), Vec3::new(8, 4, 4));
    assert!(matches!(quarry.poll(), TaskState::Ready(_)));
    let (first, corner) = quarry.next_assignment().unwrap();
    assert_eq!(first, 0);
    assert_eq!(corner, Vec3::new(0, 0, 0));
    for cell in mine_chunk_targets(corner, Vec3::new(4, 4, 4)) {
        // the robot digs the cell; its observation records air
        world.set(Block { name: "minecraft:air".to_string(), pos: cell });
    }
    quarry.progress.finish(first);
    let (second, corner2) = quarry.next_assignment().unwrap();
    assert_eq!(second, 1);
    assert_eq!(corner2, Vec3::new(4, 0, 0));
    assert!(!quarry.progress.done());
    for cell in mine_chunk_targets(corner2, Vec3::new(4, 4, 4)) {
        world.set(Block { name: "minecraft:air".to_string(), pos: cell });
    }
    quarry.progress.finish(second);
    quarry.worker_done();
    assert!(quarry.progress.done());
    assert!(matches!(quarry.poll(), TaskState::Complete));
    for cell in mine_chunk_targets(Vec3::new(0, 0, 0), Vec3::new(8, 4, 4)) {
        assert_eq!(world.get(cell).unwrap().name, "minecraft:air");
    }
}

#[test]
fn quarry_caps_its_miners() {
    let mut quarry = Quarry::new(Vec3::new(0, 0, 0), Vec3::new(16, 16, 16));
    let mut admitted = 0;
    for _ in 0..100 {
        match quarry.poll() {
            TaskState::Ready(_) => admitted += 1,
            TaskState::Waiting => {},
            TaskState::Complete => unreachable!(),
        }
    }
    assert_eq!(admitted, 42);
}

#[test]
fn scheduler_assigns_nearest_free_robot() {
    let mut sched = Scheduler::new();
    sched.add_turtle(Name::from_num(1));
    sched.add_turtle(Name::from_num(2));
    sched.add_task(TaskKind::Goto(Goto::new(pos(10, 0, 0, Direction::North))));
    let finished = vec![false, false];
    let positions = vec![pos(100, 0, 0, Direction::North), pos(8, 0, 0, Direction::North)];
    let outcome = sched.poll(&finished, &positions, 0);
    assert!(!outcome.completion_fired);
    assert_eq!(outcome.assignments, vec![(1, 0)]);
    assert_eq!(outcome.polled, 1);
    // the errand was taken: the next cycle reaps it as complete
    let outcome2 = sched.poll(&vec![true, true], &positions, 0);
    assert_eq!(outcome2.assignments, vec![]);
    assert_eq!(sched.tasks.len(), 0);
}

#[test]
fn scheduler_starves_without_free_robots() {
    let mut sched = Scheduler::new();
    sched.add_turtle(Name::from_num(7));
    sched.add_task(TaskKind::Goto(Goto::new(pos(0, 0, 0, Direction::North))));
    sched.add_task(TaskKind::Goto(Goto::new(pos(1, 0, 0, Direction::North))));
    let positions = vec![pos(0, 0, 0, Direction::North)];
    let outcome = sched.poll(&vec![false], &positions, 0);
    // one robot, two ready errands: the second starves the cycle
    assert_eq!(outcome.assignments, vec![(0, 0)]);
    assert!(outcome.starved);
    assert_eq!(outcome.polled, 2);
    assert_eq!(sched.tasks.len(), 2);
}

#[test]
fn shutdown_fires_exactly_once() {
    let mut sched = Scheduler::new();
    let name = Name::from_num(3);
    sched.add_turtle(name);
    // occupy the robot with ad-hoc work, then ask for shutdown
    assert!(sched.do_on(name).is_some());
    sched.shutdown();
    let positions = vec![pos(0, 0, 0, Direction::North)];
    let busy_cycle = sched.poll(&vec![false], &positions, 0);
    assert!(!busy_cycle.completion_fired);
    let drained_cycle = sched.poll(&vec![true], &positions, 0);
    assert!(drained_cycle.completion_fired);
    // the latch cleared with the signal: no second firing
    let after = sched.poll(&vec![true], &positions, 0);
    assert!(!after.completion_fired);
}

#[test]
fn depot_contention() {
    // three robots against two depots: never more than two leases out
    let mut depots = Depots::from_vec(vec![
        pos(0, 0, 0, Direction::North),
        pos(10, 0, 0, Direction::North),
    ]);
    let first = depots.nearest(pos(1, 0, 0, Direction::North));
    assert_eq!(first, Some(0));
    let second = depots.nearest(pos(1, 0, 0, Direction::North));
    assert_eq!(second, Some(1));
    // the third robot waits: every depot is leased out
    assert_eq!(depots.nearest(pos(2, 0, 0, Direction::North)), None);
    depots.release(first.unwrap());
    // a lease came back, so the waiter is served, nearest first
    assert_eq!(depots.nearest(pos(2, 0, 0, Direction::North)), Some(0));
}

#[test]
fn robot_timeout_cycle() {
    // with no caller awaiting, every update leaves fuel and position
    // unchanged, records the three observations, and the session answers
    // the idle wait
    let mut turtle = Turtle::new(0, pos(0, 0, 0, Direction::North), 100, 1000);
    let boot = turtle.apply_update(TurtleUpdate {
        fuel: 100,
        ahead: "minecraft:air".to_string(),
        above: "minecraft:air".to_string(),
        below: "minecraft:stone".to_string(),
        ret: TurtleCommandResponse::Nothing,
    });
    // a fresh robot is asked to pull its code first
    assert!(matches!(boot, UpdateOutcome::Reload));
    for _ in 0..3 {
        let outcome = turtle.apply_update(TurtleUpdate {
            fuel: 100,
            ahead: "minecraft:air".to_string(),
            above: "minecraft:air".to_string(),
            below: "minecraft:stone".to_string(),
            ret: TurtleCommandResponse::Nothing,
        });
        match outcome {
            UpdateOutcome::Observed(obs, info) => {
                assert_eq!(obs.len(), 3);
                assert_eq!(obs[0].pos, Vec3::new(0, 1, 0));
                assert_eq!(obs[0].name, "minecraft:air");
                assert_eq!(obs[1].pos, Vec3::new(0, 0, -1));
                assert_eq!(obs[1].name, "minecraft:air");
                assert_eq!(obs[2].pos, Vec3::new(0, -1, 0));
                assert_eq!(obs[2].name, "minecraft:stone");
                assert_eq!(info.fuel, 100);
                assert_eq!(info.pos, pos(0, 0, 0, Direction::North));
            },
            UpdateOutcome::Reload => unreachable!(),
        }
        assert_eq!(turtle.fuel, 100);
        assert_eq!(turtle.position, pos(0, 0, 0, Direction::North));
    }
    assert_eq!(idle_reply(), TurtleCommand::Wait(IDLE_TIME));
    assert_eq!(idle_reply(), TurtleCommand::Wait(3));
}

#[test]
fn fuel_drop_moves_the_robot() {
    let mut turtle = Turtle::new(0, pos(0, 0, 0, Direction::North), 100, 1000);
    turtle.pending_update = false;
    turtle.accept_command(&TurtleCommand::Forward(2));
    assert_eq!(turtle.queued_movement, Vec3::new(0, 0, -1));
    let outcome = turtle.apply_update(TurtleUpdate {
        fuel: 98,
        ahead: "minecraft:air".to_string(),
        above: "minecraft:air".to_string(),
        below: "minecraft:air".to_string(),
        ret: TurtleCommandResponse::Success,
    });
    assert!(matches!(outcome, UpdateOutcome::Observed(_, _)));
    assert_eq!(turtle.position, pos(0, 0, -2, Direction::North));
    assert_eq!(turtle.fuel, 98);
    assert_eq!(turtle.queued_movement, Vec3::new(0, 0, 0));
    // rotations turn in place at once
    turtle.accept_command(&TurtleCommand::Left);
    assert_eq!(turtle.position.dir, Direction::West);
}

#[test]
fn refuel_steps() {
    assert_eq!(refuel_step(9500, 10000, false), RefuelAction::Done);
    assert_eq!(refuel_step(100, 10000, false), RefuelAction::Draw);
    assert_eq!(refuel_step(1600, 10000, true), RefuelAction::Done);
    assert_eq!(refuel_step(1400, 10000, true), RefuelAction::Pause);
}

#[test]
fn dump_lists_full_slots() {
    let slot = |name: &str, count: u32| Some(InventorySlot { name: name.to_string(), count });
    let inventory = vec![
        slot("minecraft:dirt", 64),
        None,
        slot("minecraft:iron_ore", 3),
        None,
    ];
    assert_eq!(dump_slots(&inventory), vec![1, 3]);
}

#[test]
fn tree_farm_polls_on_schedule() {
    let mut farm = TreeFarm::new(Vec3::new(0, 64, 0));
    // right after a sweep nothing is due
    assert!(matches!(farm.poll(10 * 60), TaskState::Waiting));
    // past the delay the farm asks for a robot and restarts its clock
    assert!(matches!(farm.poll(17 * 60), TaskState::Ready(_)));
    assert_eq!(farm.last_sweep, 17 * 60);
    assert!(matches!(farm.poll(18 * 60), TaskState::Waiting));
    let trees = farm.tree_positions();
    assert_eq!(trees.len(), 10);
    assert_eq!(trees[0], Vec3::new(0, 64, 0));
    assert_eq!(trees[1], Vec3::new(2, 64, 0));
}

#[test]
fn build_layers_advance_and_back_out() {
    let mut schematic = World::new();
    schematic.set(Block { name: "minecraft:stone".to_string(), pos: Vec3::new(0, 0, 0) });
    schematic.set(Block { name: "minecraft:stone".to_string(), pos: Vec3::new(1, 1, 0) });
    let mut build = BuildSimple::new(
        Vec3::new(100, 60, 100),
        schematic,
        Vec3::new(2, 2, 1),
        pos(50, 60, 50, Direction::West),
    );
    assert!(matches!(build.poll(), TaskState::Ready(_)));
    assert_eq!(build.begin_layer(), Some(0));
    let live = World::new();
    let targets = build.layer_targets(0, &live);
    assert_eq!(targets, vec![Vec3::new(100, 60, 100)]);
    // a failed layer backs the counter out to be retried
    build.layer_failed();
    assert_eq!(build.begin_layer(), Some(0));
    assert_eq!(build.begin_layer(), Some(1));
    assert_eq!(build.begin_layer(), None);
    build.worker_done();
    assert!(matches!(build.poll(), TaskState::Complete));
}

#[test]
fn stocked_slot_skips_empties() {
    let slot = |count: u32| Some(InventorySlot { name: "minecraft:stone".to_string(), count });
    assert_eq!(next_stocked_slot(&vec![None, slot(0), slot(5)]), Some(3));
    assert_eq!(next_stocked_slot(&vec![None, None]), None);
}

#[test]
fn vein_removal_walks_matching_blocks() {
    let mut world = World::new();
    world.set(Block { name: "minecraft:iron_ore".to_string(), pos: Vec3::new(0, 0, 0) });
    world.set(Block { name: "minecraft:iron_ore".to_string(), pos: Vec3::new(1, 0, 0) });
    world.set(Block { name: "minecraft:stone".to_string(), pos: Vec3::new(2, 0, 0) });
    let mut remove = Remove::new(Vec3::new(0, 0, 0), "iron_ore".to_string());
    assert!(matches!(remove.poll(), TaskState::Ready(_)));
    remove.seed(&world);
    let mut dug: Vec<Vec3> = Vec::new();
    while let Some(cell) = remove.next_target(&world) {
        if world.get(cell).is_some() {
            // dig the block and look around it
            world.set(Block { name: "minecraft:air".to_string(), pos: cell });
            dug.push(cell);
            remove.enqueue_neighbors(cell);
        }
        if dug.len() > 10 {
            break;
        }
    }
    assert!(dug.contains(&Vec3::new(0, 0, 0)));
    assert!(dug.contains(&Vec3::new(1, 0, 0)));
    assert!(!dug.contains(&Vec3::new(2, 0, 0)));
    assert_eq!(world.get(Vec3::new(2, 0, 0)).unwrap().name, "minecraft:stone");
}

#[test]
fn goto_errand_completes_when_taken() {
    let mut sched = Scheduler::new();
    let name = Name::from_num(9);
    sched.add_turtle(name);
    let errand = TaskKind::Goto(Goto::new(pos(5, 5, 5, Direction::East)));
    let (slot, started) = sched.task_on(errand, name).unwrap();
    assert_eq!(slot, 0);
    match started {
        TaskKind::Goto(g) => assert!(g.done),
        _ => unreachable!(),
    }
    // a second pinned task finds the robot occupied
    assert!(sched.task_on(TaskKind::Goto(Goto::new(pos(0, 0, 0, Direction::North))), name).is_none());
}

#[test]
fn name_round_trip_through_the_scramble() {
    for id in [0u32, 1, 42, 6522345, u32::MAX] {
        assert_eq!(Name::from_num(id).to_num(), id);
    }
    assert_ne!(Name::from_num(7).raw, 7);
}

#[test]
fn ore_sweep_finds_recorded_ore() {
    let mut world = World::new();
    world.set(Block { name: "minecraft:iron_ore".to_string(), pos: Vec3::new(5, 0, 0) });
    world.set(Block { name: "minecraft:air".to_string(), pos: Vec3::new(0, 1, 0) });
    world.set(Block { name: "minecraft:stone".to_string(), pos: Vec3::new(1, 1, 0) });
    let found = near_valuables(&world, Vec3::new(0, 0, 0), Vec3::new(4, 4, 4));
    assert_eq!(found, vec![Vec3::new(5, 0, 0)]);
    let slot = |name: &str| Some(InventorySlot { name: name.to_string(), count: 64 });
    let (drop_list, kept) = useless_slots(&vec![
        slot("minecraft:dirt"),
        slot("minecraft:iron_ore"),
        None,
        slot("minecraft:gravel"),
    ]);
    assert_eq!(drop_list, vec![1, 4]);
    assert_eq!(kept, 1);
}

#[test]
fn starved_cycle_still_polls_every_task() {
    // no robots at all: the ready errand starves the cycle, yet the
    // complete one behind it is still polled and dropped
    let mut sched = Scheduler::new();
    sched.add_task(TaskKind::Goto(Goto::new(pos(4, 4, 4, Direction::North))));
    let mut taken = Goto::new(pos(0, 0, 0, Direction::North));
    taken.done = true;
    sched.add_task(TaskKind::Goto(taken));
    let outcome = sched.poll(&vec![], &vec![], 0);
    assert!(outcome.starved);
    assert_eq!(outcome.polled, 2);
    assert_eq!(outcome.assignments, vec![]);
    assert_eq!(sched.tasks.len(), 1);
}

use avarus::blocks::{nearest, Block, Direction, Position, Vec3};
use avarus::paths::{difficulty, route, route_facing};
use avarus::turtle::{route_commands, TurtleCommand};
use avarus::world::World;

fn pos(x: i32, y: i32, z: i32, dir: Direction) -> Position {
    Position { pos: Vec3::new(x, y, z), dir }
}

#[test]
fn difficulty_classifies_block_names() {
    assert_eq!(difficulty("minecraft:air"), Some(1));
    assert_eq!(difficulty("minecraft:water"), Some(1));
    assert_eq!(difficulty("minecraft:lava"), Some(1));
    assert_eq!(difficulty("minecraft:stone"), Some(2));
    assert_eq!(difficulty("minecraft:snow"), Some(2));
    assert_eq!(difficulty("twigs:rhyolite"), Some(2));
    assert_eq!(difficulty("minecraft:obsidian"), None);
    assert_eq!(difficulty(""), None);
}

#[test]
fn turns_invert_and_cycle() {
    for d in [Direction::North, Direction::South, Direction::East, Direction::West] {
        assert_eq!(d.left().right(), d);
        assert_eq!(d.right().left(), d);
        assert_eq!(d.left().left().left().left(), d);
        assert_eq!(d.right().right().right().right(), d);
        assert_ne!(d.left(), d);
    }
    assert_eq!(Direction::North.unit(), Vec3::new(0, 0, -1));
    assert_eq!(Direction::South.unit(), Vec3::new(0, 0, 1));
    assert_eq!(Direction::East.unit(), Vec3::new(1, 0, 0));
    assert_eq!(Direction::West.unit(), Vec3::new(-1, 0, 0));
}

#[test]
fn difference_yields_the_mapping_command() {
    let a = pos(0, 0, 0, Direction::North);
    assert_eq!(a.difference(pos(0, 0, -1, Direction::North)), Some(TurtleCommand::Forward(1)));
    assert_eq!(a.difference(pos(0, 0, 1, Direction::North)), Some(TurtleCommand::Backward(1)));
    assert_eq!(a.difference(pos(0, 1, 0, Direction::North)), Some(TurtleCommand::Up(1)));
    assert_eq!(a.difference(pos(0, -1, 0, Direction::North)), Some(TurtleCommand::Down(1)));
    assert_eq!(a.difference(pos(0, 0, 0, Direction::West)), Some(TurtleCommand::Left));
    assert_eq!(a.difference(pos(0, 0, 0, Direction::East)), Some(TurtleCommand::Right));
    // not reachable by one primitive command
    assert_eq!(a.difference(pos(0, 0, 0, Direction::South)), None);
    assert_eq!(a.difference(pos(1, 0, 0, Direction::North)), None);
    assert_eq!(a.difference(pos(0, 0, -2, Direction::North)), None);
}

#[test]
fn dig_and_place_choose_by_height() {
    let a = pos(5, 5, 5, Direction::North);
    assert_eq!(a.dig(Vec3::new(5, 5, 4)), Some(TurtleCommand::Dig));
    assert_eq!(a.dig(Vec3::new(5, 6, 5)), Some(TurtleCommand::DigUp));
    assert_eq!(a.dig(Vec3::new(5, 4, 5)), Some(TurtleCommand::DigDown));
    assert_eq!(a.dig(Vec3::new(5, 5, 5)), None);
    assert_eq!(a.dig(Vec3::new(7, 5, 5)), None);
    assert_eq!(a.place(Vec3::new(5, 5, 4)), Some(TurtleCommand::Place));
    assert_eq!(a.place(Vec3::new(5, 6, 5)), Some(TurtleCommand::PlaceUp));
    assert_eq!(a.place(Vec3::new(5, 4, 5)), Some(TurtleCommand::PlaceDown));
}

#[test]
fn unknown_cell_routing() {
    // an empty world: the planner walks straight through unseen cells
    let world = World::new();
    let from = pos(0, 0, 0, Direction::North);
    let to = pos(0, 0, -5, Direction::North);
    let path = route(from, to, &world).unwrap();
    assert_eq!(path.len(), 6);
    for (i, p) in path.iter().enumerate() {
        assert_eq!(*p, pos(0, 0, -(i as i32), Direction::North));
    }
    let cmds = route_commands(&path).unwrap();
    assert_eq!(cmds, vec![TurtleCommand::Forward(1); 5]);
}

#[test]
fn hard_block_detour() {
    // a hard block on the straight line: the route never steps through it
    let mut world = World::new();
    world.set(Block { name: "stone_wall".to_string(), pos: Vec3::new(0, 0, -2) });
    let from = pos(0, 0, 0, Direction::North);
    let to = pos(0, 0, -5, Direction::North);
    match route(from, to, &world) {
        Some(path) => {
            assert_eq!(path[0], from);
            assert_eq!(*path.last().unwrap(), to);
            for p in &path {
                assert_ne!(p.pos, Vec3::new(0, 0, -2));
            }
        },
        None => {},
    }
}

#[test]
fn route_to_known_hard_goal_fails() {
    let mut world = World::new();
    world.set(Block { name: "stone_wall".to_string(), pos: Vec3::new(0, 0, -3) });
    let from = pos(0, 0, 0, Direction::North);
    let to = pos(0, 0, -3, Direction::North);
    assert!(route(from, to, &world).is_none());
}

#[test]
fn route_facing_stops_adjacent() {
    let world = World::new();
    let from = pos(0, 0, 0, Direction::North);
    let target = Vec3::new(0, 0, -3);
    let path = route_facing(from, target, &world).unwrap();
    let last = *path.last().unwrap();
    let ahead = Vec3::new(
        last.pos.x + last.dir.unit().x,
        last.pos.y,
        last.pos.z + last.dir.unit().z,
    );
    let above = Vec3::new(last.pos.x, last.pos.y + 1, last.pos.z);
    let below = Vec3::new(last.pos.x, last.pos.y - 1, last.pos.z);
    assert!(ahead == target || above == target || below == target);
    // never stand inside the target cell
    for p in &path {
        assert_ne!(p.pos, target);
    }
}

#[test]
fn nearest_picks_dominant_axis() {
    let r = nearest(Vec3::new(0, 0, 0), Vec3::new(10, 0, 2));
    assert_eq!(r.dir, Direction::East);
    assert_eq!(r.pos, Vec3::new(9, 0, 2));
    // the z axis picks South for both signs, as it always has
    let r2 = nearest(Vec3::new(0, 0, 0), Vec3::new(1, 0, -9));
    assert_eq!(r2.dir, Direction::South);
    assert_eq!(r2.pos, Vec3::new(1, 0, -10));
}

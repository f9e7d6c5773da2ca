use avarus::blocks::{Block, Vec3};
use avarus::mine::fill;
use avarus::world::{chunk_coords, World};

fn single_point(point: Vec3) {
    let mut world = World::new();
    world.set(Block { name: "a".to_string(), pos: point });

    assert_eq!("a", world.get(point).unwrap().name);
}

fn many(point: Vec3, size: Vec3) {
    let mut world = World::new();
    let volume = size.x * size.y * size.z;
    for i in 0..volume {
        let rel = fill(size, i);
        let block = Vec3::new(rel.x + point.x, rel.y + point.y, rel.z + point.z);
        world.set(Block { name: i.to_string(), pos: block });
    }

    for i in 0..volume {
        let rel = fill(size, i);
        let block = Vec3::new(rel.x + point.x, rel.y + point.y, rel.z + point.z);
        assert_eq!(i.to_string(), world.get(block).unwrap().name)
    }
}

#[test]
fn origin() {
    single_point(Vec3::zeros())
}

#[test]
fn blocks_big() {
    single_point(Vec3::new(1212, 100, 1292))
}

#[test]
fn blocks_small() {
    single_point(Vec3::new(-1212, 100, -1292))
}

#[test]
fn positive_many() {
    many(Vec3::new(1212, 100, 1292), Vec3::new(100, 100, 100))
}

#[test]
fn negative_many() {
    many(Vec3::new(-1212, 100, -1292), Vec3::new(100, 100, 100))
}

#[test]
fn overwrite_keeps_latest() {
    let mut world = World::new();
    let cell = Vec3::new(3, -7, 2);
    let other = Vec3::new(3, -7, 3);
    world.set(Block { name: "minecraft:dirt".to_string(), pos: cell });
    world.set(Block { name: "minecraft:air".to_string(), pos: other });
    world.set(Block { name: "minecraft:stone".to_string(), pos: cell });
    assert_eq!("minecraft:stone", world.get(cell).unwrap().name);
    assert_eq!("minecraft:air", world.get(other).unwrap().name);
    assert!(world.get(Vec3::new(0, 0, 0)).is_none());
}

#[test]
fn chunks_partition_by_floor_division() {
    // cells agree on a chunk exactly when floor dividing by the side agrees
    assert_eq!(chunk_coords(Vec3::new(0, 0, 0)), chunk_coords(Vec3::new(3, 3, 3)));
    assert_ne!(chunk_coords(Vec3::new(3, 3, 3)), chunk_coords(Vec3::new(4, 3, 3)));
    assert_eq!(chunk_coords(Vec3::new(-1, -1, -1)), Vec3::new(-1, -1, -1));
    assert_eq!(chunk_coords(Vec3::new(-4, -4, -4)), Vec3::new(-1, -1, -1));
    assert_ne!(chunk_coords(Vec3::new(-1, 0, 0)), chunk_coords(Vec3::new(0, 0, 0)));
    assert_eq!(chunk_coords(Vec3::new(7, -5, 12)), Vec3::new(1, -2, 3));
}

#[test]
fn occupied_and_garbage_classification() {
    let mut world = World::new();
    world.set(Block { name: "minecraft:air".to_string(), pos: Vec3::new(0, 0, 0) });
    world.set(Block { name: "minecraft:stone".to_string(), pos: Vec3::new(1, 0, 0) });
    world.set(Block { name: "stone_wall".to_string(), pos: Vec3::new(2, 0, 0) });

    assert!(!world.occupied(Vec3::new(0, 0, 0)));
    assert!(world.occupied(Vec3::new(1, 0, 0)));
    assert!(world.occupied(Vec3::new(2, 0, 0)));
    // unknown cells are neither occupied nor garbage
    assert!(!world.occupied(Vec3::new(3, 0, 0)));

    assert!(world.garbage(Vec3::new(0, 0, 0)));
    assert!(world.garbage(Vec3::new(1, 0, 0)));
    assert!(!world.garbage(Vec3::new(2, 0, 0)));
    assert!(!world.garbage(Vec3::new(3, 0, 0)));
}

//! Cells, directions and robot poses of the voxel world.
use vstd::prelude::*;

use crate::turtle::TurtleCommand;

verus! {

/// An integer cell coordinate. Horizontal axes are `x` and `z`, the
/// vertical axis is `y`.
#[derive(Clone, Copy, PartialEq, Eq, Structural, Hash, Debug)]
pub struct Vec3 {
    pub x: i32,
    pub y: i32,
    pub z: i32,
}

/// Absolute value over the mathematical integers.
pub open spec fn iabs(a: int) -> int {
    if a < 0 {
        -a
    } else {
        a
    }
}

/// Coordinate-wise (L1) distance between two cells.
pub open spec fn l1(a: Vec3, b: Vec3) -> int {
    iabs(a.x - b.x) + iabs(a.y - b.y) + iabs(a.z - b.z)
}

impl Vec3 {
    pub fn new(x: i32, y: i32, z: i32) -> (r: Vec3)
        ensures
            r == (Vec3 { x, y, z }),
    {
        Vec3 { x, y, z }
    }

    pub fn zeros() -> (r: Vec3)
        ensures
            r == (Vec3 { x: 0, y: 0, z: 0 }),
    {
        Vec3 { x: 0, y: 0, z: 0 }
    }

    /// Coordinate-wise sum; the caller shows each coordinate fits.
    pub fn plus(self, o: Vec3) -> (r: Vec3)
        requires
            i32::MIN <= self.x + o.x <= i32::MAX,
            i32::MIN <= self.y + o.y <= i32::MAX,
            i32::MIN <= self.z + o.z <= i32::MAX,
        ensures
            r == (Vec3 { x: (self.x + o.x) as i32, y: (self.y + o.y) as i32, z: (self.z + o.z) as i32 }),
    {
        Vec3 { x: self.x + o.x, y: self.y + o.y, z: self.z + o.z }
    }

    /// Coordinate-wise difference; the caller shows each coordinate fits.
    pub fn minus(self, o: Vec3) -> (r: Vec3)
        requires
            i32::MIN <= self.x - o.x <= i32::MAX,
            i32::MIN <= self.y - o.y <= i32::MAX,
            i32::MIN <= self.z - o.z <= i32::MAX,
        ensures
            r == (Vec3 { x: (self.x - o.x) as i32, y: (self.y - o.y) as i32, z: (self.z - o.z) as i32 }),
    {
        Vec3 { x: self.x - o.x, y: self.y - o.y, z: self.z - o.z }
    }

    /// L1 distance to another cell, computed without overflow.
    pub fn l1_to(self, o: Vec3) -> (r: i64)
        ensures
            r == l1(self, o),
    {
        let dx: i64 = (self.x as i64) - (o.x as i64);
        let dy: i64 = (self.y as i64) - (o.y as i64);
        let dz: i64 = (self.z as i64) - (o.z as i64);
        let ax: i64 = if dx < 0 { -dx } else { dx };
        let ay: i64 = if dy < 0 { -dy } else { dy };
        let az: i64 = if dz < 0 { -dz } else { dz };
        ax + ay + az
    }
}

/// A block observation: the name seen at a cell.
#[derive(Clone, PartialEq, Eq, Debug)]
pub struct Block {
    pub name: String,
    pub pos: Vec3,
}

/// One of the four horizontal facings of a robot.
#[derive(Clone, Copy, PartialEq, Eq, Structural, Hash, Debug)]
pub enum Direction {
    North,
    South,
    East,
    West,
}

impl Direction {
    /// The facing after one 90-degree turn to the left.
    pub open spec fn spec_left(self) -> Direction {
        match self {
            Direction::North => Direction::West,
            Direction::South => Direction::East,
            Direction::East => Direction::North,
            Direction::West => Direction::South,
        }
    }

    /// The facing after one 90-degree turn to the right.
    pub open spec fn spec_right(self) -> Direction {
        match self {
            Direction::North => Direction::East,
            Direction::South => Direction::West,
            Direction::East => Direction::South,
            Direction::West => Direction::North,
        }
    }

    /// The horizontal unit vector of the facing: North is `-z`, South is
    /// `+z`, East is `+x`, West is `-x`.
    pub open spec fn spec_unit(self) -> Vec3 {
        match self {
            Direction::North => Vec3 { x: 0, y: 0, z: -1i32 },
            Direction::South => Vec3 { x: 0, y: 0, z: 1 },
            Direction::East => Vec3 { x: 1, y: 0, z: 0 },
            Direction::West => Vec3 { x: -1i32, y: 0, z: 0 },
        }
    }

    pub fn left(self) -> (r: Direction)
        ensures
            r == self.spec_left(),
    {
        match self {
            Direction::North => Direction::West,
            Direction::South => Direction::East,
            Direction::East => Direction::North,
            Direction::West => Direction::South,
        }
    }

    pub fn right(self) -> (r: Direction)
        ensures
            r == self.spec_right(),
    {
        match self {
            Direction::North => Direction::East,
            Direction::South => Direction::West,
            Direction::East => Direction::South,
            Direction::West => Direction::North,
        }
    }

    pub fn unit(self) -> (r: Vec3)
        ensures
            r == self.spec_unit(),
    {
        match self {
            Direction::North => Vec3 { x: 0, y: 0, z: -1 },
            Direction::South => Vec3 { x: 0, y: 0, z: 1 },
            Direction::East => Vec3 { x: 1, y: 0, z: 0 },
            Direction::West => Vec3 { x: -1, y: 0, z: 0 },
        }
    }
}

/// A left turn undoes a right turn and a right turn undoes a left turn.
pub proof fn lemma_turns_invert(d: Direction)
    ensures
        d.spec_right().spec_left() == d,
        d.spec_left().spec_right() == d,
{
}

/// Four turns in the same sense return a facing to itself.
pub proof fn lemma_four_turns_identity(d: Direction)
    ensures
        d.spec_left().spec_left().spec_left().spec_left() == d,
        d.spec_right().spec_right().spec_right().spec_right() == d,
{
}

/// A robot pose: a cell and a facing.
#[derive(Clone, Copy, PartialEq, Eq, Structural, Hash, Debug)]
pub struct Position {
    pub pos: Vec3,
    pub dir: Direction,
}

/// The pose that results from one primitive command, for the commands
/// that move or turn; any other command leaves the pose unchanged.
pub open spec fn spec_apply(p: Position, c: TurtleCommand) -> Position {
    match c {
        TurtleCommand::Left => Position { pos: p.pos, dir: p.dir.spec_left() },
        TurtleCommand::Right => Position { pos: p.pos, dir: p.dir.spec_right() },
        TurtleCommand::Forward(n) => Position {
            pos: Vec3 {
                x: (p.pos.x + n * p.dir.spec_unit().x) as i32,
                y: p.pos.y,
                z: (p.pos.z + n * p.dir.spec_unit().z) as i32,
            },
            dir: p.dir,
        },
        TurtleCommand::Backward(n) => Position {
            pos: Vec3 {
                x: (p.pos.x - n * p.dir.spec_unit().x) as i32,
                y: p.pos.y,
                z: (p.pos.z - n * p.dir.spec_unit().z) as i32,
            },
            dir: p.dir,
        },
        TurtleCommand::Up(n) => Position {
            pos: Vec3 { x: p.pos.x, y: (p.pos.y + n) as i32, z: p.pos.z },
            dir: p.dir,
        },
        TurtleCommand::Down(n) => Position {
            pos: Vec3 { x: p.pos.x, y: (p.pos.y - n) as i32, z: p.pos.z },
            dir: p.dir,
        },
        _ => p,
    }
}

/// Whether one primitive command maps pose `a` to pose `b`: a single
/// rotation in place, or a single-cell move forward, backward, up or down.
pub open spec fn primitive_step(a: Position, b: Position) -> bool {
    ||| (a.pos == b.pos && b.dir == a.dir.spec_left())
    ||| (a.pos == b.pos && b.dir == a.dir.spec_right())
    ||| (b.dir == a.dir && b.pos.x == a.pos.x + a.dir.spec_unit().x && b.pos.y == a.pos.y
        && b.pos.z == a.pos.z + a.dir.spec_unit().z)
    ||| (b.dir == a.dir && b.pos.x == a.pos.x - a.dir.spec_unit().x && b.pos.y == a.pos.y
        && b.pos.z == a.pos.z - a.dir.spec_unit().z)
    ||| (b.dir == a.dir && b.pos.x == a.pos.x && b.pos.y == a.pos.y + 1 && b.pos.z == a.pos.z)
    ||| (b.dir == a.dir && b.pos.x == a.pos.x && b.pos.y == a.pos.y - 1 && b.pos.z == a.pos.z)
}

impl Position {
    pub fn new(pos: Vec3, dir: Direction) -> (r: Self)
        ensures
            r == (Position { pos, dir }),
    {
        Self { pos, dir }
    }

    /// The robot command that maps this pose to the adjacent pose `to`,
    /// or `None` when no single primitive command does.
    pub fn difference(self, to: Position) -> (r: Option<TurtleCommand>)
        ensures
            r.is_some() <==> primitive_step(self, to),
            match r {
                Some(c) => spec_apply(self, c) == to,
                None => true,
            },
    {
        if self.pos == to.pos {
            if to.dir == self.dir.left() {
                Some(TurtleCommand::Left)
            } else if to.dir == self.dir.right() {
                Some(TurtleCommand::Right)
            } else {
                None
            }
        } else if to.dir == self.dir {
            let u = self.dir.unit();
            let tx: i64 = to.pos.x as i64;
            let ty: i64 = to.pos.y as i64;
            let tz: i64 = to.pos.z as i64;
            let sx: i64 = self.pos.x as i64;
            let sy: i64 = self.pos.y as i64;
            let sz: i64 = self.pos.z as i64;
            if tx == sx + u.x as i64 && ty == sy && tz == sz + u.z as i64 {
                Some(TurtleCommand::Forward(1))
            } else if tx == sx - u.x as i64 && ty == sy && tz == sz - u.z as i64 {
                Some(TurtleCommand::Backward(1))
            } else if tx == sx && ty == sy + 1 && tz == sz {
                Some(TurtleCommand::Up(1))
            } else if tx == sx && ty == sy - 1 && tz == sz {
                Some(TurtleCommand::Down(1))
            } else {
                None
            }
        } else {
            None
        }
    }

    /// The dig command aimed at cell `to`, chosen by height difference;
    /// `None` when `to` is not exactly one cell away. A cell level with
    /// the robot is assumed to be the one it faces.
    pub fn dig(&self, to: Vec3) -> (r: Option<TurtleCommand>)
        ensures
            r == spec_dig(*self, to),
    {
        if self.pos.l1_to(to) != 1 {
            return None;
        }
        let dy: i64 = (self.pos.y as i64) - (to.y as i64);
        if dy == 0 {
            Some(TurtleCommand::Dig)
        } else if dy == 1 {
            Some(TurtleCommand::DigDown)
        } else {
            Some(TurtleCommand::DigUp)
        }
    }

    /// The place command aimed at cell `to`, by the same rule as `dig`.
    pub fn place(&self, to: Vec3) -> (r: Option<TurtleCommand>)
        ensures
            r == spec_place(*self, to),
    {
        match self.dig(to) {
            Some(TurtleCommand::Dig) => Some(TurtleCommand::Place),
            Some(TurtleCommand::DigDown) => Some(TurtleCommand::PlaceDown),
            Some(TurtleCommand::DigUp) => Some(TurtleCommand::PlaceUp),
            _ => None,
        }
    }

    /// L1 distance between the cells of two poses; the caller shows the
    /// sum fits the return type.
    pub fn manhattan(self, other: Self) -> (r: i32)
        requires
            l1(self.pos, other.pos) <= i32::MAX,
        ensures
            r == l1(self.pos, other.pos),
    {
        self.pos.l1_to(other.pos) as i32
    }
}

/// The dig command aimed from pose `p` at cell `to`.
pub open spec fn spec_dig(p: Position, to: Vec3) -> Option<TurtleCommand> {
    if l1(p.pos, to) != 1 {
        None
    } else if p.pos.y == to.y {
        Some(TurtleCommand::Dig)
    } else if p.pos.y == to.y + 1 {
        Some(TurtleCommand::DigDown)
    } else {
        Some(TurtleCommand::DigUp)
    }
}

/// The place command aimed from pose `p` at cell `to`.
pub open spec fn spec_place(p: Position, to: Vec3) -> Option<TurtleCommand> {
    match spec_dig(p, to) {
        Some(TurtleCommand::Dig) => Some(TurtleCommand::Place),
        Some(TurtleCommand::DigDown) => Some(TurtleCommand::PlaceDown),
        Some(TurtleCommand::DigUp) => Some(TurtleCommand::PlaceUp),
        _ => None,
    }
}

/// The pose from which a robot coming from `from` would interact with
/// cell `to`: one cell back along the chosen approach axis. The axis
/// test keeps the historical quirk that both signs of the `z` axis pick
/// South.
pub fn nearest(from: Vec3, to: Vec3) -> (r: Position)
    requires
        i32::MIN < to.x,
        to.x < i32::MAX,
        i32::MIN < to.z,
    ensures
        r.dir == nearest_dir(from, to),
        r.pos.x == to.x - nearest_dir(from, to).spec_unit().x,
        r.pos.y == to.y,
        r.pos.z == to.z - nearest_dir(from, to).spec_unit().z,
{
    let dx: i64 = (to.x as i64) - (from.x as i64);
    let dz: i64 = (to.z as i64) - (from.z as i64);
    let ax: i64 = if dx < 0 { -dx } else { dx };
    let az: i64 = if dz < 0 { -dz } else { dz };
    let dir = if ax > az {
        if dx > 0 {
            Direction::East
        } else {
            Direction::West
        }
    } else {
        Direction::South
    };
    let u = dir.unit();
    Position { pos: Vec3 { x: to.x - u.x, y: to.y, z: to.z - u.z }, dir }
}

/// The facing `nearest` picks: the dominant horizontal axis of the
/// offset, with ties and the whole `z` axis going South.
pub open spec fn nearest_dir(from: Vec3, to: Vec3) -> Direction {
    let dx = to.x - from.x;
    let dz = to.z - from.z;
    if iabs(dx) > iabs(dz) {
        if dx > 0 {
            Direction::East
        } else {
            Direction::West
        }
    } else {
        Direction::South
    }
}

} // verus!

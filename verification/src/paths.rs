//! Block classification and the route planner: weighted shortest routes
//! between robot poses over the world store.
use vstd::prelude::*;

use crate::blocks::{l1, Position, Vec3};
use crate::strings::str_eq;
use crate::world::World;

verus! {

/// Blocks a robot may move through without breaking them.
pub open spec fn spec_transparent(name: Seq<char>) -> bool {
    ||| name == "minecraft:air"@
    ||| name == "minecraft:water"@
    ||| name == "minecraft:lava"@
}

/// Blocks that are fine to tunnel through.
pub open spec fn spec_garbage(name: Seq<char>) -> bool {
    ||| name == "minecraft:stone"@
    ||| name == "minecraft:dirt"@
    ||| name == "minecraft:andesite"@
    ||| name == "minecraft:sand"@
    ||| name == "minecraft:gravel"@
    ||| name == "minecraft:sandstone"@
    ||| name == "minecraft:deepslate"@
    ||| name == "twigs:rhyolite"@
    ||| name == "minecraft:spruce_leaves"@
    ||| name == "minecraft:oak_leaves"@
    ||| name == "traverse:fir_leaves"@
    ||| name == "terrestria:hemlock_leaves"@
    ||| name == "wilderwild:brown_shelf_fungus"@
    ||| name == "wilderwild:red_shelf_fungus"@
    ||| name == "minecraft:snow"@
}

/// The routing cost of entering a cell with this known block name:
/// transparent costs 1, garbage costs 2 to dig through, anything else
/// cannot be traversed.
pub open spec fn spec_difficulty(name: Seq<char>) -> Option<u32> {
    if spec_transparent(name) {
        Some(1u32)
    } else if spec_garbage(name) {
        Some(2u32)
    } else {
        None
    }
}

/// The routing cost the planner assumes for a cell nobody has seen yet.
pub const UNKNOWN_COST: u32 = 2;

/// Whether the named block is in the transparent set.
pub fn name_transparent(name: &str) -> (r: bool)
    ensures
        r == spec_transparent(name@),
{
    str_eq(name, "minecraft:air") || str_eq(name, "minecraft:water") || str_eq(
        name,
        "minecraft:lava",
    )
}

/// Whether the named block is in the garbage set.
pub fn name_garbage(name: &str) -> (r: bool)
    ensures
        r == spec_garbage(name@),
{
    str_eq(name, "minecraft:stone") || str_eq(name, "minecraft:dirt") || str_eq(
        name,
        "minecraft:andesite",
    ) || str_eq(name, "minecraft:sand") || str_eq(name, "minecraft:gravel") || str_eq(
        name,
        "minecraft:sandstone",
    ) || str_eq(name, "minecraft:deepslate") || str_eq(name, "twigs:rhyolite") || str_eq(
        name,
        "minecraft:spruce_leaves",
    ) || str_eq(name, "minecraft:oak_leaves") || str_eq(name, "traverse:fir_leaves") || str_eq(
        name,
        "terrestria:hemlock_leaves",
    ) || str_eq(name, "wilderwild:brown_shelf_fungus") || str_eq(
        name,
        "wilderwild:red_shelf_fungus",
    ) || str_eq(name, "minecraft:snow")
}

/// Time taken to go through a named block, if the robot may go there.
pub fn difficulty(name: &str) -> (r: Option<u32>)
    ensures
        r == spec_difficulty(name@),
{
    if name_transparent(name) {
        Some(1)
    } else if name_garbage(name) {
        Some(2)
    } else {
        None
    }
}

/// Nodes the planner may expand before it gives up on a route.
pub const LOOKUP_LIMIT: u64 = 100_000_000;

/// Whether a route may enter the cell: nobody has seen it yet, or its
/// known block is classified with a cost.
pub open spec fn enterable(w: Map<Vec3, Seq<char>>, c: Vec3) -> bool {
    ||| !w.contains_key(c)
    ||| spec_difficulty(w[c]) is Some
}

/// One planner step from pose `a` to pose `b` over the known world `w`:
/// a rotation in place, or a move forward, up or down into an enterable
/// cell. Backward is never planned.
pub open spec fn step_allowed(w: Map<Vec3, Seq<char>>, a: Position, b: Position) -> bool {
    ||| (b.pos == a.pos && (b.dir == a.dir.spec_left() || b.dir == a.dir.spec_right()))
    ||| (b.dir == a.dir && enterable(w, b.pos) && ((b.pos.x == a.pos.x + a.dir.spec_unit().x
        && b.pos.y == a.pos.y && b.pos.z == a.pos.z + a.dir.spec_unit().z) || (b.pos.x == a.pos.x
        && b.pos.y == a.pos.y + 1 && b.pos.z == a.pos.z) || (b.pos.x == a.pos.x && b.pos.y
        == a.pos.y - 1 && b.pos.z == a.pos.z)))
}

/// The cost the planner pays for a step: 1 to rotate, the classified
/// difficulty to enter a known cell, and the optimistic cost to enter an
/// unseen one.
pub open spec fn step_cost(w: Map<Vec3, Seq<char>>, a: Position, b: Position) -> u32 {
    if b.pos == a.pos {
        1u32
    } else if w.contains_key(b.pos) {
        spec_difficulty(w[b.pos])->0
    } else {
        UNKNOWN_COST
    }
}

/// Push one move candidate: enter `cell` facing `dir`, where the world
/// allows it.
fn push_move(out: &mut Vec<(Position, u32)>, from: Position, cell: Vec3, world: &World)
    requires
        world.wf(),
        step_allowed(world@, from, Position { pos: cell, dir: from.dir }) || !enterable(
            world@,
            cell,
        ),
    ensures
        final(out)@.len() >= old(out)@.len(),
        final(out)@.len() > old(out)@.len() ==> enterable(world@, cell),
        forall|k: int|
            0 <= k < final(out)@.len() ==> (#[trigger] final(out)@[k]) == if k < old(out)@.len() {
                old(out)@[k]
            } else {
                (
                    Position { pos: cell, dir: from.dir },
                    step_cost(world@, from, Position { pos: cell, dir: from.dir }),
                )
            },
{
    let cost: Option<u32> = match world.get(cell) {
        Some(b) => difficulty(b.name.as_str()),
        None => Some(UNKNOWN_COST),
    };
    match cost {
        Some(c) => {
            out.push((Position { pos: cell, dir: from.dir }, c));
        },
        None => {},
    }
}

/// The planner's neighbor candidates from a pose: both rotations, and
/// the forward, up and down moves the known world allows. A move whose
/// target coordinate would leave the coordinate type is left out.
pub fn neighbors(from: &Position, world: &World) -> (r: Vec<(Position, u32)>)
    requires
        world.wf(),
    ensures
        forall|k: int|
            0 <= k < r@.len() ==> step_allowed(world@, *from, (#[trigger] r@[k]).0) && r@[k].1
                == step_cost(world@, *from, r@[k].0),
{
    let mut out: Vec<(Position, u32)> = Vec::new();
    out.push((Position { pos: from.pos, dir: from.dir.left() }, 1));
    out.push((Position { pos: from.pos, dir: from.dir.right() }, 1));
    let u = from.pos;
    let unit = from.dir.unit();
    let ax: i64 = (u.x as i64) + (unit.x as i64);
    let az: i64 = (u.z as i64) + (unit.z as i64);
    if i32::MIN as i64 <= ax && ax <= i32::MAX as i64 && i32::MIN as i64 <= az && az
        <= i32::MAX as i64 {
        let ahead = Vec3 { x: ax as i32, y: u.y, z: az as i32 };
        push_move(&mut out, *from, ahead, world);
    }
    if u.y < i32::MAX {
        let above = Vec3 { x: u.x, y: u.y + 1, z: u.z };
        push_move(&mut out, *from, above, world);
    }
    if u.y > i32::MIN {
        let below = Vec3 { x: u.x, y: u.y - 1, z: u.z };
        push_move(&mut out, *from, below, world);
    }
    out
}

/// Whether pose `p` is the exact goal pose.
pub fn pose_matches(p: &Position, goal: &Position) -> (r: bool)
    ensures
        r == (*p == *goal),
{
    *p == *goal
}

/// Whether a robot at pose `p` can interact with cell `to`: the cell it
/// faces, the cell above it, or the cell below it is `to`.
pub open spec fn spec_facing_goal(p: Position, to: Vec3) -> bool {
    ||| (to.x == p.pos.x + p.dir.spec_unit().x && to.y == p.pos.y && to.z == p.pos.z
        + p.dir.spec_unit().z)
    ||| (to.x == p.pos.x && to.y == p.pos.y + 1 && to.z == p.pos.z)
    ||| (to.x == p.pos.x && to.y == p.pos.y - 1 && to.z == p.pos.z)
}

/// Whether a robot at pose `p` can interact with cell `to`.
pub fn facing_matches(p: &Position, to: Vec3) -> (r: bool)
    ensures
        r == spec_facing_goal(*p, to),
{
    let u = p.dir.unit();
    let px: i64 = p.pos.x as i64;
    let py: i64 = p.pos.y as i64;
    let pz: i64 = p.pos.z as i64;
    let tx: i64 = to.x as i64;
    let ty: i64 = to.y as i64;
    let tz: i64 = to.z as i64;
    (tx == px + u.x as i64 && ty == py && tz == pz + u.z as i64) || (tx == px && ty == py + 1 && tz
        == pz) || (tx == px && ty == py - 1 && tz == pz)
}

/// The largest distance estimate the planner hands the search. Every
/// step costs at most 2 and the budget admits at most `LOOKUP_LIMIT`
/// expansions, so path costs stay under `4 * LOOKUP_LIMIT`; capping the
/// estimate this far under the cost type's ceiling keeps the search's
/// cost-plus-estimate sums from ever overflowing.
pub const HEURISTIC_CAP: u32 = 3_894_967_295;

/// The planner's distance estimate from a pose to the goal cell: the L1
/// distance, capped so that adding accumulated path cost cannot leave
/// the cost type.
pub fn route_heuristic(p: &Position, to: Vec3) -> (r: u32)
    ensures
        r <= HEURISTIC_CAP,
        l1(p.pos, to) <= HEURISTIC_CAP ==> r == l1(p.pos, to),
{
    let d: i64 = p.pos.l1_to(to);
    if d > HEURISTIC_CAP as i64 {
        HEURISTIC_CAP
    } else {
        d as u32
    }
}

/// Bump the expansion budget; the search ends once the budget is spent
/// or `p` is the goal pose.
fn search_ends(count: &mut u64, p: &Position, goal: &Position) -> (r: bool)
    ensures
        *final(count) == if *old(count) < LOOKUP_LIMIT {
            (*old(count) + 1) as u64
        } else {
            *old(count)
        },
        r == (*final(count) >= LOOKUP_LIMIT || *p == *goal),
{
    if *count < LOOKUP_LIMIT {
        *count = *count + 1;
    }
    *count >= LOOKUP_LIMIT || pose_matches(p, goal)
}

/// Bump the expansion budget; the search ends once the budget is spent
/// or `p` can interact with the goal cell.
fn search_ends_facing(count: &mut u64, p: &Position, to: Vec3) -> (r: bool)
    ensures
        *final(count) == if *old(count) < LOOKUP_LIMIT {
            (*old(count) + 1) as u64
        } else {
            *old(count)
        },
        r == (*final(count) >= LOOKUP_LIMIT || spec_facing_goal(*p, to)),
{
    if *count < LOOKUP_LIMIT {
        *count = *count + 1;
    }
    *count >= LOOKUP_LIMIT || facing_matches(p, to)
}

/// What the search returns for an exact goal pose over a given known
/// world: a function of the world, start and goal alone, since the
/// search and its closures draw on nothing else.
pub uninterp spec fn astar_of(w: Map<Vec3, Seq<char>>, from: Position, to: Position) -> Option<
    Seq<Position>,
>;

/// What the search returns for an interact-with-cell goal over a given
/// known world.
pub uninterp spec fn astar_facing_of(w: Map<Vec3, Seq<char>>, from: Position, to: Vec3) -> Option<
    Seq<Position>,
>;

/// Relies on pathfinding::prelude::astar: a returned path starts at the
/// start node and each successive node is one that the successors
/// closure -- the verified `neighbors` -- produced for its predecessor.
/// The search may also stop on the budget, so nothing is assumed about
/// where the path ends. The search is deterministic in its arguments,
/// so with a fresh budget its outcome is a function of the world, start
/// and goal, named `astar_of`. It cannot panic: every estimate is at
/// most `HEURISTIC_CAP` and the budget keeps accumulated path costs
/// under `4 * LOOKUP_LIMIT`, so the search's cost-plus-estimate sums
/// stay inside the cost type.
#[verifier::external_body]
fn astar_search(start: &Position, world: &World, goal: &Position, budget: &mut u64) -> (r: Option<
    Vec<Position>,
>)
    requires
        world.wf(),
        *old(budget) == 0,
    ensures
        match r {
            Some(path) => astar_of(world@, *start, *goal) == Some(path@) && path@.len() >= 1
                && path@[0] == *start && forall|i: int|
                0 <= i < path@.len() - 1 ==> step_allowed(
                    world@,
                    #[trigger] path@[i],
                    path@[i + 1],
                ),
            None => astar_of(world@, *start, *goal) is None,
        },
{
    pathfinding::prelude::astar(
        start,
        |p: &Position| neighbors(p, world),
        |p: &Position| route_heuristic(p, goal.pos),
        |p: &Position| search_ends(budget, p, goal),
    ).map(|found| found.0)
}

/// Relies on pathfinding::prelude::astar, as `astar_search` does, with
/// the goal predicate "can interact with the cell"; its outcome with a
/// fresh budget is named `astar_facing_of`.
#[verifier::external_body]
fn astar_search_facing(start: &Position, world: &World, to: Vec3, budget: &mut u64) -> (r: Option<
    Vec<Position>,
>)
    requires
        world.wf(),
        *old(budget) == 0,
    ensures
        match r {
            Some(path) => astar_facing_of(world@, *start, to) == Some(path@) && path@.len() >= 1
                && path@[0] == *start && forall|i: int|
                0 <= i < path@.len() - 1 ==> step_allowed(
                    world@,
                    #[trigger] path@[i],
                    path@[i + 1],
                ),
            None => astar_facing_of(world@, *start, to) is None,
        },
{
    pathfinding::prelude::astar(
        start,
        |p: &Position| neighbors(p, world),
        |p: &Position| route_heuristic(p, to),
        |p: &Position| search_ends_facing(budget, p, to),
    ).map(|found| found.0)
}

/// Whether a pose sequence is a route the planner may hand out over the
/// known world `w`: nonempty, and every consecutive pair one allowed
/// step.
pub open spec fn valid_route(w: Map<Vec3, Seq<char>>, path: Seq<Position>) -> bool {
    &&& path.len() >= 1
    &&& forall|i: int| 0 <= i < path.len() - 1 ==> step_allowed(w, #[trigger] path[i], path[i + 1])
}

/// What `route` hands out: nothing for a goal cell known to be hard;
/// otherwise the search's result, kept only when it reached the exact
/// goal pose (a budget-stopped search ends elsewhere and is discarded).
pub open spec fn route_of(w: Map<Vec3, Seq<char>>, from: Position, to: Position) -> Option<
    Seq<Position>,
> {
    if w.contains_key(to.pos) && spec_difficulty(w[to.pos]) is None {
        None
    } else {
        match astar_of(w, from, to) {
            Some(path) => if path.len() >= 1 && path[path.len() - 1] == to {
                Some(path)
            } else {
                None
            },
            None => None,
        }
    }
}

/// What `route_facing` hands out: the search's result, kept only when
/// its last pose can interact with the goal cell.
pub open spec fn route_facing_of(w: Map<Vec3, Seq<char>>, from: Position, to: Vec3) -> Option<
    Seq<Position>,
> {
    match astar_facing_of(w, from, to) {
        Some(path) => if path.len() >= 1 && spec_facing_goal(path[path.len() - 1], to) {
            Some(path)
        } else {
            None
        },
        None => None,
    }
}

/// A route from one pose to an exact goal pose: exactly `route_of` over
/// the known world. A returned route is valid, starts at `from` and
/// ends at `to`; a goal cell known to be neither transparent nor
/// garbage fails at once.
pub fn route(from: Position, to: Position, world: &World) -> (r: Option<Vec<Position>>)
    requires
        world.wf(),
    ensures
        match r {
            Some(path) => route_of(world@, from, to) == Some(path@) && valid_route(world@, path@)
                && path@[0] == from && path@[path@.len() - 1] == to,
            None => route_of(world@, from, to) is None,
        },
{
    match world.get(to.pos) {
        Some(b) => {
            if difficulty(b.name.as_str()).is_none() {
                return None;
            }
        },
        None => {},
    }
    let mut budget: u64 = 0;
    match astar_search(&from, world, &to, &mut budget) {
        Some(path) => {
            if path.len() >= 1 && pose_matches(&path[path.len() - 1], &to) {
                Some(path)
            } else {
                None
            }
        },
        None => None,
    }
}

/// A route from a pose to any pose that can interact with the cell
/// `to`: exactly `route_facing_of` over the known world.
pub fn route_facing(from: Position, to: Vec3, world: &World) -> (r: Option<Vec<Position>>)
    requires
        world.wf(),
    ensures
        match r {
            Some(path) => route_facing_of(world@, from, to) == Some(path@) && valid_route(
                world@,
                path@,
            ) && path@[0] == from && spec_facing_goal(path@[path@.len() - 1], to),
            None => route_facing_of(world@, from, to) is None,
        },
{
    let mut budget: u64 = 0;
    match astar_search_facing(&from, world, to, &mut budget) {
        Some(path) => {
            if path.len() >= 1 && facing_matches(&path[path.len() - 1], to) {
                Some(path)
            } else {
                None
            }
        },
        None => None,
    }
}

/// Each allowed step moves the robot by at most one cell.
pub proof fn lemma_step_moves_one(w: Map<Vec3, Seq<char>>, a: Position, b: Position)
    requires
        step_allowed(w, a, b),
    ensures
        l1(a.pos, b.pos) <= 1,
        crate::blocks::primitive_step(a, b),
{
}

/// A route is never shorter than the straight-line cell distance: the
/// number of steps of a valid route is at least the L1 distance between
/// its first and last cells, and every consecutive pair of poses is
/// adjacent by one primitive command.
pub proof fn lemma_route_admissible(w: Map<Vec3, Seq<char>>, path: Seq<Position>)
    requires
        valid_route(w, path),
    ensures
        path.len() - 1 >= l1(path[0].pos, path[path.len() - 1].pos),
        forall|i: int|
            0 <= i < path.len() - 1 ==> crate::blocks::primitive_step(
                #[trigger] path[i],
                path[i + 1],
            ),
    decreases path.len(),
{
    assert forall|i: int| 0 <= i < path.len() - 1 implies crate::blocks::primitive_step(
        #[trigger] path[i],
        path[i + 1],
    ) by {
        lemma_step_moves_one(w, path[i], path[i + 1]);
    }
    if path.len() >= 2 {
        let rest = path.drop_first();
        assert forall|i: int| 0 <= i < rest.len() - 1 implies step_allowed(
            w,
            #[trigger] rest[i],
            rest[i + 1],
        ) by {
            assert(rest[i] == path[i + 1]);
            assert(rest[i + 1] == path[i + 2]);
        }
        lemma_route_admissible(w, rest);
        lemma_step_moves_one(w, path[0], path[1]);
        assert(rest[0] == path[1]);
        assert(rest[rest.len() - 1] == path[path.len() - 1]);
    }
}

/// No step of a valid route enters a cell that is known and classified
/// as neither transparent nor garbage: hard blocks are never traversed.
pub proof fn lemma_route_sound(w: Map<Vec3, Seq<char>>, path: Seq<Position>)
    requires
        valid_route(w, path),
    ensures
        forall|i: int|
            0 < i < path.len() && (#[trigger] path[i]).pos != path[i - 1].pos ==> enterable(
                w,
                path[i].pos,
            ),
{
    assert forall|i: int| 0 < i < path.len() && (#[trigger] path[i]).pos != path[i
        - 1].pos implies enterable(w, path[i].pos) by {
        assert(step_allowed(w, path[i - 1], path[i]));
    }
}

} // verus!

//! The chunked voxel world store: a mapping from cells to block names,
//! held in fixed-side cubic chunks with a last-touched hint and a hash
//! index from chunk coordinates to chunk storage.
use vstd::prelude::*;

use std::collections::HashMap;

use crate::blocks::{Block, Vec3};
use crate::paths;

verus! {

use vstd::std_specs::hash::obeys_key_model;

/// Chunk coordinate of one axis: floor division of the cell coordinate
/// by the chunk side.
pub open spec fn chunk_coord(x: int) -> int {
    x / 4
}

/// The chunk a cell belongs to, by coordinate-wise floor division.
pub open spec fn chunk_of(c: Vec3) -> Vec3 {
    Vec3 {
        x: chunk_coord(c.x as int) as i32,
        y: chunk_coord(c.y as int) as i32,
        z: chunk_coord(c.z as int) as i32,
    }
}

/// Offset of a cell inside its chunk, flattened to a slot in `[0, 64)`.
pub open spec fn local_of(c: Vec3) -> int {
    (c.x as int % 4) * 16 + (c.y as int % 4) * 4 + (c.z as int % 4)
}

/// Two cells with the same chunk and the same slot are the same cell.
pub proof fn lemma_local_injective(a: Vec3, b: Vec3)
    requires
        chunk_of(a) == chunk_of(b),
        local_of(a) == local_of(b),
    ensures
        a == b,
{
    assert(a.x as int % 4 == b.x as int % 4 && a.y as int % 4 == b.y as int % 4 && a.z as int % 4
        == b.z as int % 4);
    assert(a.x as int == 4 * chunk_coord(a.x as int) + a.x as int % 4);
    assert(b.x as int == 4 * chunk_coord(b.x as int) + b.x as int % 4);
    assert(a.y as int == 4 * chunk_coord(a.y as int) + a.y as int % 4);
    assert(b.y as int == 4 * chunk_coord(b.y as int) + b.y as int % 4);
    assert(a.z as int == 4 * chunk_coord(a.z as int) + a.z as int % 4);
    assert(b.z as int == 4 * chunk_coord(b.z as int) + b.z as int % 4);
}

/// The slot of a cell is always a valid index into chunk storage.
pub proof fn lemma_local_range(c: Vec3)
    ensures
        0 <= local_of(c) < 64,
{
}

/// The packed index key of a chunk coordinate: three 32-bit digits.
pub open spec fn key_of(p: Vec3) -> u128 {
    (((p.x + 0x8000_0000) * 0x1_0000_0000 + (p.y + 0x8000_0000)) * 0x1_0000_0000 + (p.z
        + 0x8000_0000)) as u128
}

/// Distinct chunk coordinates pack to distinct index keys.
pub proof fn lemma_key_injective(p: Vec3, q: Vec3)
    requires
        key_of(p) == key_of(q),
    ensures
        p == q,
{
    let b: int = 0x1_0000_0000;
    let pa: int = p.x + 0x8000_0000;
    let pb: int = p.y + 0x8000_0000;
    let pc: int = p.z + 0x8000_0000;
    let qa: int = q.x + 0x8000_0000;
    let qb: int = q.y + 0x8000_0000;
    let qc: int = q.z + 0x8000_0000;
    let kp: int = (pa * b + pb) * b + pc;
    let kq: int = (qa * b + qb) * b + qc;
    assert(0 <= pa * b + pb < b * b && 0 <= qa * b + qb < b * b) by (nonlinear_arith)
        requires
            0 <= pa < b,
            0 <= pb < b,
            0 <= qa < b,
            0 <= qb < b,
            b == 0x1_0000_0000,
    ;
    assert(0 <= kp < b * b * b && 0 <= kq < b * b * b) by (nonlinear_arith)
        requires
            0 <= pa * b + pb < b * b,
            0 <= qa * b + qb < b * b,
            0 <= pc < b,
            0 <= qc < b,
            kp == (pa * b + pb) * b + pc,
            kq == (qa * b + qb) * b + qc,
            b == 0x1_0000_0000,
    ;
    assert(kp == kq);
    vstd::arithmetic::div_mod::lemma_fundamental_div_mod_converse(kp, b, pa * b + pb, pc);
    vstd::arithmetic::div_mod::lemma_fundamental_div_mod_converse(kq, b, qa * b + qb, qc);
    assert(pa * b + pb == qa * b + qb && pc == qc);
    vstd::arithmetic::div_mod::lemma_fundamental_div_mod_converse(pa * b + pb, b, pa, pb);
    vstd::arithmetic::div_mod::lemma_fundamental_div_mod_converse(qa * b + qb, b, qa, qb);
    assert(pa == qa && pb == qb);
}

/// Floor division of a cell coordinate by the chunk side.
fn floor_div_side(x: i32) -> (r: i32)
    ensures
        r == chunk_coord(x as int),
{
    let q: i32 = x / 4;
    let rem: i32 = x % 4;
    if rem < 0 {
        q - 1
    } else {
        q
    }
}

/// Euclidean remainder of a cell coordinate by the chunk side.
fn rem_side(x: i32) -> (r: i32)
    ensures
        r == x as int % 4,
{
    let rem: i32 = x % 4;
    if rem < 0 {
        rem + 4
    } else {
        rem
    }
}

/// The chunk a cell belongs to.
pub fn chunk_coords(c: Vec3) -> (r: Vec3)
    ensures
        r == chunk_of(c),
{
    Vec3 { x: floor_div_side(c.x), y: floor_div_side(c.y), z: floor_div_side(c.z) }
}

/// The packed index key of a chunk coordinate.
fn chunk_key(p: Vec3) -> (r: u128)
    ensures
        r == key_of(p),
{
    let b: u128 = 0x1_0000_0000;
    let a0: u128 = ((p.x as i64) + 0x8000_0000i64) as u128;
    let a1: u128 = ((p.y as i64) + 0x8000_0000i64) as u128;
    let a2: u128 = ((p.z as i64) + 0x8000_0000i64) as u128;
    assert((a0 * b + a1) * b + a2 < 0x1_0000_0000_0000_0000_0000_0000 && (a0 * b + a1) * b + a2
        == ((p.x + 0x8000_0000) * 0x1_0000_0000 + (p.y + 0x8000_0000)) * 0x1_0000_0000 + (p.z
        + 0x8000_0000)) by (nonlinear_arith)
        requires
            0 <= a0 < b,
            0 <= a1 < b,
            0 <= a2 < b,
            b == 0x1_0000_0000,
            a0 == p.x + 0x8000_0000,
            a1 == p.y + 0x8000_0000,
            a2 == p.z + 0x8000_0000,
    ;
    (a0 * b + a1) * b + a2
}

/// One cubic storage tile of the world: 64 optional block names, at a
/// chunk coordinate.
pub struct Chunk {
    /// Position in chunk coordinates (cell coordinates divided by the side).
    pub pos: Vec3,
    /// Flattened 4x4x4 slots.
    pub data: Vec<Option<String>>,
}

impl Chunk {
    /// Storage has exactly one slot for each cell of the chunk.
    pub open spec fn wf(self) -> bool {
        self.data@.len() == 64
    }

    /// The cells this chunk records, with their names.
    pub open spec fn cview(self) -> Map<Vec3, Seq<char>> {
        Map::new(
            |c: Vec3| chunk_of(c) == self.pos && self.data@[local_of(c)] is Some,
            |c: Vec3| self.data@[local_of(c)]->0@,
        )
    }

    /// A fresh, empty chunk at the given chunk coordinate.
    fn new(pos: Vec3) -> (r: Chunk)
        ensures
            r.wf(),
            r.pos == pos,
            r.cview() == Map::<Vec3, Seq<char>>::empty(),
    {
        let data: Vec<Option<String>> = vec![None;64];
        let r = Chunk { pos, data };
        proof {
            assert(r.cview() =~= Map::<Vec3, Seq<char>>::empty());
        }
        r
    }

    /// Whether the cell falls inside this chunk.
    fn contains(&self, cell: Vec3) -> (r: bool)
        ensures
            r == (chunk_of(cell) == self.pos),
    {
        let cc = chunk_coords(cell);
        cc.x == self.pos.x && cc.y == self.pos.y && cc.z == self.pos.z
    }

    /// The name recorded for a cell of this chunk, if any.
    fn get_name(&self, cell: Vec3) -> (r: Option<&String>)
        requires
            self.wf(),
            chunk_of(cell) == self.pos,
        ensures
            match r {
                Some(name) => self.cview().contains_key(cell) && name@ == self.cview()[cell],
                None => !self.cview().contains_key(cell),
            },
    {
        proof {
            lemma_local_range(cell);
        }
        let idx: usize = (rem_side(cell.x) * 16 + rem_side(cell.y) * 4 + rem_side(cell.z)) as usize;
        match &self.data[idx] {
            Some(name) => Some(name),
            None => None,
        }
    }

    /// Record a name for a cell of this chunk, overwriting any old one.
    fn set_name(&mut self, cell: Vec3, name: String)
        requires
            old(self).wf(),
            chunk_of(cell) == old(self).pos,
        ensures
            final(self).wf(),
            final(self).pos == old(self).pos,
            final(self).cview() == old(self).cview().insert(cell, name@),
    {
        proof {
            lemma_local_range(cell);
        }
        let idx: usize = (rem_side(cell.x) * 16 + rem_side(cell.y) * 4 + rem_side(cell.z)) as usize;
        self.data[idx] = Some(name);
        proof {
            let newview = final(self).cview();
            let target = old(self).cview().insert(cell, name@);
            assert forall|c: Vec3| #[trigger] newview.contains_key(c) implies target.contains_key(
                c,
            ) && newview[c] == target[c] by {
                if c != cell && local_of(c) == local_of(cell) && chunk_of(c) == old(self).pos {
                    lemma_local_injective(c, cell);
                }
            }
            assert forall|c: Vec3| #[trigger] target.contains_key(c) implies newview.contains_key(
                c,
            ) by {
                if c != cell && local_of(c) == local_of(cell) && chunk_of(c) == old(self).pos {
                    lemma_local_injective(c, cell);
                }
            }
            assert(newview =~= target);
        }
    }
}

/// Overwriting one cell of the represented mapping changes that cell to
/// the newest name and no other: reading any sequence of `set` calls
/// back through `get` yields, per cell, the most recent write, and
/// absence where none happened. `set` ensures the view becomes exactly
/// this insertion and `get` ensures the result is exactly the view's
/// entry, so the round trip follows from this map algebra.
pub proof fn lemma_world_round_trip(
    m: Map<Vec3, Seq<char>>,
    cell: Vec3,
    name: Seq<char>,
    other: Vec3,
)
    requires
        other != cell,
    ensures
        m.insert(cell, name).contains_key(cell),
        m.insert(cell, name)[cell] == name,
        m.insert(cell, name).contains_key(other) <==> m.contains_key(other),
        m.contains_key(other) ==> m.insert(cell, name)[other] == m[other],
{
}

/// The whole voxel map: chunks, a hash index from packed chunk
/// coordinates to chunk storage, and a last-touched hint.
pub struct World {
    /// Packed chunk coordinate to position in `data`.
    pub index: HashMap<u128, usize>,
    /// Chunk storage, in creation order.
    pub data: Vec<Chunk>,
    /// The chunk most recently written, tried before the index.
    pub last: Option<usize>,
}

impl World {
    /// The storage invariant: chunks are well-formed, and the index is
    /// exactly the set of stored chunk coordinates.
    pub open spec fn wf(self) -> bool {
        &&& obeys_key_model::<u128>()
        &&& forall|i: int|
            0 <= i < self.data@.len() ==> (#[trigger] self.data@[i]).wf()
        &&& forall|i: int|
            0 <= i < self.data@.len() ==> self.index@.contains_key(
                key_of(#[trigger] self.data@[i].pos),
            ) && self.index@[key_of(self.data@[i].pos)] == i
        &&& forall|k: u128|
            self.index@.contains_key(k) ==> 0 <= #[trigger] self.index@[k] < self.data@.len()
                && key_of(self.data@[self.index@[k] as int].pos) == k
        &&& match self.last {
            Some(i) => i < self.data@.len(),
            None => true,
        }
    }

    /// The mapping this store represents: each recorded cell to its name.
    pub open spec fn view(self) -> Map<Vec3, Seq<char>> {
        Map::new(
            |c: Vec3|
                exists|i: int|
                    0 <= i < self.data@.len() && (#[trigger] self.data@[i]).cview().contains_key(c),
            |c: Vec3|
                {
                    let i = choose|i: int|
                        0 <= i < self.data@.len() && (#[trigger] self.data@[i]).cview().contains_key(
                            c,
                        );
                    self.data@[i].cview()[c]
                },
        )
    }

    /// In a well-formed world the chunk holding a cell is unique, so the
    /// view reads back exactly what that chunk records.
    pub proof fn lemma_view_at(self, i: int, c: Vec3)
        requires
            self.wf(),
            0 <= i < self.data@.len(),
            self.data@[i].cview().contains_key(c),
        ensures
            self@.contains_key(c),
            self@[c] == self.data@[i].cview()[c],
    {
        let j = choose|j: int|
            0 <= j < self.data@.len() && (#[trigger] self.data@[j]).cview().contains_key(c);
        if i != j {
            assert(self.data@[i].pos == chunk_of(c));
            assert(self.data@[j].pos == chunk_of(c));
            assert(self.index@[key_of(self.data@[i].pos)] == i);
            assert(self.index@[key_of(self.data@[j].pos)] == j);
        }
    }

    /// A fresh, empty world.
    pub fn new() -> (r: Self)
        ensures
            r.wf(),
            r@ == Map::<Vec3, Seq<char>>::empty(),
    {
        proof {
            broadcast use vstd::std_specs::hash::group_hash_axioms;

        }
        let r = World { index: HashMap::new(), data: Vec::new(), last: None };
        proof {
            assert(r@ =~= Map::<Vec3, Seq<char>>::empty());
        }
        r
    }

    /// The block recorded at a cell, or `None` where the world is
    /// unknown.
    pub fn get(&self, block: Vec3) -> (r: Option<Block>)
        requires
            self.wf(),
        ensures
            match r {
                Some(b) => self@.contains_key(block) && b.pos == block && b.name@ == self@[block],
                None => !self@.contains_key(block),
            },
    {
        proof {
            broadcast use vstd::std_specs::hash::group_hash_axioms;

        }
        // the last-touched chunk first: most lookups repeat a chunk
        match self.last {
            Some(l) => {
                let hinted = &self.data[l];
                if hinted.contains(block) {
                    let r = match hinted.get_name(block) {
                        Some(name) => Some(Block { name: name.clone(), pos: block }),
                        None => None,
                    };
                    proof {
                        match r {
                            Some(_) => self.lemma_view_at(l as int, block),
                            None => {
                                self.lemma_view_none(block);
                            },
                        }
                    }
                    return r;
                }
            },
            None => {},
        }
        let key: u128 = chunk_key(chunk_coords(block));
        match self.index.get(&key) {
            Some(i) => {
                let chunk = &self.data[*i];
                proof {
                    lemma_key_injective(chunk.pos, chunk_of(block));
                }
                let r = match chunk.get_name(block) {
                    Some(name) => Some(Block { name: name.clone(), pos: block }),
                    None => None,
                };
                proof {
                    match r {
                        Some(_) => self.lemma_view_at(*i as int, block),
                        None => {
                            self.lemma_view_none(block);
                        },
                    }
                }
                r
            },
            None => {
                proof {
                    self.lemma_view_none(block);
                }
                None
            },
        }
    }

    /// A cell absent from the chunk that would hold it is absent from
    /// the view.
    proof fn lemma_view_none(self, c: Vec3)
        requires
            self.wf(),
            forall|i: int|
                0 <= i < self.data@.len() && (#[trigger] self.data@[i]).pos == chunk_of(c)
                    ==> !self.data@[i].cview().contains_key(c),
        ensures
            !self@.contains_key(c),
    {
    }

    /// Record a block: overwrite the cell if its chunk exists, create
    /// the chunk otherwise.
    pub fn set(&mut self, block: Block)
        requires
            old(self).wf(),
        ensures
            final(self).wf(),
            final(self)@ == old(self)@.insert(block.pos, block.name@),
    {
        proof {
            broadcast use vstd::std_specs::hash::group_hash_axioms;

        }
        let cell = block.pos;
        let cc = chunk_coords(cell);
        let hint_hit: bool = match self.last {
            Some(l) => self.data[l].contains(cell),
            None => false,
        };
        let found: Option<usize> = if hint_hit {
            match self.last {
                Some(l) => Some(l),
                None => None,
            }
        } else {
            let key: u128 = chunk_key(cc);
            match self.index.get(&key) {
                Some(i) => {
                    proof {
                        lemma_key_injective(self.data@[*i as int].pos, cc);
                    }
                    Some(*i)
                },
                None => None,
            }
        };
        match found {
            Some(i) => {
                let ghost oldself = *self;
                self.last = Some(i);
                proof {
                    assert(oldself.data@[i as int].pos == chunk_of(cell));
                }
                let chunk = &mut self.data[i];
                chunk.set_name(cell, block.name);
                proof {
                    self.lemma_set_in_chunk(oldself, i as int, cell, block.name@);
                }
            },
            None => {
                let ghost oldself = *self;
                let mut chunk = Chunk::new(cc);
                chunk.set_name(cell, block.name);
                let key: u128 = chunk_key(cc);
                let idx: usize = self.data.len();
                self.data.push(chunk);
                self.index.insert(key, idx);
                proof {
                    self.lemma_set_new_chunk(oldself, cell, block.name@);
                }
            },
        }
    }

    /// Writing into the chunk that holds a cell inserts exactly that
    /// cell into the view and preserves the invariant.
    proof fn lemma_set_in_chunk(self, old_w: World, i: int, cell: Vec3, name: Seq<char>)
        requires
            old_w.wf(),
            0 <= i < old_w.data@.len(),
            old_w.data@[i].pos == chunk_of(cell),
            self.index == old_w.index,
            self.data@ == old_w.data@.update(i, self.data@[i]),
            self.data@[i].wf(),
            self.data@[i].pos == old_w.data@[i].pos,
            self.data@[i].cview() == old_w.data@[i].cview().insert(cell, name),
            self.last == Some(i as usize),
            i < self.data@.len(),
        ensures
            self.wf(),
            self@ == old_w@.insert(cell, name),
    {
        assert(self.data@.len() == old_w.data@.len());
        assert forall|j: int| 0 <= j < self.data@.len() implies (#[trigger] self.data@[j]).wf()
            && self.index@.contains_key(key_of(self.data@[j].pos)) && self.index@[key_of(
            self.data@[j].pos,
        )] == j by {
            assert(old_w.data@[j].wf());
            if j != i {
                assert(self.data@[j] == old_w.data@[j]);
            }
        }
        assert(self.wf());
        assert forall|c: Vec3| #[trigger] self@.contains_key(c) implies old_w@.insert(
            cell,
            name,
        ).contains_key(c) && self@[c] == old_w@.insert(cell, name)[c] by {
            let j = choose|j: int|
                0 <= j < self.data@.len() && (#[trigger] self.data@[j]).cview().contains_key(c);
            self.lemma_view_at(j, c);
            if c == cell {
                assert(self.data@[i].cview().contains_key(c));
                self.lemma_view_at(i, c);
            } else {
                if j == i {
                    assert(old_w.data@[i].cview().contains_key(c));
                    old_w.lemma_view_at(i, c);
                } else {
                    assert(old_w.data@[j].cview().contains_key(c));
                    old_w.lemma_view_at(j, c);
                }
            }
        }
        assert forall|c: Vec3| #[trigger] old_w@.insert(cell, name).contains_key(c) implies
            self@.contains_key(c) by {
            if c == cell {
                assert(self.data@[i].cview().contains_key(c));
                self.lemma_view_at(i, c);
            } else {
                let j = choose|j: int|
                    0 <= j < old_w.data@.len() && (#[trigger] old_w.data@[j]).cview().contains_key(
                        c,
                    );
                if j == i {
                    assert(self.data@[i].cview().contains_key(c));
                    self.lemma_view_at(i, c);
                } else {
                    assert(self.data@[j].cview().contains_key(c));
                    self.lemma_view_at(j, c);
                }
            }
        }
        assert(self@ =~= old_w@.insert(cell, name));
    }

    /// Creating a chunk for an unindexed coordinate and writing one cell
    /// inserts exactly that cell into the view and preserves the
    /// invariant.
    proof fn lemma_set_new_chunk(self, old_w: World, cell: Vec3, name: Seq<char>)
        requires
            old_w.wf(),
            !old_w.index@.contains_key(key_of(chunk_of(cell))),
            self.data@.len() == old_w.data@.len() + 1,
            self.data@ == old_w.data@.push(self.data@[old_w.data@.len() as int]),
            self.data@[old_w.data@.len() as int].wf(),
            self.data@[old_w.data@.len() as int].pos == chunk_of(cell),
            self.data@[old_w.data@.len() as int].cview() == Map::<Vec3, Seq<char>>::empty().insert(
                cell,
                name,
            ),
            self.index@ == old_w.index@.insert(key_of(chunk_of(cell)), old_w.data@.len() as usize),
            self.last == old_w.last,
        ensures
            self.wf(),
            self@ == old_w@.insert(cell, name),
    {
        let n = old_w.data@.len() as int;
        assert(old_w.data@.len() == vstd::std_specs::vec::spec_vec_len(&old_w.data));
        assert(old_w.data@.len() <= usize::MAX);
        assert(self.index@[key_of(chunk_of(cell))] as int == n);
        assert forall|j: int| 0 <= j < self.data@.len() implies (#[trigger] self.data@[j]).wf()
            && self.index@.contains_key(key_of(self.data@[j].pos)) && self.index@[key_of(
            self.data@[j].pos,
        )] == j by {
            if j < n {
                assert(self.data@[j] == old_w.data@[j]);
                assert(old_w.data@[j].wf());
                assert(old_w.index@.contains_key(key_of(old_w.data@[j].pos)));
                if key_of(self.data@[j].pos) == key_of(chunk_of(cell)) {
                    assert(false);
                }
            }
        }
        assert forall|k: u128| self.index@.contains_key(k) implies 0 <= #[trigger] self.index@[k]
            < self.data@.len() && key_of(self.data@[self.index@[k] as int].pos) == k by {
            if k != key_of(chunk_of(cell)) {
                assert(old_w.index@.contains_key(k));
                assert(self.data@[old_w.index@[k] as int] == old_w.data@[old_w.index@[k] as int]);
            }
        }
        assert(self.wf());
        assert forall|c: Vec3| #[trigger] self@.contains_key(c) implies old_w@.insert(
            cell,
            name,
        ).contains_key(c) && self@[c] == old_w@.insert(cell, name)[c] by {
            let j = choose|j: int|
                0 <= j < self.data@.len() && (#[trigger] self.data@[j]).cview().contains_key(c);
            self.lemma_view_at(j, c);
            if j == n {
                assert(c == cell);
            } else {
                assert(self.data@[j] == old_w.data@[j]);
                old_w.lemma_view_at(j, c);
                if c == cell {
                    assert(old_w.data@[j].pos == chunk_of(cell));
                    assert(old_w.index@.contains_key(key_of(old_w.data@[j].pos)));
                    assert(false);
                }
            }
        }
        assert forall|c: Vec3| #[trigger] old_w@.insert(cell, name).contains_key(c) implies
            self@.contains_key(c) by {
            if c == cell {
                assert(self.data@[n].cview().contains_key(c));
                self.lemma_view_at(n, c);
            } else {
                let j = choose|j: int|
                    0 <= j < old_w.data@.len() && (#[trigger] old_w.data@[j]).cview().contains_key(
                        c,
                    );
                assert(self.data@[j] == old_w.data@[j]);
                assert(self.data@[j].cview().contains_key(c));
                self.lemma_view_at(j, c);
            }
        }
        assert(self@ =~= old_w@.insert(cell, name));
    }

    /// Two recorded cells sit in the same stored chunk exactly when
    /// their coordinate-wise floor divisions by the chunk side agree.
    pub proof fn lemma_chunk_partitioning(self, i: int, j: int, a: Vec3, b: Vec3)
        requires
            self.wf(),
            0 <= i < self.data@.len(),
            0 <= j < self.data@.len(),
            self.data@[i].cview().contains_key(a),
            self.data@[j].cview().contains_key(b),
        ensures
            (i == j) <==> (chunk_of(a) == chunk_of(b)),
    {
        assert(self.data@[i].pos == chunk_of(a));
        assert(self.data@[j].pos == chunk_of(b));
        if chunk_of(a) == chunk_of(b) {
            assert(self.index@[key_of(self.data@[i].pos)] == i);
            assert(self.index@[key_of(self.data@[j].pos)] == j);
        }
    }

    /// Whether a known, non-transparent block sits at the cell.
    pub fn occupied(&self, block: Vec3) -> (r: bool)
        requires
            self.wf(),
        ensures
            r == (self@.contains_key(block) && !paths::spec_transparent(self@[block])),
    {
        match self.get(block) {
            Some(b) => !paths::name_transparent(b.name.as_str()),
            None => false,
        }
    }

    /// Whether a known block at the cell may be freely broken: it is
    /// classified with a routing cost.
    pub fn garbage(&self, block: Vec3) -> (r: bool)
        requires
            self.wf(),
        ensures
            r == (self@.contains_key(block) && paths::spec_difficulty(self@[block]) is Some),
    {
        match self.get(block) {
            Some(b) => paths::difficulty(b.name.as_str()).is_some(),
            None => false,
        }
    }
}

} // verus!

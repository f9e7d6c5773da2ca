//! Robot names: a 32-bit identifier is scrambled through a fixed
//! Feistel network into four bit fields, which index tables of name
//! words. The scramble is aesthetic, not cryptographic.
use vstd::prelude::*;

use crate::strings::chars_vec;

verus! {

/// Rounds of the fixed Feistel network.
pub const FEISTEL_ROUNDS: u32 = 42;

/// The fixed two-byte Feistel key.
pub open spec fn spec_feistel_key() -> Seq<u8> {
    seq![242u8, 199u8]
}

/// The fixed two-byte Feistel key.
fn feistel_key() -> (r: Vec<u8>)
    ensures
        r@ == spec_feistel_key(),
{
    let mut k: Vec<u8> = Vec::new();
    k.push(242);
    k.push(199);
    proof {
        assert(k@ =~= spec_feistel_key());
    }
    k
}

/// What the Feistel network makes of an identifier: a function of the
/// identifier, key and round count alone.
pub uninterp spec fn scrambled_of(id: u32, key: Seq<u8>, rounds: u32) -> u32;

/// What the inverse Feistel network makes of a scrambled value.
pub uninterp spec fn unscrambled_of(raw: u32, key: Seq<u8>, rounds: u32) -> u32;

/// Relies on feistel_rs::feistel_encrypt, applied to the four
/// little-endian bytes of the identifier: the result depends on the
/// identifier, the key and the round count alone, and four bytes come
/// back for four bytes in.
#[verifier::external_body]
fn feistel_scramble(id: u32, key: &Vec<u8>, rounds: u32) -> (r: u32)
    ensures
        r == scrambled_of(id, key@, rounds),
{
    let out = feistel_rs::feistel_encrypt(&id.to_le_bytes(), key.as_slice(), rounds);
    u32::from_le_bytes(out.try_into().unwrap())
}

/// Relies on feistel_rs::feistel_decrypt, applied to the four
/// little-endian bytes of the scrambled value: it undoes
/// feistel_rs::feistel_encrypt under the same key and round count, as
/// the crate's functional-correctness test asserts, and its result
/// depends on its arguments alone.
#[verifier::external_body]
fn feistel_unscramble(raw: u32, key: &Vec<u8>, rounds: u32) -> (r: u32)
    ensures
        r == unscrambled_of(raw, key@, rounds),
        forall|id: u32| raw == scrambled_of(id, key@, rounds) ==> r == id,
{
    let out = feistel_rs::feistel_decrypt(&raw.to_le_bytes(), key.as_slice(), rounds);
    u32::from_le_bytes(out.try_into().unwrap())
}

/// A robot name: a scrambled identifier split into four bit fields,
/// most significant first: a first name (13 bits), a surname (14 bits),
/// an order (3 bits) and pronouns (2 bits).
#[derive(Clone, Copy, PartialEq, Eq, Structural, Hash, Debug)]
pub struct Name {
    /// The scrambled identifier the fields are cut from.
    pub raw: u32,
}

/// The first-name field: the top 13 bits.
pub open spec fn spec_first(raw: u32) -> u32 {
    raw >> 19
}

/// The surname field: the next 14 bits.
pub open spec fn spec_last(raw: u32) -> u32 {
    (raw >> 5) & 0x3fff
}

/// The order field: the next 3 bits.
pub open spec fn spec_order(raw: u32) -> u32 {
    (raw >> 2) & 7
}

/// The pronouns field: the lowest 2 bits.
pub open spec fn spec_pronouns(raw: u32) -> u32 {
    raw & 3
}

/// The raw word that packs the four fields back together.
pub open spec fn spec_pack(first: u32, last: u32, order: u32, pronouns: u32) -> u32 {
    (first << 19) | (last << 5) | (order << 2) | pronouns
}

/// Packing well-ranged fields and cutting them out again round-trips.
pub proof fn lemma_pack_fields(first: u32, last: u32, order: u32, pronouns: u32)
    requires
        first < 0x2000,
        last < 0x4000,
        order < 8,
        pronouns < 4,
    ensures
        spec_first(spec_pack(first, last, order, pronouns)) == first,
        spec_last(spec_pack(first, last, order, pronouns)) == last,
        spec_order(spec_pack(first, last, order, pronouns)) == order,
        spec_pronouns(spec_pack(first, last, order, pronouns)) == pronouns,
{
    assert(first < 0x2000 && last < 0x4000 && order < 8 && pronouns < 4 ==> (((first << 19) | (last
        << 5) | (order << 2) | pronouns) >> 19) == first && ((((first << 19) | (last << 5) | (order
        << 2) | pronouns) >> 5) & 0x3fff) == last && ((((first << 19) | (last << 5) | (order << 2)
        | pronouns) >> 2) & 7) == order && (((first << 19) | (last << 5) | (order << 2) | pronouns)
        & 3) == pronouns) by (bit_vector);
}

impl Name {
    /// The name of an identifier: its Feistel scramble. Every 32-bit
    /// value is a valid name.
    pub fn from_num(id: u32) -> (r: Self)
        ensures
            r.raw == scrambled_of(id, spec_feistel_key(), FEISTEL_ROUNDS),
    {
        let key = feistel_key();
        Name { raw: feistel_scramble(id, &key, FEISTEL_ROUNDS) }
    }

    /// The identifier a name scrambles: whenever the name came from
    /// `from_num(id)`, exactly that `id` comes back.
    pub fn to_num(self) -> (r: u32)
        ensures
            r == unscrambled_of(self.raw, spec_feistel_key(), FEISTEL_ROUNDS),
            forall|id: u32|
                self.raw == scrambled_of(id, spec_feistel_key(), FEISTEL_ROUNDS) ==> r == id,
    {
        let key = feistel_key();
        feistel_unscramble(self.raw, &key, FEISTEL_ROUNDS)
    }

    /// The first-name field.
    pub fn first(&self) -> (r: u32)
        ensures
            r == spec_first(self.raw),
    {
        self.raw >> 19
    }

    /// The surname field.
    pub fn last(&self) -> (r: u32)
        ensures
            r == spec_last(self.raw),
    {
        (self.raw >> 5) & 0x3fff
    }

    /// The order field.
    pub fn order(&self) -> (r: u32)
        ensures
            r == spec_order(self.raw),
    {
        (self.raw >> 2) & 7
    }

    /// The pronouns field.
    pub fn pronouns(&self) -> (r: u32)
        ensures
            r == spec_pronouns(self.raw),
    {
        self.raw & 3
    }

    /// The name whose fields are the four given table indices.
    pub fn from_fields(first: u32, last: u32, order: u32, pronouns: u32) -> (r: Self)
        requires
            first < 0x2000,
            last < 0x4000,
            order < 8,
            pronouns < 4,
        ensures
            r.raw == spec_pack(first, last, order, pronouns),
            spec_first(r.raw) == first,
            spec_last(r.raw) == last,
            spec_order(r.raw) == order,
            spec_pronouns(r.raw) == pronouns,
    {
        proof {
            lemma_pack_fields(first, last, order, pronouns);
        }
        Name { raw: (first << 19) | (last << 5) | (order << 2) | pronouns }
    }
}

/// Word tables a name is written out with: one word per field value.
pub struct NameTables {
    pub first: Vec<String>,
    pub last: Vec<String>,
    pub order: Vec<String>,
    pub pronouns: Vec<String>,
}

/// Why a written-out name cannot be read back.
#[derive(Clone, Copy, PartialEq, Eq, Structural, Debug)]
pub enum NameError {
    /// Fewer than four space-separated parts, or pronouns without both
    /// parentheses.
    Malformed,
    UnknownFirstName,
    UnknownLastName,
    UnknownTitle,
    InvalidGender,
}

/// The written form of a name: the four table words, space separated,
/// the pronouns in parentheses.
pub open spec fn spec_written(f: Seq<char>, l: Seq<char>, o: Seq<char>, p: Seq<char>) -> Seq<
    char,
> {
    f + " "@ + l + " "@ + o + " ("@ + p + ")"@
}

impl Name {
    /// Write the name out with the given tables: the four field words,
    /// space separated, the pronouns parenthesised. `None` where a field
    /// indexes past its table.
    pub fn to_str(&self, tables: &NameTables) -> (r: Option<String>)
        ensures
            match r {
                Some(s) => spec_first(self.raw) < tables.first@.len() && spec_last(self.raw)
                    < tables.last@.len() && spec_order(self.raw) < tables.order@.len()
                    && spec_pronouns(self.raw) < tables.pronouns@.len() && s@ == spec_written(
                    tables.first@[spec_first(self.raw) as int]@,
                    tables.last@[spec_last(self.raw) as int]@,
                    tables.order@[spec_order(self.raw) as int]@,
                    tables.pronouns@[spec_pronouns(self.raw) as int]@,
                ),
                None => spec_first(self.raw) >= tables.first@.len() || spec_last(self.raw)
                    >= tables.last@.len() || spec_order(self.raw) >= tables.order@.len()
                    || spec_pronouns(self.raw) >= tables.pronouns@.len(),
            },
{
        let f: usize = self.first() as usize;
        let l: usize = self.last() as usize;
        let o: usize = self.order() as usize;
        let p: usize = self.pronouns() as usize;
        if f >= tables.first.len() || l >= tables.last.len() || o >= tables.order.len() || p
            >= tables.pronouns.len() {
            return None;
        }
        let mut s = String::new();
        s.append(tables.first[f].as_str());
        s.append(" ");
        s.append(tables.last[l].as_str());
        s.append(" ");
        s.append(tables.order[o].as_str());
        s.append(" (");
        s.append(tables.pronouns[p].as_str());
        s.append(")");
        proof {
            assert(s@ =~= spec_written(
                tables.first@[spec_first(self.raw) as int]@,
                tables.last@[spec_last(self.raw) as int]@,
                tables.order@[spec_order(self.raw) as int]@,
                tables.pronouns@[spec_pronouns(self.raw) as int]@,
            ));
        }
        Some(s)
    }
}

/// The first table entry that reads exactly as `token`.
fn find_in(table: &Vec<String>, token: &Vec<char>) -> (r: Option<usize>)
    ensures
        match r {
            Some(i) => i < table@.len() && table@[i as int]@ == token@ && forall|j: int|
                0 <= j < i ==> (#[trigger] table@[j])@ != token@,
            None => forall|j: int| 0 <= j < table@.len() ==> (#[trigger] table@[j])@ != token@,
        },
{
    let mut i: usize = 0;
    while i < table.len()
        invariant
            i <= table@.len(),
            forall|j: int| 0 <= j < i ==> (#[trigger] table@[j])@ != token@,
        decreases table@.len() - i,
    {
        if chars_eq_string(token, &table[i]) {
            return Some(i);
        }
        i = i + 1;
    }
    None
}

/// Whether a character vector reads exactly as a string.
fn chars_eq_string(token: &Vec<char>, s: &String) -> (r: bool)
    ensures
        r == (token@ == s@),
{
    let other = chars_vec(s.as_str());
    if token.len() != other.len() {
        proof {
            assert(token@.len() != s@.len());
        }
        return false;
    }
    let mut i: usize = 0;
    while i < token.len()
        invariant
            token@.len() == other@.len(),
            other@ == s@,
            i <= token@.len(),
            forall|j: int| 0 <= j < i ==> token@[j] == other@[j],
        decreases token@.len() - i,
    {
        if token[i] != other[i] {
            proof {
                assert(token@[i as int] != s@[i as int]);
            }
            return false;
        }
        i = i + 1;
    }
    proof {
        assert(token@ =~= s@);
    }
    true
}

/// The first space in `v` at or after `from`, if any.
fn find_space(v: &Vec<char>, from: usize) -> (r: Option<usize>)
    requires
        from <= v@.len(),
    ensures
        match r {
            Some(i) => from <= i < v@.len() && v@[i as int] == ' ' && forall|k: int|
                from <= k < i ==> v@[k] != ' ',
            None => forall|k: int| from <= k < v@.len() ==> v@[k] != ' ',
        },
{
    let mut i: usize = from;
    while i < v.len()
        invariant
            from <= i <= v@.len(),
            forall|k: int| from <= k < i ==> v@[k] != ' ',
        decreases v@.len() - i,
    {
        if v[i] == ' ' {
            return Some(i);
        }
        i = i + 1;
    }
    None
}

impl Name {
    /// Read a written name back with the given tables. The text must
    /// hold four space-separated parts -- the fourth stripped of its
    /// first and last character -- and each part must be a word of its
    /// table, at an index its bit field can hold. A read name's fields
    /// index the table rows that spell the matching stretches of the
    /// input.
    pub fn from_str(name: &str, tables: &NameTables) -> (r: Result<Name, NameError>)
        ensures
            match r {
                Ok(n) => {
                    &&& spec_first(n.raw) < tables.first@.len()
                    &&& spec_last(n.raw) < tables.last@.len()
                    &&& spec_order(n.raw) < tables.order@.len()
                    &&& spec_pronouns(n.raw) < tables.pronouns@.len()
                    &&& exists|i1: int, i2: int, i3: int|
                        {
                            &&& 0 <= i1 < i2 < i3 < name@.len()
                            &&& name@[i1] == ' ' && name@[i2] == ' ' && name@[i3] == ' '
                            &&& (forall|k: int| 0 <= k < i1 ==> name@[k] != ' ')
                            &&& (forall|k: int| i1 < k < i2 ==> name@[k] != ' ')
                            &&& (forall|k: int| i2 < k < i3 ==> name@[k] != ' ')
                            &&& i3 + 3 <= name@.len()
                            &&& tables.first@[spec_first(n.raw) as int]@ == name@.subrange(0, i1)
                            &&& tables.last@[spec_last(n.raw) as int]@ == name@.subrange(
                                i1 + 1,
                                i2,
                            )
                            &&& tables.order@[spec_order(n.raw) as int]@ == name@.subrange(
                                i2 + 1,
                                i3,
                            )
                            &&& tables.pronouns@[spec_pronouns(n.raw) as int]@ == name@.subrange(
                                i3 + 2,
                                name@.len() - 1,
                            )
                        }
                },
                Err(_) => true,
            },
    {
        let v = chars_vec(name);
        proof {
            assert(v@.len() == vstd::std_specs::vec::spec_vec_len(&v));
        }
        // split on the first three spaces; the fourth part keeps the rest
        let s1: usize = match find_space(&v, 0) {
            Some(i) => i,
            None => {
                return Err(NameError::Malformed);
            },
        };
        let s2: usize = match find_space(&v, s1 + 1) {
            Some(i) => i,
            None => {
                return Err(NameError::Malformed);
            },
        };
        let s3: usize = match find_space(&v, s2 + 1) {
            Some(i) => i,
            None => {
                return Err(NameError::Malformed);
            },
        };
        let first_tok = slice_chars(&v, 0, s1);
        let last_tok = slice_chars(&v, s1 + 1, s2);
        let order_tok = slice_chars(&v, s2 + 1, s3);
        let rest = slice_chars(&v, s3 + 1, v.len());
        // strip the first and last character around the pronouns
        if rest.len() < 2 {
            return Err(NameError::Malformed);
        }
        let pron_tok = slice_chars(&rest, 1, rest.len() - 1);
        let first = match find_in(&tables.first, &first_tok) {
            Some(i) => i,
            None => {
                return Err(NameError::UnknownFirstName);
            },
        };
        let last = match find_in(&tables.last, &last_tok) {
            Some(i) => i,
            None => {
                return Err(NameError::UnknownLastName);
            },
        };
        let order = match find_in(&tables.order, &order_tok) {
            Some(i) => i,
            None => {
                return Err(NameError::UnknownTitle);
            },
        };
        let pronouns = match find_in(&tables.pronouns, &pron_tok) {
            Some(i) => i,
            None => {
                return Err(NameError::InvalidGender);
            },
        };
        if first >= 0x2000 || last >= 0x4000 || order >= 8 || pronouns >= 4 {
            return Err(NameError::Malformed);
        }
        let n = Name::from_fields(first as u32, last as u32, order as u32, pronouns as u32);
        proof {
            assert(pron_tok@ =~= name@.subrange(s3 + 2, name@.len() - 1));
            assert(0 <= s1 < s2 < s3 < name@.len() && name@[s1 as int] == ' ' && name@[s2 as int]
                == ' ' && name@[s3 as int] == ' ' && (forall|k: int|
                0 <= k < s1 ==> name@[k] != ' ') && (forall|k: int|
                s1 < k < s2 ==> name@[k] != ' ') && (forall|k: int|
                s2 < k < s3 ==> name@[k] != ' ') && s3 + 3 <= name@.len()
                && tables.first@[spec_first(n.raw) as int]@ == name@.subrange(0, s1 as int)
                && tables.last@[spec_last(n.raw) as int]@ == name@.subrange(s1 + 1, s2 as int)
                && tables.order@[spec_order(n.raw) as int]@ == name@.subrange(s2 + 1, s3 as int)
                && tables.pronouns@[spec_pronouns(n.raw) as int]@ == name@.subrange(
                s3 + 2,
                name@.len() - 1,
            ));
        }
        Ok(n)
    }
}

/// The characters of `v` from `from` (inclusive) to `to` (exclusive).
fn slice_chars(v: &Vec<char>, from: usize, to: usize) -> (r: Vec<char>)
    requires
        from <= to <= v@.len(),
    ensures
        r@ == v@.subrange(from as int, to as int),
{
    let mut out: Vec<char> = Vec::new();
    let mut i: usize = from;
    while i < to
        invariant
            from <= i <= to <= v@.len(),
            out@ == v@.subrange(from as int, i as int),
        decreases to - i,
    {
        out.push(v[i]);
        proof {
            assert(out@ =~= v@.subrange(from as int, i + 1 as int));
        }
        i = i + 1;
    }
    out
}

} // verus!

//! The resident chunks of a world, by position.
//!
//! The chunks are kept in the order of their positions, so that a walk
//! over them visits the positions in ascending order and a position is
//! found by bisection.

use vstd::prelude::*;
use crate::chunk::Chunk;
use crate::position::Position;
use crate::position_order::lex_less;

verus! {

/// Whether `s` holds a chunk at position `p` at index `i`.
pub open spec fn holds_at(s: Seq<Chunk>, p: Position, i: int) -> bool {
    0 <= i < s.len() && s[i].position() == p
}

/// Whether `s` holds a chunk at position `p`.
pub open spec fn seq_contains(s: Seq<Chunk>, p: Position) -> bool {
    exists|i: int| holds_at(s, p, i)
}

/// An index at which `s` holds a chunk at position `p`.
pub open spec fn seq_index(s: Seq<Chunk>, p: Position) -> int {
    choose|i: int| holds_at(s, p, i)
}

/// The chunks of `s` by position.
pub open spec fn seq_map(s: Seq<Chunk>) -> Map<Position, Chunk> {
    Map::new(|p: Position| seq_contains(s, p), |p: Position| s[seq_index(s, p)])
}

/// Whether the positions of `s` ascend strictly.
pub open spec fn strictly_sorted(s: Seq<Chunk>) -> bool {
    forall|i: int, j: int|
        0 <= i < j < s.len() ==> lex_less((#[trigger] s[i]).position(), (#[trigger] s[j]).position())
}

/// Whether `k` is where a chunk at position `p` belongs in `s`: every
/// chunk before `k` comes before `p`, and every chunk from `k` on after.
pub open spec fn insertion_point(s: Seq<Chunk>, p: Position, k: int) -> bool {
    &&& 0 <= k <= s.len()
    &&& forall|i: int| 0 <= i < k ==> lex_less((#[trigger] s[i]).position(), p)
    &&& forall|i: int| k <= i < s.len() ==> lex_less(p, (#[trigger] s[i]).position())
}

/// A sorted sequence holds a position at one index at most.
pub proof fn lemma_index_unique(s: Seq<Chunk>, p: Position, i: int, j: int)
    requires
        strictly_sorted(s),
        holds_at(s, p, i),
        holds_at(s, p, j),
    ensures
        i == j,
        seq_index(s, p) == i,
        seq_contains(s, p),
        seq_map(s).contains_key(p),
        seq_map(s)[p] == s[i],
{
    if i < j {
        assert(lex_less(s[i].position(), s[j].position()));
    }
    if j < i {
        assert(lex_less(s[j].position(), s[i].position()));
    }
    let k = seq_index(s, p);
    assert(holds_at(s, p, k));
    if k < i {
        assert(lex_less(s[k].position(), s[i].position()));
    }
    if i < k {
        assert(lex_less(s[i].position(), s[k].position()));
    }
}

/// A position with an insertion point is not held.
pub proof fn lemma_insertion_point_absent(s: Seq<Chunk>, p: Position, k: int)
    requires
        insertion_point(s, p, k),
    ensures
        !seq_contains(s, p),
        !seq_map(s).contains_key(p),
{
    if seq_contains(s, p) {
        let i = seq_index(s, p);
        assert(holds_at(s, p, i));
        if i < k {
            assert(lex_less(s[i].position(), p));
        } else {
            assert(lex_less(p, s[i].position()));
        }
    }
}

/// Putting a chunk in at its insertion point keeps the order and adds the
/// chunk to the map.
pub proof fn lemma_insert(s: Seq<Chunk>, chunk: Chunk, k: int)
    requires
        strictly_sorted(s),
        insertion_point(s, chunk.position(), k),
    ensures
        strictly_sorted(s.insert(k, chunk)),
        seq_map(s.insert(k, chunk)) == seq_map(s).insert(chunk.position(), chunk),
{
    let p = chunk.position();
    let t = s.insert(k, chunk);
    assert forall|i: int, j: int| 0 <= i < j < t.len() implies lex_less(
        (#[trigger] t[i]).position(),
        (#[trigger] t[j]).position(),
    ) by {
        let a = if i < k {
            i
        } else {
            i - 1
        };
        let b = if j < k {
            j
        } else {
            j - 1
        };
        if i != k && j != k {
            assert(t[i] == s[a] && t[j] == s[b]);
            assert(lex_less(s[a].position(), s[b].position()));
        } else if i == k {
            assert(t[j] == s[b]);
            assert(lex_less(p, s[b].position()));
        } else {
            assert(t[i] == s[a]);
            assert(lex_less(s[a].position(), p));
        }
    }
    assert(holds_at(t, p, k));
    lemma_index_unique(t, p, k, k);
    assert forall|q: Position| #[trigger]
        seq_map(t).contains_key(q) == seq_map(s).insert(p, chunk).contains_key(q) by {
        if seq_contains(s, q) {
            let i = seq_index(s, q);
            assert(holds_at(s, q, i));
            assert(holds_at(t, q, if i < k {
                i
            } else {
                i + 1
            }));
        }
        if seq_contains(t, q) && q != p {
            let i = seq_index(t, q);
            assert(holds_at(t, q, i));
            assert(holds_at(s, q, if i < k {
                i
            } else {
                i - 1
            }));
        }
    }
    assert forall|q: Position| #[trigger] seq_map(t).contains_key(q) implies seq_map(t)[q]
        == seq_map(s).insert(p, chunk)[q] by {
        if q != p {
            let i = seq_index(s, q);
            assert(holds_at(s, q, i));
            let j = if i < k {
                i
            } else {
                i + 1
            };
            assert(holds_at(t, q, j));
            lemma_index_unique(t, q, j, j);
            lemma_index_unique(s, q, i, i);
        }
    }
    assert(seq_map(t) =~= seq_map(s).insert(p, chunk));
}

/// Replacing a chunk by one at the same position keeps the order and
/// replaces the chunk in the map.
pub proof fn lemma_replace(s: Seq<Chunk>, chunk: Chunk, k: int)
    requires
        strictly_sorted(s),
        holds_at(s, chunk.position(), k),
    ensures
        strictly_sorted(s.update(k, chunk)),
        seq_map(s.update(k, chunk)) == seq_map(s).insert(chunk.position(), chunk),
{
    let p = chunk.position();
    let t = s.update(k, chunk);
    assert forall|i: int, j: int| 0 <= i < j < t.len() implies lex_less(
        (#[trigger] t[i]).position(),
        (#[trigger] t[j]).position(),
    ) by {
        assert(t[i].position() == s[i].position());
        assert(t[j].position() == s[j].position());
        assert(lex_less(s[i].position(), s[j].position()));
    }
    assert(holds_at(t, p, k));
    lemma_index_unique(t, p, k, k);
    assert forall|q: Position| #[trigger]
        seq_map(t).contains_key(q) == seq_map(s).insert(p, chunk).contains_key(q) by {
        if seq_contains(s, q) {
            let i = seq_index(s, q);
            assert(holds_at(s, q, i));
            assert(holds_at(t, q, i));
        }
        if seq_contains(t, q) {
            let i = seq_index(t, q);
            assert(holds_at(t, q, i));
            assert(holds_at(s, q, i));
        }
    }
    assert forall|q: Position| #[trigger] seq_map(t).contains_key(q) implies seq_map(t)[q]
        == seq_map(s).insert(p, chunk)[q] by {
        if q != p {
            let i = seq_index(s, q);
            assert(holds_at(s, q, i));
            assert(holds_at(t, q, i));
            lemma_index_unique(t, q, i, i);
            lemma_index_unique(s, q, i, i);
        }
    }
    assert(seq_map(t) =~= seq_map(s).insert(p, chunk));
}

/// Taking a chunk out keeps the order and takes its position out of the
/// map.
pub proof fn lemma_remove(s: Seq<Chunk>, k: int)
    requires
        strictly_sorted(s),
        0 <= k < s.len(),
    ensures
        strictly_sorted(s.remove(k)),
        seq_map(s.remove(k)) == seq_map(s).remove(s[k].position()),
{
    let p = s[k].position();
    let t = s.remove(k);
    assert forall|i: int, j: int| 0 <= i < j < t.len() implies lex_less(
        (#[trigger] t[i]).position(),
        (#[trigger] t[j]).position(),
    ) by {
        let a = if i < k {
            i
        } else {
            i + 1
        };
        let b = if j < k {
            j
        } else {
            j + 1
        };
        assert(t[i] == s[a] && t[j] == s[b]);
        assert(lex_less(s[a].position(), s[b].position()));
    }
    assert forall|q: Position| #[trigger]
        seq_map(t).contains_key(q) == seq_map(s).remove(p).contains_key(q) by {
        if seq_contains(s, q) && q != p {
            let i = seq_index(s, q);
            assert(holds_at(s, q, i));
            assert(holds_at(t, q, if i < k {
                i
            } else {
                i - 1
            }));
        }
        if seq_contains(t, q) {
            let i = seq_index(t, q);
            assert(holds_at(t, q, i));
            let j = if i < k {
                i
            } else {
                i + 1
            };
            assert(holds_at(s, q, j));
            if q == p {
                lemma_index_unique(s, p, j, k);
            }
        }
    }
    assert forall|q: Position| #[trigger] seq_map(t).contains_key(q) implies seq_map(t)[q]
        == seq_map(s).remove(p)[q] by {
        let i = seq_index(t, q);
        assert(holds_at(t, q, i));
        let j = if i < k {
            i
        } else {
            i + 1
        };
        assert(holds_at(s, q, j));
        lemma_index_unique(t, q, i, i);
        lemma_index_unique(s, q, j, j);
    }
    assert(seq_map(t) =~= seq_map(s).remove(p));
}

/// A sorted sequence holds as many chunks as its map holds positions.
pub proof fn lemma_map_size(s: Seq<Chunk>)
    requires
        strictly_sorted(s),
    ensures
        seq_map(s).dom().finite(),
        seq_map(s).dom().len() == s.len(),
    decreases s.len(),
{
    if s.len() == 0 {
        assert(seq_map(s).dom() =~= Set::<Position>::empty()) by {
            assert forall|p: Position| !seq_contains(s, p) by {
                if seq_contains(s, p) {
                    assert(holds_at(s, p, seq_index(s, p)));
                }
            }
        }
    } else {
        let t = s.drop_last();
        let last = s.last();
        assert(strictly_sorted(t)) by {
            assert forall|i: int, j: int| 0 <= i < j < t.len() implies lex_less(
                (#[trigger] t[i]).position(),
                (#[trigger] t[j]).position(),
            ) by {
                assert(t[i] == s[i] && t[j] == s[j]);
            }
        }
        assert(insertion_point(t, last.position(), t.len() as int)) by {
            assert forall|i: int| 0 <= i < t.len() implies lex_less(
                (#[trigger] t[i]).position(),
                last.position(),
            ) by {
                assert(t[i] == s[i]);
                assert(lex_less(s[i].position(), s[s.len() - 1].position()));
            }
        }
        lemma_map_size(t);
        lemma_insert(t, last, t.len() as int);
        lemma_insertion_point_absent(t, last.position(), t.len() as int);
        assert(t.insert(t.len() as int, last) =~= s);
        assert(seq_map(s).dom() =~= seq_map(t).dom().insert(last.position()));
    }
}

/// The resident chunks of a world, by position, each position at most
/// once.
pub struct ChunkMap {
    chunks: Vec<Chunk>,
}

impl View for ChunkMap {
    type V = Map<Position, Chunk>;

    closed spec fn view(&self) -> Map<Position, Chunk> {
        seq_map(self.chunks@)
    }
}

impl ChunkMap {
    #[verifier::type_invariant]
    spec fn well_formed(self) -> bool {
        strictly_sorted(self.chunks@)
    }

    /// The chunks in ascending order of their positions.
    pub closed spec fn entries(self) -> Seq<Chunk> {
        self.chunks@
    }

    /// An empty map.
    pub fn new() -> (r: ChunkMap)
        ensures
            r.entries().len() == 0,
            r@ == Map::<Position, Chunk>::empty(),
    {
        let r = ChunkMap { chunks: Vec::new() };
        assert(r@ =~= Map::<Position, Chunk>::empty()) by {
            assert forall|p: Position| !seq_contains(r.chunks@, p) by {
                if seq_contains(r.chunks@, p) {
                    assert(holds_at(r.chunks@, p, seq_index(r.chunks@, p)));
                }
            }
        }
        r
    }

    /// The number of chunks. The entries ascend strictly, and the map is
    /// the entries by position.
    pub fn len(&self) -> (r: usize)
        ensures
            r == self.entries().len(),
            r == self@.dom().len(),
            self@.dom().finite(),
            strictly_sorted(self.entries()),
            self@ == seq_map(self.entries()),
    {
        proof {
            use_type_invariant(self);
            lemma_map_size(self.chunks@);
        }
        self.chunks.len()
    }

    /// Where `pos` stands among the entries: the index of its chunk and
    /// `true`, or its insertion point and `false`.
    pub fn search(&self, pos: Position) -> (r: (usize, bool))
        ensures
            r.1 == self@.contains_key(pos),
            r.1 ==> holds_at(self.entries(), pos, r.0 as int),
            !r.1 ==> insertion_point(self.entries(), pos, r.0 as int),
    {
        proof {
            use_type_invariant(self);
        }
        let mut lo: usize = 0;
        let mut hi: usize = self.chunks.len();
        while lo < hi
            invariant
                0 <= lo <= hi <= self.chunks.len(),
                strictly_sorted(self.chunks@),
                forall|i: int| 0 <= i < lo ==> lex_less((#[trigger] self.chunks@[i]).position(), pos),
                forall|i: int|
                    hi <= i < self.chunks.len() ==> lex_less(
                        pos,
                        (#[trigger] self.chunks@[i]).position(),
                    ),
            decreases hi - lo,
        {
            let mid = lo + (hi - lo) / 2;
            let here = self.chunks[mid].get_position();
            if here == pos {
                proof {
                    lemma_index_unique(self.chunks@, pos, mid as int, mid as int);
                }
                return (mid, true);
            } else if here < pos {
                assert forall|i: int| 0 <= i < mid + 1 implies lex_less(
                    (#[trigger] self.chunks@[i]).position(),
                    pos,
                ) by {
                    if i < mid {
                        assert(lex_less(self.chunks@[i].position(), self.chunks@[mid as int].position()));
                    }
                }
                lo = mid + 1;
            } else {
                assert forall|i: int| mid <= i < self.chunks.len() implies lex_less(
                    pos,
                    (#[trigger] self.chunks@[i]).position(),
                ) by {
                    if mid < i {
                        assert(lex_less(self.chunks@[mid as int].position(), self.chunks@[i].position()));
                    }
                }
                hi = mid;
            }
        }
        proof {
            lemma_insertion_point_absent(self.chunks@, pos, lo as int);
        }
        (lo, false)
    }

    /// Whether a chunk at `pos` is resident.
    pub fn contains(&self, pos: Position) -> (r: bool)
        ensures
            r == self@.contains_key(pos),
    {
        self.search(pos).1
    }

    /// The chunk at `pos`, if one is resident.
    pub fn get(&self, pos: Position) -> (r: Option<&Chunk>)
        ensures
            r.is_some() == self@.contains_key(pos),
            r matches Some(chunk) ==> *chunk == self@[pos] && chunk.position() == pos,
    {
        proof {
            use_type_invariant(self);
        }
        let (index, found) = self.search(pos);
        if found {
            proof {
                lemma_index_unique(self.chunks@, pos, index as int, index as int);
            }
            Some(&self.chunks[index])
        } else {
            None
        }
    }

    /// The chunk at `index` in ascending order of positions.
    pub fn get_at(&self, index: usize) -> (r: &Chunk)
        requires
            index < self.entries().len(),
        ensures
            *r == self.entries()[index as int],
            self@.contains_key(r.position()),
            self@[r.position()] == *r,
    {
        proof {
            use_type_invariant(self);
            lemma_index_unique(
                self.chunks@,
                self.chunks@[index as int].position(),
                index as int,
                index as int,
            );
        }
        &self.chunks[index]
    }

    /// Makes `chunk` the chunk at its position, in place of the chunk
    /// that was there, if any, which is returned.
    pub fn insert(&mut self, chunk: Chunk) -> (r: Option<Chunk>)
        ensures
            final(self)@ == old(self)@.insert(chunk.position(), chunk),
            r.is_some() == old(self)@.contains_key(chunk.position()),
            r matches Some(before) ==> before == old(self)@[chunk.position()],
            final(self).entries().len() == old(self).entries().len() + (if r.is_some() {
                0int
            } else {
                1int
            }),
    {
        proof {
            use_type_invariant(&*self);
        }
        let pos = chunk.get_position();
        let (index, found) = self.search(pos);
        let ghost before = self.chunks@;
        let mut chunks: Vec<Chunk> = Vec::new();
        core::mem::swap(&mut self.chunks, &mut chunks);
        let mut replaced: Option<Chunk> = None;
        if found {
            proof {
                lemma_replace(before, chunk, index as int);
                lemma_index_unique(before, pos, index as int, index as int);
            }
            let mut incoming = chunk;
            core::mem::swap(&mut chunks[index], &mut incoming);
            replaced = Some(incoming);
        } else {
            proof {
                lemma_insert(before, chunk, index as int);
            }
            chunks.insert(index, chunk);
        }
        core::mem::swap(&mut self.chunks, &mut chunks);
        replaced
    }

    /// Takes out the chunk at `pos`, if one is resident, and returns it.
    pub fn remove(&mut self, pos: Position) -> (r: Option<Chunk>)
        ensures
            final(self)@ == old(self)@.remove(pos),
            r.is_some() == old(self)@.contains_key(pos),
            r matches Some(chunk) ==> chunk == old(self)@[pos] && chunk.position() == pos,
            final(self).entries().len() == old(self).entries().len() - (if r.is_some() {
                1int
            } else {
                0int
            }),
    {
        proof {
            use_type_invariant(&*self);
        }
        let (index, found) = self.search(pos);
        if !found {
            assert(self@.remove(pos) =~= self@);
            return None;
        }
        let ghost before = self.chunks@;
        proof {
            lemma_remove(before, index as int);
            lemma_index_unique(before, pos, index as int, index as int);
        }
        let mut chunks: Vec<Chunk> = Vec::new();
        core::mem::swap(&mut self.chunks, &mut chunks);
        let chunk = chunks.remove(index);
        core::mem::swap(&mut self.chunks, &mut chunks);
        Some(chunk)
    }
}

} // verus!

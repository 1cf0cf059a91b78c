//! Streaming: which chunks to generate next, taking in what was
//! generated, and giving up what has fallen behind.

use vstd::prelude::*;
use crate::chunk::Chunk;
use crate::chunk_map::{holds_at, seq_index, seq_map, strictly_sorted, ChunkMap};
use crate::grid::valid_chunk_point;
use crate::position::{Point, Position};
use crate::position_order::lex_less;
use crate::ring::{
    lemma_ring_size_zero, ring_fits, ring_nth, ring_rank, ring_size, PositionAroundIterator,
};
use crate::vec3::Vec3;
use crate::world::{
    chunk_cap, chunk_of_vec, load_budget, pending, pending_end, ring_position, too_far, wanted,
    with_chunks, World,
};

verus! {

/// Takes from `around` the next `budget` positions that are wanted, or
/// all that are left.
pub(crate) fn pull_pending(chunks: &ChunkMap, around: &mut PositionAroundIterator, budget: usize) -> (r: Vec<
    Position,
>)
    ensures
        final(around).center() == old(around).center(),
        final(around).radius() == old(around).radius(),
        r@ == pending(
            chunks@,
            old(around).center(),
            old(around).radius(),
            old(around).yielded(),
            budget as int,
        ),
        final(around).yielded() == pending_end(
            chunks@,
            old(around).center(),
            old(around).radius(),
            old(around).yielded(),
            budget as int,
        ),
{
    let ghost center = around.center();
    let ghost radius = around.radius();
    let ghost start = around.yielded();
    let mut left: usize = budget;
    let mut found: Vec<Position> = Vec::new();
    proof {
        assert(found@ + pending(chunks@, center, radius, start, budget as int) =~= pending(
            chunks@,
            center,
            radius,
            start,
            budget as int,
        ));
    }
    while left > 0 && !around.is_done()
        invariant
            around.center() == center,
            around.radius() == radius,
            found@ + pending(chunks@, center, radius, around.yielded(), left as int) == pending(
                chunks@,
                center,
                radius,
                start,
                budget as int,
            ),
            pending_end(chunks@, center, radius, around.yielded(), left as int) == pending_end(
                chunks@,
                center,
                radius,
                start,
                budget as int,
            ),
        decreases ring_size(radius) - around.yielded(),
    {
        let ghost at = around.yielded();
        let ghost so_far = found@;
        match around.next() {
            Some(pos) => {
                assert(pos == ring_position(center, at));
                if Chunk::is_valid_position(pos) && !chunks.contains(pos) {
                    found.push(pos);
                    left -= 1;
                    proof {
                        let rest = pending(chunks@, center, radius, at + 1, left as int);
                        assert(so_far + (seq![pos] + rest) =~= (so_far + seq![pos]) + rest);
                    }
                }
            },
            None => {},
        }
    }
    proof {
        assert(pending(chunks@, center, radius, around.yielded(), left as int) =~= Seq::<
            Position,
        >::empty());
        assert(found@ + Seq::<Position>::empty() =~= found@);
    }
    found
}

/// Where the enumeration of positions to load goes on for a viewer in the
/// chunk at `center`: where `loader` stands, if it runs around that chunk
/// with the given radius and has positions left, and at the start of a
/// new ring otherwise. A ring that is used up starts anew, so that a
/// chunk that was asked for and never handed in is asked for again.
pub open spec fn loader_start(
    loader: PositionAroundIterator,
    center: Position,
    radius: int,
) -> int {
    if loader.center() == center && loader.radius() == radius && loader.yielded() < ring_size(
        radius,
    ) {
        loader.yielded()
    } else {
        0
    }
}

impl World {
    /// The first decision of a frame, for a viewer at the fixed-point
    /// world position `viewer`: the chunks to generate now, nearest
    /// first. There are none while generation is disabled.
    pub fn update(&mut self, viewer: Vec3<i64>) -> (to_generate: Vec<Position>)
        ensures
            old(self).generation_enabled() ==> to_generate@ == pending(
                old(self).chunks(),
                chunk_of_vec(viewer@).to_position(),
                old(self).render_distance(),
                loader_start(
                    old(self).loader(),
                    chunk_of_vec(viewer@).to_position(),
                    old(self).render_distance(),
                ),
                load_budget(
                    old(self).chunks().dom().len() as int,
                    old(self).chunks_per_frame(),
                    old(self).render_distance(),
                ),
            ),
            old(self).generation_enabled() ==> {
                &&& final(self).loader().center() == chunk_of_vec(viewer@).to_position()
                &&& final(self).loader().radius() == old(self).render_distance()
                &&& final(self).loader().yielded() == pending_end(
                    old(self).chunks(),
                    chunk_of_vec(viewer@).to_position(),
                    old(self).render_distance(),
                    loader_start(
                        old(self).loader(),
                        chunk_of_vec(viewer@).to_position(),
                        old(self).render_distance(),
                    ),
                    load_budget(
                        old(self).chunks().dom().len() as int,
                        old(self).chunks_per_frame(),
                        old(self).render_distance(),
                    ),
                )
            },
            !old(self).generation_enabled() ==> to_generate@.len() == 0 && final(self).loader()
                == old(self).loader(),
            final(self).chunks() == old(self).chunks(),
            final(self).render_distance() == old(self).render_distance(),
            final(self).chunks_per_frame() == old(self).chunks_per_frame(),
            final(self).generation_enabled() == old(self).generation_enabled(),
            final(self).generator() == old(self).generator(),
            0 <= old(self).render_distance() <= u32::MAX,
            0 <= old(self).chunks_per_frame() <= usize::MAX,
            ring_fits(chunk_of_vec(viewer@).to_position()@, old(self).render_distance()),
    {
        if self.generation_enabled {
            self.load_chunk(viewer)
        } else {
            Vec::new()
        }
    }

    /// The chunks to generate now for a viewer at the fixed-point world
    /// position `viewer`, nearest first: the next positions of the ring
    /// around the viewer's chunk that lie inside the world's bounds and
    /// are not resident, up to the number per frame and to the room that
    /// the cap leaves. A viewer that has moved to another chunk starts a
    /// new ring, and so does a ring that is used up; otherwise the ring
    /// goes on where the last frame left it.
    pub fn load_chunk(&mut self, viewer: Vec3<i64>) -> (to_generate: Vec<Position>)
        ensures
            to_generate@ == pending(
                old(self).chunks(),
                chunk_of_vec(viewer@).to_position(),
                old(self).render_distance(),
                loader_start(
                    old(self).loader(),
                    chunk_of_vec(viewer@).to_position(),
                    old(self).render_distance(),
                ),
                load_budget(
                    old(self).chunks().dom().len() as int,
                    old(self).chunks_per_frame(),
                    old(self).render_distance(),
                ),
            ),
            final(self).loader().center() == chunk_of_vec(viewer@).to_position(),
            final(self).loader().radius() == old(self).render_distance(),
            final(self).loader().yielded() == pending_end(
                old(self).chunks(),
                chunk_of_vec(viewer@).to_position(),
                old(self).render_distance(),
                loader_start(
                    old(self).loader(),
                    chunk_of_vec(viewer@).to_position(),
                    old(self).render_distance(),
                ),
                load_budget(
                    old(self).chunks().dom().len() as int,
                    old(self).chunks_per_frame(),
                    old(self).render_distance(),
                ),
            ),
            final(self).chunks() == old(self).chunks(),
            final(self).render_distance() == old(self).render_distance(),
            final(self).chunks_per_frame() == old(self).chunks_per_frame(),
            final(self).generation_enabled() == old(self).generation_enabled(),
            final(self).generator() == old(self).generator(),
            0 <= old(self).render_distance() <= u32::MAX,
            0 <= old(self).chunks_per_frame() <= usize::MAX,
            ring_fits(chunk_of_vec(viewer@).to_position()@, old(self).render_distance()),
    {
        let center = Self::get_chunk_cord_by_vec(viewer);
        let radius = self.render_distance as usize;
        if self.chunk_load_iterator.get_center() != center || self.chunk_load_iterator.get_radius()
            != radius || self.chunk_load_iterator.is_done() {
            self.chunk_load_iterator = center.iter_around(radius);
        }
        let cap = self.get_max_chunk();
        let resident = self.chunks.len();
        let budget: usize = if resident >= cap {
            0
        } else if cap - resident < self.chunk_generating_per_frame {
            cap - resident
        } else {
            self.chunk_generating_per_frame
        };
        pull_pending(&self.chunks, &mut self.chunk_load_iterator, budget)
    }

    /// Takes in the chunks of `generated`, one after the other, each in
    /// place of a resident chunk at its position, if there is one.
    pub fn insert_chunks(&mut self, generated: Vec<Chunk>)
        ensures
            final(self).chunks() == with_chunks(old(self).chunks(), generated@),
            final(self).loader() == old(self).loader(),
            final(self).render_distance() == old(self).render_distance(),
            final(self).chunks_per_frame() == old(self).chunks_per_frame(),
            final(self).generation_enabled() == old(self).generation_enabled(),
            final(self).generator() == old(self).generator(),
    {
        let mut incoming = generated;
        let ghost all = generated@;
        let ghost before = self.chunks@;
        let ghost mut taken: Seq<Chunk> = Seq::empty();
        assert(taken + incoming@ =~= all);
        while incoming.len() > 0
            invariant
                taken + incoming@ == all,
                self.chunks@ == with_chunks(before, taken),
                self.chunk_load_iterator == old(self).chunk_load_iterator,
                self.render_distance == old(self).render_distance,
                self.chunk_generating_per_frame == old(self).chunk_generating_per_frame,
                self.generation_enabled == old(self).generation_enabled,
                self.generator == old(self).generator,
            decreases incoming.len(),
        {
            let ghost done = taken;
            let ghost rest = incoming@;
            let chunk = incoming.remove(0);
            proof {
                taken = done.push(chunk);
                assert(taken.drop_last() =~= done);
                assert(taken + incoming@ =~= done + rest);
            }
            self.chunks.insert(chunk);
        }
        assert(taken =~= all);
    }
}


/// Whether `found` is the chunk to give up: the least position, in the
/// order of positions, of a resident chunk that is too far from the
/// viewer's chunk to stay, or nothing where no resident chunk is too far.
pub open spec fn chunk_to_unload(
    chunks: Map<Position, Chunk>,
    viewer_chunk: Point,
    render_distance: int,
    found: Option<Position>,
) -> bool {
    match found {
        Some(p) => {
            &&& chunks.contains_key(p)
            &&& too_far(p, viewer_chunk, render_distance)
            &&& forall|q: Position| #[trigger]
                chunks.contains_key(q) && too_far(q, viewer_chunk, render_distance) ==> !lex_less(
                    q,
                    p,
                )
        },
        None => forall|q: Position| #[trigger]
            chunks.contains_key(q) ==> !too_far(q, viewer_chunk, render_distance),
    }
}

/// At most one position is the chunk to give up.
pub proof fn lemma_chunk_to_unload_unique(
    chunks: Map<Position, Chunk>,
    viewer_chunk: Point,
    render_distance: int,
    a: Option<Position>,
    b: Option<Position>,
)
    requires
        chunk_to_unload(chunks, viewer_chunk, render_distance, a),
        chunk_to_unload(chunks, viewer_chunk, render_distance, b),
    ensures
        a == b,
{
    match (a, b) {
        (Some(p), Some(q)) => {
            assert(chunks.contains_key(p) && chunks.contains_key(q));
            assert(!lex_less(p, q) && !lex_less(q, p));
        },
        (Some(p), None) => {
            assert(chunks.contains_key(p));
        },
        (None, Some(q)) => {
            assert(chunks.contains_key(q));
        },
        (None, None) => {},
    }
}

impl World {
    /// The first resident chunk, in ascending order of positions, whose
    /// Chebyshev distance from the viewer's chunk is more than one beyond
    /// the render distance; `None` where no chunk is that far.
    pub fn get_chunk_to_unload(&self, viewer: Vec3<i64>) -> (r: Option<Position>)
        ensures
            chunk_to_unload(self.chunks(), chunk_of_vec(viewer@), self.render_distance(), r),
    {
        let center = Self::get_chunk_cord_by_vec(viewer);
        let limit: u64 = self.render_distance as u64 + 1;
        let count = self.chunks.len();
        let ghost entries = self.chunks.entries();
        let mut i: usize = 0;
        while i < count
            invariant
                count == entries.len(),
                entries == self.chunks.entries(),
                strictly_sorted(entries),
                self.chunks@ == seq_map(entries),
                center@ == chunk_of_vec(viewer@),
                limit == self.render_distance + 1,
                forall|j: int|
                    0 <= j < i ==> !too_far(
                        (#[trigger] entries[j]).position(),
                        chunk_of_vec(viewer@),
                        self.render_distance as int,
                    ),
            decreases count - i,
        {
            let pos = self.chunks.get_at(i).get_position();
            if pos.chebyshev_distance(&center) > limit {
                assert forall|q: Position| #[trigger]
                    self.chunks@.contains_key(q) && too_far(
                        q,
                        chunk_of_vec(viewer@),
                        self.render_distance as int,
                    ) implies !lex_less(q, pos) by {
                    let j = seq_index(entries, q);
                    assert(holds_at(entries, q, j));
                    if i < j {
                        assert(lex_less(entries[i as int].position(), entries[j].position()));
                    }
                }
                return Some(pos);
            }
            i += 1;
        }
        assert forall|q: Position| #[trigger] self.chunks@.contains_key(q) implies !too_far(
            q,
            chunk_of_vec(viewer@),
            self.render_distance as int,
        ) by {
            let j = seq_index(entries, q);
            assert(holds_at(entries, q, j));
        }
        None
    }

    /// Gives up the first resident chunk that is too far from the viewer,
    /// if there is one, and returns its position.
    pub fn unload_chunk(&mut self, viewer: Vec3<i64>) -> (r: Option<Position>)
        ensures
            chunk_to_unload(
                old(self).chunks(),
                chunk_of_vec(viewer@),
                old(self).render_distance(),
                r,
            ),
            final(self).chunks() == (match r {
                Some(p) => old(self).chunks().remove(p),
                None => old(self).chunks(),
            }),
            final(self).loader() == old(self).loader(),
            final(self).render_distance() == old(self).render_distance(),
            final(self).chunks_per_frame() == old(self).chunks_per_frame(),
            final(self).generation_enabled() == old(self).generation_enabled(),
            final(self).generator() == old(self).generator(),
    {
        match self.get_chunk_to_unload(viewer) {
            Some(pos) => {
                self.chunks.remove(pos);
                Some(pos)
            },
            None => None,
        }
    }

    /// The decision of a frame on what leaves: turns generation on or
    /// off where `toggle_generation` asks for it, and then, with
    /// generation on, gives up one chunk that is too far from the viewer.
    /// Returns the position of the chunk given up.
    pub fn evict(&mut self, viewer: Vec3<i64>, toggle_generation: bool) -> (r: Option<
        Position,
    >)
        ensures
            final(self).generation_enabled() == (old(self).generation_enabled()
                != toggle_generation),
            final(self).generation_enabled() ==> chunk_to_unload(
                old(self).chunks(),
                chunk_of_vec(viewer@),
                old(self).render_distance(),
                r,
            ),
            !final(self).generation_enabled() ==> r.is_none(),
            final(self).chunks() == (match r {
                Some(p) => old(self).chunks().remove(p),
                None => old(self).chunks(),
            }),
            final(self).loader() == old(self).loader(),
            final(self).render_distance() == old(self).render_distance(),
            final(self).chunks_per_frame() == old(self).chunks_per_frame(),
            final(self).generator() == old(self).generator(),
    {
        if toggle_generation {
            self.generation_enabled = !self.generation_enabled;
        }
        if self.generation_enabled {
            self.unload_chunk(viewer)
        } else {
            None
        }
    }
}

/// Taking chunks in makes each of them resident, the last of those at a
/// position being the one that stays, and leaves every other position as
/// it was.
pub proof fn lemma_with_chunks(chunks: Map<Position, Chunk>, generated: Seq<Chunk>)
    ensures
        forall|i: int|
            0 <= i < generated.len() ==> with_chunks(chunks, generated).contains_key(
                (#[trigger] generated[i]).position(),
            ),
        forall|p: Position| #[trigger]
            with_chunks(chunks, generated).contains_key(p) <==> chunks.contains_key(p) || (
            exists|i: int| 0 <= i < generated.len() && (#[trigger] generated[i]).position() == p),
        forall|p: Position|
            (forall|i: int| 0 <= i < generated.len() ==> (#[trigger] generated[i]).position() != p)
                && chunks.contains_key(p) ==> #[trigger] with_chunks(chunks, generated)[p]
                == chunks[p],
        generated.len() > 0 ==> with_chunks(chunks, generated)[generated.last().position()]
            == generated.last(),
    decreases generated.len(),
{
    if generated.len() > 0 {
        let front = generated.drop_last();
        let last = generated.last();
        lemma_with_chunks(chunks, front);
        let all = with_chunks(chunks, generated);
        assert(all == with_chunks(chunks, front).insert(last.position(), last));
        assert forall|i: int| 0 <= i < generated.len() implies all.contains_key(
            (#[trigger] generated[i]).position(),
        ) by {
            if i < front.len() {
                assert(generated[i] == front[i]);
            }
        }
        assert forall|p: Position| #[trigger]
            all.contains_key(p) <==> chunks.contains_key(p) || (exists|i: int|
                0 <= i < generated.len() && (#[trigger] generated[i]).position() == p) by {
            if with_chunks(chunks, front).contains_key(p) && !chunks.contains_key(p) {
                let i = choose|i: int| 0 <= i < front.len() && (#[trigger] front[i]).position() == p;
                assert(generated[i].position() == p);
            }
            if p == last.position() {
                assert(generated[generated.len() - 1].position() == p);
            }
            if exists|i: int| 0 <= i < generated.len() && (#[trigger] generated[i]).position() == p {
                let i = choose|i: int|
                    0 <= i < generated.len() && (#[trigger] generated[i]).position() == p;
                if i < front.len() {
                    assert(front[i].position() == p);
                }
            }
        }
        assert forall|p: Position|
            (forall|i: int| 0 <= i < generated.len() ==> (#[trigger] generated[i]).position() != p)
                && chunks.contains_key(p) implies #[trigger] all[p] == chunks[p] by {
            assert(generated[generated.len() - 1].position() != p);
            assert forall|i: int| 0 <= i < front.len() implies (#[trigger] front[i]).position()
                != p by {
                assert(generated[i] == front[i]);
            }
        }
    }
}

/// With a render distance of zero the ring is the viewer's chunk alone:
/// a frame asks for that chunk or for none, and for none once a chunk is
/// resident, which is the cap.
pub proof fn lemma_render_distance_zero(
    chunks: Map<Position, Chunk>,
    center: Position,
    from: int,
    resident: int,
    per_frame: int,
)
    requires
        0 <= from,
        0 <= resident,
    ensures
        chunk_cap(0) == 1,
        resident >= 1 ==> load_budget(resident, per_frame, 0) == 0,
        pending(chunks, center, 0, from, load_budget(resident, per_frame, 0)) == (if from == 0
            && resident == 0 && per_frame >= 1 && wanted(chunks, center) {
            seq![center]
        } else {
            Seq::<Position>::empty()
        }),
{
    lemma_ring_size_zero();
    let budget = load_budget(resident, per_frame, 0);
    assert(ring_position(center, 0) == center);
    if from == 0 && budget > 0 {
        assert(pending(chunks, center, 0, 1, budget - 1) =~= Seq::<Position>::empty());
        assert(pending(chunks, center, 0, 1, budget) =~= Seq::<Position>::empty());
        assert(seq![center] + Seq::<Position>::empty() =~= seq![center]);
    }
}

/// A world with a render distance of zero and no resident chunk asks for
/// the viewer's chunk and for no other, wherever its enumeration stands,
/// for a viewer inside the world's bounds and at least one chunk per
/// frame.
pub proof fn lemma_render_distance_zero_loads_one(
    loader: PositionAroundIterator,
    center: Position,
    per_frame: int,
)
    requires
        1 <= per_frame,
        valid_chunk_point(center@),
    ensures
        pending(
            Map::<Position, Chunk>::empty(),
            center,
            0,
            loader_start(loader, center, 0),
            load_budget(Map::<Position, Chunk>::empty().dom().len() as int, per_frame, 0),
        ) == seq![center],
{
    let chunks = Map::<Position, Chunk>::empty();
    lemma_ring_size_zero();
    crate::ring::lemma_yielded_bounds(loader);
    assert(chunks.dom() =~= Set::<Position>::empty());
    assert(loader_start(loader, center, 0) == 0);
    lemma_render_distance_zero(chunks, center, 0, 0, per_frame);
}

/// The positions that a frame asks for are wanted, lie within the render
/// distance of the viewer's chunk, come in the order of the ring, none of
/// them twice, and are no more than the budget.
pub proof fn lemma_pending_within(
    chunks: Map<Position, Chunk>,
    center: Position,
    radius: int,
    from: int,
    budget: int,
)
    requires
        0 <= from,
        0 <= radius,
        ring_fits(center@, radius),
    ensures
        pending(chunks, center, radius, from, budget).len() <= (if budget < 0 {
            0
        } else {
            budget
        }),
        forall|i: int|
            0 <= i < pending(chunks, center, radius, from, budget).len() ==> {
                let p = #[trigger] pending(chunks, center, radius, from, budget)[i];
                wanted(chunks, p) && p@.distance(center@) <= radius && from <= ring_rank(
                    p@.minus(center@),
                )
            },
        forall|i: int, j: int|
            0 <= i < j < pending(chunks, center, radius, from, budget).len() ==> ring_rank(
                (#[trigger] pending(chunks, center, radius, from, budget)[i])@.minus(center@),
            ) < ring_rank(
                (#[trigger] pending(chunks, center, radius, from, budget)[j])@.minus(center@),
            ),
        pending(chunks, center, radius, from, budget).no_duplicates(),
    decreases ring_size(radius) - from,
{
    let all = pending(chunks, center, radius, from, budget);
    if budget <= 0 || from >= ring_size(radius) {
    } else {
        let p = ring_position(center, from);
        crate::ring::lemma_ring_prefix_is_cube(from, radius);
        crate::ring::lemma_rank_of_nth(from);
        assert(p@ == center@.plus(ring_nth(from)));
        assert(p@.minus(center@) == ring_nth(from));
        assert(p@.distance(center@) == ring_nth(from).norm());
        if wanted(chunks, p) {
            let rest = pending(chunks, center, radius, from + 1, budget - 1);
            lemma_pending_within(chunks, center, radius, from + 1, budget - 1);
            assert forall|i: int| 0 <= i < all.len() implies {
                let q = #[trigger] all[i];
                wanted(chunks, q) && q@.distance(center@) <= radius && from <= ring_rank(
                    q@.minus(center@),
                )
            } by {
                if i > 0 {
                    assert(all[i] == rest[i - 1]);
                }
            }
            assert forall|i: int, j: int| 0 <= i < j < all.len() implies ring_rank(
                (#[trigger] all[i])@.minus(center@),
            ) < ring_rank((#[trigger] all[j])@.minus(center@)) by {
                assert(all[j] == rest[j - 1]);
                if i > 0 {
                    assert(all[i] == rest[i - 1]);
                }
            }
        } else {
            lemma_pending_within(chunks, center, radius, from + 1, budget);
            assert(all == pending(chunks, center, radius, from + 1, budget));
        }
    }
    assert forall|i: int, j: int| 0 <= i < all.len() && 0 <= j < all.len() && i != j implies all[i]
        != all[j] by {
        if i < j {
            assert(ring_rank(all[i]@.minus(center@)) < ring_rank(all[j]@.minus(center@)));
        } else {
            assert(ring_rank(all[j]@.minus(center@)) < ring_rank(all[i]@.minus(center@)));
        }
    }
}

/// With a budget for all that is left of the ring, the positions that a
/// frame asks for are all the wanted positions that are left.
pub proof fn lemma_pending_members(
    chunks: Map<Position, Chunk>,
    center: Position,
    radius: int,
    from: int,
    budget: int,
)
    requires
        0 <= from,
        budget >= ring_size(radius) - from,
    ensures
        forall|p: Position| #[trigger]
            pending(chunks, center, radius, from, budget).contains(p) <==> wanted(chunks, p) && (
            exists|k: int| from <= k < ring_size(radius) && #[trigger] ring_position(center, k) == p),
    decreases ring_size(radius) - from,
{
    let all = pending(chunks, center, radius, from, budget);
    if budget <= 0 || from >= ring_size(radius) {
        assert(all.len() == 0);
    } else {
        let here = ring_position(center, from);
        if wanted(chunks, here) {
            let rest = pending(chunks, center, radius, from + 1, budget - 1);
            lemma_pending_members(chunks, center, radius, from + 1, budget - 1);
            assert forall|p: Position| #[trigger]
                all.contains(p) <==> wanted(chunks, p) && (exists|k: int|
                    from <= k < ring_size(radius) && #[trigger] ring_position(center, k) == p) by {
                if all.contains(p) {
                    let i = choose|i: int| 0 <= i < all.len() && all[i] == p;
                    if i > 0 {
                        assert(rest[i - 1] == p);
                        assert(rest.contains(p));
                        let k = choose|k: int|
                            from + 1 <= k < ring_size(radius) && #[trigger] ring_position(
                                center,
                                k,
                            ) == p;
                        assert(from <= k < ring_size(radius) && ring_position(center, k) == p);
                    }
                }
                if p == here {
                    assert(all[0] == p);
                    assert(from <= from < ring_size(radius) && ring_position(center, from) == p);
                } else if rest.contains(p) {
                    let i = choose|i: int| 0 <= i < rest.len() && rest[i] == p;
                    assert(all[i + 1] == p);
                }
                if wanted(chunks, p) && (exists|k: int|
                    from <= k < ring_size(radius) && #[trigger] ring_position(center, k) == p) {
                    let k = choose|k: int|
                        from <= k < ring_size(radius) && #[trigger] ring_position(center, k) == p;
                    if k != from {
                        assert(from + 1 <= k < ring_size(radius) && ring_position(center, k) == p);
                    }
                }
            }
        } else {
            let rest = pending(chunks, center, radius, from + 1, budget);
            lemma_pending_members(chunks, center, radius, from + 1, budget);
            assert(all == rest);
            assert forall|p: Position| #[trigger]
                all.contains(p) <==> wanted(chunks, p) && (exists|k: int|
                    from <= k < ring_size(radius) && #[trigger] ring_position(center, k) == p) by {
                if wanted(chunks, p) && (exists|k: int|
                    from <= k < ring_size(radius) && #[trigger] ring_position(center, k) == p) {
                    let k = choose|k: int|
                        from <= k < ring_size(radius) && #[trigger] ring_position(center, k) == p;
                    assert(k != from);
                    assert(from + 1 <= k < ring_size(radius) && ring_position(center, k) == p);
                    assert(rest.contains(p));
                }
                if all.contains(p) {
                    assert(rest.contains(p));
                    let k = choose|k: int|
                        from + 1 <= k < ring_size(radius) && #[trigger] ring_position(center, k)
                            == p;
                    assert(from <= k < ring_size(radius) && ring_position(center, k) == p);
                }
            }
        }
    }
}

} // verus!

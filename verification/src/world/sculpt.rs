//! Edits: digging and filling where the viewer looks.

use vstd::prelude::*;
use crate::chunk::Chunk;
use crate::edit::{dig_count, dug, fill_count, filled};
use crate::grid::{chunk_of, valid_chunk_point, CHUNK_VOXELS_VOLUME};
use crate::input::{GameInput, InputKey};
use crate::position::{Point, Position};
use crate::ring::{lemma_ring_complete, ring_nth, ring_rank, ring_size};
use crate::vec3::Vec3;
use crate::voxel::Voxel;
use crate::voxels_to_vertex::{chunk_vertices, CHUNK_CELLS};
use crate::world::ray::ray_march;
use crate::world::streaming::{lemma_pending_members, lemma_with_chunks, pull_pending};
use crate::world::{pending, ring_position, wanted, with_chunks, World};

verus! {

/// How far an edit reaches along the viewer's line of sight: `32.0`.
pub const EDIT_REACH: i64 = 32_000_000;

/// The radius of the sphere that an edit changes: `6.0`.
pub const EDIT_RADIUS: u32 = 6_000_000;

/// Whether an edit at the world grid position `hit` reaches the chunk at
/// `p`: the chunk that holds `hit` and the twenty-six around it.
pub open spec fn near_edit(p: Position, hit: Point) -> bool {
    p@.distance(chunk_of(hit)) <= 1
}

/// The grid `voxels` of the chunk at `chunk` after an edit at `hit`: a
/// fill with the material of `paint`, or a dig where there is no paint.
pub open spec fn edited_voxels(
    voxels: Seq<Voxel>,
    chunk: Point,
    hit: Point,
    paint: Option<Voxel>,
    amount: int,
) -> Seq<Voxel> {
    match paint {
        Some(voxel) => filled(voxels, chunk, hit, EDIT_RADIUS as int, voxel, amount),
        None => dug(voxels, chunk, hit, EDIT_RADIUS as int, amount),
    }
}

/// How many samples of the grid `voxels` of the chunk at `chunk` an edit
/// at `hit` touches.
pub open spec fn edit_count(voxels: Seq<Voxel>, chunk: Point, hit: Point, paint: Option<Voxel>)
    -> int {
    match paint {
        Some(_) => fill_count(voxels, chunk, hit, EDIT_RADIUS as int, CHUNK_VOXELS_VOLUME as int),
        None => dig_count(voxels, chunk, hit, EDIT_RADIUS as int, CHUNK_VOXELS_VOLUME as int),
    }
}

/// Whether `after` is the chunk `before` after an edit at `hit`: its
/// samples are edited, and its mesh is built anew from them where the
/// edit touched a sample, and is the mesh it had where it touched none.
pub open spec fn edited_chunk(
    before: Chunk,
    after: Chunk,
    hit: Point,
    paint: Option<Voxel>,
    amount: int,
) -> bool {
    &&& after.position() == before.position()
    &&& after.voxels() == edited_voxels(before.voxels(), before.position()@, hit, paint, amount)
    &&& if edit_count(before.voxels(), before.position()@, hit, paint) > 0 {
        after.mesh() matches Some(mesh) && mesh.vertices@ == chunk_vertices(
            after.voxels(),
            after.position()@,
            CHUNK_CELLS as int,
        )
    } else {
        after.mesh() == before.mesh()
    }
}

/// Whether `after` holds the chunks of `before` after an edit at `hit`:
/// the same positions are resident, the chunks that the edit reaches are
/// edited, and the others are as they were.
pub open spec fn edited_world(
    before: Map<Position, Chunk>,
    after: Map<Position, Chunk>,
    hit: Point,
    paint: Option<Voxel>,
    amount: int,
) -> bool {
    &&& after.dom() == before.dom()
    &&& forall|p: Position| #[trigger]
        before.contains_key(p) ==> if near_edit(p, hit) {
            edited_chunk(before[p], after[p], hit, paint, amount)
        } else {
            after[p] == before[p]
        }
}

/// The chunks whose mesh an edit at `hit` builds anew, in the order in
/// which the edit visits them: the chunk that holds `hit` first, then
/// those around it, from place `from` of that order on.
pub open spec fn touched_by(
    before: Map<Position, Chunk>,
    hit: Point,
    paint: Option<Voxel>,
    from: int,
) -> Seq<Position>
    decreases 27 - from,
{
    if from < 0 || from >= 27 {
        Seq::empty()
    } else {
        let p = ring_position(chunk_of(hit).to_position(), from);
        let rest = touched_by(before, hit, paint, from + 1);
        if before.contains_key(p) && edit_count(before[p].voxels(), p@, hit, paint) > 0 {
            seq![p] + rest
        } else {
            rest
        }
    }
}

/// Whether `touched` lists the chunks whose mesh an edit at `hit` built
/// anew: the resident chunks that the edit reaches and in which it
/// touched a sample.
pub open spec fn lists_touched(
    before: Map<Position, Chunk>,
    touched: Seq<Position>,
    hit: Point,
    paint: Option<Voxel>,
) -> bool {
    forall|p: Position| #[trigger]
        touched.contains(p) <==> before.contains_key(p) && near_edit(p, hit) && edit_count(
            before[p].voxels(),
            p@,
            hit,
            paint,
        ) > 0
}

/// How a request for an edit ended.
#[derive(Debug, PartialEq)]
pub enum EditOutcome {
    /// No key asked for an edit. Nothing has changed.
    NotAsked,
    /// The viewer looks at nothing within reach. Nothing has changed.
    NoHit,
    /// The edit reaches chunks that are not resident, and the chunks that
    /// were handed over are not those. Nothing has changed. These are the
    /// positions of the chunks to generate and to hand over with the same
    /// request.
    Missing(Vec<Position>),
    /// The edit is done, and every chunk that it reaches inside the
    /// world's bounds is resident. These are the positions of the chunks
    /// whose mesh was built anew.
    Done(Vec<Position>),
}

/// The chunks that an edit at the world grid position `hit` reaches and
/// that are not resident, though they lie inside the world's bounds: the
/// chunk that holds `hit` first, if it is among them, then those around
/// it in the order of the ring.
pub open spec fn missing_around(chunks: Map<Position, Chunk>, hit: Point) -> Seq<Position> {
    pending(chunks, chunk_of(hit).to_position(), 1, 0, 27)
}

/// Whether `fresh` holds one chunk for each position of `missing`, in the
/// same order.
pub open spec fn fresh_matches(fresh: Seq<Chunk>, missing: Seq<Position>) -> bool {
    &&& fresh.len() == missing.len()
    &&& forall|i: int| 0 <= i < fresh.len() ==> (#[trigger] fresh[i]).position() == missing[i]
}

/// Whether `after` and `outcome` are what an edit at the world grid
/// position `hit` makes of the chunks `before`, with the chunks `fresh`
/// handed over for those that are missing.
///
/// Where `fresh` holds the missing chunks, they are taken in and every
/// chunk that the edit reaches is edited: all twenty-seven positions
/// around the hit that lie inside the world's bounds are resident
/// afterwards. Where `fresh` does not hold them, nothing changes and the
/// outcome names the missing positions.
pub open spec fn edit_result(
    before: Map<Position, Chunk>,
    fresh: Seq<Chunk>,
    hit: Point,
    paint: Option<Voxel>,
    amount: int,
    after: Map<Position, Chunk>,
    outcome: EditOutcome,
) -> bool {
    let missing = missing_around(before, hit);
    let taken = with_chunks(before, fresh);
    if fresh_matches(fresh, missing) {
        match outcome {
            EditOutcome::Done(touched) => {
                &&& edited_world(taken, after, hit, paint, amount)
                &&& touched@ == touched_by(taken, hit, paint, 0)
                &&& lists_touched(taken, touched@, hit, paint)
                &&& forall|p: Position|
                    near_edit(p, hit) && valid_chunk_point(p@) ==> #[trigger] after.contains_key(p)
            },
            _ => false,
        }
    } else {
        match outcome {
            EditOutcome::Missing(list) => list@ == missing && after == before,
            _ => false,
        }
    }
}

impl World {
    /// The chunks that an edit at the world grid position `hit` reaches
    /// and that are not resident, though they lie inside the world's
    /// bounds: the chunk that holds `hit` first, if it is among them,
    /// then those around it. An edit asks for these to be generated and
    /// handed to it.
    pub fn missing_chunks(&self, hit: Position) -> (r: Vec<Position>)
        ensures
            r@ == missing_around(self.chunks(), hit@),
            forall|p: Position| #[trigger]
                r@.contains(p) <==> near_edit(p, hit@) && wanted(self.chunks(), p),
    {
        let center = Chunk::get_chunk_pos(hit);
        let mut around = center.iter_around(1);
        proof {
            lemma_ring_size_one();
            lemma_pending_members(self.chunks@, center, 1, 0, 27);
            assert forall|p: Position| near_edit(p, hit@) <==> (exists|k: int|
                0 <= k < 27 && #[trigger] ring_position(center, k) == p) by {
                if near_edit(p, hit@) {
                    lemma_ring_complete(p@.minus(center@), 1);
                    let k = ring_rank(p@.minus(center@));
                    assert(ring_position(center, k) == p);
                }
                if exists|k: int| 0 <= k < 27 && #[trigger] ring_position(center, k) == p {
                    let k = choose|k: int| 0 <= k < 27 && #[trigger] ring_position(center, k) == p;
                    crate::ring::lemma_ring_prefix_is_cube(k, 1);
                    lemma_visit(center, p, k);
                }
            }
        }
        pull_pending(&self.chunks, &mut around, 27)
    }

    /// Edits every resident chunk that an edit at the world grid position
    /// `hit` reaches: a fill with the material of `paint`, or a dig where
    /// there is no paint. A chunk in which the edit touched a sample gets
    /// its mesh built anew. Returns the positions of those chunks.
    fn edit_resident(&mut self, hit: Position, paint: Option<Voxel>, amount: u32) -> (touched:
        Vec<Position>)
        ensures
            edited_world(old(self).chunks(), final(self).chunks(), hit@, paint, amount as int),
            touched@ == touched_by(old(self).chunks(), hit@, paint, 0),
            lists_touched(old(self).chunks(), touched@, hit@, paint),
            final(self).loader() == old(self).loader(),
            final(self).render_distance() == old(self).render_distance(),
            final(self).chunks_per_frame() == old(self).chunks_per_frame(),
            final(self).generation_enabled() == old(self).generation_enabled(),
            final(self).generator() == old(self).generator(),
    {
        let center = Chunk::get_chunk_pos(hit);
        let mut around = center.iter_around(1);
        let mut touched: Vec<Position> = Vec::new();
        let ghost before = self.chunks@;
        proof {
            lemma_ring_size_one();
            assert(touched@ + touched_by(before, hit@, paint, 0) =~= touched_by(
                before,
                hit@,
                paint,
                0,
            ));
        }
        while !around.is_done()
            invariant
                around.center() == center,
                around.radius() == 1,
                ring_size(1) == 27,
                center@ == chunk_of(hit@),
                before == old(self).chunks@,
                self.chunk_load_iterator == old(self).chunk_load_iterator,
                self.render_distance == old(self).render_distance,
                self.chunk_generating_per_frame == old(self).chunk_generating_per_frame,
                self.generation_enabled == old(self).generation_enabled,
                self.generator == old(self).generator,
                self.chunks@.dom() == before.dom(),
                touched@ + touched_by(before, hit@, paint, around.yielded()) == touched_by(
                    before,
                    hit@,
                    paint,
                    0,
                ),
                forall|p: Position| #[trigger]
                    before.contains_key(p) ==> if near_edit(p, hit@) && ring_rank(
                        p@.minus(center@),
                    ) < around.yielded() {
                        edited_chunk(before[p], self.chunks@[p], hit@, paint, amount as int)
                    } else {
                        self.chunks@[p] == before[p]
                    },
                forall|p: Position| #[trigger]
                    touched@.contains(p) <==> before.contains_key(p) && near_edit(p, hit@)
                        && ring_rank(p@.minus(center@)) < around.yielded() && edit_count(
                        before[p].voxels(),
                        p@,
                        hit@,
                        paint,
                    ) > 0,
            decreases 27 - around.yielded(),
        {
            let ghost at = around.yielded();
            let ghost so_far = touched@;
            let ghost now = self.chunks@;
            match around.next() {
                Some(pos) => {
                    proof {
                        lemma_visit(center, pos, at);
                        assert(pos == ring_position(chunk_of(hit@).to_position(), at));
                    }
                    let ghost rest = touched_by(before, hit@, paint, at + 1);
                    match self.chunks.remove(pos) {
                        Some(chunk) => {
                            let mut chunk = chunk;
                            let count = match paint {
                                Some(voxel) => chunk.fill(hit, EDIT_RADIUS, voxel, amount),
                                None => chunk.dig(hit, EDIT_RADIUS, amount),
                            };
                            if count > 0 {
                                chunk.update_mesh();
                                touched.push(pos);
                            }
                            self.chunks.insert(chunk);
                            proof {
                                assert(so_far + (seq![pos] + rest) =~= (so_far + seq![pos]) + rest);
                                assert(self.chunks@.dom() =~= before.dom());
                                assert(edited_chunk(
                                    before[pos],
                                    self.chunks@[pos],
                                    hit@,
                                    paint,
                                    amount as int,
                                ));
                                assert forall|p: Position| #[trigger]
                                    touched@.contains(p) <==> before.contains_key(p) && near_edit(
                                        p,
                                        hit@,
                                    ) && ring_rank(p@.minus(center@)) < at + 1 && edit_count(
                                        before[p].voxels(),
                                        p@,
                                        hit@,
                                        paint,
                                    ) > 0 by {
                                    if count > 0 {
                                        if p == pos {
                                            assert(touched@[so_far.len() as int] == p);
                                        } else if so_far.contains(p) {
                                            let i = choose|i: int|
                                                0 <= i < so_far.len() && so_far[i] == p;
                                            assert(touched@[i] == p);
                                        }
                                    }
                                }
                            }
                        },
                        None => {
                            assert(self.chunks@ =~= now);
                        },
                    }
                },
                None => {},
            }
        }
        proof {
            assert forall|p: Position| near_edit(p, hit@) implies ring_rank(p@.minus(center@))
                < 27 by {
                lemma_ring_complete(p@.minus(center@), 1);
            }
            assert(touched@ + touched_by(before, hit@, paint, 27) =~= touched@);
        }
        touched
    }

    /// Whether `fresh` holds one chunk for each position of `missing`, in
    /// the same order.
    fn positions_match(fresh: &Vec<Chunk>, missing: &Vec<Position>) -> (r: bool)
        ensures
            r == fresh_matches(fresh@, missing@),
    {
        if fresh.len() != missing.len() {
            return false;
        }
        let mut i: usize = 0;
        while i < fresh.len()
            invariant
                i <= fresh.len(),
                fresh.len() == missing.len(),
                forall|j: int| 0 <= j < i ==> (#[trigger] fresh@[j]).position() == missing@[j],
            decreases fresh.len() - i,
        {
            if fresh[i].get_position() != missing[i] {
                return false;
            }
            i += 1;
        }
        true
    }

    /// Edits around the world grid position `hit`: a fill with the
    /// material of `paint`, or a dig where there is no paint.
    ///
    /// The edit reaches the chunk that holds `hit` and the twenty-six
    /// around it. `fresh` holds the chunks for those of them that are not
    /// resident: one for each position that `missing_chunks` gives, in
    /// that order. They are taken in, every chunk in reach is edited, and
    /// each chunk in which the edit touched a sample gets its mesh built
    /// anew. Where `fresh` does not hold the missing chunks, nothing
    /// changes, and the outcome names the positions to generate.
    pub fn edit_with(&mut self, hit: Position, fresh: Vec<Chunk>, paint: Option<Voxel>, amount: u32)
        -> (r: EditOutcome)
        ensures
            edit_result(
                old(self).chunks(),
                fresh@,
                hit@,
                paint,
                amount as int,
                final(self).chunks(),
                r,
            ),
            final(self).loader() == old(self).loader(),
            final(self).render_distance() == old(self).render_distance(),
            final(self).chunks_per_frame() == old(self).chunks_per_frame(),
            final(self).generation_enabled() == old(self).generation_enabled(),
            final(self).generator() == old(self).generator(),
    {
        let missing = self.missing_chunks(hit);
        if !Self::positions_match(&fresh, &missing) {
            return EditOutcome::Missing(missing);
        }
        let ghost before = self.chunks@;
        let ghost taken = with_chunks(before, fresh@);
        proof {
            lemma_with_chunks(before, fresh@);
            assert forall|p: Position| near_edit(p, hit@) && valid_chunk_point(p@) implies #[trigger]
                taken.contains_key(p) by {
                if !before.contains_key(p) {
                    assert(missing@.contains(p));
                    let i = choose|i: int| 0 <= i < missing@.len() && missing@[i] == p;
                    assert(fresh@[i].position() == p);
                }
            }
        }
        self.insert_chunks(fresh);
        let touched = self.edit_resident(hit, paint, amount);
        EditOutcome::Done(touched)
    }

    /// Digs where the viewer looks: casts a ray from the fixed-point
    /// world position `from` in direction `dir`, and on a hit digs around
    /// the sample that was hit, with `fresh` for the chunks in reach that
    /// are not resident, as `edit_with` does.
    pub fn mine(&mut self, from: Vec3<i64>, dir: Vec3<i64>, amount: u32, fresh: Vec<Chunk>) -> (r:
        EditOutcome)
        ensures
            match ray_march(old(self).chunks(), from@, dir@, EDIT_REACH as int, 0) {
                Some((hit, _)) => edit_result(
                    old(self).chunks(),
                    fresh@,
                    hit@,
                    None,
                    amount as int,
                    final(self).chunks(),
                    r,
                ),
                None => r matches EditOutcome::NoHit && final(self).chunks() == old(self).chunks(),
            },
            final(self).loader() == old(self).loader(),
            final(self).render_distance() == old(self).render_distance(),
            final(self).chunks_per_frame() == old(self).chunks_per_frame(),
            final(self).generation_enabled() == old(self).generation_enabled(),
            final(self).generator() == old(self).generator(),
    {
        match self.cast_ray(from, dir, EDIT_REACH) {
            Some((hit, _)) => self.edit_with(hit, fresh, None, amount),
            None => EditOutcome::NoHit,
        }
    }

    /// Fills where the viewer looks: casts a ray from the fixed-point
    /// world position `from` in direction `dir`, and on a hit fills
    /// around the sample that was hit, with its material, and with
    /// `fresh` for the chunks in reach that are not resident, as
    /// `edit_with` does.
    pub fn fill(&mut self, from: Vec3<i64>, dir: Vec3<i64>, amount: u32, fresh: Vec<Chunk>) -> (r:
        EditOutcome)
        ensures
            match ray_march(old(self).chunks(), from@, dir@, EDIT_REACH as int, 0) {
                Some((hit, voxel)) => edit_result(
                    old(self).chunks(),
                    fresh@,
                    hit@,
                    Some(voxel),
                    amount as int,
                    final(self).chunks(),
                    r,
                ),
                None => r matches EditOutcome::NoHit && final(self).chunks() == old(self).chunks(),
            },
            final(self).loader() == old(self).loader(),
            final(self).render_distance() == old(self).render_distance(),
            final(self).chunks_per_frame() == old(self).chunks_per_frame(),
            final(self).generation_enabled() == old(self).generation_enabled(),
            final(self).generator() == old(self).generator(),
    {
        match self.cast_ray(from, dir, EDIT_REACH) {
            Some((hit, voxel)) => self.edit_with(hit, fresh, Some(voxel), amount),
            None => EditOutcome::NoHit,
        }
    }
}

/// The ring of radius one holds twenty-seven positions.
proof fn lemma_ring_size_one()
    ensures
        ring_size(1) == 27,
{
    assert((2 * 1 + 1) * (2 * 1 + 1) * (2 * 1 + 1) == 27) by (nonlinear_arith);
}

/// The position at place `at` of the ring around `center` is the one
/// position of rank `at`, and it lies within the ring.
proof fn lemma_visit(center: Position, pos: Position, at: int)
    requires
        0 <= at < 27,
        pos@ == center@.plus(ring_nth(at)),
    ensures
        ring_rank(pos@.minus(center@)) == at,
        pos@.distance(center@) <= 1,
        forall|p: Position| ring_rank(p@.minus(center@)) == at ==> p == pos,
{
    lemma_ring_size_one();
    crate::ring::lemma_rank_of_nth(at);
    crate::ring::lemma_ring_prefix_is_cube(at, 1);
    assert(pos@.minus(center@) == ring_nth(at));
    assert forall|p: Position| ring_rank(p@.minus(center@)) == at implies p == pos by {
        crate::ring::lemma_rank_injective(p@.minus(center@), pos@.minus(center@));
    }
}

/// The amount of an edit in a frame that lasted `delta_millis`
/// milliseconds: a twentieth of the frame's length in seconds, as a
/// fixed-point number, and no more than 32 bits hold.
pub open spec fn edit_amount_of(delta_millis: int) -> int {
    if delta_millis * 50 > u32::MAX {
        u32::MAX as int
    } else {
        delta_millis * 50
    }
}

/// The amount of an edit in a frame that lasted `delta_millis`
/// milliseconds.
pub fn edit_amount(delta_millis: u128) -> (r: u32)
    ensures
        r == edit_amount_of(delta_millis as int),
{
    if delta_millis > (u32::MAX / 50) as u128 {
        u32::MAX
    } else {
        (delta_millis * 50) as u32
    }
}

impl World {
    /// Carries out the edit that the keys ask for, in a frame that lasted
    /// `delta_millis` milliseconds, for a viewer at the fixed-point world
    /// position `from` who looks in direction `dir`: a dig while the key
    /// to mine is held, else a fill while the key to fill is held, with
    /// `fresh` for the chunks in reach that are not resident, as
    /// `edit_with` does.
    pub fn process_input(
        &mut self,
        input: &GameInput,
        from: Vec3<i64>,
        dir: Vec3<i64>,
        delta_millis: u128,
        fresh: Vec<Chunk>,
    ) -> (r: EditOutcome)
        ensures
            ({
                let hit = ray_march(old(self).chunks(), from@, dir@, EDIT_REACH as int, 0);
                let amount = edit_amount_of(delta_millis as int);
                let mine = input.state_of(InputKey::Mine).held();
                let fill = input.state_of(InputKey::Fill).held();
                if !(mine || fill) {
                    r matches EditOutcome::NotAsked && final(self).chunks() == old(self).chunks()
                } else if hit.is_none() {
                    r matches EditOutcome::NoHit && final(self).chunks() == old(self).chunks()
                } else {
                    edit_result(
                        old(self).chunks(),
                        fresh@,
                        hit.unwrap().0@,
                        if mine {
                            None
                        } else {
                            Some(hit.unwrap().1)
                        },
                        amount,
                        final(self).chunks(),
                        r,
                    )
                }
            }),
            final(self).loader() == old(self).loader(),
            final(self).render_distance() == old(self).render_distance(),
            final(self).chunks_per_frame() == old(self).chunks_per_frame(),
            final(self).generation_enabled() == old(self).generation_enabled(),
            final(self).generator() == old(self).generator(),
    {
        if input.is_pressed(InputKey::Mine) {
            self.mine(from, dir, edit_amount(delta_millis), fresh)
        } else if input.is_pressed(InputKey::Fill) {
            self.fill(from, dir, edit_amount(delta_millis), fresh)
        } else {
            EditOutcome::NotAsked
        }
    }
}

} // verus!

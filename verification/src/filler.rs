//! Cosmetic fillers: here and there a plain tile inside the grid gives way
//! to a variant of itself.

use crate::generator::MapGenerator;
use crate::grid::{group_grid, lemma_index_in_range, GridView, TileGrid};
use crate::random::random_in_range;
use vstd::prelude::*;

verus! {

broadcast use group_grid;

/// The parts in which a filler's chance is counted: a chance of this
/// many parts is certainty.
pub const FILLER_PROB_SCALE: u32 = 1_000_000;

/// Cell `(a, b)` lies inside the grid's outermost ring.
pub open spec fn is_interior(g: GridView, a: int, b: int) -> bool {
    1 <= a < g.width - 1 && 1 <= b < g.height - 1
}

/// Cell `(a, b)` is one that a filler for tile `src` may replace: it lies
/// inside the outermost ring and holds `src`.
pub open spec fn filler_matches(g: GridView, a: int, b: int, src: u32) -> bool {
    is_interior(g, a, b) && g.at(a, b) == Some(src)
}

/// A draw below the chance replaces the tile.
pub open spec fn filler_hits(draw: u32, prob: u32) -> bool {
    draw < prob
}

/// Number of places at which two sequences of one length differ.
pub open spec fn differences(s: Seq<Option<u32>>, t: Seq<Option<u32>>) -> nat
    decreases s.len(),
{
    if s.len() == 0 || s.len() != t.len() {
        0
    } else {
        differences(s.drop_last(), t.drop_last()) + if s.last() != t.last() {
            1nat
        } else {
            0nat
        }
    }
}

/// A sequence differs from itself nowhere.
pub proof fn lemma_differences_none(s: Seq<Option<u32>>)
    ensures
        differences(s, s) == 0,
    decreases s.len(),
{
    if s.len() > 0 {
        lemma_differences_none(s.drop_last());
    }
}

/// Changing an entry that agreed with the other sequence adds one
/// difference.
pub proof fn lemma_differences_update(
    s: Seq<Option<u32>>,
    t: Seq<Option<u32>>,
    i: int,
    v: Option<u32>,
)
    requires
        s.len() == t.len(),
        0 <= i < s.len(),
        s[i] == t[i],
        v != s[i],
    ensures
        differences(s, t.update(i, v)) == differences(s, t) + 1,
    decreases s.len(),
{
    let after = t.update(i, v);
    if i == s.len() - 1 {
        assert(after.drop_last() =~= t.drop_last());
    } else {
        assert(after.drop_last() =~= t.drop_last().update(i, v));
        lemma_differences_update(s.drop_last(), t.drop_last(), i, v);
    }
}

/// What one filler may have made of grid `g`: `h` has the same shape, and
/// each cell of it holds what it held, or `dst` where the filler could
/// replace `src`.
pub open spec fn filled_from(g: GridView, h: GridView, src: u32, dst: u32) -> bool {
    &&& h.wf()
    &&& h.same_shape(g)
    &&& forall|a: int, b: int|
        g.in_bounds(a, b) ==> (#[trigger] h.at(a, b) == g.at(a, b) || (filler_matches(g, a, b, src)
            && h.at(a, b) == Some(dst)))
}

impl MapGenerator {
    /// Replaces `src` by `dst` at cell `(x, y)` if the cell holds `src` and
    /// the draw is below the chance.
    pub fn try_fill_cell(
        &self,
        layer: &mut TileGrid,
        x: u32,
        y: u32,
        src: u32,
        dst: u32,
        prob: u32,
        draw: u32,
    ) -> (hit: bool)
        requires
            old(layer).wf(),
            x < old(layer).width,
            y < old(layer).height,
        ensures
            hit == (old(layer)@.at(x as int, y as int) == Some(src) && filler_hits(draw, prob)),
            hit ==> final(layer)@ == old(layer)@.put(x as int, y as int, Some(dst)),
            !hit ==> final(layer)@ == old(layer)@,
            final(layer).wf(),
    {
        if !layer.holds(x, y, src) {
            return false;
        }
        if draw >= prob {
            return false;
        }
        layer.set(x, y, Some(dst));
        true
    }

    /// Goes over the cells inside the outermost ring and, for each that
    /// holds `src`, draws a number below [`FILLER_PROB_SCALE`]; where the
    /// draw is below `prob`, the cell gets `dst`. Returns how often that
    /// happened. A chance of zero changes nothing; a chance of
    /// [`FILLER_PROB_SCALE`] or more replaces every `src` inside the ring.
    pub fn rewrite_random_filler(&self, src: u32, dst: u32, prob: u32, layer: &mut TileGrid) -> (count:
        u32)
        requires
            old(layer).wf(),
        ensures
            filled_from(old(layer)@, final(layer)@, src, dst),
            final(layer).wf(),
            prob == 0 ==> final(layer)@ == old(layer)@ && count == 0,
            prob >= FILLER_PROB_SCALE ==> forall|a: int, b: int| #[trigger]
                filler_matches(old(layer)@, a, b, src) ==> final(layer)@.at(a, b) == Some(dst),
            src != dst ==> count == differences(old(layer)@.cells, final(layer)@.cells),
    {
        let ghost start = layer@;
        let mut count: u32 = 0;
        proof {
            lemma_differences_none(start.cells);
        }
        if layer.width < 3 || layer.height < 3 {
            return 0;
        }
        let mut x: u32 = 1;
        while x < layer.width - 1
            invariant
                layer.wf(),
                start.wf(),
                layer@.same_shape(start),
                layer.width >= 3,
                layer.height >= 3,
                1 <= x <= layer.width - 1,
                count <= x * layer.height,
                filled_from(start, layer@, src, dst),
                forall|a: int, b: int|
                    start.in_bounds(a, b) && a >= x ==> #[trigger] layer@.at(a, b) == start.at(a, b),
                prob == 0 ==> layer@ == start && count == 0,
                prob >= FILLER_PROB_SCALE ==> forall|a: int, b: int|
                    a < x && #[trigger] filler_matches(start, a, b, src) ==> layer@.at(a, b) == Some(
                        dst,
                    ),
                src != dst ==> count == differences(start.cells, layer@.cells),
            decreases layer.width - x,
        {
            let mut y: u32 = 1;
            while y < layer.height - 1
                invariant
                    layer.wf(),
                    start.wf(),
                    layer@.same_shape(start),
                    layer.width >= 3,
                    layer.height >= 3,
                    1 <= x < layer.width - 1,
                    1 <= y <= layer.height - 1,
                    count <= x * layer.height + y,
                    filled_from(start, layer@, src, dst),
                    forall|a: int, b: int|
                        start.in_bounds(a, b) && (a > x || (a == x && b >= y))
                            ==> #[trigger] layer@.at(a, b) == start.at(a, b),
                    prob == 0 ==> layer@ == start && count == 0,
                    prob >= FILLER_PROB_SCALE ==> forall|a: int, b: int|
                        (a < x || (a == x && b < y)) && #[trigger] filler_matches(start, a, b, src)
                            ==> layer@.at(a, b) == Some(dst),
                    src != dst ==> count == differences(start.cells, layer@.cells),
                decreases layer.height - y,
            {
                proof {
                    assert(x * layer.height + y < layer.width * layer.height) by (nonlinear_arith)
                        requires
                            x < layer.width - 1,
                            y < layer.height,
                            layer.height >= 0,
                    ;
                }
                if layer.holds(x, y, src) {
                    let draw = random_in_range(0, FILLER_PROB_SCALE);
                    let ghost before = layer@;
                    let hit = self.try_fill_cell(layer, x, y, src, dst, prob, draw);
                    if hit {
                        proof {
                            lemma_index_in_range(before, x as int, y as int);
                            if src != dst {
                                lemma_differences_update(
                                    start.cells,
                                    before.cells,
                                    before.index_of(x as int, y as int),
                                    Some(dst),
                                );
                            }
                        }
                        count += 1;
                    }
                }
                y += 1;
            }
            proof {
                assert((x + 1) * layer.height == x * layer.height + layer.height)
                    by (nonlinear_arith);
            }
            x += 1;
        }
        count
    }
}

} // verus!

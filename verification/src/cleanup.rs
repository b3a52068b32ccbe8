//! Wall shapes for which no detail tile exists, and the rules that fold
//! them back into plain wall: walls one cell thin between two ground cells,
//! and pairs of corners that meet diagonally.

use crate::generator::MapGenerator;
use crate::grid::{group_grid, lemma_index_in_range, GridView, TileGrid};
use crate::tiles::{GROUND_01_TILE_ID, WALL_01_TILE_ID};
use vstd::prelude::*;

verus! {

broadcast use group_grid;

/// Number of cells that hold the plain ground tile.
pub open spec fn ground_count(cells: Seq<Option<u32>>) -> nat
    decreases cells.len(),
{
    if cells.len() == 0 {
        0
    } else {
        ground_count(cells.drop_last()) + if cells.last() == Some(GROUND_01_TILE_ID) {
            1nat
        } else {
            0nat
        }
    }
}

/// One if `v` is the plain ground tile, zero if not.
pub open spec fn ground_weight(v: Option<u32>) -> int {
    if v == Some(GROUND_01_TILE_ID) {
        1
    } else {
        0
    }
}

/// Replacing one entry changes the ground count by the difference of the
/// two entries' weights.
pub proof fn lemma_ground_count_update(cells: Seq<Option<u32>>, i: int, v: Option<u32>)
    requires
        0 <= i < cells.len(),
    ensures
        ground_count(cells.update(i, v)) == ground_count(cells) - ground_weight(cells[i])
            + ground_weight(v),
    decreases cells.len(),
{
    let after = cells.update(i, v);
    if i == cells.len() - 1 {
        assert(after.drop_last() =~= cells.drop_last());
    } else {
        assert(after.drop_last() =~= cells.drop_last().update(i, v));
        lemma_ground_count_update(cells.drop_last(), i, v);
    }
}

/// Writing one cell of a grid changes its ground count by the difference
/// of the old and the new content's weights.
pub proof fn lemma_ground_count_put(g: GridView, x: int, y: int, v: Option<u32>)
    requires
        g.wf(),
        g.in_bounds(x, y),
    ensures
        ground_count(g.put(x, y, v).cells) == ground_count(g.cells) - ground_weight(g.at(x, y))
            + ground_weight(v),
{
    lemma_index_in_range(g, x, y);
    lemma_ground_count_update(g.cells, g.index_of(x, y), v);
}

/// Ground above and below a single plain wall cell, seen from the upper
/// ground cell `(x, y)`.
pub open spec fn thin_horizontal_matches(g: GridView, x: int, y: int) -> bool {
    &&& g.holds(x, y, GROUND_01_TILE_ID)
    &&& g.holds(x, y + 1, WALL_01_TILE_ID)
    &&& g.holds(x, y + 2, GROUND_01_TILE_ID)
}

/// The upper ground cell of such a shape becomes plain wall.
pub open spec fn thin_horizontal_apply(g: GridView, x: int, y: int) -> GridView {
    if thin_horizontal_matches(g, x, y) {
        g.put(x, y, Some(WALL_01_TILE_ID))
    } else {
        g
    }
}

/// Ground left and right of a single plain wall cell, seen from the left
/// ground cell `(x, y)`.
pub open spec fn thin_vertical_matches(g: GridView, x: int, y: int) -> bool {
    &&& g.holds(x, y, GROUND_01_TILE_ID)
    &&& g.holds(x + 1, y, WALL_01_TILE_ID)
    &&& g.holds(x + 2, y, GROUND_01_TILE_ID)
}

/// The left ground cell of such a shape becomes plain wall.
pub open spec fn thin_vertical_apply(g: GridView, x: int, y: int) -> GridView {
    if thin_vertical_matches(g, x, y) {
        g.put(x, y, Some(WALL_01_TILE_ID))
    } else {
        g
    }
}

/// A block three wide and two high, top-left at `(x, y)`, in which two
/// ground cells sit in opposite corners and the other four cells are plain
/// wall.
pub open spec fn double_corner_horizontal_matches(g: GridView, x: int, y: int) -> bool {
    ||| {
        &&& g.holds(x, y, WALL_01_TILE_ID)
        &&& g.holds(x + 1, y, WALL_01_TILE_ID)
        &&& g.holds(x + 2, y, GROUND_01_TILE_ID)
        &&& g.holds(x, y + 1, GROUND_01_TILE_ID)
        &&& g.holds(x + 1, y + 1, WALL_01_TILE_ID)
        &&& g.holds(x + 2, y + 1, WALL_01_TILE_ID)
    }
    ||| {
        &&& g.holds(x, y, GROUND_01_TILE_ID)
        &&& g.holds(x + 1, y, WALL_01_TILE_ID)
        &&& g.holds(x + 2, y, WALL_01_TILE_ID)
        &&& g.holds(x, y + 1, WALL_01_TILE_ID)
        &&& g.holds(x + 1, y + 1, WALL_01_TILE_ID)
        &&& g.holds(x + 2, y + 1, GROUND_01_TILE_ID)
    }
}

/// All six cells of such a block become plain wall.
pub open spec fn double_corner_horizontal_apply(g: GridView, x: int, y: int) -> GridView {
    if double_corner_horizontal_matches(g, x, y) {
        let w = Some(WALL_01_TILE_ID);
        g.put(x, y, w).put(x + 1, y, w).put(x + 2, y, w).put(x, y + 1, w).put(x + 1, y + 1, w).put(
            x + 2,
            y + 1,
            w,
        )
    } else {
        g
    }
}

/// A block two wide and three high, top-left at `(x, y)`, in which two
/// ground cells sit in opposite corners and the other four cells are plain
/// wall.
pub open spec fn double_corner_vertical_matches(g: GridView, x: int, y: int) -> bool {
    ||| {
        &&& g.holds(x, y, WALL_01_TILE_ID)
        &&& g.holds(x, y + 1, WALL_01_TILE_ID)
        &&& g.holds(x, y + 2, GROUND_01_TILE_ID)
        &&& g.holds(x + 1, y, GROUND_01_TILE_ID)
        &&& g.holds(x + 1, y + 1, WALL_01_TILE_ID)
        &&& g.holds(x + 1, y + 2, WALL_01_TILE_ID)
    }
    ||| {
        &&& g.holds(x, y, GROUND_01_TILE_ID)
        &&& g.holds(x, y + 1, WALL_01_TILE_ID)
        &&& g.holds(x, y + 2, WALL_01_TILE_ID)
        &&& g.holds(x + 1, y, WALL_01_TILE_ID)
        &&& g.holds(x + 1, y + 1, WALL_01_TILE_ID)
        &&& g.holds(x + 1, y + 2, GROUND_01_TILE_ID)
    }
}

/// All six cells of such a block become plain wall.
pub open spec fn double_corner_vertical_apply(g: GridView, x: int, y: int) -> GridView {
    if double_corner_vertical_matches(g, x, y) {
        let w = Some(WALL_01_TILE_ID);
        g.put(x, y, w).put(x, y + 1, w).put(x, y + 2, w).put(x + 1, y, w).put(x + 1, y + 1, w).put(
            x + 1,
            y + 2,
            w,
        )
    } else {
        g
    }
}

/// What the four rules, tried in their fixed order at cell `(x, y)`, make
/// of the grid. Each rule sees what the rules before it wrote.
pub open spec fn cleanup_step(g: GridView, x: int, y: int) -> GridView {
    let g1 = thin_horizontal_apply(g, x, y);
    let g2 = thin_vertical_apply(g1, x, y);
    let g3 = double_corner_horizontal_apply(g2, x, y);
    double_corner_vertical_apply(g3, x, y)
}

/// Some rule of the four matches at cell `(x, y)`.
pub open spec fn cleanup_matches(g: GridView, x: int, y: int) -> bool {
    ||| thin_horizontal_matches(g, x, y)
    ||| thin_vertical_matches(g, x, y)
    ||| double_corner_horizontal_matches(g, x, y)
    ||| double_corner_vertical_matches(g, x, y)
}

/// No rule of the four matches anywhere: the shapes that have no detail
/// tile are gone.
pub open spec fn is_clean(g: GridView) -> bool {
    forall|x: int, y: int| !#[trigger] cleanup_matches(g, x, y)
}

/// The rule for a thin wall between stacked ground cells keeps the grid's
/// shape and takes one ground cell away where it matches.
pub proof fn lemma_thin_horizontal(g: GridView, x: int, y: int)
    requires
        g.wf(),
    ensures
        thin_horizontal_apply(g, x, y).wf(),
        thin_horizontal_apply(g, x, y).same_shape(g),
        ground_count(thin_horizontal_apply(g, x, y).cells) == ground_count(g.cells) - (if
            thin_horizontal_matches(g, x, y) {
            1int
        } else {
            0int
        }),
{
    if thin_horizontal_matches(g, x, y) {
        lemma_ground_count_put(g, x, y, Some(WALL_01_TILE_ID));
    }
}

/// The rule for a thin wall between ground cells side by side keeps the
/// grid's shape and takes one ground cell away where it matches.
pub proof fn lemma_thin_vertical(g: GridView, x: int, y: int)
    requires
        g.wf(),
    ensures
        thin_vertical_apply(g, x, y).wf(),
        thin_vertical_apply(g, x, y).same_shape(g),
        ground_count(thin_vertical_apply(g, x, y).cells) == ground_count(g.cells) - (if
            thin_vertical_matches(g, x, y) {
            1int
        } else {
            0int
        }),
{
    if thin_vertical_matches(g, x, y) {
        lemma_ground_count_put(g, x, y, Some(WALL_01_TILE_ID));
    }
}

/// The double-corner rule on a block three wide keeps the grid's shape and
/// takes two ground cells away where it matches.
pub proof fn lemma_double_corner_horizontal(g: GridView, x: int, y: int)
    requires
        g.wf(),
    ensures
        double_corner_horizontal_apply(g, x, y).wf(),
        double_corner_horizontal_apply(g, x, y).same_shape(g),
        ground_count(double_corner_horizontal_apply(g, x, y).cells) == ground_count(g.cells) - (if
            double_corner_horizontal_matches(g, x, y) {
            2int
        } else {
            0int
        }),
{
    if double_corner_horizontal_matches(g, x, y) {
        let w = Some(WALL_01_TILE_ID);
        let g1 = g.put(x, y, w);
        let g2 = g1.put(x + 1, y, w);
        let g3 = g2.put(x + 2, y, w);
        let g4 = g3.put(x, y + 1, w);
        let g5 = g4.put(x + 1, y + 1, w);
        lemma_ground_count_put(g, x, y, w);
        lemma_ground_count_put(g1, x + 1, y, w);
        lemma_ground_count_put(g2, x + 2, y, w);
        lemma_ground_count_put(g3, x, y + 1, w);
        lemma_ground_count_put(g4, x + 1, y + 1, w);
        lemma_ground_count_put(g5, x + 2, y + 1, w);
    }
}

/// The double-corner rule on a block three high keeps the grid's shape and
/// takes two ground cells away where it matches.
pub proof fn lemma_double_corner_vertical(g: GridView, x: int, y: int)
    requires
        g.wf(),
    ensures
        double_corner_vertical_apply(g, x, y).wf(),
        double_corner_vertical_apply(g, x, y).same_shape(g),
        ground_count(double_corner_vertical_apply(g, x, y).cells) == ground_count(g.cells) - (if
            double_corner_vertical_matches(g, x, y) {
            2int
        } else {
            0int
        }),
{
    if double_corner_vertical_matches(g, x, y) {
        let w = Some(WALL_01_TILE_ID);
        let g1 = g.put(x, y, w);
        let g2 = g1.put(x, y + 1, w);
        let g3 = g2.put(x, y + 2, w);
        let g4 = g3.put(x + 1, y, w);
        let g5 = g4.put(x + 1, y + 1, w);
        lemma_ground_count_put(g, x, y, w);
        lemma_ground_count_put(g1, x, y + 1, w);
        lemma_ground_count_put(g2, x, y + 2, w);
        lemma_ground_count_put(g3, x + 1, y, w);
        lemma_ground_count_put(g4, x + 1, y + 1, w);
        lemma_ground_count_put(g5, x + 1, y + 2, w);
    }
}

/// The four rules at one cell never add ground; they leave the grid as it
/// is exactly when none of them matches, and take ground away when one
/// does.
pub proof fn lemma_cleanup_step(g: GridView, x: int, y: int)
    requires
        g.wf(),
    ensures
        cleanup_step(g, x, y).wf(),
        cleanup_step(g, x, y).same_shape(g),
        ground_count(cleanup_step(g, x, y).cells) <= ground_count(g.cells),
        !cleanup_matches(g, x, y) ==> cleanup_step(g, x, y) == g,
        cleanup_matches(g, x, y) ==> ground_count(cleanup_step(g, x, y).cells) < ground_count(
            g.cells,
        ),
{
    let g1 = thin_horizontal_apply(g, x, y);
    let g2 = thin_vertical_apply(g1, x, y);
    let g3 = double_corner_horizontal_apply(g2, x, y);
    lemma_thin_horizontal(g, x, y);
    lemma_thin_vertical(g1, x, y);
    lemma_double_corner_horizontal(g2, x, y);
    lemma_double_corner_vertical(g3, x, y);
}

impl MapGenerator {
    /// Tries the thin-wall rule for vertically stacked cells at `(x, y)`.
    pub fn try_rewrite_thin_horizontal_wall(&self, x: u32, y: u32, layer: &mut TileGrid) -> (fired:
        bool)
        requires
            old(layer).wf(),
        ensures
            fired == thin_horizontal_matches(old(layer)@, x as int, y as int),
            final(layer)@ == thin_horizontal_apply(old(layer)@, x as int, y as int),
            final(layer).wf(),
    {
        if layer.height < 3 || x >= layer.width || y >= layer.height - 2 {
            return false;
        }
        if !(layer.holds(x, y, GROUND_01_TILE_ID) && layer.holds(x, y + 1, WALL_01_TILE_ID)
            && layer.holds(x, y + 2, GROUND_01_TILE_ID)) {
            return false;
        }
        layer.set(x, y, Some(WALL_01_TILE_ID));
        true
    }

    /// Tries the thin-wall rule for cells side by side at `(x, y)`.
    pub fn try_rewrite_thin_vertical_wall(&self, x: u32, y: u32, layer: &mut TileGrid) -> (fired:
        bool)
        requires
            old(layer).wf(),
        ensures
            fired == thin_vertical_matches(old(layer)@, x as int, y as int),
            final(layer)@ == thin_vertical_apply(old(layer)@, x as int, y as int),
            final(layer).wf(),
    {
        if layer.width < 3 || x >= layer.width - 2 || y >= layer.height {
            return false;
        }
        if !(layer.holds(x, y, GROUND_01_TILE_ID) && layer.holds(x + 1, y, WALL_01_TILE_ID)
            && layer.holds(x + 2, y, GROUND_01_TILE_ID)) {
            return false;
        }
        layer.set(x, y, Some(WALL_01_TILE_ID));
        true
    }

    /// Tries the double-corner rule on the block three wide and two high at
    /// `(x, y)`.
    pub fn try_rewrite_double_corner_horizontal(
        &self,
        x: u32,
        y: u32,
        layer: &mut TileGrid,
    ) -> (fired: bool)
        requires
            old(layer).wf(),
        ensures
            fired == double_corner_horizontal_matches(old(layer)@, x as int, y as int),
            final(layer)@ == double_corner_horizontal_apply(old(layer)@, x as int, y as int),
            final(layer).wf(),
    {
        if layer.width < 3 || layer.height < 2 || x >= layer.width - 2 || y >= layer.height - 1 {
            return false;
        }
        let w = WALL_01_TILE_ID;
        let g = GROUND_01_TILE_ID;
        let first = layer.holds(x, y, w) && layer.holds(x + 1, y, w) && layer.holds(x + 2, y, g)
            && layer.holds(x, y + 1, g) && layer.holds(x + 1, y + 1, w) && layer.holds(
            x + 2,
            y + 1,
            w,
        );
        let second = layer.holds(x, y, g) && layer.holds(x + 1, y, w) && layer.holds(x + 2, y, w)
            && layer.holds(x, y + 1, w) && layer.holds(x + 1, y + 1, w) && layer.holds(
            x + 2,
            y + 1,
            g,
        );
        if !first && !second {
            return false;
        }
        layer.set(x, y, Some(w));
        layer.set(x + 1, y, Some(w));
        layer.set(x + 2, y, Some(w));
        layer.set(x, y + 1, Some(w));
        layer.set(x + 1, y + 1, Some(w));
        layer.set(x + 2, y + 1, Some(w));
        true
    }

    /// Tries the double-corner rule on the block two wide and three high at
    /// `(x, y)`.
    pub fn try_rewrite_double_corner_vertical(
        &self,
        x: u32,
        y: u32,
        layer: &mut TileGrid,
    ) -> (fired: bool)
        requires
            old(layer).wf(),
        ensures
            fired == double_corner_vertical_matches(old(layer)@, x as int, y as int),
            final(layer)@ == double_corner_vertical_apply(old(layer)@, x as int, y as int),
            final(layer).wf(),
    {
        if layer.width < 2 || layer.height < 3 || x >= layer.width - 1 || y >= layer.height - 2 {
            return false;
        }
        let w = WALL_01_TILE_ID;
        let g = GROUND_01_TILE_ID;
        let first = layer.holds(x, y, w) && layer.holds(x, y + 1, w) && layer.holds(x, y + 2, g)
            && layer.holds(x + 1, y, g) && layer.holds(x + 1, y + 1, w) && layer.holds(
            x + 1,
            y + 2,
            w,
        );
        let second = layer.holds(x, y, g) && layer.holds(x, y + 1, w) && layer.holds(x, y + 2, w)
            && layer.holds(x + 1, y, w) && layer.holds(x + 1, y + 1, w) && layer.holds(
            x + 1,
            y + 2,
            g,
        );
        if !first && !second {
            return false;
        }
        layer.set(x, y, Some(w));
        layer.set(x, y + 1, Some(w));
        layer.set(x, y + 2, Some(w));
        layer.set(x + 1, y, Some(w));
        layer.set(x + 1, y + 1, Some(w));
        layer.set(x + 1, y + 2, Some(w));
        true
    }
}

} // verus!

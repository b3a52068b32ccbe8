//! The detail rules: each looks at a cell and its neighbours and, where
//! the pattern fits, dresses one cell with a corner, an edge or a facade
//! tile.

use crate::generator::MapGenerator;
use crate::grid::{group_grid, GridView, TileGrid};
use crate::tiles::{
    FACADE_CENTER_TILE_ID, FACADE_LEFT_TILE_ID, FACADE_RIGHT_TILE_ID, GROUND_01_TILE_ID,
    WALL_01_TILE_ID, WALL_DOWN_TILE_ID, WALL_INNER_DL_ID, WALL_INNER_DR_ID, WALL_INNER_UL_ID,
    WALL_INNER_UR_ID, WALL_LEFT_TILE_ID, WALL_OUTER_DL_ID, WALL_OUTER_DR_ID, WALL_OUTER_UL_ID,
    WALL_OUTER_UR_ID, WALL_RIGHT_TILE_ID, WALL_UP_TILE_ID,
};
use vstd::prelude::*;

verus! {

broadcast use group_grid;

/// Cell `(x, y)` exists and holds a wall-class tile, if `wall` is set, or
/// the plain ground tile, if not.
pub open spec fn cell_fits(g: GridView, x: int, y: int, wall: bool) -> bool {
    if wall {
        g.holds_wall(x, y)
    } else {
        g.holds(x, y, GROUND_01_TILE_ID)
    }
}

/// The block of four cells with top-left `(x, y)` fits the four demands,
/// given for the upper left, upper right, lower left and lower right cell.
pub open spec fn quad_fits(
    g: GridView,
    x: int,
    y: int,
    upper_left: bool,
    upper_right: bool,
    lower_left: bool,
    lower_right: bool,
) -> bool {
    &&& cell_fits(g, x, y, upper_left)
    &&& cell_fits(g, x + 1, y, upper_right)
    &&& cell_fits(g, x, y + 1, lower_left)
    &&& cell_fits(g, x + 1, y + 1, lower_right)
}

/// Cell `(x, y)` holds tile `first` and its neighbour at `(x + dx, y + dy)`
/// holds tile `second`.
pub open spec fn pair_fits(g: GridView, x: int, y: int, dx: int, dy: int, first: u32, second: u32)
    -> bool {
    g.holds(x, y, first) && g.holds(x + dx, y + dy, second)
}

/// The rule on a block of four: where the block at `(x, y)` fits the
/// demands, the cell at `(x + dx, y + dy)` gets `tile`.
pub open spec fn quad_apply(
    g: GridView,
    x: int,
    y: int,
    upper_left: bool,
    upper_right: bool,
    lower_left: bool,
    lower_right: bool,
    dx: int,
    dy: int,
    tile: u32,
) -> GridView {
    if quad_fits(g, x, y, upper_left, upper_right, lower_left, lower_right) {
        g.put(x + dx, y + dy, Some(tile))
    } else {
        g
    }
}

/// The rule on a pair: where cell `(x, y)` and its neighbour fit, one of
/// the two gets `tile`: the neighbour if `on_second` is set, else `(x, y)`.
pub open spec fn pair_apply(
    g: GridView,
    x: int,
    y: int,
    dx: int,
    dy: int,
    first: u32,
    second: u32,
    on_second: bool,
    tile: u32,
) -> GridView {
    if pair_fits(g, x, y, dx, dy, first, second) {
        if on_second {
            g.put(x + dx, y + dy, Some(tile))
        } else {
            g.put(x, y, Some(tile))
        }
    } else {
        g
    }
}

/// Whether the block of four cells with top-left `(x, y)` fits the four
/// demands.
pub fn quad_check(
    layer: &TileGrid,
    x: u32,
    y: u32,
    upper_left: bool,
    upper_right: bool,
    lower_left: bool,
    lower_right: bool,
) -> (r: bool)
    requires
        layer.wf(),
    ensures
        r == quad_fits(
            layer@,
            x as int,
            y as int,
            upper_left,
            upper_right,
            lower_left,
            lower_right,
        ),
{
    if layer.width < 2 || layer.height < 2 || x >= layer.width - 1 || y >= layer.height - 1 {
        return false;
    }
    cell_check(layer, x, y, upper_left) && cell_check(layer, x + 1, y, upper_right) && cell_check(
        layer,
        x,
        y + 1,
        lower_left,
    ) && cell_check(layer, x + 1, y + 1, lower_right)
}

/// Whether cell `(x, y)` holds a wall-class tile, if `wall` is set, or the
/// plain ground tile, if not.
pub fn cell_check(layer: &TileGrid, x: u32, y: u32, wall: bool) -> (r: bool)
    requires
        layer.wf(),
    ensures
        r == cell_fits(layer@, x as int, y as int, wall),
{
    if wall {
        layer.holds_wall(x, y)
    } else {
        layer.holds(x, y, GROUND_01_TILE_ID)
    }
}

/// Wall on three sides of a ground cell at the lower right: the upper left cell is an inner corner.
pub open spec fn inner_ul_matches(g: GridView, x: int, y: int) -> bool {
    quad_fits(g, x, y, true, true, true, false)
}

/// The corner cell of such a block gets its corner tile.
pub open spec fn inner_ul_apply(g: GridView, x: int, y: int) -> GridView {
    quad_apply(g, x, y, true, true, true, false, 0, 0, WALL_INNER_UL_ID)
}

/// Wall on three sides of a ground cell at the lower left: the upper right cell is an inner corner.
pub open spec fn inner_ur_matches(g: GridView, x: int, y: int) -> bool {
    quad_fits(g, x, y, true, true, false, true)
}

/// The corner cell of such a block gets its corner tile.
pub open spec fn inner_ur_apply(g: GridView, x: int, y: int) -> GridView {
    quad_apply(g, x, y, true, true, false, true, 1, 0, WALL_INNER_UR_ID)
}

/// Wall on three sides of a ground cell at the upper right: the lower left cell is an inner corner.
pub open spec fn inner_dl_matches(g: GridView, x: int, y: int) -> bool {
    quad_fits(g, x, y, true, false, true, true)
}

/// The corner cell of such a block gets its corner tile.
pub open spec fn inner_dl_apply(g: GridView, x: int, y: int) -> GridView {
    quad_apply(g, x, y, true, false, true, true, 0, 1, WALL_INNER_DL_ID)
}

/// Wall on three sides of a ground cell at the upper left: the lower right cell is an inner corner.
pub open spec fn inner_dr_matches(g: GridView, x: int, y: int) -> bool {
    quad_fits(g, x, y, false, true, true, true)
}

/// The corner cell of such a block gets its corner tile.
pub open spec fn inner_dr_apply(g: GridView, x: int, y: int) -> GridView {
    quad_apply(g, x, y, false, true, true, true, 1, 1, WALL_INNER_DR_ID)
}

/// Ground on three sides of a wall cell at the lower right: that cell is an outer corner.
pub open spec fn outer_ul_matches(g: GridView, x: int, y: int) -> bool {
    quad_fits(g, x, y, false, false, false, true)
}

/// The corner cell of such a block gets its corner tile.
pub open spec fn outer_ul_apply(g: GridView, x: int, y: int) -> GridView {
    quad_apply(g, x, y, false, false, false, true, 1, 1, WALL_OUTER_UL_ID)
}

/// Ground on three sides of a wall cell at the lower left: that cell is an outer corner.
pub open spec fn outer_ur_matches(g: GridView, x: int, y: int) -> bool {
    quad_fits(g, x, y, false, false, true, false)
}

/// The corner cell of such a block gets its corner tile.
pub open spec fn outer_ur_apply(g: GridView, x: int, y: int) -> GridView {
    quad_apply(g, x, y, false, false, true, false, 0, 1, WALL_OUTER_UR_ID)
}

/// Ground on three sides of a wall cell at the upper right: that cell is an outer corner.
pub open spec fn outer_dl_matches(g: GridView, x: int, y: int) -> bool {
    quad_fits(g, x, y, false, true, false, false)
}

/// The corner cell of such a block gets its corner tile.
pub open spec fn outer_dl_apply(g: GridView, x: int, y: int) -> GridView {
    quad_apply(g, x, y, false, true, false, false, 1, 0, WALL_OUTER_DL_ID)
}

/// Ground on three sides of a wall cell at the upper left: that cell is an outer corner.
pub open spec fn outer_dr_matches(g: GridView, x: int, y: int) -> bool {
    quad_fits(g, x, y, true, false, false, false)
}

/// The corner cell of such a block gets its corner tile.
pub open spec fn outer_dr_apply(g: GridView, x: int, y: int) -> GridView {
    quad_apply(g, x, y, true, false, false, false, 0, 0, WALL_OUTER_DR_ID)
}

/// Plain wall with ground to its right: the wall cell is a left edge.
pub open spec fn left_wall_matches(g: GridView, x: int, y: int) -> bool {
    pair_fits(g, x, y, 1, 0, WALL_01_TILE_ID, GROUND_01_TILE_ID)
}

/// The cell that such a pair singles out gets its tile.
pub open spec fn left_wall_apply(g: GridView, x: int, y: int) -> GridView {
    pair_apply(g, x, y, 1, 0, WALL_01_TILE_ID, GROUND_01_TILE_ID, false, WALL_LEFT_TILE_ID)
}

/// Ground with plain wall to its right: the wall cell is a right edge.
pub open spec fn right_wall_matches(g: GridView, x: int, y: int) -> bool {
    pair_fits(g, x, y, 1, 0, GROUND_01_TILE_ID, WALL_01_TILE_ID)
}

/// The cell that such a pair singles out gets its tile.
pub open spec fn right_wall_apply(g: GridView, x: int, y: int) -> GridView {
    pair_apply(g, x, y, 1, 0, GROUND_01_TILE_ID, WALL_01_TILE_ID, true, WALL_RIGHT_TILE_ID)
}

/// Ground with plain wall beneath it: the wall cell is a bottom edge.
pub open spec fn bottom_wall_matches(g: GridView, x: int, y: int) -> bool {
    pair_fits(g, x, y, 0, 1, GROUND_01_TILE_ID, WALL_01_TILE_ID)
}

/// The cell that such a pair singles out gets its tile.
pub open spec fn bottom_wall_apply(g: GridView, x: int, y: int) -> GridView {
    pair_apply(g, x, y, 0, 1, GROUND_01_TILE_ID, WALL_01_TILE_ID, true, WALL_DOWN_TILE_ID)
}

/// Plain wall with ground beneath it: the wall cell is a top edge.
pub open spec fn top_wall_matches(g: GridView, x: int, y: int) -> bool {
    pair_fits(g, x, y, 0, 1, WALL_01_TILE_ID, GROUND_01_TILE_ID)
}

/// The cell that such a pair singles out gets its tile.
pub open spec fn top_wall_apply(g: GridView, x: int, y: int) -> GridView {
    pair_apply(g, x, y, 0, 1, WALL_01_TILE_ID, GROUND_01_TILE_ID, false, WALL_UP_TILE_ID)
}

/// Ground beneath a top edge: the ground cell shows the wall's front.
pub open spec fn center_facades_matches(g: GridView, x: int, y: int) -> bool {
    pair_fits(g, x, y, 0, 1, WALL_UP_TILE_ID, GROUND_01_TILE_ID)
}

/// The cell that such a pair singles out gets its tile.
pub open spec fn center_facades_apply(g: GridView, x: int, y: int) -> GridView {
    pair_apply(g, x, y, 0, 1, WALL_UP_TILE_ID, GROUND_01_TILE_ID, true, FACADE_CENTER_TILE_ID)
}

/// Ground beneath a lower left outer corner: the ground cell shows the front's left end.
pub open spec fn left_facades_matches(g: GridView, x: int, y: int) -> bool {
    pair_fits(g, x, y, 0, 1, WALL_OUTER_DL_ID, GROUND_01_TILE_ID)
}

/// The cell that such a pair singles out gets its tile.
pub open spec fn left_facades_apply(g: GridView, x: int, y: int) -> GridView {
    pair_apply(g, x, y, 0, 1, WALL_OUTER_DL_ID, GROUND_01_TILE_ID, true, FACADE_LEFT_TILE_ID)
}

/// Ground beneath a lower right outer corner: the ground cell shows the front's right end.
pub open spec fn right_facades_matches(g: GridView, x: int, y: int) -> bool {
    pair_fits(g, x, y, 0, 1, WALL_OUTER_DR_ID, GROUND_01_TILE_ID)
}

/// The cell that such a pair singles out gets its tile.
pub open spec fn right_facades_apply(g: GridView, x: int, y: int) -> GridView {
    pair_apply(g, x, y, 0, 1, WALL_OUTER_DR_ID, GROUND_01_TILE_ID, true, FACADE_RIGHT_TILE_ID)
}

impl MapGenerator {
    /// Tries the inner-corner rule `inner_ul` on the block at `(x, y)`.
    pub fn try_rewrite_inner_ul_wall(&self, x: u32, y: u32, layer: &mut TileGrid) -> (fired: bool)
        requires
            old(layer).wf(),
        ensures
            fired == inner_ul_matches(old(layer)@, x as int, y as int),
            final(layer)@ == inner_ul_apply(old(layer)@, x as int, y as int),
            final(layer).wf(),
    {
        if !quad_check(layer, x, y, true, true, true, false) {
            return false;
        }
        layer.set(x, y, Some(WALL_INNER_UL_ID));
        true
    }

    /// Tries the inner-corner rule `inner_ur` on the block at `(x, y)`.
    pub fn try_rewrite_inner_ur_wall(&self, x: u32, y: u32, layer: &mut TileGrid) -> (fired: bool)
        requires
            old(layer).wf(),
        ensures
            fired == inner_ur_matches(old(layer)@, x as int, y as int),
            final(layer)@ == inner_ur_apply(old(layer)@, x as int, y as int),
            final(layer).wf(),
    {
        if !quad_check(layer, x, y, true, true, false, true) {
            return false;
        }
        layer.set(x + 1, y, Some(WALL_INNER_UR_ID));
        true
    }

    /// Tries the inner-corner rule `inner_dl` on the block at `(x, y)`.
    pub fn try_rewrite_inner_dl_wall(&self, x: u32, y: u32, layer: &mut TileGrid) -> (fired: bool)
        requires
            old(layer).wf(),
        ensures
            fired == inner_dl_matches(old(layer)@, x as int, y as int),
            final(layer)@ == inner_dl_apply(old(layer)@, x as int, y as int),
            final(layer).wf(),
    {
        if !quad_check(layer, x, y, true, false, true, true) {
            return false;
        }
        layer.set(x, y + 1, Some(WALL_INNER_DL_ID));
        true
    }

    /// Tries the inner-corner rule `inner_dr` on the block at `(x, y)`.
    pub fn try_rewrite_inner_dr_wall(&self, x: u32, y: u32, layer: &mut TileGrid) -> (fired: bool)
        requires
            old(layer).wf(),
        ensures
            fired == inner_dr_matches(old(layer)@, x as int, y as int),
            final(layer)@ == inner_dr_apply(old(layer)@, x as int, y as int),
            final(layer).wf(),
    {
        if !quad_check(layer, x, y, false, true, true, true) {
            return false;
        }
        layer.set(x + 1, y + 1, Some(WALL_INNER_DR_ID));
        true
    }

    /// Tries the outer-corner rule `outer_ul` on the block at `(x, y)`.
    pub fn try_rewrite_outer_ul_wall(&self, x: u32, y: u32, layer: &mut TileGrid) -> (fired: bool)
        requires
            old(layer).wf(),
        ensures
            fired == outer_ul_matches(old(layer)@, x as int, y as int),
            final(layer)@ == outer_ul_apply(old(layer)@, x as int, y as int),
            final(layer).wf(),
    {
        if !quad_check(layer, x, y, false, false, false, true) {
            return false;
        }
        layer.set(x + 1, y + 1, Some(WALL_OUTER_UL_ID));
        true
    }

    /// Tries the outer-corner rule `outer_ur` on the block at `(x, y)`.
    pub fn try_rewrite_outer_ur_wall(&self, x: u32, y: u32, layer: &mut TileGrid) -> (fired: bool)
        requires
            old(layer).wf(),
        ensures
            fired == outer_ur_matches(old(layer)@, x as int, y as int),
            final(layer)@ == outer_ur_apply(old(layer)@, x as int, y as int),
            final(layer).wf(),
    {
        if !quad_check(layer, x, y, false, false, true, false) {
            return false;
        }
        layer.set(x, y + 1, Some(WALL_OUTER_UR_ID));
        true
    }

    /// Tries the outer-corner rule `outer_dl` on the block at `(x, y)`.
    pub fn try_rewrite_outer_dl_wall(&self, x: u32, y: u32, layer: &mut TileGrid) -> (fired: bool)
        requires
            old(layer).wf(),
        ensures
            fired == outer_dl_matches(old(layer)@, x as int, y as int),
            final(layer)@ == outer_dl_apply(old(layer)@, x as int, y as int),
            final(layer).wf(),
    {
        if !quad_check(layer, x, y, false, true, false, false) {
            return false;
        }
        layer.set(x + 1, y, Some(WALL_OUTER_DL_ID));
        true
    }

    /// Tries the outer-corner rule `outer_dr` on the block at `(x, y)`.
    pub fn try_rewrite_outer_dr_wall(&self, x: u32, y: u32, layer: &mut TileGrid) -> (fired: bool)
        requires
            old(layer).wf(),
        ensures
            fired == outer_dr_matches(old(layer)@, x as int, y as int),
            final(layer)@ == outer_dr_apply(old(layer)@, x as int, y as int),
            final(layer).wf(),
    {
        if !quad_check(layer, x, y, true, false, false, false) {
            return false;
        }
        layer.set(x, y, Some(WALL_OUTER_DR_ID));
        true
    }

    /// Tries the rule `left_wall` on cell `(x, y)` and its neighbour.
    pub fn try_rewrite_left_wall(&self, x: u32, y: u32, layer: &mut TileGrid) -> (fired: bool)
        requires
            old(layer).wf(),
        ensures
            fired == left_wall_matches(old(layer)@, x as int, y as int),
            final(layer)@ == left_wall_apply(old(layer)@, x as int, y as int),
            final(layer).wf(),
    {
        if layer.width < 2 || x >= layer.width - 1 || y >= layer.height {
            return false;
        }
        if !(layer.holds(x, y, WALL_01_TILE_ID) && layer.holds(x + 1, y, GROUND_01_TILE_ID)) {
            return false;
        }
        layer.set(x, y, Some(WALL_LEFT_TILE_ID));
        true
    }

    /// Tries the rule `right_wall` on cell `(x, y)` and its neighbour.
    pub fn try_rewrite_right_wall(&self, x: u32, y: u32, layer: &mut TileGrid) -> (fired: bool)
        requires
            old(layer).wf(),
        ensures
            fired == right_wall_matches(old(layer)@, x as int, y as int),
            final(layer)@ == right_wall_apply(old(layer)@, x as int, y as int),
            final(layer).wf(),
    {
        if layer.width < 2 || x >= layer.width - 1 || y >= layer.height {
            return false;
        }
        if !(layer.holds(x, y, GROUND_01_TILE_ID) && layer.holds(x + 1, y, WALL_01_TILE_ID)) {
            return false;
        }
        layer.set(x + 1, y, Some(WALL_RIGHT_TILE_ID));
        true
    }

    /// Tries the rule `bottom_wall` on cell `(x, y)` and its neighbour.
    pub fn try_rewrite_bottom_wall(&self, x: u32, y: u32, layer: &mut TileGrid) -> (fired: bool)
        requires
            old(layer).wf(),
        ensures
            fired == bottom_wall_matches(old(layer)@, x as int, y as int),
            final(layer)@ == bottom_wall_apply(old(layer)@, x as int, y as int),
            final(layer).wf(),
    {
        if layer.height < 2 || x >= layer.width || y >= layer.height - 1 {
            return false;
        }
        if !(layer.holds(x, y, GROUND_01_TILE_ID) && layer.holds(x, y + 1, WALL_01_TILE_ID)) {
            return false;
        }
        layer.set(x, y + 1, Some(WALL_DOWN_TILE_ID));
        true
    }

    /// Tries the rule `top_wall` on cell `(x, y)` and its neighbour.
    pub fn try_rewrite_top_wall(&self, x: u32, y: u32, layer: &mut TileGrid) -> (fired: bool)
        requires
            old(layer).wf(),
        ensures
            fired == top_wall_matches(old(layer)@, x as int, y as int),
            final(layer)@ == top_wall_apply(old(layer)@, x as int, y as int),
            final(layer).wf(),
    {
        if layer.height < 2 || x >= layer.width || y >= layer.height - 1 {
            return false;
        }
        if !(layer.holds(x, y, WALL_01_TILE_ID) && layer.holds(x, y + 1, GROUND_01_TILE_ID)) {
            return false;
        }
        layer.set(x, y, Some(WALL_UP_TILE_ID));
        true
    }

    /// Tries the rule `center_facades` on cell `(x, y)` and its neighbour.
    pub fn try_rewrite_center_facades(&self, x: u32, y: u32, layer: &mut TileGrid) -> (fired: bool)
        requires
            old(layer).wf(),
        ensures
            fired == center_facades_matches(old(layer)@, x as int, y as int),
            final(layer)@ == center_facades_apply(old(layer)@, x as int, y as int),
            final(layer).wf(),
    {
        if layer.height < 2 || x >= layer.width || y >= layer.height - 1 {
            return false;
        }
        if !(layer.holds(x, y, WALL_UP_TILE_ID) && layer.holds(x, y + 1, GROUND_01_TILE_ID)) {
            return false;
        }
        layer.set(x, y + 1, Some(FACADE_CENTER_TILE_ID));
        true
    }

    /// Tries the rule `left_facades` on cell `(x, y)` and its neighbour.
    pub fn try_rewrite_left_facades(&self, x: u32, y: u32, layer: &mut TileGrid) -> (fired: bool)
        requires
            old(layer).wf(),
        ensures
            fired == left_facades_matches(old(layer)@, x as int, y as int),
            final(layer)@ == left_facades_apply(old(layer)@, x as int, y as int),
            final(layer).wf(),
    {
        if layer.height < 2 || x >= layer.width || y >= layer.height - 1 {
            return false;
        }
        if !(layer.holds(x, y, WALL_OUTER_DL_ID) && layer.holds(x, y + 1, GROUND_01_TILE_ID)) {
            return false;
        }
        layer.set(x, y + 1, Some(FACADE_LEFT_TILE_ID));
        true
    }

    /// Tries the rule `right_facades` on cell `(x, y)` and its neighbour.
    pub fn try_rewrite_right_facades(&self, x: u32, y: u32, layer: &mut TileGrid) -> (fired: bool)
        requires
            old(layer).wf(),
        ensures
            fired == right_facades_matches(old(layer)@, x as int, y as int),
            final(layer)@ == right_facades_apply(old(layer)@, x as int, y as int),
            final(layer).wf(),
    {
        if layer.height < 2 || x >= layer.width || y >= layer.height - 1 {
            return false;
        }
        if !(layer.holds(x, y, WALL_OUTER_DR_ID) && layer.holds(x, y + 1, GROUND_01_TILE_ID)) {
            return false;
        }
        layer.set(x, y + 1, Some(FACADE_RIGHT_TILE_ID));
        true
    }
}

} // verus!

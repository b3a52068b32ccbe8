//! Passes over the grid. A pass visits every cell, column by column from
//! the left and within a column from the top, and tries its rules at each
//! cell in a fixed order, so that a rule sees whatever was written before
//! it in the same pass.

use crate::cleanup::{cleanup_matches, cleanup_step, ground_count, lemma_cleanup_step};
use crate::detail::{
    bottom_wall_apply, bottom_wall_matches, center_facades_apply, center_facades_matches,
    inner_dl_apply, inner_dl_matches, inner_dr_apply, inner_dr_matches, inner_ul_apply,
    inner_ul_matches, inner_ur_apply, inner_ur_matches, left_facades_apply, left_facades_matches,
    left_wall_apply, left_wall_matches, outer_dl_apply, outer_dl_matches, outer_dr_apply,
    outer_dr_matches, outer_ul_apply, outer_ul_matches, outer_ur_apply, outer_ur_matches,
    right_facades_apply, right_facades_matches, right_wall_apply, right_wall_matches,
    top_wall_apply, top_wall_matches,
};
use crate::generator::MapGenerator;
use crate::grid::{group_grid, GridView, TileGrid};
use vstd::prelude::*;

verus! {

broadcast use group_grid;

/// The passes of the wall detailing, in the order in which they run.
#[derive(Clone, Copy, Debug, PartialEq, Eq, Structural)]
pub enum Pass {
    /// Folds shapes without a detail tile back into plain wall.
    Cleanup,
    /// Inner corners, then outer corners.
    Corners,
    /// Left and right edges.
    Sides,
    /// Bottom and top edges.
    Caps,
    /// Wall fronts beneath top edges and lower outer corners.
    Facades,
}

/// The eight corner rules in their order at cell `(x, y)`.
pub open spec fn corner_step(g: GridView, x: int, y: int) -> GridView {
    let g1 = inner_ul_apply(g, x, y);
    let g2 = inner_ur_apply(g1, x, y);
    let g3 = inner_dl_apply(g2, x, y);
    let g4 = inner_dr_apply(g3, x, y);
    let g5 = outer_ul_apply(g4, x, y);
    let g6 = outer_ur_apply(g5, x, y);
    let g7 = outer_dl_apply(g6, x, y);
    outer_dr_apply(g7, x, y)
}

/// The left-edge rule, then the right-edge rule, at cell `(x, y)`.
pub open spec fn side_step(g: GridView, x: int, y: int) -> GridView {
    right_wall_apply(left_wall_apply(g, x, y), x, y)
}

/// The bottom-edge rule, then the top-edge rule, at cell `(x, y)`.
pub open spec fn cap_step(g: GridView, x: int, y: int) -> GridView {
    top_wall_apply(bottom_wall_apply(g, x, y), x, y)
}

/// The three facade rules in their order at cell `(x, y)`.
pub open spec fn facade_step(g: GridView, x: int, y: int) -> GridView {
    right_facades_apply(left_facades_apply(center_facades_apply(g, x, y), x, y), x, y)
}

/// What the rules of `pass` make of the grid at cell `(x, y)`.
pub open spec fn step(pass: Pass, g: GridView, x: int, y: int) -> GridView {
    match pass {
        Pass::Cleanup => cleanup_step(g, x, y),
        Pass::Corners => corner_step(g, x, y),
        Pass::Sides => side_step(g, x, y),
        Pass::Caps => cap_step(g, x, y),
        Pass::Facades => facade_step(g, x, y),
    }
}

/// The grid after `pass` has visited the first `rows` cells of column `x`.
pub open spec fn scan_column(pass: Pass, g: GridView, x: int, rows: int) -> GridView
    decreases rows,
{
    if rows <= 0 {
        g
    } else {
        step(pass, scan_column(pass, g, x, rows - 1), x, rows - 1)
    }
}

/// The grid after `pass` has visited the first `cols` columns.
pub open spec fn scan_columns(pass: Pass, g: GridView, cols: int) -> GridView
    decreases cols,
{
    if cols <= 0 {
        g
    } else {
        scan_column(pass, scan_columns(pass, g, cols - 1), cols - 1, g.height)
    }
}

/// The grid after `pass` has visited every cell.
pub open spec fn scan(pass: Pass, g: GridView) -> GridView {
    scan_columns(pass, g, g.width)
}

/// Some rule of `pass` fires at cell `(x, y)`: it fits when its turn
/// comes, after the rules before it have written.
pub open spec fn step_fires(pass: Pass, g: GridView, x: int, y: int) -> bool {
    match pass {
        Pass::Cleanup => cleanup_matches(g, x, y),
        Pass::Corners => {
            let g1 = inner_ul_apply(g, x, y);
            let g2 = inner_ur_apply(g1, x, y);
            let g3 = inner_dl_apply(g2, x, y);
            let g4 = inner_dr_apply(g3, x, y);
            let g5 = outer_ul_apply(g4, x, y);
            let g6 = outer_ur_apply(g5, x, y);
            let g7 = outer_dl_apply(g6, x, y);
            ||| inner_ul_matches(g, x, y)
            ||| inner_ur_matches(g1, x, y)
            ||| inner_dl_matches(g2, x, y)
            ||| inner_dr_matches(g3, x, y)
            ||| outer_ul_matches(g4, x, y)
            ||| outer_ur_matches(g5, x, y)
            ||| outer_dl_matches(g6, x, y)
            ||| outer_dr_matches(g7, x, y)
        },
        Pass::Sides => left_wall_matches(g, x, y) || right_wall_matches(
            left_wall_apply(g, x, y),
            x,
            y,
        ),
        Pass::Caps => bottom_wall_matches(g, x, y) || top_wall_matches(
            bottom_wall_apply(g, x, y),
            x,
            y,
        ),
        Pass::Facades => {
            let g1 = center_facades_apply(g, x, y);
            let g2 = left_facades_apply(g1, x, y);
            ||| center_facades_matches(g, x, y)
            ||| left_facades_matches(g1, x, y)
            ||| right_facades_matches(g2, x, y)
        },
    }
}

/// Some rule of `pass` fires at one of the first `rows` cells of column
/// `x`, each cell taken as the pass finds it.
pub open spec fn column_fires(pass: Pass, g: GridView, x: int, rows: int) -> bool
    decreases rows,
{
    rows > 0 && (column_fires(pass, g, x, rows - 1) || step_fires(
        pass,
        scan_column(pass, g, x, rows - 1),
        x,
        rows - 1,
    ))
}

/// Some rule of `pass` fires in one of the first `cols` columns.
pub open spec fn columns_fire(pass: Pass, g: GridView, cols: int) -> bool
    decreases cols,
{
    cols > 0 && (columns_fire(pass, g, cols - 1) || column_fires(
        pass,
        scan_columns(pass, g, cols - 1),
        cols - 1,
        g.height,
    ))
}

/// Some rule of `pass` fires somewhere in the course of the pass.
pub open spec fn scan_fires(pass: Pass, g: GridView) -> bool {
    columns_fire(pass, g, g.width)
}

/// A step keeps the grid's shape and well-formedness.
pub proof fn lemma_step_shape(pass: Pass, g: GridView, x: int, y: int)
    requires
        g.wf(),
    ensures
        step(pass, g, x, y).wf(),
        step(pass, g, x, y).same_shape(g),
{
    match pass {
        Pass::Cleanup => {
            lemma_cleanup_step(g, x, y);
        },
        Pass::Corners => {
            let g1 = inner_ul_apply(g, x, y);
            let g2 = inner_ur_apply(g1, x, y);
            let g3 = inner_dl_apply(g2, x, y);
            let g4 = inner_dr_apply(g3, x, y);
            let g5 = outer_ul_apply(g4, x, y);
            let g6 = outer_ur_apply(g5, x, y);
            let g7 = outer_dl_apply(g6, x, y);
            assert(g1.wf() && g1.same_shape(g));
            assert(g2.wf() && g2.same_shape(g));
            assert(g3.wf() && g3.same_shape(g));
            assert(g4.wf() && g4.same_shape(g));
            assert(g5.wf() && g5.same_shape(g));
            assert(g6.wf() && g6.same_shape(g));
            assert(g7.wf() && g7.same_shape(g));
        },
        Pass::Sides => {
            let g1 = left_wall_apply(g, x, y);
            assert(g1.wf() && g1.same_shape(g));
        },
        Pass::Caps => {
            let g1 = bottom_wall_apply(g, x, y);
            assert(g1.wf() && g1.same_shape(g));
        },
        Pass::Facades => {
            let g1 = center_facades_apply(g, x, y);
            let g2 = left_facades_apply(g1, x, y);
            assert(g1.wf() && g1.same_shape(g));
            assert(g2.wf() && g2.same_shape(g));
        },
    }
}

/// A column's worth of steps keeps the grid's shape and well-formedness.
pub proof fn lemma_scan_column_shape(pass: Pass, g: GridView, x: int, rows: int)
    requires
        g.wf(),
    ensures
        scan_column(pass, g, x, rows).wf(),
        scan_column(pass, g, x, rows).same_shape(g),
    decreases rows,
{
    if rows > 0 {
        lemma_scan_column_shape(pass, g, x, rows - 1);
        lemma_step_shape(pass, scan_column(pass, g, x, rows - 1), x, rows - 1);
    }
}

/// Any number of columns' worth of steps keeps the grid's shape and
/// well-formedness.
pub proof fn lemma_scan_columns_shape(pass: Pass, g: GridView, cols: int)
    requires
        g.wf(),
    ensures
        scan_columns(pass, g, cols).wf(),
        scan_columns(pass, g, cols).same_shape(g),
    decreases cols,
{
    if cols > 0 {
        lemma_scan_columns_shape(pass, g, cols - 1);
        lemma_scan_column_shape(pass, scan_columns(pass, g, cols - 1), cols - 1, g.height);
    }
}

/// A whole pass keeps the grid's shape and well-formedness.
pub proof fn lemma_scan_shape(pass: Pass, g: GridView)
    requires
        g.wf(),
    ensures
        scan(pass, g).wf(),
        scan(pass, g).same_shape(g),
{
    lemma_scan_columns_shape(pass, g, g.width);
}

impl MapGenerator {
    /// Tries the rules of `pass` at cell `(x, y)`, in their order. Reports
    /// whether any rule fired.
    pub fn rewrite_cell(&self, pass: Pass, x: u32, y: u32, layer: &mut TileGrid) -> (fired: bool)
        requires
            old(layer).wf(),
        ensures
            final(layer)@ == step(pass, old(layer)@, x as int, y as int),
            final(layer).wf(),
            final(layer)@.same_shape(old(layer)@),
            fired == step_fires(pass, old(layer)@, x as int, y as int),
            !fired ==> final(layer)@ == old(layer)@,
    {
        proof {
            lemma_step_shape(pass, layer@, x as int, y as int);
        }
        match pass {
            Pass::Cleanup => {
                let f1 = self.try_rewrite_thin_horizontal_wall(x, y, layer);
                let f2 = self.try_rewrite_thin_vertical_wall(x, y, layer);
                let f3 = self.try_rewrite_double_corner_horizontal(x, y, layer);
                let f4 = self.try_rewrite_double_corner_vertical(x, y, layer);
                f1 || f2 || f3 || f4
            },
            Pass::Corners => {
                let f1 = self.try_rewrite_inner_ul_wall(x, y, layer);
                let f2 = self.try_rewrite_inner_ur_wall(x, y, layer);
                let f3 = self.try_rewrite_inner_dl_wall(x, y, layer);
                let f4 = self.try_rewrite_inner_dr_wall(x, y, layer);
                let f5 = self.try_rewrite_outer_ul_wall(x, y, layer);
                let f6 = self.try_rewrite_outer_ur_wall(x, y, layer);
                let f7 = self.try_rewrite_outer_dl_wall(x, y, layer);
                let f8 = self.try_rewrite_outer_dr_wall(x, y, layer);
                f1 || f2 || f3 || f4 || f5 || f6 || f7 || f8
            },
            Pass::Sides => {
                let f1 = self.try_rewrite_left_wall(x, y, layer);
                let f2 = self.try_rewrite_right_wall(x, y, layer);
                f1 || f2
            },
            Pass::Caps => {
                let f1 = self.try_rewrite_bottom_wall(x, y, layer);
                let f2 = self.try_rewrite_top_wall(x, y, layer);
                f1 || f2
            },
            Pass::Facades => {
                let f1 = self.try_rewrite_center_facades(x, y, layer);
                let f2 = self.try_rewrite_left_facades(x, y, layer);
                let f3 = self.try_rewrite_right_facades(x, y, layer);
                f1 || f2 || f3
            },
        }
    }

    /// Runs `pass` once over the whole grid. Reports whether any rule fired.
    /// A cleanup pass in which a rule fired has taken ground away.
    pub fn scan_pass(&self, pass: Pass, layer: &mut TileGrid) -> (fired: bool)
        requires
            old(layer).wf(),
        ensures
            final(layer)@ == scan(pass, old(layer)@),
            final(layer).wf(),
            final(layer)@.same_shape(old(layer)@),
            fired == scan_fires(pass, old(layer)@),
            !fired ==> final(layer)@ == old(layer)@,
            pass == Pass::Cleanup ==> ground_count(final(layer)@.cells) <= ground_count(
                old(layer)@.cells,
            ),
            pass == Pass::Cleanup && fired ==> ground_count(final(layer)@.cells) < ground_count(
                old(layer)@.cells,
            ),
    {
        let ghost start = layer@;
        let mut fired = false;
        let mut x: u32 = 0;
        while x < layer.width
            invariant
                layer.wf(),
                layer@.same_shape(start),
                start.wf(),
                x <= layer.width,
                layer@ == scan_columns(pass, start, x as int),
                fired == columns_fire(pass, start, x as int),
                !fired ==> layer@ == start,
                pass == Pass::Cleanup ==> ground_count(layer@.cells) <= ground_count(start.cells),
                pass == Pass::Cleanup && fired ==> ground_count(layer@.cells) < ground_count(
                    start.cells,
                ),
            decreases layer.width - x,
        {
            let ghost top = layer@;
            let ghost fired_before = fired;
            let mut y: u32 = 0;
            while y < layer.height
                invariant
                    layer.wf(),
                    layer@.same_shape(start),
                    top.wf(),
                    x < layer.width,
                    y <= layer.height,
                    layer@ == scan_column(pass, top, x as int, y as int),
                    fired == (fired_before || column_fires(pass, top, x as int, y as int)),
                    !fired ==> layer@ == start,
                    !fired ==> top == start,
                    pass == Pass::Cleanup ==> ground_count(layer@.cells) <= ground_count(
                        start.cells,
                    ),
                    pass == Pass::Cleanup && fired ==> ground_count(layer@.cells) < ground_count(
                        start.cells,
                    ),
                decreases layer.height - y,
            {
                proof {
                    lemma_cleanup_step(layer@, x as int, y as int);
                }
                let f = self.rewrite_cell(pass, x, y, layer);
                fired = fired || f;
                y += 1;
            }
            x += 1;
        }
        fired
    }
}

} // verus!

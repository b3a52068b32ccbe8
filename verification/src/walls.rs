//! Wall detailing: the cleanup pass is repeated until it changes nothing,
//! then corners, edges and facades are laid on in one pass each.

use crate::cleanup::{
    cleanup_matches, cleanup_step, double_corner_horizontal_apply, ground_count, is_clean,
    lemma_cleanup_step, thin_horizontal_apply, thin_vertical_apply,
};
use crate::dressing::{detail_result, is_wall_cell, lemma_detail_coverage};
use crate::generator::MapGenerator;
use crate::grid::{group_grid, GridView, TileGrid};
use crate::scan::{
    lemma_scan_column_shape, lemma_scan_columns_shape, lemma_scan_shape, scan, scan_column,
    scan_columns, Pass,
};
use crate::tiles::{GROUND_01_TILE_ID, WALL_01_TILE_ID};
use vstd::prelude::*;

verus! {

broadcast use group_grid;

/// The cleanup pass over part of a column never adds ground, and it leaves
/// the grid as it is exactly when no rule matches at any cell it visits.
pub proof fn lemma_cleanup_column(g: GridView, x: int, rows: int)
    requires
        g.wf(),
    ensures
        ground_count(scan_column(Pass::Cleanup, g, x, rows).cells) <= ground_count(g.cells),
        scan_column(Pass::Cleanup, g, x, rows) != g ==> ground_count(
            scan_column(Pass::Cleanup, g, x, rows).cells,
        ) < ground_count(g.cells),
        scan_column(Pass::Cleanup, g, x, rows) == g <==> (forall|y: int|
            0 <= y < rows ==> !#[trigger] cleanup_matches(g, x, y)),
    decreases rows,
{
    if rows > 0 {
        let before = scan_column(Pass::Cleanup, g, x, rows - 1);
        lemma_cleanup_column(g, x, rows - 1);
        lemma_scan_column_shape(Pass::Cleanup, g, x, rows - 1);
        lemma_cleanup_step(before, x, rows - 1);
        if before == g {
            if !cleanup_matches(g, x, rows - 1) {
                assert forall|y: int| 0 <= y < rows implies !#[trigger] cleanup_matches(g, x, y) by {
                    if y < rows - 1 {
                    }
                }
            }
        } else {
            assert(!(forall|y: int| 0 <= y < rows - 1 ==> !#[trigger] cleanup_matches(g, x, y)));
        }
    }
}

/// The cleanup pass over the first columns never adds ground, and it
/// leaves the grid as it is exactly when no rule matches at any cell it
/// visits.
pub proof fn lemma_cleanup_columns(g: GridView, cols: int)
    requires
        g.wf(),
    ensures
        ground_count(scan_columns(Pass::Cleanup, g, cols).cells) <= ground_count(g.cells),
        scan_columns(Pass::Cleanup, g, cols) != g ==> ground_count(
            scan_columns(Pass::Cleanup, g, cols).cells,
        ) < ground_count(g.cells),
        scan_columns(Pass::Cleanup, g, cols) == g <==> (forall|x: int, y: int|
            0 <= x < cols && 0 <= y < g.height ==> !#[trigger] cleanup_matches(g, x, y)),
    decreases cols,
{
    if cols > 0 {
        let before = scan_columns(Pass::Cleanup, g, cols - 1);
        lemma_cleanup_columns(g, cols - 1);
        lemma_scan_columns_shape(Pass::Cleanup, g, cols - 1);
        lemma_cleanup_column(before, cols - 1, g.height);
        let after = scan_column(Pass::Cleanup, before, cols - 1, g.height);
        if before == g {
            if after == g {
                assert forall|x: int, y: int| 0 <= x < cols && 0 <= y < g.height implies !#[trigger] cleanup_matches(
                    g,
                    x,
                    y,
                ) by {
                    if x < cols - 1 {
                    }
                }
            } else {
                let y = choose|y: int| 0 <= y < g.height && #[trigger] cleanup_matches(g, cols - 1, y);
                assert(cleanup_matches(g, cols - 1, y));
            }
        } else {
            let (x, y) = choose|x: int, y: int|
                0 <= x < cols - 1 && 0 <= y < g.height && #[trigger] cleanup_matches(g, x, y);
            assert(cleanup_matches(g, x, y));
        }
    }
}

/// A cleanup pass changes nothing exactly on the grids in which no cleanup
/// rule matches anywhere; on every other grid it takes ground away.
pub proof fn lemma_stable_iff_clean(g: GridView)
    requires
        g.wf(),
    ensures
        scan(Pass::Cleanup, g) == g <==> is_clean(g),
        scan(Pass::Cleanup, g) != g ==> ground_count(scan(Pass::Cleanup, g).cells) < ground_count(
            g.cells,
        ),
{
    lemma_cleanup_columns(g, g.width);
    if scan(Pass::Cleanup, g) == g {
        assert forall|x: int, y: int| !#[trigger] cleanup_matches(g, x, y) by {
            if 0 <= x < g.width && 0 <= y < g.height {
            }
        }
    }
}

/// The grid that repeated cleanup passes arrive at: the first one, in the
/// row of grids that each pass makes of the one before, that a further
/// pass leaves as it is.
pub open spec fn cleanup_fixpoint(g: GridView) -> GridView
    decreases ground_count(g.cells),
    when g.wf()
    via cleanup_fixpoint_decreases
{
    if scan(Pass::Cleanup, g) == g {
        g
    } else {
        cleanup_fixpoint(scan(Pass::Cleanup, g))
    }
}

#[via_fn]
proof fn cleanup_fixpoint_decreases(g: GridView) {
    lemma_stable_iff_clean(g);
    lemma_scan_shape(Pass::Cleanup, g);
}

/// The fixed point has the grid's shape, holds no more ground than the
/// grid, and no cleanup rule matches anywhere in it.
pub proof fn lemma_cleanup_fixpoint(g: GridView)
    requires
        g.wf(),
    ensures
        cleanup_fixpoint(g).wf(),
        cleanup_fixpoint(g).same_shape(g),
        is_clean(cleanup_fixpoint(g)),
        scan(Pass::Cleanup, cleanup_fixpoint(g)) == cleanup_fixpoint(g),
        ground_count(cleanup_fixpoint(g).cells) <= ground_count(g.cells),
        is_clean(g) ==> cleanup_fixpoint(g) == g,
    decreases ground_count(g.cells),
{
    lemma_stable_iff_clean(g);
    lemma_scan_shape(Pass::Cleanup, g);
    if scan(Pass::Cleanup, g) != g {
        lemma_cleanup_fixpoint(scan(Pass::Cleanup, g));
    }
}

/// Cleaning up twice is cleaning up once: on a grid that the cleanup has
/// brought to its fixed point, one more pass rewrites nothing, and so does
/// a whole second cleanup.
pub proof fn lemma_cleanup_idempotent(g: GridView)
    requires
        g.wf(),
    ensures
        scan(Pass::Cleanup, cleanup_fixpoint(g)) == cleanup_fixpoint(g),
        cleanup_fixpoint(cleanup_fixpoint(g)) == cleanup_fixpoint(g),
        forall|x: int, y: int| !#[trigger] cleanup_matches(cleanup_fixpoint(g), x, y),
{
    lemma_cleanup_fixpoint(g);
    lemma_cleanup_fixpoint(cleanup_fixpoint(g));
}

/// How one cell may differ before and after cleanup: not at all, or it was
/// plain ground and is plain wall.
pub open spec fn cell_walled(u: Option<u32>, v: Option<u32>) -> bool {
    v == u || (u == Some(GROUND_01_TILE_ID) && v == Some(WALL_01_TILE_ID))
}

/// Grid `h` has the shape of `g`, and each of its cells differs from the
/// cell of `g` only as [`cell_walled`] allows.
pub open spec fn walled(g: GridView, h: GridView) -> bool {
    &&& g.wf()
    &&& h.wf()
    &&& h.same_shape(g)
    &&& forall|a: int, b: int| g.in_bounds(a, b) ==> cell_walled(g.at(a, b), #[trigger] h.at(a, b))
}

/// What cleanup may do to a grid it may do in two goes.
pub proof fn lemma_walled_trans(g: GridView, h: GridView, r: GridView)
    requires
        walled(g, h),
        walled(h, r),
    ensures
        walled(g, r),
{
    assert forall|a: int, b: int| g.in_bounds(a, b) implies cell_walled(
        g.at(a, b),
        #[trigger] r.at(a, b),
    ) by {
        assert(cell_walled(g.at(a, b), h.at(a, b)));
        assert(cell_walled(h.at(a, b), r.at(a, b)));
    }
}

/// The cleanup rules at one cell only turn plain ground into plain wall.
pub proof fn lemma_cleanup_step_walled(g: GridView, x: int, y: int)
    requires
        g.wf(),
    ensures
        walled(g, cleanup_step(g, x, y)),
{
    let g1 = thin_horizontal_apply(g, x, y);
    let g2 = thin_vertical_apply(g1, x, y);
    let g3 = double_corner_horizontal_apply(g2, x, y);
    let g4 = cleanup_step(g, x, y);
    assert(walled(g, g1));
    assert(walled(g1, g2));
    assert(walled(g2, g3)) by {
        let w = Some(WALL_01_TILE_ID);
        let a1 = g2.put(x, y, w);
        let a2 = a1.put(x + 1, y, w);
        let a3 = a2.put(x + 2, y, w);
        let a4 = a3.put(x, y + 1, w);
        let a5 = a4.put(x + 1, y + 1, w);
        assert forall|a: int, b: int| g2.in_bounds(a, b) implies cell_walled(
            g2.at(a, b),
            #[trigger] g3.at(a, b),
        ) by {
            if g3 != g2 {
                assert(a5.put(x + 2, y + 1, w).at(a, b) == if a == x + 2 && b == y + 1 {
                    w
                } else {
                    a5.at(a, b)
                });
                assert(a5.at(a, b) == if a == x + 1 && b == y + 1 { w } else { a4.at(a, b) });
                assert(a4.at(a, b) == if a == x && b == y + 1 { w } else { a3.at(a, b) });
                assert(a3.at(a, b) == if a == x + 2 && b == y { w } else { a2.at(a, b) });
                assert(a2.at(a, b) == if a == x + 1 && b == y { w } else { a1.at(a, b) });
                assert(a1.at(a, b) == if a == x && b == y { w } else { g2.at(a, b) });
            }
        }
    }
    assert(walled(g3, g4)) by {
        let w = Some(WALL_01_TILE_ID);
        let a1 = g3.put(x, y, w);
        let a2 = a1.put(x, y + 1, w);
        let a3 = a2.put(x, y + 2, w);
        let a4 = a3.put(x + 1, y, w);
        let a5 = a4.put(x + 1, y + 1, w);
        assert forall|a: int, b: int| g3.in_bounds(a, b) implies cell_walled(
            g3.at(a, b),
            #[trigger] g4.at(a, b),
        ) by {
            if g4 != g3 {
                assert(a5.put(x + 1, y + 2, w).at(a, b) == if a == x + 1 && b == y + 2 {
                    w
                } else {
                    a5.at(a, b)
                });
                assert(a5.at(a, b) == if a == x + 1 && b == y + 1 { w } else { a4.at(a, b) });
                assert(a4.at(a, b) == if a == x + 1 && b == y { w } else { a3.at(a, b) });
                assert(a3.at(a, b) == if a == x && b == y + 2 { w } else { a2.at(a, b) });
                assert(a2.at(a, b) == if a == x && b == y + 1 { w } else { a1.at(a, b) });
                assert(a1.at(a, b) == if a == x && b == y { w } else { g3.at(a, b) });
            }
        }
    }
    lemma_walled_trans(g, g1, g2);
    lemma_walled_trans(g, g2, g3);
    lemma_walled_trans(g, g3, g4);
}

/// Part of a column's worth of cleanup only turns plain ground into plain
/// wall.
pub proof fn lemma_cleanup_column_walled(g: GridView, x: int, rows: int)
    requires
        g.wf(),
    ensures
        walled(g, scan_column(Pass::Cleanup, g, x, rows)),
    decreases rows,
{
    if rows > 0 {
        lemma_cleanup_column_walled(g, x, rows - 1);
        lemma_cleanup_step_walled(scan_column(Pass::Cleanup, g, x, rows - 1), x, rows - 1);
        lemma_walled_trans(
            g,
            scan_column(Pass::Cleanup, g, x, rows - 1),
            scan_column(Pass::Cleanup, g, x, rows),
        );
    }
}

/// The first columns' worth of cleanup only turns plain ground into plain
/// wall.
pub proof fn lemma_cleanup_columns_walled(g: GridView, cols: int)
    requires
        g.wf(),
    ensures
        walled(g, scan_columns(Pass::Cleanup, g, cols)),
    decreases cols,
{
    if cols > 0 {
        lemma_cleanup_columns_walled(g, cols - 1);
        lemma_cleanup_column_walled(scan_columns(Pass::Cleanup, g, cols - 1), cols - 1, g.height);
        lemma_walled_trans(
            g,
            scan_columns(Pass::Cleanup, g, cols - 1),
            scan_columns(Pass::Cleanup, g, cols),
        );
    }
}

/// The whole cleanup only turns plain ground into plain wall.
pub proof fn lemma_cleanup_fixpoint_walled(g: GridView)
    requires
        g.wf(),
    ensures
        walled(g, cleanup_fixpoint(g)),
    decreases ground_count(g.cells),
{
    lemma_stable_iff_clean(g);
    lemma_scan_shape(Pass::Cleanup, g);
    if scan(Pass::Cleanup, g) != g {
        lemma_cleanup_columns_walled(g, g.width);
        lemma_cleanup_fixpoint_walled(scan(Pass::Cleanup, g));
        lemma_walled_trans(g, scan(Pass::Cleanup, g), cleanup_fixpoint(g));
    }
}

/// The grid after the whole wall detailing: cleanup to its fixed point,
/// then the four detail passes.
pub open spec fn wall_details_result(g: GridView) -> GridView {
    detail_result(cleanup_fixpoint(g))
}

/// Wall detailing empties no cell, fills none, and leaves wall as wall.
pub open spec fn detailing_holds(g: GridView, h: GridView) -> bool {
    &&& h.wf()
    &&& h.same_shape(g)
    &&& forall|a: int, b: int|
        g.in_bounds(a, b) ==> {
            &&& (g.at(a, b) is Some <==> (#[trigger] h.at(a, b)) is Some)
            &&& (is_wall_cell(g.at(a, b)) ==> is_wall_cell(h.at(a, b)))
        }
}

/// Wall detailing keeps the grid's shape, empties no cell, fills none, and
/// leaves wall as wall; so a full grid stays full and a wall border stays a
/// wall border.
pub proof fn lemma_wall_details_hold(g: GridView)
    requires
        g.wf(),
    ensures
        detailing_holds(g, wall_details_result(g)),
        g.full() ==> wall_details_result(g).full(),
        g.border_is_wall() ==> wall_details_result(g).border_is_wall(),
{
    let f = cleanup_fixpoint(g);
    let r = wall_details_result(g);
    lemma_cleanup_fixpoint(g);
    lemma_cleanup_fixpoint_walled(g);
    lemma_detail_coverage(f);
    assert forall|a: int, b: int| g.in_bounds(a, b) implies {
        &&& (g.at(a, b) is Some <==> (#[trigger] r.at(a, b)) is Some)
        &&& (is_wall_cell(g.at(a, b)) ==> is_wall_cell(r.at(a, b)))
    } by {
        assert(cell_walled(g.at(a, b), f.at(a, b)));
        assert(crate::dressing::cell_kept(f.at(a, b), r.at(a, b), false));
    }
    if g.full() {
        assert forall|x: int, y: int| r.in_bounds(x, y) implies (#[trigger] r.at(x, y)) is Some by {
            assert(g.at(x, y) is Some);
        }
    }
    if g.border_is_wall() {
        assert forall|x: int, y: int| r.on_border(x, y) implies #[trigger] r.holds_wall(x, y) by {
            assert(g.holds_wall(x, y));
            assert(is_wall_cell(r.at(x, y)));
        }
    }
}

impl MapGenerator {
    /// Repeats the cleanup pass until a pass rewrites nothing. Reports
    /// whether anything was rewritten at all.
    pub fn rewrite_undetailed_walls(&self, layer: &mut TileGrid) -> (changed: bool)
        requires
            old(layer).wf(),
        ensures
            final(layer)@ == cleanup_fixpoint(old(layer)@),
            final(layer).wf(),
            final(layer)@.same_shape(old(layer)@),
            is_clean(final(layer)@),
            changed == !is_clean(old(layer)@),
            changed == (final(layer)@ != old(layer)@),
    {
        let ghost start = layer@;
        let mut changed = false;
        let mut needs_scan = true;
        while needs_scan
            invariant
                layer.wf(),
                start.wf(),
                layer@.same_shape(start),
                cleanup_fixpoint(layer@) == cleanup_fixpoint(start),
                !needs_scan ==> scan(Pass::Cleanup, layer@) == layer@,
                changed ==> ground_count(layer@.cells) < ground_count(start.cells),
                !changed ==> layer@ == start,
            decreases ground_count(layer@.cells) + (if needs_scan { 1nat } else { 0nat }),
        {
            proof {
                lemma_stable_iff_clean(layer@);
            }
            needs_scan = self.scan_pass(Pass::Cleanup, layer);
            if needs_scan {
                changed = true;
            }
        }
        proof {
            lemma_stable_iff_clean(layer@);
            lemma_stable_iff_clean(start);
            lemma_cleanup_fixpoint(start);
        }
        changed
    }

    /// Dresses the walls: folds shapes that have no detail tile back into
    /// plain wall until none is left, then lays on corners, left and right
    /// edges, bottom and top edges, and facades, one pass each.
    pub fn rewrite_wall_details(&self, layer: &mut TileGrid)
        requires
            old(layer).wf(),
        ensures
            final(layer)@ == wall_details_result(old(layer)@),
            final(layer).wf(),
            detailing_holds(old(layer)@, final(layer)@),
            old(layer)@.full() ==> final(layer)@.full(),
            old(layer)@.border_is_wall() ==> final(layer)@.border_is_wall(),
    {
        proof {
            lemma_wall_details_hold(layer@);
        }
        self.rewrite_undetailed_walls(layer);
        self.scan_pass(Pass::Corners, layer);
        self.scan_pass(Pass::Sides, layer);
        self.scan_pass(Pass::Caps, layer);
        self.scan_pass(Pass::Facades, layer);
    }
}

} // verus!

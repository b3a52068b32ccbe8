//! What the detail passes keep and what they reach: no pass empties a
//! cell, turns wall into something else or a dressed wall back into plain
//! wall, and every wall cell that a corner or edge pattern singles out ends
//! up dressed.

use crate::detail::{
    bottom_wall_apply, bottom_wall_matches, center_facades_apply, inner_dl_apply,
    inner_dl_matches, inner_dr_apply, inner_dr_matches, inner_ul_apply, inner_ul_matches,
    inner_ur_apply, inner_ur_matches, left_facades_apply, left_wall_apply, left_wall_matches,
    outer_dl_apply, outer_dl_matches, outer_dr_apply, outer_dr_matches, outer_ul_apply,
    outer_ul_matches, outer_ur_apply, outer_ur_matches, pair_apply, pair_fits, quad_apply,
    quad_fits, right_wall_matches, top_wall_matches,
};
use crate::grid::{group_grid, GridView};
use crate::scan::{scan, scan_column, scan_columns, step, Pass};
use crate::tiles::{is_wall_class, GROUND_01_TILE_ID, WALL_01_TILE_ID};
use vstd::prelude::*;

verus! {

broadcast use group_grid;

/// The cell holds a wall-class tile.
pub open spec fn is_wall_cell(v: Option<u32>) -> bool {
    v is Some && is_wall_class(v.unwrap())
}

/// The cell holds a wall-class tile other than the plain wall.
pub open spec fn is_dressed(v: Option<u32>) -> bool {
    is_wall_cell(v) && v != Some(WALL_01_TILE_ID)
}

/// How one cell may differ before and after detail rules ran: it is empty
/// after exactly if it was before, wall after exactly if it was before, and
/// not plain wall after unless it was before. With `keep_ground` it is also
/// plain ground after exactly if it was before.
pub open spec fn cell_kept(u: Option<u32>, v: Option<u32>, keep_ground: bool) -> bool {
    &&& (u is Some <==> v is Some)
    &&& (is_wall_cell(u) <==> is_wall_cell(v))
    &&& (u != Some(WALL_01_TILE_ID) ==> v != Some(WALL_01_TILE_ID))
    &&& (keep_ground ==> (u == Some(GROUND_01_TILE_ID) <==> v == Some(GROUND_01_TILE_ID)))
}

/// Grid `h` has the shape of `g`, and each of its cells differs from the
/// cell of `g` only as [`cell_kept`] allows.
pub open spec fn kept(g: GridView, h: GridView, keep_ground: bool) -> bool {
    &&& g.wf()
    &&& h.wf()
    &&& h.same_shape(g)
    &&& forall|a: int, b: int|
        g.in_bounds(a, b) ==> cell_kept(g.at(a, b), #[trigger] h.at(a, b), keep_ground)
}

/// A grid keeps its own cells' kinds.
pub proof fn lemma_kept_refl(g: GridView, keep_ground: bool)
    requires
        g.wf(),
    ensures
        kept(g, g, keep_ground),
{
}

/// Kinds kept from `g` to `h` and from `h` to `r` are kept from `g` to `r`.
pub proof fn lemma_kept_trans(g: GridView, h: GridView, r: GridView, keep_ground: bool)
    requires
        kept(g, h, keep_ground),
        kept(h, r, keep_ground),
    ensures
        kept(g, r, keep_ground),
{
    assert forall|a: int, b: int| g.in_bounds(a, b) implies cell_kept(
        g.at(a, b),
        #[trigger] r.at(a, b),
        keep_ground,
    ) by {
        assert(cell_kept(g.at(a, b), h.at(a, b), keep_ground));
        assert(cell_kept(h.at(a, b), r.at(a, b), keep_ground));
    }
}

/// Where ground is kept along with the other kinds, the other kinds are
/// kept.
pub proof fn lemma_kept_weaken(g: GridView, h: GridView)
    requires
        kept(g, h, true),
    ensures
        kept(g, h, false),
{
    assert forall|a: int, b: int| g.in_bounds(a, b) implies cell_kept(
        g.at(a, b),
        #[trigger] h.at(a, b),
        false,
    ) by {
        assert(cell_kept(g.at(a, b), h.at(a, b), true));
    }
}

/// Whether a block of four fits depends only on which cells are wall and
/// which are plain ground.
pub proof fn lemma_quad_fits_kept(
    g: GridView,
    h: GridView,
    x: int,
    y: int,
    ul: bool,
    ur: bool,
    ll: bool,
    lr: bool,
)
    requires
        kept(g, h, true),
    ensures
        quad_fits(g, x, y, ul, ur, ll, lr) == quad_fits(h, x, y, ul, ur, ll, lr),
{
    if g.in_bounds(x, y) && g.in_bounds(x + 1, y + 1) {
        assert(cell_kept(g.at(x, y), h.at(x, y), true));
        assert(cell_kept(g.at(x + 1, y), h.at(x + 1, y), true));
        assert(cell_kept(g.at(x, y + 1), h.at(x, y + 1), true));
        assert(cell_kept(g.at(x + 1, y + 1), h.at(x + 1, y + 1), true));
    }
}

/// The cell that the rule on a block of four writes is one that the block
/// demands to be wall.
pub open spec fn quad_target_is_wall(ul: bool, ur: bool, ll: bool, lr: bool, dx: int, dy: int)
    -> bool {
    ||| dx == 0 && dy == 0 && ul
    ||| dx == 1 && dy == 0 && ur
    ||| dx == 0 && dy == 1 && ll
    ||| dx == 1 && dy == 1 && lr
}

/// A rule that dresses a wall cell of a block of four keeps every cell's
/// kind, and where the block fitted before any detail was laid on, the
/// cell is dressed afterwards.
pub proof fn lemma_quad_apply(
    g: GridView,
    h: GridView,
    x: int,
    y: int,
    ul: bool,
    ur: bool,
    ll: bool,
    lr: bool,
    dx: int,
    dy: int,
    tile: u32,
)
    requires
        kept(g, h, true),
        quad_target_is_wall(ul, ur, ll, lr, dx, dy),
        is_wall_class(tile),
        tile != WALL_01_TILE_ID,
    ensures
        kept(h, quad_apply(h, x, y, ul, ur, ll, lr, dx, dy, tile), true),
        kept(g, quad_apply(h, x, y, ul, ur, ll, lr, dx, dy, tile), true),
        quad_fits(g, x, y, ul, ur, ll, lr) ==> is_dressed(
            quad_apply(h, x, y, ul, ur, ll, lr, dx, dy, tile).at(x + dx, y + dy),
        ),
{
    let r = quad_apply(h, x, y, ul, ur, ll, lr, dx, dy, tile);
    lemma_quad_fits_kept(g, h, x, y, ul, ur, ll, lr);
    assert forall|a: int, b: int| h.in_bounds(a, b) implies cell_kept(
        h.at(a, b),
        #[trigger] r.at(a, b),
        true,
    ) by {}
    lemma_kept_trans(g, h, r, true);
}

/// A rule that dresses the plain wall cell of a pair keeps every cell's
/// kind, and where the pair fitted before any detail was laid on, the wall
/// cell is dressed afterwards.
pub proof fn lemma_pair_apply_wall(
    g: GridView,
    h: GridView,
    x: int,
    y: int,
    dx: int,
    dy: int,
    first: u32,
    second: u32,
    on_second: bool,
    tile: u32,
)
    requires
        kept(g, h, true),
        0 <= dx <= 1,
        0 <= dy <= 1,
        dx + dy == 1,
        on_second ==> second == WALL_01_TILE_ID && first == GROUND_01_TILE_ID,
        !on_second ==> first == WALL_01_TILE_ID && second == GROUND_01_TILE_ID,
        is_wall_class(tile),
        tile != WALL_01_TILE_ID,
    ensures
        kept(h, pair_apply(h, x, y, dx, dy, first, second, on_second, tile), true),
        kept(g, pair_apply(h, x, y, dx, dy, first, second, on_second, tile), true),
        pair_fits(g, x, y, dx, dy, first, second) ==> is_dressed(
            pair_apply(h, x, y, dx, dy, first, second, on_second, tile).at(
                if on_second {
                    x + dx
                } else {
                    x
                },
                if on_second {
                    y + dy
                } else {
                    y
                },
            ),
        ),
{
    let r = pair_apply(h, x, y, dx, dy, first, second, on_second, tile);
    assert forall|a: int, b: int| h.in_bounds(a, b) implies cell_kept(
        h.at(a, b),
        #[trigger] r.at(a, b),
        true,
    ) by {}
    lemma_kept_trans(g, h, r, true);
    if pair_fits(g, x, y, dx, dy, first, second) {
        assert(cell_kept(g.at(x, y), h.at(x, y), true));
        assert(cell_kept(g.at(x + dx, y + dy), h.at(x + dx, y + dy), true));
    }
}

/// A rule that turns the ground cell beneath a wall tile into a facade
/// keeps every cell's kind but that of the ground it covers.
pub proof fn lemma_pair_apply_facade(
    h: GridView,
    x: int,
    y: int,
    first: u32,
    tile: u32,
)
    requires
        h.wf(),
        !is_wall_class(tile),
        tile != WALL_01_TILE_ID,
    ensures
        kept(h, pair_apply(h, x, y, 0, 1, first, GROUND_01_TILE_ID, true, tile), false),
{
    let r = pair_apply(h, x, y, 0, 1, first, GROUND_01_TILE_ID, true, tile);
    assert forall|a: int, b: int| h.in_bounds(a, b) implies cell_kept(
        h.at(a, b),
        #[trigger] r.at(a, b),
        false,
    ) by {}
}

/// Cell `(a, b)` is the wall cell that a corner pattern fitting at
/// `(x, y)` singles out.
pub open spec fn corner_target(g: GridView, x: int, y: int, a: int, b: int) -> bool {
    ||| inner_ul_matches(g, x, y) && a == x && b == y
    ||| inner_ur_matches(g, x, y) && a == x + 1 && b == y
    ||| inner_dl_matches(g, x, y) && a == x && b == y + 1
    ||| inner_dr_matches(g, x, y) && a == x + 1 && b == y + 1
    ||| outer_ul_matches(g, x, y) && a == x + 1 && b == y + 1
    ||| outer_ur_matches(g, x, y) && a == x && b == y + 1
    ||| outer_dl_matches(g, x, y) && a == x + 1 && b == y
    ||| outer_dr_matches(g, x, y) && a == x && b == y
}

/// Cell `(a, b)` is the plain wall cell that a left-edge or right-edge
/// pattern fitting at `(x, y)` singles out.
pub open spec fn side_target(g: GridView, x: int, y: int, a: int, b: int) -> bool {
    ||| left_wall_matches(g, x, y) && a == x && b == y
    ||| right_wall_matches(g, x, y) && a == x + 1 && b == y
}

/// Cell `(a, b)` is the plain wall cell that a bottom-edge or top-edge
/// pattern fitting at `(x, y)` singles out.
pub open spec fn cap_target(g: GridView, x: int, y: int, a: int, b: int) -> bool {
    ||| bottom_wall_matches(g, x, y) && a == x && b == y + 1
    ||| top_wall_matches(g, x, y) && a == x && b == y
}

/// Cell `(a, b)` is the cell that a pattern of `pass`, fitting at
/// `(x, y)`, singles out for dressing. The cleanup and the facade pass
/// dress no wall.
pub open spec fn target(pass: Pass, g: GridView, x: int, y: int, a: int, b: int) -> bool {
    match pass {
        Pass::Corners => corner_target(g, x, y, a, b),
        Pass::Sides => side_target(g, x, y, a, b),
        Pass::Caps => cap_target(g, x, y, a, b),
        _ => false,
    }
}

/// The facade pass alone turns ground into something else.
pub open spec fn keeps_ground(pass: Pass) -> bool {
    pass != Pass::Facades
}

/// One step of a detail pass keeps every cell's kind, and dresses the
/// cells that its patterns, fitting at this cell in the grid `g` from
/// before any detail was laid on, single out.
pub proof fn lemma_step_dresses(pass: Pass, g: GridView, h: GridView, x: int, y: int)
    requires
        pass != Pass::Cleanup,
        kept(g, h, keeps_ground(pass)),
    ensures
        kept(h, step(pass, h, x, y), keeps_ground(pass)),
        kept(g, step(pass, h, x, y), keeps_ground(pass)),
        forall|a: int, b: int| #[trigger]
            target(pass, g, x, y, a, b) ==> is_dressed(step(pass, h, x, y).at(a, b)),
{
    match pass {
        Pass::Cleanup => {},
        Pass::Corners => {
            let h1 = inner_ul_apply(h, x, y);
            let h2 = inner_ur_apply(h1, x, y);
            let h3 = inner_dl_apply(h2, x, y);
            let h4 = inner_dr_apply(h3, x, y);
            let h5 = outer_ul_apply(h4, x, y);
            let h6 = outer_ur_apply(h5, x, y);
            let h7 = outer_dl_apply(h6, x, y);
            let h8 = outer_dr_apply(h7, x, y);
            lemma_quad_apply(g, h, x, y, true, true, true, false, 0, 0, crate::tiles::WALL_INNER_UL_ID);
            lemma_quad_apply(g, h1, x, y, true, true, false, true, 1, 0, crate::tiles::WALL_INNER_UR_ID);
            lemma_quad_apply(g, h2, x, y, true, false, true, true, 0, 1, crate::tiles::WALL_INNER_DL_ID);
            lemma_quad_apply(g, h3, x, y, false, true, true, true, 1, 1, crate::tiles::WALL_INNER_DR_ID);
            lemma_quad_apply(g, h4, x, y, false, false, false, true, 1, 1, crate::tiles::WALL_OUTER_UL_ID);
            lemma_quad_apply(g, h5, x, y, false, false, true, false, 0, 1, crate::tiles::WALL_OUTER_UR_ID);
            lemma_quad_apply(g, h6, x, y, false, true, false, false, 1, 0, crate::tiles::WALL_OUTER_DL_ID);
            lemma_quad_apply(g, h7, x, y, true, false, false, false, 0, 0, crate::tiles::WALL_OUTER_DR_ID);
            lemma_kept_trans(h, h1, h2, true);
            lemma_kept_trans(h, h2, h3, true);
            lemma_kept_trans(h, h3, h4, true);
            lemma_kept_trans(h, h4, h5, true);
            lemma_kept_trans(h, h5, h6, true);
            lemma_kept_trans(h, h6, h7, true);
            lemma_kept_trans(h, h7, h8, true);
            lemma_kept_trans(h6, h7, h8, true);
            lemma_kept_trans(h5, h6, h8, true);
            lemma_kept_trans(h4, h5, h8, true);
            lemma_kept_trans(h3, h4, h8, true);
            lemma_kept_trans(h2, h3, h8, true);
            lemma_kept_trans(h1, h2, h8, true);
            assert forall|a: int, b: int| #[trigger]
                target(pass, g, x, y, a, b) implies is_dressed(h8.at(a, b)) by {
                assert(g.in_bounds(a, b));
                assert(cell_kept(h1.at(a, b), h8.at(a, b), true));
                assert(cell_kept(h2.at(a, b), h8.at(a, b), true));
                assert(cell_kept(h3.at(a, b), h8.at(a, b), true));
                assert(cell_kept(h4.at(a, b), h8.at(a, b), true));
                assert(cell_kept(h5.at(a, b), h8.at(a, b), true));
                assert(cell_kept(h6.at(a, b), h8.at(a, b), true));
                assert(cell_kept(h7.at(a, b), h8.at(a, b), true));
            }
        },
        Pass::Sides => {
            let h1 = left_wall_apply(h, x, y);
            let h2 = crate::detail::right_wall_apply(h1, x, y);
            lemma_pair_apply_wall(
                g,
                h,
                x,
                y,
                1,
                0,
                WALL_01_TILE_ID,
                GROUND_01_TILE_ID,
                false,
                crate::tiles::WALL_LEFT_TILE_ID,
            );
            lemma_pair_apply_wall(
                g,
                h1,
                x,
                y,
                1,
                0,
                GROUND_01_TILE_ID,
                WALL_01_TILE_ID,
                true,
                crate::tiles::WALL_RIGHT_TILE_ID,
            );
            lemma_kept_trans(h, h1, h2, true);
            assert forall|a: int, b: int| #[trigger]
                target(pass, g, x, y, a, b) implies is_dressed(h2.at(a, b)) by {
                assert(g.in_bounds(a, b));
                assert(cell_kept(h1.at(a, b), h2.at(a, b), true));
            }
        },
        Pass::Caps => {
            let h1 = bottom_wall_apply(h, x, y);
            let h2 = crate::detail::top_wall_apply(h1, x, y);
            lemma_pair_apply_wall(
                g,
                h,
                x,
                y,
                0,
                1,
                GROUND_01_TILE_ID,
                WALL_01_TILE_ID,
                true,
                crate::tiles::WALL_DOWN_TILE_ID,
            );
            lemma_pair_apply_wall(
                g,
                h1,
                x,
                y,
                0,
                1,
                WALL_01_TILE_ID,
                GROUND_01_TILE_ID,
                false,
                crate::tiles::WALL_UP_TILE_ID,
            );
            lemma_kept_trans(h, h1, h2, true);
            assert forall|a: int, b: int| #[trigger]
                target(pass, g, x, y, a, b) implies is_dressed(h2.at(a, b)) by {
                assert(g.in_bounds(a, b));
                assert(cell_kept(h1.at(a, b), h2.at(a, b), true));
            }
        },
        Pass::Facades => {
            let h1 = center_facades_apply(h, x, y);
            let h2 = left_facades_apply(h1, x, y);
            let h3 = crate::detail::right_facades_apply(h2, x, y);
            lemma_pair_apply_facade(
                h,
                x,
                y,
                crate::tiles::WALL_UP_TILE_ID,
                crate::tiles::FACADE_CENTER_TILE_ID,
            );
            lemma_pair_apply_facade(
                h1,
                x,
                y,
                crate::tiles::WALL_OUTER_DL_ID,
                crate::tiles::FACADE_LEFT_TILE_ID,
            );
            lemma_pair_apply_facade(
                h2,
                x,
                y,
                crate::tiles::WALL_OUTER_DR_ID,
                crate::tiles::FACADE_RIGHT_TILE_ID,
            );
            lemma_kept_trans(h, h1, h2, false);
            lemma_kept_trans(h, h2, h3, false);
            lemma_kept_trans(g, h, h3, false);
        },
    }
}

/// Part of a column's worth of steps of a detail pass keeps every cell's
/// kind and dresses what the patterns at the visited cells single out.
pub proof fn lemma_column_dresses(pass: Pass, g: GridView, h: GridView, x: int, rows: int)
    requires
        pass != Pass::Cleanup,
        kept(g, h, keeps_ground(pass)),
    ensures
        kept(h, scan_column(pass, h, x, rows), keeps_ground(pass)),
        kept(g, scan_column(pass, h, x, rows), keeps_ground(pass)),
        forall|y: int, a: int, b: int|
            0 <= y < rows && #[trigger] target(pass, g, x, y, a, b) ==> is_dressed(
                scan_column(pass, h, x, rows).at(a, b),
            ),
    decreases rows,
{
    let k = keeps_ground(pass);
    if rows > 0 {
        let before = scan_column(pass, h, x, rows - 1);
        let after = scan_column(pass, h, x, rows);
        lemma_column_dresses(pass, g, h, x, rows - 1);
        lemma_step_dresses(pass, g, before, x, rows - 1);
        lemma_kept_trans(h, before, after, k);
        assert forall|y: int, a: int, b: int|
            0 <= y < rows && #[trigger] target(pass, g, x, y, a, b) implies is_dressed(
            after.at(a, b),
        ) by {
            assert(g.in_bounds(a, b));
            if y < rows - 1 {
                assert(is_dressed(before.at(a, b)));
                assert(cell_kept(before.at(a, b), after.at(a, b), k));
            }
        }
    } else {
        lemma_kept_refl(h, k);
    }
}

/// The first columns' worth of steps of a detail pass keeps every cell's
/// kind and dresses what the patterns at the visited cells single out.
pub proof fn lemma_columns_dresses(pass: Pass, g: GridView, h: GridView, cols: int)
    requires
        pass != Pass::Cleanup,
        kept(g, h, keeps_ground(pass)),
    ensures
        kept(h, scan_columns(pass, h, cols), keeps_ground(pass)),
        kept(g, scan_columns(pass, h, cols), keeps_ground(pass)),
        forall|x: int, y: int, a: int, b: int|
            0 <= x < cols && 0 <= y < h.height && #[trigger] target(pass, g, x, y, a, b)
                ==> is_dressed(scan_columns(pass, h, cols).at(a, b)),
    decreases cols,
{
    let k = keeps_ground(pass);
    if cols > 0 {
        let before = scan_columns(pass, h, cols - 1);
        let after = scan_columns(pass, h, cols);
        lemma_columns_dresses(pass, g, h, cols - 1);
        lemma_column_dresses(pass, g, before, cols - 1, h.height);
        lemma_kept_trans(h, before, after, k);
        assert forall|x: int, y: int, a: int, b: int|
            0 <= x < cols && 0 <= y < h.height && #[trigger] target(
                pass,
                g,
                x,
                y,
                a,
                b,
            ) implies is_dressed(after.at(a, b)) by {
            assert(g.in_bounds(a, b));
            if x < cols - 1 {
                assert(is_dressed(before.at(a, b)));
                assert(cell_kept(before.at(a, b), after.at(a, b), k));
            }
        }
    } else {
        lemma_kept_refl(h, k);
    }
}

/// A whole detail pass keeps every cell's kind and dresses every cell that
/// one of its patterns singled out in the grid `g` from before any detail
/// was laid on.
pub proof fn lemma_scan_dresses(pass: Pass, g: GridView, h: GridView)
    requires
        pass != Pass::Cleanup,
        kept(g, h, keeps_ground(pass)),
    ensures
        kept(h, scan(pass, h), keeps_ground(pass)),
        kept(g, scan(pass, h), keeps_ground(pass)),
        forall|x: int, y: int, a: int, b: int| #[trigger]
            target(pass, g, x, y, a, b) ==> is_dressed(scan(pass, h).at(a, b)),
{
    lemma_columns_dresses(pass, g, h, h.width);
    assert forall|x: int, y: int, a: int, b: int| #[trigger]
        target(pass, g, x, y, a, b) implies is_dressed(scan(pass, h).at(a, b)) by {
        assert(0 <= x < h.width && 0 <= y < h.height);
    }
}

/// The grid after the four detail passes.
pub open spec fn detail_result(g: GridView) -> GridView {
    scan(Pass::Facades, scan(Pass::Caps, scan(Pass::Sides, scan(Pass::Corners, g))))
}

/// Detail coverage: every wall cell that an inner-corner, outer-corner or
/// edge pattern singles out in a grid is, after the four detail passes, a
/// wall tile other than the plain wall. No cell is emptied on the way, and
/// wall stays wall.
pub proof fn lemma_detail_coverage(g: GridView)
    requires
        g.wf(),
    ensures
        kept(g, detail_result(g), false),
        forall|x: int, y: int, a: int, b: int| #[trigger]
            corner_target(g, x, y, a, b) ==> is_dressed(detail_result(g).at(a, b)),
        forall|x: int, y: int, a: int, b: int| #[trigger]
            side_target(g, x, y, a, b) ==> is_dressed(detail_result(g).at(a, b)),
        forall|x: int, y: int, a: int, b: int| #[trigger]
            cap_target(g, x, y, a, b) ==> is_dressed(detail_result(g).at(a, b)),
{
    let g1 = scan(Pass::Corners, g);
    let g2 = scan(Pass::Sides, g1);
    let g3 = scan(Pass::Caps, g2);
    let g4 = scan(Pass::Facades, g3);
    lemma_kept_refl(g, true);
    lemma_scan_dresses(Pass::Corners, g, g);
    lemma_scan_dresses(Pass::Sides, g, g1);
    lemma_scan_dresses(Pass::Caps, g, g2);
    lemma_kept_weaken(g, g3);
    lemma_scan_dresses(Pass::Facades, g, g3);
    lemma_kept_weaken(g1, g2);
    lemma_kept_weaken(g2, g3);
    lemma_kept_trans(g2, g3, g4, false);
    lemma_kept_trans(g1, g2, g4, false);
    assert forall|x: int, y: int, a: int, b: int| #[trigger]
        corner_target(g, x, y, a, b) implies is_dressed(g4.at(a, b)) by {
        assert(g.in_bounds(a, b));
        assert(target(Pass::Corners, g, x, y, a, b));
        assert(is_dressed(g1.at(a, b)));
        assert(cell_kept(g1.at(a, b), g4.at(a, b), false));
    }
    assert forall|x: int, y: int, a: int, b: int| #[trigger]
        side_target(g, x, y, a, b) implies is_dressed(g4.at(a, b)) by {
        assert(g.in_bounds(a, b));
        assert(target(Pass::Sides, g, x, y, a, b));
        assert(is_dressed(g2.at(a, b)));
        assert(cell_kept(g2.at(a, b), g4.at(a, b), false));
    }
    assert forall|x: int, y: int, a: int, b: int| #[trigger]
        cap_target(g, x, y, a, b) implies is_dressed(g4.at(a, b)) by {
        assert(g.in_bounds(a, b));
        assert(target(Pass::Caps, g, x, y, a, b));
        assert(is_dressed(g3.at(a, b)));
        assert(cell_kept(g3.at(a, b), g4.at(a, b), false));
    }
}

} // verus!

//! Which tiles of the tileset are solid: the ones that get a collider when
//! a grid is handed to the physics.

use vstd::prelude::*;

verus! {

/// The tile ids from `start` up to, but not including, `end`.
#[derive(Clone, Copy, Debug, PartialEq, Eq, Structural)]
pub struct TileRange {
    pub start: u32,
    pub end: u32,
}

/// Tile `id` lies in one of the ranges.
pub open spec fn in_some_range(ranges: Seq<TileRange>, id: int) -> bool {
    exists|k: int| 0 <= k < ranges.len() && (#[trigger] ranges[k]).start <= id < ranges[k].end
}

/// The ranges of solid tiles in the dungeon tileset.
pub fn solid_tiles() -> (r: Vec<TileRange>)
    ensures
        r@ == seq![
            TileRange { start: 0, end: 6 },
            TileRange { start: 12, end: 14 },
            TileRange { start: 15, end: 18 },
            TileRange { start: 19, end: 21 },
            TileRange { start: 24, end: 28 },
        ],
{
    let mut r: Vec<TileRange> = Vec::new();
    r.push(TileRange { start: 0, end: 6 });
    r.push(TileRange { start: 12, end: 14 });
    r.push(TileRange { start: 15, end: 18 });
    r.push(TileRange { start: 19, end: 21 });
    r.push(TileRange { start: 24, end: 28 });
    proof {
        assert(r@ =~= seq![
            TileRange { start: 0, end: 6 },
            TileRange { start: 12, end: 14 },
            TileRange { start: 15, end: 18 },
            TileRange { start: 19, end: 21 },
            TileRange { start: 24, end: 28 },
        ]);
    }
    r
}

/// Number of tiles in a tileset image: the rows that fit its height, with
/// `spacing` between rows and `margin` around them, times the columns.
/// `None` where the measures make no sense or the number does not fit.
pub fn tile_count(texture_height: i32, spacing: i32, margin: i32, tile_height: i32, columns: u32)
    -> (r: Option<usize>)
    ensures
        r is Some <==> texture_height + spacing - 2 * margin >= 0 && tile_height + spacing > 0 && (
        (texture_height + spacing - 2 * margin) / (tile_height + spacing)) * columns
            <= usize::MAX,
        r is Some ==> r.unwrap() == ((texture_height + spacing - 2 * margin) / (tile_height
            + spacing)) * columns,
{
    let span: i64 = texture_height as i64 + spacing as i64 - 2 * (margin as i64);
    let pitch: i64 = tile_height as i64 + spacing as i64;
    if span < 0 || pitch <= 0 {
        return None;
    }
    let rows: i64 = span / pitch;
    proof {
        vstd::arithmetic::div_mod::lemma_div_pos_is_pos(span as int, pitch as int);
        vstd::arithmetic::div_mod::lemma_div_is_ordered_by_denominator(span as int, 1, pitch as int);
        assert(rows * columns <= 0x2_0000_0000 * 0xffff_ffff) by (nonlinear_arith)
            requires
                0 <= rows <= 0x2_0000_0000,
                0 <= columns <= 0xffff_ffff,
        ;
        assert(0 <= rows * columns) by (nonlinear_arith)
            requires
                0 <= rows,
                0 <= columns,
        ;
    }
    let total: u128 = (rows as u128) * (columns as u128);
    if total > usize::MAX as u128 {
        return None;
    }
    Some(total as usize)
}

/// For each tile id below `tile_count`, whether it lies in one of the
/// ranges.
pub fn create_solid_tile_mask(tile_count: usize, solid_tile_ranges: &Vec<TileRange>) -> (mask: Vec<
    bool,
>)
    requires
        forall|k: int|
            0 <= k < solid_tile_ranges@.len() ==> (#[trigger] solid_tile_ranges@[k]).end
                <= tile_count || solid_tile_ranges@[k].end <= solid_tile_ranges@[k].start,
    ensures
        mask@.len() == tile_count,
        forall|i: int| 0 <= i < tile_count ==> mask@[i] == in_some_range(solid_tile_ranges@, i),
{
    let mut out: Vec<bool> = Vec::new();
    let mut n: usize = 0;
    while n < tile_count
        invariant
            n <= tile_count,
            out@.len() == n,
            forall|i: int| 0 <= i < n ==> !out@[i],
        decreases tile_count - n,
    {
        out.push(false);
        n += 1;
    }
    let mut k: usize = 0;
    while k < solid_tile_ranges.len()
        invariant
            k <= solid_tile_ranges@.len(),
            out@.len() == tile_count,
            forall|j: int|
                0 <= j < solid_tile_ranges@.len() ==> (#[trigger] solid_tile_ranges@[j]).end
                    <= tile_count || solid_tile_ranges@[j].end <= solid_tile_ranges@[j].start,
            forall|i: int|
                0 <= i < tile_count ==> out@[i] == in_some_range(
                    solid_tile_ranges@.subrange(0, k as int),
                    i,
                ),
        decreases solid_tile_ranges@.len() - k,
    {
        let range = solid_tile_ranges[k];
        let ghost done = solid_tile_ranges@.subrange(0, k as int);
        let ghost next = solid_tile_ranges@.subrange(0, k + 1);
        let mut id: u32 = range.start;
        while id < range.end
            invariant
                range.start <= id,
                id <= range.end || range.end <= range.start,
                range.end <= range.start ==> id == range.start,
                range.end <= tile_count || range.end <= range.start,
                out@.len() == tile_count,
                forall|i: int|
                    0 <= i < tile_count ==> out@[i] == (in_some_range(done, i) || range.start <= i
                        < id),
            decreases range.end - id,
        {
            out.set(id as usize, true);
            id += 1;
        }
        proof {
            assert(next.drop_last() =~= done);
            assert(next.last() == range);
            assert forall|i: int| 0 <= i < tile_count implies out@[i] == in_some_range(next, i) by {
                if in_some_range(next, i) {
                    let j = choose|j: int|
                        0 <= j < next.len() && (#[trigger] next[j]).start <= i < next[j].end;
                    if j < k {
                        assert(done[j] == next[j]);
                        assert(in_some_range(done, i));
                    } else {
                        assert(j == k);
                        assert(next[j] == range);
                    }
                    assert(out@[i]);
                }
                if in_some_range(done, i) {
                    let j = choose|j: int|
                        0 <= j < done.len() && (#[trigger] done[j]).start <= i < done[j].end;
                    assert(next[j] == done[j]);
                    assert(in_some_range(next, i));
                }
                if range.start <= i < range.end {
                    assert(next[k as int] == range);
                    assert(in_some_range(next, i));
                }
            }
        }
        k += 1;
    }
    proof {
        assert(solid_tile_ranges@.subrange(0, k as int) =~= solid_tile_ranges@);
    }
    out
}

/// Whether the mask marks tile `tile_id` as solid.
pub fn is_tile_solid(solid_tile_mask: &Vec<bool>, tile_id: u32) -> (r: bool)
    requires
        tile_id < solid_tile_mask@.len(),
    ensures
        r == solid_tile_mask@[tile_id as int],
{
    solid_tile_mask[tile_id as usize]
}

} // verus!

//! The tile grid: a rectangle of cells stored row by row, each cell either
//! empty or holding a tile id.

use vstd::prelude::*;

verus! {

/// A position, or a size, in whole cells.
#[derive(Clone, Copy, Debug, PartialEq, Eq, Structural)]
pub struct Coord {
    pub x: u32,
    pub y: u32,
}

/// The mathematical grid: `cells` holds row `y` at indices
/// `y * width .. (y + 1) * width`.
pub struct GridView {
    pub width: int,
    pub height: int,
    pub cells: Seq<Option<u32>>,
}

impl GridView {
    /// The cell sequence has exactly one entry per cell.
    pub open spec fn wf(self) -> bool {
        &&& 0 <= self.width
        &&& 0 <= self.height
        &&& self.cells.len() == self.width * self.height
    }

    /// `(x, y)` is a cell of the grid.
    pub open spec fn in_bounds(self, x: int, y: int) -> bool {
        0 <= x < self.width && 0 <= y < self.height
    }

    /// Where cell `(x, y)` lies in `cells`.
    pub open spec fn index_of(self, x: int, y: int) -> int {
        y * self.width + x
    }

    /// What cell `(x, y)` holds.
    pub open spec fn at(self, x: int, y: int) -> Option<u32> {
        self.cells[self.index_of(x, y)]
    }

    /// The grid with cell `(x, y)` replaced by `v`.
    pub open spec fn put(self, x: int, y: int, v: Option<u32>) -> GridView {
        GridView {
            width: self.width,
            height: self.height,
            cells: self.cells.update(self.index_of(x, y), v),
        }
    }

    /// Cell `(x, y)` exists and holds tile `id`.
    pub open spec fn holds(self, x: int, y: int, id: u32) -> bool {
        self.in_bounds(x, y) && self.at(x, y) == Some(id)
    }

    /// Cell `(x, y)` exists and holds a tile of the wall class.
    pub open spec fn holds_wall(self, x: int, y: int) -> bool {
        &&& self.in_bounds(x, y)
        &&& self.at(x, y) is Some
        &&& crate::tiles::is_wall_class(self.at(x, y).unwrap())
    }

    /// No cell is empty.
    pub open spec fn full(self) -> bool {
        forall|x: int, y: int| self.in_bounds(x, y) ==> (#[trigger] self.at(x, y)) is Some
    }

    /// `(x, y)` lies in the outermost ring of cells.
    pub open spec fn on_border(self, x: int, y: int) -> bool {
        self.in_bounds(x, y) && (x == 0 || y == 0 || x == self.width - 1 || y == self.height - 1)
    }

    /// Every cell of the outermost ring holds a wall-class tile.
    pub open spec fn border_is_wall(self) -> bool {
        forall|x: int, y: int| self.on_border(x, y) ==> #[trigger] self.holds_wall(x, y)
    }

    /// Both grids have the same shape.
    pub open spec fn same_shape(self, other: GridView) -> bool {
        self.width == other.width && self.height == other.height
    }
}

/// A cell inside the grid has its index inside the cell sequence.
pub proof fn lemma_index_in_range(g: GridView, x: int, y: int)
    requires
        g.wf(),
        g.in_bounds(x, y),
    ensures
        0 <= g.index_of(x, y) < g.cells.len(),
{
    assert(0 <= y * g.width && y * g.width + g.width <= g.width * g.height) by (nonlinear_arith)
        requires
            0 <= y < g.height,
            0 <= g.width,
    ;
}

/// Two cells inside the grid share an index only if they are the same cell.
pub proof fn lemma_index_injective(g: GridView, x1: int, y1: int, x2: int, y2: int)
    requires
        g.in_bounds(x1, y1),
        g.in_bounds(x2, y2),
        g.index_of(x1, y1) == g.index_of(x2, y2),
    ensures
        x1 == x2,
        y1 == y2,
{
    let w = g.width;
    if y1 < y2 {
        assert(y1 * w + w <= y2 * w) by (nonlinear_arith)
            requires
                y1 < y2,
                0 <= w,
        ;
    } else if y2 < y1 {
        assert(y2 * w + w <= y1 * w) by (nonlinear_arith)
            requires
                y2 < y1,
                0 <= w,
        ;
    }
}

/// Reading a cell after a write: the written cell holds the new value,
/// every other cell its old one.
pub broadcast proof fn lemma_put_at(g: GridView, x: int, y: int, v: Option<u32>, a: int, b: int)
    requires
        g.wf(),
        g.in_bounds(x, y),
        g.in_bounds(a, b),
    ensures
        #[trigger] g.put(x, y, v).at(a, b) == (if a == x && b == y {
            v
        } else {
            g.at(a, b)
        }),
{
    lemma_index_in_range(g, x, y);
    lemma_index_in_range(g, a, b);
    if g.index_of(x, y) == g.index_of(a, b) {
        lemma_index_injective(g, x, y, a, b);
    }
}

/// A write inside the grid keeps the grid well formed.
pub broadcast proof fn lemma_put_wf(g: GridView, x: int, y: int, v: Option<u32>)
    requires
        g.wf(),
        g.in_bounds(x, y),
    ensures
        (#[trigger] g.put(x, y, v)).wf(),
{
    lemma_index_in_range(g, x, y);
}

/// Two grids of one shape that agree in every cell are the same grid.
pub proof fn lemma_grid_ext(g: GridView, h: GridView)
    requires
        g.wf(),
        h.wf(),
        h.same_shape(g),
        forall|a: int, b: int| g.in_bounds(a, b) ==> g.at(a, b) == h.at(a, b),
    ensures
        g == h,
{
    let w = g.width;
    assert forall|i: int| 0 <= i < g.cells.len() implies g.cells[i] == h.cells[i] by {
        if w > 0 {
            vstd::arithmetic::div_mod::lemma_fundamental_div_mod(i, w);
            vstd::arithmetic::div_mod::lemma_mod_pos_bound(i, w);
            vstd::arithmetic::div_mod::lemma_div_pos_is_pos(i, w);
            vstd::arithmetic::div_mod::lemma_multiply_divide_lt(i, w, g.height);
            assert(w * (i / w) == (i / w) * w) by (nonlinear_arith);
            assert(g.in_bounds(i % w, i / w));
            assert(g.index_of(i % w, i / w) == i);
            assert(g.at(i % w, i / w) == h.at(i % w, i / w));
        } else {
            assert(w * g.height == 0) by (nonlinear_arith)
                requires
                    w == 0,
            ;
        }
    }
    assert(g.cells =~= h.cells);
}

impl GridView {
    /// `(a, b)` lies in the rectangle of columns `x0 .. x1` and rows
    /// `y0 .. y1`.
    pub open spec fn in_rect(x0: int, y0: int, x1: int, y1: int, a: int, b: int) -> bool {
        x0 <= a < x1 && y0 <= b < y1
    }

    /// The grid with every cell of the rectangle of columns `x0 .. x1` and
    /// rows `y0 .. y1` replaced by `v`.
    pub open spec fn with_rect(self, x0: int, y0: int, x1: int, y1: int, v: Option<u32>)
        -> GridView {
        GridView {
            width: self.width,
            height: self.height,
            cells: Seq::new(
                self.cells.len(),
                |i: int|
                    if Self::in_rect(x0, y0, x1, y1, i % self.width, i / self.width) {
                        v
                    } else {
                        self.cells[i]
                    },
            ),
        }
    }
}

/// Reading a cell after a rectangle was filled: inside the rectangle the
/// cell holds the new value, outside its old one.
pub broadcast proof fn lemma_with_rect_at(
    g: GridView,
    x0: int,
    y0: int,
    x1: int,
    y1: int,
    v: Option<u32>,
    a: int,
    b: int,
)
    requires
        g.wf(),
        g.in_bounds(a, b),
    ensures
        #[trigger] g.with_rect(x0, y0, x1, y1, v).at(a, b) == (if GridView::in_rect(
            x0,
            y0,
            x1,
            y1,
            a,
            b,
        ) {
            v
        } else {
            g.at(a, b)
        }),
{
    let w = g.width;
    let i = g.index_of(a, b);
    lemma_index_in_range(g, a, b);
    assert(b * w == w * b) by (nonlinear_arith);
    vstd::arithmetic::div_mod::lemma_div_multiples_vanish_fancy(b, a, w);
    vstd::arithmetic::div_mod::lemma_fundamental_div_mod(i, w);
    assert(i / w == b);
    assert(i % w == a);
}

/// Filling a rectangle keeps the grid well formed.
pub broadcast proof fn lemma_with_rect_wf(
    g: GridView,
    x0: int,
    y0: int,
    x1: int,
    y1: int,
    v: Option<u32>,
)
    requires
        g.wf(),
    ensures
        (#[trigger] g.with_rect(x0, y0, x1, y1, v)).wf(),
{
}

/// The facts about reading a cell after a write, for proofs to use without
/// naming them.
pub broadcast group group_grid {
    lemma_put_at,
    lemma_put_wf,
    lemma_with_rect_at,
    lemma_with_rect_wf,
}

/// A tile grid as the generator fills it and hands it on.
#[derive(Debug)]
pub struct TileGrid {
    pub width: u32,
    pub height: u32,
    /// One entry per cell, row by row; `None` is an empty cell.
    pub data: Vec<Option<u32>>,
}

impl View for TileGrid {
    type V = GridView;

    open spec fn view(&self) -> GridView {
        GridView { width: self.width as int, height: self.height as int, cells: self.data@ }
    }
}

impl TileGrid {
    /// The data has one entry per cell, and every cell index fits in `u32`.
    pub open spec fn wf(&self) -> bool {
        &&& self@.wf()
        &&& self.width * self.height <= u32::MAX
    }

    /// A grid of the given size with `tile` in every cell; `None` when the
    /// number of cells does not fit in `u32`.
    pub fn filled(width: u32, height: u32, tile: Option<u32>) -> (r: Option<TileGrid>)
        ensures
            r is Some <==> width * height <= u32::MAX,
            r is Some ==> {
                let g = r.unwrap();
                &&& g.wf()
                &&& g.width == width
                &&& g.height == height
                &&& forall|i: int| 0 <= i < g.data@.len() ==> g.data@[i] == tile
            },
    {
        assert(width * height <= 0xffff_ffff * 0xffff_ffff) by (nonlinear_arith)
            requires
                width <= 0xffff_ffff,
                height <= 0xffff_ffff,
        ;
        let total: u64 = (width as u64) * (height as u64);
        if total > u32::MAX as u64 {
            return None;
        }
        let mut data: Vec<Option<u32>> = Vec::new();
        let mut i: u64 = 0;
        while i < total
            invariant
                i <= total,
                data@.len() == i,
                forall|k: int| 0 <= k < data@.len() ==> data@[k] == tile,
            decreases total - i,
        {
            data.push(tile);
            i += 1;
        }
        Some(TileGrid { width, height, data })
    }

    /// What cell `(x, y)` holds.
    pub fn get(&self, x: u32, y: u32) -> (r: Option<u32>)
        requires
            self.wf(),
            x < self.width,
            y < self.height,
        ensures
            r == self@.at(x as int, y as int),
    {
        proof {
            lemma_index_in_range(self@, x as int, y as int);
        }
        let i = xytoi(x, y, self);
        self.data[i]
    }

    /// Replaces what cell `(x, y)` holds.
    pub fn set(&mut self, x: u32, y: u32, tile: Option<u32>)
        requires
            old(self).wf(),
            x < old(self).width,
            y < old(self).height,
        ensures
            final(self)@ == old(self)@.put(x as int, y as int, tile),
            final(self).wf(),
    {
        proof {
            lemma_index_in_range(self@, x as int, y as int);
            lemma_put_wf(self@, x as int, y as int, tile);
        }
        let i = xytoi(x, y, self);
        self.data.set(i, tile);
    }

    /// Whether cell `(x, y)` exists and holds tile `id`.
    pub fn holds(&self, x: u32, y: u32, id: u32) -> (r: bool)
        requires
            self.wf(),
        ensures
            r == self@.holds(x as int, y as int, id),
    {
        if x >= self.width || y >= self.height {
            return false;
        }
        match self.get(x, y) {
            Some(t) => t == id,
            None => false,
        }
    }

    /// Whether cell `(x, y)` exists and holds a wall-class tile.
    pub fn holds_wall(&self, x: u32, y: u32) -> (r: bool)
        requires
            self.wf(),
        ensures
            r == self@.holds_wall(x as int, y as int),
    {
        if x >= self.width || y >= self.height {
            return false;
        }
        match self.get(x, y) {
            Some(t) => crate::tiles::is_wall_tile(t),
            None => false,
        }
    }

    /// Fills the rectangle of columns `x0 .. x1` and rows `y0 .. y1` with
    /// `tile`.
    pub fn fill_rect(&mut self, x0: u32, y0: u32, x1: u32, y1: u32, tile: Option<u32>)
        requires
            old(self).wf(),
            x1 <= old(self).width,
            y1 <= old(self).height,
        ensures
            final(self)@ == old(self)@.with_rect(x0 as int, y0 as int, x1 as int, y1 as int, tile),
            final(self).wf(),
    {
        let ghost start = self@;
        let mut x: u32 = x0;
        while x < x1
            invariant
                self.wf(),
                start.wf(),
                self@.same_shape(start),
                x1 <= self.width,
                y1 <= self.height,
                x0 <= x,
                x <= x1 || x == x0,
                forall|a: int, b: int|
                    start.in_bounds(a, b) ==> #[trigger] self@.at(a, b) == (if GridView::in_rect(
                        x0 as int,
                        y0 as int,
                        x as int,
                        y1 as int,
                        a,
                        b,
                    ) {
                        tile
                    } else {
                        start.at(a, b)
                    }),
            decreases x1 - x,
        {
            let mut y: u32 = y0;
            while y < y1
                invariant
                    self.wf(),
                    start.wf(),
                    self@.same_shape(start),
                    x < x1,
                    x1 <= self.width,
                    y1 <= self.height,
                    x0 <= x,
                    y0 <= y,
                    y <= y1 || y == y0,
                    forall|a: int, b: int|
                        start.in_bounds(a, b) ==> #[trigger] self@.at(a, b) == (if GridView::in_rect(
                            x0 as int,
                            y0 as int,
                            x as int,
                            y1 as int,
                            a,
                            b,
                        ) || (a == x && y0 <= b < y) {
                            tile
                        } else {
                            start.at(a, b)
                        }),
                decreases y1 - y,
            {
                let ghost before = self@;
                self.set(x, y, tile);
                proof {
                    assert forall|a: int, b: int| start.in_bounds(a, b) implies #[trigger] self@.at(
                        a,
                        b,
                    ) == (if a == x && b == y {
                        tile
                    } else {
                        before.at(a, b)
                    }) by {
                        lemma_put_at(before, x as int, y as int, tile, a, b);
                    }
                }
                y += 1;
            }
            x += 1;
        }
        proof {
            let goal = start.with_rect(x0 as int, y0 as int, x1 as int, y1 as int, tile);
            assert forall|a: int, b: int| goal.in_bounds(a, b) implies goal.at(a, b) == self@.at(
                a,
                b,
            ) by {
                lemma_with_rect_at(start, x0 as int, y0 as int, x1 as int, y1 as int, tile, a, b);
            }
            lemma_grid_ext(goal, self@);
        }
    }

    /// An independent copy of the grid.
    pub fn duplicate(&self) -> (r: TileGrid)
        ensures
            r@ == self@,
            r.width == self.width,
            r.height == self.height,
            r.data@ == self.data@,
    {
        let mut data: Vec<Option<u32>> = Vec::new();
        let mut i: usize = 0;
        while i < self.data.len()
            invariant
                i <= self.data@.len(),
                data@ == self.data@.subrange(0, i as int),
            decreases self.data@.len() - i,
        {
            data.push(self.data[i]);
            proof {
                assert(data@ =~= self.data@.subrange(0, i + 1));
            }
            i += 1;
        }
        proof {
            assert(data@ =~= self.data@);
        }
        TileGrid { width: self.width, height: self.height, data }
    }
}

/// Index of cell `(x, y)` in the grid's data.
pub fn xytoi(x: u32, y: u32, layer: &TileGrid) -> (i: usize)
    requires
        y * layer.width + x <= u32::MAX,
    ensures
        i == layer@.index_of(x as int, y as int),
{
    assert(y * layer.width <= u32::MAX);
    (y * layer.width + x) as usize
}

/// Cell whose index in the grid's data is `i`: the inverse of [`xytoi`].
pub fn itoxy(i: usize, layer: &TileGrid) -> (c: Coord)
    requires
        layer.width > 0,
        i <= u32::MAX,
    ensures
        c.x == i as int % layer.width as int,
        c.y == i as int / layer.width as int,
        layer@.index_of(c.x as int, c.y as int) == i,
{
    let i = i as u32;
    proof {
        vstd::arithmetic::div_mod::lemma_fundamental_div_mod(i as int, layer.width as int);
        assert((i as int / layer.width as int) * layer.width as int == layer.width as int * (i as int
            / layer.width as int)) by (nonlinear_arith);
    }
    Coord { x: i % layer.width, y: i / layer.width }
}

} // verus!

//! The tile selection mask: an addressable boolean grid naming the cells a
//! write operation touches. Builders are value-returning and chainable;
//! out-of-bounds requests are clamped away rather than rejected.

use vstd::prelude::*;

verus! {

/// Row-major index of the cell at column `px`, row `py` of a grid of the
/// given width.
pub open spec fn cell_idx(width: int, px: int, py: int) -> int {
    py * width + px
}

/// An in-bounds cell has an in-bounds row-major index, and two distinct
/// in-bounds cells have distinct indices.
pub proof fn lemma_cell_idx(width: int, height: int, px: int, py: int, qx: int, qy: int)
    requires
        0 <= px < width,
        0 <= py < height,
        0 <= qx < width,
        0 <= qy < height,
    ensures
        0 <= cell_idx(width, px, py) < width * height,
        cell_idx(width, px, py) == cell_idx(width, qx, qy) ==> px == qx && py == qy,
{
    assert(0 <= py * width + px < width * height) by (nonlinear_arith)
        requires
            0 <= px < width,
            0 <= py < height,
    ;
    if py * width + px == qy * width + qx {
        assert(px == qx && py == qy) by (nonlinear_arith)
            requires
                0 <= px < width,
                0 <= py < height,
                0 <= qx < width,
                0 <= qy < height,
                py * width + px == qy * width + qx,
        ;
    }
}

/// A width-by-height boolean grid in row-major order.
#[derive(Clone, Debug, PartialEq, Eq)]
pub struct TileSelection {
    pub width: usize,
    pub height: usize,
    pub bools: Vec<bool>,
}

impl TileSelection {
    /// The grid holds exactly one boolean per cell.
    pub open spec fn wf(self) -> bool {
        self.bools@.len() == self.width * self.height
    }

    /// Whether the cell at column `x`, row `y` is selected.
    pub open spec fn sel(self, x: int, y: int) -> bool {
        self.bools@[cell_idx(self.width as int, x, y)]
    }

    /// What `set_rect` leaves behind: the rectangle's in-bounds cells hold
    /// `value`, every other cell is unchanged, and the dimensions stay.
    pub open spec fn is_set_rect(
        pre: TileSelection,
        post: TileSelection,
        x: int,
        y: int,
        w: int,
        h: int,
        value: bool,
    ) -> bool {
        &&& post.wf()
        &&& post.width == pre.width
        &&& post.height == pre.height
        &&& forall|cx: int, cy: int|
            0 <= cx < post.width && 0 <= cy < post.height ==> post.sel(cx, cy) == (if x <= cx < x
                + w && y <= cy < y + h {
                value
            } else {
                pre.sel(cx, cy)
            })
    }

    /// What `invert` leaves behind: cells selected by `mask` (where `mask`
    /// covers them) are flipped, the rest are unchanged.
    pub open spec fn is_invert(pre: TileSelection, post: TileSelection, mask: TileSelection) -> bool {
        &&& post.wf()
        &&& post.width == pre.width
        &&& post.height == pre.height
        &&& forall|cx: int, cy: int|
            0 <= cx < post.width && 0 <= cy < post.height ==> post.sel(cx, cy) == (if cx
                < mask.width && cy < mask.height && mask.sel(cx, cy) {
                !pre.sel(cx, cy)
            } else {
                pre.sel(cx, cy)
            })
    }

    /// A grid of the given dimensions with every cell set to `value`.
    pub fn from_value(width: usize, height: usize, value: bool) -> (r: TileSelection)
        requires
            width * height <= usize::MAX,
        ensures
            r.wf(),
            r.width == width,
            r.height == height,
            forall|cx: int, cy: int|
                0 <= cx < width && 0 <= cy < height ==> r.sel(cx, cy) == value,
    {
        let n = width * height;
        let bools = vec![value; n];
        let r = TileSelection { width, height, bools };
        proof {
            assert forall|cx: int, cy: int| 0 <= cx < width && 0 <= cy < height implies r.sel(
                cx,
                cy,
            ) == value by {
                lemma_cell_idx(width as int, height as int, cx, cy, cx, cy);
            }
        }
        r
    }

    /// Full selection.
    pub fn all(width: usize, height: usize) -> (r: TileSelection)
        requires
            width * height <= usize::MAX,
        ensures
            r.wf(),
            r.width == width,
            r.height == height,
            forall|cx: int, cy: int| 0 <= cx < width && 0 <= cy < height ==> r.sel(cx, cy),
    {
        TileSelection::from_value(width, height, true)
    }

    /// Empty selection.
    pub fn new(width: usize, height: usize) -> (r: TileSelection)
        requires
            width * height <= usize::MAX,
        ensures
            r.wf(),
            r.width == width,
            r.height == height,
            forall|cx: int, cy: int| 0 <= cx < width && 0 <= cy < height ==> !r.sel(cx, cy),
    {
        TileSelection::from_value(width, height, false)
    }

    pub fn get_width(&self) -> (r: usize)
        ensures
            r == self.width,
    {
        self.width
    }

    pub fn get_height(&self) -> (r: usize)
        ensures
            r == self.height,
    {
        self.height
    }

    /// The selected coordinates as `(x, y)` pairs in row-major order:
    /// every listed cell is selected, every selected cell is listed, and
    /// the list ascends strictly by row-major index.
    pub fn get_selection(&self) -> (r: Vec<(usize, usize)>)
        requires
            self.wf(),
        ensures
            forall|k: int|
                0 <= k < r@.len() ==> (#[trigger] r@[k]).0 < self.width && r@[k].1 < self.height
                    && self.sel(r@[k].0 as int, r@[k].1 as int),
            forall|cx: int, cy: int|
                0 <= cx < self.width && 0 <= cy < self.height && self.sel(cx, cy) ==> exists|
                    k: int,
                |
                    0 <= k < r@.len() && (#[trigger] r@[k]) == (cx as usize, cy as usize),
            forall|k1: int, k2: int|
                0 <= k1 < k2 < r@.len() ==> cell_idx(
                    self.width as int,
                    (#[trigger] r@[k1]).0 as int,
                    r@[k1].1 as int,
                ) < cell_idx(self.width as int, (#[trigger] r@[k2]).0 as int, r@[k2].1 as int),
    {
        let total = self.bools.len();
        let mut r: Vec<(usize, usize)> = Vec::new();
        let mut cy: usize = 0;
        while cy < self.height
            invariant
                self.wf(),
                self.width * self.height <= usize::MAX,
                cy <= self.height,
                forall|k: int|
                    0 <= k < r@.len() ==> (#[trigger] r@[k]).0 < self.width && r@[k].1 < cy
                        && self.sel(r@[k].0 as int, r@[k].1 as int),
                forall|px: int, py: int|
                    0 <= px < self.width && 0 <= py < cy && self.sel(px, py) ==> exists|k: int|
                        0 <= k < r@.len() && (#[trigger] r@[k]) == (px as usize, py as usize),
                forall|k1: int, k2: int|
                    0 <= k1 < k2 < r@.len() ==> cell_idx(
                        self.width as int,
                        (#[trigger] r@[k1]).0 as int,
                        r@[k1].1 as int,
                    ) < cell_idx(
                        self.width as int,
                        (#[trigger] r@[k2]).0 as int,
                        r@[k2].1 as int,
                    ),
            decreases self.height - cy,
        {
            let mut cx: usize = 0;
            while cx < self.width
                invariant
                    self.wf(),
                    self.width * self.height <= usize::MAX,
                    cy < self.height,
                    cx <= self.width,
                    forall|k: int|
                        0 <= k < r@.len() ==> (#[trigger] r@[k]).0 < self.width && (r@[k].1 < cy
                            || (r@[k].1 == cy && r@[k].0 < cx)) && self.sel(
                            r@[k].0 as int,
                            r@[k].1 as int,
                        ),
                    forall|px: int, py: int|
                        0 <= px < self.width && 0 <= py < cy && self.sel(px, py) ==> exists|
                            k: int,
                        |
                            0 <= k < r@.len() && (#[trigger] r@[k]) == (px as usize, py as usize),
                    forall|px: int|
                        0 <= px < cx && self.sel(px, cy as int) ==> exists|k: int|
                            0 <= k < r@.len() && (#[trigger] r@[k]) == (px as usize, cy),
                    forall|k1: int, k2: int|
                        0 <= k1 < k2 < r@.len() ==> cell_idx(
                            self.width as int,
                            (#[trigger] r@[k1]).0 as int,
                            r@[k1].1 as int,
                        ) < cell_idx(
                            self.width as int,
                            (#[trigger] r@[k2]).0 as int,
                            r@[k2].1 as int,
                        ),
                decreases self.width - cx,
            {
                proof {
                    lemma_cell_idx(
                        self.width as int,
                        self.height as int,
                        cx as int,
                        cy as int,
                        cx as int,
                        cy as int,
                    );
                }
                let here = self.bools[cy * self.width + cx];
                if here {
                    proof {
                        assert forall|k: int| 0 <= k < r@.len() implies cell_idx(
                            self.width as int,
                            (#[trigger] r@[k]).0 as int,
                            r@[k].1 as int,
                        ) < cell_idx(self.width as int, cx as int, cy as int) by {
                            if r@[k].1 < cy {
                                assert(r@[k].1 * self.width + r@[k].0 < cy * self.width + cx)
                                    by (nonlinear_arith)
                                    requires
                                        r@[k].1 < cy,
                                        r@[k].0 < self.width,
                                        0 <= cx,
                                ;
                            }
                        }
                    }
                    let ghost r0 = r@;
                    r.push((cx, cy));
                    proof {
                        assert forall|px: int, py: int|
                            0 <= px < self.width && 0 <= py < cy && self.sel(px, py) implies
                            exists|k: int|
                                0 <= k < r@.len() && (#[trigger] r@[k]) == (
                                px as usize,
                                py as usize,
                            ) by {
                            let k0 = choose|k0: int|
                                0 <= k0 < r0.len() && (#[trigger] r0[k0]) == (
                                px as usize,
                                py as usize,
                                );
                            assert(r@[k0] == (px as usize, py as usize));
                        }
                        assert forall|px: int|
                            0 <= px <= cx && self.sel(px, cy as int) implies exists|k: int|
                                0 <= k < r@.len() && (#[trigger] r@[k]) == (px as usize, cy) by {
                            if px < cx {
                                let k0 = choose|k0: int|
                                    0 <= k0 < r0.len() && (#[trigger] r0[k0]) == (
                                    px as usize,
                                    cy,
                                    );
                                assert(r@[k0] == (px as usize, cy));
                            } else {
                                assert(r@[r0.len() as int] == (px as usize, cy));
                            }
                        }
                    }
                }
                cx = cx + 1;
            }
            cy = cy + 1;
        }
        r
    }

    /// Sets every cell of the rectangle that lies on the grid to `value`;
    /// cells outside the rectangle, and the parts of the rectangle off the
    /// grid, are untouched.
    pub fn set_rect(self, x: usize, y: usize, w: usize, h: usize, value: bool) -> (r:
        TileSelection)
        requires
            self.wf(),
        ensures
            TileSelection::is_set_rect(self, r, x as int, y as int, w as int, h as int, value),
    {
        let ghost pre = self;
        let width = self.width;
        let height = self.height;
        let mut bools = self.bools;
        let total = bools.len();
        let mut cy: usize = 0;
        while cy < height
            invariant
                pre.width == width,
                pre.height == height,
                pre.wf(),
                bools@.len() == width * height,
                width * height <= usize::MAX,
                cy <= height,
                forall|px: int, py: int|
                    0 <= px < width && 0 <= py < height ==> bools@[cell_idx(
                        width as int,
                        px,
                        py,
                    )] == (if py < cy && x <= px < x + w && y <= py < y + h {
                        value
                    } else {
                        pre.sel(px, py)
                    }),
            decreases height - cy,
        {
            let mut cx: usize = 0;
            while cx < width
                invariant
                    pre.width == width,
                    pre.height == height,
                    pre.wf(),
                    bools@.len() == width * height,
                    width * height <= usize::MAX,
                    cy < height,
                    cx <= width,
                    forall|px: int, py: int|
                        0 <= px < width && 0 <= py < height ==> bools@[cell_idx(
                            width as int,
                            px,
                            py,
                        )] == (if (py < cy || (py == cy && px < cx)) && x <= px < x + w && y <= py
                            < y + h {
                            value
                        } else {
                            pre.sel(px, py)
                        }),
                decreases width - cx,
            {
                proof {
                    lemma_cell_idx(
                        width as int,
                        height as int,
                        cx as int,
                        cy as int,
                        cx as int,
                        cy as int,
                    );
                }
                let in_rect = cx >= x && cx - x < w && cy >= y && cy - y < h;
                if in_rect {
                    bools[cy * width + cx] = value;
                }
                proof {
                    assert forall|px: int, py: int|
                        0 <= px < width && 0 <= py < height implies bools@[cell_idx(
                        width as int,
                        px,
                        py,
                    )] == (if (py < cy || (py == cy && px <= cx)) && x <= px < x + w && y <= py < y
                        + h {
                        value
                    } else {
                        pre.sel(px, py)
                    }) by {
                        lemma_cell_idx(width as int, height as int, px, py, cx as int, cy as int);
                    }
                }
                cx = cx + 1;
            }
            cy = cy + 1;
        }
        TileSelection { width, height, bools }
    }

    pub fn add_rect(self, x: usize, y: usize, w: usize, h: usize) -> (r: TileSelection)
        requires
            self.wf(),
        ensures
            TileSelection::is_set_rect(self, r, x as int, y as int, w as int, h as int, true),
    {
        self.set_rect(x, y, w, h, true)
    }

    pub fn remove_rect(self, x: usize, y: usize, w: usize, h: usize) -> (r: TileSelection)
        requires
            self.wf(),
        ensures
            TileSelection::is_set_rect(self, r, x as int, y as int, w as int, h as int, false),
    {
        self.set_rect(x, y, w, h, false)
    }

    /// Sets one cell; a coordinate off the grid is ignored.
    pub fn set(self, x: usize, y: usize, value: bool) -> (r: TileSelection)
        requires
            self.wf(),
        ensures
            TileSelection::is_set_rect(self, r, x as int, y as int, 1, 1, value),
    {
        self.set_rect(x, y, 1, 1, value)
    }

    pub fn add(self, x: usize, y: usize) -> (r: TileSelection)
        requires
            self.wf(),
        ensures
            TileSelection::is_set_rect(self, r, x as int, y as int, 1, 1, true),
    {
        self.set(x, y, true)
    }

    pub fn remove(self, x: usize, y: usize) -> (r: TileSelection)
        requires
            self.wf(),
        ensures
            TileSelection::is_set_rect(self, r, x as int, y as int, 1, 1, false),
    {
        self.set(x, y, false)
    }

    /// Sets the whole grid to `value`.
    pub fn set_all(self, value: bool) -> (r: TileSelection)
        requires
            self.wf(),
        ensures
            r.wf(),
            r.width == self.width,
            r.height == self.height,
            forall|cx: int, cy: int|
                0 <= cx < r.width && 0 <= cy < r.height ==> r.sel(cx, cy) == value,
    {
        let w = self.width;
        let h = self.height;
        self.set_rect(0, 0, w, h, value)
    }

    pub fn add_all(self) -> (r: TileSelection)
        requires
            self.wf(),
        ensures
            r.wf(),
            r.width == self.width,
            r.height == self.height,
            forall|cx: int, cy: int| 0 <= cx < r.width && 0 <= cy < r.height ==> r.sel(cx, cy),
    {
        self.set_all(true)
    }

    pub fn remove_all(self) -> (r: TileSelection)
        requires
            self.wf(),
        ensures
            r.wf(),
            r.width == self.width,
            r.height == self.height,
            forall|cx: int, cy: int| 0 <= cx < r.width && 0 <= cy < r.height ==> !r.sel(cx, cy),
    {
        self.set_all(false)
    }

    /// Flips every cell of this grid that `mask` covers and selects.
    pub fn invert(self, mask: TileSelection) -> (r: TileSelection)
        requires
            self.wf(),
            mask.wf(),
        ensures
            TileSelection::is_invert(self, r, mask),
    {
        let ghost pre = self;
        let width = self.width;
        let height = self.height;
        let mut bools = self.bools;
        let total = bools.len();
        let total_mask = mask.bools.len();
        let mut cy: usize = 0;
        while cy < height
            invariant
                pre.width == width,
                pre.height == height,
                pre.wf(),
                mask.wf(),
                bools@.len() == width * height,
                width * height <= usize::MAX,
                mask.width * mask.height <= usize::MAX,
                cy <= height,
                forall|px: int, py: int|
                    0 <= px < width && 0 <= py < height ==> bools@[cell_idx(
                        width as int,
                        px,
                        py,
                    )] == (if py < cy && px < mask.width && py < mask.height && mask.sel(px, py) {
                        !pre.sel(px, py)
                    } else {
                        pre.sel(px, py)
                    }),
            decreases height - cy,
        {
            let mut cx: usize = 0;
            while cx < width
                invariant
                    pre.width == width,
                    pre.height == height,
                    pre.wf(),
                    mask.wf(),
                    bools@.len() == width * height,
                    width * height <= usize::MAX,
                    mask.width * mask.height <= usize::MAX,
                    cy < height,
                    cx <= width,
                    forall|px: int, py: int|
                        0 <= px < width && 0 <= py < height ==> bools@[cell_idx(
                            width as int,
                            px,
                            py,
                        )] == (if (py < cy || (py == cy && px < cx)) && px < mask.width && py
                            < mask.height && mask.sel(px, py) {
                            !pre.sel(px, py)
                        } else {
                            pre.sel(px, py)
                        }),
                decreases width - cx,
            {
                proof {
                    lemma_cell_idx(
                        width as int,
                        height as int,
                        cx as int,
                        cy as int,
                        cx as int,
                        cy as int,
                    );
                }
                if cx < mask.width && cy < mask.height {
                    proof {
                        lemma_cell_idx(
                            mask.width as int,
                            mask.height as int,
                            cx as int,
                            cy as int,
                            cx as int,
                            cy as int,
                        );
                    }
                    if mask.bools[cy * mask.width + cx] {
                        let cur = bools[cy * width + cx];
                        bools[cy * width + cx] = !cur;
                    }
                }
                proof {
                    assert forall|px: int, py: int|
                        0 <= px < width && 0 <= py < height implies bools@[cell_idx(
                        width as int,
                        px,
                        py,
                    )] == (if (py < cy || (py == cy && px <= cx)) && px < mask.width && py
                        < mask.height && mask.sel(px, py) {
                        !pre.sel(px, py)
                    } else {
                        pre.sel(px, py)
                    }) by {
                        lemma_cell_idx(width as int, height as int, px, py, cx as int, cy as int);
                    }
                }
                cx = cx + 1;
            }
            cy = cy + 1;
        }
        TileSelection { width, height, bools }
    }

    /// Flips the whole grid.
    pub fn invert_all(self) -> (r: TileSelection)
        requires
            self.wf(),
        ensures
            r.wf(),
            r.width == self.width,
            r.height == self.height,
            forall|cx: int, cy: int|
                0 <= cx < r.width && 0 <= cy < r.height ==> r.sel(cx, cy) == !self.sel(cx, cy),
    {
        let w = self.width;
        let h = self.height;
        let total = self.bools.len();
        let mask = TileSelection::all(w, h);
        self.invert(mask)
    }
}

/// Adding the same rectangle twice selects the same set as adding it once.
pub proof fn lemma_add_rect_idempotent(
    m0: TileSelection,
    m1: TileSelection,
    m2: TileSelection,
    x: int,
    y: int,
    w: int,
    h: int,
)
    requires
        m0.wf(),
        TileSelection::is_set_rect(m0, m1, x, y, w, h, true),
        TileSelection::is_set_rect(m1, m2, x, y, w, h, true),
    ensures
        m2.width == m1.width,
        m2.height == m1.height,
        forall|cx: int, cy: int|
            0 <= cx < m2.width && 0 <= cy < m2.height ==> m2.sel(cx, cy) == m1.sel(cx, cy),
{
}

/// Inverting the whole grid twice restores the original selection.
pub proof fn lemma_invert_all_involution(m0: TileSelection, m1: TileSelection, m2: TileSelection)
    requires
        m0.wf(),
        m1.wf(),
        m1.width == m0.width,
        m1.height == m0.height,
        forall|cx: int, cy: int|
            0 <= cx < m1.width && 0 <= cy < m1.height ==> m1.sel(cx, cy) == !m0.sel(cx, cy),
        m2.wf(),
        m2.width == m1.width,
        m2.height == m1.height,
        forall|cx: int, cy: int|
            0 <= cx < m2.width && 0 <= cy < m2.height ==> m2.sel(cx, cy) == !m1.sel(cx, cy),
    ensures
        forall|cx: int, cy: int|
            0 <= cx < m2.width && 0 <= cy < m2.height ==> m2.sel(cx, cy) == m0.sel(cx, cy),
{
}

} // verus!

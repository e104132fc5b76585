//! Grid placement of file icons and hit testing.
use vstd::prelude::*;

verus! {

/// A screen rectangle in terminal cells.
#[derive(Debug, Clone, Copy, PartialEq, Eq, Structural)]
pub struct Rect {
    pub x: u16,
    pub y: u16,
    pub width: u16,
    pub height: u16,
}

impl Rect {
    /// Fits on the screen: its right and bottom edges are addressable.
    pub open spec fn wf(&self) -> bool {
        self.x + self.width <= u16::MAX && self.y + self.height <= u16::MAX
    }

    /// Whether cell (`px`, `py`) lies inside.
    pub open spec fn holds(&self, px: int, py: int) -> bool {
        self.x <= px < self.x + self.width && self.y <= py < self.y + self.height
    }
}

/// Cell `k` of a grid with `cols` columns, in row-major order.
pub open spec fn grid_cell(area: Rect, w: u16, h: u16, cols: int, k: int) -> Rect {
    Rect {
        x: (area.x + (k % cols) * w) as u16,
        y: (area.y + (k / cols) * h) as u16,
        width: w,
        height: h,
    }
}

/// The cells of a grid of `w` by `h` items that fit whole inside `area`, row by
/// row: as many columns and rows as fit, none when a single item does not.
pub open spec fn grid_cells(area: Rect, w: u16, h: u16) -> Seq<Rect> {
    if w <= area.width && h <= area.height {
        let cols = area.width / w;
        let rows = area.height / h;
        Seq::new((cols * rows) as nat, |k: int| grid_cell(area, w, h, cols as int, k))
    } else {
        Seq::empty()
    }
}

/// Computes `grid_cells`.
pub fn calculate_grid_layout(area: Rect, item_width: u16, item_height: u16) -> (r: Vec<Rect>)
    requires
        item_width > 0,
        item_height > 0,
        area.wf(),
    ensures
        r@ == grid_cells(area, item_width, item_height),
{
    let mut positions: Vec<Rect> = Vec::new();
    if item_width > area.width || item_height > area.height {
        assert(positions@ =~= grid_cells(area, item_width, item_height));
        return positions;
    }
    let cols = area.width / item_width;
    let rows = area.height / item_height;
    assert(cols >= 1) by (nonlinear_arith)
        requires
            cols == area.width / item_width,
            item_width > 0,
            item_width <= area.width,
    ;
    let ghost expected = grid_cells(area, item_width, item_height);
    let mut row: u16 = 0;
    while row < rows
        invariant
            cols == area.width / item_width,
            rows == area.height / item_height,
            cols >= 1,
            item_width > 0,
            item_height > 0,
            item_width <= area.width,
            item_height <= area.height,
            area.wf(),
            row <= rows,
            expected == grid_cells(area, item_width, item_height),
            positions@ =~= expected.take(row * cols),
        decreases rows - row,
    {
        let mut col: u16 = 0;
        while col < cols
            invariant
                cols == area.width / item_width,
                rows == area.height / item_height,
                cols >= 1,
                item_width > 0,
                item_height > 0,
                item_width <= area.width,
                item_height <= area.height,
                area.wf(),
                row < rows,
                col <= cols,
                expected == grid_cells(area, item_width, item_height),
                positions@ =~= expected.take(row * cols + col),
            decreases cols - col,
        {
            assert(col * item_width < area.width && row * item_height < area.height) by (nonlinear_arith)
                requires
                    col < cols,
                    cols == area.width / item_width,
                    row < rows,
                    rows == area.height / item_height,
                    item_width > 0,
                    item_height > 0,
            ;
            assert(row * cols + col < cols * rows) by (nonlinear_arith)
                requires
                    col < cols,
                    row < rows,
            ;
            let ghost k: int = row * cols + col;
            assert(k % (cols as int) == col && k / (cols as int) == row) by (nonlinear_arith)
                requires
                    k == row * cols + col,
                    col < cols,
                    cols >= 1,
            ;
            let cell = Rect {
                x: area.x + col * item_width,
                y: area.y + row * item_height,
                width: item_width,
                height: item_height,
            };
            assert(cell == grid_cell(area, item_width, item_height, cols as int, k));
            positions.push(cell);
            col = col + 1;
        }
        assert((row + 1) * cols == row * cols + cols) by (nonlinear_arith);
        row = row + 1;
    }
    assert(rows * cols == cols * rows) by (nonlinear_arith);
    assert(expected.take(rows * cols) =~= expected);
    positions
}

/// Index of the first rectangle that holds cell (`x`, `y`).
pub fn hit_test_grid(positions: &[Rect], x: u16, y: u16) -> (r: Option<usize>)
    ensures
        match r {
            Some(i) => i < positions@.len() && positions@[i as int].holds(x as int, y as int)
                && forall|j: int| 0 <= j < i ==> !(#[trigger] positions@[j]).holds(x as int, y as int),
            None => forall|j: int| 0 <= j < positions@.len() ==> !(#[trigger] positions@[j]).holds(x as int, y as int),
        },
{
    let mut i: usize = 0;
    while i < positions.len()
        invariant
            i <= positions@.len(),
            forall|j: int| 0 <= j < i ==> !(#[trigger] positions@[j]).holds(x as int, y as int),
        decreases positions@.len() - i,
    {
        let rect = positions[i];
        if x >= rect.x && (x as u32) < rect.x as u32 + rect.width as u32 && y >= rect.y
            && (y as u32) < rect.y as u32 + rect.height as u32 {
            return Some(i);
        }
        i = i + 1;
    }
    None
}

} // verus!

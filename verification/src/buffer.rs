//! An in-memory grid backend: a canvas whose cells live in a row-major
//! vector. It implements every primitive of the contract without any
//! possibility of backend failure, so it is a reliable canvas; it serves as
//! the reference surface to draw on and to inspect.

use vstd::prelude::*;

use crate::canvas::{in_dims, Canvas, CanvasError};
use crate::cell::{empty_cell, Cell};
use crate::width::{char_display_width, char_width};

verus! {

/// The row-major index of `(r, c)` in a grid of `w` columns and `h` rows is
/// in range, and two distinct in-range coordinates never share an index.
proof fn lemma_row_major(w: int, h: int, r1: int, c1: int, r2: int, c2: int)
    requires
        0 <= r1 < h,
        0 <= c1 < w,
        0 <= r2 < h,
        0 <= c2 < w,
    ensures
        0 <= r1 * w + c1 < h * w,
        h * w == w * h,
        r1 * w + c1 == r2 * w + c2 ==> r1 == r2 && c1 == c2,
{
    assert(0 <= r1 * w + c1 < h * w && h * w == w * h) by (nonlinear_arith)
        requires
            0 <= r1 < h,
            0 <= c1 < w,
    ;
    assert(r1 * w + c1 == r2 * w + c2 ==> r1 == r2 && c1 == c2) by (nonlinear_arith)
        requires
            0 <= r1 < h,
            0 <= c1 < w,
            0 <= r2 < h,
            0 <= c2 < w,
    ;
}

/// A canvas backed by an in-memory vector of cells, `width * height` of
/// them in row-major order, with an explicit cursor.
pub struct BufferCanvas {
    pub width: usize,
    pub height: usize,
    pub cells: Vec<Cell>,
    pub cursor_row: usize,
    pub cursor_col: usize,
    pub cursor_visible: bool,
}

impl BufferCanvas {
    /// A `width` by `height` surface of empty cells, with a hidden cursor
    /// at the origin. The size bound only keeps the cell count within the
    /// machine's integer range.
    pub fn new(width: usize, height: usize) -> (r: Self)
        requires
            width * height <= usize::MAX,
        ensures
            r.wf(),
            r.dims() == (width as nat, height as nat),
            forall|p: (int, int)| #[trigger] r.grid()[p] == empty_cell(),
            r.cursor() == (0int, 0int),
            !r.cursor_shown(),
            r.reliable(),
            r == (BufferCanvas {
                width,
                height,
                cells: r.cells,
                cursor_row: 0,
                cursor_col: 0,
                cursor_visible: false,
            }),
    {
        let n: usize = width * height;
        let mut cells: Vec<Cell> = Vec::new();
        for i in 0..n
            invariant
                cells@.len() == i,
                forall|j: int| 0 <= j < i ==> cells@[j] == empty_cell(),
        {
            cells.push(Cell::empty());
        }
        let r = BufferCanvas {
            width,
            height,
            cells,
            cursor_row: 0,
            cursor_col: 0,
            cursor_visible: false,
        };
        proof {
            assert forall|p: (int, int)| #[trigger] r.grid()[p] == empty_cell() by {
                if 0 <= p.0 < height && 0 <= p.1 < width {
                    lemma_row_major(width as int, height as int, p.0, p.1, p.0, p.1);
                }
            }
        }
        r
    }
}

impl Canvas for BufferCanvas {
    open spec fn wf(&self) -> bool {
        self.cells@.len() == self.width * self.height
    }

    open spec fn dims(&self) -> (nat, nat) {
        (self.width as nat, self.height as nat)
    }

    open spec fn grid(&self) -> Map<(int, int), Cell> {
        Map::new(
            |p: (int, int)| true,
            |p: (int, int)|
                if 0 <= p.0 < self.height && 0 <= p.1 < self.width {
                    self.cells@[p.0 * self.width + p.1]
                } else {
                    empty_cell()
                },
        )
    }

    open spec fn cursor(&self) -> (int, int) {
        (self.cursor_row as int, self.cursor_col as int)
    }

    open spec fn cursor_shown(&self) -> bool {
        self.cursor_visible
    }

    open spec fn reliable(&self) -> bool {
        true
    }

    /// The stored size; the query cannot fail.
    fn size(&self) -> (r: Result<(usize, usize), CanvasError>)
        ensures
            r == Ok::<(usize, usize), CanvasError>((self.width, self.height)),
    {
        Ok((self.width, self.height))
    }

    /// Resets every cell to the empty cell; cannot fail.
    fn clear(&mut self) -> (r: Result<(), CanvasError>)
        ensures
            r is Ok,
    {
        let n: usize = self.cells.len();
        for i in 0..n
            invariant
                n == self.cells@.len(),
                self.width == old(self).width,
                self.height == old(self).height,
                self.cursor_row == old(self).cursor_row,
                self.cursor_col == old(self).cursor_col,
                self.cursor_visible == old(self).cursor_visible,
                forall|j: int| 0 <= j < i ==> self.cells@[j] == empty_cell(),
        {
            self.cells[i] = Cell::empty();
        }
        proof {
            assert forall|p: (int, int)|
                in_dims(old(self).dims(), p.0, p.1) implies #[trigger] self.grid()[p]
                == empty_cell() by {
                lemma_row_major(self.width as int, self.height as int, p.0, p.1, p.0, p.1);
            }
        }
        Ok(())
    }

    /// Writes the cell when the coordinate is addressable, returning the
    /// display width of its character (with the same fallback of 2 the
    /// printing operations use); rejects any other coordinate with
    /// `OutOfBounds`, naming it.
    fn put_cell(&mut self, row: usize, col: usize, cell: Cell) -> (r: Result<usize, CanvasError>)
        ensures
            row >= old(self).height || col >= old(self).width ==> r == Err::<usize, CanvasError>(
                CanvasError::OutOfBounds { row, col },
            ),
            r matches Ok(w) ==> w as int == char_width(cell.ch),
    {
        if row >= self.height || col >= self.width {
            return Err(CanvasError::OutOfBounds { row, col });
        }
        proof {
            lemma_row_major(
                self.width as int,
                self.height as int,
                row as int,
                col as int,
                row as int,
                col as int,
            );
            assert(self.cells.len() == self.cells@.len());
        }
        let idx: usize = row * self.width + col;
        self.cells[idx] = cell;
        let w: usize = match char_display_width(cell.ch) {
            Some(w) => w,
            None => 2,
        };
        proof {
            assert forall|p: (int, int)|
                #[trigger] self.grid()[p] == old(self).grid().insert(
                (row as int, col as int),
                cell,
            )[p] by {
                if 0 <= p.0 < self.height && 0 <= p.1 < self.width {
                    lemma_row_major(
                        self.width as int,
                        self.height as int,
                        p.0,
                        p.1,
                        row as int,
                        col as int,
                    );
                }
            }
            assert(self.grid() =~= old(self).grid().insert((row as int, col as int), cell));
        }
        Ok(w)
    }

    /// Moves the cursor and makes it visible when the coordinate is
    /// addressable; rejects any other coordinate with `OutOfBounds`.
    fn set_cursor(&mut self, row: usize, col: usize) -> (r: Result<(), CanvasError>)
        ensures
            row >= old(self).height || col >= old(self).width ==> r == Err::<(), CanvasError>(
                CanvasError::OutOfBounds { row, col },
            ),
    {
        if row >= self.height || col >= self.width {
            return Err(CanvasError::OutOfBounds { row, col });
        }
        self.cursor_row = row;
        self.cursor_col = col;
        self.cursor_visible = true;
        proof {
            assert(self.grid() =~= old(self).grid());
        }
        Ok(())
    }

    /// Toggles cursor visibility; cannot fail.
    fn show_cursor(&mut self, show: bool) -> (r: Result<(), CanvasError>)
        ensures
            r is Ok,
    {
        self.cursor_visible = show;
        proof {
            assert(self.grid() =~= old(self).grid());
        }
        Ok(())
    }
}

} // verus!

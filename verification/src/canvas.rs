//! The canvas contract: the primitive operations every drawing backend must
//! supply, the derived text operations built once on top of them, and the
//! `BoundedCanvas` adapter that presents a rectangular window of a parent
//! canvas as an independent zero-origin canvas.

use vstd::prelude::*;

use crate::cell::{default_attr, empty_cell, Attr, Cell};
use crate::width::{char_display_width, char_width, prefix_width, total_width};

verus! {

/// Why a canvas operation failed.
#[derive(Clone, Copy, Debug, PartialEq, Eq, Structural)]
pub enum CanvasError {
    /// The requested position lies outside the addressable region; carries
    /// the offending coordinates.
    OutOfBounds { row: usize, col: usize },
    /// The underlying backend failed for a reason of its own; opaque here
    /// and simply propagated.
    BackendFailure,
}

/// Whether `(row, col)` addresses a cell of a canvas whose usable size is
/// `d == (width, height)`.
pub open spec fn in_dims(d: (nat, nat), row: int, col: int) -> bool {
    0 <= row < d.1 && 0 <= col < d.0
}

/// Whether text `s` printed starting at `(row, col)` lays every character
/// at an addressable position of a canvas of size `d`.
pub open spec fn fits(d: (nat, nat), row: int, col: int, s: Seq<char>) -> bool {
    forall|i: int| 0 <= i < s.len() ==> in_dims(d, row, col + prefix_width(s, i))
}

/// The cell that character `i` of `s` paints: the character itself with the
/// one shared attribute.
pub open spec fn cell_of(s: Seq<char>, attr: Attr, i: int) -> Cell {
    Cell { ch: s[i], attr }
}

/// The grid `g` after the first `k` characters of `s` are laid out from
/// `(row, col)`: character `i` lands at column `col` plus the summed width
/// of the characters before it, and a later character overwrites an earlier
/// one that landed in the same place.
pub open spec fn printed_grid(
    g: Map<(int, int), Cell>,
    s: Seq<char>,
    attr: Attr,
    row: int,
    col: int,
    k: int,
) -> Map<(int, int), Cell>
    decreases k,
{
    if k <= 0 {
        g
    } else {
        printed_grid(g, s, attr, row, col, k - 1).insert(
            (row, col + prefix_width(s, k - 1)),
            cell_of(s, attr, k - 1),
        )
    }
}

/// Everything the derived printing operations promise about the grid and
/// the result. On success the whole text is laid out left to right from
/// `(row, col)`, every character at an addressable position, and the
/// returned width is the summed display width of the text (not the
/// character count). On failure exactly a prefix of the text was written
/// and the rest was aborted. On a canvas whose primitives never fail in
/// bounds (`pre_reliable`), success is owed exactly when every character
/// fits, and a failure pinpoints the first character that does not.
pub open spec fn print_post(
    pre_grid: Map<(int, int), Cell>,
    post_grid: Map<(int, int), Cell>,
    d: (nat, nat),
    pre_reliable: bool,
    row: int,
    col: int,
    s: Seq<char>,
    attr: Attr,
    r: Result<usize, CanvasError>,
) -> bool {
    &&& (r matches Ok(w) ==> {
        &&& w == total_width(s)
        &&& post_grid == printed_grid(pre_grid, s, attr, row, col, s.len() as int)
        &&& fits(d, row, col, s)
    })
    &&& (r is Err ==> (exists|k: int|
        0 <= k < s.len() && post_grid == printed_grid(pre_grid, s, attr, row, col, k)))
    &&& (pre_reliable && fits(d, row, col, s) ==> r is Ok)
    &&& (pre_reliable && r is Err ==> (exists|k: int|
        {
            &&& 0 <= k < s.len()
            &&& post_grid == printed_grid(pre_grid, s, attr, row, col, k)
            &&& !in_dims(d, row, col + prefix_width(s, k))
            &&& (forall|j: int| 0 <= j < k ==> in_dims(d, row, col + prefix_width(s, j)))
        }))
}

/// The drawing capability. Backends implement the five primitive
/// operations; the three derived text operations are built here purely from
/// the primitives, so every backend shares identical wide-character and
/// overflow behaviour.
///
/// The contract speaks of an abstract state: a grid of cells (`grid`, total
/// over all coordinates — cells outside the usable size never change), a
/// usable size `dims == (width, height)`, and a cursor position and
/// visibility. `wf` is the backend's own validity and is preserved by every
/// operation. `reliable` marks a canvas whose primitives never fail on
/// addressable coordinates; on such a canvas the contract owes success,
/// while an unreliable backend may fail anywhere (an I/O error), though a
/// failed primitive leaves the state unchanged.
pub trait Canvas: Sized {
    /// The backend's own validity; established at construction and
    /// preserved by every operation.
    spec fn wf(&self) -> bool;

    /// The usable size `(width, height)` in grid cells.
    spec fn dims(&self) -> (nat, nat);

    /// The cells of the surface, by `(row, col)`.
    spec fn grid(&self) -> Map<(int, int), Cell>;

    /// The cursor position `(row, col)`.
    spec fn cursor(&self) -> (int, int);

    /// Whether the cursor is visible.
    spec fn cursor_shown(&self) -> bool;

    /// Whether primitives are owed to succeed on addressable coordinates.
    spec fn reliable(&self) -> bool;

    /// Get the canvas size `(width, height)`, queried on demand. Fails only
    /// on a backend error.
    fn size(&self) -> (r: Result<(usize, usize), CanvasError>)
        requires
            self.wf(),
        ensures
            r matches Ok(s) ==> s.0 as nat == self.dims().0 && s.1 as nat == self.dims().1,
            self.reliable() ==> r is Ok,
    ;

    /// Reset the canvas to the empty cell. A backend resets every
    /// addressable cell; an adapter that clears cell by cell may leave a
    /// cell unchanged where an underlying write fails, so in general each
    /// addressable cell is either reset or untouched, and on a reliable
    /// canvas every one is reset. Cells outside the usable size are never
    /// touched.
    fn clear(&mut self) -> (r: Result<(), CanvasError>)
        requires
            old(self).wf(),
        ensures
            final(self).wf(),
            final(self).dims() == old(self).dims(),
            final(self).reliable() == old(self).reliable(),
            final(self).cursor() == old(self).cursor(),
            final(self).cursor_shown() == old(self).cursor_shown(),
            forall|p: (int, int)|
                in_dims(old(self).dims(), p.0, p.1) ==> (#[trigger] final(self).grid()[p]
                    == empty_cell() || final(self).grid()[p] == old(self).grid()[p]),
            forall|p: (int, int)|
                !in_dims(old(self).dims(), p.0, p.1) ==> #[trigger] final(self).grid()[p] == old(
                    self,
                ).grid()[p],
            old(self).reliable() ==> r is Ok && (forall|p: (int, int)|
                in_dims(old(self).dims(), p.0, p.1) ==> #[trigger] final(self).grid()[p]
                    == empty_cell()),
    ;

    /// Write `cell` at `(row, col)` and return the display width consumed.
    /// Fails with an out-of-bounds or backend error when the position is
    /// not writable; a failed write changes nothing.
    fn put_cell(&mut self, row: usize, col: usize, cell: Cell) -> (r: Result<usize, CanvasError>)
        requires
            old(self).wf(),
        ensures
            final(self).wf(),
            r is Ok ==> {
                &&& in_dims(old(self).dims(), row as int, col as int)
                &&& final(self).grid() == old(self).grid().insert(
                    (row as int, col as int),
                    cell,
                )
                &&& final(self).dims() == old(self).dims()
                &&& final(self).cursor() == old(self).cursor()
                &&& final(self).cursor_shown() == old(self).cursor_shown()
                &&& final(self).reliable() == old(self).reliable()
            },
            r is Err ==> *final(self) == *old(self),
            old(self).reliable() && in_dims(old(self).dims(), row as int, col as int) ==> r is Ok,
    ;

    /// Move the visible cursor to `(row, col)`. Fails like `put_cell` on a
    /// position that is not addressable; a failed move changes nothing.
    fn set_cursor(&mut self, row: usize, col: usize) -> (r: Result<(), CanvasError>)
        requires
            old(self).wf(),
        ensures
            final(self).wf(),
            r is Ok ==> {
                &&& in_dims(old(self).dims(), row as int, col as int)
                &&& final(self).cursor() == (row as int, col as int)
                &&& final(self).cursor_shown()
                &&& final(self).grid() == old(self).grid()
                &&& final(self).dims() == old(self).dims()
                &&& final(self).reliable() == old(self).reliable()
            },
            r is Err ==> *final(self) == *old(self),
            old(self).reliable() && in_dims(old(self).dims(), row as int, col as int) ==> r is Ok,
    ;

    /// Show or hide the cursor without moving it.
    fn show_cursor(&mut self, show: bool) -> (r: Result<(), CanvasError>)
        requires
            old(self).wf(),
        ensures
            final(self).wf(),
            r is Ok ==> {
                &&& final(self).cursor_shown() == show
                &&& final(self).cursor() == old(self).cursor()
                &&& final(self).grid() == old(self).grid()
                &&& final(self).dims() == old(self).dims()
                &&& final(self).reliable() == old(self).reliable()
            },
            r is Err ==> *final(self) == *old(self),
            old(self).reliable() ==> r is Ok,
    ;

    /// Write `ch` with `attr` at `(row, col)`: builds a cell and delegates
    /// to `put_cell`. Returns the display width consumed.
    fn put_ch_with_attr(&mut self, row: usize, col: usize, ch: char, attr: Attr) -> (r: Result<
        usize,
        CanvasError,
    >)
        requires
            old(self).wf(),
        ensures
            final(self).wf(),
            r is Ok ==> {
                &&& in_dims(old(self).dims(), row as int, col as int)
                &&& final(self).grid() == old(self).grid().insert(
                    (row as int, col as int),
                    (Cell { ch, attr }),
                )
                &&& final(self).dims() == old(self).dims()
                &&& final(self).cursor() == old(self).cursor()
                &&& final(self).cursor_shown() == old(self).cursor_shown()
                &&& final(self).reliable() == old(self).reliable()
            },
            r is Err ==> *final(self) == *old(self),
            old(self).reliable() && in_dims(old(self).dims(), row as int, col as int) ==> r is Ok,
    {
        self.put_cell(row, col, Cell { ch, attr })
    }

    /// Print `content` left to right from `(row, col)` with one shared
    /// attribute. Each character is written at the running column offset,
    /// which then advances by the character's display width (1 narrow, 2
    /// wide, 2 when indeterminate). Never wraps to the next row: a position
    /// past the canvas edge is simply handed to `put_cell`, whose failure
    /// aborts the print and is propagated at once. Returns the total
    /// printed width.
    #[verifier::loop_isolation(false)]
    fn print_with_attr(&mut self, row: usize, col: usize, content: &str, attr: Attr) -> (r: Result<
        usize,
        CanvasError,
    >)
        requires
            old(self).wf(),
            col + 3 * content@.len() <= usize::MAX,
        ensures
            final(self).wf(),
            final(self).dims() == old(self).dims(),
            final(self).cursor() == old(self).cursor(),
            final(self).cursor_shown() == old(self).cursor_shown(),
            final(self).reliable() == old(self).reliable(),
            print_post(
                old(self).grid(),
                final(self).grid(),
                old(self).dims(),
                old(self).reliable(),
                row as int,
                col as int,
                content@,
                attr,
                r,
            ),
    {
        let ghost s = content@;
        let mut width: usize = 0;
        for ch in it: content.chars()
            invariant
                it.seq() == s,
                col + 3 * s.len() <= usize::MAX,
                0 <= it.index() <= s.len(),
                width == prefix_width(s, it.index() as int),
                width <= 3 * it.index(),
                self.wf(),
                self.dims() == old(self).dims(),
                self.cursor() == old(self).cursor(),
                self.cursor_shown() == old(self).cursor_shown(),
                self.reliable() == old(self).reliable(),
                self.grid() == printed_grid(
                    old(self).grid(),
                    s,
                    attr,
                    row as int,
                    col as int,
                    it.index() as int,
                ),
                forall|j: int|
                    0 <= j < it.index() ==> in_dims(
                        old(self).dims(),
                        row as int,
                        col as int + prefix_width(s, j),
                    ),
        {
            let ghost k = it.index() as int;
            let cw = match char_display_width(ch) {
                Some(w) => w,
                None => 2,
            };
            match self.put_cell(row, col + width, Cell { ch, attr }) {
                Ok(_) => {},
                Err(e) => {
                    proof {
                        let d = old(self).dims();
                        let g0 = old(self).grid();
                        assert(exists|kk: int|
                            0 <= kk < s.len() && self.grid() == printed_grid(
                                g0,
                                s,
                                attr,
                                row as int,
                                col as int,
                                kk,
                            )) by {
                            assert(self.grid() == printed_grid(
                                g0,
                                s,
                                attr,
                                row as int,
                                col as int,
                                k,
                            ));
                        }
                        if old(self).reliable() {
                            assert(!in_dims(d, row as int, col as int + prefix_width(s, k)));
                            assert(exists|kk: int|
                                {
                                    &&& 0 <= kk < s.len()
                                    &&& self.grid() == printed_grid(
                                        g0,
                                        s,
                                        attr,
                                        row as int,
                                        col as int,
                                        kk,
                                    )
                                    &&& !in_dims(d, row as int, col as int + prefix_width(s, kk))
                                    &&& (forall|j: int|
                                        0 <= j < kk ==> in_dims(
                                            d,
                                            row as int,
                                            col as int + prefix_width(s, j),
                                        ))
                                }) by {
                                assert(self.grid() == printed_grid(
                                    g0,
                                    s,
                                    attr,
                                    row as int,
                                    col as int,
                                    k,
                                ));
                                assert(forall|j: int|
                                    0 <= j < k ==> in_dims(
                                        d,
                                        row as int,
                                        col as int + prefix_width(s, j),
                                    ));
                            }
                        }
                    }
                    return Err(e);
                },
            }
            proof {
                assert(prefix_width(s, k + 1) == prefix_width(s, k) + char_width(s[k]));
            }
            width = width + cw;
        }
        Ok(width)
    }

    /// Print `content` from `(row, col)` with the default attribute.
    fn print(&mut self, row: usize, col: usize, content: &str) -> (r: Result<usize, CanvasError>)
        requires
            old(self).wf(),
            col + 3 * content@.len() <= usize::MAX,
        ensures
            final(self).wf(),
            final(self).dims() == old(self).dims(),
            final(self).cursor() == old(self).cursor(),
            final(self).cursor_shown() == old(self).cursor_shown(),
            final(self).reliable() == old(self).reliable(),
            print_post(
                old(self).grid(),
                final(self).grid(),
                old(self).dims(),
                old(self).reliable(),
                row as int,
                col as int,
                content@,
                default_attr(),
                r,
            ),
    {
        self.print_with_attr(row, col, content, Attr::default())
    }
}

/// A rectangular window `(top, left, width, height)` of a parent canvas,
/// presented as an independent canvas whose coordinates start at `(0, 0)`.
/// Every coordinate a caller hands in is bounds-checked against the window
/// and translated by `(top, left)` before it reaches the parent; the window
/// holds no cell storage of its own. The adapter takes the parent by value,
/// so it holds exclusive access for its whole lifetime; nesting is allowed,
/// a window may wrap another window.
pub struct BoundedCanvas<C: Canvas> {
    pub canvas: C,
    pub top: usize,
    pub left: usize,
    pub width: usize,
    pub height: usize,
}

impl<C: Canvas> BoundedCanvas<C> {
    /// Wrap `canvas`, exposing only the window of `width` columns and
    /// `height` rows whose corner lies at `(top, left)` in the parent's
    /// coordinates. The two sums are bounded only so that translated
    /// coordinates fit the machine's integer range.
    pub fn new(top: usize, left: usize, width: usize, height: usize, canvas: C) -> (r: Self)
        requires
            canvas.wf(),
            top + height <= usize::MAX,
            left + width <= usize::MAX,
        ensures
            r == (BoundedCanvas { canvas, top, left, width, height }),
            r.wf(),
    {
        Self { canvas, top, left, width, height }
    }
}

impl<C: Canvas> Canvas for BoundedCanvas<C> {
    open spec fn wf(&self) -> bool {
        &&& self.canvas.wf()
        &&& self.top + self.height <= usize::MAX
        &&& self.left + self.width <= usize::MAX
    }

    open spec fn dims(&self) -> (nat, nat) {
        (self.width as nat, self.height as nat)
    }

    open spec fn grid(&self) -> Map<(int, int), Cell> {
        Map::new(
            |p: (int, int)| true,
            |p: (int, int)| self.canvas.grid()[(p.0 + self.top, p.1 + self.left)],
        )
    }

    open spec fn cursor(&self) -> (int, int) {
        (self.canvas.cursor().0 - self.top, self.canvas.cursor().1 - self.left)
    }

    open spec fn cursor_shown(&self) -> bool {
        self.canvas.cursor_shown()
    }

    open spec fn reliable(&self) -> bool {
        &&& self.canvas.reliable()
        &&& self.top + self.height <= self.canvas.dims().1
        &&& self.left + self.width <= self.canvas.dims().0
    }

    /// The window's own size, never the parent's: callers of a bounded
    /// canvas never observe the parent's true dimensions, and the query
    /// cannot fail.
    fn size(&self) -> (r: Result<(usize, usize), CanvasError>)
        ensures
            r == Ok::<(usize, usize), CanvasError>((self.width, self.height)),
    {
        Ok((self.width, self.height))
    }

    /// Best-effort reset of the window, cell by cell through the window's
    /// own `put_cell`: a failure on one cell is swallowed rather than
    /// aborting the clear, so the call itself always succeeds, and cells of
    /// the parent outside the window are never touched.
    fn clear(&mut self) -> (r: Result<(), CanvasError>)
        ensures
            r is Ok,
            final(self).top == old(self).top,
            final(self).left == old(self).left,
            final(self).width == old(self).width,
            final(self).height == old(self).height,
            final(self).canvas.dims() == old(self).canvas.dims(),
            final(self).canvas.cursor() == old(self).canvas.cursor(),
            final(self).canvas.cursor_shown() == old(self).canvas.cursor_shown(),
            final(self).canvas.reliable() == old(self).canvas.reliable(),
            forall|q: (int, int)|
                !(old(self).top <= q.0 < old(self).top + old(self).height && old(self).left <= q.1
                    < old(self).left + old(self).width) ==> #[trigger] final(self).canvas.grid()[q]
                    == old(self).canvas.grid()[q],
    {
        let ghost g0 = self.grid();
        let height = self.height;
        let width = self.width;
        for row in 0..height
            invariant
                height == self.height,
                width == self.width,
                self.wf(),
                self.top == old(self).top,
                self.left == old(self).left,
                self.width == old(self).width,
                self.height == old(self).height,
                self.canvas.dims() == old(self).canvas.dims(),
                self.canvas.cursor() == old(self).canvas.cursor(),
                self.canvas.cursor_shown() == old(self).canvas.cursor_shown(),
                self.canvas.reliable() == old(self).canvas.reliable(),
                g0 == old(self).grid(),
                forall|p: (int, int)|
                    0 <= p.0 < row && 0 <= p.1 < width ==> (#[trigger] self.grid()[p]
                        == empty_cell() || self.grid()[p] == g0[p]),
                forall|p: (int, int)|
                    !(0 <= p.0 < row && 0 <= p.1 < width) ==> #[trigger] self.grid()[p] == g0[p],
                old(self).reliable() ==> (forall|p: (int, int)|
                    0 <= p.0 < row && 0 <= p.1 < width ==> #[trigger] self.grid()[p]
                        == empty_cell()),
        {
            for col in 0..width
                invariant
                    height == self.height,
                    width == self.width,
                    row < height,
                    self.wf(),
                    self.top == old(self).top,
                    self.left == old(self).left,
                    self.width == old(self).width,
                    self.height == old(self).height,
                    self.canvas.dims() == old(self).canvas.dims(),
                    self.canvas.cursor() == old(self).canvas.cursor(),
                    self.canvas.cursor_shown() == old(self).canvas.cursor_shown(),
                    self.canvas.reliable() == old(self).canvas.reliable(),
                    g0 == old(self).grid(),
                    forall|p: (int, int)|
                        (0 <= p.0 < row && 0 <= p.1 < width) || (p.0 == row && 0 <= p.1 < col) ==> (
                        #[trigger] self.grid()[p] == empty_cell() || self.grid()[p] == g0[p]),
                    forall|p: (int, int)|
                        !((0 <= p.0 < row && 0 <= p.1 < width) || (p.0 == row && 0 <= p.1 < col))
                            ==> #[trigger] self.grid()[p] == g0[p],
                    old(self).reliable() ==> (forall|p: (int, int)|
                        (0 <= p.0 < row && 0 <= p.1 < width) || (p.0 == row && 0 <= p.1 < col)
                            ==> #[trigger] self.grid()[p] == empty_cell()),
            {
                let _ = self.put_cell(row, col, Cell::empty());
            }
        }
        proof {
            assert forall|q: (int, int)|
                !(old(self).top <= q.0 < old(self).top + old(self).height && old(self).left <= q.1
                    < old(self).left + old(self).width) implies #[trigger] self.canvas.grid()[q]
                == old(self).canvas.grid()[q] by {
                let p = (q.0 - old(self).top as int, q.1 - old(self).left as int);
                assert(self.grid()[p] == g0[p]);
                assert(self.grid()[p] == self.canvas.grid()[q]);
                assert(g0[p] == old(self).canvas.grid()[q]);
            }
        }
        Ok(())
    }

    /// Rejects a coordinate outside the window with `OutOfBounds`, naming
    /// the offending coordinate and leaving every canvas untouched;
    /// otherwise writes through to the parent at `(row + top, col + left)`
    /// and returns whatever width the parent reports. A successful write
    /// through the window changes the parent exactly as the same write made
    /// directly on the parent at the translated coordinate would.
    fn put_cell(&mut self, row: usize, col: usize, cell: Cell) -> (r: Result<usize, CanvasError>)
        ensures
            final(self).top == old(self).top,
            final(self).left == old(self).left,
            final(self).width == old(self).width,
            final(self).height == old(self).height,
            row >= old(self).height || col >= old(self).width ==> r == Err::<usize, CanvasError>(
                CanvasError::OutOfBounds { row, col },
            ) && *final(self) == *old(self),
            r is Ok ==> final(self).canvas.grid() == old(self).canvas.grid().insert(
                (row + old(self).top, col + old(self).left),
                cell,
            ),
            final(self).canvas.dims() == old(self).canvas.dims(),
            final(self).canvas.cursor() == old(self).canvas.cursor(),
            final(self).canvas.cursor_shown() == old(self).canvas.cursor_shown(),
            final(self).canvas.reliable() == old(self).canvas.reliable(),
    {
        if row >= self.height || col >= self.width {
            return Err(CanvasError::OutOfBounds { row, col });
        }
        let r = self.canvas.put_cell(row + self.top, col + self.left, cell);
        proof {
            if r is Ok {
                assert(self.grid() =~= old(self).grid().insert((row as int, col as int), cell));
            } else {
                assert(self.grid() =~= old(self).grid());
            }
        }
        r
    }

    /// Bounds-checks and translates exactly as `put_cell` does, then moves
    /// the parent's cursor.
    fn set_cursor(&mut self, row: usize, col: usize) -> (r: Result<(), CanvasError>)
        ensures
            final(self).top == old(self).top,
            final(self).left == old(self).left,
            final(self).width == old(self).width,
            final(self).height == old(self).height,
            row >= old(self).height || col >= old(self).width ==> r == Err::<(), CanvasError>(
                CanvasError::OutOfBounds { row, col },
            ) && *final(self) == *old(self),
            final(self).canvas.dims() == old(self).canvas.dims(),
            final(self).canvas.reliable() == old(self).canvas.reliable(),
            r is Ok ==> final(self).canvas.cursor() == (
                row + old(self).top as int,
                col + old(self).left as int,
            ),
    {
        if row >= self.height || col >= self.width {
            return Err(CanvasError::OutOfBounds { row, col });
        }
        let r = self.canvas.set_cursor(row + self.top, col + self.left);
        proof {
            if r is Ok {
                assert(self.grid() =~= old(self).grid());
            }
        }
        r
    }

    /// Passed straight through to the parent: cursor visibility is not a
    /// spatial property, so nothing is translated or bounds-checked.
    fn show_cursor(&mut self, show: bool) -> (r: Result<(), CanvasError>)
        ensures
            final(self).top == old(self).top,
            final(self).left == old(self).left,
            final(self).width == old(self).width,
            final(self).height == old(self).height,
            final(self).canvas.dims() == old(self).canvas.dims(),
            final(self).canvas.reliable() == old(self).canvas.reliable(),
    {
        let r = self.canvas.show_cursor(show);
        proof {
            if r is Ok {
                assert(self.grid() =~= old(self).grid());
            }
        }
        r
    }
}

/// Nesting composes: a bounded canvas built from another bounded canvas
/// observes and affects the innermost parent exactly as a single bounded
/// canvas would whose offsets are the sums of the two offsets and whose
/// window is the innermost window; and when the nested pair is reliable, so
/// is the flat window.
pub proof fn lemma_nested_bounds_compose<C: Canvas>(
    nested: BoundedCanvas<BoundedCanvas<C>>,
    flat: BoundedCanvas<C>,
)
    requires
        flat.canvas == nested.canvas.canvas,
        flat.top as int == nested.top as int + nested.canvas.top as int,
        flat.left as int == nested.left as int + nested.canvas.left as int,
        flat.width == nested.width,
        flat.height == nested.height,
    ensures
        nested.dims() == flat.dims(),
        nested.grid() == flat.grid(),
        nested.cursor() == flat.cursor(),
        nested.cursor_shown() == flat.cursor_shown(),
        nested.reliable() ==> flat.reliable(),
{
    assert forall|p: (int, int)| nested.grid()[p] == flat.grid()[p] by {
        assert(nested.grid()[p] == nested.canvas.grid()[
            (p.0 + nested.top, p.1 + nested.left)]);
        assert(nested.canvas.grid()[(p.0 + nested.top, p.1 + nested.left)] == flat.canvas.grid()[
            (p.0 + nested.top + nested.canvas.top, p.1 + nested.left + nested.canvas.left)]);
    }
    assert(nested.grid() =~= flat.grid());
}

/// Printing never touches a cell that no character of the printed prefix
/// lands on.
pub proof fn lemma_print_frame(
    g: Map<(int, int), Cell>,
    s: Seq<char>,
    attr: Attr,
    row: int,
    col: int,
    k: int,
    p: (int, int),
)
    requires
        0 <= k <= s.len(),
        forall|i: int| 0 <= i < k ==> p != (row, col + prefix_width(s, i)),
    ensures
        printed_grid(g, s, attr, row, col, k)[p] == g[p],
    decreases k,
{
    if k > 0 {
        lemma_print_frame(g, s, attr, row, col, k - 1, p);
    }
}

/// When every printed character is at least one column wide, the layout
/// positions are strictly increasing, so each character is the only one to
/// land on its cell, and printing leaves exactly that character there.
pub proof fn lemma_print_cell(
    g: Map<(int, int), Cell>,
    s: Seq<char>,
    attr: Attr,
    row: int,
    col: int,
    k: int,
    i: int,
)
    requires
        0 <= i < k <= s.len(),
        forall|j: int| 0 <= j < k ==> char_width(s[j]) >= 1,
    ensures
        printed_grid(g, s, attr, row, col, k)[(row, col + prefix_width(s, i))] == cell_of(
            s,
            attr,
            i,
        ),
    decreases k,
{
    if i == k - 1 {
    } else {
        lemma_print_cell(g, s, attr, row, col, k - 1, i);
        crate::width::lemma_prefix_width_strict_mono(s, i, k - 1);
    }
}

/// Printing a string of only narrow characters of length `n` from
/// `(row, col)` writes exactly the `n` cells at columns `col .. col + n` —
/// the cell `i` columns in holding character `i` — touches no other cell,
/// and the total printed width is `n`, the character count.
pub proof fn lemma_print_narrow(
    g: Map<(int, int), Cell>,
    s: Seq<char>,
    attr: Attr,
    row: int,
    col: int,
)
    requires
        forall|i: int| 0 <= i < s.len() ==> char_width(s[i]) == 1,
    ensures
        total_width(s) == s.len(),
        forall|i: int|
            0 <= i < s.len() ==> printed_grid(g, s, attr, row, col, s.len() as int)[(row, col + i)]
                == cell_of(s, attr, i),
        forall|p: (int, int)|
            !(p.0 == row && col <= p.1 < col + s.len()) ==> #[trigger] printed_grid(
                g,
                s,
                attr,
                row,
                col,
                s.len() as int,
            )[p] == g[p],
{
    let n = s.len() as int;
    crate::width::lemma_narrow_prefix_width(s, n);
    assert forall|i: int| 0 <= i < n implies printed_grid(g, s, attr, row, col, n)[(row, col + i)]
        == cell_of(s, attr, i) by {
        crate::width::lemma_narrow_prefix_width(s, i);
        lemma_print_cell(g, s, attr, row, col, n, i);
    }
    assert forall|p: (int, int)|
        !(p.0 == row && col <= p.1 < col + s.len()) implies #[trigger] printed_grid(
        g,
        s,
        attr,
        row,
        col,
        n,
    )[p] == g[p] by {
        assert forall|i: int| 0 <= i < n implies p != (row, col + prefix_width(s, i)) by {
            crate::width::lemma_narrow_prefix_width(s, i);
        }
        lemma_print_frame(g, s, attr, row, col, n, p);
    }
}

/// Printing one wide character (two columns) followed by one narrow
/// character (one column): the wide character occupies the starting cell
/// but advances the layout by two columns, so the narrow character lands
/// two columns after it, nothing else is touched, and the total printed
/// width is three.
pub proof fn lemma_print_wide_then_narrow(
    g: Map<(int, int), Cell>,
    s: Seq<char>,
    attr: Attr,
    row: int,
    col: int,
)
    requires
        s.len() == 2,
        char_width(s[0]) == 2,
        char_width(s[1]) == 1,
    ensures
        total_width(s) == 3,
        printed_grid(g, s, attr, row, col, 2)[(row, col)] == cell_of(s, attr, 0),
        printed_grid(g, s, attr, row, col, 2)[(row, col + 2)] == cell_of(s, attr, 1),
        forall|p: (int, int)|
            p != (row, col) && p != (row, col + 2int) ==> #[trigger] printed_grid(
                g,
                s,
                attr,
                row,
                col,
                2,
            )[p] == g[p],
{
    crate::width::lemma_wide_then_narrow(s);
    lemma_print_cell(g, s, attr, row, col, 2, 0);
    lemma_print_cell(g, s, attr, row, col, 2, 1);
    assert forall|p: (int, int)| p != (row, col) && p != (row, col + 2int) implies #[trigger]
    printed_grid(g, s, attr, row, col, 2)[p] == g[p] by {
        assert forall|i: int| 0 <= i < 2 implies p != (row, col + prefix_width(s, i)) by {
            if i == 0 {
                assert(prefix_width(s, 0) == 0);
            } else {
                assert(prefix_width(s, 1) == 2);
            }
        }
        lemma_print_frame(g, s, attr, row, col, 2, p);
    }
}

} // verus!

use tuikit::buffer::BufferCanvas;
use tuikit::canvas::{BoundedCanvas, Canvas, CanvasError};
use tuikit::cell::{Attr, Cell};

fn cell_at(b: &BufferCanvas, row: usize, col: usize) -> Cell {
    b.cells[row * b.width + col]
}

fn empty() -> Cell {
    Cell {
        ch: ' ',
        attr: Attr::default(),
    }
}

#[test]
fn buffer_starts_empty() {
    let b = BufferCanvas::new(4, 3);
    assert_eq!(b.cells.len(), 12);
    for row in 0..3 {
        for col in 0..4 {
            assert_eq!(cell_at(&b, row, col), empty());
        }
    }
    assert_eq!(b.size().unwrap(), (4, 3));
}

#[test]
fn put_cell_writes_and_reports_width() {
    let mut b = BufferCanvas::new(10, 5);
    let narrow = Cell {
        ch: 'a',
        attr: Attr { style: 7 },
    };
    let wide = Cell {
        ch: '\u{3042}',
        attr: Attr::default(),
    };
    let control = Cell {
        ch: '\u{1}',
        attr: Attr::default(),
    };
    assert_eq!(b.put_cell(1, 2, narrow).unwrap(), 1);
    assert_eq!(b.put_cell(2, 2, wide).unwrap(), 2);
    assert_eq!(b.put_cell(3, 2, control).unwrap(), 2);
    assert_eq!(cell_at(&b, 1, 2), narrow);
    assert_eq!(cell_at(&b, 2, 2), wide);
    assert_eq!(cell_at(&b, 0, 0), empty());
}

#[test]
fn buffer_rejects_out_of_bounds() {
    let mut b = BufferCanvas::new(4, 3);
    let c = Cell {
        ch: 'x',
        attr: Attr::default(),
    };
    assert_eq!(
        b.put_cell(3, 0, c),
        Err(CanvasError::OutOfBounds { row: 3, col: 0 })
    );
    assert_eq!(
        b.put_cell(0, 4, c),
        Err(CanvasError::OutOfBounds { row: 0, col: 4 })
    );
    assert_eq!(
        b.set_cursor(5, 1),
        Err(CanvasError::OutOfBounds { row: 5, col: 1 })
    );
}

#[test]
fn buffer_clear_resets_all_cells() {
    let mut b = BufferCanvas::new(3, 2);
    let c = Cell {
        ch: 'q',
        attr: Attr { style: 1 },
    };
    for row in 0..2 {
        for col in 0..3 {
            b.put_cell(row, col, c).unwrap();
        }
    }
    b.clear().unwrap();
    for row in 0..2 {
        for col in 0..3 {
            assert_eq!(cell_at(&b, row, col), empty());
        }
    }
}

#[test]
fn cursor_moves_and_toggles() {
    let mut b = BufferCanvas::new(4, 4);
    assert!(!b.cursor_visible);
    b.set_cursor(2, 3).unwrap();
    assert_eq!((b.cursor_row, b.cursor_col), (2, 3));
    assert!(b.cursor_visible);
    b.show_cursor(false).unwrap();
    assert!(!b.cursor_visible);
    assert_eq!((b.cursor_row, b.cursor_col), (2, 3));
}

#[test]
fn bounded_size_is_window_size() {
    let b = BufferCanvas::new(80, 24);
    let bc = BoundedCanvas::new(2, 3, 10, 4, b);
    assert_eq!(bc.size().unwrap(), (10, 4));
}

#[test]
fn bounded_write_equals_direct_parent_write() {
    let c = Cell {
        ch: 'z',
        attr: Attr { style: 9 },
    };
    let mut bc = BoundedCanvas::new(2, 3, 10, 4, BufferCanvas::new(20, 10));
    bc.put_cell(1, 2, c).unwrap();

    let mut direct = BufferCanvas::new(20, 10);
    direct.put_cell(3, 5, c).unwrap();

    assert_eq!(bc.canvas.cells, direct.cells);
}

#[test]
fn bounded_rejects_out_of_window_and_leaves_parent_alone() {
    let c = Cell {
        ch: 'x',
        attr: Attr::default(),
    };
    let mut bc = BoundedCanvas::new(2, 3, 10, 4, BufferCanvas::new(20, 10));
    let before = bc.canvas.cells.clone();
    assert_eq!(
        bc.put_cell(4, 0, c),
        Err(CanvasError::OutOfBounds { row: 4, col: 0 })
    );
    assert_eq!(
        bc.put_cell(0, 10, c),
        Err(CanvasError::OutOfBounds { row: 0, col: 10 })
    );
    assert_eq!(
        bc.set_cursor(4, 0),
        Err(CanvasError::OutOfBounds { row: 4, col: 0 })
    );
    assert_eq!(bc.canvas.cells, before);
    assert_eq!((bc.canvas.cursor_row, bc.canvas.cursor_col), (0, 0));
}

#[test]
fn bounded_cursor_is_translated() {
    let mut bc = BoundedCanvas::new(2, 3, 10, 4, BufferCanvas::new(20, 10));
    bc.set_cursor(1, 2).unwrap();
    assert_eq!((bc.canvas.cursor_row, bc.canvas.cursor_col), (3, 5));
    assert!(bc.canvas.cursor_visible);
    bc.show_cursor(false).unwrap();
    assert!(!bc.canvas.cursor_visible);
}

#[test]
fn bounded_clear_empties_window_and_nothing_else() {
    let c = Cell {
        ch: 'x',
        attr: Attr { style: 2 },
    };
    let mut parent = BufferCanvas::new(8, 6);
    for row in 0..6 {
        for col in 0..8 {
            parent.put_cell(row, col, c).unwrap();
        }
    }
    let mut bc = BoundedCanvas::new(2, 3, 4, 3, parent);
    bc.clear().unwrap();
    let b = &bc.canvas;
    for row in 0..6 {
        for col in 0..8 {
            let inside = (2..5).contains(&row) && (3..7).contains(&col);
            if inside {
                assert_eq!(cell_at(b, row, col), empty());
            } else {
                assert_eq!(cell_at(b, row, col), c);
            }
        }
    }
}

#[test]
fn nested_windows_compose_offsets() {
    let c = Cell {
        ch: 'n',
        attr: Attr::default(),
    };
    let inner = BoundedCanvas::new(2, 3, 10, 6, BufferCanvas::new(20, 12));
    let mut nested = BoundedCanvas::new(1, 1, 4, 3, inner);
    assert_eq!(nested.size().unwrap(), (4, 3));
    nested.put_cell(0, 0, c).unwrap();
    assert_eq!(cell_at(&nested.canvas.canvas, 3, 4), c);

    let mut flat = BoundedCanvas::new(3, 4, 4, 3, BufferCanvas::new(20, 12));
    flat.put_cell(0, 0, c).unwrap();
    assert_eq!(nested.canvas.canvas.cells, flat.canvas.cells);

    assert_eq!(
        nested.put_cell(3, 0, c),
        Err(CanvasError::OutOfBounds { row: 3, col: 0 })
    );
}

#[test]
fn print_narrow_string_fills_consecutive_cells() {
    let mut b = BufferCanvas::new(10, 3);
    let width = b.print(1, 2, "abc").unwrap();
    assert_eq!(width, 3);
    assert_eq!(cell_at(&b, 1, 2).ch, 'a');
    assert_eq!(cell_at(&b, 1, 3).ch, 'b');
    assert_eq!(cell_at(&b, 1, 4).ch, 'c');
    assert_eq!(cell_at(&b, 1, 5), empty());
    assert_eq!(cell_at(&b, 1, 1), empty());
    assert_eq!(cell_at(&b, 0, 2), empty());
}

#[test]
fn print_wide_then_narrow_advances_two_columns() {
    let mut b = BufferCanvas::new(10, 2);
    let width = b.print(0, 1, "\u{3042}b").unwrap();
    assert_eq!(width, 3);
    assert_eq!(cell_at(&b, 0, 1).ch, '\u{3042}');
    assert_eq!(cell_at(&b, 0, 2), empty());
    assert_eq!(cell_at(&b, 0, 3).ch, 'b');
    assert_eq!(cell_at(&b, 0, 4), empty());
}

#[test]
fn print_with_attr_shares_one_attribute() {
    let mut b = BufferCanvas::new(10, 2);
    let attr = Attr { style: 5 };
    let width = b.print_with_attr(0, 0, "hi", attr).unwrap();
    assert_eq!(width, 2);
    assert_eq!(cell_at(&b, 0, 0), Cell { ch: 'h', attr });
    assert_eq!(cell_at(&b, 0, 1), Cell { ch: 'i', attr });
}

#[test]
fn put_ch_with_attr_builds_the_cell() {
    let mut b = BufferCanvas::new(4, 4);
    let attr = Attr { style: 3 };
    let width = b.put_ch_with_attr(2, 1, 'y', attr).unwrap();
    assert_eq!(width, 1);
    assert_eq!(cell_at(&b, 2, 1), Cell { ch: 'y', attr });
}

#[test]
fn print_past_the_edge_fails_and_does_not_wrap() {
    let mut bc = BoundedCanvas::new(0, 0, 2, 2, BufferCanvas::new(10, 10));
    let r = bc.print(0, 0, "abc");
    assert_eq!(r, Err(CanvasError::OutOfBounds { row: 0, col: 2 }));
    let b = &bc.canvas;
    assert_eq!(cell_at(b, 0, 0).ch, 'a');
    assert_eq!(cell_at(b, 0, 1).ch, 'b');
    assert_eq!(cell_at(b, 0, 2), empty());
    for col in 0..10 {
        assert_eq!(cell_at(b, 1, col), empty());
    }
}

#[test]
fn print_aborts_at_first_failure() {
    let mut bc = BoundedCanvas::new(0, 0, 3, 1, BufferCanvas::new(10, 10));
    let r = bc.print(0, 2, "ab");
    assert_eq!(r, Err(CanvasError::OutOfBounds { row: 0, col: 3 }));
    let b = &bc.canvas;
    assert_eq!(cell_at(b, 0, 2).ch, 'a');
    assert_eq!(cell_at(b, 0, 3), empty());
}

#[test]
fn wide_character_needs_room_for_its_own_cell_only() {
    let mut b = BufferCanvas::new(4, 1);
    let width = b.print(0, 3, "\u{3042}").unwrap();
    assert_eq!(width, 2);
    assert_eq!(cell_at(&b, 0, 3).ch, '\u{3042}');
}

#[test]
fn control_character_falls_back_to_width_two() {
    let mut b = BufferCanvas::new(10, 1);
    let width = b.print(0, 0, "\u{1}b").unwrap();
    assert_eq!(width, 3);
    assert_eq!(cell_at(&b, 0, 0).ch, '\u{1}');
    assert_eq!(cell_at(&b, 0, 2).ch, 'b');
}

#[test]
fn empty_print_writes_nothing() {
    let mut b = BufferCanvas::new(4, 2);
    let width = b.print(1, 1, "").unwrap();
    assert_eq!(width, 0);
    for row in 0..2 {
        for col in 0..4 {
            assert_eq!(cell_at(&b, row, col), empty());
        }
    }
}

#[test]
fn cell_empty_matches_default() {
    assert_eq!(Cell::empty(), Cell::default());
    assert_eq!(Cell::empty().ch, ' ');
    assert_eq!(Cell::empty().attr, Attr::default());
}

use rush::grid::GridModel;

fn small_grid() -> GridModel {
    // Viewport 30x50 with cell pitch 10x25: 2 rows, 3 columns.
    GridModel::new(30, 50, 10, 25).unwrap()
}

#[test]
fn new_model_shape() {
    let m = small_grid();
    assert_eq!(m.grid.rows, 2);
    assert_eq!(m.grid.cols, 3);
    assert_eq!(m.buffer.len(), 0);
    assert_eq!(m.display_offset, 0);
    assert_eq!(m.next_cell, (0, 0));
}

#[test]
fn new_rejects_zero_dimensions() {
    assert!(GridModel::new(0, 50, 10, 25).is_err());
    assert!(GridModel::new(30, 0, 10, 25).is_err());
    assert!(GridModel::new(30, 50, 0, 25).is_err());
    assert!(GridModel::new(30, 50, 10, 0).is_err());
}

#[test]
fn new_clamps_to_one_cell() {
    // Viewport smaller than one cell still yields a 1x1 grid.
    let m = GridModel::new(5, 5, 10, 25).unwrap();
    assert_eq!(m.grid.rows, 1);
    assert_eq!(m.grid.cols, 1);
}

#[test]
fn boundary_scroll_scenario() {
    // 2x3 grid (6 cells): the seventh character triggers exactly one scroll
    // and the visible render shows the last four characters.
    let mut m = small_grid();
    for c in "ABCDEFG".chars() {
        m.append(c);
    }
    let cells = m.render_pass_cells();
    assert_eq!(m.display_offset, 3);
    assert_eq!(
        cells,
        vec![('D', 0, 0), ('E', 0, 1), ('F', 0, 2), ('G', 1, 0)]
    );
    assert_eq!(m.get_next_cell(), (1, 1));
}

#[test]
fn append_delete_round_trip() {
    let mut m = small_grid();
    m.append('a');
    m.append('b');
    let _ = m.render_pass_cells();
    let buffer_before = m.buffer.clone();
    let next_before = m.get_next_cell();
    m.append('c');
    m.delete_last();
    let _ = m.render_pass_cells();
    assert_eq!(m.buffer, buffer_before);
    assert_eq!(m.get_next_cell(), next_before);
}

#[test]
fn render_pass_idempotent() {
    let mut m = small_grid();
    for c in "ABCDEFG".chars() {
        m.append(c);
    }
    let first = m.render_pass_cells();
    let offset_first = m.display_offset;
    let next_first = m.get_next_cell();
    let second = m.render_pass_cells();
    assert_eq!(second, first);
    assert_eq!(m.display_offset, offset_first);
    assert_eq!(m.get_next_cell(), next_first);
}

#[test]
fn delete_on_empty_is_no_op() {
    let mut m = small_grid();
    m.delete_last();
    assert_eq!(m.buffer.len(), 0);
    m.append('x');
    m.delete_last();
    m.delete_last();
    assert_eq!(m.buffer.len(), 0);
}

#[test]
fn scroll_keeps_offset_row_aligned() {
    // After every append-then-pass step the offset stays a multiple of the
    // column count and the visible text fits the grid plus the cursor cell.
    let mut m = small_grid();
    for i in 0..25u32 {
        m.append(char::from(b'a' + (i % 26) as u8));
        let _ = m.render_pass_cells();
        assert_eq!(m.display_offset % m.grid.cols, 0);
        assert!(m.buffer.len() - m.display_offset <= m.grid.rows * m.grid.cols + 1);
    }
}

#[test]
fn resize_scenario() {
    // Viewport 800x600 with cell pitch 10x25: 80 columns, 24 rows; halving
    // the width recomputes the columns and leaves the buffer untouched.
    let mut m = GridModel::new(800, 600, 10, 25).unwrap();
    assert_eq!(m.grid.cols, 80);
    assert_eq!(m.grid.rows, 24);
    m.append('z');
    m.resize(400, 600);
    assert_eq!(m.grid.cols, 40);
    assert_eq!(m.grid.rows, 24);
    assert_eq!(m.buffer, vec!['z']);
    assert_eq!(m.grid.cell_width, 10);
    assert_eq!(m.grid.cell_height, 25);
}

#[test]
fn resize_reflows_cursor_on_next_pass() {
    // Same content lands on different cells once the column count changes.
    let mut m = GridModel::new(40, 50, 10, 25).unwrap();
    assert_eq!(m.grid.cols, 4);
    for c in "abcde".chars() {
        m.append(c);
    }
    let _ = m.render_pass_cells();
    assert_eq!(m.get_next_cell(), (1, 1));
    m.resize(20, 50);
    assert_eq!(m.grid.cols, 2);
    let cells = m.render_pass_cells();
    // 5 visible characters on a 2x2 grid overflow: one row scrolls off.
    assert_eq!(m.display_offset, 2);
    assert_eq!(cells, vec![('c', 0, 0), ('d', 0, 1), ('e', 1, 0)]);
    assert_eq!(m.get_next_cell(), (1, 1));
}

use yeehaw::table::{
    cell_positions, max_height_for_row, max_width_for_column, sizes_for, table_line_plan, LineKind, LineOp,
    TableCells, TableDimension, TableLines, TrimSide,
};

#[test]
fn table_rows_columns_and_elements() {
    let mut t: TableCells<&str> = TableCells::new();
    t.set_row(0, vec!["name", "age"]);
    t.set_rows(1, vec![vec!["ann", "31"], vec!["bob"]]);
    assert_eq!(t.cells.len(), 3);
    assert_eq!(t.cells[2], vec![Some("bob")]);
    t.set_element(4, 2, "x");
    assert_eq!(t.cells.len(), 5);
    assert_eq!(t.cells[3], vec![]);
    assert_eq!(t.cells[4], vec![None, None, Some("x")]);
    t.set_column(1, vec!["AGE", "32", "40"]);
    assert_eq!(t.cells[0], vec![Some("name"), Some("AGE")]);
    assert_eq!(t.cells[2], vec![Some("bob"), Some("40")]);
    assert_eq!(t.column_count(), 3);
    // setting a shorter row keeps the cells after it
    t.set_row(4, vec!["y"]);
    assert_eq!(t.cells[4], vec![Some("y"), None, Some("x")]);
}

#[test]
fn measured_sizes() {
    let widths = vec![vec![Some(4), Some(2)], vec![Some(3)], vec![None, Some(7)]];
    assert_eq!(max_width_for_column(&widths, 0), 4);
    assert_eq!(max_width_for_column(&widths, 1), 7);
    assert_eq!(max_width_for_column(&widths, 5), 1);
    assert_eq!(max_width_for_column(&vec![vec![None]], 0), 1);
    assert_eq!(max_height_for_row(&widths, 0), 4);
    assert_eq!(max_height_for_row(&widths, 2), 7);
    assert_eq!(max_height_for_row(&widths, 9), 1);
    assert_eq!(max_height_for_row(&vec![vec![]], 0), 1);
}

#[test]
fn dimension_sizes() {
    assert_eq!(sizes_for(&TableDimension::Fixed(3), 2, &vec![9, 9]), vec![3, 3]);
    assert_eq!(sizes_for(&TableDimension::Manual(vec![5, -2]), 4, &vec![0, 0, 0, 0]), vec![5, 1, 1, 1]);
    assert_eq!(sizes_for(&TableDimension::Manual(vec![]), 2, &vec![0, 0]), vec![1, 1]);
    assert_eq!(sizes_for(&TableDimension::Manual(vec![2, 6]), 3, &vec![0, 0, 0]), vec![2, 6, 6]);
    assert_eq!(sizes_for(&TableDimension::Auto, 2, &vec![4, 1]), vec![4, 1]);
}

#[test]
fn positions_with_border_and_lines() {
    let lines = TableLines { border: true, header_line: true, vertical_lines: true, horizontal_lines: false };
    let p = cell_positions(&vec![3, 2], &vec![1, 2, 1], lines);
    assert_eq!(p[0], vec![(1, 4, 1, 2), (5, 7, 1, 2)]);
    // the header line takes the row below the first row
    assert_eq!(p[1], vec![(1, 4, 3, 5), (5, 7, 3, 5)]);
    assert_eq!(p[2][0], (1, 4, 5, 6));
    let plain = TableLines { border: false, header_line: false, vertical_lines: false, horizontal_lines: true };
    let p = cell_positions(&vec![2], &vec![1, 1, 1], plain);
    assert_eq!(p[0][0], (0, 2, 0, 1));
    assert_eq!(p[1][0], (0, 2, 1, 2));
    assert_eq!(p[2][0], (0, 2, 3, 4));
}

#[test]
fn table_lines_with_border() {
    let lines = TableLines { border: true, header_line: true, vertical_lines: true, horizontal_lines: true };
    let r = table_line_plan(&vec![2, 3], &vec![1, 1, 1], lines, 9, 7);
    assert_eq!(r.len(), 96);
    assert_eq!(r[0], LineOp::Put { x: 0, y: 2, kind: LineKind::Header });
    assert_eq!(r[9], LineOp::Put { x: 0, y: 4, kind: LineKind::Horizontal });
    assert_eq!(r[18], LineOp::Overlay { x: 3, y: 0, kind: LineKind::Vertical });
    assert_eq!(r[25], LineOp::Overlay { x: 7, y: 0, kind: LineKind::Vertical });
    assert_eq!(r[32], LineOp::Overlay { x: 0, y: 0, kind: LineKind::BorderHorizontal });
    assert_eq!(r[41], LineOp::Overlay { x: 0, y: 6, kind: LineKind::BorderHorizontal });
    assert_eq!(r[50], LineOp::Overlay { x: 0, y: 0, kind: LineKind::BorderVertical });
    assert_eq!(r[57], LineOp::Overlay { x: 8, y: 0, kind: LineKind::BorderVertical });
    assert_eq!(r[64], LineOp::Trim { x: 0, y: 0, side: TrimSide::Up });
    assert_eq!(r[95], LineOp::Trim { x: 8, y: 6, side: TrimSide::Right });
}

#[test]
fn table_vertical_line_skipped_at_last_row_index() {
    let lines = TableLines { border: false, header_line: false, vertical_lines: true, horizontal_lines: false };
    let r = table_line_plan(&vec![1, 1, 1], &vec![1, 1], lines, 6, 2);
    assert_eq!(
        r,
        vec![
            LineOp::Overlay { x: 1, y: 0, kind: LineKind::Vertical },
            LineOp::Overlay { x: 1, y: 1, kind: LineKind::Vertical },
            LineOp::Overlay { x: 4, y: 0, kind: LineKind::Vertical },
            LineOp::Overlay { x: 4, y: 1, kind: LineKind::Vertical },
        ]
    );
    // no header line: the horizontal lines count from the first row
    let lines = TableLines { border: false, header_line: false, vertical_lines: false, horizontal_lines: true };
    let r = table_line_plan(&vec![1], &vec![2, 3, 1], lines, 2, 9);
    assert_eq!(r, vec![
        LineOp::Put { x: 0, y: 3, kind: LineKind::Horizontal },
        LineOp::Put { x: 1, y: 3, kind: LineKind::Horizontal },
    ]);
}

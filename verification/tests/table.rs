use arq_lib::table::{check_shape, column_widths, render, total_width, RenderError};

fn row(cells: &[&str]) -> Vec<String> {
    cells.iter().map(|c| c.to_string()).collect()
}

#[test]
fn widths_are_the_longest_cell_of_each_column() {
    let widths = column_widths(&row(&["a", "bb"]), &vec![row(&["x", "yyyy"])]);
    assert_eq!(widths, Ok(vec![1, 4]));
}

#[test]
fn every_line_has_the_total_width() {
    let columns = row(&["a", "bb"]);
    let rows = vec![row(&["x", "yyyy"])];
    let widths = column_widths(&columns, &rows).unwrap();
    let total = total_width(&widths).unwrap();
    assert_eq!(total, 12);
    let lines = render(&columns, &rows).unwrap();
    assert_eq!(
        lines,
        vec![
            "------------".to_string(),
            "| a | bb   |".to_string(),
            "============".to_string(),
            "| x | yyyy |".to_string(),
            "------------".to_string(),
        ]
    );
    for line in &lines {
        assert_eq!(line.chars().count(), total);
    }
}

#[test]
fn border_arithmetic() {
    assert_eq!(total_width(&vec![2, 3, 1]), Ok(16));
    let lines = render(&row(&["ab", "cde", "f"]), &vec![]).unwrap();
    assert_eq!(lines[0], "-".repeat(16));
    assert_eq!(lines[1], "| ab | cde | f |");
    assert_eq!(lines[2], "=".repeat(16));
    assert_eq!(lines[3], "-".repeat(16));
}

#[test]
fn total_width_of_one_column() {
    assert_eq!(total_width(&vec![0]), Ok(4));
    assert_eq!(total_width(&vec![7]), Ok(11));
}

#[test]
fn total_width_refuses_no_columns_and_overflow() {
    assert_eq!(total_width(&vec![]), Err(RenderError::NoColumns));
    assert_eq!(total_width(&vec![usize::MAX, 1]), Err(RenderError::TooWide));
    assert_eq!(total_width(&vec![usize::MAX]), Err(RenderError::TooWide));
    assert_eq!(total_width(&vec![usize::MAX - 4]), Ok(usize::MAX));
    assert_eq!(total_width(&vec![usize::MAX - 7, 0]), Ok(usize::MAX));
    assert_eq!(total_width(&vec![usize::MAX - 6, 0]), Err(RenderError::TooWide));
}

#[test]
fn malformed_row_is_rejected() {
    let columns = row(&["a", "b"]);
    let rows = vec![row(&["only-one"])];
    assert_eq!(render(&columns, &rows), Err(RenderError::RowLength(0)));
    assert_eq!(column_widths(&columns, &rows), Err(RenderError::RowLength(0)));
    assert_eq!(check_shape(&columns, &rows), Err(RenderError::RowLength(0)));
}

#[test]
fn the_first_malformed_row_is_named() {
    let columns = row(&["a", "b"]);
    let rows = vec![
        row(&["1", "2"]),
        row(&["1", "2", "3"]),
        row(&[]),
    ];
    assert_eq!(render(&columns, &rows), Err(RenderError::RowLength(1)));
}

#[test]
fn zero_columns_are_rejected() {
    assert_eq!(render(&vec![], &vec![]), Err(RenderError::NoColumns));
    assert_eq!(render(&vec![], &vec![vec![]]), Err(RenderError::NoColumns));
    assert_eq!(render(&vec![], &vec![row(&["x"])]), Err(RenderError::NoColumns));
    assert_eq!(column_widths(&vec![], &vec![]), Err(RenderError::NoColumns));
    assert_eq!(check_shape(&vec![], &vec![]), Err(RenderError::NoColumns));
}

#[test]
fn empty_body_renders_four_lines() {
    let lines = render(&row(&["a"]), &vec![]).unwrap();
    assert_eq!(
        lines,
        vec![
            "-----".to_string(),
            "| a |".to_string(),
            "=====".to_string(),
            "-----".to_string(),
        ]
    );
}

#[test]
fn a_late_wide_cell_widens_every_line() {
    let columns = row(&["s", "p"]);
    let rows = vec![row(&["a", "b"]), row(&["", ""]), row(&["long", "longer"])];
    let lines = render(&columns, &rows).unwrap();
    assert_eq!(
        lines,
        vec![
            "-----------------".to_string(),
            "| s    | p      |".to_string(),
            "=================".to_string(),
            "| a    | b      |".to_string(),
            "|      |        |".to_string(),
            "| long | longer |".to_string(),
            "-----------------".to_string(),
        ]
    );
}

#[test]
fn widths_count_characters_not_bytes() {
    let columns = row(&["é"]);
    let rows = vec![row(&["日本"]), row(&["a"])];
    assert_eq!(column_widths(&columns, &rows), Ok(vec![2]));
    let lines = render(&columns, &rows).unwrap();
    assert_eq!(
        lines,
        vec![
            "------".to_string(),
            "| é  |".to_string(),
            "======".to_string(),
            "| 日本 |".to_string(),
            "| a  |".to_string(),
            "------".to_string(),
        ]
    );
    for line in &lines {
        assert_eq!(line.chars().count(), 6);
    }
}

#[test]
fn empty_header_cell_still_makes_a_column() {
    let lines = render(&row(&[""]), &vec![]).unwrap();
    assert_eq!(
        lines,
        vec!["----".to_string(), "|  |".to_string(), "====".to_string(), "----".to_string()]
    );
}

#[test]
fn well_shaped_input_passes_the_shape_check() {
    assert_eq!(check_shape(&row(&["a"]), &vec![]), Ok(()));
    assert_eq!(check_shape(&row(&["a", "b"]), &vec![row(&["1", "2"])]), Ok(()));
}

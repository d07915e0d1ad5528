use sheet_grid::byte_count_char;
use sheet_grid::FileError;
use sheet_grid::SheetSession;

fn session(content: &[u8]) -> SheetSession {
    SheetSession::new_from_bytes(content.to_vec())
}

#[test]
fn three_rows_full_window() {
    let s = session(b"a,b,c\n1,2,3\n4,5\n");
    assert_eq!(s.total_rows, 3);
    assert_eq!(s.total_cols, 3);
    let rows = s.get_grid_chunk(0, 3, 0, 3);
    assert_eq!(rows.len(), 3);
    assert_eq!(rows[0].index, 0);
    assert_eq!(rows[0].cells.len(), 3);
    assert_eq!(rows[0].cells[0].content, "a");
    assert_eq!(rows[0].cells[1].content, "b");
    assert_eq!(rows[0].cells[2].content, "c");
    assert_eq!(rows[1].index, 1);
    assert_eq!(rows[1].cells[0].content, "1");
    assert_eq!(rows[1].cells[1].content, "2");
    assert_eq!(rows[1].cells[2].content, "3");
    assert_eq!(rows[2].index, 2);
    assert_eq!(rows[2].cells[0].content, "4");
    assert_eq!(rows[2].cells[1].content, "5");
    assert_eq!(rows[2].cells[2].content, "");
}

#[test]
fn empty_file_yields_nothing() {
    let s = session(b"");
    assert_eq!(s.total_rows, 0);
    assert_eq!(s.total_cols, 0);
    assert_eq!(s.get_grid_chunk(0, 5, 0, 5).len(), 0);
    assert_eq!(s.get_header_chunk(0, 5).len(), 0);
}

#[test]
fn truncation_at_total_rows() {
    let s = session(b"a\nb\nc");
    assert_eq!(s.total_rows, 3);
    let rows = s.get_grid_chunk(1, 5, 0, 1);
    assert_eq!(rows.len(), 2);
    assert_eq!(rows[0].index, 1);
    assert_eq!(rows[1].index, 2);
    let exact = s.get_grid_chunk(0, 3, 0, 1);
    assert_eq!(exact.len(), 3);
    let past = s.get_grid_chunk(5, 2, 0, 1);
    assert_eq!(past.len(), 0);
}

#[test]
fn no_trailing_newline_keeps_last_row() {
    let s = session(b"x,y");
    assert_eq!(s.total_rows, 1);
    assert_eq!(s.total_cols, 2);
    let rows = s.get_grid_chunk(0, 1, 0, 2);
    assert_eq!(rows[0].cells[0].content, "x");
    assert_eq!(rows[0].cells[1].content, "y");
}

#[test]
fn trailing_newline_adds_no_phantom_row() {
    let s = session(b"a\n");
    assert_eq!(s.total_rows, 1);
    let rows = s.get_grid_chunk(0, 5, 0, 1);
    assert_eq!(rows.len(), 1);
    assert_eq!(rows[0].cells[0].content, "a");
}

#[test]
fn lone_newline_is_one_empty_row() {
    let s = session(b"\n");
    assert_eq!(s.total_rows, 1);
    assert_eq!(s.total_cols, 1);
    let rows = s.get_grid_chunk(0, 1, 0, 3);
    assert_eq!(rows.len(), 1);
    assert_eq!(rows[0].cells.len(), 0);
}

#[test]
fn empty_line_yields_no_cells() {
    let s = session(b"a\n\nb");
    assert_eq!(s.total_rows, 3);
    let rows = s.get_grid_chunk(0, 3, 0, 2);
    assert_eq!(rows[0].cells.len(), 2);
    assert_eq!(rows[1].cells.len(), 0);
    assert_eq!(rows[2].cells.len(), 2);
    assert_eq!(rows[2].cells[0].content, "b");
    assert_eq!(rows[2].cells[1].content, "");
}

#[test]
fn ragged_row_yields_data_past_total_cols() {
    let s = session(b"a\nb,c,d\n");
    assert_eq!(s.total_cols, 1);
    let rows = s.get_grid_chunk(1, 1, 0, 3);
    assert_eq!(rows[0].cells.len(), 3);
    assert_eq!(rows[0].cells[0].content, "b");
    assert_eq!(rows[0].cells[1].content, "c");
    assert_eq!(rows[0].cells[2].content, "d");
    let headers = s.get_header_chunk(0, 3);
    assert_eq!(headers.len(), 1);
}

#[test]
fn invalid_bytes_become_replacement_markers() {
    let s = session(&[0xff, 0x61, 0x2c, 0x62]);
    let rows = s.get_grid_chunk(0, 1, 0, 2);
    assert_eq!(rows[0].cells[0].content, "\u{fffd}a");
    assert_eq!(rows[0].cells[1].content, "b");
}

#[test]
fn carriage_return_stays_in_last_field() {
    let s = session(b"a,b\r\nc");
    let rows = s.get_grid_chunk(0, 2, 0, 2);
    assert_eq!(rows[0].cells[1].content, "b\r");
    assert_eq!(rows[1].cells[0].content, "c");
}

#[test]
fn degenerate_window_arguments() {
    let s = session(b"a,b\nc,d\n");
    assert_eq!(s.get_grid_chunk(-1, 2, 0, 2).len(), 0);
    assert_eq!(s.get_grid_chunk(0, 0, 0, 2).len(), 0);
    assert_eq!(s.get_grid_chunk(0, -3, 0, 2).len(), 0);
    let rows = s.get_grid_chunk(0, 1, 0, 0);
    assert_eq!(rows.len(), 1);
    assert_eq!(rows[0].cells.len(), 0);
}

#[test]
fn negative_column_start_pads_before_data() {
    let s = session(b"a,b");
    let rows = s.get_grid_chunk(0, 1, -1, 3);
    assert_eq!(rows[0].cells.len(), 3);
    assert_eq!(rows[0].cells[0].content, "");
    assert_eq!(rows[0].cells[1].content, "a");
    assert_eq!(rows[0].cells[2].content, "b");
}

#[test]
fn column_window_slices_and_pads() {
    let s = session(b"a,b,c\nd\n");
    let rows = s.get_grid_chunk(0, 2, 1, 3);
    assert_eq!(rows[0].cells[0].content, "b");
    assert_eq!(rows[0].cells[1].content, "c");
    assert_eq!(rows[0].cells[2].content, "");
    assert_eq!(rows[1].cells[0].content, "");
    assert_eq!(rows[1].cells[1].content, "");
    assert_eq!(rows[1].cells[2].content, "");
}

#[test]
fn repeated_queries_agree() {
    let s = session(b"a,b,c\n1,2,3\n4,5\n");
    let first = s.get_grid_chunk(0, 3, 0, 3);
    let second = s.get_grid_chunk(0, 3, 0, 3);
    assert_eq!(first.len(), second.len());
    for (r1, r2) in first.iter().zip(second.iter()) {
        assert_eq!(r1.index, r2.index);
        assert_eq!(r1.cells.len(), r2.cells.len());
        for (c1, c2) in r1.cells.iter().zip(r2.cells.iter()) {
            assert_eq!(c1.content, c2.content);
        }
    }
}

#[test]
fn byte_count_char_counts_exactly() {
    assert_eq!(byte_count_char(b"a,b,c", b','), 2);
    assert_eq!(byte_count_char(b"", b','), 0);
    assert_eq!(byte_count_char(b",,,", b','), 3);
    assert_eq!(byte_count_char(b"abc", b','), 0);
}

#[test]
fn file_error_variants_are_distinct() {
    assert_eq!(FileError::NotFound, FileError::NotFound);
    assert_ne!(FileError::NotFound, FileError::PermissionDenied);
    assert_ne!(FileError::PermissionDenied, FileError::IOError);
}

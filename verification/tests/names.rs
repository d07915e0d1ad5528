use sheet_grid::number_to_col_name;
use sheet_grid::SheetSession;

#[test]
fn column_names_follow_bijective_base26() {
    assert_eq!(number_to_col_name(0), "A");
    assert_eq!(number_to_col_name(25), "Z");
    assert_eq!(number_to_col_name(26), "AA");
    assert_eq!(number_to_col_name(701), "ZZ");
    assert_eq!(number_to_col_name(702), "AAA");
}

#[test]
fn column_names_cover_more_points() {
    assert_eq!(number_to_col_name(1), "B");
    assert_eq!(number_to_col_name(27), "AB");
    assert_eq!(number_to_col_name(51), "AZ");
    assert_eq!(number_to_col_name(52), "BA");
    assert_eq!(number_to_col_name(18277), "ZZZ");
}

#[test]
fn full_header_window_names_every_column() {
    let s = SheetSession::new_from_bytes(b"x,y,z\n1,2,3\n".to_vec());
    assert_eq!(s.total_cols, 3);
    let headers = s.get_header_chunk(0, 3);
    assert_eq!(headers.len(), 3);
    assert_eq!(headers[0], "A");
    assert_eq!(headers[1], "B");
    assert_eq!(headers[2], "C");
}

#[test]
fn header_window_truncates_at_total_cols() {
    let s = SheetSession::new_from_bytes(b"x,y,z\n".to_vec());
    let headers = s.get_header_chunk(2, 5);
    assert_eq!(headers.len(), 1);
    assert_eq!(headers[0], "C");
    assert_eq!(s.get_header_chunk(3, 5).len(), 0);
}

#[test]
fn header_window_degenerate_arguments() {
    let s = SheetSession::new_from_bytes(b"x,y,z\n".to_vec());
    assert_eq!(s.get_header_chunk(-1, 3).len(), 0);
    assert_eq!(s.get_header_chunk(0, 0).len(), 0);
    assert_eq!(s.get_header_chunk(0, -2).len(), 0);
}

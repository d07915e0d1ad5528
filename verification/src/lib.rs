//! File-backed, line-indexed tabular data accessor.
//!
//! A `SheetSession` maps a delimited text file into memory (or owns a plain
//! byte buffer), builds a one-time index of row start offsets, and then
//! answers rectangular window queries (a range of rows by a range of columns)
//! in time proportional to the window size.

mod col_name;
mod line_index;
mod mapping;
mod session;
mod text;

pub use col_name::col_name;
pub use col_name::number_to_col_name;
pub use line_index::build_line_index;
pub use line_index::lemma_line_starts_properties;
pub use line_index::line_starts;
pub use line_index::row_bytes;
pub use line_index::total_cols_of;
pub use line_index::total_rows_of;
pub use mapping::ByteMapping;
pub use mapping::mmap_bytes;
pub use session::CellData;
pub use session::FileError;
pub use session::RowData;
pub use session::SheetSession;
pub use session::cell_at;
pub use session::cells_view;
pub use session::grid_chunk_model;
pub use session::grid_row_count;
pub use session::grid_view;
pub use session::header_chunk_model;
pub use session::header_count;
pub use session::headers_view;
pub use session::lemma_empty_file;
pub use session::lemma_grid_chunk_deterministic;
pub use session::lemma_grid_chunk_truncation;
pub use session::lemma_header_chunk_full;
pub use session::row_cells_model;
pub use text::byte_count_char;
pub use text::count_byte;

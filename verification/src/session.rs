//! The grid session: one byte mapping, one line index, and the cached row
//! and column totals. After construction everything is frozen, and the two
//! query operations are pure functions of the session state and their
//! arguments.

use vstd::prelude::*;
use crate::col_name::col_name;
use crate::col_name::number_to_col_name;
use crate::line_index::build_line_index;
use crate::line_index::lemma_line_starts_properties;
use crate::line_index::lemma_total_cols_bounds;
use crate::line_index::lemma_total_rows_bounds;
use crate::line_index::line_starts;
use crate::line_index::row_bytes;
use crate::line_index::total_cols_of;
use crate::line_index::total_rows_of;
use crate::mapping::ByteMapping;
use crate::text::byte_count_char;
use crate::text::lossy_string;
use crate::text::lemma_count_byte_bounds;
use crate::text::lossy_decode;
use crate::text::split_bytes;
use crate::text::split_on;

verus! {

/// One cell of a query result.
pub struct CellData {
    pub content: String,
}

/// One row of a query result: the row's index and its cells.
pub struct RowData {
    pub index: i64,
    pub cells: Vec<CellData>,
}

/// The fatal errors of session construction. After a successful open no
/// operation can fail.
#[derive(Clone, Copy, Debug, PartialEq, Eq, Structural)]
pub enum FileError {
    NotFound,
    PermissionDenied,
    IOError,
}

/// The text of a sequence of cells.
pub open spec fn cells_view(cells: Seq<CellData>) -> Seq<Seq<char>> {
    cells.map_values(|c: CellData| c.content@)
}

/// The cell at column `t` of a row whose fields are `fields`: the field
/// itself, lossily decoded, when the row has such a field; the empty string
/// otherwise (padding for short rows).
pub open spec fn cell_at(fields: Seq<Seq<u8>>, t: int) -> Seq<char> {
    if 0 <= t < fields.len() {
        lossy_decode(fields[t])
    } else {
        Seq::empty()
    }
}

/// The cells that a grid query yields for row `row`: an empty row yields no
/// cells at all; otherwise one cell per requested column, padded or real
/// according to the row's own field count (not the global column total).
pub open spec fn row_cells_model(bytes: Seq<u8>, row: int, col_start: int, col_count: int) -> Seq<
    Seq<char>,
>
    recommends
        0 <= row < total_rows_of(bytes),
{
    let rb = row_bytes(bytes, row);
    if rb.len() == 0 {
        Seq::empty()
    } else {
        let fields = split_on(rb, 44u8);
        Seq::new(
            if col_count >= 0 {
                col_count as nat
            } else {
                0nat
            },
            |c: int| cell_at(fields, col_start + c),
        )
    }
}

/// How many rows a grid query yields: at most `row_count`, truncated at the
/// row total; degenerate or out-of-range start values yield none.
pub open spec fn grid_row_count(bytes: Seq<u8>, row_start: int, row_count: int) -> int {
    if row_start < 0 || row_count <= 0 {
        0
    } else if row_start >= total_rows_of(bytes) {
        0
    } else if row_count <= total_rows_of(bytes) - row_start {
        row_count
    } else {
        total_rows_of(bytes) - row_start
    }
}

/// The exact result of a grid query: for each produced row its index and
/// its cell texts.
pub open spec fn grid_chunk_model(
    bytes: Seq<u8>,
    row_start: int,
    row_count: int,
    col_start: int,
    col_count: int,
) -> Seq<(int, Seq<Seq<char>>)> {
    Seq::new(
        grid_row_count(bytes, row_start, row_count) as nat,
        |k: int| (row_start + k, row_cells_model(bytes, row_start + k, col_start, col_count)),
    )
}

/// The model of an executable grid result.
pub open spec fn grid_view(rows: Seq<RowData>) -> Seq<(int, Seq<Seq<char>>)> {
    rows.map_values(|rd: RowData| (rd.index as int, cells_view(rd.cells@)))
}

/// How many names a header query yields: at most `col_count`, truncated at
/// the global column total.
pub open spec fn header_count(total_cols: int, col_start: int, col_count: int) -> int {
    if col_start < 0 || col_count <= 0 {
        0
    } else if col_start >= total_cols {
        0
    } else if col_count <= total_cols - col_start {
        col_count
    } else {
        total_cols - col_start
    }
}

/// The exact result of a header query: the alphabetic names of the visible
/// columns, in order.
pub open spec fn header_chunk_model(total_cols: int, col_start: int, col_count: int) -> Seq<
    Seq<char>,
> {
    Seq::new(
        header_count(total_cols, col_start, col_count) as nat,
        |i: int| col_name(col_start + i),
    )
}

/// The model of an executable header result.
pub open spec fn headers_view(headers: Seq<String>) -> Seq<Seq<char>> {
    headers.map_values(|s: String| s@)
}

/// A session over one frozen byte mapping: the line index and the two
/// totals are computed once, and queries never change any state.
pub struct SheetSession {
    pub total_rows: i64,
    pub total_cols: i64,
    pub mapping: ByteMapping,
    pub row_offsets: Vec<usize>,
}

impl SheetSession {
    /// The bytes of the mapped file.
    pub open spec fn bytes(&self) -> Seq<u8> {
        self.mapping.bytes()
    }

    /// Well-formedness: the line index is exactly the row-start offsets of
    /// the bytes, and the cached totals are the derived row and column
    /// counts. Constructors establish this and queries preserve it.
    pub open spec fn wf(&self) -> bool {
        &&& self.row_offsets@.map_values(|o: usize| o as int) == line_starts(self.bytes())
        &&& self.total_rows == total_rows_of(self.bytes())
        &&& self.total_cols == total_cols_of(self.bytes())
    }

    /// Builds a session over the given mapping: scans it once for row
    /// starts and caches the totals.
    pub fn new_from_mapping(mapping: ByteMapping) -> (r: SheetSession)
        requires
            mapping.bytes().len() < i64::MAX,
        ensures
            r.wf(),
            r.bytes() == mapping.bytes(),
            r.total_rows == total_rows_of(mapping.bytes()),
            r.total_cols == total_cols_of(mapping.bytes()),
    {
        let ghost gbytes = mapping.bytes();
        proof {
            lemma_line_starts_properties(gbytes);
            lemma_total_rows_bounds(gbytes);
        }
        let len: usize = mapping.length();
        let row_offsets = build_line_index(&mapping);
        let n_off: usize = row_offsets.len();
        proof {
            assert(n_off >= 1);
            assert(row_offsets@.map_values(|o: usize| o as int)[n_off - 1] == row_offsets@[n_off
                - 1] as int);
        }
        let total_rows_us: usize = if len == 0 {
            0
        } else if row_offsets[n_off - 1] == len {
            n_off - 1
        } else {
            n_off
        };
        proof {
            assert(total_rows_us as int == total_rows_of(gbytes));
        }
        let total_rows: i64 = total_rows_us as i64;
        let total_cols: i64 = if total_rows == 0 {
            0
        } else {
            proof {
                assert(row_offsets@.map_values(|o: usize| o as int)[0] == row_offsets@[0] as int);
            }
            let end0: usize = if n_off > 1 {
                proof {
                    assert(row_offsets@.map_values(|o: usize| o as int)[1] == row_offsets@[1]
                        as int);
                }
                row_offsets[1] - 1
            } else {
                len
            };
            let row0: Vec<u8> = if end0 == 0 {
                Vec::new()
            } else {
                mapping.slice_vec(0, end0)
            };
            proof {
                assert(row0@ =~= row_bytes(gbytes, 0));
                lemma_count_byte_bounds(row_bytes(gbytes, 0), 44u8);
            }
            byte_count_char(row0.as_slice(), 44) + 1
        };
        SheetSession { total_rows, total_cols, mapping, row_offsets }
    }

    /// Builds a session over an owned byte buffer.
    pub fn new_from_bytes(bytes: Vec<u8>) -> (r: SheetSession)
        requires
            bytes@.len() < i64::MAX,
        ensures
            r.wf(),
            r.bytes() == bytes@,
            r.total_rows == total_rows_of(bytes@),
            r.total_cols == total_cols_of(bytes@),
    {
        Self::new_from_mapping(ByteMapping::Owned(bytes))
    }

    /// Reads the requested window of rows and columns. The result holds at
    /// most `row_count` rows, truncated at the row total; each produced row
    /// carries `col_count` cells (none for an empty row), padded with empty
    /// strings past the row's own field count.
    pub fn get_grid_chunk(
        &self,
        row_start: i64,
        row_count: i32,
        col_start: i64,
        col_count: i32,
    ) -> (r: Vec<RowData>)
        requires
            self.wf(),
        ensures
            r@.len() == grid_row_count(self.bytes(), row_start as int, row_count as int),
            grid_view(r@) == grid_chunk_model(
                self.bytes(),
                row_start as int,
                row_count as int,
                col_start as int,
                col_count as int,
            ),
    {
        let ghost gbytes = self.bytes();
        let ghost model = grid_chunk_model(
            gbytes,
            row_start as int,
            row_count as int,
            col_start as int,
            col_count as int,
        );
        let mut results: Vec<RowData> = Vec::new();
        proof {
            lemma_line_starts_properties(gbytes);
            lemma_total_rows_bounds(gbytes);
        }
        if row_start < 0 || row_count <= 0 || row_start >= self.total_rows {
            proof {
                assert(grid_view(results@) =~= model);
            }
            return results;
        }
        let n: i64 = if (row_count as i64) <= self.total_rows - row_start {
            row_count as i64
        } else {
            self.total_rows - row_start
        };
        let len: usize = self.mapping.length();
        let mut k: i64 = 0;
        while k < n
            invariant
                self.wf(),
                gbytes == self.bytes(),
                len == gbytes.len(),
                0 <= row_start,
                row_start < self.total_rows,
                0 < row_count,
                n == grid_row_count(gbytes, row_start as int, row_count as int),
                row_start + n <= self.total_rows,
                model == grid_chunk_model(
                    gbytes,
                    row_start as int,
                    row_count as int,
                    col_start as int,
                    col_count as int,
                ),
                0 <= k <= n,
                grid_view(results@) == model.subrange(0, k as int),
                results@.len() == k,
            decreases n - k,
        {
            proof {
                lemma_line_starts_properties(gbytes);
                lemma_total_rows_bounds(gbytes);
            }
            let idx: i64 = row_start + k;
            let idx_us: usize = idx as usize;
            proof {
                assert(idx < total_rows_of(gbytes) <= line_starts(gbytes).len());
                assert(self.row_offsets@.map_values(|o: usize| o as int)[idx as int]
                    == self.row_offsets@[idx as int] as int);
                assert(self.row_offsets@.map_values(|o: usize| o as int).len()
                    == self.row_offsets@.len());
            }
            let start_byte: usize = self.row_offsets[idx_us];
            let end_byte: usize = if idx_us + 1 < self.row_offsets.len() {
                proof {
                    assert(self.row_offsets@.map_values(|o: usize| o as int)[idx as int + 1]
                        == self.row_offsets@[idx as int + 1] as int);
                }
                self.row_offsets[idx_us + 1] - 1
            } else {
                len
            };
            let row: RowData = if start_byte >= end_byte {
                proof {
                    assert(row_bytes(gbytes, idx as int).len() == 0);
                }
                RowData { index: idx, cells: Vec::new() }
            } else {
                let line = self.mapping.slice_vec(start_byte, end_byte);
                proof {
                    assert(line@ =~= row_bytes(gbytes, idx as int));
                }
                let fields = split_bytes(&line, 44);
                let ghost fseq = split_on(row_bytes(gbytes, idx as int), 44u8);
                let mut cells: Vec<CellData> = Vec::new();
                let mut c: i32 = 0;
                while c < col_count
                    invariant
                        0 <= c,
                        col_count >= 0 ==> c <= col_count,
                        col_count <= 0 ==> c == 0,
                        fields@.map_values(|f: Vec<u8>| f@) == fseq,
                        cells_view(cells@) == Seq::new(
                            c as nat,
                            |j: int| cell_at(fseq, col_start as int + j),
                        ),
                        cells@.len() == c,
                    decreases col_count - c,
                {
                    let target: i128 = col_start as i128 + c as i128;
                    let ghost t = col_start as int + c as int;
                    let content: String = if 0 <= target && target < fields.len() as i128 {
                        proof {
                            assert(fields@.map_values(|f: Vec<u8>| f@)[target as int]
                                == fields@[target as int]@);
                        }
                        lossy_string(&fields[target as usize])
                    } else {
                        String::new()
                    };
                    proof {
                        assert(content@ == cell_at(fseq, t));
                    }
                    let ghost prev = cells@;
                    cells.push(CellData { content });
                    proof {
                        assert forall|j: int| 0 <= j < c + 1 implies #[trigger] cells_view(
                            cells@,
                        )[j] == cell_at(fseq, col_start as int + j) by {
                            assert(cells_view(cells@)[j] == cells@[j].content@);
                            if j < c {
                                assert(cells@[j] == prev[j]);
                                assert(cells_view(prev)[j] == prev[j].content@);
                            } else {
                                assert(cells@[j].content@ == cell_at(fseq, t));
                            }
                        }
                        assert(cells_view(cells@) =~= Seq::new(
                            (c + 1) as nat,
                            |j: int| cell_at(fseq, col_start as int + j),
                        ));
                    }
                    c = c + 1;
                }
                proof {
                    assert(cells_view(cells@) =~= row_cells_model(
                        gbytes,
                        idx as int,
                        col_start as int,
                        col_count as int,
                    ));
                }
                RowData { index: idx, cells }
            };
            proof {
                assert(cells_view(row.cells@) == row_cells_model(
                    gbytes,
                    idx as int,
                    col_start as int,
                    col_count as int,
                ));
            }
            results.push(row);
            proof {
                assert(grid_view(results@) =~= model.subrange(0, k as int + 1));
            }
            k = k + 1;
        }
        proof {
            assert(model.subrange(0, n as int) =~= model);
        }
        results
    }

    /// Produces the alphabetic names of the requested columns, stopping at
    /// the global column total: the result is short, not padded, when the
    /// window reaches past it.
    pub fn get_header_chunk(&self, col_start: i64, col_count: i32) -> (r: Vec<String>)
        requires
            self.wf(),
        ensures
            r@.len() == header_count(self.total_cols as int, col_start as int, col_count as int),
            headers_view(r@) == header_chunk_model(
                self.total_cols as int,
                col_start as int,
                col_count as int,
            ),
    {
        let ghost model = header_chunk_model(
            self.total_cols as int,
            col_start as int,
            col_count as int,
        );
        let mut headers: Vec<String> = Vec::new();
        proof {
            lemma_total_cols_bounds(self.bytes());
        }
        if col_start < 0 || col_count <= 0 || col_start >= self.total_cols {
            proof {
                assert(headers_view(headers@) =~= model);
            }
            return headers;
        }
        let n: i64 = if (col_count as i64) <= self.total_cols - col_start {
            col_count as i64
        } else {
            self.total_cols - col_start
        };
        let mut i: i64 = 0;
        while i < n
            invariant
                0 <= col_start,
                col_start + n <= self.total_cols,
                n == header_count(self.total_cols as int, col_start as int, col_count as int),
                model == header_chunk_model(
                    self.total_cols as int,
                    col_start as int,
                    col_count as int,
                ),
                0 <= i <= n,
                headers_view(headers@) == model.subrange(0, i as int),
                headers@.len() == i,
            decreases n - i,
        {
            headers.push(number_to_col_name(col_start + i));
            proof {
                assert(headers_view(headers@) =~= model.subrange(0, i as int + 1));
            }
            i = i + 1;
        }
        proof {
            assert(model.subrange(0, n as int) =~= model);
        }
        headers
    }
}

/// Requesting the full header window, from column 0 through the column
/// total, yields exactly one name per column: the alphabetic name of each
/// column in order.
pub proof fn lemma_header_chunk_full(total_cols: int)
    requires
        total_cols >= 0,
    ensures
        header_chunk_model(total_cols, 0, total_cols).len() == total_cols,
        forall|i: int|
            0 <= i < total_cols ==> #[trigger] header_chunk_model(total_cols, 0, total_cols)[i]
                == col_name(i),
{
}

/// A grid query never yields more than `row_count` rows; it yields fewer
/// exactly when the window reaches past the row total, and then it is
/// truncated precisely at the row total: the produced rows are the ones
/// from `row_start` up to the last existing row.
pub proof fn lemma_grid_chunk_truncation(
    bytes: Seq<u8>,
    row_start: int,
    row_count: int,
    col_start: int,
    col_count: int,
)
    requires
        row_start >= 0,
        row_count >= 1,
    ensures
        grid_chunk_model(bytes, row_start, row_count, col_start, col_count).len() <= row_count,
        grid_chunk_model(bytes, row_start, row_count, col_start, col_count).len() < row_count
            <==> row_start + row_count > total_rows_of(bytes),
        row_start <= total_rows_of(bytes) && row_start + row_count > total_rows_of(bytes)
            ==> grid_chunk_model(bytes, row_start, row_count, col_start, col_count).len()
            == total_rows_of(bytes) - row_start,
        forall|k: int|
            0 <= k < grid_chunk_model(bytes, row_start, row_count, col_start, col_count).len()
                ==> (#[trigger] grid_chunk_model(bytes, row_start, row_count, col_start, col_count)[k]).0
                == row_start + k < total_rows_of(bytes),
{
    lemma_total_rows_bounds(bytes);
}

/// An empty file has no rows and no columns, and every query on it yields
/// an empty result.
pub proof fn lemma_empty_file()
    ensures
        total_rows_of(Seq::empty()) == 0,
        total_cols_of(Seq::empty()) == 0,
        forall|rs: int, rc: int, cs: int, cc: int|
            (#[trigger] grid_chunk_model(Seq::empty(), rs, rc, cs, cc)).len() == 0,
        forall|cs: int, cc: int| (#[trigger] header_chunk_model(0, cs, cc)).len() == 0,
{
}

/// Queries are deterministic: two grid results computed from the same
/// session bytes with identical arguments are identical, so concurrent
/// callers of a frozen session always agree.
pub proof fn lemma_grid_chunk_deterministic(
    bytes: Seq<u8>,
    row_start: int,
    row_count: int,
    col_start: int,
    col_count: int,
    r1: Seq<(int, Seq<Seq<char>>)>,
    r2: Seq<(int, Seq<Seq<char>>)>,
)
    requires
        r1 == grid_chunk_model(bytes, row_start, row_count, col_start, col_count),
        r2 == grid_chunk_model(bytes, row_start, row_count, col_start, col_count),
    ensures
        r1 == r2,
{
}

} // verus!

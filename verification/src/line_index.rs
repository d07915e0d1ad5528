//! The line index: one forward scan over the mapped bytes records the byte
//! offset at which each row starts. Queries later resolve a row's end lazily,
//! so a missing trailing line feed still leaves the final row intact.

use vstd::prelude::*;
use crate::mapping::ByteMapping;
use crate::text::count_byte;

verus! {

/// The row-start offsets of `s`: offset 0 is always recorded, and every
/// line-feed byte (0x0A) at position `i` records `i + 1` as the start of the
/// next row.
pub open spec fn line_starts(s: Seq<u8>) -> Seq<int>
    decreases s.len(),
{
    if s.len() == 0 {
        seq![0int]
    } else if s.last() == 10u8 {
        line_starts(s.drop_last()).push(s.len() as int)
    } else {
        line_starts(s.drop_last())
    }
}

/// The line index is never empty, starts at 0, is strictly increasing, never
/// exceeds the buffer length, and each entry is at least its own position.
pub proof fn lemma_line_starts_properties(s: Seq<u8>)
    ensures
        line_starts(s).len() >= 1,
        line_starts(s)[0] == 0,
        forall|i: int, j: int|
            0 <= i < j < line_starts(s).len() ==> line_starts(s)[i] < line_starts(s)[j],
        forall|i: int| 0 <= i < line_starts(s).len() ==> i <= #[trigger] line_starts(s)[i] <= s.len(),
    decreases s.len(),
{
    if s.len() > 0 {
        lemma_line_starts_properties(s.drop_last());
        let prev = line_starts(s.drop_last());
        assert(prev.len() - 1 <= prev[prev.len() - 1] <= s.len() - 1);
        if s.last() == 10u8 {
            let offs = line_starts(s);
            assert(forall|i: int| 0 <= i < prev.len() ==> offs[i] == prev[i]);
            assert(offs[offs.len() - 1] == s.len());
        }
    }
}

/// The number of rows of the sheet. The scan records an offset even when the
/// buffer ends with a line feed (and records offset 0 for an empty buffer),
/// but an offset equal to the buffer length starts no row: no byte of the
/// buffer belongs to it.
pub open spec fn total_rows_of(s: Seq<u8>) -> int {
    if s.len() == 0 {
        0
    } else if line_starts(s).last() == s.len() {
        line_starts(s).len() - 1
    } else {
        line_starts(s).len() as int
    }
}

pub proof fn lemma_total_rows_bounds(s: Seq<u8>)
    ensures
        0 <= total_rows_of(s) <= s.len(),
        total_rows_of(s) <= line_starts(s).len(),
        s.len() > 0 ==> total_rows_of(s) >= 1,
{
    lemma_line_starts_properties(s);
    if s.len() > 0 && line_starts(s).last() != s.len() {
        let offs = line_starts(s);
        assert(offs.len() - 1 <= offs[offs.len() - 1] < s.len());
    }
}

/// The byte range of row `row`: it starts at its recorded offset and ends
/// just before the next recorded offset (dropping the line feed), or at the
/// end of the buffer when no next offset exists. An empty range yields an
/// empty row.
pub open spec fn row_bytes(s: Seq<u8>, row: int) -> Seq<u8>
    recommends
        0 <= row < total_rows_of(s),
{
    let offs = line_starts(s);
    let start = offs[row];
    let end = if row + 1 < offs.len() {
        offs[row + 1] - 1
    } else {
        s.len() as int
    };
    if start >= end {
        Seq::empty()
    } else {
        s.subrange(start, end)
    }
}

/// The column-count estimate: the number of delimiter bytes in row 0, plus
/// one; 0 when there are no rows.
pub open spec fn total_cols_of(s: Seq<u8>) -> int {
    if total_rows_of(s) == 0 {
        0
    } else {
        count_byte(row_bytes(s, 0), 44u8) + 1
    }
}

pub proof fn lemma_total_cols_bounds(s: Seq<u8>)
    ensures
        0 <= total_cols_of(s) <= s.len() + 1,
        total_rows_of(s) > 0 ==> total_cols_of(s) >= 1,
{
    if total_rows_of(s) != 0 {
        crate::text::lemma_count_byte_bounds(row_bytes(s, 0), 44u8);
        lemma_line_starts_properties(s);
    }
}

/// Scans every byte of the mapping once and returns the row-start offsets.
pub fn build_line_index(mapping: &ByteMapping) -> (r: Vec<usize>)
    ensures
        r@.map_values(|o: usize| o as int) == line_starts(mapping.bytes()),
{
    let n: usize = mapping.length();
    let mut offsets: Vec<usize> = Vec::new();
    offsets.push(0);
    proof {
        assert(offsets@.map_values(|o: usize| o as int) =~= line_starts(
            mapping.bytes().subrange(0, 0),
        ));
    }
    let mut i: usize = 0;
    while i < n
        invariant
            n == mapping.bytes().len(),
            0 <= i <= n,
            offsets@.map_values(|o: usize| o as int) == line_starts(
                mapping.bytes().subrange(0, i as int),
            ),
        decreases n - i,
    {
        let b: u8 = mapping.byte_at(i);
        proof {
            assert(mapping.bytes().subrange(0, i as int + 1).drop_last() =~= mapping.bytes()
                .subrange(0, i as int));
            assert(mapping.bytes().subrange(0, i as int + 1).last() == mapping.bytes()[i as int]);
        }
        if b == 10 {
            offsets.push(i + 1);
            proof {
                assert(offsets@.map_values(|o: usize| o as int) =~= line_starts(
                    mapping.bytes().subrange(0, i as int),
                ).push(i as int + 1));
            }
        }
        i = i + 1;
    }
    proof {
        assert(mapping.bytes().subrange(0, n as int) =~= mapping.bytes());
    }
    offsets
}

} // verus!

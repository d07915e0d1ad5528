//! The byte source of a session: either a read-only memory mapping of a file
//! or an owned buffer. Both are immutable once created, so every query sees
//! the same frozen sequence of bytes.

use vstd::prelude::*;

verus! {

#[verifier::external_type_specification]
#[verifier::external_body]
pub struct ExMmap(memmap2::Mmap);

/// The bytes that a memory mapping holds. A mapping is a frozen snapshot of
/// the file's contents: its pointer and length never change after creation,
/// so each `Mmap` value determines one byte sequence (the backing file must
/// not be mutated by another actor while the mapping is alive).
pub uninterp spec fn mmap_bytes(m: memmap2::Mmap) -> Seq<u8>;

/// Relies on `memmap2::Mmap::deref` and `<[u8]>::len`: the length of the
/// mapped byte slice.
#[verifier::external_body]
fn mmap_len(m: &memmap2::Mmap) -> (r: usize)
    ensures
        r == mmap_bytes(*m).len(),
{
    m.len()
}

/// Relies on `memmap2::Mmap::deref` and slice indexing: the byte at `i` of
/// the mapped slice.
#[verifier::external_body]
fn mmap_byte(m: &memmap2::Mmap, i: usize) -> (r: u8)
    requires
        i < mmap_bytes(*m).len(),
    ensures
        r == mmap_bytes(*m)[i as int],
{
    m[i]
}

/// Relies on `memmap2::Mmap::deref` and slice range indexing: a copy of the
/// byte range `[start, end)` of the mapped slice.
#[verifier::external_body]
fn mmap_slice_vec(m: &memmap2::Mmap, start: usize, end: usize) -> (r: Vec<u8>)
    requires
        start <= end <= mmap_bytes(*m).len(),
    ensures
        r@ == mmap_bytes(*m).subrange(start as int, end as int),
{
    m[start..end].to_vec()
}

/// An immutable, contiguous view of a file's bytes. `Mapped` holds a
/// zero-copy read-only memory mapping; `Owned` holds a plain in-memory
/// buffer with the same interface.
pub enum ByteMapping {
    Mapped(memmap2::Mmap),
    Owned(Vec<u8>),
}

impl ByteMapping {
    /// The byte sequence this mapping views.
    pub open spec fn bytes(&self) -> Seq<u8> {
        match self {
            ByteMapping::Mapped(m) => mmap_bytes(*m),
            ByteMapping::Owned(v) => v@,
        }
    }

    /// Total number of bytes in the view.
    pub fn length(&self) -> (r: usize)
        ensures
            r == self.bytes().len(),
    {
        match self {
            ByteMapping::Mapped(m) => mmap_len(m),
            ByteMapping::Owned(v) => v.len(),
        }
    }

    /// The byte at position `i`.
    pub fn byte_at(&self, i: usize) -> (r: u8)
        requires
            i < self.bytes().len(),
        ensures
            r == self.bytes()[i as int],
    {
        match self {
            ByteMapping::Mapped(m) => mmap_byte(m, i),
            ByteMapping::Owned(v) => v[i],
        }
    }

    /// A copy of the byte range `[start, end)`.
    pub fn slice_vec(&self, start: usize, end: usize) -> (r: Vec<u8>)
        requires
            start <= end <= self.bytes().len(),
        ensures
            r@ == self.bytes().subrange(start as int, end as int),
    {
        match self {
            ByteMapping::Mapped(m) => mmap_slice_vec(m, start, end),
            ByteMapping::Owned(v) => {
                let mut out: Vec<u8> = Vec::new();
                let mut i: usize = start;
                while i < end
                    invariant
                        start <= i <= end <= v@.len(),
                        out@ == v@.subrange(start as int, i as int),
                    decreases end - i,
                {
                    out.push(v[i]);
                    i = i + 1;
                    proof {
                        assert(v@.subrange(start as int, i as int) =~= v@.subrange(
                            start as int,
                            i - 1,
                        ).push(v@[i - 1]));
                    }
                }
                out
            },
        }
    }
}

} // verus!

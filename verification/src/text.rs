//! Byte-level text handling: counting delimiter bytes, splitting a row into
//! fields on the delimiter, and decoding field bytes to text with a lossy
//! strategy that never fails on malformed input.

use vstd::prelude::*;
use vstd::utf8::decode_utf8;
use vstd::utf8::valid_utf8;

verus! {

/// Number of occurrences of the byte `t` in `s`.
pub open spec fn count_byte(s: Seq<u8>, t: u8) -> int
    decreases s.len(),
{
    if s.len() == 0 {
        0
    } else {
        count_byte(s.drop_last(), t) + if s.last() == t {
            1int
        } else {
            0int
        }
    }
}

pub proof fn lemma_count_byte_bounds(s: Seq<u8>, t: u8)
    ensures
        0 <= count_byte(s, t) <= s.len(),
    decreases s.len(),
{
    if s.len() > 0 {
        lemma_count_byte_bounds(s.drop_last(), t);
    }
}

/// Counts how many bytes of `slice` equal `target`.
pub fn byte_count_char(slice: &[u8], target: u8) -> (r: i64)
    requires
        slice@.len() <= i64::MAX,
    ensures
        r == count_byte(slice@, target),
{
    let mut count: i64 = 0;
    let n: usize = slice.len();
    let mut i: usize = 0;
    while i < n
        invariant
            n == slice@.len() <= i64::MAX,
            0 <= i <= n,
            count == count_byte(slice@.subrange(0, i as int), target),
        decreases n - i,
    {
        proof {
            lemma_count_byte_bounds(slice@.subrange(0, i as int), target);
            assert(slice@.subrange(0, i as int + 1).drop_last() =~= slice@.subrange(0, i as int));
        }
        if slice[i] == target {
            count = count + 1;
        }
        i = i + 1;
    }
    proof {
        assert(slice@.subrange(0, n as int) =~= slice@);
    }
    count
}

/// The fields of `s` split on the delimiter byte `d`: an empty sequence has
/// one empty field, and every occurrence of `d` ends a field and begins a
/// new one.
pub open spec fn split_on(s: Seq<u8>, d: u8) -> Seq<Seq<u8>>
    decreases s.len(),
{
    if s.len() == 0 {
        seq![Seq::empty()]
    } else {
        let prefix = split_on(s.drop_last(), d);
        if s.last() == d {
            prefix.push(Seq::empty())
        } else {
            prefix.update(prefix.len() - 1, prefix.last().push(s.last()))
        }
    }
}

/// Splits `bytes` into its fields on the delimiter byte `d`.
pub fn split_bytes(bytes: &Vec<u8>, d: u8) -> (r: Vec<Vec<u8>>)
    ensures
        r@.map_values(|f: Vec<u8>| f@) == split_on(bytes@, d),
{
    let n: usize = bytes.len();
    let mut done: Vec<Vec<u8>> = Vec::new();
    let mut cur: Vec<u8> = Vec::new();
    let mut i: usize = 0;
    while i < n
        invariant
            n == bytes@.len(),
            0 <= i <= n,
            done@.map_values(|f: Vec<u8>| f@).push(cur@) == split_on(
                bytes@.subrange(0, i as int),
                d,
            ),
        decreases n - i,
    {
        let ghost prefix = bytes@.subrange(0, i as int);
        let ghost fields = split_on(prefix, d);
        proof {
            assert(bytes@.subrange(0, i as int + 1).drop_last() =~= prefix);
            assert(bytes@.subrange(0, i as int + 1).last() == bytes@[i as int]);
        }
        let b: u8 = bytes[i];
        if b == d {
            done.push(cur);
            cur = Vec::new();
            proof {
                assert(done@.map_values(|f: Vec<u8>| f@).push(cur@) =~= fields.push(Seq::empty()));
            }
        } else {
            cur.push(b);
            proof {
                assert(fields.last() == cur@.drop_last());
                assert(done@.map_values(|f: Vec<u8>| f@).push(cur@) =~= fields.update(
                    fields.len() - 1,
                    fields.last().push(b),
                ));
            }
        }
        i = i + 1;
    }
    proof {
        assert(bytes@.subrange(0, n as int) =~= bytes@);
    }
    done.push(cur);
    done
}

/// The text that lossy decoding yields for a byte sequence: well-formed
/// UTF-8 decodes to its characters, and each maximal invalid subsequence
/// becomes a replacement marker. The result depends on the bytes alone.
pub uninterp spec fn lossy_decode(bytes: Seq<u8>) -> Seq<char>;

/// Relies on `String::from_utf8_lossy`: decodes the bytes as UTF-8,
/// substituting a replacement marker for invalid sequences; valid UTF-8
/// passes through unchanged.
#[verifier::external_body]
pub fn lossy_string(bytes: &Vec<u8>) -> (r: String)
    ensures
        r@ == lossy_decode(bytes@),
        valid_utf8(bytes@) ==> r@ == decode_utf8(bytes@),
{
    String::from_utf8_lossy(bytes).into_owned()
}

} // verus!

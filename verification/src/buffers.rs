//! Brightness buffers passed between the render workers and the page.
use vstd::prelude::*;

verus! {

/// Adds a worker's brightness buffer `bright` into the running total `buffer`, pixel by
/// pixel; the pixels of `buffer` past the end of `bright` are kept.
pub fn accumulate(buffer: &mut [u32], bright: &[u32])
    requires
        bright@.len() <= old(buffer)@.len(),
        forall|i: int| 0 <= i < bright@.len() ==> old(buffer)@[i] + bright@[i] <= u32::MAX,
    ensures
        final(buffer)@.len() == old(buffer)@.len(),
        forall|i: int| 0 <= i < bright@.len() ==> #[trigger] final(buffer)@[i] == old(buffer)@[i] + bright@[i],
        forall|i: int| bright@.len() <= i < old(buffer)@.len() ==> #[trigger] final(buffer)@[i] == old(buffer)@[i],
{
    let ghost initial = buffer@;
    let n = bright.len();
    let mut i: usize = 0;
    while i < n
        invariant
            n == bright@.len(),
            n <= initial.len(),
            i <= n,
            buffer@.len() == initial.len(),
            forall|k: int| 0 <= k < n ==> initial[k] + bright@[k] <= u32::MAX,
            forall|k: int| 0 <= k < i ==> #[trigger] buffer@[k] == initial[k] + bright@[k],
            forall|k: int| i <= k < initial.len() ==> #[trigger] buffer@[k] == initial[k],
        decreases n - i,
    {
        buffer[i] = buffer[i] + bright[i];
        i = i + 1;
    }
}

/// The four bytes of `x`, lowest first, put back together give `x`.
pub proof fn lemma_bytes_rebuild(x: u32)
    ensures
        ((x & 0xff) as u8) + 256 * (((x >> 8) & 0xff) as u8) + 65536 * (((x >> 16) & 0xff) as u8)
            + 16777216 * (((x >> 24) & 0xff) as u8) == x,
{
    assert(((x & 0xff) as u8) + 256 * (((x >> 8) & 0xff) as u8) + 65536 * (((x >> 16) & 0xff) as u8)
        + 16777216 * (((x >> 24) & 0xff) as u8) == x) by (bit_vector);
}

/// Whether `bytes[at..at + 4]` are the little-endian bytes of `x`.
pub open spec fn le_bytes_at(bytes: Seq<u8>, at: int, x: u32) -> bool {
    &&& bytes[at] == (x & 0xff) as u8
    &&& bytes[at + 1] == ((x >> 8) & 0xff) as u8
    &&& bytes[at + 2] == ((x >> 16) & 0xff) as u8
    &&& bytes[at + 3] == ((x >> 24) & 0xff) as u8
}

/// The little-endian bytes of `values`, four per value: the layout in which a worker hands
/// its brightness buffer back to the page.
pub fn to_le(values: &[u32]) -> (bytes: Vec<u8>)
    requires
        values@.len() * 4 <= usize::MAX,
    ensures
        bytes@.len() == values@.len() * 4,
        forall|i: int| 0 <= i < values@.len() ==> le_bytes_at(bytes@, 4 * i, #[trigger] values@[i]),
        forall|i: int| 0 <= i < values@.len()
            ==> bytes@[4 * i] + 256 * bytes@[4 * i + 1] + 65536 * bytes@[4 * i + 2]
                + 16777216 * bytes@[4 * i + 3] == #[trigger] values@[i],
{
    let n = values.len();
    let mut bytes: Vec<u8> = Vec::new();
    let mut i: usize = 0;
    while i < n
        invariant
            n == values@.len(),
            n * 4 <= usize::MAX,
            i <= n,
            bytes@.len() == i * 4,
            forall|j: int| 0 <= j < i ==> le_bytes_at(bytes@, 4 * j, #[trigger] values@[j]),
        decreases n - i,
    {
        let x = values[i];
        let ghost before = bytes@;
        bytes.push((x & 0xff) as u8);
        bytes.push(((x >> 8) & 0xff) as u8);
        bytes.push(((x >> 16) & 0xff) as u8);
        bytes.push(((x >> 24) & 0xff) as u8);
        assert forall|j: int| 0 <= j <= i implies le_bytes_at(bytes@, 4 * j, #[trigger] values@[j]) by {
            if j < i {
                assert(bytes@[4 * j] == before[4 * j]);
                assert(bytes@[4 * j + 1] == before[4 * j + 1]);
                assert(bytes@[4 * j + 2] == before[4 * j + 2]);
                assert(bytes@[4 * j + 3] == before[4 * j + 3]);
            }
        }
        i = i + 1;
    }
    assert forall|i: int| 0 <= i < values@.len()
        implies bytes@[4 * i] + 256 * bytes@[4 * i + 1] + 65536 * bytes@[4 * i + 2]
            + 16777216 * bytes@[4 * i + 3] == #[trigger] values@[i] by {
        assert(le_bytes_at(bytes@, 4 * i, values@[i]));
        lemma_bytes_rebuild(values@[i]);
    }
    bytes
}

} // verus!

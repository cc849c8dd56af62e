use vstd::prelude::*;

use crate::data::mnist::copy_range;

verus! {

/// Bytes per CIFAR-10 record: one label byte, then 3 * 32 * 32 pixel bytes.
pub const RECORD: usize = 3073;

/// Pixel bytes per CIFAR-10 image, channel-major (`[3, 32, 32]`).
pub const IMG: usize = 3072;

/// Decodes a CIFAR-10 batch file into its images, the pixel bytes of each
/// record in order. `None` when the file is not a whole number of records.
pub fn decode_images(buf: &Vec<u8>) -> (r: Option<Vec<Vec<u8>>>)
    ensures
        r is None <==> buf@.len() % (RECORD as nat) != 0,
        r matches Some(images) ==> {
            &&& images@.len() == buf@.len() / (RECORD as nat)
            &&& forall|i: int| 0 <= i < images@.len() ==> #[trigger] images@[i]@ == buf@.subrange(
                i * RECORD + 1,
                i * RECORD + RECORD,
            )
        },
{
    if buf.len() % RECORD != 0 {
        return None;
    }
    let count = buf.len() / RECORD;
    let mut images: Vec<Vec<u8>> = Vec::new();
    let mut i: usize = 0;
    while i < count
        invariant
            i <= count,
            count == buf@.len() / (RECORD as nat),
            buf@.len() <= usize::MAX,
            images@.len() == i,
            forall|j: int| 0 <= j < i ==> #[trigger] images@[j]@ == buf@.subrange(j * RECORD + 1, j * RECORD + RECORD),
        decreases count - i,
    {
        proof {
            lemma_record_in_bounds(buf@.len() as int, i as int);
        }
        let start = i * RECORD;
        images.push(copy_range(buf, start + 1, start + RECORD));
        i = i + 1;
    }
    Some(images)
}

/// Decodes the labels of a CIFAR-10 batch file, the first byte of each whole
/// record; trailing bytes that do not fill a record are ignored.
pub fn decode_labels(buf: &Vec<u8>) -> (labels: Vec<usize>)
    ensures
        labels@.len() == buf@.len() / (RECORD as nat),
        forall|i: int| 0 <= i < labels@.len() ==> #[trigger] labels@[i] == buf@[i * RECORD],
{
    let count = buf.len() / RECORD;
    let mut labels: Vec<usize> = Vec::new();
    let mut i: usize = 0;
    while i < count
        invariant
            i <= count,
            count == buf@.len() / (RECORD as nat),
            buf@.len() <= usize::MAX,
            labels@.len() == i,
            forall|j: int| 0 <= j < i ==> #[trigger] labels@[j] == buf@[j * RECORD],
        decreases count - i,
    {
        proof {
            lemma_record_in_bounds(buf@.len() as int, i as int);
        }
        labels.push(buf[i * RECORD] as usize);
        i = i + 1;
    }
    labels
}

/// Record `i` of a file holding more than `i` whole records lies inside it.
proof fn lemma_record_in_bounds(len: int, i: int)
    requires
        len >= 0,
        0 <= i < len / (RECORD as int),
    ensures
        i * RECORD + RECORD <= len,
{
    let r = RECORD as int;
    vstd::arithmetic::div_mod::lemma_fundamental_div_mod(len, r);
    assert(i * r + r <= len) by (nonlinear_arith)
        requires
            i + 1 <= len / r,
            len == r * (len / r) + len % r,
            len % r >= 0,
            r > 0,
    ;
}

} // verus!

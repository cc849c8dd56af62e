use vstd::prelude::*;

verus! {

/// The big-endian 32-bit integer stored in bytes `at .. at + 4`.
pub open spec fn be_u32_at(b: Seq<u8>, at: int) -> int {
    b[at] * 0x1000000 + b[at + 1] * 0x10000 + b[at + 2] * 0x100 + b[at + 3]
}

/// An IDX image file: a 16-byte header (magic, count, rows, cols, each a
/// big-endian 32-bit integer) followed by at least `count` images of
/// `rows * cols` bytes; the image size is addressable.
pub open spec fn images_fit(b: Seq<u8>) -> bool {
    &&& b.len() >= 16
    &&& be_u32_at(b, 8) * be_u32_at(b, 12) <= usize::MAX
    &&& 16 + be_u32_at(b, 4) * (be_u32_at(b, 8) * be_u32_at(b, 12)) <= b.len()
}

/// An IDX label file: an 8-byte header (magic, count) followed by at least
/// `count` label bytes.
pub open spec fn labels_fit(b: Seq<u8>) -> bool {
    &&& b.len() >= 8
    &&& 8 + be_u32_at(b, 4) <= b.len()
}

/// Reads the big-endian 32-bit integer at `at`.
fn read_be_u32(b: &Vec<u8>, at: usize) -> (v: usize)
    requires
        at + 4 <= b.len(),
    ensures
        v == be_u32_at(b@, at as int),
        v <= u32::MAX,
{
    let v: u64 = (b[at] as u64) * 0x1000000 + (b[at + 1] as u64) * 0x10000 + (b[at + 2] as u64) * 0x100
        + (b[at + 3] as u64);
    v as usize
}

/// Decodes an IDX image file into its images (raw pixel bytes, row-major)
/// and the count, rows and cols of its header. `None` when the buffer is too
/// short for its header or for the images the header announces.
pub fn decode_images(buf: &Vec<u8>) -> (r: Option<(Vec<Vec<u8>>, usize, usize, usize)>)
    ensures
        r is None <==> !images_fit(buf@),
        r matches Some((images, count, rows, cols)) ==> {
            &&& count == be_u32_at(buf@, 4)
            &&& rows == be_u32_at(buf@, 8)
            &&& cols == be_u32_at(buf@, 12)
            &&& images@.len() == count
            &&& forall|i: int| 0 <= i < count ==> #[trigger] images@[i]@ == buf@.subrange(
                16 + i * (rows * cols),
                16 + (i + 1) * (rows * cols),
            )
        },
{
    if buf.len() < 16 {
        return None;
    }
    let count = read_be_u32(buf, 4);
    let rows = read_be_u32(buf, 8);
    let cols = read_be_u32(buf, 12);
    proof {
        assert(rows * cols <= u32::MAX * u32::MAX) by (nonlinear_arith)
            requires
                rows <= u32::MAX,
                cols <= u32::MAX,
        ;
    }
    let rc = rows as u64 * cols as u64;
    if rc > usize::MAX as u64 {
        return None;
    }
    let img_size = rc as usize;
    let avail = buf.len() - 16;
    if count > 0 && img_size > avail / count {
        proof {
            assert(count * img_size > avail) by (nonlinear_arith)
                requires
                    img_size > avail / count,
                    count > 0,
            ;
        }
        return None;
    }
    proof {
        if count > 0 {
            assert(count * img_size <= avail) by (nonlinear_arith)
                requires
                    img_size <= avail / count,
                    count > 0,
            ;
        }
    }
    let mut images: Vec<Vec<u8>> = Vec::new();
    let mut i: usize = 0;
    while i < count
        invariant
            i <= count,
            count * img_size <= avail,
            avail + 16 == buf@.len(),
            buf@.len() <= usize::MAX,
            img_size == rows * cols,
            images@.len() == i,
            forall|j: int| 0 <= j < i ==> #[trigger] images@[j]@ == buf@.subrange(
                16 + j * img_size,
                16 + (j + 1) * img_size,
            ),
        decreases count - i,
    {
        proof {
            assert((i + 1) * img_size <= count * img_size) by (nonlinear_arith)
                requires
                    i + 1 <= count,
            ;
            assert((i + 1) * img_size == i * img_size + img_size) by (nonlinear_arith);
            assert(i * img_size <= (i + 1) * img_size) by (nonlinear_arith)
                requires
                    img_size >= 0,
            ;
        }
        let start = 16 + i * img_size;
        let img = copy_range(buf, start, start + img_size);
        images.push(img);
        i = i + 1;
    }
    Some((images, count, rows, cols))
}

/// Decodes an IDX label file into its labels, one per byte after the
/// header. `None` when the buffer is too short for its header or for the
/// labels the header announces.
pub fn decode_labels(buf: &Vec<u8>) -> (r: Option<Vec<usize>>)
    ensures
        r is None <==> !labels_fit(buf@),
        r matches Some(labels) ==> {
            &&& labels@.len() == be_u32_at(buf@, 4)
            &&& forall|i: int| 0 <= i < labels@.len() ==> #[trigger] labels@[i] == buf@[8 + i]
        },
{
    if buf.len() < 8 {
        return None;
    }
    let count = read_be_u32(buf, 4);
    if count > buf.len() - 8 {
        return None;
    }
    let mut labels: Vec<usize> = Vec::new();
    let mut i: usize = 0;
    while i < count
        invariant
            i <= count,
            8 + count <= buf@.len(),
            buf@.len() <= usize::MAX,
            labels@.len() == i,
            forall|j: int| 0 <= j < i ==> #[trigger] labels@[j] == buf@[8 + j],
        decreases count - i,
    {
        labels.push(buf[8 + i] as usize);
        i = i + 1;
    }
    Some(labels)
}

/// Bytes `start .. end` of `buf`.
pub fn copy_range(buf: &Vec<u8>, start: usize, end: usize) -> (r: Vec<u8>)
    requires
        start <= end <= buf@.len(),
    ensures
        r@ == buf@.subrange(start as int, end as int),
{
    let mut r: Vec<u8> = Vec::new();
    let mut k: usize = start;
    while k < end
        invariant
            start <= k <= end <= buf@.len(),
            r@ == buf@.subrange(start as int, k as int),
        decreases end - k,
    {
        r.push(buf[k]);
        k = k + 1;
        assert(r@ =~= buf@.subrange(start as int, k as int));
    }
    r
}

} // verus!

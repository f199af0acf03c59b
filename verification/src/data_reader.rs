//! Decoder for IDX-format dataset files: the dimension header, and the
//! pairing of fixed-length images with their labels. Reading the files from
//! disk is the embedding application's job; this module works on the raw
//! bytes.

use vstd::prelude::*;

verus! {

/// The raw dataset bytes cannot be decoded as claimed.
#[derive(Clone, Copy, Debug, PartialEq, Eq, Structural)]
pub enum DataError {
    /// The image count and the label count differ.
    CountMismatch,
    /// A header is truncated, has too few dimensions, or promises more data
    /// than the buffer holds.
    Malformed,
}

/// The big-endian 32-bit value encoded by four bytes, most significant first.
pub open spec fn be_u32_spec(b0: u8, b1: u8, b2: u8, b3: u8) -> int {
    b0 * 0x1000000 + b1 * 0x10000 + b2 * 0x100 + b3
}

/// Reads a 32-bit unsigned integer from four bytes in big-endian order.
pub fn be_u32(b0: u8, b1: u8, b2: u8, b3: u8) -> (r: u32)
    ensures
        r == be_u32_spec(b0, b1, b2, b3),
{
    (b0 as u32) * 0x1000000 + (b1 as u32) * 0x10000 + (b2 as u32) * 0x100 + (b3 as u32)
}

/// The buffer is long enough for an IDX header: the dimension count stands
/// at byte 3 and one big-endian 32-bit size follows per dimension.
pub open spec fn idx_header_ok(d: Seq<u8>) -> bool {
    d.len() >= 4 && d.len() >= 4 * (d[3] + 1)
}

/// The size of dimension `i` recorded in an IDX header.
pub open spec fn idx_dim_size(d: Seq<u8>, i: int) -> int {
    be_u32_spec(d[4 * (i + 1)], d[4 * (i + 1) + 1], d[4 * (i + 1) + 2], d[4 * (i + 1) + 3])
}

/// Reads an IDX header: the dimension count and the recorded size of each
/// dimension.
pub fn parse_idx_meta(data: &Vec<u8>) -> (r: (u8, Vec<u32>))
    requires
        idx_header_ok(data@),
    ensures
        r.0 == data@[3],
        r.1@.len() == r.0,
        forall|i: int| 0 <= i < r.1@.len() ==> r.1@[i] == idx_dim_size(data@, i),
{
    let dimension_count = data[3];
    let mut dimension_sizes: Vec<u32> = Vec::new();
    let mut i: usize = 0;
    while i < dimension_count as usize
        invariant
            idx_header_ok(data@),
            dimension_count == data@[3],
            i <= dimension_count,
            dimension_sizes@.len() == i,
            forall|t: int| 0 <= t < i ==> dimension_sizes@[t] == idx_dim_size(data@, t),
        decreases dimension_count - i,
    {
        let base = 4 * (i + 1);
        dimension_sizes.push(be_u32(data[base], data[base + 1], data[base + 2], data[base + 3]));
        i = i + 1;
    }
    (dimension_count, dimension_sizes)
}

/// Both headers decode, the image file records at least three dimensions
/// (count, height, width) and the label file at least one (count).
pub open spec fn idx_headers_ok(img: Seq<u8>, lbl: Seq<u8>) -> bool {
    &&& idx_header_ok(img)
    &&& idx_header_ok(lbl)
    &&& img[3] >= 3
    &&& lbl[3] >= 1
}

/// The byte position where image `i` starts: past the header and `i` whole
/// images.
pub open spec fn idx_image_start(img: Seq<u8>, i: int) -> int {
    4 + 4 * img[3] + i * (idx_dim_size(img, 1) * idx_dim_size(img, 2))
}

/// The byte position where label `i` stands: past the label header.
pub open spec fn idx_label_pos(lbl: Seq<u8>, i: int) -> int {
    4 * (1 + lbl[3]) + i
}

/// Both files describe the same number of items and actually hold them.
pub open spec fn idx_dataset_ok(img: Seq<u8>, lbl: Seq<u8>) -> bool {
    &&& idx_headers_ok(img, lbl)
    &&& idx_dim_size(img, 0) == idx_dim_size(lbl, 0)
    &&& img.len() >= idx_image_start(img, idx_dim_size(img, 0))
    &&& lbl.len() >= idx_label_pos(lbl, idx_dim_size(lbl, 0))
}

/// Splits raw IDX image and label files into one byte vector per image,
/// paired with its label. Refused with `CountMismatch` when the two files
/// disagree on the item count, and with `Malformed` when a header is
/// truncated, records too few dimensions, or promises more data than its
/// buffer holds.
pub fn decode_mnist_images(image_data: &Vec<u8>, label_data: &Vec<u8>) -> (r: Result<
    (Vec<Vec<u8>>, Vec<u8>),
    DataError,
>)
    ensures
        r is Ok <==> idx_dataset_ok(image_data@, label_data@),
        !idx_headers_ok(image_data@, label_data@) ==> r == Err::<(Vec<Vec<u8>>, Vec<u8>), DataError>(
            DataError::Malformed,
        ),
        idx_headers_ok(image_data@, label_data@) && idx_dim_size(image_data@, 0) != idx_dim_size(
            label_data@,
            0,
        ) ==> r == Err::<(Vec<Vec<u8>>, Vec<u8>), DataError>(DataError::CountMismatch),
        idx_headers_ok(image_data@, label_data@) && idx_dim_size(image_data@, 0) == idx_dim_size(
            label_data@,
            0,
        ) && !idx_dataset_ok(image_data@, label_data@) ==> r == Err::<
            (Vec<Vec<u8>>, Vec<u8>),
            DataError,
        >(DataError::Malformed),
        r is Ok ==> {
            let (images, labels) = r->Ok_0;
            let count = idx_dim_size(image_data@, 0);
            let size = idx_dim_size(image_data@, 1) * idx_dim_size(image_data@, 2);
            &&& images@.len() == count
            &&& labels@.len() == count
            &&& forall|i: int|
                0 <= i < count ==> (#[trigger] images@[i])@ == image_data@.subrange(
                    idx_image_start(image_data@, i),
                    idx_image_start(image_data@, i) + size,
                )
            &&& forall|i: int|
                0 <= i < count ==> #[trigger] labels@[i] == label_data@[idx_label_pos(
                    label_data@,
                    i,
                )]
        },
{
    if image_data.len() < 4 {
        return Err(DataError::Malformed);
    }
    let img_dims = image_data[3];
    if image_data.len() < 4 * (img_dims as usize + 1) || img_dims < 3 {
        return Err(DataError::Malformed);
    }
    if label_data.len() < 4 {
        return Err(DataError::Malformed);
    }
    let lbl_dims = label_data[3];
    if label_data.len() < 4 * (lbl_dims as usize + 1) || lbl_dims < 1 {
        return Err(DataError::Malformed);
    }
    let (_, image_dim_sizes) = parse_idx_meta(image_data);
    let (_, label_dim_sizes) = parse_idx_meta(label_data);
    let count32 = image_dim_sizes[0];
    if count32 != label_dim_sizes[0] {
        return Err(DataError::CountMismatch);
    }
    let count = count32 as usize;
    let img_len = image_data.len();
    let lbl_len = label_data.len();
    let offset = 4 + 4 * (img_dims as usize);
    let label_offset = 4 * (1 + lbl_dims as usize);
    let ghost sz: int = idx_dim_size(image_data@, 1) * idx_dim_size(image_data@, 2);
    if count == 0 {
        proof {
            assert(0 * sz == 0) by (nonlinear_arith);
        }
        return Ok((Vec::new(), Vec::new()));
    }
    let size = match (image_dim_sizes[1] as usize).checked_mul(image_dim_sizes[2] as usize) {
        Some(s) => s,
        None => {
            proof {
                vstd::arithmetic::mul::lemma_mul_inequality(1, count as int, sz);
            }
            return Err(DataError::Malformed);
        },
    };
    let image_bytes = match count.checked_mul(size) {
        Some(b) => b,
        None => {
            return Err(DataError::Malformed);
        },
    };
    let needed_img = match offset.checked_add(image_bytes) {
        Some(v) => v,
        None => {
            return Err(DataError::Malformed);
        },
    };
    if img_len < needed_img {
        return Err(DataError::Malformed);
    }
    let needed_lbl = match label_offset.checked_add(count) {
        Some(v) => v,
        None => {
            return Err(DataError::Malformed);
        },
    };
    if lbl_len < needed_lbl {
        return Err(DataError::Malformed);
    }
    let mut images: Vec<Vec<u8>> = Vec::new();
    let mut labels: Vec<u8> = Vec::new();
    let mut i: usize = 0;
    while i < count
        invariant
            i <= count,
            idx_dataset_ok(image_data@, label_data@),
            count == idx_dim_size(image_data@, 0),
            size == idx_dim_size(image_data@, 1) * idx_dim_size(image_data@, 2),
            offset == 4 + 4 * (image_data@[3] as int),
            img_len == image_data@.len(),
            lbl_len == label_data@.len(),
            offset + count * size <= img_len,
            label_offset == 4 * (1 + label_data@[3] as int),
            label_offset + count <= lbl_len,
            images@.len() == i,
            labels@.len() == i,
            forall|t: int|
                0 <= t < i ==> (#[trigger] images@[t])@ == image_data@.subrange(
                    idx_image_start(image_data@, t),
                    idx_image_start(image_data@, t) + size,
                ),
            forall|t: int|
                0 <= t < i ==> #[trigger] labels@[t] == label_data@[idx_label_pos(label_data@, t)],
        decreases count - i,
    {
        proof {
            vstd::arithmetic::mul::lemma_mul_inequality(i + 1, count as int, size as int);
            assert((i + 1) * size == i * size + size) by (nonlinear_arith);
            vstd::arithmetic::mul::lemma_mul_nonnegative(i as int, size as int);
        }
        let start = offset + i * size;
        let mut img: Vec<u8> = Vec::new();
        let mut t: usize = 0;
        while t < size
            invariant
                t <= size,
                img_len == image_data@.len(),
                start + size <= img_len,
                img@.len() == t,
                forall|q: int| 0 <= q < t ==> img@[q] == image_data@[start + q],
            decreases size - t,
        {
            img.push(image_data[start + t]);
            t = t + 1;
        }
        proof {
            assert(img@ =~= image_data@.subrange(
                idx_image_start(image_data@, i as int),
                idx_image_start(image_data@, i as int) + size,
            ));
        }
        images.push(img);
        labels.push(label_data[label_offset + i]);
        i = i + 1;
    }
    Ok((images, labels))
}

} // verus!

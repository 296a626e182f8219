use vstd::prelude::*;

use crate::error::DatasetError;
use crate::matrix::Matrix;

verus! {

/// Bytes to skip at the front of a decompressed image file.
pub const IMAGE_HEADER_LEN: usize = 16;

/// Bytes to skip at the front of a decompressed label file.
pub const LABEL_HEADER_LEN: usize = 8;

/// Pixels per image record: 28 x 28 intensities, flattened row-major.
pub const PIXELS_PER_IMAGE: usize = 784;

/// Digit classes, and so the width of a one-hot label row.
pub const NUM_CLASSES: usize = 10;

/// A decompressed image file is well formed when it is long enough for its
/// fixed header and the rest splits into whole 784-byte records.
pub open spec fn image_payload_ok(d: Seq<u8>) -> bool {
    &&& d.len() >= IMAGE_HEADER_LEN
    &&& (d.len() - IMAGE_HEADER_LEN) % (PIXELS_PER_IMAGE as int) == 0
}

/// The number of image records in a well-formed decompressed image file.
pub open spec fn image_count(d: Seq<u8>) -> int {
    (d.len() - IMAGE_HEADER_LEN) / (PIXELS_PER_IMAGE as int)
}

/// A decompressed label file is well formed when it is long enough for its
/// fixed header and every following byte is a digit class in `0..=9`.
pub open spec fn label_payload_ok(d: Seq<u8>) -> bool {
    &&& d.len() >= LABEL_HEADER_LEN
    &&& forall|i: int|
        LABEL_HEADER_LEN <= i < d.len() ==> (#[trigger] d[i]) < NUM_CLASSES as u8
}

/// The number of label records in a well-formed decompressed label file.
pub open spec fn label_count(d: Seq<u8>) -> int {
    d.len() - LABEL_HEADER_LEN
}

/// The cell at column `c` of the one-hot expansion of a scalar label.
pub open spec fn one_hot_cell(label: u8, c: int) -> u8 {
    if c == label {
        1u8
    } else {
        0u8
    }
}

/// `m` is the one-hot expansion of the label bytes of payload `d`: one
/// 10-wide row per label byte, all zero but a 1 at the label's index.
pub open spec fn labels_one_hot(m: Matrix, d: Seq<u8>) -> bool {
    &&& m.rows == label_count(d)
    &&& m.cols == NUM_CLASSES
    &&& forall|i: int, c: int|
        0 <= i < m.rows && 0 <= c < m.cols ==> (#[trigger] m.entry(i, c)) == one_hot_cell(
            d[LABEL_HEADER_LEN + i],
            c,
        )
}

/// Row `r` of `m` is all zero except a single 1 at column `k`.
pub open spec fn row_one_hot(m: Matrix, r: int, k: int) -> bool {
    &&& 0 <= k < m.cols
    &&& forall|c: int|
        0 <= c < m.cols ==> (#[trigger] m.entry(r, c)) == (if c == k {
            1u8
        } else {
            0u8
        })
}

/// Row `r` of `m` is a one-hot row.
pub open spec fn row_has_one_hot(m: Matrix, r: int) -> bool {
    exists|k: int| row_one_hot(m, r, k)
}

/// Every row of `m` is a one-hot row.
pub open spec fn one_hot_matrix(m: Matrix) -> bool {
    forall|r: int| 0 <= r < m.rows ==> #[trigger] row_has_one_hot(m, r)
}

/// What single-stream gzip decompression returns on a valid stream: a
/// function of the compressed bytes alone.
pub uninterp spec fn inflate_of(z: Seq<u8>) -> Seq<u8>;

/// Whether a byte buffer decompresses at all: whether it opens with a valid
/// gzip member whose checksum and length trailer agree with its contents.
/// Like the output, this is a function of the compressed bytes alone.
pub uninterp spec fn gzip_ok(z: Seq<u8>) -> bool;

/// Relies on flate2's `read::GzDecoder`: decompressing one gzip member of an
/// in-memory byte buffer admits no transient failure, so both whether the
/// call succeeds and what it returns are determined by the buffer alone.
#[verifier::external_body]
fn inflate(compressed: &Vec<u8>) -> (r: Result<Vec<u8>, DatasetError>)
    ensures
        r is Ok <==> gzip_ok(compressed@),
        r matches Ok(out) ==> out@ == inflate_of(compressed@),
        r matches Err(e) ==> e == DatasetError::Decompression,
{
    let mut decoder = flate2::read::GzDecoder::new(&compressed[..]);
    let mut out: Vec<u8> = Vec::new();
    match std::io::Read::read_to_end(&mut decoder, &mut out) {
        Ok(_) => Ok(out),
        Err(_) => Err(DatasetError::Decompression),
    }
}

/// Parses a decompressed image file: skips the 16-byte header and shapes the
/// remaining pixel bytes into one 784-wide row per image record. The record
/// count is derived from the payload length; a payload whose length does not
/// match a whole number of records is rejected, never truncated.
pub fn parse_images(data: &Vec<u8>) -> (r: Result<Matrix, DatasetError>)
    ensures
        r is Ok <==> image_payload_ok(data@),
        r matches Ok(m) ==> {
            &&& m.wf()
            &&& m.rows == image_count(data@)
            &&& m.cols == PIXELS_PER_IMAGE
            &&& m.data@ == data@.skip(IMAGE_HEADER_LEN as int)
        },
        r matches Err(e) ==> e == DatasetError::Format,
{
    if data.len() < IMAGE_HEADER_LEN {
        return Err(DatasetError::Format);
    }
    let body_len = data.len() - IMAGE_HEADER_LEN;
    if body_len % PIXELS_PER_IMAGE != 0 {
        return Err(DatasetError::Format);
    }
    let rows = body_len / PIXELS_PER_IMAGE;
    let body = vstd::slice::slice_to_vec(
        vstd::slice::slice_subrange(data.as_slice(), IMAGE_HEADER_LEN, data.len()),
    );
    proof {
        vstd::arithmetic::div_mod::lemma_fundamental_div_mod(
            body_len as int,
            PIXELS_PER_IMAGE as int,
        );
    }
    Ok(Matrix::from_row_slice(rows, PIXELS_PER_IMAGE, body))
}

/// Parses a decompressed label file: skips the 8-byte header, checks every
/// label byte for a digit class in `0..=9`, and expands each into a 10-wide
/// one-hot row. A payload with an out-of-range label byte is rejected.
pub fn parse_labels(data: &Vec<u8>) -> (r: Result<Matrix, DatasetError>)
    ensures
        r is Ok <==> label_payload_ok(data@),
        r matches Ok(m) ==> {
            &&& m.wf()
            &&& labels_one_hot(m, data@)
            &&& one_hot_matrix(m)
        },
        r matches Err(e) ==> e == DatasetError::Format,
{
    if data.len() < LABEL_HEADER_LEN {
        return Err(DatasetError::Format);
    }
    let n = data.len() - LABEL_HEADER_LEN;
    let mut i: usize = 0;
    while i < n
        invariant
            i <= n,
            n == data@.len() - LABEL_HEADER_LEN,
            data@.len() >= LABEL_HEADER_LEN,
            data@.len() <= usize::MAX,
            forall|j: int|
                LABEL_HEADER_LEN <= j < LABEL_HEADER_LEN + i ==> (#[trigger] data@[j])
                    < NUM_CLASSES as u8,
        decreases n - i,
    {
        if data[LABEL_HEADER_LEN + i] as usize >= NUM_CLASSES {
            return Err(DatasetError::Format);
        }
        i = i + 1;
    }
    let mut buf: Vec<u8> = Vec::new();
    let mut i: usize = 0;
    while i < n
        invariant
            i <= n,
            n == data@.len() - LABEL_HEADER_LEN,
            data@.len() >= LABEL_HEADER_LEN,
            data@.len() <= usize::MAX,
            buf@.len() == i * NUM_CLASSES,
            forall|r: int, c: int|
                0 <= r < i && 0 <= c < NUM_CLASSES ==> (#[trigger] buf@[r * NUM_CLASSES + c])
                    == one_hot_cell(data@[LABEL_HEADER_LEN + r], c),
        decreases n - i,
    {
        let label = data[LABEL_HEADER_LEN + i];
        let mut c: usize = 0;
        while c < NUM_CLASSES
            invariant
                c <= NUM_CLASSES,
                i < n,
                n == data@.len() - LABEL_HEADER_LEN,
                data@.len() >= LABEL_HEADER_LEN,
                data@.len() <= usize::MAX,
                label == data@[LABEL_HEADER_LEN + i],
                buf@.len() == i * NUM_CLASSES + c,
                forall|r: int, cc: int|
                    0 <= r < i && 0 <= cc < NUM_CLASSES ==> (#[trigger] buf@[r * NUM_CLASSES + cc])
                        == one_hot_cell(data@[LABEL_HEADER_LEN + r], cc),
                forall|cc: int|
                    0 <= cc < c ==> (#[trigger] buf@[i * NUM_CLASSES + cc]) == one_hot_cell(
                        label,
                        cc,
                    ),
            decreases NUM_CLASSES - c,
        {
            if c == label as usize {
                buf.push(1);
            } else {
                buf.push(0);
            }
            c = c + 1;
        }
        i = i + 1;
    }
    let m = Matrix::from_row_slice(n, NUM_CLASSES, buf);
    proof {
        assert forall|r: int, c: int|
            0 <= r < m.rows && 0 <= c < m.cols implies (#[trigger] m.entry(r, c)) == one_hot_cell(
            data@[LABEL_HEADER_LEN + r],
            c,
        ) by {
            assert(m.data@[r * NUM_CLASSES + c] == one_hot_cell(data@[LABEL_HEADER_LEN + r], c));
        }
        lemma_labels_one_hot_matrix(m, data@);
    }
    Ok(m)
}

/// A matrix that is the one-hot expansion of a well-formed label payload has
/// a one-hot row everywhere: the witness column of row `r` is label byte `r`.
proof fn lemma_labels_one_hot_matrix(m: Matrix, d: Seq<u8>)
    requires
        m.wf(),
        label_payload_ok(d),
        labels_one_hot(m, d),
    ensures
        one_hot_matrix(m),
{
    assert forall|r: int| 0 <= r < m.rows implies #[trigger] row_has_one_hot(m, r) by {
        let k = d[LABEL_HEADER_LEN + r] as int;
        assert(row_one_hot(m, r, k));
    }
}

/// The partial sums of a one-hot row: 0 before the 1 at column `k` is
/// passed, 1 from there on.
proof fn lemma_row_sum_upto_one_hot(m: Matrix, r: int, k: int, n: int)
    requires
        row_one_hot(m, r, k),
        0 <= n <= m.cols,
    ensures
        m.row_sum_upto(r, n) == if n > k {
            1int
        } else {
            0int
        },
    decreases n,
{
    if n > 0 {
        lemma_row_sum_upto_one_hot(m, r, k, n - 1);
        assert(m.entry(r, n - 1) == if n - 1 == k {
            1u8
        } else {
            0u8
        });
    }
}

/// Every row of a one-hot matrix sums to exactly 1: the single 1 that the
/// encoding places in the row is the row's whole sum.
pub proof fn lemma_one_hot_rows_sum_to_one(m: Matrix)
    requires
        one_hot_matrix(m),
    ensures
        forall|r: int| 0 <= r < m.rows ==> #[trigger] m.row_sum(r) == 1,
{
    assert forall|r: int| 0 <= r < m.rows implies #[trigger] m.row_sum(r) == 1 by {
        assert(row_has_one_hot(m, r));
        let k = choose|k: int| row_one_hot(m, r, k);
        lemma_row_sum_upto_one_hot(m, r, k, m.cols as int);
    }
}

/// The four decompressed payloads fit together: each is well formed and each
/// image file holds exactly one record per label of its paired label file.
pub open spec fn payloads_ok(ti: Seq<u8>, tl: Seq<u8>, si: Seq<u8>, sl: Seq<u8>) -> bool {
    &&& image_payload_ok(ti)
    &&& label_payload_ok(tl)
    &&& image_payload_ok(si)
    &&& label_payload_ok(sl)
    &&& image_count(ti) == label_count(tl)
    &&& image_count(si) == label_count(sl)
}

/// The dataset bundle: train and test images as one 784-wide pixel row per
/// record, train and test labels as one 10-wide one-hot row per record.
#[derive(Debug, PartialEq, Eq)]
pub struct Mnist {
    pub train_images: Matrix,
    pub train_labels: Matrix,
    pub test_images: Matrix,
    pub test_labels: Matrix,
}

/// `m` holds exactly the records of the four decompressed payloads: pixel
/// bytes carried over behind each image header, label bytes expanded one-hot.
pub open spec fn assembled_from(m: Mnist, ti: Seq<u8>, tl: Seq<u8>, si: Seq<u8>, sl: Seq<u8>) -> bool {
    &&& m.train_images.rows == image_count(ti)
    &&& m.train_images.cols == PIXELS_PER_IMAGE
    &&& m.train_images.data@ == ti.skip(IMAGE_HEADER_LEN as int)
    &&& labels_one_hot(m.train_labels, tl)
    &&& m.test_images.rows == image_count(si)
    &&& m.test_images.cols == PIXELS_PER_IMAGE
    &&& m.test_images.data@ == si.skip(IMAGE_HEADER_LEN as int)
    &&& labels_one_hot(m.test_labels, sl)
}

impl Mnist {
    /// The bundle invariant: all four matrices well formed, image rows 784
    /// wide, label rows 10 wide and one-hot, and each image matrix paired
    /// with a label matrix of the same row count.
    pub open spec fn wf(self) -> bool {
        &&& self.train_images.wf()
        &&& self.train_labels.wf()
        &&& self.test_images.wf()
        &&& self.test_labels.wf()
        &&& self.train_images.cols == PIXELS_PER_IMAGE
        &&& self.test_images.cols == PIXELS_PER_IMAGE
        &&& self.train_labels.cols == NUM_CLASSES
        &&& self.test_labels.cols == NUM_CLASSES
        &&& self.train_images.rows == self.train_labels.rows
        &&& self.test_images.rows == self.test_labels.rows
        &&& one_hot_matrix(self.train_labels)
        &&& one_hot_matrix(self.test_labels)
    }

    /// Assembles the bundle from the four decompressed payloads. Succeeds
    /// exactly when the payloads fit together; any header, record-length,
    /// label-range or pairing defect is a format failure, never a silently
    /// truncated bundle.
    pub fn assemble(
        train_images: &Vec<u8>,
        train_labels: &Vec<u8>,
        test_images: &Vec<u8>,
        test_labels: &Vec<u8>,
    ) -> (r: Result<Mnist, DatasetError>)
        ensures
            r is Ok <==> payloads_ok(train_images@, train_labels@, test_images@, test_labels@),
            r matches Ok(m) ==> m.wf() && assembled_from(
                m,
                train_images@,
                train_labels@,
                test_images@,
                test_labels@,
            ),
            r matches Err(e) ==> e == DatasetError::Format,
    {
        let ti = match parse_images(train_images) {
            Ok(m) => m,
            Err(e) => return Err(e),
        };
        let tl = match parse_labels(train_labels) {
            Ok(m) => m,
            Err(e) => return Err(e),
        };
        let si = match parse_images(test_images) {
            Ok(m) => m,
            Err(e) => return Err(e),
        };
        let sl = match parse_labels(test_labels) {
            Ok(m) => m,
            Err(e) => return Err(e),
        };
        if ti.nrows() != tl.nrows() || si.nrows() != sl.nrows() {
            return Err(DatasetError::Format);
        }
        Ok(Mnist { train_images: ti, train_labels: tl, test_images: si, test_labels: sl })
    }

    /// Builds the bundle from the four cached files as they sit on disk,
    /// still gzip-compressed: each is decompressed in one stream and the
    /// payloads are assembled. Success and result are functions of the four
    /// byte buffers alone: loading succeeds exactly when every file is a
    /// valid gzip stream and the decompressed payloads fit together, so two
    /// loads of the same valid cached files both return the same bundle.
    pub fn from_archives(
        train_images_gz: &Vec<u8>,
        train_labels_gz: &Vec<u8>,
        test_images_gz: &Vec<u8>,
        test_labels_gz: &Vec<u8>,
    ) -> (r: Result<Mnist, DatasetError>)
        ensures
            r is Ok <==> {
                &&& gzip_ok(train_images_gz@)
                &&& gzip_ok(train_labels_gz@)
                &&& gzip_ok(test_images_gz@)
                &&& gzip_ok(test_labels_gz@)
                &&& payloads_ok(
                    inflate_of(train_images_gz@),
                    inflate_of(train_labels_gz@),
                    inflate_of(test_images_gz@),
                    inflate_of(test_labels_gz@),
                )
            },
            r matches Ok(m) ==> m.wf() && assembled_from(
                m,
                inflate_of(train_images_gz@),
                inflate_of(train_labels_gz@),
                inflate_of(test_images_gz@),
                inflate_of(test_labels_gz@),
            ),
            r matches Err(e) ==> e == DatasetError::Decompression || e == DatasetError::Format,
    {
        let ti = match inflate(train_images_gz) {
            Ok(v) => v,
            Err(e) => return Err(e),
        };
        let tl = match inflate(train_labels_gz) {
            Ok(v) => v,
            Err(e) => return Err(e),
        };
        let si = match inflate(test_images_gz) {
            Ok(v) => v,
            Err(e) => return Err(e),
        };
        let sl = match inflate(test_labels_gz) {
            Ok(v) => v,
            Err(e) => return Err(e),
        };
        Mnist::assemble(&ti, &tl, &si, &sl)
    }
}

/// Every label row of a well-formed bundle sums to exactly 1 and carries a
/// single 1: the one-hot invariant of the dataset.
pub proof fn lemma_dataset_label_rows_sum_to_one(m: Mnist)
    requires
        m.wf(),
    ensures
        forall|r: int| 0 <= r < m.train_labels.rows ==> #[trigger] m.train_labels.row_sum(r) == 1,
        forall|r: int| 0 <= r < m.test_labels.rows ==> #[trigger] m.test_labels.row_sum(r) == 1,
{
    lemma_one_hot_rows_sum_to_one(m.train_labels);
    lemma_one_hot_rows_sum_to_one(m.test_labels);
}

/// A parsed image matrix carries the payload's pixel bytes verbatim: the
/// entry in row `r`, column `c` is the payload byte at
/// `IMAGE_HEADER_LEN + r * PIXELS_PER_IMAGE + c`, image-major and row-major
/// within each image.
pub proof fn lemma_image_entries_match_payload(m: Matrix, d: Seq<u8>)
    requires
        m.wf(),
        image_payload_ok(d),
        m.rows == image_count(d),
        m.cols == PIXELS_PER_IMAGE,
        m.data@ == d.skip(IMAGE_HEADER_LEN as int),
    ensures
        forall|r: int, c: int|
            0 <= r < m.rows && 0 <= c < m.cols ==> (#[trigger] m.entry(r, c)) == d[IMAGE_HEADER_LEN
                + r * (PIXELS_PER_IMAGE as int) + c],
{
    vstd::arithmetic::div_mod::lemma_fundamental_div_mod(
        d.len() - IMAGE_HEADER_LEN,
        PIXELS_PER_IMAGE as int,
    );
    assert forall|r: int, c: int|
        0 <= r < m.rows && 0 <= c < m.cols implies (#[trigger] m.entry(r, c)) == d[IMAGE_HEADER_LEN
        + r * (PIXELS_PER_IMAGE as int) + c] by {
        assert(r * (PIXELS_PER_IMAGE as int) + c < m.rows * (PIXELS_PER_IMAGE as int))
            by (nonlinear_arith)
            requires
                0 <= r < m.rows,
                0 <= c < PIXELS_PER_IMAGE as int,
        ;
    }
}

/// Assembly is a function of the decompressed bytes alone: two bundles built
/// from the same four payloads are bit-identical, matrix by matrix. With the
/// warm-cache rule of `fetch_needed` and the success clause of
/// `from_archives`, a second load over unchanged valid cached files issues
/// no retrieval and returns the same bundle as the first.
pub proof fn lemma_assembly_deterministic(
    m1: Mnist,
    m2: Mnist,
    ti: Seq<u8>,
    tl: Seq<u8>,
    si: Seq<u8>,
    sl: Seq<u8>,
)
    requires
        m1.wf(),
        m2.wf(),
        assembled_from(m1, ti, tl, si, sl),
        assembled_from(m2, ti, tl, si, sl),
    ensures
        m1.train_images.agrees_with(m2.train_images),
        m1.train_labels.agrees_with(m2.train_labels),
        m1.test_images.agrees_with(m2.test_images),
        m1.test_labels.agrees_with(m2.test_labels),
{
}

/// The cache state of one of the four remote resources, determined by the
/// presence of its file at the deterministic local path.
#[derive(Clone, Copy, Debug, PartialEq, Eq, Structural)]
pub enum ResourceState {
    Missing,
    Cached,
}

/// The per-resource download decision of the loader: a resource is fetched
/// exactly when its own cache entry is absent, independently of the other
/// three, so a warm cache issues no retrieval and a partially warm cache
/// retrieves only what is missing.
pub fn fetch_needed(state: ResourceState) -> (r: bool)
    ensures
        r == (state is Missing),
{
    match state {
        ResourceState::Missing => true,
        ResourceState::Cached => false,
    }
}

} // verus!

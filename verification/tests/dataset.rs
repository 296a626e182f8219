use dlfs_rust::error::DatasetError;
use dlfs_rust::matrix::Matrix;
use dlfs_rust::mnist::{fetch_needed, parse_images, parse_labels, Mnist, ResourceState};

use flate2::write::GzEncoder;
use flate2::Compression;
use std::io::Write;

fn gzip(payload: &[u8]) -> Vec<u8> {
    let mut encoder = GzEncoder::new(Vec::new(), Compression::default());
    encoder.write_all(payload).unwrap();
    encoder.finish().unwrap()
}

fn image_payload(images: &[[u8; 784]]) -> Vec<u8> {
    let mut payload = vec![0u8; 16];
    for image in images {
        payload.extend_from_slice(image);
    }
    payload
}

fn label_payload(labels: &[u8]) -> Vec<u8> {
    let mut payload = vec![0u8; 8];
    payload.extend_from_slice(labels);
    payload
}

#[test]
fn matrix_shape_and_entries() {
    let m = Matrix::from_row_slice(2, 3, vec![1, 2, 3, 4, 5, 6]);
    assert_eq!(m.nrows(), 2);
    assert_eq!(m.ncols(), 3);
    assert_eq!(m.get(0, 0), 1);
    assert_eq!(m.get(0, 2), 3);
    assert_eq!(m.get(1, 0), 4);
    assert_eq!(m.get(1, 2), 6);
}

#[test]
fn parse_images_derives_shape_and_skips_header() {
    let mut first = [0u8; 784];
    first[0] = 255;
    first[783] = 7;
    let mut second = [0u8; 784];
    second[28] = 128;
    let data = image_payload(&[first, second]);
    let m = parse_images(&data).unwrap();
    assert_eq!(m.nrows(), 2);
    assert_eq!(m.ncols(), 784);
    assert_eq!(m.get(0, 0), 255);
    assert_eq!(m.get(0, 783), 7);
    assert_eq!(m.get(1, 28), 128);
    assert_eq!(m.get(1, 0), 0);
}

#[test]
fn parse_images_rejects_partial_record() {
    let mut data = image_payload(&[[0u8; 784]]);
    data.pop();
    assert_eq!(parse_images(&data), Err(DatasetError::Format));
    let longer = [data.as_slice(), &[0u8, 0u8]].concat();
    assert_eq!(parse_images(&longer), Err(DatasetError::Format));
}

#[test]
fn parse_images_rejects_short_header() {
    assert_eq!(parse_images(&vec![0u8; 15]), Err(DatasetError::Format));
}

#[test]
fn parse_images_accepts_header_only() {
    let m = parse_images(&vec![0u8; 16]).unwrap();
    assert_eq!(m.nrows(), 0);
    assert_eq!(m.ncols(), 784);
}

#[test]
fn parse_labels_expands_one_hot() {
    let data = label_payload(&[3, 0, 9]);
    let m = parse_labels(&data).unwrap();
    assert_eq!(m.nrows(), 3);
    assert_eq!(m.ncols(), 10);
    for (row, label) in [(0usize, 3usize), (1, 0), (2, 9)] {
        for c in 0..10 {
            let expected = if c == label { 1 } else { 0 };
            assert_eq!(m.get(row, c), expected);
        }
    }
}

#[test]
fn parse_labels_rejects_out_of_range_class() {
    let data = label_payload(&[1, 10, 2]);
    assert_eq!(parse_labels(&data), Err(DatasetError::Format));
}

#[test]
fn parse_labels_rejects_short_header() {
    assert_eq!(parse_labels(&vec![0u8; 7]), Err(DatasetError::Format));
}

#[test]
fn assembled_dataset_shapes() {
    let train_images = image_payload(&[[1u8; 784], [2u8; 784], [3u8; 784]]);
    let train_labels = label_payload(&[5, 0, 9]);
    let test_images = image_payload(&[[4u8; 784]]);
    let test_labels = label_payload(&[7]);
    let mnist = Mnist::assemble(&train_images, &train_labels, &test_images, &test_labels).unwrap();
    assert_eq!((mnist.train_images.nrows(), mnist.train_images.ncols()), (3, 784));
    assert_eq!((mnist.train_labels.nrows(), mnist.train_labels.ncols()), (3, 10));
    assert_eq!((mnist.test_images.nrows(), mnist.test_images.ncols()), (1, 784));
    assert_eq!((mnist.test_labels.nrows(), mnist.test_labels.ncols()), (1, 10));
    assert_eq!(mnist.train_labels.get(0, 5), 1);
    assert_eq!(mnist.train_labels.get(0, 4), 0);
    assert_eq!(mnist.test_labels.get(0, 7), 1);
}

#[test]
fn assemble_rejects_unpaired_row_counts() {
    let train_images = image_payload(&[[0u8; 784], [0u8; 784]]);
    let train_labels = label_payload(&[1, 2, 3]);
    let test_images = image_payload(&[[0u8; 784]]);
    let test_labels = label_payload(&[4]);
    let r = Mnist::assemble(&train_images, &train_labels, &test_images, &test_labels);
    assert_eq!(r, Err(DatasetError::Format));
}

#[test]
fn from_archives_decompresses_the_cached_bytes() {
    let mut image = [0u8; 784];
    image[10] = 200;
    image[100] = 50;
    let train_images = gzip(&image_payload(&[image, [9u8; 784]]));
    let train_labels = gzip(&label_payload(&[2, 6]));
    let test_images = gzip(&image_payload(&[[1u8; 784]]));
    let test_labels = gzip(&label_payload(&[0]));
    let mnist =
        Mnist::from_archives(&train_images, &train_labels, &test_images, &test_labels).unwrap();
    assert_eq!(mnist.train_images.nrows(), 2);
    assert_eq!(mnist.train_images.get(0, 10), 200);
    assert_eq!(mnist.train_images.get(0, 100), 50);
    assert_eq!(mnist.train_images.get(0, 0), 0);
    assert_eq!(mnist.train_images.get(1, 0), 9);
    assert_eq!(mnist.train_labels.get(0, 2), 1);
    assert_eq!(mnist.train_labels.get(1, 6), 1);
    assert_eq!(mnist.test_images.get(0, 500), 1);
    assert_eq!(mnist.test_labels.get(0, 0), 1);
}

#[test]
fn from_archives_is_deterministic_on_cached_files() {
    let train_images = gzip(&image_payload(&[[13u8; 784]]));
    let train_labels = gzip(&label_payload(&[8]));
    let test_images = gzip(&image_payload(&[[200u8; 784]]));
    let test_labels = gzip(&label_payload(&[1]));
    let first =
        Mnist::from_archives(&train_images, &train_labels, &test_images, &test_labels).unwrap();
    let second =
        Mnist::from_archives(&train_images, &train_labels, &test_images, &test_labels).unwrap();
    assert_eq!(first, second);
}

#[test]
fn from_archives_rejects_corrupt_stream() {
    let good = gzip(&label_payload(&[1]));
    let mut truncated = gzip(&image_payload(&[[0u8; 784]]));
    truncated.truncate(truncated.len() / 2);
    let r = Mnist::from_archives(&truncated, &good, &truncated, &good);
    assert_eq!(r, Err(DatasetError::Decompression));
    let garbage = vec![0xabu8; 64];
    let r = Mnist::from_archives(&garbage, &good, &garbage, &good);
    assert_eq!(r, Err(DatasetError::Decompression));
}

#[test]
fn from_archives_rejects_malformed_payload_inside_valid_gzip() {
    let train_images = gzip(&vec![0u8; 16 + 783]);
    let train_labels = gzip(&label_payload(&[1]));
    let test_images = gzip(&image_payload(&[[0u8; 784]]));
    let test_labels = gzip(&label_payload(&[2]));
    let r = Mnist::from_archives(&train_images, &train_labels, &test_images, &test_labels);
    assert_eq!(r, Err(DatasetError::Format));
}

#[test]
fn label_rows_sum_to_one() {
    let m = parse_labels(&label_payload(&[0, 5, 9, 9, 1])).unwrap();
    for r in 0..5 {
        let mut sum = 0u32;
        for c in 0..10 {
            sum += m.get(r, c) as u32;
        }
        assert_eq!(sum, 1);
    }
}

#[test]
fn warm_cache_needs_no_download() {
    assert!(!fetch_needed(ResourceState::Cached));
    assert!(fetch_needed(ResourceState::Missing));
}

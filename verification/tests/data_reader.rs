use sketchnet::data_reader::{be_u32, decode_mnist_images, parse_idx_meta, DataError};

fn idx_images(count: u32, h: u32, w: u32, pixels: &[u8]) -> Vec<u8> {
    let mut d = vec![0u8, 0, 8, 3];
    d.extend_from_slice(&count.to_be_bytes());
    d.extend_from_slice(&h.to_be_bytes());
    d.extend_from_slice(&w.to_be_bytes());
    d.extend_from_slice(pixels);
    d
}

fn idx_labels(count: u32, labels: &[u8]) -> Vec<u8> {
    let mut d = vec![0u8, 0, 8, 1];
    d.extend_from_slice(&count.to_be_bytes());
    d.extend_from_slice(labels);
    d
}

#[test]
fn be_u32_reads_big_endian() {
    assert_eq!(be_u32(0x01, 0x02, 0x03, 0x04), 0x01020304);
    assert_eq!(be_u32(0, 0, 0, 0), 0);
    assert_eq!(be_u32(0xFF, 0xFF, 0xFF, 0xFF), u32::MAX);
}

#[test]
fn parse_idx_meta_reads_dimensions() {
    let data = idx_images(2, 3, 4, &[0; 24]);
    let (dims, sizes) = parse_idx_meta(&data);
    assert_eq!(dims, 3);
    assert_eq!(sizes, vec![2, 3, 4]);
}

#[test]
fn decode_pairs_images_with_labels() {
    let pixels: Vec<u8> = (0..8).collect();
    let images = idx_images(2, 2, 2, &pixels);
    let labels = idx_labels(2, &[7, 9]);
    let (imgs, lbls) = decode_mnist_images(&images, &labels).unwrap();
    assert_eq!(imgs.len(), 2);
    assert_eq!(lbls, vec![7, 9]);
    assert_eq!(imgs[0], vec![0, 1, 2, 3]);
    assert_eq!(imgs[1], vec![4, 5, 6, 7]);
}

#[test]
fn decode_empty_dataset() {
    let images = idx_images(0, 2, 2, &[]);
    let labels = idx_labels(0, &[]);
    let (imgs, lbls) = decode_mnist_images(&images, &labels).unwrap();
    assert!(imgs.is_empty());
    assert!(lbls.is_empty());
}

#[test]
fn decode_rejects_count_mismatch() {
    let images = idx_images(2, 2, 2, &[0; 8]);
    let labels = idx_labels(3, &[1, 2, 3]);
    assert_eq!(decode_mnist_images(&images, &labels).unwrap_err(), DataError::CountMismatch);
}

#[test]
fn decode_rejects_truncated_pixels() {
    let images = idx_images(2, 2, 2, &[0; 7]);
    let labels = idx_labels(2, &[1, 2]);
    assert_eq!(decode_mnist_images(&images, &labels).unwrap_err(), DataError::Malformed);
}

#[test]
fn decode_rejects_truncated_labels() {
    let images = idx_images(2, 2, 2, &[0; 8]);
    let labels = idx_labels(2, &[1]);
    assert_eq!(decode_mnist_images(&images, &labels).unwrap_err(), DataError::Malformed);
}

#[test]
fn decode_rejects_short_headers() {
    let images = idx_images(1, 1, 1, &[5]);
    let labels = idx_labels(1, &[5]);
    assert_eq!(decode_mnist_images(&vec![0, 0, 8], &labels).unwrap_err(), DataError::Malformed);
    assert_eq!(decode_mnist_images(&images, &vec![0, 0]).unwrap_err(), DataError::Malformed);
    // An image header with fewer than three dimensions cannot describe a raster.
    let flat = idx_labels(1, &[5]);
    assert_eq!(decode_mnist_images(&flat, &labels).unwrap_err(), DataError::Malformed);
}

use rstorch::data::cifar;
use rstorch::data::dataloader::DataLoader;
use rstorch::data::labels::{one_hot, one_hot_all};
use rstorch::data::mnist;

fn loader(n: usize, batch_size: usize) -> DataLoader<u32> {
    let inputs: Vec<Vec<u32>> = (0..n).map(|i| vec![i as u32, 100 + i as u32]).collect();
    let targets: Vec<Vec<u32>> = (0..n).map(|i| vec![1000 + i as u32]).collect();
    DataLoader::new(inputs, targets, batch_size)
}

#[test]
fn new_loader_visits_in_order() {
    let d = loader(5, 2);
    assert_eq!(d.len(), 5);
    assert_eq!(d.order, vec![0, 1, 2, 3, 4]);
}

#[test]
fn num_batches_rounds_up() {
    assert_eq!(loader(5, 2).num_batches(), 3);
    assert_eq!(loader(6, 2).num_batches(), 3);
    assert_eq!(loader(0, 4).num_batches(), 0);
    assert_eq!(loader(1, 4).num_batches(), 1);
}

#[test]
fn batches_concatenate_rows_in_order() {
    let d = loader(5, 2);
    let (x, y, n) = d.get_batch(1);
    assert_eq!(n, 2);
    assert_eq!(x, vec![2, 102, 3, 103]);
    assert_eq!(y, vec![1002, 1003]);
}

#[test]
fn last_batch_is_partial() {
    let d = loader(5, 2);
    let (x, y, n) = d.get_batch(2);
    assert_eq!(n, 1);
    assert_eq!(x, vec![4, 104]);
    assert_eq!(y, vec![1004]);
}

#[test]
fn batch_past_the_end_is_empty() {
    let d = loader(4, 2);
    let (x, y, n) = d.get_batch(2);
    assert_eq!(n, 0);
    assert!(x.is_empty());
    assert!(y.is_empty());
}

#[test]
fn batches_cover_every_example_once() {
    let d = loader(7, 3);
    let mut seen = Vec::new();
    for b in 0..d.num_batches() {
        let (_, y, n) = d.get_batch(b);
        assert_eq!(y.len(), n);
        seen.extend(y);
    }
    assert_eq!(seen, vec![1000, 1001, 1002, 1003, 1004, 1005, 1006]);
}

#[test]
fn batches_follow_the_order() {
    let mut d = loader(4, 3);
    d.order = vec![3, 1, 0, 2];
    let (x, y, n) = d.get_batch(0);
    assert_eq!(n, 3);
    assert_eq!(x, vec![3, 103, 1, 101, 0, 100]);
    assert_eq!(y, vec![1003, 1001, 1000]);
}

#[test]
fn shuffle_permutes_the_order_only() {
    let mut d = loader(50, 8);
    let inputs = d.inputs.clone();
    d.shuffle();
    let mut sorted = d.order.clone();
    sorted.sort();
    assert_eq!(sorted, (0..50).collect::<Vec<usize>>());
    assert_eq!(d.inputs, inputs);
    assert_eq!(d.batch_size, 8);
}

fn idx_images(count: u32, rows: u32, cols: u32, pixels: &[u8]) -> Vec<u8> {
    let mut buf = vec![0, 0, 8, 3];
    buf.extend_from_slice(&count.to_be_bytes());
    buf.extend_from_slice(&rows.to_be_bytes());
    buf.extend_from_slice(&cols.to_be_bytes());
    buf.extend_from_slice(pixels);
    buf
}

#[test]
fn mnist_images_decode_row_major() {
    let buf = idx_images(2, 2, 3, &[1, 2, 3, 4, 5, 6, 7, 8, 9, 10, 11, 12]);
    let (images, count, rows, cols) = mnist::decode_images(&buf).unwrap();
    assert_eq!((count, rows, cols), (2, 2, 3));
    assert_eq!(images, vec![vec![1, 2, 3, 4, 5, 6], vec![7, 8, 9, 10, 11, 12]]);
}

#[test]
fn mnist_header_counts_are_big_endian() {
    let buf = idx_images(0, 0x0102, 1, &[]);
    let (images, count, rows, cols) = mnist::decode_images(&buf).unwrap();
    assert_eq!((count, rows, cols), (0, 258, 1));
    assert!(images.is_empty());
}

#[test]
fn mnist_truncated_images_are_rejected() {
    let buf = idx_images(2, 2, 2, &[1, 2, 3, 4, 5, 6, 7]);
    assert!(mnist::decode_images(&buf).is_none());
    assert!(mnist::decode_images(&vec![0, 0, 8, 3, 0, 0]).is_none());
}

#[test]
fn mnist_labels_decode() {
    let buf = vec![0, 0, 8, 1, 0, 0, 0, 3, 7, 2, 9, 5];
    assert_eq!(mnist::decode_labels(&buf), Some(vec![7, 2, 9]));
}

#[test]
fn mnist_truncated_labels_are_rejected() {
    assert_eq!(mnist::decode_labels(&vec![0, 0, 8, 1, 0, 0, 0, 4, 1, 2]), None);
    assert_eq!(mnist::decode_labels(&vec![0, 0, 8]), None);
}

fn cifar_file(labels: &[u8]) -> Vec<u8> {
    let mut buf = Vec::new();
    for (r, &l) in labels.iter().enumerate() {
        buf.push(l);
        buf.extend((0..cifar::IMG).map(|p| ((p + r) % 251) as u8));
    }
    buf
}

#[test]
fn cifar_records_split_into_label_and_pixels() {
    let buf = cifar_file(&[3, 8]);
    let images = cifar::decode_images(&buf).unwrap();
    assert_eq!(images.len(), 2);
    assert_eq!(images[0].len(), cifar::IMG);
    assert_eq!(images[1][0], 1);
    assert_eq!(images[1][cifar::IMG - 1], ((cifar::IMG) % 251) as u8);
    assert_eq!(cifar::decode_labels(&buf), vec![3, 8]);
}

#[test]
fn cifar_partial_record_is_rejected_for_images_only() {
    let mut buf = cifar_file(&[1, 2]);
    buf.extend_from_slice(&[6, 0, 0]);
    assert!(cifar::decode_images(&buf).is_none());
    assert_eq!(cifar::decode_labels(&buf), vec![1, 2]);
}

#[test]
fn one_hot_marks_the_label() {
    assert_eq!(one_hot(2, 5, 0.0f32, 1.0f32), vec![0.0, 0.0, 1.0, 0.0, 0.0]);
    assert_eq!(one_hot(0, 1, 0u8, 1u8), vec![1]);
}

#[test]
fn one_hot_all_encodes_each_label() {
    let rows = one_hot_all(&vec![1, 0], 3, 0u8, 1u8);
    assert_eq!(rows, vec![vec![0, 1, 0], vec![1, 0, 0]]);
}

#[test]
fn shuffle_moves_examples() {
    let mut d = loader(50, 8);
    d.shuffle();
    assert_ne!(d.order, (0..50).collect::<Vec<usize>>());
}

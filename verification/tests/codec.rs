use nameful_api::buffer::RasterBuffer;
use nameful_api::codec::{read_png, write_png};

#[test]
fn encoded_file_is_a_png() {
    let grid = RasterBuffer::from_rgba(2, 1, &[1, 2, 3, 4, 5, 6, 7, 8]).unwrap();
    let file = write_png(&grid).unwrap();
    assert_eq!(&file[..8], &[137, 80, 78, 71, 13, 10, 26, 10]);
    assert_ne!(file, grid.to_rgba());
}

#[test]
fn decoding_gives_back_what_was_encoded() {
    let bytes: Vec<u8> = (0..4 * 5 * 3).map(|i| (i * 7 % 256) as u8).collect();
    let grid = RasterBuffer::from_rgba(5, 3, &bytes).unwrap();
    let back = read_png(&write_png(&grid).unwrap()).unwrap();
    assert_eq!((back.width(), back.height()), (5, 3));
    assert_eq!(back.to_rgba(), bytes);
}

#[test]
fn decoding_other_bytes_fails() {
    assert!(read_png(&[]).is_none());
    assert!(read_png(b"GIF89a").is_none());
    assert!(read_png(&[137, 80, 78, 71, 13, 10, 26, 10]).is_none());
}

#[test]
fn truncated_file_fails() {
    let grid = RasterBuffer::from_rgba(2, 2, &[9u8; 16]).unwrap();
    let file = write_png(&grid).unwrap();
    assert!(read_png(&file[..file.len() / 2]).is_none());
}

#[test]
fn empty_grid_is_not_encoded() {
    let grid = RasterBuffer::new(0, 0);
    assert!(write_png(&grid).is_none());
}

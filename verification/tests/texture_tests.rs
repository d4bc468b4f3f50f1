use gnworld::texture::{png_texture, rows_reversed};
use image::{GenericImageView, ImageBuffer, ImageFormat, Pixel, Rgba};
use std::io::Cursor;

fn png_bytes(width: u32, height: u32) -> (Vec<u8>, Vec<u8>) {
    let img: ImageBuffer<Rgba<u8>, Vec<u8>> = ImageBuffer::from_fn(width, height, |x, y| Rgba([x as u8, y as u8, (x + 10 * y) as u8, 255]));
    let raw = img.clone().into_raw();
    let mut bytes = Vec::new();
    img.write_to(&mut Cursor::new(&mut bytes), ImageFormat::Png).unwrap();
    (bytes, raw)
}

#[test]
fn rows_come_out_bottom_first() {
    let data: Vec<u8> = (0..12).collect();
    assert_eq!(rows_reversed(&data, 4), vec![8, 9, 10, 11, 4, 5, 6, 7, 0, 1, 2, 3]);
    assert_eq!(rows_reversed(&data, 12), data);
    assert_eq!(rows_reversed(&data, 1), (0..12).rev().collect::<Vec<u8>>());
    assert!(rows_reversed(&Vec::new(), 3).is_empty());
}

#[test]
fn png_becomes_flipped_rgba() {
    let (bytes, raw) = png_bytes(2, 3);
    let (w, h, data) = png_texture(&bytes).unwrap();
    assert_eq!((w, h), (2, 3));
    assert_eq!(data.len(), 24);
    assert_eq!(&data[0..8], &raw[16..24]);
    assert_eq!(&data[8..16], &raw[8..16]);
    assert_eq!(&data[16..24], &raw[0..8]);
    assert_eq!(&data[0..4], &[0, 2, 20, 255]);
}

#[test]
fn png_single_row_is_unchanged() {
    let (bytes, raw) = png_bytes(3, 1);
    let (w, h, data) = png_texture(&bytes).unwrap();
    assert_eq!((w, h), (3, 1));
    assert_eq!(data, raw);
}

#[test]
fn non_png_bytes_give_nothing() {
    assert!(png_texture(b"not a png").is_none());
    assert!(png_texture(&[]).is_none());
}

#[test]
fn png_texture_has_four_bytes_per_pixel() {
    for (w, h) in [(1, 1), (5, 2), (3, 7)] {
        let (bytes, _) = png_bytes(w, h);
        let (tw, th, data) = png_texture(&bytes).unwrap();
        assert_eq!(data.len() as u32, 4 * tw * th);
    }
}

fn grey_png(width: u32, height: u32) -> (Vec<u8>, image::GrayImage) {
    let img: image::GrayImage =
        ImageBuffer::from_fn(width, height, |x, y| image::Luma([(10 * x + 3 * y) as u8]));
    let mut bytes = Vec::new();
    img.write_to(&mut Cursor::new(&mut bytes), ImageFormat::Png).unwrap();
    (bytes, img)
}

#[test]
fn terrain_cells_go_column_by_column() {
    let (bytes, img) = grey_png(3, 2);
    let cells = gnworld::terrain::terrain_cells(&bytes).unwrap();
    assert_eq!(
        cells,
        vec![(0, 0, 0), (0, 1, 3), (1, 0, 10), (1, 1, 13), (2, 0, 20), (2, 1, 23)]
    );
    for (x, y, g) in cells {
        assert_eq!(img.get_pixel(x, y)[0], g);
    }
}

#[test]
fn terrain_cells_of_colour_png_are_grey_levels() {
    let (bytes, _) = png_bytes(4, 3);
    let decoded = image::load(Cursor::new(&bytes), ImageFormat::Png).unwrap();
    let grey = decoded.grayscale();
    let cells = gnworld::terrain::terrain_cells(&bytes).unwrap();
    assert_eq!(cells.len(), 12);
    for (x, y, g) in cells {
        assert_eq!(grey.get_pixel(x, y).to_luma()[0], g);
    }
}

#[test]
fn terrain_cells_need_a_png() {
    assert!(gnworld::terrain::terrain_cells(b"nope").is_none());
}

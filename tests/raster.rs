use pathtracer::raster::Canvas;

#[test]
fn rows_are_flipped_top_to_bottom() {
    // Two columns, three rows, bottom row first.
    let pixels: Vec<(u8, u8, u8)> = vec![
        (1, 2, 3),
        (4, 5, 6),
        (7, 8, 9),
        (10, 11, 12),
        (13, 14, 15),
        (16, 17, 18),
    ];
    let bytes = Canvas::assemble(2, 3, &pixels).into_rgb_bytes();
    assert_eq!(
        bytes,
        vec![13, 14, 15, 16, 17, 18, 7, 8, 9, 10, 11, 12, 1, 2, 3, 4, 5, 6]
    );
}

#[test]
fn single_pixel_image() {
    let pixels: Vec<(u8, u8, u8)> = vec![(255, 0, 128)];
    let bytes = Canvas::assemble(1, 1, &pixels).into_rgb_bytes();
    assert_eq!(bytes, vec![255, 0, 128]);
}

#[test]
fn empty_image_has_no_bytes() {
    let pixels: Vec<(u8, u8, u8)> = vec![];
    assert!(Canvas::assemble(0, 0, &pixels).into_rgb_bytes().is_empty());
    assert!(Canvas::assemble(4, 0, &pixels).into_rgb_bytes().is_empty());
}

#[test]
fn encoded_image_matches_assembled_bytes() {
    let pixels: Vec<(u8, u8, u8)> = vec![(0, 0, 0), (255, 255, 255)];
    let bytes = Canvas::assemble(1, 2, &pixels).into_rgb_bytes();
    let img = image::RgbImage::from_raw(1, 2, bytes).unwrap();
    assert_eq!(img.get_pixel(0, 0).0, [255, 255, 255]);
    assert_eq!(img.get_pixel(0, 1).0, [0, 0, 0]);
}

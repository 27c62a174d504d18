use raytracer::ppm::{encode_image, pixel_line, ppm_header, push_decimal};

#[test]
fn black_pixel_line() {
    assert_eq!(pixel_line(0, 0, 0), b"0 0 0\n".to_vec());
}

#[test]
fn pixel_line_mixed_widths() {
    assert_eq!(pixel_line(255, 128, 7), b"255 128 7\n".to_vec());
    assert_eq!(pixel_line(10, 99, 100), b"10 99 100\n".to_vec());
}

#[test]
fn decimal_appends_after_existing_bytes() {
    let mut out = b"x=".to_vec();
    push_decimal(&mut out, 0);
    assert_eq!(out, b"x=0".to_vec());
    push_decimal(&mut out, 4294967295);
    assert_eq!(out, b"x=04294967295".to_vec());
}

#[test]
fn header_states_size_and_max_channel() {
    assert_eq!(ppm_header(300, 168), b"P3\n300 168\n255\n".to_vec());
    assert_eq!(ppm_header(1, 1), b"P3\n1 1\n255\n".to_vec());
}

#[test]
fn image_lines_in_row_major_order() {
    let pixels = vec![(1, 2, 3), (4, 5, 6), (7, 8, 9), (255, 255, 255)];
    let bytes = encode_image(2, 2, &pixels).unwrap();
    let text = String::from_utf8(bytes).unwrap();
    assert_eq!(text, "P3\n2 2\n255\n1 2 3\n4 5 6\n7 8 9\n255 255 255\n");
}

#[test]
fn image_with_one_line_per_pixel() {
    let pixels = vec![(0, 0, 0); 12];
    let bytes = encode_image(4, 3, &pixels).unwrap();
    let text = String::from_utf8(bytes).unwrap();
    assert_eq!(text.lines().count(), 3 + 12);
    assert!(text.starts_with("P3\n4 3\n255\n"));
}

#[test]
fn image_refused_on_wrong_pixel_count() {
    let pixels = vec![(0, 0, 0); 5];
    assert_eq!(encode_image(2, 2, &pixels), None);
    assert_eq!(encode_image(2, 3, &pixels), None);
    assert_eq!(encode_image(0, 7, &pixels), None);
}

#[test]
fn empty_image_is_header_only() {
    let pixels: Vec<(u8, u8, u8)> = Vec::new();
    assert_eq!(encode_image(0, 5, &pixels), Some(b"P3\n0 5\n255\n".to_vec()));
}

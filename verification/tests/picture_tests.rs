use mediachat_native::{decode_circular, decode_image};

fn png_bytes(width: u32, height: u32, pixels: Vec<u8>) -> Vec<u8> {
    let buf = image::RgbaImage::from_raw(width, height, pixels).unwrap();
    let mut out = std::io::Cursor::new(Vec::new());
    image::DynamicImage::ImageRgba8(buf)
        .write_to(&mut out, image::ImageFormat::Png)
        .unwrap();
    out.into_inner()
}

/// Pixel (x, y) of a `width`-wide test picture: red = x, green = y, blue = 7, alpha = 200.
fn numbered(width: u32, height: u32) -> Vec<u8> {
    let mut v = Vec::new();
    for y in 0..height {
        for x in 0..width {
            v.extend_from_slice(&[x as u8, y as u8, 7, 200]);
        }
    }
    v
}

#[test]
fn decode_image_gives_rgba_pixels() {
    let pixels = numbered(3, 2);
    let img = decode_image(&png_bytes(3, 2, pixels.clone())).unwrap();
    assert_eq!((img.width, img.height), (3, 2));
    assert_eq!(img.pixels, pixels);
}

#[test]
fn decode_image_rejects_garbage() {
    assert!(decode_image(b"not a picture").is_none());
    assert!(decode_image(&[]).is_none());
}

#[test]
fn decode_circular_cuts_centred_square_of_wide_picture() {
    // 4x2 -> the 2x2 square at columns 1..3; only the corner pixel (0, 0)
    // of a 2x2 square lies outside its disc.
    let img = decode_circular(&png_bytes(4, 2, numbered(4, 2))).unwrap();
    assert_eq!((img.width, img.height), (2, 2));
    assert_eq!(
        img.pixels,
        vec![0, 0, 0, 255, 2, 0, 7, 200, 1, 1, 7, 200, 2, 1, 7, 200]
    );
}

#[test]
fn decode_circular_cuts_centred_square_of_tall_picture() {
    // 1x3 -> the 1x1 square at row 1, which lies outside its disc
    // ((2*0-1)^2 + (2*0-1)^2 = 2 > 1).
    let img = decode_circular(&png_bytes(1, 3, numbered(1, 3))).unwrap();
    assert_eq!((img.width, img.height), (1, 1));
    assert_eq!(img.pixels, vec![0, 0, 0, 255]);
}

#[test]
fn decode_circular_keeps_the_disc() {
    // 6x6: a pixel is painted when (2x-6)^2 + (2y-6)^2 > 36.
    let img = decode_circular(&png_bytes(6, 6, numbered(6, 6))).unwrap();
    assert_eq!((img.width, img.height), (6, 6));
    for y in 0..6u32 {
        for x in 0..6u32 {
            let i = (4 * (y * 6 + x)) as usize;
            let dx = 2 * x as i64 - 6;
            let dy = 2 * y as i64 - 6;
            let px = &img.pixels[i..i + 4];
            if dx * dx + dy * dy > 36 {
                assert_eq!(px, &[0, 0, 0, 255]);
            } else {
                assert_eq!(px, &[x as u8, y as u8, 7, 200]);
            }
        }
    }
    // the centre pixel is kept, the corner is not
    assert_eq!(&img.pixels[4 * (3 * 6 + 3)..4 * (3 * 6 + 3) + 4], &[3, 3, 7, 200]);
    assert_eq!(&img.pixels[0..4], &[0, 0, 0, 255]);
}

#[test]
fn decode_circular_rejects_garbage() {
    assert!(decode_circular(b"\x89PNG broken").is_none());
}

use std::io::Cursor;
use three_rs::texture::{Texture, TextureError};

fn png(width: u32, height: u32, raw: Vec<u8>) -> Vec<u8> {
    let img = image::RgbImage::from_raw(width, height, raw).unwrap();
    let mut out = Cursor::new(Vec::new());
    image::DynamicImage::ImageRgb8(img).write_to(&mut out, image::ImageFormat::Png).unwrap();
    out.into_inner()
}

#[test]
fn texel_clamps_into_the_grid() {
    let t = Texture::new(3, 2, vec![0, 1, 2, 10, 11, 12]);
    assert_eq!(t.texel(0, 0), Some(0));
    assert_eq!(t.texel(2, 0), Some(2));
    assert_eq!(t.texel(1, 1), Some(11));
    assert_eq!(t.texel(9, 0), Some(2));
    assert_eq!(t.texel(0, 9), Some(10));
    assert_eq!(t.texel(usize::MAX, usize::MAX), Some(12));
}

#[test]
fn texel_of_missing_data_is_none() {
    let t: Texture<u8> = Texture::new(3, 2, vec![0, 1]);
    assert_eq!(t.texel(0, 0), Some(0));
    assert_eq!(t.texel(2, 1), None);
    let e: Texture<u8> = Texture::new(0, 0, vec![]);
    assert_eq!(e.texel(0, 0), None);
}

#[test]
fn from_rgb8_groups_samples_into_pixels() {
    let t = Texture::from_rgb8(2, 1, &vec![1, 2, 3, 4, 5, 6, 7]);
    assert_eq!((t.width, t.height), (2, 1));
    assert_eq!(t.data, vec![(1, 2, 3), (4, 5, 6)]);
}

#[test]
fn decode_reads_a_png() {
    let bytes = png(2, 2, vec![255, 0, 0, 0, 255, 0, 0, 0, 255, 10, 20, 30]);
    let t = Texture::decode(&bytes).unwrap();
    assert_eq!((t.width, t.height), (2, 2));
    assert_eq!(t.data, vec![(255, 0, 0), (0, 255, 0), (0, 0, 255), (10, 20, 30)]);
    assert_eq!(t.texel(1, 1), Some((10, 20, 30)));
}

#[test]
fn decode_refuses_what_is_no_image() {
    match Texture::decode(b"not an image at all") {
        Err(TextureError::Image(_)) => {}
        Ok(_) => panic!("decoded garbage"),
    }
    assert!(Texture::decode(&[]).is_err());
}

#[test]
fn a_full_texture_answers_every_lookup() {
    let t = Texture::new(3, 2, vec![0, 1, 2, 10, 11, 12]);
    for y in [0, 1, 2, 7, usize::MAX] {
        for x in [0, 1, 2, 3, 100, usize::MAX] {
            assert!(t.texel(x, y).is_some());
        }
    }
}

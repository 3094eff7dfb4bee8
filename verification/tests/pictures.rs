use std::io::Cursor;

use fabsebot::config::{QUOTE_HEIGHT, QUOTE_WIDTH};
use fabsebot::image::{quote_text_colour, RgbaImage as Pixels};
use fabsebot::picture::{decode_avatar, quote_frames, AvatarFrame};
use image::codecs::gif::GifEncoder;
use image::{Delay, Frame, ImageFormat, Rgba, RgbaImage};

fn png_bytes(img: &RgbaImage) -> Vec<u8> {
    let mut out = Vec::new();
    img.write_to(&mut Cursor::new(&mut out), ImageFormat::Png).unwrap();
    out
}

fn pixel(p: &Pixels, x: u32, y: u32) -> [u8; 4] {
    let i = 4 * (y as usize * p.width as usize + x as usize);
    [p.data[i], p.data[i + 1], p.data[i + 2], p.data[i + 3]]
}

fn still_frame(width: u32, height: u32, colour: [u8; 4]) -> AvatarFrame {
    let data = (0..width * height).flat_map(|_| colour).collect();
    AvatarFrame { image: Pixels::from_raw(width, height, data).unwrap(), delay_numer: 0, delay_denom: 1 }
}

#[test]
fn still_picture_decodes_to_one_frame() {
    let img = RgbaImage::from_fn(2, 3, |x, y| Rgba([x as u8 * 100, y as u8 * 50, 7, 255]));
    let avatar = decode_avatar(&png_bytes(&img)).unwrap();
    assert!(!avatar.animated);
    assert_eq!(avatar.frames.len(), 1);
    let f = &avatar.frames[0];
    assert_eq!((f.image.width, f.image.height), (2, 3));
    assert_eq!(f.image.data, img.into_raw());
    assert_eq!((f.delay_numer, f.delay_denom), (0, 1));
}

#[test]
fn gif_decodes_every_frame_in_order_with_its_delay() {
    let mut bytes = Vec::new();
    {
        let mut encoder = GifEncoder::new(&mut bytes);
        for (shade, ms) in [(0u8, 100u32), (255u8, 200u32)] {
            let img = RgbaImage::from_pixel(2, 2, Rgba([shade, shade, shade, 255]));
            encoder.encode_frame(Frame::from_parts(img, 0, 0, Delay::from_numer_denom_ms(ms, 1))).unwrap();
        }
    }
    let avatar = decode_avatar(&bytes).unwrap();
    assert!(avatar.animated);
    assert_eq!(avatar.frames.len(), 2);
    assert_eq!(avatar.frames[0].image.data, vec![0, 0, 0, 255].repeat(4));
    assert_eq!(avatar.frames[1].image.data, vec![255, 255, 255, 255].repeat(4));
    assert_eq!((avatar.frames[0].delay_numer, avatar.frames[0].delay_denom), (100, 1));
    assert_eq!((avatar.frames[1].delay_numer, avatar.frames[1].delay_denom), (200, 1));
}

#[test]
fn unreadable_avatar_decodes_to_nothing() {
    assert!(decode_avatar(b"not a picture").is_none());
    assert!(decode_avatar(b"").is_none());
    assert!(decode_avatar(b"GIF89a").is_none());
}

#[test]
fn quote_frames_keep_count_order_and_delay() {
    let frames = vec![
        AvatarFrame { delay_numer: 30, delay_denom: 1, ..still_frame(4, 4, [255, 255, 255, 255]) },
        AvatarFrame { delay_numer: 50, delay_denom: 3, ..still_frame(4, 4, [255, 255, 255, 0]) },
    ];
    let out = quote_frames(frames, None, false, true, false, false);
    assert_eq!(out.len(), 2);
    assert_eq!((out[0].delay_numer, out[0].delay_denom), (30, 1));
    assert_eq!((out[1].delay_numer, out[1].delay_denom), (50, 3));
    for f in &out {
        assert_eq!((f.image.width, f.image.height), (QUOTE_WIDTH, QUOTE_HEIGHT));
        assert_eq!(f.image.data.len(), 4 * (QUOTE_WIDTH * QUOTE_HEIGHT) as usize);
    }
    // An opaque white avatar covers the left square; the rest stays the black background.
    assert_eq!(pixel(&out[0].image, 10, 10), [255, 255, 255, 255]);
    assert_eq!(pixel(&out[0].image, QUOTE_WIDTH - 1, 0), [0, 0, 0, 255]);
    // A transparent avatar leaves the background as it was.
    assert!(out[1].image.data.chunks(4).all(|p| p == [0, 0, 0, 255]));
}

#[test]
fn reversed_quote_lays_the_avatar_on_the_right() {
    let out = quote_frames(vec![still_frame(2, 2, [255, 255, 255, 255])], None, true, true, false, true);
    // Light theme: white background, and the white avatar is on the right.
    assert_eq!(pixel(&out[0].image, QUOTE_WIDTH - 1, QUOTE_HEIGHT - 1), [255, 255, 255, 255]);
    let out = quote_frames(vec![still_frame(2, 2, [0, 0, 0, 255])], None, true, true, false, true);
    assert_eq!(pixel(&out[0].image, QUOTE_WIDTH - 1, 0), [0, 0, 0, 255]);
    assert_eq!(pixel(&out[0].image, 0, 0), [255, 255, 255, 255]);
}

#[test]
fn quote_text_colour_contrasts_with_the_background() {
    assert_eq!(quote_text_colour(&None, true), [0, 0, 0, 255]);
    assert_eq!(quote_text_colour(&None, false), [255, 255, 255, 255]);
    assert_eq!(quote_text_colour(&Some("dark".to_owned()), true), [255, 255, 255, 255]);
}

use fabsebot::config::{QUOTE_HEIGHT, QUOTE_WIDTH};
use fabsebot::image::{apply_gradient_to_avatar, convert_to_bw, get_base_image, RgbaImage};

fn gray(r: u32, g: u32, b: u32) -> u8 {
    ((r * 77 + g * 150 + b * 29) >> 8) as u8
}

#[test]
fn bw_uses_weighted_luminance() {
    let mut img = RgbaImage::from_raw(2, 1, vec![255, 0, 0, 10, 10, 200, 30, 255]).unwrap();
    convert_to_bw(&mut img);
    let a = gray(255, 0, 0);
    let b = gray(10, 200, 30);
    assert_eq!(img.data, vec![a, a, a, 10, b, b, b, 255]);
}

#[test]
fn bw_twice_is_bw_once() {
    let mut img = RgbaImage::from_raw(2, 2, (0..16u8).map(|x| x * 13).collect()).unwrap();
    convert_to_bw(&mut img);
    let once = img.data.clone();
    convert_to_bw(&mut img);
    assert_eq!(img.data, once);
}

#[test]
fn raw_image_needs_four_bytes_a_pixel() {
    assert!(RgbaImage::from_raw(2, 2, vec![0; 15]).is_none());
    assert!(RgbaImage::from_raw(2, 2, vec![0; 16]).is_some());
}

#[test]
fn gradient_fades_right_half() {
    let mut img = RgbaImage::from_pixel(4, 1, [9, 9, 9, 255]);
    apply_gradient_to_avatar(&mut img, false);
    let alphas: Vec<u8> = img.data.chunks(4).map(|p| p[3]).collect();
    assert_eq!(alphas, vec![255, 255, 255, 64]);
    assert!(img.data.chunks(4).all(|p| p[0] == 9 && p[1] == 9 && p[2] == 9));
}

#[test]
fn reversed_gradient_fades_left_half() {
    let mut img = RgbaImage::from_pixel(4, 2, [1, 2, 3, 200]);
    apply_gradient_to_avatar(&mut img, true);
    let alphas: Vec<u8> = img.data.chunks(4).map(|p| p[3]).collect();
    assert_eq!(alphas, vec![0, 49, 200, 200, 0, 49, 200, 200]);
}

#[test]
fn base_image_colours() {
    let (img, text) = get_base_image(None, true);
    assert_eq!((img.width, img.height), (QUOTE_WIDTH, QUOTE_HEIGHT));
    assert_eq!(&img.data[0..4], &[255, 255, 255, 255]);
    assert_eq!(text, [0, 0, 0, 255]);
    let (img, text) = get_base_image(Some("dark".to_string()), true);
    assert_eq!(&img.data[4..8], &[0, 0, 0, 255]);
    assert_eq!(text, [255, 255, 255, 255]);
    let (img, _) = get_base_image(None, false);
    assert_eq!(img.data.len(), (QUOTE_WIDTH * QUOTE_HEIGHT * 4) as usize);
    assert!(img.data.chunks(4).all(|p| p == [0, 0, 0, 255]));
}

#[test]
fn gradient_fades_towards_the_edge() {
    let mut img = RgbaImage::from_raw(8, 1, vec![255; 32]).unwrap();
    apply_gradient_to_avatar(&mut img, false);
    let alphas: Vec<u8> = img.data.chunks(4).map(|p| p[3]).collect();
    assert!(alphas.windows(2).all(|w| w[0] >= w[1]));
    assert_eq!(&alphas[..4], &[255, 255, 255, 255]);
    let mut rev = RgbaImage::from_raw(8, 1, vec![255; 32]).unwrap();
    apply_gradient_to_avatar(&mut rev, true);
    let alphas: Vec<u8> = rev.data.chunks(4).map(|p| p[3]).collect();
    assert!(alphas[..4].windows(2).all(|w| w[0] <= w[1]));
}

//! The frames of a quote picture: the author's avatar is decoded, squared, styled and laid
//! over the quote's background, one picture frame for each frame of the avatar.
use std::io::Cursor;
use ::image::{codecs::gif::GifDecoder, imageops, AnimationDecoder};
use vstd::prelude::*;
use crate::config::{QUOTE_HEIGHT, QUOTE_WIDTH};
use crate::image::{
    apply_gradient_to_avatar, base_colours, bw_data, convert_to_bw, get_base_image, gradient_data,
    RgbaImage,
};

verus! {

/// One frame of a picture and how long it is shown, in milliseconds as a fraction.
pub struct AvatarFrame {
    pub image: RgbaImage,
    pub delay_numer: u32,
    pub delay_denom: u32,
}

/// What the gif decoder made of some bytes.
pub enum GifFrames {
    /// The bytes do not start a gif.
    NotGif,
    /// A gif whose frames could not all be decoded.
    Broken,
    /// The frames of the gif, in order.
    Frames(Vec<AvatarFrame>),
}

/// An avatar ready to be quoted: its frames in order, and whether it moves.
pub struct DecodedAvatar {
    pub frames: Vec<AvatarFrame>,
    pub animated: bool,
}

/// An image as plain values: width, height and bytes.
pub open spec fn image_view(i: RgbaImage) -> (u32, u32, Seq<u8>) {
    (i.width, i.height, i.data@)
}

/// A frame as plain values: width, height, bytes and delay.
pub open spec fn frame_view(f: AvatarFrame) -> (u32, u32, Seq<u8>, u32, u32) {
    (f.image.width, f.image.height, f.image.data@, f.delay_numer, f.delay_denom)
}

/// The frames that the image crate's gif decoder gives for some bytes (`None` when the bytes
/// are no gif, `Some(None)` when its frames cannot be decoded).
pub uninterp spec fn gif_decoding(bytes: Seq<u8>) -> Option<Option<Seq<(u32, u32, Seq<u8>, u32, u32)>>>;

/// The RGBA picture that the image crate decodes from some bytes, of any format it knows.
pub uninterp spec fn picture_decoding(bytes: Seq<u8>) -> Option<(u32, u32, Seq<u8>)>;

/// The bytes of an image resized by the image crate with the Catmull-Rom filter.
pub uninterp spec fn resized(width: u32, height: u32, data: Seq<u8>, new_width: u32, new_height: u32) -> Seq<u8>;

/// The bytes of `bottom` after the image crate blends `top` onto it at `(x, y)`.
pub uninterp spec fn overlaid(
    bottom_width: u32,
    bottom_height: u32,
    bottom: Seq<u8>,
    top_width: u32,
    top_height: u32,
    top: Seq<u8>,
    x: i64,
    y: i64,
) -> Seq<u8>;

/// `GifDecoder::new` and `into_frames().collect_frames()` of the image crate, each frame
/// taken apart into its pixels and its delay. Every image buffer of that crate holds at
/// least four bytes per pixel, and every delay has a nonzero denominator.
#[verifier::external_body]
fn gif_frames(bytes: &[u8]) -> (r: GifFrames)
    ensures
        match (r, gif_decoding(bytes@)) {
            (GifFrames::NotGif, None) => true,
            (GifFrames::Broken, Some(None)) => true,
            (GifFrames::Frames(v), Some(Some(fs))) => {
                &&& v@.len() == fs.len()
                &&& forall|i: int| 0 <= i < fs.len() ==> #[trigger] frame_view(v@[i]) == fs[i]
                &&& forall|i: int|
                    0 <= i < fs.len() ==> #[trigger] v@[i].image.data@.len() >= 4 * (
                    v@[i].image.width as int * v@[i].image.height as int) && v@[i].delay_denom > 0
            },
            _ => false,
        },
{
    match GifDecoder::new(Cursor::new(bytes)) {
        Err(_) => GifFrames::NotGif,
        Ok(decoder) => match decoder.into_frames().collect_frames() {
            Err(_) => GifFrames::Broken,
            Ok(frames) => GifFrames::Frames(frames.into_iter().map(|f| {
                let (delay_numer, delay_denom) = f.delay().numer_denom_ms();
                let (width, height) = f.buffer().dimensions();
                AvatarFrame { image: RgbaImage { width, height, data: f.into_buffer().into_raw() }, delay_numer, delay_denom }
            }).collect()),
        },
    }
}

/// `load_from_memory(..).to_rgba8()` of the image crate: the picture in RGBA, whatever
/// format it came in. Every image buffer of that crate holds at least four bytes per pixel.
#[verifier::external_body]
fn still_picture(bytes: &[u8]) -> (r: Option<RgbaImage>)
    ensures
        match (r, picture_decoding(bytes@)) {
            (Some(i), Some(p)) => image_view(i) == p && i.data@.len() >= 4 * (i.width as int
                * i.height as int),
            (None, None) => true,
            _ => false,
        },
{
    ::image::load_from_memory(bytes).ok().map(|picture| {
        let rgba = picture.to_rgba8();
        let (width, height) = rgba.dimensions();
        RgbaImage { width, height, data: rgba.into_raw() }
    })
}

/// `imageops::resize` of the image crate with the Catmull-Rom filter. The result has the
/// size asked for and exactly four bytes per pixel (it is made by `ImageBuffer::new`). The
/// bounds keep the buffers that the crate allocates within `usize`.
#[verifier::external_body]
fn resize_image(img: &RgbaImage, new_width: u32, new_height: u32) -> (r: RgbaImage)
    requires
        img.wf(),
        4 * (img.width as int * new_height as int) <= usize::MAX,
        4 * (new_width as int * new_height as int) <= usize::MAX,
    ensures
        r.wf(),
        r.width == new_width,
        r.height == new_height,
        r.data@ == resized(img.width, img.height, img.data@, new_width, new_height),
{
    let source = ::image::RgbaImage::from_raw(img.width, img.height, img.data.clone())
        .expect("a well-formed image holds four bytes per pixel");
    let out = imageops::resize(&source, new_width, new_height, imageops::FilterType::CatmullRom);
    RgbaImage { width: new_width, height: new_height, data: out.into_raw() }
}

/// `imageops::overlay` of the image crate: blends `top` onto `bottom` at `(x, y)`. The
/// bottom image keeps its size and its buffer.
#[verifier::external_body]
fn overlay_image(bottom: &mut RgbaImage, top: &RgbaImage, x: i64, y: i64)
    requires
        old(bottom).wf(),
        top.wf(),
    ensures
        final(bottom).wf(),
        final(bottom).width == old(bottom).width,
        final(bottom).height == old(bottom).height,
        final(bottom).data@ == overlaid(
            old(bottom).width,
            old(bottom).height,
            old(bottom).data@,
            top.width,
            top.height,
            top.data@,
            x,
            y,
        ),
{
    let mut base = ::image::RgbaImage::from_raw(bottom.width, bottom.height, bottom.data.clone())
        .expect("a well-formed image holds four bytes per pixel");
    let layer = ::image::RgbaImage::from_raw(top.width, top.height, top.data.clone())
        .expect("a well-formed image holds four bytes per pixel");
    imageops::overlay(&mut base, &layer, x, y);
    bottom.data = base.into_raw();
}

/// A decoded image cut to its pixels: the first four bytes per pixel of its buffer, which
/// are all that the image crate reads of it.
pub open spec fn fitted(width: u32, height: u32, data: Seq<u8>) -> Seq<u8> {
    data.take(4 * (width as int * height as int))
}

/// What `decode_avatar` gives for some bytes: the frames of a gif when they are one, a
/// broken gif giving nothing; else the one frame of a still picture, without delay.
pub open spec fn avatar_frames(bytes: Seq<u8>) -> Option<(Seq<(u32, u32, Seq<u8>, u32, u32)>, bool)> {
    match gif_decoding(bytes) {
        Some(Some(fs)) => Some(
            (
                fs.map_values(|f: (u32, u32, Seq<u8>, u32, u32)| (f.0, f.1, fitted(f.0, f.1, f.2), f.3, f.4)),
                true,
            ),
        ),
        Some(None) => None,
        None => match picture_decoding(bytes) {
            Some(p) => Some((seq![(p.0, p.1, fitted(p.0, p.1, p.2), 0u32, 1u32)], false)),
            None => None,
        },
    }
}

/// The image cut to four bytes per pixel.
fn fit(image: RgbaImage) -> (r: RgbaImage)
    requires
        image.data@.len() >= 4 * (image.width as int * image.height as int),
    ensures
        r.wf(),
        r.width == image.width,
        r.height == image.height,
        r.data@ == fitted(image.width, image.height, image.data@),
{
    let RgbaImage { width, height, mut data } = image;
    let len = data.len();
    assert(0 <= width as int * height as int) by (nonlinear_arith);
    let n = 4 * ((width as usize) * (height as usize));
    data.truncate(n);
    RgbaImage { width, height, data }
}

/// Decodes an avatar: as a gif when the bytes start one, else as a still picture of any
/// format that the image crate reads. `None` when neither decoding succeeds, or when the
/// frames of a gif cannot be decoded.
pub fn decode_avatar(bytes: &[u8]) -> (r: Option<DecodedAvatar>)
    ensures
        match (r, avatar_frames(bytes@)) {
            (Some(d), Some((fs, animated))) => {
                &&& d.animated == animated
                &&& d.frames@.len() == fs.len()
                &&& forall|i: int| 0 <= i < fs.len() ==> #[trigger] frame_view(d.frames@[i]) == fs[i]
                &&& forall|i: int|
                    0 <= i < fs.len() ==> #[trigger] d.frames@[i].image.wf() && d.frames@[i].delay_denom > 0
            },
            (None, None) => true,
            _ => false,
        },
{
    match gif_frames(bytes) {
        GifFrames::NotGif => match still_picture(bytes) {
            Some(picture) => {
                let image = fit(picture);
                let mut frames: Vec<AvatarFrame> = Vec::new();
                frames.push(AvatarFrame { image, delay_numer: 0, delay_denom: 1 });
                let ghost want = avatar_frames(bytes@).unwrap().0;
                assert(frame_view(frames@[0]) == want[0]);
                Some(DecodedAvatar { frames, animated: false })
            },
            None => None,
        },
        GifFrames::Broken => None,
        GifFrames::Frames(raw) => {
            let ghost fs = gif_decoding(bytes@).unwrap().unwrap();
            let ghost want = avatar_frames(bytes@).unwrap().0;
            let mut raw = raw;
            let mut frames: Vec<AvatarFrame> = Vec::new();
            let ghost raw0 = raw@;
            let n = raw.len();
            let mut i: usize = 0;
            while i < n
                invariant
                    n == raw0.len(),
                    n == fs.len(),
                    want == fs.map_values(|f: (u32, u32, Seq<u8>, u32, u32)| (f.0, f.1, fitted(f.0, f.1, f.2), f.3, f.4)),
                    forall|k: int| 0 <= k < n ==> #[trigger] frame_view(raw0[k]) == fs[k],
                    forall|k: int|
                        0 <= k < n ==> #[trigger] raw0[k].image.data@.len() >= 4 * (
                        raw0[k].image.width as int * raw0[k].image.height as int) && raw0[k].delay_denom > 0,
                    i <= n,
                    raw@.len() == n - i,
                    raw@ == raw0.skip(i as int),
                    frames@.len() == i,
                    forall|k: int| 0 <= k < i ==> #[trigger] frame_view(frames@[k]) == want[k],
                    forall|k: int| 0 <= k < i ==> #[trigger] frames@[k].image.wf() && frames@[k].delay_denom > 0,
                decreases n - i,
            {
                let f = raw.remove(0);
                assert(f == raw0[i as int]);
                assert(frame_view(raw0[i as int]) == fs[i as int]);
                assert(want[i as int] == (fs[i as int].0, fs[i as int].1, fitted(fs[i as int].0, fs[i as int].1, fs[i as int].2), fs[i as int].3, fs[i as int].4));
                let image = fit(f.image);
                frames.push(AvatarFrame { image, delay_numer: f.delay_numer, delay_denom: f.delay_denom });
                assert(frame_view(frames@[i as int]) == want[i as int]);
                assert(raw@ =~= raw0.skip(i + 1));
                i += 1;
            }
            Some(DecodedAvatar { frames, animated: true })
        },
    }
}

/// The avatar as a quote shows it: resized to a square as high as the quote, in black and
/// white unless `is_colour`, faded when `is_gradient`.
pub open spec fn styled_avatar(
    width: u32,
    height: u32,
    data: Seq<u8>,
    is_colour: bool,
    is_gradient: bool,
    is_reverse: bool,
) -> Seq<u8> {
    let square = resized(width, height, data, QUOTE_HEIGHT, QUOTE_HEIGHT);
    let toned = if is_colour {
        square
    } else {
        bw_data(square)
    };
    if is_gradient {
        gradient_data(toned, QUOTE_HEIGHT as int, is_reverse)
    } else {
        toned
    }
}

/// The column at which the avatar is laid: on the right when reversed, else on the left.
pub open spec fn avatar_x(is_reverse: bool) -> i64 {
    if is_reverse {
        (QUOTE_WIDTH - QUOTE_HEIGHT) as i64
    } else {
        0
    }
}

/// The bytes of the empty quote picture: every pixel the background colour.
pub open spec fn base_data(has_theme: bool, is_light: bool) -> Seq<u8> {
    Seq::new(
        (4 * (QUOTE_WIDTH as int * QUOTE_HEIGHT as int)) as nat,
        |i: int| base_colours(has_theme, is_light).0[i % 4],
    )
}

/// The bytes of a quote frame before its text is written: the styled avatar blended onto
/// the background at `avatar_x`, at the top.
pub open spec fn quote_frame_data(
    width: u32,
    height: u32,
    data: Seq<u8>,
    has_theme: bool,
    is_light: bool,
    is_colour: bool,
    is_gradient: bool,
    is_reverse: bool,
) -> Seq<u8> {
    overlaid(
        QUOTE_WIDTH,
        QUOTE_HEIGHT,
        base_data(has_theme, is_light),
        QUOTE_HEIGHT,
        QUOTE_HEIGHT,
        styled_avatar(width, height, data, is_colour, is_gradient, is_reverse),
        avatar_x(is_reverse),
        0,
    )
}

/// Whether a frame can be quoted: its buffer holds four bytes per pixel, and resizing it
/// to the quote's height stays within the buffers that `usize` can measure.
pub open spec fn quotable(f: AvatarFrame) -> bool {
    &&& f.image.wf()
    &&& 4 * (f.image.width as int * QUOTE_HEIGHT as int) <= usize::MAX
}

/// The frames of a quote picture, before its text is written: one for each frame of the
/// avatar, in order and with its delay, each the background of the theme with the styled
/// avatar laid over it.
pub fn quote_frames(
    frames: Vec<AvatarFrame>,
    theme: Option<String>,
    is_light: bool,
    is_colour: bool,
    is_gradient: bool,
    is_reverse: bool,
) -> (r: Vec<AvatarFrame>)
    requires
        forall|i: int| 0 <= i < frames@.len() ==> #[trigger] quotable(frames@[i]),
    ensures
        r@.len() == frames@.len(),
        forall|i: int|
            0 <= i < r@.len() ==> {
                &&& (#[trigger] r@[i]).image.wf()
                &&& r@[i].image.width == QUOTE_WIDTH
                &&& r@[i].image.height == QUOTE_HEIGHT
                &&& r@[i].image.data@ == quote_frame_data(
                    frames@[i].image.width,
                    frames@[i].image.height,
                    frames@[i].image.data@,
                    theme is Some,
                    is_light,
                    is_colour,
                    is_gradient,
                    is_reverse,
                )
                &&& r@[i].delay_numer == frames@[i].delay_numer
                &&& r@[i].delay_denom == frames@[i].delay_denom
            },
{
    let ghost has_theme = theme is Some;
    let (base, _) = get_base_image(theme, is_light);
    assert forall|i: int| 0 <= i < base.data@.len() implies #[trigger] base.data@[i] == base_colours(
        has_theme,
        is_light,
    ).0[i % 4] by {
        let p = i / 4;
        let c = i % 4;
        assert(i == 4 * p + c);
        assert(0 <= p < QUOTE_WIDTH * QUOTE_HEIGHT);
    }
    assert(base.data@ =~= base_data(has_theme, is_light));
    let x: i64 = if is_reverse {
        (QUOTE_WIDTH - QUOTE_HEIGHT) as i64
    } else {
        0
    };
    let mut out: Vec<AvatarFrame> = Vec::new();
    let n = frames.len();
    let mut i: usize = 0;
    while i < n
        invariant
            n == frames@.len(),
            i <= n,
            base.wf(),
            base.width == QUOTE_WIDTH,
            base.height == QUOTE_HEIGHT,
            base.data@ == base_data(has_theme, is_light),
            x == avatar_x(is_reverse),
            forall|k: int| 0 <= k < frames@.len() ==> #[trigger] quotable(frames@[k]),
            out@.len() == i,
            forall|k: int|
                0 <= k < i ==> {
                    &&& (#[trigger] out@[k]).image.wf()
                    &&& out@[k].image.width == QUOTE_WIDTH
                    &&& out@[k].image.height == QUOTE_HEIGHT
                    &&& out@[k].image.data@ == quote_frame_data(
                        frames@[k].image.width,
                        frames@[k].image.height,
                        frames@[k].image.data@,
                        has_theme,
                        is_light,
                        is_colour,
                        is_gradient,
                        is_reverse,
                    )
                    &&& out@[k].delay_numer == frames@[k].delay_numer
                    &&& out@[k].delay_denom == frames@[k].delay_denom
                },
        decreases n - i,
    {
        let frame = &frames[i];
        assert(quotable(frames@[i as int]));
        let mut avatar = resize_image(&frame.image, QUOTE_HEIGHT, QUOTE_HEIGHT);
        if !is_colour {
            convert_to_bw(&mut avatar);
        }
        if is_gradient {
            apply_gradient_to_avatar(&mut avatar, is_reverse);
        }
        assert(avatar.data@ == styled_avatar(
            frame.image.width,
            frame.image.height,
            frame.image.data@,
            is_colour,
            is_gradient,
            is_reverse,
        ));
        let mut picture = RgbaImage { width: base.width, height: base.height, data: base.data.clone() };
        assert(picture.data@ =~= base.data@);
        overlay_image(&mut picture, &avatar, x, 0);
        out.push(AvatarFrame { image: picture, delay_numer: frame.delay_numer, delay_denom: frame.delay_denom });
        i += 1;
    }
    out
}

} // verus!

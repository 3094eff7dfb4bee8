//! Pixel operations on the RGBA images that quotes are drawn on.
use vstd::prelude::*;
use crate::config::{QUOTE_HEIGHT, QUOTE_WIDTH};

verus! {

/// An RGBA image: `width * height` pixels, row by row, four bytes (red, green, blue,
/// alpha) each.
pub struct RgbaImage {
    pub width: u32,
    pub height: u32,
    pub data: Vec<u8>,
}

impl RgbaImage {
    /// The buffer holds exactly four bytes per pixel.
    pub open spec fn wf(&self) -> bool {
        self.data@.len() == 4 * (self.width as int * self.height as int)
    }

    /// An image whose every pixel is `pixel` (`ImageBuffer::from_pixel`).
    pub fn from_pixel(width: u32, height: u32, pixel: [u8; 4]) -> (img: RgbaImage)
        requires
            4 * (width as int * height as int) <= usize::MAX,
        ensures
            img.wf(),
            img.width == width,
            img.height == height,
            forall|p: int, c: int|
                0 <= p < width as int * height as int && 0 <= c < 4 ==> #[trigger] img.data@[4 * p
                    + c] == pixel[c],
    {
        let n = (width as usize) * (height as usize);
        let mut data: Vec<u8> = Vec::new();
        let mut p: usize = 0;
        while p < n
            invariant
                n == width as int * height as int,
                4 * n <= usize::MAX,
                p <= n,
                data@.len() == 4 * p,
                forall|q: int, c: int| 0 <= q < p && 0 <= c < 4 ==> #[trigger] data@[4 * q + c] == pixel[c],
            decreases n - p,
        {
            data.push(pixel[0]);
            data.push(pixel[1]);
            data.push(pixel[2]);
            data.push(pixel[3]);
            p += 1;
        }
        RgbaImage { width, height, data }
    }

    /// An image of the given size over a buffer, when the buffer holds four bytes per
    /// pixel (`ImageBuffer::from_raw`).
    pub fn from_raw(width: u32, height: u32, data: Vec<u8>) -> (img: Option<RgbaImage>)
        ensures
            img is Some <==> data@.len() == 4 * (width as int * height as int),
            img matches Some(i) ==> i.wf() && i.width == width && i.height == height && i.data@
                == data@,
    {
        let w = width as u64;
        let h = height as u64;
        assert(w * h <= u32::MAX as int * u32::MAX as int) by (nonlinear_arith)
            requires
                w <= u32::MAX,
                h <= u32::MAX,
        ;
        let n = w * h;
        let len = data.len() as u64;
        assert(len == data@.len());
        if n <= (u64::MAX / 4) && len == 4 * n {
            Some(RgbaImage { width, height, data })
        } else {
            None
        }
    }
}

/// Luminance of a colour: `(77 r + 150 g + 29 b) / 256`.
pub open spec fn gray(r: u8, g: u8, b: u8) -> u8 {
    ((77 * r as int + 150 * g as int + 29 * b as int) / 256) as u8
}

/// The bytes of a black-and-white copy: each pixel's red, green and blue become its
/// luminance; alpha stays.
pub open spec fn bw_data(s: Seq<u8>) -> Seq<u8> {
    Seq::new(
        s.len(),
        |i: int|
            if i % 4 == 3 {
                s[i]
            } else {
                gray(s[i - i % 4], s[i - i % 4 + 1], s[i - i % 4 + 2])
            },
    )
}

/// Turns the image into black and white.
pub fn convert_to_bw(image: &mut RgbaImage)
    requires
        old(image).wf(),
    ensures
        final(image).wf(),
        final(image).width == old(image).width,
        final(image).height == old(image).height,
        final(image).data@ == bw_data(old(image).data@),
{
    let ghost orig = image.data@;
    let len = image.data.len();
    assert(len % 4 == 0);
    let mut i: usize = 0;
    while i < len
        invariant
            len == orig.len(),
            len % 4 == 0,
            i % 4 == 0,
            i <= len,
            image.data@.len() == len,
            image.width == old(image).width,
            image.height == old(image).height,
            orig == old(image).data@,
            forall|j: int| 0 <= j < i ==> #[trigger] image.data@[j] == bw_data(orig)[j],
            forall|j: int| i <= j < len ==> #[trigger] image.data@[j] == orig[j],
        decreases len - i,
    {
        let r = image.data[i] as u32;
        let g = image.data[i + 1] as u32;
        let b = image.data[i + 2] as u32;
        let sum: u32 = r * 77 + g * 150 + b * 29;
        assert(sum >> 8u32 == sum / 256) by (bit_vector);
        let y = (sum >> 8) as u8;
        assert(y == gray(orig[i as int], orig[i + 1], orig[i + 2]));
        image.data.set(i, y);
        image.data.set(i + 1, y);
        image.data.set(i + 2, y);
        assert forall|j: int| 0 <= j < i + 4 implies #[trigger] image.data@[j] == bw_data(orig)[j] by {
            if j >= i {
                assert(j - j % 4 == i);
            }
        }
        i += 4;
    }
    assert(image.data@ =~= bw_data(orig));
}

/// Law: turning a black-and-white image into black and white changes nothing.
pub proof fn bw_idempotent(s: Seq<u8>)
    requires
        s.len() % 4 == 0,
    ensures
        bw_data(bw_data(s)) == bw_data(s),
{
    let t = bw_data(s);
    assert forall|i: int| 0 <= i < s.len() implies #[trigger] bw_data(t)[i] == t[i] by {
        if i % 4 != 3 {
            let q = i - i % 4;
            assert(q % 4 == 0);
            assert(t[q] == t[q + 1] && t[q + 1] == t[q + 2]);
            let v = t[q];
            assert((77 * v as int + 150 * v as int + 29 * v as int) / 256 == v as int);
            assert(t[i] == v);
        }
    }
    assert(bw_data(t) =~= t);
}

/// The alpha factor (out of 255) that the gradient gives column `x` of its band of
/// `band` columns.
pub open spec fn gradient_factor(x: int, band: int, is_reverse: bool) -> int {
    let progress = x * 255 / band;
    if is_reverse {
        progress * progress / 255
    } else {
        (255 - progress) * (255 - progress) / 255
    }
}

/// First column of the gradient band of an image `width` pixels wide: the band covers
/// half the width, on the left when reversed, else on the right.
pub open spec fn band_start(width: int, is_reverse: bool) -> int {
    if is_reverse {
        0
    } else {
        width - width / 2
    }
}

/// The bytes of the image after the gradient: in the band, each pixel's alpha is scaled
/// by the factor of its column; everything else stays.
pub open spec fn gradient_data(s: Seq<u8>, width: int, is_reverse: bool) -> Seq<u8> {
    let band = width / 2;
    let start = band_start(width, is_reverse);
    Seq::new(
        s.len(),
        |i: int|
            {
                let col = (i / 4) % width;
                if i % 4 == 3 && start <= col < start + band {
                    (s[i] as int * gradient_factor(col - start, band, is_reverse) / 255) as u8
                } else {
                    s[i]
                }
            },
    )
}

proof fn lemma_factor_range(x: int, band: int, is_reverse: bool)
    requires
        0 <= x < band,
    ensures
        0 <= x * 255 / band <= 254,
        0 <= gradient_factor(x, band, is_reverse) <= 255,
{
    assert(0 <= x * 255 / band <= 254) by (nonlinear_arith)
        requires
            0 <= x < band,
    ;
    let p = x * 255 / band;
    assert(0 <= p * p / 255 <= 255) by (nonlinear_arith)
        requires
            0 <= p <= 254,
    ;
    assert(0 <= (255 - p) * (255 - p) / 255 <= 255) by (nonlinear_arith)
        requires
            0 <= p <= 254,
    ;
}

proof fn lemma_col_step(p: int, w: int, col: int)
    requires
        w > 0,
        p >= 0,
        p % w == col,
    ensures
        col + 1 < w ==> (p + 1) % w == col + 1,
        col + 1 == w ==> (p + 1) % w == 0,
{
    assert(col + 1 < w ==> (p + 1) % w == col + 1) by (nonlinear_arith)
        requires
            w > 0,
            p >= 0,
            p % w == col,
    ;
    assert(col + 1 == w ==> (p + 1) % w == 0) by (nonlinear_arith)
        requires
            w > 0,
            p >= 0,
            p % w == col,
    ;
}

/// Fades the alpha of half of the avatar: the right half, darkening towards the right
/// edge, or when reversed the left half, darkening towards the left edge.
pub fn apply_gradient_to_avatar(avatar: &mut RgbaImage, is_reverse: bool)
    requires
        old(avatar).wf(),
        old(avatar).width <= 33_686_021,
    ensures
        final(avatar).wf(),
        final(avatar).width == old(avatar).width,
        final(avatar).height == old(avatar).height,
        final(avatar).data@ == gradient_data(
            old(avatar).data@,
            old(avatar).width as int,
            is_reverse,
        ),
{
    let ghost orig = avatar.data@;
    let width = avatar.width;
    let gradient_width = width / 2;
    let gradient_start: u32 = if is_reverse {
        0
    } else {
        width - gradient_width
    };
    let len = avatar.data.len();
    if width == 0 || gradient_width == 0 {
        assert(avatar.data@ =~= gradient_data(orig, width as int, is_reverse));
        return;
    }
    let ghost spec_new = gradient_data(orig, width as int, is_reverse);
    let mut i: usize = 0;
    let mut col: u32 = 0;
    assert((0int) % (width as int) == 0) by (nonlinear_arith)
        requires
            width > 0,
    ;
    while i < len
        invariant
            len == orig.len(),
            len % 4 == 0,
            i % 4 == 0,
            i <= len,
            width > 0,
            width <= 33_686_021,
            gradient_width == width / 2,
            gradient_width > 0,
            gradient_start == band_start(width as int, is_reverse),
            col < width,
            col as int == ((i / 4) as int) % (width as int),
            avatar.data@.len() == len,
            avatar.width == old(avatar).width,
            avatar.height == old(avatar).height,
            width == old(avatar).width,
            orig == old(avatar).data@,
            spec_new == gradient_data(orig, width as int, is_reverse),
            forall|j: int| 0 <= j < i ==> #[trigger] avatar.data@[j] == spec_new[j],
            forall|j: int| i <= j < len ==> #[trigger] avatar.data@[j] == orig[j],
        decreases len - i,
    {
        if gradient_start <= col && col < gradient_start + gradient_width {
            let x = col - gradient_start;
            proof {
                lemma_factor_range(x as int, gradient_width as int, is_reverse);
            }
            assert(x * 255 <= u32::MAX);
            let progress = x * 255 / gradient_width;
            let alpha_multiplier: u32 = if is_reverse {
                progress * progress / 255
            } else {
                (255 - progress) * (255 - progress) / 255
            };
            let a = avatar.data[i + 3] as u32;
            assert(a * alpha_multiplier / 255 <= 255) by (nonlinear_arith)
                requires
                    a <= 255,
                    alpha_multiplier <= 255,
            ;
            let na = (a * alpha_multiplier / 255) as u8;
            avatar.data.set(i + 3, na);
        }
        proof {
            lemma_col_step((i / 4) as int, width as int, col as int);
            assert(((i + 4) / 4) as int == (i / 4) as int + 1);
        }
        assert forall|j: int| 0 <= j < i + 4 implies #[trigger] avatar.data@[j] == spec_new[j] by {
            if j >= i {
                assert(j / 4 == i / 4);
            }
        }
        col = if col + 1 == width {
            0
        } else {
            col + 1
        };
        i += 4;
    }
    assert(avatar.data@ =~= spec_new);
}

/// The background of a quote and the colour of its text: white with black text when
/// light and no theme is given, else black with white text.
pub open spec fn base_colours(has_theme: bool, is_light: bool) -> ([u8; 4], [u8; 4]) {
    if !has_theme && is_light {
        ([255u8, 255u8, 255u8, 255u8], [0u8, 0u8, 0u8, 255u8])
    } else {
        ([0u8, 0u8, 0u8, 255u8], [255u8, 255u8, 255u8, 255u8])
    }
}

/// Law: along a row of the gradient band the alpha factor never rises towards the faded
/// edge: it falls with the column, or when reversed rises with it.
pub proof fn gradient_is_monotone(x: int, y: int, band: int, is_reverse: bool)
    requires
        0 <= x <= y < band,
    ensures
        !is_reverse ==> gradient_factor(x, band, is_reverse) >= gradient_factor(y, band, is_reverse),
        is_reverse ==> gradient_factor(x, band, is_reverse) <= gradient_factor(y, band, is_reverse),
{
    lemma_factor_range(x, band, is_reverse);
    lemma_factor_range(y, band, is_reverse);
    let px = x * 255 / band;
    let py = y * 255 / band;
    assert(px <= py) by (nonlinear_arith)
        requires
            0 <= x <= y,
            band > 0,
            px == x * 255 / band,
            py == y * 255 / band,
    ;
    assert(px * px / 255 <= py * py / 255) by (nonlinear_arith)
        requires
            0 <= px <= py,
    ;
    assert((255 - px) * (255 - px) / 255 >= (255 - py) * (255 - py) / 255) by (nonlinear_arith)
        requires
            0 <= px <= py <= 254,
    ;
}

/// The colour in which a quote's text is written.
pub fn quote_text_colour(theme: &Option<String>, is_light: bool) -> (c: [u8; 4])
    ensures
        c == base_colours(theme is Some, is_light).1,
{
    if theme.is_none() && is_light {
        [0u8, 0u8, 0u8, 255u8]
    } else {
        [255u8, 255u8, 255u8, 255u8]
    }
}

/// The empty quote image and the colour to write on it.
pub fn get_base_image(theme: Option<String>, is_light: bool) -> (r: (RgbaImage, [u8; 4]))
    ensures
        r.0.wf(),
        r.0.width == QUOTE_WIDTH,
        r.0.height == QUOTE_HEIGHT,
        forall|p: int, c: int|
            0 <= p < QUOTE_WIDTH * QUOTE_HEIGHT && 0 <= c < 4 ==> #[trigger] r.0.data@[4 * p + c]
                == base_colours(theme is Some, is_light).0[c],
        r.1 == base_colours(theme is Some, is_light).1,
{
    let (background, text) = match theme {
        None => if is_light {
            ([255u8, 255u8, 255u8, 255u8], [0u8, 0u8, 0u8, 255u8])
        } else {
            ([0u8, 0u8, 0u8, 255u8], [255u8, 255u8, 255u8, 255u8])
        },
        Some(_) => ([0u8, 0u8, 0u8, 255u8], [255u8, 255u8, 255u8, 255u8]),
    };
    (RgbaImage::from_pixel(QUOTE_WIDTH, QUOTE_HEIGHT, background), text)
}

/// Law: the gradient keeps every colour byte and never makes a pixel more opaque.
pub proof fn gradient_only_fades(s: Seq<u8>, width: int, is_reverse: bool, i: int)
    requires
        width > 0,
        0 <= i < s.len(),
    ensures
        i % 4 != 3 ==> gradient_data(s, width, is_reverse)[i] == s[i],
        gradient_data(s, width, is_reverse)[i] <= s[i],
{
    let band = width / 2;
    let start = band_start(width, is_reverse);
    let col = (i / 4) % width;
    if i % 4 == 3 && start <= col < start + band {
        lemma_factor_range(col - start, band, is_reverse);
        let f = gradient_factor(col - start, band, is_reverse);
        let a = s[i] as int;
        assert(0 <= a * f / 255 <= a) by (nonlinear_arith)
            requires
                0 <= a <= 255,
                0 <= f <= 255,
        ;
    }
}

} // verus!

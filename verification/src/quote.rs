//! The styles of a quote picture and the buttons that change them.
use vstd::prelude::*;
use crate::text::{decimal_digits, has_suffix, push_decimal, push_str, str_ends_with};

verus! {

/// The fonts a quote can be written in, by name.
pub const FONT_NAMES: [&'static str; 3] = [
    "NotoSansJP-Regular",
    "Satoshi-LightItalic",
    "RampartOne-Regular",
];

/// How a quote picture is drawn.
#[derive(Debug, Clone, Copy, PartialEq, Eq, Structural)]
pub struct QuoteStyle {
    pub is_bw: bool,
    pub is_reverse: bool,
    pub is_light: bool,
    pub is_gradient: bool,
    /// The index of the font of the quoted text among `FONT_NAMES`.
    pub font: usize,
}

impl QuoteStyle {
    /// The style a quote starts with: in colour, avatar on the left, dark, no gradient, the
    /// first font.
    pub fn new() -> (s: QuoteStyle)
        ensures
            s == (QuoteStyle {
                is_bw: false,
                is_reverse: false,
                is_light: false,
                is_gradient: false,
                font: 0,
            }),
    {
        QuoteStyle { is_bw: false, is_reverse: false, is_light: false, is_gradient: false, font: 0 }
    }
}

/// The index of the font with the given name, the first that has it.
pub open spec fn font_of(name: Seq<char>) -> Option<usize> {
    if name == "NotoSansJP-Regular"@ {
        Some(0)
    } else if name == "Satoshi-LightItalic"@ {
        Some(1)
    } else if name == "RampartOne-Regular"@ {
        Some(2)
    } else {
        None
    }
}

/// The index of the font with the given name.
pub fn font_index(name: &str) -> (r: Option<usize>)
    ensures
        r == font_of(name@),
{
    let want = String::from_str(name);
    if want.eq(&String::from_str("NotoSansJP-Regular")) {
        Some(0)
    } else if want.eq(&String::from_str("Satoshi-LightItalic")) {
        Some(1)
    } else if want.eq(&String::from_str("RampartOne-Regular")) {
        Some(2)
    } else {
        None
    }
}

/// The style after an interaction with a quote: a chosen font that exists changes the font;
/// otherwise the button whose id ends with `bw`, `reverse`, `light` or `gradient` toggles
/// that part of the style.
pub open spec fn restyled(s: QuoteStyle, font: Option<usize>, custom_id: Seq<char>) -> QuoteStyle {
    match font {
        Some(i) => QuoteStyle { font: i, ..s },
        None => if has_suffix(custom_id, "bw"@) {
            QuoteStyle { is_bw: !s.is_bw, ..s }
        } else if has_suffix(custom_id, "reverse"@) {
            QuoteStyle { is_reverse: !s.is_reverse, ..s }
        } else if has_suffix(custom_id, "light"@) {
            QuoteStyle { is_light: !s.is_light, ..s }
        } else if has_suffix(custom_id, "gradient"@) {
            QuoteStyle { is_gradient: !s.is_gradient, ..s }
        } else {
            s
        },
    }
}

/// Follows an interaction with a quote: the font picked in the menu, if any, and the id of
/// the component.
pub fn restyle(style: &mut QuoteStyle, menu_choice: Option<&str>, custom_id: &str)
    ensures
        *final(style) == restyled(
            *old(style),
            match menu_choice {
                Some(name) => font_of(name@),
                None => None,
            },
            custom_id@,
        ),
{
    let font = match menu_choice {
        Some(name) => font_index(name),
        None => None,
    };
    match font {
        Some(i) => {
            style.font = i;
        },
        None => {
            if str_ends_with(custom_id, "bw") {
                style.is_bw = !style.is_bw;
            } else if str_ends_with(custom_id, "reverse") {
                style.is_reverse = !style.is_reverse;
            } else if str_ends_with(custom_id, "light") {
                style.is_light = !style.is_light;
            } else if str_ends_with(custom_id, "gradient") {
                style.is_gradient = !style.is_gradient;
            }
        },
    }
}

/// Law: pressing the same style button twice gives the style back.
pub proof fn restyle_twice(s: QuoteStyle, custom_id: Seq<char>)
    ensures
        restyled(restyled(s, None, custom_id), None, custom_id) == s,
{
}

/// Law: each style button flips its own part of the style and nothing else: an id ending
/// with `bw` the black and white, `reverse` the side of the avatar, `light` the light
/// background, `gradient` the fading; a font picked in the menu changes only the font.
pub proof fn style_buttons_law(s: QuoteStyle, font: Option<usize>, custom_id: Seq<char>)
    ensures
        font matches Some(i) ==> restyled(s, font, custom_id) == (QuoteStyle { font: i, ..s }),
        font is None && has_suffix(custom_id, "bw"@) ==> {
            let r = restyled(s, font, custom_id);
            &&& r.is_bw == !s.is_bw
            &&& r.is_reverse == s.is_reverse && r.is_light == s.is_light
            &&& r.is_gradient == s.is_gradient && r.font == s.font
        },
        font is None && has_suffix(custom_id, "reverse"@) ==> {
            let r = restyled(s, font, custom_id);
            &&& r.is_reverse == !s.is_reverse
            &&& r.is_bw == s.is_bw && r.is_light == s.is_light
            &&& r.is_gradient == s.is_gradient && r.font == s.font
        },
        font is None && has_suffix(custom_id, "light"@) ==> {
            let r = restyled(s, font, custom_id);
            &&& r.is_light == !s.is_light
            &&& r.is_bw == s.is_bw && r.is_reverse == s.is_reverse
            &&& r.is_gradient == s.is_gradient && r.font == s.font
        },
        font is None && has_suffix(custom_id, "gradient"@) ==> {
            let r = restyled(s, font, custom_id);
            &&& r.is_gradient == !s.is_gradient
            &&& r.is_bw == s.is_bw && r.is_reverse == s.is_reverse
            &&& r.is_light == s.is_light && r.font == s.font
        },
{
    reveal_strlit("bw");
    reveal_strlit("reverse");
    reveal_strlit("light");
    reveal_strlit("gradient");
    let n = custom_id.len();
    if has_suffix(custom_id, "bw"@) {
        assert(custom_id[n - 1] == "bw"@[1]);
    }
    if has_suffix(custom_id, "reverse"@) {
        assert(custom_id[n - 1] == "reverse"@[6]);
    }
    if has_suffix(custom_id, "light"@) {
        assert(custom_id[n - 1] == "light"@[4]);
        assert(custom_id[n - 2] == "light"@[3]);
    }
    if has_suffix(custom_id, "gradient"@) {
        assert(custom_id[n - 1] == "gradient"@[7]);
        assert(custom_id[n - 2] == "gradient"@[6]);
    }
}

/// The ids of the style buttons and the font menu of the quote made by the command with id
/// `ctx_id`: `{ctx_id}_bw`, `{ctx_id}_reverse`, `{ctx_id}_light`, `{ctx_id}_gradient` and
/// `{ctx_id}_font_option`.
pub fn quote_component_ids(ctx_id: u64) -> (ids: Vec<String>)
    ensures
        ids@.len() == 5,
        ids@[0]@ == decimal_digits(ctx_id as nat) + "_bw"@,
        ids@[1]@ == decimal_digits(ctx_id as nat) + "_reverse"@,
        ids@[2]@ == decimal_digits(ctx_id as nat) + "_light"@,
        ids@[3]@ == decimal_digits(ctx_id as nat) + "_gradient"@,
        ids@[4]@ == decimal_digits(ctx_id as nat) + "_font_option"@,
{
    let mut ids: Vec<String> = Vec::new();
    let suffixes: [&'static str; 5] = ["_bw", "_reverse", "_light", "_gradient", "_font_option"];
    let mut i: usize = 0;
    while i < 5
        invariant
            i <= 5,
            ids@.len() == i,
            forall|j: int| 0 <= j < i ==> (#[trigger] ids@[j])@ == decimal_digits(ctx_id as nat) + suffixes@[j]@,
        decreases 5 - i,
    {
        let mut id = String::new();
        push_decimal(&mut id, ctx_id);
        push_str(&mut id, suffixes[i]);
        assert(id@ =~= decimal_digits(ctx_id as nat) + suffixes@[i as int]@);
        ids.push(id);
        i += 1;
    }
    ids
}

/// The file name of a quote picture: a gif when the avatar moves, else a webp picture.
pub fn quote_file_name(is_gif: bool) -> (name: &'static str)
    ensures
        name@ == if is_gif {
            "quote.gif"@
        } else {
            "quote.webp"@
        },
{
    if is_gif {
        "quote.gif"
    } else {
        "quote.webp"
    }
}

/// The author line of a quote: `- {name}`.
pub fn quote_author(name: &str) -> (s: String)
    ensures
        s@ == "- "@ + name@,
{
    let mut s = String::new();
    push_str(&mut s, "- ");
    push_str(&mut s, name);
    assert(s@ =~= "- "@ + name@);
    s
}

} // verus!

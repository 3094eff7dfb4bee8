//! Checks on the media that users attach to pings, word reactions and emoji reactions,
//! and the data address under which a new emoji picture is uploaded.
use base64::{engine::general_purpose, Engine};
use vstd::prelude::*;
use crate::events::opt_view;
use crate::text::{has_prefix, push_str, str_starts_with, str_strip_prefix};

verus! {

/// Whether the media of a ping or a word reaction is acceptable.
#[derive(Debug, Clone, Copy, PartialEq, Eq, Structural)]
pub enum MediaCheck {
    /// Acceptable.
    Valid,
    /// Not acceptable.
    Invalid,
    /// A link, acceptable when the address serves a picture (see `is_picture_type`).
    AskServer,
}

/// Whether a media is acceptable: no media is; a link is when it serves a picture; `!gif`
/// with a query is; `waifu` is where `waifu_allowed`; nothing else is.
pub open spec fn media_check_spec(media: Option<Seq<char>>, waifu_allowed: bool) -> MediaCheck {
    match media {
        None => MediaCheck::Valid,
        Some(m) => if has_prefix(m, "https"@) {
            MediaCheck::AskServer
        } else if has_prefix(m, "!gif"@) {
            if m.len() > 4 {
                MediaCheck::Valid
            } else {
                MediaCheck::Invalid
            }
        } else if waifu_allowed && m == "waifu"@ {
            MediaCheck::Valid
        } else {
            MediaCheck::Invalid
        },
    }
}

/// Whether a media is acceptable for a custom ping (`waifu_allowed`) or a word reaction.
pub fn media_check(media: &Option<String>, waifu_allowed: bool) -> (c: MediaCheck)
    ensures
        c == media_check_spec(opt_view(*media), waifu_allowed),
{
    match media {
        None => MediaCheck::Valid,
        Some(m) => {
            if str_starts_with(m.as_str(), "https") {
                MediaCheck::AskServer
            } else {
                match str_strip_prefix(m.as_str(), "!gif") {
                    Some(rest) => {
                        proof {
                            reveal_strlit("!gif");
                        }
                        if rest.as_str().unicode_len() > 0 {
                            MediaCheck::Valid
                        } else {
                            MediaCheck::Invalid
                        }
                    },
                    None => {
                        if waifu_allowed && m.eq(&String::from_str("waifu")) {
                            MediaCheck::Valid
                        } else {
                            MediaCheck::Invalid
                        }
                    },
                }
            }
        },
    }
}

/// Whether a media is a link, whose content type the server that holds it tells.
pub fn is_media_link(media: &str) -> (b: bool)
    ensures
        b == has_prefix(media@, "https"@),
{
    str_starts_with(media, "https")
}

/// A content type that counts as a picture: an `image/` type or `application/gif`.
pub open spec fn is_picture_type_spec(ct: Seq<char>) -> bool {
    has_prefix(ct, "image/"@) || ct == "application/gif"@
}

/// Whether a content type counts as a picture.
pub fn is_picture_type(ct: &str) -> (b: bool)
    ensures
        b == is_picture_type_spec(ct@),
{
    str_starts_with(ct, "image/") || String::from_str(ct).eq(&String::from_str("application/gif"))
}

/// The content type of a new emoji picture, when it counts as a picture; a server that names
/// no type is taken to serve `image/png`.
pub fn emoji_content_type(ct: Option<&str>) -> (r: Option<String>)
    ensures
        ({
            let t = match ct {
                Some(c) => c@,
                None => "image/png"@,
            };
            match r {
                Some(s) => is_picture_type_spec(t) && s@ == t,
                None => !is_picture_type_spec(t),
            }
        }),
{
    let t = match ct {
        Some(c) => String::from_str(c),
        None => String::from_str("image/png"),
    };
    if is_picture_type(t.as_str()) {
        Some(t)
    } else {
        None
    }
}

/// The base64 digit of a value below 64, in the standard alphabet of RFC 4648.
pub open spec fn b64_digit(v: int) -> char {
    if v < 26 {
        (v + 65) as char
    } else if v < 52 {
        (v - 26 + 97) as char
    } else if v < 62 {
        (v - 52 + 48) as char
    } else if v == 62 {
        '+'
    } else {
        '/'
    }
}

/// Base64 with the standard alphabet and `=` padding (RFC 4648): each three bytes become
/// four digits of six bits each; a last one or two bytes become two or three digits padded
/// with `=` to four.
pub open spec fn base64_spec(b: Seq<u8>) -> Seq<char>
    decreases b.len(),
{
    if b.len() == 0 {
        Seq::empty()
    } else if b.len() == 1 {
        seq![b64_digit((b[0] / 4) as int), b64_digit((b[0] % 4) * 16), '=', '=']
    } else if b.len() == 2 {
        seq![
            b64_digit((b[0] / 4) as int),
            b64_digit((b[0] % 4) * 16 + b[1] / 16),
            b64_digit((b[1] % 16) * 4),
            '=',
        ]
    } else {
        seq![
            b64_digit((b[0] / 4) as int),
            b64_digit((b[0] % 4) * 16 + b[1] / 16),
            b64_digit((b[1] % 16) * 4 + b[2] / 64),
            b64_digit((b[2] % 64) as int),
        ] + base64_spec(b.skip(3))
    }
}

/// `general_purpose::STANDARD.encode` of the base64 crate: base64 with the standard
/// alphabet and padding, as `base64_spec` states it. The crate panics when the length of
/// the result does not fit in `usize`; the bound on `bytes` rules that out.
#[verifier::external_body]
fn base64_standard(bytes: &[u8]) -> (s: String)
    requires
        bytes@.len() <= usize::MAX / 2,
    ensures
        s@ == base64_spec(bytes@),
{
    general_purpose::STANDARD.encode(bytes)
}

/// `general_purpose::STANDARD.decode` of the base64 crate, its error dropped. That engine
/// requires canonical padding and rejects set trailing bits, so it accepts exactly the
/// strings that its encoder gives (`base64_spec`) and gives back the bytes encoded.
#[verifier::external_body]
fn base64_decode_standard(s: &str) -> (r: Option<Vec<u8>>)
    ensures
        match r {
            Some(b) => base64_spec(b@) == s@,
            None => forall|b: Seq<u8>| base64_spec(b) != s@,
        },
{
    general_purpose::STANDARD.decode(s).ok()
}

/// The picture that the image generator answered with, in base64: its bytes, or `None`
/// when the answer is empty or no base64 encoding of any bytes.
pub fn generated_image(encoded: &str) -> (r: Option<Vec<u8>>)
    ensures
        match r {
            Some(b) => encoded@.len() > 0 && base64_spec(b@) == encoded@,
            None => encoded@.len() == 0 || forall|b: Seq<u8>| base64_spec(b) != encoded@,
        },
{
    if encoded.unicode_len() == 0 {
        None
    } else {
        base64_decode_standard(encoded)
    }
}

/// The data address under which a new emoji picture is uploaded:
/// `data:{content_type};base64,{the picture in base64}`.
pub fn emoji_data_uri(content_type: &str, bytes: &[u8]) -> (uri: String)
    requires
        bytes@.len() <= usize::MAX / 2,
    ensures
        uri@ == "data:"@ + content_type@ + ";base64,"@ + base64_spec(bytes@),
{
    let encoded = base64_standard(bytes);
    let mut uri = String::new();
    push_str(&mut uri, "data:");
    push_str(&mut uri, content_type);
    push_str(&mut uri, ";base64,");
    push_str(&mut uri, encoded.as_str());
    assert(uri@ =~= "data:"@ + content_type@ + ";base64,"@ + base64_spec(bytes@));
    uri
}

/// Law: base64 with padding gives four digits for every three bytes or part of three.
pub proof fn base64_length(b: Seq<u8>)
    ensures
        base64_spec(b).len() == 4 * ((b.len() + 2) / 3),
    decreases b.len(),
{
    if b.len() >= 3 {
        base64_length(b.skip(3));
    }
}

} // verus!

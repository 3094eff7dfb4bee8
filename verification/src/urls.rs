//! Request URLs of the web services that the commands query.
use vstd::prelude::*;
use vstd::string::StringSliceAdditionalSpecFns;
use crate::text::push_str;

verus! {

/// The bytes that URL encoding keeps as they are: ASCII letters and digits and `-._~`.
pub open spec fn is_unreserved(b: u8) -> bool {
    (48 <= b && b <= 57) || (65 <= b && b <= 90) || (97 <= b && b <= 122) || b == 45 || b == 46
        || b == 95 || b == 126
}

/// Upper-case hexadecimal digit of a value below sixteen.
pub open spec fn hex_digit(d: u8) -> char {
    if d < 10 {
        (d + 48) as char
    } else {
        (d + 55) as char
    }
}

/// URL encoding of one byte: itself when unreserved, else `%` and two hex digits.
pub open spec fn encode_byte(b: u8) -> Seq<char> {
    if is_unreserved(b) {
        seq![b as char]
    } else {
        seq!['%', hex_digit(b / 16), hex_digit(b % 16)]
    }
}

/// URL encoding of a byte string, byte by byte.
pub open spec fn percent_encoded(bytes: Seq<u8>) -> Seq<char>
    decreases bytes.len(),
{
    if bytes.len() == 0 {
        seq![]
    } else {
        percent_encoded(bytes.drop_last()) + encode_byte(bytes.last())
    }
}

/// URL encoding of the UTF-8 bytes of a string.
pub open spec fn url_encoded(s: &str) -> Seq<char> {
    percent_encoded(s.spec_bytes())
}

/// `urlencoding::encode`: percent-encodes every UTF-8 byte of `s` but ASCII letters,
/// digits and `-`, `_`, `.`, `~`, with upper-case hex digits.
#[verifier::external_body]
fn url_encode(s: &str) -> (r: String)
    ensures
        r@ == url_encoded(s),
{
    urlencoding::encode(s).into_owned()
}

/// The Tenor search for gifs matching `input`.
pub fn gif_search_url(input: &str, token: &str) -> (url: String)
    ensures
        url@ == "https://tenor.googleapis.com/v2/search?q="@ + url_encoded(input) + "&key="@ + token@
            + "&contentfilter=medium&limit=40"@,
{
    let mut url = String::new();
    push_str(&mut url, "https://tenor.googleapis.com/v2/search?q=");
    let e = url_encode(input);
    push_str(&mut url, e.as_str());
    push_str(&mut url, "&key=");
    push_str(&mut url, token);
    push_str(&mut url, "&contentfilter=medium&limit=40");
    assert(url@ =~= "https://tenor.googleapis.com/v2/search?q="@ + url_encoded(input) + "&key="@
        + token@ + "&contentfilter=medium&limit=40"@);
    url
}

/// The MyAnimeList search (through Jikan) for up to five anime matching `query`.
pub fn anime_search_url(query: &str) -> (url: String)
    ensures
        url@ == "https://api.jikan.moe/v4/anime?q="@ + url_encoded(query) + "&limit=5"@,
{
    let mut url = String::new();
    push_str(&mut url, "https://api.jikan.moe/v4/anime?q=");
    let e = url_encode(query);
    push_str(&mut url, e.as_str());
    push_str(&mut url, "&limit=5");
    assert(url@ =~= "https://api.jikan.moe/v4/anime?q="@ + url_encoded(query) + "&limit=5"@);
    url
}

/// The MyAnimeList search (through Jikan) for up to five manga matching `query`.
pub fn manga_search_url(query: &str) -> (url: String)
    ensures
        url@ == "https://api.jikan.moe/v4/manga?q="@ + url_encoded(query) + "&limit=5"@,
{
    let mut url = String::new();
    push_str(&mut url, "https://api.jikan.moe/v4/manga?q=");
    let e = url_encode(query);
    push_str(&mut url, e.as_str());
    push_str(&mut url, "&limit=5");
    assert(url@ =~= "https://api.jikan.moe/v4/manga?q="@ + url_encoded(query) + "&limit=5"@);
    url
}

/// The trace.moe search for the anime scene shown by the image at `image_url`.
pub fn anime_scene_url(image_url: &str) -> (url: String)
    ensures
        url@ == "https://api.trace.moe/search?cutBorders&anilistInfo&url="@ + url_encoded(image_url),
{
    let mut url = String::new();
    push_str(&mut url, "https://api.trace.moe/search?cutBorders&anilistInfo&url=");
    let e = url_encode(image_url);
    push_str(&mut url, e.as_str());
    assert(url@ =~= "https://api.trace.moe/search?cutBorders&anilistInfo&url="@ + url_encoded(
        image_url,
    ));
    url
}

/// The eight-ball reading for `question`.
pub fn eightball_url(question: &str) -> (url: String)
    ensures
        url@ == "https://eightballapi.com/api/biased?question="@ + url_encoded(question)
            + "&lucky=false"@,
{
    let mut url = String::new();
    push_str(&mut url, "https://eightballapi.com/api/biased?question=");
    let e = url_encode(question);
    push_str(&mut url, e.as_str());
    push_str(&mut url, "&lucky=false");
    assert(url@ =~= "https://eightballapi.com/api/biased?question="@ + url_encoded(question)
        + "&lucky=false"@);
    url
}

/// The Urban Dictionary definitions of `term`.
pub fn urban_url(term: &str) -> (url: String)
    ensures
        url@ == "https://api.urbandictionary.com/v0/define?term="@ + url_encoded(term),
{
    let mut url = String::new();
    push_str(&mut url, "https://api.urbandictionary.com/v0/define?term=");
    let e = url_encode(term);
    push_str(&mut url, e.as_str());
    assert(url@ =~= "https://api.urbandictionary.com/v0/define?term="@ + url_encoded(term));
    url
}

/// The Wikipedia summary of `topic`.
pub fn wiki_url(topic: &str) -> (url: String)
    ensures
        url@ == "https://en.wikipedia.org/api/rest_v1/page/summary/"@ + url_encoded(topic),
{
    let mut url = String::new();
    push_str(&mut url, "https://en.wikipedia.org/api/rest_v1/page/summary/");
    let e = url_encode(topic);
    push_str(&mut url, e.as_str());
    assert(url@ =~= "https://en.wikipedia.org/api/rest_v1/page/summary/"@ + url_encoded(topic));
    url
}

/// The meme image with the three given texts.
pub fn memegen_url(top_left: &str, top_right: &str, bottom: &str) -> (url: String)
    ensures
        url@ == "https://api.memegen.link/images/exit/"@ + url_encoded(top_left) + "/"@
            + url_encoded(top_right) + "/"@ + url_encoded(bottom) + ".png"@,
{
    let mut url = String::new();
    push_str(&mut url, "https://api.memegen.link/images/exit/");
    let a = url_encode(top_left);
    push_str(&mut url, a.as_str());
    push_str(&mut url, "/");
    let b = url_encode(top_right);
    push_str(&mut url, b.as_str());
    push_str(&mut url, "/");
    let c = url_encode(bottom);
    push_str(&mut url, c.as_str());
    push_str(&mut url, ".png");
    assert(url@ =~= "https://api.memegen.link/images/exit/"@ + url_encoded(top_left) + "/"@
        + url_encoded(top_right) + "/"@ + url_encoded(bottom) + ".png"@);
    url
}

/// The web search of the AI server for `query`.
pub fn web_search_url(host: &str, query: &str) -> (url: String)
    ensures
        url@ == host@ + "/search?q="@ + url_encoded(query) + "&categories=general"@,
{
    let mut url = String::new();
    push_str(&mut url, host);
    push_str(&mut url, "/search?q=");
    let e = url_encode(query);
    push_str(&mut url, e.as_str());
    push_str(&mut url, "&categories=general");
    assert(url@ =~= host@ + "/search?q="@ + url_encoded(query) + "&categories=general"@);
    url
}

/// The Deezer playlist with the given id (the id is not encoded).
pub fn playlist_url(playlist_id: &str) -> (url: String)
    ensures
        url@ == "https://api.deezer.com/playlist/"@ + playlist_id@,
{
    let mut url = String::new();
    push_str(&mut url, "https://api.deezer.com/playlist/");
    push_str(&mut url, playlist_id);
    assert(url@ =~= "https://api.deezer.com/playlist/"@ + playlist_id@);
    url
}

} // verus!

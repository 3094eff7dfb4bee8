//! The pages shown for anime and manga search results.
use vstd::prelude::*;
use crate::text::{push_str, signed_decimal, signed_decimal_string};

verus! {

/// A title of a work, with the kind of title (`Japanese`, `English`, ...).
pub struct AniTitle {
    pub title_type: String,
    pub title: String,
}

/// A field of an embed: name, value, and whether it is shown inline.
pub struct EmbedField {
    pub name: String,
    pub value: String,
    pub inline: bool,
}

/// What a search result of an anime or a manga holds that its page shows. The score is a
/// float; it comes here already written out.
pub struct AniMangaInfo {
    pub titles: Vec<AniTitle>,
    pub kind: String,
    pub status: String,
    pub score: Option<String>,
    pub popularity: Option<i32>,
    pub favorites: Option<i32>,
    pub synopsis: Option<String>,
    pub genres: Vec<String>,
}

/// What only anime or only manga have.
pub enum AniMangaDetails {
    Anime { episodes: Option<i32>, duration: Option<String>, aired: Option<String> },
    Manga { chapters: Option<i32>, volumes: Option<i32>, published: Option<String> },
}

/// The view of a field.
pub open spec fn field_view(f: EmbedField) -> (Seq<char>, Seq<char>, bool) {
    (f.name@, f.value@, f.inline)
}

/// The views of a list of fields.
pub open spec fn field_views(v: Seq<EmbedField>) -> Seq<(Seq<char>, Seq<char>, bool)> {
    v.map_values(|f: EmbedField| field_view(f))
}

/// The index of the first title of the given kind at or after `i`.
pub open spec fn first_title_from(titles: Seq<AniTitle>, ty: Seq<char>, i: int) -> Option<int>
    decreases titles.len() - i,
{
    if i < 0 || i >= titles.len() {
        None
    } else if titles[i].title_type@ == ty {
        Some(i)
    } else {
        first_title_from(titles, ty, i + 1)
    }
}

/// The first title of the given kind, if any.
pub open spec fn title_of_type(titles: Seq<AniTitle>, ty: Seq<char>) -> Option<Seq<char>> {
    match first_title_from(titles, ty, 0) {
        Some(i) => Some(titles[i].title@),
        None => None,
    }
}

/// The first title of kind `ty`.
pub fn find_title(titles: &Vec<AniTitle>, ty: &str) -> (r: Option<String>)
    ensures
        match (r, title_of_type(titles@, ty@)) {
            (Some(a), Some(b)) => a@ == b,
            (None, None) => true,
            _ => false,
        },
{
    let want = String::from_str(ty);
    let mut i: usize = 0;
    while i < titles.len()
        invariant
            i <= titles@.len(),
            want@ == ty@,
            first_title_from(titles@, ty@, 0) == first_title_from(titles@, ty@, i as int),
        decreases titles.len() - i,
    {
        if titles[i].title_type.eq(&want) {
            return Some(titles[i].title.clone());
        }
        i += 1;
    }
    None
}

/// The title of a page: the Japanese title, or a notice that there is none.
pub open spec fn page_title(titles: Seq<AniTitle>) -> Seq<char> {
    match title_of_type(titles, "Japanese"@) {
        Some(t) => t,
        None => "No japanese title available"@,
    }
}

/// The title of the page of a result.
pub fn japanese_title(titles: &Vec<AniTitle>) -> (t: String)
    ensures
        t@ == page_title(titles@),
{
    match find_title(titles, "Japanese") {
        Some(t) => t,
        None => String::from_str("No japanese title available"),
    }
}

/// The texts of `parts` with `sep` between each two.
pub open spec fn joined(parts: Seq<Seq<char>>, sep: Seq<char>) -> Seq<char>
    decreases parts.len(),
{
    if parts.len() == 0 {
        Seq::empty()
    } else if parts.len() == 1 {
        parts[0]
    } else {
        joined(parts.drop_last(), sep) + sep + parts.last()
    }
}

/// The views of a list of texts.
pub open spec fn text_views(v: Seq<String>) -> Seq<Seq<char>> {
    v.map_values(|s: String| s@)
}

/// The genres of a result, with ` - ` between each two.
pub fn join_genres(genres: &Vec<String>) -> (s: String)
    ensures
        s@ == joined(text_views(genres@), " - "@),
{
    let mut s = String::new();
    let mut i: usize = 0;
    while i < genres.len()
        invariant
            i <= genres@.len(),
            s@ == joined(text_views(genres@).take(i as int), " - "@),
        decreases genres.len() - i,
    {
        let ghost before = text_views(genres@).take(i as int);
        assert(text_views(genres@).take(i + 1).drop_last() =~= before);
        assert(text_views(genres@).take(i + 1).last() == genres@[i as int]@);
        if i > 0 {
            push_str(&mut s, " - ");
        }
        push_str(&mut s, genres[i].as_str());
        proof {
            if i == 0 {
                assert(s@ =~= text_views(genres@).take(1)[0]);
            }
        }
        i += 1;
    }
    assert(text_views(genres@).take(genres@.len() as int) =~= text_views(genres@));
    s
}

/// The description of a page: the synopsis in italics.
pub fn synopsis_text(synopsis: &str) -> (s: String)
    ensures
        s@ == seq!['*'] + synopsis@ + seq!['*'],
{
    let mut s = String::new();
    push_str(&mut s, "*");
    push_str(&mut s, synopsis);
    push_str(&mut s, "*");
    proof {
        reveal_strlit("*");
    }
    assert(s@ =~= seq!['*'] + synopsis@ + seq!['*']);
    s
}

/// A field shown only when there is a value.
pub open spec fn opt_field(name: Seq<char>, v: Option<Seq<char>>) -> Seq<(Seq<char>, Seq<char>, bool)> {
    match v {
        Some(x) => seq![(name, x, true)],
        None => Seq::empty(),
    }
}

/// The text of an optional number.
pub open spec fn num_text(v: Option<i32>) -> Option<Seq<char>> {
    match v {
        Some(n) => Some(signed_decimal(n as int)),
        None => None,
    }
}

/// The view of an optional text.
pub open spec fn text_opt(v: Option<String>) -> Option<Seq<char>> {
    match v {
        Some(s) => Some(s@),
        None => None,
    }
}

/// An empty field that breaks a row of inline fields.
pub open spec fn row_break() -> Seq<(Seq<char>, Seq<char>, bool)> {
    seq![(Seq::<char>::empty(), Seq::<char>::empty(), false)]
}

/// The fields that only anime or only manga have.
pub open spec fn details_fields(d: AniMangaDetails) -> Seq<(Seq<char>, Seq<char>, bool)> {
    match d {
        AniMangaDetails::Anime { episodes, duration, aired } => opt_field(
            "Episodes"@,
            num_text(episodes),
        ) + opt_field("Duration"@, text_opt(duration)) + opt_field("Aired"@, text_opt(aired)),
        AniMangaDetails::Manga { chapters, volumes, published } => opt_field(
            "Chapters"@,
            num_text(chapters),
        ) + opt_field("Volumes"@, num_text(volumes)) + opt_field(
            "Published"@,
            text_opt(published),
        ),
    }
}

/// The fields of the page of a result, in order: format and status, the English title, a
/// break, score, popularity and favorites, a break, what only anime or manga have, and the
/// genres.
pub open spec fn page_fields(info: AniMangaInfo, d: AniMangaDetails) -> Seq<
    (Seq<char>, Seq<char>, bool),
> {
    seq![("Format"@, info.kind@, true), ("Status"@, info.status@, true)] + opt_field(
        "English title"@,
        title_of_type(info.titles@, "English"@),
    ) + row_break() + opt_field("Score"@, text_opt(info.score)) + opt_field(
        "Popularity"@,
        num_text(info.popularity),
    ) + opt_field("Favorites"@, num_text(info.favorites)) + row_break() + details_fields(d) + seq![
        ("Genres"@, joined(text_views(info.genres@), " - "@), false),
    ]
}

/// Appends a field.
fn push_field(fields: &mut Vec<EmbedField>, name: &str, value: String, inline: bool)
    ensures
        field_views(final(fields)@) == field_views(old(fields)@).push((name@, value@, inline)),
{
    let f = EmbedField { name: String::from_str(name), value, inline };
    fields.push(f);
    assert(field_views(final(fields)@) =~= field_views(old(fields)@).push((name@, f.value@, inline)));
}

/// Appends an empty field that breaks the row.
fn push_break(fields: &mut Vec<EmbedField>)
    ensures
        field_views(final(fields)@) == field_views(old(fields)@) + row_break(),
{
    let f = EmbedField { name: String::new(), value: String::new(), inline: false };
    fields.push(f);
    assert(field_views(final(fields)@) =~= field_views(old(fields)@) + row_break());
}

/// Appends a field when there is a value.
fn push_opt_field(fields: &mut Vec<EmbedField>, name: &str, value: Option<String>)
    ensures
        field_views(final(fields)@) == field_views(old(fields)@) + opt_field(name@, text_opt(value)),
{
    match value {
        Some(v) => push_field(fields, name, v, true),
        None => {
            assert(field_views(old(fields)@) + Seq::<(Seq<char>, Seq<char>, bool)>::empty()
                =~= field_views(old(fields)@));
        },
    }
}

/// Appends a field with a number when there is one.
fn push_num_field(fields: &mut Vec<EmbedField>, name: &str, value: Option<i32>)
    ensures
        field_views(final(fields)@) == field_views(old(fields)@) + opt_field(name@, num_text(value)),
{
    match value {
        Some(n) => push_field(fields, name, signed_decimal_string(n as i64), true),
        None => {
            assert(field_views(old(fields)@) + Seq::<(Seq<char>, Seq<char>, bool)>::empty()
                =~= field_views(old(fields)@));
        },
    }
}

/// Copies an optional text.
fn copy_opt(v: &Option<String>) -> (c: Option<String>)
    ensures
        text_opt(c) == text_opt(*v),
{
    match v {
        Some(s) => Some(s.clone()),
        None => None,
    }
}

/// The fields of the page of a result.
pub fn page_fields_of(info: &AniMangaInfo, details: &AniMangaDetails) -> (fields: Vec<EmbedField>)
    ensures
        field_views(fields@) == page_fields(*info, *details),
{
    let mut fields: Vec<EmbedField> = Vec::new();
    assert(field_views(fields@) =~= Seq::<(Seq<char>, Seq<char>, bool)>::empty());
    push_field(&mut fields, "Format", info.kind.clone(), true);
    push_field(&mut fields, "Status", info.status.clone(), true);
    let ghost g0 = seq![("Format"@, info.kind@, true), ("Status"@, info.status@, true)];
    assert(field_views(fields@) =~= g0);
    let english = find_title(&info.titles, "English");
    push_opt_field(&mut fields, "English title", english);
    let ghost g1 = g0 + opt_field("English title"@, title_of_type(info.titles@, "English"@));
    assert(field_views(fields@) =~= g1);
    push_break(&mut fields);
    let ghost g2 = g1 + row_break();
    assert(field_views(fields@) =~= g2);
    push_opt_field(&mut fields, "Score", copy_opt(&info.score));
    let ghost g3 = g2 + opt_field("Score"@, text_opt(info.score));
    assert(field_views(fields@) =~= g3);
    push_num_field(&mut fields, "Popularity", info.popularity);
    push_num_field(&mut fields, "Favorites", info.favorites);
    let ghost g4 = g3 + opt_field("Popularity"@, num_text(info.popularity)) + opt_field(
        "Favorites"@,
        num_text(info.favorites),
    );
    assert(field_views(fields@) =~= g4);
    push_break(&mut fields);
    let ghost g5 = g4 + row_break();
    assert(field_views(fields@) =~= g5);
    match details {
        AniMangaDetails::Anime { episodes, duration, aired } => {
            push_num_field(&mut fields, "Episodes", *episodes);
            push_opt_field(&mut fields, "Duration", copy_opt(duration));
            push_opt_field(&mut fields, "Aired", copy_opt(aired));
        },
        AniMangaDetails::Manga { chapters, volumes, published } => {
            push_num_field(&mut fields, "Chapters", *chapters);
            push_num_field(&mut fields, "Volumes", *volumes);
            push_opt_field(&mut fields, "Published", copy_opt(published));
        },
    }
    let ghost g6 = g5 + details_fields(*details);
    assert(field_views(fields@) =~= g6);
    let genres = join_genres(&info.genres);
    push_field(&mut fields, "Genres", genres, false);
    assert(field_views(fields@) =~= g6 + seq![
        ("Genres"@, joined(text_views(info.genres@), " - "@), false),
    ]);
    fields
}

} // verus!

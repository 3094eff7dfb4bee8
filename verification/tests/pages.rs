use fabsebot::animanga::{
    japanese_title, join_genres, page_fields_of, synopsis_text, AniMangaDetails, AniMangaInfo,
    AniTitle,
};
use fabsebot::info::{server_description, server_fields, server_thumbnail, user_fields, ServerFacts};
use fabsebot::music::{
    duration_text, pause_action, pause_reply, pcm_bytes, queue_position, seek_backward_text,
    seek_forward_text, seek_plan, skip_text, song_source, track_search, PauseAction, PlayState,
    SeekPlan, SongSource,
};
use fabsebot::urls::{
    anime_scene_url, anime_search_url, eightball_url, gif_search_url, manga_search_url,
    memegen_url, playlist_url, urban_url, web_search_url, wiki_url,
};

fn title(t: &str, v: &str) -> AniTitle {
    AniTitle { title_type: t.to_string(), title: v.to_string() }
}

fn fields_of(info: &AniMangaInfo, d: &AniMangaDetails) -> Vec<(String, String, bool)> {
    page_fields_of(info, d).into_iter().map(|f| (f.name, f.value, f.inline)).collect()
}

fn f(n: &str, v: &str, i: bool) -> (String, String, bool) {
    (n.to_string(), v.to_string(), i)
}

#[test]
fn anime_page_fields() {
    let info = AniMangaInfo {
        titles: vec![title("Default", "X"), title("Japanese", "エックス"), title("English", "Ex")],
        kind: "TV".to_string(),
        status: "Finished".to_string(),
        score: Some("8.5".to_string()),
        popularity: Some(12),
        favorites: None,
        synopsis: Some("A story.".to_string()),
        genres: vec!["Action".to_string(), "Drama".to_string()],
    };
    let d = AniMangaDetails::Anime { episodes: Some(24), duration: None, aired: Some("2001".to_string()) };
    assert_eq!(
        fields_of(&info, &d),
        vec![
            f("Format", "TV", true),
            f("Status", "Finished", true),
            f("English title", "Ex", true),
            f("", "", false),
            f("Score", "8.5", true),
            f("Popularity", "12", true),
            f("", "", false),
            f("Episodes", "24", true),
            f("Aired", "2001", true),
            f("Genres", "Action - Drama", false),
        ]
    );
    assert_eq!(japanese_title(&info.titles), "エックス");
    assert_eq!(synopsis_text("A story."), "*A story.*");
}

#[test]
fn manga_page_fields() {
    let info = AniMangaInfo {
        titles: vec![],
        kind: "Manga".to_string(),
        status: "Publishing".to_string(),
        score: None,
        popularity: None,
        favorites: Some(-1),
        synopsis: None,
        genres: vec![],
    };
    let d = AniMangaDetails::Manga { chapters: None, volumes: Some(3), published: None };
    assert_eq!(
        fields_of(&info, &d),
        vec![
            f("Format", "Manga", true),
            f("Status", "Publishing", true),
            f("", "", false),
            f("Favorites", "-1", true),
            f("", "", false),
            f("Volumes", "3", true),
            f("Genres", "", false),
        ]
    );
    assert_eq!(japanese_title(&info.titles), "No japanese title available");
    assert_eq!(join_genres(&vec!["A".to_string()]), "A");
}

#[test]
fn server_and_user_pages() {
    let facts = ServerFacts {
        id: 1,
        boosters: 2,
        owner_id: 3,
        created: "then".to_string(),
        emojis: 4,
        stickers: 5,
        members: 6,
        max_members: 7,
        roles: 8,
        channels: 9,
        large: false,
    };
    let fields: Vec<(String, String, bool)> =
        server_fields(&facts).into_iter().map(|x| (x.name, x.value, x.inline)).collect();
    assert_eq!(fields[0], f("Guild ID", "1", true));
    assert_eq!(fields[6], f("Members count:", "6/7", true));
    assert_eq!(fields[9], f("Server size:", "Not large", true));
    assert_eq!(fields.len(), 10);
    assert_eq!(server_thumbnail(5, None, Some("abc")), "https://cdn.discordapp.com/icons/5/abc.png");
    assert_eq!(server_thumbnail(5, Some("b"), Some("abc")), "b");
    assert_eq!(server_thumbnail(5, None, None), "https://...");
    assert_eq!(server_description(None), "Unknown description");
    let u: Vec<(String, String, bool)> =
        user_fields("c", "j", true).into_iter().map(|x| (x.name, x.value, x.inline)).collect();
    assert_eq!(
        u,
        vec![f("Creation date:", "c", true), f("Joined date:", "j", true), f("", "", false), f("Security:", "MFA enabled", false)]
    );
}

#[test]
fn song_requests() {
    assert_eq!(song_source("https://youtu.be/abc"), SongSource::Link);
    assert_eq!(song_source("https://soundcloud.com/x"), SongSource::Unsupported);
    assert_eq!(song_source("never gonna give you up"), SongSource::Search);
}

#[test]
fn seeking() {
    assert_eq!(seek_plan(100, "-20"), SeekPlan::Backward { target: 80, amount: 20 });
    assert_eq!(seek_plan(10, "-20"), SeekPlan::TooFarBack);
    assert_eq!(seek_plan(20, "-20"), SeekPlan::TooFarBack);
    assert_eq!(seek_plan(10, "+20"), SeekPlan::Forward { amount: 20 });
    assert_eq!(seek_plan(10, "0"), SeekPlan::Forward { amount: 0 });
    assert_eq!(seek_plan(10, "20s"), SeekPlan::InvalidNumber);
    assert_eq!(seek_plan(u64::MAX, "-1"), SeekPlan::TooFarBack);
    assert_eq!(seek_plan(5, "-9223372036854775808"), SeekPlan::TooFarBack);
    assert_eq!(seek_backward_text(20), "Seeked 20s backward");
    assert_eq!(seek_forward_text(5), "Seeked 5s forward");
}

#[test]
fn queue_texts() {
    assert_eq!(queue_position(0), 0);
    assert_eq!(queue_position(3), 2);
    assert_eq!(skip_text("bob", 5), "Song skipped by bob. 3 left in queue");
    assert_eq!(skip_text("bob", 1), "Song skipped by bob. 0 left in queue");
    assert_eq!(duration_text(215), "215s");
    assert_eq!(track_search("Song", "Artist"), "Song Artist");
    assert_eq!(pause_action(PlayState::Paused), PauseAction::Resume);
    assert_eq!(pause_action(PlayState::Playing), PauseAction::Pause);
    assert_eq!(pause_reply(PauseAction::Resume, true), "Resumed playback");
    assert_eq!(pause_reply(PauseAction::Pause, false), "Failed to pause playback");
    assert_eq!(pause_reply(pause_action(PlayState::Other), true), "No playable track found");
}

#[test]
fn voice_samples_are_little_endian() {
    let samples = [1i16, -2, 0x1234];
    let mut expected = Vec::new();
    for s in samples {
        expected.extend_from_slice(&s.to_le_bytes());
    }
    assert_eq!(pcm_bytes(&samples), expected);
}

#[test]
fn request_addresses_encode_their_input() {
    assert_eq!(anime_search_url("one piece"), "https://api.jikan.moe/v4/anime?q=one%20piece&limit=5");
    assert_eq!(manga_search_url("a&b"), "https://api.jikan.moe/v4/manga?q=a%26b&limit=5");
    assert_eq!(urban_url("yeet"), "https://api.urbandictionary.com/v0/define?term=yeet");
    assert_eq!(wiki_url("Rust (language)"), "https://en.wikipedia.org/api/rest_v1/page/summary/Rust%20%28language%29");
    assert_eq!(eightball_url("why?"), "https://eightballapi.com/api/biased?question=why%3F&lucky=false");
    assert_eq!(
        gif_search_url("dead chat", "TOKEN"),
        "https://tenor.googleapis.com/v2/search?q=dead%20chat&key=TOKEN&contentfilter=medium&limit=40"
    );
    assert_eq!(
        anime_scene_url("https://x.y/a.png"),
        "https://api.trace.moe/search?cutBorders&anilistInfo&url=https%3A%2F%2Fx.y%2Fa.png"
    );
    assert_eq!(memegen_url("a b", "c", "d"), "https://api.memegen.link/images/exit/a%20b/c/d.png");
    assert_eq!(web_search_url("http://s", "é"), "http://s/search?q=%C3%A9&categories=general");
    assert_eq!(playlist_url("123"), "https://api.deezer.com/playlist/123");
}

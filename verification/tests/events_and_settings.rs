use std::collections::HashMap;

use fabsebot::commands::{
    birthday_title, guild_prefix, log_level, roast_description, roast_title, roles_text,
    translate_target, LogLevel, RoastHistory, RoastProfile,
};
use fabsebot::config::{
    EmojiReactions, GuildData, GuildSettings, UserSettings, WordReactions, WordTracking,
    DEFAULT_BOT_ROLE,
};
use fabsebot::events::{
    attachment_kind, chat_role, dead_chat_due, emoji_markup, global_chat_targets,
    global_music_targets, has_other_chats, has_other_music, is_channel, is_praise_trigger,
    matching_emoji_reactions, matching_word_reactions, mirrors_reactions, ping_media_kind,
    pinged_link_entry, pinged_link_fields, process_user, reaction_media, relayed_text,
    repeat_text, repost_notice, should_repost, spoiler_name, text_trigger, track_words,
    webhooks_full, AfkEvent, AttachmentKind, PingMedia, ReactionMedia, TextTrigger,
};
use fabsebot::guild::{
    change_guild_settings, change_user_settings, insert_word_reaction, insert_word_tracking,
    update_user, GuildSettingsChange, UserSettingsChange,
};
use fabsebot::media::{emoji_content_type, emoji_data_uri, generated_image, is_picture_type, media_check, MediaCheck};
use fabsebot::ready::{assemble_guild_data, users_of_guild};

fn afk_user() -> UserSettings {
    let mut u = UserSettings::new(1, 50);
    u.afk = true;
    u
}

#[test]
fn afk_user_gathers_pings_and_comes_back() {
    let mut u = afk_user();
    let e1 = pinged_link_entry("https://discord.com/channels/1/2/3", "alice");
    let r = process_user(&mut u, 60, true, false, &e1);
    match r.afk {
        AfkEvent::StillAway(reason) => assert_eq!(reason, "Didn't renew life subscription"),
        _ => panic!("expected the user to still be away"),
    }
    let e2 = pinged_link_entry("https://discord.com/channels/1/2/4", "carol");
    process_user(&mut u, 61, true, false, &e2);
    assert_eq!(
        u.pinged_links.as_deref(),
        Some("https://discord.com/channels/1/2/3;alice,https://discord.com/channels/1/2/4;carol,")
    );
    let r = process_user(&mut u, 50, false, false, "");
    match r.afk {
        AfkEvent::WelcomeBack(fields) => assert_eq!(
            fields,
            vec![
                ("https://discord.com/channels/1/2/3".to_string(), "alice".to_string()),
                ("https://discord.com/channels/1/2/4".to_string(), "carol".to_string()),
            ]
        ),
        _ => panic!("expected a welcome back"),
    }
    assert!(!u.afk);
    assert_eq!(u.pinged_links, None);
    assert_eq!(u.message_count, 1);
}

#[test]
fn replies_do_not_count_as_pings() {
    let mut u = afk_user();
    u.afk_reason = Some("sleeping".to_string());
    let r = process_user(&mut u, 60, true, true, "x");
    assert!(matches!(r.afk, AfkEvent::Unaffected));
    assert_eq!(u.pinged_links, None);
    let r = process_user(&mut u, 60, true, false, "x");
    match r.afk {
        AfkEvent::StillAway(reason) => assert_eq!(reason, "sleeping"),
        _ => panic!("expected the user to still be away"),
    }
    assert_eq!(u.message_count, 0);
}

#[test]
fn custom_ping_answers() {
    let mut u = UserSettings::new(1, 50);
    u.ping_content = Some("hi!".to_string());
    u.ping_media = Some("WaIfU".to_string());
    let r = process_user(&mut u, 60, true, false, "x");
    let p = r.ping.unwrap();
    assert_eq!(p.content, "hi!");
    assert_eq!(p.media, PingMedia::Waifu);
    let r = process_user(&mut u, 60, false, false, "x");
    assert!(r.ping.is_none());
    assert_eq!(ping_media_kind(&Some("!gifcats".to_string())), PingMedia::GifSearch("cats".to_string()));
    assert_eq!(ping_media_kind(&Some("http://x".to_string())), PingMedia::Link("http://x".to_string()));
    assert_eq!(ping_media_kind(&Some(String::new())), PingMedia::NoMedia);
    assert_eq!(ping_media_kind(&None), PingMedia::NoMedia);
}

#[test]
fn ping_fields_skip_entries_without_separator() {
    assert_eq!(
        pinged_link_fields("a;b,junk,c;d;e,"),
        vec![("a".to_string(), "b".to_string()), ("c".to_string(), "d;e".to_string())]
    );
}

#[test]
fn tracked_words_count_occurrences() {
    let mut words = vec![
        WordTracking { guild_id: 1, word: "cat".to_string(), count: 3 },
        WordTracking { guild_id: 1, word: "dog".to_string(), count: 0 },
    ];
    track_words(&mut words, "my cat and my other cat");
    assert_eq!(words[0].count, 4);
    assert_eq!(words[1].count, 0);
}

#[test]
fn reactions_that_match() {
    let reactions = vec![
        WordReactions { guild_id: 1, word: "hi".to_string(), content: "yo".to_string(), media: None },
        WordReactions { guild_id: 1, word: "bye".to_string(), content: "cya".to_string(), media: Some("!gifwave".to_string()) },
        WordReactions { guild_id: 1, word: "h".to_string(), content: "h".to_string(), media: Some("https://x/y.png".to_string()) },
    ];
    assert_eq!(matching_word_reactions(&reactions, "hi there"), vec![0, 2]);
    let emojis = vec![EmojiReactions { guild_id: 1, emoji_id: 9, content_reaction: "lol".to_string(), guild_emoji: true }];
    assert_eq!(matching_emoji_reactions(&emojis, "lolol"), vec![0]);
    assert!(matches!(reaction_media(&None), ReactionMedia::Text));
    assert!(matches!(reaction_media(&Some(String::new())), ReactionMedia::Text));
    match reaction_media(&Some("!gifwave".to_string())) {
        ReactionMedia::GifSearch(q) => assert_eq!(q, "wave"),
        _ => panic!("expected a gif search"),
    }
    match reaction_media(&Some("https://x/y.png".to_string())) {
        ReactionMedia::Image(u) => assert_eq!(u, "https://x/y.png"),
        _ => panic!("expected an image"),
    }
}

#[test]
fn text_triggers() {
    assert_eq!(text_trigger("floppaganda"), TextTrigger::Floppaganda);
    assert_eq!(text_trigger("kurukuru_seseren kurukuru_seseren"), TextTrigger::Kurukuru(2));
    assert_eq!(text_trigger("fabse rocks"), TextTrigger::FabseReact);
    assert_eq!(text_trigger("floppaganda!"), TextTrigger::NoTrigger);
    assert!(is_praise_trigger("fabseman"));
    assert!(!is_praise_trigger("fabsemann"));
    assert_eq!(emoji_markup("spin", 77, true), "<a:spin:77>");
    assert_eq!(emoji_markup("spin", 77, false), "<:spin:77>");
    assert_eq!(repeat_text("ab", 3), "ababab");
}

#[test]
fn channel_and_timing_decisions() {
    assert!(is_channel(Some(5), 5));
    assert!(!is_channel(Some(5), 6));
    assert!(!is_channel(None, 5));
    assert!(dead_chat_due(1000, 100, 10));
    assert!(!dead_chat_due(700, 100, 10));
    assert_eq!(attachment_kind(Some("image/png")), AttachmentKind::Image);
    assert_eq!(attachment_kind(Some("video/mp4")), AttachmentKind::Video);
    assert_eq!(attachment_kind(Some("text/plain")), AttachmentKind::Other);
    assert_eq!(attachment_kind(None), AttachmentKind::Other);
    assert!(should_repost(1, 2, false));
    assert!(!should_repost(2, 2, false));
    assert!(!should_repost(1, 2, true));
    assert!(mirrors_reactions(Some("the ai-chat room")));
    assert!(!mirrors_reactions(None));
    assert!(webhooks_full(15));
    assert!(!webhooks_full(14));
    assert_eq!(spoiler_name("a.png"), "SPOILER_a.png");
    assert_eq!(relayed_text("bob", "hi"), "bob sent this: hi");
    assert_eq!(
        repost_notice("eve"),
        "**Bruh, eve deleted my message while not being an admin or a mod!**\nSending it again"
    );
}

fn settings(id: i64, chat: bool, channel: Option<i64>, music: bool) -> GuildSettings {
    let mut s = GuildSettings::new(id);
    s.global_chat = chat;
    s.global_chat_channel = channel;
    s.global_music = music;
    s
}

#[test]
fn global_targets_leave_out_current_guild() {
    let guilds = vec![
        (1u64, settings(1, true, Some(10), true)),
        (2u64, settings(2, true, Some(20), false)),
        (3u64, settings(3, true, None, true)),
        (4u64, settings(4, false, Some(40), false)),
    ];
    assert_eq!(global_chat_targets(&guilds, 1), vec![(2, 20)]);
    assert_eq!(global_music_targets(&guilds, 1), vec![3]);
    assert!(has_other_chats(&guilds, 1));
    assert!(!has_other_chats(&vec![(1u64, settings(1, true, Some(10), false))], 1));
    assert!(has_other_music(&guilds, 3));
    assert!(!has_other_music(&guilds[2..].to_vec(), 3));
}

#[test]
fn chatbot_role_defaults() {
    let mut u = UserSettings::new(1, 2);
    assert_eq!(chat_role(Some(&u)), DEFAULT_BOT_ROLE);
    u.chatbot_role = Some("pirate".to_string());
    assert_eq!(chat_role(Some(&u)), "pirate");
    assert_eq!(chat_role(None), DEFAULT_BOT_ROLE);
}

#[test]
fn guild_setting_changes() {
    let mut s = GuildSettings::new(7);
    change_guild_settings(&mut s, GuildSettingsChange::Prefix("?".to_string()));
    change_guild_settings(&mut s, GuildSettingsChange::DeadChat { rate: 5, channel: 9 });
    change_guild_settings(&mut s, GuildSettingsChange::GlobalChatStart(3));
    assert_eq!(s.prefix.as_deref(), Some("?"));
    assert_eq!((s.dead_chat_rate, s.dead_chat_channel), (Some(5), Some(9)));
    assert!(s.global_chat);
    change_guild_settings(&mut s, GuildSettingsChange::GlobalChatEnd);
    assert!(!s.global_chat);
    assert_eq!(s.global_chat_channel, None);
    change_guild_settings(&mut s, GuildSettingsChange::GlobalMusic(true));
    change_guild_settings(&mut s, GuildSettingsChange::GlobalCallStart);
    change_guild_settings(&mut s, GuildSettingsChange::LeaveVoice);
    assert!(!s.global_music && !s.global_call);
    assert_eq!(guild_prefix(s.prefix.as_ref()), "?");
    assert_eq!(guild_prefix(None), "!");
}

#[test]
fn user_setting_changes() {
    let mut users: HashMap<u64, UserSettings> = HashMap::new();
    update_user(&mut users, 1, 5, UserSettingsChange::Afk(Some("lunch".to_string())));
    let u = &users[&5];
    assert!(u.afk);
    assert_eq!(u.afk_reason.as_deref(), Some("lunch"));
    assert_eq!((u.guild_id, u.user_id), (1, 5));
    update_user(&mut users, 1, 5, UserSettingsChange::Ping { content: "c".to_string(), media: None });
    assert!(users[&5].afk);
    assert_eq!(users[&5].ping_content.as_deref(), Some("c"));
    update_user(&mut users, 1, 5, UserSettingsChange::Reset);
    assert!(!users[&5].afk);
    assert_eq!(users[&5].ping_content, None);
    let mut s = UserSettings::new(1, 2);
    s.message_count = 9;
    change_user_settings(&mut s, UserSettingsChange::Reset);
    assert_eq!(s.message_count, 0);
}

#[test]
fn reactions_form_sets() {
    let r = WordReactions { guild_id: 1, word: "a".to_string(), content: "b".to_string(), media: None };
    let mut set = Vec::new();
    insert_word_reaction(&mut set, r.clone());
    insert_word_reaction(&mut set, r.clone());
    assert_eq!(set.len(), 1);
    let mut r2 = r.clone();
    r2.media = Some("m".to_string());
    insert_word_reaction(&mut set, r2);
    assert_eq!(set.len(), 2);
    let mut t = Vec::new();
    insert_word_tracking(&mut t, WordTracking { guild_id: 1, word: "w".to_string(), count: 3 });
    insert_word_tracking(&mut t, WordTracking { guild_id: 1, word: "w".to_string(), count: 0 });
    assert_eq!(t.len(), 2);
}

#[test]
fn media_checks() {
    assert_eq!(media_check(&None, true), MediaCheck::Valid);
    assert_eq!(media_check(&Some("https://x".to_string()), false), MediaCheck::AskServer);
    assert_eq!(media_check(&Some("!gif cats".to_string()), false), MediaCheck::Valid);
    assert_eq!(media_check(&Some("!gif".to_string()), true), MediaCheck::Invalid);
    assert_eq!(media_check(&Some("waifu".to_string()), true), MediaCheck::Valid);
    assert_eq!(media_check(&Some("waifu".to_string()), false), MediaCheck::Invalid);
    assert!(is_picture_type("image/webp"));
    assert!(is_picture_type("application/gif"));
    assert!(!is_picture_type("image"));
    assert_eq!(emoji_content_type(None), Some("image/png".to_string()));
    assert_eq!(emoji_content_type(Some("text/html")), None);
}

#[test]
fn emoji_upload_address_uses_standard_base64() {
    assert_eq!(emoji_data_uri("image/png", b"hello"), "data:image/png;base64,aGVsbG8=");
    assert_eq!(emoji_data_uri("image/gif", b""), "data:image/gif;base64,");
    assert_eq!(emoji_data_uri("x", &[0xfb, 0xff]), "data:x;base64,+/8=");
}

#[test]
fn stored_rows_are_grouped_by_guild() {
    let s = vec![GuildSettings::new(1), GuildSettings::new(2), GuildSettings::new(1)];
    let r = vec![
        WordReactions { guild_id: 1, word: "a".to_string(), content: "x".to_string(), media: None },
        WordReactions { guild_id: 2, word: "b".to_string(), content: "y".to_string(), media: None },
        WordReactions { guild_id: 1, word: "a".to_string(), content: "x".to_string(), media: None },
    ];
    let data: Vec<(u64, GuildData)> = assemble_guild_data(s, &r, &Vec::new(), &Vec::new());
    assert_eq!(data.len(), 3);
    assert_eq!(data[0].0, 1);
    assert_eq!(data[0].1.word_reactions.len(), 1);
    assert_eq!(data[1].1.word_reactions[0].word, "b");
    assert!(data[2].1.word_reactions.is_empty());
    let mut a = UserSettings::new(1, 5);
    a.message_count = 1;
    let mut b = UserSettings::new(1, 5);
    b.message_count = 2;
    let users = users_of_guild(&vec![a, b, UserSettings::new(2, 6)], 1);
    assert_eq!(users.len(), 1);
    assert_eq!(users[&5].message_count, 2);
}

#[test]
fn command_texts() {
    assert_eq!(log_level("warn"), LogLevel::Warn);
    assert_eq!(log_level("WARN"), LogLevel::Info);
    assert_eq!(translate_target(Some("DE")), "de");
    assert_eq!(translate_target(None), "en");
    assert_eq!(roles_text(Some(&vec!["A".to_string(), "B".to_string()])), "A, B");
    assert_eq!(roles_text(None), "no roles");
    assert_eq!(birthday_title("bob"), "HAPPY BIRTHDAY bob!");
    assert_eq!(roast_title("bob"), "Roasting bob");
    let mut h = RoastHistory::new();
    h.add("hi");
    h.add("yo");
    assert_eq!(h.text, "1:hi,2:yo");
    assert!(!h.is_full());
    let p = RoastProfile {
        name: "n".to_string(),
        avatar: "a".to_string(),
        banner: "b".to_string(),
        roles: "r".to_string(),
        created: "c".to_string(),
        joined: "j".to_string(),
        message_count: -3,
        messages: h.text.clone(),
    };
    assert_eq!(
        roast_description(&p),
        "name:n,avatar:a,banner:b,roles:r,acc_create:c,joined_svr:j,msg_count:-3,last_msgs:1:hi,2:yo"
    );
}

#[test]
fn base64_lengths_round_up_to_four() {
    for n in 0..10usize {
        let bytes = vec![7u8; n];
        let uri = emoji_data_uri("t", &bytes);
        let encoded = uri.strip_prefix("data:t;base64,").unwrap();
        assert_eq!(encoded.len(), 4 * ((n + 2) / 3));
    }
}

#[test]
fn message_content_is_lowered() {
    assert_eq!(fabsebot::text::message_key("HeLLo ÄÖ"), "hello äö");
    assert_eq!(text_trigger(&fabsebot::text::message_key("FLOPPAGANDA")), TextTrigger::Floppaganda);
}

#[test]
fn typed_choices_are_lowered_and_checked() {
    assert_eq!(fabsebot::games::author_choice("RoCk"), Some("rock".to_string()));
    assert_eq!(fabsebot::games::author_choice("stone"), None);
}

#[test]
fn long_texts_fill_numbered_fields() {
    let text = "x".repeat(2100);
    let fields = fabsebot::split::text_fields(&text, "Definition:");
    assert_eq!(fields.len(), 3);
    assert_eq!(fields[0].0, "Definition:");
    assert_eq!(fields[1].0, "Response (cont. 2):");
    assert_eq!(fields[2].0, "Response (cont. 3):");
    assert_eq!(fields[0].1.len(), 1024);
    assert_eq!(fields[2].1.len(), 52);
}

#[test]
fn generated_image_decodes_canonical_base64() {
    assert_eq!(generated_image("aGVsbG8="), Some(b"hello".to_vec()));
    assert_eq!(generated_image("Zm9v"), Some(b"foo".to_vec()));
    assert_eq!(generated_image(""), None);
    assert_eq!(generated_image("aGVsbG8"), None);
    assert_eq!(generated_image("Zh=="), None);
    assert_eq!(generated_image("not base64!"), None);
}

#[test]
fn only_https_media_is_a_link() {
    assert!(fabsebot::media::is_media_link("https://x.png"));
    assert!(!fabsebot::media::is_media_link("http://x.png"));
    assert!(!fabsebot::media::is_media_link("!gif cat"));
}

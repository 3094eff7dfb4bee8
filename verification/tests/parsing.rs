use fabsebot::parse::{discord_emoji, discord_message_link, parse_i64, parse_usize, DiscordMessageLink};
use fabsebot::search::{search_summary, summarize_snippets};
use fabsebot::text::{trim_end_str, decimal_string, signed_decimal_string, split_once_str, split_str, str_ends_with, trim_str};

#[test]
fn message_link_is_read() {
    let link = discord_message_link("https://discord.com/channels/123/456/789");
    assert_eq!(
        link,
        Some((DiscordMessageLink { guild_id: 123, channel_id: 456, message_id: 789 }, ""))
    );
}

#[test]
fn message_link_ignores_what_follows() {
    let link = discord_message_link("https://discord.com/channels/1/2/3 look at this");
    assert_eq!(link, Some((DiscordMessageLink { guild_id: 1, channel_id: 2, message_id: 3 }, " look at this")));
    let link = discord_message_link("https://discord.com/channels/1/22/333 rest");
    assert_eq!(link, Some((DiscordMessageLink { guild_id: 1, channel_id: 22, message_id: 333 }, " rest")));
}

#[test]
fn message_link_needs_three_ids() {
    assert_eq!(discord_message_link("https://discord.com/channels/1/2"), None);
    assert_eq!(discord_message_link("https://discord.com/channels/1/2/"), None);
}

#[test]
fn message_link_needs_the_prefix() {
    assert_eq!(discord_message_link("see https://discord.com/channels/1/2/3"), None);
    assert_eq!(discord_message_link("http://discord.com/channels/1/2/3"), None);
}

#[test]
fn message_link_refuses_ids_beyond_u64() {
    assert_eq!(
        discord_message_link("https://discord.com/channels/18446744073709551616/2/3"),
        None
    );
    assert_eq!(
        discord_message_link("https://discord.com/channels/18446744073709551615/2/3"),
        Some((DiscordMessageLink { guild_id: u64::MAX, channel_id: 2, message_id: 3 }, ""))
    );
}

#[test]
fn emoji_markup_is_read() {
    let (e, rest) = discord_emoji("<:kurukuru:1234>").unwrap();
    assert_eq!(e.emoji_name, "kurukuru");
    assert_eq!(e.emoji_id, 1234);
    assert_eq!(rest, "");
    let (e, rest) = discord_emoji("<:é:7> später").unwrap();
    assert_eq!(e.emoji_name, "é");
    assert_eq!(rest, " später");
}

#[test]
fn emoji_markup_needs_closing_bracket() {
    assert!(discord_emoji("<:kurukuru:1234").is_none());
    assert!(discord_emoji("<a:kurukuru:1234>").is_none());
    assert!(discord_emoji("<:kurukuru:>").is_none());
}

#[test]
fn emoji_with_empty_name() {
    let (e, _) = discord_emoji("<::5>").unwrap();
    assert_eq!(e.emoji_name, "");
    assert_eq!(e.emoji_id, 5);
}

#[test]
fn signed_numbers_parse_like_std() {
    for s in ["+20", "-20", "0", "-0", "9223372036854775807", "-9223372036854775808", "", "+", "-", "1a", " 1", "9223372036854775808"] {
        assert_eq!(parse_i64(s), s.parse::<i64>().ok(), "input {s:?}");
    }
}

#[test]
fn unsigned_numbers_parse_like_std() {
    for s in ["0", "+7", "-0", "-1", "18446744073709551615", "18446744073709551616", "", "x"] {
        assert_eq!(parse_usize(s), s.parse::<usize>().ok(), "input {s:?}");
    }
}

#[test]
fn split_keeps_empty_pieces() {
    assert_eq!(split_str("a,,b,", ','), vec!["a", "", "b", ""]);
    assert_eq!(split_str("", ','), vec![""]);
}

#[test]
fn split_once_takes_first_separator() {
    assert_eq!(
        split_once_str("a;b;c", ';'),
        Some(("a".to_string(), "b;c".to_string()))
    );
    assert_eq!(split_once_str("abc", ';'), None);
}

#[test]
fn trim_removes_unicode_whitespace() {
    assert_eq!(trim_str("  \t hi there \u{3000}\n"), "hi there");
    assert_eq!(trim_str("   "), "");
}

#[test]
fn numbers_are_written_in_decimal() {
    assert_eq!(decimal_string(0), "0");
    assert_eq!(decimal_string(1234567890), "1234567890");
    assert_eq!(signed_decimal_string(-42), "-42");
    assert_eq!(signed_decimal_string(i64::MIN), i64::MIN.to_string());
}

#[test]
fn suffix_test() {
    assert!(str_ends_with("123_bw", "bw"));
    assert!(!str_ends_with("w", "bw"));
}

#[test]
fn trailing_whitespace_is_removed() {
    assert_eq!(trim_end_str("  a b \n\t"), "  a b");
    assert_eq!(trim_end_str(""), "");
}

#[test]
fn search_page_snippets_are_summarized() {
    let page = r#"<html><body>
        <article class="result-default"><p class="content">Hello <b>world</b></p></article>
        <article class="other"><p class="content">skipped</p></article>
        <article class="result-default"><p class="content">Second</p></article>
        </body></html>"#;
    assert_eq!(search_summary(page), "Hello world Second");
    assert_eq!(search_summary("<p>nothing</p>"), "");
    assert_eq!(summarize_snippets(&vec!["a ".to_string(), "b".to_string()]), "a  b");
}

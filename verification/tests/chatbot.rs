use fabsebot::chat::{
    attachments_header, author_description, bot_context, clear_conversation, conversation_users,
    guild_description_text, hidden_link_context, is_clear_request, is_for_chatbot, link_context,
    mention_description, mentions_header, message_speaker, needs_author_info, owner_note,
    known_description, prepare_turn, record_answer, remember_user, reply_context, set_chatbot_role,
    set_up_conversation, start_turn, user_message,
    users_section, voice_prompt,
};
use fabsebot::config::{AIChatContext, AIChatMessage, Role};
use fabsebot::split::{field_name, remove_brackets, reply_messages, split_text};

#[test]
fn clear_request_ignores_ascii_case() {
    assert!(is_clear_request("CLeaR"));
    assert!(!is_clear_request("clear!"));
}

#[test]
fn hash_messages_are_not_for_the_chatbot() {
    assert!(!is_for_chatbot("# note to self"));
    assert!(is_for_chatbot("hello #1"));
    assert!(is_for_chatbot(""));
}

#[test]
fn speaker_is_text_before_first_colon() {
    assert_eq!(message_speaker("User: bob: hi"), "User");
    assert_eq!(message_speaker("  alice  "), "alice");
}

#[test]
fn users_are_listed_once_in_order() {
    let msgs = vec![
        AIChatMessage::system("sys".to_string()),
        AIChatMessage::user("bob: hi".to_string()),
        AIChatMessage::assistant("carol: no".to_string()),
        AIChatMessage::user("alice: yo".to_string()),
        AIChatMessage::user("bob: again".to_string()),
    ];
    assert_eq!(conversation_users(&msgs), vec!["bob", "alice"]);
    assert_eq!(users_section(&msgs), "\nCurrent users in the conversationbob\nalice");
}

#[test]
fn no_users_section_without_user_messages() {
    let msgs = vec![AIChatMessage::system("sys".to_string())];
    assert_eq!(users_section(&msgs), "");
}

#[test]
fn context_and_user_message_text() {
    let s = bot_context("role.", "\nguild", "\nauthor", " now", None, "extra");
    assert_eq!(
        s,
        "role.\nguild\nauthorCurrently the date and time in UTC-timezone is now\nScraping DuckDuckGo for the user's message gives this: Nothing scraped from the internet\nextra"
    );
    let s = bot_context("", "", "", "", Some("found"), "");
    assert!(s.contains("gives this: found\n"));
    assert_eq!(user_message("bob", "hey"), "User: bob: hey");
}

#[test]
fn a_turn_sets_system_message_and_appends_user_message() {
    let mut ctx = AIChatContext::new();
    assert!(needs_author_info(&ctx, 7));
    set_chatbot_role(&mut ctx, "ROLE".to_string());
    remember_user(&mut ctx, 7, "\nDESC".to_string());
    let sent = prepare_turn(&mut ctx, 7, "bob", "hello", String::new(), "T", None);
    assert!(!needs_author_info(&ctx, 7));
    assert_eq!(sent.len(), 2);
    assert_eq!(sent[0].role, Role::System);
    assert!(sent[0].content.starts_with("ROLE\nDESCCurrently"));
    assert_eq!(sent[1].role, Role::User);
    assert_eq!(sent[1].content, "User: bob: hello");
    record_answer(&mut ctx, "answer".to_string());
    let sent = prepare_turn(&mut ctx, 7, "bob", "again", String::new(), "T", None);
    assert_eq!(sent.len(), 4);
    assert_eq!(sent[0].role, Role::System);
    assert!(sent[0].content.ends_with("\nCurrent users in the conversationUser"));
    assert_eq!(sent[2].content, "answer");
    assert_eq!(sent[3].content, "User: bob: again");
}

#[test]
fn clearing_forgets_everything() {
    let mut ctx = AIChatContext::new();
    remember_user(&mut ctx, 1, "x".to_string());
    ctx.messages.push(AIChatMessage::user("a".to_string()));
    clear_conversation(&mut ctx);
    assert!(ctx.messages.is_empty());
    assert!(ctx.static_info.users.is_empty());
    assert!(!ctx.static_info.is_set);
}

#[test]
fn voice_drops_apostrophes() {
    assert_eq!(voice_prompt("it's Bob's"), "its Bobs");
}

#[test]
fn long_answers_are_sent_in_pieces() {
    let short = "a".repeat(1999);
    assert_eq!(reply_messages(&short), vec![short.clone()]);
    let long = "a".repeat(4500);
    let pieces = reply_messages(&long);
    assert_eq!(pieces.len(), 3);
    assert_eq!(pieces[0].len(), 2000);
    assert_eq!(pieces[1].len(), 2000);
    assert_eq!(pieces[2].len(), 500);
    assert_eq!(pieces.concat(), long);
}

#[test]
fn pieces_keep_whole_characters() {
    let s = "é".repeat(1500);
    let pieces = reply_messages(&s);
    assert_eq!(pieces.concat(), s);
    assert_eq!(pieces[0].len(), 2000);
}

#[test]
fn embed_fields_split_at_limit() {
    assert_eq!(split_text("abcdef", 2), vec!["ab", "cd", "ef"]);
    assert_eq!(split_text("abcde", 2), vec!["ab", "cd", "e"]);
    assert_eq!(split_text("", 2), Vec::<String>::new());
    assert_eq!(field_name(0, "Response:"), "Response:");
    assert_eq!(field_name(2, "Response:"), "Response (cont. 3):");
}

#[test]
fn brackets_are_removed() {
    assert_eq!(remove_brackets("[word] and [more]"), "word and more");
}

#[test]
fn description_texts() {
    assert_eq!(
        author_description("bob", "a cat", "A, B", "bobby", "2020"),
        "\nbob's pfp can be described as: a cat and bob has the following roles: A, B. Their nickname in the current guild is bobby which they joined on this date 2020"
    );
    assert_eq!(
        guild_description_text("G", "not known", 10, 2, "ab", owner_note(false)),
        "\nThe guild you're currently talking in is named G with this description not known, have 10 members and have 2 channels with these names ab. But you're not talking to this guild's owner"
    );
    assert_eq!(reply_context("a", "b", "c"), "\na replied to a message sent by: b and had this content: c");
    assert_eq!(mentions_header(2), "\n2 user(s) were mentioned:");
    assert_eq!(
        mention_description("n", "g", "r", "p", "j"),
        "\nn was mentioned (global name is g). Roles: r. Profile picture: p. Joined this guild at this date: j"
    );
    assert_eq!(attachments_header(1), "\n1 attachment(s) were sent:");
    assert_eq!(
        link_context("a", "G", "b", "c"),
        "\na linked to a message sent in: G, sent by: b and had this content: c"
    );
    assert_eq!(hidden_link_context("a"), "\na linked to a message in non-accessible guild");
    assert_eq!(owner_note(true), "You're also talking to this guild's owner");
}

#[test]
fn new_conversation_takes_role_and_guild_description() {
    let mut ctx = AIChatContext::new();
    set_up_conversation(&mut ctx, "pirate".to_string(), Some("guild".to_string()));
    assert_eq!(ctx.static_info.chatbot_role, "pirate");
    assert_eq!(ctx.static_info.guild_desc, "guild");
    assert!(!ctx.static_info.is_set);
}

#[test]
fn set_up_conversation_only_changes_the_role() {
    let mut ctx = AIChatContext::new();
    ctx.static_info.is_set = true;
    ctx.static_info.guild_desc = "old guild".to_string();
    set_up_conversation(&mut ctx, "poet".to_string(), Some("new guild".to_string()));
    assert_eq!(ctx.static_info.chatbot_role, "poet");
    assert_eq!(ctx.static_info.guild_desc, "old guild");
    let mut fresh = AIChatContext::new();
    fresh.static_info.guild_desc = "kept".to_string();
    set_up_conversation(&mut fresh, "bard".to_string(), None);
    assert_eq!(fresh.static_info.guild_desc, "kept");
}

#[test]
fn known_descriptions_are_reused() {
    let mut ctx = AIChatContext::new();
    assert_eq!(known_description(&ctx, 5), None);
    remember_user(&mut ctx, 5, "a cat".to_string());
    assert_eq!(known_description(&ctx, 5), Some("a cat".to_string()));
    assert_eq!(known_description(&ctx, 6), None);
}

#[test]
fn turn_needs_a_known_author() {
    let mut ctx = AIChatContext::new();
    let sent = start_turn(&mut ctx, 1, "bob", "hi", String::new(), "now", None);
    assert!(sent.is_none());
    assert!(ctx.messages.is_empty());
    assert!(!ctx.static_info.is_set);
    remember_user(&mut ctx, 1, "bob desc".to_string());
    let sent = start_turn(&mut ctx, 1, "bob", "hi", String::new(), "now", None).unwrap();
    assert_eq!(sent.len(), 2);
    assert_eq!(sent[0].role, Role::System);
    assert_eq!(sent[1].role, Role::User);
    assert_eq!(sent[1].content, "User: bob: hi");
    assert!(ctx.static_info.is_set);
}

#[test]
fn a_whole_turn_keeps_one_system_message() {
    let mut ctx = AIChatContext::new();
    set_up_conversation(&mut ctx, "You are terse.".to_string(), None);
    remember_user(&mut ctx, 1, "bob desc".to_string());
    for (text, answer) in [("hi", "hello"), ("again", "yes")] {
        start_turn(&mut ctx, 1, "bob", text, String::new(), "now", None).unwrap();
        record_answer(&mut ctx, answer.to_string());
        let systems: Vec<_> = ctx.messages.iter().filter(|m| m.role == Role::System).collect();
        assert_eq!(systems.len(), 1);
        assert!(systems[0].content.starts_with("You are terse."));
        let n = ctx.messages.len();
        assert_eq!(ctx.messages[n - 2].role, Role::User);
        assert_eq!(ctx.messages[n - 2].content, format!("User: bob: {text}"));
        assert_eq!(ctx.messages[n - 1].role, Role::Assistant);
        assert_eq!(ctx.messages[n - 1].content, answer);
    }
    assert_eq!(ctx.messages.len(), 5);
    assert!(ctx.static_info.is_set);
}

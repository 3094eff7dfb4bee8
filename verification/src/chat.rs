//! The conversation kept by the chatbot of a guild.
use std::collections::HashMap;
use vstd::prelude::*;
use crate::config::{AIChatContext, AIChatMessage, Role};
use crate::parse::first_colon_from;
use crate::text::{views, decimal_digits, push_decimal,
    chars_of, eq_ignore_ascii_case_spec, eq_ignore_ascii_case_str, has_prefix, has_suffix, push_char, push_str,
    string_from_range, trim_bounds, trimmed,
};

verus! {

/// The speaker named at the start of a user message: the text before its first `:`,
/// trimmed.
pub open spec fn speaker(content: Seq<char>) -> Seq<char> {
    match first_colon_from(content, 0) {
        Some(k) => trimmed(content.take(k)),
        None => trimmed(content),
    }
}

/// The distinct speakers of the user messages, in the order of their first message.
pub open spec fn users_spec(msgs: Seq<AIChatMessage>) -> Seq<Seq<char>>
    decreases msgs.len(),
{
    if msgs.len() == 0 {
        seq![]
    } else {
        let prev = users_spec(msgs.drop_last());
        let m = msgs.last();
        if m.role == Role::User && !prev.contains(speaker(m.content@)) {
            prev.push(speaker(m.content@))
        } else {
            prev
        }
    }
}

/// The lines of `lines` joined by newlines.
pub open spec fn join_lines(lines: Seq<Seq<char>>) -> Seq<char>
    decreases lines.len(),
{
    if lines.len() == 0 {
        seq![]
    } else if lines.len() == 1 {
        lines[0]
    } else {
        join_lines(lines.drop_last()) + seq!['\n'] + lines.last()
    }
}

/// Some message of the conversation is a user message.
pub open spec fn has_user_message(msgs: Seq<AIChatMessage>) -> bool {
    exists|i: int| 0 <= i < msgs.len() && (#[trigger] msgs[i]).role == Role::User
}

/// The text that lists the speakers of the conversation, added to the system message.
pub open spec fn users_section_spec(msgs: Seq<AIChatMessage>) -> Seq<char> {
    if has_user_message(msgs) {
        "\nCurrent users in the conversation"@ + join_lines(users_spec(msgs))
    } else {
        seq![]
    }
}

/// Position of the first system message, if any.
pub open spec fn first_system(msgs: Seq<AIChatMessage>) -> Option<int>
    decreases msgs.len(),
{
    if msgs.len() == 0 {
        None
    } else {
        match first_system(msgs.drop_last()) {
            Some(i) => Some(i),
            None => if msgs.last().role == Role::System {
                Some(msgs.len() - 1)
            } else {
                None
            },
        }
    }
}

/// The system message of a turn: the chatbot's role, the guild description, what is known
/// of the author, the time, the search results and the per-message context.
pub open spec fn bot_context_spec(
    role: Seq<char>,
    guild_desc: Seq<char>,
    author_desc: Seq<char>,
    now: Seq<char>,
    search: Option<Seq<char>>,
    system_content: Seq<char>,
) -> Seq<char> {
    role + guild_desc + author_desc + "Currently the date and time in UTC-timezone is"@ + now
        + "\nScraping DuckDuckGo for the user's message gives this: "@ + match search {
        Some(s) => s,
        None => "Nothing scraped from the internet"@,
    } + "\n"@ + system_content
}

/// The user message of a turn.
pub open spec fn user_message_spec(author: Seq<char>, content: Seq<char>) -> Seq<char> {
    "User: "@ + author + ": "@ + content
}

/// `s` without apostrophes.
pub open spec fn without_apostrophes(s: Seq<char>) -> Seq<char>
    decreases s.len(),
{
    if s.len() == 0 {
        seq![]
    } else if s.last() == '\'' {
        without_apostrophes(s.drop_last())
    } else {
        without_apostrophes(s.drop_last()).push(s.last())
    }
}

/// A copy of a message.
pub fn clone_message(m: &AIChatMessage) -> (c: AIChatMessage)
    ensures
        c.role == m.role,
        c.content@ == m.content@,
{
    AIChatMessage { role: m.role, content: m.content.clone() }
}

/// A copy of a conversation.
pub fn clone_messages(msgs: &Vec<AIChatMessage>) -> (c: Vec<AIChatMessage>)
    ensures
        c@.len() == msgs@.len(),
        forall|i: int| 0 <= i < msgs@.len() ==> (#[trigger] c@[i]).role == msgs@[i].role
            && c@[i].content@ == msgs@[i].content@,
{
    let mut c: Vec<AIChatMessage> = Vec::new();
    let mut i: usize = 0;
    while i < msgs.len()
        invariant
            i <= msgs@.len(),
            c@.len() == i,
            forall|j: int| 0 <= j < i ==> (#[trigger] c@[j]).role == msgs@[j].role && c@[j].content@
                == msgs@[j].content@,
        decreases msgs.len() - i,
    {
        c.push(clone_message(&msgs[i]));
        i += 1;
    }
    c
}

/// Whether a message asks to clear the conversation: it reads `clear` in any ASCII case.
pub fn is_clear_request(content: &str) -> (b: bool)
    ensures
        b == eq_ignore_ascii_case_spec(content@, "clear"@),
{
    eq_ignore_ascii_case_str(content, "clear")
}

/// Whether the chatbot answers a message: it does unless the message begins with `#`.
pub fn is_for_chatbot(content: &str) -> (b: bool)
    ensures
        b == !has_prefix(content@, seq!['#']),
{
    proof {
        reveal_strlit("#");
        assert("#"@ =~= seq!['#']);
    }
    !crate::text::str_starts_with(content, "#")
}

/// Forgets the conversation: no messages and nothing known of the guild and its users.
pub fn clear_conversation(ctx: &mut AIChatContext)
    ensures
        final(ctx).messages@.len() == 0,
        !final(ctx).static_info.is_set,
        final(ctx).static_info.chatbot_role@.len() == 0,
        final(ctx).static_info.guild_desc@.len() == 0,
        final(ctx).static_info.users@.len() == 0,
{
    ctx.messages = Vec::new();
    ctx.static_info = crate::config::AIChatStatic::new();
}

/// The speaker named at the start of a user message (see `speaker`).
pub fn message_speaker(content: &str) -> (s: String)
    ensures
        s@ == speaker(content@),
{
    let cs = chars_of(content);
    let mut k: usize = 0;
    while k < cs.len() && cs[k] != ':'
        invariant
            cs@ == content@,
            k <= cs@.len(),
            first_colon_from(cs@, 0) == first_colon_from(cs@, k as int),
        decreases cs.len() - k,
    {
        k += 1;
    }
    let head = string_from_range(cs.as_slice(), 0, k);
    let hv = chars_of(head.as_str());
    let (a, b) = trim_bounds(hv.as_slice());
    proof {
        if k < cs@.len() {
            assert(first_colon_from(cs@, 0) == Some(k as int));
        } else {
            assert(first_colon_from(cs@, 0) is None);
        }
        assert(cs@.subrange(0, k as int) =~= cs@.take(k as int));
        assert(cs@.take(cs@.len() as int) =~= cs@);
    }
    string_from_range(hv.as_slice(), a, b)
}

/// Whether `v` holds a string equal to `s`.
fn contains_string(v: &Vec<String>, s: &String) -> (b: bool)
    ensures
        b == views(v@).contains(s@),
{
    let mut i: usize = 0;
    while i < v.len()
        invariant
            i <= v@.len(),
            forall|j: int| 0 <= j < i ==> (#[trigger] v@[j])@ != s@,
        decreases v.len() - i,
    {
        if v[i] == *s {
            assert(views(v@)[i as int] == s@);
            return true;
        }
        i += 1;
    }
    assert forall|j: int| 0 <= j < views(v@).len() implies #[trigger] views(v@)[j] != s@ by {
        assert(views(v@)[j] == v@[j]@);
    }
    false
}

/// The distinct speakers of the user messages, in the order of their first message.
pub fn conversation_users(msgs: &Vec<AIChatMessage>) -> (users: Vec<String>)
    ensures
        views(users@) == users_spec(msgs@),
{
    let mut users: Vec<String> = Vec::new();
    let mut i: usize = 0;
    assert(msgs@.take(0) =~= Seq::<AIChatMessage>::empty());
    while i < msgs.len()
        invariant
            i <= msgs@.len(),
            views(users@) == users_spec(msgs@.take(i as int)),
        decreases msgs.len() - i,
    {
        assert(msgs@.take(i + 1).drop_last() =~= msgs@.take(i as int));
        if msgs[i].role.is_user() {
            let who = message_speaker(msgs[i].content.as_str());
            if !contains_string(&users, &who) {
                let ghost before = users@;
                users.push(who);
                assert(views(users@) =~= before.map_values(|x: String| x@).push(
                    who@,
                ));
            }
        }
        i += 1;
    }
    assert(msgs@.take(msgs@.len() as int) =~= msgs@);
    users
}

/// The text that lists the speakers of the conversation (see `users_section_spec`).
pub fn users_section(msgs: &Vec<AIChatMessage>) -> (s: String)
    ensures
        s@ == users_section_spec(msgs@),
{
    let mut any = false;
    let mut i: usize = 0;
    while i < msgs.len()
        invariant
            i <= msgs@.len(),
            any == exists|j: int| 0 <= j < i && (#[trigger] msgs@[j]).role == Role::User,
        decreases msgs.len() - i,
    {
        if msgs[i].role.is_user() {
            any = true;
        }
        i += 1;
    }
    let mut s = String::new();
    if any {
        push_str(&mut s, "\nCurrent users in the conversation");
        let users = conversation_users(msgs);
        let mut k: usize = 0;
        let ghost head = "\nCurrent users in the conversation"@;
        assert(s@ =~= head);
        while k < users.len()
            invariant
                k <= users@.len(),
                s@ == head + join_lines(views(users@).take(k as int)),
            decreases users.len() - k,
        {
            let ghost us = views(users@);
            assert(us.take(k + 1).drop_last() =~= us.take(k as int));
            assert(us[k as int] == users@[k as int]@);
            if k > 0 {
                push_char(&mut s, '\n');
                assert(us.take(k + 1).len() > 1);
            } else {
                assert(us.take(1) =~= seq![us[0]]);
            }
            push_str(&mut s, users[k].as_str());
            proof {
                if k > 0 {
                    assert(s@ =~= head + (join_lines(us.take(k as int)) + seq!['\n'] + us[k as int]));
                } else {
                    assert(join_lines(us.take(0)) =~= Seq::<char>::empty());
                    assert(s@ =~= head + us[0]);
                }
            }
            k += 1;
        }
        assert(views(users@).take(users@.len() as int) =~= views(users@));
    }
    s
}

/// Gives the first system message the content `content`, or adds a system message with it
/// at the end when there is none.
pub fn set_system_message(msgs: &mut Vec<AIChatMessage>, content: String)
    ensures
        match first_system(old(msgs)@) {
            Some(i) => final(msgs)@ == old(msgs)@.update(
                i,
                AIChatMessage { role: Role::System, content },
            ),
            None => final(msgs)@ == old(msgs)@.push(AIChatMessage { role: Role::System, content }),
        },
{
    let mut i: usize = 0;
    while i < msgs.len()
        invariant
            i <= msgs@.len(),
            msgs@ == old(msgs)@,
            first_system(msgs@.take(i as int)) is None,
        decreases msgs.len() - i,
    {
        assert(msgs@.take(i + 1).drop_last() =~= msgs@.take(i as int));
        if msgs[i].role.is_system() {
            proof {
                lemma_first_system_prefix(msgs@, i as int);
            }
            msgs.set(i, AIChatMessage { role: Role::System, content });
            return;
        }
        i += 1;
    }
    assert(msgs@.take(msgs@.len() as int) =~= msgs@);
    msgs.push(AIChatMessage { role: Role::System, content });
}

proof fn lemma_first_system_prefix(msgs: Seq<AIChatMessage>, i: int)
    requires
        0 <= i < msgs.len(),
        first_system(msgs.take(i)) is None,
        msgs[i].role == Role::System,
    ensures
        first_system(msgs) == Some(i),
    decreases msgs.len(),
{
    if i < msgs.len() - 1 {
        assert(msgs.drop_last().take(i) =~= msgs.take(i));
        lemma_first_system_prefix(msgs.drop_last(), i);
    } else {
        assert(msgs.drop_last() =~= msgs.take(i));
    }
}

proof fn lemma_first_system_range(msgs: Seq<AIChatMessage>)
    ensures
        first_system(msgs) matches Some(k) ==> 0 <= k < msgs.len() && msgs[k].role == Role::System,
    decreases msgs.len(),
{
    if msgs.len() > 0 {
        lemma_first_system_range(msgs.drop_last());
    }
}

/// The system message of a turn (see `bot_context_spec`).
pub fn bot_context(
    role: &str,
    guild_desc: &str,
    author_desc: &str,
    now: &str,
    search: Option<&str>,
    system_content: &str,
) -> (s: String)
    ensures
        s@ == bot_context_spec(
            role@,
            guild_desc@,
            author_desc@,
            now@,
            match search {
                Some(t) => Some(t@),
                None => None,
            },
            system_content@,
        ),
{
    let mut s = String::new();
    push_str(&mut s, role);
    push_str(&mut s, guild_desc);
    push_str(&mut s, author_desc);
    push_str(&mut s, "Currently the date and time in UTC-timezone is");
    push_str(&mut s, now);
    push_str(&mut s, "\nScraping DuckDuckGo for the user's message gives this: ");
    match search {
        Some(t) => push_str(&mut s, t),
        None => push_str(&mut s, "Nothing scraped from the internet"),
    }
    push_str(&mut s, "\n");
    push_str(&mut s, system_content);
    assert(s@ =~= bot_context_spec(
        role@,
        guild_desc@,
        author_desc@,
        now@,
        match search {
            Some(t) => Some(t@),
            None => None,
        },
        system_content@,
    ));
    s
}

/// The user message of a turn: `User: {author}: {content}`.
pub fn user_message(author: &str, content: &str) -> (s: String)
    ensures
        s@ == user_message_spec(author@, content@),
{
    let mut s = String::new();
    push_str(&mut s, "User: ");
    push_str(&mut s, author);
    push_str(&mut s, ": ");
    push_str(&mut s, content);
    assert(s@ =~= user_message_spec(author@, content@));
    s
}

/// An optional string by its view.
pub open spec fn opt_seq(o: Option<String>) -> Option<Seq<char>> {
    match o {
        Some(t) => Some(t@),
        None => None,
    }
}

/// The system message of a turn in a conversation: its role, the guild description and
/// what it knows of the author, the time, the search results, and the per-message context
/// followed by the list of speakers so far.
pub open spec fn turn_context(
    ctx: AIChatContext,
    author_id: u64,
    now: Seq<char>,
    search: Option<Seq<char>>,
    system_content: Seq<char>,
) -> Seq<char> {
    bot_context_spec(
        ctx.static_info.chatbot_role@,
        ctx.static_info.guild_desc@,
        ctx.static_info.users@[author_id]@,
        now,
        search,
        system_content + users_section_spec(ctx.messages@),
    )
}

/// Law: the system message of a turn is made of two parts. It begins with the chatbot's
/// role, the guild description, what is known of the author, the time heading and the time;
/// it ends with the search heading, then the search results given (or, without any, the
/// note that nothing was found), a line break, the per-message context and the list of
/// speakers.
pub proof fn turn_context_layout(
    ctx: AIChatContext,
    author_id: u64,
    now: Seq<char>,
    search: Option<Seq<char>>,
    system_content: Seq<char>,
)
    ensures
        has_prefix(
            turn_context(ctx, author_id, now, search, system_content),
            ctx.static_info.chatbot_role@,
        ),
        has_prefix(
            turn_context(ctx, author_id, now, search, system_content),
            ctx.static_info.chatbot_role@ + ctx.static_info.guild_desc@ + ctx.static_info.users@[author_id]@
                + "Currently the date and time in UTC-timezone is"@ + now,
        ),
        turn_context(ctx, author_id, now, search, system_content).len() == ctx.static_info.chatbot_role@.len()
            + ctx.static_info.guild_desc@.len() + ctx.static_info.users@[author_id]@.len()
            + "Currently the date and time in UTC-timezone is"@.len() + now.len()
            + ("\nScraping DuckDuckGo for the user's message gives this: "@ + match search {
            Some(t) => t,
            None => "Nothing scraped from the internet"@,
        } + "\n"@ + system_content + users_section_spec(ctx.messages@)).len(),
        has_suffix(
            turn_context(ctx, author_id, now, search, system_content),
            "\nScraping DuckDuckGo for the user's message gives this: "@ + match search {
                Some(t) => t,
                None => "Nothing scraped from the internet"@,
            } + "\n"@ + system_content + users_section_spec(ctx.messages@),
        ),
{
    let role = ctx.static_info.chatbot_role@;
    let head = role + ctx.static_info.guild_desc@ + ctx.static_info.users@[author_id]@
        + "Currently the date and time in UTC-timezone is"@ + now;
    let tail = "\nScraping DuckDuckGo for the user's message gives this: "@ + match search {
        Some(t) => t,
        None => "Nothing scraped from the internet"@,
    } + "\n"@ + system_content + users_section_spec(ctx.messages@);
    let tc = turn_context(ctx, author_id, now, search, system_content);
    assert(tc =~= head + tail);
    assert((head + tail).skip(head.len() as int) =~= tail);
    assert((head + tail).take(role.len() as int) =~= role);
    assert((head + tail).take(head.len() as int) =~= head);
}

/// The messages after a turn has started: the first system message, or a new one at the
/// end when there is none, holds `sys`; every other message stays; the user message `user`
/// comes last.
pub open spec fn turn_started(
    before: Seq<AIChatMessage>,
    after: Seq<AIChatMessage>,
    sys: Seq<char>,
    user: Seq<char>,
) -> bool {
    let n = before.len();
    &&& match first_system(before) {
        Some(k) => {
            &&& after.len() == n + 1
            &&& after[k].role == Role::System
            &&& after[k].content@ == sys
            &&& forall|i: int| 0 <= i < n && i != k ==> #[trigger] after[i] == before[i]
        },
        None => {
            &&& after.len() == n + 2
            &&& after[n as int].role == Role::System
            &&& after[n as int].content@ == sys
            &&& forall|i: int| 0 <= i < n ==> #[trigger] after[i] == before[i]
        },
    }
    &&& after.last().role == Role::User
    &&& after.last().content@ == user
}

/// Prepares the conversation for the chatbot's answer to a message and gives the messages
/// to send: the speakers list is added to the per-message context, the system message is
/// set to the turn's context, the conversation is marked as set up and the user message
/// is added at the end.
pub fn prepare_turn(
    ctx: &mut AIChatContext,
    author_id: u64,
    author_name: &str,
    content_safe: &str,
    system_content: String,
    now: &str,
    search: Option<String>,
) -> (sent: Vec<AIChatMessage>)
    requires
        old(ctx).static_info.users@.contains_key(author_id),
    ensures
        turn_started(
            old(ctx).messages@,
            final(ctx).messages@,
            turn_context(*old(ctx), author_id, now@, opt_seq(search), system_content@),
            user_message_spec(author_name@, content_safe@),
        ),
        final(ctx).static_info.is_set,
        final(ctx).static_info.chatbot_role == old(ctx).static_info.chatbot_role,
        final(ctx).static_info.guild_desc == old(ctx).static_info.guild_desc,
        final(ctx).static_info.users == old(ctx).static_info.users,
        sent@.len() == final(ctx).messages@.len(),
        forall|i: int| 0 <= i < sent@.len() ==> (#[trigger] sent@[i]).role == final(ctx).messages@[i].role
            && sent@[i].content@ == final(ctx).messages@[i].content@,
{
    proof {
        lemma_first_system_range(old(ctx).messages@);
    }
    let mut system_content = system_content;
    let section = users_section(&ctx.messages);
    push_str(&mut system_content, section.as_str());
    let author_desc: &String = ctx.static_info.users.get(&author_id).unwrap();
    let search_ref: Option<&str> = match &search {
        Some(t) => Some(t.as_str()),
        None => None,
    };
    let sys = bot_context(
        ctx.static_info.chatbot_role.as_str(),
        ctx.static_info.guild_desc.as_str(),
        author_desc.as_str(),
        now,
        search_ref,
        system_content.as_str(),
    );
    set_system_message(&mut ctx.messages, sys);
    ctx.static_info.is_set = true;
    let um = user_message(author_name, content_safe);
    ctx.messages.push(AIChatMessage::user(um));
    clone_messages(&ctx.messages)
}

/// Starts the chatbot's turn when the author's description is known: the conversation is
/// prepared as `prepare_turn` states and the messages to send are given. Without a known
/// author nothing changes and nothing is sent.
pub fn start_turn(
    ctx: &mut AIChatContext,
    author_id: u64,
    author_name: &str,
    content_safe: &str,
    system_content: String,
    now: &str,
    search: Option<String>,
) -> (sent: Option<Vec<AIChatMessage>>)
    ensures
        sent is Some <==> old(ctx).static_info.users@.contains_key(author_id),
        sent is None ==> *final(ctx) == *old(ctx),
        sent matches Some(v) ==> {
            &&& turn_started(
                old(ctx).messages@,
                final(ctx).messages@,
                turn_context(*old(ctx), author_id, now@, opt_seq(search), system_content@),
                user_message_spec(author_name@, content_safe@),
            )
            &&& final(ctx).static_info.is_set
            &&& final(ctx).static_info.chatbot_role == old(ctx).static_info.chatbot_role
            &&& final(ctx).static_info.guild_desc == old(ctx).static_info.guild_desc
            &&& final(ctx).static_info.users == old(ctx).static_info.users
            &&& v@.len() == final(ctx).messages@.len()
            &&& forall|i: int| 0 <= i < v@.len() ==> (#[trigger] v@[i]).role == final(ctx).messages@[i].role
                && v@[i].content@ == final(ctx).messages@[i].content@
        },
{
    if ctx.static_info.users.contains_key(&author_id) {
        Some(prepare_turn(ctx, author_id, author_name, content_safe, system_content, now, search))
    } else {
        None
    }
}

/// Sets the conversation up for a message: a conversation not set up yet takes the role
/// and, where one is given, the description of the guild; one set up already takes the
/// role when it changed.
pub fn set_up_conversation(ctx: &mut AIChatContext, role: String, guild_desc: Option<String>)
    ensures
        final(ctx).static_info.chatbot_role@ == role@,
        final(ctx).static_info.guild_desc == (if !old(ctx).static_info.is_set && guild_desc is Some {
            guild_desc.unwrap()
        } else {
            old(ctx).static_info.guild_desc
        }),
        final(ctx).static_info.is_set == old(ctx).static_info.is_set,
        final(ctx).static_info.users == old(ctx).static_info.users,
        final(ctx).messages == old(ctx).messages,
{
    if !ctx.static_info.is_set {
        ctx.static_info.chatbot_role = role;
        if let Some(desc) = guild_desc {
            ctx.static_info.guild_desc = desc;
        }
    } else if !(ctx.static_info.chatbot_role == role) {
        ctx.static_info.chatbot_role = role;
    }
}

/// The description of a user that the conversation holds already, if any. A mentioned
/// user without one has to be looked up and described.
pub fn known_description(ctx: &AIChatContext, user_id: u64) -> (d: Option<String>)
    ensures
        d is Some <==> ctx.static_info.users@.contains_key(user_id),
        d matches Some(t) ==> t@ == ctx.static_info.users@[user_id]@,
{
    match ctx.static_info.users.get(&user_id) {
        Some(t) => Some(t.clone()),
        None => None,
    }
}

/// Adds the chatbot's answer at the end of the conversation.
pub fn record_answer(ctx: &mut AIChatContext, response: String)
    ensures
        final(ctx).messages@ == old(ctx).messages@.push(
            AIChatMessage { role: Role::Assistant, content: response },
        ),
        final(ctx).static_info == old(ctx).static_info,
{
    ctx.messages.push(AIChatMessage { role: Role::Assistant, content: response });
}

/// Number of system messages.
pub open spec fn system_count(msgs: Seq<AIChatMessage>) -> nat
    decreases msgs.len(),
{
    if msgs.len() == 0 {
        0
    } else {
        system_count(msgs.drop_last()) + if msgs.last().role == Role::System {
            1nat
        } else {
            0nat
        }
    }
}

proof fn lemma_push_message(msgs: Seq<AIChatMessage>, m: AIChatMessage)
    ensures
        system_count(msgs.push(m)) == system_count(msgs) + if m.role == Role::System {
            1nat
        } else {
            0nat
        },
        first_system(msgs.push(m)) == match first_system(msgs) {
            Some(i) => Some(i),
            None => if m.role == Role::System {
                Some(msgs.len() as int)
            } else {
                None
            },
        },
{
    assert(msgs.push(m).drop_last() =~= msgs);
}

proof fn lemma_same_roles(a: Seq<AIChatMessage>, b: Seq<AIChatMessage>)
    requires
        a.len() == b.len(),
        forall|i: int| 0 <= i < a.len() ==> #[trigger] a[i].role == b[i].role,
    ensures
        system_count(a) == system_count(b),
        first_system(a) == first_system(b),
    decreases a.len(),
{
    if a.len() > 0 {
        lemma_same_roles(a.drop_last(), b.drop_last());
    }
}

proof fn lemma_no_system(msgs: Seq<AIChatMessage>)
    ensures
        first_system(msgs) is None <==> system_count(msgs) == 0,
    decreases msgs.len(),
{
    if msgs.len() > 0 {
        lemma_no_system(msgs.drop_last());
    }
}

/// Law: a whole chatbot turn, started on a conversation with at most one system message and
/// answered, leaves exactly one system message, the first, which begins with the chatbot's
/// role; the user message and the answer are the last two messages; the conversation is
/// set up and keeps its role.
pub proof fn chatbot_turn_law(
    before: AIChatContext,
    started: AIChatContext,
    answered: AIChatContext,
    author_id: u64,
    author_name: Seq<char>,
    content_safe: Seq<char>,
    now: Seq<char>,
    search: Option<Seq<char>>,
    system_content: Seq<char>,
    answer: String,
)
    requires
        system_count(before.messages@) <= 1,
        turn_started(
            before.messages@,
            started.messages@,
            turn_context(before, author_id, now, search, system_content),
            user_message_spec(author_name, content_safe),
        ),
        started.static_info.is_set,
        started.static_info.chatbot_role == before.static_info.chatbot_role,
        answered.messages@ == started.messages@.push(
            AIChatMessage { role: Role::Assistant, content: answer },
        ),
        answered.static_info == started.static_info,
    ensures
        system_count(answered.messages@) == 1,
        first_system(answered.messages@) matches Some(k) && has_prefix(
            answered.messages@[k].content@,
            before.static_info.chatbot_role@,
        ),
        answered.messages@.len() >= 2,
        answered.messages@[answered.messages@.len() - 2].role == Role::User,
        answered.messages@[answered.messages@.len() - 2].content@ == "User: "@ + author_name + ": "@
            + content_safe,
        answered.messages@.last() == (AIChatMessage { role: Role::Assistant, content: answer }),
        answered.static_info.is_set,
        answered.static_info.chatbot_role == before.static_info.chatbot_role,
{
    let b = before.messages@;
    let m = started.messages@;
    let n = b.len();
    let role = before.static_info.chatbot_role@;
    let sys = turn_context(before, author_id, now, search, system_content);
    assert(sys.take(role.len() as int) =~= role);
    lemma_no_system(b);
    let a = m.take(n as int);
    match first_system(b) {
        Some(k) => {
            lemma_first_system_range(b);
            assert forall|i: int| 0 <= i < a.len() implies #[trigger] a[i].role == b[i].role by {
                if i != k {
                    assert(m[i] == b[i]);
                }
            }
            lemma_same_roles(a, b);
            assert(m =~= a.push(m.last()));
            lemma_push_message(a, m.last());
            assert(system_count(m) == 1);
            assert(first_system(m) == Some(k));
        },
        None => {
            assert forall|i: int| 0 <= i < a.len() implies #[trigger] a[i].role == b[i].role by {
                assert(m[i] == b[i]);
            }
            lemma_same_roles(a, b);
            let a1 = m.take(n as int + 1);
            assert(a1 =~= a.push(m[n as int]));
            lemma_push_message(a, m[n as int]);
            assert(m =~= a1.push(m.last()));
            lemma_push_message(a1, m.last());
            assert(first_system(m) == Some(n as int));
        },
    }
    lemma_push_message(m, AIChatMessage { role: Role::Assistant, content: answer });
}

/// Sets the chatbot role that the conversation uses.
pub fn set_chatbot_role(ctx: &mut AIChatContext, role: String)
    ensures
        final(ctx).static_info.chatbot_role == role,
        final(ctx).static_info.is_set == old(ctx).static_info.is_set,
        final(ctx).static_info.guild_desc == old(ctx).static_info.guild_desc,
        final(ctx).static_info.users == old(ctx).static_info.users,
        final(ctx).messages == old(ctx).messages,
{
    ctx.static_info.chatbot_role = role;
}

/// Whether the description of the author has to be gathered before answering: it has
/// when the conversation is not set up yet or the author is not known.
pub fn needs_author_info(ctx: &AIChatContext, author_id: u64) -> (b: bool)
    ensures
        b == (!ctx.static_info.is_set || !ctx.static_info.users@.contains_key(author_id)),
{
    !ctx.static_info.is_set || !ctx.static_info.users.contains_key(&author_id)
}

/// Records what is known of a user.
pub fn remember_user(ctx: &mut AIChatContext, user_id: u64, desc: String)
    ensures
        final(ctx).static_info.users@ == old(ctx).static_info.users@.insert(user_id, desc),
        final(ctx).static_info.is_set == old(ctx).static_info.is_set,
        final(ctx).static_info.chatbot_role == old(ctx).static_info.chatbot_role,
        final(ctx).static_info.guild_desc == old(ctx).static_info.guild_desc,
        final(ctx).messages == old(ctx).messages,
{
    ctx.static_info.users.insert(user_id, desc);
}

/// The text that the voice of the chatbot reads: the answer without apostrophes.
pub fn voice_prompt(prompt: &str) -> (r: String)
    ensures
        r@ == without_apostrophes(prompt@),
{
    let cs = chars_of(prompt);
    let mut r = String::new();
    let mut i: usize = 0;
    while i < cs.len()
        invariant
            cs@ == prompt@,
            i <= cs@.len(),
            r@ == without_apostrophes(cs@.take(i as int)),
        decreases cs.len() - i,
    {
        assert(cs@.take(i + 1).drop_last() =~= cs@.take(i as int));
        if cs[i] != '\'' {
            push_char(&mut r, cs[i]);
        }
        i += 1;
    }
    assert(cs@.take(cs@.len() as int) =~= cs@);
    r
}

/// What the chatbot is told of the author of a message.
pub fn author_description(name: &str, pfp: &str, roles: &str, nickname: &str, joined: &str) -> (s: String)
    ensures
        s@ == "\n"@ + name@ + "'s pfp can be described as: "@ + pfp@ + " and "@ + name@ + " has the following roles: "@ + roles@ + ". Their nickname in the current guild is "@ + nickname@ + " which they joined on this date "@ + joined@,
{
    let mut s = String::new();
    push_str(&mut s, "\n");
    push_str(&mut s, name);
    push_str(&mut s, "'s pfp can be described as: ");
    push_str(&mut s, pfp);
    push_str(&mut s, " and ");
    push_str(&mut s, name);
    push_str(&mut s, " has the following roles: ");
    push_str(&mut s, roles);
    push_str(&mut s, ". Their nickname in the current guild is ");
    push_str(&mut s, nickname);
    push_str(&mut s, " which they joined on this date ");
    push_str(&mut s, joined);
    assert(s@ =~= "\n"@ + name@ + "'s pfp can be described as: "@ + pfp@ + " and "@ + name@ + " has the following roles: "@ + roles@ + ". Their nickname in the current guild is "@ + nickname@ + " which they joined on this date "@ + joined@);
    s
}

/// What the chatbot is told of the guild it talks in; `channel_names` are the names of
/// its channels run together, `owner_note` says whether the author owns the guild.
pub fn guild_description_text(name: &str, description: &str, members: u64, channels: usize, channel_names: &str, owner_note: &str) -> (s: String)
    ensures
        s@ == "\nThe guild you're currently talking in is named "@ + name@ + " with this description "@ + description@ + ", have "@ + decimal_digits(members as nat) + " members and have "@ + decimal_digits(channels as nat) + " channels with these names "@ + channel_names@ + ". "@ + owner_note@,
{
    let mut s = String::new();
    push_str(&mut s, "\nThe guild you're currently talking in is named ");
    push_str(&mut s, name);
    push_str(&mut s, " with this description ");
    push_str(&mut s, description);
    push_str(&mut s, ", have ");
    push_decimal(&mut s, members as u64);
    push_str(&mut s, " members and have ");
    push_decimal(&mut s, channels as u64);
    push_str(&mut s, " channels with these names ");
    push_str(&mut s, channel_names);
    push_str(&mut s, ". ");
    push_str(&mut s, owner_note);
    assert(s@ =~= "\nThe guild you're currently talking in is named "@ + name@ + " with this description "@ + description@ + ", have "@ + decimal_digits(members as nat) + " members and have "@ + decimal_digits(channels as nat) + " channels with these names "@ + channel_names@ + ". "@ + owner_note@);
    s
}

/// What the chatbot is told of the message that a message answers.
pub fn reply_context(author: &str, ref_name: &str, content: &str) -> (s: String)
    ensures
        s@ == "\n"@ + author@ + " replied to a message sent by: "@ + ref_name@ + " and had this content: "@ + content@,
{
    let mut s = String::new();
    push_str(&mut s, "\n");
    push_str(&mut s, author);
    push_str(&mut s, " replied to a message sent by: ");
    push_str(&mut s, ref_name);
    push_str(&mut s, " and had this content: ");
    push_str(&mut s, content);
    assert(s@ =~= "\n"@ + author@ + " replied to a message sent by: "@ + ref_name@ + " and had this content: "@ + content@);
    s
}

/// The line before the descriptions of the users a message mentions.
pub fn mentions_header(count: usize) -> (s: String)
    ensures
        s@ == "\n"@ + decimal_digits(count as nat) + " user(s) were mentioned:"@,
{
    let mut s = String::new();
    push_str(&mut s, "\n");
    push_decimal(&mut s, count as u64);
    push_str(&mut s, " user(s) were mentioned:");
    assert(s@ =~= "\n"@ + decimal_digits(count as nat) + " user(s) were mentioned:"@);
    s
}

/// What the chatbot is told of a user that a message mentions.
pub fn mention_description(name: &str, global_name: &str, roles: &str, pfp: &str, joined: &str) -> (s: String)
    ensures
        s@ == "\n"@ + name@ + " was mentioned (global name is "@ + global_name@ + "). Roles: "@ + roles@ + ". Profile picture: "@ + pfp@ + ". Joined this guild at this date: "@ + joined@,
{
    let mut s = String::new();
    push_str(&mut s, "\n");
    push_str(&mut s, name);
    push_str(&mut s, " was mentioned (global name is ");
    push_str(&mut s, global_name);
    push_str(&mut s, "). Roles: ");
    push_str(&mut s, roles);
    push_str(&mut s, ". Profile picture: ");
    push_str(&mut s, pfp);
    push_str(&mut s, ". Joined this guild at this date: ");
    push_str(&mut s, joined);
    assert(s@ =~= "\n"@ + name@ + " was mentioned (global name is "@ + global_name@ + "). Roles: "@ + roles@ + ". Profile picture: "@ + pfp@ + ". Joined this guild at this date: "@ + joined@);
    s
}

/// The line before the descriptions of the pictures a message carries.
pub fn attachments_header(count: usize) -> (s: String)
    ensures
        s@ == "\n"@ + decimal_digits(count as nat) + " attachment(s) were sent:"@,
{
    let mut s = String::new();
    push_str(&mut s, "\n");
    push_decimal(&mut s, count as u64);
    push_str(&mut s, " attachment(s) were sent:");
    assert(s@ =~= "\n"@ + decimal_digits(count as nat) + " attachment(s) were sent:"@);
    s
}

/// What the chatbot is told of a message that a message links to.
pub fn link_context(author: &str, guild: &str, link_author: &str, content: &str) -> (s: String)
    ensures
        s@ == "\n"@ + author@ + " linked to a message sent in: "@ + guild@ + ", sent by: "@ + link_author@ + " and had this content: "@ + content@,
{
    let mut s = String::new();
    push_str(&mut s, "\n");
    push_str(&mut s, author);
    push_str(&mut s, " linked to a message sent in: ");
    push_str(&mut s, guild);
    push_str(&mut s, ", sent by: ");
    push_str(&mut s, link_author);
    push_str(&mut s, " and had this content: ");
    push_str(&mut s, content);
    assert(s@ =~= "\n"@ + author@ + " linked to a message sent in: "@ + guild@ + ", sent by: "@ + link_author@ + " and had this content: "@ + content@);
    s
}

/// What the chatbot is told when a message links to a message it cannot read.
pub fn hidden_link_context(author: &str) -> (s: String)
    ensures
        s@ == "\n"@ + author@ + " linked to a message in non-accessible guild"@,
{
    let mut s = String::new();
    push_str(&mut s, "\n");
    push_str(&mut s, author);
    push_str(&mut s, " linked to a message in non-accessible guild");
    assert(s@ =~= "\n"@ + author@ + " linked to a message in non-accessible guild"@);
    s
}

/// What the chatbot is told of whether it talks to the owner of the guild.
pub fn owner_note(is_owner: bool) -> (s: &'static str)
    ensures
        s@ == if is_owner {
            "You're also talking to this guild's owner"@
        } else {
            "But you're not talking to this guild's owner"@
        },
{
    if is_owner {
        "You're also talking to this guild's owner"
    } else {
        "But you're not talking to this guild's owner"
    }
}

} // verus!

//! Changes to the settings of guilds and users that commands make, as the bot keeps them
//! in memory beside the database.
use std::collections::HashMap;
use vstd::prelude::*;
use crate::config::{
    default_user_settings, EmojiReactions, GuildSettings, UserSettings, WordReactions,
    WordTracking,
};
use crate::events::opt_view;

verus! {

/// A change that a command makes to the settings of a guild.
pub enum GuildSettingsChange {
    /// Commands start with this prefix.
    Prefix(String),
    /// Quoted messages go to this channel.
    QuotesChannel(i64),
    /// Messages in this channel are sent again as spoilers.
    SpoilerChannel(i64),
    /// The chatbot talks in this channel.
    ChatbotChannel(i64),
    /// A dead-chat gif goes to `channel` when it was quiet for `rate` minutes.
    DeadChat { rate: i64, channel: i64 },
    /// The guild joins the global chat from this channel.
    GlobalChatStart(i64),
    /// The guild leaves the global chat.
    GlobalChatEnd,
    /// The guild shares music globally, or stops.
    GlobalMusic(bool),
    /// The guild joins the global voice call.
    GlobalCallStart,
    /// The bot left the voice channel: no global music and no global call.
    LeaveVoice,
}

/// The settings after a change: the field that the change names takes its value, the
/// others stay.
pub open spec fn changed_guild_settings(s: GuildSettings, change: GuildSettingsChange) -> GuildSettings {
    match change {
        GuildSettingsChange::Prefix(p) => GuildSettings { prefix: Some(p), ..s },
        GuildSettingsChange::QuotesChannel(c) => GuildSettings { quotes_channel: Some(c), ..s },
        GuildSettingsChange::SpoilerChannel(c) => GuildSettings { spoiler_channel: Some(c), ..s },
        GuildSettingsChange::ChatbotChannel(c) => GuildSettings { ai_chat_channel: Some(c), ..s },
        GuildSettingsChange::DeadChat { rate, channel } => GuildSettings {
            dead_chat_rate: Some(rate),
            dead_chat_channel: Some(channel),
            ..s
        },
        GuildSettingsChange::GlobalChatStart(c) => GuildSettings {
            global_chat: true,
            global_chat_channel: Some(c),
            ..s
        },
        GuildSettingsChange::GlobalChatEnd => GuildSettings {
            global_chat: false,
            global_chat_channel: None,
            ..s
        },
        GuildSettingsChange::GlobalMusic(on) => GuildSettings { global_music: on, ..s },
        GuildSettingsChange::GlobalCallStart => GuildSettings { global_call: true, ..s },
        GuildSettingsChange::LeaveVoice => GuildSettings {
            global_music: false,
            global_call: false,
            ..s
        },
    }
}

/// Applies a change to the settings of a guild.
pub fn change_guild_settings(s: &mut GuildSettings, change: GuildSettingsChange)
    ensures
        *final(s) == changed_guild_settings(*old(s), change),
{
    match change {
        GuildSettingsChange::Prefix(p) => {
            s.prefix = Some(p);
        },
        GuildSettingsChange::QuotesChannel(c) => {
            s.quotes_channel = Some(c);
        },
        GuildSettingsChange::SpoilerChannel(c) => {
            s.spoiler_channel = Some(c);
        },
        GuildSettingsChange::ChatbotChannel(c) => {
            s.ai_chat_channel = Some(c);
        },
        GuildSettingsChange::DeadChat { rate, channel } => {
            s.dead_chat_rate = Some(rate);
            s.dead_chat_channel = Some(channel);
        },
        GuildSettingsChange::GlobalChatStart(c) => {
            s.global_chat = true;
            s.global_chat_channel = Some(c);
        },
        GuildSettingsChange::GlobalChatEnd => {
            s.global_chat = false;
            s.global_chat_channel = None;
        },
        GuildSettingsChange::GlobalMusic(on) => {
            s.global_music = on;
        },
        GuildSettingsChange::GlobalCallStart => {
            s.global_call = true;
        },
        GuildSettingsChange::LeaveVoice => {
            s.global_music = false;
            s.global_call = false;
        },
    }
}

/// A change that a command makes to the settings of a user.
pub enum UserSettingsChange {
    /// The user goes afk, with an optional reason.
    Afk(Option<String>),
    /// The chatbot options of the user; the sampling parameters are `f32` bit patterns.
    ChatbotOptions {
        role: Option<String>,
        internet_search: Option<bool>,
        temperature: Option<u32>,
        top_p: Option<u32>,
        top_k: Option<i32>,
        repetition_penalty: Option<u32>,
        frequency_penalty: Option<u32>,
        presence_penalty: Option<u32>,
    },
    /// The custom answer when the user is pinged.
    Ping { content: String, media: Option<String> },
    /// Everything back to the defaults.
    Reset,
}

/// The settings of a user after a change.
pub open spec fn changed_user_settings(s: UserSettings, change: UserSettingsChange) -> UserSettings {
    match change {
        UserSettingsChange::Afk(reason) => UserSettings { afk: true, afk_reason: reason, ..s },
        UserSettingsChange::ChatbotOptions {
            role,
            internet_search,
            temperature,
            top_p,
            top_k,
            repetition_penalty,
            frequency_penalty,
            presence_penalty,
        } => UserSettings {
            chatbot_role: role,
            chatbot_internet_search: internet_search,
            chatbot_temperature: temperature,
            chatbot_top_p: top_p,
            chatbot_top_k: top_k,
            chatbot_repetition_penalty: repetition_penalty,
            chatbot_frequency_penalty: frequency_penalty,
            chatbot_presence_penalty: presence_penalty,
            ..s
        },
        UserSettingsChange::Ping { content, media } => UserSettings {
            ping_content: Some(content),
            ping_media: media,
            ..s
        },
        UserSettingsChange::Reset => default_user_settings(s.guild_id, s.user_id),
    }
}

/// Applies a change to the settings of one user.
pub fn change_user_settings(s: &mut UserSettings, change: UserSettingsChange)
    ensures
        *final(s) == changed_user_settings(*old(s), change),
{
    match change {
        UserSettingsChange::Afk(reason) => {
            s.afk = true;
            s.afk_reason = reason;
        },
        UserSettingsChange::ChatbotOptions {
            role,
            internet_search,
            temperature,
            top_p,
            top_k,
            repetition_penalty,
            frequency_penalty,
            presence_penalty,
        } => {
            s.chatbot_role = role;
            s.chatbot_internet_search = internet_search;
            s.chatbot_temperature = temperature;
            s.chatbot_top_p = top_p;
            s.chatbot_top_k = top_k;
            s.chatbot_repetition_penalty = repetition_penalty;
            s.chatbot_frequency_penalty = frequency_penalty;
            s.chatbot_presence_penalty = presence_penalty;
        },
        UserSettingsChange::Ping { content, media } => {
            s.ping_content = Some(content);
            s.ping_media = media;
        },
        UserSettingsChange::Reset => {
            *s = UserSettings::new(s.guild_id, s.user_id);
        },
    }
}

/// Applies a change to the settings of user `user` of guild `guild_id`, kept by user id; a
/// user without settings starts from the defaults.
pub fn update_user(
    users: &mut HashMap<u64, UserSettings>,
    guild_id: i64,
    user: u64,
    change: UserSettingsChange,
)
    ensures
        final(users)@ == old(users)@.insert(
            user,
            changed_user_settings(
                if old(users)@.contains_key(user) {
                    old(users)@[user]
                } else {
                    default_user_settings(guild_id, user as i64)
                },
                change,
            ),
        ),
{
    let mut current = match users.remove(&user) {
        Some(s) => s,
        None => UserSettings::new(guild_id, user as i64),
    };
    change_user_settings(&mut current, change);
    users.insert(user, current);
}

/// What identifies a word reaction: all its fields.
pub open spec fn word_reaction_key(r: WordReactions) -> (i64, Seq<char>, Seq<char>, Option<Seq<char>>) {
    (r.guild_id, r.word@, r.content@, opt_view(r.media))
}

/// What identifies a tracked word: all its fields.
pub open spec fn word_tracking_key(r: WordTracking) -> (i64, Seq<char>, i64) {
    (r.guild_id, r.word@, r.count)
}

/// What identifies an emoji reaction: all its fields.
pub open spec fn emoji_reaction_key(r: EmojiReactions) -> (i64, i64, Seq<char>, bool) {
    (r.guild_id, r.emoji_id, r.content_reaction@, r.guild_emoji)
}

/// `s` with `r` added at the end, unless an element with the same key is there already.
pub open spec fn inserted<T, K>(s: Seq<T>, r: T, key: spec_fn(T) -> K) -> Seq<T> {
    if exists|i: int| 0 <= i < s.len() && key(#[trigger] s[i]) == key(r) {
        s
    } else {
        s.push(r)
    }
}

/// Law: adding an element is idempotent (adding it twice is adding it once), and afterwards an
/// element with its key is there.
pub proof fn inserted_laws<T, K>(s: Seq<T>, r: T, key: spec_fn(T) -> K)
    ensures
        inserted(inserted(s, r, key), r, key) == inserted(s, r, key),
        exists|i: int|
            0 <= i < inserted(s, r, key).len() && key(#[trigger] inserted(s, r, key)[i]) == key(r),
{
    let t = inserted(s, r, key);
    if !(exists|i: int| 0 <= i < s.len() && key(#[trigger] s[i]) == key(r)) {
        assert(t[s.len() as int] == r);
    }
    let w = choose|i: int| 0 <= i < t.len() && key(#[trigger] t[i]) == key(r);
    assert(0 <= w < t.len() && key(t[w]) == key(r));
}

/// No two elements of `s` have the same key.
pub open spec fn distinct_keys<T, K>(s: Seq<T>, key: spec_fn(T) -> K) -> bool {
    forall|i: int, j: int| 0 <= i < j < s.len() ==> key(#[trigger] s[i]) != key(#[trigger] s[j])
}

/// Law: adding an element keeps the keys of a set distinct.
pub proof fn inserted_keeps_keys_distinct<T, K>(s: Seq<T>, r: T, key: spec_fn(T) -> K)
    requires
        distinct_keys(s, key),
    ensures
        distinct_keys(inserted(s, r, key), key),
{
    let t = inserted(s, r, key);
    if !(exists|i: int| 0 <= i < s.len() && key(#[trigger] s[i]) == key(r)) {
        assert forall|i: int, j: int| 0 <= i < j < t.len() implies key(#[trigger] t[i]) != key(
            #[trigger] t[j],
        ) by {
            if j == s.len() {
                assert(t[i] == s[i]);
                assert(t[j] == r);
            } else {
                assert(t[i] == s[i] && t[j] == s[j]);
            }
        }
    }
}

/// Whether two optional texts are equal.
fn same_opt_text(a: &Option<String>, b: &Option<String>) -> (eq: bool)
    ensures
        eq == (opt_view(*a) == opt_view(*b)),
{
    match (a, b) {
        (Some(x), Some(y)) => x.eq(y),
        (None, None) => true,
        _ => false,
    }
}

/// Whether two texts are equal.
fn same_text(a: &String, b: &String) -> (eq: bool)
    ensures
        eq == (a@ == b@),
{
    a.eq(b)
}

/// Adds a word reaction unless an equal one is there: the reactions form a set.
pub fn insert_word_reaction(set: &mut Vec<WordReactions>, r: WordReactions)
    ensures
        final(set)@ == inserted(old(set)@, r, |x: WordReactions| word_reaction_key(x)),
{
    let mut i: usize = 0;
    while i < set.len()
        invariant
            i <= set@.len(),
            set@ == old(set)@,
            forall|j: int| 0 <= j < i ==> word_reaction_key(#[trigger] set@[j]) != word_reaction_key(r),
        decreases set.len() - i,
    {
        let e = &set[i];
        if e.guild_id == r.guild_id && same_text(&e.word, &r.word) && same_text(&e.content, &r.content)
            && same_opt_text(&e.media, &r.media) {
            assert(word_reaction_key(set@[i as int]) == word_reaction_key(r));
            return;
        }
        i += 1;
    }
    set.push(r);
}

/// Adds a tracked word unless an equal one is there: the tracked words form a set.
pub fn insert_word_tracking(set: &mut Vec<WordTracking>, r: WordTracking)
    ensures
        final(set)@ == inserted(old(set)@, r, |x: WordTracking| word_tracking_key(x)),
{
    let mut i: usize = 0;
    while i < set.len()
        invariant
            i <= set@.len(),
            set@ == old(set)@,
            forall|j: int| 0 <= j < i ==> word_tracking_key(#[trigger] set@[j]) != word_tracking_key(r),
        decreases set.len() - i,
    {
        let e = &set[i];
        if e.guild_id == r.guild_id && same_text(&e.word, &r.word) && e.count == r.count {
            assert(word_tracking_key(set@[i as int]) == word_tracking_key(r));
            return;
        }
        i += 1;
    }
    set.push(r);
}

/// Adds an emoji reaction unless an equal one is there: the emoji reactions form a set.
pub fn insert_emoji_reaction(set: &mut Vec<EmojiReactions>, r: EmojiReactions)
    ensures
        final(set)@ == inserted(old(set)@, r, |x: EmojiReactions| emoji_reaction_key(x)),
{
    let mut i: usize = 0;
    while i < set.len()
        invariant
            i <= set@.len(),
            set@ == old(set)@,
            forall|j: int|
                0 <= j < i ==> emoji_reaction_key(#[trigger] set@[j]) != emoji_reaction_key(r),
        decreases set.len() - i,
    {
        let e = &set[i];
        if e.guild_id == r.guild_id && e.emoji_id == r.emoji_id && same_text(
            &e.content_reaction,
            &r.content_reaction,
        ) && e.guild_emoji == r.guild_emoji {
            assert(emoji_reaction_key(set@[i as int]) == emoji_reaction_key(r));
            return;
        }
        i += 1;
    }
    set.push(r);
}

/// Law: a setting read after a change gives what the change wrote, and a change leaves the
/// guild id alone.
pub proof fn guild_change_round_trip(s: GuildSettings, change: GuildSettingsChange)
    ensures
        changed_guild_settings(s, change).guild_id == s.guild_id,
        change matches GuildSettingsChange::Prefix(p) ==> changed_guild_settings(s, change).prefix
            == Some(p),
        change matches GuildSettingsChange::QuotesChannel(c) ==> changed_guild_settings(
            s,
            change,
        ).quotes_channel == Some(c),
        change matches GuildSettingsChange::SpoilerChannel(c) ==> changed_guild_settings(
            s,
            change,
        ).spoiler_channel == Some(c),
        change matches GuildSettingsChange::ChatbotChannel(c) ==> changed_guild_settings(
            s,
            change,
        ).ai_chat_channel == Some(c),
        change matches GuildSettingsChange::GlobalChatStart(c) ==> {
            &&& changed_guild_settings(s, change).global_chat
            &&& changed_guild_settings(s, change).global_chat_channel == Some(c)
        },
        change is GlobalChatEnd ==> !changed_guild_settings(s, change).global_chat
            && changed_guild_settings(s, change).global_chat_channel is None,
{
}

/// Law: what a user setting change writes is what is read back afterwards, and nothing
/// else changes: going afk sets the flag and the reason given; the chatbot options are the
/// ones given; a custom ping has the content and the media given; a reset leaves only the
/// guild and the user, every option unset and the counts at zero.
pub proof fn user_change_round_trip(s: UserSettings, change: UserSettingsChange)
    ensures
        ({
            let r = changed_user_settings(s, change);
            match change {
                UserSettingsChange::Afk(reason) => {
                    &&& r.afk
                    &&& r.afk_reason == reason
                    &&& (UserSettings { afk: s.afk, afk_reason: s.afk_reason, ..r }) == s
                },
                UserSettingsChange::ChatbotOptions {
                    role,
                    internet_search,
                    temperature,
                    top_p,
                    top_k,
                    repetition_penalty,
                    frequency_penalty,
                    presence_penalty,
                } => {
                    &&& r.chatbot_role == role
                    &&& r.chatbot_internet_search == internet_search
                    &&& r.chatbot_temperature == temperature
                    &&& r.chatbot_top_p == top_p
                    &&& r.chatbot_top_k == top_k
                    &&& r.chatbot_repetition_penalty == repetition_penalty
                    &&& r.chatbot_frequency_penalty == frequency_penalty
                    &&& r.chatbot_presence_penalty == presence_penalty
                    &&& (UserSettings {
                        chatbot_role: s.chatbot_role,
                        chatbot_internet_search: s.chatbot_internet_search,
                        chatbot_temperature: s.chatbot_temperature,
                        chatbot_top_p: s.chatbot_top_p,
                        chatbot_top_k: s.chatbot_top_k,
                        chatbot_repetition_penalty: s.chatbot_repetition_penalty,
                        chatbot_frequency_penalty: s.chatbot_frequency_penalty,
                        chatbot_presence_penalty: s.chatbot_presence_penalty,
                        ..r
                    }) == s
                },
                UserSettingsChange::Ping { content, media } => {
                    &&& r.ping_content == Some(content)
                    &&& r.ping_media == media
                    &&& (UserSettings { ping_content: s.ping_content, ping_media: s.ping_media, ..r }) == s
                },
                UserSettingsChange::Reset => {
                    &&& r.guild_id == s.guild_id && r.user_id == s.user_id
                    &&& r.message_count == 0 && !r.afk
                    &&& r.chatbot_role is None && r.chatbot_internet_search is None
                    &&& r.chatbot_temperature is None && r.chatbot_top_p is None
                    &&& r.chatbot_top_k is None && r.chatbot_repetition_penalty is None
                    &&& r.chatbot_frequency_penalty is None && r.chatbot_presence_penalty is None
                    &&& r.afk_reason is None && r.pinged_links is None
                    &&& r.ping_content is None && r.ping_media is None
                },
            }
        }),
{
}

/// Law: the settings of a user after a change keep the guild and user ids, and a reset
/// gives the defaults whatever came before.
pub proof fn user_change_laws(s: UserSettings, t: UserSettings, change: UserSettingsChange)
    ensures
        changed_user_settings(s, change).guild_id == s.guild_id,
        changed_user_settings(s, change).user_id == s.user_id,
        s.guild_id == t.guild_id && s.user_id == t.user_id ==> changed_user_settings(
            s,
            UserSettingsChange::Reset,
        ) == changed_user_settings(t, UserSettingsChange::Reset),
{
}

} // verus!

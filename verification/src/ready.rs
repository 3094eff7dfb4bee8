//! Gathering the stored rows of every guild into the data the bot keeps per guild when it
//! connects.
use std::collections::HashMap;
use vstd::prelude::*;
use crate::config::{
    EmojiReactions, GuildData, GuildSettings, UserSettings, WordReactions, WordTracking,
};
use crate::guild::{
    distinct_keys, inserted_keeps_keys_distinct, emoji_reaction_key, insert_emoji_reaction, insert_word_reaction, insert_word_tracking,
    inserted, word_reaction_key, word_tracking_key,
};

verus! {

/// A copy of an optional text.
fn copy_text(o: &Option<String>) -> (c: Option<String>)
    ensures
        c == *o,
{
    match o {
        Some(s) => Some(s.clone()),
        None => None,
    }
}

/// A copy of a word reaction.
pub fn copy_word_reaction(r: &WordReactions) -> (c: WordReactions)
    ensures
        c == *r,
{
    WordReactions {
        guild_id: r.guild_id,
        word: r.word.clone(),
        content: r.content.clone(),
        media: copy_text(&r.media),
    }
}

/// A copy of a tracked word.
pub fn copy_word_tracking(r: &WordTracking) -> (c: WordTracking)
    ensures
        c == *r,
{
    WordTracking { guild_id: r.guild_id, word: r.word.clone(), count: r.count }
}

/// A copy of an emoji reaction.
pub fn copy_emoji_reaction(r: &EmojiReactions) -> (c: EmojiReactions)
    ensures
        c == *r,
{
    EmojiReactions {
        guild_id: r.guild_id,
        emoji_id: r.emoji_id,
        content_reaction: r.content_reaction.clone(),
        guild_emoji: r.guild_emoji,
    }
}

/// A copy of the settings of a user.
pub fn copy_user_settings(s: &UserSettings) -> (c: UserSettings)
    ensures
        c == *s,
{
    UserSettings {
        guild_id: s.guild_id,
        user_id: s.user_id,
        message_count: s.message_count,
        chatbot_role: copy_text(&s.chatbot_role),
        chatbot_internet_search: s.chatbot_internet_search,
        chatbot_temperature: s.chatbot_temperature,
        chatbot_top_p: s.chatbot_top_p,
        chatbot_top_k: s.chatbot_top_k,
        chatbot_repetition_penalty: s.chatbot_repetition_penalty,
        chatbot_frequency_penalty: s.chatbot_frequency_penalty,
        chatbot_presence_penalty: s.chatbot_presence_penalty,
        afk: s.afk,
        afk_reason: copy_text(&s.afk_reason),
        pinged_links: copy_text(&s.pinged_links),
        ping_content: copy_text(&s.ping_content),
        ping_media: copy_text(&s.ping_media),
    }
}

/// The set of word reactions of guild `gid` gathered from `rows`, in order.
pub open spec fn grouped_word_reactions(rows: Seq<WordReactions>, gid: i64) -> Seq<WordReactions>
    decreases rows.len(),
{
    if rows.len() == 0 {
        Seq::empty()
    } else {
        let acc = grouped_word_reactions(rows.drop_last(), gid);
        if rows.last().guild_id == gid {
            inserted(acc, rows.last(), |x: WordReactions| word_reaction_key(x))
        } else {
            acc
        }
    }
}

/// The set of tracked words of guild `gid` gathered from `rows`, in order.
pub open spec fn grouped_word_tracking(rows: Seq<WordTracking>, gid: i64) -> Seq<WordTracking>
    decreases rows.len(),
{
    if rows.len() == 0 {
        Seq::empty()
    } else {
        let acc = grouped_word_tracking(rows.drop_last(), gid);
        if rows.last().guild_id == gid {
            inserted(acc, rows.last(), |x: WordTracking| word_tracking_key(x))
        } else {
            acc
        }
    }
}

/// The set of emoji reactions of guild `gid` gathered from `rows`, in order.
pub open spec fn grouped_emoji_reactions(rows: Seq<EmojiReactions>, gid: i64) -> Seq<
    EmojiReactions,
>
    decreases rows.len(),
{
    if rows.len() == 0 {
        Seq::empty()
    } else {
        let acc = grouped_emoji_reactions(rows.drop_last(), gid);
        if rows.last().guild_id == gid {
            inserted(acc, rows.last(), |x: EmojiReactions| emoji_reaction_key(x))
        } else {
            acc
        }
    }
}

/// The gathered reactions of a guild form a set.
proof fn lemma_grouped_distinct(
    rs: Seq<WordReactions>,
    ts: Seq<WordTracking>,
    es: Seq<EmojiReactions>,
    gid: i64,
)
    ensures
        distinct_keys(grouped_word_reactions(rs, gid), |x: WordReactions| word_reaction_key(x)),
        distinct_keys(grouped_word_tracking(ts, gid), |x: WordTracking| word_tracking_key(x)),
        distinct_keys(grouped_emoji_reactions(es, gid), |x: EmojiReactions| emoji_reaction_key(x)),
    decreases rs.len() + ts.len() + es.len(),
{
    if rs.len() > 0 {
        lemma_grouped_distinct(rs.drop_last(), ts, es, gid);
        if rs.last().guild_id == gid {
            inserted_keeps_keys_distinct(
                grouped_word_reactions(rs.drop_last(), gid),
                rs.last(),
                |x: WordReactions| word_reaction_key(x),
            );
        }
    } else if ts.len() > 0 {
        lemma_grouped_distinct(rs, ts.drop_last(), es, gid);
        if ts.last().guild_id == gid {
            inserted_keeps_keys_distinct(
                grouped_word_tracking(ts.drop_last(), gid),
                ts.last(),
                |x: WordTracking| word_tracking_key(x),
            );
        }
    } else if es.len() > 0 {
        lemma_grouped_distinct(rs, ts, es.drop_last(), gid);
        if es.last().guild_id == gid {
            inserted_keeps_keys_distinct(
                grouped_emoji_reactions(es.drop_last(), gid),
                es.last(),
                |x: EmojiReactions| emoji_reaction_key(x),
            );
        }
    }
}

/// The word reactions of guild `gid`.
pub fn word_reactions_of(rows: &Vec<WordReactions>, gid: i64) -> (set: Vec<WordReactions>)
    ensures
        set@ == grouped_word_reactions(rows@, gid),
{
    let mut set: Vec<WordReactions> = Vec::new();
    let mut i: usize = 0;
    while i < rows.len()
        invariant
            i <= rows@.len(),
            set@ == grouped_word_reactions(rows@.take(i as int), gid),
        decreases rows.len() - i,
    {
        assert(rows@.take(i + 1).drop_last() =~= rows@.take(i as int));
        if rows[i].guild_id == gid {
            insert_word_reaction(&mut set, copy_word_reaction(&rows[i]));
        }
        i += 1;
    }
    assert(rows@.take(rows@.len() as int) =~= rows@);
    set
}

/// The tracked words of guild `gid`.
pub fn word_tracking_of(rows: &Vec<WordTracking>, gid: i64) -> (set: Vec<WordTracking>)
    ensures
        set@ == grouped_word_tracking(rows@, gid),
{
    let mut set: Vec<WordTracking> = Vec::new();
    let mut i: usize = 0;
    while i < rows.len()
        invariant
            i <= rows@.len(),
            set@ == grouped_word_tracking(rows@.take(i as int), gid),
        decreases rows.len() - i,
    {
        assert(rows@.take(i + 1).drop_last() =~= rows@.take(i as int));
        if rows[i].guild_id == gid {
            insert_word_tracking(&mut set, copy_word_tracking(&rows[i]));
        }
        i += 1;
    }
    assert(rows@.take(rows@.len() as int) =~= rows@);
    set
}

/// The emoji reactions of guild `gid`.
pub fn emoji_reactions_of(rows: &Vec<EmojiReactions>, gid: i64) -> (set: Vec<EmojiReactions>)
    ensures
        set@ == grouped_emoji_reactions(rows@, gid),
{
    let mut set: Vec<EmojiReactions> = Vec::new();
    let mut i: usize = 0;
    while i < rows.len()
        invariant
            i <= rows@.len(),
            set@ == grouped_emoji_reactions(rows@.take(i as int), gid),
        decreases rows.len() - i,
    {
        assert(rows@.take(i + 1).drop_last() =~= rows@.take(i as int));
        if rows[i].guild_id == gid {
            insert_emoji_reaction(&mut set, copy_emoji_reaction(&rows[i]));
        }
        i += 1;
    }
    assert(rows@.take(rows@.len() as int) =~= rows@);
    set
}

/// Whether a guild before position `k` has the same id as the one at `k`; its rows went to
/// that earlier one.
pub open spec fn seen_before(settings: Seq<GuildSettings>, k: int) -> bool {
    exists|j: int| 0 <= j < k && (#[trigger] settings[j]).guild_id == settings[k].guild_id
}

/// The data of each stored guild: its settings with its reactions, tracked words and emoji
/// reactions. The rows of an id go to the first guild with that id; a later one with the
/// same id gets none. Stored ids are Discord ids, which are never negative.
pub fn assemble_guild_data(
    settings: Vec<GuildSettings>,
    reactions: &Vec<WordReactions>,
    tracking: &Vec<WordTracking>,
    emojis: &Vec<EmojiReactions>,
) -> (data: Vec<(u64, GuildData)>)
    requires
        forall|k: int| 0 <= k < settings@.len() ==> (#[trigger] settings@[k]).guild_id >= 0,
    ensures
        data@.len() == settings@.len(),
        forall|k: int|
            0 <= k < data@.len() ==> {
                let (key, d) = #[trigger] data@[k];
                let s = settings@[k];
                &&& key == s.guild_id
                &&& d.wf()
                &&& d.settings == s
                &&& d.word_reactions@ == if seen_before(settings@, k) {
                    Seq::empty()
                } else {
                    grouped_word_reactions(reactions@, s.guild_id)
                }
                &&& d.word_tracking@ == if seen_before(settings@, k) {
                    Seq::empty()
                } else {
                    grouped_word_tracking(tracking@, s.guild_id)
                }
                &&& d.emoji_reactions@ == if seen_before(settings@, k) {
                    Seq::empty()
                } else {
                    grouped_emoji_reactions(emojis@, s.guild_id)
                }
            },
{
    let ghost all = settings@;
    let mut data: Vec<(u64, GuildData)> = Vec::new();
    let mut ids: Vec<i64> = Vec::new();
    let rest = settings;
    let mut k: usize = 0;
    let n = rest.len();
    while k < n
        invariant
            n == all.len(),
            k <= n,
            rest@ == all,
            forall|j: int| 0 <= j < n ==> (#[trigger] all[j]).guild_id >= 0,
            ids@.len() == k,
            forall|j: int| 0 <= j < k ==> #[trigger] ids@[j] == all[j].guild_id,
            data@.len() == k,
            forall|j: int|
                0 <= j < k ==> {
                    let (key, d) = #[trigger] data@[j];
                    let s = all[j];
                    &&& key == s.guild_id
                    &&& d.wf()
                    &&& d.settings == s
                    &&& d.word_reactions@ == if seen_before(all, j) {
                        Seq::empty()
                    } else {
                        grouped_word_reactions(reactions@, s.guild_id)
                    }
                    &&& d.word_tracking@ == if seen_before(all, j) {
                        Seq::empty()
                    } else {
                        grouped_word_tracking(tracking@, s.guild_id)
                    }
                    &&& d.emoji_reactions@ == if seen_before(all, j) {
                        Seq::empty()
                    } else {
                        grouped_emoji_reactions(emojis@, s.guild_id)
                    }
                },
        decreases n - k,
    {
        let s = copy_guild_settings(&rest[k]);
        let gid = s.guild_id;
        let mut seen = false;
        let mut j: usize = 0;
        while j < k
            invariant
                k < n,
                j <= k,
                ids@.len() == k,
                gid == all[k as int].guild_id,
                forall|m: int| 0 <= m < k ==> #[trigger] ids@[m] == all[m].guild_id,
                seen == exists|m: int| 0 <= m < j && (#[trigger] all[m]).guild_id == gid,
            decreases k - j,
        {
            if ids[j] == gid {
                assert(all[j as int].guild_id == gid);
                seen = true;
            }
            j += 1;
        }
        assert(seen == seen_before(all, k as int));
        proof {
            lemma_grouped_distinct(reactions@, tracking@, emojis@, gid);
        }
        let d = if seen {
            GuildData {
                settings: s,
                word_reactions: Vec::new(),
                word_tracking: Vec::new(),
                emoji_reactions: Vec::new(),
            }
        } else {
            GuildData {
                settings: s,
                word_reactions: word_reactions_of(reactions, gid),
                word_tracking: word_tracking_of(tracking, gid),
                emoji_reactions: emoji_reactions_of(emojis, gid),
            }
        };
        data.push((gid as u64, d));
        ids.push(gid);
        k += 1;
    }
    data
}

/// A copy of the settings of a guild.
pub fn copy_guild_settings(s: &GuildSettings) -> (c: GuildSettings)
    ensures
        c == *s,
{
    GuildSettings {
        guild_id: s.guild_id,
        dead_chat_rate: s.dead_chat_rate,
        dead_chat_channel: s.dead_chat_channel,
        quotes_channel: s.quotes_channel,
        spoiler_channel: s.spoiler_channel,
        prefix: copy_text(&s.prefix),
        ai_chat_channel: s.ai_chat_channel,
        global_chat_channel: s.global_chat_channel,
        global_chat: s.global_chat,
        global_music: s.global_music,
        global_call: s.global_call,
    }
}

/// The stored settings of the users of guild `gid`, by user id; of two rows of the same user
/// the later counts. Stored ids are Discord ids, which are never negative.
pub open spec fn users_map(rows: Seq<UserSettings>, gid: i64) -> Map<u64, UserSettings>
    decreases rows.len(),
{
    if rows.len() == 0 {
        Map::empty()
    } else {
        let acc = users_map(rows.drop_last(), gid);
        if rows.last().guild_id == gid {
            acc.insert(rows.last().user_id as u64, rows.last())
        } else {
            acc
        }
    }
}

/// The stored settings of the users of guild `gid`, by user id.
pub fn users_of_guild(rows: &Vec<UserSettings>, gid: i64) -> (users: HashMap<u64, UserSettings>)
    requires
        forall|k: int| 0 <= k < rows@.len() ==> (#[trigger] rows@[k]).user_id >= 0,
    ensures
        users@ == users_map(rows@, gid),
{
    let mut users: HashMap<u64, UserSettings> = HashMap::new();
    let mut i: usize = 0;
    while i < rows.len()
        invariant
            i <= rows@.len(),
            forall|k: int| 0 <= k < rows@.len() ==> (#[trigger] rows@[k]).user_id >= 0,
            users@ == users_map(rows@.take(i as int), gid),
        decreases rows.len() - i,
    {
        assert(rows@.take(i + 1).drop_last() =~= rows@.take(i as int));
        if rows[i].guild_id == gid {
            let uid = rows[i].user_id as u64;
            users.insert(uid, copy_user_settings(&rows[i]));
        }
        i += 1;
    }
    assert(rows@.take(rows@.len() as int) =~= rows@);
    users
}

} // verus!

//! What the bot decides when a message arrives: the afk bookkeeping and custom pings of the
//! guild's users, tracked words, reactions, previews and the fixed text triggers.
use vstd::prelude::*;
use crate::config::{DEFAULT_BOT_ROLE, EmojiReactions, GuildSettings, UserSettings, WordReactions, WordTracking};
use crate::text::{
    first_index_from, lemma_split_on_append, lemma_split_on_nonempty, eq_ignore_ascii_case_spec, eq_ignore_ascii_case_str, has_prefix, push_str, split_on,
    split_once_spec, split_once_str, split_str, str_contains, str_strip_prefix, contains_seq, views,
    count_matches, count_matches_str, decimal_digits, push_decimal, str_starts_with,
};

verus! {

/// The reason shown for a user who went afk without giving one.
pub const DEFAULT_AFK_REASON: &'static str = "Didn't renew life subscription";

/// The `name;role` entries of a list of pings, each split at its first `;`; entries without
/// one are left out.
pub open spec fn ping_fields_of(entries: Seq<Seq<char>>) -> Seq<(Seq<char>, Seq<char>)>
    decreases entries.len(),
{
    if entries.len() == 0 {
        Seq::empty()
    } else {
        let rest = ping_fields_of(entries.drop_last());
        match split_once_spec(entries.last(), ';') {
            Some(f) => rest.push(f),
            None => rest,
        }
    }
}

/// The fields shown to a user back from afk: the comma-separated entries of the pings
/// gathered while away.
pub open spec fn ping_fields(links: Seq<char>) -> Seq<(Seq<char>, Seq<char>)> {
    ping_fields_of(split_on(links, ','))
}

/// The views of a list of field pairs.
pub open spec fn pair_views(v: Seq<(String, String)>) -> Seq<(Seq<char>, Seq<char>)> {
    v.map_values(|p: (String, String)| (p.0@, p.1@))
}

/// The fields of the pings gathered while away (`links.split(',')`, then `split_once(';')`).
pub fn pinged_link_fields(links: &str) -> (fields: Vec<(String, String)>)
    ensures
        pair_views(fields@) == ping_fields(links@),
{
    let entries = split_str(links, ',');
    let mut fields: Vec<(String, String)> = Vec::new();
    let mut i: usize = 0;
    assert(views(entries@).take(0) =~= Seq::<Seq<char>>::empty());
    assert(pair_views(fields@) =~= Seq::<(Seq<char>, Seq<char>)>::empty());
    while i < entries.len()
        invariant
            i <= entries@.len(),
            views(entries@) == split_on(links@, ','),
            pair_views(fields@) == ping_fields_of(views(entries@).take(i as int)),
        decreases entries.len() - i,
    {
        assert(views(entries@).take(i + 1).drop_last() =~= views(entries@).take(i as int));
        assert(views(entries@).take(i + 1).last() == entries@[i as int]@);
        match split_once_str(entries[i].as_str(), ';') {
            Some(pair) => {
                let ghost before = fields@;
                fields.push(pair);
                assert(pair_views(fields@) =~= pair_views(before).push((pair.0@, pair.1@)));
            },
            None => {},
        }
        i += 1;
    }
    assert(views(entries@).take(entries@.len() as int) =~= views(entries@));
    fields
}

/// The entry recorded for a ping while away: `{link};{name},`.
pub fn pinged_link_entry(link: &str, name: &str) -> (e: String)
    ensures
        e@ == link@ + seq![';'] + name@ + seq![','],
{
    let mut e = String::new();
    push_str(&mut e, link);
    push_str(&mut e, ";");
    push_str(&mut e, name);
    push_str(&mut e, ",");
    proof {
        reveal_strlit(";");
        reveal_strlit(",");
    }
    assert(e@ =~= link@ + seq![';'] + name@ + seq![',']);
    e
}

/// What the custom ping media of a user asks for.
#[derive(Debug, Clone, PartialEq, Eq)]
pub enum PingMedia {
    /// A random waifu picture.
    Waifu,
    /// A random gif found with this query.
    GifSearch(String),
    /// This picture.
    Link(String),
    /// Text only.
    NoMedia,
}

/// The media of a custom ping: `waifu` in any case, `!gif` and a query, a link, or none.
pub open spec fn ping_media_matches(media: Option<Seq<char>>, m: PingMedia) -> bool {
    match media {
        None => m == PingMedia::NoMedia,
        Some(s) => if eq_ignore_ascii_case_spec(s, "waifu"@) {
            m == PingMedia::Waifu
        } else if has_prefix(s, "!gif"@) {
            m matches PingMedia::GifSearch(q) && q@ == s.skip(4)
        } else if s.len() > 0 {
            m matches PingMedia::Link(l) && l@ == s
        } else {
            m == PingMedia::NoMedia
        },
    }
}

/// The media of a custom ping.
pub fn ping_media_kind(media: &Option<String>) -> (m: PingMedia)
    ensures
        ping_media_matches(
            match media {
                Some(s) => Some(s@),
                None => None,
            },
            m,
        ),
{
    match media {
        None => PingMedia::NoMedia,
        Some(s) => {
            if eq_ignore_ascii_case_str(s.as_str(), "waifu") {
                PingMedia::Waifu
            } else {
                match str_strip_prefix(s.as_str(), "!gif") {
                    Some(q) => {
                        proof {
                            reveal_strlit("!gif");
                        }
                        PingMedia::GifSearch(q)
                    },
                    None => {
                        if s.as_str().unicode_len() > 0 {
                            PingMedia::Link(s.clone())
                        } else {
                            PingMedia::NoMedia
                        }
                    },
                }
            }
        },
    }
}

/// The view of an optional text.
pub open spec fn opt_view(o: Option<String>) -> Option<Seq<char>> {
    match o {
        Some(s) => Some(s@),
        None => None,
    }
}

/// What a message means for the afk state of one user.
pub enum AfkEvent {
    /// Nothing changes.
    Unaffected,
    /// The user wrote and is back; these are the pings gathered while away.
    WelcomeBack(Vec<(String, String)>),
    /// Someone pinged the user, who is still away for this reason.
    StillAway(String),
}

/// The custom answer to a ping of a user.
pub struct PingReply {
    pub content: String,
    pub media: PingMedia,
}

/// What a message means for one user of the guild.
pub struct UserReaction {
    pub afk: AfkEvent,
    pub ping: Option<PingReply>,
}

/// The fields shown to a user back from afk, from the pings stored while away.
pub open spec fn welcome_fields(links: Option<String>) -> Seq<(Seq<char>, Seq<char>)> {
    match links {
        Some(l) => if l@.len() > 0 {
            ping_fields(l@)
        } else {
            Seq::empty()
        },
        None => Seq::empty(),
    }
}

/// Updates the settings of one user of the guild for a new message by `author_id` that
/// mentions the user or not (`mentioned`) and answers another message or not (`is_reply`);
/// `entry` is what a ping while away records. A user who is afk and writes is back: the
/// afk state and the gathered pings are cleared. A user who is afk and pinged (not by a
/// reply) gathers the ping. A pinged user with a custom ping gets it answered. The author's
/// message count goes up by one.
pub fn process_user(
    target: &mut UserSettings,
    author_id: i64,
    mentioned: bool,
    is_reply: bool,
    entry: &str,
) -> (r: UserReaction)
    requires
        author_id == old(target).user_id ==> old(target).message_count < i32::MAX,
    ensures
        final(target).guild_id == old(target).guild_id,
        final(target).user_id == old(target).user_id,
        final(target).chatbot_role == old(target).chatbot_role,
        final(target).chatbot_internet_search == old(target).chatbot_internet_search,
        final(target).chatbot_temperature == old(target).chatbot_temperature,
        final(target).chatbot_top_p == old(target).chatbot_top_p,
        final(target).chatbot_top_k == old(target).chatbot_top_k,
        final(target).chatbot_repetition_penalty == old(target).chatbot_repetition_penalty,
        final(target).chatbot_frequency_penalty == old(target).chatbot_frequency_penalty,
        final(target).chatbot_presence_penalty == old(target).chatbot_presence_penalty,
        final(target).ping_content == old(target).ping_content,
        final(target).ping_media == old(target).ping_media,
        final(target).message_count == old(target).message_count + if author_id == old(
            target,
        ).user_id {
            1int
        } else {
            0int
        },
        old(target).afk && author_id == old(target).user_id ==> {
            &&& !final(target).afk
            &&& final(target).afk_reason is None
            &&& final(target).pinged_links is None
            &&& r.afk matches AfkEvent::WelcomeBack(fields) && pair_views(fields@)
                == welcome_fields(old(target).pinged_links)
        },
        old(target).afk && author_id != old(target).user_id && mentioned && !is_reply ==> {
            &&& final(target).afk
            &&& final(target).afk_reason == old(target).afk_reason
            &&& opt_view(final(target).pinged_links) == Some(
                match old(target).pinged_links {
                    Some(l) => l@ + entry@,
                    None => entry@,
                },
            )
            &&& r.afk matches AfkEvent::StillAway(reason) && reason@ == match old(
                target,
            ).afk_reason {
                Some(x) => x@,
                None => DEFAULT_AFK_REASON@,
            }
        },
        !(old(target).afk && (author_id == old(target).user_id || (mentioned && !is_reply)))
            ==> {
            &&& final(target).afk == old(target).afk
            &&& final(target).afk_reason == old(target).afk_reason
            &&& final(target).pinged_links == old(target).pinged_links
            &&& r.afk matches AfkEvent::Unaffected
        },
        (mentioned && !is_reply && old(target).ping_content is Some) ==> (r.ping matches Some(p)
            && p.content@ == old(target).ping_content->0@ && ping_media_matches(
            opt_view(old(target).ping_media),
            p.media,
        )),
        !(mentioned && !is_reply && old(target).ping_content is Some) ==> r.ping is None,
{
    let mut afk = AfkEvent::Unaffected;
    if target.afk {
        if author_id == target.user_id {
            let fields = match &target.pinged_links {
                Some(l) => {
                    if l.as_str().unicode_len() > 0 {
                        pinged_link_fields(l.as_str())
                    } else {
                        let empty: Vec<(String, String)> = Vec::new();
                        assert(pair_views(empty@) =~= Seq::<(Seq<char>, Seq<char>)>::empty());
                        empty
                    }
                },
                None => {
                    let empty: Vec<(String, String)> = Vec::new();
                    assert(pair_views(empty@) =~= Seq::<(Seq<char>, Seq<char>)>::empty());
                    empty
                },
            };
            target.afk = false;
            target.afk_reason = None;
            target.pinged_links = None;
            afk = AfkEvent::WelcomeBack(fields);
        } else if mentioned && !is_reply {
            let links = match &target.pinged_links {
                Some(l) => {
                    let mut s = l.clone();
                    push_str(&mut s, entry);
                    s
                },
                None => String::from_str(entry),
            };
            target.pinged_links = Some(links);
            let reason = match &target.afk_reason {
                Some(x) => x.clone(),
                None => String::from_str(DEFAULT_AFK_REASON),
            };
            afk = AfkEvent::StillAway(reason);
        }
    }
    let mut ping: Option<PingReply> = None;
    if mentioned && !is_reply {
        match &target.ping_content {
            Some(c) => {
                ping = Some(PingReply { content: c.clone(), media: ping_media_kind(&target.ping_media) });
            },
            None => {},
        }
    }
    if author_id == target.user_id {
        target.message_count = target.message_count + 1;
    }
    UserReaction { afk, ping }
}

/// The record of a list of pings `(link, name)` gathered while away, one entry after the
/// other as `process_user` appends them.
pub open spec fn recorded_pings(pings: Seq<(Seq<char>, Seq<char>)>) -> Seq<char>
    decreases pings.len(),
{
    if pings.len() == 0 {
        Seq::empty()
    } else {
        recorded_pings(pings.drop_last()) + pings.last().0 + seq![';'] + pings.last().1 + seq![
            ',',
        ]
    }
}

/// `c` does not occur in `s`.
pub open spec fn lacks(s: Seq<char>, c: char) -> bool {
    forall|i: int| 0 <= i < s.len() ==> s[i] != c
}

/// The first `c` from `i` on is at `k` when there is none between.
proof fn lemma_first_index_at(s: Seq<char>, c: char, i: int, k: int)
    requires
        0 <= i <= k < s.len(),
        s[k] == c,
        forall|j: int| i <= j < k ==> s[j] != c,
    ensures
        first_index_from(s, c, i) == Some(k),
    decreases k - i,
{
    if i < k {
        lemma_first_index_at(s, c, i + 1, k);
    }
}

/// The pieces of a record of pings: one per entry, then an empty one.
proof fn lemma_recorded_split(pings: Seq<(Seq<char>, Seq<char>)>)
    requires
        forall|i: int| 0 <= i < pings.len() ==> lacks(#[trigger] pings[i].0, ',') && lacks(
            pings[i].1,
            ',',
        ),
    ensures
        split_on(recorded_pings(pings), ',').len() >= 1,
        split_on(recorded_pings(pings), ',').last() == Seq::<char>::empty(),
        ping_fields_of(split_on(recorded_pings(pings), ',').drop_last()) == ping_fields_of(
            split_on(recorded_pings(pings), ','),
        ),
    decreases pings.len(),
{
    if pings.len() == 0 {
        assert(split_on(Seq::<char>::empty(), ',') == seq![Seq::<char>::empty()]);
        assert(split_on(Seq::<char>::empty(), ',').drop_last() =~= Seq::<Seq<char>>::empty());
    } else {
        let rest = pings.drop_last();
        assert forall|i: int| 0 <= i < rest.len() implies lacks(#[trigger] rest[i].0, ',') && lacks(
            rest[i].1,
            ',',
        ) by {
            assert(rest[i] == pings[i]);
        }
        lemma_recorded_split(rest);
        let s = recorded_pings(rest);
        let (x, y) = pings.last();
        let t = x + seq![';'] + y;
        assert(lacks(x, ',') && lacks(y, ','));
        assert forall|i: int| 0 <= i < t.len() implies t[i] != ',' by {
            if i < x.len() {
                assert(t[i] == x[i]);
            } else if i > x.len() {
                assert(t[i] == y[i - x.len() - 1]);
            }
        }
        lemma_split_on_append(s, t, ',');
        assert(recorded_pings(pings) =~= (s + t).push(','));
        assert((s + t).push(',').drop_last() =~= s + t);
        lemma_split_on_nonempty(s + t, ',');
        let q = split_on(s + t, ',');
        assert(split_on(recorded_pings(pings), ',') == q.push(Seq::<char>::empty()));
        assert(q.push(Seq::<char>::empty()).drop_last() =~= q);
        assert(first_index_from(Seq::<char>::empty(), ';', 0) is None);
    }
}

/// Law: a user back from afk sees exactly the pings gathered while away, in order, when
/// neither a link nor a name holds a `,` and no link holds a `;`.
pub proof fn afk_pings_round_trip(pings: Seq<(Seq<char>, Seq<char>)>)
    requires
        forall|i: int|
            0 <= i < pings.len() ==> lacks(#[trigger] pings[i].0, ',') && lacks(pings[i].0, ';')
                && lacks(pings[i].1, ','),
    ensures
        ping_fields(recorded_pings(pings)) == pings,
    decreases pings.len(),
{
    if pings.len() == 0 {
        assert(split_on(Seq::<char>::empty(), ',') == seq![Seq::<char>::empty()]);
        assert(seq![Seq::<char>::empty()].drop_last() =~= Seq::<Seq<char>>::empty());
        assert(first_index_from(Seq::<char>::empty(), ';', 0) is None);
        assert(pings =~= Seq::<(Seq<char>, Seq<char>)>::empty());
        assert(recorded_pings(pings) =~= Seq::<char>::empty());
        assert(ping_fields_of(seq![Seq::<char>::empty()]) == ping_fields_of(
            Seq::<Seq<char>>::empty(),
        ));
        assert(ping_fields(recorded_pings(pings)) == pings);
    } else {
        let rest = pings.drop_last();
        assert forall|i: int|
            0 <= i < rest.len() implies lacks(#[trigger] rest[i].0, ',') && lacks(rest[i].0, ';')
            && lacks(rest[i].1, ',') by {
            assert(rest[i] == pings[i]);
        }
        afk_pings_round_trip(rest);
        lemma_recorded_split(rest);
        let s = recorded_pings(rest);
        let (x, y) = pings.last();
        let t = x + seq![';'] + y;
        assert(lacks(x, ',') && lacks(x, ';') && lacks(y, ','));
        assert forall|i: int| 0 <= i < t.len() implies t[i] != ',' by {
            if i < x.len() {
                assert(t[i] == x[i]);
            } else if i > x.len() {
                assert(t[i] == y[i - x.len() - 1]);
            }
        }
        lemma_split_on_nonempty(s, ',');
        let p = split_on(s, ',');
        lemma_split_on_append(s, t, ',');
        assert(recorded_pings(pings) =~= (s + t).push(','));
        assert((s + t).push(',').drop_last() =~= s + t);
        let q = split_on(s + t, ',');
        assert(q =~= p.drop_last().push(t)) by {
            assert(p.last() + t =~= t);
        }
        assert(split_on(recorded_pings(pings), ',') == q.push(Seq::<char>::empty()));
        assert(q.push(Seq::<char>::empty()).drop_last() =~= q);
        assert(first_index_from(Seq::<char>::empty(), ';', 0) is None);
        lemma_first_index_at(t, ';', 0, x.len() as int);
        assert(t.take(x.len() as int) =~= x);
        assert(t.skip(x.len() as int + 1) =~= y);
        assert(q.drop_last() =~= p.drop_last());
        assert(ping_fields_of(q) == ping_fields_of(p.drop_last()).push((x, y)));
        assert(ping_fields_of(q.push(Seq::<char>::empty())) == ping_fields_of(q));
        assert(ping_fields_of(p) == rest);
        assert(pings =~= rest.push((x, y)));
        assert(ping_fields_of(p.drop_last()) == rest);
        assert(ping_fields(recorded_pings(pings)) == ping_fields_of(q.push(Seq::<char>::empty())));
        assert(ping_fields(recorded_pings(pings)) == rest.push((x, y)));
    }
}

/// Counts a message in the tracked words: each word that occurs in the (lower-cased)
/// message content goes up by one.
pub fn track_words(records: &mut Vec<WordTracking>, content: &str)
    requires
        forall|i: int|
            0 <= i < old(records)@.len() && contains_seq(content@, (#[trigger] old(records)@[i]).word@)
                ==> old(records)@[i].count < i64::MAX,
    ensures
        final(records)@.len() == old(records)@.len(),
        forall|i: int|
            0 <= i < final(records)@.len() ==> {
                &&& (#[trigger] final(records)@[i]).guild_id == old(records)@[i].guild_id
                &&& final(records)@[i].word == old(records)@[i].word
                &&& final(records)@[i].count == old(records)@[i].count + if contains_seq(
                    content@,
                    old(records)@[i].word@,
                ) {
                    1int
                } else {
                    0int
                }
            },
{
    let n = records.len();
    let mut i: usize = 0;
    while i < n
        invariant
            n == records@.len() == old(records)@.len(),
            i <= n,
            forall|j: int|
                0 <= j < n && contains_seq(content@, (#[trigger] old(records)@[j]).word@)
                    ==> old(records)@[j].count < i64::MAX,
            forall|j: int|
                i <= j < n ==> #[trigger] records@[j] == old(records)@[j],
            forall|j: int|
                0 <= j < i ==> {
                    &&& (#[trigger] records@[j]).guild_id == old(records)@[j].guild_id
                    &&& records@[j].word == old(records)@[j].word
                    &&& records@[j].count == old(records)@[j].count + if contains_seq(
                        content@,
                        old(records)@[j].word@,
                    ) {
                        1int
                    } else {
                        0int
                    }
                },
        decreases n - i,
    {
        if str_contains(content, records[i].word.as_str()) {
            let c = records[i].count;
            records[i].count = c + 1;
        }
        i += 1;
    }
}

/// The indices, in order, of the words among `words[..n]` that occur in `content`.
pub open spec fn indices_containing(content: Seq<char>, words: Seq<Seq<char>>, n: int) -> Seq<
    usize,
>
    decreases n,
{
    if n <= 0 {
        Seq::empty()
    } else {
        let rest = indices_containing(content, words, n - 1);
        if contains_seq(content, words[n - 1]) {
            rest.push((n - 1) as usize)
        } else {
            rest
        }
    }
}

/// The words of the word reactions.
pub open spec fn reaction_words(records: Seq<WordReactions>) -> Seq<Seq<char>> {
    records.map_values(|r: WordReactions| r.word@)
}

/// The contents that the emoji reactions answer.
pub open spec fn emoji_contents(records: Seq<EmojiReactions>) -> Seq<Seq<char>> {
    records.map_values(|r: EmojiReactions| r.content_reaction@)
}

/// The word reactions that the (lower-cased) message content triggers, by index.
pub fn matching_word_reactions(records: &Vec<WordReactions>, content: &str) -> (r: Vec<usize>)
    ensures
        r@ == indices_containing(content@, reaction_words(records@), records@.len() as int),
{
    let mut r: Vec<usize> = Vec::new();
    let mut i: usize = 0;
    while i < records.len()
        invariant
            i <= records@.len(),
            r@ == indices_containing(content@, reaction_words(records@), i as int),
        decreases records.len() - i,
    {
        assert(reaction_words(records@)[i as int] == records@[i as int].word@);
        if str_contains(content, records[i].word.as_str()) {
            r.push(i);
        }
        i += 1;
    }
    r
}

/// The emoji reactions that the (lower-cased) message content triggers, by index.
pub fn matching_emoji_reactions(records: &Vec<EmojiReactions>, content: &str) -> (r: Vec<usize>)
    ensures
        r@ == indices_containing(content@, emoji_contents(records@), records@.len() as int),
{
    let mut r: Vec<usize> = Vec::new();
    let mut i: usize = 0;
    while i < records.len()
        invariant
            i <= records@.len(),
            r@ == indices_containing(content@, emoji_contents(records@), i as int),
        decreases records.len() - i,
    {
        assert(emoji_contents(records@)[i as int] == records@[i as int].content_reaction@);
        if str_contains(content, records[i].content_reaction.as_str()) {
            r.push(i);
        }
        i += 1;
    }
    r
}

/// What a word reaction answers with.
pub enum ReactionMedia {
    /// Its content as text.
    Text,
    /// Its content as a title over a random gif found with this query.
    GifSearch(String),
    /// Its content as a title over this picture.
    Image(String),
}

/// The answer of a word reaction with the given media: a non-empty media is a gif query
/// after `!gif` or else a picture; no media or an empty one is text.
pub fn reaction_media(media: &Option<String>) -> (m: ReactionMedia)
    ensures
        match opt_view(*media) {
            Some(s) => if s.len() == 0 {
                m is Text
            } else if has_prefix(s, "!gif"@) {
                m matches ReactionMedia::GifSearch(q) && q@ == s.skip(4)
            } else {
                m matches ReactionMedia::Image(u) && u@ == s
            },
            None => m is Text,
        },
{
    match media {
        Some(s) => {
            if s.as_str().unicode_len() == 0 {
                ReactionMedia::Text
            } else {
                match str_strip_prefix(s.as_str(), "!gif") {
                    Some(q) => {
                        proof {
                            reveal_strlit("!gif");
                        }
                        ReactionMedia::GifSearch(q)
                    },
                    None => ReactionMedia::Image(s.clone()),
                }
            }
        },
        None => ReactionMedia::Text,
    }
}

/// Whether the channel stored in a setting is `channel`. Stored ids are Discord ids, which
/// are never negative.
pub fn is_channel(setting: Option<i64>, channel: u64) -> (b: bool)
    requires
        setting matches Some(c) ==> c >= 0,
    ensures
        b == (setting matches Some(c) && c == channel),
{
    match setting {
        Some(c) => c as u64 == channel,
        None => false,
    }
}

/// Whether a dead-chat gif is due: more than `rate` minutes have passed between the last
/// message (at `last`, in seconds) and now (`now`, in seconds).
pub fn dead_chat_due(now: i64, last: i64, rate: i64) -> (b: bool)
    requires
        i64::MIN <= now - last <= i64::MAX,
        i64::MIN <= rate * 60 <= i64::MAX,
    ensures
        b == (now - last > rate * 60),
{
    now - last > rate * 60
}

/// The guilds other than `current` that are in a global chat: their ids and chat channels.
pub open spec fn global_chat_targets_spec(guilds: Seq<(u64, GuildSettings)>, current: u64) -> Seq<
    (i64, i64),
>
    decreases guilds.len(),
{
    if guilds.len() == 0 {
        Seq::empty()
    } else {
        let rest = global_chat_targets_spec(guilds.drop_last(), current);
        let (key, s) = guilds.last();
        if key != current && s.global_chat && s.global_chat_channel is Some {
            rest.push((s.guild_id, s.global_chat_channel->0))
        } else {
            rest
        }
    }
}

/// Law: the targets of a global chat message are exactly the guilds other than the current
/// one that are in the global chat with a chat channel, every one of them, in their order,
/// each by its id and chat channel.
pub proof fn global_chat_reaches_every_other_guild(guilds: Seq<(u64, GuildSettings)>, current: u64)
    ensures
        global_chat_targets_spec(guilds, current) == guilds.filter(
            |g: (u64, GuildSettings)| g.0 != current && g.1.global_chat && g.1.global_chat_channel is Some,
        ).map_values(|g: (u64, GuildSettings)| (g.1.guild_id, g.1.global_chat_channel->0)),
        forall|i: int|
            0 <= i < guilds.len() && guilds[i].0 != current && guilds[i].1.global_chat
                && guilds[i].1.global_chat_channel is Some ==> global_chat_targets_spec(guilds, current).contains(
                (guilds[i].1.guild_id, guilds[i].1.global_chat_channel->0),
            ),
    decreases guilds.len(),
{
    let q = |g: (u64, GuildSettings)| g.0 != current && g.1.global_chat && g.1.global_chat_channel is Some;
    let f = |g: (u64, GuildSettings)| (g.1.guild_id, g.1.global_chat_channel->0);
    reveal(Seq::filter);
    if guilds.len() > 0 {
        global_chat_reaches_every_other_guild(guilds.drop_last(), current);
        let rest = guilds.drop_last().filter(q);
        if q(guilds.last()) {
            assert(rest.push(guilds.last()).map_values(f) =~= rest.map_values(f).push(f(guilds.last())));
        }
    }
    let t = global_chat_targets_spec(guilds, current);
    assert forall|i: int|
        0 <= i < guilds.len() && guilds[i].0 != current && guilds[i].1.global_chat
            && guilds[i].1.global_chat_channel is Some implies t.contains(
            (guilds[i].1.guild_id, guilds[i].1.global_chat_channel->0),
        ) by {
        guilds.lemma_filter_contains(q, i);
        let kept = guilds.filter(q);
        let j = choose|j: int| 0 <= j < kept.len() && kept[j] == guilds[i];
        assert(t[j] == f(guilds[i]));
    }
}

/// The guilds other than `current` that are in a global chat, with their chat channels.
pub fn global_chat_targets(guilds: &Vec<(u64, GuildSettings)>, current: u64) -> (t: Vec<(i64, i64)>)
    ensures
        t@ == global_chat_targets_spec(guilds@, current),
{
    let mut t: Vec<(i64, i64)> = Vec::new();
    let mut i: usize = 0;
    while i < guilds.len()
        invariant
            i <= guilds@.len(),
            t@ == global_chat_targets_spec(guilds@.take(i as int), current),
        decreases guilds.len() - i,
    {
        assert(guilds@.take(i + 1).drop_last() =~= guilds@.take(i as int));
        let entry = &guilds[i];
        if entry.0 != current && entry.1.global_chat {
            match entry.1.global_chat_channel {
                Some(ch) => {
                    t.push((entry.1.guild_id, ch));
                },
                None => {},
            }
        }
        i += 1;
    }
    assert(guilds@.take(guilds@.len() as int) =~= guilds@);
    t
}

/// The guilds other than `current` that share music globally, by id.
pub open spec fn global_music_targets_spec(guilds: Seq<(u64, GuildSettings)>, current: u64) -> Seq<
    i64,
>
    decreases guilds.len(),
{
    if guilds.len() == 0 {
        Seq::empty()
    } else {
        let rest = global_music_targets_spec(guilds.drop_last(), current);
        let (key, s) = guilds.last();
        if key != current && s.global_music {
            rest.push(s.guild_id)
        } else {
            rest
        }
    }
}

/// The guilds other than `current` that share music globally.
pub fn global_music_targets(guilds: &Vec<(u64, GuildSettings)>, current: u64) -> (t: Vec<i64>)
    ensures
        t@ == global_music_targets_spec(guilds@, current),
{
    let mut t: Vec<i64> = Vec::new();
    let mut i: usize = 0;
    while i < guilds.len()
        invariant
            i <= guilds@.len(),
            t@ == global_music_targets_spec(guilds@.take(i as int), current),
        decreases guilds.len() - i,
    {
        assert(guilds@.take(i + 1).drop_last() =~= guilds@.take(i as int));
        let entry = &guilds[i];
        if entry.0 != current && entry.1.global_music {
            t.push(entry.1.guild_id);
        }
        i += 1;
    }
    assert(guilds@.take(guilds@.len() as int) =~= guilds@);
    t
}

/// Whether another guild than `current` waits in a global call: one with global chat on
/// and a chat channel.
pub fn has_other_chats(guilds: &Vec<(u64, GuildSettings)>, current: u64) -> (b: bool)
    ensures
        b == exists|i: int|
            0 <= i < guilds@.len() && (#[trigger] guilds@[i]).0 != current && guilds@[i].1.global_chat
                && guilds@[i].1.global_chat_channel is Some,
{
    let mut i: usize = 0;
    while i < guilds.len()
        invariant
            i <= guilds@.len(),
            forall|j: int|
                0 <= j < i ==> !((#[trigger] guilds@[j]).0 != current && guilds@[j].1.global_chat
                    && guilds@[j].1.global_chat_channel is Some),
        decreases guilds.len() - i,
    {
        let entry = &guilds[i];
        if entry.0 != current && entry.1.global_chat && entry.1.global_chat_channel.is_some() {
            return true;
        }
        i += 1;
    }
    false
}

/// Whether another guild than `current` shares music globally.
pub fn has_other_music(guilds: &Vec<(u64, GuildSettings)>, current: u64) -> (b: bool)
    ensures
        b == exists|i: int|
            0 <= i < guilds@.len() && (#[trigger] guilds@[i]).0 != current && guilds@[i].1.global_music,
{
    let mut i: usize = 0;
    while i < guilds.len()
        invariant
            i <= guilds@.len(),
            forall|j: int|
                0 <= j < i ==> !((#[trigger] guilds@[j]).0 != current && guilds@[j].1.global_music),
        decreases guilds.len() - i,
    {
        let entry = &guilds[i];
        if entry.0 != current && entry.1.global_music {
            return true;
        }
        i += 1;
    }
    false
}

/// The text sent to a global chat when the message cannot go through a webhook:
/// `{name} sent this: {content}`.
pub fn relayed_text(name: &str, content: &str) -> (s: String)
    ensures
        s@ == name@ + " sent this: "@ + content@,
{
    let mut s = String::new();
    push_str(&mut s, name);
    push_str(&mut s, " sent this: ");
    push_str(&mut s, content);
    assert(s@ =~= name@ + " sent this: "@ + content@);
    s
}

/// The role the chatbot plays for a user: the one the user chose, else the default.
pub fn chat_role(settings: Option<&UserSettings>) -> (role: String)
    ensures
        role@ == match settings {
            Some(u) => match u.chatbot_role {
                Some(r) => r@,
                None => DEFAULT_BOT_ROLE@,
            },
            None => DEFAULT_BOT_ROLE@,
        },
{
    match settings {
        Some(u) => match &u.chatbot_role {
            Some(r) => r.clone(),
            None => String::from_str(DEFAULT_BOT_ROLE),
        },
        None => String::from_str(DEFAULT_BOT_ROLE),
    }
}

/// A fixed answer to certain words in a message.
#[derive(Debug, Clone, Copy, PartialEq, Eq, Structural)]
pub enum TextTrigger {
    /// The message is exactly `floppaganda`: answer with the picture.
    Floppaganda,
    /// The message names the spinning emoji this many times: send it as often.
    Kurukuru(usize),
    /// The message names the author of the bot: react with his emoji.
    FabseReact,
    /// No fixed answer.
    NoTrigger,
}

/// The fixed answer to a (lower-cased) message content, the first that applies.
pub open spec fn text_trigger_spec(content: Seq<char>) -> TextTrigger {
    if content == "floppaganda"@ {
        TextTrigger::Floppaganda
    } else if contains_seq(content, "kurukuru_seseren"@) {
        TextTrigger::Kurukuru(count_matches(content, "kurukuru_seseren"@) as usize)
    } else if contains_seq(content, "fabse"@) {
        TextTrigger::FabseReact
    } else {
        TextTrigger::NoTrigger
    }
}

/// The fixed answer to a (lower-cased) message content.
pub fn text_trigger(content: &str) -> (t: TextTrigger)
    ensures
        t == text_trigger_spec(content@),
{
    let c = String::from_str(content);
    let floppa = String::from_str("floppaganda");
    if c == floppa {
        TextTrigger::Floppaganda
    } else if str_contains(content, "kurukuru_seseren") {
        proof {
            reveal_strlit("kurukuru_seseren");
        }
        TextTrigger::Kurukuru(count_matches_str(content, "kurukuru_seseren"))
    } else if str_contains(content, "fabse") {
        TextTrigger::FabseReact
    } else {
        TextTrigger::NoTrigger
    }
}

/// Whether a (lower-cased) message is exactly `fabse` or `fabseman`, which the bot praises.
pub fn is_praise_trigger(content: &str) -> (b: bool)
    ensures
        b == (content@ == "fabse"@ || content@ == "fabseman"@),
{
    let c = String::from_str(content);
    c == String::from_str("fabse") || c == String::from_str("fabseman")
}

/// `n` copies of `s` one after the other.
pub open spec fn repeated(s: Seq<char>, n: nat) -> Seq<char>
    decreases n,
{
    if n == 0 {
        Seq::empty()
    } else {
        repeated(s, (n - 1) as nat) + s
    }
}

/// `s.repeat(n)`.
pub fn repeat_text(s: &str, n: usize) -> (r: String)
    ensures
        r@ == repeated(s@, n as nat),
{
    let mut r = String::new();
    let mut i: usize = 0;
    while i < n
        invariant
            i <= n,
            r@ == repeated(s@, i as nat),
        decreases n - i,
    {
        push_str(&mut r, s);
        i += 1;
    }
    r
}

/// The markup of a custom emoji: `<a:name:id>` for an animated one, `<:name:id>` else.
pub fn emoji_markup(name: &str, id: u64, animated: bool) -> (s: String)
    ensures
        s@ == (if animated {
            "<a:"@
        } else {
            "<:"@
        }) + name@ + seq![':'] + decimal_digits(id as nat) + seq!['>'],
{
    let mut s = String::new();
    if animated {
        push_str(&mut s, "<a:");
    } else {
        push_str(&mut s, "<:");
    }
    push_str(&mut s, name);
    push_str(&mut s, ":");
    push_decimal(&mut s, id);
    push_str(&mut s, ">");
    proof {
        reveal_strlit(":");
        reveal_strlit(">");
    }
    assert(s@ =~= (if animated {
        "<a:"@
    } else {
        "<:"@
    }) + name@ + seq![':'] + decimal_digits(id as nat) + seq!['>']);
    s
}

/// How the preview of a linked message shows its first attachment.
#[derive(Debug, Clone, Copy, PartialEq, Eq, Structural)]
pub enum AttachmentKind {
    /// As the picture of the preview.
    Image,
    /// As a link sent after the preview.
    Video,
    /// Not at all.
    Other,
}

/// How the preview shows an attachment of the given content type.
pub fn attachment_kind(content_type: Option<&str>) -> (k: AttachmentKind)
    ensures
        k == match content_type {
            Some(ct) => if has_prefix(ct@, "image"@) {
                AttachmentKind::Image
            } else if has_prefix(ct@, "video"@) {
                AttachmentKind::Video
            } else {
                AttachmentKind::Other
            },
            None => AttachmentKind::Other,
        },
{
    match content_type {
        Some(ct) => {
            if str_starts_with(ct, "image") {
                AttachmentKind::Image
            } else if str_starts_with(ct, "video") {
                AttachmentKind::Video
            } else {
                AttachmentKind::Other
            }
        },
        None => AttachmentKind::Other,
    }
}

/// Whether a deleted message of the bot is sent again: it is when the one who deleted it is
/// neither the owner of the guild nor an administrator or moderator.
pub fn should_repost(deleter: u64, owner: u64, is_admin_or_mod: bool) -> (b: bool)
    ensures
        b == (deleter != owner && !is_admin_or_mod),
{
    deleter != owner && !is_admin_or_mod
}

/// The notice sent before a deleted message of the bot is sent again.
pub fn repost_notice(name: &str) -> (s: String)
    ensures
        s@ == "**Bruh, "@ + name@ + " deleted my message while not being an admin or a mod!**\nSending it again"@,
{
    let mut s = String::new();
    push_str(&mut s, "**Bruh, ");
    push_str(&mut s, name);
    push_str(&mut s, " deleted my message while not being an admin or a mod!**\nSending it again");
    assert(s@ =~= "**Bruh, "@ + name@ + " deleted my message while not being an admin or a mod!**\nSending it again"@);
    s
}

/// Whether reactions are mirrored in a channel with this topic: in the AI chat channels.
pub fn mirrors_reactions(topic: Option<&str>) -> (b: bool)
    ensures
        b == (topic matches Some(t) && contains_seq(t@, "ai-chat"@)),
{
    match topic {
        Some(t) => str_contains(t, "ai-chat"),
        None => false,
    }
}

/// How many webhooks a channel may hold before the oldest is deleted to make room.
pub const WEBHOOK_LIMIT: usize = 15;

/// Whether the oldest webhook of a channel with `count` webhooks is deleted before a new one
/// is made.
pub fn webhooks_full(count: usize) -> (b: bool)
    ensures
        b == (count >= WEBHOOK_LIMIT),
{
    count >= WEBHOOK_LIMIT
}

/// The name under which an attachment of a spoiler channel is sent again: `SPOILER_{name}`.
pub fn spoiler_name(name: &str) -> (s: String)
    ensures
        s@ == "SPOILER_"@ + name@,
{
    let mut s = String::new();
    push_str(&mut s, "SPOILER_");
    push_str(&mut s, name);
    assert(s@ =~= "SPOILER_"@ + name@);
    s
}

} // verus!

//! Parsers for the Discord message-link and custom-emoji notations.
use vstd::prelude::*;
use crate::text::{chars_of, decimal_value, digit_value, has_prefix, is_digit, string_from_range};

verus! {

/// The three ids of a link to a Discord message.
#[derive(Debug, Clone, Copy, PartialEq, Eq, Structural)]
pub struct DiscordMessageLink {
    pub guild_id: u64,
    pub channel_id: u64,
    pub message_id: u64,
}

/// A custom emoji written as `<:name:id>`.
#[derive(Debug, Clone, PartialEq, Eq)]
pub struct DiscordEmoji {
    pub emoji_name: String,
    pub emoji_id: u64,
}

/// Length of the run of ASCII digits in `s` that starts at `i`.
pub open spec fn digit_run(s: Seq<char>, i: int) -> nat
    decreases s.len() - i,
{
    if 0 <= i < s.len() && is_digit(s[i]) {
        1 + digit_run(s, i + 1)
    } else {
        0
    }
}

/// A decimal id at position `i` of `s`: one or more digits, all of them taken, whose value
/// fits in `u64`; gives the value and the position after the digits.
pub open spec fn spec_discord_id(s: Seq<char>, i: int) -> Option<(u64, int)> {
    let n = digit_run(s, i);
    if n == 0 {
        None
    } else if decimal_value(s.subrange(i, i + n)) <= u64::MAX {
        Some((decimal_value(s.subrange(i, i + n)) as u64, i + n))
    } else {
        None
    }
}

/// `s` holds character `c` at position `i`.
pub open spec fn char_at(s: Seq<char>, i: int, c: char) -> bool {
    0 <= i < s.len() && s[i] == c
}

/// The text that every link to a message begins with.
pub open spec fn link_prefix() -> Seq<char> {
    seq!['h', 't', 't', 'p', 's', ':', '/', '/', 'd', 'i', 's', 'c', 'o', 'r', 'd', '.', 'c', 'o', 'm', '/',
        'c', 'h', 'a', 'n', 'n', 'e', 'l', 's', '/']
}

/// The link that `s` begins with: the prefix, then three ids separated by `/`. Gives the
/// link and the position just after its last digit, where the rest of the input starts.
pub open spec fn spec_message_link(s: Seq<char>) -> Option<(DiscordMessageLink, int)> {
    if !has_prefix(s, link_prefix()) {
        None
    } else {
        match spec_discord_id(s, link_prefix().len() as int) {
            None => None,
            Some((g, i1)) => if !char_at(s, i1, '/') {
                None
            } else {
                match spec_discord_id(s, i1 + 1) {
                    None => None,
                    Some((c, i2)) => if !char_at(s, i2, '/') {
                        None
                    } else {
                        match spec_discord_id(s, i2 + 1) {
                            None => None,
                            Some((m, end)) => Some(
                                (DiscordMessageLink { guild_id: g, channel_id: c, message_id: m }, end),
                            ),
                        }
                    },
                }
            },
        }
    }
}

/// Position of the first `:` in `s` at or after `i`, if any.
pub open spec fn first_colon_from(s: Seq<char>, i: int) -> Option<int>
    decreases s.len() - i,
{
    if i < 0 || i >= s.len() {
        None
    } else if s[i] == ':' {
        Some(i)
    } else {
        first_colon_from(s, i + 1)
    }
}

/// The emoji that `s` begins with: `<:`, a name without `:`, `:`, an id and `>`.
/// Gives the name, the id and the position just after the `>`.
pub open spec fn spec_emoji(s: Seq<char>) -> Option<(Seq<char>, u64, int)> {
    if !(char_at(s, 0, '<') && char_at(s, 1, ':')) {
        None
    } else {
        match first_colon_from(s, 2) {
            None => None,
            Some(k) => match spec_discord_id(s, k + 1) {
                None => None,
                Some((id, j)) => if char_at(s, j, '>') {
                    Some((s.subrange(2, k), id, j + 1))
                } else {
                    None
                },
            },
        }
    }
}

proof fn lemma_digit_run_bound(s: Seq<char>, i: int)
    requires
        0 <= i <= s.len(),
    ensures
        i + digit_run(s, i) <= s.len(),
    decreases s.len() - i,
{
    if i < s.len() && is_digit(s[i]) {
        lemma_digit_run_bound(s, i + 1);
    }
}

proof fn lemma_digit_run_step(s: Seq<char>, i: int, j: int)
    requires
        0 <= i <= j <= s.len(),
        forall|k: int| #![trigger s[k]] i <= k < j ==> is_digit(s[k]),
    ensures
        (j < s.len() && is_digit(s[j])) ==> digit_run(s, i) > j - i,
        !(j < s.len() && is_digit(s[j])) ==> digit_run(s, i) == j - i,
    decreases j - i,
{
    if i < j {
        assert(is_digit(s[i]));
        lemma_digit_run_step(s, i + 1, j);
        assert(digit_run(s, i) == 1 + digit_run(s, i + 1));
    }
}

proof fn lemma_decimal_push(ds: Seq<char>, c: char)
    ensures
        decimal_value(ds.push(c)) == decimal_value(ds) * 10 + digit_value(c),
{
    assert(ds.push(c).drop_last() =~= ds);
}

/// Parses the id at position `i` of `cs` (see `spec_discord_id`).
fn discord_id(cs: &[char], i: usize) -> (r: Option<(u64, usize)>)
    requires
        i <= cs@.len(),
    ensures
        r is None <==> spec_discord_id(cs@, i as int) is None,
        r matches Some((v, j)) ==> spec_discord_id(cs@, i as int) == Some((v, j as int)) && j
            <= cs@.len(),
{
    let mut j = i;
    let mut value: u64 = 0;
    let mut overflow = false;
    while j < cs.len() && '0' <= cs[j] && cs[j] <= '9'
        invariant
            i <= j <= cs@.len(),
            forall|k: int| i <= k < j ==> is_digit(#[trigger] cs@[k]),
            overflow <==> decimal_value(cs@.subrange(i as int, j as int)) > u64::MAX,
            !overflow ==> value == decimal_value(cs@.subrange(i as int, j as int)),
        decreases cs.len() - j,
    {
        let d = (cs[j] as u32 - 48) as u64;
        proof {
            assert(cs@.subrange(i as int, j + 1) =~= cs@.subrange(i as int, j as int).push(cs@[j as int]));
            lemma_decimal_push(cs@.subrange(i as int, j as int), cs@[j as int]);
        }
        if !overflow {
            if value > (u64::MAX - d) / 10 {
                overflow = true;
            } else {
                value = value * 10 + d;
            }
        }
        j += 1;
    }
    proof {
        lemma_digit_run_step(cs@, i as int, j as int);
    }
    if j == i || overflow {
        None
    } else {
        Some((value, j))
    }
}

/// Whether `cs` holds `c` at position `i`.
fn char_at_exec(cs: &[char], i: usize, c: char) -> (b: bool)
    ensures
        b == char_at(cs@, i as int, c),
{
    i < cs.len() && cs[i] == c
}

/// Reads the link to a Discord message that `input` begins with; gives the link and the
/// rest of the input after it.
pub fn discord_message_link<'a>(input: &'a str) -> (r: Option<(DiscordMessageLink, &'a str)>)
    ensures
        match spec_message_link(input@) {
            None => r is None,
            Some((link, end)) => r matches Some((l, rest)) && l == link && rest@ == input@.skip(end),
        },
{
    let cs = chars_of(input);
    let prefix = "https://discord.com/channels/";
    proof {
        reveal_strlit("https://discord.com/channels/");
        assert(prefix@ =~= link_prefix());
    }
    let pv = chars_of(prefix);
    if pv.len() > cs.len() {
        return None;
    }
    let mut k: usize = 0;
    while k < pv.len()
        invariant
            cs@ == input@,
            pv@ == link_prefix(),
            pv@.len() <= cs@.len(),
            k <= pv@.len(),
            forall|j: int| 0 <= j < k ==> cs@[j] == pv@[j],
        decreases pv.len() - k,
    {
        if cs[k] != pv[k] {
            assert(cs@.take(pv@.len() as int)[k as int] != link_prefix()[k as int]);
            return None;
        }
        k += 1;
    }
    assert(cs@.take(pv@.len() as int) =~= link_prefix());
    assert(has_prefix(input@, link_prefix()));
    let (g, i1) = match discord_id(cs.as_slice(), pv.len()) {
        Some(x) => x,
        None => return None,
    };
    if !char_at_exec(cs.as_slice(), i1, '/') {
        return None;
    }
    let (c, i2) = match discord_id(cs.as_slice(), i1 + 1) {
        Some(x) => x,
        None => return None,
    };
    if !char_at_exec(cs.as_slice(), i2, '/') {
        return None;
    }
    let (m, end) = match discord_id(cs.as_slice(), i2 + 1) {
        Some(x) => x,
        None => return None,
    };
    let rest = input.substring_char(end, cs.len());
    assert(rest@ =~= input@.skip(end as int));
    Some((DiscordMessageLink { guild_id: g, channel_id: c, message_id: m }, rest))
}

/// Reads the custom emoji `<:name:id>` that `input` begins with; gives the emoji and the
/// rest of the input after it.
pub fn discord_emoji<'a>(input: &'a str) -> (r: Option<(DiscordEmoji, &'a str)>)
    ensures
        match spec_emoji(input@) {
            None => r is None,
            Some((name, id, end)) => r matches Some((e, rest)) && e.emoji_name@ == name && e.emoji_id
                == id && rest@ == input@.skip(end),
        },
{
    let cs = chars_of(input);
    if !(char_at_exec(cs.as_slice(), 0, '<') && char_at_exec(cs.as_slice(), 1, ':')) {
        return None;
    }
    let mut k: usize = 2;
    while k < cs.len() && cs[k] != ':'
        invariant
            2 <= k <= cs@.len(),
            forall|j: int| 2 <= j < k ==> #[trigger] cs@[j] != ':',
            first_colon_from(cs@, 2) == first_colon_from(cs@, k as int),
        decreases cs.len() - k,
    {
        k += 1;
    }
    if k == cs.len() {
        return None;
    }
    assert(first_colon_from(cs@, 2) == Some(k as int));
    let name = emoji_name(cs.as_slice(), k);
    let (id, j) = match discord_id(cs.as_slice(), k + 1) {
        Some(x) => x,
        None => return None,
    };
    if !char_at_exec(cs.as_slice(), j, '>') {
        return None;
    }
    let rest = input.substring_char(j + 1, cs.len());
    assert(rest@ =~= input@.skip(j + 1));
    Some((DiscordEmoji { emoji_name: name, emoji_id: id }, rest))
}

/// The emoji name: the characters from position 2 up to the colon at `k`.
fn emoji_name(cs: &[char], k: usize) -> (name: String)
    requires
        2 <= k <= cs@.len(),
    ensures
        name@ == cs@.subrange(2, k as int),
{
    string_from_range(cs, 2, k)
}

/// All characters of `s` are ASCII digits.
pub open spec fn all_digits(s: Seq<char>) -> bool {
    forall|i: int| 0 <= i < s.len() ==> is_digit(#[trigger] s[i])
}

/// The integer that `str::parse` reads from `s`: an optional `+` or `-`, then one or more
/// ASCII digits and nothing else.
pub open spec fn spec_integer(s: Seq<char>) -> Option<int> {
    let neg = s.len() > 0 && s[0] == '-';
    let digits = if s.len() > 0 && (s[0] == '+' || s[0] == '-') {
        s.skip(1)
    } else {
        s
    };
    if digits.len() == 0 || !all_digits(digits) {
        None
    } else if neg {
        Some(-(decimal_value(digits) as int))
    } else {
        Some(decimal_value(digits) as int)
    }
}

/// `str::parse::<i64>`: the integer of `s` when it is one and fits in `i64`.
pub open spec fn spec_parse_i64(s: Seq<char>) -> Option<i64> {
    match spec_integer(s) {
        Some(v) => if i64::MIN <= v <= i64::MAX {
            Some(v as i64)
        } else {
            None
        },
        None => None,
    }
}

/// `str::parse::<usize>`: the integer of `s` when it has no `-` sign and fits in `usize`.
pub open spec fn spec_parse_usize(s: Seq<char>) -> Option<usize> {
    if s.len() > 0 && s[0] == '-' {
        None
    } else {
        match spec_integer(s) {
            Some(v) => if 0 <= v <= usize::MAX {
                Some(v as usize)
            } else {
                None
            },
            None => None,
        }
    }
}

/// The value of the digits `cs[from..]`, when they are all digits, there is at least one and
/// the value fits in `u64`.
fn digits_value(cs: &[char], from: usize) -> (r: Option<u64>)
    requires
        from <= cs@.len(),
    ensures
        ({
            let d = cs@.skip(from as int);
            match r {
                Some(v) => d.len() > 0 && all_digits(d) && v == decimal_value(d),
                None => d.len() == 0 || !all_digits(d) || decimal_value(d) > u64::MAX,
            }
        }),
{
    if from == cs.len() {
        return None;
    }
    let mut j = from;
    let mut value: u64 = 0;
    let mut overflow = false;
    while j < cs.len()
        invariant
            from <= j <= cs@.len(),
            forall|k: int| from <= k < j ==> is_digit(#[trigger] cs@[k]),
            overflow <==> decimal_value(cs@.subrange(from as int, j as int)) > u64::MAX,
            !overflow ==> value == decimal_value(cs@.subrange(from as int, j as int)),
        decreases cs.len() - j,
    {
        if !('0' <= cs[j] && cs[j] <= '9') {
            assert(cs@.skip(from as int)[j - from] == cs@[j as int]);
            return None;
        }
        let d = (cs[j] as u32 - 48) as u64;
        proof {
            assert(cs@.subrange(from as int, j + 1) =~= cs@.subrange(from as int, j as int).push(cs@[j as int]));
            lemma_decimal_push(cs@.subrange(from as int, j as int), cs@[j as int]);
        }
        if !overflow {
            if value > (u64::MAX - d) / 10 {
                overflow = true;
            } else {
                value = value * 10 + d;
            }
        }
        j += 1;
    }
    assert(cs@.subrange(from as int, j as int) =~= cs@.skip(from as int));
    if overflow {
        None
    } else {
        Some(value)
    }
}

/// `str::parse::<i64>`.
pub fn parse_i64(s: &str) -> (r: Option<i64>)
    ensures
        r == spec_parse_i64(s@),
{
    let cs = chars_of(s);
    let neg = cs.len() > 0 && cs[0] == '-';
    let signed = cs.len() > 0 && (cs[0] == '+' || cs[0] == '-');
    let from: usize = if signed {
        1
    } else {
        0
    };
    assert(cs@.skip(0) =~= cs@);
    match digits_value(cs.as_slice(), from) {
        None => None,
        Some(v) => {
            if neg {
                if v <= 9223372036854775807 {
                    Some(-(v as i64))
                } else if v == 9223372036854775808 {
                    Some(i64::MIN)
                } else {
                    None
                }
            } else if v <= 9223372036854775807 {
                Some(v as i64)
            } else {
                None
            }
        },
    }
}

/// `str::parse::<usize>`.
pub fn parse_usize(s: &str) -> (r: Option<usize>)
    ensures
        r == spec_parse_usize(s@),
{
    let cs = chars_of(s);
    if cs.len() > 0 && cs[0] == '-' {
        return None;
    }
    let from: usize = if cs.len() > 0 && cs[0] == '+' {
        1
    } else {
        0
    };
    assert(cs@.skip(0) =~= cs@);
    match digits_value(cs.as_slice(), from) {
        None => None,
        Some(v) => {
            if v <= usize::MAX as u64 {
                Some(v as usize)
            } else {
                None
            }
        },
    }
}

} // verus!

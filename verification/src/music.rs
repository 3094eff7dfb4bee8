//! Decisions of the music commands: what a song request names, where a seek goes, and the
//! texts that report on the queue.
use vstd::prelude::*;
use crate::parse::{parse_i64, spec_parse_i64};
use crate::text::{
    contains_seq, decimal_digits, has_prefix, push_decimal, push_str, str_contains,
    str_starts_with,
};

verus! {

/// What a song request names.
#[derive(Debug, Clone, Copy, PartialEq, Eq, Structural)]
pub enum SongSource {
    /// A YouTube link to play.
    Link,
    /// Words to search for.
    Search,
    /// A link that is not to YouTube, which is refused.
    Unsupported,
}

/// What a song request names: a link when it starts with `https` (played only when it is a
/// YouTube link), else a search.
pub fn song_source(request: &str) -> (s: SongSource)
    ensures
        s == if has_prefix(request@, "https"@) {
            if contains_seq(request@, "youtu"@) {
                SongSource::Link
            } else {
                SongSource::Unsupported
            }
        } else {
            SongSource::Search
        },
{
    if str_starts_with(request, "https") {
        if str_contains(request, "youtu") {
            SongSource::Link
        } else {
            SongSource::Unsupported
        }
    } else {
        SongSource::Search
    }
}

/// Where a seek goes.
#[derive(Debug, Clone, Copy, PartialEq, Eq, Structural)]
pub enum SeekPlan {
    /// The amount is not a number.
    InvalidNumber,
    /// Going back this far would reach the start or before.
    TooFarBack,
    /// Go back `amount` seconds, to second `target`.
    Backward { target: u64, amount: u64 },
    /// Go forward `amount` seconds from the current position.
    Forward { amount: u64 },
}

/// The seek asked for by `seconds` (a signed number) at second `position` of the song.
/// The position counts as 0 when it does not fit in an `i64`.
pub open spec fn seek_plan_spec(position: u64, seconds: Seq<char>) -> SeekPlan {
    match spec_parse_i64(seconds) {
        None => SeekPlan::InvalidNumber,
        Some(v) => if v < 0 {
            let current: int = if position <= i64::MAX {
                position as int
            } else {
                0
            };
            let target = current + v;
            if target <= 0 {
                SeekPlan::TooFarBack
            } else {
                SeekPlan::Backward { target: target as u64, amount: (-v) as u64 }
            }
        } else {
            SeekPlan::Forward { amount: v as u64 }
        },
    }
}

/// The seek asked for by `seconds` at second `position` of the song.
pub fn seek_plan(position: u64, seconds: &str) -> (p: SeekPlan)
    ensures
        p == seek_plan_spec(position, seconds@),
{
    match parse_i64(seconds) {
        None => SeekPlan::InvalidNumber,
        Some(v) => {
            if v < 0 {
                let current: i64 = if position <= i64::MAX as u64 {
                    position as i64
                } else {
                    0
                };
                let target = current + v;
                if target <= 0 {
                    SeekPlan::TooFarBack
                } else {
                    SeekPlan::Backward { target: target as u64, amount: (-v) as u64 }
                }
            } else {
                SeekPlan::Forward { amount: v as u64 }
            }
        },
    }
}

/// The answer to a seek backward by `amount` seconds: `Seeked {amount}s backward`.
pub fn seek_backward_text(amount: u64) -> (s: String)
    ensures
        s@ == "Seeked "@ + decimal_digits(amount as nat) + "s backward"@,
{
    let mut s = String::new();
    push_str(&mut s, "Seeked ");
    push_decimal(&mut s, amount);
    push_str(&mut s, "s backward");
    assert(s@ =~= "Seeked "@ + decimal_digits(amount as nat) + "s backward"@);
    s
}

/// The answer to a seek forward by `amount` seconds: `Seeked {amount}s forward`.
pub fn seek_forward_text(amount: u64) -> (s: String)
    ensures
        s@ == "Seeked "@ + decimal_digits(amount as nat) + "s forward"@,
{
    let mut s = String::new();
    push_str(&mut s, "Seeked ");
    push_decimal(&mut s, amount);
    push_str(&mut s, "s forward");
    assert(s@ =~= "Seeked "@ + decimal_digits(amount as nat) + "s forward"@);
    s
}

/// The position shown for a song just added to a queue that now holds `queue_len` songs:
/// the number of songs before it.
pub fn queue_position(queue_len: usize) -> (p: usize)
    ensures
        p == if queue_len >= 1 {
            queue_len - 1
        } else {
            0
        },
{
    queue_len.saturating_sub(1)
}

/// The report of a skip by `name` when the queue held `queue_len` songs:
/// `Song skipped by {name}. {n} left in queue`, with `n` two less than `queue_len`, or 0.
pub fn skip_text(name: &str, queue_len: usize) -> (s: String)
    ensures
        s@ == "Song skipped by "@ + name@ + ". "@ + decimal_digits(
            (if queue_len >= 2 {
                queue_len - 2
            } else {
                0
            }) as nat,
        ) + " left in queue"@,
{
    let left = queue_len.saturating_sub(2);
    let mut s = String::new();
    push_str(&mut s, "Song skipped by ");
    push_str(&mut s, name);
    push_str(&mut s, ". ");
    push_decimal(&mut s, left as u64);
    push_str(&mut s, " left in queue");
    assert(s@ =~= "Song skipped by "@ + name@ + ". "@ + decimal_digits(left as nat)
        + " left in queue"@);
    s
}

/// The duration field of a song: `{secs}s`.
pub fn duration_text(secs: u64) -> (s: String)
    ensures
        s@ == decimal_digits(secs as nat) + seq!['s'],
{
    let mut s = String::new();
    push_decimal(&mut s, secs);
    push_str(&mut s, "s");
    proof {
        reveal_strlit("s");
    }
    assert(s@ =~= decimal_digits(secs as nat) + seq!['s']);
    s
}

/// What the song search of a playlist track is: `{title} {artist}`.
pub fn track_search(title: &str, artist: &str) -> (s: String)
    ensures
        s@ == title@ + seq![' '] + artist@,
{
    let mut s = String::new();
    push_str(&mut s, title);
    push_str(&mut s, " ");
    push_str(&mut s, artist);
    proof {
        reveal_strlit(" ");
    }
    assert(s@ =~= title@ + seq![' '] + artist@);
    s
}

/// The state of the current track, as far as pausing goes.
#[derive(Debug, Clone, Copy, PartialEq, Eq, Structural)]
pub enum PlayState {
    Playing,
    Paused,
    Other,
}

/// What pausing does with a track in the given state.
#[derive(Debug, Clone, Copy, PartialEq, Eq, Structural)]
pub enum PauseAction {
    Resume,
    Pause,
    NotPlayable,
}

/// A paused track resumes, a playing one pauses, another cannot be toggled.
pub fn pause_action(state: PlayState) -> (a: PauseAction)
    ensures
        a == match state {
            PlayState::Paused => PauseAction::Resume,
            PlayState::Playing => PauseAction::Pause,
            PlayState::Other => PauseAction::NotPlayable,
        },
{
    match state {
        PlayState::Paused => PauseAction::Resume,
        PlayState::Playing => PauseAction::Pause,
        PlayState::Other => PauseAction::NotPlayable,
    }
}

/// The answer after a pause action, by whether the player did it.
pub fn pause_reply(action: PauseAction, done: bool) -> (s: &'static str)
    ensures
        s@ == match action {
            PauseAction::Resume => if done {
                "Resumed playback"@
            } else {
                "Failed to continue playback"@
            },
            PauseAction::Pause => if done {
                "Paused playback"@
            } else {
                "Failed to pause playback"@
            },
            PauseAction::NotPlayable => "No playable track found"@,
        },
{
    match action {
        PauseAction::Resume => if done {
            "Resumed playback"
        } else {
            "Failed to continue playback"
        },
        PauseAction::Pause => if done {
            "Paused playback"
        } else {
            "Failed to pause playback"
        },
        PauseAction::NotPlayable => "No playable track found",
    }
}

/// The bytes of a block of 16-bit samples, each little-endian.
pub open spec fn pcm_bytes_spec(samples: Seq<i16>) -> Seq<u8>
    decreases samples.len(),
{
    if samples.len() == 0 {
        Seq::empty()
    } else {
        let v = samples.last() as u16;
        pcm_bytes_spec(samples.drop_last()) + seq![(v % 256) as u8, (v / 256) as u8]
    }
}

/// The bytes of a block of voice samples as it is passed on to other guilds: each sample
/// little-endian.
pub fn pcm_bytes(samples: &[i16]) -> (bytes: Vec<u8>)
    ensures
        bytes@ == pcm_bytes_spec(samples@),
{
    let mut bytes: Vec<u8> = Vec::new();
    let mut i: usize = 0;
    while i < samples.len()
        invariant
            i <= samples@.len(),
            bytes@ == pcm_bytes_spec(samples@.take(i as int)),
        decreases samples.len() - i,
    {
        assert(samples@.take(i + 1).drop_last() =~= samples@.take(i as int));
        let v = samples[i] as u16;
        bytes.push((v % 256) as u8);
        bytes.push((v / 256) as u8);
        assert(bytes@ =~= pcm_bytes_spec(samples@.take(i as int)) + seq![
            (v % 256) as u8,
            (v / 256) as u8,
        ]);
        i += 1;
    }
    assert(samples@.take(samples@.len() as int) =~= samples@);
    bytes
}

/// Law: a seek backward lands `amount` seconds before the position (when the position fits
/// in an `i64`), strictly after the start, and a seek forward moves by the number given.
pub proof fn seek_laws(position: u64, seconds: Seq<char>)
    ensures
        seek_plan_spec(position, seconds) matches SeekPlan::Backward { target, amount } ==> {
            &&& target > 0
            &&& position <= i64::MAX ==> target + amount == position
        },
        seek_plan_spec(position, seconds) matches SeekPlan::Forward { amount } ==> (spec_parse_i64(
            seconds,
        ) == Some(amount as i64)),
{
}

/// Law: each sample becomes two bytes, low byte first.
pub proof fn pcm_bytes_laws(samples: Seq<i16>)
    ensures
        pcm_bytes_spec(samples).len() == 2 * samples.len(),
        forall|k: int|
            0 <= k < samples.len() ==> #[trigger] pcm_bytes_spec(samples)[2 * k] == ((samples[k] as u16)
                % 256) as u8,
        forall|k: int|
            0 <= k < samples.len() ==> #[trigger] pcm_bytes_spec(samples)[2 * k + 1] == ((samples[k] as u16)
                / 256) as u8,
    decreases samples.len(),
{
    if samples.len() > 0 {
        let rest = samples.drop_last();
        pcm_bytes_laws(rest);
        let v = samples.last() as u16;
        assert(pcm_bytes_spec(samples) == pcm_bytes_spec(rest) + seq![(v % 256) as u8, (v / 256) as u8]);
        assert forall|k: int| 0 <= k < samples.len() implies #[trigger] pcm_bytes_spec(samples)[2 * k]
            == ((samples[k] as u16) % 256) as u8 by {
            if k < rest.len() {
                assert(rest[k] == samples[k]);
                assert(pcm_bytes_spec(rest)[2 * k] == pcm_bytes_spec(samples)[2 * k]);
            }
        }
        assert forall|k: int| 0 <= k < samples.len() implies #[trigger] pcm_bytes_spec(samples)[2 * k + 1]
            == ((samples[k] as u16) / 256) as u8 by {
            if k < rest.len() {
                assert(rest[k] == samples[k]);
                assert(pcm_bytes_spec(rest)[2 * k + 1] == pcm_bytes_spec(samples)[2 * k + 1]);
            }
        }
    }
}

} // verus!

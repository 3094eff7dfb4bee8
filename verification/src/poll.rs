//! Anonymous polls: the options of a poll, its buttons and the votes cast on it.
use vstd::prelude::*;
use crate::parse::{parse_usize, spec_parse_usize};
use crate::text::{
    decimal_digits, is_digit, lemma_decimal_digits, lemma_split_on_pair, push_decimal, push_str,
    split_on, split_str, trim_str, trimmed, views,
};

verus! {

/// The trimmed pieces of `pieces` that are not empty, in order.
pub open spec fn nonempty_trimmed(pieces: Seq<Seq<char>>) -> Seq<Seq<char>>
    decreases pieces.len(),
{
    if pieces.len() == 0 {
        Seq::empty()
    } else {
        let rest = nonempty_trimmed(pieces.drop_last());
        let t = trimmed(pieces.last());
        if t.len() > 0 {
            rest.push(t)
        } else {
            rest
        }
    }
}

/// The options of a poll written as comma-separated text: each piece trimmed, empty ones
/// left out.
pub open spec fn poll_options_spec(s: Seq<char>) -> Seq<Seq<char>> {
    nonempty_trimmed(split_on(s, ','))
}

/// Law: the options of a poll are exactly the comma-separated pieces of the text, each
/// trimmed, that are not empty after trimming, in their order; so every such piece is an
/// option and every option is such a piece.
pub proof fn poll_options_are_the_nonempty_pieces(s: Seq<char>)
    ensures
        poll_options_spec(s) == split_on(s, ',').map_values(|p: Seq<char>| trimmed(p)).filter(
            |t: Seq<char>| t.len() > 0,
        ),
        forall|i: int|
            0 <= i < split_on(s, ',').len() && trimmed(split_on(s, ',')[i]).len() > 0
                ==> poll_options_spec(s).contains(trimmed(split_on(s, ',')[i])),
        forall|j: int| 0 <= j < poll_options_spec(s).len() ==> poll_options_spec(s)[j].len() > 0,
{
    let pieces = split_on(s, ',');
    lemma_nonempty_trimmed_filter(pieces);
    let tr = pieces.map_values(|p: Seq<char>| trimmed(p));
    let ne = |t: Seq<char>| t.len() > 0;
    assert forall|i: int| 0 <= i < pieces.len() && trimmed(pieces[i]).len() > 0 implies poll_options_spec(
        s,
    ).contains(trimmed(pieces[i])) by {
        assert(tr[i] == trimmed(pieces[i]));
        tr.lemma_filter_contains(ne, i);
    }
    assert forall|j: int| 0 <= j < poll_options_spec(s).len() implies poll_options_spec(s)[j].len() > 0 by {
        tr.lemma_filter_pred(ne, j);
    }
}

proof fn lemma_nonempty_trimmed_filter(pieces: Seq<Seq<char>>)
    ensures
        nonempty_trimmed(pieces) == pieces.map_values(|p: Seq<char>| trimmed(p)).filter(
            |t: Seq<char>| t.len() > 0,
        ),
    decreases pieces.len(),
{
    reveal(Seq::filter);
    let tr = pieces.map_values(|p: Seq<char>| trimmed(p));
    if pieces.len() > 0 {
        lemma_nonempty_trimmed_filter(pieces.drop_last());
        assert(tr.drop_last() =~= pieces.drop_last().map_values(|p: Seq<char>| trimmed(p)));
    }
}

/// The options of a poll from comma-separated text.
pub fn poll_options(options: &str) -> (opts: Vec<String>)
    ensures
        views(opts@) == poll_options_spec(options@),
{
    let pieces = split_str(options, ',');
    let mut opts: Vec<String> = Vec::new();
    let mut i: usize = 0;
    assert(views(pieces@).take(0) =~= Seq::<Seq<char>>::empty());
    while i < pieces.len()
        invariant
            0 <= i <= pieces@.len(),
            views(pieces@) == split_on(options@, ','),
            views(opts@) == nonempty_trimmed(views(pieces@).take(i as int)),
        decreases pieces.len() - i,
    {
        assert(views(pieces@).take(i + 1).drop_last() =~= views(pieces@).take(i as int));
        assert(views(pieces@).take(i + 1).last() == pieces@[i as int]@);
        let t = trim_str(pieces[i].as_str());
        if t.as_str().unicode_len() > 0 {
            let ghost before = opts@;
            opts.push(t);
            assert(views(opts@) =~= views(before).push(trimmed(pieces@[i as int]@)));
        }
        i += 1;
    }
    assert(views(pieces@).take(pieces@.len() as int) =~= views(pieces@));
    opts
}

/// The id of the button of option `index` of the poll with command id `ctx_id`.
pub open spec fn poll_button_id(ctx_id: nat, index: nat) -> Seq<char> {
    decimal_digits(ctx_id) + seq!['_'] + decimal_digits(index)
}

/// The ids and labels of the buttons of a poll with `count` options: option `i` has the id
/// `{ctx_id}_{i}` and the label `i + 1`.
pub fn poll_buttons(ctx_id: u64, count: usize) -> (buttons: Vec<(String, String)>)
    requires
        count < u64::MAX,
    ensures
        buttons@.len() == count,
        forall|i: int|
            0 <= i < count ==> (#[trigger] buttons@[i]).0@ == poll_button_id(ctx_id as nat, i as nat)
                && buttons@[i].1@ == decimal_digits((i + 1) as nat),
{
    let mut buttons: Vec<(String, String)> = Vec::new();
    let mut i: usize = 0;
    while i < count
        invariant
            i <= count < u64::MAX,
            buttons@.len() == i,
            forall|j: int|
                0 <= j < i ==> (#[trigger] buttons@[j]).0@ == poll_button_id(ctx_id as nat, j as nat)
                    && buttons@[j].1@ == decimal_digits((j + 1) as nat),
        decreases count - i,
    {
        let mut id = String::new();
        push_decimal(&mut id, ctx_id);
        push_str(&mut id, "_");
        push_decimal(&mut id, i as u64);
        proof {
            reveal_strlit("_");
            assert(id@ =~= poll_button_id(ctx_id as nat, i as nat));
        }
        let mut label = String::new();
        push_decimal(&mut label, (i + 1) as u64);
        assert(label@ =~= decimal_digits((i + 1) as nat));
        buttons.push((id, label));
        i += 1;
    }
    buttons
}

/// The option that a button id names: the second `_`-separated piece, read as a number.
pub open spec fn vote_index(custom_id: Seq<char>) -> Option<usize> {
    let pieces = split_on(custom_id, '_');
    if pieces.len() > 1 {
        spec_parse_usize(pieces[1])
    } else {
        None
    }
}

/// What became of a vote.
#[derive(Debug, Clone, Copy, PartialEq, Eq, Structural)]
pub enum VoteOutcome {
    /// The user had voted before; nothing changed.
    AlreadyVoted,
    /// The vote counts for the option with this index.
    Counted(usize),
    /// The user is now marked as having voted, but the button named no option.
    Ignored,
}

/// The sum of the counts.
pub open spec fn total(s: Seq<u64>) -> int
    decreases s.len(),
{
    if s.len() == 0 {
        0
    } else {
        total(s.drop_last()) + s.last()
    }
}

/// Raising one count by one raises the sum by one.
proof fn lemma_total_update(s: Seq<u64>, i: int)
    requires
        0 <= i < s.len(),
        s[i] < u64::MAX,
    ensures
        total(s.update(i, (s[i] + 1) as u64)) == total(s) + 1,
    decreases s.len(),
{
    lemma_total_nonneg(s.drop_last());
    let t = s.update(i, (s[i] + 1) as u64);
    if i == s.len() - 1 {
        assert(t.drop_last() =~= s.drop_last());
    } else {
        lemma_total_update(s.drop_last(), i);
        assert(t.drop_last() =~= s.drop_last().update(i, (s[i] + 1) as u64));
    }
}

/// The sum of counts is never negative.
proof fn lemma_total_nonneg(s: Seq<u64>)
    ensures
        total(s) >= 0,
    decreases s.len(),
{
    if s.len() > 0 {
        lemma_total_nonneg(s.drop_last());
    }
}

/// A running poll: the votes of each option and the users who have voted.
pub struct Poll {
    pub counts: Vec<u64>,
    pub voters: Vec<u64>,
}

impl Poll {
    /// Nobody voted twice, and there are no more votes than voters.
    pub open spec fn wf(&self) -> bool {
        &&& self.voters@.no_duplicates()
        &&& total(self.counts@) <= self.voters@.len()
    }

    /// A poll with `options` options and no votes.
    pub fn new(options: usize) -> (p: Poll)
        ensures
            p.wf(),
            p.counts@ == Seq::new(options as nat, |i: int| 0u64),
            p.voters@ == Seq::<u64>::empty(),
    {
        let mut counts: Vec<u64> = Vec::new();
        let mut i: usize = 0;
        while i < options
            invariant
                i <= options,
                counts@ == Seq::new(i as nat, |j: int| 0u64),
                total(counts@) == 0,
            decreases options - i,
        {
            let ghost before = counts@;
            counts.push(0);
            assert(counts@.drop_last() =~= before);
            assert(counts@ =~= Seq::new((i + 1) as nat, |j: int| 0u64));
            i += 1;
        }
        Poll { counts, voters: Vec::new() }
    }

    /// Whether `user` has voted.
    pub fn has_voted(&self, user: u64) -> (b: bool)
        ensures
            b == self.voters@.contains(user),
    {
        let mut i: usize = 0;
        while i < self.voters.len()
            invariant
                i <= self.voters@.len(),
                forall|j: int| 0 <= j < i ==> self.voters@[j] != user,
            decreases self.voters.len() - i,
        {
            if self.voters[i] == user {
                assert(self.voters@[i as int] == user);
                return true;
            }
            i += 1;
        }
        false
    }

    /// Casts the vote of `user` by the button with id `custom_id`. A user votes once: a second
    /// vote changes nothing. A first vote marks the user as having voted, and counts for the
    /// option that the id names when there is one.
    pub fn vote(&mut self, user: u64, custom_id: &str) -> (o: VoteOutcome)
        requires
            old(self).wf(),
        ensures
            final(self).wf(),
            old(self).voters@.contains(user) ==> {
                &&& o == VoteOutcome::AlreadyVoted
                &&& final(self).voters@ == old(self).voters@
                &&& final(self).counts@ == old(self).counts@
            },
            !old(self).voters@.contains(user) ==> {
                &&& final(self).voters@ == old(self).voters@.push(user)
                &&& match vote_index(custom_id@) {
                    Some(i) => if i < old(self).counts@.len() {
                        &&& o == VoteOutcome::Counted(i)
                        &&& final(self).counts@ == old(self).counts@.update(
                            i as int,
                            (old(self).counts@[i as int] + 1) as u64,
                        )
                    } else {
                        o == VoteOutcome::Ignored && final(self).counts@ == old(self).counts@
                    },
                    None => o == VoteOutcome::Ignored && final(self).counts@ == old(self).counts@,
                }
            },
    {
        if self.has_voted(user) {
            return VoteOutcome::AlreadyVoted;
        }
        let ghost old_voters = self.voters@;
        self.voters.push(user);
        let voter_count = self.voters.len();
        assert(old_voters.len() + 1 == voter_count);
        proof {
            assert forall|a: int, b: int|
                0 <= a < b < self.voters@.len() implies self.voters@[a] != self.voters@[b] by {
                if b == self.voters@.len() - 1 {
                    assert(old_voters[a] == self.voters@[a]);
                    assert(old_voters.contains(old_voters[a]));
                } else {
                    assert(old_voters[a] == self.voters@[a] && old_voters[b] == self.voters@[b]);
                }
            }
        }
        let pieces = split_str(custom_id, '_');
        if pieces.len() > 1 {
            assert(pieces@[1]@ == views(pieces@)[1]);
            match parse_usize(pieces[1].as_str()) {
                Some(index) => {
                    if index < self.counts.len() {
                        proof {
                            lemma_total_bound(self.counts@, index as int);
                            lemma_total_update(self.counts@, index as int);
                        }
                        let c = self.counts[index];
                        self.counts.set(index, c + 1);
                        return VoteOutcome::Counted(index);
                    }
                    VoteOutcome::Ignored
                },
                None => VoteOutcome::Ignored,
            }
        } else {
            VoteOutcome::Ignored
        }
    }
}

/// Each count is part of the sum.
proof fn lemma_total_bound(s: Seq<u64>, i: int)
    requires
        0 <= i < s.len(),
    ensures
        s[i] <= total(s),
    decreases s.len(),
{
    lemma_total_nonneg(s.drop_last());
    if i < s.len() - 1 {
        lemma_total_bound(s.drop_last(), i);
    }
}

/// Law: the button of option `index` of a poll names that option, so a first vote by it
/// counts for that option.
pub proof fn poll_button_names_its_option(ctx_id: u64, index: usize)
    ensures
        vote_index(poll_button_id(ctx_id as nat, index as nat)) == Some(index),
{
    lemma_decimal_digits(ctx_id as nat);
    lemma_decimal_digits(index as nat);
    let a = decimal_digits(ctx_id as nat);
    let b = decimal_digits(index as nat);
    assert forall|i: int| 0 <= i < a.len() implies a[i] != '_' by {
        assert(is_digit(a[i]));
    }
    assert forall|i: int| 0 <= i < b.len() implies b[i] != '_' by {
        assert(is_digit(b[i]));
    }
    lemma_split_on_pair(a, b, '_');
    assert(is_digit(b[0]));
}

} // verus!

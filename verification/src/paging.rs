//! Browsing through the results of a search with next and previous buttons.
use vstd::prelude::*;
use crate::text::{decimal_digits, has_prefix, push_decimal, push_str, str_starts_with};

verus! {

/// The result shown and the number of results.
#[derive(Debug, Clone, Copy, PartialEq, Eq, Structural)]
pub struct State {
    pub index: usize,
    pub len: usize,
}

/// Which buttons a page shows.
#[derive(Debug, Clone, Copy, PartialEq, Eq, Structural)]
pub enum PageButtons {
    NextOnly,
    PrevOnly,
    Both,
}

/// The index after pressing the button `choice` on page `index` of `len`: one more for a
/// `next` button unless on the last page, one less for a `prev` button unless on the first.
pub open spec fn next_index(index: nat, len: nat, choice: Seq<char>) -> nat {
    if has_prefix(choice, "next"@) && index + 1 < len {
        index + 1
    } else if has_prefix(choice, "prev"@) && index > 0 {
        (index - 1) as nat
    } else {
        index
    }
}

impl State {
    /// The shown result is one of the results.
    pub open spec fn wf(self) -> bool {
        self.index < self.len
    }

    /// The first of `len` results.
    pub fn new(len: usize) -> (s: State)
        requires
            len >= 1,
        ensures
            s.wf(),
            s.index == 0,
            s.len == len,
    {
        State { index: 0, len }
    }

    /// Follows a press of the button with id `choice`.
    pub fn press(&mut self, choice: &str)
        requires
            old(self).wf(),
        ensures
            final(self).wf(),
            final(self).len == old(self).len,
            final(self).index == next_index(old(self).index as nat, old(self).len as nat, choice@),
    {
        proof {
            reveal_strlit("next");
            reveal_strlit("prev");
        }
        if str_starts_with(choice, "next") && self.index < self.len - 1 {
            self.index = self.index + 1;
        } else if str_starts_with(choice, "prev") && self.index > 0 {
            self.index = self.index - 1;
        }
    }

    /// The buttons of the page: only `next` on the first, only `prev` on the last, both
    /// between.
    pub fn buttons(&self) -> (b: PageButtons)
        requires
            self.wf(),
        ensures
            b == if self.index == 0 {
                PageButtons::NextOnly
            } else if self.index + 1 == self.len {
                PageButtons::PrevOnly
            } else {
                PageButtons::Both
            },
    {
        if self.index == 0 {
            PageButtons::NextOnly
        } else if self.index == self.len - 1 {
            PageButtons::PrevOnly
        } else {
            PageButtons::Both
        }
    }
}

/// Law: every press keeps the shown result among the results, pressing `next` and then
/// `prev` away from the last page comes back, and pressing `prev` and then `next` away from
/// the first page comes back.
pub proof fn paging_laws(index: nat, len: nat, choice: Seq<char>)
    requires
        index < len,
    ensures
        next_index(index, len, choice) < len,
        index + 1 < len ==> next_index(next_index(index, len, "next"@), len, "prev"@) == index,
        index > 0 ==> next_index(next_index(index, len, "prev"@), len, "next"@) == index,
{
    reveal_strlit("next");
    reveal_strlit("prev");
    assert("next"@.take(4) =~= "next"@);
    assert("prev"@.take(4) =~= "prev"@);
    assert("next"@.take(4)[0] != "prev"@[0]);
    assert("prev"@.take(4)[0] != "next"@[0]);
}

/// The ids of the `next` and `prev` buttons of page `index` of the command with id `ctx_id`.
pub fn button_ids(ctx_id: u64, index: usize) -> (ids: (String, String))
    ensures
        ids.0@ == "next_"@ + decimal_digits(ctx_id as nat) + "_"@ + decimal_digits(index as nat),
        ids.1@ == "prev_"@ + decimal_digits(ctx_id as nat) + "_"@ + decimal_digits(index as nat),
{
    let mut next = String::new();
    push_str(&mut next, "next_");
    push_decimal(&mut next, ctx_id);
    push_str(&mut next, "_");
    push_decimal(&mut next, index as u64);
    let mut prev = String::new();
    push_str(&mut prev, "prev_");
    push_decimal(&mut prev, ctx_id);
    push_str(&mut prev, "_");
    push_decimal(&mut prev, index as u64);
    assert(next@ =~= "next_"@ + decimal_digits(ctx_id as nat) + "_"@ + decimal_digits(index as nat));
    assert(prev@ =~= "prev_"@ + decimal_digits(ctx_id as nat) + "_"@ + decimal_digits(index as nat));
    (next, prev)
}

/// Which text a translation page shows: the translation on the first page, else the
/// alternative before the page's index.
pub fn translation_choice(index: usize) -> (alt: Option<usize>)
    ensures
        index == 0 ==> alt is None,
        index > 0 ==> alt == Some((index - 1) as usize),
{
    if index == 0 {
        None
    } else {
        Some(index - 1)
    }
}

} // verus!

//! Rock paper scissors.
use vstd::prelude::*;
use crate::text::{
    decimal_digits, has_prefix, lowercase_of, push_decimal, push_str, str_starts_with, to_lowercase,
};

verus! {

/// Who wins a round.
#[derive(Debug, Clone, Copy, PartialEq, Eq, Structural)]
pub enum RpsOutcome {
    AuthorWins,
    TargetWins,
    Draw,
}

/// The three choices of the game.
pub open spec fn is_choice(s: Seq<char>) -> bool {
    s == "rock"@ || s == "paper"@ || s == "scissors"@
}

/// Choice `a` beats choice `b`.
pub open spec fn beats(a: Seq<char>, b: Seq<char>) -> bool {
    (a == "rock"@ && b == "scissors"@) || (a == "paper"@ && b == "rock"@) || (a == "scissors"@ && b
        == "paper"@)
}

/// The outcome of a round: the author wins when their choice beats the target's, it is a
/// draw when both chose the same, and the target wins otherwise.
pub open spec fn outcome_spec(author: Seq<char>, target: Seq<char>) -> RpsOutcome {
    if beats(author, target) {
        RpsOutcome::AuthorWins
    } else if author == target {
        RpsOutcome::Draw
    } else {
        RpsOutcome::TargetWins
    }
}

/// Whether `s` is one of `rock`, `paper` and `scissors`.
pub fn is_valid_choice(s: &str) -> (b: bool)
    ensures
        b == is_choice(s@),
{
    let rock = String::from_str("rock");
    let paper = String::from_str("paper");
    let scissors = String::from_str("scissors");
    let t = String::from_str(s);
    t == rock || t == paper || t == scissors
}

/// The outcome of a round between the author's choice and the target's.
pub fn rps_outcome(author: &str, target: &str) -> (o: RpsOutcome)
    ensures
        o == outcome_spec(author@, target@),
{
    let a = String::from_str(author);
    let t = String::from_str(target);
    let rock = String::from_str("rock");
    let paper = String::from_str("paper");
    let scissors = String::from_str("scissors");
    if (a == rock && t == scissors) || (a == paper && t == rock) || (a == scissors && t == paper) {
        RpsOutcome::AuthorWins
    } else if a == t {
        RpsOutcome::Draw
    } else {
        RpsOutcome::TargetWins
    }
}

/// Law: for two valid choices, the author wins exactly when the target would win with the
/// roles swapped, and a draw stays a draw.
pub proof fn rps_symmetric(a: Seq<char>, b: Seq<char>)
    requires
        is_choice(a),
        is_choice(b),
    ensures
        (outcome_spec(a, b) == RpsOutcome::AuthorWins) == (outcome_spec(b, a)
            == RpsOutcome::TargetWins),
        (outcome_spec(a, b) == RpsOutcome::Draw) == (outcome_spec(b, a) == RpsOutcome::Draw),
        (outcome_spec(a, b) == RpsOutcome::Draw) == (a == b),
{
    reveal_strlit("rock");
    reveal_strlit("paper");
    reveal_strlit("scissors");
    assert("rock"@ != "paper"@) by {
        assert("rock"@[0] != "paper"@[0]);
    }
    assert("rock"@ != "scissors"@) by {
        assert("rock"@[0] != "scissors"@[0]);
    }
    assert("paper"@ != "scissors"@) by {
        assert("paper"@[0] != "scissors"@[0]);
    }
}

/// The choices among `rock`, `paper` and `scissors` that begin with `partial`, in that order.
pub open spec fn matching_choices(partial: Seq<char>) -> Seq<Seq<char>> {
    (if has_prefix("rock"@, partial) { seq!["rock"@] } else { Seq::empty() }) + (if has_prefix(
        "paper"@,
        partial,
    ) {
        seq!["paper"@]
    } else {
        Seq::empty()
    }) + (if has_prefix("scissors"@, partial) { seq!["scissors"@] } else { Seq::empty() })
}

/// The choices offered while typing: those among `rock`, `paper`, `scissors` that begin
/// with what was typed, in that order.
pub fn autocomplete_choice(partial: &str) -> (choices: Vec<&'static str>)
    ensures
        choices@.map_values(|c: &'static str| c@) == matching_choices(partial@),
{
    let mut choices: Vec<&'static str> = Vec::new();
    if str_starts_with("rock", partial) {
        choices.push("rock");
    }
    if str_starts_with("paper", partial) {
        choices.push("paper");
    }
    if str_starts_with("scissors", partial) {
        choices.push("scissors");
    }
    assert(choices@.map_values(|c: &'static str| c@) =~= matching_choices(partial@));
    choices
}

/// The ids of the rock, paper and scissors buttons of the command with id `ctx_id`.
pub fn rps_button_ids(ctx_id: u64) -> (ids: (String, String, String))
    ensures
        ids.0@ == decimal_digits(ctx_id as nat) + "_r"@,
        ids.1@ == decimal_digits(ctx_id as nat) + "_p"@,
        ids.2@ == decimal_digits(ctx_id as nat) + "_s"@,
{
    let mut r = String::new();
    push_decimal(&mut r, ctx_id);
    push_str(&mut r, "_r");
    let mut p = String::new();
    push_decimal(&mut p, ctx_id);
    push_str(&mut p, "_p");
    let mut s = String::new();
    push_decimal(&mut s, ctx_id);
    push_str(&mut s, "_s");
    assert(r@ =~= decimal_digits(ctx_id as nat) + "_r"@);
    assert(p@ =~= decimal_digits(ctx_id as nat) + "_p"@);
    assert(s@ =~= decimal_digits(ctx_id as nat) + "_s"@);
    (r, p, s)
}

/// The choice that a button of the game with id `ctx_id` names: rock, paper or scissors,
/// by the ids that `rps_button_ids` gives; `None` for any other id.
pub fn button_choice(ctx_id: u64, custom_id: &str) -> (c: Option<&'static str>)
    ensures
        ({
            let d = decimal_digits(ctx_id as nat);
            match c {
                Some(w) => (custom_id@ == d + "_r"@ && w@ == "rock"@) || (custom_id@ == d + "_p"@
                    && w@ == "paper"@) || (custom_id@ == d + "_s"@ && w@ == "scissors"@),
                None => custom_id@ != d + "_r"@ && custom_id@ != d + "_p"@ && custom_id@ != d + "_s"@,
            }
        }),
{
    let (rock_id, paper_id, scissor_id) = rps_button_ids(ctx_id);
    let id = String::from_str(custom_id);
    if id == rock_id {
        Some("rock")
    } else if id == paper_id {
        Some("paper")
    } else if id == scissor_id {
        Some("scissors")
    } else {
        None
    }
}

/// The author's choice as typed, in lower case, when it is one of the three choices.
pub fn author_choice(choice: &str) -> (r: Option<String>)
    ensures
        match r {
            Some(c) => c@ == lowercase_of(choice@) && is_choice(c@),
            None => !is_choice(lowercase_of(choice@)),
        },
{
    let lowered = to_lowercase(choice);
    if is_valid_choice(lowered.as_str()) {
        Some(lowered)
    } else {
        None
    }
}

} // verus!

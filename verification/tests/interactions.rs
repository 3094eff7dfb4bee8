use fabsebot::games::{autocomplete_choice, button_choice, is_valid_choice, rps_button_ids, rps_outcome, RpsOutcome};
use fabsebot::paging::{button_ids, translation_choice, PageButtons, State};
use fabsebot::poll::{poll_buttons, poll_options, Poll, VoteOutcome};
use fabsebot::quote::{font_index, quote_author, quote_component_ids, quote_file_name, restyle, QuoteStyle};
use fabsebot::ranking::{leaderboard_title, rank_field_name, top_ranking, word_count_title, RANKING_SIZE};

#[test]
fn paging_moves_within_bounds() {
    let mut s = State::new(3);
    assert_eq!(s.buttons(), PageButtons::NextOnly);
    s.press("prev_1_0");
    assert_eq!(s.index, 0);
    s.press("next_1_0");
    assert_eq!(s.index, 1);
    assert_eq!(s.buttons(), PageButtons::Both);
    s.press("next_1_1");
    assert_eq!(s.index, 2);
    assert_eq!(s.buttons(), PageButtons::PrevOnly);
    s.press("next_1_2");
    assert_eq!(s.index, 2);
    s.press("other");
    assert_eq!(s.index, 2);
}

#[test]
fn next_then_prev_comes_back() {
    let mut s = State::new(5);
    s.press("next");
    s.press("next");
    let before = s.index;
    s.press("next");
    s.press("prev");
    assert_eq!(s.index, before);
}

#[test]
fn page_button_ids() {
    assert_eq!(button_ids(42, 3), ("next_42_3".to_string(), "prev_42_3".to_string()));
    assert_eq!(translation_choice(0), None);
    assert_eq!(translation_choice(2), Some(1));
}

#[test]
fn rock_paper_scissors_rules() {
    assert_eq!(rps_outcome("rock", "scissors"), RpsOutcome::AuthorWins);
    assert_eq!(rps_outcome("paper", "rock"), RpsOutcome::AuthorWins);
    assert_eq!(rps_outcome("scissors", "paper"), RpsOutcome::AuthorWins);
    assert_eq!(rps_outcome("rock", "paper"), RpsOutcome::TargetWins);
    assert_eq!(rps_outcome("paper", "paper"), RpsOutcome::Draw);
    assert_eq!(rps_outcome("rock", "5_r"), RpsOutcome::TargetWins);
}

#[test]
fn rps_is_symmetric_on_choices() {
    let all = ["rock", "paper", "scissors"];
    for a in all {
        for b in all {
            let ab = rps_outcome(a, b);
            let ba = rps_outcome(b, a);
            match ab {
                RpsOutcome::AuthorWins => assert_eq!(ba, RpsOutcome::TargetWins),
                RpsOutcome::TargetWins => assert_eq!(ba, RpsOutcome::AuthorWins),
                RpsOutcome::Draw => assert_eq!(ba, RpsOutcome::Draw),
            }
        }
    }
}

#[test]
fn rps_choices_and_ids() {
    assert!(is_valid_choice("paper"));
    assert!(!is_valid_choice("Paper"));
    assert_eq!(autocomplete_choice(""), vec!["rock", "paper", "scissors"]);
    assert_eq!(autocomplete_choice("s"), vec!["scissors"]);
    assert_eq!(autocomplete_choice("x"), Vec::<&str>::new());
    assert_eq!(
        rps_button_ids(9),
        ("9_r".to_string(), "9_p".to_string(), "9_s".to_string())
    );
}

#[test]
fn poll_options_are_trimmed_and_nonempty() {
    assert_eq!(poll_options(" yes , no,, maybe ,"), vec!["yes", "no", "maybe"]);
    assert!(poll_options(" , ").is_empty());
}

#[test]
fn poll_buttons_name_their_options() {
    let b = poll_buttons(77, 3);
    assert_eq!(
        b,
        vec![
            ("77_0".to_string(), "1".to_string()),
            ("77_1".to_string(), "2".to_string()),
            ("77_2".to_string(), "3".to_string()),
        ]
    );
}

#[test]
fn each_user_votes_once() {
    let mut p = Poll::new(2);
    assert_eq!(p.vote(10, "77_1"), VoteOutcome::Counted(1));
    assert_eq!(p.vote(10, "77_0"), VoteOutcome::AlreadyVoted);
    assert_eq!(p.vote(11, "77_1"), VoteOutcome::Counted(1));
    assert_eq!(p.vote(12, "77_5"), VoteOutcome::Ignored);
    assert_eq!(p.vote(12, "77_0"), VoteOutcome::AlreadyVoted);
    assert_eq!(p.vote(13, "77"), VoteOutcome::Ignored);
    assert_eq!(p.counts, vec![0, 2]);
    assert_eq!(p.voters, vec![10, 11, 12, 13]);
    assert!(p.has_voted(13));
    assert!(!p.has_voted(14));
}

#[test]
fn poll_button_ids_count_for_their_option() {
    let buttons = poll_buttons(5, 4);
    let mut p = Poll::new(4);
    for (i, (id, _)) in buttons.iter().enumerate() {
        assert_eq!(p.vote(100 + i as u64, id), VoteOutcome::Counted(i));
    }
    assert_eq!(p.counts, vec![1, 1, 1, 1]);
}

#[test]
fn ranking_is_stable_and_descending() {
    let counts = vec![5, 9, 5, 1, 9];
    assert_eq!(top_ranking(&counts, 25), vec![1, 4, 0, 2, 3]);
    assert_eq!(top_ranking(&counts, 2), vec![1, 4]);
    assert_eq!(top_ranking(&Vec::new(), 25), Vec::<usize>::new());
}

#[test]
fn ranking_matches_stable_sort() {
    let counts: Vec<i64> = (0..60).map(|i| (i * 37 % 11) as i64 - 3).collect();
    let mut idx: Vec<usize> = (0..counts.len()).collect();
    idx.sort_by(|a, b| counts[*b].cmp(&counts[*a]));
    idx.truncate(RANKING_SIZE);
    assert_eq!(top_ranking(&counts, RANKING_SIZE), idx);
}

#[test]
fn ranking_texts() {
    assert_eq!(rank_field_name(0, "bob"), "#1 bob");
    assert_eq!(leaderboard_title(3), "Top 3 users by message count");
    assert_eq!(word_count_title(25), "Top 25 word tracked by count");
}

#[test]
fn quote_style_buttons_toggle() {
    let mut s = QuoteStyle::new();
    restyle(&mut s, None, "12_bw");
    assert!(s.is_bw);
    restyle(&mut s, None, "12_reverse");
    assert!(s.is_reverse);
    restyle(&mut s, None, "12_bw");
    assert!(!s.is_bw);
    restyle(&mut s, Some("RampartOne-Regular"), "12_font_option");
    assert_eq!(s.font, 2);
    restyle(&mut s, Some("Comic Sans"), "12_light");
    assert!(s.is_light);
    assert_eq!(s.font, 2);
    assert_eq!(font_index("Satoshi-LightItalic"), Some(1));
}

#[test]
fn quote_texts() {
    assert_eq!(
        quote_component_ids(8),
        vec!["8_bw", "8_reverse", "8_light", "8_gradient", "8_font_option"]
    );
    assert_eq!(quote_file_name(true), "quote.gif");
    assert_eq!(quote_file_name(false), "quote.webp");
    assert_eq!(quote_author("bob"), "- bob");
}

#[test]
fn buttons_name_the_target_choice() {
    assert_eq!(button_choice(42, "42_r"), Some("rock"));
    assert_eq!(button_choice(42, "42_p"), Some("paper"));
    assert_eq!(button_choice(42, "42_s"), Some("scissors"));
    assert_eq!(button_choice(42, "43_r"), None);
    assert_eq!(button_choice(42, "42_x"), None);
    assert_eq!(rps_outcome("rock", button_choice(7, "7_s").unwrap()), RpsOutcome::AuthorWins);
}

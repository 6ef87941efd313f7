use batting::{Game, Over};

fn over(balls: Vec<u32>, flags: Vec<bool>) -> Over {
    Over::try_new(balls, flags).expect("both sequences must hold six entries")
}

fn plain_over(balls: Vec<u32>) -> Over {
    over(balls, vec![false; 6])
}

#[test]
fn maiden_over_zero_total() {
    let o = plain_over(vec![0, 0, 0, 0, 0, 0]);
    assert!(o.is_maiden());
    assert_eq!(o.total_runs(), 0);
}

#[test]
fn maiden_over_zero_total_even_doubled() {
    let o = over(vec![0, 0, 0, 0, 0, 0], vec![true; 6]);
    assert!(o.is_maiden());
    assert_eq!(o.total_runs(), 0);
}

#[test]
fn not_maiden_with_any_run() {
    let o = plain_over(vec![0, 0, 1, 0, 0, 0]);
    assert!(!o.is_maiden());
}

#[test]
fn total_runs_matches_hand_sum() {
    let cases: Vec<(Vec<u32>, Vec<bool>)> = vec![
        (vec![1, 2, 3, 4, 5, 6], vec![false, true, false, true, false, true]),
        (vec![0, 6, 0, 6, 0, 6], vec![true, true, true, true, true, true]),
        (vec![4, 6, 0, 2, 5, 1], vec![true, false, false, false, true, false]),
        (vec![3, 3, 3, 3, 3, 3], vec![false; 6]),
    ];
    for (balls, flags) in cases {
        let o = over(balls.clone(), flags.clone());
        let mut by_hand: u64 = 0;
        for k in 0..6 {
            by_hand += u64::from(balls[k]) * if flags[k] { 2 } else { 1 };
        }
        assert_eq!(o.total_runs(), by_hand);
    }
}

#[test]
fn doubling_never_decreases_total() {
    let balls = vec![1, 2, 3, 4, 5, 6];
    let none = plain_over(balls.clone());
    let some = over(balls.clone(), vec![true, false, true, false, false, false]);
    let all = over(balls, vec![true; 6]);
    assert_eq!(none.total_runs(), 21);
    assert_eq!(some.total_runs(), 25);
    assert_eq!(all.total_runs(), 42);
    assert!(none.total_runs() <= some.total_runs());
    assert!(some.total_runs() <= all.total_runs());
}

#[test]
fn all_boundaries_counts_fives() {
    let o = plain_over(vec![5, 5, 5, 5, 5, 5]);
    assert!(o.all_boundaries());
}

#[test]
fn all_boundaries_standard_values() {
    assert!(plain_over(vec![4, 6, 4, 6, 4, 6]).all_boundaries());
    assert!(!plain_over(vec![4, 4, 4, 3, 4, 4]).all_boundaries());
}

#[test]
fn first_and_last_two_sixes() {
    let o = plain_over(vec![6, 6, 0, 0, 1, 2]);
    assert!(o.first_two_sixes());
    assert!(!o.last_two_sixes());
    let o = plain_over(vec![0, 1, 2, 3, 6, 6]);
    assert!(!o.first_two_sixes());
    assert!(o.last_two_sixes());
}

#[test]
fn try_new_rejects_wrong_lengths() {
    assert!(Over::try_new(vec![1, 2, 3], vec![false; 6]).is_none());
    assert!(Over::try_new(vec![1, 2, 3, 4, 5, 6], vec![false; 5]).is_none());
    assert!(Over::try_new(vec![1, 2, 3, 4, 5, 6, 0], vec![false; 7]).is_none());
    assert!(Over::try_new(vec![1, 2, 3, 4, 5, 6], vec![false; 6]).is_some());
}

#[test]
fn quiet_overs_stay_untwisted() {
    let mut game = Game::new();
    game.add_over(plain_over(vec![1, 2, 3, 4, 5, 6]));
    game.add_over(plain_over(vec![2, 6, 0, 0, 4, 4]));
    game.apply_twists();
    for o in &game.overs {
        assert!(o.is_doubled.iter().all(|&d| !d));
    }
    assert!(game.extra_overs.is_empty());
    assert_eq!(game.total_score(), 21 + 16);
}

#[test]
fn opening_all_sixes_doubles_next_two_overs() {
    let mut game = Game::new();
    game.add_over(plain_over(vec![6, 6, 6, 6, 6, 6]));
    game.add_over(plain_over(vec![1, 1, 1, 1, 1, 1]));
    game.add_over(plain_over(vec![2, 2, 2, 2, 2, 2]));
    game.apply_twists();
    assert!(game.overs[1].is_doubled.iter().all(|&d| d));
    assert!(game.overs[2].is_doubled.iter().all(|&d| d));
    // The opening over itself triggers the two-sixes rule as well, but
    // that rule only doubles balls scoring under 4, and every ball of
    // this over scored 6: its own flags stay clear.
    assert!(game.overs[0].is_doubled.iter().all(|&d| !d));
    assert_eq!(game.total_score(), 36 + 12 + 24);
}

#[test]
fn first_two_sixes_doubles_small_tail() {
    let mut game = Game::new();
    game.add_over(plain_over(vec![6, 6, 1, 4, 2, 6]));
    game.apply_twists();
    assert_eq!(game.overs[0].is_doubled, vec![false, false, true, false, true, false]);
    assert_eq!(game.total_score(), 6 + 6 + 2 + 4 + 4 + 6);
}

#[test]
fn last_two_sixes_doubles_next_over() {
    let mut game = Game::new();
    game.add_over(plain_over(vec![0, 0, 0, 0, 6, 6]));
    game.add_over(plain_over(vec![1, 0, 0, 0, 0, 0]));
    game.apply_twists();
    assert!(game.overs[1].is_doubled.iter().all(|&d| d));
    assert!(game.overs[0].is_doubled.iter().all(|&d| !d));
    assert_eq!(game.total_score(), 12 + 2);
}

#[test]
fn first_and_last_two_sixes_same_over() {
    let mut game = Game::new();
    game.add_over(plain_over(vec![6, 6, 0, 0, 6, 6]));
    game.add_over(plain_over(vec![1, 0, 0, 0, 0, 0]));
    game.apply_twists();
    // Rule 2 doubles only the two middle zeros; rule 3 doubles the
    // whole next over.
    assert_eq!(game.overs[0].is_doubled, vec![false, false, true, true, false, false]);
    assert!(game.overs[1].is_doubled.iter().all(|&d| d));
    assert_eq!(game.total_score(), 24 + 2);
}

#[test]
fn all_boundaries_doubles_next_two_overs() {
    let mut game = Game::new();
    game.add_over(plain_over(vec![4, 4, 4, 4, 4, 4]));
    game.add_over(plain_over(vec![1, 2, 3, 4, 5, 6]));
    game.add_over(plain_over(vec![2, 2, 2, 2, 2, 2]));
    game.add_over(plain_over(vec![3, 3, 3, 3, 3, 3]));
    game.apply_twists();
    assert!(game.overs[1].is_doubled.iter().all(|&d| d));
    assert!(game.overs[2].is_doubled.iter().all(|&d| d));
    assert!(game.overs[3].is_doubled.iter().all(|&d| !d));
    assert!(game.extra_overs.is_empty());
    assert_eq!(game.total_score(), 24 + 42 + 24 + 18);
}

#[test]
fn tenth_over_all_boundaries_appends_two_bonus_overs() {
    let mut game = Game::new();
    for _ in 0..9 {
        game.add_over(plain_over(vec![1, 1, 1, 1, 1, 1]));
    }
    game.add_over(plain_over(vec![4, 5, 6, 4, 4, 4]));
    game.apply_twists();
    assert_eq!(game.extra_overs.len(), 2);
    for extra in &game.extra_overs {
        assert!(extra.balls.iter().all(|&b| b == 0));
        assert!(extra.is_doubled.iter().all(|&d| d));
        assert_eq!(extra.total_runs(), 0);
    }
    assert_eq!(game.total_score(), 9 * 6 + 27);
}

#[test]
fn ninth_over_all_boundaries_appends_nothing() {
    let mut game = Game::new();
    for _ in 0..8 {
        game.add_over(plain_over(vec![1, 1, 1, 1, 1, 1]));
    }
    game.add_over(plain_over(vec![4, 4, 4, 4, 4, 4]));
    game.apply_twists();
    assert!(game.extra_overs.is_empty());
}

#[test]
fn display_format() {
    let o = Over::new(
        vec![4, 6, 0, 2, 5, 1],
        vec![true, false, false, false, true, false],
    );
    assert_eq!(o.display(), "(*4x2, *6, 0, 2, *5x2, 1)");
}

#[test]
fn display_multi_digit_runs() {
    let o = plain_over(vec![10, 0, 0, 0, 0, 0]);
    assert_eq!(o.display(), "(*10, 0, 0, 0, 0, 0)");
}

#[test]
fn display_all_doubled_zeros() {
    let o = over(vec![0, 0, 0, 0, 0, 0], vec![true; 6]);
    assert_eq!(o.display(), "(0x2, 0x2, 0x2, 0x2, 0x2, 0x2)");
}

#[test]
fn empty_game_scorecard() {
    let mut game = Game::new();
    game.apply_twists();
    assert_eq!(game.total_score(), 0);
    assert_eq!(game.display_scorecard(), "Scorecard:\nFinal Score: 0\n");
}

#[test]
fn scorecard_lists_overs_and_score() {
    let mut game = Game::new();
    game.add_over(plain_over(vec![1, 2, 3, 4, 5, 6]));
    game.apply_twists();
    assert_eq!(
        game.display_scorecard(),
        "Scorecard:\nOver 1: (1, 2, 3, *4, *5, *6)\nFinal Score: 21\n"
    );
}

#[test]
fn scorecard_lists_extra_overs() {
    let mut game = Game::new();
    for _ in 0..9 {
        game.add_over(plain_over(vec![0, 0, 0, 0, 0, 0]));
    }
    game.add_over(plain_over(vec![6, 6, 6, 6, 6, 6]));
    game.apply_twists();
    let card = game.display_scorecard();
    assert!(card.starts_with("Scorecard:\nOver 1: (0, 0, 0, 0, 0, 0)\n"));
    assert!(card.contains("Over 10: (*6, *6, *6, *6, *6, *6)\n"));
    assert!(card.contains("Extra Over 1: (0x2, 0x2, 0x2, 0x2, 0x2, 0x2)\n"));
    assert!(card.contains("Extra Over 2: (0x2, 0x2, 0x2, 0x2, 0x2, 0x2)\n"));
    assert!(card.ends_with("Final Score: 36\n"));
}

use guinote::score::{Score, Side, WIN_THRESHOLD};

#[test]
fn awards_never_lower_a_score() {
    let mut s = Score::new();
    let awards = [(Side::Player, 10u16), (Side::Opponent, 0), (Side::Opponent, 21), (Side::Player, 4)];
    let mut prev = s;
    for (side, amount) in awards {
        s.award_points(side, amount);
        assert!(s.player >= prev.player);
        assert!(s.opponent >= prev.opponent);
        prev = s;
    }
    assert_eq!(s.player, 14);
    assert_eq!(s.opponent, 21);
}

#[test]
fn awards_saturate_instead_of_overflowing() {
    let mut s = Score::new();
    s.award_points(Side::Player, u16::MAX - 1);
    s.award_points(Side::Player, 5);
    assert_eq!(s.player, u16::MAX);
    assert_eq!(s.opponent, 0);
}

#[test]
fn win_threshold() {
    let mut s = Score::new();
    s.award_points(Side::Opponent, 100);
    assert!(!s.has_won(Side::Opponent, WIN_THRESHOLD));
    s.award_points(Side::Opponent, 1);
    assert!(s.has_won(Side::Opponent, WIN_THRESHOLD));
    assert!(!s.has_won(Side::Player, WIN_THRESHOLD));
    assert_eq!(s.points(Side::Opponent), 101);
    s.reset_for_new_round();
    assert_eq!(s, Score::new());
}

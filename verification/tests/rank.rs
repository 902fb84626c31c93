use editor_core::save_file::dwarfs::Rank;

#[test]
fn promotion_follows_retirement_count() {
    assert_eq!(Rank::new(0, 5).promotion, "Silver 2");
    assert_eq!(Rank::new(0, 18).promotion, "Legendary 3");
    assert_eq!(Rank::new(0, 19).promotion, "Legendary 3+");
    assert_eq!(Rank::new(0, 2000).promotion, "Legendary 3+");
    assert_eq!(Rank::new(0, 0).promotion, "None");
}

#[test]
fn level_and_progress_follow_the_table() {
    assert_eq!(Rank::new(10000, 0).xp_to_level(), (3, 3000));
    assert_eq!(Rank::new(0, 0).xp_to_level(), (1, 0));
    assert_eq!(Rank::new(2999, 0).xp_to_level(), (1, 2999));
    assert_eq!(Rank::new(3000, 0).xp_to_level(), (2, 0));
    assert_eq!(Rank::new(314999, 0).xp_to_level(), (24, 20499));
    assert_eq!(Rank::new(315000, 0).xp_to_level(), (25, 0));
    assert_eq!(Rank::new(i32::MAX, 0).xp_to_level(), (25, 0));
}

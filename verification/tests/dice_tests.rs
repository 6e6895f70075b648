use simulator::dice::DiceRoll;

#[test]
fn roll_is_never_negative_and_within_bounds() {
    let d = DiceRoll::new(2, 6, 0);
    for _ in 0..200 {
        let r = d.roll();
        assert!(r >= 2);
        assert!(r <= 12);
    }
}

#[test]
fn roll_with_negative_modifier_floors_at_zero() {
    let d = DiceRoll::new(1, 4, -4);
    for _ in 0..200 {
        let r = d.roll();
        assert!(r >= 0);
        assert!(r <= 0);
    }
}

#[test]
fn roll_lower_bound_includes_modifier() {
    let d = DiceRoll::new(1, 4, -1);
    for _ in 0..200 {
        let r = d.roll();
        assert!(r >= 0);
        assert!(r <= 3);
    }
}

#[test]
fn average_x2_matches_closed_form() {
    // average(c, s, m) == c * (1 + s) / 2 + m, kept exact by doubling.
    assert_eq!(DiceRoll::new(1, 6, 0).average_x2(), 7); // 3.5
    assert_eq!(DiceRoll::new(2, 4, 0).average_x2(), 10); // 5.0
    assert_eq!(DiceRoll::new(1, 8, 0).average_x2(), 9); // 4.5
    assert_eq!(DiceRoll::new(1, 4, -1).average_x2(), 3); // 1.5
    assert_eq!(DiceRoll::new(0, 0, 3).average_x2(), 6); // 3.0
}

#[test]
fn zero_dice_roll_is_the_modifier_floored() {
    let d = DiceRoll::new(0, 0, 2);
    assert_eq!(d.roll(), 2);
    let neg = DiceRoll::new(0, 0, -2);
    assert_eq!(neg.roll(), 0);
}

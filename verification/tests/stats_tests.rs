use simulator::stats::{CardStats, CombatStats};

fn find(table: &Vec<(String, CardStats)>, key: &str) -> Option<CardStats> {
    for (name, st) in table.iter() {
        if name == key {
            return Some(*st);
        }
    }
    None
}

#[test]
fn record_play_creates_and_increments() {
    let mut s = CombatStats::new();
    s.record_play("Bola de foc", "MagicAttack");
    s.record_play("Bola de foc", "MagicAttack");
    s.record_play("Escut de fusta", "Defense");
    let fireball = find(&s.card_stats, "Bola de foc").unwrap();
    assert_eq!(fireball.plays, 2);
    assert_eq!(fireball.plays_by_winner, 0);
    assert_eq!(fireball.interrupted, 0);
    let shield = find(&s.card_stats, "Escut de fusta").unwrap();
    assert_eq!(shield.plays, 1);
    let magic = find(&s.card_type_stats, "MagicAttack").unwrap();
    assert_eq!(magic.plays, 2);
    assert!(find(&s.card_stats, "Llamp").is_none());
}

#[test]
fn record_winner_and_interrupted_touch_their_own_counters() {
    let mut s = CombatStats::new();
    s.record_play("Venjança", "Focus");
    s.record_winner_play("Venjança", "Focus");
    s.record_interrupted("Venjança", "Focus");
    let v = find(&s.card_stats, "Venjança").unwrap();
    assert_eq!((v.plays, v.plays_by_winner, v.interrupted), (1, 1, 1));
}

#[test]
fn merge_adds_pointwise_and_keeps_disjoint_keys() {
    let mut a = CombatStats::new();
    a.record_play("x", "PhysicalAttack");
    a.record_play("x", "PhysicalAttack");
    a.record_play("y", "Defense");
    let mut b = CombatStats::new();
    b.record_play("x", "PhysicalAttack");
    b.record_winner_play("z", "Focus");
    a.merge(&b);
    assert_eq!(find(&a.card_stats, "x").unwrap().plays, 3);
    assert_eq!(find(&a.card_stats, "y").unwrap().plays, 1);
    let z = find(&a.card_stats, "z").unwrap();
    assert_eq!((z.plays, z.plays_by_winner), (0, 1));
    assert_eq!(find(&a.card_type_stats, "PhysicalAttack").unwrap().plays, 3);
}

#[test]
fn merge_into_empty_copies_the_other_side() {
    let mut a = CombatStats::new();
    let mut b = CombatStats::new();
    b.record_play("only", "Focus");
    a.merge(&b);
    assert_eq!(find(&a.card_stats, "only").unwrap().plays, 1);
}

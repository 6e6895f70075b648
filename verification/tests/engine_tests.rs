use simulator::cards::{Card, CardType, SpecialEffect};
use simulator::character::Character;
use simulator::engine::{rel_get, rel_set, CombatEngine, ConfigError};
use simulator::rounds::{order_actions, RoundAction};

fn fighter_like(name: &str, strength: i32, defense: i32, speed: i32, max_wounds: u32) -> Character {
    let cards = vec![Card::new("strike", CardType::PhysicalAttack)];
    Character::new(name, max_wounds, strength, 0, defense, speed, cards, "Test")
}

#[test]
fn empty_roster_is_the_one_rejected_configuration() {
    let t2 = vec![fighter_like("b", 1, 1, 1, 3)];
    match CombatEngine::new(Vec::new(), t2, false) {
        Err(e) => assert_eq!(e, ConfigError::EmptyRoster),
        Ok(_) => panic!("an empty roster must be rejected"),
    }
    let t1 = vec![fighter_like("a", 1, 1, 1, 3)];
    match CombatEngine::new(t1, Vec::new(), false) {
        Err(e) => assert_eq!(e, ConfigError::EmptyRoster),
        Ok(_) => panic!("an empty roster must be rejected"),
    }
}

#[test]
fn construction_assigns_teams_and_resets_state() {
    let mut a = fighter_like("a", 1, 1, 1, 3);
    a.current_wounds = 2;
    a.stunned = true;
    let b = fighter_like("b", 1, 1, 1, 3);
    let engine = CombatEngine::new(vec![a], vec![b], false).unwrap();
    assert_eq!(engine.team1[0].team, 1);
    assert_eq!(engine.team2[0].team, 2);
    assert_eq!(engine.team1[0].current_wounds, 0);
    assert!(!engine.team1[0].stunned);
    assert_eq!(engine.round_number, 0);
    assert_eq!(engine.max_rounds, 20);
}

#[test]
fn ordering_resolves_faster_actor_first() {
    // Speeds 5 and 3: the speed-5 action always comes out first.
    let actions = vec![
        RoundAction { team: 1, idx: 0, card: 0, speed: 3 },
        RoundAction { team: 2, idx: 0, card: 0, speed: 5 },
    ];
    let sorted = order_actions(&actions);
    assert_eq!(sorted.len(), 2);
    assert_eq!(sorted[0].speed, 5);
    assert_eq!(sorted[0].team, 2);
    assert_eq!(sorted[1].speed, 3);
}

#[test]
fn ordering_breaks_ties_by_submission_order() {
    let actions = vec![
        RoundAction { team: 1, idx: 0, card: 0, speed: 4 },
        RoundAction { team: 1, idx: 1, card: 1, speed: 4 },
        RoundAction { team: 2, idx: 0, card: 2, speed: 4 },
    ];
    let sorted = order_actions(&actions);
    assert_eq!(sorted[0], actions[0]);
    assert_eq!(sorted[1], actions[1]);
    assert_eq!(sorted[2], actions[2]);
}

#[test]
fn ordering_is_stable_descending_overall() {
    let actions = vec![
        RoundAction { team: 1, idx: 0, card: 0, speed: -2 },
        RoundAction { team: 1, idx: 1, card: 0, speed: 7 },
        RoundAction { team: 2, idx: 0, card: 0, speed: 7 },
        RoundAction { team: 2, idx: 1, card: 0, speed: 0 },
    ];
    let sorted = order_actions(&actions);
    let speeds: Vec<i32> = sorted.iter().map(|a| a.speed).collect();
    assert_eq!(speeds, vec![7, 7, 0, -2]);
    assert_eq!(sorted[0].team, 1);
    assert_eq!(sorted[1].team, 2);
}

#[test]
fn name_relations_replace_on_rebinding() {
    let mut rel: Vec<(String, String)> = Vec::new();
    rel_set(&mut rel, "ward".to_owned(), "guard_one".to_owned());
    rel_set(&mut rel, "other".to_owned(), "guard_two".to_owned());
    assert_eq!(rel_get(&rel, &"ward".to_owned()).unwrap(), "guard_one");
    // Rebinding the same protected name replaces the earlier protector.
    rel_set(&mut rel, "ward".to_owned(), "guard_three".to_owned());
    assert_eq!(rel.len(), 2);
    assert_eq!(rel_get(&rel, &"ward".to_owned()).unwrap(), "guard_three");
    assert!(rel_get(&rel, &"nobody".to_owned()).is_none());
}

#[test]
fn single_card_hand_always_selects_index_zero() {
    let a = fighter_like("a", 1, 1, 1, 3);
    let b = fighter_like("b", 1, 1, 1, 3);
    let engine = CombatEngine::new(vec![a], vec![b], false).unwrap();
    for _ in 0..20 {
        assert_eq!(engine.select_card_ai(&engine.team1[0]), 0);
    }
}

#[test]
fn select_target_prefers_the_most_wounded_living_enemy() {
    let a = fighter_like("a", 1, 1, 1, 3);
    let b1 = fighter_like("b1", 1, 1, 1, 5);
    let b2 = fighter_like("b2", 1, 1, 1, 5);
    let mut engine = CombatEngine::new(vec![a], vec![b1, b2], false).unwrap();
    engine.team2[1].current_wounds = 3;
    engine.team2[0].current_wounds = 1;
    let (team, idx) = engine.select_target(&engine.team1[0]).unwrap();
    assert_eq!((team, idx), (2, 1));
}

#[test]
fn select_target_yields_nothing_without_living_enemies() {
    let a = fighter_like("a", 1, 1, 1, 3);
    let b = fighter_like("b", 1, 1, 1, 3);
    let mut engine = CombatEngine::new(vec![a], vec![b], false).unwrap();
    engine.team2[0].current_wounds = 3;
    assert!(engine.select_target(&engine.team1[0]).is_none());
}

#[test]
fn stunned_attacker_fizzles_without_effect() {
    let a = fighter_like("a", 10, 1, 1, 3);
    let b = fighter_like("b", 1, 0, 1, 3);
    let mut engine = CombatEngine::new(vec![a], vec![b], false).unwrap();
    engine.team1[0].stunned = true;
    let card = engine.team1[0].cards[0].clone();
    engine.resolve_card(1, 0, card);
    assert_eq!(engine.team2[0].current_wounds, 0);
    // The play is still recorded.
    let plays: u64 = engine
        .stats
        .card_stats
        .iter()
        .filter(|(n, _)| n == "strike")
        .map(|(_, s)| s.plays)
        .sum();
    assert_eq!(plays, 1);
}

#[test]
fn interrupted_focus_fizzles_and_is_counted() {
    let cards = vec![
        Card::new("meditate", CardType::Focus).with_effect(SpecialEffect::StrengthBoost(4)),
    ];
    let a = Character::new("a", 3, 1, 0, 1, 1, cards, "Test");
    let b = fighter_like("b", 1, 1, 1, 3);
    let mut engine = CombatEngine::new(vec![a], vec![b], false).unwrap();
    engine.team1[0].focus_interrupted = true;
    let card = engine.team1[0].cards[0].clone();
    engine.resolve_card(1, 0, card);
    // No strength boost was installed.
    assert!(engine.team1[0].modifiers.is_empty());
    let interrupted: u64 = engine
        .stats
        .card_stats
        .iter()
        .filter(|(n, _)| n == "meditate")
        .map(|(_, s)| s.interrupted)
        .sum();
    assert_eq!(interrupted, 1);
}

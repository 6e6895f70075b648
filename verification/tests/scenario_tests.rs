use simulator::cards::{Card, CardType};
use simulator::character::{Character, DefenseGrant};
use simulator::dice::DiceRoll;
use simulator::engine::CombatEngine;
use simulator::roster::{create_fighter, create_goblin, create_goblin_shaman, create_wizard};
use simulator::sim::run_simulation;

fn attacker(name: &str, strength: i32, speed: i32, max_wounds: u32) -> Character {
    let cards = vec![Card::new("strike", CardType::PhysicalAttack)];
    Character::new(name, max_wounds, strength, 0, 0, speed, cards, "Test")
}

fn defender(name: &str, defense: i32, max_wounds: u32) -> Character {
    let cards = vec![Card::new("brace", CardType::PhysicalAttack)];
    Character::new(name, max_wounds, 0, 0, defense, 1, cards, "Test")
}

#[test]
fn defense_grant_is_consumed_exactly_once() {
    // Granting a defense bonus and resolving two attacks applies the bonus
    // to only the first; the second finds the queue empty and the target
    // defends with its own stat.
    let a = attacker("a", 10, 5, 3);
    let t = defender("t", 0, 5);
    let mut engine = CombatEngine::new(vec![a], vec![t], false).unwrap();
    engine.team2[0].defense_bonuses.push(DefenseGrant {
        team: 2,
        idx: 0,
        name: "t".to_owned(),
        base_defense: 100,
        dice: DiceRoll::new(0, 0, 0),
    });
    let card = engine.team1[0].cards[0].clone();

    let first = engine.resolve_attack(1, 0, 2, 0, &card);
    assert!(!first, "the banked defense of 100 must absorb the attack");
    assert!(engine.team2[0].defense_bonuses.is_empty(), "exactly one grant is consumed");
    assert_eq!(engine.team2[0].current_wounds, 0);

    let second = engine.resolve_attack(1, 0, 2, 0, &card);
    assert!(second, "the second attack meets the target's own defense of 0");
    assert_eq!(engine.team2[0].current_wounds, 1);
    assert!(engine.team2[0].defense_bonuses.is_empty());
}

#[test]
fn decided_combat_terminates_immediately_with_the_survivor_as_winner() {
    // One side with a living member against one with none: the combat ends
    // at once, with no further rounds.
    let a = attacker("a", 3, 3, 3);
    let dead = attacker("d", 1, 1, 0);
    let mut engine = CombatEngine::new(vec![a], vec![dead], false).unwrap();
    assert!(!engine.team2[0].is_alive());
    let winner = engine.run_combat();
    assert_eq!(winner, 1);
    assert_eq!(engine.round_number, 0, "no further round may run");
}

#[test]
fn harmless_attacks_run_to_the_round_cap_and_draw() {
    // A fixed attack of exactly 0 against a fixed defense of 1 never lands:
    // the combat runs to the cap and reports a draw with both sides alive.
    let a = defender("a", 1, 3);
    let b = defender("b", 1, 3);
    let mut engine = CombatEngine::new(vec![a], vec![b], false).unwrap();
    let winner = engine.run_combat();
    assert_eq!(winner, 0);
    assert_eq!(engine.round_number, engine.max_rounds);
    assert!(engine.team1[0].is_alive());
    assert!(engine.team2[0].is_alive());
    assert_eq!(engine.team1[0].current_wounds, 0);
    assert_eq!(engine.team2[0].current_wounds, 0);
}

#[test]
fn faster_lethal_attacker_preempts_the_slower_card() {
    // A (speed 10) and B (speed 1) both commit lethal fixed attacks; A's
    // action resolves first, eliminates B, and B's card never resolves.
    let a = attacker("a", 5, 10, 3);
    let mut b = attacker("b", 5, 1, 1);
    b.cards[0] = Card::new("late_blow", CardType::PhysicalAttack);
    let mut engine = CombatEngine::new(vec![a], vec![b], false).unwrap();
    let winner = engine.run_combat();
    assert_eq!(winner, 1);
    assert_eq!(engine.round_number, 1);
    assert!(!engine.team2[0].is_alive());
    assert!(engine.team1[0].is_alive());
    // B's card was selected but never resolved, so it is never recorded.
    assert!(engine.team2_cards_played.is_empty());
    assert!(!engine.stats.card_stats.iter().any(|(n, _)| n == "late_blow"));
    let strike: u64 = engine
        .stats
        .card_stats
        .iter()
        .filter(|(n, _)| n == "strike")
        .map(|(_, s)| s.plays)
        .sum();
    assert_eq!(strike, 1);
}

#[test]
fn factories_build_the_advertised_rosters() {
    let f = create_fighter("hero");
    assert_eq!(f.name, "hero");
    assert_eq!((f.max_wounds, f.strength, f.magic, f.defense, f.speed), (3, 3, 0, 2, 2));
    assert_eq!(f.cards.len(), 6);
    assert_eq!(f.equipment.len(), 2);
    let w = create_wizard("mage");
    assert_eq!((w.max_wounds, w.magic, w.defense), (3, 5, 1));
    assert_eq!(w.cards.len(), 6);
    let g = create_goblin("gob");
    assert_eq!(g.cards.len(), 4);
    let s = create_goblin_shaman("sham");
    assert_eq!(s.cards.len(), 5);
    assert!(s.equipment.is_empty());
}

#[test]
fn simulation_accounts_for_every_combat() {
    let team1: Vec<fn(&str) -> Character> = vec![create_fighter, create_wizard];
    let team2: Vec<fn(&str) -> Character> = vec![create_goblin, create_goblin_shaman];
    let results = run_simulation(&team1, &team2, 5, false);
    assert_eq!(results.num_simulations, 5);
    assert_eq!(results.team1_wins + results.team2_wins + results.draws, 5);
    assert!(results.total_rounds <= 100);
    // Something was played in five combats.
    let total_plays: u64 = results.stats.card_stats.iter().map(|(_, s)| s.plays).sum();
    assert!(total_plays > 0);
}

#[test]
fn full_factory_combat_reaches_a_verdict_code() {
    let t1 = vec![create_fighter("f1"), create_wizard("w1")];
    let t2 = vec![create_goblin("g1"), create_goblin_shaman("s1")];
    let mut engine = CombatEngine::new(t1, t2, false).unwrap();
    let winner = engine.run_combat();
    assert!(winner == 0 || winner == 1 || winner == 2);
    assert!(engine.round_number <= engine.max_rounds);
}

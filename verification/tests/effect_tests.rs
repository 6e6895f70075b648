use simulator::cards::{Card, CardType, SpecialEffect};
use simulator::character::{Character, DefenseGrant};
use simulator::dice::DiceRoll;
use simulator::engine::{rel_get, CombatEngine};
use simulator::modifiers::ModifierDuration;

fn with_cards(name: &str, strength: i32, defense: i32, max_wounds: u32, cards: Vec<Card>) -> Character {
    Character::new(name, max_wounds, strength, 0, defense, 2, cards, "Test")
}

fn strike() -> Card {
    Card::new("strike", CardType::PhysicalAttack)
}

#[test]
fn dodging_recipient_is_missed_and_keeps_grants() {
    let a = with_cards("a", 10, 0, 3, vec![strike()]);
    let b = with_cards("b", 0, 0, 3, vec![strike()]);
    let mut engine = CombatEngine::new(vec![a], vec![b], false).unwrap();
    engine.team2[0].dodging = true;
    engine.team2[0].defense_bonuses.push(DefenseGrant {
        team: 2,
        idx: 0,
        name: "b".to_owned(),
        base_defense: 1,
        dice: DiceRoll::new(0, 0, 0),
    });
    let card = engine.team1[0].cards[0].clone();
    let hit = engine.resolve_attack(1, 0, 2, 0, &card);
    assert!(!hit);
    assert_eq!(engine.team2[0].current_wounds, 0);
    // The dodge gate comes before grant consumption.
    assert_eq!(engine.team2[0].defense_bonuses.len(), 1);
}

#[test]
fn sacrifice_binding_redirects_the_wound_to_the_protector() {
    let a = with_cards("a", 10, 0, 3, vec![strike()]);
    let ward = with_cards("ward", 0, 0, 3, vec![strike()]);
    let guard = with_cards("guard", 0, 0, 3, vec![strike()]);
    let mut engine = CombatEngine::new(vec![a], vec![ward, guard], false).unwrap();
    simulator::engine::rel_set(
        &mut engine.sacrifice_targets,
        "ward".to_owned(),
        "guard".to_owned(),
    );
    let card = engine.team1[0].cards[0].clone();
    let hit = engine.resolve_attack(1, 0, 2, 0, &card);
    assert!(hit);
    assert_eq!(engine.team2[0].current_wounds, 0, "the protected target is untouched");
    assert_eq!(engine.team2[1].current_wounds, 1, "the protector takes the wound");
}

#[test]
fn vengeance_binding_counter_attacks_the_attacker() {
    // The avenger's counter is strength + 1d8 against the attacker's
    // effective defense: strength 20 beats defense 0 whatever the die says.
    let a = with_cards("a", 0, 0, 5, vec![strike()]);
    let ward = with_cards("ward", 0, 30, 5, vec![strike()]);
    let avenger = with_cards("avenger", 20, 0, 5, vec![strike()]);
    let mut engine = CombatEngine::new(vec![a], vec![ward, avenger], false).unwrap();
    simulator::engine::rel_set(
        &mut engine.vengeance_targets,
        "ward".to_owned(),
        "avenger".to_owned(),
    );
    let card = engine.team1[0].cards[0].clone();
    let hit = engine.resolve_attack(1, 0, 2, 0, &card);
    assert!(!hit, "attack 0 cannot beat defense 30");
    assert_eq!(engine.team1[0].current_wounds, 1, "the counter lands exactly one wound");
}

#[test]
fn poisoned_physical_hit_deals_one_extra_wound() {
    let a = with_cards("a", 10, 0, 3, vec![strike()]);
    let b = with_cards("b", 0, 0, 5, vec![strike()]);
    let mut engine = CombatEngine::new(vec![a], vec![b], false).unwrap();
    engine.team1[0].has_poison_weapon = true;
    let card = engine.team1[0].cards[0].clone();
    assert!(engine.resolve_attack(1, 0, 2, 0, &card));
    assert_eq!(engine.team2[0].current_wounds, 2);
}

#[test]
fn miss_absorbed_by_a_grant_does_not_interrupt_the_recipients_focus() {
    // Policy on the open corner of the miss path: a defense grant
    // intercepts the provocation, so neither the recipient nor the donor
    // has a Focus interrupted; only an unshielded miss interrupts.
    let a = with_cards("a", 0, 0, 3, vec![strike()]);
    let focus_cards = vec![
        Card::new("meditate", CardType::Focus).with_effect(SpecialEffect::StrengthBoost(4)),
    ];
    let b = with_cards("b", 0, 0, 3, focus_cards);
    let mut engine = CombatEngine::new(vec![a], vec![b], false).unwrap();
    engine.team2[0].played_card_idx = Some(0);
    engine.team2[0].defense_bonuses.push(DefenseGrant {
        team: 2,
        idx: 0,
        name: "b".to_owned(),
        base_defense: 50,
        dice: DiceRoll::new(0, 0, 0),
    });
    let card = engine.team1[0].cards[0].clone();
    assert!(!engine.resolve_attack(1, 0, 2, 0, &card));
    assert!(!engine.team2[0].focus_interrupted);

    // The same miss without a grant interrupts the committed Focus.
    assert!(!engine.resolve_attack(1, 0, 2, 0, &card));
    assert!(engine.team2[0].focus_interrupted);
}

#[test]
fn absorb_pain_donor_earns_permanent_defense_after_an_absorbed_miss() {
    let a = with_cards("a", 0, 0, 3, vec![strike()]);
    let b = with_cards("b", 0, 0, 3, vec![strike()]);
    let donor = with_cards("donor", 0, 0, 3, vec![strike()]);
    let mut engine = CombatEngine::new(vec![a], vec![b, donor], false).unwrap();
    engine.team2[1].has_absorb_pain = true;
    engine.team2[0].defense_bonuses.push(DefenseGrant {
        team: 2,
        idx: 1,
        name: "donor".to_owned(),
        base_defense: 50,
        dice: DiceRoll::new(0, 0, 0),
    });
    let card = engine.team1[0].cards[0].clone();
    assert!(!engine.resolve_attack(1, 0, 2, 0, &card));
    assert_eq!(engine.team2[1].modifiers.len(), 1);
    let m = &engine.team2[1].modifiers[0];
    assert_eq!(m.stat, "defense");
    assert_eq!(m.value, 1);
    assert_eq!(m.duration, ModifierDuration::RestOfCombat);
}

#[test]
fn skip_turns_effect_sets_the_counter() {
    let fury = Card::new("Fúria enfollida", CardType::PhysicalAttack)
        .with_physical_attack(DiceRoll::new(2, 6, 0))
        .with_effect(SpecialEffect::SkipNextTurns(2));
    let a = with_cards("a", 2, 1, 3, vec![fury]);
    let b = with_cards("b", 0, 50, 3, vec![strike()]);
    let mut engine = CombatEngine::new(vec![a], vec![b], false).unwrap();
    let card = engine.team1[0].cards[0].clone();
    engine.resolve_card(1, 0, card);
    assert_eq!(engine.team1[0].skip_turns, 2);
}

#[test]
fn stun_effect_stuns_the_selected_target() {
    let sword = Card::new("Espasa llarga", CardType::PhysicalAttack)
        .with_effect(SpecialEffect::Stun);
    let a = with_cards("a", 0, 1, 3, vec![sword]);
    let b = with_cards("b", 0, 50, 3, vec![strike()]);
    let mut engine = CombatEngine::new(vec![a], vec![b], false).unwrap();
    let card = engine.team1[0].cards[0].clone();
    engine.resolve_card(1, 0, card);
    assert!(engine.team2[0].stunned);
}

#[test]
fn blood_thirst_wounds_every_already_wounded_enemy() {
    let thirst = Card::new("Set de sang", CardType::Focus)
        .with_effect(SpecialEffect::BloodThirst);
    let a = with_cards("a", 0, 1, 3, vec![thirst]);
    let b1 = with_cards("b1", 0, 1, 5, vec![strike()]);
    let b2 = with_cards("b2", 0, 1, 5, vec![strike()]);
    let mut engine = CombatEngine::new(vec![a], vec![b1, b2], false).unwrap();
    engine.team2[0].current_wounds = 1;
    engine.team2[0].wounded_this_combat = true;
    let card = engine.team1[0].cards[0].clone();
    engine.resolve_card(1, 0, card);
    assert_eq!(engine.team2[0].current_wounds, 2, "a wounded enemy takes one more");
    assert_eq!(engine.team2[1].current_wounds, 0, "an unwounded enemy is spared");
}

#[test]
fn defense_card_banks_the_casters_captured_defense() {
    let shield = Card::new("Escut de fusta", CardType::Defense)
        .with_defense(DiceRoll::new(0, 0, 2));
    let caster = with_cards("caster", 0, 7, 3, vec![shield]);
    let b = with_cards("b", 0, 1, 3, vec![strike()]);
    let mut engine = CombatEngine::new(vec![caster], vec![b], false).unwrap();
    let card = engine.team1[0].cards[0].clone();
    engine.resolve_card(1, 0, card);
    // The caster is its own first living ally: one grant, carrying the
    // captured base defense of 7.
    assert_eq!(engine.team1[0].defense_bonuses.len(), 1);
    let g = &engine.team1[0].defense_bonuses[0];
    assert_eq!(g.base_defense, 7);
    assert_eq!((g.team, g.idx), (1, 0));
}

#[test]
fn sacrifice_card_registers_the_caster_as_interceptor() {
    let sac = Card::new("Sacrifici", CardType::Defense).with_effect(SpecialEffect::Sacrifice);
    let caster = with_cards("caster", 0, 1, 3, vec![sac]);
    let ally = with_cards("ally", 0, 1, 3, vec![strike()]);
    let b = with_cards("b", 0, 1, 3, vec![strike()]);
    let mut engine = CombatEngine::new(vec![caster, ally], vec![b], false).unwrap();
    let card = engine.team1[0].cards[0].clone();
    engine.resolve_card(1, 0, card);
    let bound = rel_get(&engine.sacrifice_targets, &"ally".to_owned()).unwrap();
    assert_eq!(bound, "caster");
}

#[test]
fn dodge_focus_sets_the_flag_and_a_next_turn_speed_bonus() {
    let dodge = Card::new("El·lusió", CardType::Focus)
        .with_effect(SpecialEffect::DodgeWithSpeedBoost);
    let a = with_cards("a", 0, 1, 3, vec![dodge]);
    let b = with_cards("b", 0, 1, 3, vec![strike()]);
    let mut engine = CombatEngine::new(vec![a], vec![b], false).unwrap();
    let card = engine.team1[0].cards[0].clone();
    engine.resolve_card(1, 0, card);
    assert!(engine.team1[0].dodging);
    assert_eq!(engine.team1[0].modifiers.len(), 1);
    assert_eq!(engine.team1[0].modifiers[0].stat, "speed");
    assert_eq!(engine.team1[0].modifiers[0].value, 3);
    assert_eq!(engine.team1[0].modifiers[0].duration, ModifierDuration::NextTurn);
}

#[test]
fn coordinated_ambush_arms_the_allies_against_the_designated_target() {
    let ambush = Card::new("Emboscada coordinada", CardType::Focus)
        .with_effect(SpecialEffect::CoordinatedAmbush);
    let caster = with_cards("caster", 0, 1, 3, vec![ambush]);
    let ally = with_cards("ally", 3, 1, 3, vec![strike()]);
    let b = with_cards("b", 0, 1, 3, vec![strike()]);
    let mut engine = CombatEngine::new(vec![caster, ally], vec![b], false).unwrap();
    let card = engine.team1[0].cards[0].clone();
    engine.resolve_card(1, 0, card);
    assert_eq!(engine.coordinated_ambush_target.as_deref(), Some("b"));
    assert!(engine.team1[0].modifiers.is_empty(), "the caster itself gains nothing");
    assert_eq!(engine.team1[1].modifiers.len(), 1);
    let m = &engine.team1[1].modifiers[0];
    assert_eq!(m.stat, "attack_bonus");
    assert_eq!(m.condition.as_deref(), Some("attacking_b"));
    // The conditional 1d8 applies against the ambushed target only.
    let bonus = engine.team1[1].get_attack_bonus("b");
    assert!((1..=8).contains(&bonus));
    assert_eq!(engine.team1[1].get_attack_bonus("someone_else"), 0);
}

use simulator::cards::{Card, CardType};
use simulator::character::Character;
use simulator::dice::DiceRoll;
use simulator::equipment::{
    create_armadura_de_cuir, create_armadura_de_ferro, create_bracals_de_cuir,
    create_cota_de_malla, EquipmentSlot,
};
use simulator::modifiers::{CombatModifier, ModifierDuration};

fn plain_character(name: &str) -> Character {
    Character::new(name, 3, 2, 1, 1, 4, Vec::new(), "Test")
}

#[test]
fn alive_iff_wounds_below_max() {
    let mut c = plain_character("a");
    assert!(c.is_alive());
    c.current_wounds = 2;
    assert!(c.is_alive());
    c.current_wounds = 3;
    assert!(!c.is_alive());
    c.current_wounds = 4;
    assert!(!c.is_alive());
}

#[test]
fn take_wound_increments_by_exactly_one_and_reports_death() {
    let mut c = plain_character("a");
    assert!(!c.take_wound());
    assert_eq!(c.current_wounds, 1);
    assert!(c.wounded_this_combat);
    assert!(!c.take_wound());
    assert_eq!(c.current_wounds, 2);
    // The third wound reaches max_wounds: the call reports the death.
    assert!(c.take_wound());
    assert_eq!(c.current_wounds, 3);
    assert!(!c.is_alive());
}

#[test]
fn flat_stat_modifiers_sum_exactly() {
    let mut c = plain_character("a");
    c.modifiers.push(CombatModifier::new("strength", 4, ModifierDuration::RestOfCombat));
    c.modifiers.push(CombatModifier::new("strength", -1, ModifierDuration::ThisTurn));
    c.modifiers.push(CombatModifier::new("speed", 2, ModifierDuration::ThisTurn));
    assert_eq!(c.get_stat_modifier("strength", None), 3);
    assert_eq!(c.get_stat_modifier("speed", None), 2);
    assert_eq!(c.get_stat_modifier("magic", None), 0);
    assert_eq!(c.get_effective_strength(), 2 + 3);
    assert_eq!(c.get_effective_magic(), 1);
}

#[test]
fn conditional_modifier_applies_only_to_its_named_target() {
    let mut c = plain_character("a");
    c.modifiers.push(
        CombatModifier::new("attack_bonus", 5, ModifierDuration::ThisTurn).with_condition(
            "attacking_orc",
        ),
    );
    c.modifiers.push(CombatModifier::new("attack_bonus", 2, ModifierDuration::ThisTurn));
    // The condition label contains the target's name.
    assert_eq!(c.get_attack_bonus("orc"), 7);
    assert_eq!(c.get_attack_bonus("elf"), 2);
    // An unconditioned stat query skips conditional modifiers entirely.
    assert_eq!(c.get_stat_modifier("attack_bonus", None), 2);
}

#[test]
fn modifier_duration_decay_this_and_next_turn() {
    // A ThisAndNextTurn modifier survives exactly two boundaries from
    // creation: present (rescoped) after the first, gone after the second.
    let mut c = plain_character("a");
    c.modifiers.push(CombatModifier::new("strength", 2, ModifierDuration::ThisAndNextTurn));
    c.advance_turn_modifiers();
    assert_eq!(c.modifiers.len(), 1);
    assert_eq!(c.modifiers[0].duration, ModifierDuration::NextTurn);
    assert_eq!(c.get_stat_modifier("strength", None), 2);
    c.advance_turn_modifiers();
    assert_eq!(c.modifiers.len(), 0);
    assert_eq!(c.get_stat_modifier("strength", None), 0);
}

#[test]
fn modifier_duration_decay_one_turn_scopes() {
    let mut c = plain_character("a");
    c.modifiers.push(CombatModifier::new("strength", 2, ModifierDuration::ThisTurn));
    c.modifiers.push(CombatModifier::new("speed", 1, ModifierDuration::NextTurn));
    c.advance_turn_modifiers();
    assert_eq!(c.modifiers.len(), 0);
}

#[test]
fn rest_of_combat_modifier_survives_many_boundaries() {
    let mut c = plain_character("a");
    c.modifiers.push(CombatModifier::new("magic", 5, ModifierDuration::RestOfCombat));
    for _ in 0..50 {
        c.advance_turn_modifiers();
    }
    assert_eq!(c.modifiers.len(), 1);
    assert_eq!(c.get_stat_modifier("magic", None), 5);
}

#[test]
fn equip_replaces_the_incumbent_in_the_same_slot() {
    let mut c = plain_character("a");
    c.equip(create_armadura_de_cuir());
    c.equip(create_bracals_de_cuir());
    assert_eq!(c.equipment.len(), 2);
    // A second torso item replaces the leather armor.
    c.equip(create_armadura_de_ferro());
    assert_eq!(c.equipment.len(), 2);
    let torso_count = c.equipment.iter().filter(|e| e.slot == EquipmentSlot::Torso).count();
    assert_eq!(torso_count, 1);
    assert_eq!(c.get_equipment_speed(), -3);
    assert_eq!(c.get_equipment_defense(), 4);
}

#[test]
fn equipment_dice_defense_stays_in_range() {
    let mut c = plain_character("a");
    c.equip(create_cota_de_malla());
    for _ in 0..100 {
        let d = c.get_equipment_defense();
        assert!((1..=4).contains(&d));
    }
}

#[test]
fn effective_speed_includes_card_and_equipment() {
    let mut c = plain_character("a");
    c.equip(create_armadura_de_ferro());
    let card = Card::new("quick", CardType::Defense).with_speed_mod(4);
    assert_eq!(c.get_effective_speed(None), 4 - 3);
    assert_eq!(c.get_effective_speed(Some(&card)), 4 - 3 + 4);
}

#[test]
fn defense_grant_queue_pops_newest_first() {
    let mut c = plain_character("a");
    c.defense_bonuses.push(simulator::character::DefenseGrant {
        team: 1,
        idx: 0,
        name: "first".to_owned(),
        base_defense: 3,
        dice: DiceRoll::new(0, 0, 0),
    });
    c.defense_bonuses.push(simulator::character::DefenseGrant {
        team: 1,
        idx: 1,
        name: "second".to_owned(),
        base_defense: 5,
        dice: DiceRoll::new(0, 0, 0),
    });
    assert!(c.has_defense_bonus());
    let (team, idx, name, total) = c.pop_defense_bonus().unwrap();
    assert_eq!((team, idx, name.as_str(), total), (1, 1, "second", 5));
    let (_, _, name2, total2) = c.pop_defense_bonus().unwrap();
    assert_eq!((name2.as_str(), total2), ("first", 3));
    assert!(c.pop_defense_bonus().is_none());
}

#[test]
fn reset_for_new_round_consumes_one_skip() {
    let mut c = plain_character("a");
    c.skip_turns = 2;
    c.dodging = true;
    c.focus_interrupted = true;
    c.played_card_idx = Some(0);
    assert!(c.reset_for_new_round());
    assert_eq!(c.skip_turns, 1);
    assert!(!c.dodging);
    assert!(!c.focus_interrupted);
    assert!(c.played_card_idx.is_none());
    assert!(c.reset_for_new_round());
    assert!(!c.reset_for_new_round());
    assert_eq!(c.skip_turns, 0);
}

#[test]
fn reset_for_new_combat_clears_combat_state() {
    let mut c = plain_character("a");
    c.current_wounds = 2;
    c.stunned = true;
    c.has_poison_weapon = true;
    c.wounded_this_combat = true;
    c.modifiers.push(CombatModifier::new("strength", 1, ModifierDuration::RestOfCombat));
    c.reset_for_new_combat();
    assert_eq!(c.current_wounds, 0);
    assert!(!c.stunned);
    assert!(!c.has_poison_weapon);
    assert!(!c.wounded_this_combat);
    assert!(c.modifiers.is_empty());
}

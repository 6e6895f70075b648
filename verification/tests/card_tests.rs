use simulator::cards::{Card, CardType, SpecialEffect};
use simulator::dice::DiceRoll;

#[test]
fn card_type_classification_predicates() {
    assert!(CardType::PhysicalAttack.is_attack());
    assert!(CardType::MagicAttack.is_attack());
    assert!(CardType::PhysicalDefense.is_attack());
    assert!(!CardType::Defense.is_attack());
    assert!(!CardType::Focus.is_attack());

    assert!(CardType::Defense.is_defense());
    assert!(CardType::PhysicalDefense.is_defense());
    assert!(!CardType::PhysicalAttack.is_defense());

    assert!(CardType::Focus.is_focus());
    assert!(!CardType::Defense.is_focus());

    assert!(CardType::PhysicalAttack.is_physical());
    assert!(CardType::PhysicalDefense.is_physical());
    assert!(!CardType::MagicAttack.is_physical());
}

#[test]
fn card_builders_assemble_the_template() {
    let c = Card::new("Espasa llarga", CardType::PhysicalAttack)
        .with_physical_attack(DiceRoll::new(1, 8, 0))
        .with_speed_mod(-2)
        .with_effect(SpecialEffect::Stun);
    assert_eq!(c.name, "Espasa llarga");
    assert_eq!(c.card_type, CardType::PhysicalAttack);
    assert_eq!(c.physical_attack, Some(DiceRoll::new(1, 8, 0)));
    assert_eq!(c.magic_attack, None);
    assert_eq!(c.defense, None);
    assert_eq!(c.speed_mod, -2);
    assert_eq!(c.effect, SpecialEffect::Stun);
}

#[test]
fn a_new_card_carries_no_effect() {
    let c = Card::new("Metamorfosi", CardType::Focus);
    assert_eq!(c.effect, SpecialEffect::NoEffect);
    assert_eq!(c.speed_mod, 0);
}

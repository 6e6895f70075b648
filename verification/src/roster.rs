use vstd::prelude::*;

use crate::cards::{Card, CardType, SpecialEffect};
use crate::character::Character;
use crate::dice::DiceRoll;
use crate::equipment::{create_armadura_de_cuir, create_bracals_de_cuir};

verus! {

/// The state every factory hands out: a fresh, fully reset, well-formed
/// combatant.
pub open spec fn fresh_character(r: Character, name: Seq<char>, max_wounds: u32) -> bool {
    &&& r.name@ == name
    &&& r.max_wounds == max_wounds
    &&& r.base_wf()
    &&& r.combat_wf()
    &&& r.team == 0
    &&& r.current_wounds == 0
    &&& r.modifiers@.len() == 0
    &&& r.defense_bonuses@.len() == 0
    &&& r.skip_turns == 0
    &&& !r.stunned
    &&& !r.dodging
    &&& !r.focus_interrupted
    &&& r.played_card_idx matches None
    &&& !r.wounded_this_combat
    &&& !r.has_absorb_pain
    &&& !r.has_poison_weapon
}

/// The fighter's hand of six cards.
fn fighter_cards() -> (r: Vec<Card>)
    ensures
        r@.len() == 6,
        crate::character::cards_wf(r@),
{
    let mut cards: Vec<Card> = Vec::new();
    cards.push(
        Card::new("Espasa llarga", CardType::PhysicalAttack).with_physical_attack(
            DiceRoll::new(1, 8, 0),
        ).with_speed_mod(-2).with_effect(SpecialEffect::Stun),
    );
    cards.push(
        Card::new("Sacrifici", CardType::Defense).with_speed_mod(4).with_effect(
            SpecialEffect::Sacrifice,
        ),
    );
    cards.push(
        Card::new("Ràbia traumada", CardType::Focus).with_speed_mod(-3).with_effect(
            SpecialEffect::StrengthBoost(4),
        ),
    );
    cards.push(
        Card::new("Embestida", CardType::PhysicalAttack).with_physical_attack(
            DiceRoll::new(1, 6, 0),
        ).with_speed_mod(2).with_effect(SpecialEffect::EmbestidaEffect),
    );
    cards.push(
        Card::new("Crit de guerra", CardType::PhysicalAttack).with_physical_attack(
            DiceRoll::new(1, 4, 0),
        ).with_speed_mod(1).with_effect(SpecialEffect::AllyStrengthThisTurn(2)),
    );
    cards.push(
        Card::new("Formació defensiva", CardType::Focus).with_speed_mod(2).with_effect(
            SpecialEffect::DefenseBoostDuration { dice: DiceRoll::new(1, 4, 0), turns: 2 },
        ),
    );
    cards
}

/// A fighter with leather armor and bracers.
pub fn create_fighter(name: &str) -> (r: Character)
    ensures
        fresh_character(r, name@, 3),
        r.strength == 3,
        r.magic == 0,
        r.defense == 2,
        r.speed == 2,
        r.cards@.len() == 6,
        r.equipment@.len() == 2,
{
    let cards = fighter_cards();
    let mut character = Character::new(name, 3, 3, 0, 2, 2, cards, "Fighter");
    let torso = create_armadura_de_cuir();
    let arms = create_bracals_de_cuir();
    proof {
        assert(crate::character::remove_slot(Seq::<crate::equipment::Equipment>::empty(),
            torso.slot) =~= Seq::<crate::equipment::Equipment>::empty());
    }
    character.equip(torso);
    proof {
        assert(character.equipment@ =~= seq![torso]);
        assert(seq![torso].drop_last() =~= Seq::<crate::equipment::Equipment>::empty());
        assert(crate::character::remove_slot(Seq::<crate::equipment::Equipment>::empty(),
            arms.slot) =~= Seq::<crate::equipment::Equipment>::empty());
        assert(crate::character::remove_slot(seq![torso], arms.slot) =~= seq![torso]);
    }
    character.equip(arms);
    proof {
        assert(character.equipment@ =~= seq![torso, arms]);
    }
    character
}

/// A fighter without equipment.
pub fn create_fighter_naked(name: &str) -> (r: Character)
    ensures
        fresh_character(r, name@, 3),
        r.strength == 3,
        r.magic == 0,
        r.defense == 2,
        r.speed == 2,
        r.cards@.len() == 6,
        r.equipment@.len() == 0,
{
    let cards = fighter_cards();
    Character::new(name, 3, 3, 0, 2, 2, cards, "Fighter")
}

/// The wizard's hand of six cards.
fn wizard_cards() -> (r: Vec<Card>)
    ensures
        r@.len() == 6,
        crate::character::cards_wf(r@),
{
    let mut cards: Vec<Card> = Vec::new();
    cards.push(
        Card::new("Pantalla protectora", CardType::Defense).with_defense(
            DiceRoll::new(1, 6, 0),
        ).with_speed_mod(-1).with_effect(SpecialEffect::DefendMultiple(3)),
    );
    cards.push(
        Card::new("Bola de foc", CardType::MagicAttack).with_magic_attack(
            DiceRoll::new(1, 6, 0),
        ).with_speed_mod(1),
    );
    cards.push(
        Card::new("Raig de gel", CardType::MagicAttack).with_magic_attack(
            DiceRoll::new(1, 4, 0),
        ).with_speed_mod(1).with_effect(SpecialEffect::EnemySpeedDebuff(2)),
    );
    cards.push(Card::new("Metamorfosi", CardType::Focus).with_speed_mod(-2));
    cards.push(
        Card::new("Encantar arma", CardType::Focus).with_speed_mod(2).with_effect(
            SpecialEffect::EnchantWeapon,
        ),
    );
    cards.push(
        Card::new("Camp de distorsió", CardType::Focus).with_speed_mod(-1).with_effect(
            SpecialEffect::TeamSpeedDefenseBoost,
        ),
    );
    cards
}

/// A wizard with leather bracers.
pub fn create_wizard(name: &str) -> (r: Character)
    ensures
        fresh_character(r, name@, 3),
        r.strength == 0,
        r.magic == 5,
        r.defense == 1,
        r.speed == 2,
        r.cards@.len() == 6,
        r.equipment@.len() == 1,
{
    let cards = wizard_cards();
    let mut character = Character::new(name, 3, 0, 5, 1, 2, cards, "Wizard");
    let item = create_bracals_de_cuir();
    proof {
        assert(crate::character::remove_slot(Seq::<crate::equipment::Equipment>::empty(),
            item.slot) =~= Seq::<crate::equipment::Equipment>::empty());
    }
    character.equip(item);
    proof {
        assert(character.equipment@ =~= seq![item]);
    }
    character
}

/// A wizard without equipment.
pub fn create_wizard_naked(name: &str) -> (r: Character)
    ensures
        fresh_character(r, name@, 3),
        r.strength == 0,
        r.magic == 5,
        r.defense == 1,
        r.speed == 2,
        r.cards@.len() == 6,
        r.equipment@.len() == 0,
{
    let cards = wizard_cards();
    Character::new(name, 3, 0, 5, 1, 2, cards, "Wizard")
}

/// The rogue's hand of seven cards.
fn rogue_cards() -> (r: Vec<Card>)
    ensures
        r@.len() == 7,
        crate::character::cards_wf(r@),
{
    let mut cards: Vec<Card> = Vec::new();
    cards.push(
        Card::new("Emboscada coordinada", CardType::Focus).with_speed_mod(4).with_effect(
            SpecialEffect::CoordinatedAmbush,
        ),
    );
    cards.push(
        Card::new("Fum cegador", CardType::Focus).with_speed_mod(3).with_effect(
            SpecialEffect::BlindingSmoke,
        ),
    );
    cards.push(
        Card::new("Braçals de cuir", CardType::Defense).with_defense(
            DiceRoll::new(1, 4, 0),
        ).with_speed_mod(2),
    );
    cards.push(
        Card::new("Ballesta", CardType::PhysicalAttack).with_physical_attack(
            DiceRoll::new(1, 6, 0),
        ).with_speed_mod(3),
    );
    cards.push(
        Card::new("Dagues", CardType::PhysicalAttack).with_physical_attack(
            DiceRoll::new(1, 4, 0),
        ).with_speed_mod(3).with_effect(SpecialEffect::MultiTarget(2)),
    );
    cards.push(
        Card::new("El·lusió", CardType::Focus).with_speed_mod(3).with_effect(
            SpecialEffect::DodgeWithSpeedBoost,
        ),
    );
    cards.push(
        Card::new("Enverinar arma", CardType::Focus).with_speed_mod(0).with_effect(
            SpecialEffect::PoisonWeapon,
        ),
    );
    cards
}

/// A rogue with leather armor.
pub fn create_rogue(name: &str) -> (r: Character)
    ensures
        fresh_character(r, name@, 3),
        r.strength == 2,
        r.magic == 0,
        r.defense == 1,
        r.speed == 4,
        r.cards@.len() == 7,
        r.equipment@.len() == 1,
{
    let cards = rogue_cards();
    let mut character = Character::new(name, 3, 2, 0, 1, 4, cards, "Rogue");
    let item = create_armadura_de_cuir();
    proof {
        assert(crate::character::remove_slot(Seq::<crate::equipment::Equipment>::empty(),
            item.slot) =~= Seq::<crate::equipment::Equipment>::empty());
    }
    character.equip(item);
    proof {
        assert(character.equipment@ =~= seq![item]);
    }
    character
}

/// A rogue without equipment.
pub fn create_rogue_naked(name: &str) -> (r: Character)
    ensures
        fresh_character(r, name@, 3),
        r.strength == 2,
        r.magic == 0,
        r.defense == 1,
        r.speed == 4,
        r.cards@.len() == 7,
        r.equipment@.len() == 0,
{
    let cards = rogue_cards();
    Character::new(name, 3, 2, 0, 1, 4, cards, "Rogue")
}

/// The goblin's hand of four cards.
fn goblin_cards() -> (r: Vec<Card>)
    ensures
        r@.len() == 4,
        crate::character::cards_wf(r@),
{
    let mut cards: Vec<Card> = Vec::new();
    cards.push(
        Card::new("Fúria enfollida", CardType::PhysicalAttack).with_physical_attack(
            DiceRoll::new(2, 6, 0),
        ).with_speed_mod(5).with_effect(SpecialEffect::SkipNextTurns(2)),
    );
    cards.push(
        Card::new("Maça de punxes", CardType::PhysicalAttack).with_physical_attack(
            DiceRoll::new(1, 6, 0),
        ).with_speed_mod(1),
    );
    cards.push(
        Card::new("Escut de fusta", CardType::Defense).with_defense(
            DiceRoll::new(1, 6, 0),
        ).with_speed_mod(2),
    );
    cards.push(
        Card::new("Venjança", CardType::Focus).with_speed_mod(1).with_effect(
            SpecialEffect::Vengeance,
        ),
    );
    cards
}

/// A goblin with leather bracers.
pub fn create_goblin(name: &str) -> (r: Character)
    ensures
        fresh_character(r, name@, 3),
        r.strength == 2,
        r.magic == 0,
        r.defense == 1,
        r.speed == 3,
        r.cards@.len() == 4,
        r.equipment@.len() == 1,
{
    let cards = goblin_cards();
    let mut character = Character::new(name, 3, 2, 0, 1, 3, cards, "Goblin");
    let item = create_bracals_de_cuir();
    proof {
        assert(crate::character::remove_slot(Seq::<crate::equipment::Equipment>::empty(),
            item.slot) =~= Seq::<crate::equipment::Equipment>::empty());
    }
    character.equip(item);
    proof {
        assert(character.equipment@ =~= seq![item]);
    }
    character
}

/// A goblin without equipment.
pub fn create_goblin_naked(name: &str) -> (r: Character)
    ensures
        fresh_character(r, name@, 3),
        r.strength == 2,
        r.magic == 0,
        r.defense == 1,
        r.speed == 3,
        r.cards@.len() == 4,
        r.equipment@.len() == 0,
{
    let cards = goblin_cards();
    Character::new(name, 3, 2, 0, 1, 3, cards, "Goblin")
}

/// The shaman's hand of five cards.
#[verifier::rlimit(60)]
fn goblin_shaman_cards() -> (r: Vec<Card>)
    ensures
        r@.len() == 5,
        crate::character::cards_wf(r@),
{
    let mut cards: Vec<Card> = Vec::new();
    cards.push(
        Card::new("Llamp", CardType::MagicAttack).with_magic_attack(
            DiceRoll::new(2, 4, 0),
        ).with_speed_mod(0),
    );
    cards.push(
        Card::new("Possessió demoníaca", CardType::Focus).with_speed_mod(-4).with_effect(
            SpecialEffect::MagicBoost(5),
        ),
    );
    cards.push(
        Card::new("Set de sang", CardType::Focus).with_speed_mod(-3).with_effect(
            SpecialEffect::BloodThirst,
        ),
    );
    let rain = Card::new("Pluja de flames", CardType::MagicAttack).with_magic_attack(
        DiceRoll::new(1, 4, -1),
    ).with_speed_mod(-1).with_effect(SpecialEffect::MultiTarget(3));
    proof {
        assert(rain.wf());
    }
    cards.push(rain);
    let absorb = Card::new("Absorvir dolor", CardType::Defense).with_defense(
        DiceRoll::new(1, 4, 0),
    ).with_speed_mod(1).with_effect(SpecialEffect::AbsorbPain);
    proof {
        assert(absorb.wf());
    }
    cards.push(absorb);
    cards
}

/// A goblin shaman; carries no equipment.
pub fn create_goblin_shaman(name: &str) -> (r: Character)
    ensures
        fresh_character(r, name@, 3),
        r.strength == 1,
        r.magic == 4,
        r.defense == 0,
        r.speed == 2,
        r.cards@.len() == 5,
        r.equipment@.len() == 0,
{
    let cards = goblin_shaman_cards();
    Character::new(name, 3, 1, 4, 0, 2, cards, "Goblin Shaman")
}

/// A goblin shaman without equipment.
pub fn create_goblin_shaman_naked(name: &str) -> (r: Character)
    ensures
        fresh_character(r, name@, 3),
        r.strength == 1,
        r.magic == 4,
        r.defense == 0,
        r.speed == 2,
        r.cards@.len() == 5,
        r.equipment@.len() == 0,
{
    let cards = goblin_shaman_cards();
    Character::new(name, 3, 1, 4, 0, 2, cards, "GoblinShaman")
}

} // verus!

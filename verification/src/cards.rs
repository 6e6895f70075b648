use vstd::prelude::*;

use crate::dice::DiceRoll;
use crate::equipment::STAT_BOUND;

verus! {

/// The five kinds of playable card. `PhysicalDefense` is a hybrid that
/// counts both as a physical attack and as a defense.
#[derive(Debug, Clone, Copy, PartialEq, Eq, Structural)]
pub enum CardType {
    PhysicalAttack,
    MagicAttack,
    Defense,
    Focus,
    PhysicalDefense,
}

impl CardType {
    /// Attack cards: physical, magic, or the hybrid.
    pub open spec fn spec_is_attack(self) -> bool {
        self == CardType::PhysicalAttack || self == CardType::MagicAttack || self
            == CardType::PhysicalDefense
    }

    /// Defense cards: pure defense or the hybrid.
    pub open spec fn spec_is_defense(self) -> bool {
        self == CardType::Defense || self == CardType::PhysicalDefense
    }

    pub open spec fn spec_is_focus(self) -> bool {
        self == CardType::Focus
    }

    /// Physical cards: the pure physical attack or the hybrid.
    pub open spec fn spec_is_physical(self) -> bool {
        self == CardType::PhysicalAttack || self == CardType::PhysicalDefense
    }

    pub fn is_attack(&self) -> (r: bool)
        ensures
            r == self.spec_is_attack(),
    {
        match self {
            CardType::PhysicalAttack => true,
            CardType::MagicAttack => true,
            CardType::PhysicalDefense => true,
            _ => false,
        }
    }

    pub fn is_defense(&self) -> (r: bool)
        ensures
            r == self.spec_is_defense(),
    {
        match self {
            CardType::Defense => true,
            CardType::PhysicalDefense => true,
            _ => false,
        }
    }

    pub fn is_focus(&self) -> (r: bool)
        ensures
            r == self.spec_is_focus(),
    {
        match self {
            CardType::Focus => true,
            _ => false,
        }
    }

    pub fn is_physical(&self) -> (r: bool)
        ensures
            r == self.spec_is_physical(),
    {
        match self {
            CardType::PhysicalAttack => true,
            CardType::PhysicalDefense => true,
            _ => false,
        }
    }
}

/// The single tagged special behavior a card can carry, `NoEffect` included.
#[derive(Debug, Clone, Copy, PartialEq, Eq, Structural)]
pub enum SpecialEffect {
    NoEffect,
    /// Stuns the chosen target for the rest of the round.
    Stun,
    /// The actor skips its next turn.
    SkipNextTurn,
    /// The actor skips its next N turns.
    SkipNextTurns(u8),
    /// +N strength for the rest of the combat.
    StrengthBoost(i32),
    /// +N magic for the rest of the combat.
    MagicBoost(i32),
    /// Living allies gain +N strength this turn.
    AllyStrengthThisTurn(i32),
    /// Dice-based defense for the caster and one ally, this and next turn.
    DefenseBoostDuration { dice: DiceRoll, turns: u8 },
    /// +2 speed and +1 defense for the whole team, rest of combat.
    TeamSpeedDefenseBoost,
    /// The chosen target loses N speed next turn.
    EnemySpeedDebuff(i32),
    /// The chosen target loses N strength next turn.
    EnemyStrengthDebuff(i32),
    /// Target -2 speed and self -3 speed next turn.
    EmbestidaEffect,
    /// Enemies -4 speed and allies +2 speed this turn.
    BlindingSmoke,
    /// Dodge every attack this turn and gain +3 speed next turn.
    DodgeWithSpeedBoost,
    /// Allies gain +1d8 on attacks against a designated enemy this turn.
    CoordinatedAmbush,
    /// Redirect attacks against a protected ally to the caster.
    Sacrifice,
    /// Counter-attack whoever attacks the protected ally.
    Vengeance,
    /// The strongest attacker gains +1d6 on attacks, rest of combat.
    EnchantWeapon,
    /// One extra wound to every living enemy wounded earlier this combat.
    BloodThirst,
    /// The caster gains +1 defense whenever a granted defense absorbs a miss.
    AbsorbPain,
    /// The attack hits the first N living enemies.
    MultiTarget(u8),
    /// The defense grant goes to the first N living allies.
    DefendMultiple(u8),
    /// The strongest ally's physical attacks deal one extra wound.
    PoisonWeapon,
}

impl SpecialEffect {
    /// Any dice the effect carries can be rolled, and numeric payloads stay
    /// small enough for the modifiers they create to keep stat sums in
    /// range.
    pub open spec fn wf(self) -> bool {
        match self {
            SpecialEffect::DefenseBoostDuration { dice, turns: _ } => dice.wf() && dice.max_roll()
                <= STAT_BOUND,
            SpecialEffect::StrengthBoost(n) => -1000 <= n <= 1000,
            SpecialEffect::MagicBoost(n) => -1000 <= n <= 1000,
            SpecialEffect::AllyStrengthThisTurn(n) => -1000 <= n <= 1000,
            SpecialEffect::EnemySpeedDebuff(n) => -1000 <= n <= 1000,
            SpecialEffect::EnemyStrengthDebuff(n) => -1000 <= n <= 1000,
            _ => true,
        }
    }
}

/// An immutable card template: a type tag, optional attack and defense dice,
/// a speed delta, and one special effect.
#[derive(Debug)]
pub struct Card {
    pub name: String,
    pub card_type: CardType,
    pub physical_attack: Option<DiceRoll>,
    pub magic_attack: Option<DiceRoll>,
    pub defense: Option<DiceRoll>,
    pub speed_mod: i32,
    pub effect: SpecialEffect,
}

impl Clone for Card {
    fn clone(&self) -> (r: Self)
        ensures
            r == *self,
    {
        Card {
            name: self.name.clone(),
            card_type: self.card_type,
            physical_attack: self.physical_attack,
            magic_attack: self.magic_attack,
            defense: self.defense,
            speed_mod: self.speed_mod,
            effect: self.effect,
        }
    }
}

/// A dice option that can be rolled and stays small.
pub open spec fn dice_opt_wf(d: Option<DiceRoll>) -> bool {
    match d {
        Some(dd) => dd.wf() && dd.max_roll() <= STAT_BOUND,
        None => true,
    }
}

impl Card {
    /// A card whose dice can be rolled and whose speed delta stays small
    /// enough for speed sums never to overflow.
    pub open spec fn wf(self) -> bool {
        &&& dice_opt_wf(self.physical_attack)
        &&& dice_opt_wf(self.magic_attack)
        &&& dice_opt_wf(self.defense)
        &&& -STAT_BOUND <= self.speed_mod <= STAT_BOUND
        &&& self.effect.wf()
    }

    pub fn new(name: &str, card_type: CardType) -> (r: Self)
        ensures
            r.name@ == name@,
            r.card_type == card_type,
            r.physical_attack == None::<DiceRoll>,
            r.magic_attack == None::<DiceRoll>,
            r.defense == None::<DiceRoll>,
            r.speed_mod == 0,
            r.effect == SpecialEffect::NoEffect,
            r.wf(),
    {
        Card {
            name: name.to_owned(),
            card_type,
            physical_attack: None,
            magic_attack: None,
            defense: None,
            speed_mod: 0,
            effect: SpecialEffect::NoEffect,
        }
    }

    pub fn with_physical_attack(self, dice: DiceRoll) -> (r: Self)
        ensures
            r == (Card { physical_attack: Some(dice), ..self }),
    {
        Card { physical_attack: Some(dice), ..self }
    }

    pub fn with_magic_attack(self, dice: DiceRoll) -> (r: Self)
        ensures
            r == (Card { magic_attack: Some(dice), ..self }),
    {
        Card { magic_attack: Some(dice), ..self }
    }

    pub fn with_defense(self, dice: DiceRoll) -> (r: Self)
        ensures
            r == (Card { defense: Some(dice), ..self }),
    {
        Card { defense: Some(dice), ..self }
    }

    pub fn with_speed_mod(self, speed: i32) -> (r: Self)
        ensures
            r == (Card { speed_mod: speed, ..self }),
    {
        Card { speed_mod: speed, ..self }
    }

    pub fn with_effect(self, effect: SpecialEffect) -> (r: Self)
        ensures
            r == (Card { effect, ..self }),
    {
        Card { effect, ..self }
    }
}

} // verus!

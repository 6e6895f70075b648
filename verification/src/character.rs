use vstd::prelude::*;

use crate::cards::Card;
use crate::dice::DiceRoll;
use crate::equipment::{Equipment, EquipmentSlot, STAT_BOUND};
use crate::modifiers::{
    advance_seq, mag_sum, modifier_applies, mods_wf, opt_str_view, total_max, total_min,
    CombatModifier, ModifierDuration,
};

verus! {

/// A banked defense contribution donated by one character to another: the
/// donor's identity, the donor's defense captured at grant time, and a dice
/// expression re-rolled when the grant is consumed.
#[derive(Debug)]
pub struct DefenseGrant {
    pub team: u8,
    pub idx: usize,
    pub name: String,
    pub base_defense: i32,
    pub dice: DiceRoll,
}

impl Clone for DefenseGrant {
    fn clone(&self) -> (r: Self)
        ensures
            r == *self,
    {
        DefenseGrant {
            team: self.team,
            idx: self.idx,
            name: self.name.clone(),
            base_defense: self.base_defense,
            dice: self.dice,
        }
    }
}

impl DefenseGrant {
    /// A grant whose dice can be rolled and whose captured defense keeps the
    /// consumption arithmetic in range.
    pub open spec fn wf(self) -> bool {
        &&& self.dice.wf()
        &&& self.dice.max_roll() <= STAT_BOUND
        &&& -0x7000_0000 <= self.base_defense <= 0x7000_0000
    }
}

/// Every grant in the queue is well formed.
pub open spec fn grants_wf(s: Seq<DefenseGrant>) -> bool {
    forall|i: int| 0 <= i < s.len() ==> (#[trigger] s[i]).wf()
}

/// Every equipped item is well formed.
pub open spec fn equips_wf(s: Seq<Equipment>) -> bool {
    forall|i: int| 0 <= i < s.len() ==> (#[trigger] s[i]).wf()
}

/// Every card in the hand is well formed.
pub open spec fn cards_wf(s: Seq<Card>) -> bool {
    forall|i: int| 0 <= i < s.len() ==> (#[trigger] s[i]).wf()
}

/// Total speed contribution of an equipment list.
pub open spec fn equip_speed_sum(s: Seq<Equipment>) -> int
    decreases s.len(),
{
    if s.len() == 0 {
        0
    } else {
        equip_speed_sum(s.drop_last()) + s.last().speed_mod
    }
}

/// Least total defense an equipment query can yield.
pub open spec fn equip_def_min(s: Seq<Equipment>) -> int
    decreases s.len(),
{
    if s.len() == 0 {
        0
    } else {
        equip_def_min(s.drop_last()) + s.last().def_min()
    }
}

/// Greatest total defense an equipment query can yield.
pub open spec fn equip_def_max(s: Seq<Equipment>) -> int
    decreases s.len(),
{
    if s.len() == 0 {
        0
    } else {
        equip_def_max(s.drop_last()) + s.last().def_max()
    }
}

/// Twice the expected total equipment defense (exact, for heuristics).
pub open spec fn equip_def_avg_x2(s: Seq<Equipment>) -> int
    decreases s.len(),
{
    if s.len() == 0 {
        0
    } else {
        equip_def_avg_x2(s.drop_last()) + 2 * s.last().defense_flat + match s.last().defense {
            Some(d) => d.num_dice * (1 + d.sides) + 2 * d.modifier,
            None => 0,
        }
    }
}

/// All equipment sums are bounded by a small multiple of `STAT_BOUND` per
/// item.
pub proof fn lemma_equip_sums_bounds(s: Seq<Equipment>)
    requires
        equips_wf(s),
    ensures
        -(s.len() as int) * (STAT_BOUND as int) <= equip_speed_sum(s) <= (s.len() as int) * (
        STAT_BOUND as int),
        -(s.len() as int) * (STAT_BOUND as int) <= equip_def_min(s),
        equip_def_min(s) <= equip_def_max(s),
        equip_def_max(s) <= (s.len() as int) * 2 * (STAT_BOUND as int),
        -(s.len() as int) * 4 * (STAT_BOUND as int) <= equip_def_avg_x2(s) <= (s.len() as int) * 4
            * (STAT_BOUND as int),
    decreases s.len(),
{
    if s.len() > 0 {
        assert(forall|i: int|
            0 <= i < s.drop_last().len() ==> (#[trigger] s.drop_last()[i]).wf());
        lemma_equip_sums_bounds(s.drop_last());
        let e = s.last();
        assert(e.wf());
        match e.defense {
            Some(d) => {
                assert(0 <= d.num_dice * (1 + d.sides) <= 255 * 256 && d.num_dice <= d.num_dice
                    * d.sides) by (nonlinear_arith)
                    requires
                        0 <= d.num_dice <= 255,
                        0 <= d.sides <= 255,
                        d.num_dice == 0 || d.sides >= 1,
                ;
            },
            None => {},
        }
    }
}

/// An equipment list with the items of `slot` removed, order otherwise kept.
pub open spec fn remove_slot(s: Seq<Equipment>, slot: EquipmentSlot) -> Seq<Equipment>
    decreases s.len(),
{
    if s.len() == 0 {
        Seq::<Equipment>::empty()
    } else {
        if s.last().slot == slot {
            remove_slot(s.drop_last(), slot)
        } else {
            remove_slot(s.drop_last(), slot).push(s.last())
        }
    }
}

/// A mutable combat participant: base stats, equipment, a fixed hand of
/// cards, and transient combat state.
#[derive(Debug)]
pub struct Character {
    pub name: String,
    pub max_wounds: u32,
    pub strength: i32,
    pub magic: i32,
    pub defense: i32,
    pub speed: i32,
    pub cards: Vec<Card>,
    pub team: u8,
    pub character_class: String,
    pub equipment: Vec<Equipment>,
    pub current_wounds: u32,
    pub modifiers: Vec<CombatModifier>,
    pub defense_bonuses: Vec<DefenseGrant>,
    pub skip_turns: u8,
    pub stunned: bool,
    pub dodging: bool,
    pub focus_interrupted: bool,
    pub played_card_idx: Option<usize>,
    pub wounded_this_combat: bool,
    pub has_absorb_pain: bool,
    pub has_poison_weapon: bool,
}

impl Character {
    /// Static shape a character must have for stat resolution never to
    /// overflow: bounded base stats, a few well-formed equipment items, and
    /// well-formed cards.
    pub open spec fn base_wf(self) -> bool {
        &&& -STAT_BOUND <= self.strength <= STAT_BOUND
        &&& -STAT_BOUND <= self.magic <= STAT_BOUND
        &&& -STAT_BOUND <= self.defense <= STAT_BOUND
        &&& -STAT_BOUND <= self.speed <= STAT_BOUND
        &&& self.equipment@.len() <= 16
        &&& equips_wf(self.equipment@)
        &&& self.cards@.len() <= 1024
        &&& cards_wf(self.cards@)
    }

    /// Dynamic shape of the combat state the stat accessors rely on.
    pub open spec fn combat_wf(self) -> bool {
        &&& mods_wf(self.modifiers@)
        &&& mag_sum(self.modifiers@) <= 0x4000_0000
        &&& grants_wf(self.defense_bonuses@)
    }

    /// Everything the stat accessors need.
    pub open spec fn stats_wf(self) -> bool {
        self.base_wf() && self.combat_wf()
    }

    /// A character is alive while its wounds stay below its maximum.
    pub open spec fn spec_alive(self) -> bool {
        self.current_wounds < self.max_wounds
    }

    #[allow(clippy::too_many_arguments)]
    pub fn new(
        name: &str,
        max_wounds: u32,
        strength: i32,
        magic: i32,
        defense: i32,
        speed: i32,
        cards: Vec<Card>,
        character_class: &str,
    ) -> (r: Self)
        ensures
            r.name@ == name@,
            r.max_wounds == max_wounds,
            r.strength == strength,
            r.magic == magic,
            r.defense == defense,
            r.speed == speed,
            r.cards == cards,
            r.team == 0,
            r.character_class@ == character_class@,
            r.equipment@ == Seq::<Equipment>::empty(),
            r.current_wounds == 0,
            r.modifiers@ == Seq::<CombatModifier>::empty(),
            r.defense_bonuses@ == Seq::<DefenseGrant>::empty(),
            r.skip_turns == 0,
            !r.stunned,
            !r.dodging,
            !r.focus_interrupted,
            r.played_card_idx == None::<usize>,
            !r.wounded_this_combat,
            !r.has_absorb_pain,
            !r.has_poison_weapon,
    {
        Character {
            name: name.to_owned(),
            max_wounds,
            strength,
            magic,
            defense,
            speed,
            cards,
            team: 0,
            character_class: character_class.to_owned(),
            equipment: Vec::new(),
            current_wounds: 0,
            modifiers: Vec::new(),
            defense_bonuses: Vec::new(),
            skip_turns: 0,
            stunned: false,
            dodging: false,
            focus_interrupted: false,
            played_card_idx: None,
            wounded_this_combat: false,
            has_absorb_pain: false,
            has_poison_weapon: false,
        }
    }

    pub fn is_alive(&self) -> (r: bool)
        ensures
            r == self.spec_alive(),
    {
        self.current_wounds < self.max_wounds
    }

    /// Inflict one wound; returns true iff the character is no longer alive
    /// afterwards.
    pub fn take_wound(&mut self) -> (died: bool)
        requires
            old(self).current_wounds < u32::MAX,
        ensures
            *final(self) == (Character {
                current_wounds: (old(self).current_wounds + 1) as u32,
                wounded_this_combat: true,
                ..*old(self)
            }),
            died == !final(self).spec_alive(),
    {
        self.current_wounds = self.current_wounds + 1;
        self.wounded_this_combat = true;
        !self.is_alive()
    }

    /// Sum of all modifiers that match the stat name and, if they carry a
    /// condition, contain the queried condition. Dice-based modifiers are
    /// re-rolled on every query, so only bounds are promised; when no
    /// matching modifier carries dice the bounds coincide and the result is
    /// exact.
    pub fn get_stat_modifier(&self, stat: &str, condition: Option<&str>) -> (r: i32)
        requires
            mods_wf(self.modifiers@),
            mag_sum(self.modifiers@) <= 0x4000_0000,
        ensures
            total_min(self.modifiers@, stat@, opt_str_view(condition)) <= r,
            r <= total_max(self.modifiers@, stat@, opt_str_view(condition)),
    {
        let s_key: String = stat.to_owned();
        let q_key: Option<String> = match condition {
            Some(c) => Some(c.to_owned()),
            None => None,
        };
        let ghost qv = opt_str_view(condition);
        let ghost mods = self.modifiers@;
        let mut total: i64 = 0;
        let n = self.modifiers.len();
        let mut i: usize = 0;
        while i < n
            invariant
                n == mods.len(),
                mods == self.modifiers@,
                mods_wf(mods),
                mag_sum(mods) <= 0x4000_0000,
                0 <= i <= n,
                s_key@ == stat@,
                qv == opt_str_view(condition),
                match q_key {
                    Some(q) => qv matches Some(v) && q@ == v,
                    None => qv matches None,
                },
                total_min(mods.take(i as int), stat@, qv) <= total,
                total <= total_max(mods.take(i as int), stat@, qv),
                -mag_sum(mods.take(i as int)) <= total <= mag_sum(mods.take(i as int)),
            decreases n - i,
        {
            proof {
                assert(mods.take(i + 1).drop_last() =~= mods.take(i as int));
                assert(mods.take(i + 1).last() == mods[i as int]);
                crate::modifiers::lemma_mag_sum_take(mods, i + 1);
                crate::modifiers::lemma_total_bounds(mods.take(i as int), stat@, qv);
            }
            let m = &self.modifiers[i];
            let mut applies: bool = m.stat == s_key;
            if applies {
                match (&m.condition, &q_key) {
                    (Some(c), Some(q)) => {
                        applies = crate::text::str_contains(c.as_str(), q.as_str());
                    },
                    (Some(_), None) => {
                        applies = false;
                    },
                    (None, _) => {},
                }
            }
            proof {
                assert(applies == modifier_applies(mods[i as int], stat@, qv));
            }
            if applies {
                let v = m.get_value();
                total = total + v as i64;
            }
            i = i + 1;
        }
        proof {
            assert(mods.take(n as int) =~= mods);
        }
        total as i32
    }

    /// Total speed contribution of the equipped items (exact: equipment
    /// speed is always flat).
    pub fn get_equipment_speed(&self) -> (r: i32)
        requires
            self.equipment@.len() <= 16,
            equips_wf(self.equipment@),
        ensures
            r == equip_speed_sum(self.equipment@),
    {
        let ghost eq = self.equipment@;
        let mut total: i64 = 0;
        let n = self.equipment.len();
        let mut i: usize = 0;
        while i < n
            invariant
                n == eq.len() <= 16,
                eq == self.equipment@,
                equips_wf(eq),
                0 <= i <= n,
                total == equip_speed_sum(eq.take(i as int)),
                -(i as int) * (STAT_BOUND as int) <= total <= (i as int) * (STAT_BOUND as int),
            decreases n - i,
        {
            proof {
                assert(eq.take(i + 1).drop_last() =~= eq.take(i as int));
                assert(eq.take(i + 1).last() == eq[i as int]);
            }
            total = total + self.equipment[i].speed_mod as i64;
            i = i + 1;
        }
        proof {
            assert(eq.take(n as int) =~= eq);
        }
        total as i32
    }

    /// Total defense from equipment; dice parts are re-rolled per query.
    pub fn get_equipment_defense(&self) -> (r: i32)
        requires
            self.equipment@.len() <= 16,
            equips_wf(self.equipment@),
        ensures
            equip_def_min(self.equipment@) <= r <= equip_def_max(self.equipment@),
    {
        let ghost eq = self.equipment@;
        let mut total: i64 = 0;
        let n = self.equipment.len();
        let mut i: usize = 0;
        while i < n
            invariant
                n == eq.len() <= 16,
                eq == self.equipment@,
                equips_wf(eq),
                0 <= i <= n,
                equip_def_min(eq.take(i as int)) <= total <= equip_def_max(eq.take(i as int)),
                -(i as int) * 2 * (STAT_BOUND as int) <= total <= (i as int) * 2 * (
                STAT_BOUND as int),
            decreases n - i,
        {
            proof {
                assert(eq.take(i + 1).drop_last() =~= eq.take(i as int));
                assert(eq.take(i + 1).last() == eq[i as int]);
            }
            let d = self.equipment[i].get_defense();
            total = total + d as i64;
            i = i + 1;
        }
        proof {
            assert(eq.take(n as int) =~= eq);
        }
        total as i32
    }

    /// Twice the expected equipment defense, for heuristics (exact).
    pub fn get_equipment_defense_avg_x2(&self) -> (r: i32)
        requires
            self.equipment@.len() <= 16,
            equips_wf(self.equipment@),
        ensures
            r == equip_def_avg_x2(self.equipment@),
    {
        let ghost eq = self.equipment@;
        let mut total: i64 = 0;
        let n = self.equipment.len();
        let mut i: usize = 0;
        while i < n
            invariant
                n == eq.len() <= 16,
                eq == self.equipment@,
                equips_wf(eq),
                0 <= i <= n,
                total == equip_def_avg_x2(eq.take(i as int)),
                -(i as int) * 4 * (STAT_BOUND as int) <= total <= (i as int) * 4 * (
                STAT_BOUND as int),
            decreases n - i,
        {
            proof {
                assert(eq.take(i + 1).drop_last() =~= eq.take(i as int));
                assert(eq.take(i + 1).last() == eq[i as int]);
                match eq[i as int].defense {
                    Some(d) => {
                        assert(0 <= d.num_dice * (1 + d.sides) <= 255 * 256) by (nonlinear_arith)
                            requires
                                0 <= d.num_dice <= 255,
                                0 <= d.sides <= 255,
                        ;
                    },
                    None => {},
                }
            }
            let d = self.equipment[i].get_defense_avg_x2();
            total = total + d as i64;
            i = i + 1;
        }
        proof {
            assert(eq.take(n as int) =~= eq);
        }
        total as i32
    }

    /// Effective speed: base speed, plus speed modifiers, plus equipment,
    /// plus the played card's own speed delta if one is given.
    pub fn get_effective_speed(&self, card: Option<&Card>) -> (r: i32)
        requires
            self.stats_wf(),
            match card {
                Some(c) => c.wf(),
                None => true,
            },
        ensures
            ({
                let base = self.speed + equip_speed_sum(self.equipment@) + match card {
                    Some(c) => c.speed_mod as int,
                    None => 0,
                };
                base + total_min(self.modifiers@, "speed"@, None) <= r && r <= base + total_max(
                    self.modifiers@,
                    "speed"@,
                    None,
                )
            }),
    {
        proof {
            crate::modifiers::lemma_total_bounds(self.modifiers@, "speed"@, None);
            lemma_equip_sums_bounds(self.equipment@);
        }
        let m = self.get_stat_modifier("speed", None);
        let e = self.get_equipment_speed();
        let c: i32 = match card {
            Some(cc) => cc.speed_mod,
            None => 0,
        };
        let total: i64 = self.speed as i64 + m as i64 + e as i64 + c as i64;
        total as i32
    }

    /// Effective strength: base strength plus matching modifiers.
    pub fn get_effective_strength(&self) -> (r: i32)
        requires
            self.stats_wf(),
        ensures
            self.strength + total_min(self.modifiers@, "strength"@, None) <= r,
            r <= self.strength + total_max(self.modifiers@, "strength"@, None),
    {
        proof {
            crate::modifiers::lemma_total_bounds(self.modifiers@, "strength"@, None);
        }
        let m = self.get_stat_modifier("strength", None);
        let total: i64 = self.strength as i64 + m as i64;
        total as i32
    }

    /// Effective magic: base magic plus matching modifiers.
    pub fn get_effective_magic(&self) -> (r: i32)
        requires
            self.stats_wf(),
        ensures
            self.magic + total_min(self.modifiers@, "magic"@, None) <= r,
            r <= self.magic + total_max(self.modifiers@, "magic"@, None),
    {
        proof {
            crate::modifiers::lemma_total_bounds(self.modifiers@, "magic"@, None);
        }
        let m = self.get_stat_modifier("magic", None);
        let total: i64 = self.magic as i64 + m as i64;
        total as i32
    }

    /// Effective defense: base defense, plus matching modifiers, plus
    /// equipment defense (whose dice are re-rolled per query).
    pub fn get_effective_defense(&self) -> (r: i32)
        requires
            self.stats_wf(),
        ensures
            self.defense + total_min(self.modifiers@, "defense"@, None) + equip_def_min(
                self.equipment@,
            ) <= r,
            r <= self.defense + total_max(self.modifiers@, "defense"@, None) + equip_def_max(
                self.equipment@,
            ),
    {
        proof {
            crate::modifiers::lemma_total_bounds(self.modifiers@, "defense"@, None);
            lemma_equip_sums_bounds(self.equipment@);
        }
        let m = self.get_stat_modifier("defense", None);
        let e = self.get_equipment_defense();
        let total: i64 = self.defense as i64 + m as i64 + e as i64;
        total as i32
    }

    /// Whether any pending defense grant protects this character.
    pub fn has_defense_bonus(&self) -> (r: bool)
        ensures
            r == (self.defense_bonuses@.len() > 0),
    {
        self.defense_bonuses.len() > 0
    }

    /// Consume the most recent pending defense grant, if any: returns the
    /// donor's identity and the grant's captured defense plus a fresh roll
    /// of its dice.
    pub fn pop_defense_bonus(&mut self) -> (r: Option<(u8, usize, String, i32)>)
        requires
            grants_wf(old(self).defense_bonuses@),
        ensures
            old(self).defense_bonuses@.len() == 0 ==> {
                &&& r matches None
                &&& *final(self) == (Character {
                    defense_bonuses: final(self).defense_bonuses,
                    ..*old(self)
                })
                &&& final(self).defense_bonuses@ == old(self).defense_bonuses@
            },
            old(self).defense_bonuses@.len() > 0 ==> {
                let g = old(self).defense_bonuses@.last();
                &&& *final(self) == (Character {
                    defense_bonuses: final(self).defense_bonuses,
                    ..*old(self)
                })
                &&& final(self).defense_bonuses@ == old(self).defense_bonuses@.drop_last()
                &&& r matches Some(info)
                &&& info.0 == g.team
                &&& info.1 == g.idx
                &&& info.2@ == g.name@
                &&& g.base_defense + g.dice.min_roll() <= info.3 <= g.base_defense
                    + g.dice.max_roll()
            },
    {
        let popped = self.defense_bonuses.pop();
        match popped {
            Some(g) => {
                let roll = g.dice.roll();
                let total: i64 = g.base_defense as i64 + roll as i64;
                Some((g.team, g.idx, g.name, total as i32))
            },
            None => None,
        }
    }

    /// Total attack bonus against a named target: unconditional
    /// `attack_bonus` modifiers always apply; conditional ones apply only
    /// when their condition label contains the target's name.
    pub fn get_attack_bonus(&self, target_name: &str) -> (r: i32)
        requires
            mods_wf(self.modifiers@),
            mag_sum(self.modifiers@) <= 0x4000_0000,
        ensures
            total_min(self.modifiers@, "attack_bonus"@, Some(target_name@)) <= r,
            r <= total_max(self.modifiers@, "attack_bonus"@, Some(target_name@)),
    {
        self.get_stat_modifier("attack_bonus", Some(target_name))
    }

    /// Equip an item, replacing whatever occupied its slot.
    pub fn equip(&mut self, item: Equipment)
        ensures
            *final(self) == (Character { equipment: final(self).equipment, ..*old(self) }),
            final(self).equipment@ == remove_slot(old(self).equipment@, item.slot).push(item),
    {
        let ghost eq = self.equipment@;
        let ghost slot = item.slot;
        let mut kept: Vec<Equipment> = Vec::new();
        let n = self.equipment.len();
        let mut i: usize = 0;
        while i < n
            invariant
                n == eq.len(),
                eq == self.equipment@,
                0 <= i <= n,
                slot == item.slot,
                kept@ == remove_slot(eq.take(i as int), slot),
            decreases n - i,
        {
            proof {
                assert(eq.take(i + 1).drop_last() =~= eq.take(i as int));
                assert(eq.take(i + 1).last() == eq[i as int]);
            }
            let e = &self.equipment[i];
            if !(e.slot == item.slot) {
                kept.push(e.clone());
            }
            i = i + 1;
        }
        proof {
            assert(eq.take(n as int) =~= eq);
        }
        kept.push(item);
        self.equipment = kept;
    }

    /// Clear all combat-scoped state, as done once at the start of a combat.
    pub fn reset_for_new_combat(&mut self)
        ensures
            *final(self) == (Character {
                current_wounds: 0,
                modifiers: final(self).modifiers,
                defense_bonuses: final(self).defense_bonuses,
                skip_turns: 0,
                stunned: false,
                dodging: false,
                focus_interrupted: false,
                played_card_idx: None,
                wounded_this_combat: false,
                has_absorb_pain: false,
                has_poison_weapon: false,
                ..*old(self)
            }),
            final(self).modifiers@ == Seq::<CombatModifier>::empty(),
            final(self).defense_bonuses@ == Seq::<DefenseGrant>::empty(),
    {
        self.current_wounds = 0;
        self.modifiers.clear();
        self.defense_bonuses.clear();
        self.skip_turns = 0;
        self.stunned = false;
        self.dodging = false;
        self.focus_interrupted = false;
        self.played_card_idx = None;
        self.wounded_this_combat = false;
        self.has_absorb_pain = false;
        self.has_poison_weapon = false;
    }

    /// Clear per-round flags and the pending defense grants; consume one
    /// skip-turn if any is pending, reporting whether the round is skipped.
    pub fn reset_for_new_round(&mut self) -> (skipped: bool)
        ensures
            *final(self) == (Character {
                dodging: false,
                focus_interrupted: false,
                played_card_idx: None,
                defense_bonuses: final(self).defense_bonuses,
                skip_turns: if old(self).skip_turns > 0 {
                    (old(self).skip_turns - 1) as u8
                } else {
                    0
                },
                ..*old(self)
            }),
            final(self).defense_bonuses@ == Seq::<DefenseGrant>::empty(),
            skipped == (old(self).skip_turns > 0),
    {
        self.dodging = false;
        self.focus_interrupted = false;
        self.played_card_idx = None;
        self.defense_bonuses.clear();
        if self.skip_turns > 0 {
            self.skip_turns = self.skip_turns - 1;
            true
        } else {
            false
        }
    }

    /// Apply one round boundary to the modifier list: expired modifiers are
    /// dropped, `ThisAndNextTurn` ones are rescoped to `NextTurn`.
    pub fn advance_turn_modifiers(&mut self)
        ensures
            *final(self) == (Character { modifiers: final(self).modifiers, ..*old(self) }),
            final(self).modifiers@ == advance_seq(old(self).modifiers@),
    {
        let ghost mods = self.modifiers@;
        let mut kept: Vec<CombatModifier> = Vec::new();
        let n = self.modifiers.len();
        let mut i: usize = 0;
        while i < n
            invariant
                n == mods.len(),
                mods == self.modifiers@,
                0 <= i <= n,
                kept@ == advance_seq(mods.take(i as int)),
            decreases n - i,
        {
            proof {
                assert(mods.take(i + 1).drop_last() =~= mods.take(i as int));
                assert(mods.take(i + 1).last() == mods[i as int]);
            }
            let m = &self.modifiers[i];
            match m.duration {
                ModifierDuration::ThisTurn => {},
                ModifierDuration::NextTurn => {},
                ModifierDuration::ThisAndNextTurn => {
                    let mut adv = m.clone();
                    adv.duration = ModifierDuration::NextTurn;
                    proof {
                        assert(adv == crate::modifiers::advance_one(mods[i as int]));
                    }
                    kept.push(adv);
                },
                ModifierDuration::RestOfCombat => {
                    proof {
                        assert(crate::modifiers::advance_one(mods[i as int]) == mods[i as int]);
                    }
                    kept.push(m.clone());
                },
            }
            i = i + 1;
        }
        proof {
            assert(mods.take(n as int) =~= mods);
        }
        self.modifiers = kept;
    }
}

} // verus!

use vstd::prelude::*;

use crate::cards::Card;
use crate::character::Character;
use crate::dice::DiceRoll;
use crate::engine::{rel_get, rel_lookup, CombatEngine};
use crate::modifiers::{mag_sum, CombatModifier, ModifierDuration};

verus! {

/// The permanent +1 defense a pain-absorbing defender earns when a granted
/// defense absorbs a miss.
pub open spec fn is_absorb_mod(m: CombatModifier) -> bool {
    &&& m.stat@ == "defense"@
    &&& m.value == 1
    &&& m.dice matches None
    &&& m.duration == ModifierDuration::RestOfCombat
    &&& m.condition matches None
}

/// Everything about a character that one attack resolution can never touch.
pub open spec fn char_statics_eq(a: Character, b: Character) -> bool {
    &&& b.name == a.name
    &&& b.max_wounds == a.max_wounds
    &&& b.strength == a.strength
    &&& b.magic == a.magic
    &&& b.defense == a.defense
    &&& b.speed == a.speed
    &&& b.cards == a.cards
    &&& b.team == a.team
    &&& b.character_class == a.character_class
    &&& b.equipment == a.equipment
}

/// How one attack resolution may move a character from `a` to `b`: statics
/// stay, wounds grow by at most three and never shrink, and the modifier
/// load grows by at most one absorb bonus.
pub open spec fn attack_frame(a: Character, b: Character) -> bool {
    &&& char_statics_eq(a, b)
    &&& a.current_wounds <= b.current_wounds <= a.current_wounds + 3
    &&& mag_sum(b.modifiers@) <= mag_sum(a.modifiers@) + 1
    &&& b.skip_turns == a.skip_turns
    &&& b.played_card_idx == a.played_card_idx
}

/// Whether an attack nominally aimed at `nominal` is left with its nominal
/// target: no sacrifice binding protects that name, or the registered
/// protector is no longer alive.
pub open spec fn no_redirect(e: CombatEngine, nominal: Seq<char>) -> bool {
    match rel_lookup(e.sacrifice_targets@, nominal) {
        Some(p) => !crate::engine::exists_alive_named(e, p),
        None => true,
    }
}

/// The greatest offensive total one sampling of this card in the attacker's
/// hands can reach against the named recipient: top of the effective-stat
/// range, the dice maximum, and the top of the attack-bonus range.
pub open spec fn attack_total_max(a: Character, card: Card, recipient: Seq<char>) -> int {
    (if card.card_type.spec_is_physical() {
        a.strength + crate::modifiers::total_max(a.modifiers@, "strength"@, None)
    } else {
        a.magic + crate::modifiers::total_max(a.modifiers@, "magic"@, None)
    }) + (match (if card.card_type.spec_is_physical() {
        card.physical_attack
    } else {
        card.magic_attack
    }) {
        Some(d) => d.max_roll(),
        None => 0,
    }) + crate::modifiers::total_max(a.modifiers@, "attack_bonus"@, Some(recipient))
}

/// The least defensive total one sampling of a character's own effective
/// defense can be.
pub open spec fn own_defense_min(c: Character) -> int {
    c.defense + crate::modifiers::total_min(c.modifiers@, "defense"@, None)
        + crate::character::equip_def_min(c.equipment@)
}

/// Every character agrees between the two states, except possibly at one
/// excluded slot.
pub open spec fn unchanged_except(a: CombatEngine, b: CombatEngine, et: u8, ei: int) -> bool {
    forall|t: u8, j: int|
        (t == 1 || t == 2) && 0 <= j < a.roster(t).len() && !(t == et && j == ei)
            ==> (#[trigger] b.roster(t)[j]) == a.roster(t)[j]
}

/// Every character's wound count agrees between the two states, except
/// possibly at one excluded slot.
pub open spec fn wounds_unchanged_except(a: CombatEngine, b: CombatEngine, et: u8, ei: int) -> bool {
    forall|t: u8, j: int|
        (t == 1 || t == 2) && 0 <= j < a.roster(t).len() && !(t == et && j == ei) ==> (
        #[trigger] b.roster(t)[j]).current_wounds == a.roster(t)[j].current_wounds
}

/// Every character's wound count agrees between the two states, except
/// possibly at two excluded slots.
pub open spec fn wounds_unchanged_except2(
    a: CombatEngine,
    b: CombatEngine,
    et1: u8,
    ei1: int,
    et2: u8,
    ei2: int,
) -> bool {
    forall|t: u8, j: int|
        (t == 1 || t == 2) && 0 <= j < a.roster(t).len() && !(t == et1 && j == ei1) && !(t == et2
            && j == ei2) ==> (#[trigger] b.roster(t)[j]).current_wounds == a.roster(
            t,
        )[j].current_wounds
}

/// Every character's wound count agrees between the two states.
pub open spec fn all_wounds_unchanged(a: CombatEngine, b: CombatEngine) -> bool {
    forall|t: u8, j: int|
        (t == 1 || t == 2) && 0 <= j < a.roster(t).len() ==> (#[trigger] b.roster(
            t,
        )[j]).current_wounds == a.roster(t)[j].current_wounds
}

/// The roster slot that takes the wound on a hit: the grant donor when a
/// grant was consumed, the actual recipient otherwise.
pub open spec fn wound_slot_of(defender_info: Option<(u8, usize)>, actual_team: u8, actual_idx: usize) -> (u8, usize) {
    match defender_info {
        Some(d) => d,
        None => (actual_team, actual_idx),
    }
}

/// The greatest defensive total one sampling of a character's own effective
/// defense can be.
pub open spec fn own_defense_max(c: Character) -> int {
    c.defense + crate::modifiers::total_max(c.modifiers@, "defense"@, None)
        + crate::character::equip_def_max(c.equipment@)
}

impl CombatEngine {
    /// Every engine field but the rosters and the per-round wounded set
    /// agrees between the two states.
    pub open spec fn eq_except_combatants(a: CombatEngine, b: CombatEngine) -> bool {
        &&& a.round_number == b.round_number
        &&& a.max_rounds == b.max_rounds
        &&& a.verbose == b.verbose
        &&& a.vengeance_targets == b.vengeance_targets
        &&& a.sacrifice_targets == b.sacrifice_targets
        &&& a.coordinated_ambush_target == b.coordinated_ambush_target
        &&& a.stats == b.stats
        &&& a.team1_cards_played == b.team1_cards_played
        &&& a.team2_cards_played == b.team2_cards_played
        &&& a.team1@.len() == b.team1@.len()
        &&& a.team2@.len() == b.team2@.len()
    }

    /// The counter-attack an avenger registered for `nominal` makes against
    /// the attacker: effective strength plus 1d8 against the attacker's
    /// effective defense; a winning counter costs the attacker exactly one
    /// wound.
    fn vengeance_counter(&mut self, nominal: &String, attacker_team: u8, attacker_idx: usize)
        requires
            old(self).chars_ok(),
            old(self).stats_in_range(),
            old(self).valid_slot(attacker_team, attacker_idx),
        ensures
            final(self).chars_ok(),
            CombatEngine::eq_except_combatants(*final(self), *old(self)),
            forall|t: u8, j: int|
                (t == 1 || t == 2) && 0 <= j < old(self).roster(t).len() && !(t == attacker_team
                    && j == attacker_idx) ==> #[trigger] final(self).roster(t)[j] == old(
                    self,
                ).roster(t)[j],
            ({
                let a = old(self).roster(attacker_team)[attacker_idx as int];
                let b = final(self).roster(attacker_team)[attacker_idx as int];
                b == a || b == (Character {
                    current_wounds: (a.current_wounds + 1) as u32,
                    wounded_this_combat: true,
                    ..a
                })
            }),
            rel_lookup(old(self).vengeance_targets@, nominal@) matches None ==> *final(self)
                == *old(self),
    {
        match rel_get(&self.vengeance_targets, nominal) {
            Some(avenger_name) => {
                match self.find_alive_by_name(&avenger_name) {
                    Some(slot) => {
                        let avenger_strength = self.char_at(slot.0, slot.1).get_effective_strength();
                        let counter_roll = DiceRoll::new(1, 8, 0).roll();
                        let counter: i64 = avenger_strength as i64 + counter_roll as i64;
                        let attacker_def = self.char_at(
                            attacker_team,
                            attacker_idx,
                        ).get_effective_defense();
                        if counter > attacker_def as i64 {
                            let attacker_name = self.char_at(
                                attacker_team,
                                attacker_idx,
                            ).name.clone();
                            {
                                let c = self.char_mut(attacker_team, attacker_idx);
                                let _ = c.take_wound();
                            }
                            self.wounded_this_round.push(attacker_name);
                        }
                    },
                    None => {},
                }
            },
            None => {},
        }
    }

    /// Land a wound on the chosen recipient: interrupt a committed Focus,
    /// deal one wound, and deal one more if a poisoned physical attack hit a
    /// recipient that was still alive.
    fn apply_hit_to(&mut self, wound_team: u8, wound_idx: usize, extra_poison: bool)
        requires
            old(self).chars_ok(),
            old(self).roster(wound_team)[wound_idx as int].current_wounds < 0x8000_0000,
            old(self).valid_slot(wound_team, wound_idx),
        ensures
            final(self).chars_ok(),
            CombatEngine::eq_except_combatants(*final(self), *old(self)),
            forall|t: u8, j: int|
                (t == 1 || t == 2) && 0 <= j < old(self).roster(t).len() && !(t == wound_team && j
                    == wound_idx) ==> #[trigger] final(self).roster(t)[j] == old(self).roster(
                    t,
                )[j],
            ({
                let a = old(self).roster(wound_team)[wound_idx as int];
                let b = final(self).roster(wound_team)[wound_idx as int];
                &&& char_statics_eq(a, b)
                &&& b.skip_turns == a.skip_turns
                &&& b.stunned == a.stunned
                &&& b.dodging == a.dodging
                &&& b.played_card_idx == a.played_card_idx
                &&& b.has_absorb_pain == a.has_absorb_pain
                &&& b.has_poison_weapon == a.has_poison_weapon
                &&& b.modifiers == a.modifiers
                &&& b.defense_bonuses == a.defense_bonuses
                &&& a.current_wounds + 1 <= b.current_wounds <= a.current_wounds + 2
                &&& b.wounded_this_combat == true
                &&& (b.focus_interrupted == a.focus_interrupted || b.focus_interrupted == true)
            }),
    {
        self.check_focus_interruption(wound_team, wound_idx);
        let wound_name = self.char_at(wound_team, wound_idx).name.clone();
        {
            let c = self.char_mut(wound_team, wound_idx);
            let _ = c.take_wound();
        }
        self.wounded_this_round.push(wound_name);
        if extra_poison {
            if self.char_at(wound_team, wound_idx).is_alive() {
                let c = self.char_mut(wound_team, wound_idx);
                let _ = c.take_wound();
            }
        }
    }

    /// Give a pain-absorbing grant donor its permanent +1 defense after a
    /// granted defense absorbed a miss.
    fn absorb_pain_bonus(&mut self, donor_team: u8, donor_idx: usize)
        requires
            old(self).chars_ok(),
            old(self).valid_slot(donor_team, donor_idx),
        ensures
            final(self).chars_ok(),
            CombatEngine::eq_except_combatants(*final(self), *old(self)),
            final(self).wounded_this_round == old(self).wounded_this_round,
            forall|t: u8, j: int|
                (t == 1 || t == 2) && 0 <= j < old(self).roster(t).len() && !(t == donor_team && j
                    == donor_idx) ==> #[trigger] final(self).roster(t)[j] == old(self).roster(
                    t,
                )[j],
            ({
                let a = old(self).roster(donor_team)[donor_idx as int];
                let b = final(self).roster(donor_team)[donor_idx as int];
                &&& (b == a || (b == (Character { modifiers: b.modifiers, ..a }) && b.modifiers@
                    == a.modifiers@.push(b.modifiers@.last()) && is_absorb_mod(b.modifiers@.last())
                    && mag_sum(b.modifiers@) <= mag_sum(a.modifiers@) + 1))
            }),
    {
        let has_absorb = self.char_at(donor_team, donor_idx).has_absorb_pain;
        if has_absorb {
            let m = CombatModifier::new("defense", 1, ModifierDuration::RestOfCombat).with_source(
                "Absorvir dolor",
            );
            let ghost mpre = self.roster(donor_team)[donor_idx as int].modifiers@;
            let c = self.char_mut(donor_team, donor_idx);
            c.modifiers.push(m);
            proof {
                assert(mpre.push(m).drop_last() =~= mpre);
                assert(mag_sum(mpre.push(m)) == mag_sum(mpre) + m.mag());
            }
        }
    }

    /// Fields a card resolution step other than an attack never touches:
    /// the round bookkeeping and the statistics.
    pub open spec fn eq_bookkeeping(a: CombatEngine, b: CombatEngine) -> bool {
        &&& a.round_number == b.round_number
        &&& a.max_rounds == b.max_rounds
        &&& a.verbose == b.verbose
        &&& a.stats == b.stats
        &&& a.team1_cards_played == b.team1_cards_played
        &&& a.team2_cards_played == b.team2_cards_played
        &&& a.team1@.len() == b.team1@.len()
        &&& a.team2@.len() == b.team2@.len()
    }

    /// Append one timed modifier to a rostered character's list.
    fn push_modifier_to(&mut self, team: u8, idx: usize, m: CombatModifier)
        requires
            old(self).chars_ok(),
            old(self).valid_slot(team, idx),
            m.wf(),
            match m.dice {
                Some(_) => true,
                None => -1024 <= m.value <= 1024,
            },
        ensures
            final(self).chars_ok(),
            CombatEngine::eq_bookkeeping(*final(self), *old(self)),
            final(self).vengeance_targets == old(self).vengeance_targets,
            final(self).sacrifice_targets == old(self).sacrifice_targets,
            final(self).coordinated_ambush_target == old(self).coordinated_ambush_target,
            final(self).wounded_this_round == old(self).wounded_this_round,
            forall|j: int|
                0 <= j < old(self).team1@.len() && !(team == 1 && j == idx)
                    ==> (#[trigger] final(self).team1@[j]) == old(self).team1@[j],
            forall|j: int|
                0 <= j < old(self).team2@.len() && !(team == 2 && j == idx)
                    ==> (#[trigger] final(self).team2@[j]) == old(self).team2@[j],
            ({
                let a = old(self).roster(team)[idx as int];
                let b = final(self).roster(team)[idx as int];
                &&& b == (Character { modifiers: b.modifiers, ..a })
                &&& b.modifiers@ == a.modifiers@.push(m)
                &&& mag_sum(b.modifiers@) <= mag_sum(a.modifiers@) + 0x1_0800
            }),
            team == 1 ==> final(self).team1@[idx as int] == final(self).roster(team)[idx as int]
                && old(self).team1@[idx as int] == old(self).roster(team)[idx as int],
            team == 2 ==> final(self).team2@[idx as int] == final(self).roster(team)[idx as int]
                && old(self).team2@[idx as int] == old(self).roster(team)[idx as int],
    {
        proof {
            match m.dice {
                Some(d) => {
                    assert(0 <= d.num_dice * d.sides <= 255 * 255) by (nonlinear_arith)
                        requires
                            0 <= d.num_dice <= 255,
                            0 <= d.sides <= 255,
                    ;
                },
                None => {},
            }
        }
        let ghost mpre = self.roster(team)[idx as int].modifiers@;
        let c = self.char_mut(team, idx);
        c.modifiers.push(m);
        proof {
            assert(mpre.push(m).drop_last() =~= mpre);
            assert(mag_sum(mpre.push(m)) == mag_sum(mpre) + m.mag());
        }
    }

    /// Record one play of a card into the statistics and the acting team's
    /// play log.
    fn record_card_play(&mut self, team: u8, card_name: &String, type_label: &String)
        requires
            old(self).chars_ok(),
            team == 1 || team == 2,
            crate::stats::weight(old(self).stats.card_stats@) < 0x1000_0000_0000_0000 - 1,
            crate::stats::weight(old(self).stats.card_type_stats@) < 0x1000_0000_0000_0000 - 1,
        ensures
            final(self).chars_ok(),
            final(self).team1 == old(self).team1,
            final(self).team2 == old(self).team2,
            final(self).round_number == old(self).round_number,
            final(self).max_rounds == old(self).max_rounds,
            final(self).verbose == old(self).verbose,
            final(self).vengeance_targets == old(self).vengeance_targets,
            final(self).sacrifice_targets == old(self).sacrifice_targets,
            final(self).coordinated_ambush_target == old(self).coordinated_ambush_target,
            final(self).wounded_this_round == old(self).wounded_this_round,
            crate::stats::weight(final(self).stats.card_stats@) == crate::stats::weight(
                old(self).stats.card_stats@,
            ) + 1,
            crate::stats::weight(final(self).stats.card_type_stats@) == crate::stats::weight(
                old(self).stats.card_type_stats@,
            ) + 1,
            crate::stats::lookup(final(self).stats.card_stats@, card_name@) == Some(
                crate::stats::spec_record_play(
                    crate::stats::or_zero(
                        crate::stats::lookup(old(self).stats.card_stats@, card_name@),
                    ),
                ),
            ),
            forall|k: Seq<char>|
                k != card_name@ ==> crate::stats::lookup(final(self).stats.card_stats@, k)
                    == crate::stats::lookup(old(self).stats.card_stats@, k),
            crate::stats::lookup(final(self).stats.card_type_stats@, type_label@) == Some(
                crate::stats::spec_record_play(
                    crate::stats::or_zero(
                        crate::stats::lookup(old(self).stats.card_type_stats@, type_label@),
                    ),
                ),
            ),
            forall|k: Seq<char>|
                k != type_label@ ==> crate::stats::lookup(final(self).stats.card_type_stats@, k)
                    == crate::stats::lookup(old(self).stats.card_type_stats@, k),
            team == 1 ==> {
                &&& final(self).team1_cards_played@.len() == old(self).team1_cards_played@.len()
                    + 1
                &&& final(self).team1_cards_played@.drop_last() == old(self).team1_cards_played@
                &&& final(self).team1_cards_played@.last().0@ == card_name@
                &&& final(self).team1_cards_played@.last().1@ == type_label@
                &&& final(self).team2_cards_played == old(self).team2_cards_played
            },
            team == 2 ==> {
                &&& final(self).team2_cards_played@.len() == old(self).team2_cards_played@.len()
                    + 1
                &&& final(self).team2_cards_played@.drop_last() == old(self).team2_cards_played@
                &&& final(self).team2_cards_played@.last().0@ == card_name@
                &&& final(self).team2_cards_played@.last().1@ == type_label@
                &&& final(self).team1_cards_played == old(self).team1_cards_played
            },
    {
        proof {
            crate::stats::lemma_lookup_le_weight(self.stats.card_stats@, card_name@);
        }
        self.stats.record_play(card_name.as_str(), type_label.as_str());
        if team == 1 {
            let ghost lpre = self.team1_cards_played@;
            self.team1_cards_played.push((card_name.clone(), type_label.clone()));
            proof {
                assert(self.team1_cards_played@.drop_last() =~= lpre);
            }
        } else {
            let ghost lpre = self.team2_cards_played@;
            self.team2_cards_played.push((card_name.clone(), type_label.clone()));
            proof {
                assert(self.team2_cards_played@.drop_last() =~= lpre);
            }
        }
    }

    /// Consume the newest pending defense grant of the recipient slot, if
    /// any: the queue loses exactly its last entry and nothing else in the
    /// engine moves.
    fn consume_defense_grant(&mut self, team: u8, idx: usize) -> (r: Option<(u8, usize, String, i32)>)
        requires
            old(self).chars_ok(),
            old(self).stats_in_range(),
            old(self).valid_slot(team, idx),
        ensures
            final(self).chars_ok(),
            final(self).stats_in_range(),
            CombatEngine::eq_except_combatants(*final(self), *old(self)),
            final(self).wounded_this_round == old(self).wounded_this_round,
            forall|t: u8, j: int|
                (t == 1 || t == 2) && 0 <= j < old(self).roster(t).len() && !(t == team && j
                    == idx) ==> #[trigger] final(self).roster(t)[j] == old(self).roster(t)[j],
            ({
                let a = old(self).roster(team)[idx as int];
                let b = final(self).roster(team)[idx as int];
                &&& b == (Character { defense_bonuses: b.defense_bonuses, ..a })
                &&& (a.defense_bonuses@.len() == 0 ==> b.defense_bonuses@ == a.defense_bonuses@
                    && (r matches None))
                &&& (a.defense_bonuses@.len() > 0 ==> b.defense_bonuses@
                    == a.defense_bonuses@.drop_last() && {
                    let g = a.defense_bonuses@.last();
                    &&& r matches Some(info)
                    &&& info.0 == g.team
                    &&& info.1 == g.idx
                    &&& old(self).valid_slot(g.team, g.idx)
                    &&& -0x7100_0000 <= info.3 <= 0x7100_0000
                })
            }),
    {
        let ghost a = self.roster(team)[idx as int];
        let r = {
            let c = self.char_mut(team, idx);
            c.pop_defense_bonus()
        };
        proof {
            if a.defense_bonuses@.len() > 0 {
                let g = a.defense_bonuses@.last();
                assert(g.wf());
                g.dice.lemma_range();
                assert(forall|i: int|
                    0 <= i < a.defense_bonuses@.drop_last().len()
                        ==> (#[trigger] a.defense_bonuses@.drop_last()[i])
                        == a.defense_bonuses@[i]);
            }
        }
        r
    }

    /// One sampled offensive total for `card` in the attacker's hands: the
    /// matching effective stat, one roll of the card's attack dice, and the
    /// attack bonus against the named recipient.
    fn attack_total(
        &self,
        attacker_team: u8,
        attacker_idx: usize,
        card: &Card,
        recipient_name: &String,
    ) -> (r: i64)
        requires
            self.chars_ok(),
            self.stats_in_range(),
            self.valid_slot(attacker_team, attacker_idx),
            card.wf(),
        ensures
            -0x2_0000_0000 <= r <= 0x2_0000_0000,
            r <= attack_total_max(
                self.roster(attacker_team)[attacker_idx as int],
                *card,
                recipient_name@,
            ),
    {
        let attacker = self.char_at(attacker_team, attacker_idx);
        let attack_stat: i32 = if card.card_type.is_physical() {
            attacker.get_effective_strength()
        } else {
            attacker.get_effective_magic()
        };
        let attack_dice: Option<DiceRoll> = if card.card_type.is_physical() {
            card.physical_attack
        } else {
            card.magic_attack
        };
        let dice_roll: i32 = match attack_dice {
            Some(d) => d.roll(),
            None => 0,
        };
        let attack_bonus: i32 = attacker.get_attack_bonus(recipient_name.as_str());
        attack_stat as i64 + dice_roll as i64 + attack_bonus as i64
    }

    /// One sampled defensive total of a character's own effective defense.
    fn own_defense_total(&self, team: u8, idx: usize) -> (r: i64)
        requires
            self.chars_ok(),
            self.stats_in_range(),
            self.valid_slot(team, idx),
        ensures
            -0x2_0000_0000 <= r <= 0x2_0000_0000,
            own_defense_min(self.roster(team)[idx as int]) <= r <= own_defense_max(
                self.roster(team)[idx as int],
            ),
    {
        let c = self.char_at(team, idx);
        c.get_effective_defense() as i64
    }

    /// The contest phase of one attack, after redirection and grant
    /// consumption: the vengeance counter, the hit comparison, and the
    /// poison, interruption and pain-absorption follow-ups. No character's
    /// grant queue moves here.
    #[verifier::rlimit(100)]
    #[verifier::spinoff_prover]
    fn resolve_contest(
        &mut self,
        attacker_team: u8,
        attacker_idx: usize,
        actual_team: u8,
        actual_idx: usize,
        defender_info: Option<(u8, usize)>,
        total_attack: i64,
        grant_value: i64,
        nominal_name: &String,
        physical: bool,
    ) -> (hit: bool)
        requires
            old(self).chars_ok(),
            old(self).stats_in_range(),
            old(self).valid_slot(attacker_team, attacker_idx),
            old(self).valid_slot(actual_team, actual_idx),
            match defender_info {
                Some(d) => old(self).valid_slot(d.0, d.1),
                None => true,
            },
        ensures
            final(self).chars_ok(),
            CombatEngine::eq_except_combatants(*final(self), *old(self)),
            forall|j: int|
                0 <= j < old(self).team1@.len() ==> attack_frame(
                    #[trigger] old(self).team1@[j],
                    final(self).team1@[j],
                ) && final(self).team1@[j].defense_bonuses == old(self).team1@[j].defense_bonuses,
            forall|j: int|
                0 <= j < old(self).team2@.len() ==> attack_frame(
                    #[trigger] old(self).team2@[j],
                    final(self).team2@[j],
                ) && final(self).team2@[j].defense_bonuses == old(self).team2@[j].defense_bonuses,
            // The contest rule: against a consumed grant the sampled attack
            // must strictly exceed the grant's value; against the
            // recipient's own defense it must strictly exceed the sample,
            // which lies inside the recipient's defensive range. Ties favor
            // the defender.
            defender_info matches Some(d) ==> hit == (total_attack > grant_value),
            defender_info matches None ==> {
                let tgt = old(self).roster(actual_team)[actual_idx as int];
                &&& (hit ==> total_attack > own_defense_min(tgt))
                &&& (!hit ==> total_attack <= own_defense_max(tgt))
            },
            // Who is wounded: on a miss nobody but the attacker (the
            // vengeance counter) is; on a hit exactly the wound recipient
            // (the grant donor if one was consumed, else the actual
            // recipient) gains one wound, two when poisoned.
            ({
                let wt = wound_slot_of(defender_info, actual_team, actual_idx).0;
                let wi = wound_slot_of(defender_info, actual_team, actual_idx).1;
                &&& (!hit ==> forall|t: u8, j: int|
                    (t == 1 || t == 2) && 0 <= j < old(self).roster(t).len() && !(t
                        == attacker_team && j == attacker_idx) ==> (#[trigger] final(self).roster(
                        t,
                    )[j]).current_wounds == old(self).roster(t)[j].current_wounds)
                &&& (hit ==> forall|t: u8, j: int|
                    (t == 1 || t == 2) && 0 <= j < old(self).roster(t).len() && !(t
                        == attacker_team && j == attacker_idx) && !(t == wt && j == wi) ==> (
                    #[trigger] final(self).roster(t)[j]).current_wounds == old(self).roster(
                        t,
                    )[j].current_wounds)
                &&& (hit && !(wt == attacker_team && wi == attacker_idx) ==> old(self).roster(
                    wt,
                )[wi as int].current_wounds + 1 <= final(self).roster(wt)[wi as int].current_wounds
                    <= old(self).roster(wt)[wi as int].current_wounds + 2)
                &&& ((rel_lookup(old(self).vengeance_targets@, nominal_name@) matches None) ==> forall|
                    t: u8,
                    j: int,
                |
                    (t == 1 || t == 2) && 0 <= j < old(self).roster(t).len() && !(t == wt && j
                        == wi && hit) ==> (#[trigger] final(self).roster(t)[j]).current_wounds
                        == old(self).roster(t)[j].current_wounds)
            }),
    {
        let ghost pre = *old(self);
        let total_defense: i64 = match defender_info {
            Some(_) => grant_value,
            None => self.own_defense_total(actual_team, actual_idx),
        };

        // Vengeance: an avenger registered for the nominal target makes one
        // counter-attack against the attacker, hit or miss.
        self.vengeance_counter(nominal_name, attacker_team, attacker_idx);
        let ghost s2 = *self;

        // The contest: ties favor the defender.
        let hit = total_attack > total_defense;
        if hit {
            let (wound_team, wound_idx): (u8, usize) = match defender_info {
                Some(d) => (d.0, d.1),
                None => (actual_team, actual_idx),
            };
            let extra_poison: bool = physical && self.char_at(
                attacker_team,
                attacker_idx,
            ).has_poison_weapon;
            self.apply_hit_to(wound_team, wound_idx, extra_poison);
        } else {
            match defender_info {
                None => {
                    // Missed with no grant consumed: being targeted still
                    // interrupts an active Focus.
                    self.check_focus_interruption(actual_team, actual_idx);
                },
                Some(d) => {
                    // A pain-absorbing donor earns a permanent +1 defense.
                    self.absorb_pain_bonus(d.0, d.1);
                },
            }
        }
        proof {
            assert forall|j: int| 0 <= j < pre.team1@.len() implies attack_frame(
                #[trigger] pre.team1@[j],
                self.team1@[j],
            ) && self.team1@[j].defense_bonuses == pre.team1@[j].defense_bonuses by {
                let c0 = pre.team1@[j];
                let c2 = s2.roster(1)[j];
                let c3 = self.roster(1)[j];
                assert(self.team1@[j] == c3 && pre.roster(1)[j] == c0 && s2.team1@[j] == c2);
                if attacker_team == 1 && j == attacker_idx {
                    assert(c2.skip_turns == c0.skip_turns && c2.played_card_idx
                        == c0.played_card_idx);
                } else {
                    assert(c2 == c0);
                }
                assert(char_statics_eq(c2, c3));
                assert(c2.current_wounds <= c3.current_wounds <= c2.current_wounds + 2);
                assert(mag_sum(c3.modifiers@) <= mag_sum(c2.modifiers@) + 1);
                assert(c3.defense_bonuses == c2.defense_bonuses);
                assert(c3.skip_turns == c2.skip_turns && c3.played_card_idx == c2.played_card_idx);
            }
            assert forall|j: int| 0 <= j < pre.team2@.len() implies attack_frame(
                #[trigger] pre.team2@[j],
                self.team2@[j],
            ) && self.team2@[j].defense_bonuses == pre.team2@[j].defense_bonuses by {
                let c0 = pre.team2@[j];
                let c2 = s2.roster(2)[j];
                let c3 = self.roster(2)[j];
                assert(self.team2@[j] == c3 && pre.roster(2)[j] == c0 && s2.team2@[j] == c2);
                if attacker_team == 2 && j == attacker_idx {
                    assert(c2.skip_turns == c0.skip_turns && c2.played_card_idx
                        == c0.played_card_idx);
                } else {
                    assert(c2 == c0);
                }
                assert(char_statics_eq(c2, c3));
                assert(c2.current_wounds <= c3.current_wounds <= c2.current_wounds + 2);
                assert(mag_sum(c3.modifiers@) <= mag_sum(c2.modifiers@) + 1);
                assert(c3.defense_bonuses == c2.defense_bonuses);
                assert(c3.skip_turns == c2.skip_turns && c3.played_card_idx == c2.played_card_idx);
            }
        }
        hit
    }

    /// Room below the accessors' numeric caps for one whole round of wound
    /// and modifier growth.
    pub open spec fn budget_room(self) -> bool {
        &&& forall|j: int|
            0 <= j < self.team1@.len() ==> (#[trigger] self.team1@[j]).current_wounds <= 0x10_0000
                && mag_sum(self.team1@[j].modifiers@) <= 0x3800_0000
        &&& forall|j: int|
            0 <= j < self.team2@.len() ==> (#[trigger] self.team2@[j]).current_wounds <= 0x10_0000
                && mag_sum(self.team2@[j].modifiers@) <= 0x3800_0000
    }

    /// The slightly looser room that still holds midway through resolving
    /// one action.
    pub open spec fn action_room(self) -> bool {
        &&& forall|j: int|
            0 <= j < self.team1@.len() ==> (#[trigger] self.team1@[j]).current_wounds <= 0x20_0000
                && mag_sum(self.team1@[j].modifiers@) <= 0x3900_0000
        &&& forall|j: int|
            0 <= j < self.team2@.len() ==> (#[trigger] self.team2@[j]).current_wounds <= 0x20_0000
                && mag_sum(self.team2@[j].modifiers@) <= 0x3900_0000
    }

    /// Resolve one attack of `card` by the attacker against the target slot:
    /// sacrifice redirection, the dodge gate, one pending-defense-grant
    /// consumption, the vengeance counter, the hit contest, and poison and
    /// pain-absorption follow-ups. Returns whether the attack landed.
    ///
    /// A defense grant is consumed exactly once: when the actual recipient
    /// holds grants, precisely the newest one is removed, whatever else the
    /// dice decide; a second attack then finds the queue shorter by one.
    ///
    /// On a miss, only a recipient that defended with its own stat has a
    /// committed Focus interrupted: a consumed grant intercepts the
    /// provocation, so neither the recipient's Focus nor the donor's is
    /// touched.
    #[verifier::rlimit(100)]
    #[verifier::spinoff_prover]
    pub fn resolve_attack(
        &mut self,
        attacker_team: u8,
        attacker_idx: usize,
        target_team: u8,
        target_idx: usize,
        card: &Card,
    ) -> (hit: bool)
        requires
            old(self).chars_ok(),
            old(self).stats_in_range(),
            old(self).valid_slot(attacker_team, attacker_idx),
            old(self).valid_slot(target_team, target_idx),
            card.wf(),
        ensures
            final(self).chars_ok(),
            CombatEngine::eq_except_combatants(*final(self), *old(self)),
            forall|j: int|
                0 <= j < old(self).team1@.len() ==> attack_frame(
                    #[trigger] old(self).team1@[j],
                    final(self).team1@[j],
                ),
            forall|j: int|
                0 <= j < old(self).team2@.len() ==> attack_frame(
                    #[trigger] old(self).team2@[j],
                    final(self).team2@[j],
                ),
            !old(self).roster(target_team)[target_idx as int].spec_alive() ==> *final(self) == *old(
                self,
            ) && !hit,
            ({
                let tgt = old(self).roster(target_team)[target_idx as int];
                (tgt.spec_alive() && no_redirect(*old(self), tgt.name@) && tgt.dodging) ==> {
                    &&& *final(self) == *old(self)
                    &&& !hit
                }
            }),
            ({
                let tgt = old(self).roster(target_team)[target_idx as int];
                (tgt.spec_alive() && no_redirect(*old(self), tgt.name@) && !tgt.dodging) ==> {
                    let fin_tgt = final(self).roster(target_team)[target_idx as int];
                    &&& (tgt.defense_bonuses@.len() > 0 ==> fin_tgt.defense_bonuses@
                        == tgt.defense_bonuses@.drop_last())
                    &&& (tgt.defense_bonuses@.len() == 0 ==> fin_tgt.defense_bonuses@
                        == tgt.defense_bonuses@)
                    &&& forall|t: u8, j: int|
                        (t == 1 || t == 2) && 0 <= j < old(self).roster(t).len() && !(t
                            == target_team && j == target_idx) ==> (#[trigger] final(self).roster(
                            t,
                        )[j]).defense_bonuses@ == old(self).roster(t)[j].defense_bonuses@
                }
            }),
            // The wound side of the contest, in the unredirected case: on a
            // hit the grant donor takes the wound when a grant was
            // consumed, not the target; with no grant the target defends
            // with its own stat and takes the wound itself; a miss wounds
            // nobody but (through vengeance) the attacker.
            ({
                let tgt = old(self).roster(target_team)[target_idx as int];
                let fin_tgt = final(self).roster(target_team)[target_idx as int];
                (tgt.spec_alive() && no_redirect(*old(self), tgt.name@) && !tgt.dodging) ==> {
                    &&& (tgt.defense_bonuses@.len() > 0 ==> {
                        let g = tgt.defense_bonuses@.last();
                        let old_d = old(self).roster(g.team)[g.idx as int];
                        let fin_d = final(self).roster(g.team)[g.idx as int];
                        &&& (hit && !(g.team == target_team && g.idx == target_idx) && !(g.team
                            == attacker_team && g.idx == attacker_idx) && !(attacker_team
                            == target_team && attacker_idx == target_idx) ==> {
                            &&& fin_tgt.current_wounds == tgt.current_wounds
                            &&& old_d.current_wounds + 1 <= fin_d.current_wounds
                                <= old_d.current_wounds + 2
                        })
                        &&& (!hit ==> wounds_unchanged_except(
                            *old(self),
                            *final(self),
                            attacker_team,
                            attacker_idx as int,
                        ))
                    })
                    &&& (tgt.defense_bonuses@.len() == 0 ==> {
                        &&& (hit && !(attacker_team == target_team && attacker_idx == target_idx)
                            ==> tgt.current_wounds + 1 <= fin_tgt.current_wounds
                                <= tgt.current_wounds + 2)
                        &&& (hit ==> wounds_unchanged_except2(
                            *old(self),
                            *final(self),
                            attacker_team,
                            attacker_idx as int,
                            target_team,
                            target_idx as int,
                        ))
                        &&& (!hit ==> wounds_unchanged_except(
                            *old(self),
                            *final(self),
                            attacker_team,
                            attacker_idx as int,
                        ))
                        &&& ((attack_total_max(
                            old(self).roster(attacker_team)[attacker_idx as int],
                            *card,
                            tgt.name@,
                        ) <= own_defense_min(tgt) && (rel_lookup(
                            old(self).vengeance_targets@,
                            tgt.name@,
                        ) matches None)) ==> !hit && all_wounds_unchanged(*old(self), *final(self)))
                    })
                }
            }),
    {
        let ghost pre = *old(self);
        if !self.char_at(target_team, target_idx).is_alive() {
            return false;
        }
        let target_name: String = self.char_at(target_team, target_idx).name.clone();

        // Sacrifice redirection: a living registered protector takes the
        // attack in the nominal target's stead.
        let mut actual_team: u8 = target_team;
        let mut actual_idx: usize = target_idx;
        match rel_get(&self.sacrifice_targets, &target_name) {
            Some(protector_name) => {
                match self.find_alive_by_name(&protector_name) {
                    Some(slot) => {
                        actual_team = slot.0;
                        actual_idx = slot.1;
                    },
                    None => {},
                }
            },
            None => {},
        }
        proof {
            assert(no_redirect(pre, target_name@) ==> actual_team == target_team && actual_idx
                == target_idx);
        }

        // A dodging recipient is missed outright.
        if self.char_at(actual_team, actual_idx).dodging {
            return false;
        }

        // Offensive total: effective stat, one roll of the card's dice, and
        // any matching attack bonus, each captured once.
        let recipient_name: String = self.char_at(actual_team, actual_idx).name.clone();
        let total_attack: i64 = self.attack_total(attacker_team, attacker_idx, card, &recipient_name);

        // Consume exactly one pending defense grant, newest first; with none
        // pending the recipient defends with its own effective defense.
        let grant: Option<(u8, usize, String, i32)> = self.consume_defense_grant(
            actual_team,
            actual_idx,
        );
        let ghost s1 = *self;
        let (grant_value, defender_info): (i64, Option<(u8, usize)>) = match grant {
            Some(g) => (g.3 as i64, Some((g.0, g.1))),
            None => (0, None),
        };

        let hit = self.resolve_contest(
            attacker_team,
            attacker_idx,
            actual_team,
            actual_idx,
            defender_info,
            total_attack,
            grant_value,
            &target_name,
            card.card_type.is_physical(),
        );
        proof {
            assert forall|j: int| 0 <= j < pre.team1@.len() implies attack_frame(
                #[trigger] pre.team1@[j],
                self.team1@[j],
            ) by {
                let c0 = pre.team1@[j];
                let c1 = s1.team1@[j];
                if actual_team == 1 && j == actual_idx {
                    assert(char_statics_eq(c0, c1) && c1.current_wounds == c0.current_wounds
                        && c1.modifiers == c0.modifiers);
                } else {
                    assert(s1.roster(1)[j] == pre.roster(1)[j]);
                }
            }
            assert forall|j: int| 0 <= j < pre.team2@.len() implies attack_frame(
                #[trigger] pre.team2@[j],
                self.team2@[j],
            ) by {
                let c0 = pre.team2@[j];
                let c1 = s1.team2@[j];
                if actual_team == 2 && j == actual_idx {
                    assert(char_statics_eq(c0, c1) && c1.current_wounds == c0.current_wounds
                        && c1.modifiers == c0.modifiers);
                } else {
                    assert(s1.roster(2)[j] == pre.roster(2)[j]);
                }
            }
            assert forall|t: u8, j: int|
                (t == 1 || t == 2) && 0 <= j < pre.roster(t).len() implies (#[trigger] s1.roster(
                t,
            )[j]).current_wounds == pre.roster(t)[j].current_wounds by {
                if t == actual_team && j == actual_idx {
                } else {
                    assert(s1.roster(t)[j] == pre.roster(t)[j]);
                }
            }
            let tgt = pre.roster(target_team)[target_idx as int];
            if tgt.spec_alive() && no_redirect(pre, tgt.name@) && !tgt.dodging {
                assert(target_name@ == tgt.name@);
                assert(actual_team == target_team && actual_idx == target_idx);
                let s1_tgt = s1.roster(target_team)[target_idx as int];
                assert(s1_tgt.modifiers == tgt.modifiers && s1_tgt.equipment == tgt.equipment
                    && s1_tgt.defense == tgt.defense);
                assert(own_defense_min(s1_tgt) == own_defense_min(tgt) && own_defense_max(s1_tgt)
                    == own_defense_max(tgt));
                if !hit {
                    assert forall|t: u8, j: int|
                        (t == 1 || t == 2) && 0 <= j < pre.roster(t).len() && !(t == attacker_team
                            && j == attacker_idx as int) implies (#[trigger] self.roster(
                        t,
                    )[j]).current_wounds == pre.roster(t)[j].current_wounds by {
                        assert(self.roster(t)[j].current_wounds == s1.roster(t)[j].current_wounds);
                        assert(s1.roster(t)[j].current_wounds == pre.roster(t)[j].current_wounds);
                    }
                    assert(wounds_unchanged_except(pre, *self, attacker_team, attacker_idx as int));
                } else {
                    assert forall|t: u8, j: int|
                        (t == 1 || t == 2) && 0 <= j < pre.roster(t).len() && !(t == attacker_team
                            && j == attacker_idx as int) && !(t == wound_slot_of(
                            defender_info,
                            actual_team,
                            actual_idx,
                        ).0 && j == wound_slot_of(defender_info, actual_team, actual_idx).1 as int)
                        implies (#[trigger] self.roster(t)[j]).current_wounds == pre.roster(
                        t,
                    )[j].current_wounds by {
                        assert(self.roster(t)[j].current_wounds == s1.roster(t)[j].current_wounds);
                        assert(s1.roster(t)[j].current_wounds == pre.roster(t)[j].current_wounds);
                    }
                }
                if tgt.defense_bonuses@.len() > 0 {
                    let g = tgt.defense_bonuses@.last();
                    assert(defender_info == Some((g.team, g.idx)));
                    if hit && !(g.team == target_team && g.idx == target_idx) && !(g.team
                        == attacker_team && g.idx == attacker_idx) && !(attacker_team
                        == target_team && attacker_idx == target_idx) {
                        assert(wound_slot_of(defender_info, actual_team, actual_idx) == (
                        g.team,
                        g.idx,
                        ));
                        assert(self.roster(target_team)[target_idx as int].current_wounds
                            == pre.roster(target_team)[target_idx as int].current_wounds);
                        assert(s1.roster(g.team)[g.idx as int].current_wounds == pre.roster(
                            g.team,
                        )[g.idx as int].current_wounds);
                    }
                } else {
                    assert(defender_info matches None);
                    assert(wound_slot_of(defender_info, actual_team, actual_idx) == (
                    actual_team,
                    actual_idx,
                    ));
                    if attack_total_max(
                        pre.roster(attacker_team)[attacker_idx as int],
                        *card,
                        tgt.name@,
                    ) <= own_defense_min(tgt) && (rel_lookup(
                        pre.vengeance_targets@,
                        tgt.name@,
                    ) matches None) {
                        assert(!hit);
                        assert forall|t: u8, j: int|
                            (t == 1 || t == 2) && 0 <= j < pre.roster(t).len() implies (
                        #[trigger] self.roster(t)[j]).current_wounds == pre.roster(
                            t,
                        )[j].current_wounds by {
                            assert(self.roster(t)[j].current_wounds == s1.roster(
                                t,
                            )[j].current_wounds);
                            assert(s1.roster(t)[j].current_wounds == pre.roster(
                                t,
                            )[j].current_wounds);
                        }
                        assert(all_wounds_unchanged(pre, *self));
                    }
                }
                if target_team == 1 {
                    assert(self.team1@[target_idx as int].defense_bonuses == s1.team1@[target_idx as int].defense_bonuses);
                } else {
                    assert(self.team2@[target_idx as int].defense_bonuses == s1.team2@[target_idx as int].defense_bonuses);
                }
                assert forall|t: u8, j: int|
                    (t == 1 || t == 2) && 0 <= j < pre.roster(t).len() && !(t == target_team && j
                        == target_idx) implies (#[trigger] self.roster(t)[j]).defense_bonuses@
                    == pre.roster(t)[j].defense_bonuses@ by {
                    if t == 1 {
                        assert(self.team1@[j].defense_bonuses == s1.team1@[j].defense_bonuses);
                        assert(self.roster(t)[j] == self.team1@[j] && s1.roster(t)[j]
                            == s1.team1@[j]);
                    } else {
                        assert(self.team2@[j].defense_bonuses == s1.team2@[j].defense_bonuses);
                        assert(self.roster(t)[j] == self.team2@[j] && s1.roster(t)[j]
                            == s1.team2@[j]);
                    }
                    assert(s1.roster(t)[j] == pre.roster(t)[j]);
                }
            }
        }
        hit
    }

    /// The attack phase of a card: hit the first living enemies in roster
    /// order, one for an ordinary attack card, N for a multi-target effect.
    /// Targets are fixed before the first blow lands.
    #[verifier::rlimit(100)]
    #[verifier::spinoff_prover]
    fn attack_targets(&mut self, char_team: u8, char_idx: usize, card: &Card)
        requires
            old(self).chars_ok(),
            old(self).action_room(),
            old(self).valid_slot(char_team, char_idx),
            char_team == 1 || char_team == 2,
            card.wf(),
        ensures
            final(self).chars_ok(),
            CombatEngine::eq_bookkeeping(*final(self), *old(self)),
            final(self).vengeance_targets == old(self).vengeance_targets,
            final(self).sacrifice_targets == old(self).sacrifice_targets,
            final(self).coordinated_ambush_target == old(self).coordinated_ambush_target,
            forall|j: int|
                0 <= j < old(self).team1@.len() ==> char_statics_eq(
                    #[trigger] old(self).team1@[j],
                    final(self).team1@[j],
                ) && old(self).team1@[j].current_wounds <= final(self).team1@[j].current_wounds
                    <= old(self).team1@[j].current_wounds + 24 && mag_sum(
                    final(self).team1@[j].modifiers@,
                ) <= mag_sum(old(self).team1@[j].modifiers@) + 8 && final(self).team1@[j].played_card_idx
                    == old(self).team1@[j].played_card_idx && final(self).team1@[j].skip_turns
                    == old(self).team1@[j].skip_turns,
            forall|j: int|
                0 <= j < old(self).team2@.len() ==> char_statics_eq(
                    #[trigger] old(self).team2@[j],
                    final(self).team2@[j],
                ) && old(self).team2@[j].current_wounds <= final(self).team2@[j].current_wounds
                    <= old(self).team2@[j].current_wounds + 24 && mag_sum(
                    final(self).team2@[j].modifiers@,
                ) <= mag_sum(old(self).team2@[j].modifiers@) + 8 && final(self).team2@[j].played_card_idx
                    == old(self).team2@[j].played_card_idx && final(self).team2@[j].skip_turns
                    == old(self).team2@[j].skip_turns,
    {
        let ghost s0 = *old(self);
        let enemies = self.get_living_enemies(char_team);
        let num_targets: usize = match card.effect {
            crate::cards::SpecialEffect::MultiTarget(n) => n as usize,
            _ => 1,
        };
        let count: usize = if num_targets < enemies.len() {
            num_targets
        } else {
            enemies.len()
        };
        let enemy_team: u8 = if char_team == 1 {
            2
        } else {
            1
        };
        proof {
            assert(enemy_team == crate::engine::enemy_of(char_team));
        }
        let mut i: usize = 0;
        while i < count
            invariant
                self.chars_ok(),
                CombatEngine::eq_bookkeeping(*self, s0),
                self.vengeance_targets == s0.vengeance_targets,
                self.sacrifice_targets == s0.sacrifice_targets,
                self.coordinated_ambush_target == s0.coordinated_ambush_target,
                s0.action_room(),
                s0.valid_slot(char_team, char_idx),
                char_team == 1 || char_team == 2,
                enemy_team == crate::engine::enemy_of(char_team),
                card.wf(),
                count <= enemies@.len() <= 8,
                forall|k: int|
                    0 <= k < enemies@.len() ==> (#[trigger] enemies@[k]) < s0.roster(
                        enemy_team,
                    ).len(),
                0 <= i <= count <= 8,
                forall|j: int|
                    0 <= j < s0.team1@.len() ==> char_statics_eq(
                        #[trigger] s0.team1@[j],
                        self.team1@[j],
                    ) && s0.team1@[j].current_wounds <= self.team1@[j].current_wounds
                        <= s0.team1@[j].current_wounds + 3 * i && mag_sum(self.team1@[j].modifiers@)
                        <= mag_sum(s0.team1@[j].modifiers@) + i && self.team1@[j].played_card_idx
                        == s0.team1@[j].played_card_idx && self.team1@[j].skip_turns
                        == s0.team1@[j].skip_turns,
                forall|j: int|
                    0 <= j < s0.team2@.len() ==> char_statics_eq(
                        #[trigger] s0.team2@[j],
                        self.team2@[j],
                    ) && s0.team2@[j].current_wounds <= self.team2@[j].current_wounds
                        <= s0.team2@[j].current_wounds + 3 * i && mag_sum(self.team2@[j].modifiers@)
                        <= mag_sum(s0.team2@[j].modifiers@) + i && self.team2@[j].played_card_idx
                        == s0.team2@[j].played_card_idx && self.team2@[j].skip_turns
                        == s0.team2@[j].skip_turns,
            decreases count - i,
        {
            let ghost sp = *self;
            proof {
                assert forall|j: int| 0 <= j < self.team1@.len() implies (#[trigger] self.team1@[j]).current_wounds
                    < 0x1000_0000 && mag_sum(self.team1@[j].modifiers@) <= 0x4000_0000 by {
                    assert(s0.team1@[j].current_wounds <= 0x20_0000 && mag_sum(
                        s0.team1@[j].modifiers@,
                    ) <= 0x3900_0000);
                }
                assert forall|j: int| 0 <= j < self.team2@.len() implies (#[trigger] self.team2@[j]).current_wounds
                    < 0x1000_0000 && mag_sum(self.team2@[j].modifiers@) <= 0x4000_0000 by {
                    assert(s0.team2@[j].current_wounds <= 0x20_0000 && mag_sum(
                        s0.team2@[j].modifiers@,
                    ) <= 0x3900_0000);
                }
                assert(self.stats_in_range());
            }
            let target_idx = enemies[i];
            self.resolve_attack(char_team, char_idx, enemy_team, target_idx, card);
            proof {
                assert forall|j: int| 0 <= j < s0.team1@.len() implies char_statics_eq(
                    #[trigger] s0.team1@[j],
                    self.team1@[j],
                ) && s0.team1@[j].current_wounds <= self.team1@[j].current_wounds
                    <= s0.team1@[j].current_wounds + 3 * (i + 1) && mag_sum(
                    self.team1@[j].modifiers@,
                ) <= mag_sum(s0.team1@[j].modifiers@) + (i + 1) && self.team1@[j].played_card_idx
                    == s0.team1@[j].played_card_idx && self.team1@[j].skip_turns
                    == s0.team1@[j].skip_turns by {
                    assert(attack_frame(sp.team1@[j], self.team1@[j]));
                }
                assert forall|j: int| 0 <= j < s0.team2@.len() implies char_statics_eq(
                    #[trigger] s0.team2@[j],
                    self.team2@[j],
                ) && s0.team2@[j].current_wounds <= self.team2@[j].current_wounds
                    <= s0.team2@[j].current_wounds + 3 * (i + 1) && mag_sum(
                    self.team2@[j].modifiers@,
                ) <= mag_sum(s0.team2@[j].modifiers@) + (i + 1) && self.team2@[j].played_card_idx
                    == s0.team2@[j].played_card_idx && self.team2@[j].skip_turns
                    == s0.team2@[j].skip_turns by {
                    assert(attack_frame(sp.team2@[j], self.team2@[j]));
                }
            }
            i = i + 1;
        }
    }
}

/// How one broadcast modifier push may move a character: statics and wounds
/// stay, the modifier load grows by at most one push.
pub open spec fn one_push_frame(a: Character, b: Character) -> bool {
    &&& char_statics_eq(a, b)
    &&& b.current_wounds == a.current_wounds
    &&& mag_sum(b.modifiers@) <= mag_sum(a.modifiers@) + 0x1_0800
    &&& b.played_card_idx == a.played_card_idx
}

/// How one non-attack effect phase may move a character: statics stay,
/// wounds grow by at most one, the modifier load by at most two pushes.
pub open spec fn effect_frame(a: Character, b: Character) -> bool {
    &&& char_statics_eq(a, b)
    &&& a.current_wounds <= b.current_wounds <= a.current_wounds + 1
    &&& mag_sum(b.modifiers@) <= mag_sum(a.modifiers@) + 0x2_1000
    &&& b.played_card_idx == a.played_card_idx
}

/// Numeric headroom implies the ranges the stat accessors ask for.
pub proof fn lemma_budget_room_in_range(e: CombatEngine)
    requires
        e.action_room(),
    ensures
        e.stats_in_range(),
{
    assert forall|j: int| 0 <= j < e.team1@.len() implies (#[trigger] e.team1@[j]).current_wounds
        < 0x1000_0000 && mag_sum(e.team1@[j].modifiers@) <= 0x4000_0000 by {
        assert(e.team1@[j].current_wounds <= 0x20_0000);
    }
    assert forall|j: int| 0 <= j < e.team2@.len() implies (#[trigger] e.team2@[j]).current_wounds
        < 0x1000_0000 && mag_sum(e.team2@[j].modifiers@) <= 0x4000_0000 by {
        assert(e.team2@[j].current_wounds <= 0x20_0000);
    }
}

impl CombatEngine {
    /// The follow-up an attack card's tagged effect applies once its targets
    /// have been struck: a stun, a timed debuff, the charge's own speed
    /// cost, or a skipped-turns sentence.
    #[verifier::rlimit(100)]
    #[verifier::spinoff_prover]
    fn attack_followups(&mut self, char_team: u8, char_idx: usize, card: &Card)
        requires
            old(self).chars_ok(),
            old(self).action_room(),
            old(self).valid_slot(char_team, char_idx),
            char_team == 1 || char_team == 2,
            card.wf(),
        ensures
            final(self).chars_ok(),
            CombatEngine::eq_bookkeeping(*final(self), *old(self)),
            final(self).vengeance_targets == old(self).vengeance_targets,
            final(self).sacrifice_targets == old(self).sacrifice_targets,
            final(self).coordinated_ambush_target == old(self).coordinated_ambush_target,
            forall|j: int|
                0 <= j < old(self).team1@.len() ==> effect_frame(
                    #[trigger] old(self).team1@[j],
                    final(self).team1@[j],
                ),
            forall|j: int|
                0 <= j < old(self).team2@.len() ==> effect_frame(
                    #[trigger] old(self).team2@[j],
                    final(self).team2@[j],
                ),
            // A skipped-turns sentence lands exactly on the actor; no other
            // follow-up touches anyone's skip counter.
            ({
                let fin_actor = final(self).roster(char_team)[char_idx as int];
                &&& (card.effect == crate::cards::SpecialEffect::SkipNextTurn ==> fin_actor.skip_turns
                    == 1)
                &&& (match card.effect {
                    crate::cards::SpecialEffect::SkipNextTurns(n) => fin_actor.skip_turns == n,
                    _ => true,
                })
                &&& forall|j: int|
                    0 <= j < old(self).team1@.len() && !(char_team == 1 && j == char_idx) ==> (
                    #[trigger] final(self).team1@[j]).skip_turns == old(self).team1@[j].skip_turns
                &&& forall|j: int|
                    0 <= j < old(self).team2@.len() && !(char_team == 2 && j == char_idx) ==> (
                    #[trigger] final(self).team2@[j]).skip_turns == old(self).team2@[j].skip_turns
                &&& (!(card.effect == crate::cards::SpecialEffect::SkipNextTurn) && !(
                card.effect matches crate::cards::SpecialEffect::SkipNextTurns(_)) ==> fin_actor.skip_turns
                    == old(self).roster(char_team)[char_idx as int].skip_turns)
            }),
    {
        proof {
            lemma_budget_room_in_range(*self);
        }
        match card.effect {
            crate::cards::SpecialEffect::Stun => {
                let picked = self.select_target(self.char_at(char_team, char_idx));
                match picked {
                    Some(slot) => {
                        let c = self.char_mut(slot.0, slot.1);
                        c.stunned = true;
                    },
                    None => {},
                }
            },
            crate::cards::SpecialEffect::EnemySpeedDebuff(penalty) => {
                let picked = self.select_target(self.char_at(char_team, char_idx));
                match picked {
                    Some(slot) => {
                        let m = CombatModifier::new(
                            "speed",
                            0 - penalty,
                            ModifierDuration::NextTurn,
                        ).with_source(card.name.as_str());
                        self.push_modifier_to(slot.0, slot.1, m);
                    },
                    None => {},
                }
            },
            crate::cards::SpecialEffect::EnemyStrengthDebuff(penalty) => {
                let picked = self.select_target(self.char_at(char_team, char_idx));
                match picked {
                    Some(slot) => {
                        let m = CombatModifier::new(
                            "strength",
                            0 - penalty,
                            ModifierDuration::NextTurn,
                        ).with_source(card.name.as_str());
                        self.push_modifier_to(slot.0, slot.1, m);
                    },
                    None => {},
                }
            },
            crate::cards::SpecialEffect::EmbestidaEffect => {
                let picked = self.select_target(self.char_at(char_team, char_idx));
                match picked {
                    Some(slot) => {
                        let m = CombatModifier::new(
                            "speed",
                            -2,
                            ModifierDuration::NextTurn,
                        ).with_source(card.name.as_str());
                        self.push_modifier_to(slot.0, slot.1, m);
                    },
                    None => {},
                }
                let m2 = CombatModifier::new("speed", -3, ModifierDuration::NextTurn).with_source(
                    card.name.as_str(),
                );
                self.push_modifier_to(char_team, char_idx, m2);
            },
            crate::cards::SpecialEffect::SkipNextTurn => {
                let c = self.char_mut(char_team, char_idx);
                c.skip_turns = 1;
            },
            crate::cards::SpecialEffect::SkipNextTurns(n) => {
                let c = self.char_mut(char_team, char_idx);
                c.skip_turns = n;
            },
            _ => {},
        }
    }

    /// The effect phase of a defense card: a sacrifice effect registers the
    /// caster as interceptor for its first living ally; any other defense
    /// card with defense dice banks one grant per protected ally, carrying
    /// the caster's defense captured once; a pain-absorption effect also
    /// sets its sticky flag.
    #[verifier::rlimit(100)]
    #[verifier::spinoff_prover]
    fn defense_card_effects(&mut self, char_team: u8, char_idx: usize, card: &Card)
        requires
            old(self).chars_ok(),
            old(self).action_room(),
            old(self).valid_slot(char_team, char_idx),
            char_team == 1 || char_team == 2,
            card.wf(),
        ensures
            final(self).chars_ok(),
            CombatEngine::eq_bookkeeping(*final(self), *old(self)),
            final(self).vengeance_targets == old(self).vengeance_targets,
            final(self).coordinated_ambush_target == old(self).coordinated_ambush_target,
            forall|j: int|
                0 <= j < old(self).team1@.len() ==> effect_frame(
                    #[trigger] old(self).team1@[j],
                    final(self).team1@[j],
                ),
            forall|j: int|
                0 <= j < old(self).team2@.len() ==> effect_frame(
                    #[trigger] old(self).team2@[j],
                    final(self).team2@[j],
                ),
            // A sacrifice effect binds the caster as interceptor for its
            // first living ally and touches no roster; any other defense
            // effect leaves the sacrifice relation alone.
            (card.effect == crate::cards::SpecialEffect::Sacrifice ==> {
                let f = crate::engine::first_living_except(
                    old(self).roster(char_team),
                    char_idx as int,
                );
                &&& final(self).team1 == old(self).team1
                &&& final(self).team2 == old(self).team2
                &&& (f >= 0 ==> {
                    &&& rel_lookup(
                        final(self).sacrifice_targets@,
                        old(self).roster(char_team)[f].name@,
                    ) == Some(old(self).roster(char_team)[char_idx as int].name@)
                    &&& forall|k: Seq<char>|
                        k != old(self).roster(char_team)[f].name@ ==> rel_lookup(
                            final(self).sacrifice_targets@,
                            k,
                        ) == rel_lookup(old(self).sacrifice_targets@, k)
                })
                &&& (f < 0 ==> final(self).sacrifice_targets == old(self).sacrifice_targets)
            }),
            !(card.effect == crate::cards::SpecialEffect::Sacrifice)
                ==> final(self).sacrifice_targets == old(self).sacrifice_targets,
            // A defense card with defense dice banks one grant per protected
            // ally; the first living member is always among them, and its
            // grant carries the caster's identity, the caster's once-captured
            // defense, and the card's dice.
            ({
                let f0 = crate::engine::first_living_except(old(self).roster(char_team), -1);
                let actor = old(self).roster(char_team)[char_idx as int];
                (!(card.effect == crate::cards::SpecialEffect::Sacrifice) && (
                card.defense matches Some(_)) && f0 >= 0 && (match card.effect {
                    crate::cards::SpecialEffect::DefendMultiple(n) => n >= 1,
                    _ => true,
                })) ==> {
                    let a = old(self).roster(char_team)[f0];
                    let b = final(self).roster(char_team)[f0];
                    &&& b.defense_bonuses@.len() == a.defense_bonuses@.len() + 1
                    &&& b.defense_bonuses@.drop_last() == a.defense_bonuses@
                    &&& b.defense_bonuses@.last().team == char_team
                    &&& b.defense_bonuses@.last().idx == char_idx
                    &&& b.defense_bonuses@.last().name@ == actor.name@
                    &&& b.defense_bonuses@.last().dice == card.defense->Some_0
                    &&& own_defense_min(actor) <= b.defense_bonuses@.last().base_defense
                        <= own_defense_max(actor)
                }
            }),
            (card.effect == crate::cards::SpecialEffect::AbsorbPain && (
            card.defense matches Some(_)))
                ==> final(self).roster(char_team)[char_idx as int].has_absorb_pain,
    {
        let ghost pre = *old(self);
        proof {
            lemma_budget_room_in_range(*self);
        }
        let is_sacrifice: bool = match card.effect {
            crate::cards::SpecialEffect::Sacrifice => true,
            _ => false,
        };
        if is_sacrifice {
            let allies = self.get_living_allies(char_team, Some(char_idx));
            proof {
                crate::engine::lemma_first_living_except(pre.roster(char_team), char_idx as int);
            }
            if allies.len() > 0 {
                proof {
                    let f = crate::engine::first_living_except(
                        pre.roster(char_team),
                        char_idx as int,
                    );
                    assert(pre.roster(char_team)[allies@[0] as int].spec_alive() && allies@[0]
                        != char_idx);
                    assert(f >= 0);
                    let w = choose|k: int| 0 <= k < allies@.len() && allies@[k] == f;
                    assert(allies@[0] <= allies@[w]);
                    assert(!(allies@[0] < f));
                    assert(allies@[0] == f);
                }
                let protected_name = self.char_at(char_team, allies[0]).name.clone();
                let caster_name = self.char_at(char_team, char_idx).name.clone();
                crate::engine::rel_set(&mut self.sacrifice_targets, protected_name, caster_name);
            } else {
                proof {
                    let f = crate::engine::first_living_except(
                        pre.roster(char_team),
                        char_idx as int,
                    );
                    if f >= 0 {
                        let w = choose|k: int| 0 <= k < allies@.len() && allies@[k] == f;
                        assert(false);
                    }
                }
            }
            return ;
        }
        let defense_dice: Option<DiceRoll> = card.defense;
        match defense_dice {
            Some(dice) => {
                let num_targets: usize = match card.effect {
                    crate::cards::SpecialEffect::DefendMultiple(n) => n as usize,
                    _ => 1,
                };
                let allies = self.get_living_allies(char_team, None);
                let count: usize = if num_targets < allies.len() {
                    num_targets
                } else {
                    allies.len()
                };
                let donor = self.char_at(char_team, char_idx);
                proof {
                    crate::modifiers::lemma_total_bounds(donor.modifiers@, "defense"@, None);
                    crate::character::lemma_equip_sums_bounds(donor.equipment@);
                }
                let base_part: i64 = donor.defense as i64 + donor.get_stat_modifier(
                    "defense",
                    None,
                ) as i64;
                let equip_part: i64 = donor.get_equipment_defense() as i64;
                let donor_base: i32 = (base_part + equip_part) as i32;
                let caster_name: String = donor.name.clone();
                let ghost s0 = *self;
                proof {
                    crate::engine::lemma_first_living_except(s0.roster(char_team), -1);
                    let f0 = crate::engine::first_living_except(s0.roster(char_team), -1);
                    if allies@.len() > 0 {
                        assert(s0.roster(char_team)[allies@[0] as int].spec_alive());
                        assert(f0 >= 0);
                        let w = choose|k: int| 0 <= k < allies@.len() && allies@[k] == f0;
                        assert(allies@[0] <= allies@[w]);
                        assert(!(allies@[0] < f0));
                        assert(allies@[0] == f0);
                    } else {
                        if f0 >= 0 {
                            let w = choose|k: int| 0 <= k < allies@.len() && allies@[k] == f0;
                            assert(false);
                        }
                    }
                }
                let mut i: usize = 0;
                while i < count
                    invariant
                        self.chars_ok(),
                        CombatEngine::eq_bookkeeping(*self, s0),
                        self.vengeance_targets == s0.vengeance_targets,
                        self.sacrifice_targets == s0.sacrifice_targets,
                        self.coordinated_ambush_target == s0.coordinated_ambush_target,
                        s0.valid_slot(char_team, char_idx),
                        char_team == 1 || char_team == 2,
                        dice.wf(),
                        dice.max_roll() <= crate::equipment::STAT_BOUND,
                        -0x7000_0000 <= donor_base <= 0x7000_0000,
                        own_defense_min(s0.roster(char_team)[char_idx as int]) <= donor_base
                            <= own_defense_max(s0.roster(char_team)[char_idx as int]),
                        caster_name@ == s0.roster(char_team)[char_idx as int].name@,
                        count <= allies@.len(),
                        allies@.len() > 0 ==> allies@[0] == crate::engine::first_living_except(
                            s0.roster(char_team),
                            -1,
                        ),
                        forall|k: int|
                            0 <= k < allies@.len() ==> (#[trigger] allies@[k]) < s0.roster(
                                char_team,
                            ).len(),
                        forall|k1: int, k2: int|
                            0 <= k1 < k2 < allies@.len() ==> allies@[k1] < allies@[k2],
                        0 <= i <= count,
                        forall|j: int|
                            0 <= j < s0.team1@.len() ==> effect_frame(
                                #[trigger] s0.team1@[j],
                                self.team1@[j],
                            ),
                        forall|j: int|
                            0 <= j < s0.team2@.len() ==> effect_frame(
                                #[trigger] s0.team2@[j],
                                self.team2@[j],
                            ),
                        forall|k: int|
                            i <= k < count ==> (#[trigger] self.roster(char_team)[allies@[k] as int])
                                == s0.roster(char_team)[allies@[k] as int],
                        i >= 1 ==> {
                            let a = s0.roster(char_team)[allies@[0] as int];
                            let b = self.roster(char_team)[allies@[0] as int];
                            &&& b == (Character { defense_bonuses: b.defense_bonuses, ..a })
                            &&& b.defense_bonuses@.len() == a.defense_bonuses@.len() + 1
                            &&& b.defense_bonuses@.drop_last() == a.defense_bonuses@
                            &&& b.defense_bonuses@.last().team == char_team
                            &&& b.defense_bonuses@.last().idx == char_idx
                            &&& b.defense_bonuses@.last().name@ == caster_name@
                            &&& b.defense_bonuses@.last().dice == dice
                            &&& b.defense_bonuses@.last().base_defense == donor_base
                        },
                    decreases count - i,
                {
                    let ghost sp = *self;
                    let ally_idx = allies[i];
                    let grant = crate::character::DefenseGrant {
                        team: char_team,
                        idx: char_idx,
                        name: caster_name.clone(),
                        base_defense: donor_base,
                        dice,
                    };
                    let ghost gpre = self.roster(char_team)[ally_idx as int].defense_bonuses@;
                    let c = self.char_mut(char_team, ally_idx);
                    c.defense_bonuses.push(grant);
                    proof {
                        assert(forall|g: int|
                            0 <= g < gpre.len() ==> gpre.push(grant)[g] == gpre[g]);
                        assert forall|k: int| i + 1 <= k < count implies (#[trigger] self.roster(
                            char_team,
                        )[allies@[k] as int]) == s0.roster(char_team)[allies@[k] as int] by {
                            assert(allies@[i as int] < allies@[k]);
                            assert(self.roster(char_team)[allies@[k] as int] == sp.roster(
                                char_team,
                            )[allies@[k] as int]);
                        }
                        if i >= 1 {
                            assert(allies@[0] < allies@[i as int]);
                            assert(self.roster(char_team)[allies@[0] as int] == sp.roster(
                                char_team,
                            )[allies@[0] as int]);
                        } else {
                            assert(sp.roster(char_team)[allies@[0] as int] == s0.roster(
                                char_team,
                            )[allies@[0] as int]);
                        }
                    }
                    i = i + 1;
                }
                let is_absorb: bool = match card.effect {
                    crate::cards::SpecialEffect::AbsorbPain => true,
                    _ => false,
                };
                let ghost s_granted = *self;
                if is_absorb {
                    let c = self.char_mut(char_team, char_idx);
                    c.has_absorb_pain = true;
                }
                proof {
                    if count >= 1 {
                        assert(self.roster(char_team)[allies@[0] as int].defense_bonuses
                            == s_granted.roster(char_team)[allies@[0] as int].defense_bonuses);
                    }
                }
            },
            None => {},
        }
    }

    /// Push one modifier to each listed member of a roster, first to last.
    /// The list must be strictly ascending, as the living-member lists are.
    #[verifier::rlimit(100)]
    fn push_modifier_to_each(&mut self, team: u8, list: &Vec<usize>, m: CombatModifier)
        requires
            old(self).chars_ok(),
            team == 1 || team == 2,
            forall|k: int|
                0 <= k < list@.len() ==> (#[trigger] list@[k]) < old(self).roster(team).len(),
            forall|k1: int, k2: int| 0 <= k1 < k2 < list@.len() ==> list@[k1] < list@[k2],
            m.wf(),
            match m.dice {
                Some(_) => true,
                None => -1024 <= m.value <= 1024,
            },
        ensures
            final(self).chars_ok(),
            CombatEngine::eq_bookkeeping(*final(self), *old(self)),
            final(self).vengeance_targets == old(self).vengeance_targets,
            final(self).sacrifice_targets == old(self).sacrifice_targets,
            final(self).coordinated_ambush_target == old(self).coordinated_ambush_target,
            forall|j: int|
                0 <= j < old(self).team1@.len() ==> one_push_frame(
                    #[trigger] old(self).team1@[j],
                    final(self).team1@[j],
                ),
            forall|j: int|
                0 <= j < old(self).team2@.len() ==> one_push_frame(
                    #[trigger] old(self).team2@[j],
                    final(self).team2@[j],
                ),
    {
        let ghost s0 = *old(self);
        let n = list.len();
        let mut i: usize = 0;
        while i < n
            invariant
                self.chars_ok(),
                CombatEngine::eq_bookkeeping(*self, s0),
                self.vengeance_targets == s0.vengeance_targets,
                self.sacrifice_targets == s0.sacrifice_targets,
                self.coordinated_ambush_target == s0.coordinated_ambush_target,
                team == 1 || team == 2,
                n == list@.len(),
                forall|k: int|
                    0 <= k < list@.len() ==> (#[trigger] list@[k]) < s0.roster(team).len(),
                forall|k1: int, k2: int| 0 <= k1 < k2 < list@.len() ==> list@[k1] < list@[k2],
                m.wf(),
                match m.dice {
                    Some(_) => true,
                    None => -1024 <= m.value <= 1024,
                },
                0 <= i <= n,
                forall|j: int|
                    0 <= j < s0.team1@.len() ==> one_push_frame(
                        #[trigger] s0.team1@[j],
                        self.team1@[j],
                    ),
                forall|j: int|
                    0 <= j < s0.team2@.len() ==> one_push_frame(
                        #[trigger] s0.team2@[j],
                        self.team2@[j],
                    ),
                team == 1 ==> forall|k: int|
                    i <= k < n ==> (#[trigger] self.team1@[list@[k] as int])
                        == s0.team1@[list@[k] as int],
                team == 2 ==> forall|k: int|
                    i <= k < n ==> (#[trigger] self.team2@[list@[k] as int])
                        == s0.team2@[list@[k] as int],
            decreases n - i,
        {
            let ghost sp = *self;
            let target = list[i];
            self.push_modifier_to(team, target, m.clone());
            proof {
                if team == 1 {
                    assert(sp.team1@[target as int] == s0.team1@[target as int]);
                    assert forall|k: int| i + 1 <= k < n implies (#[trigger] self.team1@[list@[k] as int])
                        == s0.team1@[list@[k] as int] by {
                        assert(list@[i as int] < list@[k]);
                        assert(self.team1@[list@[k] as int] == sp.team1@[list@[k] as int]);
                    }
                } else {
                    assert(sp.team2@[target as int] == s0.team2@[target as int]);
                    assert forall|k: int| i + 1 <= k < n implies (#[trigger] self.team2@[list@[k] as int])
                        == s0.team2@[list@[k] as int] by {
                        assert(list@[i as int] < list@[k]);
                        assert(self.team2@[list@[k] as int] == sp.team2@[list@[k] as int]);
                    }
                }
            }
            i = i + 1;
        }
    }

    /// The effect phase of a Focus card: install the tagged buff, debuff,
    /// relation or flag the effect names.
    #[verifier::rlimit(100)]
    #[verifier::spinoff_prover]
    fn focus_card_effects(&mut self, char_team: u8, char_idx: usize, card: &Card)
        requires
            old(self).chars_ok(),
            old(self).action_room(),
            old(self).valid_slot(char_team, char_idx),
            char_team == 1 || char_team == 2,
            card.wf(),
        ensures
            final(self).chars_ok(),
            CombatEngine::eq_bookkeeping(*final(self), *old(self)),
            final(self).sacrifice_targets == old(self).sacrifice_targets,
            forall|j: int|
                0 <= j < old(self).team1@.len() ==> effect_frame(
                    #[trigger] old(self).team1@[j],
                    final(self).team1@[j],
                ),
            forall|j: int|
                0 <= j < old(self).team2@.len() ==> effect_frame(
                    #[trigger] old(self).team2@[j],
                    final(self).team2@[j],
                ),
            // The deterministic single-target arms, exactly: a stat boost
            // appends one RestOfCombat modifier to the actor; the dodge
            // focus raises the flag and banks next turn's speed.
            ({
                let actor = old(self).roster(char_team)[char_idx as int];
                let fin_actor = final(self).roster(char_team)[char_idx as int];
                &&& (match card.effect {
                    crate::cards::SpecialEffect::StrengthBoost(k) => {
                        &&& fin_actor == (Character { modifiers: fin_actor.modifiers, ..actor })
                        &&& fin_actor.modifiers@.drop_last() == actor.modifiers@
                        &&& fin_actor.modifiers@.len() == actor.modifiers@.len() + 1
                        &&& fin_actor.modifiers@.last().stat@ == "strength"@
                        &&& fin_actor.modifiers@.last().value == k
                        &&& fin_actor.modifiers@.last().duration
                            == crate::modifiers::ModifierDuration::RestOfCombat
                        &&& fin_actor.modifiers@.last().dice matches None
                        &&& unchanged_except(*old(self), *final(self), char_team, char_idx as int)
                    },
                    crate::cards::SpecialEffect::MagicBoost(k) => {
                        &&& fin_actor == (Character { modifiers: fin_actor.modifiers, ..actor })
                        &&& fin_actor.modifiers@.drop_last() == actor.modifiers@
                        &&& fin_actor.modifiers@.len() == actor.modifiers@.len() + 1
                        &&& fin_actor.modifiers@.last().stat@ == "magic"@
                        &&& fin_actor.modifiers@.last().value == k
                        &&& fin_actor.modifiers@.last().duration
                            == crate::modifiers::ModifierDuration::RestOfCombat
                        &&& fin_actor.modifiers@.last().dice matches None
                        &&& unchanged_except(*old(self), *final(self), char_team, char_idx as int)
                    },
                    crate::cards::SpecialEffect::DodgeWithSpeedBoost => {
                        &&& fin_actor == (Character {
                            dodging: true,
                            modifiers: fin_actor.modifiers,
                            ..actor
                        })
                        &&& fin_actor.modifiers@.drop_last() == actor.modifiers@
                        &&& fin_actor.modifiers@.len() == actor.modifiers@.len() + 1
                        &&& fin_actor.modifiers@.last().stat@ == "speed"@
                        &&& fin_actor.modifiers@.last().value == 3
                        &&& fin_actor.modifiers@.last().duration
                            == crate::modifiers::ModifierDuration::NextTurn
                        &&& fin_actor.modifiers@.last().dice matches None
                        &&& unchanged_except(*old(self), *final(self), char_team, char_idx as int)
                    },
                    _ => true,
                })
            }),
            // The retaliation effect, exactly: every living enemy already
            // wounded this combat takes one more wound, everyone else is
            // untouched, and the actor's own side is untouched.
            (card.effect == crate::cards::SpecialEffect::BloodThirst ==> {
                let foes_old = old(self).roster(crate::engine::enemy_of(char_team));
                let foes_fin = final(self).roster(crate::engine::enemy_of(char_team));
                &&& (char_team == 1 ==> final(self).team1 == old(self).team1)
                &&& (char_team == 2 ==> final(self).team2 == old(self).team2)
                &&& forall|j: int|
                    0 <= j < foes_old.len() ==> {
                        let a = #[trigger] foes_old[j];
                        let b = foes_fin[j];
                        &&& (a.spec_alive() && a.wounded_this_combat ==> b == (Character {
                            current_wounds: (a.current_wounds + 1) as u32,
                            wounded_this_combat: true,
                            ..a
                        }))
                        &&& (!(a.spec_alive() && a.wounded_this_combat) ==> b == a)
                    }
            }),
    {
        proof {
            lemma_budget_room_in_range(*self);
        }
        let enemy_team: u8 = if char_team == 1 {
            2
        } else {
            1
        };
        proof {
            assert(enemy_team == crate::engine::enemy_of(char_team));
        }
        match card.effect {
            crate::cards::SpecialEffect::StrengthBoost(amount) => {
                let m = CombatModifier::new(
                    "strength",
                    amount,
                    ModifierDuration::RestOfCombat,
                ).with_source(card.name.as_str());
                self.push_modifier_to(char_team, char_idx, m);
            },
            crate::cards::SpecialEffect::MagicBoost(amount) => {
                let m = CombatModifier::new(
                    "magic",
                    amount,
                    ModifierDuration::RestOfCombat,
                ).with_source(card.name.as_str());
                self.push_modifier_to(char_team, char_idx, m);
            },
            crate::cards::SpecialEffect::AllyStrengthThisTurn(amount) => {
                let allies = self.get_living_allies(char_team, Some(char_idx));
                let m = CombatModifier::new(
                    "strength",
                    amount,
                    ModifierDuration::ThisTurn,
                ).with_source(card.name.as_str());
                self.push_modifier_to_each(char_team, &allies, m);
            },
            crate::cards::SpecialEffect::DefenseBoostDuration { dice, turns: _ } => {
                let m = CombatModifier::new(
                    "defense",
                    0,
                    ModifierDuration::ThisAndNextTurn,
                ).with_dice(dice).with_source(card.name.as_str());
                self.push_modifier_to(char_team, char_idx, m.clone());
                let allies = self.get_living_allies(char_team, Some(char_idx));
                if allies.len() > 0 {
                    let ghost smid = *self;
                    let ally_idx = allies[0];
                    self.push_modifier_to(char_team, ally_idx, m);
                    proof {
                        assert(char_idx != ally_idx);
                    }
                }
            },
            crate::cards::SpecialEffect::TeamSpeedDefenseBoost => {
                let allies = self.get_living_allies(char_team, None);
                let ms = CombatModifier::new(
                    "speed",
                    2,
                    ModifierDuration::RestOfCombat,
                ).with_source(card.name.as_str());
                self.push_modifier_to_each(char_team, &allies, ms);
                let ghost smid = *self;
                let md = CombatModifier::new(
                    "defense",
                    1,
                    ModifierDuration::RestOfCombat,
                ).with_source(card.name.as_str());
                self.push_modifier_to_each(char_team, &allies, md);
            },
            crate::cards::SpecialEffect::BlindingSmoke => {
                let enemies = self.get_living_enemies(char_team);
                let me = CombatModifier::new(
                    "speed",
                    -4,
                    ModifierDuration::ThisTurn,
                ).with_source(card.name.as_str());
                self.push_modifier_to_each(enemy_team, &enemies, me);
                let allies = self.get_living_allies(char_team, None);
                let ma = CombatModifier::new(
                    "speed",
                    2,
                    ModifierDuration::ThisTurn,
                ).with_source(card.name.as_str());
                self.push_modifier_to_each(char_team, &allies, ma);
            },
            crate::cards::SpecialEffect::DodgeWithSpeedBoost => {
                {
                    let c = self.char_mut(char_team, char_idx);
                    c.dodging = true;
                }
                let m = CombatModifier::new("speed", 3, ModifierDuration::NextTurn).with_source(
                    card.name.as_str(),
                );
                self.push_modifier_to(char_team, char_idx, m);
            },
            crate::cards::SpecialEffect::CoordinatedAmbush => {
                let enemies = self.get_living_enemies(char_team);
                if enemies.len() > 0 {
                    let target_name: String = self.char_at(enemy_team, enemies[0]).name.clone();
                    self.coordinated_ambush_target = Some(target_name.clone());
                    let allies = self.get_living_allies(char_team, Some(char_idx));
                    let condition = crate::text::attack_condition_label(target_name.as_str());
                    let m = CombatModifier::new(
                        "attack_bonus",
                        0,
                        ModifierDuration::ThisTurn,
                    ).with_dice(DiceRoll::new(1, 8, 0)).with_source(card.name.as_str()).with_condition(
                        condition.as_str(),
                    );
                    self.push_modifier_to_each(char_team, &allies, m);
                }
            },
            crate::cards::SpecialEffect::Vengeance => {
                let allies = self.get_living_allies(char_team, Some(char_idx));
                let caster_name: String = self.char_at(char_team, char_idx).name.clone();
                let protect_name: String = if allies.len() == 0 {
                    caster_name.clone()
                } else {
                    let na = allies.len();
                    let mut best: Option<usize> = None;
                    let mut best_wounds: u32 = 0;
                    let mut k: usize = 0;
                    while k < na
                        invariant
                            self.chars_ok(),
                            char_team == 1 || char_team == 2,
                            na == allies@.len(),
                            forall|kk: int|
                                0 <= kk < allies@.len() ==> (#[trigger] allies@[kk]) < self.roster(
                                    char_team,
                                ).len(),
                            0 <= k <= na,
                            match best {
                                Some(b) => b < self.roster(char_team).len() && best_wounds > 0,
                                None => true,
                            },
                        decreases na - k,
                    {
                        let a = self.char_at(char_team, allies[k]);
                        if a.current_wounds > 0 {
                            let take: bool = match best {
                                Some(_) => a.current_wounds >= best_wounds,
                                None => true,
                            };
                            if take {
                                best = Some(allies[k]);
                                best_wounds = a.current_wounds;
                            }
                        }
                        k = k + 1;
                    }
                    match best {
                        Some(b) => self.char_at(char_team, b).name.clone(),
                        None => self.char_at(char_team, allies[0]).name.clone(),
                    }
                };
                crate::engine::rel_set(&mut self.vengeance_targets, protect_name, caster_name);
            },
            crate::cards::SpecialEffect::EnchantWeapon => {
                let allies = self.get_living_allies(char_team, None);
                let mut target: usize = char_idx;
                let mut found: bool = false;
                let mut best: i32 = 0;
                let na = allies.len();
                let mut k: usize = 0;
                while k < na
                    invariant
                        self.chars_ok(),
                        char_team == 1 || char_team == 2,
                        self.valid_slot(char_team, char_idx),
                        na == allies@.len(),
                        forall|kk: int|
                            0 <= kk < allies@.len() ==> (#[trigger] allies@[kk]) < self.roster(
                                char_team,
                            ).len(),
                        0 <= k <= na,
                        target < self.roster(char_team).len(),
                    decreases na - k,
                {
                    let a = self.char_at(char_team, allies[k]);
                    let power: i32 = if a.strength >= a.magic {
                        a.strength
                    } else {
                        a.magic
                    };
                    if !found || power >= best {
                        found = true;
                        best = power;
                        target = allies[k];
                    }
                    k = k + 1;
                }
                let m = CombatModifier::new(
                    "attack_bonus",
                    0,
                    ModifierDuration::RestOfCombat,
                ).with_dice(DiceRoll::new(1, 6, 0)).with_source(card.name.as_str());
                self.push_modifier_to(char_team, target, m);
            },
            crate::cards::SpecialEffect::PoisonWeapon => {
                let allies = self.get_living_allies(char_team, Some(char_idx));
                let mut target: usize = char_idx;
                let mut found: bool = false;
                let mut best: i32 = 0;
                let na = allies.len();
                let mut k: usize = 0;
                while k < na
                    invariant
                        self.chars_ok(),
                        char_team == 1 || char_team == 2,
                        self.valid_slot(char_team, char_idx),
                        na == allies@.len(),
                        forall|kk: int|
                            0 <= kk < allies@.len() ==> (#[trigger] allies@[kk]) < self.roster(
                                char_team,
                            ).len(),
                        0 <= k <= na,
                        target < self.roster(char_team).len(),
                    decreases na - k,
                {
                    let a = self.char_at(char_team, allies[k]);
                    if !found || a.strength >= best {
                        found = true;
                        best = a.strength;
                        target = allies[k];
                    }
                    k = k + 1;
                }
                let c = self.char_mut(char_team, target);
                c.has_poison_weapon = true;
            },
            crate::cards::SpecialEffect::BloodThirst => {
                let enemies = self.get_living_enemies(char_team);
                let ghost s0 = *self;
                let ne = enemies.len();
                let mut i: usize = 0;
                while i < ne
                    invariant
                        self.chars_ok(),
                        CombatEngine::eq_bookkeeping(*self, s0),
                        self.vengeance_targets == s0.vengeance_targets,
                        self.sacrifice_targets == s0.sacrifice_targets,
                        self.coordinated_ambush_target == s0.coordinated_ambush_target,
                        s0.action_room(),
                        char_team == 1 || char_team == 2,
                        enemy_team == crate::engine::enemy_of(char_team),
                        ne == enemies@.len(),
                        forall|k: int|
                            0 <= k < enemies@.len() ==> (#[trigger] enemies@[k]) < s0.roster(
                                enemy_team,
                            ).len() && s0.roster(enemy_team)[enemies@[k] as int].spec_alive(),
                        forall|k1: int, k2: int|
                            0 <= k1 < k2 < enemies@.len() ==> enemies@[k1] < enemies@[k2],
                        0 <= i <= ne,
                        forall|j: int|
                            0 <= j < s0.team1@.len() ==> effect_frame(
                                #[trigger] s0.team1@[j],
                                self.team1@[j],
                            ),
                        forall|j: int|
                            0 <= j < s0.team2@.len() ==> effect_frame(
                                #[trigger] s0.team2@[j],
                                self.team2@[j],
                            ),
                        char_team == 1 ==> self.team1 == s0.team1,
                        char_team == 2 ==> self.team2 == s0.team2,
                        forall|j: int|
                            0 <= j < s0.roster(enemy_team).len() && !(#[trigger] s0.roster(
                                enemy_team,
                            )[j]).spec_alive() ==> self.roster(enemy_team)[j] == s0.roster(
                                enemy_team,
                            )[j],
                        forall|k: int|
                            0 <= k < i ==> {
                                let a = s0.roster(enemy_team)[(#[trigger] enemies@[k]) as int];
                                let b = self.roster(enemy_team)[enemies@[k] as int];
                                &&& (a.wounded_this_combat ==> b == (Character {
                                    current_wounds: (a.current_wounds + 1) as u32,
                                    wounded_this_combat: true,
                                    ..a
                                }))
                                &&& (!a.wounded_this_combat ==> b == a)
                            },
                        enemy_team == 1 ==> forall|k: int|
                            i <= k < ne ==> (#[trigger] self.team1@[enemies@[k] as int])
                                == s0.team1@[enemies@[k] as int],
                        enemy_team == 2 ==> forall|k: int|
                            i <= k < ne ==> (#[trigger] self.team2@[enemies@[k] as int])
                                == s0.team2@[enemies@[k] as int],
                    decreases ne - i,
                {
                    let ghost sp = *self;
                    let target = enemies[i];
                    if self.char_at(enemy_team, target).wounded_this_combat {
                        let c = self.char_mut(enemy_team, target);
                        let _ = c.take_wound();
                    }
                    proof {
                        if enemy_team == 1 {
                            assert forall|k: int| i + 1 <= k < ne implies (#[trigger] self.team1@[enemies@[k] as int])
                                == s0.team1@[enemies@[k] as int] by {
                                assert(enemies@[i as int] < enemies@[k]);
                                assert(self.team1@[enemies@[k] as int]
                                    == sp.team1@[enemies@[k] as int]);
                            }
                        } else {
                            assert forall|k: int| i + 1 <= k < ne implies (#[trigger] self.team2@[enemies@[k] as int])
                                == s0.team2@[enemies@[k] as int] by {
                                assert(enemies@[i as int] < enemies@[k]);
                                assert(self.team2@[enemies@[k] as int]
                                    == sp.team2@[enemies@[k] as int]);
                            }
                        }
                        assert forall|j: int|
                            0 <= j < s0.roster(enemy_team).len() && !(#[trigger] s0.roster(
                                enemy_team,
                            )[j]).spec_alive() implies self.roster(enemy_team)[j] == s0.roster(
                            enemy_team,
                        )[j] by {
                            assert(s0.roster(
                                enemy_team,
                            )[enemies@[i as int] as int].spec_alive());
                            assert(j != enemies@[i as int]);
                            assert(self.roster(enemy_team)[j] == sp.roster(enemy_team)[j]);
                        }
                        assert forall|k: int| 0 <= k < i + 1 implies {
                            let a = s0.roster(enemy_team)[(#[trigger] enemies@[k]) as int];
                            let b = self.roster(enemy_team)[enemies@[k] as int];
                            &&& (a.wounded_this_combat ==> b == (Character {
                                current_wounds: (a.current_wounds + 1) as u32,
                                wounded_this_combat: true,
                                ..a
                            }))
                            &&& (!a.wounded_this_combat ==> b == a)
                        } by {
                            if k < i {
                                assert(enemies@[k] < enemies@[i as int]);
                                assert(self.roster(enemy_team)[enemies@[k] as int] == sp.roster(
                                    enemy_team,
                                )[enemies@[k] as int]);
                            } else {
                                assert(sp.roster(enemy_team)[enemies@[i as int] as int]
                                    == s0.roster(enemy_team)[enemies@[i as int] as int]);
                            }
                        }
                    }
                    i = i + 1;
                }
                proof {
                    assert forall|j: int| 0 <= j < s0.roster(enemy_team).len() implies {
                        let a = #[trigger] s0.roster(enemy_team)[j];
                        let b = self.roster(enemy_team)[j];
                        &&& (a.spec_alive() && a.wounded_this_combat ==> b == (Character {
                            current_wounds: (a.current_wounds + 1) as u32,
                            wounded_this_combat: true,
                            ..a
                        }))
                        &&& (!(a.spec_alive() && a.wounded_this_combat) ==> b == a)
                    } by {
                        if s0.roster(enemy_team)[j].spec_alive() {
                            let k = choose|k: int| 0 <= k < enemies@.len() && enemies@[k] == j;
                            assert(0 <= k < ne);
                        }
                    }
                }
            },
            _ => {},
        }
    }
}

/// The statistics label of a card type.
pub fn card_type_label(t: crate::cards::CardType) -> (r: String)
    ensures
        r@ == spec_card_type_label(t),
{
    match t {
        crate::cards::CardType::PhysicalAttack => "PhysicalAttack".to_owned(),
        crate::cards::CardType::MagicAttack => "MagicAttack".to_owned(),
        crate::cards::CardType::Defense => "Defense".to_owned(),
        crate::cards::CardType::Focus => "Focus".to_owned(),
        crate::cards::CardType::PhysicalDefense => "PhysicalDefense".to_owned(),
    }
}

/// The statistics label of a card type, as a character sequence.
pub open spec fn spec_card_type_label(t: crate::cards::CardType) -> Seq<char> {
    match t {
        crate::cards::CardType::PhysicalAttack => "PhysicalAttack"@,
        crate::cards::CardType::MagicAttack => "MagicAttack"@,
        crate::cards::CardType::Defense => "Defense"@,
        crate::cards::CardType::Focus => "Focus"@,
        crate::cards::CardType::PhysicalDefense => "PhysicalDefense"@,
    }
}

/// How one whole card resolution may move a character: statics stay, wounds
/// grow by at most thirty, the modifier load stays within one action's
/// budget.
pub open spec fn card_frame(a: Character, b: Character) -> bool {
    &&& char_statics_eq(a, b)
    &&& a.current_wounds <= b.current_wounds <= a.current_wounds + 30
    &&& mag_sum(b.modifiers@) <= mag_sum(a.modifiers@) + 0x8_0000
    &&& b.played_card_idx == a.played_card_idx
}

impl CombatEngine {
    /// Resolve one chosen card: record the play, fizzle an interrupted
    /// Focus or a stunned attacker's attack, and otherwise run the attack,
    /// defense and Focus phases that apply to the card's type.
    #[verifier::rlimit(100)]
    #[verifier::spinoff_prover]
    pub fn resolve_card(&mut self, char_team: u8, char_idx: usize, card: Card)
        requires
            old(self).chars_ok(),
            old(self).budget_room(),
            old(self).valid_slot(char_team, char_idx),
            char_team == 1 || char_team == 2,
            card.wf(),
            crate::stats::weight(old(self).stats.card_stats@) < 0x1000_0000_0000_0000 - 4,
            crate::stats::weight(old(self).stats.card_type_stats@) < 0x1000_0000_0000_0000 - 4,
        ensures
            final(self).chars_ok(),
            final(self).round_number == old(self).round_number,
            final(self).max_rounds == old(self).max_rounds,
            final(self).verbose == old(self).verbose,
            final(self).team1@.len() == old(self).team1@.len(),
            final(self).team2@.len() == old(self).team2@.len(),
            forall|j: int|
                0 <= j < old(self).team1@.len() ==> card_frame(
                    #[trigger] old(self).team1@[j],
                    final(self).team1@[j],
                ),
            forall|j: int|
                0 <= j < old(self).team2@.len() ==> card_frame(
                    #[trigger] old(self).team2@[j],
                    final(self).team2@[j],
                ),
            crate::stats::weight(old(self).stats.card_stats@) + 1 <= crate::stats::weight(
                final(self).stats.card_stats@,
            ) <= crate::stats::weight(old(self).stats.card_stats@) + 2,
            crate::stats::weight(old(self).stats.card_type_stats@) + 1 <= crate::stats::weight(
                final(self).stats.card_type_stats@,
            ) <= crate::stats::weight(old(self).stats.card_type_stats@) + 2,
            crate::stats::or_zero(
                crate::stats::lookup(final(self).stats.card_stats@, card.name@),
            ).plays == crate::stats::or_zero(
                crate::stats::lookup(old(self).stats.card_stats@, card.name@),
            ).plays + 1,
            forall|k: Seq<char>|
                k != card.name@ ==> crate::stats::lookup(final(self).stats.card_stats@, k)
                    == crate::stats::lookup(old(self).stats.card_stats@, k),
            crate::stats::or_zero(
                crate::stats::lookup(
                    final(self).stats.card_type_stats@,
                    spec_card_type_label(card.card_type),
                ),
            ).plays == crate::stats::or_zero(
                crate::stats::lookup(
                    old(self).stats.card_type_stats@,
                    spec_card_type_label(card.card_type),
                ),
            ).plays + 1,
            forall|k: Seq<char>|
                k != spec_card_type_label(card.card_type) ==> crate::stats::lookup(
                    final(self).stats.card_type_stats@,
                    k,
                ) == crate::stats::lookup(old(self).stats.card_type_stats@, k),
            char_team == 1 ==> final(self).team1_cards_played@.last().1@ == spec_card_type_label(
                card.card_type,
            ),
            char_team == 2 ==> final(self).team2_cards_played@.last().1@ == spec_card_type_label(
                card.card_type,
            ),
            // The interrupted counters rise exactly on a Focus fizzle and
            // stay put otherwise; a stunned attacker's fizzle counts no
            // interruption.
            ({
                let actor = old(self).roster(char_team)[char_idx as int];
                let fizzle = card.card_type.spec_is_focus() && actor.focus_interrupted;
                let label = spec_card_type_label(card.card_type);
                &&& (fizzle ==> crate::stats::or_zero(
                    crate::stats::lookup(final(self).stats.card_stats@, card.name@),
                ).interrupted == crate::stats::or_zero(
                    crate::stats::lookup(old(self).stats.card_stats@, card.name@),
                ).interrupted + 1 && crate::stats::or_zero(
                    crate::stats::lookup(final(self).stats.card_type_stats@, label),
                ).interrupted == crate::stats::or_zero(
                    crate::stats::lookup(old(self).stats.card_type_stats@, label),
                ).interrupted + 1)
                &&& (!fizzle ==> (forall|k: Seq<char>|
                    crate::stats::or_zero(
                        #[trigger] crate::stats::lookup(final(self).stats.card_stats@, k),
                    ).interrupted == crate::stats::or_zero(
                        crate::stats::lookup(old(self).stats.card_stats@, k),
                    ).interrupted) && (forall|k: Seq<char>|
                    crate::stats::or_zero(
                        #[trigger] crate::stats::lookup(final(self).stats.card_type_stats@, k),
                    ).interrupted == crate::stats::or_zero(
                        crate::stats::lookup(old(self).stats.card_type_stats@, k),
                    ).interrupted))
            }),
            char_team == 1 ==> {
                &&& final(self).team1_cards_played@.len() == old(self).team1_cards_played@.len()
                    + 1
                &&& final(self).team1_cards_played@.drop_last() == old(self).team1_cards_played@
                &&& final(self).team1_cards_played@.last().0@ == card.name@
                &&& final(self).team2_cards_played == old(self).team2_cards_played
            },
            char_team == 2 ==> {
                &&& final(self).team2_cards_played@.len() == old(self).team2_cards_played@.len()
                    + 1
                &&& final(self).team2_cards_played@.drop_last() == old(self).team2_cards_played@
                &&& final(self).team2_cards_played@.last().0@ == card.name@
                &&& final(self).team1_cards_played == old(self).team1_cards_played
            },
            ({
                let actor = old(self).roster(char_team)[char_idx as int];
                (card.card_type.spec_is_focus() && actor.focus_interrupted) ==> {
                    &&& final(self).team1 == old(self).team1
                    &&& final(self).team2 == old(self).team2
                    &&& final(self).vengeance_targets == old(self).vengeance_targets
                    &&& final(self).sacrifice_targets == old(self).sacrifice_targets
                    &&& final(self).coordinated_ambush_target == old(
                        self,
                    ).coordinated_ambush_target
                }
            }),
            // The deterministic effects, surfaced for single-type cards
            // (for the hybrid attack-and-defense type they are stated on
            // the phase functions themselves, relative to the post-attack
            // state).
            ({
                let actor = old(self).roster(char_team)[char_idx as int];
                let fin_actor = final(self).roster(char_team)[char_idx as int];
                &&& ((card.card_type == crate::cards::CardType::PhysicalAttack && !actor.stunned)
                    ==> {
                    &&& (card.effect == crate::cards::SpecialEffect::SkipNextTurn
                        ==> fin_actor.skip_turns == 1)
                    &&& (match card.effect {
                        crate::cards::SpecialEffect::SkipNextTurns(n) => fin_actor.skip_turns == n,
                        _ => true,
                    })
                })
                &&& ((card.card_type == crate::cards::CardType::Defense && card.effect
                    == crate::cards::SpecialEffect::Sacrifice) ==> {
                    let f = crate::engine::first_living_except(
                        old(self).roster(char_team),
                        char_idx as int,
                    );
                    &&& final(self).team1 == old(self).team1
                    &&& final(self).team2 == old(self).team2
                    &&& (f >= 0 ==> rel_lookup(
                        final(self).sacrifice_targets@,
                        old(self).roster(char_team)[f].name@,
                    ) == Some(actor.name@))
                    &&& (f < 0 ==> final(self).sacrifice_targets == old(self).sacrifice_targets)
                })
                &&& ((card.card_type == crate::cards::CardType::Defense && !(card.effect
                    == crate::cards::SpecialEffect::Sacrifice) && (card.defense matches Some(_))
                    && (match card.effect {
                    crate::cards::SpecialEffect::DefendMultiple(n) => n >= 1,
                    _ => true,
                })) ==> {
                    let f0 = crate::engine::first_living_except(old(self).roster(char_team), -1);
                    f0 >= 0 ==> {
                        let a = old(self).roster(char_team)[f0];
                        let b = final(self).roster(char_team)[f0];
                        &&& b.defense_bonuses@.len() == a.defense_bonuses@.len() + 1
                        &&& b.defense_bonuses@.drop_last() == a.defense_bonuses@
                        &&& b.defense_bonuses@.last().team == char_team
                        &&& b.defense_bonuses@.last().idx == char_idx
                        &&& b.defense_bonuses@.last().name@ == actor.name@
                        &&& b.defense_bonuses@.last().dice == card.defense->Some_0
                        &&& own_defense_min(actor) <= b.defense_bonuses@.last().base_defense
                            <= own_defense_max(actor)
                    }
                })
                &&& ((card.card_type == crate::cards::CardType::Defense && card.effect
                    == crate::cards::SpecialEffect::AbsorbPain && (card.defense matches Some(_)))
                    ==> fin_actor.has_absorb_pain)
                &&& ((card.card_type.spec_is_focus() && !actor.focus_interrupted) ==> {
                    &&& (match card.effect {
                        crate::cards::SpecialEffect::StrengthBoost(k) => {
                            &&& fin_actor.modifiers@.drop_last() == actor.modifiers@
                            &&& fin_actor.modifiers@.len() == actor.modifiers@.len() + 1
                            &&& fin_actor.modifiers@.last().stat@ == "strength"@
                            &&& fin_actor.modifiers@.last().value == k
                            &&& fin_actor.modifiers@.last().duration
                                == crate::modifiers::ModifierDuration::RestOfCombat
                            &&& fin_actor.modifiers@.last().dice matches None
                        },
                        crate::cards::SpecialEffect::MagicBoost(k) => {
                            &&& fin_actor.modifiers@.drop_last() == actor.modifiers@
                            &&& fin_actor.modifiers@.len() == actor.modifiers@.len() + 1
                            &&& fin_actor.modifiers@.last().stat@ == "magic"@
                            &&& fin_actor.modifiers@.last().value == k
                            &&& fin_actor.modifiers@.last().duration
                                == crate::modifiers::ModifierDuration::RestOfCombat
                            &&& fin_actor.modifiers@.last().dice matches None
                        },
                        crate::cards::SpecialEffect::DodgeWithSpeedBoost => fin_actor.dodging,
                        crate::cards::SpecialEffect::BloodThirst => {
                            let foes_old = old(self).roster(crate::engine::enemy_of(char_team));
                            let foes_fin = final(self).roster(crate::engine::enemy_of(char_team));
                            forall|j: int|
                                0 <= j < foes_old.len() ==> {
                                    let a = #[trigger] foes_old[j];
                                    let b = foes_fin[j];
                                    &&& (a.spec_alive() && a.wounded_this_combat ==> b == (
                                    Character {
                                        current_wounds: (a.current_wounds + 1) as u32,
                                        wounded_this_combat: true,
                                        ..a
                                    }))
                                    &&& (!(a.spec_alive() && a.wounded_this_combat) ==> b == a)
                                }
                        },
                        _ => true,
                    })
                })
            }),
            ({
                let actor = old(self).roster(char_team)[char_idx as int];
                (card.card_type.spec_is_attack() && actor.stunned) ==> {
                    &&& final(self).team1 == old(self).team1
                    &&& final(self).team2 == old(self).team2
                    &&& final(self).vengeance_targets == old(self).vengeance_targets
                    &&& final(self).sacrifice_targets == old(self).sacrifice_targets
                    &&& final(self).coordinated_ambush_target == old(
                        self,
                    ).coordinated_ambush_target
                }
            }),
    {
        let ghost pre = *old(self);
        let card_name: String = card.name.clone();
        let type_label: String = card_type_label(card.card_type);
        proof {
            crate::stats::lemma_lookup_le_weight(self.stats.card_stats@, card_name@);
            crate::stats::lemma_lookup_le_weight(self.stats.card_type_stats@, type_label@);
        }
        self.record_card_play(char_team, &card_name, &type_label);
        let ghost s1 = *self;

        // An interrupted Focus fizzles: counted, nothing else happens.
        if card.card_type.is_focus() {
            if self.char_at(char_team, char_idx).focus_interrupted {
                proof {
                    crate::stats::lemma_lookup_le_weight(self.stats.card_stats@, card_name@);
                    crate::stats::lemma_lookup_le_weight(self.stats.card_type_stats@, type_label@);
                }
                self.stats.record_interrupted(card_name.as_str(), type_label.as_str());
                return ;
            }
        }
        // A stunned attacker's attack card fizzles silently.
        if card.card_type.is_attack() {
            if self.char_at(char_team, char_idx).stunned {
                return ;
            }
        }

        proof {
            assert forall|j: int| 0 <= j < self.team1@.len() implies (#[trigger] self.team1@[j]).current_wounds
                <= 0x20_0000 && mag_sum(self.team1@[j].modifiers@) <= 0x3900_0000 by {
                assert(self.team1@.len() == pre.team1@.len());
                assert(pre.team1@[j].current_wounds <= 0x10_0000 && mag_sum(
                    pre.team1@[j].modifiers@,
                ) <= 0x3800_0000);
            }
            assert forall|j: int| 0 <= j < self.team2@.len() implies (#[trigger] self.team2@[j]).current_wounds
                <= 0x20_0000 && mag_sum(self.team2@[j].modifiers@) <= 0x3900_0000 by {
                assert(self.team2@.len() == pre.team2@.len());
                assert(pre.team2@[j].current_wounds <= 0x10_0000 && mag_sum(
                    pre.team2@[j].modifiers@,
                ) <= 0x3800_0000);
            }
        }
        if card.card_type.is_attack() {
            self.attack_targets(char_team, char_idx, &card);
            let ghost s2 = *self;
            proof {
                assert forall|j: int| 0 <= j < self.team1@.len() implies (#[trigger] self.team1@[j]).current_wounds
                    <= 0x20_0000 && mag_sum(self.team1@[j].modifiers@) <= 0x3900_0000 by {
                    assert(pre.team1@[j].current_wounds <= 0x10_0000 && mag_sum(
                        pre.team1@[j].modifiers@,
                    ) <= 0x3800_0000);
                    assert(s1.team1@[j] == pre.team1@[j]);
                }
                assert forall|j: int| 0 <= j < self.team2@.len() implies (#[trigger] self.team2@[j]).current_wounds
                    <= 0x20_0000 && mag_sum(self.team2@[j].modifiers@) <= 0x3900_0000 by {
                    assert(pre.team2@[j].current_wounds <= 0x10_0000 && mag_sum(
                        pre.team2@[j].modifiers@,
                    ) <= 0x3800_0000);
                    assert(s1.team2@[j] == pre.team2@[j]);
                }
            }
            self.attack_followups(char_team, char_idx, &card);
            proof {
                assert forall|j: int| 0 <= j < pre.team1@.len() implies card_frame(
                    #[trigger] pre.team1@[j],
                    self.team1@[j],
                ) by {
                    assert(effect_frame(s2.team1@[j], self.team1@[j]));
                }
                assert forall|j: int| 0 <= j < pre.team2@.len() implies card_frame(
                    #[trigger] pre.team2@[j],
                    self.team2@[j],
                ) by {
                    assert(effect_frame(s2.team2@[j], self.team2@[j]));
                }
            }
        }
        let ghost s3 = *self;
        proof {
            assert forall|j: int| 0 <= j < self.team1@.len() implies (#[trigger] self.team1@[j]).current_wounds
                <= 0x20_0000 && mag_sum(self.team1@[j].modifiers@) <= 0x3900_0000 by {
                assert(self.team1@.len() == pre.team1@.len());
                assert(pre.team1@[j].current_wounds <= 0x10_0000 && mag_sum(
                    pre.team1@[j].modifiers@,
                ) <= 0x3800_0000);
                assert(card_frame(pre.team1@[j], s3.team1@[j]));
            }
            assert forall|j: int| 0 <= j < self.team2@.len() implies (#[trigger] self.team2@[j]).current_wounds
                <= 0x20_0000 && mag_sum(self.team2@[j].modifiers@) <= 0x3900_0000 by {
                assert(self.team2@.len() == pre.team2@.len());
                assert(pre.team2@[j].current_wounds <= 0x10_0000 && mag_sum(
                    pre.team2@[j].modifiers@,
                ) <= 0x3800_0000);
                assert(card_frame(pre.team2@[j], s3.team2@[j]));
            }
        }
        if card.card_type.is_defense() {
            self.defense_card_effects(char_team, char_idx, &card);
        }
        let ghost s4 = *self;
        proof {
            assert forall|j: int| 0 <= j < self.team1@.len() implies (#[trigger] self.team1@[j]).current_wounds
                <= 0x20_0000 && mag_sum(self.team1@[j].modifiers@) <= 0x3900_0000 by {
                assert(self.team1@.len() == pre.team1@.len());
                assert(pre.team1@[j].current_wounds <= 0x10_0000 && mag_sum(
                    pre.team1@[j].modifiers@,
                ) <= 0x3800_0000);
                assert(card_frame(pre.team1@[j], s3.team1@[j]));
                assert(s4.team1@[j] == s3.team1@[j] || effect_frame(s3.team1@[j], s4.team1@[j]));
            }
            assert forall|j: int| 0 <= j < self.team2@.len() implies (#[trigger] self.team2@[j]).current_wounds
                <= 0x20_0000 && mag_sum(self.team2@[j].modifiers@) <= 0x3900_0000 by {
                assert(self.team2@.len() == pre.team2@.len());
                assert(pre.team2@[j].current_wounds <= 0x10_0000 && mag_sum(
                    pre.team2@[j].modifiers@,
                ) <= 0x3800_0000);
                assert(card_frame(pre.team2@[j], s3.team2@[j]));
                assert(s4.team2@[j] == s3.team2@[j] || effect_frame(s3.team2@[j], s4.team2@[j]));
            }
        }
        if card.card_type.is_focus() {
            self.focus_card_effects(char_team, char_idx, &card);
        }
        proof {
            assert forall|j: int| 0 <= j < pre.team1@.len() implies card_frame(
                #[trigger] pre.team1@[j],
                self.team1@[j],
            ) by {
                assert(card_frame(pre.team1@[j], s3.team1@[j]));
                assert(effect_frame(s3.team1@[j], s4.team1@[j]) || s4.team1@[j] == s3.team1@[j]);
                assert(effect_frame(s4.team1@[j], self.team1@[j]) || self.team1@[j]
                    == s4.team1@[j]);
            }
            assert forall|j: int| 0 <= j < pre.team2@.len() implies card_frame(
                #[trigger] pre.team2@[j],
                self.team2@[j],
            ) by {
                assert(card_frame(pre.team2@[j], s3.team2@[j]));
                assert(effect_frame(s3.team2@[j], s4.team2@[j]) || s4.team2@[j] == s3.team2@[j]);
                assert(effect_frame(s4.team2@[j], self.team2@[j]) || self.team2@[j]
                    == s4.team2@[j]);
            }
        }
    }
}

} // verus!

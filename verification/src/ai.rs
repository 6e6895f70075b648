use vstd::prelude::*;

use crate::cards::Card;
use crate::character::Character;
use crate::dice::{int_max, DiceRoll};
use crate::engine::CombatEngine;
use crate::modifiers::mag_sum;
use crate::rng::rand_in_range;

verus! {

/// A snapshot of everything the card-weighting formula reads, captured once
/// per decision so that re-rolling accessors cannot skew a single decision.
#[derive(Clone, Copy)]
pub struct AiCtx {
    /// Living enemies one wound from elimination.
    pub near_death_enemies: i64,
    /// Number of living enemies.
    pub living_enemies: i64,
    /// Twice the summed effective defense of the living enemies.
    pub def_sum_x2: i64,
    /// Enemies (living or not) wounded at least once this combat.
    pub wounded_enemies: i64,
    /// The actor's effective strength, captured once.
    pub strength_eff: i64,
    /// The actor's effective magic, captured once.
    pub magic_eff: i64,
    /// Living allies (the actor included) with at least one wound.
    pub wounded_allies: i64,
    /// Living allies already committed to a Focus card this round.
    pub focus_allies: i64,
    /// Whether the actor has at least one wound.
    pub self_wounded: bool,
    /// Whether the actor is one wound from elimination.
    pub self_near_death: bool,
}

impl AiCtx {
    /// Bounds under which the weight arithmetic cannot overflow.
    pub open spec fn wf(self) -> bool {
        &&& 0 <= self.near_death_enemies <= 8
        &&& 0 <= self.living_enemies <= 8
        &&& -0x100_0000_0000 <= self.def_sum_x2 <= 0x100_0000_0000
        &&& 0 <= self.wounded_enemies <= 8
        &&& -0x1_0000_0000 <= self.strength_eff <= 0x1_0000_0000
        &&& -0x1_0000_0000 <= self.magic_eff <= 0x1_0000_0000
        &&& 0 <= self.wounded_allies <= 8
        &&& 0 <= self.focus_allies <= 8
    }
}

/// Twice the average of an optional attack dice expression.
pub open spec fn spec_dice_avg_x2(d: Option<DiceRoll>) -> int {
    match d {
        Some(dd) => dd.num_dice * (1 + dd.sides) + 2 * dd.modifier,
        None => 0,
    }
}

/// Whether the card's expected attack beats the enemies' mean defense:
/// `attack + avg(dice) > def_sum / n`, cleared of divisions.
pub open spec fn spec_beats_avg_defense(c: Card, ctx: AiCtx) -> bool {
    &&& ctx.living_enemies > 0
    &&& ({
        let att = if c.card_type.spec_is_physical() {
            ctx.strength_eff as int
        } else {
            ctx.magic_eff as int
        };
        let davg = if c.card_type.spec_is_physical() {
            spec_dice_avg_x2(c.physical_attack)
        } else {
            spec_dice_avg_x2(c.magic_attack)
        };
        (2 * att + davg) * ctx.living_enemies > ctx.def_sum_x2
    })
}

/// Twice the selection weight of one card given the snapshot: a base of ten,
/// raised by lethal-finish chances, expected-damage advantage, protection
/// needs, and effect-specific bonuses, plus one and a half times the card's
/// speed delta, floored at a weight of one.
pub open spec fn spec_card_weight_x2(c: Card, ctx: AiCtx) -> int {
    let branch: int = if c.card_type.spec_is_attack() {
        30 * ctx.near_death_enemies + if spec_beats_avg_defense(c, ctx) {
            20int
        } else {
            0int
        }
    } else if c.card_type.spec_is_defense() {
        (if ctx.self_wounded {
            20int
        } else {
            0int
        }) + 10 * ctx.wounded_allies + 40 * ctx.focus_allies
    } else if c.card_type.spec_is_focus() {
        match c.effect {
            crate::cards::SpecialEffect::StrengthBoost(_) => 16,
            crate::cards::SpecialEffect::MagicBoost(_) => 16,
            crate::cards::SpecialEffect::PoisonWeapon => 20,
            crate::cards::SpecialEffect::DodgeWithSpeedBoost => if ctx.self_near_death {
                30
            } else {
                6
            },
            crate::cards::SpecialEffect::TeamSpeedDefenseBoost => 14,
            crate::cards::SpecialEffect::BlindingSmoke => 12,
            crate::cards::SpecialEffect::CoordinatedAmbush => 10,
            crate::cards::SpecialEffect::Vengeance => 8,
            crate::cards::SpecialEffect::BloodThirst => 10 * ctx.wounded_enemies,
            _ => 6,
        }
    } else {
        0
    };
    int_max(2, 20 + branch + 3 * c.speed_mod)
}

/// The index a cumulative scan of the weights selects for a draw: the first
/// index whose running total exceeds the draw.
pub open spec fn spec_pick(ws: Seq<i64>, r: int) -> int
    decreases ws.len(),
{
    if ws.len() == 0 {
        0
    } else if r < ws[0] {
        0
    } else {
        1 + spec_pick(ws.drop_first(), r - ws[0])
    }
}

/// Twice one card's selection weight, computed from the snapshot.
pub fn card_weight_x2(c: &Card, ctx: AiCtx) -> (w: i64)
    requires
        c.wf(),
        ctx.wf(),
    ensures
        w == spec_card_weight_x2(*c, ctx),
        2 <= w <= 0x1_0000_0000_0000,
{
    let branch: i64 = if c.card_type.is_attack() {
        let att: i64 = if c.card_type.is_physical() {
            ctx.strength_eff
        } else {
            ctx.magic_eff
        };
        let dice: Option<DiceRoll> = if c.card_type.is_physical() {
            c.physical_attack
        } else {
            c.magic_attack
        };
        let davg: i64 = match dice {
            Some(dd) => {
                proof {
                    assert(0 <= dd.num_dice * (1 + dd.sides) <= 255 * 256) by (nonlinear_arith)
                        requires
                            0 <= dd.num_dice <= 255,
                            0 <= dd.sides <= 255,
                    ;
                }
                (dd.num_dice as i64) * (1 + dd.sides as i64) + 2 * (dd.modifier as i64)
            },
            None => 0,
        };
        let beats: bool = ctx.living_enemies > 0 && {
            proof {
                assert((2 * ctx.strength_eff + davg) * ctx.living_enemies
                    <= 0x400_0000_0000_0000 && (2 * ctx.strength_eff + davg) * ctx.living_enemies
                    >= -0x400_0000_0000_0000 && (2 * ctx.magic_eff + davg) * ctx.living_enemies
                    <= 0x400_0000_0000_0000 && (2 * ctx.magic_eff + davg) * ctx.living_enemies
                    >= -0x400_0000_0000_0000 && (2 * att + davg) * ctx.living_enemies
                    <= 0x400_0000_0000_0000 && (2 * att + davg) * ctx.living_enemies
                    >= -0x400_0000_0000_0000) by (nonlinear_arith)
                    requires
                        -0x1_0000_0000 <= ctx.strength_eff <= 0x1_0000_0000,
                        -0x1_0000_0000 <= ctx.magic_eff <= 0x1_0000_0000,
                        att == ctx.strength_eff || att == ctx.magic_eff,
                        -0x2_0000 <= davg <= 0x2_0000,
                        0 <= ctx.living_enemies <= 8,
                ;
            }
            (2 * att + davg) * ctx.living_enemies > ctx.def_sum_x2
        };
        30 * ctx.near_death_enemies + if beats {
            20
        } else {
            0
        }
    } else if c.card_type.is_defense() {
        (if ctx.self_wounded {
            20
        } else {
            0
        }) + 10 * ctx.wounded_allies + 40 * ctx.focus_allies
    } else if c.card_type.is_focus() {
        match c.effect {
            crate::cards::SpecialEffect::StrengthBoost(_) => 16,
            crate::cards::SpecialEffect::MagicBoost(_) => 16,
            crate::cards::SpecialEffect::PoisonWeapon => 20,
            crate::cards::SpecialEffect::DodgeWithSpeedBoost => if ctx.self_near_death {
                30
            } else {
                6
            },
            crate::cards::SpecialEffect::TeamSpeedDefenseBoost => 14,
            crate::cards::SpecialEffect::BlindingSmoke => 12,
            crate::cards::SpecialEffect::CoordinatedAmbush => 10,
            crate::cards::SpecialEffect::Vengeance => 8,
            crate::cards::SpecialEffect::BloodThirst => 10 * ctx.wounded_enemies,
            _ => 6,
        }
    } else {
        0
    };
    let raw: i64 = 20 + branch + 3 * (c.speed_mod as i64);
    if raw < 2 {
        2
    } else {
        raw
    }
}

/// Cumulative-weight selection: walk the weights, subtracting each from the
/// draw, and return the first index where the remainder goes negative; if
/// the draw outruns the totals, the last card is chosen.
pub fn pick_weighted(ws: &Vec<i64>, r: i64) -> (idx: usize)
    requires
        ws@.len() > 0,
        forall|i: int| 0 <= i < ws@.len() ==> 0 <= #[trigger] ws@[i] <= 0x1_0000_0000_0000,
        0 <= r,
    ensures
        idx < ws@.len(),
        spec_pick(ws@, r as int) < ws@.len() ==> idx == spec_pick(ws@, r as int),
        ws@.len() == 1 ==> idx == 0,
{
    let n = ws.len();
    let mut i: usize = 0;
    let mut rem: i64 = r;
    proof {
        assert(ws@.skip(0) =~= ws@);
    }
    while i < n
        invariant
            n == ws@.len() > 0,
            forall|j: int| 0 <= j < n ==> 0 <= #[trigger] ws@[j] <= 0x1_0000_0000_0000,
            0 <= i <= n,
            0 <= rem <= r,
            spec_pick(ws@, r as int) == i + spec_pick(ws@.skip(i as int), rem as int),
        decreases n - i,
    {
        proof {
            assert(ws@.skip(i as int).drop_first() =~= ws@.skip(i + 1));
            assert(ws@.skip(i as int)[0] == ws@[i as int]);
        }
        if rem < ws[i] {
            proof {
                assert(spec_pick(ws@.skip(i as int), rem as int) == 0);
            }
            return i;
        }
        rem = rem - ws[i];
        i = i + 1;
    }
    n - 1
}

impl CombatEngine {
    /// Every character's wound count and modifier load is inside the range
    /// the stat accessors accept.
    pub open spec fn stats_in_range(self) -> bool {
        &&& forall|i: int|
            0 <= i < self.team1@.len() ==> (#[trigger] self.team1@[i]).current_wounds < 0x1000_0000
                && mag_sum(self.team1@[i].modifiers@) <= 0x4000_0000
        &&& forall|i: int|
            0 <= i < self.team2@.len() ==> (#[trigger] self.team2@[i]).current_wounds < 0x1000_0000
                && mag_sum(self.team2@[i].modifiers@) <= 0x4000_0000
    }

    /// Weighted-random card selection for one character's turn: every card
    /// keeps a positive weight, so any card may be chosen; an empty hand
    /// yields the fixed sentinel index 0, and a one-card hand always yields
    /// index 0.
    pub fn select_card_ai(&self, character: &Character) -> (idx: usize)
        requires
            self.chars_ok(),
            self.stats_in_range(),
            character.stats_wf(),
            character.current_wounds < 0x1000_0000,
            character.team == 1 || character.team == 2,
        ensures
            character.cards@.len() == 0 ==> idx == 0,
            character.cards@.len() > 0 ==> idx < character.cards@.len(),
            character.cards@.len() == 1 ==> idx == 0,
    {
        if character.cards.len() == 0 {
            return 0;
        }
        let enemies = self.get_living_enemies(character.team);
        let allies = self.get_living_allies(character.team, None);
        let enemy_team: u8 = if character.team == 1 {
            2
        } else {
            1
        };
        let own_team: u8 = character.team;
        proof {
            assert(enemy_team == crate::engine::enemy_of(own_team));
        }

        let mut near_death: i64 = 0;
        let mut def_sum_x2: i64 = 0;
        let ne = enemies.len();
        let mut i: usize = 0;
        while i < ne
            invariant
                self.chars_ok(),
                self.stats_in_range(),
                enemy_team == crate::engine::enemy_of(own_team),
                own_team == 1 || own_team == 2,
                ne == enemies@.len() <= 8,
                forall|k: int|
                    0 <= k < enemies@.len() ==> (#[trigger] enemies@[k]) < self.roster(
                        enemy_team,
                    ).len(),
                0 <= i <= ne,
                0 <= near_death <= i,
                -(i as int) * 0x2_0000_0000 <= def_sum_x2 <= (i as int) * 0x2_0000_0000,
            decreases ne - i,
        {
            let e = self.char_at(enemy_team, enemies[i]);
            if e.current_wounds + 1 >= e.max_wounds {
                near_death = near_death + 1;
            }
            let d = e.get_effective_defense();
            def_sum_x2 = def_sum_x2 + 2 * (d as i64);
            i = i + 1;
        }

        let mut wounded_enemies: i64 = 0;
        let foe_len = if own_team == 1 {
            self.team2.len()
        } else {
            self.team1.len()
        };
        let mut j: usize = 0;
        while j < foe_len
            invariant
                self.chars_ok(),
                enemy_team == crate::engine::enemy_of(own_team),
                own_team == 1 || own_team == 2,
                foe_len == self.roster(enemy_team).len() <= 8,
                0 <= j <= foe_len,
                0 <= wounded_enemies <= j,
            decreases foe_len - j,
        {
            let e = self.char_at(enemy_team, j);
            if e.wounded_this_combat {
                wounded_enemies = wounded_enemies + 1;
            }
            j = j + 1;
        }

        let mut wounded_allies: i64 = 0;
        let mut focus_allies: i64 = 0;
        let na = allies.len();
        let mut k: usize = 0;
        while k < na
            invariant
                self.chars_ok(),
                own_team == 1 || own_team == 2,
                na == allies@.len() <= 8,
                forall|kk: int|
                    0 <= kk < allies@.len() ==> (#[trigger] allies@[kk]) < self.roster(
                        own_team,
                    ).len(),
                0 <= k <= na,
                0 <= wounded_allies <= k,
                0 <= focus_allies <= k,
            decreases na - k,
        {
            let a = self.char_at(own_team, allies[k]);
            if a.current_wounds > 0 {
                wounded_allies = wounded_allies + 1;
            }
            match a.played_card_idx {
                Some(ci) => {
                    if a.cards[ci].card_type.is_focus() {
                        focus_allies = focus_allies + 1;
                    }
                },
                None => {},
            }
            k = k + 1;
        }

        let strength_eff = character.get_effective_strength();
        let magic_eff = character.get_effective_magic();
        let ctx = AiCtx {
            near_death_enemies: near_death,
            living_enemies: ne as i64,
            def_sum_x2,
            wounded_enemies,
            strength_eff: strength_eff as i64,
            magic_eff: magic_eff as i64,
            wounded_allies,
            focus_allies,
            self_wounded: character.current_wounds > 0,
            self_near_death: character.current_wounds + 1 >= character.max_wounds,
        };

        let nc = character.cards.len();
        let mut weights: Vec<i64> = Vec::new();
        let mut total: i64 = 0;
        let mut c: usize = 0;
        while c < nc
            invariant
                nc == character.cards@.len() <= 1024,
                crate::character::cards_wf(character.cards@),
                ctx.wf(),
                0 <= c <= nc,
                weights@.len() == c,
                forall|w: int| 0 <= w < c ==> 2 <= #[trigger] weights@[w] <= 0x1_0000_0000_0000,
                2 * (c as int) <= total <= (c as int) * 0x1_0000_0000_0000,
            decreases nc - c,
        {
            let w = card_weight_x2(&character.cards[c], ctx);
            weights.push(w);
            total = total + w;
            c = c + 1;
        }

        let draw = rand_in_range(0, total - 1);
        pick_weighted(&weights, draw)
    }

    /// Targeting heuristic: prefer the most-wounded living enemy; with no
    /// wounded enemy, pick a living enemy of least (once-sampled) effective
    /// defense. Yields nothing exactly when no enemy lives.
    pub fn select_target(&self, attacker: &Character) -> (r: Option<(u8, usize)>)
        requires
            self.chars_ok(),
            self.stats_in_range(),
            attacker.team == 1 || attacker.team == 2,
        ensures
            ({
                let enemy_team = crate::engine::enemy_of(attacker.team);
                let foes = self.roster(enemy_team);
                match r {
                    Some(slot) => {
                        &&& slot.0 == enemy_team
                        &&& slot.1 < foes.len()
                        &&& foes[slot.1 as int].spec_alive()
                        &&& (exists|i: int|
                            0 <= i < foes.len() && (#[trigger] foes[i]).spec_alive()
                                && foes[i].current_wounds > 0) ==> {
                            &&& foes[slot.1 as int].current_wounds > 0
                            &&& forall|i: int|
                                0 <= i < foes.len() && (#[trigger] foes[i]).spec_alive()
                                    && foes[i].current_wounds > 0 ==> foes[i].current_wounds
                                    <= foes[slot.1 as int].current_wounds
                        }
                    },
                    None => forall|i: int|
                        0 <= i < foes.len() ==> !(#[trigger] foes[i]).spec_alive(),
                }
            }),
    {
        let enemies = self.get_living_enemies(attacker.team);
        if enemies.len() == 0 {
            proof {
                let foes = self.roster(crate::engine::enemy_of(attacker.team));
                assert forall|i: int| 0 <= i < foes.len() implies !(#[trigger] foes[i]).spec_alive() by {
                    if foes[i].spec_alive() {
                        let k = choose|k: int| 0 <= k < enemies@.len() && enemies@[k] == i;
                    }
                }
            }
            return None;
        }
        let enemy_team: u8 = if attacker.team == 1 {
            2
        } else {
            1
        };
        proof {
            assert(enemy_team == crate::engine::enemy_of(attacker.team));
        }
        let ne = enemies.len();

        let mut best_wounded: Option<usize> = None;
        let mut best_wounds: u32 = 0;
        let mut i: usize = 0;
        while i < ne
            invariant
                self.chars_ok(),
                self.stats_in_range(),
                enemy_team == crate::engine::enemy_of(attacker.team),
                attacker.team == 1 || attacker.team == 2,
                ne == enemies@.len(),
                forall|k: int|
                    0 <= k < enemies@.len() ==> (#[trigger] enemies@[k]) < self.roster(
                        enemy_team,
                    ).len() && self.roster(enemy_team)[enemies@[k] as int].spec_alive(),
                forall|j: int|
                    0 <= j < self.roster(enemy_team).len() && (#[trigger] self.roster(
                        enemy_team,
                    )[j]).spec_alive() ==> exists|k: int|
                        0 <= k < enemies@.len() && enemies@[k] == j,
                0 <= i <= ne,
                match best_wounded {
                    Some(b) => {
                        &&& b < self.roster(enemy_team).len()
                        &&& self.roster(enemy_team)[b as int].spec_alive()
                        &&& self.roster(enemy_team)[b as int].current_wounds == best_wounds
                        &&& best_wounds > 0
                        &&& forall|k: int|
                            0 <= k < i && self.roster(enemy_team)[enemies@[k] as int].current_wounds
                                > 0 ==> self.roster(
                                enemy_team,
                            )[(#[trigger] enemies@[k]) as int].current_wounds <= best_wounds
                    },
                    None => forall|k: int|
                        0 <= k < i ==> self.roster(enemy_team)[(#[trigger] enemies@[k]) as int].current_wounds
                            == 0,
                },
            decreases ne - i,
        {
            let e = self.char_at(enemy_team, enemies[i]);
            if e.current_wounds > 0 {
                let take: bool = match best_wounded {
                    Some(_) => e.current_wounds >= best_wounds,
                    None => true,
                };
                if take {
                    best_wounded = Some(enemies[i]);
                    best_wounds = e.current_wounds;
                }
            }
            i = i + 1;
        }

        match best_wounded {
            Some(b) => {
                proof {
                    let foes = self.roster(enemy_team);
                    assert forall|j: int|
                        0 <= j < foes.len() && (#[trigger] foes[j]).spec_alive()
                            && foes[j].current_wounds > 0 implies foes[j].current_wounds
                        <= best_wounds by {
                        let k = choose|k: int| 0 <= k < enemies@.len() && enemies@[k] == j;
                    }
                }
                Some((enemy_team, b))
            },
            None => {
                let mut best_idx: usize = enemies[0];
                let e0 = self.char_at(enemy_team, best_idx);
                let mut best_def: i32 = e0.get_effective_defense();
                let mut k: usize = 1;
                while k < ne
                    invariant
                        self.chars_ok(),
                        self.stats_in_range(),
                        enemy_team == crate::engine::enemy_of(attacker.team),
                        attacker.team == 1 || attacker.team == 2,
                        ne == enemies@.len(),
                        forall|kk: int|
                            0 <= kk < enemies@.len() ==> (#[trigger] enemies@[kk]) < self.roster(
                                enemy_team,
                            ).len() && self.roster(enemy_team)[enemies@[kk] as int].spec_alive(),
                        1 <= k <= ne,
                        best_idx < self.roster(enemy_team).len(),
                        self.roster(enemy_team)[best_idx as int].spec_alive(),
                    decreases ne - k,
                {
                    let e = self.char_at(enemy_team, enemies[k]);
                    let d = e.get_effective_defense();
                    if d < best_def {
                        best_def = d;
                        best_idx = enemies[k];
                    }
                    k = k + 1;
                }
                proof {
                    let foes = self.roster(enemy_team);
                    if exists|i2: int|
                        0 <= i2 < foes.len() && (#[trigger] foes[i2]).spec_alive()
                            && foes[i2].current_wounds > 0 {
                        let i2 = choose|i2: int|
                            0 <= i2 < foes.len() && (#[trigger] foes[i2]).spec_alive()
                                && foes[i2].current_wounds > 0;
                        let kk = choose|kk: int| 0 <= kk < enemies@.len() && enemies@[kk] == i2;
                    }
                }
                Some((enemy_team, best_idx))
            },
        }
    }
}

} // verus!

use vstd::prelude::*;

use crate::character::{grants_wf, Character};
use crate::modifiers::{mag_sum, mods_wf};
use crate::stats::CombatStats;

verus! {

/// The one configuration an engine refuses: a roster with no members.
#[derive(Debug, Clone, Copy, PartialEq, Eq, Structural)]
pub enum ConfigError {
    EmptyRoster,
}

/// Drives one combat between two rosters: the round state machine, the
/// engine-level relations (sacrifice and vengeance bindings, the coordinated
/// ambush target, the per-round wounded set), and the statistics.
///
/// Capacity limits: up to eight characters per side and a round cap of up to
/// one hundred. These keep every stat sum and wound counter within machine
/// range.
#[derive(Debug)]
pub struct CombatEngine {
    pub team1: Vec<Character>,
    pub team2: Vec<Character>,
    pub round_number: u32,
    pub max_rounds: u32,
    /// Reserved narration toggle; narration is an optional side channel and
    /// never influences resolution.
    pub verbose: bool,
    /// protected name -> avenger name
    pub vengeance_targets: Vec<(String, String)>,
    /// protected name -> protector name
    pub sacrifice_targets: Vec<(String, String)>,
    pub coordinated_ambush_target: Option<String>,
    /// Names wounded this round, for duplicate suppression in reporting only.
    pub wounded_this_round: Vec<String>,
    pub stats: CombatStats,
    /// (card name, card type label) in play order.
    pub team1_cards_played: Vec<(String, String)>,
    pub team2_cards_played: Vec<(String, String)>,
}

/// The value bound under a key in a name-keyed relation.
pub open spec fn rel_lookup(s: Seq<(String, String)>, k: Seq<char>) -> Option<Seq<char>>
    decreases s.len(),
{
    if s.len() == 0 {
        None
    } else {
        if s.last().0@ == k {
            Some(s.last().1@)
        } else {
            rel_lookup(s.drop_last(), k)
        }
    }
}

/// No two bindings share a protected name.
pub open spec fn rel_keys_distinct(s: Seq<(String, String)>) -> bool {
    forall|i: int, j: int| 0 <= i < j < s.len() ==> (#[trigger] s[i]).0@ != (#[trigger] s[j]).0@
}

/// The opposing side's team tag.
pub open spec fn enemy_of(team: u8) -> u8 {
    if team == 1 {
        2
    } else {
        1
    }
}

/// Number of living members of a roster.
pub open spec fn count_alive(s: Seq<Character>) -> int
    decreases s.len(),
{
    if s.len() == 0 {
        0
    } else {
        count_alive(s.drop_last()) + if s.last().spec_alive() {
            1int
        } else {
            0int
        }
    }
}

/// The lowest roster position holding a living member other than the
/// excluded one, or -1 when there is none.
pub open spec fn first_living_except(s: Seq<Character>, excl: int) -> int
    decreases s.len(),
{
    if s.len() == 0 {
        -1
    } else {
        let r = first_living_except(s.drop_last(), excl);
        if r >= 0 {
            r
        } else if s.last().spec_alive() && s.len() - 1 != excl {
            s.len() - 1
        } else {
            -1
        }
    }
}

/// `first_living_except` names the least qualifying position, or -1 when
/// none qualifies.
pub proof fn lemma_first_living_except(s: Seq<Character>, excl: int)
    ensures
        first_living_except(s, excl) == -1 ==> forall|j: int|
            0 <= j < s.len() ==> !((#[trigger] s[j]).spec_alive() && j != excl),
        first_living_except(s, excl) >= 0 ==> {
            let f = first_living_except(s, excl);
            &&& 0 <= f < s.len()
            &&& s[f].spec_alive()
            &&& f != excl
            &&& forall|j: int| 0 <= j < f ==> !((#[trigger] s[j]).spec_alive() && j != excl)
        },
    decreases s.len(),
{
    if s.len() > 0 {
        lemma_first_living_except(s.drop_last(), excl);
        assert(forall|j: int| 0 <= j < s.len() - 1 ==> s.drop_last()[j] == s[j]);
        assert(s.last() == s[s.len() - 1]);
    }
}

/// Two rosters whose members are alive in the same places have the same
/// living count.
pub proof fn lemma_count_alive_pointwise(s1: Seq<Character>, s2: Seq<Character>)
    requires
        s1.len() == s2.len(),
        forall|i: int| 0 <= i < s1.len() ==> (#[trigger] s1[i]).spec_alive() == s2[i].spec_alive(),
    ensures
        count_alive(s1) == count_alive(s2),
    decreases s1.len(),
{
    if s1.len() > 0 {
        assert(forall|i: int|
            0 <= i < s1.len() - 1 ==> (#[trigger] s1.drop_last()[i]) == s1[i] && s2.drop_last()[i]
                == s2[i]);
        lemma_count_alive_pointwise(s1.drop_last(), s2.drop_last());
        assert(s1.last() == s1[s1.len() - 1] && s2.last() == s2[s2.len() - 1]);
    }
}

/// The outcome code a pair of final living counts decides: 1 or 2 for the
/// stronger side, 0 for a draw.
pub open spec fn winner_code(a1: int, a2: int) -> u8 {
    if a1 > a2 {
        1
    } else if a2 > a1 {
        2
    } else {
        0
    }
}

/// Per-round budget on how much one character's wounds can grow.
pub open spec fn wound_budget(round: int) -> int {
    500 * round
}

/// Per-round budget on how large one character's modifier magnitudes can
/// grow.
pub open spec fn mag_budget(round: int) -> int {
    0x80_0000 * round
}

impl CombatEngine {
    /// The roster of the given side.
    pub open spec fn roster(self, team: u8) -> Seq<Character> {
        if team == 1 {
            self.team1@
        } else {
            self.team2@
        }
    }

    /// A valid team tag with a valid index into its roster.
    pub open spec fn valid_slot(self, team: u8, idx: usize) -> bool {
        (team == 1 || team == 2) && idx < self.roster(team).len()
    }

    /// Structural conditions on one rostered character that every engine
    /// operation preserves: bounded base shape, queryable combat state,
    /// grant donors that point back into the rosters, the right team tag,
    /// and a played-card index inside the hand.
    pub open spec fn char_ok(self, c: Character, team: u8) -> bool {
        &&& c.base_wf()
        &&& mods_wf(c.modifiers@)
        &&& grants_wf(c.defense_bonuses@)
        &&& forall|g: int|
            0 <= g < c.defense_bonuses@.len() ==> self.valid_slot(
                (#[trigger] c.defense_bonuses@[g]).team,
                c.defense_bonuses@[g].idx,
            )
        &&& c.team == team
        &&& match c.played_card_idx {
            Some(i) => i < c.cards@.len(),
            None => true,
        }
    }

    /// Structural conditions on the whole engine, without the per-round
    /// numeric budgets.
    pub open spec fn chars_ok(self) -> bool {
        &&& 1 <= self.team1@.len() <= 8
        &&& 1 <= self.team2@.len() <= 8
        &&& forall|i: int|
            0 <= i < self.team1@.len() ==> self.char_ok(#[trigger] self.team1@[i], 1)
        &&& forall|i: int|
            0 <= i < self.team2@.len() ==> self.char_ok(#[trigger] self.team2@[i], 2)
        &&& rel_keys_distinct(self.vengeance_targets@)
        &&& rel_keys_distinct(self.sacrifice_targets@)
        &&& self.stats.wf()
    }

    /// The numeric budgets that tie wound counts and modifier growth to the
    /// round counter.
    pub open spec fn budgets_ok(self) -> bool {
        &&& forall|i: int|
            0 <= i < self.team1@.len() ==> (#[trigger] self.team1@[i]).current_wounds
                <= wound_budget(self.round_number as int) && mag_sum(self.team1@[i].modifiers@)
                <= mag_budget(self.round_number as int)
        &&& forall|i: int|
            0 <= i < self.team2@.len() ==> (#[trigger] self.team2@[i]).current_wounds
                <= wound_budget(self.round_number as int) && mag_sum(self.team2@[i].modifiers@)
                <= mag_budget(self.round_number as int)
    }

    /// The engine invariant between rounds.
    pub open spec fn wf(self) -> bool {
        &&& self.chars_ok()
        &&& self.budgets_ok()
        &&& self.round_number <= self.max_rounds
        &&& self.max_rounds <= 100
    }

    /// Every engine field but the two rosters agrees between the two states.
    pub open spec fn eq_except_rosters(a: CombatEngine, b: CombatEngine) -> bool {
        &&& a.round_number == b.round_number
        &&& a.max_rounds == b.max_rounds
        &&& a.verbose == b.verbose
        &&& a.vengeance_targets == b.vengeance_targets
        &&& a.sacrifice_targets == b.sacrifice_targets
        &&& a.coordinated_ambush_target == b.coordinated_ambush_target
        &&& a.wounded_this_round == b.wounded_this_round
        &&& a.stats == b.stats
        &&& a.team1_cards_played == b.team1_cards_played
        &&& a.team2_cards_played == b.team2_cards_played
    }

    /// Whether one side has no living member left.
    pub open spec fn spec_combat_over(self) -> bool {
        count_alive(self.team1@) == 0 || count_alive(self.team2@) == 0
    }

    /// Build an engine over two rosters: assigns team tags 1 and 2 by
    /// position and fully resets every character's combat state. The only
    /// rejected configuration is an empty roster on either side.
    pub fn new(team1: Vec<Character>, team2: Vec<Character>, verbose: bool) -> (r: Result<
        CombatEngine,
        ConfigError,
    >)
        requires
            team1@.len() <= 8,
            team2@.len() <= 8,
            forall|i: int| 0 <= i < team1@.len() ==> (#[trigger] team1@[i]).base_wf(),
            forall|i: int| 0 <= i < team2@.len() ==> (#[trigger] team2@[i]).base_wf(),
        ensures
            (r matches Err(e) && e == ConfigError::EmptyRoster) <==> (team1@.len() == 0
                || team2@.len() == 0),
            r matches Ok(e) ==> {
                &&& e.wf()
                &&& e.round_number == 0
                &&& e.max_rounds == 20
                &&& e.verbose == verbose
                &&& e.team1@.len() == team1@.len()
                &&& e.team2@.len() == team2@.len()
                &&& forall|i: int|
                    0 <= i < team1@.len() ==> #[trigger] e.team1@[i] == reset_combatant(
                        team1@[i],
                        1,
                        e.team1@[i].modifiers,
                        e.team1@[i].defense_bonuses,
                    ) && e.team1@[i].modifiers@.len() == 0 && e.team1@[i].defense_bonuses@.len()
                        == 0
                &&& forall|i: int|
                    0 <= i < team2@.len() ==> #[trigger] e.team2@[i] == reset_combatant(
                        team2@[i],
                        2,
                        e.team2@[i].modifiers,
                        e.team2@[i].defense_bonuses,
                    ) && e.team2@[i].modifiers@.len() == 0 && e.team2@[i].defense_bonuses@.len()
                        == 0
                &&& e.vengeance_targets@.len() == 0
                &&& e.sacrifice_targets@.len() == 0
                &&& e.coordinated_ambush_target matches None
                &&& e.wounded_this_round@.len() == 0
                &&& e.stats.card_stats@.len() == 0
                &&& e.stats.card_type_stats@.len() == 0
                &&& e.team1_cards_played@.len() == 0
                &&& e.team2_cards_played@.len() == 0
            },
    {
        if team1.len() == 0 || team2.len() == 0 {
            return Err(ConfigError::EmptyRoster);
        }
        let mut engine = CombatEngine {
            team1,
            team2,
            round_number: 0,
            max_rounds: 20,
            verbose,
            vengeance_targets: Vec::new(),
            sacrifice_targets: Vec::new(),
            coordinated_ambush_target: None,
            wounded_this_round: Vec::new(),
            stats: CombatStats::new(),
            team1_cards_played: Vec::new(),
            team2_cards_played: Vec::new(),
        };
        let ghost orig1 = engine.team1@;
        let ghost orig2 = engine.team2@;
        let n1 = engine.team1.len();
        let mut i: usize = 0;
        while i < n1
            invariant
                n1 == engine.team1@.len() == orig1.len(),
                0 <= i <= n1,
                engine.team2@ == orig2,
                engine.round_number == 0,
                engine.max_rounds == 20,
                engine.verbose == verbose,
                engine.vengeance_targets@.len() == 0,
                engine.sacrifice_targets@.len() == 0,
                engine.coordinated_ambush_target matches None,
                engine.wounded_this_round@.len() == 0,
                engine.stats.card_stats@.len() == 0,
                engine.stats.card_type_stats@.len() == 0,
                engine.team1_cards_played@.len() == 0,
                engine.team2_cards_played@.len() == 0,
                forall|j: int| i <= j < n1 ==> #[trigger] engine.team1@[j] == orig1[j],
                forall|j: int|
                    0 <= j < i ==> #[trigger] engine.team1@[j] == reset_combatant(
                        orig1[j],
                        1,
                        engine.team1@[j].modifiers,
                        engine.team1@[j].defense_bonuses,
                    ) && engine.team1@[j].modifiers@.len() == 0
                        && engine.team1@[j].defense_bonuses@.len() == 0,
            decreases n1 - i,
        {
            let c = vec_index_mut(&mut engine.team1, i);
            c.team = 1;
            c.reset_for_new_combat();
            i = i + 1;
        }
        let n2 = engine.team2.len();
        let mut k: usize = 0;
        while k < n2
            invariant
                n2 == engine.team2@.len() == orig2.len(),
                0 <= k <= n2,
                engine.team1@.len() == orig1.len(),
                engine.round_number == 0,
                engine.max_rounds == 20,
                engine.verbose == verbose,
                engine.vengeance_targets@.len() == 0,
                engine.sacrifice_targets@.len() == 0,
                engine.coordinated_ambush_target matches None,
                engine.wounded_this_round@.len() == 0,
                engine.stats.card_stats@.len() == 0,
                engine.stats.card_type_stats@.len() == 0,
                engine.team1_cards_played@.len() == 0,
                engine.team2_cards_played@.len() == 0,
                forall|j: int|
                    0 <= j < orig1.len() ==> #[trigger] engine.team1@[j] == reset_combatant(
                        orig1[j],
                        1,
                        engine.team1@[j].modifiers,
                        engine.team1@[j].defense_bonuses,
                    ) && engine.team1@[j].modifiers@.len() == 0
                        && engine.team1@[j].defense_bonuses@.len() == 0,
                forall|j: int| k <= j < n2 ==> #[trigger] engine.team2@[j] == orig2[j],
                forall|j: int|
                    0 <= j < k ==> #[trigger] engine.team2@[j] == reset_combatant(
                        orig2[j],
                        2,
                        engine.team2@[j].modifiers,
                        engine.team2@[j].defense_bonuses,
                    ) && engine.team2@[j].modifiers@.len() == 0
                        && engine.team2@[j].defense_bonuses@.len() == 0,
            decreases n2 - k,
        {
            let c = vec_index_mut(&mut engine.team2, k);
            c.team = 2;
            c.reset_for_new_combat();
            k = k + 1;
        }
        Ok(engine)
    }

    /// Read one rostered character.
    pub fn char_at(&self, team: u8, idx: usize) -> (c: &Character)
        requires
            self.valid_slot(team, idx),
        ensures
            *c == self.roster(team)[idx as int],
    {
        if team == 1 {
            &self.team1[idx]
        } else {
            &self.team2[idx]
        }
    }

    /// Borrow one rostered character for mutation; everything else in the
    /// engine stays as it was.
    pub fn char_mut(&mut self, team: u8, idx: usize) -> (c: &mut Character)
        requires
            old(self).valid_slot(team, idx),
        ensures
            *c == old(self).roster(team)[idx as int],
            CombatEngine::eq_except_rosters(*final(self), *old(self)),
            team == 1 ==> final(self).team1@ == old(self).team1@.update(idx as int, *final(c))
                && final(self).team2 == old(self).team2,
            team == 2 ==> final(self).team2@ == old(self).team2@.update(idx as int, *final(c))
                && final(self).team1 == old(self).team1,
    {
        if team == 1 {
            vec_index_mut(&mut self.team1, idx)
        } else {
            vec_index_mut(&mut self.team2, idx)
        }
    }

    /// Whether the combat has reached a decisive end: one side empty of
    /// living members.
    pub fn is_combat_over(&self) -> (r: bool)
        ensures
            r == self.spec_combat_over(),
    {
        let a1 = count_living(&self.team1);
        let a2 = count_living(&self.team2);
        a1 == 0 || a2 == 0
    }

    /// If the character has committed to a Focus card this round, mark that
    /// Focus as interrupted.
    pub fn check_focus_interruption(&mut self, target_team: u8, target_idx: usize)
        requires
            old(self).valid_slot(target_team, target_idx),
            match old(self).roster(target_team)[target_idx as int].played_card_idx {
                Some(i) => i < old(self).roster(target_team)[target_idx as int].cards@.len(),
                None => true,
            },
        ensures
            CombatEngine::eq_except_rosters(*final(self), *old(self)),
            ({
                let c = old(self).roster(target_team)[target_idx as int];
                let interrupted = match c.played_card_idx {
                    Some(i) => c.cards@[i as int].card_type.spec_is_focus(),
                    None => false,
                };
                let c2 = if interrupted {
                    Character { focus_interrupted: true, ..c }
                } else {
                    c
                };
                if target_team == 1 {
                    &&& final(self).team1@ == old(self).team1@.update(target_idx as int, c2)
                    &&& final(self).team2 == old(self).team2
                } else {
                    &&& final(self).team2@ == old(self).team2@.update(target_idx as int, c2)
                    &&& final(self).team1 == old(self).team1
                }
            }),
    {
        let ghost pre = *self;
        let c = self.char_mut(target_team, target_idx);
        match c.played_card_idx {
            Some(card_idx) => {
                if c.cards[card_idx].card_type.is_focus() {
                    c.focus_interrupted = true;
                }
            },
            None => {},
        }
        proof {
            if target_team == 1 {
                assert(self.team1@ =~= pre.team1@.update(
                    target_idx as int,
                    self.team1@[target_idx as int],
                ));
            } else {
                assert(self.team2@ =~= pre.team2@.update(
                    target_idx as int,
                    self.team2@[target_idx as int],
                ));
            }
        }
    }

    /// Indices of the living members of the opposing roster, in roster
    /// order.
    pub fn get_living_enemies(&self, team: u8) -> (r: Vec<usize>)
        ensures
            ({
                let foes = self.roster(enemy_of(team));
                &&& r@.len() <= foes.len()
                &&& forall|k: int|
                    0 <= k < r@.len() ==> (#[trigger] r@[k]) < foes.len() && foes[r@[k] as int].spec_alive()
                &&& forall|k1: int, k2: int| 0 <= k1 < k2 < r@.len() ==> r@[k1] < r@[k2]
                &&& forall|i: int|
                    0 <= i < foes.len() && (#[trigger] foes[i]).spec_alive() ==> exists|k: int|
                        0 <= k < r@.len() && r@[k] == i
            }),
    {
        if team == 1 {
            living_indices(&self.team2)
        } else {
            living_indices(&self.team1)
        }
    }

    /// Indices of the living members of the character's own roster, in
    /// roster order, optionally leaving one index out.
    pub fn get_living_allies(&self, team: u8, exclude_idx: Option<usize>) -> (r: Vec<usize>)
        ensures
            ({
                let own = self.roster(team);
                let excl = match exclude_idx {
                    Some(e) => e as int,
                    None => -1,
                };
                &&& r@.len() <= own.len()
                &&& forall|k: int|
                    0 <= k < r@.len() ==> (#[trigger] r@[k]) < own.len() && own[r@[k] as int].spec_alive()
                        && r@[k] != excl
                &&& forall|k1: int, k2: int| 0 <= k1 < k2 < r@.len() ==> r@[k1] < r@[k2]
                &&& forall|i: int|
                    0 <= i < own.len() && (#[trigger] own[i]).spec_alive() && i != excl ==> exists|k: int|
                        0 <= k < r@.len() && r@[k] == i
            }),
    {
        let roster: &Vec<Character> = if team == 1 {
            &self.team1
        } else {
            &self.team2
        };
        let n = roster.len();
        let mut out: Vec<usize> = Vec::new();
        let mut i: usize = 0;
        while i < n
            invariant
                n == roster@.len(),
                roster@ == self.roster(team),
                0 <= i <= n,
                out@.len() <= i,
                forall|k: int|
                    0 <= k < out@.len() ==> (#[trigger] out@[k]) < i
                        && roster@[out@[k] as int].spec_alive() && (match exclude_idx {
                        Some(e) => out@[k] != e,
                        None => true,
                    }),
                forall|k1: int, k2: int| 0 <= k1 < k2 < out@.len() ==> out@[k1] < out@[k2],
                forall|j: int|
                    0 <= j < i && (#[trigger] roster@[j]).spec_alive() && (match exclude_idx {
                        Some(e) => j != e,
                        None => true,
                    }) ==> exists|k: int| 0 <= k < out@.len() && out@[k] == j,
            decreases n - i,
        {
            let excluded: bool = match exclude_idx {
                Some(e) => i == e,
                None => false,
            };
            let ghost out_pre = out@;
            if !excluded && roster[i].is_alive() {
                out.push(i);
            }
            proof {
                assert forall|j: int|
                    0 <= j <= i && (#[trigger] roster@[j]).spec_alive() && (match exclude_idx {
                        Some(e) => j != e,
                        None => true,
                    }) implies exists|k: int| 0 <= k < out@.len() && out@[k] == j by {
                    if j == i {
                        assert(out@[out@.len() - 1] == i);
                    } else {
                        let k = choose|k: int| 0 <= k < out_pre.len() && out_pre[k] == j;
                        assert(out@[k] == j);
                    }
                }
            }
            i = i + 1;
        }
        out
    }
}

/// The combat-reset image of a character joining a team, with the (empty)
/// modifier and grant vectors of the result plugged in.
pub open spec fn reset_combatant(
    c: Character,
    team: u8,
    mods: Vec<crate::modifiers::CombatModifier>,
    grants: Vec<crate::character::DefenseGrant>,
) -> Character {
    Character {
        team,
        current_wounds: 0,
        modifiers: mods,
        defense_bonuses: grants,
        skip_turns: 0,
        stunned: false,
        dodging: false,
        focus_interrupted: false,
        played_card_idx: None,
        wounded_this_combat: false,
        has_absorb_pain: false,
        has_poison_weapon: false,
        ..c
    }
}

/// In a distinct-keyed relation, an index whose key matches determines the
/// lookup result.
pub proof fn lemma_rel_lookup_at(s: Seq<(String, String)>, i: int, k: Seq<char>)
    requires
        rel_keys_distinct(s),
        0 <= i < s.len(),
        s[i].0@ == k,
    ensures
        rel_lookup(s, k) == Some(s[i].1@),
    decreases s.len(),
{
    if i < s.len() - 1 {
        assert(s.last().0@ != k);
        assert(rel_keys_distinct(s.drop_last()));
        lemma_rel_lookup_at(s.drop_last(), i, k);
    }
}

/// A protected name that no binding names looks up to nothing.
pub proof fn lemma_rel_lookup_none(s: Seq<(String, String)>, k: Seq<char>)
    requires
        forall|i: int| 0 <= i < s.len() ==> (#[trigger] s[i]).0@ != k,
    ensures
        rel_lookup(s, k) == None::<Seq<char>>,
    decreases s.len(),
{
    if s.len() > 0 {
        lemma_rel_lookup_none(s.drop_last(), k);
    }
}

/// Replacing one binding with another under the same protected name updates
/// exactly that name's lookup.
pub proof fn lemma_rel_lookup_update(s: Seq<(String, String)>, i: int, p: (String, String))
    requires
        rel_keys_distinct(s),
        0 <= i < s.len(),
        p.0@ == s[i].0@,
    ensures
        rel_keys_distinct(s.update(i, p)),
        rel_lookup(s.update(i, p), p.0@) == Some(p.1@),
        forall|k: Seq<char>| k != p.0@ ==> rel_lookup(s.update(i, p), k) == rel_lookup(s, k),
    decreases s.len(),
{
    let t = s.update(i, p);
    if i == s.len() - 1 {
        assert(t.drop_last() =~= s.drop_last());
        assert(t.last() == p);
        assert forall|k: Seq<char>| k != p.0@ implies rel_lookup(t, k) == rel_lookup(s, k) by {
            assert(rel_lookup(t, k) == rel_lookup(s.drop_last(), k));
            assert(s.last().0@ == p.0@);
            assert(rel_lookup(s, k) == rel_lookup(s.drop_last(), k));
        }
    } else {
        assert(rel_keys_distinct(s.drop_last()));
        lemma_rel_lookup_update(s.drop_last(), i, p);
        assert(t.drop_last() =~= s.drop_last().update(i, p));
        assert(t.last() == s.last());
        assert forall|k: Seq<char>| k != p.0@ implies rel_lookup(t, k) == rel_lookup(s, k) by {
            if s.last().0@ != k {
                assert(rel_lookup(t, k) == rel_lookup(s.drop_last().update(i, p), k));
                assert(rel_lookup(s, k) == rel_lookup(s.drop_last(), k));
            }
        }
    }
}

/// Read the binding under a protected name, if any.
pub fn rel_get(list: &Vec<(String, String)>, key: &String) -> (r: Option<String>)
    requires
        rel_keys_distinct(list@),
    ensures
        match r {
            Some(v) => rel_lookup(list@, key@) == Some(v@),
            None => rel_lookup(list@, key@) == None::<Seq<char>>,
        },
{
    let n = list.len();
    let mut i: usize = 0;
    while i < n
        invariant
            n == list@.len(),
            rel_keys_distinct(list@),
            0 <= i <= n,
            forall|j: int| 0 <= j < i ==> (#[trigger] list@[j]).0@ != key@,
        decreases n - i,
    {
        if list[i].0 == *key {
            proof {
                lemma_rel_lookup_at(list@, i as int, key@);
            }
            return Some(list[i].1.clone());
        }
        i = i + 1;
    }
    proof {
        lemma_rel_lookup_none(list@, key@);
    }
    None
}

/// Bind a value under a protected name, replacing any earlier binding for
/// that name; bindings for other names stay as they were.
pub fn rel_set(list: &mut Vec<(String, String)>, key: String, val: String)
    requires
        rel_keys_distinct(old(list)@),
    ensures
        rel_keys_distinct(final(list)@),
        rel_lookup(final(list)@, key@) == Some(val@),
        forall|k: Seq<char>| k != key@ ==> rel_lookup(final(list)@, k) == rel_lookup(old(list)@, k),
{
    let ghost s0 = old(list)@;
    let n = list.len();
    let mut i: usize = 0;
    while i < n
        invariant
            n == s0.len(),
            s0 == old(list)@,
            s0 == list@,
            rel_keys_distinct(s0),
            0 <= i <= n,
            forall|j: int| 0 <= j < i ==> (#[trigger] s0[j]).0@ != key@,
        decreases n - i,
    {
        if list[i].0 == key {
            let entry = list.remove(i);
            list.insert(i, (entry.0, val));
            proof {
                let p = (s0[i as int].0, list@[i as int].1);
                assert(list@ =~= s0.update(i as int, p));
                assert(p.1@ == val@);
                assert(p.0@ == key@);
                lemma_rel_lookup_update(s0, i as int, p);
                assert forall|k: Seq<char>| k != key@ implies rel_lookup(list@, k) == rel_lookup(
                    old(list)@,
                    k,
                ) by {
                    assert(rel_lookup(s0.update(i as int, p), k) == rel_lookup(s0, k));
                }
            }
            return ;
        }
        i = i + 1;
    }
    list.push((key, val));
    proof {
        assert(list@.drop_last() =~= s0);
        lemma_rel_lookup_none(s0, list@.last().0@);
        assert forall|ii: int, jj: int| 0 <= ii < jj < list@.len() implies (#[trigger] list@[ii]).0@
            != (#[trigger] list@[jj]).0@ by {
            if jj == list@.len() - 1 {
                assert(list@[ii] == s0[ii]);
            }
        }
    }
}

impl CombatEngine {
    /// Find a living character carrying the given name, searching the first
    /// roster before the second.
    pub fn find_alive_by_name(&self, name: &String) -> (r: Option<(u8, usize)>)
        ensures
            match r {
                Some(slot) => self.valid_slot(slot.0, slot.1) && self.roster(slot.0)[slot.1 as int].spec_alive()
                    && self.roster(slot.0)[slot.1 as int].name@ == name@,
                None => !exists_alive_named(*self, name@),
            },
    {
        let n1 = self.team1.len();
        let mut i: usize = 0;
        while i < n1
            invariant
                n1 == self.team1@.len(),
                0 <= i <= n1,
                forall|j: int|
                    0 <= j < i ==> !((#[trigger] self.team1@[j]).spec_alive() && self.team1@[j].name@
                        == name@),
            decreases n1 - i,
        {
            if self.team1[i].is_alive() && self.team1[i].name == *name {
                return Some((1, i));
            }
            i = i + 1;
        }
        let n2 = self.team2.len();
        let mut k: usize = 0;
        while k < n2
            invariant
                n2 == self.team2@.len(),
                0 <= k <= n2,
                forall|j: int|
                    0 <= j < k ==> !((#[trigger] self.team2@[j]).spec_alive() && self.team2@[j].name@
                        == name@),
            decreases n2 - k,
        {
            if self.team2[k].is_alive() && self.team2[k].name == *name {
                return Some((2, k));
            }
            k = k + 1;
        }
        None
    }
}

/// Whether either roster holds a living character with the given name.
pub open spec fn exists_alive_named(e: CombatEngine, name: Seq<char>) -> bool {
    (exists|j: int|
        0 <= j < e.team1@.len() && (#[trigger] e.team1@[j]).spec_alive() && e.team1@[j].name@
            == name) || (exists|j: int|
        0 <= j < e.team2@.len() && (#[trigger] e.team2@[j]).spec_alive() && e.team2@[j].name@
            == name)
}

/// Borrow one vector element for mutation.
pub fn vec_index_mut<T>(v: &mut Vec<T>, i: usize) -> (element: &mut T)
    requires
        i < old(v).len(),
    ensures
        *element == old(v)@[i as int],
        final(v)@ == old(v)@.update(i as int, *final(element)),
{
    &mut v[i]
}

/// Number of living members of a roster.
pub fn count_living(team: &Vec<Character>) -> (r: usize)
    ensures
        r == count_alive(team@),
        0 <= count_alive(team@) <= team@.len(),
{
    let n = team.len();
    let mut i: usize = 0;
    let mut count: usize = 0;
    while i < n
        invariant
            n == team@.len(),
            0 <= i <= n,
            count == count_alive(team@.take(i as int)),
            0 <= count <= i,
        decreases n - i,
    {
        proof {
            assert(team@.take(i + 1).drop_last() =~= team@.take(i as int));
            assert(team@.take(i + 1).last() == team@[i as int]);
        }
        if team[i].is_alive() {
            count = count + 1;
        }
        i = i + 1;
    }
    proof {
        assert(team@.take(n as int) =~= team@);
    }
    count
}

/// Indices of the living members of a roster, ascending.
pub fn living_indices(team: &Vec<Character>) -> (r: Vec<usize>)
    ensures
        r@.len() <= team@.len(),
        forall|k: int|
            0 <= k < r@.len() ==> (#[trigger] r@[k]) < team@.len() && team@[r@[k] as int].spec_alive(),
        forall|k1: int, k2: int| 0 <= k1 < k2 < r@.len() ==> r@[k1] < r@[k2],
        forall|i: int|
            0 <= i < team@.len() && (#[trigger] team@[i]).spec_alive() ==> exists|k: int|
                0 <= k < r@.len() && r@[k] == i,
{
    let n = team.len();
    let mut out: Vec<usize> = Vec::new();
    let mut i: usize = 0;
    while i < n
        invariant
            n == team@.len(),
            0 <= i <= n,
            out@.len() <= i,
            forall|k: int|
                0 <= k < out@.len() ==> (#[trigger] out@[k]) < i && team@[out@[k] as int].spec_alive(),
            forall|k1: int, k2: int| 0 <= k1 < k2 < out@.len() ==> out@[k1] < out@[k2],
            forall|j: int|
                0 <= j < i && (#[trigger] team@[j]).spec_alive() ==> exists|k: int|
                    0 <= k < out@.len() && out@[k] == j,
        decreases n - i,
    {
        let ghost out_pre = out@;
        if team[i].is_alive() {
            out.push(i);
        }
        proof {
            assert forall|j: int| 0 <= j <= i && (#[trigger] team@[j]).spec_alive() implies exists|
                k: int,
            | 0 <= k < out@.len() && out@[k] == j by {
                if j == i {
                    assert(out@[out@.len() - 1] == i);
                } else {
                    let k = choose|k: int| 0 <= k < out_pre.len() && out_pre[k] == j;
                    assert(out@[k] == j);
                }
            }
        }
        i = i + 1;
    }
    out
}

} // verus!

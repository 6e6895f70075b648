use vstd::prelude::*;

use crate::character::Character;
use crate::engine::{count_alive, count_living, winner_code, CombatEngine};
use crate::modifiers::mag_sum;
use crate::resolve::char_statics_eq;
use crate::stats::weight;

verus! {

/// One committed action: who acts, which card, and the effective speed
/// captured once at selection time.
#[derive(Debug, Clone, Copy, PartialEq, Eq, Structural)]
pub struct RoundAction {
    pub team: u8,
    pub idx: usize,
    pub card: usize,
    pub speed: i32,
}

/// The resolution total order: faster actions first; ties keep submission
/// order, which is ascending (team, roster position).
pub open spec fn act_le(a: RoundAction, b: RoundAction) -> bool {
    ||| a.speed > b.speed
    ||| (a.speed == b.speed && (a.team < b.team || (a.team == b.team && a.idx <= b.idx)))
}

/// Strictly earlier in the resolution order.
pub open spec fn strictly_before(a: RoundAction, b: RoundAction) -> bool {
    ||| a.speed > b.speed
    ||| (a.speed == b.speed && (a.team < b.team || (a.team == b.team && a.idx < b.idx)))
}

/// Every element of `a` occurs in `b`.
pub open spec fn all_in(a: Seq<RoundAction>, b: Seq<RoundAction>) -> bool {
    forall|k: int| 0 <= k < a.len() ==> b.contains(#[trigger] a[k])
}

/// Sort the submitted actions for resolution: a stable sort descending by
/// captured effective speed. Ties keep submission order because the
/// submitted list is ascending by (team, roster position), which is the
/// resolution order's own tiebreak.
pub fn order_actions(actions: &Vec<RoundAction>) -> (r: Vec<RoundAction>)
    ensures
        r@.len() == actions@.len(),
        all_in(r@, actions@),
        all_in(actions@, r@),
        forall|i: int, j: int| 0 <= i < j < r@.len() ==> act_le(r@[i], r@[j]),
{
    let mut out: Vec<RoundAction> = Vec::new();
    let n = actions.len();
    let mut i: usize = 0;
    while i < n
        invariant
            n == actions@.len(),
            0 <= i <= n,
            out@.len() == i,
            all_in(out@, actions@.take(i as int)),
            all_in(actions@.take(i as int), out@),
            forall|p: int, q: int| 0 <= p < q < out@.len() ==> act_le(out@[p], out@[q]),
        decreases n - i,
    {
        let a = actions[i];
        let m = out.len();
        let mut p: usize = 0;
        let mut found: bool = false;
        while p < m && !found
            invariant
                m == out@.len(),
                0 <= p <= m,
                forall|q: int| 0 <= q < p ==> act_le(#[trigger] out@[q], a),
                found ==> p < m && strictly_before(a, out@[p as int]),
            decreases m - p + if found {
                0int
            } else {
                1int
            },
        {
            let o = out[p];
            let a_before: bool = a.speed > o.speed || (a.speed == o.speed && (a.team < o.team || (
            a.team == o.team && a.idx < o.idx)));
            if a_before {
                found = true;
            } else {
                p = p + 1;
            }
        }
        let ghost out_pre = out@;
        out.insert(p, a);
        proof {
            assert(actions@.take(i + 1).drop_last() =~= actions@.take(i as int));
            assert(actions@.take(i + 1).last() == actions@[i as int]);
            assert forall|k: int| 0 <= k < out@.len() implies actions@.take(i + 1).contains(
                #[trigger] out@[k],
            ) by {
                if k < p {
                    assert(out@[k] == out_pre[k]);
                    assert(actions@.take(i as int).contains(out_pre[k]));
                    let w = choose|w: int|
                        0 <= w < actions@.take(i as int).len() && actions@.take(i as int)[w]
                            == out_pre[k];
                    assert(actions@.take(i + 1)[w] == out_pre[k]);
                } else if k == p {
                    assert(out@[k] == a);
                    assert(actions@.take(i + 1)[i as int] == a);
                } else {
                    assert(out@[k] == out_pre[k - 1]);
                    assert(actions@.take(i as int).contains(out_pre[k - 1]));
                    let w = choose|w: int|
                        0 <= w < actions@.take(i as int).len() && actions@.take(i as int)[w]
                            == out_pre[k - 1];
                    assert(actions@.take(i + 1)[w] == out_pre[k - 1]);
                }
            }
            assert forall|k: int| 0 <= k < actions@.take(i + 1).len() implies out@.contains(
                #[trigger] actions@.take(i + 1)[k],
            ) by {
                if k == i {
                    assert(out@[p as int] == a);
                } else {
                    assert(actions@.take(i + 1)[k] == actions@.take(i as int)[k]);
                    assert(out_pre.contains(actions@.take(i as int)[k]));
                    let w = choose|w: int|
                        0 <= w < out_pre.len() && out_pre[w] == actions@.take(i as int)[k];
                    if w < p {
                        assert(out@[w] == out_pre[w]);
                    } else {
                        assert(out@[w + 1] == out_pre[w]);
                    }
                }
            }
            assert forall|x: int, y: int| 0 <= x < y < out@.len() implies act_le(
                out@[x],
                out@[y],
            ) by {
                if y < p {
                    assert(out@[x] == out_pre[x] && out@[y] == out_pre[y]);
                } else if y == p {
                    assert(out@[y] == a);
                    assert(out@[x] == out_pre[x]);
                    assert(act_le(out_pre[x], a));
                } else {
                    assert(out@[y] == out_pre[y - 1]);
                    if x < p {
                        assert(out@[x] == out_pre[x]);
                        assert(act_le(out_pre[x], out_pre[y - 1]));
                    } else if x == p {
                        assert(out@[x] == a);
                        assert(found && (p as int) < out_pre.len());
                        assert(strictly_before(a, out_pre[p as int]));
                        assert(act_le(a, out_pre[p as int]));
                        assert(act_le(out_pre[p as int], out_pre[y - 1]) || p as int == y - 1);
                    } else {
                        assert(out@[x] == out_pre[x - 1]);
                        assert(act_le(out_pre[x - 1], out_pre[y - 1]));
                    }
                }
            }
        }
        i = i + 1;
    }
    proof {
        assert(actions@.take(n as int) =~= actions@);
    }
    out
}

/// Actions with pairwise distinct actors.
pub open spec fn distinct_actors(s: Seq<RoundAction>) -> bool {
    forall|i: int, j: int|
        0 <= i < j < s.len() ==> !((#[trigger] s[i]).team == (#[trigger] s[j]).team && s[i].idx
            == s[j].idx)
}

/// Resolution ordering is deterministic: two sorted arrangements of the
/// same submitted actions, with distinct actors, are one and the same, so a
/// faster actor's action always resolves before a slower one's, at every
/// position.
pub proof fn lemma_order_deterministic(a: Seq<RoundAction>, b: Seq<RoundAction>)
    requires
        a.len() == b.len(),
        all_in(a, b),
        all_in(b, a),
        distinct_actors(a),
        distinct_actors(b),
        forall|i: int, j: int| 0 <= i < j < a.len() ==> act_le(a[i], a[j]),
        forall|i: int, j: int| 0 <= i < j < b.len() ==> act_le(b[i], b[j]),
    ensures
        a =~= b,
    decreases a.len(),
{
    if a.len() > 0 {
        let x = a[0];
        let y = b[0];
        if x != y {
            assert(b.contains(x));
            assert(a.contains(y));
            let ix = choose|ix: int| 0 <= ix < b.len() && b[ix] == x;
            let iy = choose|iy: int| 0 <= iy < a.len() && a[iy] == y;
            assert(ix != 0 && iy != 0);
            assert(act_le(b[0], b[ix]));
            assert(act_le(a[0], a[iy]));
            assert(x.speed == y.speed && x.team == y.team && x.idx == y.idx);
            assert(false);
        }
        let a1 = a.drop_first();
        let b1 = b.drop_first();
        assert forall|k: int| 0 <= k < a1.len() implies b1.contains(#[trigger] a1[k]) by {
            assert(a1[k] == a[k + 1]);
            assert(b.contains(a[k + 1]));
            let w = choose|w: int| 0 <= w < b.len() && b[w] == a[k + 1];
            if w == 0 {
                assert(a[k + 1] == a[0]);
                assert(false);
            }
            assert(b1[w - 1] == a1[k]);
        }
        assert forall|k: int| 0 <= k < b1.len() implies a1.contains(#[trigger] b1[k]) by {
            assert(b1[k] == b[k + 1]);
            assert(a.contains(b[k + 1]));
            let w = choose|w: int| 0 <= w < a.len() && a[w] == b[k + 1];
            if w == 0 {
                assert(b[k + 1] == b[0]);
                assert(false);
            }
            assert(a1[w - 1] == b1[k]);
        }
        assert(distinct_actors(a1)) by {
            assert(forall|i: int, j: int|
                0 <= i < j < a1.len() ==> a1[i] == a[i + 1] && a1[j] == a[j + 1]);
        }
        assert(distinct_actors(b1)) by {
            assert(forall|i: int, j: int|
                0 <= i < j < b1.len() ==> b1[i] == b[i + 1] && b1[j] == b[j + 1]);
        }
        assert(forall|i: int, j: int| 0 <= i < j < a1.len() ==> act_le(a1[i], a1[j])) by {
            assert(forall|i: int, j: int|
                0 <= i < j < a1.len() ==> a1[i] == a[i + 1] && a1[j] == a[j + 1]);
        }
        assert(forall|i: int, j: int| 0 <= i < j < b1.len() ==> act_le(b1[i], b1[j])) by {
            assert(forall|i: int, j: int|
                0 <= i < j < b1.len() ==> b1[i] == b[i + 1] && b1[j] == b[j + 1]);
        }
        lemma_order_deterministic(a1, b1);
        assert forall|k: int| 0 <= k < a.len() implies a[k] == b[k] by {
            if k > 0 {
                assert(a1[k - 1] == b1[k - 1]);
            }
        }
    } else {
        assert(a =~= b);
    }
}


/// An action that points at a real character and a real card in its hand.
pub open spec fn valid_action(e: CombatEngine, a: RoundAction) -> bool {
    &&& (a.team == 1 || a.team == 2)
    &&& a.idx < e.roster(a.team).len()
    &&& a.card < e.roster(a.team)[a.idx as int].cards@.len()
}

/// How the selection phase may move a character: statics, wounds and
/// modifiers all stay; only the per-round flags and the played-card mark
/// move.
pub open spec fn select_frame(a: Character, b: Character) -> bool {
    &&& char_statics_eq(a, b)
    &&& b.current_wounds == a.current_wounds
    &&& b.modifiers == a.modifiers
}

impl CombatEngine {
    /// Card selection for one side: every living member first consumes a
    /// pending skip-turn if it has one; otherwise the policy picks a card,
    /// the choice is recorded, and the action is submitted with its
    /// effective speed captured once. A member with an empty hand passes.
    #[verifier::rlimit(100)]
    #[verifier::spinoff_prover]
    fn select_team_actions(&mut self, team: u8, actions: &mut Vec<RoundAction>)
        requires
            old(self).chars_ok(),
            old(self).budget_room(),
            team == 1 || team == 2,
            forall|k: int|
                0 <= k < old(actions)@.len() ==> valid_action(*old(self), #[trigger] old(
                    actions,
                )@[k]),
        ensures
            final(self).chars_ok(),
            final(self).budget_room(),
            CombatEngine::eq_bookkeeping(*final(self), *old(self)),
            final(self).vengeance_targets == old(self).vengeance_targets,
            final(self).sacrifice_targets == old(self).sacrifice_targets,
            final(self).coordinated_ambush_target == old(self).coordinated_ambush_target,
            final(self).wounded_this_round == old(self).wounded_this_round,
            forall|j: int|
                0 <= j < old(self).team1@.len() ==> select_frame(
                    #[trigger] old(self).team1@[j],
                    final(self).team1@[j],
                ),
            forall|j: int|
                0 <= j < old(self).team2@.len() ==> select_frame(
                    #[trigger] old(self).team2@[j],
                    final(self).team2@[j],
                ),
            forall|k: int|
                0 <= k < final(actions)@.len() ==> valid_action(
                    *final(self),
                    #[trigger] final(actions)@[k],
                ),
            final(actions)@.len() <= old(actions)@.len() + old(self).roster(team).len(),
            team == 1 ==> final(self).team2 == old(self).team2,
            team == 2 ==> final(self).team1 == old(self).team1,
            forall|k: int|
                old(actions)@.len() <= k < final(actions)@.len() ==> {
                    let na = #[trigger] final(actions)@[k];
                    &&& na.team == team
                    &&& na.idx < old(self).roster(team).len()
                    &&& old(self).roster(team)[na.idx as int].spec_alive()
                },
            final(actions)@.len() >= old(actions)@.len(),
            forall|k: int|
                0 <= k < old(actions)@.len() ==> #[trigger] final(actions)@[k] == old(actions)@[k],
    {
        let ghost pre = *old(self);
        let n = if team == 1 {
            self.team1.len()
        } else {
            self.team2.len()
        };
        let ghost a0 = actions@;
        let mut k: usize = 0;
        while k < n
            invariant
                self.chars_ok(),
                self.budget_room(),
                CombatEngine::eq_bookkeeping(*self, pre),
                self.vengeance_targets == pre.vengeance_targets,
                self.sacrifice_targets == pre.sacrifice_targets,
                self.coordinated_ambush_target == pre.coordinated_ambush_target,
                self.wounded_this_round == pre.wounded_this_round,
                team == 1 || team == 2,
                team == 1 ==> self.team2 == pre.team2,
                team == 2 ==> self.team1 == pre.team1,
                n == pre.roster(team).len(),
                0 <= k <= n,
                forall|j: int|
                    0 <= j < pre.team1@.len() ==> select_frame(
                        #[trigger] pre.team1@[j],
                        self.team1@[j],
                    ),
                forall|j: int|
                    0 <= j < pre.team2@.len() ==> select_frame(
                        #[trigger] pre.team2@[j],
                        self.team2@[j],
                    ),
                forall|w: int|
                    0 <= w < a0.len() ==> valid_action(pre, #[trigger] a0[w]),
                forall|w: int|
                    0 <= w < actions@.len() ==> valid_action(*self, #[trigger] actions@[w]),
                actions@.len() <= a0.len() + k,
                actions@.len() >= a0.len(),
                forall|w: int| 0 <= w < a0.len() ==> #[trigger] actions@[w] == a0[w],
                forall|w: int|
                    a0.len() <= w < actions@.len() ==> (#[trigger] actions@[w]).team == team
                        && actions@[w].idx < pre.roster(team).len() && pre.roster(
                        team,
                    )[actions@[w].idx as int].spec_alive(),
            decreases n - k,
        {
            let ghost sp = *self;
            let ghost ap = actions@;
            let alive = self.char_at(team, k).is_alive();
            if alive {
                let skipped = {
                    let c = self.char_mut(team, k);
                    c.reset_for_new_round()
                };
                if !skipped {
                    proof {
                        crate::resolve::lemma_budget_room_in_range(*self);
                    }
                    let hand_size = self.char_at(team, k).cards.len();
                    if hand_size > 0 {
                        let card_idx = self.select_card_ai(self.char_at(team, k));
                        {
                            let c = self.char_mut(team, k);
                            c.played_card_idx = Some(card_idx);
                        }
                        let speed = {
                            let ch = self.char_at(team, k);
                            ch.get_effective_speed(Some(&ch.cards[card_idx]))
                        };
                        actions.push(RoundAction { team, idx: k, card: card_idx, speed });
                        proof {
                            assert(valid_action(*self, actions@.last()));
                            assert(select_frame(
                                pre.roster(team)[k as int],
                                sp.roster(team)[k as int],
                            ) || sp.roster(team)[k as int] == pre.roster(team)[k as int]);
                            assert(pre.roster(team)[k as int].spec_alive());
                        }
                    }
                }
            }
            proof {
                assert forall|w: int| 0 <= w < actions@.len() implies valid_action(
                    *self,
                    #[trigger] actions@[w],
                ) by {
                    let aw = actions@[w];
                    if w < ap.len() {
                        assert(aw == ap[w]);
                        assert(valid_action(sp, aw));
                        if aw.team == 1 {
                            assert(select_frame(pre.team1@[aw.idx as int], sp.team1@[aw.idx as int]));
                            assert(select_frame(
                                pre.team1@[aw.idx as int],
                                self.team1@[aw.idx as int],
                            ));
                        } else {
                            assert(select_frame(pre.team2@[aw.idx as int], sp.team2@[aw.idx as int]));
                            assert(select_frame(
                                pre.team2@[aw.idx as int],
                                self.team2@[aw.idx as int],
                            ));
                        }
                    } else {
                        assert(w == actions@.len() - 1);
                    }
                }
            }
            k = k + 1;
        }
    }
}


impl CombatEngine {
    /// Run one round: clear the per-round engine state, let every living
    /// character select (or skip), resolve the selected actions in speed
    /// order, and advance modifier durations and clear stuns at the round
    /// boundary. Returns false when the round ended the combat or nobody
    /// acted; cleanup runs only after a fully played round.
    #[verifier::rlimit(100)]
    #[verifier::spinoff_prover]
    pub fn run_round(&mut self) -> (r: bool)
        requires
            old(self).wf(),
            old(self).round_number < old(self).max_rounds,
            weight(old(self).stats.card_stats@) < 0x0400_0000_0000_0000,
            weight(old(self).stats.card_type_stats@) < 0x0400_0000_0000_0000,
        ensures
            final(self).wf(),
            final(self).round_number == old(self).round_number + 1,
            final(self).max_rounds == old(self).max_rounds,
            final(self).verbose == old(self).verbose,
            final(self).team1@.len() == old(self).team1@.len(),
            final(self).team2@.len() == old(self).team2@.len(),
            forall|j: int|
                0 <= j < old(self).team1@.len() ==> char_statics_eq(
                    #[trigger] old(self).team1@[j],
                    final(self).team1@[j],
                ) && old(self).team1@[j].current_wounds <= final(self).team1@[j].current_wounds,
            forall|j: int|
                0 <= j < old(self).team2@.len() ==> char_statics_eq(
                    #[trigger] old(self).team2@[j],
                    final(self).team2@[j],
                ) && old(self).team2@[j].current_wounds <= final(self).team2@[j].current_wounds,
            weight(final(self).stats.card_stats@) <= weight(old(self).stats.card_stats@) + 2 * (
            old(self).team1@.len() + old(self).team2@.len()),
            weight(final(self).stats.card_type_stats@) <= weight(old(self).stats.card_type_stats@)
                + 2 * (old(self).team1@.len() + old(self).team2@.len()),
            final(self).team1_cards_played@.len() + final(self).team2_cards_played@.len() <= old(
                self,
            ).team1_cards_played@.len() + old(self).team2_cards_played@.len() + old(
                self,
            ).team1@.len() + old(self).team2@.len(),
            r ==> forall|j: int|
                0 <= j < final(self).team1@.len() ==> !(#[trigger] final(self).team1@[j]).stunned,
            r ==> forall|j: int|
                0 <= j < final(self).team2@.len() ==> !(#[trigger] final(self).team2@[j]).stunned,
            // A fully played round leaves neither side eliminated (an
            // elimination aborts the round, which then reports false), and
            // every modifier has advanced one boundary: nothing scoped to
            // the played turn survives.
            r ==> !final(self).spec_combat_over(),
            r ==> forall|j: int, mi: int|
                0 <= j < final(self).team1@.len() && 0 <= mi
                    < final(self).team1@[j].modifiers@.len() ==> {
                    let d = (#[trigger] final(self).team1@[j].modifiers@[mi]).duration;
                    d == crate::modifiers::ModifierDuration::NextTurn || d
                        == crate::modifiers::ModifierDuration::RestOfCombat
                },
            r ==> forall|j: int, mi: int|
                0 <= j < final(self).team2@.len() && 0 <= mi
                    < final(self).team2@[j].modifiers@.len() ==> {
                    let d = (#[trigger] final(self).team2@[j].modifiers@[mi]).duration;
                    d == crate::modifiers::ModifierDuration::NextTurn || d
                        == crate::modifiers::ModifierDuration::RestOfCombat
                },
    {
        let ghost pre = *old(self);
        self.round_number = self.round_number + 1;
        self.coordinated_ambush_target = None;
        self.wounded_this_round.clear();
        let ghost rn = self.round_number;

        // Selection: living members consume a pending skip or commit a card.
        proof {
            assert forall|j: int| 0 <= j < self.team1@.len() implies (
            #[trigger] self.team1@[j]).current_wounds <= 0x10_0000 && mag_sum(
                self.team1@[j].modifiers@,
            ) <= 0x3800_0000 by {
                assert(self.team1@[j].current_wounds <= crate::engine::wound_budget(
                    pre.round_number as int,
                ));
                assert(mag_sum(self.team1@[j].modifiers@) <= crate::engine::mag_budget(
                    pre.round_number as int,
                ));
            }
            assert forall|j: int| 0 <= j < self.team2@.len() implies (
            #[trigger] self.team2@[j]).current_wounds <= 0x10_0000 && mag_sum(
                self.team2@[j].modifiers@,
            ) <= 0x3800_0000 by {
                assert(self.team2@[j].current_wounds <= crate::engine::wound_budget(
                    pre.round_number as int,
                ));
                assert(mag_sum(self.team2@[j].modifiers@) <= crate::engine::mag_budget(
                    pre.round_number as int,
                ));
            }
        }
        let mut actions: Vec<RoundAction> = Vec::new();
        let ghost s_a = *self;
        self.select_team_actions(1, &mut actions);
        let ghost s_b = *self;
        let ghost n_act1 = actions@.len();
        self.select_team_actions(2, &mut actions);
        let ghost s_sel = *self;
        proof {
            assert forall|j: int| 0 <= j < pre.team1@.len() implies select_frame(
                #[trigger] pre.team1@[j],
                s_sel.team1@[j],
            ) by {
                assert(select_frame(s_a.team1@[j], s_b.team1@[j]));
                assert(select_frame(s_b.team1@[j], s_sel.team1@[j]));
                assert(s_a.team1@[j] == pre.team1@[j]);
            }
            assert forall|j: int| 0 <= j < pre.team2@.len() implies select_frame(
                #[trigger] pre.team2@[j],
                s_sel.team2@[j],
            ) by {
                assert(select_frame(s_a.team2@[j], s_b.team2@[j]));
                assert(select_frame(s_b.team2@[j], s_sel.team2@[j]));
                assert(s_a.team2@[j] == pre.team2@[j]);
            }
            assert forall|j: int| 0 <= j < s_sel.team1@.len() implies (
            #[trigger] s_sel.team1@[j]).current_wounds <= crate::engine::wound_budget(rn as int - 1)
                && mag_sum(s_sel.team1@[j].modifiers@) <= crate::engine::mag_budget(
                rn as int - 1,
            ) by {
                assert(select_frame(pre.team1@[j], s_sel.team1@[j]));
                assert(pre.team1@[j].current_wounds <= crate::engine::wound_budget(
                    pre.round_number as int,
                ));
                assert(mag_sum(pre.team1@[j].modifiers@) <= crate::engine::mag_budget(
                    pre.round_number as int,
                ));
            }
            assert forall|j: int| 0 <= j < s_sel.team2@.len() implies (
            #[trigger] s_sel.team2@[j]).current_wounds <= crate::engine::wound_budget(rn as int - 1)
                && mag_sum(s_sel.team2@[j].modifiers@) <= crate::engine::mag_budget(
                rn as int - 1,
            ) by {
                assert(select_frame(pre.team2@[j], s_sel.team2@[j]));
                assert(pre.team2@[j].current_wounds <= crate::engine::wound_budget(
                    pre.round_number as int,
                ));
                assert(mag_sum(pre.team2@[j].modifiers@) <= crate::engine::mag_budget(
                    pre.round_number as int,
                ));
            }
        }

        proof {
            assert forall|w: int| 0 <= w < actions@.len() implies {
                let aw = #[trigger] actions@[w];
                &&& (aw.team == 1 || aw.team == 2)
                &&& aw.idx < s_sel.roster(aw.team).len()
                &&& s_sel.roster(aw.team)[aw.idx as int].spec_alive()
            } by {
                let aw = actions@[w];
                if w < n_act1 {
                    assert(aw.team == 1 && s_a.team1@[aw.idx as int].spec_alive());
                    assert(s_a.team1@[aw.idx as int] == pre.team1@[aw.idx as int]);
                    assert(select_frame(pre.team1@[aw.idx as int], s_sel.team1@[aw.idx as int]));
                } else {
                    assert(aw.team == 2 && s_b.team2@[aw.idx as int].spec_alive());
                    assert(s_b.team2@[aw.idx as int] == s_a.team2@[aw.idx as int]);
                    assert(s_a.team2@[aw.idx as int] == pre.team2@[aw.idx as int]);
                    assert(select_frame(pre.team2@[aw.idx as int], s_sel.team2@[aw.idx as int]));
                }
            }
        }
        if actions.len() == 0 {
            proof {
                restore_budgets(pre, *self, rn as int);
                assert forall|j: int| 0 <= j < pre.team1@.len() implies char_statics_eq(
                    #[trigger] pre.team1@[j],
                    self.team1@[j],
                ) && pre.team1@[j].current_wounds <= self.team1@[j].current_wounds by {
                    assert(select_frame(pre.team1@[j], s_sel.team1@[j]));
                }
                assert forall|j: int| 0 <= j < pre.team2@.len() implies char_statics_eq(
                    #[trigger] pre.team2@[j],
                    self.team2@[j],
                ) && pre.team2@[j].current_wounds <= self.team2@[j].current_wounds by {
                    assert(select_frame(pre.team2@[j], s_sel.team2@[j]));
                }
            }
            return false;
        }

        // Ordering: stable sort descending on the captured effective speeds.
        let sorted = order_actions(&actions);
        proof {
            assert forall|w: int| 0 <= w < sorted@.len() implies s_sel.roster(
                (#[trigger] sorted@[w]).team,
            )[sorted@[w].idx as int].spec_alive() by {
                assert(actions@.contains(sorted@[w]));
                let w2 = choose|w2: int| 0 <= w2 < actions@.len() && actions@[w2] == sorted@[w];
            }
        }

        // Resolution: strictly in order, liveness re-checked per action, the
        // whole round aborted once a side is eliminated.
        let total = sorted.len();
        let mut i: usize = 0;
        while i < total
            invariant
                self.chars_ok(),
                CombatEngine::eq_bookkeeping_rounds(*self, s_sel),
                total == sorted@.len(),
                total <= pre.team1@.len() + pre.team2@.len(),
                rn == self.round_number,
                forall|w: int| 0 <= w < sorted@.len() ==> valid_action(s_sel, #[trigger] sorted@[w]),
                forall|w: int|
                    0 <= w < sorted@.len() ==> s_sel.roster((#[trigger] sorted@[w]).team)[sorted@[w].idx as int].spec_alive(),
                i > 0 ==> !self.spec_combat_over(),
                total >= 1,
                0 <= i <= total,
                forall|j: int|
                    0 <= j < s_sel.team1@.len() ==> char_statics_eq(
                        #[trigger] s_sel.team1@[j],
                        self.team1@[j],
                    ) && s_sel.team1@[j].current_wounds <= self.team1@[j].current_wounds
                        <= s_sel.team1@[j].current_wounds + 30 * i && mag_sum(
                        self.team1@[j].modifiers@,
                    ) <= mag_sum(s_sel.team1@[j].modifiers@) + 0x8_0000 * i,
                forall|j: int|
                    0 <= j < s_sel.team2@.len() ==> char_statics_eq(
                        #[trigger] s_sel.team2@[j],
                        self.team2@[j],
                    ) && s_sel.team2@[j].current_wounds <= self.team2@[j].current_wounds
                        <= s_sel.team2@[j].current_wounds + 30 * i && mag_sum(
                        self.team2@[j].modifiers@,
                    ) <= mag_sum(s_sel.team2@[j].modifiers@) + 0x8_0000 * i,
                forall|j: int|
                    0 <= j < s_sel.team1@.len() ==> (#[trigger] s_sel.team1@[j]).current_wounds
                        <= crate::engine::wound_budget(rn as int - 1) && mag_sum(
                        s_sel.team1@[j].modifiers@,
                    ) <= crate::engine::mag_budget(rn as int - 1),
                forall|j: int|
                    0 <= j < s_sel.team2@.len() ==> (#[trigger] s_sel.team2@[j]).current_wounds
                        <= crate::engine::wound_budget(rn as int - 1) && mag_sum(
                        s_sel.team2@[j].modifiers@,
                    ) <= crate::engine::mag_budget(rn as int - 1),
                rn <= 100,
                rn >= 1,
                pre == *old(self),
                pre.budgets_ok(),
                pre.round_number == rn - 1,
                s_sel.stats == pre.stats,
                s_sel.team1_cards_played == pre.team1_cards_played,
                s_sel.team2_cards_played == pre.team2_cards_played,
                pre.team1@.len() <= 8 && pre.team2@.len() <= 8,
                s_sel.team1@.len() == pre.team1@.len() && s_sel.team2@.len() == pre.team2@.len(),
                self.max_rounds == pre.max_rounds,
                self.max_rounds <= 100,
                rn <= pre.max_rounds,
                self.verbose == pre.verbose,
                forall|j: int|
                    0 <= j < pre.team1@.len() ==> select_frame(
                        #[trigger] pre.team1@[j],
                        s_sel.team1@[j],
                    ),
                forall|j: int|
                    0 <= j < pre.team2@.len() ==> select_frame(
                        #[trigger] pre.team2@[j],
                        s_sel.team2@[j],
                    ),
                weight(self.stats.card_stats@) <= weight(s_sel.stats.card_stats@) + 2 * i,
                weight(self.stats.card_type_stats@) <= weight(s_sel.stats.card_type_stats@) + 2
                    * i,
                weight(s_sel.stats.card_stats@) < 0x0400_0000_0000_0000,
                weight(s_sel.stats.card_type_stats@) < 0x0400_0000_0000_0000,
                self.team1_cards_played@.len() + self.team2_cards_played@.len()
                    <= s_sel.team1_cards_played@.len() + s_sel.team2_cards_played@.len() + i,
            decreases total - i,
        {
            let ghost sp = *self;
            let act = sorted[i];
            proof {
                assert(valid_action(s_sel, act));
            }
            let actor_alive = self.char_at(act.team, act.idx).is_alive();
            proof {
                if i == 0 {
                    if act.team == 1 {
                        assert(self.team1@[act.idx as int].current_wounds
                            == s_sel.team1@[act.idx as int].current_wounds
                            && char_statics_eq(
                            s_sel.team1@[act.idx as int],
                            self.team1@[act.idx as int],
                        ));
                    } else {
                        assert(self.team2@[act.idx as int].current_wounds
                            == s_sel.team2@[act.idx as int].current_wounds
                            && char_statics_eq(
                            s_sel.team2@[act.idx as int],
                            self.team2@[act.idx as int],
                        ));
                    }
                    assert(actor_alive);
                }
            }
            if actor_alive {
                let card = self.char_at(act.team, act.idx).cards[act.card].clone();
                proof {
                    assert forall|j: int| 0 <= j < self.team1@.len() implies (
                    #[trigger] self.team1@[j]).current_wounds <= 0x10_0000 && mag_sum(
                        self.team1@[j].modifiers@,
                    ) <= 0x3800_0000 by {
                        assert(s_sel.team1@[j].current_wounds <= crate::engine::wound_budget(
                            rn as int - 1,
                        ));
                        assert(mag_sum(s_sel.team1@[j].modifiers@) <= crate::engine::mag_budget(
                            rn as int - 1,
                        ));
                    }
                    assert forall|j: int| 0 <= j < self.team2@.len() implies (
                    #[trigger] self.team2@[j]).current_wounds <= 0x10_0000 && mag_sum(
                        self.team2@[j].modifiers@,
                    ) <= 0x3800_0000 by {
                        assert(s_sel.team2@[j].current_wounds <= crate::engine::wound_budget(
                            rn as int - 1,
                        ));
                        assert(mag_sum(s_sel.team2@[j].modifiers@) <= crate::engine::mag_budget(
                            rn as int - 1,
                        ));
                    }
                    assert(card.wf());
                }
                self.resolve_card(act.team, act.idx, card);
                proof {
                    assert forall|j: int| 0 <= j < s_sel.team1@.len() implies char_statics_eq(
                        #[trigger] s_sel.team1@[j],
                        self.team1@[j],
                    ) && s_sel.team1@[j].current_wounds <= self.team1@[j].current_wounds
                        <= s_sel.team1@[j].current_wounds + 30 * (i + 1) && mag_sum(
                        self.team1@[j].modifiers@,
                    ) <= mag_sum(s_sel.team1@[j].modifiers@) + 0x8_0000 * (i + 1) by {
                        assert(crate::resolve::card_frame(sp.team1@[j], self.team1@[j]));
                    }
                    assert forall|j: int| 0 <= j < s_sel.team2@.len() implies char_statics_eq(
                        #[trigger] s_sel.team2@[j],
                        self.team2@[j],
                    ) && s_sel.team2@[j].current_wounds <= self.team2@[j].current_wounds
                        <= s_sel.team2@[j].current_wounds + 30 * (i + 1) && mag_sum(
                        self.team2@[j].modifiers@,
                    ) <= mag_sum(s_sel.team2@[j].modifiers@) + 0x8_0000 * (i + 1) by {
                        assert(crate::resolve::card_frame(sp.team2@[j], self.team2@[j]));
                    }
                }
                if self.is_combat_over() {
                    proof {
                        restore_budgets_mid(pre, s_sel, *self, rn as int, i as int + 1, total as int);
                        assert forall|j: int| 0 <= j < pre.team1@.len() implies char_statics_eq(
                            #[trigger] pre.team1@[j],
                            self.team1@[j],
                        ) && pre.team1@[j].current_wounds <= self.team1@[j].current_wounds by {
                            assert(select_frame(pre.team1@[j], s_sel.team1@[j]));
                            assert(char_statics_eq(s_sel.team1@[j], self.team1@[j]));
                        }
                        assert forall|j: int| 0 <= j < pre.team2@.len() implies char_statics_eq(
                            #[trigger] pre.team2@[j],
                            self.team2@[j],
                        ) && pre.team2@[j].current_wounds <= self.team2@[j].current_wounds by {
                            assert(select_frame(pre.team2@[j], s_sel.team2@[j]));
                            assert(char_statics_eq(s_sel.team2@[j], self.team2@[j]));
                        }
                    }
                    return false;
                }
            }
            i = i + 1;
        }

        // End-of-round cleanup: durations advance, stuns wear off.
        let ghost s_res = *self;
        self.cleanup_round();
        proof {
            restore_budgets_mid(pre, s_sel, s_res, rn as int, total as int, total as int);
            assert forall|j: int| 0 <= j < s_res.team1@.len() implies (
            #[trigger] s_res.team1@[j]).spec_alive() == self.team1@[j].spec_alive() by {
                assert(cleanup_frame(s_res.team1@[j], self.team1@[j]));
            }
            assert forall|j: int| 0 <= j < s_res.team2@.len() implies (
            #[trigger] s_res.team2@[j]).spec_alive() == self.team2@[j].spec_alive() by {
                assert(cleanup_frame(s_res.team2@[j], self.team2@[j]));
            }
            crate::engine::lemma_count_alive_pointwise(s_res.team1@, self.team1@);
            crate::engine::lemma_count_alive_pointwise(s_res.team2@, self.team2@);
            assert(!s_res.spec_combat_over());
            assert(!self.spec_combat_over());
            assert forall|j: int, mi: int|
                0 <= j < self.team1@.len() && 0 <= mi < self.team1@[j].modifiers@.len() implies ((
            #[trigger] self.team1@[j].modifiers@[mi]).duration
                == crate::modifiers::ModifierDuration::NextTurn || self.team1@[j].modifiers@[mi].duration
                == crate::modifiers::ModifierDuration::RestOfCombat) by {
                assert(cleanup_frame(s_res.team1@[j], self.team1@[j]));
                crate::modifiers::lemma_advance_seq_durations(s_res.team1@[j].modifiers@);
            }
            assert forall|j: int, mi: int|
                0 <= j < self.team2@.len() && 0 <= mi < self.team2@[j].modifiers@.len() implies ((
            #[trigger] self.team2@[j].modifiers@[mi]).duration
                == crate::modifiers::ModifierDuration::NextTurn || self.team2@[j].modifiers@[mi].duration
                == crate::modifiers::ModifierDuration::RestOfCombat) by {
                assert(cleanup_frame(s_res.team2@[j], self.team2@[j]));
                crate::modifiers::lemma_advance_seq_durations(s_res.team2@[j].modifiers@);
            }
            assert forall|j: int| 0 <= j < self.team1@.len() implies !(
            #[trigger] self.team1@[j]).stunned by {
                assert(cleanup_frame(s_res.team1@[j], self.team1@[j]));
            }
            assert forall|j: int| 0 <= j < self.team2@.len() implies !(
            #[trigger] self.team2@[j]).stunned by {
                assert(cleanup_frame(s_res.team2@[j], self.team2@[j]));
            }
            assert forall|j: int| 0 <= j < pre.team1@.len() implies char_statics_eq(
                #[trigger] pre.team1@[j],
                self.team1@[j],
            ) && pre.team1@[j].current_wounds <= self.team1@[j].current_wounds by {
                assert(select_frame(pre.team1@[j], s_sel.team1@[j]));
                assert(char_statics_eq(s_sel.team1@[j], s_res.team1@[j]));
                assert(cleanup_frame(s_res.team1@[j], self.team1@[j]));
            }
            assert forall|j: int| 0 <= j < pre.team2@.len() implies char_statics_eq(
                #[trigger] pre.team2@[j],
                self.team2@[j],
            ) && pre.team2@[j].current_wounds <= self.team2@[j].current_wounds by {
                assert(select_frame(pre.team2@[j], s_sel.team2@[j]));
                assert(char_statics_eq(s_sel.team2@[j], s_res.team2@[j]));
                assert(cleanup_frame(s_res.team2@[j], self.team2@[j]));
            }
            assert forall|j: int| 0 <= j < self.team1@.len() implies (
            #[trigger] self.team1@[j]).current_wounds <= crate::engine::wound_budget(
                self.round_number as int,
            ) && mag_sum(self.team1@[j].modifiers@) <= crate::engine::mag_budget(
                self.round_number as int,
            ) by {
                assert(cleanup_frame(s_res.team1@[j], self.team1@[j]));
                assert(s_res.team1@[j].current_wounds <= crate::engine::wound_budget(rn as int)
                    && mag_sum(s_res.team1@[j].modifiers@) <= crate::engine::mag_budget(
                    rn as int,
                ));
            }
            assert forall|j: int| 0 <= j < self.team2@.len() implies (
            #[trigger] self.team2@[j]).current_wounds <= crate::engine::wound_budget(
                self.round_number as int,
            ) && mag_sum(self.team2@[j].modifiers@) <= crate::engine::mag_budget(
                self.round_number as int,
            ) by {
                assert(cleanup_frame(s_res.team2@[j], self.team2@[j]));
                assert(s_res.team2@[j].current_wounds <= crate::engine::wound_budget(rn as int)
                    && mag_sum(s_res.team2@[j].modifiers@) <= crate::engine::mag_budget(
                    rn as int,
                ));
            }
        }
        true
    }

    /// Every engine field a resolution step leaves alone, stats and logs
    /// excluded.
    pub open spec fn eq_bookkeeping_rounds(a: CombatEngine, b: CombatEngine) -> bool {
        &&& a.round_number == b.round_number
        &&& a.max_rounds == b.max_rounds
        &&& a.verbose == b.verbose
        &&& a.team1@.len() == b.team1@.len()
        &&& a.team2@.len() == b.team2@.len()
    }

    /// Advance every character's modifier durations one boundary and clear
    /// all stuns.
    #[verifier::rlimit(100)]
    fn cleanup_round(&mut self)
        requires
            old(self).chars_ok(),
        ensures
            final(self).chars_ok(),
            CombatEngine::eq_bookkeeping(*final(self), *old(self)),
            final(self).vengeance_targets == old(self).vengeance_targets,
            final(self).sacrifice_targets == old(self).sacrifice_targets,
            final(self).coordinated_ambush_target == old(self).coordinated_ambush_target,
            final(self).wounded_this_round == old(self).wounded_this_round,
            forall|j: int|
                0 <= j < old(self).team1@.len() ==> cleanup_frame(
                    #[trigger] old(self).team1@[j],
                    final(self).team1@[j],
                ),
            forall|j: int|
                0 <= j < old(self).team2@.len() ==> cleanup_frame(
                    #[trigger] old(self).team2@[j],
                    final(self).team2@[j],
                ),
    {
        let ghost pre = *old(self);
        let n1 = self.team1.len();
        let mut k: usize = 0;
        while k < n1
            invariant
                self.chars_ok(),
                CombatEngine::eq_bookkeeping(*self, pre),
                self.vengeance_targets == pre.vengeance_targets,
                self.sacrifice_targets == pre.sacrifice_targets,
                self.coordinated_ambush_target == pre.coordinated_ambush_target,
                self.wounded_this_round == pre.wounded_this_round,
                n1 == pre.team1@.len(),
                0 <= k <= n1,
                self.team2 == pre.team2,
                forall|j: int|
                    0 <= j < k ==> cleanup_frame(#[trigger] pre.team1@[j], self.team1@[j])
                        && !self.team1@[j].stunned,
                forall|j: int| k <= j < n1 ==> #[trigger] self.team1@[j] == pre.team1@[j],
            decreases n1 - k,
        {
            let ghost before = self.roster(1)[k as int];
            let c = self.char_mut(1, k);
            c.advance_turn_modifiers();
            c.stunned = false;
            proof {
                crate::modifiers::lemma_advance_seq_mag_sum(before.modifiers@);
                crate::modifiers::lemma_advance_seq_mods_wf(before.modifiers@);
            }
            k = k + 1;
        }
        let ghost mid = *self;
        proof {
            assert forall|j: int| 0 <= j < mid.team1@.len() implies cleanup_frame(
                #[trigger] pre.team1@[j],
                mid.team1@[j],
            ) && !mid.team1@[j].stunned by {
                assert(cleanup_frame(pre.team1@[j], self.team1@[j]));
            }
        }
        let n2 = self.team2.len();
        let mut q: usize = 0;
        while q < n2
            invariant
                self.chars_ok(),
                CombatEngine::eq_bookkeeping(*self, pre),
                self.vengeance_targets == pre.vengeance_targets,
                self.sacrifice_targets == pre.sacrifice_targets,
                self.coordinated_ambush_target == pre.coordinated_ambush_target,
                self.wounded_this_round == pre.wounded_this_round,
                n2 == pre.team2@.len(),
                0 <= q <= n2,
                self.team1 == mid.team1,
                forall|j: int|
                    0 <= j < mid.team1@.len() ==> cleanup_frame(
                        #[trigger] pre.team1@[j],
                        mid.team1@[j],
                    ) && !mid.team1@[j].stunned,
                forall|j: int|
                    0 <= j < q ==> cleanup_frame(#[trigger] pre.team2@[j], self.team2@[j])
                        && !self.team2@[j].stunned,
                forall|j: int| q <= j < n2 ==> #[trigger] self.team2@[j] == pre.team2@[j],
            decreases n2 - q,
        {
            let ghost before = self.roster(2)[q as int];
            let c = self.char_mut(2, q);
            c.advance_turn_modifiers();
            c.stunned = false;
            proof {
                crate::modifiers::lemma_advance_seq_mag_sum(before.modifiers@);
                crate::modifiers::lemma_advance_seq_mods_wf(before.modifiers@);
            }
            q = q + 1;
        }
        proof {
            assert forall|j: int| 0 <= j < self.team1@.len() implies cleanup_frame(
                #[trigger] pre.team1@[j],
                self.team1@[j],
            ) && !self.team1@[j].stunned by {
                assert(self.team1@[j] == mid.team1@[j]);
                assert(cleanup_frame(pre.team1@[j], mid.team1@[j]) && !mid.team1@[j].stunned);
            }
        }
    }
}

/// How the round-boundary cleanup may move a character: statics, wounds and
/// flags other than the stun stay; the modifier load never grows; the
/// character's liveness is untouched.
pub open spec fn cleanup_frame(a: Character, b: Character) -> bool {
    &&& char_statics_eq(a, b)
    &&& b.current_wounds == a.current_wounds
    &&& b.modifiers@ == crate::modifiers::advance_seq(a.modifiers@)
    &&& mag_sum(b.modifiers@) <= mag_sum(a.modifiers@)
    &&& b.spec_alive() == a.spec_alive()
    &&& b.played_card_idx == a.played_card_idx
    &&& !b.stunned
}

/// Re-establish the between-round budgets after an aborted round: nothing
/// grew past the selection state.
proof fn restore_budgets(pre: CombatEngine, cur: CombatEngine, rn: int)
    requires
        pre.budgets_ok(),
        pre.round_number == rn - 1,
        rn >= 1,
        cur.round_number == rn,
        cur.team1@.len() == pre.team1@.len(),
        cur.team2@.len() == pre.team2@.len(),
        forall|j: int|
            0 <= j < pre.team1@.len() ==> select_frame(#[trigger] pre.team1@[j], cur.team1@[j]),
        forall|j: int|
            0 <= j < pre.team2@.len() ==> select_frame(#[trigger] pre.team2@[j], cur.team2@[j]),
    ensures
        cur.budgets_ok(),
{
    assert forall|j: int| 0 <= j < cur.team1@.len() implies (
    #[trigger] cur.team1@[j]).current_wounds <= crate::engine::wound_budget(rn) && mag_sum(
        cur.team1@[j].modifiers@,
    ) <= crate::engine::mag_budget(rn) by {
        assert(select_frame(pre.team1@[j], cur.team1@[j]));
        assert(pre.team1@[j].current_wounds <= crate::engine::wound_budget(rn - 1));
        assert(mag_sum(pre.team1@[j].modifiers@) <= crate::engine::mag_budget(rn - 1));
    }
    assert forall|j: int| 0 <= j < cur.team2@.len() implies (
    #[trigger] cur.team2@[j]).current_wounds <= crate::engine::wound_budget(rn) && mag_sum(
        cur.team2@[j].modifiers@,
    ) <= crate::engine::mag_budget(rn) by {
        assert(select_frame(pre.team2@[j], cur.team2@[j]));
        assert(pre.team2@[j].current_wounds <= crate::engine::wound_budget(rn - 1));
        assert(mag_sum(pre.team2@[j].modifiers@) <= crate::engine::mag_budget(rn - 1));
    }
}

/// Re-establish the between-round budgets after `k` of the round's at most
/// `total` actions have resolved (and perhaps a cleanup that only shrank
/// modifier loads).
proof fn restore_budgets_mid(
    pre: CombatEngine,
    s_sel: CombatEngine,
    cur: CombatEngine,
    rn: int,
    k: int,
    total: int,
)
    requires
        pre.budgets_ok(),
        pre.round_number == rn - 1,
        cur.round_number == rn,
        1 <= rn <= 100,
        0 <= k <= total,
        total <= pre.team1@.len() + pre.team2@.len(),
        pre.team1@.len() <= 8 && pre.team2@.len() <= 8,
        s_sel.team1@.len() == pre.team1@.len() && s_sel.team2@.len() == pre.team2@.len(),
        cur.team1@.len() == pre.team1@.len() && cur.team2@.len() == pre.team2@.len(),
        forall|j: int|
            0 <= j < pre.team1@.len() ==> select_frame(#[trigger] pre.team1@[j], s_sel.team1@[j]),
        forall|j: int|
            0 <= j < pre.team2@.len() ==> select_frame(#[trigger] pre.team2@[j], s_sel.team2@[j]),
        forall|j: int|
            0 <= j < s_sel.team1@.len() ==> (#[trigger] cur.team1@[j]).current_wounds
                <= s_sel.team1@[j].current_wounds + 30 * k && mag_sum(cur.team1@[j].modifiers@)
                <= mag_sum(s_sel.team1@[j].modifiers@) + 0x8_0000 * k,
        forall|j: int|
            0 <= j < s_sel.team2@.len() ==> (#[trigger] cur.team2@[j]).current_wounds
                <= s_sel.team2@[j].current_wounds + 30 * k && mag_sum(cur.team2@[j].modifiers@)
                <= mag_sum(s_sel.team2@[j].modifiers@) + 0x8_0000 * k,
    ensures
        cur.budgets_ok(),
{
    assert forall|j: int| 0 <= j < cur.team1@.len() implies (
    #[trigger] cur.team1@[j]).current_wounds <= crate::engine::wound_budget(rn) && mag_sum(
        cur.team1@[j].modifiers@,
    ) <= crate::engine::mag_budget(rn) by {
        assert(select_frame(pre.team1@[j], s_sel.team1@[j]));
        assert(pre.team1@[j].current_wounds <= crate::engine::wound_budget(rn - 1));
        assert(mag_sum(pre.team1@[j].modifiers@) <= crate::engine::mag_budget(rn - 1));
        assert(30 * k <= 30 * 16 && 0x8_0000 * k <= 0x8_0000 * 16);
    }
    assert forall|j: int| 0 <= j < cur.team2@.len() implies (
    #[trigger] cur.team2@[j]).current_wounds <= crate::engine::wound_budget(rn) && mag_sum(
        cur.team2@[j].modifiers@,
    ) <= crate::engine::mag_budget(rn) by {
        assert(select_frame(pre.team2@[j], s_sel.team2@[j]));
        assert(pre.team2@[j].current_wounds <= crate::engine::wound_budget(rn - 1));
        assert(mag_sum(pre.team2@[j].modifiers@) <= crate::engine::mag_budget(rn - 1));
        assert(30 * k <= 30 * 16 && 0x8_0000 * k <= 0x8_0000 * 16);
    }
}


impl CombatEngine {
    /// Credit every card the winning side played this combat to the
    /// winner's statistics.
    #[verifier::rlimit(100)]
    fn record_winner_plays(&mut self, team: u8)
        requires
            old(self).chars_ok(),
            team == 1 || team == 2,
            weight(old(self).stats.card_stats@) + 2 * (old(self).team1_cards_played@.len() + old(
                self,
            ).team2_cards_played@.len()) < 0x1000_0000_0000_0000 - 2,
            weight(old(self).stats.card_type_stats@) + 2 * (old(self).team1_cards_played@.len()
                + old(self).team2_cards_played@.len()) < 0x1000_0000_0000_0000 - 2,
        ensures
            final(self).chars_ok(),
            final(self).team1 == old(self).team1,
            final(self).team2 == old(self).team2,
            final(self).round_number == old(self).round_number,
            final(self).max_rounds == old(self).max_rounds,
            final(self).verbose == old(self).verbose,
            final(self).team1_cards_played == old(self).team1_cards_played,
            final(self).team2_cards_played == old(self).team2_cards_played,
            weight(final(self).stats.card_stats@) <= weight(old(self).stats.card_stats@) + old(
                self,
            ).team1_cards_played@.len() + old(self).team2_cards_played@.len(),
            weight(final(self).stats.card_type_stats@) <= weight(
                old(self).stats.card_type_stats@,
            ) + old(self).team1_cards_played@.len() + old(self).team2_cards_played@.len(),
    {
        let ghost pre = *old(self);
        let n = if team == 1 {
            self.team1_cards_played.len()
        } else {
            self.team2_cards_played.len()
        };
        let mut i: usize = 0;
        while i < n
            invariant
                self.chars_ok(),
                pre == *old(self),
                team == 1 || team == 2,
                n == (if team == 1 {
                    pre.team1_cards_played@.len()
                } else {
                    pre.team2_cards_played@.len()
                }),
                n <= pre.team1_cards_played@.len() + pre.team2_cards_played@.len(),
                0 <= i <= n,
                self.team1 == pre.team1,
                self.team2 == pre.team2,
                self.round_number == pre.round_number,
                self.max_rounds == pre.max_rounds,
                self.verbose == pre.verbose,
                self.team1_cards_played == pre.team1_cards_played,
                self.team2_cards_played == pre.team2_cards_played,
                self.vengeance_targets == pre.vengeance_targets,
                self.sacrifice_targets == pre.sacrifice_targets,
                self.coordinated_ambush_target == pre.coordinated_ambush_target,
                self.wounded_this_round == pre.wounded_this_round,
                weight(self.stats.card_stats@) <= weight(pre.stats.card_stats@) + i,
                weight(self.stats.card_type_stats@) <= weight(pre.stats.card_type_stats@) + i,
                weight(pre.stats.card_stats@) + 2 * (pre.team1_cards_played@.len()
                    + pre.team2_cards_played@.len()) < 0x1000_0000_0000_0000 - 2,
                weight(pre.stats.card_type_stats@) + 2 * (pre.team1_cards_played@.len()
                    + pre.team2_cards_played@.len()) < 0x1000_0000_0000_0000 - 2,
            decreases n - i,
        {
            let (name, label): (String, String) = if team == 1 {
                (self.team1_cards_played[i].0.clone(), self.team1_cards_played[i].1.clone())
            } else {
                (self.team2_cards_played[i].0.clone(), self.team2_cards_played[i].1.clone())
            };
            self.stats.record_winner_play(name.as_str(), label.as_str());
            i = i + 1;
        }
    }

    /// Run a combat to completion: rounds proceed until one side has no
    /// living member or the round cap is reached; the outcome code is 1 or
    /// 2 for the side with more survivors and 0 for a draw, and the
    /// winner's plays are credited to the statistics. A combat already
    /// decided runs no further rounds.
    #[verifier::rlimit(100)]
    #[verifier::spinoff_prover]
    pub fn run_combat(&mut self) -> (winner: u8)
        requires
            old(self).wf(),
            weight(old(self).stats.card_stats@) < 0x0100_0000_0000_0000,
            weight(old(self).stats.card_type_stats@) < 0x0100_0000_0000_0000,
            old(self).team1_cards_played@.len() + old(self).team2_cards_played@.len() <= 0x10_0000,
        ensures
            final(self).wf(),
            winner == winner_code(count_alive(final(self).team1@), count_alive(final(self).team2@)),
            final(self).round_number <= final(self).max_rounds,
            final(self).max_rounds == old(self).max_rounds,
            old(self).spec_combat_over() ==> final(self).round_number == old(self).round_number
                && final(self).team1 == old(self).team1 && final(self).team2 == old(self).team2,
            // Progress: a combat neither decided nor at the cap has run at
            // least one round.
            final(self).spec_combat_over() || final(self).round_number == final(self).max_rounds
                || final(self).round_number > old(self).round_number,
            final(self).team1_cards_played@.len() + final(self).team2_cards_played@.len() <= old(
                self,
            ).team1_cards_played@.len() + old(self).team2_cards_played@.len() + 1600,
            weight(final(self).stats.card_stats@) <= weight(old(self).stats.card_stats@) + old(
                self,
            ).team1_cards_played@.len() + old(self).team2_cards_played@.len() + 10000,
            weight(final(self).stats.card_type_stats@) <= weight(
                old(self).stats.card_type_stats@,
            ) + old(self).team1_cards_played@.len() + old(self).team2_cards_played@.len() + 10000,
    {
        let ghost pre = *old(self);
        let mut done: bool = false;
        while !done && self.round_number < self.max_rounds
            invariant
                self.wf(),
                pre == *old(self),
                pre.wf(),
                weight(pre.stats.card_stats@) < 0x0100_0000_0000_0000,
                weight(pre.stats.card_type_stats@) < 0x0100_0000_0000_0000,
                pre.team1_cards_played@.len() + pre.team2_cards_played@.len() <= 0x10_0000,
                self.max_rounds == pre.max_rounds,
                self.round_number >= pre.round_number,
                self.round_number - pre.round_number <= 100,
                weight(self.stats.card_stats@) <= weight(pre.stats.card_stats@) + 32 * (
                self.round_number - pre.round_number),
                weight(self.stats.card_type_stats@) <= weight(pre.stats.card_type_stats@) + 32 * (
                self.round_number - pre.round_number),
                self.team1_cards_played@.len() + self.team2_cards_played@.len()
                    <= pre.team1_cards_played@.len() + pre.team2_cards_played@.len() + 16 * (
                self.round_number - pre.round_number),
                pre.spec_combat_over() ==> self.round_number == pre.round_number && self.team1
                    == pre.team1 && self.team2 == pre.team2,
                self.round_number == pre.round_number ==> self.team1 == pre.team1 && self.team2
                    == pre.team2,
                done ==> self.spec_combat_over() || self.round_number > pre.round_number,
            decreases self.max_rounds - self.round_number + if done {
                0int
            } else {
                1int
            },
        {
            if self.is_combat_over() {
                done = true;
            } else {
                let cont = self.run_round();
                if !cont {
                    done = true;
                }
            }
        }
        let a1 = count_living(&self.team1);
        let a2 = count_living(&self.team2);
        let winner: u8 = if a1 > 0 && a2 == 0 {
            1
        } else if a2 > 0 && a1 == 0 {
            2
        } else if a1 > a2 {
            1
        } else if a2 > a1 {
            2
        } else {
            0
        };
        if winner == 1 {
            self.record_winner_plays(1);
        } else if winner == 2 {
            self.record_winner_plays(2);
        }
        winner
    }
}

} // verus!

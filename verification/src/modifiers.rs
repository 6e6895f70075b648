use vstd::prelude::*;

use crate::dice::{int_max, DiceRoll};
use crate::equipment::STAT_BOUND;

verus! {

/// How long a stat modifier lasts. `ThisAndNextTurn` becomes `NextTurn`
/// after one round boundary; `ThisTurn` and `NextTurn` expire at the next
/// boundary; `RestOfCombat` never expires within a combat.
#[derive(Debug, Clone, Copy, PartialEq, Eq, Structural)]
pub enum ModifierDuration {
    ThisTurn,
    NextTurn,
    ThisAndNextTurn,
    RestOfCombat,
}

/// A timed adjustment to a named stat: a flat value or a dice expression
/// (re-rolled on every query), a duration, an optional source label, and an
/// optional applicability condition.
#[derive(Debug)]
pub struct CombatModifier {
    pub stat: String,
    pub value: i32,
    pub dice: Option<DiceRoll>,
    pub duration: ModifierDuration,
    pub source: String,
    pub condition: Option<String>,
}

impl Clone for CombatModifier {
    fn clone(&self) -> (r: Self)
        ensures
            r == *self,
    {
        CombatModifier {
            stat: self.stat.clone(),
            value: self.value,
            dice: self.dice,
            duration: self.duration,
            source: self.source.clone(),
            condition: match &self.condition {
                Some(c) => Some(c.clone()),
                None => None,
            },
        }
    }
}

impl CombatModifier {
    /// A modifier whose dice can be rolled.
    pub open spec fn wf(self) -> bool {
        match self.dice {
            Some(d) => d.wf(),
            None => true,
        }
    }

    /// Least value one query of this modifier can contribute.
    pub open spec fn contrib_min(self) -> int {
        match self.dice {
            Some(d) => d.min_roll(),
            None => self.value as int,
        }
    }

    /// Greatest value one query of this modifier can contribute.
    pub open spec fn contrib_max(self) -> int {
        match self.dice {
            Some(d) => d.max_roll(),
            None => self.value as int,
        }
    }

    /// A bound on the magnitude of any query of this modifier.
    pub open spec fn mag(self) -> int {
        match self.dice {
            Some(d) => d.max_roll(),
            None => int_max(self.value as int, -(self.value as int)),
        }
    }

    /// A modifier whose every query stays within `STAT_BOUND`.
    pub open spec fn tame(self) -> bool {
        self.wf() && self.mag() <= STAT_BOUND
    }

    pub fn new(stat: &str, value: i32, duration: ModifierDuration) -> (r: Self)
        ensures
            r.stat@ == stat@,
            r.value == value,
            r.dice == None::<DiceRoll>,
            r.duration == duration,
            r.source@ == Seq::<char>::empty(),
            r.condition == None::<String>,
    {
        CombatModifier {
            stat: stat.to_owned(),
            value,
            dice: None,
            duration,
            source: String::new(),
            condition: None,
        }
    }

    pub fn with_dice(self, dice: DiceRoll) -> (r: Self)
        ensures
            r == (CombatModifier { dice: Some(dice), ..self }),
    {
        CombatModifier { dice: Some(dice), ..self }
    }

    pub fn with_source(self, source: &str) -> (r: Self)
        ensures
            r.stat == self.stat,
            r.value == self.value,
            r.dice == self.dice,
            r.duration == self.duration,
            r.source@ == source@,
            r.condition == self.condition,
    {
        CombatModifier { source: source.to_owned(), ..self }
    }

    pub fn with_condition(self, condition: &str) -> (r: Self)
        ensures
            r.stat == self.stat,
            r.value == self.value,
            r.dice == self.dice,
            r.duration == self.duration,
            r.source == self.source,
            r.condition matches Some(c) && c@ == condition@,
    {
        CombatModifier { condition: Some(condition.to_owned()), ..self }
    }

    /// One query of the modifier: a fresh roll of its dice if it has any,
    /// its flat value otherwise.
    pub fn get_value(&self) -> (r: i32)
        requires
            self.wf(),
        ensures
            self.contrib_min() <= r <= self.contrib_max(),
            -self.mag() <= r <= self.mag(),
    {
        match &self.dice {
            Some(d) => d.roll(),
            None => self.value,
        }
    }
}

/// The view of an optional query string.
pub open spec fn opt_str_view(c: Option<&str>) -> Option<Seq<char>> {
    match c {
        Some(s) => Some(s@),
        None => None,
    }
}

/// Whether a modifier contributes to a stat query: its stat name must match,
/// and a conditional modifier applies only when the query occurs inside the
/// condition it was created with (conditions carry labels such as a target
/// name under an `attacking_` prefix, matched by containment).
pub open spec fn modifier_applies(m: CombatModifier, stat: Seq<char>, cond: Option<Seq<char>>) -> bool {
    &&& m.stat@ == stat
    &&& match m.condition {
        Some(c) => match cond {
            Some(q) => crate::text::contains_seq(c@, q),
            None => false,
        },
        None => true,
    }
}

/// Every modifier in the list can be queried.
pub open spec fn mods_wf(s: Seq<CombatModifier>) -> bool {
    forall|i: int| 0 <= i < s.len() ==> (#[trigger] s[i]).wf()
}

/// Least total a stat query over the whole list can yield.
pub open spec fn total_min(s: Seq<CombatModifier>, stat: Seq<char>, cond: Option<Seq<char>>) -> int
    decreases s.len(),
{
    if s.len() == 0 {
        0
    } else {
        total_min(s.drop_last(), stat, cond) + if modifier_applies(s.last(), stat, cond) {
            s.last().contrib_min()
        } else {
            0
        }
    }
}

/// Greatest total a stat query over the whole list can yield.
pub open spec fn total_max(s: Seq<CombatModifier>, stat: Seq<char>, cond: Option<Seq<char>>) -> int
    decreases s.len(),
{
    if s.len() == 0 {
        0
    } else {
        total_max(s.drop_last(), stat, cond) + if modifier_applies(s.last(), stat, cond) {
            s.last().contrib_max()
        } else {
            0
        }
    }
}

/// Sum of the magnitudes of all modifiers in the list: a bound on any
/// partial sum a stat query can reach.
pub open spec fn mag_sum(s: Seq<CombatModifier>) -> int
    decreases s.len(),
{
    if s.len() == 0 {
        0
    } else {
        mag_sum(s.drop_last()) + s.last().mag()
    }
}

/// Query totals are bounded by the magnitude sum.
pub proof fn lemma_total_bounds(s: Seq<CombatModifier>, stat: Seq<char>, cond: Option<Seq<char>>)
    requires
        mods_wf(s),
    ensures
        0 <= mag_sum(s),
        -mag_sum(s) <= total_min(s, stat, cond),
        total_min(s, stat, cond) <= total_max(s, stat, cond),
        total_max(s, stat, cond) <= mag_sum(s),
    decreases s.len(),
{
    if s.len() > 0 {
        assert(forall|i: int|
            0 <= i < s.drop_last().len() ==> (#[trigger] s.drop_last()[i]).wf());
        lemma_total_bounds(s.drop_last(), stat, cond);
        let m = s.last();
        assert(m.wf());
        match m.dice {
            Some(d) => {
                d.lemma_range();
            },
            None => {},
        }
    }
}

/// The magnitude sum of a prefix never exceeds that of the whole list.
pub proof fn lemma_mag_sum_take(s: Seq<CombatModifier>, i: int)
    requires
        0 <= i <= s.len(),
    ensures
        mag_sum(s.take(i)) <= mag_sum(s),
    decreases s.len() - i,
{
    if i == s.len() {
        assert(s.take(i) =~= s);
    } else {
        assert(s.take(i + 1).drop_last() =~= s.take(i));
        assert(s.take(i + 1).last() == s[i]);
        assert(s[i].mag() >= 0);
        lemma_mag_sum_take(s, i + 1);
    }
}

/// Whether a modifier outlives one round boundary.
pub open spec fn survives_boundary(m: CombatModifier) -> bool {
    m.duration == ModifierDuration::ThisAndNextTurn || m.duration == ModifierDuration::RestOfCombat
}

/// What one round boundary turns a surviving modifier into.
pub open spec fn advance_one(m: CombatModifier) -> CombatModifier {
    if m.duration == ModifierDuration::ThisAndNextTurn {
        CombatModifier { duration: ModifierDuration::NextTurn, ..m }
    } else {
        m
    }
}

/// The effect of one round boundary on a whole modifier list: expired
/// modifiers are dropped, surviving ones advance, order is kept.
pub open spec fn advance_seq(s: Seq<CombatModifier>) -> Seq<CombatModifier>
    decreases s.len(),
{
    if s.len() == 0 {
        Seq::<CombatModifier>::empty()
    } else {
        if survives_boundary(s.last()) {
            advance_seq(s.drop_last()).push(advance_one(s.last()))
        } else {
            advance_seq(s.drop_last())
        }
    }
}

/// The modifier list after `n` round boundaries.
pub open spec fn advance_seq_n(s: Seq<CombatModifier>, n: nat) -> Seq<CombatModifier>
    decreases n,
{
    if n == 0 {
        s
    } else {
        advance_seq_n(advance_seq(s), (n - 1) as nat)
    }
}

/// A round boundary never increases the total modifier magnitude.
pub proof fn lemma_advance_seq_mag_sum(s: Seq<CombatModifier>)
    ensures
        mag_sum(advance_seq(s)) <= mag_sum(s),
        0 <= mag_sum(advance_seq(s)),
    decreases s.len(),
{
    if s.len() == 0 {
    } else {
        lemma_advance_seq_mag_sum(s.drop_last());
        if survives_boundary(s.last()) {
            let t = advance_seq(s.drop_last()).push(advance_one(s.last()));
            assert(t.drop_last() =~= advance_seq(s.drop_last()));
            assert(t.last() == advance_one(s.last()));
            assert(advance_one(s.last()).mag() == s.last().mag());
            assert(s.last().mag() >= 0);
        } else {
            assert(s.last().mag() >= 0);
        }
    }
}

/// A round boundary keeps every modifier queryable.
pub proof fn lemma_advance_seq_mods_wf(s: Seq<CombatModifier>)
    requires
        mods_wf(s),
    ensures
        mods_wf(advance_seq(s)),
    decreases s.len(),
{
    if s.len() > 0 {
        assert(forall|i: int|
            0 <= i < s.drop_last().len() ==> (#[trigger] s.drop_last()[i]).wf());
        lemma_advance_seq_mods_wf(s.drop_last());
        if survives_boundary(s.last()) {
            let t = advance_seq(s.drop_last()).push(advance_one(s.last()));
            assert(advance_one(s.last()).wf());
            assert forall|i: int| 0 <= i < t.len() implies (#[trigger] t[i]).wf() by {
                if i < t.len() - 1 {
                    assert(t[i] == advance_seq(s.drop_last())[i]);
                }
            }
        }
    }
}

/// Every modifier that remains after a round boundary is the advanced form
/// of a survivor, so it is scoped `NextTurn` or `RestOfCombat`.
pub proof fn lemma_advance_seq_durations(s: Seq<CombatModifier>)
    ensures
        forall|i: int|
            0 <= i < advance_seq(s).len() ==> (#[trigger] advance_seq(s)[i]).duration
                == ModifierDuration::NextTurn || advance_seq(s)[i].duration
                == ModifierDuration::RestOfCombat,
    decreases s.len(),
{
    if s.len() > 0 {
        lemma_advance_seq_durations(s.drop_last());
        let t = advance_seq(s.drop_last());
        assert forall|i: int| 0 <= i < advance_seq(s).len() implies (#[trigger] advance_seq(
            s,
        )[i]).duration == ModifierDuration::NextTurn || advance_seq(s)[i].duration
            == ModifierDuration::RestOfCombat by {
            if survives_boundary(s.last()) {
                if i == t.len() {
                    assert(advance_seq(s)[i] == advance_one(s.last()));
                } else {
                    assert(advance_seq(s)[i] == t[i]);
                }
            } else {
                assert(advance_seq(s)[i] == t[i]);
            }
        }
    }
}

/// After a round boundary on a list that no longer holds any
/// `ThisAndNextTurn` modifier, only `RestOfCombat` modifiers remain.
pub proof fn lemma_advance_seq_second_boundary(s: Seq<CombatModifier>)
    requires
        forall|i: int|
            0 <= i < s.len() ==> (#[trigger] s[i]).duration != ModifierDuration::ThisAndNextTurn,
    ensures
        forall|i: int|
            0 <= i < advance_seq(s).len() ==> (#[trigger] advance_seq(s)[i]).duration
                == ModifierDuration::RestOfCombat,
    decreases s.len(),
{
    if s.len() > 0 {
        assert(forall|i: int|
            0 <= i < s.drop_last().len() ==> (#[trigger] s.drop_last()[i]).duration
                != ModifierDuration::ThisAndNextTurn);
        lemma_advance_seq_second_boundary(s.drop_last());
        let t = advance_seq(s.drop_last());
        assert forall|i: int| 0 <= i < advance_seq(s).len() implies (#[trigger] advance_seq(
            s,
        )[i]).duration == ModifierDuration::RestOfCombat by {
            if survives_boundary(s.last()) {
                if i == t.len() {
                    assert(advance_seq(s)[i] == advance_one(s.last()));
                    assert(s.last().duration != ModifierDuration::ThisAndNextTurn);
                } else {
                    assert(advance_seq(s)[i] == t[i]);
                }
            } else {
                assert(advance_seq(s)[i] == t[i]);
            }
        }
    }
}

/// A `ThisAndNextTurn` modifier survives exactly two round boundaries from
/// creation: after the first it is still present, rescoped to `NextTurn`;
/// after the second, nothing of it remains. Stated over the whole modifier
/// list the character carries.
pub proof fn lemma_this_and_next_turn_decay(s: Seq<CombatModifier>, m: CombatModifier)
    requires
        s.contains(m),
        m.duration == ModifierDuration::ThisAndNextTurn,
    ensures
        advance_seq(s).contains(advance_one(m)),
        advance_one(m).duration == ModifierDuration::NextTurn,
        !advance_seq(advance_seq(s)).contains(advance_one(m)),
        !advance_seq(advance_seq(s)).contains(m),
    decreases s.len(),
{
    lemma_advance_contains_survivor(s, m);
    lemma_advance_seq_durations(s);
    lemma_advance_seq_second_boundary(advance_seq(s));
    let ss = advance_seq(advance_seq(s));
    if ss.contains(advance_one(m)) {
        let i = choose|i: int| 0 <= i < ss.len() && ss[i] == advance_one(m);
        assert(ss[i].duration == ModifierDuration::RestOfCombat);
    }
    if ss.contains(m) {
        let i = choose|i: int| 0 <= i < ss.len() && ss[i] == m;
        assert(ss[i].duration == ModifierDuration::RestOfCombat);
    }
}

/// A surviving modifier is still present, in advanced form, after a round
/// boundary.
pub proof fn lemma_advance_contains_survivor(s: Seq<CombatModifier>, m: CombatModifier)
    requires
        s.contains(m),
        survives_boundary(m),
    ensures
        advance_seq(s).contains(advance_one(m)),
    decreases s.len(),
{
    let t = advance_seq(s.drop_last());
    if s.last() == m {
        assert(advance_seq(s)[t.len() as int] == advance_one(m));
    } else {
        let i = choose|i: int| 0 <= i < s.len() && s[i] == m;
        assert(s.drop_last()[i] == m);
        assert(s.drop_last().contains(m));
        lemma_advance_contains_survivor(s.drop_last(), m);
        let j = choose|j: int| 0 <= j < t.len() && t[j] == advance_one(m);
        assert(advance_seq(s)[j] == advance_one(m));
    }
}

/// A `RestOfCombat` modifier survives arbitrarily many round boundaries
/// within one combat.
pub proof fn lemma_rest_of_combat_persists(s: Seq<CombatModifier>, m: CombatModifier, n: nat)
    requires
        s.contains(m),
        m.duration == ModifierDuration::RestOfCombat,
    ensures
        advance_seq_n(s, n).contains(m),
    decreases n,
{
    if n > 0 {
        lemma_advance_contains_survivor(s, m);
        assert(advance_one(m) == m);
        lemma_rest_of_combat_persists(advance_seq(s), m, (n - 1) as nat);
    }
}

} // verus!

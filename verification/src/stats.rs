use vstd::prelude::*;

verus! {

/// Play counters for one card or one card type.
#[derive(Debug, Clone, Copy, PartialEq, Eq, Structural)]
pub struct CardStats {
    pub plays: u64,
    pub plays_by_winner: u64,
    pub interrupted: u64,
}

impl Default for CardStats {
    fn default() -> (r: Self)
        ensures
            r == (CardStats { plays: 0, plays_by_winner: 0, interrupted: 0 }),
    {
        CardStats { plays: 0, plays_by_winner: 0, interrupted: 0 }
    }
}

/// The counters of an absent entry.
pub open spec fn zero_stats() -> CardStats {
    CardStats { plays: 0, plays_by_winner: 0, interrupted: 0 }
}

/// The counters an optional entry stands for.
pub open spec fn or_zero(o: Option<CardStats>) -> CardStats {
    match o {
        Some(c) => c,
        None => zero_stats(),
    }
}

/// Pointwise sum of two counter triples.
pub open spec fn stats_sum(a: CardStats, b: CardStats) -> CardStats {
    CardStats {
        plays: (a.plays + b.plays) as u64,
        plays_by_winner: (a.plays_by_winner + b.plays_by_winner) as u64,
        interrupted: (a.interrupted + b.interrupted) as u64,
    }
}

/// Pointwise combination of two optional entries; absent on both sides
/// stays absent.
pub open spec fn stats_combine(a: Option<CardStats>, b: Option<CardStats>) -> Option<CardStats> {
    match a {
        Some(x) => match b {
            Some(y) => Some(stats_sum(x, y)),
            None => Some(x),
        },
        None => b,
    }
}

/// Total of all counters in one entry.
pub open spec fn entry_weight(p: (String, CardStats)) -> int {
    p.1.plays + p.1.plays_by_winner + p.1.interrupted
}

/// Total of all counters in the whole table.
pub open spec fn weight(s: Seq<(String, CardStats)>) -> int
    decreases s.len(),
{
    if s.len() == 0 {
        0
    } else {
        weight(s.drop_last()) + entry_weight(s.last())
    }
}

/// No two entries share a key.
pub open spec fn keys_distinct(s: Seq<(String, CardStats)>) -> bool {
    forall|i: int, j: int| 0 <= i < j < s.len() ==> (#[trigger] s[i]).0@ != (#[trigger] s[j]).0@
}

/// The entry stored under a key, if any.
pub open spec fn lookup(s: Seq<(String, CardStats)>, k: Seq<char>) -> Option<CardStats>
    decreases s.len(),
{
    if s.len() == 0 {
        None
    } else {
        if s.last().0@ == k {
            Some(s.last().1)
        } else {
            lookup(s.drop_last(), k)
        }
    }
}

/// The table's weight is non-negative and bounds every entry's counters.
pub proof fn lemma_entry_le_weight(s: Seq<(String, CardStats)>, i: int)
    requires
        0 <= i < s.len(),
    ensures
        0 <= weight(s),
        entry_weight(s[i]) <= weight(s),
    decreases s.len(),
{
    lemma_weight_nonneg(s.drop_last());
    if i < s.len() - 1 {
        lemma_entry_le_weight(s.drop_last(), i);
    }
}

/// The table's weight is non-negative.
pub proof fn lemma_weight_nonneg(s: Seq<(String, CardStats)>)
    ensures
        0 <= weight(s),
    decreases s.len(),
{
    if s.len() > 0 {
        lemma_weight_nonneg(s.drop_last());
    }
}

/// Whatever a key looks up to has counters bounded by the table's weight.
pub proof fn lemma_lookup_le_weight(s: Seq<(String, CardStats)>, k: Seq<char>)
    ensures
        0 <= weight(s),
        match lookup(s, k) {
            Some(c) => c.plays + c.plays_by_winner + c.interrupted <= weight(s),
            None => true,
        },
    decreases s.len(),
{
    if s.len() > 0 {
        lemma_weight_nonneg(s.drop_last());
        lemma_lookup_le_weight(s.drop_last(), k);
    }
}

/// In a table with distinct keys, an index whose key matches determines the
/// lookup result.
pub proof fn lemma_lookup_at(s: Seq<(String, CardStats)>, i: int, k: Seq<char>)
    requires
        keys_distinct(s),
        0 <= i < s.len(),
        s[i].0@ == k,
    ensures
        lookup(s, k) == Some(s[i].1),
    decreases s.len(),
{
    if i < s.len() - 1 {
        assert(s.last().0@ != k);
        assert(keys_distinct(s.drop_last()));
        lemma_lookup_at(s.drop_last(), i, k);
    }
}

/// A key under which nothing is stored looks up to nothing.
pub proof fn lemma_lookup_none(s: Seq<(String, CardStats)>, k: Seq<char>)
    requires
        forall|i: int| 0 <= i < s.len() ==> (#[trigger] s[i]).0@ != k,
    ensures
        lookup(s, k) == None::<CardStats>,
    decreases s.len(),
{
    if s.len() > 0 {
        lemma_lookup_none(s.drop_last(), k);
    }
}

/// Replacing one entry with another under the same key updates exactly that
/// key's lookup and shifts the weight by the difference of the entries.
pub proof fn lemma_lookup_update(s: Seq<(String, CardStats)>, i: int, p: (String, CardStats))
    requires
        keys_distinct(s),
        0 <= i < s.len(),
        p.0@ == s[i].0@,
    ensures
        keys_distinct(s.update(i, p)),
        lookup(s.update(i, p), p.0@) == Some(p.1),
        forall|k: Seq<char>| k != p.0@ ==> lookup(s.update(i, p), k) == lookup(s, k),
        weight(s.update(i, p)) == weight(s) - entry_weight(s[i]) + entry_weight(p),
    decreases s.len(),
{
    let t = s.update(i, p);
    if i == s.len() - 1 {
        assert(t.drop_last() =~= s.drop_last());
        assert(t.last() == p);
        assert forall|k: Seq<char>| k != p.0@ implies lookup(t, k) == lookup(s, k) by {
            assert(lookup(t, k) == lookup(s.drop_last(), k));
            assert(s.last().0@ == p.0@);
            assert(lookup(s, k) == lookup(s.drop_last(), k));
        }
    } else {
        assert(keys_distinct(s.drop_last()));
        lemma_lookup_update(s.drop_last(), i, p);
        assert(t.drop_last() =~= s.drop_last().update(i, p));
        assert(t.last() == s.last());
        assert forall|k: Seq<char>| k != p.0@ implies lookup(t, k) == lookup(s, k) by {
            if s.last().0@ != k {
                assert(lookup(t, k) == lookup(s.drop_last().update(i, p), k));
                assert(lookup(s, k) == lookup(s.drop_last(), k));
            }
        }
    }
}

/// Per-combat and cross-combat play statistics, keyed by card name and by
/// card-type label. Keys are unique; entries are created on first use.
#[derive(Debug)]
pub struct CombatStats {
    pub card_stats: Vec<(String, CardStats)>,
    pub card_type_stats: Vec<(String, CardStats)>,
}

impl Clone for CombatStats {
    fn clone(&self) -> (r: Self)
        ensures
            r.card_stats@ =~= self.card_stats@,
            r.card_type_stats@ =~= self.card_type_stats@,
    {
        CombatStats {
            card_stats: clone_table(&self.card_stats),
            card_type_stats: clone_table(&self.card_type_stats),
        }
    }
}

/// An exact copy of one table.
fn clone_table(list: &Vec<(String, CardStats)>) -> (r: Vec<(String, CardStats)>)
    ensures
        r@ =~= list@,
{
    let mut out: Vec<(String, CardStats)> = Vec::new();
    let n = list.len();
    let mut i: usize = 0;
    while i < n
        invariant
            n == list@.len(),
            0 <= i <= n,
            out@ =~= list@.take(i as int),
        decreases n - i,
    {
        let p = &list[i];
        out.push((p.0.clone(), p.1));
        proof {
            assert(out@ =~= list@.take(i + 1));
        }
        i = i + 1;
    }
    proof {
        assert(list@.take(n as int) =~= list@);
    }
    out
}

/// Which counter a recorded event bumps.
enum StatField {
    Plays,
    Winner,
    Interrupted,
}

/// The entry after one event of the given kind.
spec fn spec_bump(c: CardStats, f: StatField) -> CardStats {
    match f {
        StatField::Plays => CardStats { plays: (c.plays + 1) as u64, ..c },
        StatField::Winner => CardStats { plays_by_winner: (c.plays_by_winner + 1) as u64, ..c },
        StatField::Interrupted => CardStats { interrupted: (c.interrupted + 1) as u64, ..c },
    }
}

/// Record one event under `key`: the key's entry (created if absent) has the
/// chosen counter raised by one; nothing else changes.
fn bump_entry(list: &mut Vec<(String, CardStats)>, key: &str, field: StatField)
    requires
        keys_distinct(old(list)@),
        weight(old(list)@) < 0x1000_0000_0000_0000,
    ensures
        keys_distinct(final(list)@),
        weight(final(list)@) == weight(old(list)@) + 1,
        lookup(final(list)@, key@) == Some(
            spec_bump(or_zero(lookup(old(list)@, key@)), field),
        ),
        forall|k: Seq<char>| k != key@ ==> lookup(final(list)@, k) == lookup(old(list)@, k),
    {
    let ghost s0 = list@;
    let key_s: String = key.to_owned();
    let n = list.len();
    let mut i: usize = 0;
    let mut found: bool = false;
    while i < n && !found
        invariant
            n == s0.len(),
            s0 == list@,
            0 <= i <= n,
            key_s@ == key@,
            !found ==> forall|j: int| 0 <= j < i ==> (#[trigger] s0[j]).0@ != key@,
            found ==> i < n && s0[i as int].0@ == key@,
        decreases n - i + if found {
            0int
        } else {
            1int
        },
    {
        if list[i].0 == key_s {
            found = true;
        } else {
            i = i + 1;
        }
    }
    if found {
        proof {
            lemma_lookup_at(s0, i as int, key@);
            lemma_entry_le_weight(s0, i as int);
        }
        let entry = list.remove(i);
        let name = entry.0;
        let st = entry.1;
        let bumped: CardStats = match field {
            StatField::Plays => CardStats { plays: st.plays + 1, ..st },
            StatField::Winner => CardStats { plays_by_winner: st.plays_by_winner + 1, ..st },
            StatField::Interrupted => CardStats { interrupted: st.interrupted + 1, ..st },
        };
        list.insert(i, (name, bumped));
        proof {
            assert(list@ =~= s0.update(i as int, (s0[i as int].0, bumped)));
            lemma_lookup_update(s0, i as int, (s0[i as int].0, bumped));
        }
    } else {
        proof {
            lemma_lookup_none(s0, key@);
            lemma_weight_nonneg(s0);
        }
        let bumped: CardStats = match field {
            StatField::Plays => CardStats { plays: 1, plays_by_winner: 0, interrupted: 0 },
            StatField::Winner => CardStats { plays: 0, plays_by_winner: 1, interrupted: 0 },
            StatField::Interrupted => CardStats { plays: 0, plays_by_winner: 0, interrupted: 1 },
        };
        list.push((key_s, bumped));
        proof {
            assert(list@.drop_last() =~= s0);
            assert forall|ii: int, jj: int| 0 <= ii < jj < list@.len() implies (#[trigger] list@[ii]).0@
                != (#[trigger] list@[jj]).0@ by {
                if jj == list@.len() - 1 {
                    assert(list@[ii] == s0[ii]);
                }
            }
        }
    }
}

/// Add a whole counter triple to the entry under `key` (created if absent);
/// nothing else changes.
fn add_entry(list: &mut Vec<(String, CardStats)>, key: &String, add: CardStats)
    requires
        keys_distinct(old(list)@),
        weight(old(list)@) + add.plays + add.plays_by_winner + add.interrupted
            < 0x4000_0000_0000_0000,
    ensures
        keys_distinct(final(list)@),
        weight(final(list)@) == weight(old(list)@) + add.plays + add.plays_by_winner
            + add.interrupted,
        lookup(final(list)@, key@) == Some(
            stats_sum(or_zero(lookup(old(list)@, key@)), add),
        ),
        forall|k: Seq<char>| k != key@ ==> lookup(final(list)@, k) == lookup(old(list)@, k),
    {
    let ghost s0 = list@;
    let key_s: String = key.clone();
    let n = list.len();
    let mut i: usize = 0;
    let mut found: bool = false;
    while i < n && !found
        invariant
            n == s0.len(),
            s0 == list@,
            0 <= i <= n,
            key_s@ == key@,
            !found ==> forall|j: int| 0 <= j < i ==> (#[trigger] s0[j]).0@ != key@,
            found ==> i < n && s0[i as int].0@ == key@,
        decreases n - i + if found {
            0int
        } else {
            1int
        },
    {
        if list[i].0 == key_s {
            found = true;
        } else {
            i = i + 1;
        }
    }
    if found {
        proof {
            lemma_lookup_at(s0, i as int, key@);
            lemma_entry_le_weight(s0, i as int);
        }
        let entry = list.remove(i);
        let name = entry.0;
        let st = entry.1;
        let merged = CardStats {
            plays: st.plays + add.plays,
            plays_by_winner: st.plays_by_winner + add.plays_by_winner,
            interrupted: st.interrupted + add.interrupted,
        };
        list.insert(i, (name, merged));
        proof {
            assert(list@ =~= s0.update(i as int, (s0[i as int].0, merged)));
            lemma_lookup_update(s0, i as int, (s0[i as int].0, merged));
        }
    } else {
        proof {
            lemma_lookup_none(s0, key@);
            lemma_weight_nonneg(s0);
        }
        list.push((key_s, add));
        proof {
            assert(list@.drop_last() =~= s0);
            assert forall|ii: int, jj: int| 0 <= ii < jj < list@.len() implies (#[trigger] list@[ii]).0@
                != (#[trigger] list@[jj]).0@ by {
                if jj == list@.len() - 1 {
                    assert(list@[ii] == s0[ii]);
                }
            }
        }
    }
}

impl CombatStats {
    /// Both tables have distinct keys and a bounded total.
    pub open spec fn wf(self) -> bool {
        &&& keys_distinct(self.card_stats@)
        &&& keys_distinct(self.card_type_stats@)
        &&& weight(self.card_stats@) < 0x1000_0000_0000_0000
        &&& weight(self.card_type_stats@) < 0x1000_0000_0000_0000
    }

    pub fn new() -> (r: Self)
        ensures
            r.card_stats@ == Seq::<(String, CardStats)>::empty(),
            r.card_type_stats@ == Seq::<(String, CardStats)>::empty(),
            r.wf(),
    {
        CombatStats { card_stats: Vec::new(), card_type_stats: Vec::new() }
    }

    /// Record one play of a card: the card's and the card type's `plays`
    /// counters each rise by one.
    pub fn record_play(&mut self, card_name: &str, card_type: &str)
        requires
            old(self).wf(),
            weight(old(self).card_stats@) < 0x1000_0000_0000_0000 - 1,
            weight(old(self).card_type_stats@) < 0x1000_0000_0000_0000 - 1,
        ensures
            final(self).wf(),
            weight(final(self).card_stats@) == weight(old(self).card_stats@) + 1,
            weight(final(self).card_type_stats@) == weight(old(self).card_type_stats@) + 1,
            lookup(final(self).card_stats@, card_name@) == Some(
                spec_record_play(or_zero(lookup(old(self).card_stats@, card_name@))),
            ),
            forall|k: Seq<char>|
                k != card_name@ ==> lookup(final(self).card_stats@, k) == lookup(
                    old(self).card_stats@,
                    k,
                ),
            lookup(final(self).card_type_stats@, card_type@) == Some(
                spec_record_play(or_zero(lookup(old(self).card_type_stats@, card_type@))),
            ),
            forall|k: Seq<char>|
                k != card_type@ ==> lookup(final(self).card_type_stats@, k) == lookup(
                    old(self).card_type_stats@,
                    k,
                ),
    {
        bump_entry(&mut self.card_stats, card_name, StatField::Plays);
        bump_entry(&mut self.card_type_stats, card_type, StatField::Plays);
    }

    /// Record that the eventual winner had played this card.
    pub fn record_winner_play(&mut self, card_name: &str, card_type: &str)
        requires
            old(self).wf(),
            weight(old(self).card_stats@) < 0x1000_0000_0000_0000 - 1,
            weight(old(self).card_type_stats@) < 0x1000_0000_0000_0000 - 1,
        ensures
            final(self).wf(),
            weight(final(self).card_stats@) == weight(old(self).card_stats@) + 1,
            weight(final(self).card_type_stats@) == weight(old(self).card_type_stats@) + 1,
            lookup(final(self).card_stats@, card_name@) == Some(
                spec_record_winner(or_zero(lookup(old(self).card_stats@, card_name@))),
            ),
            forall|k: Seq<char>|
                k != card_name@ ==> lookup(final(self).card_stats@, k) == lookup(
                    old(self).card_stats@,
                    k,
                ),
            lookup(final(self).card_type_stats@, card_type@) == Some(
                spec_record_winner(or_zero(lookup(old(self).card_type_stats@, card_type@))),
            ),
            forall|k: Seq<char>|
                k != card_type@ ==> lookup(final(self).card_type_stats@, k) == lookup(
                    old(self).card_type_stats@,
                    k,
                ),
    {
        bump_entry(&mut self.card_stats, card_name, StatField::Winner);
        bump_entry(&mut self.card_type_stats, card_type, StatField::Winner);
    }

    /// Record one interrupted Focus play of a card.
    pub fn record_interrupted(&mut self, card_name: &str, card_type: &str)
        requires
            old(self).wf(),
            weight(old(self).card_stats@) < 0x1000_0000_0000_0000 - 1,
            weight(old(self).card_type_stats@) < 0x1000_0000_0000_0000 - 1,
        ensures
            final(self).wf(),
            weight(final(self).card_stats@) == weight(old(self).card_stats@) + 1,
            weight(final(self).card_type_stats@) == weight(old(self).card_type_stats@) + 1,
            lookup(final(self).card_stats@, card_name@) == Some(
                spec_record_interrupted(or_zero(lookup(old(self).card_stats@, card_name@))),
            ),
            forall|k: Seq<char>|
                k != card_name@ ==> lookup(final(self).card_stats@, k) == lookup(
                    old(self).card_stats@,
                    k,
                ),
            lookup(final(self).card_type_stats@, card_type@) == Some(
                spec_record_interrupted(or_zero(lookup(old(self).card_type_stats@, card_type@))),
            ),
            forall|k: Seq<char>|
                k != card_type@ ==> lookup(final(self).card_type_stats@, k) == lookup(
                    old(self).card_type_stats@,
                    k,
                ),
    {
        bump_entry(&mut self.card_stats, card_name, StatField::Interrupted);
        bump_entry(&mut self.card_type_stats, card_type, StatField::Interrupted);
    }

    /// The recorded counters for one card name, if any were recorded.
    pub fn get_card_stats(&self, name: &str) -> (r: Option<CardStats>)
        ensures
            r == lookup(self.card_stats@, name@),
    {
        table_get(&self.card_stats, name)
    }

    /// The recorded counters for one card-type label, if any were recorded.
    pub fn get_card_type_stats(&self, name: &str) -> (r: Option<CardStats>)
        ensures
            r == lookup(self.card_type_stats@, name@),
    {
        table_get(&self.card_type_stats, name)
    }

    /// Fold another snapshot into this one: for every key, the counters are
    /// the pointwise sums of the two sides; keys found on either side alone
    /// keep their counters.
    pub fn merge(&mut self, other: &CombatStats)
        requires
            old(self).wf(),
            other.wf(),
            weight(old(self).card_stats@) + weight(other.card_stats@) < 0x1000_0000_0000_0000,
            weight(old(self).card_type_stats@) + weight(other.card_type_stats@)
                < 0x1000_0000_0000_0000,
        ensures
            final(self).wf(),
            weight(final(self).card_stats@) == weight(old(self).card_stats@) + weight(
                other.card_stats@,
            ),
            weight(final(self).card_type_stats@) == weight(old(self).card_type_stats@) + weight(
                other.card_type_stats@,
            ),
            forall|k: Seq<char>|
                lookup(final(self).card_stats@, k) == stats_combine(
                    lookup(old(self).card_stats@, k),
                    lookup(other.card_stats@, k),
                ),
            forall|k: Seq<char>|
                lookup(final(self).card_type_stats@, k) == stats_combine(
                    lookup(old(self).card_type_stats@, k),
                    lookup(other.card_type_stats@, k),
                ),
    {
        merge_table(&mut self.card_stats, &other.card_stats);
        merge_table(&mut self.card_type_stats, &other.card_type_stats);
    }
}

/// The entry after recording one play.
pub open spec fn spec_record_play(c: CardStats) -> CardStats {
    CardStats { plays: (c.plays + 1) as u64, ..c }
}

/// The entry after recording one winner's play.
pub open spec fn spec_record_winner(c: CardStats) -> CardStats {
    CardStats { plays_by_winner: (c.plays_by_winner + 1) as u64, ..c }
}

/// The entry after recording one interruption.
pub open spec fn spec_record_interrupted(c: CardStats) -> CardStats {
    CardStats { interrupted: (c.interrupted + 1) as u64, ..c }
}

/// Read the entry stored under a key, scanning newest entries first to
/// match the lookup model.
fn table_get(list: &Vec<(String, CardStats)>, key: &str) -> (r: Option<CardStats>)
    ensures
        r == lookup(list@, key@),
{
    let key_s: String = key.to_owned();
    let mut i: usize = list.len();
    proof {
        assert(list@.take(i as int) =~= list@);
    }
    while i > 0
        invariant
            i <= list@.len(),
            key_s@ == key@,
            lookup(list@, key@) == lookup(list@.take(i as int), key@),
        decreases i,
    {
        proof {
            assert(list@.take(i as int).drop_last() =~= list@.take(i - 1));
            assert(list@.take(i as int).last() == list@[i - 1]);
        }
        if list[i - 1].0 == key_s {
            return Some(list[i - 1].1);
        }
        i = i - 1;
    }
    None
}

/// Fold every entry of `other` into `list`, pointwise.
fn merge_table(list: &mut Vec<(String, CardStats)>, other: &Vec<(String, CardStats)>)
    requires
        keys_distinct(old(list)@),
        keys_distinct(other@),
        weight(old(list)@) + weight(other@) < 0x1000_0000_0000_0000,
    ensures
        keys_distinct(final(list)@),
        weight(final(list)@) == weight(old(list)@) + weight(other@),
        forall|k: Seq<char>|
            lookup(final(list)@, k) == stats_combine(lookup(old(list)@, k), lookup(other@, k)),
    {
    let ghost s0 = list@;
    let ghost ot = other@;
    let n = other.len();
    let mut j: usize = 0;
    while j < n
        invariant
            n == ot.len(),
            ot == other@,
            keys_distinct(list@),
            keys_distinct(ot),
            0 <= j <= n,
            weight(list@) == weight(s0) + weight(ot.take(j as int)),
            weight(s0) + weight(ot) < 0x1000_0000_0000_0000,
            forall|k: Seq<char>|
                lookup(list@, k) == stats_combine(lookup(s0, k), lookup(ot.take(j as int), k)),
        decreases n - j,
    {
        proof {
            assert(ot.take(j + 1).drop_last() =~= ot.take(j as int));
            assert(ot.take(j + 1).last() == ot[j as int]);
            lemma_weight_take_le(ot, j + 1);
            lemma_weight_nonneg(s0);
            lemma_entry_le_weight(ot, j as int);
        }
        let p = &other[j];
        let ghost pre = list@;
        add_entry(list, &p.0, p.1);
        proof {
            let kj = ot[j as int].0@;
            assert(forall|jj: int| 0 <= jj < j ==> (#[trigger] ot[jj]).0@ != kj);
            lemma_lookup_none_take(ot, j as int);
            assert forall|k: Seq<char>|
                lookup(list@, k) == stats_combine(lookup(s0, k), lookup(ot.take(j + 1), k)) by {
                if k == kj {
                    assert(lookup(ot.take(j + 1), k) == Some(ot[j as int].1));
                    assert(lookup(ot.take(j as int), k) == None::<CardStats>);
                    assert(lookup(pre, k) == stats_combine(lookup(s0, k), None::<CardStats>));
                    assert(lookup(list@, k) == Some(stats_sum(or_zero(lookup(pre, k)), ot[j as int].1)));
                } else {
                    assert(lookup(ot.take(j + 1), k) == lookup(ot.take(j as int), k));
                    assert(lookup(list@, k) == lookup(pre, k));
                }
            }
        }
        j = j + 1;
    }
    proof {
        assert(ot.take(n as int) =~= ot);
    }
}

/// Weight of a prefix never exceeds the weight of the whole table.
pub proof fn lemma_weight_take_le(s: Seq<(String, CardStats)>, i: int)
    requires
        0 <= i <= s.len(),
    ensures
        0 <= weight(s.take(i)) <= weight(s),
    decreases s.len() - i,
{
    if i == s.len() {
        assert(s.take(i) =~= s);
        lemma_weight_nonneg(s);
    } else {
        assert(s.take(i + 1).drop_last() =~= s.take(i));
        assert(s.take(i + 1).last() == s[i]);
        lemma_weight_take_le(s, i + 1);
        lemma_weight_nonneg(s.take(i));
    }
}

/// The key at position `j` of a distinct-keyed table is absent from the
/// prefix before it.
pub proof fn lemma_lookup_none_take(s: Seq<(String, CardStats)>, j: int)
    requires
        keys_distinct(s),
        0 <= j < s.len(),
    ensures
        lookup(s.take(j), s[j].0@) == None::<CardStats>,
{
    assert(forall|i: int| 0 <= i < j ==> (#[trigger] s.take(j)[i]).0@ != s[j].0@);
    lemma_lookup_none(s.take(j), s[j].0@);
}

} // verus!

use vstd::prelude::*;

use crate::character::Character;
use crate::engine::CombatEngine;
use crate::stats::{weight, CombatStats};

verus! {

/// Aggregated outcomes of a batch of simulated combats.
#[derive(Debug)]
pub struct SimulationResults {
    pub team1_wins: u32,
    pub team2_wins: u32,
    pub draws: u32,
    pub total_rounds: u32,
    pub num_simulations: u32,
    pub stats: CombatStats,
}

/// A fixed name for one roster slot, unique per (side, position) within a
/// combat.
pub fn team_member_name(team: u8, j: usize) -> (r: String)
    requires
        j < 8,
{
    if team == 1 {
        match j {
            0 => "T1_0".to_owned(),
            1 => "T1_1".to_owned(),
            2 => "T1_2".to_owned(),
            3 => "T1_3".to_owned(),
            4 => "T1_4".to_owned(),
            5 => "T1_5".to_owned(),
            6 => "T1_6".to_owned(),
            _ => "T1_7".to_owned(),
        }
    } else {
        match j {
            0 => "T2_0".to_owned(),
            1 => "T2_1".to_owned(),
            2 => "T2_2".to_owned(),
            3 => "T2_3".to_owned(),
            4 => "T2_4".to_owned(),
            5 => "T2_5".to_owned(),
            6 => "T2_6".to_owned(),
            _ => "T2_7".to_owned(),
        }
    }
}

/// Run `num_simulations` independent combats between fresh rosters built by
/// the two factory lists, and aggregate outcomes: every combat ends as a
/// win for one side or a draw, so the three counters always account for
/// every simulation run.
pub fn run_simulation<F1, F2>(
    team1_creators: &[F1],
    team2_creators: &[F2],
    num_simulations: u32,
    verbose: bool,
) -> (r: SimulationResults) where F1: Fn(&str) -> Character, F2: Fn(&str) -> Character
    requires
        1 <= team1_creators@.len() <= 8,
        1 <= team2_creators@.len() <= 8,
        num_simulations <= 0x0800_0000,
        forall|j: int, s: &str|
            0 <= j < team1_creators@.len() ==> #[trigger] team1_creators@[j].requires((s,)),
        forall|j: int, s: &str|
            0 <= j < team2_creators@.len() ==> #[trigger] team2_creators@[j].requires((s,)),
        forall|j: int, s: &str, c: Character|
            0 <= j < team1_creators@.len() && #[trigger] team1_creators@[j].ensures((s,), c)
                ==> c.base_wf(),
        forall|j: int, s: &str, c: Character|
            0 <= j < team2_creators@.len() && #[trigger] team2_creators@[j].ensures((s,), c)
                ==> c.base_wf(),
    ensures
        r.num_simulations == num_simulations,
        r.team1_wins + r.team2_wins + r.draws == num_simulations,
        r.total_rounds <= 20 * num_simulations,
        r.stats.wf(),
{
    let mut team1_wins: u32 = 0;
    let mut team2_wins: u32 = 0;
    let mut draws: u32 = 0;
    let mut total_rounds: u32 = 0;
    let mut stats = CombatStats::new();
    let mut i: u32 = 0;
    while i < num_simulations
        invariant
            1 <= team1_creators@.len() <= 8,
            1 <= team2_creators@.len() <= 8,
            num_simulations <= 0x0800_0000,
            forall|j: int, s: &str|
                0 <= j < team1_creators@.len() ==> #[trigger] team1_creators@[j].requires((s,)),
            forall|j: int, s: &str|
                0 <= j < team2_creators@.len() ==> #[trigger] team2_creators@[j].requires((s,)),
            forall|j: int, s: &str, c: Character|
                0 <= j < team1_creators@.len() && #[trigger] team1_creators@[j].ensures((s,), c)
                    ==> c.base_wf(),
            forall|j: int, s: &str, c: Character|
                0 <= j < team2_creators@.len() && #[trigger] team2_creators@[j].ensures((s,), c)
                    ==> c.base_wf(),
            0 <= i <= num_simulations,
            team1_wins + team2_wins + draws == i,
            total_rounds <= 20 * i,
            stats.wf(),
            weight(stats.card_stats@) <= 10000 * i,
            weight(stats.card_type_stats@) <= 10000 * i,
        decreases num_simulations - i,
    {
        let n1 = team1_creators.len();
        let mut team1: Vec<Character> = Vec::new();
        let mut j: usize = 0;
        while j < n1
            invariant
                n1 == team1_creators@.len() <= 8,
                forall|k: int, s: &str|
                    0 <= k < team1_creators@.len() ==> #[trigger] team1_creators@[k].requires((s,)),
                forall|k: int, s: &str, c: Character|
                    0 <= k < team1_creators@.len() && #[trigger] team1_creators@[k].ensures((s,), c) ==> c.base_wf(),
                0 <= j <= n1,
                team1@.len() == j,
                forall|k: int| 0 <= k < team1@.len() ==> (#[trigger] team1@[k]).base_wf(),
            decreases n1 - j,
        {
            let name = team_member_name(1, j);
            let member = (team1_creators[j])(name.as_str());
            team1.push(member);
            j = j + 1;
        }
        let n2 = team2_creators.len();
        let mut team2: Vec<Character> = Vec::new();
        let mut k: usize = 0;
        while k < n2
            invariant
                n2 == team2_creators@.len() <= 8,
                forall|q: int, s: &str|
                    0 <= q < team2_creators@.len() ==> #[trigger] team2_creators@[q].requires((s,)),
                forall|q: int, s: &str, c: Character|
                    0 <= q < team2_creators@.len() && #[trigger] team2_creators@[q].ensures((s,), c) ==> c.base_wf(),
                0 <= k <= n2,
                team2@.len() == k,
                forall|q: int| 0 <= q < team2@.len() ==> (#[trigger] team2@[q]).base_wf(),
            decreases n2 - k,
        {
            let name = team_member_name(2, k);
            let member = (team2_creators[k])(name.as_str());
            team2.push(member);
            k = k + 1;
        }
        match CombatEngine::new(team1, team2, verbose) {
            Ok(mut engine) => {
                let winner = engine.run_combat();
                total_rounds = total_rounds + engine.round_number;
                stats.merge(&engine.stats);
                if winner == 1 {
                    team1_wins = team1_wins + 1;
                } else if winner == 2 {
                    team2_wins = team2_wins + 1;
                } else {
                    draws = draws + 1;
                }
            },
            Err(_) => {
                proof {
                    assert(false);
                }
            },
        }
        i = i + 1;
    }
    SimulationResults { team1_wins, team2_wins, draws, total_rounds, num_simulations, stats }
}

} // verus!

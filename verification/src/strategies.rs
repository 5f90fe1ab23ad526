use vstd::prelude::*;
use crate::player::{
    average_memory_after, average_tat_move, grim_trigger_after, grim_trigger_move, is_move,
    memory_in_range, random_defect_move, tit_for_tat_move, AlwaysDefect, BasicPlayer, GrimTrigger,
    PlayerState, RandomDefect, Strategy, TitForAverageTat, TitForTat,
};

verus! {

/// The mathematical state of a strategy: the record of the game it keeps,
/// and whatever else decides its next move.
pub enum StrategyState {
    AlwaysDefect { record: PlayerState },
    GrimTrigger { record: PlayerState, trig: bool },
    TitForTat { record: PlayerState },
    RandomDefect { record: PlayerState, probability_percent: int },
    TitForAverageTat { record: PlayerState, memory: int },
}

impl StrategyState {
    /// The record of the game.
    pub open spec fn record(self) -> PlayerState {
        match self {
            StrategyState::AlwaysDefect { record } => record,
            StrategyState::GrimTrigger { record, .. } => record,
            StrategyState::TitForTat { record } => record,
            StrategyState::RandomDefect { record, .. } => record,
            StrategyState::TitForAverageTat { record, .. } => record,
        }
    }

    /// The same strategy keeping the record `r`.
    pub open spec fn with_record(self, r: PlayerState) -> StrategyState {
        match self {
            StrategyState::AlwaysDefect { .. } => StrategyState::AlwaysDefect { record: r },
            StrategyState::GrimTrigger { trig, .. } => StrategyState::GrimTrigger { record: r, trig },
            StrategyState::TitForTat { .. } => StrategyState::TitForTat { record: r },
            StrategyState::RandomDefect { probability_percent, .. } => StrategyState::RandomDefect {
                record: r,
                probability_percent,
            },
            StrategyState::TitForAverageTat { memory, .. } => StrategyState::TitForAverageTat {
                record: r,
                memory,
            },
        }
    }

    /// The move chosen now; `roll` (from 0 to 100) is the draw that only
    /// random defect consults.
    pub open spec fn next_move(self, roll: int) -> i32 {
        match self {
            StrategyState::AlwaysDefect { .. } => 1,
            StrategyState::GrimTrigger { record, trig } => grim_trigger_move(trig, record.their_moves),
            StrategyState::TitForTat { record } => tit_for_tat_move(record.their_moves),
            StrategyState::RandomDefect { probability_percent, .. } => random_defect_move(
                probability_percent,
                roll,
            ),
            StrategyState::TitForAverageTat { record, memory } => average_tat_move(
                memory,
                record.their_moves,
            ),
        }
    }

    /// The strategy after choosing a move (its record is not yet updated).
    pub open spec fn after_move(self) -> StrategyState {
        match self {
            StrategyState::GrimTrigger { record, trig } => StrategyState::GrimTrigger {
                record,
                trig: grim_trigger_after(trig, record.their_moves),
            },
            StrategyState::TitForAverageTat { record, memory } => StrategyState::TitForAverageTat {
                record,
                memory: average_memory_after(memory, record.their_moves),
            },
            _ => self,
        }
    }

    /// Choosing a move cannot overflow.
    pub open spec fn ready(self) -> bool {
        match self {
            StrategyState::TitForAverageTat { memory, .. } => memory_in_range(memory),
            _ => true,
        }
    }

    /// Choosing a move cannot overflow, and the move chosen is cooperation
    /// or defection.
    pub open spec fn can_play(self) -> bool {
        &&& self.ready()
        &&& (self is TitForTat ==> (self.record().their_moves.len() == 0 || is_move(
            self.record().their_moves.last() as int,
        )))
    }

    /// The strategy's name.
    pub open spec fn name(self) -> Seq<char> {
        match self {
            StrategyState::AlwaysDefect { .. } => "AlwaysDefect"@,
            StrategyState::GrimTrigger { .. } => "GrimTrigger"@,
            StrategyState::TitForTat { .. } => "TitForTat"@,
            StrategyState::RandomDefect { .. } => "RandomDefect"@,
            StrategyState::TitForAverageTat { .. } => "TitForAverageTat"@,
        }
    }

    /// The strategy's place in the list AlwaysDefect, GrimTrigger,
    /// TitForTat, RandomDefect, TitForAverageTat.
    pub open spec fn kind(self) -> int {
        match self {
            StrategyState::AlwaysDefect { .. } => 0,
            StrategyState::GrimTrigger { .. } => 1,
            StrategyState::TitForTat { .. } => 2,
            StrategyState::RandomDefect { .. } => 3,
            StrategyState::TitForAverageTat { .. } => 4,
        }
    }

    /// The strategy after a turn with moves `mvs` and payoffs `outcome` is
    /// written to its record.
    pub open spec fn record_turn(self, mvs: (i32, i32), outcome: (i32, i32)) -> StrategyState {
        self.with_record(self.record().record_turn(mvs, outcome))
    }
}

/// One of the five strategies that take part in a tournament.
#[allow(inconsistent_fields)]
pub enum Strategies {
    AlwaysDefect { player: AlwaysDefect },
    GrimTrigger { player: GrimTrigger },
    TitForTat { player: TitForTat },
    RandomDefect { player: RandomDefect },
    TitForAverageTat { player: TitForAverageTat },
}

impl View for Strategies {
    type V = StrategyState;

    open spec fn view(&self) -> StrategyState {
        match self {
            Strategies::AlwaysDefect { player } => StrategyState::AlwaysDefect {
                record: player.play@,
            },
            Strategies::GrimTrigger { player } => StrategyState::GrimTrigger {
                record: player.play@,
                trig: player.trig,
            },
            Strategies::TitForTat { player } => StrategyState::TitForTat { record: player.play@ },
            Strategies::RandomDefect { player } => StrategyState::RandomDefect {
                record: player.play@,
                probability_percent: player.probability_percent as int,
            },
            Strategies::TitForAverageTat { player } => StrategyState::TitForAverageTat {
                record: player.play@,
                memory: player.memory as int,
            },
        }
    }
}

impl Strategies {
    /// The move for a given roll from 0 to 100 (consulted by random defect
    /// only), with the state update that the choice brings.
    pub fn strategy_for_roll(&mut self, roll: i32) -> (m: i32)
        requires
            old(self)@.ready(),
        ensures
            m == old(self)@.next_move(roll as int),
            final(self)@ == old(self)@.after_move(),
    {
        match self {
            Strategies::AlwaysDefect { player } => player.strategy(),
            Strategies::GrimTrigger { player } => player.strategy(),
            Strategies::TitForTat { player } => player.strategy(),
            Strategies::RandomDefect { player } => player.move_for_roll(roll),
            Strategies::TitForAverageTat { player } => player.strategy(),
        }
    }

    /// Whether choosing a move cannot overflow and gives cooperation or
    /// defection.
    pub fn can_play(&self) -> (b: bool)
        ensures
            b == self@.can_play(),
    {
        match self {
            Strategies::TitForTat { player } => {
                let n = player.play.their_moves.len();
                n == 0 || player.play.their_moves[n - 1] == 0 || player.play.their_moves[n - 1] == 1
            },
            Strategies::TitForAverageTat { player } => -46339 <= player.memory && player.memory
                <= 46339,
            _ => true,
        }
    }

    /// The record of the game that the strategy keeps, for reading.
    pub fn player(&self) -> (p: &BasicPlayer)
        ensures
            *p == self.player_record(),
            p@ == self@.record(),
    {
        match self {
            Strategies::AlwaysDefect { player } => &player.play,
            Strategies::GrimTrigger { player } => &player.play,
            Strategies::TitForTat { player } => &player.play,
            Strategies::RandomDefect { player } => &player.play,
            Strategies::TitForAverageTat { player } => &player.play,
        }
    }
}

impl Strategy for Strategies {
    open spec fn move_ready(&self) -> bool {
        self@.ready()
    }

    open spec fn player_record(&self) -> BasicPlayer {
        match self {
            Strategies::AlwaysDefect { player } => player.play,
            Strategies::GrimTrigger { player } => player.play,
            Strategies::TitForTat { player } => player.play,
            Strategies::RandomDefect { player } => player.play,
            Strategies::TitForAverageTat { player } => player.play,
        }
    }

    open spec fn with_player_record(&self, p: BasicPlayer) -> Self {
        match self {
            Strategies::AlwaysDefect { player } => Strategies::AlwaysDefect {
                player: player.with_player_record(p),
            },
            Strategies::GrimTrigger { player } => Strategies::GrimTrigger {
                player: player.with_player_record(p),
            },
            Strategies::TitForTat { player } => Strategies::TitForTat {
                player: player.with_player_record(p),
            },
            Strategies::RandomDefect { player } => Strategies::RandomDefect {
                player: player.with_player_record(p),
            },
            Strategies::TitForAverageTat { player } => Strategies::TitForAverageTat {
                player: player.with_player_record(p),
            },
        }
    }

    fn strategy(&mut self) -> (m: i32)
        ensures
            exists|roll: int| 0 <= roll <= 100 && m == old(self)@.next_move(roll),
            final(self)@ == old(self)@.after_move(),
    {
        let ghost start = self@;
        let m = match self {
            Strategies::AlwaysDefect { player } => player.strategy(),
            Strategies::GrimTrigger { player } => player.strategy(),
            Strategies::TitForTat { player } => player.strategy(),
            Strategies::RandomDefect { player } => player.strategy(),
            Strategies::TitForAverageTat { player } => player.strategy(),
        };
        proof {
            if let StrategyState::RandomDefect { probability_percent, .. } = start {
                let r = choose|roll: int|
                    0 <= roll <= 100 && m == random_defect_move(probability_percent, roll);
                assert(m == start.next_move(r));
            } else {
                assert(m == start.next_move(0));
            }
        }
        m
    }

    fn get_strategy(&self) -> (s: String)
        ensures
            s@ == self@.name(),
    {
        match self {
            Strategies::AlwaysDefect { player } => player.get_strategy(),
            Strategies::GrimTrigger { player } => player.get_strategy(),
            Strategies::TitForTat { player } => player.get_strategy(),
            Strategies::RandomDefect { player } => player.get_strategy(),
            Strategies::TitForAverageTat { player } => player.get_strategy(),
        }
    }

    fn get_player(&mut self) -> (p: &mut BasicPlayer) {
        match self {
            Strategies::AlwaysDefect { player } => player.get_player(),
            Strategies::GrimTrigger { player } => player.get_player(),
            Strategies::TitForTat { player } => player.get_player(),
            Strategies::RandomDefect { player } => player.get_player(),
            Strategies::TitForAverageTat { player } => player.get_player(),
        }
    }
}

impl Clone for Strategies {
    fn clone(&self) -> (res: Self)
        ensures
            res@ == self@,
    {
        match self {
            Strategies::AlwaysDefect { player } => Strategies::AlwaysDefect { player: player.clone() },
            Strategies::GrimTrigger { player } => Strategies::GrimTrigger { player: player.clone() },
            Strategies::TitForTat { player } => Strategies::TitForTat { player: player.clone() },
            Strategies::RandomDefect { player } => Strategies::RandomDefect { player: player.clone() },
            Strategies::TitForAverageTat { player } => Strategies::TitForAverageTat {
                player: player.clone(),
            },
        }
    }
}

} // verus!

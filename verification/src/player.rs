use vstd::prelude::*;
use rand::Rng;

verus! {

/// What a player remembers of a game: its name, both sides' moves and
/// payoffs turn by turn, and both running scores.
pub struct PlayerState {
    pub name: Seq<char>,
    pub my_moves: Seq<i32>,
    pub their_moves: Seq<i32>,
    pub my_outcomes: Seq<i32>,
    pub their_outcomes: Seq<i32>,
    pub my_score: int,
    pub their_score: int,
}

/// Adding `delta` to `score` stays within `i32`.
pub open spec fn fits_i32(score: int, delta: int) -> bool {
    i32::MIN <= score + delta <= i32::MAX
}

/// The sum of a sequence of payoffs.
pub open spec fn total(s: Seq<i32>) -> int
    decreases s.len(),
{
    if s.len() == 0 {
        0
    } else {
        total(s.drop_last()) + s.last()
    }
}

impl PlayerState {
    /// The record after one turn in which the moves `mvs` (own, other) were
    /// played and paid `outcome` (own, other).
    pub open spec fn record_turn(self, mvs: (i32, i32), outcome: (i32, i32)) -> PlayerState {
        PlayerState {
            my_moves: self.my_moves.push(mvs.0),
            their_moves: self.their_moves.push(mvs.1),
            my_outcomes: self.my_outcomes.push(outcome.0),
            their_outcomes: self.their_outcomes.push(outcome.1),
            my_score: self.my_score + outcome.0,
            their_score: self.their_score + outcome.1,
            ..self
        }
    }

    /// Both scores can take `round_score` without leaving `i32`.
    pub open spec fn can_score(self, round_score: (i32, i32)) -> bool {
        fits_i32(self.my_score, round_score.0 as int) && fits_i32(self.their_score, round_score.1 as int)
    }

    /// The four histories have one entry per turn, and each score is the
    /// sum of the payoffs recorded for that side.
    pub open spec fn consistent(self) -> bool {
        &&& self.their_moves.len() == self.my_moves.len()
        &&& self.my_outcomes.len() == self.my_moves.len()
        &&& self.their_outcomes.len() == self.my_moves.len()
        &&& self.my_score == total(self.my_outcomes)
        &&& self.their_score == total(self.their_outcomes)
    }
}

/// The record that every strategy keeps of the game it plays.
pub struct BasicPlayer {
    pub name: String,
    pub my_moves: Vec<i32>,
    pub their_moves: Vec<i32>,
    pub my_outcomes: Vec<i32>,
    pub their_outcomes: Vec<i32>,
    pub my_score: i32,
    pub their_score: i32,
}

impl View for BasicPlayer {
    type V = PlayerState;

    open spec fn view(&self) -> PlayerState {
        PlayerState {
            name: self.name@,
            my_moves: self.my_moves@,
            their_moves: self.their_moves@,
            my_outcomes: self.my_outcomes@,
            their_outcomes: self.their_outcomes@,
            my_score: self.my_score as int,
            their_score: self.their_score as int,
        }
    }
}

/// The accessors and updates of a player's record.
pub trait Player {
    /// Both scores can take `round_score` without leaving `i32`.
    spec fn room_for(&self, round_score: (i32, i32)) -> bool;

    fn get_name(&self) -> &str;

    fn get_my_score(&self) -> i32;

    fn get_their_score(&self) -> i32;

    fn get_my_moves(&self) -> &Vec<i32>;

    fn get_their_moves(&self) -> &Vec<i32>;

    fn get_my_outcomes(&self) -> &Vec<i32>;

    fn get_their_outcomes(&self) -> &Vec<i32>;

    fn update_score(&mut self, round_score: (i32, i32))
        requires
            old(self).room_for(round_score),
    ;

    fn read_mv(&mut self, read_mvs: (i32, i32), outcome: (i32, i32))
        requires
            old(self).room_for(outcome),
    ;
}

impl BasicPlayer {
    /// A player named "john" with no history and both scores at zero.
    pub fn new() -> (p: BasicPlayer)
        ensures
            p@.name == "john"@,
            p@.my_moves == Seq::<i32>::empty(),
            p@.their_moves == Seq::<i32>::empty(),
            p@.my_outcomes == Seq::<i32>::empty(),
            p@.their_outcomes == Seq::<i32>::empty(),
            p@.my_score == 0,
            p@.their_score == 0,
    {
        BasicPlayer {
            name: String::from_str("john"),
            my_score: 0,
            their_score: 0,
            my_moves: Vec::new(),
            their_moves: Vec::new(),
            my_outcomes: Vec::new(),
            their_outcomes: Vec::new(),
        }
    }
}

impl Clone for BasicPlayer {
    fn clone(&self) -> (res: Self)
        ensures
            res@ == self@,
    {
        let r = BasicPlayer {
            name: self.name.clone(),
            my_moves: self.my_moves.clone(),
            their_moves: self.their_moves.clone(),
            my_outcomes: self.my_outcomes.clone(),
            their_outcomes: self.their_outcomes.clone(),
            my_score: self.my_score,
            their_score: self.their_score,
        };
        proof {
            assert(r.my_moves@ =~= self.my_moves@);
            assert(r.their_moves@ =~= self.their_moves@);
            assert(r.my_outcomes@ =~= self.my_outcomes@);
            assert(r.their_outcomes@ =~= self.their_outcomes@);
        }
        r
    }
}

impl Player for BasicPlayer {
    open spec fn room_for(&self, round_score: (i32, i32)) -> bool {
        self@.can_score(round_score)
    }

    fn get_name(&self) -> (name: &str)
        ensures
            name@ == self.name@,
    {
        self.name.as_str()
    }

    fn get_my_score(&self) -> (s: i32)
        ensures
            s == self.my_score,
    {
        self.my_score
    }

    fn get_their_score(&self) -> (s: i32)
        ensures
            s == self.their_score,
    {
        self.their_score
    }

    fn get_my_moves(&self) -> (v: &Vec<i32>)
        ensures
            v@ == self.my_moves@,
    {
        &self.my_moves
    }

    fn get_their_moves(&self) -> (v: &Vec<i32>)
        ensures
            v@ == self.their_moves@,
    {
        &self.their_moves
    }

    fn get_my_outcomes(&self) -> (v: &Vec<i32>)
        ensures
            v@ == self.my_outcomes@,
    {
        &self.my_outcomes
    }

    fn get_their_outcomes(&self) -> (v: &Vec<i32>)
        ensures
            v@ == self.their_outcomes@,
    {
        &self.their_outcomes
    }

    fn update_score(&mut self, round_score: (i32, i32))
        ensures
            final(self)@ == (PlayerState {
                my_score: old(self)@.my_score + round_score.0,
                their_score: old(self)@.their_score + round_score.1,
                ..old(self)@
            }),
    {
        self.my_score += round_score.0;
        self.their_score += round_score.1;
    }

    fn read_mv(&mut self, read_mvs: (i32, i32), outcome: (i32, i32))
        ensures
            final(self)@ == old(self)@.record_turn(read_mvs, outcome),
    {
        self.my_moves.push(read_mvs.0);
        self.their_moves.push(read_mvs.1);
        self.my_outcomes.push(outcome.0);
        self.their_outcomes.push(outcome.1);
        self.update_score(outcome);
    }
}


/// A move is either cooperation (0) or defection (1).
pub open spec fn is_move(m: int) -> bool {
    m == 0 || m == 1
}

/// Tit for tat repeats the other side's last move, and cooperates first.
pub open spec fn tit_for_tat_move(their: Seq<i32>) -> i32 {
    if their.len() > 0 {
        their.last()
    } else {
        0
    }
}

/// Grim trigger defects for good once the other side has defected.
pub open spec fn grim_trigger_move(trig: bool, their: Seq<i32>) -> i32 {
    if trig {
        1
    } else if their.len() == 0 {
        0
    } else if their.last() == 0 {
        0
    } else {
        1
    }
}

/// Whether grim trigger has been set off after deciding on `their`.
pub open spec fn grim_trigger_after(trig: bool, their: Seq<i32>) -> bool {
    trig || (their.len() > 0 && their.last() != 0)
}

/// Random defect defects when the roll falls below its probability
/// (a percentage).
pub open spec fn random_defect_move(probability_percent: int, roll: int) -> i32 {
    if probability_percent > roll {
        1
    } else {
        0
    }
}

/// The running tally of tit for average tat after one decision: it steps up
/// after cooperation and down after defection, but never leaves -5..=5 by
/// that step (a step that would leave the band is not taken).
pub open spec fn average_memory_after(memory: int, their: Seq<i32>) -> int {
    if their.len() == 0 {
        memory
    } else {
        let stepped = if their.last() == 0 {
            memory + 1
        } else {
            memory - 1
        };
        if -5 <= stepped <= 5 {
            stepped
        } else {
            memory
        }
    }
}

/// Tit for average tat defects while its tally is negative.
pub open spec fn average_tat_move(memory: int, their: Seq<i32>) -> i32 {
    if their.len() == 0 {
        0
    } else if average_memory_after(memory, their) < 0 {
        1
    } else {
        0
    }
}

/// A tally whose step and square stay within `i32`.
pub open spec fn memory_in_range(memory: int) -> bool {
    -46339 <= memory <= 46339
}

/// A player that picks each move from what it has seen.
pub trait Strategy: Sized {
    /// `strategy` can run on this state without arithmetic overflow.
    spec fn move_ready(&self) -> bool;

    /// The record of the game that this strategy keeps.
    spec fn player_record(&self) -> BasicPlayer;

    /// This strategy with its record replaced by `p`.
    spec fn with_player_record(&self, p: BasicPlayer) -> Self;

    fn strategy(&mut self) -> i32
        requires
            old(self).move_ready(),
    ;

    fn get_strategy(&self) -> String;

    fn get_player(&mut self) -> (p: &mut BasicPlayer)
        ensures
            *p == old(self).player_record(),
            *final(self) == old(self).with_player_record(*final(p)),
    ;
}

/// Repeats the other side's last move.
pub struct TitForTat {
    pub play: BasicPlayer,
}

/// Cooperates until the other side defects once, then always defects.
pub struct GrimTrigger {
    pub play: BasicPlayer,
    pub trig: bool,
}

/// Always defects.
pub struct AlwaysDefect {
    pub play: BasicPlayer,
}

/// Defects at random, with the given probability in percent.
pub struct RandomDefect {
    pub play: BasicPlayer,
    pub probability_percent: i32,
}

/// Defects while its tally of the other side's moves is negative.
pub struct TitForAverageTat {
    pub play: BasicPlayer,
    pub memory: i32,
}

/// A whole number drawn from 0 to 100 inclusive.
///
/// Calls `rand::Rng::gen_range(0..=100)` on `rand::thread_rng()`; the
/// contract claims only the range of the result, which is left to chance.
#[verifier::external_body]
pub(crate) fn roll_percent() -> (r: i32)
    ensures
        0 <= r <= 100,
{
    rand::thread_rng().gen_range(0..=100)
}

impl Strategy for TitForTat {
    open spec fn move_ready(&self) -> bool {
        true
    }

    open spec fn player_record(&self) -> BasicPlayer {
        self.play
    }

    open spec fn with_player_record(&self, p: BasicPlayer) -> Self {
        TitForTat { play: p }
    }

    fn strategy(&mut self) -> (m: i32)
        ensures
            m == tit_for_tat_move(old(self).play.their_moves@),
            *final(self) == *old(self),
    {
        let n = self.play.their_moves.len();
        if n > 0 {
            self.play.their_moves[n - 1]
        } else {
            0
        }
    }

    fn get_strategy(&self) -> (s: String)
        ensures
            s@ == "TitForTat"@,
    {
        String::from_str("TitForTat")
    }

    fn get_player(&mut self) -> (p: &mut BasicPlayer) {
        &mut self.play
    }
}

impl Strategy for GrimTrigger {
    open spec fn move_ready(&self) -> bool {
        true
    }

    open spec fn player_record(&self) -> BasicPlayer {
        self.play
    }

    open spec fn with_player_record(&self, p: BasicPlayer) -> Self {
        GrimTrigger { play: p, ..*self }
    }

    fn strategy(&mut self) -> (m: i32)
        ensures
            m == grim_trigger_move(old(self).trig, old(self).play.their_moves@),
            final(self).trig == grim_trigger_after(old(self).trig, old(self).play.their_moves@),
            final(self).play == old(self).play,
    {
        if self.trig {
            return 1;
        }
        let n = self.play.their_moves.len();
        if n == 0 {
            0
        } else if self.play.their_moves[n - 1] == 0 {
            0
        } else {
            self.trig = true;
            1
        }
    }

    fn get_strategy(&self) -> (s: String)
        ensures
            s@ == "GrimTrigger"@,
    {
        String::from_str("GrimTrigger")
    }

    fn get_player(&mut self) -> (p: &mut BasicPlayer) {
        &mut self.play
    }
}

impl Strategy for AlwaysDefect {
    open spec fn move_ready(&self) -> bool {
        true
    }

    open spec fn player_record(&self) -> BasicPlayer {
        self.play
    }

    open spec fn with_player_record(&self, p: BasicPlayer) -> Self {
        AlwaysDefect { play: p }
    }

    fn strategy(&mut self) -> (m: i32)
        ensures
            m == 1,
            *final(self) == *old(self),
    {
        1
    }

    fn get_strategy(&self) -> (s: String)
        ensures
            s@ == "AlwaysDefect"@,
    {
        String::from_str("AlwaysDefect")
    }

    fn get_player(&mut self) -> (p: &mut BasicPlayer) {
        &mut self.play
    }
}

impl RandomDefect {
    /// The move for a given roll from 0 to 100.
    pub fn move_for_roll(&self, roll: i32) -> (m: i32)
        ensures
            m == random_defect_move(self.probability_percent as int, roll as int),
    {
        if self.probability_percent > roll {
            1
        } else {
            0
        }
    }
}

impl Strategy for RandomDefect {
    open spec fn move_ready(&self) -> bool {
        true
    }

    open spec fn player_record(&self) -> BasicPlayer {
        self.play
    }

    open spec fn with_player_record(&self, p: BasicPlayer) -> Self {
        RandomDefect { play: p, ..*self }
    }

    fn strategy(&mut self) -> (m: i32)
        ensures
            exists|roll: int|
                0 <= roll <= 100 && m == random_defect_move(
                    old(self).probability_percent as int,
                    roll,
                ),
            *final(self) == *old(self),
    {
        let roll = roll_percent();
        self.move_for_roll(roll)
    }

    fn get_strategy(&self) -> (s: String)
        ensures
            s@ == "RandomDefect"@,
    {
        String::from_str("RandomDefect")
    }

    fn get_player(&mut self) -> (p: &mut BasicPlayer) {
        &mut self.play
    }
}

/// A tally stepped once stays in `i32`, and its square exceeds 25 exactly
/// when it has left -5..=5.
proof fn lemma_square_leaves_band(m: int)
    requires
        -46340 <= m <= 46340,
    ensures
        0 <= m * m <= i32::MAX,
        (m * m > 25) <==> !(-5 <= m <= 5),
{
    if -5 <= m <= 5 {
        assert(m * m <= 25) by (nonlinear_arith)
            requires
                -5 <= m <= 5,
        ;
    } else {
        assert(m * m > 25) by (nonlinear_arith)
            requires
                !(-5 <= m <= 5),
        ;
    }
    assert(0 <= m * m <= 46340 * 46340) by (nonlinear_arith)
        requires
            -46340 <= m <= 46340,
    ;
}

impl Strategy for TitForAverageTat {
    open spec fn move_ready(&self) -> bool {
        memory_in_range(self.memory as int)
    }

    open spec fn player_record(&self) -> BasicPlayer {
        self.play
    }

    open spec fn with_player_record(&self, p: BasicPlayer) -> Self {
        TitForAverageTat { play: p, ..*self }
    }

    fn strategy(&mut self) -> (m: i32)
        ensures
            m == average_tat_move(old(self).memory as int, old(self).play.their_moves@),
            final(self).memory == average_memory_after(
                old(self).memory as int,
                old(self).play.their_moves@,
            ),
            final(self).play == old(self).play,
    {
        let n = self.play.their_moves.len();
        if n == 0 {
            return 0;
        }
        let their_move = self.play.their_moves[n - 1];
        let mut subbed = false;
        if their_move == 0 {
            self.memory += 1;
        } else {
            self.memory -= 1;
            subbed = true;
        }
        proof {
            lemma_square_leaves_band(self.memory as int);
        }
        if self.memory * self.memory > 25 {
            if subbed {
                self.memory += 1;
            } else {
                self.memory -= 1;
            }
        }
        if self.memory < 0 {
            1
        } else {
            0
        }
    }

    fn get_strategy(&self) -> (s: String)
        ensures
            s@ == "TitForAverageTat"@,
    {
        String::from_str("TitForAverageTat")
    }

    fn get_player(&mut self) -> (p: &mut BasicPlayer) {
        &mut self.play
    }
}


impl Clone for TitForTat {
    fn clone(&self) -> (res: Self)
        ensures
            res.play@ == self.play@,
    {
        TitForTat { play: self.play.clone() }
    }
}

impl Clone for GrimTrigger {
    fn clone(&self) -> (res: Self)
        ensures
            res.play@ == self.play@,
            res.trig == self.trig,
    {
        GrimTrigger { play: self.play.clone(), trig: self.trig }
    }
}

impl Clone for AlwaysDefect {
    fn clone(&self) -> (res: Self)
        ensures
            res.play@ == self.play@,
    {
        AlwaysDefect { play: self.play.clone() }
    }
}

impl Clone for RandomDefect {
    fn clone(&self) -> (res: Self)
        ensures
            res.play@ == self.play@,
            res.probability_percent == self.probability_percent,
    {
        RandomDefect { play: self.play.clone(), probability_percent: self.probability_percent }
    }
}

impl Clone for TitForAverageTat {
    fn clone(&self) -> (res: Self)
        ensures
            res.play@ == self.play@,
            res.memory == self.memory,
    {
        TitForAverageTat { play: self.play.clone(), memory: self.memory }
    }
}

} // verus!

use vstd::prelude::*;
use rand::seq::SliceRandom;
use crate::game::{lemma_payoff_bound, Game, GameState};
use crate::noisemodels::{noisy_move, roll_one_to_hundred, BaseNoiseModel, NoiseState};
use crate::player::{is_move, roll_percent, Player, PlayerState, Strategy};
use crate::strategies::{StrategyState, Strategies};

verus! {

/// The mathematical content of a match set-up.
pub struct ConfigState<A, B> {
    pub player_a: A,
    pub player_a_num: int,
    pub player_b: B,
    pub player_b_num: int,
    pub game: GameState,
    pub num_rounds: int,
    pub num_round_lengths: Seq<i32>,
    pub location: Seq<char>,
    pub noisemodel: NoiseState,
}

/// A match between two strategies: who they are, the game they play, how
/// many rounds of how many turns, where results go, and the noise between
/// them.
pub struct Config<T, U> {
    pub player_a: T,
    pub player_a_num: usize,
    pub player_b: U,
    pub player_b_num: usize,
    pub game: Game,
    pub num_rounds: usize,
    pub num_round_lengths: Vec<i32>,
    pub location: String,
    pub noisemodel: BaseNoiseModel,
}

impl<T: View, U: View> View for Config<T, U> {
    type V = ConfigState<T::V, U::V>;

    open spec fn view(&self) -> ConfigState<T::V, U::V> {
        ConfigState {
            player_a: self.player_a@,
            player_a_num: self.player_a_num as int,
            player_b: self.player_b@,
            player_b_num: self.player_b_num as int,
            game: self.game@,
            num_rounds: self.num_rounds as int,
            num_round_lengths: self.num_round_lengths@,
            location: self.location@,
            noisemodel: self.noisemodel@,
        }
    }
}

/// A match between two tournament strategies.
pub type MatchState = ConfigState<StrategyState, StrategyState>;

/// The draws of one turn: one from 0 to 100 for each strategy (consulted by
/// random defect only) and one from 1 to 100 for each move's passage
/// through the noise.
pub struct TurnRolls {
    pub strategy_a: int,
    pub strategy_b: int,
    pub noise_a: int,
    pub noise_b: int,
}

impl TurnRolls {
    pub open spec fn in_range(self) -> bool {
        &&& 0 <= self.strategy_a <= 100
        &&& 0 <= self.strategy_b <= 100
        &&& 1 <= self.noise_a <= 100
        &&& 1 <= self.noise_b <= 100
    }
}

/// Every turn's draws are in range.
pub open spec fn rolls_in_range(rolls: Seq<TurnRolls>) -> bool {
    forall|k: int| 0 <= k < rolls.len() ==> (#[trigger] rolls[k]).in_range()
}

/// The moves that arrive in a turn: each strategy's choice after the noise.
pub open spec fn turn_moves(c: MatchState, r: TurnRolls) -> (i32, i32) {
    (
        noisy_move(c.noisemodel.chance, c.player_a.next_move(r.strategy_a), r.noise_a),
        noisy_move(c.noisemodel.chance, c.player_b.next_move(r.strategy_b), r.noise_b),
    )
}

/// One turn: both strategies choose, the noise acts on both moves, the
/// game pays both, and each side records the moves and payoffs from its
/// own point of view.
pub open spec fn turn(c: MatchState, r: TurnRolls) -> MatchState {
    let mv = turn_moves(c, r);
    let out = c.game.outcome(mv.0 as int, mv.1 as int);
    ConfigState {
        player_a: c.player_a.after_move().record_turn((mv.0, mv.1), (out.0, out.1)),
        player_b: c.player_b.after_move().record_turn((mv.1, mv.0), (out.1, out.0)),
        ..c
    }
}

/// The match after one turn for each entry of `rolls`, in order.
pub open spec fn play(c: MatchState, rolls: Seq<TurnRolls>) -> MatchState
    decreases rolls.len(),
{
    if rolls.len() == 0 {
        c
    } else {
        turn(play(c, rolls.drop_last()), rolls.last())
    }
}

/// `end` is what `start` becomes after `turns` turns, for some draws.
pub open spec fn reachable(start: MatchState, end: MatchState, turns: int) -> bool {
    exists|rolls: Seq<TurnRolls>|
        #![trigger play(start, rolls)]
        rolls.len() == turns && rolls_in_range(rolls) && end == play(start, rolls)
}

/// A turn with these draws can be played: both strategies can choose, the
/// game pays cooperation and defection, and the payoffs fit both records.
pub open spec fn turn_ok(c: MatchState, r: TurnRolls) -> bool {
    let mv = turn_moves(c, r);
    let out = c.game.outcome(mv.0 as int, mv.1 as int);
    &&& c.player_a.can_play()
    &&& c.player_b.can_play()
    &&& c.game.covers_moves()
    &&& c.player_a.record().can_score((out.0, out.1))
    &&& c.player_b.record().can_score((out.1, out.0))
}

/// Both scores of a record stay within `i32` through `turns` more payoffs
/// of size at most `bound`.
pub open spec fn has_room(p: PlayerState, turns: int, bound: int) -> bool {
    &&& i32::MIN + turns * bound <= p.my_score <= i32::MAX - turns * bound
    &&& i32::MIN + turns * bound <= p.their_score <= i32::MAX - turns * bound
}

/// Whatever the draws, `turns` turns of this match can be played.
pub open spec fn can_play_turns(c: MatchState, turns: int) -> bool {
    &&& c.player_a.can_play()
    &&& c.player_b.can_play()
    &&& c.game.covers_moves()
    &&& has_room(c.player_a.record(), turns, c.game.payoff_bound())
    &&& has_room(c.player_b.record(), turns, c.game.payoff_bound())
}

/// The number of turns in a round of the given length (a negative length
/// plays none).
pub open spec fn turns_of(len: i32) -> int {
    if len < 0 {
        0
    } else {
        len as int
    }
}

/// A strategy that can play chooses cooperation or defection, and can play
/// again after the turn is recorded, if the other side's move was one of
/// the two.
pub proof fn lemma_strategy_step(s: StrategyState, roll: int, mvs: (i32, i32), out: (i32, i32))
    requires
        s.can_play(),
        is_move(mvs.1 as int),
    ensures
        is_move(s.next_move(roll) as int),
        s.after_move().record() == s.record(),
        s.after_move().record_turn(mvs, out).can_play(),
        s.after_move().record_turn(mvs, out).record() == s.record().record_turn(mvs, out),
{
}

proof fn lemma_room_step(p: PlayerState, turns: int, bound: int, out: (i32, i32))
    requires
        turns >= 1,
        bound >= 0,
        has_room(p, turns, bound),
        -bound <= out.0 <= bound,
        -bound <= out.1 <= bound,
    ensures
        p.can_score(out),
        has_room(p.record_turn((0, 0), out), turns - 1, bound),
{
    assert(turns * bound == (turns - 1) * bound + bound) by (nonlinear_arith);
    assert((turns - 1) * bound >= 0) by (nonlinear_arith)
        requires
            turns >= 1,
            bound >= 0,
    ;
}

proof fn lemma_room_fewer(p: PlayerState, turns: int, fewer: int, bound: int)
    requires
        0 <= fewer <= turns,
        bound >= 0,
        has_room(p, turns, bound),
    ensures
        has_room(p, fewer, bound),
{
    assert(fewer * bound <= turns * bound) by (nonlinear_arith)
        requires
            0 <= fewer <= turns,
            bound >= 0,
    ;
}

/// A match that can play some number of turns can play any fewer.
pub proof fn lemma_fewer_turns(c: MatchState, turns: int, fewer: int)
    requires
        0 <= fewer <= turns,
        can_play_turns(c, turns),
    ensures
        can_play_turns(c, fewer),
{
    lemma_payoff_bound(c.game);
    lemma_room_fewer(c.player_a.record(), turns, fewer, c.game.payoff_bound());
    lemma_room_fewer(c.player_b.record(), turns, fewer, c.game.payoff_bound());
}

/// A match that can play `turns` turns plays any one of them, and can then
/// play `turns - 1` more.
pub proof fn lemma_turn_step(c: MatchState, r: TurnRolls, turns: int)
    requires
        turns >= 1,
        r.in_range(),
        can_play_turns(c, turns),
    ensures
        turn_ok(c, r),
        can_play_turns(turn(c, r), turns - 1),
        turn(c, r).game == c.game,
{
    let mv = turn_moves(c, r);
    let out = c.game.outcome(mv.0 as int, mv.1 as int);
    lemma_strategy_step(c.player_a, r.strategy_a, (0, 0), (0, 0));
    lemma_strategy_step(c.player_b, r.strategy_b, (0, 0), (0, 0));
    assert(is_move(mv.0 as int) && is_move(mv.1 as int));
    lemma_strategy_step(c.player_a, r.strategy_a, (mv.0, mv.1), (out.0, out.1));
    lemma_strategy_step(c.player_b, r.strategy_b, (mv.1, mv.0), (out.1, out.0));
    lemma_payoff_bound(c.game);
    let b = c.game.payoff_bound();
    assert(-b <= out.0 <= b && -b <= out.1 <= b);
    lemma_room_step(c.player_a.record(), turns, b, (out.0, out.1));
    lemma_room_step(c.player_b.record(), turns, b, (out.1, out.0));
}

impl Clone for Config<Strategies, Strategies> {
    fn clone(&self) -> (res: Self)
        ensures
            res@ == self@,
    {
        let lens = self.num_round_lengths.clone();
        proof {
            assert(lens@ =~= self.num_round_lengths@);
        }
        Config {
            player_a: self.player_a.clone(),
            player_a_num: self.player_a_num,
            player_b: self.player_b.clone(),
            player_b_num: self.player_b_num,
            game: self.game.clone(),
            num_rounds: self.num_rounds,
            num_round_lengths: lens,
            location: self.location.clone(),
            noisemodel: self.noisemodel.clone(),
        }
    }
}

impl Config<Strategies, Strategies> {
    /// Plays one turn with the given draws.
    pub fn play_turn_with_rolls(
        &mut self,
        strategy_roll_a: i32,
        strategy_roll_b: i32,
        noise_roll_a: i32,
        noise_roll_b: i32,
    )
        requires
            turn_ok(
                old(self)@,
                TurnRolls {
                    strategy_a: strategy_roll_a as int,
                    strategy_b: strategy_roll_b as int,
                    noise_a: noise_roll_a as int,
                    noise_b: noise_roll_b as int,
                },
            ),
        ensures
            final(self)@ == turn(
                old(self)@,
                TurnRolls {
                    strategy_a: strategy_roll_a as int,
                    strategy_b: strategy_roll_b as int,
                    noise_a: noise_roll_a as int,
                    noise_b: noise_roll_b as int,
                },
            ),
    {
        let mut move_a = self.player_a.strategy_for_roll(strategy_roll_a);
        let mut move_b = self.player_b.strategy_for_roll(strategy_roll_b);
        move_a = self.noisemodel.modify_for_roll(move_a, noise_roll_a);
        move_b = self.noisemodel.modify_for_roll(move_b, noise_roll_b);
        let moves_a = (move_a, move_b);
        let moves_b = (move_b, move_a);
        let outcome_a = self.game.turn_outcome(move_a as usize, move_b as usize);
        let outcome_b = (outcome_a.1, outcome_a.0);
        let tmp_a = self.player_a.get_player();
        tmp_a.read_mv(moves_a, outcome_a);
        let tmp_b = self.player_b.get_player();
        tmp_b.read_mv(moves_b, outcome_b);
    }

    /// Plays one turn, drawing its randomness.
    pub fn play_turn(&mut self)
        requires
            can_play_turns(old(self)@, 1),
        ensures
            exists|r: TurnRolls| r.in_range() && final(self)@ == turn(old(self)@, r),
    {
        let ghost c = self@;
        let strategy_roll_a = roll_percent();
        let strategy_roll_b = roll_percent();
        let noise_roll_a = roll_one_to_hundred();
        let noise_roll_b = roll_one_to_hundred();
        let ghost r = TurnRolls {
            strategy_a: strategy_roll_a as int,
            strategy_b: strategy_roll_b as int,
            noise_a: noise_roll_a as int,
            noise_b: noise_roll_b as int,
        };
        proof {
            lemma_turn_step(c, r, 1);
        }
        self.play_turn_with_rolls(strategy_roll_a, strategy_roll_b, noise_roll_a, noise_roll_b);
        assert(r.in_range() && self@ == turn(c, r));
    }
}


fn room_for_turns(p: &crate::player::BasicPlayer, turns: i64, bound: i64) -> (b: bool)
    requires
        0 <= turns <= i32::MAX,
        0 <= bound <= 0x8000_0000,
    ensures
        b == has_room(p@, turns as int, bound as int),
{
    assert(0 <= turns * bound <= 0x7fff_ffff * 0x8000_0000) by (nonlinear_arith)
        requires
            0 <= turns <= 0x7fff_ffff,
            0 <= bound <= 0x8000_0000,
    ;
    let need = turns * bound;
    let low = i32::MIN as i64 + need;
    let high = i32::MAX as i64 - need;
    low <= p.my_score as i64 && (p.my_score as i64) <= high && low <= p.their_score as i64 && (
    p.their_score as i64) <= high
}

/// Whether `run_instance` can play every round of this match whatever the
/// draws: the lengths cover every round, both strategies can play, the
/// game pays cooperation and defection, and no score can leave `i32`.
pub fn can_run_instance(config: &Config<Strategies, Strategies>) -> (ok: bool)
    ensures
        ok == (config.num_rounds <= config.num_round_lengths.len() && forall|idx: int|
            0 <= idx < config.num_rounds ==> can_play_turns(
                config@,
                turns_of(#[trigger] config.num_round_lengths@[idx]),
            )),
{
    if config.num_rounds > config.num_round_lengths.len() {
        return false;
    }
    if !(config.player_a.can_play() && config.player_b.can_play() && config.game.covers_moves()) {
        assert(config.num_rounds == 0 || !can_play_turns(
            config@,
            turns_of(config.num_round_lengths@[0]),
        ));
        return config.num_rounds == 0;
    }
    let bound = config.game.payoff_bound();
    proof {
        lemma_payoff_bound(config.game@);
    }
    for idx in 0..config.num_rounds
        invariant
            config.num_rounds <= config.num_round_lengths.len(),
            config@.player_a.can_play(),
            config@.player_b.can_play(),
            config@.game.covers_moves(),
            bound == config@.game.payoff_bound(),
            0 <= bound <= 0x8000_0000,
            forall|i: int|
                0 <= i < idx ==> can_play_turns(
                    config@,
                    turns_of(#[trigger] config.num_round_lengths@[i]),
                ),
    {
        let len = config.num_round_lengths[idx];
        let turns: i64 = if len < 0 {
            0
        } else {
            len as i64
        };
        if !(room_for_turns(config.player_a.player(), turns, bound) && room_for_turns(
            config.player_b.player(),
            turns,
            bound,
        )) {
            assert(!can_play_turns(config@, turns_of(config.num_round_lengths@[idx as int])));
            return false;
        }
    }
    true
}

/// Plays each round of a match, from a fresh copy of the set-up: round
/// `idx` plays `num_round_lengths[idx]` turns. The copies after their
/// rounds come back in round order.
pub fn run_instance(config: Config<Strategies, Strategies>) -> (configs: Vec<
    Config<Strategies, Strategies>,
>)
    requires
        config.num_rounds <= config.num_round_lengths.len(),
        forall|idx: int|
            0 <= idx < config.num_rounds ==> can_play_turns(
                config@,
                turns_of(#[trigger] config.num_round_lengths@[idx]),
            ),
    ensures
        configs.len() == config.num_rounds,
        forall|idx: int|
            0 <= idx < config.num_rounds ==> reachable(
                config@,
                #[trigger] configs@[idx]@,
                turns_of(config.num_round_lengths@[idx]),
            ),
{
    let mut configs: Vec<Config<Strategies, Strategies>> = Vec::new();
    let num_rounds = config.num_rounds;
    for idx in 0..num_rounds
        invariant
            num_rounds == config.num_rounds,
            config.num_rounds <= config.num_round_lengths.len(),
            forall|i: int|
                0 <= i < config.num_rounds ==> can_play_turns(
                    config@,
                    turns_of(#[trigger] config.num_round_lengths@[i]),
                ),
            configs.len() == idx,
            forall|i: int|
                0 <= i < idx ==> reachable(
                    config@,
                    #[trigger] configs@[i]@,
                    turns_of(config.num_round_lengths@[i]),
                ),
    {
        let mut tmp_cfg = config.clone();
        let len = config.num_round_lengths[idx];
        let ghost turns = turns_of(len);
        let ghost mut rolls: Seq<TurnRolls> = Seq::empty();
        assert(can_play_turns(config@, turns));
        let mut k: i32 = 0;
        while k < len
            invariant
                turns == turns_of(len),
                0 <= k,
                k <= len || (k == 0 && len < 0),
                rolls.len() == k,
                rolls_in_range(rolls),
                tmp_cfg@ == play(config@, rolls),
                can_play_turns(tmp_cfg@, turns - k),
            decreases len - k,
        {
            let ghost before = tmp_cfg@;
            proof {
                lemma_fewer_turns(before, turns - k, 1);
            }
            tmp_cfg.play_turn();
            proof {
                let r = choose|r: TurnRolls| r.in_range() && tmp_cfg@ == turn(before, r);
                lemma_turn_step(before, r, turns - k);
                let next = rolls.push(r);
                assert(next.drop_last() =~= rolls);
                rolls = next;
            }
            k = k + 1;
        }
        proof {
            assert(rolls.len() == turns);
            assert(reachable(config@, tmp_cfg@, turns));
        }
        configs.push(tmp_cfg);
    }
    configs
}


/// The strategies of a list, as values.
pub open spec fn strategy_views(s: Seq<Strategies>) -> Seq<StrategyState> {
    s.map_values(|x: Strategies| x@)
}

/// The set-up of a match between the players at `i` and `j` of `players`.
pub open spec fn pair_config(
    game: GameState,
    players: Seq<StrategyState>,
    round_lengths: Seq<i32>,
    location: Seq<char>,
    noise: NoiseState,
    i: int,
    j: int,
) -> MatchState {
    ConfigState {
        player_a: players[i],
        player_a_num: i,
        player_b: players[j],
        player_b_num: j,
        game,
        num_rounds: round_lengths.len() as int,
        num_round_lengths: round_lengths,
        location,
        noisemodel: noise,
    }
}

/// The pairs `(i, j)` with `i < j < n`, for one fixed `i`, by increasing `j`.
pub open spec fn pair_row(i: int, n: int) -> Seq<(int, int)> {
    Seq::new((n - i - 1) as nat, |k: int| (i, i + 1 + k))
}

/// The pairs `(i, j)` with `i < rows` and `i < j < n`, ordered by `i` and
/// then by `j`.
pub open spec fn round_robin_pairs(rows: int, n: int) -> Seq<(int, int)>
    decreases rows,
{
    if rows <= 0 {
        Seq::empty()
    } else {
        round_robin_pairs(rows - 1, n) + pair_row(rows - 1, n)
    }
}

/// A match for every pair of distinct players, the lower-numbered one
/// first, ordered by the first player and then by the second; each plays
/// the rounds `round_lengths` of `game` through `noise`.
pub fn generate_round_robin_configs(
    game: Game,
    players: Vec<Strategies>,
    round_lengths: Vec<i32>,
    location: String,
    noise: BaseNoiseModel,
) -> (configs: Vec<Config<Strategies, Strategies>>)
    ensures
        configs.len() == round_robin_pairs(players.len() as int, players.len() as int).len(),
        forall|k: int|
            #![trigger configs@[k]]
            0 <= k < configs.len() ==> configs@[k]@ == pair_config(
                game@,
                strategy_views(players@),
                round_lengths@,
                location@,
                noise@,
                round_robin_pairs(players.len() as int, players.len() as int)[k].0,
                round_robin_pairs(players.len() as int, players.len() as int)[k].1,
            ),
{
    let mut configs: Vec<Config<Strategies, Strategies>> = Vec::new();
    let n = players.len();
    let ghost views = strategy_views(players@);
    for i_idx in 0..n
        invariant
            n == players.len(),
            views == strategy_views(players@),
            configs.len() == round_robin_pairs(i_idx as int, n as int).len(),
            forall|k: int|
                #![trigger configs@[k]]
                0 <= k < configs.len() ==> configs@[k]@ == pair_config(
                    game@,
                    views,
                    round_lengths@,
                    location@,
                    noise@,
                    round_robin_pairs(i_idx as int, n as int)[k].0,
                    round_robin_pairs(i_idx as int, n as int)[k].1,
                ),
    {
        let ghost done = round_robin_pairs(i_idx as int, n as int);
        let ghost upto = done + pair_row(i_idx as int, n as int);
        assert(upto == round_robin_pairs(i_idx + 1, n as int));
        for j_idx in i_idx + 1..n
            invariant
                n == players.len(),
                i_idx < n,
                views == strategy_views(players@),
                done == round_robin_pairs(i_idx as int, n as int),
                upto == done + pair_row(i_idx as int, n as int),
                configs.len() == done.len() + (j_idx - i_idx - 1),
                forall|k: int|
                    #![trigger configs@[k]]
                    0 <= k < configs.len() ==> configs@[k]@ == pair_config(
                        game@,
                        views,
                        round_lengths@,
                        location@,
                        noise@,
                        upto[k].0,
                        upto[k].1,
                    ),
        {
            let lens = round_lengths.clone();
            proof {
                assert(lens@ =~= round_lengths@);
            }
            let tmp_cfg = Config {
                player_a: players[i_idx].clone(),
                player_a_num: i_idx,
                player_b: players[j_idx].clone(),
                player_b_num: j_idx,
                game: game.clone(),
                num_rounds: round_lengths.len(),
                num_round_lengths: lens,
                location: location.clone(),
                noisemodel: noise.clone(),
            };
            assert(upto[configs.len() as int] == (i_idx as int, j_idx as int));
            configs.push(tmp_cfg);
        }
    }
    configs
}

/// A match for each neighbouring pair of players (first and second, third
/// and fourth, and so on); a last player without a neighbour sits out.
pub fn pair_neighbours(
    game: &Game,
    players: &Vec<Strategies>,
    round_lengths: &Vec<i32>,
    location: &String,
    noise: &BaseNoiseModel,
) -> (configs: Vec<Config<Strategies, Strategies>>)
    ensures
        configs.len() == players.len() / 2,
        forall|k: int|
            #![trigger configs@[k]]
            0 <= k < configs.len() ==> configs@[k]@ == pair_config(
                game@,
                strategy_views(players@),
                round_lengths@,
                location@,
                noise@,
                2 * k,
                2 * k + 1,
            ),
{
    let mut configs: Vec<Config<Strategies, Strategies>> = Vec::new();
    let mut i: usize = 0;
    while i + 1 < players.len()
        invariant
            i == 2 * configs.len(),
            i <= players.len(),
            forall|k: int|
                #![trigger configs@[k]]
                0 <= k < configs.len() ==> configs@[k]@ == pair_config(
                    game@,
                    strategy_views(players@),
                    round_lengths@,
                    location@,
                    noise@,
                    2 * k,
                    2 * k + 1,
                ),
        decreases players.len() - i,
    {
        let lens = round_lengths.clone();
        proof {
            assert(lens@ =~= round_lengths@);
        }
        let tmp_cfg = Config {
            player_a: players[i].clone(),
            player_a_num: i,
            player_b: players[i + 1].clone(),
            player_b_num: i + 1,
            game: game.clone(),
            num_rounds: round_lengths.len(),
            num_round_lengths: lens,
            location: location.clone(),
            noisemodel: noise.clone(),
        };
        i += 2;
        configs.push(tmp_cfg);
    }
    configs
}

/// Puts the players in a random order.
///
/// Calls `rand::seq::SliceRandom::shuffle` with `rand::thread_rng()`; the
/// contract claims that the result holds the same players, each as often as
/// before, and leaves their order to chance.
#[verifier::external_body]
fn shuffle_players(players: &mut Vec<Strategies>)
    ensures
        final(players)@.len() == old(players)@.len(),
        final(players)@.to_multiset() == old(players)@.to_multiset(),
{
    players.shuffle(&mut rand::thread_rng());
}

/// Shuffles the players, then pairs each with its neighbour (first with
/// second, third with fourth, ...); numbers are positions after the shuffle.
pub fn generate_axelrod_configs(
    game: Game,
    players: Vec<Strategies>,
    round_lengths: Vec<i32>,
    location: String,
    noise: BaseNoiseModel,
) -> (configs: Vec<Config<Strategies, Strategies>>)
    requires
        players.len() >= 1,
    ensures
        configs.len() == players.len() / 2,
        exists|shuffled: Seq<Strategies>|
            #![trigger shuffled.to_multiset()]
            shuffled.len() == players.len() && shuffled.to_multiset() == players@.to_multiset()
                && forall|k: int|
                #![trigger configs@[k]]
                0 <= k < configs.len() ==> configs@[k]@ == pair_config(
                    game@,
                    strategy_views(shuffled),
                    round_lengths@,
                    location@,
                    noise@,
                    2 * k,
                    2 * k + 1,
                ),
{
    let mut players = players;
    let ghost before = players@;
    shuffle_players(&mut players);
    let configs = pair_neighbours(&game, &players, &round_lengths, &location, &noise);
    assert(players@.to_multiset() == before.to_multiset());
    configs
}

/// The players for a tournament: `num_strats[i]` copies of `strat_types[i]`
/// (none for a count below one), in the order of the types.
pub open spec fn players_by_numbers(types: Seq<StrategyState>, counts: Seq<i32>, upto: int) -> Seq<
    StrategyState,
>
    decreases upto,
{
    if upto <= 0 {
        Seq::empty()
    } else {
        players_by_numbers(types, counts, upto - 1) + Seq::new(
            turns_of(counts[upto - 1]) as nat,
            |k: int| types[upto - 1],
        )
    }
}

/// `num_strats[i]` copies of `strat_types[i]` for each type in turn.
pub fn generate_players_by_numbers(strat_types: Vec<Strategies>, num_strats: Vec<i32>) -> (players:
    Vec<Strategies>)
    requires
        num_strats.len() >= strat_types.len(),
    ensures
        strategy_views(players@) == players_by_numbers(
            strategy_views(strat_types@),
            num_strats@,
            strat_types.len() as int,
        ),
{
    let mut players: Vec<Strategies> = Vec::new();
    let ghost types = strategy_views(strat_types@);
    for i in 0..strat_types.len()
        invariant
            num_strats.len() >= strat_types.len(),
            types == strategy_views(strat_types@),
            strategy_views(players@) == players_by_numbers(types, num_strats@, i as int),
    {
        let ghost start = strategy_views(players@);
        let count = num_strats[i];
        let mut j: i32 = 0;
        while j < count
            invariant
                0 <= j,
                j <= count || j == 0,
                i < strat_types.len(),
                types == strategy_views(strat_types@),
                strategy_views(players@) == start + Seq::new(j as nat, |k: int| types[i as int]),
            decreases count - j,
        {
            let ghost prev = players@;
            let item = strat_types[i].clone();
            players.push(item);
            proof {
                let target = start + Seq::new((j + 1) as nat, |k: int| types[i as int]);
                assert(strategy_views(prev).len() == prev.len());
                assert forall|k: int| 0 <= k < players@.len() implies strategy_views(players@)[k]
                    == target[k] by {
                    if k < prev.len() {
                        assert(players@[k] == prev[k]);
                        assert(strategy_views(prev)[k] == prev[k]@);
                    } else {
                        assert(players@[k] == item);
                    }
                }
                assert(strategy_views(players@) =~= target);
            }
            j += 1;
        }
        assert(strategy_views(players@) =~= players_by_numbers(types, num_strats@, i + 1));
    }
    players
}

/// One player for each entry of `num_strats`, cycling through the first
/// five types.
pub fn generate_players(strat_types: Vec<Strategies>, num_strats: Vec<i32>) -> (players: Vec<
    Strategies,
>)
    requires
        forall|i: int| 0 <= i < num_strats.len() ==> #[trigger] (i % 5) < strat_types.len(),
    ensures
        players.len() == num_strats.len(),
        forall|i: int| 0 <= i < players.len() ==> (#[trigger] players@[i])@ == strat_types@[i % 5]@,
{
    let mut players: Vec<Strategies> = Vec::new();
    for i in 0..num_strats.len()
        invariant
            forall|i: int| 0 <= i < num_strats.len() ==> #[trigger] (i % 5) < strat_types.len(),
            players.len() == i,
            forall|k: int| 0 <= k < players.len() ==> (#[trigger] players@[k])@ == strat_types@[k % 5]@,
    {
        let idx = i % 5;
        assert((i as int) % 5 < strat_types.len());
        players.push(strat_types[idx].clone());
    }
    players
}

} // verus!

use vstd::prelude::*;
use crate::game::GameState;
use crate::noisemodels::{flip_move, noisy_move};
use crate::player::{average_memory_after, is_move, total, PlayerState};
use crate::strategies::StrategyState;
use crate::testbed::{
    pair_row, play, reachable, rolls_in_range, round_robin_pairs, turn, turn_moves, MatchState,
    TurnRolls,
};
use crate::tournament::{knockout_winner, wins_named};

verus! {

/// Each side's record holds the other's from the other point of view: my
/// moves are your moves, my payoffs your opponent's payoffs, my score your
/// opponent's score.
pub open spec fn mirrored(c: MatchState) -> bool {
    let a = c.player_a.record();
    let b = c.player_b.record();
    &&& a.my_moves == b.their_moves
    &&& a.their_moves == b.my_moves
    &&& a.my_outcomes == b.their_outcomes
    &&& a.their_outcomes == b.my_outcomes
    &&& a.my_score == b.their_score
    &&& a.their_score == b.my_score
}

/// Every turn in the record paid what the game pays for its moves; the
/// first player reads the tables with its own move as the row, the second
/// with the other side's.
pub open spec fn follows_game(p: PlayerState, g: GameState, first: bool) -> bool {
    forall|k: int|
        #![trigger p.my_outcomes[k]]
        0 <= k < p.my_moves.len() ==> if first {
            (p.my_outcomes[k], p.their_outcomes[k]) == g.outcome(
                p.my_moves[k] as int,
                p.their_moves[k] as int,
            )
        } else {
            (p.their_outcomes[k], p.my_outcomes[k]) == g.outcome(
                p.their_moves[k] as int,
                p.my_moves[k] as int,
            )
        }
}

/// Every move in the record is cooperation or defection.
pub open spec fn moves_binary(p: PlayerState) -> bool {
    &&& forall|k: int| 0 <= k < p.my_moves.len() ==> is_move(#[trigger] p.my_moves[k] as int)
    &&& forall|k: int| 0 <= k < p.their_moves.len() ==> is_move(#[trigger] p.their_moves[k] as int)
}

proof fn lemma_total_push(s: Seq<i32>, x: i32)
    ensures
        total(s.push(x)) == total(s) + x,
{
    assert(s.push(x).drop_last() =~= s);
}

/// Recording a turn keeps a record consistent: one entry per turn in each
/// history, and each score the sum of that side's payoffs.
pub proof fn law_record_turn_keeps_consistency(p: PlayerState, mvs: (i32, i32), outcome: (i32, i32))
    requires
        p.consistent(),
    ensures
        p.record_turn(mvs, outcome).consistent(),
{
    lemma_total_push(p.my_outcomes, outcome.0);
    lemma_total_push(p.their_outcomes, outcome.1);
}

/// A record with no turns and zero scores is consistent.
pub proof fn law_empty_record_consistent(name: Seq<char>)
    ensures
        (PlayerState {
            name,
            my_moves: Seq::empty(),
            their_moves: Seq::empty(),
            my_outcomes: Seq::empty(),
            their_outcomes: Seq::empty(),
            my_score: 0,
            their_score: 0,
        }).consistent(),
{
}

/// Playing turns leaves everything but the two strategies unchanged, keeps
/// each strategy's kind and name, and adds one entry per turn to each of
/// the four histories of both sides.
pub proof fn law_play_lengths(c: MatchState, rolls: Seq<TurnRolls>)
    ensures
        ({
            let e = play(c, rolls);
            let (a0, b0) = (c.player_a.record(), c.player_b.record());
            let (a1, b1) = (e.player_a.record(), e.player_b.record());
            &&& e == (MatchState { player_a: e.player_a, player_b: e.player_b, ..c })
            &&& e.player_a.kind() == c.player_a.kind()
            &&& e.player_b.kind() == c.player_b.kind()
            &&& a1.name == a0.name
            &&& b1.name == b0.name
            &&& a1.my_moves.len() == a0.my_moves.len() + rolls.len()
            &&& a1.their_moves.len() == a0.their_moves.len() + rolls.len()
            &&& a1.my_outcomes.len() == a0.my_outcomes.len() + rolls.len()
            &&& a1.their_outcomes.len() == a0.their_outcomes.len() + rolls.len()
            &&& b1.my_moves.len() == b0.my_moves.len() + rolls.len()
            &&& b1.their_moves.len() == b0.their_moves.len() + rolls.len()
            &&& b1.my_outcomes.len() == b0.my_outcomes.len() + rolls.len()
            &&& b1.their_outcomes.len() == b0.their_outcomes.len() + rolls.len()
        }),
    decreases rolls.len(),
{
    if rolls.len() > 0 {
        law_play_lengths(c, rolls.drop_last());
    }
}

/// Playing turns keeps the two records mirror images of each other.
pub proof fn law_play_keeps_mirror(c: MatchState, rolls: Seq<TurnRolls>)
    requires
        mirrored(c),
    ensures
        mirrored(play(c, rolls)),
    decreases rolls.len(),
{
    if rolls.len() > 0 {
        law_play_keeps_mirror(c, rolls.drop_last());
    }
}

/// Playing turns keeps both records consistent: the scores stay the sums
/// of the payoffs recorded.
pub proof fn law_play_keeps_consistency(c: MatchState, rolls: Seq<TurnRolls>)
    requires
        c.player_a.record().consistent(),
        c.player_b.record().consistent(),
    ensures
        play(c, rolls).player_a.record().consistent(),
        play(c, rolls).player_b.record().consistent(),
    decreases rolls.len(),
{
    if rolls.len() > 0 {
        let m = play(c, rolls.drop_last());
        law_play_keeps_consistency(c, rolls.drop_last());
        let mv = turn_moves(m, rolls.last());
        let out = m.game.outcome(mv.0 as int, mv.1 as int);
        law_record_turn_keeps_consistency(m.player_a.record(), (mv.0, mv.1), (out.0, out.1));
        law_record_turn_keeps_consistency(m.player_b.record(), (mv.1, mv.0), (out.1, out.0));
    }
}

/// Playing turns keeps every recorded payoff the game's payoff for the
/// recorded moves.
pub proof fn law_play_follows_game(c: MatchState, rolls: Seq<TurnRolls>)
    requires
        c.player_a.record().consistent(),
        c.player_b.record().consistent(),
        follows_game(c.player_a.record(), c.game, true),
        follows_game(c.player_b.record(), c.game, false),
    ensures
        follows_game(play(c, rolls).player_a.record(), c.game, true),
        follows_game(play(c, rolls).player_b.record(), c.game, false),
    decreases rolls.len(),
{
    if rolls.len() > 0 {
        let m = play(c, rolls.drop_last());
        law_play_follows_game(c, rolls.drop_last());
        law_play_keeps_consistency(c, rolls.drop_last());
        law_play_lengths(c, rolls.drop_last());
        let e = turn(m, rolls.last());
        let a = e.player_a.record();
        let b = e.player_b.record();
        assert forall|k: int| #![trigger a.my_outcomes[k]] 0 <= k < a.my_moves.len() implies (a.my_outcomes[k], a.their_outcomes[k])
            == c.game.outcome(a.my_moves[k] as int, a.their_moves[k] as int) by {
            if k < m.player_a.record().my_moves.len() {
                assert(m.player_a.record().my_outcomes[k] == a.my_outcomes[k]);
            }
        }
        assert forall|k: int| #![trigger b.my_outcomes[k]] 0 <= k < b.my_moves.len() implies (b.their_outcomes[k], b.my_outcomes[k])
            == c.game.outcome(b.their_moves[k] as int, b.my_moves[k] as int) by {
            if k < m.player_b.record().my_moves.len() {
                assert(m.player_b.record().my_outcomes[k] == b.my_outcomes[k]);
            }
        }
    }
}

/// Playing turns between strategies that can play adds only cooperation
/// and defection to the records, and leaves both strategies able to play.
pub proof fn law_play_moves_binary(c: MatchState, rolls: Seq<TurnRolls>)
    requires
        c.player_a.can_play(),
        c.player_b.can_play(),
        moves_binary(c.player_a.record()),
        moves_binary(c.player_b.record()),
    ensures
        play(c, rolls).player_a.can_play(),
        play(c, rolls).player_b.can_play(),
        moves_binary(play(c, rolls).player_a.record()),
        moves_binary(play(c, rolls).player_b.record()),
    decreases rolls.len(),
{
    if rolls.len() > 0 {
        let m = play(c, rolls.drop_last());
        law_play_moves_binary(c, rolls.drop_last());
        let e = turn(m, rolls.last());
        let mv = turn_moves(m, rolls.last());
        assert(is_move(mv.0 as int) && is_move(mv.1 as int));
        let a = e.player_a.record();
        let b = e.player_b.record();
        assert forall|k: int| 0 <= k < a.my_moves.len() implies is_move(#[trigger] a.my_moves[k] as int) by {
            if k < m.player_a.record().my_moves.len() {
                assert(a.my_moves[k] == m.player_a.record().my_moves[k]);
            }
        }
        assert forall|k: int| 0 <= k < a.their_moves.len() implies is_move(#[trigger] a.their_moves[k] as int) by {
            if k < m.player_a.record().their_moves.len() {
                assert(a.their_moves[k] == m.player_a.record().their_moves[k]);
            }
        }
        assert forall|k: int| 0 <= k < b.my_moves.len() implies is_move(#[trigger] b.my_moves[k] as int) by {
            if k < m.player_b.record().my_moves.len() {
                assert(b.my_moves[k] == m.player_b.record().my_moves[k]);
            }
        }
        assert forall|k: int| 0 <= k < b.their_moves.len() implies is_move(#[trigger] b.their_moves[k] as int) by {
            if k < m.player_b.record().their_moves.len() {
                assert(b.their_moves[k] == m.player_b.record().their_moves[k]);
            }
        }
    }
}

/// Flipping gives cooperation or defection, and flipping twice gives back
/// cooperation or defection.
pub proof fn law_flip(m: i32)
    ensures
        is_move(flip_move(m) as int),
        is_move(m as int) ==> flip_move(flip_move(m)) == m,
{
}

/// A channel with chance 100 or more never alters a move; one with chance
/// below 1 always flips it.
pub proof fn law_noise_extremes(chance: int, m: i32, roll: int)
    requires
        1 <= roll <= 100,
    ensures
        chance >= 100 ==> noisy_move(chance, m, roll) == m,
        chance < 1 ==> noisy_move(chance, m, roll) == flip_move(m),
{
}

/// Only random defect consults the draw: every other strategy chooses the
/// same move whatever was drawn.
pub proof fn law_only_random_defect_rolls(s: StrategyState, r1: int, r2: int)
    requires
        !(s is RandomDefect),
    ensures
        s.next_move(r1) == s.next_move(r2),
{
}

/// Once grim trigger has been set off it stays set off and defects, and a
/// defection recorded from the other side sets it off.
pub proof fn law_grim_trigger(s: StrategyState, roll: int, mvs: (i32, i32), out: (i32, i32))
    requires
        s is GrimTrigger,
    ensures
        s->trig ==> s.next_move(roll) == 1 && s.after_move()->trig,
        s.record().their_moves.len() > 0 && s.record().their_moves.last() != 0 ==> s.next_move(roll)
            == 1 && s.after_move()->trig,
        s.after_move()->trig ==> s.after_move().record_turn(mvs, out)->trig,
{
}

/// The tally of tit for average tat never leaves -5..=5 once inside, and a
/// decision either keeps it or moves it by one within that band.
pub proof fn law_average_tat_band(memory: int, their: Seq<i32>)
    ensures
        -5 <= memory <= 5 ==> -5 <= average_memory_after(memory, their) <= 5,
        average_memory_after(memory, their) == memory || (-5 <= average_memory_after(memory, their) <= 5
            && (average_memory_after(memory, their) - memory == 1 || memory - average_memory_after(
            memory,
            their,
        ) == 1)),
{
}

/// Always defect always defects.
pub proof fn law_always_defect(s: StrategyState, roll: int)
    requires
        s is AlwaysDefect,
    ensures
        s.next_move(roll) == 1,
{
}

/// After a turn, tit for tat's next move is the move that reached it from
/// the other side in that turn.
pub proof fn law_tit_for_tat_echoes(c: MatchState, r: TurnRolls, next_roll: int)
    ensures
        c.player_a is TitForTat ==> turn(c, r).player_a.next_move(next_roll) == turn_moves(c, r).1,
        c.player_b is TitForTat ==> turn(c, r).player_b.next_move(next_roll) == turn_moves(c, r).0,
{
}


/// The pair `(i, j)` occurs in `s`.
pub open spec fn has_pair(s: Seq<(int, int)>, i: int, j: int) -> bool {
    exists|k: int| 0 <= k < s.len() && s[k] == (i, j)
}

/// `p` comes before `q` by first entry, then by second.
pub open spec fn pair_before(p: (int, int), q: (int, int)) -> bool {
    p.0 < q.0 || (p.0 == q.0 && p.1 < q.1)
}

proof fn lemma_round_robin_rows(rows: int, n: int)
    requires
        0 <= rows <= n,
    ensures
        2 * round_robin_pairs(rows, n).len() == rows * (2 * n - rows - 1),
        forall|k: int|
            #![trigger round_robin_pairs(rows, n)[k]]
            0 <= k < round_robin_pairs(rows, n).len() ==> 0 <= round_robin_pairs(rows, n)[k].0 < rows
                && round_robin_pairs(rows, n)[k].0 < round_robin_pairs(rows, n)[k].1 < n,
        forall|k1: int, k2: int|
            0 <= k1 < k2 < round_robin_pairs(rows, n).len() ==> pair_before(
                #[trigger] round_robin_pairs(rows, n)[k1],
                #[trigger] round_robin_pairs(rows, n)[k2],
            ),
        forall|i: int, j: int|
            0 <= i < rows && i < j < n ==> #[trigger] has_pair(round_robin_pairs(rows, n), i, j),
    decreases rows,
{
    if rows > 0 {
        lemma_round_robin_rows(rows - 1, n);
        let prev = round_robin_pairs(rows - 1, n);
        let row = pair_row(rows - 1, n);
        let all = round_robin_pairs(rows, n);
        assert(all == prev + row);
        assert(2 * all.len() == rows * (2 * n - rows - 1)) by (nonlinear_arith)
            requires
                2 * prev.len() == (rows - 1) * (2 * n - (rows - 1) - 1),
                all.len() == prev.len() + (n - rows),
        ;
        assert forall|k: int| #![trigger all[k]] 0 <= k < all.len() implies 0 <= all[k].0 < rows
            && all[k].0 < all[k].1 < n by {
            if k < prev.len() {
                assert(all[k] == prev[k]);
            } else {
                assert(all[k] == row[k - prev.len()]);
            }
        }
        assert forall|k1: int, k2: int| 0 <= k1 < k2 < all.len() implies pair_before(
            #[trigger] all[k1],
            #[trigger] all[k2],
        ) by {
            if k2 < prev.len() {
                assert(all[k1] == prev[k1] && all[k2] == prev[k2]);
            } else if k1 < prev.len() {
                assert(all[k1] == prev[k1]);
                assert(prev[k1].0 < rows - 1);
                assert(all[k2] == row[k2 - prev.len()]);
            } else {
                assert(all[k1] == row[k1 - prev.len()]);
                assert(all[k2] == row[k2 - prev.len()]);
            }
        }
        assert forall|i: int, j: int| 0 <= i < rows && i < j < n implies #[trigger] has_pair(all, i, j) by {
            if i < rows - 1 {
                assert(has_pair(prev, i, j));
                let k = choose|k: int| 0 <= k < prev.len() && prev[k] == (i, j);
                assert(all[k] == prev[k]);
            } else {
                let k = prev.len() + (j - i - 1);
                assert(all[k] == row[j - i - 1]);
            }
        }
    }
}

/// A round robin of `n` players has `n * (n - 1) / 2` matches, one for
/// each pair of distinct players, the lower-numbered first, and no pair
/// twice.
pub proof fn law_round_robin_pairs(n: int)
    requires
        n >= 0,
    ensures
        round_robin_pairs(n, n).len() == n * (n - 1) / 2,
        forall|k: int|
            #![trigger round_robin_pairs(n, n)[k]]
            0 <= k < round_robin_pairs(n, n).len() ==> 0 <= round_robin_pairs(n, n)[k].0
                < round_robin_pairs(n, n)[k].1 < n,
        forall|k1: int, k2: int|
            0 <= k1 < k2 < round_robin_pairs(n, n).len() ==> #[trigger] round_robin_pairs(n, n)[k1]
                != #[trigger] round_robin_pairs(n, n)[k2],
        forall|i: int, j: int| 0 <= i < j < n ==> #[trigger] has_pair(round_robin_pairs(n, n), i, j),
{
    lemma_round_robin_rows(n, n);
    let len = round_robin_pairs(n, n).len() as int;
    assert(len == n * (n - 1) / 2) by (nonlinear_arith)
        requires
            2 * len == n * (2 * n - n - 1),
    ;
    assert forall|k1: int, k2: int| 0 <= k1 < k2 < len implies #[trigger] round_robin_pairs(n, n)[k1]
        != #[trigger] round_robin_pairs(n, n)[k2] by {
        assert(pair_before(round_robin_pairs(n, n)[k1], round_robin_pairs(n, n)[k2]));
    }
}


/// The records are sound: both strategies can play, each record is
/// consistent and holds only cooperation and defection, the two records
/// mirror each other, and every payoff is the game's for its moves.
pub open spec fn records_sound(c: MatchState) -> bool {
    &&& c.player_a.can_play()
    &&& c.player_b.can_play()
    &&& moves_binary(c.player_a.record())
    &&& moves_binary(c.player_b.record())
    &&& c.player_a.record().consistent()
    &&& c.player_b.record().consistent()
    &&& mirrored(c)
    &&& follows_game(c.player_a.record(), c.game, true)
    &&& follows_game(c.player_b.record(), c.game, false)
}

/// Whatever the draws, a match whose records are sound (as those of fresh
/// players are) ends with sound records, one entry longer per turn played.
pub proof fn law_reachable_keeps_records_sound(start: MatchState, end: MatchState, turns: int)
    requires
        reachable(start, end, turns),
        records_sound(start),
    ensures
        records_sound(end),
        end.game == start.game,
        end.player_a.record().my_moves.len() == start.player_a.record().my_moves.len() + turns,
        end.player_b.record().my_moves.len() == start.player_b.record().my_moves.len() + turns,
{
    let rolls = choose|rolls: Seq<TurnRolls>|
        #![trigger play(start, rolls)]
        rolls.len() == turns && rolls_in_range(rolls) && end == play(start, rolls);
    law_play_lengths(start, rolls);
    law_play_keeps_mirror(start, rolls);
    law_play_keeps_consistency(start, rolls);
    law_play_follows_game(start, rolls);
    law_play_moves_binary(start, rolls);
}

/// Fresh players (empty records, zero scores) have sound records in any
/// match between strategies that can play.
pub proof fn law_fresh_records_sound(c: MatchState)
    requires
        c.player_a.can_play(),
        c.player_b.can_play(),
        c.player_a.record().my_moves.len() == 0,
        c.player_a.record().their_moves.len() == 0,
        c.player_a.record().my_outcomes.len() == 0,
        c.player_a.record().their_outcomes.len() == 0,
        c.player_b.record().my_moves.len() == 0,
        c.player_b.record().their_moves.len() == 0,
        c.player_b.record().my_outcomes.len() == 0,
        c.player_b.record().their_outcomes.len() == 0,
        c.player_a.record().my_score == 0,
        c.player_a.record().their_score == 0,
        c.player_b.record().my_score == 0,
        c.player_b.record().their_score == 0,
    ensures
        records_sound(c),
{
    assert(c.player_a.record().my_moves =~= c.player_b.record().their_moves);
    assert(c.player_a.record().their_moves =~= c.player_b.record().my_moves);
    assert(c.player_a.record().my_outcomes =~= c.player_b.record().their_outcomes);
    assert(c.player_a.record().their_outcomes =~= c.player_b.record().my_outcomes);
}

/// Every knockout match has one winner of one of the five strategies: the
/// wins under the five names add up to the number of matches, so the next
/// generation has two players per match.
pub proof fn law_knockout_total(games: Seq<MatchState>)
    ensures
        wins_named(games, "AlwaysDefect"@) + wins_named(games, "GrimTrigger"@) + wins_named(
            games,
            "TitForTat"@,
        ) + wins_named(games, "RandomDefect"@) + wins_named(games, "TitForAverageTat"@)
            == games.len(),
    decreases games.len(),
{
    reveal_strlit("AlwaysDefect");
    reveal_strlit("GrimTrigger");
    reveal_strlit("TitForTat");
    reveal_strlit("RandomDefect");
    reveal_strlit("TitForAverageTat");
    if games.len() > 0 {
        law_knockout_total(games.drop_last());
        let name = knockout_winner(games.last()).name();
        let names = seq!["AlwaysDefect"@, "GrimTrigger"@, "TitForTat"@, "RandomDefect"@, "TitForAverageTat"@];
        assert(names[0][0] != names[1][0] && names[0][0] != names[2][0] && names[0][0] != names[3][0]
            && names[0][0] != names[4][0]);
        assert(names[1][0] != names[2][0] && names[1][0] != names[3][0] && names[1][0] != names[4][0]);
        assert(names[2][0] != names[3][0]);
        assert(names[2].len() != names[4].len());
        assert(names[3][0] != names[4][0]);
        let k = knockout_winner(games.last()).kind();
        assert(name == names[k]);
        assert(forall|j: int| 0 <= j < 5 && j != k ==> name != names[j]);
    }
}


/// Without noise (chance 100 or more) and without random defect, a match
/// does not depend on the draws: any two runs of the same length end alike.
pub proof fn law_noiseless_matches_are_determined(
    c: MatchState,
    rolls1: Seq<TurnRolls>,
    rolls2: Seq<TurnRolls>,
)
    requires
        c.noisemodel.chance >= 100,
        !(c.player_a is RandomDefect),
        !(c.player_b is RandomDefect),
        rolls1.len() == rolls2.len(),
        rolls_in_range(rolls1),
        rolls_in_range(rolls2),
    ensures
        play(c, rolls1) == play(c, rolls2),
    decreases rolls1.len(),
{
    if rolls1.len() > 0 {
        law_noiseless_matches_are_determined(c, rolls1.drop_last(), rolls2.drop_last());
        law_play_lengths(c, rolls1.drop_last());
        let m = play(c, rolls1.drop_last());
        assert(rolls1.last().in_range() && rolls2.last().in_range());
        assert(turn_moves(m, rolls1.last()) == turn_moves(m, rolls2.last()));
    }
}

} // verus!

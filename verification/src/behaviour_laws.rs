use vstd::prelude::*;
use vstd::set_lib::{lemma_int_range, set_int_range};
use crate::noisemodels::noisy_move;
use crate::player::{average_memory_after, is_move, random_defect_move, PlayerState};
use crate::strategies::StrategyState;
use crate::testbed::{play, turn, ConfigState, MatchState, TurnRolls};
use crate::tournament::{count_named, knockout_winner, promoted_counts_spec, ScoreEntry};

verus! {

// ---------------------------------------------------------------------
// The noisy channel
// ---------------------------------------------------------------------

/// The rolls (from 1 to 100) on which the channel alters the move `mov`.
pub open spec fn altering_rolls(chance: int, mov: i32) -> Set<int> {
    Set::new(|r: int| 1 <= r <= 100 && noisy_move(chance, mov, r) != mov)
}

/// For every roll from 1 to 100 the channel alters a move exactly when the
/// roll exceeds the chance, and what comes out is cooperation or defection
/// whenever what went in was.
pub proof fn law_noise_alters_exactly_above_chance(chance: int, mov: i32, roll: int)
    requires
        1 <= roll <= 100,
    ensures
        (noisy_move(chance, mov, roll) != mov) <==> roll > chance,
        is_move(mov as int) ==> is_move(noisy_move(chance, mov, roll) as int),
        is_move(mov as int) && roll > chance ==> noisy_move(chance, mov, roll) == 1 - mov,
{
}

/// A channel with chance `c` (0 to 100) alters a move on exactly `100 - c`
/// of the 100 rolls: those above `c`.
pub proof fn law_noise_alteration_count(chance: int, mov: i32)
    requires
        0 <= chance <= 100,
    ensures
        altering_rolls(chance, mov) == set_int_range(chance + 1, 101),
        altering_rolls(chance, mov).finite(),
        altering_rolls(chance, mov).len() == 100 - chance,
{
    assert(altering_rolls(chance, mov) =~= set_int_range(chance + 1, 101));
    lemma_int_range(chance + 1, 101);
}

// ---------------------------------------------------------------------
// Random defect
// ---------------------------------------------------------------------

/// The rolls (from 0 to 100) on which random defect defects.
pub open spec fn defecting_rolls(probability_percent: int) -> Set<int> {
    Set::new(|r: int| 0 <= r <= 100 && random_defect_move(probability_percent, r) == 1)
}

/// For every roll from 0 to 100, random defect defects exactly when the
/// roll is below its probability, and cooperates otherwise.
pub proof fn law_random_defect_below_probability(probability_percent: int, roll: int)
    requires
        0 <= roll <= 100,
    ensures
        (random_defect_move(probability_percent, roll) == 1) <==> roll < probability_percent,
        (random_defect_move(probability_percent, roll) == 0) <==> roll >= probability_percent,
{
}

/// With a probability `p` from 0 to 101, random defect defects on exactly
/// `p` of the 101 rolls: those below `p`.
pub proof fn law_random_defect_count(probability_percent: int)
    requires
        0 <= probability_percent <= 101,
    ensures
        defecting_rolls(probability_percent) == set_int_range(0, probability_percent),
        defecting_rolls(probability_percent).finite(),
        defecting_rolls(probability_percent).len() == probability_percent,
{
    assert(defecting_rolls(probability_percent) =~= set_int_range(0, probability_percent));
    lemma_int_range(0, probability_percent);
}

// ---------------------------------------------------------------------
// Knockout winners
// ---------------------------------------------------------------------

/// The match with the scores that each record holds for the opponent
/// replaced by `ta` and `tb`.
pub open spec fn with_opponent_scores(c: MatchState, ta: int, tb: int) -> MatchState {
    ConfigState {
        player_a: c.player_a.with_record(PlayerState { their_score: ta, ..c.player_a.record() }),
        player_b: c.player_b.with_record(PlayerState { their_score: tb, ..c.player_b.record() }),
        ..c
    }
}

/// The second player wins a knockout match when its own score is strictly
/// greater than the first player's own score; otherwise the first wins.
pub proof fn law_knockout_winner_by_own_score(c: MatchState)
    ensures
        c.player_b.record().my_score > c.player_a.record().my_score ==> knockout_winner(c)
            == c.player_b,
        c.player_b.record().my_score <= c.player_a.record().my_score ==> knockout_winner(c)
            == c.player_a,
{
}

/// Who wins a knockout match does not depend on the scores that the
/// records hold for the opponent.
pub proof fn law_knockout_ignores_opponent_scores(c: MatchState, ta: int, tb: int)
    ensures
        knockout_winner(with_opponent_scores(c, ta, tb)).name() == knockout_winner(c).name(),
        knockout_winner(with_opponent_scores(c, ta, tb)).record().my_score == knockout_winner(
            c,
        ).record().my_score,
{
}

// ---------------------------------------------------------------------
// Promotion in an iterated round
// ---------------------------------------------------------------------

/// The five strategy types, one of each kind, in the order AlwaysDefect,
/// GrimTrigger, TitForTat, RandomDefect, TitForAverageTat.
pub open spec fn five_types(types: Seq<StrategyState>) -> bool {
    types.len() == 5 && forall|f: int| 0 <= f < 5 ==> (#[trigger] types[f]).kind() == f
}

/// `name` is the name of one of the types.
pub open spec fn names_a_type(name: Seq<char>, types: Seq<StrategyState>) -> bool {
    exists|f: int| 0 <= f < types.len() && name == #[trigger] types[f].name()
}

/// Every entry carries the name of one of the types.
pub open spec fn named_by_types(entries: Seq<ScoreEntry>, types: Seq<StrategyState>) -> bool {
    forall|k: int| 0 <= k < entries.len() ==> names_a_type(#[trigger] entries[k].name, types)
}

/// The counts of an entry list under the five type names.
pub open spec fn count_under_types(entries: Seq<ScoreEntry>, types: Seq<StrategyState>) -> int {
    count_named(entries, types[0].name()) + count_named(entries, types[1].name()) + count_named(
        entries,
        types[2].name(),
    ) + count_named(entries, types[3].name()) + count_named(entries, types[4].name())
}

proof fn lemma_five_names_distinct(types: Seq<StrategyState>)
    requires
        five_types(types),
    ensures
        forall|f: int, g: int|
            0 <= f < 5 && 0 <= g < 5 && f != g ==> #[trigger] types[f].name() != #[trigger] types[g].name(),
{
    reveal_strlit("AlwaysDefect");
    reveal_strlit("GrimTrigger");
    reveal_strlit("TitForTat");
    reveal_strlit("RandomDefect");
    reveal_strlit("TitForAverageTat");
    let names = seq!["AlwaysDefect"@, "GrimTrigger"@, "TitForTat"@, "RandomDefect"@, "TitForAverageTat"@];
    assert(names[0][0] != names[1][0] && names[0][0] != names[2][0] && names[0][0] != names[3][0]
        && names[0][0] != names[4][0]);
    assert(names[1][0] != names[2][0] && names[1][0] != names[3][0] && names[1][0] != names[4][0]);
    assert(names[2][0] != names[3][0]);
    assert(names[2].len() != names[4].len());
    assert(names[3][0] != names[4][0]);
    assert forall|f: int| 0 <= f < 5 implies #[trigger] types[f].name() == names[f] by {
        assert(types[f].kind() == f);
    }
}

proof fn lemma_count_under_types(entries: Seq<ScoreEntry>, types: Seq<StrategyState>)
    requires
        five_types(types),
        named_by_types(entries, types),
    ensures
        count_under_types(entries, types) == entries.len(),
    decreases entries.len(),
{
    if entries.len() > 0 {
        lemma_five_names_distinct(types);
        let rest = entries.drop_first();
        assert forall|k: int| 0 <= k < rest.len() implies names_a_type(#[trigger] rest[k].name, types) by {
            assert(rest[k] == entries[k + 1]);
            assert(names_a_type(entries[k + 1].name, types));
        }
        lemma_count_under_types(rest, types);
        assert(names_a_type(entries[0].name, types));
        let f = choose|f: int| 0 <= f < types.len() && entries[0].name == #[trigger] types[f].name();
        assert(forall|g: int| 0 <= g < 5 && g != f ==> entries[0].name != #[trigger] types[g].name());
    }
}

/// Promoting one more entry (the next from the end of the ranking) adds two
/// players to the count of the type whose name it carries and leaves every
/// other count as it was.
pub proof fn law_promoting_one_more(
    ranked: Seq<ScoreEntry>,
    types: Seq<StrategyState>,
    promoted: int,
    f: int,
)
    requires
        0 <= promoted < ranked.len(),
        0 <= f < types.len(),
    ensures
        promoted_counts_spec(ranked, types, promoted + 1, f) == promoted_counts_spec(
            ranked,
            types,
            promoted,
            f,
        ) + if ranked[ranked.len() - promoted - 1].name == types[f].name() {
            2int
        } else {
            0int
        },
{
    let n = ranked.len() as int;
    let longer = ranked.subrange(n - promoted - 1, n);
    assert(longer.drop_first() =~= ranked.subrange(n - promoted, n));
    assert(longer[0] == ranked[n - promoted - 1]);
}

/// With the five strategy types, when every promoted entry carries one of
/// their names, the next generation has exactly two players per promoted
/// entry: the counts add up to twice the number promoted.
pub proof fn law_promotion_total(ranked: Seq<ScoreEntry>, types: Seq<StrategyState>, promoted: int)
    requires
        five_types(types),
        0 <= promoted <= ranked.len(),
        named_by_types(ranked.subrange(ranked.len() - promoted, ranked.len() as int), types),
    ensures
        promoted_counts_spec(ranked, types, promoted, 0) + promoted_counts_spec(
            ranked,
            types,
            promoted,
            1,
        ) + promoted_counts_spec(ranked, types, promoted, 2) + promoted_counts_spec(
            ranked,
            types,
            promoted,
            3,
        ) + promoted_counts_spec(ranked, types, promoted, 4) == 2 * promoted,
{
    lemma_count_under_types(ranked.subrange(ranked.len() - promoted, ranked.len() as int), types);
}

// ---------------------------------------------------------------------
// Strategy state carries from turn to turn
// ---------------------------------------------------------------------

/// Grim trigger in a match: once it has been set off, or once it sees a
/// defection as the other side's last move, every later turn leaves it set
/// off and every move it then chooses is a defection, whatever the draws.
pub proof fn law_grim_trigger_carries(c: MatchState, rolls: Seq<TurnRolls>, roll: int)
    requires
        rolls.len() >= 1,
    ensures
        c.player_a is GrimTrigger && (c.player_a->trig || (c.player_a.record().their_moves.len()
            > 0 && c.player_a.record().their_moves.last() != 0)) ==> play(c, rolls).player_a is GrimTrigger
            && play(c, rolls).player_a->trig && play(c, rolls).player_a.next_move(roll) == 1,
        c.player_b is GrimTrigger && (c.player_b->trig || (c.player_b.record().their_moves.len()
            > 0 && c.player_b.record().their_moves.last() != 0)) ==> play(c, rolls).player_b is GrimTrigger
            && play(c, rolls).player_b->trig && play(c, rolls).player_b.next_move(roll) == 1,
    decreases rolls.len(),
{
    let m = play(c, rolls.drop_last());
    assert(play(c, rolls) == turn(m, rolls.last()));
    if rolls.len() > 1 {
        law_grim_trigger_carries(c, rolls.drop_last(), roll);
    } else {
        assert(m == c);
    }
}

/// Tit for average tat's tally after the decisions it made on the histories
/// `seen.take(k)`, for `k` from `from` up to `to` (each decision steps the
/// tally on the history it saw).
pub open spec fn tally_through(memory: int, seen: Seq<i32>, from: int, to: int) -> int
    decreases to - from,
{
    if to <= from {
        memory
    } else {
        average_memory_after(tally_through(memory, seen, from, to - 1), seen.take(to - 1))
    }
}

proof fn lemma_tally_through_prefix(memory: int, s1: Seq<i32>, s2: Seq<i32>, from: int, to: int)
    requires
        0 <= from,
        to - 1 <= s1.len() <= s2.len(),
        s1 == s2.take(s1.len() as int),
    ensures
        tally_through(memory, s1, from, to) == tally_through(memory, s2, from, to),
    decreases to - from,
{
    if to > from {
        lemma_tally_through_prefix(memory, s1, s2, from, to - 1);
        assert(s1.take(to - 1) =~= s2.take(to - 1));
    }
}

/// Tit for average tat in a match: its tally after the turns played is
/// the tally step applied in turn to each history it decided on, that is
/// to each prefix of what it recorded of the other side, whatever the
/// draws.
pub proof fn law_average_tat_carries(c: MatchState, rolls: Seq<TurnRolls>)
    ensures
        c.player_a is TitForAverageTat ==> play(c, rolls).player_a is TitForAverageTat
            && play(c, rolls).player_a->memory == tally_through(
            c.player_a->memory,
            play(c, rolls).player_a.record().their_moves,
            c.player_a.record().their_moves.len() as int,
            (c.player_a.record().their_moves.len() + rolls.len()) as int,
        ),
        c.player_b is TitForAverageTat ==> play(c, rolls).player_b is TitForAverageTat
            && play(c, rolls).player_b->memory == tally_through(
            c.player_b->memory,
            play(c, rolls).player_b.record().their_moves,
            c.player_b.record().their_moves.len() as int,
            (c.player_b.record().their_moves.len() + rolls.len()) as int,
        ),
    decreases rolls.len(),
{
    if rolls.len() > 0 {
        let prev = rolls.drop_last();
        law_average_tat_carries(c, prev);
        crate::laws::law_play_lengths(c, prev);
        let m = play(c, prev);
        let e = play(c, rolls);
        assert(e == turn(m, rolls.last()));
        let la = c.player_a.record().their_moves.len() as int;
        let lb = c.player_b.record().their_moves.len() as int;
        let n = rolls.len() as int;
        if c.player_a is TitForAverageTat {
            let ms = m.player_a.record().their_moves;
            let es = e.player_a.record().their_moves;
            assert(ms =~= es.take(ms.len() as int));
            lemma_tally_through_prefix(c.player_a->memory, ms, es, la, la + n - 1);
            assert(es.take(la + n - 1) =~= ms);
        }
        if c.player_b is TitForAverageTat {
            let ms = m.player_b.record().their_moves;
            let es = e.player_b.record().their_moves;
            assert(ms =~= es.take(ms.len() as int));
            lemma_tally_through_prefix(c.player_b->memory, ms, es, lb, lb + n - 1);
            assert(es.take(lb + n - 1) =~= ms);
        }
    }
}

} // verus!

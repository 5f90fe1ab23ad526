use vstd::prelude::*;
use crate::strategies::{StrategyState, Strategies};
use crate::player::{fits_i32, Player, Strategy};
use rand::seq::SliceRandom;
use crate::testbed::{strategy_views, Config, MatchState};

verus! {

/// The first match of each group of results.
pub open spec fn first_games(results: Seq<Vec<Config<Strategies, Strategies>>>) -> Seq<MatchState> {
    Seq::new(results.len(), |i: int| results[i]@[0]@)
}

/// Every group of results holds at least one match.
pub open spec fn groups_nonempty(results: Seq<Vec<Config<Strategies, Strategies>>>) -> bool {
    forall|i: int| 0 <= i < results.len() ==> (#[trigger] results[i]).len() >= 1
}

/// The winner of a knockout match: the second player if it scored more
/// than the first, the first otherwise (ties go to the first).
pub open spec fn knockout_winner(c: MatchState) -> StrategyState {
    if c.player_b.record().my_score > c.player_a.record().my_score {
        c.player_b
    } else {
        c.player_a
    }
}

/// How many of the matches were won by a strategy called `name`.
pub open spec fn wins_named(games: Seq<MatchState>, name: Seq<char>) -> int
    decreases games.len(),
{
    if games.len() == 0 {
        0
    } else {
        wins_named(games.drop_last(), name) + if knockout_winner(games.last()).name() == name {
            1int
        } else {
            0int
        }
    }
}

/// The next generation of a knockout round: for each of the (at most five)
/// strategy types, two players for every first match of a group that a
/// strategy of that name won; entries past the types stay zero.
pub fn knockout_next_counts(
    results: &Vec<Vec<Config<Strategies, Strategies>>>,
    strat_types: &Vec<Strategies>,
) -> (counts: Vec<i32>)
    requires
        groups_nonempty(results@),
        strat_types.len() <= 5,
        results.len() <= 1_000_000_000,
    ensures
        counts.len() == 5,
        forall|f: int|
            0 <= f < 5 ==> #[trigger] counts@[f] == if f < strat_types.len() {
                2 * wins_named(first_games(results@), strat_types@[f]@.name())
            } else {
                0
            },
{
    let mut new_strats: Vec<i32> = vec![0, 0, 0, 0, 0];
    let ghost games = first_games(results@);
    for i in 0..results.len()
        invariant
            groups_nonempty(results@),
            strat_types.len() <= 5,
            results.len() <= 1_000_000_000,
            games == first_games(results@),
            new_strats.len() == 5,
            forall|f: int|
                0 <= f < 5 ==> #[trigger] new_strats@[f] == if f < strat_types.len() {
                    2 * wins_named(games.take(i as int), strat_types@[f]@.name())
                } else {
                    0
                },
            forall|f: int|
                0 <= f < strat_types.len() ==> 0 <= wins_named(
                    games.take(i as int),
                    #[trigger] strat_types@[f]@.name(),
                ) <= i,
    {
        let game = &results[i][0];
        let pl_a_strat = game.player_a.get_strategy();
        let pl_b_strat = game.player_b.get_strategy();
        let pl_a = game.player_a.player().get_my_score();
        let pl_b = game.player_b.player().get_my_score();
        let wining_strat = if pl_b > pl_a {
            pl_b_strat
        } else {
            pl_a_strat
        };
        let ghost before = new_strats@;
        proof {
            assert(games.take(i + 1).drop_last() =~= games.take(i as int));
            assert(games[i as int] == game@);
            assert(wining_strat@ == knockout_winner(game@).name());
        }
        for f in 0..strat_types.len()
            invariant
                strat_types.len() <= 5,
                new_strats.len() == 5,
                i < results.len() <= 1_000_000_000,
                games == first_games(results@),
                games[i as int] == game@,
                wining_strat@ == knockout_winner(game@).name(),
                games.take(i + 1).drop_last() == games.take(i as int),
                forall|g: int|
                    0 <= g < strat_types.len() ==> 0 <= wins_named(
                        games.take(i as int),
                        #[trigger] strat_types@[g]@.name(),
                    ) <= i,
                forall|g: int|
                    0 <= g < 5 ==> #[trigger] new_strats@[g] == if g < f {
                        2 * wins_named(games.take(i + 1), strat_types@[g]@.name())
                    } else if g < strat_types.len() {
                        2 * wins_named(games.take(i as int), strat_types@[g]@.name())
                    } else {
                        0
                    },
        {
            let name = strat_types[f].get_strategy();
            if wining_strat == name {
                let v = new_strats[f] + 2;
                new_strats.set(f, v);
            }
        }
    }
    assert(games.take(results.len() as int) =~= games);
    new_strats
}


/// A player's entry in the ranking of an iterated round: the name of its
/// strategy and its total score.
pub struct ScoreEntry {
    pub name: Seq<char>,
    pub score: int,
}

/// A player's entry in the ranking of an iterated round.
pub struct StratScore {
    pub name: String,
    pub score: i32,
}

impl View for StratScore {
    type V = ScoreEntry;

    open spec fn view(&self) -> ScoreEntry {
        ScoreEntry { name: self.name@, score: self.score as int }
    }
}

/// The entries of a list, as values.
pub open spec fn score_views(s: Seq<StratScore>) -> Seq<ScoreEntry> {
    s.map_values(|x: StratScore| x@)
}

/// `n` entries with empty names and zero scores.
pub open spec fn blank_entries(n: nat) -> Seq<ScoreEntry> {
    Seq::new(n, |i: int| ScoreEntry { name: Seq::empty(), score: 0 })
}

/// Entry `p` renamed to `name`, with `score` added.
pub open spec fn add_score(entries: Seq<ScoreEntry>, p: int, name: Seq<char>, score: int) -> Seq<
    ScoreEntry,
> {
    entries.update(p, ScoreEntry { name, score: entries[p].score + score })
}

/// The entries after crediting both players of a match with their scores
/// (the first player first).
pub open spec fn apply_game(entries: Seq<ScoreEntry>, c: MatchState) -> Seq<ScoreEntry> {
    let e1 = add_score(entries, c.player_a_num, c.player_a.name(), c.player_a.record().my_score);
    add_score(e1, c.player_b_num, c.player_b.name(), c.player_b.record().my_score)
}

/// Both players of the match have an entry, and both credits stay in `i32`.
pub open spec fn game_fits(entries: Seq<ScoreEntry>, c: MatchState) -> bool {
    let e1 = add_score(entries, c.player_a_num, c.player_a.name(), c.player_a.record().my_score);
    &&& 0 <= c.player_a_num < entries.len()
    &&& 0 <= c.player_b_num < entries.len()
    &&& fits_i32(entries[c.player_a_num].score, c.player_a.record().my_score)
    &&& fits_i32(e1[c.player_b_num].score, c.player_b.record().my_score)
}

/// The entries after crediting the matches from the last to the first.
pub open spec fn tally(entries: Seq<ScoreEntry>, games: Seq<MatchState>) -> Seq<ScoreEntry>
    decreases games.len(),
{
    if games.len() == 0 {
        entries
    } else {
        tally(apply_game(entries, games.last()), games.drop_last())
    }
}

/// Every credit of `tally` has an entry and stays in `i32`.
pub open spec fn tally_fits(entries: Seq<ScoreEntry>, games: Seq<MatchState>) -> bool
    decreases games.len(),
{
    games.len() == 0 || (game_fits(entries, games.last()) && tally_fits(
        apply_game(entries, games.last()),
        games.drop_last(),
    ))
}

/// Each player's total score over the first matches of the groups, under
/// the name of its strategy; matches are credited from the last group to
/// the first.
pub fn tally_scores(results: &Vec<Vec<Config<Strategies, Strategies>>>, num_players: usize) -> (scores:
    Vec<StratScore>)
    requires
        groups_nonempty(results@),
        tally_fits(blank_entries(num_players as nat), first_games(results@)),
    ensures
        scores.len() == num_players,
        score_views(scores@) == tally(blank_entries(num_players as nat), first_games(results@)),
{
    let ghost games = first_games(results@);
    let ghost goal = tally(blank_entries(num_players as nat), games);
    let mut next_generation: Vec<StratScore> = Vec::new();
    for k in 0..num_players
        invariant
            next_generation.len() == k,
            forall|j: int|
                0 <= j < k ==> (#[trigger] next_generation@[j])@ == (ScoreEntry {
                    name: Seq::empty(),
                    score: 0,
                }),
    {
        next_generation.push(StratScore { name: String::new(), score: 0 });
    }
    assert(score_views(next_generation@) =~= blank_entries(num_players as nat));
    assert(games.take(results.len() as int) =~= games);
    let mut i = results.len();
    while i > 0
        invariant
            i <= results.len(),
            next_generation.len() == num_players,
            groups_nonempty(results@),
            games == first_games(results@),
            tally(score_views(next_generation@), games.take(i as int)) == goal,
            tally_fits(score_views(next_generation@), games.take(i as int)),
        decreases i,
    {
        i = i - 1;
        let ghost cur = score_views(next_generation@);
        let game = &results[i][0];
        proof {
            assert(games.take(i + 1).last() == game@);
            assert(games.take(i + 1).drop_last() =~= games.take(i as int));
        }
        let pl_a_strat = game.player_a.get_strategy();
        let pl_b_strat = game.player_b.get_strategy();
        let pl_a = game.player_a.player().get_my_score();
        let pl_b = game.player_b.player().get_my_score();
        let pl_a_num = game.player_a_num;
        let pl_b_num = game.player_b_num;
        let new_a = next_generation[pl_a_num].score + pl_a;
        next_generation.set(pl_a_num, StratScore { name: pl_a_strat, score: new_a });
        proof {
            assert(score_views(next_generation@) =~= add_score(
                cur,
                pl_a_num as int,
                game@.player_a.name(),
                game@.player_a.record().my_score,
            ));
        }
        let new_b = next_generation[pl_b_num].score + pl_b;
        next_generation.set(pl_b_num, StratScore { name: pl_b_strat, score: new_b });
        proof {
            assert(score_views(next_generation@) =~= apply_game(cur, game@));
        }
    }
    assert(games.take(0) =~= Seq::<MatchState>::empty());
    next_generation
}


/// Whether `tally_scores` can credit every match: each player number is
/// below `num_players` and no running total leaves `i32`.
pub fn can_tally_scores(results: &Vec<Vec<Config<Strategies, Strategies>>>, num_players: usize) -> (ok:
    bool)
    requires
        groups_nonempty(results@),
    ensures
        ok == tally_fits(blank_entries(num_players as nat), first_games(results@)),
{
    let ghost games = first_games(results@);
    let ghost goal = tally_fits(blank_entries(num_players as nat), games);
    let ghost mut entries = blank_entries(num_players as nat);
    let mut totals: Vec<i64> = Vec::new();
    for k in 0..num_players
        invariant
            totals.len() == k,
            forall|j: int| 0 <= j < k ==> #[trigger] totals@[j] == 0,
    {
        totals.push(0);
    }
    assert(games.take(results.len() as int) =~= games);
    let mut i = results.len();
    while i > 0
        invariant
            i <= results.len(),
            totals.len() == num_players,
            entries.len() == num_players,
            forall|j: int| 0 <= j < num_players ==> #[trigger] totals@[j] == entries[j].score,
            forall|j: int| 0 <= j < num_players ==> i32::MIN <= #[trigger] entries[j].score <= i32::MAX,
            groups_nonempty(results@),
            games == first_games(results@),
            goal == tally_fits(entries, games.take(i as int)),
            goal == tally_fits(blank_entries(num_players as nat), first_games(results@)),
        decreases i,
    {
        i = i - 1;
        let game = &results[i][0];
        proof {
            assert(games.take(i + 1).last() == game@);
            assert(games.take(i + 1).drop_last() =~= games.take(i as int));
        }
        proof {
            assert(goal == (game_fits(entries, game@) && tally_fits(
                apply_game(entries, game@),
                games.take(i as int),
            )));
        }
        let a = game.player_a_num;
        let b = game.player_b_num;
        if a >= num_players || b >= num_players {
            assert(!game_fits(entries, game@));
            return false;
        }
        let sa = totals[a] + game.player_a.player().get_my_score() as i64;
        if sa < i32::MIN as i64 || sa > i32::MAX as i64 {
            assert(!game_fits(entries, game@));
            return false;
        }
        totals.set(a, sa);
        let sb = totals[b] + game.player_b.player().get_my_score() as i64;
        proof {
            let e1 = add_score(
                entries,
                a as int,
                game@.player_a.name(),
                game@.player_a.record().my_score,
            );
            assert(totals@[b as int] == e1[b as int].score);
        }
        if sb < i32::MIN as i64 || sb > i32::MAX as i64 {
            assert(!game_fits(entries, game@));
            return false;
        }
        totals.set(b, sb);
        proof {
            entries = apply_game(entries, game@);
        }
    }
    assert(games.take(0) =~= Seq::<MatchState>::empty());
    true
}

/// `perm` lists every position below `n` exactly once.
pub open spec fn is_permutation(perm: Seq<int>, n: int) -> bool {
    &&& perm.len() == n
    &&& forall|k: int| 0 <= k < n ==> 0 <= #[trigger] perm[k] < n
    &&& forall|k1: int, k2: int| 0 <= k1 < n && 0 <= k2 < n && k1 != k2 ==> #[trigger] perm[k1] != #[trigger] perm[k2]
}

/// `b` holds the entries of `a` in some order.
pub open spec fn permutes(a: Seq<StratScore>, b: Seq<StratScore>) -> bool {
    &&& b.len() == a.len()
    &&& exists|perm: Seq<int>|
        is_permutation(perm, a.len() as int) && forall|k: int|
            0 <= k < b.len() ==> #[trigger] b[k] == a[perm[k]]
}

/// `b` holds the entries of `a` in some order (as values).
pub open spec fn permutes_views(a: Seq<ScoreEntry>, b: Seq<ScoreEntry>) -> bool {
    &&& b.len() == a.len()
    &&& exists|perm: Seq<int>|
        is_permutation(perm, a.len() as int) && forall|k: int|
            0 <= k < b.len() ==> #[trigger] b[k] == a[perm[k]]
}

/// The scores do not decrease along the list.
pub open spec fn sorted_by_score(s: Seq<ScoreEntry>) -> bool {
    forall|i: int, j: int| 0 <= i <= j < s.len() ==> #[trigger] s[i].score <= #[trigger] s[j].score
}

/// Puts the entries in a random order.
///
/// Calls `rand::seq::SliceRandom::shuffle` with `rand::thread_rng()`; the
/// contract claims that the result holds the same entries, each once, and
/// leaves their order to chance.
#[verifier::external_body]
fn shuffle_scores(v: &mut Vec<StratScore>)
    ensures
        permutes(old(v)@, final(v)@),
{
    v.shuffle(&mut rand::thread_rng());
}

/// Orders the entries by score, lowest first.
///
/// Calls `slice::sort_by_key` with the score as key; the contract claims
/// that the result holds the same entries, each once, with scores not
/// decreasing. The sort is stable (entries of equal score keep their order),
/// which the contract leaves unsaid.
#[verifier::external_body]
fn sort_by_score(v: &mut Vec<StratScore>)
    ensures
        permutes(old(v)@, final(v)@),
        sorted_by_score(score_views(final(v)@)),
{
    v.sort_by_key(|e| e.score);
}

proof fn lemma_permutes_views(a: Seq<StratScore>, b: Seq<StratScore>)
    requires
        permutes(a, b),
    ensures
        permutes_views(score_views(a), score_views(b)),
{
    let perm = choose|perm: Seq<int>|
        is_permutation(perm, a.len() as int) && forall|k: int|
            0 <= k < b.len() ==> #[trigger] b[k] == a[perm[k]];
    assert forall|k: int| 0 <= k < b.len() implies #[trigger] score_views(b)[k] == score_views(a)[perm[k]] by {
        assert(b[k] == a[perm[k]]);
    }
}

proof fn lemma_permutes_trans(a: Seq<StratScore>, b: Seq<StratScore>, c: Seq<StratScore>)
    requires
        permutes(a, b),
        permutes(b, c),
    ensures
        permutes(a, c),
{
    let p1 = choose|perm: Seq<int>|
        is_permutation(perm, a.len() as int) && forall|k: int|
            0 <= k < b.len() ==> #[trigger] b[k] == a[perm[k]];
    let p2 = choose|perm: Seq<int>|
        is_permutation(perm, b.len() as int) && forall|k: int|
            0 <= k < c.len() ==> #[trigger] c[k] == b[perm[k]];
    let p = Seq::new(a.len(), |k: int| p1[p2[k]]);
    assert forall|k: int| 0 <= k < a.len() implies 0 <= #[trigger] p[k] < a.len() by {
        assert(0 <= p2[k] < a.len());
    }
    assert forall|k1: int, k2: int| 0 <= k1 < a.len() && 0 <= k2 < a.len() && k1 != k2 implies #[trigger] p[k1]
        != #[trigger] p[k2] by {
        assert(p2[k1] != p2[k2]);
    }
    assert forall|k: int| 0 <= k < c.len() implies #[trigger] c[k] == a[p[k]] by {
        assert(c[k] == b[p2[k]]);
        assert(b[p2[k]] == a[p1[p2[k]]]);
    }
    assert(is_permutation(p, a.len() as int));
}

/// How many entries carry `name`.
pub open spec fn count_named(entries: Seq<ScoreEntry>, name: Seq<char>) -> int
    decreases entries.len(),
{
    if entries.len() == 0 {
        0
    } else {
        (if entries[0].name == name {
            1int
        } else {
            0int
        }) + count_named(entries.drop_first(), name)
    }
}

/// The next generation of an iterated round: the last `promoted` entries
/// of the ranking go on, each as two players of the strategy type (of at
/// most five) whose name it carries; entries past the types stay zero.
pub open spec fn promoted_counts_spec(
    ranked: Seq<ScoreEntry>,
    types: Seq<StrategyState>,
    promoted: int,
    f: int,
) -> int {
    if f < types.len() {
        2 * count_named(ranked.subrange(ranked.len() - promoted, ranked.len() as int), types[f].name())
    } else {
        0
    }
}

/// Takes the `num_players / 2` entries from the end of the ranking and
/// counts two players of each strategy type for each entry with its name.
pub fn promoted_counts(ranked: Vec<StratScore>, strat_types: &Vec<Strategies>, num_players: usize) -> (counts:
    Vec<i32>)
    requires
        num_players / 2 <= ranked.len(),
        strat_types.len() <= 5,
        num_players / 2 <= 1_000_000_000,
    ensures
        counts.len() == 5,
        forall|f: int|
            0 <= f < 5 ==> #[trigger] counts@[f] == promoted_counts_spec(
                score_views(ranked@),
                strategy_views(strat_types@),
                (num_players / 2) as int,
                f,
            ),
{
    let ghost orig = score_views(ranked@);
    let ghost n = ranked@.len() as int;
    let mut next_generation = ranked;
    let mut new_strats: Vec<i32> = vec![0, 0, 0, 0, 0];
    let half = num_players / 2;
    assert(orig.subrange(n, n) =~= Seq::<ScoreEntry>::empty());
    for i in 0..half
        invariant
            half == num_players / 2,
            half <= n,
            half <= 1_000_000_000,
            n == orig.len(),
            strat_types.len() <= 5,
            score_views(next_generation@) == orig.take(n - i),
            next_generation@.len() == n - i,
            new_strats.len() == 5,
            forall|f: int|
                0 <= f < 5 ==> #[trigger] new_strats@[f] == if f < strat_types.len() {
                    2 * count_named(orig.subrange(n - i, n), strat_types@[f]@.name())
                } else {
                    0
                },
            forall|f: int|
                0 <= f < strat_types.len() ==> 0 <= count_named(
                    orig.subrange(n - i, n),
                    #[trigger] strat_types@[f]@.name(),
                ) <= i,
    {
        let ghost prev = next_generation@;
        let temp = next_generation.pop().unwrap();
        proof {
            assert(temp == prev[n - i - 1]);
            assert(score_views(prev)[n - i - 1] == prev[n - i - 1]@);
            assert(orig.take(n - i)[n - i - 1] == orig[n - i - 1]);
            assert(temp@ == orig[n - i - 1]);
            assert(score_views(next_generation@) =~= orig.take(n - i - 1));
            assert(orig.subrange(n - i - 1, n).drop_first() =~= orig.subrange(n - i, n));
            assert(orig.subrange(n - i - 1, n)[0] == orig[n - i - 1]);
        }
        for f in 0..strat_types.len()
            invariant
                strat_types.len() <= 5,
                new_strats.len() == 5,
                i < half <= 1_000_000_000,
                n == orig.len(),
                half <= n,
                temp@ == orig[n - i - 1],
                orig.subrange(n - i - 1, n).drop_first() == orig.subrange(n - i, n),
                orig.subrange(n - i - 1, n)[0] == orig[n - i - 1],
                forall|g: int|
                    0 <= g < strat_types.len() ==> 0 <= count_named(
                        orig.subrange(n - i, n),
                        #[trigger] strat_types@[g]@.name(),
                    ) <= i,
                forall|g: int|
                    0 <= g < 5 ==> #[trigger] new_strats@[g] == if g < f {
                        2 * count_named(orig.subrange(n - i - 1, n), strat_types@[g]@.name())
                    } else if g < strat_types.len() {
                        2 * count_named(orig.subrange(n - i, n), strat_types@[g]@.name())
                    } else {
                        0
                    },
        {
            let name = strat_types[f].get_strategy();
            if temp.name == name {
                let v = new_strats[f] + 2;
                new_strats.set(f, v);
            }
        }
    }
    proof {
        assert forall|f: int| 0 <= f < 5 implies #[trigger] new_strats@[f] == promoted_counts_spec(
            orig,
            strategy_views(strat_types@),
            half as int,
            f,
        ) by {
            if f < strat_types.len() {
                assert(strategy_views(strat_types@)[f] == strat_types@[f]@);
            }
        }
    }
    new_strats
}

/// The next generation of an iterated round: each player's total over the
/// first matches of the groups, shuffled, ranked by score, and the top
/// `num_players / 2` promoted as two players each of their strategy type.
pub fn iterated_next_counts(
    results: &Vec<Vec<Config<Strategies, Strategies>>>,
    strat_types: &Vec<Strategies>,
    num_players: usize,
) -> (counts: Vec<i32>)
    requires
        groups_nonempty(results@),
        tally_fits(blank_entries(num_players as nat), first_games(results@)),
        strat_types.len() <= 5,
        num_players / 2 <= 1_000_000_000,
    ensures
        counts.len() == 5,
        exists|ranked: Seq<ScoreEntry>|
            #![trigger sorted_by_score(ranked)]
            permutes_views(tally(blank_entries(num_players as nat), first_games(results@)), ranked)
                && sorted_by_score(ranked) && forall|f: int|
                0 <= f < 5 ==> #[trigger] counts@[f] == promoted_counts_spec(
                    ranked,
                    strategy_views(strat_types@),
                    (num_players / 2) as int,
                    f,
                ),
{
    let mut next_generation = tally_scores(results, num_players);
    let ghost tallied = next_generation@;
    shuffle_scores(&mut next_generation);
    let ghost shuffled = next_generation@;
    sort_by_score(&mut next_generation);
    proof {
        lemma_permutes_trans(tallied, shuffled, next_generation@);
        lemma_permutes_views(tallied, next_generation@);
    }
    let ghost ranked = score_views(next_generation@);
    let counts = promoted_counts(next_generation, strat_types, num_players);
    assert(sorted_by_score(ranked));
    counts
}

} // verus!

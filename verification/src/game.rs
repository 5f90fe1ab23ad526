use vstd::prelude::*;

verus! {

/// The size of `x`.
pub open spec fn abs_int(x: int) -> int {
    if x < 0 {
        -x
    } else {
        x
    }
}

/// The larger of `a` and `b`.
pub open spec fn max_int(a: int, b: int) -> int {
    if a < b {
        b
    } else {
        a
    }
}

/// A two-player game in normal form: `payoff_a[i][j]` and `payoff_b[i][j]`
/// are what the first and second player get when they play `i` and `j`.
pub struct GameState {
    pub payoff_a: Seq<Seq<i32>>,
    pub payoff_b: Seq<Seq<i32>>,
    pub is_init: bool,
}

impl GameState {
    /// Both tables have an entry for the moves `a` and `b`.
    pub open spec fn covers(self, a: int, b: int) -> bool {
        &&& 0 <= a < self.payoff_a.len()
        &&& 0 <= b < self.payoff_a[a].len()
        &&& 0 <= a < self.payoff_b.len()
        &&& 0 <= b < self.payoff_b[a].len()
    }

    /// Both tables cover cooperation and defection by either player.
    pub open spec fn covers_moves(self) -> bool {
        self.covers(0, 0) && self.covers(0, 1) && self.covers(1, 0) && self.covers(1, 1)
    }

    /// The payoffs of the two players for the moves `a` and `b`.
    pub open spec fn outcome(self, a: int, b: int) -> (i32, i32) {
        (self.payoff_a[a][b], self.payoff_b[a][b])
    }

    /// The largest size of a payoff for cooperation or defection.
    pub open spec fn payoff_bound(self) -> int {
        max_int(
            max_int(
                max_int(abs_int(self.payoff_a[0][0] as int), abs_int(self.payoff_a[0][1] as int)),
                max_int(abs_int(self.payoff_a[1][0] as int), abs_int(self.payoff_a[1][1] as int)),
            ),
            max_int(
                max_int(abs_int(self.payoff_b[0][0] as int), abs_int(self.payoff_b[0][1] as int)),
                max_int(abs_int(self.payoff_b[1][0] as int), abs_int(self.payoff_b[1][1] as int)),
            ),
        )
    }

    /// No payoff for cooperation or defection exceeds `bound` in size.
    pub open spec fn payoffs_within(self, bound: int) -> bool {
        forall|a: int, b: int|
            0 <= a < 2 && 0 <= b < 2 ==> -bound <= #[trigger] self.payoff_a[a][b] <= bound && -bound
                <= self.payoff_b[a][b] <= bound
    }
}

pub struct Game {
    pub payoff_a: Vec<Vec<i32>>,
    pub payoff_b: Vec<Vec<i32>>,
    pub is_init: bool,
}

impl View for Game {
    type V = GameState;

    open spec fn view(&self) -> GameState {
        GameState {
            payoff_a: self.payoff_a.deep_view(),
            payoff_b: self.payoff_b.deep_view(),
            is_init: self.is_init,
        }
    }
}

/// The payoff bound is not negative and bounds every payoff for
/// cooperation or defection.
pub proof fn lemma_payoff_bound(g: GameState)
    ensures
        g.payoff_bound() >= 0,
        g.payoffs_within(g.payoff_bound()),
{
}

fn clone_table(t: &Vec<Vec<i32>>) -> (res: Vec<Vec<i32>>)
    ensures
        res.deep_view() == t.deep_view(),
{
    let mut res: Vec<Vec<i32>> = Vec::new();
    let n = t.len();
    for i in 0..n
        invariant
            n == t.len(),
            res.len() == i,
            forall|k: int| 0 <= k < i ==> #[trigger] res[k]@ == t[k]@,
    {
        let row = t[i].clone();
        proof {
            assert(row@ =~= t[i as int]@);
        }
        res.push(row);
    }
    assert(res.deep_view() =~= t.deep_view());
    res
}

fn abs_i64(x: i32) -> (r: i64)
    ensures
        r == abs_int(x as int),
{
    if x < 0 {
        -(x as i64)
    } else {
        x as i64
    }
}

fn max_i64(a: i64, b: i64) -> (r: i64)
    ensures
        r == max_int(a as int, b as int),
{
    if a < b {
        b
    } else {
        a
    }
}

impl Game {
    /// Whether both tables pay cooperation and defection by either player.
    pub fn covers_moves(&self) -> (b: bool)
        ensures
            b == self@.covers_moves(),
    {
        self.payoff_a.len() >= 2 && self.payoff_a[0].len() >= 2 && self.payoff_a[1].len() >= 2
            && self.payoff_b.len() >= 2 && self.payoff_b[0].len() >= 2 && self.payoff_b[1].len()
            >= 2
    }

    /// The largest size of a payoff for cooperation or defection.
    pub fn payoff_bound(&self) -> (b: i64)
        requires
            self@.covers_moves(),
        ensures
            b == self@.payoff_bound(),
    {
        let a = &self.payoff_a;
        let p = &self.payoff_b;
        max_i64(
            max_i64(
                max_i64(abs_i64(a[0][0]), abs_i64(a[0][1])),
                max_i64(abs_i64(a[1][0]), abs_i64(a[1][1])),
            ),
            max_i64(
                max_i64(abs_i64(p[0][0]), abs_i64(p[0][1])),
                max_i64(abs_i64(p[1][0]), abs_i64(p[1][1])),
            ),
        )
    }

    /// Marks the game as ready to be played.
    pub fn init_game(&mut self)
        ensures
            final(self)@ == (GameState { is_init: true, ..old(self)@ }),
    {
        self.is_init = true;
    }

    /// The payoffs of both players for the moves `move_a` and `move_b`.
    pub fn turn_outcome(&self, move_a: usize, move_b: usize) -> (r: (i32, i32))
        requires
            self@.covers(move_a as int, move_b as int),
        ensures
            r == self@.outcome(move_a as int, move_b as int),
    {
        (self.payoff_a[move_a][move_b], self.payoff_b[move_a][move_b])
    }
}

impl Clone for Game {
    fn clone(&self) -> (res: Self)
        ensures
            res@ == self@,
    {
        Game {
            payoff_a: clone_table(&self.payoff_a),
            payoff_b: clone_table(&self.payoff_b),
            is_init: self.is_init,
        }
    }
}

} // verus!

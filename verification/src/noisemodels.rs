use vstd::prelude::*;
use rand::Rng;

verus! {

/// What a noise model is: its name and the chance, in percent, that a move
/// goes through unchanged.
pub struct NoiseState {
    pub name: Seq<char>,
    pub chance: int,
}

/// A channel that passes each move unchanged with probability `chance`
/// percent and flips it otherwise.
pub struct BaseNoiseModel {
    pub name: String,
    pub chance: i32,
}

impl View for BaseNoiseModel {
    type V = NoiseState;

    open spec fn view(&self) -> NoiseState {
        NoiseState { name: self.name@, chance: self.chance as int }
    }
}

/// The opposite move: cooperation (0) for defection (1), defection for
/// anything else.
pub open spec fn flip_move(mov: i32) -> i32 {
    if mov == 1 {
        0
    } else {
        1
    }
}

/// The move that comes out of the channel when `roll` (from 1 to 100) was
/// drawn: flipped when the roll exceeds the chance, unchanged otherwise.
pub open spec fn noisy_move(chance: int, mov: i32, roll: int) -> i32 {
    if roll > chance {
        flip_move(mov)
    } else {
        mov
    }
}

/// Something that may alter a move in transit.
pub trait Noise {
    fn modify(&self, actual_move: i32) -> i32;
}

/// A whole number drawn from 1 to 100 inclusive.
///
/// Calls `rand::Rng::gen_range(1..101)` on `rand::thread_rng()`; the
/// contract claims only the range of the result, which is left to chance.
#[verifier::external_body]
pub(crate) fn roll_one_to_hundred() -> (r: i32)
    ensures
        1 <= r <= 100,
{
    rand::thread_rng().gen_range(1..101)
}

impl BaseNoiseModel {
    /// The model "hellaBasic" that lets a move through with chance `p`
    /// percent.
    pub fn new(p: i32) -> (m: BaseNoiseModel)
        requires
            0 <= p <= 100,
        ensures
            m.name@ == "hellaBasic"@,
            m.chance == p,
    {
        BaseNoiseModel { name: String::from_str("hellaBasic"), chance: p }
    }

    /// The opposite of a move.
    pub fn flip(&self, mov: i32) -> (r: i32)
        ensures
            r == flip_move(mov),
    {
        if mov == 1 {
            0
        } else {
            1
        }
    }

    /// The move that comes out of the channel for a given roll.
    pub fn modify_for_roll(&self, actual_move: i32, roll: i32) -> (r: i32)
        ensures
            r == noisy_move(self.chance as int, actual_move, roll as int),
    {
        if roll > self.chance {
            self.flip(actual_move)
        } else {
            actual_move
        }
    }
}

impl Noise for BaseNoiseModel {
    fn modify(&self, actual_move: i32) -> (r: i32)
        ensures
            exists|roll: int| 1 <= roll <= 100 && r == noisy_move(self.chance as int, actual_move, roll),
    {
        let roll = roll_one_to_hundred();
        self.modify_for_roll(actual_move, roll)
    }
}

impl Clone for BaseNoiseModel {
    fn clone(&self) -> (res: Self)
        ensures
            res@ == self@,
    {
        BaseNoiseModel { name: self.name.clone(), chance: self.chance }
    }
}

} // verus!

//! Noisy iterated games: players with fixed strategies play repeated
//! prisoner's-dilemma turns through a channel that may flip their moves,
//! in round robins, knockouts and iterated tournaments.

pub mod game;
pub mod behaviour_laws;
pub mod laws;
pub mod noisemodels;
pub mod player;
pub mod strategies;
pub mod test_utilities;
pub mod testbed;
pub mod tournament;

pub use strategies::Strategies;
pub use testbed::run_instance;

# noisygames

Iterated prisoner's-dilemma tournaments through a noisy channel, as a
Verus-verified library.

- `src/player.rs`: the record a player keeps (`BasicPlayer`), the `Player`
  and `Strategy` traits, and the five strategies with the mathematical
  definition of each decision.
- `src/strategies.rs`: `Strategies`, the tagged union of the five, and its
  mathematical state `StrategyState`.
- `src/noisemodels.rs`: the channel that flips a move with a given chance.
- `src/game.rs`: the payoff tables.
- `src/testbed.rs`: match set-ups (`Config`), one turn and a whole match as
  mathematical functions, `run_instance`, and the generators of round robins,
  neighbour pairings and player lists.
- `src/tournament.rs`: the decisions between rounds of knockout and iterated
  tournaments.
- `src/test_utilities.rs`: dated folder names.
- `src/laws.rs`: properties of whole matches and tournaments, proved.
- `app/`: the command-line program (threads, files, JSON output).

Randomness (strategy and noise draws, shuffles) and the clock come from
`rand` and `chrono` behind small trusted wrappers; every function that takes
their results is verified for every value they can return.

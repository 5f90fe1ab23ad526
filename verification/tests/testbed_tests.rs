use noisygames::game::Game;
use noisygames::noisemodels::BaseNoiseModel;
use noisygames::player::{
    AlwaysDefect, BasicPlayer, GrimTrigger, RandomDefect, Strategy, TitForAverageTat, TitForTat,
};
use noisygames::testbed::{
    can_run_instance, generate_axelrod_configs, generate_players, generate_players_by_numbers,
    generate_round_robin_configs, pair_neighbours, Config,
};
use noisygames::{run_instance, Strategies};

fn prisoners_dilemma() -> Game {
    Game {
        payoff_a: vec![vec![3, 0], vec![5, 1]],
        payoff_b: vec![vec![3, 5], vec![0, 1]],
        is_init: true,
    }
}

fn tft() -> Strategies {
    Strategies::TitForTat { player: TitForTat { play: BasicPlayer::new() } }
}

fn defector() -> Strategies {
    Strategies::AlwaysDefect { player: AlwaysDefect { play: BasicPlayer::new() } }
}

fn grim() -> Strategies {
    Strategies::GrimTrigger { player: GrimTrigger { play: BasicPlayer::new(), trig: false } }
}

fn random(p: i32) -> Strategies {
    Strategies::RandomDefect { player: RandomDefect { play: BasicPlayer::new(), probability_percent: p } }
}

fn average() -> Strategies {
    Strategies::TitForAverageTat { player: TitForAverageTat { play: BasicPlayer::new(), memory: 0 } }
}

fn config(a: Strategies, b: Strategies, lens: Vec<i32>, chance: i32) -> Config<Strategies, Strategies> {
    Config {
        player_a: a,
        player_a_num: 0,
        player_b: b,
        player_b_num: 1,
        game: prisoners_dilemma(),
        num_rounds: lens.len(),
        num_round_lengths: lens,
        location: "/tmp/x".to_string(),
        noisemodel: BaseNoiseModel::new(chance),
    }
}

#[test]
fn one_turn_with_rolls() {
    let mut c = config(tft(), defector(), vec![1], 100);
    c.play_turn_with_rolls(0, 0, 1, 1);
    let a = c.player_a.player();
    let b = c.player_b.player();
    assert_eq!(a.my_moves, vec![0]);
    assert_eq!(a.their_moves, vec![1]);
    assert_eq!(a.my_outcomes, vec![0]);
    assert_eq!(a.their_outcomes, vec![5]);
    assert_eq!(b.my_moves, vec![1]);
    assert_eq!(b.their_moves, vec![0]);
    assert_eq!(b.my_score, 5);
    assert_eq!(a.my_score, 0);
}

#[test]
fn one_turn_with_noise_rolls() {
    let mut c = config(tft(), defector(), vec![1], 90);
    c.play_turn_with_rolls(0, 0, 95, 95);
    let a = c.player_a.player();
    assert_eq!(a.my_moves, vec![1]);
    assert_eq!(a.their_moves, vec![0]);
    assert_eq!(a.my_score, 5);
    assert_eq!(c.player_b.player().my_score, 0);
}

#[test]
fn tit_for_tat_against_defector_without_noise() {
    let c = config(tft(), defector(), vec![3, 1], 100);
    assert!(can_run_instance(&c));
    let out = run_instance(c);
    assert_eq!(out.len(), 2);
    let a = out[0].player_a.player();
    let b = out[0].player_b.player();
    assert_eq!(a.my_moves, vec![0, 1, 1]);
    assert_eq!(a.their_moves, vec![1, 1, 1]);
    assert_eq!(a.my_score, 2);
    assert_eq!(a.their_score, 7);
    assert_eq!(b.my_score, 7);
    assert_eq!(b.their_score, 2);
    assert_eq!(out[1].player_a.player().my_moves, vec![0]);
    assert_eq!(out[1].player_b.player().my_score, 5);
}

#[test]
fn rounds_start_from_the_same_set_up() {
    let c = config(grim(), defector(), vec![2, 2, 0, -3], 100);
    let out = run_instance(c);
    assert_eq!(out.len(), 4);
    for k in 0..2 {
        let a = out[k].player_a.player();
        assert_eq!(a.my_moves, vec![0, 1]);
        assert_eq!(a.my_score, 1);
    }
    for k in 2..4 {
        assert!(out[k].player_a.player().my_moves.is_empty());
        assert_eq!(out[k].player_b.player().my_score, 0);
    }
    for cfg in out.iter() {
        assert_eq!(cfg.num_rounds, 4);
        assert_eq!(cfg.location, "/tmp/x");
        assert_eq!(cfg.noisemodel.chance, 100);
    }
}

#[test]
fn noisy_matches_keep_records_mirrored_and_sound() {
    let c = config(random(50), average(), vec![300], 60);
    let out = run_instance(c);
    let g = prisoners_dilemma();
    let a = out[0].player_a.player();
    let b = out[0].player_b.player();
    assert_eq!(a.my_moves.len(), 300);
    assert_eq!(a.my_moves, b.their_moves);
    assert_eq!(a.their_moves, b.my_moves);
    assert_eq!(a.my_outcomes, b.their_outcomes);
    assert_eq!(a.my_score, b.their_score);
    assert_eq!(a.my_score, a.my_outcomes.iter().sum::<i32>());
    assert_eq!(b.my_score, b.my_outcomes.iter().sum::<i32>());
    for k in 0..300 {
        let (x, y) = (a.my_moves[k], a.their_moves[k]);
        assert!(x == 0 || x == 1);
        assert!(y == 0 || y == 1);
        assert_eq!((a.my_outcomes[k], a.their_outcomes[k]), g.turn_outcome(x as usize, y as usize));
    }
    match &out[0].player_b {
        Strategies::TitForAverageTat { player } => assert!(-5 <= player.memory && player.memory <= 5),
        _ => panic!("kind changed"),
    }
}

#[test]
fn tit_for_tat_echoes_what_arrived() {
    let mut c = config(tft(), random(50), vec![1], 100);
    c.play_turn_with_rolls(0, 10, 1, 1);
    c.play_turn_with_rolls(0, 90, 1, 1);
    c.play_turn_with_rolls(0, 0, 1, 1);
    assert_eq!(c.player_a.player().my_moves, vec![0, 1, 0]);
    assert_eq!(c.player_a.player().their_moves, vec![1, 0, 1]);
    let mut d = config(tft(), defector(), vec![1], 0);
    d.play_turn_with_rolls(0, 0, 50, 50);
    d.play_turn_with_rolls(0, 0, 50, 50);
    assert_eq!(d.player_a.player().their_moves, vec![0, 0]);
    assert_eq!(d.player_a.player().my_moves, vec![1, 1]);
}

#[test]
fn can_run_instance_refuses_bad_set_ups() {
    let mut c = config(tft(), defector(), vec![3], 100);
    c.num_rounds = 2;
    assert!(!can_run_instance(&c));
    let mut d = config(tft(), defector(), vec![3], 100);
    d.game.payoff_a = vec![vec![3, 0]];
    assert!(!can_run_instance(&d));
    let mut e = config(tft(), defector(), vec![3], 100);
    if let Strategies::AlwaysDefect { player } = &mut e.player_b {
        player.play.my_score = i32::MAX - 10;
    }
    assert!(!can_run_instance(&e));
    let mut f = config(tft(), defector(), vec![2], 100);
    if let Strategies::AlwaysDefect { player } = &mut f.player_b {
        player.play.my_score = i32::MAX - 10;
    }
    assert!(can_run_instance(&f));
    let g = config(tft(), defector(), vec![], 100);
    assert!(can_run_instance(&g));
}

#[test]
fn round_robin_pairs_every_two_players_once() {
    let players = vec![tft(), defector(), grim(), average()];
    let configs = generate_round_robin_configs(
        prisoners_dilemma(),
        players,
        vec![10, 20],
        "/tmp/rr".to_string(),
        BaseNoiseModel::new(95),
    );
    let pairs: Vec<(usize, usize)> = configs.iter().map(|c| (c.player_a_num, c.player_b_num)).collect();
    assert_eq!(pairs, vec![(0, 1), (0, 2), (0, 3), (1, 2), (1, 3), (2, 3)]);
    assert_eq!(configs[0].player_a.get_strategy(), "TitForTat");
    assert_eq!(configs[0].player_b.get_strategy(), "AlwaysDefect");
    assert_eq!(configs[5].player_a.get_strategy(), "GrimTrigger");
    assert_eq!(configs[5].player_b.get_strategy(), "TitForAverageTat");
    for c in configs.iter() {
        assert_eq!(c.num_rounds, 2);
        assert_eq!(c.num_round_lengths, vec![10, 20]);
        assert_eq!(c.location, "/tmp/rr");
        assert_eq!(c.noisemodel.chance, 95);
    }
}

#[test]
fn round_robin_sizes() {
    for n in 0..7usize {
        let players: Vec<Strategies> = (0..n).map(|_| tft()).collect();
        let configs = generate_round_robin_configs(
            prisoners_dilemma(),
            players,
            vec![1],
            String::new(),
            BaseNoiseModel::new(100),
        );
        assert_eq!(configs.len(), n * n.saturating_sub(1) / 2);
    }
}

#[test]
fn neighbours_pair_up_in_order() {
    let players = vec![tft(), defector(), grim(), average(), random(10)];
    let configs = pair_neighbours(
        &prisoners_dilemma(),
        &players,
        &vec![5],
        &"loc".to_string(),
        &BaseNoiseModel::new(100),
    );
    assert_eq!(configs.len(), 2);
    assert_eq!((configs[0].player_a_num, configs[0].player_b_num), (0, 1));
    assert_eq!((configs[1].player_a_num, configs[1].player_b_num), (2, 3));
    assert_eq!(configs[1].player_a.get_strategy(), "GrimTrigger");
    assert_eq!(configs[1].player_b.get_strategy(), "TitForAverageTat");
}

#[test]
fn axelrod_pairs_a_shuffle() {
    let players = vec![tft(), defector(), grim(), average(), random(10), tft()];
    let configs = generate_axelrod_configs(
        prisoners_dilemma(),
        players,
        vec![5],
        "loc".to_string(),
        BaseNoiseModel::new(100),
    );
    assert_eq!(configs.len(), 3);
    let mut names: Vec<String> = Vec::new();
    for (k, c) in configs.iter().enumerate() {
        assert_eq!(c.player_a_num, 2 * k);
        assert_eq!(c.player_b_num, 2 * k + 1);
        names.push(c.player_a.get_strategy());
        names.push(c.player_b.get_strategy());
    }
    names.sort();
    assert_eq!(
        names,
        vec!["AlwaysDefect", "GrimTrigger", "RandomDefect", "TitForAverageTat", "TitForTat", "TitForTat"]
    );
    let single = generate_axelrod_configs(prisoners_dilemma(), vec![tft()], vec![1], String::new(), BaseNoiseModel::new(1));
    assert!(single.is_empty());
}

#[test]
fn players_by_numbers_repeat_each_type() {
    let types = vec![defector(), grim(), tft(), random(50), average()];
    let players = generate_players_by_numbers(types, vec![2, 0, 1, -4, 3]);
    let names: Vec<String> = players.iter().map(|p| p.get_strategy()).collect();
    assert_eq!(
        names,
        vec!["AlwaysDefect", "AlwaysDefect", "TitForTat", "TitForAverageTat", "TitForAverageTat", "TitForAverageTat"]
    );
}

#[test]
fn players_cycle_through_types() {
    let types = vec![defector(), grim(), tft(), random(50), average()];
    let players = generate_players(types, vec![9, 9, 9, 9, 9, 9, 9]);
    let names: Vec<String> = players.iter().map(|p| p.get_strategy()).collect();
    assert_eq!(
        names,
        vec!["AlwaysDefect", "GrimTrigger", "TitForTat", "RandomDefect", "TitForAverageTat", "AlwaysDefect", "GrimTrigger"]
    );
    let few = generate_players(vec![tft(), grim()], vec![0, 0]);
    assert_eq!(few.len(), 2);
    assert_eq!(few[1].get_strategy(), "GrimTrigger");
}

#[test]
fn config_clone_keeps_everything() {
    let c = config(grim(), average(), vec![4, 5], 33);
    let d = c.clone();
    assert_eq!(d.player_a.get_strategy(), "GrimTrigger");
    assert_eq!(d.num_round_lengths, vec![4, 5]);
    assert_eq!(d.noisemodel.chance, 33);
    assert_eq!(d.game.payoff_b, c.game.payoff_b);
    assert_eq!(d.location, c.location);
}

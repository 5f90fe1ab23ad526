use noisygames::game::Game;
use noisygames::noisemodels::BaseNoiseModel;
use noisygames::player::{
    AlwaysDefect, BasicPlayer, GrimTrigger, RandomDefect, Strategy, TitForAverageTat, TitForTat,
};
use noisygames::testbed::Config;
use noisygames::tournament::{
    can_tally_scores, iterated_next_counts, knockout_next_counts, promoted_counts, tally_scores,
    StratScore,
};
use noisygames::Strategies;

fn with_score(s: Strategies, score: i32) -> Strategies {
    let mut s = s;
    match &mut s {
        Strategies::AlwaysDefect { player } => player.play.my_score = score,
        Strategies::GrimTrigger { player } => player.play.my_score = score,
        Strategies::TitForTat { player } => player.play.my_score = score,
        Strategies::RandomDefect { player } => player.play.my_score = score,
        Strategies::TitForAverageTat { player } => player.play.my_score = score,
    }
    s
}

fn types() -> Vec<Strategies> {
    let base = BasicPlayer::new();
    vec![
        Strategies::AlwaysDefect { player: AlwaysDefect { play: base.clone() } },
        Strategies::GrimTrigger { player: GrimTrigger { play: base.clone(), trig: false } },
        Strategies::TitForTat { player: TitForTat { play: base.clone() } },
        Strategies::RandomDefect { player: RandomDefect { play: base.clone(), probability_percent: 50 } },
        Strategies::TitForAverageTat { player: TitForAverageTat { play: base.clone(), memory: 0 } },
    ]
}

fn game(a: Strategies, a_num: usize, b: Strategies, b_num: usize) -> Config<Strategies, Strategies> {
    Config {
        player_a: a,
        player_a_num: a_num,
        player_b: b,
        player_b_num: b_num,
        game: Game {
            payoff_a: vec![vec![3, 0], vec![5, 1]],
            payoff_b: vec![vec![3, 5], vec![0, 1]],
            is_init: true,
        },
        num_rounds: 1,
        num_round_lengths: vec![1],
        location: String::new(),
        noisemodel: BaseNoiseModel::new(100),
    }
}

#[test]
fn knockout_counts_winners_twice() {
    let t = types();
    let results = vec![
        vec![game(with_score(t[2].clone(), 3), 0, with_score(t[0].clone(), 5), 1)],
        vec![game(with_score(t[1].clone(), 4), 2, with_score(t[4].clone(), 4), 3)],
        vec![
            game(with_score(t[4].clone(), 9), 4, with_score(t[0].clone(), 1), 5),
            game(with_score(t[0].clone(), 0), 4, with_score(t[0].clone(), 100), 5),
        ],
    ];
    let counts = knockout_next_counts(&results, &t);
    assert_eq!(counts, vec![2, 2, 0, 0, 2]);
}

#[test]
fn knockout_with_fewer_types() {
    let t = types();
    let results = vec![vec![game(with_score(t[2].clone(), 3), 0, with_score(t[0].clone(), 5), 1)]];
    let counts = knockout_next_counts(&results, &vec![t[2].clone()]);
    assert_eq!(counts, vec![0, 0, 0, 0, 0]);
    let counts = knockout_next_counts(&results, &vec![t[0].clone(), t[0].clone()]);
    assert_eq!(counts, vec![2, 2, 0, 0, 0]);
    let none: Vec<Vec<Config<Strategies, Strategies>>> = Vec::new();
    assert_eq!(knockout_next_counts(&none, &t), vec![0, 0, 0, 0, 0]);
}

#[test]
fn tally_sums_each_players_scores() {
    let t = types();
    let results = vec![
        vec![game(with_score(t[2].clone(), 3), 0, with_score(t[0].clone(), 5), 1)],
        vec![game(with_score(t[0].clone(), 4), 1, with_score(t[1].clone(), 7), 2)],
    ];
    assert!(can_tally_scores(&results, 3));
    let scores = tally_scores(&results, 3);
    assert_eq!(scores.len(), 3);
    assert_eq!((scores[0].name.as_str(), scores[0].score), ("TitForTat", 3));
    assert_eq!((scores[1].name.as_str(), scores[1].score), ("AlwaysDefect", 9));
    assert_eq!((scores[2].name.as_str(), scores[2].score), ("GrimTrigger", 7));
    let more = tally_scores(&results, 5);
    assert_eq!(more[4].score, 0);
    assert_eq!(more[4].name, "");
}

#[test]
fn tally_refuses_bad_numbers_and_overflow() {
    let t = types();
    let results = vec![vec![game(with_score(t[2].clone(), 3), 0, with_score(t[0].clone(), 5), 1)]];
    assert!(!can_tally_scores(&results, 1));
    let big = vec![
        vec![game(with_score(t[2].clone(), i32::MAX), 0, with_score(t[0].clone(), 5), 1)],
        vec![game(with_score(t[2].clone(), 1), 0, with_score(t[0].clone(), 5), 1)],
    ];
    assert!(!can_tally_scores(&big, 2));
    let fine = vec![
        vec![game(with_score(t[2].clone(), i32::MAX), 0, with_score(t[0].clone(), 5), 1)],
        vec![game(with_score(t[2].clone(), -1), 0, with_score(t[0].clone(), 5), 1)],
    ];
    assert!(can_tally_scores(&fine, 2));
}

#[test]
fn promoted_counts_take_the_top_half() {
    let t = types();
    let ranked = vec![
        StratScore { name: "AlwaysDefect".to_string(), score: 1 },
        StratScore { name: "TitForTat".to_string(), score: 2 },
        StratScore { name: "GrimTrigger".to_string(), score: 3 },
        StratScore { name: "TitForTat".to_string(), score: 4 },
    ];
    assert_eq!(promoted_counts(ranked, &t, 4), vec![0, 2, 2, 0, 0]);
    let ranked = vec![
        StratScore { name: "AlwaysDefect".to_string(), score: 1 },
        StratScore { name: "TitForTat".to_string(), score: 2 },
        StratScore { name: "TitForTat".to_string(), score: 4 },
    ];
    assert_eq!(promoted_counts(ranked, &t, 3), vec![0, 0, 2, 0, 0]);
}

#[test]
fn iterated_round_promotes_the_best() {
    let t = types();
    let results = vec![
        vec![game(with_score(t[2].clone(), 30), 0, with_score(t[0].clone(), 10), 1)],
        vec![game(with_score(t[4].clone(), 25), 2, with_score(t[1].clone(), 20), 3)],
    ];
    assert_eq!(iterated_next_counts(&results, &t, 4), vec![0, 0, 2, 0, 2]);
}

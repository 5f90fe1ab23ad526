use noisygames::player::{
    AlwaysDefect, BasicPlayer, GrimTrigger, Player, RandomDefect, Strategy, TitForAverageTat,
    TitForTat,
};
use noisygames::Strategies;

fn all_types() -> Vec<Strategies> {
    let base = BasicPlayer::new();
    vec![
        Strategies::AlwaysDefect { player: AlwaysDefect { play: base.clone() } },
        Strategies::GrimTrigger { player: GrimTrigger { play: base.clone(), trig: false } },
        Strategies::TitForTat { player: TitForTat { play: base.clone() } },
        Strategies::RandomDefect { player: RandomDefect { play: base.clone(), probability_percent: 50 } },
        Strategies::TitForAverageTat { player: TitForAverageTat { play: base.clone(), memory: 0 } },
    ]
}

#[test]
fn names_and_kinds() {
    let names = ["AlwaysDefect", "GrimTrigger", "TitForTat", "RandomDefect", "TitForAverageTat"];
    for (k, s) in all_types().iter().enumerate() {
        assert_eq!(s.get_strategy(), names[k]);
    }
}

#[test]
fn strategy_delegates() {
    let mut types = all_types();
    assert_eq!(types[0].strategy(), 1);
    assert_eq!(types[1].strategy(), 0);
    assert_eq!(types[2].strategy(), 0);
    let m = types[3].strategy();
    assert!(m == 0 || m == 1);
    assert_eq!(types[4].strategy(), 0);
}

#[test]
fn strategy_for_roll_is_exact() {
    let mut types = all_types();
    assert_eq!(types[3].strategy_for_roll(10), 1);
    assert_eq!(types[3].strategy_for_roll(50), 0);
    assert_eq!(types[0].strategy_for_roll(99), 1);
    assert_eq!(types[2].strategy_for_roll(0), 0);
}

#[test]
fn strategy_for_roll_updates_state() {
    let mut p = BasicPlayer::new();
    p.read_mv((0, 1), (0, 5));
    let mut g = Strategies::GrimTrigger { player: GrimTrigger { play: p.clone(), trig: false } };
    assert_eq!(g.strategy_for_roll(0), 1);
    match &g {
        Strategies::GrimTrigger { player } => assert!(player.trig),
        _ => panic!("kind changed"),
    }
    let mut t = Strategies::TitForAverageTat { player: TitForAverageTat { play: p, memory: 2 } };
    assert_eq!(t.strategy_for_roll(0), 0);
    match &t {
        Strategies::TitForAverageTat { player } => assert_eq!(player.memory, 1),
        _ => panic!("kind changed"),
    }
}

#[test]
fn get_player_and_player_agree() {
    let mut s = all_types().remove(2);
    s.get_player().read_mv((0, 1), (0, 5));
    assert_eq!(s.player().my_moves, vec![0]);
    assert_eq!(s.player().their_score, 5);
    assert_eq!(s.strategy(), 1);
}

#[test]
fn can_play_needs_binary_history_and_small_tally() {
    let mut p = BasicPlayer::new();
    p.read_mv((0, 7), (0, 0));
    let bad_tft = Strategies::TitForTat { player: TitForTat { play: p.clone() } };
    assert!(!bad_tft.can_play());
    let ok_grim = Strategies::GrimTrigger { player: GrimTrigger { play: p, trig: false } };
    assert!(ok_grim.can_play());
    let wild = Strategies::TitForAverageTat {
        player: TitForAverageTat { play: BasicPlayer::new(), memory: 50_000 },
    };
    assert!(!wild.can_play());
    for s in all_types() {
        assert!(s.can_play());
    }
}

#[test]
fn clone_keeps_variant_and_state() {
    let s = Strategies::TitForAverageTat {
        player: TitForAverageTat { play: BasicPlayer::new(), memory: -3 },
    };
    match s.clone() {
        Strategies::TitForAverageTat { player } => assert_eq!(player.memory, -3),
        _ => panic!("kind changed"),
    }
    let r = Strategies::RandomDefect {
        player: RandomDefect { play: BasicPlayer::new(), probability_percent: 17 },
    };
    match r.clone() {
        Strategies::RandomDefect { player } => assert_eq!(player.probability_percent, 17),
        _ => panic!("kind changed"),
    }
}

use noisygames::player::{
    AlwaysDefect, BasicPlayer, GrimTrigger, Player, RandomDefect, Strategy, TitForAverageTat,
    TitForTat,
};

fn player_with_their_moves(moves: &[i32]) -> BasicPlayer {
    let mut p = BasicPlayer::new();
    for m in moves {
        p.read_mv((0, *m), (0, 0));
    }
    p
}

#[test]
fn new_player_is_blank() {
    let p = BasicPlayer::new();
    assert_eq!(p.get_name(), "john");
    assert_eq!(p.get_my_score(), 0);
    assert_eq!(p.get_their_score(), 0);
    assert!(p.get_my_moves().is_empty());
    assert!(p.get_their_moves().is_empty());
    assert!(p.get_my_outcomes().is_empty());
    assert!(p.get_their_outcomes().is_empty());
}

#[test]
fn read_mv_appends_and_scores() {
    let mut p = BasicPlayer::new();
    p.read_mv((0, 1), (0, 5));
    p.read_mv((1, 1), (1, 1));
    assert_eq!(p.get_my_moves(), &vec![0, 1]);
    assert_eq!(p.get_their_moves(), &vec![1, 1]);
    assert_eq!(p.get_my_outcomes(), &vec![0, 1]);
    assert_eq!(p.get_their_outcomes(), &vec![5, 1]);
    assert_eq!(p.get_my_score(), 1);
    assert_eq!(p.get_their_score(), 6);
}

#[test]
fn update_score_adds_both_sides() {
    let mut p = BasicPlayer::new();
    p.update_score((3, -2));
    p.update_score((4, 7));
    assert_eq!(p.my_score, 7);
    assert_eq!(p.their_score, 5);
    assert!(p.my_moves.is_empty());
}

#[test]
fn score_is_sum_of_outcomes() {
    let mut p = BasicPlayer::new();
    let outcomes = [(3, 3), (0, 5), (5, 0), (1, 1)];
    for o in outcomes.iter() {
        p.read_mv((0, 0), *o);
    }
    assert_eq!(p.my_score, p.my_outcomes.iter().sum::<i32>());
    assert_eq!(p.their_score, p.their_outcomes.iter().sum::<i32>());
    assert_eq!(p.my_moves.len(), 4);
    assert_eq!(p.their_outcomes.len(), 4);
}

#[test]
fn clone_keeps_record() {
    let mut p = BasicPlayer::new();
    p.read_mv((1, 0), (5, 0));
    let q = p.clone();
    assert_eq!(q.name, p.name);
    assert_eq!(q.my_moves, p.my_moves);
    assert_eq!(q.their_moves, p.their_moves);
    assert_eq!(q.my_outcomes, p.my_outcomes);
    assert_eq!(q.their_outcomes, p.their_outcomes);
    assert_eq!(q.my_score, 5);
    assert_eq!(q.their_score, 0);
}

#[test]
fn tit_for_tat_repeats_last_move() {
    let mut t = TitForTat { play: BasicPlayer::new() };
    assert_eq!(t.strategy(), 0);
    t.get_player().read_mv((0, 1), (0, 5));
    assert_eq!(t.strategy(), 1);
    t.get_player().read_mv((1, 0), (5, 0));
    assert_eq!(t.strategy(), 0);
    assert_eq!(t.get_strategy(), "TitForTat");
}

#[test]
fn grim_trigger_defects_forever_after_a_defection() {
    let mut g = GrimTrigger { play: BasicPlayer::new(), trig: false };
    assert_eq!(g.strategy(), 0);
    g.get_player().read_mv((0, 0), (3, 3));
    assert_eq!(g.strategy(), 0);
    assert!(!g.trig);
    g.get_player().read_mv((0, 1), (0, 5));
    assert_eq!(g.strategy(), 1);
    assert!(g.trig);
    g.get_player().read_mv((1, 0), (5, 0));
    assert_eq!(g.strategy(), 1);
    assert!(g.trig);
    assert_eq!(g.get_strategy(), "GrimTrigger");
}

#[test]
fn grim_trigger_already_set_defects_at_once() {
    let mut g = GrimTrigger { play: BasicPlayer::new(), trig: true };
    assert_eq!(g.strategy(), 1);
    assert!(g.trig);
}

#[test]
fn always_defect_defects() {
    let mut a = AlwaysDefect { play: player_with_their_moves(&[0, 0, 0]) };
    for _ in 0..5 {
        assert_eq!(a.strategy(), 1);
    }
    assert_eq!(a.get_strategy(), "AlwaysDefect");
}

#[test]
fn random_defect_follows_the_roll() {
    let r = RandomDefect { play: BasicPlayer::new(), probability_percent: 50 };
    assert_eq!(r.move_for_roll(0), 1);
    assert_eq!(r.move_for_roll(49), 1);
    assert_eq!(r.move_for_roll(50), 0);
    assert_eq!(r.move_for_roll(100), 0);
    assert_eq!(r.get_strategy(), "RandomDefect");
}

#[test]
fn random_defect_extremes() {
    let mut never = RandomDefect { play: BasicPlayer::new(), probability_percent: 0 };
    let mut always = RandomDefect { play: BasicPlayer::new(), probability_percent: 101 };
    for _ in 0..50 {
        assert_eq!(never.strategy(), 0);
        assert_eq!(always.strategy(), 1);
    }
    let mut half = RandomDefect { play: BasicPlayer::new(), probability_percent: 50 };
    for _ in 0..50 {
        let m = half.strategy();
        assert!(m == 0 || m == 1);
    }
}

#[test]
fn tit_for_average_tat_cooperates_first() {
    let mut t = TitForAverageTat { play: BasicPlayer::new(), memory: 0 };
    assert_eq!(t.strategy(), 0);
    assert_eq!(t.memory, 0);
    assert_eq!(t.get_strategy(), "TitForAverageTat");
}

#[test]
fn tit_for_average_tat_tracks_a_tally() {
    let mut t = TitForAverageTat { play: player_with_their_moves(&[1]), memory: 0 };
    assert_eq!(t.strategy(), 1);
    assert_eq!(t.memory, -1);
    t.play = player_with_their_moves(&[0]);
    assert_eq!(t.strategy(), 0);
    assert_eq!(t.memory, 0);
    t.play = player_with_their_moves(&[0]);
    assert_eq!(t.strategy(), 0);
    assert_eq!(t.memory, 1);
}

#[test]
fn tit_for_average_tat_stays_in_band() {
    let mut t = TitForAverageTat { play: player_with_their_moves(&[1]), memory: -5 };
    assert_eq!(t.strategy(), 1);
    assert_eq!(t.memory, -5);
    let mut u = TitForAverageTat { play: player_with_their_moves(&[0]), memory: 5 };
    assert_eq!(u.strategy(), 0);
    assert_eq!(u.memory, 5);
    let mut w = TitForAverageTat { play: player_with_their_moves(&[1]), memory: 3 };
    for _ in 0..20 {
        w.strategy();
        assert!(-5 <= w.memory && w.memory <= 5);
    }
    assert_eq!(w.memory, -5);
}

#[test]
fn tit_for_average_tat_outside_band_keeps_tally() {
    let mut t = TitForAverageTat { play: player_with_their_moves(&[0]), memory: 10 };
    assert_eq!(t.strategy(), 0);
    assert_eq!(t.memory, 10);
    let mut u = TitForAverageTat { play: player_with_their_moves(&[1]), memory: -10 };
    assert_eq!(u.strategy(), 1);
    assert_eq!(u.memory, -10);
}

#[test]
fn get_player_reaches_the_record() {
    let mut a = AlwaysDefect { play: BasicPlayer::new() };
    a.get_player().my_score = 42;
    assert_eq!(a.play.my_score, 42);
    let mut g = GrimTrigger { play: BasicPlayer::new(), trig: true };
    g.get_player().read_mv((1, 1), (1, 1));
    assert!(g.trig);
    assert_eq!(g.play.my_moves, vec![1]);
}

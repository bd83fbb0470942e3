use farkle::strategy::{reserve_all_push_luck, reserve_some_push_luck};
use farkle::StateRolled;
use farkle::Value::{Five, Four, One, Six, Two};

#[test]
fn test_strategy() {
    let state = StateRolled {
        rolled: 5,
        scorable: vec![One, One, Five],
        score_at_risk: 100,
        score: 0,
    };

    let reserved = reserve_some_push_luck(&state);
    assert_eq!(vec![One, One], reserved)
}

#[test]
fn all_push_luck_reserves_every_die_that_scores() {
    let state = StateRolled {
        rolled: 6,
        scorable: vec![Two, Two, Two, One, Five],
        score_at_risk: 350,
        score: 0,
    };
    assert_eq!(vec![Two, Two, Two, One, Five], reserve_all_push_luck(&state));
}

#[test]
fn some_push_luck_reserves_all_for_a_fresh_roll() {
    let state = StateRolled {
        rolled: 4,
        scorable: vec![Two, Two, Two, Five],
        score_at_risk: 250,
        score: 0,
    };
    assert_eq!(vec![Two, Two, Two, Five], reserve_some_push_luck(&state));
}

#[test]
fn some_push_luck_leaves_three_twos() {
    let state = StateRolled {
        rolled: 6,
        scorable: vec![Two, Two, Two, One, Five],
        score_at_risk: 350,
        score: 0,
    };
    assert_eq!(vec![One, Five], reserve_some_push_luck(&state));
}

#[test]
fn some_push_luck_keeps_three_twos_alone() {
    let state = StateRolled {
        rolled: 5,
        scorable: vec![Two, Two, Two],
        score_at_risk: 200,
        score: 0,
    };
    assert_eq!(vec![Two, Two, Two], reserve_some_push_luck(&state));
}

#[test]
fn some_push_luck_leaves_fives_of_a_large_roll() {
    let state = StateRolled {
        rolled: 6,
        scorable: vec![Four, Four, Four, Five, Five],
        score_at_risk: 500,
        score: 0,
    };
    assert_eq!(vec![Four, Four, Four], reserve_some_push_luck(&state));
}

#[test]
fn some_push_luck_keeps_fives_of_a_small_roll() {
    let state = StateRolled {
        rolled: 3,
        scorable: vec![One, Five],
        score_at_risk: 150,
        score: 0,
    };
    assert_eq!(vec![One, Five], reserve_some_push_luck(&state));
}

#[test]
fn some_push_luck_keeps_fives_that_score_alone() {
    let state = StateRolled {
        rolled: 5,
        scorable: vec![Five, Five],
        score_at_risk: 100,
        score: 0,
    };
    assert_eq!(vec![Five, Five], reserve_some_push_luck(&state));
    let triple = StateRolled {
        rolled: 5,
        scorable: vec![Five, Five, Five, One],
        score_at_risk: 600,
        score: 0,
    };
    assert_eq!(vec![Five, Five, Five, One], reserve_some_push_luck(&triple));
}

#[test]
fn the_players_never_stop() {
    let shown = [
        vec![One],
        vec![Five],
        vec![Two, Two, Two],
        vec![Two, Two, Two, Five],
        vec![Six, Six, Six, Six, One],
    ];
    for scorable in shown {
        for rolled in scorable.len()..=6 {
            let state = StateRolled {
                rolled,
                scorable: scorable.clone(),
                score_at_risk: 1000,
                score: 0,
            };
            assert!(!reserve_all_push_luck(&state).is_empty());
            let some = reserve_some_push_luck(&state);
            assert!(!some.is_empty());
            assert!(some.iter().all(|die| scorable.contains(die)));
        }
    }
}

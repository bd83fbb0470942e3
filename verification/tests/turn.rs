use farkle::rolling::roll_dice;
use farkle::strategy::{reserve_all_push_luck, reserve_some_push_luck};
use farkle::turn::{settle, step_rolled};
use farkle::Value::{Five, Four, One, Six, Three, Two};
use farkle::{step, StateRolled, StateUnrolled, Value};
use rand::rngs::ThreadRng;

fn bank(_: &StateRolled) -> Vec<Value> {
    vec![]
}

#[test]
fn a_game_starts_with_six_dice_and_no_points() {
    assert_eq!(
        StateUnrolled {
            dice_left: 6,
            score_at_risk: 0,
            score: 0
        },
        StateUnrolled::default()
    );
}

#[test]
fn a_bust_loses_the_points_at_risk() {
    let state = StateUnrolled {
        dice_left: 4,
        score_at_risk: 800,
        score: 1200,
    };
    let next = step_rolled(state, reserve_all_push_luck, &[Two, Three, Four, Six]);
    assert_eq!(
        StateUnrolled {
            dice_left: 6,
            score_at_risk: 0,
            score: 1200
        },
        next
    );
}

#[test]
fn a_bust_does_not_ask_the_strategy() {
    let state = StateUnrolled {
        dice_left: 2,
        score_at_risk: 50,
        score: 0,
    };
    let never = |_: &StateRolled| -> Vec<Value> { panic!("asked after a bust") };
    let next = step_rolled(state, never, &[Two, Six]);
    assert_eq!(StateUnrolled::default(), next);
}

#[test]
fn rolling_no_dice_is_a_bust() {
    let state = StateUnrolled {
        dice_left: 0,
        score_at_risk: 300,
        score: 100,
    };
    let next = step_rolled(state, reserve_all_push_luck, &[]);
    assert_eq!(
        StateUnrolled {
            dice_left: 6,
            score_at_risk: 0,
            score: 100
        },
        next
    );
}

#[test]
fn reserving_nothing_banks_the_points_at_risk() {
    let state = StateUnrolled {
        dice_left: 3,
        score_at_risk: 400,
        score: 1000,
    };
    let next = step_rolled(state, bank, &[One, Two, Five]);
    assert_eq!(
        StateUnrolled {
            dice_left: 6,
            score_at_risk: 0,
            score: 1550
        },
        next
    );
}

#[test]
fn the_strategy_is_shown_the_roll() {
    let state = StateUnrolled {
        dice_left: 5,
        score_at_risk: 400,
        score: 1000,
    };
    let look = |shown: &StateRolled| -> Vec<Value> {
        assert_eq!(
            &StateRolled {
                rolled: 5,
                scorable: vec![Four, Four, Four, Five],
                score_at_risk: 850,
                score: 1000
            },
            shown
        );
        vec![]
    };
    let next = step_rolled(state, look, &[Four, Five, Four, Two, Four]);
    assert_eq!(1850, next.score);
}

#[test]
fn reserved_dice_put_their_points_at_risk() {
    let state = StateUnrolled {
        dice_left: 6,
        score_at_risk: 100,
        score: 700,
    };
    let next = step_rolled(state, reserve_all_push_luck, &[One, Two, Five, Six, Six, Three]);
    assert_eq!(
        StateUnrolled {
            dice_left: 4,
            score_at_risk: 250,
            score: 700
        },
        next
    );
}

#[test]
fn only_the_reserved_dice_count() {
    let state = StateUnrolled {
        dice_left: 6,
        score_at_risk: 0,
        score: 0,
    };
    let next = step_rolled(state, reserve_some_push_luck, &[One, Two, Five, Six, Six, Three]);
    assert_eq!(
        StateUnrolled {
            dice_left: 5,
            score_at_risk: 100,
            score: 0
        },
        next
    );
}

#[test]
fn reserving_every_rolled_die_gives_six_dice_again() {
    let state = StateUnrolled {
        dice_left: 2,
        score_at_risk: 1000,
        score: 0,
    };
    let next = step_rolled(state, reserve_all_push_luck, &[Five, One]);
    assert_eq!(
        StateUnrolled {
            dice_left: 6,
            score_at_risk: 1150,
            score: 0
        },
        next
    );
    let whole = step_rolled(StateUnrolled::default(), reserve_all_push_luck, &[Three; 6]);
    assert_eq!(
        StateUnrolled {
            dice_left: 6,
            score_at_risk: 3000,
            score: 0
        },
        whole
    );
}

#[test]
fn settle_banks_on_an_empty_choice() {
    let state = StateUnrolled {
        dice_left: 4,
        score_at_risk: 300,
        score: 50,
    };
    assert_eq!(
        StateUnrolled {
            dice_left: 6,
            score_at_risk: 0,
            score: 550
        },
        settle(&state, 200, &[])
    );
}

#[test]
fn settle_scores_the_choice_alone() {
    let state = StateUnrolled {
        dice_left: 4,
        score_at_risk: 300,
        score: 50,
    };
    assert_eq!(
        StateUnrolled {
            dice_left: 3,
            score_at_risk: 400,
            score: 50
        },
        settle(&state, 200, &[One])
    );
    // dice that do not score are taken at their word
    assert_eq!(
        StateUnrolled {
            dice_left: 2,
            score_at_risk: 300,
            score: 50
        },
        settle(&state, 200, &[Two, Three])
    );
    assert_eq!(
        StateUnrolled {
            dice_left: 6,
            score_at_risk: 500,
            score: 50
        },
        settle(&state, 200, &[One, Five, Two, Five])
    );
}

#[test]
fn rolled_dice_show_every_face() {
    let mut rng = ThreadRng::default();
    let dice = roll_dice(600, &mut rng);
    assert_eq!(600, dice.len());
    for face in [One, Two, Three, Four, Five, Six] {
        assert!(dice.contains(&face));
    }
    assert!(roll_dice(0, &mut rng).is_empty());
}

#[test]
fn a_step_leaves_a_turn_that_can_be_played() {
    let mut rng = ThreadRng::default();
    let mut state = StateUnrolled::default();
    for _ in 0..2000 {
        let before = state.clone();
        state = step(state, reserve_some_push_luck, &mut rng);
        assert!(1 <= state.dice_left && state.dice_left <= 6);
        assert_eq!(0, state.score);
        assert_eq!(0, state.score_at_risk % 50);
        assert!(state.score_at_risk == 0 || state.score_at_risk > before.score_at_risk);
        if state.score_at_risk == 0 {
            assert_eq!(6, state.dice_left);
        }
    }
}

#[test]
fn a_step_banks_for_a_player_who_stops() {
    let mut rng = ThreadRng::default();
    let mut state = StateUnrolled::default();
    for _ in 0..500 {
        let before = state.score;
        state = step(state, bank, &mut rng);
        assert_eq!(6, state.dice_left);
        assert_eq!(0, state.score_at_risk);
        assert!(state.score >= before);
        assert!(state.score <= before + 3000);
    }
    assert!(state.score > 0);
}

#[test]
fn a_step_takes_its_dice_from_the_source() {
    let ones = || One;
    let next = farkle::turn::step_from(StateUnrolled::default(), reserve_all_push_luck, ones);
    assert_eq!(
        StateUnrolled {
            dice_left: 6,
            score_at_risk: 3000,
            score: 0
        },
        next
    );
    let state = StateUnrolled {
        dice_left: 2,
        score_at_risk: 500,
        score: 250,
    };
    let fours: &farkle::rolling::Roll = &|| Four;
    let bust = farkle::turn::step_from(state, reserve_all_push_luck, fours);
    assert_eq!(
        StateUnrolled {
            dice_left: 6,
            score_at_risk: 0,
            score: 250
        },
        bust
    );
}

#[test]
fn a_source_is_asked_once_for_each_die() {
    let asked = std::cell::Cell::new(0usize);
    let source = || {
        asked.set(asked.get() + 1);
        Five
    };
    let dice = farkle::rolling::roll_from(4, &source);
    assert_eq!(vec![Five, Five, Five, Five], dice);
    assert_eq!(4, asked.get());
}

use farkle::score;
use farkle::Value;
use farkle::Value::{Five, Four, One, Six, Three, Two};

const FACES: [Value; 6] = [One, Two, Three, Four, Five, Six];

/// How many dice show each face.
fn tally(dice: &[Value]) -> [usize; 6] {
    let mut counts = [0usize; 6];
    for die in dice {
        let at = FACES.iter().position(|face| face == die).unwrap();
        counts[at] += 1;
    }
    counts
}

/// Every roll of `n` dice, each once for every order of its dice.
fn rolls_of(n: usize) -> Vec<Vec<Value>> {
    let mut rolls: Vec<Vec<Value>> = vec![vec![]];
    for _ in 0..n {
        let mut longer = Vec::new();
        for roll in &rolls {
            for face in FACES {
                let mut next = roll.clone();
                next.push(face);
                longer.push(next);
            }
        }
        rolls = longer;
    }
    rolls
}

#[test]
fn test_scores() {
    assert_eq!(3000, score(&[One, One, One, One, One, One]).0);
    assert_eq!(2500, score(&[One, Two, Three, Four, Five, Six]).0);
    assert_eq!(2050, score(&[One, One, One, One, One, Five]).0);
    assert_eq!(2500, score(&[One, One, One, Two, Two, Two]).0);
    assert_eq!(1500, score(&[One, One, Two, Two, Two, Two]).0);
    assert_eq!(
        (200, vec![One, Five, Five]),
        score(&[Five, Five, One, Two, Three, Two])
    );
    assert_eq!(300, score(&[One, One, One]).0);
    assert_eq!(0, score(&[]).0);
    assert_eq!((50, vec![Five]), score(&[Two, Five]));

    assert_eq!((150, vec![One, Five]), score(&[One, Five]));

    assert_eq!(
        (300, vec![One, One, Five, Five]),
        score(&[Six, One, Five, One, Four, Five])
    );
}

#[test]
fn no_dice_score_nothing() {
    assert_eq!((0, vec![]), score(&[]));
}

#[test]
fn six_of_a_kind_takes_all_six() {
    assert_eq!((3000, vec![One; 6]), score(&[One, One, One, One, One, One]));
    assert_eq!((3000, vec![Four; 6]), score(&[Four; 6]));
}

#[test]
fn straight_takes_all_six() {
    assert_eq!(
        (2500, vec![One, Two, Three, Four, Five, Six]),
        score(&[One, Two, Three, Four, Five, Six])
    );
    assert_eq!(
        (2500, vec![One, Two, Three, Four, Five, Six]),
        score(&[Six, Four, Two, Five, Three, One])
    );
}

#[test]
fn five_of_a_kind_and_the_die_left_over() {
    assert_eq!(
        (2050, vec![One, One, One, One, One, Five]),
        score(&[One, One, One, One, One, Five])
    );
    assert_eq!(
        (2100, vec![Three, Three, Three, Three, Three, One]),
        score(&[Three, One, Three, Three, Three, Three])
    );
    assert_eq!((2000, vec![Six; 5]), score(&[Six, Six, Six, Two, Six, Six]));
    assert_eq!((2000, vec![Two; 5]), score(&[Two; 5]));
}

#[test]
fn two_triples_take_all_six() {
    let (points, consumed) = score(&[One, One, One, Two, Two, Two]);
    assert_eq!(2500, points);
    assert_eq!(vec![One, Two, One, Two, One, Two], consumed);
    let (points, consumed) = score(&[Six, Three, Six, Three, Three, Six]);
    assert_eq!(2500, points);
    assert_eq!(tally(&[Three, Three, Three, Six, Six, Six]), tally(&consumed));
}

#[test]
fn four_of_a_kind_and_a_pair_take_all_six() {
    let (points, consumed) = score(&[One, One, Two, Two, Two, Two]);
    assert_eq!(1500, points);
    assert_eq!(vec![Two, Two, Two, Two, One, One], consumed);
    assert_eq!(tally(&[One, One, Two, Two, Two, Two]), tally(&consumed));
    // a pair of ones beside four of a kind is not scored as two ones
    assert_eq!(1500, score(&[Five, Five, Five, Five, One, One]).0);
}

#[test]
fn three_pairs_take_all_six() {
    let (points, consumed) = score(&[Two, Four, Six, Six, Four, Two]);
    assert_eq!(1500, points);
    assert_eq!(vec![Two, Four, Six, Two, Four, Six], consumed);
    assert_eq!(1500, score(&[One, One, Five, Five, Three, Three]).0);
}

#[test]
fn four_of_a_kind_and_the_dice_left_over() {
    assert_eq!((2000, vec![Two; 4]), score(&[Two, Two, Two, Two]));
    assert_eq!(
        (2150, vec![Three, Three, Three, Three, One, Five]),
        score(&[Five, Three, Three, One, Three, Three])
    );
    assert_eq!((2000, vec![Six; 4]), score(&[Six, Six, Two, Six, Six, Three]));
}

#[test]
fn three_of_a_kind_by_face() {
    assert_eq!((300, vec![One; 3]), score(&[One, One, One]));
    assert_eq!((200, vec![Two; 3]), score(&[Two, Two, Two]));
    assert_eq!((300, vec![Three; 3]), score(&[Three, Three, Three]));
    assert_eq!((400, vec![Four; 3]), score(&[Four, Four, Four]));
    assert_eq!((500, vec![Five; 3]), score(&[Five, Five, Five]));
    assert_eq!((600, vec![Six; 3]), score(&[Six, Six, Six]));
}

#[test]
fn three_of_a_kind_and_the_dice_left_over() {
    assert_eq!(
        (750, vec![Six, Six, Six, One, Five]),
        score(&[One, Six, Five, Six, Two, Six])
    );
    assert_eq!(
        (400, vec![Two, Two, Two, One, One]),
        score(&[One, Two, Two, One, Two])
    );
    assert_eq!(
        (600, vec![Five, Five, Five, One]),
        score(&[Five, One, Five, Five, Four, Four])
    );
}

#[test]
fn single_ones_and_fives() {
    assert_eq!(
        (200, vec![One, Five, Five]),
        score(&[Five, Five, One, Two, Three, Two])
    );
    assert_eq!((50, vec![Five]), score(&[Two, Five]));
    assert_eq!((100, vec![One]), score(&[One]));
    assert_eq!((200, vec![One, One]), score(&[One, One]));
    assert_eq!((100, vec![Five, Five]), score(&[Five, Six, Five]));
    assert_eq!((300, vec![One, One, Five, Five]), score(&[One, One, Five, Five]));
}

#[test]
fn rolls_without_a_combination_score_nothing() {
    assert_eq!((0, vec![]), score(&[Two]));
    assert_eq!((0, vec![]), score(&[Two, Two, Three, Three, Four, Six]));
    assert_eq!((0, vec![]), score(&[Six, Four, Three, Two]));
}

#[test]
fn consumed_dice_are_dice_of_the_roll() {
    for n in 0..=6 {
        for roll in rolls_of(n) {
            let (_, consumed) = score(&roll);
            let have = tally(&roll);
            let took = tally(&consumed);
            for face in 0..6 {
                assert!(took[face] <= have[face], "{:?} -> {:?}", roll, consumed);
            }
        }
    }
}

#[test]
fn consumed_dice_score_again_as_they_did() {
    assert_eq!(200, score(&[One, One]).0);
    for n in 0..=6 {
        for roll in rolls_of(n) {
            let first = score(&roll);
            let again = score(&first.1);
            assert_eq!(first, again, "{:?}", roll);
        }
    }
}

#[test]
fn the_order_of_the_dice_is_of_no_account() {
    let expected = score(&[One, Five, Five, Two, Two, Three]);
    assert_eq!(expected, score(&[Three, Two, Five, Two, Five, One]));
    assert_eq!(expected, score(&[Five, Two, One, Three, Two, Five]));
}

#[test]
fn points_come_in_fifties_up_to_three_thousand() {
    for n in 0..=6 {
        for roll in rolls_of(n) {
            let (points, consumed) = score(&roll);
            assert!(points <= 500 * n);
            assert_eq!(0, points % 50);
            assert_eq!(points == 0, consumed.is_empty());
        }
    }
}

#[test]
fn dice_that_are_not_taken_score_nothing() {
    assert_eq!(0, score(&[Two, Three, Two]).0);
    for n in 0..=6 {
        for roll in rolls_of(n) {
            let (_, consumed) = score(&roll);
            let mut rest = roll.clone();
            for die in &consumed {
                let at = rest.iter().position(|other| other == die).unwrap();
                rest.remove(at);
            }
            assert_eq!((0, vec![]), score(&rest), "{:?}", roll);
        }
    }
}

#[test]
fn a_combination_scores_alone_as_in_the_roll() {
    assert_eq!((200, vec![One, One]), score(&[One, One]));
    assert_eq!((200, vec![Two, Two, Two]), score(&[Two, Two, Two]));
    for n in 0..=6 {
        for roll in rolls_of(n) {
            let counts = farkle::tally::Counts::of(&roll);
            let found = farkle::combination::Combination::found_in(&counts);
            let points = found.points_in(&counts);
            let dice = found.dice_in(&counts);
            assert_eq!((points, dice.clone()), score(&dice), "{:?}", roll);
        }
    }
}

use farkle::simulation::samples;
use farkle::stats::{count_leading, descending_key, tail_counts, thresholds};

#[test]
fn the_scores_asked_about() {
    assert_eq!(
        vec![
            50, 300, 500, 750, 1000, 1500, 2000, 2500, 3000, 3500, 4000, 4500, 5000, 5500, 6000,
            6500, 7500, 8500, 9450, 9500, 10000
        ],
        thresholds()
    );
}

#[test]
fn greater_results_have_smaller_keys() {
    assert_eq!(usize::MAX, descending_key(&0));
    assert_eq!(usize::MAX - 300, descending_key(&300));
    assert_eq!(0, descending_key(&usize::MAX));
}

#[test]
fn leading_results_are_counted() {
    assert_eq!(0, count_leading(&vec![], 50));
    assert_eq!(3, count_leading(&vec![900, 300, 300, 250, 0], 300));
    assert_eq!(5, count_leading(&vec![900, 300, 300, 250, 0], 0));
    assert_eq!(0, count_leading(&vec![900, 300, 300, 250, 0], 901));
}

#[test]
fn results_are_counted_whatever_their_order() {
    let counts = tail_counts(vec![50, 10000, 0, 300, 9450, 0, 2500, 300, 12000]);
    let expected: Vec<(usize, usize)> = vec![
        (50, 7),
        (300, 6),
        (500, 4),
        (750, 4),
        (1000, 4),
        (1500, 4),
        (2000, 4),
        (2500, 4),
        (3000, 3),
        (3500, 3),
        (4000, 3),
        (4500, 3),
        (5000, 3),
        (5500, 3),
        (6000, 3),
        (6500, 3),
        (7500, 3),
        (8500, 3),
        (9450, 3),
        (9500, 2),
        (10000, 2),
    ];
    assert_eq!(expected, counts);
}

#[test]
fn no_results_reach_no_score() {
    let counts = tail_counts(vec![]);
    assert_eq!(21, counts.len());
    assert!(counts.iter().all(|(_, count)| *count == 0));
}

#[test]
fn samples_tell_of_every_turn() {
    assert!(samples(0).is_empty());
    let turns = samples(3000);
    assert_eq!(3000, turns.len());
    assert!(turns.iter().all(|most| most % 50 == 0));
    // some turns bust at once, and some do not
    assert!(turns.iter().any(|most| *most == 0));
    assert!(turns.iter().any(|most| *most > 0));
}

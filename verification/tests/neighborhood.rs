use boids::neighborhood::{rule_applies, survey, Rule};
use boids::{DistanceTable, Scalar};

fn scalar(value: f32) -> Scalar {
    Scalar::from_bits(value.to_bits())
}

fn table(rows: &[&[f32]]) -> DistanceTable {
    let rows: Vec<Vec<Scalar>> =
        rows.iter().map(|row| row.iter().map(|v| scalar(*v)).collect()).collect();
    DistanceTable::from_rows(rows).unwrap()
}

#[test]
fn sight_is_a_strict_comparison() {
    assert!(rule_applies(Rule::Sight, scalar(24.0), scalar(25.0)));
    assert!(!rule_applies(Rule::Sight, scalar(25.0), scalar(25.0)));
    assert!(!rule_applies(Rule::Sight, scalar(26.0), scalar(25.0)));
    assert!(rule_applies(Rule::Sight, scalar(0.0), scalar(25.0)));
}

#[test]
fn a_pair_at_the_threshold_is_excluded_and_one_just_below_is_included() {
    for threshold in [25.0f32, 10.0, 1.0, 1.0e-10, 3.0e38] {
        let below = f32::from_bits(threshold.to_bits() - 1);
        for rule in [Rule::Sight, Rule::Crowding] {
            assert!(!rule_applies(rule, scalar(threshold), scalar(threshold)));
            assert!(rule_applies(rule, scalar(below), scalar(threshold)));
        }
    }
}

#[test]
fn crowding_leaves_out_coincident_agents() {
    assert!(!rule_applies(Rule::Crowding, scalar(0.0), scalar(10.0)));
    assert!(!rule_applies(Rule::Crowding, scalar(-0.0), scalar(10.0)));
    assert!(!rule_applies(Rule::Crowding, Scalar::from_bits(1), scalar(10.0)));
    assert!(!rule_applies(Rule::Crowding, Scalar::from_bits(0x007f_ffff), scalar(10.0)));
    assert!(rule_applies(Rule::Crowding, scalar(f32::MIN_POSITIVE), scalar(10.0)));
    assert!(rule_applies(Rule::Crowding, scalar(5.0), scalar(10.0)));
    assert!(!rule_applies(Rule::Crowding, scalar(10.0), scalar(10.0)));
    assert!(rule_applies(Rule::Crowding, scalar(f32::MAX), scalar(f32::INFINITY)));
    assert!(!rule_applies(Rule::Crowding, scalar(f32::INFINITY), scalar(f32::INFINITY)));
}

#[test]
fn nan_never_applies() {
    for rule in [Rule::Sight, Rule::Crowding] {
        assert!(!rule_applies(rule, scalar(f32::NAN), scalar(25.0)));
        assert!(!rule_applies(rule, scalar(5.0), scalar(f32::NAN)));
    }
}

#[test]
fn a_threshold_of_zero_or_less_switches_the_rule_off() {
    for threshold in [0.0f32, -0.0, -1.0, -25.0, f32::NEG_INFINITY] {
        for distance in [0.0f32, 1.0e-30, 1.0, 25.0, f32::MAX, f32::INFINITY] {
            for rule in [Rule::Sight, Rule::Crowding] {
                assert!(!rule_applies(rule, scalar(distance), scalar(threshold)));
            }
        }
    }
}

#[test]
fn survey_lists_the_linked_pairs_in_visiting_order() {
    // Four agents on a line at 0, 3, 6 and 20.
    let distances = table(&[&[3.0, 6.0, 20.0], &[3.0, 17.0], &[14.0], &[]]);
    let found = survey(&distances, Rule::Sight, scalar(10.0));
    assert_eq!(found.pairs, vec![(0, 1), (0, 2), (1, 2)]);
    assert_eq!(found.counts, vec![2, 2, 2, 0]);

    let found = survey(&distances, Rule::Sight, scalar(15.0));
    assert_eq!(found.pairs, vec![(0, 1), (0, 2), (1, 2), (2, 3)]);
    assert_eq!(found.counts, vec![2, 2, 3, 1]);

    let found = survey(&distances, Rule::Sight, scalar(25.0));
    assert_eq!(found.pairs, vec![(0, 1), (0, 2), (0, 3), (1, 2), (1, 3), (2, 3)]);
    assert_eq!(found.counts, vec![3, 3, 3, 3]);

    let found = survey(&distances, Rule::Sight, scalar(3.0));
    assert_eq!(found.pairs, vec![]);
    assert_eq!(found.counts, vec![0, 0, 0, 0]);
}

#[test]
fn survey_counts_a_pair_for_both_agents() {
    let distances = table(&[&[9.0, 1.0, 9.0, 9.0], &[9.0, 9.0, 1.0], &[9.0, 9.0], &[1.0], &[]]);
    let found = survey(&distances, Rule::Sight, scalar(5.0));
    assert_eq!(found.pairs, vec![(0, 2), (1, 4), (3, 4)]);
    assert_eq!(found.counts, vec![1, 1, 1, 1, 2]);
    let total: usize = found.counts.iter().sum();
    assert_eq!(total, 2 * found.pairs.len());
    for k in 0..5 {
        let memberships = found.pairs.iter().filter(|p| p.0 == k || p.1 == k).count();
        assert_eq!(found.counts[k], memberships);
    }
}

#[test]
fn survey_of_crowding_skips_coincident_pairs() {
    let distances = table(&[&[0.0, 4.0], &[4.0], &[]]);
    let crowding = survey(&distances, Rule::Crowding, scalar(10.0));
    assert_eq!(crowding.pairs, vec![(0, 2), (1, 2)]);
    assert_eq!(crowding.counts, vec![1, 1, 2]);
    let sight = survey(&distances, Rule::Sight, scalar(10.0));
    assert_eq!(sight.pairs, vec![(0, 1), (0, 2), (1, 2)]);
    assert_eq!(sight.counts, vec![2, 2, 2]);
}

#[test]
fn survey_of_small_flocks() {
    let nobody = survey(&table(&[]), Rule::Sight, scalar(25.0));
    assert_eq!(nobody.pairs, vec![]);
    assert_eq!(nobody.counts, Vec::<usize>::new());
    let alone = survey(&table(&[&[]]), Rule::Sight, scalar(25.0));
    assert_eq!(alone.pairs, vec![]);
    assert_eq!(alone.counts, vec![0]);
}

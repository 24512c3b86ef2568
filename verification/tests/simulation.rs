use mdsim::simulation::interaction_pairs;

#[test]
fn fewer_than_two_particles_have_no_pairs() {
    assert_eq!(interaction_pairs(0), vec![]);
    assert_eq!(interaction_pairs(1), vec![]);
}

#[test]
fn two_particles_have_one_pair() {
    assert_eq!(interaction_pairs(2), vec![(0, 1)]);
}

#[test]
fn pairs_of_four_particles_in_order() {
    assert_eq!(interaction_pairs(4), vec![(0, 1), (0, 2), (0, 3), (1, 2), (1, 3), (2, 3)]);
}

#[test]
fn every_unordered_pair_occurs_once() {
    let n = 17;
    let pairs = interaction_pairs(n);
    assert_eq!(pairs.len(), n * (n - 1) / 2);
    let mut seen = vec![vec![0u32; n]; n];
    for (i, j) in pairs {
        assert!(i < j && j < n);
        seen[i][j] += 1;
    }
    for i in 0..n {
        for j in 0..n {
            assert_eq!(seen[i][j], if i < j { 1 } else { 0 });
        }
    }
}

#[test]
fn a_pair_gives_its_two_particles_opposite_forces() {
    let mut totals = vec![[0.0f64; 3]; 4];
    let plus = |a: [f64; 3], b: [f64; 3]| [a[0] + b[0], a[1] + b[1], a[2] + b[2]];
    let opposite = |a: [f64; 3]| [-a[0], -a[1], -a[2]];
    mdsim::simulation::apply_pair(&mut totals, (1, 3), [0.1, -2.5, 7.0], plus, opposite);
    assert_eq!(totals[1], [0.1, -2.5, 7.0]);
    assert_eq!(totals[3], [-0.1, 2.5, -7.0]);
    assert_eq!(totals[0], [0.0, 0.0, 0.0]);
    assert_eq!(totals[2], [0.0, 0.0, 0.0]);
    for k in 0..3 {
        assert_eq!(totals[1][k], -totals[3][k]);
    }
}

#[test]
fn forces_of_all_pairs_add_up_to_nothing() {
    let n = 5;
    let mut totals = vec![0i64; n];
    for (i, j) in interaction_pairs(n) {
        let force = (i as i64 + 1) * 100 + j as i64;
        mdsim::simulation::apply_pair(&mut totals, (i, j), force, |a, b| a + b, |a: i64| -a);
    }
    assert_eq!(totals.iter().sum::<i64>(), 0);
    assert_eq!(totals[0], 101 + 102 + 103 + 104);
    assert_eq!(totals[4], -104 - 204 - 304 - 404);
}

#[test]
fn a_pair_may_be_given_in_either_order() {
    let mut totals = vec![1i64, 2, 3];
    mdsim::simulation::apply_pair(&mut totals, (2, 0), 10, |a, b| a + b, |a: i64| -a);
    assert_eq!(totals, vec![-9, 2, 13]);
}

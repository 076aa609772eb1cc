use nbody::body::Body;
use nbody::contacts::Contacts;
use nbody::merge::Merge;
use nbody::sweep::{sweep, Outcome, Pull};

fn planets(mass_ranks: &[u32]) -> Vec<Body> {
    mass_ranks.iter().map(|m| Body { is_sun: false, radius_rank: 1, mass_rank: *m }).collect()
}

fn contacts(n: usize, pairs: &[(usize, usize)]) -> Contacts {
    let mut c = Contacts::new(n);
    for (i, j) in pairs {
        c.mark(*i, *j);
        c.mark(*j, *i);
    }
    c
}

fn free(source: usize) -> Pull {
    Pull { source, clamped: false }
}

fn clamped(source: usize) -> Pull {
    Pull { source, clamped: true }
}

#[test]
fn sweeping_nothing_gives_nothing() {
    let out = sweep(&vec![], &Contacts::new(0), true);
    assert_eq!(out, Outcome { merged_away: vec![], merges: vec![], pulls: vec![] });
}

#[test]
fn a_lone_body_feels_no_pull() {
    let bodies = vec![Body { is_sun: true, radius_rank: 30, mass_rank: 5 }];
    for merging in [false, true] {
        let out = sweep(&bodies, &contacts(1, &[]), merging);
        assert_eq!(out.merged_away, vec![false]);
        assert_eq!(out.merges, vec![]);
        assert_eq!(out.pulls, vec![vec![]]);
    }
}

#[test]
fn a_body_that_touches_itself_does_not_merge() {
    let mut c = Contacts::new(1);
    c.mark(0, 0);
    let out = sweep(&planets(&[1]), &c, true);
    assert_eq!(out.merged_away, vec![false]);
    assert_eq!(out.merges, vec![]);
    assert_eq!(out.pulls, vec![vec![]]);
}

#[test]
fn two_distant_bodies_pull_on_each_other() {
    let out = sweep(&planets(&[3, 4]), &contacts(2, &[]), true);
    assert_eq!(out.merged_away, vec![false, false]);
    assert_eq!(out.merges, vec![]);
    assert_eq!(out.pulls, vec![vec![free(1)], vec![free(0)]]);
}

#[test]
fn two_equal_bodies_meeting_head_on_merge_into_one() {
    let out = sweep(&planets(&[7, 7]), &contacts(2, &[(0, 1)]), true);
    assert_eq!(out.merged_away, vec![true, true]);
    assert_eq!(out.merges, vec![Merge { survivor: 1, absorbed: 0, is_sun: false }]);
    assert_eq!(out.pulls, vec![vec![], vec![]]);
}

#[test]
fn overlapping_bodies_pull_with_clamped_distance_when_merging_is_off() {
    let out = sweep(&planets(&[7, 7]), &contacts(2, &[(0, 1)]), false);
    assert_eq!(out.merged_away, vec![false, false]);
    assert_eq!(out.merges, vec![]);
    assert_eq!(out.pulls, vec![vec![clamped(1)], vec![clamped(0)]]);
}

#[test]
fn every_body_is_pulled_by_every_other_in_index_order() {
    let out = sweep(&planets(&[1, 2, 3, 4]), &contacts(4, &[(1, 3)]), false);
    assert_eq!(out.merges, vec![]);
    assert_eq!(
        out.pulls,
        vec![
            vec![free(1), free(2), free(3)],
            vec![free(0), free(2), clamped(3)],
            vec![free(0), free(1), free(3)],
            vec![free(0), clamped(1), free(2)],
        ]
    );
}

#[test]
fn the_first_pair_found_wins_a_chain_of_contacts() {
    // 0 touches 1 and 1 touches 2: the sweep finds (0, 1) first, so 2 stays.
    let out = sweep(&planets(&[5, 9, 2]), &contacts(3, &[(0, 1), (1, 2)]), true);
    assert_eq!(out.merged_away, vec![true, true, false]);
    assert_eq!(out.merges, vec![Merge { survivor: 1, absorbed: 0, is_sun: false }]);
    assert_eq!(out.pulls, vec![vec![], vec![], vec![]]);
}

#[test]
fn a_body_touching_two_others_merges_with_the_lower_one() {
    let out = sweep(&planets(&[5, 1, 1]), &contacts(3, &[(0, 1), (0, 2)]), true);
    assert_eq!(out.merged_away, vec![true, true, false]);
    assert_eq!(out.merges, vec![Merge { survivor: 0, absorbed: 1, is_sun: false }]);
    assert_eq!(out.pulls, vec![vec![], vec![], vec![]]);
}

#[test]
fn a_body_is_pulled_by_one_that_merges_later_in_the_sweep() {
    // 2 and 3 merge in row 2; rows 0 and 1 have been swept with both present.
    let out = sweep(&planets(&[1, 1, 4, 3]), &contacts(4, &[(2, 3)]), true);
    assert_eq!(out.merged_away, vec![false, false, true, true]);
    assert_eq!(out.merges, vec![Merge { survivor: 2, absorbed: 3, is_sun: false }]);
    assert_eq!(
        out.pulls,
        vec![vec![free(1), free(2), free(3)], vec![free(0), free(2), free(3)], vec![], vec![]]
    );
}

#[test]
fn a_body_is_not_pulled_by_one_that_merged_earlier_in_the_sweep() {
    // 0 and 1 merge in row 0; rows 2 and 3 are swept without them.
    let out = sweep(&planets(&[1, 2, 4, 3]), &contacts(4, &[(0, 1)]), true);
    assert_eq!(out.merged_away, vec![true, true, false, false]);
    assert_eq!(out.merges, vec![Merge { survivor: 1, absorbed: 0, is_sun: false }]);
    assert_eq!(out.pulls, vec![vec![], vec![], vec![free(3)], vec![free(2)]]);
}

#[test]
fn merges_come_in_the_order_of_the_sweep() {
    let out = sweep(&planets(&[1, 8, 6, 2]), &contacts(4, &[(1, 2), (0, 3)]), true);
    assert_eq!(out.merged_away, vec![true, true, true, true]);
    assert_eq!(
        out.merges,
        vec![
            Merge { survivor: 3, absorbed: 0, is_sun: false },
            Merge { survivor: 1, absorbed: 2, is_sun: false },
        ]
    );
}

#[test]
fn a_contact_marked_one_way_is_found_in_its_own_row() {
    // Only (1, 0) is marked: row 0 has 1 pull on 0, row 1 merges the two.
    let mut c = Contacts::new(2);
    c.mark(1, 0);
    let out = sweep(&planets(&[6, 2]), &c, true);
    assert_eq!(out.merged_away, vec![true, true]);
    assert_eq!(out.merges, vec![Merge { survivor: 0, absorbed: 1, is_sun: false }]);
    assert_eq!(out.pulls, vec![vec![], vec![]]);
}

#[test]
fn a_sun_that_merges_makes_a_sun() {
    let bodies = vec![
        Body { is_sun: true, radius_rank: 30, mass_rank: 90 },
        Body { is_sun: false, radius_rank: 2, mass_rank: 3 },
        Body { is_sun: false, radius_rank: 2, mass_rank: 4 },
        Body { is_sun: false, radius_rank: 2, mass_rank: 5 },
    ];
    let out = sweep(&bodies, &contacts(4, &[(0, 2), (1, 3)]), true);
    assert_eq!(
        out.merges,
        vec![
            Merge { survivor: 0, absorbed: 2, is_sun: true },
            Merge { survivor: 3, absorbed: 1, is_sun: false },
        ]
    );
}

#[test]
fn a_table_smaller_than_the_bodies_leaves_the_rest_apart() {
    let out = sweep(&planets(&[1, 2, 3]), &contacts(2, &[(0, 1)]), true);
    assert_eq!(out.merged_away, vec![true, true, false]);
    assert_eq!(out.merges, vec![Merge { survivor: 1, absorbed: 0, is_sun: false }]);
}

#[test]
fn a_table_larger_than_the_bodies_is_read_only_where_bodies_are() {
    let out = sweep(&planets(&[1, 2]), &contacts(4, &[(1, 3), (2, 3)]), true);
    assert_eq!(out.merged_away, vec![false, false]);
    assert_eq!(out.merges, vec![]);
    assert_eq!(out.pulls, vec![vec![free(1)], vec![free(0)]]);
}

#[test]
fn two_bodies_are_gone_for_every_merge() {
    let pairs = [(0, 5), (1, 2), (2, 3), (3, 4), (4, 5), (6, 7), (7, 0)];
    let out = sweep(&planets(&[1, 2, 3, 4, 5, 6, 7, 8]), &contacts(8, &pairs), true);
    let gone = out.merged_away.iter().filter(|g| **g).count();
    assert_eq!(gone, 2 * out.merges.len());
    assert_eq!(out.merges.len(), 4);
    for m in &out.merges {
        assert!(out.merged_away[m.survivor]);
        assert!(out.merged_away[m.absorbed]);
    }
}

#[test]
fn no_two_bodies_left_after_a_sweep_overlap() {
    let pairs = [(0, 1), (1, 2), (2, 3), (3, 4), (0, 4), (5, 6)];
    let c = contacts(7, &pairs);
    let out = sweep(&planets(&[1, 2, 3, 4, 5, 6, 7]), &c, true);
    for i in 0..7 {
        for j in 0..7 {
            if i != j && !out.merged_away[i] && !out.merged_away[j] {
                assert!(!c.touching(i, j));
            }
        }
    }
    assert_eq!(out.merged_away, vec![true, true, true, true, false, true, true]);
}

#[test]
fn no_body_merges_twice_in_one_sweep() {
    let pairs = [(0, 1), (0, 2), (0, 3), (1, 2), (1, 3), (2, 3)];
    let out = sweep(&planets(&[4, 3, 2, 1]), &contacts(4, &pairs), true);
    assert_eq!(
        out.merges,
        vec![
            Merge { survivor: 0, absorbed: 1, is_sun: false },
            Merge { survivor: 2, absorbed: 3, is_sun: false },
        ]
    );
    let mut seen = vec![0; 4];
    for m in &out.merges {
        seen[m.survivor] += 1;
        seen[m.absorbed] += 1;
    }
    assert_eq!(seen, vec![1, 1, 1, 1]);
}

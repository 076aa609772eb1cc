use nbody::body::Body;
use nbody::contacts::Contacts;
use nbody::engine::gravity;
use nbody::merge::Merge;
use nbody::scene::{setup_many_orbits, Role};
use nbody::settings::Settings;
use nbody::stats::Stats;
use nbody::sweep::Pull;

fn system() -> Vec<Body> {
    vec![
        Body { is_sun: true, radius_rank: 30, mass_rank: 1000 },
        Body { is_sun: false, radius_rank: 2, mass_rank: 10 },
        Body { is_sun: false, radius_rank: 3, mass_rank: 20 },
    ]
}

#[test]
fn default_settings_are_five_hundred_planets_with_collisions() {
    assert_eq!(Settings::default(), Settings { n_objects: 500, collisions: true });
}

#[test]
fn default_stats_are_blank() {
    assert_eq!(
        Stats::default(),
        Stats { frame_number: 0, n_objects: 0, center_on_largest: false, draw_traces: false }
    );
}

#[test]
fn every_tick_counts_one() {
    let mut stats = Stats::default();
    let settings = Settings::default();
    let bodies = system();
    let contacts = Contacts::new(3);
    for tick in 1..=12 {
        gravity(&mut stats, &settings, &bodies, &contacts);
        assert_eq!(stats.frame_number, tick);
    }
}

#[test]
fn a_tick_counts_the_bodies_it_started_with() {
    let mut stats = Stats::default();
    let settings = Settings::default();
    let mut contacts = Contacts::new(3);
    contacts.mark(1, 2);
    contacts.mark(2, 1);
    gravity(&mut stats, &settings, &system(), &contacts);
    assert_eq!(stats.n_objects, 3);
    gravity(&mut stats, &settings, &vec![], &Contacts::new(0));
    assert_eq!(stats.n_objects, 0);
}

#[test]
fn a_tick_leaves_the_switches_alone() {
    let mut stats =
        Stats { frame_number: 41, n_objects: 9, center_on_largest: true, draw_traces: false };
    gravity(&mut stats, &Settings::default(), &system(), &Contacts::new(3));
    assert_eq!(
        stats,
        Stats { frame_number: 42, n_objects: 3, center_on_largest: true, draw_traces: false }
    );
}

#[test]
fn traces_are_recorded_on_every_fifth_tick() {
    let mut stats = Stats::default();
    stats.draw_traces = true;
    let settings = Settings::default();
    let bodies = system();
    let contacts = Contacts::new(3);
    let mut recorded = vec![];
    for _ in 0..11 {
        let plan = gravity(&mut stats, &settings, &bodies, &contacts);
        if plan.record_traces {
            recorded.push(stats.frame_number);
        }
    }
    assert_eq!(recorded, vec![5, 10]);
}

#[test]
fn traces_are_not_recorded_while_switched_off() {
    let mut stats = Stats::default();
    let settings = Settings::default();
    for _ in 0..10 {
        let plan = gravity(&mut stats, &settings, &system(), &Contacts::new(3));
        assert!(!plan.record_traces);
    }
}

#[test]
fn a_tick_points_the_camera_at_the_largest_planet() {
    let mut stats = Stats::default();
    let plan = gravity(&mut stats, &Settings::default(), &system(), &Contacts::new(3));
    assert_eq!(plan.largest, Some(2));
    let suns = vec![Body { is_sun: true, radius_rank: 30, mass_rank: 1000 }];
    let plan = gravity(&mut stats, &Settings::default(), &suns, &Contacts::new(1));
    assert_eq!(plan.largest, None);
}

#[test]
fn a_tick_merges_only_when_collisions_are_on() {
    let mut contacts = Contacts::new(3);
    contacts.mark(1, 2);
    contacts.mark(2, 1);
    let mut stats = Stats::default();

    let on = Settings { n_objects: 2, collisions: true };
    let plan = gravity(&mut stats, &on, &system(), &contacts);
    assert_eq!(plan.outcome.merges, vec![Merge { survivor: 2, absorbed: 1, is_sun: false }]);
    assert_eq!(plan.outcome.merged_away, vec![false, true, true]);
    assert_eq!(
        plan.outcome.pulls,
        vec![
            vec![Pull { source: 1, clamped: false }, Pull { source: 2, clamped: false }],
            vec![],
            vec![],
        ]
    );

    let off = Settings { n_objects: 2, collisions: false };
    let plan = gravity(&mut stats, &off, &system(), &contacts);
    assert_eq!(plan.outcome.merges, vec![]);
    assert_eq!(plan.outcome.merged_away, vec![false, false, false]);
    assert_eq!(
        plan.outcome.pulls,
        vec![
            vec![Pull { source: 1, clamped: false }, Pull { source: 2, clamped: false }],
            vec![Pull { source: 0, clamped: false }, Pull { source: 2, clamped: true }],
            vec![Pull { source: 0, clamped: false }, Pull { source: 1, clamped: true }],
        ]
    );
}

#[test]
fn a_lone_sun_is_left_alone_tick_after_tick() {
    let mut stats = Stats::default();
    let settings = Settings::default();
    let suns = vec![Body { is_sun: true, radius_rank: 30, mass_rank: 1000 }];
    for _ in 0..20 {
        let plan = gravity(&mut stats, &settings, &suns, &Contacts::new(1));
        assert_eq!(plan.outcome.merged_away, vec![false]);
        assert_eq!(plan.outcome.merges, vec![]);
        assert_eq!(plan.outcome.pulls, vec![vec![]]);
    }
}

#[test]
fn no_reset_without_a_request() {
    assert_eq!(setup_many_orbits(0, &Settings::default()), None);
}

#[test]
fn a_reset_with_fifty_planets_makes_fifty_one_bodies() {
    let settings = Settings { n_objects: 50, collisions: true };
    let roster = setup_many_orbits(1, &settings).unwrap();
    assert_eq!(roster.len(), 51);
    assert_eq!(roster[0], Role::Sun);
    assert!(roster[1..].iter().all(|r| *r == Role::Planet));
}

#[test]
fn many_reset_requests_make_one_reset() {
    let settings = Settings { n_objects: 4, collisions: false };
    let once = setup_many_orbits(1, &settings);
    assert_eq!(setup_many_orbits(2, &settings), once);
    assert_eq!(setup_many_orbits(usize::MAX, &settings), once);
    assert_eq!(
        once,
        Some(vec![Role::Sun, Role::Planet, Role::Planet, Role::Planet, Role::Planet])
    );
}

#[test]
fn a_reset_without_planets_makes_a_lone_sun() {
    let settings = Settings { n_objects: 0, collisions: true };
    assert_eq!(setup_many_orbits(1, &settings), Some(vec![Role::Sun]));
}

#[test]
fn a_reset_with_default_settings_makes_five_hundred_and_one_bodies() {
    let roster = setup_many_orbits(1, &Settings::default()).unwrap();
    assert_eq!(roster.len(), 501);
    assert_eq!(roster.iter().filter(|r| **r == Role::Sun).count(), 1);
}

use battlecode_engine::location::{MapLocation, Planet};
use battlecode_engine::rockets::{RocketLanding, RocketLandingInfo};

#[test]
fn test_rocket_landings() {
    let mut landings = RocketLandingInfo::new();

    // Add a few landings.
    let loc = MapLocation::new(Planet::Mars, 0, 0);
    let landing = RocketLanding::new(1, loc);
    landings.add_landing(1, landing);
    landings.add_landing(2, landing);
    landings.add_landing(2, landing);
    assert_eq!(landings.landings_on(1).len(), 1);
    assert_eq!(landings.landings_on(2).len(), 2);
    assert_eq!(landings.landings_on(3).len(), 0);

    landings.add_landings(3, vec![landing, landing]);
    assert_eq!(landings.landings_on(3).len(), 2);

    landings.add_landing(3, landing);
    assert_eq!(landings.landings_on(3).len(), 3);

    landings.add_landings(2, vec![landing, landing, landing]);
    assert_eq!(landings.landings_on(2).len(), 5);

    // Check when all landings are returned, they are ordered by round.
    let all = landings.all();
    assert_eq!(all.len(), 9);
    for i in 0..all.len() - 1 {
        assert!(all[i].0 <= all[i + 1].0);
    }

    // Check all grouped.
    let all_grouped = landings.all_grouped();
    assert_eq!(all_grouped.keys().len(), 3);
    assert_eq!(all_grouped.get(&1).expect("key should exist").len(), 1);
    assert_eq!(all_grouped.get(&2).expect("key should exist").len(), 5);
    assert_eq!(all_grouped.get(&3).expect("key should exist").len(), 3);
}

#[test]
fn landings_keep_order_of_rounds_and_ids() {
    let mut landings = RocketLandingInfo::new();
    let a = RocketLanding::new(7, MapLocation::new(Planet::Mars, 1, 2));
    let b = RocketLanding::new(3, MapLocation::new(Planet::Mars, 4, 5));
    landings.add_landing(5, a);
    landings.add_landing(2, b);
    landings.add_landing(5, b);
    assert_eq!(landings.landings_on(5), vec![a, b]);
    // Within a round, landings are ordered by rocket ID.
    assert_eq!(landings.all(), vec![(2, b), (5, b), (5, a)]);
    let copy = landings.clone();
    assert_eq!(copy.all(), landings.all());
}

use battlecode_engine::research::{get_cost, get_max_level, ResearchInfo};
use battlecode_engine::unit::UnitType as Branch;

#[test]
fn static_cost_level_getters() {
    for branch in Branch::all() {
        let max_level = get_max_level(&branch);
        for level in 1..max_level + 1 {
            assert!(get_cost(&branch, level).unwrap() > 0);
        }
        assert_eq!(get_cost(&branch, 0).unwrap(), 0);
        assert!(get_cost(&branch, max_level + 1).is_err());
    }
}

#[test]
fn research_info_constructor() {
    let r = ResearchInfo::new();
    assert_eq!(r.get_queue(), vec![]);
    assert_eq!(r.get_next_in_queue(), None);
    assert_eq!(r.get_rounds_left(), None);

    for branch in Branch::all() {
        assert_eq!(r.get_level(&branch), 0);
    }
}

#[test]
fn simple_research_queue_mutators() {
    let mut r = ResearchInfo::new();
    let knight_cost = get_cost(&Branch::Knight, 1).unwrap();

    // Add a Knight.
    assert!(r.add_to_queue(&Branch::Knight));
    assert_eq!(r.get_queue(), vec![Branch::Knight]);
    assert_eq!(r.get_next_in_queue(), Some(Branch::Knight));
    assert_eq!(r.get_rounds_left(), Some(knight_cost));

    // Add a Mage.
    assert!(r.add_to_queue(&Branch::Mage));
    assert_eq!(r.get_queue(), vec![Branch::Knight, Branch::Mage]);
    assert_eq!(r.get_next_in_queue(), Some(Branch::Knight));
    assert_eq!(r.get_rounds_left(), Some(knight_cost));

    // Reset a queue with items in it.
    assert!(r.reset_queue());
    assert_eq!(r.get_queue(), vec![]);
    assert_eq!(r.get_next_in_queue(), None);
    assert_eq!(r.get_rounds_left(), None);

    // Reset an empty queue.
    assert!(!r.reset_queue());

    // Try to add the Knight too many times.
    let max_level = get_max_level(&Branch::Knight);
    for _ in 0..max_level {
        assert!(r.add_to_queue(&Branch::Knight));
    }
    assert!(!r.add_to_queue(&Branch::Knight));
}

#[test]
fn update_trivial() {
    let mut r = ResearchInfo::new();
    assert_eq!(r.update(), None);
    assert_eq!(r.get_queue(), vec![]);
    assert_eq!(r.get_next_in_queue(), None);
    assert_eq!(r.get_rounds_left(), None);
}

#[test]
fn update_no_reset() {
    let mut r = ResearchInfo::new();
    let knight_cost_l1 = get_cost(&Branch::Knight, 1).unwrap();
    let knight_cost_l2 = get_cost(&Branch::Knight, 2).unwrap();
    let mage_cost = get_cost(&Branch::Mage, 1).unwrap();

    // Research the Knight twice and Mage once.
    assert!(r.add_to_queue(&Branch::Knight));
    assert!(r.add_to_queue(&Branch::Knight));
    assert!(r.add_to_queue(&Branch::Mage));

    // Assume the Knight costs more than one round at each level.
    assert!(knight_cost_l1 > 1);
    assert!(knight_cost_l2 > 1);

    // Proceed one round.
    assert_eq!(r.update(), None);
    assert_eq!(r.get_rounds_left(), Some(knight_cost_l1 - 1));
    assert_eq!(r.get_level(&Branch::Knight), 0);
    assert_eq!(r.get_level(&Branch::Mage), 0);

    // Research the first Knight.
    for _ in 1..knight_cost_l1 - 1 {
        assert_eq!(r.update(), None);
    }
    assert_eq!(r.update(), Some(Branch::Knight));
    assert_eq!(r.get_queue(), vec![Branch::Knight, Branch::Mage]);
    assert_eq!(r.get_rounds_left(), Some(knight_cost_l2));
    assert_eq!(r.get_level(&Branch::Knight), 1);
    assert_eq!(r.get_level(&Branch::Mage), 0);

    // Research the second Knight.
    for _ in 1..knight_cost_l2 {
        assert_eq!(r.update(), None);
    }
    assert_eq!(r.update(), Some(Branch::Knight));
    assert_eq!(r.get_queue(), vec![Branch::Mage]);
    assert_eq!(r.get_rounds_left(), Some(mage_cost));
    assert_eq!(r.get_level(&Branch::Knight), 2);
    assert_eq!(r.get_level(&Branch::Mage), 0);

    // Finish researching the Mage. The queue is now empty.
    for _ in 1..mage_cost {
        assert_eq!(r.update(), None);
    }
    assert_eq!(r.update(), Some(Branch::Mage));
    assert_eq!(r.get_rounds_left(), None);
    assert_eq!(r.get_level(&Branch::Knight), 2);
    assert_eq!(r.get_level(&Branch::Mage), 1);
}

#[test]
fn update_with_reset() {
    let mut r = ResearchInfo::new();
    let knight_cost = get_cost(&Branch::Knight, 1).unwrap();
    let mage_cost = get_cost(&Branch::Mage, 1).unwrap();

    // Start researching the knight and the mage.
    assert!(r.add_to_queue(&Branch::Knight));
    assert!(r.add_to_queue(&Branch::Mage));

    // Assume the Knight costs more than one round.
    assert!(knight_cost > 1);

    // Proceed one round.
    assert_eq!(r.update(), None);
    assert_eq!(r.get_rounds_left(), Some(knight_cost - 1));
    assert_eq!(r.get_level(&Branch::Knight), 0);
    assert_eq!(r.get_level(&Branch::Mage), 0);

    // Reset the queue and proceed a round.
    assert!(r.reset_queue());
    assert_eq!(r.update(), None);
    assert_eq!(r.get_rounds_left(), None);
    assert_eq!(r.get_level(&Branch::Knight), 0);
    assert_eq!(r.get_level(&Branch::Mage), 0);

    // Start researching again and proceed to completion.
    assert!(r.add_to_queue(&Branch::Knight));
    assert!(r.add_to_queue(&Branch::Mage));
    for _ in 0..knight_cost + mage_cost {
        r.update();
    }
    assert_eq!(r.get_rounds_left(), None);
    assert_eq!(r.get_level(&Branch::Knight), 1);
    assert_eq!(r.get_level(&Branch::Mage), 1);
}

#[test]
fn cost_tables_exact() {
    assert_eq!(get_cost(&Branch::Worker, 1), Ok(25));
    assert_eq!(get_cost(&Branch::Ranger, 3), Ok(200));
    assert_eq!(get_cost(&Branch::Rocket, 1), Ok(50));
    assert_eq!(get_max_level(&Branch::Worker), 4);
    assert_eq!(get_max_level(&Branch::Factory), 0);
    assert!(get_cost(&Branch::Factory, 1).is_err());
    let r = ResearchInfo::new();
    let copy = r.clone();
    assert_eq!(copy.get_queue(), r.get_queue());
}

use battlecode_engine::id_generator::IDGenerator;
use battlecode_engine::unit::UnitID;
use std::collections::HashSet;

const NUM_IDS: usize = 20000;

#[test]
fn test_id_generator_uniqueness() {
    let test_seeds: [u16; 3] = [1, 2, 888];
    for seed in test_seeds.iter() {
        // Create an ID generator.
        let mut id_gen = IDGenerator::new(*seed);

        // Generate a bunch of IDs. All the IDs should be unique.
        let mut ids = HashSet::new();
        for i in 0..NUM_IDS {
            let id = id_gen.next_id();
            assert!(!ids.contains(&id), "failed at the {}th ID", i);
            ids.insert(id);
        }
    }
}

#[test]
fn test_id_generator_determinacy() {
    // ID generators with the same seed produce the same results.
    let mut id_gen_a = IDGenerator::new(1337);
    let mut id_gen_b = IDGenerator::new(1337);
    for _ in 0..NUM_IDS {
        let id_a = id_gen_a.next_id();
        let id_b = id_gen_b.next_id();
        assert_eq!(id_a, id_b);
    }

    // Different seeds produce different results.
    let mut id_gen_a = IDGenerator::new(6147);
    let mut id_gen_b = IDGenerator::new(6370);
    let mut different_results = false;
    for _ in 0..NUM_IDS {
        let id_a = id_gen_a.next_id();
        let id_b = id_gen_b.next_id();
        different_results = different_results || id_a != id_b;
    }
    assert!(different_results)
}

#[test]
fn test_id_generator_mirror() {
    // ID generators should properly produce units with the same IDs
    // in both engine mode and player mode. Thus a cloned ID generator
    // should be in the same state as the generator it was cloned from.
    let mut id_gen_manager = IDGenerator::new(1234);
    let mut id_gen_red = id_gen_manager.clone();

    // Red makes some units.
    let mut red_ids: Vec<UnitID> = vec![];
    for _ in 0..NUM_IDS {
        red_ids.push(id_gen_red.next_id());
    }

    // The manager mirrors creating two Red units.
    for i in 0..NUM_IDS {
        let manager_id = id_gen_manager.next_id();
        assert_eq!(manager_id, red_ids[i]);
    }

    // Blue clones the manager's ID generator, and makes some units.
    let mut id_gen_blue = id_gen_manager.clone();
    let mut blue_ids: Vec<UnitID> = vec![];
    for _ in 0..NUM_IDS {
        blue_ids.push(id_gen_blue.next_id());
    }

    // The manager mirrors creating two Blue units.
    for i in 0..NUM_IDS {
        let manager_id = id_gen_manager.next_id();
        assert_eq!(manager_id, blue_ids[i]);
    }
}

#[test]
fn ids_skip_reserved_range() {
    let mut g = IDGenerator::new(0);
    for _ in 0..1000 {
        assert!(g.next_id() > 10);
    }
}

use battlecode_engine::constants::{COMMUNICATION_ARRAY_LENGTH, COMMUNICATION_DELAY};
use battlecode_engine::error::GameError;
use battlecode_engine::location::Planet;
use battlecode_engine::team_array::TeamArrayInfo;

#[test]
fn test_array_read() {
    let team_arrays = TeamArrayInfo::new();
    let earth_arrays = team_arrays.filter(Planet::Earth);
    let mars_arrays = team_arrays.filter(Planet::Mars);
    let arrays = vec![team_arrays, earth_arrays, mars_arrays];

    for arr in arrays {
        let earth_first = arr.first_array(Planet::Earth);
        let earth_last = arr.last_array(Planet::Earth);
        let mars_first = arr.first_array(Planet::Mars);
        let mars_last = arr.last_array(Planet::Mars);

        // All arrays are the right length.
        assert_eq!(earth_first.len(), COMMUNICATION_ARRAY_LENGTH);
        assert_eq!(earth_last.len(), COMMUNICATION_ARRAY_LENGTH);
        assert_eq!(mars_first.len(), COMMUNICATION_ARRAY_LENGTH);
        assert_eq!(mars_last.len(), COMMUNICATION_ARRAY_LENGTH);

        // Both planet arrays are initialized with all 0's.
        for index in 0..COMMUNICATION_ARRAY_LENGTH {
            assert_eq!(earth_first[index], 0);
            assert_eq!(earth_last[index], 0);
            assert_eq!(mars_first[index], 0);
            assert_eq!(mars_last[index], 0);
        }
    }
}

#[test]
fn test_array_write() {
    let mut arrays = TeamArrayInfo::new();

    // Writing is OK.
    for index in 0..COMMUNICATION_ARRAY_LENGTH {
        assert!(arrays.write(Planet::Earth, index, index as i32).is_ok());
        assert!(arrays.write(Planet::Mars, index, index as i32).is_ok());
    }

    // Read the values you wrote..
    let earth_first = arrays.first_array(Planet::Earth).clone();
    let earth_last = arrays.last_array(Planet::Earth).clone();
    let mars_first = arrays.first_array(Planet::Mars).clone();
    let mars_last = arrays.last_array(Planet::Mars).clone();
    for index in 0..COMMUNICATION_ARRAY_LENGTH {
        assert_eq!(earth_first[index], index as i32);
        assert_eq!(earth_last[index], 0);
        assert_eq!(mars_first[index], index as i32);
        assert_eq!(mars_last[index], 0);
    }

    // Error when writing out of bounds.
    let oob_index = COMMUNICATION_ARRAY_LENGTH;
    assert_eq!(arrays.write(Planet::Earth, oob_index, 0), Err(GameError::ArrayOutOfBounds));
    assert_eq!(arrays.write(Planet::Mars, oob_index, 0), Err(GameError::ArrayOutOfBounds));
}

#[test]
fn test_array_end_round_filter() {
    // On the i-th round, Earth writes 1 and Mars writes 2 to index i.
    // Write for just enough rounds that you can't see what the other
    // planet has written yet.
    let mut arrays = TeamArrayInfo::new();
    for round in 0..COMMUNICATION_DELAY - 1 {
        assert!(arrays.write(Planet::Earth, round, 1).is_ok());
        assert!(arrays.write(Planet::Mars, round, 2).is_ok());
        arrays.end_round()
    }

    // We can read the values we wrote, but the other planet is all 0's.
    let earth = arrays.filter(Planet::Earth);
    let mars = arrays.filter(Planet::Mars);
    for index in 0..COMMUNICATION_DELAY - 1 {
        assert_eq!(earth.first_array(Planet::Earth)[index], 1);
        assert_eq!(earth.last_array(Planet::Mars)[index], 0);
        assert_eq!(mars.last_array(Planet::Earth)[index], 0);
        assert_eq!(mars.first_array(Planet::Mars)[index], 2);
    }
    for index in COMMUNICATION_DELAY - 1..COMMUNICATION_ARRAY_LENGTH {
        assert_eq!(earth.first_array(Planet::Earth)[index], 0);
        assert_eq!(earth.last_array(Planet::Mars)[index], 0);
        assert_eq!(mars.last_array(Planet::Earth)[index], 0);
        assert_eq!(mars.first_array(Planet::Mars)[index], 0);
    }

    // Write one more time.
    let round = COMMUNICATION_DELAY - 1;
    assert!(arrays.write(Planet::Earth, round, 1).is_ok());
    assert!(arrays.write(Planet::Mars, round, 2).is_ok());
    arrays.end_round();

    // Read the new integer.
    let earth = arrays.filter(Planet::Earth);
    let mars = arrays.filter(Planet::Mars);
    assert_eq!(earth.first_array(Planet::Earth)[round], 1);
    assert_eq!(mars.first_array(Planet::Mars)[round], 2);

    // And read the integers from the other planet.
    assert_eq!(earth.first_array(Planet::Mars)[0], 2);
    assert_eq!(mars.first_array(Planet::Earth)[0], 1);
    for index in 1..COMMUNICATION_ARRAY_LENGTH {
        assert_eq!(earth.last_array(Planet::Mars)[index], 0);
        assert_eq!(mars.last_array(Planet::Earth)[index], 0);
    }
}

#[test]
fn write_then_read_same_planet() {
    let mut arrays = TeamArrayInfo::new();
    assert!(arrays.write(Planet::Mars, 7, -12).is_ok());
    assert_eq!(arrays.first_array(Planet::Mars)[7], -12);
    assert_eq!(arrays.first_array(Planet::Earth)[7], 0);
    let copy = arrays.clone();
    assert_eq!(copy.first_array(Planet::Mars)[7], -12);
}

#[test]
fn a_write_arrives_whatever_is_written_after_it() {
    let mut arrays = TeamArrayInfo::new();
    assert!(arrays.write(Planet::Earth, 3, 7).is_ok());
    for round in 0..COMMUNICATION_DELAY {
        arrays.end_round();
        // Later writes change only the newest array.
        assert!(arrays.write(Planet::Earth, 3, 100 + round as i32).is_ok());
        assert!(arrays.write(Planet::Earth, COMMUNICATION_ARRAY_LENGTH, 1).is_err());
    }
    assert_eq!(arrays.last_array(Planet::Earth)[3], 7);
    assert_eq!(arrays.filter(Planet::Mars).first_array(Planet::Earth)[3], 7);
    assert_eq!(arrays.first_array(Planet::Earth)[3], 100 + COMMUNICATION_DELAY as i32 - 1);
}

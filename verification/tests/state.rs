use uno_systems_lab::events::{BinaryInputId, BinaryState, FieldId, Measurement, SensorId};
use uno_systems_lab::state::{BinaryInputState, DeviceState, TimestampedMeasurement};

#[test]
fn new_measurement_becomes_dirty() {
    let mut state = DeviceState::<2, 2>::new();

    let measurement = TimestampedMeasurement {
        ticks: 10,
        measurement: Measurement {
            sensor: SensorId(1),
            field: FieldId(0),
            value: 500,
        },
    };

    assert_eq!(state.update_measurement(measurement), Ok(true));

    assert_eq!(state.take_dirty_measurement(), Some(measurement));

    assert_eq!(state.take_dirty_measurement(), None);
}

#[test]
fn repeated_updates_are_coalesced() {
    let mut state = DeviceState::<2, 2>::new();

    state
        .update_measurement(TimestampedMeasurement {
            ticks: 10,
            measurement: Measurement {
                sensor: SensorId(1),
                field: FieldId(0),
                value: 500,
            },
        })
        .unwrap();

    state
        .update_measurement(TimestampedMeasurement {
            ticks: 12,
            measurement: Measurement {
                sensor: SensorId(1),
                field: FieldId(0),
                value: 600,
            },
        })
        .unwrap();

    assert_eq!(
        state.take_dirty_measurement(),
        Some(TimestampedMeasurement {
            ticks: 12,
            measurement: Measurement {
                sensor: SensorId(1),
                field: FieldId(0),
                value: 600,
            }
        })
    );

    assert_eq!(state.take_dirty_measurement(), None);
}

#[test]
fn identical_measurement_is_not_marked_dirty_again() {
    let mut state = DeviceState::<2, 2>::new();

    let measurement = TimestampedMeasurement {
        ticks: 10,
        measurement: Measurement {
            sensor: SensorId(1),
            field: FieldId(0),
            value: 500,
        },
    };

    assert_eq!(state.update_measurement(measurement), Ok(true));

    state.take_dirty_measurement();

    assert_eq!(state.update_measurement(measurement), Ok(false));

    assert_eq!(state.take_dirty_measurement(), None);
}

#[test]
fn reports_measurement_capacity_exhaustion() {
    let mut state = DeviceState::<1, 1>::new();

    state
        .update_measurement(TimestampedMeasurement {
            ticks: 10,
            measurement: Measurement {
                sensor: SensorId(1),
                field: FieldId(0),
                value: 500,
            },
        })
        .unwrap();

    let second = TimestampedMeasurement {
        ticks: 11,
        measurement: Measurement {
            sensor: SensorId(2),
            field: FieldId(0),
            value: 700,
        },
    };

    assert_eq!(state.update_measurement(second), Err(second));
}

#[test]
fn tracks_binary_input_state_changes() {
    let mut state = DeviceState::<1, 1>::new();

    let active = BinaryInputState {
        input: BinaryInputId(1),
        state: BinaryState::Active,
    };

    assert_eq!(state.update_binary_input(active), Ok(true));

    assert_eq!(state.update_binary_input(active), Ok(false));

    let inactive = BinaryInputState {
        input: BinaryInputId(1),
        state: BinaryState::Inactive,
    };

    assert_eq!(state.update_binary_input(inactive), Ok(true));
}

fn reading(ticks: u32, sensor: u8, field: u8, value: i32) -> TimestampedMeasurement {
    TimestampedMeasurement {
        ticks,
        measurement: Measurement {
            sensor: SensorId(sensor),
            field: FieldId(field),
            value,
        },
    }
}

#[test]
fn same_value_with_new_tick_keeps_the_stored_tick() {
    let mut state = DeviceState::<1, 2>::new();

    assert_eq!(state.update_measurement(reading(10, 1, 0, 500)), Ok(true));
    assert_eq!(state.update_measurement(reading(20, 1, 0, 500)), Ok(false));
    assert_eq!(state.take_dirty_measurement(), Some(reading(10, 1, 0, 500)));
    assert_eq!(state.take_dirty_measurement(), None);
}

#[test]
fn different_fields_of_one_sensor_take_separate_slots() {
    let mut state = DeviceState::<1, 2>::new();

    assert_eq!(state.update_measurement(reading(1, 3, 0, -5)), Ok(true));
    assert_eq!(state.update_measurement(reading(2, 3, 1, -6)), Ok(true));
    assert_eq!(state.update_measurement(reading(3, 3, 2, -7)), Err(reading(3, 3, 2, -7)));
    assert_eq!(state.update_measurement(reading(4, 3, 1, 9)), Ok(true));

    assert_eq!(state.take_dirty_measurement(), Some(reading(1, 3, 0, -5)));
    assert_eq!(state.take_dirty_measurement(), Some(reading(4, 3, 1, 9)));
    assert_eq!(state.take_dirty_measurement(), None);
}

#[test]
fn dirty_measurements_are_taken_lowest_slot_first() {
    let mut state = DeviceState::<1, 3>::new();

    state.update_measurement(reading(1, 1, 0, 10)).unwrap();
    state.update_measurement(reading(2, 2, 0, 20)).unwrap();
    state.update_measurement(reading(3, 3, 0, 30)).unwrap();
    assert_eq!(state.take_dirty_measurement(), Some(reading(1, 1, 0, 10)));

    assert_eq!(state.update_measurement(reading(4, 1, 0, 11)), Ok(true));
    assert_eq!(state.take_dirty_measurement(), Some(reading(4, 1, 0, 11)));
    assert_eq!(state.take_dirty_measurement(), Some(reading(2, 2, 0, 20)));
    assert_eq!(state.take_dirty_measurement(), Some(reading(3, 3, 0, 30)));
    assert_eq!(state.take_dirty_measurement(), None);
}

#[test]
fn binary_input_capacity_is_reported() {
    let mut state = DeviceState::<1, 1>::new();
    let first = BinaryInputState {
        input: BinaryInputId(1),
        state: BinaryState::Inactive,
    };
    let second = BinaryInputState {
        input: BinaryInputId(2),
        state: BinaryState::Active,
    };

    assert_eq!(state.update_binary_input(first), Ok(true));
    assert_eq!(state.update_binary_input(second), Err(second));
    assert_eq!(state.update_binary_input(first), Ok(false));
}

#[test]
fn a_store_without_slots_rejects_everything() {
    let mut state = DeviceState::<0, 0>::new();
    let input = BinaryInputState {
        input: BinaryInputId(1),
        state: BinaryState::Active,
    };

    assert_eq!(state.update_binary_input(input), Err(input));
    assert_eq!(state.update_measurement(reading(1, 1, 1, 1)), Err(reading(1, 1, 1, 1)));
    assert_eq!(state.take_dirty_measurement(), None);
}

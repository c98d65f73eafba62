use uno_systems_lab::events::{
    BinaryInputId, BinaryState, DeviceEvent, FieldId, Measurement, SensorId, TimestampedEvent,
};
use uno_systems_lab::serial::Usart0;
use uno_systems_lab::state::{DeviceState, TimestampedMeasurement};
use uno_systems_lab::telemetry::{
    changed_enough, record_measurement, report_event, sample_due, ReportFilter, SampleSchedule,
};

fn line(event: TimestampedEvent) -> Vec<u8> {
    let mut tx = Vec::new();
    report_event(&Usart0::new(), &mut tx, event);
    tx
}

#[test]
fn reports_input_changes() {
    let active = TimestampedEvent {
        ticks: 5,
        event: DeviceEvent::BinaryInputChanged {
            input: BinaryInputId(1),
            state: BinaryState::Active,
        },
    };
    let inactive = TimestampedEvent {
        ticks: 4294967295,
        event: DeviceEvent::BinaryInputChanged {
            input: BinaryInputId(255),
            state: BinaryState::Inactive,
        },
    };
    assert_eq!(line(active), b"5 INPUT 1 ACTIVE\r\n".to_vec());
    assert_eq!(line(inactive), b"4294967295 INPUT 255 INACTIVE\r\n".to_vec());
}

#[test]
fn reports_measurements() {
    let event = TimestampedEvent {
        ticks: 120,
        event: DeviceEvent::Measurement(Measurement {
            sensor: SensorId(2),
            field: FieldId(0),
            value: 731,
        }),
    };
    let negative = TimestampedEvent {
        ticks: 0,
        event: DeviceEvent::Measurement(Measurement {
            sensor: SensorId(10),
            field: FieldId(3),
            value: -7,
        }),
    };
    assert_eq!(line(event), b"120 MEASUREMENT 2 0 731\r\n".to_vec());
    assert_eq!(line(negative), b"0 MEASUREMENT 10 3 -7\r\n".to_vec());
}

#[test]
fn samples_every_interval_across_wraparound() {
    assert!(sample_due(10, 0, 10));
    assert!(!sample_due(9, 0, 10));
    assert!(sample_due(5, u32::MAX - 4, 10));
    assert!(!sample_due(4, u32::MAX - 4, 10));
    assert!(sample_due(0, 0, 0));
}

#[test]
fn reports_readings_that_moved_enough() {
    assert!(changed_enough(None, 0, 4));
    assert!(!changed_enough(Some(100), 103, 4));
    assert!(changed_enough(Some(100), 104, 4));
    assert!(!changed_enough(Some(100), 97, 4));
    assert!(changed_enough(Some(100), 96, 4));
    assert!(changed_enough(Some(0), 1023, 8));
}

#[test]
fn records_readings_as_measurements() {
    let mut state = DeviceState::<1, 1>::new();
    assert_eq!(record_measurement(&mut state, 30, SensorId(1), FieldId(0), 512), Ok(true));
    assert_eq!(record_measurement(&mut state, 40, SensorId(1), FieldId(0), 512), Ok(false));
    let other = TimestampedMeasurement {
        ticks: 50,
        measurement: Measurement {
            sensor: SensorId(2),
            field: FieldId(0),
            value: 1023,
        },
    };
    assert_eq!(record_measurement(&mut state, 50, SensorId(2), FieldId(0), 1023), Err(other));
    assert_eq!(
        state.take_dirty_measurement(),
        Some(TimestampedMeasurement {
            ticks: 30,
            measurement: Measurement {
                sensor: SensorId(1),
                field: FieldId(0),
                value: 512,
            },
        })
    );
}

#[test]
fn schedule_samples_once_per_interval() {
    let mut schedule = SampleSchedule::new(10);
    assert!(!schedule.poll(9));
    assert!(schedule.poll(10));
    assert_eq!(schedule.last_sample_tick, 10);
    assert!(!schedule.poll(19));
    assert!(schedule.poll(25));
    assert_eq!(schedule.last_sample_tick, 25);
    schedule.last_sample_tick = u32::MAX - 2;
    assert!(!schedule.poll(6));
    assert!(schedule.poll(7));
    assert_eq!(schedule.last_sample_tick, 7);
}

#[test]
fn filter_reports_only_readings_that_moved() {
    let mut filter = ReportFilter::new(4);
    assert!(filter.accept(500));
    assert_eq!(filter.last_reported, Some(500));
    assert!(!filter.accept(503));
    assert!(!filter.accept(497));
    assert_eq!(filter.last_reported, Some(500));
    assert!(filter.accept(496));
    assert_eq!(filter.last_reported, Some(496));
}

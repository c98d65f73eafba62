//! The device's telemetry: the text lines it reports over the serial link,
//! and the decisions about when sensors are sampled and recorded.

use crate::events::{
    BinaryInputId, BinaryState, DeviceEvent, FieldId, Measurement, SensorId, TimestampedEvent,
};
use crate::serial::{
    decimal_ascii, decimal_value, is_decimal_text, is_signed_decimal_text,
    lemma_decimal_round_trip, lemma_signed_decimal_round_trip, signed_decimal_ascii,
    signed_decimal_value, Usart0,
};
use crate::state::{
    coalesced_update, measurement_key, measurement_value, DeviceState, TimestampedMeasurement,
};
use vstd::prelude::*;

verus! {

/// The text ` INPUT `.
pub open spec fn input_text() -> Seq<u8> {
    seq![' ' as u8, 'I' as u8, 'N' as u8, 'P' as u8, 'U' as u8, 'T' as u8, ' ' as u8]
}

/// The text ` ACTIVE` and a line break.
pub open spec fn active_text() -> Seq<u8> {
    seq![
        ' ' as u8, 'A' as u8, 'C' as u8, 'T' as u8, 'I' as u8, 'V' as u8, 'E' as u8,
        '\r' as u8, '\n' as u8,
    ]
}

/// The text ` INACTIVE` and a line break.
pub open spec fn inactive_text() -> Seq<u8> {
    seq![
        ' ' as u8, 'I' as u8, 'N' as u8, 'A' as u8, 'C' as u8, 'T' as u8, 'I' as u8, 'V' as u8,
        'E' as u8, '\r' as u8, '\n' as u8,
    ]
}

/// The text ` MEASUREMENT `.
pub open spec fn measurement_text() -> Seq<u8> {
    seq![
        ' ' as u8, 'M' as u8, 'E' as u8, 'A' as u8, 'S' as u8, 'U' as u8, 'R' as u8, 'E' as u8,
        'M' as u8, 'E' as u8, 'N' as u8, 'T' as u8, ' ' as u8,
    ]
}

/// A line break.
pub open spec fn line_break() -> Seq<u8> {
    seq!['\r' as u8, '\n' as u8]
}

/// The report line of an event: the tick, then
/// `INPUT <input> ACTIVE` or `INPUT <input> INACTIVE` for an input change, or
/// `MEASUREMENT <sensor> <field> <value>` for a measurement, all separated by
/// single spaces and ended by a carriage return and line feed.
pub open spec fn event_line(timestamped: TimestampedEvent) -> Seq<u8> {
    decimal_ascii(timestamped.ticks as nat) + match timestamped.event {
        DeviceEvent::BinaryInputChanged { input, state } => input_text() + decimal_ascii(
            input.0 as nat,
        ) + match state {
            BinaryState::Active => active_text(),
            BinaryState::Inactive => inactive_text(),
        },
        DeviceEvent::Measurement(measurement) => measurement_text() + decimal_ascii(
            measurement.sensor.0 as nat,
        ) + seq![' ' as u8] + decimal_ascii(measurement.field.0 as nat) + seq![' ' as u8]
            + signed_decimal_ascii(measurement.value as int) + line_break(),
    }
}

/// A measurement's report line reads back as the measurement: it is the
/// tick's digits, ` MEASUREMENT `, the sensor's digits, a space, the field's
/// digits, a space, the value's signed digits and a line break, and each
/// number reads back as the full value it reports.
pub proof fn lemma_measurement_line_reads_back(ticks: u32, measurement: Measurement)
    ensures
        exists|tick_text: Seq<u8>, sensor_text: Seq<u8>, field_text: Seq<u8>, value_text: Seq<u8>|
            {
                &&& event_line(TimestampedEvent { ticks, event: DeviceEvent::Measurement(measurement) })
                    == tick_text + measurement_text() + sensor_text + seq![' ' as u8] + field_text
                    + seq![' ' as u8] + value_text + line_break()
                &&& is_decimal_text(tick_text) && decimal_value(tick_text) == ticks
                &&& is_decimal_text(sensor_text) && decimal_value(sensor_text)
                    == measurement.sensor.0
                &&& is_decimal_text(field_text) && decimal_value(field_text) == measurement.field.0
                &&& is_signed_decimal_text(value_text) && signed_decimal_value(value_text)
                    == measurement.value
            },
{
    let tick_text = decimal_ascii(ticks as nat);
    let sensor_text = decimal_ascii(measurement.sensor.0 as nat);
    let field_text = decimal_ascii(measurement.field.0 as nat);
    let value_text = signed_decimal_ascii(measurement.value as int);
    lemma_decimal_round_trip(ticks as nat);
    lemma_decimal_round_trip(measurement.sensor.0 as nat);
    lemma_decimal_round_trip(measurement.field.0 as nat);
    lemma_signed_decimal_round_trip(measurement.value as int);
    assert(event_line(TimestampedEvent { ticks, event: DeviceEvent::Measurement(measurement) })
        =~= tick_text + measurement_text() + sensor_text + seq![' ' as u8] + field_text
        + seq![' ' as u8] + value_text + line_break());
}

/// An input change's report line reads back as the change: it is the tick's
/// digits, ` INPUT `, the input's digits, and ` ACTIVE` or ` INACTIVE` as the
/// new state is active or not, with a line break.
pub proof fn lemma_input_line_reads_back(ticks: u32, input: BinaryInputId, state: BinaryState)
    ensures
        exists|tick_text: Seq<u8>, input_digits: Seq<u8>|
            {
                &&& event_line(
                    TimestampedEvent {
                        ticks,
                        event: DeviceEvent::BinaryInputChanged { input, state },
                    },
                ) == tick_text + input_text() + input_digits + if state == BinaryState::Active {
                    active_text()
                } else {
                    inactive_text()
                }
                &&& is_decimal_text(tick_text) && decimal_value(tick_text) == ticks
                &&& is_decimal_text(input_digits) && decimal_value(input_digits) == input.0
            },
{
    let tick_text = decimal_ascii(ticks as nat);
    let input_digits = decimal_ascii(input.0 as nat);
    lemma_decimal_round_trip(ticks as nat);
    lemma_decimal_round_trip(input.0 as nat);
    let state_text = if state == BinaryState::Active {
        active_text()
    } else {
        inactive_text()
    };
    assert(event_line(
        TimestampedEvent { ticks, event: DeviceEvent::BinaryInputChanged { input, state } },
    ) =~= tick_text + input_text() + input_digits + state_text);
}

/// Appends the report line of an event to the transmission.
pub fn report_event(serial: &Usart0, tx: &mut Vec<u8>, timestamped: TimestampedEvent)
    ensures
        final(tx)@ == old(tx)@ + event_line(timestamped),
{
    serial.write_u32(tx, timestamped.ticks);
    match timestamped.event {
        DeviceEvent::BinaryInputChanged { input, state } => {
            let text = [' ' as u8, 'I' as u8, 'N' as u8, 'P' as u8, 'U' as u8, 'T' as u8, ' ' as u8];
            serial.write_bytes(tx, &text);
            serial.write_u32(tx, input.0 as u32);
            match state {
                BinaryState::Active => {
                    let text = [
                        ' ' as u8, 'A' as u8, 'C' as u8, 'T' as u8, 'I' as u8, 'V' as u8,
                        'E' as u8, '\r' as u8, '\n' as u8,
                    ];
                    serial.write_bytes(tx, &text);
                },
                BinaryState::Inactive => {
                    let text = [
                        ' ' as u8, 'I' as u8, 'N' as u8, 'A' as u8, 'C' as u8, 'T' as u8,
                        'I' as u8, 'V' as u8, 'E' as u8, '\r' as u8, '\n' as u8,
                    ];
                    serial.write_bytes(tx, &text);
                },
            }
        },
        DeviceEvent::Measurement(measurement) => {
            let text = [
                ' ' as u8, 'M' as u8, 'E' as u8, 'A' as u8, 'S' as u8, 'U' as u8, 'R' as u8,
                'E' as u8, 'M' as u8, 'E' as u8, 'N' as u8, 'T' as u8, ' ' as u8,
            ];
            serial.write_bytes(tx, &text);
            serial.write_u32(tx, measurement.sensor.0 as u32);
            serial.write_bytes(tx, &[' ' as u8]);
            serial.write_u32(tx, measurement.field.0 as u32);
            serial.write_bytes(tx, &[' ' as u8]);
            serial.write_i32(tx, measurement.value);
            serial.write_bytes(tx, &['\r' as u8, '\n' as u8]);
        },
    }
}

/// At least `interval` ticks have passed from `last_sample_tick` to
/// `uptime`, counting across the uptime's wraparound.
pub open spec fn sample_is_due(uptime: u32, last_sample_tick: u32, interval: u32) -> bool {
    (uptime as int - last_sample_tick as int) % 0x1_0000_0000 >= interval
}

/// There is no earlier report, or `value` differs from the last reported
/// reading by at least `threshold`.
pub open spec fn reading_changed_enough(previous: Option<u16>, value: u16, threshold: u16) -> bool {
    match previous {
        None => true,
        Some(last) => (if value >= last {
            value - last
        } else {
            last - value
        }) >= threshold,
    }
}

/// Sampling is due exactly when the ticks elapsed since the last sample,
/// the full 32-bit difference taken across the uptime's wraparound, reach
/// the interval.
pub proof fn lemma_sample_due_elapsed(uptime: u32, last_sample_tick: u32, interval: u32)
    ensures
        last_sample_tick <= uptime ==> (sample_is_due(uptime, last_sample_tick, interval) <==> uptime
            - last_sample_tick >= interval),
        uptime < last_sample_tick ==> (sample_is_due(uptime, last_sample_tick, interval)
            <==> uptime + 0x1_0000_0000 - last_sample_tick >= interval),
{
}

/// A reading is reported exactly when nothing was reported before, or it
/// lies at least the threshold above or below the last report.
pub proof fn lemma_changed_enough_distance(previous: Option<u16>, value: u16, threshold: u16)
    ensures
        previous is None ==> reading_changed_enough(previous, value, threshold),
        previous matches Some(last) ==> (reading_changed_enough(previous, value, threshold) <==> (
        value >= last + threshold || last >= value + threshold)),
{
}

/// Whether the sensors are due for sampling: at least `interval` ticks have
/// passed since the last sample, counting across the uptime's wraparound.
pub fn sample_due(uptime: u32, last_sample_tick: u32, interval: u32) -> (due: bool)
    ensures
        due == sample_is_due(uptime, last_sample_tick, interval),
{
    uptime.wrapping_sub(last_sample_tick) >= interval
}

/// Whether a reading is worth reporting: there is no earlier report, or the
/// reading differs from the last reported one by at least `threshold`.
pub fn changed_enough(previous: Option<u16>, value: u16, threshold: u16) -> (changed: bool)
    ensures
        changed == reading_changed_enough(previous, value, threshold),
{
    match previous {
        None => true,
        Some(last) => {
            let difference = if value >= last {
                value - last
            } else {
                last - value
            };
            difference >= threshold
        },
    }
}

/// When the sensors were last sampled.
pub struct SampleSchedule {
    /// The uptime of the last sample.
    pub last_sample_tick: u32,
    /// How many ticks lie between samples.
    pub interval: u32,
}

impl SampleSchedule {
    /// A schedule that samples every `interval` ticks, counted from tick 0.
    pub fn new(interval: u32) -> (schedule: Self)
        ensures
            schedule.last_sample_tick == 0,
            schedule.interval == interval,
    {
        Self { last_sample_tick: 0, interval }
    }

    /// Decides whether the sensors are sampled at `uptime`; when they are,
    /// `uptime` becomes the last sample tick.
    pub fn poll(&mut self, uptime: u32) -> (due: bool)
        ensures
            due == sample_is_due(uptime, old(self).last_sample_tick, old(self).interval),
            final(self).last_sample_tick == if due {
                uptime
            } else {
                old(self).last_sample_tick
            },
            final(self).interval == old(self).interval,
    {
        let due = sample_due(uptime, self.last_sample_tick, self.interval);
        if due {
            self.last_sample_tick = uptime;
        }
        due
    }
}

/// Which readings of one sensor are reported.
pub struct ReportFilter {
    /// The last reading reported, if any.
    pub last_reported: Option<u16>,
    /// How far a reading must move from the last report to be reported.
    pub threshold: u16,
}

impl ReportFilter {
    /// A filter that has reported nothing yet.
    pub fn new(threshold: u16) -> (filter: Self)
        ensures
            filter.last_reported is None,
            filter.threshold == threshold,
    {
        Self { last_reported: None, threshold }
    }

    /// Decides whether `value` is reported; when it is, it becomes the last
    /// reported reading.
    pub fn accept(&mut self, value: u16) -> (report: bool)
        ensures
            report == reading_changed_enough(old(self).last_reported, value, old(self).threshold),
            final(self).last_reported == if report {
                Some(value)
            } else {
                old(self).last_reported
            },
            final(self).threshold == old(self).threshold,
    {
        let report = changed_enough(self.last_reported, value, self.threshold);
        if report {
            self.last_reported = Some(value);
        }
        report
    }
}

/// The measurement record of an ADC reading `value` of `field` of `sensor`
/// taken at `ticks`.
pub open spec fn reading_record(ticks: u32, sensor: SensorId, field: FieldId, value: u16) -> TimestampedMeasurement {
    TimestampedMeasurement { ticks, measurement: Measurement { sensor, field, value: value as i32 } }
}

/// Stores a reading in the device state, coalesced with earlier readings of
/// the same sensor and field.
///
/// Returns what the store reports: `Ok(true)` when the value changed,
/// `Ok(false)` when it did not, or `Err` with the record when the store has
/// no slot for it.
pub fn record_measurement<const INPUTS: usize, const MEASUREMENTS: usize>(
    state: &mut DeviceState<INPUTS, MEASUREMENTS>,
    ticks: u32,
    sensor: SensorId,
    field: FieldId,
    value: u16,
) -> (result: Result<bool, TimestampedMeasurement>)
    requires
        old(state).wf(),
    ensures
        final(state).wf(),
        (final(state).measurement_slots(), final(state).dirty_measurements(), result)
            == coalesced_update(
            old(state).measurement_slots(),
            old(state).dirty_measurements(),
            reading_record(ticks, sensor, field, value),
            measurement_key(),
            measurement_value(),
        ),
        final(state).input_slots() == old(state).input_slots(),
        final(state).dirty_inputs() == old(state).dirty_inputs(),
{
    let current = TimestampedMeasurement {
        ticks,
        measurement: Measurement { sensor, field, value: value as i32 },
    };
    state.update_measurement(current)
}

} // verus!

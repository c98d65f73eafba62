//! The demo application's behaviour: a button that cycles the on-board LED
//! through a heartbeat blink, solid on and off, sampled on every timer tick.

use crate::debounce::{debounce_step, Debouncer};
use crate::events::{BinaryInputId, BinaryState, DeviceEvent, TimestampedEvent};
use vstd::prelude::*;

verus! {

/// What the demo LED does.
#[derive(Clone, Copy, Debug, PartialEq, Eq, Structural)]
pub enum DemoLedBehavior {
    /// Blinks twice in every hundred ticks.
    Heartbeat,
    /// Stays on.
    SolidOn,
    /// Stays off.
    Off,
}

/// The behavior stored as `value`: 1 is solid on, 2 is off, and every other
/// value is the heartbeat.
pub open spec fn behavior_from_u8(value: u8) -> DemoLedBehavior {
    if value == 1 {
        DemoLedBehavior::SolidOn
    } else if value == 2 {
        DemoLedBehavior::Off
    } else {
        DemoLedBehavior::Heartbeat
    }
}

/// The number that stores a behavior.
pub open spec fn behavior_to_u8(behavior: DemoLedBehavior) -> u8 {
    match behavior {
        DemoLedBehavior::Heartbeat => 0,
        DemoLedBehavior::SolidOn => 1,
        DemoLedBehavior::Off => 2,
    }
}

/// The behavior a button press moves to: heartbeat, then solid on, then off,
/// then heartbeat again.
pub open spec fn behavior_next(behavior: DemoLedBehavior) -> DemoLedBehavior {
    match behavior {
        DemoLedBehavior::Heartbeat => DemoLedBehavior::SolidOn,
        DemoLedBehavior::SolidOn => DemoLedBehavior::Off,
        DemoLedBehavior::Off => DemoLedBehavior::Heartbeat,
    }
}

impl DemoLedBehavior {
    /// The behavior stored as `value`.
    pub fn from_u8(value: u8) -> (behavior: Self)
        ensures
            behavior == behavior_from_u8(value),
    {
        match value {
            1 => Self::SolidOn,
            2 => Self::Off,
            _ => Self::Heartbeat,
        }
    }

    /// The number that stores this behavior.
    pub fn to_u8(self) -> (value: u8)
        ensures
            value == behavior_to_u8(self),
    {
        match self {
            Self::Heartbeat => 0,
            Self::SolidOn => 1,
            Self::Off => 2,
        }
    }

    /// The behavior a button press moves to.
    pub fn next(self) -> (behavior: Self)
        ensures
            behavior == behavior_next(self),
    {
        match self {
            Self::Heartbeat => Self::SolidOn,
            Self::SolidOn => Self::Off,
            Self::Off => Self::Heartbeat,
        }
    }
}

/// Whether the heartbeat lights the LED at `phase`: during the first and
/// the third ten ticks of each hundred.
pub open spec fn heartbeat_lit(phase: u8) -> bool {
    phase < 10 || (20 <= phase && phase < 30)
}

/// The heartbeat phase after `phase`: one more, wrapping from 99 to 0.
pub open spec fn heartbeat_advance(phase: u8) -> u8 {
    if phase == 99 {
        0
    } else {
        (phase + 1) as u8
    }
}

/// What the LED does on one tick, and the heartbeat phase for the next tick.
#[derive(Clone, Copy, Debug, PartialEq, Eq, Structural)]
pub struct LedStep {
    /// Whether the LED is driven high.
    pub led_high: bool,
    /// The heartbeat phase for the next tick.
    pub phase: u8,
}

/// One tick of the LED: the heartbeat lights by phase and advances it; the
/// other behaviors hold the LED and leave the phase alone.
pub open spec fn led_step(behavior: DemoLedBehavior, phase: u8) -> LedStep {
    match behavior {
        DemoLedBehavior::Heartbeat => LedStep {
            led_high: heartbeat_lit(phase),
            phase: heartbeat_advance(phase),
        },
        DemoLedBehavior::SolidOn => LedStep { led_high: true, phase },
        DemoLedBehavior::Off => LedStep { led_high: false, phase },
    }
}

/// Decides the LED level for this tick under `behavior`, at heartbeat phase
/// `phase`, and the phase for the next tick.
pub fn heartbeat_phase(behavior: DemoLedBehavior, phase: u8) -> (step: LedStep)
    requires
        behavior == DemoLedBehavior::Heartbeat ==> phase < 255,
    ensures
        step == led_step(behavior, phase),
{
    match behavior {
        DemoLedBehavior::Heartbeat => {
            let led_high = phase < 10 || (phase >= 20 && phase < 30);
            let next = if phase == 99 {
                0
            } else {
                phase + 1
            };
            LedStep { led_high, phase: next }
        },
        DemoLedBehavior::SolidOn => LedStep { led_high: true, phase },
        DemoLedBehavior::Off => LedStep { led_high: false, phase },
    }
}

/// Within each hundred-tick cycle the heartbeat lights the LED for two
/// blinks of ten ticks: the phases whose tens digit is 0 or 2.
pub proof fn lemma_heartbeat_blinks(phase: u8)
    requires
        phase < 100,
    ensures
        heartbeat_lit(phase) <==> (phase / 10 == 0 || phase / 10 == 2),
        led_step(DemoLedBehavior::Heartbeat, phase).led_high == heartbeat_lit(phase),
        led_step(DemoLedBehavior::SolidOn, phase).led_high,
        !led_step(DemoLedBehavior::Off, phase).led_high,
{
}

/// Three presses bring the LED back to the behavior it started with, through
/// the two others; a stored behavior reads back as itself; the heartbeat is
/// stored as 0, solid on as 1 and off as 2, so every other stored number
/// reads as the heartbeat.
pub proof fn lemma_behavior_cycle(behavior: DemoLedBehavior)
    ensures
        behavior_to_u8(DemoLedBehavior::Heartbeat) == 0,
        behavior_to_u8(DemoLedBehavior::SolidOn) == 1,
        behavior_to_u8(DemoLedBehavior::Off) == 2,
        behavior_next(DemoLedBehavior::Heartbeat) == DemoLedBehavior::SolidOn,
        forall|value: u8| value > 2 ==> behavior_from_u8(value) == DemoLedBehavior::Heartbeat,
        behavior_next(behavior_next(behavior_next(behavior))) == behavior,
        behavior_next(behavior) != behavior,
        behavior_next(behavior_next(behavior)) != behavior,
        behavior_from_u8(behavior_to_u8(behavior)) == behavior,
{
}

/// The heartbeat phase after `steps` ticks from `phase`.
pub open spec fn heartbeat_after(phase: u8, steps: nat) -> u8
    decreases steps,
{
    if steps == 0 {
        phase
    } else {
        heartbeat_advance(heartbeat_after(phase, (steps - 1) as nat))
    }
}

/// The heartbeat phase counts ticks modulo one hundred: from a phase below a
/// hundred, `steps` ticks later it is the phase plus `steps`, modulo a hundred.
pub proof fn lemma_heartbeat_counts_ticks(phase: u8, steps: nat)
    requires
        phase < 100,
    ensures
        heartbeat_after(phase, steps) as int == (phase as int + steps) % 100,
    decreases steps,
{
    if steps > 0 {
        lemma_heartbeat_counts_ticks(phase, (steps - 1) as nat);
    }
}

/// The heartbeat repeats every hundred ticks.
pub proof fn lemma_heartbeat_period(phase: u8)
    requires
        phase < 100,
    ensures
        heartbeat_after(phase, 100) == phase,
{
    lemma_heartbeat_counts_ticks(phase, 100);
}

/// The demo's state across timer ticks.
pub struct DemoTicker {
    /// Ticks since start, wrapping.
    pub uptime: u32,
    /// Debounces the button.
    pub button: Debouncer,
    /// What the LED does.
    pub behavior: DemoLedBehavior,
    /// The heartbeat phase.
    pub phase: u8,
}

/// What one timer tick produced.
#[derive(Clone, Copy, Debug, PartialEq, Eq, Structural)]
pub struct TickOutcome {
    /// The uptime after the tick.
    pub ticks: u32,
    /// The button change that became stable on this tick, to be queued.
    pub event: Option<TimestampedEvent>,
    /// Whether the LED is driven high.
    pub led_high: bool,
}

/// The event for a button that became stable `active` at `ticks`.
pub open spec fn button_event(ticks: u32, input: BinaryInputId, active: bool) -> TimestampedEvent {
    TimestampedEvent {
        ticks,
        event: DeviceEvent::BinaryInputChanged {
            input,
            state: if active {
                BinaryState::Active
            } else {
                BinaryState::Inactive
            },
        },
    }
}

impl DemoTicker {
    /// The state the demo keeps between ticks: a valid debouncer and a
    /// heartbeat phase below a hundred.
    pub open spec fn valid(&self) -> bool {
        &&& self.button@.valid()
        &&& self.phase < 100
    }

    /// Handles one timer tick with the button's current level.
    ///
    /// The uptime advances by one, wrapping. When the debounced button
    /// becomes stable the change is reported as an event for `input` at the
    /// new uptime; a press also moves the LED to its next behavior and
    /// restarts the heartbeat. The LED then takes one step of its behavior.
    pub fn tick(&mut self, button_low: bool, input: BinaryInputId) -> (outcome: TickOutcome)
        requires
            old(self).valid(),
        ensures
            final(self).valid(),
            ({
                let ticks = if old(self).uptime == u32::MAX {
                    0u32
                } else {
                    (old(self).uptime + 1) as u32
                };
                let (debounced, transition) = debounce_step(old(self).button@, button_low);
                let pressed = transition == Some(true);
                let behavior = if pressed {
                    behavior_next(old(self).behavior)
                } else {
                    old(self).behavior
                };
                let step = led_step(behavior, if pressed { 0 } else { old(self).phase });
                &&& final(self).uptime == ticks
                &&& final(self).button@ == debounced
                &&& final(self).behavior == behavior
                &&& final(self).phase == step.phase
                &&& outcome.ticks == ticks
                &&& outcome.led_high == step.led_high
                &&& outcome.event == match transition {
                    Some(active) => Some(button_event(ticks, input, active)),
                    None => None,
                }
            }),
    {
        let ticks = self.uptime.wrapping_add(1);
        self.uptime = ticks;
        let mut event = None;
        if let Some(active) = self.button.update(button_low) {
            let state = if active {
                BinaryState::Active
            } else {
                BinaryState::Inactive
            };
            if active {
                self.behavior = self.behavior.next();
                self.phase = 0;
            }
            event = Some(
                TimestampedEvent { ticks, event: DeviceEvent::BinaryInputChanged { input, state } },
            );
        }
        let step = heartbeat_phase(self.behavior, self.phase);
        self.phase = step.phase;
        TickOutcome { ticks, event, led_high: step.led_high }
    }
}

} // verus!

//! Support logic for an ATmega328P (Arduino Uno R3) device runtime.
//!
//! The crate holds the parts of the device runtime that compute: the event
//! types, digital-input debouncing, a fixed-capacity FIFO event queue, the
//! coalescing store of latest device states, the register values that drive
//! GPIO, the ADC, Timer1 and USART0, the decimal text that the serial link
//! carries, and the demo LED behaviour. Reading and writing the hardware
//! registers themselves is left to the firmware that uses this crate.

pub mod events;
pub mod event_queue;
pub mod state;
pub mod debounce;
pub mod register;
pub mod serial;
pub mod telemetry;
pub mod gpio;
pub mod adc;
pub mod timer;
pub mod demo;

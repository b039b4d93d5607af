//! A polling master driver for the STM32F4 two-wire bus controller (I2C),
//! written as decisions over plain register values.
//!
//! - `timing`: input clock and bus speed to the frequency, rise-time and
//!   clock-control fields, rejecting what does not fit.
//! - `registers`: register and bit names, and the initialisation sequence.
//! - `protocol`: a write or a read as its ordered list of register steps.
//! - `transfer`: the state machine that walks those steps one register
//!   access at a time, with every poll bounded.
//! - `cooperative`: runs against a bus that answers at once, and the
//!   write-then-read round trip.
//! - `pwm`: register values for three-channel PWM on the advanced timer.
//!
//! Nothing here touches hardware: the caller carries out each request and
//! hands back what it read.
use vstd::prelude::*;

pub mod cooperative;
pub mod protocol;
pub mod pwm;
pub mod registers;
pub mod timing;
pub mod transfer;

verus! {

} // verus!

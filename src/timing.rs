//! Bus timing: from the peripheral input clock and the wanted bus speed to
//! the values of the frequency, rise-time and clock-control fields.
use vstd::prelude::*;

verus! {

/// Speed class of the bus.
#[derive(Clone, Copy, Debug, PartialEq, Eq, Structural)]
pub enum BusMode {
    /// Standard mode, 100 kHz serial clock, 1000 ns maximum rise time.
    Standard,
    /// Fast mode, 400 kHz serial clock, 300 ns maximum rise time.
    Fast,
}

/// Ratio of low to high time of the serial clock in fast mode.
#[derive(Clone, Copy, Debug, PartialEq, Eq, Structural)]
pub enum DutyCycle {
    /// T_low = 2 * T_high.
    Ratio2To1,
    /// T_low / T_high = 16 / 9.
    Ratio16To9,
}

/// Why a timing configuration was rejected.
#[derive(Clone, Copy, Debug, PartialEq, Eq, Structural)]
pub enum ConfigError {
    /// The input clock, in whole MHz, lies outside `MIN_FREQ_MHZ..=MAX_FREQ_MHZ`.
    FrequencyOutOfRange,
    /// The clock-control value is below the mode's minimum or does not fit 12 bits.
    ClockControlOutOfRange,
}

/// Register-ready timing values, computed once and then left as they are.
#[derive(Clone, Copy, Debug, PartialEq, Eq, Structural)]
pub struct TimingConfig {
    pub mode: BusMode,
    pub duty: DutyCycle,
    /// Input clock in MHz (frequency field).
    pub frequency: u8,
    /// Maximum rise time in input clock periods, plus one (rise-time field).
    pub rise_time: u8,
    /// Serial clock divider (clock-control field, 12 bits).
    pub clock_control: u16,
}

pub const MIN_FREQ_MHZ: u32 = 2;

pub const MAX_FREQ_MHZ: u32 = 50;

pub const MAX_CLOCK_CONTROL: u32 = 0xFFF;

pub const STANDARD_SCL_HZ: u32 = 100_000;

pub const FAST_SCL_HZ: u32 = 400_000;

pub open spec fn scl_hz(mode: BusMode) -> nat {
    match mode {
        BusMode::Standard => STANDARD_SCL_HZ as nat,
        BusMode::Fast => FAST_SCL_HZ as nat,
    }
}

pub open spec fn max_rise_ns(mode: BusMode) -> nat {
    match mode {
        BusMode::Standard => 1000,
        BusMode::Fast => 300,
    }
}

/// Input clock in whole MHz.
pub open spec fn frequency_field(input_clock_hz: nat) -> nat {
    input_clock_hz / 1_000_000
}

/// The maximum rise time counted in whole input clock periods (rounded
/// down), plus one.
pub open spec fn rise_time_field(frequency: nat, mode: BusMode) -> nat {
    frequency * max_rise_ns(mode) / 1000 + 1
}

/// Serial clock periods per clock-control unit: 2 in standard mode
/// (T_high = T_low), 3 for 2:1 and 25 for 16:9 in fast mode.
pub open spec fn periods_per_unit(mode: BusMode, duty: DutyCycle) -> nat {
    match mode {
        BusMode::Standard => 2,
        BusMode::Fast => match duty {
            DutyCycle::Ratio2To1 => 3,
            DutyCycle::Ratio16To9 => 25,
        },
    }
}

pub open spec fn clock_control_field(input_clock_hz: nat, mode: BusMode, duty: DutyCycle) -> nat {
    input_clock_hz / (periods_per_unit(mode, duty) * scl_hz(mode))
}

/// Smallest clock-control value the controller accepts in each mode.
pub open spec fn min_clock_control(mode: BusMode) -> nat {
    match mode {
        BusMode::Standard => 4,
        BusMode::Fast => 1,
    }
}

pub open spec fn frequency_ok(input_clock_hz: nat) -> bool {
    MIN_FREQ_MHZ <= frequency_field(input_clock_hz) <= MAX_FREQ_MHZ
}

pub open spec fn clock_control_ok(input_clock_hz: nat, mode: BusMode, duty: DutyCycle) -> bool {
    min_clock_control(mode) <= clock_control_field(input_clock_hz, mode, duty) <= MAX_CLOCK_CONTROL
}

/// What `compute_timing` returns for every input.
pub open spec fn timing_result(input_clock_hz: nat, mode: BusMode, duty: DutyCycle) -> Result<
    TimingConfig,
    ConfigError,
> {
    if !frequency_ok(input_clock_hz) {
        Err(ConfigError::FrequencyOutOfRange)
    } else if !clock_control_ok(input_clock_hz, mode, duty) {
        Err(ConfigError::ClockControlOutOfRange)
    } else {
        Ok(
            TimingConfig {
                mode,
                duty,
                frequency: frequency_field(input_clock_hz) as u8,
                rise_time: rise_time_field(frequency_field(input_clock_hz), mode) as u8,
                clock_control: clock_control_field(input_clock_hz, mode, duty) as u16,
            },
        )
    }
}

impl TimingConfig {
    /// Every field lies in its register's valid range and agrees with the
    /// formulas for some input clock.
    pub open spec fn wf(&self) -> bool {
        &&& MIN_FREQ_MHZ <= self.frequency <= MAX_FREQ_MHZ
        &&& self.rise_time as nat == rise_time_field(self.frequency as nat, self.mode)
        &&& min_clock_control(self.mode) <= self.clock_control <= MAX_CLOCK_CONTROL
    }
}

/// Derives the timing fields; a value that does not fit its field is
/// rejected, never truncated.
pub fn compute_timing(input_clock_hz: u32, mode: BusMode, duty: DutyCycle) -> (r: Result<
    TimingConfig,
    ConfigError,
>)
    ensures
        r == timing_result(input_clock_hz as nat, mode, duty),
        r is Ok ==> r->Ok_0.wf(),
{
    let frequency: u32 = input_clock_hz / 1_000_000;
    if frequency < MIN_FREQ_MHZ || frequency > MAX_FREQ_MHZ {
        return Err(ConfigError::FrequencyOutOfRange);
    }
    let max_rise: u32 = match mode {
        BusMode::Standard => 1000,
        BusMode::Fast => 300,
    };
    assert(frequency * max_rise <= 50_000) by (nonlinear_arith)
        requires
            frequency <= 50,
            max_rise <= 1000,
    ;
    let rise_time: u32 = frequency * max_rise / 1000 + 1;
    let divisor: u32 = match mode {
        BusMode::Standard => 2 * STANDARD_SCL_HZ,
        BusMode::Fast => match duty {
            DutyCycle::Ratio2To1 => 3 * FAST_SCL_HZ,
            DutyCycle::Ratio16To9 => 25 * FAST_SCL_HZ,
        },
    };
    let clock_control: u32 = input_clock_hz / divisor;
    let min_ccr: u32 = match mode {
        BusMode::Standard => 4,
        BusMode::Fast => 1,
    };
    if clock_control < min_ccr || clock_control > MAX_CLOCK_CONTROL {
        return Err(ConfigError::ClockControlOutOfRange);
    }
    Ok(
        TimingConfig {
            mode,
            duty,
            frequency: frequency as u8,
            rise_time: rise_time as u8,
            clock_control: clock_control as u16,
        },
    )
}

} // verus!

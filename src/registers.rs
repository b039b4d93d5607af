//! Typed view of the controller's register block: which register, which bit,
//! and the one-shot initialisation sequence built from a timing configuration.
use vstd::prelude::*;
use crate::timing::{BusMode, ConfigError, DutyCycle, TimingConfig, compute_timing, timing_result};

verus! {

/// The controller's registers that the driver touches.
#[derive(Clone, Copy, Debug, PartialEq, Eq, Structural)]
pub enum Register {
    /// Control register 1: enable, mode, START, STOP, ACK.
    Cr1,
    /// Control register 2: input clock frequency field.
    Cr2,
    /// Data register.
    Dr,
    /// Status register 1: transfer flags.
    Sr1,
    /// Status register 2: master and busy flags; reading it clears ADDR.
    Sr2,
    /// Clock control register: speed mode, duty cycle, divider.
    Ccr,
    /// Rise-time register.
    Trise,
    /// Noise filter register.
    Fltr,
}

/// A single-bit field of control register 1.
#[derive(Clone, Copy, Debug, PartialEq, Eq, Structural)]
pub enum ControlBit {
    /// PE: peripheral enable.
    Enable,
    /// SMBUS: SMBus mode instead of plain two-wire mode.
    SmbusMode,
    /// NOSTRETCH: clock stretching disabled.
    NoStretch,
    /// START: generate a start condition.
    Start,
    /// STOP: generate a stop condition; cleared by hardware once sent.
    Stop,
    /// ACK: acknowledge each received byte.
    Ack,
}

/// A single-bit flag of status register 1 or 2.
#[derive(Clone, Copy, Debug, PartialEq, Eq, Structural)]
pub enum StatusFlag {
    /// SR1.SB: start condition generated.
    StartBit,
    /// SR1.ADDR: address sent and acknowledged.
    AddressSent,
    /// SR1.BTF: byte transfer finished.
    ByteFinished,
    /// SR1.RXNE: data register holds a received byte.
    RxNotEmpty,
    /// SR1.TXE: data register empty.
    TxEmpty,
    /// SR1.ARLO: arbitration lost.
    ArbitrationLost,
    /// SR1.AF: acknowledge failure.
    AckFailure,
    /// SR2.MSL: master mode.
    Master,
    /// SR2.BUSY: communication in progress on the bus.
    Busy,
}

pub open spec fn control_bit_index(b: ControlBit) -> u32 {
    match b {
        ControlBit::Enable => 0,
        ControlBit::SmbusMode => 1,
        ControlBit::NoStretch => 7,
        ControlBit::Start => 8,
        ControlBit::Stop => 9,
        ControlBit::Ack => 10,
    }
}

pub open spec fn status_bit_index(f: StatusFlag) -> u32 {
    match f {
        StatusFlag::StartBit => 0,
        StatusFlag::AddressSent => 1,
        StatusFlag::ByteFinished => 2,
        StatusFlag::RxNotEmpty => 6,
        StatusFlag::TxEmpty => 7,
        StatusFlag::ArbitrationLost => 9,
        StatusFlag::AckFailure => 10,
        StatusFlag::Master => 0,
        StatusFlag::Busy => 1,
    }
}

/// The status register that holds a flag.
pub open spec fn status_register(f: StatusFlag) -> Register {
    match f {
        StatusFlag::Master | StatusFlag::Busy => Register::Sr2,
        _ => Register::Sr1,
    }
}

/// Bit `n` of a register value is set.
pub open spec fn bit_set(value: u32, n: u32) -> bool {
    (value >> n) & 1 == 1
}

pub fn control_bit_position(b: ControlBit) -> (r: u32)
    ensures
        r == control_bit_index(b),
        r < 32,
{
    match b {
        ControlBit::Enable => 0,
        ControlBit::SmbusMode => 1,
        ControlBit::NoStretch => 7,
        ControlBit::Start => 8,
        ControlBit::Stop => 9,
        ControlBit::Ack => 10,
    }
}

pub fn status_bit_position(f: StatusFlag) -> (r: u32)
    ensures
        r == status_bit_index(f),
        r < 32,
{
    match f {
        StatusFlag::StartBit => 0,
        StatusFlag::AddressSent => 1,
        StatusFlag::ByteFinished => 2,
        StatusFlag::RxNotEmpty => 6,
        StatusFlag::TxEmpty => 7,
        StatusFlag::ArbitrationLost => 9,
        StatusFlag::AckFailure => 10,
        StatusFlag::Master => 0,
        StatusFlag::Busy => 1,
    }
}

/// Whether `flag` is set in `value`, read from the flag's status register.
pub fn flag_is_set(value: u32, flag: StatusFlag) -> (r: bool)
    ensures
        r == bit_set(value, status_bit_index(flag)),
{
    let n = status_bit_position(flag);
    (value >> n) & 1 == 1
}

/// Whether `bit` is set in a value of control register 1.
pub fn control_is_set(value: u32, bit: ControlBit) -> (r: bool)
    ensures
        r == bit_set(value, control_bit_index(bit)),
{
    let n = control_bit_position(bit);
    (value >> n) & 1 == 1
}

/// Clock control register layout: F/S at bit 15, DUTY at bit 14, CCR in bits 0..12.
pub open spec fn ccr_register_value(cfg: TimingConfig) -> u32 {
    let fs: u32 = if cfg.mode == BusMode::Fast { 1 } else { 0 };
    let duty: u32 = if cfg.duty == DutyCycle::Ratio16To9 { 1 } else { 0 };
    (fs << 15u32) | (duty << 14u32) | (cfg.clock_control as u32)
}

/// The value of the clock control register for a configuration.
pub fn ccr_register(cfg: &TimingConfig) -> (r: u32)
    ensures
        r == ccr_register_value(*cfg),
{
    let fs: u32 = match cfg.mode {
        BusMode::Fast => 1,
        BusMode::Standard => 0,
    };
    let duty: u32 = match cfg.duty {
        DutyCycle::Ratio16To9 => 1,
        DutyCycle::Ratio2To1 => 0,
    };
    (fs << 15u32) | (duty << 14u32) | (cfg.clock_control as u32)
}

/// One register access of a configuration sequence.
#[derive(Clone, Copy, Debug, PartialEq, Eq, Structural)]
pub enum RegisterWrite {
    /// Set one bit of control register 1, keeping the others.
    SetControl(ControlBit),
    /// Clear one bit of control register 1, keeping the others.
    ClearControl(ControlBit),
    /// Write a whole register.
    Write(Register, u32),
}

/// The initialisation sequence, in order: disable the controller; select
/// two-wire mode; keep clock stretching on; analog filter on, digital filter
/// off; the three timing fields; enable again.
pub open spec fn init_writes(cfg: TimingConfig) -> Seq<RegisterWrite> {
    seq![
        RegisterWrite::ClearControl(ControlBit::Enable),
        RegisterWrite::ClearControl(ControlBit::SmbusMode),
        RegisterWrite::ClearControl(ControlBit::NoStretch),
        RegisterWrite::Write(Register::Fltr, 0),
        RegisterWrite::Write(Register::Cr2, cfg.frequency as u32),
        RegisterWrite::Write(Register::Trise, cfg.rise_time as u32),
        RegisterWrite::Write(Register::Ccr, ccr_register_value(cfg)),
        RegisterWrite::SetControl(ControlBit::Enable),
    ]
}

/// The register writes that configure the controller for `cfg`.
pub fn init_sequence(cfg: &TimingConfig) -> (r: Vec<RegisterWrite>)
    ensures
        r@ == init_writes(*cfg),
{
    let mut v: Vec<RegisterWrite> = Vec::new();
    v.push(RegisterWrite::ClearControl(ControlBit::Enable));
    v.push(RegisterWrite::ClearControl(ControlBit::SmbusMode));
    v.push(RegisterWrite::ClearControl(ControlBit::NoStretch));
    v.push(RegisterWrite::Write(Register::Fltr, 0));
    v.push(RegisterWrite::Write(Register::Cr2, cfg.frequency as u32));
    v.push(RegisterWrite::Write(Register::Trise, cfg.rise_time as u32));
    v.push(RegisterWrite::Write(Register::Ccr, ccr_register(cfg)));
    v.push(RegisterWrite::SetControl(ControlBit::Enable));
    assert(v@ =~= init_writes(*cfg));
    v
}

/// Derives the timing for the input clock and the wanted speed and returns
/// the initialisation sequence; nothing is to be written when the timing is
/// rejected.
pub fn init(input_clock_hz: u32, mode: BusMode, duty: DutyCycle) -> (r: Result<
    Vec<RegisterWrite>,
    ConfigError,
>)
    ensures
        match timing_result(input_clock_hz as nat, mode, duty) {
            Ok(cfg) => r is Ok && r->Ok_0@ == init_writes(cfg),
            Err(e) => r == Err::<Vec<RegisterWrite>, ConfigError>(e),
        },
{
    match compute_timing(input_clock_hz, mode, duty) {
        Ok(cfg) => Ok(init_sequence(&cfg)),
        Err(e) => Err(e),
    }
}

} // verus!

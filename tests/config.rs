use stm32f4_i2c::protocol::{Step, read_steps, write_steps};
use stm32f4_i2c::pwm::{PwmTimer, TIM1Ext, TimerRegister, TimerWrite, pwm_setup_sequence};
use stm32f4_i2c::registers::{
    ControlBit, Register, RegisterWrite, StatusFlag, ccr_register, control_is_set, flag_is_set,
    init,
};
use stm32f4_i2c::timing::{BusMode, ConfigError, DutyCycle, TimingConfig, compute_timing};

fn fields(hz: u32, mode: BusMode) -> (u8, u8, u16) {
    let c = compute_timing(hz, mode, DutyCycle::Ratio2To1).unwrap();
    (c.frequency, c.rise_time, c.clock_control)
}

#[test]
fn timing_fields_for_common_clocks() {
    assert_eq!(fields(8_000_000, BusMode::Standard), (8, 9, 40));
    assert_eq!(fields(8_000_000, BusMode::Fast), (8, 3, 6));
    assert_eq!(fields(16_000_000, BusMode::Standard), (16, 17, 80));
    assert_eq!(fields(16_000_000, BusMode::Fast), (16, 5, 13));
    assert_eq!(fields(25_000_000, BusMode::Standard), (25, 26, 125));
    assert_eq!(fields(25_000_000, BusMode::Fast), (25, 8, 20));
}

#[test]
fn timing_uses_whole_megahertz() {
    assert_eq!(fields(16_999_999, BusMode::Fast), (16, 5, 14));
    assert_eq!(fields(42_000_000, BusMode::Fast), (42, 13, 35));
}

#[test]
fn timing_sixteen_to_nine_duty() {
    let c = compute_timing(40_000_000, BusMode::Fast, DutyCycle::Ratio16To9).unwrap();
    assert_eq!((c.frequency, c.rise_time, c.clock_control), (40, 13, 4));
    assert_eq!(ccr_register(&c), 0xC004);
}

#[test]
fn timing_rejects_out_of_range_frequency() {
    assert_eq!(
        compute_timing(1_999_999, BusMode::Standard, DutyCycle::Ratio2To1),
        Err(ConfigError::FrequencyOutOfRange)
    );
    assert_eq!(
        compute_timing(51_000_000, BusMode::Fast, DutyCycle::Ratio2To1),
        Err(ConfigError::FrequencyOutOfRange)
    );
    assert_eq!(compute_timing(0, BusMode::Fast, DutyCycle::Ratio2To1), Err(ConfigError::FrequencyOutOfRange));
    assert!(compute_timing(2_000_000, BusMode::Standard, DutyCycle::Ratio2To1).is_ok());
    assert!(compute_timing(50_999_999, BusMode::Standard, DutyCycle::Ratio2To1).is_ok());
}

#[test]
fn timing_rejects_too_small_clock_control() {
    assert_eq!(
        compute_timing(2_000_000, BusMode::Fast, DutyCycle::Ratio16To9),
        Err(ConfigError::ClockControlOutOfRange)
    );
    assert_eq!(
        compute_timing(9_999_999, BusMode::Fast, DutyCycle::Ratio16To9),
        Err(ConfigError::ClockControlOutOfRange)
    );
    let c = compute_timing(10_000_000, BusMode::Fast, DutyCycle::Ratio16To9).unwrap();
    assert_eq!(c.clock_control, 1);
}

#[test]
fn init_sixteen_megahertz_fast() {
    let writes = init(16_000_000, BusMode::Fast, DutyCycle::Ratio2To1).unwrap();
    assert_eq!(
        writes,
        vec![
            RegisterWrite::ClearControl(ControlBit::Enable),
            RegisterWrite::ClearControl(ControlBit::SmbusMode),
            RegisterWrite::ClearControl(ControlBit::NoStretch),
            RegisterWrite::Write(Register::Fltr, 0),
            RegisterWrite::Write(Register::Cr2, 16),
            RegisterWrite::Write(Register::Trise, 5),
            RegisterWrite::Write(Register::Ccr, 0x8000 | 13),
            RegisterWrite::SetControl(ControlBit::Enable),
        ]
    );
}

#[test]
fn init_standard_mode_ccr() {
    let writes = init(8_000_000, BusMode::Standard, DutyCycle::Ratio2To1).unwrap();
    assert_eq!(writes[6], RegisterWrite::Write(Register::Ccr, 40));
}

#[test]
fn init_rejects_before_any_write() {
    assert_eq!(init(60_000_000, BusMode::Fast, DutyCycle::Ratio2To1), Err(ConfigError::FrequencyOutOfRange));
}

#[test]
fn ccr_register_layout() {
    let c = TimingConfig {
        mode: BusMode::Standard,
        duty: DutyCycle::Ratio2To1,
        frequency: 16,
        rise_time: 17,
        clock_control: 0xFFF,
    };
    assert_eq!(ccr_register(&c), 0x0FFF);
}

#[test]
fn status_and_control_bits() {
    assert!(flag_is_set(0x0001, StatusFlag::StartBit));
    assert!(!flag_is_set(0x0001, StatusFlag::AddressSent));
    assert!(flag_is_set(0x0040, StatusFlag::RxNotEmpty));
    assert!(flag_is_set(0x0080, StatusFlag::TxEmpty));
    assert!(flag_is_set(0x0400, StatusFlag::AckFailure));
    assert!(flag_is_set(0x0200, StatusFlag::ArbitrationLost));
    assert!(flag_is_set(0x0002, StatusFlag::Busy));
    assert!(control_is_set(0x0200, ControlBit::Stop));
    assert!(!control_is_set(0x0100, ControlBit::Stop));
    assert!(control_is_set(0x0400, ControlBit::Ack));
}

#[test]
fn write_steps_layout() {
    let s = write_steps(0x53, &vec![0x2D, 0x08]);
    assert_eq!(s.len(), 16);
    assert_eq!(s[3], Step::SendByte(0xA6));
    assert_eq!(s[6], Step::CheckBus);
    assert_eq!(s[8], Step::SendByte(0x2D));
    assert_eq!(s[10], Step::CheckBus);
    assert_eq!(s[12], Step::SendByte(0x08));
    assert_eq!(s[14], Step::SetControl(ControlBit::Stop));
    assert_eq!(s[15], Step::AwaitStopSent);
}

#[test]
fn read_steps_layout() {
    let s = read_steps(0x53, 3);
    assert_eq!(s.len(), 19);
    assert_eq!(s[0], Step::SetControl(ControlBit::Ack));
    assert_eq!(s[4], Step::SendByte(0xA7));
    assert_eq!(s[7], Step::CheckBus);
    assert_eq!(s[9], Step::ReceiveByte(0));
    assert_eq!(s[10], Step::CheckBus);
    assert_eq!(s[12], Step::ReceiveByte(1));
    assert_eq!(s[13], Step::CheckBus);
    assert_eq!(s[14], Step::ClearControl(ControlBit::Ack));
    assert_eq!(s[15], Step::SetControl(ControlBit::Stop));
    assert_eq!(s[17], Step::ReceiveByte(2));
    let one = read_steps(0x7F, 1);
    assert_eq!(one.len(), 13);
    assert_eq!(one[4], Step::SendByte(0xFF));
    assert_eq!(one[7], Step::CheckBus);
    assert_eq!(one[8], Step::ClearControl(ControlBit::Ack));
    assert_eq!(one[11], Step::ReceiveByte(0));
}

#[test]
fn pwm_setup_and_colours() {
    let mut t = PwmTimer::reset();
    t.cr1 = 0x0090;
    t.set_rgb(1, 2, 3);
    t.setup_as_pwm();
    assert_eq!((t.prescaler, t.auto_reload), (2499, 254));
    // DIR cleared, CEN set, ARPE (bit 7) kept.
    assert_eq!(t.cr1, 0x0081);
    assert_eq!((t.ccmr1, t.ccmr2, t.ccer, t.bdtr), (0x6868, 0x0068, 0x0444, 0x8000));
    assert_eq!((t.ccr3, t.ccr2, t.ccr1), (1, 2, 3));
    t.set_red(255);
    assert_eq!((t.ccr3, t.ccr2, t.ccr1), (255, 2, 3));
    t.set_green(7);
    assert_eq!((t.ccr3, t.ccr2, t.ccr1), (255, 7, 3));
    t.set_blue(9);
    assert_eq!((t.ccr3, t.ccr2, t.ccr1), (255, 7, 9));
    t.set_rgb(0, 0, 0);
    assert_eq!((t.ccr3, t.ccr2, t.ccr1), (0, 0, 0));
    assert_eq!(t.prescaler, 2499);
}

#[test]
fn pwm_setup_enables_counter_last() {
    let ws = pwm_setup_sequence();
    assert_eq!(ws.len(), 8);
    assert_eq!(ws[0], TimerWrite::ModifyCr1(0x10, 0));
    assert_eq!(ws[1], TimerWrite::Write(TimerRegister::Psc, 2499));
    assert_eq!(ws[6], TimerWrite::Write(TimerRegister::Bdtr, 0x8000));
    assert_eq!(ws[7], TimerWrite::ModifyCr1(0, 0x01));
}

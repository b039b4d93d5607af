//! Three-channel PWM on the advanced timer, driving a red/green/blue LED
//! through the complementary outputs: register values as plain data.
use vstd::prelude::*;

verus! {

/// Prescaler: the timer input clock is divided by `PWM_PRESCALER + 1`.
pub const PWM_PRESCALER: u16 = 2499;

/// Auto-reload: the counter runs up from 0 to `PWM_AUTO_RELOAD`.
pub const PWM_AUTO_RELOAD: u16 = 254;

/// CCMR1: PWM mode 1 with preload on channels 1 and 2 (OC1M, OC1PE, OC2M, OC2PE).
pub const PWM_CCMR1: u32 = 0x6868;

/// CCMR2: PWM mode 1 with preload on channel 3 (OC3M, OC3PE).
pub const PWM_CCMR2: u32 = 0x0068;

/// CCER: complementary outputs of channels 1 to 3 enabled, active high.
pub const PWM_CCER: u32 = 0x0444;

/// BDTR: main output enable (MOE).
pub const PWM_BDTR: u32 = 0x8000;

/// CR1.CEN: counter enable.
pub const CR1_CEN: u32 = 0x0001;

/// CR1.DIR: count down when set.
pub const CR1_DIR: u32 = 0x0010;

/// A register of the advanced timer that the PWM setup writes whole.
#[derive(Clone, Copy, Debug, PartialEq, Eq, Structural)]
pub enum TimerRegister {
    Psc,
    Arr,
    Ccmr1,
    Ccmr2,
    Ccer,
    Bdtr,
}

/// One register access of the PWM setup.
#[derive(Clone, Copy, Debug, PartialEq, Eq, Structural)]
pub enum TimerWrite {
    /// Read-modify-write of CR1: clear the bits of the first mask, then set
    /// those of the second; all other bits keep their value.
    ModifyCr1(u32, u32),
    /// Write a whole register.
    Write(TimerRegister, u32),
}

/// The timer's register values that the PWM setup and the colour writes touch.
#[derive(Clone, Copy, Debug, PartialEq, Eq, Structural)]
pub struct PwmTimer {
    pub cr1: u32,
    pub prescaler: u32,
    pub auto_reload: u32,
    pub ccmr1: u32,
    pub ccmr2: u32,
    pub ccer: u32,
    pub bdtr: u32,
    /// Compare value of channel 1 (blue).
    pub ccr1: u32,
    /// Compare value of channel 2 (green).
    pub ccr2: u32,
    /// Compare value of channel 3 (red).
    pub ccr3: u32,
}

/// The timer after one register access.
pub open spec fn apply_timer_write(t: PwmTimer, w: TimerWrite) -> PwmTimer {
    match w {
        TimerWrite::ModifyCr1(clear, set) => PwmTimer { cr1: (t.cr1 & !clear) | set, ..t },
        TimerWrite::Write(reg, v) => match reg {
            TimerRegister::Psc => PwmTimer { prescaler: v, ..t },
            TimerRegister::Arr => PwmTimer { auto_reload: v, ..t },
            TimerRegister::Ccmr1 => PwmTimer { ccmr1: v, ..t },
            TimerRegister::Ccmr2 => PwmTimer { ccmr2: v, ..t },
            TimerRegister::Ccer => PwmTimer { ccer: v, ..t },
            TimerRegister::Bdtr => PwmTimer { bdtr: v, ..t },
        },
    }
}

/// The timer after a sequence of register accesses, in order.
pub open spec fn apply_timer_writes(t: PwmTimer, ws: Seq<TimerWrite>) -> PwmTimer
    decreases ws.len(),
{
    if ws.len() == 0 {
        t
    } else {
        apply_timer_write(apply_timer_writes(t, ws.drop_last()), ws.last())
    }
}

/// The PWM setup, in order: count up; prescaler; reload value; PWM mode 1
/// with preload on channels 1 to 3; their complementary outputs on; main
/// output on; and last, once every channel is set up, the counter on.
pub open spec fn pwm_setup_writes() -> Seq<TimerWrite> {
    seq![
        TimerWrite::ModifyCr1(CR1_DIR, 0),
        TimerWrite::Write(TimerRegister::Psc, PWM_PRESCALER as u32),
        TimerWrite::Write(TimerRegister::Arr, PWM_AUTO_RELOAD as u32),
        TimerWrite::Write(TimerRegister::Ccmr1, PWM_CCMR1),
        TimerWrite::Write(TimerRegister::Ccmr2, PWM_CCMR2),
        TimerWrite::Write(TimerRegister::Ccer, PWM_CCER),
        TimerWrite::Write(TimerRegister::Bdtr, PWM_BDTR),
        TimerWrite::ModifyCr1(0, CR1_CEN),
    ]
}

/// The register accesses of the PWM setup, for a caller that drives the
/// hardware timer.
pub fn pwm_setup_sequence() -> (r: Vec<TimerWrite>)
    ensures
        r@ == pwm_setup_writes(),
{
    let r = vec![
        TimerWrite::ModifyCr1(CR1_DIR, 0),
        TimerWrite::Write(TimerRegister::Psc, PWM_PRESCALER as u32),
        TimerWrite::Write(TimerRegister::Arr, PWM_AUTO_RELOAD as u32),
        TimerWrite::Write(TimerRegister::Ccmr1, PWM_CCMR1),
        TimerWrite::Write(TimerRegister::Ccmr2, PWM_CCMR2),
        TimerWrite::Write(TimerRegister::Ccer, PWM_CCER),
        TimerWrite::Write(TimerRegister::Bdtr, PWM_BDTR),
        TimerWrite::ModifyCr1(0, CR1_CEN),
    ];
    assert(r@ =~= pwm_setup_writes());
    r
}

impl PwmTimer {
    /// The register values after reset: all zero, so counting up and stopped.
    pub fn reset() -> (r: PwmTimer)
        ensures
            r == (PwmTimer {
                cr1: 0,
                prescaler: 0,
                auto_reload: 0,
                ccmr1: 0,
                ccmr2: 0,
                ccer: 0,
                bdtr: 0,
                ccr1: 0,
                ccr2: 0,
                ccr3: 0,
            }),
    {
        PwmTimer {
            cr1: 0,
            prescaler: 0,
            auto_reload: 0,
            ccmr1: 0,
            ccmr2: 0,
            ccer: 0,
            bdtr: 0,
            ccr1: 0,
            ccr2: 0,
            ccr3: 0,
        }
    }

    /// Set up as three-channel PWM: counting up with the counter running,
    /// the prescaler and reload values above, PWM mode 1 with preload on
    /// channels 1 to 3, their complementary outputs on, main output on.
    pub open spec fn is_pwm(&self) -> bool {
        &&& self.cr1 & CR1_DIR == 0
        &&& self.cr1 & CR1_CEN == CR1_CEN
        &&& self.prescaler == PWM_PRESCALER
        &&& self.auto_reload == PWM_AUTO_RELOAD
        &&& self.ccmr1 == PWM_CCMR1
        &&& self.ccmr2 == PWM_CCMR2
        &&& self.ccer == PWM_CCER
        &&& self.bdtr == PWM_BDTR
    }

    /// The compare values of the red, green and blue channels.
    pub open spec fn rgb(&self) -> (u32, u32, u32) {
        (self.ccr3, self.ccr2, self.ccr1)
    }

    /// Everything but the compare values.
    pub open spec fn same_setup(&self, other: &PwmTimer) -> bool {
        &&& self.cr1 == other.cr1
        &&& self.prescaler == other.prescaler
        &&& self.auto_reload == other.auto_reload
        &&& self.ccmr1 == other.ccmr1
        &&& self.ccmr2 == other.ccmr2
        &&& self.ccer == other.ccer
        &&& self.bdtr == other.bdtr
    }
}

/// Colour output on the advanced timer: channel 3 drives red, channel 2
/// green, channel 1 blue.
pub trait TIM1Ext {
    /// Puts the timer into PWM mode; the compare values are kept.
    fn setup_as_pwm(&mut self);

    fn set_red(&mut self, value: u16);

    fn set_green(&mut self, value: u16);

    fn set_blue(&mut self, value: u16);

    fn set_rgb(&mut self, r: u16, g: u16, b: u16);
}

impl TIM1Ext for PwmTimer {
    fn setup_as_pwm(&mut self)
        ensures
            *final(self) == apply_timer_writes(*old(self), pwm_setup_writes()),
            final(self).is_pwm(),
            final(self).cr1 & !(CR1_DIR | CR1_CEN) == old(self).cr1 & !(CR1_DIR | CR1_CEN),
            final(self).rgb() == old(self).rgb(),
    {
        let ghost t0 = *self;
        self.cr1 = (self.cr1 & !CR1_DIR) | 0;
        self.prescaler = PWM_PRESCALER as u32;
        self.auto_reload = PWM_AUTO_RELOAD as u32;
        self.ccmr1 = PWM_CCMR1;
        self.ccmr2 = PWM_CCMR2;
        self.ccer = PWM_CCER;
        self.bdtr = PWM_BDTR;
        self.cr1 = (self.cr1 & !0u32) | CR1_CEN;
        proof {
            reveal_with_fuel(apply_timer_writes, 9);
            assert(pwm_setup_writes().drop_last().drop_last().drop_last().drop_last().drop_last().drop_last().drop_last().drop_last() =~= Seq::<TimerWrite>::empty());
            let x = t0.cr1;
            assert(((((x & !16u32) | 0u32) & !0u32) | 1u32) & 16u32 == 0u32
                && ((((x & !16u32) | 0u32) & !0u32) | 1u32) & 1u32 == 1u32
                && ((((x & !16u32) | 0u32) & !0u32) | 1u32) & !(16u32 | 1u32) == x & !(16u32 | 1u32))
                by (bit_vector);
        }
    }

    fn set_red(&mut self, value: u16)
        ensures
            final(self).rgb() == (value as u32, old(self).rgb().1, old(self).rgb().2),
            final(self).same_setup(old(self)),
    {
        self.ccr3 = value as u32;
    }

    fn set_green(&mut self, value: u16)
        ensures
            final(self).rgb() == (old(self).rgb().0, value as u32, old(self).rgb().2),
            final(self).same_setup(old(self)),
    {
        self.ccr2 = value as u32;
    }

    fn set_blue(&mut self, value: u16)
        ensures
            final(self).rgb() == (old(self).rgb().0, old(self).rgb().1, value as u32),
            final(self).same_setup(old(self)),
    {
        self.ccr1 = value as u32;
    }

    fn set_rgb(&mut self, r: u16, g: u16, b: u16)
        ensures
            final(self).rgb() == (r as u32, g as u32, b as u32),
            final(self).same_setup(old(self)),
    {
        self.ccr3 = r as u32;
        self.ccr2 = g as u32;
        self.ccr1 = b as u32;
    }
}

} // verus!

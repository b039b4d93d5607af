//! The master transfer engine: a state machine that, one register access at
//! a time, tells its caller what to do next and learns what came back.
//! Every poll is bounded, so a transfer always comes to an end.
use vstd::prelude::*;
use crate::protocol::{Step, read_script, read_steps, write_script, write_steps};
use crate::registers::{
    ControlBit,
    Register,
    StatusFlag,
    bit_set,
    control_bit_index,
    control_is_set,
    flag_is_set,
    status_bit_index,
    status_register,
};

verus! {

/// Why a transfer failed.
#[derive(Clone, Copy, Debug, PartialEq, Eq, Structural)]
pub enum BusError {
    /// A polled condition did not come true within the poll budget.
    Timeout,
    /// The slave did not acknowledge the address or a data byte.
    NackReceived,
    /// Another master took the bus: the arbitration-lost flag came up, or
    /// master mode and busy were both gone at a read of status register 2
    /// after the address was sent (when the address condition is cleared,
    /// and before each data byte).
    ArbitrationLost,
}

/// What the caller is to do with the controller before calling `advance`.
#[derive(Clone, Copy, Debug)]
pub enum Request {
    /// Set a bit of control register 1.
    SetControl(ControlBit),
    /// Clear a bit of control register 1.
    ClearControl(ControlBit),
    /// Read a register and hand its value to `advance`.
    Read(Register),
    /// Write a byte to the data register.
    WriteData(u8),
    /// Nothing more: the transfer is over with this result.
    Complete(Result<(), BusError>),
}

/// Where a transfer stands.
#[derive(Clone, Copy, Debug)]
pub enum Progress {
    /// Working through the steps.
    Running,
    /// Failed mid-transfer: a STOP is asserted before the error is reported.
    Aborting(BusError),
    /// Over.
    Finished(Result<(), BusError>),
}

/// The state of a transfer as plain values.
pub struct TransferView {
    pub steps: Seq<Step>,
    /// Index of the current step.
    pub pc: nat,
    /// Unsuccessful reads the current poll may still take.
    pub polls_left: nat,
    /// Unsuccessful reads each poll may take before it times out.
    pub poll_budget: nat,
    /// Bytes received so far, by slot.
    pub buffer: Seq<u8>,
    pub progress: Progress,
}

/// A value of status register 2 shows master mode or a busy bus; once the
/// address is sent, its absence means that the bus was lost.
pub open spec fn master_or_busy(value: u32) -> bool {
    bit_set(value, status_bit_index(StatusFlag::Master)) || bit_set(
        value,
        status_bit_index(StatusFlag::Busy),
    )
}

/// Whether a register value read for a poll step satisfies it.
pub open spec fn poll_satisfied(step: Step, value: u32) -> bool {
    match step {
        Step::AwaitFlag(f) => bit_set(value, status_bit_index(f)),
        Step::AwaitMasterOrBusy => master_or_busy(value),
        Step::AwaitStopSent => !bit_set(value, control_bit_index(ControlBit::Stop)),
        _ => true,
    }
}

/// An error that a value of status register 1, read for a poll step, reports.
pub open spec fn poll_error(step: Step, value: u32) -> Option<BusError> {
    match step {
        Step::AwaitFlag(f) => if status_register(f) == Register::Sr1 && bit_set(
            value,
            status_bit_index(StatusFlag::ArbitrationLost),
        ) {
            Some(BusError::ArbitrationLost)
        } else if status_register(f) == Register::Sr1 && bit_set(
            value,
            status_bit_index(StatusFlag::AckFailure),
        ) {
            Some(BusError::NackReceived)
        } else {
            None
        },
        _ => None,
    }
}

pub open spec fn is_poll(step: Step) -> bool {
    match step {
        Step::AwaitFlag(_) | Step::AwaitMasterOrBusy | Step::AwaitStopSent => true,
        _ => false,
    }
}

/// What the caller is asked to do for a step.
pub open spec fn step_request(step: Step) -> Request {
    match step {
        Step::SetControl(b) => Request::SetControl(b),
        Step::ClearControl(b) => Request::ClearControl(b),
        Step::AwaitFlag(f) => Request::Read(status_register(f)),
        Step::AwaitMasterOrBusy => Request::Read(Register::Sr2),
        Step::AwaitStopSent => Request::Read(Register::Cr1),
        Step::SendByte(b) => Request::WriteData(b),
        Step::ClearAddress => Request::Read(Register::Sr2),
        Step::CheckBus => Request::Read(Register::Sr2),
        Step::ReceiveByte(_) => Request::Read(Register::Dr),
    }
}

impl TransferView {
    pub open spec fn wf(self) -> bool {
        &&& self.steps.len() >= 1
        &&& self.progress == Progress::Running ==> self.pc < self.steps.len()
        &&& self.polls_left <= self.poll_budget
        &&& forall|i: int|
            0 <= i < self.steps.len() ==> (#[trigger] self.steps[i] matches Step::ReceiveByte(k) ==> k
                < self.buffer.len())
    }

    /// A fresh transfer of the given steps.
    pub open spec fn start(steps: Seq<Step>, buffer: Seq<u8>, poll_budget: nat) -> TransferView {
        TransferView { steps, pc: 0, polls_left: poll_budget, poll_budget, buffer, progress: Progress::Running }
    }

    pub open spec fn current(self) -> Step {
        self.steps[self.pc as int]
    }

    /// What the caller is to do now.
    pub open spec fn request(self) -> Request {
        match self.progress {
            Progress::Finished(r) => Request::Complete(r),
            Progress::Aborting(_) => Request::SetControl(ControlBit::Stop),
            Progress::Running => step_request(self.current()),
        }
    }

    /// The current step is done: on to the next, with a fresh poll budget,
    /// or finished after the last.
    pub open spec fn next_step(self) -> TransferView {
        if self.pc == self.steps.len() - 1 {
            TransferView { progress: Progress::Finished(Ok(())), ..self }
        } else {
            TransferView { pc: self.pc + 1, polls_left: self.poll_budget, ..self }
        }
    }

    /// The state after the current request was carried out; `value` is the
    /// register value read, where the request was a read.
    pub open spec fn after(self, value: u32) -> TransferView {
        match self.progress {
            Progress::Finished(_) => self,
            Progress::Aborting(e) => TransferView { progress: Progress::Finished(Err(e)), ..self },
            Progress::Running => {
                let step = self.current();
                if is_poll(step) {
                    if poll_error(step, value) is Some {
                        TransferView {
                            progress: Progress::Aborting(poll_error(step, value)->Some_0),
                            ..self
                        }
                    } else if poll_satisfied(step, value) {
                        self.next_step()
                    } else if self.polls_left == 0 {
                        TransferView { progress: Progress::Aborting(BusError::Timeout), ..self }
                    } else {
                        TransferView { polls_left: (self.polls_left - 1) as nat, ..self }
                    }
                } else {
                    match step {
                        Step::ReceiveByte(k) => TransferView {
                            buffer: self.buffer.update(k as int, value as u8),
                            ..self
                        }.next_step(),
                        Step::ClearAddress | Step::CheckBus => if master_or_busy(value) {
                            self.next_step()
                        } else {
                            TransferView {
                                progress: Progress::Aborting(BusError::ArbitrationLost),
                                ..self
                            }
                        },
                        _ => self.next_step(),
                    }
                }
            },
        }
    }

    /// Requests still to come at most: falls with every `advance` until the
    /// transfer is over.
    pub open spec fn measure(self) -> nat {
        match self.progress {
            Progress::Finished(_) => 0,
            Progress::Aborting(_) => 1,
            Progress::Running => (2 + (self.steps.len() - self.pc) * (self.poll_budget + 1)
                + self.polls_left) as nat,
        }
    }

    pub open spec fn is_over(self) -> bool {
        self.progress is Finished
    }
}

/// A write or a read in flight.
pub struct Transfer {
    steps: Vec<Step>,
    pc: usize,
    polls_left: u32,
    poll_budget: u32,
    buffer: Vec<u8>,
    progress: Progress,
}

impl View for Transfer {
    type V = TransferView;

    closed spec fn view(&self) -> TransferView {
        TransferView {
            steps: self.steps@,
            pc: self.pc as nat,
            polls_left: self.polls_left as nat,
            poll_budget: self.poll_budget as nat,
            buffer: self.buffer@,
            progress: self.progress,
        }
    }
}

/// A transfer never hangs: whatever value comes back, each `advance` of a
/// transfer that is not over brings it strictly nearer to its end, as
/// counted by `measure`, and keeps it well formed.
pub proof fn lemma_advance_makes_progress(v: TransferView, value: u32)
    requires
        v.wf(),
        !v.is_over(),
    ensures
        v.after(value).measure() < v.measure(),
        v.after(value).wf(),
{
    if v.progress == Progress::Running {
        let len = v.steps.len() as int;
        let pc = v.pc as int;
        let b = v.poll_budget as int;
        assert((len - pc) * (b + 1) == (len - pc - 1) * (b + 1) + b + 1) by (nonlinear_arith);
        assert((len - pc) * (b + 1) >= b + 1) by (nonlinear_arith)
            requires
                len - pc >= 1,
                b >= 0,
        ;
        let w = v.after(value);
        match v.current() {
            Step::ReceiveByte(k) => {
                assert(w.buffer.len() == v.buffer.len());
                assert forall|i: int| 0 <= i < w.steps.len() implies (#[trigger] w.steps[i] matches Step::ReceiveByte(j) ==> j < w.buffer.len()) by {
                    assert(v.steps[i] == w.steps[i]);
                }
            },
            _ => {},
        }
    }
}

/// The state after `k` advances, each handed the same register value.
pub open spec fn after_repeated(v: TransferView, value: u32, k: nat) -> TransferView
    decreases k,
{
    if k == 0 {
        v
    } else {
        after_repeated(v.after(value), value, (k - 1) as nat)
    }
}

/// A poll whose condition never comes true ends in `Timeout`: when every
/// read taken for it neither satisfies it nor reports an error, the
/// transfer is aborting with `Timeout` after `polls_left + 1` reads, asks
/// for a STOP, and is then finished with `Err(Timeout)`.
pub proof fn lemma_unmet_poll_times_out(v: TransferView, value: u32)
    requires
        v.wf(),
        v.progress == Progress::Running,
        is_poll(v.current()),
        !poll_satisfied(v.current(), value),
        poll_error(v.current(), value) is None,
    ensures
        after_repeated(v, value, v.polls_left + 1).progress == Progress::Aborting(BusError::Timeout),
        after_repeated(v, value, v.polls_left + 1).request() == Request::SetControl(ControlBit::Stop),
        after_repeated(v, value, v.polls_left + 1).after(value).progress == Progress::Finished(
            Err(BusError::Timeout),
        ),
    decreases v.polls_left,
{
    let w = v.after(value);
    if v.polls_left == 0 {
        assert(after_repeated(w, value, 0) == w);
    } else {
        assert(w.pc == v.pc && w.steps == v.steps && w.polls_left == v.polls_left - 1);
        lemma_unmet_poll_times_out(w, value);
    }
}

/// The state after the requests were answered with `values`, in order.
pub open spec fn after_all(v: TransferView, values: Seq<u32>) -> TransferView
    decreases values.len(),
{
    if values.len() == 0 {
        v
    } else {
        after_all(v.after(values[0]), values.skip(1))
    }
}

/// Whatever the bus answers, a transfer is over after `measure` requests.
pub proof fn lemma_over_within_measure(v: TransferView, values: Seq<u32>)
    requires
        v.wf(),
        values.len() >= v.measure(),
    ensures
        after_all(v, values).is_over(),
    decreases values.len(),
{
    if values.len() > 0 {
        if !v.is_over() {
            lemma_advance_makes_progress(v, values[0]);
        }
        lemma_over_within_measure(v.after(values[0]), values.skip(1));
    }
}

/// A write of `n` bytes with poll budget `b` is over, whatever the bus
/// answers, after `2 + (8 + 4n)(b + 1) + b` requests: every poll takes at
/// most `b + 1` reads, and there are `8 + 4n` steps.
pub proof fn lemma_write_over_within(address: u8, payload: Seq<u8>, b: nat, values: Seq<u32>)
    requires
        payload.len() >= 1,
        values.len() >= 2 + (8 + 4 * payload.len()) * (b + 1) + b,
    ensures
        after_all(TransferView::start(write_script(address, payload), seq![], b), values).is_over(),
{
    let v = TransferView::start(write_script(address, payload), seq![], b);
    let p = payload;
    assert forall|i: int| 0 <= i < v.steps.len() implies (#[trigger] v.steps[i] matches Step::ReceiveByte(k) ==> k < v.buffer.len()) by {
        if 6 <= i < 6 + 4 * p.len() {
            assert(v.steps[i] == crate::protocol::send_phase(p, p.len())[i - 6]);
        }
    }
    assert(v.steps.len() == 8 + 4 * p.len());
    lemma_over_within_measure(v, values);
}

/// A read of `n` bytes with poll budget `b` is over, whatever the bus
/// answers, after `2 + (10 + 3n)(b + 1) + b` requests.
pub proof fn lemma_read_over_within(address: u8, n: nat, b: nat, values: Seq<u32>)
    requires
        n >= 1,
        values.len() >= 2 + (10 + 3 * n) * (b + 1) + b,
    ensures
        after_all(
            TransferView::start(read_script(address, n), Seq::new(n, |i: int| 0u8), b),
            values,
        ).is_over(),
{
    let v = TransferView::start(read_script(address, n), Seq::new(n, |i: int| 0u8), b);
    assert forall|i: int| 0 <= i < v.steps.len() implies (#[trigger] v.steps[i] matches Step::ReceiveByte(k) ==> k < v.buffer.len()) by {
        if 7 <= i < 7 + 3 * (n - 1) {
            assert(v.steps[i] == crate::protocol::receive_phase((n - 1) as nat)[i - 7]);
        }
    }
    assert(v.steps.len() == 10 + 3 * n);
    lemma_over_within_measure(v, values);
}

impl Transfer {
    /// A write of `payload` to the slave at `address`; each poll may take
    /// `poll_budget` unsuccessful reads before the transfer times out.
    pub fn write(address: u8, payload: &Vec<u8>, poll_budget: u32) -> (r: Transfer)
        requires
            address < 128,
            payload.len() >= 1,
        ensures
            r@ == TransferView::start(write_script(address, payload@), seq![], poll_budget as nat),
            r@.wf(),
    {
        let steps = write_steps(address, payload);
        let r = Transfer {
            steps,
            pc: 0,
            polls_left: poll_budget,
            poll_budget,
            buffer: Vec::new(),
            progress: Progress::Running,
        };
        assert(r@.buffer =~= seq![]);
        assert forall|i: int| 0 <= i < r@.steps.len() implies !(#[trigger] r@.steps[i] is ReceiveByte) by {
            let p = payload@;
            if 6 <= i < 6 + 4 * p.len() {
                let j = i - 6;
                assert(r@.steps[i] == crate::protocol::send_phase(p, p.len())[j]);
            }
        }
        r
    }

    /// A read of `len` bytes from the slave at `address` into a zeroed buffer.
    pub fn read(address: u8, len: usize, poll_budget: u32) -> (r: Transfer)
        requires
            address < 128,
            len >= 1,
        ensures
            r@ == TransferView::start(
                read_script(address, len as nat),
                Seq::new(len as nat, |i: int| 0u8),
                poll_budget as nat,
            ),
            r@.wf(),
    {
        let steps = read_steps(address, len);
        let buffer = vec![0u8; len];
        let r = Transfer { steps, pc: 0, polls_left: poll_budget, poll_budget, buffer, progress: Progress::Running };
        assert(r@.buffer =~= Seq::new(len as nat, |i: int| 0u8));
        assert forall|i: int| 0 <= i < r@.steps.len() implies (#[trigger] r@.steps[i] matches Step::ReceiveByte(k) ==> k < len) by {
            if 7 <= i < 7 + 3 * (len - 1) {
                let j = i - 7;
                assert(r@.steps[i] == crate::protocol::receive_phase((len - 1) as nat)[j]);
            }
        }
        r
    }

    /// What the caller is to do now.
    pub fn request(&self) -> (r: Request)
        requires
            self@.wf(),
        ensures
            r == self@.request(),
    {
        match self.progress {
            Progress::Finished(r) => Request::Complete(r),
            Progress::Aborting(_) => Request::SetControl(ControlBit::Stop),
            Progress::Running => match self.steps[self.pc] {
                Step::SetControl(b) => Request::SetControl(b),
                Step::ClearControl(b) => Request::ClearControl(b),
                Step::AwaitFlag(f) => Request::Read(status_register_of(f)),
                Step::AwaitMasterOrBusy => Request::Read(Register::Sr2),
                Step::AwaitStopSent => Request::Read(Register::Cr1),
                Step::SendByte(b) => Request::WriteData(b),
                Step::ClearAddress => Request::Read(Register::Sr2),
                Step::CheckBus => Request::Read(Register::Sr2),
                Step::ReceiveByte(_) => Request::Read(Register::Dr),
            },
        }
    }

    fn next_step(&mut self)
        requires
            old(self)@.wf(),
            old(self)@.progress == Progress::Running,
        ensures
            final(self)@ == old(self)@.next_step(),
    {
        if self.pc == self.steps.len() - 1 {
            self.progress = Progress::Finished(Ok(()));
        } else {
            self.pc = self.pc + 1;
            self.polls_left = self.poll_budget;
        }
    }

    /// Takes in the outcome of the current request: `value` is the register
    /// value read where the request was a read, and is ignored otherwise.
    pub fn advance(&mut self, value: u32)
        requires
            old(self)@.wf(),
        ensures
            final(self)@ == old(self)@.after(value),
            final(self)@.wf(),
            !old(self)@.is_over() ==> final(self)@.measure() < old(self)@.measure(),
    {
        proof {
            if !self@.is_over() {
                lemma_advance_makes_progress(self@, value);
            }
        }
        match self.progress {
            Progress::Finished(_) => {},
            Progress::Aborting(e) => {
                self.progress = Progress::Finished(Err(e));
            },
            Progress::Running => {
                let step = self.steps[self.pc];
                match step {
                    Step::AwaitFlag(f) => {
                        let in_sr1 = match f {
                            StatusFlag::Master | StatusFlag::Busy => false,
                            _ => true,
                        };
                        if in_sr1 && flag_is_set(value, StatusFlag::ArbitrationLost) {
                            self.progress = Progress::Aborting(BusError::ArbitrationLost);
                        } else if in_sr1 && flag_is_set(value, StatusFlag::AckFailure) {
                            self.progress = Progress::Aborting(BusError::NackReceived);
                        } else if flag_is_set(value, f) {
                            self.next_step();
                        } else {
                            self.count_failed_poll();
                        }
                    },
                    Step::AwaitMasterOrBusy => {
                        if flag_is_set(value, StatusFlag::Master) || flag_is_set(
                            value,
                            StatusFlag::Busy,
                        ) {
                            self.next_step();
                        } else {
                            self.count_failed_poll();
                        }
                    },
                    Step::AwaitStopSent => {
                        if !control_is_set(value, ControlBit::Stop) {
                            self.next_step();
                        } else {
                            self.count_failed_poll();
                        }
                    },
                    Step::ReceiveByte(k) => {
                        self.buffer.set(k, value as u8);
                        self.next_step();
                    },
                    Step::ClearAddress | Step::CheckBus => {
                        if flag_is_set(value, StatusFlag::Master) || flag_is_set(
                            value,
                            StatusFlag::Busy,
                        ) {
                            self.next_step();
                        } else {
                            self.progress = Progress::Aborting(BusError::ArbitrationLost);
                        }
                    },
                    _ => {
                        self.next_step();
                    },
                }
            },
        }
    }

    fn count_failed_poll(&mut self)
        requires
            old(self)@.wf(),
            old(self)@.progress == Progress::Running,
        ensures
            final(self)@ == (if old(self)@.polls_left == 0 {
                TransferView { progress: Progress::Aborting(BusError::Timeout), ..old(self)@ }
            } else {
                TransferView { polls_left: (old(self)@.polls_left - 1) as nat, ..old(self)@ }
            }),
    {
        if self.polls_left == 0 {
            self.progress = Progress::Aborting(BusError::Timeout);
        } else {
            self.polls_left = self.polls_left - 1;
        }
    }

    /// The result, once the transfer is over.
    pub fn outcome(&self) -> (r: Option<Result<(), BusError>>)
        ensures
            r == (match self@.progress {
                Progress::Finished(res) => Some(res),
                _ => None,
            }),
    {
        match self.progress {
            Progress::Finished(res) => Some(res),
            _ => None,
        }
    }

    /// The bytes received so far, by slot.
    pub fn buffer(&self) -> (r: &Vec<u8>)
        ensures
            r@ == self@.buffer,
    {
        &self.buffer
    }
}

fn status_register_of(f: StatusFlag) -> (r: Register)
    ensures
        r == status_register(f),
{
    match f {
        StatusFlag::Master | StatusFlag::Busy => Register::Sr2,
        _ => Register::Sr1,
    }
}

} // verus!

//! Runs of a transfer against a bus that answers every request at once:
//! each awaited flag is already set, master mode and busy show, a STOP has
//! gone out by the time it is checked, and received bytes come from a given
//! sequence.
use vstd::prelude::*;
use crate::protocol::{
    Step,
    address_byte,
    lemma_write_transmits_payload,
    read_script,
    receive_phase,
    send_phase,
    transmitted,
    write_script,
};
use crate::registers::{StatusFlag, bit_set, status_bit_index};
use crate::transfer::{Progress, TransferView, master_or_busy, poll_error, poll_satisfied};

verus! {

/// The register value such a bus returns for a step; a received byte is
/// `data[k]` for slot `k`.
pub open spec fn prompt_value(step: Step, data: Seq<u8>) -> u32 {
    match step {
        Step::AwaitFlag(f) => 1u32 << status_bit_index(f),
        Step::AwaitMasterOrBusy => 3,
        Step::ClearAddress => 3,
        Step::CheckBus => 3,
        Step::ReceiveByte(k) => data[k as int] as u32,
        _ => 0,
    }
}

/// The state after `k` requests were answered by such a bus.
pub open spec fn run_prompt(v: TransferView, data: Seq<u8>, k: nat) -> TransferView
    decreases k,
{
    if k == 0 {
        v
    } else {
        let w = run_prompt(v, data, (k - 1) as nat);
        w.after(prompt_value(w.current(), data))
    }
}

/// The buffer after the first `j` steps stored their bytes from `data`.
pub open spec fn fill(buf: Seq<u8>, steps: Seq<Step>, j: int, data: Seq<u8>) -> Seq<u8>
    decreases j,
{
    if j <= 0 {
        buf
    } else {
        match steps[j - 1] {
            Step::ReceiveByte(k) => fill(buf, steps, j - 1, data).update(k as int, data[k as int]),
            _ => fill(buf, steps, j - 1, data),
        }
    }
}

/// Every awaited flag of status register 1 is a transfer flag, never an
/// error flag.
pub open spec fn awaits_transfer_flags(steps: Seq<Step>) -> bool {
    forall|i: int|
        0 <= i < steps.len() ==> (#[trigger] steps[i] matches Step::AwaitFlag(f) ==> status_bit_index(f)
            < 9)
}

/// Every slot a step stores into has a byte in `data`.
pub open spec fn slots_within(steps: Seq<Step>, len: nat) -> bool {
    forall|i: int|
        0 <= i < steps.len() ==> (#[trigger] steps[i] matches Step::ReceiveByte(k) ==> k < len)
}

proof fn lemma_prompt_step(v: TransferView, data: Seq<u8>)
    requires
        v.wf(),
        v.progress == Progress::Running,
        awaits_transfer_flags(v.steps),
        slots_within(v.steps, data.len()),
    ensures
        v.after(prompt_value(v.current(), data)) == (match v.current() {
            Step::ReceiveByte(k) => TransferView {
                buffer: v.buffer.update(k as int, data[k as int]),
                ..v
            },
            _ => v,
        }).next_step(),
{
    let step = v.current();
    let value = prompt_value(step, data);
    assert(forall|i: u32|
        i < 9 ==> ((1u32 << i) >> i) & 1 == 1 && ((1u32 << i) >> 9u32) & 1 == 0 && ((1u32
            << i) >> 10u32) & 1 == 0) by (bit_vector);
    assert(((3u32 >> 0u32) & 1u32) == 1u32) by (bit_vector);
    assert(((0u32 >> 9u32) & 1u32) == 0u32) by (bit_vector);
    assert(v.steps[v.pc as int] == step);
    match step {
        Step::AwaitFlag(f) => {
            let n = status_bit_index(f);
            assert(n < 9);
            assert(bit_set(value, n));
            assert(!bit_set(value, 9));
            assert(!bit_set(value, 10));
            assert(poll_error(step, value) is None);
            assert(poll_satisfied(step, value));
        },
        Step::AwaitMasterOrBusy => {
            assert(master_or_busy(value));
        },
        Step::ClearAddress => {
            assert(master_or_busy(value));
        },
        Step::CheckBus => {
            assert(master_or_busy(value));
        },
        Step::AwaitStopSent => {
            assert(!bit_set(value, 9));
        },
        Step::ReceiveByte(k) => {
            assert((data[k as int] as u32) as u8 == data[k as int]);
        },
        _ => {},
    }
}

proof fn lemma_fill_len(buf: Seq<u8>, steps: Seq<Step>, j: int, data: Seq<u8>)
    requires
        0 <= j <= steps.len(),
        slots_within(steps, buf.len()),
    ensures
        fill(buf, steps, j, data).len() == buf.len(),
    decreases j,
{
    if j > 0 {
        lemma_fill_len(buf, steps, j - 1, data);
        let s = steps[j - 1];
        assert(s matches Step::ReceiveByte(k) ==> k < buf.len());
    }
}

/// Before the last step, a prompt run is at step `j` with the bytes of the
/// first `j` steps stored; after it, the run is finished without error.
proof fn lemma_prompt_run(v0: TransferView, data: Seq<u8>, j: nat)
    requires
        v0.wf(),
        v0.pc == 0,
        v0.polls_left == v0.poll_budget,
        v0.progress == Progress::Running,
        awaits_transfer_flags(v0.steps),
        slots_within(v0.steps, data.len()),
        slots_within(v0.steps, v0.buffer.len()),
        1 <= j <= v0.steps.len(),
    ensures
        j < v0.steps.len() ==> run_prompt(v0, data, j) == (TransferView {
            pc: j,
            buffer: fill(v0.buffer, v0.steps, j as int, data),
            ..v0
        }),
        j == v0.steps.len() ==> run_prompt(v0, data, j) == (TransferView {
            pc: (j - 1) as nat,
            buffer: fill(v0.buffer, v0.steps, j as int, data),
            progress: Progress::Finished(Ok(())),
            ..v0
        }),
    decreases j,
{
    let w = if j == 1 {
        v0
    } else {
        lemma_prompt_run(v0, data, (j - 1) as nat);
        run_prompt(v0, data, (j - 1) as nat)
    };
    assert(w == run_prompt(v0, data, (j - 1) as nat));
    assert(w == TransferView { pc: (j - 1) as nat, buffer: fill(v0.buffer, v0.steps, j - 1, data), ..v0 });
    lemma_fill_len(v0.buffer, v0.steps, j - 1, data);
    assert(w.wf()) by {
        assert forall|i: int| 0 <= i < w.steps.len() implies (#[trigger] w.steps[i] matches Step::ReceiveByte(k) ==> k < w.buffer.len()) by {
            assert(v0.steps[i] == w.steps[i]);
        }
    }
    lemma_prompt_step(w, data);
    assert(w.current() == v0.steps[j - 1]);
}

/// A read of `n` bytes stores `data[k]` in slot `k`, for every `k < n`.
proof fn lemma_read_fill(address: u8, n: nat, data: Seq<u8>)
    requires
        1 <= n <= usize::MAX,
        data.len() >= n,
    ensures
        fill(
            Seq::new(n, |i: int| 0u8),
            read_script(address, n),
            read_script(address, n).len() as int,
            data,
        ) == data.take(n as int),
{
    let s = read_script(address, n);
    let buf = Seq::new(n, |i: int| 0u8);
    let m = (n - 1) as int;
    assert(s.len() == 13 + 3 * m);
    assert(slots_within(s, buf.len())) by {
        lemma_read_slots(address, n);
    }
    lemma_fill_prefix(s, buf, data, 7);
    lemma_fill_receive(s, buf, data, m, m);
    let e = 7 + 3 * m;
    assert(s[e] is CheckBus && s[e + 1] is ClearControl && s[e + 2] is SetControl);
    assert(s[e + 3] is AwaitFlag);
    assert(s[e + 4] == Step::ReceiveByte(m as usize));
    assert(s[e + 5] is AwaitStopSent);
    assert(fill(buf, s, e + 1, data) == fill(buf, s, e, data));
    assert(fill(buf, s, e + 2, data) == fill(buf, s, e, data));
    assert(fill(buf, s, e + 3, data) == fill(buf, s, e, data));
    assert(fill(buf, s, e + 4, data) == fill(buf, s, e, data));
    assert(fill(buf, s, e + 5, data) == fill(buf, s, e, data).update(m, data[m]));
    assert(fill(buf, s, e + 6, data) == fill(buf, s, e + 5, data));
    assert(fill(buf, s, e + 6, data) =~= data.take(n as int));
}

proof fn lemma_read_slots(address: u8, n: nat)
    requires
        n >= 1,
    ensures
        slots_within(read_script(address, n), n),
{
    let s = read_script(address, n);
    assert forall|i: int| 0 <= i < s.len() implies (#[trigger] s[i] matches Step::ReceiveByte(k) ==> k < n) by {
        if 7 <= i < 7 + 3 * (n - 1) {
            assert(s[i] == receive_phase((n - 1) as nat)[i - 7]);
        }
    }
}

proof fn lemma_fill_prefix(s: Seq<Step>, buf: Seq<u8>, data: Seq<u8>, j: int)
    requires
        0 <= j <= 7,
        s.len() >= 7,
        forall|i: int| 0 <= i < 7 ==> !(#[trigger] s[i] is ReceiveByte),
    ensures
        fill(buf, s, j, data) == buf,
    decreases j,
{
    if j > 0 {
        lemma_fill_prefix(s, buf, data, j - 1);
        assert(!(s[j - 1] is ReceiveByte));
    }
}

/// After the first `k` received bytes of the loop, slots below `k` hold
/// their data and the others are still zero.
proof fn lemma_fill_receive(s: Seq<Step>, buf: Seq<u8>, data: Seq<u8>, k: int, m: int)
    requires
        0 <= k <= m,
        m < usize::MAX,
        buf.len() == m + 1,
        data.len() >= m + 1,
        buf == Seq::new((m + 1) as nat, |i: int| 0u8),
        s.len() >= 7 + 3 * m,
        fill(buf, s, 7, data) == buf,
        forall|j: int| 0 <= j < m ==> #[trigger] s[7 + 3 * j] == Step::CheckBus,
        forall|j: int| 0 <= j < m ==> #[trigger] s[7 + 3 * j + 1] == Step::AwaitFlag(StatusFlag::RxNotEmpty),
        forall|j: int| 0 <= j < m ==> #[trigger] s[7 + 3 * j + 2] == Step::ReceiveByte(j as usize),
    ensures
        fill(buf, s, 7 + 3 * k, data) == data.take(k) + Seq::new((m + 1 - k) as nat, |i: int| 0u8),
    decreases k,
{
    if k == 0 {
        assert(data.take(0) + Seq::new((m + 1) as nat, |i: int| 0u8) =~= buf);
    } else {
        lemma_fill_receive(s, buf, data, k - 1, m);
        let j = k - 1;
        assert(s[7 + 3 * j] == Step::CheckBus);
        assert(s[7 + 3 * j + 1] == Step::AwaitFlag(StatusFlag::RxNotEmpty));
        assert(s[7 + 3 * j + 2] == Step::ReceiveByte(j as usize));
        let before = data.take(j) + Seq::new((m + 1 - j) as nat, |i: int| 0u8);
        assert(fill(buf, s, 7 + 3 * j + 1, data) == before);
        assert(fill(buf, s, 7 + 3 * j + 2, data) == before);
        assert(fill(buf, s, 7 + 3 * j + 3, data) == before.update(j, data[j]));
        assert(before.update(j, data[j]) =~= data.take(k) + Seq::new((m + 1 - k) as nat, |i: int| 0u8));
    }
}

/// Writing `payload` and then reading as many bytes back from a slave that
/// returns what it was sent: against a bus that answers every request at
/// once, the write finishes without error having sent the address and then
/// exactly `payload`, and the read finishes without error with `payload`
/// in its buffer.
pub proof fn lemma_write_then_read_round_trips(address: u8, payload: Seq<u8>, poll_budget: nat)
    requires
        1 <= payload.len() <= usize::MAX,
    ensures
        ({
            let w = TransferView::start(write_script(address, payload), seq![], poll_budget);
            let r = TransferView::start(
                read_script(address, payload.len()),
                Seq::new(payload.len(), |i: int| 0u8),
                poll_budget,
            );
            let w_end = run_prompt(w, seq![], w.steps.len());
            let r_end = run_prompt(r, payload, r.steps.len());
            &&& w_end.progress == Progress::Finished(Ok(()))
            &&& transmitted(w.steps) == seq![address_byte(address, false)] + payload
            &&& r_end.progress == Progress::Finished(Ok(()))
            &&& r_end.buffer == payload
        }),
{
    let n = payload.len();
    let ws = write_script(address, payload);
    let w = TransferView::start(ws, seq![], poll_budget);
    assert forall|i: int| 0 <= i < ws.len() implies !(#[trigger] ws[i] is ReceiveByte) && (ws[i] matches Step::AwaitFlag(f) ==> status_bit_index(f) < 9) by {
        if 6 <= i < 6 + 4 * n {
            assert(ws[i] == send_phase(payload, n)[i - 6]);
        }
    }
    assert(w.wf());
    lemma_prompt_run(w, seq![], ws.len());
    lemma_write_transmits_payload(address, payload);

    let rs = read_script(address, n);
    let zeros = Seq::new(n, |i: int| 0u8);
    let r = TransferView::start(rs, zeros, poll_budget);
    lemma_read_slots(address, n);
    assert forall|i: int| 0 <= i < rs.len() implies (#[trigger] rs[i] matches Step::AwaitFlag(f) ==> status_bit_index(f) < 9) by {
        if 7 <= i < 7 + 3 * (n - 1) {
            assert(rs[i] == receive_phase((n - 1) as nat)[i - 7]);
        }
    }
    assert(r.wf());
    lemma_prompt_run(r, payload, rs.len());
    lemma_read_fill(address, n, payload);
    assert(payload.take(n as int) =~= payload);
}

} // verus!

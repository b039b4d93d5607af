//! The wire protocol of a master transfer, as the ordered list of register
//! steps a write or a read is made of.
use vstd::prelude::*;
use crate::registers::{ControlBit, StatusFlag};

verus! {

/// One step of a transfer, as seen by the controller's registers.
#[derive(Clone, Copy, Debug, PartialEq, Eq, Structural)]
pub enum Step {
    /// Set a bit of control register 1.
    SetControl(ControlBit),
    /// Clear a bit of control register 1.
    ClearControl(ControlBit),
    /// Poll a status register until the flag is set.
    AwaitFlag(StatusFlag),
    /// Poll status register 2 until the controller is master or the bus is busy.
    AwaitMasterOrBusy,
    /// Poll control register 1 until the hardware has cleared STOP.
    AwaitStopSent,
    /// Write a byte to the data register.
    SendByte(u8),
    /// Read status register 2, which clears the address-sent condition; it
    /// must still show master mode or a busy bus.
    ClearAddress,
    /// Read status register 2 once before a data byte: master mode or a busy
    /// bus must still show, else the bus was lost.
    CheckBus,
    /// Read the data register into the given slot of the receive buffer.
    ReceiveByte(usize),
}

/// The byte that carries a 7-bit address and the direction bit (1 = read).
pub open spec fn address_byte(address: u8, read: bool) -> u8 {
    (address * 2 + if read { 1int } else { 0int }) as u8
}

pub fn make_address_byte(address: u8, read: bool) -> (r: u8)
    requires
        address < 128,
    ensures
        r == address_byte(address, read),
{
    if read {
        address * 2 + 1
    } else {
        address * 2
    }
}

/// START, wait for it, wait for master mode, send the address, wait for it
/// to be acknowledged, clear that condition.
pub open spec fn address_phase(address: u8, read: bool) -> Seq<Step> {
    seq![
        Step::SetControl(ControlBit::Start),
        Step::AwaitFlag(StatusFlag::StartBit),
        Step::AwaitMasterOrBusy,
        Step::SendByte(address_byte(address, read)),
        Step::AwaitFlag(StatusFlag::AddressSent),
        Step::ClearAddress,
    ]
}

/// For each of the first `m` payload bytes: check that the bus is still
/// held, wait for an empty data register, write the byte, wait for the
/// transfer to finish.
pub open spec fn send_phase(payload: Seq<u8>, m: nat) -> Seq<Step> {
    Seq::new(
        4 * m,
        |i: int|
            if i % 4 == 0 {
                Step::CheckBus
            } else if i % 4 == 1 {
                Step::AwaitFlag(StatusFlag::TxEmpty)
            } else if i % 4 == 2 {
                Step::SendByte(payload[i / 4])
            } else {
                Step::AwaitFlag(StatusFlag::ByteFinished)
            },
    )
}

/// For each of the first `m` bytes read: check that the bus is still held,
/// wait for the byte, store it in its slot.
pub open spec fn receive_phase(m: nat) -> Seq<Step> {
    Seq::new(
        3 * m,
        |i: int|
            if i % 3 == 0 {
                Step::CheckBus
            } else if i % 3 == 1 {
                Step::AwaitFlag(StatusFlag::RxNotEmpty)
            } else {
                Step::ReceiveByte((i / 3) as usize)
            },
    )
}

/// The last byte of a read: check that the bus is still held; NACK and
/// STOP before the byte is clocked in; then the byte and the stop.
pub open spec fn last_byte_phase(slot: usize) -> Seq<Step> {
    seq![
        Step::CheckBus,
        Step::ClearControl(ControlBit::Ack),
        Step::SetControl(ControlBit::Stop),
        Step::AwaitFlag(StatusFlag::RxNotEmpty),
        Step::ReceiveByte(slot),
        Step::AwaitStopSent,
    ]
}

pub open spec fn stop_phase() -> Seq<Step> {
    seq![Step::SetControl(ControlBit::Stop), Step::AwaitStopSent]
}

/// All steps of writing `payload` to the slave at `address`.
pub open spec fn write_script(address: u8, payload: Seq<u8>) -> Seq<Step> {
    address_phase(address, false) + send_phase(payload, payload.len()) + stop_phase()
}

/// All steps of reading `n` bytes from the slave at `address`: ACK on
/// before START; the first `n - 1` bytes acknowledged; then NACK and STOP
/// before the last byte is clocked in; then the last byte and the stop.
pub open spec fn read_script(address: u8, n: nat) -> Seq<Step> {
    seq![Step::SetControl(ControlBit::Ack)] + address_phase(address, true) + receive_phase(
        (n - 1) as nat,
    ) + last_byte_phase((n - 1) as usize)
}

fn push_address_phase(v: &mut Vec<Step>, address: u8, read: bool)
    requires
        address < 128,
    ensures
        final(v)@ == old(v)@ + address_phase(address, read),
{
    v.push(Step::SetControl(ControlBit::Start));
    v.push(Step::AwaitFlag(StatusFlag::StartBit));
    v.push(Step::AwaitMasterOrBusy);
    v.push(Step::SendByte(make_address_byte(address, read)));
    v.push(Step::AwaitFlag(StatusFlag::AddressSent));
    v.push(Step::ClearAddress);
    assert(final(v)@ =~= old(v)@ + address_phase(address, read));
}

/// The steps of a write of `payload` to `address`.
pub fn write_steps(address: u8, payload: &Vec<u8>) -> (r: Vec<Step>)
    requires
        address < 128,
    ensures
        r@ == write_script(address, payload@),
{
    let mut v: Vec<Step> = Vec::new();
    push_address_phase(&mut v, address, false);
    let mut k: usize = 0;
    while k < payload.len()
        invariant
            k <= payload.len(),
            v@ == address_phase(address, false) + send_phase(payload@, k as nat),
        decreases payload.len() - k,
    {
        v.push(Step::CheckBus);
        v.push(Step::AwaitFlag(StatusFlag::TxEmpty));
        v.push(Step::SendByte(payload[k]));
        v.push(Step::AwaitFlag(StatusFlag::ByteFinished));
        assert(send_phase(payload@, (k + 1) as nat) =~= send_phase(payload@, k as nat) + seq![
            Step::CheckBus,
            Step::AwaitFlag(StatusFlag::TxEmpty),
            Step::SendByte(payload@[k as int]),
            Step::AwaitFlag(StatusFlag::ByteFinished),
        ]);
        assert(v@ =~= address_phase(address, false) + send_phase(payload@, (k + 1) as nat));
        k = k + 1;
    }
    v.push(Step::SetControl(ControlBit::Stop));
    v.push(Step::AwaitStopSent);
    assert(v@ =~= write_script(address, payload@));
    v
}

/// The steps of a read of `n` bytes from `address`.
pub fn read_steps(address: u8, n: usize) -> (r: Vec<Step>)
    requires
        address < 128,
        n >= 1,
    ensures
        r@ == read_script(address, n as nat),
{
    let mut v: Vec<Step> = Vec::new();
    v.push(Step::SetControl(ControlBit::Ack));
    push_address_phase(&mut v, address, true);
    let mut k: usize = 0;
    while k < n - 1
        invariant
            1 <= n,
            k <= n - 1,
            v@ == seq![Step::SetControl(ControlBit::Ack)] + address_phase(address, true)
                + receive_phase(k as nat),
        decreases n - 1 - k,
    {
        v.push(Step::CheckBus);
        v.push(Step::AwaitFlag(StatusFlag::RxNotEmpty));
        v.push(Step::ReceiveByte(k));
        assert(receive_phase((k + 1) as nat) =~= receive_phase(k as nat) + seq![
            Step::CheckBus,
            Step::AwaitFlag(StatusFlag::RxNotEmpty),
            Step::ReceiveByte(k),
        ]);
        assert(v@ =~= seq![Step::SetControl(ControlBit::Ack)] + address_phase(address, true)
            + receive_phase((k + 1) as nat));
        k = k + 1;
    }
    v.push(Step::CheckBus);
    v.push(Step::ClearControl(ControlBit::Ack));
    v.push(Step::SetControl(ControlBit::Stop));
    v.push(Step::AwaitFlag(StatusFlag::RxNotEmpty));
    v.push(Step::ReceiveByte(n - 1));
    v.push(Step::AwaitStopSent);
    assert(v@ =~= read_script(address, n as nat));
    v
}

/// Whether ACK generation is on just before step `i` (it is off at first).
pub open spec fn ack_on_before(s: Seq<Step>, i: int) -> bool
    decreases i,
{
    if i <= 0 {
        false
    } else {
        match s[i - 1] {
            Step::SetControl(ControlBit::Ack) => true,
            Step::ClearControl(ControlBit::Ack) => false,
            _ => ack_on_before(s, i - 1),
        }
    }
}

/// Whether a STOP has been requested before step `i`.
pub open spec fn stop_requested_before(s: Seq<Step>, i: int) -> bool
    decreases i,
{
    if i <= 0 {
        false
    } else if s[i - 1] == Step::SetControl(ControlBit::Stop) {
        true
    } else {
        stop_requested_before(s, i - 1)
    }
}

/// Number of bytes among the first `i` steps that are received with ACK on
/// (`acked == true`) or with ACK off.
pub open spec fn received_count(s: Seq<Step>, i: int, acked: bool) -> nat
    decreases i,
{
    if i <= 0 {
        0
    } else {
        received_count(s, i - 1, acked) + if s[i - 1] is ReceiveByte && ack_on_before(s, i - 1)
            == acked {
            1nat
        } else {
            0nat
        }
    }
}

/// The bytes written to the data register, in order.
pub open spec fn transmitted(s: Seq<Step>) -> Seq<u8>
    decreases s.len(),
{
    if s.len() == 0 {
        seq![]
    } else {
        transmitted(s.drop_last()) + match s.last() {
            Step::SendByte(b) => seq![b],
            _ => seq![],
        }
    }
}

/// The buffer slots that received bytes are stored in, in order.
pub open spec fn receive_slots(s: Seq<Step>) -> Seq<usize>
    decreases s.len(),
{
    if s.len() == 0 {
        seq![]
    } else {
        receive_slots(s.drop_last()) + match s.last() {
            Step::ReceiveByte(k) => seq![k],
            _ => seq![],
        }
    }
}

proof fn lemma_transmitted_concat(a: Seq<Step>, b: Seq<Step>)
    ensures
        transmitted(a + b) == transmitted(a) + transmitted(b),
        receive_slots(a + b) == receive_slots(a) + receive_slots(b),
    decreases b.len(),
{
    if b.len() == 0 {
        assert(a + b =~= a);
        assert(transmitted(a) + transmitted(b) =~= transmitted(a));
        assert(receive_slots(a) + receive_slots(b) =~= receive_slots(a));
    } else {
        lemma_transmitted_concat(a, b.drop_last());
        assert((a + b).drop_last() =~= a + b.drop_last());
        assert((a + b).last() == b.last());
        assert(transmitted(a) + transmitted(b.drop_last()) + match b.last() {
            Step::SendByte(x) => seq![x],
            _ => seq![],
        } =~= transmitted(a) + transmitted(b));
        assert(receive_slots(a) + receive_slots(b.drop_last()) + match b.last() {
            Step::ReceiveByte(k) => seq![k],
            _ => seq![],
        } =~= receive_slots(a) + receive_slots(b));
    }
}

proof fn lemma_send_phase_transmits(p: Seq<u8>, m: nat)
    requires
        m <= p.len(),
    ensures
        transmitted(send_phase(p, m)) == p.take(m as int),
        receive_slots(send_phase(p, m)) == Seq::<usize>::empty(),
    decreases m,
{
    if m == 0 {
        assert(send_phase(p, 0) =~= seq![]);
        assert(p.take(0) =~= seq![]);
    } else {
        let k = (m - 1) as nat;
        lemma_send_phase_transmits(p, k);
        let block = seq![
            Step::CheckBus,
            Step::AwaitFlag(StatusFlag::TxEmpty),
            Step::SendByte(p[k as int]),
            Step::AwaitFlag(StatusFlag::ByteFinished),
        ];
        assert(send_phase(p, m) =~= send_phase(p, k) + block);
        lemma_transmitted_concat(send_phase(p, k), block);
        let q1 = seq![Step::CheckBus, Step::AwaitFlag(StatusFlag::TxEmpty)];
        let q2 = seq![Step::SendByte(p[k as int])];
        let q3 = seq![Step::AwaitFlag(StatusFlag::ByteFinished)];
        assert(block =~= q1 + q2 + q3);
        lemma_transmitted_concat(q1 + q2, q3);
        lemma_transmitted_concat(q1, q2);
        lemma_quiet(q1);
        lemma_quiet(q3);
        lemma_unit(q2[0]);
        assert(transmitted(block) =~= seq![p[k as int]]);
        assert(receive_slots(block) =~= seq![]);
        assert(p.take(m as int) =~= p.take(k as int) + seq![p[k as int]]);
    }
}

proof fn lemma_receive_phase_slots(m: nat)
    ensures
        receive_slots(receive_phase(m)) == Seq::new(m, |k: int| k as usize),
        transmitted(receive_phase(m)) == Seq::<u8>::empty(),
    decreases m,
{
    if m == 0 {
        assert(receive_phase(0) =~= seq![]);
        assert(Seq::new(0, |k: int| k as usize) =~= seq![]);
    } else {
        let k = (m - 1) as nat;
        lemma_receive_phase_slots(k);
        let block = seq![
            Step::CheckBus,
            Step::AwaitFlag(StatusFlag::RxNotEmpty),
            Step::ReceiveByte(k as usize),
        ];
        assert(receive_phase(m) =~= receive_phase(k) + block);
        lemma_transmitted_concat(receive_phase(k), block);
        let q1 = seq![Step::CheckBus, Step::AwaitFlag(StatusFlag::RxNotEmpty)];
        let q2 = seq![Step::ReceiveByte(k as usize)];
        assert(block =~= q1 + q2);
        lemma_transmitted_concat(q1, q2);
        lemma_quiet(q1);
        lemma_unit(q2[0]);
        assert(receive_slots(block) =~= seq![k as usize]);
        assert(transmitted(block) =~= seq![]);
        assert(Seq::new(m, |j: int| j as usize) =~= Seq::new(k, |j: int| j as usize) + seq![
            k as usize,
        ]);
    }
}

proof fn lemma_quiet(s: Seq<Step>)
    requires
        forall|i: int| 0 <= i < s.len() ==> !(#[trigger] s[i] is SendByte) && !(s[i] is ReceiveByte),
    ensures
        transmitted(s) == Seq::<u8>::empty(),
        receive_slots(s) == Seq::<usize>::empty(),
    decreases s.len(),
{
    if s.len() > 0 {
        lemma_quiet(s.drop_last());
        assert(!(s[s.len() - 1] is SendByte));
        assert(transmitted(s) =~= seq![]);
        assert(receive_slots(s) =~= seq![]);
    }
}

proof fn lemma_unit(x: Step)
    ensures
        transmitted(seq![x]) == (match x {
            Step::SendByte(b) => seq![b],
            _ => Seq::<u8>::empty(),
        }),
        receive_slots(seq![x]) == (match x {
            Step::ReceiveByte(k) => seq![k],
            _ => Seq::<usize>::empty(),
        }),
{
    assert(seq![x].drop_last() =~= seq![]);
    lemma_quiet(seq![x].drop_last());
    assert(seq![x].last() == x);
    assert(transmitted(seq![x]) =~= (match x {
        Step::SendByte(b) => seq![b],
        _ => Seq::<u8>::empty(),
    }));
    assert(receive_slots(seq![x]) =~= (match x {
        Step::ReceiveByte(k) => seq![k],
        _ => Seq::<usize>::empty(),
    }));
}

proof fn lemma_address_phase_transmits(address: u8, read: bool)
    ensures
        transmitted(address_phase(address, read)) == seq![address_byte(address, read)],
        receive_slots(address_phase(address, read)) == Seq::<usize>::empty(),
{
    let a = address_phase(address, read);
    let a1 = a.take(3);
    let a2 = seq![a[3]];
    let a3 = a.skip(4);
    assert(a =~= a1 + a2 + a3);
    lemma_transmitted_concat(a1 + a2, a3);
    lemma_transmitted_concat(a1, a2);
    lemma_quiet(a1);
    lemma_quiet(a3);
    lemma_unit(a[3]);
    assert(transmitted(a) =~= seq![address_byte(address, read)]);
    assert(receive_slots(a) =~= seq![]);
}

/// A write puts on the bus the address byte with the write direction and
/// then the payload, byte for byte in order, and nothing else.
pub proof fn lemma_write_transmits_payload(address: u8, payload: Seq<u8>)
    ensures
        transmitted(write_script(address, payload)) == seq![address_byte(address, false)]
            + payload,
{
    let a = address_phase(address, false);
    let b = send_phase(payload, payload.len());
    lemma_transmitted_concat(a + b, stop_phase());
    lemma_transmitted_concat(a, b);
    lemma_send_phase_transmits(payload, payload.len());
    assert(payload.take(payload.len() as int) =~= payload);
    lemma_address_phase_transmits(address, false);
    lemma_quiet(stop_phase());
}

/// A read of `n` bytes sends only the address byte with the read direction,
/// and stores the bytes it receives in slots `0, 1, ..., n - 1`, in the
/// order they come off the bus.
pub proof fn lemma_read_fills_slots_in_order(address: u8, n: nat)
    requires
        n >= 1,
    ensures
        receive_slots(read_script(address, n)) == Seq::new(n, |k: int| k as usize),
        transmitted(read_script(address, n)) == seq![address_byte(address, true)],
{
    let h = seq![Step::SetControl(ControlBit::Ack)];
    let a = address_phase(address, true);
    let b = receive_phase((n - 1) as nat);
    let t = last_byte_phase((n - 1) as usize);
    lemma_transmitted_concat(h + a + b, t);
    lemma_transmitted_concat(h + a, b);
    lemma_transmitted_concat(h, a);
    lemma_receive_phase_slots((n - 1) as nat);
    lemma_quiet(h);
    lemma_address_phase_transmits(address, true);
    let t1 = seq![
        Step::CheckBus,
        Step::ClearControl(ControlBit::Ack),
        Step::SetControl(ControlBit::Stop),
        Step::AwaitFlag(StatusFlag::RxNotEmpty),
    ];
    let t2 = seq![Step::ReceiveByte((n - 1) as usize)];
    let t3 = seq![Step::AwaitStopSent];
    assert(t =~= t1 + t2 + t3);
    lemma_transmitted_concat(t1 + t2, t3);
    lemma_transmitted_concat(t1, t2);
    lemma_quiet(t1);
    lemma_quiet(t3);
    lemma_unit(t2[0]);
    assert(Seq::new(n, |k: int| k as usize) =~= Seq::new((n - 1) as nat, |k: int| k as usize)
        + seq![(n - 1) as usize]);
}

/// A read of `n` bytes acknowledges exactly the first `n - 1` bytes and
/// leaves only the last unacknowledged; NACK and STOP are both in place
/// before the last byte is awaited.
pub proof fn lemma_read_acknowledges_all_but_last(address: u8, n: nat)
    requires
        n >= 1,
    ensures
        ({
            let s = read_script(address, n);
            &&& received_count(s, s.len() as int, true) == n - 1
            &&& received_count(s, s.len() as int, false) == 1
            &&& s[s.len() - 3] == Step::AwaitFlag(StatusFlag::RxNotEmpty)
            &&& s[s.len() - 2] == Step::ReceiveByte((n - 1) as usize)
            &&& !ack_on_before(s, s.len() - 3)
            &&& stop_requested_before(s, s.len() - 3)
        }),
{
    let s = read_script(address, n);
    let m = (n - 1) as int;
    let e = 8 + 3 * m;
    assert(s.len() == e + 5);
    assert forall|i: int| 1 <= i <= e implies ack_on_before(s, i) by {
        lemma_ack_on_through(s, i, e);
    }
    lemma_counts_through_receive_phase(s, m, m);
    assert(s[e - 1] == Step::CheckBus);
    assert(received_count(s, e, true) == m);
    assert(received_count(s, e, false) == 0);
    assert(s[e] == Step::ClearControl(ControlBit::Ack));
    assert(!ack_on_before(s, e + 1));
    assert(s[e + 1] == Step::SetControl(ControlBit::Stop));
    assert(!ack_on_before(s, e + 2));
    assert(stop_requested_before(s, e + 2));
    assert(!ack_on_before(s, e + 3));
    assert(received_count(s, e + 1, true) == m);
    assert(received_count(s, e + 2, true) == m);
    assert(received_count(s, e + 3, true) == m);
    assert(received_count(s, e + 4, true) == m);
    assert(received_count(s, e + 5, true) == m);
    assert(received_count(s, e + 1, false) == 0);
    assert(received_count(s, e + 2, false) == 0);
    assert(received_count(s, e + 3, false) == 0);
    assert(received_count(s, e + 4, false) == 1);
    assert(received_count(s, e + 5, false) == 1);
}

/// A single-byte read acknowledges no byte: NACK and STOP are asserted
/// before its one data byte is awaited.
pub proof fn lemma_single_byte_read_never_acknowledges(address: u8)
    ensures
        ({
            let s = read_script(address, 1);
            &&& received_count(s, s.len() as int, true) == 0
            &&& received_count(s, s.len() as int, false) == 1
            &&& s[s.len() - 2] == Step::ReceiveByte(0)
            &&& !ack_on_before(s, s.len() - 3)
            &&& stop_requested_before(s, s.len() - 3)
        }),
{
    lemma_read_acknowledges_all_but_last(address, 1);
}

proof fn lemma_ack_on_through(s: Seq<Step>, i: int, e: int)
    requires
        s.len() > e >= 1,
        1 <= i <= e,
        s[0] == Step::SetControl(ControlBit::Ack),
        forall|j: int|
            1 <= j < e ==> #[trigger] s[j] != Step::SetControl(ControlBit::Ack) && s[j]
                != Step::ClearControl(ControlBit::Ack),
    ensures
        ack_on_before(s, i),
    decreases i,
{
    if i > 1 {
        lemma_ack_on_through(s, i - 1, e);
        assert(s[i - 1] != Step::SetControl(ControlBit::Ack));
    }
}

proof fn lemma_counts_through_receive_phase(s: Seq<Step>, k: int, m: int)
    requires
        0 <= k <= m,
        s.len() >= 7 + 3 * m,
        forall|i: int| 1 <= i <= 7 + 3 * m ==> #[trigger] ack_on_before(s, i),
        forall|i: int| 0 <= i < 7 ==> !(#[trigger] s[i] is ReceiveByte),
        forall|j: int| 0 <= j < m ==> #[trigger] s[7 + 3 * j] == Step::CheckBus,
        forall|j: int| 0 <= j < m ==> #[trigger] s[7 + 3 * j + 1] == Step::AwaitFlag(StatusFlag::RxNotEmpty),
        forall|j: int| 0 <= j < m ==> (#[trigger] s[7 + 3 * j + 2]) is ReceiveByte,
    ensures
        received_count(s, 7 + 3 * k, true) == k,
        received_count(s, 7 + 3 * k, false) == 0,
    decreases k,
{
    if k == 0 {
        assert forall|i: int| 0 <= i <= 7 implies received_count(s, i, true) == 0
            && received_count(s, i, false) == 0 by {
            lemma_no_receive_prefix(s, i);
        }
    } else {
        lemma_counts_through_receive_phase(s, k - 1, m);
        let j = k - 1;
        assert(s[7 + 3 * j] == Step::CheckBus);
        assert(s[7 + 3 * j + 1] == Step::AwaitFlag(StatusFlag::RxNotEmpty));
        assert(s[7 + 3 * j + 2] is ReceiveByte);
        assert(ack_on_before(s, 7 + 3 * j + 2));
        assert(received_count(s, 7 + 3 * j + 1, true) == j);
        assert(received_count(s, 7 + 3 * j + 1, false) == 0);
        assert(received_count(s, 7 + 3 * j + 2, true) == j);
        assert(received_count(s, 7 + 3 * j + 2, false) == 0);
        assert(received_count(s, 7 + 3 * j + 3, true) == j + 1);
    }
}

proof fn lemma_no_receive_prefix(s: Seq<Step>, i: int)
    requires
        0 <= i <= 7,
        s.len() >= 7,
        forall|j: int| 0 <= j < 7 ==> !(#[trigger] s[j] is ReceiveByte),
    ensures
        received_count(s, i, true) == 0,
        received_count(s, i, false) == 0,
    decreases i,
{
    if i > 0 {
        lemma_no_receive_prefix(s, i - 1);
        assert(!(s[i - 1] is ReceiveByte));
    }
}

} // verus!

use stm32f4_i2c::registers::{ControlBit, Register};
use stm32f4_i2c::transfer::{BusError, Request, Transfer};

/// What a slave on the wire observes.
#[derive(Clone, Copy, Debug, PartialEq, Eq)]
enum Wire {
    Start,
    Addr(u8),
    Ack,
    Nack,
    Data(u8),
    Stop,
}

const SR1_SB: u32 = 1 << 0;
const SR1_ADDR: u32 = 1 << 1;
const SR1_BTF: u32 = 1 << 2;
const SR1_RXNE: u32 = 1 << 6;
const SR1_TXE: u32 = 1 << 7;
const SR1_ARLO: u32 = 1 << 9;
const SR1_AF: u32 = 1 << 10;
const SR2_MSL: u32 = 1 << 0;
const SR2_BUSY: u32 = 1 << 1;
const CR1_STOP: u32 = 1 << 9;

/// A controller with one slave that keeps the bytes written to it and hands
/// them back, in order, on a read.
struct MockBus {
    slave: u8,
    wire: Vec<Wire>,
    memory: Vec<u8>,
    next_out: usize,
    start_bit: bool,
    addr_flag: bool,
    reading: bool,
    in_transfer: bool,
    ack: bool,
    ack_failure: bool,
    stop_pending: bool,
    rx: Option<u8>,
    /// Flags of status register 1 that never show.
    sr1_mask: u32,
    /// Status register 2 never shows master or busy.
    sr2_stuck: bool,
    /// STOP never leaves control register 1.
    stop_stuck: bool,
    /// Arbitration is lost at the address.
    lose_arbitration: bool,
    /// Master mode and busy are gone once the address is acknowledged.
    drop_master_after_address: bool,
    /// Master mode and busy are gone once this many data bytes have passed.
    lose_bus_after_bytes: Option<usize>,
    requests: Vec<Request>,
}

impl MockBus {
    fn new(slave: u8) -> MockBus {
        MockBus {
            slave,
            wire: Vec::new(),
            memory: Vec::new(),
            next_out: 0,
            start_bit: false,
            addr_flag: false,
            reading: false,
            in_transfer: false,
            ack: false,
            ack_failure: false,
            stop_pending: false,
            rx: None,
            sr1_mask: 0,
            sr2_stuck: false,
            stop_stuck: false,
            lose_arbitration: false,
            drop_master_after_address: false,
            lose_bus_after_bytes: None,
            requests: Vec::new(),
        }
    }

    fn send_stop(&mut self) {
        self.wire.push(Wire::Stop);
        self.in_transfer = false;
        self.reading = false;
        self.stop_pending = false;
    }

    /// Clocks in the next byte of a read, acknowledged as ACK is set now.
    fn clock_in(&mut self) {
        if self.reading && self.rx.is_none() {
            let b = self.memory.get(self.next_out).copied().unwrap_or(0xFF);
            self.next_out += 1;
            self.rx = Some(b);
            self.wire.push(Wire::Data(b));
            if self.ack {
                self.wire.push(Wire::Ack);
            } else {
                self.wire.push(Wire::Nack);
                if self.stop_pending {
                    self.send_stop();
                }
            }
        }
    }

    fn sr1(&mut self) -> u32 {
        self.clock_in();
        let mut v = 0;
        if self.start_bit {
            v |= SR1_SB;
        }
        if self.addr_flag {
            v |= SR1_ADDR;
        }
        if self.in_transfer && !self.reading && !self.start_bit {
            v |= SR1_TXE | SR1_BTF;
        }
        if self.rx.is_some() {
            v |= SR1_RXNE;
        }
        if self.ack_failure {
            v |= SR1_AF;
        }
        if self.lose_arbitration && !self.start_bit {
            v |= SR1_ARLO;
        }
        v & !self.sr1_mask
    }

    fn perform(&mut self, req: Request) -> u32 {
        self.requests.push(req);
        match req {
            Request::SetControl(ControlBit::Start) => {
                self.wire.push(Wire::Start);
                self.start_bit = true;
                self.in_transfer = true;
                0
            }
            Request::SetControl(ControlBit::Ack) => {
                self.ack = true;
                0
            }
            Request::ClearControl(ControlBit::Ack) => {
                self.ack = false;
                0
            }
            Request::SetControl(ControlBit::Stop) => {
                if self.reading {
                    self.stop_pending = true;
                } else if !self.stop_stuck {
                    self.send_stop();
                } else {
                    self.stop_pending = true;
                }
                0
            }
            Request::SetControl(_) | Request::ClearControl(_) => 0,
            Request::WriteData(b) => {
                if self.start_bit {
                    self.start_bit = false;
                    self.wire.push(Wire::Addr(b));
                    if b >> 1 == self.slave {
                        self.wire.push(Wire::Ack);
                        self.addr_flag = true;
                        if b & 1 == 1 {
                            self.next_out = 0;
                        } else {
                            self.memory.clear();
                        }
                    } else {
                        self.wire.push(Wire::Nack);
                        self.ack_failure = true;
                    }
                } else {
                    self.wire.push(Wire::Data(b));
                    self.wire.push(Wire::Ack);
                    self.memory.push(b);
                }
                0
            }
            Request::Read(Register::Sr1) => self.sr1(),
            Request::Read(Register::Sr2) => {
                if self.addr_flag && self.drop_master_after_address {
                    self.addr_flag = false;
                    return 0;
                }
                if self.addr_flag {
                    self.addr_flag = false;
                    self.reading = self.wire.iter().rev().find_map(|w| match w {
                        Wire::Addr(a) => Some(a & 1 == 1),
                        _ => None,
                    }) == Some(true);
                }
                let data_bytes = self.wire.iter().filter(|w| matches!(w, Wire::Data(_))).count();
                if self.lose_bus_after_bytes.is_some_and(|n| data_bytes >= n) {
                    return 0;
                }
                if self.in_transfer && !self.sr2_stuck {
                    SR2_MSL | SR2_BUSY
                } else {
                    0
                }
            }
            Request::Read(Register::Dr) => self.rx.take().map(u32::from).unwrap_or(0),
            Request::Read(Register::Cr1) => {
                if self.stop_pending {
                    CR1_STOP
                } else {
                    0
                }
            }
            Request::Read(_) => 0,
            Request::Complete(_) => 0,
        }
    }
}

fn run(t: &mut Transfer, bus: &mut MockBus) -> Result<(), BusError> {
    for _ in 0..100_000 {
        match t.request() {
            Request::Complete(r) => {
                bus.requests.push(Request::Complete(r));
                return r;
            }
            req => {
                let v = bus.perform(req);
                t.advance(v);
            }
        }
    }
    panic!("transfer did not finish");
}

fn acks_after_data(wire: &[Wire]) -> (usize, usize) {
    let mut acked = 0;
    let mut nacked = 0;
    for w in wire.windows(2) {
        match (w[0], w[1]) {
            (Wire::Data(_), Wire::Ack) => acked += 1,
            (Wire::Data(_), Wire::Nack) => nacked += 1,
            _ => {}
        }
    }
    (acked, nacked)
}

#[test]
fn write_records_exact_wire_sequence() {
    let mut bus = MockBus::new(0x53);
    let mut t = Transfer::write(0x53, &vec![0x2D, 0x08], 100);
    assert_eq!(run(&mut t, &mut bus), Ok(()));
    assert_eq!(
        bus.wire,
        vec![
            Wire::Start,
            Wire::Addr(0xA6),
            Wire::Ack,
            Wire::Data(0x2D),
            Wire::Ack,
            Wire::Data(0x08),
            Wire::Ack,
            Wire::Stop,
        ]
    );
}

#[test]
fn write_then_read_round_trips() {
    let mut bus = MockBus::new(0x53);
    let mut w = Transfer::write(0x53, &vec![0x31, 0x03], 100);
    assert_eq!(run(&mut w, &mut bus), Ok(()));
    let mut r = Transfer::read(0x53, 2, 100);
    assert_eq!(run(&mut r, &mut bus), Ok(()));
    assert_eq!(r.buffer(), &vec![0x31, 0x03]);
}

#[test]
fn single_byte_read_acknowledges_nothing() {
    let mut bus = MockBus::new(0x53);
    let mut w = Transfer::write(0x53, &vec![0xE5], 100);
    assert_eq!(run(&mut w, &mut bus), Ok(()));
    bus.wire.clear();
    let mut r = Transfer::read(0x53, 1, 100);
    assert_eq!(run(&mut r, &mut bus), Ok(()));
    assert_eq!(r.buffer(), &vec![0xE5]);
    assert_eq!(acks_after_data(&bus.wire), (0, 1));
    assert_eq!(
        bus.wire,
        vec![Wire::Start, Wire::Addr(0xA7), Wire::Ack, Wire::Data(0xE5), Wire::Nack, Wire::Stop]
    );
    // ACK off and STOP asked for before the one data byte is awaited.
    let clear_ack = bus
        .requests
        .iter()
        .position(|q| matches!(q, Request::ClearControl(ControlBit::Ack)))
        .unwrap();
    let dr = bus.requests.iter().position(|q| matches!(q, Request::Read(Register::Dr))).unwrap();
    assert!(clear_ack < dr);
    assert!(matches!(bus.requests[clear_ack + 1], Request::SetControl(ControlBit::Stop)));
}

#[test]
fn multi_byte_read_acknowledges_all_but_last() {
    let payload: Vec<u8> = vec![1, 2, 3, 4, 5, 6];
    let mut bus = MockBus::new(0x53);
    let mut w = Transfer::write(0x53, &payload, 100);
    assert_eq!(run(&mut w, &mut bus), Ok(()));
    bus.wire.clear();
    let mut r = Transfer::read(0x53, 6, 100);
    assert_eq!(run(&mut r, &mut bus), Ok(()));
    assert_eq!(r.buffer(), &payload);
    assert_eq!(acks_after_data(&bus.wire), (5, 1));
    assert_eq!(bus.wire[bus.wire.len() - 3..], [Wire::Data(6), Wire::Nack, Wire::Stop]);
}

#[test]
fn absent_slave_is_nack_and_stop() {
    let mut bus = MockBus::new(0x53);
    let mut t = Transfer::write(0x1D, &vec![0x00], 100);
    assert_eq!(run(&mut t, &mut bus), Err(BusError::NackReceived));
    assert_eq!(bus.wire, vec![Wire::Start, Wire::Addr(0x3A), Wire::Nack, Wire::Stop]);
}

#[test]
fn lost_arbitration_is_reported() {
    let mut bus = MockBus::new(0x53);
    bus.lose_arbitration = true;
    let mut t = Transfer::read(0x53, 2, 100);
    assert_eq!(run(&mut t, &mut bus), Err(BusError::ArbitrationLost));
    assert_eq!(*bus.wire.last().unwrap(), Wire::Stop);
}

#[test]
fn dead_bus_times_out_after_budget() {
    let mut bus = MockBus::new(0x53);
    bus.sr1_mask = u32::MAX;
    let mut t = Transfer::write(0x53, &vec![0x2D], 5);
    assert_eq!(run(&mut t, &mut bus), Err(BusError::Timeout));
    // START, six reads of the start flag, STOP, done.
    assert_eq!(bus.requests.len(), 9);
    assert!(matches!(bus.requests[0], Request::SetControl(ControlBit::Start)));
    for q in &bus.requests[1..7] {
        assert!(matches!(q, Request::Read(Register::Sr1)));
    }
    assert!(matches!(bus.requests[7], Request::SetControl(ControlBit::Stop)));
    assert!(matches!(bus.requests[8], Request::Complete(Err(BusError::Timeout))));
}

#[test]
fn every_poll_times_out() {
    for mask in [SR1_SB, SR1_ADDR, SR1_TXE, SR1_BTF] {
        let mut bus = MockBus::new(0x53);
        bus.sr1_mask = mask;
        let mut t = Transfer::write(0x53, &vec![0x2D], 3);
        assert_eq!(run(&mut t, &mut bus), Err(BusError::Timeout), "mask {mask:#x}");
        assert!(matches!(
            bus.requests[bus.requests.len() - 2],
            Request::SetControl(ControlBit::Stop)
        ));
    }
    let mut bus = MockBus::new(0x53);
    bus.sr1_mask = SR1_RXNE;
    let mut t = Transfer::read(0x53, 3, 3);
    assert_eq!(run(&mut t, &mut bus), Err(BusError::Timeout));

    let mut bus = MockBus::new(0x53);
    bus.sr2_stuck = true;
    let mut t = Transfer::write(0x53, &vec![0x2D], 3);
    assert_eq!(run(&mut t, &mut bus), Err(BusError::Timeout));

    let mut bus = MockBus::new(0x53);
    bus.stop_stuck = true;
    let mut t = Transfer::write(0x53, &vec![0x2D], 3);
    assert_eq!(run(&mut t, &mut bus), Err(BusError::Timeout));
}

#[test]
fn zero_budget_allows_one_read_per_poll() {
    let mut bus = MockBus::new(0x53);
    let mut t = Transfer::write(0x53, &vec![0x2D, 0x08], 0);
    assert_eq!(run(&mut t, &mut bus), Ok(()));
    let mut bus = MockBus::new(0x53);
    bus.sr1_mask = SR1_SB;
    let mut t = Transfer::write(0x53, &vec![0x2D], 0);
    assert_eq!(run(&mut t, &mut bus), Err(BusError::Timeout));
    assert_eq!(bus.requests.len(), 4);
}

#[test]
fn finished_transfer_stays_finished() {
    let mut bus = MockBus::new(0x53);
    let mut t = Transfer::write(0x53, &vec![0x2D], 10);
    assert_eq!(run(&mut t, &mut bus), Ok(()));
    assert_eq!(t.outcome(), Some(Ok(())));
    t.advance(0xFFFF_FFFF);
    assert_eq!(t.outcome(), Some(Ok(())));
    assert!(matches!(t.request(), Request::Complete(Ok(()))));
}

#[test]
fn master_mode_gone_after_address_is_arbitration_lost() {
    let mut bus = MockBus::new(0x53);
    bus.drop_master_after_address = true;
    let mut t = Transfer::write(0x53, &vec![0x2D], 10);
    assert_eq!(run(&mut t, &mut bus), Err(BusError::ArbitrationLost));
    assert_eq!(bus.wire, vec![Wire::Start, Wire::Addr(0xA6), Wire::Ack, Wire::Stop]);
}

#[test]
fn bus_lost_during_write_stops_sending() {
    let mut bus = MockBus::new(0x53);
    bus.lose_bus_after_bytes = Some(1);
    let mut t = Transfer::write(0x53, &vec![0x2D, 0x08, 0x31], 10);
    assert_eq!(run(&mut t, &mut bus), Err(BusError::ArbitrationLost));
    assert_eq!(
        bus.wire,
        vec![Wire::Start, Wire::Addr(0xA6), Wire::Ack, Wire::Data(0x2D), Wire::Ack, Wire::Stop]
    );
}

#[test]
fn bus_lost_during_read_is_arbitration_lost() {
    let mut bus = MockBus::new(0x53);
    let mut w = Transfer::write(0x53, &vec![1, 2, 3], 10);
    assert_eq!(run(&mut w, &mut bus), Ok(()));
    bus.lose_bus_after_bytes = Some(4);
    bus.requests.clear();
    let mut r = Transfer::read(0x53, 3, 10);
    assert_eq!(run(&mut r, &mut bus), Err(BusError::ArbitrationLost));
    let n = bus.requests.len();
    assert!(matches!(bus.requests[n - 2], Request::SetControl(ControlBit::Stop)));
    assert!(matches!(bus.requests[n - 1], Request::Complete(Err(BusError::ArbitrationLost))));
    assert_eq!(bus.wire.iter().filter(|w| matches!(w, Wire::Data(_))).count(), 4);
}

#[test]
fn transfer_ends_within_stated_bound() {
    // Write of 2 bytes, budget 3: at most 2 + (8 + 4 * 2) * 4 + 3 = 69 requests.
    for pattern in [0u32, u32::MAX, 0x0000_0001, 0x0000_0083] {
        let mut t = Transfer::write(0x53, &vec![1, 2], 3);
        let mut requests = 0;
        while t.outcome().is_none() {
            t.advance(pattern);
            requests += 1;
            assert!(requests <= 69, "pattern {pattern:#x}");
        }
    }
    // Read of 3 bytes, budget 2: at most 2 + (10 + 3 * 3) * 3 + 2 = 61 requests.
    for pattern in [0u32, 0x0000_0043, 0x0000_0003] {
        let mut t = Transfer::read(0x53, 3, 2);
        let mut requests = 0;
        while t.outcome().is_none() {
            t.advance(pattern);
            requests += 1;
            assert!(requests <= 61, "pattern {pattern:#x}");
        }
    }
}

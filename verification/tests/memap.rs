use jtag_adi::memap::{MemTask, MemTurn};
use jtag_adi::{ArmDebugInterface, MemAP, MemValue, Poll, Port, Reply, Scan};
use std::collections::{HashMap, VecDeque};

/// A debug port with one memory access port behind it, and the transport
/// that reaches it. A scan that fetches hands back the outcome of the
/// request shifted before it.
struct Target {
    log: Vec<Scan>,
    ir: Option<Port>,
    select: u32,
    csw: u32,
    tar: u32,
    ctrl_stat: u32,
    memory: HashMap<u32, u32>,
    last: (u8, u32),
    queue: VecDeque<(u8, u32)>,
    room: usize,
    /// How often a request on a register is still to be answered with WAIT.
    waits: HashMap<(Port, u8), usize>,
    /// The register on which requests are answered with FAULT.
    fault: Option<(Port, u8)>,
}

impl Target {
    fn new() -> Target {
        Target {
            log: Vec::new(),
            ir: None,
            select: 0xdead_0000,
            csw: 0x2300_0052,
            tar: 0,
            ctrl_stat: 0,
            memory: HashMap::new(),
            last: (2, 0),
            queue: VecDeque::new(),
            room: usize::MAX,
            waits: HashMap::new(),
            fault: None,
        }
    }

    fn transact(&mut self, reg: u8, write: Option<u32>) {
        let port = self.ir.expect("a data register is shifted after IR");
        if let Some(left) = self.waits.get_mut(&(port, reg)) {
            if *left > 0 {
                *left -= 1;
                self.last = (1, 0);
                return;
            }
        }
        if self.fault == Some((port, reg)) {
            self.last = (4, 0);
            return;
        }
        let data = match (port, reg, write) {
            (Port::DP, 2, Some(val)) => {
                self.select = val;
                0
            }
            (Port::DP, 1, None) => self.ctrl_stat,
            (Port::DP, _, _) => 0,
            (Port::AP, 0, Some(val)) => {
                self.csw = val;
                0
            }
            (Port::AP, 0, None) => self.csw,
            (Port::AP, 1, Some(val)) => {
                self.tar = val;
                0
            }
            (Port::AP, 1, None) => self.tar,
            (Port::AP, 3, access) => {
                assert_eq!(self.select, 0, "DRW is reached through bank zero of port zero");
                let at = self.tar;
                if self.csw & 0x10 != 0 {
                    self.tar = self.tar.wrapping_add(4);
                }
                match access {
                    Some(val) => {
                        self.memory.insert(at, val);
                        0
                    }
                    None => self.memory.get(&at).copied().unwrap_or(0),
                }
            }
            (Port::AP, _, _) => 0,
        };
        self.last = (2, data);
    }

    fn offer(&mut self) -> bool {
        if self.queue.len() < self.room {
            self.queue.push_back(self.last);
            true
        } else {
            false
        }
    }

    fn shifted((ack, data): (u8, u32)) -> Reply {
        let word = ((data as u64) << 3) | ack as u64;
        Reply::shifted(&word.to_le_bytes()[0..5])
    }

    fn perform(&mut self, scans: &[Scan]) -> Option<Reply> {
        let mut reply = None;
        for scan in scans {
            assert!(reply.is_none(), "only the last scan of a turn is answered");
            self.log.push(*scan);
            reply = match *scan {
                Scan::Ir(port) => {
                    self.ir = Some(port);
                    None
                }
                Scan::Write { reg, val } => {
                    self.transact(reg, Some(val));
                    None
                }
                Scan::Request { reg } => {
                    self.transact(reg, None);
                    None
                }
                Scan::ReadDr => Some(Target::shifted(self.last)),
                Scan::QueueRead => Some(Reply::Queued(self.offer())),
                Scan::QueueRequest { reg } => {
                    let taken = self.offer();
                    if taken {
                        self.transact(reg, None);
                    }
                    Some(Reply::Queued(taken))
                }
                Scan::Finish => Some(Target::shifted(self.queue.pop_front().expect("a queued scan"))),
            };
        }
        reply
    }

    fn start(&mut self) -> ArmDebugInterface {
        let (mut adi, first) = ArmDebugInterface::new();
        let mut turn = first;
        loop {
            let reply = self.perform(&turn.scans);
            match turn.poll {
                Poll::Ready(done) => {
                    assert_eq!(done, Ok(()));
                    return adi;
                }
                Poll::Pending(task) => turn = adi.step_write(task, reply.unwrap()),
            }
        }
    }

    fn run(&mut self, adi: &mut ArmDebugInterface, mem: &mut MemAP, first: MemTurn) -> Result<MemValue, u8> {
        let mut turn = first;
        loop {
            let reply = self.perform(&turn.scans);
            match turn.poll {
                Poll::Ready(done) => {
                    assert!(reply.is_none(), "the last turn leaves nothing to answer");
                    return done;
                }
                Poll::Pending(task) => {
                    let reply = reply.expect("a pending turn ends with a question");
                    assert!(task.takes(&reply));
                    turn = mem.step(adi, task, reply);
                }
            }
        }
    }

    fn attach(&mut self, adi: &mut ArmDebugInterface) -> MemAP {
        let (mut mem, first) = MemAP::new(adi, 0);
        assert_eq!(self.run(adi, &mut mem, first), Ok(MemValue::Unit));
        mem
    }

    fn writes_of(&self, reg: u8, from: usize) -> Vec<u32> {
        let mut ir = None;
        let mut found = Vec::new();
        for (at, scan) in self.log.iter().enumerate() {
            match *scan {
                Scan::Ir(port) => ir = Some(port),
                Scan::Write { reg: to, val } if to == reg && ir == Some(Port::AP) && at >= from => found.push(val),
                _ => {}
            }
        }
        found
    }
}

fn read(target: &mut Target, adi: &mut ArmDebugInterface, mem: &mut MemAP, addr: u32) -> Result<u32, u8> {
    let first = mem.read(adi, addr);
    match target.run(adi, mem, first) {
        Ok(MemValue::Word(word)) => Ok(word),
        Ok(other) => panic!("a read hands back a word, not {:?}", other),
        Err(code) => Err(code),
    }
}

#[test]
fn construction_reads_csw_and_tar() {
    let mut target = Target::new();
    target.tar = 0x1234_5678;
    let mut adi = target.start();
    let from = target.log.len();
    let mem = target.attach(&mut adi);
    assert_eq!(mem.apsel(), 0);
    assert_eq!(mem.csw(), Some(0x2300_0052));
    assert_eq!(mem.tar(), Some(0x1234_5678));
    assert_eq!(
        target.log[from..],
        [
            Scan::Ir(Port::AP),
            Scan::Request { reg: 0 },
            Scan::QueueRead,
            Scan::Finish,
            Scan::Request { reg: 1 },
            Scan::QueueRead,
            Scan::Finish,
        ]
    );
}

#[test]
fn construction_reports_a_fault() {
    let mut target = Target::new();
    let mut adi = target.start();
    target.fault = Some((Port::AP, 1));
    let (mut mem, first) = MemAP::new(&mut adi, 0);
    assert_eq!(target.run(&mut adi, &mut mem, first), Err(4));
    assert_eq!(mem.csw(), Some(0x2300_0052));
    assert_eq!(mem.tar(), None);
}

#[test]
fn single_read() {
    let mut target = Target::new();
    target.csw = 0x2300_0042;
    target.memory.insert(0x8009_0314, 0xdead_beef);
    let mut adi = target.start();
    let mut mem = target.attach(&mut adi);
    let from = target.log.len();
    assert_eq!(read(&mut target, &mut adi, &mut mem, 0x8009_0314), Ok(0xdead_beef));
    assert_eq!(
        target.log[from..],
        [
            Scan::Write { reg: 1, val: 0x8009_0314 },
            Scan::ReadDr,
            Scan::Request { reg: 3 },
            Scan::QueueRead,
            Scan::Finish,
            Scan::Ir(Port::DP),
            Scan::Request { reg: 1 },
            Scan::QueueRead,
            Scan::Finish,
        ]
    );
    assert_eq!(mem.tar(), Some(0x8009_0314));
}

#[test]
fn single_read_clears_auto_increment() {
    let mut target = Target::new();
    target.memory.insert(0x100, 7);
    let mut adi = target.start();
    let mut mem = target.attach(&mut adi);
    let from = target.log.len();
    assert_eq!(read(&mut target, &mut adi, &mut mem, 0x100), Ok(7));
    assert_eq!(target.log[from..from + 2], [Scan::Write { reg: 0, val: 0x2300_0042 }, Scan::ReadDr]);
    assert_eq!(target.csw, 0x2300_0042);
    assert_eq!(mem.csw(), Some(0x2300_0042));
}

#[test]
fn burst_read() {
    let mut target = Target::new();
    target.csw = 0x2300_0042;
    for (i, word) in [0x11u32, 0x22, 0x33, 0x44].into_iter().enumerate() {
        target.memory.insert(0x2000_0000 + 4 * i as u32, word);
    }
    let mut adi = target.start();
    let mut mem = target.attach(&mut adi);
    let from = target.log.len();
    let first = mem.read_block(&mut adi, 0x2000_0000, 4, true);
    assert_eq!(target.run(&mut adi, &mut mem, first), Ok(MemValue::Words(vec![0x11, 0x22, 0x33, 0x44])));
    assert_eq!(
        target.log[from..],
        [
            Scan::Write { reg: 0, val: 0x2300_0052 },
            Scan::ReadDr,
            Scan::Write { reg: 1, val: 0x2000_0000 },
            Scan::ReadDr,
            Scan::Request { reg: 3 },
            Scan::QueueRequest { reg: 3 },
            Scan::QueueRequest { reg: 3 },
            Scan::QueueRequest { reg: 3 },
            Scan::QueueRead,
            Scan::Finish,
            Scan::Finish,
            Scan::Finish,
            Scan::Finish,
            Scan::Ir(Port::DP),
            Scan::Request { reg: 1 },
            Scan::QueueRead,
            Scan::Finish,
        ]
    );
    assert_eq!(mem.tar(), Some(0x2000_0010));
    assert_eq!(target.tar, 0x2000_0010);
    assert_eq!(mem.csw(), Some(0x2300_0052));
}

#[test]
fn burst_read_moves_the_shadow_without_a_tar_write() {
    let mut target = Target::new();
    let mut adi = target.start();
    let mut mem = target.attach(&mut adi);
    let first = mem.read_block(&mut adi, 0, 2, false);
    assert_eq!(target.run(&mut adi, &mut mem, first), Ok(MemValue::Words(vec![0, 0])));
    assert_eq!(mem.tar(), Some(8));
    target.memory.insert(8, 0x88);
    target.memory.insert(12, 0xcc);
    let from = target.log.len();
    let first = mem.read_block(&mut adi, 8, 2, false);
    assert_eq!(target.run(&mut adi, &mut mem, first), Ok(MemValue::Words(vec![0x88, 0xcc])));
    assert_eq!(target.writes_of(1, from), Vec::<u32>::new());
    assert_eq!(mem.tar(), Some(16));
}

#[test]
fn write_waits_then_goes_through() {
    let mut target = Target::new();
    target.csw = 0x2300_0042;
    let mut adi = target.start();
    let mut mem = target.attach(&mut adi);
    target.waits.insert((Port::AP, 3), 2);
    let from = target.log.len();
    let first = mem.write(&mut adi, 0x1000, 0xaa);
    assert_eq!(target.run(&mut adi, &mut mem, first), Ok(MemValue::Unit));
    assert_eq!(
        target.log[from..],
        [
            Scan::Write { reg: 1, val: 0x1000 },
            Scan::ReadDr,
            Scan::Write { reg: 3, val: 0xaa },
            Scan::ReadDr,
            Scan::Write { reg: 3, val: 0xaa },
            Scan::ReadDr,
            Scan::Write { reg: 3, val: 0xaa },
            Scan::ReadDr,
            Scan::Ir(Port::DP),
            Scan::Request { reg: 1 },
            Scan::QueueRead,
            Scan::Finish,
        ]
    );
    assert_eq!(target.memory.get(&0x1000), Some(&0xaa));
}

#[test]
fn sticky_error_fails_a_read() {
    for (stat, sticky) in [(0x1u32, true), (0x4, true), (0x5, true), (0xf000_0045, true), (0x2, false), (0xf000_0040, false)] {
        let mut target = Target::new();
        target.memory.insert(0x1000, 0x77);
        target.ctrl_stat = stat;
        let mut adi = target.start();
        let mut mem = target.attach(&mut adi);
        let expected = if sticky { Err(5) } else { Ok(0x77) };
        assert_eq!(read(&mut target, &mut adi, &mut mem, 0x1000), expected);
        let first = mem.write(&mut adi, 0x1000, 1);
        let expected = if sticky { Err(5) } else { Ok(MemValue::Unit) };
        assert_eq!(target.run(&mut adi, &mut mem, first), expected);
    }
}

#[test]
fn sticky_error_is_looked_for_only_on_request() {
    let mut target = Target::new();
    target.ctrl_stat = 1;
    let mut adi = target.start();
    let mut mem = target.attach(&mut adi);
    let first = mem.read_block(&mut adi, 0, 2, false);
    assert_eq!(target.run(&mut adi, &mut mem, first), Ok(MemValue::Words(vec![0, 0])));
    let first = mem.read_block(&mut adi, 8, 2, true);
    assert_eq!(target.run(&mut adi, &mut mem, first), Err(5));
    let first = mem.write_block(&mut adi, 16, &[1, 2], false);
    assert_eq!(target.run(&mut adi, &mut mem, first), Ok(MemValue::Unit));
    let first = mem.write_block(&mut adi, 24, &[1, 2], true);
    assert_eq!(target.run(&mut adi, &mut mem, first), Err(5));
}

#[test]
fn rom_table_walk() {
    let base = 0x8000_0000u32;
    let mut target = Target::new();
    target.memory.insert(base + 0xff4, 0x10);
    for i in 0..960u32 {
        target.memory.insert(base + 4 * i, 0x0010_0003 + (i << 12));
    }
    let mut adi = target.start();
    let mut mem = target.attach(&mut adi);
    let from = target.log.len();
    assert_eq!(read(&mut target, &mut adi, &mut mem, base + 0xff4), Ok(0x10));
    let mut entries = 0u32;
    loop {
        let addr = base + 4 * entries;
        let entry = read(&mut target, &mut adi, &mut mem, addr).expect("an entry");
        assert_eq!(mem.tar(), Some(addr));
        assert_eq!(target.tar, addr);
        if entry == 0 {
            break;
        }
        assert_eq!(entry, 0x0010_0003 + (entries << 12));
        entries += 1;
    }
    assert_eq!(entries, 960);
    assert_eq!(target.writes_of(1, from).len(), 962);
    assert_eq!(target.writes_of(0, from).len(), 1);
}

#[test]
fn tar_is_written_once_for_one_address() {
    let mut target = Target::new();
    let mut adi = target.start();
    let mut mem = target.attach(&mut adi);
    let from = target.log.len();
    assert_eq!(read(&mut target, &mut adi, &mut mem, 0x40), Ok(0));
    assert_eq!(read(&mut target, &mut adi, &mut mem, 0x40), Ok(0));
    assert_eq!(target.writes_of(1, from), vec![0x40]);
    assert_eq!(read(&mut target, &mut adi, &mut mem, 0x44), Ok(0));
    assert_eq!(target.writes_of(1, from), vec![0x40, 0x44]);
}

#[test]
fn csw_is_written_once_for_one_mode() {
    let mut target = Target::new();
    let mut adi = target.start();
    let mut mem = target.attach(&mut adi);
    let from = target.log.len();
    for addr in [0x40, 0x44, 0x40] {
        assert_eq!(read(&mut target, &mut adi, &mut mem, addr), Ok(0));
    }
    assert_eq!(target.writes_of(0, from), vec![0x2300_0042]);
    for addr in [0x100, 0x200] {
        let first = mem.read_multi(&mut adi, addr, 3, true, false);
        assert_eq!(target.run(&mut adi, &mut mem, first), Ok(MemValue::Words(vec![0, 0, 0])));
    }
    assert_eq!(target.writes_of(0, from), vec![0x2300_0042, 0x2300_0052]);
    let first = mem.read_multi(&mut adi, 0x300, 3, false, false);
    assert_eq!(target.run(&mut adi, &mut mem, first), Ok(MemValue::Words(vec![0, 0, 0])));
    assert_eq!(target.writes_of(0, from), vec![0x2300_0042, 0x2300_0052, 0x2300_0042]);
    assert_eq!(mem.tar(), Some(0x300));
}

#[test]
fn write_csw_skips_a_known_value() {
    let mut target = Target::new();
    let mut adi = target.start();
    let mut mem = target.attach(&mut adi);
    let first = mem.write_csw(&mut adi, 0x2300_0052);
    assert_eq!(first.scans, vec![]);
    assert_eq!(first.poll, Poll::Ready(Ok(MemValue::Unit)));
    let first = mem.write_csw(&mut adi, 0x2300_0040);
    assert_eq!(target.run(&mut adi, &mut mem, first), Ok(MemValue::Unit));
    assert_eq!(target.csw, 0x2300_0040);
    assert_eq!(mem.csw(), Some(0x2300_0040));
}

#[test]
fn refused_csw_write_is_forgotten() {
    let mut target = Target::new();
    let mut adi = target.start();
    let mut mem = target.attach(&mut adi);
    target.fault = Some((Port::AP, 0));
    let first = mem.write_csw(&mut adi, 0x2300_0040);
    assert_eq!(target.run(&mut adi, &mut mem, first), Err(4));
    assert_eq!(mem.csw(), None);
    target.fault = None;
    let from = target.log.len();
    let first = mem.write_csw(&mut adi, 0x2300_0052);
    assert_eq!(target.run(&mut adi, &mut mem, first), Ok(MemValue::Unit));
    assert_eq!(target.writes_of(0, from), vec![0x2300_0052]);
    assert_eq!(mem.csw(), Some(0x2300_0052));
}

#[test]
fn refused_tar_write_is_forgotten() {
    let mut target = Target::new();
    let mut adi = target.start();
    let mut mem = target.attach(&mut adi);
    target.fault = Some((Port::AP, 1));
    let from = target.log.len();
    assert_eq!(read(&mut target, &mut adi, &mut mem, 0x40), Err(4));
    assert_eq!(mem.tar(), None);
    assert_eq!(target.log[from..].iter().filter(|scan| matches!(scan, Scan::Request { .. })).count(), 0);
    target.fault = None;
    assert_eq!(read(&mut target, &mut adi, &mut mem, 0), Ok(0));
    assert_eq!(mem.tar(), Some(0));
}

#[test]
fn fault_on_drw_stops_a_read() {
    let mut target = Target::new();
    let mut adi = target.start();
    let mut mem = target.attach(&mut adi);
    target.fault = Some((Port::AP, 3));
    let from = target.log.len();
    assert_eq!(read(&mut target, &mut adi, &mut mem, 0x40), Err(4));
    assert_eq!(target.log.last(), Some(&Scan::Finish));
    assert!(!target.log[from..].contains(&Scan::Ir(Port::DP)));
    assert_eq!(mem.tar(), Some(0x40));
}

#[test]
fn queued_read_overlaps_with_the_wait() {
    let mut target = Target::new();
    target.memory.insert(0x40, 0x4040);
    let mut adi = target.start();
    let mut mem = target.attach(&mut adi);
    let first = mem.write_csw(&mut adi, 0x2300_0042);
    assert_eq!(target.run(&mut adi, &mut mem, first), Ok(MemValue::Unit));
    let from = target.log.len();
    let first = mem.queue_read(&mut adi, 0x40);
    assert_eq!(target.run(&mut adi, &mut mem, first), Ok(MemValue::Queued(true)));
    assert_eq!(
        target.log[from..],
        [Scan::Write { reg: 1, val: 0x40 }, Scan::Request { reg: 3 }, Scan::QueueRead]
    );
    let first = mem.finish_read(&mut adi);
    assert_eq!(target.run(&mut adi, &mut mem, first), Ok(MemValue::Word(0x4040)));
}

#[test]
fn queued_read_forgets_tar_when_refused() {
    let mut target = Target::new();
    let mut adi = target.start();
    let mut mem = target.attach(&mut adi);
    target.room = 0;
    let first = mem.queue_read(&mut adi, 0x40);
    assert_eq!(target.run(&mut adi, &mut mem, first), Ok(MemValue::Queued(false)));
    assert_eq!(mem.tar(), None);
    target.room = 1;
    let from = target.log.len();
    let first = mem.queue_read(&mut adi, 0x40);
    assert_eq!(target.run(&mut adi, &mut mem, first), Ok(MemValue::Queued(true)));
    assert_eq!(target.writes_of(1, from), vec![0x40]);
    assert_eq!(mem.tar(), Some(0x40));
}

#[test]
fn finished_read_reports_its_acknowledgement() {
    let mut target = Target::new();
    let mut adi = target.start();
    let mut mem = target.attach(&mut adi);
    let first = mem.queue_read(&mut adi, 0x40);
    target.waits.insert((Port::AP, 3), 1);
    assert_eq!(target.run(&mut adi, &mut mem, first), Ok(MemValue::Queued(true)));
    let first = mem.finish_read(&mut adi);
    assert_eq!(target.run(&mut adi, &mut mem, first), Err(1));
}

#[test]
fn read_multi_reads_one_address() {
    let mut target = Target::new();
    target.memory.insert(0x40, 9);
    let mut adi = target.start();
    let mut mem = target.attach(&mut adi);
    let first = mem.read_multi(&mut adi, 0x40, 3, false, true);
    assert_eq!(target.run(&mut adi, &mut mem, first), Ok(MemValue::Words(vec![9, 9, 9])));
    assert_eq!(mem.tar(), Some(0x40));
    assert_eq!(target.tar, 0x40);
}

#[test]
fn read_multi_drops_waits() {
    let mut target = Target::new();
    target.memory.insert(0x40, 9);
    let mut adi = target.start();
    let mut mem = target.attach(&mut adi);
    let first = mem.write_csw(&mut adi, 0x2300_0042);
    assert_eq!(target.run(&mut adi, &mut mem, first), Ok(MemValue::Unit));
    assert_eq!(read(&mut target, &mut adi, &mut mem, 0x40), Ok(9));
    target.waits.insert((Port::AP, 3), 2);
    let first = mem.read_multi(&mut adi, 0x40, 5, false, false);
    assert_eq!(target.run(&mut adi, &mut mem, first), Ok(MemValue::Words(vec![9, 9, 9])));
}

#[test]
fn read_multi_stops_at_a_fault() {
    let mut target = Target::new();
    let mut adi = target.start();
    let mut mem = target.attach(&mut adi);
    target.fault = Some((Port::AP, 3));
    let from = target.log.len();
    let first = mem.read_block(&mut adi, 0x40, 3, true);
    assert_eq!(target.run(&mut adi, &mut mem, first), Err(4));
    assert!(!target.log[from..].contains(&Scan::Ir(Port::DP)));
    assert_eq!(mem.tar(), None);
    target.fault = None;
    let first = mem.read_multi(&mut adi, 0x40, 3, false, true);
    target.fault = Some((Port::AP, 3));
    assert_eq!(target.run(&mut adi, &mut mem, first), Err(4));
    assert_eq!(mem.tar(), Some(0x40));
}

#[test]
fn read_multi_returns_what_the_queue_took() {
    let mut target = Target::new();
    for i in 0..8u32 {
        target.memory.insert(4 * i, i + 1);
    }
    target.tar = 0x1000;
    let mut adi = target.start();
    let mut mem = target.attach(&mut adi);
    target.room = 3;
    let first = mem.read_block(&mut adi, 0, 8, false);
    assert_eq!(target.run(&mut adi, &mut mem, first), Ok(MemValue::Words(vec![1, 2, 3])));
    assert_eq!(mem.tar(), Some(32));
}

#[test]
fn block_write() {
    let mut target = Target::new();
    target.csw = 0x2300_0042;
    let mut adi = target.start();
    let mut mem = target.attach(&mut adi);
    let from = target.log.len();
    let first = mem.write_block(&mut adi, 0x2000_0000, &[0xa, 0xb, 0xc], true);
    assert_eq!(target.run(&mut adi, &mut mem, first), Ok(MemValue::Unit));
    assert_eq!(
        target.log[from..],
        [
            Scan::Write { reg: 0, val: 0x2300_0052 },
            Scan::ReadDr,
            Scan::Write { reg: 1, val: 0x2000_0000 },
            Scan::ReadDr,
            Scan::Write { reg: 3, val: 0xa },
            Scan::Write { reg: 3, val: 0xb },
            Scan::Write { reg: 3, val: 0xc },
            Scan::Ir(Port::DP),
            Scan::Request { reg: 1 },
            Scan::QueueRead,
            Scan::Finish,
        ]
    );
    assert_eq!(target.memory.get(&0x2000_0000), Some(&0xa));
    assert_eq!(target.memory.get(&0x2000_0004), Some(&0xb));
    assert_eq!(target.memory.get(&0x2000_0008), Some(&0xc));
    assert_eq!(mem.tar(), Some(0x2000_000c));
    assert_eq!(target.tar, 0x2000_000c);
}

#[test]
fn shadow_of_tar_wraps_with_the_register() {
    let mut target = Target::new();
    let mut adi = target.start();
    let mut mem = target.attach(&mut adi);
    let first = mem.write_block(&mut adi, 0xffff_fffc, &[1, 2], false);
    assert_eq!(target.run(&mut adi, &mut mem, first), Ok(MemValue::Unit));
    assert_eq!(mem.tar(), Some(4));
    assert_eq!(target.tar, 4);
}

#[test]
fn a_second_port_selects_itself() {
    let mut target = Target::new();
    let mut adi = target.start();
    let (mut mem, first) = MemAP::new(&mut adi, 1);
    let from = target.log.len();
    let mut turn = first;
    loop {
        let reply = target.perform(&turn.scans);
        match turn.poll {
            Poll::Ready(_) => break,
            Poll::Pending(task) => turn = step(&mut mem, &mut adi, task, reply.unwrap()),
        }
    }
    assert_eq!(target.log[from], Scan::Write { reg: 2, val: 0x0100_0000 });
    assert_eq!(mem.apsel(), 1);
}

fn step(mem: &mut MemAP, adi: &mut ArmDebugInterface, task: MemTask, reply: Reply) -> MemTurn {
    assert!(task.takes(&reply));
    mem.step(adi, task, reply)
}

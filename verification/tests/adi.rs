use jtag_adi::adi::{PipeTask, QueueTask, ReadTask, WriteTask, POWER_UP};
use jtag_adi::{ArmDebugInterface, DPReg, Poll, Port, Reply, Scan, Turn};
use std::collections::VecDeque;

/// A transport that records what it is asked to shift and answers from a script.
struct Mock {
    log: Vec<Scan>,
    answers: VecDeque<(u8, u32)>,
    room: usize,
    queued: usize,
}

impl Mock {
    fn new(answers: &[(u8, u32)]) -> Mock {
        Mock { log: Vec::new(), answers: answers.iter().copied().collect(), room: usize::MAX, queued: 0 }
    }

    fn shifted(&mut self) -> Reply {
        let (ack, data) = self.answers.pop_front().unwrap_or((2, 0));
        let word = ((data as u64) << 3) | ack as u64;
        Reply::shifted(&word.to_le_bytes()[0..5])
    }

    fn offer(&mut self) -> Reply {
        if self.queued < self.room {
            self.queued += 1;
            Reply::Queued(true)
        } else {
            Reply::Queued(false)
        }
    }

    fn perform(&mut self, scans: &[Scan]) -> Option<Reply> {
        let mut reply = None;
        for scan in scans {
            assert!(reply.is_none(), "only the last scan of a turn is answered");
            self.log.push(*scan);
            reply = match scan {
                Scan::Ir(_) | Scan::Write { .. } | Scan::Request { .. } => None,
                Scan::ReadDr => Some(self.shifted()),
                Scan::QueueRead | Scan::QueueRequest { .. } => Some(self.offer()),
                Scan::Finish => {
                    self.queued -= 1;
                    Some(self.shifted())
                }
            };
        }
        reply
    }
}

fn run<T, R>(mock: &mut Mock, first: Turn<T, R>, mut step: impl FnMut(T, Reply) -> Turn<T, R>) -> R {
    let mut turn = first;
    loop {
        let reply = mock.perform(&turn.scans);
        match turn.poll {
            Poll::Ready(done) => {
                assert!(reply.is_none(), "the last turn leaves nothing to answer");
                return done;
            }
            Poll::Pending(task) => turn = step(task, reply.expect("a pending turn ends with a question")),
        }
    }
}

fn write(mock: &mut Mock, adi: &mut ArmDebugInterface, first: Turn<WriteTask, Result<(), u8>>) -> Result<(), u8> {
    run(mock, first, |task, reply| {
        assert!(task.takes(&reply));
        adi.step_write(task, reply)
    })
}

fn read(mock: &mut Mock, adi: &mut ArmDebugInterface, first: Turn<ReadTask, Result<u32, u8>>) -> Result<u32, u8> {
    run(mock, first, |task, reply| {
        assert!(task.takes(&reply));
        adi.step_read(task, reply)
    })
}

fn queue(mock: &mut Mock, adi: &mut ArmDebugInterface, first: Turn<QueueTask, Result<bool, u8>>) -> Result<bool, u8> {
    run(mock, first, |task, reply| {
        assert!(task.takes(&reply));
        adi.step_queue(task, reply)
    })
}

fn pipelined(
    mock: &mut Mock,
    adi: &mut ArmDebugInterface,
    first: Turn<PipeTask, Vec<Result<u32, u8>>>,
) -> Vec<Result<u32, u8>> {
    run(mock, first, |task, reply| {
        assert!(task.takes(&reply));
        adi.step_pipelined(task, reply)
    })
}

/// An engine that went through its power-up sequence on a fresh transport.
fn engine() -> ArmDebugInterface {
    let mut mock = Mock::new(&[]);
    let (mut adi, first) = ArmDebugInterface::new();
    assert_eq!(write(&mut mock, &mut adi, first), Ok(()));
    adi
}

#[test]
fn power_up_sequence() {
    let mut mock = Mock::new(&[(2, 0), (2, 0), (2, 0)]);
    let (mut adi, first) = ArmDebugInterface::new();
    assert_eq!(adi.bank(), None);
    assert_eq!(write(&mut mock, &mut adi, first), Ok(()));
    assert_eq!(
        mock.log,
        vec![
            Scan::Ir(Port::DP),
            Scan::Write { reg: 2, val: 0 },
            Scan::ReadDr,
            Scan::Write { reg: 0, val: 0 },
            Scan::ReadDr,
            Scan::Write { reg: 1, val: 0x5100_0022 },
            Scan::ReadDr,
        ]
    );
    assert_eq!(POWER_UP, 1 << 30 | 1 << 28 | 1 << 24 | 1 << 5 | 1 << 1);
    assert_eq!(adi.bank(), Some(0));
    assert_eq!(adi.ir(), Some(Port::DP));
}

#[test]
fn power_up_stops_at_a_fault() {
    let mut mock = Mock::new(&[(2, 0), (4, 0)]);
    let (mut adi, first) = ArmDebugInterface::new();
    assert_eq!(write(&mut mock, &mut adi, first), Err(4));
    assert_eq!(mock.log.len(), 5);
}

#[test]
fn ir_is_shifted_once_per_port() {
    let mut adi = engine();
    let mut mock = Mock::new(&[]);
    let first = adi.write_adi_nobank(Port::AP, 0, 1, false);
    assert_eq!(write(&mut mock, &mut adi, first), Ok(()));
    let first = adi.write_adi_nobank(Port::AP, 1, 2, false);
    assert_eq!(write(&mut mock, &mut adi, first), Ok(()));
    let first = adi.read_adi_nobank(Port::AP, 3);
    assert_eq!(read(&mut mock, &mut adi, first), Ok(0));
    let first = adi.read_adi_nobank(Port::DP, 1);
    assert_eq!(read(&mut mock, &mut adi, first), Ok(0));
    assert_eq!(
        mock.log,
        vec![
            Scan::Ir(Port::AP),
            Scan::Write { reg: 0, val: 1 },
            Scan::Write { reg: 1, val: 2 },
            Scan::Request { reg: 3 },
            Scan::QueueRead,
            Scan::Finish,
            Scan::Ir(Port::DP),
            Scan::Request { reg: 1 },
            Scan::QueueRead,
            Scan::Finish,
        ]
    );
}

#[test]
fn select_is_written_once() {
    let mut adi = engine();
    let mut mock = Mock::new(&[]);
    let first = adi.bank_select(1, 2, 3);
    assert_eq!(write(&mut mock, &mut adi, first), Ok(()));
    assert_eq!(mock.log, vec![Scan::Write { reg: 2, val: 0x0100_0023 }, Scan::ReadDr]);
    assert_eq!(adi.bank(), Some(0x0100_0023));
    let first = adi.bank_select(1, 2, 3);
    assert_eq!(write(&mut mock, &mut adi, first), Ok(()));
    assert_eq!(mock.log.len(), 2);
    for (apsel, apbank, dpbank) in [(0, 2, 3), (1, 0, 3), (1, 2, 0)] {
        let mut adi = engine();
        let mut mock = Mock::new(&[]);
        let first = adi.bank_select(1, 2, 3);
        assert_eq!(write(&mut mock, &mut adi, first), Ok(()));
        let first = adi.bank_select(apsel, apbank, dpbank);
        assert_eq!(write(&mut mock, &mut adi, first), Ok(()));
        assert_eq!(mock.log.len(), 4);
        assert_eq!(mock.log[2], Scan::Write { reg: 2, val: (apsel << 24) | (apbank << 4) | dpbank });
    }
}

#[test]
fn refused_select_forgets_the_bank() {
    let mut adi = engine();
    let mut mock = Mock::new(&[(4, 0)]);
    let first = adi.bank_select(0, 1, 0);
    assert_eq!(write(&mut mock, &mut adi, first), Err(4));
    assert_eq!(adi.bank(), None);
    let mut mock = Mock::new(&[]);
    let first = adi.bank_select(0, 0, 0);
    assert_eq!(write(&mut mock, &mut adi, first), Ok(()));
    assert_eq!(mock.log, vec![Scan::Write { reg: 2, val: 0 }, Scan::ReadDr]);
}

#[test]
fn read_then_write_selects_twice() {
    let mut adi = engine();
    let mut mock = Mock::new(&[]);
    let first = adi.read_adi(0, Port::AP, 0x3f);
    assert_eq!(read(&mut mock, &mut adi, first), Ok(0));
    let first = adi.write_adi(0, Port::AP, 0x3f, 7);
    assert_eq!(write(&mut mock, &mut adi, first), Ok(()));
    let first = adi.read_adi(0, Port::AP, 0x3f);
    assert_eq!(read(&mut mock, &mut adi, first), Ok(0));
    let selects: Vec<u32> = mock
        .log
        .iter()
        .filter_map(|scan| match scan {
            Scan::Write { reg: 2, val } => Some(*val),
            _ => None,
        })
        .collect();
    assert_eq!(selects, vec![0xf0, 0xff, 0xf0]);
}

#[test]
fn bank_zero_needs_no_second_select() {
    let mut adi = engine();
    let mut mock = Mock::new(&[]);
    let first = adi.read_adi(0, Port::AP, 3);
    assert_eq!(read(&mut mock, &mut adi, first), Ok(0));
    let first = adi.write_adi(0, Port::AP, 3, 7);
    assert_eq!(write(&mut mock, &mut adi, first), Ok(()));
    assert!(!mock.log.iter().any(|scan| matches!(scan, Scan::Write { reg: 2, .. })));
}

#[test]
fn checked_write_retries_on_wait() {
    let mut adi = engine();
    let mut mock = Mock::new(&[(1, 0), (1, 0), (2, 0)]);
    let first = adi.write_adi_nobank(Port::AP, 3, 0xaa, true);
    assert_eq!(write(&mut mock, &mut adi, first), Ok(()));
    assert_eq!(
        mock.log,
        vec![
            Scan::Ir(Port::AP),
            Scan::Write { reg: 3, val: 0xaa },
            Scan::ReadDr,
            Scan::Write { reg: 3, val: 0xaa },
            Scan::ReadDr,
            Scan::Write { reg: 3, val: 0xaa },
            Scan::ReadDr,
        ]
    );
}

#[test]
fn unchecked_write_asks_nothing() {
    let mut adi = engine();
    let first = adi.write_adi_nocheck(0, Port::AP, 1, 0x1000);
    assert_eq!(first.scans, vec![Scan::Ir(Port::AP), Scan::Write { reg: 1, val: 0x1000 }]);
    assert_eq!(first.poll, Poll::Ready(Ok(())));
}

#[test]
fn fault_ends_the_operation() {
    let mut adi = engine();
    let mut mock = Mock::new(&[(4, 0)]);
    let first = adi.write_adi(0, Port::AP, 0, 1);
    assert_eq!(write(&mut mock, &mut adi, first), Err(4));
    assert_eq!(mock.log, vec![Scan::Ir(Port::AP), Scan::Write { reg: 0, val: 1 }, Scan::ReadDr]);
    let mut mock = Mock::new(&[(4, 0x1234)]);
    let first = adi.read_adi(0, Port::AP, 0);
    assert_eq!(read(&mut mock, &mut adi, first), Err(4));
    assert_eq!(mock.log, vec![Scan::Request { reg: 0 }, Scan::QueueRead, Scan::Finish]);
}

#[test]
fn read_reports_wait_and_unknown_acks() {
    let mut adi = engine();
    for ack in [0u8, 1, 3, 5, 6, 7] {
        let mut mock = Mock::new(&[(ack, 0xffff_ffff)]);
        let first = adi.read_adi(0, Port::DP, DPReg::CtrlStat.index());
        assert_eq!(read(&mut mock, &mut adi, first), Err(ack));
    }
    let mut mock = Mock::new(&[(2, 0xf000_0040)]);
    let first = adi.read_adi(0, Port::DP, DPReg::CtrlStat.index());
    assert_eq!(read(&mut mock, &mut adi, first), Ok(0xf000_0040));
}

#[test]
fn queued_read_is_finished_later() {
    let mut adi = engine();
    let mut mock = Mock::new(&[(2, 0x55)]);
    let first = adi.queue_read_adi(0, Port::AP, 3);
    assert_eq!(queue(&mut mock, &mut adi, first), Ok(true));
    assert_eq!(mock.log, vec![Scan::Ir(Port::AP), Scan::Request { reg: 3 }, Scan::QueueRead]);
    let first = adi.finish_read();
    assert_eq!(read(&mut mock, &mut adi, first), Ok(0x55));
    assert_eq!(mock.log.last(), Some(&Scan::Finish));
}

#[test]
fn queued_read_reports_a_full_queue() {
    let mut adi = engine();
    let mut mock = Mock::new(&[]);
    mock.room = 0;
    let first = adi.queue_read_adi_nobank(Port::AP, 3);
    assert_eq!(queue(&mut mock, &mut adi, first), Ok(false));
}

#[test]
fn pipelined_read_overlaps_requests() {
    let mut adi = engine();
    let mut mock = Mock::new(&[(2, 0x11), (1, 0), (4, 0), (2, 0x44)]);
    let first = adi.read_adi_pipelined(0, Port::AP, &[0, 1, 2, 3]);
    assert_eq!(pipelined(&mut mock, &mut adi, first), vec![Ok(0x11), Err(1), Err(4), Ok(0x44)]);
    assert_eq!(
        mock.log,
        vec![
            Scan::Ir(Port::AP),
            Scan::Request { reg: 0 },
            Scan::QueueRequest { reg: 1 },
            Scan::QueueRequest { reg: 2 },
            Scan::QueueRequest { reg: 3 },
            Scan::QueueRead,
            Scan::Finish,
            Scan::Finish,
            Scan::Finish,
            Scan::Finish,
        ]
    );
}

#[test]
fn pipelined_read_stops_at_a_full_queue() {
    for (room, got) in [(0usize, 0usize), (1, 1), (2, 2), (3, 3), (4, 4), (9, 4)] {
        let mut adi = engine();
        let mut mock = Mock::new(&[]);
        mock.room = room;
        let first = adi.read_adi_pipelined(0, Port::AP, &[3, 3, 3, 3]);
        assert_eq!(pipelined(&mut mock, &mut adi, first), vec![Ok(0); got]);
        assert_eq!(mock.queued, 0);
    }
    let mut adi = engine();
    let mut mock = Mock::new(&[(2, 9)]);
    let first = adi.read_adi_pipelined(0, Port::AP, &[3]);
    assert_eq!(pipelined(&mut mock, &mut adi, first), vec![Ok(9)]);
    assert_eq!(mock.log, vec![Scan::Ir(Port::AP), Scan::Request { reg: 3 }, Scan::QueueRead, Scan::Finish]);
}

#[test]
fn pipelined_read_reports_a_refused_select() {
    let mut adi = engine();
    let mut mock = Mock::new(&[(4, 0)]);
    let first = adi.read_adi_pipelined(0, Port::AP, &[4, 5]);
    assert_eq!(pipelined(&mut mock, &mut adi, first), vec![Err(4)]);
    assert_eq!(mock.log, vec![Scan::Write { reg: 2, val: 0x10 }, Scan::ReadDr]);
}

#[test]
fn pipelined_write_checks_nothing() {
    let mut adi = engine();
    let mut mock = Mock::new(&[]);
    let first = adi.write_adi_pipelined(0, Port::AP, &[(7, 1), (6, 2), (4, 3)]);
    assert_eq!(write(&mut mock, &mut adi, first), Ok(()));
    assert_eq!(
        mock.log,
        vec![
            Scan::Write { reg: 2, val: 0x11 },
            Scan::ReadDr,
            Scan::Ir(Port::AP),
            Scan::Write { reg: 3, val: 1 },
            Scan::Write { reg: 2, val: 2 },
            Scan::Write { reg: 0, val: 3 },
        ]
    );
}

#[test]
fn register_numbers_keep_two_bits_on_the_wire() {
    let mut adi = engine();
    let first = adi.write_adi_nobank(Port::DP, 0xfd, 5, false);
    assert_eq!(first.scans, vec![Scan::Write { reg: 1, val: 5 }]);
    let first = adi.read_adi_nobank(Port::DP, 0x06);
    assert_eq!(first.scans, vec![Scan::Request { reg: 2 }, Scan::QueueRead]);
}

#[test]
fn pending_operations_take_the_answers_they_asked_for() {
    let shifted = Reply::Shifted { ack: 2, data: 0 };
    let mut adi = engine();
    let first = adi.read_adi_nobank(Port::AP, 0);
    let Poll::Pending(task) = first.poll else { panic!("a read waits for its data") };
    assert_eq!(task, ReadTask::Queue);
    assert!(task.takes(&Reply::Queued(true)));
    assert!(!task.takes(&Reply::Queued(false)));
    assert!(!task.takes(&shifted));
    assert!(ReadTask::Data.takes(&shifted));
    assert!(!ReadTask::Data.takes(&Reply::Queued(true)));
    let first = adi.queue_read_adi_nobank(Port::AP, 0);
    let Poll::Pending(task) = first.poll else { panic!("a queued read waits for the queue") };
    assert!(task.takes(&Reply::Queued(true)) && task.takes(&Reply::Queued(false)));
    assert!(!task.takes(&shifted));
    let first = adi.write_adi_nobank(Port::AP, 0, 1, true);
    let Poll::Pending(task) = first.poll else { panic!("a checked write waits for its acknowledgement") };
    assert!(task.takes(&shifted));
    assert!(!task.takes(&Reply::Queued(true)));
    let first = adi.read_adi_pipelined(0, Port::AP, &[0, 1]);
    let Poll::Pending(task) = first.poll else { panic!("a pipelined read waits for the queue") };
    assert!(task.takes(&Reply::Queued(false)));
    assert!(!task.takes(&shifted));
    let stray = PipeTask { phase: jtag_adi::adi::PipePhase::Queue { next: 5 }, regs: vec![0, 1], got: vec![] };
    assert!(!stray.takes(&Reply::Queued(true)));
}

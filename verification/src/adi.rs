//! The transaction engine: register reads and writes on the debug port and the
//! access ports, turned into scans.
//!
//! The engine remembers what the target was last told (the instruction in IR
//! and the value of SELECT) and shifts neither again while it still stands. An
//! operation is begun by the method that bears its name and, while it is
//! pending, carried on by the `step_*` method of its kind, one answer at a
//! time.

use crate::link::{Poll, Port, Reply, Scan, Step, Turn};
use crate::wire::{ACK_OK, ACK_WAIT};
use vstd::prelude::*;

verus! {

/// Registers of the debug port.
#[derive(Clone, Copy, PartialEq, Eq, Debug, Structural)]
pub enum DPReg {
    Abort,
    CtrlStat,
    Select,
    Rdbuff,
}

impl DPReg {
    /// The register's number within its bank.
    pub open spec fn addr(self) -> u8 {
        match self {
            DPReg::Abort => 0,
            DPReg::CtrlStat => 1,
            DPReg::Select => 2,
            DPReg::Rdbuff => 3,
        }
    }

    /// The register's number within its bank.
    pub fn index(self) -> (reg: u8)
        ensures
            reg == self.addr(),
    {
        match self {
            DPReg::Abort => 0,
            DPReg::CtrlStat => 1,
            DPReg::Select => 2,
            DPReg::Rdbuff => 3,
        }
    }
}

/// What is written to CTRL/STAT when the engine starts: bits 30 and 28 ask for
/// system and debug power, bits 24, 5 and 1 clear the sticky flags.
pub const POWER_UP: u32 = 0x5100_0022;

/// The ADIv5 transaction engine.
#[derive(Debug)]
pub struct ArmDebugInterface {
    lastbank: Option<u32>,
    lastir: Option<Port>,
}

/// What the engine believes of the target.
pub ghost struct AdiView {
    /// The value of SELECT, where it is known.
    pub bank: Option<u32>,
    /// The port whose instruction is in IR, where one was shifted.
    pub ir: Option<Port>,
}

impl View for ArmDebugInterface {
    type V = AdiView;

    closed spec fn view(&self) -> AdiView {
        AdiView { bank: self.lastbank, ir: self.lastir }
    }
}

/// What follows a bank selection in an operation that writes.
#[derive(Clone, Copy, PartialEq, Eq, Debug, Structural)]
pub enum WriteJob {
    /// Nothing: the selection was all that was asked for.
    Nothing,
    /// One register write.
    Single { port: Port, reg: u8, val: u32, check: bool },
    /// The items of the operation, written one after another without a look
    /// at their acknowledgements.
    Stream { port: Port },
    /// The rest of the power-up sequence: ABORT, then CTRL/STAT.
    PowerUp,
}

/// What follows a checked write once it is acknowledged.
#[derive(Clone, Copy, PartialEq, Eq, Debug, Structural)]
pub enum WriteNext {
    /// Nothing: the operation is over.
    Finish,
    /// The write of CTRL/STAT that ends the power-up sequence.
    CtrlStat,
}

/// The scan whose answer a pending write is waiting for.
#[derive(Clone, Copy, PartialEq, Eq, Debug, Structural)]
pub enum WritePhase {
    /// SELECT was written with `bank`; `job` follows once it is acknowledged.
    Select { bank: u32, job: WriteJob },
    /// Register `reg` of `port` was written with `val`.
    Ack { port: Port, reg: u8, val: u32, next: WriteNext },
}

/// An operation that writes, between two turns.
#[derive(Debug, PartialEq, Eq)]
pub struct WriteTask {
    pub phase: WritePhase,
    /// Register and value of each write of a stream; empty otherwise.
    pub items: Vec<(u8, u32)>,
}

/// A pending write as contracts see it.
pub ghost struct WriteTaskView {
    pub phase: WritePhase,
    pub items: Seq<(u8, u32)>,
}

impl View for WriteTask {
    type V = WriteTaskView;

    open spec fn view(&self) -> WriteTaskView {
        WriteTaskView { phase: self.phase, items: self.items@ }
    }
}

impl WriteTaskView {
    /// A pending write takes the register's contents and nothing else.
    pub open spec fn accepts(self, reply: Reply) -> bool {
        reply is Shifted
    }
}

/// A turn of an operation that writes.
pub type WriteTurn = Turn<WriteTask, Result<(), u8>>;

/// A turn of an operation that writes, as contracts see it.
pub type WriteStep = Step<WriteTaskView, Result<(), u8>>;

impl View for Turn<WriteTask, Result<(), u8>> {
    type V = WriteStep;

    open spec fn view(&self) -> WriteStep {
        Step {
            scans: self.scans@,
            poll: match self.poll {
                Poll::Pending(task) => Poll::Pending(task@),
                Poll::Ready(done) => Poll::Ready(done),
            },
        }
    }
}

/// The scan whose answer a pending read is waiting for.
#[derive(Clone, Copy, PartialEq, Eq, Debug, Structural)]
pub enum ReadTask {
    /// SELECT was written with `bank`; the read of `reg` on `port` follows.
    Select { bank: u32, port: Port, reg: u8 },
    /// The request was shifted and the shift that fetches its answer offered
    /// to the transport's queue.
    Queue,
    /// The answer is being fetched.
    Data,
}

impl ReadTask {
    /// A read takes the register's contents while it waits for SELECT or for
    /// its data, and in between nothing but the news that its fetch was queued.
    pub open spec fn accepts(self, reply: Reply) -> bool {
        match self {
            ReadTask::Select { .. } => reply is Shifted,
            ReadTask::Queue => reply == Reply::Queued(true),
            ReadTask::Data => reply is Shifted,
        }
    }

    /// Whether `reply` is an answer that the operation can go on with.
    pub fn takes(&self, reply: &Reply) -> (ok: bool)
        ensures
            ok == self.accepts(*reply),
    {
        match (self, reply) {
            (ReadTask::Select { .. }, Reply::Shifted { .. }) => true,
            (ReadTask::Queue, Reply::Queued(taken)) => *taken,
            (ReadTask::Data, Reply::Shifted { .. }) => true,
            _ => false,
        }
    }
}

/// A turn of a read.
pub type ReadTurn = Turn<ReadTask, Result<u32, u8>>;

/// A turn of a read, as contracts see it.
pub type ReadStep = Step<ReadTask, Result<u32, u8>>;

impl View for Turn<ReadTask, Result<u32, u8>> {
    type V = ReadStep;

    open spec fn view(&self) -> ReadStep {
        Step { scans: self.scans@, poll: self.poll }
    }
}

/// The scan whose answer a pending queued read is waiting for.
#[derive(Clone, Copy, PartialEq, Eq, Debug, Structural)]
pub enum QueueTask {
    /// SELECT was written with `bank`; the request for `reg` on `port` follows.
    Select { bank: u32, port: Port, reg: u8 },
    /// The request was shifted and the shift that fetches its answer offered
    /// to the transport's queue.
    Queue,
}

impl QueueTask {
    /// A queued read takes the register's contents while it waits for SELECT,
    /// and then the transport's word on its queue.
    pub open spec fn accepts(self, reply: Reply) -> bool {
        match self {
            QueueTask::Select { .. } => reply is Shifted,
            QueueTask::Queue => reply is Queued,
        }
    }

    /// Whether `reply` is an answer that the operation can go on with.
    pub fn takes(&self, reply: &Reply) -> (ok: bool)
        ensures
            ok == self.accepts(*reply),
    {
        match (self, reply) {
            (QueueTask::Select { .. }, Reply::Shifted { .. }) => true,
            (QueueTask::Queue, Reply::Queued(_)) => true,
            _ => false,
        }
    }
}

/// A turn of a queued read.
pub type QueueTurn = Turn<QueueTask, Result<bool, u8>>;

/// A turn of a queued read, as contracts see it.
pub type QueueStep = Step<QueueTask, Result<bool, u8>>;

impl View for Turn<QueueTask, Result<bool, u8>> {
    type V = QueueStep;

    open spec fn view(&self) -> QueueStep {
        Step { scans: self.scans@, poll: self.poll }
    }
}

/// The scan whose answer a pending pipelined read is waiting for.
#[derive(Clone, Copy, PartialEq, Eq, Debug, Structural)]
pub enum PipePhase {
    /// SELECT was written with `bank`; the requests on `port` follow.
    Select { bank: u32, port: Port },
    /// The request for register number `next` of the list was offered to the
    /// transport's queue, after those before it were taken.
    Queue { next: usize },
    /// Every request was taken, and the shift that fetches the last answer
    /// offered to the queue.
    Last,
    /// The oldest of `left` queued answers is being fetched.
    Drain { left: usize },
}

/// A pipelined read between two turns.
#[derive(Debug, PartialEq, Eq)]
pub struct PipeTask {
    pub phase: PipePhase,
    /// The registers to read, in order.
    pub regs: Vec<u8>,
    /// The answers fetched so far.
    pub got: Vec<Result<u32, u8>>,
}

/// A pending pipelined read as contracts see it.
pub ghost struct PipeTaskView {
    pub phase: PipePhase,
    pub regs: Seq<u8>,
    pub got: Seq<Result<u32, u8>>,
}

impl View for PipeTask {
    type V = PipeTaskView;

    open spec fn view(&self) -> PipeTaskView {
        PipeTaskView { phase: self.phase, regs: self.regs@, got: self.got@ }
    }
}

impl PipeTaskView {
    /// Whether the task is one that a pipelined read can be in.
    pub open spec fn wf(self) -> bool {
        &&& self.regs.len() <= usize::MAX
        &&& match self.phase {
            PipePhase::Select { .. } => self.regs.len() >= 1 && self.got.len() == 0,
            PipePhase::Queue { next } => 1 <= next < self.regs.len() && self.got.len() == 0,
            PipePhase::Last => self.regs.len() >= 1 && self.got.len() == 0,
            PipePhase::Drain { left } => 1 <= left && left + self.got.len() <= self.regs.len(),
        }
    }

    /// A pipelined read takes the register's contents while it waits for
    /// SELECT or fetches an answer, and the transport's word on its queue
    /// while it offers its requests.
    pub open spec fn accepts(self, reply: Reply) -> bool {
        &&& self.wf()
        &&& match self.phase {
            PipePhase::Select { .. } => reply is Shifted,
            PipePhase::Queue { .. } => reply is Queued,
            PipePhase::Last => reply is Queued,
            PipePhase::Drain { .. } => reply is Shifted,
        }
    }
}

/// A turn of a pipelined read.
pub type PipeTurn = Turn<PipeTask, Vec<Result<u32, u8>>>;

/// A turn of a pipelined read, as contracts see it.
pub type PipeStep = Step<PipeTaskView, Seq<Result<u32, u8>>>;

impl View for Turn<PipeTask, Vec<Result<u32, u8>>> {
    type V = PipeStep;

    open spec fn view(&self) -> PipeStep {
        Step {
            scans: self.scans@,
            poll: match self.poll {
                Poll::Pending(task) => Poll::Pending(task@),
                Poll::Ready(done) => Poll::Ready(done@),
            },
        }
    }
}

/// The turn in which a write ends with `result` and nothing is shifted.
pub open spec fn write_ends(result: Result<(), u8>) -> WriteStep {
    Step { scans: seq![], poll: Poll::Ready(result) }
}

/// The turn in which a read ends with `result` and nothing is shifted.
pub open spec fn read_ends(result: Result<u32, u8>) -> ReadStep {
    Step { scans: seq![], poll: Poll::Ready(result) }
}

/// The turn in which a queued read ends with `result` and nothing is shifted.
pub open spec fn queue_ends(result: Result<bool, u8>) -> QueueStep {
    Step { scans: seq![], poll: Poll::Ready(result) }
}

/// The turn in which a pipelined read ends with `results` and nothing is shifted.
pub open spec fn pipe_ends(results: Seq<Result<u32, u8>>) -> PipeStep {
    Step { scans: seq![], poll: Poll::Ready(results) }
}

/// The value of SELECT that picks access port `apsel`, bank `apbank` of its
/// registers and bank `dpbank` of the debug port's.
pub open spec fn select_word(apsel: u32, apbank: u32, dpbank: u32) -> u32 {
    (apsel << 24) | (apbank << 4) | dpbank
}

/// The bank that holds register `reg` of a port.
pub open spec fn bank_of(reg: u8) -> u32 {
    (reg / 4) as u32
}

/// The engine's belief once `port`'s instruction is in IR.
pub open spec fn addressed(adi: AdiView, port: Port) -> AdiView {
    AdiView { ir: Some(port), ..adi }
}

/// The shift of IR that addressing `port` takes: none while its instruction
/// still stands.
pub open spec fn ir_scans(adi: AdiView, port: Port) -> Seq<Scan> {
    if adi.ir == Some(port) {
        seq![]
    } else {
        seq![Scan::Ir(port)]
    }
}

/// The scans of one attempt to write `val` to register `reg` of `port`.
pub open spec fn write_scans(adi: AdiView, port: Port, reg: u8, val: u32, check: bool) -> Seq<
    Scan,
> {
    let shift = ir_scans(adi, port).push(Scan::Write { reg: reg % 4, val });
    if check {
        shift.push(Scan::ReadDr)
    } else {
        shift
    }
}

/// The writes of a stream.
pub open spec fn stream_scans(items: Seq<(u8, u32)>) -> Seq<Scan> {
    Seq::new(items.len(), |i: int| Scan::Write { reg: items[i].0 % 4, val: items[i].1 })
}

/// Writing one register: the attempt is shifted, and a checked write then
/// waits for its acknowledgement.
pub open spec fn write_issue(
    adi: AdiView,
    port: Port,
    reg: u8,
    val: u32,
    check: bool,
    next: WriteNext,
) -> (AdiView, WriteStep) {
    let scans = write_scans(adi, port, reg, val, check);
    let poll = if check {
        Poll::Pending(WriteTaskView { phase: WritePhase::Ack { port, reg, val, next }, items: seq![] })
    } else {
        Poll::Ready(Ok(()))
    };
    (addressed(adi, port), Step { scans, poll })
}

/// What a writing operation does once the bank it needs is selected.
pub open spec fn write_job(adi: AdiView, job: WriteJob, items: Seq<(u8, u32)>) -> (
    AdiView,
    WriteStep,
) {
    match job {
        WriteJob::Nothing => (adi, Step { scans: seq![], poll: Poll::Ready(Ok(())) }),
        WriteJob::Single { port, reg, val, check } => write_issue(
            adi,
            port,
            reg,
            val,
            check,
            WriteNext::Finish,
        ),
        WriteJob::Stream { port } => (
            addressed(adi, port),
            Step { scans: ir_scans(adi, port) + stream_scans(items), poll: Poll::Ready(Ok(())) },
        ),
        WriteJob::PowerUp => write_issue(
            adi,
            Port::DP,
            DPReg::Abort.addr(),
            0,
            true,
            WriteNext::CtrlStat,
        ),
    }
}

/// Selecting `bank` and going on with `job`: SELECT is written, and waited
/// for, only where the engine does not know it to hold `bank` already.
pub open spec fn select_then(adi: AdiView, bank: u32, job: WriteJob, items: Seq<(u8, u32)>) -> (
    AdiView,
    WriteStep,
) {
    if adi.bank == Some(bank) {
        write_job(adi, job, items)
    } else {
        (
            addressed(adi, Port::DP),
            Step {
                scans: write_scans(adi, Port::DP, DPReg::Select.addr(), bank, true),
                poll: Poll::Pending(
                    WriteTaskView { phase: WritePhase::Select { bank, job }, items },
                ),
            },
        )
    }
}

/// One turn of a pending write on the acknowledgement `reply` carries.
///
/// OK moves on; WAIT shifts the same write again; anything else ends the
/// operation with that code, and a refused SELECT leaves the bank unknown.
pub open spec fn write_step(adi: AdiView, task: WriteTaskView, reply: Reply) -> (
    AdiView,
    WriteStep,
)
    recommends
        task.accepts(reply),
{
    let ack = reply->ack;
    match task.phase {
        WritePhase::Select { bank, job } => {
            if ack == ACK_OK {
                write_job(AdiView { bank: Some(bank), ..adi }, job, task.items)
            } else if ack == ACK_WAIT {
                (
                    addressed(adi, Port::DP),
                    Step {
                        scans: write_scans(adi, Port::DP, DPReg::Select.addr(), bank, true),
                        poll: Poll::Pending(task),
                    },
                )
            } else {
                (
                    AdiView { bank: None, ..adi },
                    Step { scans: seq![], poll: Poll::Ready(Err(ack)) },
                )
            }
        },
        WritePhase::Ack { port, reg, val, next } => {
            if ack == ACK_OK {
                match next {
                    WriteNext::Finish => (adi, Step { scans: seq![], poll: Poll::Ready(Ok(())) }),
                    WriteNext::CtrlStat => write_issue(
                        adi,
                        Port::DP,
                        DPReg::CtrlStat.addr(),
                        POWER_UP,
                        true,
                        WriteNext::Finish,
                    ),
                }
            } else if ack == ACK_WAIT {
                (
                    addressed(adi, port),
                    Step {
                        scans: write_scans(adi, port, reg, val, true),
                        poll: Poll::Pending(task),
                    },
                )
            } else {
                (adi, Step { scans: seq![], poll: Poll::Ready(Err(ack)) })
            }
        },
    }
}

/// The scans of one attempt to write `bank` to SELECT.
pub open spec fn select_scans(adi: AdiView, bank: u32) -> Seq<Scan> {
    write_scans(adi, Port::DP, DPReg::Select.addr(), bank, true)
}

/// The scans that ask for register `reg` of `port` and offer the fetch of the
/// answer to the transport's queue.
pub open spec fn request_scans(adi: AdiView, port: Port, reg: u8) -> Seq<Scan> {
    ir_scans(adi, port).push(Scan::Request { reg: reg % 4 }).push(Scan::QueueRead)
}

/// Fetching the answer of the oldest queued read.
pub open spec fn read_fetch() -> ReadStep {
    Step { scans: seq![Scan::Finish], poll: Poll::Pending(ReadTask::Data) }
}

/// Reading one register: the request is shifted and its fetch queued.
pub open spec fn read_issue(adi: AdiView, port: Port, reg: u8) -> (AdiView, ReadStep) {
    (
        addressed(adi, port),
        Step { scans: request_scans(adi, port, reg), poll: Poll::Pending(ReadTask::Queue) },
    )
}

/// Selecting `bank` and reading register `reg` of `port`.
pub open spec fn read_select(adi: AdiView, bank: u32, port: Port, reg: u8) -> (AdiView, ReadStep) {
    if adi.bank == Some(bank) {
        read_issue(adi, port, reg)
    } else {
        (
            addressed(adi, Port::DP),
            Step {
                scans: select_scans(adi, bank),
                poll: Poll::Pending(ReadTask::Select { bank, port, reg }),
            },
        )
    }
}

/// One turn of a pending read on `reply`.
///
/// A read that waits for SELECT behaves as a write does. Once its fetch is
/// queued it fetches, and what it fetches decides: the data on OK, the
/// acknowledgement as the error otherwise, WAIT included.
pub open spec fn read_step(adi: AdiView, task: ReadTask, reply: Reply) -> (AdiView, ReadStep)
    recommends
        task.accepts(reply),
{
    match task {
        ReadTask::Select { bank, port, reg } => {
            let ack = reply->ack;
            if ack == ACK_OK {
                read_issue(AdiView { bank: Some(bank), ..adi }, port, reg)
            } else if ack == ACK_WAIT {
                (
                    addressed(adi, Port::DP),
                    Step { scans: select_scans(adi, bank), poll: Poll::Pending(task) },
                )
            } else {
                (
                    AdiView { bank: None, ..adi },
                    Step { scans: seq![], poll: Poll::Ready(Err(ack)) },
                )
            }
        },
        ReadTask::Queue => (adi, read_fetch()),
        ReadTask::Data => (
            adi,
            Step {
                scans: seq![],
                poll: Poll::Ready(crate::wire::ack_result(reply->ack, reply->data)),
            },
        ),
    }
}

/// Queueing the read of one register: the request is shifted and its fetch
/// offered to the transport's queue.
pub open spec fn queue_issue(adi: AdiView, port: Port, reg: u8) -> (AdiView, QueueStep) {
    (
        addressed(adi, port),
        Step { scans: request_scans(adi, port, reg), poll: Poll::Pending(QueueTask::Queue) },
    )
}

/// Selecting `bank` and queueing the read of register `reg` of `port`.
pub open spec fn queue_select(adi: AdiView, bank: u32, port: Port, reg: u8) -> (
    AdiView,
    QueueStep,
) {
    if adi.bank == Some(bank) {
        queue_issue(adi, port, reg)
    } else {
        (
            addressed(adi, Port::DP),
            Step {
                scans: select_scans(adi, bank),
                poll: Poll::Pending(QueueTask::Select { bank, port, reg }),
            },
        )
    }
}

/// One turn of a pending queued read on `reply`: it ends with the
/// transport's word on whether the fetch was taken.
pub open spec fn queue_step(adi: AdiView, task: QueueTask, reply: Reply) -> (AdiView, QueueStep)
    recommends
        task.accepts(reply),
{
    match task {
        QueueTask::Select { bank, port, reg } => {
            let ack = reply->ack;
            if ack == ACK_OK {
                queue_issue(AdiView { bank: Some(bank), ..adi }, port, reg)
            } else if ack == ACK_WAIT {
                (
                    addressed(adi, Port::DP),
                    Step { scans: select_scans(adi, bank), poll: Poll::Pending(task) },
                )
            } else {
                (
                    AdiView { bank: None, ..adi },
                    Step { scans: seq![], poll: Poll::Ready(Err(ack)) },
                )
            }
        },
        QueueTask::Queue => (adi, Step { scans: seq![], poll: Poll::Ready(Ok(reply->0)) }),
    }
}

/// Whether every register of a list lies in the bank of the first.
pub open spec fn same_bank(regs: Seq<u8>) -> bool {
    forall|i: int| 0 <= i < regs.len() ==> bank_of(#[trigger] regs[i]) == bank_of(regs[0])
}

/// Beginning a pipelined read: the first request is shifted, and either the
/// second offered to the queue with the fetch of the first answer, or, where
/// there is no second, the fetch alone.
pub open spec fn pipe_issue(adi: AdiView, port: Port, regs: Seq<u8>) -> (AdiView, PipeStep)
    recommends
        regs.len() >= 1,
{
    let first = ir_scans(adi, port).push(Scan::Request { reg: regs[0] % 4 });
    if regs.len() > 1 {
        (
            addressed(adi, port),
            Step {
                scans: first.push(Scan::QueueRequest { reg: regs[1] % 4 }),
                poll: Poll::Pending(
                    PipeTaskView { phase: PipePhase::Queue { next: 1 }, regs, got: seq![] },
                ),
            },
        )
    } else {
        (
            addressed(adi, port),
            Step {
                scans: first.push(Scan::QueueRead),
                poll: Poll::Pending(PipeTaskView { phase: PipePhase::Last, regs, got: seq![] }),
            },
        )
    }
}

/// Selecting `bank` and beginning a pipelined read of `regs` on `port`.
pub open spec fn pipe_select(adi: AdiView, bank: u32, port: Port, regs: Seq<u8>) -> (
    AdiView,
    PipeStep,
)
    recommends
        regs.len() >= 1,
{
    if adi.bank == Some(bank) {
        pipe_issue(adi, port, regs)
    } else {
        (
            addressed(adi, Port::DP),
            Step {
                scans: select_scans(adi, bank),
                poll: Poll::Pending(
                    PipeTaskView { phase: PipePhase::Select { bank, port }, regs, got: seq![] },
                ),
            },
        )
    }
}

/// Fetching `count` queued answers: over at once where there is none.
pub open spec fn pipe_drain(regs: Seq<u8>, count: int) -> PipeStep {
    if count <= 0 {
        Step { scans: seq![], poll: Poll::Ready(seq![]) }
    } else {
        Step {
            scans: seq![Scan::Finish],
            poll: Poll::Pending(
                PipeTaskView {
                    phase: PipePhase::Drain { left: count as usize },
                    regs,
                    got: seq![],
                },
            ),
        }
    }
}

/// One turn of a pending pipelined read on `reply`.
///
/// Requests are offered to the queue until one is refused or none is left;
/// after the last the fetch of its answer is offered too. Then each answer
/// that the queue took is fetched and kept, whatever its acknowledgement. A
/// refused SELECT ends the read with that one error.
pub open spec fn pipe_step(adi: AdiView, task: PipeTaskView, reply: Reply) -> (AdiView, PipeStep)
    recommends
        task.accepts(reply),
{
    match task.phase {
        PipePhase::Select { bank, port } => {
            let ack = reply->ack;
            if ack == ACK_OK {
                pipe_issue(AdiView { bank: Some(bank), ..adi }, port, task.regs)
            } else if ack == ACK_WAIT {
                (
                    addressed(adi, Port::DP),
                    Step { scans: select_scans(adi, bank), poll: Poll::Pending(task) },
                )
            } else {
                (
                    AdiView { bank: None, ..adi },
                    Step { scans: seq![], poll: Poll::Ready(seq![Err(ack)]) },
                )
            }
        },
        PipePhase::Queue { next } => {
            if reply->0 {
                if next + 1 < task.regs.len() {
                    (
                        adi,
                        Step {
                            scans: seq![Scan::QueueRequest { reg: task.regs[next + 1] % 4 }],
                            poll: Poll::Pending(
                                PipeTaskView {
                                    phase: PipePhase::Queue { next: (next + 1) as usize },
                                    ..task
                                },
                            ),
                        },
                    )
                } else {
                    (
                        adi,
                        Step {
                            scans: seq![Scan::QueueRead],
                            poll: Poll::Pending(PipeTaskView { phase: PipePhase::Last, ..task }),
                        },
                    )
                }
            } else {
                (adi, pipe_drain(task.regs, next - 1))
            }
        },
        PipePhase::Last => (
            adi,
            pipe_drain(
                task.regs,
                if reply->0 {
                    task.regs.len() as int
                } else {
                    task.regs.len() - 1
                },
            ),
        ),
        PipePhase::Drain { left } => {
            let got = task.got.push(crate::wire::ack_result(reply->ack, reply->data));
            if left <= 1 {
                (adi, Step { scans: seq![], poll: Poll::Ready(got) })
            } else {
                (
                    adi,
                    Step {
                        scans: seq![Scan::Finish],
                        poll: Poll::Pending(
                            PipeTaskView {
                                phase: PipePhase::Drain { left: (left - 1) as usize },
                                got,
                                ..task
                            },
                        ),
                    },
                )
            }
        },
    }
}

/// Writing `val` to register `reg` of `port` on access port `apsel`: the
/// register's bank is selected on both ports, then the register is written.
pub open spec fn begin_write(
    adi: AdiView,
    apsel: u32,
    port: Port,
    reg: u8,
    val: u32,
    check: bool,
) -> (AdiView, WriteStep) {
    select_then(
        adi,
        select_word(apsel, bank_of(reg), bank_of(reg)),
        WriteJob::Single { port, reg: reg % 4, val, check },
        seq![],
    )
}

/// Writing a stream to `port` on access port `apsel`: the bank of its first
/// register is selected on both ports.
pub open spec fn begin_stream(adi: AdiView, apsel: u32, port: Port, items: Seq<(u8, u32)>) -> (
    AdiView,
    WriteStep,
)
    recommends
        items.len() >= 1,
{
    select_then(
        adi,
        select_word(apsel, bank_of(items[0].0), bank_of(items[0].0)),
        WriteJob::Stream { port },
        items,
    )
}

/// Reading register `reg` of `port` on access port `apsel`: the register's
/// bank is selected there, and bank zero of the debug port.
pub open spec fn begin_read(adi: AdiView, apsel: u32, port: Port, reg: u8) -> (AdiView, ReadStep) {
    read_select(adi, select_word(apsel, bank_of(reg), 0), port, reg % 4)
}

/// Queueing the read of register `reg` of `port` on access port `apsel`.
pub open spec fn begin_queue(adi: AdiView, apsel: u32, port: Port, reg: u8) -> (
    AdiView,
    QueueStep,
) {
    queue_select(adi, select_word(apsel, bank_of(reg), 0), port, reg % 4)
}

/// Reading `regs` of `port` on access port `apsel` in one pipeline.
pub open spec fn begin_pipelined(adi: AdiView, apsel: u32, port: Port, regs: Seq<u8>) -> (
    AdiView,
    PipeStep,
)
    recommends
        regs.len() >= 1,
{
    pipe_select(adi, select_word(apsel, bank_of(regs[0]), 0), port, regs)
}

/// The engine before anything was shifted.
pub open spec fn blank() -> AdiView {
    AdiView { bank: None, ir: None }
}

/// Whether every register of a stream lies in the bank of the first.
pub open spec fn one_bank(items: Seq<(u8, u32)>) -> bool {
    forall|i: int| 0 <= i < items.len() ==> bank_of(#[trigger] items[i].0) == bank_of(items[0].0)
}

proof fn lemma_reg_bits(reg: u8)
    by (bit_vector)
    ensures
        reg & 3 == reg % 4,
        reg >> 2 == reg / 4,
{
}

impl WriteTask {
    /// Whether `reply` is an answer that the operation can go on with.
    pub fn takes(&self, reply: &Reply) -> (ok: bool)
        ensures
            ok == self@.accepts(*reply),
    {
        match reply {
            Reply::Shifted { .. } => true,
            Reply::Queued(_) => false,
        }
    }
}

impl PipeTask {
    /// Whether `reply` is an answer that the operation can go on with.
    pub fn takes(&self, reply: &Reply) -> (ok: bool)
        ensures
            ok == self@.accepts(*reply),
    {
        match (self.phase, reply) {
            (PipePhase::Select { .. }, Reply::Shifted { .. }) => self.regs.len() >= 1
                && self.got.len() == 0,
            (PipePhase::Queue { next }, Reply::Queued(_)) => 1 <= next && next < self.regs.len()
                && self.got.len() == 0,
            (PipePhase::Last, Reply::Queued(_)) => self.regs.len() >= 1 && self.got.len() == 0,
            (PipePhase::Drain { left }, Reply::Shifted { .. }) => 1 <= left && left
                <= self.regs.len() && self.got.len() <= self.regs.len() - left,
            _ => false,
        }
    }
}

/// A copy of `regs` that a task can keep.
fn keep_regs(regs: &[u8]) -> (out: Vec<u8>)
    ensures
        out@ == regs@,
{
    let mut out: Vec<u8> = Vec::with_capacity(regs.len());
    let mut i: usize = 0;
    while i < regs.len()
        invariant
            i <= regs.len(),
            out@ == regs@.take(i as int),
        decreases regs.len() - i,
    {
        out.push(regs[i]);
        i += 1;
    }
    out
}

/// A copy of `items` that a task can keep.
fn keep_items(items: &[(u8, u32)]) -> (out: Vec<(u8, u32)>)
    ensures
        out@ == items@,
{
    let mut out: Vec<(u8, u32)> = Vec::with_capacity(items.len());
    let mut i: usize = 0;
    while i < items.len()
        invariant
            i <= items.len(),
            out@ == items@.take(i as int),
        decreases items.len() - i,
    {
        out.push(items[i]);
        i += 1;
    }
    out
}

/// The value of SELECT for the given access port and banks.
fn pack_select(apsel: u32, apbank: u32, dpbank: u32) -> (bank: u32)
    ensures
        bank == select_word(apsel, apbank, dpbank),
{
    (apsel << 24) | (apbank << 4) | dpbank
}

/// The bank that holds register `reg`.
fn reg_bank(reg: u8) -> (bank: u32)
    ensures
        bank == bank_of(reg),
{
    proof {
        lemma_reg_bits(reg);
    }
    (reg >> 2) as u32
}

/// The number of register `reg` within its bank.
fn reg_index(reg: u8) -> (index: u8)
    ensures
        index == reg % 4,
{
    proof {
        lemma_reg_bits(reg);
    }
    reg & 3
}

impl ArmDebugInterface {
    /// An engine that knows nothing of the target yet, and the first turn of
    /// the sequence that brings the target to a known state: SELECT is set to
    /// zero, ABORT is written with zero, and CTRL/STAT with `POWER_UP`, each
    /// write checked.
    pub fn new() -> (out: (ArmDebugInterface, WriteTurn))
        ensures
            (out.0@, out.1@) == select_then(blank(), 0, WriteJob::PowerUp, seq![]),
    {
        let mut adi = ArmDebugInterface { lastbank: None, lastir: None };
        let turn = adi.select(0, WriteJob::PowerUp, Vec::new(), Vec::new());
        (adi, turn)
    }

    /// The value of SELECT, where the engine knows it.
    pub fn bank(&self) -> (bank: Option<u32>)
        ensures
            bank == self@.bank,
    {
        self.lastbank
    }

    /// The port whose instruction the engine last shifted into IR.
    pub fn ir(&self) -> (ir: Option<Port>)
        ensures
            ir == self@.ir,
    {
        self.lastir
    }

    /// Shifts `port`'s instruction into IR unless it is there already.
    fn write_ir(&mut self, port: Port, scans: &mut Vec<Scan>)
        ensures
            final(self)@ == addressed(old(self)@, port),
            final(scans)@ == old(scans)@ + ir_scans(old(self)@, port),
    {
        let cached = match self.lastir {
            Some(last) => last == port,
            None => false,
        };
        if !cached {
            scans.push(Scan::Ir(port));
            self.lastir = Some(port);
        }
    }

    /// Shifts one attempt of a register write.
    fn attempt(&mut self, port: Port, reg: u8, val: u32, check: bool, scans: &mut Vec<Scan>)
        ensures
            final(self)@ == addressed(old(self)@, port),
            final(scans)@ == old(scans)@ + write_scans(old(self)@, port, reg, val, check),
    {
        proof {
            lemma_reg_bits(reg);
        }
        self.write_ir(port, scans);
        scans.push(Scan::Write { reg: reg & 3, val });
        if check {
            scans.push(Scan::ReadDr);
        }
    }

    /// Shifts a register write and, where it is checked, leaves it pending.
    fn issue(
        &mut self,
        port: Port,
        reg: u8,
        val: u32,
        check: bool,
        next: WriteNext,
        scans: Vec<Scan>,
    ) -> (turn: WriteTurn)
        ensures
            final(self)@ == write_issue(old(self)@, port, reg, val, check, next).0,
            turn@ == write_issue(old(self)@, port, reg, val, check, next).1.after(scans@),
    {
        let mut scans = scans;
        self.attempt(port, reg, val, check, &mut scans);
        let poll = if check {
            Poll::Pending(
                WriteTask { phase: WritePhase::Ack { port, reg, val, next }, items: Vec::new() },
            )
        } else {
            Poll::Ready(Ok(()))
        };
        Turn { scans, poll }
    }

    /// Goes on with what follows the bank selection of a write.
    fn job(&mut self, job: WriteJob, items: Vec<(u8, u32)>, scans: Vec<Scan>) -> (turn: WriteTurn)
        ensures
            final(self)@ == write_job(old(self)@, job, items@).0,
            turn@ == write_job(old(self)@, job, items@).1.after(scans@),
    {
        match job {
            WriteJob::Nothing => {
                Turn { scans, poll: Poll::Ready(Ok(())) }
            },
            WriteJob::Single { port, reg, val, check } => self.issue(
                port,
                reg,
                val,
                check,
                WriteNext::Finish,
                scans,
            ),
            WriteJob::Stream { port } => {
                let mut scans = scans;
                let ghost before = scans@;
                self.write_ir(port, &mut scans);
                let ghost base = scans@;
                let mut i: usize = 0;
                while i < items.len()
                    invariant
                        i <= items.len(),
                        scans@ == base + stream_scans(items@).take(i as int),
                    decreases items.len() - i,
                {
                    let (reg, val) = items[i];
                    proof {
                        lemma_reg_bits(reg);
                    }
                    scans.push(Scan::Write { reg: reg & 3, val });
                    i += 1;
                }
                assert(scans@ =~= before + (ir_scans(old(self)@, port) + stream_scans(items@)));
                Turn { scans, poll: Poll::Ready(Ok(())) }
            },
            WriteJob::PowerUp => self.issue(
                Port::DP,
                DPReg::Abort.index(),
                0,
                true,
                WriteNext::CtrlStat,
                scans,
            ),
        }
    }

    /// Selects `bank`, unless it is selected, and goes on with `job`.
    fn select(&mut self, bank: u32, job: WriteJob, items: Vec<(u8, u32)>, scans: Vec<Scan>) -> (turn:
        WriteTurn)
        ensures
            final(self)@ == select_then(old(self)@, bank, job, items@).0,
            turn@ == select_then(old(self)@, bank, job, items@).1.after(scans@),
    {
        let known = match self.lastbank {
            Some(last) => last == bank,
            None => false,
        };
        if known {
            self.job(job, items, scans)
        } else {
            let mut scans = scans;
            self.attempt(Port::DP, DPReg::Select.index(), bank, true, &mut scans);
            Turn {
                scans,
                poll: Poll::Pending(WriteTask { phase: WritePhase::Select { bank, job }, items }),
            }
        }
    }

    /// Carries a pending write on with the answer to its last scan.
    pub fn step_write(&mut self, task: WriteTask, reply: Reply) -> (turn: WriteTurn)
        requires
            task@.accepts(reply),
        ensures
            (final(self)@, turn@) == write_step(old(self)@, task@, reply),
    {
        let ack = reply_ack(reply);
        let mut scans: Vec<Scan> = Vec::new();
        let WriteTask { phase, items } = task;
        let turn = match phase {
            WritePhase::Select { bank, job } => {
                if ack == ACK_OK {
                    self.lastbank = Some(bank);
                    self.job(job, items, scans)
                } else if ack == ACK_WAIT {
                    self.attempt(Port::DP, DPReg::Select.index(), bank, true, &mut scans);
                    Turn { scans, poll: Poll::Pending(WriteTask { phase, items }) }
                } else {
                    self.lastbank = None;
                    Turn { scans, poll: Poll::Ready(Err(ack)) }
                }
            },
            WritePhase::Ack { port, reg, val, next } => {
                if ack == ACK_OK {
                    match next {
                        WriteNext::Finish => Turn { scans, poll: Poll::Ready(Ok(())) },
                        WriteNext::CtrlStat => self.issue(
                            Port::DP,
                            DPReg::CtrlStat.index(),
                            POWER_UP,
                            true,
                            WriteNext::Finish,
                            scans,
                        ),
                    }
                } else if ack == ACK_WAIT {
                    self.attempt(port, reg, val, true, &mut scans);
                    Turn { scans, poll: Poll::Pending(WriteTask { phase, items }) }
                } else {
                    Turn { scans, poll: Poll::Ready(Err(ack)) }
                }
            },
        };
        turn
    }

    /// Selects access port `apsel`, bank `apbank` of its registers and bank
    /// `dpbank` of the debug port's: SELECT is written, checked, unless the
    /// engine knows it to hold that value. The bank is known afterwards if
    /// the write was acknowledged, and unknown if it was refused.
    pub fn bank_select(&mut self, apsel: u32, apbank: u32, dpbank: u32) -> (turn: WriteTurn)
        ensures
            (final(self)@, turn@) == select_then(
                old(self)@,
                select_word(apsel, apbank, dpbank),
                WriteJob::Nothing,
                seq![],
            ),
    {
        let bank = pack_select(apsel, apbank, dpbank);
        let turn = self.select(bank, WriteJob::Nothing, Vec::new(), Vec::new());
        turn
    }

    /// Writes `val` to register `reg` of `port` in the bank that is selected.
    /// An unchecked write is over once it is shifted; a checked one fetches
    /// its acknowledgement and is shifted again for as long as that is WAIT.
    pub fn write_adi_nobank(&mut self, port: Port, reg: u8, val: u32, check: bool) -> (turn:
        WriteTurn)
        ensures
            (final(self)@, turn@) == write_issue(
                old(self)@,
                port,
                reg,
                val,
                check,
                WriteNext::Finish,
            ),
    {
        let turn = self.issue(port, reg, val, check, WriteNext::Finish, Vec::new());
        turn
    }

    /// Writes `val` to register `reg` of `port` on access port `apsel`,
    /// checked, after selecting the register's bank on both ports.
    pub fn write_adi(&mut self, apsel: u32, port: Port, reg: u8, val: u32) -> (turn: WriteTurn)
        ensures
            (final(self)@, turn@) == begin_write(old(self)@, apsel, port, reg, val, true),
    {
        let bank = reg_bank(reg);
        let job = WriteJob::Single { port, reg: reg_index(reg), val, check: true };
        let select = pack_select(apsel, bank, bank);
        let turn = self.select(select, job, Vec::new(), Vec::new());
        turn
    }

    /// Writes `val` to register `reg` of `port` on access port `apsel` as
    /// `write_adi` does, but without a look at the acknowledgement.
    pub fn write_adi_nocheck(&mut self, apsel: u32, port: Port, reg: u8, val: u32) -> (turn:
        WriteTurn)
        ensures
            (final(self)@, turn@) == begin_write(old(self)@, apsel, port, reg, val, false),
    {
        let bank = reg_bank(reg);
        let job = WriteJob::Single { port, reg: reg_index(reg), val, check: false };
        let select = pack_select(apsel, bank, bank);
        let turn = self.select(select, job, Vec::new(), Vec::new());
        turn
    }

    /// Writes each value of `reg` to its register of `port` on access port
    /// `apsel`, one scan after the other and none of them checked, after
    /// selecting the bank of the first register on both ports.
    pub fn write_adi_pipelined(&mut self, apsel: u32, port: Port, reg: &[(u8, u32)]) -> (turn:
        WriteTurn)
        requires
            reg@.len() >= 1,
            one_bank(reg@),
        ensures
            (final(self)@, turn@) == begin_stream(old(self)@, apsel, port, reg@),
    {
        let bank = reg_bank(reg[0].0);
        let select = pack_select(apsel, bank, bank);
        let items = keep_items(reg);
        let turn = self.select(select, WriteJob::Stream { port }, items, Vec::new());
        turn
    }

    /// Shifts a read request, with the instruction before it where needed.
    fn request(&mut self, port: Port, reg: u8, scans: &mut Vec<Scan>)
        ensures
            final(self)@ == addressed(old(self)@, port),
            final(scans)@ == old(scans)@ + ir_scans(old(self)@, port).push(
                Scan::Request { reg: reg % 4 },
            ),
    {
        self.write_ir(port, scans);
        scans.push(Scan::Request { reg: reg_index(reg) });
    }

    /// Asks for register `reg` of `port` in the bank that is selected and
    /// offers the fetch of the answer to the transport's queue. The operation
    /// ends with the transport's word on whether it took the fetch.
    pub fn queue_read_adi_nobank(&mut self, port: Port, reg: u8) -> (turn: QueueTurn)
        ensures
            (final(self)@, turn@) == queue_issue(old(self)@, port, reg),
    {
        let mut scans: Vec<Scan> = Vec::new();
        self.request(port, reg, &mut scans);
        scans.push(Scan::QueueRead);
        Turn { scans, poll: Poll::Pending(QueueTask::Queue) }
    }

    /// Fetches the answer of the oldest queued read: its data if the
    /// acknowledgement is OK, the acknowledgement as the error otherwise.
    pub fn finish_read(&mut self) -> (turn: ReadTurn)
        ensures
            final(self)@ == old(self)@,
            turn@ == read_fetch(),
    {
        let mut scans: Vec<Scan> = Vec::new();
        scans.push(Scan::Finish);
        Turn { scans, poll: Poll::Pending(ReadTask::Data) }
    }

    /// Reads register `reg` of `port` in the bank that is selected: the
    /// request is shifted, the fetch of its answer queued, and the answer
    /// fetched.
    pub fn read_adi_nobank(&mut self, port: Port, reg: u8) -> (turn: ReadTurn)
        ensures
            (final(self)@, turn@) == read_issue(old(self)@, port, reg),
    {
        let mut scans: Vec<Scan> = Vec::new();
        self.request(port, reg, &mut scans);
        scans.push(Scan::QueueRead);
        Turn { scans, poll: Poll::Pending(ReadTask::Queue) }
    }

    /// Reads register `reg` of `port` on access port `apsel`, after selecting
    /// the register's bank there and bank zero of the debug port.
    pub fn read_adi(&mut self, apsel: u32, port: Port, reg: u8) -> (turn: ReadTurn)
        ensures
            (final(self)@, turn@) == begin_read(old(self)@, apsel, port, reg),
    {
        let bank = pack_select(apsel, reg_bank(reg), 0);
        let reg = reg_index(reg);
        let known = match self.lastbank {
            Some(last) => last == bank,
            None => false,
        };
        if known {
            self.read_adi_nobank(port, reg)
        } else {
            let mut scans: Vec<Scan> = Vec::new();
            self.attempt(Port::DP, DPReg::Select.index(), bank, true, &mut scans);
            Turn { scans, poll: Poll::Pending(ReadTask::Select { bank, port, reg }) }
        }
    }

    /// Queues the read of register `reg` of `port` on access port `apsel`,
    /// after selecting the register's bank there and bank zero of the debug
    /// port.
    pub fn queue_read_adi(&mut self, apsel: u32, port: Port, reg: u8) -> (turn: QueueTurn)
        ensures
            (final(self)@, turn@) == begin_queue(old(self)@, apsel, port, reg),
    {
        let bank = pack_select(apsel, reg_bank(reg), 0);
        let reg = reg_index(reg);
        let known = match self.lastbank {
            Some(last) => last == bank,
            None => false,
        };
        if known {
            self.queue_read_adi_nobank(port, reg)
        } else {
            let mut scans: Vec<Scan> = Vec::new();
            self.attempt(Port::DP, DPReg::Select.index(), bank, true, &mut scans);
            Turn { scans, poll: Poll::Pending(QueueTask::Select { bank, port, reg }) }
        }
    }

    /// Carries a pending read on with the answer to its last scan.
    pub fn step_read(&mut self, task: ReadTask, reply: Reply) -> (turn: ReadTurn)
        requires
            task.accepts(reply),
        ensures
            (final(self)@, turn@) == read_step(old(self)@, task, reply),
    {
        match task {
            ReadTask::Select { bank, port, reg } => {
                let ack = reply_ack(reply);
                if ack == ACK_OK {
                    self.lastbank = Some(bank);
                    self.read_adi_nobank(port, reg)
                } else if ack == ACK_WAIT {
                    let mut scans: Vec<Scan> = Vec::new();
                    self.attempt(Port::DP, DPReg::Select.index(), bank, true, &mut scans);
                    Turn { scans, poll: Poll::Pending(task) }
                } else {
                    self.lastbank = None;
                    Turn { scans: Vec::new(), poll: Poll::Ready(Err(ack)) }
                }
            },
            ReadTask::Queue => self.finish_read(),
            ReadTask::Data => Turn {
                scans: Vec::new(),
                poll: Poll::Ready(crate::wire::verdict(reply_ack(reply), reply_data(reply))),
            },
        }
    }

    /// Carries a pending queued read on with the answer to its last scan.
    pub fn step_queue(&mut self, task: QueueTask, reply: Reply) -> (turn: QueueTurn)
        requires
            task.accepts(reply),
        ensures
            (final(self)@, turn@) == queue_step(old(self)@, task, reply),
    {
        match task {
            QueueTask::Select { bank, port, reg } => {
                let ack = reply_ack(reply);
                if ack == ACK_OK {
                    self.lastbank = Some(bank);
                    self.queue_read_adi_nobank(port, reg)
                } else if ack == ACK_WAIT {
                    let mut scans: Vec<Scan> = Vec::new();
                    self.attempt(Port::DP, DPReg::Select.index(), bank, true, &mut scans);
                    Turn { scans, poll: Poll::Pending(task) }
                } else {
                    self.lastbank = None;
                    Turn { scans: Vec::new(), poll: Poll::Ready(Err(ack)) }
                }
            },
            QueueTask::Queue => Turn {
                scans: Vec::new(),
                poll: Poll::Ready(Ok(reply_taken(reply))),
            },
        }
    }

    /// Shifts the first request of a pipelined read and offers the next scan
    /// to the transport's queue.
    fn pipe(&mut self, port: Port, regs: Vec<u8>) -> (turn: PipeTurn)
        requires
            regs@.len() >= 1,
        ensures
            (final(self)@, turn@) == pipe_issue(old(self)@, port, regs@),
            turn.poll matches Poll::Pending(next) ==> next@.wf(),
    {
        let mut scans: Vec<Scan> = Vec::new();
        self.request(port, regs[0], &mut scans);
        if regs.len() > 1 {
            scans.push(Scan::QueueRequest { reg: reg_index(regs[1]) });
            Turn {
                scans,
                poll: Poll::Pending(
                    PipeTask { phase: PipePhase::Queue { next: 1 }, regs, got: Vec::new() },
                ),
            }
        } else {
            scans.push(Scan::QueueRead);
            Turn {
                scans,
                poll: Poll::Pending(PipeTask { phase: PipePhase::Last, regs, got: Vec::new() }),
            }
        }
    }

    /// Reads the registers of `reg`, in order, on `port` of access port
    /// `apsel`, after selecting the bank of the first register there and bank
    /// zero of the debug port. Each request but the first rides on the scan
    /// that fetches the answer before it. The operation ends with one result
    /// for each fetch that the transport's queue took, in order.
    pub fn read_adi_pipelined(&mut self, apsel: u32, port: Port, reg: &[u8]) -> (turn: PipeTurn)
        requires
            reg@.len() >= 1,
            same_bank(reg@),
        ensures
            (final(self)@, turn@) == begin_pipelined(old(self)@, apsel, port, reg@),
            turn.poll matches Poll::Pending(next) ==> next@.wf(),
    {
        let bank = pack_select(apsel, reg_bank(reg[0]), 0);
        let regs = keep_regs(reg);
        let known = match self.lastbank {
            Some(last) => last == bank,
            None => false,
        };
        if known {
            self.pipe(port, regs)
        } else {
            let mut scans: Vec<Scan> = Vec::new();
            self.attempt(Port::DP, DPReg::Select.index(), bank, true, &mut scans);
            Turn {
                scans,
                poll: Poll::Pending(
                    PipeTask { phase: PipePhase::Select { bank, port }, regs, got: Vec::new() },
                ),
            }
        }
    }

    /// Carries a pending pipelined read on with the answer to its last scan.
    pub fn step_pipelined(&mut self, task: PipeTask, reply: Reply) -> (turn: PipeTurn)
        requires
            task@.accepts(reply),
        ensures
            (final(self)@, turn@) == pipe_step(old(self)@, task@, reply),
            turn.poll matches Poll::Pending(next) ==> next@.wf(),
    {
        let PipeTask { phase, regs, got } = task;
        match phase {
            PipePhase::Select { bank, port } => {
                let ack = reply_ack(reply);
                if ack == ACK_OK {
                    self.lastbank = Some(bank);
                    self.pipe(port, regs)
                } else if ack == ACK_WAIT {
                    let mut scans: Vec<Scan> = Vec::new();
                    self.attempt(Port::DP, DPReg::Select.index(), bank, true, &mut scans);
                    Turn { scans, poll: Poll::Pending(PipeTask { phase, regs, got }) }
                } else {
                    self.lastbank = None;
                    let mut failed: Vec<Result<u32, u8>> = Vec::new();
                    failed.push(Err(ack));
                    Turn { scans: Vec::new(), poll: Poll::Ready(failed) }
                }
            },
            PipePhase::Queue { next } => {
                if reply_taken(reply) {
                    let mut scans: Vec<Scan> = Vec::new();
                    if next + 1 < regs.len() {
                        scans.push(Scan::QueueRequest { reg: reg_index(regs[next + 1]) });
                        Turn {
                            scans,
                            poll: Poll::Pending(
                                PipeTask { phase: PipePhase::Queue { next: next + 1 }, regs, got },
                            ),
                        }
                    } else {
                        scans.push(Scan::QueueRead);
                        Turn {
                            scans,
                            poll: Poll::Pending(PipeTask { phase: PipePhase::Last, regs, got }),
                        }
                    }
                } else {
                    drain(regs, next - 1)
                }
            },
            PipePhase::Last => {
                let count: usize = if reply_taken(reply) {
                    regs.len()
                } else {
                    regs.len() - 1
                };
                drain(regs, count)
            },
            PipePhase::Drain { left } => {
                let mut got = got;
                got.push(crate::wire::verdict(reply_ack(reply), reply_data(reply)));
                if left <= 1 {
                    Turn { scans: Vec::new(), poll: Poll::Ready(got) }
                } else {
                    let mut scans: Vec<Scan> = Vec::new();
                    scans.push(Scan::Finish);
                    Turn {
                        scans,
                        poll: Poll::Pending(
                            PipeTask { phase: PipePhase::Drain { left: left - 1 }, regs, got },
                        ),
                    }
                }
            },
        }
    }
}

/// The turn that begins the fetching of `count` queued answers.
fn drain(regs: Vec<u8>, count: usize) -> (turn: PipeTurn)
    requires
        count <= regs@.len(),
    ensures
        turn@ == pipe_drain(regs@, count as int),
        turn.poll matches Poll::Pending(next) ==> next@.wf(),
{
    assert(regs.len() == regs@.len());
    if count == 0 {
        Turn { scans: Vec::new(), poll: Poll::Ready(Vec::new()) }
    } else {
        let mut scans: Vec<Scan> = Vec::new();
        scans.push(Scan::Finish);
        Turn {
            scans,
            poll: Poll::Pending(
                PipeTask { phase: PipePhase::Drain { left: count }, regs, got: Vec::new() },
            ),
        }
    }
}

/// The acknowledgement in an answer; zero where it carries none.
fn reply_ack(reply: Reply) -> (ack: u8)
    ensures
        reply is Shifted ==> ack == reply->ack,
{
    match reply {
        Reply::Shifted { ack, .. } => ack,
        Reply::Queued(_) => 0,
    }
}

/// The data in an answer; zero where it carries none.
fn reply_data(reply: Reply) -> (data: u32)
    ensures
        reply is Shifted ==> data == reply->data,
{
    match reply {
        Reply::Shifted { data, .. } => data,
        Reply::Queued(_) => 0,
    }
}

/// The transport's word on its queue in an answer; `false` where it carries none.
fn reply_taken(reply: Reply) -> (taken: bool)
    ensures
        reply is Queued ==> taken == reply->0,
{
    match reply {
        Reply::Shifted { .. } => false,
        Reply::Queued(taken) => taken,
    }
}

} // verus!

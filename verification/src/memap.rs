//! The memory access port: memory reads and writes, reduced to traffic on the
//! port's CSW, TAR and DRW registers and a look at the debug port's CTRL/STAT.
//!
//! A `MemAP` keeps a shadow of CSW and of TAR and writes neither register
//! while the shadow already holds what is wanted. Every operation goes
//! through up to four stages in this order, each of them an operation of the
//! engine: CSW is set, TAR is set, DRW is read or written, CTRL/STAT is read.
//!
//! A shadow is given up where it can no longer be trusted: after a write of
//! its register that the target refused, for TAR also after a block that
//! failed underway and after a queued read that the transport refused. The
//! register is then written the next time it is needed.

use crate::adi::{
    begin_pipelined, begin_queue, begin_read, begin_stream, begin_write, pipe_step, queue_step,
    read_fetch, read_step, write_step, AdiView, ArmDebugInterface, DPReg, PipeStep, PipeTask,
    PipeTaskView, PipeTurn, QueueStep, QueueTask, QueueTurn, ReadStep, ReadTask, ReadTurn,
    WriteStep, WriteTask, WriteTaskView, WriteTurn,
};
use crate::link::{Poll, Port, Reply, Scan, Step, Turn};
use crate::wire::ACK_WAIT;
use vstd::prelude::*;

verus! {

/// Registers of a memory access port.
#[allow(clippy::upper_case_acronyms)]
#[derive(Clone, Copy, PartialEq, Eq, Debug, Structural)]
pub enum MemAPReg {
    CSW,
    TAR,
    DRW,
}

impl MemAPReg {
    /// The register's number on the port.
    pub open spec fn addr(self) -> u8 {
        match self {
            MemAPReg::CSW => 0,
            MemAPReg::TAR => 1,
            MemAPReg::DRW => 3,
        }
    }

    /// The register's number on the port.
    pub fn index(self) -> (reg: u8)
        ensures
            reg == self.addr(),
    {
        match self {
            MemAPReg::CSW => 0,
            MemAPReg::TAR => 1,
            MemAPReg::DRW => 3,
        }
    }
}

/// The bit of CSW that makes TAR advance with every access to DRW.
pub const CSW_AUTO_INCREMENT: u32 = 0x10;

/// The sticky error flags of CTRL/STAT: STICKYORUN and STICKYERR.
pub const STICKY_MASK: u32 = 0x5;

/// The error that stands for a sticky flag found set.
pub const STICKY_STATUS: u8 = 5;

/// A memory access port and what is known of its registers.
#[derive(Debug, PartialEq, Eq)]
pub struct MemAP {
    apsel: u32,
    csw: u32,
    csw_known: bool,
    tar: Option<u32>,
}

/// What a `MemAP` believes of its port.
pub ghost struct MemView {
    /// The port's number.
    pub apsel: u32,
    /// The value last known to be in CSW.
    pub csw: u32,
    /// Whether CSW can be taken to hold that value still.
    pub csw_known: bool,
    /// The value of TAR, where it is known.
    pub tar: Option<u32>,
}

impl View for MemAP {
    type V = MemView;

    closed spec fn view(&self) -> MemView {
        MemView { apsel: self.apsel, csw: self.csw, csw_known: self.csw_known, tar: self.tar }
    }
}

/// Where TAR stands after `count` words from `addr`, in the 32 bits it has.
pub open spec fn advance(addr: u32, count: nat) -> u32 {
    ((addr + 4 * count) % 0x1_0000_0000) as u32
}

/// What an operation on a memory access port was asked to do.
#[derive(Clone, Copy, PartialEq, Eq, Debug, Structural)]
pub enum MemJob {
    /// Read CSW and TAR into the shadows.
    Probe,
    /// Set CSW.
    WriteCsw { csw: u32 },
    /// Read the word at `addr`.
    Read { addr: u32 },
    /// Write `value` to the word at `addr`.
    Write { addr: u32, value: u32 },
    /// Ask for the word at `addr` and leave its answer in the queue.
    QueueRead { addr: u32 },
    /// Fetch the answer that a queued read left.
    Finish,
    /// Read `count` words in one pipeline.
    ReadMulti { addr: u32, count: usize, auto_increment: bool, check_status: bool },
    /// Write the operation's words, from `addr` upwards.
    WriteBlock { addr: u32, check_status: bool },
}

impl MemJob {
    /// The address that TAR must hold for the job.
    pub open spec fn addr(self) -> u32 {
        match self {
            MemJob::Read { addr } => addr,
            MemJob::Write { addr, .. } => addr,
            MemJob::QueueRead { addr } => addr,
            MemJob::ReadMulti { addr, .. } => addr,
            MemJob::WriteBlock { addr, .. } => addr,
            _ => 0,
        }
    }

    /// The value that CSW must hold for the job, given the one it held last:
    /// the auto-increment bit set for a block, clear for a single word.
    pub open spec fn csw(self, last: u32) -> u32 {
        match self {
            MemJob::WriteCsw { csw } => csw,
            MemJob::ReadMulti { auto_increment: true, .. } => last | CSW_AUTO_INCREMENT,
            MemJob::WriteBlock { .. } => last | CSW_AUTO_INCREMENT,
            _ => last & !CSW_AUTO_INCREMENT,
        }
    }

    /// Whether TAR moves while the job's words go through DRW.
    pub open spec fn advances(self) -> bool {
        match self {
            MemJob::ReadMulti { auto_increment, .. } => auto_increment,
            MemJob::WriteBlock { .. } => true,
            _ => false,
        }
    }

    /// The value of TAR once the job's words went through DRW.
    pub open spec fn tar_after(self, words: Seq<u32>) -> u32 {
        match self {
            MemJob::ReadMulti { addr, count, auto_increment: true, .. } => advance(addr, count as nat),
            MemJob::WriteBlock { addr, .. } => advance(addr, words.len()),
            _ => self.addr(),
        }
    }

    /// Whether the job has anything to put through DRW: a block has at least
    /// one word.
    pub open spec fn wf(self, words: Seq<u32>) -> bool {
        match self {
            MemJob::ReadMulti { count, .. } => count >= 1,
            MemJob::WriteBlock { .. } => words.len() >= 1,
            _ => true,
        }
    }

    /// Whether the job ends with a look at CTRL/STAT.
    pub open spec fn checks_status(self) -> bool {
        match self {
            MemJob::Read { .. } => true,
            MemJob::Write { .. } => true,
            MemJob::ReadMulti { check_status, .. } => check_status,
            MemJob::WriteBlock { check_status, .. } => check_status,
            _ => false,
        }
    }

    /// What the job hands back when nothing went wrong.
    pub open spec fn value(self, word: u32, words: Seq<u32>) -> MemValueView {
        match self {
            MemJob::Read { .. } => MemValueView::Word(word),
            MemJob::Finish => MemValueView::Word(word),
            MemJob::ReadMulti { .. } => MemValueView::Words(words),
            _ => MemValueView::Unit,
        }
    }
}

/// The engine operation that a pending operation is in.
#[allow(inconsistent_fields)]
#[derive(Debug, PartialEq, Eq)]
pub enum MemStage {
    /// CSW is being written with `want`.
    Csw { want: u32, inner: WriteTask },
    /// TAR is being written with the job's address.
    Tar { inner: WriteTask },
    /// DRW is being read.
    ReadDrw { inner: ReadTask },
    /// DRW is being written, once or with a stream.
    WriteDrw { inner: WriteTask },
    /// A read of DRW is being queued.
    QueueDrw { inner: QueueTask },
    /// DRW is being read in a pipeline.
    Burst { inner: PipeTask },
    /// CTRL/STAT is being read.
    Stat { inner: ReadTask },
    /// The answer of a queued read is being fetched.
    Fetch { inner: ReadTask },
    /// CSW is being read into its shadow.
    ProbeCsw { inner: ReadTask },
    /// TAR is being read into its shadow.
    ProbeTar { inner: ReadTask },
}

/// The stage of a pending operation as contracts see it.
#[allow(inconsistent_fields)]
pub ghost enum MemStageView {
    Csw { want: u32, inner: WriteTaskView },
    Tar { inner: WriteTaskView },
    ReadDrw { inner: ReadTask },
    WriteDrw { inner: WriteTaskView },
    QueueDrw { inner: QueueTask },
    Burst { inner: PipeTaskView },
    Stat { inner: ReadTask },
    Fetch { inner: ReadTask },
    ProbeCsw { inner: ReadTask },
    ProbeTar { inner: ReadTask },
}

impl View for MemStage {
    type V = MemStageView;

    open spec fn view(&self) -> MemStageView {
        match *self {
            MemStage::Csw { want, inner } => MemStageView::Csw { want, inner: inner@ },
            MemStage::Tar { inner } => MemStageView::Tar { inner: inner@ },
            MemStage::ReadDrw { inner } => MemStageView::ReadDrw { inner },
            MemStage::WriteDrw { inner } => MemStageView::WriteDrw { inner: inner@ },
            MemStage::QueueDrw { inner } => MemStageView::QueueDrw { inner },
            MemStage::Burst { inner } => MemStageView::Burst { inner: inner@ },
            MemStage::Stat { inner } => MemStageView::Stat { inner },
            MemStage::Fetch { inner } => MemStageView::Fetch { inner },
            MemStage::ProbeCsw { inner } => MemStageView::ProbeCsw { inner },
            MemStage::ProbeTar { inner } => MemStageView::ProbeTar { inner },
        }
    }
}

/// An operation on a memory access port, between two turns.
#[derive(Debug, PartialEq, Eq)]
pub struct MemTask {
    pub job: MemJob,
    pub stage: MemStage,
    /// The words to write, or the words read so far.
    pub words: Vec<u32>,
    /// The word read from DRW, kept while CTRL/STAT is read.
    pub word: u32,
}

/// A pending operation as contracts see it.
pub ghost struct MemTaskView {
    pub job: MemJob,
    pub stage: MemStageView,
    pub words: Seq<u32>,
    pub word: u32,
}

impl View for MemTask {
    type V = MemTaskView;

    open spec fn view(&self) -> MemTaskView {
        MemTaskView { job: self.job, stage: self.stage@, words: self.words@, word: self.word }
    }
}

impl MemTaskView {
    /// A pending operation takes what the engine operation it is in takes.
    /// While it has its traffic on DRW before it, its job must have some.
    pub open spec fn accepts(self, reply: Reply) -> bool {
        match self.stage {
            MemStageView::Csw { inner, .. } => self.job.wf(self.words) && inner.accepts(reply),
            MemStageView::Tar { inner } => self.job.wf(self.words) && inner.accepts(reply),
            MemStageView::ReadDrw { inner } => inner.accepts(reply),
            MemStageView::WriteDrw { inner } => inner.accepts(reply),
            MemStageView::QueueDrw { inner } => inner.accepts(reply),
            MemStageView::Burst { inner } => inner.accepts(reply),
            MemStageView::Stat { inner } => inner.accepts(reply),
            MemStageView::Fetch { inner } => inner.accepts(reply),
            MemStageView::ProbeCsw { inner } => inner.accepts(reply),
            MemStageView::ProbeTar { inner } => inner.accepts(reply),
        }
    }
}

impl MemTask {
    /// Whether `reply` is an answer that the operation can go on with.
    pub fn takes(&self, reply: &Reply) -> (ok: bool)
        ensures
            ok == self@.accepts(*reply),
    {
        match &self.stage {
            MemStage::Csw { inner, .. } => self.job.sound(self.words.len()) && inner.takes(reply),
            MemStage::Tar { inner } => self.job.sound(self.words.len()) && inner.takes(reply),
            MemStage::ReadDrw { inner } => inner.takes(reply),
            MemStage::WriteDrw { inner } => inner.takes(reply),
            MemStage::QueueDrw { inner } => inner.takes(reply),
            MemStage::Burst { inner } => inner.takes(reply),
            MemStage::Stat { inner } => inner.takes(reply),
            MemStage::Fetch { inner } => inner.takes(reply),
            MemStage::ProbeCsw { inner } => inner.takes(reply),
            MemStage::ProbeTar { inner } => inner.takes(reply),
        }
    }
}

/// What an operation on a memory access port hands back.
#[derive(Debug, PartialEq, Eq)]
pub enum MemValue {
    /// Nothing: a write, or the setting of a register.
    Unit,
    /// The word that was read.
    Word(u32),
    /// Whether the transport took the queued read.
    Queued(bool),
    /// The words that were read, in order.
    Words(Vec<u32>),
}

/// What an operation hands back, as contracts see it.
pub ghost enum MemValueView {
    Unit,
    Word(u32),
    Queued(bool),
    Words(Seq<u32>),
}

impl View for MemValue {
    type V = MemValueView;

    open spec fn view(&self) -> MemValueView {
        match *self {
            MemValue::Unit => MemValueView::Unit,
            MemValue::Word(word) => MemValueView::Word(word),
            MemValue::Queued(taken) => MemValueView::Queued(taken),
            MemValue::Words(words) => MemValueView::Words(words@),
        }
    }
}

/// A turn of an operation on a memory access port.
pub type MemTurn = Turn<MemTask, Result<MemValue, u8>>;

/// A turn of an operation on a memory access port, as contracts see it.
pub type MemStep = Step<MemTaskView, Result<MemValueView, u8>>;

impl View for Turn<MemTask, Result<MemValue, u8>> {
    type V = MemStep;

    open spec fn view(&self) -> MemStep {
        Step {
            scans: self.scans@,
            poll: match self.poll {
                Poll::Pending(task) => Poll::Pending(task@),
                Poll::Ready(Ok(value)) => Poll::Ready(Ok(value@)),
                Poll::Ready(Err(code)) => Poll::Ready(Err(code)),
            },
        }
    }
}

/// A turn of an operation on a memory access port, with what the port and
/// the engine believe after it.
pub ghost struct MemOut {
    pub mem: MemView,
    pub adi: AdiView,
    pub step: MemStep,
}

impl MemOut {
    /// The same turn with `scans` performed first.
    pub open spec fn after(self, scans: Seq<Scan>) -> MemOut {
        MemOut { step: self.step.after(scans), ..self }
    }
}

/// A turn that leaves the operation waiting in `stage`.
pub open spec fn mem_pending(
    mem: MemView,
    adi: AdiView,
    scans: Seq<Scan>,
    job: MemJob,
    stage: MemStageView,
    words: Seq<u32>,
    word: u32,
) -> MemOut {
    MemOut {
        mem,
        adi,
        step: Step { scans, poll: Poll::Pending(MemTaskView { job, stage, words, word }) },
    }
}

/// A turn that ends the operation.
pub open spec fn mem_ready(
    mem: MemView,
    adi: AdiView,
    scans: Seq<Scan>,
    result: Result<MemValueView, u8>,
) -> MemOut {
    MemOut { mem, adi, step: Step { scans, poll: Poll::Ready(result) } }
}

/// What a pipelined read of one register amounts to: the words that were
/// read, in order, with every answer of WAIT left out; or the first
/// acknowledgement that was neither OK nor WAIT.
pub open spec fn collect(results: Seq<Result<u32, u8>>) -> Result<Seq<u32>, u8>
    decreases results.len(),
{
    if results.len() == 0 {
        Ok(seq![])
    } else {
        match collect(results.drop_last()) {
            Err(code) => Err(code),
            Ok(words) => match results.last() {
                Ok(word) => Ok(words.push(word)),
                Err(code) => if code == ACK_WAIT {
                    Ok(words)
                } else {
                    Err(code)
                },
            },
        }
    }
}

/// The registers of a pipelined read of `count` words: DRW each time.
pub open spec fn burst_regs(count: usize) -> Seq<u8> {
    Seq::new(count as nat, |i: int| MemAPReg::DRW.addr())
}

/// The stream that writes `words` to DRW.
pub open spec fn burst_items(words: Seq<u32>) -> Seq<(u8, u32)> {
    Seq::new(words.len(), |i: int| (MemAPReg::DRW.addr(), words[i]))
}

/// The last stage: CTRL/STAT is read where the job asks for it.
pub open spec fn mem_stat(mem: MemView, adi: AdiView, job: MemJob, words: Seq<u32>, word: u32) -> MemOut {
    if job.checks_status() {
        let (adi, step) = begin_read(adi, mem.apsel, Port::DP, DPReg::CtrlStat.addr());
        mem_stat_done(mem, adi, job, words, word, step)
    } else {
        mem_ready(mem, adi, seq![], Ok(job.value(word, words)))
    }
}

/// The read of CTRL/STAT after a turn: a sticky flag found set is the error
/// `STICKY_STATUS`.
pub open spec fn mem_stat_done(
    mem: MemView,
    adi: AdiView,
    job: MemJob,
    words: Seq<u32>,
    word: u32,
    step: ReadStep,
) -> MemOut {
    match step.poll {
        Poll::Pending(inner) => mem_pending(
            mem,
            adi,
            step.scans,
            job,
            MemStageView::Stat { inner },
            words,
            word,
        ),
        Poll::Ready(Ok(stat)) => mem_ready(
            mem,
            adi,
            step.scans,
            if stat & STICKY_MASK != 0 {
                Err(STICKY_STATUS)
            } else {
                Ok(job.value(word, words))
            },
        ),
        Poll::Ready(Err(code)) => mem_ready(mem, adi, step.scans, Err(code)),
    }
}

/// The third stage: the job's traffic on DRW. A job that moves TAR has the
/// shadow moved before its first word.
pub open spec fn mem_main(mem: MemView, adi: AdiView, job: MemJob, words: Seq<u32>) -> MemOut {
    let moved = MemView { tar: Some(job.tar_after(words)), ..mem };
    match job {
        MemJob::Read { .. } => {
            let (adi, step) = begin_read(adi, mem.apsel, Port::AP, MemAPReg::DRW.addr());
            mem_read_done(mem, adi, job, words, step)
        },
        MemJob::Write { value, .. } => {
            let (adi, step) = begin_write(
                adi,
                mem.apsel,
                Port::AP,
                MemAPReg::DRW.addr(),
                value,
                true,
            );
            mem_write_done(mem, adi, job, words, step)
        },
        MemJob::QueueRead { .. } => {
            let (adi, step) = begin_queue(adi, mem.apsel, Port::AP, MemAPReg::DRW.addr());
            mem_queue_done(mem, adi, job, words, step)
        },
        MemJob::ReadMulti { count, .. } => {
            let (adi, step) = begin_pipelined(adi, mem.apsel, Port::AP, burst_regs(count));
            mem_burst_done(moved, adi, job, step)
        },
        MemJob::WriteBlock { .. } => {
            let (adi, step) = begin_stream(adi, mem.apsel, Port::AP, burst_items(words));
            mem_write_done(moved, adi, job, words, step)
        },
        _ => mem_ready(mem, adi, seq![], Ok(MemValueView::Unit)),
    }
}

/// The read of DRW after a turn.
pub open spec fn mem_read_done(
    mem: MemView,
    adi: AdiView,
    job: MemJob,
    words: Seq<u32>,
    step: ReadStep,
) -> MemOut {
    match step.poll {
        Poll::Pending(inner) => mem_pending(
            mem,
            adi,
            step.scans,
            job,
            MemStageView::ReadDrw { inner },
            words,
            0,
        ),
        Poll::Ready(Ok(word)) => mem_stat(mem, adi, job, words, word).after(step.scans),
        Poll::Ready(Err(code)) => mem_ready(mem, adi, step.scans, Err(code)),
    }
}

/// The write of DRW after a turn. Where a stream fails, TAR is no longer known.
pub open spec fn mem_write_done(
    mem: MemView,
    adi: AdiView,
    job: MemJob,
    words: Seq<u32>,
    step: WriteStep,
) -> MemOut {
    match step.poll {
        Poll::Pending(inner) => mem_pending(
            mem,
            adi,
            step.scans,
            job,
            MemStageView::WriteDrw { inner },
            words,
            0,
        ),
        Poll::Ready(Ok(())) => mem_stat(mem, adi, job, words, 0).after(step.scans),
        Poll::Ready(Err(code)) => mem_ready(
            if job.advances() {
                MemView { tar: None, ..mem }
            } else {
                mem
            },
            adi,
            step.scans,
            Err(code),
        ),
    }
}

/// The queueing of a read of DRW after a turn. Where the transport refuses
/// the read, TAR is no longer relied on.
pub open spec fn mem_queue_done(
    mem: MemView,
    adi: AdiView,
    job: MemJob,
    words: Seq<u32>,
    step: QueueStep,
) -> MemOut {
    match step.poll {
        Poll::Pending(inner) => mem_pending(
            mem,
            adi,
            step.scans,
            job,
            MemStageView::QueueDrw { inner },
            words,
            0,
        ),
        Poll::Ready(Ok(taken)) => mem_ready(
            if taken {
                mem
            } else {
                MemView { tar: None, ..mem }
            },
            adi,
            step.scans,
            Ok(MemValueView::Queued(taken)),
        ),
        Poll::Ready(Err(code)) => mem_ready(mem, adi, step.scans, Err(code)),
    }
}

/// The pipelined read of DRW after a turn. Where it fails while TAR moves,
/// TAR is no longer known.
pub open spec fn mem_burst_done(mem: MemView, adi: AdiView, job: MemJob, step: PipeStep) -> MemOut {
    match step.poll {
        Poll::Pending(inner) => mem_pending(
            mem,
            adi,
            step.scans,
            job,
            MemStageView::Burst { inner },
            seq![],
            0,
        ),
        Poll::Ready(results) => match collect(results) {
            Ok(words) => mem_stat(mem, adi, job, words, 0).after(step.scans),
            Err(code) => mem_ready(
                if job.advances() {
                    MemView { tar: None, ..mem }
                } else {
                    mem
                },
                adi,
                step.scans,
                Err(code),
            ),
        },
    }
}

/// The second stage: TAR is written with the job's address unless its shadow
/// holds that address. A queued read writes it unchecked.
pub open spec fn mem_tar(mem: MemView, adi: AdiView, job: MemJob, words: Seq<u32>) -> MemOut {
    if job is WriteCsw {
        mem_ready(mem, adi, seq![], Ok(MemValueView::Unit))
    } else if mem.tar == Some(job.addr()) {
        mem_main(mem, adi, job, words)
    } else {
        let (adi, step) = begin_write(
            adi,
            mem.apsel,
            Port::AP,
            MemAPReg::TAR.addr(),
            job.addr(),
            !(job is QueueRead),
        );
        mem_tar_done(mem, adi, job, words, step)
    }
}

/// The write of TAR after a turn: the shadow holds the address once the
/// write went through, and nothing where it failed.
pub open spec fn mem_tar_done(
    mem: MemView,
    adi: AdiView,
    job: MemJob,
    words: Seq<u32>,
    step: WriteStep,
) -> MemOut {
    match step.poll {
        Poll::Pending(inner) => mem_pending(
            mem,
            adi,
            step.scans,
            job,
            MemStageView::Tar { inner },
            words,
            0,
        ),
        Poll::Ready(Ok(())) => mem_main(
            MemView { tar: Some(job.addr()), ..mem },
            adi,
            job,
            words,
        ).after(step.scans),
        Poll::Ready(Err(code)) => mem_ready(
            MemView { tar: None, ..mem },
            adi,
            step.scans,
            Err(code),
        ),
    }
}

/// The first stage: CSW is written with what the job needs unless its shadow
/// is known to hold that.
pub open spec fn mem_csw(mem: MemView, adi: AdiView, job: MemJob, words: Seq<u32>) -> MemOut {
    let want = job.csw(mem.csw);
    if mem.csw_known && mem.csw == want {
        mem_tar(mem, adi, job, words)
    } else {
        let (adi, step) = begin_write(adi, mem.apsel, Port::AP, MemAPReg::CSW.addr(), want, true);
        mem_csw_done(mem, adi, job, words, want, step)
    }
}

/// The write of CSW after a turn: the shadow holds `want` once the write
/// went through, and is not to be relied on where it failed.
pub open spec fn mem_csw_done(
    mem: MemView,
    adi: AdiView,
    job: MemJob,
    words: Seq<u32>,
    want: u32,
    step: WriteStep,
) -> MemOut {
    match step.poll {
        Poll::Pending(inner) => mem_pending(
            mem,
            adi,
            step.scans,
            job,
            MemStageView::Csw { want, inner },
            words,
            0,
        ),
        Poll::Ready(Ok(())) => mem_tar(
            MemView { csw: want, csw_known: true, ..mem },
            adi,
            job,
            words,
        ).after(step.scans),
        Poll::Ready(Err(code)) => mem_ready(
            MemView { csw_known: false, ..mem },
            adi,
            step.scans,
            Err(code),
        ),
    }
}

/// The fetch of a queued answer after a turn.
pub open spec fn mem_fetch_done(mem: MemView, adi: AdiView, step: ReadStep) -> MemOut {
    match step.poll {
        Poll::Pending(inner) => mem_pending(
            mem,
            adi,
            step.scans,
            MemJob::Finish,
            MemStageView::Fetch { inner },
            seq![],
            0,
        ),
        Poll::Ready(Ok(word)) => mem_ready(mem, adi, step.scans, Ok(MemValueView::Word(word))),
        Poll::Ready(Err(code)) => mem_ready(mem, adi, step.scans, Err(code)),
    }
}

/// The read of TAR into its shadow after a turn.
pub open spec fn mem_probe_tar_done(mem: MemView, adi: AdiView, step: ReadStep) -> MemOut {
    match step.poll {
        Poll::Pending(inner) => mem_pending(
            mem,
            adi,
            step.scans,
            MemJob::Probe,
            MemStageView::ProbeTar { inner },
            seq![],
            0,
        ),
        Poll::Ready(Ok(word)) => mem_ready(
            MemView { tar: Some(word), ..mem },
            adi,
            step.scans,
            Ok(MemValueView::Unit),
        ),
        Poll::Ready(Err(code)) => mem_ready(mem, adi, step.scans, Err(code)),
    }
}

/// The read of CSW into its shadow after a turn; the read of TAR follows.
pub open spec fn mem_probe_csw_done(mem: MemView, adi: AdiView, step: ReadStep) -> MemOut {
    match step.poll {
        Poll::Pending(inner) => mem_pending(
            mem,
            adi,
            step.scans,
            MemJob::Probe,
            MemStageView::ProbeCsw { inner },
            seq![],
            0,
        ),
        Poll::Ready(Ok(word)) => {
            let mem = MemView { csw: word, csw_known: true, ..mem };
            let (adi, next) = begin_read(adi, mem.apsel, Port::AP, MemAPReg::TAR.addr());
            mem_probe_tar_done(mem, adi, next).after(step.scans)
        },
        Poll::Ready(Err(code)) => mem_ready(mem, adi, step.scans, Err(code)),
    }
}

/// The first turn of a job.
pub open spec fn mem_begin(mem: MemView, adi: AdiView, job: MemJob, words: Seq<u32>) -> MemOut {
    match job {
        MemJob::Probe => {
            let (adi, step) = begin_read(adi, mem.apsel, Port::AP, MemAPReg::CSW.addr());
            mem_probe_csw_done(mem, adi, step)
        },
        MemJob::Finish => mem_fetch_done(mem, adi, read_fetch()),
        _ => mem_csw(mem, adi, job, words),
    }
}

/// One turn of a pending operation on `reply`: the engine operation it is in
/// takes its turn, and where that ends, the stages that follow are entered.
pub open spec fn mem_step(mem: MemView, adi: AdiView, task: MemTaskView, reply: Reply) -> MemOut
    recommends
        task.accepts(reply),
{
    match task.stage {
        MemStageView::Csw { want, inner } => {
            let (adi, step) = write_step(adi, inner, reply);
            mem_csw_done(mem, adi, task.job, task.words, want, step)
        },
        MemStageView::Tar { inner } => {
            let (adi, step) = write_step(adi, inner, reply);
            mem_tar_done(mem, adi, task.job, task.words, step)
        },
        MemStageView::ReadDrw { inner } => {
            let (adi, step) = read_step(adi, inner, reply);
            mem_read_done(mem, adi, task.job, task.words, step)
        },
        MemStageView::WriteDrw { inner } => {
            let (adi, step) = write_step(adi, inner, reply);
            mem_write_done(mem, adi, task.job, task.words, step)
        },
        MemStageView::QueueDrw { inner } => {
            let (adi, step) = queue_step(adi, inner, reply);
            mem_queue_done(mem, adi, task.job, task.words, step)
        },
        MemStageView::Burst { inner } => {
            let (adi, step) = pipe_step(adi, inner, reply);
            mem_burst_done(mem, adi, task.job, step)
        },
        MemStageView::Stat { inner } => {
            let (adi, step) = read_step(adi, inner, reply);
            mem_stat_done(mem, adi, task.job, task.words, task.word, step)
        },
        MemStageView::Fetch { inner } => {
            let (adi, step) = read_step(adi, inner, reply);
            mem_fetch_done(mem, adi, step)
        },
        MemStageView::ProbeCsw { inner } => {
            let (adi, step) = read_step(adi, inner, reply);
            mem_probe_csw_done(mem, adi, step)
        },
        MemStageView::ProbeTar { inner } => {
            let (adi, step) = read_step(adi, inner, reply);
            mem_probe_tar_done(mem, adi, step)
        },
    }
}

/// Whether a turn, with what the port and the engine believe after it, is
/// the one that `out` describes.
pub open spec fn yields(mem: MemView, adi: AdiView, step: MemStep, out: MemOut) -> bool {
    &&& mem == out.mem
    &&& adi == out.adi
    &&& step.poll == out.step.poll
    &&& step.scans =~= out.step.scans
}

impl MemJob {
    /// Whether the job has anything to put through DRW.
    pub fn sound(&self, words: usize) -> (ok: bool)
        ensures
            forall|w: Seq<u32>| w.len() == words ==> ok == #[trigger] self.wf(w),
    {
        match self {
            MemJob::ReadMulti { count, .. } => *count >= 1,
            MemJob::WriteBlock { .. } => words >= 1,
            _ => true,
        }
    }

    /// The address that TAR must hold for the job.
    fn address(&self) -> (addr: u32)
        ensures
            addr == self.addr(),
    {
        match self {
            MemJob::Read { addr } => *addr,
            MemJob::Write { addr, .. } => *addr,
            MemJob::QueueRead { addr } => *addr,
            MemJob::ReadMulti { addr, .. } => *addr,
            MemJob::WriteBlock { addr, .. } => *addr,
            _ => 0,
        }
    }

    /// The value that CSW must hold for the job, given the one it held last.
    fn csw_for(&self, last: u32) -> (csw: u32)
        ensures
            csw == self.csw(last),
    {
        match self {
            MemJob::WriteCsw { csw } => *csw,
            MemJob::ReadMulti { auto_increment: true, .. } => last | CSW_AUTO_INCREMENT,
            MemJob::WriteBlock { .. } => last | CSW_AUTO_INCREMENT,
            _ => last & !CSW_AUTO_INCREMENT,
        }
    }

    /// Whether TAR moves while the job's words go through DRW.
    fn moves_tar(&self) -> (moves: bool)
        ensures
            moves == self.advances(),
    {
        match self {
            MemJob::ReadMulti { auto_increment, .. } => *auto_increment,
            MemJob::WriteBlock { .. } => true,
            _ => false,
        }
    }

    /// The value of TAR once the job's words went through DRW.
    fn tar_at_end(&self, words: usize) -> (tar: u32)
        ensures
            forall|w: Seq<u32>| w.len() == words ==> tar == #[trigger] self.tar_after(w),
    {
        match self {
            MemJob::ReadMulti { addr, count, auto_increment: true, .. } => advanced(*addr, *count),
            MemJob::WriteBlock { addr, .. } => advanced(*addr, words),
            _ => self.address(),
        }
    }

    /// Whether the job ends with a look at CTRL/STAT.
    fn wants_status(&self) -> (wants: bool)
        ensures
            wants == self.checks_status(),
    {
        match self {
            MemJob::Read { .. } => true,
            MemJob::Write { .. } => true,
            MemJob::ReadMulti { check_status, .. } => *check_status,
            MemJob::WriteBlock { check_status, .. } => *check_status,
            _ => false,
        }
    }

    /// What the job hands back when nothing went wrong.
    fn result(&self, word: u32, words: Vec<u32>) -> (value: MemValue)
        ensures
            value@ == self.value(word, words@),
    {
        match self {
            MemJob::Read { .. } => MemValue::Word(word),
            MemJob::Finish => MemValue::Word(word),
            MemJob::ReadMulti { .. } => MemValue::Words(words),
            _ => MemValue::Unit,
        }
    }
}

/// Where TAR stands after `count` words from `addr`.
fn advanced(addr: u32, count: usize) -> (tar: u32)
    ensures
        tar == advance(addr, count as nat),
{
    let words: u64 = (count % 0x4000_0000) as u64;
    let end: u64 = (addr as u64 + 4 * words) % 0x1_0000_0000;
    end as u32
}

/// One list of scans after another.
fn join(scans: Vec<Scan>, more: Vec<Scan>) -> (all: Vec<Scan>)
    ensures
        all@ == scans@ + more@,
{
    let mut all = scans;
    let mut more = more;
    all.append(&mut more);
    all
}

/// The words of a pipelined read of one register.
fn gather(results: Vec<Result<u32, u8>>) -> (out: Result<Vec<u32>, u8>)
    ensures
        match collect(results@) {
            Ok(words) => out matches Ok(got) && got@ == words,
            Err(code) => out == Err::<Vec<u32>, u8>(code),
        },
{
    let mut words: Vec<u32> = Vec::new();
    let mut i: usize = 0;
    while i < results.len()
        invariant
            i <= results.len(),
            collect(results@.take(i as int)) == Ok::<Seq<u32>, u8>(words@),
        decreases results.len() - i,
    {
        assert(results@.take(i + 1).drop_last() =~= results@.take(i as int));
        match results[i] {
            Ok(word) => {
                words.push(word);
            },
            Err(code) => {
                if code != ACK_WAIT {
                    proof {
                        lemma_collect_fails(results@, i + 1);
                    }
                    return Err(code);
                }
            },
        }
        i += 1;
    }
    assert(results@.take(i as int) =~= results@);
    Ok(words)
}

/// A pipelined read that has failed after some answers fails the same way
/// whatever follows.
proof fn lemma_collect_fails(results: Seq<Result<u32, u8>>, upto: int)
    requires
        0 <= upto <= results.len(),
        collect(results.take(upto)) is Err,
    ensures
        collect(results) == collect(results.take(upto)),
    decreases results.len() - upto,
{
    if upto < results.len() {
        assert(results.take(upto + 1).drop_last() =~= results.take(upto));
        lemma_collect_fails(results, upto + 1);
    } else {
        assert(results.take(upto) =~= results);
    }
}

/// The registers of a pipelined read of `count` words.
fn drw_regs(count: usize) -> (regs: Vec<u8>)
    ensures
        regs@ == burst_regs(count),
{
    let mut regs: Vec<u8> = Vec::new();
    let mut i: usize = 0;
    while i < count
        invariant
            i <= count,
            regs@ == burst_regs(i),
        decreases count - i,
    {
        regs.push(MemAPReg::DRW.index());
        i += 1;
    }
    regs
}

/// The stream that writes `words` to DRW.
fn drw_items(words: &Vec<u32>) -> (items: Vec<(u8, u32)>)
    ensures
        items@ == burst_items(words@),
{
    let mut items: Vec<(u8, u32)> = Vec::new();
    let mut i: usize = 0;
    while i < words.len()
        invariant
            i <= words.len(),
            items@ == burst_items(words@.take(i as int)),
        decreases words.len() - i,
    {
        items.push((MemAPReg::DRW.index(), words[i]));
        i += 1;
    }
    items
}

/// A copy of `words` that an operation can keep.
fn keep_words(words: &[u32]) -> (out: Vec<u32>)
    ensures
        out@ == words@,
{
    let mut out: Vec<u32> = Vec::with_capacity(words.len());
    let mut i: usize = 0;
    while i < words.len()
        invariant
            i <= words.len(),
            out@ == words@.take(i as int),
        decreases words.len() - i,
    {
        out.push(words[i]);
        i += 1;
    }
    out
}

/// A turn that leaves the operation waiting in `stage`.
fn pending(job: MemJob, stage: MemStage, words: Vec<u32>, word: u32, scans: Vec<Scan>) -> (turn:
    MemTurn)
    ensures
        turn@.scans == scans@,
        turn@.poll == Poll::<MemTaskView, Result<MemValueView, u8>>::Pending(
            MemTaskView { job, stage: stage@, words: words@, word },
        ),
{
    Turn { scans, poll: Poll::Pending(MemTask { job, stage, words, word }) }
}

/// A turn that ends the operation.
fn ready(result: Result<MemValue, u8>, scans: Vec<Scan>) -> (turn: MemTurn)
    ensures
        turn@.scans == scans@,
        turn@.poll == Poll::<MemTaskView, Result<MemValueView, u8>>::Ready(
            match result {
                Ok(value) => Ok(value@),
                Err(code) => Err(code),
            },
        ),
{
    Turn { scans, poll: Poll::Ready(result) }
}

impl MemAP {
    /// Enters the last stage: the read of CTRL/STAT, where the job asks for it.
    fn enter_stat(
        &mut self,
        adi: &mut ArmDebugInterface,
        job: MemJob,
        words: Vec<u32>,
        word: u32,
        scans: Vec<Scan>,
    ) -> (turn: MemTurn)
        ensures
            yields(
                final(self)@,
                final(adi)@,
                turn@,
                mem_stat(old(self)@, old(adi)@, job, words@, word).after(scans@),
            ),
    {
        if job.wants_status() {
            let inner = adi.read_adi(self.apsel, Port::DP, DPReg::CtrlStat.index());
            self.stat_done(adi, job, words, word, inner, scans)
        } else {
            ready(Ok(job.result(word, words)), scans)
        }
    }

    /// Goes on after a turn of the read of CTRL/STAT.
    fn stat_done(
        &mut self,
        adi: &mut ArmDebugInterface,
        job: MemJob,
        words: Vec<u32>,
        word: u32,
        inner: ReadTurn,
        scans: Vec<Scan>,
    ) -> (turn: MemTurn)
        ensures
            yields(
                final(self)@,
                final(adi)@,
                turn@,
                mem_stat_done(old(self)@, old(adi)@, job, words@, word, inner@).after(scans@),
            ),
    {
        let scans = join(scans, inner.scans);
        match inner.poll {
            Poll::Pending(inner) => pending(job, MemStage::Stat { inner }, words, word, scans),
            Poll::Ready(Ok(stat)) => {
                if stat & STICKY_MASK != 0 {
                    ready(Err(STICKY_STATUS), scans)
                } else {
                    ready(Ok(job.result(word, words)), scans)
                }
            },
            Poll::Ready(Err(code)) => ready(Err(code), scans),
        }
    }

    /// Enters the third stage: the job's traffic on DRW.
    fn enter_drw(
        &mut self,
        adi: &mut ArmDebugInterface,
        job: MemJob,
        words: Vec<u32>,
        scans: Vec<Scan>,
    ) -> (turn: MemTurn)
        requires
            job.wf(words@),
        ensures
            yields(
                final(self)@,
                final(adi)@,
                turn@,
                mem_main(old(self)@, old(adi)@, job, words@).after(scans@),
            ),
    {
        match job {
            MemJob::Read { .. } => {
                let inner = adi.read_adi(self.apsel, Port::AP, MemAPReg::DRW.index());
                self.read_done(adi, job, words, inner, scans)
            },
            MemJob::Write { value, .. } => {
                let inner = adi.write_adi(self.apsel, Port::AP, MemAPReg::DRW.index(), value);
                self.write_done(adi, job, words, inner, scans)
            },
            MemJob::QueueRead { .. } => {
                let inner = adi.queue_read_adi(self.apsel, Port::AP, MemAPReg::DRW.index());
                self.queue_done(adi, job, words, inner, scans)
            },
            MemJob::ReadMulti { count, .. } => {
                self.tar = Some(job.tar_at_end(words.len()));
                let regs = drw_regs(count);
                let inner = adi.read_adi_pipelined(self.apsel, Port::AP, regs.as_slice());
                self.burst_done(adi, job, inner, scans)
            },
            MemJob::WriteBlock { .. } => {
                self.tar = Some(job.tar_at_end(words.len()));
                let items = drw_items(&words);
                let inner = adi.write_adi_pipelined(self.apsel, Port::AP, items.as_slice());
                self.write_done(adi, job, words, inner, scans)
            },
            _ => ready(Ok(MemValue::Unit), scans),
        }
    }

    /// Goes on after a turn of the read of DRW.
    fn read_done(
        &mut self,
        adi: &mut ArmDebugInterface,
        job: MemJob,
        words: Vec<u32>,
        inner: ReadTurn,
        scans: Vec<Scan>,
    ) -> (turn: MemTurn)
        ensures
            yields(
                final(self)@,
                final(adi)@,
                turn@,
                mem_read_done(old(self)@, old(adi)@, job, words@, inner@).after(scans@),
            ),
    {
        let scans = join(scans, inner.scans);
        match inner.poll {
            Poll::Pending(inner) => pending(job, MemStage::ReadDrw { inner }, words, 0, scans),
            Poll::Ready(Ok(word)) => self.enter_stat(adi, job, words, word, scans),
            Poll::Ready(Err(code)) => ready(Err(code), scans),
        }
    }

    /// Goes on after a turn of the write of DRW.
    fn write_done(
        &mut self,
        adi: &mut ArmDebugInterface,
        job: MemJob,
        words: Vec<u32>,
        inner: WriteTurn,
        scans: Vec<Scan>,
    ) -> (turn: MemTurn)
        ensures
            yields(
                final(self)@,
                final(adi)@,
                turn@,
                mem_write_done(old(self)@, old(adi)@, job, words@, inner@).after(scans@),
            ),
    {
        let scans = join(scans, inner.scans);
        match inner.poll {
            Poll::Pending(inner) => pending(job, MemStage::WriteDrw { inner }, words, 0, scans),
            Poll::Ready(Ok(())) => self.enter_stat(adi, job, words, 0, scans),
            Poll::Ready(Err(code)) => {
                if job.moves_tar() {
                    self.tar = None;
                }
                ready(Err(code), scans)
            },
        }
    }

    /// Goes on after a turn of the queueing of a read of DRW.
    fn queue_done(
        &mut self,
        adi: &mut ArmDebugInterface,
        job: MemJob,
        words: Vec<u32>,
        inner: QueueTurn,
        scans: Vec<Scan>,
    ) -> (turn: MemTurn)
        ensures
            yields(
                final(self)@,
                final(adi)@,
                turn@,
                mem_queue_done(old(self)@, old(adi)@, job, words@, inner@).after(scans@),
            ),
    {
        let scans = join(scans, inner.scans);
        match inner.poll {
            Poll::Pending(inner) => pending(job, MemStage::QueueDrw { inner }, words, 0, scans),
            Poll::Ready(Ok(taken)) => {
                if !taken {
                    self.tar = None;
                }
                ready(Ok(MemValue::Queued(taken)), scans)
            },
            Poll::Ready(Err(code)) => ready(Err(code), scans),
        }
    }

    /// Goes on after a turn of the pipelined read of DRW.
    fn burst_done(
        &mut self,
        adi: &mut ArmDebugInterface,
        job: MemJob,
        inner: PipeTurn,
        scans: Vec<Scan>,
    ) -> (turn: MemTurn)
        ensures
            yields(
                final(self)@,
                final(adi)@,
                turn@,
                mem_burst_done(old(self)@, old(adi)@, job, inner@).after(scans@),
            ),
    {
        let scans = join(scans, inner.scans);
        match inner.poll {
            Poll::Pending(inner) => pending(
                job,
                MemStage::Burst { inner },
                Vec::new(),
                0,
                scans,
            ),
            Poll::Ready(results) => match gather(results) {
                Ok(words) => self.enter_stat(adi, job, words, 0, scans),
                Err(code) => {
                    if job.moves_tar() {
                        self.tar = None;
                    }
                    ready(Err(code), scans)
                },
            },
        }
    }

    /// Enters the second stage: the write of TAR, where its shadow does not
    /// hold the job's address.
    fn enter_tar(
        &mut self,
        adi: &mut ArmDebugInterface,
        job: MemJob,
        words: Vec<u32>,
        scans: Vec<Scan>,
    ) -> (turn: MemTurn)
        requires
            job.wf(words@),
        ensures
            yields(
                final(self)@,
                final(adi)@,
                turn@,
                mem_tar(old(self)@, old(adi)@, job, words@).after(scans@),
            ),
    {
        let addr = job.address();
        let held = match self.tar {
            Some(tar) => tar == addr,
            None => false,
        };
        match job {
            MemJob::WriteCsw { .. } => ready(Ok(MemValue::Unit), scans),
            _ => {
                if held {
                    self.enter_drw(adi, job, words, scans)
                } else {
                    let inner = match job {
                        MemJob::QueueRead { .. } => adi.write_adi_nocheck(
                            self.apsel,
                            Port::AP,
                            MemAPReg::TAR.index(),
                            addr,
                        ),
                        _ => adi.write_adi(self.apsel, Port::AP, MemAPReg::TAR.index(), addr),
                    };
                    self.tar_done(adi, job, words, inner, scans)
                }
            },
        }
    }

    /// Goes on after a turn of the write of TAR.
    fn tar_done(
        &mut self,
        adi: &mut ArmDebugInterface,
        job: MemJob,
        words: Vec<u32>,
        inner: WriteTurn,
        scans: Vec<Scan>,
    ) -> (turn: MemTurn)
        requires
            job.wf(words@),
        ensures
            yields(
                final(self)@,
                final(adi)@,
                turn@,
                mem_tar_done(old(self)@, old(adi)@, job, words@, inner@).after(scans@),
            ),
    {
        let scans = join(scans, inner.scans);
        match inner.poll {
            Poll::Pending(inner) => pending(job, MemStage::Tar { inner }, words, 0, scans),
            Poll::Ready(Ok(())) => {
                self.tar = Some(job.address());
                self.enter_drw(adi, job, words, scans)
            },
            Poll::Ready(Err(code)) => {
                self.tar = None;
                ready(Err(code), scans)
            },
        }
    }

    /// Enters the first stage: the write of CSW, where its shadow is not known
    /// to hold what the job needs.
    fn enter_csw(
        &mut self,
        adi: &mut ArmDebugInterface,
        job: MemJob,
        words: Vec<u32>,
        scans: Vec<Scan>,
    ) -> (turn: MemTurn)
        requires
            job.wf(words@),
        ensures
            yields(
                final(self)@,
                final(adi)@,
                turn@,
                mem_csw(old(self)@, old(adi)@, job, words@).after(scans@),
            ),
    {
        let want = job.csw_for(self.csw);
        if self.csw_known && self.csw == want {
            self.enter_tar(adi, job, words, scans)
        } else {
            let inner = adi.write_adi(self.apsel, Port::AP, MemAPReg::CSW.index(), want);
            self.csw_done(adi, job, words, want, inner, scans)
        }
    }

    /// Goes on after a turn of the write of CSW.
    fn csw_done(
        &mut self,
        adi: &mut ArmDebugInterface,
        job: MemJob,
        words: Vec<u32>,
        want: u32,
        inner: WriteTurn,
        scans: Vec<Scan>,
    ) -> (turn: MemTurn)
        requires
            job.wf(words@),
        ensures
            yields(
                final(self)@,
                final(adi)@,
                turn@,
                mem_csw_done(old(self)@, old(adi)@, job, words@, want, inner@).after(scans@),
            ),
    {
        let scans = join(scans, inner.scans);
        match inner.poll {
            Poll::Pending(inner) => pending(job, MemStage::Csw { want, inner }, words, 0, scans),
            Poll::Ready(Ok(())) => {
                self.csw = want;
                self.csw_known = true;
                self.enter_tar(adi, job, words, scans)
            },
            Poll::Ready(Err(code)) => {
                self.csw_known = false;
                ready(Err(code), scans)
            },
        }
    }

    /// Goes on after a turn of the fetch of a queued answer.
    fn fetch_done(&mut self, adi: &mut ArmDebugInterface, inner: ReadTurn) -> (turn: MemTurn)
        ensures
            yields(
                final(self)@,
                final(adi)@,
                turn@,
                mem_fetch_done(old(self)@, old(adi)@, inner@),
            ),
    {
        match inner.poll {
            Poll::Pending(task) => pending(
                MemJob::Finish,
                MemStage::Fetch { inner: task },
                Vec::new(),
                0,
                inner.scans,
            ),
            Poll::Ready(Ok(word)) => ready(Ok(MemValue::Word(word)), inner.scans),
            Poll::Ready(Err(code)) => ready(Err(code), inner.scans),
        }
    }

    /// Goes on after a turn of the read of TAR into its shadow.
    fn probe_tar_done(
        &mut self,
        adi: &mut ArmDebugInterface,
        inner: ReadTurn,
        scans: Vec<Scan>,
    ) -> (turn: MemTurn)
        ensures
            yields(
                final(self)@,
                final(adi)@,
                turn@,
                mem_probe_tar_done(old(self)@, old(adi)@, inner@).after(scans@),
            ),
    {
        let scans = join(scans, inner.scans);
        match inner.poll {
            Poll::Pending(inner) => pending(
                MemJob::Probe,
                MemStage::ProbeTar { inner },
                Vec::new(),
                0,
                scans,
            ),
            Poll::Ready(Ok(word)) => {
                self.tar = Some(word);
                ready(Ok(MemValue::Unit), scans)
            },
            Poll::Ready(Err(code)) => ready(Err(code), scans),
        }
    }

    /// Goes on after a turn of the read of CSW into its shadow.
    fn probe_csw_done(&mut self, adi: &mut ArmDebugInterface, inner: ReadTurn) -> (turn: MemTurn)
        ensures
            yields(
                final(self)@,
                final(adi)@,
                turn@,
                mem_probe_csw_done(old(self)@, old(adi)@, inner@),
            ),
    {
        match inner.poll {
            Poll::Pending(task) => pending(
                MemJob::Probe,
                MemStage::ProbeCsw { inner: task },
                Vec::new(),
                0,
                inner.scans,
            ),
            Poll::Ready(Ok(word)) => {
                self.csw = word;
                self.csw_known = true;
                let next = adi.read_adi(self.apsel, Port::AP, MemAPReg::TAR.index());
                self.probe_tar_done(adi, next, inner.scans)
            },
            Poll::Ready(Err(code)) => ready(Err(code), inner.scans),
        }
    }
}

impl MemAP {
    /// The port's number.
    pub fn apsel(&self) -> (apsel: u32)
        ensures
            apsel == self@.apsel,
    {
        self.apsel
    }

    /// The value that CSW is known to hold, if any.
    pub fn csw(&self) -> (csw: Option<u32>)
        ensures
            csw == if self@.csw_known {
                Some(self@.csw)
            } else {
                None
            },
    {
        if self.csw_known {
            Some(self.csw)
        } else {
            None
        }
    }

    /// The value that TAR is known to hold, if any.
    pub fn tar(&self) -> (tar: Option<u32>)
        ensures
            tar == self@.tar,
    {
        self.tar
    }

    /// Takes the first turn of a job.
    fn begin(&mut self, adi: &mut ArmDebugInterface, job: MemJob, words: Vec<u32>) -> (turn:
        MemTurn)
        requires
            job.wf(words@),
        ensures
            (MemOut { mem: final(self)@, adi: final(adi)@, step: turn@ }) == mem_begin(
                old(self)@,
                old(adi)@,
                job,
                words@,
            ),
    {
        let turn = match job {
            MemJob::Probe => {
                let inner = adi.read_adi(self.apsel, Port::AP, MemAPReg::CSW.index());
                self.probe_csw_done(adi, inner)
            },
            MemJob::Finish => {
                let inner = adi.finish_read();
                self.fetch_done(adi, inner)
            },
            _ => self.enter_csw(adi, job, words, Vec::new()),
        };
        turn
    }

    /// The access port `apsel` behind `adi`, with nothing known of it, and
    /// the first turn of the operation that reads its CSW and then its TAR
    /// into the shadows.
    pub fn new(adi: &mut ArmDebugInterface, apsel: u32) -> (out: (MemAP, MemTurn))
        ensures
            (MemOut { mem: out.0@, adi: final(adi)@, step: out.1@ }) == mem_begin(
                unknown(apsel),
                old(adi)@,
                MemJob::Probe,
                seq![],
            ),
    {
        let mut mem = MemAP { apsel, csw: 0, csw_known: false, tar: None };
        let turn = mem.begin(adi, MemJob::Probe, Vec::new());
        (mem, turn)
    }

    /// Sets the port's control and status word. CSW is written, checked,
    /// unless its shadow is known to hold `csw`; the shadow holds `csw` once
    /// the write went through and is not relied on again where it failed.
    pub fn write_csw(&mut self, adi: &mut ArmDebugInterface, csw: u32) -> (turn: MemTurn)
        ensures
            (MemOut { mem: final(self)@, adi: final(adi)@, step: turn@ }) == mem_begin(
                old(self)@,
                old(adi)@,
                MemJob::WriteCsw { csw },
                seq![],
            ),
    {
        self.begin(adi, MemJob::WriteCsw { csw }, Vec::new())
    }

    /// Reads the word at `addr`: auto-increment is switched off, TAR set to
    /// `addr`, DRW read and CTRL/STAT read, each step skipped where the
    /// shadows show it to be done. The operation ends with the word, with the
    /// acknowledgement that stopped it, or with `STICKY_STATUS`.
    pub fn read(&mut self, adi: &mut ArmDebugInterface, addr: u32) -> (turn: MemTurn)
        ensures
            (MemOut { mem: final(self)@, adi: final(adi)@, step: turn@ }) == mem_begin(
                old(self)@,
                old(adi)@,
                MemJob::Read { addr },
                seq![],
            ),
    {
        self.begin(adi, MemJob::Read { addr }, Vec::new())
    }

    /// Asks for the word at `addr` and leaves the answer in the transport's
    /// queue: as `read`, but TAR is written unchecked, the read of DRW is
    /// queued only, and CTRL/STAT is left alone. The operation ends with the
    /// transport's word on whether it took the read; where it did not, the
    /// shadow of TAR is forgotten.
    pub fn queue_read(&mut self, adi: &mut ArmDebugInterface, addr: u32) -> (turn: MemTurn)
        ensures
            (MemOut { mem: final(self)@, adi: final(adi)@, step: turn@ }) == mem_begin(
                old(self)@,
                old(adi)@,
                MemJob::QueueRead { addr },
                seq![],
            ),
    {
        self.begin(adi, MemJob::QueueRead { addr }, Vec::new())
    }

    /// Fetches the word that the oldest queued read asked for.
    pub fn finish_read(&mut self, adi: &mut ArmDebugInterface) -> (turn: MemTurn)
        ensures
            (MemOut { mem: final(self)@, adi: final(adi)@, step: turn@ }) == mem_begin(
                old(self)@,
                old(adi)@,
                MemJob::Finish,
                seq![],
            ),
    {
        self.begin(adi, MemJob::Finish, Vec::new())
    }

    /// Writes `value` to the word at `addr`: as `read`, with a checked write
    /// of DRW in place of the read.
    pub fn write(&mut self, adi: &mut ArmDebugInterface, addr: u32, value: u32) -> (turn: MemTurn)
        ensures
            (MemOut { mem: final(self)@, adi: final(adi)@, step: turn@ }) == mem_begin(
                old(self)@,
                old(adi)@,
                MemJob::Write { addr, value },
                seq![],
            ),
    {
        self.begin(adi, MemJob::Write { addr, value }, Vec::new())
    }

    /// Reads `count` words in one pipeline, from `addr` upwards if
    /// `auto_increment` is set and all of them at `addr` otherwise. Answers
    /// of WAIT are left out of the result; any other acknowledgement but OK
    /// ends the operation with that code. CTRL/STAT is read at the end if
    /// `check_status` is set. With `auto_increment` the shadow of TAR ends
    /// `count` words above `addr`.
    pub fn read_multi(
        &mut self,
        adi: &mut ArmDebugInterface,
        addr: u32,
        count: usize,
        auto_increment: bool,
        check_status: bool,
    ) -> (turn: MemTurn)
        requires
            count >= 1,
        ensures
            (MemOut { mem: final(self)@, adi: final(adi)@, step: turn@ }) == mem_begin(
                old(self)@,
                old(adi)@,
                MemJob::ReadMulti { addr, count, auto_increment, check_status },
                seq![],
            ),
    {
        self.begin(
            adi,
            MemJob::ReadMulti { addr, count, auto_increment, check_status },
            Vec::new(),
        )
    }

    /// Reads `count` consecutive words from `addr` upwards.
    pub fn read_block(
        &mut self,
        adi: &mut ArmDebugInterface,
        addr: u32,
        count: usize,
        check_status: bool,
    ) -> (turn: MemTurn)
        requires
            count >= 1,
        ensures
            (MemOut { mem: final(self)@, adi: final(adi)@, step: turn@ }) == mem_begin(
                old(self)@,
                old(adi)@,
                MemJob::ReadMulti { addr, count, auto_increment: true, check_status },
                seq![],
            ),
    {
        self.read_multi(adi, addr, count, true, check_status)
    }

    /// Writes `data` to consecutive words from `addr` upwards, in one stream
    /// of unchecked writes with auto-increment on. CTRL/STAT is read at the
    /// end if `check_status` is set. The shadow of TAR ends behind the last
    /// word.
    pub fn write_block(
        &mut self,
        adi: &mut ArmDebugInterface,
        addr: u32,
        data: &[u32],
        check_status: bool,
    ) -> (turn: MemTurn)
        requires
            data@.len() >= 1,
        ensures
            (MemOut { mem: final(self)@, adi: final(adi)@, step: turn@ }) == mem_begin(
                old(self)@,
                old(adi)@,
                MemJob::WriteBlock { addr, check_status },
                data@,
            ),
    {
        let words = keep_words(data);
        self.begin(adi, MemJob::WriteBlock { addr, check_status }, words)
    }

    /// Carries a pending operation on with the answer to its last scan.
    pub fn step(&mut self, adi: &mut ArmDebugInterface, task: MemTask, reply: Reply) -> (turn:
        MemTurn)
        requires
            task@.accepts(reply),
        ensures
            (MemOut { mem: final(self)@, adi: final(adi)@, step: turn@ }) == mem_step(
                old(self)@,
                old(adi)@,
                task@,
                reply,
            ),
    {
        let MemTask { job, stage, words, word } = task;
        let turn = match stage {
            MemStage::Csw { want, inner } => {
                let inner = adi.step_write(inner, reply);
                self.csw_done(adi, job, words, want, inner, Vec::new())
            },
            MemStage::Tar { inner } => {
                let inner = adi.step_write(inner, reply);
                self.tar_done(adi, job, words, inner, Vec::new())
            },
            MemStage::ReadDrw { inner } => {
                let inner = adi.step_read(inner, reply);
                self.read_done(adi, job, words, inner, Vec::new())
            },
            MemStage::WriteDrw { inner } => {
                let inner = adi.step_write(inner, reply);
                self.write_done(adi, job, words, inner, Vec::new())
            },
            MemStage::QueueDrw { inner } => {
                let inner = adi.step_queue(inner, reply);
                self.queue_done(adi, job, words, inner, Vec::new())
            },
            MemStage::Burst { inner } => {
                let inner = adi.step_pipelined(inner, reply);
                self.burst_done(adi, job, inner, Vec::new())
            },
            MemStage::Stat { inner } => {
                let inner = adi.step_read(inner, reply);
                self.stat_done(adi, job, words, word, inner, Vec::new())
            },
            MemStage::Fetch { inner } => {
                let inner = adi.step_read(inner, reply);
                self.fetch_done(adi, inner)
            },
            MemStage::ProbeCsw { inner } => {
                let inner = adi.step_read(inner, reply);
                self.probe_csw_done(adi, inner)
            },
            MemStage::ProbeTar { inner } => {
                let inner = adi.step_read(inner, reply);
                self.probe_tar_done(adi, inner, Vec::new())
            },
        };
        turn
    }
}

/// A port of which nothing is known yet.
pub open spec fn unknown(apsel: u32) -> MemView {
    MemView { apsel, csw: 0, csw_known: false, tar: None }
}

} // verus!

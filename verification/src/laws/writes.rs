//! Which registers the scans of an operation write, and how often.

use crate::adi::{
    begin_read, begin_write, pipe_step, queue_step, read_step, write_scans, write_step, AdiView,
    PipeTaskView, QueueTask, ReadTask, WriteJob, WritePhase, WriteTaskView,
};
use crate::laws::paths::shifted;
use crate::link::{Poll, Port, Reply, Scan};
use vstd::prelude::*;

verus! {

/// Whether `scan` writes the register numbered `reg` of the port in IR.
pub open spec fn writes(scan: Scan, reg: u8) -> bool {
    scan matches Scan::Write { reg: written, .. } && written == reg
}

/// Whether no scan among `scans` writes the register numbered `reg`.
pub open spec fn quiet(scans: Seq<Scan>, reg: u8) -> bool {
    forall|i: int| 0 <= i < scans.len() ==> !writes(#[trigger] scans[i], reg)
}

/// Whether a pending write has nothing left to write but SELECT and register
/// `keep`.
pub open spec fn only_writes(task: WriteTaskView, keep: u8) -> bool {
    match task.phase {
        WritePhase::Select { job, .. } => match job {
            WriteJob::Nothing => true,
            WriteJob::Single { reg, .. } => reg % 4 == keep,
            WriteJob::Stream { .. } => forall|i: int|
                0 <= i < task.items.len() ==> (#[trigger] task.items[i]).0 % 4 == keep,
            WriteJob::PowerUp => false,
        },
        WritePhase::Ack { reg, next, .. } => reg % 4 == keep && next is Finish,
    }
}

/// A write that has only SELECT and one register left to write writes no other.
pub proof fn lemma_quiet_write(adi: AdiView, task: WriteTaskView, reply: Reply, keep: u8, reg: u8)
    requires
        only_writes(task, keep),
        reg != keep,
        reg != crate::adi::DPReg::Select.addr(),
    ensures
        quiet(write_step(adi, task, reply).1.scans, reg),
        write_step(adi, task, reply).1.poll matches Poll::Pending(next) ==> only_writes(next, keep),
{
}

/// A write to a register begins with nothing but SELECT and that register
/// to write.
pub proof fn lemma_quiet_begin_write(
    adi: AdiView,
    apsel: u32,
    port: Port,
    to: u8,
    val: u32,
    check: bool,
    reg: u8,
)
    requires
        reg != to % 4,
        reg != crate::adi::DPReg::Select.addr(),
    ensures
        quiet(begin_write(adi, apsel, port, to, val, check).1.scans, reg),
        begin_write(adi, apsel, port, to, val, check).1.poll matches Poll::Pending(next)
            ==> only_writes(next, to % 4),
{
}

/// A stream to one register begins with nothing but SELECT and that register
/// to write.
pub proof fn lemma_quiet_begin_stream(
    adi: AdiView,
    apsel: u32,
    port: Port,
    items: Seq<(u8, u32)>,
    to: u8,
    reg: u8,
)
    requires
        forall|i: int| 0 <= i < items.len() ==> (#[trigger] items[i]).0 % 4 == to,
        reg != to,
        reg != crate::adi::DPReg::Select.addr(),
    ensures
        quiet(crate::adi::begin_stream(adi, apsel, port, items).1.scans, reg),
        crate::adi::begin_stream(adi, apsel, port, items).1.poll matches Poll::Pending(next)
            ==> only_writes(next, to),
{
}

/// An operation that reads writes no register but SELECT.
pub proof fn lemma_quiet_reads(adi: AdiView, reply: Reply, reg: u8)
    requires
        reg != crate::adi::DPReg::Select.addr(),
    ensures
        forall|apsel: u32, port: Port, from: u8|
            quiet((#[trigger] begin_read(adi, apsel, port, from)).1.scans, reg),
        forall|apsel: u32, port: Port, from: u8|
            quiet((#[trigger] crate::adi::begin_queue(adi, apsel, port, from)).1.scans, reg),
        forall|apsel: u32, port: Port, regs: Seq<u8>|
            quiet((#[trigger] crate::adi::begin_pipelined(adi, apsel, port, regs)).1.scans, reg),
        forall|task: ReadTask| quiet((#[trigger] read_step(adi, task, reply)).1.scans, reg),
        forall|task: QueueTask| quiet((#[trigger] queue_step(adi, task, reply)).1.scans, reg),
        forall|task: PipeTaskView| quiet((#[trigger] pipe_step(adi, task, reply)).1.scans, reg),
        quiet(crate::adi::read_fetch().scans, reg),
{
}

/// How many of `scans` write the register numbered `reg`.
pub open spec fn writes_to(scans: Seq<Scan>, reg: u8) -> nat
    decreases scans.len(),
{
    if scans.len() == 0 {
        0
    } else {
        writes_to(scans.drop_last(), reg) + if writes(scans.last(), reg) {
            1nat
        } else {
            0nat
        }
    }
}

/// Writes add up over scans done one after another.
pub proof fn lemma_writes_add(first: Seq<Scan>, second: Seq<Scan>, reg: u8)
    ensures
        writes_to(first + second, reg) == writes_to(first, reg) + writes_to(second, reg),
    decreases second.len(),
{
    if second.len() == 0 {
        assert(first + second =~= first);
    } else {
        assert((first + second).drop_last() =~= first + second.drop_last());
        lemma_writes_add(first, second.drop_last(), reg);
    }
}

/// Scans of which none writes a register write it no times.
pub proof fn lemma_writes_quiet(scans: Seq<Scan>, reg: u8)
    requires
        quiet(scans, reg),
    ensures
        writes_to(scans, reg) == 0,
    decreases scans.len(),
{
    if scans.len() > 0 {
        lemma_writes_quiet(scans.drop_last(), reg);
    }
}

/// One attempt of a write writes its register once and no other.
pub proof fn lemma_writes_attempt(
    adi: AdiView,
    port: Port,
    to: u8,
    val: u32,
    check: bool,
    reg: u8,
)
    ensures
        writes_to(write_scans(adi, port, to, val, check), reg) == if to % 4 == reg {
            1nat
        } else {
            0nat
        },
{
    let ir = crate::adi::ir_scans(adi, port);
    let write = Scan::Write { reg: to % 4, val };
    lemma_writes_quiet(ir, reg);
    let shifted = ir.push(write);
    assert(shifted.drop_last() =~= ir);
    assert(writes_to(shifted, reg) == writes_to(ir, reg) + if writes(write, reg) {
        1nat
    } else {
        0nat
    });
    let fetched = shifted.push(Scan::ReadDr);
    assert(fetched.drop_last() =~= shifted);
    assert(writes_to(fetched, reg) == writes_to(shifted, reg));
}

} // verus!

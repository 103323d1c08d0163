//! What holds of the engine whatever the target answers.

use crate::adi::{
    pipe_ends, pipe_step, queue_ends, queue_step, read_ends, read_step, write_ends, write_step,
    AdiView, PipeStep, PipeTaskView, QueueTask, ReadStep, ReadTask, WriteStep, WriteTaskView,
};
use crate::link::{Poll, Reply, Scan};
use crate::wire::{ACK_OK, ACK_WAIT};
use vstd::prelude::*;

pub mod ir;
pub mod paths;
pub mod select;
pub mod turns;
pub mod writes;

verus! {

/// The answers of a target that says WAIT `waits` times and then `ack`.
pub open spec fn waits_then(waits: nat, ack: u8) -> Seq<Reply> {
    Seq::new(
        waits + 1,
        |i: int|
            Reply::Shifted {
                ack: if i < waits {
                    ACK_WAIT
                } else {
                    ack
                },
                data: 0,
            },
    )
}

/// `times` attempts of a checked write to a port whose instruction is in IR.
pub open spec fn attempts(reg: u8, val: u32, times: nat) -> Seq<Scan>
    decreases times,
{
    if times == 0 {
        seq![]
    } else {
        seq![Scan::Write { reg: reg % 4, val }, Scan::ReadDr] + attempts(
            reg,
            val,
            (times - 1) as nat,
        )
    }
}

/// A pending write carried on over `replies`, one turn for each, until it is
/// over, they run out or one of them is no answer that it takes. The scans
/// of all turns are gathered.
pub open spec fn write_run(adi: AdiView, step: WriteStep, replies: Seq<Reply>) -> (
    AdiView,
    WriteStep,
)
    decreases replies.len(),
{
    match step.poll {
        Poll::Ready(_) => (adi, step),
        Poll::Pending(task) => if replies.len() == 0 || !task.accepts(replies[0]) {
            (adi, step)
        } else {
            let (adi, next) = write_step(adi, task, replies[0]);
            write_run(adi, next.after(step.scans), replies.skip(1))
        },
    }
}

/// A pending read carried on over `replies`, as `write_run` does for a write.
pub open spec fn read_run(adi: AdiView, step: ReadStep, replies: Seq<Reply>) -> (AdiView, ReadStep)
    decreases replies.len(),
{
    match step.poll {
        Poll::Ready(_) => (adi, step),
        Poll::Pending(task) => if replies.len() == 0 || !task.accepts(replies[0]) {
            (adi, step)
        } else {
            let (adi, next) = read_step(adi, task, replies[0]);
            read_run(adi, next.after(step.scans), replies.skip(1))
        },
    }
}

/// A pending pipelined read carried on over `replies`, as `write_run` does
/// for a write.
pub open spec fn pipe_run(adi: AdiView, step: PipeStep, replies: Seq<Reply>) -> (
    AdiView,
    PipeStep,
)
    decreases replies.len(),
{
    match step.poll {
        Poll::Ready(_) => (adi, step),
        Poll::Pending(task) => if replies.len() == 0 || !task.accepts(replies[0]) {
            (adi, step)
        } else {
            let (adi, next) = pipe_step(adi, task, replies[0]);
            pipe_run(adi, next.after(step.scans), replies.skip(1))
        },
    }
}

/// An acknowledgement that is neither OK nor WAIT ends a pending write, and a
/// read, a queued read or a pipelined read that waits for SELECT, with that
/// code; any acknowledgement but OK ends a read that fetches its data with
/// that code. Nothing more is shifted.
pub proof fn law_fault_ends(adi: AdiView, ack: u8, data: u32)
    requires
        ack != ACK_OK,
    ensures
        forall|task: WriteTaskView|
            ack != ACK_WAIT ==> (#[trigger] write_step(adi, task, Reply::Shifted { ack, data })).1
                == write_ends(Err(ack)),
        forall|task: ReadTask|
            task is Data || (task is Select && ack != ACK_WAIT) ==> (#[trigger] read_step(
                adi,
                task,
                Reply::Shifted { ack, data },
            )).1 == read_ends(Err(ack)),
        forall|task: QueueTask|
            task is Select && ack != ACK_WAIT ==> (#[trigger] queue_step(
                adi,
                task,
                Reply::Shifted { ack, data },
            )).1 == queue_ends(Err(ack)),
        forall|task: PipeTaskView|
            task.phase is Select && ack != ACK_WAIT ==> (#[trigger] pipe_step(
                adi,
                task,
                Reply::Shifted { ack, data },
            )).1 == pipe_ends(seq![Err(ack)]),
{
}

} // verus!

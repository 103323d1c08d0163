//! The conversation with the transport: every turn of an operation of the
//! engine ends with the one scan that is answered, and the operation takes
//! the answer.

use crate::adi::{
    pipe_step, queue_step, read_step, select_then, write_issue, write_step, AdiView,
    PipeTaskView, QueueTask, ReadTask, WriteJob, WriteNext, WriteTaskView,
};
use crate::link::{Poll, Port, Reply, Scan};
use vstd::prelude::*;

verus! {

/// Whether the transport answers `scan`.
pub open spec fn answered(scan: Scan) -> bool {
    scan is ReadDr || scan is QueueRead || scan is QueueRequest || scan is Finish
}

/// Whether `reply` is an answer that the transport can give to `scan`: the
/// register's contents to a scan that shifts it out, its word on the queue
/// to a scan that is offered to the queue.
pub open spec fn answers(scan: Scan, reply: Reply) -> bool {
    match scan {
        Scan::ReadDr => reply is Shifted,
        Scan::Finish => reply is Shifted,
        Scan::QueueRead => reply is Queued,
        Scan::QueueRequest { .. } => reply is Queued,
        _ => false,
    }
}

/// Whether none of `scans` is answered.
pub open spec fn silent(scans: Seq<Scan>) -> bool {
    forall|i: int| 0 <= i < scans.len() ==> !answered(#[trigger] scans[i])
}

/// Whether the last of `scans`, and no other, is answered.
pub open spec fn asks(scans: Seq<Scan>) -> bool {
    &&& scans.len() >= 1
    &&& answered(scans.last())
    &&& silent(scans.drop_last())
}

/// A turn of a write asks one question, as its last scan, while the write
/// is pending, and none when it is over. The pending write goes on with any
/// answer to that question.
pub proof fn law_write_turns(adi: AdiView, task: WriteTaskView, reply: Reply)
    ensures
        ({
            let (_, step) = write_step(adi, task, reply);
            match step.poll {
                Poll::Pending(next) => asks(step.scans) && forall|answer: Reply|
                    answers(step.scans.last(), answer) ==> #[trigger] next.accepts(answer),
                Poll::Ready(_) => silent(step.scans),
            }
        }),
        forall|bank: u32, job: WriteJob, items: Seq<(u8, u32)>|
            match (#[trigger] select_then(adi, bank, job, items)).1.poll {
                Poll::Pending(next) => asks(select_then(adi, bank, job, items).1.scans)
                    && forall|answer: Reply|
                    answers(select_then(adi, bank, job, items).1.scans.last(), answer)
                        ==> #[trigger] next.accepts(answer),
                Poll::Ready(_) => silent(select_then(adi, bank, job, items).1.scans),
            },
        forall|port: Port, reg: u8, val: u32, check: bool|
            match (#[trigger] write_issue(adi, port, reg, val, check, WriteNext::Finish)).1.poll {
                Poll::Pending(next) => asks(
                    write_issue(adi, port, reg, val, check, WriteNext::Finish).1.scans,
                ) && forall|answer: Reply|
                    answers(
                        write_issue(adi, port, reg, val, check, WriteNext::Finish).1.scans.last(),
                        answer,
                    ) ==> #[trigger] next.accepts(answer),
                Poll::Ready(_) => silent(
                    write_issue(adi, port, reg, val, check, WriteNext::Finish).1.scans,
                ),
            },
{
}

/// A turn of a read asks one question while the read is pending and none
/// when it is over. The pending read goes on with any answer to that
/// question but the refusal to queue its fetch.
pub proof fn law_read_turns(adi: AdiView, task: ReadTask, reply: Reply)
    ensures
        ({
            let (_, step) = read_step(adi, task, reply);
            match step.poll {
                Poll::Pending(next) => asks(step.scans) && forall|answer: Reply|
                    answers(step.scans.last(), answer) && answer != Reply::Queued(false)
                        ==> #[trigger] next.accepts(answer),
                Poll::Ready(_) => silent(step.scans),
            }
        }),
        forall|bank: u32, port: Port, reg: u8|
            asks((#[trigger] crate::adi::read_select(adi, bank, port, reg)).1.scans) && (
            crate::adi::read_select(adi, bank, port, reg).1.poll matches Poll::Pending(next)
                && forall|answer: Reply|
                answers(crate::adi::read_select(adi, bank, port, reg).1.scans.last(), answer)
                    && answer != Reply::Queued(false) ==> #[trigger] next.accepts(answer)),
        asks(crate::adi::read_fetch().scans),
{
}

/// A turn of a queued read asks one question while the read is pending and
/// none when it is over. The pending read goes on with any answer to that
/// question.
pub proof fn law_queue_turns(adi: AdiView, task: QueueTask, reply: Reply)
    ensures
        ({
            let (_, step) = queue_step(adi, task, reply);
            match step.poll {
                Poll::Pending(next) => asks(step.scans) && forall|answer: Reply|
                    answers(step.scans.last(), answer) ==> #[trigger] next.accepts(answer),
                Poll::Ready(_) => silent(step.scans),
            }
        }),
        forall|bank: u32, port: Port, reg: u8|
            asks((#[trigger] crate::adi::queue_select(adi, bank, port, reg)).1.scans) && (
            crate::adi::queue_select(adi, bank, port, reg).1.poll matches Poll::Pending(next)
                && forall|answer: Reply|
                answers(crate::adi::queue_select(adi, bank, port, reg).1.scans.last(), answer)
                    ==> #[trigger] next.accepts(answer)),
{
}

/// A turn of a pipelined read asks one question while the read is pending
/// and none when it is over. The pending read goes on with any answer to
/// that question.
pub proof fn law_pipelined_turns(adi: AdiView, task: PipeTaskView, reply: Reply)
    requires
        task.accepts(reply),
    ensures
        ({
            let (_, step) = pipe_step(adi, task, reply);
            match step.poll {
                Poll::Pending(next) => asks(step.scans) && forall|answer: Reply|
                    answers(step.scans.last(), answer) ==> #[trigger] next.accepts(answer),
                Poll::Ready(_) => silent(step.scans),
            }
        }),
{
}

/// The first turn of a pipelined read asks one question, and the read goes
/// on with any answer to it.
pub proof fn law_pipelined_begins(adi: AdiView, bank: u32, port: Port, regs: Seq<u8>)
    requires
        1 <= regs.len() <= usize::MAX,
    ensures
        ({
            let (_, step) = crate::adi::pipe_select(adi, bank, port, regs);
            &&& asks(step.scans)
            &&& step.poll matches Poll::Pending(next) && forall|answer: Reply|
                answers(step.scans.last(), answer) ==> #[trigger] next.accepts(answer)
        }),
{
}

} // verus!

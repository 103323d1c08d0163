//! What holds of operations on a memory access port whatever the target
//! answers.

use crate::adi::{AdiView, ReadTask};
use crate::link::{Poll, Reply};
use crate::memap::{mem_ready, mem_step, MemOut, MemStageView, MemTaskView, MemView, STICKY_STATUS};
use crate::wire::{ACK_OK, ACK_WAIT};
use vstd::prelude::*;

pub mod caches;
pub mod paths;
pub mod turns;

verus! {

/// A pending operation carried on over `replies`, one turn for each, until
/// it is over, they run out or one of them is no answer that it takes. The
/// scans of all turns are gathered.
pub open spec fn mem_run(out: MemOut, replies: Seq<Reply>) -> MemOut
    decreases replies.len(),
{
    match out.step.poll {
        Poll::Ready(_) => out,
        Poll::Pending(task) => if replies.len() == 0 || !task.accepts(replies[0]) {
            out
        } else {
            mem_run(
                mem_step(out.mem, out.adi, task, replies[0]).after(out.step.scans),
                replies.skip(1),
            )
        },
    }
}

proof fn lemma_sticky_bits(stat: u32)
    by (bit_vector)
    ensures
        stat & 5 != 0 <==> (stat & 1 != 0 || stat & 4 != 0),
{
}

/// An operation that reads CTRL/STAT at its end fails with `STICKY_STATUS`
/// if bit 0 or bit 2 of the register is set, and hands back what it has if
/// neither is.
pub proof fn law_sticky_status(mem: MemView, adi: AdiView, task: MemTaskView, stat: u32)
    requires
        task.stage == (MemStageView::Stat { inner: ReadTask::Data }),
    ensures
        mem_step(mem, adi, task, Reply::Shifted { ack: ACK_OK, data: stat }) == mem_ready(
            mem,
            adi,
            seq![],
            if stat & 1 != 0 || stat & 4 != 0 {
                Err(STICKY_STATUS)
            } else {
                Ok(task.job.value(task.word, task.words))
            },
        ),
{
    lemma_sticky_bits(stat);
}

/// Whether the operation is fetching the answers of a pipelined read.
pub open spec fn draining(task: MemTaskView) -> bool {
    task.stage matches MemStageView::Burst { inner } && inner.phase is Drain
}

/// Whether the operation is fetching data: a word of DRW, CTRL/STAT, the
/// answer of a queued read, or a register for its shadow.
pub open spec fn fetching(task: MemTaskView) -> bool {
    match task.stage {
        MemStageView::ReadDrw { inner } => inner is Data,
        MemStageView::Stat { inner } => inner is Data,
        MemStageView::Fetch { inner } => inner is Data,
        MemStageView::ProbeCsw { inner } => inner is Data,
        MemStageView::ProbeTar { inner } => inner is Data,
        _ => false,
    }
}

/// An acknowledgement that is neither OK nor WAIT ends an operation with
/// that code, and so does WAIT where the operation fetches data; nothing
/// more is shifted. The one exception is a pipelined read that is fetching
/// its answers: it fetches them all.
pub proof fn law_fault_ends(mem: MemView, adi: AdiView, task: MemTaskView, ack: u8, data: u32)
    requires
        task.accepts(Reply::Shifted { ack, data }),
        ack != ACK_OK,
        ack != ACK_WAIT || fetching(task),
        !draining(task),
    ensures
        mem_step(mem, adi, task, Reply::Shifted { ack, data }).step == mem_ready(
            mem,
            adi,
            seq![],
            Err(ack),
        ).step,
{
    match task.stage {
        MemStageView::Burst { inner } => {
            let failed = seq![Err::<u32, u8>(ack)];
            assert(failed.drop_last() =~= Seq::<Result<u32, u8>>::empty());
            assert(crate::memap::collect(failed.drop_last()) == Ok::<Seq<u32>, u8>(seq![]));
            assert(crate::memap::collect(failed) == Err::<Seq<u32>, u8>(ack));
        },
        _ => {},
    }
}

/// A write of CSW or of TAR that the target refuses leaves the shadow of
/// that register unknown.
pub proof fn law_refused_write_forgets(
    mem: MemView,
    adi: AdiView,
    task: MemTaskView,
    ack: u8,
    data: u32,
)
    requires
        ack != ACK_OK,
        ack != ACK_WAIT,
    ensures
        task.stage is Csw ==> !mem_step(
            mem,
            adi,
            task,
            Reply::Shifted { ack, data },
        ).mem.csw_known,
        task.stage is Tar ==> mem_step(mem, adi, task, Reply::Shifted { ack, data }).mem.tar
            is None,
{
}

/// Whether a turn ends its operation with an error.
pub open spec fn failed(out: MemOut) -> bool {
    out.step.poll matches Poll::Ready(Err(_))
}

/// A queued read that the transport refuses ends with that news and leaves
/// the shadow of TAR unknown. So does, with the error in place of the news,
/// a block that the target stops underway: a stream whose SELECT it refuses,
/// or a pipelined read with auto-increment in which an answer is neither OK
/// nor WAIT.
pub proof fn law_broken_transfer_forgets(mem: MemView, adi: AdiView, task: MemTaskView, reply: Reply)
    requires
        task.accepts(reply),
    ensures
        task.stage == (MemStageView::QueueDrw { inner: crate::adi::QueueTask::Queue }) && reply
            == Reply::Queued(false) ==> mem_step(mem, adi, task, reply) == mem_ready(
            MemView { tar: None, ..mem },
            adi,
            seq![],
            Ok(crate::memap::MemValueView::Queued(false)),
        ),
        (task.stage is Burst || task.stage is WriteDrw) && task.job.advances() && failed(
            mem_step(mem, adi, task, reply),
        ) ==> mem_step(mem, adi, task, reply).mem.tar is None,
{
}

/// Whether an answer of a pipelined read stops the read: its
/// acknowledgement is neither OK nor WAIT.
pub open spec fn fatal(result: Result<u32, u8>) -> bool {
    result matches Err(code) && code != ACK_WAIT
}

/// A pipelined read fails with the code of the first answer that stops it.
pub proof fn law_collect_fails(results: Seq<Result<u32, u8>>, at: int)
    requires
        0 <= at < results.len(),
        fatal(results[at]),
        forall|i: int| 0 <= i < at ==> !fatal(#[trigger] results[i]),
    ensures
        crate::memap::collect(results) == Err::<Seq<u32>, u8>(results[at]->Err_0),
    decreases results.len(),
{
    let front = results.drop_last();
    if at < results.len() - 1 {
        law_collect_fails(front, at);
    } else {
        law_collect_words(front);
    }
}

/// A pipelined read in which no answer stops the read hands back the data
/// of the answers that are OK, in order.
pub proof fn law_collect_words(results: Seq<Result<u32, u8>>)
    requires
        forall|i: int| 0 <= i < results.len() ==> !fatal(#[trigger] results[i]),
    ensures
        crate::memap::collect(results) == Ok::<Seq<u32>, u8>(
            results.filter(|result: Result<u32, u8>| result is Ok).map_values(
                |result: Result<u32, u8>| result->Ok_0,
            ),
        ),
    decreases results.len(),
{
    let ok = |result: Result<u32, u8>| result is Ok;
    let data = |result: Result<u32, u8>| result->Ok_0;
    if results.len() == 0 {
        assert(results.filter(ok).map_values(data) =~= Seq::<u32>::empty());
    } else {
        let front = results.drop_last();
        law_collect_words(front);
        reveal(Seq::filter);
        assert(results.filter(ok) == if ok(results.last()) {
            front.filter(ok).push(results.last())
        } else {
            front.filter(ok)
        });
        if ok(results.last()) {
            assert(front.filter(ok).push(results.last()).map_values(data) =~= front.filter(
                ok,
            ).map_values(data).push(data(results.last())));
        }
    }
}

} // verus!

//! The conversation with the transport: every turn of an operation ends with
//! the one scan that is answered, and the operation takes the answer; and IR
//! is shifted in a turn only where it does not hold what the turn needs.

use crate::adi::{AdiView, QueueTask, ReadTask};
use crate::laws::ir::{ir_kept, law_read_keeps_ir, law_write_keeps_ir, lemma_ir_after_add};
use crate::laws::turns::{
    answers, asks, law_pipelined_begins, law_pipelined_turns, law_queue_turns, law_read_turns,
    law_write_turns, silent,
};
use crate::link::{Poll, Reply, Scan};
use crate::memap::{
    burst_items, mem_begin, mem_step, MemAPReg, MemJob, MemOut, MemStageView, MemTaskView,
    MemView,
};
use vstd::prelude::*;

verus! {

/// Whether a turn asks one question, as its last scan, while the operation
/// is pending, and none when it is over, and the pending operation goes on
/// with any answer to the question; a refusal to queue is among them where
/// the operation queues a read or reads in a pipeline.
pub open spec fn courteous(out: MemOut) -> bool {
    match out.step.poll {
        Poll::Pending(next) => {
            &&& asks(out.step.scans)
            &&& forall|answer: Reply|
                answers(out.step.scans.last(), answer) && (answer != Reply::Queued(false)
                    || next.stage is QueueDrw || next.stage is Burst)
                    ==> #[trigger] next.accepts(answer)
        },
        Poll::Ready(_) => silent(out.step.scans),
    }
}

proof fn lemma_courteous_after(out: MemOut, before: Seq<Scan>)
    requires
        silent(before),
        courteous(out),
    ensures
        courteous(out.after(before)),
{
    let all = before + out.step.scans;
    if out.step.poll is Pending {
        assert(all.last() == out.step.scans.last());
        assert(all.drop_last() =~= before + out.step.scans.drop_last());
    }
}

proof fn lemma_courteous_stat(mem: MemView, adi: AdiView, job: MemJob, words: Seq<u32>, word: u32)
    ensures
        courteous(crate::memap::mem_stat(mem, adi, job, words, word)),
{
    law_read_turns(adi, ReadTask::Data, Reply::Queued(true));
}

proof fn lemma_courteous_drw(mem: MemView, adi: AdiView, job: MemJob, words: Seq<u32>)
    requires
        job.wf(words),
        words.len() <= usize::MAX,
    ensures
        courteous(crate::memap::mem_main(mem, adi, job, words)),
{
    let moved = MemView { tar: Some(job.tar_after(words)), ..mem };
    law_read_turns(adi, ReadTask::Data, Reply::Queued(true));
    law_write_turns(adi, arbitrary(), Reply::Queued(true));
    law_queue_turns(adi, QueueTask::Queue, Reply::Queued(true));
    match job {
        MemJob::Write { value, .. } => {
            let (then, step) = crate::adi::begin_write(
                adi,
                mem.apsel,
                crate::link::Port::AP,
                MemAPReg::DRW.addr(),
                value,
                true,
            );
            if step.poll is Ready {
                lemma_courteous_stat(mem, then, job, words, 0);
                lemma_courteous_after(crate::memap::mem_stat(mem, then, job, words, 0), step.scans);
            }
        },
        MemJob::ReadMulti { count, .. } => {
            law_pipelined_begins(
                adi,
                crate::adi::select_word(mem.apsel, 0, 0),
                crate::link::Port::AP,
                crate::memap::burst_regs(count),
            );
        },
        MemJob::WriteBlock { .. } => {
            let (then, step) = crate::adi::begin_stream(
                adi,
                mem.apsel,
                crate::link::Port::AP,
                burst_items(words),
            );
            if step.poll is Ready {
                lemma_courteous_stat(moved, then, job, words, 0);
                lemma_courteous_after(crate::memap::mem_stat(moved, then, job, words, 0), step.scans);
            }
        },
        _ => {},
    }
}

proof fn lemma_courteous_tar(mem: MemView, adi: AdiView, job: MemJob, words: Seq<u32>)
    requires
        job.wf(words),
        words.len() <= usize::MAX,
    ensures
        courteous(crate::memap::mem_tar(mem, adi, job, words)),
{
    law_write_turns(adi, arbitrary(), Reply::Queued(true));
    if job is WriteCsw {
        // the job ends with CSW: TAR is left alone
    } else if mem.tar == Some(job.addr()) {
        lemma_courteous_drw(mem, adi, job, words);
    } else {
        let (then, step) = crate::adi::begin_write(
            adi,
            mem.apsel,
            crate::link::Port::AP,
            MemAPReg::TAR.addr(),
            job.addr(),
            !(job is QueueRead),
        );
        let set = MemView { tar: Some(job.addr()), ..mem };
        if step.poll is Ready {
            lemma_courteous_drw(set, then, job, words);
            lemma_courteous_after(crate::memap::mem_main(set, then, job, words), step.scans);
        }
    }
}

proof fn lemma_courteous_csw(mem: MemView, adi: AdiView, job: MemJob, words: Seq<u32>)
    requires
        job.wf(words),
        words.len() <= usize::MAX,
    ensures
        courteous(crate::memap::mem_csw(mem, adi, job, words)),
{
    law_write_turns(adi, arbitrary(), Reply::Queued(true));
    let want = job.csw(mem.csw);
    if mem.csw_known && mem.csw == want {
        lemma_courteous_tar(mem, adi, job, words);
    }
}

/// The first turn of an operation asks one question, as its last scan, if
/// the operation is pending after it, and none if it is over; the pending
/// operation goes on with any answer to the question.
pub proof fn law_memory_begins(mem: MemView, adi: AdiView, job: MemJob, words: Seq<u32>)
    requires
        job.wf(words),
        words.len() <= usize::MAX,
    ensures
        courteous(mem_begin(mem, adi, job, words)),
{
    law_read_turns(adi, ReadTask::Data, Reply::Queued(true));
    match job {
        MemJob::Probe => {},
        MemJob::Finish => {},
        _ => {
            lemma_courteous_csw(mem, adi, job, words);
        },
    }
}

/// Every later turn of an operation asks one question, as its last scan, if
/// the operation is pending after it, and none if it is over; the pending
/// operation goes on with any answer to the question.
pub proof fn law_memory_turns(mem: MemView, adi: AdiView, task: MemTaskView, reply: Reply)
    requires
        task.accepts(reply),
        task.words.len() <= usize::MAX,
    ensures
        courteous(mem_step(mem, adi, task, reply)),
{
    let job = task.job;
    let words = task.words;
    match task.stage {
        MemStageView::Csw { want, inner } => {
            law_write_turns(adi, inner, reply);
            let (then, step) = crate::adi::write_step(adi, inner, reply);
            let set = MemView { csw: want, csw_known: true, ..mem };
            if step.poll is Ready {
                lemma_courteous_tar(set, then, job, words);
                lemma_courteous_after(crate::memap::mem_tar(set, then, job, words), step.scans);
            }
        },
        MemStageView::Tar { inner } => {
            law_write_turns(adi, inner, reply);
            let (then, step) = crate::adi::write_step(adi, inner, reply);
            let set = MemView { tar: Some(job.addr()), ..mem };
            if step.poll is Ready {
                lemma_courteous_drw(set, then, job, words);
                lemma_courteous_after(crate::memap::mem_main(set, then, job, words), step.scans);
            }
        },
        MemStageView::ReadDrw { inner } => {
            law_read_turns(adi, inner, reply);
            let (then, step) = crate::adi::read_step(adi, inner, reply);
            match step.poll {
                Poll::Ready(Ok(word)) => {
                    lemma_courteous_stat(mem, then, job, words, word);
                    lemma_courteous_after(
                        crate::memap::mem_stat(mem, then, job, words, word),
                        step.scans,
                    );
                },
                _ => {},
            }
        },
        MemStageView::WriteDrw { inner } => {
            law_write_turns(adi, inner, reply);
            let (then, step) = crate::adi::write_step(adi, inner, reply);
            if step.poll is Ready {
                lemma_courteous_stat(mem, then, job, words, 0);
                lemma_courteous_after(crate::memap::mem_stat(mem, then, job, words, 0), step.scans);
            }
        },
        MemStageView::QueueDrw { inner } => {
            law_queue_turns(adi, inner, reply);
        },
        MemStageView::Burst { inner } => {
            law_pipelined_turns(adi, inner, reply);
            let (then, step) = crate::adi::pipe_step(adi, inner, reply);
            match step.poll {
                Poll::Ready(results) => match crate::memap::collect(results) {
                    Ok(got) => {
                        lemma_courteous_stat(mem, then, job, got, 0);
                        lemma_courteous_after(
                            crate::memap::mem_stat(mem, then, job, got, 0),
                            step.scans,
                        );
                    },
                    _ => {},
                },
                _ => {},
            }
        },
        MemStageView::Stat { inner } => {
            law_read_turns(adi, inner, reply);
        },
        MemStageView::Fetch { inner } => {
            law_read_turns(adi, inner, reply);
        },
        MemStageView::ProbeCsw { inner } => {
            law_read_turns(adi, inner, reply);
            let (then, _) = crate::adi::read_step(adi, inner, reply);
            law_read_turns(then, ReadTask::Data, Reply::Queued(true));
        },
        MemStageView::ProbeTar { inner } => {
            law_read_turns(adi, inner, reply);
        },
    }
}

/// Whether the engine's belief of IR after a turn is what IR holds then,
/// given that its belief before the turn was, and IR was shifted only where
/// it had to be.
pub open spec fn keeps_ir(adi: AdiView, out: MemOut) -> bool {
    ir_kept(adi, out.step.scans, out.adi)
}

proof fn lemma_keeps_ir_after(adi: AdiView, before: Seq<Scan>, then: AdiView, out: MemOut)
    requires
        ir_kept(adi, before, then),
        keeps_ir(then, out),
    ensures
        keeps_ir(adi, out.after(before)),
{
    lemma_ir_after_add(adi.ir, before, out.step.scans);
}

proof fn lemma_keeps_ir_stat(mem: MemView, adi: AdiView, job: MemJob, words: Seq<u32>, word: u32)
    ensures
        keeps_ir(adi, crate::memap::mem_stat(mem, adi, job, words, word)),
{
    law_read_keeps_ir(adi, Reply::Queued(true));
}

proof fn lemma_keeps_ir_drw(mem: MemView, adi: AdiView, job: MemJob, words: Seq<u32>)
    ensures
        keeps_ir(adi, crate::memap::mem_main(mem, adi, job, words)),
{
    let moved = MemView { tar: Some(job.tar_after(words)), ..mem };
    let ap = crate::link::Port::AP;
    law_read_keeps_ir(adi, Reply::Queued(true));
    law_write_keeps_ir(adi, arbitrary(), Reply::Queued(true));
    match job {
        MemJob::Write { value, .. } => {
            let (then, step) = crate::adi::begin_write(
                adi,
                mem.apsel,
                ap,
                MemAPReg::DRW.addr(),
                value,
                true,
            );
            lemma_keeps_ir_stat(mem, then, job, words, 0);
            lemma_keeps_ir_after(
                adi,
                step.scans,
                then,
                crate::memap::mem_stat(mem, then, job, words, 0),
            );
        },
        MemJob::WriteBlock { .. } => {
            let (then, step) = crate::adi::begin_stream(adi, mem.apsel, ap, burst_items(words));
            lemma_keeps_ir_stat(moved, then, job, words, 0);
            lemma_keeps_ir_after(
                adi,
                step.scans,
                then,
                crate::memap::mem_stat(moved, then, job, words, 0),
            );
        },
        _ => {},
    }
}

proof fn lemma_keeps_ir_tar(mem: MemView, adi: AdiView, job: MemJob, words: Seq<u32>)
    ensures
        keeps_ir(adi, crate::memap::mem_tar(mem, adi, job, words)),
{
    law_write_keeps_ir(adi, arbitrary(), Reply::Queued(true));
    law_read_keeps_ir(adi, Reply::Queued(true));
    if job is WriteCsw {
        // the job ends with CSW: nothing is shifted
    } else if mem.tar == Some(job.addr()) {
        lemma_keeps_ir_drw(mem, adi, job, words);
    } else {
        let (then, step) = crate::adi::begin_write(
            adi,
            mem.apsel,
            crate::link::Port::AP,
            MemAPReg::TAR.addr(),
            job.addr(),
            !(job is QueueRead),
        );
        let set = MemView { tar: Some(job.addr()), ..mem };
        lemma_keeps_ir_drw(set, then, job, words);
        lemma_keeps_ir_after(adi, step.scans, then, crate::memap::mem_main(set, then, job, words));
    }
}

/// In the first turn of an operation the engine shifts IR only where IR
/// does not hold the instruction it needs, and it knows afterwards what IR
/// holds.
pub proof fn law_memory_begins_keeping_ir(
    mem: MemView,
    adi: AdiView,
    job: MemJob,
    words: Seq<u32>,
)
    ensures
        keeps_ir(adi, mem_begin(mem, adi, job, words)),
{
    law_read_keeps_ir(adi, Reply::Queued(true));
    law_write_keeps_ir(adi, arbitrary(), Reply::Queued(true));
    if !(job is Probe || job is Finish) {
        let want = job.csw(mem.csw);
        if mem.csw_known && mem.csw == want {
            lemma_keeps_ir_tar(mem, adi, job, words);
        }
    }
}

/// In every later turn of an operation the engine shifts IR only where IR
/// does not hold the instruction it needs, and it knows afterwards what IR
/// holds.
pub proof fn law_memory_keeps_ir(mem: MemView, adi: AdiView, task: MemTaskView, reply: Reply)
    ensures
        keeps_ir(adi, mem_step(mem, adi, task, reply)),
{
    let job = task.job;
    let words = task.words;
    law_read_keeps_ir(adi, reply);
    match task.stage {
        MemStageView::Csw { want, inner } => {
            law_write_keeps_ir(adi, inner, reply);
            let (then, step) = crate::adi::write_step(adi, inner, reply);
            let set = MemView { csw: want, csw_known: true, ..mem };
            lemma_keeps_ir_tar(set, then, job, words);
            lemma_keeps_ir_after(adi, step.scans, then, crate::memap::mem_tar(set, then, job, words));
        },
        MemStageView::Tar { inner } => {
            law_write_keeps_ir(adi, inner, reply);
            let (then, step) = crate::adi::write_step(adi, inner, reply);
            let set = MemView { tar: Some(job.addr()), ..mem };
            lemma_keeps_ir_drw(set, then, job, words);
            lemma_keeps_ir_after(
                adi,
                step.scans,
                then,
                crate::memap::mem_main(set, then, job, words),
            );
        },
        MemStageView::ReadDrw { inner } => {
            let (then, step) = crate::adi::read_step(adi, inner, reply);
            match step.poll {
                Poll::Ready(Ok(word)) => {
                    lemma_keeps_ir_stat(mem, then, job, words, word);
                    lemma_keeps_ir_after(
                        adi,
                        step.scans,
                        then,
                        crate::memap::mem_stat(mem, then, job, words, word),
                    );
                },
                _ => {},
            }
        },
        MemStageView::WriteDrw { inner } => {
            law_write_keeps_ir(adi, inner, reply);
            let (then, step) = crate::adi::write_step(adi, inner, reply);
            lemma_keeps_ir_stat(mem, then, job, words, 0);
            lemma_keeps_ir_after(
                adi,
                step.scans,
                then,
                crate::memap::mem_stat(mem, then, job, words, 0),
            );
        },
        MemStageView::Burst { inner } => {
            let (then, step) = crate::adi::pipe_step(adi, inner, reply);
            match step.poll {
                Poll::Ready(results) => match crate::memap::collect(results) {
                    Ok(got) => {
                        lemma_keeps_ir_stat(mem, then, job, got, 0);
                        lemma_keeps_ir_after(
                            adi,
                            step.scans,
                            then,
                            crate::memap::mem_stat(mem, then, job, got, 0),
                        );
                    },
                    _ => {},
                },
                _ => {},
            }
        },
        MemStageView::ProbeCsw { inner } => {
            let (then, step) = crate::adi::read_step(adi, inner, reply);
            law_read_keeps_ir(then, Reply::Queued(true));
            match step.poll {
                Poll::Ready(Ok(word)) => {
                    let set = MemView { csw: word, csw_known: true, ..mem };
                    let (last, next) = crate::adi::begin_read(
                        then,
                        mem.apsel,
                        crate::link::Port::AP,
                        MemAPReg::TAR.addr(),
                    );
                    lemma_keeps_ir_after(
                        adi,
                        step.scans,
                        then,
                        crate::memap::mem_probe_tar_done(set, last, next),
                    );
                },
                _ => {},
            }
        },
        _ => {},
    }
}

} // verus!

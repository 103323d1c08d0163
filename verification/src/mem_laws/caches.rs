//! The shadows of CSW and TAR: when an operation writes the registers, when
//! it leaves them alone, and what the shadows hold once it ended well.

use crate::adi::AdiView;
use crate::laws::writes::{
    lemma_quiet_begin_stream, lemma_quiet_begin_write, lemma_quiet_reads, lemma_quiet_write,
    lemma_writes_add, lemma_writes_attempt, lemma_writes_quiet, only_writes, quiet, writes_to,
};
use crate::link::{Poll, Reply, Scan};
use crate::mem_laws::mem_run;
use crate::memap::{
    burst_items, mem_begin, mem_step, MemAPReg, MemJob, MemOut, MemStageView, MemTaskView,
    MemView,
};
use crate::wire::{ACK_OK, ACK_WAIT};
use vstd::prelude::*;

verus! {

/// Whether a pending operation is past the write of register `reg` (CSW or
/// TAR), or will find it done: no stage that is left writes it.
pub open spec fn settled(mem: MemView, task: MemTaskView, reg: u8) -> bool {
    match task.stage {
        MemStageView::Csw { inner, .. } => {
            &&& reg != MemAPReg::CSW.addr()
            &&& only_writes(inner, MemAPReg::CSW.addr())
            &&& task.job is WriteCsw || mem.tar == Some(task.job.addr())
        },
        MemStageView::Tar { inner } => {
            &&& reg != MemAPReg::TAR.addr()
            &&& only_writes(inner, MemAPReg::TAR.addr())
        },
        MemStageView::WriteDrw { inner } => only_writes(inner, MemAPReg::DRW.addr()),
        _ => true,
    }
}

proof fn lemma_settled_step(mem: MemView, adi: AdiView, task: MemTaskView, reply: Reply, reg: u8)
    requires
        reg == MemAPReg::CSW.addr() || reg == MemAPReg::TAR.addr(),
        settled(mem, task, reg),
    ensures
        quiet(mem_step(mem, adi, task, reply).step.scans, reg),
        mem_step(mem, adi, task, reply).step.poll matches Poll::Pending(next) ==> settled(
            mem_step(mem, adi, task, reply).mem,
            next,
            reg,
        ),
{
    lemma_quiet_reads(adi, reply, reg);
    match task.stage {
        MemStageView::Csw { inner, .. } => {
            lemma_quiet_write(adi, inner, reply, MemAPReg::CSW.addr(), reg);
            let (then, _) = crate::adi::write_step(adi, inner, reply);
            lemma_settled_drw(mem, then, task.job, task.words, reg);
        },
        MemStageView::Tar { inner } => {
            lemma_quiet_write(adi, inner, reply, MemAPReg::TAR.addr(), reg);
            let (then, _) = crate::adi::write_step(adi, inner, reply);
            lemma_settled_drw(
                MemView { tar: Some(task.job.addr()), ..mem },
                then,
                task.job,
                task.words,
                reg,
            );
        },
        MemStageView::ReadDrw { inner } => {
            let (then, _) = crate::adi::read_step(adi, inner, reply);
            lemma_quiet_reads(then, reply, reg);
        },
        MemStageView::WriteDrw { inner } => {
            lemma_quiet_write(adi, inner, reply, MemAPReg::DRW.addr(), reg);
            let (then, _) = crate::adi::write_step(adi, inner, reply);
            lemma_quiet_reads(then, reply, reg);
        },
        MemStageView::Burst { inner } => {
            let (then, _) = crate::adi::pipe_step(adi, inner, reply);
            lemma_quiet_reads(then, reply, reg);
        },
        MemStageView::ProbeCsw { inner } => {
            let (then, _) = crate::adi::read_step(adi, inner, reply);
            lemma_quiet_reads(then, reply, reg);
        },
        _ => {},
    }
}

/// The traffic on DRW and what follows it write neither CSW nor TAR.
proof fn lemma_settled_drw(mem: MemView, adi: AdiView, job: MemJob, words: Seq<u32>, reg: u8)
    requires
        reg == MemAPReg::CSW.addr() || reg == MemAPReg::TAR.addr(),
    ensures
        quiet(crate::memap::mem_main(mem, adi, job, words).step.scans, reg),
        crate::memap::mem_main(mem, adi, job, words).step.poll matches Poll::Pending(next)
            ==> settled(crate::memap::mem_main(mem, adi, job, words).mem, next, reg),
{
    let reply = Reply::Queued(true);
    lemma_quiet_reads(adi, reply, reg);
    match job {
        MemJob::Read { .. } => {
            let (then, _) = crate::adi::begin_read(
                adi,
                mem.apsel,
                crate::link::Port::AP,
                MemAPReg::DRW.addr(),
            );
            lemma_quiet_reads(then, reply, reg);
        },
        MemJob::Write { value, .. } => {
            lemma_quiet_begin_write(
                adi,
                mem.apsel,
                crate::link::Port::AP,
                MemAPReg::DRW.addr(),
                value,
                true,
                reg,
            );
            let (then, _) = crate::adi::begin_write(
                adi,
                mem.apsel,
                crate::link::Port::AP,
                MemAPReg::DRW.addr(),
                value,
                true,
            );
            lemma_quiet_reads(then, reply, reg);
        },
        MemJob::ReadMulti { count, .. } => {
            let (then, _) = crate::adi::begin_pipelined(
                adi,
                mem.apsel,
                crate::link::Port::AP,
                crate::memap::burst_regs(count),
            );
            lemma_quiet_reads(then, reply, reg);
        },
        MemJob::WriteBlock { .. } => {
            lemma_quiet_begin_stream(
                adi,
                mem.apsel,
                crate::link::Port::AP,
                burst_items(words),
                MemAPReg::DRW.addr(),
                reg,
            );
            let (then, _) = crate::adi::begin_stream(
                adi,
                mem.apsel,
                crate::link::Port::AP,
                burst_items(words),
            );
            lemma_quiet_reads(then, reply, reg);
        },
        _ => {},
    }
}

proof fn lemma_settled_begin(mem: MemView, adi: AdiView, job: MemJob, words: Seq<u32>, reg: u8)
    requires
        reg == MemAPReg::CSW.addr() || reg == MemAPReg::TAR.addr(),
        reg == MemAPReg::CSW.addr() ==> mem.csw_known && mem.csw == job.csw(mem.csw),
        reg == MemAPReg::TAR.addr() ==> mem.tar == Some(job.addr()),
    ensures
        quiet(mem_begin(mem, adi, job, words).step.scans, reg),
        mem_begin(mem, adi, job, words).step.poll matches Poll::Pending(next) ==> settled(
            mem_begin(mem, adi, job, words).mem,
            next,
            reg,
        ),
{
    let reply = Reply::Queued(true);
    lemma_quiet_reads(adi, reply, reg);
    match job {
        MemJob::Probe => {
            let (then, _) = crate::adi::begin_read(
                adi,
                mem.apsel,
                crate::link::Port::AP,
                MemAPReg::CSW.addr(),
            );
            lemma_quiet_reads(then, reply, reg);
        },
        MemJob::Finish => {},
        _ => {
            let want = job.csw(mem.csw);
            if mem.csw_known && mem.csw == want {
                lemma_settled_tar(mem, adi, job, words, reg);
            } else {
                lemma_quiet_begin_write(
                    adi,
                    mem.apsel,
                    crate::link::Port::AP,
                    MemAPReg::CSW.addr(),
                    want,
                    true,
                    reg,
                );
            }
        },
    }
}

/// The write of TAR, where its shadow does not make it needless, and what
/// follows it do not write CSW.
proof fn lemma_settled_tar(mem: MemView, adi: AdiView, job: MemJob, words: Seq<u32>, reg: u8)
    requires
        reg == MemAPReg::CSW.addr() || reg == MemAPReg::TAR.addr(),
        reg == MemAPReg::TAR.addr() ==> job is WriteCsw || mem.tar == Some(job.addr()),
    ensures
        quiet(crate::memap::mem_tar(mem, adi, job, words).step.scans, reg),
        crate::memap::mem_tar(mem, adi, job, words).step.poll matches Poll::Pending(next)
            ==> settled(crate::memap::mem_tar(mem, adi, job, words).mem, next, reg),
{
    if job is WriteCsw {
        // the job ends with CSW: TAR is left alone
    } else if mem.tar == Some(job.addr()) {
        lemma_settled_drw(mem, adi, job, words, reg);
    } else {
        lemma_quiet_begin_write(
            adi,
            mem.apsel,
            crate::link::Port::AP,
            MemAPReg::TAR.addr(),
            job.addr(),
            !(job is QueueRead),
            reg,
        );
        let (then, _) = crate::adi::begin_write(
            adi,
            mem.apsel,
            crate::link::Port::AP,
            MemAPReg::TAR.addr(),
            job.addr(),
            !(job is QueueRead),
        );
        lemma_settled_drw(MemView { tar: Some(job.addr()), ..mem }, then, job, words, reg);
    }
}

proof fn lemma_settled_run(out: MemOut, replies: Seq<Reply>, reg: u8)
    requires
        reg == MemAPReg::CSW.addr() || reg == MemAPReg::TAR.addr(),
        quiet(out.step.scans, reg),
        out.step.poll matches Poll::Pending(task) ==> settled(out.mem, task, reg),
    ensures
        quiet(mem_run(out, replies).step.scans, reg),
    decreases replies.len(),
{
    match out.step.poll {
        Poll::Pending(task) => {
            if replies.len() > 0 && task.accepts(replies[0]) {
                lemma_settled_step(out.mem, out.adi, task, replies[0], reg);
                let next = mem_step(out.mem, out.adi, task, replies[0]).after(out.step.scans);
                lemma_settled_run(next, replies.skip(1), reg);
            }
        },
        _ => {},
    }
}

/// An operation that finds the shadow of TAR at its address never writes
/// TAR, whatever the target answers.
pub proof fn law_tar_cache(
    mem: MemView,
    adi: AdiView,
    job: MemJob,
    words: Seq<u32>,
    replies: Seq<Reply>,
)
    requires
        mem.tar == Some(job.addr()),
    ensures
        quiet(mem_run(mem_begin(mem, adi, job, words), replies).step.scans, MemAPReg::TAR.addr()),
{
    lemma_settled_begin(mem, adi, job, words, MemAPReg::TAR.addr());
    lemma_settled_run(mem_begin(mem, adi, job, words), replies, MemAPReg::TAR.addr());
}

/// An operation that finds the shadow of CSW at the value it needs never
/// writes CSW, whatever the target answers.
pub proof fn law_csw_cache(
    mem: MemView,
    adi: AdiView,
    job: MemJob,
    words: Seq<u32>,
    replies: Seq<Reply>,
)
    requires
        mem.csw_known,
        mem.csw == job.csw(mem.csw),
    ensures
        quiet(mem_run(mem_begin(mem, adi, job, words), replies).step.scans, MemAPReg::CSW.addr()),
{
    lemma_settled_begin(mem, adi, job, words, MemAPReg::CSW.addr());
    lemma_settled_run(mem_begin(mem, adi, job, words), replies, MemAPReg::CSW.addr());
}

/// Whether the job is one that moves data through DRW.
pub open spec fn transfers(job: MemJob) -> bool {
    job is Read || job is Write || job is QueueRead || job is ReadMulti || job is WriteBlock
}

/// Whether what an operation hands back is the news that the transport
/// refused a queued read.
pub open spec fn refused(value: crate::memap::MemValueView) -> bool {
    value == crate::memap::MemValueView::Queued(false)
}

/// Whether an operation that began with CSW's shadow at `csw` is where its
/// job, and the shadows, say it should be.
pub open spec fn on_course(out: MemOut, apsel: u32, csw: u32, job: MemJob, words: Seq<u32>) -> bool {
    let csw_set = out.mem.csw_known && out.mem.csw == job.csw(csw);
    let tar_set = out.mem.tar == Some(job.tar_after(words));
    &&& out.mem.apsel == apsel
    &&& match out.step.poll {
        Poll::Pending(task) => {
            &&& task.job == job
            &&& match task.stage {
                MemStageView::Csw { want, .. } => {
                    &&& want == job.csw(csw)
                    &&& task.words == words
                },
                MemStageView::Tar { .. } => transfers(job) && csw_set && task.words == words,
                MemStageView::ReadDrw { .. } => transfers(job) && csw_set && tar_set,
                MemStageView::WriteDrw { .. } => transfers(job) && csw_set && tar_set,
                MemStageView::QueueDrw { .. } => transfers(job) && csw_set && tar_set,
                MemStageView::Burst { .. } => transfers(job) && csw_set && tar_set,
                MemStageView::Stat { .. } => transfers(job) && csw_set && tar_set,
                _ => false,
            }
        },
        Poll::Ready(Ok(value)) => csw_set && (transfers(job) && !refused(value) ==> tar_set),
        Poll::Ready(Err(_)) => true,
    }
}

proof fn lemma_course_stat(
    mem: MemView,
    adi: AdiView,
    csw: u32,
    job: MemJob,
    words: Seq<u32>,
    got: Seq<u32>,
    word: u32,
)
    requires
        transfers(job),
        mem.csw_known && mem.csw == job.csw(csw),
        mem.tar == Some(job.tar_after(words)),
    ensures
        on_course(crate::memap::mem_stat(mem, adi, job, got, word), mem.apsel, csw, job, words),
{
}

proof fn lemma_course_drw(mem: MemView, adi: AdiView, csw: u32, job: MemJob, words: Seq<u32>)
    requires
        transfers(job),
        mem.csw_known && mem.csw == job.csw(csw),
        mem.tar == Some(job.addr()),
    ensures
        on_course(crate::memap::mem_main(mem, adi, job, words), mem.apsel, csw, job, words),
{
    let moved = MemView { tar: Some(job.tar_after(words)), ..mem };
    match job {
        MemJob::Read { .. } => {
            let (then, step) = crate::adi::begin_read(
                adi,
                mem.apsel,
                crate::link::Port::AP,
                MemAPReg::DRW.addr(),
            );
            match step.poll {
                Poll::Ready(Ok(word)) => {
                    lemma_course_stat(mem, then, csw, job, words, words, word);
                },
                _ => {},
            }
        },
        MemJob::Write { value, .. } => {
            let (then, _) = crate::adi::begin_write(
                adi,
                mem.apsel,
                crate::link::Port::AP,
                MemAPReg::DRW.addr(),
                value,
                true,
            );
            lemma_course_stat(mem, then, csw, job, words, words, 0);
        },
        MemJob::ReadMulti { count, .. } => {
            let (then, step) = crate::adi::begin_pipelined(
                adi,
                mem.apsel,
                crate::link::Port::AP,
                crate::memap::burst_regs(count),
            );
            match step.poll {
                Poll::Ready(results) => match crate::memap::collect(results) {
                    Ok(got) => {
                        lemma_course_stat(moved, then, csw, job, words, got, 0);
                    },
                    _ => {},
                },
                _ => {},
            }
        },
        MemJob::WriteBlock { .. } => {
            let (then, _) = crate::adi::begin_stream(
                adi,
                mem.apsel,
                crate::link::Port::AP,
                burst_items(words),
            );
            lemma_course_stat(moved, then, csw, job, words, words, 0);
        },
        _ => {},
    }
}

proof fn lemma_course_tar(mem: MemView, adi: AdiView, csw: u32, job: MemJob, words: Seq<u32>)
    requires
        transfers(job) || job is WriteCsw,
        mem.csw_known && mem.csw == job.csw(csw),
    ensures
        on_course(crate::memap::mem_tar(mem, adi, job, words), mem.apsel, csw, job, words),
{
    if job is WriteCsw {
        // the job ends with CSW: TAR is left alone
    } else if mem.tar == Some(job.addr()) {
        lemma_course_drw(mem, adi, csw, job, words);
    } else {
        let (then, _) = crate::adi::begin_write(
            adi,
            mem.apsel,
            crate::link::Port::AP,
            MemAPReg::TAR.addr(),
            job.addr(),
            !(job is QueueRead),
        );
        lemma_course_drw(MemView { tar: Some(job.addr()), ..mem }, then, csw, job, words);
    }
}

proof fn lemma_course_begin(mem: MemView, adi: AdiView, job: MemJob, words: Seq<u32>)
    requires
        transfers(job) || job is WriteCsw,
    ensures
        on_course(mem_begin(mem, adi, job, words), mem.apsel, mem.csw, job, words),
{
    let want = job.csw(mem.csw);
    if mem.csw_known && mem.csw == want {
        lemma_course_tar(mem, adi, mem.csw, job, words);
    } else {
        let (then, _) = crate::adi::begin_write(
            adi,
            mem.apsel,
            crate::link::Port::AP,
            MemAPReg::CSW.addr(),
            want,
            true,
        );
        lemma_course_tar(
            MemView { csw: want, csw_known: true, ..mem },
            then,
            mem.csw,
            job,
            words,
        );
    }
}

proof fn lemma_course_step(out: MemOut, reply: Reply, apsel: u32, csw: u32, job: MemJob, words: Seq<u32>)
    requires
        transfers(job) || job is WriteCsw,
        on_course(out, apsel, csw, job, words),
        out.step.poll is Pending,
    ensures
        on_course(
            mem_step(out.mem, out.adi, out.step.poll->Pending_0, reply),
            apsel,
            csw,
            job,
            words,
        ),
{
    let task = out.step.poll->Pending_0;
    let mem = out.mem;
    match task.stage {
        MemStageView::Csw { want, inner } => {
            let (then, _) = crate::adi::write_step(out.adi, inner, reply);
            lemma_course_tar(
                MemView { csw: want, csw_known: true, ..mem },
                then,
                csw,
                job,
                words,
            );
        },
        MemStageView::Tar { inner } => {
            let (then, _) = crate::adi::write_step(out.adi, inner, reply);
            lemma_course_drw(MemView { tar: Some(job.addr()), ..mem }, then, csw, job, words);
        },
        MemStageView::ReadDrw { inner } => {
            let (then, step) = crate::adi::read_step(out.adi, inner, reply);
            match step.poll {
                Poll::Ready(Ok(word)) => {
                    lemma_course_stat(mem, then, csw, job, words, task.words, word);
                },
                _ => {},
            }
        },
        MemStageView::WriteDrw { inner } => {
            let (then, _) = crate::adi::write_step(out.adi, inner, reply);
            lemma_course_stat(mem, then, csw, job, words, task.words, 0);
        },
        MemStageView::Burst { inner } => {
            let (then, step) = crate::adi::pipe_step(out.adi, inner, reply);
            match step.poll {
                Poll::Ready(results) => match crate::memap::collect(results) {
                    Ok(got) => {
                        lemma_course_stat(mem, then, csw, job, words, got, 0);
                    },
                    _ => {},
                },
                _ => {},
            }
        },
        _ => {},
    }
}

proof fn lemma_on_course(out: MemOut, replies: Seq<Reply>, apsel: u32, csw: u32, job: MemJob, words: Seq<u32>)
    requires
        transfers(job) || job is WriteCsw,
        on_course(out, apsel, csw, job, words),
    ensures
        on_course(mem_run(out, replies), apsel, csw, job, words),
    decreases replies.len(),
{
    match out.step.poll {
        Poll::Pending(task) => {
            if replies.len() > 0 && task.accepts(replies[0]) {
                lemma_course_step(out, replies[0], apsel, csw, job, words);
                let next = mem_step(out.mem, out.adi, task, replies[0]).after(out.step.scans);
                lemma_on_course(next, replies.skip(1), apsel, csw, job, words);
            }
        },
        _ => {},
    }
}

proof fn lemma_same_mode(csw: u32)
    by (bit_vector)
    ensures
        (csw | 0x10) | 0x10 == csw | 0x10,
        (csw & !0x10u32) & !0x10u32 == csw & !0x10u32,
{
}

/// An operation that ends well leaves the shadow of CSW at the value it
/// needed, which is the value that any operation of the same kind needs, and,
/// if it moved data, the shadow of TAR where TAR stands after it: at the
/// address for a single word, behind the last word for a block. The one
/// exception is a queued read that the transport refused.
pub proof fn law_shadows_after(
    mem: MemView,
    adi: AdiView,
    job: MemJob,
    words: Seq<u32>,
    replies: Seq<Reply>,
)
    requires
        transfers(job) || job is WriteCsw,
    ensures
        ({
            let out = mem_run(mem_begin(mem, adi, job, words), replies);
            out.step.poll matches Poll::Ready(Ok(value)) ==> {
                &&& out.mem.apsel == mem.apsel
                &&& out.mem.csw_known
                &&& out.mem.csw == job.csw(mem.csw)
                &&& job.csw(out.mem.csw) == out.mem.csw
                &&& transfers(job) && !refused(value) ==> out.mem.tar == Some(
                    job.tar_after(words),
                )
            }
        }),
{
    lemma_same_mode(mem.csw);
    assert(job.csw(job.csw(mem.csw)) == job.csw(mem.csw));
    lemma_course_begin(mem, adi, job, words);
    lemma_on_course(mem_begin(mem, adi, job, words), replies, mem.apsel, mem.csw, job, words);
}

/// Of two operations that move data, the second writes CSW at no time if
/// it wants auto-increment as the first did and the first ended well, and
/// TAR at no time if it begins where the first left TAR: two reads of one
/// word, or a block behind a block. A queued read that the transport
/// refused leaves TAR to be written again.
pub proof fn law_cached_after(
    mem: MemView,
    adi: AdiView,
    one: MemJob,
    words: Seq<u32>,
    first: Seq<Reply>,
    two: MemJob,
    more: Seq<u32>,
    second: Seq<Reply>,
)
    requires
        transfers(one),
        transfers(two),
        one.advances() == two.advances(),
    ensures
        ({
            let before = mem_run(mem_begin(mem, adi, one, words), first);
            let after = mem_run(mem_begin(before.mem, before.adi, two, more), second);
            before.step.poll matches Poll::Ready(Ok(value)) ==> {
                &&& quiet(after.step.scans, MemAPReg::CSW.addr())
                &&& two.addr() == one.tar_after(words) && !refused(value) ==> quiet(
                    after.step.scans,
                    MemAPReg::TAR.addr(),
                )
            }
        }),
{
    let before = mem_run(mem_begin(mem, adi, one, words), first);
    law_shadows_after(mem, adi, one, words, first);
    match before.step.poll {
        Poll::Ready(Ok(value)) => {
            assert(two.csw(before.mem.csw) == one.csw(before.mem.csw));
            law_csw_cache(before.mem, before.adi, two, more, second);
            if two.addr() == one.tar_after(words) && !refused(value) {
                law_tar_cache(before.mem, before.adi, two, more, second);
            }
        },
        _ => {},
    }
}

/// Whether an operation has written its address to TAR, or is yet to.
spec fn tar_due(out: MemOut, job: MemJob) -> bool {
    let write = Scan::Write { reg: MemAPReg::TAR.addr(), val: job.addr() };
    ||| out.step.scans.contains(write)
    ||| out.step.poll matches Poll::Ready(Err(_))
    ||| out.step.poll matches Poll::Pending(task) && task.job == job && match task.stage {
        MemStageView::Csw { .. } => out.mem.tar != Some(job.addr()),
        MemStageView::Tar { inner } => tar_next(inner, job.addr()),
        _ => false,
    }
}

/// Whether a pending write goes on to write `addr` to TAR once SELECT is set.
spec fn tar_next(inner: crate::adi::WriteTaskView, addr: u32) -> bool {
    inner.phase matches crate::adi::WritePhase::Select {
        job: crate::adi::WriteJob::Single { reg, val, .. },
        ..
    } && reg % 4 == MemAPReg::TAR.addr() && val == addr
}

/// A write that was waiting for SELECT to write `addr` to TAR does so once
/// SELECT is set, and waits on otherwise, unless it fails.
proof fn lemma_tar_next(adi: AdiView, inner: crate::adi::WriteTaskView, reply: Reply, addr: u32)
    requires
        tar_next(inner, addr),
    ensures
        ({
            let (_, step) = crate::adi::write_step(adi, inner, reply);
            ||| step.scans.contains(Scan::Write { reg: MemAPReg::TAR.addr(), val: addr })
            ||| step.poll matches Poll::Ready(Err(_))
            ||| step.poll matches Poll::Pending(next) && tar_next(next, addr)
        }),
{
    let (_, step) = crate::adi::write_step(adi, inner, reply);
    let write = Scan::Write { reg: MemAPReg::TAR.addr(), val: addr };
    match inner.phase {
        crate::adi::WritePhase::Select {
            bank,
            job: crate::adi::WriteJob::Single { port, .. },
        } => {
            if reply->ack == ACK_OK {
                let at = crate::adi::ir_scans(
                    crate::adi::AdiView { bank: Some(bank), ..adi },
                    port,
                ).len() as int;
                assert(step.scans[at] == write);
            }
        },
        _ => {},
    }
}

proof fn lemma_contains_after(scans: Seq<Scan>, before: Seq<Scan>, scan: Scan)
    ensures
        scans.contains(scan) || before.contains(scan) ==> (before + scans).contains(scan),
{
    if before.contains(scan) {
        let i = choose|i: int| 0 <= i < before.len() && before[i] == scan;
        assert((before + scans)[i] == scan);
    } else if scans.contains(scan) {
        let i = choose|i: int| 0 <= i < scans.len() && scans[i] == scan;
        assert((before + scans)[before.len() + i] == scan);
    }
}

proof fn lemma_tar_issued(adi: AdiView, apsel: u32, addr: u32, check: bool)
    ensures
        ({
            let (_, step) = crate::adi::begin_write(
                adi,
                apsel,
                crate::link::Port::AP,
                MemAPReg::TAR.addr(),
                addr,
                check,
            );
            let write = Scan::Write { reg: MemAPReg::TAR.addr(), val: addr };
            ||| step.scans.contains(write)
            ||| step.poll matches Poll::Pending(inner) && tar_next(inner, addr)
        }),
{
    let (_, step) = crate::adi::begin_write(
        adi,
        apsel,
        crate::link::Port::AP,
        MemAPReg::TAR.addr(),
        addr,
        check,
    );
    let write = Scan::Write { reg: MemAPReg::TAR.addr(), val: addr };
    if step.poll is Ready || (step.poll matches Poll::Pending(inner) && inner.phase is Ack) {
        let at = crate::adi::ir_scans(adi, crate::link::Port::AP).len() as int;
        assert(step.scans[at] == write);
    }
}

proof fn lemma_tar_due_begin(mem: MemView, adi: AdiView, job: MemJob, words: Seq<u32>)
    requires
        transfers(job),
        mem.tar != Some(job.addr()),
    ensures
        tar_due(mem_begin(mem, adi, job, words), job),
{
    let want = job.csw(mem.csw);
    if mem.csw_known && mem.csw == want {
        lemma_tar_due_tar(mem, adi, job, words);
    }
}

proof fn lemma_tar_due_tar(mem: MemView, adi: AdiView, job: MemJob, words: Seq<u32>)
    requires
        transfers(job),
        mem.tar != Some(job.addr()),
    ensures
        tar_due(crate::memap::mem_tar(mem, adi, job, words), job),
{
    let write = Scan::Write { reg: MemAPReg::TAR.addr(), val: job.addr() };
    let check = !(job is QueueRead);
    lemma_tar_issued(adi, mem.apsel, job.addr(), check);
    let (then, step) = crate::adi::begin_write(
        adi,
        mem.apsel,
        crate::link::Port::AP,
        MemAPReg::TAR.addr(),
        job.addr(),
        check,
    );
    let out = crate::memap::mem_tar(mem, adi, job, words);
    if step.scans.contains(write) {
        match step.poll {
            Poll::Ready(Ok(_)) => {
                let rest = crate::memap::mem_main(
                    MemView { tar: Some(job.addr()), ..mem },
                    then,
                    job,
                    words,
                );
                lemma_contains_after(rest.step.scans, step.scans, write);
            },
            _ => {},
        }
        assert(out.step.scans.contains(write));
    }
}

proof fn lemma_tar_due_step(out: MemOut, reply: Reply, job: MemJob)
    requires
        transfers(job),
        tar_due(out, job),
        out.step.poll is Pending,
    ensures
        tar_due(
            mem_step(out.mem, out.adi, out.step.poll->Pending_0, reply).after(out.step.scans),
            job,
        ),
{
    let write = Scan::Write { reg: MemAPReg::TAR.addr(), val: job.addr() };
    let task = out.step.poll->Pending_0;
    let next = mem_step(out.mem, out.adi, task, reply);
    if out.step.scans.contains(write) {
        lemma_contains_after(next.step.scans, out.step.scans, write);
    } else {
        match task.stage {
            MemStageView::Csw { want, inner } => {
                let (then, step) = crate::adi::write_step(out.adi, inner, reply);
                match step.poll {
                    Poll::Ready(Ok(_)) => {
                        let mem = MemView { csw: want, csw_known: true, ..out.mem };
                        lemma_tar_due_tar(mem, then, job, task.words);
                        let rest = crate::memap::mem_tar(mem, then, job, task.words);
                        if rest.step.scans.contains(write) {
                            lemma_contains_after(rest.step.scans, step.scans, write);
                        }
                    },
                    _ => {},
                }
                if next.step.scans.contains(write) {
                    lemma_contains_after(next.step.scans, out.step.scans, write);
                }
            },
            MemStageView::Tar { inner } => {
                let (then, step) = crate::adi::write_step(out.adi, inner, reply);
                lemma_tar_next(out.adi, inner, reply, job.addr());
                if step.scans.contains(write) {
                    match step.poll {
                        Poll::Ready(Ok(_)) => {
                            let rest = crate::memap::mem_main(
                                MemView { tar: Some(job.addr()), ..out.mem },
                                then,
                                job,
                                task.words,
                            );
                            lemma_contains_after(rest.step.scans, step.scans, write);
                        },
                        _ => {},
                    }
                    assert(next.step.scans.contains(write));
                    lemma_contains_after(next.step.scans, out.step.scans, write);
                }
            },
            _ => {},
        }
    }
}

proof fn lemma_tar_due_run(out: MemOut, replies: Seq<Reply>, job: MemJob)
    requires
        transfers(job),
        tar_due(out, job),
    ensures
        tar_due(mem_run(out, replies), job),
    decreases replies.len(),
{
    match out.step.poll {
        Poll::Pending(task) => {
            if replies.len() > 0 && task.accepts(replies[0]) {
                lemma_tar_due_step(out, replies[0], job);
                let next = mem_step(out.mem, out.adi, task, replies[0]).after(out.step.scans);
                lemma_tar_due_run(next, replies.skip(1), job);
            }
        },
        _ => {},
    }
}

/// An operation that does not find the shadow of TAR at its address has
/// written the address to TAR by the time it ends well.
pub proof fn law_tar_written(
    mem: MemView,
    adi: AdiView,
    job: MemJob,
    words: Seq<u32>,
    replies: Seq<Reply>,
)
    requires
        transfers(job),
        mem.tar != Some(job.addr()),
    ensures
        ({
            let out = mem_run(mem_begin(mem, adi, job, words), replies);
            out.step.poll is Ready && out.step.poll->Ready_0 is Ok ==> out.step.scans.contains(
                Scan::Write { reg: MemAPReg::TAR.addr(), val: job.addr() },
            )
        }),
{
    lemma_tar_due_begin(mem, adi, job, words);
    lemma_tar_due_run(mem_begin(mem, adi, job, words), replies, job);
}

/// Whether an operation has written TAR once if it is past that write, and
/// not at all if the write is still to come.
spec fn tar_once(out: MemOut) -> bool {
    let count = writes_to(out.step.scans, MemAPReg::TAR.addr());
    match out.step.poll {
        Poll::Pending(task) => match task.stage {
            MemStageView::Csw { inner, .. } => {
                &&& count == 0
                &&& only_writes(inner, MemAPReg::CSW.addr())
            },
            MemStageView::Tar { inner } => {
                &&& only_writes(inner, MemAPReg::TAR.addr())
                &&& match inner.phase {
                    crate::adi::WritePhase::Select { job, .. } => job is Single && count == 0,
                    crate::adi::WritePhase::Ack { .. } => count == 1,
                }
            },
            _ => count <= 1 && settled(out.mem, task, MemAPReg::TAR.addr()),
        },
        Poll::Ready(_) => count <= 1,
    }
}

proof fn lemma_tar_once_drw(mem: MemView, adi: AdiView, job: MemJob, words: Seq<u32>)
    ensures
        tar_once(crate::memap::mem_main(mem, adi, job, words)),
        writes_to(crate::memap::mem_main(mem, adi, job, words).step.scans, MemAPReg::TAR.addr())
            == 0,
{
    lemma_settled_drw(mem, adi, job, words, MemAPReg::TAR.addr());
    lemma_writes_quiet(
        crate::memap::mem_main(mem, adi, job, words).step.scans,
        MemAPReg::TAR.addr(),
    );
}

proof fn lemma_tar_once_tar(mem: MemView, adi: AdiView, job: MemJob, words: Seq<u32>)
    ensures
        tar_once(crate::memap::mem_tar(mem, adi, job, words)),
{
    let tar = MemAPReg::TAR.addr();
    if job is WriteCsw {
        // the job ends with CSW: TAR is left alone
    } else if mem.tar == Some(job.addr()) {
        lemma_tar_once_drw(mem, adi, job, words);
    } else {
        let check = !(job is QueueRead);
        let (then, step) = crate::adi::begin_write(
            adi,
            mem.apsel,
            crate::link::Port::AP,
            tar,
            job.addr(),
            check,
        );
        let bank = crate::adi::select_word(mem.apsel, 0, 0);
        lemma_writes_attempt(adi, crate::link::Port::DP, crate::adi::DPReg::Select.addr(), bank, true, tar);
        lemma_writes_attempt(adi, crate::link::Port::AP, tar, job.addr(), check, tar);
        let set = MemView { tar: Some(job.addr()), ..mem };
        lemma_tar_once_drw(set, then, job, words);
        lemma_writes_add(step.scans, crate::memap::mem_main(set, then, job, words).step.scans, tar);
    }
}

proof fn lemma_tar_once_step(out: MemOut, reply: Reply)
    requires
        tar_once(out),
        out.step.poll matches Poll::Pending(task) && task.accepts(reply),
        !(reply matches Reply::Shifted { ack, .. } && ack == ACK_WAIT),
    ensures
        tar_once(
            mem_step(out.mem, out.adi, out.step.poll->Pending_0, reply).after(out.step.scans),
        ),
{
    let tar = MemAPReg::TAR.addr();
    let task = out.step.poll->Pending_0;
    let next = mem_step(out.mem, out.adi, task, reply);
    lemma_writes_add(out.step.scans, next.step.scans, tar);
    match task.stage {
        MemStageView::Csw { want, inner } => {
            lemma_quiet_write(out.adi, inner, reply, MemAPReg::CSW.addr(), tar);
            let (then, step) = crate::adi::write_step(out.adi, inner, reply);
            lemma_writes_quiet(step.scans, tar);
            let set = MemView { csw: want, csw_known: true, ..out.mem };
            let rest = crate::memap::mem_tar(set, then, task.job, task.words);
            lemma_tar_once_tar(set, then, task.job, task.words);
            lemma_writes_add(step.scans, rest.step.scans, tar);
        },
        MemStageView::Tar { inner } => {
            let (then, step) = crate::adi::write_step(out.adi, inner, reply);
            match inner.phase {
                crate::adi::WritePhase::Select { bank, job } => {
                    lemma_writes_attempt(
                        out.adi,
                        crate::link::Port::DP,
                        crate::adi::DPReg::Select.addr(),
                        bank,
                        true,
                        tar,
                    );
                    match job {
                        crate::adi::WriteJob::Single { port, reg, val, check } => {
                            lemma_writes_attempt(
                                crate::adi::AdiView { bank: Some(bank), ..out.adi },
                                port,
                                reg,
                                val,
                                check,
                                tar,
                            );
                        },
                        _ => {},
                    }
                },
                _ => {},
            }
            let set = MemView { tar: Some(task.job.addr()), ..out.mem };
            lemma_tar_once_drw(set, then, task.job, task.words);
            lemma_writes_add(
                step.scans,
                crate::memap::mem_main(set, then, task.job, task.words).step.scans,
                tar,
            );
        },
        _ => {
            lemma_settled_step(out.mem, out.adi, task, reply, tar);
            lemma_writes_quiet(next.step.scans, tar);
        },
    }
}

proof fn lemma_tar_once_run(out: MemOut, replies: Seq<Reply>)
    requires
        tar_once(out),
        forall|i: int|
            0 <= i < replies.len() ==> !(#[trigger] replies[i] matches Reply::Shifted { ack, .. }
                && ack == ACK_WAIT),
    ensures
        tar_once(mem_run(out, replies)),
    decreases replies.len(),
{
    match out.step.poll {
        Poll::Pending(task) => {
            if replies.len() > 0 && task.accepts(replies[0]) {
                lemma_tar_once_step(out, replies[0]);
                let next = mem_step(out.mem, out.adi, task, replies[0]).after(out.step.scans);
                assert forall|i: int| 0 <= i < replies.skip(1).len() implies !(
                #[trigger] replies.skip(1)[i] matches Reply::Shifted { ack, .. } && ack
                    == ACK_WAIT) by {
                    assert(replies.skip(1)[i] == replies[i + 1]);
                }
                lemma_tar_once_run(next, replies.skip(1));
            }
        },
        _ => {},
    }
}

/// An operation that is never told to wait writes TAR at most once; if it
/// moves data, ends well and did not find the shadow of TAR at its address,
/// it writes TAR exactly once.
pub proof fn law_tar_written_once(
    mem: MemView,
    adi: AdiView,
    job: MemJob,
    words: Seq<u32>,
    replies: Seq<Reply>,
)
    requires
        transfers(job) || job is WriteCsw,
        forall|i: int|
            0 <= i < replies.len() ==> !(#[trigger] replies[i] matches Reply::Shifted { ack, .. }
                && ack == ACK_WAIT),
    ensures
        ({
            let out = mem_run(mem_begin(mem, adi, job, words), replies);
            let count = writes_to(out.step.scans, MemAPReg::TAR.addr());
            &&& count <= 1
            &&& transfers(job) && mem.tar != Some(job.addr()) && out.step.poll is Ready
                && out.step.poll->Ready_0 is Ok ==> count == 1
        }),
{
    let tar = MemAPReg::TAR.addr();
    let first = mem_begin(mem, adi, job, words);
    let want = job.csw(mem.csw);
    if mem.csw_known && mem.csw == want {
        lemma_tar_once_tar(mem, adi, job, words);
    } else {
        lemma_quiet_begin_write(
            adi,
            mem.apsel,
            crate::link::Port::AP,
            MemAPReg::CSW.addr(),
            want,
            true,
            tar,
        );
        let (_, step) = crate::adi::begin_write(
            adi,
            mem.apsel,
            crate::link::Port::AP,
            MemAPReg::CSW.addr(),
            want,
            true,
        );
        lemma_writes_quiet(step.scans, tar);
    }
    lemma_tar_once_run(first, replies);
    let out = mem_run(first, replies);
    if transfers(job) && mem.tar != Some(job.addr()) {
        law_tar_written(mem, adi, job, words, replies);
        if out.step.poll is Ready && out.step.poll->Ready_0 is Ok {
            lemma_contains_writes(out.step.scans, tar, job.addr());
        }
    }
}

proof fn lemma_contains_writes(scans: Seq<Scan>, reg: u8, val: u32)
    requires
        scans.contains(Scan::Write { reg, val }),
    ensures
        writes_to(scans, reg) >= 1,
    decreases scans.len(),
{
    let write = Scan::Write { reg, val };
    if scans.last() != write {
        let i = choose|i: int| 0 <= i < scans.len() && scans[i] == write;
        assert(scans.drop_last()[i] == write);
        lemma_contains_writes(scans.drop_last(), reg, val);
    }
}

} // verus!

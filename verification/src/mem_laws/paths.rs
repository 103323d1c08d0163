//! Whole operations on a target that answers as hoped: what is shifted, in
//! which order, and what the operation hands back.

use crate::adi::{AdiView, ReadTask};
use crate::laws::{attempts, pipe_run, waits_then};
use crate::laws::paths::{fetches, law_pipelined_in_order, offers, outcomes, shifted, taken};
use crate::link::{Poll, Reply, Scan};
use crate::mem_laws::mem_run;
use crate::memap::{
    mem_begin, mem_ready, mem_step, MemAPReg, MemJob, MemStageView, MemView, STICKY_MASK,
    STICKY_STATUS,
};
use crate::wire::{ACK_OK, ACK_WAIT};
use vstd::prelude::*;

verus! {

/// Whether nothing stands between an operation and its traffic on DRW: the
/// shadows hold what the job needs, and the port's bank zero is selected.
pub open spec fn prepared(mem: MemView, adi: AdiView, job: MemJob) -> bool {
    &&& mem.csw_known
    &&& mem.csw == job.csw(mem.csw)
    &&& mem.tar == Some(job.addr())
    &&& adi.bank == Some(crate::adi::select_word(mem.apsel, 0, 0))
}

/// A read that is prepared asks for DRW, fetches the answer, asks for
/// CTRL/STAT and fetches that. If both acknowledgements are OK it hands back
/// the data of the first answer, unless the second shows a sticky flag.
pub proof fn law_read_returns(mem: MemView, adi: AdiView, addr: u32, data: u32, stat: u32)
    requires
        prepared(mem, adi, MemJob::Read { addr }),
    ensures
        mem_run(
            mem_begin(mem, adi, MemJob::Read { addr }, seq![]),
            seq![
                Reply::Queued(true),
                Reply::Shifted { ack: ACK_OK, data },
                Reply::Queued(true),
                Reply::Shifted { ack: ACK_OK, data: stat },
            ],
        ) == mem_ready(
            mem,
            crate::adi::addressed(adi, crate::link::Port::DP),
            crate::adi::request_scans(adi, crate::link::Port::AP, MemAPReg::DRW.addr()).push(
                Scan::Finish,
            ) + crate::adi::request_scans(
                crate::adi::addressed(adi, crate::link::Port::AP),
                crate::link::Port::DP,
                crate::adi::DPReg::CtrlStat.addr(),
            ).push(Scan::Finish),
            if stat & STICKY_MASK != 0 {
                Err(STICKY_STATUS)
            } else {
                Ok(crate::memap::MemValueView::Word(data))
            },
        ),
{
    let job = MemJob::Read { addr };
    let replies = seq![
        Reply::Queued(true),
        Reply::Shifted { ack: ACK_OK, data },
        Reply::Queued(true),
        Reply::Shifted { ack: ACK_OK, data: stat },
    ];
    let ap = crate::link::Port::AP;
    let dp = crate::link::Port::DP;
    let asked = crate::adi::request_scans(adi, ap, MemAPReg::DRW.addr());
    let at_ap = crate::adi::addressed(adi, ap);
    let at_dp = crate::adi::addressed(adi, dp);
    let checked = crate::adi::request_scans(at_ap, dp, crate::adi::DPReg::CtrlStat.addr());
    let one = mem_begin(mem, adi, job, seq![]);
    assert(one == crate::memap::mem_pending(
        mem,
        at_ap,
        asked,
        job,
        MemStageView::ReadDrw { inner: ReadTask::Queue },
        seq![],
        0,
    ));
    let two = mem_step(one.mem, one.adi, one.step.poll->Pending_0, replies[0]).after(
        one.step.scans,
    );
    assert(two.step.scans =~= asked.push(Scan::Finish));
    assert(two == crate::memap::mem_pending(
        mem,
        at_ap,
        asked.push(Scan::Finish),
        job,
        MemStageView::ReadDrw { inner: ReadTask::Data },
        seq![],
        0,
    ));
    let three = mem_step(two.mem, two.adi, two.step.poll->Pending_0, replies[1]).after(
        two.step.scans,
    );
    assert(three.step.scans =~= asked.push(Scan::Finish) + checked);
    assert(three == crate::memap::mem_pending(
        mem,
        at_dp,
        asked.push(Scan::Finish) + checked,
        job,
        MemStageView::Stat { inner: ReadTask::Queue },
        seq![],
        data,
    ));
    let four = mem_step(three.mem, three.adi, three.step.poll->Pending_0, replies[2]).after(
        three.step.scans,
    );
    assert(four.step.scans =~= asked.push(Scan::Finish) + checked.push(Scan::Finish));
    assert(four == crate::memap::mem_pending(
        mem,
        at_dp,
        asked.push(Scan::Finish) + checked.push(Scan::Finish),
        job,
        MemStageView::Stat { inner: ReadTask::Data },
        seq![],
        data,
    ));
    let five = mem_step(four.mem, four.adi, four.step.poll->Pending_0, replies[3]).after(
        four.step.scans,
    );
    assert(five.step.scans =~= four.step.scans);
    let rest1 = replies.skip(1);
    let rest2 = rest1.skip(1);
    let rest3 = rest2.skip(1);
    let rest4 = rest3.skip(1);
    assert(rest1[0] == replies[1] && rest2[0] == replies[2] && rest3[0] == replies[3]);
    assert(rest4.len() == 0);
    assert(mem_run(five, rest4) == five);
    assert(mem_run(four, rest3) == five);
    assert(mem_run(three, rest2) == five);
    assert(mem_run(two, rest1) == five);
    assert(mem_run(one, replies) == five);
}

/// The data of `fetched`, one by one.
pub open spec fn data_of(fetched: Seq<(u8, u32)>) -> Seq<u32> {
    Seq::new(fetched.len(), |i: int| fetched[i].1)
}

proof fn lemma_collect_all(fetched: Seq<(u8, u32)>)
    requires
        forall|i: int| 0 <= i < fetched.len() ==> (#[trigger] fetched[i]).0 == ACK_OK,
    ensures
        crate::memap::collect(outcomes(fetched)) == Ok::<Seq<u32>, u8>(data_of(fetched)),
    decreases fetched.len(),
{
    if fetched.len() == 0 {
        assert(data_of(fetched) =~= Seq::<u32>::empty());
    } else {
        let front = fetched.drop_last();
        lemma_collect_all(front);
        assert(outcomes(fetched).drop_last() =~= outcomes(front));
        assert(data_of(front).push(fetched.last().1) =~= data_of(fetched));
    }
}

/// A pipelined read within an operation that does not look at CTRL/STAT
/// goes the way it goes in the engine, and the operation ends as it does.
proof fn lemma_burst_runs(
    mem: MemView,
    adi: AdiView,
    job: MemJob,
    step: crate::adi::PipeStep,
    replies: Seq<Reply>,
)
    requires
        !job.checks_status(),
    ensures
        mem_run(crate::memap::mem_burst_done(mem, adi, job, step), replies) == ({
            let (ended, last) = pipe_run(adi, step, replies);
            crate::memap::mem_burst_done(mem, ended, job, last)
        }),
    decreases replies.len(),
{
    match step.poll {
        Poll::Pending(inner) => {
            if replies.len() > 0 && inner.accepts(replies[0]) {
                let (then, next) = crate::adi::pipe_step(adi, inner, replies[0]);
                let out = crate::memap::mem_burst_done(mem, adi, job, step);
                let turn = mem_step(out.mem, out.adi, out.step.poll->Pending_0, replies[0]).after(
                    step.scans,
                );
                let lifted = crate::memap::mem_burst_done(mem, then, job, next.after(step.scans));
                assert(turn.step.scans =~= lifted.step.scans);
                assert(turn == lifted);
                lemma_burst_runs(mem, then, job, next.after(step.scans), replies.skip(1));
            }
        },
        _ => {},
    }
}

/// A block read that is prepared, does not look at CTRL/STAT, has every scan
/// taken into the queue and every answer acknowledged with OK hands back the
/// data of the answers, in order, and leaves the shadow of TAR behind the
/// last word. It shifts one request, offers the others and the last fetch to
/// the queue, and fetches once for each word.
pub proof fn law_read_block_returns(
    mem: MemView,
    adi: AdiView,
    addr: u32,
    count: usize,
    fetched: Seq<(u8, u32)>,
)
    requires
        count >= 1,
        fetched.len() == count,
        forall|i: int| 0 <= i < fetched.len() ==> (#[trigger] fetched[i]).0 == ACK_OK,
        prepared(
            mem,
            adi,
            MemJob::ReadMulti { addr, count, auto_increment: true, check_status: false },
        ),
    ensures
        mem_run(
            mem_begin(
                mem,
                adi,
                MemJob::ReadMulti { addr, count, auto_increment: true, check_status: false },
                seq![],
            ),
            taken(count as nat) + shifted(fetched),
        ) == mem_ready(
            MemView { tar: Some(crate::memap::advance(addr, count as nat)), ..mem },
            crate::adi::addressed(adi, crate::link::Port::AP),
            crate::adi::ir_scans(adi, crate::link::Port::AP).push(
                Scan::Request { reg: MemAPReg::DRW.addr() },
            ) + offers(crate::memap::burst_regs(count), 1).push(Scan::QueueRead) + fetches(
                count as nat,
            ),
            Ok(crate::memap::MemValueView::Words(data_of(fetched))),
        ),
{
    let job = MemJob::ReadMulti { addr, count, auto_increment: true, check_status: false };
    let regs = crate::memap::burst_regs(count);
    let ap = crate::link::Port::AP;
    let moved = MemView { tar: Some(crate::memap::advance(addr, count as nat)), ..mem };
    let (begun, first) = crate::adi::pipe_issue(adi, ap, regs);
    let replies = taken(count as nat) + shifted(fetched);
    assert(mem_begin(mem, adi, job, seq![]) == crate::memap::mem_burst_done(
        moved,
        begun,
        job,
        first,
    ));
    lemma_burst_runs(moved, begun, job, first, replies);
    law_pipelined_in_order(adi, ap, regs, fetched);
    lemma_collect_all(fetched);
    let (ended, last) = pipe_run(begun, first, replies);
    let out = crate::memap::mem_burst_done(moved, ended, job, last);
    assert(out.step.scans =~= last.scans);
}

proof fn lemma_write_waits(
    mem: MemView,
    adi: AdiView,
    job: MemJob,
    value: u32,
    scans: Seq<Scan>,
    waits: nat,
    rest: Seq<Reply>,
)
    requires
        adi.ir == Some(crate::link::Port::AP),
    ensures
        mem_run(
            crate::memap::mem_pending(
                mem,
                adi,
                scans,
                job,
                MemStageView::WriteDrw {
                    inner: crate::adi::WriteTaskView {
                        phase: crate::adi::WritePhase::Ack {
                            port: crate::link::Port::AP,
                            reg: MemAPReg::DRW.addr(),
                            val: value,
                            next: crate::adi::WriteNext::Finish,
                        },
                        items: seq![],
                    },
                },
                seq![],
                0,
            ),
            waits_then(waits, ACK_OK) + rest,
        ) == mem_run(
            crate::memap::mem_stat(mem, adi, job, seq![], 0).after(
                scans + attempts(MemAPReg::DRW.addr(), value, waits),
            ),
            rest,
        ),
    decreases waits,
{
    let reg = MemAPReg::DRW.addr();
    let inner = crate::adi::WriteTaskView {
        phase: crate::adi::WritePhase::Ack {
            port: crate::link::Port::AP,
            reg,
            val: value,
            next: crate::adi::WriteNext::Finish,
        },
        items: seq![],
    };
    let out = crate::memap::mem_pending(
        mem,
        adi,
        scans,
        job,
        MemStageView::WriteDrw { inner },
        seq![],
        0,
    );
    let replies = waits_then(waits, ACK_OK) + rest;
    let turn = mem_step(mem, adi, out.step.poll->Pending_0, replies[0]).after(scans);
    if waits == 0 {
        assert(replies[0] == Reply::Shifted { ack: ACK_OK, data: 0 });
        assert(replies.skip(1) =~= rest);
        let ended = crate::memap::mem_stat(mem, adi, job, seq![], 0).after(
            scans + attempts(reg, value, 0),
        );
        assert(turn.step.scans =~= ended.step.scans);
        assert(turn == ended);
    } else {
        assert(replies[0] == Reply::Shifted { ack: ACK_WAIT, data: 0 });
        let again = seq![Scan::Write { reg, val: value }, Scan::ReadDr];
        assert(turn.step.scans =~= scans + again);
        assert(turn == crate::memap::mem_pending(
            mem,
            adi,
            scans + again,
            job,
            MemStageView::WriteDrw { inner },
            seq![],
            0,
        ));
        assert(replies.skip(1) =~= waits_then((waits - 1) as nat, ACK_OK) + rest);
        lemma_write_waits(mem, adi, job, value, scans + again, (waits - 1) as nat, rest);
        assert(scans + again + attempts(reg, value, (waits - 1) as nat) =~= scans + attempts(
            reg,
            value,
            waits,
        ));
    }
}

/// A write that is prepared writes DRW, again for as long as the answer is
/// WAIT, and once that is OK asks for CTRL/STAT and fetches it. If that
/// answer is OK too the write ends well, unless it shows a sticky flag.
pub proof fn law_write_goes_through(
    mem: MemView,
    adi: AdiView,
    addr: u32,
    value: u32,
    waits: nat,
    stat: u32,
)
    requires
        prepared(mem, adi, MemJob::Write { addr, value }),
    ensures
        mem_run(
            mem_begin(mem, adi, MemJob::Write { addr, value }, seq![]),
            waits_then(waits, ACK_OK) + seq![
                Reply::Queued(true),
                Reply::Shifted { ack: ACK_OK, data: stat },
            ],
        ) == mem_ready(
            mem,
            crate::adi::addressed(adi, crate::link::Port::DP),
            crate::adi::write_scans(
                adi,
                crate::link::Port::AP,
                MemAPReg::DRW.addr(),
                value,
                true,
            ) + attempts(MemAPReg::DRW.addr(), value, waits) + crate::adi::request_scans(
                crate::adi::addressed(adi, crate::link::Port::AP),
                crate::link::Port::DP,
                crate::adi::DPReg::CtrlStat.addr(),
            ).push(Scan::Finish),
            if stat & STICKY_MASK != 0 {
                Err(STICKY_STATUS)
            } else {
                Ok(crate::memap::MemValueView::Unit)
            },
        ),
{
    let job = MemJob::Write { addr, value };
    let ap = crate::link::Port::AP;
    let dp = crate::link::Port::DP;
    let at_ap = crate::adi::addressed(adi, ap);
    let at_dp = crate::adi::addressed(adi, dp);
    let written = crate::adi::write_scans(adi, ap, MemAPReg::DRW.addr(), value, true);
    let tried = written + attempts(MemAPReg::DRW.addr(), value, waits);
    let checked = crate::adi::request_scans(at_ap, dp, crate::adi::DPReg::CtrlStat.addr());
    let rest = seq![Reply::Queued(true), Reply::Shifted { ack: ACK_OK, data: stat }];
    lemma_write_waits(mem, at_ap, job, value, written, waits, rest);
    let three = crate::memap::mem_stat(mem, at_ap, job, seq![], 0).after(tried);
    assert(three.step.scans =~= tried + checked);
    assert(three == crate::memap::mem_pending(
        mem,
        at_dp,
        tried + checked,
        job,
        MemStageView::Stat { inner: ReadTask::Queue },
        seq![],
        0,
    ));
    let four = mem_step(three.mem, three.adi, three.step.poll->Pending_0, rest[0]).after(
        three.step.scans,
    );
    assert(four.step.scans =~= tried + checked.push(Scan::Finish));
    assert(four == crate::memap::mem_pending(
        mem,
        at_dp,
        tried + checked.push(Scan::Finish),
        job,
        MemStageView::Stat { inner: ReadTask::Data },
        seq![],
        0,
    ));
    let five = mem_step(four.mem, four.adi, four.step.poll->Pending_0, rest[1]).after(
        four.step.scans,
    );
    assert(five.step.scans =~= four.step.scans);
    let rest1 = rest.skip(1);
    let rest2 = rest1.skip(1);
    assert(rest1[0] == rest[1]);
    assert(rest2.len() == 0);
    assert(mem_run(five, rest2) == five);
    assert(mem_run(four, rest1) == five);
    assert(mem_run(three, rest) == five);
}

} // verus!

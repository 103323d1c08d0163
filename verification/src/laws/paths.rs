//! Whole operations of the engine on a target that answers as hoped, or
//! makes it wait: what is shifted, in which order, and how the operation ends.

use crate::adi::{
    addressed, pipe_ends, pipe_issue, pipe_step, select_then, write_ends, write_issue,
    write_scans, write_step, AdiView, PipePhase, PipeStep, PipeTaskView, WriteJob, WriteNext,
    WritePhase, WriteStep, WriteTaskView,
};
use crate::laws::{attempts, pipe_run, waits_then, write_run};
use crate::link::{Poll, Port, Reply, Scan, Step};
use crate::wire::{ACK_OK, ACK_WAIT};
use vstd::prelude::*;

verus! {

/// The port, register and value of the write whose acknowledgement a pending
/// write waits for.
pub open spec fn awaited(task: WriteTaskView) -> (Port, u8, u32) {
    match task.phase {
        WritePhase::Select { bank, .. } => (Port::DP, crate::adi::DPReg::Select.addr(), bank),
        WritePhase::Ack { port, reg, val, .. } => (port, reg, val),
    }
}

pub proof fn lemma_waiting_write(adi: AdiView, step: WriteStep, waits: nat)
    requires
        step.poll matches Poll::Pending(task) && adi.ir == Some(awaited(task).0),
    ensures
        ({
            let task = step.poll->Pending_0;
            let (_, reg, val) = awaited(task);
            let (ended, last) = write_step(adi, task, Reply::Shifted { ack: ACK_OK, data: 0 });
            write_run(adi, step, waits_then(waits, ACK_OK)) == write_run(
                ended,
                last.after(step.scans + attempts(reg, val, waits)),
                Seq::<Reply>::empty(),
            )
        }),
    decreases waits,
{
    let task = step.poll->Pending_0;
    let (_, reg, val) = awaited(task);
    let replies = waits_then(waits, ACK_OK);
    if waits == 0 {
        assert(replies[0] == Reply::Shifted { ack: ACK_OK, data: 0 });
        assert(step.scans + attempts(reg, val, 0) =~= step.scans);
        assert(replies.skip(1) =~= Seq::<Reply>::empty());
    } else {
        assert(replies[0] == Reply::Shifted { ack: ACK_WAIT, data: 0 });
        let again = seq![Scan::Write { reg: reg % 4, val }, Scan::ReadDr];
        let (then, turn) = write_step(adi, task, replies[0]);
        assert(turn.scans =~= again);
        assert(then == adi);
        let next: WriteStep = Step { scans: step.scans + again, poll: Poll::Pending(task) };
        assert(turn.after(step.scans) == next);
        assert(replies.skip(1) =~= waits_then((waits - 1) as nat, ACK_OK));
        lemma_waiting_write(adi, next, (waits - 1) as nat);
        assert(next.scans + attempts(reg, val, (waits - 1) as nat) =~= step.scans + attempts(
            reg,
            val,
            waits,
        ));
    }
}

/// A checked write that is answered with WAIT any number of times and then
/// with OK is shifted once more than it was told to wait, with IR shifted
/// before the first attempt at most, and ends well.
pub proof fn law_wait_retry(adi: AdiView, port: Port, reg: u8, val: u32, waits: nat)
    ensures
        ({
            let (begun, first) = write_issue(adi, port, reg, val, true, WriteNext::Finish);
            let (ended, last) = write_run(begun, first, waits_then(waits, ACK_OK));
            &&& ended == addressed(adi, port)
            &&& last == write_ends(Ok(())).after(
                write_scans(adi, port, reg, val, true) + attempts(reg, val, waits),
            )
        }),
{
    let (begun, first) = write_issue(adi, port, reg, val, true, WriteNext::Finish);
    lemma_waiting_write(begun, first, waits);
}

/// The answers of a transport that takes `count` scans into its queue.
pub open spec fn taken(count: nat) -> Seq<Reply> {
    Seq::new(count, |i: int| Reply::Queued(true))
}

/// The answers that carry the acknowledgements and data of `fetched`.
pub open spec fn shifted(fetched: Seq<(u8, u32)>) -> Seq<Reply> {
    Seq::new(fetched.len(), |i: int| Reply::Shifted { ack: fetched[i].0, data: fetched[i].1 })
}

/// What the acknowledgements and data of `fetched` amount to, one by one.
pub open spec fn outcomes(fetched: Seq<(u8, u32)>) -> Seq<Result<u32, u8>> {
    Seq::new(fetched.len(), |i: int| crate::wire::ack_result(fetched[i].0, fetched[i].1))
}

/// The scans that offer the requests for `regs`, from number `from` on, to
/// the transport's queue.
pub open spec fn offers(regs: Seq<u8>, from: int) -> Seq<Scan> {
    Seq::new(
        (regs.len() - from) as nat,
        |i: int| Scan::QueueRequest { reg: regs[from + i] % 4 },
    )
}

/// `count` scans that fetch a queued answer.
pub open spec fn fetches(count: nat) -> Seq<Scan> {
    Seq::new(count, |i: int| Scan::Finish)
}

proof fn lemma_pipe_drains(
    adi: AdiView,
    regs: Seq<u8>,
    got: Seq<Result<u32, u8>>,
    scans: Seq<Scan>,
    fetched: Seq<(u8, u32)>,
)
    requires
        fetched.len() >= 1,
        fetched.len() + got.len() <= regs.len() <= usize::MAX,
    ensures
        pipe_run(
            adi,
            Step {
                scans,
                poll: Poll::Pending(
                    PipeTaskView {
                        phase: PipePhase::Drain { left: fetched.len() as usize },
                        regs,
                        got,
                    },
                ),
            },
            shifted(fetched),
        ) == (adi, pipe_ends(got + outcomes(fetched)).after(scans + fetches((fetched.len() - 1) as nat))),
    decreases fetched.len(),
{
    let left = fetched.len();
    let task = PipeTaskView { phase: PipePhase::Drain { left: left as usize }, regs, got };
    let replies = shifted(fetched);
    let first = crate::wire::ack_result(fetched[0].0, fetched[0].1);
    assert(task.accepts(replies[0]));
    let (_, next) = pipe_step(adi, task, replies[0]);
    let turn = next.after(scans);
    let want = pipe_ends(got + outcomes(fetched)).after(scans + fetches((left - 1) as nat));
    if left == 1 {
        assert(got.push(first) =~= got + outcomes(fetched));
        assert(turn.scans =~= want.scans);
        assert(turn == want);
        assert(pipe_run(adi, turn, replies.skip(1)) == (adi, turn));
    } else {
        let rest = fetched.skip(1);
        assert(replies.skip(1) =~= shifted(rest));
        assert(turn.scans =~= scans.push(Scan::Finish));
        let waiting: PipeStep = Step {
            scans: scans.push(Scan::Finish),
            poll: Poll::Pending(
                PipeTaskView {
                    phase: PipePhase::Drain { left: rest.len() as usize },
                    regs,
                    got: got.push(first),
                },
            ),
        };
        assert(turn == waiting);
        lemma_pipe_drains(adi, regs, got.push(first), scans.push(Scan::Finish), rest);
        assert(got.push(first) + outcomes(rest) =~= got + outcomes(fetched));
        assert(scans.push(Scan::Finish) + fetches((left - 2) as nat) =~= scans + fetches(
            (left - 1) as nat,
        ));
        let ended = pipe_ends(got.push(first) + outcomes(rest)).after(
            scans.push(Scan::Finish) + fetches((left - 2) as nat),
        );
        assert(ended.scans =~= want.scans);
        assert(ended == want);
    }
}

proof fn lemma_pipe_queues(
    adi: AdiView,
    regs: Seq<u8>,
    next: usize,
    scans: Seq<Scan>,
    rest: Seq<Reply>,
)
    requires
        1 <= next < regs.len() <= usize::MAX,
    ensures
        pipe_run(
            adi,
            Step {
                scans,
                poll: Poll::Pending(
                    PipeTaskView { phase: PipePhase::Queue { next }, regs, got: seq![] },
                ),
            },
            taken((regs.len() - next) as nat) + rest,
        ) == pipe_run(
            adi,
            Step {
                scans: scans + offers(regs, next + 1).push(Scan::QueueRead),
                poll: Poll::Pending(PipeTaskView { phase: PipePhase::Last, regs, got: seq![] }),
            },
            rest,
        ),
    decreases regs.len() - next,
{
    let task = PipeTaskView { phase: PipePhase::Queue { next }, regs, got: seq![] };
    let replies = taken((regs.len() - next) as nat) + rest;
    assert(replies[0] == Reply::Queued(true));
    assert(task.accepts(replies[0]));
    let (_, turn) = pipe_step(adi, task, replies[0]);
    if next + 1 < regs.len() {
        let more = scans.push(Scan::QueueRequest { reg: regs[next + 1] % 4 });
        assert(turn.after(scans).scans =~= more);
        assert(replies.skip(1) =~= taken((regs.len() - next - 1) as nat) + rest);
        lemma_pipe_queues(adi, regs, (next + 1) as usize, more, rest);
        assert(more + offers(regs, next + 2).push(Scan::QueueRead) =~= scans + offers(
            regs,
            next + 1,
        ).push(Scan::QueueRead));
    } else {
        assert(turn.after(scans).scans =~= scans + offers(regs, next + 1).push(Scan::QueueRead));
        assert(replies.skip(1) =~= rest);
    }
}

/// A pipelined read of which the transport takes every scan has one result
/// for each register, in the order of the registers: the outcome of the
/// answer fetched for it. It shifts the first request, offers the others and
/// the last fetch to the queue, and then fetches once for each register.
pub proof fn law_pipelined_in_order(
    adi: AdiView,
    port: Port,
    regs: Seq<u8>,
    fetched: Seq<(u8, u32)>,
)
    requires
        1 <= regs.len() <= usize::MAX,
        fetched.len() == regs.len(),
    ensures
        ({
            let (begun, first) = pipe_issue(adi, port, regs);
            let (ended, last) = pipe_run(begun, first, taken(regs.len()) + shifted(fetched));
            &&& ended == addressed(adi, port)
            &&& last == pipe_ends(outcomes(fetched)).after(
                crate::adi::ir_scans(adi, port).push(Scan::Request { reg: regs[0] % 4 }) + offers(
                    regs,
                    1,
                ).push(Scan::QueueRead) + fetches(regs.len()),
            )
        }),
{
    let count = regs.len();
    let (begun, first) = pipe_issue(adi, port, regs);
    let replies = taken(count) + shifted(fetched);
    let asked = crate::adi::ir_scans(adi, port).push(Scan::Request { reg: regs[0] % 4 });
    let queued = asked + offers(regs, 1).push(Scan::QueueRead);
    let last = PipeTaskView { phase: PipePhase::Last, regs, got: seq![] };
    let waiting: PipeStep = Step { scans: queued, poll: Poll::Pending(last) };
    let tail = taken(1) + shifted(fetched);
    if count > 1 {
        assert(replies =~= taken((count - 1) as nat) + tail);
        let begins = asked.push(Scan::QueueRequest { reg: regs[1] % 4 });
        assert(first.scans =~= begins);
        lemma_pipe_queues(begun, regs, 1, begins, tail);
        assert(begins + offers(regs, 2).push(Scan::QueueRead) =~= queued);
    } else {
        assert(replies =~= tail);
        assert(first.scans =~= queued);
    }
    assert(pipe_run(begun, first, replies) == pipe_run(begun, waiting, tail));
    assert(tail[0] == Reply::Queued(true));
    assert(last.accepts(tail[0]));
    let (_, turn) = pipe_step(begun, last, tail[0]);
    assert(turn.after(queued).scans =~= queued.push(Scan::Finish));
    assert(tail.skip(1) =~= shifted(fetched));
    lemma_pipe_drains(begun, regs, seq![], queued.push(Scan::Finish), fetched);
    assert(Seq::<Result<u32, u8>>::empty() + outcomes(fetched) =~= outcomes(fetched));
    assert(queued.push(Scan::Finish) + fetches((count - 1) as nat) =~= queued + fetches(count));
}

proof fn lemma_power_up_bits()
    by (bit_vector)
    ensures
        0x5100_0022u32 == (1u32 << 30) | (1u32 << 28) | (1u32 << 24) | (1u32 << 5) | (1u32 << 1),
{
}

/// A fresh engine whose three writes are acknowledged with OK has set SELECT
/// to zero, written zero to ABORT and written to CTRL/STAT the requests for
/// system and debug power with the three bits that clear the sticky flags,
/// in that order and each write followed by the fetch of its
/// acknowledgement. It knows SELECT to be zero afterwards.
pub proof fn law_power_up()
    ensures
        ({
            let ok = Reply::Shifted { ack: ACK_OK, data: 0 };
            let (begun, first) = select_then(crate::adi::blank(), 0, WriteJob::PowerUp, seq![]);
            let (ended, last) = write_run(begun, first, seq![ok, ok, ok]);
            &&& ended == AdiView { bank: Some(0), ir: Some(Port::DP) }
            &&& last == write_ends(Ok(())).after(
                seq![
                    Scan::Ir(Port::DP),
                    Scan::Write { reg: crate::adi::DPReg::Select.addr(), val: 0 },
                    Scan::ReadDr,
                    Scan::Write { reg: crate::adi::DPReg::Abort.addr(), val: 0 },
                    Scan::ReadDr,
                    Scan::Write { reg: crate::adi::DPReg::CtrlStat.addr(), val: crate::adi::POWER_UP },
                    Scan::ReadDr,
                ],
            )
        }),
        crate::adi::POWER_UP == (1u32 << 30) | (1u32 << 28) | (1u32 << 24) | (1u32 << 5) | (1u32
            << 1),
{
    lemma_power_up_bits();
    let ok = Reply::Shifted { ack: ACK_OK, data: 0 };
    let replies = seq![ok, ok, ok];
    let (begun, first) = select_then(crate::adi::blank(), 0, WriteJob::PowerUp, seq![]);
    let (selected, abort) = write_step(begun, first.poll->Pending_0, ok);
    let second: WriteStep = abort.after(first.scans);
    let (aborted, power) = write_step(selected, second.poll->Pending_0, ok);
    let third: WriteStep = power.after(second.scans);
    let (powered, over) = write_step(aborted, third.poll->Pending_0, ok);
    let fourth: WriteStep = over.after(third.scans);
    let all = seq![
        Scan::Ir(Port::DP),
        Scan::Write { reg: crate::adi::DPReg::Select.addr(), val: 0 },
        Scan::ReadDr,
        Scan::Write { reg: crate::adi::DPReg::Abort.addr(), val: 0 },
        Scan::ReadDr,
        Scan::Write { reg: crate::adi::DPReg::CtrlStat.addr(), val: crate::adi::POWER_UP },
        Scan::ReadDr,
    ];
    assert(fourth.scans =~= all);
    assert(write_ends(Ok(())).after(all).scans =~= all);
    let rest = replies.skip(1);
    let last = rest.skip(1);
    assert(rest[0] == ok && last[0] == ok && last.skip(1).len() == 0);
    assert(write_run(powered, fourth, last.skip(1)) == (powered, fourth));
    assert(write_run(aborted, third, last) == (powered, fourth));
    assert(write_run(selected, second, rest) == (powered, fourth));
}

} // verus!

//! The instruction register: shifted only where it does not hold what is
//! needed, and known to the engine after every turn.

use crate::adi::{
    addressed, pipe_issue, pipe_step, queue_issue, queue_step, read_issue, read_step,
    select_scans, select_then, write_issue, write_scans, write_step, AdiView, PipeTaskView,
    QueueTask, ReadTask, WriteJob, WriteNext, WritePhase, WriteTaskView,
};
use crate::link::{Poll, Port, Reply, Scan};
use crate::wire::ACK_WAIT;
use vstd::prelude::*;

verus! {

/// How often IR is shifted in `scans`.
pub open spec fn ir_shifts(scans: Seq<Scan>) -> nat
    decreases scans.len(),
{
    if scans.len() == 0 {
        0
    } else {
        ir_shifts(scans.drop_last()) + if scans.last() is Ir {
            1nat
        } else {
            0nat
        }
    }
}

/// IR shifts add up over scans done one after another.
pub proof fn lemma_ir_shifts_add(first: Seq<Scan>, second: Seq<Scan>)
    ensures
        ir_shifts(first + second) == ir_shifts(first) + ir_shifts(second),
    decreases second.len(),
{
    if second.len() == 0 {
        assert(first + second =~= first);
    } else {
        assert((first + second).drop_last() =~= first + second.drop_last());
        lemma_ir_shifts_add(first, second.drop_last());
    }
}

proof fn lemma_ir_shifts_push(scans: Seq<Scan>, scan: Scan)
    ensures
        ir_shifts(scans.push(scan)) == ir_shifts(scans) + if scan is Ir {
            1nat
        } else {
            0nat
        },
{
    assert(scans.push(scan).drop_last() =~= scans);
}

/// What IR holds after `scans`, if it held `ir` before them and none of
/// them shifts into IR the instruction that it holds already; nothing if
/// one of them does.
pub open spec fn ir_after(ir: Option<Port>, scans: Seq<Scan>) -> Option<Option<Port>>
    decreases scans.len(),
{
    if scans.len() == 0 {
        Some(ir)
    } else {
        match ir_after(ir, scans.drop_last()) {
            None => None,
            Some(held) => match scans.last() {
                Scan::Ir(port) => if held == Some(port) {
                    None
                } else {
                    Some(Some(port))
                },
                _ => Some(held),
            },
        }
    }
}

/// Whether the engine's belief of IR after `scans` is what IR holds then,
/// given that its belief before them was, and IR was shifted only where it
/// had to be.
pub open spec fn ir_kept(before: AdiView, scans: Seq<Scan>, after: AdiView) -> bool {
    ir_after(before.ir, scans) == Some(after.ir)
}

/// What IR holds after scans done one after another.
pub proof fn lemma_ir_after_add(ir: Option<Port>, first: Seq<Scan>, second: Seq<Scan>)
    ensures
        ir_after(ir, first + second) == match ir_after(ir, first) {
            None => None,
            Some(held) => ir_after(held, second),
        },
    decreases second.len(),
{
    if second.len() == 0 {
        assert(first + second =~= first);
    } else {
        assert((first + second).drop_last() =~= first + second.drop_last());
        lemma_ir_after_add(ir, first, second.drop_last());
    }
}

/// Scans of which none shifts IR leave IR as it is.
pub proof fn lemma_ir_after_none(ir: Option<Port>, scans: Seq<Scan>)
    requires
        forall|i: int| 0 <= i < scans.len() ==> !(#[trigger] scans[i] is Ir),
    ensures
        ir_after(ir, scans) == Some(ir),
    decreases scans.len(),
{
    if scans.len() > 0 {
        lemma_ir_after_none(ir, scans.drop_last());
    }
}

/// Scans that begin with the shift of IR that addressing `port` takes, and
/// shift IR no more, leave `port`'s instruction in IR.
pub proof fn lemma_ir_after_addressing(adi: AdiView, port: Port, rest: Seq<Scan>)
    requires
        forall|i: int| 0 <= i < rest.len() ==> !(#[trigger] rest[i] is Ir),
    ensures
        ir_after(adi.ir, crate::adi::ir_scans(adi, port) + rest) == Some(Some(port)),
{
    let ir = crate::adi::ir_scans(adi, port);
    lemma_ir_after_add(adi.ir, ir, rest);
    lemma_ir_after_none(Some(port), rest);
    assert(ir_after(adi.ir, Seq::<Scan>::empty()) == Some(adi.ir));
    if adi.ir != Some(port) {
        assert(ir.drop_last() =~= Seq::<Scan>::empty());
        assert(ir.last() == Scan::Ir(port));
    }
    assert(ir_after(adi.ir, ir) == Some(Some(port)));
}

/// In every turn of a write the engine shifts IR only where IR does not
/// hold the instruction it needs, and it knows afterwards what IR holds.
pub proof fn law_write_keeps_ir(adi: AdiView, task: WriteTaskView, reply: Reply)
    ensures
        ir_kept(adi, write_step(adi, task, reply).1.scans, write_step(adi, task, reply).0),
        forall|bank: u32, job: WriteJob, items: Seq<(u8, u32)>|
            ir_kept(
                adi,
                (#[trigger] select_then(adi, bank, job, items)).1.scans,
                select_then(adi, bank, job, items).0,
            ),
        forall|port: Port, reg: u8, val: u32, check: bool, next: WriteNext|
            ir_kept(
                adi,
                (#[trigger] write_issue(adi, port, reg, val, check, next)).1.scans,
                write_issue(adi, port, reg, val, check, next).0,
            ),
{
    assert forall|at: AdiView, port: Port, reg: u8, val: u32, check: bool| #![auto]
        ir_after(at.ir, write_scans(at, port, reg, val, check)) == Some(Some(port)) by {
        let write = seq![Scan::Write { reg: reg % 4, val }];
        let rest = if check {
            write.push(Scan::ReadDr)
        } else {
            write
        };
        lemma_ir_after_addressing(at, port, rest);
        assert(write_scans(at, port, reg, val, check) =~= crate::adi::ir_scans(at, port) + rest);
    }
    assert forall|at: AdiView, port: Port, items: Seq<(u8, u32)>| #![auto]
        ir_after(at.ir, crate::adi::ir_scans(at, port) + crate::adi::stream_scans(items))
            == Some(Some(port)) by {
        lemma_ir_after_addressing(at, port, crate::adi::stream_scans(items));
    }
}

/// In every turn of a read, a queued read or a pipelined read the engine
/// shifts IR only where IR does not hold the instruction it needs, and it
/// knows afterwards what IR holds.
pub proof fn law_read_keeps_ir(adi: AdiView, reply: Reply)
    ensures
        forall|task: ReadTask|
            ir_kept(
                adi,
                (#[trigger] read_step(adi, task, reply)).1.scans,
                read_step(adi, task, reply).0,
            ),
        forall|bank: u32, port: Port, reg: u8|
            ir_kept(
                adi,
                (#[trigger] crate::adi::read_select(adi, bank, port, reg)).1.scans,
                crate::adi::read_select(adi, bank, port, reg).0,
            ),
        forall|task: QueueTask|
            ir_kept(
                adi,
                (#[trigger] queue_step(adi, task, reply)).1.scans,
                queue_step(adi, task, reply).0,
            ),
        forall|bank: u32, port: Port, reg: u8|
            ir_kept(
                adi,
                (#[trigger] crate::adi::queue_select(adi, bank, port, reg)).1.scans,
                crate::adi::queue_select(adi, bank, port, reg).0,
            ),
        forall|task: PipeTaskView|
            ir_kept(
                adi,
                (#[trigger] pipe_step(adi, task, reply)).1.scans,
                pipe_step(adi, task, reply).0,
            ),
        forall|bank: u32, port: Port, regs: Seq<u8>|
            ir_kept(
                adi,
                (#[trigger] crate::adi::pipe_select(adi, bank, port, regs)).1.scans,
                crate::adi::pipe_select(adi, bank, port, regs).0,
            ),
        ir_kept(adi, crate::adi::read_fetch().scans, adi),
{
    assert forall|at: AdiView, bank: u32| #![auto]
        ir_after(at.ir, select_scans(at, bank)) == Some(Some(Port::DP)) by {
        let rest = seq![
            Scan::Write { reg: crate::adi::DPReg::Select.addr() % 4, val: bank },
            Scan::ReadDr,
        ];
        lemma_ir_after_addressing(at, Port::DP, rest);
        assert(select_scans(at, bank) =~= crate::adi::ir_scans(at, Port::DP) + rest);
    }
    assert forall|at: AdiView, port: Port, reg: u8| #![auto]
        ir_after(at.ir, crate::adi::request_scans(at, port, reg)) == Some(Some(port)) by {
        let rest = seq![Scan::Request { reg: reg % 4 }, Scan::QueueRead];
        lemma_ir_after_addressing(at, port, rest);
        assert(crate::adi::request_scans(at, port, reg) =~= crate::adi::ir_scans(at, port) + rest);
    }
    assert forall|at: AdiView, port: Port, regs: Seq<u8>| #![auto]
        ir_after(at.ir, pipe_issue(at, port, regs).1.scans) == Some(Some(port)) by {
        let rest = seq![
            Scan::Request { reg: regs[0] % 4 },
            if regs.len() > 1 {
                Scan::QueueRequest { reg: regs[1] % 4 }
            } else {
                Scan::QueueRead
            },
        ];
        lemma_ir_after_addressing(at, port, rest);
        assert(pipe_issue(at, port, regs).1.scans =~= crate::adi::ir_scans(at, port) + rest);
    }
    lemma_ir_after_none(adi.ir, seq![Scan::Finish]);
    lemma_ir_after_none(adi.ir, seq![Scan::QueueRead]);
    assert forall|reg: u8| #![auto]
        ir_after(adi.ir, seq![Scan::QueueRequest { reg }]) == Some(adi.ir) by {
        lemma_ir_after_none(adi.ir, seq![Scan::QueueRequest { reg }]);
    }
}

/// An operation on a register of a port in the bank that is selected.
pub ghost enum Access {
    Write { reg: u8, val: u32, check: bool },
    Read { reg: u8 },
    Queue { reg: u8 },
    Pipelined { regs: Seq<u8> },
}

/// The first turn of an access to `port`: what the engine believes after it,
/// and the scans.
pub open spec fn access(adi: AdiView, port: Port, what: Access) -> (AdiView, Seq<Scan>) {
    match what {
        Access::Write { reg, val, check } => {
            let (adi, step) = write_issue(adi, port, reg, val, check, WriteNext::Finish);
            (adi, step.scans)
        },
        Access::Read { reg } => {
            let (adi, step) = read_issue(adi, port, reg);
            (adi, step.scans)
        },
        Access::Queue { reg } => {
            let (adi, step) = queue_issue(adi, port, reg);
            (adi, step.scans)
        },
        Access::Pipelined { regs } => {
            let (adi, step) = pipe_issue(adi, port, regs);
            (adi, step.scans)
        },
    }
}

proof fn lemma_access_shifts(adi: AdiView, port: Port, what: Access)
    ensures
        access(adi, port, what).0 == addressed(adi, port),
        ir_shifts(access(adi, port, what).1) == if adi.ir == Some(port) {
            0nat
        } else {
            1nat
        },
        adi.ir != Some(port) ==> access(adi, port, what).1[0] == Scan::Ir(port),
{
    let none = Seq::<Scan>::empty();
    let ir = if adi.ir == Some(port) {
        none
    } else {
        none.push(Scan::Ir(port))
    };
    assert(ir =~= crate::adi::ir_scans(adi, port));
    lemma_ir_shifts_push(none, Scan::Ir(port));
    match what {
        Access::Write { reg, val, check } => {
            let write = Scan::Write { reg: reg % 4, val };
            lemma_ir_shifts_push(ir, write);
            lemma_ir_shifts_push(ir.push(write), Scan::ReadDr);
        },
        Access::Read { reg } => {
            let request = Scan::Request { reg: reg % 4 };
            lemma_ir_shifts_push(ir, request);
            lemma_ir_shifts_push(ir.push(request), Scan::QueueRead);
        },
        Access::Queue { reg } => {
            let request = Scan::Request { reg: reg % 4 };
            lemma_ir_shifts_push(ir, request);
            lemma_ir_shifts_push(ir.push(request), Scan::QueueRead);
        },
        Access::Pipelined { regs } => {
            let request = Scan::Request { reg: regs[0] % 4 };
            lemma_ir_shifts_push(ir, request);
            lemma_ir_shifts_push(ir.push(request), Scan::QueueRead);
            lemma_ir_shifts_push(ir.push(request), Scan::QueueRequest { reg: regs[1] % 4 });
        },
    }
}

/// IR is shifted for the first of two accesses to one port, unless it holds
/// the port's instruction already, and not for the second. An access to the
/// other port after the first begins with a shift of IR.
pub proof fn law_ir_cache(adi: AdiView, port: Port, first: Access, second: Access, other: Port)
    ensures
        ({
            let (then, one) = access(adi, port, first);
            let (_, two) = access(then, port, second);
            let (_, three) = access(then, other, second);
            &&& ir_shifts(one) == if adi.ir == Some(port) {
                0nat
            } else {
                1nat
            }
            &&& ir_shifts(two) == 0
            &&& ir_shifts(one + two) <= 1
            &&& other != port ==> ir_shifts(three) == 1 && three[0] == Scan::Ir(other)
        }),
{
    let (then, one) = access(adi, port, first);
    let (_, two) = access(then, port, second);
    lemma_access_shifts(adi, port, first);
    lemma_access_shifts(then, port, second);
    lemma_access_shifts(then, other, second);
    lemma_ir_shifts_add(one, two);
}

/// A checked write that is answered with WAIT is shifted again without a
/// shift of IR, as long as IR still holds its port's instruction.
pub proof fn law_retry_keeps_ir(adi: AdiView, task: WriteTaskView, data: u32)
    requires
        task.phase matches WritePhase::Ack { port, .. } && adi.ir == Some(port),
    ensures
        ({
            let (then, step) = write_step(adi, task, Reply::Shifted { ack: ACK_WAIT, data });
            &&& then == adi
            &&& step.poll == Poll::<WriteTaskView, Result<(), u8>>::Pending(task)
            &&& task.phase matches WritePhase::Ack { reg, val, .. } && step.scans == seq![
                Scan::Write { reg: reg % 4, val },
                Scan::ReadDr,
            ]
        }),
{
    let (_, step) = write_step(adi, task, Reply::Shifted { ack: ACK_WAIT, data });
    match task.phase {
        WritePhase::Ack { reg, val, .. } => {
            assert(step.scans =~= seq![Scan::Write { reg: reg % 4, val }, Scan::ReadDr]);
        },
        _ => {},
    }
}

} // verus!

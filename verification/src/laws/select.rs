//! SELECT: written only where the engine does not know it to hold what is
//! needed, and the two ways in which reads and writes ask for it.

use crate::adi::{
    bank_of, begin_read, begin_write, read_step, select_scans, select_then, select_word,
    write_ends, write_step, AdiView, ReadStep, ReadTask, WriteJob, WritePhase, WriteStep,
};
use crate::laws::{attempts, read_run, waits_then, write_run};
use crate::laws::paths::lemma_waiting_write;
use crate::link::{Poll, Port, Reply, Scan};
use crate::wire::ACK_OK;
use vstd::prelude::*;

verus! {

proof fn lemma_select_words(apsel: u32, apbank: u32, dpbank: u32, apsel2: u32, apbank2: u32, dpbank2: u32)
    by (bit_vector)
    requires
        apsel < 256 && apbank < 16 && dpbank < 16,
        apsel2 < 256 && apbank2 < 16 && dpbank2 < 16,
        apsel != apsel2 || apbank != apbank2 || dpbank != dpbank2,
    ensures
        (apsel << 24) | (apbank << 4) | dpbank != (apsel2 << 24) | (apbank2 << 4) | dpbank2,
{
}

proof fn lemma_bank_words(apsel: u32, bank: u32)
    by (bit_vector)
    requires
        0 < bank < 64,
    ensures
        (apsel << 24) | (bank << 4) | 0 != (apsel << 24) | (bank << 4) | bank,
{
}

/// A bank selection that is answered with WAIT any number of times and then
/// with OK writes SELECT where the engine did not know it to hold the value,
/// and leaves the engine knowing it. The same selection again shifts nothing.
pub proof fn law_select_cache(adi: AdiView, apsel: u32, apbank: u32, dpbank: u32, waits: nat)
    ensures
        ({
            let word = select_word(apsel, apbank, dpbank);
            let (begun, first) = select_then(adi, word, WriteJob::Nothing, seq![]);
            let (ended, last) = write_run(begun, first, waits_then(waits, ACK_OK));
            &&& ended.bank == Some(word)
            &&& last == write_ends(Ok(())).after(
                if adi.bank == Some(word) {
                    seq![]
                } else {
                    select_scans(adi, word) + attempts(
                        crate::adi::DPReg::Select.addr(),
                        word,
                        waits,
                    )
                },
            )
            &&& select_then(ended, word, WriteJob::Nothing, seq![]) == (ended, write_ends(Ok(())))
        }),
{
    let word = select_word(apsel, apbank, dpbank);
    let (begun, first) = select_then(adi, word, WriteJob::Nothing, seq![]);
    if adi.bank == Some(word) {
        assert(write_ends(Ok(())).after(seq![]) == write_ends(Ok(())));
    } else {
        lemma_waiting_write(begun, first, waits);
    }
}

/// After a bank selection, a selection that differs from it in the access
/// port or in either bank writes SELECT again.
pub proof fn law_select_differs(
    adi: AdiView,
    apsel: u32,
    apbank: u32,
    dpbank: u32,
    apsel2: u32,
    apbank2: u32,
    dpbank2: u32,
)
    requires
        apsel < 256 && apbank < 16 && dpbank < 16,
        apsel2 < 256 && apbank2 < 16 && dpbank2 < 16,
        apsel != apsel2 || apbank != apbank2 || dpbank != dpbank2,
        adi.bank == Some(select_word(apsel, apbank, dpbank)),
    ensures
        ({
            let word = select_word(apsel2, apbank2, dpbank2);
            let (_, step) = select_then(adi, word, WriteJob::Nothing, seq![]);
            &&& step.scans == select_scans(adi, word)
            &&& step.poll is Pending
            &&& step.scans[step.scans.len() - 2] == Scan::Write {
                reg: crate::adi::DPReg::Select.addr(),
                val: word,
            }
        }),
{
    lemma_select_words(apsel, apbank, dpbank, apsel2, apbank2, dpbank2);
}

/// A write that ended well, or is past its bank selection, leaves the engine
/// knowing the bank it selected.
proof fn lemma_write_run_bank(adi: AdiView, step: WriteStep, replies: Seq<Reply>, word: u32)
    requires
        match step.poll {
            Poll::Pending(task) => match task.phase {
                WritePhase::Select { bank, job } => bank == word && !(job is PowerUp),
                WritePhase::Ack { .. } => adi.bank == Some(word),
            },
            Poll::Ready(Ok(_)) => adi.bank == Some(word),
            Poll::Ready(Err(_)) => true,
        },
    ensures
        write_run(adi, step, replies).1.poll is Ready && write_run(
            adi,
            step,
            replies,
        ).1.poll->Ready_0 is Ok ==> write_run(adi, step, replies).0.bank == Some(word),
    decreases replies.len(),
{
    match step.poll {
        Poll::Pending(task) => {
            if replies.len() > 0 && task.accepts(replies[0]) {
                let (then, next) = write_step(adi, task, replies[0]);
                lemma_write_run_bank(then, next.after(step.scans), replies.skip(1), word);
            }
        },
        _ => {},
    }
}

/// A read that ended well, or is past its bank selection, leaves the engine
/// knowing the bank it selected.
proof fn lemma_read_run_bank(adi: AdiView, step: ReadStep, replies: Seq<Reply>, word: u32)
    requires
        match step.poll {
            Poll::Pending(ReadTask::Select { bank, .. }) => bank == word,
            Poll::Pending(_) => adi.bank == Some(word),
            Poll::Ready(Ok(_)) => adi.bank == Some(word),
            Poll::Ready(Err(_)) => true,
        },
    ensures
        read_run(adi, step, replies).1.poll is Ready && read_run(
            adi,
            step,
            replies,
        ).1.poll->Ready_0 is Ok ==> read_run(adi, step, replies).0.bank == Some(word),
    decreases replies.len(),
{
    match step.poll {
        Poll::Pending(task) => {
            if replies.len() > 0 && task.accepts(replies[0]) {
                let (then, next) = read_step(adi, task, replies[0]);
                lemma_read_run_bank(then, next.after(step.scans), replies.skip(1), word);
            }
        },
        _ => {},
    }
}

/// A read selects bank zero of the debug port and a write the register's own
/// bank: after a read of a register outside bank zero that ended well, a
/// write to the same register begins by writing SELECT, and so does a read
/// after such a write.
pub proof fn law_bank_asymmetry(
    adi: AdiView,
    apsel: u32,
    port: Port,
    reg: u8,
    val: u32,
    check: bool,
    replies: Seq<Reply>,
)
    requires
        bank_of(reg) != 0,
    ensures
        ({
            let for_read = select_word(apsel, bank_of(reg), 0);
            let for_write = select_word(apsel, bank_of(reg), bank_of(reg));
            let (begun, first) = begin_read(adi, apsel, port, reg);
            let (read, last) = read_run(begun, first, replies);
            let (_, write) = begin_write(read, apsel, port, reg, val, check);
            &&& for_read != for_write
            &&& last.poll is Ready && last.poll->Ready_0 is Ok ==> {
                &&& read.bank == Some(for_read)
                &&& write.scans == select_scans(read, for_write)
                &&& write.poll is Pending
            }
        }),
        ({
            let for_read = select_word(apsel, bank_of(reg), 0);
            let for_write = select_word(apsel, bank_of(reg), bank_of(reg));
            let (begun, first) = begin_write(adi, apsel, port, reg, val, check);
            let (written, last) = write_run(begun, first, replies);
            let (_, read) = begin_read(written, apsel, port, reg);
            last.poll is Ready && last.poll->Ready_0 is Ok ==> {
                &&& written.bank == Some(for_write)
                &&& read.scans == select_scans(written, for_read)
                &&& read.poll is Pending
            }
        }),
{
    lemma_bank_words(apsel, bank_of(reg));
    let for_read = select_word(apsel, bank_of(reg), 0);
    let for_write = select_word(apsel, bank_of(reg), bank_of(reg));
    let (begun, first) = begin_read(adi, apsel, port, reg);
    lemma_read_run_bank(begun, first, replies, for_read);
    let (begun, first) = begin_write(adi, apsel, port, reg, val, check);
    lemma_write_run_bank(begun, first, replies, for_write);
}

} // verus!

//! What passes between the engine and whoever owns the JTAG transport: the
//! scans the engine asks for, the answers it is handed back, and the shape of
//! one turn of that conversation.

use vstd::prelude::*;

verus! {

/// The two data registers of the JTAG debug port, named by what they reach.
#[derive(Clone, Copy, PartialEq, Eq, Hash, Debug, Structural)]
pub enum Port {
    /// DPACC: the debug port's own registers.
    DP,
    /// APACC: the registers of the selected access port.
    AP,
}

impl Port {
    /// The instruction that selects this data register.
    pub open spec fn ir(self) -> u8 {
        match self {
            Port::DP => 10,
            Port::AP => 11,
        }
    }

    /// The instruction that selects this data register.
    pub fn opcode(self) -> (ir: u8)
        ensures
            ir == self.ir(),
    {
        match self {
            Port::DP => 10,
            Port::AP => 11,
        }
    }
}

/// One shift that the transport is asked to perform.
///
/// Register numbers in a scan are already reduced to the two bits that the
/// wire carries.
#[derive(Clone, Copy, PartialEq, Eq, Hash, Debug, Structural)]
pub enum Scan {
    /// Shift the port's instruction into IR.
    Ir(Port),
    /// Shift a write of `val` to register `reg` into DR; what comes out is dropped.
    Write { reg: u8, val: u32 },
    /// Shift a read request for register `reg` into DR; what comes out is dropped.
    Request { reg: u8 },
    /// Shift DR out now and hand the bytes back.
    ReadDr,
    /// Queue a shift of DR out; answered by whether the transport had room.
    QueueRead,
    /// Queue a shift that puts a read request for `reg` in while the
    /// previous answer comes out; answered by whether the transport had room.
    QueueRequest { reg: u8 },
    /// Hand back the bytes of the oldest queued shift.
    Finish,
}

impl Scan {
    /// The bytes that the scan shifts in, least significant first: one byte
    /// of instruction into IR, or the 35 bits of a request into DR. A scan
    /// that only shifts out has none.
    pub open spec fn bytes(self) -> Seq<u8> {
        match self {
            Scan::Ir(port) => seq![port.ir()],
            Scan::Write { reg, val } => crate::wire::le_bytes(crate::wire::write_word(reg, val)),
            Scan::Request { reg } => crate::wire::le_bytes(crate::wire::read_word(reg)),
            Scan::QueueRequest { reg } => crate::wire::le_bytes(crate::wire::read_word(reg)),
            _ => seq![],
        }
    }

    /// The bytes that the scan shifts in.
    pub fn payload(&self) -> (out: Vec<u8>)
        ensures
            out@ == self.bytes(),
    {
        match *self {
            Scan::Ir(port) => {
                let mut out: Vec<u8> = Vec::new();
                out.push(port.opcode());
                out
            },
            Scan::Write { reg, val } => crate::wire::encode_write(reg, val),
            Scan::Request { reg } => crate::wire::encode_read(reg),
            Scan::QueueRequest { reg } => crate::wire::encode_read(reg),
            _ => Vec::new(),
        }
    }
}

/// What the transport answered to the last scan of a turn.
#[derive(Clone, Copy, PartialEq, Eq, Debug, Structural)]
pub enum Reply {
    /// The register's contents, split into acknowledgement and data.
    Shifted { ack: u8, data: u32 },
    /// Whether a queued shift was taken.
    Queued(bool),
}

impl Reply {
    /// The answer that five bytes shifted out of the register amount to.
    pub fn shifted(dr: &[u8]) -> (reply: Reply)
        requires
            dr@.len() == 5,
        ensures
            reply == (Reply::Shifted {
                ack: crate::wire::scan_ack(dr@),
                data: crate::wire::scan_data(dr@),
            }),
    {
        let (ack, data) = crate::wire::decode(dr);
        Reply::Shifted { ack, data }
    }
}

/// Where an operation stands after a turn.
#[derive(Debug, PartialEq, Eq)]
pub enum Poll<T, R> {
    /// The last scan of the turn must be answered; `T` resumes the operation.
    Pending(T),
    /// The operation is over.
    Ready(R),
}

/// One turn of an operation: the scans to perform, in order, and what follows.
#[derive(Debug, PartialEq, Eq)]
pub struct Turn<T, R> {
    pub scans: Vec<Scan>,
    pub poll: Poll<T, R>,
}

/// A turn as contracts see it.
pub ghost struct Step<T, R> {
    pub scans: Seq<Scan>,
    pub poll: Poll<T, R>,
}

impl<T, R> Step<T, R> {
    /// The same turn with `scans` performed first.
    pub open spec fn after(self, scans: Seq<Scan>) -> Step<T, R> {
        Step { scans: scans + self.scans, poll: self.poll }
    }
}

} // verus!

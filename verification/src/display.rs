//! The display protocol driver: frames a command as two bus phases on a
//! shared serial channel, an opcode phase with the data/command line low and
//! a payload phase with it high, each transaction bracketed by chip-select.
//! The driver computes the exact operation sequence; the caller runs it on
//! the physical lines and channel and reports the outcome.

use vstd::prelude::*;

verus! {

/// The command that takes the controller out of sleep mode during bring-up.
pub const EXIT_SLEEP_OPCODE: u8 = 0x11;

/// Microseconds the controller is given to settle before the wake command.
pub const SETTLE_MICROS: u64 = 200000;

/// One operation on the display's bus lines, in the order it must run. A
/// transmit may fail; the line settings cannot. A caller that meets a
/// transmit fault stops the sequence there and reports the fault, leaving
/// chip-select as the incomplete frame left it.
#[derive(Debug, PartialEq, Eq)]
pub enum BusOp {
    /// Drive the data/command line low: transmitted bytes are an opcode.
    DcLow,
    /// Drive the data/command line high: transmitted bytes are payload.
    DcHigh,
    /// Assert chip-select, opening a transaction.
    CsLow,
    /// Deassert chip-select, closing the transaction.
    CsHigh,
    /// Transmit these bytes over the serial channel.
    Transmit(Vec<u8>),
}

/// A transfer error reported by the transmit channel.
#[derive(Clone, Copy, Debug, PartialEq, Eq, Structural)]
pub struct TransmitFault {}

/// The driver's lifecycle: bring-up must run, and succeed, exactly once
/// before commands or data are sent.
#[derive(Clone, Copy, Debug, PartialEq, Eq, Structural)]
pub enum DriverState {
    Uninitialized,
    Initializing,
    Ready,
}

/// What bring-up asks the caller to run: a settle wait, then the wake
/// command's bus operations.
pub struct InitPlan {
    /// Microseconds to wait before the first byte is transmitted.
    pub settle_micros: u64,
    /// The bus operations of the wake command frame.
    pub ops: Vec<BusOp>,
}

/// The operation sequence of one command frame: chip-select asserted first,
/// one opcode byte in the command phase, the payload (possibly empty) in the
/// data phase, chip-select deasserted last.
pub open spec fn is_command_frame(ops: Seq<BusOp>, opcode: u8, payload: Seq<u8>) -> bool {
    &&& ops.len() == 6
    &&& ops[0] == BusOp::DcLow
    &&& ops[1] == BusOp::CsLow
    &&& ops[2] matches BusOp::Transmit(c) && c@ == seq![opcode]
    &&& ops[3] == BusOp::DcHigh
    &&& ops[4] matches BusOp::Transmit(d) && d@ == payload
    &&& ops[5] == BusOp::CsHigh
}

/// The operation sequence of one raw data frame: all bytes in the data
/// phase, bracketed by chip-select.
pub open spec fn is_data_frame(ops: Seq<BusOp>, payload: Seq<u8>) -> bool {
    &&& ops.len() == 4
    &&& ops[0] == BusOp::DcHigh
    &&& ops[1] == BusOp::CsLow
    &&& ops[2] matches BusOp::Transmit(d) && d@ == payload
    &&& ops[3] == BusOp::CsHigh
}

/// Every byte an operation sequence transmits, in order.
pub open spec fn transmitted_bytes(ops: Seq<BusOp>) -> Seq<u8>
    decreases ops.len(),
{
    if ops.len() == 0 {
        Seq::empty()
    } else {
        (match ops[0] {
            BusOp::Transmit(v) => v@,
            _ => Seq::empty(),
        }) + transmitted_bytes(ops.drop_first())
    }
}

/// A command frame transmits exactly the opcode byte followed by the
/// payload, even an empty payload's data phase is still sent, and
/// chip-select is asserted exactly once, before every transmit, and
/// deasserted exactly once, after every transmit.
pub proof fn lemma_command_framing(ops: Seq<BusOp>, opcode: u8, payload: Seq<u8>)
    requires
        is_command_frame(ops, opcode, payload),
    ensures
        transmitted_bytes(ops) == seq![opcode] + payload,
        forall|i: int| 0 <= i < ops.len() ==> ((#[trigger] ops[i]) == BusOp::CsLow <==> i == 1),
        forall|i: int| 0 <= i < ops.len() ==> ((#[trigger] ops[i]) == BusOp::CsHigh <==> i == 5),
        forall|i: int|
            (0 <= i < ops.len() && ((#[trigger] ops[i]) matches BusOp::Transmit(_))) ==> 1 < i < 5,
{
    reveal_with_fuel(transmitted_bytes, 8);
    assert(transmitted_bytes(ops) =~= seq![opcode] + payload);
}

/// A data frame transmits exactly the payload, with chip-select asserted
/// once before the transmit and deasserted once after it.
pub proof fn lemma_data_framing(ops: Seq<BusOp>, payload: Seq<u8>)
    requires
        is_data_frame(ops, payload),
    ensures
        transmitted_bytes(ops) == payload,
        forall|i: int| 0 <= i < ops.len() ==> ((#[trigger] ops[i]) == BusOp::CsLow <==> i == 1),
        forall|i: int| 0 <= i < ops.len() ==> ((#[trigger] ops[i]) == BusOp::CsHigh <==> i == 3),
        forall|i: int|
            (0 <= i < ops.len() && ((#[trigger] ops[i]) matches BusOp::Transmit(_))) ==> i == 2,
{
    reveal_with_fuel(transmitted_bytes, 6);
    assert(transmitted_bytes(ops) =~= payload);
}

fn command_frame(opcode: u8, payload: Vec<u8>) -> (ops: Vec<BusOp>)
    ensures
        is_command_frame(ops@, opcode, payload@),
{
    let ghost payload_bytes = payload@;
    let mut single: Vec<u8> = Vec::new();
    single.push(opcode);
    proof {
        assert(single@ =~= seq![opcode]);
    }
    let mut ops: Vec<BusOp> = Vec::new();
    ops.push(BusOp::DcLow);
    ops.push(BusOp::CsLow);
    ops.push(BusOp::Transmit(single));
    ops.push(BusOp::DcHigh);
    ops.push(BusOp::Transmit(payload));
    ops.push(BusOp::CsHigh);
    ops
}

/// The display protocol driver's visible lifecycle state.
pub struct DisplayDriver {
    /// Where in the bring-up lifecycle the driver stands.
    pub state: DriverState,
}

impl DisplayDriver {
    /// A fresh driver: nothing has been sent, bring-up is still owed.
    pub fn new() -> (d: DisplayDriver)
        ensures
            d.state == DriverState::Uninitialized,
    {
        DisplayDriver { state: DriverState::Uninitialized }
    }

    /// Starts bring-up: after the settle wait, the caller runs exactly one
    /// command frame, the wake command with an empty payload.
    pub fn initialize(&mut self) -> (plan: InitPlan)
        requires
            old(self).state == DriverState::Uninitialized,
        ensures
            final(self).state == DriverState::Initializing,
            plan.settle_micros == SETTLE_MICROS,
            is_command_frame(plan.ops@, EXIT_SLEEP_OPCODE, Seq::empty()),
    {
        self.state = DriverState::Initializing;
        let empty: Vec<u8> = Vec::new();
        let ops = command_frame(EXIT_SLEEP_OPCODE, empty);
        InitPlan { settle_micros: SETTLE_MICROS, ops }
    }

    /// Records how bring-up went: success makes the driver ready; a
    /// transmit fault is handed back to the caller, who may run bring-up
    /// again.
    pub fn confirm_initialized(&mut self, outcome: Result<(), TransmitFault>) -> (r: Result<
        (),
        TransmitFault,
    >)
        requires
            old(self).state == DriverState::Initializing,
        ensures
            r == outcome,
            outcome is Ok ==> final(self).state == DriverState::Ready,
            outcome is Err ==> final(self).state == DriverState::Uninitialized,
    {
        match outcome {
            Ok(()) => {
                self.state = DriverState::Ready;
            },
            Err(_) => {
                self.state = DriverState::Uninitialized;
            },
        }
        outcome
    }

    /// The bus operations of one command: the opcode in the command phase,
    /// then the payload, empty or not, in the data phase, chip-select
    /// framing the whole transaction.
    pub fn send_command(&self, opcode: u8, payload: Vec<u8>) -> (ops: Vec<BusOp>)
        requires
            self.state == DriverState::Ready,
        ensures
            is_command_frame(ops@, opcode, payload@),
    {
        command_frame(opcode, payload)
    }

    /// The bus operations of one bulk data push: every byte in the data
    /// phase, chip-select framing the transaction.
    pub fn send_data(&self, payload: Vec<u8>) -> (ops: Vec<BusOp>)
        requires
            self.state == DriverState::Ready,
        ensures
            is_data_frame(ops@, payload@),
    {
        let mut ops: Vec<BusOp> = Vec::new();
        ops.push(BusOp::DcHigh);
        ops.push(BusOp::CsLow);
        ops.push(BusOp::Transmit(payload));
        ops.push(BusOp::CsHigh);
        ops
    }
}

/// The ramp pattern of the serial channel smoke test: byte i holds i,
/// wrapping at 256.
pub fn spi_test_pattern(len: usize) -> (buf: Vec<u8>)
    ensures
        buf@.len() == len,
        forall|i: int| 0 <= i < len ==> buf@[i] == (i % 256) as u8,
{
    let mut buf: Vec<u8> = Vec::new();
    while buf.len() < len
        invariant
            buf@.len() <= len,
            forall|i: int| 0 <= i < buf@.len() ==> buf@[i] == (i % 256) as u8,
        decreases len - buf@.len(),
    {
        buf.push((buf.len() % 256) as u8);
    }
    buf
}

} // verus!

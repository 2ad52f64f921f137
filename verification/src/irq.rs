//! Exception handling: saved register state, exception-class naming, and
//! interrupt dispatch decisions.
//!
//! The handlers' diagnostic output — register dumps and the faulting
//! instruction's bytes — is rendered here as plain bytes and values; the
//! shell's exception entry code captures the registers and prints what
//! these functions produce. Which device an interrupt id belongs to is a
//! verified decision.

use vstd::prelude::*;

use crate::print::spec_hex_u8;
use crate::print::hex_u8_digits;

verus! {

/// CPU register state at the time of an exception: the general-purpose
/// registers and the syndrome, return-address and saved-status registers,
/// in the order the exception entry code saves them.
pub struct Regs {
    pub spsr: u64,
    pub elr: u64,
    pub esr: u64,
    pub xzr: u64,
    pub x0: u64,
    pub x1: u64,
    pub x2: u64,
    pub x3: u64,
    pub x4: u64,
    pub x5: u64,
    pub x6: u64,
    pub x7: u64,
    pub x8: u64,
    pub x9: u64,
    pub x10: u64,
    pub x11: u64,
    pub x12: u64,
    pub x13: u64,
    pub x14: u64,
    pub x15: u64,
    pub x16: u64,
    pub x17: u64,
    pub x18: u64,
    pub x19: u64,
    pub x20: u64,
    pub x21: u64,
    pub x22: u64,
    pub x23: u64,
    pub x24: u64,
    pub x25: u64,
    pub x26: u64,
    pub x27: u64,
    pub x28: u64,
    pub x29: u64,
    pub x30: u64,
}

/// The thirty-four registers a dump shows, in display order: the
/// general-purpose registers, then syndrome, return address and saved
/// status.
pub open spec fn spec_regs_array(r: Regs) -> Seq<u64> {
    seq![
        r.x0, r.x1, r.x2, r.x3, r.x4, r.x5, r.x6, r.x7, r.x8, r.x9,
        r.x10, r.x11, r.x12, r.x13, r.x14, r.x15, r.x16, r.x17, r.x18, r.x19,
        r.x20, r.x21, r.x22, r.x23, r.x24, r.x25, r.x26, r.x27, r.x28, r.x29,
        r.x30, r.esr, r.elr, r.spsr,
    ]
}

impl Regs {
    /// The register values in display order, for iteration.
    pub fn as_array(&self) -> (a: [u64; 34])
        ensures
            a@ == spec_regs_array(*self),
    {
        let a = [
            self.x0, self.x1, self.x2, self.x3, self.x4, self.x5, self.x6, self.x7, self.x8,
            self.x9, self.x10, self.x11, self.x12, self.x13, self.x14, self.x15, self.x16,
            self.x17, self.x18, self.x19, self.x20, self.x21, self.x22, self.x23, self.x24,
            self.x25, self.x26, self.x27, self.x28, self.x29, self.x30, self.esr, self.elr,
            self.spsr,
        ];
        proof {
            assert(a@ =~= spec_regs_array(*self));
        }
        a
    }

    /// The register names and values in display order.
    pub fn iter(&self) -> (pairs: Vec<(&'static str, u64)>)
        ensures
            pairs@.len() == 34,
            forall|k: int| 0 <= k < 34 ==> (#[trigger] pairs@[k]).1 == spec_regs_array(*self)[k],
    {
        let names = reg_names();
        let values = self.as_array();
        let mut pairs: Vec<(&'static str, u64)> = Vec::new();
        let mut i: usize = 0;
        while i < 34
            invariant
                0 <= i <= 34,
                names@.len() == 34,
                values@ == spec_regs_array(*self),
                pairs@.len() == i,
                forall|k: int| 0 <= k < i ==> (#[trigger] pairs@[k]).1 == spec_regs_array(*self)[k],
            decreases 34 - i,
        {
            pairs.push((names[i], values[i]));
            i = i + 1;
        }
        pairs
    }
}

/// The register names a dump labels its rows with, in display order.
pub fn reg_names() -> (names: Vec<&'static str>)
    ensures
        names@.len() == 34,
{
    let names: Vec<&'static str> = vec![
        "x0 ", "x1 ", "x2 ", "x3 ", "x4 ", "x5 ", "x6 ", "x7 ", "x8 ", "x9 ",
        "x10", "x11", "x12", "x13", "x14", "x15", "x16", "x17", "x18", "x19",
        "x20", "x21", "x22", "x23", "x24", "x25", "x26", "x27", "x28", "x29",
        "x30", "esr", "elr", "spsr",
    ];
    names
}

/// Byte `i` of the instruction word, least significant first, as the dump
/// prints them.
pub open spec fn spec_opcode_byte(opcode: u32, i: int) -> u8 {
    ((opcode >> ((i * 8) as u32)) & 0xff) as u8
}

/// The rendering of a faulting instruction's four bytes, least significant
/// bracketed first, each as two upper-case hexadecimal digits, separated by
/// spaces.
pub open spec fn spec_opcode_line(opcode: u32) -> Seq<u8> {
    seq![('[' as u8)] + spec_hex_u8(spec_opcode_byte(opcode, 0)) + seq![(']' as u8), (' ' as u8)]
        + spec_hex_u8(spec_opcode_byte(opcode, 1)) + seq![(' ' as u8)] + spec_hex_u8(
        spec_opcode_byte(opcode, 2),
    ) + seq![(' ' as u8)] + spec_hex_u8(spec_opcode_byte(opcode, 3))
}

/// Renders the four bytes of the instruction word that faulted, for the
/// diagnostic line the exception handlers print; the shell reads the word
/// at the exception's return address and prints what this returns.
pub fn format_opcode_bytes(opcode: u32) -> (v: Vec<u8>)
    ensures
        v@ == spec_opcode_line(opcode),
{
    let mut v: Vec<u8> = Vec::new();
    v.push('[' as u8);
    let b0 = hex_u8_digits((opcode & 0xff) as u8);
    proof {
        assert(opcode & 0xff == (opcode >> 0u32) & 0xff) by (bit_vector);
        assert(opcode & 0xff < 256) by (bit_vector);
    }
    v.push(b0[0]);
    v.push(b0[1]);
    v.push(']' as u8);
    v.push(' ' as u8);
    let by1 = ((opcode >> 8u32) & 0xff) as u8;
    let b1 = hex_u8_digits(by1);
    v.push(b1[0]);
    v.push(b1[1]);
    v.push(' ' as u8);
    let by2 = ((opcode >> 16u32) & 0xff) as u8;
    let b2 = hex_u8_digits(by2);
    v.push(b2[0]);
    v.push(b2[1]);
    v.push(' ' as u8);
    let by3 = ((opcode >> 24u32) & 0xff) as u8;
    let b3 = hex_u8_digits(by3);
    v.push(b3[0]);
    v.push(b3[1]);
    proof {
        assert(v@ =~= spec_opcode_line(opcode));
    }
    v
}

/// What an interrupt id means on this board: the timer tick, the UART
/// receive line, or nothing this kernel handles.
#[derive(Clone, Copy, PartialEq, Eq, Structural, Debug)]
pub enum IrqAction {
    /// The timer fired; rearm it for the next tick.
    TimerTick,
    /// The UART received a byte; read it and buffer it.
    UartRx,
    /// No handler is registered: log the id and acknowledge anyway, so the
    /// controller does not re-signal it forever.
    Unhandled,
}

/// The handler an interrupt id dispatches to.
pub open spec fn spec_classify_irq(id: u32) -> IrqAction {
    if id == 30 {
        IrqAction::TimerTick
    } else if id == 33 {
        IrqAction::UartRx
    } else {
        IrqAction::Unhandled
    }
}

/// Decides which handler an interrupt id dispatches to: the timer tick, the
/// UART receive interrupt, or no registered handler. The id is returned to
/// the controller for acknowledgement in every case.
pub fn classify_irq(id: u32) -> (action: IrqAction)
    ensures
        action == spec_classify_irq(id),
{
    if id == 30 {
        IrqAction::TimerTick
    } else if id == 33 {
        IrqAction::UartRx
    } else {
        IrqAction::Unhandled
    }
}

/// The description of a synchronous exception class this kernel does not
/// implement.
pub open spec fn spec_exception_kind(exception_class: u32) -> &'static str {
    match exception_class {
        1 => "Trapped WF",
        3 => "Trapped MCR (coproc==0b1111). EC value 0b000000",
        4 => "Trapped MCRR or MRRC (coproc=0b1111). EC value 0b000000",
        5 => "Trapped MCR (coproc==0b1110)",
        6 => "Trapped LDC",
        7 => "SIMD not implemented. EC value 0b000000",
        10 => "Trapped execution of any instruction not covered by other EC values",
        12 => "Trapped MRRC (coproc=0b1110)",
        13 => "Branch Target Exception",
        14 => "Illegal Execution State",
        17 => "SVC in AArch32 state",
        20 => "Trapped MSRR, MRRS or System instruction execution in AArch64 state. EC value 0b000000",
        21 => "SVC in AArch64 state",
        24 => "Trapped MSRR, MRRS or System instruction execution in AArch64 state. EC values 0b000000, 0b000001, 0b000111",
        25 => "Access to SVE functionality. EC value 0b000000",
        27 => "TSTART instruction at EL0",
        28 => "PAC fail",
        29 => "Access to SME functionality. EC value 0b000000",
        32 => "Instruction abort from lower EL",
        33 => "Instruction abort taken without a change in EL",
        34 => "PC alignement fault",
        36 => "Data abort from lower EL",
        37 => "Data abort taken without a change in EL",
        38 => "SP alignement fault",
        39 => "Memory operation exception",
        40 => "FPE from AArch32 state",
        44 => "FPE from AArch64 state",
        45 => "GCS exception",
        47 => "SError exception",
        48 => "Breakpoint exception from a lower EL",
        49 => "Breakpoint exception taken without a change in EL",
        50 => "Software step exception from a lower EL",
        51 => "Software step exception exception taken without a change in EL",
        52 => "Watchpoint exception from a lower EL",
        53 => "Watchpoint exception exception taken without a change in EL",
        56 => "BKPT instruction in AArch32 state",
        60 => "BRK instruction in AArch64 state",
        61 => "Profiling exception",
        _ => "Unknown reason",
    }
}

/// Names the class of a synchronous exception this kernel does not
/// implement; the shell prints the description.
pub fn unimplemented_sync(exception_class: u32) -> (kind: &'static str)
    ensures
        kind == spec_exception_kind(exception_class),
{
    match exception_class {
        1 => "Trapped WF",
        3 => "Trapped MCR (coproc==0b1111). EC value 0b000000",
        4 => "Trapped MCRR or MRRC (coproc=0b1111). EC value 0b000000",
        5 => "Trapped MCR (coproc==0b1110)",
        6 => "Trapped LDC",
        7 => "SIMD not implemented. EC value 0b000000",
        10 => "Trapped execution of any instruction not covered by other EC values",
        12 => "Trapped MRRC (coproc=0b1110)",
        13 => "Branch Target Exception",
        14 => "Illegal Execution State",
        17 => "SVC in AArch32 state",
        20 => "Trapped MSRR, MRRS or System instruction execution in AArch64 state. EC value 0b000000",
        21 => "SVC in AArch64 state",
        24 => "Trapped MSRR, MRRS or System instruction execution in AArch64 state. EC values 0b000000, 0b000001, 0b000111",
        25 => "Access to SVE functionality. EC value 0b000000",
        27 => "TSTART instruction at EL0",
        28 => "PAC fail",
        29 => "Access to SME functionality. EC value 0b000000",
        32 => "Instruction abort from lower EL",
        33 => "Instruction abort taken without a change in EL",
        34 => "PC alignement fault",
        36 => "Data abort from lower EL",
        37 => "Data abort taken without a change in EL",
        38 => "SP alignement fault",
        39 => "Memory operation exception",
        40 => "FPE from AArch32 state",
        44 => "FPE from AArch64 state",
        45 => "GCS exception",
        47 => "SError exception",
        48 => "Breakpoint exception from a lower EL",
        49 => "Breakpoint exception taken without a change in EL",
        50 => "Software step exception from a lower EL",
        51 => "Software step exception exception taken without a change in EL",
        52 => "Watchpoint exception from a lower EL",
        53 => "Watchpoint exception exception taken without a change in EL",
        56 => "BKPT instruction in AArch32 state",
        60 => "BRK instruction in AArch64 state",
        61 => "Profiling exception",
        _ => "Unknown reason",
    }
}

} // verus!

//! The mathematical model of the machine: an abstract view of registers,
//! memory and the status register, and the spec-level meaning of operand
//! resolution and of each implemented opcode. The executable engine in
//! `cpu` is proved against these definitions.

use vstd::prelude::*;
use crate::bytes::be_val;
use crate::bytes::is_negative_spec;
use crate::bytes::is_zero_spec;
use crate::bytes::sum_bytes;
use crate::bytes::sum_carries;
use crate::instruction::DataContainer;
use crate::instruction::ExecError;
use crate::instruction::Mnemonic;
use crate::instruction::OpSize;

verus! {

/// Capacity of the flat memory array, in bytes.
pub const MEM_SIZE: usize = 0x1000000;

/// Carry flag: the width-bounded addition overflowed its width.
pub const FLAG_C: u8 = 0x01;

/// Overflow flag: two's-complement signed overflow.
pub const FLAG_V: u8 = 0x02;

/// Zero flag: every active byte of the value is zero.
pub const FLAG_Z: u8 = 0x04;

/// Negative flag: the active width's sign bit is set.
pub const FLAG_N: u8 = 0x08;

/// Extend flag: moves in lock-step with C on ADD, untouched by MOVE and TST.
pub const FLAG_X: u8 = 0x10;

/// Abstract machine state: each register as a byte sequence, memory as one
/// flat byte sequence, and the 2-byte status register whose low byte holds
/// the condition codes.
#[verifier::ext_equal]
pub ghost struct MachineView {
    pub pc: Seq<u8>,
    pub usp: Seq<u8>,
    pub data: Seq<Seq<u8>>,
    pub addr: Seq<Seq<u8>>,
    pub mem: Seq<u8>,
    pub sr: Seq<u8>,
}

impl MachineView {
    /// All storage has its fixed width.
    pub open spec fn wf(self) -> bool {
        &&& self.pc.len() == 4
        &&& self.usp.len() == 4
        &&& self.data.len() == 8
        &&& forall|i: int| 0 <= i < 8 ==> (#[trigger] self.data[i]).len() == 4
        &&& self.addr.len() == 8
        &&& forall|i: int| 0 <= i < 8 ==> (#[trigger] self.addr[i]).len() == 4
        &&& self.mem.len() == MEM_SIZE
        &&& self.sr.len() == 2
    }

    /// The condition-code byte: the low byte of the status register.
    pub open spec fn ccr(self) -> u8 {
        self.sr[1]
    }

    pub open spec fn flag_c(self) -> bool {
        self.ccr() & FLAG_C != 0
    }

    pub open spec fn flag_v(self) -> bool {
        self.ccr() & FLAG_V != 0
    }

    pub open spec fn flag_z(self) -> bool {
        self.ccr() & FLAG_Z != 0
    }

    pub open spec fn flag_n(self) -> bool {
        self.ccr() & FLAG_N != 0
    }

    pub open spec fn flag_x(self) -> bool {
        self.ccr() & FLAG_X != 0
    }
}

/// The machine state as it is created: all storage zeroed.
pub open spec fn initial_view() -> MachineView {
    MachineView {
        pc: crate::bytes::zeros(4),
        usp: crate::bytes::zeros(4),
        data: Seq::new(8, |i: int| crate::bytes::zeros(4)),
        addr: Seq::new(8, |i: int| crate::bytes::zeros(4)),
        mem: crate::bytes::zeros(MEM_SIZE as nat),
        sr: crate::bytes::zeros(2),
    }
}

/// The state with its condition-code byte replaced.
pub open spec fn with_ccr(s: MachineView, c: u8) -> MachineView {
    MachineView { sr: s.sr.update(1, c), ..s }
}

/// Byte width of the declared operand size.
pub open spec fn size_width(size: OpSize) -> nat {
    match size {
        OpSize::BYTE => 1,
        OpSize::WORD => 2,
        OpSize::LONG => 4,
    }
}

/// An operand can be resolved read-only at the declared size: it exists, a
/// memory region lies inside memory, and a fixed-width operand (SR, CCR) is
/// resolved at exactly its own width.
pub open spec fn can_read(s: MachineView, loc: DataContainer, size: OpSize) -> bool {
    match loc {
        DataContainer::DATA_REGISTER(i) => i < 8,
        DataContainer::ADDRESS_REGISTER(i) => i < 8,
        DataContainer::IMEDIATE_VALUE(v) => v@.len() == 4,
        DataContainer::MEMORY_ADDR(o) => o + size_width(size) <= s.mem.len(),
        DataContainer::SR => size is WORD,
        DataContainer::CCR => size is BYTE,
        DataContainer::EMPTY => false,
    }
}

/// Why a read-only resolution failed; meaningful only when `can_read` is
/// false.
pub open spec fn read_err(loc: DataContainer, size: OpSize) -> ExecError {
    match loc {
        DataContainer::EMPTY => ExecError::MissingOperand,
        DataContainer::MEMORY_ADDR(_) => ExecError::AddressOutOfRange,
        DataContainer::SR => ExecError::WidthMismatch,
        DataContainer::CCR => ExecError::WidthMismatch,
        // register indices are validated when an instruction is built, so a
        // register operand never fails to resolve
        _ => ExecError::AddressOutOfRange,
    }
}

/// An operand can be resolved mutably at the declared size: as `can_read`,
/// except that an immediate constant is never a valid write target.
pub open spec fn can_write(s: MachineView, loc: DataContainer, size: OpSize) -> bool {
    match loc {
        DataContainer::IMEDIATE_VALUE(_) => false,
        _ => can_read(s, loc, size),
    }
}

/// Why a mutable resolution failed; meaningful only when `can_write` is
/// false.
pub open spec fn write_err(loc: DataContainer, size: OpSize) -> ExecError {
    match loc {
        DataContainer::IMEDIATE_VALUE(_) => ExecError::ImmutableOperand,
        _ => read_err(loc, size),
    }
}

/// The bytes an operand resolves to at the declared size: the low
/// `size_width(size)` bytes of a register or immediate buffer, a memory
/// region, or the fixed status-register views.
pub open spec fn read_bytes(s: MachineView, loc: DataContainer, size: OpSize) -> Seq<u8> {
    let w = size_width(size) as int;
    match loc {
        DataContainer::DATA_REGISTER(i) => s.data[i as int].skip(4 - w),
        DataContainer::ADDRESS_REGISTER(i) => s.addr[i as int].skip(4 - w),
        DataContainer::IMEDIATE_VALUE(v) => v@.skip(4 - w),
        DataContainer::MEMORY_ADDR(o) => s.mem.subrange(o as int, o + w),
        DataContainer::SR => s.sr,
        DataContainer::CCR => seq![s.sr[1]],
        DataContainer::EMPTY => Seq::empty(),
    }
}

/// The state after `val` (of width `size_width(size)`) is committed through
/// the operand's mutable view. Storage outside the written region is kept.
pub open spec fn write_back(s: MachineView, loc: DataContainer, size: OpSize, val: Seq<u8>) -> MachineView {
    let w = size_width(size) as int;
    match loc {
        DataContainer::DATA_REGISTER(i) => MachineView {
            data: s.data.update(i as int, s.data[i as int].take(4 - w) + val),
            ..s
        },
        DataContainer::ADDRESS_REGISTER(i) => MachineView {
            addr: s.addr.update(i as int, s.addr[i as int].take(4 - w) + val),
            ..s
        },
        DataContainer::MEMORY_ADDR(o) => MachineView {
            mem: s.mem.take(o as int) + val + s.mem.skip(o + w),
            ..s
        },
        DataContainer::SR => MachineView { sr: val, ..s },
        DataContainer::CCR => MachineView { sr: s.sr.update(1, val[0]), ..s },
        _ => s,
    }
}

/// The condition-code byte after MOVE's unconditional clearing of C and V.
pub open spec fn move_cleared(c: u8) -> u8 {
    (c & !FLAG_C) & !FLAG_V
}

/// The condition-code byte after TST's unconditional clearing of V and C.
pub open spec fn tst_cleared(c: u8) -> u8 {
    (c & !FLAG_V) & !FLAG_C
}

/// The condition-code byte with N and Z set from the inspected bytes:
/// N iff the value's sign bit is set, Z iff every byte is zero.
pub open spec fn nz_ccr(c: u8, v: Seq<u8>) -> u8 {
    let c1 = if is_negative_spec(v) {
        c | FLAG_N
    } else {
        c & !FLAG_N
    };
    if is_zero_spec(v) {
        c1 | FLAG_Z
    } else {
        c1 & !FLAG_Z
    }
}

/// MOVE's effect once the source bytes `temp` are in hand: C and V cleared,
/// N and Z set from `temp`, and `temp` committed to the target.
pub open spec fn move_step(s: MachineView, size: OpSize, temp: Seq<u8>, trg: DataContainer) -> MachineView {
    write_back(with_ccr(s, nz_ccr(move_cleared(s.ccr()), temp)), trg, size, temp)
}

/// MOVE resolves both operands at the declared size.
pub open spec fn move_ok(s: MachineView, size: OpSize, lhs: DataContainer, trg: DataContainer) -> bool {
    can_read(s, lhs, size) && can_write(s, trg, size)
}

/// The error MOVE reports: source resolution is checked first.
pub open spec fn move_error(s: MachineView, size: OpSize, lhs: DataContainer, trg: DataContainer) -> ExecError {
    if !can_read(s, lhs, size) {
        read_err(lhs, size)
    } else {
        write_err(trg, size)
    }
}

/// The state after a successful MOVE. C and V are cleared before the source
/// is read, so a source inside the status register sees them cleared.
pub open spec fn move_result(s: MachineView, size: OpSize, lhs: DataContainer, trg: DataContainer) -> MachineView {
    move_step(s, size, read_bytes(with_ccr(s, move_cleared(s.ccr())), lhs, size), trg)
}

/// Final state and result of MOVE: on failure the state is unchanged.
pub open spec fn move_outcome(s: MachineView, size: OpSize, lhs: DataContainer, trg: DataContainer) -> (MachineView, Result<(), ExecError>) {
    if move_ok(s, size, lhs, trg) {
        (move_result(s, size, lhs, trg), Ok(()))
    } else {
        (s, Err(move_error(s, size, lhs, trg)))
    }
}

/// The state after a successful TST: the source is read first, then V and C
/// are cleared and N and Z set from the value. Nothing else changes.
pub open spec fn tst_result(s: MachineView, size: OpSize, lhs: DataContainer) -> MachineView {
    with_ccr(s, nz_ccr(tst_cleared(s.ccr()), read_bytes(s, lhs, size)))
}

/// Final state and result of TST: on failure the state is unchanged.
pub open spec fn tst_outcome(s: MachineView, size: OpSize, lhs: DataContainer) -> (MachineView, Result<(), ExecError>) {
    if can_read(s, lhs, size) {
        (tst_result(s, size, lhs), Ok(()))
    } else {
        (s, Err(read_err(lhs, size)))
    }
}

/// ADD's signed-overflow rule: the operands share a sign and the
/// width-bounded result's sign differs from it.
pub open spec fn add_overflow(a: Seq<u8>, b: Seq<u8>, r: Seq<u8>) -> bool {
    ||| is_negative_spec(a) && is_negative_spec(b) && !is_negative_spec(r)
    ||| !is_negative_spec(a) && !is_negative_spec(b) && is_negative_spec(r)
}

/// ADD resolves the source and the target read-only, and the target mutably,
/// all at the declared size.
pub open spec fn add_ok(s: MachineView, size: OpSize, lhs: DataContainer, trg: DataContainer) -> bool {
    can_read(s, lhs, size) && can_read(s, trg, size) && can_write(s, trg, size)
}

/// The error ADD reports: the source read, then the target read, then the
/// target write.
pub open spec fn add_error(s: MachineView, size: OpSize, lhs: DataContainer, trg: DataContainer) -> ExecError {
    if !can_read(s, lhs, size) {
        read_err(lhs, size)
    } else if !can_read(s, trg, size) {
        read_err(trg, size)
    } else {
        write_err(trg, size)
    }
}

/// The state after a successful ADD: the width-bounded sum is written back
/// and N/Z set through MOVE's path, then C and X are set together iff the
/// addition carried out of the width, then the signed-overflow V computed
/// from the raw operands is re-asserted.
pub open spec fn add_result(s: MachineView, size: OpSize, lhs: DataContainer, trg: DataContainer) -> MachineView {
    let a = read_bytes(s, lhs, size);
    let b = read_bytes(s, trg, size);
    let r = sum_bytes(a, b);
    let s1 = move_step(s, size, r, trg);
    let c1 = if sum_carries(a, b) {
        (s1.ccr() | FLAG_C) | FLAG_X
    } else {
        (s1.ccr() & !FLAG_C) & !FLAG_X
    };
    let c2 = if add_overflow(a, b, r) {
        c1 | FLAG_V
    } else {
        c1 & !FLAG_V
    };
    with_ccr(s1, c2)
}

/// Final state and result of ADD: on failure the state is unchanged.
pub open spec fn add_outcome(s: MachineView, size: OpSize, lhs: DataContainer, trg: DataContainer) -> (MachineView, Result<(), ExecError>) {
    if add_ok(s, size, lhs, trg) {
        (add_result(s, size, lhs, trg), Ok(()))
    } else {
        (s, Err(add_error(s, size, lhs, trg)))
    }
}

/// One dispatch of the execution engine: MOVE, TST and ADD have handlers;
/// every other opcode is reported unsupported and changes nothing.
pub open spec fn step_spec(s: MachineView, op: Mnemonic, size: OpSize, lhs: DataContainer, trg: DataContainer) -> (MachineView, Result<(), ExecError>) {
    match op {
        Mnemonic::MOVE => move_outcome(s, size, lhs, trg),
        Mnemonic::TST => tst_outcome(s, size, lhs),
        Mnemonic::ADD => add_outcome(s, size, lhs, trg),
        _ => (s, Err(ExecError::UnsupportedOpcode)),
    }
}

/// A resolved read-only operand has exactly the declared width.
pub proof fn lemma_read_bytes_len(s: MachineView, loc: DataContainer, size: OpSize)
    requires
        s.wf(),
        can_read(s, loc, size),
    ensures
        read_bytes(s, loc, size).len() == size_width(size),
{
}

/// Bit-level characterization of the N/Z update: it writes exactly the N and
/// Z bits and keeps every other bit of the condition-code byte.
pub proof fn lemma_nz_ccr_bits(c: u8, v: Seq<u8>)
    ensures
        nz_ccr(c, v) & FLAG_Z == (if is_zero_spec(v) {
            FLAG_Z
        } else {
            0
        }),
        nz_ccr(c, v) & FLAG_N == (if is_negative_spec(v) {
            FLAG_N
        } else {
            0
        }),
        nz_ccr(c, v) & FLAG_X == c & FLAG_X,
        nz_ccr(c, v) & FLAG_V == c & FLAG_V,
        nz_ccr(c, v) & FLAG_C == c & FLAG_C,
{
    if is_negative_spec(v) {
        if is_zero_spec(v) {
            assert(((c | 0x08u8) | 0x04u8) & 0x04u8 == 0x04u8 && ((c | 0x08u8) | 0x04u8) & 0x08u8
                == 0x08u8 && ((c | 0x08u8) | 0x04u8) & 0x10u8 == c & 0x10u8 && ((c | 0x08u8)
                | 0x04u8) & 0x02u8 == c & 0x02u8 && ((c | 0x08u8) | 0x04u8) & 0x01u8 == c & 0x01u8)
                by (bit_vector);
        } else {
            assert(((c | 0x08u8) & !0x04u8) & 0x04u8 == 0u8 && ((c | 0x08u8) & !0x04u8) & 0x08u8
                == 0x08u8 && ((c | 0x08u8) & !0x04u8) & 0x10u8 == c & 0x10u8 && ((c | 0x08u8)
                & !0x04u8) & 0x02u8 == c & 0x02u8 && ((c | 0x08u8) & !0x04u8) & 0x01u8 == c
                & 0x01u8) by (bit_vector);
        }
    } else {
        if is_zero_spec(v) {
            assert(((c & !0x08u8) | 0x04u8) & 0x04u8 == 0x04u8 && ((c & !0x08u8) | 0x04u8) & 0x08u8
                == 0u8 && ((c & !0x08u8) | 0x04u8) & 0x10u8 == c & 0x10u8 && ((c & !0x08u8)
                | 0x04u8) & 0x02u8 == c & 0x02u8 && ((c & !0x08u8) | 0x04u8) & 0x01u8 == c & 0x01u8)
                by (bit_vector);
        } else {
            assert(((c & !0x08u8) & !0x04u8) & 0x04u8 == 0u8 && ((c & !0x08u8) & !0x04u8) & 0x08u8
                == 0u8 && ((c & !0x08u8) & !0x04u8) & 0x10u8 == c & 0x10u8 && ((c & !0x08u8)
                & !0x04u8) & 0x02u8 == c & 0x02u8 && ((c & !0x08u8) & !0x04u8) & 0x01u8 == c
                & 0x01u8) by (bit_vector);
        }
    }
}

/// Bit-level characterization of the unconditional C/V clears: both clears
/// zero exactly the C and V bits and keep N, Z and X.
pub proof fn lemma_cleared_bits(c: u8)
    ensures
        move_cleared(c) & FLAG_C == 0 && move_cleared(c) & FLAG_V == 0,
        move_cleared(c) & FLAG_Z == c & FLAG_Z && move_cleared(c) & FLAG_N == c & FLAG_N
            && move_cleared(c) & FLAG_X == c & FLAG_X,
        tst_cleared(c) == move_cleared(c),
{
    assert(((c & !0x01u8) & !0x02u8) & 0x01u8 == 0u8 && ((c & !0x01u8) & !0x02u8) & 0x02u8 == 0u8
        && ((c & !0x01u8) & !0x02u8) & 0x04u8 == c & 0x04u8 && ((c & !0x01u8) & !0x02u8) & 0x08u8
        == c & 0x08u8 && ((c & !0x01u8) & !0x02u8) & 0x10u8 == c & 0x10u8 && ((c & !0x01u8)
        & !0x02u8) == ((c & !0x02u8) & !0x01u8)) by (bit_vector);
}

/// Bit-level characterization of ADD's flag re-assertion after its MOVE
/// step: C and X both end up equal to the carry, V ends up equal to the
/// overflow, and N and Z are kept.
pub proof fn lemma_add_flag_bits(m: u8, carry: bool, over: bool)
    ensures
        ({
            let c1 = if carry {
                (m | FLAG_C) | FLAG_X
            } else {
                (m & !FLAG_C) & !FLAG_X
            };
            let c2 = if over {
                c1 | FLAG_V
            } else {
                c1 & !FLAG_V
            };
            &&& (c2 & FLAG_C != 0 <==> carry)
            &&& (c2 & FLAG_X != 0 <==> carry)
            &&& (c2 & FLAG_V != 0 <==> over)
            &&& c2 & FLAG_N == m & FLAG_N
            &&& c2 & FLAG_Z == m & FLAG_Z
        }),
{
    if carry {
        if over {
            assert((((m | 0x01u8) | 0x10u8) | 0x02u8) & 0x01u8 != 0u8 && (((m | 0x01u8) | 0x10u8)
                | 0x02u8) & 0x10u8 != 0u8 && (((m | 0x01u8) | 0x10u8) | 0x02u8) & 0x02u8 != 0u8 && ((
            (m | 0x01u8) | 0x10u8) | 0x02u8) & 0x08u8 == m & 0x08u8 && (((m | 0x01u8) | 0x10u8)
                | 0x02u8) & 0x04u8 == m & 0x04u8) by (bit_vector);
        } else {
            assert((((m | 0x01u8) | 0x10u8) & !0x02u8) & 0x01u8 != 0u8 && (((m | 0x01u8) | 0x10u8)
                & !0x02u8) & 0x10u8 != 0u8 && (((m | 0x01u8) | 0x10u8) & !0x02u8) & 0x02u8 == 0u8
                && (((m | 0x01u8) | 0x10u8) & !0x02u8) & 0x08u8 == m & 0x08u8 && (((m | 0x01u8)
                | 0x10u8) & !0x02u8) & 0x04u8 == m & 0x04u8) by (bit_vector);
        }
    } else {
        if over {
            assert((((m & !0x01u8) & !0x10u8) | 0x02u8) & 0x01u8 == 0u8 && (((m & !0x01u8)
                & !0x10u8) | 0x02u8) & 0x10u8 == 0u8 && (((m & !0x01u8) & !0x10u8) | 0x02u8)
                & 0x02u8 != 0u8 && (((m & !0x01u8) & !0x10u8) | 0x02u8) & 0x08u8 == m & 0x08u8 && ((
            (m & !0x01u8) & !0x10u8) | 0x02u8) & 0x04u8 == m & 0x04u8) by (bit_vector);
        } else {
            assert((((m & !0x01u8) & !0x10u8) & !0x02u8) & 0x01u8 == 0u8 && (((m & !0x01u8)
                & !0x10u8) & !0x02u8) & 0x10u8 == 0u8 && (((m & !0x01u8) & !0x10u8) & !0x02u8)
                & 0x02u8 == 0u8 && (((m & !0x01u8) & !0x10u8) & !0x02u8) & 0x08u8 == m & 0x08u8 && ((
            (m & !0x01u8) & !0x10u8) & !0x02u8) & 0x04u8 == m & 0x04u8) by (bit_vector);
        }
    }
}

/// Replacing the condition-code byte keeps the state well formed.
pub proof fn lemma_with_ccr_wf(s: MachineView, c: u8)
    requires
        s.wf(),
    ensures
        with_ccr(s, c).wf(),
{
}

/// Committing a value of the declared width through a writable operand
/// keeps the state well formed.
pub proof fn lemma_write_back_wf(s: MachineView, loc: DataContainer, size: OpSize, val: Seq<u8>)
    requires
        s.wf(),
        can_write(s, loc, size),
        val.len() == size_width(size),
    ensures
        write_back(s, loc, size, val).wf(),
{
    let t = write_back(s, loc, size, val);
    match loc {
        DataContainer::DATA_REGISTER(i) => {
            let w = size_width(size) as int;
            assert forall|m: int| 0 <= m < 8 implies (#[trigger] t.data[m]).len() == 4 by {
                if m == i {
                    assert(t.data[m] == s.data[m].take(4 - w) + val);
                } else {
                    assert(t.data[m] == s.data[m]);
                }
            }
        },
        DataContainer::ADDRESS_REGISTER(i) => {
            let w = size_width(size) as int;
            assert forall|m: int| 0 <= m < 8 implies (#[trigger] t.addr[m]).len() == 4 by {
                if m == i {
                    assert(t.addr[m] == s.addr[m].take(4 - w) + val);
                } else {
                    assert(t.addr[m] == s.addr[m]);
                }
            }
        },
        _ => {},
    }
}

} // verus!

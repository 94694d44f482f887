//! Laws of the execution engine, stated over the spec-level semantics in
//! `state` and proved from the definitions the handlers' contracts use:
//! which storage each opcode touches and how the condition codes relate to
//! the values read and written.

use vstd::prelude::*;
use crate::bytes::be_val;
use crate::bytes::is_negative_spec;
use crate::bytes::is_zero_spec;
use crate::bytes::lemma_be_bytes_len;
use crate::bytes::pow256;
use crate::bytes::sum_bytes;
use crate::bytes::sum_carries;
use crate::instruction::DataContainer;
use crate::instruction::ExecError;
use crate::instruction::OpSize;
use crate::state::add_ok;
use crate::state::add_outcome;
use crate::state::add_overflow;
use crate::state::can_read;
use crate::state::lemma_cleared_bits;
use crate::state::lemma_add_flag_bits;
use crate::state::lemma_nz_ccr_bits;
use crate::state::lemma_read_bytes_len;
use crate::state::lemma_with_ccr_wf;
use crate::state::lemma_write_back_wf;
use crate::state::move_cleared;
use crate::state::move_ok;
use crate::state::move_outcome;
use crate::state::move_step;
use crate::state::nz_ccr;
use crate::state::read_bytes;
use crate::state::size_width;
use crate::state::tst_cleared;
use crate::state::tst_outcome;
use crate::state::with_ccr;
use crate::state::write_back;
use crate::state::MachineView;
use crate::state::FLAG_C;
use crate::state::FLAG_N;
use crate::state::FLAG_V;
use crate::state::FLAG_X;
use crate::state::FLAG_Z;

verus! {

/// For every register index and every size, a MOVE from an immediate to a
/// data register succeeds, writes the immediate's low `size_width(size)`
/// bytes over the register's low bytes, and leaves the register's bytes
/// above the active width, every other register, and all of memory
/// unchanged.
pub proof fn lemma_move_immediate_to_data_register(
    s: MachineView,
    size: OpSize,
    imm: Vec<u8>,
    i: usize,
)
    requires
        s.wf(),
        i < 8,
        imm@.len() == 4,
    ensures
        ({
            let w = size_width(size) as int;
            let out = move_outcome(
                s,
                size,
                DataContainer::IMEDIATE_VALUE(imm),
                DataContainer::DATA_REGISTER(i),
            );
            &&& out.1 == Ok::<(), ExecError>(())
            &&& out.0.data[i as int] == s.data[i as int].take(4 - w) + imm@.skip(4 - w)
            &&& (forall|j: int| 0 <= j < 8 && j != i ==> out.0.data[j] == s.data[j])
            &&& out.0.addr == s.addr
            &&& out.0.mem == s.mem
            &&& out.0.pc == s.pc
            &&& out.0.usp == s.usp
        }),
{
}

/// After a MOVE whose target is plain storage (not the status register or
/// its condition-code byte), Z is set iff every active byte of the written
/// value is zero, N is set iff the active width's sign bit is set, and a
/// zero value never sets N.
pub proof fn lemma_move_flags(s: MachineView, size: OpSize, lhs: DataContainer, trg: DataContainer)
    requires
        s.wf(),
        move_ok(s, size, lhs, trg),
        !(trg is SR),
        !(trg is CCR),
    ensures
        ({
            let temp = read_bytes(with_ccr(s, move_cleared(s.ccr())), lhs, size);
            let out = move_outcome(s, size, lhs, trg).0;
            &&& (out.flag_z() <==> is_zero_spec(temp))
            &&& (out.flag_n() <==> is_negative_spec(temp))
            &&& (is_zero_spec(temp) ==> !out.flag_n())
        }),
{
    let s0 = with_ccr(s, move_cleared(s.ccr()));
    let temp = read_bytes(s0, lhs, size);
    let c2 = nz_ccr(move_cleared(s.ccr()), temp);
    let out = move_outcome(s, size, lhs, trg).0;
    lemma_with_ccr_wf(s, move_cleared(s.ccr()));
    lemma_read_bytes_len(s0, lhs, size);
    assert(out.sr == with_ccr(s, c2).sr);
    assert(out.ccr() == c2);
    lemma_nz_ccr_bits(move_cleared(s.ccr()), temp);
    assert(temp.len() > 0);
    if is_zero_spec(temp) {
        assert(temp[0] == 0);
        assert(!is_negative_spec(temp));
    }
}

/// TST's flags follow the same rule as MOVE's: Z iff every inspected byte is
/// zero, N iff the inspected value's sign bit is set, and never both for a
/// nonzero value.
pub proof fn lemma_tst_flags(s: MachineView, size: OpSize, lhs: DataContainer)
    requires
        s.wf(),
        can_read(s, lhs, size),
    ensures
        ({
            let v = read_bytes(s, lhs, size);
            let out = tst_outcome(s, size, lhs).0;
            &&& (out.flag_z() <==> is_zero_spec(v))
            &&& (out.flag_n() <==> is_negative_spec(v))
            &&& (is_zero_spec(v) ==> !out.flag_n())
        }),
{
    let v = read_bytes(s, lhs, size);
    let out = tst_outcome(s, size, lhs).0;
    lemma_read_bytes_len(s, lhs, size);
    assert(out.ccr() == nz_ccr(tst_cleared(s.ccr()), v));
    lemma_nz_ccr_bits(tst_cleared(s.ccr()), v);
    assert(v.len() > 0);
    if is_zero_spec(v) {
        assert(v[0] == 0);
    }
}

/// ADD sets V iff both raw operands share a sign and the width-bounded
/// result's sign differs from both; otherwise V is cleared.
pub proof fn lemma_add_overflow_flag(
    s: MachineView,
    size: OpSize,
    lhs: DataContainer,
    trg: DataContainer,
)
    requires
        s.wf(),
        add_ok(s, size, lhs, trg),
    ensures
        ({
            let a = read_bytes(s, lhs, size);
            let b = read_bytes(s, trg, size);
            let r = sum_bytes(a, b);
            let out = add_outcome(s, size, lhs, trg).0;
            out.flag_v() <==> add_overflow(a, b, r)
        }),
{
    let a = read_bytes(s, lhs, size);
    let b = read_bytes(s, trg, size);
    let r = sum_bytes(a, b);
    let s1 = move_step(s, size, r, trg);
    lemma_be_bytes_len((be_val(a) + be_val(b)) as nat, a.len());
    lemma_read_bytes_len(s, lhs, size);
    lemma_with_ccr_wf(s, nz_ccr(move_cleared(s.ccr()), r));
    lemma_write_back_wf(with_ccr(s, nz_ccr(move_cleared(s.ccr()), r)), trg, size, r);
    lemma_add_flag_bits(s1.ccr(), sum_carries(a, b), add_overflow(a, b, r));
}

/// ADD sets C iff the width-bounded addition overflows the declared width,
/// and C and X always change together.
pub proof fn lemma_add_carry_flag(
    s: MachineView,
    size: OpSize,
    lhs: DataContainer,
    trg: DataContainer,
)
    requires
        s.wf(),
        add_ok(s, size, lhs, trg),
    ensures
        ({
            let a = read_bytes(s, lhs, size);
            let b = read_bytes(s, trg, size);
            let out = add_outcome(s, size, lhs, trg).0;
            &&& (out.flag_c() <==> be_val(a) + be_val(b) >= pow256(size_width(size)))
            &&& (out.flag_c() <==> out.flag_x())
        }),
{
    let a = read_bytes(s, lhs, size);
    let b = read_bytes(s, trg, size);
    let r = sum_bytes(a, b);
    let s1 = move_step(s, size, r, trg);
    lemma_be_bytes_len((be_val(a) + be_val(b)) as nat, a.len());
    lemma_read_bytes_len(s, lhs, size);
    lemma_with_ccr_wf(s, nz_ccr(move_cleared(s.ccr()), r));
    lemma_write_back_wf(with_ccr(s, nz_ccr(move_cleared(s.ccr()), r)), trg, size, r);
    lemma_add_flag_bits(s1.ccr(), sum_carries(a, b), add_overflow(a, b, r));
}

/// After an ADD whose target is plain storage (not the status register or
/// its condition-code byte), Z is set iff every byte of the width-bounded
/// sum is zero, N is set iff the sum's sign bit is set, and a zero sum never
/// sets N: ADD's delegation to MOVE leaves the written value's N/Z rule
/// intact.
pub proof fn lemma_add_nz_flags(s: MachineView, size: OpSize, lhs: DataContainer, trg: DataContainer)
    requires
        s.wf(),
        add_ok(s, size, lhs, trg),
        !(trg is SR),
        !(trg is CCR),
    ensures
        ({
            let a = read_bytes(s, lhs, size);
            let b = read_bytes(s, trg, size);
            let r = sum_bytes(a, b);
            let out = add_outcome(s, size, lhs, trg).0;
            &&& (out.flag_z() <==> is_zero_spec(r))
            &&& (out.flag_n() <==> is_negative_spec(r))
            &&& (is_zero_spec(r) ==> !out.flag_n())
        }),
{
    let a = read_bytes(s, lhs, size);
    let b = read_bytes(s, trg, size);
    let r = sum_bytes(a, b);
    let s1 = move_step(s, size, r, trg);
    lemma_be_bytes_len((be_val(a) + be_val(b)) as nat, a.len());
    lemma_read_bytes_len(s, lhs, size);
    lemma_with_ccr_wf(s, nz_ccr(move_cleared(s.ccr()), r));
    lemma_write_back_wf(with_ccr(s, nz_ccr(move_cleared(s.ccr()), r)), trg, size, r);
    assert(s1.sr == with_ccr(s, nz_ccr(move_cleared(s.ccr()), r)).sr);
    assert(s1.ccr() == nz_ccr(move_cleared(s.ccr()), r));
    lemma_nz_ccr_bits(move_cleared(s.ccr()), r);
    lemma_add_flag_bits(s1.ccr(), sum_carries(a, b), add_overflow(a, b, r));
    assert(r.len() > 0);
    if is_zero_spec(r) {
        assert(r[0] == 0);
    }
}

/// TST never mutates its operand, any other storage, the X flag or the high
/// status byte: it only clears V and C and sets N and Z from the inspected
/// value.
pub proof fn lemma_tst_preserves(s: MachineView, size: OpSize, lhs: DataContainer)
    requires
        s.wf(),
        can_read(s, lhs, size),
    ensures
        ({
            let out = tst_outcome(s, size, lhs);
            &&& out.1 == Ok::<(), ExecError>(())
            &&& out.0.data == s.data
            &&& out.0.addr == s.addr
            &&& out.0.mem == s.mem
            &&& out.0.pc == s.pc
            &&& out.0.usp == s.usp
            &&& out.0.sr[0] == s.sr[0]
            &&& (out.0.flag_x() <==> s.flag_x())
            &&& !out.0.flag_v()
            &&& !out.0.flag_c()
        }),
{
    let v = read_bytes(s, lhs, size);
    let out = tst_outcome(s, size, lhs).0;
    assert(out.ccr() == nz_ccr(tst_cleared(s.ccr()), v));
    lemma_nz_ccr_bits(tst_cleared(s.ccr()), v);
    lemma_cleared_bits(s.ccr());
}

} // verus!

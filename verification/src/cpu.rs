//! The executable machine: register file, memory, status register, and the
//! execution engine that dispatches MOVE, TST and ADD. Every public method
//! is specified against the abstract `MachineView` model in `state`.

use vstd::prelude::*;
use crate::bytes::add_bytes;
use crate::bytes::is_negative_bytes;
use crate::bytes::is_zero_bytes;
use crate::bytes::lemma_be_bytes_len;
use crate::bytes::sum_bytes;
use crate::bytes::zeros;
use crate::instruction::container_wf;
use crate::instruction::DataContainer;
use crate::instruction::ExecError;
use crate::instruction::Instruction;
use crate::instruction::Mnemonic;
use crate::instruction::OpSize;
use crate::state::add_outcome;
use crate::state::add_result;
use crate::state::can_read;
use crate::state::can_write;
use crate::state::initial_view;
use crate::state::lemma_with_ccr_wf;
use crate::state::lemma_write_back_wf;
use crate::state::move_cleared;
use crate::state::move_outcome;
use crate::state::move_result;
use crate::state::move_step;
use crate::state::nz_ccr;
use crate::state::read_bytes;
use crate::state::read_err;
use crate::state::size_width;
use crate::state::step_spec;
use crate::state::tst_outcome;
use crate::state::tst_result;
use crate::state::with_ccr;
use crate::state::write_back;
use crate::state::write_err;
use crate::state::FLAG_C;
use crate::state::FLAG_N;
use crate::state::FLAG_V;
use crate::state::FLAG_X;
use crate::state::FLAG_Z;
use crate::state::MachineView;
use crate::state::MEM_SIZE;

verus! {

/// Byte width of the declared operand size.
fn width_of(size: OpSize) -> (w: usize)
    ensures
        w == size_width(size),
{
    match size {
        OpSize::BYTE => 1,
        OpSize::WORD => 2,
        OpSize::LONG => 4,
    }
}

/// A vector of `n` zero bytes.
fn zero_vec(n: usize) -> (v: Vec<u8>)
    ensures
        v@ == zeros(n as nat),
{
    let v = vec![0u8; n];
    proof {
        assert(v@ =~= zeros(n as nat));
    }
    v
}

/// A copy of `v` from index `from` to its end.
fn copy_tail(v: &Vec<u8>, from: usize) -> (out: Vec<u8>)
    requires
        from <= v@.len(),
    ensures
        out@ == v@.skip(from as int),
{
    let mut out: Vec<u8> = Vec::new();
    let mut k: usize = from;
    while k < v.len()
        invariant
            from <= k <= v@.len(),
            out@ == v@.subrange(from as int, k as int),
        decreases v@.len() - k,
    {
        out.push(v[k]);
        proof {
            assert(out@ =~= v@.subrange(from as int, k + 1));
        }
        k += 1;
    }
    proof {
        assert(out@ =~= v@.skip(from as int));
    }
    out
}

/// A 4-byte register buffer with `val` written over its low bytes.
fn splice_low(oldreg: &Vec<u8>, val: &Vec<u8>) -> (r: Vec<u8>)
    requires
        oldreg@.len() == 4,
        1 <= val@.len() <= 4,
    ensures
        r@ == oldreg@.take(4 - val@.len() as int) + val@,
{
    let w = val.len();
    let mut out: Vec<u8> = Vec::new();
    let mut k: usize = 0;
    while k < 4 - w
        invariant
            k <= 4 - w,
            w == val@.len(),
            oldreg@.len() == 4,
            out@ == oldreg@.subrange(0, k as int),
        decreases 4 - w - k,
    {
        out.push(oldreg[k]);
        proof {
            assert(out@ =~= oldreg@.subrange(0, k + 1));
        }
        k += 1;
    }
    let mut j: usize = 0;
    while j < w
        invariant
            j <= w,
            w == val@.len(),
            oldreg@.len() == 4,
            out@ == oldreg@.subrange(0, (4 - w) as int) + val@.subrange(0, j as int),
        decreases w - j,
    {
        out.push(val[j]);
        proof {
            assert(out@ =~= oldreg@.subrange(0, (4 - w) as int) + val@.subrange(0, j + 1));
        }
        j += 1;
    }
    proof {
        assert(out@ =~= oldreg@.take(4 - val@.len() as int) + val@);
    }
    out
}

/// The register file as the model sees it: each register's byte sequence.
pub open spec fn regs_view(v: Seq<Vec<u8>>) -> Seq<Seq<u8>> {
    v.map_values(|r: Vec<u8>| r@)
}

/// One emulated CPU: program counter, user stack pointer, eight data and
/// eight address registers (each a 4-byte big-endian buffer), a flat memory
/// array of `MEM_SIZE` bytes, and the 2-byte status register.
pub struct CPU {
    pc: Vec<u8>,
    usp: Vec<u8>,
    data_register: Vec<Vec<u8>>,
    address_register: Vec<Vec<u8>>,
    memory: Vec<u8>,
    sr: Vec<u8>,
}

impl View for CPU {
    type V = MachineView;

    closed spec fn view(&self) -> MachineView {
        MachineView {
            pc: self.pc@,
            usp: self.usp@,
            data: regs_view(self.data_register@),
            addr: regs_view(self.address_register@),
            mem: self.memory@,
            sr: self.sr@,
        }
    }
}

impl Default for CPU {
    /// A machine with all storage zeroed.
    fn default() -> (c: CPU)
        ensures
            c@ == initial_view(),
            c@.wf(),
    {
        let mut data: Vec<Vec<u8>> = Vec::new();
        let mut addr: Vec<Vec<u8>> = Vec::new();
        let mut k: usize = 0;
        while k < 8
            invariant
                k <= 8,
                data@.len() == k,
                addr@.len() == k,
                forall|i: int| 0 <= i < k ==> (#[trigger] data@[i])@ == zeros(4),
                forall|i: int| 0 <= i < k ==> (#[trigger] addr@[i])@ == zeros(4),
            decreases 8 - k,
    {
            data.push(zero_vec(4));
            addr.push(zero_vec(4));
            k += 1;
        }
        proof {
            let dv = regs_view(data@);
            let av = regs_view(addr@);
            assert forall|i: int| 0 <= i < 8 implies (#[trigger] dv[i]).len() == 4 && (
            #[trigger] av[i]).len() == 4 by {
                assert(dv[i] == data@[i]@);
                assert(av[i] == addr@[i]@);
            }
            assert(dv.len() == 8);
            assert(av.len() == 8);
        }
        let c = CPU {
            pc: zero_vec(4),
            usp: zero_vec(4),
            data_register: data,
            address_register: addr,
            memory: zero_vec(MEM_SIZE),
            sr: zero_vec(2),
        };
        proof {
            assert(c@ =~~= initial_view());
        }
        c
    }
}

impl CPU {
    /// The condition-code byte: the low byte of the status register.
    pub fn get_ccr(&self) -> (r: u8)
        requires
            self@.wf(),
        ensures
            r == self@.ccr(),
    {
        self.sr[1]
    }

    /// The 4 bytes of data register `i`, or absence when `i` is out of range.
    pub fn get_data_reg(&self, i: usize) -> (r: Option<Vec<u8>>)
        requires
            self@.wf(),
        ensures
            match r {
                Some(v) => i < 8 && v@ == self@.data[i as int],
                None => i >= 8,
            },
    {
        if i < 8 {
            let reg = &self.data_register[i];
            proof {
                assert(reg@ == self@.data[i as int]);
            }
            let mut out: Vec<u8> = Vec::new();
            let mut k: usize = 0;
            while k < 4
                invariant
                    k <= 4,
                    reg@.len() == 4,
                    out@ == reg@.subrange(0, k as int),
                decreases 4 - k,
            {
                out.push(reg[k]);
                proof {
                    assert(out@ =~= reg@.subrange(0, k + 1));
                }
                k += 1;
            }
            proof {
                assert(out@ =~= self@.data[i as int]);
            }
            Some(out)
        } else {
            None
        }
    }

    /// The 4 bytes of address register `i`, or absence when `i` is out of
    /// range.
    pub fn get_addr_reg(&self, i: usize) -> (r: Option<Vec<u8>>)
        requires
            self@.wf(),
        ensures
            match r {
                Some(v) => i < 8 && v@ == self@.addr[i as int],
                None => i >= 8,
            },
    {
        if i < 8 {
            let reg = &self.address_register[i];
            proof {
                assert(reg@ == self@.addr[i as int]);
            }
            let mut out: Vec<u8> = Vec::new();
            let mut k: usize = 0;
            while k < 4
                invariant
                    k <= 4,
                    reg@.len() == 4,
                    out@ == reg@.subrange(0, k as int),
                decreases 4 - k,
            {
                out.push(reg[k]);
                proof {
                    assert(out@ =~= reg@.subrange(0, k + 1));
                }
                k += 1;
            }
            proof {
                assert(out@ =~= self@.addr[i as int]);
            }
            Some(out)
        } else {
            None
        }
    }

    /// The `len` bytes of memory starting at `offset`, or absence when the
    /// range reaches past the end of memory: a range is valid exactly when
    /// `offset + len` is at most the capacity, so the last byte of memory can
    /// be probed like any other.
    pub fn get_memory_offset(&self, offset: usize, len: usize) -> (r: Option<Vec<u8>>)
        requires
            self@.wf(),
        ensures
            match r {
                Some(v) => offset + len <= MEM_SIZE && v@ == self@.mem.subrange(
                    offset as int,
                    offset + len,
                ),
                None => offset + len > MEM_SIZE,
            },
    {
        if offset > MEM_SIZE || len > MEM_SIZE - offset {
            None
        } else {
            let mut out: Vec<u8> = Vec::new();
            let mut k: usize = 0;
            while k < len
                invariant
                    k <= len,
                    offset + len <= MEM_SIZE,
                    self@.mem.len() == MEM_SIZE,
                    out@ == self@.mem.subrange(offset as int, offset + k),
                decreases len - k,
            {
                out.push(self.memory[offset + k]);
                proof {
                    assert(out@ =~= self@.mem.subrange(offset as int, offset + k + 1));
                }
                k += 1;
            }
            Some(out)
        }
    }

    fn set_c_flag(&mut self)
        requires
            old(self)@.wf(),
        ensures
            final(self)@ == with_ccr(old(self)@, old(self)@.ccr() | FLAG_C),
    {
        self.sr[1] = self.sr[1] | FLAG_C;
        proof {
            assert(self@ =~~= with_ccr(old(self)@, old(self)@.ccr() | FLAG_C));
        }
    }

    fn set_v_flag(&mut self)
        requires
            old(self)@.wf(),
        ensures
            final(self)@ == with_ccr(old(self)@, old(self)@.ccr() | FLAG_V),
    {
        self.sr[1] = self.sr[1] | FLAG_V;
        proof {
            assert(self@ =~~= with_ccr(old(self)@, old(self)@.ccr() | FLAG_V));
        }
    }

    fn set_z_flag(&mut self)
        requires
            old(self)@.wf(),
        ensures
            final(self)@ == with_ccr(old(self)@, old(self)@.ccr() | FLAG_Z),
    {
        self.sr[1] = self.sr[1] | FLAG_Z;
        proof {
            assert(self@ =~~= with_ccr(old(self)@, old(self)@.ccr() | FLAG_Z));
        }
    }

    fn set_n_flag(&mut self)
        requires
            old(self)@.wf(),
        ensures
            final(self)@ == with_ccr(old(self)@, old(self)@.ccr() | FLAG_N),
    {
        self.sr[1] = self.sr[1] | FLAG_N;
        proof {
            assert(self@ =~~= with_ccr(old(self)@, old(self)@.ccr() | FLAG_N));
        }
    }

    fn set_x_flag(&mut self)
        requires
            old(self)@.wf(),
        ensures
            final(self)@ == with_ccr(old(self)@, old(self)@.ccr() | FLAG_X),
    {
        self.sr[1] = self.sr[1] | FLAG_X;
        proof {
            assert(self@ =~~= with_ccr(old(self)@, old(self)@.ccr() | FLAG_X));
        }
    }

    fn clear_c_flag(&mut self)
        requires
            old(self)@.wf(),
        ensures
            final(self)@ == with_ccr(old(self)@, old(self)@.ccr() & !FLAG_C),
    {
        self.sr[1] = self.sr[1] & !FLAG_C;
        proof {
            assert(self@ =~~= with_ccr(old(self)@, old(self)@.ccr() & !FLAG_C));
        }
    }

    fn clear_v_flag(&mut self)
        requires
            old(self)@.wf(),
        ensures
            final(self)@ == with_ccr(old(self)@, old(self)@.ccr() & !FLAG_V),
    {
        self.sr[1] = self.sr[1] & !FLAG_V;
        proof {
            assert(self@ =~~= with_ccr(old(self)@, old(self)@.ccr() & !FLAG_V));
        }
    }

    fn clear_z_flag(&mut self)
        requires
            old(self)@.wf(),
        ensures
            final(self)@ == with_ccr(old(self)@, old(self)@.ccr() & !FLAG_Z),
    {
        self.sr[1] = self.sr[1] & !FLAG_Z;
        proof {
            assert(self@ =~~= with_ccr(old(self)@, old(self)@.ccr() & !FLAG_Z));
        }
    }

    fn clear_n_flag(&mut self)
        requires
            old(self)@.wf(),
        ensures
            final(self)@ == with_ccr(old(self)@, old(self)@.ccr() & !FLAG_N),
    {
        self.sr[1] = self.sr[1] & !FLAG_N;
        proof {
            assert(self@ =~~= with_ccr(old(self)@, old(self)@.ccr() & !FLAG_N));
        }
    }

    fn clear_x_flag(&mut self)
        requires
            old(self)@.wf(),
        ensures
            final(self)@ == with_ccr(old(self)@, old(self)@.ccr() & !FLAG_X),
    {
        self.sr[1] = self.sr[1] & !FLAG_X;
        proof {
            assert(self@ =~~= with_ccr(old(self)@, old(self)@.ccr() & !FLAG_X));
        }
    }

    /// Checks that `loc` can be resolved read-only at `size`, reporting the
    /// resolver error otherwise. Decides only; no state is touched.
    fn check_read(&self, loc: &DataContainer, size: OpSize) -> (r: Result<(), ExecError>)
        requires
            self@.wf(),
            container_wf(*loc),
        ensures
            match r {
                Ok(()) => can_read(self@, *loc, size),
                Err(e) => !can_read(self@, *loc, size) && e == read_err(*loc, size),
            },
    {
        match loc {
            DataContainer::EMPTY => Err(ExecError::MissingOperand),
            DataContainer::MEMORY_ADDR(o) => {
                let w = width_of(size);
                if *o > MEM_SIZE - w {
                    Err(ExecError::AddressOutOfRange)
                } else {
                    Ok(())
                }
            },
            DataContainer::SR => match size {
                OpSize::WORD => Ok(()),
                _ => Err(ExecError::WidthMismatch),
            },
            DataContainer::CCR => match size {
                OpSize::BYTE => Ok(()),
                _ => Err(ExecError::WidthMismatch),
            },
            _ => Ok(()),
        }
    }

    /// Checks that `loc` can be resolved mutably at `size`, reporting the
    /// resolver error otherwise. Decides only; no state is touched.
    fn check_write(&self, loc: &DataContainer, size: OpSize) -> (r: Result<(), ExecError>)
        requires
            self@.wf(),
            container_wf(*loc),
        ensures
            match r {
                Ok(()) => can_write(self@, *loc, size),
                Err(e) => !can_write(self@, *loc, size) && e == write_err(*loc, size),
            },
    {
        match loc {
            DataContainer::IMEDIATE_VALUE(_) => Err(ExecError::ImmutableOperand),
            _ => self.check_read(loc, size),
        }
    }

    /// Resolves `loc` read-only at `size` and copies the resolved bytes out.
    fn read_operand(&self, loc: &DataContainer, size: OpSize) -> (r: Vec<u8>)
        requires
            self@.wf(),
            container_wf(*loc),
            can_read(self@, *loc, size),
        ensures
            r@ == read_bytes(self@, *loc, size),
            r@.len() == size_width(size),
    {
        let w = width_of(size);
        match loc {
            DataContainer::DATA_REGISTER(i) => {
                let reg = &self.data_register[*i];
                proof {
                    assert(reg@ == self@.data[*i as int]);
                }
                copy_tail(reg, 4 - w)
            },
            DataContainer::ADDRESS_REGISTER(i) => {
                let reg = &self.address_register[*i];
                proof {
                    assert(reg@ == self@.addr[*i as int]);
                }
                copy_tail(reg, 4 - w)
            },
            DataContainer::IMEDIATE_VALUE(v) => copy_tail(v, 4 - w),
            DataContainer::MEMORY_ADDR(o) => {
                let mut out: Vec<u8> = Vec::new();
                let mut k: usize = 0;
                while k < w
                    invariant
                        k <= w,
                        *o + w <= MEM_SIZE,
                        self@.mem.len() == MEM_SIZE,
                        out@ == self@.mem.subrange(*o as int, *o + k),
                    decreases w - k,
                {
                    out.push(self.memory[*o + k]);
                    proof {
                        assert(out@ =~= self@.mem.subrange(*o as int, *o + k + 1));
                    }
                    k += 1;
                }
                out
            },
            DataContainer::SR => {
                let mut out: Vec<u8> = Vec::new();
                out.push(self.sr[0]);
                out.push(self.sr[1]);
                proof {
                    assert(out@ =~= self@.sr);
                }
                out
            },
            DataContainer::CCR => {
                let mut out: Vec<u8> = Vec::new();
                out.push(self.sr[1]);
                proof {
                    assert(out@ =~= seq![self@.sr[1]]);
                }
                out
            },
            DataContainer::EMPTY => unreached(),
        }
    }

    /// Commits `val` through the operand's mutable view: the low bytes of a
    /// register, a memory region, or the status register.
    fn write_operand(&mut self, loc: &DataContainer, size: OpSize, val: &Vec<u8>)
        requires
            old(self)@.wf(),
            container_wf(*loc),
            can_write(old(self)@, *loc, size),
            val@.len() == size_width(size),
        ensures
            final(self)@ == write_back(old(self)@, *loc, size, val@),
    {
        let w = width_of(size);
        match loc {
            DataContainer::DATA_REGISTER(i) => {
                let oldreg = copy_tail(&self.data_register[*i], 0);
                proof {
                    assert(self.data_register@[*i as int]@ == self@.data[*i as int]);
                    assert(oldreg@ =~= self@.data[*i as int]);
                }
                let new_reg = splice_low(&oldreg, val);
                proof {
                    let nf = self.data_register@.update(*i as int, new_reg);
                    assert forall|m: int| 0 <= m < 8 implies (#[trigger] regs_view(nf)[m]).len()
                        == 4 by {
                        if m == *i {
                            assert(regs_view(nf)[m] == new_reg@);
                        } else {
                            assert(regs_view(nf)[m] == self@.data[m]);
                        }
                    }
                }
                self.data_register[*i] = new_reg;
                proof {
                    assert(self@.data =~~= write_back(old(self)@, *loc, size, val@).data);
                    assert(self@ =~~= write_back(old(self)@, *loc, size, val@));
                }
            },
            DataContainer::ADDRESS_REGISTER(i) => {
                let oldreg = copy_tail(&self.address_register[*i], 0);
                proof {
                    assert(self.address_register@[*i as int]@ == self@.addr[*i as int]);
                    assert(oldreg@ =~= self@.addr[*i as int]);
                }
                let new_reg = splice_low(&oldreg, val);
                proof {
                    let nf = self.address_register@.update(*i as int, new_reg);
                    assert forall|m: int| 0 <= m < 8 implies (#[trigger] regs_view(nf)[m]).len()
                        == 4 by {
                        if m == *i {
                            assert(regs_view(nf)[m] == new_reg@);
                        } else {
                            assert(regs_view(nf)[m] == self@.addr[m]);
                        }
                    }
                }
                self.address_register[*i] = new_reg;
                proof {
                    assert(self@.addr =~~= write_back(old(self)@, *loc, size, val@).addr);
                    assert(self@ =~~= write_back(old(self)@, *loc, size, val@));
                }
            },
            DataContainer::MEMORY_ADDR(o) => {
                let mut k: usize = 0;
                while k < w
                    invariant
                        k <= w,
                        w == size_width(size),
                        val@.len() == w,
                        *o + w <= MEM_SIZE,
                        self@.wf(),
                        forall|j: int| 0 <= j < k ==> self@.mem[*o + j] == val@[j],
                        forall|j: int|
                            0 <= j < MEM_SIZE && !(*o <= j < *o + k) ==> self@.mem[j] == old(
                                self,
                            )@.mem[j],
                        self@.pc == old(self)@.pc,
                        self@.usp == old(self)@.usp,
                        self@.data == old(self)@.data,
                        self@.addr == old(self)@.addr,
                        self@.sr == old(self)@.sr,
                    decreases w - k,
                {
                    self.memory[*o + k] = val[k];
                    k += 1;
                }
                proof {
                    assert(self@.mem =~= old(self)@.mem.take(*o as int) + val@ + old(
                        self,
                    )@.mem.skip(*o + w));
                    assert(self@ =~~= write_back(old(self)@, *loc, size, val@));
                }
            },
            DataContainer::SR => {
                self.sr[0] = val[0];
                self.sr[1] = val[1];
                proof {
                    assert(self@.sr =~= val@);
                    assert(self@ =~~= write_back(old(self)@, *loc, size, val@));
                }
            },
            DataContainer::CCR => {
                self.sr[1] = val[0];
                proof {
                    assert(self@ =~~= write_back(old(self)@, *loc, size, val@));
                }
            },
            DataContainer::IMEDIATE_VALUE(_) => unreached(),
            DataContainer::EMPTY => unreached(),
        }
    }

    /// Sets N, C and X, so a following instruction's flag side effects can be
    /// told apart from a zeroed status register.
    pub fn cpu_flag_move_test(&mut self)
        requires
            old(self)@.wf(),
        ensures
            final(self)@ == with_ccr(
                old(self)@,
                ((old(self)@.ccr() | FLAG_N) | FLAG_C) | FLAG_X,
            ),
            final(self)@.wf(),
    {
        self.set_n_flag();
        self.set_c_flag();
        self.set_x_flag();
        proof {
            assert(self@ =~~= with_ccr(old(self)@, ((old(self)@.ccr() | FLAG_N) | FLAG_C) | FLAG_X));
        }
    }

    /// Sets X, Z, V and C and clears N in one call. Formatting and printing
    /// the resulting state is a caller's concern.
    pub fn foo(&mut self)
        requires
            old(self)@.wf(),
        ensures
            final(self)@ == with_ccr(
                old(self)@,
                ((((old(self)@.ccr() | FLAG_X) | FLAG_Z) | FLAG_V) | FLAG_C) & !FLAG_N,
            ),
            final(self)@.wf(),
    {
        self.set_x_flag();
        self.set_z_flag();
        self.set_v_flag();
        self.set_c_flag();
        self.clear_n_flag();
        proof {
            assert(self@ =~~= with_ccr(
                old(self)@,
                ((((old(self)@.ccr() | FLAG_X) | FLAG_Z) | FLAG_V) | FLAG_C) & !FLAG_N,
            ));
        }
    }

    /// MOVE: clear C and V, read the source at the declared size, set N and Z
    /// from the read bytes, and commit them to the target. Both operands are
    /// validated before anything is touched, so a failing MOVE changes
    /// nothing.
    pub fn perform_move(&mut self, inst: &Instruction) -> (r: Result<(), ExecError>)
        requires
            old(self)@.wf(),
        ensures
            final(self)@ == move_outcome(
                old(self)@,
                inst.size_spec(),
                inst.lhs_spec(),
                inst.trg_spec(),
            ).0,
            r == move_outcome(old(self)@, inst.size_spec(), inst.lhs_spec(), inst.trg_spec()).1,
            final(self)@.wf(),
    {
        let size = *inst.get_size();
        let lhs = inst.get_lhs();
        let trg = inst.get_trg();
        if let Err(e) = self.check_read(lhs, size) {
            return Err(e);
        }
        if let Err(e) = self.check_write(trg, size) {
            return Err(e);
        }
        self.clear_c_flag();
        self.clear_v_flag();
        proof {
            assert(self@ =~~= with_ccr(old(self)@, move_cleared(old(self)@.ccr())));
            lemma_with_ccr_wf(old(self)@, move_cleared(old(self)@.ccr()));
        }
        let tmp = self.read_operand(lhs, size);
        let neg = is_negative_bytes(&tmp);
        let zero = is_zero_bytes(&tmp);
        if neg {
            self.set_n_flag();
        } else {
            self.clear_n_flag();
        }
        if zero {
            self.set_z_flag();
        } else {
            self.clear_z_flag();
        }
        proof {
            assert(self@ =~~= with_ccr(old(self)@, nz_ccr(move_cleared(old(self)@.ccr()), tmp@)));
            lemma_with_ccr_wf(old(self)@, nz_ccr(move_cleared(old(self)@.ccr()), tmp@));
        }
        self.write_operand(trg, size, &tmp);
        proof {
            assert(self@ =~~= move_result(old(self)@, size, *lhs, *trg));
        }
        Ok(())
    }

    /// TST: read the source at the declared size, then clear V and C and set
    /// N and Z from the read bytes. Nothing is written back.
    pub fn perform_tst(&mut self, inst: &Instruction) -> (r: Result<(), ExecError>)
        requires
            old(self)@.wf(),
        ensures
            final(self)@ == tst_outcome(old(self)@, inst.size_spec(), inst.lhs_spec()).0,
            r == tst_outcome(old(self)@, inst.size_spec(), inst.lhs_spec()).1,
            final(self)@.wf(),
    {
        let size = *inst.get_size();
        let lhs = inst.get_lhs();
        if let Err(e) = self.check_read(lhs, size) {
            return Err(e);
        }
        let elt = self.read_operand(lhs, size);
        let neg = is_negative_bytes(&elt);
        let zero = is_zero_bytes(&elt);
        self.clear_v_flag();
        self.clear_c_flag();
        if neg {
            self.set_n_flag();
        } else {
            self.clear_n_flag();
        }
        if zero {
            self.set_z_flag();
        } else {
            self.clear_z_flag();
        }
        proof {
            assert(self@ =~~= tst_result(old(self)@, size, *lhs));
        }
        Ok(())
    }

    /// ADD: read both operands raw at the declared size, compute the
    /// width-bounded sum with carry propagation and the signed-overflow flag
    /// from the raw operands, write back and set N and Z by delegating to
    /// MOVE with the sum as an immediate, then re-assert C and X together
    /// and the already-computed V, which MOVE unconditionally cleared.
    pub fn perform_add(&mut self, inst: &Instruction) -> (r: Result<(), ExecError>)
        requires
            old(self)@.wf(),
        ensures
            final(self)@ == add_outcome(
                old(self)@,
                inst.size_spec(),
                inst.lhs_spec(),
                inst.trg_spec(),
            ).0,
            r == add_outcome(old(self)@, inst.size_spec(), inst.lhs_spec(), inst.trg_spec()).1,
            final(self)@.wf(),
    {
        let size = *inst.get_size();
        let lhs = inst.get_lhs();
        let trg = inst.get_trg();
        if let Err(e) = self.check_read(lhs, size) {
            return Err(e);
        }
        if let Err(e) = self.check_read(trg, size) {
            return Err(e);
        }
        if let Err(e) = self.check_write(trg, size) {
            return Err(e);
        }
        let lhs_bytes = self.read_operand(lhs, size);
        let trg_bytes = self.read_operand(trg, size);
        let (carry, result) = add_bytes(&lhs_bytes, &trg_bytes);
        let w = width_of(size);
        let ghost sum = sum_bytes(lhs_bytes@, trg_bytes@);
        proof {
            lemma_be_bytes_len((crate::bytes::be_val(lhs_bytes@) + crate::bytes::be_val(
                trg_bytes@,
            )) as nat, w as nat);
            assert(result@.skip(4 - w as int) =~= sum);
        }
        let neg_l = is_negative_bytes(&lhs_bytes);
        let neg_t = is_negative_bytes(&trg_bytes);
        let neg_r = result[4 - w] > 0x7f;
        let v_flag = (neg_l && neg_t && !neg_r) || (!neg_l && !neg_t && neg_r);
        let trg2 = match trg {
            DataContainer::DATA_REGISTER(x) => DataContainer::DATA_REGISTER(*x),
            DataContainer::ADDRESS_REGISTER(x) => DataContainer::ADDRESS_REGISTER(*x),
            DataContainer::MEMORY_ADDR(x) => DataContainer::MEMORY_ADDR(*x),
            DataContainer::SR => DataContainer::SR,
            DataContainer::CCR => DataContainer::CCR,
            _ => unreached(),
        };
        proof {
            assert(trg2 == *trg);
        }
        let inst2 = Instruction::new(
            Mnemonic::MOVE,
            size,
            DataContainer::IMEDIATE_VALUE(result),
            trg2,
        );
        let _mv = self.perform_move(&inst2);
        proof {
            assert(self@ == move_step(old(self)@, size, sum, *trg));
            lemma_with_ccr_wf(old(self)@, nz_ccr(move_cleared(old(self)@.ccr()), sum));
            lemma_write_back_wf(
                with_ccr(old(self)@, nz_ccr(move_cleared(old(self)@.ccr()), sum)),
                *trg,
                size,
                sum,
            );
        }
        if carry {
            self.set_c_flag();
            self.set_x_flag();
        } else {
            self.clear_c_flag();
            self.clear_x_flag();
        }
        if v_flag {
            self.set_v_flag();
        } else {
            self.clear_v_flag();
        }
        proof {
            assert(self@ =~~= add_result(old(self)@, size, *lhs, *trg));
        }
        Ok(())
    }

    /// Dispatches an instruction by opcode: MOVE, TST and ADD have handlers;
    /// any other opcode is reported unsupported and changes nothing.
    pub fn execute(&mut self, inst: &Instruction) -> (r: Result<(), ExecError>)
        requires
            old(self)@.wf(),
        ensures
            final(self)@ == step_spec(
                old(self)@,
                inst.op_spec(),
                inst.size_spec(),
                inst.lhs_spec(),
                inst.trg_spec(),
            ).0,
            r == step_spec(
                old(self)@,
                inst.op_spec(),
                inst.size_spec(),
                inst.lhs_spec(),
                inst.trg_spec(),
            ).1,
            final(self)@.wf(),
    {
        match inst.get_op() {
            Mnemonic::MOVE => self.perform_move(inst),
            Mnemonic::TST => self.perform_tst(inst),
            Mnemonic::ADD => self.perform_add(inst),
            _ => Err(ExecError::UnsupportedOpcode),
        }
    }
}

} // verus!

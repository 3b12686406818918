//! Processor state and the fetch-decode-execute cycle: the opcode field
//! extractors, the per-instruction semantics, and the single-step entry
//! point that drives them.

use vstd::prelude::*;

use crate::display::{
    blank_grid, row_any_set, row_drawn, sprite_any_set, sprite_bit, sprite_drawn, Display,
};

verus! {

/// The error of a step whose fetched opcode matches no instruction form.
/// Execution cannot safely continue past it: the instruction's effect is
/// unknown, so the caller is expected to stop the machine.
#[derive(Clone, Copy, Debug, PartialEq, Eq, Structural)]
pub enum StepError {
    UnknownOpcode(u16),
}

/// The high nibble of an opcode: the dispatch class.
pub open spec fn op_h(op: u16) -> u8 {
    ((op >> 12) & 0xF) as u8
}

/// The second nibble of an opcode: the register index `x`.
pub open spec fn op_x(op: u16) -> u8 {
    ((op >> 8) & 0xF) as u8
}

/// The third nibble of an opcode: the register index `y`.
pub open spec fn op_y(op: u16) -> u8 {
    ((op >> 4) & 0xF) as u8
}

/// The low nibble of an opcode: the sprite height `n`.
pub open spec fn op_n(op: u16) -> u8 {
    (op & 0xF) as u8
}

/// The low byte of an opcode: the immediate `nn`.
pub open spec fn op_nn(op: u16) -> u8 {
    (op & 0xFF) as u8
}

/// The low twelve bits of an opcode: the address `nnn`.
pub open spec fn op_nnn(op: u16) -> u16 {
    op & 0xFFF
}

/// The big-endian opcode stored at address `pc`.
pub open spec fn op_at(m: Seq<u8>, pc: int) -> u16 {
    (m[pc] * 256 + m[pc + 1]) as u16
}

/// How the four nibbles and the derived fields sit inside an opcode.
pub proof fn lemma_op_fields(op: u16)
    by (bit_vector)
    ensures
        op_h(op) < 16,
        op_x(op) < 16,
        op_y(op) < 16,
        op_n(op) < 16,
        op_nnn(op) < 4096,
        op == op_h(op) * 4096 + op_x(op) * 256 + op_y(op) * 16 + op_n(op),
        op_nn(op) == op_y(op) * 16 + op_n(op),
        op_nnn(op) == op_x(op) * 256 + op_y(op) * 16 + op_n(op),
{
}

/// Two nibbles recombined into the immediate byte they came from.
proof fn lemma_nib_pair(a: u8, b: u8)
    by (bit_vector)
    requires
        a < 16,
        b < 16,
    ensures
        ((a << 4) | b) == a * 16 + b,
{
}

/// Three nibbles recombined into the address they came from.
proof fn lemma_nib_triple(a: u8, b: u8, c: u8)
    by (bit_vector)
    requires
        a < 16,
        b < 16,
        c < 16,
    ensures
        (((a as u16) << 8) | ((b as u16) << 4) | (c as u16)) == a * 256 + b * 16 + c,
{
}

/// The memory after the first `x` registers were dumped into it at
/// address `i0`.
pub open spec fn store_regs(m: Seq<u8>, regs: Seq<u8>, i0: int, x: int) -> Seq<u8>
    decreases x,
{
    if x <= 0 {
        m
    } else {
        store_regs(m, regs, i0, x - 1).update(i0 + (x - 1), regs[x - 1])
    }
}

/// The register file after its first `x` registers were reloaded from
/// memory at address `i0`.
pub open spec fn load_regs(regs: Seq<u8>, m: Seq<u8>, i0: int, x: int) -> Seq<u8>
    decreases x,
{
    if x <= 0 {
        regs
    } else {
        load_regs(regs, m, i0, x - 1).update(x - 1, m[i0 + (x - 1)])
    }
}

/// Relies on rand::random: draws one byte from the thread-local generator.
/// Nothing is promised of the result.
#[verifier::external_body]
fn random_byte() -> u8 {
    rand::random::<u8>()
}

/// The call stack, stack pointer and index register are unchanged.
pub open spec fn frame_keep(c0: Cpu, c1: Cpu) -> bool {
    c1.ret_stack() == c0.ret_stack() && c1.sp() == c0.sp() && c1.index_reg() == c0.index_reg()
}

/// Whether an opcode matches one of the recognized instruction forms.
pub open spec fn recognized(op: u16) -> bool {
    op == 0x0000 || op == 0x00E0 || op == 0x00EE || (1 <= op_h(op) && op_h(op) <= 4) || (op_h(op)
        == 5 && op_n(op) == 0) || op_h(op) == 6 || op_h(op) == 7 || (op_h(op) == 8 && (op_n(op)
        == 0 || op_n(op) == 2 || op_n(op) == 3 || op_n(op) == 4 || op_n(op) == 5 || op_n(op)
        == 0xE)) || (op_h(op) == 9 && op_n(op) == 0) || (0xA <= op_h(op) && op_h(op) <= 0xD) || (
    op_h(op) == 0xF && (op_nn(op) == 0x15 || op_nn(op) == 0x1E || op_nn(op) == 0x29 || op_nn(op)
        == 0x55 || op_nn(op) == 0x65))
}

/// The bounds that a well-formed program keeps and that one step of the
/// interpreter demands before it runs `op`: the stack neither overflows
/// nor underflows, and every memory access of the instruction stays
/// inside the 4096 bytes. Breaking them is a programming defect of the
/// loaded program, not a recoverable condition.
pub open spec fn instr_ok(op: u16, c: Cpu, m: Seq<u8>) -> bool {
    &&& (op == 0x00EE ==> c.sp() >= 1)
    &&& (op_h(op) == 2 ==> c.sp() < 16)
    &&& (op_h(op) == 0xD ==> c.index_reg() + op_n(op) <= 4096)
    &&& (op_h(op) == 0xF && (op_nn(op) == 0x55 || op_nn(op) == 0x65) ==> c.index_reg() + op_x(op)
        <= 4096)
}

/// How one executed instruction takes the processor from `c0` to `c1`,
/// the framebuffer from `d0` to `d1` and the memory from `m0` to `m1`.
/// `pc_next` is the address of the following instruction: the program
/// counter was already advanced past the opcode when the instruction
/// runs, and every control-flow outcome is stated against that address.
/// `c0`'s own program counter is never consulted.
pub open spec fn instr_effect(
    op: u16,
    c0: Cpu,
    c1: Cpu,
    d0: Display,
    d1: Display,
    m0: Seq<u8>,
    m1: Seq<u8>,
    pc_next: u16,
) -> bool {
    let x = op_x(op) as int;
    let y = op_y(op) as int;
    let nn = op_nn(op);
    let nnn = op_nnn(op);
    if op == 0x0000 {
        // machine-code call: a deliberate no-op
        frame_keep(c0, c1) && c1.regs() == c0.regs() && c1.pc() == pc_next && d1 == d0 && m1 == m0
    } else if op == 0x00E0 {
        frame_keep(c0, c1) && c1.regs() == c0.regs() && c1.pc() == pc_next && m1 == m0
            && d1.grid() == blank_grid() && d1.dirty_flag()
    } else if op == 0x00EE {
        c1.regs() == c0.regs() && c1.ret_stack() == c0.ret_stack() && c1.index_reg()
            == c0.index_reg() && c1.sp() == c0.sp() - 1 && c1.pc() == c0.ret_stack()[c0.sp() - 1]
            && d1 == d0 && m1 == m0
    } else if op_h(op) == 1 {
        frame_keep(c0, c1) && c1.regs() == c0.regs() && c1.pc() == nnn && d1 == d0 && m1 == m0
    } else if op_h(op) == 2 {
        c1.regs() == c0.regs() && c1.index_reg() == c0.index_reg() && c1.ret_stack()
            == c0.ret_stack().update(c0.sp() as int, pc_next) && c1.sp() == c0.sp() + 1 && c1.pc()
            == nnn && d1 == d0 && m1 == m0
    } else if op_h(op) == 3 {
        frame_keep(c0, c1) && c1.regs() == c0.regs() && d1 == d0 && m1 == m0 && c1.pc() == (if c0.regs()[x] == nn {
            (pc_next + 2) as u16
        } else {
            pc_next
        })
    } else if op_h(op) == 4 {
        frame_keep(c0, c1) && c1.regs() == c0.regs() && d1 == d0 && m1 == m0 && c1.pc() == (if c0.regs()[x] != nn {
            (pc_next + 2) as u16
        } else {
            pc_next
        })
    } else if op_h(op) == 5 {
        frame_keep(c0, c1) && c1.regs() == c0.regs() && d1 == d0 && m1 == m0 && c1.pc() == (if c0.regs()[x] == c0.regs()[y] {
            (pc_next + 2) as u16
        } else {
            pc_next
        })
    } else if op_h(op) == 6 {
        frame_keep(c0, c1) && c1.regs() == c0.regs().update(x, nn) && c1.pc() == pc_next && d1
            == d0 && m1 == m0
    } else if op_h(op) == 7 {
        frame_keep(c0, c1) && c1.regs() == c0.regs().update(
            x,
            ((c0.regs()[x] + nn) % 256) as u8,
        ) && c1.pc() == pc_next && d1 == d0 && m1 == m0
    } else if op_h(op) == 8 && op_n(op) == 0 {
        frame_keep(c0, c1) && c1.regs() == c0.regs().update(x, c0.regs()[y]) && c1.pc() == pc_next
            && d1 == d0 && m1 == m0
    } else if op_h(op) == 8 && op_n(op) == 2 {
        frame_keep(c0, c1) && c1.regs() == c0.regs().update(x, c0.regs()[x] & c0.regs()[y])
            && c1.pc() == pc_next && d1 == d0 && m1 == m0
    } else if op_h(op) == 8 && op_n(op) == 3 {
        frame_keep(c0, c1) && c1.regs() == c0.regs().update(x, c0.regs()[x] ^ c0.regs()[y])
            && c1.pc() == pc_next && d1 == d0 && m1 == m0
    } else if op_h(op) == 8 && op_n(op) == 4 {
        frame_keep(c0, c1) && c1.regs() == c0.regs().update(
            x,
            ((c0.regs()[x] + c0.regs()[y]) % 256) as u8,
        ) && c1.pc() == pc_next && d1 == d0 && m1 == m0
    } else if op_h(op) == 8 && op_n(op) == 5 {
        frame_keep(c0, c1) && c1.regs() == c0.regs().update(
            x,
            ({
                let rx = c0.regs()[x];
                let ry = c0.regs()[y];
                if rx >= ry {
                    (rx - ry) as u8
                } else {
                    (rx + 256 - ry) as u8
                }
            }),
        ) && c1.pc() == pc_next && d1 == d0 && m1 == m0
    } else if op_h(op) == 8 && op_n(op) == 0xE {
        frame_keep(c0, c1) && c1.regs() == ({
            let r1 = c0.regs().update(15, c0.regs()[y] >> 7);
            r1.update(x, r1[x] << 1)
        }) && c1.pc() == pc_next && d1 == d0 && m1 == m0
    } else if op_h(op) == 9 {
        frame_keep(c0, c1) && c1.regs() == c0.regs() && d1 == d0 && m1 == m0 && c1.pc() == (if c0.regs()[x] != c0.regs()[y] {
            (pc_next + 2) as u16
        } else {
            pc_next
        })
    } else if op_h(op) == 0xA {
        c1.regs() == c0.regs() && c1.ret_stack() == c0.ret_stack() && c1.sp() == c0.sp()
            && c1.index_reg() == nnn && c1.pc() == pc_next && d1 == d0 && m1 == m0
    } else if op_h(op) == 0xB {
        frame_keep(c0, c1) && c1.regs() == c0.regs() && c1.pc() == nnn + c0.regs()[0] && d1 == d0
            && m1 == m0
    } else if op_h(op) == 0xC {
        frame_keep(c0, c1) && c1.regs() == c0.regs().update(x, c1.regs()[x]) && (c1.regs()[x] & nn)
            == c1.regs()[x] && c1.pc() == pc_next && d1 == d0 && m1 == m0
    } else if op_h(op) == 0xD {
        frame_keep(c0, c1) && c1.regs() == c0.regs().update(
            15,
            if sprite_any_set(m0, c0.index_reg() as int, op_n(op) as int) {
                1u8
            } else {
                0u8
            },
        ) && c1.pc() == pc_next && m1 == m0 && d1.grid() == sprite_drawn(
            d0.grid(),
            m0,
            c0.index_reg() as int,
            c0.regs()[x] as int,
            c0.regs()[y] as int,
            op_n(op) as int,
        ) && d1.dirty_flag() == (d0.dirty_flag() || op_n(op) > 0)
    } else if op_h(op) == 0xF && nn == 0x15 {
        c1.regs() == c0.regs() && c1.ret_stack() == c0.ret_stack() && c1.sp() == c0.sp()
            && c1.index_reg() == ((c0.index_reg() + op_x(op)) % 0x10000) as u16 && c1.pc()
            == pc_next && d1 == d0 && m1 == m0
    } else if op_h(op) == 0xF && nn == 0x1E {
        c1.regs() == c0.regs() && c1.ret_stack() == c0.ret_stack() && c1.sp() == c0.sp()
            && c1.index_reg() == ((c0.index_reg() + c0.regs()[x]) % 0x10000) as u16 && c1.pc()
            == pc_next && d1 == d0 && m1 == m0
    } else if op_h(op) == 0xF && nn == 0x29 {
        c1.regs() == c0.regs() && c1.ret_stack() == c0.ret_stack() && c1.sp() == c0.sp()
            && c1.index_reg() == ((c0.index_reg() + c0.regs()[x] * 5) % 0x10000) as u16 && c1.pc()
            == pc_next && d1 == d0 && m1 == m0
    } else if op_h(op) == 0xF && nn == 0x55 {
        frame_keep(c0, c1) && c1.regs() == c0.regs() && c1.pc() == pc_next && d1 == d0 && m1
            == store_regs(m0, c0.regs(), c0.index_reg() as int, x)
    } else if op_h(op) == 0xF && nn == 0x65 {
        frame_keep(c0, c1) && c1.regs() == load_regs(c0.regs(), m0, c0.index_reg() as int, x)
            && c1.pc() == pc_next && d1 == d0 && m1 == m0
    } else {
        false
    }
}

/// The CHIP-8 processor state.
pub struct Cpu {
    v: Vec<u8>,
    stack: Vec<u16>,
    sp: u8,
    i: u16,
    pc: u16,
}

impl Cpu {
    /// The sixteen general-purpose registers `V0`..`VF`.
    pub closed spec fn regs(self) -> Seq<u8> {
        self.v@
    }

    /// The sixteen return-address slots of the call stack.
    pub closed spec fn ret_stack(self) -> Seq<u16> {
        self.stack@
    }

    /// The stack pointer: the number of return addresses on the stack.
    pub closed spec fn sp(self) -> u8 {
        self.sp
    }

    /// The index register `I`.
    pub closed spec fn index_reg(self) -> u16 {
        self.i
    }

    /// The program counter.
    pub closed spec fn pc(self) -> u16 {
        self.pc
    }

    pub open spec fn wf(self) -> bool {
        self.regs().len() == 16 && self.ret_stack().len() == 16 && self.sp() <= 16
    }

    /// A fresh processor: all registers and stack slots zero, the program
    /// counter at the standard load offset `0x200`.
    pub fn new() -> (c: Cpu)
        ensures
            c.wf(),
            c.regs() == Seq::new(16, |k: int| 0u8),
            c.ret_stack() == Seq::new(16, |k: int| 0u16),
            c.sp() == 0,
            c.index_reg() == 0,
            c.pc() == 0x200,
    {
        let mut v: Vec<u8> = Vec::new();
        let mut stack: Vec<u16> = Vec::new();
        let mut k: usize = 0;
        while k < 16
            invariant
                k <= 16,
                v@.len() == k,
                stack@.len() == k,
                forall|i: int| 0 <= i < k ==> v@[i] == 0u8,
                forall|i: int| 0 <= i < k ==> stack@[i] == 0u16,
            decreases 16 - k,
        {
            v.push(0);
            stack.push(0);
            k = k + 1;
        }
        proof {
            assert(v@ =~= Seq::new(16, |k: int| 0u8));
            assert(stack@ =~= Seq::new(16, |k: int| 0u16));
        }
        Cpu { v, stack, sp: 0, i: 0, pc: 0x200 }
    }

    /// Reads one general-purpose register.
    pub fn get_v(&self, x: u8) -> (r: u8)
        requires
            self.wf(),
            x < 16,
        ensures
            r == self.regs()[x as int],
    {
        self.v[x as usize]
    }

    /// Reads the program counter.
    pub fn get_pc(&self) -> (r: u16)
        ensures
            r == self.pc(),
    {
        self.pc
    }

    /// Reads the index register `I`.
    pub fn get_i(&self) -> (r: u16)
        ensures
            r == self.index_reg(),
    {
        self.i
    }

    /// Reads the stack pointer.
    pub fn get_sp(&self) -> (r: u8)
        ensures
            r == self.sp(),
    {
        self.sp
    }

    /// Reads two consecutive memory bytes at the program counter and splits
    /// the big-endian opcode into its four nibbles.
    pub fn fetch_opcode(&self, memory: &Vec<u8>) -> (r: (u8, u8, u8, u8, u16))
        requires
            memory@.len() == 4096,
            self.pc() + 1 < 4096,
        ensures
            r.4 == op_at(memory@, self.pc() as int),
            r.0 == op_h(r.4),
            r.1 == op_x(r.4),
            r.2 == op_y(r.4),
            r.3 == op_n(r.4),
    {
        let pc = self.pc as usize;
        let hi = memory[pc];
        let lo = memory[pc + 1];
        let opcode: u16 = ((hi as u16) << 8) | (lo as u16);
        let b1: u8 = ((opcode & 0xF000) >> 12) as u8;
        let b2: u8 = ((opcode & 0x0F00) >> 8) as u8;
        let b3: u8 = ((opcode & 0x00F0) >> 4) as u8;
        let b4: u8 = (opcode & 0x000F) as u8;
        proof {
            assert((((hi as u16) << 8) | (lo as u16)) == hi * 256 + lo) by (bit_vector);
            let op = (((hi as u16) << 8) | (lo as u16)) as u16;
            assert((((op & 0xF000) >> 12) as u8) == op_h(op)) by (bit_vector);
            assert((((op & 0x0F00) >> 8) as u8) == op_x(op)) by (bit_vector);
            assert((((op & 0x00F0) >> 4) as u8) == op_y(op)) by (bit_vector);
            assert(((op & 0x000F) as u8) == op_n(op)) by (bit_vector);
        }
        (b1, b2, b3, b4, opcode)
    }

    /// `6xnn`: load the immediate into `V[x]`.
    pub fn ld_v(&mut self, opcode: (u8, u8, u8, u8, u16))
        requires
            old(self).wf(),
            opcode.1 < 16,
            opcode.2 < 16,
            opcode.3 < 16,
        ensures
            final(self).wf(),
            final(self).regs() == old(self).regs().update(
                opcode.1 as int,
                (opcode.2 * 16 + opcode.3) as u8,
            ),
            frame_keep(*old(self), *final(self)),
            final(self).pc() == old(self).pc(),
    {
        let register = opcode.1 as usize;
        let value = (opcode.2 << 4) | opcode.3;
        proof {
            lemma_nib_pair(opcode.2, opcode.3);
        }
        self.v[register] = value;
    }

    /// `Annn`: load the address into the index register `I`.
    pub fn ld_i(&mut self, opcode: (u8, u8, u8, u8, u16))
        requires
            old(self).wf(),
            opcode.1 < 16,
            opcode.2 < 16,
            opcode.3 < 16,
        ensures
            final(self).wf(),
            final(self).index_reg() == opcode.1 * 256 + opcode.2 * 16 + opcode.3,
            final(self).regs() == old(self).regs(),
            final(self).ret_stack() == old(self).ret_stack(),
            final(self).sp() == old(self).sp(),
            final(self).pc() == old(self).pc(),
    {
        let value = ((opcode.1 as u16) << 8) | ((opcode.2 as u16) << 4) | (opcode.3 as u16);
        proof {
            lemma_nib_triple(opcode.1, opcode.2, opcode.3);
        }
        self.i = value;
    }

    /// `3xnn`: skip the next instruction when `V[x]` equals the immediate.
    pub fn op_3xnn_cond(&mut self, opcode: (u8, u8, u8, u8, u16))
        requires
            old(self).wf(),
            opcode.1 < 16,
            opcode.2 < 16,
            opcode.3 < 16,
            old(self).pc() + 2 <= 0xFFFF,
        ensures
            final(self).wf(),
            final(self).regs() == old(self).regs(),
            frame_keep(*old(self), *final(self)),
            final(self).pc() == if old(self).regs()[opcode.1 as int] == (opcode.2 * 16
                + opcode.3) as u8 {
                (old(self).pc() + 2) as u16
            } else {
                old(self).pc()
            },
    {
        let x = opcode.1 as usize;
        let nn = (opcode.2 << 4) | opcode.3;
        proof {
            lemma_nib_pair(opcode.2, opcode.3);
        }
        if self.v[x] == nn {
            self.pc = self.pc + 2;
        }
    }

    /// `4xnn`: skip the next instruction when `V[x]` differs from the
    /// immediate.
    pub fn op_4xnn_cond(&mut self, opcode: (u8, u8, u8, u8, u16))
        requires
            old(self).wf(),
            opcode.1 < 16,
            opcode.2 < 16,
            opcode.3 < 16,
            old(self).pc() + 2 <= 0xFFFF,
        ensures
            final(self).wf(),
            final(self).regs() == old(self).regs(),
            frame_keep(*old(self), *final(self)),
            final(self).pc() == if old(self).regs()[opcode.1 as int] != (opcode.2 * 16
                + opcode.3) as u8 {
                (old(self).pc() + 2) as u16
            } else {
                old(self).pc()
            },
    {
        let x = opcode.1 as usize;
        let nn = (opcode.2 << 4) | opcode.3;
        proof {
            lemma_nib_pair(opcode.2, opcode.3);
        }
        if self.v[x] != nn {
            self.pc = self.pc + 2;
        }
    }

    /// `5xy0`: skip the next instruction when `V[x]` equals `V[y]`.
    pub fn op_5xy0_cond(&mut self, opcode: (u8, u8, u8, u8, u16))
        requires
            old(self).wf(),
            opcode.1 < 16,
            opcode.2 < 16,
            old(self).pc() + 2 <= 0xFFFF,
        ensures
            final(self).wf(),
            final(self).regs() == old(self).regs(),
            frame_keep(*old(self), *final(self)),
            final(self).pc() == if old(self).regs()[opcode.1 as int] == old(self).regs()[opcode.2 as int] {
                (old(self).pc() + 2) as u16
            } else {
                old(self).pc()
            },
    {
        let x = opcode.1 as usize;
        let y = opcode.2 as usize;
        if self.v[x] == self.v[y] {
            self.pc = self.pc + 2;
        }
    }

    /// `9xy0`: skip the next instruction when `V[x]` differs from `V[y]`.
    pub fn op_9xy0_cond(&mut self, opcode: (u8, u8, u8, u8, u16))
        requires
            old(self).wf(),
            opcode.1 < 16,
            opcode.2 < 16,
            old(self).pc() + 2 <= 0xFFFF,
        ensures
            final(self).wf(),
            final(self).regs() == old(self).regs(),
            frame_keep(*old(self), *final(self)),
            final(self).pc() == if old(self).regs()[opcode.1 as int] != old(self).regs()[opcode.2 as int] {
                (old(self).pc() + 2) as u16
            } else {
                old(self).pc()
            },
    {
        let x = opcode.1 as usize;
        let y = opcode.2 as usize;
        if self.v[x] != self.v[y] {
            self.pc = self.pc + 2;
        }
    }

    /// `7xnn`: add the immediate into `V[x]`, wrapping on overflow; no
    /// carry is captured into `VF`.
    pub fn add_x(&mut self, opcode: (u8, u8, u8, u8, u16))
        requires
            old(self).wf(),
            opcode.1 < 16,
            opcode.2 < 16,
            opcode.3 < 16,
        ensures
            final(self).wf(),
            final(self).regs() == old(self).regs().update(
                opcode.1 as int,
                ((old(self).regs()[opcode.1 as int] + opcode.2 * 16 + opcode.3) % 256) as u8,
            ),
            frame_keep(*old(self), *final(self)),
            final(self).pc() == old(self).pc(),
    {
        let x = opcode.1 as usize;
        let kk = (opcode.2 << 4) | opcode.3;
        proof {
            lemma_nib_pair(opcode.2, opcode.3);
        }
        let sum: u16 = self.v[x] as u16 + kk as u16;
        self.v[x] = (sum % 256) as u8;
    }

    /// `1nnn`: jump to the address.
    pub fn op_1nnn_flow(&mut self, opcode: (u8, u8, u8, u8, u16))
        requires
            old(self).wf(),
            opcode.1 < 16,
            opcode.2 < 16,
            opcode.3 < 16,
        ensures
            final(self).wf(),
            final(self).regs() == old(self).regs(),
            frame_keep(*old(self), *final(self)),
            final(self).pc() == opcode.1 * 256 + opcode.2 * 16 + opcode.3,
    {
        let nnn = ((opcode.1 as u16) << 8) | ((opcode.2 as u16) << 4) | (opcode.3 as u16);
        proof {
            lemma_nib_triple(opcode.1, opcode.2, opcode.3);
        }
        self.pc = nnn;
    }

    /// `Bnnn`: jump to the address offset by `V[0]`.
    pub fn bnnn_flow(&mut self, opcode: (u8, u8, u8, u8, u16))
        requires
            old(self).wf(),
            opcode.1 < 16,
            opcode.2 < 16,
            opcode.3 < 16,
        ensures
            final(self).wf(),
            final(self).regs() == old(self).regs(),
            frame_keep(*old(self), *final(self)),
            final(self).pc() == opcode.1 * 256 + opcode.2 * 16 + opcode.3 + old(self).regs()[0],
    {
        let nnn = ((opcode.1 as u16) << 8) | ((opcode.2 as u16) << 4) | (opcode.3 as u16);
        proof {
            lemma_nib_triple(opcode.1, opcode.2, opcode.3);
        }
        self.pc = nnn + self.v[0] as u16;
    }

    /// `2nnn`: call — push the address of the next instruction, then jump.
    pub fn op_2nnn_flow(&mut self, opcode: (u8, u8, u8, u8, u16))
        requires
            old(self).wf(),
            opcode.1 < 16,
            opcode.2 < 16,
            opcode.3 < 16,
            old(self).sp() < 16,
        ensures
            final(self).wf(),
            final(self).regs() == old(self).regs(),
            final(self).index_reg() == old(self).index_reg(),
            final(self).ret_stack() == old(self).ret_stack().update(
                old(self).sp() as int,
                old(self).pc(),
            ),
            final(self).sp() == old(self).sp() + 1,
            final(self).pc() == opcode.1 * 256 + opcode.2 * 16 + opcode.3,
    {
        let nnn = ((opcode.1 as u16) << 8) | ((opcode.2 as u16) << 4) | (opcode.3 as u16);
        proof {
            lemma_nib_triple(opcode.1, opcode.2, opcode.3);
        }
        self.stack[self.sp as usize] = self.pc;
        self.sp = self.sp + 1;
        self.pc = nnn;
    }

    /// `00EE`: return — pop the return address into the program counter.
    pub fn op_00ee_flow(&mut self)
        requires
            old(self).wf(),
            old(self).sp() >= 1,
        ensures
            final(self).wf(),
            final(self).regs() == old(self).regs(),
            final(self).index_reg() == old(self).index_reg(),
            final(self).ret_stack() == old(self).ret_stack(),
            final(self).sp() == old(self).sp() - 1,
            final(self).pc() == old(self).ret_stack()[old(self).sp() - 1],
    {
        self.sp = self.sp - 1;
        self.pc = self.stack[self.sp as usize];
    }

    /// `8xy0`: copy `V[y]` into `V[x]`.
    pub fn op_8xy4_assig(&mut self, opcode: (u8, u8, u8, u8, u16))
        requires
            old(self).wf(),
            opcode.1 < 16,
            opcode.2 < 16,
        ensures
            final(self).wf(),
            final(self).regs() == old(self).regs().update(
                opcode.1 as int,
                old(self).regs()[opcode.2 as int],
            ),
            frame_keep(*old(self), *final(self)),
            final(self).pc() == old(self).pc(),
    {
        let x = opcode.1 as usize;
        let y = opcode.2 as usize;
        let value = self.v[y];
        self.v[x] = value;
    }

    /// `8xy2`: bitwise AND of `V[y]` into `V[x]`.
    pub fn op_8xy2_bitop(&mut self, opcode: (u8, u8, u8, u8, u16))
        requires
            old(self).wf(),
            opcode.1 < 16,
            opcode.2 < 16,
        ensures
            final(self).wf(),
            final(self).regs() == old(self).regs().update(
                opcode.1 as int,
                old(self).regs()[opcode.1 as int] & old(self).regs()[opcode.2 as int],
            ),
            frame_keep(*old(self), *final(self)),
            final(self).pc() == old(self).pc(),
    {
        let x = opcode.1 as usize;
        let y = opcode.2 as usize;
        let value = self.v[x] & self.v[y];
        self.v[x] = value;
    }

    /// `8xy3`: bitwise XOR of `V[y]` into `V[x]`.
    pub fn op_8xy3_bitop(&mut self, opcode: (u8, u8, u8, u8, u16))
        requires
            old(self).wf(),
            opcode.1 < 16,
            opcode.2 < 16,
        ensures
            final(self).wf(),
            final(self).regs() == old(self).regs().update(
                opcode.1 as int,
                old(self).regs()[opcode.1 as int] ^ old(self).regs()[opcode.2 as int],
            ),
            frame_keep(*old(self), *final(self)),
            final(self).pc() == old(self).pc(),
    {
        let x = opcode.1 as usize;
        let y = opcode.2 as usize;
        let value = self.v[x] ^ self.v[y];
        self.v[x] = value;
    }

    /// `8xy4`: add `V[y]` into `V[x]`, wrapping on overflow; the carry is
    /// not captured into `VF`.
    pub fn op_8xy4_math(&mut self, opcode: (u8, u8, u8, u8, u16))
        requires
            old(self).wf(),
            opcode.1 < 16,
            opcode.2 < 16,
        ensures
            final(self).wf(),
            final(self).regs() == old(self).regs().update(
                opcode.1 as int,
                ((old(self).regs()[opcode.1 as int] + old(self).regs()[opcode.2 as int])
                    % 256) as u8,
            ),
            frame_keep(*old(self), *final(self)),
            final(self).pc() == old(self).pc(),
    {
        let x = opcode.1 as usize;
        let y = opcode.2 as usize;
        let sum: u16 = self.v[x] as u16 + self.v[y] as u16;
        self.v[x] = (sum % 256) as u8;
    }

    /// `8xy5`: subtract `V[y]` from `V[x]`, wrapping under zero; the borrow
    /// is not captured into `VF`.
    pub fn op_8xy5_math(&mut self, opcode: (u8, u8, u8, u8, u16))
        requires
            old(self).wf(),
            opcode.1 < 16,
            opcode.2 < 16,
        ensures
            final(self).wf(),
            final(self).regs() == old(self).regs().update(
                opcode.1 as int,
                ({
                    let rx = old(self).regs()[opcode.1 as int];
                    let ry = old(self).regs()[opcode.2 as int];
                    if rx >= ry {
                        (rx - ry) as u8
                    } else {
                        (rx + 256 - ry) as u8
                    }
                }),
            ),
            frame_keep(*old(self), *final(self)),
            final(self).pc() == old(self).pc(),
    {
        let x = opcode.1 as usize;
        let y = opcode.2 as usize;
        let rx = self.v[x];
        let ry = self.v[y];
        let value: u8 = if rx >= ry {
            rx - ry
        } else {
            ((rx as u16 + 256 - ry as u16)) as u8
        };
        self.v[x] = value;
    }

    /// `8xyE`: capture the most significant bit of `V[y]` into `VF`, then
    /// shift `V[x]` left by one, dropping its high bit.
    pub fn op_8xye_bitop(&mut self, opcode: (u8, u8, u8, u8, u16))
        requires
            old(self).wf(),
            opcode.1 < 16,
            opcode.2 < 16,
        ensures
            final(self).wf(),
            final(self).regs() == ({
                let r1 = old(self).regs().update(15, old(self).regs()[opcode.2 as int] >> 7);
                r1.update(opcode.1 as int, r1[opcode.1 as int] << 1)
            }),
            frame_keep(*old(self), *final(self)),
            final(self).pc() == old(self).pc(),
    {
        let x = opcode.1 as usize;
        let y = opcode.2 as usize;
        let most_significant_bit = self.v[y] >> 7;
        self.v[15] = most_significant_bit;
        let current = self.v[x];
        self.v[x] = current << 1;
    }

    /// `Fx15`: add the nibble `x` itself into the index register, modulo
    /// `2^16`. The standard instruction would set the delay timer from
    /// `V[x]`; this core deliberately reproduces the observed behaviour
    /// instead.
    pub fn op_fx15_timer(&mut self, opcode: (u8, u8, u8, u8, u16))
        requires
            old(self).wf(),
            opcode.1 < 16,
        ensures
            final(self).wf(),
            final(self).regs() == old(self).regs(),
            final(self).ret_stack() == old(self).ret_stack(),
            final(self).sp() == old(self).sp(),
            final(self).index_reg() == ((old(self).index_reg() + opcode.1) % 0x10000) as u16,
            final(self).pc() == old(self).pc(),
    {
        let sum: u32 = self.i as u32 + opcode.1 as u32;
        self.i = (sum % 0x10000) as u16;
    }

    /// `Fx1E`: add `V[x]` into the index register, modulo `2^16`.
    pub fn op_fx1e_mem(&mut self, opcode: (u8, u8, u8, u8, u16))
        requires
            old(self).wf(),
            opcode.1 < 16,
        ensures
            final(self).wf(),
            final(self).regs() == old(self).regs(),
            final(self).ret_stack() == old(self).ret_stack(),
            final(self).sp() == old(self).sp(),
            final(self).index_reg() == ((old(self).index_reg()
                + old(self).regs()[opcode.1 as int]) % 0x10000) as u16,
            final(self).pc() == old(self).pc(),
    {
        let x = opcode.1 as usize;
        let sum: u32 = self.i as u32 + self.v[x] as u32;
        self.i = (sum % 0x10000) as u16;
    }

    /// `Fx29`: advance the index register by five bytes per glyph — the
    /// font characters are assumed to be 5-byte glyphs at low memory — by
    /// adding `V[x] * 5` into it, modulo `2^16`.
    pub fn op_fx29_mem(&mut self, opcode: (u8, u8, u8, u8, u16))
        requires
            old(self).wf(),
            opcode.1 < 16,
        ensures
            final(self).wf(),
            final(self).regs() == old(self).regs(),
            final(self).ret_stack() == old(self).ret_stack(),
            final(self).sp() == old(self).sp(),
            final(self).index_reg() == ((old(self).index_reg()
                + old(self).regs()[opcode.1 as int] * 5) % 0x10000) as u16,
            final(self).pc() == old(self).pc(),
    {
        let x = opcode.1 as usize;
        let glyph: u16 = self.v[x] as u16 * 5;
        let sum: u32 = self.i as u32 + glyph as u32;
        self.i = (sum % 0x10000) as u16;
    }

    /// `Fx55`: dump the registers below `V[x]` — the bound is exclusive of
    /// `x` itself — into memory starting at the index register.
    pub fn op_fx55_mem(&self, opcode: (u8, u8, u8, u8, u16), memory: &mut Vec<u8>)
        requires
            self.wf(),
            opcode.1 < 16,
            old(memory)@.len() == 4096,
            self.index_reg() + opcode.1 <= 4096,
        ensures
            final(memory)@.len() == 4096,
            final(memory)@ == store_regs(
                old(memory)@,
                self.regs(),
                self.index_reg() as int,
                opcode.1 as int,
            ),
    {
        let x = opcode.1 as usize;
        let i0 = self.i as usize;
        let mut k: usize = 0;
        while k < x
            invariant
                k <= x,
                x < 16,
                self.wf(),
                i0 == self.index_reg() as int,
                i0 + x <= 4096,
                memory@.len() == 4096,
                memory@ == store_regs(old(memory)@, self.regs(), i0 as int, k as int),
            decreases x - k,
        {
            memory[i0 + k] = self.v[k];
            k = k + 1;
        }
    }

    /// `Fx65`: reload the registers below `V[x]` — the bound is exclusive
    /// of `x` itself — from memory starting at the index register.
    pub fn op_fx65_mem(&mut self, opcode: (u8, u8, u8, u8, u16), memory: &Vec<u8>)
        requires
            old(self).wf(),
            opcode.1 < 16,
            memory@.len() == 4096,
            old(self).index_reg() + opcode.1 <= 4096,
        ensures
            final(self).wf(),
            final(self).regs() == load_regs(
                old(self).regs(),
                memory@,
                old(self).index_reg() as int,
                opcode.1 as int,
            ),
            frame_keep(*old(self), *final(self)),
            final(self).pc() == old(self).pc(),
    {
        let x = opcode.1 as usize;
        let i0 = self.i as usize;
        let mut k: usize = 0;
        while k < x
            invariant
                k <= x,
                x < 16,
                self.wf(),
                i0 == self.index_reg() as int,
                i0 + x <= 4096,
                memory@.len() == 4096,
                self.regs() == load_regs(old(self).regs(), memory@, i0 as int, k as int),
                frame_keep(*old(self), *self),
                self.pc() == old(self).pc(),
            decreases x - k,
        {
            self.v[k] = memory[i0 + k];
            k = k + 1;
        }
    }

    /// `Cxnn`: load a random byte masked by the immediate into `V[x]`.
    /// Nothing is promised of the drawn byte, so the contract pins only
    /// the mask: every bit of the result is a bit of the immediate.
    pub fn rnd_v(&mut self, opcode: (u8, u8, u8, u8, u16))
        requires
            old(self).wf(),
            opcode.1 < 16,
            opcode.2 < 16,
            opcode.3 < 16,
        ensures
            final(self).wf(),
            final(self).regs() == old(self).regs().update(
                opcode.1 as int,
                final(self).regs()[opcode.1 as int],
            ),
            final(self).regs()[opcode.1 as int] & ((opcode.2 * 16 + opcode.3) as u8)
                == final(self).regs()[opcode.1 as int],
            frame_keep(*old(self), *final(self)),
            final(self).pc() == old(self).pc(),
    {
        let register = opcode.1 as usize;
        let rand = random_byte();
        let kk = (opcode.2 << 4) | opcode.3;
        let value = rand & ((opcode.2 << 4) | opcode.3) & kk;
        proof {
            lemma_nib_pair(opcode.2, opcode.3);
            assert(((rand & kk) & kk) & kk == (rand & kk) & kk) by (bit_vector);
        }
        self.v[register] = value;
    }

    /// `Dxyn`: draw the `n`-row sprite at memory address `I` with its
    /// top-left corner at `(V[x], V[y])`, compositing each bit by XOR with
    /// wraparound on both axes; `VF` reports whether any pixel flipped,
    /// which under XOR composition is exactly whether any sprite bit was
    /// set. `I` is unchanged, and the framebuffer is marked dirty as soon
    /// as one bit was composited.
    pub fn drw(&mut self, opcode: (u8, u8, u8, u8, u16), display: &mut Display, memory: &Vec<u8>)
        requires
            old(self).wf(),
            old(display).wf(),
            memory@.len() == 4096,
            opcode.1 < 16,
            opcode.2 < 16,
            opcode.3 < 16,
            old(self).index_reg() + opcode.3 <= 4096,
        ensures
            final(self).wf(),
            final(display).wf(),
            final(self).regs() == old(self).regs().update(
                15,
                if sprite_any_set(memory@, old(self).index_reg() as int, opcode.3 as int) {
                    1u8
                } else {
                    0u8
                },
            ),
            frame_keep(*old(self), *final(self)),
            final(self).pc() == old(self).pc(),
            final(display).grid() == sprite_drawn(
                old(display).grid(),
                memory@,
                old(self).index_reg() as int,
                old(self).regs()[opcode.1 as int] as int,
                old(self).regs()[opcode.2 as int] as int,
                opcode.3 as int,
            ),
            final(display).dirty_flag() == (old(display).dirty_flag() || opcode.3 > 0),
    {
        let x0 = self.v[opcode.1 as usize];
        let y0 = self.v[opcode.2 as usize];
        let n = opcode.3;
        let ghost g0 = display.grid();
        let ghost d0 = display.dirty_flag();
        let ghost i0 = self.index_reg() as int;
        self.v[15] = 0;
        let mut r: u8 = 0;
        while r < n
            invariant
                r <= n,
                n < 16,
                old(self).wf(),
                self.wf(),
                display.wf(),
                memory@.len() == 4096,
                i0 == self.index_reg() as int,
                i0 + n <= 4096,
                x0 == old(self).regs()[opcode.1 as int],
                y0 == old(self).regs()[opcode.2 as int],
                self.regs() == old(self).regs().update(
                    15,
                    if sprite_any_set(memory@, i0, r as int) {
                        1u8
                    } else {
                        0u8
                    },
                ),
                frame_keep(*old(self), *self),
                self.pc() == old(self).pc(),
                display.grid() == sprite_drawn(g0, memory@, i0, x0 as int, y0 as int, r as int),
                display.dirty_flag() == (d0 || r > 0),
            decreases n - r,
        {
            let byte = memory[(self.i + r as u16) as usize];
            let ghost g_row = display.grid();
            let ghost flagged = sprite_any_set(memory@, i0, r as int);
            let mut j: u8 = 0;
            while j < 8
                invariant
                    j <= 8,
                    r < n,
                    n < 16,
                    old(self).wf(),
                    self.wf(),
                    display.wf(),
                    byte == memory@[i0 + r],
                    self.regs() == old(self).regs().update(
                        15,
                        if flagged || row_any_set(byte, j as int) {
                            1u8
                        } else {
                            0u8
                        },
                    ),
                    frame_keep(*old(self), *self),
                    self.pc() == old(self).pc(),
                    i0 == self.index_reg() as int,
                    display.grid() == row_drawn(g_row, byte, x0 as int, y0 as int + r, j as int),
                    display.dirty_flag() == ((d0 || r > 0) || j > 0),
                decreases 8 - j,
            {
                let xx = ((x0 as u16 + j as u16) % 64) as u8;
                let yy = ((y0 as u16 + r as u16) % 32) as u8;
                let pixel = ((byte >> (7 - j)) & 1) == 1;
                proof {
                    vstd::arithmetic::div_mod::lemma_small_mod(xx as nat, 64);
                    vstd::arithmetic::div_mod::lemma_small_mod(yy as nat, 32);
                    assert(pixel == sprite_bit(byte, j as int));
                }
                let ghost before = self.regs();
                if display.set_pixel_xor(xx, yy, pixel) {
                    self.v[15] = 1;
                    proof {
                        assert(before.update(15, 1u8) =~= old(self).regs().update(15, 1u8));
                    }
                }
                j = j + 1;
            }
            r = r + 1;
        }
    }

    /// `0nnn`: call of native machine code at the address — a deliberate
    /// no-op in this core.
    pub fn op_0nnn_call(&self, opcode: (u8, u8, u8, u8, u16)) {
        let _ = opcode;
    }

    /// `00E0`: clear the framebuffer and mark it dirty.
    pub fn op_00e0_display(&self, display: &mut Display)
        requires
            old(display).wf(),
        ensures
            final(display).wf(),
            final(display).grid() == blank_grid(),
            final(display).dirty_flag(),
    {
        display.clear();
    }

    /// Dispatches one decoded opcode to its instruction; an unmatched
    /// nibble pattern leaves the whole machine state as it was and reports
    /// the raw opcode.
    fn execute(
        &mut self,
        opcode: (u8, u8, u8, u8, u16),
        display: &mut Display,
        memory: &mut Vec<u8>,
    ) -> (r: Result<(), StepError>)
        requires
            old(self).wf(),
            old(display).wf(),
            old(memory)@.len() == 4096,
            opcode.0 == op_h(opcode.4),
            opcode.1 == op_x(opcode.4),
            opcode.2 == op_y(opcode.4),
            opcode.3 == op_n(opcode.4),
            instr_ok(opcode.4, *old(self), old(memory)@),
            old(self).pc() + 2 <= 0xFFFF,
        ensures
            final(self).wf(),
            final(display).wf(),
            final(memory)@.len() == 4096,
            recognized(opcode.4) ==> r == Ok::<(), StepError>(()) && instr_effect(
                opcode.4,
                *old(self),
                *final(self),
                *old(display),
                *final(display),
                old(memory)@,
                final(memory)@,
                old(self).pc(),
            ),
            !recognized(opcode.4) ==> r == Err::<(), StepError>(StepError::UnknownOpcode(opcode.4))
                && *final(self) == *old(self) && *final(display) == *old(display)
                && final(memory)@ == old(memory)@,
    {
        proof {
            lemma_op_fields(opcode.4);
        }
        match (opcode.0, opcode.1, opcode.2, opcode.3) {
            (0x00, 0x00, 0x00, 0x00) => {
                self.op_0nnn_call(opcode);
                Ok(())
            },
            (0x00, 0x00, 0x0E, 0x00) => {
                self.op_00e0_display(display);
                Ok(())
            },
            (0x00, 0x00, 0x0E, 0x0E) => {
                self.op_00ee_flow();
                Ok(())
            },
            (0x01, _, _, _) => {
                self.op_1nnn_flow(opcode);
                Ok(())
            },
            (0x02, _, _, _) => {
                self.op_2nnn_flow(opcode);
                Ok(())
            },
            (0x03, _, _, _) => {
                self.op_3xnn_cond(opcode);
                Ok(())
            },
            (0x04, _, _, _) => {
                self.op_4xnn_cond(opcode);
                Ok(())
            },
            (0x05, _, _, 0x00) => {
                self.op_5xy0_cond(opcode);
                Ok(())
            },
            (0x06, _, _, _) => {
                self.ld_v(opcode);
                Ok(())
            },
            (0x07, _, _, _) => {
                self.add_x(opcode);
                Ok(())
            },
            (0x08, _, _, 0x00) => {
                self.op_8xy4_assig(opcode);
                Ok(())
            },
            (0x08, _, _, 0x02) => {
                self.op_8xy2_bitop(opcode);
                Ok(())
            },
            (0x08, _, _, 0x03) => {
                self.op_8xy3_bitop(opcode);
                Ok(())
            },
            (0x08, _, _, 0x04) => {
                self.op_8xy4_math(opcode);
                Ok(())
            },
            (0x08, _, _, 0x05) => {
                self.op_8xy5_math(opcode);
                Ok(())
            },
            (0x08, _, _, 0x0E) => {
                self.op_8xye_bitop(opcode);
                Ok(())
            },
            (0x09, _, _, 0x00) => {
                self.op_9xy0_cond(opcode);
                Ok(())
            },
            (0x0A, _, _, _) => {
                self.ld_i(opcode);
                Ok(())
            },
            (0x0B, _, _, _) => {
                self.bnnn_flow(opcode);
                Ok(())
            },
            (0x0C, _, _, _) => {
                self.rnd_v(opcode);
                Ok(())
            },
            (0x0D, _, _, _) => {
                self.drw(opcode, display, memory);
                Ok(())
            },
            (0x0F, _, 0x01, 0x05) => {
                self.op_fx15_timer(opcode);
                Ok(())
            },
            (0x0F, _, 0x01, 0x0E) => {
                self.op_fx1e_mem(opcode);
                Ok(())
            },
            (0x0F, _, 0x02, 0x09) => {
                self.op_fx29_mem(opcode);
                Ok(())
            },
            (0x0F, _, 0x05, 0x05) => {
                self.op_fx55_mem(opcode, memory);
                Ok(())
            },
            (0x0F, _, 0x06, 0x05) => {
                self.op_fx65_mem(opcode, memory);
                Ok(())
            },
            _ => Err(StepError::UnknownOpcode(opcode.4)),
        }
    }

    /// One fetch-decode-execute step: reads the opcode at the program
    /// counter, advances the counter past it, then applies the
    /// instruction. On an unrecognized opcode the counter stays advanced
    /// and everything else is untouched.
    pub fn cycle(&mut self, display: &mut Display, memory: &mut Vec<u8>) -> (r: Result<
        (),
        StepError,
    >)
        requires
            old(self).wf(),
            old(display).wf(),
            old(memory)@.len() == 4096,
            old(self).pc() + 1 < 4096,
            instr_ok(op_at(old(memory)@, old(self).pc() as int), *old(self), old(memory)@),
        ensures
            final(self).wf(),
            final(display).wf(),
            final(memory)@.len() == 4096,
            ({
                let op = op_at(old(memory)@, old(self).pc() as int);
                &&& recognized(op) ==> r == Ok::<(), StepError>(()) && instr_effect(
                    op,
                    *old(self),
                    *final(self),
                    *old(display),
                    *final(display),
                    old(memory)@,
                    final(memory)@,
                    (old(self).pc() + 2) as u16,
                )
                &&& !recognized(op) ==> r == Err::<(), StepError>(StepError::UnknownOpcode(op))
                    && final(self).regs() == old(self).regs() && frame_keep(
                    *old(self),
                    *final(self),
                ) && final(self).pc() == old(self).pc() + 2 && *final(display) == *old(display)
                    && final(memory)@ == old(memory)@
            }),
    {
        let opcode = self.fetch_opcode(memory);
        self.pc = self.pc + 2;
        self.execute(opcode, display, memory)
    }
}

/// Law: a `2nnn` call pushes the address of the instruction right after
/// it, and a later `00EE` return, reached with the stack back at the same
/// depth and that slot intact, brings the program counter back to exactly
/// that address.
pub proof fn lemma_call_return_round_trip(
    call_op: u16,
    c0: Cpu,
    c1: Cpu,
    c2: Cpu,
    c3: Cpu,
    d0: Display,
    d1: Display,
    d2: Display,
    d3: Display,
    m0: Seq<u8>,
    m1: Seq<u8>,
    m2: Seq<u8>,
    m3: Seq<u8>,
    pc_after_call: u16,
    pc_after_ret: u16,
)
    requires
        c0.wf(),
        c0.sp() < 16,
        op_h(call_op) == 2,
        instr_effect(call_op, c0, c1, d0, d1, m0, m1, pc_after_call),
        c2.wf(),
        c2.sp() == c1.sp(),
        c2.ret_stack()[c1.sp() - 1] == c1.ret_stack()[c1.sp() - 1],
        instr_effect(0x00EE, c2, c3, d2, d3, m2, m3, pc_after_ret),
    ensures
        c3.pc() == pc_after_call,
{
    lemma_op_fields(call_op);
    assert(c1.ret_stack()[c0.sp() as int] == pc_after_call);
}

} // verus!

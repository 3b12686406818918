//! The machine: memory, processor and framebuffer under one owner, with
//! program loading at the standard offset and a single-step entry point.

use vstd::prelude::*;

use crate::cpu::{instr_effect, instr_ok, op_at, recognized, Cpu, StepError};
use crate::display::{blank_grid, pix_index, Display};

verus! {

/// The machine: a 4096-byte memory, the processor state and the
/// framebuffer, created once per loaded program and stepped by the host.
pub struct Chip8 {
    cpu: Cpu,
    display: Display,
    memory: Vec<u8>,
}

impl Chip8 {
    /// The processor state.
    pub closed spec fn cpu(self) -> Cpu {
        self.cpu
    }

    /// The framebuffer.
    pub closed spec fn disp(self) -> Display {
        self.display
    }

    /// The 4096 memory bytes.
    pub closed spec fn mem(self) -> Seq<u8> {
        self.memory@
    }

    pub open spec fn wf(self) -> bool {
        self.cpu().wf() && self.disp().wf() && self.mem().len() == 4096
    }

    /// The memory image after a program was loaded: the program bytes
    /// verbatim from offset `0x200` on, zero everywhere else.
    pub open spec fn loaded_mem(rom: Seq<u8>) -> Seq<u8> {
        Seq::new(
            4096,
            |k: int|
                if 0x200 <= k < 0x200 + rom.len() {
                    rom[k - 0x200]
                } else {
                    0u8
                },
        )
    }

    /// Copies the program image into memory at the standard load offset
    /// `0x200` and puts the processor and the framebuffer into their
    /// initial states; the program counter starts at that same offset, so
    /// the first fetched opcode is the first two program bytes.
    pub fn new(rom: Vec<u8>) -> (m: Chip8)
        requires
            rom@.len() <= 3584,
        ensures
            m.wf(),
            m.mem() == Self::loaded_mem(rom@),
            m.cpu().pc() == 0x200,
            m.cpu().sp() == 0,
            m.cpu().index_reg() == 0,
            m.cpu().regs() == Seq::new(16, |k: int| 0u8),
            m.cpu().ret_stack() == Seq::new(16, |k: int| 0u16),
            m.disp().grid() == blank_grid(),
            !m.disp().dirty_flag(),
    {
        let mut memory: Vec<u8> = Vec::new();
        let mut k: usize = 0;
        while k < 4096
            invariant
                k <= 4096,
                memory@.len() == k,
                forall|i: int| 0 <= i < k ==> memory@[i] == 0u8,
            decreases 4096 - k,
        {
            memory.push(0);
            k = k + 1;
        }
        let mut j: usize = 0;
        while j < rom.len()
            invariant
                j <= rom@.len() <= 3584,
                memory@.len() == 4096,
                forall|i: int| 0 <= i < 0x200 ==> memory@[i] == 0u8,
                forall|i: int| 0x200 <= i < 0x200 + j ==> memory@[i] == rom@[i - 0x200],
                forall|i: int| 0x200 + j <= i < 4096 ==> memory@[i] == 0u8,
            decreases rom@.len() - j,
        {
            memory[0x200 + j] = rom[j];
            j = j + 1;
        }
        proof {
            assert(memory@ =~= Self::loaded_mem(rom@));
        }
        Chip8 { cpu: Cpu::new(), display: Display::new(), memory }
    }

    /// The bounds that one step demands of the current state: the fetch
    /// in range and the decoded instruction's stack and memory accesses
    /// inside their limits.
    pub open spec fn cycle_ok(self) -> bool {
        self.wf() && self.cpu().pc() + 1 < 4096 && instr_ok(
            op_at(self.mem(), self.cpu().pc() as int),
            self.cpu(),
            self.mem(),
        )
    }

    /// Decides `cycle_ok` so the host can refuse a defective program
    /// before stepping instead of breaking a bound.
    pub fn can_cycle(&self) -> (b: bool)
        requires
            self.wf(),
        ensures
            b == self.cycle_ok(),
    {
        let pc = self.cpu.get_pc();
        if pc >= 4095 {
            return false;
        }
        let opcode = self.cpu.fetch_opcode(&self.memory);
        proof {
            crate::cpu::lemma_op_fields(opcode.4);
        }
        let sp = self.cpu.get_sp();
        let i = self.cpu.get_i() as usize;
        if opcode.4 == 0x00EE && sp < 1 {
            return false;
        }
        if opcode.0 == 0x02 && sp >= 16 {
            return false;
        }
        if opcode.0 == 0x0D && i + (opcode.3 as usize) > 4096 {
            return false;
        }
        if opcode.0 == 0x0F && (opcode.2 == 0x05 || opcode.2 == 0x06) && opcode.3 == 0x05 && i
            + (opcode.1 as usize) > 4096 {
            return false;
        }
        true
    }

    /// One fetch-decode-execute step over the owned state.
    pub fn cycle(&mut self) -> (r: Result<(), StepError>)
        requires
            old(self).cycle_ok(),
        ensures
            final(self).wf(),
            ({
                let op = op_at(old(self).mem(), old(self).cpu().pc() as int);
                &&& recognized(op) ==> r == Ok::<(), StepError>(()) && instr_effect(
                    op,
                    old(self).cpu(),
                    final(self).cpu(),
                    old(self).disp(),
                    final(self).disp(),
                    old(self).mem(),
                    final(self).mem(),
                    (old(self).cpu().pc() + 2) as u16,
                )
                &&& !recognized(op) ==> r == Err::<(), StepError>(StepError::UnknownOpcode(op))
                    && final(self).cpu().regs() == old(self).cpu().regs() && final(self).cpu().pc()
                    == old(self).cpu().pc() + 2 && final(self).disp() == old(self).disp()
                    && final(self).mem() == old(self).mem()
            }),
    {
        self.cpu.cycle(&mut self.display, &mut self.memory)
    }

    /// Reports the framebuffer's dirty flag without clearing it.
    pub fn should_render(&self) -> (r: bool)
        ensures
            r == self.disp().dirty_flag(),
    {
        self.display.is_dirty()
    }

    /// Pass-through: clears the dirty flag once the host consumed a frame.
    pub fn reset_dirty_flag(&mut self)
        ensures
            final(self).disp().grid() == old(self).disp().grid(),
            !final(self).disp().dirty_flag(),
            final(self).cpu() == old(self).cpu(),
            final(self).mem() == old(self).mem(),
    {
        self.display.reset_dirty_flag();
    }

    /// Reads one framebuffer pixel for presentation.
    pub fn pixel(&self, x: u8, y: u8) -> (r: bool)
        requires
            self.wf(),
        ensures
            r == self.disp().grid()[pix_index(x as int, y as int)],
    {
        self.display.pixel(x, y)
    }

    /// Reads one general-purpose register.
    pub fn get_v(&self, x: u8) -> (r: u8)
        requires
            self.wf(),
            x < 16,
        ensures
            r == self.cpu().regs()[x as int],
    {
        self.cpu.get_v(x)
    }

    /// Reads the program counter.
    pub fn get_pc(&self) -> (r: u16)
        ensures
            r == self.cpu().pc(),
    {
        self.cpu.get_pc()
    }

    /// Reads the index register `I`.
    pub fn get_i(&self) -> (r: u16)
        ensures
            r == self.cpu().index_reg(),
    {
        self.cpu.get_i()
    }

    /// Reads one memory byte.
    pub fn get_mem(&self, addr: u16) -> (r: u8)
        requires
            self.wf(),
            addr < 4096,
        ensures
            r == self.mem()[addr as int],
    {
        self.memory[addr as usize]
    }
}

/// Law: right after loading, the program counter sits at `0x200` and the
/// opcode fetched there is exactly the first two bytes of the program
/// image, combined big-endian.
pub proof fn lemma_first_fetch(rom: Seq<u8>)
    requires
        2 <= rom.len() <= 3584,
    ensures
        op_at(Chip8::loaded_mem(rom), 0x200) == (rom[0] * 256 + rom[1]) as u16,
{
}

} // verus!

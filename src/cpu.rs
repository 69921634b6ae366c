use vstd::prelude::*;
use crate::error::VmError;
use crate::keypad::{key_held, KeyPad, KEY_COUNT};
use crate::opcodes::{decode, decode_spec, lemma_decode_well_formed, Op};
use crate::screen::{draw_sprite, sprite_collides, Screen};
use crate::semantics::{
    digit_sprites,
    executes,
    fetch_spec,
    first_pressed,
    initial_state,
    lemma_pc_plus_plus,
    pc_plus,
    wrapping_diff,
    borrow_flag,
    CpuState,
};

verus! {

/// Number of addressable memory cells.
pub const MEM_SIZE: usize = 4096;

/// Address at which programs are loaded and execution starts.
pub const PROGRAM_START: usize = 0x200;

/// The sprites of the hexadecimal digits 0 to F, five bytes each.
pub const DIGIT_SPRITES: [u8; 80] = [
    0xF0, 0x90, 0x90, 0x90, 0xF0,
    0x20, 0x60, 0x20, 0x20, 0x70,
    0xF0, 0x10, 0xF0, 0x80, 0xF0,
    0xF0, 0x10, 0xF0, 0x10, 0xF0,
    0x90, 0x90, 0xF0, 0x10, 0x10,
    0xF0, 0x80, 0xF0, 0x10, 0xF0,
    0xF0, 0x80, 0xF0, 0x90, 0xF0,
    0xF0, 0x10, 0x20, 0x40, 0x40,
    0xF0, 0x90, 0xF0, 0x90, 0xF0,
    0xF0, 0x90, 0xF0, 0x10, 0xF0,
    0xF0, 0x90, 0xF0, 0x90, 0x90,
    0xE0, 0x90, 0xE0, 0x90, 0xE0,
    0xF0, 0x80, 0x80, 0x80, 0xF0,
    0xE0, 0x90, 0x90, 0x90, 0xE0,
    0xF0, 0x80, 0xF0, 0x80, 0xF0,
    0xF0, 0x80, 0xF0, 0x80, 0x80,
];

/// Relies on rand::random::<u8>: a byte from the thread-local generator.
/// Nothing is promised of its value.
#[verifier::external_body]
fn random_byte() -> u8 {
    rand::random::<u8>()
}

/// The machine: registers, memory, call stack, timers and display. The
/// fields are open for hosts to inspect and set up; the operations ask for
/// `wf`, which they also keep.
pub struct Cpu {
    /// General registers V0 to VF; VF doubles as the flag register.
    pub v: [u8; 16],
    /// The index register.
    pub i: u16,
    pub sound_timer: u8,
    pub delay_timer: u8,
    /// Return addresses; slot `sp` holds the most recent one.
    pub stack: [u16; 16],
    pub pc: u16,
    /// Number of pending returns, at most 15.
    pub sp: usize,
    pub memory: [u8; 4096],
    pub screen: Screen,
}

impl View for Cpu {
    type V = CpuState;

    open spec fn view(&self) -> CpuState {
        CpuState {
            v: self.v@,
            i: self.i,
            sound_timer: self.sound_timer,
            delay_timer: self.delay_timer,
            stack: self.stack@,
            pc: self.pc,
            sp: self.sp as int,
            memory: self.memory@,
            screen: self.screen@,
        }
    }
}

impl Cpu {
    /// The stack pointer names one of the sixteen slots.
    pub open spec fn wf(&self) -> bool {
        self.sp <= 15
    }

    /// A well-formed machine has a well-formed view.
    pub proof fn lemma_wf(&self)
        requires
            self.wf(),
        ensures
            self@.wf(),
    {
        self.screen.lemma_len();
    }

    /// A fresh machine: digit sprites at the start of memory, everything
    /// else zero, and the program counter and index register at 0x200.
    pub fn new() -> (cpu: Cpu)
        ensures
            cpu.wf(),
            cpu@ == initial_state(),
    {
        let mut memory = [0u8; 4096];
        assert(DIGIT_SPRITES@ =~= digit_sprites());
        let mut k: usize = 0;
        while k < 80
            invariant
                0 <= k <= 80,
                DIGIT_SPRITES@ == digit_sprites(),
                forall|j: int| 0 <= j < k ==> memory@[j] == digit_sprites()[j],
                forall|j: int| k <= j < 4096 ==> memory@[j] == 0,
            decreases 80 - k,
        {
            memory[k] = DIGIT_SPRITES[k];
            k += 1;
        }
        let cpu = Cpu {
            v: [0; 16],
            i: 0x200,
            sound_timer: 0,
            delay_timer: 0,
            stack: [0; 16],
            pc: 0x200,
            sp: 0,
            memory,
            screen: Screen::new(),
        };
        assert(cpu@.v =~= initial_state().v);
        assert(cpu@.stack =~= initial_state().stack);
        assert(cpu@.memory =~= initial_state().memory);
        cpu
    }

    fn reg(&self, register: u8) -> (r: u8)
        requires
            register < 16,
        ensures
            r == self.v@[register as int],
    {
        self.v[register as usize]
    }

    fn update_pc(&mut self, previous_op: Op)
        ensures
            final(self)@ == (match previous_op {
                Op::Ret | Op::Jp(..) | Op::Call(..) | Op::JpRegI(..) => old(self)@,
                _ => old(self)@.advance(2),
            }),
    {
        match previous_op {
            Op::Ret | Op::Jp(..) | Op::Call(..) | Op::JpRegI(..) => {},
            _ => self.pc = self.pc.wrapping_add(2),
        }
    }

    fn return_from_subroutine(&mut self) -> (r: Result<(), VmError>)
        requires
            old(self).wf(),
        ensures
            old(self).sp == 0 ==> r == Err::<(), VmError>(VmError::StackUnderflow) && final(self)@
                == old(self)@,
            old(self).sp != 0 ==> r is Ok && final(self)@ == (CpuState {
                pc: old(self)@.stack[old(self)@.sp],
                sp: old(self)@.sp - 1,
                ..old(self)@
            }),
    {
        if self.sp == 0 {
            return Err(VmError::StackUnderflow);
        }
        self.pc = self.stack[self.sp];
        self.sp -= 1;
        Ok(())
    }

    fn call(&mut self, address: u16) -> (r: Result<(), VmError>)
        requires
            old(self).wf(),
        ensures
            address >= 4096 ==> r == Err::<(), VmError>(VmError::InvalidAddress) && final(self)@
                == old(self)@,
            address < 4096 && old(self).sp >= 15 ==> r == Err::<(), VmError>(
                VmError::StackOverflow,
            ) && final(self)@ == old(self)@,
            address < 4096 && old(self).sp < 15 ==> r is Ok && final(self)@ == (CpuState {
                sp: old(self)@.sp + 1,
                stack: old(self)@.stack.update(old(self)@.sp + 1, old(self)@.pc),
                pc: address,
                ..old(self)@
            }),
    {
        if address as usize >= MEM_SIZE {
            return Err(VmError::InvalidAddress);
        }
        if self.sp >= 15 {
            return Err(VmError::StackOverflow);
        }
        self.sp += 1;
        self.stack[self.sp] = self.pc;
        self.pc = address;
        Ok(())
    }

    /// Moves past the next instruction when `cond` holds.
    fn skip_when(&mut self, cond: bool)
        ensures
            final(self)@ == if cond {
                old(self)@.advance(2)
            } else {
                old(self)@
            },
    {
        if cond {
            self.pc = self.pc.wrapping_add(2);
        }
    }

    fn skip_equals(&mut self, reg: u8, v2: u8)
        requires
            reg < 16,
        ensures
            final(self)@ == if old(self)@.v[reg as int] == v2 {
                old(self)@.advance(2)
            } else {
                old(self)@
            },
    {
        let cond = self.reg(reg) == v2;
        self.skip_when(cond);
    }

    fn skip_not_equals(&mut self, reg: u8, v2: u8)
        requires
            reg < 16,
        ensures
            final(self)@ == if old(self)@.v[reg as int] != v2 {
                old(self)@.advance(2)
            } else {
                old(self)@
            },
    {
        let cond = self.reg(reg) != v2;
        self.skip_when(cond);
    }

    fn skip_reg_equals(&mut self, r1: u8, r2: u8)
        requires
            r1 < 16,
            r2 < 16,
        ensures
            final(self)@ == if old(self)@.v[r1 as int] == old(self)@.v[r2 as int] {
                old(self)@.advance(2)
            } else {
                old(self)@
            },
    {
        let cond = self.reg(r1) == self.reg(r2);
        self.skip_when(cond);
    }

    fn skip_reg_not_equals(&mut self, r1: u8, r2: u8)
        requires
            r1 < 16,
            r2 < 16,
        ensures
            final(self)@ == if old(self)@.v[r1 as int] != old(self)@.v[r2 as int] {
                old(self)@.advance(2)
            } else {
                old(self)@
            },
    {
        let cond = self.reg(r1) != self.reg(r2);
        self.skip_when(cond);
    }

    fn load(&mut self, register: u8, val: u8)
        requires
            register < 16,
        ensures
            final(self)@ == old(self)@.with_reg(register, val),
    {
        self.v[register as usize] = val;
    }

    fn add(&mut self, register: u8, val: u8)
        requires
            register < 16,
        ensures
            final(self)@ == old(self)@.with_reg(
                register,
                ((old(self)@.v[register as int] + val) % 256) as u8,
            ),
    {
        let sum = self.reg(register).wrapping_add(val);
        self.load(register, sum);
    }

    fn load_reg(&mut self, r1: u8, r2: u8)
        requires
            r1 < 16,
            r2 < 16,
        ensures
            final(self)@ == old(self)@.with_reg(r1, old(self)@.v[r2 as int]),
    {
        let val = self.reg(r2);
        self.load(r1, val);
    }

    fn or(&mut self, r1: u8, r2: u8)
        requires
            r1 < 16,
            r2 < 16,
        ensures
            final(self)@ == old(self)@.with_reg(r1, old(self)@.v[r1 as int] | old(self)@.v[r2 as int]),
    {
        let val = self.reg(r1) | self.reg(r2);
        self.load(r1, val);
    }

    fn and(&mut self, r1: u8, r2: u8)
        requires
            r1 < 16,
            r2 < 16,
        ensures
            final(self)@ == old(self)@.with_reg(r1, old(self)@.v[r1 as int] & old(self)@.v[r2 as int]),
    {
        let val = self.reg(r1) & self.reg(r2);
        self.load(r1, val);
    }

    fn xor(&mut self, r1: u8, r2: u8)
        requires
            r1 < 16,
            r2 < 16,
        ensures
            final(self)@ == old(self)@.with_reg(r1, old(self)@.v[r1 as int] ^ old(self)@.v[r2 as int]),
    {
        let val = self.reg(r1) ^ self.reg(r2);
        self.load(r1, val);
    }

    /// Writes a result register, then the flag register.
    fn load_with_flag(&mut self, register: u8, val: u8, flag: u8)
        requires
            register < 16,
        ensures
            final(self)@ == old(self)@.with_reg_flag(register, val, flag),
    {
        self.v[register as usize] = val;
        self.v[0xF] = flag;
    }

    fn add_reg(&mut self, r1: u8, r2: u8)
        requires
            r1 < 16,
            r2 < 16,
        ensures
            ({
                let sum = old(self)@.v[r1 as int] + old(self)@.v[r2 as int];
                final(self)@ == old(self)@.with_reg_flag(
                    r1,
                    (sum % 256) as u8,
                    if sum > 255 {
                        1
                    } else {
                        0
                    },
                )
            }),
    {
        let result = self.reg(r1) as u16 + self.reg(r2) as u16;
        let flag: u8 = if result > 255 {
            1
        } else {
            0
        };
        self.load_with_flag(r1, (result % 256) as u8, flag);
    }

    /// Stores `minuend - subtrahend`, wrapped to eight bits, in `dest`; the
    /// flag is 1 exactly when the minuend is strictly greater.
    fn sub(&mut self, dest: u8, minuend: u8, subtrahend: u8)
        requires
            dest < 16,
            minuend < 16,
            subtrahend < 16,
        ensures
            ({
                let (a, b) = (old(self)@.v[minuend as int], old(self)@.v[subtrahend as int]);
                final(self)@ == old(self)@.with_reg_flag(dest, wrapping_diff(a, b), borrow_flag(a, b))
            }),
    {
        let a = self.reg(minuend);
        let b = self.reg(subtrahend);
        let flag: u8 = if a > b {
            1
        } else {
            0
        };
        self.load_with_flag(dest, a.wrapping_sub(b), flag);
    }

    fn shr(&mut self, register: u8)
        requires
            register < 16,
        ensures
            ({
                let a = old(self)@.v[register as int];
                final(self)@ == old(self)@.with_reg_flag(register, a / 2, a % 2)
            }),
    {
        let a = self.reg(register);
        assert(a >> 1u8 == a / 2 && a & 1u8 == a % 2) by (bit_vector);
        self.load_with_flag(register, a >> 1, a & 1);
    }

    fn shl(&mut self, register: u8)
        requires
            register < 16,
        ensures
            ({
                let a = old(self)@.v[register as int];
                final(self)@ == old(self)@.with_reg_flag(register, ((a * 2) % 256) as u8, a / 128)
            }),
    {
        let a = self.reg(register);
        let flag: u8 = if (a & 0b10000000) != 0 {
            1
        } else {
            0
        };
        assert(((a & 0x80u8) != 0) == (a >= 128)) by (bit_vector);
        assert(a << 1u8 == ((a as u16 * 2) % 256) as u8) by (bit_vector);
        self.load_with_flag(register, a << 1, flag);
    }

    fn jp_reg_i(&mut self, addr: u16)
        ensures
            final(self)@ == (CpuState { pc: pc_plus(addr, old(self)@.v[0] as int), ..old(self)@ }),
    {
        self.pc = (self.reg(0) as u16).wrapping_add(addr);
    }

    /// Masks a drawn random byte into a register.
    fn rnd(&mut self, reg: u8, mask: u8, drawn: u8)
        requires
            reg < 16,
        ensures
            final(self)@ == old(self)@.with_reg(reg, drawn & mask),
    {
        self.load(reg, drawn & mask);
    }

    /// Executes one operation, given which keys are held down and the byte
    /// that a random draw gave.
    pub fn execute(&mut self, op: Op, key_pad: &KeyPad, drawn: u8) -> (r: Result<(), VmError>)
        requires
            old(self).wf(),
            op.well_formed(),
        ensures
            final(self).wf(),
            executes(old(self)@, op, key_pad@, drawn, r, final(self)@),
    {
        let r = match op {
            Op::Cls => {
                self.screen.clear();
                Ok(())
            },
            Op::Ret => self.return_from_subroutine(),
            Op::Jp(n) => {
                self.pc = n;
                Ok(())
            },
            Op::Call(n) => self.call(n),
            Op::Se(reg, val) => {
                self.skip_equals(reg, val);
                Ok(())
            },
            Op::Sne(reg, val) => {
                self.skip_not_equals(reg, val);
                Ok(())
            },
            Op::SeReg(r1, r2) => {
                self.skip_reg_equals(r1, r2);
                Ok(())
            },
            Op::SneReg(r1, r2) => {
                self.skip_reg_not_equals(r1, r2);
                Ok(())
            },
            Op::Ld(reg, val) => {
                self.load(reg, val);
                Ok(())
            },
            Op::Add(reg, val) => {
                self.add(reg, val);
                Ok(())
            },
            Op::LdReg(r1, r2) => {
                self.load_reg(r1, r2);
                Ok(())
            },
            Op::Or(r1, r2) => {
                self.or(r1, r2);
                Ok(())
            },
            Op::And(r1, r2) => {
                self.and(r1, r2);
                Ok(())
            },
            Op::Xor(r1, r2) => {
                self.xor(r1, r2);
                Ok(())
            },
            Op::AddReg(r1, r2) => {
                self.add_reg(r1, r2);
                Ok(())
            },
            Op::Sub(r1, r2) => {
                self.sub(r1, r1, r2);
                Ok(())
            },
            Op::Shr(reg) => {
                self.shr(reg);
                Ok(())
            },
            Op::Subn(r1, r2) => {
                self.sub(r1, r2, r1);
                Ok(())
            },
            Op::Shl(reg) => {
                self.shl(reg);
                Ok(())
            },
            Op::LdI(val) => {
                self.i = val;
                Ok(())
            },
            Op::JpRegI(addr) => {
                self.jp_reg_i(addr);
                Ok(())
            },
            Op::Rnd(reg, mask) => {
                self.rnd(reg, mask, drawn);
                Ok(())
            },
            Op::Drw(x, y, size) => self.draw(x, y, size),
            Op::Skp(reg) => {
                self.skip_if_pressed(reg, key_pad);
                Ok(())
            },
            Op::Sknp(reg) => {
                self.skip_if_not_pressed(reg, key_pad);
                Ok(())
            },
            Op::LdDT(reg) => {
                self.load(reg, self.delay_timer);
                Ok(())
            },
            Op::LdKb(reg) => {
                self.wait_key_press(reg, key_pad);
                Ok(())
            },
            Op::SetDT(reg) => {
                self.delay_timer = self.reg(reg);
                Ok(())
            },
            Op::SetST(reg) => {
                self.sound_timer = self.reg(reg);
                Ok(())
            },
            Op::AddToI(reg) => self.add_reg_to_i(reg),
            Op::LdChr(reg) => self.load_chr_sprite_addr(reg),
            Op::LdBCD(reg) => self.load_bcd(reg),
            Op::LdRegs(x) => self.load_registers(x),
            Op::RdMem(x) => self.read_registers(x),
        };
        if r.is_err() {
            return r;
        }
        self.update_pc(op);
        proof {
            lemma_pc_plus_plus(old(self).pc, 2, 2);
            lemma_pc_plus_plus(old(self).pc, -2, 2);
        }
        Ok(())
    }

    /// Executes one operation, drawing a random byte for the operations
    /// that need one. Whatever byte is drawn, the outcome is one that
    /// `execute` gives for some byte; for every other operation it is the
    /// outcome of `execute`.
    pub fn compute_op(&mut self, op: Op, key_pad: &KeyPad) -> (r: Result<(), VmError>)
        requires
            old(self).wf(),
            op.well_formed(),
        ensures
            final(self).wf(),
            exists|b: u8| executes(old(self)@, op, key_pad@, b, r, final(self)@),
            !(op is Rnd) ==> executes(old(self)@, op, key_pad@, 0, r, final(self)@),
    {
        let drawn = match op {
            Op::Rnd(..) => random_byte(),
            _ => 0,
        };
        let r = self.execute(op, key_pad, drawn);
        assert(executes(old(self)@, op, key_pad@, drawn, r, self@));
        r
    }

    /// Reads the instruction word at the program counter.
    pub fn fetch(&self) -> (r: Result<u16, VmError>)
        ensures
            r == fetch_spec(self@),
    {
        let pc = self.pc as usize;
        if pc + 1 >= MEM_SIZE {
            return Err(VmError::InvalidAddress);
        }
        Ok(self.memory[pc] as u16 * 256 + self.memory[pc + 1] as u16)
    }

    /// Fetches, decodes and executes one instruction.
    pub fn cycle(&mut self, key_pad: &KeyPad) -> (r: Result<(), VmError>)
        requires
            old(self).wf(),
        ensures
            final(self).wf(),
            match fetch_spec(old(self)@) {
                Err(e) => r == Err::<(), VmError>(e) && final(self)@ == old(self)@,
                Ok(w) => match decode_spec(w) {
                    None => r == Err::<(), VmError>(VmError::InvalidOpcode(w)) && final(self)@
                        == old(self)@,
                    Some(op) => exists|b: u8| executes(old(self)@, op, key_pad@, b, r, final(self)@),
                },
            },
    {
        let word = match self.fetch() {
            Ok(w) => w,
            Err(e) => return Err(e),
        };
        let op = match decode(word) {
            Ok(op) => op,
            Err(e) => return Err(e),
        };
        proof {
            lemma_decode_well_formed(word);
        }
        self.compute_op(op, key_pad)
    }

    /// Copies a program into memory from 0x200 on, leaving the rest of the
    /// machine as it was; a program longer than the space there is refused.
    pub fn load_program(&mut self, program: &[u8]) -> (r: Result<(), VmError>)
        ensures
            program@.len() > 4096 - 0x200 ==> r == Err::<(), VmError>(VmError::ProgramTooLarge)
                && final(self)@ == old(self)@,
            program@.len() <= 4096 - 0x200 ==> r is Ok && final(self)@ == (CpuState {
                memory: Seq::new(
                    4096,
                    |k: int|
                        if 0x200 <= k < 0x200 + program@.len() {
                            program@[k - 0x200]
                        } else {
                            old(self)@.memory[k]
                        },
                ),
                ..old(self)@
            }),
    {
        if program.len() > MEM_SIZE - PROGRAM_START {
            return Err(VmError::ProgramTooLarge);
        }
        let mut memory = self.memory;
        let mut k: usize = 0;
        while k < program.len()
            invariant
                program@.len() <= 4096 - 0x200,
                k <= program@.len(),
                forall|j: int|
                    0 <= j < 4096 ==> memory@[j] == if 0x200 <= j < 0x200 + k {
                        program@[j - 0x200]
                    } else {
                        self.memory@[j]
                    },
            decreases program@.len() - k,
        {
            memory[PROGRAM_START + k] = program[k];
            k += 1;
        }
        self.memory = memory;
        assert(self@.memory =~= Seq::new(
            4096,
            |j: int|
                if 0x200 <= j < 0x200 + program@.len() {
                    program@[j - 0x200]
                } else {
                    old(self)@.memory[j]
                },
        ));
        Ok(())
    }

    /// Moves both timers one tick towards zero; a timer at zero stays there.
    pub fn update_timers(&mut self)
        ensures
            final(self)@ == old(self)@.tick(),
    {
        self.delay_timer = self.delay_timer.saturating_sub(1);
        self.sound_timer = self.sound_timer.saturating_sub(1);
    }

    fn draw(&mut self, x: u8, y: u8, size: u8) -> (r: Result<(), VmError>)
        requires
            x < 16,
            y < 16,
            size < 16,
        ensures
            old(self).i + size > 4096 ==> r == Err::<(), VmError>(VmError::MemoryOverflow)
                && final(self)@ == old(self)@,
            old(self).i + size <= 4096 ==> r is Ok && ({
                let s = old(self)@;
                let sprite = s.memory.subrange(s.i as int, s.i + size);
                let (vx, vy) = (s.v[x as int] as int, s.v[y as int] as int);
                final(self)@ == (CpuState {
                    screen: draw_sprite(s.screen, vx, vy, sprite),
                    v: s.v.update(
                        15,
                        if sprite_collides(s.screen, vx, vy, sprite) {
                            1
                        } else {
                            0
                        },
                    ),
                    ..s
                })
            }),
    {
        let address = self.i as usize;
        if address + size as usize > MEM_SIZE {
            return Err(VmError::MemoryOverflow);
        }
        let mut sprite: Vec<u8> = Vec::new();
        let mut line: usize = 0;
        while line < size as usize
            invariant
                address == self.i,
                address + size <= 4096,
                line <= size,
                sprite@ == self.memory@.subrange(address as int, address + line),
            decreases size - line,
        {
            sprite.push(self.memory[address + line]);
            line += 1;
        }
        let vx = self.reg(x);
        let vy = self.reg(y);
        let collision = self.screen.draw_sprite(vx, vy, &sprite);
        self.v[0xF] = if collision {
            1
        } else {
            0
        };
        Ok(())
    }

    fn skip_if_pressed(&mut self, reg: u8, pad: &KeyPad)
        requires
            reg < 16,
        ensures
            final(self)@ == if key_held(pad@, old(self)@.v[reg as int] as int) {
                old(self)@.advance(2)
            } else {
                old(self)@
            },
    {
        let cond = pad.is_pressed(self.reg(reg));
        self.skip_when(cond);
    }

    fn skip_if_not_pressed(&mut self, reg: u8, pad: &KeyPad)
        requires
            reg < 16,
        ensures
            final(self)@ == if !key_held(pad@, old(self)@.v[reg as int] as int) {
                old(self)@.advance(2)
            } else {
                old(self)@
            },
    {
        let cond = !pad.is_pressed(self.reg(reg));
        self.skip_when(cond);
    }

    /// Stores the lowest held key in a register; with no key held, steps
    /// the program counter back so that the instruction runs again.
    fn wait_key_press(&mut self, reg: u8, keypad: &KeyPad)
        requires
            reg < 16,
        ensures
            final(self)@ == (match first_pressed(keypad@, 0) {
                Some(k) => old(self)@.with_reg(reg, k),
                None => old(self)@.advance(-2),
            }),
    {
        proof {
            keypad.lemma_len();
        }
        let mut n: u8 = 0;
        while (n as usize) < KEY_COUNT
            invariant
                n <= 16,
                reg < 16,
                keypad@.len() == 16,
                first_pressed(keypad@, 0) == first_pressed(keypad@, n as int),
                *self == *old(self),
            decreases 16 - n,
        {
            if keypad.is_pressed(n) {
                self.load(reg, n);
                return;
            }
            n += 1;
        }
        self.pc = self.pc.wrapping_sub(2);
    }

    fn add_reg_to_i(&mut self, reg: u8) -> (r: Result<(), VmError>)
        requires
            reg < 16,
        ensures
            ({
                let s = old(self)@;
                if s.i + s.v[reg as int] >= 4096 {
                    r == Err::<(), VmError>(VmError::AddressOverflow) && final(self)@ == s
                } else {
                    r is Ok && final(self)@ == (CpuState {
                        i: (s.i + s.v[reg as int]) as u16,
                        ..s
                    })
                }
            }),
    {
        let target = self.i as usize + self.reg(reg) as usize;
        if target >= MEM_SIZE {
            return Err(VmError::AddressOverflow);
        }
        self.i = target as u16;
        Ok(())
    }

    fn load_chr_sprite_addr(&mut self, reg: u8) -> (r: Result<(), VmError>)
        requires
            reg < 16,
        ensures
            ({
                let s = old(self)@;
                if s.v[reg as int] > 0xF {
                    r == Err::<(), VmError>(VmError::InvalidDigit) && final(self)@ == s
                } else {
                    r is Ok && final(self)@ == (CpuState { i: (s.v[reg as int] * 5) as u16, ..s })
                }
            }),
    {
        let digit = self.reg(reg);
        if digit > 0xF {
            return Err(VmError::InvalidDigit);
        }
        self.i = (digit * 5) as u16;
        Ok(())
    }

    fn load_bcd(&mut self, reg: u8) -> (r: Result<(), VmError>)
        requires
            reg < 16,
        ensures
            ({
                let s = old(self)@;
                let n = s.v[reg as int];
                if s.i + 2 >= 4096 {
                    r == Err::<(), VmError>(VmError::MemoryOverflow) && final(self)@ == s
                } else {
                    r is Ok && final(self)@ == (CpuState {
                        memory: s.memory.update(s.i as int, n / 100).update(
                            s.i + 1,
                            (n / 10) % 10,
                        ).update(s.i + 2, n % 10),
                        ..s
                    })
                }
            }),
    {
        let address = self.i as usize;
        if address + 2 >= MEM_SIZE {
            return Err(VmError::MemoryOverflow);
        }
        let n = self.reg(reg);
        self.memory[address] = n / 100;
        self.memory[address + 1] = (n / 10) % 10;
        self.memory[address + 2] = n % 10;
        Ok(())
    }

    /// Stores registers 0 to `x` in memory from the index register on.
    fn load_registers(&mut self, x: u8) -> (r: Result<(), VmError>)
        requires
            x < 16,
        ensures
            ({
                let s = old(self)@;
                if s.i + x >= 4096 {
                    r == Err::<(), VmError>(VmError::MemoryOverflow) && final(self)@ == s
                } else {
                    r is Ok && final(self)@ == (CpuState {
                        memory: Seq::new(
                            4096,
                            |k: int|
                                if s.i <= k <= s.i + x {
                                    s.v[k - s.i]
                                } else {
                                    s.memory[k]
                                },
                        ),
                        ..s
                    })
                }
            }),
    {
        let address = self.i as usize;
        if address + x as usize >= MEM_SIZE {
            return Err(VmError::MemoryOverflow);
        }
        let mut memory = self.memory;
        let mut off: usize = 0;
        while off <= x as usize
            invariant
                address == self.i,
                x < 16,
                address + x < 4096,
                off <= x + 1,
                forall|k: int|
                    0 <= k < 4096 ==> memory@[k] == if address <= k < address + off {
                        self.v@[k - address]
                    } else {
                        self.memory@[k]
                    },
            decreases x + 1 - off,
        {
            memory[address + off] = self.v[off];
            off += 1;
        }
        self.memory = memory;
        assert(self@.memory =~= Seq::new(
            4096,
            |k: int|
                if old(self)@.i <= k <= old(self)@.i + x {
                    old(self)@.v[k - old(self)@.i]
                } else {
                    old(self)@.memory[k]
                },
        ));
        Ok(())
    }

    /// Loads registers 0 to `x` from memory from the index register on.
    fn read_registers(&mut self, x: u8) -> (r: Result<(), VmError>)
        requires
            x < 16,
        ensures
            ({
                let s = old(self)@;
                if s.i + x >= 4096 {
                    r == Err::<(), VmError>(VmError::MemoryOverflow) && final(self)@ == s
                } else {
                    r is Ok && final(self)@ == (CpuState {
                        v: Seq::new(16, |k: int| if k <= x { s.memory[s.i + k] } else { s.v[k] }),
                        ..s
                    })
                }
            }),
    {
        let address = self.i as usize;
        if address + x as usize >= MEM_SIZE {
            return Err(VmError::MemoryOverflow);
        }
        let mut v = self.v;
        let mut off: usize = 0;
        while off <= x as usize
            invariant
                address == self.i,
                x < 16,
                address + x < 4096,
                off <= x + 1,
                forall|k: int|
                    0 <= k < 16 ==> v@[k] == if k < off {
                        self.memory@[address + k]
                    } else {
                        self.v@[k]
                    },
            decreases x + 1 - off,
        {
            v[off] = self.memory[address + off];
            off += 1;
        }
        self.v = v;
        assert(self@.v =~= Seq::new(
            16,
            |k: int|
                if k <= x {
                    old(self)@.memory[old(self)@.i + k]
                } else {
                    old(self)@.v[k]
                },
        ));
        Ok(())
    }
}

} // verus!

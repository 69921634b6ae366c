use vstd::prelude::*;
use vstd::arithmetic::div_mod::{lemma_add_mod_noop, lemma_mod_twice};
use crate::error::VmError;
use crate::keypad::key_held;
use crate::opcodes::Op;
use crate::screen::{
    blank,
    draw_sprite,
    lemma_draw_on_blank,
    lemma_draw_twice,
    sprite_collides,
    sprite_covers,
};

verus! {

/// The whole machine as mathematical values.
pub struct CpuState {
    /// The sixteen general registers; the last one doubles as the flag.
    pub v: Seq<u8>,
    /// The index register.
    pub i: u16,
    pub sound_timer: u8,
    pub delay_timer: u8,
    /// Sixteen return-address slots; slot 0 is never written.
    pub stack: Seq<u16>,
    pub pc: u16,
    /// The slot of the most recent return address; 0 when the stack is empty.
    pub sp: int,
    pub memory: Seq<u8>,
    /// The display, row by row.
    pub screen: Seq<bool>,
}

/// The sprites of the hexadecimal digits, five bytes each, kept at the
/// start of memory.
pub open spec fn digit_sprites() -> Seq<u8> {
    seq![
        0xF0u8, 0x90, 0x90, 0x90, 0xF0,
        0x20, 0x60, 0x20, 0x20, 0x70,
        0xF0, 0x10, 0xF0, 0x80, 0xF0,
        0xF0, 0x10, 0xF0, 0x10, 0xF0,
        0x90, 0x90, 0xF0, 0x10, 0x10,
        0xF0, 0x80, 0xF0, 0x10, 0xF0,
        0xF0, 0x80, 0xF0, 0x90, 0xF0,
        0xF0, 0x10, 0x20, 0x40, 0x40,
        0xF0, 0x90, 0xF0, 0x90, 0xF0,
        0xF0, 0x90, 0xF0, 0x10, 0xF0,
        0xF0, 0x90, 0xF0, 0x90, 0x90,
        0xE0, 0x90, 0xE0, 0x90, 0xE0,
        0xF0, 0x80, 0x80, 0x80, 0xF0,
        0xE0, 0x90, 0x90, 0x90, 0xE0,
        0xF0, 0x80, 0xF0, 0x80, 0xF0,
        0xF0, 0x80, 0xF0, 0x80, 0x80,
    ]
}

/// Memory of a fresh machine: the digit sprites, then zeros.
pub open spec fn initial_memory() -> Seq<u8> {
    Seq::new(4096, |k: int| if k < 80 { digit_sprites()[k] } else { 0u8 })
}

/// A fresh machine.
pub open spec fn initial_state() -> CpuState {
    CpuState {
        v: Seq::new(16, |k: int| 0u8),
        i: 0x200,
        sound_timer: 0,
        delay_timer: 0,
        stack: Seq::new(16, |k: int| 0u16),
        pc: 0x200,
        sp: 0,
        memory: initial_memory(),
        screen: blank(),
    }
}

/// A program counter moved by `k`, in sixteen-bit arithmetic.
pub open spec fn pc_plus(pc: u16, k: int) -> u16 {
    ((pc + k) % 0x10000) as u16
}

/// The low eight bits of `a - b`.
pub open spec fn wrapping_diff(a: u8, b: u8) -> u8 {
    ((a - b + 256) % 256) as u8
}

/// The borrow flag of `a - b`: 1 exactly when `a` is strictly greater.
pub open spec fn borrow_flag(a: u8, b: u8) -> u8 {
    if a > b {
        1
    } else {
        0
    }
}

/// The lowest key held down, if any.
pub open spec fn first_pressed(keys: Seq<bool>, from: int) -> Option<u8>
    decreases 16 - from,
{
    if from >= 16 {
        None
    } else if keys[from] {
        Some(from as u8)
    } else {
        first_pressed(keys, from + 1)
    }
}

impl CpuState {
    /// The sizes that every reachable state has.
    pub open spec fn wf(self) -> bool {
        &&& self.v.len() == 16
        &&& self.stack.len() == 16
        &&& 0 <= self.sp <= 15
        &&& self.memory.len() == 4096
        &&& self.screen.len() == 2048
    }

    /// The same state with the program counter moved by `k`.
    pub open spec fn advance(self, k: int) -> CpuState {
        CpuState { pc: pc_plus(self.pc, k), ..self }
    }

    /// Moves past the next instruction when `cond` holds, else to it.
    pub open spec fn skip_if(self, cond: bool) -> CpuState {
        self.advance(if cond { 4 } else { 2 })
    }

    /// The same state with register `x` holding `val`.
    pub open spec fn with_reg(self, x: u8, val: u8) -> CpuState {
        CpuState { v: self.v.update(x as int, val), ..self }
    }

    /// Register `x` written, then the flag register: where `x` is the flag
    /// register the flag wins.
    pub open spec fn with_reg_flag(self, x: u8, val: u8, flag: u8) -> CpuState {
        CpuState { v: self.v.update(x as int, val).update(15, flag), ..self }
    }

    /// Writes register `x`, then moves to the next instruction.
    pub open spec fn set_reg(self, x: u8, val: u8) -> CpuState {
        self.with_reg(x, val).advance(2)
    }

    /// Writes register `x` and the flag, then moves to the next instruction.
    pub open spec fn set_reg_flag(self, x: u8, val: u8, flag: u8) -> CpuState {
        self.with_reg_flag(x, val, flag).advance(2)
    }

    /// Both timers moved one tick towards zero.
    pub open spec fn tick(self) -> CpuState {
        CpuState {
            delay_timer: if self.delay_timer > 0 { (self.delay_timer - 1) as u8 } else { 0 },
            sound_timer: if self.sound_timer > 0 { (self.sound_timer - 1) as u8 } else { 0 },
            ..self
        }
    }
}

/// What executing one operation does to the machine, given which keys are
/// held down and the byte that a random draw would give.
pub open spec fn step(s: CpuState, op: Op, keys: Seq<bool>, rnd: u8) -> Result<CpuState, VmError> {
    match op {
        Op::Cls => Ok(CpuState { screen: blank(), ..s }.advance(2)),
        Op::Ret => if s.sp == 0 {
            Err(VmError::StackUnderflow)
        } else {
            Ok(CpuState { pc: s.stack[s.sp], sp: s.sp - 1, ..s })
        },
        Op::Jp(a) => Ok(CpuState { pc: a, ..s }),
        Op::Call(a) => if a >= 4096 {
            Err(VmError::InvalidAddress)
        } else if s.sp >= 15 {
            Err(VmError::StackOverflow)
        } else {
            Ok(CpuState { sp: s.sp + 1, stack: s.stack.update(s.sp + 1, s.pc), pc: a, ..s })
        },
        Op::Se(x, b) => Ok(s.skip_if(s.v[x as int] == b)),
        Op::Sne(x, b) => Ok(s.skip_if(s.v[x as int] != b)),
        Op::SeReg(x, y) => Ok(s.skip_if(s.v[x as int] == s.v[y as int])),
        Op::SneReg(x, y) => Ok(s.skip_if(s.v[x as int] != s.v[y as int])),
        Op::Ld(x, b) => Ok(s.set_reg(x, b)),
        Op::Add(x, b) => Ok(s.set_reg(x, ((s.v[x as int] + b) % 256) as u8)),
        Op::LdReg(x, y) => Ok(s.set_reg(x, s.v[y as int])),
        Op::Or(x, y) => Ok(s.set_reg(x, s.v[x as int] | s.v[y as int])),
        Op::And(x, y) => Ok(s.set_reg(x, s.v[x as int] & s.v[y as int])),
        Op::Xor(x, y) => Ok(s.set_reg(x, s.v[x as int] ^ s.v[y as int])),
        Op::AddReg(x, y) => {
            let sum = s.v[x as int] + s.v[y as int];
            Ok(s.set_reg_flag(x, (sum % 256) as u8, if sum > 255 { 1 } else { 0 }))
        },
        Op::Sub(x, y) => {
            let (a, b) = (s.v[x as int], s.v[y as int]);
            Ok(s.set_reg_flag(x, wrapping_diff(a, b), borrow_flag(a, b)))
        },
        Op::Subn(x, y) => {
            let (a, b) = (s.v[y as int], s.v[x as int]);
            Ok(s.set_reg_flag(x, wrapping_diff(a, b), borrow_flag(a, b)))
        },
        Op::Shr(x) => Ok(s.set_reg_flag(x, s.v[x as int] / 2, s.v[x as int] % 2)),
        Op::Shl(x) => Ok(s.set_reg_flag(x, ((s.v[x as int] * 2) % 256) as u8, s.v[x as int] / 128)),
        Op::LdI(a) => Ok(CpuState { i: a, ..s }.advance(2)),
        Op::JpRegI(a) => Ok(CpuState { pc: pc_plus(a, s.v[0] as int), ..s }),
        Op::Rnd(x, b) => Ok(s.set_reg(x, rnd & b)),
        Op::Drw(x, y, n) => if s.i + n > 4096 {
            Err(VmError::MemoryOverflow)
        } else {
            let sprite = s.memory.subrange(s.i as int, s.i + n);
            let (vx, vy) = (s.v[x as int] as int, s.v[y as int] as int);
            let flag: u8 = if sprite_collides(s.screen, vx, vy, sprite) { 1 } else { 0 };
            Ok(
                CpuState {
                    screen: draw_sprite(s.screen, vx, vy, sprite),
                    v: s.v.update(15, flag),
                    ..s
                }.advance(2),
            )
        },
        Op::Skp(x) => Ok(s.skip_if(key_held(keys, s.v[x as int] as int))),
        Op::Sknp(x) => Ok(s.skip_if(!key_held(keys, s.v[x as int] as int))),
        Op::LdDT(x) => Ok(s.set_reg(x, s.delay_timer)),
        Op::LdKb(x) => match first_pressed(keys, 0) {
            Some(k) => Ok(s.set_reg(x, k)),
            None => Ok(s),
        },
        Op::SetDT(x) => Ok(CpuState { delay_timer: s.v[x as int], ..s }.advance(2)),
        Op::SetST(x) => Ok(CpuState { sound_timer: s.v[x as int], ..s }.advance(2)),
        Op::AddToI(x) => if s.i + s.v[x as int] >= 4096 {
            Err(VmError::AddressOverflow)
        } else {
            Ok(CpuState { i: (s.i + s.v[x as int]) as u16, ..s }.advance(2))
        },
        Op::LdChr(x) => if s.v[x as int] > 0xF {
            Err(VmError::InvalidDigit)
        } else {
            Ok(CpuState { i: (s.v[x as int] * 5) as u16, ..s }.advance(2))
        },
        Op::LdBCD(x) => if s.i + 2 >= 4096 {
            Err(VmError::MemoryOverflow)
        } else {
            let n = s.v[x as int];
            let memory = s.memory.update(s.i as int, n / 100).update(s.i + 1, (n / 10) % 10).update(
                s.i + 2,
                n % 10,
            );
            Ok(CpuState { memory, ..s }.advance(2))
        },
        Op::LdRegs(x) => if s.i + x >= 4096 {
            Err(VmError::MemoryOverflow)
        } else {
            let memory = Seq::new(
                4096,
                |k: int|
                    if s.i <= k <= s.i + x {
                        s.v[k - s.i]
                    } else {
                        s.memory[k]
                    },
            );
            Ok(CpuState { memory, ..s }.advance(2))
        },
        Op::RdMem(x) => if s.i + x >= 4096 {
            Err(VmError::MemoryOverflow)
        } else {
            let v = Seq::new(16, |k: int| if k <= x { s.memory[s.i + k] } else { s.v[k] });
            Ok(CpuState { v, ..s }.advance(2))
        },
    }
}

/// The instruction word at the program counter, high byte first; both
/// bytes must lie in memory.
pub open spec fn fetch_spec(s: CpuState) -> Result<u16, VmError> {
    if s.pc + 1 >= 4096 {
        Err(VmError::InvalidAddress)
    } else {
        Ok((s.memory[s.pc as int] * 256 + s.memory[s.pc + 1]) as u16)
    }
}

/// The engine's answer `r` and its state afterwards `t` are what `step`
/// gives from `s`: the new state on success; on failure the error, with
/// the state untouched.
pub open spec fn executes(
    s: CpuState,
    op: Op,
    keys: Seq<bool>,
    rnd: u8,
    r: Result<(), VmError>,
    t: CpuState,
) -> bool {
    match step(s, op, keys, rnd) {
        Ok(n) => r is Ok && t == n,
        Err(e) => r == Err::<(), VmError>(e) && t == s,
    }
}

/// Moving the program counter twice is moving it by the sum.
pub proof fn lemma_pc_plus_plus(pc: u16, a: int, b: int)
    ensures
        pc_plus(pc_plus(pc, a), b) == pc_plus(pc, a + b),
{
    lemma_add_mod_noop(pc + a, b, 0x10000);
    lemma_add_mod_noop((pc + a) % 0x10000, b, 0x10000);
    lemma_mod_twice(pc + a, 0x10000);
}

/// The operations that set the program counter themselves.
pub open spec fn is_control(op: Op) -> bool {
    op is Ret || op is Jp || op is Call || op is JpRegI
}

/// The operations that may skip the next instruction.
pub open spec fn is_skip(op: Op) -> bool {
    op is Se || op is Sne || op is SeReg || op is SneReg || op is Skp || op is Sknp
}

/// Whether a skip operation's condition holds.
pub open spec fn skip_condition(s: CpuState, op: Op, keys: Seq<bool>) -> bool {
    match op {
        Op::Se(x, b) => s.v[x as int] == b,
        Op::Sne(x, b) => s.v[x as int] != b,
        Op::SeReg(x, y) => s.v[x as int] == s.v[y as int],
        Op::SneReg(x, y) => s.v[x as int] != s.v[y as int],
        Op::Skp(x) => key_held(keys, s.v[x as int] as int),
        Op::Sknp(x) => !key_held(keys, s.v[x as int] as int),
        _ => false,
    }
}

/// How the program counter moves: by 2 after an operation that neither
/// branches nor skips; by 4 after a skip whose condition holds and by 2
/// after one whose condition fails. Waiting for a key with none held
/// changes nothing at all, so the wait repeats unchanged; once a key is
/// held its code is captured and the counter moves by 2.
pub proof fn lemma_pc_progress(s: CpuState, op: Op, keys: Seq<bool>, rnd: u8)
    requires
        step(s, op, keys, rnd) is Ok,
    ensures
        ({
            let t = step(s, op, keys, rnd)->Ok_0;
            &&& (!is_control(op) && !is_skip(op) && !(op is LdKb)) ==> t.pc == pc_plus(s.pc, 2)
            &&& is_skip(op) ==> t.pc == pc_plus(
                s.pc,
                if skip_condition(s, op, keys) {
                    4
                } else {
                    2
                },
            )
            &&& op matches Op::LdKb(x) ==> match first_pressed(keys, 0) {
                None => t == s,
                Some(k) => t.pc == pc_plus(s.pc, 2) && t.v == s.v.update(x as int, k),
            }
        }),
{
}

/// The key a wait captures is the lowest one held down; it finds none only
/// when no key is held.
pub proof fn lemma_first_pressed(keys: Seq<bool>, from: int)
    requires
        0 <= from <= 16,
    ensures
        first_pressed(keys, from) matches Some(k) ==> from <= k < 16 && keys[k as int] && forall|
            j: int,
        |
            from <= j < k ==> !keys[j],
        first_pressed(keys, from) is None ==> forall|j: int| from <= j < 16 ==> !keys[j],
    decreases 16 - from,
{
    if from < 16 {
        lemma_first_pressed(keys, from + 1);
    }
}

/// A call pushes the program counter and jumps to its target; the return
/// that follows gives back exactly the pushed counter and pops the stack,
/// leaving the machine as before the call but for the stack slot written.
pub proof fn lemma_call_then_return(s: CpuState, a: u16, keys: Seq<bool>, rnd: u8)
    requires
        s.wf(),
        a < 4096,
        s.sp < 15,
    ensures
        step(s, Op::Call(a), keys, rnd) is Ok,
        ({
            let t = step(s, Op::Call(a), keys, rnd)->Ok_0;
            &&& t.pc == a
            &&& t.sp == s.sp + 1
            &&& t.stack[t.sp] == s.pc
            &&& step(t, Op::Ret, keys, rnd) == Ok::<CpuState, VmError>(
                CpuState { stack: t.stack, ..s },
            )
        }),
{
}

/// A return with an empty call stack fails and changes nothing.
pub proof fn lemma_return_on_empty_stack(s: CpuState, keys: Seq<bool>, rnd: u8)
    requires
        s.sp == 0,
    ensures
        step(s, Op::Ret, keys, rnd) == Err::<CpuState, VmError>(VmError::StackUnderflow),
{
}

/// Executing the same draw twice gives back the display as it was; on a
/// blank display the first draw lights exactly the pixels under the
/// sprite's set bits without collision, and the second turns them all off
/// and reports a collision exactly when the first lit any pixel. Neither
/// position register may be the flag register, which the first draw writes.
pub proof fn lemma_draw_twice_step(s: CpuState, x: u8, y: u8, n: u8, keys: Seq<bool>, rnd: u8)
    requires
        s.wf(),
        x < 15,
        y < 15,
        n < 16,
        s.i + n <= 4096,
    ensures
        step(s, Op::Drw(x, y, n), keys, rnd) is Ok,
        step(step(s, Op::Drw(x, y, n), keys, rnd)->Ok_0, Op::Drw(x, y, n), keys, rnd) is Ok,
        ({
            let t = step(s, Op::Drw(x, y, n), keys, rnd)->Ok_0;
            let u = step(t, Op::Drw(x, y, n), keys, rnd)->Ok_0;
            let sprite = s.memory.subrange(s.i as int, s.i + n);
            let (vx, vy) = (s.v[x as int] as int, s.v[y as int] as int);
            &&& u.screen == s.screen
            &&& s.screen == blank() ==> {
                &&& t.v[15] == 0
                &&& forall|p: int|
                    0 <= p < 2048 ==> #[trigger] t.screen[p] == sprite_covers(vx, vy, sprite, p)
                &&& u.v[15] == if exists|p: int|
                    0 <= p < 2048 && #[trigger] sprite_covers(vx, vy, sprite, p) {
                    1u8
                } else {
                    0u8
                }
            }
        }),
{
    let sprite = s.memory.subrange(s.i as int, s.i + n);
    let (vx, vy) = (s.v[x as int] as int, s.v[y as int] as int);
    lemma_draw_twice(s.screen, vx, vy, sprite);
    lemma_draw_on_blank(vx, vy, sprite);
}

/// The state after `n` timer ticks.
pub open spec fn ticks(s: CpuState, n: nat) -> CpuState
    decreases n,
{
    if n == 0 {
        s
    } else {
        ticks(s.tick(), (n - 1) as nat)
    }
}

/// After any number of ticks each timer has counted down by that number,
/// stopping at zero: it never goes below zero, however many ticks follow.
pub proof fn lemma_timers_floor(s: CpuState, n: nat)
    ensures
        ticks(s, n).delay_timer == if s.delay_timer >= n {
            s.delay_timer - n
        } else {
            0
        },
        ticks(s, n).sound_timer == if s.sound_timer >= n {
            s.sound_timer - n
        } else {
            0
        },
        ticks(s, n) == (CpuState {
            delay_timer: ticks(s, n).delay_timer,
            sound_timer: ticks(s, n).sound_timer,
            ..s
        }),
    decreases n,
{
    if n > 0 {
        lemma_timers_floor(s.tick(), (n - 1) as nat);
    }
}

} // verus!

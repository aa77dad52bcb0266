//! The execution driver: fatal condition taxonomy, the step outcome, one
//! fetch-decode-dispatch-execute step, and the loop that repeats it.

use crate::decode::{decode, lemma_decode_bounded, spec_decode, spec_word_of, word_of, Instr};
use crate::machine::{Chip8, MachineView, MEM_SIZE, STACK_DEPTH};
use crate::monitor::{lemma_draw_twice, lights, spec_collision, target, Monitor, NUM_PIXELS};
use crate::ops::{
    after_add_reg, after_bcd, after_call, after_draw, after_reg_dump, after_reg_load, after_ret,
    after_shl, after_shr, after_sub_xy, after_sub_yx, after_wait_key, spec_first_key,
    spec_key_down, sprite_rows,
};
use vstd::prelude::*;

verus! {

/// The four fatal conditions. None is recoverable: each ends the run.
#[derive(Clone, Copy, PartialEq, Eq, Structural, Debug)]
pub enum FaultKind {
    /// An undefined instruction encoding was fetched.
    DecodeError,
    /// `call` with the stack already holding its full depth.
    StackOverflow,
    /// `return` with an empty stack.
    StackUnderflow,
    /// A memory address, register index or key number outside its bound.
    OutOfBounds,
}

/// A fatal condition with the context to diagnose it: the program counter
/// the instruction was fetched from and the raw instruction word (zero
/// when the fetch itself ran off the end of memory).
#[derive(Clone, Copy, PartialEq, Eq, Structural, Debug)]
pub struct Fault {
    pub kind: FaultKind,
    pub pc: u16,
    pub word: u16,
}

/// What one step of the driver did.
#[derive(Clone, Copy, PartialEq, Eq, Structural, Debug)]
pub enum Outcome {
    /// The instruction completed; the machine is still running.
    Ran,
    /// The reserved encoding 0x0000 was fetched: no further fetches.
    Halted,
    /// `wait-key` found no key held: the program counter was rolled back
    /// and the host should re-invoke stepping once a key is down.
    AwaitingKey,
    /// A fatal condition: terminal, the machine must not be stepped on.
    Faulted(Fault),
}

/// Relies on rand::random: draws a value of the distribution the type
/// carries; nothing is promised of which value comes back.
pub assume_specification<T>[ rand::random::<T> ]() -> (r: T)
    where
        rand::distributions::Standard: rand::distributions::Distribution<T>,
;

/// Machine, display and outcome after one step, side by side.
#[verifier::ext_equal]
pub ghost struct StepView {
    pub m: MachineView,
    pub mon: Seq<bool>,
    pub out: Outcome,
}

/// A step that completed with the machine still running.
pub open spec fn ran(m: MachineView, mon: Seq<bool>) -> StepView {
    StepView { m, mon, out: Outcome::Ran }
}

/// A step that ended the run on a fatal condition.
pub open spec fn faulted(
    m: MachineView,
    mon: Seq<bool>,
    kind: FaultKind,
    pc: u16,
    word: u16,
) -> StepView {
    StepView { m, mon, out: Outcome::Faulted(Fault { kind, pc, word }) }
}

/// The effect of one decoded instruction on the already-advanced machine
/// state `m`. `pc0` and `w` are the fetch context a fault would carry;
/// `keys` is the keypad mask; `r` the byte `random-and` draws. Opaque, so
/// that reasoning that never looks inside one step stays cheap: reveal it
/// to reason about a particular instruction.
#[verifier::opaque]
pub open spec fn spec_apply(
    m: MachineView,
    i: Instr,
    pc0: u16,
    w: u16,
    mon: Seq<bool>,
    keys: u16,
    r: u8,
) -> StepView {
    match i {
        Instr::Halt => StepView { m, mon, out: Outcome::Halted },
        Instr::ClearDisplay => ran(m, Seq::new(mon.len(), |k: int| false)),
        Instr::Return => if m.stack.len() == 0 {
            faulted(m, mon, FaultKind::StackUnderflow, pc0, w)
        } else {
            ran(after_ret(m), mon)
        },
        Instr::Jump(nnn) => ran(m.with_pc(nnn), mon),
        Instr::Call(nnn) => if m.stack.len() >= STACK_DEPTH {
            faulted(m, mon, FaultKind::StackOverflow, pc0, w)
        } else {
            ran(after_call(m, nnn), mon)
        },
        Instr::SkipEqByte(x, kk) => ran(m.skip_if(m.regs[x as int] == kk), mon),
        Instr::SkipNeByte(x, kk) => ran(m.skip_if(m.regs[x as int] != kk), mon),
        Instr::SkipEqReg(x, y) => ran(m.skip_if(m.regs[x as int] == m.regs[y as int]), mon),
        Instr::LoadByte(x, kk) => ran(m.with_reg(x as int, kk), mon),
        Instr::AddByte(x, kk) => ran(
            m.with_reg(x as int, ((m.regs[x as int] + kk) % 256) as u8),
            mon,
        ),
        Instr::Move(x, y) => ran(m.with_reg(x as int, m.regs[y as int]), mon),
        Instr::Or(x, y) => ran(m.with_reg(x as int, m.regs[x as int] | m.regs[y as int]), mon),
        Instr::And(x, y) => ran(m.with_reg(x as int, m.regs[x as int] & m.regs[y as int]), mon),
        Instr::Xor(x, y) => ran(m.with_reg(x as int, m.regs[x as int] ^ m.regs[y as int]), mon),
        Instr::AddReg(x, y) => ran(after_add_reg(m, x, y), mon),
        Instr::SubXY(x, y) => ran(after_sub_xy(m, x, y), mon),
        Instr::ShiftRight(x) => ran(after_shr(m, x), mon),
        Instr::SubYX(x, y) => ran(after_sub_yx(m, x, y), mon),
        Instr::ShiftLeft(x) => ran(after_shl(m, x), mon),
        Instr::SkipNeReg(x, y) => ran(m.skip_if(m.regs[x as int] != m.regs[y as int]), mon),
        Instr::LoadIndex(nnn) => ran(m.with_index(nnn), mon),
        Instr::JumpOffset(nnn) => ran(m.with_pc((nnn + m.regs[0]) as u16), mon),
        Instr::Random(x, kk) => ran(m.with_reg(x as int, r & kk), mon),
        Instr::Draw(x, y, n) => if n > 0 && m.index + n > MEM_SIZE {
            faulted(m, mon, FaultKind::OutOfBounds, pc0, w)
        } else {
            ran(after_draw(m, mon, x, y, n).0, after_draw(m, mon, x, y, n).1)
        },
        Instr::SkipKeyPressed(x) => if m.regs[x as int] >= 16 {
            faulted(m, mon, FaultKind::OutOfBounds, pc0, w)
        } else {
            ran(m.skip_if(spec_key_down(keys, m.regs[x as int])), mon)
        },
        Instr::SkipKeyNotPressed(x) => if m.regs[x as int] >= 16 {
            faulted(m, mon, FaultKind::OutOfBounds, pc0, w)
        } else {
            ran(m.skip_if(!spec_key_down(keys, m.regs[x as int])), mon)
        },
        Instr::GetDelay(x) => ran(m.with_reg(x as int, m.delay), mon),
        Instr::WaitKey(x) => StepView {
            m: after_wait_key(m, x, keys),
            mon,
            out: if spec_first_key(keys) < 16 {
                Outcome::Ran
            } else {
                Outcome::AwaitingKey
            },
        },
        Instr::SetDelay(x) => ran(m.with_delay(m.regs[x as int]), mon),
        Instr::SetSound(x) => ran(m.with_sound(m.regs[x as int]), mon),
        Instr::AddIndex(x) => ran(
            m.with_index(((m.index + m.regs[x as int]) % 0x10000) as u16),
            mon,
        ),
        Instr::SpriteAddr(x) => if m.regs[x as int] >= 16 {
            faulted(m, mon, FaultKind::OutOfBounds, pc0, w)
        } else {
            ran(m.with_index((5 * m.regs[x as int]) as u16), mon)
        },
        Instr::Bcd(x) => if m.index + 3 > MEM_SIZE {
            faulted(m, mon, FaultKind::OutOfBounds, pc0, w)
        } else {
            ran(after_bcd(m, x), mon)
        },
        Instr::RegDump(x) => if m.index + x + 1 > MEM_SIZE {
            faulted(m, mon, FaultKind::OutOfBounds, pc0, w)
        } else {
            ran(after_reg_dump(m, x), mon)
        },
        Instr::RegLoad(x) => if m.index + x + 1 > MEM_SIZE {
            faulted(m, mon, FaultKind::OutOfBounds, pc0, w)
        } else {
            ran(after_reg_load(m, x), mon)
        },
    }
}

/// One full step: fetch at the program counter (fatal if it runs past
/// memory), advance by two, decode (fatal on an undefined encoding),
/// apply.
pub open spec fn spec_step(m: MachineView, mon: Seq<bool>, keys: u16, r: u8) -> StepView {
    if m.pc + 1 >= MEM_SIZE {
        faulted(m, mon, FaultKind::OutOfBounds, m.pc, 0)
    } else {
        let w = spec_word_of(m.mem[m.pc as int], m.mem[m.pc as int + 1]);
        let m2 = m.with_pc((m.pc + 2) as u16);
        match spec_decode(w) {
            None => faulted(m2, mon, FaultKind::DecodeError, m.pc, w),
            Some(i) => spec_apply(m2, i, m.pc, w, mon, keys, r),
        }
    }
}

/// Steps taken in order, drawing the bytes of `rs` one per step, until a
/// step ends otherwise than `Ran` or `rs` runs out.
pub open spec fn spec_run(m: MachineView, mon: Seq<bool>, keys: u16, rs: Seq<u8>) -> StepView
    decreases rs.len(),
{
    if rs.len() == 0 {
        StepView { m, mon, out: Outcome::Ran }
    } else {
        let s = spec_step(m, mon, keys, rs[0]);
        if s.out == Outcome::Ran {
            spec_run(s.m, s.mon, keys, rs.subrange(1, rs.len() as int))
        } else {
            s
        }
    }
}

/// Extending a still-running run by one drawn byte takes exactly one more
/// step.
pub proof fn lemma_run_snoc(m: MachineView, mon: Seq<bool>, keys: u16, rs: Seq<u8>, r: u8)
    requires
        spec_run(m, mon, keys, rs).out == Outcome::Ran,
    ensures
        spec_run(m, mon, keys, rs.push(r)) == spec_step(
            spec_run(m, mon, keys, rs).m,
            spec_run(m, mon, keys, rs).mon,
            keys,
            r,
        ),
    decreases rs.len(),
{
    if rs.len() == 0 {
        reveal_with_fuel(spec_run, 3);
        let s = spec_step(m, mon, keys, r);
        assert(rs.push(r)[0] == r);
        assert(rs.push(r).subrange(1, 1) =~= Seq::<u8>::empty());
        if s.out == Outcome::Ran {
            assert(spec_run(m, mon, keys, rs.push(r)) == StepView {
                m: s.m,
                mon: s.mon,
                out: Outcome::Ran,
            });
            assert(s == (StepView { m: s.m, mon: s.mon, out: Outcome::Ran }));
        }
    } else {
        let s0 = spec_step(m, mon, keys, rs[0]);
        assert(s0.out == Outcome::Ran);
        assert(rs.push(r)[0] == rs[0]);
        assert(rs.push(r).subrange(1, rs.len() as int + 1) =~= rs.subrange(
            1,
            rs.len() as int,
        ).push(r));
        lemma_run_snoc(s0.m, s0.mon, keys, rs.subrange(1, rs.len() as int), r);
    }
}

/// Both steps of a pair in order: the second starts from where the first
/// left the machine and the display.
pub open spec fn two_steps(m: MachineView, mon: Seq<bool>, keys: u16, r1: u8, r2: u8) -> StepView {
    let s1 = spec_step(m, mon, keys, r1);
    spec_step(s1.m, s1.mon, keys, r2)
}

/// Two identical `draw` instructions back to back restore the display:
/// the second XOR-blit undoes every toggle of the first, and the second
/// draw's collision flag reports exactly whether the first turned some
/// pixel from off to on. Stated for coordinate registers other than `VF`,
/// which the first draw's own flag write would alias.
#[verifier::rlimit(100)]
pub proof fn lemma_draw_twice_through_steps(
    m: MachineView,
    mon: Seq<bool>,
    keys: u16,
    r1: u8,
    r2: u8,
    x: u8,
    y: u8,
    n: u8,
)
    requires
        m.wf(),
        mon.len() == NUM_PIXELS,
        x < 15,
        y < 15,
        n < 16,
        m.pc + 3 < MEM_SIZE,
        spec_decode(spec_word_of(m.mem[m.pc as int], m.mem[m.pc as int + 1])) == Some(
            Instr::Draw(x, y, n),
        ),
        spec_decode(spec_word_of(m.mem[m.pc as int + 2], m.mem[m.pc as int + 3])) == Some(
            Instr::Draw(x, y, n),
        ),
        !(n > 0 && m.index + n > MEM_SIZE),
    ensures
        spec_step(m, mon, keys, r1).out == Outcome::Ran,
        two_steps(m, mon, keys, r1, r2).out == Outcome::Ran,
        two_steps(m, mon, keys, r1, r2).mon == mon,
        spec_step(m, mon, keys, r1).m.regs[15] == (if spec_collision(
            mon,
            sprite_rows(m, n),
            m.regs[x as int],
            m.regs[y as int],
        ) {
            1u8
        } else {
            0u8
        }),
        two_steps(m, mon, keys, r1, r2).m.regs[15] == (if exists|i: int, j: int|
            lights(sprite_rows(m, n), i, j) && !mon[target(
                m.regs[x as int],
                m.regs[y as int],
                i,
                j,
            )] {
            1u8
        } else {
            0u8
        }),
        forall|k: int|
            0 <= k < 16 && k != 15 ==> two_steps(m, mon, keys, r1, r2).m.regs[k] == m.regs[k],
        two_steps(m, mon, keys, r1, r2).m.mem == m.mem,
        two_steps(m, mon, keys, r1, r2).m.index == m.index,
        two_steps(m, mon, keys, r1, r2).m.stack == m.stack,
        two_steps(m, mon, keys, r1, r2).m.pc == (m.pc + 4) as u16,
{
    let rows = sprite_rows(m, n);
    let vx = m.regs[x as int];
    let vy = m.regs[y as int];
    let s1 = spec_step(m, mon, keys, r1);
    let m2 = m.with_pc((m.pc + 2) as u16);
    assert(s1 == ran(after_draw(m2, mon, x, y, n).0, after_draw(m2, mon, x, y, n).1)) by {
        reveal(spec_apply);
    }
    assert(s1.m.mem == m.mem && s1.m.index == m.index && s1.m.stack == m.stack);
    assert(s1.m.regs[x as int] == vx && s1.m.regs[y as int] == vy);
    let s2 = spec_step(s1.m, s1.mon, keys, r2);
    let m3 = s1.m.with_pc((s1.m.pc + 2) as u16);
    assert(s2 == ran(after_draw(m3, s1.mon, x, y, n).0, after_draw(m3, s1.mon, x, y, n).1)) by {
        reveal(spec_apply);
    }
    lemma_draw_twice(mon, rows, vx, vy);
    assert(s2.mon =~= mon);
    assert(s2.m.regs[15] == (if exists|i: int, j: int|
        lights(rows, i, j) && !mon[target(vx, vy, i, j)] {
        1u8
    } else {
        0u8
    }));
    assert(forall|k: int| 0 <= k < 16 && k != 15 ==> s2.m.regs[k] == m.regs[k]);
    assert(s2.m.mem =~= m.mem);
    assert(s2.m.stack =~= m.stack);
    assert(s2.m.pc == (m.pc + 4) as u16);
}

impl Chip8 {
    /// Reads the instruction word at the program counter as two
    /// big-endian bytes; `None` when the fetch would run past memory.
    pub fn get_opcode(&self) -> (r: Option<u16>)
        requires
            self@.wf(),
        ensures
            self@.pc + 1 < MEM_SIZE ==> r == Some(
                spec_word_of(self@.mem[self@.pc as int], self@.mem[self@.pc as int + 1]),
            ),
            self@.pc + 1 >= MEM_SIZE ==> r is None,
    {
        let pc = self.program_counter as usize;
        if pc + 1 >= MEM_SIZE {
            return None;
        }
        let hi = self.memory[pc];
        let lo = self.memory[pc + 1];
        Some(word_of(hi, lo))
    }

    /// One fetch-decode-dispatch-execute step against the display and the
    /// keypad mask. The outcome and the new machine and display state are
    /// exactly one `spec_step` for some drawn byte.
    #[verifier::rlimit(100)]
    pub fn step(&mut self, monitor: &mut Monitor, keys: u16) -> (o: Outcome)
        requires
            old(self)@.wf(),
            old(monitor)@.len() == NUM_PIXELS,
        ensures
            final(self)@.wf(),
            final(monitor)@.len() == NUM_PIXELS,
            exists|r: u8|
                (StepView { m: final(self)@, mon: final(monitor)@, out: o }) == spec_step(
                    old(self)@,
                    old(monitor)@,
                    keys,
                    r,
                ),
    {
        let ghost m0 = self@;
        let ghost mon0 = monitor@;
        let ghost mut rwit: u8 = 0;
        let pc0 = self.program_counter;
        let o: Outcome;
        match self.get_opcode() {
            None => {
                o = Outcome::Faulted(
                    Fault { kind: FaultKind::OutOfBounds, pc: pc0, word: 0 },
                );
            },
            Some(w) => {
                self.program_counter = pc0 + 2;
                proof {
                    lemma_decode_bounded(w);
                }
                match decode(w) {
                    None => {
                        o = Outcome::Faulted(
                            Fault { kind: FaultKind::DecodeError, pc: pc0, word: w },
                        );
                    },
                    Some(instr) => {
                        match instr {
                            Instr::Halt => {
                                o = Outcome::Halted;
                            },
                            Instr::ClearDisplay => {
                                monitor.clear();
                                proof {
                                    assert(monitor@ =~= Seq::new(mon0.len(), |k: int| false));
                                }
                                o = Outcome::Ran;
                            },
                            Instr::Return => {
                                o = match self.ret() {
                                    Ok(()) => Outcome::Ran,
                                    Err(k) => Outcome::Faulted(
                                        Fault { kind: k, pc: pc0, word: w },
                                    ),
                                };
                            },
                            Instr::Jump(nnn) => {
                                self.jump_to(nnn);
                                o = Outcome::Ran;
                            },
                            Instr::Call(nnn) => {
                                o = match self.call(nnn) {
                                    Ok(()) => Outcome::Ran,
                                    Err(k) => Outcome::Faulted(
                                        Fault { kind: k, pc: pc0, word: w },
                                    ),
                                };
                            },
                            Instr::SkipEqByte(x, kk) => {
                                self.skip_vx_equal_to_byte(x, kk);
                                o = Outcome::Ran;
                            },
                            Instr::SkipNeByte(x, kk) => {
                                self.skip_vx_not_equal_to_byte(x, kk);
                                o = Outcome::Ran;
                            },
                            Instr::SkipEqReg(x, y) => {
                                self.skip_vx_equal_vy(x, y);
                                o = Outcome::Ran;
                            },
                            Instr::LoadByte(x, kk) => {
                                self.set_vx_to_value(x, kk);
                                o = Outcome::Ran;
                            },
                            Instr::AddByte(x, kk) => {
                                self.add_value_vx(x, kk);
                                o = Outcome::Ran;
                            },
                            Instr::Move(x, y) => {
                                self.put_vy_in_vx(x, y);
                                o = Outcome::Ran;
                            },
                            Instr::Or(x, y) => {
                                self.or_vx_vy_put_result_in_vx(x, y);
                                o = Outcome::Ran;
                            },
                            Instr::And(x, y) => {
                                self.and_vx_vy_put_result_in_vx(x, y);
                                o = Outcome::Ran;
                            },
                            Instr::Xor(x, y) => {
                                self.xor_vx_vy_put_result_in_vx(x, y);
                                o = Outcome::Ran;
                            },
                            Instr::AddReg(x, y) => {
                                self.add_vx_vy_put_result_in_vx(x, y);
                                o = Outcome::Ran;
                            },
                            Instr::SubXY(x, y) => {
                                self.sub_vx_vy_put_result_in_vx(x, y);
                                o = Outcome::Ran;
                            },
                            Instr::ShiftRight(x) => {
                                self.shift_vx_right(x);
                                o = Outcome::Ran;
                            },
                            Instr::SubYX(x, y) => {
                                self.sub_vy_vx_put_result_in_vx(x, y);
                                o = Outcome::Ran;
                            },
                            Instr::ShiftLeft(x) => {
                                self.shift_vx_left(x);
                                o = Outcome::Ran;
                            },
                            Instr::SkipNeReg(x, y) => {
                                self.skip_vx_not_equal_vy(x, y);
                                o = Outcome::Ran;
                            },
                            Instr::LoadIndex(nnn) => {
                                self.put_addr_in_index_register(nnn);
                                o = Outcome::Ran;
                            },
                            Instr::JumpOffset(nnn) => {
                                self.jump_to_addr_with_v0_offset(nnn);
                                o = Outcome::Ran;
                            },
                            Instr::Random(x, kk) => {
                                let drawn = rand::random::<u8>();
                                self.store_random_value_in_vx(x, kk, drawn);
                                proof {
                                    rwit = drawn;
                                }
                                o = Outcome::Ran;
                            },
                            Instr::Draw(x, y, n) => {
                                o = match self.draw_sprite(monitor, x, y, n) {
                                    Ok(()) => Outcome::Ran,
                                    Err(k) => Outcome::Faulted(
                                        Fault { kind: k, pc: pc0, word: w },
                                    ),
                                };
                            },
                            Instr::SkipKeyPressed(x) => {
                                o = match self.skip_if_key_pressed(x, keys) {
                                    Ok(()) => Outcome::Ran,
                                    Err(k) => Outcome::Faulted(
                                        Fault { kind: k, pc: pc0, word: w },
                                    ),
                                };
                            },
                            Instr::SkipKeyNotPressed(x) => {
                                o = match self.skip_if_key_not_pressed(x, keys) {
                                    Ok(()) => Outcome::Ran,
                                    Err(k) => Outcome::Faulted(
                                        Fault { kind: k, pc: pc0, word: w },
                                    ),
                                };
                            },
                            Instr::GetDelay(x) => {
                                self.put_delay_timer_in_reg_x(x);
                                o = Outcome::Ran;
                            },
                            Instr::WaitKey(x) => {
                                let got = self.wait_on_key_press(x, keys);
                                o = if got {
                                    Outcome::Ran
                                } else {
                                    Outcome::AwaitingKey
                                };
                            },
                            Instr::SetDelay(x) => {
                                self.set_vx_as_delay_timer(x);
                                o = Outcome::Ran;
                            },
                            Instr::SetSound(x) => {
                                self.set_vx_as_sound_timer(x);
                                o = Outcome::Ran;
                            },
                            Instr::AddIndex(x) => {
                                self.set_add_vx_to_index_memory(x);
                                o = Outcome::Ran;
                            },
                            Instr::SpriteAddr(x) => {
                                o = match self.set_index_to_sprite_addr(x) {
                                    Ok(()) => Outcome::Ran,
                                    Err(k) => Outcome::Faulted(
                                        Fault { kind: k, pc: pc0, word: w },
                                    ),
                                };
                            },
                            Instr::Bcd(x) => {
                                o = match self.store_bcd_in_memory(x) {
                                    Ok(()) => Outcome::Ran,
                                    Err(k) => Outcome::Faulted(
                                        Fault { kind: k, pc: pc0, word: w },
                                    ),
                                };
                            },
                            Instr::RegDump(x) => {
                                o = match self.store_reg_0_to_x_in_mem_at_i(x) {
                                    Ok(()) => Outcome::Ran,
                                    Err(k) => Outcome::Faulted(
                                        Fault { kind: k, pc: pc0, word: w },
                                    ),
                                };
                            },
                            Instr::RegLoad(x) => {
                                o = match self.read_memory_into_registers(x) {
                                    Ok(()) => Outcome::Ran,
                                    Err(k) => Outcome::Faulted(
                                        Fault { kind: k, pc: pc0, word: w },
                                    ),
                                };
                            },
                        }
                    },
                }
            },
        }
        proof {
            reveal(spec_apply);
            assert((StepView { m: self@, mon: monitor@, out: o }) == spec_step(
                m0,
                mon0,
                keys,
                rwit,
            ));
        }
        o
    }

    /// Steps repeatedly until the machine halts, faults, awaits a key, or
    /// `max_steps` instructions have run (so a host can hand out a budget
    /// per invocation: a program that jumps to itself never stops on its
    /// own). The result is exactly one `spec_run` for some sequence of
    /// drawn bytes; an outcome of `Ran` means the whole budget was spent,
    /// so the witnessing run holds exactly `max_steps` steps.
    #[verifier::rlimit(100)]
    pub fn cycle(&mut self, monitor: &mut Monitor, keys: u16, max_steps: u64) -> (o: Outcome)
        requires
            old(self)@.wf(),
            old(monitor)@.len() == NUM_PIXELS,
        ensures
            final(self)@.wf(),
            final(monitor)@.len() == NUM_PIXELS,
            exists|rs: Seq<u8>|
                rs.len() <= max_steps && (o == Outcome::Ran ==> rs.len() == max_steps) && (
                StepView { m: final(self)@, mon: final(monitor)@, out: o }) == spec_run(
                    old(self)@,
                    old(monitor)@,
                    keys,
                    rs,
                ),
    {
        let ghost m0 = self@;
        let ghost mon0 = monitor@;
        let ghost mut rs: Seq<u8> = Seq::empty();
        let mut steps: u64 = 0;
        while steps < max_steps
            invariant
                m0 == old(self)@,
                mon0 == old(monitor)@,
                self@.wf(),
                monitor@.len() == NUM_PIXELS,
                steps <= max_steps,
                rs.len() == steps,
                spec_run(m0, mon0, keys, rs) == (StepView {
                    m: self@,
                    mon: monitor@,
                    out: Outcome::Ran,
                }),
            decreases max_steps - steps,
        {
            let ghost prev_m = self@;
            let ghost prev_mon = monitor@;
            let o = self.step(monitor, keys);
            proof {
                let r = choose|r: u8|
                    (StepView { m: self@, mon: monitor@, out: o }) == spec_step(
                        prev_m,
                        prev_mon,
                        keys,
                        r,
                    );
                lemma_run_snoc(m0, mon0, keys, rs, r);
                rs = rs.push(r);
            }
            steps = steps + 1;
            match o {
                Outcome::Ran => {},
                _ => {
                    proof {
                        assert(rs.len() <= max_steps && o != Outcome::Ran && (StepView {
                            m: self@,
                            mon: monitor@,
                            out: o,
                        }) == spec_run(m0, mon0, keys, rs));
                        assert(exists|w: Seq<u8>|
                            w.len() <= max_steps && (o == Outcome::Ran ==> w.len() == max_steps)
                                && (StepView { m: self@, mon: monitor@, out: o }) == spec_run(
                                m0,
                                mon0,
                                keys,
                                w,
                            ));
                    }
                    return o;
                },
            }
        }
        proof {
            assert(rs.len() == max_steps && (StepView {
                m: self@,
                mon: monitor@,
                out: Outcome::Ran,
            }) == spec_run(m0, mon0, keys, rs));
            assert(exists|w: Seq<u8>|
                w.len() <= max_steps && (Outcome::Ran == Outcome::Ran ==> w.len() == max_steps)
                    && (StepView { m: self@, mon: monitor@, out: Outcome::Ran }) == spec_run(
                    m0,
                    mon0,
                    keys,
                    w,
                ));
        }
        Outcome::Ran
    }
}

} // verus!

//! The operation set: one state-transition function per opcode family,
//! each a small executable function whose contract names the exact next
//! machine state.

use crate::machine::{Chip8, MachineView, MEM_SIZE, NUM_REGS, STACK_DEPTH};
use crate::monitor::{spec_collision, spec_draw, Monitor, NUM_PIXELS};
use crate::step::FaultKind;
use vstd::prelude::*;

verus! {

/// Whether the key with hex value `key` is held, reading the keypad as a
/// 16-bit mask with bit `k` standing for key `k`.
pub open spec fn spec_key_down(keys: u16, key: u8) -> bool {
    (keys >> key) & 1 == 1
}

/// The lowest held key at or above `k`, or 16 when none is.
pub open spec fn spec_first_key_from(keys: u16, k: int) -> int
    decreases 16 - k,
{
    if k < 0 || k >= 16 {
        16
    } else if spec_key_down(keys, k as u8) {
        k
    } else {
        spec_first_key_from(keys, k + 1)
    }
}

/// The lowest held key, or 16 when none is.
pub open spec fn spec_first_key(keys: u16) -> int {
    spec_first_key_from(keys, 0)
}

/// Whether the key with hex value `key` is held.
pub fn is_key_down(keys: u16, key: u8) -> (r: bool)
    requires
        key < 16,
    ensures
        r == spec_key_down(keys, key),
{
    (keys >> key) & 1 == 1
}

/// The lowest held key, if any is held.
pub fn first_pressed_key(keys: u16) -> (r: Option<u8>)
    ensures
        r matches Some(k) ==> k < 16 && spec_first_key(keys) == k as int,
        r is None ==> spec_first_key(keys) == 16,
{
    let mut k: u8 = 0;
    while k < 16
        invariant
            k <= 16,
            spec_first_key(keys) == spec_first_key_from(keys, k as int),
        decreases 16 - k,
    {
        if is_key_down(keys, k) {
            return Some(k);
        }
        k = k + 1;
    }
    None
}

/// State after `return`: the program counter is popped off the stack.
pub open spec fn after_ret(m: MachineView) -> MachineView {
    m.with_pc(m.stack.last()).with_stack(m.stack.drop_last())
}

/// State after `call`: the current program counter is pushed, then
/// replaced by the target address.
pub open spec fn after_call(m: MachineView, addr: u16) -> MachineView {
    m.with_stack(m.stack.push(m.pc)).with_pc(addr)
}

/// State after `add-reg`: 8-bit wraparound sum into `Vx`, carry into `VF`.
pub open spec fn after_add_reg(m: MachineView, x: u8, y: u8) -> MachineView {
    let sum = m.regs[x as int] + m.regs[y as int];
    m.with_reg(x as int, (sum % 256) as u8).with_reg(15, if sum >= 256 {
        1u8
    } else {
        0u8
    })
}

/// State after `sub` (x-y): `VF` reports "no borrow" (`Vx > Vy`), then the
/// wrapped difference is stored in `Vx`.
pub open spec fn after_sub_xy(m: MachineView, x: u8, y: u8) -> MachineView {
    let vx = m.regs[x as int];
    let vy = m.regs[y as int];
    m.with_reg(15, if vx > vy {
        1u8
    } else {
        0u8
    }).with_reg(x as int, ((vx - vy + 256) % 256) as u8)
}

/// State after `sub` (y-x): the mirror of `after_sub_xy`.
pub open spec fn after_sub_yx(m: MachineView, x: u8, y: u8) -> MachineView {
    let vx = m.regs[x as int];
    let vy = m.regs[y as int];
    m.with_reg(15, if vy > vx {
        1u8
    } else {
        0u8
    }).with_reg(x as int, ((vy - vx + 256) % 256) as u8)
}

/// State after `shift-right`: the bit shifted out lands in `VF`, then
/// `Vx` is halved.
pub open spec fn after_shr(m: MachineView, x: u8) -> MachineView {
    let vx = m.regs[x as int];
    m.with_reg(15, (vx % 2) as u8).with_reg(x as int, (vx / 2) as u8)
}

/// State after `shift-left`: the bit shifted out lands in `VF`, then
/// `Vx` is doubled modulo 256.
pub open spec fn after_shl(m: MachineView, x: u8) -> MachineView {
    let vx = m.regs[x as int];
    m.with_reg(15, (vx / 128) as u8).with_reg(x as int, ((vx * 2) % 256) as u8)
}

/// State after `wait-key`: the lowest held key lands in `Vx`, or, with no
/// key held, the program counter is rolled back to retry the instruction.
pub open spec fn after_wait_key(m: MachineView, x: u8, keys: u16) -> MachineView {
    if spec_first_key(keys) < 16 {
        m.with_reg(x as int, spec_first_key(keys) as u8)
    } else {
        m.with_pc((m.pc - 2) as u16)
    }
}

/// State after `reg-dump`: `V0..=Vx` are copied into memory at the index
/// register.
pub open spec fn after_reg_dump(m: MachineView, x: u8) -> MachineView {
    MachineView {
        mem: Seq::new(m.mem.len(), |a: int| if m.index <= a <= m.index + x {
            m.regs[a - m.index]
        } else {
            m.mem[a]
        }),
        ..m
    }
}

/// State after `reg-load`: `V0..=Vx` are read back from memory at the
/// index register.
pub open spec fn after_reg_load(m: MachineView, x: u8) -> MachineView {
    MachineView {
        regs: Seq::new(m.regs.len(), |k: int| if 0 <= k <= x {
            m.mem[m.index + k]
        } else {
            m.regs[k]
        }),
        ..m
    }
}

/// State after `bcd-store`: the three decimal digits of `Vx` land at
/// `memory[index..index+3]`, hundreds first.
pub open spec fn after_bcd(m: MachineView, x: u8) -> MachineView {
    let vx = m.regs[x as int];
    m.with_mem(m.index as int, (vx / 100) as u8).with_mem(
        m.index + 1,
        ((vx / 10) % 10) as u8,
    ).with_mem(m.index + 2, (vx % 10) as u8)
}

/// The `n` sprite rows a `draw` reads from memory at the index register.
pub open spec fn sprite_rows(m: MachineView, n: u8) -> Seq<u8> {
    if n == 0 {
        Seq::<u8>::empty()
    } else {
        m.mem.subrange(m.index as int, m.index + n)
    }
}

/// State and display after `draw`: the sprite rows read from memory at
/// the index register are XOR-blitted at `(Vx, Vy)`, and `VF` reports the
/// collision.
pub open spec fn after_draw(m: MachineView, mon: Seq<bool>, x: u8, y: u8, n: u8) -> (
    MachineView,
    Seq<bool>,
) {
    let rows = sprite_rows(m, n);
    let col = spec_collision(mon, rows, m.regs[x as int], m.regs[y as int]);
    (
        m.with_reg(15, if col {
            1u8
        } else {
            0u8
        }),
        spec_draw(mon, rows, m.regs[x as int], m.regs[y as int]),
    )
}

/// A `call` followed immediately by `return` restores the whole machine
/// state, the program counter that was current before the `call` included.
pub proof fn lemma_call_then_return(m: MachineView, addr: u16)
    requires
        m.wf(),
        m.stack.len() < STACK_DEPTH,
    ensures
        after_ret(after_call(m, addr)) == m,
{
    assert(m.stack.push(m.pc).last() == m.pc);
    assert(m.stack.push(m.pc).drop_last() =~= m.stack);
    assert(after_ret(after_call(m, addr)) =~= m);
}

/// `reg-dump` then `reg-load` with the same `x` and the same index
/// register, and no write in between, restores every register exactly.
pub proof fn lemma_reg_dump_then_load(m: MachineView, x: u8)
    requires
        m.wf(),
        x < 16,
        m.index + x + 1 <= MEM_SIZE,
    ensures
        after_reg_load(after_reg_dump(m, x), x).regs =~= m.regs,
{
    let m1 = after_reg_dump(m, x);
    assert forall|k: int| 0 <= k < NUM_REGS implies after_reg_load(m1, x).regs[k] == m.regs[k] by {
        if 0 <= k <= x {
            assert(m1.mem[m.index + k] == m.regs[k]);
        }
    }
}

impl Chip8 {
    /// `return`: pops the return address into the program counter; fatal
    /// underflow if no `call` is outstanding.
    pub fn ret(&mut self) -> (r: Result<(), FaultKind>)
        requires
            old(self)@.wf(),
        ensures
            final(self)@.wf(),
            old(self)@.stack.len() > 0 ==> r == Ok::<(), FaultKind>(()) && final(self)@
                == after_ret(old(self)@),
            old(self)@.stack.len() == 0 ==> r == Err::<(), FaultKind>(FaultKind::StackUnderflow)
                && final(self)@ == old(self)@,
    {
        match self.stack.pop() {
            Some(addr) => {
                self.program_counter = addr;
                proof {
                    assert(self@.stack =~= old(self)@.stack.drop_last());
                }
                Ok(())
            },
            None => Err(FaultKind::StackUnderflow),
        }
    }

    /// `jump`: the program counter is replaced by the target address.
    pub fn jump_to(&mut self, addr: u16)
        requires
            old(self)@.wf(),
        ensures
            final(self)@.wf(),
            final(self)@ == old(self)@.with_pc(addr),
    {
        self.program_counter = addr;
    }

    /// `call`: pushes the current program counter, then jumps; fatal
    /// overflow if the stack already holds its full depth.
    pub fn call(&mut self, addr: u16) -> (r: Result<(), FaultKind>)
        requires
            old(self)@.wf(),
        ensures
            final(self)@.wf(),
            old(self)@.stack.len() < STACK_DEPTH ==> r == Ok::<(), FaultKind>(()) && final(self)@
                == after_call(old(self)@, addr),
            old(self)@.stack.len() == STACK_DEPTH ==> r == Err::<(), FaultKind>(
                FaultKind::StackOverflow,
            ) && final(self)@ == old(self)@,
    {
        if self.stack.len() >= STACK_DEPTH {
            return Err(FaultKind::StackOverflow);
        }
        self.stack.push(self.program_counter);
        self.program_counter = addr;
        Ok(())
    }

    /// `skip-eq-byte`: advances the program counter by two more when
    /// `Vx == kk`.
    pub fn skip_vx_equal_to_byte(&mut self, x: u8, byte: u8)
        requires
            old(self)@.wf(),
            x < 16,
            old(self)@.pc <= 0xFFFD,
        ensures
            final(self)@.wf(),
            final(self)@ == old(self)@.skip_if(old(self)@.regs[x as int] == byte),
    {
        if self.registers[x as usize] == byte {
            self.program_counter = self.program_counter + 2;
        }
    }

    /// `skip-ne-byte`: advances the program counter by two more when
    /// `Vx != kk`.
    pub fn skip_vx_not_equal_to_byte(&mut self, x: u8, byte: u8)
        requires
            old(self)@.wf(),
            x < 16,
            old(self)@.pc <= 0xFFFD,
        ensures
            final(self)@.wf(),
            final(self)@ == old(self)@.skip_if(old(self)@.regs[x as int] != byte),
    {
        if self.registers[x as usize] != byte {
            self.program_counter = self.program_counter + 2;
        }
    }

    /// `skip-eq-reg`: advances the program counter by two more when
    /// `Vx == Vy`.
    pub fn skip_vx_equal_vy(&mut self, x: u8, y: u8)
        requires
            old(self)@.wf(),
            x < 16,
            y < 16,
            old(self)@.pc <= 0xFFFD,
        ensures
            final(self)@.wf(),
            final(self)@ == old(self)@.skip_if(
                old(self)@.regs[x as int] == old(self)@.regs[y as int],
            ),
    {
        if self.registers[x as usize] == self.registers[y as usize] {
            self.program_counter = self.program_counter + 2;
        }
    }

    /// `skip-ne-reg`: advances the program counter by two more when
    /// `Vx != Vy`.
    pub fn skip_vx_not_equal_vy(&mut self, x: u8, y: u8)
        requires
            old(self)@.wf(),
            x < 16,
            y < 16,
            old(self)@.pc <= 0xFFFD,
        ensures
            final(self)@.wf(),
            final(self)@ == old(self)@.skip_if(
                old(self)@.regs[x as int] != old(self)@.regs[y as int],
            ),
    {
        if self.registers[x as usize] != self.registers[y as usize] {
            self.program_counter = self.program_counter + 2;
        }
    }

    /// `load-immediate`: `Vx := kk`.
    pub fn set_vx_to_value(&mut self, x: u8, byte: u8)
        requires
            old(self)@.wf(),
            x < 16,
        ensures
            final(self)@.wf(),
            final(self)@ == old(self)@.with_reg(x as int, byte),
    {
        self.registers.set(x as usize, byte);
    }

    /// `add-immediate`: `Vx := Vx + kk` with 8-bit wraparound, no flag.
    pub fn add_value_vx(&mut self, x: u8, byte: u8)
        requires
            old(self)@.wf(),
            x < 16,
        ensures
            final(self)@.wf(),
            final(self)@ == old(self)@.with_reg(
                x as int,
                ((old(self)@.regs[x as int] + byte) % 256) as u8,
            ),
    {
        let sum: u16 = self.registers[x as usize] as u16 + byte as u16;
        self.registers.set(x as usize, (sum % 256) as u8);
    }

    /// `move`: `Vx := Vy`.
    pub fn put_vy_in_vx(&mut self, x: u8, y: u8)
        requires
            old(self)@.wf(),
            x < 16,
            y < 16,
        ensures
            final(self)@.wf(),
            final(self)@ == old(self)@.with_reg(x as int, old(self)@.regs[y as int]),
    {
        let vy = self.registers[y as usize];
        self.registers.set(x as usize, vy);
    }

    /// `or`: `Vx := Vx | Vy`.
    pub fn or_vx_vy_put_result_in_vx(&mut self, x: u8, y: u8)
        requires
            old(self)@.wf(),
            x < 16,
            y < 16,
        ensures
            final(self)@.wf(),
            final(self)@ == old(self)@.with_reg(
                x as int,
                old(self)@.regs[x as int] | old(self)@.regs[y as int],
            ),
    {
        let vx = self.registers[x as usize];
        let vy = self.registers[y as usize];
        self.registers.set(x as usize, vx | vy);
    }

    /// `and`: `Vx := Vx & Vy`.
    pub fn and_vx_vy_put_result_in_vx(&mut self, x: u8, y: u8)
        requires
            old(self)@.wf(),
            x < 16,
            y < 16,
        ensures
            final(self)@.wf(),
            final(self)@ == old(self)@.with_reg(
                x as int,
                old(self)@.regs[x as int] & old(self)@.regs[y as int],
            ),
    {
        let vx = self.registers[x as usize];
        let vy = self.registers[y as usize];
        self.registers.set(x as usize, vx & vy);
    }

    /// `xor`: `Vx := Vx ^ Vy`.
    pub fn xor_vx_vy_put_result_in_vx(&mut self, x: u8, y: u8)
        requires
            old(self)@.wf(),
            x < 16,
            y < 16,
        ensures
            final(self)@.wf(),
            final(self)@ == old(self)@.with_reg(
                x as int,
                old(self)@.regs[x as int] ^ old(self)@.regs[y as int],
            ),
    {
        let vx = self.registers[x as usize];
        let vy = self.registers[y as usize];
        self.registers.set(x as usize, vx ^ vy);
    }

    /// `add-reg`: `Vx := Vx + Vy` modulo 256; `VF := 1` exactly when the
    /// sum overflowed 8 bits.
    pub fn add_vx_vy_put_result_in_vx(&mut self, x: u8, y: u8)
        requires
            old(self)@.wf(),
            x < 16,
            y < 16,
        ensures
            final(self)@.wf(),
            final(self)@ == after_add_reg(old(self)@, x, y),
            final(self)@.regs[15] == (if old(self)@.regs[x as int] + old(self)@.regs[y as int]
                >= 256 {
                1u8
            } else {
                0u8
            }),
            x != 15 ==> final(self)@.regs[x as int] == (old(self)@.regs[x as int] + old(self)@.regs[y as int]) % 256,
    {
        let vx = self.registers[x as usize];
        let vy = self.registers[y as usize];
        let sum: u16 = vx as u16 + vy as u16;
        self.registers.set(x as usize, (sum % 256) as u8);
        let flag: u8 = if sum >= 256 {
            1
        } else {
            0
        };
        self.registers.set(15, flag);
    }

    /// `sub` (x-y): `VF` reports "no borrow", then `Vx` takes the wrapped
    /// difference `Vx - Vy`.
    pub fn sub_vx_vy_put_result_in_vx(&mut self, x: u8, y: u8)
        requires
            old(self)@.wf(),
            x < 16,
            y < 16,
        ensures
            final(self)@.wf(),
            final(self)@ == after_sub_xy(old(self)@, x, y),
            x != 15 ==> final(self)@.regs[x as int] == (old(self)@.regs[x as int] - old(self)@.regs[y as int] + 256) % 256 && final(self)@.regs[15] == (if old(self)@.regs[x as int] > old(self)@.regs[y as int] {
                1u8
            } else {
                0u8
            }),
    {
        let vx = self.registers[x as usize];
        let vy = self.registers[y as usize];
        let flag: u8 = if vx > vy {
            1
        } else {
            0
        };
        self.registers.set(15, flag);
        let diff: u16 = (vx as u16 + 256 - vy as u16) % 256;
        self.registers.set(x as usize, diff as u8);
    }

    /// `shift-right`: `VF` takes the bit shifted out (bit 0), then `Vx`
    /// is halved.
    pub fn shift_vx_right(&mut self, x: u8)
        requires
            old(self)@.wf(),
            x < 16,
        ensures
            final(self)@.wf(),
            final(self)@ == after_shr(old(self)@, x),
            x != 15 ==> final(self)@.regs[x as int] == old(self)@.regs[x as int] / 2 && final(self)@.regs[15] == old(self)@.regs[x as int] % 2,
    {
        let vx = self.registers[x as usize];
        self.registers.set(15, vx % 2);
        self.registers.set(x as usize, vx / 2);
    }

    /// `sub` (y-x): `VF` reports "no borrow", then `Vx` takes the wrapped
    /// difference `Vy - Vx`.
    pub fn sub_vy_vx_put_result_in_vx(&mut self, x: u8, y: u8)
        requires
            old(self)@.wf(),
            x < 16,
            y < 16,
        ensures
            final(self)@.wf(),
            final(self)@ == after_sub_yx(old(self)@, x, y),
            x != 15 ==> final(self)@.regs[x as int] == (old(self)@.regs[y as int] - old(self)@.regs[x as int] + 256) % 256 && final(self)@.regs[15] == (if old(self)@.regs[y as int] > old(self)@.regs[x as int] {
                1u8
            } else {
                0u8
            }),
    {
        let vx = self.registers[x as usize];
        let vy = self.registers[y as usize];
        let flag: u8 = if vy > vx {
            1
        } else {
            0
        };
        self.registers.set(15, flag);
        let diff: u16 = (vy as u16 + 256 - vx as u16) % 256;
        self.registers.set(x as usize, diff as u8);
    }

    /// `shift-left`: `VF` takes the bit shifted out (bit 7), then `Vx` is
    /// doubled modulo 256.
    pub fn shift_vx_left(&mut self, x: u8)
        requires
            old(self)@.wf(),
            x < 16,
        ensures
            final(self)@.wf(),
            final(self)@ == after_shl(old(self)@, x),
            x != 15 ==> final(self)@.regs[x as int] == (old(self)@.regs[x as int] * 2) % 256
                && final(self)@.regs[15] == old(self)@.regs[x as int] / 128,
    {
        let vx = self.registers[x as usize];
        self.registers.set(15, vx / 128);
        let doubled: u16 = (vx as u16 * 2) % 256;
        self.registers.set(x as usize, doubled as u8);
    }

    /// `load-index`: the index register takes the address.
    pub fn put_addr_in_index_register(&mut self, addr: u16)
        requires
            old(self)@.wf(),
        ensures
            final(self)@.wf(),
            final(self)@ == old(self)@.with_index(addr),
    {
        self.index_register = addr;
    }

    /// `jump-with-offset`: the program counter takes `nnn + V0`.
    pub fn jump_to_addr_with_v0_offset(&mut self, addr: u16)
        requires
            old(self)@.wf(),
            addr < 0x1000,
        ensures
            final(self)@.wf(),
            final(self)@ == old(self)@.with_pc((addr + old(self)@.regs[0]) as u16),
    {
        let v0 = self.registers[0];
        self.program_counter = addr + v0 as u16;
    }

    /// `random-and`: `Vx` takes a drawn byte masked with `kk`. The byte is
    /// a parameter, so the update is verified for every draw.
    pub fn store_random_value_in_vx(&mut self, x: u8, mask: u8, drawn: u8)
        requires
            old(self)@.wf(),
            x < 16,
        ensures
            final(self)@.wf(),
            final(self)@ == old(self)@.with_reg(x as int, drawn & mask),
            mask == 0 ==> final(self)@.regs[x as int] == 0,
    {
        proof {
            assert(drawn & 0 == 0) by (bit_vector);
        }
        self.registers.set(x as usize, drawn & mask);
    }

    /// `get-delay`: `Vx` takes the delay timer.
    pub fn put_delay_timer_in_reg_x(&mut self, x: u8)
        requires
            old(self)@.wf(),
            x < 16,
        ensures
            final(self)@.wf(),
            final(self)@ == old(self)@.with_reg(x as int, old(self)@.delay),
    {
        let d = self.delay_timer;
        self.registers.set(x as usize, d);
    }

    /// `wait-key`: with a key held, its hex value lands in `Vx`; with
    /// none, the program counter rolls back so the instruction retries,
    /// and the caller learns that the machine awaits input.
    pub fn wait_on_key_press(&mut self, x: u8, keys: u16) -> (got: bool)
        requires
            old(self)@.wf(),
            x < 16,
            old(self)@.pc >= 2,
        ensures
            final(self)@.wf(),
            final(self)@ == after_wait_key(old(self)@, x, keys),
            got == (spec_first_key(keys) < 16),
    {
        match first_pressed_key(keys) {
            Some(k) => {
                self.registers.set(x as usize, k);
                true
            },
            None => {
                self.program_counter = self.program_counter - 2;
                false
            },
        }
    }

    /// `key-pressed`: advances the program counter by two more when the
    /// key named by `Vx` is held; fatal if `Vx` names no key.
    pub fn skip_if_key_pressed(&mut self, x: u8, keys: u16) -> (r: Result<(), FaultKind>)
        requires
            old(self)@.wf(),
            x < 16,
            old(self)@.pc <= 0xFFFD,
        ensures
            final(self)@.wf(),
            old(self)@.regs[x as int] < 16 ==> r == Ok::<(), FaultKind>(()) && final(self)@ == old(
                self,
            )@.skip_if(spec_key_down(keys, old(self)@.regs[x as int])),
            old(self)@.regs[x as int] >= 16 ==> r == Err::<(), FaultKind>(FaultKind::OutOfBounds)
                && final(self)@ == old(self)@,
    {
        let vx = self.registers[x as usize];
        if vx >= 16 {
            return Err(FaultKind::OutOfBounds);
        }
        if is_key_down(keys, vx) {
            self.program_counter = self.program_counter + 2;
        }
        Ok(())
    }

    /// `key-not-pressed`: advances the program counter by two more when
    /// the key named by `Vx` is not held; fatal if `Vx` names no key.
    pub fn skip_if_key_not_pressed(&mut self, x: u8, keys: u16) -> (r: Result<(), FaultKind>)
        requires
            old(self)@.wf(),
            x < 16,
            old(self)@.pc <= 0xFFFD,
        ensures
            final(self)@.wf(),
            old(self)@.regs[x as int] < 16 ==> r == Ok::<(), FaultKind>(()) && final(self)@ == old(
                self,
            )@.skip_if(!spec_key_down(keys, old(self)@.regs[x as int])),
            old(self)@.regs[x as int] >= 16 ==> r == Err::<(), FaultKind>(FaultKind::OutOfBounds)
                && final(self)@ == old(self)@,
    {
        let vx = self.registers[x as usize];
        if vx >= 16 {
            return Err(FaultKind::OutOfBounds);
        }
        if !is_key_down(keys, vx) {
            self.program_counter = self.program_counter + 2;
        }
        Ok(())
    }

    /// `set-delay`: the delay timer takes `Vx`.
    pub fn set_vx_as_delay_timer(&mut self, x: u8)
        requires
            old(self)@.wf(),
            x < 16,
        ensures
            final(self)@.wf(),
            final(self)@ == old(self)@.with_delay(old(self)@.regs[x as int]),
    {
        self.delay_timer = self.registers[x as usize];
    }

    /// `set-sound`: the sound timer takes `Vx`.
    pub fn set_vx_as_sound_timer(&mut self, x: u8)
        requires
            old(self)@.wf(),
            x < 16,
        ensures
            final(self)@.wf(),
            final(self)@ == old(self)@.with_sound(old(self)@.regs[x as int]),
    {
        self.sound_timer = self.registers[x as usize];
    }

    /// `add-index`: the index register takes `index + Vx`, wrapping in
    /// the 16-bit address space.
    pub fn set_add_vx_to_index_memory(&mut self, x: u8)
        requires
            old(self)@.wf(),
            x < 16,
        ensures
            final(self)@.wf(),
            final(self)@ == old(self)@.with_index(
                ((old(self)@.index + old(self)@.regs[x as int]) % 0x10000) as u16,
            ),
    {
        let vx = self.registers[x as usize];
        let sum: u32 = self.index_register as u32 + vx as u32;
        self.index_register = (sum % 0x10000) as u16;
    }

    /// `sprite-address`: the index register takes the address of the
    /// built-in glyph for hex digit `Vx`; fatal if `Vx` names no digit.
    pub fn set_index_to_sprite_addr(&mut self, x: u8) -> (r: Result<(), FaultKind>)
        requires
            old(self)@.wf(),
            x < 16,
        ensures
            final(self)@.wf(),
            old(self)@.regs[x as int] < 16 ==> r == Ok::<(), FaultKind>(()) && final(self)@ == old(self)@.with_index((5 * old(self)@.regs[x as int]) as u16),
            old(self)@.regs[x as int] >= 16 ==> r == Err::<(), FaultKind>(FaultKind::OutOfBounds)
                && final(self)@ == old(self)@,
    {
        let vx = self.registers[x as usize];
        if vx >= 16 {
            return Err(FaultKind::OutOfBounds);
        }
        self.index_register = 5 * vx as u16;
        Ok(())
    }

    /// `bcd-store`: the decimal digits of `Vx` land at
    /// `memory[index..index+3]`; fatal if that runs past memory.
    pub fn store_bcd_in_memory(&mut self, x: u8) -> (r: Result<(), FaultKind>)
        requires
            old(self)@.wf(),
            x < 16,
        ensures
            final(self)@.wf(),
            old(self)@.index + 3 <= MEM_SIZE ==> r == Ok::<(), FaultKind>(()) && final(self)@
                == after_bcd(old(self)@, x),
            old(self)@.index + 3 > MEM_SIZE ==> r == Err::<(), FaultKind>(FaultKind::OutOfBounds)
                && final(self)@ == old(self)@,
    {
        if self.index_register as usize + 3 > MEM_SIZE {
            return Err(FaultKind::OutOfBounds);
        }
        let vx = self.registers[x as usize];
        let i0 = self.index_register as usize;
        self.memory.set(i0, vx / 100);
        self.memory.set(i0 + 1, (vx / 10) % 10);
        self.memory.set(i0 + 2, vx % 10);
        Ok(())
    }

    /// `reg-dump`: `V0..=Vx` are stored at `memory[index..]`; fatal if
    /// that runs past memory.
    pub fn store_reg_0_to_x_in_mem_at_i(&mut self, x: u8) -> (r: Result<(), FaultKind>)
        requires
            old(self)@.wf(),
            x < 16,
        ensures
            final(self)@.wf(),
            old(self)@.index + x + 1 <= MEM_SIZE ==> r == Ok::<(), FaultKind>(()) && final(self)@
                == after_reg_dump(old(self)@, x),
            old(self)@.index + x + 1 > MEM_SIZE ==> r == Err::<(), FaultKind>(
                FaultKind::OutOfBounds,
            ) && final(self)@ == old(self)@,
    {
        if self.index_register as usize + x as usize + 1 > MEM_SIZE {
            return Err(FaultKind::OutOfBounds);
        }
        let ghost m0 = self@;
        let i0 = self.index_register as usize;
        let mut k: usize = 0;
        while k <= x as usize
            invariant
                m0.wf(),
                x < 16,
                i0 == m0.index,
                i0 + x + 1 <= MEM_SIZE,
                k <= x + 1,
                self@ == (MachineView {
                    mem: Seq::new(m0.mem.len(), |a: int| if i0 <= a < i0 + k {
                        m0.regs[a - i0]
                    } else {
                        m0.mem[a]
                    }),
                    ..m0
                }),
            decreases x + 1 - k,
        {
            let v = self.registers[k];
            self.memory.set(i0 + k, v);
            k = k + 1;
            proof {
                assert(self@.mem =~= Seq::new(m0.mem.len(), |a: int| if i0 <= a < i0 + k {
                    m0.regs[a - i0]
                } else {
                    m0.mem[a]
                }));
            }
        }
        proof {
            assert(self@.mem =~= after_reg_dump(m0, x).mem);
        }
        Ok(())
    }

    /// `reg-load`: `V0..=Vx` are read back from `memory[index..]`; fatal
    /// if that runs past memory.
    pub fn read_memory_into_registers(&mut self, x: u8) -> (r: Result<(), FaultKind>)
        requires
            old(self)@.wf(),
            x < 16,
        ensures
            final(self)@.wf(),
            old(self)@.index + x + 1 <= MEM_SIZE ==> r == Ok::<(), FaultKind>(()) && final(self)@
                == after_reg_load(old(self)@, x),
            old(self)@.index + x + 1 > MEM_SIZE ==> r == Err::<(), FaultKind>(
                FaultKind::OutOfBounds,
            ) && final(self)@ == old(self)@,
    {
        if self.index_register as usize + x as usize + 1 > MEM_SIZE {
            return Err(FaultKind::OutOfBounds);
        }
        let ghost m0 = self@;
        let i0 = self.index_register as usize;
        let mut k: usize = 0;
        while k <= x as usize
            invariant
                m0.wf(),
                x < 16,
                i0 == m0.index,
                i0 + x + 1 <= MEM_SIZE,
                k <= x + 1,
                self@ == (MachineView {
                    regs: Seq::new(m0.regs.len(), |t: int| if 0 <= t < k {
                        m0.mem[i0 + t]
                    } else {
                        m0.regs[t]
                    }),
                    ..m0
                }),
            decreases x + 1 - k,
        {
            let v = self.memory[i0 + k];
            self.registers.set(k, v);
            k = k + 1;
            proof {
                assert(self@.regs =~= Seq::new(m0.regs.len(), |t: int| if 0 <= t < k {
                    m0.mem[i0 + t]
                } else {
                    m0.regs[t]
                }));
            }
        }
        proof {
            assert(self@.regs =~= after_reg_load(m0, x).regs);
        }
        Ok(())
    }

    /// `draw`: XOR-blits the `n`-row sprite at `memory[index..index+n]`
    /// onto the display at `(Vx, Vy)`; `VF` reports the collision; fatal
    /// if the sprite read runs past memory.
    pub fn draw_sprite(&mut self, monitor: &mut Monitor, x: u8, y: u8, n: u8) -> (r: Result<
        (),
        FaultKind,
    >)
        requires
            old(self)@.wf(),
            x < 16,
            y < 16,
            n < 16,
            old(monitor)@.len() == NUM_PIXELS,
        ensures
            final(self)@.wf(),
            final(monitor)@.len() == NUM_PIXELS,
            (n > 0 && old(self)@.index + n > MEM_SIZE) ==> r == Err::<(), FaultKind>(
                FaultKind::OutOfBounds,
            ) && final(self)@ == old(self)@ && final(monitor)@ == old(monitor)@,
            !(n > 0 && old(self)@.index + n > MEM_SIZE) ==> r == Ok::<(), FaultKind>(()) && final(self)@ == after_draw(old(self)@, old(monitor)@, x, y, n).0 && final(monitor)@ == after_draw(
                old(self)@,
                old(monitor)@,
                x,
                y,
                n,
            ).1,
    {
        if n > 0 && self.index_register as usize + n as usize > MEM_SIZE {
            return Err(FaultKind::OutOfBounds);
        }
        let ghost m0 = self@;
        let i0 = self.index_register as usize;
        let mut rows: Vec<u8> = Vec::new();
        let mut k: usize = 0;
        while k < n as usize
            invariant
                m0.wf(),
                n < 16,
                i0 == m0.index,
                n > 0 ==> i0 + n <= MEM_SIZE,
                self@ == m0,
                k <= n,
                rows@.len() == k,
                forall|t: int| 0 <= t < k ==> rows@[t] == m0.mem[i0 + t],
            decreases n - k,
        {
            let b = self.memory[i0 + k];
            rows.push(b);
            k = k + 1;
        }
        proof {
            if n == 0 {
                assert(rows@ =~= Seq::<u8>::empty());
            } else {
                assert(rows@ =~= m0.mem.subrange(m0.index as int, m0.index + n));
            }
        }
        let vx = self.registers[x as usize];
        let vy = self.registers[y as usize];
        let col = monitor.xor_sprite(vx, vy, &rows);
        let flag: u8 = if col {
            1
        } else {
            0
        };
        self.registers.set(15, flag);
        Ok(())
    }
}

} // verus!

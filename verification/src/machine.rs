//! Machine state: memory, registers, stack, program counter, index
//! register and the two countdown timers, together with its mathematical
//! view and the operations that install the built-in glyph sprites and a
//! program image.

use vstd::prelude::*;

verus! {

/// Bytes of addressable memory.
pub const MEM_SIZE: usize = 4096;

/// Number of general-purpose registers.
pub const NUM_REGS: usize = 16;

/// Depth of the call stack.
pub const STACK_DEPTH: usize = 16;

/// Conventional entry address of a loaded program.
pub const ENTRY: u16 = 0x200;

/// Mathematical view of the machine state.
#[verifier::ext_equal]
pub ghost struct MachineView {
    pub mem: Seq<u8>,
    pub regs: Seq<u8>,
    pub stack: Seq<u16>,
    pub pc: u16,
    pub index: u16,
    pub delay: u8,
    pub sound: u8,
}

impl MachineView {
    /// Well-formedness: the sizes the architecture fixes.
    pub open spec fn wf(self) -> bool {
        &&& self.mem.len() == MEM_SIZE
        &&& self.regs.len() == NUM_REGS
        &&& self.stack.len() <= STACK_DEPTH
    }

    pub open spec fn with_reg(self, i: int, v: u8) -> MachineView {
        MachineView { regs: self.regs.update(i, v), ..self }
    }

    pub open spec fn with_mem(self, a: int, v: u8) -> MachineView {
        MachineView { mem: self.mem.update(a, v), ..self }
    }

    pub open spec fn with_pc(self, pc: u16) -> MachineView {
        MachineView { pc: pc, ..self }
    }

    pub open spec fn with_index(self, index: u16) -> MachineView {
        MachineView { index: index, ..self }
    }

    pub open spec fn with_stack(self, stack: Seq<u16>) -> MachineView {
        MachineView { stack: stack, ..self }
    }

    pub open spec fn with_delay(self, delay: u8) -> MachineView {
        MachineView { delay: delay, ..self }
    }

    pub open spec fn with_sound(self, sound: u8) -> MachineView {
        MachineView { sound: sound, ..self }
    }

    /// The conditional extra advance the skip instructions make.
    pub open spec fn skip_if(self, cond: bool) -> MachineView {
        if cond {
            self.with_pc((self.pc + 2) as u16)
        } else {
            self
        }
    }
}

/// The machine state. `registers[0xF]` is the carry/borrow/collision flag;
/// the stack holds return addresses, its length playing the role of the
/// stack pointer.
pub struct Chip8 {
    pub memory: Vec<u8>,
    pub registers: Vec<u8>,
    pub stack: Vec<u16>,
    pub program_counter: u16,
    pub index_register: u16,
    pub delay_timer: u8,
    pub sound_timer: u8,
}

impl View for Chip8 {
    type V = MachineView;

    open spec fn view(&self) -> MachineView {
        MachineView {
            mem: self.memory@,
            regs: self.registers@,
            stack: self.stack@,
            pc: self.program_counter,
            index: self.index_register,
            delay: self.delay_timer,
            sound: self.sound_timer,
        }
    }
}

/// A vector of `n` zero bytes.
fn zeroed_bytes(n: usize) -> (v: Vec<u8>)
    ensures
        v@.len() == n,
        forall|i: int| 0 <= i < n ==> v@[i] == 0u8,
{
    let mut v: Vec<u8> = Vec::new();
    let mut k: usize = 0;
    while k < n
        invariant
            k <= n,
            v@.len() == k,
            forall|i: int| 0 <= i < k ==> v@[i] == 0u8,
        decreases n - k,
    {
        v.push(0);
        k = k + 1;
    }
    v
}

/// The five rows of the built-in glyph sprite for hex digit `d`.
pub open spec fn spec_glyph(d: int) -> Seq<u8> {
    if d == 0x0 {
        seq![0xF0u8, 0x90u8, 0x90u8, 0x90u8, 0xF0u8]
    } else if d == 0x1 {
        seq![0x20u8, 0x60u8, 0x20u8, 0x20u8, 0x70u8]
    } else if d == 0x2 {
        seq![0xF0u8, 0x10u8, 0xF0u8, 0x80u8, 0xF0u8]
    } else if d == 0x3 {
        seq![0xF0u8, 0x10u8, 0xF0u8, 0x10u8, 0xF0u8]
    } else if d == 0x4 {
        seq![0x90u8, 0x90u8, 0xF0u8, 0x10u8, 0x10u8]
    } else if d == 0x5 {
        seq![0xF0u8, 0x80u8, 0xF0u8, 0x10u8, 0xF0u8]
    } else if d == 0x6 {
        seq![0xF0u8, 0x80u8, 0xF0u8, 0x90u8, 0xF0u8]
    } else if d == 0x7 {
        seq![0xF0u8, 0x10u8, 0x20u8, 0x40u8, 0x40u8]
    } else if d == 0x8 {
        seq![0xF0u8, 0x90u8, 0xF0u8, 0x90u8, 0xF0u8]
    } else if d == 0x9 {
        seq![0xF0u8, 0x90u8, 0xF0u8, 0x10u8, 0xF0u8]
    } else if d == 0xA {
        seq![0xF0u8, 0x90u8, 0xF0u8, 0x90u8, 0x90u8]
    } else if d == 0xB {
        seq![0xE0u8, 0x90u8, 0xE0u8, 0x90u8, 0xE0u8]
    } else if d == 0xC {
        seq![0xF0u8, 0x80u8, 0x80u8, 0x80u8, 0xF0u8]
    } else if d == 0xD {
        seq![0xE0u8, 0x90u8, 0x90u8, 0x90u8, 0xE0u8]
    } else if d == 0xE {
        seq![0xF0u8, 0x80u8, 0xF0u8, 0x80u8, 0xF0u8]
    } else {
        seq![0xF0u8, 0x80u8, 0xF0u8, 0x80u8, 0x80u8]
    }
}

/// The byte at offset `a` of the installed sprite region: the glyphs lie
/// back to back, five bytes each, digit 0 first.
pub open spec fn spec_sprite_byte(a: int) -> u8 {
    spec_glyph(a / 5)[a % 5]
}

/// A five-byte vector.
fn five_bytes(r0: u8, r1: u8, r2: u8, r3: u8, r4: u8) -> (v: Vec<u8>)
    ensures
        v@ == seq![r0, r1, r2, r3, r4],
{
    let mut v: Vec<u8> = Vec::new();
    v.push(r0);
    v.push(r1);
    v.push(r2);
    v.push(r3);
    v.push(r4);
    proof {
        assert(v@ =~= seq![r0, r1, r2, r3, r4]);
    }
    v
}

/// The glyph rows of hex digit `d`.
fn glyph_rows(d: u8) -> (v: Vec<u8>)
    requires
        d < 16,
    ensures
        v@ == spec_glyph(d as int),
{
    if d == 0x0 {
        five_bytes(0xF0, 0x90, 0x90, 0x90, 0xF0)
    } else if d == 0x1 {
        five_bytes(0x20, 0x60, 0x20, 0x20, 0x70)
    } else if d == 0x2 {
        five_bytes(0xF0, 0x10, 0xF0, 0x80, 0xF0)
    } else if d == 0x3 {
        five_bytes(0xF0, 0x10, 0xF0, 0x10, 0xF0)
    } else if d == 0x4 {
        five_bytes(0x90, 0x90, 0xF0, 0x10, 0x10)
    } else if d == 0x5 {
        five_bytes(0xF0, 0x80, 0xF0, 0x10, 0xF0)
    } else if d == 0x6 {
        five_bytes(0xF0, 0x80, 0xF0, 0x90, 0xF0)
    } else if d == 0x7 {
        five_bytes(0xF0, 0x10, 0x20, 0x40, 0x40)
    } else if d == 0x8 {
        five_bytes(0xF0, 0x90, 0xF0, 0x90, 0xF0)
    } else if d == 0x9 {
        five_bytes(0xF0, 0x90, 0xF0, 0x10, 0xF0)
    } else if d == 0xA {
        five_bytes(0xF0, 0x90, 0xF0, 0x90, 0x90)
    } else if d == 0xB {
        five_bytes(0xE0, 0x90, 0xE0, 0x90, 0xE0)
    } else if d == 0xC {
        five_bytes(0xF0, 0x80, 0x80, 0x80, 0xF0)
    } else if d == 0xD {
        five_bytes(0xE0, 0x90, 0x90, 0x90, 0xE0)
    } else if d == 0xE {
        five_bytes(0xF0, 0x80, 0xF0, 0x80, 0xF0)
    } else {
        five_bytes(0xF0, 0x80, 0xF0, 0x80, 0x80)
    }
}

impl Chip8 {
    /// A freshly powered-on machine: zeroed memory, registers and timers,
    /// empty stack, program counter at the program entry address.
    pub fn new() -> (m: Chip8)
        ensures
            m@.wf(),
            forall|i: int| 0 <= i < MEM_SIZE ==> m@.mem[i] == 0u8,
            forall|i: int| 0 <= i < NUM_REGS ==> m@.regs[i] == 0u8,
            m@.stack.len() == 0,
            m@.pc == ENTRY,
            m@.index == 0,
            m@.delay == 0,
            m@.sound == 0,
    {
        Chip8 {
            memory: zeroed_bytes(MEM_SIZE),
            registers: zeroed_bytes(NUM_REGS),
            stack: Vec::new(),
            program_counter: ENTRY,
            index_register: 0,
            delay_timer: 0,
            sound_timer: 0,
        }
    }

    /// Writes a raw program image into memory starting at the entry
    /// address. Everything else is untouched.
    pub fn load_program(&mut self, program: &Vec<u8>)
        requires
            old(self)@.wf(),
            program@.len() <= MEM_SIZE - ENTRY,
        ensures
            final(self)@.wf(),
            final(self)@ == (MachineView {
                mem: Seq::new(MEM_SIZE as nat, |a: int| if ENTRY <= a < ENTRY + program@.len() {
                    program@[a - ENTRY]
                } else {
                    old(self)@.mem[a]
                }),
                ..old(self)@
            }),
    {
        let ghost m0 = self@;
        let mut k: usize = 0;
        while k < program.len()
            invariant
                m0.wf(),
                program@.len() <= MEM_SIZE - ENTRY,
                k <= program@.len(),
                self@ == (MachineView {
                    mem: Seq::new(MEM_SIZE as nat, |a: int| if ENTRY <= a < ENTRY + k {
                        program@[a - ENTRY]
                    } else {
                        m0.mem[a]
                    }),
                    ..m0
                }),
            decreases program@.len() - k,
        {
            self.memory.set(ENTRY as usize + k, program[k]);
            k = k + 1;
            proof {
                assert(self@.mem =~= Seq::new(MEM_SIZE as nat, |a: int| if ENTRY <= a < ENTRY
                    + k {
                    program@[a - ENTRY]
                } else {
                    m0.mem[a]
                }));
            }
        }
    }

    /// Installs the sixteen built-in glyph sprites back to back at the
    /// bottom of memory, five bytes each, digit 0 first. Everything else
    /// is untouched.
    pub fn load_default_sprites(&mut self)
        requires
            old(self)@.wf(),
        ensures
            final(self)@.wf(),
            final(self)@ == (MachineView {
                mem: Seq::new(MEM_SIZE as nat, |a: int| if 0 <= a < 80 {
                    spec_sprite_byte(a)
                } else {
                    old(self)@.mem[a]
                }),
                ..old(self)@
            }),
            forall|d: int, r: int|
                0 <= d < 16 && 0 <= r < 5 ==> final(self)@.mem[5 * d + r] == spec_glyph(d)[r],
    {
        let ghost m0 = self@;
        let mut d: usize = 0;
        while d < 16
            invariant
                m0.wf(),
                d <= 16,
                self@ == (MachineView {
                    mem: Seq::new(MEM_SIZE as nat, |a: int| if 0 <= a < 5 * d {
                        spec_sprite_byte(a)
                    } else {
                        m0.mem[a]
                    }),
                    ..m0
                }),
            decreases 16 - d,
        {
            let g = glyph_rows(d as u8);
            let mut r: usize = 0;
            while r < 5
                invariant
                    m0.wf(),
                    d < 16,
                    r <= 5,
                    g@ == spec_glyph(d as int),
                    self@ == (MachineView {
                        mem: Seq::new(MEM_SIZE as nat, |a: int| if 0 <= a < 5 * d + r {
                            spec_sprite_byte(a)
                        } else {
                            m0.mem[a]
                        }),
                        ..m0
                    }),
                decreases 5 - r,
            {
                self.memory.set(5 * d + r, g[r]);
                r = r + 1;
                proof {
                    let a0 = 5 * d + (r - 1);
                    assert(a0 / 5 == d && a0 % 5 == r - 1);
                    assert(self@.mem =~= Seq::new(MEM_SIZE as nat, |a: int| if 0 <= a < 5 * d
                        + r {
                        spec_sprite_byte(a)
                    } else {
                        m0.mem[a]
                    }));
                }
            }
            d = d + 1;
        }
        proof {
            assert(self@.mem =~= Seq::new(MEM_SIZE as nat, |a: int| if 0 <= a < 80 {
                spec_sprite_byte(a)
            } else {
                m0.mem[a]
            }));
            assert forall|di: int, ri: int| 0 <= di < 16 && 0 <= ri < 5 implies self@.mem[5 * di
                + ri] == spec_glyph(di)[ri] by {
                assert((5 * di + ri) / 5 == di && (5 * di + ri) % 5 == ri);
                assert(0 <= 5 * di + ri < 80);
            }
        }
    }

    /// Decrements the delay timer by one, stopping at zero. Driven by the
    /// host at its own cadence, never by the execution loop.
    pub fn tick_delay(&mut self)
        ensures
            final(self)@ == old(self)@.with_delay(
                if old(self)@.delay > 0 {
                    (old(self)@.delay - 1) as u8
                } else {
                    0u8
                },
            ),
    {
        if self.delay_timer > 0 {
            self.delay_timer = self.delay_timer - 1;
        }
    }

    /// Decrements the sound timer by one, stopping at zero.
    pub fn tick_sound(&mut self)
        ensures
            final(self)@ == old(self)@.with_sound(
                if old(self)@.sound > 0 {
                    (old(self)@.sound - 1) as u8
                } else {
                    0u8
                },
            ),
    {
        if self.sound_timer > 0 {
            self.sound_timer = self.sound_timer - 1;
        }
    }

    /// Whether the sound timer is running, which is when the host should
    /// play its tone.
    pub fn sound_active(&self) -> (r: bool)
        ensures
            r == (self@.sound > 0),
    {
        self.sound_timer > 0
    }
}

} // verus!

//! The machine: memory, registers, call stack, frame buffer, timers,
//! keyboard and quirks, with the single-step fetch/decode/execute operation.

use vstd::prelude::*;

use crate::errors::RuntimeError;
use crate::instructions::Instr;
use crate::keyboard::{lemma_key_index_bijective, Key, Keyboard};
use crate::numtypes::{lemma_u12_bounded, u12, u4};
use crate::quirks::Quirks;
use crate::reg::GPReg;
use crate::semantics::{
    drw_upto, erased_upto, lemma_coord_mask, lemma_drw_upto_done, lemma_drw_upto_row,
    lemma_drw_upto_step_clip, lemma_drw_upto_step_in, lemma_drw_upto_zero, lemma_load_regs_len,
    lemma_mask12_bound, lemma_mask12_is_mod, lemma_sprite_bit, lemma_store_regs_len, load_regs,
    pc2, spec_bcd, spec_drw, spec_exec, spec_exec_err, spec_fetch, spec_popreg, spec_pushreg,
    spec_tick, state_wf, step_rel, store_regs, C8State, RAM_SIZE, ROM_MAX_SIZE, STACK_LIMIT,
    VRAM_HEIGHT, VRAM_WH, VRAM_WIDTH,
};
use crate::timers::Timers;

verus! {

/// Relies on rand::random: a value drawn from the thread-local generator,
/// about which nothing is promised.
pub assume_specification<T>[ rand::random::<T> ]() -> (r: T)
    where
        rand::distributions::Standard: rand::distributions::Distribution<T>,
;

/// The five-byte font glyph for hexadecimal digit `g`.
pub open spec fn font_glyph(g: int) -> Seq<u8> {
    if g == 0x0 {
        seq![0xF0, 0x90, 0x90, 0x90, 0xF0]
    } else if g == 0x1 {
        seq![0x20, 0x60, 0x20, 0x20, 0x70]
    } else if g == 0x2 {
        seq![0xF0, 0x10, 0xF0, 0x80, 0xF0]
    } else if g == 0x3 {
        seq![0xF0, 0x10, 0xF0, 0x10, 0xF0]
    } else if g == 0x4 {
        seq![0x90, 0x90, 0xF0, 0x10, 0x10]
    } else if g == 0x5 {
        seq![0xF0, 0x80, 0xF0, 0x10, 0xF0]
    } else if g == 0x6 {
        seq![0xF0, 0x80, 0xF0, 0x90, 0xF0]
    } else if g == 0x7 {
        seq![0xF0, 0x10, 0x20, 0x40, 0x40]
    } else if g == 0x8 {
        seq![0xF0, 0x90, 0xF0, 0x90, 0xF0]
    } else if g == 0x9 {
        seq![0xF0, 0x90, 0xF0, 0x10, 0xF0]
    } else if g == 0xA {
        seq![0xF0, 0x90, 0xF0, 0x90, 0x90]
    } else if g == 0xB {
        seq![0xE0, 0x90, 0xE0, 0x90, 0xE0]
    } else if g == 0xC {
        seq![0xF0, 0x80, 0x80, 0x80, 0xF0]
    } else if g == 0xD {
        seq![0xE0, 0x90, 0x90, 0x90, 0xE0]
    } else if g == 0xE {
        seq![0xF0, 0x80, 0xF0, 0x80, 0xF0]
    } else {
        seq![0xF0, 0x80, 0xF0, 0x80, 0x80]
    }
}

/// The byte at offset `j` of the font table: row `j % 5` of glyph `j / 5`.
pub open spec fn font_at(j: int) -> u8 {
    font_glyph(j / 5)[j % 5]
}

/// Row `row` of the font glyph for digit `g`.
fn font_byte(g: usize, row: usize) -> (b: u8)
    requires
        g < 0x10,
        row < 5,
    ensures
        b == font_glyph(g as int)[row as int],
{
    match g {
        0x0 => match row {
            0 => 0xF0,
            1 => 0x90,
            2 => 0x90,
            3 => 0x90,
            _ => 0xF0,
        },
        0x1 => match row {
            0 => 0x20,
            1 => 0x60,
            2 => 0x20,
            3 => 0x20,
            _ => 0x70,
        },
        0x2 => match row {
            0 => 0xF0,
            1 => 0x10,
            2 => 0xF0,
            3 => 0x80,
            _ => 0xF0,
        },
        0x3 => match row {
            0 => 0xF0,
            1 => 0x10,
            2 => 0xF0,
            3 => 0x10,
            _ => 0xF0,
        },
        0x4 => match row {
            0 => 0x90,
            1 => 0x90,
            2 => 0xF0,
            3 => 0x10,
            _ => 0x10,
        },
        0x5 => match row {
            0 => 0xF0,
            1 => 0x80,
            2 => 0xF0,
            3 => 0x10,
            _ => 0xF0,
        },
        0x6 => match row {
            0 => 0xF0,
            1 => 0x80,
            2 => 0xF0,
            3 => 0x90,
            _ => 0xF0,
        },
        0x7 => match row {
            0 => 0xF0,
            1 => 0x10,
            2 => 0x20,
            3 => 0x40,
            _ => 0x40,
        },
        0x8 => match row {
            0 => 0xF0,
            1 => 0x90,
            2 => 0xF0,
            3 => 0x90,
            _ => 0xF0,
        },
        0x9 => match row {
            0 => 0xF0,
            1 => 0x90,
            2 => 0xF0,
            3 => 0x10,
            _ => 0xF0,
        },
        0xA => match row {
            0 => 0xF0,
            1 => 0x90,
            2 => 0xF0,
            3 => 0x90,
            _ => 0x90,
        },
        0xB => match row {
            0 => 0xE0,
            1 => 0x90,
            2 => 0xE0,
            3 => 0x90,
            _ => 0xE0,
        },
        0xC => match row {
            0 => 0xF0,
            1 => 0x80,
            2 => 0x80,
            3 => 0x80,
            _ => 0xF0,
        },
        0xD => match row {
            0 => 0xE0,
            1 => 0x90,
            2 => 0x90,
            3 => 0x90,
            _ => 0xE0,
        },
        0xE => match row {
            0 => 0xF0,
            1 => 0x80,
            2 => 0xF0,
            3 => 0x80,
            _ => 0xF0,
        },
        _ => match row {
            0 => 0xF0,
            1 => 0x80,
            2 => 0xF0,
            3 => 0x80,
            _ => 0x80,
        },
    }
}

/// The machine. Owns all state exclusively; mutated in place by every
/// [`Chip8::step`] call.
#[derive(Debug)]
pub struct Chip8 {
    /// 4096 bytes: the font below `0x50`, the program from `0x200`.
    pub ram: [u8; RAM_SIZE],
    /// The sixteen general-purpose registers.
    pub gpregs: [u8; 0x10],
    /// The 12-bit index register `I`.
    pub i_reg: u12,
    /// The program counter.
    pub pc: u16,
    /// The stack pointer: how many return addresses are live.
    pub sp: usize,
    /// The call stack.
    pub stack: [u16; STACK_LIMIT],
    /// The 64x32 frame buffer, row-major.
    pub vram: [bool; VRAM_WH],
    /// The 16 key-down flags; written by the external input collaborator.
    pub keyboard: Keyboard,
    halted: bool,
    quirks: Quirks,
    /// The two 60 Hz countdown timers.
    pub timers: Timers,
}

impl View for Chip8 {
    type V = C8State;

    closed spec fn view(&self) -> C8State {
        C8State {
            ram: self.ram@,
            regs: self.gpregs@,
            i: self.i_reg@,
            pc: self.pc,
            sp: self.sp as int,
            stack: self.stack@,
            vram: self.vram@,
            keys: self.keyboard@,
            dt: self.timers@.dt,
            st: self.timers@.st,
            halted: self.halted,
            quirks: self.quirks,
        }
    }
}

impl Chip8 {
    /// Well-formedness: the stack pointer within capacity and the index
    /// register within 12 bits. Established by the constructor, preserved by
    /// every step.
    pub open spec fn wf(&self) -> bool {
        state_wf(self@)
    }

    /// Writes the 16-glyph font table to the first 0x50 bytes of memory.
    fn copy_font(ram: &mut [u8; RAM_SIZE])
        ensures
            final(ram)@.len() == RAM_SIZE,
            forall|j: int| 0 <= j < 0x50 ==> final(ram)@[j] == font_at(j),
            forall|j: int| 0x50 <= j < RAM_SIZE ==> final(ram)@[j] == old(ram)@[j],
    {
        let mut k: usize = 0;
        while k < 0x50
            invariant
                k <= 0x50,
                ram@.len() == RAM_SIZE,
                forall|j: int| 0 <= j < k ==> ram@[j] == font_at(j),
                forall|j: int| k <= j < RAM_SIZE ==> ram@[j] == old(ram)@[j],
            decreases 0x50 - k,
        {
            ram[k] = font_byte(k / 5, k % 5);
            k = k + 1;
        }
    }

    /// Whether the machine has halted. The engine sets the flag when it
    /// detects a jump to the jump's own address; drivers may set or clear it
    /// freely to pause and resume.
    pub fn is_halted(&self) -> (r: bool)
        ensures
            r == self@.halted,
    {
        self.halted
    }

    /// Sets or clears the halted flag without touching any other state.
    pub fn set_halted(&mut self, halt: bool)
        ensures
            final(self)@ == (C8State { halted: halt, ..old(self)@ }),
    {
        self.halted = halt;
    }

    /// A fresh machine: the font copied into low memory, the program copied
    /// at `0x200`, everything else zeroed, the program counter at `0x200`.
    pub fn load_rom(quirks: Quirks, rom: &[u8]) -> (c8: Chip8)
        requires
            rom@.len() < ROM_MAX_SIZE,
        ensures
            c8.wf(),
            forall|j: int| 0 <= j < 0x50 ==> c8@.ram[j] == font_at(j),
            forall|j: int| 0x50 <= j < 0x200 ==> c8@.ram[j] == 0,
            forall|j: int| 0 <= j < rom@.len() ==> c8@.ram[0x200 + j] == rom@[j],
            forall|j: int| 0x200 + rom@.len() <= j < RAM_SIZE ==> c8@.ram[j] == 0,
            forall|j: int| 0 <= j < 0x10 ==> c8@.regs[j] == 0,
            forall|j: int| 0 <= j < STACK_LIMIT ==> c8@.stack[j] == 0,
            forall|j: int| 0 <= j < VRAM_WH ==> !c8@.vram[j],
            forall|j: int| 0 <= j < 0x10 ==> !c8@.keys[j],
            c8@.i == 0,
            c8@.pc == 0x200,
            c8@.sp == 0,
            c8@.dt == 0,
            c8@.st == 0,
            !c8@.halted,
            c8@.quirks == quirks,
    {
        proof {
            assert(0u16 & 0xFFF == 0) by (bit_vector);
        }
        let mut c8 = Chip8 {
            ram: [0u8;RAM_SIZE],
            gpregs: [0u8;0x10],
            i_reg: u12::of(0x0),
            pc: 0x200,
            sp: 0x0,
            stack: [0u16;STACK_LIMIT],
            vram: [false;VRAM_WH],
            keyboard: Keyboard::default(),
            halted: false,
            quirks,
            timers: Timers::new(),
        };

        Chip8::copy_font(&mut c8.ram);

        let ghost c0 = c8;
        let mut idx: usize = 0;
        while idx < rom.len()
            invariant
                idx <= rom@.len(),
                rom@.len() < ROM_MAX_SIZE,
                c8.ram@.len() == RAM_SIZE,
                forall|j: int| 0 <= j < 0x50 ==> c8.ram@[j] == font_at(j),
                forall|j: int| 0x50 <= j < 0x200 ==> c8.ram@[j] == 0,
                forall|j: int| 0 <= j < idx ==> c8.ram@[0x200 + j] == rom@[j],
                forall|j: int| 0x200 + idx <= j < RAM_SIZE ==> c8.ram@[j] == 0,
                c8.gpregs == c0.gpregs,
                c8.i_reg == c0.i_reg,
                c8.pc == c0.pc,
                c8.sp == c0.sp,
                c8.stack == c0.stack,
                c8.vram == c0.vram,
                c8.keyboard@ == c0.keyboard@,
                c8.timers@ == c0.timers@,
                c8.halted == c0.halted,
                c8.quirks == c0.quirks,
            decreases rom@.len() - idx,
        {
            c8.ram[0x200 + idx] = rom[idx];
            idx = idx + 1;
        }

        c8
    }

    /// The draw opcode: XOR-blits an `n`-row sprite read from memory at `I`
    /// to the wrapped start `(Vx & 63, Vy & 31)`, clipping sprite pixels
    /// that fall outside the frame, and sets `VF` to the collision bit.
    fn op_drw(&mut self, x: GPReg, y: GPReg, size: u4)
        requires
            old(self).wf(),
        ensures
            final(self).wf(),
            final(self)@ == spec_drw(old(self)@, x, y, size@ as int),
    {
        let ghost s = self@;
        self.gpregs[0xF] = 0;
        let x_start: u8 = self.gpregs[x.to_idx()] & 63;
        let y_start: u8 = self.gpregs[y.to_idx()] & 31;
        let n: usize = size.get() as usize;
        let base_i: u16 = self.i_reg.get();
        proof {
            lemma_coord_mask(self.gpregs@[x.spec_idx()] as u8);
            lemma_coord_mask(self.gpregs@[y.spec_idx()] as u8);
        }

        let mut vram = self.vram;
        let mut collision = false;
        proof {
            lemma_drw_upto_zero(s.vram, self.ram@, s.i as int, x_start as int, y_start as int);
        }

        let mut dy: usize = 0;
        while dy < n
            invariant
                dy <= n,
                n <= 0xFF,
                s == old(self)@,
                state_wf(s),
                base_i == s.i,
                x_start < 64,
                y_start < 32,
                self.ram@ == s.ram,
                vram@.len() == VRAM_WH,
                vram@ == drw_upto(
                    s.vram,
                    self.ram@,
                    s.i as int,
                    x_start as int,
                    y_start as int,
                    dy as int,
                    0,
                ),
                collision == erased_upto(
                    s.vram,
                    self.ram@,
                    s.i as int,
                    x_start as int,
                    y_start as int,
                    dy as int,
                    0,
                ),
            decreases n - dy,
        {
            let row_base: u16 = base_i + dy as u16;
            let row_addr: u16 = row_base & 0xFFF;
            proof {
                lemma_mask12_bound(row_base);
                lemma_mask12_is_mod(row_base);
            }
            let row_byte: u8 = self.ram[row_addr as usize];

            let mut dx: usize = 0;
            while dx < 8
                invariant
                    dx <= 8,
                    dy < n,
                    n <= 0xFF,
                    s == old(self)@,
                    state_wf(s),
                    x_start < 64,
                    y_start < 32,
                    self.ram@ == s.ram,
                    vram@.len() == VRAM_WH,
                    row_byte == self.ram@[(s.i + dy as int) % 0x1000],
                    vram@ == drw_upto(
                        s.vram,
                        self.ram@,
                        s.i as int,
                        x_start as int,
                        y_start as int,
                        dy as int,
                        dx as int,
                    ),
                    collision == erased_upto(
                        s.vram,
                        self.ram@,
                        s.i as int,
                        x_start as int,
                        y_start as int,
                        dy as int,
                        dx as int,
                    ),
                decreases 8 - dx,
            {
                let mask: u8 = 0x80u8 >> (dx as u8);
                let bit: bool = row_byte & mask == mask;
                proof {
                    lemma_sprite_bit(row_byte, dx as u8);
                }

                let xc: usize = x_start as usize + dx;
                let yc: usize = y_start as usize + dy;
                if yc < VRAM_HEIGHT && xc < VRAM_WIDTH {
                    let idx: usize = yc * VRAM_WIDTH + xc;
                    proof {
                        vstd::arithmetic::div_mod::lemma_fundamental_div_mod_converse(
                            idx as int,
                            64,
                            yc as int,
                            xc as int,
                        );
                    }
                    let prev: bool = vram[idx];
                    if prev && bit {
                        collision = true;
                    }
                    vram[idx] = prev ^ bit;
                    proof {
                        lemma_drw_upto_step_in(
                            s.vram,
                            self.ram@,
                            s.i as int,
                            x_start as int,
                            y_start as int,
                            dy as int,
                            dx as int,
                        );
                    }
                } else {
                    proof {
                        lemma_drw_upto_step_clip(
                            s.vram,
                            self.ram@,
                            s.i as int,
                            x_start as int,
                            y_start as int,
                            dy as int,
                            dx as int,
                        );
                    }
                }
                dx = dx + 1;
            }
            proof {
                lemma_drw_upto_row(
                    s.vram,
                    self.ram@,
                    s.i as int,
                    x_start as int,
                    y_start as int,
                    dy as int,
                );
            }
            dy = dy + 1;
        }
        proof {
            lemma_drw_upto_done(
                s.vram,
                self.ram@,
                s.i as int,
                x_start as int,
                y_start as int,
                n as int,
            );
        }

        self.vram = vram;
        if collision {
            self.gpregs[0xF] = 1;
        }
        proof {
            assert(self@ =~= spec_drw(s, x, y, size@ as int));
        }
    }

    /// Copies `V0..=Vx` into memory at `I` and, under the `memory` quirk,
    /// advances `I` past the block.
    fn op_pushreg(&mut self, x: GPReg)
        requires
            old(self).wf(),
        ensures
            final(self).wf(),
            final(self)@ == spec_pushreg(old(self)@, x),
    {
        let ghost s = self@;
        let count: usize = x.to_idx() + 1;
        let base_i: u16 = self.i_reg.get();

        let mut ram = self.ram;
        let mut k: usize = 0;
        while k < count
            invariant
                k <= count,
                count == x.spec_idx() + 1,
                count <= 0x10,
                s == old(self)@,
                state_wf(s),
                base_i == s.i,
                self.gpregs@ == s.regs,
                ram@ == store_regs(s.ram, s.i as int, s.regs, k as int),
                ram@.len() == RAM_SIZE,
            decreases count - k,
        {
            let unmasked: u16 = base_i + k as u16;
            let addr: u16 = unmasked & 0xFFF;
            proof {
                lemma_mask12_bound(unmasked);
                lemma_mask12_is_mod(unmasked);
            }
            ram[addr as usize] = self.gpregs[k];
            k = k + 1;
        }
        self.ram = ram;

        if self.quirks.memory {
            let cnt16: u16 = count as u16;
            let advance = |v: u16| -> (r: u16)
                requires
                    v < 0x1000,
                ensures
                    r == v + cnt16,
                { v + cnt16 };
            self.i_reg.modify(advance);
        }
        proof {
            lemma_store_regs_len(s.ram, s.i as int, s.regs, count as int);
            assert(self@ =~= spec_pushreg(s, x));
        }
    }

    /// Reads `V0..=Vx` from memory at `I` and, under the `memory` quirk,
    /// advances `I` past the block.
    fn op_popreg(&mut self, x: GPReg)
        requires
            old(self).wf(),
        ensures
            final(self).wf(),
            final(self)@ == spec_popreg(old(self)@, x),
    {
        let ghost s = self@;
        let count: usize = x.to_idx() + 1;
        let base_i: u16 = self.i_reg.get();

        let mut regs = self.gpregs;
        let mut k: usize = 0;
        while k < count
            invariant
                k <= count,
                count == x.spec_idx() + 1,
                count <= 0x10,
                s == old(self)@,
                state_wf(s),
                base_i == s.i,
                self.ram@ == s.ram,
                regs@ == load_regs(s.regs, s.ram, s.i as int, k as int),
                regs@.len() == 0x10,
            decreases count - k,
        {
            let unmasked: u16 = base_i + k as u16;
            let addr: u16 = unmasked & 0xFFF;
            proof {
                lemma_mask12_bound(unmasked);
                lemma_mask12_is_mod(unmasked);
            }
            regs[k] = self.ram[addr as usize];
            k = k + 1;
        }
        self.gpregs = regs;

        if self.quirks.memory {
            let cnt16: u16 = count as u16;
            let advance = |v: u16| -> (r: u16)
                requires
                    v < 0x1000,
                ensures
                    r == v + cnt16,
                { v + cnt16 };
            self.i_reg.modify(advance);
        }
        proof {
            lemma_load_regs_len(s.regs, s.ram, s.i as int, count as int);
            assert(self@ =~= spec_popreg(s, x));
        }
    }

    /// Stores the three decimal digits of `Vx` at `I`, `I+1`, `I+2`
    /// (hundreds, tens, ones).
    fn op_bcd(&mut self, x: GPReg)
        requires
            old(self).wf(),
        ensures
            final(self).wf(),
            final(self)@ == spec_bcd(old(self)@, x),
    {
        let ghost s = self@;
        let mut v: u8 = self.gpregs[x.to_idx()];
        let ghost v0 = v;
        let ones = v % 10;
        v = v / 10;
        let tens = v % 10;
        v = v / 10;
        let hund = v % 10;
        proof {
            vstd::arithmetic::div_mod::lemma_div_denominator(v0 as int, 10, 10);
            vstd::arithmetic::div_mod::lemma_small_mod((v0 / 100) as nat, 10);
        }

        let base_i: u16 = self.i_reg.get();
        let a1: u16 = base_i + 1;
        let a2: u16 = base_i + 2;
        proof {
            lemma_mask12_bound(base_i);
            lemma_mask12_is_mod(base_i);
            lemma_mask12_bound(a1);
            lemma_mask12_is_mod(a1);
            lemma_mask12_bound(a2);
            lemma_mask12_is_mod(a2);
        }
        self.ram[(base_i & 0xFFF) as usize] = hund;
        self.ram[(a1 & 0xFFF) as usize] = tens;
        self.ram[(a2 & 0xFFF) as usize] = ones;
        proof {
            assert(self@ =~= spec_bcd(s, x));
        }
    }

    /// Dispatches the flow-control opcodes: clear-screen, return, jump and
    /// call.
    fn exec_flow(&mut self, instr: Instr, rnd: u8, next_key: Option<Key>) -> (r: Result<
        (),
        RuntimeError,
    >)
        requires
            old(self).wf(),
            instr is CLS || instr is RET || instr is JP || instr is CALL,
        ensures
            final(self).wf(),
            match spec_exec_err(old(self)@, instr) {
                Some(e) => r == Err::<(), RuntimeError>(e) && final(self)@ == old(self)@,
                None => r == Ok::<(), RuntimeError>(()) && final(self)@ == spec_exec(
                    old(self)@,
                    instr,
                    rnd,
                    next_key,
                ),
            },
    {
        let ghost s = self@;
        match instr {
            Instr::CLS => {
                self.vram = [false;VRAM_WH];
                proof {
                    assert(self.vram@ =~= Seq::new(s.vram.len(), |idx: int| false));
                }
            },
            Instr::RET => {
                if self.sp == 0 {
                    return Err(RuntimeError::StackUnderflow(self.pc.wrapping_sub(2)));
                }
                self.sp = self.sp - 1;
                self.pc = self.stack[self.sp];
            },
            Instr::JP(a) => {
                let target = a.get();
                if self.pc.wrapping_sub(2) == target {
                    self.halted = true;
                }
                self.pc = target;
            },
            Instr::CALL(a) => {
                if self.sp == STACK_LIMIT {
                    return Err(RuntimeError::StackOverflow(self.pc.wrapping_sub(2)));
                }
                self.stack[self.sp] = self.pc;
                self.sp = self.sp + 1;
                self.pc = a.get();
            },
            _ => {
                proof {
                    assert(false);
                }
            },
        }
        Ok(())
    }

    /// Dispatches the register-and-skip opcodes: the conditional skips, the
    /// register loads and the arithmetic and logic family.
    fn exec_data(&mut self, instr: Instr, rnd: u8, next_key: Option<Key>) -> (r: Result<
        (),
        RuntimeError,
    >)
        requires
            old(self).wf(),
            instr is SEQ || instr is SNELIT || instr is SE || instr is LDL
                || instr is ADDL || instr is LD || instr is OR || instr is AND
                || instr is XOR || instr is ADDC || instr is SUBC || instr is SHRC
                || instr is SUBN || instr is SHLC || instr is SNE,
        ensures
            final(self).wf(),
            match spec_exec_err(old(self)@, instr) {
                Some(e) => r == Err::<(), RuntimeError>(e) && final(self)@ == old(self)@,
                None => r == Ok::<(), RuntimeError>(()) && final(self)@ == spec_exec(
                    old(self)@,
                    instr,
                    rnd,
                    next_key,
                ),
            },
    {
        let ghost s = self@;
        match instr {
            Instr::SEQ(x, lit) => {
                if self.gpregs[x.to_idx()] == lit {
                    self.pc = self.pc.wrapping_add(2);
                }
            },
            Instr::SNELIT(x, lit) => {
                if self.gpregs[x.to_idx()] != lit {
                    self.pc = self.pc.wrapping_add(2);
                }
            },
            Instr::SE(x, y) => {
                if self.gpregs[x.to_idx()] == self.gpregs[y.to_idx()] {
                    self.pc = self.pc.wrapping_add(2);
                }
            },
            Instr::LDL(x, lit) => {
                self.gpregs[x.to_idx()] = lit;
            },
            Instr::ADDL(x, lit) => {
                let vx = self.gpregs[x.to_idx()];
                self.gpregs[x.to_idx()] = vx.wrapping_add(lit);
            },
            Instr::LD(x, y) => {
                self.gpregs[x.to_idx()] = self.gpregs[y.to_idx()];
            },
            Instr::OR(x, y) => {
                self.gpregs[x.to_idx()] = self.gpregs[x.to_idx()] | self.gpregs[y.to_idx()];
                if self.quirks.vf_reset {
                    self.gpregs[0xF] = 0;
                }
            },
            Instr::AND(x, y) => {
                self.gpregs[x.to_idx()] = self.gpregs[x.to_idx()] & self.gpregs[y.to_idx()];
                if self.quirks.vf_reset {
                    self.gpregs[0xF] = 0;
                }
            },
            Instr::XOR(x, y) => {
                self.gpregs[x.to_idx()] = self.gpregs[x.to_idx()] ^ self.gpregs[y.to_idx()];
                if self.quirks.vf_reset {
                    self.gpregs[0xF] = 0;
                }
            },
            Instr::ADDC(x, y) => {
                let a = self.gpregs[x.to_idx()];
                let b = self.gpregs[y.to_idx()];
                self.gpregs[x.to_idx()] = a.wrapping_add(b);
                self.gpregs[0xF] = if (a as u16) + (b as u16) > 0xFF {
                    1
                } else {
                    0
                };
            },
            Instr::SUBC(x, y) => {
                let a = self.gpregs[x.to_idx()];
                let b = self.gpregs[y.to_idx()];
                self.gpregs[x.to_idx()] = a.wrapping_sub(b);
                self.gpregs[0xF] = if a >= b {
                    1
                } else {
                    0
                };
            },
            Instr::SHRC(x, y) => {
                let src = if self.quirks.shifting {
                    self.gpregs[x.to_idx()]
                } else {
                    self.gpregs[y.to_idx()]
                };
                self.gpregs[x.to_idx()] = src >> 1u8;
                self.gpregs[0xF] = src & 1;
            },
            Instr::SUBN(x, y) => {
                let a = self.gpregs[x.to_idx()];
                let b = self.gpregs[y.to_idx()];
                self.gpregs[x.to_idx()] = b.wrapping_sub(a);
                self.gpregs[0xF] = if b >= a {
                    1
                } else {
                    0
                };
            },
            Instr::SHLC(x, y) => {
                let src = if self.quirks.shifting {
                    self.gpregs[x.to_idx()]
                } else {
                    self.gpregs[y.to_idx()]
                };
                self.gpregs[x.to_idx()] = src << 1u8;
                self.gpregs[0xF] = if src & 0x80 == 0x80 {
                    1
                } else {
                    0
                };
            },
            Instr::SNE(x, y) => {
                if self.gpregs[x.to_idx()] != self.gpregs[y.to_idx()] {
                    self.pc = self.pc.wrapping_add(2);
                }
            },
            _ => {
                proof {
                    assert(false);
                }
            },
        }
        Ok(())
    }

    /// Dispatches the index-register, keyboard, timer, draw and memory-block
    /// opcodes.
    fn exec_sys(&mut self, instr: Instr, rnd: u8, next_key: Option<Key>) -> (r: Result<
        (),
        RuntimeError,
    >)
        requires
            old(self).wf(),
            instr is LDI || instr is JPL || instr is RND || instr is DRW
                || instr is SKP || instr is SKNP || instr is MOVDT || instr is LDKB
                || instr is LDDT || instr is LDST || instr is ADDI || instr is LDSPR
                || instr is LDBCD || instr is PUSHREG || instr is POPREG,
        ensures
            final(self).wf(),
            match spec_exec_err(old(self)@, instr) {
                Some(e) => r == Err::<(), RuntimeError>(e) && final(self)@ == old(self)@,
                None => r == Ok::<(), RuntimeError>(()) && final(self)@ == spec_exec(
                    old(self)@,
                    instr,
                    rnd,
                    next_key,
                ),
            },
    {
        let ghost s = self@;
        match instr {
            Instr::LDI(a) => {
                proof {
                    use_type_invariant(a);
                    lemma_u12_bounded(a);
                }
                self.i_reg = a;
            },
            Instr::JPL(a) => {
                proof {
                    use_type_invariant(a);
                    lemma_u12_bounded(a);
                }
                self.pc = self.gpregs[0] as u16 + a.get();
            },
            Instr::RND(x, lit) => {
                self.gpregs[x.to_idx()] = rnd & lit;
            },
            Instr::DRW(x, y, n) => {
                self.op_drw(x, y, n);
            },
            Instr::SKP(x) => {
                let vx = self.gpregs[x.to_idx()];
                match Key::indexed(vx) {
                    None => {
                        return Err(RuntimeError::InvalidKey(self.pc.wrapping_sub(2), vx));
                    },
                    Some(k) => {
                        proof {
                            lemma_key_index_bijective(k, vx as int);
                        }
                        if self.keyboard.key_down(k) {
                            self.pc = self.pc.wrapping_add(2);
                        }
                    },
                }
            },
            Instr::SKNP(x) => {
                let vx = self.gpregs[x.to_idx()];
                match Key::indexed(vx) {
                    None => {
                        return Err(RuntimeError::InvalidKey(self.pc.wrapping_sub(2), vx));
                    },
                    Some(k) => {
                        proof {
                            lemma_key_index_bijective(k, vx as int);
                        }
                        if !self.keyboard.key_down(k) {
                            self.pc = self.pc.wrapping_add(2);
                        }
                    },
                }
            },
            Instr::MOVDT(x) => {
                self.gpregs[x.to_idx()] = self.timers.delay();
            },
            Instr::LDKB(x) => {
                match next_key {
                    None => {
                        self.pc = self.pc.wrapping_sub(2);
                    },
                    Some(k) => {
                        self.gpregs[x.to_idx()] = k.to_idx() as u8;
                    },
                }
            },
            Instr::LDDT(x) => {
                self.timers.set_delay(self.gpregs[x.to_idx()]);
            },
            Instr::LDST(x) => {
                self.timers.set_sound(self.gpregs[x.to_idx()]);
            },
            Instr::ADDI(x) => {
                let vx16: u16 = self.gpregs[x.to_idx()] as u16;
                let add_i = |v: u16| -> (r: u16)
                    requires
                        v < 0x1000,
                    ensures
                        r == v + vx16,
                    { v + vx16 };
                self.i_reg.modify(add_i);
            },
            Instr::LDSPR(x) => {
                let glyph_addr: u16 = self.gpregs[x.to_idx()] as u16 * 5;
                let set_i = |v: u16| -> (r: u16)
                    ensures
                        r == glyph_addr,
                    { glyph_addr };
                self.i_reg.modify(set_i);
            },
            Instr::LDBCD(x) => {
                self.op_bcd(x);
            },
            Instr::PUSHREG(x) => {
                self.op_pushreg(x);
            },
            Instr::POPREG(x) => {
                self.op_popreg(x);
            },
            _ => {
                proof {
                    assert(false);
                }
            },
        }
        Ok(())
    }

    /// Dispatches one decoded instruction against the current state, from
    /// which `pc` has already been advanced past it. `rnd` is the byte the
    /// random source produced for this step; `next_key` the key-press event
    /// supplied, if any. Deterministic: the post-state is exactly
    /// [`spec_exec`], and the fatal conditions are exactly
    /// [`spec_exec_err`], which arise with no further effect.
    pub fn execute(&mut self, instr: Instr, rnd: u8, next_key: Option<Key>) -> (r: Result<
        (),
        RuntimeError,
    >)
        requires
            old(self).wf(),
        ensures
            final(self).wf(),
            match spec_exec_err(old(self)@, instr) {
                Some(e) => r == Err::<(), RuntimeError>(e) && final(self)@ == old(self)@,
                None => r == Ok::<(), RuntimeError>(()) && final(self)@ == spec_exec(
                    old(self)@,
                    instr,
                    rnd,
                    next_key,
                ),
            },
    {
        match instr {
            Instr::CLS | Instr::RET | Instr::JP(_) | Instr::CALL(_) => self.exec_flow(
                instr,
                rnd,
                next_key,
            ),
            Instr::SEQ(..) | Instr::SNELIT(..) | Instr::SE(..) | Instr::LDL(..) | Instr::ADDL(
                ..,
            ) | Instr::LD(..) | Instr::OR(..) | Instr::AND(..) | Instr::XOR(..) | Instr::ADDC(
                ..,
            ) | Instr::SUBC(..) | Instr::SHRC(..) | Instr::SUBN(..) | Instr::SHLC(..)
                | Instr::SNE(..) => self.exec_data(instr, rnd, next_key),
            _ => self.exec_sys(instr, rnd, next_key),
        }
    }

    /// One step: tick the timers, fetch two bytes at `pc` (big-endian,
    /// within the 12-bit address space), advance `pc` past them, decode, and
    /// dispatch. Returns the executed instruction for tracing, or the
    /// failure. The timer decision and the random byte are environmental, so
    /// the contract quantifies over them: some such pair explains the
    /// observed transition through [`step_rel`].
    pub fn step(&mut self, next_key: Option<Key>) -> (r: Result<Instr, RuntimeError>)
        requires
            old(self).wf(),
        ensures
            final(self).wf(),
            exists|ticked: bool, rnd: u8|
                #[trigger] step_rel(old(self)@, final(self)@, ticked, rnd, next_key, r),
    {
        let ghost pre = self@;
        self.timers.tick();
        let ghost ticked: bool = self@.dt != pre.dt || self@.st != pre.st;
        proof {
            assert(self@ =~= spec_tick(pre, ticked));
        }
        let ghost s1 = spec_tick(pre, ticked);

        let hi_addr: u16 = self.pc & 0xFFF;
        let lo_pc: u16 = self.pc.wrapping_add(1);
        let lo_addr: u16 = lo_pc & 0xFFF;
        proof {
            lemma_mask12_bound(self.pc);
            lemma_mask12_bound(lo_pc);
        }
        let hi: u8 = self.ram[hi_addr as usize];
        let lo: u8 = self.ram[lo_addr as usize];
        let word: u16 = ((hi as u16) << 8) | (lo as u16);
        proof {
            assert(word == spec_fetch(s1));
        }

        self.pc = self.pc.wrapping_add(2);
        let ghost s2 = C8State { pc: pc2(s1.pc), ..s1 };
        proof {
            assert(self@ =~= s2);
        }

        let instr = match Instr::decode(word) {
            Ok(i) => i,
            Err(e) => {
                proof {
                    assert(step_rel(
                        pre,
                        self@,
                        ticked,
                        0u8,
                        next_key,
                        Err::<Instr, RuntimeError>(RuntimeError::Decode(e)),
                    ));
                }
                return Err(RuntimeError::Decode(e));
            },
        };

        let rnd: u8 = match instr {
            Instr::RND(_, _) => rand::random::<u8>(),
            _ => 0,
        };

        match self.execute(instr, rnd, next_key) {
            Ok(()) => {
                proof {
                    assert(step_rel(
                        pre,
                        self@,
                        ticked,
                        rnd,
                        next_key,
                        Ok::<Instr, RuntimeError>(instr),
                    ));
                }
                Ok(instr)
            },
            Err(e) => {
                proof {
                    assert(step_rel(pre, self@, ticked, rnd, next_key, Err::<
                        Instr,
                        RuntimeError,
                    >(e)));
                }
                Err(e)
            },
        }
    }
}

} // verus!

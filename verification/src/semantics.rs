//! The mathematical model of the machine and the meaning of one step.
//!
//! [`C8State`] is the ghost image of the whole machine. [`spec_exec`] gives
//! the exact post-state of dispatching one decoded instruction, and
//! [`step_rel`] ties a whole step call (timer tick, fetch, decode, dispatch)
//! to its result, with the timer decision and the random byte quantified by
//! the caller.

use vstd::prelude::*;

use crate::errors::{Error, RuntimeError};
use crate::instructions::{spec_decode, Instr};
use crate::keyboard::Key;
use crate::quirks::Quirks;
use crate::reg::GPReg;
use crate::timers::dec1;

verus! {

/// Addressable memory size in bytes.
pub const RAM_SIZE: usize = 0x1000;

/// A loaded program may hold at most this many bytes.
pub const ROM_MAX_SIZE: usize = 0xE00;

/// Capacity of the call stack, in return addresses.
pub const STACK_LIMIT: usize = 0x10;

/// Frame buffer width in pixels.
pub const VRAM_WIDTH: usize = 64;

/// Frame buffer height in pixels.
pub const VRAM_HEIGHT: usize = 32;

/// Total pixel count of the frame buffer.
pub const VRAM_WH: usize = 64 * 32;

/// The ghost image of the whole machine state.
#[verifier::ext_equal]
pub ghost struct C8State {
    /// The 4096 addressable bytes.
    pub ram: Seq<u8>,
    /// The sixteen general-purpose registers, indexed by register index.
    pub regs: Seq<u8>,
    /// The 12-bit index register `I`.
    pub i: u16,
    /// The program counter.
    pub pc: u16,
    /// The stack pointer: the number of frames on the call stack.
    pub sp: int,
    /// The call stack; frames below `sp` are live.
    pub stack: Seq<u16>,
    /// The 64x32 frame buffer, row-major.
    pub vram: Seq<bool>,
    /// The sixteen key-down flags, indexed by key value.
    pub keys: Seq<bool>,
    /// The delay timer counter.
    pub dt: u8,
    /// The sound timer counter.
    pub st: u8,
    /// Whether the machine has halted (self-jump detected, or set by the
    /// driver).
    pub halted: bool,
    /// The compatibility configuration; immutable after construction.
    pub quirks: Quirks,
}

/// Well-formedness of a machine state: the fixed shapes of its parts, the
/// stack pointer within its capacity, and the index register within 12 bits.
pub open spec fn state_wf(s: C8State) -> bool {
    &&& s.ram.len() == RAM_SIZE
    &&& s.regs.len() == 0x10
    &&& s.stack.len() == STACK_LIMIT
    &&& s.vram.len() == VRAM_WH
    &&& s.keys.len() == 0x10
    &&& 0 <= s.sp <= STACK_LIMIT
    &&& s.i < 0x1000
}

/// The value of register `r`.
pub open spec fn rx(s: C8State, r: GPReg) -> u8 {
    s.regs[r.spec_idx()]
}

/// The state with register `r` set to `v`.
pub open spec fn wreg(s: C8State, r: GPReg, v: u8) -> C8State {
    C8State { regs: s.regs.update(r.spec_idx(), v), ..s }
}

/// The state with the flag register `VF` set to `f`.
pub open spec fn set_vf(s: C8State, f: u8) -> C8State {
    C8State { regs: s.regs.update(0xF, f), ..s }
}

/// 16-bit wrapping addition.
pub open spec fn wrap_add16(a: u16, b: u16) -> u16 {
    if a + b > 0xFFFF {
        (a + b - 0x10000) as u16
    } else {
        (a + b) as u16
    }
}

/// The program counter advanced past one instruction.
pub open spec fn pc2(pc: u16) -> u16 {
    wrap_add16(pc, 2)
}

/// The program counter rewound by one instruction: the address of the
/// instruction that a just-advanced counter fetched.
pub open spec fn pc_back2(pc: u16) -> u16 {
    if pc >= 2 {
        (pc - 2) as u16
    } else {
        (pc - 2 + 0x10000) as u16
    }
}

/// 8-bit wrapping addition.
pub open spec fn wrap_add8(a: u8, b: u8) -> u8 {
    if a + b > 0xFF {
        (a + b - 0x100) as u8
    } else {
        (a + b) as u8
    }
}

/// 8-bit wrapping subtraction.
pub open spec fn wrap_sub8(a: u8, b: u8) -> u8 {
    if a >= b {
        (a - b) as u8
    } else {
        (a - b + 0x100) as u8
    }
}

/// A 16-bit value masked to the 12-bit address space.
pub open spec fn mask12(x: u16) -> u16 {
    x & 0xFFF
}

/// A masked value lies within the 12-bit address space.
pub proof fn lemma_mask12_bound(x: u16)
    ensures
        mask12(x) < 0x1000,
{
    assert(x & 0xFFF < 0x1000) by (bit_vector);
}

/// The memory address `off` bytes past `i`, wrapped to the address space.
pub open spec fn addr12(i: u16, off: int) -> int {
    (i + off) % 0x1000
}

/// The state after one conditional skip: `pc` advances by one extra
/// instruction exactly when `cond` holds.
pub open spec fn skip_if(s: C8State, cond: bool) -> C8State {
    if cond {
        C8State { pc: pc2(s.pc), ..s }
    } else {
        s
    }
}

/// The flag-register side effect of the logic opcodes: zeroed under the
/// `vf_reset` quirk, untouched otherwise.
pub open spec fn logic_vf(s: C8State, q: Quirks) -> C8State {
    if q.vf_reset {
        set_vf(s, 0)
    } else {
        s
    }
}

/// Whether the sprite with base address `i` has its pixel at column `dx` of
/// row `dy` set. Row bytes are read most-significant bit first; sprite rows
/// wrap within the 12-bit address space.
pub open spec fn sprite_pixel(ram: Seq<u8>, i: int, dx: int, dy: int) -> bool {
    let byte = ram[(i + dy) % 0x1000];
    byte & (0x80u8 >> (dx as u8)) != 0
}

/// Testing a single-bit mask by equality and by nonzeroness agree.
pub proof fn lemma_sprite_bit(b: u8, dx: u8)
    requires
        dx < 8,
    ensures
        (b & (0x80u8 >> dx) == 0x80u8 >> dx) <==> (b & (0x80u8 >> dx) != 0),
{
    assert(dx < 8 ==> ((b & (0x80u8 >> dx) == 0x80u8 >> dx) <==> (b & (0x80u8 >> dx) != 0)))
        by (bit_vector);
}

/// Wrapped start coordinates lie within the frame.
pub proof fn lemma_coord_mask(v: u8)
    ensures
        v & 63 < 64,
        v & 31 < 32,
{
    assert(v & 63 < 64) by (bit_vector);
    assert(v & 31 < 32) by (bit_vector);
}

/// The frame buffer after XOR-blitting an `n`-row sprite whose wrapped start
/// is `(x0, y0)`: a covered pixel is toggled by its sprite bit, every other
/// pixel is untouched. Sprite pixels past the right or bottom edge cover
/// nothing (they are clipped, not wrapped).
pub open spec fn drw_vram(
    vram: Seq<bool>,
    ram: Seq<u8>,
    i: int,
    x0: int,
    y0: int,
    n: int,
) -> Seq<bool> {
    Seq::new(
        vram.len(),
        |idx: int|
            {
                let x = idx % 64;
                let y = idx / 64;
                if y0 <= y < y0 + n && x0 <= x < x0 + 8 {
                    vram[idx] != sprite_pixel(ram, i, x - x0, y - y0)
                } else {
                    vram[idx]
                }
            },
    )
}

/// Whether sprite pixel `(dx, dy)` erases a frame-buffer pixel: it lands
/// within the frame (is not clipped) and both it and the pixel under it are
/// lit.
pub open spec fn erases_at(
    vram: Seq<bool>,
    ram: Seq<u8>,
    i: int,
    x0: int,
    y0: int,
    dx: int,
    dy: int,
) -> bool {
    x0 + dx < 64 && y0 + dy < 32 && vram[(y0 + dy) * 64 + (x0 + dx)] && sprite_pixel(
        ram,
        i,
        dx,
        dy,
    )
}

/// Whether the blit erases any pixel: some sprite pixel is lit together with
/// the frame-buffer pixel under it.
pub open spec fn drw_collision(
    vram: Seq<bool>,
    ram: Seq<u8>,
    i: int,
    x0: int,
    y0: int,
    n: int,
) -> bool {
    exists|dy: int, dx: int|
        0 <= dy < n && 0 <= dx < 8 && #[trigger] erases_at(vram, ram, i, x0, y0, dx, dy)
}

/// The frame buffer part-way through a blit: sprite rows before `ky` are
/// applied whole, row `ky` is applied up to column `kx`.
pub open spec fn drw_upto(
    vram: Seq<bool>,
    ram: Seq<u8>,
    i: int,
    x0: int,
    y0: int,
    ky: int,
    kx: int,
) -> Seq<bool> {
    Seq::new(
        vram.len(),
        |idx: int|
            {
                let dx = idx % 64 - x0;
                let dy = idx / 64 - y0;
                if 0 <= dx < 8 && 0 <= dy && (dy < ky || (dy == ky && dx < kx)) {
                    vram[idx] != sprite_pixel(ram, i, dx, dy)
                } else {
                    vram[idx]
                }
            },
    )
}

/// Whether some already-applied sprite pixel (rows before `ky`, or row `ky`
/// before column `kx`) erased a frame-buffer pixel.
pub open spec fn erased_upto(
    vram: Seq<bool>,
    ram: Seq<u8>,
    i: int,
    x0: int,
    y0: int,
    ky: int,
    kx: int,
) -> bool {
    exists|dy: int, dx: int|
        0 <= dy && 0 <= dx < 8 && (dy < ky || (dy == ky && dx < kx)) && #[trigger] erases_at(
            vram,
            ram,
            i,
            x0,
            y0,
            dx,
            dy,
        )
}

/// Before any sprite pixel is applied, the frame buffer is untouched and
/// nothing has been erased.
pub proof fn lemma_drw_upto_zero(vram: Seq<bool>, ram: Seq<u8>, i: int, x0: int, y0: int)
    ensures
        drw_upto(vram, ram, i, x0, y0, 0, 0) == vram,
        !erased_upto(vram, ram, i, x0, y0, 0, 0),
{
    assert(drw_upto(vram, ram, i, x0, y0, 0, 0) =~= vram);
}

/// Applying one sprite pixel that lands within the frame toggles exactly the
/// pixel under it, and extends the erased-so-far condition by that pixel.
pub proof fn lemma_drw_upto_step_in(
    vram: Seq<bool>,
    ram: Seq<u8>,
    i: int,
    x0: int,
    y0: int,
    dy: int,
    dx: int,
)
    requires
        vram.len() == 2048,
        0 <= x0,
        0 <= y0,
        0 <= dy,
        0 <= dx < 8,
        x0 + dx < 64,
        y0 + dy < 32,
    ensures
        drw_upto(vram, ram, i, x0, y0, dy, dx + 1) == drw_upto(vram, ram, i, x0, y0, dy, dx)
            .update(
            (y0 + dy) * 64 + (x0 + dx),
            vram[(y0 + dy) * 64 + (x0 + dx)] != sprite_pixel(ram, i, dx, dy),
        ),
        erased_upto(vram, ram, i, x0, y0, dy, dx + 1) == (erased_upto(
            vram,
            ram,
            i,
            x0,
            y0,
            dy,
            dx,
        ) || erases_at(vram, ram, i, x0, y0, dx, dy)),
{
    let idx0 = (y0 + dy) * 64 + (x0 + dx);
    vstd::arithmetic::div_mod::lemma_fundamental_div_mod_converse(idx0, 64, y0 + dy, x0 + dx);
    let lhs = drw_upto(vram, ram, i, x0, y0, dy, dx + 1);
    let rhs = drw_upto(vram, ram, i, x0, y0, dy, dx).update(
        idx0,
        vram[idx0] != sprite_pixel(ram, i, dx, dy),
    );
    assert forall|k: int| 0 <= k < 2048 implies lhs[k] == rhs[k] by {
        vstd::arithmetic::div_mod::lemma_fundamental_div_mod(k, 64);
    }
    assert(lhs =~= rhs);
    if erased_upto(vram, ram, i, x0, y0, dy, dx + 1) {
        let (ey, ex): (int, int) = choose|ey: int, ex: int|
            0 <= ey && 0 <= ex < 8 && (ey < dy || (ey == dy && ex < dx + 1)) && #[trigger] erases_at(
                vram,
                ram,
                i,
                x0,
                y0,
                ex,
                ey,
            );
        if ey == dy && ex == dx {
            assert(erases_at(vram, ram, i, x0, y0, dx, dy));
        } else {
            assert(erased_upto(vram, ram, i, x0, y0, dy, dx));
        }
    }
    if erases_at(vram, ram, i, x0, y0, dx, dy) {
        assert(erased_upto(vram, ram, i, x0, y0, dy, dx + 1));
    }
    if erased_upto(vram, ram, i, x0, y0, dy, dx) {
        let (ey, ex): (int, int) = choose|ey: int, ex: int|
            0 <= ey && 0 <= ex < 8 && (ey < dy || (ey == dy && ex < dx)) && #[trigger] erases_at(
                vram,
                ram,
                i,
                x0,
                y0,
                ex,
                ey,
            );
        assert(erased_upto(vram, ram, i, x0, y0, dy, dx + 1));
    }
}

/// A sprite pixel that falls outside the frame is clipped: applying it
/// changes nothing and erases nothing.
pub proof fn lemma_drw_upto_step_clip(
    vram: Seq<bool>,
    ram: Seq<u8>,
    i: int,
    x0: int,
    y0: int,
    dy: int,
    dx: int,
)
    requires
        vram.len() == 2048,
        0 <= x0,
        0 <= y0,
        0 <= dy,
        0 <= dx < 8,
        x0 + dx >= 64 || y0 + dy >= 32,
    ensures
        drw_upto(vram, ram, i, x0, y0, dy, dx + 1) == drw_upto(vram, ram, i, x0, y0, dy, dx),
        erased_upto(vram, ram, i, x0, y0, dy, dx + 1) == erased_upto(vram, ram, i, x0, y0, dy, dx),
{
    let lhs = drw_upto(vram, ram, i, x0, y0, dy, dx + 1);
    let rhs = drw_upto(vram, ram, i, x0, y0, dy, dx);
    assert forall|k: int| 0 <= k < 2048 implies lhs[k] == rhs[k] by {
        vstd::arithmetic::div_mod::lemma_fundamental_div_mod(k, 64);
    }
    assert(lhs =~= rhs);
    if erased_upto(vram, ram, i, x0, y0, dy, dx + 1) {
        let (ey, ex): (int, int) = choose|ey: int, ex: int|
            0 <= ey && 0 <= ex < 8 && (ey < dy || (ey == dy && ex < dx + 1)) && #[trigger] erases_at(
                vram,
                ram,
                i,
                x0,
                y0,
                ex,
                ey,
            );
        assert(!(ey == dy && ex == dx));
        assert(erased_upto(vram, ram, i, x0, y0, dy, dx));
    }
    if erased_upto(vram, ram, i, x0, y0, dy, dx) {
        let (ey, ex): (int, int) = choose|ey: int, ex: int|
            0 <= ey && 0 <= ex < 8 && (ey < dy || (ey == dy && ex < dx)) && #[trigger] erases_at(
                vram,
                ram,
                i,
                x0,
                y0,
                ex,
                ey,
            );
        assert(erased_upto(vram, ram, i, x0, y0, dy, dx + 1));
    }
}

/// Finishing a sprite row is the same as standing at the start of the next.
pub proof fn lemma_drw_upto_row(
    vram: Seq<bool>,
    ram: Seq<u8>,
    i: int,
    x0: int,
    y0: int,
    dy: int,
)
    ensures
        drw_upto(vram, ram, i, x0, y0, dy, 8) == drw_upto(vram, ram, i, x0, y0, dy + 1, 0),
        erased_upto(vram, ram, i, x0, y0, dy, 8) == erased_upto(vram, ram, i, x0, y0, dy + 1, 0),
{
    assert(drw_upto(vram, ram, i, x0, y0, dy, 8) =~= drw_upto(vram, ram, i, x0, y0, dy + 1, 0));
    if erased_upto(vram, ram, i, x0, y0, dy, 8) {
        let (ey, ex): (int, int) = choose|ey: int, ex: int|
            0 <= ey && 0 <= ex < 8 && (ey < dy || (ey == dy && ex < 8)) && #[trigger] erases_at(
                vram,
                ram,
                i,
                x0,
                y0,
                ex,
                ey,
            );
        assert(erased_upto(vram, ram, i, x0, y0, dy + 1, 0));
    }
    if erased_upto(vram, ram, i, x0, y0, dy + 1, 0) {
        let (ey, ex): (int, int) = choose|ey: int, ex: int|
            0 <= ey && 0 <= ex < 8 && (ey < dy + 1 || (ey == dy + 1 && ex < 0))
                && #[trigger] erases_at(vram, ram, i, x0, y0, ex, ey);
        assert(erased_upto(vram, ram, i, x0, y0, dy, 8));
    }
}

/// After all `n` sprite rows are applied, the part-way forms coincide with
/// the blit and collision of the draw opcode.
pub proof fn lemma_drw_upto_done(
    vram: Seq<bool>,
    ram: Seq<u8>,
    i: int,
    x0: int,
    y0: int,
    n: int,
)
    requires
        0 <= n,
    ensures
        drw_upto(vram, ram, i, x0, y0, n, 0) == drw_vram(vram, ram, i, x0, y0, n),
        erased_upto(vram, ram, i, x0, y0, n, 0) == drw_collision(vram, ram, i, x0, y0, n),
{
    assert(drw_upto(vram, ram, i, x0, y0, n, 0) =~= drw_vram(vram, ram, i, x0, y0, n));
    if erased_upto(vram, ram, i, x0, y0, n, 0) {
        let (ey, ex): (int, int) = choose|ey: int, ex: int|
            0 <= ey && 0 <= ex < 8 && (ey < n || (ey == n && ex < 0)) && #[trigger] erases_at(
                vram,
                ram,
                i,
                x0,
                y0,
                ex,
                ey,
            );
        assert(drw_collision(vram, ram, i, x0, y0, n));
    }
    if drw_collision(vram, ram, i, x0, y0, n) {
        let (ey, ex): (int, int) = choose|ey: int, ex: int|
            0 <= ey < n && 0 <= ex < 8 && #[trigger] erases_at(vram, ram, i, x0, y0, ex, ey);
        assert(erased_upto(vram, ram, i, x0, y0, n, 0));
    }
}

/// Storing a register block leaves the memory size unchanged.
pub proof fn lemma_store_regs_len(ram: Seq<u8>, i: int, regs: Seq<u8>, count: int)
    requires
        ram.len() == RAM_SIZE,
    ensures
        store_regs(ram, i, regs, count).len() == ram.len(),
    decreases count,
{
    if count > 0 {
        lemma_store_regs_len(ram, i, regs, count - 1);
    }
}

/// Loading a register block leaves the register count unchanged.
pub proof fn lemma_load_regs_len(regs: Seq<u8>, ram: Seq<u8>, i: int, count: int)
    requires
        regs.len() == 0x10,
        count <= 0x10,
    ensures
        load_regs(regs, ram, i, count).len() == regs.len(),
    decreases count,
{
    if count > 0 {
        lemma_load_regs_len(regs, ram, i, count - 1);
    }
}

/// Masking to 12 bits is reduction modulo the 4096-byte address space.
pub proof fn lemma_mask12_is_mod(x: u16)
    ensures
        mask12(x) == x % 0x1000,
{
    assert(x & 0xFFF == x % 0x1000) by (bit_vector);
}

/// The state after the draw opcode: the flag register is first zeroed, the
/// start coordinates are read (after that zeroing) and wrapped modulo the
/// frame size, the sprite is blitted, and the flag register receives the
/// collision bit.
pub open spec fn spec_drw(s: C8State, x: GPReg, y: GPReg, n: int) -> C8State {
    let regs0 = s.regs.update(0xF, 0u8);
    let x0 = (regs0[x.spec_idx()] & 63) as int;
    let y0 = (regs0[y.spec_idx()] & 31) as int;
    let vf: u8 = if drw_collision(s.vram, s.ram, s.i as int, x0, y0, n) {
        1
    } else {
        0
    };
    C8State {
        vram: drw_vram(s.vram, s.ram, s.i as int, x0, y0, n),
        regs: regs0.update(0xF, vf),
        ..s
    }
}

/// Memory after storing registers `0..count` at consecutive addresses from
/// `i`, wrapped to the address space.
pub open spec fn store_regs(ram: Seq<u8>, i: int, regs: Seq<u8>, count: int) -> Seq<u8>
    decreases count,
{
    if count <= 0 {
        ram
    } else {
        store_regs(ram, i, regs, count - 1).update((i + (count - 1)) % 0x1000, regs[count - 1])
    }
}

/// Registers after loading `0..count` of them from consecutive addresses
/// from `i`, wrapped to the address space.
pub open spec fn load_regs(regs: Seq<u8>, ram: Seq<u8>, i: int, count: int) -> Seq<u8>
    decreases count,
{
    if count <= 0 {
        regs
    } else {
        load_regs(regs, ram, i, count - 1).update(count - 1, ram[(i + (count - 1)) % 0x1000])
    }
}

/// The index register after a block copy under the `memory` quirk: advanced
/// by the register count and masked.
pub open spec fn block_i(s: C8State, count: int) -> u16 {
    if s.quirks.memory {
        mask12((s.i + count) as u16)
    } else {
        s.i
    }
}

/// The state after storing `V0..=Vx` to memory at `I`.
pub open spec fn spec_pushreg(s: C8State, x: GPReg) -> C8State {
    let count = x.spec_idx() + 1;
    C8State { ram: store_regs(s.ram, s.i as int, s.regs, count), i: block_i(s, count), ..s }
}

/// The state after reading `V0..=Vx` from memory at `I`.
pub open spec fn spec_popreg(s: C8State, x: GPReg) -> C8State {
    let count = x.spec_idx() + 1;
    C8State { regs: load_regs(s.regs, s.ram, s.i as int, count), i: block_i(s, count), ..s }
}

/// The state after storing the three decimal digits of `Vx` at `I`, `I+1`,
/// `I+2` (hundreds, tens, ones).
pub open spec fn spec_bcd(s: C8State, x: GPReg) -> C8State {
    let v = rx(s, x);
    C8State {
        ram: s.ram.update(addr12(s.i, 0), (v / 100) as u8).update(
            addr12(s.i, 1),
            ((v / 10) % 10) as u8,
        ).update(addr12(s.i, 2), (v % 10) as u8),
        ..s
    }
}

/// The fatal condition the given instruction meets in the given state, if
/// any; the state is the one in which the instruction dispatches, with `pc`
/// already advanced past it. Every error carries the failing instruction's
/// own address.
pub open spec fn spec_exec_err(s: C8State, instr: Instr) -> Option<RuntimeError> {
    match instr {
        Instr::RET => if s.sp == 0 {
            Some(RuntimeError::StackUnderflow(pc_back2(s.pc)))
        } else {
            None
        },
        Instr::CALL(_) => if s.sp >= STACK_LIMIT {
            Some(RuntimeError::StackOverflow(pc_back2(s.pc)))
        } else {
            None
        },
        Instr::SKP(x) => if rx(s, x) > 0xF {
            Some(RuntimeError::InvalidKey(pc_back2(s.pc), rx(s, x)))
        } else {
            None
        },
        Instr::SKNP(x) => if rx(s, x) > 0xF {
            Some(RuntimeError::InvalidKey(pc_back2(s.pc), rx(s, x)))
        } else {
            None
        },
        _ => None,
    }
}

/// The post-state of dispatching one instruction that meets no fatal
/// condition, from a state whose `pc` is already advanced past it. `rnd` is
/// the byte the random source produced; `key` the key-press event supplied
/// for this step, if any.
pub open spec fn spec_exec(s: C8State, instr: Instr, rnd: u8, key: Option<Key>) -> C8State {
    match instr {
        Instr::CLS => C8State { vram: Seq::new(s.vram.len(), |idx: int| false), ..s },
        Instr::RET => C8State { sp: s.sp - 1, pc: s.stack[s.sp - 1], ..s },
        Instr::JP(a) => C8State {
            pc: a@,
            halted: s.halted || a@ == pc_back2(s.pc),
            ..s
        },
        Instr::CALL(a) => C8State {
            stack: s.stack.update(s.sp, s.pc),
            sp: s.sp + 1,
            pc: a@,
            ..s
        },
        Instr::SEQ(x, kk) => skip_if(s, rx(s, x) == kk),
        Instr::SNELIT(x, kk) => skip_if(s, rx(s, x) != kk),
        Instr::SE(x, y) => skip_if(s, rx(s, x) == rx(s, y)),
        Instr::LDL(x, kk) => wreg(s, x, kk),
        Instr::ADDL(x, kk) => wreg(s, x, wrap_add8(rx(s, x), kk)),
        Instr::LD(x, y) => wreg(s, x, rx(s, y)),
        Instr::OR(x, y) => logic_vf(wreg(s, x, rx(s, x) | rx(s, y)), s.quirks),
        Instr::AND(x, y) => logic_vf(wreg(s, x, rx(s, x) & rx(s, y)), s.quirks),
        Instr::XOR(x, y) => logic_vf(wreg(s, x, rx(s, x) ^ rx(s, y)), s.quirks),
        Instr::ADDC(x, y) => set_vf(
            wreg(s, x, wrap_add8(rx(s, x), rx(s, y))),
            if rx(s, x) + rx(s, y) > 0xFF {
                1
            } else {
                0
            },
        ),
        Instr::SUBC(x, y) => set_vf(
            wreg(s, x, wrap_sub8(rx(s, x), rx(s, y))),
            if rx(s, x) >= rx(s, y) {
                1
            } else {
                0
            },
        ),
        Instr::SHRC(x, y) => {
            let src = if s.quirks.shifting {
                rx(s, x)
            } else {
                rx(s, y)
            };
            set_vf(wreg(s, x, src >> 1), src & 1)
        },
        Instr::SUBN(x, y) => set_vf(
            wreg(s, x, wrap_sub8(rx(s, y), rx(s, x))),
            if rx(s, y) >= rx(s, x) {
                1
            } else {
                0
            },
        ),
        Instr::SHLC(x, y) => {
            let src = if s.quirks.shifting {
                rx(s, x)
            } else {
                rx(s, y)
            };
            set_vf(
                wreg(s, x, src << 1),
                if src & 0x80 == 0x80 {
                    1
                } else {
                    0
                },
            )
        },
        Instr::SNE(x, y) => skip_if(s, rx(s, x) != rx(s, y)),
        Instr::LDI(a) => C8State { i: a@, ..s },
        Instr::JPL(a) => C8State { pc: (rx(s, GPReg::V0) + a@) as u16, ..s },
        Instr::RND(x, kk) => wreg(s, x, rnd & kk),
        Instr::DRW(x, y, n) => spec_drw(s, x, y, n@ as int),
        Instr::SKP(x) => skip_if(s, s.keys[rx(s, x) as int]),
        Instr::SKNP(x) => skip_if(s, !s.keys[rx(s, x) as int]),
        Instr::MOVDT(x) => wreg(s, x, s.dt),
        Instr::LDKB(x) => match key {
            None => C8State { pc: pc_back2(s.pc), ..s },
            Some(k) => wreg(s, x, k.spec_idx() as u8),
        },
        Instr::LDDT(x) => C8State { dt: rx(s, x), ..s },
        Instr::LDST(x) => C8State { st: rx(s, x), ..s },
        Instr::ADDI(x) => C8State { i: mask12((s.i + rx(s, x)) as u16), ..s },
        Instr::LDSPR(x) => C8State { i: mask12((rx(s, x) * 5) as u16), ..s },
        Instr::LDBCD(x) => spec_bcd(s, x),
        Instr::PUSHREG(x) => spec_pushreg(s, x),
        Instr::POPREG(x) => spec_popreg(s, x),
    }
}

/// The state after the timer phase of a step: `ticked` tells whether a 1/60 s
/// window had elapsed.
pub open spec fn spec_tick(s: C8State, ticked: bool) -> C8State {
    if ticked {
        C8State { dt: dec1(s.dt), st: dec1(s.st), ..s }
    } else {
        s
    }
}

/// The 16-bit word fetched at `pc`: two bytes composed big-endian, each read
/// within the 12-bit address space.
pub open spec fn spec_fetch(s: C8State) -> u16 {
    let hi = s.ram[mask12(s.pc) as int];
    let lo = s.ram[mask12(wrap_add16(s.pc, 1)) as int];
    ((hi as u16) << 8) | (lo as u16)
}

/// One whole step call from `pre`, given the timer decision `ticked`, the
/// random byte `rnd` and the key event `key`: ticks the timers, fetches and
/// advances past one word, then decodes and dispatches. `post` and `r` are
/// the resulting state and return value. A decode failure or a fatal
/// condition is returned with no effect beyond the tick and the advance.
pub open spec fn step_rel(
    pre: C8State,
    post: C8State,
    ticked: bool,
    rnd: u8,
    key: Option<Key>,
    r: Result<Instr, RuntimeError>,
) -> bool {
    let s1 = spec_tick(pre, ticked);
    let w = spec_fetch(s1);
    let s2 = C8State { pc: pc2(s1.pc), ..s1 };
    match spec_decode(w) {
        Err(e) => r == Err::<Instr, RuntimeError>(RuntimeError::Decode(e)) && post == s2,
        Ok(instr) => match spec_exec_err(s2, instr) {
            Some(e) => r == Err::<Instr, RuntimeError>(e) && post == s2,
            None => r == Ok::<Instr, RuntimeError>(instr) && post == spec_exec(
                s2,
                instr,
                rnd,
                key,
            ),
        },
    }
}

} // verus!

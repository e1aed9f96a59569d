//! Laws of the execution semantics: properties that hold of every machine
//! state, proved once over the spec-level transition function.

use vstd::prelude::*;

use crate::errors::{Error, RuntimeError};
use crate::instructions::{spec_decode, Instr};
use crate::keyboard::Key;
use crate::numtypes::u12;
use crate::reg::GPReg;
use crate::semantics::{
    drw_vram, pc_back2, rx, spec_exec, spec_exec_err, spec_fetch, spec_tick, sprite_pixel,
    state_wf, step_rel, C8State, STACK_LIMIT,
};

verus! {

/// Arithmetic carry law: for all register contents `a`, `b`, the
/// add-with-carry opcode leaves `Vx` holding `(a + b) mod 256` and sets
/// `VF = 1` exactly when `a + b > 255`. Stated for targets other than `VF`
/// itself, which the flag write overwrites.
pub proof fn lemma_addc_carry(s: C8State, x: GPReg, y: GPReg, rnd: u8, key: Option<Key>)
    requires
        state_wf(s),
        x.spec_idx() != 0xF,
    ensures
        spec_exec(s, Instr::ADDC(x, y), rnd, key).regs[x.spec_idx()] == (rx(s, x) + rx(s, y))
            % 0x100,
        spec_exec(s, Instr::ADDC(x, y), rnd, key).regs[0xF] == (if rx(s, x) + rx(s, y) > 0xFF {
            1u8
        } else {
            0u8
        }),
{
    let a = rx(s, x);
    let b = rx(s, y);
    if a + b > 0xFF {
        vstd::arithmetic::div_mod::lemma_mod_sub_multiples_vanish((a + b) as int, 0x100);
        vstd::arithmetic::div_mod::lemma_small_mod((a + b - 0x100) as nat, 0x100);
    } else {
        vstd::arithmetic::div_mod::lemma_small_mod((a + b) as nat, 0x100);
    }
}

/// Borrow inversion law: for all register contents `a`, `b`, the
/// subtract-with-borrow opcode leaves `Vx` holding `(a - b) mod 256` and
/// sets `VF = 1` exactly when `a >= b` — the flag means "no borrow". Stated
/// for targets other than `VF` itself, which the flag write overwrites.
pub proof fn lemma_subc_borrow(s: C8State, x: GPReg, y: GPReg, rnd: u8, key: Option<Key>)
    requires
        state_wf(s),
        x.spec_idx() != 0xF,
    ensures
        spec_exec(s, Instr::SUBC(x, y), rnd, key).regs[x.spec_idx()] == (rx(s, x) - rx(s, y))
            % 0x100,
        spec_exec(s, Instr::SUBC(x, y), rnd, key).regs[0xF] == (if rx(s, x) >= rx(s, y) {
            1u8
        } else {
            0u8
        }),
{
    let a = rx(s, x);
    let b = rx(s, y);
    if a >= b {
        vstd::arithmetic::div_mod::lemma_small_mod((a - b) as nat, 0x100);
    } else {
        vstd::arithmetic::div_mod::lemma_mod_add_multiples_vanish((a - b) as int, 0x100);
        vstd::arithmetic::div_mod::lemma_small_mod((a - b + 0x100) as nat, 0x100);
    }
}

/// Stack bounds: a call with the stack at capacity fails with an overflow
/// naming the call's own address; below capacity it pushes the return
/// address. A return with an empty stack fails with an underflow; otherwise
/// it pops one frame into `pc`.
pub proof fn lemma_stack_bounds(s: C8State, a: u12, rnd: u8, key: Option<Key>)
    requires
        state_wf(s),
    ensures
        s.sp == STACK_LIMIT ==> spec_exec_err(s, Instr::CALL(a)) == Some(
            RuntimeError::StackOverflow(pc_back2(s.pc)),
        ),
        s.sp < STACK_LIMIT ==> spec_exec_err(s, Instr::CALL(a)) is None && spec_exec(
            s,
            Instr::CALL(a),
            rnd,
            key,
        ).sp == s.sp + 1 && spec_exec(s, Instr::CALL(a), rnd, key).stack[s.sp] == s.pc
            && spec_exec(s, Instr::CALL(a), rnd, key).pc == a@,
        s.sp == 0 ==> spec_exec_err(s, Instr::RET) == Some(
            RuntimeError::StackUnderflow(pc_back2(s.pc)),
        ),
        s.sp > 0 ==> spec_exec_err(s, Instr::RET) is None && spec_exec(s, Instr::RET, rnd, key).sp
            == s.sp - 1 && spec_exec(s, Instr::RET, rnd, key).pc == s.stack[s.sp - 1],
{
}

/// Draw clipping: the blit touches exactly the pixels under the sprite's
/// unclipped footprint. Any pixel outside it — in particular any pixel on a
/// row the sprite does not cover — is unchanged, so no sprite pixel ever
/// wraps onto another row; a covered pixel is XOR-toggled by its sprite bit.
pub proof fn lemma_drw_clips(
    vram: Seq<bool>,
    ram: Seq<u8>,
    i: int,
    x0: int,
    y0: int,
    n: int,
    idx: int,
)
    requires
        0 <= idx < vram.len(),
    ensures
        !(y0 <= idx / 64 < y0 + n && x0 <= idx % 64 < x0 + 8) ==> drw_vram(
            vram,
            ram,
            i,
            x0,
            y0,
            n,
        )[idx] == vram[idx],
        (y0 <= idx / 64 < y0 + n && x0 <= idx % 64 < x0 + 8) ==> drw_vram(
            vram,
            ram,
            i,
            x0,
            y0,
            n,
        )[idx] == (vram[idx] != sprite_pixel(ram, i, idx % 64 - x0, idx / 64 - y0)),
{
}

/// Quirks law: with `vf_reset` set, the bitwise-and opcode always leaves
/// `VF` at 0, whatever it held; with it clear, `VF` is untouched, for any
/// target register other than `VF` itself (which the opcode would write
/// anyway).
pub proof fn lemma_and_vf_quirk(s: C8State, x: GPReg, y: GPReg, rnd: u8, key: Option<Key>)
    requires
        state_wf(s),
    ensures
        s.quirks.vf_reset ==> spec_exec(s, Instr::AND(x, y), rnd, key).regs[0xF] == 0,
        !s.quirks.vf_reset && x.spec_idx() != 0xF ==> spec_exec(s, Instr::AND(x, y), rnd, key)
            .regs[0xF] == s.regs[0xF],
{
}

/// Wait-for-key polling: a step that decodes the wait-for-key opcode and is
/// given no key event leaves the counter and every register, memory byte and
/// pixel unchanged (net), returns that same instruction, and will fetch the
/// very same word on the next step, whatever the timers then do.
pub proof fn lemma_ldkb_polls(
    pre: C8State,
    post: C8State,
    ticked: bool,
    rnd: u8,
    r: Result<Instr, RuntimeError>,
    x: GPReg,
)
    requires
        state_wf(pre),
        spec_decode(spec_fetch(spec_tick(pre, ticked))) == Ok::<Instr, Error>(Instr::LDKB(x)),
        step_rel(pre, post, ticked, rnd, None::<Key>, r),
    ensures
        post.pc == pre.pc,
        post.regs == pre.regs,
        post.ram == pre.ram,
        post.vram == pre.vram,
        r == Ok::<Instr, RuntimeError>(Instr::LDKB(x)),
        forall|t2: bool| spec_decode(spec_fetch(spec_tick(post, t2))) == Ok::<Instr, Error>(
            Instr::LDKB(x),
        ),
{
}

} // verus!

use vstd::prelude::*;

use crate::chip8::{Chip8, Chip8Error};
use crate::constants::{N_REGISTERS, RAM_SIZE, TIMER_PERIOD_NS};
use crate::decode::{op_family, op_nnn};
use crate::semantics::{
    alu_regs, draw_regs, draw_xpos, draw_ypos, drawn, executes, executes_draw, executes_f, fault,
    sprite_at, step_post, timer_due,
};

verus! {

/// A step at time `t` ticks the timers.
pub open spec fn ticks(s: Chip8, t: u128) -> bool {
    s.awaiting_key is None && timer_due(s, t)
}

/// The timers tick at most once in any 60 Hz period: of two consecutive steps
/// no more than one period apart, at most one ticks, however close together
/// the calls come.
pub proof fn lemma_timers_tick_once_per_period(
    s0: Chip8,
    s1: Chip8,
    s2: Chip8,
    t1: u128,
    t2: u128,
    keys1: Seq<bool>,
    keys2: Seq<bool>,
    rnd1: u8,
    rnd2: u8,
    r1: Result<Option<u16>, Chip8Error>,
    r2: Result<Option<u16>, Chip8Error>,
)
    requires
        s0.wf(),
        step_post(s0, s1, t1, keys1, rnd1, r1),
        step_post(s1, s2, t2, keys2, rnd2, r2),
        t1 <= t2 <= t1 + TIMER_PERIOD_NS,
    ensures
        !(ticks(s0, t1) && ticks(s1, t2)),
{
}

/// Drawing the same sprite twice at the same place restores the framebuffer,
/// and the second draw reports a collision whenever the first lit a cell.
pub proof fn lemma_draw_twice_restores(s0: Chip8, s1: Chip8, s2: Chip8, x: int, y: int, n: int)
    requires
        0 <= x < N_REGISTERS,
        0 <= y < N_REGISTERS,
        s0.registers@.len() == N_REGISTERS,
        executes_draw(s0, s1, x, y, n),
        executes_draw(s1, s2, x, y, n),
    ensures
        s2.display@ == s0.display@,
        (exists|i: int|
            0 <= i < s0.display@.len() && sprite_at(
                s0.ram@,
                s0.index as int,
                draw_xpos(s0.registers@, x),
                draw_ypos(s0.registers@, y),
                n,
                i,
            ) && !s0.display@[i]) ==> s2.registers@[15] == 1,
{
    assert(draw_regs(s1.registers@) =~= draw_regs(s0.registers@));
    let xpos = draw_xpos(s0.registers@, x);
    let ypos = draw_ypos(s0.registers@, y);
    let d1 = drawn(s0.display@, s0.ram@, s0.index as int, xpos, ypos, n);
    assert(s1.display@ == d1);
    assert(s2.display@ =~= s0.display@);
    if exists|i: int|
        0 <= i < s0.display@.len() && sprite_at(
            s0.ram@,
            s0.index as int,
            xpos,
            ypos,
            n,
            i,
        ) && !s0.display@[i] {
        let i = choose|i: int|
            0 <= i < s0.display@.len() && sprite_at(
                s0.ram@,
                s0.index as int,
                xpos,
                ypos,
                n,
                i,
            ) && !s0.display@[i];
        assert(s1.display@[i]);
    }
}

/// A call followed by a return comes back to the instruction right after the
/// call, with the stack as it was.
pub proof fn lemma_call_then_return(
    s0: Chip8,
    s1: Chip8,
    s2: Chip8,
    call: u16,
    keys: Seq<bool>,
    rnd: u8,
)
    requires
        s0.wf(),
        s0.pc + 1 < RAM_SIZE,
        op_family(call) == 0x2000,
        fault(s0, call) is None,
        executes(s0, s1, call, keys, rnd),
        executes(s1, s2, 0x00EEu16, keys, rnd),
    ensures
        s2.pc == s0.pc + 2,
        s2.istack == s0.istack,
        s1.pc == op_nnn(call),
{
    assert(0x00EEu16 & 0xF000u16 == 0u16) by (bit_vector);
    assert(s1.stack@[s1.istack as int] == (s0.pc + 2) as u16);
}

/// The three digits that `Fx33` stores are decimal digits that make up `Vx`.
pub proof fn lemma_bcd_digits(s: Chip8, post: Chip8, x: int)
    requires
        0 <= x < N_REGISTERS,
        s.registers@.len() == N_REGISTERS,
        s.index + 3 <= RAM_SIZE,
        executes_f(s, post, x, 0x33),
    ensures
        post.ram@[s.index as int] < 10,
        post.ram@[s.index + 1] < 10,
        post.ram@[s.index + 2] < 10,
        100 * post.ram@[s.index as int] + 10 * post.ram@[s.index + 1] + post.ram@[s.index + 2]
            == s.registers@[x],
{
}

/// `8xy4`: the carry in `VF` and the wrapped sum in `Vx` together make up
/// the full sum.
pub proof fn lemma_add_carry(regs: Seq<u8>, x: int, y: int)
    requires
        regs.len() == N_REGISTERS,
        0 <= x < 15,
        0 <= y < N_REGISTERS,
    ensures
        alu_regs(regs, x, y, 4)[x] + 256 * alu_regs(regs, x, y, 4)[15] == regs[x] + regs[y],
        alu_regs(regs, x, y, 4)[15] <= 1,
{
}

/// `8xy5`: `VF` is set exactly when `Vx` exceeds `Vy`, and `Vx` becomes the
/// difference modulo 256.
pub proof fn lemma_sub_borrow(regs: Seq<u8>, x: int, y: int)
    requires
        regs.len() == N_REGISTERS,
        0 <= x < 15,
        0 <= y < 15,
    ensures
        alu_regs(regs, x, y, 5)[15] == (if regs[x] > regs[y] { 1u8 } else { 0u8 }),
        alu_regs(regs, x, y, 5)[x] == (if regs[x] >= regs[y] {
            regs[x] - regs[y]
        } else {
            regs[x] - regs[y] + 256
        }),
{
}

} // verus!

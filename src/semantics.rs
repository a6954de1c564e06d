use vstd::prelude::*;

use crate::chip8::{Chip8, Chip8Error};
use crate::constants::{
    DISPLAY_HEIGHT, DISPLAY_LEN, DISPLAY_WIDTH, N_REGISTERS, RAM_SIZE, STACK_SIZE, TIMER_PERIOD_NS,
};
use crate::decode::{op_family, op_n, op_nn, op_nnn, op_x, op_y, word_at};

verus! {

/// Bit `k` of `b`, counting from the most significant bit (`k == 0`).
pub open spec fn bit_at(b: u8, k: int) -> bool {
    (b >> ((7 - k) as u8)) & 1u8 == 1u8
}

/// Logical key `k` is down in `keys`; there is no key 16 or above.
pub open spec fn key_down(keys: Seq<bool>, k: u8) -> bool {
    k < 16 && keys[k as int]
}

/// Framebuffer cell `i` is covered by a set bit of the sprite of `n` rows read
/// from `ram` at `index`, drawn with its top left corner at `(xpos, ypos)`.
/// Cells are on screen by construction, so the sprite is cut at the right and
/// bottom edges rather than wrapped.
pub open spec fn sprite_at(ram: Seq<u8>, index: int, xpos: int, ypos: int, n: int, i: int) -> bool {
    let cx = i % (DISPLAY_WIDTH as int);
    let cy = i / (DISPLAY_WIDTH as int);
    &&& ypos <= cy < ypos + n
    &&& xpos <= cx < xpos + 8
    &&& bit_at(ram[index + cy - ypos], cx - xpos)
}

/// Number of sprite rows that a draw at row `ypos` puts on screen.
pub open spec fn drawn_rows(ypos: int, n: int) -> int {
    if n <= DISPLAY_HEIGHT - ypos {
        n
    } else {
        DISPLAY_HEIGHT - ypos
    }
}

/// Registers as the draw instruction reads them: `VF` already cleared.
pub open spec fn draw_regs(regs: Seq<u8>) -> Seq<u8> {
    regs.update(15, 0u8)
}

/// Start column of a draw from register `x`.
pub open spec fn draw_xpos(regs: Seq<u8>, x: int) -> int {
    draw_regs(regs)[x] as int % (DISPLAY_WIDTH as int)
}

/// Start row of a draw from register `y`.
pub open spec fn draw_ypos(regs: Seq<u8>, y: int) -> int {
    draw_regs(regs)[y] as int % (DISPLAY_HEIGHT as int)
}

/// The framebuffer after drawing: every covered cell flips.
pub open spec fn drawn(
    display: Seq<bool>,
    ram: Seq<u8>,
    index: int,
    xpos: int,
    ypos: int,
    n: int,
) -> Seq<bool> {
    Seq::new(DISPLAY_LEN as nat, |i: int| display[i] != sprite_at(ram, index, xpos, ypos, n, i))
}

/// Some cell that the sprite covers was lit before the draw.
pub open spec fn collides(
    display: Seq<bool>,
    ram: Seq<u8>,
    index: int,
    xpos: int,
    ypos: int,
    n: int,
) -> bool {
    exists|i: int| 0 <= i < DISPLAY_LEN && #[trigger] sprite_at(ram, index, xpos, ypos, n, i) && display[i]
}

/// Registers after the arithmetic and logic instruction `8xyn`. Each step reads
/// the registers as the step before left them, so with `x` or `y` equal to 15
/// the flag written first is what the second write reads.
pub open spec fn alu_regs(regs: Seq<u8>, x: int, y: int, n: u16) -> Seq<u8> {
    let vx = regs[x] as int;
    let vy = regs[y] as int;
    if n == 0 {
        regs.update(x, regs[y])
    } else if n == 1 {
        regs.update(x, regs[x] | regs[y])
    } else if n == 2 {
        regs.update(x, regs[x] & regs[y])
    } else if n == 3 {
        regs.update(x, regs[x] ^ regs[y])
    } else if n == 4 {
        let r1 = regs.update(15, if vx + vy > 255 { 1u8 } else { 0u8 });
        r1.update(x, ((vx + vy) % 256) as u8)
    } else if n == 5 {
        let r1 = regs.update(15, if vx > vy { 1u8 } else { 0u8 });
        r1.update(x, ((r1[x] - r1[y]) % 256) as u8)
    } else if n == 6 {
        let r1 = regs.update(15, regs[x] & 1u8);
        r1.update(x, r1[x] / 2)
    } else if n == 7 {
        let r1 = regs.update(15, if vy > vx { 1u8 } else { 0u8 });
        r1.update(x, ((r1[y] - r1[x]) % 256) as u8)
    } else if n == 0xE {
        let r1 = regs.update(15, (regs[x] >> 7u8) & 1u8);
        r1.update(x, ((r1[x] * 2) % 256) as u8)
    } else {
        regs
    }
}

/// The fatal condition, if any, that instruction `w` meets on machine `s`.
pub open spec fn fault(s: Chip8, w: u16) -> Option<Chip8Error> {
    let f = op_family(w);
    let x = op_x(w) as int;
    let nn = op_nn(w);
    let index = s.index as int;
    if w == 0x00EE && s.istack == 0 {
        Some(Chip8Error::StackUnderflow)
    } else if f == 0x2000 && s.istack + 1 >= STACK_SIZE {
        Some(Chip8Error::StackOverflow)
    } else if f == 0xD000 && index + drawn_rows(
        draw_ypos(s.registers@, op_y(w) as int),
        op_n(w) as int,
    ) > RAM_SIZE {
        Some(Chip8Error::MemoryOutOfBounds)
    } else if f == 0xF000 && nn == 0x33 && index + 3 > RAM_SIZE {
        Some(Chip8Error::MemoryOutOfBounds)
    } else if f == 0xF000 && (nn == 0x55 || nn == 0x65) && index + x + 1 > RAM_SIZE {
        Some(Chip8Error::MemoryOutOfBounds)
    } else {
        None
    }
}

/// Address of the instruction after the one at `s.pc`.
pub open spec fn next_pc(s: Chip8) -> usize {
    (s.pc + 2) as usize
}

/// `s` with the program counter past the current instruction, and two more
/// bytes on when `skip` holds.
pub open spec fn advanced(s: Chip8, skip: bool) -> Chip8 {
    Chip8 { pc: if skip { (s.pc + 4) as usize } else { next_pc(s) }, ..s }
}

/// `post` differs from `pre` advanced past the current instruction in the
/// registers alone, which it holds as `regs`.
pub open spec fn sets_regs(pre: Chip8, post: Chip8, regs: Seq<u8>) -> bool {
    &&& post == Chip8 { registers: post.registers, ..advanced(pre, false) }
    &&& post.registers@ == regs
}

/// Effect of the `Fxnn` instructions on `s`, whose program counter has
/// already moved past the instruction.
pub open spec fn executes_f(s: Chip8, post: Chip8, x: int, nn: u16) -> bool {
    let regs = s.registers@;
    let index = s.index as int;
    if nn == 0x07 {
        &&& post == Chip8 { registers: post.registers, ..s }
        &&& post.registers@ == regs.update(x, s.dt)
    } else if nn == 0x0A {
        post == Chip8 { awaiting_key: Some(x as u8), ..s }
    } else if nn == 0x15 {
        post == Chip8 { dt: regs[x], ..s }
    } else if nn == 0x18 {
        post == Chip8 { st: regs[x], ..s }
    } else if nn == 0x1E {
        post == Chip8 { index: ((index + regs[x]) % 65536) as u16, ..s }
    } else if nn == 0x29 {
        post == Chip8 { index: (regs[x] * 5) as u16, ..s }
    } else if nn == 0x33 {
        &&& post == Chip8 { ram: post.ram, ..s }
        &&& post.ram@ == s.ram@.update(index, regs[x] / 100).update(
            index + 1,
            (regs[x] / 10) % 10,
        ).update(index + 2, regs[x] % 10)
    } else if nn == 0x55 {
        &&& post == Chip8 { ram: post.ram, ..s }
        &&& post.ram@ == Seq::new(
            RAM_SIZE as nat,
            |i: int|
                if index <= i <= index + x {
                    regs[i - index]
                } else {
                    s.ram@[i]
                },
        )
    } else if nn == 0x65 {
        &&& post == Chip8 { registers: post.registers, ..s }
        &&& post.registers@ == Seq::new(
            N_REGISTERS as nat,
            |i: int|
                if i <= x {
                    s.ram@[index + i]
                } else {
                    regs[i]
                },
        )
    } else {
        post == s
    }
}

/// Effect of the sprite draw `Dxyn` on `s`, whose program counter has
/// already moved past the instruction: `VF` reports a collision.
pub open spec fn executes_draw(s: Chip8, post: Chip8, x: int, y: int, n: int) -> bool {
    let regs = s.registers@;
    let xpos = draw_xpos(regs, x);
    let ypos = draw_ypos(regs, y);
    let index = s.index as int;
    let hit = collides(s.display@, s.ram@, index, xpos, ypos, n);
    &&& post == Chip8 {
        registers: post.registers,
        display: post.display,
        display_update_flag: true,
        ..s
    }
    &&& post.registers@ == regs.update(15, if hit { 1u8 } else { 0u8 })
    &&& post.display@ == drawn(s.display@, s.ram@, index, xpos, ypos, n)
}

/// Effect of instruction word `w`, fetched at `pre.pc`, on machine `pre`, when
/// it meets no fatal condition: `keys` tells which logical keys are down, and
/// `rnd` is the random byte that `Cxnn` uses.
pub open spec fn executes(pre: Chip8, post: Chip8, w: u16, keys: Seq<bool>, rnd: u8) -> bool {
    let f = op_family(w);
    let x = op_x(w) as int;
    let y = op_y(w) as int;
    let n = op_n(w);
    let nn = op_nn(w);
    let nnn = op_nnn(w);
    let regs = pre.registers@;
    let next = advanced(pre, false);
    if f == 0x0000 {
        if w == 0x00E0 {
            &&& post == Chip8 { display: post.display, display_clear_flag: true, ..next }
            &&& forall|i: int| 0 <= i < DISPLAY_LEN ==> !post.display@[i]
        } else if w == 0x00EE {
            post == Chip8 {
                pc: pre.stack@[pre.istack as int] as usize,
                istack: (pre.istack - 1) as usize,
                ..pre
            }
        } else {
            post == next
        }
    } else if f == 0x1000 {
        post == Chip8 { pc: nnn as usize, ..pre }
    } else if f == 0x2000 {
        &&& post == Chip8 {
            stack: post.stack,
            istack: (pre.istack + 1) as usize,
            pc: nnn as usize,
            ..pre
        }
        &&& post.stack@ == pre.stack@.update(pre.istack + 1, next_pc(pre) as u16)
    } else if f == 0x3000 {
        post == advanced(pre, regs[x] as u16 == nn)
    } else if f == 0x4000 {
        post == advanced(pre, regs[x] as u16 != nn)
    } else if f == 0x5000 {
        post == advanced(pre, n == 0 && regs[x] == regs[y])
    } else if f == 0x6000 {
        sets_regs(pre, post, regs.update(x, nn as u8))
    } else if f == 0x7000 {
        sets_regs(pre, post, regs.update(x, ((regs[x] + nn) % 256) as u8))
    } else if f == 0x8000 {
        sets_regs(pre, post, alu_regs(regs, x, y, n))
    } else if f == 0x9000 {
        post == advanced(pre, n == 0 && regs[x] != regs[y])
    } else if f == 0xA000 {
        post == Chip8 { index: nnn, ..next }
    } else if f == 0xB000 {
        post == Chip8 { pc: (nnn + regs[0]) as usize, ..pre }
    } else if f == 0xC000 {
        sets_regs(pre, post, regs.update(x, (nn as u8) & rnd))
    } else if f == 0xD000 {
        executes_draw(next, post, x, y, n as int)
    } else if f == 0xE000 {
        if nn == 0x9E {
            post == advanced(pre, key_down(keys, regs[x]))
        } else if nn == 0xA1 {
            post == advanced(pre, !key_down(keys, regs[x]))
        } else {
            post == next
        }
    } else {
        executes_f(next, post, x, nn)
    }
}

/// Effect of a key press on `pre`: a machine that waits for a key stores the
/// key in the waiting register and runs on; any other press changes nothing.
pub open spec fn key_pressed(pre: Chip8, post: Chip8, key: u8) -> bool {
    match pre.awaiting_key {
        Some(x) if key < 16 => {
            &&& post == Chip8 { registers: post.registers, awaiting_key: None, ..pre }
            &&& post.registers@ == pre.registers@.update(x as int, key)
        },
        _ => post == pre,
    }
}

/// A timer tick is due at time `t`: more than one 60 Hz period has passed
/// since the last one.
pub open spec fn timer_due(s: Chip8, t: u128) -> bool {
    t > s.last_timer_t && t - s.last_timer_t > TIMER_PERIOD_NS
}

/// An instruction is due at time `t`: more than one instruction period has
/// passed since the last one.
pub open spec fn instruction_due(s: Chip8, t: u128) -> bool {
    t > s.last_instruction_t && t - s.last_instruction_t > s.instruction_time_ns
}

/// `s` after the timer phase of a step at time `t`: the per-step flags are
/// cleared, and on a due tick both timers count down toward zero and the tone
/// is requested while the sound timer stays above zero.
pub open spec fn after_timers(s: Chip8, t: u128) -> Chip8 {
    let due = timer_due(s, t);
    Chip8 {
        dt: if due && s.dt > 0 { (s.dt - 1) as u8 } else { s.dt },
        st: if due && s.st > 0 { (s.st - 1) as u8 } else { s.st },
        beep_flag: due && s.st > 1,
        display_update_flag: false,
        display_clear_flag: false,
        last_timer_t: if due { t } else { s.last_timer_t },
        ..s
    }
}

/// What one step at time `t` does to `pre`, giving `post` and the result `r`:
/// `Ok(Some(w))` when it executed instruction `w`, `Ok(None)` when no
/// instruction was due or the machine waits for a key, `Err` on a fatal
/// condition, which leaves the instruction phase without effect.
pub open spec fn step_post(
    pre: Chip8,
    post: Chip8,
    t: u128,
    keys: Seq<bool>,
    rnd: u8,
    r: Result<Option<u16>, Chip8Error>,
) -> bool {
    if pre.awaiting_key is Some {
        r == Ok::<Option<u16>, Chip8Error>(None) && post == pre
    } else {
        let mid = after_timers(pre, t);
        if !instruction_due(mid, t) {
            r == Ok::<Option<u16>, Chip8Error>(None) && post == mid
        } else if mid.pc + 1 >= RAM_SIZE {
            r == Err::<Option<u16>, Chip8Error>(Chip8Error::ProgramOutOfBounds) && post == mid
        } else {
            let w = word_at(mid.ram@, mid.pc as int);
            let ready = Chip8 { last_instruction_t: t, ..mid };
            match fault(ready, w) {
                Some(e) => r == Err::<Option<u16>, Chip8Error>(e) && post == mid,
                None => r == Ok::<Option<u16>, Chip8Error>(Some(w)) && executes(
                    ready,
                    post,
                    w,
                    keys,
                    rnd,
                ),
            }
        }
    }
}

} // verus!

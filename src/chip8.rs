use vstd::prelude::*;

use crate::constants::{
    DISPLAY_HEIGHT, DISPLAY_LEN, DISPLAY_WIDTH, FONT_LEN, N_KEYS, N_REGISTERS, PROGRAM_LOC,
    RAM_SIZE, STACK_SIZE, TIMER_PERIOD_NS,
};
use crate::decode::{decode, lemma_family_cases, word_at};
use crate::semantics::{
    advanced, after_timers, alu_regs, collides, draw_xpos, draw_ypos, drawn, drawn_rows, executes,
    executes_draw, executes_f, fault, key_down, key_pressed, sprite_at, step_post,
};

verus! {

/// The fatal conditions of the machine.
#[derive(Clone, Copy, Debug, PartialEq, Eq, Structural)]
pub enum Chip8Error {
    /// The ROM does not fit in memory from the program start address on.
    RomTooLarge,
    /// A fetch at the program counter would read past the end of memory.
    ProgramOutOfBounds,
    /// A call found every stack slot taken.
    StackOverflow,
    /// A return found the stack empty.
    StackUnderflow,
    /// An instruction addressed memory through `I` past its end.
    MemoryOutOfBounds,
}

/// The glyphs `0` to `F`, five bytes each.
pub open spec fn font_spec() -> Seq<u8> {
    seq![
        0xF0u8, 0x90, 0x90, 0x90, 0xF0, 0x20, 0x60, 0x20, 0x20, 0x70,
        0xF0, 0x10, 0xF0, 0x80, 0xF0, 0xF0, 0x10, 0xF0, 0x10, 0xF0,
        0x90, 0x90, 0xF0, 0x10, 0x10, 0xF0, 0x80, 0xF0, 0x10, 0xF0,
        0xF0, 0x80, 0xF0, 0x90, 0xF0, 0xF0, 0x10, 0x20, 0x40, 0x40,
        0xF0, 0x90, 0xF0, 0x90, 0xF0, 0xF0, 0x90, 0xF0, 0x10, 0xF0,
        0xF0, 0x90, 0xF0, 0x90, 0x90, 0xE0, 0x90, 0xE0, 0x90, 0xE0,
        0xF0, 0x80, 0x80, 0x80, 0xF0, 0xE0, 0x90, 0x90, 0x90, 0xE0,
        0xF0, 0x80, 0xF0, 0x80, 0xF0, 0xF0, 0x80, 0xF0, 0x80, 0x80,
    ]
}

/// The font table, as written at address 0 of every new machine.
pub fn fonts() -> (r: [u8; FONT_LEN])
    ensures
        r@ == font_spec(),
{
    let r: [u8; FONT_LEN] = [
        0xF0, 0x90, 0x90, 0x90, 0xF0, // 0
        0x20, 0x60, 0x20, 0x20, 0x70, // 1
        0xF0, 0x10, 0xF0, 0x80, 0xF0, // 2
        0xF0, 0x10, 0xF0, 0x10, 0xF0, // 3
        0x90, 0x90, 0xF0, 0x10, 0x10, // 4
        0xF0, 0x80, 0xF0, 0x10, 0xF0, // 5
        0xF0, 0x80, 0xF0, 0x90, 0xF0, // 6
        0xF0, 0x10, 0x20, 0x40, 0x40, // 7
        0xF0, 0x90, 0xF0, 0x90, 0xF0, // 8
        0xF0, 0x90, 0xF0, 0x10, 0xF0, // 9
        0xF0, 0x90, 0xF0, 0x90, 0x90, // A
        0xE0, 0x90, 0xE0, 0x90, 0xE0, // B
        0xF0, 0x80, 0x80, 0x80, 0xF0, // C
        0xE0, 0x90, 0x90, 0x90, 0xE0, // D
        0xF0, 0x80, 0xF0, 0x80, 0xF0, // E
        0xF0, 0x80, 0xF0, 0x80, 0x80, // F
    ];
    assert(r@ =~= font_spec());
    r
}

/// Memory of a machine just loaded with `rom`: the font table at address 0,
/// the ROM from the program start address on, zero elsewhere.
pub open spec fn initial_ram(rom: Seq<u8>) -> Seq<u8> {
    Seq::new(
        RAM_SIZE as nat,
        |i: int|
            if i < FONT_LEN {
                font_spec()[i]
            } else if PROGRAM_LOC <= i < PROGRAM_LOC + rom.len() {
                rom[i - PROGRAM_LOC]
            } else {
                0u8
            },
    )
}

/// The state of a CHIP-8 machine.
pub struct Chip8 {
    /// RAM: 4 kB.
    pub ram: [u8; RAM_SIZE],
    /// Registers `V0` to `VF`.
    pub registers: [u8; N_REGISTERS],
    /// Index register `I`.
    pub index: u16,
    /// Stack of return addresses; slot 0 is never used.
    pub stack: [u16; STACK_SIZE],
    /// Index of the top of the stack; 0 when the stack is empty.
    pub istack: usize,
    /// Program counter.
    pub pc: usize,
    /// Delay timer.
    pub dt: u8,
    /// Sound timer.
    pub st: u8,
    /// Framebuffer, row-major: `true` is a lit cell.
    pub display: [bool; DISPLAY_LEN],
    /// The last step drew a sprite: the framebuffer needs a redraw.
    pub display_update_flag: bool,
    /// The last step cleared the framebuffer.
    pub display_clear_flag: bool,
    /// The tone should be audible.
    pub beep_flag: bool,
    /// The register that waits for a key press, while the machine is halted on one.
    pub awaiting_key: Option<u8>,
    /// Time between two instructions, in nanoseconds.
    pub instruction_time_ns: u128,
    /// Run in debug mode.
    pub debug_mode: bool,
    /// Time of the last timer tick, in nanoseconds.
    pub last_timer_t: u128,
    /// Time of the last instruction, in nanoseconds.
    pub last_instruction_t: u128,
}

impl Chip8 {
    /// The machine's invariant: the stack top stays inside the stack, and a
    /// waiting key goes to an existing register.
    pub open spec fn wf(&self) -> bool {
        &&& self.istack < STACK_SIZE
        &&& match self.awaiting_key {
            Some(x) => x < N_REGISTERS,
            None => true,
        }
    }

    /// Initializes the machine with the given ROM data and start time (ns).
    pub fn new(rom: Vec<u8>, start_t: u128, instruction_time_ns: u128, debug_mode: bool) -> (r:
        Result<Chip8, Chip8Error>)
        ensures
            r is Err <==> PROGRAM_LOC + rom@.len() > RAM_SIZE,
            r is Err ==> r == Err::<Chip8, Chip8Error>(Chip8Error::RomTooLarge),
            r matches Ok(m) ==> {
                &&& m.wf()
                &&& m.ram@ == initial_ram(rom@)
                &&& forall|i: int| 0 <= i < N_REGISTERS ==> m.registers@[i] == 0
                &&& forall|i: int| 0 <= i < STACK_SIZE ==> m.stack@[i] == 0
                &&& forall|i: int| 0 <= i < DISPLAY_LEN ==> !m.display@[i]
                &&& m.index == 0 && m.istack == 0 && m.pc == PROGRAM_LOC
                &&& m.dt == 0 && m.st == 0
                &&& !m.display_update_flag && !m.display_clear_flag && !m.beep_flag
                &&& m.awaiting_key is None
                &&& m.instruction_time_ns == instruction_time_ns
                &&& m.debug_mode == debug_mode
                &&& m.last_timer_t == start_t && m.last_instruction_t == start_t
            },
    {
        let bytes = rom.len();
        if bytes > RAM_SIZE - PROGRAM_LOC {
            return Err(Chip8Error::RomTooLarge);
        }
        let mut ram: [u8; RAM_SIZE] = [0; RAM_SIZE];
        let font = fonts();
        let mut i: usize = 0;
        while i < FONT_LEN
            invariant
                i <= FONT_LEN,
                font@ == font_spec(),
                forall|j: int| 0 <= j < i ==> ram@[j] == font_spec()[j],
                forall|j: int| i <= j < RAM_SIZE ==> ram@[j] == 0,
            decreases FONT_LEN - i,
        {
            ram[i] = font[i];
            i = i + 1;
        }
        let mut k: usize = 0;
        while k < bytes
            invariant
                k <= bytes,
                bytes == rom@.len(),
                PROGRAM_LOC + bytes <= RAM_SIZE,
                forall|j: int| 0 <= j < FONT_LEN ==> ram@[j] == font_spec()[j],
                forall|j: int| FONT_LEN <= j < PROGRAM_LOC ==> ram@[j] == 0,
                forall|j: int| 0 <= j < k ==> ram@[PROGRAM_LOC + j] == rom@[j],
                forall|j: int| PROGRAM_LOC + k <= j < RAM_SIZE ==> ram@[j] == 0,
            decreases bytes - k,
        {
            ram[PROGRAM_LOC + k] = rom[k];
            k = k + 1;
        }
        assert(ram@ =~= initial_ram(rom@)) by {
            assert forall|j: int| PROGRAM_LOC <= j < PROGRAM_LOC + bytes implies ram@[j]
                == rom@[j - PROGRAM_LOC] by {
                assert(ram@[PROGRAM_LOC + (j - PROGRAM_LOC)] == rom@[j - PROGRAM_LOC]);
            }
        }
        Ok(
            Chip8 {
                ram,
                registers: [0; N_REGISTERS],
                index: 0,
                stack: [0; STACK_SIZE],
                istack: 0,
                pc: PROGRAM_LOC,
                dt: 0,
                st: 0,
                display: [false; DISPLAY_LEN],
                display_update_flag: false,
                display_clear_flag: false,
                beep_flag: false,
                awaiting_key: None,
                instruction_time_ns,
                debug_mode,
                last_timer_t: start_t,
                last_instruction_t: start_t,
            },
        )
    }
}

/// Cell `cy * 64 + cx` of the framebuffer lies in column `cx` and row `cy`.
proof fn lemma_cell(cx: int, cy: int)
    requires
        0 <= cx < DISPLAY_WIDTH,
        0 <= cy,
    ensures
        (cy * DISPLAY_WIDTH + cx) % (DISPLAY_WIDTH as int) == cx,
        (cy * DISPLAY_WIDTH + cx) / (DISPLAY_WIDTH as int) == cy,
{
    assert((cy * 64 + cx) % 64 == cx && (cy * 64 + cx) / 64 == cy) by (nonlinear_arith)
        requires
            0 <= cx < 64,
            0 <= cy,
    ;
}

impl Chip8 {
    /// Executes `8xyn` on the registers.
    fn exec_alu(&mut self, x: usize, y: usize, n: u16)
        requires
            x < N_REGISTERS,
            y < N_REGISTERS,
        ensures
            *final(self) == (Chip8 { registers: final(self).registers, ..*old(self) }),
            final(self).registers@ == alu_regs(old(self).registers@, x as int, y as int, n),
    {
        let vx = self.registers[x];
        let vy = self.registers[y];
        if n == 0 {
            self.registers[x] = vy;
        } else if n == 1 {
            self.registers[x] = vx | vy;
        } else if n == 2 {
            self.registers[x] = vx & vy;
        } else if n == 3 {
            self.registers[x] = vx ^ vy;
        } else if n == 4 {
            let sum: u16 = vx as u16 + vy as u16;
            self.registers[15] = if sum > 255 { 1 } else { 0 };
            self.registers[x] = (sum % 256) as u8;
        } else if n == 5 {
            self.registers[15] = if vx > vy { 1 } else { 0 };
            let a = self.registers[x];
            let b = self.registers[y];
            self.registers[x] = a.wrapping_sub(b);
        } else if n == 6 {
            self.registers[15] = vx & 1;
            let a = self.registers[x];
            self.registers[x] = a / 2;
        } else if n == 7 {
            self.registers[15] = if vy > vx { 1 } else { 0 };
            let a = self.registers[x];
            let b = self.registers[y];
            self.registers[x] = b.wrapping_sub(a);
        } else if n == 0xE {
            self.registers[15] = (vx >> 7) & 1;
            let a = self.registers[x];
            self.registers[x] = (a % 128) * 2;
        }
        assert(self.registers@ =~= alu_regs(old(self).registers@, x as int, y as int, n));
    }

    /// Executes the sprite draw `Dxyn`, with `n` rows read from memory at `I`.
    fn exec_draw(&mut self, x: usize, y: usize, n: u16)
        requires
            x < N_REGISTERS,
            y < N_REGISTERS,
            n < 16,
            old(self).index + drawn_rows(draw_ypos(old(self).registers@, y as int), n as int)
                <= RAM_SIZE,
        ensures
            executes_draw(*old(self), *final(self), x as int, y as int, n as int),
    {
        let ghost pre = *self;
        self.registers[15] = 0;
        let ghost mid = *self;
        let xpos: usize = self.registers[x] as usize % DISPLAY_WIDTH;
        let ypos: usize = self.registers[y] as usize % DISPLAY_HEIGHT;
        let rows: usize = if (n as usize) <= DISPLAY_HEIGHT - ypos {
            n as usize
        } else {
            DISPLAY_HEIGHT - ypos
        };
        let cols: usize = if 8 <= DISPLAY_WIDTH - xpos {
            8
        } else {
            DISPLAY_WIDTH - xpos
        };
        let base: usize = self.index as usize;
        let ghost ram = pre.ram@;
        let ghost d0 = pre.display@;
        let ghost nn = n as int;
        assert(xpos == draw_xpos(pre.registers@, x as int));
        assert(ypos == draw_ypos(pre.registers@, y as int));
        let mut hit = false;
        let mut row: usize = 0;
        while row < rows
            invariant
                row <= rows,
                rows == drawn_rows(ypos as int, nn),
                base + rows <= RAM_SIZE,
                base == pre.index,
                xpos < DISPLAY_WIDTH,
                ypos < DISPLAY_HEIGHT,
                cols == (if 8 <= DISPLAY_WIDTH - xpos { 8 } else { DISPLAY_WIDTH - xpos }),
                ram == pre.ram@,
                ram == mid.ram@,
                d0 == pre.display@,
                *self == (Chip8 { display: self.display, ..mid }),
                forall|i: int|
                    0 <= i < DISPLAY_LEN ==> self.display@[i] == (d0[i] != (sprite_at(
                        ram,
                        base as int,
                        xpos as int,
                        ypos as int,
                        nn,
                        i,
                    ) && i / 64 < ypos + row)),
                hit ==> collides(d0, ram, base as int, xpos as int, ypos as int, nn),
                !hit ==> forall|i: int|
                    0 <= i < DISPLAY_LEN && i / 64 < ypos + row ==> !(sprite_at(
                        ram,
                        base as int,
                        xpos as int,
                        ypos as int,
                        nn,
                        i,
                    ) && d0[i]),
            decreases rows - row,
        {
            let bits = self.ram[base + row];
            let mut col: usize = 0;
            while col < cols
                invariant
                    row < rows,
                    rows == drawn_rows(ypos as int, nn),
                    base + rows <= RAM_SIZE,
                    base == pre.index,
                    xpos < DISPLAY_WIDTH,
                    ypos < DISPLAY_HEIGHT,
                    col <= cols,
                    cols == (if 8 <= DISPLAY_WIDTH - xpos { 8 } else { DISPLAY_WIDTH - xpos }),
                    ram == pre.ram@,
                    d0 == pre.display@,
                    bits == ram[base + row],
                    *self == (Chip8 { display: self.display, ..mid }),
                    forall|i: int|
                        0 <= i < DISPLAY_LEN ==> self.display@[i] == (d0[i] != (sprite_at(
                            ram,
                            base as int,
                            xpos as int,
                            ypos as int,
                            nn,
                            i,
                        ) && (i / 64 < ypos + row || (i / 64 == ypos + row && i % 64 < xpos
                            + col)))),
                    hit ==> collides(d0, ram, base as int, xpos as int, ypos as int, nn),
                    !hit ==> forall|i: int|
                        0 <= i < DISPLAY_LEN && (i / 64 < ypos + row || (i / 64 == ypos + row
                            && i % 64 < xpos + col)) ==> !(sprite_at(
                            ram,
                            base as int,
                            xpos as int,
                            ypos as int,
                            nn,
                            i,
                        ) && d0[i]),
                decreases cols - col,
            {
                let cx: usize = xpos + col;
                let cy: usize = ypos + row;
                let i: usize = cy * DISPLAY_WIDTH + cx;
                proof {
                    lemma_cell(cx as int, cy as int);
                }
                if (bits >> ((7 - col) as u8)) & 1 == 1 {
                    assert(sprite_at(ram, base as int, xpos as int, ypos as int, nn, i as int));
                    let cur = self.display[i];
                    if cur {
                        hit = true;
                    }
                    self.display[i] = !cur;
                } else {
                    assert(!sprite_at(ram, base as int, xpos as int, ypos as int, nn, i as int));
                }
                col = col + 1;
            }
            row = row + 1;
        }
        if hit {
            self.registers[15] = 1;
        }
        let ghost hit_spec = collides(d0, ram, base as int, xpos as int, ypos as int, nn);
        assert(self.registers@ =~= pre.registers@.update(15, if hit_spec { 1u8 } else { 0u8 }));
        assert(self.display@ =~= drawn(d0, ram, base as int, xpos as int, ypos as int, nn));
        self.display_update_flag = true;
    }
}

/// Time between two instructions, in nanoseconds, at `ips` instructions per
/// second.
pub fn instruction_time_ns(ips: u32) -> (r: u128)
    requires
        ips > 0,
    ensures
        r == 1_000_000_000int / (ips as int),
{
    1_000_000_000u128 / ips as u128
}

/// Relies on rand::random: a byte drawn from the thread-local generator,
/// uniform over all values; nothing is known of which.
#[verifier::external_body]
fn random_byte() -> (r: u8) {
    rand::random::<u8>()
}

impl Chip8 {
    /// Executes the `Fxnn` instructions other than the memory faults, which the
    /// caller has ruled out.
    fn exec_f(&mut self, x: usize, nn: u16)
        requires
            x < N_REGISTERS,
            nn == 0x33 ==> old(self).index + 3 <= RAM_SIZE,
            nn == 0x55 || nn == 0x65 ==> old(self).index + x + 1 <= RAM_SIZE,
        ensures
            executes_f(*old(self), *final(self), x as int, nn),
    {
        let vx = self.registers[x];
        if nn == 0x07 {
            self.registers[x] = self.dt;
            assert(self.registers@ =~= old(self).registers@.update(x as int, old(self).dt));
        } else if nn == 0x0A {
            self.awaiting_key = Some(x as u8);
        } else if nn == 0x15 {
            self.dt = vx;
        } else if nn == 0x18 {
            self.st = vx;
        } else if nn == 0x1E {
            self.index = self.index.wrapping_add(vx as u16);
        } else if nn == 0x29 {
            self.index = vx as u16 * 5;
        } else if nn == 0x33 {
            let i = self.index as usize;
            self.ram[i] = vx / 100;
            self.ram[i + 1] = (vx / 10) % 10;
            self.ram[i + 2] = vx % 10;
        } else if nn == 0x55 {
            let base = self.index as usize;
            let ghost pre = *old(self);
            let mut k: usize = 0;
            while k <= x
                invariant
                    x < N_REGISTERS,
                    base == pre.index,
                    base + x + 1 <= RAM_SIZE,
                    k <= x + 1,
                    *self == (Chip8 { ram: self.ram, ..pre }),
                    self.ram@ =~= Seq::new(
                        RAM_SIZE as nat,
                        |i: int|
                            if base <= i < base + k {
                                pre.registers@[i - base]
                            } else {
                                pre.ram@[i]
                            },
                    ),
                decreases x + 1 - k,
            {
                self.ram[base + k] = self.registers[k];
                k = k + 1;
            }
            assert(self.ram@ =~= Seq::new(
                RAM_SIZE as nat,
                |i: int|
                    if base <= i <= base + x {
                        pre.registers@[i - base]
                    } else {
                        pre.ram@[i]
                    },
            ));
        } else if nn == 0x65 {
            let base = self.index as usize;
            let ghost pre = *old(self);
            let mut k: usize = 0;
            while k <= x
                invariant
                    x < N_REGISTERS,
                    base == pre.index,
                    base + x + 1 <= RAM_SIZE,
                    k <= x + 1,
                    *self == (Chip8 { registers: self.registers, ..pre }),
                    self.registers@ =~= Seq::new(
                        N_REGISTERS as nat,
                        |i: int|
                            if i < k {
                                pre.ram@[base + i]
                            } else {
                                pre.registers@[i]
                            },
                    ),
                decreases x + 1 - k,
            {
                self.registers[k] = self.ram[base + k];
                k = k + 1;
            }
            assert(self.registers@ =~= Seq::new(
                N_REGISTERS as nat,
                |i: int|
                    if i <= x {
                        pre.ram@[base + i]
                    } else {
                        pre.registers@[i]
                    },
            ));
        }
    }

    /// Executes instruction word `w`, fetched at the program counter, unless it
    /// meets a fatal condition, in which case nothing changes.
    fn execute(&mut self, w: u16, keys: &[bool; N_KEYS], rnd: u8) -> (r: Result<(), Chip8Error>)
        requires
            old(self).wf(),
            old(self).pc + 1 < RAM_SIZE,
        ensures
            final(self).wf(),
            match fault(*old(self), w) {
                Some(e) => r == Err::<(), Chip8Error>(e) && *final(self) == *old(self),
                None => r is Ok && executes(*old(self), *final(self), w, keys@, rnd),
            },
    {
        let d = decode(w);
        proof {
            lemma_family_cases(w);
        }
        let x = d.x;
        let y = d.y;
        if w == 0x00EE && self.istack == 0 {
            return Err(Chip8Error::StackUnderflow);
        }
        if d.code == 0x2000 && self.istack + 1 >= STACK_SIZE {
            return Err(Chip8Error::StackOverflow);
        }
        if d.code == 0xD000 {
            let ypos: usize = if y == 15 {
                0
            } else {
                self.registers[y] as usize % DISPLAY_HEIGHT
            };
            assert(ypos == draw_ypos(self.registers@, y as int));
            let rows: usize = if d.n as usize <= DISPLAY_HEIGHT - ypos {
                d.n as usize
            } else {
                DISPLAY_HEIGHT - ypos
            };
            if self.index as usize + rows > RAM_SIZE {
                return Err(Chip8Error::MemoryOutOfBounds);
            }
        }
        if d.code == 0xF000 && d.nn == 0x33 && self.index as usize + 3 > RAM_SIZE {
            return Err(Chip8Error::MemoryOutOfBounds);
        }
        if d.code == 0xF000 && (d.nn == 0x55 || d.nn == 0x65) && self.index as usize + x + 1
            > RAM_SIZE {
            return Err(Chip8Error::MemoryOutOfBounds);
        }
        let ghost pre = *self;
        self.pc = self.pc + 2;
        assert(*self == advanced(pre, false));
        let vx = self.registers[x];
        let vy = self.registers[y];
        if d.code == 0x0000 {
            if w == 0x00E0 {
                // CLS
                let mut i: usize = 0;
                while i < DISPLAY_LEN
                    invariant
                        i <= DISPLAY_LEN,
                        forall|j: int| 0 <= j < i ==> !self.display@[j],
                        self.pc == pre.pc + 2,
                        *self == (Chip8 { display: self.display, pc: self.pc, ..pre }),
                    decreases DISPLAY_LEN - i,
                {
                    self.display[i] = false;
                    i = i + 1;
                }
                self.display_clear_flag = true;
            } else if w == 0x00EE {
                // RET
                self.pc = self.stack[self.istack] as usize;
                self.istack = self.istack - 1;
            }
        } else if d.code == 0x1000 {
            // JP nnn
            self.pc = d.nnn as usize;
        } else if d.code == 0x2000 {
            // CALL nnn
            self.istack = self.istack + 1;
            self.stack[self.istack] = self.pc as u16;
            self.pc = d.nnn as usize;
        } else if d.code == 0x3000 {
            // SE Vx, nn
            if vx as u16 == d.nn {
                self.pc = self.pc + 2;
            }
        } else if d.code == 0x4000 {
            // SNE Vx, nn
            if vx as u16 != d.nn {
                self.pc = self.pc + 2;
            }
        } else if d.code == 0x5000 {
            // SE Vx, Vy
            if d.n == 0 && vx == vy {
                self.pc = self.pc + 2;
            }
        } else if d.code == 0x6000 {
            // LD Vx, nn
            self.registers[x] = d.nn as u8;
            assert(self.registers@ =~= pre.registers@.update(x as int, d.nn as u8));
        } else if d.code == 0x7000 {
            // ADD Vx, nn
            self.registers[x] = vx.wrapping_add(d.nn as u8);
            assert(self.registers@ =~= pre.registers@.update(
                x as int,
                ((vx + d.nn) % 256) as u8,
            ));
        } else if d.code == 0x8000 {
            self.exec_alu(x, y, d.n);
        } else if d.code == 0x9000 {
            // SNE Vx, Vy
            if d.n == 0 && vx != vy {
                self.pc = self.pc + 2;
            }
        } else if d.code == 0xA000 {
            // LD I, nnn
            self.index = d.nnn;
        } else if d.code == 0xB000 {
            // JP V0, nnn
            self.pc = d.nnn as usize + self.registers[0] as usize;
        } else if d.code == 0xC000 {
            // RND Vx, nn
            self.registers[x] = (d.nn as u8) & rnd;
            assert(self.registers@ =~= pre.registers@.update(x as int, (d.nn as u8) & rnd));
        } else if d.code == 0xD000 {
            // DRW Vx, Vy, n
            self.exec_draw(x, y, d.n);
        } else if d.code == 0xE000 {
            let down = (vx as usize) < N_KEYS && keys[vx as usize];
            assert(down == key_down(keys@, vx));
            if d.nn == 0x9E {
                // SKP Vx
                if down {
                    self.pc = self.pc + 2;
                }
            } else if d.nn == 0xA1 {
                // SKNP Vx
                if !down {
                    self.pc = self.pc + 2;
                }
            }
        } else {
            self.exec_f(x, d.nn);
        }
        Ok(())
    }

    /// Runs one step at time `t` (ns), with `keys` the logical keys that are
    /// down and `rnd` the random byte that a `Cxnn` instruction takes.
    ///
    /// The timers tick when more than a 60 Hz period has passed since their
    /// last tick; one instruction runs when more than the instruction period
    /// has passed since the last one. While the machine waits for a key it is
    /// frozen. Returns the word of the instruction that ran, if any.
    pub fn step(&mut self, t: u128, keys: &[bool; N_KEYS], rnd: u8) -> (r: Result<
        Option<u16>,
        Chip8Error,
    >)
        requires
            old(self).wf(),
        ensures
            final(self).wf(),
            step_post(*old(self), *final(self), t, keys@, rnd, r),
    {
        if self.awaiting_key.is_some() {
            return Ok(None);
        }
        self.display_update_flag = false;
        self.display_clear_flag = false;
        self.beep_flag = false;
        // Timers: decrement 60 times per second while above zero.
        if t > self.last_timer_t && t - self.last_timer_t > TIMER_PERIOD_NS {
            if self.dt > 0 {
                self.dt = self.dt - 1;
            }
            if self.st > 0 {
                self.st = self.st - 1;
                self.beep_flag = self.st > 0;
            }
            self.last_timer_t = t;
        }
        assert(*self == after_timers(*old(self), t));
        if !(t > self.last_instruction_t && t - self.last_instruction_t > self.instruction_time_ns) {
            return Ok(None);
        }
        if self.pc >= RAM_SIZE - 1 {
            return Err(Chip8Error::ProgramOutOfBounds);
        }
        let instr: u16 = self.ram[self.pc] as u16 * 256 + self.ram[self.pc + 1] as u16;
        assert(instr == word_at(self.ram@, self.pc as int));
        let last = self.last_instruction_t;
        self.last_instruction_t = t;
        match self.execute(instr, keys, rnd) {
            Ok(()) => Ok(Some(instr)),
            Err(e) => {
                self.last_instruction_t = last;
                Err(e)
            },
        }
    }

    /// Runs one step at time `t` (ns), with `keys` the logical keys that are
    /// down, drawing the random byte for `Cxnn` itself. Whatever byte is
    /// drawn, the step is one that `step` describes.
    pub fn cycle(&mut self, t: u128, keys: &[bool; N_KEYS]) -> (r: Result<Option<u16>, Chip8Error>)
        requires
            old(self).wf(),
        ensures
            final(self).wf(),
            exists|rnd: u8| step_post(*old(self), *final(self), t, keys@, rnd, r),
    {
        let rnd = random_byte();
        let r = self.step(t, keys, rnd);
        assert(step_post(*old(self), *self, t, keys@, rnd, r));
        r
    }

    /// Delivers a press of logical key `key`: a machine that waits for a key
    /// stores it in the waiting register and runs on.
    pub fn press_key(&mut self, key: u8)
        requires
            old(self).wf(),
        ensures
            final(self).wf(),
            key_pressed(*old(self), *final(self), key),
    {
        if key < 16 {
            if let Some(x) = self.awaiting_key {
                self.registers[x as usize] = key;
                self.awaiting_key = None;
            }
        }
    }
}

} // verus!

use vstd::prelude::*;

use crate::error::Chip8Error;
use crate::opcode::decoded;

verus! {

/// Bytes of addressable memory.
pub const RAM_SIZE: usize = 4096;

/// General-purpose registers V0..VF.
pub const NUM_REGISTERS: usize = 16;

/// Keys of the hexadecimal keypad.
pub const NUM_KEYS: usize = 16;

/// Columns of the framebuffer.
pub const WIDTH: usize = 64;

/// Rows of the framebuffer.
pub const HEIGHT: usize = 32;

/// Pixels of the framebuffer; pixel `(x, y)` is at `y * WIDTH + x`.
pub const PIXELS: usize = 2048;

/// Where programs are loaded and execution starts.
pub const PROGRAM_START: usize = 0x200;

/// Bytes of the built-in font: sixteen glyphs of five rows each.
pub const FONT_SIZE: usize = 80;

/// The machine as mathematical values.
///
/// `stack` holds the live return addresses, oldest first, so its length is
/// the stack pointer.
pub struct Chip8State {
    pub memory: Seq<u8>,
    pub v: Seq<u8>,
    pub i: u16,
    pub pc: u16,
    pub stack: Seq<u16>,
    pub delay_timer: u8,
    pub sound_timer: u8,
    pub display: Seq<bool>,
    pub keyboard: Seq<bool>,
    pub draw: bool,
}

/// The glyphs 0..F, five rows of four pixels each, in the high nibble.
pub open spec fn font_data() -> Seq<u8> {
    seq![
        0xF0u8, 0x90, 0x90, 0x90, 0xF0,
        0x20, 0x60, 0x20, 0x20, 0x70,
        0xF0, 0x10, 0xF0, 0x80, 0xF0,
        0xF0, 0x10, 0xF0, 0x10, 0xF0,
        0x90, 0x90, 0xF0, 0x10, 0x10,
        0xF0, 0x80, 0xF0, 0x10, 0xF0,
        0xF0, 0x80, 0xF0, 0x90, 0xF0,
        0xF0, 0x10, 0x20, 0x40, 0x40,
        0xF0, 0x90, 0xF0, 0x90, 0xF0,
        0xF0, 0x90, 0xF0, 0x10, 0xF0,
        0xF0, 0x90, 0xF0, 0x90, 0x90,
        0xE0, 0x90, 0xE0, 0x90, 0xE0,
        0xF0, 0x80, 0x80, 0x80, 0xF0,
        0xE0, 0x90, 0x90, 0x90, 0xE0,
        0xF0, 0x80, 0xF0, 0x80, 0xF0,
        0xF0, 0x80, 0xF0, 0x80, 0x80,
    ]
}

/// A freshly created machine: the font at address 0, everything else zero,
/// execution about to start at 0x200.
pub open spec fn initial_state() -> Chip8State {
    Chip8State {
        memory: font_data() + Seq::new((RAM_SIZE - FONT_SIZE) as nat, |k: int| 0u8),
        v: Seq::new(NUM_REGISTERS as nat, |k: int| 0u8),
        i: 0,
        pc: PROGRAM_START as u16,
        stack: Seq::empty(),
        delay_timer: 0,
        sound_timer: 0,
        display: Seq::new(PIXELS as nat, |p: int| false),
        keyboard: Seq::new(NUM_KEYS as nat, |k: int| false),
        draw: false,
    }
}

/// Memory is addressed modulo its size: only the low twelve bits of an
/// address are meaningful.
pub open spec fn mem_addr(a: int) -> int {
    a % (RAM_SIZE as int)
}

/// The instruction word at `pc`, high byte first.
pub open spec fn opcode_at(s: Chip8State) -> u16 {
    (s.memory[mem_addr(s.pc as int)] as int * 256 + s.memory[mem_addr(s.pc + 1)] as int) as u16
}

/// `pc` moved forward by `k` bytes; the counter is sixteen bits wide.
pub open spec fn pc_after(pc: u16, k: int) -> u16 {
    ((pc + k) % 0x10000) as u16
}

/// Moves on to the next instruction.
pub open spec fn next(s: Chip8State) -> Chip8State {
    Chip8State { pc: pc_after(s.pc, 2), ..s }
}

/// Skips the next instruction when `cond` holds, else moves on to it.
pub open spec fn skip_if(s: Chip8State, cond: bool) -> Chip8State {
    Chip8State { pc: pc_after(s.pc, if cond { 4 } else { 2 }), ..s }
}

/// Register `x` set to `val`, then on to the next instruction.
pub open spec fn set_register(s: Chip8State, x: u8, val: u8) -> Chip8State {
    next(Chip8State { v: s.v.update(x as int, val), ..s })
}

/// 00E0: every pixel unset.
pub open spec fn clear_display(s: Chip8State) -> Chip8State {
    next(Chip8State { display: Seq::new(PIXELS as nat, |p: int| false), ..s })
}

/// 00EE: the newest return address popped into `pc`.
pub open spec fn return_from(s: Chip8State) -> Result<Chip8State, Chip8Error> {
    if s.stack.len() == 0 {
        Err(Chip8Error::StackUnderflow)
    } else {
        Ok(Chip8State { pc: s.stack.last(), stack: s.stack.drop_last(), ..s })
    }
}

/// 2nnn: the address of the following instruction pushed, then a jump to `nnn`.
pub open spec fn call(s: Chip8State, nnn: u16) -> Result<Chip8State, Chip8Error> {
    if s.stack.len() >= 16 {
        Err(Chip8Error::StackOverflow)
    } else {
        Ok(Chip8State { pc: nnn, stack: s.stack.push(pc_after(s.pc, 2)), ..s })
    }
}

/// 8xy4: Vx = Vx + Vy modulo 256, then VF = the carry.
pub open spec fn add_registers(s: Chip8State, x: u8, y: u8) -> Chip8State {
    let sum = s.v[x as int] + s.v[y as int];
    let v = s.v.update(x as int, (sum % 256) as u8).update(15, if sum > 255 { 1u8 } else { 0u8 });
    next(Chip8State { v, ..s })
}

/// 8xy5: VF = whether Vx > Vy, then Vx = Vx - Vy modulo 256.
pub open spec fn sub_registers(s: Chip8State, x: u8, y: u8) -> Chip8State {
    let f = s.v.update(15, if s.v[x as int] > s.v[y as int] { 1u8 } else { 0u8 });
    next(Chip8State { v: f.update(x as int, ((f[x as int] - f[y as int]) % 256) as u8), ..s })
}

/// 8xy7: VF = whether Vy > Vx, then Vx = Vy - Vx modulo 256.
pub open spec fn sub_registers_reversed(s: Chip8State, x: u8, y: u8) -> Chip8State {
    let f = s.v.update(15, if s.v[y as int] > s.v[x as int] { 1u8 } else { 0u8 });
    next(Chip8State { v: f.update(x as int, ((f[y as int] - f[x as int]) % 256) as u8), ..s })
}

/// 8xy6: VF = the low bit of Vx, then Vx halved.
pub open spec fn shift_right(s: Chip8State, x: u8) -> Chip8State {
    let f = s.v.update(15, s.v[x as int] % 2);
    next(Chip8State { v: f.update(x as int, f[x as int] / 2), ..s })
}

/// 8xyE: VF = the high bit of Vx, then Vx doubled modulo 256.
pub open spec fn shift_left(s: Chip8State, x: u8) -> Chip8State {
    let f = s.v.update(15, s.v[x as int] / 128);
    next(Chip8State { v: f.update(x as int, ((f[x as int] * 2) % 256) as u8), ..s })
}

/// Whether bit `col` of a sprite row is set, bit 0 being the leftmost pixel.
pub open spec fn row_bit(row: u8, col: u8) -> bool {
    row & (0x80u8 >> col) != 0
}

/// Whether pixel `p` is among the first `k` sprite bits, in row-major order,
/// of an 8-pixel-wide sprite read from memory at `i` and placed with its
/// top-left corner at `(vx, vy)`, and that bit is set.
///
/// Sprites do not wrap: bits that fall right of or below the framebuffer are
/// dropped.
pub open spec fn sprite_covers(memory: Seq<u8>, i: u16, vx: u8, vy: u8, k: int, p: int) -> bool {
    let dx = p % (WIDTH as int) - vx;
    let dy = p / (WIDTH as int) - vy;
    &&& 0 <= p < PIXELS
    &&& 0 <= dx < 8
    &&& 0 <= dy
    &&& dy * 8 + dx < k
    &&& row_bit(memory[mem_addr(i + dy)], dx as u8)
}

/// The framebuffer with the pixels that a sprite covers flipped.
pub open spec fn xor_sprite(display: Seq<bool>, memory: Seq<u8>, i: u16, vx: u8, vy: u8, k: int) -> Seq<bool> {
    Seq::new(
        PIXELS as nat,
        |p: int|
            if sprite_covers(memory, i, vx, vy, k, p) {
                !display[p]
            } else {
                display[p]
            },
    )
}

/// Whether a sprite covers a pixel that is set (and so unsets it).
pub open spec fn collides(display: Seq<bool>, memory: Seq<u8>, i: u16, vx: u8, vy: u8, k: int) -> bool {
    exists|p: int| sprite_covers(memory, i, vx, vy, k, p) && display[p]
}

/// Dxyn: VF cleared, then the `n`-row sprite at `I` XORed onto the framebuffer
/// at (Vx, Vy) as read after that; VF = 1 where a set pixel was unset.
pub open spec fn draw_sprite(s: Chip8State, x: u8, y: u8, n: u8) -> Chip8State {
    let f = s.v.update(15, 0u8);
    let vx = f[x as int];
    let vy = f[y as int];
    let k = n * 8;
    let hit = collides(s.display, s.memory, s.i, vx, vy, k);
    next(
        Chip8State {
            display: xor_sprite(s.display, s.memory, s.i, vx, vy, k),
            v: f.update(15, if hit { 1u8 } else { 0u8 }),
            draw: true,
            ..s
        },
    )
}

/// Where Dxyn instruction `op` draws in `s`: Vx and Vy as read after VF is
/// cleared.
pub open spec fn draw_origin(s: Chip8State, op: u16) -> (u8, u8) {
    let d = decoded(op);
    let f = s.v.update(15, 0u8);
    (f[d.x as int], f[d.y as int])
}

/// Whether key `k` is held; there is no key beyond 0xF.
pub open spec fn key_down(s: Chip8State, k: u8) -> bool {
    k < NUM_KEYS && s.keyboard[k as int]
}

/// The lowest held key at index `from` or above, if any.
pub open spec fn first_pressed(keys: Seq<bool>, from: int) -> Option<u8>
    decreases NUM_KEYS - from,
{
    if from < 0 || from >= NUM_KEYS {
        None
    } else if keys[from] {
        Some(from as u8)
    } else {
        first_pressed(keys, from + 1)
    }
}

/// Fx0A: the lowest held key stored in Vx, then on; with no key held, nothing
/// changes and the same instruction runs again on the next step.
pub open spec fn wait_for_key(s: Chip8State, x: u8) -> Chip8State {
    match first_pressed(s.keyboard, 0) {
        Some(k) => set_register(s, x, k),
        None => s,
    }
}

/// Fx33: the hundreds, tens and ones of Vx stored at I, I+1 and I+2.
pub open spec fn store_bcd(s: Chip8State, x: u8) -> Chip8State {
    let val = s.v[x as int];
    let m = s.memory.update(mem_addr(s.i as int), val / 100).update(
        mem_addr(s.i + 1),
        (val / 10) % 10,
    ).update(mem_addr(s.i + 2), val % 10);
    next(Chip8State { memory: m, ..s })
}

/// Fx55: V0..Vx stored in memory from I on.
pub open spec fn store_registers(s: Chip8State, x: u8) -> Chip8State {
    let m = Seq::new(
        RAM_SIZE as nat,
        |a: int|
            if mem_addr(a - s.i) <= x {
                s.v[mem_addr(a - s.i)]
            } else {
                s.memory[a]
            },
    );
    next(Chip8State { memory: m, ..s })
}

/// Fx65: V0..Vx loaded from memory from I on.
pub open spec fn load_registers(s: Chip8State, x: u8) -> Chip8State {
    let v = Seq::new(
        NUM_REGISTERS as nat,
        |r: int|
            if r <= x {
                s.memory[mem_addr(s.i + r)]
            } else {
                s.v[r]
            },
    );
    next(Chip8State { v, ..s })
}

/// What executing instruction `op` does to `s`; `random` is the byte that
/// Cxkk draws.
pub open spec fn execute_spec(s: Chip8State, op: u16, random: u8) -> Result<Chip8State, Chip8Error> {
    let d = decoded(op);
    let (x, y, kk, nnn) = (d.x, d.y, d.kk, d.nnn);
    let vx = s.v[x as int];
    let vy = s.v[y as int];
    match (d.high, d.x, d.y, d.n) {
        (0x0, 0x0, 0xE, 0x0) => Ok(clear_display(s)),
        (0x0, 0x0, 0xE, 0xE) => return_from(s),
        (0x1, _, _, _) => Ok(Chip8State { pc: nnn, ..s }),
        (0x2, _, _, _) => call(s, nnn),
        (0x3, _, _, _) => Ok(skip_if(s, vx == kk)),
        (0x4, _, _, _) => Ok(skip_if(s, vx != kk)),
        (0x5, _, _, 0x0) => Ok(skip_if(s, vx == vy)),
        (0x6, _, _, _) => Ok(set_register(s, x, kk)),
        (0x7, _, _, _) => Ok(set_register(s, x, ((vx + kk) % 256) as u8)),
        (0x8, _, _, 0x0) => Ok(set_register(s, x, vy)),
        (0x8, _, _, 0x1) => Ok(set_register(s, x, vx | vy)),
        (0x8, _, _, 0x2) => Ok(set_register(s, x, vx & vy)),
        (0x8, _, _, 0x3) => Ok(set_register(s, x, vx ^ vy)),
        (0x8, _, _, 0x4) => Ok(add_registers(s, x, y)),
        (0x8, _, _, 0x5) => Ok(sub_registers(s, x, y)),
        (0x8, _, _, 0x6) => Ok(shift_right(s, x)),
        (0x8, _, _, 0x7) => Ok(sub_registers_reversed(s, x, y)),
        (0x8, _, _, 0xE) => Ok(shift_left(s, x)),
        (0x9, _, _, 0x0) => Ok(skip_if(s, vx != vy)),
        (0xA, _, _, _) => Ok(next(Chip8State { i: nnn, ..s })),
        (0xB, _, _, _) => Ok(Chip8State { pc: (nnn + s.v[0]) as u16, ..s }),
        (0xC, _, _, _) => Ok(set_register(s, x, random & kk)),
        (0xD, _, _, _) => Ok(draw_sprite(s, x, y, d.n)),
        (0xE, _, 0x9, 0xE) => Ok(skip_if(s, key_down(s, vx))),
        (0xE, _, 0xA, 0x1) => Ok(skip_if(s, !key_down(s, vx))),
        (0xF, _, 0x0, 0x7) => Ok(set_register(s, x, s.delay_timer)),
        (0xF, _, 0x0, 0xA) => Ok(wait_for_key(s, x)),
        (0xF, _, 0x1, 0x5) => Ok(next(Chip8State { delay_timer: vx, ..s })),
        (0xF, _, 0x1, 0x8) => Ok(next(Chip8State { sound_timer: vx, ..s })),
        (0xF, _, 0x1, 0xE) => Ok(next(Chip8State { i: ((s.i + vx) % 0x10000) as u16, ..s })),
        (0xF, _, 0x2, 0x9) => Ok(next(Chip8State { i: (vx * 5) as u16, ..s })),
        (0xF, _, 0x3, 0x3) => Ok(store_bcd(s, x)),
        (0xF, _, 0x5, 0x5) => Ok(store_registers(s, x)),
        (0xF, _, 0x6, 0x5) => Ok(load_registers(s, x)),
        _ => Err(Chip8Error::UnknownOpcode(op)),
    }
}

/// For the four compare-and-skip instructions and the two key skips, whether
/// their condition holds in `s`; `None` for every other instruction.
pub open spec fn skip_condition(s: Chip8State, op: u16) -> Option<bool> {
    let d = decoded(op);
    let vx = s.v[d.x as int];
    let vy = s.v[d.y as int];
    match (d.high, d.x, d.y, d.n) {
        (0x3, _, _, _) => Some(vx == d.kk),
        (0x4, _, _, _) => Some(vx != d.kk),
        (0x5, _, _, 0x0) => Some(vx == vy),
        (0x9, _, _, 0x0) => Some(vx != vy),
        (0xE, _, 0x9, 0xE) => Some(key_down(s, vx)),
        (0xE, _, 0xA, 0x1) => Some(!key_down(s, vx)),
        _ => None,
    }
}

/// Whether `op` sets `pc` itself: return, jump, call, jump with offset, or
/// wait for a key.
pub open spec fn transfers_control(op: u16) -> bool {
    let d = decoded(op);
    ||| op == 0x00EE
    ||| d.high == 0x1
    ||| d.high == 0x2
    ||| d.high == 0xB
    ||| (d.high == 0xF && d.y == 0x0 && d.n == 0xA)
}

/// Whether `op` writes a timer: Fx15 or Fx18.
pub open spec fn sets_timer(op: u16) -> bool {
    let d = decoded(op);
    d.high == 0xF && d.y == 0x1 && (d.n == 0x5 || d.n == 0x8)
}

/// A state whose sequences have the machine's sizes.
pub open spec fn well_sized(s: Chip8State) -> bool {
    &&& s.memory.len() == RAM_SIZE
    &&& s.v.len() == NUM_REGISTERS
    &&& s.display.len() == PIXELS
    &&& s.keyboard.len() == NUM_KEYS
}

/// Both timers one lower, neither below zero.
pub open spec fn tick_timers(s: Chip8State) -> Chip8State {
    Chip8State {
        delay_timer: if s.delay_timer > 0 { (s.delay_timer - 1) as u8 } else { 0 },
        sound_timer: if s.sound_timer > 0 { (s.sound_timer - 1) as u8 } else { 0 },
        ..s
    }
}

/// One interpreter step: the instruction at `pc` executed, then the timers
/// ticked. A failing step leaves the state as it was.
pub open spec fn step_spec(s: Chip8State, random: u8) -> (Chip8State, Result<(), Chip8Error>) {
    match execute_spec(s, opcode_at(s), random) {
        Ok(t) => (tick_timers(t), Ok(())),
        Err(e) => (s, Err(e)),
    }
}

} // verus!

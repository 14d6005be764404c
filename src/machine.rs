use rand::Rng;
use vstd::prelude::*;

use crate::error::Chip8Error;
use crate::model::{
    execute_spec, step_spec,
    collides, draw_sprite, row_bit, sprite_covers, xor_sprite, HEIGHT, WIDTH,
    first_pressed, key_down, load_registers, mem_addr, next, store_bcd, store_registers,
    wait_for_key, add_registers, call, clear_display, font_data, initial_state, opcode_at, return_from,
    set_register, shift_left, shift_right, skip_if, sub_registers, sub_registers_reversed,
    tick_timers, Chip8State, FONT_SIZE, NUM_KEYS,
    NUM_REGISTERS, PIXELS, PROGRAM_START, RAM_SIZE,
};
use crate::opcode::decode;
use crate::stack::CallStack;
use vstd::arithmetic::div_mod::{
    lemma_fundamental_div_mod, lemma_fundamental_div_mod_converse_div,
    lemma_fundamental_div_mod_converse_mod,
};

verus! {

/// A CHIP-8 machine: memory, registers, call stack, timers, framebuffer and
/// the keypad state that the driver supplies.
pub struct Chip8 {
    /// 4 KiB of memory; the font sits at 0x000..0x050, programs from 0x200.
    pub memory: [u8; RAM_SIZE],
    /// The program counter.
    pub pc: u16,
    /// Registers V0..VF; VF doubles as the carry, borrow and collision flag.
    pub v: [u8; NUM_REGISTERS],
    /// The index register, a memory pointer.
    pub i: u16,
    /// Counts down once per step; sound plays while it is above zero.
    pub sound_timer: u8,
    /// Counts down once per step.
    pub delay_timer: u8,
    /// The framebuffer, row by row; pixel `(x, y)` is at `y * WIDTH + x`.
    pub display: [bool; PIXELS],
    /// Which keys of the keypad are held, written by the driver.
    pub keyboard: [bool; NUM_KEYS],
    /// Return addresses of the subroutine calls in progress.
    pub stack: CallStack,
    /// Set by each draw; the driver clears it once it has shown the frame.
    pub draw: bool,
}

impl View for Chip8 {
    type V = Chip8State;

    open spec fn view(&self) -> Chip8State {
        Chip8State {
            memory: self.memory@,
            v: self.v@,
            i: self.i,
            pc: self.pc,
            stack: self.stack@,
            delay_timer: self.delay_timer,
            sound_timer: self.sound_timer,
            display: self.display@,
            keyboard: self.keyboard@,
            draw: self.draw,
        }
    }
}

impl Chip8 {
    /// A machine with the font loaded, all else zero, about to run from 0x200.
    pub fn new() -> (r: Chip8)
        ensures
            r@ == initial_state(),
    {
        let font: [u8; FONT_SIZE] = [
            0xF0, 0x90, 0x90, 0x90, 0xF0, // 0
            0x20, 0x60, 0x20, 0x20, 0x70, // 1
            0xF0, 0x10, 0xF0, 0x80, 0xF0, // 2
            0xF0, 0x10, 0xF0, 0x10, 0xF0, // 3
            0x90, 0x90, 0xF0, 0x10, 0x10, // 4
            0xF0, 0x80, 0xF0, 0x10, 0xF0, // 5
            0xF0, 0x80, 0xF0, 0x90, 0xF0, // 6
            0xF0, 0x10, 0x20, 0x40, 0x40, // 7
            0xF0, 0x90, 0xF0, 0x90, 0xF0, // 8
            0xF0, 0x90, 0xF0, 0x10, 0xF0, // 9
            0xF0, 0x90, 0xF0, 0x90, 0x90, // A
            0xE0, 0x90, 0xE0, 0x90, 0xE0, // B
            0xF0, 0x80, 0x80, 0x80, 0xF0, // C
            0xE0, 0x90, 0x90, 0x90, 0xE0, // D
            0xF0, 0x80, 0xF0, 0x80, 0xF0, // E
            0xF0, 0x80, 0xF0, 0x80, 0x80, // F
        ];
        assert(font@ =~= font_data());
        let mut ram = [0u8; RAM_SIZE];
        let mut k: usize = 0;
        while k < FONT_SIZE
            invariant
                k <= FONT_SIZE,
                font@ == font_data(),
                forall|a: int| 0 <= a < k ==> ram@[a] == font_data()[a],
                forall|a: int| k <= a < RAM_SIZE ==> ram@[a] == 0,
            decreases FONT_SIZE - k,
        {
            ram[k] = font[k];
            k = k + 1;
        }
        let r = Chip8 {
            memory: ram,
            pc: PROGRAM_START as u16,
            v: [0u8; NUM_REGISTERS],
            i: 0,
            sound_timer: 0,
            delay_timer: 0,
            display: [false; PIXELS],
            keyboard: [false; NUM_KEYS],
            stack: CallStack::new(),
            draw: false,
        };
        assert(r.memory@ =~= initial_state().memory);
        assert(r.v@ =~= initial_state().v);
        assert(r.display@ =~= initial_state().display);
        assert(r.keyboard@ =~= initial_state().keyboard);
        r
    }

    /// 00E0: clears the framebuffer.
    fn op_00e0(&mut self)
        ensures
            final(self)@ == clear_display(old(self)@),
    {
        self.display = [false; PIXELS];
        self.pc = self.pc.wrapping_add(2);
        assert(self.display@ =~= clear_display(old(self)@).display);
    }

    /// 1nnn: jumps to `nnn`.
    fn op_1nnn(&mut self, nnn: u16)
        ensures
            final(self)@ == (Chip8State { pc: nnn, ..old(self)@ }),
    {
        self.pc = nnn;
    }

    /// 2nnn: pushes the address of the next instruction and jumps to `nnn`.
    fn op_2nnn(&mut self, nnn: u16) -> (r: Result<(), Chip8Error>)
        ensures
            match call(old(self)@, nnn) {
                Ok(t) => r is Ok && final(self)@ == t,
                Err(e) => r == Err::<(), Chip8Error>(e) && final(self)@ == old(self)@,
            },
    {
        if self.stack.is_full() {
            return Err(Chip8Error::StackOverflow);
        }
        self.stack.push(self.pc.wrapping_add(2));
        self.pc = nnn;
        Ok(())
    }

    /// 00EE: returns to the newest address on the stack.
    fn op_00ee(&mut self) -> (r: Result<(), Chip8Error>)
        ensures
            match return_from(old(self)@) {
                Ok(t) => r is Ok && final(self)@ == t,
                Err(e) => r == Err::<(), Chip8Error>(e) && final(self)@ == old(self)@,
            },
    {
        if self.stack.is_empty() {
            return Err(Chip8Error::StackUnderflow);
        }
        self.pc = self.stack.pop();
        Ok(())
    }

    /// Skips the next instruction if `cond` holds, else moves on to it.
    fn skip_when(&mut self, cond: bool)
        ensures
            final(self)@ == skip_if(old(self)@, cond),
    {
        if cond {
            self.pc = self.pc.wrapping_add(4);
        } else {
            self.pc = self.pc.wrapping_add(2);
        }
    }

    /// 3xkk: skips if Vx == kk.
    fn op_3xkk(&mut self, x: u8, kk: u8)
        requires
            x < 16,
        ensures
            final(self)@ == skip_if(old(self)@, old(self)@.v[x as int] == kk),
    {
        let cond = self.v[x as usize] == kk;
        self.skip_when(cond);
    }

    /// 4xkk: skips if Vx != kk.
    fn op_4xkk(&mut self, x: u8, kk: u8)
        requires
            x < 16,
        ensures
            final(self)@ == skip_if(old(self)@, old(self)@.v[x as int] != kk),
    {
        let cond = self.v[x as usize] != kk;
        self.skip_when(cond);
    }

    /// 5xy0: skips if Vx == Vy.
    fn op_5xy0(&mut self, x: u8, y: u8)
        requires
            x < 16,
            y < 16,
        ensures
            final(self)@ == skip_if(old(self)@, old(self)@.v[x as int] == old(self)@.v[y as int]),
    {
        let cond = self.v[x as usize] == self.v[y as usize];
        self.skip_when(cond);
    }

    /// 9xy0: skips if Vx != Vy.
    fn op_9xy0(&mut self, x: u8, y: u8)
        requires
            x < 16,
            y < 16,
        ensures
            final(self)@ == skip_if(old(self)@, old(self)@.v[x as int] != old(self)@.v[y as int]),
    {
        let cond = self.v[x as usize] != self.v[y as usize];
        self.skip_when(cond);
    }

    /// Stores `val` in Vx and moves on.
    fn write_register(&mut self, x: u8, val: u8)
        requires
            x < 16,
        ensures
            final(self)@ == set_register(old(self)@, x, val),
    {
        self.v[x as usize] = val;
        self.pc = self.pc.wrapping_add(2);
    }

    /// 6xkk: Vx = kk.
    fn op_6xkk(&mut self, x: u8, kk: u8)
        requires
            x < 16,
        ensures
            final(self)@ == set_register(old(self)@, x, kk),
    {
        self.write_register(x, kk);
    }

    /// 7xkk: Vx = Vx + kk, wrapping, with no flag.
    fn op_7xkk(&mut self, x: u8, kk: u8)
        requires
            x < 16,
        ensures
            final(self)@ == set_register(old(self)@, x, ((old(self)@.v[x as int] + kk) % 256) as u8),
    {
        let val = self.v[x as usize].wrapping_add(kk);
        self.write_register(x, val);
    }

    /// 8xy0: Vx = Vy.
    fn op_8xy0(&mut self, x: u8, y: u8)
        requires
            x < 16,
            y < 16,
        ensures
            final(self)@ == set_register(old(self)@, x, old(self)@.v[y as int]),
    {
        let val = self.v[y as usize];
        self.write_register(x, val);
    }

    /// 8xy1: Vx = Vx | Vy.
    fn op_8xy1(&mut self, x: u8, y: u8)
        requires
            x < 16,
            y < 16,
        ensures
            final(self)@ == set_register(old(self)@, x, old(self)@.v[x as int] | old(self)@.v[y as int]),
    {
        let val = self.v[x as usize] | self.v[y as usize];
        self.write_register(x, val);
    }

    /// 8xy2: Vx = Vx & Vy.
    fn op_8xy2(&mut self, x: u8, y: u8)
        requires
            x < 16,
            y < 16,
        ensures
            final(self)@ == set_register(old(self)@, x, old(self)@.v[x as int] & old(self)@.v[y as int]),
    {
        let val = self.v[x as usize] & self.v[y as usize];
        self.write_register(x, val);
    }

    /// 8xy3: Vx = Vx ^ Vy.
    fn op_8xy3(&mut self, x: u8, y: u8)
        requires
            x < 16,
            y < 16,
        ensures
            final(self)@ == set_register(old(self)@, x, old(self)@.v[x as int] ^ old(self)@.v[y as int]),
    {
        let val = self.v[x as usize] ^ self.v[y as usize];
        self.write_register(x, val);
    }

    /// 8xy4: Vx = Vx + Vy; VF = 1 on carry, else 0.
    fn op_8xy4(&mut self, x: u8, y: u8)
        requires
            x < 16,
            y < 16,
        ensures
            final(self)@ == add_registers(old(self)@, x, y),
    {
        let vx: u16 = self.v[x as usize] as u16;
        let vy: u16 = self.v[y as usize] as u16;
        let result: u16 = vx + vy;
        self.v[x as usize] = (result % 256) as u8;
        if result > 0x00FF {
            self.v[15] = 1;
        } else {
            self.v[15] = 0;
        }
        self.pc = self.pc.wrapping_add(2);
    }

    /// 8xy5: VF = 1 if Vx > Vy, else 0; then Vx = Vx - Vy, wrapping.
    fn op_8xy5(&mut self, x: u8, y: u8)
        requires
            x < 16,
            y < 16,
        ensures
            final(self)@ == sub_registers(old(self)@, x, y),
    {
        if self.v[x as usize] > self.v[y as usize] {
            self.v[15] = 1;
        } else {
            self.v[15] = 0;
        }
        self.v[x as usize] = self.v[x as usize].wrapping_sub(self.v[y as usize]);
        self.pc = self.pc.wrapping_add(2);
    }

    /// 8xy6: VF = the low bit of Vx; then Vx shifted right by one.
    fn op_8xy6(&mut self, x: u8)
        requires
            x < 16,
        ensures
            final(self)@ == shift_right(old(self)@, x),
    {
        let lsb = self.v[x as usize] % 2;
        self.v[15] = lsb;
        self.v[x as usize] = self.v[x as usize] / 2;
        self.pc = self.pc.wrapping_add(2);
    }

    /// 8xy7: VF = 1 if Vy > Vx, else 0; then Vx = Vy - Vx, wrapping.
    fn op_8xy7(&mut self, x: u8, y: u8)
        requires
            x < 16,
            y < 16,
        ensures
            final(self)@ == sub_registers_reversed(old(self)@, x, y),
    {
        if self.v[y as usize] > self.v[x as usize] {
            self.v[15] = 1;
        } else {
            self.v[15] = 0;
        }
        self.v[x as usize] = self.v[y as usize].wrapping_sub(self.v[x as usize]);
        self.pc = self.pc.wrapping_add(2);
    }

    /// 8xyE: VF = the high bit of Vx; then Vx shifted left by one.
    fn op_8xye(&mut self, x: u8)
        requires
            x < 16,
        ensures
            final(self)@ == shift_left(old(self)@, x),
    {
        let msb = self.v[x as usize] / 128;
        self.v[15] = msb;
        self.v[x as usize] = self.v[x as usize] % 128 * 2;
        self.pc = self.pc.wrapping_add(2);
    }

    /// Annn: I = nnn.
    fn op_annn(&mut self, nnn: u16)
        ensures
            final(self)@ == next(Chip8State { i: nnn, ..old(self)@ }),
    {
        self.i = nnn;
        self.pc = self.pc.wrapping_add(2);
    }

    /// Bnnn: jumps to nnn + V0.
    fn op_bnnn(&mut self, nnn: u16)
        requires
            nnn < 0x1000,
        ensures
            final(self)@ == (Chip8State { pc: (nnn + old(self)@.v[0]) as u16, ..old(self)@ }),
    {
        self.pc = nnn + self.v[0] as u16;
    }

    /// Cxkk: Vx = `random` & kk.
    fn op_cxkk(&mut self, x: u8, kk: u8, random: u8)
        requires
            x < 16,
        ensures
            final(self)@ == set_register(old(self)@, x, random & kk),
    {
        self.write_register(x, random & kk);
    }

    /// Whether key `k` is held; there is no key beyond 0xF.
    fn is_key_down(&self, k: u8) -> (r: bool)
        ensures
            r == key_down(self@, k),
    {
        k < NUM_KEYS as u8 && self.keyboard[k as usize]
    }

    /// Ex9E: skips if the key numbered Vx is held.
    fn op_ex9e(&mut self, x: u8)
        requires
            x < 16,
        ensures
            final(self)@ == skip_if(old(self)@, key_down(old(self)@, old(self)@.v[x as int])),
    {
        let cond = self.is_key_down(self.v[x as usize]);
        self.skip_when(cond);
    }

    /// ExA1: skips if the key numbered Vx is not held.
    fn op_exa1(&mut self, x: u8)
        requires
            x < 16,
        ensures
            final(self)@ == skip_if(old(self)@, !key_down(old(self)@, old(self)@.v[x as int])),
    {
        let cond = !self.is_key_down(self.v[x as usize]);
        self.skip_when(cond);
    }

    /// Fx07: Vx = the delay timer.
    fn op_fx07(&mut self, x: u8)
        requires
            x < 16,
        ensures
            final(self)@ == set_register(old(self)@, x, old(self)@.delay_timer),
    {
        let val = self.delay_timer;
        self.write_register(x, val);
    }

    /// Fx0A: stores the lowest held key in Vx and moves on; with no key held,
    /// stays on this instruction.
    fn op_fx0a(&mut self, x: u8)
        requires
            x < 16,
        ensures
            final(self)@ == wait_for_key(old(self)@, x),
    {
        let mut k: usize = 0;
        while k < NUM_KEYS
            invariant
                k <= NUM_KEYS,
                x < 16,
                *self == *old(self),
                first_pressed(self@.keyboard, 0) == first_pressed(self@.keyboard, k as int),
            decreases NUM_KEYS - k,
        {
            if self.keyboard[k] {
                self.write_register(x, k as u8);
                return;
            }
            k = k + 1;
        }
    }

    /// Fx15: the delay timer = Vx.
    fn op_fx15(&mut self, x: u8)
        requires
            x < 16,
        ensures
            final(self)@ == next(Chip8State { delay_timer: old(self)@.v[x as int], ..old(self)@ }),
    {
        self.delay_timer = self.v[x as usize];
        self.pc = self.pc.wrapping_add(2);
    }

    /// Fx18: the sound timer = Vx.
    fn op_fx18(&mut self, x: u8)
        requires
            x < 16,
        ensures
            final(self)@ == next(Chip8State { sound_timer: old(self)@.v[x as int], ..old(self)@ }),
    {
        self.sound_timer = self.v[x as usize];
        self.pc = self.pc.wrapping_add(2);
    }

    /// Fx1E: I = I + Vx, wrapping at sixteen bits, with no flag.
    fn op_fx1e(&mut self, x: u8)
        requires
            x < 16,
        ensures
            final(self)@ == next(
                Chip8State { i: ((old(self)@.i + old(self)@.v[x as int]) % 0x10000) as u16, ..old(self)@ },
            ),
    {
        self.i = self.i.wrapping_add(self.v[x as usize] as u16);
        self.pc = self.pc.wrapping_add(2);
    }

    /// Fx29: I = the address of the font glyph for digit Vx.
    fn op_fx29(&mut self, x: u8)
        requires
            x < 16,
        ensures
            final(self)@ == next(Chip8State { i: (old(self)@.v[x as int] * 5) as u16, ..old(self)@ }),
    {
        self.i = self.v[x as usize] as u16 * 5;
        self.pc = self.pc.wrapping_add(2);
    }

    /// Fx33: the decimal digits of Vx stored at I, I+1 and I+2.
    fn op_fx33(&mut self, x: u8)
        requires
            x < 16,
        ensures
            final(self)@ == store_bcd(old(self)@, x),
    {
        let value = self.v[x as usize];
        let base = self.i as usize;
        self.memory[base % RAM_SIZE] = value / 100;
        self.memory[(base + 1) % RAM_SIZE] = (value / 10) % 10;
        self.memory[(base + 2) % RAM_SIZE] = value % 10;
        self.pc = self.pc.wrapping_add(2);
    }

    /// Fx55: V0..Vx stored in memory from I on.
    fn op_fx55(&mut self, x: u8)
        requires
            x < 16,
        ensures
            final(self)@ == store_registers(old(self)@, x),
    {
        let base = self.i as usize;
        let mut r: usize = 0;
        while r <= x as usize
            invariant
                r <= x + 1,
                x < 16,
                base == old(self).i,
                self@ == (Chip8State { memory: self@.memory, ..old(self)@ }),
                forall|a: int|
                    0 <= a < RAM_SIZE ==> #[trigger] self@.memory[a] == if mem_addr(a - base) < r {
                        old(self)@.v[mem_addr(a - base)]
                    } else {
                        old(self)@.memory[a]
                    },
            decreases x + 1 - r,
        {
            self.memory[(base + r) % RAM_SIZE] = self.v[r];
            r = r + 1;
        }
        self.pc = self.pc.wrapping_add(2);
        assert(self@.memory =~= store_registers(old(self)@, x).memory);
    }

    /// Fx65: V0..Vx loaded from memory from I on.
    fn op_fx65(&mut self, x: u8)
        requires
            x < 16,
        ensures
            final(self)@ == load_registers(old(self)@, x),
    {
        let base = self.i as usize;
        let mut r: usize = 0;
        while r <= x as usize
            invariant
                r <= x + 1,
                x < 16,
                base == old(self).i,
                self@ == (Chip8State { v: self@.v, ..old(self)@ }),
                forall|k: int|
                    0 <= k < NUM_REGISTERS ==> #[trigger] self@.v[k] == if k < r {
                        old(self)@.memory[mem_addr(base + k)]
                    } else {
                        old(self)@.v[k]
                    },
            decreases x + 1 - r,
        {
            self.v[r] = self.memory[(base + r) % RAM_SIZE];
            r = r + 1;
        }
        self.pc = self.pc.wrapping_add(2);
        assert(self@.v =~= load_registers(old(self)@, x).v);
    }

    /// Dxyn: XORs the `n`-row sprite at I onto the framebuffer at (Vx, Vy);
    /// VF = 1 if a set pixel was unset, else 0. Bits that fall right of or
    /// below the framebuffer are dropped.
    fn op_dxyn(&mut self, x: u8, y: u8, n: u8)
        requires
            x < 16,
            y < 16,
            n < 16,
        ensures
            final(self)@ == draw_sprite(old(self)@, x, y, n),
    {
        self.v[15] = 0;
        let vx = self.v[x as usize];
        let vy = self.v[y as usize];
        let ghost s0 = self@;
        let ghost d0 = s0.display;
        let ghost mem = s0.memory;
        let ghost i = s0.i;
        let mut collision = false;
        let mut yline: u8 = 0;
        assert(xor_sprite(d0, mem, i, vx, vy, 0) =~= d0);
        while yline < n
            invariant
                yline <= n,
                n < 16,
                s0.v == old(self)@.v.update(15, 0u8),
                d0 == s0.display,
                mem == s0.memory,
                i == s0.i,
                mem.len() == RAM_SIZE,
                self@ == (Chip8State { display: self@.display, ..s0 }),
                self@.display == xor_sprite(d0, mem, i, vx, vy, yline * 8),
                collision == collides(d0, mem, i, vx, vy, yline * 8),
            decreases n - yline,
        {
            let row = self.memory[(self.i as usize + yline as usize) % RAM_SIZE];
            let mut xline: u8 = 0;
            while xline < 8
                invariant
                    yline < n,
                    n < 16,
                    xline <= 8,
                    d0 == s0.display,
                    mem == s0.memory,
                    i == s0.i,
                    mem.len() == RAM_SIZE,
                    row == mem[mem_addr(i + yline)],
                    self@ == (Chip8State { display: self@.display, ..s0 }),
                    self@.display == xor_sprite(d0, mem, i, vx, vy, yline * 8 + xline),
                    collision == collides(d0, mem, i, vx, vy, yline * 8 + xline),
                decreases 8 - xline,
            {
                let ghost k = yline * 8 + xline;
                let x_cord = vx as usize + xline as usize;
                let y_cord = vy as usize + yline as usize;
                let on = row & (0x80u8 >> xline) != 0 && x_cord < WIDTH && y_cord < HEIGHT;
                proof {
                    lemma_sprite_step(d0, mem, i, vx, vy, yline as int, xline as int);
                }
                if on {
                    let p = y_cord * WIDTH + x_cord;
                    if self.display[p] {
                        collision = true;
                    }
                    self.display[p] = !self.display[p];
                }
                proof {
                    assert(self@.display =~= xor_sprite(d0, mem, i, vx, vy, k + 1));
                }
                xline = xline + 1;
            }
            yline = yline + 1;
        }
        if collision {
            self.v[15] = 1;
        }
        self.pc = self.pc.wrapping_add(2);
        self.draw = true;
        assert(self@.v =~= draw_sprite(old(self)@, x, y, n).v);
    }

    /// Executes instruction `opcode`; `random` is the byte that Cxkk uses.
    /// On failure nothing has changed.
    fn execute(&mut self, opcode: u16, random: u8) -> (r: Result<(), Chip8Error>)
        ensures
            match execute_spec(old(self)@, opcode, random) {
                Ok(t) => r is Ok && final(self)@ == t,
                Err(e) => r == Err::<(), Chip8Error>(e) && final(self)@ == old(self)@,
            },
    {
        let d = decode(opcode);
        let (x, y, n, kk, nnn) = (d.x, d.y, d.n, d.kk, d.nnn);
        match (d.high, d.x, d.y, d.n) {
            (0x0, 0x0, 0xE, 0x0) => self.op_00e0(),
            (0x0, 0x0, 0xE, 0xE) => {
                return self.op_00ee();
            },
            (0x1, _, _, _) => self.op_1nnn(nnn),
            (0x2, _, _, _) => {
                return self.op_2nnn(nnn);
            },
            (0x3, _, _, _) => self.op_3xkk(x, kk),
            (0x4, _, _, _) => self.op_4xkk(x, kk),
            (0x5, _, _, 0x0) => self.op_5xy0(x, y),
            (0x6, _, _, _) => self.op_6xkk(x, kk),
            (0x7, _, _, _) => self.op_7xkk(x, kk),
            (0x8, _, _, 0x0) => self.op_8xy0(x, y),
            (0x8, _, _, 0x1) => self.op_8xy1(x, y),
            (0x8, _, _, 0x2) => self.op_8xy2(x, y),
            (0x8, _, _, 0x3) => self.op_8xy3(x, y),
            (0x8, _, _, 0x4) => self.op_8xy4(x, y),
            (0x8, _, _, 0x5) => self.op_8xy5(x, y),
            (0x8, _, _, 0x6) => self.op_8xy6(x),
            (0x8, _, _, 0x7) => self.op_8xy7(x, y),
            (0x8, _, _, 0xE) => self.op_8xye(x),
            (0x9, _, _, 0x0) => self.op_9xy0(x, y),
            (0xA, _, _, _) => self.op_annn(nnn),
            (0xB, _, _, _) => self.op_bnnn(nnn),
            (0xC, _, _, _) => self.op_cxkk(x, kk, random),
            (0xD, _, _, _) => self.op_dxyn(x, y, n),
            (0xE, _, 0x9, 0xE) => self.op_ex9e(x),
            (0xE, _, 0xA, 0x1) => self.op_exa1(x),
            (0xF, _, 0x0, 0x7) => self.op_fx07(x),
            (0xF, _, 0x0, 0xA) => self.op_fx0a(x),
            (0xF, _, 0x1, 0x5) => self.op_fx15(x),
            (0xF, _, 0x1, 0x8) => self.op_fx18(x),
            (0xF, _, 0x1, 0xE) => self.op_fx1e(x),
            (0xF, _, 0x2, 0x9) => self.op_fx29(x),
            (0xF, _, 0x3, 0x3) => self.op_fx33(x),
            (0xF, _, 0x5, 0x5) => self.op_fx55(x),
            (0xF, _, 0x6, 0x5) => self.op_fx65(x),
            _ => {
                return Err(Chip8Error::UnknownOpcode(opcode));
            },
        }
        Ok(())
    }

    /// One interpreter step: fetches the instruction at `pc`, executes it
    /// with `random` as the byte that Cxkk draws, then ticks both timers.
    ///
    /// A failing step changes nothing: an unknown instruction, a call with a
    /// full stack, or a return with an empty one.
    pub fn step(&mut self, random: u8) -> (r: Result<(), Chip8Error>)
        ensures
            (final(self)@, r) == step_spec(old(self)@, random),
    {
        let opcode = self.fetch();
        match self.execute(opcode, random) {
            Ok(()) => {
                self.handle_timers();
                Ok(())
            },
            Err(e) => Err(e),
        }
    }

    /// One interpreter step, with Cxkk drawing its byte uniformly at random.
    ///
    /// The result is that of `step` for some byte; for every instruction but
    /// Cxkk the byte plays no part.
    pub fn cycle(&mut self) -> (r: Result<(), Chip8Error>)
        ensures
            exists|random: u8| (final(self)@, r) == step_spec(old(self)@, random),
    {
        let opcode = self.fetch();
        let random = if opcode / 0x1000 == 0xC {
            random_byte()
        } else {
            0
        };
        self.step(random)
    }

    /// Copies a program into memory from 0x200 on.
    ///
    /// Fails with `RomTooLarge`, changing nothing, when it would run past the
    /// end of memory; nothing but the program's bytes changes otherwise.
    pub fn load_rom(&mut self, rom: &[u8]) -> (r: Result<(), Chip8Error>)
        ensures
            rom@.len() > RAM_SIZE - PROGRAM_START ==> r == Err::<(), Chip8Error>(Chip8Error::RomTooLarge)
                && final(self)@ == old(self)@,
            rom@.len() <= RAM_SIZE - PROGRAM_START ==> r is Ok && final(self)@ == (Chip8State {
                memory: old(self)@.memory.subrange(0, PROGRAM_START as int) + rom@
                    + old(self)@.memory.subrange(PROGRAM_START + rom@.len(), RAM_SIZE as int),
                ..old(self)@
            }),
    {
        if rom.len() > RAM_SIZE - PROGRAM_START {
            return Err(Chip8Error::RomTooLarge);
        }
        let mut k: usize = 0;
        while k < rom.len()
            invariant
                k <= rom@.len() <= RAM_SIZE - PROGRAM_START,
                self@ == (Chip8State { memory: self@.memory, ..old(self)@ }),
                self@.memory.len() == RAM_SIZE,
                forall|a: int|
                    0 <= a < RAM_SIZE ==> #[trigger] self@.memory[a] == if PROGRAM_START <= a
                        < PROGRAM_START + k {
                        rom@[a - PROGRAM_START]
                    } else {
                        old(self)@.memory[a]
                    },
            decreases rom@.len() - k,
        {
            self.memory[PROGRAM_START + k] = rom[k];
            k = k + 1;
        }
        assert(self@.memory =~= old(self)@.memory.subrange(0, PROGRAM_START as int) + rom@
            + old(self)@.memory.subrange(PROGRAM_START + rom@.len(), RAM_SIZE as int));
        Ok(())
    }

    /// The instruction word at `pc`.
    fn fetch(&self) -> (op: u16)
        ensures
            op == opcode_at(self@),
    {
        let hi = self.memory[self.pc as usize % RAM_SIZE] as u16;
        let lo = self.memory[(self.pc as usize + 1) % RAM_SIZE] as u16;
        hi * 256 + lo
    }

    /// Each timer one lower, unless it is already zero.
    fn handle_timers(&mut self)
        ensures
            final(self)@ == tick_timers(old(self)@),
    {
        if self.delay_timer > 0 {
            self.delay_timer = self.delay_timer - 1;
        }
        if self.sound_timer > 0 {
            self.sound_timer = self.sound_timer - 1;
        }
    }
}

/// Relies on rand's `thread_rng` and `Rng::gen_range(0, 256)`: a byte drawn
/// uniformly from the thread-local generator. Nothing is promised of its value.
#[verifier::external_body]
fn random_byte() -> (r: u8) {
    let n: u16 = rand::thread_rng().gen_range(0, 256);
    n as u8
}

/// Pixel `p` is the one at column `px` of row `py` exactly when it lies in
/// the framebuffer at that column and row.
proof fn lemma_pixel_coords(p: int, px: int, py: int)
    requires
        0 <= px < WIDTH,
        0 <= py < HEIGHT,
    ensures
        (p == py * WIDTH + px) <==> (0 <= p < PIXELS && p % (WIDTH as int) == px && p / (WIDTH as int) == py),
{
    if p == py * WIDTH + px {
        lemma_fundamental_div_mod_converse_mod(p, WIDTH as int, py, px);
        lemma_fundamental_div_mod_converse_div(p, WIDTH as int, py, px);
    }
    if 0 <= p < PIXELS && p % (WIDTH as int) == px && p / (WIDTH as int) == py {
        lemma_fundamental_div_mod(p, WIDTH as int);
    }
}

/// Scanning one more sprite bit, the bit in column `xline` of row `yline`,
/// adds to the covered pixels exactly the one that the bit lands on, if the
/// bit is set and lands on the framebuffer; that pixel was not covered before.
proof fn lemma_sprite_step(d0: Seq<bool>, mem: Seq<u8>, i: u16, vx: u8, vy: u8, yline: int, xline: int)
    requires
        0 <= xline < 8,
        0 <= yline,
    ensures
        ({
            let k = yline * 8 + xline;
            let px = vx + xline;
            let py = vy + yline;
            let on = row_bit(mem[mem_addr(i + yline)], xline as u8) && px < WIDTH && py < HEIGHT;
            &&& forall|p: int|
                #![trigger sprite_covers(mem, i, vx, vy, k + 1, p)]
                sprite_covers(mem, i, vx, vy, k + 1, p) <==> (sprite_covers(mem, i, vx, vy, k, p) || (on
                    && p == py * WIDTH + px))
            &&& on ==> !sprite_covers(mem, i, vx, vy, k, py * WIDTH + px)
        }),
{
    let k = yline * 8 + xline;
    let px = vx + xline;
    let py = vy + yline;
    assert forall|p: int|
        #![trigger sprite_covers(mem, i, vx, vy, k + 1, p)]
        sprite_covers(mem, i, vx, vy, k + 1, p) <==> (sprite_covers(mem, i, vx, vy, k, p) || (row_bit(
            mem[mem_addr(i + yline)],
            xline as u8,
        ) && px < WIDTH && py < HEIGHT && p == py * WIDTH + px)) by {
        let dx = p % (WIDTH as int) - vx;
        let dy = p / (WIDTH as int) - vy;
        if 0 <= p < PIXELS && 0 <= dx < 8 && 0 <= dy && dy * 8 + dx == k {
            assert(dy == yline && dx == xline);
            assert(p / (WIDTH as int) < HEIGHT);
            lemma_pixel_coords(p, px, py);
        }
        if px < WIDTH && py < HEIGHT {
            lemma_pixel_coords(p, px, py);
        }
    }
    if px < WIDTH && py < HEIGHT {
        lemma_pixel_coords(py * WIDTH + px, px, py);
    }
}

} // verus!

use vstd::prelude::*;

use crate::font::font_seq;
use crate::random::random_byte;
use crate::state::{Chip8, Chip8View, FaultKind, WaitState, MEMORY_SIZE, STACK_DEPTH};

verus! {

/// The low eight bits of `a + b`.
pub open spec fn add_result(a: u8, b: u8) -> u8 {
    ((a + b) % 256) as u8
}

/// 1 when `a + b` does not fit in eight bits, else 0.
pub open spec fn add_carry(a: u8, b: u8) -> u8 {
    if a + b >= 256 { 1 } else { 0 }
}

/// `a - b` modulo 256.
pub open spec fn sub_result(a: u8, b: u8) -> u8 {
    ((a - b) % 256) as u8
}

/// 1 when `a - b` needs no borrow, that is when `a >= b`, else 0.
pub open spec fn no_borrow(a: u8, b: u8) -> u8 {
    if a >= b { 1 } else { 0 }
}

/// Whether `len` bytes from `start` lie in memory and clear of the font table.
pub open spec fn writable(start: int, len: int) -> bool {
    80 <= start && start + len <= 4096
}

/// Memory with `V0..=Vx` stored from address `i` on.
pub open spec fn regs_stored(memory: Seq<u8>, v: Seq<u8>, i: int, x: int) -> Seq<u8> {
    Seq::new(memory.len(), |a: int| if i <= a <= i + x { v[a - i] } else { memory[a] })
}

/// Registers with `V0..=Vx` loaded from address `i` on.
pub open spec fn regs_loaded(memory: Seq<u8>, v: Seq<u8>, i: int, x: int) -> Seq<u8> {
    Seq::new(v.len(), |k: int| if k <= x { memory[i + k] } else { v[k] })
}

/// Memory with the decimal digits of `b` stored at `i`, `i + 1` and `i + 2`.
pub open spec fn bcd_stored(memory: Seq<u8>, b: u8, i: int) -> Seq<u8> {
    memory.update(i, b / 100).update(i + 1, (b / 10) % 10).update(i + 2, b % 10)
}

impl Chip8View {
    /// A register written, then VF set to `flag`.
    pub open spec fn with_result(self, x: int, result: u8, flag: u8) -> Chip8View {
        self.with_reg(x, result).with_reg(15, flag)
    }

    pub open spec fn with_regs(self, v: Seq<u8>) -> Chip8View {
        Chip8View { v, ..self }
    }

    /// A key pressed: marked down, and handed to a pending wait.
    pub open spec fn key_pressed(self, key: int) -> Chip8View {
        let s = self.with_keys(self.keys.update(key, true));
        match self.wait {
            WaitState::Running => s,
            WaitState::AwaitingKey(r) => s.with_reg(r as int, key as u8).with_wait(WaitState::Running),
        }
    }

    pub open spec fn key_released(self, key: int) -> Chip8View {
        self.with_keys(self.keys.update(key, false))
    }
}

proof fn lemma_font_kept(memory: Seq<u8>, m2: Seq<u8>)
    requires
        memory.len() == 4096,
        m2.len() == 4096,
        memory.subrange(0, 80) == font_seq(),
        forall|a: int| 0 <= a < 80 ==> m2[a] == memory[a],
    ensures
        m2.subrange(0, 80) == font_seq(),
{
    assert(m2.subrange(0, 80) =~= memory.subrange(0, 80));
}

impl Chip8 {
    /// The big-endian instruction word at the program counter.
    pub fn read_opcode(&self) -> (r: u16)
        requires
            self.program_counter + 1 < 4096,
        ensures
            r == self@.memory[self@.pc] * 256 + self@.memory[self@.pc + 1],
    {
        let pc = self.program_counter;
        let hi = self.memory[pc] as u16;
        let lo = self.memory[pc + 1] as u16;
        hi * 256 + lo
    }

    /// Copies a program into memory from `0x200` on.
    pub fn load(&mut self, bytes: &Vec<u8>)
        requires
            old(self).wf(),
            bytes@.len() <= 4096 - 0x200,
        ensures
            final(self).wf(),
            final(self)@ == old(self)@.with_memory(
                old(self)@.memory.subrange(0, 0x200) + bytes@
                    + old(self)@.memory.subrange(0x200 + bytes@.len() as int, 4096),
            ),
    {
        let ghost m0 = self@.memory;
        let mut k: usize = 0;
        while k < bytes.len()
            invariant
                0 <= k <= bytes@.len(),
                bytes@.len() <= 4096 - 0x200,
                m0.len() == 4096,
                m0.subrange(0, 80) == font_seq(),
                self.wf(),
                old(self)@ == self@.with_memory(m0),
                forall|a: int| 0 <= a < 4096 && !(0x200 <= a < 0x200 + k) ==> self@.memory[a] == m0[a],
                forall|a: int| 0x200 <= a < 0x200 + k ==> self@.memory[a] == bytes@[a - 0x200],
            decreases bytes@.len() - k,
        {
            self.memory[0x200 + k] = bytes[k];
            proof {
                lemma_font_kept(m0, self@.memory);
            }
            k += 1;
        }
        assert(self@.memory =~= m0.subrange(0, 0x200) + bytes@ + m0.subrange(0x200 + bytes@.len() as int, 4096));
    }

    /// Marks a key as held, and completes a pending wait for a key with it.
    pub fn key_down(&mut self, key: u8)
        requires
            old(self).wf(),
            key < 16,
        ensures
            final(self).wf(),
            final(self)@ == old(self)@.key_pressed(key as int),
    {
        self.keys[key as usize] = true;
        match self.waiting_keypress {
            WaitState::Running => {},
            WaitState::AwaitingKey(r) => {
                self.registers[r as usize] = key;
                self.waiting_keypress = WaitState::Running;
            },
        }
    }

    /// Marks a key as released.
    pub fn key_up(&mut self, key: u8)
        requires
            old(self).wf(),
            key < 16,
        ensures
            final(self).wf(),
            final(self)@ == old(self)@.key_released(key as int),
    {
        self.keys[key as usize] = false;
    }

    /// Whether `Vx` holds `byte`.
    pub fn equal_xkk(&self, x: u16, byte: u8) -> (r: bool)
        requires
            x < 16,
        ensures
            r == (self@.v[x as int] == byte),
    {
        self.registers[x as usize] == byte
    }

    /// Whether `Vx` and `Vy` hold the same value.
    pub fn equal_xy(&self, x: u16, y: u16) -> (r: bool)
        requires
            x < 16,
            y < 16,
        ensures
            r == (self@.v[x as int] == self@.v[y as int]),
    {
        self.registers[x as usize] == self.registers[y as usize]
    }

    /// `8xy1`: `Vx |= Vy`.
    pub fn or(&mut self, x: u16, y: u16)
        requires
            old(self).wf(),
            x < 16,
            y < 16,
        ensures
            final(self).wf(),
            final(self)@ == old(self)@.with_reg(x as int, old(self)@.v[x as int] | old(self)@.v[y as int]),
    {
        self.registers[x as usize] = self.registers[x as usize] | self.registers[y as usize];
    }

    /// `8xy2`: `Vx &= Vy`.
    pub fn and(&mut self, x: u16, y: u16)
        requires
            old(self).wf(),
            x < 16,
            y < 16,
        ensures
            final(self).wf(),
            final(self)@ == old(self)@.with_reg(x as int, old(self)@.v[x as int] & old(self)@.v[y as int]),
    {
        self.registers[x as usize] = self.registers[x as usize] & self.registers[y as usize];
    }

    /// `8xy3`: `Vx ^= Vy`.
    pub fn xor(&mut self, x: u16, y: u16)
        requires
            old(self).wf(),
            x < 16,
            y < 16,
        ensures
            final(self).wf(),
            final(self)@ == old(self)@.with_reg(x as int, old(self)@.v[x as int] ^ old(self)@.v[y as int]),
    {
        self.registers[x as usize] = self.registers[x as usize] ^ self.registers[y as usize];
    }

    /// `8xy4`: `Vx = Vx + Vy` modulo 256, then VF = 1 on a carry, else 0.
    pub fn add_xy(&mut self, x: u16, y: u16)
        requires
            old(self).wf(),
            x < 16,
            y < 16,
        ensures
            final(self).wf(),
            final(self)@ == old(self)@.with_result(
                x as int,
                add_result(old(self)@.v[x as int], old(self)@.v[y as int]),
                add_carry(old(self)@.v[x as int], old(self)@.v[y as int]),
            ),
    {
        let v_x = self.registers[x as usize];
        let v_y = self.registers[y as usize];
        let sum = v_x as u16 + v_y as u16;
        self.registers[x as usize] = (sum % 256) as u8;
        self.registers[15] = if sum >= 256 { 1 } else { 0 };
    }

    /// `8xy5`: `Vx = Vx - Vy` modulo 256, then VF = 1 when no borrow was needed, else 0.
    pub fn sub_xy(&mut self, x: u16, y: u16)
        requires
            old(self).wf(),
            x < 16,
            y < 16,
        ensures
            final(self).wf(),
            final(self)@ == old(self)@.with_result(
                x as int,
                sub_result(old(self)@.v[x as int], old(self)@.v[y as int]),
                no_borrow(old(self)@.v[x as int], old(self)@.v[y as int]),
            ),
    {
        let v_x = self.registers[x as usize];
        let v_y = self.registers[y as usize];
        self.registers[x as usize] = ((v_x as u16 + 256 - v_y as u16) % 256) as u8;
        self.registers[15] = if v_x >= v_y { 1 } else { 0 };
    }

    /// `8xy7`: `Vx = Vy - Vx` modulo 256, then VF = 1 when no borrow was needed, else 0.
    pub fn subn_xy(&mut self, x: u16, y: u16)
        requires
            old(self).wf(),
            x < 16,
            y < 16,
        ensures
            final(self).wf(),
            final(self)@ == old(self)@.with_result(
                x as int,
                sub_result(old(self)@.v[y as int], old(self)@.v[x as int]),
                no_borrow(old(self)@.v[y as int], old(self)@.v[x as int]),
            ),
    {
        let v_x = self.registers[x as usize];
        let v_y = self.registers[y as usize];
        self.registers[x as usize] = ((v_y as u16 + 256 - v_x as u16) % 256) as u8;
        self.registers[15] = if v_y >= v_x { 1 } else { 0 };
    }

    /// `7xkk`: `Vx = Vx + kk` modulo 256, then VF = 1 on a carry, else 0.
    pub fn add_xkk(&mut self, x: u16, byte: u8)
        requires
            old(self).wf(),
            x < 16,
        ensures
            final(self).wf(),
            final(self)@ == old(self)@.with_result(
                x as int,
                add_result(old(self)@.v[x as int], byte),
                add_carry(old(self)@.v[x as int], byte),
            ),
    {
        let v_x = self.registers[x as usize];
        let sum = v_x as u16 + byte as u16;
        self.registers[x as usize] = (sum % 256) as u8;
        self.registers[15] = if sum >= 256 { 1 } else { 0 };
    }

    /// `8xy6`: `Vx` shifted right by one, then VF = the bit shifted out.
    pub fn shr_x(&mut self, x: u16)
        requires
            old(self).wf(),
            x < 16,
        ensures
            final(self).wf(),
            final(self)@ == old(self)@.with_result(
                x as int,
                old(self)@.v[x as int] / 2,
                old(self)@.v[x as int] % 2,
            ),
    {
        let v_x = self.registers[x as usize];
        self.registers[x as usize] = v_x / 2;
        self.registers[15] = v_x % 2;
    }

    /// `8xyE`: `Vx` shifted left by one, dropping the top bit, then VF = that bit.
    pub fn shl_x(&mut self, x: u16)
        requires
            old(self).wf(),
            x < 16,
        ensures
            final(self).wf(),
            final(self)@ == old(self)@.with_result(
                x as int,
                ((old(self)@.v[x as int] * 2) % 256) as u8,
                old(self)@.v[x as int] / 128,
            ),
    {
        let v_x = self.registers[x as usize];
        self.registers[x as usize] = ((v_x as u16 * 2) % 256) as u8;
        self.registers[15] = v_x / 128;
    }

    /// `2nnn`: saves the program counter on the stack and jumps to `addr`.
    /// Fails, changing nothing, when the stack is full.
    pub fn call(&mut self, addr: u16) -> (r: Result<(), FaultKind>)
        requires
            old(self).wf(),
            old(self).program_counter < 0x1000,
        ensures
            final(self).wf(),
            old(self)@.stack.len() >= 16 ==> r == Err::<(), FaultKind>(FaultKind::StackOverflow)
                && final(self)@ == old(self)@,
            old(self)@.stack.len() < 16 ==> r == Ok::<(), FaultKind>(())
                && final(self)@ == old(self)@.called(addr as int),
    {
        let sp = self.stack_pointer;
        if sp >= STACK_DEPTH {
            return Err(FaultKind::StackOverflow);
        }
        let ghost s0 = self.stack@;
        self.stack[sp] = self.program_counter as u16;
        self.stack_pointer = sp + 1;
        self.program_counter = addr as usize;
        assert(self@.stack =~= s0.subrange(0, sp as int).push(old(self).program_counter as u16));
        Ok(())
    }

    /// `00EE`: pops the newest return address into the program counter.
    /// Fails, changing nothing, when the stack is empty.
    pub fn ret(&mut self) -> (r: Result<(), FaultKind>)
        requires
            old(self).wf(),
        ensures
            final(self).wf(),
            old(self)@.stack.len() == 0 ==> r == Err::<(), FaultKind>(FaultKind::StackUnderflow)
                && final(self)@ == old(self)@,
            old(self)@.stack.len() > 0 ==> r == Ok::<(), FaultKind>(())
                && final(self)@ == old(self)@.returned(),
    {
        let sp = self.stack_pointer;
        if sp == 0 {
            return Err(FaultKind::StackUnderflow);
        }
        self.stack_pointer = sp - 1;
        self.program_counter = self.stack[sp - 1] as usize;
        assert(self@.stack =~= old(self)@.stack.drop_last());
        Ok(())
    }

    /// `Ex9E`: skips the next instruction when the key named by `Vx` is held.
    /// Fails, changing nothing, when `Vx` names no key.
    pub fn skp_vx(&mut self, x: u16) -> (r: Result<(), FaultKind>)
        requires
            old(self).wf(),
            old(self).program_counter < 0x1000,
            x < 16,
        ensures
            final(self).wf(),
            old(self)@.v[x as int] >= 16 ==> r == Err::<(), FaultKind>(FaultKind::BoundsViolation)
                && final(self)@ == old(self)@,
            old(self)@.v[x as int] < 16 ==> r == Ok::<(), FaultKind>(())
                && final(self)@ == old(self)@.with_pc(
                    old(self)@.pc + if old(self)@.keys[old(self)@.v[x as int] as int] { 2int } else { 0int },
                ),
    {
        let v_x = self.registers[x as usize];
        if v_x >= 16 {
            return Err(FaultKind::BoundsViolation);
        }
        if self.keys[v_x as usize] {
            self.program_counter = self.program_counter + 2;
        }
        Ok(())
    }

    /// `ExA1`: skips the next instruction when the key named by `Vx` is not held.
    /// Fails, changing nothing, when `Vx` names no key.
    pub fn sknp_vx(&mut self, x: u16) -> (r: Result<(), FaultKind>)
        requires
            old(self).wf(),
            old(self).program_counter < 0x1000,
            x < 16,
        ensures
            final(self).wf(),
            old(self)@.v[x as int] >= 16 ==> r == Err::<(), FaultKind>(FaultKind::BoundsViolation)
                && final(self)@ == old(self)@,
            old(self)@.v[x as int] < 16 ==> r == Ok::<(), FaultKind>(())
                && final(self)@ == old(self)@.with_pc(
                    old(self)@.pc + if old(self)@.keys[old(self)@.v[x as int] as int] { 0int } else { 2int },
                ),
    {
        let v_x = self.registers[x as usize];
        if v_x >= 16 {
            return Err(FaultKind::BoundsViolation);
        }
        if !self.keys[v_x as usize] {
            self.program_counter = self.program_counter + 2;
        }
        Ok(())
    }

    /// `Fx07`: `Vx = delay`.
    pub fn ld_vx_dt(&mut self, x: u16)
        requires
            old(self).wf(),
            x < 16,
        ensures
            final(self).wf(),
            final(self)@ == old(self)@.with_reg(x as int, old(self)@.delay),
    {
        self.registers[x as usize] = self.delay_timer;
    }

    /// `Fx0A`: stops decoding until a key is pressed, whose code then goes to `Vx`.
    pub fn ld_vx_k(&mut self, x: u16)
        requires
            old(self).wf(),
            x < 16,
        ensures
            final(self).wf(),
            final(self)@ == old(self)@.with_wait(WaitState::AwaitingKey(x as u8)),
    {
        self.waiting_keypress = WaitState::AwaitingKey(x as u8);
    }

    /// `Fx15`: `delay = Vx`.
    pub fn ld_dt_vx(&mut self, x: u16)
        requires
            old(self).wf(),
            x < 16,
        ensures
            final(self).wf(),
            final(self)@ == old(self)@.with_delay(old(self)@.v[x as int]),
    {
        self.delay_timer = self.registers[x as usize];
    }

    /// `Fx18`: `sound = Vx`.
    pub fn ld_st_vx(&mut self, x: u16)
        requires
            old(self).wf(),
            x < 16,
        ensures
            final(self).wf(),
            final(self)@ == old(self)@.with_sound(old(self)@.v[x as int]),
    {
        self.sound_timer = self.registers[x as usize];
    }

    /// `Fx1E`: `I = I + Vx`, modulo 2^16.
    pub fn add_i_vx(&mut self, x: u16)
        requires
            old(self).wf(),
            x < 16,
        ensures
            final(self).wf(),
            final(self)@ == old(self)@.with_i(((old(self)@.i + old(self)@.v[x as int]) % 0x10000) as u16),
    {
        let sum = self.regI as u32 + self.registers[x as usize] as u32;
        self.regI = (sum % 0x10000) as u16;
    }

    /// `Fx29`: `I` = address of the font glyph for the digit in `Vx`.
    pub fn ld_f_vx(&mut self, x: u16)
        requires
            old(self).wf(),
            x < 16,
        ensures
            final(self).wf(),
            final(self)@ == old(self)@.with_i((old(self)@.v[x as int] * 5) as u16),
    {
        self.regI = self.registers[x as usize] as u16 * 5;
    }

    /// `Fx33`: stores the hundreds, tens and ones of `Vx` at `I`, `I + 1` and `I + 2`.
    /// Fails, changing nothing, when those bytes are not all writable.
    pub fn ld_b_vx(&mut self, x: u16) -> (r: Result<(), FaultKind>)
        requires
            old(self).wf(),
            x < 16,
        ensures
            final(self).wf(),
            !writable(old(self)@.i as int, 3) ==> r == Err::<(), FaultKind>(FaultKind::BoundsViolation)
                && final(self)@ == old(self)@,
            writable(old(self)@.i as int, 3) ==> r == Ok::<(), FaultKind>(())
                && final(self)@ == old(self)@.with_memory(
                    bcd_stored(old(self)@.memory, old(self)@.v[x as int], old(self)@.i as int),
                ),
    {
        let i = self.regI as usize;
        if i < 80 || i + 3 > MEMORY_SIZE {
            return Err(FaultKind::BoundsViolation);
        }
        let v_x = self.registers[x as usize];
        self.memory[i] = v_x / 100;
        self.memory[i + 1] = (v_x / 10) % 10;
        self.memory[i + 2] = v_x % 10;
        proof {
            lemma_font_kept(old(self)@.memory, self@.memory);
        }
        Ok(())
    }

    /// `Cxkk`: `Vx = value & kk`, for a random byte `value` drawn by the caller.
    pub fn rnd_with_value(&mut self, x: u16, byte: u8, value: u8)
        requires
            old(self).wf(),
            x < 16,
        ensures
            final(self).wf(),
            final(self)@ == old(self)@.with_reg(x as int, value & byte),
    {
        self.registers[x as usize] = value & byte;
    }

    /// `Cxkk`: `Vx = random byte & kk`.
    pub fn rnd(&mut self, x: u16, byte: u8)
        requires
            old(self).wf(),
            x < 16,
        ensures
            final(self).wf(),
            exists|value: u8| final(self)@ == old(self)@.with_reg(x as int, value & byte),
    {
        let value = random_byte();
        self.rnd_with_value(x, byte, value);
    }

    /// `Fx55`: stores `V0..=Vx` in memory from `I` on.
    /// Fails, changing nothing, when those bytes are not all writable.
    pub fn ld_i_vx(&mut self, x: u16) -> (r: Result<(), FaultKind>)
        requires
            old(self).wf(),
            x < 16,
        ensures
            final(self).wf(),
            !writable(old(self)@.i as int, x + 1) ==> r == Err::<(), FaultKind>(FaultKind::BoundsViolation)
                && final(self)@ == old(self)@,
            writable(old(self)@.i as int, x + 1) ==> r == Ok::<(), FaultKind>(())
                && final(self)@ == old(self)@.with_memory(
                    regs_stored(old(self)@.memory, old(self)@.v, old(self)@.i as int, x as int),
                ),
    {
        let i = self.regI as usize;
        let count = x as usize + 1;
        if i < 80 || i + count > MEMORY_SIZE {
            return Err(FaultKind::BoundsViolation);
        }
        let ghost m0 = self@.memory;
        let mut k: usize = 0;
        while k < count
            invariant
                0 <= k <= count,
                count == x + 1,
                x < 16,
                80 <= i,
                i + count <= 4096,
                self.wf(),
                old(self)@ == self@.with_memory(m0),
                m0.len() == 4096,
                m0.subrange(0, 80) == font_seq(),
                i == old(self)@.i,
                forall|a: int| 0 <= a < 4096 && !(i <= a < i + k) ==> self@.memory[a] == m0[a],
                forall|a: int| i <= a < i + k ==> self@.memory[a] == self@.v[a - i],
            decreases count - k,
        {
            self.memory[i + k] = self.registers[k];
            proof {
                lemma_font_kept(m0, self@.memory);
            }
            k += 1;
        }
        assert(self@.memory =~= regs_stored(m0, self@.v, i as int, x as int));
        Ok(())
    }

    /// `Fx65`: loads `V0..=Vx` from memory from `I` on.
    /// Fails, changing nothing, when those bytes reach past the end of memory.
    pub fn ld_vx_i(&mut self, x: u16) -> (r: Result<(), FaultKind>)
        requires
            old(self).wf(),
            x < 16,
        ensures
            final(self).wf(),
            old(self)@.i + x + 1 > 4096 ==> r == Err::<(), FaultKind>(FaultKind::BoundsViolation)
                && final(self)@ == old(self)@,
            old(self)@.i + x + 1 <= 4096 ==> r == Ok::<(), FaultKind>(())
                && final(self)@ == old(self)@.with_regs(
                    regs_loaded(old(self)@.memory, old(self)@.v, old(self)@.i as int, x as int),
                ),
    {
        let i = self.regI as usize;
        let count = x as usize + 1;
        if i + count > MEMORY_SIZE {
            return Err(FaultKind::BoundsViolation);
        }
        let ghost v0 = self@.v;
        let mut k: usize = 0;
        while k < count
            invariant
                0 <= k <= count,
                count == x + 1,
                x < 16,
                i + count <= 4096,
                self.wf(),
                old(self)@ == self@.with_regs(v0),
                v0.len() == 16,
                i == old(self)@.i,
                forall|a: int| 0 <= a < 16 && a >= k ==> self@.v[a] == v0[a],
                forall|a: int| 0 <= a < k ==> self@.v[a] == self@.memory[i + a],
            decreases count - k,
        {
            self.registers[k] = self.memory[i + k];
            k += 1;
        }
        assert(self@.v =~= regs_loaded(self@.memory, v0, i as int, x as int));
        Ok(())
    }
}

} // verus!

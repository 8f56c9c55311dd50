use vstd::prelude::*;

use crate::decode::{decode, op_family, op_kk, op_n, op_nnn, op_x, op_y};
use crate::ops::{
    add_carry, add_result, bcd_stored, no_borrow, regs_loaded, regs_stored, sub_result, writable,
};
use crate::random::random_byte;
use crate::state::{Chip8, Chip8View, Fault, FaultKind, WaitState, MEMORY_SIZE};

verus! {

/// Nanoseconds in one tick of the timers, rounded up: a tick is due once
/// `elapsed * 60 >= 10^9`.
pub const TICK_NANOS: u64 = 16_666_667;

/// A timer after one tick: one less, but never below zero.
pub open spec fn decremented(t: u8) -> u8 {
    if t > 0 { (t - 1) as u8 } else { 0 }
}

/// `a + b`, or the largest `u64` when that does not fit.
pub open spec fn saturating_sum(a: u64, b: u64) -> u64 {
    if a + b > u64::MAX { u64::MAX } else { (a + b) as u64 }
}

/// The big-endian word at address `pc`.
pub open spec fn word_at(memory: Seq<u8>, pc: int) -> u16 {
    (memory[pc] * 256 + memory[pc + 1]) as u16
}

impl Chip8View {
    /// The timers after `elapsed` more nanoseconds: when at least a sixtieth of a second has
    /// gathered, both tick once and the gathered time starts again from zero.
    pub open spec fn ticked(self, elapsed: u64) -> Chip8View {
        let total = saturating_sum(self.elapsed, elapsed);
        if total * 60 >= 1_000_000_000 {
            self.with_delay(decremented(self.delay)).with_sound(decremented(self.sound)).with_elapsed(0)
        } else {
            self.with_elapsed(total)
        }
    }
}

/// The state after one instruction, or the fault it raises; `value` is the random byte
/// that `Cxkk` uses. Opaque: `reveal(step)` unfolds it for a particular instruction.
#[verifier::opaque]
pub open spec fn step(s: Chip8View, op: u16, value: u8) -> Result<Chip8View, FaultKind> {
    let f = op_family(op);
    let x = op_x(op);
    let y = op_y(op);
    let n = op_n(op);
    let kk = op_kk(op) as u8;
    let nnn = op_nnn(op);
    let vx = s.v[x];
    let vy = s.v[y];
    if op == 0x00E0 {
        Ok(s.cleared().advanced())
    } else if op == 0x00EE {
        if s.stack.len() == 0 { Err(FaultKind::StackUnderflow) } else { Ok(s.returned().advanced()) }
    } else if f == 1 {
        Ok(s.with_pc(nnn))
    } else if f == 2 {
        if s.stack.len() >= 16 { Err(FaultKind::StackOverflow) } else { Ok(s.called(nnn)) }
    } else if f == 3 {
        Ok(s.skipped_if(vx == kk))
    } else if f == 4 {
        Ok(s.skipped_if(vx != kk))
    } else if f == 5 && n == 0 {
        Ok(s.skipped_if(vx == vy))
    } else if f == 6 {
        Ok(s.with_reg(x, kk).advanced())
    } else if f == 7 {
        Ok(s.with_result(x, add_result(vx, kk), add_carry(vx, kk)).advanced())
    } else if f == 8 && n == 0 {
        Ok(s.with_reg(x, vy).advanced())
    } else if f == 8 && n == 1 {
        Ok(s.with_reg(x, vx | vy).advanced())
    } else if f == 8 && n == 2 {
        Ok(s.with_reg(x, vx & vy).advanced())
    } else if f == 8 && n == 3 {
        Ok(s.with_reg(x, vx ^ vy).advanced())
    } else if f == 8 && n == 4 {
        Ok(s.with_result(x, add_result(vx, vy), add_carry(vx, vy)).advanced())
    } else if f == 8 && n == 5 {
        Ok(s.with_result(x, sub_result(vx, vy), no_borrow(vx, vy)).advanced())
    } else if f == 8 && n == 6 {
        Ok(s.with_result(x, vx / 2, vx % 2).advanced())
    } else if f == 8 && n == 7 {
        Ok(s.with_result(x, sub_result(vy, vx), no_borrow(vy, vx)).advanced())
    } else if f == 8 && n == 0xE {
        Ok(s.with_result(x, ((vx * 2) % 256) as u8, vx / 128).advanced())
    } else if f == 9 && n == 0 {
        Ok(s.skipped_if(vx != vy))
    } else if f == 0xA {
        Ok(s.with_i(nnn as u16).advanced())
    } else if f == 0xB {
        Ok(s.with_pc((s.v[0] + nnn) % 256))
    } else if f == 0xC {
        Ok(s.with_reg(x, value & kk).advanced())
    } else if f == 0xD {
        if s.i + n > 4096 { Err(FaultKind::BoundsViolation) } else { Ok(s.drawn(x, y, n).advanced()) }
    } else if f == 0xE && kk == 0x9E {
        if vx >= 16 { Err(FaultKind::BoundsViolation) } else { Ok(s.skipped_if(s.keys[vx as int])) }
    } else if f == 0xE && kk == 0xA1 {
        if vx >= 16 { Err(FaultKind::BoundsViolation) } else { Ok(s.skipped_if(!s.keys[vx as int])) }
    } else if f == 0xF && kk == 0x07 {
        Ok(s.with_reg(x, s.delay).advanced())
    } else if f == 0xF && kk == 0x0A {
        Ok(s.with_wait(WaitState::AwaitingKey(x as u8)).advanced())
    } else if f == 0xF && kk == 0x15 {
        Ok(s.with_delay(vx).advanced())
    } else if f == 0xF && kk == 0x18 {
        Ok(s.with_sound(vx).advanced())
    } else if f == 0xF && kk == 0x1E {
        Ok(s.with_i(((s.i + vx) % 0x10000) as u16).advanced())
    } else if f == 0xF && kk == 0x29 {
        Ok(s.with_i((vx * 5) as u16).advanced())
    } else if f == 0xF && kk == 0x33 {
        if !writable(s.i as int, 3) {
            Err(FaultKind::BoundsViolation)
        } else {
            Ok(s.with_memory(bcd_stored(s.memory, vx, s.i as int)).advanced())
        }
    } else if f == 0xF && kk == 0x55 {
        if !writable(s.i as int, x + 1) {
            Err(FaultKind::BoundsViolation)
        } else {
            Ok(s.with_memory(regs_stored(s.memory, s.v, s.i as int, x)).advanced())
        }
    } else if f == 0xF && kk == 0x65 {
        if s.i + x + 1 > 4096 {
            Err(FaultKind::BoundsViolation)
        } else {
            Ok(s.with_regs(regs_loaded(s.memory, s.v, s.i as int, x)).advanced())
        }
    } else {
        Ok(s.advanced())
    }
}

/// What `exec` reports, and the state it leaves: on a fault, the state is unchanged.
pub open spec fn exec_outcome(s: Chip8View, op: u16, value: u8) -> (Result<(), FaultKind>, Chip8View) {
    match step(s, op, value) {
        Ok(t) => (Ok(()), t),
        Err(e) => (Err(e), s),
    }
}

/// What `cycle` reports, and the state it leaves: while waiting for a key only the timers
/// move; otherwise the instruction at the program counter runs, then the timers move.
pub open spec fn cycle_outcome(s: Chip8View, elapsed: u64, value: u8) -> (Result<(), Fault>, Chip8View) {
    match s.wait {
        WaitState::AwaitingKey(_) => (Ok(()), s.ticked(elapsed)),
        WaitState::Running => if s.pc + 1 >= 4096 {
            (Err(Fault { kind: FaultKind::BoundsViolation, opcode: 0, pc: s.pc as usize }), s)
        } else {
            let op = word_at(s.memory, s.pc);
            match step(s, op, value) {
                Ok(t) => (Ok(()), t.ticked(elapsed)),
                Err(e) => (Err(Fault { kind: e, opcode: op, pc: s.pc as usize }), s),
            }
        },
    }
}

impl Chip8 {
    /// Carries out one instruction and moves the program counter on, with `value` as the
    /// random byte for `Cxkk`. On a fault nothing changes.
    #[verifier::rlimit(40)]
    pub fn exec_with_random(&mut self, opcode: u16, value: u8) -> (r: Result<(), FaultKind>)
        requires
            old(self).wf(),
            old(self).program_counter < 0x1000,
        ensures
            final(self).wf(),
            (r, final(self)@) == exec_outcome(old(self)@, opcode, value),
    {
        proof {
            reveal(step);
        }
        let d = decode(opcode);
        let x = d.x as u16;
        let y = d.y as u16;
        let f = d.family;
        let n = d.n;
        if opcode == 0x00E0 {
            self.cls();
        } else if opcode == 0x00EE {
            let r = self.ret();
            if r.is_err() {
                return r;
            }
        } else if f == 1 {
            self.program_counter = d.nnn as usize;
            return Ok(());
        } else if f == 2 {
            return self.call(d.nnn);
        } else if f == 3 {
            if self.equal_xkk(x, d.kk) {
                self.program_counter = self.program_counter + 2;
            }
        } else if f == 4 {
            if !self.equal_xkk(x, d.kk) {
                self.program_counter = self.program_counter + 2;
            }
        } else if f == 5 && n == 0 {
            if self.equal_xy(x, y) {
                self.program_counter = self.program_counter + 2;
            }
        } else if f == 6 {
            self.registers[x as usize] = d.kk;
        } else if f == 7 {
            self.add_xkk(x, d.kk);
        } else if f == 8 && n == 0 {
            self.registers[x as usize] = self.registers[y as usize];
        } else if f == 8 && n == 1 {
            self.or(x, y);
        } else if f == 8 && n == 2 {
            self.and(x, y);
        } else if f == 8 && n == 3 {
            self.xor(x, y);
        } else if f == 8 && n == 4 {
            self.add_xy(x, y);
        } else if f == 8 && n == 5 {
            self.sub_xy(x, y);
        } else if f == 8 && n == 6 {
            self.shr_x(x);
        } else if f == 8 && n == 7 {
            self.subn_xy(x, y);
        } else if f == 8 && n == 0xE {
            self.shl_x(x);
        } else if f == 9 && n == 0 {
            if !self.equal_xy(x, y) {
                self.program_counter = self.program_counter + 2;
            }
        } else if f == 0xA {
            self.regI = d.nnn;
        } else if f == 0xB {
            self.program_counter = ((self.registers[0] as u16 + d.nnn) % 256) as usize;
            return Ok(());
        } else if f == 0xC {
            self.rnd_with_value(x, d.kk, value);
        } else if f == 0xD {
            let r = self.drw(x, y, n as u16);
            if r.is_err() {
                return r;
            }
        } else if f == 0xE && d.kk == 0x9E {
            let r = self.skp_vx(x);
            if r.is_err() {
                return r;
            }
        } else if f == 0xE && d.kk == 0xA1 {
            let r = self.sknp_vx(x);
            if r.is_err() {
                return r;
            }
        } else if f == 0xF && d.kk == 0x07 {
            self.ld_vx_dt(x);
        } else if f == 0xF && d.kk == 0x0A {
            self.ld_vx_k(x);
        } else if f == 0xF && d.kk == 0x15 {
            self.ld_dt_vx(x);
        } else if f == 0xF && d.kk == 0x18 {
            self.ld_st_vx(x);
        } else if f == 0xF && d.kk == 0x1E {
            self.add_i_vx(x);
        } else if f == 0xF && d.kk == 0x29 {
            self.ld_f_vx(x);
        } else if f == 0xF && d.kk == 0x33 {
            let r = self.ld_b_vx(x);
            if r.is_err() {
                return r;
            }
        } else if f == 0xF && d.kk == 0x55 {
            let r = self.ld_i_vx(x);
            if r.is_err() {
                return r;
            }
        } else if f == 0xF && d.kk == 0x65 {
            let r = self.ld_vx_i(x);
            if r.is_err() {
                return r;
            }
        }
        self.program_counter = self.program_counter + 2;
        Ok(())
    }

    /// Carries out one instruction and moves the program counter on; `Cxkk` draws a random
    /// byte. On a fault nothing changes.
    pub fn exec(&mut self, opcode: u16) -> (r: Result<(), FaultKind>)
        requires
            old(self).wf(),
            old(self).program_counter < 0x1000,
        ensures
            final(self).wf(),
            exists|value: u8| (r, final(self)@) == exec_outcome(old(self)@, opcode, value),
    {
        let value = random_byte();
        self.exec_with_random(opcode, value)
    }

    /// Lets `elapsed` nanoseconds pass for the timers.
    pub fn tick(&mut self, elapsed: u64)
        requires
            old(self).wf(),
        ensures
            final(self).wf(),
            final(self)@ == old(self)@.ticked(elapsed),
    {
        self.elapsed_nanos = self.elapsed_nanos.saturating_add(elapsed);
        if self.elapsed_nanos >= TICK_NANOS {
            if self.delay_timer > 0 {
                self.delay_timer = self.delay_timer - 1;
            }
            if self.sound_timer > 0 {
                self.sound_timer = self.sound_timer - 1;
            }
            self.elapsed_nanos = 0;
        }
    }

    /// One machine cycle with `value` as the random byte: runs the instruction at the program
    /// counter unless a key is awaited, then lets `elapsed` nanoseconds pass for the timers.
    /// On a fault nothing changes.
    #[verifier::rlimit(40)]
    pub fn cycle_with_random(&mut self, elapsed: u64, value: u8) -> (r: Result<(), Fault>)
        requires
            old(self).wf(),
        ensures
            final(self).wf(),
            (r, final(self)@) == cycle_outcome(old(self)@, elapsed, value),
    {
        if let WaitState::Running = self.waiting_keypress {
            let pc = self.program_counter;
            if pc + 1 >= MEMORY_SIZE {
                return Err(Fault { kind: FaultKind::BoundsViolation, opcode: 0, pc });
            }
            let opcode = self.read_opcode();
            match self.exec_with_random(opcode, value) {
                Ok(()) => {},
                Err(kind) => {
                    return Err(Fault { kind, opcode, pc });
                },
            }
        }
        self.tick(elapsed);
        Ok(())
    }

    /// One machine cycle: runs the instruction at the program counter unless a key is
    /// awaited, then lets `elapsed` nanoseconds pass for the timers. On a fault nothing
    /// changes.
    pub fn cycle(&mut self, elapsed: u64) -> (r: Result<(), Fault>)
        requires
            old(self).wf(),
        ensures
            final(self).wf(),
            exists|value: u8| (r, final(self)@) == cycle_outcome(old(self)@, elapsed, value),
    {
        let value = random_byte();
        self.cycle_with_random(elapsed, value)
    }
}

} // verus!

use vstd::prelude::*;

use crate::font::{font_seq, FONT, FONT_LEN};

verus! {

/// Size of the address space in bytes.
pub const MEMORY_SIZE: usize = 4096;

/// Address at which programs are loaded and execution starts.
pub const PROGRAM_START: usize = 0x200;

/// Depth of the call stack.
pub const STACK_DEPTH: usize = 16;

/// Whether instruction decoding runs, or waits for a key to be pressed.
#[derive(Clone, Copy, Debug, PartialEq, Eq, Structural)]
pub enum WaitState {
    Running,
    /// A key press will be written into this register.
    AwaitingKey(u8),
}

/// What went wrong when an instruction could not be carried out.
#[derive(Clone, Copy, Debug, PartialEq, Eq, Structural)]
pub enum FaultKind {
    /// A call with all sixteen stack slots in use.
    StackOverflow,
    /// A return with an empty stack.
    StackUnderflow,
    /// An access outside memory, or a write into the font table.
    BoundsViolation,
}

/// A fatal fault, with the instruction and the address it was fetched from.
#[derive(Clone, Copy, Debug, PartialEq, Eq, Structural)]
pub struct Fault {
    pub kind: FaultKind,
    pub opcode: u16,
    pub pc: usize,
}

/// The whole state of the machine.
#[allow(non_snake_case)]
pub struct Chip8 {
    /// General registers V0 to VF; VF doubles as the flag register.
    pub registers: [u8; 16],
    /// The index register I.
    pub regI: u16,
    pub program_counter: usize,
    pub memory: [u8; 4096],
    /// Number of live entries in `stack`.
    pub stack_pointer: usize,
    pub stack: [u16; 16],
    /// Pixels by row, then column; each is 0 or 1.
    pub display: [[u8; 64]; 32],
    pub keys: [bool; 16],
    pub waiting_keypress: WaitState,
    pub delay_timer: u8,
    pub sound_timer: u8,
    /// Time accumulated since the timers last ticked, in nanoseconds.
    pub elapsed_nanos: u64,
    /// Set whenever the display changed; the host clears it after rendering.
    pub draw: bool,
}

/// The abstract state of the machine.
pub struct Chip8View {
    pub v: Seq<u8>,
    pub i: u16,
    pub pc: int,
    pub memory: Seq<u8>,
    /// Saved return addresses, oldest first.
    pub stack: Seq<u16>,
    pub display: Seq<Seq<u8>>,
    pub keys: Seq<bool>,
    pub wait: WaitState,
    pub delay: u8,
    pub sound: u8,
    pub elapsed: u64,
    pub draw: bool,
}

impl View for Chip8 {
    type V = Chip8View;

    open spec fn view(&self) -> Chip8View {
        Chip8View {
            v: self.registers@,
            i: self.regI,
            pc: self.program_counter as int,
            memory: self.memory@,
            stack: self.stack@.subrange(0, self.stack_pointer as int),
            display: Seq::new(32, |r: int| self.display@[r]@),
            keys: self.keys@,
            wait: self.waiting_keypress,
            delay: self.delay_timer,
            sound: self.sound_timer,
            elapsed: self.elapsed_nanos,
            draw: self.draw,
        }
    }
}

/// The display with every pixel off.
pub open spec fn blank_display() -> Seq<Seq<u8>> {
    Seq::new(32, |r: int| Seq::new(64, |c: int| 0u8))
}

impl Chip8View {
    /// The invariant of every reachable state.
    pub open spec fn wf(self) -> bool {
        &&& self.v.len() == 16
        &&& self.memory.len() == 4096
        &&& self.memory.subrange(0, 80) == font_seq()
        &&& self.stack.len() <= 16
        &&& forall|k: int| 0 <= k < self.stack.len() ==> #[trigger] self.stack[k] < 0x1000
        &&& 0 <= self.pc < 0x10000
        &&& self.display.len() == 32
        &&& forall|r: int| 0 <= r < 32 ==> #[trigger] self.display[r].len() == 64
        &&& forall|r: int, c: int|
            0 <= r < 32 && 0 <= c < 64 ==> #[trigger] self.display[r][c] <= 1
        &&& self.keys.len() == 16
        &&& match self.wait {
            WaitState::Running => true,
            WaitState::AwaitingKey(x) => x < 16,
        }
    }

    pub open spec fn with_reg(self, x: int, b: u8) -> Chip8View {
        Chip8View { v: self.v.update(x, b), ..self }
    }

    pub open spec fn with_pc(self, pc: int) -> Chip8View {
        Chip8View { pc, ..self }
    }

    /// Moves on to the next instruction.
    pub open spec fn advanced(self) -> Chip8View {
        self.with_pc(self.pc + 2)
    }

    /// Moves on, past the next instruction too when `cond` holds.
    pub open spec fn skipped_if(self, cond: bool) -> Chip8View {
        self.with_pc(self.pc + if cond { 4int } else { 2int })
    }

    pub open spec fn with_i(self, i: u16) -> Chip8View {
        Chip8View { i, ..self }
    }

    pub open spec fn with_memory(self, memory: Seq<u8>) -> Chip8View {
        Chip8View { memory, ..self }
    }

    pub open spec fn with_wait(self, wait: WaitState) -> Chip8View {
        Chip8View { wait, ..self }
    }

    pub open spec fn with_delay(self, delay: u8) -> Chip8View {
        Chip8View { delay, ..self }
    }

    pub open spec fn with_sound(self, sound: u8) -> Chip8View {
        Chip8View { sound, ..self }
    }

    pub open spec fn with_keys(self, keys: Seq<bool>) -> Chip8View {
        Chip8View { keys, ..self }
    }

    pub open spec fn with_elapsed(self, elapsed: u64) -> Chip8View {
        Chip8View { elapsed, ..self }
    }

    /// Pushes the program counter and jumps to `addr`.
    pub open spec fn called(self, addr: int) -> Chip8View {
        Chip8View { stack: self.stack.push(self.pc as u16), pc: addr, ..self }
    }

    /// Pops the newest return address into the program counter.
    pub open spec fn returned(self) -> Chip8View {
        Chip8View { stack: self.stack.drop_last(), pc: self.stack.last() as int, ..self }
    }

    /// Every pixel off, and the display marked as changed.
    pub open spec fn cleared(self) -> Chip8View {
        Chip8View { display: blank_display(), draw: true, ..self }
    }
}

impl Chip8 {
    pub open spec fn wf(&self) -> bool {
        &&& self.stack_pointer <= 16
        &&& self@.wf()
    }

    /// A machine with memory zeroed but for the font table, ready to run at `0x200`.
    pub fn new() -> (c: Chip8)
        ensures
            c.wf(),
            c@.v == Seq::new(16, |i: int| 0u8),
            c@.i == 0,
            c@.pc == 0x200,
            c@.memory == font_seq() + Seq::new(4016, |i: int| 0u8),
            c@.stack.len() == 0,
            c@.display == blank_display(),
            c@.keys == Seq::new(16, |i: int| false),
            c@.wait == WaitState::Running,
            c@.delay == 0,
            c@.sound == 0,
            c@.elapsed == 0,
            c@.draw,
    {
        let font = FONT;
        let mut memory = [0u8; 4096];
        let mut i: usize = 0;
        while i < FONT_LEN
            invariant
                0 <= i <= 80,
                font@ == font_seq(),
                forall|j: int| 0 <= j < i ==> memory@[j] == font_seq()[j],
                forall|j: int| 80 <= j < 4096 ==> memory@[j] == 0,
            decreases 80 - i,
        {
            memory[i] = font[i];
            i += 1;
        }
        let c = Chip8 {
            registers: [0u8; 16],
            regI: 0,
            program_counter: PROGRAM_START,
            memory,
            stack_pointer: 0,
            stack: [0u16; 16],
            display: [[0u8; 64]; 32],
            keys: [false; 16],
            waiting_keypress: WaitState::Running,
            delay_timer: 0,
            sound_timer: 0,
            elapsed_nanos: 0,
            draw: true,
        };
        assert(c@.memory =~= font_seq() + Seq::new(4016, |i: int| 0u8));
        assert(c@.memory.subrange(0, 80) =~= font_seq());
        assert(c@.v =~= Seq::new(16, |i: int| 0u8));
        assert(c@.keys =~= Seq::new(16, |i: int| false));
        assert(c@.display =~~= blank_display());
        c
    }
}

} // verus!

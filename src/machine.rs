//! The machine: its state, its mathematical model and the instruction cycle.
use vstd::prelude::*;
use crate::opcode::{Opcode, decode_spec, decode_opcode};
use crate::draw::{drawn_video, draw_collides, draw_sprite};

verus! {

/// Width of the framebuffer in pixels.
pub const VIDEO_WIDTH: usize = 64;
/// Height of the framebuffer in pixels.
pub const VIDEO_HEIGHT: usize = 32;
/// Number of cells of the framebuffer (row-major, `VIDEO_WIDTH` per row).
pub const VIDEO_SIZE: usize = 2048;
/// Size of the addressable memory in bytes.
pub const MEMORY_SIZE: usize = 4096;
/// Address at which programs are loaded and execution starts.
pub const MEMORY_START: usize = 0x200;
/// Number of keys of the keypad.
pub const NUM_KEYS: usize = 16;
/// Number of general-purpose registers.
pub const NUM_REGS: usize = 16;
/// Capacity of the call stack.
pub const STACK_SIZE: usize = 16;
/// Address of the built-in hexadecimal font.
pub const FONTSET_START_ADDRESS: usize = 0x50;
/// Size of the built-in font: five bytes for each of the sixteen glyphs.
pub const FONTSET_SIZE: usize = 80;

/// The built-in font, glyphs 0 to F, five rows of four pixels each.
pub open spec fn font_spec() -> Seq<u8> {
    seq![
        0xF0u8, 0x90, 0x90, 0x90, 0xF0, // 0
        0x20, 0x60, 0x20, 0x20, 0x70, // 1
        0xF0, 0x10, 0xF0, 0x80, 0xF0, // 2
        0xF0, 0x10, 0xF0, 0x10, 0xF0, // 3
        0x90, 0x90, 0xF0, 0x10, 0x10, // 4
        0xF0, 0x80, 0xF0, 0x10, 0xF0, // 5
        0xF0, 0x80, 0xF0, 0x90, 0xF0, // 6
        0xF0, 0x10, 0x20, 0x40, 0x40, // 7
        0xF0, 0x90, 0xF0, 0x90, 0xF0, // 8
        0xF0, 0x90, 0xF0, 0x10, 0xF0, // 9
        0xF0, 0x90, 0xF0, 0x90, 0x90, // A
        0xE0, 0x90, 0xE0, 0x90, 0xE0, // B
        0xF0, 0x80, 0x80, 0x80, 0xF0, // C
        0xE0, 0x90, 0x90, 0x90, 0xE0, // D
        0xF0, 0x80, 0xF0, 0x80, 0xF0, // E
        0xF0, 0x80, 0xF0, 0x80, 0x80, // F
    ]
}

/// Failures reported by a cycle or by loading a program.
#[derive(Debug, Clone, Copy, PartialEq, Eq, Structural)]
pub enum Chip8Error {
    /// The word (first field) fetched at the counter value (second field)
    /// encodes no instruction.
    InvalidInstruction(u16, u16),
    /// A call was made with the call stack full.
    StackOverflow,
    /// A return was made with the call stack empty.
    StackUnderflow,
    /// An instruction would access memory at the given address, which lies
    /// outside memory.
    AddressOutOfRange(usize),
    /// A key instruction named a key, held in a register, above 0xF.
    InvalidKey(u8),
    /// A program of the given length does not fit in memory.
    ProgramTooLarge(usize),
}

/// The mathematical model of a machine.
pub struct Chip8State {
    pub mem: Seq<u8>,
    pub reg: Seq<u8>,
    pub i: u16,
    pub pc: u16,
    pub stack: Seq<u16>,
    pub video: Seq<bool>,
    pub keypad: Seq<bool>,
    pub dt: u8,
    pub st: u8,
}

impl Chip8State {
    /// Storage has its fixed sizes and the stack is within its capacity.
    pub open spec fn wf(self) -> bool {
        &&& self.mem.len() == MEMORY_SIZE
        &&& self.reg.len() == NUM_REGS
        &&& self.video.len() == VIDEO_SIZE
        &&& self.keypad.len() == NUM_KEYS
        &&& self.stack.len() <= STACK_SIZE
    }
}

/// Memory at power-on: the font at its address, zero everywhere else.
pub open spec fn initial_memory() -> Seq<u8> {
    Seq::new(
        MEMORY_SIZE as nat,
        |a: int|
            if FONTSET_START_ADDRESS <= a < FONTSET_START_ADDRESS + FONTSET_SIZE {
                font_spec()[a - FONTSET_START_ADDRESS]
            } else {
                0u8
            },
    )
}

/// The machine at power-on.
pub open spec fn initial_state() -> Chip8State {
    Chip8State {
        mem: initial_memory(),
        reg: Seq::new(NUM_REGS as nat, |k: int| 0u8),
        i: 0,
        pc: MEMORY_START as u16,
        stack: Seq::empty(),
        video: Seq::new(VIDEO_SIZE as nat, |k: int| false),
        keypad: Seq::new(NUM_KEYS as nat, |k: int| false),
        dt: 0,
        st: 0,
    }
}

/// A CHIP-8 machine.
#[derive(Debug, Clone)]
pub struct Chip8 {
    mem: [u8; MEMORY_SIZE],
    reg: [u8; NUM_REGS],
    i: u16,
    pc: u16,
    stack: Vec<u16>,
    video: [bool; VIDEO_SIZE],
    keypad: [bool; NUM_KEYS],
    dt: u8,
    st: u8,
}

impl View for Chip8 {
    type V = Chip8State;

    closed spec fn view(&self) -> Chip8State {
        Chip8State {
            mem: self.mem@,
            reg: self.reg@,
            i: self.i,
            pc: self.pc,
            stack: self.stack@,
            video: self.video@,
            keypad: self.keypad@,
            dt: self.dt,
            st: self.st,
        }
    }
}

impl Chip8 {
    /// A machine at power-on: storage zeroed, the font loaded, the counter at
    /// the program start, the stack empty and both timers at zero.
    pub fn new() -> (r: Chip8)
        ensures
            r@ == initial_state(),
            r@.wf(),
    {
        let font: [u8; FONTSET_SIZE] = [
            0xF0, 0x90, 0x90, 0x90, 0xF0, // 0
            0x20, 0x60, 0x20, 0x20, 0x70, // 1
            0xF0, 0x10, 0xF0, 0x80, 0xF0, // 2
            0xF0, 0x10, 0xF0, 0x10, 0xF0, // 3
            0x90, 0x90, 0xF0, 0x10, 0x10, // 4
            0xF0, 0x80, 0xF0, 0x10, 0xF0, // 5
            0xF0, 0x80, 0xF0, 0x90, 0xF0, // 6
            0xF0, 0x10, 0x20, 0x40, 0x40, // 7
            0xF0, 0x90, 0xF0, 0x90, 0xF0, // 8
            0xF0, 0x90, 0xF0, 0x10, 0xF0, // 9
            0xF0, 0x90, 0xF0, 0x90, 0x90, // A
            0xE0, 0x90, 0xE0, 0x90, 0xE0, // B
            0xF0, 0x80, 0x80, 0x80, 0xF0, // C
            0xE0, 0x90, 0x90, 0x90, 0xE0, // D
            0xF0, 0x80, 0xF0, 0x80, 0xF0, // E
            0xF0, 0x80, 0xF0, 0x80, 0x80, // F
        ];
        assert(font@ =~= font_spec());
        let mut emu = Chip8 {
            mem: [0; MEMORY_SIZE],
            reg: [0; NUM_REGS],
            i: 0,
            pc: MEMORY_START as u16,
            stack: Vec::new(),
            video: [false; VIDEO_SIZE],
            keypad: [false; NUM_KEYS],
            dt: 0,
            st: 0,
        };
        let mut k: usize = 0;
        while k < FONTSET_SIZE
            invariant
                k <= FONTSET_SIZE,
                font@ == font_spec(),
                emu.mem@.len() == MEMORY_SIZE,
                forall|a: int|
                    0 <= a < MEMORY_SIZE ==> #[trigger] emu.mem@[a] == if FONTSET_START_ADDRESS <= a
                        < FONTSET_START_ADDRESS + k {
                        font_spec()[a - FONTSET_START_ADDRESS]
                    } else {
                        0u8
                    },
                emu.reg@ == Seq::new(NUM_REGS as nat, |j: int| 0u8),
                emu.video@ == Seq::new(VIDEO_SIZE as nat, |j: int| false),
                emu.keypad@ == Seq::new(NUM_KEYS as nat, |j: int| false),
                emu.stack@ == Seq::<u16>::empty(),
                emu.i == 0,
                emu.pc == MEMORY_START,
                emu.dt == 0,
                emu.st == 0,
            decreases FONTSET_SIZE - k,
        {
            emu.mem[FONTSET_START_ADDRESS + k] = font[k];
            k = k + 1;
        }
        assert(emu.mem@ =~= initial_memory());
        emu
    }

    /// The framebuffer, row-major, `true` for a lit pixel.
    pub fn get_video(&self) -> (r: &[bool])
        ensures
            r@ == self@.video,
    {
        &self.video
    }

    /// Sets the state of key `key`.
    pub fn set_keypad(&mut self, key: usize, value: bool)
        requires
            key < NUM_KEYS,
        ensures
            final(self)@ == (Chip8State { keypad: old(self)@.keypad.update(key as int, value), ..old(self)@ }),
    {
        self.keypad[key] = value;
    }

    /// Copies a program into memory at `MEMORY_START`. A program longer than
    /// the memory above that address is refused and memory is left as it was.
    pub fn load_rom(&mut self, data: &[u8]) -> (r: Result<(), Chip8Error>)
        ensures
            data@.len() > MEMORY_SIZE - MEMORY_START ==> r == Err::<(), Chip8Error>(
                Chip8Error::ProgramTooLarge(data@.len() as usize),
            ) && final(self)@ == old(self)@,
            data@.len() <= MEMORY_SIZE - MEMORY_START ==> r is Ok && final(self)@ == (Chip8State {
                mem: load_spec(old(self)@.mem, data@),
                ..old(self)@
            }),
    {
        if data.len() > MEMORY_SIZE - MEMORY_START {
            return Err(Chip8Error::ProgramTooLarge(data.len()));
        }
        let ghost start = self.mem@;
        let mut k: usize = 0;
        while k < data.len()
            invariant
                k <= data@.len() <= MEMORY_SIZE - MEMORY_START,
                self.mem@.len() == MEMORY_SIZE,
                start.len() == MEMORY_SIZE,
                forall|a: int|
                    0 <= a < MEMORY_SIZE ==> #[trigger] self.mem@[a] == if MEMORY_START <= a
                        < MEMORY_START + k {
                        data@[a - MEMORY_START]
                    } else {
                        start[a]
                    },
                self.reg == old(self).reg,
                self.video == old(self).video,
                self.keypad == old(self).keypad,
                self.stack@ == old(self).stack@,
                self.i == old(self).i,
                self.pc == old(self).pc,
                self.dt == old(self).dt,
                self.st == old(self).st,
            decreases data@.len() - k,
        {
            self.mem[MEMORY_START + k] = data[k];
            k = k + 1;
        }
        assert(self.mem@ =~= load_spec(start, data@));
        Ok(())
    }

    /// Register `x`.
    pub fn register(&self, x: usize) -> (r: u8)
        requires
            x < NUM_REGS,
        ensures
            r == self@.reg[x as int],
    {
        self.reg[x]
    }

    /// The memory byte at `addr`.
    pub fn memory(&self, addr: usize) -> (r: u8)
        requires
            addr < MEMORY_SIZE,
        ensures
            r == self@.mem[addr as int],
    {
        self.mem[addr]
    }

    /// The index register.
    pub fn index(&self) -> (r: u16)
        ensures
            r == self@.i,
    {
        self.i
    }

    /// The program counter.
    pub fn pc(&self) -> (r: u16)
        ensures
            r == self@.pc,
    {
        self.pc
    }

    /// The delay timer.
    pub fn delay_timer(&self) -> (r: u8)
        ensures
            r == self@.dt,
    {
        self.dt
    }

    /// The sound timer.
    pub fn sound_timer(&self) -> (r: u8)
        ensures
            r == self@.st,
    {
        self.st
    }

    /// The number of return addresses on the call stack.
    pub fn stack_depth(&self) -> (r: usize)
        ensures
            r == self@.stack.len(),
    {
        self.stack.len()
    }

    /// The instruction word at the counter, big-endian, or the error for a
    /// counter whose second byte lies outside memory.
    pub fn fetch_opcode(&self) -> (r: Result<u16, Chip8Error>)
        ensures
            r == fetch_spec(self@),
    {
        let pc = self.pc as usize;
        if pc + 1 >= MEMORY_SIZE {
            return Err(Chip8Error::AddressOutOfRange(pc + 1));
        }
        Ok((self.mem[pc] as u16) * 0x100 + self.mem[pc + 1] as u16)
    }
}

/// Memory with `data` written from `MEMORY_START` on.
pub open spec fn load_spec(mem: Seq<u8>, data: Seq<u8>) -> Seq<u8> {
    Seq::new(
        mem.len(),
        |a: int|
            if MEMORY_START <= a < MEMORY_START + data.len() {
                data[a - MEMORY_START]
            } else {
                mem[a]
            },
    )
}

/// The big-endian word made of the memory bytes at `a` and `a + 1`.
pub open spec fn word_at(mem: Seq<u8>, a: int) -> u16 {
    (mem[a] as int * 0x100 + mem[a + 1] as int) as u16
}

/// The instruction word at the counter, or the error for a counter whose
/// second byte lies outside memory.
pub open spec fn fetch_spec(s: Chip8State) -> Result<u16, Chip8Error> {
    if s.pc + 1 >= MEMORY_SIZE {
        Err(Chip8Error::AddressOutOfRange((s.pc + 1) as usize))
    } else {
        Ok(word_at(s.mem, s.pc as int))
    }
}

/// The lowest-numbered pressed key from `k` on, or `NUM_KEYS` if none is.
pub open spec fn first_pressed(keys: Seq<bool>, k: int) -> int
    decreases NUM_KEYS - k,
{
    if k >= NUM_KEYS {
        NUM_KEYS as int
    } else if keys[k] {
        k
    } else {
        first_pressed(keys, k + 1)
    }
}

/// `s` with register `x` set to `v`.
pub open spec fn set_reg(s: Chip8State, x: usize, v: u8) -> Chip8State {
    Chip8State { reg: s.reg.update(x as int, v), ..s }
}

/// `s` with register `x` set to `v`, then the flag register VF set to `f`.
pub open spec fn set_reg_flag(s: Chip8State, x: usize, v: u8, f: u8) -> Chip8State {
    Chip8State { reg: s.reg.update(x as int, v).update(0xF, f), ..s }
}

/// `s` with one more instruction skipped when `cond` holds.
pub open spec fn skip_if(s: Chip8State, cond: bool) -> Chip8State {
    if cond {
        Chip8State { pc: (s.pc + 2) as u16, ..s }
    } else {
        s
    }
}

/// The sum of two bytes modulo 256, and the carry flag.
pub open spec fn add_with_carry(a: u8, b: u8) -> (u8, u8) {
    (((a + b) % 256) as u8, if a + b > 255 { 1u8 } else { 0u8 })
}

/// The difference of two bytes modulo 256, and the flag that is 1 when no
/// borrow occurs.
pub open spec fn sub_with_borrow(a: u8, b: u8) -> (u8, u8) {
    (((a - b) % 256) as u8, if a >= b { 1u8 } else { 0u8 })
}

/// Memory with registers 0 to `x` stored from address `i` on.
pub open spec fn stored_registers(mem: Seq<u8>, reg: Seq<u8>, i: int, x: int) -> Seq<u8> {
    Seq::new(mem.len(), |a: int| if i <= a <= i + x { reg[a - i] } else { mem[a] })
}

/// Registers with registers 0 to `x` loaded from memory at `i` on.
pub open spec fn loaded_registers(mem: Seq<u8>, reg: Seq<u8>, i: int, x: int) -> Seq<u8> {
    Seq::new(reg.len(), |k: int| if k <= x { mem[i + k] } else { reg[k] })
}

/// The effect of instruction `op` on the machine `s`, whose counter has
/// already moved past the instruction; `random` is the byte that the random
/// instruction draws. An error leaves the machine as it was.
pub open spec fn execute_spec(s: Chip8State, op: Opcode, random: u8) -> Result<Chip8State, Chip8Error> {
    let reg = s.reg;
    match op {
        Opcode::ClearScreen => Ok(Chip8State { video: Seq::new(VIDEO_SIZE as nat, |c: int| false), ..s }),
        Opcode::Return => if s.stack.len() == 0 {
            Err(Chip8Error::StackUnderflow)
        } else {
            Ok(Chip8State { pc: s.stack.last(), stack: s.stack.drop_last(), ..s })
        },
        Opcode::Jump(a) => Ok(Chip8State { pc: a, ..s }),
        Opcode::Call(a) => if s.stack.len() >= STACK_SIZE {
            Err(Chip8Error::StackOverflow)
        } else {
            Ok(Chip8State { pc: a, stack: s.stack.push(s.pc), ..s })
        },
        Opcode::SkipEqualByte(x, kk) => Ok(skip_if(s, reg[x as int] == kk)),
        Opcode::SkipNotEqualByte(x, kk) => Ok(skip_if(s, reg[x as int] != kk)),
        Opcode::SkipEqual(x, y) => Ok(skip_if(s, reg[x as int] == reg[y as int])),
        Opcode::SkipNotEqual(x, y) => Ok(skip_if(s, reg[x as int] != reg[y as int])),
        Opcode::LoadByte(x, kk) => Ok(set_reg(s, x, kk)),
        Opcode::AddByte(x, kk) => Ok(set_reg(s, x, add_with_carry(reg[x as int], kk).0)),
        Opcode::Load(x, y) => Ok(set_reg(s, x, reg[y as int])),
        Opcode::Or(x, y) => Ok(set_reg(s, x, reg[x as int] | reg[y as int])),
        Opcode::And(x, y) => Ok(set_reg(s, x, reg[x as int] & reg[y as int])),
        Opcode::Xor(x, y) => Ok(set_reg(s, x, reg[x as int] ^ reg[y as int])),
        Opcode::Add(x, y) => {
            let (v, f) = add_with_carry(reg[x as int], reg[y as int]);
            Ok(set_reg_flag(s, x, v, f))
        },
        Opcode::Sub(x, y) => {
            let (v, f) = sub_with_borrow(reg[x as int], reg[y as int]);
            Ok(set_reg_flag(s, x, v, f))
        },
        Opcode::SubN(x, y) => {
            let (v, f) = sub_with_borrow(reg[y as int], reg[x as int]);
            Ok(set_reg_flag(s, x, v, f))
        },
        Opcode::ShiftRight(x) => Ok(set_reg_flag(s, x, (reg[x as int] / 2) as u8, (reg[x as int] % 2) as u8)),
        Opcode::ShiftLeft(x) => Ok(
            set_reg_flag(s, x, ((reg[x as int] * 2) % 256) as u8, (reg[x as int] / 128) as u8),
        ),
        Opcode::LoadI(a) => Ok(Chip8State { i: a, ..s }),
        Opcode::JumpV0(a) => Ok(Chip8State { pc: (reg[0] + a) as u16, ..s }),
        Opcode::Random(x, kk) => Ok(set_reg(s, x, random & kk)),
        Opcode::Draw(x, y, n) => if n > 0 && s.i + n > MEMORY_SIZE {
            Err(Chip8Error::AddressOutOfRange((s.i + n - 1) as usize))
        } else {
            let vx = reg[x as int] as int;
            let vy = reg[y as int] as int;
            let hit = draw_collides(s.video, s.mem, s.i as int, vx, vy, n as int);
            Ok(
                Chip8State {
                    video: drawn_video(s.video, s.mem, s.i as int, vx, vy, n as int),
                    reg: reg.update(0xF, if hit { 1u8 } else { 0u8 }),
                    ..s
                },
            )
        },
        Opcode::SkipKeyPress(x) => if reg[x as int] >= NUM_KEYS {
            Err(Chip8Error::InvalidKey(reg[x as int]))
        } else {
            Ok(skip_if(s, s.keypad[reg[x as int] as int]))
        },
        Opcode::SkipKeyNotPress(x) => if reg[x as int] >= NUM_KEYS {
            Err(Chip8Error::InvalidKey(reg[x as int]))
        } else {
            Ok(skip_if(s, !s.keypad[reg[x as int] as int]))
        },
        Opcode::LoadDelayTimer(x) => Ok(set_reg(s, x, s.dt)),
        Opcode::LoadKeyPress(x) => {
            let k = first_pressed(s.keypad, 0);
            if k < NUM_KEYS {
                Ok(set_reg(s, x, k as u8))
            } else {
                Ok(Chip8State { pc: (s.pc - 2) as u16, ..s })
            }
        },
        Opcode::LoadDelayTimerSet(x) => Ok(Chip8State { dt: reg[x as int], ..s }),
        Opcode::LoadSoundTimer(x) => Ok(Chip8State { st: reg[x as int], ..s }),
        Opcode::AddI(x) => Ok(Chip8State { i: ((s.i + reg[x as int]) % 0x10000) as u16, ..s }),
        Opcode::LoadFont(x) => Ok(
            Chip8State { i: (FONTSET_START_ADDRESS + reg[x as int] * 5) as u16, ..s },
        ),
        Opcode::LoadBCD(x) => if s.i + 2 >= MEMORY_SIZE {
            Err(Chip8Error::AddressOutOfRange((s.i + 2) as usize))
        } else {
            let v = reg[x as int];
            Ok(
                Chip8State {
                    mem: s.mem.update(s.i as int, v / 100).update(s.i + 1, v / 10 % 10).update(
                        s.i + 2,
                        v % 10,
                    ),
                    ..s
                },
            )
        },
        Opcode::StoreRegisters(x) => if s.i + x >= MEMORY_SIZE {
            Err(Chip8Error::AddressOutOfRange((s.i + x) as usize))
        } else {
            Ok(Chip8State { mem: stored_registers(s.mem, reg, s.i as int, x as int), ..s })
        },
        Opcode::LoadRegisters(x) => if s.i + x >= MEMORY_SIZE {
            Err(Chip8Error::AddressOutOfRange((s.i + x) as usize))
        } else {
            Ok(Chip8State { reg: loaded_registers(s.mem, reg, s.i as int, x as int), ..s })
        },
        Opcode::Invalid(w) => Err(Chip8Error::InvalidInstruction(w, (s.pc - 2) as u16)),
    }
}

/// Instructions that move the counter, use the stack or read keys.
pub open spec fn is_flow_op(op: Opcode) -> bool {
    match op {
        Opcode::Return
        | Opcode::Jump(..)
        | Opcode::Call(..)
        | Opcode::SkipEqualByte(..)
        | Opcode::SkipNotEqualByte(..)
        | Opcode::SkipEqual(..)
        | Opcode::SkipNotEqual(..)
        | Opcode::JumpV0(..)
        | Opcode::SkipKeyPress(..)
        | Opcode::SkipKeyNotPress(..)
        | Opcode::LoadKeyPress(..)
        | Opcode::Invalid(..) => true,
        _ => false,
    }
}

/// Instructions that compute on registers alone.
pub open spec fn is_alu_op(op: Opcode) -> bool {
    match op {
        Opcode::LoadByte(..)
        | Opcode::AddByte(..)
        | Opcode::Load(..)
        | Opcode::Or(..)
        | Opcode::And(..)
        | Opcode::Xor(..)
        | Opcode::Add(..)
        | Opcode::Sub(..)
        | Opcode::SubN(..)
        | Opcode::ShiftRight(..)
        | Opcode::ShiftLeft(..)
        | Opcode::Random(..) => true,
        _ => false,
    }
}

/// Both timers moved one step toward zero.
pub open spec fn tick_timers(s: Chip8State) -> Chip8State {
    Chip8State {
        dt: if s.dt > 0 { (s.dt - 1) as u8 } else { 0u8 },
        st: if s.st > 0 { (s.st - 1) as u8 } else { 0u8 },
        ..s
    }
}

/// One cycle: fetch the word at the counter, decode it, move the counter past
/// it, execute it, then tick both timers. A failed fetch leaves the machine
/// unchanged; a failed instruction leaves it with only the counter moved past
/// the instruction and the timers not ticked.
pub open spec fn cycle_spec(s: Chip8State, random: u8) -> (Chip8State, Result<(), Chip8Error>) {
    match fetch_spec(s) {
        Err(e) => (s, Err(e)),
        Ok(w) => {
            let t = Chip8State { pc: (s.pc + 2) as u16, ..s };
            match execute_spec(t, decode_spec(w), random) {
                Ok(u) => (tick_timers(u), Ok(())),
                Err(e) => (t, Err(e)),
            }
        },
    }
}

impl Chip8 {
    /// Register `x` set to `v`, then VF set to `f`.
    fn set_reg_flag(&mut self, x: usize, v: u8, f: u8)
        requires
            x < NUM_REGS,
        ensures
            final(self)@ == set_reg_flag(old(self)@, x, v, f),
    {
        self.reg[x] = v;
        self.reg[0xF] = f;
    }

    /// Moves the counter past one more instruction when `cond` holds.
    fn skip_if(&mut self, cond: bool)
        requires
            old(self).pc <= MEMORY_SIZE + 2,
        ensures
            final(self)@ == skip_if(old(self)@, cond),
    {
        if cond {
            self.pc = self.pc + 2;
        }
    }

    /// Stores registers 0 to `x` in memory from the index register on.
    fn store_registers(&mut self, x: usize)
        requires
            x < NUM_REGS,
            old(self).i + x < MEMORY_SIZE,
        ensures
            final(self)@ == (Chip8State {
                mem: stored_registers(old(self)@.mem, old(self)@.reg, old(self).i as int, x as int),
                ..old(self)@
            }),
    {
        let i = self.i as usize;
        let mut v: usize = 0;
        while v <= x
            invariant
                v <= x + 1,
                x < NUM_REGS,
                i == old(self).i,
                i + x < MEMORY_SIZE,
                self.mem@.len() == MEMORY_SIZE,
                forall|a: int|
                    0 <= a < MEMORY_SIZE ==> #[trigger] self.mem@[a] == if i <= a < i + v {
                        self.reg@[a - i]
                    } else {
                        old(self).mem@[a]
                    },
                self.reg == old(self).reg,
                self.video == old(self).video,
                self.keypad == old(self).keypad,
                self.stack@ == old(self).stack@,
                self.i == old(self).i,
                self.pc == old(self).pc,
                self.dt == old(self).dt,
                self.st == old(self).st,
            decreases x + 1 - v,
        {
            self.mem[i + v] = self.reg[v];
            v = v + 1;
        }
        assert(self.mem@ =~= stored_registers(old(self)@.mem, old(self)@.reg, i as int, x as int));
    }

    /// Loads registers 0 to `x` from memory from the index register on.
    fn load_registers(&mut self, x: usize)
        requires
            x < NUM_REGS,
            old(self).i + x < MEMORY_SIZE,
        ensures
            final(self)@ == (Chip8State {
                reg: loaded_registers(old(self)@.mem, old(self)@.reg, old(self).i as int, x as int),
                ..old(self)@
            }),
    {
        let i = self.i as usize;
        let mut v: usize = 0;
        while v <= x
            invariant
                v <= x + 1,
                x < NUM_REGS,
                i == old(self).i,
                i + x < MEMORY_SIZE,
                self.reg@.len() == NUM_REGS,
                forall|k: int|
                    0 <= k < NUM_REGS ==> #[trigger] self.reg@[k] == if k < v {
                        self.mem@[i + k]
                    } else {
                        old(self).reg@[k]
                    },
                self.mem == old(self).mem,
                self.video == old(self).video,
                self.keypad == old(self).keypad,
                self.stack@ == old(self).stack@,
                self.i == old(self).i,
                self.pc == old(self).pc,
                self.dt == old(self).dt,
                self.st == old(self).st,
            decreases x + 1 - v,
        {
            self.reg[v] = self.mem[i + v];
            v = v + 1;
        }
        assert(self.reg@ =~= loaded_registers(old(self)@.mem, old(self)@.reg, i as int, x as int));
    }

    /// The lowest-numbered pressed key, or `NUM_KEYS` if none is pressed.
    fn first_pressed_key(&self) -> (r: usize)
        ensures
            r == first_pressed(self@.keypad, 0),
    {
        let mut k: usize = 0;
        while k < NUM_KEYS
            invariant
                k <= NUM_KEYS,
                first_pressed(self@.keypad, 0) == first_pressed(self@.keypad, k as int),
            decreases NUM_KEYS - k,
        {
            if self.keypad[k] {
                return k;
            }
            k = k + 1;
        }
        NUM_KEYS
    }

    /// Instructions that move the counter, use the stack or read keys.
    fn execute_flow(&mut self, op: Opcode, random: u8) -> (r: Result<(), Chip8Error>)
        requires
            old(self)@.wf(),
            op.wf(),
            is_flow_op(op),
            2 <= old(self).pc <= MEMORY_SIZE,
        ensures
            final(self)@.wf(),
            match execute_spec(old(self)@, op, random) {
                Ok(u) => r is Ok && final(self)@ == u,
                Err(e) => r == Err::<(), Chip8Error>(e) && final(self)@ == old(self)@,
            },
    {
        match op {
            Opcode::Return => {
                match self.stack.pop() {
                    Some(a) => {
                        self.pc = a;
                    },
                    None => {
                        return Err(Chip8Error::StackUnderflow);
                    },
                }
            },
            Opcode::Jump(a) => {
                self.pc = a;
            },
            Opcode::Call(a) => {
                if self.stack.len() >= STACK_SIZE {
                    return Err(Chip8Error::StackOverflow);
                }
                self.stack.push(self.pc);
                self.pc = a;
            },
            Opcode::SkipEqualByte(x, kk) => {
                let c = self.reg[x] == kk;
                self.skip_if(c);
            },
            Opcode::SkipNotEqualByte(x, kk) => {
                let c = self.reg[x] != kk;
                self.skip_if(c);
            },
            Opcode::SkipEqual(x, y) => {
                let c = self.reg[x] == self.reg[y];
                self.skip_if(c);
            },
            Opcode::SkipNotEqual(x, y) => {
                let c = self.reg[x] != self.reg[y];
                self.skip_if(c);
            },
            Opcode::JumpV0(a) => {
                self.pc = self.reg[0] as u16 + a;
            },
            Opcode::SkipKeyPress(x) => {
                let key = self.reg[x];
                if key as usize >= NUM_KEYS {
                    return Err(Chip8Error::InvalidKey(key));
                }
                let c = self.keypad[key as usize];
                self.skip_if(c);
            },
            Opcode::SkipKeyNotPress(x) => {
                let key = self.reg[x];
                if key as usize >= NUM_KEYS {
                    return Err(Chip8Error::InvalidKey(key));
                }
                let c = !self.keypad[key as usize];
                self.skip_if(c);
            },
            Opcode::LoadKeyPress(x) => {
                let k = self.first_pressed_key();
                if k < NUM_KEYS {
                    self.reg[x] = k as u8;
                } else {
                    self.pc = self.pc - 2;
                }
            },
            Opcode::Invalid(w) => {
                return Err(Chip8Error::InvalidInstruction(w, self.pc - 2));
            },
            _ => {},
        }
        Ok(())
    }

    /// Instructions that compute on registers alone.
    fn execute_alu(&mut self, op: Opcode, random: u8) -> (r: Result<(), Chip8Error>)
        requires
            old(self)@.wf(),
            op.wf(),
            is_alu_op(op),
            2 <= old(self).pc <= MEMORY_SIZE,
        ensures
            final(self)@.wf(),
            match execute_spec(old(self)@, op, random) {
                Ok(u) => r is Ok && final(self)@ == u,
                Err(e) => r == Err::<(), Chip8Error>(e) && final(self)@ == old(self)@,
            },
    {
        match op {
            Opcode::LoadByte(x, kk) => {
                self.reg[x] = kk;
            },
            Opcode::AddByte(x, kk) => {
                self.reg[x] = ((self.reg[x] as u16 + kk as u16) % 256) as u8;
            },
            Opcode::Load(x, y) => {
                self.reg[x] = self.reg[y];
            },
            Opcode::Or(x, y) => {
                self.reg[x] = self.reg[x] | self.reg[y];
            },
            Opcode::And(x, y) => {
                self.reg[x] = self.reg[x] & self.reg[y];
            },
            Opcode::Xor(x, y) => {
                self.reg[x] = self.reg[x] ^ self.reg[y];
            },
            Opcode::Add(x, y) => {
                let sum = self.reg[x] as u16 + self.reg[y] as u16;
                let carry: u8 = if sum > 255 { 1 } else { 0 };
                self.set_reg_flag(x, (sum % 256) as u8, carry);
            },
            Opcode::Sub(x, y) => {
                let a = self.reg[x];
                let b = self.reg[y];
                let diff = ((a as u16 + 256 - b as u16) % 256) as u8;
                let no_borrow: u8 = if a >= b { 1 } else { 0 };
                self.set_reg_flag(x, diff, no_borrow);
            },
            Opcode::SubN(x, y) => {
                let a = self.reg[x];
                let b = self.reg[y];
                let diff = ((b as u16 + 256 - a as u16) % 256) as u8;
                let no_borrow: u8 = if b >= a { 1 } else { 0 };
                self.set_reg_flag(x, diff, no_borrow);
            },
            Opcode::ShiftRight(x) => {
                let v = self.reg[x];
                self.set_reg_flag(x, v / 2, v % 2);
            },
            Opcode::ShiftLeft(x) => {
                let v = self.reg[x];
                self.set_reg_flag(x, ((v as u16 * 2) % 256) as u8, v / 128);
            },
            Opcode::Random(x, kk) => {
                self.reg[x] = random & kk;
            },
            _ => {},
        }
        Ok(())
    }

    /// Instructions on the index register, timers, memory and the framebuffer.
    fn execute_misc(&mut self, op: Opcode, random: u8) -> (r: Result<(), Chip8Error>)
        requires
            old(self)@.wf(),
            op.wf(),
            !is_flow_op(op),
            !is_alu_op(op),
            2 <= old(self).pc <= MEMORY_SIZE,
        ensures
            final(self)@.wf(),
            match execute_spec(old(self)@, op, random) {
                Ok(u) => r is Ok && final(self)@ == u,
                Err(e) => r == Err::<(), Chip8Error>(e) && final(self)@ == old(self)@,
            },
    {
        match op {
            Opcode::ClearScreen => {
                self.video = [false; VIDEO_SIZE];
                assert(self.video@ =~= Seq::new(VIDEO_SIZE as nat, |c: int| false));
            },
            Opcode::LoadI(a) => {
                self.i = a;
            },
            Opcode::Draw(x, y, n) => {
                if n > 0 && self.i as usize + n as usize > MEMORY_SIZE {
                    return Err(Chip8Error::AddressOutOfRange(self.i as usize + n as usize - 1));
                }
                let vx = self.reg[x];
                let vy = self.reg[y];
                let hit = draw_sprite(&mut self.video, &self.mem, self.i as usize, vx, vy, n);
                self.reg[0xF] = if hit { 1 } else { 0 };
            },
            Opcode::LoadDelayTimer(x) => {
                self.reg[x] = self.dt;
            },
            Opcode::LoadDelayTimerSet(x) => {
                self.dt = self.reg[x];
            },
            Opcode::LoadSoundTimer(x) => {
                self.st = self.reg[x];
            },
            Opcode::AddI(x) => {
                self.i = ((self.i as u32 + self.reg[x] as u32) % 0x10000) as u16;
            },
            Opcode::LoadFont(x) => {
                self.i = FONTSET_START_ADDRESS as u16 + self.reg[x] as u16 * 5;
            },
            Opcode::LoadBCD(x) => {
                let i = self.i as usize;
                if i + 2 >= MEMORY_SIZE {
                    return Err(Chip8Error::AddressOutOfRange(i + 2));
                }
                let v = self.reg[x];
                self.mem[i] = v / 100;
                self.mem[i + 1] = v / 10 % 10;
                self.mem[i + 2] = v % 10;
            },
            Opcode::StoreRegisters(x) => {
                if self.i as usize + x >= MEMORY_SIZE {
                    return Err(Chip8Error::AddressOutOfRange(self.i as usize + x));
                }
                self.store_registers(x);
            },
            Opcode::LoadRegisters(x) => {
                if self.i as usize + x >= MEMORY_SIZE {
                    return Err(Chip8Error::AddressOutOfRange(self.i as usize + x));
                }
                self.load_registers(x);
            },
            _ => {},
        }
        Ok(())
    }

    /// Applies `op` to the machine, whose counter has already moved past the
    /// instruction. An error leaves the machine unchanged.
    fn execute(&mut self, op: Opcode, random: u8) -> (r: Result<(), Chip8Error>)
        requires
            old(self)@.wf(),
            op.wf(),
            2 <= old(self).pc <= MEMORY_SIZE,
        ensures
            final(self)@.wf(),
            match execute_spec(old(self)@, op, random) {
                Ok(u) => r is Ok && final(self)@ == u,
                Err(e) => r == Err::<(), Chip8Error>(e) && final(self)@ == old(self)@,
            },
    {
        match op {
            Opcode::Return
            | Opcode::Jump(..)
            | Opcode::Call(..)
            | Opcode::SkipEqualByte(..)
            | Opcode::SkipNotEqualByte(..)
            | Opcode::SkipEqual(..)
            | Opcode::SkipNotEqual(..)
            | Opcode::JumpV0(..)
            | Opcode::SkipKeyPress(..)
            | Opcode::SkipKeyNotPress(..)
            | Opcode::LoadKeyPress(..)
            | Opcode::Invalid(..) => self.execute_flow(op, random),
            Opcode::LoadByte(..)
            | Opcode::AddByte(..)
            | Opcode::Load(..)
            | Opcode::Or(..)
            | Opcode::And(..)
            | Opcode::Xor(..)
            | Opcode::Add(..)
            | Opcode::Sub(..)
            | Opcode::SubN(..)
            | Opcode::ShiftRight(..)
            | Opcode::ShiftLeft(..)
            | Opcode::Random(..) => self.execute_alu(op, random),
            _ => self.execute_misc(op, random),
        }
    }
}

impl Chip8 {
    /// Runs one cycle: fetches the instruction word at the counter, decodes
    /// it, moves the counter past it, executes it and ticks both timers.
    /// `random` is the byte that the random instruction uses, if that is the
    /// instruction executed.
    pub fn cycle(&mut self, random: u8) -> (r: Result<(), Chip8Error>)
        requires
            old(self)@.wf(),
        ensures
            final(self)@.wf(),
            (final(self)@, r) == cycle_spec(old(self)@, random),
    {
        let w = match self.fetch_opcode() {
            Ok(w) => w,
            Err(e) => {
                return Err(e);
            },
        };
        let op = decode_opcode(w);
        self.pc = self.pc + 2;
        match self.execute(op, random) {
            Ok(()) => {},
            Err(e) => {
                return Err(e);
            },
        }
        if self.dt > 0 {
            self.dt = self.dt - 1;
        }
        if self.st > 0 {
            self.st = self.st - 1;
        }
        Ok(())
    }
}

} // verus!

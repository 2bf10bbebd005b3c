//! The interpreter: registers, memory, program counter, call stack, the
//! two countdown timers, and the fetch-decode-execute cycle.
//!
//! One `step` reads the two bytes at the program counter as a big-endian
//! instruction word, advances the counter by two, and dispatches on the
//! decoded instruction.  Every instruction's effect is stated by
//! `spec_step`, a total function on the machine model, and the executable
//! step is proved equal to it.
//!
//! Conditions the machine itself leaves undefined are made fatal here: a
//! word matching no instruction, a system call, a fetch or memory operand
//! outside the address space, a call past the sixteenth nested frame, a
//! return with no frame to return to, and a keypad test for a key value
//! above fifteen all set the absorbing `halted` state, after which a step
//! changes nothing.  The blocking key wait is modelled as an explicit
//! waiting state: the machine leaves it on the next step after the host
//! has fed a key press or raised the quit flag.  The index register
//! saturates at the top of its sixteen-bit range rather than growing
//! without bound; every use of it against memory is range-checked.

use vstd::prelude::*;

use crate::decode::{decode, instr_wf, spec_decode, Instr};
use crate::framebuffer::{spec_draw, spec_toggles_off, Framebuffer, FramebufferView, SCREEN_PIXELS};
use crate::keypad::{Keypad, KeypadView, KEY_COUNT};

verus! {

/// Size of the addressable memory in bytes.
pub const MEMORY_SIZE: usize = 0x1000;

/// Address the loaded program starts at, and the fetch address of the
/// first instruction.
pub const PROGRAM_START: u16 = 0x200;

/// First byte of the 32-byte call stack region, which ends where the
/// program region begins.
pub const STACK_START: u16 = PROGRAM_START - 32;

/// Highest address the stack pointer may reach: the last two-byte slot of
/// the stack region.
pub const STACK_TOP: u16 = STACK_START + 30;

/// Instruction cycles per 60 Hz timer tick: the machine runs 120
/// instructions per second.
pub const CYCLES_PER_TICK: u64 = 2;

/// Bytes per font glyph.
pub const FONT_GLYPH_SIZE: u16 = 5;

/// Total size of the font table: five bytes for each of the 16 digits.
pub const FONT_BYTES: u16 = 80;

/// The five rows of the 8x5 glyph for hexadecimal digit `d`, packed into
/// one value, first row in the most significant of the five bytes.
pub open spec fn spec_glyph(d: int) -> u64 {
    if d == 0x0 {
        0xF0909090F0
    } else if d == 0x1 {
        0x2060202070
    } else if d == 0x2 {
        0xF010F080F0
    } else if d == 0x3 {
        0xF010F010F0
    } else if d == 0x4 {
        0x9090F01010
    } else if d == 0x5 {
        0xF080F010F0
    } else if d == 0x6 {
        0xF080F090F0
    } else if d == 0x7 {
        0xF010204040
    } else if d == 0x8 {
        0xF090F090F0
    } else if d == 0x9 {
        0xF090F010F0
    } else if d == 0xA {
        0xF090F09090
    } else if d == 0xB {
        0xE090E090E0
    } else if d == 0xC {
        0xF0808080F0
    } else if d == 0xD {
        0xE0909090E0
    } else if d == 0xE {
        0xF080F080F0
    } else {
        0xF080F08080
    }
}

/// Byte `k` of the font table: row `k % 5` of the glyph for digit `k / 5`.
pub open spec fn spec_font_byte(k: int) -> u8 {
    ((spec_glyph(k / 5) >> (((4 - k % 5) * 8) as u64)) & 0xFF) as u8
}

/// The packed glyph for digit `d`.
fn glyph(d: u16) -> (g: u64)
    requires
        d < 16,
    ensures
        g == spec_glyph(d as int),
{
    if d == 0x0 {
        0xF0909090F0
    } else if d == 0x1 {
        0x2060202070
    } else if d == 0x2 {
        0xF010F080F0
    } else if d == 0x3 {
        0xF010F010F0
    } else if d == 0x4 {
        0x9090F01010
    } else if d == 0x5 {
        0xF080F010F0
    } else if d == 0x6 {
        0xF080F090F0
    } else if d == 0x7 {
        0xF010204040
    } else if d == 0x8 {
        0xF090F090F0
    } else if d == 0x9 {
        0xF090F010F0
    } else if d == 0xA {
        0xF090F09090
    } else if d == 0xB {
        0xE090E090E0
    } else if d == 0xC {
        0xF0808080F0
    } else if d == 0xD {
        0xE0909090E0
    } else if d == 0xE {
        0xF080F080F0
    } else {
        0xF080F08080
    }
}

/// Byte `k` of the font table.
fn font_byte(k: u16) -> (b: u8)
    requires
        k < FONT_BYTES,
    ensures
        b == spec_font_byte(k as int),
{
    let g = glyph(k / FONT_GLYPH_SIZE);
    let sh: u64 = ((4 - k % FONT_GLYPH_SIZE) * 8) as u64;
    ((g >> sh) & 0xFF) as u8
}

/// The mathematical model of the whole machine: registers, index, program
/// counter, stack pointer, sound and delay timers, memory, the framebuffer
/// and keypad models, the cycle count toward the next timer tick, the
/// absorbing halt flag, and the register awaiting a key, if any.
#[verifier::ext_equal]
pub struct Chip8View {
    pub v: Seq<u8>,
    pub i: u16,
    pub pc: u16,
    pub sp: u16,
    pub at: u8,
    pub dt: u8,
    pub mem: Seq<u8>,
    pub fb: FramebufferView,
    pub keys: KeypadView,
    pub cycles: u64,
    pub halted: bool,
    pub waiting: Option<u8>,
}

impl Chip8View {
    /// Well-formedness: sixteen registers, a full memory image, well-formed
    /// framebuffer and keypad, a stack pointer inside the stack region and
    /// aligned to its two-byte slots, a cycle count below the tick
    /// threshold, and a waiting register that names a real register.
    pub open spec fn inv(self) -> bool {
        &&& self.v.len() == 16
        &&& self.mem.len() == MEMORY_SIZE
        &&& self.fb.wf()
        &&& self.keys.wf()
        &&& STACK_START - 2 <= self.sp <= STACK_TOP
        &&& self.sp % 2 == 0
        &&& self.cycles < CYCLES_PER_TICK
        &&& match self.waiting {
            Some(x) => x < 16,
            None => true,
        }
    }
}

/// The initial memory image: the font table at the bottom, the program
/// image from `PROGRAM_START`, zero everywhere else.
pub open spec fn spec_init_mem(rom: Seq<u8>) -> Seq<u8> {
    Seq::new(
        MEMORY_SIZE as nat,
        |a: int|
            if a < FONT_BYTES {
                spec_font_byte(a)
            } else if PROGRAM_START <= a < PROGRAM_START + rom.len() {
                rom[a - PROGRAM_START]
            } else {
                0u8
            },
    )
}

/// The machine a ROM boots into: cleared registers and timers, the program
/// counter at the program start, an empty call stack, the initial memory
/// image, a cleared framebuffer and keypad, not halted, not waiting.
pub open spec fn spec_new(rom: Seq<u8>) -> Chip8View {
    Chip8View {
        v: Seq::new(16, |k: int| 0u8),
        i: 0,
        pc: PROGRAM_START,
        sp: (STACK_START - 2) as u16,
        at: 0,
        dt: 0,
        mem: spec_init_mem(rom),
        fb: FramebufferView { pixels: Seq::new(SCREEN_PIXELS as nat, |p: int| false), dirty: true },
        keys: KeypadView {
            keys: Seq::new(KEY_COUNT as nat, |k: int| false),
            last_key: None,
            quit: false,
        },
        cycles: 0,
        halted: false,
        waiting: None,
    }
}

/// One 60 Hz bookkeeping call: count the finished cycle and, when the
/// cycle count reaches the tick threshold, reset it and count both timers
/// down, stopping at zero.
pub open spec fn spec_update_timers(s: Chip8View) -> Chip8View {
    if s.cycles + 1 < CYCLES_PER_TICK {
        Chip8View { cycles: (s.cycles + 1) as u64, ..s }
    } else {
        Chip8View {
            cycles: 0,
            at: if s.at > 0 {
                (s.at - 1) as u8
            } else {
                0u8
            },
            dt: if s.dt > 0 {
                (s.dt - 1) as u8
            } else {
                0u8
            },
            ..s
        }
    }
}

/// A carry, borrow or collision flag as the flag register holds it.
pub open spec fn spec_flag(b: bool) -> u8 {
    if b {
        1u8
    } else {
        0u8
    }
}

/// The big-endian 16-bit word at address `a`.
pub open spec fn word_at(mem: Seq<u8>, a: int) -> u16 {
    (mem[a] * 256 + mem[a + 1]) as u16
}

/// The machine with the absorbing halt flag raised and nothing else
/// changed.
pub open spec fn spec_halt(s: Chip8View) -> Chip8View {
    Chip8View { halted: true, ..s }
}

/// The effect of one decoded instruction on the machine.  The program
/// counter in `s` has already been advanced past the instruction word, so
/// an untaken branch leaves `s` unchanged and a control-flow instruction
/// overwrites the counter outright.
pub open spec fn spec_exec_instr(s: Chip8View, instr: Instr, rnd: u8) -> Chip8View {
    match instr {
        Instr::Cls => Chip8View {
            fb: FramebufferView {
                pixels: Seq::new(SCREEN_PIXELS as nat, |p: int| false),
                dirty: true,
            },
            ..s
        },
        Instr::Ret => {
            if s.sp < STACK_START {
                spec_halt(s)
            } else {
                Chip8View { pc: word_at(s.mem, s.sp as int), sp: (s.sp - 2) as u16, ..s }
            }
        },
        Instr::Sys { .. } => spec_halt(s),
        Instr::Jp { addr } => Chip8View { pc: addr, ..s },
        Instr::Call { addr } => {
            if s.sp >= STACK_TOP {
                spec_halt(s)
            } else {
                let sp2 = (s.sp + 2) as u16;
                Chip8View {
                    sp: sp2,
                    mem: s.mem.update(sp2 as int, (s.pc / 256) as u8).update(
                        sp2 as int + 1,
                        (s.pc % 256) as u8,
                    ),
                    pc: addr,
                    ..s
                }
            }
        },
        Instr::SeImm { x, kk } => {
            if s.v[x as int] == kk {
                Chip8View { pc: (s.pc + 2) as u16, ..s }
            } else {
                s
            }
        },
        Instr::SneImm { x, kk } => {
            if s.v[x as int] != kk {
                Chip8View { pc: (s.pc + 2) as u16, ..s }
            } else {
                s
            }
        },
        Instr::SeReg { x, y } => {
            if s.v[x as int] == s.v[y as int] {
                Chip8View { pc: (s.pc + 2) as u16, ..s }
            } else {
                s
            }
        },
        Instr::LdImm { x, kk } => Chip8View { v: s.v.update(x as int, kk), ..s },
        Instr::AddImm { x, kk } => Chip8View {
            v: s.v.update(x as int, ((s.v[x as int] + kk) % 256) as u8),
            ..s
        },
        Instr::LdReg { x, y } => Chip8View { v: s.v.update(x as int, s.v[y as int]), ..s },
        Instr::OrReg { x, y } => Chip8View {
            v: s.v.update(x as int, s.v[x as int] | s.v[y as int]),
            ..s
        },
        Instr::AndReg { x, y } => Chip8View {
            v: s.v.update(x as int, s.v[x as int] & s.v[y as int]),
            ..s
        },
        Instr::XorReg { x, y } => Chip8View {
            v: s.v.update(x as int, s.v[x as int] ^ s.v[y as int]),
            ..s
        },
        Instr::AddReg { x, y } => {
            let sum = s.v[x as int] + s.v[y as int];
            Chip8View {
                v: s.v.update(x as int, (sum % 256) as u8).update(15, spec_flag(sum >= 256)),
                ..s
            }
        },
        Instr::SubReg { x, y } => {
            let a = s.v[x as int];
            let b = s.v[y as int];
            let value = if a >= b {
                (a - b) as u8
            } else {
                (a + 256 - b) as u8
            };
            Chip8View { v: s.v.update(x as int, value).update(15, spec_flag(a >= b)), ..s }
        },
        Instr::Shr { x } => {
            let v1 = s.v.update(15, s.v[x as int] & 1);
            Chip8View { v: v1.update(x as int, v1[x as int] / 2), ..s }
        },
        Instr::SubnReg { x, y } => {
            let a = s.v[x as int];
            let b = s.v[y as int];
            let value = if b >= a {
                (b - a) as u8
            } else {
                (b + 256 - a) as u8
            };
            Chip8View { v: s.v.update(x as int, value).update(15, spec_flag(b >= a)), ..s }
        },
        Instr::Shl { x } => {
            let v1 = s.v.update(15, s.v[x as int] & 0x80);
            Chip8View { v: v1.update(x as int, ((v1[x as int] * 2) % 256) as u8), ..s }
        },
        Instr::SneReg { x, y } => {
            if s.v[x as int] != s.v[y as int] {
                Chip8View { pc: (s.pc + 2) as u16, ..s }
            } else {
                s
            }
        },
        Instr::LdI { addr } => Chip8View { i: addr, ..s },
        Instr::JpV0 { addr } => Chip8View { pc: (s.v[0] + addr) as u16, ..s },
        Instr::Rnd { x, kk } => Chip8View { v: s.v.update(x as int, rnd & kk), ..s },
        Instr::Drw { x, y, n } => {
            if s.i + n > MEMORY_SIZE {
                spec_halt(s)
            } else {
                let sprite = s.mem.subrange(s.i as int, s.i + n);
                let px = s.v[x as int];
                let py = s.v[y as int];
                let toggled = spec_toggles_off(s.fb.pixels, sprite, px, py);
                Chip8View {
                    fb: FramebufferView {
                        pixels: spec_draw(s.fb.pixels, sprite, px, py),
                        dirty: true,
                    },
                    v: s.v.update(15, spec_flag(toggled)),
                    ..s
                }
            }
        },
        Instr::Skp { x } => {
            if s.v[x as int] >= KEY_COUNT {
                spec_halt(s)
            } else if s.keys.keys[s.v[x as int] as int] {
                Chip8View { pc: (s.pc + 2) as u16, ..s }
            } else {
                s
            }
        },
        Instr::Sknp { x } => {
            if s.v[x as int] >= KEY_COUNT {
                spec_halt(s)
            } else if !s.keys.keys[s.v[x as int] as int] {
                Chip8View { pc: (s.pc + 2) as u16, ..s }
            } else {
                s
            }
        },
        Instr::LdDt { x } => Chip8View { v: s.v.update(x as int, s.dt), ..s },
        Instr::LdKey { x } => Chip8View {
            waiting: Some(x),
            keys: KeypadView { last_key: None, ..s.keys },
            ..s
        },
        Instr::SetDt { x } => Chip8View { dt: s.v[x as int], ..s },
        Instr::SetSt { x } => Chip8View { at: s.v[x as int], ..s },
        Instr::AddI { x } => Chip8View {
            i: if s.i + s.v[x as int] > 0xFFFF {
                0xFFFFu16
            } else {
                (s.i + s.v[x as int]) as u16
            },
            ..s
        },
        Instr::LdFont { x } => Chip8View { i: (s.v[x as int] * FONT_GLYPH_SIZE) as u16, ..s },
        Instr::Bcd { x } => {
            if s.i + 3 > MEMORY_SIZE {
                spec_halt(s)
            } else {
                let val = s.v[x as int];
                Chip8View {
                    mem: s.mem.update(s.i as int, (val / 100) as u8).update(
                        s.i + 1,
                        ((val / 10) % 10) as u8,
                    ).update(s.i + 2, (val % 10) as u8),
                    ..s
                }
            }
        },
        Instr::StoreRegs { x } => {
            if s.i + x + 1 > MEMORY_SIZE {
                spec_halt(s)
            } else {
                Chip8View {
                    mem: Seq::new(
                        MEMORY_SIZE as nat,
                        |a: int|
                            if s.i <= a < s.i + x + 1 {
                                s.v[a - s.i]
                            } else {
                                s.mem[a]
                            },
                    ),
                    i: (s.i + x + 1) as u16,
                    ..s
                }
            }
        },
        Instr::LoadRegs { x } => {
            if s.i + x + 1 > MEMORY_SIZE {
                spec_halt(s)
            } else {
                Chip8View {
                    v: Seq::new(
                        16,
                        |r: int|
                            if r <= x {
                                s.mem[s.i + r]
                            } else {
                                s.v[r]
                            },
                    ),
                    i: (s.i + x + 1) as u16,
                    ..s
                }
            }
        },
        Instr::Unknown => spec_halt(s),
    }
}

/// One fetch-decode-execute step.  A halted machine changes nothing.  A
/// waiting machine takes the quit flag as key zero, takes a latched key
/// into the waiting register, or keeps waiting.  Otherwise the word at the
/// program counter is fetched (halting when the counter has left the
/// address space), the counter advances by two, and the decoded
/// instruction is executed; `rnd` is the byte a random instruction masks.
pub open spec fn spec_step(s: Chip8View, rnd: u8) -> Chip8View {
    if s.halted {
        s
    } else {
        match s.waiting {
            Some(x) => {
                if s.keys.quit {
                    Chip8View { v: s.v.update(x as int, 0u8), waiting: None, ..s }
                } else {
                    match s.keys.last_key {
                        Some(k) => Chip8View { v: s.v.update(x as int, k), waiting: None, ..s },
                        None => s,
                    }
                }
            },
            None => {
                if s.pc + 2 > MEMORY_SIZE {
                    spec_halt(s)
                } else {
                    let w = word_at(s.mem, s.pc as int);
                    spec_exec_instr(
                        Chip8View { pc: (s.pc + 2) as u16, ..s },
                        spec_decode(w),
                        rnd,
                    )
                }
            },
        }
    }
}

/// The interpreter: the machine state of `Chip8View`, executable.
pub struct Chip8 {
    v: Vec<u8>,
    i: u16,
    pc: u16,
    sp: u16,
    at: u8,
    dt: u8,
    memory: Vec<u8>,
    fb: Framebuffer,
    keys: Keypad,
    cycles: u64,
    halted: bool,
    waiting: Option<u8>,
}

impl View for Chip8 {
    type V = Chip8View;

    closed spec fn view(&self) -> Chip8View {
        Chip8View {
            v: self.v@,
            i: self.i,
            pc: self.pc,
            sp: self.sp,
            at: self.at,
            dt: self.dt,
            mem: self.memory@,
            fb: self.fb@,
            keys: self.keys@,
            cycles: self.cycles,
            halted: self.halted,
            waiting: self.waiting,
        }
    }
}

impl Chip8 {
    /// Boot a machine from a program image.  The image must fit between
    /// the program start and the end of memory; a host with a longer image
    /// must truncate it first.
    pub fn new(rom: &Vec<u8>) -> (c: Chip8)
        requires
            PROGRAM_START + rom@.len() <= MEMORY_SIZE,
        ensures
            c@ == spec_new(rom@),
            c@.inv(),
    {
        let mut memory: Vec<u8> = Vec::new();
        while memory.len() < MEMORY_SIZE
            invariant
                memory@.len() <= MEMORY_SIZE,
                forall|a: int| 0 <= a < memory@.len() ==> memory@[a] == 0u8,
            decreases MEMORY_SIZE - memory@.len(),
        {
            memory.push(0);
        }
        let mut k: u16 = 0;
        while k < FONT_BYTES
            invariant
                k <= FONT_BYTES,
                memory@.len() == MEMORY_SIZE,
                forall|a: int| 0 <= a < k ==> memory@[a] == spec_font_byte(a),
                forall|a: int| k <= a < MEMORY_SIZE ==> memory@[a] == 0u8,
            decreases FONT_BYTES - k,
        {
            let b = font_byte(k);
            memory.set(k as usize, b);
            k = k + 1;
        }
        let mut j: usize = 0;
        while j < rom.len()
            invariant
                j <= rom@.len(),
                PROGRAM_START + rom@.len() <= MEMORY_SIZE,
                memory@.len() == MEMORY_SIZE,
                forall|a: int| 0 <= a < FONT_BYTES ==> memory@[a] == spec_font_byte(a),
                forall|a: int|
                    PROGRAM_START <= a < PROGRAM_START + j ==> memory@[a] == rom@[a
                        - PROGRAM_START],
                forall|a: int|
                    FONT_BYTES <= a < MEMORY_SIZE && !(PROGRAM_START <= a < PROGRAM_START + j)
                        ==> memory@[a] == 0u8,
            decreases rom@.len() - j,
        {
            let b = rom[j];
            memory.set(PROGRAM_START as usize + j, b);
            j = j + 1;
        }
        let mut v: Vec<u8> = Vec::new();
        while v.len() < 16
            invariant
                v@.len() <= 16,
                forall|r: int| 0 <= r < v@.len() ==> v@[r] == 0u8,
            decreases 16 - v@.len(),
        {
            v.push(0);
        }
        let c = Chip8 {
            v,
            i: 0,
            pc: PROGRAM_START,
            sp: STACK_START - 2,
            at: 0,
            dt: 0,
            memory,
            fb: Framebuffer::new(),
            keys: Keypad::new(),
            cycles: 0,
            halted: false,
            waiting: None,
        };
        proof {
            assert(c@.v =~= spec_new(rom@).v);
            assert(c@.mem =~= spec_init_mem(rom@));
            assert(c@.fb =~= spec_new(rom@).fb);
            assert(c@.keys =~= spec_new(rom@).keys);
            assert(c@ =~= spec_new(rom@));
        }
        c
    }

    /// Count one finished cycle and decrement the timers on every second
    /// cycle, flooring both at zero.
    pub fn update_timers(&mut self)
        requires
            old(self)@.inv(),
        ensures
            final(self)@ == spec_update_timers(old(self)@),
            final(self)@.inv(),
    {
        self.cycles = self.cycles + 1;
        if self.cycles < CYCLES_PER_TICK {
            return ;
        }
        self.cycles = 0;
        if self.at > 0 {
            self.at = self.at - 1;
        }
        if self.dt > 0 {
            self.dt = self.dt - 1;
        }
    }

    /// Whether the machine has hit a fatal condition and stopped.
    pub fn halted(&self) -> (halted: bool)
        ensures
            halted == self@.halted,
    {
        self.halted
    }

    /// Whether the machine stands in the blocking key wait.
    pub fn is_waiting(&self) -> (waiting: bool)
        ensures
            waiting == (self@.waiting is Some),
    {
        self.waiting.is_some()
    }

    /// The delay timer's current value.
    pub fn delay_timer(&self) -> (t: u8)
        ensures
            t == self@.dt,
    {
        self.dt
    }

    /// The sound timer's current value.
    pub fn sound_timer(&self) -> (t: u8)
        ensures
            t == self@.at,
    {
        self.at
    }

    /// Whether the tone should be playing: the sound timer is nonzero.
    pub fn tone_active(&self) -> (on: bool)
        ensures
            on == (self@.at != 0),
    {
        self.at != 0
    }

    /// The program counter.
    pub fn program_counter(&self) -> (pc: u16)
        ensures
            pc == self@.pc,
    {
        self.pc
    }

    /// The index register.
    pub fn index_register(&self) -> (i: u16)
        ensures
            i == self@.i,
    {
        self.i
    }

    /// General-purpose register `x`.
    pub fn register(&self, x: u8) -> (value: u8)
        requires
            self@.inv(),
            x < 16,
        ensures
            value == self@.v[x as int],
    {
        self.v[x as usize]
    }

    /// The memory byte at `addr`.
    pub fn memory_at(&self, addr: u16) -> (value: u8)
        requires
            self@.inv(),
            addr < MEMORY_SIZE,
        ensures
            value == self@.mem[addr as int],
    {
        self.memory[addr as usize]
    }

    /// Whether the framebuffer changed since it was last presented.
    pub fn needs_presenting(&self) -> (dirty: bool)
        ensures
            dirty == self@.fb.dirty,
    {
        self.fb.needs_presenting()
    }

    /// Record that the host has presented the framebuffer.
    pub fn mark_presented(&mut self)
        ensures
            final(self)@ == (Chip8View {
                fb: FramebufferView { dirty: false, ..old(self)@.fb },
                ..old(self)@
            }),
    {
        self.fb.mark_presented();
    }

    /// Read one framebuffer pixel, for presentation.
    pub fn pixel(&self, x: usize, y: usize) -> (on: bool)
        requires
            self@.inv(),
            x < crate::framebuffer::SCREEN_WIDTH,
            y < crate::framebuffer::SCREEN_HEIGHT,
        ensures
            on == self@.fb.pixels[y * crate::framebuffer::SCREEN_WIDTH + x],
    {
        self.fb.pixel(x, y)
    }

    /// Feed a key press from the host's event source.
    pub fn key_down(&mut self, k: u8)
        requires
            old(self)@.inv(),
            k < KEY_COUNT,
        ensures
            final(self)@ == (Chip8View {
                keys: crate::keypad::spec_key_down(old(self)@.keys, k),
                ..old(self)@
            }),
            final(self)@.inv(),
    {
        self.keys.key_down(k);
    }

    /// Feed a key release from the host's event source.
    pub fn key_up(&mut self, k: u8)
        requires
            old(self)@.inv(),
            k < KEY_COUNT,
        ensures
            final(self)@ == (Chip8View {
                keys: crate::keypad::spec_key_up(old(self)@.keys, k),
                ..old(self)@
            }),
            final(self)@.inv(),
    {
        self.keys.key_up(k);
    }

    /// Whether keypad key `k` is currently held down.
    pub fn is_key_pressed(&self, k: u8) -> (pressed: bool)
        requires
            self@.inv(),
            k < KEY_COUNT,
        ensures
            pressed == self@.keys.keys[k as int],
    {
        self.keys.is_key_pressed(k)
    }

    /// Raise the quit flag, ending a key wait and the host's run loop.
    pub fn set_quit(&mut self)
        requires
            old(self)@.inv(),
        ensures
            final(self)@ == (Chip8View {
                keys: KeypadView { quit: true, ..old(self)@.keys },
                ..old(self)@
            }),
            final(self)@.inv(),
    {
        self.keys.set_quit();
    }

    /// Whether the quit flag stands.
    pub fn quit_requested(&self) -> (quit: bool)
        ensures
            quit == self@.keys.quit,
    {
        self.keys.quit_requested()
    }

    /// Store `V0..=Vx` at `I`, `I+1`, ..., advancing `I` by one per
    /// register written.
    fn store_regs(&mut self, x: u8)
        requires
            old(self)@.inv(),
            x < 16,
            old(self)@.i + x + 1 <= MEMORY_SIZE,
        ensures
            final(self)@ == (Chip8View {
                mem: Seq::new(
                    MEMORY_SIZE as nat,
                    |a: int|
                        if old(self)@.i <= a < old(self)@.i + x + 1 {
                            old(self)@.v[a - old(self)@.i]
                        } else {
                            old(self)@.mem[a]
                        },
                ),
                i: (old(self)@.i + x + 1) as u16,
                ..old(self)@
            }),
    {
        let ghost s0 = self@;
        let mut k: u16 = 0;
        while k <= x as u16
            invariant
                s0.inv(),
                x < 16,
                k <= x + 1,
                s0.i + x + 1 <= MEMORY_SIZE,
                self@ =~= (Chip8View {
                    mem: Seq::new(
                        MEMORY_SIZE as nat,
                        |a: int|
                            if s0.i <= a < s0.i + k {
                                s0.v[a - s0.i]
                            } else {
                                s0.mem[a]
                            },
                    ),
                    i: (s0.i + k) as u16,
                    ..s0
                }),
            decreases x + 1 - k,
        {
            let value = self.v[k as usize];
            let idx = self.i;
            self.memory.set(idx as usize, value);
            self.i = self.i + 1;
            k = k + 1;
            proof {
                assert(self@.mem =~= Seq::new(
                    MEMORY_SIZE as nat,
                    |a: int|
                        if s0.i <= a < s0.i + k {
                            s0.v[a - s0.i]
                        } else {
                            s0.mem[a]
                        },
                ));
            }
        }
    }

    /// Load `V0..=Vx` from `I`, `I+1`, ..., advancing `I` by one per
    /// register read.
    fn load_regs(&mut self, x: u8)
        requires
            old(self)@.inv(),
            x < 16,
            old(self)@.i + x + 1 <= MEMORY_SIZE,
        ensures
            final(self)@ == (Chip8View {
                v: Seq::new(
                    16,
                    |r: int|
                        if r <= x {
                            old(self)@.mem[old(self)@.i + r]
                        } else {
                            old(self)@.v[r]
                        },
                ),
                i: (old(self)@.i + x + 1) as u16,
                ..old(self)@
            }),
    {
        let ghost s0 = self@;
        let mut k: u16 = 0;
        while k <= x as u16
            invariant
                s0.inv(),
                x < 16,
                k <= x + 1,
                s0.i + x + 1 <= MEMORY_SIZE,
                self@ =~= (Chip8View {
                    v: Seq::new(
                        16,
                        |r: int|
                            if r < k {
                                s0.mem[s0.i + r]
                            } else {
                                s0.v[r]
                            },
                    ),
                    i: (s0.i + k) as u16,
                    ..s0
                }),
            decreases x + 1 - k,
        {
            let idx = self.i;
            let value = self.memory[idx as usize];
            self.v.set(k as usize, value);
            self.i = self.i + 1;
            k = k + 1;
            proof {
                assert(self@.v =~= Seq::new(
                    16,
                    |r: int|
                        if r < k {
                            s0.mem[s0.i + r]
                        } else {
                            s0.v[r]
                        },
                ));
            }
        }
        proof {
            assert(self@.v =~= Seq::new(
                16,
                |r: int|
                    if r <= x {
                        s0.mem[s0.i + r]
                    } else {
                        s0.v[r]
                    },
            ));
        }
    }

    /// Execute one decoded instruction.  The program counter has already
    /// been advanced past the instruction word.
    fn execute(&mut self, instr: Instr, entropy: u8)
        requires
            old(self)@.inv(),
            old(self)@.pc <= MEMORY_SIZE,
            instr_wf(instr),
        ensures
            final(self)@ == spec_exec_instr(old(self)@, instr, entropy),
            final(self)@.inv(),
    {
        let ghost s0 = self@;
        match instr {
            Instr::Cls => {
                self.fb.clear_screen();
            },
            Instr::Ret => {
                if self.sp < STACK_START {
                    self.halted = true;
                } else {
                    let hi = self.memory[self.sp as usize];
                    let lo = self.memory[self.sp as usize + 1];
                    self.pc = (hi as u16) * 256 + (lo as u16);
                    self.sp = self.sp - 2;
                }
            },
            Instr::Sys { .. } => {
                self.halted = true;
            },
            Instr::Jp { addr } => {
                self.pc = addr;
            },
            Instr::Call { addr } => {
                if self.sp >= STACK_TOP {
                    self.halted = true;
                } else {
                    self.sp = self.sp + 2;
                    let hi = (self.pc / 256) as u8;
                    let lo = (self.pc % 256) as u8;
                    self.memory.set(self.sp as usize, hi);
                    self.memory.set(self.sp as usize + 1, lo);
                    self.pc = addr;
                }
            },
            Instr::SeImm { x, kk } => {
                if self.v[x as usize] == kk {
                    self.pc = self.pc + 2;
                }
            },
            Instr::SneImm { x, kk } => {
                if self.v[x as usize] != kk {
                    self.pc = self.pc + 2;
                }
            },
            Instr::SeReg { x, y } => {
                if self.v[x as usize] == self.v[y as usize] {
                    self.pc = self.pc + 2;
                }
            },
            Instr::LdImm { x, kk } => {
                self.v.set(x as usize, kk);
            },
            Instr::AddImm { x, kk } => {
                let sum = self.v[x as usize] as u16 + kk as u16;
                self.v.set(x as usize, (sum % 256) as u8);
            },
            Instr::LdReg { x, y } => {
                let value = self.v[y as usize];
                self.v.set(x as usize, value);
            },
            Instr::OrReg { x, y } => {
                let value = self.v[x as usize] | self.v[y as usize];
                self.v.set(x as usize, value);
            },
            Instr::AndReg { x, y } => {
                let value = self.v[x as usize] & self.v[y as usize];
                self.v.set(x as usize, value);
            },
            Instr::XorReg { x, y } => {
                let value = self.v[x as usize] ^ self.v[y as usize];
                self.v.set(x as usize, value);
            },
            Instr::AddReg { x, y } => {
                let a = self.v[x as usize];
                let b = self.v[y as usize];
                let sum = a as u16 + b as u16;
                self.v.set(x as usize, (sum % 256) as u8);
                self.v.set(15, if sum >= 256 { 1 } else { 0 });
            },
            Instr::SubReg { x, y } => {
                let a = self.v[x as usize];
                let b = self.v[y as usize];
                let value = if a >= b { a - b } else { ((a as u16 + 256) - b as u16) as u8 };
                self.v.set(x as usize, value);
                self.v.set(15, if a >= b { 1 } else { 0 });
            },
            Instr::Shr { x } => {
                let flag = self.v[x as usize] & 1;
                self.v.set(15, flag);
                let vx = self.v[x as usize];
                self.v.set(x as usize, vx / 2);
            },
            Instr::SubnReg { x, y } => {
                let a = self.v[x as usize];
                let b = self.v[y as usize];
                let value = if b >= a { b - a } else { ((b as u16 + 256) - a as u16) as u8 };
                self.v.set(x as usize, value);
                self.v.set(15, if b >= a { 1 } else { 0 });
            },
            Instr::Shl { x } => {
                let flag = self.v[x as usize] & 0x80;
                self.v.set(15, flag);
                let vx = self.v[x as usize];
                self.v.set(x as usize, ((vx as u16 * 2) % 256) as u8);
            },
            Instr::SneReg { x, y } => {
                if self.v[x as usize] != self.v[y as usize] {
                    self.pc = self.pc + 2;
                }
            },
            Instr::LdI { addr } => {
                self.i = addr;
            },
            Instr::JpV0 { addr } => {
                self.pc = self.v[0] as u16 + addr;
            },
            Instr::Rnd { x, kk } => {
                self.v.set(x as usize, entropy & kk);
            },
            Instr::Drw { x, y, n } => {
                if self.i as usize + n as usize > MEMORY_SIZE {
                    self.halted = true;
                } else {
                    let mut sprite: Vec<u8> = Vec::new();
                    let mut k: u16 = 0;
                    while k < n as u16
                        invariant
                            n < 16,
                            k <= n,
                            self@ == s0,
                            s0.inv(),
                            s0.i + n <= MEMORY_SIZE,
                            sprite@.len() == k,
                            forall|j: int| 0 <= j < k ==> sprite@[j] == s0.mem[s0.i + j],
                        decreases n - k,
                    {
                        let b = self.memory[(self.i + k) as usize];
                        sprite.push(b);
                        k = k + 1;
                    }
                    proof {
                        assert(sprite@ =~= s0.mem.subrange(s0.i as int, s0.i + n));
                    }
                    let px = self.v[x as usize];
                    let py = self.v[y as usize];
                    let toggled = self.fb.draw_sprite(&sprite, px, py);
                    self.v.set(15, if toggled { 1 } else { 0 });
                }
            },
            Instr::Skp { x } => {
                let key = self.v[x as usize];
                if key >= KEY_COUNT as u8 {
                    self.halted = true;
                } else if self.keys.is_key_pressed(key) {
                    self.pc = self.pc + 2;
                }
            },
            Instr::Sknp { x } => {
                let key = self.v[x as usize];
                if key >= KEY_COUNT as u8 {
                    self.halted = true;
                } else if !self.keys.is_key_pressed(key) {
                    self.pc = self.pc + 2;
                }
            },
            Instr::LdDt { x } => {
                let t = self.dt;
                self.v.set(x as usize, t);
            },
            Instr::LdKey { x } => {
                self.keys.clear_last_key();
                self.waiting = Some(x);
            },
            Instr::SetDt { x } => {
                self.dt = self.v[x as usize];
            },
            Instr::SetSt { x } => {
                self.at = self.v[x as usize];
            },
            Instr::AddI { x } => {
                let vx = self.v[x as usize] as u16;
                if self.i > 0xFFFF - vx {
                    self.i = 0xFFFF;
                } else {
                    self.i = self.i + vx;
                }
            },
            Instr::LdFont { x } => {
                self.i = self.v[x as usize] as u16 * FONT_GLYPH_SIZE;
            },
            Instr::Bcd { x } => {
                if self.i as usize + 3 > MEMORY_SIZE {
                    self.halted = true;
                } else {
                    let value = self.v[x as usize];
                    self.memory.set(self.i as usize, value / 100);
                    self.memory.set(self.i as usize + 1, (value / 10) % 10);
                    self.memory.set(self.i as usize + 2, value % 10);
                }
            },
            Instr::StoreRegs { x } => {
                if self.i as usize + x as usize + 1 > MEMORY_SIZE {
                    self.halted = true;
                } else {
                    self.store_regs(x);
                }
            },
            Instr::LoadRegs { x } => {
                if self.i as usize + x as usize + 1 > MEMORY_SIZE {
                    self.halted = true;
                } else {
                    self.load_regs(x);
                }
            },
            Instr::Unknown => {
                self.halted = true;
            },
        }
    }

    /// One fetch-decode-execute step with the random byte supplied by the
    /// caller, so the whole step is a function of the machine state and
    /// that byte.  A deterministic harness injects a chosen byte here.
    pub fn step_with(&mut self, entropy: u8)
        requires
            old(self)@.inv(),
        ensures
            final(self)@ == spec_step(old(self)@, entropy),
            final(self)@.inv(),
    {
        if self.halted {
            return ;
        }
        let waiting = self.waiting;
        match waiting {
            Some(x) => {
                if self.keys.quit_requested() {
                    self.v.set(x as usize, 0);
                    self.waiting = None;
                } else {
                    match self.keys.last_key() {
                        Some(k) => {
                            self.v.set(x as usize, k);
                            self.waiting = None;
                        },
                        None => {},
                    }
                }
                return ;
            },
            None => {},
        }
        if self.pc as usize + 2 > MEMORY_SIZE {
            self.halted = true;
            return ;
        }
        let pc = self.pc;
        self.pc = pc + 2;
        let hi = self.memory[pc as usize];
        let lo = self.memory[pc as usize + 1];
        let word: u16 = (hi as u16) * 256 + (lo as u16);
        let instr = decode(word);
        proof {
            crate::decode::lemma_decode_wf(word);
            assert(word == word_at(old(self)@.mem, old(self)@.pc as int));
            assert(self@ =~= (Chip8View { pc: (old(self)@.pc + 2) as u16, ..old(self)@ }));
        }
        self.execute(instr, entropy);
    }

    /// One fetch-decode-execute step, drawing the random byte from the
    /// host's generator.  Whatever byte comes back, the machine moves to
    /// the state `spec_step` gives for some byte.
    pub fn step(&mut self)
        requires
            old(self)@.inv(),
        ensures
            exists|b: u8| final(self)@ == spec_step(old(self)@, b),
            final(self)@.inv(),
    {
        let b = random_byte();
        self.step_with(b);
        proof {
            assert(self@ == spec_step(old(self)@, b));
        }
    }
}

/// Relies on rand::random::<u8>: a byte from the thread-local generator.
/// Nothing is promised of its value.
#[verifier::external_body]
fn random_byte() -> u8 {
    rand::random()
}

} // verus!

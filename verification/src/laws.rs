//! Machine-wide laws: statements that relate several instructions or
//! several steps, proved once and for all against the spec-level machine.
//! The XOR drawing law lives beside the framebuffer it speaks of.

use vstd::prelude::*;

use crate::decode::{spec_decode, Instr};
use crate::interp::{
    spec_exec_instr, spec_flag, spec_step, spec_update_timers, word_at, Chip8View, MEMORY_SIZE,
    STACK_START, STACK_TOP,
};

verus! {

use vstd::arithmetic::div_mod::lemma_fundamental_div_mod;
use vstd::arithmetic::div_mod::lemma_mod_add_multiples_vanish;
use vstd::arithmetic::div_mod::lemma_small_mod;

/// Adding registers stores the 8-bit wrapped sum and raises the flag
/// register exactly when the true sum reaches 256.  When `x` is the flag
/// register itself, the flag write wins, so the sum claim holds for the
/// other registers.
pub proof fn lemma_add_reg_carry(s: Chip8View, x: u8, y: u8)
    requires
        s.inv(),
        x < 16,
        y < 16,
    ensures
        ({
            let a = s.v[x as int];
            let b = s.v[y as int];
            let t = spec_exec_instr(s, Instr::AddReg { x, y }, 0);
            &&& x != 15 ==> t.v[x as int] == (a + b) % 256
            &&& t.v[15] == spec_flag(a + b >= 256)
        }),
{
}

/// Subtracting registers stores the 8-bit wrapped difference and raises
/// the flag register exactly when no borrow occurs, that is, when the
/// minuend is at least the subtrahend.
pub proof fn lemma_sub_reg_borrow(s: Chip8View, x: u8, y: u8)
    requires
        s.inv(),
        x < 16,
        y < 16,
    ensures
        ({
            let a = s.v[x as int];
            let b = s.v[y as int];
            let t = spec_exec_instr(s, Instr::SubReg { x, y }, 0);
            &&& x != 15 ==> t.v[x as int] == (a - b) % 256
            &&& t.v[15] == spec_flag(a >= b)
        }),
{
    let a = s.v[x as int];
    let b = s.v[y as int];
    if a >= b {
        lemma_small_mod((a - b) as nat, 256);
    } else {
        lemma_mod_add_multiples_vanish(a - b, 256);
        lemma_small_mod((a + 256 - b) as nat, 256);
    }
}

/// The right shift halves the register and the flag register takes the
/// bit shifted out: the old low bit.
pub proof fn lemma_shr_flag(s: Chip8View, x: u8)
    requires
        s.inv(),
        x < 16,
        x != 15,
    ensures
        ({
            let a = s.v[x as int];
            let t = spec_exec_instr(s, Instr::Shr { x }, 0);
            &&& t.v[x as int] == a / 2
            &&& t.v[15] == a % 2
        }),
{
    let a = s.v[x as int];
    assert(a & 1 == a % 2) by (bit_vector);
}

/// The left shift doubles the register modulo 256 and the flag register
/// takes the raw masked high bit: `0x80` when the old value was at least
/// 128, and zero otherwise.  The flag is not normalized to one.
pub proof fn lemma_shl_flag(s: Chip8View, x: u8)
    requires
        s.inv(),
        x < 16,
        x != 15,
    ensures
        ({
            let a = s.v[x as int];
            let t = spec_exec_instr(s, Instr::Shl { x }, 0);
            &&& t.v[x as int] == (2 * a) % 256
            &&& t.v[15] == a & 0x80
            &&& t.v[15] == (if a >= 128 {
                0x80u8
            } else {
                0u8
            })
        }),
{
    let a = s.v[x as int];
    assert(a & 0x80 == (if a >= 128 {
        0x80u8
    } else {
        0u8
    })) by (bit_vector);
}

/// Storing `V0..=Vx` at `I` and loading them back with the same `I`
/// restores every register, and `I` advances by `x + 1` in both
/// operations.
pub proof fn lemma_store_load_round_trip(s: Chip8View, x: u8)
    requires
        s.inv(),
        x < 16,
        s.i + x + 1 <= MEMORY_SIZE,
    ensures
        ({
            let stored = spec_exec_instr(s, Instr::StoreRegs { x }, 0);
            let rewound = Chip8View { i: s.i, ..stored };
            let loaded = spec_exec_instr(rewound, Instr::LoadRegs { x }, 0);
            &&& stored.i == s.i + x + 1
            &&& loaded.i == s.i + x + 1
            &&& loaded.v =~= s.v
            &&& loaded.mem == stored.mem
        }),
{
    let stored = spec_exec_instr(s, Instr::StoreRegs { x }, 0);
    let rewound = Chip8View { i: s.i, ..stored };
    let loaded = spec_exec_instr(rewound, Instr::LoadRegs { x }, 0);
    assert(loaded.v =~= s.v);
}

/// A call pushes the return address and jumps; the matching return pops
/// it, restoring the program counter to the instruction after the call
/// and the stack pointer to its pre-call value.  This holds at every
/// nesting depth the sixteen-frame stack admits.
pub proof fn lemma_call_ret_round_trip(s: Chip8View, addr: u16)
    requires
        s.inv(),
        s.sp < STACK_TOP,
    ensures
        ({
            let called = spec_exec_instr(s, Instr::Call { addr }, 0);
            let returned = spec_exec_instr(called, Instr::Ret, 0);
            &&& called.pc == addr
            &&& !called.halted == !s.halted
            &&& returned.pc == s.pc
            &&& returned.sp == s.sp
            &&& returned.v == s.v
        }),
{
    let called = spec_exec_instr(s, Instr::Call { addr }, 0);
    assert(called.sp >= STACK_START);
    lemma_fundamental_div_mod(s.pc as int, 256);
    assert(word_at(called.mem, called.sp as int) == s.pc);
}

/// Timers only count down, never lose more than one per bookkeeping call,
/// and stop at zero.
pub proof fn lemma_timer_decay(s: Chip8View)
    ensures
        spec_update_timers(s).dt <= s.dt,
        spec_update_timers(s).at <= s.at,
        spec_update_timers(s).dt >= s.dt - 1,
        spec_update_timers(s).at >= s.at - 1,
        s.dt == 0 ==> spec_update_timers(s).dt == 0,
        s.at == 0 ==> spec_update_timers(s).at == 0,
{
}

/// A word that decodes to no defined instruction, or to a system call,
/// halts the machine: the step after the fetch changes nothing but the
/// advanced program counter and the halt flag.
pub proof fn lemma_unknown_opcode_halts(s: Chip8View, rnd: u8)
    requires
        s.inv(),
        !s.halted,
        (s.waiting is None),
        s.pc + 2 <= MEMORY_SIZE,
        ((spec_decode(word_at(s.mem, s.pc as int)) is Unknown) || (spec_decode(
            word_at(s.mem, s.pc as int),
        ) is Sys)),
    ensures
        ({
            let t = spec_step(s, rnd);
            &&& t.halted
            &&& t.v == s.v
            &&& t.mem == s.mem
            &&& t.i == s.i
            &&& t.sp == s.sp
            &&& t.fb == s.fb
            &&& t.pc == s.pc + 2
        }),
{
}

/// A halted machine ignores every further step: registers, memory and all
/// other state stay exactly as they were.
pub proof fn lemma_halted_step_is_noop(s: Chip8View, rnd: u8)
    requires
        s.halted,
    ensures
        spec_step(s, rnd) == s,
{
}

} // verus!

//! Instruction decoding: a 16-bit big-endian instruction word is split into
//! nibble fields and mapped to a closed enumeration of instruction
//! variants.
//!
//! The fields follow the usual layout: the top nibble selects the family,
//! `x` and `y` name registers, `n` is a four-bit literal, `kk` the low
//! byte, and `addr` the low twelve bits.  A word matching no defined
//! pattern decodes to `Unknown`, which the interpreter treats as fatal.

use vstd::prelude::*;

verus! {

/// The top nibble of an instruction word.
pub open spec fn nib_op(w: u16) -> u16 {
    w / 0x1000
}

/// The register field in bits 8 to 11.
pub open spec fn nib_x(w: u16) -> u16 {
    (w / 0x100) % 16
}

/// The register field in bits 4 to 7.
pub open spec fn nib_y(w: u16) -> u16 {
    (w / 0x10) % 16
}

/// The low nibble.
pub open spec fn nib_n(w: u16) -> u16 {
    w % 16
}

/// The low byte.
pub open spec fn word_kk(w: u16) -> u8 {
    (w % 0x100) as u8
}

/// The low twelve bits, an address.
pub open spec fn word_addr(w: u16) -> u16 {
    w % 0x1000
}

/// One decoded instruction.  Register fields hold values below 16 and
/// addresses values below 4096; `instr_wf` records those bounds.
#[derive(Clone, Copy, Debug, PartialEq, Eq, Structural)]
pub enum Instr {
    /// `00E0`: clear the screen.
    Cls,
    /// `00EE`: return from a call.
    Ret,
    /// Any other `0nnn` system call: fatal.
    Sys { addr: u16 },
    /// `1nnn`: jump.
    Jp { addr: u16 },
    /// `2nnn`: call.
    Call { addr: u16 },
    /// `3xkk`: skip next if `Vx == kk`.
    SeImm { x: u8, kk: u8 },
    /// `4xkk`: skip next if `Vx != kk`.
    SneImm { x: u8, kk: u8 },
    /// `5xy0`: skip next if `Vx == Vy`.
    SeReg { x: u8, y: u8 },
    /// `6xkk`: `Vx := kk`.
    LdImm { x: u8, kk: u8 },
    /// `7xkk`: `Vx := Vx + kk`, wrapping, no flag.
    AddImm { x: u8, kk: u8 },
    /// `8xy0`: `Vx := Vy`.
    LdReg { x: u8, y: u8 },
    /// `8xy1`: `Vx := Vx | Vy`.
    OrReg { x: u8, y: u8 },
    /// `8xy2`: `Vx := Vx & Vy`.
    AndReg { x: u8, y: u8 },
    /// `8xy3`: `Vx := Vx ^ Vy`.
    XorReg { x: u8, y: u8 },
    /// `8xy4`: `Vx := Vx + Vy` with carry in `VF`.
    AddReg { x: u8, y: u8 },
    /// `8xy5`: `Vx := Vx - Vy`, `VF` set when no borrow.
    SubReg { x: u8, y: u8 },
    /// `8xy6`: shift `Vx` right once, `VF` takes the bit shifted out.
    Shr { x: u8 },
    /// `8xy7`: `Vx := Vy - Vx`, `VF` set when no borrow.
    SubnReg { x: u8, y: u8 },
    /// `8xyE`: shift `Vx` left once, `VF` takes the raw masked high bit.
    Shl { x: u8 },
    /// `9xy0`: skip next if `Vx != Vy`.
    SneReg { x: u8, y: u8 },
    /// `Annn`: `I := nnn`.
    LdI { addr: u16 },
    /// `Bnnn`: jump to `V0 + nnn`.
    JpV0 { addr: u16 },
    /// `Cxkk`: `Vx := random byte & kk`.
    Rnd { x: u8, kk: u8 },
    /// `Dxyn`: draw the `n`-byte sprite at `I` at `(Vx, Vy)`.
    Drw { x: u8, y: u8, n: u8 },
    /// `Ex9E`: skip next if key `Vx` is pressed.
    Skp { x: u8 },
    /// `ExA1`: skip next if key `Vx` is not pressed.
    Sknp { x: u8 },
    /// `Fx07`: `Vx := delay timer`.
    LdDt { x: u8 },
    /// `Fx0A`: wait for a key press, then `Vx := that key`.
    LdKey { x: u8 },
    /// `Fx15`: `delay timer := Vx`.
    SetDt { x: u8 },
    /// `Fx18`: `sound timer := Vx`.
    SetSt { x: u8 },
    /// `Fx1E`: `I := I + Vx`.
    AddI { x: u8 },
    /// `Fx29`: `I :=` the font glyph address for digit `Vx`.
    LdFont { x: u8 },
    /// `Fx33`: store the decimal digits of `Vx` at `I`, `I+1`, `I+2`.
    Bcd { x: u8 },
    /// `Fx55`: store `V0..=Vx` at `I`, advancing `I`.
    StoreRegs { x: u8 },
    /// `Fx65`: load `V0..=Vx` from `I`, advancing `I`.
    LoadRegs { x: u8 },
    /// A word matching no defined pattern: fatal.
    Unknown,
}

/// The field bounds every decoded instruction satisfies.
pub open spec fn instr_wf(instr: Instr) -> bool {
    match instr {
        Instr::Cls => true,
        Instr::Ret => true,
        Instr::Sys { addr } => addr < 0x1000,
        Instr::Jp { addr } => addr < 0x1000,
        Instr::Call { addr } => addr < 0x1000,
        Instr::SeImm { x, kk } => x < 16,
        Instr::SneImm { x, kk } => x < 16,
        Instr::SeReg { x, y } => x < 16 && y < 16,
        Instr::LdImm { x, kk } => x < 16,
        Instr::AddImm { x, kk } => x < 16,
        Instr::LdReg { x, y } => x < 16 && y < 16,
        Instr::OrReg { x, y } => x < 16 && y < 16,
        Instr::AndReg { x, y } => x < 16 && y < 16,
        Instr::XorReg { x, y } => x < 16 && y < 16,
        Instr::AddReg { x, y } => x < 16 && y < 16,
        Instr::SubReg { x, y } => x < 16 && y < 16,
        Instr::Shr { x } => x < 16,
        Instr::SubnReg { x, y } => x < 16 && y < 16,
        Instr::Shl { x } => x < 16,
        Instr::SneReg { x, y } => x < 16 && y < 16,
        Instr::LdI { addr } => addr < 0x1000,
        Instr::JpV0 { addr } => addr < 0x1000,
        Instr::Rnd { x, kk } => x < 16,
        Instr::Drw { x, y, n } => x < 16 && y < 16 && n < 16,
        Instr::Skp { x } => x < 16,
        Instr::Sknp { x } => x < 16,
        Instr::LdDt { x } => x < 16,
        Instr::LdKey { x } => x < 16,
        Instr::SetDt { x } => x < 16,
        Instr::SetSt { x } => x < 16,
        Instr::AddI { x } => x < 16,
        Instr::LdFont { x } => x < 16,
        Instr::Bcd { x } => x < 16,
        Instr::StoreRegs { x } => x < 16,
        Instr::LoadRegs { x } => x < 16,
        Instr::Unknown => true,
    }
}

/// The instruction a word decodes to.
pub open spec fn spec_decode(w: u16) -> Instr {
    let op = nib_op(w);
    let x = nib_x(w) as u8;
    let y = nib_y(w) as u8;
    let n = nib_n(w) as u8;
    let kk = word_kk(w);
    let addr = word_addr(w);
    if w == 0x00E0 {
        Instr::Cls
    } else if w == 0x00EE {
        Instr::Ret
    } else if op == 0x0 {
        Instr::Sys { addr }
    } else if op == 0x1 {
        Instr::Jp { addr }
    } else if op == 0x2 {
        Instr::Call { addr }
    } else if op == 0x3 {
        Instr::SeImm { x, kk }
    } else if op == 0x4 {
        Instr::SneImm { x, kk }
    } else if op == 0x5 && n == 0x0 {
        Instr::SeReg { x, y }
    } else if op == 0x6 {
        Instr::LdImm { x, kk }
    } else if op == 0x7 {
        Instr::AddImm { x, kk }
    } else if op == 0x8 && n == 0x0 {
        Instr::LdReg { x, y }
    } else if op == 0x8 && n == 0x1 {
        Instr::OrReg { x, y }
    } else if op == 0x8 && n == 0x2 {
        Instr::AndReg { x, y }
    } else if op == 0x8 && n == 0x3 {
        Instr::XorReg { x, y }
    } else if op == 0x8 && n == 0x4 {
        Instr::AddReg { x, y }
    } else if op == 0x8 && n == 0x5 {
        Instr::SubReg { x, y }
    } else if op == 0x8 && n == 0x6 {
        Instr::Shr { x }
    } else if op == 0x8 && n == 0x7 {
        Instr::SubnReg { x, y }
    } else if op == 0x8 && n == 0xE {
        Instr::Shl { x }
    } else if op == 0x9 && n == 0x0 {
        Instr::SneReg { x, y }
    } else if op == 0xA {
        Instr::LdI { addr }
    } else if op == 0xB {
        Instr::JpV0 { addr }
    } else if op == 0xC {
        Instr::Rnd { x, kk }
    } else if op == 0xD {
        Instr::Drw { x, y, n }
    } else if op == 0xE && kk == 0x9E {
        Instr::Skp { x }
    } else if op == 0xE && kk == 0xA1 {
        Instr::Sknp { x }
    } else if op == 0xF && kk == 0x07 {
        Instr::LdDt { x }
    } else if op == 0xF && kk == 0x0A {
        Instr::LdKey { x }
    } else if op == 0xF && kk == 0x15 {
        Instr::SetDt { x }
    } else if op == 0xF && kk == 0x18 {
        Instr::SetSt { x }
    } else if op == 0xF && kk == 0x1E {
        Instr::AddI { x }
    } else if op == 0xF && kk == 0x29 {
        Instr::LdFont { x }
    } else if op == 0xF && kk == 0x33 {
        Instr::Bcd { x }
    } else if op == 0xF && kk == 0x55 {
        Instr::StoreRegs { x }
    } else if op == 0xF && kk == 0x65 {
        Instr::LoadRegs { x }
    } else {
        Instr::Unknown
    }
}

/// Every decoded instruction has its fields in range.
pub proof fn lemma_decode_wf(w: u16)
    ensures
        instr_wf(spec_decode(w)),
{
}

/// Split a word into its nibble fields and map it to an instruction.
pub fn decode(w: u16) -> (instr: Instr)
    ensures
        instr == spec_decode(w),
{
    let op = w / 0x1000;
    let x = ((w / 0x100) % 16) as u8;
    let y = ((w / 0x10) % 16) as u8;
    let n = (w % 16) as u8;
    let kk = (w % 0x100) as u8;
    let addr = w % 0x1000;
    if w == 0x00E0 {
        Instr::Cls
    } else if w == 0x00EE {
        Instr::Ret
    } else if op == 0x0 {
        Instr::Sys { addr }
    } else if op == 0x1 {
        Instr::Jp { addr }
    } else if op == 0x2 {
        Instr::Call { addr }
    } else if op == 0x3 {
        Instr::SeImm { x, kk }
    } else if op == 0x4 {
        Instr::SneImm { x, kk }
    } else if op == 0x5 && n == 0x0 {
        Instr::SeReg { x, y }
    } else if op == 0x6 {
        Instr::LdImm { x, kk }
    } else if op == 0x7 {
        Instr::AddImm { x, kk }
    } else if op == 0x8 && n == 0x0 {
        Instr::LdReg { x, y }
    } else if op == 0x8 && n == 0x1 {
        Instr::OrReg { x, y }
    } else if op == 0x8 && n == 0x2 {
        Instr::AndReg { x, y }
    } else if op == 0x8 && n == 0x3 {
        Instr::XorReg { x, y }
    } else if op == 0x8 && n == 0x4 {
        Instr::AddReg { x, y }
    } else if op == 0x8 && n == 0x5 {
        Instr::SubReg { x, y }
    } else if op == 0x8 && n == 0x6 {
        Instr::Shr { x }
    } else if op == 0x8 && n == 0x7 {
        Instr::SubnReg { x, y }
    } else if op == 0x8 && n == 0xE {
        Instr::Shl { x }
    } else if op == 0x9 && n == 0x0 {
        Instr::SneReg { x, y }
    } else if op == 0xA {
        Instr::LdI { addr }
    } else if op == 0xB {
        Instr::JpV0 { addr }
    } else if op == 0xC {
        Instr::Rnd { x, kk }
    } else if op == 0xD {
        Instr::Drw { x, y, n }
    } else if op == 0xE && kk == 0x9E {
        Instr::Skp { x }
    } else if op == 0xE && kk == 0xA1 {
        Instr::Sknp { x }
    } else if op == 0xF && kk == 0x07 {
        Instr::LdDt { x }
    } else if op == 0xF && kk == 0x0A {
        Instr::LdKey { x }
    } else if op == 0xF && kk == 0x15 {
        Instr::SetDt { x }
    } else if op == 0xF && kk == 0x18 {
        Instr::SetSt { x }
    } else if op == 0xF && kk == 0x1E {
        Instr::AddI { x }
    } else if op == 0xF && kk == 0x29 {
        Instr::LdFont { x }
    } else if op == 0xF && kk == 0x33 {
        Instr::Bcd { x }
    } else if op == 0xF && kk == 0x55 {
        Instr::StoreRegs { x }
    } else if op == 0xF && kk == 0x65 {
        Instr::LoadRegs { x }
    } else {
        Instr::Unknown
    }
}

} // verus!

use vstd::prelude::*;
use vstd::arithmetic::div_mod::lemma_fundamental_div_mod_converse;
use crate::error::VmError;

verus! {

/// One decoded instruction with its operands.
///
/// Register operands are indices 0x0..=0xF, addresses are the low twelve
/// bits of the instruction word, bytes the low eight bits.
#[derive(Debug, Clone, Copy, PartialEq, Eq, Structural)]
pub enum Op {
    Cls,
    Ret,
    Jp(u16),
    Call(u16),
    Se(u8, u8),
    Sne(u8, u8),
    SeReg(u8, u8),
    Ld(u8, u8),
    Add(u8, u8),
    LdReg(u8, u8),
    Or(u8, u8),
    And(u8, u8),
    Xor(u8, u8),
    AddReg(u8, u8),
    Sub(u8, u8),
    Shr(u8),
    Subn(u8, u8),
    Shl(u8),
    SneReg(u8, u8),
    LdI(u16),
    JpRegI(u16),
    Rnd(u8, u8),
    Drw(u8, u8, u8),
    Skp(u8),
    Sknp(u8),
    LdDT(u8),
    LdKb(u8),
    SetDT(u8),
    SetST(u8),
    AddToI(u8),
    LdChr(u8),
    LdBCD(u8),
    LdRegs(u8),
    RdMem(u8),
}

/// The four nibbles of an instruction word, most significant first.
pub open spec fn nibbles(w: u16) -> (u8, u8, u8, u8) {
    ((w / 4096) as u8, ((w / 256) % 16) as u8, ((w / 16) % 16) as u8, (w % 16) as u8)
}

/// The low twelve bits of an instruction word.
pub open spec fn addr_of(w: u16) -> u16 {
    w % 4096
}

/// The low eight bits of an instruction word.
pub open spec fn byte_of(w: u16) -> u8 {
    (w % 256) as u8
}

/// The instruction table: the operation a word stands for, if any.
pub open spec fn decode_spec(w: u16) -> Option<Op> {
    let addr = addr_of(w);
    let byte = byte_of(w);
    match nibbles(w) {
        (0x0, 0x0, 0xE, 0x0) => Some(Op::Cls),
        (0x0, 0x0, 0xE, 0xE) => Some(Op::Ret),
        (0x1, _, _, _) => Some(Op::Jp(addr)),
        (0x2, _, _, _) => Some(Op::Call(addr)),
        (0x3, x, _, _) => Some(Op::Se(x, byte)),
        (0x4, x, _, _) => Some(Op::Sne(x, byte)),
        (0x5, x, y, 0x0) => Some(Op::SeReg(x, y)),
        (0x6, x, _, _) => Some(Op::Ld(x, byte)),
        (0x7, x, _, _) => Some(Op::Add(x, byte)),
        (0x8, x, y, 0x0) => Some(Op::LdReg(x, y)),
        (0x8, x, y, 0x1) => Some(Op::Or(x, y)),
        (0x8, x, y, 0x2) => Some(Op::And(x, y)),
        (0x8, x, y, 0x3) => Some(Op::Xor(x, y)),
        (0x8, x, y, 0x4) => Some(Op::AddReg(x, y)),
        (0x8, x, y, 0x5) => Some(Op::Sub(x, y)),
        (0x8, x, _, 0x6) => Some(Op::Shr(x)),
        (0x8, x, y, 0x7) => Some(Op::Subn(x, y)),
        (0x8, x, _, 0xE) => Some(Op::Shl(x)),
        (0x9, x, y, 0x0) => Some(Op::SneReg(x, y)),
        (0xA, _, _, _) => Some(Op::LdI(addr)),
        (0xB, _, _, _) => Some(Op::JpRegI(addr)),
        (0xC, x, _, _) => Some(Op::Rnd(x, byte)),
        (0xD, x, y, n) => Some(Op::Drw(x, y, n)),
        (0xE, x, 0x9, 0xE) => Some(Op::Skp(x)),
        (0xE, x, 0xA, 0x1) => Some(Op::Sknp(x)),
        (0xF, x, 0x0, 0x7) => Some(Op::LdDT(x)),
        (0xF, x, 0x0, 0xA) => Some(Op::LdKb(x)),
        (0xF, x, 0x1, 0x5) => Some(Op::SetDT(x)),
        (0xF, x, 0x1, 0x8) => Some(Op::SetST(x)),
        (0xF, x, 0x1, 0xE) => Some(Op::AddToI(x)),
        (0xF, x, 0x2, 0x9) => Some(Op::LdChr(x)),
        (0xF, x, 0x3, 0x3) => Some(Op::LdBCD(x)),
        (0xF, x, 0x5, 0x5) => Some(Op::LdRegs(x)),
        (0xF, x, 0x6, 0x5) => Some(Op::RdMem(x)),
        _ => None,
    }
}

impl Op {
    /// Every register operand names one of the sixteen registers and a
    /// sprite height fits in a nibble.
    pub open spec fn well_formed(self) -> bool {
        match self {
            Op::Cls | Op::Ret | Op::Jp(_) | Op::Call(_) | Op::LdI(_) | Op::JpRegI(_) => true,
            Op::Se(x, _) | Op::Sne(x, _) | Op::Ld(x, _) | Op::Add(x, _) | Op::Rnd(x, _) => x < 16,
            Op::SeReg(x, y) | Op::LdReg(x, y) | Op::Or(x, y) | Op::And(x, y) | Op::Xor(x, y)
            | Op::AddReg(x, y) | Op::Sub(x, y) | Op::Subn(x, y) | Op::SneReg(x, y) => x < 16 && y
                < 16,
            Op::Drw(x, y, n) => x < 16 && y < 16 && n < 16,
            Op::Shr(x) | Op::Shl(x) | Op::Skp(x) | Op::Sknp(x) | Op::LdDT(x) | Op::LdKb(x)
            | Op::SetDT(x) | Op::SetST(x) | Op::AddToI(x) | Op::LdChr(x) | Op::LdBCD(x)
            | Op::LdRegs(x) | Op::RdMem(x) => x < 16,
        }
    }

    /// Well formed, and every address operand fits in twelve bits: exactly
    /// the operations that some instruction word stands for.
    pub open spec fn encodable(self) -> bool {
        &&& self.well_formed()
        &&& match self {
            Op::Jp(a) | Op::Call(a) | Op::LdI(a) | Op::JpRegI(a) => a < 0x1000,
            _ => true,
        }
    }
}

/// The word made of four nibbles.
pub open spec fn word(hi: u8, x: u8, y: u8, n: u8) -> u16 {
    (hi * 4096 + x * 256 + y * 16 + n) as u16
}

/// The word made of a leading nibble and a twelve-bit address.
pub open spec fn addr_word(hi: u8, a: u16) -> u16 {
    (hi * 4096 + a) as u16
}

/// The word made of a leading nibble, a register and a byte.
pub open spec fn byte_word(hi: u8, x: u8, b: u8) -> u16 {
    (hi * 4096 + x * 256 + b) as u16
}

/// The instruction word that stands for an operation; operand nibbles the
/// table ignores are zero.
pub open spec fn encode(op: Op) -> u16 {
    match op {
        Op::Cls => word(0x0, 0x0, 0xE, 0x0),
        Op::Ret => word(0x0, 0x0, 0xE, 0xE),
        Op::Jp(a) => addr_word(0x1, a),
        Op::Call(a) => addr_word(0x2, a),
        Op::Se(x, b) => byte_word(0x3, x, b),
        Op::Sne(x, b) => byte_word(0x4, x, b),
        Op::SeReg(x, y) => word(0x5, x, y, 0x0),
        Op::Ld(x, b) => byte_word(0x6, x, b),
        Op::Add(x, b) => byte_word(0x7, x, b),
        Op::LdReg(x, y) => word(0x8, x, y, 0x0),
        Op::Or(x, y) => word(0x8, x, y, 0x1),
        Op::And(x, y) => word(0x8, x, y, 0x2),
        Op::Xor(x, y) => word(0x8, x, y, 0x3),
        Op::AddReg(x, y) => word(0x8, x, y, 0x4),
        Op::Sub(x, y) => word(0x8, x, y, 0x5),
        Op::Shr(x) => word(0x8, x, 0x0, 0x6),
        Op::Subn(x, y) => word(0x8, x, y, 0x7),
        Op::Shl(x) => word(0x8, x, 0x0, 0xE),
        Op::SneReg(x, y) => word(0x9, x, y, 0x0),
        Op::LdI(a) => addr_word(0xA, a),
        Op::JpRegI(a) => addr_word(0xB, a),
        Op::Rnd(x, b) => byte_word(0xC, x, b),
        Op::Drw(x, y, n) => word(0xD, x, y, n),
        Op::Skp(x) => word(0xE, x, 0x9, 0xE),
        Op::Sknp(x) => word(0xE, x, 0xA, 0x1),
        Op::LdDT(x) => word(0xF, x, 0x0, 0x7),
        Op::LdKb(x) => word(0xF, x, 0x0, 0xA),
        Op::SetDT(x) => word(0xF, x, 0x1, 0x5),
        Op::SetST(x) => word(0xF, x, 0x1, 0x8),
        Op::AddToI(x) => word(0xF, x, 0x1, 0xE),
        Op::LdChr(x) => word(0xF, x, 0x2, 0x9),
        Op::LdBCD(x) => word(0xF, x, 0x3, 0x3),
        Op::LdRegs(x) => word(0xF, x, 0x5, 0x5),
        Op::RdMem(x) => word(0xF, x, 0x6, 0x5),
    }
}

/// Every operation of the table, written as its instruction word, decodes
/// to exactly that operation with the same operands, whatever their
/// values from 0x0 to 0xF (or over the full byte and address range).
pub proof fn lemma_decode_encode(op: Op)
    requires
        op.encodable(),
    ensures
        decode_spec(encode(op)) == Some(op),
{
    match op {
        Op::Cls => lemma_word_fields(0x0, 0x0, 0xE, 0x0),
        Op::Ret => lemma_word_fields(0x0, 0x0, 0xE, 0xE),
        Op::Jp(a) => lemma_addr_word_fields(0x1, a),
        Op::Call(a) => lemma_addr_word_fields(0x2, a),
        Op::Se(x, b) => lemma_byte_word_fields(0x3, x, b),
        Op::Sne(x, b) => lemma_byte_word_fields(0x4, x, b),
        Op::SeReg(x, y) => lemma_word_fields(0x5, x, y, 0x0),
        Op::Ld(x, b) => lemma_byte_word_fields(0x6, x, b),
        Op::Add(x, b) => lemma_byte_word_fields(0x7, x, b),
        Op::LdReg(x, y) => lemma_word_fields(0x8, x, y, 0x0),
        Op::Or(x, y) => lemma_word_fields(0x8, x, y, 0x1),
        Op::And(x, y) => lemma_word_fields(0x8, x, y, 0x2),
        Op::Xor(x, y) => lemma_word_fields(0x8, x, y, 0x3),
        Op::AddReg(x, y) => lemma_word_fields(0x8, x, y, 0x4),
        Op::Sub(x, y) => lemma_word_fields(0x8, x, y, 0x5),
        Op::Shr(x) => lemma_word_fields(0x8, x, 0x0, 0x6),
        Op::Subn(x, y) => lemma_word_fields(0x8, x, y, 0x7),
        Op::Shl(x) => lemma_word_fields(0x8, x, 0x0, 0xE),
        Op::SneReg(x, y) => lemma_word_fields(0x9, x, y, 0x0),
        Op::LdI(a) => lemma_addr_word_fields(0xA, a),
        Op::JpRegI(a) => lemma_addr_word_fields(0xB, a),
        Op::Rnd(x, b) => lemma_byte_word_fields(0xC, x, b),
        Op::Drw(x, y, n) => lemma_word_fields(0xD, x, y, n),
        Op::Skp(x) => lemma_word_fields(0xE, x, 0x9, 0xE),
        Op::Sknp(x) => lemma_word_fields(0xE, x, 0xA, 0x1),
        Op::LdDT(x) => lemma_word_fields(0xF, x, 0x0, 0x7),
        Op::LdKb(x) => lemma_word_fields(0xF, x, 0x0, 0xA),
        Op::SetDT(x) => lemma_word_fields(0xF, x, 0x1, 0x5),
        Op::SetST(x) => lemma_word_fields(0xF, x, 0x1, 0x8),
        Op::AddToI(x) => lemma_word_fields(0xF, x, 0x1, 0xE),
        Op::LdChr(x) => lemma_word_fields(0xF, x, 0x2, 0x9),
        Op::LdBCD(x) => lemma_word_fields(0xF, x, 0x3, 0x3),
        Op::LdRegs(x) => lemma_word_fields(0xF, x, 0x5, 0x5),
        Op::RdMem(x) => lemma_word_fields(0xF, x, 0x6, 0x5),
    }
}

proof fn lemma_word_fields(hi: u8, x: u8, y: u8, n: u8)
    requires
        hi < 16,
        x < 16,
        y < 16,
        n < 16,
    ensures
        nibbles(word(hi, x, y, n)) == (hi, x, y, n),
{
    let w = word(hi, x, y, n) as int;
    let (h, a, b, c) = (hi as int, x as int, y as int, n as int);
    assert(w == h * 4096 + a * 256 + b * 16 + c);
    lemma_fundamental_div_mod_converse(w, 4096, h, a * 256 + b * 16 + c);
    lemma_fundamental_div_mod_converse(w, 256, h * 16 + a, b * 16 + c);
    lemma_fundamental_div_mod_converse(h * 16 + a, 16, h, a);
    lemma_fundamental_div_mod_converse(w, 16, h * 256 + a * 16 + b, c);
    lemma_fundamental_div_mod_converse(h * 256 + a * 16 + b, 16, h * 16 + a, b);
}

proof fn lemma_addr_word_fields(hi: u8, a: u16)
    requires
        hi < 16,
        a < 0x1000,
    ensures
        nibbles(addr_word(hi, a)).0 == hi,
        addr_of(addr_word(hi, a)) == a,
{
    lemma_fundamental_div_mod_converse(addr_word(hi, a) as int, 4096, hi as int, a as int);
}

proof fn lemma_byte_word_fields(hi: u8, x: u8, b: u8)
    requires
        hi < 16,
        x < 16,
    ensures
        nibbles(byte_word(hi, x, b)).0 == hi,
        nibbles(byte_word(hi, x, b)).1 == x,
        byte_of(byte_word(hi, x, b)) == b,
{
    let w = byte_word(hi, x, b) as int;
    let (h, a, c) = (hi as int, x as int, b as int);
    assert(w == h * 4096 + a * 256 + c);
    lemma_fundamental_div_mod_converse(w, 4096, h, a * 256 + c);
    lemma_fundamental_div_mod_converse(w, 256, h * 16 + a, c);
    lemma_fundamental_div_mod_converse(h * 16 + a, 16, h, a);
}

/// Whatever a word decodes to is a well-formed operation.
pub proof fn lemma_decode_well_formed(w: u16)
    ensures
        decode_spec(w) matches Some(op) ==> op.encodable(),
{
}

/// Splits a word into its four nibbles.
fn opcode_components(opcode: u16) -> (r: (u8, u8, u8, u8))
    ensures
        r == nibbles(opcode),
{
    let hi = (opcode & 0xF000) >> 12;
    let x = (opcode & 0x0F00) >> 8;
    let y = (opcode & 0x00F0) >> 4;
    let n = opcode & 0x000F;
    assert((opcode & 0xF000) >> 12 == opcode / 4096 && (opcode & 0x0F00) >> 8 == (opcode / 256)
        % 16 && (opcode & 0x00F0) >> 4 == (opcode / 16) % 16 && opcode & 0x000F == opcode % 16)
        by (bit_vector);
    (hi as u8, x as u8, y as u8, n as u8)
}

/// Translates an instruction word into its operation.
pub fn decode(opcode: u16) -> (r: Result<Op, VmError>)
    ensures
        r == (match decode_spec(opcode) {
            Some(op) => Ok(op),
            None => Err(VmError::InvalidOpcode(opcode)),
        }),
{
    let components = opcode_components(opcode);
    assert(opcode & 0x0FFF == opcode % 4096 && opcode & 0x00FF == opcode % 256) by (bit_vector);
    let addr = opcode & 0x0FFF;
    let byte = (opcode & 0x00FF) as u8;
    match components {
        (0x0, 0x0, 0xE, 0x0) => Ok(Op::Cls),
        (0x0, 0x0, 0xE, 0xE) => Ok(Op::Ret),
        (0x1, _, _, _) => Ok(Op::Jp(addr)),
        (0x2, _, _, _) => Ok(Op::Call(addr)),
        (0x3, x, _, _) => Ok(Op::Se(x, byte)),
        (0x4, x, _, _) => Ok(Op::Sne(x, byte)),
        (0x5, x, y, 0x0) => Ok(Op::SeReg(x, y)),
        (0x6, x, _, _) => Ok(Op::Ld(x, byte)),
        (0x7, x, _, _) => Ok(Op::Add(x, byte)),
        (0x8, x, y, 0x0) => Ok(Op::LdReg(x, y)),
        (0x8, x, y, 0x1) => Ok(Op::Or(x, y)),
        (0x8, x, y, 0x2) => Ok(Op::And(x, y)),
        (0x8, x, y, 0x3) => Ok(Op::Xor(x, y)),
        (0x8, x, y, 0x4) => Ok(Op::AddReg(x, y)),
        (0x8, x, y, 0x5) => Ok(Op::Sub(x, y)),
        (0x8, x, _, 0x6) => Ok(Op::Shr(x)),
        (0x8, x, y, 0x7) => Ok(Op::Subn(x, y)),
        (0x8, x, _, 0xE) => Ok(Op::Shl(x)),
        (0x9, x, y, 0x0) => Ok(Op::SneReg(x, y)),
        (0xA, _, _, _) => Ok(Op::LdI(addr)),
        (0xB, _, _, _) => Ok(Op::JpRegI(addr)),
        (0xC, x, _, _) => Ok(Op::Rnd(x, byte)),
        (0xD, x, y, n) => Ok(Op::Drw(x, y, n)),
        (0xE, x, 0x9, 0xE) => Ok(Op::Skp(x)),
        (0xE, x, 0xA, 0x1) => Ok(Op::Sknp(x)),
        (0xF, x, 0x0, 0x7) => Ok(Op::LdDT(x)),
        (0xF, x, 0x0, 0xA) => Ok(Op::LdKb(x)),
        (0xF, x, 0x1, 0x5) => Ok(Op::SetDT(x)),
        (0xF, x, 0x1, 0x8) => Ok(Op::SetST(x)),
        (0xF, x, 0x1, 0xE) => Ok(Op::AddToI(x)),
        (0xF, x, 0x2, 0x9) => Ok(Op::LdChr(x)),
        (0xF, x, 0x3, 0x3) => Ok(Op::LdBCD(x)),
        (0xF, x, 0x5, 0x5) => Ok(Op::LdRegs(x)),
        (0xF, x, 0x6, 0x5) => Ok(Op::RdMem(x)),
        _ => Err(VmError::InvalidOpcode(opcode)),
    }
}

} // verus!

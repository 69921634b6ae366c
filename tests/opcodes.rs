use chip8::error::VmError;
use chip8::opcodes::{decode, Op};

#[test]
fn cls() {
    assert_eq!(Ok(Op::Cls), decode(0x00E0))
}

#[test]
fn opcodes_ret() {
    assert_eq!(Ok(Op::Ret), decode(0x00EE))
}

#[test]
fn opcodes_jp() {
    assert_eq!(Ok(Op::Jp(0x0234)), decode(0x1234))
}

#[test]
fn opcodes_call() {
    assert_eq!(Ok(Op::Call(0x0345)), decode(0x2345))
}

#[test]
fn opcodes_se() {
    assert_eq!(Ok(Op::Se(0x04, 0x56)), decode(0x3456))
}

#[test]
fn opcodes_sne() {
    assert_eq!(Ok(Op::Sne(0x05, 0x67)), decode(0x4567))
}

#[test]
fn opcodes_se_reg() {
    assert_eq!(Ok(Op::SeReg(0x06, 0x07)), decode(0x5670))
}

#[test]
fn opcodes_ld() {
    assert_eq!(Ok(Op::Ld(0x07, 0x89)), decode(0x6789))
}

#[test]
fn opcodes_add() {
    assert_eq!(Ok(Op::Add(0x08, 0x90)), decode(0x7890))
}

#[test]
fn ld_reg() {
    assert_eq!(Ok(Op::LdReg(0x09, 0x01)), decode(0x8910))
}

#[test]
fn opcodes_or() {
    assert_eq!(Ok(Op::Or(0x09, 0x01)), decode(0x8911))
}

#[test]
fn opcodes_and() {
    assert_eq!(Ok(Op::And(0x09, 0x07)), decode(0x8972))
}

#[test]
fn opcodes_xor() {
    assert_eq!(Ok(Op::Xor(0x09, 0x07)), decode(0x8973))
}

#[test]
fn opcodes_add_reg() {
    assert_eq!(Ok(Op::AddReg(0x09, 0x07)), decode(0x8974))
}

#[test]
fn opcodes_sub() {
    assert_eq!(Ok(Op::Sub(0x09, 0x07)), decode(0x8975))
}

#[test]
fn opcodes_shr() {
    assert_eq!(Ok(Op::Shr(0x09)), decode(0x8906))
}

#[test]
fn opcodes_subn() {
    assert_eq!(Ok(Op::Subn(0x09, 0x07)), decode(0x8977))
}

#[test]
fn opcodes_shl() {
    assert_eq!(Ok(Op::Shl(0x09)), decode(0x897E))
}

#[test]
fn opcodes_sne_reg() {
    assert_eq!(Ok(Op::SneReg(0x01, 0x02)), decode(0x9120))
}

#[test]
fn opcodes_ldi() {
    assert_eq!(Ok(Op::LdI(0x0123)), decode(0xA123))
}

#[test]
fn opcodes_jp_reg_i() {
    assert_eq!(Ok(Op::JpRegI(0x0123)), decode(0xB123))
}

#[test]
fn rand() {
    assert_eq!(Ok(Op::Rnd(0x0F, 0x12)), decode(0xCF12))
}

#[test]
fn drw() {
    assert_eq!(Ok(Op::Drw(0x05, 0x06, 0x07)), decode(0xD567))
}

#[test]
fn opcodes_skp() {
    assert_eq!(Ok(Op::Skp(0x3)), decode(0xE39E))
}

#[test]
fn opcodes_sknp() {
    assert_eq!(Ok(Op::Sknp(0x03)), decode(0xE3A1))
}

#[test]
fn opcodes_ld_dt() {
    assert_eq!(Ok(Op::LdDT(0x09)), decode(0xF907))
}

#[test]
fn opcodes_ld_kb() {
    assert_eq!(Ok(Op::LdKb(0x09)), decode(0xF90A))
}

#[test]
fn opcodes_set_dt() {
    assert_eq!(Ok(Op::SetDT(0x09)), decode(0xF915))
}

#[test]
fn set_st() {
    assert_eq!(Ok(Op::SetST(0x09)), decode(0xF918))
}

#[test]
fn opcodes_add_to_i() {
    assert_eq!(Ok(Op::AddToI(0x09)), decode(0xF91E))
}

#[test]
fn ld_chr() {
    assert_eq!(Ok(Op::LdChr(0x09)), decode(0xF929))
}

#[test]
fn opcodes_ld_bcd() {
    assert_eq!(Ok(Op::LdBCD(0x09)), decode(0xF933))
}

#[test]
fn ld_regs() {
    assert_eq!(Ok(Op::LdRegs(0x09)), decode(0xF955))
}

#[test]
fn rd_mem() {
    assert_eq!(Ok(Op::RdMem(0x09)), decode(0xF965))
}

#[test]
fn decode_boundary_nibbles() {
    assert_eq!(Ok(Op::Jp(0x0000)), decode(0x1000));
    assert_eq!(Ok(Op::Jp(0x0FFF)), decode(0x1FFF));
    assert_eq!(Ok(Op::Se(0x0F, 0xFF)), decode(0x3FFF));
    assert_eq!(Ok(Op::Ld(0x00, 0x00)), decode(0x6000));
    assert_eq!(Ok(Op::AddReg(0x0F, 0x0F)), decode(0x8FF4));
    assert_eq!(Ok(Op::LdReg(0x00, 0x00)), decode(0x8000));
    assert_eq!(Ok(Op::Shr(0x0F)), decode(0x8FF6));
    assert_eq!(Ok(Op::Shl(0x00)), decode(0x80FE));
    assert_eq!(Ok(Op::Drw(0x00, 0x00, 0x00)), decode(0xD000));
    assert_eq!(Ok(Op::Drw(0x0F, 0x0F, 0x0F)), decode(0xDFFF));
    assert_eq!(Ok(Op::Skp(0x0F)), decode(0xEF9E));
    assert_eq!(Ok(Op::RdMem(0x0F)), decode(0xFF65));
    assert_eq!(Ok(Op::LdDT(0x00)), decode(0xF007));
}

#[test]
fn decode_invalid_words() {
    for w in [
        0x0000u16, 0x00E1, 0x00EF, 0x01E0, 0x5671, 0x567F, 0x8008, 0x800F, 0x9121, 0xE000,
        0xE39F, 0xE3A2, 0xF000, 0xF908, 0xF966, 0xFFFF,
    ] {
        assert_eq!(Err(VmError::InvalidOpcode(w)), decode(w));
    }
}

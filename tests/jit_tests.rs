use alm::ast::{compile, encode, interpret, Op, WordReg};
use alm::RegSet;

#[test]
fn add_and_neg() {
    let ops = [Op::Add(WordReg::Wa, WordReg::Wb), Op::Neg(WordReg::Wc)];
    let mut regs = RegSet { wa: 5, wb: 8, wc: 10, wd: 0 };
    interpret(&ops, &mut regs);
    assert_eq!(regs, RegSet { wa: 13, wb: 8, wc: 0xFFFF_FFFF_FFFF_FFF6, wd: 0 });
}

#[test]
fn imm_mov() {
    let ops = [Op::ImmMov(WordReg::Wd, 0x1234), Op::Mov(WordReg::Wa, WordReg::Wd)];
    let mut regs = RegSet { wa: 0, wb: 0, wc: 0, wd: 0 };
    interpret(&ops, &mut regs);
    assert_eq!(regs, RegSet { wa: 0x1234, wb: 0, wc: 0, wd: 0x1234 });
}

#[test]
fn add_wraps() {
    let ops = [Op::Add(WordReg::Wa, WordReg::Wb)];
    let mut regs = RegSet { wa: usize::MAX, wb: 2, wc: 0, wd: 0 };
    interpret(&ops, &mut regs);
    assert_eq!(regs.wa, 1);
    let ops = [Op::Neg(WordReg::Wb)];
    let mut regs = RegSet { wa: 0, wb: 0, wc: 0, wd: 0 };
    interpret(&ops, &mut regs);
    assert_eq!(regs.wb, 0);
}

#[test]
fn host_registers() {
    assert_eq!(WordReg::Wa.to_dynreg(), 0);
    assert_eq!(WordReg::Wb.to_dynreg(), 1);
    assert_eq!(WordReg::Wc.to_dynreg(), 2);
    assert_eq!(WordReg::Wd.to_dynreg(), 6);
}

const PRELUDE: [u8; 15] = [0x48, 0x8B, 0x07, 0x48, 0x8B, 0x4F, 0x08, 0x48, 0x8B, 0x57, 0x10, 0x48, 0x8B, 0x77, 0x18];
const POSTLUDE: [u8; 16] = [0x48, 0x89, 0x07, 0x48, 0x89, 0x4F, 0x08, 0x48, 0x89, 0x57, 0x10, 0x48, 0x89, 0x77, 0x18, 0xC3];

#[test]
fn encode_add_neg() {
    let code = encode(&[Op::Add(WordReg::Wa, WordReg::Wb), Op::Neg(WordReg::Wc)]);
    let mut want = PRELUDE.to_vec();
    want.extend_from_slice(&[0x48, 0x01, 0xC8, 0x48, 0xF7, 0xDA]);
    want.extend_from_slice(&POSTLUDE);
    assert_eq!(code, want);
}

#[test]
fn encode_imm_mov() {
    let code = encode(&[Op::ImmMov(WordReg::Wd, 0x1234), Op::Mov(WordReg::Wa, WordReg::Wd)]);
    let mut want = PRELUDE.to_vec();
    want.extend_from_slice(&[0x48, 0xBE, 0x34, 0x12, 0, 0, 0, 0, 0, 0, 0x48, 0x89, 0xF0]);
    want.extend_from_slice(&POSTLUDE);
    assert_eq!(code, want);
}

#[test]
fn encode_empty_program() {
    let code = encode(&[]);
    let mut want = PRELUDE.to_vec();
    want.extend_from_slice(&POSTLUDE);
    assert_eq!(code, want);
}

#[test]
fn compile_maps_the_encoding() {
    let ops = [Op::Add(WordReg::Wa, WordReg::Wb), Op::Neg(WordReg::Wc)];
    let buf = compile(&ops).expect("executable memory");
    assert_eq!(&buf[..], &encode(&ops)[..]);
}

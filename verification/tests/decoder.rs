use chip8::errors::{DecodeErr, Error};
use chip8::instructions::Instr;
use chip8::numtypes::{u12, u4};

fn addr(v: u16) -> u12 {
    u12::of(v)
}

use chip8::reg::GPReg::{
    V0, V1, V2, V3, V4, V5, V6, V7, V8, V9, VA, VB, VC, VD, VE, VF,
};

#[test]
fn round_trip_table() {
    let table: Vec<(u16, Instr)> = vec![
        (0x00E0, Instr::CLS),
        (0x00EE, Instr::RET),
        (0x1228, Instr::JP(addr(0x228))),
        (0x2ABC, Instr::CALL(addr(0xABC))),
        (0x3A02, Instr::SEQ(VA, 0x02)),
        (0x4B7F, Instr::SNELIT(VB, 0x7F)),
        (0x5120, Instr::SE(V1, V2)),
        (0x6A02, Instr::LDL(VA, 0x02)),
        (0x7CFF, Instr::ADDL(VC, 0xFF)),
        (0x8120, Instr::LD(V1, V2)),
        (0x8121, Instr::OR(V1, V2)),
        (0x8123, Instr::XOR(V1, V2)),
        (0x8124, Instr::ADDC(V1, V2)),
        (0x8125, Instr::SUBC(V1, V2)),
        (0x8126, Instr::SHRC(V1, V2)),
        (0x8127, Instr::SUBN(V1, V2)),
        (0x812E, Instr::SHLC(V1, V2)),
        (0x9340, Instr::SNE(V3, V4)),
        (0xA2F0, Instr::LDI(addr(0x2F0))),
        (0xB228, Instr::JPL(addr(0x228))),
        (0xC471, Instr::RND(V4, 0x71)),
        (0xD125, Instr::DRW(V1, V2, u4::of(5))),
        (0xE09E, Instr::SKP(V0)),
        (0xE5A1, Instr::SKNP(V5)),
        (0xF607, Instr::MOVDT(V6)),
        (0xF70A, Instr::LDKB(V7)),
        (0xF815, Instr::LDDT(V8)),
        (0xF918, Instr::LDST(V9)),
        (0xFD1E, Instr::ADDI(VD)),
        (0xFE29, Instr::LDSPR(VE)),
        (0xF033, Instr::LDBCD(V0)),
        (0xFF55, Instr::PUSHREG(VF)),
        (0xF265, Instr::POPREG(V2)),
    ];
    for (word, expected) in table {
        assert_eq!(Instr::decode(word), Ok(expected), "word 0x{word:04X}");
    }
    // The AND pattern, singled out because 0x8122 is the example's neighbor.
    assert_eq!(Instr::decode(0x8122), Ok(Instr::AND(V1, V2)));
}

#[test]
fn unknown_opcode_errors() {
    for word in [0x0000u16, 0x0123, 0x00E1, 0x5121, 0x9341, 0xE000, 0xF0FF] {
        assert_eq!(
            Instr::decode(word),
            Err(Error::InstrErr(DecodeErr::Opcode(word))),
            "word 0x{word:04X}"
        );
    }
}

#[test]
fn unknown_subcode_errors() {
    assert_eq!(
        Instr::decode(0x8128),
        Err(Error::InstrErr(DecodeErr::Subcode(0x8, 0x8)))
    );
    assert_eq!(
        Instr::decode(0x812F),
        Err(Error::InstrErr(DecodeErr::Subcode(0x8, 0xF)))
    );
}

#[test]
fn decode_total_and_deterministic() {
    // Totality: every 16-bit word decodes without panicking, to an
    // instruction or to a named error. Determinism: a second decode of the
    // same word gives the same result.
    for word in 0u32..=0xFFFF {
        let w = word as u16;
        let first = Instr::decode(w);
        let second = Instr::decode(w);
        assert_eq!(first, second);
        if let Err(Error::InstrErr(e)) = first {
            match e {
                DecodeErr::Opcode(v) => assert_eq!(v, w),
                DecodeErr::Subcode(fam, _) => assert_eq!(fam, 0x8),
                DecodeErr::Reg(_, _) => panic!("register nibbles are total"),
            }
        }
    }
}

use tile_cpu::disassembler::{disassemble_v2_word, reg_name};
use tile_cpu::isa::{decode_v2_word, effective_reg, is_v2_mmio_addr, mnemonic_for_opcode};

fn regs(op: u32, rd: u32, rs: u32) -> u32 {
    (op << 11) | (rd << 8) | (rs << 5)
}

fn imm(op: u32, rd: u32, imm8: u32) -> u32 {
    (op << 11) | (rd << 8) | imm8
}

fn with_reg_ext(word: u32, rd_hi: bool, rs_hi: bool) -> u32 {
    word | ((rd_hi as u32) << 16) | ((rs_hi as u32) << 17)
}

fn with_ext(word: u32, ext: u32) -> u32 {
    word | (ext << 16)
}

/// A small assembler for the lines that canonical words disassemble to.
fn assemble(line: &str) -> Option<u32> {
    let (mnemonic, rest) = match line.split_once(' ') {
        Some((m, r)) => (m, r),
        None => (line, ""),
    };
    let ops: Vec<String> = rest
        .split(", ")
        .filter(|s| !s.is_empty())
        .map(|s| s.trim_matches(|c| c == '[' || c == ']').to_string())
        .collect();
    let reg = |k: usize| -> Option<u32> { ops.get(k)?.strip_prefix('R')?.parse().ok() };
    let num = |k: usize| -> Option<u32> { ops.get(k)?.parse().ok() };
    let ext = |rd: u32, rs: u32| ((rd / 8) << 16) | ((rs / 8) << 17);
    let two = |op: u32| -> Option<u32> {
        let (d, s) = (reg(0)?, reg(1)?);
        Some(regs(op, d % 8, s % 8) | ext(d, s))
    };
    let with_imm = |op: u32| -> Option<u32> {
        let d = reg(0)?;
        Some(imm(op, d % 8, num(1)?) | ext(d, 0))
    };
    let jump = |op: u32| -> Option<u32> { Some(imm(op, 0, num(0)?)) };
    match mnemonic {
        "NOP" => Some(0),
        "HALT" => Some(0x01 << 11),
        "MOV" => two(0x02),
        "LDI" => with_imm(0x03),
        "ADD" => two(0x04),
        "SUB" => two(0x05),
        "AND" => two(0x06),
        "OR" => two(0x07),
        "XOR" => two(0x08),
        "NOT" => Some(regs(0x09, reg(0)? % 8, 0)),
        "NEG" => Some(regs(0x0A, reg(0)? % 8, reg(0)? % 8)),
        "INC" => Some(imm(0x0B, reg(0)? % 8, 1)),
        "DEC" => Some(imm(0x0C, reg(0)? % 8, 1)),
        "SHL" => with_imm(0x0D),
        "SHR" => with_imm(0x0E),
        "CMP" => two(0x0F),
        "ADDI" => with_imm(0x10),
        "SUBI" => with_imm(0x11),
        "ANDI" => with_imm(0x12),
        "ORI" => with_imm(0x13),
        "XORI" => with_imm(0x14),
        "RET" => Some(0x15 << 11),
        "LD" => two(0x16),
        "ST" => {
            let (s, d) = (reg(0)?, reg(1)?);
            Some(regs(0x17, d % 8, s % 8) | ext(d, s))
        }
        "LDB" => with_imm(0x18),
        "STB" => Some(imm(0x19, reg(1)? % 8, num(0)?) | ext(reg(1)?, 0)),
        "JMP" => jump(0x1A),
        "JZ" => jump(0x1B),
        "JNZ" => jump(0x1C),
        "JC" => jump(0x1D),
        "JNC" => jump(0x1E),
        "CALL" => jump(0x1F),
        _ => None,
    }
}

fn assert_round_trip(word: u32) {
    let line = disassemble_v2_word(word);
    let program = assemble(&line).expect("disassembled line should reassemble");
    assert_eq!(program, word, "round-trip mismatch for: {line}");
}

#[test]
fn test_decode_v2_word_fields_and_ext() {
    let word = with_reg_ext(regs(0x02, 1, 2), true, false);
    let d = decode_v2_word(word);
    assert_eq!(d.opcode, 0x02);
    assert_eq!(d.rd_lo, 1);
    assert_eq!(d.rs_lo, 2);
    assert!(d.rd_hi);
    assert!(!d.rs_hi);
    assert_eq!(d.rd, 9);
    assert_eq!(d.rs, 2);
    assert_eq!(d.mnemonic, "MOV");
}

#[test]
fn test_disassemble_v2_fixtures_mixed_bank_and_extension() {
    let mixed = with_reg_ext(regs(0x04, 0, 1), true, true);
    assert_eq!(disassemble_v2_word(mixed), "ADD R8, R9");

    let ext_reserved = with_ext(imm(0x03, 0, 42), 0x00F0);
    assert_eq!(
        disassemble_v2_word(ext_reserved),
        ".word32 0x00F0182A ; RESERVED_EXT=0x00F0"
    );
}

#[test]
fn test_disassemble_v2_round_trip_all_opcodes_with_helpers() {
    let words = [
        0,
        0x01 << 11,
        regs(0x02, 2, 1),
        imm(0x03, 3, 200),
        regs(0x04, 1, 7),
        regs(0x05, 6, 4),
        regs(0x06, 0, 5),
        regs(0x07, 4, 3),
        regs(0x08, 7, 2),
        regs(0x09, 2, 0),
        regs(0x0A, 6, 6),
        imm(0x0B, 1, 1),
        imm(0x0C, 0, 1),
        imm(0x0D, 3, 5),
        imm(0x0E, 3, 2),
        regs(0x0F, 5, 4),
        imm(0x10, 4, 123),
        imm(0x11, 4, 77),
        imm(0x12, 1, 0xAA),
        imm(0x13, 2, 0x55),
        imm(0x14, 7, 0x0F),
        0x15 << 11,
        regs(0x16, 3, 1),
        regs(0x17, 6, 2),
        imm(0x18, 5, 63),
        imm(0x19, 4, 9),
        imm(0x1A, 0, 63),
        imm(0x1B, 0, 12),
        imm(0x1C, 0, 31),
        imm(0x1D, 0, 7),
        imm(0x1E, 0, 40),
        imm(0x1F, 0, 11),
        with_reg_ext(regs(0x02, 1, 0), true, true),
        with_reg_ext(regs(0x16, 2, 3), true, false),
        with_reg_ext(regs(0x17, 2, 3), false, true),
        with_reg_ext(imm(0x18, 0, 8), true, false),
    ];

    for &word in &words {
        assert_round_trip(word);
    }
}

#[test]
fn sub_functions_have_their_own_mnemonics() {
    assert_eq!(disassemble_v2_word(regs(0x02, 1, 2) | 1), "MOVZ R1, R2");
    assert_eq!(disassemble_v2_word(regs(0x02, 1, 2) | 2), "MOVNZ R1, R2");
    assert_eq!(disassemble_v2_word(regs(0x02, 1, 2) | 3), "MOVC R1, R2");
    assert_eq!(disassemble_v2_word(regs(0x02, 1, 2) | 4), "MOVNC R1, R2");
    assert_eq!(disassemble_v2_word(regs(0x02, 1, 2) | 5), "MOV R1, R2");
    assert_eq!(disassemble_v2_word(regs(0x04, 3, 4) | 1), "MUL R3, R4");
    assert_eq!(disassemble_v2_word(regs(0x09, 5, 0) | 1), "CLZ R5");
    assert_eq!(disassemble_v2_word(regs(0x09, 5, 0) | 2), "CTZ R5");
    assert_eq!(disassemble_v2_word(regs(0x09, 5, 0) | 3), "POPCNT R5");
    assert_eq!(disassemble_v2_word(regs(0x0E, 2, 0) | 8 | 3), "SRA R2, 3");
    assert_eq!(decode_v2_word(regs(0x0E, 2, 0) | 8 | 3).mnemonic, "SHR");
}

#[test]
fn wide_immediates_and_offsets_use_the_upper_byte() {
    let wide = with_ext(imm(0x03, 2, 0x34), 0x1204);
    assert_eq!(disassemble_v2_word(wide), "LDI.W R2, 4660");
    let d = decode_v2_word(wide);
    assert_eq!(d.imm16, 0x1234);
    assert_eq!(d.offset, 0);
    assert_eq!(d.ext_reserved, 0);
    assert_eq!(disassemble_v2_word(with_ext(imm(0x10, 2, 0x34), 0x1204)), "ADDI.W R2, 4660");

    let load = with_ext(regs(0x16, 1, 2), 0x0708);
    assert_eq!(disassemble_v2_word(load), "LD R1, [R2+7]");
    assert_eq!(decode_v2_word(load).offset, 7);
    assert_eq!(disassemble_v2_word(with_ext(regs(0x17, 1, 2), 0x0708)), "ST [R2+7], R1");
    assert_eq!(disassemble_v2_word(with_ext(regs(0x18, 1, 2), 0x0708)), "LDB R1, [R2+7]");
    assert_eq!(disassemble_v2_word(with_ext(regs(0x19, 1, 2), 0x0708)), "STB [R2+7], R1");
    assert_eq!(disassemble_v2_word(imm(0x19, 1, 60)), "STB [60], R1");
}

#[test]
fn a_payload_without_its_flag_is_reserved() {
    let w = with_ext(regs(0x04, 0, 1), 0x1200);
    let d = decode_v2_word(w);
    assert!(d.has_reserved_ext_bits());
    assert_eq!(d.ext_reserved, 0x1200);
    assert_eq!(disassemble_v2_word(w), ".word32 0x12000020 ; RESERVED_EXT=0x1200".replace("12000020", "12002020"));
}

#[test]
fn jump_targets_have_seven_bits() {
    assert_eq!(decode_v2_word(imm(0x1A, 0, 0xFF)).jump_target, 0x7F);
    assert_eq!(disassemble_v2_word(imm(0x1F, 0, 0x80)), "CALL 0");
}

#[test]
fn names_and_windows() {
    assert_eq!(reg_name(15), "R15");
    assert_eq!(mnemonic_for_opcode(0x1F), "CALL");
    assert_eq!(mnemonic_for_opcode(0x20), "UNK");
    assert_eq!(effective_reg(3, true), 11);
    assert_eq!(effective_reg(3, false), 3);
    assert!(!is_v2_mmio_addr(40));
    assert!(is_v2_mmio_addr(41));
    assert!(is_v2_mmio_addr(63));
    assert!(!is_v2_mmio_addr(64));
}

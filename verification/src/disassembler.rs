//! Disassembly of V2 instruction words.
use vstd::prelude::*;
use vstd::string::*;

use crate::isa::{decode_v2_word, fields_of, mnemonic_of, Fields, V2DecodedInstruction};
use crate::text::{dec, hex, push_dec, push_hex};

verus! {

/// A register by name.
pub open spec fn reg_text(r: int) -> Seq<char> {
    "R"@ + dec(r as nat)
}

/// `mnemonic rd`
pub open spec fn one_reg(m: Seq<char>, rd: int) -> Seq<char> {
    m + " "@ + reg_text(rd)
}

/// `mnemonic rd, rs`
pub open spec fn two_regs(m: Seq<char>, rd: int, rs: int) -> Seq<char> {
    one_reg(m, rd) + ", "@ + reg_text(rs)
}

/// `mnemonic rd, n`
pub open spec fn reg_number(m: Seq<char>, rd: int, n: int) -> Seq<char> {
    one_reg(m, rd) + ", "@ + dec(n as nat)
}

/// `mnemonic n`
pub open spec fn one_number(m: Seq<char>, n: int) -> Seq<char> {
    m + " "@ + dec(n as nat)
}

/// `[rs+offset]`
pub open spec fn offset_text(rs: int, offset: int) -> Seq<char> {
    "["@ + reg_text(rs) + "+"@ + dec(offset as nat) + "]"@
}

/// `[rs]`
pub open spec fn at_reg(rs: int) -> Seq<char> {
    "["@ + reg_text(rs) + "]"@
}

/// `[n]`
pub open spec fn at_number(n: int) -> Seq<char> {
    "["@ + dec(n as nat) + "]"@
}

/// `mnemonic rd, place`
pub open spec fn load_text(m: Seq<char>, rd: int, place: Seq<char>) -> Seq<char> {
    one_reg(m, rd) + ", "@ + place
}

/// `mnemonic place, rd`
pub open spec fn store_text(m: Seq<char>, place: Seq<char>, rd: int) -> Seq<char> {
    m + " "@ + place + ", "@ + reg_text(rd)
}

/// The text of an immediate instruction, wide or not.
pub open spec fn imm_text(
    d: Fields,
    narrow: Seq<char>,
    wide: Seq<char>,
) -> Seq<char> {
    if d.wide_imm {
        reg_number(wide, d.rd, d.imm16)
    } else {
        reg_number(narrow, d.rd, d.imm8)
    }
}

/// The text of a word with extension bits that no field uses.
pub open spec fn reserved_text(word: int, reserved: int) -> Seq<char> {
    ".word32 0x"@ + hex(word as nat, 8) + " ; RESERVED_EXT=0x"@ + hex(reserved as nat, 4)
}

/// The text of a decoded instruction.
pub open spec fn text_of(d: Fields) -> Seq<char> {
    let rd = d.rd;
    let rs = d.rs;
    let sub = mnemonic_of(d.opcode, d.imm5);
    if d.reserved != 0 {
        reserved_text(d.word, d.reserved)
    } else if d.opcode == 0x00 {
        "NOP"@
    } else if d.opcode == 0x01 {
        "HALT"@
    } else if d.opcode == 0x02 {
        two_regs(sub, rd, rs)
    } else if d.opcode == 0x03 {
        imm_text(d, "LDI"@, "LDI.W"@)
    } else if d.opcode == 0x04 {
        if d.imm5 == 1 {
            two_regs("MUL"@, rd, rs)
        } else {
            two_regs("ADD"@, rd, rs)
        }
    } else if d.opcode == 0x05 {
        two_regs("SUB"@, rd, rs)
    } else if d.opcode == 0x06 {
        two_regs("AND"@, rd, rs)
    } else if d.opcode == 0x07 {
        two_regs("OR"@, rd, rs)
    } else if d.opcode == 0x08 {
        two_regs("XOR"@, rd, rs)
    } else if d.opcode == 0x09 {
        one_reg(sub, rd)
    } else if d.opcode == 0x0A {
        one_reg("NEG"@, rd)
    } else if d.opcode == 0x0B {
        one_reg("INC"@, rd)
    } else if d.opcode == 0x0C {
        one_reg("DEC"@, rd)
    } else if d.opcode == 0x0D {
        reg_number("SHL"@, rd, d.imm5 % 8)
    } else if d.opcode == 0x0E {
        if (d.imm5 / 8) % 2 == 1 {
            reg_number("SRA"@, rd, d.imm5 % 8)
        } else {
            reg_number("SHR"@, rd, d.imm5 % 8)
        }
    } else if d.opcode == 0x0F {
        two_regs("CMP"@, rd, rs)
    } else if d.opcode == 0x10 {
        imm_text(d, "ADDI"@, "ADDI.W"@)
    } else if d.opcode == 0x11 {
        imm_text(d, "SUBI"@, "SUBI.W"@)
    } else if d.opcode == 0x12 {
        imm_text(d, "ANDI"@, "ANDI.W"@)
    } else if d.opcode == 0x13 {
        imm_text(d, "ORI"@, "ORI.W"@)
    } else if d.opcode == 0x14 {
        imm_text(d, "XORI"@, "XORI.W"@)
    } else if d.opcode == 0x15 {
        "RET"@
    } else if d.opcode == 0x16 {
        if d.has_offset {
            load_text("LD"@, rd, offset_text(rs, d.offset))
        } else {
            load_text("LD"@, rd, at_reg(rs))
        }
    } else if d.opcode == 0x17 {
        if d.has_offset {
            store_text("ST"@, offset_text(rs, d.offset), rd)
        } else {
            store_text("ST"@, at_reg(rs), rd)
        }
    } else if d.opcode == 0x18 {
        if d.has_offset {
            load_text("LDB"@, rd, offset_text(rs, d.offset))
        } else {
            load_text("LDB"@, rd, at_number(d.imm8))
        }
    } else if d.opcode == 0x19 {
        if d.has_offset {
            store_text("STB"@, offset_text(rs, d.offset), rd)
        } else {
            store_text("STB"@, at_number(d.imm8), rd)
        }
    } else if d.opcode == 0x1A {
        one_number("JMP"@, d.jump_target)
    } else if d.opcode == 0x1B {
        one_number("JZ"@, d.jump_target)
    } else if d.opcode == 0x1C {
        one_number("JNZ"@, d.jump_target)
    } else if d.opcode == 0x1D {
        one_number("JC"@, d.jump_target)
    } else if d.opcode == 0x1E {
        one_number("JNC"@, d.jump_target)
    } else {
        one_number("CALL"@, d.jump_target)
    }
}

/// The text of an instruction word.
pub open spec fn word_text(word: u32) -> Seq<char> {
    text_of(fields_of(word))
}

/// A register by name.
pub fn reg_name(reg: u8) -> (s: String)
    ensures
        s@ == reg_text(reg as int),
{
    let mut s: String = String::from_str("R");
    push_dec(&mut s, reg as u64);
    s
}

fn push_reg(s: &mut String, r: u8)
    ensures
        final(s)@ == old(s)@ + reg_text(r as int),
{
    let name: String = reg_name(r);
    s.append(name.as_str());
}

fn line_reg(m: &str, rd: u8) -> (s: String)
    ensures
        s@ == one_reg(m@, rd as int),
{
    let mut s: String = String::from_str(m);
    s.append(" ");
    push_reg(&mut s, rd);
    s
}

fn line_regs(m: &str, rd: u8, rs: u8) -> (s: String)
    ensures
        s@ == two_regs(m@, rd as int, rs as int),
{
    let mut s: String = line_reg(m, rd);
    s.append(", ");
    push_reg(&mut s, rs);
    s
}

fn line_reg_number(m: &str, rd: u8, n: u16) -> (s: String)
    ensures
        s@ == reg_number(m@, rd as int, n as int),
{
    let mut s: String = line_reg(m, rd);
    s.append(", ");
    push_dec(&mut s, n as u64);
    s
}

fn line_number(m: &str, n: u8) -> (s: String)
    ensures
        s@ == one_number(m@, n as int),
{
    let mut s: String = String::from_str(m);
    s.append(" ");
    push_dec(&mut s, n as u64);
    s
}

fn line_imm(d: &V2DecodedInstruction, narrow: &str, wide: &str) -> (s: String)
    ensures
        s@ == imm_text(d@, narrow@, wide@),
{
    if d.wide_imm {
        line_reg_number(wide, d.rd, d.imm16)
    } else {
        line_reg_number(narrow, d.rd, d.imm8 as u16)
    }
}

fn place_offset(rs: u8, offset: u8) -> (s: String)
    ensures
        s@ == offset_text(rs as int, offset as int),
{
    let mut s: String = String::from_str("[");
    push_reg(&mut s, rs);
    s.append("+");
    push_dec(&mut s, offset as u64);
    s.append("]");
    s
}

fn place_reg(rs: u8) -> (s: String)
    ensures
        s@ == at_reg(rs as int),
{
    let mut s: String = String::from_str("[");
    push_reg(&mut s, rs);
    s.append("]");
    s
}

fn place_number(n: u8) -> (s: String)
    ensures
        s@ == at_number(n as int),
{
    let mut s: String = String::from_str("[");
    push_dec(&mut s, n as u64);
    s.append("]");
    s
}

fn line_load(m: &str, rd: u8, place: &String) -> (s: String)
    ensures
        s@ == load_text(m@, rd as int, place@),
{
    let mut s: String = line_reg(m, rd);
    s.append(", ");
    s.append(place.as_str());
    s
}

fn line_store(m: &str, place: &String, rd: u8) -> (s: String)
    ensures
        s@ == store_text(m@, place@, rd as int),
{
    let mut s: String = String::from_str(m);
    s.append(" ");
    s.append(place.as_str());
    s.append(", ");
    push_reg(&mut s, rd);
    s
}

/// Disassemble one instruction word into assembler text.
pub fn disassemble_v2_word(word: u32) -> (s: String)
    ensures
        s@ == word_text(word),
{
    let d = decode_v2_word(word);
    if d.has_reserved_ext_bits() {
        let mut s: String = String::from_str(".word32 0x");
        push_hex(&mut s, d.word, 8);
        s.append(" ; RESERVED_EXT=0x");
        push_hex(&mut s, d.ext_reserved as u32, 4);
        return s;
    }
    match d.opcode {
        0x00 => String::from_str("NOP"),
        0x01 => String::from_str("HALT"),
        0x02 => line_regs(d.mnemonic, d.rd, d.rs),
        0x03 => line_imm(&d, "LDI", "LDI.W"),
        0x04 => {
            if d.imm5 == 1 {
                line_regs("MUL", d.rd, d.rs)
            } else {
                line_regs("ADD", d.rd, d.rs)
            }
        },
        0x05 => line_regs("SUB", d.rd, d.rs),
        0x06 => line_regs("AND", d.rd, d.rs),
        0x07 => line_regs("OR", d.rd, d.rs),
        0x08 => line_regs("XOR", d.rd, d.rs),
        0x09 => line_reg(d.mnemonic, d.rd),
        0x0A => line_reg("NEG", d.rd),
        0x0B => line_reg("INC", d.rd),
        0x0C => line_reg("DEC", d.rd),
        0x0D => line_reg_number("SHL", d.rd, (d.imm5 % 8) as u16),
        0x0E => {
            if (d.imm5 / 8) % 2 == 1 {
                line_reg_number("SRA", d.rd, (d.imm5 % 8) as u16)
            } else {
                line_reg_number("SHR", d.rd, (d.imm5 % 8) as u16)
            }
        },
        0x0F => line_regs("CMP", d.rd, d.rs),
        0x10 => line_imm(&d, "ADDI", "ADDI.W"),
        0x11 => line_imm(&d, "SUBI", "SUBI.W"),
        0x12 => line_imm(&d, "ANDI", "ANDI.W"),
        0x13 => line_imm(&d, "ORI", "ORI.W"),
        0x14 => line_imm(&d, "XORI", "XORI.W"),
        0x15 => String::from_str("RET"),
        0x16 => {
            if d.has_offset {
                line_load("LD", d.rd, &place_offset(d.rs, d.offset))
            } else {
                line_load("LD", d.rd, &place_reg(d.rs))
            }
        },
        0x17 => {
            if d.has_offset {
                line_store("ST", &place_offset(d.rs, d.offset), d.rd)
            } else {
                line_store("ST", &place_reg(d.rs), d.rd)
            }
        },
        0x18 => {
            if d.has_offset {
                line_load("LDB", d.rd, &place_offset(d.rs, d.offset))
            } else {
                line_load("LDB", d.rd, &place_number(d.imm8))
            }
        },
        0x19 => {
            if d.has_offset {
                line_store("STB", &place_offset(d.rs, d.offset), d.rd)
            } else {
                line_store("STB", &place_number(d.imm8), d.rd)
            }
        },
        0x1A => line_number("JMP", d.jump_target),
        0x1B => line_number("JZ", d.jump_target),
        0x1C => line_number("JNZ", d.jump_target),
        0x1D => line_number("JC", d.jump_target),
        0x1E => line_number("JNC", d.jump_target),
        _ => line_number("CALL", d.jump_target),
    }
}

} // verus!

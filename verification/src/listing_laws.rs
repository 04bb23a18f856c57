//! The listing: what the text of every instruction word is, and what its numbers look like.
//!
//! In every law `w` is the word, `rd` and `rs` its registers and `imm` its immediate. A word has no
//! reserved bits where bits 20 to 23 are clear and, unless the top byte is used, that byte is zero.
use vstd::arithmetic::power::{lemma_pow1, pow};
use vstd::prelude::*;
use vstd::string::*;

use crate::disassembler::word_text;
use crate::isa::{base_mnemonic, ext_of, fields_of, mnemonic_of};
use crate::listing::lemma_marks;
use crate::text::{dec, hex};

verus! {

/// The reserved bits of a word, and its fields.
proof fn lemma_fields(w: u32)
    ensures
        ({
            let d = fields_of(w);
            let x = w as int;
            &&& d.word == x
            &&& d.opcode == (x / 2048) % 32
            &&& d.rd_lo == (x / 256) % 8
            &&& d.rs_lo == (x / 32) % 8
            &&& d.rd == (x / 256) % 8 + 8 * ((x / 65536) % 2)
            &&& d.rs == (x / 32) % 8 + 8 * ((x / 131072) % 2)
            &&& d.imm5 == x % 32
            &&& d.imm8 == x % 256
            &&& d.jump_target == x % 128
            &&& d.ext == x / 65536
            &&& d.rd_hi == ((x / 65536) % 2 == 1)
            &&& d.rs_hi == ((x / 131072) % 2 == 1)
            &&& d.wide_imm == ((x / 262144) % 2 == 1)
            &&& d.has_offset == ((x / 524288) % 2 == 1)
            &&& d.offset == if (x / 524288) % 2 == 1 {
                x / 16777216
            } else {
                0
            }
            &&& d.imm16 == x % 256 + if (x / 262144) % 2 == 1 {
                256 * (x / 16777216)
            } else {
                0
            }
            &&& d.reserved == 16 * ((x / 1048576) % 16) + if (x / 262144) % 2 == 1 || (x / 524288)
                % 2 == 1 {
                0
            } else {
                256 * (x / 16777216)
            }
        }),
{
    let x = w as int;
    let e = ext_of(w);
    assert(e == x / 65536);
    assert(e % 2 == (x / 65536) % 2);
    assert((e / 2) % 2 == (x / 131072) % 2);
    assert((e / 4) % 2 == (x / 262144) % 2);
    assert((e / 8) % 2 == (x / 524288) % 2);
    let y = e as int;
    assert(y / 256 == x / 16777216);
    assert((y / 16) % 16 == (x / 1048576) % 16);
    assert((y / 16) == (y / 256) * 16 + (y / 16) % 16);
}

/// A decoded word has the fields that its bits give: the opcode in bits 11 to 15, the registers in
/// bits 8 to 10 and 5 to 7 with their banks in bits 16 and 17, the immediates, the jump target and
/// the sub-function in the low byte, and the top byte as the upper half of a wide immediate (bit
/// 18) or as an offset (bit 19). What no field uses is reserved.
pub proof fn law_decoded_fields(w: u32)
    ensures
        fields_of(w).word == w,
        fields_of(w).opcode == (w as int / 2048) % 32,
        fields_of(w).rd_lo == (w as int / 256) % 8,
        fields_of(w).rs_lo == (w as int / 32) % 8,
        fields_of(w).rd == (w as int / 256) % 8 + 8 * ((w as int / 65536) % 2),
        fields_of(w).rs == (w as int / 32) % 8 + 8 * ((w as int / 131072) % 2),
        fields_of(w).imm5 == w as int % 32,
        fields_of(w).imm8 == w as int % 256,
        fields_of(w).jump_target == w as int % 128,
        fields_of(w).ext == w as int / 65536,
        fields_of(w).rd_hi == ((w as int / 65536) % 2 == 1),
        fields_of(w).rs_hi == ((w as int / 131072) % 2 == 1),
        fields_of(w).wide_imm == ((w as int / 262144) % 2 == 1),
        fields_of(w).has_offset == ((w as int / 524288) % 2 == 1),
        (w as int / 524288) % 2 == 1 ==> fields_of(w).offset == w as int / 16777216,
        (w as int / 524288) % 2 == 0 ==> fields_of(w).offset == 0,
        (w as int / 262144) % 2 == 1 ==> fields_of(w).imm16 == 256 * (w as int / 16777216)
            + w as int % 256,
        (w as int / 262144) % 2 == 0 ==> fields_of(w).imm16 == w as int % 256,
        fields_of(w).reserved == 0 <==> (w as int / 1048576) % 16 == 0 && ((w as int / 262144) % 2
            == 1 || (w as int / 524288) % 2 == 1 || w as int / 16777216 == 0),
        (fields_of(w).reserved / 16) % 16 == (w as int / 1048576) % 16,
        fields_of(w).reserved % 16 == 0,
        (w as int / 262144) % 2 == 0 && (w as int / 524288) % 2 == 0 ==> fields_of(w).reserved / 256
            == w as int / 16777216,
        (w as int / 262144) % 2 == 1 || (w as int / 524288) % 2 == 1 ==> fields_of(w).reserved
            < 256,
{
    lemma_fields(w);
}

/// The text of the instructions on two registers: the name, the destination, the source.
pub proof fn law_text_of_register_pairs(w: u32, rd: int, rs: int)
    requires
        (w as int / 1048576) % 16 == 0,
        (w as int / 262144) % 2 == 1 || (w as int / 524288) % 2 == 1 || w as int / 16777216 == 0,
        rd == (w as int / 256) % 8 + 8 * ((w as int / 65536) % 2),
        rs == (w as int / 32) % 8 + 8 * ((w as int / 131072) % 2),
    ensures
        (w as int / 2048) % 32 == 0x04 && w % 32 != 1 ==> word_text(w) == "ADD"@ + seq![' ', 'R'] + dec(rd as nat) + seq![',', ' ', 'R'] + dec(rs as nat),
        (w as int / 2048) % 32 == 0x04 && w % 32 == 1 ==> word_text(w) == "MUL"@ + seq![' ', 'R'] + dec(rd as nat) + seq![',', ' ', 'R'] + dec(rs as nat),
        (w as int / 2048) % 32 == 0x05 ==> word_text(w) == "SUB"@ + seq![' ', 'R'] + dec(rd as nat) + seq![',', ' ', 'R'] + dec(rs as nat),
        (w as int / 2048) % 32 == 0x06 ==> word_text(w) == "AND"@ + seq![' ', 'R'] + dec(rd as nat) + seq![',', ' ', 'R'] + dec(rs as nat),
        (w as int / 2048) % 32 == 0x07 ==> word_text(w) == "OR"@ + seq![' ', 'R'] + dec(rd as nat) + seq![',', ' ', 'R'] + dec(rs as nat),
        (w as int / 2048) % 32 == 0x08 ==> word_text(w) == "XOR"@ + seq![' ', 'R'] + dec(rd as nat) + seq![',', ' ', 'R'] + dec(rs as nat),
        (w as int / 2048) % 32 == 0x0F ==> word_text(w) == "CMP"@ + seq![' ', 'R'] + dec(rd as nat) + seq![',', ' ', 'R'] + dec(rs as nat),
        (w as int / 2048) % 32 == 0x02 && w % 32 == 1 ==> word_text(w) == "MOVZ"@ + seq![' ', 'R'] + dec(rd as nat) + seq![',', ' ', 'R'] + dec(rs as nat),
        (w as int / 2048) % 32 == 0x02 && w % 32 == 2 ==> word_text(w) == "MOVNZ"@ + seq![' ', 'R'] + dec(rd as nat) + seq![',', ' ', 'R'] + dec(rs as nat),
        (w as int / 2048) % 32 == 0x02 && w % 32 == 3 ==> word_text(w) == "MOVC"@ + seq![' ', 'R'] + dec(rd as nat) + seq![',', ' ', 'R'] + dec(rs as nat),
        (w as int / 2048) % 32 == 0x02 && w % 32 == 4 ==> word_text(w) == "MOVNC"@ + seq![' ', 'R'] + dec(rd as nat) + seq![',', ' ', 'R'] + dec(rs as nat),
        (w as int / 2048) % 32 == 0x02 && (w % 32 == 0 || w % 32 > 4) ==> word_text(w) == "MOV"@ + seq![' ', 'R'] + dec(rd as nat) + seq![',', ' ', 'R'] + dec(rs as nat),
{
    lemma_fields(w);
    lemma_marks();
    let d = fields_of(w);
    if (w as int / 2048) % 32 == 0x02 {
        let m = mnemonic_of(d.opcode, d.imm5);
        assert(word_text(w) =~= m + seq![' ', 'R'] + dec(rd as nat) + seq![',', ' ', 'R'] + dec(rs as nat));
    } else if (w as int / 2048) % 32 == 0x04 && w % 32 == 1 {
        assert(word_text(w) =~= "MUL"@ + seq![' ', 'R'] + dec(rd as nat) + seq![',', ' ', 'R'] + dec(rs as nat));
    } else if 0x04 <= (w as int / 2048) % 32 <= 0x08 || (w as int / 2048) % 32 == 0x0F {
        let m = base_mnemonic(d.opcode);
        assert(word_text(w) =~= m + seq![' ', 'R'] + dec(rd as nat) + seq![',', ' ', 'R'] + dec(rs as nat));
    }
}

/// The text of the instructions on one register: the name and the register, and behind a shift's
/// its amount.
pub proof fn law_text_of_single_registers(w: u32, rd: int)
    requires
        (w as int / 1048576) % 16 == 0,
        (w as int / 262144) % 2 == 1 || (w as int / 524288) % 2 == 1 || w as int / 16777216 == 0,
        rd == (w as int / 256) % 8 + 8 * ((w as int / 65536) % 2),
    ensures
        (w as int / 2048) % 32 == 0x09 && (w % 32 == 0 || w % 32 > 3) ==> word_text(w) == "NOT"@ + seq![' ', 'R'] + dec(rd as nat),
        (w as int / 2048) % 32 == 0x09 && w % 32 == 1 ==> word_text(w) == "CLZ"@ + seq![' ', 'R'] + dec(rd as nat),
        (w as int / 2048) % 32 == 0x09 && w % 32 == 2 ==> word_text(w) == "CTZ"@ + seq![' ', 'R'] + dec(rd as nat),
        (w as int / 2048) % 32 == 0x09 && w % 32 == 3 ==> word_text(w) == "POPCNT"@ + seq![' ', 'R'] + dec(rd as nat),
        (w as int / 2048) % 32 == 0x0A ==> word_text(w) == "NEG"@ + seq![' ', 'R'] + dec(rd as nat),
        (w as int / 2048) % 32 == 0x0B ==> word_text(w) == "INC"@ + seq![' ', 'R'] + dec(rd as nat),
        (w as int / 2048) % 32 == 0x0C ==> word_text(w) == "DEC"@ + seq![' ', 'R'] + dec(rd as nat),
        (w as int / 2048) % 32 == 0x0D ==> word_text(w) == "SHL"@ + seq![' ', 'R'] + dec(rd as nat) + seq![',', ' '] + dec((w % 8) as nat),
        (w as int / 2048) % 32 == 0x0E && (w / 8) % 2 == 0 ==> word_text(w) == "SHR"@ + seq![' ', 'R'] + dec(rd as nat) + seq![',', ' '] + dec((w % 8) as nat),
        (w as int / 2048) % 32 == 0x0E && (w / 8) % 2 == 1 ==> word_text(w) == "SRA"@ + seq![' ', 'R'] + dec(rd as nat) + seq![',', ' '] + dec((w % 8) as nat),
{
    lemma_fields(w);
    lemma_marks();
    let d = fields_of(w);
    if 0x09 <= (w as int / 2048) % 32 <= 0x0C {
        let m = mnemonic_of(d.opcode, d.imm5);
        assert(word_text(w) =~= m + seq![' ', 'R'] + dec(rd as nat));
    } else if (w as int / 2048) % 32 == 0x0D || (w as int / 2048) % 32 == 0x0E {
        lemma_shift_parts(w);
        assert(d.imm5 % 8 == w % 8);
        let m = if (w as int / 2048) % 32 == 0x0D {
            "SHL"@
        } else if (w / 8) % 2 == 1 {
            "SRA"@
        } else {
            "SHR"@
        };
        assert(word_text(w) =~= m + seq![' ', 'R'] + dec(rd as nat) + seq![',', ' '] + dec((w % 8) as nat));
    }
}

/// The amount of a shift and the bit above it.
proof fn lemma_shift_parts(w: u32)
    ensures
        (w as int % 32) % 8 == w % 8,
        ((w as int % 32) / 8) % 2 == (w / 8) % 2,
{
    let x = w as int;
    assert(x % 32 == x - 32 * (x / 32));
    assert((x % 32) / 8 == x / 8 - 4 * (x / 32));
}

/// The text of the instructions with an immediate: the name, with `.W` behind it where the
/// immediate is wide, the register and the number.
pub proof fn law_text_of_immediates(w: u32, rd: int, imm: int)
    requires
        (w as int / 1048576) % 16 == 0,
        (w as int / 262144) % 2 == 1 || (w as int / 524288) % 2 == 1 || w as int / 16777216 == 0,
        rd == (w as int / 256) % 8 + 8 * ((w as int / 65536) % 2),
        imm == w as int % 256 + if (w as int / 262144) % 2 == 1 {
            256 * (w as int / 16777216)
        } else {
            0
        },
    ensures
        (w as int / 2048) % 32 == 0x03 && (w as int / 262144) % 2 == 0 ==> word_text(w) == "LDI"@ + seq![' ', 'R'] + dec(rd as nat) + seq![',', ' '] + dec(imm as nat),
        (w as int / 2048) % 32 == 0x03 && (w as int / 262144) % 2 == 1 ==> word_text(w) == "LDI.W"@ + seq![' ', 'R'] + dec(rd as nat) + seq![',', ' '] + dec(imm as nat),
        (w as int / 2048) % 32 == 0x10 && (w as int / 262144) % 2 == 0 ==> word_text(w) == "ADDI"@ + seq![' ', 'R'] + dec(rd as nat) + seq![',', ' '] + dec(imm as nat),
        (w as int / 2048) % 32 == 0x10 && (w as int / 262144) % 2 == 1 ==> word_text(w) == "ADDI.W"@ + seq![' ', 'R'] + dec(rd as nat) + seq![',', ' '] + dec(imm as nat),
        (w as int / 2048) % 32 == 0x11 && (w as int / 262144) % 2 == 0 ==> word_text(w) == "SUBI"@ + seq![' ', 'R'] + dec(rd as nat) + seq![',', ' '] + dec(imm as nat),
        (w as int / 2048) % 32 == 0x11 && (w as int / 262144) % 2 == 1 ==> word_text(w) == "SUBI.W"@ + seq![' ', 'R'] + dec(rd as nat) + seq![',', ' '] + dec(imm as nat),
        (w as int / 2048) % 32 == 0x12 && (w as int / 262144) % 2 == 0 ==> word_text(w) == "ANDI"@ + seq![' ', 'R'] + dec(rd as nat) + seq![',', ' '] + dec(imm as nat),
        (w as int / 2048) % 32 == 0x12 && (w as int / 262144) % 2 == 1 ==> word_text(w) == "ANDI.W"@ + seq![' ', 'R'] + dec(rd as nat) + seq![',', ' '] + dec(imm as nat),
        (w as int / 2048) % 32 == 0x13 && (w as int / 262144) % 2 == 0 ==> word_text(w) == "ORI"@ + seq![' ', 'R'] + dec(rd as nat) + seq![',', ' '] + dec(imm as nat),
        (w as int / 2048) % 32 == 0x13 && (w as int / 262144) % 2 == 1 ==> word_text(w) == "ORI.W"@ + seq![' ', 'R'] + dec(rd as nat) + seq![',', ' '] + dec(imm as nat),
        (w as int / 2048) % 32 == 0x14 && (w as int / 262144) % 2 == 0 ==> word_text(w) == "XORI"@ + seq![' ', 'R'] + dec(rd as nat) + seq![',', ' '] + dec(imm as nat),
        (w as int / 2048) % 32 == 0x14 && (w as int / 262144) % 2 == 1 ==> word_text(w) == "XORI.W"@ + seq![' ', 'R'] + dec(rd as nat) + seq![',', ' '] + dec(imm as nat),
{
    lemma_fields(w);
    lemma_marks();
    let d = fields_of(w);
    if (w as int / 2048) % 32 == 0x03 || 0x10 <= (w as int / 2048) % 32 <= 0x14 {
        let m = crate::listing::operation(d);
        assert(word_text(w) =~= m + seq![' ', 'R'] + dec(rd as nat) + seq![',', ' '] + dec(imm as nat));
    }
}

/// The name of a wide immediate instruction is the name of its opcode with `.W` behind it.
pub proof fn law_wide_names_are_names_with_a_suffix(w: u32)
    requires
        (w as int / 1048576) % 16 == 0,
        (w as int / 262144) % 2 == 1,
        (w as int / 2048) % 32 == 0x03 || 0x10 <= (w as int / 2048) % 32 <= 0x14,
    ensures
        ({
            let name = base_mnemonic((w as int / 2048) % 32);
            let n = name.len() as int;
            word_text(w).take(n + 3) == name + seq!['.', 'W', ' ']
        }),
{
    let op = (w as int / 2048) % 32;
    let rd = (w as int / 256) % 8 + 8 * ((w as int / 65536) % 2);
    let imm = w as int % 256 + 256 * (w as int / 16777216);
    law_text_of_immediates(w, rd, imm);
    reveal_strlit("LDI");
    reveal_strlit("LDI.W");
    reveal_strlit("ADDI");
    reveal_strlit("ADDI.W");
    reveal_strlit("SUBI");
    reveal_strlit("SUBI.W");
    reveal_strlit("ANDI");
    reveal_strlit("ANDI.W");
    reveal_strlit("ORI");
    reveal_strlit("ORI.W");
    reveal_strlit("XORI");
    reveal_strlit("XORI.W");
    let name = base_mnemonic(op);
    assert(word_text(w).take(name.len() as int + 3) =~= name + seq!['.', 'W', ' ']);
}

/// The text of the loads and stores: the name, and the register and the place in the order in
/// which the value moves, to the left. A place is a register with its offset, a register, or a
/// number.
pub proof fn law_text_of_loads_and_stores(w: u32, rd: int, rs: int)
    requires
        (w as int / 1048576) % 16 == 0,
        (w as int / 262144) % 2 == 1 || (w as int / 524288) % 2 == 1 || w as int / 16777216 == 0,
        rd == (w as int / 256) % 8 + 8 * ((w as int / 65536) % 2),
        rs == (w as int / 32) % 8 + 8 * ((w as int / 131072) % 2),
    ensures
        (w as int / 2048) % 32 == 0x16 && (w as int / 524288) % 2 == 1 ==> word_text(w) == "LD"@ + seq![' ', 'R'] + dec(rd as nat) + seq![',', ' '] + (seq!['[', 'R'] + dec(rs as nat) + seq!['+'] + dec((w / 16777216) as nat) + seq![']']),
        (w as int / 2048) % 32 == 0x16 && (w as int / 524288) % 2 == 0 ==> word_text(w) == "LD"@ + seq![' ', 'R'] + dec(rd as nat) + seq![',', ' '] + (seq!['[', 'R'] + dec(rs as nat) + seq![']']),
        (w as int / 2048) % 32 == 0x17 && (w as int / 524288) % 2 == 1 ==> word_text(w) == "ST"@ + seq![' '] + (seq!['[', 'R'] + dec(rs as nat) + seq!['+'] + dec((w / 16777216) as nat) + seq![']']) + seq![',', ' ', 'R'] + dec(rd as nat),
        (w as int / 2048) % 32 == 0x17 && (w as int / 524288) % 2 == 0 ==> word_text(w) == "ST"@ + seq![' '] + (seq!['[', 'R'] + dec(rs as nat) + seq![']']) + seq![',', ' ', 'R'] + dec(rd as nat),
        (w as int / 2048) % 32 == 0x18 && (w as int / 524288) % 2 == 1 ==> word_text(w) == "LDB"@ + seq![' ', 'R'] + dec(rd as nat) + seq![',', ' '] + (seq!['[', 'R'] + dec(rs as nat) + seq!['+'] + dec((w / 16777216) as nat) + seq![']']),
        (w as int / 2048) % 32 == 0x18 && (w as int / 524288) % 2 == 0 ==> word_text(w) == "LDB"@ + seq![' ', 'R'] + dec(rd as nat) + seq![',', ' '] + (seq!['['] + dec((w % 256) as nat) + seq![']']),
        (w as int / 2048) % 32 == 0x19 && (w as int / 524288) % 2 == 1 ==> word_text(w) == "STB"@ + seq![' '] + (seq!['[', 'R'] + dec(rs as nat) + seq!['+'] + dec((w / 16777216) as nat) + seq![']']) + seq![',', ' ', 'R'] + dec(rd as nat),
        (w as int / 2048) % 32 == 0x19 && (w as int / 524288) % 2 == 0 ==> word_text(w) == "STB"@ + seq![' '] + (seq!['['] + dec((w % 256) as nat) + seq![']']) + seq![',', ' ', 'R'] + dec(rd as nat),
{
    lemma_fields(w);
    lemma_marks();
    if (w as int / 2048) % 32 == 0x16 && (w as int / 524288) % 2 == 1 {
        assert(word_text(w) =~= "LD"@ + seq![' ', 'R'] + dec(rd as nat) + seq![',', ' '] + (seq!['[', 'R'] + dec(rs as nat) + seq!['+'] + dec((w / 16777216) as nat) + seq![']']));
    }
    if (w as int / 2048) % 32 == 0x16 && (w as int / 524288) % 2 == 0 {
        assert(word_text(w) =~= "LD"@ + seq![' ', 'R'] + dec(rd as nat) + seq![',', ' '] + (seq!['[', 'R'] + dec(rs as nat) + seq![']']));
    }
    if (w as int / 2048) % 32 == 0x17 && (w as int / 524288) % 2 == 1 {
        assert(word_text(w) =~= "ST"@ + seq![' '] + (seq!['[', 'R'] + dec(rs as nat) + seq!['+'] + dec((w / 16777216) as nat) + seq![']']) + seq![',', ' ', 'R'] + dec(rd as nat));
    }
    if (w as int / 2048) % 32 == 0x17 && (w as int / 524288) % 2 == 0 {
        assert(word_text(w) =~= "ST"@ + seq![' '] + (seq!['[', 'R'] + dec(rs as nat) + seq![']']) + seq![',', ' ', 'R'] + dec(rd as nat));
    }
    if (w as int / 2048) % 32 == 0x18 && (w as int / 524288) % 2 == 1 {
        assert(word_text(w) =~= "LDB"@ + seq![' ', 'R'] + dec(rd as nat) + seq![',', ' '] + (seq!['[', 'R'] + dec(rs as nat) + seq!['+'] + dec((w / 16777216) as nat) + seq![']']));
    }
    if (w as int / 2048) % 32 == 0x18 && (w as int / 524288) % 2 == 0 {
        assert(word_text(w) =~= "LDB"@ + seq![' ', 'R'] + dec(rd as nat) + seq![',', ' '] + (seq!['['] + dec((w % 256) as nat) + seq![']']));
    }
    if (w as int / 2048) % 32 == 0x19 && (w as int / 524288) % 2 == 1 {
        assert(word_text(w) =~= "STB"@ + seq![' '] + (seq!['[', 'R'] + dec(rs as nat) + seq!['+'] + dec((w / 16777216) as nat) + seq![']']) + seq![',', ' ', 'R'] + dec(rd as nat));
    }
    if (w as int / 2048) % 32 == 0x19 && (w as int / 524288) % 2 == 0 {
        assert(word_text(w) =~= "STB"@ + seq![' '] + (seq!['['] + dec((w % 256) as nat) + seq![']']) + seq![',', ' ', 'R'] + dec(rd as nat));
    }
}

/// The text of the instructions that steer the program: the name, and the target where there is
/// one.
pub proof fn law_text_of_control(w: u32)
    requires
        (w as int / 1048576) % 16 == 0,
        (w as int / 262144) % 2 == 1 || (w as int / 524288) % 2 == 1 || w as int / 16777216 == 0,
    ensures
        (w as int / 2048) % 32 == 0x00 ==> word_text(w) == "NOP"@,
        (w as int / 2048) % 32 == 0x01 ==> word_text(w) == "HALT"@,
        (w as int / 2048) % 32 == 0x15 ==> word_text(w) == "RET"@,
        (w as int / 2048) % 32 == 0x1A ==> word_text(w) == "JMP"@ + seq![' '] + dec((w % 128) as nat),
        (w as int / 2048) % 32 == 0x1B ==> word_text(w) == "JZ"@ + seq![' '] + dec((w % 128) as nat),
        (w as int / 2048) % 32 == 0x1C ==> word_text(w) == "JNZ"@ + seq![' '] + dec((w % 128) as nat),
        (w as int / 2048) % 32 == 0x1D ==> word_text(w) == "JC"@ + seq![' '] + dec((w % 128) as nat),
        (w as int / 2048) % 32 == 0x1E ==> word_text(w) == "JNC"@ + seq![' '] + dec((w % 128) as nat),
        (w as int / 2048) % 32 == 0x1F ==> word_text(w) == "CALL"@ + seq![' '] + dec((w % 128) as nat),
{
    lemma_fields(w);
    lemma_marks();
    let d = fields_of(w);
    if (w as int / 2048) % 32 >= 0x1A {
        let m = base_mnemonic(d.opcode);
        assert(word_text(w) =~= m + seq![' '] + dec((w % 128) as nat));
    }
}

/// The text of a word with reserved bits: the word in eight hexadecimal digits, and the reserved
/// bits of its upper half in four.
pub proof fn law_text_of_reserved_words(w: u32, reserved: int)
    requires
        (w as int / 1048576) % 16 != 0 || ((w as int / 262144) % 2 == 0 && (w as int / 524288) % 2
            == 0 && w as int / 16777216 != 0),
        reserved == 16 * ((w as int / 1048576) % 16) + if (w as int / 262144) % 2 == 1 || (w as int
            / 524288) % 2 == 1 {
            0
        } else {
            256 * (w as int / 16777216)
        },
    ensures
        word_text(w) == ".word32 0x"@ + hex(w as nat, 8) + " ; RESERVED_EXT=0x"@ + hex(
            reserved as nat,
            4,
        ),
{
    lemma_fields(w);
}

/// Character `i` of a decimal number is the digit of its place, and there are no more places than
/// the number needs.
pub proof fn law_decimal_digits(n: nat, i: int)
    requires
        0 <= i < dec(n).len(),
    ensures
        dec(n)[i] as int == 48 + (n as int / pow(10, (dec(n).len() - 1 - i) as nat)) % 10,
        n < pow(10, dec(n).len()),
        dec(n).len() > 1 ==> n >= pow(10, (dec(n).len() - 1) as nat),
    decreases n,
{
    reveal(pow);
    if n < 10 {
        lemma_pow1(10);
        assert(n as int / pow(10, 0) == n);
    } else {
        let m = n / 10;
        let len = dec(m).len();
        crate::text::lemma_dec_digits(m);
        assert(dec(n).len() == len + 1);
        law_decimal_digits(m, 0);
        assert(pow(10, len + 1) == 10 * pow(10, len));
        if len > 1 {
            assert(pow(10, len) == 10 * pow(10, (len - 1) as nat));
        } else {
            assert(pow(10, 1) == 10 * pow(10, 0));
        }
        if i == len {
            assert(n as int / pow(10, 0) == n);
        } else {
            law_decimal_digits(m, i);
            let e = (len - 1 - i) as nat;
            assert(pow(10, e + 1) == 10 * pow(10, e));
            vstd::arithmetic::power::lemma_pow_positive(10, e);
            vstd::arithmetic::div_mod::lemma_div_denominator(n as int, 10, pow(10, e));
            assert(n as int / (10 * pow(10, e)) == m as int / pow(10, e));
        }
    }
}

/// Character `i` of a hexadecimal number is the digit of its place: 0 to 9, then A to F.
pub proof fn law_hexadecimal_digits(n: nat, width: nat, i: int, d: int)
    requires
        0 <= i < width,
        d == (n as int / pow(16, (width - 1 - i) as nat)) % 16,
    ensures
        hex(n, width).len() == width,
        d < 10 ==> hex(n, width)[i] as int == 48 + d,
        d >= 10 ==> hex(n, width)[i] as int == 65 + (d - 10),
    decreases width,
{
    reveal(pow);
    let m = n / 16;
    let w = (width - 1) as nat;
    crate::listing::lemma_hex_length(m, w);
    assert(hex(n, width).len() == w + 1);
    if i == w {
        assert(n as int / pow(16, 0) == n);
    } else {
        let e = (w - 1 - i) as nat;
        assert(pow(16, e + 1) == 16 * pow(16, e));
        vstd::arithmetic::power::lemma_pow_positive(16, e);
        vstd::arithmetic::div_mod::lemma_div_denominator(n as int, 16, pow(16, e));
        assert(n as int / (16 * pow(16, e)) == m as int / pow(16, e));
        law_hexadecimal_digits(m, w, i, d);
    }
}

} // verus!

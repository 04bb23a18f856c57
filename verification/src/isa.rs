//! The V2 instruction word: fields, extension flags and mnemonics.
//!
//! The low half of a word holds the opcode (bits 11 to 15), the destination register (bits 8
//! to 10) and an 8-bit field that is an immediate or, in its upper three bits, the source
//! register and below that a 5-bit sub-function. The high half is the extension word.
use vstd::prelude::*;

verus! {

/// The destination register is in the upper bank.
pub const EXT_RD_HI: u16 = 0x0001;

/// The source register is in the upper bank.
pub const EXT_RS_HI: u16 = 0x0002;

/// The upper byte of the extension word extends the immediate.
pub const EXT_WIDE_IMM: u16 = 0x0004;

/// The upper byte of the extension word is an address offset.
pub const EXT_OFFSET: u16 = 0x0008;

/// The jump or call target is a register.
pub const EXT_REG_INDIRECT: u16 = 0x0010;

/// Bit `k` of the extension word.
pub open spec fn ext_flag(ext: u16, k: int) -> bool {
    if k == 0 {
        ext % 2 == 1
    } else if k == 1 {
        (ext / 2) % 2 == 1
    } else if k == 2 {
        (ext / 4) % 2 == 1
    } else if k == 3 {
        (ext / 8) % 2 == 1
    } else {
        (ext / 16) % 2 == 1
    }
}

/// The register that a 3-bit field names, given its bank bit.
pub open spec fn effective_reg_spec(lo: u8, hi: bool) -> int {
    (lo % 8) + if hi {
        8int
    } else {
        0int
    }
}

/// The register that a 3-bit field names, given its bank bit.
pub fn effective_reg(lo: u8, hi: bool) -> (r: u8)
    ensures
        r == effective_reg_spec(lo, hi),
        r < 16,
{
    let low: u8 = lo % 8;
    if hi {
        low + 8
    } else {
        low
    }
}

/// A tile address that belongs to the memory-mapped devices.
pub open spec fn is_mmio(addr: int) -> bool {
    41 <= addr <= 63
}

/// Whether an address belongs to the memory-mapped devices.
pub fn is_v2_mmio_addr(addr: usize) -> (r: bool)
    ensures
        r == is_mmio(addr as int),
{
    41 <= addr && addr <= 63
}

/// One decoded instruction word.
#[derive(Debug, Clone, Copy, PartialEq, Eq)]
pub struct V2DecodedInstruction {
    pub word: u32,
    pub opcode: u8,
    pub mnemonic: &'static str,
    pub rd_lo: u8,
    pub rs_lo: u8,
    pub rd: u8,
    pub rs: u8,
    pub imm5: u8,
    pub imm8: u8,
    pub jump_target: u8,
    pub ir_ext: u16,
    pub rd_hi: bool,
    pub rs_hi: bool,
    pub wide_imm: bool,
    pub has_offset: bool,
    pub offset: u8,
    pub imm16: u16,
    pub ext_reserved: u16,
}

/// The base mnemonic of an opcode.
pub open spec fn base_mnemonic(opcode: int) -> Seq<char> {
    if opcode == 0x00 {
        "NOP"@
    } else if opcode == 0x01 {
        "HALT"@
    } else if opcode == 0x02 {
        "MOV"@
    } else if opcode == 0x03 {
        "LDI"@
    } else if opcode == 0x04 {
        "ADD"@
    } else if opcode == 0x05 {
        "SUB"@
    } else if opcode == 0x06 {
        "AND"@
    } else if opcode == 0x07 {
        "OR"@
    } else if opcode == 0x08 {
        "XOR"@
    } else if opcode == 0x09 {
        "NOT"@
    } else if opcode == 0x0A {
        "NEG"@
    } else if opcode == 0x0B {
        "INC"@
    } else if opcode == 0x0C {
        "DEC"@
    } else if opcode == 0x0D {
        "SHL"@
    } else if opcode == 0x0E {
        "SHR"@
    } else if opcode == 0x0F {
        "CMP"@
    } else if opcode == 0x10 {
        "ADDI"@
    } else if opcode == 0x11 {
        "SUBI"@
    } else if opcode == 0x12 {
        "ANDI"@
    } else if opcode == 0x13 {
        "ORI"@
    } else if opcode == 0x14 {
        "XORI"@
    } else if opcode == 0x15 {
        "RET"@
    } else if opcode == 0x16 {
        "LD"@
    } else if opcode == 0x17 {
        "ST"@
    } else if opcode == 0x18 {
        "LDB"@
    } else if opcode == 0x19 {
        "STB"@
    } else if opcode == 0x1A {
        "JMP"@
    } else if opcode == 0x1B {
        "JZ"@
    } else if opcode == 0x1C {
        "JNZ"@
    } else if opcode == 0x1D {
        "JC"@
    } else if opcode == 0x1E {
        "JNC"@
    } else if opcode == 0x1F {
        "CALL"@
    } else {
        "UNK"@
    }
}

/// The mnemonic of an opcode and sub-function.
pub open spec fn mnemonic_of(opcode: int, imm5: int) -> Seq<char> {
    if opcode == 0x09 && imm5 == 1 {
        "CLZ"@
    } else if opcode == 0x09 && imm5 == 2 {
        "CTZ"@
    } else if opcode == 0x09 && imm5 == 3 {
        "POPCNT"@
    } else if opcode == 0x02 && imm5 == 1 {
        "MOVZ"@
    } else if opcode == 0x02 && imm5 == 2 {
        "MOVNZ"@
    } else if opcode == 0x02 && imm5 == 3 {
        "MOVC"@
    } else if opcode == 0x02 && imm5 == 4 {
        "MOVNC"@
    } else {
        base_mnemonic(opcode)
    }
}

/// The opcode field of a word.
pub open spec fn opcode_of(word: u32) -> int {
    (word as int / 2048) % 32
}

/// The extension half of a word.
pub open spec fn ext_of(word: u32) -> u16 {
    (word / 65536) as u16
}

/// The extension bits that no field uses. The upper byte is payload when the word has a wide
/// immediate or an offset.
pub open spec fn reserved_bits(ext: u16) -> int {
    if ext_flag(ext, 2) || ext_flag(ext, 3) {
        ((ext as int / 16) % 16) * 16
    } else {
        (ext as int / 16) * 16
    }
}

/// The fields of an instruction word.
pub struct Fields {
    pub word: int,
    pub opcode: int,
    pub rd_lo: int,
    pub rs_lo: int,
    pub rd: int,
    pub rs: int,
    pub imm5: int,
    pub imm8: int,
    pub jump_target: int,
    pub ext: int,
    pub rd_hi: bool,
    pub rs_hi: bool,
    pub wide_imm: bool,
    pub has_offset: bool,
    pub offset: int,
    pub imm16: int,
    pub reserved: int,
}

/// The fields of an instruction word.
pub open spec fn fields_of(word: u32) -> Fields {
    let ext = ext_of(word);
    let rd_lo = (word as int / 256) % 8;
    let rs_lo = (word as int / 32) % 8;
    let imm8 = word as int % 256;
    Fields {
        word: word as int,
        opcode: opcode_of(word),
        rd_lo,
        rs_lo,
        rd: rd_lo + if ext_flag(ext, 0) {
            8int
        } else {
            0int
        },
        rs: rs_lo + if ext_flag(ext, 1) {
            8int
        } else {
            0int
        },
        imm5: word as int % 32,
        imm8,
        jump_target: word as int % 128,
        ext: ext as int,
        rd_hi: ext_flag(ext, 0),
        rs_hi: ext_flag(ext, 1),
        wide_imm: ext_flag(ext, 2),
        has_offset: ext_flag(ext, 3),
        offset: if ext_flag(ext, 3) {
            ext as int / 256
        } else {
            0
        },
        imm16: if ext_flag(ext, 2) {
            (ext as int / 256) * 256 + imm8
        } else {
            imm8
        },
        reserved: reserved_bits(ext),
    }
}

impl View for V2DecodedInstruction {
    type V = Fields;

    open spec fn view(&self) -> Fields {
        Fields {
            word: self.word as int,
            opcode: self.opcode as int,
            rd_lo: self.rd_lo as int,
            rs_lo: self.rs_lo as int,
            rd: self.rd as int,
            rs: self.rs as int,
            imm5: self.imm5 as int,
            imm8: self.imm8 as int,
            jump_target: self.jump_target as int,
            ext: self.ir_ext as int,
            rd_hi: self.rd_hi,
            rs_hi: self.rs_hi,
            wide_imm: self.wide_imm,
            has_offset: self.has_offset,
            offset: self.offset as int,
            imm16: self.imm16 as int,
            reserved: self.ext_reserved as int,
        }
    }
}

impl V2DecodedInstruction {
    /// Whether the extension word has bits that no field uses.
    pub fn has_reserved_ext_bits(&self) -> (r: bool)
        ensures
            r == (self.ext_reserved != 0),
    {
        self.ext_reserved != 0
    }
}

/// The base mnemonic of an opcode.
pub fn mnemonic_for_opcode(opcode: u8) -> (r: &'static str)
    ensures
        r@ == base_mnemonic(opcode as int),
{
    match opcode {
        0x00 => "NOP",
        0x01 => "HALT",
        0x02 => "MOV",
        0x03 => "LDI",
        0x04 => "ADD",
        0x05 => "SUB",
        0x06 => "AND",
        0x07 => "OR",
        0x08 => "XOR",
        0x09 => "NOT",
        0x0A => "NEG",
        0x0B => "INC",
        0x0C => "DEC",
        0x0D => "SHL",
        0x0E => "SHR",
        0x0F => "CMP",
        0x10 => "ADDI",
        0x11 => "SUBI",
        0x12 => "ANDI",
        0x13 => "ORI",
        0x14 => "XORI",
        0x15 => "RET",
        0x16 => "LD",
        0x17 => "ST",
        0x18 => "LDB",
        0x19 => "STB",
        0x1A => "JMP",
        0x1B => "JZ",
        0x1C => "JNZ",
        0x1D => "JC",
        0x1E => "JNC",
        0x1F => "CALL",
        _ => "UNK",
    }
}

/// Decode one instruction word.
pub fn decode_v2_word(word: u32) -> (d: V2DecodedInstruction)
    ensures
        d@ == fields_of(word),
        d.mnemonic@ == mnemonic_of(opcode_of(word), word as int % 32),
{
    let opcode: u8 = ((word / 2048) % 32) as u8;
    let rd_lo: u8 = ((word / 256) % 8) as u8;
    let rs_lo: u8 = ((word / 32) % 8) as u8;
    let imm5: u8 = (word % 32) as u8;
    let imm8: u8 = (word % 256) as u8;
    let ir_ext: u16 = (word / 65536) as u16;
    let rd_hi: bool = ir_ext % 2 == 1;
    let rs_hi: bool = (ir_ext / 2) % 2 == 1;
    let wide_imm: bool = (ir_ext / 4) % 2 == 1;
    let has_offset: bool = (ir_ext / 8) % 2 == 1;
    let high: u16 = ir_ext / 256;
    let offset: u8 = if has_offset {
        high as u8
    } else {
        0
    };
    let imm16: u16 = if wide_imm {
        high * 256 + imm8 as u16
    } else {
        imm8 as u16
    };
    let ext_reserved: u16 = if wide_imm || has_offset {
        ((ir_ext / 16) % 16) * 16
    } else {
        (ir_ext / 16) * 16
    };
    let mnemonic: &'static str = if opcode == 0x09 {
        match imm5 {
            1 => "CLZ",
            2 => "CTZ",
            3 => "POPCNT",
            _ => "NOT",
        }
    } else if opcode == 0x02 {
        match imm5 {
            1 => "MOVZ",
            2 => "MOVNZ",
            3 => "MOVC",
            4 => "MOVNC",
            _ => "MOV",
        }
    } else {
        mnemonic_for_opcode(opcode)
    };
    V2DecodedInstruction {
        word,
        opcode,
        mnemonic,
        rd_lo,
        rs_lo,
        rd: effective_reg(rd_lo, rd_hi),
        rs: effective_reg(rs_lo, rs_hi),
        imm5,
        imm8,
        jump_target: imm8 % 128,
        ir_ext,
        rd_hi,
        rs_hi,
        wide_imm,
        has_offset,
        offset,
        imm16,
        ext_reserved,
    }
}

} // verus!

//! Reading a listing back: the text of an instruction tells its operation and its operands.
use vstd::prelude::*;
use vstd::string::*;

use crate::disassembler::{
    at_number, at_reg, offset_text, one_number, one_reg, reg_text, store_text, text_of, word_text,
};
use crate::isa::{ext_of, fields_of, mnemonic_of, Fields};
use crate::text::{dec, digit_char, hex, lemma_dec_digits, lemma_dec_injective};

verus! {

/// An operand as it stands in a listing.
pub enum Token {
    /// A register.
    Reg(nat),
    /// A number.
    Num(nat),
    /// The word whose address is in a register.
    AtReg(nat),
    /// The word at an address.
    AtNum(nat),
    /// The word whose address is a register and an offset.
    AtOffset(nat, nat),
}

/// The text of an operand.
pub open spec fn token_text(t: Token) -> Seq<char> {
    match t {
        Token::Reg(r) => seq!['R'] + dec(r),
        Token::Num(n) => dec(n),
        Token::AtReg(r) => seq!['[', 'R'] + (dec(r) + seq![']']),
        Token::AtNum(n) => seq!['['] + (dec(n) + seq![']']),
        Token::AtOffset(r, o) => seq!['[', 'R'] + (dec(r) + (seq!['+'] + (dec(o) + seq![']']))),
    }
}

/// What follows the mnemonic.
pub open spec fn operand_text(ops: Seq<Token>) -> Seq<char> {
    if ops.len() == 0 {
        Seq::empty()
    } else if ops.len() == 1 {
        seq![' '] + token_text(ops[0])
    } else {
        seq![' '] + (token_text(ops[0]) + (seq![',', ' '] + token_text(ops[1])))
    }
}

pub open spec fn is_digit(c: char) -> bool {
    '0' <= c <= '9'
}

/// Two texts that start with digits and go on with something else agree in both parts.
proof fn lemma_split_digits(a: nat, s: Seq<char>, b: nat, t: Seq<char>)
    requires
        dec(a) + s == dec(b) + t,
        s.len() > 0 ==> !is_digit(s[0]),
        t.len() > 0 ==> !is_digit(t[0]),
    ensures
        a == b,
        s == t,
{
    lemma_dec_digits(a);
    lemma_dec_digits(b);
    let u = dec(a) + s;
    let v = dec(b) + t;
    let (m, n) = (dec(a).len() as int, dec(b).len() as int);
    assert(u.len() == v.len());
    if m < n {
        assert(s.len() > 0);
        assert(u[m] == s[0]);
        assert(v[m] == dec(b)[m]);
    }
    if n < m {
        assert(t.len() > 0);
        assert(v[n] == t[0]);
        assert(u[n] == dec(a)[n]);
    }
    assert(dec(a) =~= u.subrange(0, m));
    assert(dec(b) =~= v.subrange(0, n));
    assert(s =~= u.subrange(m, u.len() as int));
    assert(t =~= v.subrange(n, v.len() as int));
    lemma_dec_injective(a, b);
}

/// Two texts that go on with a separator after a part without one agree in both parts.
proof fn lemma_split_at(sep: char, a: Seq<char>, s: Seq<char>, b: Seq<char>, t: Seq<char>)
    requires
        a + s == b + t,
        forall|i: int| 0 <= i < a.len() ==> #[trigger] a[i] != sep,
        forall|i: int| 0 <= i < b.len() ==> #[trigger] b[i] != sep,
        s.len() > 0 ==> s[0] == sep,
        t.len() > 0 ==> t[0] == sep,
    ensures
        a == b,
        s == t,
{
    let u = a + s;
    let v = b + t;
    let (m, n) = (a.len() as int, b.len() as int);
    assert(u.len() == v.len());
    if m < n {
        assert(u[m] == s[0]);
        assert(v[m] == b[m]);
    }
    if n < m {
        assert(v[n] == t[0]);
        assert(u[n] == a[n]);
    }
    assert(a =~= u.subrange(0, m));
    assert(b =~= v.subrange(0, n));
    assert(s =~= u.subrange(m, u.len() as int));
    assert(t =~= v.subrange(n, v.len() as int));
}

/// The first characters of an operand tell its form, and no operand holds a comma or a space.
proof fn lemma_token_shape(t: Token)
    ensures
        token_text(t).len() > 0,
        forall|i: int|
            0 <= i < token_text(t).len() ==> #[trigger] token_text(t)[i] != ',' && token_text(t)[i]
                != ' ',
        match t {
            Token::Reg(_) => token_text(t)[0] == 'R',
            Token::Num(_) => is_digit(token_text(t)[0]),
            Token::AtReg(_) => token_text(t)[0] == '[' && token_text(t).len() > 1
                && token_text(t)[1] == 'R',
            Token::AtOffset(_, _) => token_text(t)[0] == '[' && token_text(t).len() > 1
                && token_text(t)[1] == 'R',
            Token::AtNum(_) => token_text(t)[0] == '[' && token_text(t).len() > 1 && is_digit(
                token_text(t)[1],
            ),
        },
{
    match t {
        Token::Reg(r) => {
            lemma_dec_digits(r);
        },
        Token::Num(n) => {
            lemma_dec_digits(n);
        },
        Token::AtReg(r) => {
            lemma_dec_digits(r);
        },
        Token::AtNum(n) => {
            lemma_dec_digits(n);
        },
        Token::AtOffset(r, o) => {
            lemma_dec_digits(r);
            lemma_dec_digits(o);
        },
    }
}

/// What follows a common start of two equal texts is equal.
proof fn lemma_cancel(p: Seq<char>, s: Seq<char>, t: Seq<char>)
    requires
        p + s == p + t,
    ensures
        s == t,
{
    let u = p + s;
    let v = p + t;
    assert(s =~= u.subrange(p.len() as int, u.len() as int));
    assert(t =~= v.subrange(p.len() as int, v.len() as int));
}

/// The text of an operand tells the operand.
pub proof fn law_operand_text_is_readable(a: Token, b: Token)
    requires
        token_text(a) == token_text(b),
    ensures
        a == b,
{
    lemma_token_shape(a);
    lemma_token_shape(b);
    match (a, b) {
        (Token::Reg(r), Token::Reg(q)) => {
            lemma_cancel(seq!['R'], dec(r), dec(q));
            lemma_dec_injective(r, q);
        },
        (Token::Num(r), Token::Num(q)) => {
            lemma_dec_injective(r, q);
        },
        (Token::AtNum(r), Token::AtNum(q)) => {
            lemma_cancel(seq!['['], dec(r) + seq![']'], dec(q) + seq![']']);
            lemma_split_digits(r, seq![']'], q, seq![']']);
        },
        (Token::AtReg(r), Token::AtReg(q)) => {
            lemma_cancel(seq!['[', 'R'], dec(r) + seq![']'], dec(q) + seq![']']);
            lemma_split_digits(r, seq![']'], q, seq![']']);
        },
        (Token::AtOffset(r, o), Token::AtOffset(q, p)) => {
            let s = seq!['+'] + (dec(o) + seq![']']);
            let t = seq!['+'] + (dec(p) + seq![']']);
            lemma_cancel(seq!['[', 'R'], dec(r) + s, dec(q) + t);
            lemma_split_digits(r, s, q, t);
            lemma_cancel(seq!['+'], dec(o) + seq![']'], dec(p) + seq![']']);
            lemma_split_digits(o, seq![']'], p, seq![']']);
        },
        (Token::AtReg(r), Token::AtOffset(q, p)) => {
            let t = seq!['+'] + (dec(p) + seq![']']);
            lemma_cancel(seq!['[', 'R'], dec(r) + seq![']'], dec(q) + t);
            lemma_split_digits(r, seq![']'], q, t);
            assert(seq![']'][0] == t[0]);
        },
        (Token::AtOffset(r, o), Token::AtReg(q)) => {
            let s = seq!['+'] + (dec(o) + seq![']']);
            lemma_cancel(seq!['[', 'R'], dec(r) + s, dec(q) + seq![']']);
            lemma_split_digits(r, s, q, seq![']']);
            assert(s[0] == seq![']'][0]);
        },
        _ => {},
    }
}

/// A line with its mnemonic and operands.
pub open spec fn line_text(m: Seq<char>, ops: Seq<Token>) -> Seq<char> {
    m + operand_text(ops)
}

pub open spec fn no_space(m: Seq<char>) -> bool {
    forall|i: int| 0 <= i < m.len() ==> #[trigger] m[i] != ' '
}

/// A line tells its mnemonic and its operands.
pub proof fn law_line_is_readable(m: Seq<char>, ops: Seq<Token>, n: Seq<char>, qs: Seq<Token>)
    requires
        line_text(m, ops) == line_text(n, qs),
        no_space(m),
        no_space(n),
        ops.len() <= 2,
        qs.len() <= 2,
    ensures
        m == n,
        ops == qs,
{
    let s = operand_text(ops);
    let t = operand_text(qs);
    lemma_split_at(' ', m, s, n, t);
    if ops.len() > 0 {
        lemma_token_shape(ops[0]);
    }
    if qs.len() > 0 {
        lemma_token_shape(qs[0]);
    }
    if ops.len() == 0 || qs.len() == 0 {
        assert(ops =~= qs);
    } else {
        let a = rest_text(ops);
        let b = rest_text(qs);
        assert(s =~= seq![' '] + (token_text(ops[0]) + a));
        assert(t =~= seq![' '] + (token_text(qs[0]) + b));
        lemma_cancel(seq![' '], token_text(ops[0]) + a, token_text(qs[0]) + b);
        lemma_split_at(',', token_text(ops[0]), a, token_text(qs[0]), b);
        law_operand_text_is_readable(ops[0], qs[0]);
        assert(ops.len() == qs.len());
        if ops.len() == 2 {
            lemma_cancel(seq![',', ' '], token_text(ops[1]), token_text(qs[1]));
            law_operand_text_is_readable(ops[1], qs[1]);
        }
        assert(ops =~= qs);
    }
}

/// What follows the first operand.
spec fn rest_text(ops: Seq<Token>) -> Seq<char> {
    if ops.len() == 2 {
        seq![',', ' '] + token_text(ops[1])
    } else {
        Seq::empty()
    }
}

/// The operation of an instruction, by name.
pub open spec fn operation(d: Fields) -> Seq<char> {
    if d.opcode == 0x03 && d.wide_imm {
        "LDI.W"@
    } else if d.opcode == 0x04 && d.imm5 == 1 {
        "MUL"@
    } else if d.opcode == 0x0E && (d.imm5 / 8) % 2 == 1 {
        "SRA"@
    } else if d.opcode == 0x10 && d.wide_imm {
        "ADDI.W"@
    } else if d.opcode == 0x11 && d.wide_imm {
        "SUBI.W"@
    } else if d.opcode == 0x12 && d.wide_imm {
        "ANDI.W"@
    } else if d.opcode == 0x13 && d.wide_imm {
        "ORI.W"@
    } else if d.opcode == 0x14 && d.wide_imm {
        "XORI.W"@
    } else {
        mnemonic_of(d.opcode, d.imm5)
    }
}

/// The word that a load or store accesses, as its operand.
pub open spec fn place(d: Fields) -> Token {
    if d.has_offset {
        Token::AtOffset(d.rs as nat, d.offset as nat)
    } else if d.opcode == 0x16 || d.opcode == 0x17 {
        Token::AtReg(d.rs as nat)
    } else {
        Token::AtNum(d.imm8 as nat)
    }
}

/// The operands that an instruction uses, in the order of the listing.
pub open spec fn operands(d: Fields) -> Seq<Token> {
    let rd = Token::Reg(d.rd as nat);
    let rs = Token::Reg(d.rs as nat);
    if d.opcode == 0x00 || d.opcode == 0x01 || d.opcode == 0x15 {
        Seq::empty()
    } else if d.opcode == 0x02 || (0x04 <= d.opcode <= 0x08) || d.opcode == 0x0F {
        seq![rd, rs]
    } else if 0x09 <= d.opcode <= 0x0C {
        seq![rd]
    } else if d.opcode == 0x0D || d.opcode == 0x0E {
        seq![rd, Token::Num((d.imm5 % 8) as nat)]
    } else if d.opcode == 0x03 || (0x10 <= d.opcode <= 0x14) {
        seq![rd, Token::Num(d.imm16 as nat)]
    } else if d.opcode == 0x16 || d.opcode == 0x18 {
        seq![rd, place(d)]
    } else if d.opcode == 0x17 || d.opcode == 0x19 {
        seq![place(d), rd]
    } else {
        seq![Token::Num(d.jump_target as nat)]
    }
}

pub(crate) proof fn lemma_marks()
    ensures
        "R"@ == seq!['R'],
        " "@ == seq![' '],
        ", "@ == seq![',', ' '],
        "["@ == seq!['['],
        "]"@ == seq![']'],
        "+"@ == seq!['+'],
{
    reveal_strlit("R");
    reveal_strlit(" ");
    reveal_strlit(", ");
    reveal_strlit("[");
    reveal_strlit("]");
    reveal_strlit("+");
    assert("R"@ =~= seq!['R']);
    assert(" "@ =~= seq![' ']);
    assert(", "@ =~= seq![',', ' ']);
    assert("["@ =~= seq!['[']);
    assert("]"@ =~= seq![']']);
    assert("+"@ =~= seq!['+']);
}

proof fn lemma_one_reg(m: Seq<char>, r: int)
    ensures
        one_reg(m, r) == line_text(m, seq![Token::Reg(r as nat)]),
{
    lemma_marks();
    assert(one_reg(m, r) =~= line_text(m, seq![Token::Reg(r as nat)]));
}

proof fn lemma_two(m: Seq<char>, r: int, x: Token, t: Seq<char>)
    requires
        t == token_text(x),
    ensures
        one_reg(m, r) + ", "@ + t == line_text(m, seq![Token::Reg(r as nat), x]),
{
    lemma_marks();
    assert(one_reg(m, r) + ", "@ + t =~= line_text(m, seq![Token::Reg(r as nat), x]));
}

proof fn lemma_store(m: Seq<char>, x: Token, r: int)
    ensures
        store_text(m, token_text(x), r) == line_text(m, seq![x, Token::Reg(r as nat)]),
{
    lemma_marks();
    assert(store_text(m, token_text(x), r) =~= line_text(m, seq![x, Token::Reg(r as nat)]));
}

proof fn lemma_number(m: Seq<char>, n: int)
    ensures
        one_number(m, n) == line_text(m, seq![Token::Num(n as nat)]),
{
    lemma_marks();
    assert(one_number(m, n) =~= line_text(m, seq![Token::Num(n as nat)]));
}

proof fn lemma_places(rs: int, o: int, n: int)
    ensures
        offset_text(rs, o) == token_text(Token::AtOffset(rs as nat, o as nat)),
        at_reg(rs) == token_text(Token::AtReg(rs as nat)),
        at_number(n) == token_text(Token::AtNum(n as nat)),
{
    lemma_marks();
    assert(offset_text(rs, o) =~= token_text(Token::AtOffset(rs as nat, o as nat)));
    assert(at_reg(rs) =~= token_text(Token::AtReg(rs as nat)));
    assert(at_number(n) =~= token_text(Token::AtNum(n as nat)));
}

/// The text of an instruction without reserved bits is the line of its operation and operands.
proof fn lemma_text_is_line(d: Fields)
    requires
        d.reserved == 0,
        0 <= d.opcode < 32,
        !d.wide_imm ==> d.imm16 == d.imm8,
    ensures
        text_of(d) == line_text(operation(d), operands(d)),
{
    let m = operation(d);
    lemma_marks();
    lemma_one_reg(m, d.rd);
    lemma_two(m, d.rd, Token::Reg(d.rs as nat), reg_text(d.rs));
    lemma_two(m, d.rd, Token::Num((d.imm5 % 8) as nat), dec((d.imm5 % 8) as nat));
    lemma_two(m, d.rd, Token::Num(d.imm16 as nat), dec(d.imm16 as nat));
    lemma_places(d.rs, d.offset, d.imm8);
    lemma_two(m, d.rd, place(d), token_text(place(d)));
    lemma_store(m, place(d), d.rd);
    lemma_number(m, d.jump_target);
    if operands(d).len() == 0 {
        assert(text_of(d) =~= line_text(m, operands(d)));
    }
}

/// A name of up to six characters as one number.
spec fn name_code(s: Seq<char>) -> int {
    let c = |i: int|
        if i < s.len() {
            s[i] as int
        } else {
            0
        };
    ((((c(0) * 128 + c(1)) * 128 + c(2)) * 128 + c(3)) * 128 + c(4)) * 128 + c(5)
}

/// The opcode of an operation, by the number of its name.
spec fn opcode_by_code(k: int) -> int {
    if k == 2701433765888 {
        0
    } else if k == 2491510226944 {
        1
    } else if k == 2667086610432 {
        2
    } else if k == 2667088084992 {
        2
    } else if k == 2667087899904 {
        2
    } else if k == 2667087708160 {
        2
    } else if k == 2667087896960 {
        2
    } else if k == 2629746819072 {
        3
    } else if k == 2629747583872 {
        3
    } else if k == 2251779211264 {
        4
    } else if k == 2668676251648 {
        4
    } else if k == 2874813710336 {
        5
    } else if k == 2254463565824 {
        6
    } else if k == 2736431038464 {
        7
    } else if k == 3045035343872 {
        8
    } else if k == 2701442154496 {
        9
    } else if k == 2322692308992 {
        9
    } else if k == 2324839792640 {
        9
    } else if k == 2770154350420 {
        9
    } else if k == 2698730536960 {
        10
    } else if k == 2529339375616 {
        11
    } else if k == 2355124764672 {
        12
    } else if k == 2871345020928 {
        13
    } else if k == 2871357603840 {
        14
    } else if k == 2874006306816 {
        14
    } else if k == 2322939772928 {
        15
    } else if k == 2251780407296 {
        16
    } else if k == 2251780413271 {
        16
    } else if k == 2874814906368 {
        17
    } else if k == 2874814912343 {
        17
    } else if k == 2254464761856 {
        18
    } else if k == 2254464767831 {
        18
    } else if k == 2736584130560 {
        19
    } else if k == 2736584895360 {
        19
    } else if k == 3045036539904 {
        20
    } else if k == 3045036545879 {
        20
    } else if k == 2836196753408 {
        21
    } else if k == 2629593726976 {
        22
    } else if k == 2874406862848 {
        23
    } else if k == 2629732139008 {
        24
    } else if k == 2874545274880 {
        25
    } else if k == 2563457941504 {
        26
    } else if k == 2566779830272 {
        27
    } else if k == 2563747348480 {
        28
    } else if k == 2560605814784 {
        29
    } else if k == 2563699113984 {
        30
    } else if k == 2319711404032 {
        31
    } else {
        -1
    }
}

proof fn lemma_names_a()
    ensures
        name_code("NOP"@) == 2701433765888,
        no_space("NOP"@),
        name_code("HALT"@) == 2491510226944,
        no_space("HALT"@),
        name_code("MOV"@) == 2667086610432,
        no_space("MOV"@),
        name_code("MOVZ"@) == 2667088084992,
        no_space("MOVZ"@),
        name_code("MOVNZ"@) == 2667087899904,
        no_space("MOVNZ"@),
        name_code("MOVC"@) == 2667087708160,
        no_space("MOVC"@),
        name_code("MOVNC"@) == 2667087896960,
        no_space("MOVNC"@),
        name_code("LDI"@) == 2629746819072,
        no_space("LDI"@),
        name_code("LDI.W"@) == 2629747583872,
        no_space("LDI.W"@),
        name_code("ADD"@) == 2251779211264,
        no_space("ADD"@),
        name_code("MUL"@) == 2668676251648,
        no_space("MUL"@),
        name_code("SUB"@) == 2874813710336,
        no_space("SUB"@),
{
    reveal_strlit("NOP");
    reveal_strlit("HALT");
    reveal_strlit("MOV");
    reveal_strlit("MOVZ");
    reveal_strlit("MOVNZ");
    reveal_strlit("MOVC");
    reveal_strlit("MOVNC");
    reveal_strlit("LDI");
    reveal_strlit("LDI.W");
    reveal_strlit("ADD");
    reveal_strlit("MUL");
    reveal_strlit("SUB");
}

proof fn lemma_names_b()
    ensures
        name_code("AND"@) == 2254463565824,
        no_space("AND"@),
        name_code("OR"@) == 2736431038464,
        no_space("OR"@),
        name_code("XOR"@) == 3045035343872,
        no_space("XOR"@),
        name_code("NOT"@) == 2701442154496,
        no_space("NOT"@),
        name_code("CLZ"@) == 2322692308992,
        no_space("CLZ"@),
        name_code("CTZ"@) == 2324839792640,
        no_space("CTZ"@),
        name_code("POPCNT"@) == 2770154350420,
        no_space("POPCNT"@),
        name_code("NEG"@) == 2698730536960,
        no_space("NEG"@),
        name_code("INC"@) == 2529339375616,
        no_space("INC"@),
        name_code("DEC"@) == 2355124764672,
        no_space("DEC"@),
        name_code("SHL"@) == 2871345020928,
        no_space("SHL"@),
        name_code("SHR"@) == 2871357603840,
        no_space("SHR"@),
{
    reveal_strlit("AND");
    reveal_strlit("OR");
    reveal_strlit("XOR");
    reveal_strlit("NOT");
    reveal_strlit("CLZ");
    reveal_strlit("CTZ");
    reveal_strlit("POPCNT");
    reveal_strlit("NEG");
    reveal_strlit("INC");
    reveal_strlit("DEC");
    reveal_strlit("SHL");
    reveal_strlit("SHR");
}

proof fn lemma_names_c()
    ensures
        name_code("SRA"@) == 2874006306816,
        no_space("SRA"@),
        name_code("CMP"@) == 2322939772928,
        no_space("CMP"@),
        name_code("ADDI"@) == 2251780407296,
        no_space("ADDI"@),
        name_code("ADDI.W"@) == 2251780413271,
        no_space("ADDI.W"@),
        name_code("SUBI"@) == 2874814906368,
        no_space("SUBI"@),
        name_code("SUBI.W"@) == 2874814912343,
        no_space("SUBI.W"@),
        name_code("ANDI"@) == 2254464761856,
        no_space("ANDI"@),
        name_code("ANDI.W"@) == 2254464767831,
        no_space("ANDI.W"@),
        name_code("ORI"@) == 2736584130560,
        no_space("ORI"@),
        name_code("ORI.W"@) == 2736584895360,
        no_space("ORI.W"@),
        name_code("XORI"@) == 3045036539904,
        no_space("XORI"@),
        name_code("XORI.W"@) == 3045036545879,
        no_space("XORI.W"@),
{
    reveal_strlit("SRA");
    reveal_strlit("CMP");
    reveal_strlit("ADDI");
    reveal_strlit("ADDI.W");
    reveal_strlit("SUBI");
    reveal_strlit("SUBI.W");
    reveal_strlit("ANDI");
    reveal_strlit("ANDI.W");
    reveal_strlit("ORI");
    reveal_strlit("ORI.W");
    reveal_strlit("XORI");
    reveal_strlit("XORI.W");
}

proof fn lemma_names_d()
    ensures
        name_code("RET"@) == 2836196753408,
        no_space("RET"@),
        name_code("LD"@) == 2629593726976,
        no_space("LD"@),
        name_code("ST"@) == 2874406862848,
        no_space("ST"@),
        name_code("LDB"@) == 2629732139008,
        no_space("LDB"@),
        name_code("STB"@) == 2874545274880,
        no_space("STB"@),
        name_code("JMP"@) == 2563457941504,
        no_space("JMP"@),
        name_code("JZ"@) == 2566779830272,
        no_space("JZ"@),
        name_code("JNZ"@) == 2563747348480,
        no_space("JNZ"@),
        name_code("JC"@) == 2560605814784,
        no_space("JC"@),
        name_code("JNC"@) == 2563699113984,
        no_space("JNC"@),
        name_code("CALL"@) == 2319711404032,
        no_space("CALL"@),
{
    reveal_strlit("RET");
    reveal_strlit("LD");
    reveal_strlit("ST");
    reveal_strlit("LDB");
    reveal_strlit("STB");
    reveal_strlit("JMP");
    reveal_strlit("JZ");
    reveal_strlit("JNZ");
    reveal_strlit("JC");
    reveal_strlit("JNC");
    reveal_strlit("CALL");
}

/// The name of an operation tells its opcode.
proof fn lemma_operation_names(d: Fields)
    requires
        0 <= d.opcode < 32,
    ensures
        opcode_by_code(name_code(operation(d))) == d.opcode,
        no_space(operation(d)),
{
    lemma_names_a();
    lemma_names_b();
    lemma_names_c();
    lemma_names_d();
}

/// The text of an instruction without reserved bits tells its opcode, its operation and every
/// operand it uses.
pub proof fn law_text_tells_the_instruction(a: u32, b: u32)
    requires
        word_text(a) == word_text(b),
        fields_of(a).reserved == 0,
        fields_of(b).reserved == 0,
    ensures
        fields_of(a).opcode == fields_of(b).opcode,
        operation(fields_of(a)) == operation(fields_of(b)),
        operands(fields_of(a)) == operands(fields_of(b)),
{
    let d = fields_of(a);
    let e = fields_of(b);
    lemma_text_is_line(d);
    lemma_text_is_line(e);
    lemma_operation_names(d);
    lemma_operation_names(e);
    law_line_is_readable(operation(d), operands(d), operation(e), operands(e));
}

/// One more than the largest number of `width` hexadecimal digits.
pub open spec fn hex_limit(width: nat) -> nat
    decreases width,
{
    if width == 0 {
        1
    } else {
        16 * hex_limit((width - 1) as nat)
    }
}

proof fn lemma_hex_injective(a: nat, b: nat, width: nat)
    requires
        hex(a, width) == hex(b, width),
        a < hex_limit(width),
        b < hex_limit(width),
    ensures
        a == b,
    decreases width,
{
    if width > 0 {
        let w = (width - 1) as nat;
        let (x, y) = (hex(a, width), hex(b, width));
        assert(x.drop_last() =~= hex(a / 16, w));
        assert(y.drop_last() =~= hex(b / 16, w));
        assert(x.last() == digit_char((a % 16) as int));
        assert(y.last() == digit_char((b % 16) as int));
        assert(digit_char((a % 16) as int) as int == digit_char((b % 16) as int) as int);
        lemma_hex_injective(a / 16, b / 16, w);
    }
}

pub(crate) proof fn lemma_hex_length(a: nat, width: nat)
    ensures
        hex(a, width).len() == width,
    decreases width,
{
    if width > 0 {
        lemma_hex_length(a / 16, (width - 1) as nat);
    }
}

/// The text of a word with reserved bits tells the whole word.
pub proof fn law_reserved_text_tells_the_word(a: u32, b: u32)
    requires
        word_text(a) == word_text(b),
        fields_of(a).reserved != 0,
        fields_of(b).reserved != 0,
    ensures
        a == b,
{
    let (u, v) = (word_text(a), word_text(b));
    let n = ".word32 0x"@.len() as int;
    lemma_hex_length(a as nat, 8);
    lemma_hex_length(b as nat, 8);
    assert(u.subrange(n, n + 8) =~= hex(a as nat, 8));
    assert(v.subrange(n, n + 8) =~= hex(b as nat, 8));
    reveal_with_fuel(hex_limit, 9);
    lemma_hex_injective(a as nat, b as nat, 8);
}

/// The opcode takes a destination and a source register.
pub open spec fn is_two_register(op: int) -> bool {
    op == 0x02 || (0x04 <= op <= 0x08) || op == 0x0F
}

/// The opcode takes a register and an immediate of one byte or two.
pub open spec fn is_immediate(op: int) -> bool {
    op == 0x03 || (0x10 <= op <= 0x14)
}

/// The opcode is a load or a store.
pub open spec fn is_access(op: int) -> bool {
    0x16 <= op <= 0x19
}

/// The opcode takes nothing, or an address to go to.
pub open spec fn is_registerless(op: int) -> bool {
    op == 0x00 || op == 0x01 || op == 0x15 || op >= 0x1A
}

/// The low byte of an instruction is the one that its operation is written with: bits that the
/// instruction does not use are clear, except that a negation repeats its register and an increment
/// or decrement is by one.
pub open spec fn low_byte_is_canonical(d: Fields) -> bool {
    if d.opcode == 0x00 || d.opcode == 0x01 || d.opcode == 0x15 {
        d.imm8 == 0
    } else if d.opcode == 0x02 {
        d.imm5 <= 4
    } else if d.opcode == 0x04 {
        d.imm5 <= 1
    } else if is_two_register(d.opcode) {
        d.imm5 == 0
    } else if d.opcode == 0x09 {
        d.rs_lo == 0 && d.imm5 <= 3
    } else if d.opcode == 0x0A {
        d.rs_lo == d.rd_lo && d.imm5 == 0
    } else if d.opcode == 0x0B || d.opcode == 0x0C {
        d.imm8 == 1
    } else if d.opcode == 0x0D {
        d.imm8 < 8
    } else if d.opcode == 0x0E {
        d.imm8 < 16
    } else if d.opcode == 0x16 || d.opcode == 0x17 || (is_access(d.opcode) && d.has_offset) {
        d.imm5 == 0
    } else if d.opcode >= 0x1A {
        d.imm8 < 128
    } else {
        true
    }
}

/// An instruction word as an assembler writes it: no bit is set that the instruction does not use.
pub open spec fn is_canonical(word: u32) -> bool {
    let d = fields_of(word);
    &&& d.reserved == 0
    &&& d.wide_imm ==> is_immediate(d.opcode)
    &&& d.has_offset ==> is_access(d.opcode)
    &&& is_registerless(d.opcode) ==> d.rd_lo == 0 && !d.rd_hi
    &&& d.opcode == 0x0A ==> d.rs_hi == d.rd_hi
    &&& d.rs_hi ==> is_two_register(d.opcode) || d.opcode == 0x0A || d.opcode == 0x16 || d.opcode
        == 0x17 || d.has_offset
    &&& low_byte_is_canonical(d)
}

/// A word is made of its fields.
proof fn lemma_fields_make_the_word(a: u32, b: u32)
    requires
        fields_of(a).opcode == fields_of(b).opcode,
        fields_of(a).rd_lo == fields_of(b).rd_lo,
        fields_of(a).imm8 == fields_of(b).imm8,
        fields_of(a).ext == fields_of(b).ext,
    ensures
        a == b,
{
    assert(a / 65536 == b / 65536 && (a / 2048) % 32 == (b / 2048) % 32 && (a / 256) % 8 == (b
        / 256) % 8 && a % 256 == b % 256 ==> a == b) by (bit_vector);
}

/// The extension half is made of its four flags and its payload, where nothing is reserved.
proof fn lemma_flags_make_the_extension(a: u32, b: u32)
    requires
        fields_of(a).reserved == 0,
        fields_of(b).reserved == 0,
        fields_of(a).rd_hi == fields_of(b).rd_hi,
        fields_of(a).rs_hi == fields_of(b).rs_hi,
        fields_of(a).wide_imm == fields_of(b).wide_imm,
        fields_of(a).has_offset == fields_of(b).has_offset,
        fields_of(a).wide_imm || fields_of(a).has_offset ==> fields_of(a).ext / 256 == fields_of(
            b,
        ).ext / 256,
    ensures
        fields_of(a).ext == fields_of(b).ext,
{
    let x = ext_of(a);
    let y = ext_of(b);
    assert(x % 2 == y % 2 && (x / 2) % 2 == (y / 2) % 2 && (x / 4) % 2 == (y / 4) % 2 && (x / 8) % 2
        == (y / 8) % 2 && (x / 16) % 16 == (y / 16) % 16 && x / 256 == y / 256 ==> x == y)
        by (bit_vector);
    assert((x / 16) % 16 == 0 && (y / 16) % 16 == 0);
}

/// The low byte holds the source field above the low five bits.
proof fn lemma_low_byte(a: u32)
    ensures
        fields_of(a).imm8 == 32 * fields_of(a).rs_lo + fields_of(a).imm5,
        0 <= fields_of(a).imm5 < 32,
        0 <= fields_of(a).rs_lo < 8,
        0 <= fields_of(a).rd_lo < 8,
        0 <= fields_of(a).imm8 < 256,
        fields_of(a).jump_target == fields_of(a).imm8 % 128,
        0 <= fields_of(a).opcode < 32,
        0 <= fields_of(a).ext,
{
}

/// A line tells the sub-function of its operation, and whether its immediate is wide.
proof fn lemma_operation_tells(d: Fields, e: Fields)
    requires
        operation(d) == operation(e),
        d.opcode == e.opcode,
        0 <= d.opcode < 32,
    ensures
        is_immediate(d.opcode) ==> d.wide_imm == e.wide_imm,
        d.opcode == 0x02 && d.imm5 <= 4 && e.imm5 <= 4 && 0 <= d.imm5 && 0 <= e.imm5 ==> d.imm5
            == e.imm5,
        d.opcode == 0x04 && 0 <= d.imm5 <= 1 && 0 <= e.imm5 <= 1 ==> d.imm5 == e.imm5,
        d.opcode == 0x09 && 0 <= d.imm5 <= 3 && 0 <= e.imm5 <= 3 ==> d.imm5 == e.imm5,
        d.opcode == 0x0E ==> ((d.imm5 / 8) % 2 == 1) == ((e.imm5 / 8) % 2 == 1),
{
    lemma_names_a();
    lemma_names_b();
    lemma_names_c();
}

/// The text of an instruction tells its registers and its flags, where they are used.
proof fn lemma_operands_tell(a: u32, b: u32)
    requires
        is_canonical(a),
        is_canonical(b),
        fields_of(a).opcode == fields_of(b).opcode,
        is_immediate(fields_of(a).opcode) ==> fields_of(a).wide_imm == fields_of(b).wide_imm,
        operands(fields_of(a)) == operands(fields_of(b)),
    ensures
        fields_of(a).rd_lo == fields_of(b).rd_lo,
        fields_of(a).rd_hi == fields_of(b).rd_hi,
        fields_of(a).rs_hi == fields_of(b).rs_hi,
        fields_of(a).wide_imm == fields_of(b).wide_imm,
        fields_of(a).has_offset == fields_of(b).has_offset,
        fields_of(a).wide_imm || fields_of(a).has_offset ==> fields_of(a).ext / 256 == fields_of(
            b,
        ).ext / 256,
        is_two_register(fields_of(a).opcode) ==> fields_of(a).rs_lo == fields_of(b).rs_lo,
        is_immediate(fields_of(a).opcode) ==> fields_of(a).imm8 == fields_of(b).imm8,
        is_access(fields_of(a).opcode) ==> fields_of(a).imm8 == fields_of(b).imm8,
        fields_of(a).opcode >= 0x1A ==> fields_of(a).imm8 == fields_of(b).imm8,
        fields_of(a).opcode == 0x0D || fields_of(a).opcode == 0x0E ==> fields_of(a).imm5 % 8
            == fields_of(b).imm5 % 8,
{
    lemma_low_byte(a);
    lemma_low_byte(b);
    let d = fields_of(a);
    let e = fields_of(b);
    let s = operands(d);
    let t = operands(e);
    if s.len() > 0 {
        assert(s[0] == t[0]);
    }
    if s.len() > 1 {
        assert(s[1] == t[1]);
    }
}

/// The text of a canonical word tells the whole word: whatever writes a canonical word that is
/// listed as this line writes this word.
pub proof fn law_canonical_text_tells_the_word(a: u32, b: u32)
    requires
        word_text(a) == word_text(b),
        is_canonical(a),
        is_canonical(b),
    ensures
        a == b,
{
    let d = fields_of(a);
    let e = fields_of(b);
    law_text_tells_the_instruction(a, b);
    lemma_low_byte(a);
    lemma_low_byte(b);
    lemma_operation_tells(d, e);
    lemma_operands_tell(a, b);
    lemma_flags_make_the_extension(a, b);
    assert(d.imm8 == e.imm8);
    lemma_fields_make_the_word(a, b);
}

} // verus!

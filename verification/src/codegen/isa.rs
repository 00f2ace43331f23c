//! The bridge to the `ch8_isa` code generator.
//!
//! The functions marked `external_body` here are not proved: each
//! states what one function of `ch8_isa` does, as its source shows it,
//! and the rest of the crate is verified against these statements. The
//! code generator works on its own types, which are opaque here. A
//! value of such a type travels together with the plain value it was
//! built from, in an `IsaReg` or an `IsaInstr`, and the contracts speak
//! of the plain value. What the code generator makes of an instruction
//! is not stated but named: `opcode` is the word that it generates.

use super::instruction::{
    AddData, DrawData, Instr, MovData, PairData, RandData, Reg, SkipData, SkipType,
};
use crate::error::fault::EncodeErrorType;
use ch8_isa::data::Register;
use vstd::prelude::*;

verus! {

/// The binary under construction: `ch8_isa::codegen::Binary`.
#[verifier::external_type_specification]
#[verifier::external_body]
pub struct ExBinary(ch8_isa::codegen::Binary);

/// The error of the code generator: `ch8_isa::error::BinaryError`.
#[verifier::external_type_specification]
#[verifier::external_body]
pub struct ExBinaryError(ch8_isa::error::BinaryError);

/// The register type of the code generator: `ch8_isa::data::Register`.
#[verifier::external_type_specification]
#[verifier::external_body]
pub struct ExRegister(ch8_isa::data::Register);

/// The instruction type of the code generator:
/// `ch8_isa::codegen::Instruction`.
#[verifier::external_type_specification]
#[verifier::external_body]
pub struct ExInstruction(ch8_isa::codegen::Instruction);

/// The bytes that a binary holds, in the order in which they were added.
pub uninterp spec fn binary_bytes(bin: ch8_isa::codegen::Binary) -> Seq<u8>;

/// The length that a binary keeps count of and reports by `len`.
pub uninterp spec fn binary_length(bin: ch8_isa::codegen::Binary) -> u16;

/// The opcode that `ch8_isa` generates for an instruction: the result
/// of `gen_opcode` on the instruction that the constructors below build
/// from `instr`.
pub uninterp spec fn opcode(instr: Instr) -> u16;

/// A register in the code generator's form, with the register it is.
pub struct IsaReg {
    reg: Reg,
    isa: ch8_isa::data::Register,
}

/// An instruction in the code generator's form, with the instruction
/// it was built from.
pub struct IsaInstr {
    source: Instr,
    isa: ch8_isa::codegen::Instruction,
}

impl IsaReg {
    /// The register that this is.
    pub closed spec fn reg(&self) -> Reg {
        self.reg
    }
}

impl IsaInstr {
    /// The instruction that this was built from.
    pub closed spec fn source(&self) -> Instr {
        self.source
    }
}

/// `Binary::new` makes an empty binary of the given name, unless a
/// file of that name exists: whether it does is not known here.
#[verifier::external_body]
pub(crate) fn binary_new(name: &str) -> (res: Result<
    ch8_isa::codegen::Binary,
    ch8_isa::error::BinaryError,
>)
    ensures
        res matches Ok(bin) ==> binary_bytes(bin) == Seq::<u8>::empty() && binary_length(bin) == 0,
{
    ch8_isa::codegen::Binary::new(name)
}

/// `Binary::len` returns the length that the binary keeps count of.
#[verifier::external_body]
pub(crate) fn binary_len(bin: &ch8_isa::codegen::Binary) -> (len: u16)
    ensures
        len == binary_length(*bin),
{
    bin.len()
}

/// `Binary::add_byte` appends the byte, counts it and returns `Ok`.
/// The byte goes into a vector in memory, which takes it without fail;
/// the error in the signature is for a writer that can refuse. The
/// count must not be at its maximum: the addition would overflow.
#[verifier::external_body]
pub(crate) fn binary_add_byte(bin: &mut ch8_isa::codegen::Binary, byte: u8) -> (res: Result<
    (),
    ch8_isa::error::BinaryError,
>)
    requires
        binary_length(*old(bin)) < 0xFFFF,
    ensures
        res is Ok,
        binary_bytes(*final(bin)) == binary_bytes(*old(bin)).push(byte),
        binary_length(*final(bin)) == binary_length(*old(bin)) + 1,
{
    bin.add_byte(byte)
}

/// `Binary::add_word` appends the two bytes of the word, the high byte
/// first, counts them and returns `Ok`: the bytes go into a vector in
/// memory, as in `add_byte`. The count must leave room for two: the
/// addition would overflow.
#[verifier::external_body]
pub(crate) fn binary_add_word(bin: &mut ch8_isa::codegen::Binary, word: u16) -> (res: Result<
    (),
    ch8_isa::error::BinaryError,
>)
    requires
        binary_length(*old(bin)) < 0xFFFE,
    ensures
        res is Ok,
        binary_bytes(*final(bin)) == binary_bytes(*old(bin)) + word_bytes(word),
        binary_length(*final(bin)) == binary_length(*old(bin)) + 2,
{
    bin.add_word(word)
}

/// `Binary::add_instruction` appends the opcode of the instruction as
/// `add_word` appends a word, and returns `Ok` as it does.
#[verifier::external_body]
pub(crate) fn binary_add_instruction(bin: &mut ch8_isa::codegen::Binary, instr: &IsaInstr) -> (res:
    Result<(), ch8_isa::error::BinaryError>)
    requires
        binary_length(*old(bin)) < 0xFFFE,
    ensures
        res is Ok,
        binary_bytes(*final(bin)) == binary_bytes(*old(bin)) + word_bytes(opcode(instr.source())),
        binary_length(*final(bin)) == binary_length(*old(bin)) + 2,
{
    bin.add_instruction(&instr.isa)
}

/// `BinaryError::get_type`, in this crate's own type.
#[verifier::external_body]
pub(crate) fn binary_error_type(error: &ch8_isa::error::BinaryError) -> EncodeErrorType {
    match error.get_type() {
        ch8_isa::error::BinaryErrorType::FileExists => EncodeErrorType::FileExists,
        ch8_isa::error::BinaryErrorType::DataError => EncodeErrorType::DataError,
        ch8_isa::error::BinaryErrorType::FileError => EncodeErrorType::FileError,
    }
}

/// `BinaryError::get_binary_name`, as a string of its own.
#[verifier::external_body]
pub(crate) fn binary_error_name(error: &ch8_isa::error::BinaryError) -> String {
    error.get_binary_name().to_string()
}

/// The two bytes of a word, the high byte first.
pub open spec fn word_bytes(word: u16) -> Seq<u8> {
    seq![(word >> 8) as u8, (word & 0xFF) as u8]
}

/// The register of `ch8_isa` that stands for `reg`.
#[verifier::external_body]
pub(crate) fn isa_reg(reg: Reg) -> (out: IsaReg)
    ensures
        out.reg() == reg,
{
    let isa = match reg {
        Reg::V0 => Register::V0, Reg::V1 => Register::V1, Reg::V2 => Register::V2,
        Reg::V3 => Register::V3, Reg::V4 => Register::V4, Reg::V5 => Register::V5,
        Reg::V6 => Register::V6, Reg::V7 => Register::V7, Reg::V8 => Register::V8,
        Reg::V9 => Register::V9, Reg::VA => Register::VA, Reg::VB => Register::VB,
        Reg::VC => Register::VC, Reg::VD => Register::VD, Reg::VE => Register::VE,
        Reg::VF => Register::VF, Reg::I => Register::I,
    };
    IsaReg { reg, isa }
}

/// `Instruction::CLS`.
#[verifier::external_body]
pub(crate) fn isa_cls() -> (out: IsaInstr)
    ensures
        out.source() == Instr::CLS,
{
    IsaInstr { source: Instr::CLS, isa: ch8_isa::codegen::Instruction::CLS }
}

/// `Instruction::RET`.
#[verifier::external_body]
pub(crate) fn isa_ret() -> (out: IsaInstr)
    ensures
        out.source() == Instr::RET,
{
    IsaInstr { source: Instr::RET, isa: ch8_isa::codegen::Instruction::RET }
}

/// `JmpData::new` takes any address.
#[verifier::external_body]
pub(crate) fn isa_jmp(addr: u16) -> (out: IsaInstr)
    ensures
        out.source() == Instr::JMP(addr),
{
    let data = ch8_isa::data::JmpData::new(addr);
    IsaInstr { source: Instr::JMP(addr), isa: ch8_isa::codegen::Instruction::JMP(data) }
}

/// `CallData::new` takes any address.
#[verifier::external_body]
pub(crate) fn isa_call(addr: u16) -> (out: IsaInstr)
    ensures
        out.source() == Instr::CALL(addr),
{
    let data = ch8_isa::data::CallData::new(addr);
    IsaInstr { source: Instr::CALL(addr), isa: ch8_isa::codegen::Instruction::CALL(data) }
}

/// `JpcData::new` takes any address.
#[verifier::external_body]
pub(crate) fn isa_jpc(addr: u16) -> (out: IsaInstr)
    ensures
        out.source() == Instr::JPC(addr),
{
    let data = ch8_isa::data::JpcData::new(addr);
    IsaInstr { source: Instr::JPC(addr), isa: ch8_isa::codegen::Instruction::JPC(data) }
}

/// `SkipData::with_register` panics on a key condition and on the
/// index register.
#[verifier::external_body]
pub(crate) fn isa_skip_register(vx: IsaReg, vy: IsaReg, kind: SkipType) -> (out: IsaInstr)
    requires
        vx.reg() != Reg::I,
        vy.reg() != Reg::I,
        kind == SkipType::Equals || kind == SkipType::NotEquals,
    ensures
        out.source() == Instr::SKIP(SkipData::Register { vx: vx.reg(), vy: vy.reg(), kind }),
{
    let source = Instr::SKIP(SkipData::Register { vx: vx.reg, vy: vy.reg, kind });
    let cond = match kind {
        SkipType::Equals => ch8_isa::data::SkipType::Equals,
        SkipType::NotEquals => ch8_isa::data::SkipType::NotEquals,
        SkipType::KeyDown => ch8_isa::data::SkipType::KeyDown,
        SkipType::KeyUp => ch8_isa::data::SkipType::KeyUp,
    };
    let data = ch8_isa::data::SkipData::with_register(vx.isa, vy.isa, cond);
    IsaInstr { source, isa: ch8_isa::codegen::Instruction::SKIP(data) }
}

/// `SkipData::with_constant` panics on a key condition and on the
/// index register.
#[verifier::external_body]
pub(crate) fn isa_skip_constant(vx: IsaReg, nn: u8, kind: SkipType) -> (out: IsaInstr)
    requires
        vx.reg() != Reg::I,
        kind == SkipType::Equals || kind == SkipType::NotEquals,
    ensures
        out.source() == Instr::SKIP(SkipData::Constant { vx: vx.reg(), nn, kind }),
{
    let source = Instr::SKIP(SkipData::Constant { vx: vx.reg, nn, kind });
    let cond = match kind {
        SkipType::Equals => ch8_isa::data::SkipType::Equals,
        SkipType::NotEquals => ch8_isa::data::SkipType::NotEquals,
        SkipType::KeyDown => ch8_isa::data::SkipType::KeyDown,
        SkipType::KeyUp => ch8_isa::data::SkipType::KeyUp,
    };
    let data = ch8_isa::data::SkipData::with_constant(vx.isa, nn, cond);
    IsaInstr { source, isa: ch8_isa::codegen::Instruction::SKIP(data) }
}

/// `SkipData::with_key` panics on a comparison and on the index
/// register.
#[verifier::external_body]
pub(crate) fn isa_skip_key(vx: IsaReg, kind: SkipType) -> (out: IsaInstr)
    requires
        vx.reg() != Reg::I,
        kind == SkipType::KeyDown || kind == SkipType::KeyUp,
    ensures
        out.source() == Instr::SKIP(SkipData::Key { vx: vx.reg(), kind }),
{
    let source = Instr::SKIP(SkipData::Key { vx: vx.reg, kind });
    let cond = match kind {
        SkipType::Equals => ch8_isa::data::SkipType::Equals,
        SkipType::NotEquals => ch8_isa::data::SkipType::NotEquals,
        SkipType::KeyDown => ch8_isa::data::SkipType::KeyDown,
        SkipType::KeyUp => ch8_isa::data::SkipType::KeyUp,
    };
    let data = ch8_isa::data::SkipData::with_key(vx.isa, cond);
    IsaInstr { source, isa: ch8_isa::codegen::Instruction::SKIP(data) }
}

/// `MovData::with_register` panics if either register is the index
/// register.
#[verifier::external_body]
pub(crate) fn isa_mov_register(dest: IsaReg, src: IsaReg) -> (out: IsaInstr)
    requires
        dest.reg() != Reg::I,
        src.reg() != Reg::I,
    ensures
        out.source() == Instr::MOV(MovData::Register { dest: dest.reg(), src: src.reg() }),
{
    let source = Instr::MOV(MovData::Register { dest: dest.reg, src: src.reg });
    let data = ch8_isa::data::MovData::with_register(dest.isa, src.isa);
    IsaInstr { source, isa: ch8_isa::codegen::Instruction::MOV(data) }
}

/// `MovData::with_constant` takes any register and any value.
#[verifier::external_body]
pub(crate) fn isa_mov_constant(dest: IsaReg, value: u16) -> (out: IsaInstr)
    ensures
        out.source() == Instr::MOV(MovData::Constant { dest: dest.reg(), value }),
{
    let source = Instr::MOV(MovData::Constant { dest: dest.reg, value });
    let data = ch8_isa::data::MovData::with_constant(dest.isa, value);
    IsaInstr { source, isa: ch8_isa::codegen::Instruction::MOV(data) }
}

/// `AddData::with_register` panics if the second register is the index
/// register.
#[verifier::external_body]
pub(crate) fn isa_add_register(first: IsaReg, second: IsaReg) -> (out: IsaInstr)
    requires
        second.reg() != Reg::I,
    ensures
        out.source() == Instr::ADD(AddData::Register { first: first.reg(), second: second.reg() }),
{
    let source = Instr::ADD(AddData::Register { first: first.reg, second: second.reg });
    let data = ch8_isa::data::AddData::with_register(first.isa, second.isa);
    IsaInstr { source, isa: ch8_isa::codegen::Instruction::ADD(data) }
}

/// `AddData::with_constant` panics if the register is the index
/// register.
#[verifier::external_body]
pub(crate) fn isa_add_constant(first: IsaReg, value: u16) -> (out: IsaInstr)
    requires
        first.reg() != Reg::I,
    ensures
        out.source() == Instr::ADD(AddData::Constant { first: first.reg(), value }),
{
    let source = Instr::ADD(AddData::Constant { first: first.reg, value });
    let data = ch8_isa::data::AddData::with_constant(first.isa, value);
    IsaInstr { source, isa: ch8_isa::codegen::Instruction::ADD(data) }
}

/// `OrData::new` panics if either register is the index register.
#[verifier::external_body]
pub(crate) fn isa_or(vx: IsaReg, vy: IsaReg) -> (out: IsaInstr)
    requires
        vx.reg() != Reg::I,
        vy.reg() != Reg::I,
    ensures
        out.source() == Instr::OR(PairData { vx: vx.reg(), vy: vy.reg() }),
{
    let source = Instr::OR(PairData { vx: vx.reg, vy: vy.reg });
    let data = ch8_isa::data::OrData::new(vx.isa, vy.isa);
    IsaInstr { source, isa: ch8_isa::codegen::Instruction::OR(data) }
}

/// `AndData::new` panics if either register is the index register.
#[verifier::external_body]
pub(crate) fn isa_and(vx: IsaReg, vy: IsaReg) -> (out: IsaInstr)
    requires
        vx.reg() != Reg::I,
        vy.reg() != Reg::I,
    ensures
        out.source() == Instr::AND(PairData { vx: vx.reg(), vy: vy.reg() }),
{
    let source = Instr::AND(PairData { vx: vx.reg, vy: vy.reg });
    let data = ch8_isa::data::AndData::new(vx.isa, vy.isa);
    IsaInstr { source, isa: ch8_isa::codegen::Instruction::AND(data) }
}

/// `XorData::new` panics if either register is the index register.
#[verifier::external_body]
pub(crate) fn isa_xor(vx: IsaReg, vy: IsaReg) -> (out: IsaInstr)
    requires
        vx.reg() != Reg::I,
        vy.reg() != Reg::I,
    ensures
        out.source() == Instr::XOR(PairData { vx: vx.reg(), vy: vy.reg() }),
{
    let source = Instr::XOR(PairData { vx: vx.reg, vy: vy.reg });
    let data = ch8_isa::data::XorData::new(vx.isa, vy.isa);
    IsaInstr { source, isa: ch8_isa::codegen::Instruction::XOR(data) }
}

/// `SubData::new` panics if either register is the index register.
#[verifier::external_body]
pub(crate) fn isa_sub(vx: IsaReg, vy: IsaReg) -> (out: IsaInstr)
    requires
        vx.reg() != Reg::I,
        vy.reg() != Reg::I,
    ensures
        out.source() == Instr::SUB(PairData { vx: vx.reg(), vy: vy.reg() }),
{
    let source = Instr::SUB(PairData { vx: vx.reg, vy: vy.reg });
    let data = ch8_isa::data::SubData::new(vx.isa, vy.isa);
    IsaInstr { source, isa: ch8_isa::codegen::Instruction::SUB(data) }
}

/// `SubnData::new` panics if either register is the index register.
#[verifier::external_body]
pub(crate) fn isa_subn(vx: IsaReg, vy: IsaReg) -> (out: IsaInstr)
    requires
        vx.reg() != Reg::I,
        vy.reg() != Reg::I,
    ensures
        out.source() == Instr::SUBN(PairData { vx: vx.reg(), vy: vy.reg() }),
{
    let source = Instr::SUBN(PairData { vx: vx.reg, vy: vy.reg });
    let data = ch8_isa::data::SubnData::new(vx.isa, vy.isa);
    IsaInstr { source, isa: ch8_isa::codegen::Instruction::SUBN(data) }
}

/// `ShrData::new` panics on the index register.
#[verifier::external_body]
pub(crate) fn isa_shr(vx: IsaReg) -> (out: IsaInstr)
    requires
        vx.reg() != Reg::I,
    ensures
        out.source() == Instr::SHR(vx.reg()),
{
    let data = ch8_isa::data::ShrData::new(vx.isa);
    IsaInstr { source: Instr::SHR(vx.reg), isa: ch8_isa::codegen::Instruction::SHR(data) }
}

/// `ShlData::new` panics on the index register.
#[verifier::external_body]
pub(crate) fn isa_shl(vx: IsaReg) -> (out: IsaInstr)
    requires
        vx.reg() != Reg::I,
    ensures
        out.source() == Instr::SHL(vx.reg()),
{
    let data = ch8_isa::data::ShlData::new(vx.isa);
    IsaInstr { source: Instr::SHL(vx.reg), isa: ch8_isa::codegen::Instruction::SHL(data) }
}

/// `RandData::new` panics on the index register.
#[verifier::external_body]
pub(crate) fn isa_rand(vx: IsaReg, nn: u8) -> (out: IsaInstr)
    requires
        vx.reg() != Reg::I,
    ensures
        out.source() == Instr::RAND(RandData { vx: vx.reg(), nn }),
{
    let source = Instr::RAND(RandData { vx: vx.reg, nn });
    let data = ch8_isa::data::RandData::new(vx.isa, nn);
    IsaInstr { source, isa: ch8_isa::codegen::Instruction::RAND(data) }
}

/// `DrawData::new` panics if either register is the index register.
#[verifier::external_body]
pub(crate) fn isa_draw(vx: IsaReg, vy: IsaReg, h: u8) -> (out: IsaInstr)
    requires
        vx.reg() != Reg::I,
        vy.reg() != Reg::I,
    ensures
        out.source() == Instr::DRAW(DrawData { vx: vx.reg(), vy: vy.reg(), h }),
{
    let source = Instr::DRAW(DrawData { vx: vx.reg, vy: vy.reg, h });
    let data = ch8_isa::data::DrawData::new(vx.isa, vy.isa, h);
    IsaInstr { source, isa: ch8_isa::codegen::Instruction::DRAW(data) }
}

/// `GdlData::new` panics on the index register.
#[verifier::external_body]
pub(crate) fn isa_gdl(vx: IsaReg) -> (out: IsaInstr)
    requires
        vx.reg() != Reg::I,
    ensures
        out.source() == Instr::GDL(vx.reg()),
{
    let data = ch8_isa::data::GdlData::new(vx.isa);
    IsaInstr { source: Instr::GDL(vx.reg), isa: ch8_isa::codegen::Instruction::GDL(data) }
}

/// `KeyData::new` panics on the index register.
#[verifier::external_body]
pub(crate) fn isa_key(vx: IsaReg) -> (out: IsaInstr)
    requires
        vx.reg() != Reg::I,
    ensures
        out.source() == Instr::KEY(vx.reg()),
{
    let data = ch8_isa::data::KeyData::new(vx.isa);
    IsaInstr { source: Instr::KEY(vx.reg), isa: ch8_isa::codegen::Instruction::KEY(data) }
}

/// `SdlData::new` panics on the index register.
#[verifier::external_body]
pub(crate) fn isa_sdl(vx: IsaReg) -> (out: IsaInstr)
    requires
        vx.reg() != Reg::I,
    ensures
        out.source() == Instr::SDL(vx.reg()),
{
    let data = ch8_isa::data::SdlData::new(vx.isa);
    IsaInstr { source: Instr::SDL(vx.reg), isa: ch8_isa::codegen::Instruction::SDL(data) }
}

/// `SndData::new` panics on the index register.
#[verifier::external_body]
pub(crate) fn isa_snd(vx: IsaReg) -> (out: IsaInstr)
    requires
        vx.reg() != Reg::I,
    ensures
        out.source() == Instr::SND(vx.reg()),
{
    let data = ch8_isa::data::SndData::new(vx.isa);
    IsaInstr { source: Instr::SND(vx.reg), isa: ch8_isa::codegen::Instruction::SND(data) }
}

/// `SchData::new` panics on the index register.
#[verifier::external_body]
pub(crate) fn isa_sch(vx: IsaReg) -> (out: IsaInstr)
    requires
        vx.reg() != Reg::I,
    ensures
        out.source() == Instr::SCH(vx.reg()),
{
    let data = ch8_isa::data::SchData::new(vx.isa);
    IsaInstr { source: Instr::SCH(vx.reg), isa: ch8_isa::codegen::Instruction::SCH(data) }
}

/// `BcdData::new` panics on the index register.
#[verifier::external_body]
pub(crate) fn isa_bcd(vx: IsaReg) -> (out: IsaInstr)
    requires
        vx.reg() != Reg::I,
    ensures
        out.source() == Instr::BCD(vx.reg()),
{
    let data = ch8_isa::data::BcdData::new(vx.isa);
    IsaInstr { source: Instr::BCD(vx.reg), isa: ch8_isa::codegen::Instruction::BCD(data) }
}

/// `RdpData::new` panics on the index register.
#[verifier::external_body]
pub(crate) fn isa_rdp(vx: IsaReg) -> (out: IsaInstr)
    requires
        vx.reg() != Reg::I,
    ensures
        out.source() == Instr::RDP(vx.reg()),
{
    let data = ch8_isa::data::RdpData::new(vx.isa);
    IsaInstr { source: Instr::RDP(vx.reg), isa: ch8_isa::codegen::Instruction::RDP(data) }
}

/// `RldData::new` panics on the index register.
#[verifier::external_body]
pub(crate) fn isa_rld(vx: IsaReg) -> (out: IsaInstr)
    requires
        vx.reg() != Reg::I,
    ensures
        out.source() == Instr::RLD(vx.reg()),
{
    let data = ch8_isa::data::RldData::new(vx.isa);
    IsaInstr { source: Instr::RLD(vx.reg), isa: ch8_isa::codegen::Instruction::RLD(data) }
}

/// A skip in the code generator's form.
fn encode_skip(data: SkipData) -> (out: IsaInstr)
    requires
        data.legal(),
    ensures
        out.source() == Instr::SKIP(data),
{
    match data {
        SkipData::Register { vx, vy, kind } => isa_skip_register(isa_reg(vx), isa_reg(vy), kind),
        SkipData::Constant { vx, nn, kind } => isa_skip_constant(isa_reg(vx), nn, kind),
        SkipData::Key { vx, kind } => isa_skip_key(isa_reg(vx), kind),
    }
}

/// A move in the code generator's form.
fn encode_mov(data: MovData) -> (out: IsaInstr)
    requires
        data.legal(),
    ensures
        out.source() == Instr::MOV(data),
{
    match data {
        MovData::Register { dest, src } => isa_mov_register(isa_reg(dest), isa_reg(src)),
        MovData::Constant { dest, value } => isa_mov_constant(isa_reg(dest), value),
    }
}

/// An addition in the code generator's form.
fn encode_add(data: AddData) -> (out: IsaInstr)
    requires
        data.legal(),
    ensures
        out.source() == Instr::ADD(data),
{
    match data {
        AddData::Register { first, second } => isa_add_register(isa_reg(first), isa_reg(second)),
        AddData::Constant { first, value } => isa_add_constant(isa_reg(first), value),
    }
}

/// An instruction on one register, or `CLS`, in the code generator's
/// form.
fn encode_unary(instr: &Instr) -> (out: IsaInstr)
    requires
        instr.legal(),
        instr.is_unary() || *instr == Instr::CLS,
    ensures
        out.source() == *instr,
{
    match *instr {
        Instr::SHR(vx) => isa_shr(isa_reg(vx)),
        Instr::SHL(vx) => isa_shl(isa_reg(vx)),
        Instr::GDL(vx) => isa_gdl(isa_reg(vx)),
        Instr::KEY(vx) => isa_key(isa_reg(vx)),
        Instr::SDL(vx) => isa_sdl(isa_reg(vx)),
        Instr::SND(vx) => isa_snd(isa_reg(vx)),
        Instr::SCH(vx) => isa_sch(isa_reg(vx)),
        Instr::BCD(vx) => isa_bcd(isa_reg(vx)),
        Instr::RDP(vx) => isa_rdp(isa_reg(vx)),
        Instr::RLD(vx) => isa_rld(isa_reg(vx)),
        _ => isa_cls(),
    }
}

/// An instruction on two registers, on one, or `CLS`, in the code
/// generator's form.
fn encode_binary(instr: &Instr) -> (out: IsaInstr)
    requires
        instr.legal(),
        instr.is_binary() || instr.is_unary() || *instr == Instr::CLS,
    ensures
        out.source() == *instr,
{
    match *instr {
        Instr::OR(pair) => isa_or(isa_reg(pair.vx), isa_reg(pair.vy)),
        Instr::AND(pair) => isa_and(isa_reg(pair.vx), isa_reg(pair.vy)),
        Instr::XOR(pair) => isa_xor(isa_reg(pair.vx), isa_reg(pair.vy)),
        Instr::SUB(pair) => isa_sub(isa_reg(pair.vx), isa_reg(pair.vy)),
        Instr::SUBN(pair) => isa_subn(isa_reg(pair.vx), isa_reg(pair.vy)),
        _ => encode_unary(instr),
    }
}

/// The instruction in the code generator's form.
pub(crate) fn encode(instr: &Instr) -> (out: IsaInstr)
    requires
        instr.legal(),
    ensures
        out.source() == *instr,
{
    match *instr {
        Instr::RET => isa_ret(),
        Instr::JMP(addr) => isa_jmp(addr),
        Instr::CALL(addr) => isa_call(addr),
        Instr::JPC(addr) => isa_jpc(addr),
        Instr::SKIP(data) => encode_skip(data),
        Instr::MOV(data) => encode_mov(data),
        Instr::ADD(data) => encode_add(data),
        Instr::RAND(data) => isa_rand(isa_reg(data.vx), data.nn),
        Instr::DRAW(data) => isa_draw(isa_reg(data.vx), isa_reg(data.vy), data.h),
        _ => encode_binary(instr),
    }
}

} // verus!

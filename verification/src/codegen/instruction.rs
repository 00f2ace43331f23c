//! Abstract instructions: what the parser hands to the code generator.
//!
//! Every value here is plain data. An instruction holds its operands as
//! the parser read them; `Instr::legal` says which combinations the
//! code generator accepts.

use vstd::prelude::*;

verus! {

/// A register of the machine: sixteen general registers and the index register.
#[derive(Clone, Copy, PartialEq, Eq, Structural, Debug)]
pub enum Reg {
    V0,
    V1,
    V2,
    V3,
    V4,
    V5,
    V6,
    V7,
    V8,
    V9,
    VA,
    VB,
    VC,
    VD,
    VE,
    VF,
    /// The index register
    I,
}

impl Reg {
    /// The general register with the given number; numbers above 15 are
    /// taken modulo 16.
    #[verifier::allow_in_spec]
    pub fn general(n: u8) -> Reg
        returns
            match n % 16 {
                0 => Reg::V0,
                1 => Reg::V1,
                2 => Reg::V2,
                3 => Reg::V3,
                4 => Reg::V4,
                5 => Reg::V5,
                6 => Reg::V6,
                7 => Reg::V7,
                8 => Reg::V8,
                9 => Reg::V9,
                10 => Reg::VA,
                11 => Reg::VB,
                12 => Reg::VC,
                13 => Reg::VD,
                14 => Reg::VE,
                _ => Reg::VF,
            },
    {
        match n % 16 {
            0 => Reg::V0,
            1 => Reg::V1,
            2 => Reg::V2,
            3 => Reg::V3,
            4 => Reg::V4,
            5 => Reg::V5,
            6 => Reg::V6,
            7 => Reg::V7,
            8 => Reg::V8,
            9 => Reg::V9,
            10 => Reg::VA,
            11 => Reg::VB,
            12 => Reg::VC,
            13 => Reg::VD,
            14 => Reg::VE,
            _ => Reg::VF,
        }
    }

    /// The name of the register, as diagnostics give it.
    pub open spec fn name(self) -> Seq<char> {
        match self {
            Reg::V0 => "V0"@,
            Reg::V1 => "V1"@,
            Reg::V2 => "V2"@,
            Reg::V3 => "V3"@,
            Reg::V4 => "V4"@,
            Reg::V5 => "V5"@,
            Reg::V6 => "V6"@,
            Reg::V7 => "V7"@,
            Reg::V8 => "V8"@,
            Reg::V9 => "V9"@,
            Reg::VA => "VA"@,
            Reg::VB => "VB"@,
            Reg::VC => "VC"@,
            Reg::VD => "VD"@,
            Reg::VE => "VE"@,
            Reg::VF => "VF"@,
            Reg::I => "I"@,
        }
    }

    /// Gets the name of the register
    pub fn get_name(&self) -> (name: &str)
        ensures
            name@ == self.name(),
    {
        match *self {
            Reg::V0 => "V0",
            Reg::V1 => "V1",
            Reg::V2 => "V2",
            Reg::V3 => "V3",
            Reg::V4 => "V4",
            Reg::V5 => "V5",
            Reg::V6 => "V6",
            Reg::V7 => "V7",
            Reg::V8 => "V8",
            Reg::V9 => "V9",
            Reg::VA => "VA",
            Reg::VB => "VB",
            Reg::VC => "VC",
            Reg::VD => "VD",
            Reg::VE => "VE",
            Reg::VF => "VF",
            Reg::I => "I",
        }
    }

    /// Whether this is the index register.
    #[verifier::allow_in_spec]
    pub fn is_index(self) -> bool
        returns
            self == Reg::I,
    {
        self == Reg::I
    }
}

/// The condition of a `SKIP` instruction.
#[derive(Clone, Copy, PartialEq, Eq, Structural, Debug)]
pub enum SkipType {
    /// Skip when the two operands are equal
    Equals,
    /// Skip when the two operands differ
    NotEquals,
    /// Skip when the key named by the register is pressed
    KeyDown,
    /// Skip when the key named by the register is released
    KeyUp,
}

impl SkipType {
    /// The name of the condition, as diagnostics give it.
    pub open spec fn name(self) -> Seq<char> {
        match self {
            SkipType::Equals => "Equals"@,
            SkipType::NotEquals => "NotEquals"@,
            SkipType::KeyDown => "KeyDown"@,
            SkipType::KeyUp => "KeyUp"@,
        }
    }

    /// Gets the name of the condition
    pub fn get_name(&self) -> (name: &str)
        ensures
            name@ == self.name(),
    {
        match *self {
            SkipType::Equals => "Equals",
            SkipType::NotEquals => "NotEquals",
            SkipType::KeyDown => "KeyDown",
            SkipType::KeyUp => "KeyUp",
        }
    }

    /// Whether the condition tests a key rather than compares two operands.
    #[verifier::allow_in_spec]
    pub fn is_key(self) -> bool
        returns
            self == SkipType::KeyDown || self == SkipType::KeyUp,
    {
        self == SkipType::KeyDown || self == SkipType::KeyUp
    }
}

/// The operands of a `SKIP` instruction.
#[derive(Clone, Copy, PartialEq, Eq, Structural, Debug)]
pub enum SkipData {
    /// Compare two registers
    Register { vx: Reg, vy: Reg, kind: SkipType },
    /// Compare a register with a constant
    Constant { vx: Reg, nn: u8, kind: SkipType },
    /// Test the key named by a register
    Key { vx: Reg, kind: SkipType },
}

/// The operands of a `MOV` instruction.
#[derive(Clone, Copy, PartialEq, Eq, Structural, Debug)]
pub enum MovData {
    /// Copy one general register into another
    Register { dest: Reg, src: Reg },
    /// Load a constant or an address into a register
    Constant { dest: Reg, value: u16 },
}

/// The operands of an `ADD` instruction.
#[derive(Clone, Copy, PartialEq, Eq, Structural, Debug)]
pub enum AddData {
    /// Add a general register to a register
    Register { first: Reg, second: Reg },
    /// Add a constant to a general register
    Constant { first: Reg, value: u16 },
}

/// Two register operands.
#[derive(Clone, Copy, PartialEq, Eq, Structural, Debug)]
pub struct PairData {
    pub vx: Reg,
    pub vy: Reg,
}

/// The operands of a `RAND` instruction: a register and an eight-bit limit.
#[derive(Clone, Copy, PartialEq, Eq, Structural, Debug)]
pub struct RandData {
    pub vx: Reg,
    pub nn: u8,
}

/// The operands of a `DRAW` instruction: two coordinate registers and a
/// four-bit height.
#[derive(Clone, Copy, PartialEq, Eq, Structural, Debug)]
pub struct DrawData {
    pub vx: Reg,
    pub vy: Reg,
    pub h: u8,
}

/// One instruction with its operands.
#[derive(Clone, Copy, PartialEq, Eq, Structural, Debug)]
pub enum Instr {
    /// Clears the screen
    CLS,
    /// Returns from a subroutine
    RET,
    /// Jumps to an address
    JMP(u16),
    /// Calls the subroutine at an address
    CALL(u16),
    /// Skips the next instruction if a condition holds
    SKIP(SkipData),
    /// Loads a register
    MOV(MovData),
    /// Adds to a register
    ADD(AddData),
    /// Bitwise OR of two registers
    OR(PairData),
    /// Bitwise AND of two registers
    AND(PairData),
    /// Bitwise XOR of two registers
    XOR(PairData),
    /// Subtracts the second register from the first
    SUB(PairData),
    /// Shifts a register right by one bit
    SHR(Reg),
    /// Subtracts the first register from the second
    SUBN(PairData),
    /// Shifts a register left by one bit
    SHL(Reg),
    /// Jumps to an address plus `V0`
    JPC(u16),
    /// Stores a random byte, masked by a limit, in a register
    RAND(RandData),
    /// Draws a sprite
    DRAW(DrawData),
    /// Reads the delay timer into a register
    GDL(Reg),
    /// Waits for a key and stores it in a register
    KEY(Reg),
    /// Sets the delay timer from a register
    SDL(Reg),
    /// Sets the sound timer from a register
    SND(Reg),
    /// Points the index register at the glyph for a register's value
    SCH(Reg),
    /// Stores the decimal digits of a register in memory
    BCD(Reg),
    /// Dumps the registers up to the given one into memory
    RDP(Reg),
    /// Loads the registers up to the given one from memory
    RLD(Reg),
}

/// One thing that the assembler emits: an instruction, or a byte or a
/// word of data.
#[derive(Clone, Copy, PartialEq, Eq, Structural, Debug)]
pub enum Item {
    Instruction(Instr),
    Byte(u8),
    Word(u16),
}

impl SkipData {
    /// A comparison takes two operands, neither of them the index
    /// register; a key test takes one general register.
    pub open spec fn legal(self) -> bool {
        match self {
            SkipData::Register { vx, vy, kind } => vx != Reg::I && vy != Reg::I && !kind.is_key(),
            SkipData::Constant { vx, nn, kind } => vx != Reg::I && !kind.is_key(),
            SkipData::Key { vx, kind } => vx != Reg::I && kind.is_key(),
        }
    }
}

impl MovData {
    /// A register copy involves general registers only; a constant may
    /// go to any register.
    pub open spec fn legal(self) -> bool {
        match self {
            MovData::Register { dest, src } => dest != Reg::I && src != Reg::I,
            MovData::Constant { dest, value } => true,
        }
    }
}

impl AddData {
    /// The index register may be added to, but only from a general
    /// register; a constant is added to a general register only.
    pub open spec fn legal(self) -> bool {
        match self {
            AddData::Register { first, second } => second != Reg::I,
            AddData::Constant { first, value } => first != Reg::I,
        }
    }
}

impl PairData {
    /// Both operands are general registers.
    pub open spec fn legal(self) -> bool {
        self.vx != Reg::I && self.vy != Reg::I
    }
}

impl Instr {
    /// Whether the instruction takes one general register and nothing
    /// else.
    pub open spec fn is_unary(self) -> bool {
        self is SHR || self is SHL || self is GDL || self is KEY || self is SDL || self is SND
            || self is SCH || self is BCD || self is RDP || self is RLD
    }

    /// Whether the instruction takes two general registers and nothing
    /// else.
    pub open spec fn is_binary(self) -> bool {
        self is OR || self is AND || self is XOR || self is SUB || self is SUBN
    }

    /// Whether the operands obey the rules of the instruction: wherever
    /// an instruction takes a general register, the index register is
    /// not allowed.
    pub open spec fn legal(self) -> bool {
        match self {
            Instr::CLS => true,
            Instr::RET => true,
            Instr::JMP(_) => true,
            Instr::CALL(_) => true,
            Instr::JPC(_) => true,
            Instr::SKIP(d) => d.legal(),
            Instr::MOV(d) => d.legal(),
            Instr::ADD(d) => d.legal(),
            Instr::OR(d) => d.legal(),
            Instr::AND(d) => d.legal(),
            Instr::XOR(d) => d.legal(),
            Instr::SUB(d) => d.legal(),
            Instr::SUBN(d) => d.legal(),
            Instr::RAND(d) => d.vx != Reg::I,
            Instr::DRAW(d) => d.vx != Reg::I && d.vy != Reg::I,
            Instr::SHR(r) => r != Reg::I,
            Instr::SHL(r) => r != Reg::I,
            Instr::GDL(r) => r != Reg::I,
            Instr::KEY(r) => r != Reg::I,
            Instr::SDL(r) => r != Reg::I,
            Instr::SND(r) => r != Reg::I,
            Instr::SCH(r) => r != Reg::I,
            Instr::BCD(r) => r != Reg::I,
            Instr::RDP(r) => r != Reg::I,
            Instr::RLD(r) => r != Reg::I,
        }
    }
}

impl Item {
    /// Whether the item is data or an instruction with legal operands.
    pub open spec fn legal(self) -> bool {
        match self {
            Item::Instruction(instr) => instr.legal(),
            _ => true,
        }
    }
}

} // verus!

//! The mnemonics of the assembly language.

use super::instruction::{Instr, PairData, Reg};
use crate::util::text::is_word;
use vstd::prelude::*;

verus! {

/// The name of an instruction.
#[derive(Clone, Copy, PartialEq, Eq, Structural, Debug)]
pub enum Mnemonic {
    CLS,
    RET,
    JMP,
    CALL,
    JPC,
    SKIP,
    MOV,
    ADD,
    RAND,
    DRAW,
    OR,
    AND,
    XOR,
    SUB,
    SUBN,
    SHR,
    SHL,
    GDL,
    KEY,
    SDL,
    SND,
    SCH,
    BCD,
    RDP,
    RLD,
}

impl Mnemonic {
    /// The mnemonic as it is written, in upper case.
    pub open spec fn name(self) -> Seq<char> {
        match self {
            Mnemonic::CLS => "CLS"@,
            Mnemonic::RET => "RET"@,
            Mnemonic::JMP => "JMP"@,
            Mnemonic::CALL => "CALL"@,
            Mnemonic::JPC => "JPC"@,
            Mnemonic::SKIP => "SKIP"@,
            Mnemonic::MOV => "MOV"@,
            Mnemonic::ADD => "ADD"@,
            Mnemonic::RAND => "RAND"@,
            Mnemonic::DRAW => "DRAW"@,
            Mnemonic::OR => "OR"@,
            Mnemonic::AND => "AND"@,
            Mnemonic::XOR => "XOR"@,
            Mnemonic::SUB => "SUB"@,
            Mnemonic::SUBN => "SUBN"@,
            Mnemonic::SHR => "SHR"@,
            Mnemonic::SHL => "SHL"@,
            Mnemonic::GDL => "GDL"@,
            Mnemonic::KEY => "KEY"@,
            Mnemonic::SDL => "SDL"@,
            Mnemonic::SND => "SND"@,
            Mnemonic::SCH => "SCH"@,
            Mnemonic::BCD => "BCD"@,
            Mnemonic::RDP => "RDP"@,
            Mnemonic::RLD => "RLD"@,
        }
    }

    /// Whether the instruction takes an address and nothing else.
    #[verifier::allow_in_spec]
    pub fn is_jump(self) -> bool
        returns
            self == Mnemonic::JMP || self == Mnemonic::CALL || self == Mnemonic::JPC,
    {
        self == Mnemonic::JMP || self == Mnemonic::CALL || self == Mnemonic::JPC
    }

    /// Whether the instruction takes two general registers and nothing
    /// else.
    #[verifier::allow_in_spec]
    pub fn is_binary(self) -> bool
        returns
            self == Mnemonic::OR || self == Mnemonic::AND || self == Mnemonic::XOR || self
                == Mnemonic::SUB || self == Mnemonic::SUBN,
    {
        self == Mnemonic::OR || self == Mnemonic::AND || self == Mnemonic::XOR || self
            == Mnemonic::SUB || self == Mnemonic::SUBN
    }

    /// Whether the instruction takes one general register and nothing
    /// else.
    #[verifier::allow_in_spec]
    pub fn is_unary(self) -> bool
        returns
            self == Mnemonic::SHR || self == Mnemonic::SHL || self == Mnemonic::GDL || self
                == Mnemonic::KEY || self == Mnemonic::SDL || self == Mnemonic::SND || self
                == Mnemonic::SCH || self == Mnemonic::BCD || self == Mnemonic::RDP || self
                == Mnemonic::RLD,
    {
        self == Mnemonic::SHR || self == Mnemonic::SHL || self == Mnemonic::GDL || self
            == Mnemonic::KEY || self == Mnemonic::SDL || self == Mnemonic::SND || self
            == Mnemonic::SCH || self == Mnemonic::BCD || self == Mnemonic::RDP || self
            == Mnemonic::RLD
    }

    /// Gets the mnemonic as it is written, in upper case.
    pub fn get_name(&self) -> (name: &str)
        ensures
            name@ == self.name(),
    {
        match *self {
            Mnemonic::CLS => "CLS",
            Mnemonic::RET => "RET",
            Mnemonic::JMP => "JMP",
            Mnemonic::CALL => "CALL",
            Mnemonic::JPC => "JPC",
            Mnemonic::SKIP => "SKIP",
            Mnemonic::MOV => "MOV",
            Mnemonic::ADD => "ADD",
            Mnemonic::RAND => "RAND",
            Mnemonic::DRAW => "DRAW",
            Mnemonic::OR => "OR",
            Mnemonic::AND => "AND",
            Mnemonic::XOR => "XOR",
            Mnemonic::SUB => "SUB",
            Mnemonic::SUBN => "SUBN",
            Mnemonic::SHR => "SHR",
            Mnemonic::SHL => "SHL",
            Mnemonic::GDL => "GDL",
            Mnemonic::KEY => "KEY",
            Mnemonic::SDL => "SDL",
            Mnemonic::SND => "SND",
            Mnemonic::SCH => "SCH",
            Mnemonic::BCD => "BCD",
            Mnemonic::RDP => "RDP",
            Mnemonic::RLD => "RLD",
        }
    }

    /// The mnemonic that `word` is, if it is one.
    pub open spec fn of(word: Seq<char>) -> Option<Mnemonic> {
        if word == "CLS"@ {
            Some(Mnemonic::CLS)
        } else if word == "RET"@ {
            Some(Mnemonic::RET)
        } else if word == "JMP"@ {
            Some(Mnemonic::JMP)
        } else if word == "CALL"@ {
            Some(Mnemonic::CALL)
        } else if word == "JPC"@ {
            Some(Mnemonic::JPC)
        } else if word == "SKIP"@ {
            Some(Mnemonic::SKIP)
        } else if word == "MOV"@ {
            Some(Mnemonic::MOV)
        } else if word == "ADD"@ {
            Some(Mnemonic::ADD)
        } else if word == "RAND"@ {
            Some(Mnemonic::RAND)
        } else if word == "DRAW"@ {
            Some(Mnemonic::DRAW)
        } else {
            Self::of_register_operation(word)
        }
    }

    /// The mnemonic that `word` is, if it is one of those that take
    /// registers and nothing else.
    pub open spec fn of_register_operation(word: Seq<char>) -> Option<Mnemonic> {
        if word == "OR"@ {
            Some(Mnemonic::OR)
        } else if word == "AND"@ {
            Some(Mnemonic::AND)
        } else if word == "XOR"@ {
            Some(Mnemonic::XOR)
        } else if word == "SUB"@ {
            Some(Mnemonic::SUB)
        } else if word == "SUBN"@ {
            Some(Mnemonic::SUBN)
        } else if word == "SHR"@ {
            Some(Mnemonic::SHR)
        } else if word == "SHL"@ {
            Some(Mnemonic::SHL)
        } else if word == "GDL"@ {
            Some(Mnemonic::GDL)
        } else if word == "KEY"@ {
            Some(Mnemonic::KEY)
        } else if word == "SDL"@ {
            Some(Mnemonic::SDL)
        } else if word == "SND"@ {
            Some(Mnemonic::SND)
        } else if word == "SCH"@ {
            Some(Mnemonic::SCH)
        } else if word == "BCD"@ {
            Some(Mnemonic::BCD)
        } else if word == "RDP"@ {
            Some(Mnemonic::RDP)
        } else if word == "RLD"@ {
            Some(Mnemonic::RLD)
        } else {
            None
        }
    }

    /// Finds the mnemonic that `word` is, if it is one.
    pub fn parse(word: &String) -> (found: Option<Mnemonic>)
        ensures
            found == Self::of(word@),
    {
        if is_word(word, "CLS") {
            Some(Mnemonic::CLS)
        } else if is_word(word, "RET") {
            Some(Mnemonic::RET)
        } else if is_word(word, "JMP") {
            Some(Mnemonic::JMP)
        } else if is_word(word, "CALL") {
            Some(Mnemonic::CALL)
        } else if is_word(word, "JPC") {
            Some(Mnemonic::JPC)
        } else if is_word(word, "SKIP") {
            Some(Mnemonic::SKIP)
        } else if is_word(word, "MOV") {
            Some(Mnemonic::MOV)
        } else if is_word(word, "ADD") {
            Some(Mnemonic::ADD)
        } else if is_word(word, "RAND") {
            Some(Mnemonic::RAND)
        } else if is_word(word, "DRAW") {
            Some(Mnemonic::DRAW)
        } else {
            Self::parse_register_operation(word)
        }
    }

    /// Finds the mnemonic that `word` is, if it is one of those that
    /// take registers and nothing else.
    fn parse_register_operation(word: &String) -> (found: Option<Mnemonic>)
        ensures
            found == Self::of_register_operation(word@),
    {
        if is_word(word, "OR") {
            Some(Mnemonic::OR)
        } else if is_word(word, "AND") {
            Some(Mnemonic::AND)
        } else if is_word(word, "XOR") {
            Some(Mnemonic::XOR)
        } else if is_word(word, "SUB") {
            Some(Mnemonic::SUB)
        } else if is_word(word, "SUBN") {
            Some(Mnemonic::SUBN)
        } else if is_word(word, "SHR") {
            Some(Mnemonic::SHR)
        } else if is_word(word, "SHL") {
            Some(Mnemonic::SHL)
        } else if is_word(word, "GDL") {
            Some(Mnemonic::GDL)
        } else if is_word(word, "KEY") {
            Some(Mnemonic::KEY)
        } else if is_word(word, "SDL") {
            Some(Mnemonic::SDL)
        } else if is_word(word, "SND") {
            Some(Mnemonic::SND)
        } else if is_word(word, "SCH") {
            Some(Mnemonic::SCH)
        } else if is_word(word, "BCD") {
            Some(Mnemonic::BCD)
        } else if is_word(word, "RDP") {
            Some(Mnemonic::RDP)
        } else if is_word(word, "RLD") {
            Some(Mnemonic::RLD)
        } else {
            None
        }
    }

    /// The jump of this name to the given address; `JPC` for a mnemonic
    /// that is no jump.
    #[verifier::allow_in_spec]
    pub fn jump(self, addr: u16) -> Instr
        returns
            match self {
                Mnemonic::JMP => Instr::JMP(addr),
                Mnemonic::CALL => Instr::CALL(addr),
                _ => Instr::JPC(addr),
            },
    {
        match self {
            Mnemonic::JMP => Instr::JMP(addr),
            Mnemonic::CALL => Instr::CALL(addr),
            _ => Instr::JPC(addr),
        }
    }

    /// The instruction of this name on two registers; `SUBN` for a
    /// mnemonic that takes something else.
    #[verifier::allow_in_spec]
    pub fn binary(self, vx: Reg, vy: Reg) -> Instr
        returns
            match self {
                Mnemonic::OR => Instr::OR(PairData { vx, vy }),
                Mnemonic::AND => Instr::AND(PairData { vx, vy }),
                Mnemonic::XOR => Instr::XOR(PairData { vx, vy }),
                Mnemonic::SUB => Instr::SUB(PairData { vx, vy }),
                _ => Instr::SUBN(PairData { vx, vy }),
            },
    {
        match self {
            Mnemonic::OR => Instr::OR(PairData { vx, vy }),
            Mnemonic::AND => Instr::AND(PairData { vx, vy }),
            Mnemonic::XOR => Instr::XOR(PairData { vx, vy }),
            Mnemonic::SUB => Instr::SUB(PairData { vx, vy }),
            _ => Instr::SUBN(PairData { vx, vy }),
        }
    }

    /// The instruction of this name on one register; `RLD` for a
    /// mnemonic that takes something else.
    #[verifier::allow_in_spec]
    pub fn unary(self, vx: Reg) -> Instr
        returns
            match self {
                Mnemonic::SHR => Instr::SHR(vx),
                Mnemonic::SHL => Instr::SHL(vx),
                Mnemonic::GDL => Instr::GDL(vx),
                Mnemonic::KEY => Instr::KEY(vx),
                Mnemonic::SDL => Instr::SDL(vx),
                Mnemonic::SND => Instr::SND(vx),
                Mnemonic::SCH => Instr::SCH(vx),
                Mnemonic::BCD => Instr::BCD(vx),
                Mnemonic::RDP => Instr::RDP(vx),
                _ => Instr::RLD(vx),
            },
    {
        match self {
            Mnemonic::SHR => Instr::SHR(vx),
            Mnemonic::SHL => Instr::SHL(vx),
            Mnemonic::GDL => Instr::GDL(vx),
            Mnemonic::KEY => Instr::KEY(vx),
            Mnemonic::SDL => Instr::SDL(vx),
            Mnemonic::SND => Instr::SND(vx),
            Mnemonic::SCH => Instr::SCH(vx),
            Mnemonic::BCD => Instr::BCD(vx),
            Mnemonic::RDP => Instr::RDP(vx),
            _ => Instr::RLD(vx),
        }
    }
}

} // verus!

//! Instruction definitions.
//!
//! Every byte decodes to an opcode: the byte is taken modulo the number of
//! opcodes ([`OpCode::COUNT`]). All jumps are executed modulo the program
//! size, so it is impossible to jump out of the program.
#[allow(unused_imports)]
use crate::consts::MachineWord;
use vstd::prelude::*;

verus! {

/// The instructions of the machine, numbered in declaration order.
#[derive(Debug, Clone, Copy, PartialEq, Eq, Structural)]
pub enum OpCode {
    /// Does nothing.
    Nop,
    /// Stop execution.
    Halt,
    /// Push the immediate value encoded in the following `INSTR_PER_WORD` instructions.
    PushImm,
    /// Pop a value from the input and push it onto the stack.
    /// Does nothing if the input is empty.
    PushIn,
    /// Push the value one.
    PushOne,
    /// Push the [`MachineWord`] default value, zero.
    PushZero,
    /// Pop the top value and push it onto the output stack.
    PopOut,
    /// Pop the top two values and push their (wrapping) sum.
    Add,
    /// Pop the top two values and push their (wrapping) difference.
    /// The top value is subtracted from the second one.
    Sub,
    /// Pop the top two values and push their (wrapping) product.
    Mul,
    /// Pop the top two values and push their quotient.
    /// The second value is divided by the top one; a quotient that does not exist is zero.
    Div,
    /// Pop the top two values and push their remainder.
    /// The second value is divided by the top one; a remainder that does not exist is zero.
    ModDiv,
    /// Pop the top two values and push their minimum.
    Min,
    /// Pop the top two values and push their maximum.
    Max,
    /// Pop the top value and push the integer square root of its magnitude.
    Sqrt,
    /// Rounds the top value; does nothing for integer words.
    Round,
    /// Truncates the top value; does nothing for integer words.
    Trunc,
    /// Rounds the top value up; does nothing for integer words.
    Ceil,
    /// Rounds the top value down; does nothing for integer words.
    Floor,
    /// Pop the top value and push its (saturating) negation.
    Neg,
    /// Pop the top value and push its (saturating) absolute value.
    Abs,
    /// Pop the top two values and push them back in reverse order.
    Swap,
    /// Pop the top value and drop it.
    Remove,
    /// Push another copy of the top value.
    Dup,
    /// Jump to the immediate address.
    Jmp,
    /// Jump to the immediate address if the top of the stack is zero.
    /// Does not pop the value.
    JmpZero,
    /// Jump to the immediate address if the top of the stack is within ten epsilon of zero;
    /// for integer words this is the same as `JmpZero`. Does not pop the value.
    JmpAprxZero,
    /// Jump to the immediate address if the top of the stack is positive.
    /// Does not pop the value.
    JmpPos,
    /// Jump to the immediate address if the top of the stack is finite;
    /// integer words are always finite, so this always jumps. Does not pop the value.
    JmpFin,
    /// Pop the top value and jump to its absolute value as address.
    JmpTos,
}

/// The opcode with number `n`, for `n < OpCode::COUNT`; larger numbers give the last opcode.
pub open spec fn opcode_with_index(n: u8) -> OpCode {
    match n {
        0 => OpCode::Nop,
        1 => OpCode::Halt,
        2 => OpCode::PushImm,
        3 => OpCode::PushIn,
        4 => OpCode::PushOne,
        5 => OpCode::PushZero,
        6 => OpCode::PopOut,
        7 => OpCode::Add,
        8 => OpCode::Sub,
        9 => OpCode::Mul,
        10 => OpCode::Div,
        11 => OpCode::ModDiv,
        12 => OpCode::Min,
        13 => OpCode::Max,
        14 => OpCode::Sqrt,
        15 => OpCode::Round,
        16 => OpCode::Trunc,
        17 => OpCode::Ceil,
        18 => OpCode::Floor,
        19 => OpCode::Neg,
        20 => OpCode::Abs,
        21 => OpCode::Swap,
        22 => OpCode::Remove,
        23 => OpCode::Dup,
        24 => OpCode::Jmp,
        25 => OpCode::JmpZero,
        26 => OpCode::JmpAprxZero,
        27 => OpCode::JmpPos,
        28 => OpCode::JmpFin,
        _ => OpCode::JmpTos,
    }
}

/// The opcode that byte `b` decodes to.
pub open spec fn decode_opcode(b: u8) -> OpCode {
    opcode_with_index(b % (OpCode::COUNT as u8))
}

impl OpCode {
    /// Number of distinct opcodes.
    pub const COUNT: usize = 30;

    /// The number of this opcode, its position in declaration order.
    pub open spec fn index(self) -> u8 {
        match self {
            OpCode::Nop => 0,
            OpCode::Halt => 1,
            OpCode::PushImm => 2,
            OpCode::PushIn => 3,
            OpCode::PushOne => 4,
            OpCode::PushZero => 5,
            OpCode::PopOut => 6,
            OpCode::Add => 7,
            OpCode::Sub => 8,
            OpCode::Mul => 9,
            OpCode::Div => 10,
            OpCode::ModDiv => 11,
            OpCode::Min => 12,
            OpCode::Max => 13,
            OpCode::Sqrt => 14,
            OpCode::Round => 15,
            OpCode::Trunc => 16,
            OpCode::Ceil => 17,
            OpCode::Floor => 18,
            OpCode::Neg => 19,
            OpCode::Abs => 20,
            OpCode::Swap => 21,
            OpCode::Remove => 22,
            OpCode::Dup => 23,
            OpCode::Jmp => 24,
            OpCode::JmpZero => 25,
            OpCode::JmpAprxZero => 26,
            OpCode::JmpPos => 27,
            OpCode::JmpFin => 28,
            OpCode::JmpTos => 29,
        }
    }

    /// The opcode's name as it appears in disassembly.
    pub open spec fn mnemonic_of(self) -> Seq<char> {
        match self {
            OpCode::Nop => "Nop"@,
            OpCode::Halt => "Halt"@,
            OpCode::PushImm => "PushImm"@,
            OpCode::PushIn => "PushIn"@,
            OpCode::PushOne => "PushOne"@,
            OpCode::PushZero => "PushZero"@,
            OpCode::PopOut => "PopOut"@,
            OpCode::Add => "Add"@,
            OpCode::Sub => "Sub"@,
            OpCode::Mul => "Mul"@,
            OpCode::Div => "Div"@,
            OpCode::ModDiv => "ModDiv"@,
            OpCode::Min => "Min"@,
            OpCode::Max => "Max"@,
            OpCode::Sqrt => "Sqrt"@,
            OpCode::Round => "Round"@,
            OpCode::Trunc => "Trunc"@,
            OpCode::Ceil => "Ceil"@,
            OpCode::Floor => "Floor"@,
            OpCode::Neg => "Neg"@,
            OpCode::Abs => "Abs"@,
            OpCode::Swap => "Swap"@,
            OpCode::Remove => "Remove"@,
            OpCode::Dup => "Dup"@,
            OpCode::Jmp => "Jmp"@,
            OpCode::JmpZero => "JmpZero"@,
            OpCode::JmpAprxZero => "JmpAprxZero"@,
            OpCode::JmpPos => "JmpPos"@,
            OpCode::JmpFin => "JmpFin"@,
            OpCode::JmpTos => "JmpTos"@,
        }
    }

    /// The opcode's name as it appears in disassembly.
    pub fn mnemonic(&self) -> (s: &'static str)
        ensures
            s@ == self.mnemonic_of(),
            vstd::string::is_ascii(s),
            s@.len() <= 11,
    {
        match self {
            OpCode::Nop => {
                proof {
                    reveal_strlit("Nop");
                }
                "Nop"
            },
            OpCode::Halt => {
                proof {
                    reveal_strlit("Halt");
                }
                "Halt"
            },
            OpCode::PushImm => {
                proof {
                    reveal_strlit("PushImm");
                }
                "PushImm"
            },
            OpCode::PushIn => {
                proof {
                    reveal_strlit("PushIn");
                }
                "PushIn"
            },
            OpCode::PushOne => {
                proof {
                    reveal_strlit("PushOne");
                }
                "PushOne"
            },
            OpCode::PushZero => {
                proof {
                    reveal_strlit("PushZero");
                }
                "PushZero"
            },
            OpCode::PopOut => {
                proof {
                    reveal_strlit("PopOut");
                }
                "PopOut"
            },
            OpCode::Add => {
                proof {
                    reveal_strlit("Add");
                }
                "Add"
            },
            OpCode::Sub => {
                proof {
                    reveal_strlit("Sub");
                }
                "Sub"
            },
            OpCode::Mul => {
                proof {
                    reveal_strlit("Mul");
                }
                "Mul"
            },
            OpCode::Div => {
                proof {
                    reveal_strlit("Div");
                }
                "Div"
            },
            OpCode::ModDiv => {
                proof {
                    reveal_strlit("ModDiv");
                }
                "ModDiv"
            },
            OpCode::Min => {
                proof {
                    reveal_strlit("Min");
                }
                "Min"
            },
            OpCode::Max => {
                proof {
                    reveal_strlit("Max");
                }
                "Max"
            },
            OpCode::Sqrt => {
                proof {
                    reveal_strlit("Sqrt");
                }
                "Sqrt"
            },
            OpCode::Round => {
                proof {
                    reveal_strlit("Round");
                }
                "Round"
            },
            OpCode::Trunc => {
                proof {
                    reveal_strlit("Trunc");
                }
                "Trunc"
            },
            OpCode::Ceil => {
                proof {
                    reveal_strlit("Ceil");
                }
                "Ceil"
            },
            OpCode::Floor => {
                proof {
                    reveal_strlit("Floor");
                }
                "Floor"
            },
            OpCode::Neg => {
                proof {
                    reveal_strlit("Neg");
                }
                "Neg"
            },
            OpCode::Abs => {
                proof {
                    reveal_strlit("Abs");
                }
                "Abs"
            },
            OpCode::Swap => {
                proof {
                    reveal_strlit("Swap");
                }
                "Swap"
            },
            OpCode::Remove => {
                proof {
                    reveal_strlit("Remove");
                }
                "Remove"
            },
            OpCode::Dup => {
                proof {
                    reveal_strlit("Dup");
                }
                "Dup"
            },
            OpCode::Jmp => {
                proof {
                    reveal_strlit("Jmp");
                }
                "Jmp"
            },
            OpCode::JmpZero => {
                proof {
                    reveal_strlit("JmpZero");
                }
                "JmpZero"
            },
            OpCode::JmpAprxZero => {
                proof {
                    reveal_strlit("JmpAprxZero");
                }
                "JmpAprxZero"
            },
            OpCode::JmpPos => {
                proof {
                    reveal_strlit("JmpPos");
                }
                "JmpPos"
            },
            OpCode::JmpFin => {
                proof {
                    reveal_strlit("JmpFin");
                }
                "JmpFin"
            },
            OpCode::JmpTos => {
                proof {
                    reveal_strlit("JmpTos");
                }
                "JmpTos"
            },
        }
    }

    /// Whether the opcode is followed by a jump target address.
    pub open spec fn takes_address(self) -> bool {
        self == OpCode::Jmp || self == OpCode::JmpZero || self == OpCode::JmpAprxZero
            || self == OpCode::JmpPos || self == OpCode::JmpFin
    }
}

impl Default for OpCode {
    fn default() -> (op: Self)
        ensures
            op == OpCode::Nop,
    {
        OpCode::Nop
    }
}

impl From<u8> for OpCode {
    /// Decodes a byte: it is taken modulo [`OpCode::COUNT`], so every byte is an opcode.
    fn from(byte: u8) -> (op: Self) {
        match byte % 30 {
            0 => OpCode::Nop,
            1 => OpCode::Halt,
            2 => OpCode::PushImm,
            3 => OpCode::PushIn,
            4 => OpCode::PushOne,
            5 => OpCode::PushZero,
            6 => OpCode::PopOut,
            7 => OpCode::Add,
            8 => OpCode::Sub,
            9 => OpCode::Mul,
            10 => OpCode::Div,
            11 => OpCode::ModDiv,
            12 => OpCode::Min,
            13 => OpCode::Max,
            14 => OpCode::Sqrt,
            15 => OpCode::Round,
            16 => OpCode::Trunc,
            17 => OpCode::Ceil,
            18 => OpCode::Floor,
            19 => OpCode::Neg,
            20 => OpCode::Abs,
            21 => OpCode::Swap,
            22 => OpCode::Remove,
            23 => OpCode::Dup,
            24 => OpCode::Jmp,
            25 => OpCode::JmpZero,
            26 => OpCode::JmpAprxZero,
            27 => OpCode::JmpPos,
            28 => OpCode::JmpFin,
            _ => OpCode::JmpTos,
        }
    }
}

impl vstd::std_specs::convert::FromSpecImpl<u8> for OpCode {
    open spec fn obeys_from_spec() -> bool {
        true
    }

    open spec fn from_spec(v: u8) -> Self {
        decode_opcode(v)
    }
}

impl From<OpCode> for u8 {
    /// The opcode's number.
    fn from(op: OpCode) -> (b: u8) {
        match op {
            OpCode::Nop => 0,
            OpCode::Halt => 1,
            OpCode::PushImm => 2,
            OpCode::PushIn => 3,
            OpCode::PushOne => 4,
            OpCode::PushZero => 5,
            OpCode::PopOut => 6,
            OpCode::Add => 7,
            OpCode::Sub => 8,
            OpCode::Mul => 9,
            OpCode::Div => 10,
            OpCode::ModDiv => 11,
            OpCode::Min => 12,
            OpCode::Max => 13,
            OpCode::Sqrt => 14,
            OpCode::Round => 15,
            OpCode::Trunc => 16,
            OpCode::Ceil => 17,
            OpCode::Floor => 18,
            OpCode::Neg => 19,
            OpCode::Abs => 20,
            OpCode::Swap => 21,
            OpCode::Remove => 22,
            OpCode::Dup => 23,
            OpCode::Jmp => 24,
            OpCode::JmpZero => 25,
            OpCode::JmpAprxZero => 26,
            OpCode::JmpPos => 27,
            OpCode::JmpFin => 28,
            OpCode::JmpTos => 29,
        }
    }
}

impl vstd::std_specs::convert::FromSpecImpl<OpCode> for u8 {
    open spec fn obeys_from_spec() -> bool {
        true
    }

    open spec fn from_spec(v: OpCode) -> Self {
        v.index()
    }
}

/// Every byte decodes to an opcode: the byte taken modulo [`OpCode::COUNT`]
/// numbers it, so bytes that differ by a multiple of the count decode alike,
/// and an opcode's own number decodes to it.
pub proof fn law_decoding_is_modulo_count(b: u8, op: OpCode)
    ensures
        decode_opcode(b) == opcode_with_index(b % 30),
        decode_opcode(b).index() == b % 30,
        b < 226 ==> decode_opcode((b + 30) as u8) == decode_opcode(b),
        decode_opcode(op.index()) == op,
        op.index() < OpCode::COUNT,
{
}

/// Every mnemonic takes between one and eleven characters.
pub proof fn lemma_mnemonic_length(op: OpCode)
    ensures
        1 <= op.mnemonic_of().len() <= 11,
{
    match op {
        OpCode::Nop => {
            reveal_strlit("Nop");
        },
        OpCode::Halt => {
            reveal_strlit("Halt");
        },
        OpCode::PushImm => {
            reveal_strlit("PushImm");
        },
        OpCode::PushIn => {
            reveal_strlit("PushIn");
        },
        OpCode::PushOne => {
            reveal_strlit("PushOne");
        },
        OpCode::PushZero => {
            reveal_strlit("PushZero");
        },
        OpCode::PopOut => {
            reveal_strlit("PopOut");
        },
        OpCode::Add => {
            reveal_strlit("Add");
        },
        OpCode::Sub => {
            reveal_strlit("Sub");
        },
        OpCode::Mul => {
            reveal_strlit("Mul");
        },
        OpCode::Div => {
            reveal_strlit("Div");
        },
        OpCode::ModDiv => {
            reveal_strlit("ModDiv");
        },
        OpCode::Min => {
            reveal_strlit("Min");
        },
        OpCode::Max => {
            reveal_strlit("Max");
        },
        OpCode::Sqrt => {
            reveal_strlit("Sqrt");
        },
        OpCode::Round => {
            reveal_strlit("Round");
        },
        OpCode::Trunc => {
            reveal_strlit("Trunc");
        },
        OpCode::Ceil => {
            reveal_strlit("Ceil");
        },
        OpCode::Floor => {
            reveal_strlit("Floor");
        },
        OpCode::Neg => {
            reveal_strlit("Neg");
        },
        OpCode::Abs => {
            reveal_strlit("Abs");
        },
        OpCode::Swap => {
            reveal_strlit("Swap");
        },
        OpCode::Remove => {
            reveal_strlit("Remove");
        },
        OpCode::Dup => {
            reveal_strlit("Dup");
        },
        OpCode::Jmp => {
            reveal_strlit("Jmp");
        },
        OpCode::JmpZero => {
            reveal_strlit("JmpZero");
        },
        OpCode::JmpAprxZero => {
            reveal_strlit("JmpAprxZero");
        },
        OpCode::JmpPos => {
            reveal_strlit("JmpPos");
        },
        OpCode::JmpFin => {
            reveal_strlit("JmpFin");
        },
        OpCode::JmpTos => {
            reveal_strlit("JmpTos");
        },
    }
}

} // verus!

//! The kinds of operations.

use crate::size::Size;
use vstd::prelude::*;

verus! {

/// What kind of division or remainder instruction this is.
#[derive(Clone, Copy, Debug, PartialEq, Eq, Structural)]
pub enum DivOrRemKind {
    SignedDiv,
    UnsignedDiv,
    SignedRem,
    UnsignedRem,
}

/// These indicate the form of a scalar shift: left, signed right, unsigned right.
#[derive(Clone, Copy, Debug, PartialEq, Eq, Structural)]
pub enum ShiftKind {
    Shl,
    /// Inserts zeros in the most significant bits.
    ShrL,
    /// Replicates the sign bit in the most significant bits.
    ShrA,
}

/// The two ways of setting the flags.
#[derive(Clone, Copy, Debug, PartialEq, Eq, Structural)]
pub enum Cmp {
    /// CMP instruction: compute `a - b` and set flags from result.
    Cmp,
    /// TEST instruction: compute `a & b` and set flags from result.
    Test,
}

/// These indicate ways of extending (widening) a value, using the Intel naming: B(yte) = u8,
/// W(ord) = u16, L(ong)word = u32, Q(uad)word = u64.
#[derive(Clone, Copy, Debug, PartialEq, Eq, Structural)]
pub enum ExtMode {
    /// Byte (u8) -> Longword (u32).
    BL,
    /// Byte (u8) -> Quadword (u64).
    BQ,
    /// Word (u16) -> Longword (u32).
    WL,
    /// Word (u16) -> Quadword (u64).
    WQ,
    /// Longword (u32) -> Quadword (u64).
    LQ,
}

impl ExtMode {
    /// The size that is widened.
    pub open spec fn from_size(self) -> Size {
        match self {
            ExtMode::BL => Size::S8,
            ExtMode::BQ => Size::S8,
            ExtMode::WL => Size::S16,
            ExtMode::WQ => Size::S16,
            ExtMode::LQ => Size::S32,
        }
    }

    /// The size that it is widened to.
    pub open spec fn to_size(self) -> Size {
        match self {
            ExtMode::BL => Size::S32,
            ExtMode::WL => Size::S32,
            ExtMode::BQ => Size::S64,
            ExtMode::WQ => Size::S64,
            ExtMode::LQ => Size::S64,
        }
    }

    /// The mode that widens `from` to `to`. There is none where `to` is not larger, or not the size
    /// of a register. Widening to 16 bits is done by widening to 32.
    pub open spec fn between(from: Size, to: Size) -> Option<ExtMode> {
        match (from, to) {
            (Size::S8, Size::S16) => Some(ExtMode::BL),
            (Size::S8, Size::S32) => Some(ExtMode::BL),
            (Size::S8, Size::S64) => Some(ExtMode::BQ),
            (Size::S16, Size::S32) => Some(ExtMode::WL),
            (Size::S16, Size::S64) => Some(ExtMode::WQ),
            (Size::S32, Size::S64) => Some(ExtMode::LQ),
            _ => None,
        }
    }

    /// Calculate the `ExtMode` from passed bit lengths of the from/to types.
    pub fn new(from: Size, to: Size) -> (r: Option<ExtMode>)
        ensures
            r == ExtMode::between(from, to),
    {
        match (from, to) {
            (Size::S8, Size::S16 | Size::S32) => Some(ExtMode::BL),
            (Size::S8, Size::S64) => Some(ExtMode::BQ),
            (Size::S16, Size::S32) => Some(ExtMode::WL),
            (Size::S16, Size::S64) => Some(ExtMode::WQ),
            (Size::S32, Size::S64) => Some(ExtMode::LQ),
            _ => None,
        }
    }

    /// Return the source register size.
    pub fn src(self) -> (r: Size)
        ensures
            r == self.from_size(),
    {
        match self {
            ExtMode::BL | ExtMode::BQ => Size::S8,
            ExtMode::WL | ExtMode::WQ => Size::S16,
            ExtMode::LQ => Size::S32,
        }
    }

    /// Return the destination register size.
    pub fn dst(self) -> (r: Size)
        ensures
            r == self.to_size(),
    {
        match self {
            ExtMode::BL | ExtMode::WL => Size::S32,
            ExtMode::BQ | ExtMode::WQ | ExtMode::LQ => Size::S64,
        }
    }
}

/// Condition code tests supported by the x86 architecture.
#[derive(Clone, Copy, Debug, PartialEq, Eq, Structural)]
pub enum CC {
    /// overflow
    O,
    /// no overflow
    NO,
    /// `<` unsigned (below, aka NAE = not above equal, C = carry)
    B,
    /// `>=` unsigned (not below, aka AE = above equal, NC = no carry)
    NB,
    /// zero (aka E = equal)
    Z,
    /// not-zero (aka NE = not equal)
    NZ,
    /// `<=` unsigned (below equal, aka NA = not above)
    BE,
    /// `>` unsigned (not below equal, aka A = above)
    NBE,
    /// negative (sign)
    S,
    /// not-negative (no sign)
    NS,
    /// parity (aka PE = parity even)
    P,
    /// not parity (aka PO = parity odd)
    NP,
    /// `<` signed (less, aka NGE = not greater equal)
    L,
    /// `>=` signed (not less, aka GE = greater equal)
    NL,
    /// `<=` signed (less equal, aka NG = not greater)
    LE,
    /// `>` signed (not less equal, aka G = greater)
    NLE,
}

/// The flags that the condition codes test.
pub struct FlagBits {
    /// The result does not fit as a signed number.
    pub overflow: bool,
    /// The result does not fit as an unsigned number.
    pub carry: bool,
    /// The result is zero.
    pub zero: bool,
    /// The result is negative.
    pub sign: bool,
    /// The number of ones in the low byte of the result is even.
    pub parity: bool,
}

impl CC {
    /// Whether the condition holds.
    pub open spec fn holds(self, f: FlagBits) -> bool {
        match self {
            CC::O => f.overflow,
            CC::NO => !f.overflow,
            CC::B => f.carry,
            CC::NB => !f.carry,
            CC::Z => f.zero,
            CC::NZ => !f.zero,
            CC::BE => f.carry || f.zero,
            CC::NBE => !f.carry && !f.zero,
            CC::S => f.sign,
            CC::NS => !f.sign,
            CC::P => f.parity,
            CC::NP => !f.parity,
            CC::L => f.sign != f.overflow,
            CC::NL => f.sign == f.overflow,
            CC::LE => f.zero || f.sign != f.overflow,
            CC::NLE => !f.zero && f.sign == f.overflow,
        }
    }

    /// The four bits that encode the condition.
    pub open spec fn bits(self) -> u8 {
        match self {
            CC::O => 0,
            CC::NO => 1,
            CC::B => 2,
            CC::NB => 3,
            CC::Z => 4,
            CC::NZ => 5,
            CC::BE => 6,
            CC::NBE => 7,
            CC::S => 8,
            CC::NS => 9,
            CC::P => 10,
            CC::NP => 11,
            CC::L => 12,
            CC::NL => 13,
            CC::LE => 14,
            CC::NLE => 15,
        }
    }

    /// The four bits that encode the condition.
    pub fn code(self) -> (r: u8)
        ensures
            r == self.bits(),
    {
        match self {
            CC::O => 0,
            CC::NO => 1,
            CC::B => 2,
            CC::NB => 3,
            CC::Z => 4,
            CC::NZ => 5,
            CC::BE => 6,
            CC::NBE => 7,
            CC::S => 8,
            CC::NS => 9,
            CC::P => 10,
            CC::NP => 11,
            CC::L => 12,
            CC::NL => 13,
            CC::LE => 14,
            CC::NLE => 15,
        }
    }

    /// The condition that holds exactly where this one does not.
    pub open spec fn opposite(self) -> CC {
        match self {
            CC::O => CC::NO,
            CC::NO => CC::O,
            CC::B => CC::NB,
            CC::NB => CC::B,
            CC::Z => CC::NZ,
            CC::NZ => CC::Z,
            CC::BE => CC::NBE,
            CC::NBE => CC::BE,
            CC::S => CC::NS,
            CC::NS => CC::S,
            CC::P => CC::NP,
            CC::NP => CC::P,
            CC::L => CC::NL,
            CC::NL => CC::L,
            CC::LE => CC::NLE,
            CC::NLE => CC::LE,
        }
    }

    /// The condition that holds exactly where this one does not.
    pub fn invert(self) -> (r: CC)
        ensures
            r == self.opposite(),
    {
        match self {
            CC::O => CC::NO,
            CC::NO => CC::O,
            CC::B => CC::NB,
            CC::NB => CC::B,
            CC::Z => CC::NZ,
            CC::NZ => CC::Z,
            CC::BE => CC::NBE,
            CC::NBE => CC::BE,
            CC::S => CC::NS,
            CC::NS => CC::S,
            CC::P => CC::NP,
            CC::NP => CC::P,
            CC::L => CC::NL,
            CC::NL => CC::L,
            CC::LE => CC::NLE,
            CC::NLE => CC::LE,
        }
    }
}

/// Some basic ALU operations.
#[derive(Clone, Copy, Debug, PartialEq, Eq, Structural)]
pub enum Binop {
    Add,
    Or,
    Adc,
    Sbb,
    And,
    Sub,
    Xor,
}

impl Binop {
    /// The number that encodes the operation.
    pub open spec fn number(self) -> u8 {
        match self {
            Binop::Add => 0,
            Binop::Or => 1,
            Binop::Adc => 2,
            Binop::Sbb => 3,
            Binop::And => 4,
            Binop::Sub => 5,
            Binop::Xor => 6,
        }
    }

    /// The number that encodes the operation.
    pub fn code(self) -> (r: u8)
        ensures
            r == self.number(),
            r == (match self {
                Binop::Add => 0u8,
                Binop::Or => 1,
                Binop::Adc => 2,
                Binop::Sbb => 3,
                Binop::And => 4,
                Binop::Sub => 5,
                Binop::Xor => 6,
            }),
    {
        match self {
            Binop::Add => 0,
            Binop::Or => 1,
            Binop::Adc => 2,
            Binop::Sbb => 3,
            Binop::And => 4,
            Binop::Sub => 5,
            Binop::Xor => 6,
        }
    }
}

/// Some basic ALU operations with one operand.
#[derive(Clone, Copy, Debug, PartialEq, Eq, Structural)]
pub enum Unop {
    Inc,
    Dec,
    Not,
    Neg,
}

impl Unop {
    /// The number that encodes the operation.
    pub open spec fn number(self) -> u8 {
        match self {
            Unop::Inc => 0,
            Unop::Dec => 1,
            Unop::Not => 2,
            Unop::Neg => 3,
        }
    }

    /// The number that encodes the operation.
    pub fn code(self) -> (r: u8)
        ensures
            r == self.number(),
            r == (match self {
                Unop::Inc => 0u8,
                Unop::Dec => 1,
                Unop::Not => 2,
                Unop::Neg => 3,
            }),
    {
        match self {
            Unop::Inc => 0,
            Unop::Dec => 1,
            Unop::Not => 2,
            Unop::Neg => 3,
        }
    }
}

} // verus!

//! What the `Debug` formatting writes of registers and operands: their text. A number that stands
//! alone follows the options of the format, such as the width.

use super::layout::PRegMemImm;
use super::mode::{AMode, ConstId, GlobalId, Offset, RegMem, RegMemImm, SpillId};
use super::reg::{PReg, VReg};
use super::text::ShowReg;
use std::fmt::{Debug, Formatter};
use vstd::prelude::*;
use vstd::std_specs::convert::FromSpec;

verus! {

/// The standard library's formatter.
#[verifier::external_type_specification]
#[verifier::external_body]
pub struct ExFormatter<'a>(Formatter<'a>);

/// The standard library's error of a failed write.
#[verifier::external_type_specification]
#[verifier::external_body]
pub struct ExFormatError(std::fmt::Error);

/// The text that has been written to a formatter.
pub uninterp spec fn written(f: Formatter<'_>) -> Seq<char>;

/// The text that the `Debug` formatting of a number writes to a formatter with these options.
pub uninterp spec fn number_in(f: Formatter<'_>, n: u64) -> Seq<char>;

/// Calls `Formatter::write_str`, which writes the whole text where it succeeds. Whether it does is
/// up to what is behind the formatter.
#[verifier::external_body]
fn write_text(f: &mut Formatter<'_>, s: &str) -> (r: std::fmt::Result)
    ensures
        r is Ok ==> written(*final(f)) == written(*old(f)) + s@,
{
    f.write_str(s)
}

/// Calls the `Debug` formatting of `u64`, which writes the number as the options of the formatter
/// have it. Which options there are, and what each makes of a number, is not said. Whether it
/// succeeds is up to what is behind the formatter.
#[verifier::external_body]
fn write_number(f: &mut Formatter<'_>, n: u64) -> (r: std::fmt::Result)
    ensures
        r is Ok ==> written(*final(f)) == written(*old(f)) + number_in(*old(f), n),
{
    Debug::fmt(&n, f)
}

impl Debug for VReg {
    fn fmt(&self, f: &mut Formatter<'_>) -> (r: std::fmt::Result)
        requires
            self.showable(),
        ensures
            r is Ok ==> written(*final(f)) == written(*old(f)) + self.shown(),
    {
        write_text(f, self.text().as_str())
    }
}

impl Debug for PReg {
    fn fmt(&self, f: &mut Formatter<'_>) -> (r: std::fmt::Result)
        requires
            self.showable(),
        ensures
            r is Ok ==> written(*final(f)) == written(*old(f)) + self.shown(),
    {
        write_text(f, self.text().as_str())
    }
}

impl Debug for SpillId {
    fn fmt(&self, f: &mut Formatter<'_>) -> (r: std::fmt::Result)
        ensures
            r is Ok ==> written(*final(f)) == written(*old(f)) + self.shown(),
    {
        write_text(f, self.text().as_str())
    }
}

impl Debug for GlobalId {
    fn fmt(&self, f: &mut Formatter<'_>) -> (r: std::fmt::Result)
        ensures
            r is Ok ==> written(*final(f)) == written(*old(f)) + self.shown(),
    {
        write_text(f, self.text().as_str())
    }
}

impl Debug for ConstId {
    fn fmt(&self, f: &mut Formatter<'_>) -> (r: std::fmt::Result)
        ensures
            r is Ok ==> written(*final(f)) == written(*old(f)) + self.shown(),
    {
        write_text(f, self.text().as_str())
    }
}

impl Offset<u64> {
    /// What a formatter is given of the offset.
    pub open spec fn shown_in(self, f: Formatter<'_>) -> Seq<char> {
        match self {
            Offset::Real(n) => number_in(f, n),
            _ => self.shown(),
        }
    }
}

impl Debug for Offset<u64> {
    fn fmt(&self, f: &mut Formatter<'_>) -> (r: std::fmt::Result)
        ensures
            r is Ok ==> written(*final(f)) == written(*old(f)) + self.shown_in(*old(f)),
    {
        match self {
            Offset::Real(n) => write_number(f, *n),
            _ => write_text(f, self.text().as_str()),
        }
    }
}

impl Debug for Offset {
    fn fmt(&self, f: &mut Formatter<'_>) -> (r: std::fmt::Result)
        ensures
            r is Ok ==> written(*final(f)) == written(*old(f)) + self.with_amount(
                self.amount() as u64,
            ).shown_in(*old(f)),
    {
        let wide: Offset<u64> = (*self).into();
        wide.fmt(f)
    }
}

impl<Reg: ShowReg> Debug for AMode<Reg> {
    fn fmt(&self, f: &mut Formatter<'_>) -> (r: std::fmt::Result)
        requires
            self.showable(),
        ensures
            r is Ok ==> written(*final(f)) == written(*old(f)) + self.shown(),
    {
        write_text(f, self.text().as_str())
    }
}

impl<Reg: ShowReg> Debug for RegMem<Reg> {
    fn fmt(&self, f: &mut Formatter<'_>) -> (r: std::fmt::Result)
        requires
            self.showable(),
        ensures
            r is Ok ==> written(*final(f)) == written(*old(f)) + self.shown(),
    {
        write_text(f, self.text().as_str())
    }
}

impl RegMemImm<u64> {
    /// What a formatter is given of the operand.
    pub open spec fn shown_in(self, f: Formatter<'_>) -> Seq<char> {
        match self {
            RegMemImm::Imm(i) => number_in(f, i),
            _ => self.shown(),
        }
    }
}

impl Debug for RegMemImm<u64> {
    fn fmt(&self, f: &mut Formatter<'_>) -> (r: std::fmt::Result)
        requires
            self.showable(),
        ensures
            r is Ok ==> written(*final(f)) == written(*old(f)) + self.shown_in(*old(f)),
    {
        match self {
            RegMemImm::Imm(i) => write_number(f, *i),
            _ => write_text(f, self.text().as_str()),
        }
    }
}

impl Debug for RegMemImm {
    fn fmt(&self, f: &mut Formatter<'_>) -> (r: std::fmt::Result)
        requires
            RegMemImm::<u64>::from_spec(*self).showable(),
        ensures
            r is Ok ==> written(*final(f)) == written(*old(f)) + RegMemImm::<
                u64,
            >::from_spec(*self).shown_in(*old(f)),
    {
        let wide: RegMemImm<u64> = (*self).into();
        wide.fmt(f)
    }
}

impl PRegMemImm {
    /// What a formatter is given of the operand.
    pub open spec fn shown_in(self, f: Formatter<'_>) -> Seq<char> {
        match self {
            PRegMemImm::Imm(i) => number_in(f, i as u64),
            _ => self.shown(),
        }
    }
}

impl Debug for PRegMemImm {
    fn fmt(&self, f: &mut Formatter<'_>) -> (r: std::fmt::Result)
        requires
            self.showable(),
        ensures
            r is Ok ==> written(*final(f)) == written(*old(f)) + self.shown_in(*old(f)),
    {
        match self {
            PRegMemImm::Imm(i) => write_number(f, *i as u64),
            _ => write_text(f, self.text().as_str()),
        }
    }
}

/// Only a number that stands alone depends on the options of the formatter. Anything else is written
/// as its text.
pub proof fn law_formatted(
    f: Formatter<'_>,
    off: Offset<u64>,
    rmi: RegMemImm<u64>,
    p: PRegMemImm,
)
    ensures
        off.shown_in(f) == (if off is Real {
            number_in(f, off.amount())
        } else {
            off.shown()
        }),
        rmi !is Imm ==> rmi.shown_in(f) == rmi.shown(),
        rmi matches RegMemImm::Imm(n) ==> rmi.shown_in(f) == number_in(f, n),
        p !is Imm ==> p.shown_in(f) == p.shown(),
        p matches PRegMemImm::Imm(n) ==> p.shown_in(f) == number_in(f, n as u64),
{
}

} // verus!

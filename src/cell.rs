//! The values that flow through the machine's registers and across the wire.
use crate::slist::List;
use vstd::prelude::*;

verus! {

/// An opcode of the machine.
#[derive(Debug, Clone, Copy, PartialEq, Eq, Structural)]
pub enum Inst {
    NIL,
    LD,
    LDF,
    AP,
    APCC,
    JOIN,
    RAP,
    RET,
    DUM,
    SEL,
    ADD,
    SUB,
    MUL,
    DIV,
    MOD,
    FDIV,
    EQ,
    GT,
    GTE,
    LT,
    LTE,
    ATOM,
    NULL,
    READC,
    WRITEC,
    CONS,
    CAR,
    CDR,
    LDC,
    STOP,
}

/// An immutable scalar. A float is held as its IEEE-754 bit pattern.
#[derive(Debug, Clone, Copy)]
pub enum Atom {
    UInt(u64),
    SInt(i64),
    Char(char),
    Float(u64),
}

/// The exponent bits of a double.
pub const EXPONENT_MASK: u64 = 0x7FF0_0000_0000_0000;

/// The fraction bits of a double.
pub const FRACTION_MASK: u64 = 0x000F_FFFF_FFFF_FFFF;

/// Every bit of a double but its sign.
pub const MAGNITUDE_MASK: u64 = 0x7FFF_FFFF_FFFF_FFFF;

/// Whether a double's bit pattern is a NaN.
pub open spec fn is_nan_bits(b: u64) -> bool {
    b & EXPONENT_MASK == EXPONENT_MASK && b & FRACTION_MASK != 0
}

/// IEEE-754 equality of two doubles given by their bit patterns: no NaN equals anything,
/// and the two zeroes are equal.
pub open spec fn float_bits_eq(a: u64, b: u64) -> bool {
    !is_nan_bits(a) && !is_nan_bits(b) && (a == b || (a & MAGNITUDE_MASK == 0 && b
        & MAGNITUDE_MASK == 0))
}

/// Equality of atoms by value: kinds must agree, and floats compare as IEEE-754 does.
pub open spec fn atom_eq(a: Atom, b: Atom) -> bool {
    match (a, b) {
        (Atom::UInt(x), Atom::UInt(y)) => x == y,
        (Atom::SInt(x), Atom::SInt(y)) => x == y,
        (Atom::Char(x), Atom::Char(y)) => x == y,
        (Atom::Float(x), Atom::Float(y)) => float_bits_eq(x, y),
        _ => false,
    }
}

fn float_eq(a: u64, b: u64) -> (r: bool)
    ensures
        r == float_bits_eq(a, b),
{
    let a_nan = a & EXPONENT_MASK == EXPONENT_MASK && a & FRACTION_MASK != 0;
    let b_nan = b & EXPONENT_MASK == EXPONENT_MASK && b & FRACTION_MASK != 0;
    !a_nan && !b_nan && (a == b || (a & MAGNITUDE_MASK == 0 && b & MAGNITUDE_MASK == 0))
}

impl PartialEq for Atom {
    fn eq(&self, other: &Atom) -> (r: bool) {
        match (self, other) {
            (Atom::UInt(x), Atom::UInt(y)) => *x == *y,
            (Atom::SInt(x), Atom::SInt(y)) => *x == *y,
            (Atom::Char(x), Atom::Char(y)) => *x == *y,
            (Atom::Float(x), Atom::Float(y)) => float_eq(*x, *y),
            _ => false,
        }
    }
}

impl vstd::std_specs::cmp::PartialEqSpecImpl for Atom {
    open spec fn obeys_eq_spec() -> bool {
        true
    }

    open spec fn eq_spec(&self, other: &Atom) -> bool {
        atom_eq(*self, *other)
    }
}

/// The unit exchanged between registers: an instruction, an atom or a list of cells.
#[derive(Debug, PartialEq)]
pub enum SVMCell {
    AtomCell(Atom),
    InstCell(Inst),
    ListCell(Box<List<SVMCell>>),
}

/// A copy of a cell, equal to it.
pub fn copy_cell(c: &SVMCell) -> (r: SVMCell)
    ensures
        r == *c,
    decreases c,
{
    match c {
        SVMCell::AtomCell(a) => SVMCell::AtomCell(*a),
        SVMCell::InstCell(i) => SVMCell::InstCell(*i),
        SVMCell::ListCell(l) => SVMCell::ListCell(Box::new(copy_list(&**l))),
    }
}

/// A copy of a list of cells, equal to it.
pub fn copy_list(l: &List<SVMCell>) -> (r: List<SVMCell>)
    ensures
        r == *l,
    decreases l,
{
    match l {
        List::Cons(h, t) => List::Cons(copy_cell(h), Box::new(copy_list(&**t))),
        List::Nil => List::Nil,
    }
}

impl Clone for SVMCell {
    fn clone(&self) -> (r: SVMCell)
        ensures
            r == *self,
    {
        copy_cell(self)
    }
}

impl Clone for List<SVMCell> {
    fn clone(&self) -> (r: List<SVMCell>)
        ensures
            r == *self,
    {
        copy_list(self)
    }
}

impl SVMCell {
    /// A list cell holding the vector's cells, in the same order.
    pub fn list(items: Vec<SVMCell>) -> (r: SVMCell)
        ensures
            r matches SVMCell::ListCell(l) && l@ == items@,
    {
        SVMCell::ListCell(Box::new(List::from_vec(items)))
    }
}

} // verus!

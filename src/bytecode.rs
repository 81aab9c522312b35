//! The tagged binary format: a preamble, then tagged values. Opcodes are single bytes,
//! atoms are a tag byte and a big-endian payload, and `0xC0` opens a pair whose second
//! half is another pair or the `0x00` that ends a list.
use crate::cell::{Atom, Inst, SVMCell};
use crate::slist::List;
use byteorder::{BigEndian, ByteOrder};
use vstd::prelude::*;

verus! {

/// The two bytes every encoded program begins with.
pub const IDENT_BYTES: u16 = 0x5ECD;

/// The revision of the format written here.
pub const VERSION: u16 = 0x0000;

/// The tag that opens a pair.
pub const BYTE_CONS: u8 = 0xC0;

/// The byte that ends a list, and the opcode of NIL.
pub const BYTE_NIL: u8 = 0x00;

/// Tags of the atom kinds.
pub const TAG_UINT: u8 = 0xC1;

pub const TAG_SINT: u8 = 0xC2;

pub const TAG_CHAR: u8 = 0xC3;

pub const TAG_FLOAT: u8 = 0xC4;

/// The highest opcode in use.
pub const LAST_OPCODE: u8 = 0x1D;

/// The last byte of the block kept for future opcodes.
pub const LAST_RESERVED: u8 = 0x30;

// ---------------------------------------------------------------------------------------
// Big-endian fields
// ---------------------------------------------------------------------------------------
/// The number that two bytes spell, most significant first.
pub open spec fn be_u16(b: Seq<u8>) -> u16 {
    ((b[0] as u16) << 8u16) | (b[1] as u16)
}

/// The number that four bytes spell, most significant first.
pub open spec fn be_u32(b: Seq<u8>) -> u32 {
    ((b[0] as u32) << 24u32) | ((b[1] as u32) << 16u32) | ((b[2] as u32) << 8u32) | (b[3] as u32)
}

/// The number that eight bytes spell, most significant first.
pub open spec fn be_u64(b: Seq<u8>) -> u64 {
    ((b[0] as u64) << 56u64) | ((b[1] as u64) << 48u64) | ((b[2] as u64) << 40u64) | ((b[3] as u64)
        << 32u64) | ((b[4] as u64) << 24u64) | ((b[5] as u64) << 16u64) | ((b[6] as u64) << 8u64)
        | (b[7] as u64)
}

/// The four bytes of a number, most significant first.
pub open spec fn u32_be(n: u32) -> Seq<u8> {
    seq![(n >> 24u32) as u8, (n >> 16u32) as u8, (n >> 8u32) as u8, n as u8]
}

/// The eight bytes of a number, most significant first.
pub open spec fn u64_be(n: u64) -> Seq<u8> {
    seq![
        (n >> 56u64) as u8,
        (n >> 48u64) as u8,
        (n >> 40u64) as u8,
        (n >> 32u64) as u8,
        (n >> 24u64) as u8,
        (n >> 16u64) as u8,
        (n >> 8u64) as u8,
        n as u8,
    ]
}

/// Relies on byteorder's `BigEndian::read_u16`: the first two bytes, most significant first.
#[verifier::external_body]
fn read_u16(b: &[u8]) -> (r: u16)
    requires
        b@.len() >= 2,
    ensures
        r == be_u16(b@),
{
    BigEndian::read_u16(b)
}

/// Relies on byteorder's `BigEndian::read_u32`: the first four bytes, most significant first.
#[verifier::external_body]
fn read_u32(b: &[u8]) -> (r: u32)
    requires
        b@.len() >= 4,
    ensures
        r == be_u32(b@),
{
    BigEndian::read_u32(b)
}

/// Relies on byteorder's `BigEndian::read_u64`: the first eight bytes, most significant first.
#[verifier::external_body]
fn read_u64(b: &[u8]) -> (r: u64)
    requires
        b@.len() >= 8,
    ensures
        r == be_u64(b@),
{
    BigEndian::read_u64(b)
}

/// Relies on byteorder's `BigEndian::read_i64`: the first eight bytes read as `read_u64`
/// reads them, taken as two's complement.
#[verifier::external_body]
fn read_i64(b: &[u8]) -> (r: i64)
    requires
        b@.len() >= 8,
    ensures
        r == be_u64(b@) as i64,
{
    BigEndian::read_i64(b)
}

/// Relies on byteorder's `BigEndian::write_u32`: the number's four bytes, most significant
/// first.
#[verifier::external_body]
fn write_u32(n: u32) -> (r: Vec<u8>)
    ensures
        r@ == u32_be(n),
{
    let mut buf = vec![0u8; 4];
    BigEndian::write_u32(&mut buf, n);
    buf
}

/// Relies on byteorder's `BigEndian::write_u64`: the number's eight bytes, most significant
/// first.
#[verifier::external_body]
fn write_u64(n: u64) -> (r: Vec<u8>)
    ensures
        r@ == u64_be(n),
{
    let mut buf = vec![0u8; 8];
    BigEndian::write_u64(&mut buf, n);
    buf
}

/// Relies on byteorder's `BigEndian::write_i64`: the two's complement bits of the number,
/// written as `write_u64` writes them.
#[verifier::external_body]
fn write_i64(n: i64) -> (r: Vec<u8>)
    ensures
        r@ == u64_be(n as u64),
{
    let mut buf = vec![0u8; 8];
    BigEndian::write_i64(&mut buf, n);
    buf
}

/// Reading back the bytes of a number gives the number.
pub proof fn lemma_u64_be_inverse(n: u64)
    ensures
        be_u64(u64_be(n)) == n,
{
    assert(((((n >> 56u64) as u8) as u64) << 56u64) | ((((n >> 48u64) as u8) as u64) << 48u64)
        | ((((n >> 40u64) as u8) as u64) << 40u64) | ((((n >> 32u64) as u8) as u64) << 32u64) | ((((n
        >> 24u64) as u8) as u64) << 24u64) | ((((n >> 16u64) as u8) as u64) << 16u64) | ((((n
        >> 8u64) as u8) as u64) << 8u64) | ((n as u8) as u64) == n) by (bit_vector);
}

/// Writing out the number that eight bytes spell gives those bytes.
pub proof fn lemma_be_u64_inverse(b: Seq<u8>)
    requires
        b.len() == 8,
    ensures
        u64_be(be_u64(b)) == b,
{
    let (b0, b1, b2, b3, b4, b5, b6, b7) = (b[0], b[1], b[2], b[3], b[4], b[5], b[6], b[7]);
    let n = be_u64(b);
    assert(n == ((b0 as u64) << 56u64) | ((b1 as u64) << 48u64) | ((b2 as u64) << 40u64) | ((
    b3 as u64) << 32u64) | ((b4 as u64) << 24u64) | ((b5 as u64) << 16u64) | ((b6 as u64)
        << 8u64) | (b7 as u64));
    assert((n >> 56u64) as u8 == b0 && (n >> 48u64) as u8 == b1 && (n >> 40u64) as u8 == b2 && (n
        >> 32u64) as u8 == b3 && (n >> 24u64) as u8 == b4 && (n >> 16u64) as u8 == b5 && (n
        >> 8u64) as u8 == b6 && n as u8 == b7) by (bit_vector)
        requires
            n == ((b0 as u64) << 56u64) | ((b1 as u64) << 48u64) | ((b2 as u64) << 40u64) | ((
            b3 as u64) << 32u64) | ((b4 as u64) << 24u64) | ((b5 as u64) << 16u64) | ((b6 as u64)
                << 8u64) | (b7 as u64),
    ;
    assert(u64_be(n) =~= b);
}

/// Reading back the bytes of a 32-bit number gives the number.
pub proof fn lemma_u32_be_inverse(n: u32)
    ensures
        be_u32(u32_be(n)) == n,
{
    assert(((((n >> 24u32) as u8) as u32) << 24u32) | ((((n >> 16u32) as u8) as u32) << 16u32)
        | ((((n >> 8u32) as u8) as u32) << 8u32) | ((n as u8) as u32) == n) by (bit_vector);
}

/// Writing out the number that four bytes spell gives those bytes.
pub proof fn lemma_be_u32_inverse(b: Seq<u8>)
    requires
        b.len() == 4,
    ensures
        u32_be(be_u32(b)) == b,
{
    let (b0, b1, b2, b3) = (b[0], b[1], b[2], b[3]);
    let n = be_u32(b);
    assert(n == ((b0 as u32) << 24u32) | ((b1 as u32) << 16u32) | ((b2 as u32) << 8u32) | (
    b3 as u32));
    assert((n >> 24u32) as u8 == b0 && (n >> 16u32) as u8 == b1 && (n >> 8u32) as u8 == b2 && n
        as u8 == b3) by (bit_vector)
        requires
            n == ((b0 as u32) << 24u32) | ((b1 as u32) << 16u32) | ((b2 as u32) << 8u32) | (
            b3 as u32),
    ;
    assert(u32_be(n) =~= b);
}

// ---------------------------------------------------------------------------------------
// Encoding
// ---------------------------------------------------------------------------------------
/// The byte of an opcode.
pub open spec fn opcode(i: Inst) -> u8 {
    match i {
        Inst::NIL => 0x00,
        Inst::LD => 0x01,
        Inst::LDF => 0x02,
        Inst::AP => 0x03,
        Inst::APCC => 0x04,
        Inst::JOIN => 0x05,
        Inst::RAP => 0x06,
        Inst::RET => 0x07,
        Inst::DUM => 0x08,
        Inst::SEL => 0x09,
        Inst::ADD => 0x0A,
        Inst::SUB => 0x0B,
        Inst::MUL => 0x0C,
        Inst::DIV => 0x0D,
        Inst::MOD => 0x0E,
        Inst::FDIV => 0x0F,
        Inst::EQ => 0x10,
        Inst::GT => 0x11,
        Inst::GTE => 0x12,
        Inst::LT => 0x13,
        Inst::LTE => 0x14,
        Inst::ATOM => 0x15,
        Inst::NULL => 0x16,
        Inst::READC => 0x17,
        Inst::WRITEC => 0x18,
        Inst::CONS => 0x19,
        Inst::CAR => 0x1A,
        Inst::CDR => 0x1B,
        Inst::LDC => 0x1C,
        Inst::STOP => 0x1D,
    }
}

/// The bytes of an atom: its tag, then its payload.
pub open spec fn atom_bytes(a: Atom) -> Seq<u8> {
    match a {
        Atom::UInt(v) => seq![TAG_UINT] + u64_be(v),
        Atom::SInt(v) => seq![TAG_SINT] + u64_be(v as u64),
        Atom::Char(c) => seq![TAG_CHAR] + u32_be(c as u32),
        Atom::Float(bits) => seq![TAG_FLOAT] + u64_be(bits),
    }
}

/// The bytes of a cell.
pub open spec fn cell_bytes(c: SVMCell) -> Seq<u8>
    decreases c,
{
    match c {
        SVMCell::AtomCell(a) => atom_bytes(a),
        SVMCell::InstCell(i) => seq![opcode(i)],
        SVMCell::ListCell(l) => list_bytes(*l),
    }
}

/// The bytes of a list: a pair tag, the head and the rest, for each item; then `0x00`.
pub open spec fn list_bytes(l: List<SVMCell>) -> Seq<u8>
    decreases l,
{
    match l {
        List::Cons(h, t) => seq![BYTE_CONS] + cell_bytes(h) + list_bytes(*t),
        List::Nil => seq![BYTE_NIL],
    }
}

/// Values that turn into bytes.
pub trait Encode {
    /// The bytes that `emit` writes.
    spec fn encoding(&self) -> Seq<u8>;

    /// The value in the tagged binary format.
    fn emit(&self) -> (r: Vec<u8>)
        ensures
            r@ == self.encoding(),
    ;
}

fn inst_byte(i: Inst) -> (r: u8)
    ensures
        r == opcode(i),
{
    match i {
        Inst::NIL => 0x00,
        Inst::LD => 0x01,
        Inst::LDF => 0x02,
        Inst::AP => 0x03,
        Inst::APCC => 0x04,
        Inst::JOIN => 0x05,
        Inst::RAP => 0x06,
        Inst::RET => 0x07,
        Inst::DUM => 0x08,
        Inst::SEL => 0x09,
        Inst::ADD => 0x0A,
        Inst::SUB => 0x0B,
        Inst::MUL => 0x0C,
        Inst::DIV => 0x0D,
        Inst::MOD => 0x0E,
        Inst::FDIV => 0x0F,
        Inst::EQ => 0x10,
        Inst::GT => 0x11,
        Inst::GTE => 0x12,
        Inst::LT => 0x13,
        Inst::LTE => 0x14,
        Inst::ATOM => 0x15,
        Inst::NULL => 0x16,
        Inst::READC => 0x17,
        Inst::WRITEC => 0x18,
        Inst::CONS => 0x19,
        Inst::CAR => 0x1A,
        Inst::CDR => 0x1B,
        Inst::LDC => 0x1C,
        Inst::STOP => 0x1D,
    }
}

fn put_atom(a: &Atom, out: &mut Vec<u8>)
    ensures
        final(out)@ == old(out)@ + atom_bytes(*a),
{
    let mut payload = match a {
        Atom::UInt(v) => {
            out.push(TAG_UINT);
            write_u64(*v)
        },
        Atom::SInt(v) => {
            out.push(TAG_SINT);
            write_i64(*v)
        },
        Atom::Char(c) => {
            out.push(TAG_CHAR);
            write_u32(*c as u32)
        },
        Atom::Float(bits) => {
            out.push(TAG_FLOAT);
            write_u64(*bits)
        },
    };
    out.append(&mut payload);
    proof {
        let tag = match *a {
            Atom::UInt(_) => TAG_UINT,
            Atom::SInt(_) => TAG_SINT,
            Atom::Char(_) => TAG_CHAR,
            Atom::Float(_) => TAG_FLOAT,
        };
        assert(atom_bytes(*a) == seq![tag] + atom_bytes(*a).drop_first());
        assert(out@ =~= old(out)@ + atom_bytes(*a));
    }
}

fn put_cell(c: &SVMCell, out: &mut Vec<u8>)
    ensures
        final(out)@ == old(out)@ + cell_bytes(*c),
    decreases c, 1nat,
{
    match c {
        SVMCell::AtomCell(a) => put_atom(a, out),
        SVMCell::InstCell(i) => {
            out.push(inst_byte(*i));
        },
        SVMCell::ListCell(l) => put_list(&**l, out),
    }
}

fn put_list(l: &List<SVMCell>, out: &mut Vec<u8>)
    ensures
        final(out)@ == old(out)@ + list_bytes(*l),
    decreases l, 0nat,
{
    match l {
        List::Cons(h, t) => {
            out.push(BYTE_CONS);
            put_cell(h, out);
            put_list(&**t, out);
            proof {
                assert(out@ =~= old(out)@ + list_bytes(*l));
            }
        },
        List::Nil => {
            out.push(BYTE_NIL);
        },
    }
}

impl Encode for Inst {
    open spec fn encoding(&self) -> Seq<u8> {
        seq![opcode(*self)]
    }

    fn emit(&self) -> (r: Vec<u8>) {
        let mut out: Vec<u8> = Vec::new();
        out.push(inst_byte(*self));
        proof {
            assert(out@ =~= seq![opcode(*self)]);
        }
        out
    }
}

impl Encode for Atom {
    open spec fn encoding(&self) -> Seq<u8> {
        atom_bytes(*self)
    }

    fn emit(&self) -> (r: Vec<u8>) {
        let mut out: Vec<u8> = Vec::new();
        put_atom(self, &mut out);
        proof {
            assert(out@ =~= atom_bytes(*self));
        }
        out
    }
}

impl Encode for SVMCell {
    open spec fn encoding(&self) -> Seq<u8> {
        cell_bytes(*self)
    }

    fn emit(&self) -> (r: Vec<u8>) {
        let mut out: Vec<u8> = Vec::new();
        put_cell(self, &mut out);
        proof {
            assert(out@ =~= cell_bytes(*self));
        }
        out
    }
}

impl Encode for List<SVMCell> {
    open spec fn encoding(&self) -> Seq<u8> {
        list_bytes(*self)
    }

    fn emit(&self) -> (r: Vec<u8>) {
        let mut out: Vec<u8> = Vec::new();
        put_list(self, &mut out);
        proof {
            assert(out@ =~= list_bytes(*self));
        }
        out
    }
}

// ---------------------------------------------------------------------------------------
// Decoding
// ---------------------------------------------------------------------------------------
/// Why bytes could not be decoded.
#[derive(Debug, Clone, Copy, PartialEq, Eq, Structural)]
pub enum DecodeError {
    /// The first two bytes are not the identifying bytes; they spell the number held.
    BadMagic(u16),
    /// The preamble names a revision of the format other than the one read here.
    UnsupportedVersion(u16),
    /// A byte from the block kept for future opcodes.
    ReservedOpcode(u8),
    /// The bytes end inside a value.
    TruncatedInput,
    /// A character payload that is no Unicode scalar value.
    InvalidCharScalar(u32),
    /// A byte that is neither an opcode nor a tag that may stand where it stands.
    UnknownTag(u8),
}

/// The opcode of a byte up to `LAST_OPCODE`.
pub open spec fn inst_of(b: u8) -> Inst {
    match b {
        0x00 => Inst::NIL,
        0x01 => Inst::LD,
        0x02 => Inst::LDF,
        0x03 => Inst::AP,
        0x04 => Inst::APCC,
        0x05 => Inst::JOIN,
        0x06 => Inst::RAP,
        0x07 => Inst::RET,
        0x08 => Inst::DUM,
        0x09 => Inst::SEL,
        0x0A => Inst::ADD,
        0x0B => Inst::SUB,
        0x0C => Inst::MUL,
        0x0D => Inst::DIV,
        0x0E => Inst::MOD,
        0x0F => Inst::FDIV,
        0x10 => Inst::EQ,
        0x11 => Inst::GT,
        0x12 => Inst::GTE,
        0x13 => Inst::LT,
        0x14 => Inst::LTE,
        0x15 => Inst::ATOM,
        0x16 => Inst::NULL,
        0x17 => Inst::READC,
        0x18 => Inst::WRITEC,
        0x19 => Inst::CONS,
        0x1A => Inst::CAR,
        0x1B => Inst::CDR,
        0x1C => Inst::LDC,
        _ => Inst::STOP,
    }
}

/// Whether a number is a Unicode scalar value.
pub open spec fn is_scalar(n: u32) -> bool {
    n < 0xD800 || (0xE000 <= n && n <= 0x10FFFF)
}

/// Relies on std's `char::from_u32`: a character exactly for the Unicode scalar values, the
/// one with that value.
#[verifier::external_body]
fn char_from_u32(n: u32) -> (r: Option<char>)
    ensures
        r.is_some() == is_scalar(n),
        r matches Some(c) ==> c as u32 == n,
{
    char::from_u32(n)
}

/// The atom whose payload starts at `p`, after a tag from `TAG_UINT` to `TAG_FLOAT`, and
/// where it ends.
pub open spec fn parse_atom(s: Seq<u8>, p: int, tag: u8) -> Result<(SVMCell, int), (DecodeError, int)> {
    if tag == TAG_CHAR {
        if p + 4 > s.len() {
            Err((DecodeError::TruncatedInput, p))
        } else {
            let n = be_u32(s.subrange(p, p + 4));
            if is_scalar(n) {
                Ok((SVMCell::AtomCell(Atom::Char(n as char)), p + 4))
            } else {
                Err((DecodeError::InvalidCharScalar(n), p + 4))
            }
        }
    } else if p + 8 > s.len() {
        Err((DecodeError::TruncatedInput, p))
    } else {
        let v = be_u64(s.subrange(p, p + 8));
        let a = if tag == TAG_UINT {
            Atom::UInt(v)
        } else if tag == TAG_SINT {
            Atom::SInt(v as i64)
        } else {
            Atom::Float(v)
        };
        Ok((SVMCell::AtomCell(a), p + 8))
    }
}

/// The cell whose encoding starts at `p`, and where it ends; or the error met, and where
/// reading stopped.
pub open spec fn parse_cell(s: Seq<u8>, p: int) -> Result<(SVMCell, int), (DecodeError, int)>
    decreases s.len() - p, 1nat,
{
    if p < 0 || p >= s.len() {
        Err((DecodeError::TruncatedInput, p))
    } else {
        let b = s[p];
        if b <= LAST_OPCODE {
            Ok((SVMCell::InstCell(inst_of(b)), p + 1))
        } else if b <= LAST_RESERVED {
            Err((DecodeError::ReservedOpcode(b), p + 1))
        } else if b == BYTE_CONS {
            match parse_pairs(s, p + 1) {
                Ok((l, q)) => Ok((SVMCell::ListCell(Box::new(l)), q)),
                Err(e) => Err(e),
            }
        } else if TAG_UINT <= b && b <= TAG_FLOAT {
            parse_atom(s, p + 1, b)
        } else {
            Err((DecodeError::UnknownTag(b), p + 1))
        }
    }
}

/// The list whose first pair's head starts at `p`, just after a pair tag, and where it ends.
pub open spec fn parse_pairs(s: Seq<u8>, p: int) -> Result<(List<SVMCell>, int), (DecodeError, int)>
    decreases s.len() - p, 2nat,
{
    match parse_cell(s, p) {
        Err(e) => Err(e),
        Ok((car, q)) => {
            if q <= p || q >= s.len() {
                Err((DecodeError::TruncatedInput, q))
            } else if s[q] == BYTE_CONS {
                match parse_pairs(s, q + 1) {
                    Ok((cdr, r)) => Ok((List::Cons(car, Box::new(cdr)), r)),
                    Err(e) => Err(e),
                }
            } else if s[q] == BYTE_NIL {
                Ok((List::Cons(car, Box::new(List::Nil)), q + 1))
            } else {
                Err((DecodeError::UnknownTag(s[q]), q + 1))
            }
        },
    }
}

/// Whether an exec result with positions agrees with a spec result with positions.
pub open spec fn agrees<T>(
    r: Result<(T, usize), (DecodeError, usize)>,
    s: Result<(T, int), (DecodeError, int)>,
) -> bool {
    match r {
        Ok((x, q)) => s == Ok::<(T, int), (DecodeError, int)>((x, q as int)),
        Err((e, q)) => s == Err::<(T, int), (DecodeError, int)>((e, q as int)),
    }
}

/// The opcode of a byte, or why the byte is none.
fn decode_inst(byte: u8) -> (r: Result<Inst, DecodeError>)
    ensures
        byte <= LAST_OPCODE ==> r == Ok::<Inst, DecodeError>(inst_of(byte)),
        LAST_OPCODE < byte <= LAST_RESERVED ==> r == Err::<Inst, DecodeError>(
            DecodeError::ReservedOpcode(byte),
        ),
        LAST_RESERVED < byte ==> r == Err::<Inst, DecodeError>(DecodeError::UnknownTag(byte)),
{
    match byte {
        0x00 => Ok(Inst::NIL),
        0x01 => Ok(Inst::LD),
        0x02 => Ok(Inst::LDF),
        0x03 => Ok(Inst::AP),
        0x04 => Ok(Inst::APCC),
        0x05 => Ok(Inst::JOIN),
        0x06 => Ok(Inst::RAP),
        0x07 => Ok(Inst::RET),
        0x08 => Ok(Inst::DUM),
        0x09 => Ok(Inst::SEL),
        0x0A => Ok(Inst::ADD),
        0x0B => Ok(Inst::SUB),
        0x0C => Ok(Inst::MUL),
        0x0D => Ok(Inst::DIV),
        0x0E => Ok(Inst::MOD),
        0x0F => Ok(Inst::FDIV),
        0x10 => Ok(Inst::EQ),
        0x11 => Ok(Inst::GT),
        0x12 => Ok(Inst::GTE),
        0x13 => Ok(Inst::LT),
        0x14 => Ok(Inst::LTE),
        0x15 => Ok(Inst::ATOM),
        0x16 => Ok(Inst::NULL),
        0x17 => Ok(Inst::READC),
        0x18 => Ok(Inst::WRITEC),
        0x19 => Ok(Inst::CONS),
        0x1A => Ok(Inst::CAR),
        0x1B => Ok(Inst::CDR),
        0x1C => Ok(Inst::LDC),
        0x1D => Ok(Inst::STOP),
        b => {
            if b <= LAST_RESERVED {
                Err(DecodeError::ReservedOpcode(b))
            } else {
                Err(DecodeError::UnknownTag(b))
            }
        },
    }
}

/// A reader of tagged values from a buffer, which counts the bytes it has consumed.
#[derive(Debug)]
pub struct Decoder {
    source: Vec<u8>,
    num_read: usize,
}

impl Decoder {
    /// The bytes being read.
    pub closed spec fn bytes(&self) -> Seq<u8> {
        self.source@
    }

    /// How many bytes have been consumed.
    pub closed spec fn pos(&self) -> int {
        self.num_read as int
    }

    /// A decoder at the start of `src`.
    pub fn new(src: Vec<u8>) -> (r: Decoder)
        ensures
            r.bytes() == src@,
            r.pos() == 0,
    {
        Decoder { source: src, num_read: 0 }
    }

    /// The number of bytes consumed so far.
    pub fn num_read(&self) -> (r: usize)
        ensures
            r == self.pos(),
    {
        self.num_read
    }

    /// The next two bytes as a number, where there are two more.
    fn read_field(&mut self) -> (r: Option<u16>)
        ensures
            final(self).bytes() == old(self).bytes(),
            old(self).pos() + 2 <= old(self).bytes().len() ==> final(self).pos() == old(self).pos()
                + 2 && r == Some(
                be_u16(old(self).bytes().subrange(old(self).pos(), old(self).pos() + 2)),
            ),
            old(self).pos() + 2 > old(self).bytes().len() ==> final(self).pos() == old(self).pos()
                && r is None,
    {
        let p = self.num_read;
        if p <= self.source.len() && self.source.len() - p >= 2 {
            let v = read_u16(vstd::slice::slice_subrange(self.source.as_slice(), p, p + 2));
            self.num_read = p + 2;
            Some(v)
        } else {
            None
        }
    }

    /// Consumes the two identifying bytes, failing unless they are `IDENT_BYTES`.
    pub fn check_ident_bytes(&mut self) -> (r: Result<(), DecodeError>)
        ensures
            final(self).bytes() == old(self).bytes(),
            old(self).pos() + 2 <= old(self).bytes().len() ==> {
                let v = be_u16(old(self).bytes().subrange(old(self).pos(), old(self).pos() + 2));
                &&& final(self).pos() == old(self).pos() + 2
                &&& r == if v == IDENT_BYTES {
                    Ok::<(), DecodeError>(())
                } else {
                    Err(DecodeError::BadMagic(v))
                }
            },
            old(self).pos() + 2 > old(self).bytes().len() ==> final(self).pos() == old(self).pos()
                && r == Err::<(), DecodeError>(DecodeError::TruncatedInput),
    {
        match self.read_field() {
            Some(v) => {
                if v == IDENT_BYTES {
                    Ok(())
                } else {
                    Err(DecodeError::BadMagic(v))
                }
            },
            None => Err(DecodeError::TruncatedInput),
        }
    }

    /// Consumes the two bytes of the format's revision, failing unless it is `VERSION`.
    pub fn check_version(&mut self) -> (r: Result<(), DecodeError>)
        ensures
            final(self).bytes() == old(self).bytes(),
            old(self).pos() + 2 <= old(self).bytes().len() ==> {
                let v = be_u16(old(self).bytes().subrange(old(self).pos(), old(self).pos() + 2));
                &&& final(self).pos() == old(self).pos() + 2
                &&& r == if v == VERSION {
                    Ok::<(), DecodeError>(())
                } else {
                    Err(DecodeError::UnsupportedVersion(v))
                }
            },
            old(self).pos() + 2 > old(self).bytes().len() ==> final(self).pos() == old(self).pos()
                && r == Err::<(), DecodeError>(DecodeError::TruncatedInput),
    {
        match self.read_field() {
            Some(v) => {
                if v == VERSION {
                    Ok(())
                } else {
                    Err(DecodeError::UnsupportedVersion(v))
                }
            },
            None => Err(DecodeError::TruncatedInput),
        }
    }

    /// The atom whose payload starts at `p`.
    fn decode_const(&self, tag: u8, p: usize) -> (r: Result<(SVMCell, usize), (DecodeError, usize)>)
        requires
            TAG_UINT <= tag <= TAG_FLOAT,
            p <= self.bytes().len(),
        ensures
            agrees(r, parse_atom(self.bytes(), p as int, tag)),
            r matches Ok((_, q)) ==> p < q <= self.bytes().len(),
            r matches Err((_, q)) ==> p <= q <= self.bytes().len(),
    {
        let len = self.source.len();
        if tag == TAG_CHAR {
            if len - p < 4 {
                return Err((DecodeError::TruncatedInput, p));
            }
            let n = read_u32(vstd::slice::slice_subrange(self.source.as_slice(), p, p + 4));
            match char_from_u32(n) {
                Some(c) => {
                    proof {
                        vstd::utf8::char_u32_cast(c, n);
                    }
                    Ok((SVMCell::AtomCell(Atom::Char(c)), p + 4))
                },
                None => Err((DecodeError::InvalidCharScalar(n), p + 4)),
            }
        } else {
            if len - p < 8 {
                return Err((DecodeError::TruncatedInput, p));
            }
            let payload = vstd::slice::slice_subrange(self.source.as_slice(), p, p + 8);
            let a = if tag == TAG_UINT {
                Atom::UInt(read_u64(payload))
            } else if tag == TAG_SINT {
                Atom::SInt(read_i64(payload))
            } else {
                Atom::Float(read_u64(payload))
            };
            Ok((SVMCell::AtomCell(a), p + 8))
        }
    }

    /// The cell whose encoding starts at `p`.
    fn cell_at(&self, p: usize) -> (r: Result<(SVMCell, usize), (DecodeError, usize)>)
        requires
            p <= self.bytes().len(),
        ensures
            agrees(r, parse_cell(self.bytes(), p as int)),
            r matches Ok((_, q)) ==> p < q <= self.bytes().len(),
            r matches Err((_, q)) ==> p <= q <= self.bytes().len(),
        decreases self.bytes().len() - p, 1nat,
    {
        if p >= self.source.len() {
            return Err((DecodeError::TruncatedInput, p));
        }
        let b = self.source[p];
        if b == BYTE_CONS {
            match self.decode_cons(p + 1) {
                Ok((l, q)) => Ok((SVMCell::ListCell(Box::new(l)), q)),
                Err(e) => Err(e),
            }
        } else if TAG_UINT <= b && b <= TAG_FLOAT {
            self.decode_const(b, p + 1)
        } else {
            match decode_inst(b) {
                Ok(i) => Ok((SVMCell::InstCell(i), p + 1)),
                Err(e) => Err((e, p + 1)),
            }
        }
    }

    /// The list whose first head starts at `p`, just after a pair tag.
    fn decode_cons(&self, p: usize) -> (r: Result<(List<SVMCell>, usize), (DecodeError, usize)>)
        requires
            p <= self.bytes().len(),
        ensures
            agrees(r, parse_pairs(self.bytes(), p as int)),
            r matches Ok((_, q)) ==> p < q <= self.bytes().len(),
            r matches Err((_, q)) ==> p <= q <= self.bytes().len(),
        decreases self.bytes().len() - p, 2nat,
    {
        match self.cell_at(p) {
            Err(e) => Err(e),
            Ok((car, q)) => {
                if q >= self.source.len() {
                    Err((DecodeError::TruncatedInput, q))
                } else if self.source[q] == BYTE_CONS {
                    match self.decode_cons(q + 1) {
                        Ok((cdr, r)) => Ok((List::Cons(car, Box::new(cdr)), r)),
                        Err(e) => Err(e),
                    }
                } else if self.source[q] == BYTE_NIL {
                    Ok((List::Cons(car, Box::new(List::Nil)), q + 1))
                } else {
                    Err((DecodeError::UnknownTag(self.source[q]), q + 1))
                }
            },
        }
    }

    /// Decodes the next cell. At the end of the bytes there is none; after an error the
    /// count of consumed bytes says where reading stopped.
    pub fn next_cell(&mut self) -> (r: Result<Option<SVMCell>, DecodeError>)
        ensures
            final(self).bytes() == old(self).bytes(),
            old(self).pos() >= old(self).bytes().len() ==> r == Ok::<Option<SVMCell>, DecodeError>(
                None,
            ) && final(self).pos() == old(self).pos(),
            old(self).pos() < old(self).bytes().len() ==> match parse_cell(
                old(self).bytes(),
                old(self).pos(),
            ) {
                Ok((c, q)) => r == Ok::<Option<SVMCell>, DecodeError>(Some(c)) && final(self).pos()
                    == q,
                Err((e, q)) => r == Err::<Option<SVMCell>, DecodeError>(e) && final(self).pos()
                    == q,
            },
            r matches Ok(Some(_)) ==> old(self).pos() < final(self).pos() && final(self).pos()
                <= final(self).bytes().len(),
    {
        if self.num_read >= self.source.len() {
            return Ok(None);
        }
        match self.cell_at(self.num_read) {
            Ok((c, q)) => {
                self.num_read = q;
                Ok(Some(c))
            },
            Err((e, q)) => {
                self.num_read = q;
                Err(e)
            },
        }
    }
}

/// The cells read one after another from `p` to the end of the bytes, and the error that
/// stopped reading, if any, with where it stopped.
pub open spec fn parse_cells(s: Seq<u8>, p: int) -> (Seq<SVMCell>, Option<(DecodeError, int)>)
    decreases s.len() - p,
{
    if p < 0 || p >= s.len() {
        (Seq::empty(), None)
    } else {
        match parse_cell(s, p) {
            Ok((c, q)) => {
                if q <= p || q > s.len() {
                    (Seq::empty(), None)
                } else {
                    let rest = parse_cells(s, q);
                    (seq![c] + rest.0, rest.1)
                }
            },
            Err(e) => (Seq::empty(), Some(e)),
        }
    }
}

/// Where decoding a program failed: the error, the cells decoded before it, and how many
/// bytes had been consumed.
#[derive(Debug, PartialEq)]
pub struct DecodeFailure {
    pub error: DecodeError,
    pub prefix: List<SVMCell>,
    pub num_read: usize,
}

/// Decodes a whole program: the preamble, then every cell to the end of the bytes, in
/// order. Bad identifying bytes or a cut-off preamble are fatal; a revision other than
/// `VERSION` is not, and decoding goes on.
pub fn decode_program(source: Vec<u8>) -> (r: Result<List<SVMCell>, DecodeFailure>)
    ensures
        ({
            let s = source@;
            if s.len() < 2 {
                r matches Err(f) && f.error == DecodeError::TruncatedInput && f.prefix@.len() == 0
                    && f.num_read == 0
            } else if be_u16(s.subrange(0, 2)) != IDENT_BYTES {
                r matches Err(f) && f.error == DecodeError::BadMagic(be_u16(s.subrange(0, 2)))
                    && f.prefix@.len() == 0 && f.num_read == 2
            } else if s.len() < 4 {
                r matches Err(f) && f.error == DecodeError::TruncatedInput && f.prefix@.len() == 0
                    && f.num_read == 2
            } else {
                let cells = parse_cells(s, 4).0;
                match parse_cells(s, 4).1 {
                    None => r matches Ok(l) && l@ == cells,
                    Some((e, q)) => r matches Err(f) && f.error == e && f.prefix@ == cells
                        && f.num_read == q,
                }
            }
        }),
{
    let ghost s = source@;
    let mut decoder = Decoder::new(source);
    if let Err(e) = decoder.check_ident_bytes() {
        return Err(DecodeFailure { error: e, prefix: List::Nil, num_read: decoder.num_read() });
    }
    if let Err(e) = decoder.check_version() {
        if e == DecodeError::TruncatedInput {
            return Err(
                DecodeFailure { error: e, prefix: List::Nil, num_read: decoder.num_read() },
            );
        }
    }
    let mut cells: Vec<SVMCell> = Vec::new();
    loop
        invariant
            decoder.bytes() == s,
            s == source@,
            s.len() >= 4,
            be_u16(s.subrange(0, 2)) == IDENT_BYTES,
            4 <= decoder.pos() <= s.len(),
            parse_cells(s, 4) == (cells@ + parse_cells(s, decoder.pos()).0, parse_cells(
                s,
                decoder.pos(),
            ).1),
        decreases s.len() - decoder.pos(),
    {
        let ghost p = decoder.pos();
        match decoder.next_cell() {
            Ok(Some(c)) => {
                proof {
                    let rest = parse_cells(s, decoder.pos());
                    assert(parse_cells(s, p) == (seq![c] + rest.0, rest.1));
                    assert(cells@.push(c) + rest.0 =~= cells@ + (seq![c] + rest.0));
                }
                cells.push(c);
            },
            Ok(None) => {
                proof {
                    assert(cells@ + Seq::<SVMCell>::empty() =~= cells@);
                }
                return Ok(List::from_vec(cells));
            },
            Err(e) => {
                proof {
                    assert(cells@ + Seq::<SVMCell>::empty() =~= cells@);
                }
                let n = decoder.num_read();
                return Err(DecodeFailure { error: e, prefix: List::from_vec(cells), num_read: n });
            },
        }
    }
}

// ---------------------------------------------------------------------------------------
// Encoding and decoding are inverse
// ---------------------------------------------------------------------------------------
/// Whether the format can spell a cell: no empty list stands in a value's place, where
/// `0x00` reads as NIL.
pub open spec fn wire_cell(c: SVMCell) -> bool
    decreases c,
{
    match c {
        SVMCell::ListCell(l) => (*l) is Cons && wire_list(*l),
        _ => true,
    }
}

/// Whether the format can spell every item of a list.
pub open spec fn wire_list(l: List<SVMCell>) -> bool
    decreases l,
{
    match l {
        List::Cons(h, t) => wire_cell(h) && wire_list(*t),
        List::Nil => true,
    }
}

/// A piece of a piece of `s` is a piece of `s`.
proof fn lemma_sub_of_sub(s: Seq<u8>, p: int, whole: Seq<u8>, off: int, part: Seq<u8>)
    requires
        0 <= p,
        p + whole.len() <= s.len(),
        s.subrange(p, p + whole.len()) == whole,
        0 <= off,
        off + part.len() <= whole.len(),
        whole.subrange(off, off + part.len()) == part,
    ensures
        s.subrange(p + off, p + off + part.len()) == part,
{
    assert forall|i: int| 0 <= i < part.len() implies s.subrange(p + off, p + off + part.len())[i]
        == part[i] by {
        assert(part[i] == whole.subrange(off, off + part.len())[i]);
        assert(whole[off + i] == s.subrange(p, p + whole.len())[off + i]);
    }
    assert(s.subrange(p + off, p + off + part.len()) =~= part);
}

proof fn lemma_parse_atom_bytes(a: Atom, s: Seq<u8>, p: int)
    requires
        0 <= p,
        p + atom_bytes(a).len() <= s.len(),
        s.subrange(p, p + atom_bytes(a).len()) == atom_bytes(a),
    ensures
        parse_cell(s, p) == Ok::<(SVMCell, int), (DecodeError, int)>(
            (SVMCell::AtomCell(a), p + atom_bytes(a).len()),
        ),
{
    let b = atom_bytes(a);
    assert(s[p] == s.subrange(p, p + b.len())[0]);
    assert(b.subrange(1, b.len() as int) =~= b.drop_first());
    lemma_sub_of_sub(s, p, b, 1, b.drop_first());
    match a {
        Atom::UInt(v) => {
            assert(b.drop_first() =~= u64_be(v));
            lemma_u64_be_inverse(v);
        },
        Atom::SInt(v) => {
            assert(b.drop_first() =~= u64_be(v as u64));
            lemma_u64_be_inverse(v as u64);
            assert((v as u64) as i64 == v) by (bit_vector);
        },
        Atom::Char(c) => {
            assert(b.drop_first() =~= u32_be(c as u32));
            lemma_u32_be_inverse(c as u32);
            vstd::utf8::char_u32_cast(c, c as u32);
            vstd::utf8::char_is_scalar(c);
        },
        Atom::Float(v) => {
            assert(b.drop_first() =~= u64_be(v));
            lemma_u64_be_inverse(v);
        },
    }
}

proof fn lemma_parse_cell_bytes(c: SVMCell, s: Seq<u8>, p: int)
    requires
        wire_cell(c),
        0 <= p,
        p + cell_bytes(c).len() <= s.len(),
        s.subrange(p, p + cell_bytes(c).len()) == cell_bytes(c),
    ensures
        parse_cell(s, p) == Ok::<(SVMCell, int), (DecodeError, int)>(
            (c, p + cell_bytes(c).len()),
        ),
    decreases c, 1nat,
{
    let b = cell_bytes(c);
    assert(s[p] == b[0]);
    match c {
        SVMCell::AtomCell(a) => lemma_parse_atom_bytes(a, s, p),
        SVMCell::InstCell(i) => {},
        SVMCell::ListCell(l) => {
            lemma_parse_pairs_bytes(*l, s, p + 1);
        },
    }
}

proof fn lemma_parse_pairs_bytes(l: List<SVMCell>, s: Seq<u8>, p: int)
    requires
        l is Cons,
        wire_list(l),
        1 <= p,
        p - 1 + list_bytes(l).len() <= s.len(),
        s.subrange(p - 1, p - 1 + list_bytes(l).len()) == list_bytes(l),
    ensures
        parse_pairs(s, p) == Ok::<(List<SVMCell>, int), (DecodeError, int)>(
            (l, p - 1 + list_bytes(l).len()),
        ),
    decreases l, 0nat,
{
    if let List::Cons(h, t) = l {
        let hb = cell_bytes(h);
        let tb = list_bytes(*t);
        let q = p + hb.len();
        assert(list_bytes(l) == seq![BYTE_CONS] + hb + tb);
        assert(s.subrange(p, q) =~= hb) by {
            assert forall|i: int| 0 <= i < hb.len() implies s.subrange(p, q)[i] == hb[i] by {
                assert(s.subrange(p, q)[i] == s.subrange(p - 1, p - 1 + list_bytes(l).len())[i
                    + 1]);
            }
        }
        lemma_parse_cell_bytes(h, s, p);
        assert(s.subrange(q, q + tb.len()) =~= tb) by {
            assert forall|i: int| 0 <= i < tb.len() implies s.subrange(q, q + tb.len())[i]
                == tb[i] by {
                assert(s.subrange(q, q + tb.len())[i] == s.subrange(
                    p - 1,
                    p - 1 + list_bytes(l).len(),
                )[i + 1 + hb.len()]);
            }
        }
        assert(s[q] == tb[0]);
        match *t {
            List::Cons(_, _) => {
                lemma_parse_pairs_bytes(*t, s, q + 1);
            },
            List::Nil => {},
        }
    }
}

/// Encoding a cell that the format can spell, then decoding the bytes, gives back the
/// cell, and consumes exactly its bytes, whatever follows them.
pub proof fn lemma_encode_decode(c: SVMCell, rest: Seq<u8>)
    requires
        wire_cell(c),
    ensures
        parse_cell(cell_bytes(c) + rest, 0) == Ok::<(SVMCell, int), (DecodeError, int)>(
            (c, cell_bytes(c).len() as int),
        ),
{
    let s = cell_bytes(c) + rest;
    assert(s.subrange(0, cell_bytes(c).len() as int) =~= cell_bytes(c));
    lemma_parse_cell_bytes(c, s, 0);
}

proof fn lemma_parsed_cell_bytes(s: Seq<u8>, p: int)
    requires
        0 <= p,
    ensures
        parse_cell(s, p) matches Ok((c, q)) ==> p < q <= s.len() && wire_cell(c) && cell_bytes(c)
            == s.subrange(p, q),
    decreases s.len() - p, 1nat,
{
    if p < s.len() {
        let b = s[p];
        if b <= LAST_OPCODE {
            assert(cell_bytes(SVMCell::InstCell(inst_of(b))) =~= s.subrange(p, p + 1));
        } else if b == BYTE_CONS {
            lemma_parsed_pairs_bytes(s, p + 1);
            if let Ok((l, q)) = parse_pairs(s, p + 1) {
                assert(seq![BYTE_CONS] + s.subrange(p + 1, q) =~= s.subrange(p, q));
            }
        } else if TAG_UINT <= b && b <= TAG_FLOAT {
            if let Ok((c, q)) = parse_cell(s, p) {
                let payload = s.subrange(p + 1, q);
                assert(s.subrange(p, q) =~= seq![b] + payload);
                if b == TAG_CHAR {
                    let n = be_u32(payload);
                    lemma_be_u32_inverse(payload);
                    assert((n as char) as u32 == n);
                } else {
                    let v = be_u64(payload);
                    lemma_be_u64_inverse(payload);
                    if b == TAG_SINT {
                        assert((v as i64) as u64 == v) by (bit_vector);
                    }
                }
            }
        }
    }
}

proof fn lemma_parsed_pairs_bytes(s: Seq<u8>, p: int)
    requires
        0 <= p,
    ensures
        parse_pairs(s, p) matches Ok((l, q)) ==> p < q <= s.len() && l is Cons && wire_list(l)
            && list_bytes(l) == seq![BYTE_CONS] + s.subrange(p, q),
    decreases s.len() - p, 2nat,
{
    lemma_parsed_cell_bytes(s, p);
    if let Ok((car, q)) = parse_cell(s, p) {
        if q < s.len() {
            if s[q] == BYTE_CONS {
                lemma_parsed_pairs_bytes(s, q + 1);
                if let Ok((cdr, r)) = parse_pairs(s, q + 1) {
                    let l = List::Cons(car, Box::new(cdr));
                    assert(list_bytes(l) == seq![BYTE_CONS] + cell_bytes(car) + list_bytes(cdr));
                    assert(wire_list(l));
                    assert(seq![BYTE_CONS] + s.subrange(p, r) =~= seq![BYTE_CONS] + s.subrange(
                        p,
                        q,
                    ) + (seq![BYTE_CONS] + s.subrange(q + 1, r)));
                }
            } else if s[q] == BYTE_NIL {
                let l = List::Cons(car, Box::new(List::Nil));
                assert(wire_list(List::<SVMCell>::Nil));
                assert(list_bytes(l) == seq![BYTE_CONS] + cell_bytes(car) + list_bytes(List::Nil));
                assert(wire_list(l));
                assert(seq![BYTE_CONS] + s.subrange(p, q + 1) =~= seq![BYTE_CONS] + s.subrange(
                    p,
                    q,
                ) + seq![BYTE_NIL]);
            }
        }
    }
}

/// Decoding a cell and encoding it again gives back exactly the bytes that were consumed;
/// and what is decoded is always a cell that the format can spell.
pub proof fn lemma_decode_encode(s: Seq<u8>, p: int)
    requires
        0 <= p,
    ensures
        parse_cell(s, p) matches Ok((c, q)) ==> wire_cell(c) && cell_bytes(c) == s.subrange(p, q),
{
    lemma_parsed_cell_bytes(s, p);
}

/// The bytes of cells written one after another.
pub open spec fn cells_bytes(cs: Seq<SVMCell>) -> Seq<u8>
    decreases cs.len(),
{
    if cs.len() == 0 {
        Seq::empty()
    } else {
        cell_bytes(cs[0]) + cells_bytes(cs.drop_first())
    }
}

proof fn lemma_parse_cells_bytes(cs: Seq<SVMCell>, s: Seq<u8>, p: int)
    requires
        forall|i: int| 0 <= i < cs.len() ==> wire_cell(#[trigger] cs[i]),
        0 <= p,
        p + cells_bytes(cs).len() == s.len(),
        s.subrange(p, s.len() as int) == cells_bytes(cs),
    ensures
        parse_cells(s, p) == (cs, None::<(DecodeError, int)>),
    decreases cs.len(),
{
    if cs.len() == 0 {
        assert(parse_cells(s, p).0 =~= cs);
    } else {
        let c = cs[0];
        let cb = cell_bytes(c);
        let rest = cs.drop_first();
        assert(cb.len() > 0) by {
            match c {
                SVMCell::AtomCell(a) => {},
                SVMCell::InstCell(i) => {},
                SVMCell::ListCell(l) => {
                    match *l {
                        List::Cons(_, _) => {},
                        List::Nil => {},
                    }
                },
            }
        }
        assert(cells_bytes(cs) == cb + cells_bytes(rest));
        assert(cells_bytes(cs).subrange(0, cb.len() as int) =~= cb);
        lemma_sub_of_sub(s, p, cells_bytes(cs), 0, cb);
        lemma_parse_cell_bytes(c, s, p);
        let q = p + cb.len();
        assert(cells_bytes(cs).subrange(cb.len() as int, cells_bytes(cs).len() as int) =~= cells_bytes(
            rest,
        ));
        lemma_sub_of_sub(s, p, cells_bytes(cs), cb.len() as int, cells_bytes(rest));
        assert forall|i: int| 0 <= i < rest.len() implies wire_cell(#[trigger] rest[i]) by {
            assert(rest[i] == cs[i + 1]);
        }
        lemma_parse_cells_bytes(rest, s, q);
        assert(seq![c] + rest =~= cs);
    }
}

/// A program written as the preamble and then its cells, each of which the format can
/// spell, decodes to exactly those cells.
pub proof fn lemma_program_round_trip(cs: Seq<SVMCell>)
    requires
        forall|i: int| 0 <= i < cs.len() ==> wire_cell(#[trigger] cs[i]),
    ensures
        parse_cells(seq![0x5Eu8, 0xCDu8, 0x00u8, 0x00u8] + cells_bytes(cs), 4) == (
            cs,
            None::<(DecodeError, int)>,
        ),
        be_u16(seq![0x5Eu8, 0xCDu8]) == IDENT_BYTES,
{
    let s = seq![0x5Eu8, 0xCDu8, 0x00u8, 0x00u8] + cells_bytes(cs);
    assert(s.subrange(4, s.len() as int) =~= cells_bytes(cs));
    lemma_parse_cells_bytes(cs, s, 4);
    assert(((0x5Eu8 as u16) << 8u16) | (0xCDu8 as u16) == 0x5ECDu16) by (bit_vector);
}

} // verus!

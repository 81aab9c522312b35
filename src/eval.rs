//! The evaluator: four registers, a single-step transition and a driver loop.
//!
//! A step either fails, leaving the state as it was, or consumes the instruction at the head
//! of the control register and yields the next state with an effect. Floating-point work and
//! character I/O are not done here: a step that needs them hands the operands out in its
//! effect, and the host pushes the answer with `State::resume`.
use crate::cell::{Atom, Inst, SVMCell};
use crate::slist::List;
use vstd::prelude::*;

verus! {

/// The kind of a cell, or a class of kinds that an operation expects.
#[derive(Debug, Clone, Copy, PartialEq, Eq, Structural)]
pub enum Kind {
    Instruction,
    UInt,
    SInt,
    Char,
    Float,
    List,
    /// Any of `UInt`, `SInt` and `Float`.
    Number,
}

/// Why a step could not be taken.
#[derive(Debug, Clone, Copy, PartialEq, Eq, Structural)]
pub enum EvalError {
    /// A register holds fewer items than the instruction takes from it.
    StackUnderflow,
    /// `LD` names a frame or a slot that is not there.
    EnvironmentIndexOutOfRange,
    /// A cell of the wrong kind.
    TypeMismatch { expected: Kind, found: Kind },
    /// Division or remainder by zero.
    ArithmeticError,
    /// An inline operand, a closure or a saved frame that does not have its shape.
    MalformedOperand,
    /// `CAR` or `CDR` of the empty list.
    EmptyList,
    /// The control register ran out without a `STOP`, where one is required.
    ControlExhausted,
}

/// Floating-point work handed to the host: `lhs` was on top of the stack, `rhs` below it.
#[derive(Debug, Clone, Copy, PartialEq)]
pub struct FloatOp {
    pub op: Inst,
    pub lhs: Atom,
    pub rhs: Atom,
}

/// What a step did besides changing the registers.
#[derive(Debug, Clone, Copy, PartialEq)]
pub enum Effect {
    /// Nothing: evaluation goes on.
    Continue,
    /// `STOP` ran, or the control register ran out where that ends the run.
    Halt,
    /// The operands of an arithmetic or comparison that needs floating point; the host
    /// pushes the result with `resume`.
    Float(FloatOp),
    /// `WRITEC` took this character off the stack for the host to write.
    Write(char),
    /// `READC` ran; the host pushes the character read with `resume`.
    Read,
}

/// What the host hands back after doing the work of an effect.
#[derive(Debug, Clone, Copy, PartialEq)]
pub enum Answer {
    /// The bit pattern of a floating-point result.
    Number(u64),
    /// The result of a comparison.
    Truth(bool),
    /// A character read.
    Char(char),
}

/// The machine's four registers.
#[derive(Debug, PartialEq)]
pub struct State {
    pub stack: List<SVMCell>,
    pub env: List<SVMCell>,
    pub control: List<SVMCell>,
    pub dump: List<SVMCell>,
}

// ---------------------------------------------------------------------------------------
// Cells the machine builds
// ---------------------------------------------------------------------------------------
/// A list cell.
pub open spec fn lc(l: List<SVMCell>) -> SVMCell {
    SVMCell::ListCell(Box::new(l))
}

/// The empty list, which is also false.
pub open spec fn nil_cell() -> SVMCell {
    lc(List::Nil)
}

/// The canonical true: a list holding the signed integer one.
pub open spec fn true_cell() -> SVMCell {
    lc(List::Cons(SVMCell::AtomCell(Atom::SInt(1)), Box::new(List::Nil)))
}

/// The cell for a truth value.
pub open spec fn truth(b: bool) -> SVMCell {
    if b {
        true_cell()
    } else {
        nil_cell()
    }
}

/// A closure: its code and the environment it captured.
pub open spec fn closure(code: List<SVMCell>, env: List<SVMCell>) -> SVMCell {
    lc(cons(lc(code), cons(lc(env), List::Nil)))
}

/// A frame saved by a call: the caller's stack, environment and control.
pub open spec fn saved(stack: List<SVMCell>, env: List<SVMCell>, control: List<SVMCell>) -> SVMCell {
    lc(cons(lc(stack), cons(lc(env), cons(lc(control), List::Nil))))
}

/// The first frame that `RAP` installs: its values after a `RAP` marker. Fetching a closure
/// from it whose environment begins with the placeholder that `DUM` pushed gives that
/// closure with this frame in the placeholder's place, so the closures of the frame reach
/// one another, and themselves.
pub open spec fn rec_frame(vals: List<SVMCell>) -> SVMCell {
    lc(List::Cons(SVMCell::InstCell(Inst::RAP), Box::new(vals)))
}

/// The kind of a cell.
pub open spec fn kind_of(c: SVMCell) -> Kind {
    match c {
        SVMCell::InstCell(_) => Kind::Instruction,
        SVMCell::AtomCell(Atom::UInt(_)) => Kind::UInt,
        SVMCell::AtomCell(Atom::SInt(_)) => Kind::SInt,
        SVMCell::AtomCell(Atom::Char(_)) => Kind::Char,
        SVMCell::AtomCell(Atom::Float(_)) => Kind::Float,
        SVMCell::ListCell(_) => Kind::List,
    }
}

/// A type mismatch.
pub open spec fn mismatch(expected: Kind, found: SVMCell) -> EvalError {
    EvalError::TypeMismatch { expected, found: kind_of(found) }
}

// ---------------------------------------------------------------------------------------
// Operands
// ---------------------------------------------------------------------------------------
/// The number an index atom stands for.
pub open spec fn index_value(c: SVMCell) -> Option<int> {
    match c {
        SVMCell::AtomCell(Atom::SInt(v)) => Some(v as int),
        SVMCell::AtomCell(Atom::UInt(v)) => Some(v as int),
        _ => None,
    }
}

/// The frame and slot numbers of an `LD` operand: a list of two integers, counted from one.
pub open spec fn ld_operand(c: SVMCell) -> Option<(int, int)> {
    match c {
        SVMCell::ListCell(l) => match *l {
            List::Cons(a, t) => match *t {
                List::Cons(b, u) => match (*u, index_value(a), index_value(b)) {
                    (List::Nil, Some(f), Some(k)) => Some((f, k)),
                    _ => None,
                },
                _ => None,
            },
            _ => None,
        },
        _ => None,
    }
}

/// The code and environment of a closure.
pub open spec fn closure_parts(c: SVMCell) -> Option<(List<SVMCell>, List<SVMCell>)> {
    match c {
        SVMCell::ListCell(l) => match *l {
            List::Cons(a, t) => match (a, *t) {
                (SVMCell::ListCell(code), List::Cons(b, u)) => match (b, *u) {
                    (SVMCell::ListCell(env), List::Nil) => Some((*code, *env)),
                    _ => None,
                },
                _ => None,
            },
            _ => None,
        },
        _ => None,
    }
}

/// The stack, environment and control of a saved frame.
pub open spec fn saved_parts(c: SVMCell) -> Option<(List<SVMCell>, List<SVMCell>, List<SVMCell>)> {
    match c {
        SVMCell::ListCell(l) => match *l {
            List::Cons(a, t) => match (a, *t) {
                (SVMCell::ListCell(s), List::Cons(b, u)) => match (b, *u) {
                    (SVMCell::ListCell(e), List::Cons(d, w)) => match (d, *w) {
                        (SVMCell::ListCell(c), List::Nil) => Some((*s, *e, *c)),
                        _ => None,
                    },
                    _ => None,
                },
                _ => None,
            },
            _ => None,
        },
        _ => None,
    }
}

/// The values of a frame installed by `RAP`.
pub open spec fn rec_vals(items: List<SVMCell>) -> Option<List<SVMCell>> {
    match items {
        List::Cons(SVMCell::InstCell(Inst::RAP), vals) => Some(*vals),
        _ => None,
    }
}

/// A value fetched from the frame `frame` installed by `RAP`: a closure whose environment
/// begins with the placeholder gets `frame` in its place.
pub open spec fn patched(v: SVMCell, frame: SVMCell) -> SVMCell {
    match closure_parts(v) {
        Some((code, List::Cons(SVMCell::ListCell(first), rest))) => if *first is Nil {
            closure(code, List::Cons(frame, rest))
        } else {
            v
        },
        _ => v,
    }
}

/// What `LD (f . k)` loads from an environment, counting frames and slots from one.
pub open spec fn lookup(env: List<SVMCell>, f: int, k: int) -> Result<SVMCell, EvalError> {
    if f < 1 || f > env@.len() {
        Err(EvalError::EnvironmentIndexOutOfRange)
    } else {
        let frame = env@[f - 1];
        match frame {
            SVMCell::ListCell(items) => match rec_vals(*items) {
                Some(vals) => if k < 1 || k > vals@.len() {
                    Err(EvalError::EnvironmentIndexOutOfRange)
                } else {
                    Ok(patched(vals@[k - 1], frame))
                },
                None => if k < 1 || k > (*items)@.len() {
                    Err(EvalError::EnvironmentIndexOutOfRange)
                } else {
                    Ok((*items)@[k - 1])
                },
            },
            _ => Err(mismatch(Kind::List, frame)),
        }
    }
}

// ---------------------------------------------------------------------------------------
// The numeric tower
// ---------------------------------------------------------------------------------------
/// Whether an atom is a number.
pub open spec fn is_number(a: Atom) -> bool {
    !(a is Char)
}

/// Whether a number is zero; for a float, either zero.
pub open spec fn is_zero(a: Atom) -> bool {
    match a {
        Atom::UInt(v) => v == 0,
        Atom::SInt(v) => v == 0,
        Atom::Float(bits) => bits & crate::cell::MAGNITUDE_MASK == 0,
        Atom::Char(_) => false,
    }
}

/// Whether an instruction divides by its second operand.
pub open spec fn divides(i: Inst) -> bool {
    i == Inst::DIV || i == Inst::MOD || i == Inst::FDIV
}

/// Whether an operation is done in floating point: `FDIV` always, the others where
/// either operand is a float.
pub open spec fn needs_float(i: Inst, a: Atom, b: Atom) -> bool {
    i == Inst::FDIV || a is Float || b is Float
}

/// What stops a binary operation on the cells `x` (the top of the stack) and `y`.
pub open spec fn binary_fault(i: Inst, x: SVMCell, y: SVMCell) -> Option<EvalError> {
    match (x, y) {
        (SVMCell::AtomCell(a), SVMCell::AtomCell(b)) => {
            if !is_number(a) {
                Some(mismatch(Kind::Number, x))
            } else if !is_number(b) {
                Some(mismatch(Kind::Number, y))
            } else if !needs_float(i, a, b) && kind_of(x) != kind_of(y) {
                Some(EvalError::TypeMismatch { expected: kind_of(x), found: kind_of(y) })
            } else if divides(i) && is_zero(b) {
                Some(EvalError::ArithmeticError)
            } else {
                None
            }
        },
        (SVMCell::AtomCell(a), _) => if is_number(a) {
            Some(mismatch(Kind::Number, y))
        } else {
            Some(mismatch(Kind::Number, x))
        },
        _ => Some(mismatch(Kind::Number, x)),
    }
}

/// The result of an operation on two unsigned integers: wrapping arithmetic, truncating
/// division.
pub open spec fn uint_result(i: Inst, a: u64, b: u64) -> SVMCell {
    match i {
        Inst::ADD => SVMCell::AtomCell(Atom::UInt(vstd::wrapping::u64_specs::wrapping_add(a, b))),
        Inst::SUB => SVMCell::AtomCell(Atom::UInt(vstd::wrapping::u64_specs::wrapping_sub(a, b))),
        Inst::MUL => SVMCell::AtomCell(Atom::UInt(vstd::wrapping::u64_specs::wrapping_mul(a, b))),
        Inst::DIV => SVMCell::AtomCell(Atom::UInt((a / b) as u64)),
        Inst::MOD => SVMCell::AtomCell(Atom::UInt((a % b) as u64)),
        Inst::EQ => truth(a == b),
        Inst::GT => truth(a > b),
        Inst::GTE => truth(a >= b),
        Inst::LT => truth(a < b),
        _ => truth(a <= b),
    }
}

/// The result of an operation on two signed integers: wrapping arithmetic, division
/// truncating toward zero, a remainder with the dividend's sign.
pub open spec fn sint_result(i: Inst, a: i64, b: i64) -> SVMCell {
    match i {
        Inst::ADD => SVMCell::AtomCell(Atom::SInt(vstd::wrapping::i64_specs::wrapping_add(a, b))),
        Inst::SUB => SVMCell::AtomCell(Atom::SInt(vstd::wrapping::i64_specs::wrapping_sub(a, b))),
        Inst::MUL => SVMCell::AtomCell(Atom::SInt(vstd::wrapping::i64_specs::wrapping_mul(a, b))),
        Inst::DIV => SVMCell::AtomCell(
            Atom::SInt(
                match a.checked_div(b) {
                    Some(q) => q,
                    None => i64::MIN,
                },
            ),
        ),
        Inst::MOD => SVMCell::AtomCell(
            Atom::SInt(
                match a.checked_rem(b) {
                    Some(r) => r,
                    None => 0,
                },
            ),
        ),
        Inst::EQ => truth(a == b),
        Inst::GT => truth(a > b),
        Inst::GTE => truth(a >= b),
        Inst::LT => truth(a < b),
        _ => truth(a <= b),
    }
}

/// The result of an integer operation on two atoms of one kind.
pub open spec fn int_result(i: Inst, a: Atom, b: Atom) -> SVMCell {
    match (a, b) {
        (Atom::UInt(x), Atom::UInt(y)) => uint_result(i, x, y),
        (Atom::SInt(x), Atom::SInt(y)) => sint_result(i, x, y),
        _ => nil_cell(),
    }
}

/// Whether an instruction takes two numbers off the stack.
pub open spec fn is_binary(i: Inst) -> bool {
    match i {
        Inst::ADD | Inst::SUB | Inst::MUL | Inst::DIV | Inst::MOD | Inst::FDIV | Inst::EQ
        | Inst::GT | Inst::GTE | Inst::LT | Inst::LTE => true,
        _ => false,
    }
}

// ---------------------------------------------------------------------------------------
// One step
// ---------------------------------------------------------------------------------------
/// What stops a call by `AP`, `APCC` or `RAP` of `clo` on `args`.
pub open spec fn call_fault(i: Inst, clo: SVMCell, args: SVMCell, env: List<SVMCell>) -> Option<
    EvalError,
> {
    match clo {
        SVMCell::ListCell(_) => match closure_parts(clo) {
            Some((code, cenv)) => match args {
                SVMCell::ListCell(_) => if i == Inst::RAP && (cenv is Nil || env is Nil) {
                    Some(EvalError::MalformedOperand)
                } else {
                    None
                },
                _ => Some(mismatch(Kind::List, args)),
            },
            None => Some(EvalError::MalformedOperand),
        },
        _ => Some(mismatch(Kind::List, clo)),
    }
}

/// What stops the instruction `i`, given the stack, environment, the control after `i`,
/// and the dump.
pub open spec fn inst_fault(
    i: Inst,
    st: List<SVMCell>,
    env: List<SVMCell>,
    c: List<SVMCell>,
    d: List<SVMCell>,
) -> Option<EvalError> {
    match i {
        Inst::NIL | Inst::DUM | Inst::STOP | Inst::READC => None,
        Inst::LDC => match c {
            List::Cons(SVMCell::AtomCell(_), _) => None,
            _ => Some(EvalError::MalformedOperand),
        },
        Inst::LD => match c {
            List::Cons(op, _) => match ld_operand(op) {
                Some((f, k)) => match lookup(env, f, k) {
                    Ok(_) => None,
                    Err(e) => Some(e),
                },
                None => Some(EvalError::MalformedOperand),
            },
            List::Nil => Some(EvalError::MalformedOperand),
        },
        Inst::LDF => match c {
            List::Cons(SVMCell::ListCell(_), _) => None,
            _ => Some(EvalError::MalformedOperand),
        },
        Inst::AP | Inst::APCC | Inst::RAP => match st {
            List::Cons(clo, rest) => match *rest {
                List::Cons(args, _) => call_fault(i, clo, args, env),
                List::Nil => Some(EvalError::StackUnderflow),
            },
            List::Nil => Some(EvalError::StackUnderflow),
        },
        Inst::RET => match (st, d) {
            (List::Cons(_, _), List::Cons(fr, _)) => if saved_parts(fr) is Some {
                None
            } else {
                Some(EvalError::MalformedOperand)
            },
            _ => Some(EvalError::StackUnderflow),
        },
        Inst::SEL => match c {
            List::Cons(SVMCell::ListCell(_), t) => match *t {
                List::Cons(SVMCell::ListCell(_), _) => if st is Cons {
                    None
                } else {
                    Some(EvalError::StackUnderflow)
                },
                _ => Some(EvalError::MalformedOperand),
            },
            _ => Some(EvalError::MalformedOperand),
        },
        Inst::JOIN => match d {
            List::Cons(SVMCell::ListCell(_), _) => None,
            List::Cons(x, _) => Some(mismatch(Kind::List, x)),
            List::Nil => Some(EvalError::StackUnderflow),
        },
        Inst::ATOM | Inst::NULL => if st is Cons {
            None
        } else {
            Some(EvalError::StackUnderflow)
        },
        Inst::CONS => match st {
            List::Cons(_, rest) => match *rest {
                List::Cons(SVMCell::ListCell(_), _) => None,
                List::Cons(y, _) => Some(mismatch(Kind::List, y)),
                List::Nil => Some(EvalError::StackUnderflow),
            },
            List::Nil => Some(EvalError::StackUnderflow),
        },
        Inst::CAR | Inst::CDR => match st {
            List::Cons(SVMCell::ListCell(l), _) => if *l is Nil {
                Some(EvalError::EmptyList)
            } else {
                None
            },
            List::Cons(x, _) => Some(mismatch(Kind::List, x)),
            List::Nil => Some(EvalError::StackUnderflow),
        },
        Inst::WRITEC => match st {
            List::Cons(SVMCell::AtomCell(Atom::Char(_)), _) => None,
            List::Cons(x, _) => Some(mismatch(Kind::Char, x)),
            List::Nil => Some(EvalError::StackUnderflow),
        },
        _ => match st {
            List::Cons(x, rest) => match *rest {
                List::Cons(y, _) => binary_fault(i, x, y),
                List::Nil => Some(EvalError::StackUnderflow),
            },
            List::Nil => Some(EvalError::StackUnderflow),
        },
    }
}

/// What stops a step from `s`; `permissive` lets an empty control register end the run.
pub open spec fn fault(s: State, permissive: bool) -> Option<EvalError> {
    match s.control {
        List::Nil => if permissive {
            None
        } else {
            Some(EvalError::ControlExhausted)
        },
        List::Cons(head, c) => match head {
            SVMCell::InstCell(i) => inst_fault(i, s.stack, s.env, *c, s.dump),
            _ => Some(mismatch(Kind::Instruction, head)),
        },
    }
}

/// The state made of four registers.
pub open spec fn regs(st: List<SVMCell>, env: List<SVMCell>, c: List<SVMCell>, d: List<SVMCell>) -> State {
    State { stack: st, env, control: c, dump: d }
}

/// A register with a cell pushed.
pub open spec fn cons(x: SVMCell, l: List<SVMCell>) -> List<SVMCell> {
    List::Cons(x, Box::new(l))
}

/// The tail of a register, or the empty list.
pub open spec fn tail(l: List<SVMCell>) -> List<SVMCell> {
    match l {
        List::Cons(_, t) => *t,
        List::Nil => List::Nil,
    }
}

/// The continuation that `APCC` hands its callee: the caller's stack, environment, control
/// and dump.
pub open spec fn continuation(st: List<SVMCell>, env: List<SVMCell>, c: List<SVMCell>, d: List<SVMCell>) -> SVMCell {
    lc(cons(lc(st), cons(lc(env), cons(lc(c), cons(lc(d), List::Nil)))))
}

/// The state after a call by `AP`, `APCC` or `RAP`.
pub open spec fn call(
    i: Inst,
    code: List<SVMCell>,
    cenv: List<SVMCell>,
    args: List<SVMCell>,
    st: List<SVMCell>,
    env: List<SVMCell>,
    c: List<SVMCell>,
    d: List<SVMCell>,
) -> State {
    if i == Inst::RAP {
        regs(List::Nil, cons(rec_frame(args), tail(cenv)), code, cons(saved(st, tail(env), c), d))
    } else if i == Inst::APCC {
        regs(
            List::Nil,
            cons(lc(cons(continuation(st, env, c, d), args)), cenv),
            code,
            cons(saved(st, env, c), d),
        )
    } else {
        regs(List::Nil, cons(lc(args), cenv), code, cons(saved(st, env, c), d))
    }
}

/// The state and effect after the instruction `i`, where nothing stops it.
pub open spec fn inst_apply(
    i: Inst,
    st: List<SVMCell>,
    env: List<SVMCell>,
    c: List<SVMCell>,
    d: List<SVMCell>,
) -> (State, Effect) {
    let next = regs(st, env, c, d);
    match i {
        Inst::NIL => (regs(cons(nil_cell(), st), env, c, d), Effect::Continue),
        Inst::DUM => (regs(st, cons(nil_cell(), env), c, d), Effect::Continue),
        Inst::STOP => (next, Effect::Halt),
        Inst::READC => (next, Effect::Read),
        Inst::LDC => (regs(cons(c@[0], st), env, tail(c), d), Effect::Continue),
        Inst::LD => {
            let (f, k) = ld_operand(c@[0])->Some_0;
            (regs(cons(lookup(env, f, k)->Ok_0, st), env, tail(c), d), Effect::Continue)
        },
        Inst::LDF => {
            let code = c@[0]->ListCell_0;
            (regs(cons(closure(*code, env), st), env, tail(c), d), Effect::Continue)
        },
        Inst::AP | Inst::APCC | Inst::RAP => {
            let (code, cenv) = closure_parts(st@[0])->Some_0;
            let args = st@[1]->ListCell_0;
            (call(i, code, cenv, *args, tail(tail(st)), env, c, d), Effect::Continue)
        },
        Inst::RET => {
            let (s0, e0, c0) = saved_parts(d@[0])->Some_0;
            (regs(cons(st@[0], s0), e0, c0, tail(d)), Effect::Continue)
        },
        Inst::SEL => {
            let branch = if st@[0] == nil_cell() {
                c@[1]
            } else {
                c@[0]
            };
            (regs(tail(st), env, *branch->ListCell_0, cons(lc(tail(tail(c))), d)), Effect::Continue)
        },
        Inst::JOIN => (regs(st, env, *d@[0]->ListCell_0, tail(d)), Effect::Continue),
        Inst::ATOM => (regs(cons(truth(st@[0] is AtomCell), tail(st)), env, c, d), Effect::Continue),
        Inst::NULL => (regs(cons(truth(st@[0] == nil_cell()), tail(st)), env, c, d), Effect::Continue),
        Inst::CONS => (
            regs(cons(lc(cons(st@[0], *st@[1]->ListCell_0)), tail(tail(st))), env, c, d),
            Effect::Continue,
        ),
        Inst::CAR => (regs(cons((*st@[0]->ListCell_0)@[0], tail(st)), env, c, d), Effect::Continue),
        Inst::CDR => (
            regs(cons(lc(tail(*st@[0]->ListCell_0)), tail(st)), env, c, d),
            Effect::Continue,
        ),
        Inst::WRITEC => (regs(tail(st), env, c, d), Effect::Write(st@[0]->AtomCell_0->Char_0)),
        _ => {
            let a = st@[0]->AtomCell_0;
            let b = st@[1]->AtomCell_0;
            if needs_float(i, a, b) {
                (regs(tail(tail(st)), env, c, d), Effect::Float(FloatOp { op: i, lhs: a, rhs: b }))
            } else {
                (regs(cons(int_result(i, a, b), tail(tail(st))), env, c, d), Effect::Continue)
            }
        },
    }
}

/// The state and effect after a step from `s`, where nothing stops it.
pub open spec fn apply(s: State, permissive: bool) -> (State, Effect) {
    match s.control {
        List::Nil => (s, Effect::Halt),
        List::Cons(head, c) => match head {
            SVMCell::InstCell(i) => inst_apply(i, s.stack, s.env, *c, s.dump),
            _ => (s, Effect::Continue),
        },
    }
}

/// One step from `s`: the error that stops it, or the next state and the step's effect.
pub open spec fn next(s: State, permissive: bool) -> Result<(State, Effect), EvalError> {
    match fault(s, permissive) {
        Some(e) => Err(e),
        None => Ok(apply(s, permissive)),
    }
}

// ---------------------------------------------------------------------------------------
// Checking a step
// ---------------------------------------------------------------------------------------
fn kind(c: &SVMCell) -> (r: Kind)
    ensures
        r == kind_of(*c),
{
    match c {
        SVMCell::InstCell(_) => Kind::Instruction,
        SVMCell::AtomCell(Atom::UInt(_)) => Kind::UInt,
        SVMCell::AtomCell(Atom::SInt(_)) => Kind::SInt,
        SVMCell::AtomCell(Atom::Char(_)) => Kind::Char,
        SVMCell::AtomCell(Atom::Float(_)) => Kind::Float,
        SVMCell::ListCell(_) => Kind::List,
    }
}

/// Whether an index stands for the number `v`, where an index below one is zero.
pub open spec fn same_index(x: u64, v: int) -> bool {
    if v < 1 {
        x == 0
    } else {
        x == v
    }
}

fn index_of(c: &SVMCell) -> (r: Option<u64>)
    ensures
        r is None <==> index_value(*c) is None,
        r matches Some(x) ==> same_index(x, index_value(*c)->Some_0),
{
    match c {
        SVMCell::AtomCell(Atom::SInt(v)) => if *v < 1 {
            Some(0)
        } else {
            Some(*v as u64)
        },
        SVMCell::AtomCell(Atom::UInt(v)) => Some(*v),
        _ => None,
    }
}

fn ld_indices(op: &SVMCell) -> (r: Option<(u64, u64)>)
    ensures
        r is None <==> ld_operand(*op) is None,
        r matches Some((f, k)) ==> same_index(f, ld_operand(*op)->Some_0.0) && same_index(
            k,
            ld_operand(*op)->Some_0.1,
        ),
{
    if let SVMCell::ListCell(l) = op {
        if let List::Cons(a, t) = &**l {
            if let List::Cons(b, u) = &**t {
                if let List::Nil = &**u {
                    match (index_of(a), index_of(b)) {
                        (Some(f), Some(k)) => {
                            return Some((f, k));
                        },
                        _ => {
                            return None;
                        },
                    }
                }
            }
        }
    }
    None
}

fn closure_refs(c: &SVMCell) -> (r: Option<(&List<SVMCell>, &List<SVMCell>)>)
    ensures
        r is None <==> closure_parts(*c) is None,
        r matches Some((code, env)) ==> closure_parts(*c) == Some((*code, *env)),
{
    if let SVMCell::ListCell(l) = c {
        if let List::Cons(SVMCell::ListCell(code), t) = &**l {
            if let List::Cons(SVMCell::ListCell(env), u) = &**t {
                if let List::Nil = &**u {
                    return Some((&**code, &**env));
                }
            }
        }
    }
    None
}

fn is_saved(c: &SVMCell) -> (r: bool)
    ensures
        r == saved_parts(*c) is Some,
{
    if let SVMCell::ListCell(l) = c {
        if let List::Cons(SVMCell::ListCell(_), t) = &**l {
            if let List::Cons(SVMCell::ListCell(_), u) = &**t {
                if let List::Cons(SVMCell::ListCell(_), w) = &**u {
                    if let List::Nil = &**w {
                        return true;
                    }
                }
            }
        }
    }
    false
}

fn make_closure(code: List<SVMCell>, env: List<SVMCell>) -> (r: SVMCell)
    ensures
        r == closure(code, env),
{
    SVMCell::ListCell(
        Box::new(
            List::Cons(
                SVMCell::ListCell(Box::new(code)),
                Box::new(List::Cons(SVMCell::ListCell(Box::new(env)), Box::new(List::Nil))),
            ),
        ),
    )
}

/// A value fetched from a frame that `RAP` installed.
fn patch(v: &SVMCell, frame: &SVMCell) -> (r: SVMCell)
    ensures
        r == patched(*v, *frame),
{
    if let Some((code, cenv)) = closure_refs(v) {
        if let List::Cons(SVMCell::ListCell(first), rest) = cenv {
            if first.is_empty() {
                return make_closure(
                    crate::cell::copy_list(code),
                    List::Cons(crate::cell::copy_cell(frame), Box::new(crate::cell::copy_list(rest))),
                );
            }
        }
    }
    crate::cell::copy_cell(v)
}

/// What `LD` loads, with frame and slot numbers counted from one.
fn lookup_exec(env: &List<SVMCell>, f: u64, k: u64) -> (r: Result<SVMCell, EvalError>)
    ensures
        r == lookup(*env, f as int, k as int),
{
    if f == 0 {
        return Err(EvalError::EnvironmentIndexOutOfRange);
    }
    match env.index(f - 1) {
        Err(_) => Err(EvalError::EnvironmentIndexOutOfRange),
        Ok(frame) => match frame {
            SVMCell::ListCell(items) => {
                if let List::Cons(SVMCell::InstCell(Inst::RAP), vals) = &**items {
                    if k == 0 {
                        return Err(EvalError::EnvironmentIndexOutOfRange);
                    }
                    match vals.index(k - 1) {
                        Ok(v) => Ok(patch(v, frame)),
                        Err(_) => Err(EvalError::EnvironmentIndexOutOfRange),
                    }
                } else {
                    if k == 0 {
                        return Err(EvalError::EnvironmentIndexOutOfRange);
                    }
                    match items.index(k - 1) {
                        Ok(v) => Ok(crate::cell::copy_cell(v)),
                        Err(_) => Err(EvalError::EnvironmentIndexOutOfRange),
                    }
                }
            },
            _ => Err(EvalError::TypeMismatch { expected: Kind::List, found: kind(frame) }),
        },
    }
}

fn atom_is_zero(a: &Atom) -> (r: bool)
    ensures
        r == is_zero(*a),
{
    match a {
        Atom::UInt(v) => *v == 0,
        Atom::SInt(v) => *v == 0,
        Atom::Float(bits) => *bits & crate::cell::MAGNITUDE_MASK == 0,
        Atom::Char(_) => false,
    }
}

fn float_needed(i: Inst, a: &Atom, b: &Atom) -> (r: bool)
    ensures
        r == needs_float(i, *a, *b),
{
    i == Inst::FDIV || matches!(a, Atom::Float(_)) || matches!(b, Atom::Float(_))
}

fn binary_check(i: Inst, x: &SVMCell, y: &SVMCell) -> (r: Option<EvalError>)
    ensures
        r == binary_fault(i, *x, *y),
{
    match (x, y) {
        (SVMCell::AtomCell(a), SVMCell::AtomCell(b)) => {
            if matches!(a, Atom::Char(_)) {
                Some(EvalError::TypeMismatch { expected: Kind::Number, found: kind(x) })
            } else if matches!(b, Atom::Char(_)) {
                Some(EvalError::TypeMismatch { expected: Kind::Number, found: kind(y) })
            } else if !float_needed(i, a, b) && kind(x) != kind(y) {
                Some(EvalError::TypeMismatch { expected: kind(x), found: kind(y) })
            } else if (i == Inst::DIV || i == Inst::MOD || i == Inst::FDIV) && atom_is_zero(b) {
                Some(EvalError::ArithmeticError)
            } else {
                None
            }
        },
        (SVMCell::AtomCell(a), _) => if matches!(a, Atom::Char(_)) {
            Some(EvalError::TypeMismatch { expected: Kind::Number, found: kind(x) })
        } else {
            Some(EvalError::TypeMismatch { expected: Kind::Number, found: kind(y) })
        },
        _ => Some(EvalError::TypeMismatch { expected: Kind::Number, found: kind(x) }),
    }
}

fn call_check(i: Inst, clo: &SVMCell, args: &SVMCell, env: &List<SVMCell>) -> (r: Option<
    EvalError,
>)
    ensures
        r == call_fault(i, *clo, *args, *env),
{
    match clo {
        SVMCell::ListCell(_) => match closure_refs(clo) {
            Some((_, cenv)) => match args {
                SVMCell::ListCell(_) => if i == Inst::RAP && (cenv.is_empty() || env.is_empty()) {
                    Some(EvalError::MalformedOperand)
                } else {
                    None
                },
                _ => Some(EvalError::TypeMismatch { expected: Kind::List, found: kind(args) }),
            },
            None => Some(EvalError::MalformedOperand),
        },
        _ => Some(EvalError::TypeMismatch { expected: Kind::List, found: kind(clo) }),
    }
}

fn inst_check(
    i: Inst,
    st: &List<SVMCell>,
    env: &List<SVMCell>,
    c: &List<SVMCell>,
    d: &List<SVMCell>,
) -> (r: Option<EvalError>)
    ensures
        r == inst_fault(i, *st, *env, *c, *d),
{
    match i {
        Inst::NIL | Inst::DUM | Inst::STOP | Inst::READC => None,
        Inst::LDC => match c {
            List::Cons(SVMCell::AtomCell(_), _) => None,
            _ => Some(EvalError::MalformedOperand),
        },
        Inst::LD => match c {
            List::Cons(op, _) => match ld_indices(op) {
                Some((f, k)) => match lookup_exec(env, f, k) {
                    Ok(_) => None,
                    Err(e) => Some(e),
                },
                None => Some(EvalError::MalformedOperand),
            },
            List::Nil => Some(EvalError::MalformedOperand),
        },
        Inst::LDF => match c {
            List::Cons(SVMCell::ListCell(_), _) => None,
            _ => Some(EvalError::MalformedOperand),
        },
        Inst::AP | Inst::APCC | Inst::RAP => match st {
            List::Cons(clo, rest) => match &**rest {
                List::Cons(args, _) => call_check(i, clo, args, env),
                List::Nil => Some(EvalError::StackUnderflow),
            },
            List::Nil => Some(EvalError::StackUnderflow),
        },
        Inst::RET => match (st, d) {
            (List::Cons(_, _), List::Cons(fr, _)) => if is_saved(fr) {
                None
            } else {
                Some(EvalError::MalformedOperand)
            },
            _ => Some(EvalError::StackUnderflow),
        },
        Inst::SEL => match c {
            List::Cons(SVMCell::ListCell(_), t) => match &**t {
                List::Cons(SVMCell::ListCell(_), _) => if st.is_empty() {
                    Some(EvalError::StackUnderflow)
                } else {
                    None
                },
                _ => Some(EvalError::MalformedOperand),
            },
            _ => Some(EvalError::MalformedOperand),
        },
        Inst::JOIN => match d {
            List::Cons(SVMCell::ListCell(_), _) => None,
            List::Cons(x, _) => Some(EvalError::TypeMismatch { expected: Kind::List, found: kind(x) }),
            List::Nil => Some(EvalError::StackUnderflow),
        },
        Inst::ATOM | Inst::NULL => if st.is_empty() {
            Some(EvalError::StackUnderflow)
        } else {
            None
        },
        Inst::CONS => match st {
            List::Cons(_, rest) => match &**rest {
                List::Cons(SVMCell::ListCell(_), _) => None,
                List::Cons(y, _) => Some(EvalError::TypeMismatch { expected: Kind::List, found: kind(y) }),
                List::Nil => Some(EvalError::StackUnderflow),
            },
            List::Nil => Some(EvalError::StackUnderflow),
        },
        Inst::CAR | Inst::CDR => match st {
            List::Cons(SVMCell::ListCell(l), _) => if l.is_empty() {
                Some(EvalError::EmptyList)
            } else {
                None
            },
            List::Cons(x, _) => Some(EvalError::TypeMismatch { expected: Kind::List, found: kind(x) }),
            List::Nil => Some(EvalError::StackUnderflow),
        },
        Inst::WRITEC => match st {
            List::Cons(SVMCell::AtomCell(Atom::Char(_)), _) => None,
            List::Cons(x, _) => Some(EvalError::TypeMismatch { expected: Kind::Char, found: kind(x) }),
            List::Nil => Some(EvalError::StackUnderflow),
        },
        _ => match st {
            List::Cons(x, rest) => match &**rest {
                List::Cons(y, _) => binary_check(i, x, y),
                List::Nil => Some(EvalError::StackUnderflow),
            },
            List::Nil => Some(EvalError::StackUnderflow),
        },
    }
}

// ---------------------------------------------------------------------------------------
// Taking a step
// ---------------------------------------------------------------------------------------
fn truth_cell(b: bool) -> (r: SVMCell)
    ensures
        r == truth(b),
{
    if b {
        SVMCell::ListCell(Box::new(List::Cons(SVMCell::AtomCell(Atom::SInt(1)), Box::new(List::Nil))))
    } else {
        SVMCell::ListCell(Box::new(List::Nil))
    }
}

fn is_nil_cell(c: &SVMCell) -> (r: bool)
    ensures
        r == (*c == nil_cell()),
{
    match c {
        SVMCell::ListCell(l) => l.is_empty(),
        _ => false,
    }
}

/// The head and the tail of a register that is not empty.
fn split(l: List<SVMCell>) -> (r: (SVMCell, List<SVMCell>))
    requires
        l is Cons,
    ensures
        l == cons(r.0, r.1),
        r.0 == l@[0],
        r.1 == tail(l),
{
    match l {
        List::Cons(h, t) => (h, *t),
        List::Nil => vstd::pervasive::unreached(),
    }
}

/// The list in a list cell.
fn take_list(c: SVMCell) -> (r: List<SVMCell>)
    requires
        c is ListCell,
    ensures
        r == *c->ListCell_0,
{
    match c {
        SVMCell::ListCell(l) => *l,
        _ => vstd::pervasive::unreached(),
    }
}

fn take_closure(c: SVMCell) -> (r: (List<SVMCell>, List<SVMCell>))
    requires
        closure_parts(c) is Some,
    ensures
        r == closure_parts(c)->Some_0,
{
    let (code, rest) = split(take_list(c));
    let (env, _) = split(rest);
    (take_list(code), take_list(env))
}

fn take_saved(c: SVMCell) -> (r: (List<SVMCell>, List<SVMCell>, List<SVMCell>))
    requires
        saved_parts(c) is Some,
    ensures
        r == saved_parts(c)->Some_0,
{
    let (st, rest) = split(take_list(c));
    let (env, rest) = split(rest);
    let (control, _) = split(rest);
    (take_list(st), take_list(env), take_list(control))
}

fn uint_op(i: Inst, a: u64, b: u64) -> (r: SVMCell)
    requires
        divides(i) ==> b != 0,
    ensures
        r == uint_result(i, a, b),
{
    match i {
        Inst::ADD => SVMCell::AtomCell(Atom::UInt(a.wrapping_add(b))),
        Inst::SUB => SVMCell::AtomCell(Atom::UInt(a.wrapping_sub(b))),
        Inst::MUL => SVMCell::AtomCell(Atom::UInt(a.wrapping_mul(b))),
        Inst::DIV => SVMCell::AtomCell(Atom::UInt(a / b)),
        Inst::MOD => SVMCell::AtomCell(Atom::UInt(a % b)),
        Inst::EQ => truth_cell(a == b),
        Inst::GT => truth_cell(a > b),
        Inst::GTE => truth_cell(a >= b),
        Inst::LT => truth_cell(a < b),
        _ => truth_cell(a <= b),
    }
}

fn sint_op(i: Inst, a: i64, b: i64) -> (r: SVMCell)
    ensures
        r == sint_result(i, a, b),
{
    match i {
        Inst::ADD => SVMCell::AtomCell(Atom::SInt(a.wrapping_add(b))),
        Inst::SUB => SVMCell::AtomCell(Atom::SInt(a.wrapping_sub(b))),
        Inst::MUL => SVMCell::AtomCell(Atom::SInt(a.wrapping_mul(b))),
        Inst::DIV => SVMCell::AtomCell(
            Atom::SInt(
                match a.checked_div(b) {
                    Some(q) => q,
                    None => i64::MIN,
                },
            ),
        ),
        Inst::MOD => SVMCell::AtomCell(
            Atom::SInt(
                match a.checked_rem(b) {
                    Some(q) => q,
                    None => 0,
                },
            ),
        ),
        Inst::EQ => truth_cell(a == b),
        Inst::GT => truth_cell(a > b),
        Inst::GTE => truth_cell(a >= b),
        Inst::LT => truth_cell(a < b),
        _ => truth_cell(a <= b),
    }
}

fn call_exec(
    i: Inst,
    clo: SVMCell,
    args: SVMCell,
    st: List<SVMCell>,
    env: List<SVMCell>,
    c: List<SVMCell>,
    d: List<SVMCell>,
) -> (r: State)
    requires
        call_fault(i, clo, args, env) is None,
    ensures
        r == call(i, closure_parts(clo)->Some_0.0, closure_parts(clo)->Some_0.1, *args->ListCell_0, st, env, c, d),
{
    let (code, cenv) = take_closure(clo);
    let args = take_list(args);
    if i == Inst::RAP {
        let (_, outer) = split(env);
        let (_, crest) = split(cenv);
        let frame = SVMCell::ListCell(
            Box::new(List::Cons(SVMCell::InstCell(Inst::RAP), Box::new(args))),
        );
        let saved = SVMCell::ListCell(
            Box::new(
                List::Cons(
                    SVMCell::ListCell(Box::new(st)),
                    Box::new(
                        List::Cons(
                            SVMCell::ListCell(Box::new(outer)),
                            Box::new(List::Cons(SVMCell::ListCell(Box::new(c)), Box::new(List::Nil))),
                        ),
                    ),
                ),
            ),
        );
        State {
            stack: List::Nil,
            env: List::Cons(frame, Box::new(crest)),
            control: code,
            dump: List::Cons(saved, Box::new(d)),
        }
    } else {
        let frame_items = if i == Inst::APCC {
            let k = SVMCell::ListCell(
                Box::new(
                    List::Cons(
                        SVMCell::ListCell(Box::new(crate::cell::copy_list(&st))),
                        Box::new(
                            List::Cons(
                                SVMCell::ListCell(Box::new(crate::cell::copy_list(&env))),
                                Box::new(
                                    List::Cons(
                                        SVMCell::ListCell(Box::new(crate::cell::copy_list(&c))),
                                        Box::new(
                                            List::Cons(
                                                SVMCell::ListCell(
                                                    Box::new(crate::cell::copy_list(&d)),
                                                ),
                                                Box::new(List::Nil),
                                            ),
                                        ),
                                    ),
                                ),
                            ),
                        ),
                    ),
                ),
            );
            List::Cons(k, Box::new(args))
        } else {
            args
        };
        let saved = SVMCell::ListCell(
            Box::new(
                List::Cons(
                    SVMCell::ListCell(Box::new(st)),
                    Box::new(
                        List::Cons(
                            SVMCell::ListCell(Box::new(env)),
                            Box::new(List::Cons(SVMCell::ListCell(Box::new(c)), Box::new(List::Nil))),
                        ),
                    ),
                ),
            ),
        );
        State {
            stack: List::Nil,
            env: List::Cons(SVMCell::ListCell(Box::new(frame_items)), Box::new(cenv)),
            control: code,
            dump: List::Cons(saved, Box::new(d)),
        }
    }
}

fn apply_inst(
    i: Inst,
    st: List<SVMCell>,
    env: List<SVMCell>,
    c: List<SVMCell>,
    d: List<SVMCell>,
) -> (r: (State, Effect))
    requires
        inst_fault(i, st, env, c, d) is None,
    ensures
        r == inst_apply(i, st, env, c, d),
{
    match i {
        Inst::NIL => (
            State {
                stack: List::Cons(SVMCell::ListCell(Box::new(List::Nil)), Box::new(st)),
                env,
                control: c,
                dump: d,
            },
            Effect::Continue,
        ),
        Inst::DUM => (
            State {
                stack: st,
                env: List::Cons(SVMCell::ListCell(Box::new(List::Nil)), Box::new(env)),
                control: c,
                dump: d,
            },
            Effect::Continue,
        ),
        Inst::STOP => (State { stack: st, env, control: c, dump: d }, Effect::Halt),
        Inst::READC => (State { stack: st, env, control: c, dump: d }, Effect::Read),
        Inst::LDC => {
            let (x, c2) = split(c);
            (State { stack: List::Cons(x, Box::new(st)), env, control: c2, dump: d }, Effect::Continue)
        },
        Inst::LD => {
            let (op, c2) = split(c);
            match ld_indices(&op) {
                Some((f, k)) => match lookup_exec(&env, f, k) {
                    Ok(v) => (
                        State { stack: List::Cons(v, Box::new(st)), env, control: c2, dump: d },
                        Effect::Continue,
                    ),
                    Err(_) => vstd::pervasive::unreached(),
                },
                None => vstd::pervasive::unreached(),
            }
        },
        Inst::LDF => {
            let (op, c2) = split(c);
            let clo = make_closure(take_list(op), crate::cell::copy_list(&env));
            (State { stack: List::Cons(clo, Box::new(st)), env, control: c2, dump: d }, Effect::Continue)
        },
        Inst::AP | Inst::APCC | Inst::RAP => {
            let (clo, s1) = split(st);
            let (args, s2) = split(s1);
            (call_exec(i, clo, args, s2, env, c, d), Effect::Continue)
        },
        Inst::RET => {
            let (v, _) = split(st);
            let (fr, d2) = split(d);
            let (s0, e0, c0) = take_saved(fr);
            (State { stack: List::Cons(v, Box::new(s0)), env: e0, control: c0, dump: d2 }, Effect::Continue)
        },
        Inst::SEL => {
            let (cond, s2) = split(st);
            let (then_branch, c1) = split(c);
            let (else_branch, c2) = split(c1);
            let branch = if is_nil_cell(&cond) {
                else_branch
            } else {
                then_branch
            };
            (
                State {
                    stack: s2,
                    env,
                    control: take_list(branch),
                    dump: List::Cons(SVMCell::ListCell(Box::new(c2)), Box::new(d)),
                },
                Effect::Continue,
            )
        },
        Inst::JOIN => {
            let (x, d2) = split(d);
            (State { stack: st, env, control: take_list(x), dump: d2 }, Effect::Continue)
        },
        Inst::ATOM => {
            let (x, s2) = split(st);
            let t = truth_cell(matches!(x, SVMCell::AtomCell(_)));
            (State { stack: List::Cons(t, Box::new(s2)), env, control: c, dump: d }, Effect::Continue)
        },
        Inst::NULL => {
            let (x, s2) = split(st);
            let t = truth_cell(is_nil_cell(&x));
            (State { stack: List::Cons(t, Box::new(s2)), env, control: c, dump: d }, Effect::Continue)
        },
        Inst::CONS => {
            let (x, s1) = split(st);
            let (l, s2) = split(s1);
            let joined = SVMCell::ListCell(Box::new(List::Cons(x, Box::new(take_list(l)))));
            (State { stack: List::Cons(joined, Box::new(s2)), env, control: c, dump: d }, Effect::Continue)
        },
        Inst::CAR => {
            let (l, s2) = split(st);
            let (h, _) = split(take_list(l));
            (State { stack: List::Cons(h, Box::new(s2)), env, control: c, dump: d }, Effect::Continue)
        },
        Inst::CDR => {
            let (l, s2) = split(st);
            let (_, t) = split(take_list(l));
            let rest = SVMCell::ListCell(Box::new(t));
            (State { stack: List::Cons(rest, Box::new(s2)), env, control: c, dump: d }, Effect::Continue)
        },
        Inst::WRITEC => {
            let (x, s2) = split(st);
            match x {
                SVMCell::AtomCell(Atom::Char(ch)) => (
                    State { stack: s2, env, control: c, dump: d },
                    Effect::Write(ch),
                ),
                _ => vstd::pervasive::unreached(),
            }
        },
        _ => {
            let (x, s1) = split(st);
            let (y, s2) = split(s1);
            match (x, y) {
                (SVMCell::AtomCell(a), SVMCell::AtomCell(b)) => {
                    if float_needed(i, &a, &b) {
                        (
                            State { stack: s2, env, control: c, dump: d },
                            Effect::Float(FloatOp { op: i, lhs: a, rhs: b }),
                        )
                    } else {
                        let v = match (a, b) {
                            (Atom::UInt(p), Atom::UInt(q)) => uint_op(i, p, q),
                            (Atom::SInt(p), Atom::SInt(q)) => sint_op(i, p, q),
                            _ => vstd::pervasive::unreached(),
                        };
                        (
                            State { stack: List::Cons(v, Box::new(s2)), env, control: c, dump: d },
                            Effect::Continue,
                        )
                    }
                },
                _ => vstd::pervasive::unreached(),
            }
        },
    }
}

// ---------------------------------------------------------------------------------------
// Running
// ---------------------------------------------------------------------------------------
/// How a run ended.
#[derive(Debug, PartialEq)]
pub enum Outcome {
    /// `STOP` ran, or the control register ran out where that ends the run.
    Halted(State),
    /// A step needs the host: the effect says for what. Once the host has done it (and,
    /// for floating point or `READC`, called `resume`), the run can go on.
    Suspended(Effect, State),
    /// A step failed; the state is the one the step was taken from.
    Failed(EvalError, State),
    /// The step budget ran out.
    OutOfFuel(State),
}

/// The cell that an answer of the host stands for.
pub open spec fn answer_cell(a: Answer) -> SVMCell {
    match a {
        Answer::Number(bits) => SVMCell::AtomCell(Atom::Float(bits)),
        Answer::Truth(b) => truth(b),
        Answer::Char(c) => SVMCell::AtomCell(Atom::Char(c)),
    }
}

/// Running from `s` for at most `fuel` steps.
pub open spec fn run_for(s: State, fuel: nat, permissive: bool) -> Outcome
    decreases fuel,
{
    if fuel == 0 {
        Outcome::OutOfFuel(s)
    } else {
        match next(s, permissive) {
            Err(e) => Outcome::Failed(e, s),
            Ok((s2, eff)) => match eff {
                Effect::Continue => run_for(s2, (fuel - 1) as nat, permissive),
                Effect::Halt => Outcome::Halted(s2),
                _ => Outcome::Suspended(eff, s2),
            },
        }
    }
}

/// The step budget: the one given, or as many steps as a `u64` counts.
pub open spec fn budget(fuel: Option<u64>) -> nat {
    match fuel {
        Some(n) => n as nat,
        None => u64::MAX as nat,
    }
}

impl State {
    /// The state with every register empty.
    pub fn new() -> (r: State)
        ensures
            r == regs(List::Nil, List::Nil, List::Nil, List::Nil),
    {
        State { stack: List::Nil, env: List::Nil, control: List::Nil, dump: List::Nil }
    }

    /// The state that runs `program`: every other register empty.
    pub fn with_program(program: List<SVMCell>) -> (r: State)
        ensures
            r == regs(List::Nil, List::Nil, program, List::Nil),
    {
        State { stack: List::Nil, env: List::Nil, control: program, dump: List::Nil }
    }

    fn check(&self, permissive: bool) -> (r: Option<EvalError>)
        ensures
            r == fault(*self, permissive),
    {
        match &self.control {
            List::Nil => if permissive {
                None
            } else {
                Some(EvalError::ControlExhausted)
            },
            List::Cons(head, c) => match head {
                SVMCell::InstCell(i) => inst_check(*i, &self.stack, &self.env, &**c, &self.dump),
                _ => Some(EvalError::TypeMismatch { expected: Kind::Instruction, found: kind(head) }),
            },
        }
    }

    fn advance(self, permissive: bool) -> (r: (State, Effect))
        requires
            fault(self, permissive) is None,
        ensures
            r == apply(self, permissive),
    {
        let State { stack, env, control, dump } = self;
        match control {
            List::Nil => (State { stack, env, control: List::Nil, dump }, Effect::Halt),
            List::Cons(head, c) => match head {
                SVMCell::InstCell(i) => apply_inst(i, stack, env, *c, dump),
                _ => vstd::pervasive::unreached(),
            },
        }
    }

    /// Takes one step: runs the instruction at the head of the control register. Where it
    /// cannot run, the error comes back with the state unchanged. `permissive` says whether
    /// an empty control register ends the run (`Halt`) or is an error.
    pub fn eval(self, permissive: bool) -> (r: Result<(State, Effect), (EvalError, State)>)
        ensures
            match r {
                Ok(x) => next(self, permissive) == Ok::<(State, Effect), EvalError>(x),
                Err((e, s)) => next(self, permissive) == Err::<(State, Effect), EvalError>(e)
                    && s == self,
            },
    {
        match self.check(permissive) {
            Some(e) => Err((e, self)),
            None => Ok(self.advance(permissive)),
        }
    }

    /// Pushes what the host hands back after floating-point work or a `READC`.
    pub fn resume(self, answer: Answer) -> (r: State)
        ensures
            r == regs(cons(answer_cell(answer), self.stack), self.env, self.control, self.dump),
    {
        let cell = match answer {
            Answer::Number(bits) => SVMCell::AtomCell(Atom::Float(bits)),
            Answer::Truth(b) => truth_cell(b),
            Answer::Char(c) => SVMCell::AtomCell(Atom::Char(c)),
        };
        State { stack: List::Cons(cell, Box::new(self.stack)), env: self.env, control: self.control, dump: self.dump }
    }

    /// Steps until the run halts, fails, needs the host, or has taken `fuel` steps (with
    /// no budget, as many as a `u64` counts). The loop takes no host stack per step, so
    /// the depth of the guest's recursion does not grow the host's.
    pub fn run(self, fuel: Option<u64>, permissive: bool) -> (r: Outcome)
        ensures
            r == run_for(self, budget(fuel), permissive),
    {
        let mut left: u64 = match fuel {
            Some(n) => n,
            None => u64::MAX,
        };
        let mut s = self;
        loop
            invariant
                run_for(s, left as nat, permissive) == run_for(self, budget(fuel), permissive),
            decreases left,
        {
            if left == 0 {
                return Outcome::OutOfFuel(s);
            }
            match s.eval(permissive) {
                Err((e, s0)) => {
                    return Outcome::Failed(e, s0);
                },
                Ok((s2, eff)) => match eff {
                    Effect::Continue => {
                        s = s2;
                        left = left - 1;
                    },
                    Effect::Halt => {
                        return Outcome::Halted(s2);
                    },
                    _ => {
                        return Outcome::Suspended(eff, s2);
                    },
                },
            }
        }
    }
}

/// Runs a program from the state where every other register is empty, with no step
/// budget.
pub fn eval_program(program: List<SVMCell>, permissive: bool) -> (r: Outcome)
    ensures
        r == run_for(regs(List::Nil, List::Nil, program, List::Nil), budget(None), permissive),
{
    State::with_program(program).run(None, permissive)
}

// ---------------------------------------------------------------------------------------
// Laws of the machine
// ---------------------------------------------------------------------------------------
/// `SEL` picks the first list that follows it when the top of the stack is anything but the
/// empty list, the second otherwise, and saves the control after both; a `JOIN` at the end
/// of the branch taken resumes exactly there.
pub proof fn lemma_sel_join(
    cond: SVMCell,
    then_l: List<SVMCell>,
    else_l: List<SVMCell>,
    rest: List<SVMCell>,
    st: List<SVMCell>,
    env: List<SVMCell>,
    d: List<SVMCell>,
    later_st: List<SVMCell>,
    later_env: List<SVMCell>,
    later_c: List<SVMCell>,
    permissive: bool,
)
    ensures
        next(
            regs(
                cons(cond, st),
                env,
                cons(
                    SVMCell::InstCell(Inst::SEL),
                    cons(lc(then_l), cons(lc(else_l), rest)),
                ),
                d,
            ),
            permissive,
        ) == Ok::<(State, Effect), EvalError>(
            (
                regs(st, env, if cond == nil_cell() {
                    else_l
                } else {
                    then_l
                }, cons(lc(rest), d)),
                Effect::Continue,
            ),
        ),
        next(
            regs(later_st, later_env, cons(SVMCell::InstCell(Inst::JOIN), later_c), cons(lc(rest), d)),
            permissive,
        ) == Ok::<(State, Effect), EvalError>((regs(later_st, later_env, rest, d), Effect::Continue)),
{
    let c = cons(lc(then_l), cons(lc(else_l), rest));
    assert(c@[0] == lc(then_l));
    assert(cons(lc(else_l), rest)@[0] == lc(else_l));
    assert(c@[1] == lc(else_l));
    assert(cons(cond, st)@[0] == cond);
    assert(cons(lc(rest), d)@[0] == lc(rest));
}

/// A call by `AP` and the `RET` that ends it: after the `RET`, the stack, environment,
/// control and dump are those from before the call, less the closure, its arguments and
/// the `AP` itself, with the value returned on top of the stack.
pub proof fn lemma_ap_ret(
    code: List<SVMCell>,
    cenv: List<SVMCell>,
    args: List<SVMCell>,
    st: List<SVMCell>,
    env: List<SVMCell>,
    c: List<SVMCell>,
    d: List<SVMCell>,
    v: SVMCell,
    callee_st: List<SVMCell>,
    callee_env: List<SVMCell>,
    callee_c: List<SVMCell>,
    permissive: bool,
)
    ensures
        next(
            regs(cons(closure(code, cenv), cons(lc(args), st)), env, cons(SVMCell::InstCell(Inst::AP), c), d),
            permissive,
        ) == Ok::<(State, Effect), EvalError>(
            (regs(List::Nil, cons(lc(args), cenv), code, cons(saved(st, env, c), d)), Effect::Continue),
        ),
        next(
            regs(
                cons(v, callee_st),
                callee_env,
                cons(SVMCell::InstCell(Inst::RET), callee_c),
                cons(saved(st, env, c), d),
            ),
            permissive,
        ) == Ok::<(State, Effect), EvalError>((regs(cons(v, st), env, c, d), Effect::Continue)),
{
    let s0 = cons(closure(code, cenv), cons(lc(args), st));
    assert(s0@[0] == closure(code, cenv));
    assert(cons(lc(args), st)@[0] == lc(args));
    assert(s0@[1] == lc(args));
    assert(cons(v, callee_st)@[0] == v);
    assert(cons(saved(st, env, c), d)@[0] == saved(st, env, c));
}

/// For two integers of one kind, `ADD` and then `SUB` of the same second operand gives
/// back the first operand.
pub proof fn lemma_add_then_sub(
    a: Atom,
    b: Atom,
    rest: List<SVMCell>,
    env: List<SVMCell>,
    c: List<SVMCell>,
    d: List<SVMCell>,
    permissive: bool,
)
    requires
        (a is UInt && b is UInt) || (a is SInt && b is SInt),
    ensures
        ({
            let s0 = regs(
                cons(SVMCell::AtomCell(a), cons(SVMCell::AtomCell(b), cons(SVMCell::AtomCell(b), rest))),
                env,
                cons(SVMCell::InstCell(Inst::ADD), cons(SVMCell::InstCell(Inst::SUB), c)),
                d,
            );
            &&& next(s0, permissive) is Ok
            &&& next(next(s0, permissive)->Ok_0.0, permissive) == Ok::<(State, Effect), EvalError>(
                (regs(cons(SVMCell::AtomCell(a), rest), env, c, d), Effect::Continue),
            )
        }),
{
    let s0 = cons(SVMCell::AtomCell(a), cons(SVMCell::AtomCell(b), cons(SVMCell::AtomCell(b), rest)));
    assert(s0@[0] == SVMCell::AtomCell(a));
    assert(cons(SVMCell::AtomCell(b), cons(SVMCell::AtomCell(b), rest))@[0] == SVMCell::AtomCell(b));
    assert(s0@[1] == SVMCell::AtomCell(b));
    let s1 = next(regs(s0, env, cons(SVMCell::InstCell(Inst::ADD), cons(SVMCell::InstCell(Inst::SUB), c)), d), permissive)->Ok_0.0;
    let sum = int_result(Inst::ADD, a, b);
    assert(s1.stack == cons(sum, cons(SVMCell::AtomCell(b), rest)));
    assert(s1.stack@[0] == sum);
    assert(cons(SVMCell::AtomCell(b), rest)@[0] == SVMCell::AtomCell(b));
    assert(s1.stack@[1] == SVMCell::AtomCell(b));
    assert(cons(SVMCell::InstCell(Inst::SUB), c)@[0] == SVMCell::InstCell(Inst::SUB));
}

/// `FDIV` on any two numbers, and any arithmetic or comparison with a float operand, is
/// done in floating point: the step hands both operands to the host, and the result that
/// `resume` pushes for an arithmetic operation is a float.
pub proof fn lemma_float_widening(
    i: Inst,
    a: Atom,
    b: Atom,
    rest: List<SVMCell>,
    env: List<SVMCell>,
    c: List<SVMCell>,
    d: List<SVMCell>,
    bits: u64,
    permissive: bool,
)
    requires
        is_binary(i),
        is_number(a),
        is_number(b),
        i == Inst::FDIV || a is Float || b is Float,
        !(divides(i) && is_zero(b)),
    ensures
        next(
            regs(cons(SVMCell::AtomCell(a), cons(SVMCell::AtomCell(b), rest)), env, cons(SVMCell::InstCell(i), c), d),
            permissive,
        ) == Ok::<(State, Effect), EvalError>(
            (regs(rest, env, c, d), Effect::Float(FloatOp { op: i, lhs: a, rhs: b })),
        ),
        answer_cell(Answer::Number(bits)) == SVMCell::AtomCell(Atom::Float(bits)),
{
    let s0 = cons(SVMCell::AtomCell(a), cons(SVMCell::AtomCell(b), rest));
    assert(s0@[0] == SVMCell::AtomCell(a));
    assert(cons(SVMCell::AtomCell(b), rest)@[0] == SVMCell::AtomCell(b));
    assert(s0@[1] == SVMCell::AtomCell(b));
}

/// A closure made after `DUM`, applied through `RAP` on a frame that holds itself, reaches
/// itself by `LD`: from the body that `RAP` runs, and again from inside a call of it, at
/// any depth, always as the same closure, so recursion does not grow the environment.
pub proof fn lemma_rap_self_reference(
    body: List<SVMCell>,
    fcode: List<SVMCell>,
    e: List<SVMCell>,
    vals: List<SVMCell>,
    k: int,
    st: List<SVMCell>,
    c: List<SVMCell>,
    d: List<SVMCell>,
    args: List<SVMCell>,
    permissive: bool,
)
    requires
        1 <= k <= vals@.len(),
        vals@[k - 1] == closure(fcode, cons(nil_cell(), e)),
    ensures
        next(
            regs(
                cons(closure(body, cons(nil_cell(), e)), cons(lc(vals), st)),
                cons(nil_cell(), e),
                cons(SVMCell::InstCell(Inst::RAP), c),
                d,
            ),
            permissive,
        ) == Ok::<(State, Effect), EvalError>(
            (
                regs(List::Nil, cons(rec_frame(vals), e), body, cons(saved(st, e, c), d)),
                Effect::Continue,
            ),
        ),
        lookup(cons(rec_frame(vals), e), 1, k) == Ok::<SVMCell, EvalError>(
            closure(fcode, cons(rec_frame(vals), e)),
        ),
        lookup(cons(lc(args), cons(rec_frame(vals), e)), 2, k) == Ok::<SVMCell, EvalError>(
            closure(fcode, cons(rec_frame(vals), e)),
        ),
{
    let s0 = cons(closure(body, cons(nil_cell(), e)), cons(lc(vals), st));
    assert(s0@[0] == closure(body, cons(nil_cell(), e)));
    assert(cons(lc(vals), st)@[0] == lc(vals));
    assert(s0@[1] == lc(vals));
    let env1 = cons(rec_frame(vals), e);
    assert(env1@[0] == rec_frame(vals));
    assert(cons(lc(args), env1)@[1] == rec_frame(vals));
}

} // verus!

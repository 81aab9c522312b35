//! An abstract machine with four list-valued registers (stack, environment, control and
//! dump), together with the tagged binary format that its programs are stored in.
pub mod bytecode;
pub mod cell;
pub mod eval;
pub mod slist;

pub use cell::{Atom, Inst, SVMCell};
pub use slist::{List, ListError};

//! Numeric coercion between guest values, as far as the bridge observes
//! it.
//!
//! The guest's full numeric tower is an external collaborator; the bridge
//! itself converts no floats, so the only coercion outcome it can carry is
//! a pair of machine integers. Coercing anything that is not a guest
//! integer fails with a conversion error.

use vstd::prelude::*;

use crate::error::{Error, UnboxRubyError};
use crate::interp::Interp;
use crate::types::Rust;
use crate::value::Value;

verus! {

/// The result of a guest arithmetic operation carried back across the
/// bridge.
#[derive(Debug, Clone, Copy, PartialEq, Eq, Structural)]
pub enum Outcome {
    /// The operation produced a guest integer.
    Integer(i64),
}

/// A pair of operands brought to a common numeric type.
#[derive(Debug, Clone, Copy, PartialEq, Eq, Structural)]
pub enum Coercion {
    /// Both operands coerced to machine integers.
    Integer(i64, i64),
}

/// Coerce two guest values to a common numeric type: succeeds exactly
/// when both are guest integers. The interpreter handle is threaded
/// through, as every bridge operation takes it, but coercion of machine
/// integers reads no guest state.
pub fn coerce(interp: &mut Interp, x: Value, y: Value) -> (r: Result<Coercion, Error>)
    requires
        old(interp).wf(),
    ensures
        *final(interp) == *old(interp),
        match (x, y) {
            (Value::Fixnum(a), Value::Fixnum(b)) => r == Ok::<Coercion, Error>(
                Coercion::Integer(a, b),
            ),
            (Value::Fixnum(_), _) => r == Err::<Coercion, Error>(
                Error::Unbox(UnboxRubyError { from: y.ruby_type_spec(), into: Rust::SignedInt }),
            ),
            _ => r == Err::<Coercion, Error>(
                Error::Unbox(UnboxRubyError { from: x.ruby_type_spec(), into: Rust::SignedInt }),
            ),
        },
{
    match (x, y) {
        (Value::Fixnum(a), Value::Fixnum(b)) => Ok(Coercion::Integer(a, b)),
        (Value::Fixnum(_), _) => Err(Error::Unbox(UnboxRubyError::new(&y, Rust::SignedInt))),
        _ => Err(Error::Unbox(UnboxRubyError::new(&x, Rust::SignedInt))),
    }
}

} // verus!

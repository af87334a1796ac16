//! The conversion protocol: typed, bidirectional translation between host
//! primitive and container types and guest dynamic values.
//!
//! Infallible conversions (`convert_*`) exist where every host value has a
//! guest representation. Fallible conversions (`try_convert_*`) fail with a
//! [`crate::error::UnboxRubyError`] exactly when the guest value's type tag
//! does not match what the host type requires. Conversions that must
//! allocate a guest heap object (`*_mut_*`) take the interpreter by unique
//! access, because guest allocation can trigger collection.
//!
//! Scalar conversions live here; string and byte-string conversions in
//! [`string`], container conversions in [`array`], and the heap-object
//! boxing protocol in [`boxing`].

use vstd::prelude::*;

use crate::error::{Error, UnboxRubyError};
use crate::interp::Interp;
use crate::types::Rust;
use crate::value::Value;

pub mod array;
pub mod boxing;
pub mod string;

verus! {

impl Interp {
    /// Convert a host integer to a guest integer. Infallible and
    /// allocation-free: guest integers are stored inline.
    pub fn convert_int(&self, value: i64) -> (r: Value)
        ensures
            r == Value::Fixnum(value),
    {
        Value::Fixnum(value)
    }

    /// Convert a host boolean to a guest boolean. Infallible and
    /// allocation-free.
    pub fn convert_bool(&self, value: bool) -> (r: Value)
        ensures
            r == Value::Bool(value),
    {
        Value::Bool(value)
    }

    /// The guest nil singleton.
    pub fn convert_nil(&self) -> (r: Value)
        ensures
            r == Value::Nil,
    {
        Value::Nil
    }

    /// Reinterpret a guest value as a host integer: succeeds exactly on
    /// guest integers and hands back the inline payload.
    pub fn try_convert_int(&self, value: Value) -> (r: Result<i64, Error>)
        ensures
            value matches Value::Fixnum(i) ==> r == Ok::<i64, Error>(i),
            !(value is Fixnum) ==> r == Err::<i64, Error>(
                Error::Unbox(
                    UnboxRubyError { from: value.ruby_type_spec(), into: Rust::SignedInt },
                ),
            ),
    {
        match value {
            Value::Fixnum(i) => Ok(i),
            _ => Err(Error::Unbox(UnboxRubyError::new(&value, Rust::SignedInt))),
        }
    }

    /// Reinterpret a guest value as a host boolean: succeeds exactly on
    /// guest booleans.
    pub fn try_convert_bool(&self, value: Value) -> (r: Result<bool, Error>)
        ensures
            value matches Value::Bool(b) ==> r == Ok::<bool, Error>(b),
            !(value is Bool) ==> r == Err::<bool, Error>(
                Error::Unbox(UnboxRubyError { from: value.ruby_type_spec(), into: Rust::Bool }),
            ),
    {
        match value {
            Value::Bool(b) => Ok(b),
            _ => Err(Error::Unbox(UnboxRubyError::new(&value, Rust::Bool))),
        }
    }
}

} // verus!

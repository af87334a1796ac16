//! The error surface of the bridge.
//!
//! Every failure the bridge can produce is recoverable and is surfaced to
//! the guest as a catchable exception: a guest exception class name plus a
//! message. Only arena misuse and finalizer corruption are fatal, and those
//! are ruled out statically by preconditions rather than represented here.

use vstd::prelude::*;
use vstd::string::*;
use vstd::slice::slice_to_vec;

use crate::def::{ConstantNameError, NotDefinedError};
use crate::types::{Ruby, Rust};

verus! {

/// Error raised when a guest value cannot be reinterpreted as the requested
/// host type: it carries the guest value's observed type tag and the host
/// type that was requested.
#[derive(Debug, Clone, Copy, PartialEq, Eq, Structural)]
pub struct UnboxRubyError {
    /// The type tag the guest value reported.
    pub from: Ruby,
    /// The host type the conversion was asked for.
    pub into: Rust,
}

impl UnboxRubyError {
    /// Record that a value tagged as `value`'s type could not be converted
    /// into the host type `into`.
    pub fn new(value: &crate::value::Value, into: Rust) -> (r: Self)
        ensures
            r.from == value.ruby_type_spec(),
            r.into == into,
    {
        UnboxRubyError { from: value.ruby_type(), into }
    }

    /// The message this error surfaces to the guest: it names the observed
    /// guest type tag and the requested host type.
    pub fn message(&self) -> (r: String)
        ensures
            r@ == "failed to convert from "@ + self.from.class_name_spec() + " into "@
                + self.into.name_spec(),
    {
        let mut message = String::from_str("failed to convert from ");
        message.append(self.from.class_name());
        message.append(" into ");
        message.append(self.into.name());
        message
    }

    /// The guest exception class this error surfaces as.
    pub fn name(&self) -> (r: &'static str)
        ensures
            r@ == "TypeError"@,
    {
        "TypeError"
    }
}

/// Error raised when a guest object of boxed host data is unboxed as the
/// wrong native type: it names the expected and the observed class.
#[derive(Debug, Clone, PartialEq, Eq)]
pub struct UnboxError {
    /// Name of the guest class the caller expected, as identifier bytes.
    pub expected: Vec<u8>,
    /// Name of the class the boxed object actually has, as identifier
    /// bytes.
    pub observed: Vec<u8>,
}

impl UnboxError {
    /// The message this error surfaces to the guest: it names the expected
    /// and the observed class of the boxed object.
    pub fn message(&self) -> (r: Vec<u8>)
        ensures
            r@ == "expected boxed ".spec_bytes() + self.expected@ + ", found ".spec_bytes()
                + self.observed@,
    {
        let mut message = slice_to_vec("expected boxed ".as_bytes());
        message.extend_from_slice(self.expected.as_slice());
        message.extend_from_slice(", found ".as_bytes());
        message.extend_from_slice(self.observed.as_slice());
        message
    }

    /// The guest exception class this error surfaces as.
    pub fn name(&self) -> (r: &'static str)
        ensures
            r@ == "TypeError"@,
    {
        "TypeError"
    }
}

/// Any recoverable error the bridge can raise.
#[derive(Debug, Clone, PartialEq, Eq)]
pub enum Error {
    /// An identifier held a NUL byte.
    ConstantName(ConstantNameError),
    /// A referenced guest item does not exist in the class table.
    NotDefined(NotDefinedError),
    /// A guest value's tag did not match the requested host type.
    Unbox(UnboxRubyError),
    /// A boxed guest object's class identity did not match the requested
    /// native type.
    BoxedClass(UnboxError),
    /// Integer division by zero.
    ZeroDivision,
    /// A value fell outside the representable range; carries the message.
    Range(String),
    /// An operation the bridge does not support; carries the message bytes.
    NotImplemented(Vec<u8>),
}

impl Error {
    /// The guest exception class this error surfaces as.
    pub fn name(&self) -> (r: &'static str)
        ensures
            r@ == self.name_spec(),
    {
        match self {
            Error::ConstantName(_) => "NameError",
            Error::NotDefined(_) => "ScriptError",
            Error::Unbox(_) => "TypeError",
            Error::BoxedClass(_) => "TypeError",
            Error::ZeroDivision => "ZeroDivisionError",
            Error::Range(_) => "RangeError",
            Error::NotImplemented(_) => "NotImplementedError",
        }
    }

    /// What `name` returns for each variant.
    pub open spec fn name_spec(self) -> Seq<char> {
        match self {
            Error::ConstantName(_) => "NameError"@,
            Error::NotDefined(_) => "ScriptError"@,
            Error::Unbox(_) => "TypeError"@,
            Error::BoxedClass(_) => "TypeError"@,
            Error::ZeroDivision => "ZeroDivisionError"@,
            Error::Range(_) => "RangeError"@,
            Error::NotImplemented(_) => "NotImplementedError"@,
        }
    }

    /// What `message` returns for each variant.
    pub open spec fn message_spec(self) -> Seq<u8> {
        match self {
            Error::ConstantName(_) => vstd::utf8::encode_utf8(
                "Invalid constant name contained a NUL byte"@,
            ),
            Error::NotDefined(nd) => vstd::utf8::encode_utf8(
                nd.item_type_spec() + " "@ + nd.fqdn_spec() + " not defined"@,
            ),
            Error::Unbox(u) => vstd::utf8::encode_utf8(
                "failed to convert from "@ + u.from.class_name_spec() + " into "@
                    + u.into.name_spec(),
            ),
            Error::BoxedClass(u) => "expected boxed ".spec_bytes() + u.expected@
                + ", found ".spec_bytes() + u.observed@,
            Error::ZeroDivision => vstd::utf8::encode_utf8("divided by 0"@),
            Error::Range(s) => vstd::utf8::encode_utf8(s@),
            Error::NotImplemented(m) => m@,
        }
    }

    /// The message this error surfaces to the guest, as guest string
    /// bytes.
    pub fn message(&self) -> (r: Vec<u8>)
        ensures
            r@ == self.message_spec(),
    {
        match self {
            Error::ConstantName(e) => slice_to_vec(e.message().as_bytes()),
            Error::NotDefined(nd) => nd.message().as_str().as_bytes_vec(),
            Error::Unbox(u) => u.message().as_str().as_bytes_vec(),
            Error::BoxedClass(u) => u.message(),
            Error::ZeroDivision => slice_to_vec("divided by 0".as_bytes()),
            Error::Range(s) => s.as_str().as_bytes_vec(),
            Error::NotImplemented(m) => slice_to_vec(m.as_slice()),
        }
    }

    /// Surface this error to the guest: convert the message to a guest
    /// string through the conversion protocol and instantiate the guest
    /// exception class named after the error kind, handing the message to
    /// its constructor. `None` when that class is not defined.
    pub fn as_guest_value(&self, interp: &mut crate::interp::Interp) -> (r: Option<
        crate::value::Value,
    >)
        requires
            old(interp).wf(),
        ensures
            final(interp).wf(),
            final(interp).classes == old(interp).classes,
            final(interp).symbols == old(interp).symbols,
            final(interp).boxed == old(interp).boxed,
            final(interp).anomalies == old(interp).anomalies,
            r is Some <==> crate::interp::top_level_class_exists(
                old(interp).classes@,
                vstd::utf8::encode_utf8(self.name_spec()),
            ),
            r matches Some(obj) ==> {
                &&& obj is Object
                &&& crate::interp::val_wf(final(interp).heap@, obj)
                &&& {
                    let slot = final(interp).heap@[obj->Object_0 as int];
                    &&& (slot->Object_class_name)@ == vstd::utf8::encode_utf8(self.name_spec())
                    &&& slot->Object_args@.len() == 1
                    &&& slot->Object_args@[0] is String
                    &&& crate::convert::string::string_bytes_at(
                        final(interp).heap@,
                        slot->Object_args@[0],
                    ) == self.message_spec()
                }
            },
    {
        let message = self.message();
        let message_value = interp.convert_mut_bytes(message);
        let mut args: Vec<crate::value::Value> = Vec::new();
        args.push(message_value);
        let ghost heap_mid = interp.heap@;
        let name = self.name();
        let r = interp.new_instance(name, args);
        proof {
            match r {
                Some(obj) => {
                    let slot = interp.heap@[obj->Object_0 as int];
                    assert(slot == interp.heap@.last());
                    assert(slot->Object_args@[0] == crate::value::Value::String(
                        old(interp).heap.len(),
                    ));
                    assert(interp.heap@[old(interp).heap@.len() as int] == heap_mid[old(
                        interp,
                    ).heap@.len() as int]);
                },
                None => {},
            }
        }
        r
    }
}

} // verus!

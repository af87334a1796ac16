//! String and byte-string conversions.
//!
//! Guest strings are byte strings. A host byte buffer converts to a guest
//! string by copying the bytes into a fresh guest heap allocation — the
//! guest never aliases host buffer memory, since the collector knows
//! nothing about host lifetimes. A host UTF-8 string converts through its
//! byte representation; reading a UTF-8 string back out of the guest fails
//! when the guest string's bytes are not valid UTF-8.

use vstd::prelude::*;
use vstd::slice::slice_to_vec;
use vstd::string::StringSliceAdditionalSpecFns;
use vstd::utf8::{encode_utf8, valid_utf8};

use crate::error::{Error, UnboxRubyError};
use crate::interp::{val_wf, HeapSlot, Interp};
use crate::types::Rust;
use crate::value::Value;

verus! {

/// The bytes of the guest string `v` in `heap`.
pub open spec fn string_bytes_at(heap: Seq<HeapSlot>, v: Value) -> Seq<u8> {
    heap[v->String_0 as int]->String_bytes@
}

/// Relies on std's `String::from_utf8`: it succeeds exactly when the
/// input is valid UTF-8, and on success the returned string's UTF-8
/// encoding is the input, byte for byte.
#[verifier::external_body]
fn string_from_utf8(bytes: Vec<u8>) -> (r: Result<String, ()>)
    ensures
        r is Ok <==> valid_utf8(bytes@),
        r matches Ok(s) ==> encode_utf8(s@) == bytes@,
{
    match String::from_utf8(bytes) {
        Ok(s) => Ok(s),
        Err(_) => Err(()),
    }
}

impl Interp {
    /// Convert a host byte buffer to a fresh guest string, rooted in the
    /// current arena region.
    pub fn convert_mut_bytes(&mut self, value: Vec<u8>) -> (r: Value)
        requires
            old(self).wf(),
        ensures
            r == Value::String(old(self).heap.len()),
            final(self).heap@ == old(self).heap@.push(
                HeapSlot::String { bytes: value, frozen: false },
            ),
            string_bytes_at(final(self).heap@, r) == value@,
            val_wf(final(self).heap@, r),
            final(self).arena@ == old(self).arena@.push(r),
            final(self).globals == old(self).globals,
            final(self).classes == old(self).classes,
            final(self).symbols == old(self).symbols,
            final(self).boxed == old(self).boxed,
            final(self).anomalies == old(self).anomalies,
            final(self).wf(),
    {
        self.alloc_string(value)
    }

    /// Convert a borrowed host byte slice to a fresh guest string, rooted
    /// in the current arena region. The bytes are copied; the guest array
    /// owns its own buffer.
    pub fn convert_mut_byte_slice(&mut self, value: &[u8]) -> (r: Value)
        requires
            old(self).wf(),
        ensures
            r == Value::String(old(self).heap.len()),
            final(self).heap@.len() == old(self).heap@.len() + 1,
            final(self).heap@.subrange(0, old(self).heap@.len() as int) == old(self).heap@,
            string_bytes_at(final(self).heap@, r) == value@,
            final(self).heap@.last() matches HeapSlot::String { bytes, frozen } && bytes@ == value@
                && !frozen,
            val_wf(final(self).heap@, r),
            final(self).arena@ == old(self).arena@.push(r),
            final(self).globals == old(self).globals,
            final(self).classes == old(self).classes,
            final(self).symbols == old(self).symbols,
            final(self).boxed == old(self).boxed,
            final(self).anomalies == old(self).anomalies,
            final(self).wf(),
    {
        let r = self.alloc_string(slice_to_vec(value));
        proof {
            assert(final(self).heap@.subrange(0, old(self).heap@.len() as int) =~= old(
                self,
            ).heap@);
        }
        r
    }

    /// Convert an owned host UTF-8 string to a fresh guest string holding
    /// its UTF-8 bytes, rooted in the current arena region.
    pub fn convert_mut_string(&mut self, value: String) -> (r: Value)
        requires
            old(self).wf(),
        ensures
            r == Value::String(old(self).heap.len()),
            final(self).heap@.len() == old(self).heap@.len() + 1,
            final(self).heap@.subrange(0, old(self).heap@.len() as int) == old(self).heap@,
            string_bytes_at(final(self).heap@, r) == encode_utf8(value@),
            val_wf(final(self).heap@, r),
            final(self).arena@ == old(self).arena@.push(r),
            final(self).globals == old(self).globals,
            final(self).classes == old(self).classes,
            final(self).symbols == old(self).symbols,
            final(self).boxed == old(self).boxed,
            final(self).anomalies == old(self).anomalies,
            final(self).wf(),
    {
        self.convert_mut_str(value.as_str())
    }

    /// Convert a borrowed host UTF-8 string to a fresh guest string
    /// holding its UTF-8 bytes, rooted in the current arena region.
    pub fn convert_mut_str(&mut self, value: &str) -> (r: Value)
        requires
            old(self).wf(),
        ensures
            r == Value::String(old(self).heap.len()),
            final(self).heap@.len() == old(self).heap@.len() + 1,
            final(self).heap@.subrange(0, old(self).heap@.len() as int) == old(self).heap@,
            string_bytes_at(final(self).heap@, r) == encode_utf8(value@),
            val_wf(final(self).heap@, r),
            final(self).arena@ == old(self).arena@.push(r),
            final(self).globals == old(self).globals,
            final(self).classes == old(self).classes,
            final(self).symbols == old(self).symbols,
            final(self).boxed == old(self).boxed,
            final(self).anomalies == old(self).anomalies,
            final(self).wf(),
    {
        let r = self.convert_mut_byte_slice(value.as_bytes());
        r
    }

    /// Convert an optional host byte buffer: `None` becomes guest nil,
    /// `Some` becomes a fresh guest string.
    pub fn convert_mut_nilable_bytes(&mut self, value: Option<Vec<u8>>) -> (r: Value)
        requires
            old(self).wf(),
        ensures
            final(self).heap@.subrange(0, old(self).heap@.len() as int) == old(self).heap@,
            final(self).globals == old(self).globals,
            final(self).classes == old(self).classes,
            final(self).symbols == old(self).symbols,
            final(self).boxed == old(self).boxed,
            final(self).anomalies == old(self).anomalies,
            final(self).wf(),
            val_wf(final(self).heap@, r),
            value matches Some(b) ==> r == Value::String(old(self).heap.len())
                && string_bytes_at(final(self).heap@, r) == b@ && final(self).heap@.len() == old(
                self,
            ).heap@.len() + 1 && final(self).arena@ == old(self).arena@.push(r),
            value is None ==> r == Value::Nil && *final(self) == *old(self),
    {
        match value {
            Some(bytes) => {
                let r = self.convert_mut_bytes(bytes);
                proof {
                    assert(final(self).heap@.subrange(0, old(self).heap@.len() as int) =~= old(
                        self,
                    ).heap@);
                }
                r
            },
            None => {
                proof {
                    assert(self.heap@.subrange(0, self.heap@.len() as int) =~= self.heap@);
                }
                Value::Nil
            },
        }
    }

    /// Reinterpret a guest value as a host byte buffer: succeeds exactly
    /// on guest strings and copies their bytes out.
    pub fn try_convert_mut_bytes(&mut self, value: Value) -> (r: Result<Vec<u8>, Error>)
        requires
            old(self).wf(),
            val_wf(old(self).heap@, value),
        ensures
            *final(self) == *old(self),
            value is String ==> (r matches Ok(b) && b@ == string_bytes_at(old(self).heap@, value)),
            !(value is String) ==> r == Err::<Vec<u8>, Error>(
                Error::Unbox(UnboxRubyError { from: value.ruby_type_spec(), into: Rust::Bytes }),
            ),
    {
        match value {
            Value::String(_) => {
                let bytes = self.string_bytes(&value);
                Ok(slice_to_vec(bytes.as_slice()))
            },
            _ => Err(Error::Unbox(UnboxRubyError::new(&value, Rust::Bytes))),
        }
    }

    /// Reinterpret a guest value as an owned host UTF-8 string: succeeds
    /// exactly on guest strings whose bytes are valid UTF-8. A guest
    /// string holding other binary data converts as bytes, not as a
    /// string.
    pub fn try_convert_mut_string(&mut self, value: Value) -> (r: Result<String, Error>)
        requires
            old(self).wf(),
            val_wf(old(self).heap@, value),
        ensures
            *final(self) == *old(self),
            r is Ok <==> value is String && valid_utf8(string_bytes_at(old(self).heap@, value)),
            r matches Ok(s) ==> encode_utf8(s@) == string_bytes_at(old(self).heap@, value),
            !(value is String) ==> r == Err::<String, Error>(
                Error::Unbox(UnboxRubyError { from: value.ruby_type_spec(), into: Rust::String }),
            ),
            value is String && !valid_utf8(string_bytes_at(old(self).heap@, value)) ==> r
                == Err::<String, Error>(
                Error::Unbox(UnboxRubyError { from: value.ruby_type_spec(), into: Rust::String }),
            ),
    {
        match value {
            Value::String(_) => {
                let bytes = self.string_bytes(&value);
                match string_from_utf8(slice_to_vec(bytes.as_slice())) {
                    Ok(s) => Ok(s),
                    Err(_) => Err(Error::Unbox(UnboxRubyError::new(&value, Rust::String))),
                }
            },
            _ => Err(Error::Unbox(UnboxRubyError::new(&value, Rust::String))),
        }
    }

    /// Reinterpret a guest value as an optional host byte buffer: nil
    /// becomes `None`, a guest string becomes `Some` of its bytes, and
    /// every other tag fails.
    pub fn try_convert_mut_nilable_bytes(&mut self, value: Value) -> (r: Result<
        Option<Vec<u8>>,
        Error,
    >)
        requires
            old(self).wf(),
            val_wf(old(self).heap@, value),
        ensures
            *final(self) == *old(self),
            value is Nil ==> r == Ok::<Option<Vec<u8>>, Error>(None),
            value is String ==> (r matches Ok(b) && b matches Some(bytes) && bytes@
                == string_bytes_at(old(self).heap@, value)),
            !(value is Nil) && !(value is String) ==> r == Err::<Option<Vec<u8>>, Error>(
                Error::Unbox(UnboxRubyError { from: value.ruby_type_spec(), into: Rust::Bytes }),
            ),
    {
        match value {
            Value::Nil => Ok(None),
            Value::String(_) => {
                let bytes = self.string_bytes(&value);
                Ok(Some(slice_to_vec(bytes.as_slice())))
            },
            _ => Err(Error::Unbox(UnboxRubyError::new(&value, Rust::Bytes))),
        }
    }
}

} // verus!

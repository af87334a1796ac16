//! The heap-object boxing protocol.
//!
//! Boxing transfers ownership of a host heap allocation into a guest
//! object (the *envelope*) of a registered guest class. The envelope owns
//! the payload until the collector reclaims it, at which point the
//! finalizer destroys the payload, exactly once. Unboxing reinterprets the
//! payload as the requested native type, but only after checking that the
//! value is a boxed object *and* that its class identity matches; on
//! mismatch it fails with an [`UnboxError`] naming the expected and the
//! observed class.

use vstd::prelude::*;
use vstd::pervasive::unreached;
use vstd::slice::slice_to_vec;

use crate::error::{Error, UnboxError, UnboxRubyError};
use crate::interp::{slot_wf, val_wf, HeapSlot, Interp};
use crate::types::Rust;
use crate::value::Value;

verus! {

impl Interp {
    /// Box a host heap value: allocate a guest envelope of the registered
    /// class `class`, transfer ownership of the host value's heap
    /// representation (`data`) into it, and root the envelope in the
    /// current arena region. The payload will be reclaimed by the
    /// collector's finalizer, never at a host-predictable time.
    pub fn box_value(&mut self, class: usize, data: Vec<u8>) -> (r: Value)
        requires
            old(self).wf(),
            class < old(self).classes@.len(),
        ensures
            r == Value::Data(old(self).heap.len()),
            final(self).heap@ == old(self).heap@.push(
                HeapSlot::Data { class, payload: old(self).boxed.len() },
            ),
            final(self).boxed@.len() == old(self).boxed@.len() + 1,
            final(self).boxed@.last().data == data,
            !final(self).boxed@.last().finalized,
            final(self).boxed@.subrange(0, old(self).boxed@.len() as int) == old(self).boxed@,
            final(self).arena@ == old(self).arena@.push(r),
            final(self).globals == old(self).globals,
            final(self).classes == old(self).classes,
            final(self).symbols == old(self).symbols,
            final(self).anomalies == old(self).anomalies,
            final(self).wf(),
    {
        let r = self.alloc_data(class, data);
        proof {
            assert(final(self).boxed@.subrange(0, old(self).boxed@.len() as int) =~= old(
                self,
            ).boxed@);
        }
        r
    }

    /// Unbox a guest value as the native type registered under `class`:
    /// succeeds exactly when the value is a boxed host object whose class
    /// identity is `class`, and then hands back the payload. A value of
    /// any other tag fails as a conversion error; a boxed object of
    /// another class fails with an [`UnboxError`] naming the expected and
    /// the observed class.
    pub fn unbox<'a>(&'a self, value: &Value, class: usize) -> (r: Result<&'a Vec<u8>, Error>)
        requires
            self.wf(),
            val_wf(self.heap@, *value),
            class < self.classes@.len(),
        ensures
            !(*value is Data) ==> r == Err::<&'a Vec<u8>, Error>(
                Error::Unbox(UnboxRubyError { from: value.ruby_type_spec(), into: Rust::Object }),
            ),
            *value is Data ==> {
                &&& {
                    let slot = self.heap@[value->Data_0 as int];
                    &&& slot->Data_class == class ==> (r matches Ok(d) && d@
                        == self.boxed@[slot->Data_payload as int].data@)
                    &&& slot->Data_class != class ==> (r matches Err(e) && e matches Error::BoxedClass(u)
                        && u.expected@ == self.classes@[class as int].name@ && u.observed@
                        == self.classes@[slot->Data_class as int].name@)
                }
            },
    {
        let id: usize = match value {
            Value::Data(id) => *id,
            _ => {
                return Err(Error::Unbox(UnboxRubyError::new(value, Rust::Object)));
            },
        };
        proof {
            assert(slot_wf(self.heap@, self.boxed@, self.classes@.len() as int, id as int));
        }
        let (slot_class, payload): (usize, usize) = match &self.heap[id] {
            HeapSlot::Data { class, payload } => (*class, *payload),
            _ => unreached(),
        };
        if slot_class == class {
            let entry = &self.boxed[payload];
            Ok(&entry.data)
        } else {
            Err(Error::BoxedClass(UnboxError {
                expected: slice_to_vec(self.classes[class].name.as_slice()),
                observed: slice_to_vec(self.classes[slot_class].name.as_slice()),
            }))
        }
    }
}

} // verus!

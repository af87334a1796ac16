//! Container conversions: host sequences to guest arrays and back.
//!
//! A container conversion maps element-wise and wraps the result in
//! exactly one guest array allocation; the elements are allocated (and
//! rooted) first, then the array, so the array never references an
//! unrooted value. Both owned and borrowed host representations convert,
//! producing independent guest arrays: the guest never aliases host
//! buffer memory.
//!
//! Reading a container back fails on the first incompatible element and
//! aborts the remaining traversal; no partial result is observable.

use vstd::prelude::*;
use vstd::slice::slice_to_vec;
use vstd::string::StringExecFns;

use crate::convert::string::string_bytes_at;
use crate::error::{Error, UnboxRubyError};
use crate::interp::{val_wf, HeapSlot, Interp};
use crate::types::Rust;
use crate::value::Value;

verus! {

/// The guest values representing a host integer sequence.
pub open spec fn int_values(xs: Seq<i64>) -> Seq<Value> {
    xs.map_values(|x: i64| Value::Fixnum(x))
}

/// How many entries of a nilable byte-buffer sequence are present: the
/// number of guest strings its conversion allocates.
pub open spec fn count_some(s: Seq<Option<Vec<u8>>>) -> int
    decreases s.len(),
{
    if s.len() == 0 {
        0
    } else {
        count_some(s.drop_last()) + (if s.last() is Some {
            1int
        } else {
            0int
        })
    }
}

/// How many guest heap slots converting a sequence of nilable byte-buffer
/// sequences allocates below the outer array: one string per present
/// entry, plus one inner array per element.
pub open spec fn nested_slot_count(s: Seq<Vec<Option<Vec<u8>>>>) -> int
    decreases s.len(),
{
    if s.len() == 0 {
        0
    } else {
        nested_slot_count(s.drop_last()) + count_some(s.last()@) + 1
    }
}

/// Sequences with present entries at the same positions allocate the same
/// number of guest strings.
proof fn lemma_count_some_congruent(a: Seq<Option<Vec<u8>>>, b: Seq<Option<Vec<u8>>>)
    requires
        a.len() == b.len(),
        forall|u: int| 0 <= u < a.len() ==> ((#[trigger] a[u]) is Some <==> b[u] is Some),
    ensures
        count_some(a) == count_some(b),
    decreases a.len(),
{
    if a.len() > 0 {
        assert forall|u: int| 0 <= u < a.drop_last().len() implies ((
        #[trigger] a.drop_last()[u]) is Some <==> b.drop_last()[u] is Some) by {
            assert(a.drop_last()[u] == a[u] && b.drop_last()[u] == b[u]);
        }
        lemma_count_some_congruent(a.drop_last(), b.drop_last());
        assert(a.last() == a[a.len() - 1] && b.last() == b[b.len() - 1]);
    }
}

impl Interp {
    /// Convert an owned host integer sequence to a guest array of guest
    /// integers, in one guest array allocation.
    pub fn try_convert_mut_int_vec(&mut self, value: Vec<i64>) -> (r: Result<Value, Error>)
        requires
            old(self).wf(),
        ensures
            r matches Ok(v) && v == Value::Array(old(self).heap.len()),
            final(self).heap@ == old(self).heap@.push(
                HeapSlot::Array { items: final(self).heap@.last()->Array_items },
            ),
            final(self).heap@.last()->Array_items@ == int_values(value@),
            final(self).arena@ == old(self).arena@.push(r->Ok_0),
            final(self).globals == old(self).globals,
            final(self).classes == old(self).classes,
            final(self).symbols == old(self).symbols,
            final(self).boxed == old(self).boxed,
            final(self).anomalies == old(self).anomalies,
            final(self).wf(),
    {
        self.try_convert_mut_int_slice(value.as_slice())
    }

    /// Convert a borrowed host integer slice to a guest array of guest
    /// integers, in one guest array allocation.
    pub fn try_convert_mut_int_slice(&mut self, value: &[i64]) -> (r: Result<Value, Error>)
        requires
            old(self).wf(),
        ensures
            r matches Ok(v) && v == Value::Array(old(self).heap.len()),
            final(self).heap@ == old(self).heap@.push(
                HeapSlot::Array { items: final(self).heap@.last()->Array_items },
            ),
            final(self).heap@.last()->Array_items@ == int_values(value@),
            final(self).arena@ == old(self).arena@.push(r->Ok_0),
            final(self).globals == old(self).globals,
            final(self).classes == old(self).classes,
            final(self).symbols == old(self).symbols,
            final(self).boxed == old(self).boxed,
            final(self).anomalies == old(self).anomalies,
            final(self).wf(),
    {
        let mut items: Vec<Value> = Vec::new();
        let mut j: usize = 0;
        while j < value.len()
            invariant
                0 <= j <= value@.len(),
                items@ == int_values(value@.take(j as int)),
            decreases value@.len() - j,
        {
            items.push(Value::Fixnum(value[j]));
            proof {
                assert(value@.take(j + 1int).drop_last() =~= value@.take(j as int));
                assert(int_values(value@.take(j + 1int)) =~= int_values(
                    value@.take(j as int),
                ).push(Value::Fixnum(value@[j as int])));
            }
            j = j + 1;
        }
        proof {
            assert(value@.take(value@.len() as int) =~= value@);
        }
        let v = self.alloc_array(items);
        Ok(v)
    }

    /// Convert an owned host sequence of UTF-8 strings to a guest array
    /// of guest strings: one guest string allocation per element, then
    /// exactly one guest array allocation.
    pub fn try_convert_mut_string_vec(&mut self, value: Vec<String>) -> (r: Result<Value, Error>)
        requires
            old(self).wf(),
        ensures
            r matches Ok(v) && v is Array,
            val_wf(final(self).heap@, r->Ok_0),
            final(self).heap@.subrange(0, old(self).heap@.len() as int) == old(self).heap@,
            final(self).heap@.len() == old(self).heap@.len() + value@.len() + 1,
            ({
                let items = final(self).heap@[r->Ok_0->Array_0 as int]->Array_items@;
                &&& items.len() == value@.len()
                &&& forall|k: int|
                    0 <= k < items.len() ==> (#[trigger] items[k]) is String && string_bytes_at(
                        final(self).heap@,
                        items[k],
                    ) == vstd::utf8::encode_utf8(value@[k]@)
            }),
            final(self).globals == old(self).globals,
            final(self).classes == old(self).classes,
            final(self).symbols == old(self).symbols,
            final(self).boxed == old(self).boxed,
            final(self).anomalies == old(self).anomalies,
            final(self).wf(),
    {
        let mut items: Vec<Value> = Vec::new();
        let mut j: usize = 0;
        while j < value.len()
            invariant
                old(self).wf(),
                self.wf(),
                0 <= j <= value@.len(),
                self.heap@.subrange(0, old(self).heap@.len() as int) == old(self).heap@,
                self.heap@.len() == old(self).heap@.len() + j,
                self.globals == old(self).globals,
                self.classes == old(self).classes,
                self.symbols == old(self).symbols,
                self.boxed == old(self).boxed,
                self.anomalies == old(self).anomalies,
                items@.len() == j,
                forall|k: int|
                    0 <= k < j ==> (#[trigger] items@[k]) is String && val_wf(
                        self.heap@,
                        items@[k],
                    ) && string_bytes_at(self.heap@, items@[k]) == vstd::utf8::encode_utf8(
                        value@[k]@,
                    ),
            decreases value@.len() - j,
        {
            let ghost heap_pre = self.heap@;
            let ghost items_pre = items@;
            let v = self.convert_mut_str(value[j].as_str());
            items.push(v);
            proof {
                assert(self.heap@.subrange(0, old(self).heap@.len() as int) =~= old(self).heap@);
                assert forall|k: int|
                    0 <= k < j + 1 implies (#[trigger] items@[k]) is String && val_wf(
                    self.heap@,
                    items@[k],
                ) && string_bytes_at(self.heap@, items@[k]) == vstd::utf8::encode_utf8(
                    value@[k]@,
                ) by {
                    if k < j {
                        assert(items@[k] == items_pre[k]);
                        let id = items_pre[k]->String_0 as int;
                        assert(id < heap_pre.len());
                        assert(self.heap@.subrange(0, heap_pre.len() as int) =~= heap_pre);
                        assert(self.heap@[id] == heap_pre[id]);
                    }
                }
            }
            j = j + 1;
        }
        let ghost hb = self.heap@;
        let ghost items_fin = items@;
        let v = self.alloc_array(items);
        proof {
            assert(self.heap@.subrange(0, old(self).heap@.len() as int) =~= old(self).heap@);
            assert(self.heap@[v->Array_0 as int]->Array_items@ == items_fin);
            assert forall|k: int|
                0 <= k < self.heap@[v->Array_0 as int]->Array_items@.len() implies (
            #[trigger] self.heap@[v->Array_0 as int]->Array_items@[k]) is String
                && string_bytes_at(
                self.heap@,
                self.heap@[v->Array_0 as int]->Array_items@[k],
            ) == vstd::utf8::encode_utf8(value@[k]@) by {
                let it = items_fin[k];
                assert(val_wf(hb, it));
                assert(self.heap@[it->String_0 as int] == hb[it->String_0 as int]);
            }
        }
        Ok(v)
    }

    /// Convert a borrowed host slice of UTF-8 strings to a guest array of
    /// guest strings.
    pub fn try_convert_mut_string_slice(&mut self, value: &[String]) -> (r: Result<Value, Error>)
        requires
            old(self).wf(),
        ensures
            r matches Ok(v) && v is Array,
            val_wf(final(self).heap@, r->Ok_0),
            final(self).heap@.subrange(0, old(self).heap@.len() as int) == old(self).heap@,
            final(self).heap@.len() == old(self).heap@.len() + value@.len() + 1,
            ({
                let items = final(self).heap@[r->Ok_0->Array_0 as int]->Array_items@;
                &&& items.len() == value@.len()
                &&& forall|k: int|
                    0 <= k < items.len() ==> (#[trigger] items[k]) is String && string_bytes_at(
                        final(self).heap@,
                        items[k],
                    ) == vstd::utf8::encode_utf8(value@[k]@)
            }),
            final(self).globals == old(self).globals,
            final(self).classes == old(self).classes,
            final(self).symbols == old(self).symbols,
            final(self).boxed == old(self).boxed,
            final(self).anomalies == old(self).anomalies,
            final(self).wf(),
    {
        let mut owned: Vec<String> = Vec::new();
        let mut j: usize = 0;
        while j < value.len()
            invariant
                0 <= j <= value@.len(),
                owned@.len() == j,
                forall|k: int| 0 <= k < j ==> (#[trigger] owned@[k])@ == value@[k]@,
            decreases value@.len() - j,
        {
            owned.push(String::from_str(value[j].as_str()));
            j = j + 1;
        }
        let r = self.try_convert_mut_string_vec(owned);
        r
    }

    /// Convert an owned host sequence of byte buffers to a guest array of
    /// guest strings.
    pub fn try_convert_mut_bytes_vec(&mut self, value: Vec<Vec<u8>>) -> (r: Result<Value, Error>)
        requires
            old(self).wf(),
        ensures
            r matches Ok(v) && v is Array,
            val_wf(final(self).heap@, r->Ok_0),
            final(self).heap@.subrange(0, old(self).heap@.len() as int) == old(self).heap@,
            final(self).heap@.len() == old(self).heap@.len() + value@.len() + 1,
            ({
                let items = final(self).heap@[r->Ok_0->Array_0 as int]->Array_items@;
                &&& items.len() == value@.len()
                &&& forall|k: int|
                    0 <= k < items.len() ==> (#[trigger] items[k]) is String && string_bytes_at(
                        final(self).heap@,
                        items[k],
                    ) == value@[k]@
            }),
            final(self).globals == old(self).globals,
            final(self).classes == old(self).classes,
            final(self).symbols == old(self).symbols,
            final(self).boxed == old(self).boxed,
            final(self).anomalies == old(self).anomalies,
            final(self).wf(),
    {
        let mut items: Vec<Value> = Vec::new();
        let mut j: usize = 0;
        while j < value.len()
            invariant
                old(self).wf(),
                self.wf(),
                0 <= j <= value@.len(),
                self.heap@.subrange(0, old(self).heap@.len() as int) == old(self).heap@,
                self.heap@.len() == old(self).heap@.len() + j,
                self.globals == old(self).globals,
                self.classes == old(self).classes,
                self.symbols == old(self).symbols,
                self.boxed == old(self).boxed,
                self.anomalies == old(self).anomalies,
                items@.len() == j,
                forall|k: int|
                    0 <= k < j ==> (#[trigger] items@[k]) is String && val_wf(
                        self.heap@,
                        items@[k],
                    ) && string_bytes_at(self.heap@, items@[k]) == value@[k]@,
            decreases value@.len() - j,
        {
            let ghost heap_pre = self.heap@;
            let ghost items_pre = items@;
            let v = self.convert_mut_byte_slice(value[j].as_slice());
            items.push(v);
            proof {
                assert(self.heap@.subrange(0, old(self).heap@.len() as int) =~= old(self).heap@);
                assert forall|k: int|
                    0 <= k < j + 1 implies (#[trigger] items@[k]) is String && val_wf(
                    self.heap@,
                    items@[k],
                ) && string_bytes_at(self.heap@, items@[k]) == value@[k]@ by {
                    if k < j {
                        assert(items@[k] == items_pre[k]);
                        let id = items_pre[k]->String_0 as int;
                        assert(self.heap@.subrange(0, heap_pre.len() as int) =~= heap_pre);
                        assert(self.heap@[id] == heap_pre[id]);
                    }
                }
            }
            j = j + 1;
        }
        let ghost hb = self.heap@;
        let ghost items_fin = items@;
        let v = self.alloc_array(items);
        proof {
            assert(self.heap@.subrange(0, old(self).heap@.len() as int) =~= old(self).heap@);
            assert(self.heap@[v->Array_0 as int]->Array_items@ == items_fin);
            assert forall|k: int|
                0 <= k < self.heap@[v->Array_0 as int]->Array_items@.len() implies (
            #[trigger] self.heap@[v->Array_0 as int]->Array_items@[k]) is String
                && string_bytes_at(
                self.heap@,
                self.heap@[v->Array_0 as int]->Array_items@[k],
            ) == value@[k]@ by {
                let it = items_fin[k];
                assert(val_wf(hb, it));
                assert(self.heap@[it->String_0 as int] == hb[it->String_0 as int]);
            }
        }
        Ok(v)
    }

    /// Convert a borrowed host slice of optional byte buffers to a guest
    /// array of guest strings and nils. The bytes are copied; the guest
    /// never aliases host buffer memory.
    pub fn try_convert_mut_nilable_bytes_slice(&mut self, value: &[Option<Vec<u8>>]) -> (r: Result<
        Value,
        Error,
    >)
        requires
            old(self).wf(),
        ensures
            r matches Ok(v) && v is Array,
            val_wf(final(self).heap@, r->Ok_0),
            final(self).heap@.subrange(0, old(self).heap@.len() as int) == old(self).heap@,
            final(self).heap@.len() >= old(self).heap@.len(),
            final(self).heap@.len() == old(self).heap@.len() + count_some(value@) + 1,
            ({
                let items = final(self).heap@[r->Ok_0->Array_0 as int]->Array_items@;
                &&& items.len() == value@.len()
                &&& forall|k: int|
                    0 <= k < items.len() ==> match value@[k] {
                        Some(b) => (#[trigger] items[k]) is String && string_bytes_at(
                            final(self).heap@,
                            items[k],
                        ) == b@,
                        None => items[k] is Nil,
                    }
            }),
            final(self).globals == old(self).globals,
            final(self).classes == old(self).classes,
            final(self).symbols == old(self).symbols,
            final(self).boxed == old(self).boxed,
            final(self).anomalies == old(self).anomalies,
            final(self).wf(),
    {
        let mut items: Vec<Value> = Vec::new();
        let mut j: usize = 0;
        while j < value.len()
            invariant
                old(self).wf(),
                self.wf(),
                0 <= j <= value@.len(),
                self.heap@.subrange(0, old(self).heap@.len() as int) == old(self).heap@,
                self.heap@.len() >= old(self).heap@.len(),
                self.heap@.len() == old(self).heap@.len() + count_some(value@.take(j as int)),
                self.globals == old(self).globals,
                self.classes == old(self).classes,
                self.symbols == old(self).symbols,
                self.boxed == old(self).boxed,
                self.anomalies == old(self).anomalies,
                items@.len() == j,
                forall|k: int|
                    0 <= k < j ==> val_wf(self.heap@, #[trigger] items@[k]) && (match value@[k] {
                        Some(b) => items@[k] is String && string_bytes_at(self.heap@, items@[k])
                            == b@,
                        None => items@[k] is Nil,
                    }),
            decreases value@.len() - j,
        {
            let ghost heap_pre = self.heap@;
            let ghost items_pre = items@;
            let v = match &value[j] {
                Some(bytes) => self.convert_mut_byte_slice(bytes.as_slice()),
                None => Value::Nil,
            };
            items.push(v);
            proof {
                assert(self.heap@.subrange(0, old(self).heap@.len() as int) =~= old(self).heap@);
                if self.heap@.len() > heap_pre.len() {
                    assert(self.heap@.subrange(0, heap_pre.len() as int) =~= heap_pre);
                }
                assert(value@.take(j + 1int).drop_last() =~= value@.take(j as int));
                assert(value@.take(j + 1int).last() == value@[j as int]);
                assert forall|k: int|
                    0 <= k < j + 1 implies val_wf(self.heap@, #[trigger] items@[k]) && (match value@[k] {
                    Some(b) => items@[k] is String && string_bytes_at(self.heap@, items@[k]) == b@,
                    None => items@[k] is Nil,
                }) by {
                    if k < j {
                        assert(items@[k] == items_pre[k]);
                        match value@[k] {
                            Some(b) => {
                                let id = items_pre[k]->String_0 as int;
                                assert(self.heap@[id] == heap_pre[id]);
                            },
                            None => {},
                        }
                    }
                }
            }
            j = j + 1;
        }
        let ghost hb = self.heap@;
        let ghost items_fin = items@;
        proof {
            assert(value@.take(value@.len() as int) =~= value@);
        }
        let v = self.alloc_array(items);
        proof {
            assert(self.heap@.subrange(0, old(self).heap@.len() as int) =~= old(self).heap@);
            assert(self.heap@[v->Array_0 as int]->Array_items@ == items_fin);
            assert forall|k: int|
                0 <= k < self.heap@[v->Array_0 as int]->Array_items@.len() implies (match value@[k] {
                Some(b) => (#[trigger] self.heap@[v->Array_0 as int]->Array_items@[k]) is String
                    && string_bytes_at(
                    self.heap@,
                    self.heap@[v->Array_0 as int]->Array_items@[k],
                ) == b@,
                None => self.heap@[v->Array_0 as int]->Array_items@[k] is Nil,
            }) by {
                let it = items_fin[k];
                assert(val_wf(hb, it));
                match value@[k] {
                    Some(b) => {
                        assert(self.heap@[it->String_0 as int] == hb[it->String_0 as int]);
                    },
                    None => {},
                }
            }
        }
        Ok(v)
    }

    /// Convert an owned host sequence of optional byte buffers to a guest
    /// array of guest strings and nils.
    pub fn try_convert_mut_nilable_bytes_vec(&mut self, value: Vec<Option<Vec<u8>>>) -> (r: Result<
        Value,
        Error,
    >)
        requires
            old(self).wf(),
        ensures
            r matches Ok(v) && v is Array,
            val_wf(final(self).heap@, r->Ok_0),
            final(self).heap@.subrange(0, old(self).heap@.len() as int) == old(self).heap@,
            final(self).heap@.len() >= old(self).heap@.len(),
            final(self).heap@.len() == old(self).heap@.len() + count_some(value@) + 1,
            ({
                let items = final(self).heap@[r->Ok_0->Array_0 as int]->Array_items@;
                &&& items.len() == value@.len()
                &&& forall|k: int|
                    0 <= k < items.len() ==> match value@[k] {
                        Some(b) => (#[trigger] items[k]) is String && string_bytes_at(
                            final(self).heap@,
                            items[k],
                        ) == b@,
                        None => items[k] is Nil,
                    }
            }),
            final(self).globals == old(self).globals,
            final(self).classes == old(self).classes,
            final(self).symbols == old(self).symbols,
            final(self).boxed == old(self).boxed,
            final(self).anomalies == old(self).anomalies,
            final(self).wf(),
    {
        let mut items: Vec<Value> = Vec::new();
        let mut j: usize = 0;
        while j < value.len()
            invariant
                old(self).wf(),
                self.wf(),
                0 <= j <= value@.len(),
                self.heap@.subrange(0, old(self).heap@.len() as int) == old(self).heap@,
                self.heap@.len() >= old(self).heap@.len(),
                self.heap@.len() == old(self).heap@.len() + count_some(value@.take(j as int)),
                self.globals == old(self).globals,
                self.classes == old(self).classes,
                self.symbols == old(self).symbols,
                self.boxed == old(self).boxed,
                self.anomalies == old(self).anomalies,
                items@.len() == j,
                forall|k: int|
                    0 <= k < j ==> val_wf(self.heap@, #[trigger] items@[k]) && (match value@[k] {
                        Some(b) => items@[k] is String && string_bytes_at(self.heap@, items@[k])
                            == b@,
                        None => items@[k] is Nil,
                    }),
            decreases value@.len() - j,
        {
            let ghost heap_pre = self.heap@;
            let ghost items_pre = items@;
            let v = match &value[j] {
                Some(bytes) => self.convert_mut_byte_slice(bytes.as_slice()),
                None => Value::Nil,
            };
            items.push(v);
            proof {
                assert(self.heap@.subrange(0, old(self).heap@.len() as int) =~= old(self).heap@);
                if self.heap@.len() > heap_pre.len() {
                    assert(self.heap@.subrange(0, heap_pre.len() as int) =~= heap_pre);
                }
                assert(value@.take(j + 1int).drop_last() =~= value@.take(j as int));
                assert(value@.take(j + 1int).last() == value@[j as int]);
                assert forall|k: int|
                    0 <= k < j + 1 implies val_wf(self.heap@, #[trigger] items@[k]) && (match value@[k] {
                    Some(b) => items@[k] is String && string_bytes_at(self.heap@, items@[k]) == b@,
                    None => items@[k] is Nil,
                }) by {
                    if k < j {
                        assert(items@[k] == items_pre[k]);
                        match value@[k] {
                            Some(b) => {
                                let id = items_pre[k]->String_0 as int;
                                assert(self.heap@[id] == heap_pre[id]);
                            },
                            None => {},
                        }
                    }
                }
            }
            j = j + 1;
        }
        let ghost hb = self.heap@;
        let ghost items_fin = items@;
        proof {
            assert(value@.take(value@.len() as int) =~= value@);
        }
        let v = self.alloc_array(items);
        proof {
            assert(self.heap@.subrange(0, old(self).heap@.len() as int) =~= old(self).heap@);
            assert(self.heap@[v->Array_0 as int]->Array_items@ == items_fin);
            assert forall|k: int|
                0 <= k < self.heap@[v->Array_0 as int]->Array_items@.len() implies (match value@[k] {
                Some(b) => (#[trigger] self.heap@[v->Array_0 as int]->Array_items@[k]) is String
                    && string_bytes_at(
                    self.heap@,
                    self.heap@[v->Array_0 as int]->Array_items@[k],
                ) == b@,
                None => self.heap@[v->Array_0 as int]->Array_items@[k] is Nil,
            }) by {
                let it = items_fin[k];
                assert(val_wf(hb, it));
                match value@[k] {
                    Some(b) => {
                        assert(self.heap@[it->String_0 as int] == hb[it->String_0 as int]);
                    },
                    None => {},
                }
            }
        }
        Ok(v)
    }

    /// Convert an owned host sequence of sequences of optional byte
    /// buffers to a guest array of guest arrays. Every inner allocation
    /// completes (and is rooted) before the outer allocation references
    /// it, so the outer array never observes an unrooted inner value.
    pub fn try_convert_mut_nested_nilable_bytes_vec(
        &mut self,
        value: Vec<Vec<Option<Vec<u8>>>>,
    ) -> (r: Result<Value, Error>)
        requires
            old(self).wf(),
        ensures
            r matches Ok(v) && v is Array,
            val_wf(final(self).heap@, r->Ok_0),
            final(self).heap@.subrange(0, old(self).heap@.len() as int) == old(self).heap@,
            final(self).heap@.len() >= old(self).heap@.len(),
            final(self).heap@.len() == old(self).heap@.len() + nested_slot_count(value@) + 1,
            ({
                let outer = final(self).heap@[r->Ok_0->Array_0 as int]->Array_items@;
                &&& outer.len() == value@.len()
                &&& forall|k: int|
                    0 <= k < outer.len() ==> {
                        &&& (#[trigger] outer[k]) is Array
                        &&& {
                            let inner = final(self).heap@[outer[k]->Array_0 as int]->Array_items@;
                            &&& inner.len() == value@[k]@.len()
                            &&& forall|t: int|
                                0 <= t < inner.len() ==> match value@[k]@[t] {
                                    Some(b) => (#[trigger] inner[t]) is String && string_bytes_at(
                                        final(self).heap@,
                                        inner[t],
                                    ) == b@,
                                    None => inner[t] is Nil,
                                }
                        }
                    }
            }),
            final(self).globals == old(self).globals,
            final(self).classes == old(self).classes,
            final(self).symbols == old(self).symbols,
            final(self).boxed == old(self).boxed,
            final(self).anomalies == old(self).anomalies,
            final(self).wf(),
    {
        let mut items: Vec<Value> = Vec::new();
        let mut j: usize = 0;
        while j < value.len()
            invariant
                old(self).wf(),
                self.wf(),
                0 <= j <= value@.len(),
                self.heap@.subrange(0, old(self).heap@.len() as int) == old(self).heap@,
                self.heap@.len() >= old(self).heap@.len(),
                self.heap@.len() == old(self).heap@.len() + nested_slot_count(
                    value@.take(j as int),
                ),
                self.globals == old(self).globals,
                self.classes == old(self).classes,
                self.symbols == old(self).symbols,
                self.boxed == old(self).boxed,
                self.anomalies == old(self).anomalies,
                items@.len() == j,
                forall|k: int|
                    0 <= k < j ==> {
                        &&& (#[trigger] items@[k]) is Array
                        &&& val_wf(self.heap@, items@[k])
                        &&& {
                            let inner = self.heap@[items@[k]->Array_0 as int]->Array_items@;
                            &&& inner.len() == value@[k]@.len()
                            &&& forall|t: int|
                                0 <= t < inner.len() ==> val_wf(self.heap@, #[trigger] inner[t])
                                    && (match value@[k]@[t] {
                                    Some(b) => inner[t] is String && string_bytes_at(
                                        self.heap@,
                                        inner[t],
                                    ) == b@,
                                    None => inner[t] is Nil,
                                })
                        }
                    },
            decreases value@.len() - j,
        {
            let ghost heap_pre = self.heap@;
            let ghost items_pre = items@;
            let mut element: Vec<Option<Vec<u8>>> = Vec::new();
            let mut t: usize = 0;
            while t < value[j].len()
                invariant
                    0 <= j < value@.len(),
                    0 <= t <= value@[j as int]@.len(),
                    element@.len() == t,
                    forall|u: int|
                        0 <= u < t ==> (match value@[j as int]@[u] {
                            Some(b) => (#[trigger] element@[u]) matches Some(c) && c@ == b@,
                            None => element@[u] is None,
                        }),
                decreases value@[j as int]@.len() - t,
            {
                match &value[j][t] {
                    Some(b) => element.push(Some(slice_to_vec(b.as_slice()))),
                    None => element.push(None),
                }
                t = t + 1;
            }
            let ghost elem_view = element@;
            let v = match self.try_convert_mut_nilable_bytes_vec(element) {
                Ok(v) => v,
                Err(e) => {
                    proof {
                        assert(false);
                    }
                    return Err(e);
                },
            };
            proof {
                assert forall|u: int| 0 <= u < elem_view.len() implies ((
                #[trigger] elem_view[u]) is Some <==> value@[j as int]@[u] is Some) by {}
                lemma_count_some_congruent(elem_view, value@[j as int]@);
            }
            items.push(v);
            proof {
                assert(self.heap@.subrange(0, old(self).heap@.len() as int) =~= old(self).heap@);
                assert(self.heap@.subrange(0, heap_pre.len() as int) =~= heap_pre);
                assert(value@.take(j + 1int).drop_last() =~= value@.take(j as int));
                assert(value@.take(j + 1int).last() == value@[j as int]);
                assert forall|k: int|
                    0 <= k < j + 1 implies {
                    &&& (#[trigger] items@[k]) is Array
                    &&& val_wf(self.heap@, items@[k])
                    &&& {
                        let inner = self.heap@[items@[k]->Array_0 as int]->Array_items@;
                        &&& inner.len() == value@[k]@.len()
                        &&& forall|t: int|
                            0 <= t < inner.len() ==> val_wf(self.heap@, #[trigger] inner[t]) && (
                            match value@[k]@[t] {
                                Some(b) => inner[t] is String && string_bytes_at(
                                    self.heap@,
                                    inner[t],
                                ) == b@,
                                None => inner[t] is Nil,
                            })
                    }
                } by {
                    if k == j {
                        let aid = items@[k]->Array_0 as int;
                        assert(crate::interp::slot_wf(
                            self.heap@,
                            self.boxed@,
                            self.classes@.len() as int,
                            aid,
                        ));
                    }
                    if k < j {
                        assert(items@[k] == items_pre[k]);
                        let aid = items_pre[k]->Array_0 as int;
                        assert(self.heap@[aid] == heap_pre[aid]);
                        let inner = self.heap@[aid]->Array_items@;
                        assert(inner == heap_pre[aid]->Array_items@);
                        assert forall|t: int|
                            0 <= t < inner.len() implies val_wf(self.heap@, #[trigger] inner[t])
                            && (match value@[k]@[t] {
                            Some(b) => inner[t] is String && string_bytes_at(self.heap@, inner[t])
                                == b@,
                            None => inner[t] is Nil,
                        }) by {
                            assert(val_wf(heap_pre, inner[t]));
                            match inner[t].heap_id() {
                                Some(id) => {
                                    assert(self.heap@[id] == heap_pre[id]);
                                },
                                None => {},
                            }
                        }
                    }
                }
            }
            j = j + 1;
        }
        let ghost hb = self.heap@;
        let ghost items_fin = items@;
        proof {
            assert(value@.take(value@.len() as int) =~= value@);
        }
        let v = self.alloc_array(items);
        proof {
            assert(self.heap@.subrange(0, old(self).heap@.len() as int) =~= old(self).heap@);
            assert(self.heap@[v->Array_0 as int]->Array_items@ == items_fin);
            assert forall|k: int|
                0 <= k < items_fin.len() implies {
                &&& (#[trigger] items_fin[k]) is Array
                &&& {
                    let inner = self.heap@[items_fin[k]->Array_0 as int]->Array_items@;
                    &&& inner.len() == value@[k]@.len()
                    &&& forall|t: int|
                        0 <= t < inner.len() ==> match value@[k]@[t] {
                            Some(b) => (#[trigger] inner[t]) is String && string_bytes_at(
                                self.heap@,
                                inner[t],
                            ) == b@,
                            None => inner[t] is Nil,
                        }
                }
            } by {
                let aid = items_fin[k]->Array_0 as int;
                assert(val_wf(hb, items_fin[k]));
                assert(self.heap@[aid] == hb[aid]);
                let inner = self.heap@[aid]->Array_items@;
                assert forall|t: int|
                    0 <= t < inner.len() implies match value@[k]@[t] {
                    Some(b) => (#[trigger] inner[t]) is String && string_bytes_at(
                        self.heap@,
                        inner[t],
                    ) == b@,
                    None => inner[t] is Nil,
                } by {
                    assert(val_wf(hb, inner[t]));
                    match inner[t].heap_id() {
                        Some(id) => {
                            assert(self.heap@[id] == hb[id]);
                        },
                        None => {},
                    }
                }
            }
        }
        Ok(v)
    }

    /// Convert an owned host sequence of guest values to one guest array
    /// holding them.
    pub fn try_convert_mut_value_vec(&mut self, value: Vec<Value>) -> (r: Result<Value, Error>)
        requires
            old(self).wf(),
            forall|k: int| 0 <= k < value@.len() ==> val_wf(old(self).heap@, #[trigger] value@[k]),
        ensures
            r matches Ok(v) && v == Value::Array(old(self).heap.len()),
            final(self).heap@ == old(self).heap@.push(HeapSlot::Array { items: value }),
            final(self).arena@ == old(self).arena@.push(r->Ok_0),
            final(self).globals == old(self).globals,
            final(self).classes == old(self).classes,
            final(self).symbols == old(self).symbols,
            final(self).boxed == old(self).boxed,
            final(self).anomalies == old(self).anomalies,
            final(self).wf(),
    {
        let v = self.alloc_array(value);
        Ok(v)
    }

    /// Read a guest array back as a host sequence of its values: succeeds
    /// exactly on guest arrays.
    pub fn try_convert_mut_to_value_vec(&mut self, value: Value) -> (r: Result<Vec<Value>, Error>)
        requires
            old(self).wf(),
            val_wf(old(self).heap@, value),
        ensures
            *final(self) == *old(self),
            value is Array ==> (r matches Ok(vs) && vs@ == old(self).heap@[value->Array_0 as int]->Array_items@),
            !(value is Array) ==> r == Err::<Vec<Value>, Error>(
                Error::Unbox(UnboxRubyError { from: value.ruby_type_spec(), into: Rust::Vec }),
            ),
    {
        match value {
            Value::Array(_) => {
                let items = self.array_items(&value);
                Ok(slice_to_vec(items.as_slice()))
            },
            _ => Err(Error::Unbox(UnboxRubyError::new(&value, Rust::Vec))),
        }
    }

    /// Read a guest array back as a host integer sequence: fails unless
    /// the value is a guest array, and on the first element that is not a
    /// guest integer, aborting the remaining traversal.
    pub fn try_convert_mut_to_int_vec(&mut self, value: Value) -> (r: Result<Vec<i64>, Error>)
        requires
            old(self).wf(),
            val_wf(old(self).heap@, value),
        ensures
            *final(self) == *old(self),
            !(value is Array) ==> r == Err::<Vec<i64>, Error>(
                Error::Unbox(UnboxRubyError { from: value.ruby_type_spec(), into: Rust::Vec }),
            ),
            value is Array ==> {
                let items = old(self).heap@[value->Array_0 as int]->Array_items@;
                &&& (r is Ok <==> forall|k: int| 0 <= k < items.len() ==> (#[trigger] items[k]) is Fixnum)
                &&& r matches Ok(xs) ==> int_values(xs@) == items
                &&& r matches Err(e) ==> exists|k: int|
                    0 <= k < items.len() && !((#[trigger] items[k]) is Fixnum) && (forall|k2: int|
                        0 <= k2 < k ==> (#[trigger] items[k2]) is Fixnum) && e == Error::Unbox(
                        UnboxRubyError { from: items[k].ruby_type_spec(), into: Rust::SignedInt },
                    )
            },
    {
        match value {
            Value::Array(_) => {
                let ghost items_g = self.heap@[value->Array_0 as int]->Array_items@;
                let items = self.array_items(&value);
                let mut xs: Vec<i64> = Vec::new();
                let mut j: usize = 0;
                while j < items.len()
                    invariant
                        self == old(self),
                        self.wf(),
                        value is Array,
                        val_wf(self.heap@, value),
                        items_g == self.heap@[value->Array_0 as int]->Array_items@,
                        0 <= j <= items@.len(),
                        items@ == items_g,
                        int_values(xs@) == items_g.take(j as int),
                        xs@.len() == j,
                        forall|k2: int| 0 <= k2 < j ==> (#[trigger] items_g[k2]) is Fixnum,
                    decreases items@.len() - j,
                {
                    match items[j] {
                        Value::Fixnum(i) => {
                            xs.push(i);
                            proof {
                                assert(int_values(xs@) =~= items_g.take(j + 1int));
                            }
                        },
                        _ => {
                            return Err(Error::Unbox(UnboxRubyError::new(&items[j], Rust::SignedInt)));
                        },
                    }
                    j = j + 1;
                }
                proof {
                    assert(items_g.take(items_g.len() as int) =~= items_g);
                }
                Ok(xs)
            },
            _ => Err(Error::Unbox(UnboxRubyError::new(&value, Rust::Vec))),
        }
    }

    /// Read a guest array back as a host sequence of byte buffers: fails
    /// unless the value is a guest array, and on the first element that is
    /// not a guest string, aborting the remaining traversal.
    pub fn try_convert_mut_to_bytes_vec(&mut self, value: Value) -> (r: Result<Vec<Vec<u8>>, Error>)
        requires
            old(self).wf(),
            val_wf(old(self).heap@, value),
        ensures
            *final(self) == *old(self),
            !(value is Array) ==> r == Err::<Vec<Vec<u8>>, Error>(
                Error::Unbox(UnboxRubyError { from: value.ruby_type_spec(), into: Rust::Vec }),
            ),
            value is Array ==> {
                let items = old(self).heap@[value->Array_0 as int]->Array_items@;
                &&& (r is Ok <==> forall|k: int| 0 <= k < items.len() ==> (#[trigger] items[k]) is String)
                &&& r matches Ok(xs) ==> xs@.len() == items.len() && forall|k: int|
                    0 <= k < items.len() ==> (#[trigger] xs@[k])@ == string_bytes_at(
                        old(self).heap@,
                        items[k],
                    )
                &&& r matches Err(e) ==> exists|k: int|
                    0 <= k < items.len() && !((#[trigger] items[k]) is String) && (forall|k2: int|
                        0 <= k2 < k ==> (#[trigger] items[k2]) is String) && e == Error::Unbox(
                        UnboxRubyError { from: items[k].ruby_type_spec(), into: Rust::Bytes },
                    )
            },
    {
        match value {
            Value::Array(_) => {
                let ghost items_g = self.heap@[value->Array_0 as int]->Array_items@;
                let n = self.array_len(&value);
                let mut xs: Vec<Vec<u8>> = Vec::new();
                let mut j: usize = 0;
                while j < n
                    invariant
                        self.wf(),
                        self == old(self),
                        value is Array,
                        val_wf(self.heap@, value),
                        n == items_g.len(),
                        items_g == self.heap@[value->Array_0 as int]->Array_items@,
                        0 <= j <= n,
                        xs@.len() == j,
                        forall|k2: int| 0 <= k2 < j ==> (#[trigger] items_g[k2]) is String,
                        forall|k: int|
                            0 <= k < j ==> (#[trigger] xs@[k])@ == string_bytes_at(
                                self.heap@,
                                items_g[k],
                            ),
                    decreases n - j,
                {
                    let item = self.array_items(&value)[j];
                    proof {
                        assert(items_g[j as int] == item);
                        assert(val_wf(self.heap@, items_g[j as int]));
                    }
                    match item {
                        Value::String(_) => {
                            let bytes = self.string_bytes(&item);
                            xs.push(slice_to_vec(bytes.as_slice()));
                        },
                        _ => {
                            return Err(Error::Unbox(UnboxRubyError::new(&item, Rust::Bytes)));
                        },
                    }
                    j = j + 1;
                }
                Ok(xs)
            },
            _ => Err(Error::Unbox(UnboxRubyError::new(&value, Rust::Vec))),
        }
    }

    /// Read a guest array back as a host sequence of UTF-8 strings: fails
    /// unless the value is a guest array, and on the first element that is
    /// not a guest string of valid UTF-8, aborting the remaining
    /// traversal.
    pub fn try_convert_mut_to_string_vec(&mut self, value: Value) -> (r: Result<Vec<String>, Error>)
        requires
            old(self).wf(),
            val_wf(old(self).heap@, value),
        ensures
            *final(self) == *old(self),
            !(value is Array) ==> r == Err::<Vec<String>, Error>(
                Error::Unbox(UnboxRubyError { from: value.ruby_type_spec(), into: Rust::Vec }),
            ),
            value is Array ==> {
                let items = old(self).heap@[value->Array_0 as int]->Array_items@;
                &&& (r is Ok <==> forall|k: int|
                    0 <= k < items.len() ==> (#[trigger] items[k]) is String
                        && vstd::utf8::valid_utf8(string_bytes_at(old(self).heap@, items[k])))
                &&& r matches Ok(xs) ==> xs@.len() == items.len() && forall|k: int|
                    0 <= k < items.len() ==> vstd::utf8::encode_utf8((#[trigger] xs@[k])@)
                        == string_bytes_at(old(self).heap@, items[k])
                &&& r matches Err(e) ==> exists|k: int|
                    0 <= k < items.len() && !((#[trigger] items[k]) is String
                        && vstd::utf8::valid_utf8(string_bytes_at(old(self).heap@, items[k]))) && (
                    forall|k2: int|
                        0 <= k2 < k ==> (#[trigger] items[k2]) is String && vstd::utf8::valid_utf8(
                            string_bytes_at(old(self).heap@, items[k2]),
                        )) && e == Error::Unbox(
                        UnboxRubyError { from: items[k].ruby_type_spec(), into: Rust::String },
                    )
            },
    {
        match value {
            Value::Array(_) => {
                let ghost items_g = self.heap@[value->Array_0 as int]->Array_items@;
                let n = self.array_len(&value);
                let mut xs: Vec<String> = Vec::new();
                let mut j: usize = 0;
                while j < n
                    invariant
                        self.wf(),
                        *self == *old(self),
                        value is Array,
                        val_wf(self.heap@, value),
                        n == items_g.len(),
                        items_g == self.heap@[value->Array_0 as int]->Array_items@,
                        0 <= j <= n,
                        xs@.len() == j,
                        forall|k2: int|
                            0 <= k2 < j ==> (#[trigger] items_g[k2]) is String
                                && vstd::utf8::valid_utf8(
                                string_bytes_at(self.heap@, items_g[k2]),
                            ),
                        forall|k: int|
                            0 <= k < j ==> vstd::utf8::encode_utf8((#[trigger] xs@[k])@)
                                == string_bytes_at(self.heap@, items_g[k]),
                    decreases n - j,
                {
                    let item = self.array_items(&value)[j];
                    proof {
                        assert(items_g[j as int] == item);
                        assert(val_wf(self.heap@, items_g[j as int]));
                    }
                    match self.try_convert_mut_string(item) {
                        Ok(s) => {
                            xs.push(s);
                        },
                        Err(_) => {
                            return Err(Error::Unbox(UnboxRubyError::new(&item, Rust::String)));
                        },
                    }
                    j = j + 1;
                }
                Ok(xs)
            },
            _ => Err(Error::Unbox(UnboxRubyError::new(&value, Rust::Vec))),
        }
    }

    /// Read a guest array back as a host sequence of optional byte
    /// buffers: nil elements become `None`, guest strings become `Some`,
    /// and the first element of any other tag fails the conversion.
    pub fn try_convert_mut_to_nilable_bytes_vec(&mut self, value: Value) -> (r: Result<
        Vec<Option<Vec<u8>>>,
        Error,
    >)
        requires
            old(self).wf(),
            val_wf(old(self).heap@, value),
        ensures
            *final(self) == *old(self),
            !(value is Array) ==> r == Err::<Vec<Option<Vec<u8>>>, Error>(
                Error::Unbox(UnboxRubyError { from: value.ruby_type_spec(), into: Rust::Vec }),
            ),
            value is Array ==> {
                let items = old(self).heap@[value->Array_0 as int]->Array_items@;
                &&& (r is Ok <==> forall|k: int|
                    0 <= k < items.len() ==> (#[trigger] items[k]) is String || items[k] is Nil)
                &&& r matches Ok(xs) ==> xs@.len() == items.len() && forall|k: int|
                    0 <= k < items.len() ==> (match #[trigger] xs@[k] {
                        Some(b) => items[k] is String && b@ == string_bytes_at(
                            old(self).heap@,
                            items[k],
                        ),
                        None => items[k] is Nil,
                    })
                &&& r matches Err(e) ==> exists|k: int|
                    0 <= k < items.len() && !((#[trigger] items[k]) is String) && !(items[k] is Nil)
                        && (forall|k2: int|
                        0 <= k2 < k ==> (#[trigger] items[k2]) is String || items[k2] is Nil) && e
                        == Error::Unbox(
                        UnboxRubyError { from: items[k].ruby_type_spec(), into: Rust::Bytes },
                    )
            },
    {
        match value {
            Value::Array(_) => {
                let ghost items_g = self.heap@[value->Array_0 as int]->Array_items@;
                let n = self.array_len(&value);
                let mut xs: Vec<Option<Vec<u8>>> = Vec::new();
                let mut j: usize = 0;
                while j < n
                    invariant
                        self.wf(),
                        self == old(self),
                        value is Array,
                        val_wf(self.heap@, value),
                        n == items_g.len(),
                        items_g == self.heap@[value->Array_0 as int]->Array_items@,
                        0 <= j <= n,
                        xs@.len() == j,
                        forall|k2: int|
                            0 <= k2 < j ==> (#[trigger] items_g[k2]) is String || items_g[k2] is Nil,
                        forall|k: int|
                            0 <= k < j ==> (match #[trigger] xs@[k] {
                                Some(b) => items_g[k] is String && b@ == string_bytes_at(
                                    self.heap@,
                                    items_g[k],
                                ),
                                None => items_g[k] is Nil,
                            }),
                    decreases n - j,
                {
                    let item = self.array_items(&value)[j];
                    proof {
                        assert(items_g[j as int] == item);
                        assert(val_wf(self.heap@, items_g[j as int]));
                    }
                    match item {
                        Value::String(_) => {
                            let bytes = self.string_bytes(&item);
                            xs.push(Some(slice_to_vec(bytes.as_slice())));
                        },
                        Value::Nil => {
                            xs.push(None);
                        },
                        _ => {
                            return Err(Error::Unbox(UnboxRubyError::new(&item, Rust::Bytes)));
                        },
                    }
                    j = j + 1;
                }
                Ok(xs)
            },
            _ => Err(Error::Unbox(UnboxRubyError::new(&value, Rust::Vec))),
        }
    }
}

} // verus!

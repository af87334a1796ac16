//! Guest dynamic values.
//!
//! A [`Value`] is the handle the host holds on a guest datum: either an
//! inline scalar (nil, boolean, integer, interned symbol) or a reference
//! into the guest heap (byte string, array, plain object, boxed host data).
//! A heap-backed value is only meaningful together with the interpreter that
//! owns the heap; the interpreter's well-formedness invariant says which
//! handles are valid.

use vstd::prelude::*;
use vstd::slice::slice_to_vec;
use vstd::string::StrSliceExecFns;
use vstd::utf8::encode_utf8;

use crate::interp::{val_wf, HeapSlot, Interp};
use crate::string::{escape_bytes, escape_bytes_vec, format_int, int_to_dec};
use crate::types::Ruby;

verus! {

/// How a guest value renders as a string: nil renders empty, booleans and
/// integers render their usual spelling, a guest string renders its raw
/// bytes, and heap objects render as their class name in angle form.
pub open spec fn to_s_spec(heap: Seq<HeapSlot>, classes_names: Seq<Seq<u8>>, v: Value) -> Seq<u8> {
    match v {
        Value::Nil => Seq::empty(),
        Value::Bool(b) => if b {
            encode_utf8("true"@)
        } else {
            encode_utf8("false"@)
        },
        Value::Fixnum(i) => encode_utf8(int_to_dec(i as int)),
        Value::String(id) => heap[id as int]->String_bytes@,
        Value::Array(_) => encode_utf8("#<Array>"@),
        Value::Object(id) => encode_utf8("#<"@) + heap[id as int]->Object_class_name@ + encode_utf8(
            ">"@,
        ),
        Value::Data(id) => encode_utf8("#<"@) + classes_names[heap[id as int]->Data_class as int]
            + encode_utf8(">"@),
    }
}

/// How a guest value renders for debugging: like `to_s_spec`, except that
/// nil spells itself out and a guest string renders quoted with its bytes
/// escaped.
pub open spec fn inspect_spec(heap: Seq<HeapSlot>, classes_names: Seq<Seq<u8>>, v: Value) -> Seq<
    u8,
> {
    match v {
        Value::Nil => encode_utf8("nil"@),
        Value::String(id) => seq![34u8] + escape_bytes(heap[id as int]->String_bytes@) + seq![34u8],
        _ => to_s_spec(heap, classes_names, v),
    }
}

/// The names of the class-table entries, in order.
pub open spec fn class_names(classes: Seq<crate::interp::ClassEntry>) -> Seq<Seq<u8>> {
    classes.map_values(|c: crate::interp::ClassEntry| c.name@)
}

/// A tagged handle on a guest value.
#[derive(Clone, Copy, Debug, PartialEq, Eq, Structural)]
pub enum Value {
    /// The guest nil singleton.
    Nil,
    /// A guest boolean.
    Bool(bool),
    /// A guest machine integer, stored inline.
    Fixnum(i64),
    /// A guest byte string, by guest heap slot.
    String(usize),
    /// A guest array, by guest heap slot.
    Array(usize),
    /// A plain guest object, by guest heap slot.
    Object(usize),
    /// A guest object boxing host-owned heap data, by guest heap slot.
    Data(usize),
}

impl Value {
    /// The type tag this value reports.
    pub fn ruby_type(&self) -> (r: Ruby)
        ensures
            r == self.ruby_type_spec(),
    {
        match self {
            Value::Nil => Ruby::Nil,
            Value::Bool(_) => Ruby::Bool,
            Value::Fixnum(_) => Ruby::Fixnum,
            Value::String(_) => Ruby::String,
            Value::Array(_) => Ruby::Array,
            Value::Object(_) => Ruby::Object,
            Value::Data(_) => Ruby::Data,
        }
    }

    /// The tag of each variant.
    pub open spec fn ruby_type_spec(self) -> Ruby {
        match self {
            Value::Nil => Ruby::Nil,
            Value::Bool(_) => Ruby::Bool,
            Value::Fixnum(_) => Ruby::Fixnum,
            Value::String(_) => Ruby::String,
            Value::Array(_) => Ruby::Array,
            Value::Object(_) => Ruby::Object,
            Value::Data(_) => Ruby::Data,
        }
    }

    /// The heap slot this value points into, if it is heap-backed.
    pub open spec fn heap_id(self) -> Option<int> {
        match self {
            Value::String(id) => Some(id as int),
            Value::Array(id) => Some(id as int),
            Value::Object(id) => Some(id as int),
            Value::Data(id) => Some(id as int),
            _ => None,
        }
    }

    /// Whether this value is an inline scalar rather than a heap reference.
    pub open spec fn is_scalar(self) -> bool {
        self.heap_id() is None
    }

    /// Render this value as a guest string's bytes: nil renders empty,
    /// booleans and integers render their usual spelling, a guest string
    /// hands out its raw bytes, and heap objects render as their class
    /// name in angle form.
    pub fn to_s(&self, interp: &Interp) -> (r: Vec<u8>)
        requires
            interp.wf(),
            val_wf(interp.heap@, *self),
        ensures
            r@ == to_s_spec(interp.heap@, class_names(interp.classes@), *self),
    {
        match self {
            Value::Nil => Vec::new(),
            Value::Bool(b) => {
                if *b {
                    slice_to_vec("true".as_bytes())
                } else {
                    slice_to_vec("false".as_bytes())
                }
            },
            Value::Fixnum(i) => {
                let s = format_int(*i);
                s.as_str().as_bytes_vec()
            },
            Value::String(_) => slice_to_vec(interp.string_bytes(self).as_slice()),
            Value::Array(_) => slice_to_vec("#<Array>".as_bytes()),
            Value::Object(id) => {
                proof {
                    assert(crate::interp::slot_wf(
                        interp.heap@,
                        interp.boxed@,
                        interp.classes@.len() as int,
                        *id as int,
                    ));
                }
                let class_name: &Vec<u8> = match &interp.heap[*id] {
                    HeapSlot::Object { class_name, .. } => class_name,
                    _ => vstd::pervasive::unreached(),
                };
                let mut r = slice_to_vec("#<".as_bytes());
                r.extend_from_slice(class_name.as_slice());
                r.extend_from_slice(">".as_bytes());
                proof {
                    assert(r@ =~= to_s_spec(interp.heap@, class_names(interp.classes@), *self));
                }
                r
            },
            Value::Data(id) => {
                proof {
                    assert(crate::interp::slot_wf(
                        interp.heap@,
                        interp.boxed@,
                        interp.classes@.len() as int,
                        *id as int,
                    ));
                }
                let class: usize = match &interp.heap[*id] {
                    HeapSlot::Data { class, .. } => *class,
                    _ => vstd::pervasive::unreached(),
                };
                let mut r = slice_to_vec("#<".as_bytes());
                r.extend_from_slice(interp.classes[class].name.as_slice());
                r.extend_from_slice(">".as_bytes());
                proof {
                    assert(class_names(interp.classes@)[class as int] == interp.classes@[class as int].name@);
                    assert(r@ =~= to_s_spec(interp.heap@, class_names(interp.classes@), *self));
                }
                r
            },
        }
    }

    /// Render this value for debugging: like [`Value::to_s`], except that
    /// nil spells itself out and a guest string renders quoted with its
    /// bytes escaped.
    pub fn inspect(&self, interp: &Interp) -> (r: Vec<u8>)
        requires
            interp.wf(),
            val_wf(interp.heap@, *self),
        ensures
            r@ == inspect_spec(interp.heap@, class_names(interp.classes@), *self),
    {
        match self {
            Value::Nil => slice_to_vec("nil".as_bytes()),
            Value::String(_) => {
                let mut r: Vec<u8> = Vec::new();
                r.push(34);
                let escaped = escape_bytes_vec(interp.string_bytes(self).as_slice());
                r.extend_from_slice(escaped.as_slice());
                r.push(34);
                proof {
                    assert(r@ =~= inspect_spec(interp.heap@, class_names(interp.classes@), *self));
                }
                r
            },
            _ => self.to_s(interp),
        }
    }

    /// The heap slot this value points into, if it is heap-backed.
    pub fn heap_index(&self) -> (r: Option<usize>)
        ensures
            match self.heap_id() {
                Some(id) => r == Some(id as usize),
                None => r is None,
            },
    {
        match self {
            Value::String(id) => Some(*id),
            Value::Array(id) => Some(*id),
            Value::Object(id) => Some(*id),
            Value::Data(id) => Some(*id),
            _ => None,
        }
    }
}

} // verus!

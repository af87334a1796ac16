//! The modeled guest interpreter state.
//!
//! [`Interp`] holds everything of the guest the bridge can observe: the
//! value heap, the root-protection arena, global constants, the class
//! table, interned symbols and the table of boxed host payloads. A single
//! mutable handle is threaded through every bridge operation, so no two
//! live mutable views of this state can exist at once.
//!
//! The well-formedness invariant [`Interp::wf`] ties the pieces together:
//! every stored value handle points at a live heap slot of the matching
//! kind, heap references only point at older slots (the heap grows by
//! appending, so no reference cycles can form), every live boxed object
//! owns a distinct, unfinalized host payload, and every class table entry's
//! parent precedes it.

use vstd::prelude::*;
use vstd::pervasive::unreached;
use vstd::slice::slice_to_vec;
use vstd::string::*;

use crate::def::ConstantNameError;
use crate::error::Error;
use crate::string::{bytes_equal, contains_nul};
use crate::value::Value;

verus! {

/// The value of the first global constant named `name`, if one is defined.
pub open spec fn global_lookup(globals: Seq<Global>, name: Seq<u8>) -> Option<Value>
    decreases globals.len(),
{
    if globals.len() == 0 {
        None
    } else if globals[0].name@ == name {
        Some(globals[0].value)
    } else {
        global_lookup(globals.skip(1), name)
    }
}

/// Whether the class table holds a top-level class (not module, no parent)
/// named `name`.
pub open spec fn top_level_class_exists(classes: Seq<ClassEntry>, name: Seq<u8>) -> bool {
    exists|c: int|
        0 <= c < classes.len() && (#[trigger] classes[c].name)@ == name && classes[c].parent is None
            && !classes[c].is_module
}

/// One slot of the guest heap.
#[derive(Debug)]
pub enum HeapSlot {
    /// A reclaimed slot; the collector freed its former occupant.
    Free,
    /// A guest byte string.
    String {
        /// The string's bytes.
        bytes: Vec<u8>,
        /// Whether the string has been frozen.
        frozen: bool,
    },
    /// A guest array.
    Array {
        /// The elements, in order.
        items: Vec<Value>,
    },
    /// A plain guest object.
    Object {
        /// Name of the object's class.
        class_name: Vec<u8>,
        /// The values the object was constructed with.
        args: Vec<Value>,
    },
    /// A guest object boxing host-owned heap data.
    Data {
        /// Handle of the guest class this boxed type registered.
        class: usize,
        /// Index of the host payload in the boxed-payload table.
        payload: usize,
    },
}

/// A host heap allocation whose ownership was transferred into a guest
/// object. Once the collector reclaims the envelope, the payload is
/// finalized, exactly once; it is never touched again afterwards.
#[derive(Debug)]
pub struct BoxedPayload {
    /// The host data, as the bytes of its heap representation.
    pub data: Vec<u8>,
    /// Whether the finalizer has already reclaimed this payload.
    pub finalized: bool,
}

/// One entry of the guest class table: a class or module defined under an
/// optional parent entry.
#[derive(Debug)]
pub struct ClassEntry {
    /// The entry's own (unqualified) name.
    pub name: Vec<u8>,
    /// Handle of the parent entry, for a class or module defined under an
    /// enclosing scope.
    pub parent: Option<usize>,
    /// Whether the entry is a module rather than a class.
    pub is_module: bool,
}

/// A named global constant of the guest.
#[derive(Debug)]
pub struct Global {
    /// The constant's name.
    pub name: Vec<u8>,
    /// The constant's value.
    pub value: Value,
}

/// A position marker into the guest's root-protection arena, created on
/// entry to a host-driven call region and consumed on exit.
///
/// Checkpoints nest strictly: restoring one unconditionally unprotects
/// every value rooted after it was created, so host code must not retain a
/// guest value past the restoration of the checkpoint it was created in.
#[derive(Debug, Clone, Copy, PartialEq, Eq, Structural)]
pub struct ArenaSavepoint {
    /// The arena length recorded when the checkpoint was created.
    pub index: usize,
}

/// Whether a value handle is valid against a heap: a scalar, or a
/// reference to a live slot of the kind its tag claims.
pub open spec fn val_wf(heap: Seq<HeapSlot>, v: Value) -> bool {
    match v {
        Value::String(id) => id < heap.len() && heap[id as int] is String,
        Value::Array(id) => id < heap.len() && heap[id as int] is Array,
        Value::Object(id) => id < heap.len() && heap[id as int] is Object,
        Value::Data(id) => id < heap.len() && heap[id as int] is Data,
        _ => true,
    }
}

/// Whether a value only references heap slots strictly below `bound`.
/// The heap grows by appending, so every stored reference satisfies this
/// with `bound` the referencing slot's own index; no cycle can form.
pub open spec fn refs_below(v: Value, bound: int) -> bool {
    match v.heap_id() {
        Some(id) => id < bound,
        None => true,
    }
}

/// Whether heap slot `i` is internally consistent: its outgoing references
/// are valid, point only at older slots, and (for a boxed object) its
/// payload is a live entry of the boxed-payload table and its class a
/// valid class handle.
pub open spec fn slot_wf(
    heap: Seq<HeapSlot>,
    boxed: Seq<BoxedPayload>,
    classes_len: int,
    i: int,
) -> bool {
    match heap[i] {
        HeapSlot::Array { items } => forall|j: int|
            0 <= j < items@.len() ==> val_wf(heap, #[trigger] items@[j]) && refs_below(
                items@[j],
                i,
            ),
        HeapSlot::Object { class_name, args } => forall|j: int|
            0 <= j < args@.len() ==> val_wf(heap, #[trigger] args@[j]) && refs_below(args@[j], i),
        HeapSlot::Data { class, payload } => payload < boxed.len() && !boxed[payload as int].finalized
            && class < classes_len,
        _ => true,
    }
}

/// Whether distinct live boxed objects own distinct host payloads. The
/// finalizer reclaims a payload exactly once, which is only sound if no
/// two envelopes share one.
pub open spec fn payloads_injective(heap: Seq<HeapSlot>) -> bool {
    forall|i: int, j: int|
        0 <= i < heap.len() && 0 <= j < heap.len() && i != j && #[trigger] heap[i] is Data
            && #[trigger] heap[j] is Data ==> heap[i]->Data_payload != heap[j]->Data_payload
}

/// The modeled guest interpreter.
#[derive(Debug)]
pub struct Interp {
    /// The guest value heap; slots are appended and reclaimed in place.
    pub heap: Vec<HeapSlot>,
    /// The root-protection arena: every value here is a GC root.
    pub arena: Vec<Value>,
    /// Global constants, each a GC root.
    pub globals: Vec<Global>,
    /// The guest class table.
    pub classes: Vec<ClassEntry>,
    /// Interned symbols.
    pub symbols: Vec<Vec<u8>>,
    /// Host payloads transferred into boxed guest objects.
    pub boxed: Vec<BoxedPayload>,
    /// How many tolerated finalizer anomalies (a null payload handed to a
    /// finalizer) have been logged.
    pub anomalies: u64,
}

impl Interp {
    /// The interpreter's well-formedness invariant.
    pub open spec fn wf(self) -> bool {
        &&& forall|i: int|
            0 <= i < self.heap@.len() ==> slot_wf(
                self.heap@,
                self.boxed@,
                self.classes@.len() as int,
                i,
            )
        &&& forall|k: int| 0 <= k < self.arena@.len() ==> val_wf(self.heap@, #[trigger] self.arena@[k])
        &&& forall|k: int|
            0 <= k < self.globals@.len() ==> val_wf(self.heap@, #[trigger] self.globals@[k].value)
        &&& payloads_injective(self.heap@)
        &&& forall|c: int|
            0 <= c < self.classes@.len() ==> match #[trigger] self.classes@[c].parent {
                Some(p) => p < c,
                None => true,
            }
    }

    /// Construct a fresh interpreter with empty heap, arena and tables.
    pub fn new() -> (r: Interp)
        ensures
            r.wf(),
            r.heap@.len() == 0,
            r.arena@.len() == 0,
            r.globals@.len() == 0,
            r.classes@.len() == 0,
            r.symbols@.len() == 0,
            r.boxed@.len() == 0,
            r.anomalies == 0,
    {
        Interp {
            heap: Vec::new(),
            arena: Vec::new(),
            globals: Vec::new(),
            classes: Vec::new(),
            symbols: Vec::new(),
            boxed: Vec::new(),
            anomalies: 0,
        }
    }

    /// How many values the root-protection arena currently roots.
    pub fn arena_len(&self) -> (r: usize)
        ensures
            r == self.arena@.len(),
    {
        self.arena.len()
    }

    /// Record the current size of the root-protection arena as a
    /// checkpoint. Every value rooted after this call is unprotected again
    /// when the checkpoint is restored.
    pub fn create_arena_savepoint(&self) -> (sp: ArenaSavepoint)
        ensures
            sp.index == self.arena@.len(),
    {
        ArenaSavepoint { index: self.arena.len() }
    }

    /// Restore a checkpoint: truncate the root-protection arena back to the
    /// length recorded when the checkpoint was created. Must be called
    /// exactly once per checkpoint, on every exit path of the region it
    /// guards; a checkpoint from a longer-gone arena state is a fatal
    /// precondition violation, not a recoverable error.
    pub fn restore(&mut self, sp: ArenaSavepoint)
        requires
            sp.index <= old(self).arena@.len(),
            old(self).wf(),
        ensures
            final(self).arena@ == old(self).arena@.subrange(0, sp.index as int),
            final(self).heap == old(self).heap,
            final(self).globals == old(self).globals,
            final(self).classes == old(self).classes,
            final(self).symbols == old(self).symbols,
            final(self).boxed == old(self).boxed,
            final(self).anomalies == old(self).anomalies,
            final(self).wf(),
    {
        self.arena.truncate(sp.index);
    }

    /// Root `value` in the current arena region and hand it back.
    pub fn protect(&mut self, value: Value) -> (r: Value)
        requires
            old(self).wf(),
            val_wf(old(self).heap@, value),
        ensures
            r == value,
            final(self).arena@ == old(self).arena@.push(value),
            final(self).heap == old(self).heap,
            final(self).globals == old(self).globals,
            final(self).classes == old(self).classes,
            final(self).symbols == old(self).symbols,
            final(self).boxed == old(self).boxed,
            final(self).anomalies == old(self).anomalies,
            final(self).wf(),
    {
        self.arena.push(value);
        value
    }

    /// Allocate a guest byte string holding `bytes` and root it in the
    /// current arena region.
    pub fn alloc_string(&mut self, bytes: Vec<u8>) -> (r: Value)
        requires
            old(self).wf(),
        ensures
            r == Value::String(old(self).heap.len()),
            final(self).heap@ == old(self).heap@.push(
                HeapSlot::String { bytes, frozen: false },
            ),
            final(self).arena@ == old(self).arena@.push(r),
            final(self).globals == old(self).globals,
            final(self).classes == old(self).classes,
            final(self).symbols == old(self).symbols,
            final(self).boxed == old(self).boxed,
            final(self).anomalies == old(self).anomalies,
            final(self).wf(),
    {
        let id = self.heap.len();
        self.heap.push(HeapSlot::String { bytes, frozen: false });
        let value = Value::String(id);
        proof {
            lemma_wf_after_push(old(self).heap@, self.heap@, old(self).boxed@, self.classes@.len() as int);
        }
        self.arena.push(value);
        value
    }

    /// Allocate a guest array holding `items` and root it in the current
    /// arena region. This is the single guest array allocation a container
    /// conversion performs; the elements must already live in the heap.
    pub fn alloc_array(&mut self, items: Vec<Value>) -> (r: Value)
        requires
            old(self).wf(),
            forall|j: int| 0 <= j < items@.len() ==> val_wf(old(self).heap@, #[trigger] items@[j]),
        ensures
            r == Value::Array(old(self).heap.len()),
            final(self).heap@ == old(self).heap@.push(HeapSlot::Array { items }),
            final(self).arena@ == old(self).arena@.push(r),
            final(self).globals == old(self).globals,
            final(self).classes == old(self).classes,
            final(self).symbols == old(self).symbols,
            final(self).boxed == old(self).boxed,
            final(self).anomalies == old(self).anomalies,
            final(self).wf(),
    {
        let id = self.heap.len();
        self.heap.push(HeapSlot::Array { items });
        let value = Value::Array(id);
        proof {
            lemma_wf_after_push(old(self).heap@, self.heap@, old(self).boxed@, self.classes@.len() as int);
        }
        self.arena.push(value);
        value
    }

    /// Allocate a plain guest object of class `class_name` constructed with
    /// `args`, and root it in the current arena region.
    pub fn alloc_object(&mut self, class_name: Vec<u8>, args: Vec<Value>) -> (r: Value)
        requires
            old(self).wf(),
            forall|j: int| 0 <= j < args@.len() ==> val_wf(old(self).heap@, #[trigger] args@[j]),
        ensures
            r == Value::Object(old(self).heap.len()),
            final(self).heap@ == old(self).heap@.push(HeapSlot::Object { class_name, args }),
            final(self).arena@ == old(self).arena@.push(r),
            final(self).globals == old(self).globals,
            final(self).classes == old(self).classes,
            final(self).symbols == old(self).symbols,
            final(self).boxed == old(self).boxed,
            final(self).anomalies == old(self).anomalies,
            final(self).wf(),
    {
        let id = self.heap.len();
        self.heap.push(HeapSlot::Object { class_name, args });
        let value = Value::Object(id);
        proof {
            lemma_wf_after_push(old(self).heap@, self.heap@, old(self).boxed@, self.classes@.len() as int);
        }
        self.arena.push(value);
        value
    }

    /// Freeze a guest string in place. Freezing any other value, or a
    /// scalar, leaves the interpreter unchanged, as the guest treats those
    /// as immutable already.
    pub fn freeze(&mut self, value: &Value)
        requires
            old(self).wf(),
            val_wf(old(self).heap@, *value),
        ensures
            final(self).heap@.len() == old(self).heap@.len(),
            (match *value {
                Value::String(id) => {
                    &&& final(self).heap@ == old(self).heap@.update(
                        id as int,
                        HeapSlot::String {
                            bytes: old(self).heap@[id as int]->String_bytes,
                            frozen: true,
                        },
                    )
                },
                _ => final(self).heap == old(self).heap,
            }),
            final(self).arena == old(self).arena,
            final(self).globals == old(self).globals,
            final(self).classes == old(self).classes,
            final(self).symbols == old(self).symbols,
            final(self).boxed == old(self).boxed,
            final(self).anomalies == old(self).anomalies,
            final(self).wf(),
    {
        if let Value::String(id) = value {
            let slot = self.heap.remove(*id);
            let ghost old_heap = old(self).heap@;
            if let HeapSlot::String { bytes, frozen } = slot {
                self.heap.insert(*id, HeapSlot::String { bytes, frozen: true });
                proof {
                    assert(self.heap@ =~= old_heap.update(
                        *id as int,
                        HeapSlot::String { bytes: old_heap[*id as int]->String_bytes, frozen: true },
                    ));
                    lemma_wf_after_string_update(old_heap, self.heap@, old(self).boxed@, self.classes@.len() as int, *id as int);
                }
            } else {
                proof {
                    assert(false);
                }
            }
        }
    }
}

impl Interp {
    /// Define (or shadow) the global constant `name` as `value`. A name
    /// holding an embedded NUL byte is rejected before it reaches the
    /// guest; the caller is responsible for freezing `value` first.
    pub fn define_global_constant(&mut self, name: &str, value: Value) -> (r: Result<(), Error>)
        requires
            old(self).wf(),
            val_wf(old(self).heap@, value),
        ensures
            final(self).heap == old(self).heap,
            final(self).arena == old(self).arena,
            final(self).classes == old(self).classes,
            final(self).symbols == old(self).symbols,
            final(self).boxed == old(self).boxed,
            final(self).anomalies == old(self).anomalies,
            final(self).wf(),
            name.spec_bytes().contains(0u8) ==> r is Err && final(self).globals == old(
                self,
            ).globals && (r->Err_0 matches Error::ConstantName(e) && e.0@ == name@),
            !name.spec_bytes().contains(0u8) ==> {
                &&& r is Ok
                &&& global_lookup(final(self).globals@, name.spec_bytes()) == Some(value)
                &&& forall|other: Seq<u8>|
                    other != name.spec_bytes() ==> global_lookup(final(self).globals@, other)
                        == global_lookup(old(self).globals@, other)
                &&& final(self).globals@.len() == old(self).globals@.len() + 1
                &&& (final(self).globals@[0].name)@ == name.spec_bytes()
                &&& final(self).globals@[0].value == value
                &&& forall|k: int|
                    1 <= k < final(self).globals@.len() ==> final(self).globals@[k] == old(
                        self,
                    ).globals@[k - 1]
            },
    {
        let bytes = name.as_bytes();
        if contains_nul(bytes) {
            return Err(Error::ConstantName(ConstantNameError(String::from_str(name))));
        }
        let name_vec = slice_to_vec(bytes);
        self.globals.insert(0, Global { name: name_vec, value });
        proof {
            assert(self.globals@.skip(1) =~= old(self).globals@);
        }
        Ok(())
    }

    /// Look up the global constant `name`.
    pub fn get_global_constant(&self, name: &str) -> (r: Option<Value>)
        requires
            self.wf(),
        ensures
            r == global_lookup(self.globals@, name.spec_bytes()),
            match r {
                Some(v) => val_wf(self.heap@, v),
                None => true,
            },
    {
        let bytes = name.as_bytes();
        let ghost nm = name.spec_bytes();
        let mut i: usize = 0;
        while i < self.globals.len()
            invariant
                self.wf(),
                0 <= i <= self.globals@.len(),
                bytes@ == nm,
                nm == name.spec_bytes(),
                forall|j: int| 0 <= j < i ==> (#[trigger] self.globals@[j].name)@ != nm,
            decreases self.globals@.len() - i,
        {
            if bytes_equal(self.globals[i].name.as_slice(), bytes) {
                proof {
                    lemma_global_lookup_skip(self.globals@, nm, i as int);
                    assert(self.globals@.skip(i as int)[0] == self.globals@[i as int]);
                    assert(global_lookup(self.globals@.skip(i as int), nm) == Some(
                        self.globals@[i as int].value,
                    ));
                }
                return Some(self.globals[i].value);
            }
            i = i + 1;
        }
        proof {
            lemma_global_lookup_skip(self.globals@, nm, self.globals@.len() as int);
            assert(self.globals@.skip(self.globals@.len() as int).len() == 0);
        }
        None
    }

    /// Intern `name` as a guest symbol: hand back the existing symbol id if
    /// `name` was interned before, otherwise assign the next id.
    pub fn intern_symbol(&mut self, name: &[u8]) -> (r: u32)
        requires
            old(self).wf(),
            old(self).symbols@.len() < u32::MAX,
        ensures
            final(self).heap == old(self).heap,
            final(self).arena == old(self).arena,
            final(self).globals == old(self).globals,
            final(self).classes == old(self).classes,
            final(self).boxed == old(self).boxed,
            final(self).anomalies == old(self).anomalies,
            final(self).wf(),
            r < final(self).symbols@.len(),
            (final(self).symbols@[r as int])@ == name@,
            forall|j: int| 0 <= j < r ==> (#[trigger] final(self).symbols@[j])@ != name@,
            (exists|j: int| 0 <= j < old(self).symbols@.len() && (#[trigger] old(
                self,
            ).symbols@[j])@ == name@) ==> final(self).symbols == old(self).symbols,
            !(exists|j: int| 0 <= j < old(self).symbols@.len() && (#[trigger] old(
                self,
            ).symbols@[j])@ == name@) ==> final(self).symbols@.len() == old(
                self,
            ).symbols@.len() + 1 && final(self).symbols@.subrange(
                0,
                old(self).symbols@.len() as int,
            ) == old(self).symbols@,
    {
        let mut i: usize = 0;
        while i < self.symbols.len()
            invariant
                self == old(self),
                old(self).wf(),
                0 <= i <= self.symbols@.len(),
                forall|j: int| 0 <= j < i ==> (#[trigger] self.symbols@[j])@ != name@,
                self.symbols@.len() < u32::MAX,
            decreases self.symbols@.len() - i,
        {
            if bytes_equal(self.symbols[i].as_slice(), name) {
                return i as u32;
            }
            i = i + 1;
        }
        let id = self.symbols.len() as u32;
        self.symbols.push(slice_to_vec(name));
        proof {
            assert(self.symbols@.subrange(0, old(self).symbols@.len() as int) =~= old(
                self,
            ).symbols@);
        }
        id
    }

    /// Instantiate the top-level guest class named `class_name` with
    /// constructor arguments `args`: allocate a plain guest object of that
    /// class, rooted in the current arena region. Hands back `None`, with
    /// the interpreter unchanged, when no such class is defined.
    pub fn new_instance(&mut self, class_name: &str, args: Vec<Value>) -> (r: Option<Value>)
        requires
            old(self).wf(),
            forall|j: int| 0 <= j < args@.len() ==> val_wf(old(self).heap@, #[trigger] args@[j]),
        ensures
            final(self).wf(),
            final(self).globals == old(self).globals,
            final(self).classes == old(self).classes,
            final(self).symbols == old(self).symbols,
            final(self).boxed == old(self).boxed,
            final(self).anomalies == old(self).anomalies,
            !top_level_class_exists(old(self).classes@, class_name.spec_bytes()) ==> r is None
                && final(self).heap == old(self).heap && final(self).arena == old(self).arena,
            top_level_class_exists(old(self).classes@, class_name.spec_bytes()) ==> {
                &&& r == Some(Value::Object(old(self).heap.len()))
                &&& final(self).heap@.len() == old(self).heap@.len() + 1
                &&& final(self).heap@.subrange(0, old(self).heap@.len() as int) == old(self).heap@
                &&& final(self).heap@.last() is Object
                &&& (final(self).heap@.last()->Object_class_name)@ == class_name.spec_bytes()
                &&& final(self).heap@.last()->Object_args == args
                &&& final(self).arena@ == old(self).arena@.push(r->Some_0)
            },
    {
        let bytes = class_name.as_bytes();
        let ghost nm = class_name.spec_bytes();
        let mut i: usize = 0;
        let mut found: bool = false;
        while i < self.classes.len() && !found
            invariant
                0 <= i <= self.classes@.len(),
                bytes@ == nm,
                nm == class_name.spec_bytes(),
                !found ==> forall|j: int|
                    0 <= j < i ==> !((#[trigger] self.classes@[j].name)@ == nm
                        && self.classes@[j].parent is None && !self.classes@[j].is_module),
                found ==> top_level_class_exists(self.classes@, nm),
            decreases self.classes@.len() - i + (if found { 0int } else { 1int }),
        {
            let entry = &self.classes[i];
            if entry.parent.is_none() && !entry.is_module && bytes_equal(
                entry.name.as_slice(),
                bytes,
            ) {
                found = true;
            } else {
                i = i + 1;
            }
        }
        if found {
            let ghost heap0 = self.heap@;
            let value = self.alloc_object(slice_to_vec(bytes), args);
            proof {
                assert(self.heap@.subrange(0, heap0.len() as int) =~= heap0);
            }
            Some(value)
        } else {
            proof {
                assert(!top_level_class_exists(self.classes@, nm)) by {
                    if top_level_class_exists(self.classes@, nm) {
                        let c = choose|c: int|
                            0 <= c < self.classes@.len() && (#[trigger] self.classes@[c].name)@
                                == nm && self.classes@[c].parent is None
                                && !self.classes@[c].is_module;
                        assert(!((self.classes@[c].name)@ == nm && self.classes@[c].parent is None
                            && !self.classes@[c].is_module));
                    }
                }
            }
            None
        }
    }
}

impl Interp {
    /// Borrow the bytes of the guest string `value`.
    pub fn string_bytes<'a>(&'a self, value: &Value) -> (r: &'a Vec<u8>)
        requires
            self.wf(),
            *value is String,
            val_wf(self.heap@, *value),
        ensures
            r@ == self.heap@[value->String_0 as int]->String_bytes@,
    {
        let id: usize = match value {
            Value::String(id) => *id,
            _ => unreached(),
        };
        match &self.heap[id] {
            HeapSlot::String { bytes, .. } => bytes,
            _ => unreached(),
        }
    }

    /// Whether the guest string `value` has been frozen.
    pub fn string_frozen(&self, value: &Value) -> (r: bool)
        requires
            self.wf(),
            *value is String,
            val_wf(self.heap@, *value),
        ensures
            r == self.heap@[value->String_0 as int]->String_frozen,
    {
        let id: usize = match value {
            Value::String(id) => *id,
            _ => unreached(),
        };
        match &self.heap[id] {
            HeapSlot::String { frozen, .. } => *frozen,
            _ => unreached(),
        }
    }

    /// Borrow the elements of the guest array `value`.
    pub fn array_items<'a>(&'a self, value: &Value) -> (r: &'a Vec<Value>)
        requires
            self.wf(),
            *value is Array,
            val_wf(self.heap@, *value),
        ensures
            r@ == self.heap@[value->Array_0 as int]->Array_items@,
            forall|j: int| 0 <= j < r@.len() ==> val_wf(self.heap@, #[trigger] r@[j]),
    {
        let id: usize = match value {
            Value::Array(id) => *id,
            _ => unreached(),
        };
        proof {
            assert(slot_wf(self.heap@, self.boxed@, self.classes@.len() as int, id as int));
        }
        match &self.heap[id] {
            HeapSlot::Array { items } => items,
            _ => unreached(),
        }
    }

    /// How many elements the guest array `value` holds.
    pub fn array_len(&self, value: &Value) -> (r: usize)
        requires
            self.wf(),
            *value is Array,
            val_wf(self.heap@, *value),
        ensures
            r == self.heap@[value->Array_0 as int]->Array_items@.len(),
    {
        self.array_items(value).len()
    }

    /// Whether the guest array `value` is empty.
    pub fn array_is_empty(&self, value: &Value) -> (r: bool)
        requires
            self.wf(),
            *value is Array,
            val_wf(self.heap@, *value),
        ensures
            r == (self.heap@[value->Array_0 as int]->Array_items@.len() == 0),
    {
        self.array_len(value) == 0
    }

    /// Transfer ownership of a host heap allocation into a fresh guest
    /// object of the registered class `class`: the envelope is allocated in
    /// the guest heap, rooted in the current arena region, and the payload
    /// is owned by the envelope until the collector finalizes it.
    pub fn alloc_data(&mut self, class: usize, data: Vec<u8>) -> (r: Value)
        requires
            old(self).wf(),
            class < old(self).classes@.len(),
        ensures
            r == Value::Data(old(self).heap.len()),
            final(self).heap@ == old(self).heap@.push(
                HeapSlot::Data { class, payload: old(self).boxed.len() },
            ),
            final(self).boxed@ == old(self).boxed@.push(
                BoxedPayload { data, finalized: false },
            ),
            final(self).arena@ == old(self).arena@.push(r),
            final(self).globals == old(self).globals,
            final(self).classes == old(self).classes,
            final(self).symbols == old(self).symbols,
            final(self).anomalies == old(self).anomalies,
            final(self).wf(),
    {
        let payload = self.boxed.len();
        self.boxed.push(BoxedPayload { data, finalized: false });
        let id = self.heap.len();
        self.heap.push(HeapSlot::Data { class, payload });
        let value = Value::Data(id);
        proof {
            let heap = old(self).heap@;
            let heap2 = self.heap@;
            let boxed2 = self.boxed@;
            let cl = self.classes@.len() as int;
            assert forall|i: int| 0 <= i < heap2.len() implies slot_wf(heap2, boxed2, cl, i) by {
                if i < heap.len() {
                    assert(slot_wf(heap, old(self).boxed@, cl, i));
                    match heap[i] {
                        HeapSlot::Array { items } => {
                            assert forall|j: int| 0 <= j < items@.len() implies val_wf(
                                heap2,
                                #[trigger] items@[j],
                            ) && refs_below(items@[j], i) by {
                                assert(val_wf(heap, items@[j]) && refs_below(items@[j], i));
                            }
                        },
                        HeapSlot::Object { class_name, args } => {
                            assert forall|j: int| 0 <= j < args@.len() implies val_wf(
                                heap2,
                                #[trigger] args@[j],
                            ) && refs_below(args@[j], i) by {
                                assert(val_wf(heap, args@[j]) && refs_below(args@[j], i));
                            }
                        },
                        _ => {},
                    }
                }
            }
            assert forall|i: int, j: int|
                0 <= i < heap2.len() && 0 <= j < heap2.len() && i != j && #[trigger] heap2[i] is Data
                    && #[trigger] heap2[j] is Data implies heap2[i]->Data_payload
                != heap2[j]->Data_payload by {
                if i < heap.len() && j < heap.len() {
                    assert(payloads_injective(heap));
                } else if i == heap.len() as int {
                    assert(slot_wf(heap, old(self).boxed@, cl, j));
                } else if j == heap.len() as int {
                    assert(slot_wf(heap, old(self).boxed@, cl, i));
                }
            }
        }
        self.arena.push(value);
        value
    }

    /// Reclaim the host payload `p`: after this, the payload's allocation
    /// is gone and its slot in the table is marked finalized. The caller
    /// (the collector, or the finalizer entry point) must never hand in an
    /// already-finalized payload.
    pub(crate) fn finalize_payload(&mut self, p: usize)
        requires
            p < old(self).boxed@.len(),
            !old(self).boxed@[p as int].finalized,
        ensures
            final(self).boxed@ == old(self).boxed@.update(
                p as int,
                BoxedPayload { data: final(self).boxed@[p as int].data, finalized: true },
            ),
            final(self).boxed@[p as int].data@ == Seq::<u8>::empty(),
            final(self).heap == old(self).heap,
            final(self).arena == old(self).arena,
            final(self).globals == old(self).globals,
            final(self).classes == old(self).classes,
            final(self).symbols == old(self).symbols,
            final(self).anomalies == old(self).anomalies,
    {
        self.boxed[p] = BoxedPayload { data: Vec::new(), finalized: true };
    }
}

/// Looking a name up in a global table whose first `i` entries all miss is
/// the same as looking it up past those entries.
proof fn lemma_global_lookup_skip(globals: Seq<Global>, name: Seq<u8>, i: int)
    requires
        0 <= i <= globals.len(),
        forall|j: int| 0 <= j < i ==> (#[trigger] globals[j].name)@ != name,
    ensures
        global_lookup(globals, name) == global_lookup(globals.skip(i), name),
    decreases i,
{
    if i > 0 {
        assert(globals[0].name@ != name);
        assert(global_lookup(globals, name) == global_lookup(globals.skip(1), name));
        assert forall|j: int| 0 <= j < i - 1 implies (#[trigger] globals.skip(1)[j].name)@
            != name by {
            assert(globals.skip(1)[j] == globals[j + 1]);
        }
        lemma_global_lookup_skip(globals.skip(1), name, i - 1);
        assert(globals.skip(1).skip(i - 1) =~= globals.skip(i));
    } else {
        assert(globals.skip(0) =~= globals);
    }
}

/// Appending a slot to a well-formed heap keeps every existing slot
/// well-formed, keeps every value valid, and keeps payload injectivity
/// provided the new slot is not a boxed object that shares a payload.
proof fn lemma_wf_after_push(
    heap: Seq<HeapSlot>,
    heap2: Seq<HeapSlot>,
    boxed: Seq<BoxedPayload>,
    classes_len: int,
)
    requires
        heap2.len() == heap.len() + 1,
        forall|i: int| 0 <= i < heap.len() ==> heap2[i] == heap[i],
        forall|i: int| 0 <= i < heap.len() ==> slot_wf(heap, boxed, classes_len, i),
        !(heap2[heap.len() as int] is Data),
        payloads_injective(heap),
    ensures
        forall|i: int| 0 <= i < heap.len() ==> slot_wf(heap2, boxed, classes_len, i),
        forall|v: Value| val_wf(heap, v) ==> val_wf(heap2, v),
        payloads_injective(heap2),
{
    assert forall|i: int| 0 <= i < heap.len() implies slot_wf(heap2, boxed, classes_len, i) by {
        assert(slot_wf(heap, boxed, classes_len, i));
        match heap[i] {
            HeapSlot::Array { items } => {
                assert forall|j: int| 0 <= j < items@.len() implies val_wf(
                    heap2,
                    #[trigger] items@[j],
                ) && refs_below(items@[j], i) by {
                    assert(val_wf(heap, items@[j]) && refs_below(items@[j], i));
                }
            },
            HeapSlot::Object { class_name, args } => {
                assert forall|j: int| 0 <= j < args@.len() implies val_wf(
                    heap2,
                    #[trigger] args@[j],
                ) && refs_below(args@[j], i) by {
                    assert(val_wf(heap, args@[j]) && refs_below(args@[j], i));
                }
            },
            _ => {},
        }
    }
}

/// Updating the `frozen` flag of a string slot keeps the heap well-formed:
/// no reference, tag or payload changes.
proof fn lemma_wf_after_string_update(
    heap: Seq<HeapSlot>,
    heap2: Seq<HeapSlot>,
    boxed: Seq<BoxedPayload>,
    classes_len: int,
    id: int,
)
    requires
        heap2.len() == heap.len(),
        0 <= id < heap.len(),
        heap[id] is String,
        heap2[id] is String,
        forall|i: int| 0 <= i < heap.len() && i != id ==> heap2[i] == heap[i],
        forall|i: int| 0 <= i < heap.len() ==> slot_wf(heap, boxed, classes_len, i),
        payloads_injective(heap),
    ensures
        forall|i: int| 0 <= i < heap2.len() ==> slot_wf(heap2, boxed, classes_len, i),
        forall|v: Value| val_wf(heap, v) ==> val_wf(heap2, v),
        payloads_injective(heap2),
{
    assert forall|i: int| 0 <= i < heap2.len() implies slot_wf(heap2, boxed, classes_len, i) by {
        assert(slot_wf(heap, boxed, classes_len, i));
        match heap2[i] {
            HeapSlot::Array { items } => {
                assert(heap[i] == heap2[i]);
                assert forall|j: int| 0 <= j < items@.len() implies val_wf(
                    heap2,
                    #[trigger] items@[j],
                ) && refs_below(items@[j], i) by {
                    assert(val_wf(heap, items@[j]) && refs_below(items@[j], i));
                }
            },
            HeapSlot::Object { class_name, args } => {
                assert(heap[i] == heap2[i]);
                assert forall|j: int| 0 <= j < args@.len() implies val_wf(
                    heap2,
                    #[trigger] args@[j],
                ) && refs_below(args@[j], i) by {
                    assert(val_wf(heap, args@[j]) && refs_below(args@[j], i));
                }
            },
            _ => {},
        }
    }
}

} // verus!

//! A typed bridge between statically-typed host code and the object model of
//! an embedded, dynamically-typed, garbage-collected guest interpreter.
//!
//! The crate models the guest interpreter's observable state — its value
//! heap, its root-protection arena, its class table and its interned symbol
//! table — and verifies the four load-bearing subsystems of the bridge:
//!
//! - a bidirectional, fallible/infallible conversion protocol between host
//!   container and primitive types and guest dynamic values;
//! - a heap-object boxing protocol that lets host-owned heap data live inside
//!   a guest object and be reclaimed exactly once by the collector;
//! - a GC arena discipline that bounds the number of temporary guest roots a
//!   host-driven call sequence can accumulate;
//! - scope and identity resolution for classes and modules defined against
//!   the guest class table.

use vstd::prelude::*;

pub mod class;
pub mod convert;
pub mod def;
pub mod error;
pub mod extn;
pub mod gc;
pub mod integer;
pub mod interp;
pub mod laws;
pub mod module;
pub mod numeric;
pub mod ruby;
pub mod spec_runner;
pub mod string;
pub mod types;
pub mod uri;
pub mod value;

verus! {

/// The native word used for guest integers.
pub type Int = i64;

} // verus!

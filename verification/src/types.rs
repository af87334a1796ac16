//! Type tags of the guest's dynamic values and the catalog of host types the
//! conversion protocol can target.

use vstd::prelude::*;

verus! {

/// Type tag carried by every guest dynamic value.
///
/// The guest's object model is a closed set of variants; every value the
/// bridge can observe reports exactly one of these tags.
#[derive(Clone, Copy, Debug, PartialEq, Eq, Structural)]
pub enum Ruby {
    /// A guest array.
    Array,
    /// `true` or `false`.
    Bool,
    /// A guest object holding boxed host-owned heap data.
    Data,
    /// A guest machine integer.
    Fixnum,
    /// A guest floating-point number. The bridge never converts one, but the
    /// tag belongs to the guest's closed catalog of value types.
    Float,
    /// The guest's nil singleton.
    Nil,
    /// A plain guest object.
    Object,
    /// A guest byte string.
    String,
    /// An interned guest symbol.
    Symbol,
}

impl Ruby {
    /// The guest-facing name of the type this tag denotes, used in
    /// conversion-failure diagnostics.
    pub fn class_name(self) -> (r: &'static str)
        ensures
            r@ == self.class_name_spec(),
    {
        match self {
            Ruby::Array => "Array",
            Ruby::Bool => "Boolean",
            Ruby::Data => "Data",
            Ruby::Fixnum => "Integer",
            Ruby::Float => "Float",
            Ruby::Nil => "NilClass",
            Ruby::Object => "Object",
            Ruby::String => "String",
            Ruby::Symbol => "Symbol",
        }
    }

    /// What `class_name` returns for each tag.
    pub open spec fn class_name_spec(self) -> Seq<char> {
        match self {
            Ruby::Array => "Array"@,
            Ruby::Bool => "Boolean"@,
            Ruby::Data => "Data"@,
            Ruby::Fixnum => "Integer"@,
            Ruby::Float => "Float"@,
            Ruby::Nil => "NilClass"@,
            Ruby::Object => "Object"@,
            Ruby::String => "String"@,
            Ruby::Symbol => "Symbol"@,
        }
    }
}

/// Catalog of host types a guest value can be asked to convert into, used in
/// conversion-failure diagnostics.
#[derive(Clone, Copy, Debug, PartialEq, Eq, Structural)]
pub enum Rust {
    /// `bool`.
    Bool,
    /// A host byte buffer.
    Bytes,
    /// An arbitrary boxed host object.
    Object,
    /// A host machine integer.
    SignedInt,
    /// A UTF-8 host string.
    String,
    /// A host vector of converted elements.
    Vec,
}

impl Rust {
    /// The host-facing name of the requested type, used in
    /// conversion-failure diagnostics.
    pub fn name(self) -> (r: &'static str)
        ensures
            r@ == self.name_spec(),
    {
        match self {
            Rust::Bool => "bool",
            Rust::Bytes => "bytes",
            Rust::Object => "object",
            Rust::SignedInt => "integer",
            Rust::String => "string",
            Rust::Vec => "vec",
        }
    }

    /// What `name` returns for each entry of the catalog.
    pub open spec fn name_spec(self) -> Seq<char> {
        match self {
            Rust::Bool => "bool"@,
            Rust::Bytes => "bytes"@,
            Rust::Object => "object"@,
            Rust::SignedInt => "integer"@,
            Rust::String => "string"@,
            Rust::Vec => "vec"@,
        }
    }
}

} // verus!

//! Module specifications: the host-side description of a guest module,
//! with its interned name symbol and optional enclosing scope, and its
//! definition and resolution against the guest class table.

use vstd::prelude::*;
use vstd::string::*;

use crate::class::{spec_rclass, spec_rclass_scope, table_lookup};
use crate::def::{ConstantNameError, EnclosingRubyScope, NotDefinedError};
use crate::interp::{ClassEntry, Interp};
use crate::string::contains_nul;

verus! {

/// Host-side specification of a guest module: a name, the symbol it is
/// interned as, and an optional enclosing scope. Immutable once
/// constructed; only its resolution against the class table is repeated.
#[derive(Debug)]
pub struct Spec {
    /// The module's own (unqualified) name.
    pub name: String,
    /// The symbol id the module's name is interned under.
    pub name_symbol: u32,
    /// The module's enclosing scope, if it is defined under one.
    pub enclosing_scope: Option<EnclosingRubyScope>,
}

impl Spec {
    /// Whether this specification's name is a valid guest identifier.
    pub open spec fn valid(self) -> bool {
        !vstd::utf8::encode_utf8(self.name@).contains(0u8)
    }

    /// Construct a module specification, interning its name as a guest
    /// symbol. A name holding an embedded NUL byte is rejected before it
    /// can reach the guest.
    pub fn new(interp: &mut Interp, name: &str, enclosing_scope: Option<EnclosingRubyScope>) -> (r:
        Result<Spec, ConstantNameError>)
        requires
            old(interp).wf(),
            old(interp).symbols@.len() < u32::MAX,
        ensures
            final(interp).heap == old(interp).heap,
            final(interp).arena == old(interp).arena,
            final(interp).globals == old(interp).globals,
            final(interp).classes == old(interp).classes,
            final(interp).boxed == old(interp).boxed,
            final(interp).anomalies == old(interp).anomalies,
            final(interp).wf(),
            final(interp).symbols@.len() <= old(interp).symbols@.len() + 1,
            final(interp).symbols@.subrange(0, old(interp).symbols@.len() as int) == old(
                interp,
            ).symbols@,
            !name.spec_bytes().contains(0u8) <==> r is Ok,
            r matches Ok(spec) ==> spec.name@ == name@ && spec.enclosing_scope == enclosing_scope
                && spec.valid() && spec.name_symbol < final(interp).symbols@.len()
                && (final(interp).symbols@[spec.name_symbol as int])@ == name.spec_bytes(),
            r matches Err(e) ==> e.0@ == name@ && final(interp).symbols == old(interp).symbols,
    {
        if contains_nul(name.as_bytes()) {
            Err(ConstantNameError(String::from_str(name)))
        } else {
            let name_symbol = interp.intern_symbol(name.as_bytes());
            Ok(Spec { name: String::from_str(name), name_symbol, enclosing_scope })
        }
    }

    /// The module's own (unqualified) name.
    pub fn name(&self) -> (r: &str)
        ensures
            r@ == self.name@,
    {
        self.name.as_str()
    }

    /// The symbol id the module's name is interned under.
    pub fn name_symbol(&self) -> (r: u32)
        ensures
            r == self.name_symbol,
    {
        self.name_symbol
    }

    /// The module's enclosing scope, if it is defined under one.
    pub fn enclosing_scope(&self) -> (r: &Option<EnclosingRubyScope>)
        ensures
            r == self.enclosing_scope,
    {
        &self.enclosing_scope
    }

    /// The fully qualified name this specification denotes.
    pub open spec fn fqname_spec(self) -> Seq<char> {
        match self.enclosing_scope {
            Some(scope) => scope.fqname_spec() + "::"@ + self.name@,
            None => self.name@,
        }
    }

    /// Compute the fully qualified name of the module: each enclosing
    /// level's name, root first, joined by the scope separator.
    pub fn fqname(&self) -> (r: String)
        ensures
            r@ == self.fqname_spec(),
    {
        match &self.enclosing_scope {
            Some(scope) => {
                let mut r = scope.fqname();
                r.append("::");
                r.append(self.name.as_str());
                r
            },
            None => String::from_str(self.name.as_str()),
        }
    }

    /// Resolve this module's handle in the guest class table, walking the
    /// enclosing-scope chain outward-to-root. `None` when the module, or
    /// any level of its owner chain, is not defined.
    pub fn rclass(&self, interp: &Interp) -> (r: Option<usize>)
        ensures
            match spec_rclass(self.name@, self.enclosing_scope, true, interp.classes@) {
                Some(h) => 0 <= h < interp.classes@.len() && r == Some(h as usize),
                None => r is None,
            },
    {
        match &self.enclosing_scope {
            Some(scope) => match scope.rclass(interp) {
                Some(parent) => table_lookup(interp, self.name.as_str(), Some(parent), true),
                None => None,
            },
            None => table_lookup(interp, self.name.as_str(), None, true),
        }
    }
}

impl Interp {
    /// Define a module described by `spec` in the guest class table, under
    /// its resolved enclosing scope, and hand back its handle. Fails with
    /// a [`NotDefinedError`] naming the enclosing scope when the owner
    /// chain does not resolve.
    pub fn define_module(&mut self, spec: &Spec) -> (r: Result<usize, NotDefinedError>)
        requires
            old(self).wf(),
        ensures
            final(self).heap == old(self).heap,
            final(self).arena == old(self).arena,
            final(self).globals == old(self).globals,
            final(self).symbols == old(self).symbols,
            final(self).boxed == old(self).boxed,
            final(self).anomalies == old(self).anomalies,
            final(self).wf(),
            r is Err <==> (match spec.enclosing_scope {
                Some(scope) => spec_rclass_scope(scope, old(self).classes@) is None,
                None => false,
            }),
            r matches Err(e) ==> ({
                &&& final(self).classes == old(self).classes
                &&& spec.enclosing_scope matches Some(scope)
                &&& e matches NotDefinedError::EnclosingScope(n)
                &&& n@ == scope.fqname_spec()
            }),
            r matches Ok(h) ==> {
                &&& h == old(self).classes.len()
                &&& final(self).classes@.len() == old(self).classes@.len() + 1
                &&& final(self).classes@.subrange(0, old(self).classes@.len() as int) == old(
                    self,
                ).classes@
                &&& (final(self).classes@.last().name)@ == vstd::utf8::encode_utf8(spec.name@)
                &&& final(self).classes@.last().is_module
                &&& (match spec.enclosing_scope {
                    Some(scope) => (match spec_rclass_scope(scope, old(self).classes@) {
                        Some(p) => final(self).classes@.last().parent == Some(p as usize),
                        None => false,
                    }),
                    None => final(self).classes@.last().parent is None,
                })
            },
    {
        let parent: Option<usize> = match spec.enclosing_scope() {
            Some(scope) => match scope.rclass(self) {
                Some(h) => Some(h),
                None => {
                    return Err(NotDefinedError::enclosing_scope(scope.fqname()));
                },
            },
            None => None,
        };
        let h = self.classes.len();
        proof {
            match parent {
                Some(p) => {
                    assert(p < self.classes@.len());
                },
                None => {},
            }
        }
        self.classes.push(
            ClassEntry {
                name: vstd::slice::slice_to_vec(spec.name.as_str().as_bytes()),
                parent,
                is_module: true,
            },
        );
        proof {
            assert(self.classes@.subrange(0, old(self).classes@.len() as int) =~= old(
                self,
            ).classes@);
            crate::class::lemma_wf_after_class_push(*old(self), *self);
        }
        Ok(h)
    }
}

} // verus!

//! Class specifications: the host-side description of a guest class, with
//! its optional enclosing scope, and its definition and resolution against
//! the guest class table.

use vstd::prelude::*;
use vstd::string::*;

use crate::def::{ConstantNameError, EnclosingRubyScope, NotDefinedError};
use crate::interp::{ClassEntry, Interp};
use crate::string::contains_nul;

verus! {

/// Host-side specification of a guest class: a name and an optional
/// enclosing scope. Immutable once constructed; only its resolution
/// against the class table is repeated.
#[derive(Debug)]
pub struct Spec {
    /// The class's own (unqualified) name.
    pub name: String,
    /// The class's enclosing scope, if it is defined under one.
    pub enclosing_scope: Option<EnclosingRubyScope>,
}

impl Spec {
    /// Whether this specification's name is a valid guest identifier.
    pub open spec fn valid(self) -> bool {
        !vstd::utf8::encode_utf8(self.name@).contains(0u8)
    }

    /// Construct a class specification. The name travels to the guest
    /// class table as a NUL-terminated byte string, so a name holding an
    /// embedded NUL byte is rejected here, before it can reach the guest.
    pub fn new(name: &str, enclosing_scope: Option<EnclosingRubyScope>) -> (r: Result<
        Spec,
        ConstantNameError,
    >)
        ensures
            !name.spec_bytes().contains(0u8) <==> r is Ok,
            r matches Ok(spec) ==> spec.name@ == name@ && spec.enclosing_scope == enclosing_scope
                && spec.valid(),
            r matches Err(e) ==> e.0@ == name@,
    {
        if contains_nul(name.as_bytes()) {
            Err(ConstantNameError(String::from_str(name)))
        } else {
            Ok(Spec { name: String::from_str(name), enclosing_scope })
        }
    }

    /// The class's own (unqualified) name.
    pub fn name(&self) -> (r: &str)
        ensures
            r@ == self.name@,
    {
        self.name.as_str()
    }

    /// The class's enclosing scope, if it is defined under one.
    pub fn enclosing_scope(&self) -> (r: &Option<EnclosingRubyScope>)
        ensures
            r == self.enclosing_scope,
    {
        &self.enclosing_scope
    }

    /// The fully qualified name this specification denotes.
    pub open spec fn fqname_spec(self) -> Seq<char> {
        match self.enclosing_scope {
            Some(scope) => scope.fqname_spec() + "::"@ + self.name@,
            None => self.name@,
        }
    }

    /// Compute the fully qualified name of the class: each enclosing
    /// level's name, root first, joined by the scope separator.
    pub fn fqname(&self) -> (r: String)
        ensures
            r@ == self.fqname_spec(),
    {
        match &self.enclosing_scope {
            Some(scope) => {
                let mut r = scope.fqname();
                r.append("::");
                r.append(self.name.as_str());
                r
            },
            None => String::from_str(self.name.as_str()),
        }
    }

    /// Resolve this class's handle in the guest class table, walking the
    /// enclosing-scope chain outward-to-root. `None` when the class, or
    /// any level of its owner chain, is not defined.
    pub fn rclass(&self, interp: &Interp) -> (r: Option<usize>)
        ensures
            match spec_rclass(self.name@, self.enclosing_scope, false, interp.classes@) {
                Some(h) => 0 <= h < interp.classes@.len() && r == Some(h as usize),
                None => r is None,
            },
    {
        match &self.enclosing_scope {
            Some(scope) => match scope.rclass(interp) {
                Some(parent) => table_lookup(interp, self.name.as_str(), Some(parent), false),
                None => None,
            },
            None => table_lookup(interp, self.name.as_str(), None, false),
        }
    }
}

impl Interp {
    /// Define a class described by `spec` in the guest class table, under
    /// its resolved enclosing scope, and hand back its handle. Fails with
    /// a [`NotDefinedError`] naming the enclosing scope when the owner
    /// chain does not resolve.
    pub fn define_class(&mut self, spec: &Spec) -> (r: Result<usize, NotDefinedError>)
        requires
            old(self).wf(),
        ensures
            final(self).heap == old(self).heap,
            final(self).arena == old(self).arena,
            final(self).globals == old(self).globals,
            final(self).symbols == old(self).symbols,
            final(self).boxed == old(self).boxed,
            final(self).anomalies == old(self).anomalies,
            final(self).wf(),
            r is Err <==> (match spec.enclosing_scope {
                Some(scope) => spec_rclass_scope(scope, old(self).classes@) is None,
                None => false,
            }),
            r matches Err(e) ==> ({
                &&& final(self).classes == old(self).classes
                &&& spec.enclosing_scope matches Some(scope)
                &&& e matches NotDefinedError::EnclosingScope(n)
                &&& n@ == scope.fqname_spec()
            }),
            r matches Ok(h) ==> {
                &&& h == old(self).classes.len()
                &&& final(self).classes@.len() == old(self).classes@.len() + 1
                &&& final(self).classes@.subrange(0, old(self).classes@.len() as int) == old(
                    self,
                ).classes@
                &&& (final(self).classes@.last().name)@ == vstd::utf8::encode_utf8(spec.name@)
                &&& !final(self).classes@.last().is_module
                &&& (match spec.enclosing_scope {
                    Some(scope) => (match spec_rclass_scope(scope, old(self).classes@) {
                        Some(p) => final(self).classes@.last().parent == Some(p as usize),
                        None => false,
                    }),
                    None => final(self).classes@.last().parent is None,
                })
            },
    {
        let parent: Option<usize> = match spec.enclosing_scope() {
            Some(scope) => match scope.rclass(self) {
                Some(h) => Some(h),
                None => {
                    return Err(NotDefinedError::enclosing_scope(scope.fqname()));
                },
            },
            None => None,
        };
        let h = self.classes.len();
        proof {
            match parent {
                Some(p) => {
                    assert(p < self.classes@.len());
                },
                None => {},
            }
        }
        self.classes.push(
            ClassEntry {
                name: vstd::slice::slice_to_vec(spec.name.as_str().as_bytes()),
                parent,
                is_module: false,
            },
        );
        proof {
            assert(self.classes@.subrange(0, old(self).classes@.len() as int) =~= old(
                self,
            ).classes@);
            lemma_wf_after_class_push(*old(self), *self);
        }
        Ok(h)
    }
}

/// The first class-table entry with the given name, parent and kind, from
/// position `i` on.
pub open spec fn table_first_from(
    classes: Seq<ClassEntry>,
    name: Seq<u8>,
    parent: Option<usize>,
    is_module: bool,
    i: int,
) -> Option<int>
    decreases classes.len() - i,
{
    if i < 0 || i >= classes.len() {
        None
    } else if classes[i].name@ == name && classes[i].parent == parent && classes[i].is_module
        == is_module {
        Some(i)
    } else {
        table_first_from(classes, name, parent, is_module, i + 1)
    }
}

/// The first class-table entry with the given name, parent and kind.
pub open spec fn table_first(
    classes: Seq<ClassEntry>,
    name: Seq<u8>,
    parent: Option<usize>,
    is_module: bool,
) -> Option<int> {
    table_first_from(classes, name, parent, is_module, 0)
}

/// What resolving `name` (a class for `is_module == false`, else a
/// module) under the optional enclosing scope `enclosing` yields against
/// `classes`.
pub open spec fn spec_rclass(
    name: Seq<char>,
    enclosing: Option<EnclosingRubyScope>,
    is_module: bool,
    classes: Seq<ClassEntry>,
) -> Option<int>
    decreases (match enclosing {
        Some(scope) => 2 * scope.height_spec() + 2,
        None => 0,
    }),
{
    match enclosing {
        Some(scope) => match spec_rclass_scope(scope, classes) {
            Some(parent) => table_first(
                classes,
                vstd::utf8::encode_utf8(name),
                Some(parent as usize),
                is_module,
            ),
            None => None,
        },
        None => table_first(classes, vstd::utf8::encode_utf8(name), None, is_module),
    }
}

/// What resolving the class or module wrapped in `scope` yields against
/// `classes`.
pub open spec fn spec_rclass_scope(scope: EnclosingRubyScope, classes: Seq<ClassEntry>) -> Option<
    int,
>
    decreases 2 * scope.height_spec() + 1,
{
    spec_rclass(scope.name_spec(), scope.enclosing_spec(), scope.is_module_spec(), classes)
}

/// Scan the guest class table for the first entry with the given name,
/// parent and kind.
pub(crate) fn table_lookup(interp: &Interp, name: &str, parent: Option<usize>, is_module: bool) -> (r:
    Option<usize>)
    ensures
        match table_first(interp.classes@, name.spec_bytes(), parent, is_module) {
            Some(h) => 0 <= h < interp.classes@.len() && r == Some(h as usize),
            None => r is None,
        },
{
    let bytes = name.as_bytes();
    let ghost nm = name.spec_bytes();
    let mut i: usize = 0;
    while i < interp.classes.len()
        invariant
            0 <= i <= interp.classes@.len(),
            bytes@ == nm,
            nm == name.spec_bytes(),
            table_first(interp.classes@, nm, parent, is_module) == table_first_from(
                interp.classes@,
                nm,
                parent,
                is_module,
                i as int,
            ),
        decreases interp.classes@.len() - i,
    {
        let entry = &interp.classes[i];
        let parent_matches = match (&entry.parent, &parent) {
            (Some(a), Some(b)) => *a == *b,
            (None, None) => true,
            _ => false,
        };
        if parent_matches && entry.is_module == is_module && crate::string::bytes_equal(
            entry.name.as_slice(),
            bytes,
        ) {
            return Some(i);
        }
        i = i + 1;
    }
    None
}

/// Appending a class-table entry whose parent is a valid existing handle
/// preserves the interpreter invariant: heap slots only carry class
/// handles below the old length.
pub(crate) proof fn lemma_wf_after_class_push(pre: Interp, post: Interp)
    requires
        pre.wf(),
        post.heap == pre.heap,
        post.arena == pre.arena,
        post.globals == pre.globals,
        post.symbols == pre.symbols,
        post.boxed == pre.boxed,
        post.classes@.len() == pre.classes@.len() + 1,
        forall|c: int| 0 <= c < pre.classes@.len() ==> post.classes@[c] == pre.classes@[c],
        match post.classes@.last().parent {
            Some(p) => p < pre.classes@.len(),
            None => true,
        },
    ensures
        post.wf(),
{
    assert forall|i: int| 0 <= i < post.heap@.len() implies crate::interp::slot_wf(
        post.heap@,
        post.boxed@,
        post.classes@.len() as int,
        i,
    ) by {
        assert(crate::interp::slot_wf(pre.heap@, pre.boxed@, pre.classes@.len() as int, i));
    }
}

} // verus!

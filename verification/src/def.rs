//! Identity and definition errors for classes and modules, and the enclosing
//! scopes used to resolve them against the guest class table.

use vstd::prelude::*;
use vstd::string::*;

use crate::class;
use crate::interp::{ClassEntry, Interp};
use crate::module;

verus! {

/// Scope wrapper for a guest class enclosing a class or module definition.
#[derive(Debug)]
pub struct ClassScope {
    /// The class's own (unqualified) name.
    pub name: String,
    /// The scope enclosing the class, one level further out.
    pub enclosing_scope: Option<Box<EnclosingRubyScope>>,
}

/// Scope wrapper for a guest module enclosing a class or module
/// definition.
#[derive(Debug)]
pub struct ModuleScope {
    /// The module's own (unqualified) name.
    pub name: String,
    /// The symbol id the module's name is interned under.
    pub name_symbol: u32,
    /// The scope enclosing the module, one level further out.
    pub enclosing_scope: Option<Box<EnclosingRubyScope>>,
}

/// The enclosing scope of a guest class or module.
///
/// Classes and modules can be defined inside another class or module, and
/// the guest class table only resolves names relative to an enclosing
/// scope. Each class-like therefore carries a copy of its enclosing
/// scope — an owned copy of the owner's identity, never a shared live
/// reference — so it can recursively resolve its owner chain, outward to
/// the root.
#[derive(Debug)]
pub enum EnclosingRubyScope {
    /// The enclosing scope is a guest class.
    Class(ClassScope),
    /// The enclosing scope is a guest module.
    Module(ModuleScope),
}

/// Whether two scopes describe the same identity: same kind, same name
/// and congruent owner chains.
pub open spec fn congruent(a: EnclosingRubyScope, b: EnclosingRubyScope) -> bool
    decreases a,
{
    &&& a.is_module_spec() == b.is_module_spec()
    &&& a.name_spec() == b.name_spec()
    &&& match (a.enclosing_spec(), b.enclosing_spec()) {
        (Some(x), Some(y)) => congruent(x, y),
        (None, None) => true,
        _ => false,
    }
}

impl EnclosingRubyScope {
    /// The scope's own (unqualified) name.
    pub open spec fn name_spec(self) -> Seq<char> {
        match self {
            EnclosingRubyScope::Class(s) => s.name@,
            EnclosingRubyScope::Module(s) => s.name@,
        }
    }

    /// The scope's own enclosing scope, one level further out.
    pub open spec fn enclosing_spec(self) -> Option<EnclosingRubyScope> {
        match self {
            EnclosingRubyScope::Class(s) => match s.enclosing_scope {
                Some(b) => Some(*b),
                None => None,
            },
            EnclosingRubyScope::Module(s) => match s.enclosing_scope {
                Some(b) => Some(*b),
                None => None,
            },
        }
    }

    /// Whether the scope wraps a module rather than a class.
    pub open spec fn is_module_spec(self) -> bool {
        self is Module
    }

    /// How many levels of enclosing scope lie above this one.
    pub open spec fn height_spec(self) -> nat
        decreases self,
    {
        match self {
            EnclosingRubyScope::Class(s) => match s.enclosing_scope {
                Some(b) => b.height_spec() + 1,
                None => 0,
            },
            EnclosingRubyScope::Module(s) => match s.enclosing_scope {
                Some(b) => b.height_spec() + 1,
                None => 0,
            },
        }
    }

    /// The fully qualified name of the wrapped class or module: each
    /// level's name, root first, joined by the scope separator.
    pub open spec fn fqname_spec(self) -> Seq<char>
        decreases self,
    {
        match self.enclosing_spec() {
            Some(scope) => scope.fqname_spec() + "::"@ + self.name_spec(),
            None => self.name_spec(),
        }
    }

    /// Wrap a class specification as an enclosing scope, copying its
    /// identity. Useful when extracting an enclosing scope from the class
    /// registry.
    pub fn class(spec: &class::Spec) -> (r: Self)
        ensures
            r.is_module_spec() == false,
            r.name_spec() == spec.name@,
            r.fqname_spec() == spec.fqname_spec(),
            forall|classes: Seq<ClassEntry>| #[trigger] class::spec_rclass_scope(r, classes)
                == class::spec_rclass(spec.name@, spec.enclosing_scope, false, classes),
    {
        let enclosing_scope = match spec.enclosing_scope() {
            Some(scope) => Some(Box::new(dup_scope(scope))),
            None => None,
        };
        let r = EnclosingRubyScope::Class(
            ClassScope { name: String::from_str(spec.name()), enclosing_scope },
        );
        proof {
            let es = spec.enclosing_scope;
            match (r.enclosing_spec(), es) {
                (Some(x), Some(y)) => {
                    lemma_congruent_fqname(x, y);
                    assert forall|classes: Seq<ClassEntry>| #[trigger] class::spec_rclass_scope(
                        r,
                        classes,
                    ) == class::spec_rclass(spec.name@, spec.enclosing_scope, false, classes) by {
                        lemma_congruent_rclass(x, y, classes);
                    }
                },
                _ => {},
            }
        }
        r
    }

    /// Wrap a module specification as an enclosing scope, copying its
    /// identity (including its interned name symbol).
    pub fn module(spec: &module::Spec) -> (r: Self)
        ensures
            r.is_module_spec() == true,
            r.name_spec() == spec.name@,
            (r matches EnclosingRubyScope::Module(ms) && ms.name_symbol == spec.name_symbol),
            r.fqname_spec() == spec.fqname_spec(),
            forall|classes: Seq<ClassEntry>| #[trigger] class::spec_rclass_scope(r, classes)
                == class::spec_rclass(spec.name@, spec.enclosing_scope, true, classes),
    {
        let enclosing_scope = match spec.enclosing_scope() {
            Some(scope) => Some(Box::new(dup_scope(scope))),
            None => None,
        };
        let r = EnclosingRubyScope::Module(
            ModuleScope {
                name: String::from_str(spec.name()),
                name_symbol: spec.name_symbol(),
                enclosing_scope,
            },
        );
        proof {
            let es = spec.enclosing_scope;
            match (r.enclosing_spec(), es) {
                (Some(x), Some(y)) => {
                    lemma_congruent_fqname(x, y);
                    assert forall|classes: Seq<ClassEntry>| #[trigger] class::spec_rclass_scope(
                        r,
                        classes,
                    ) == class::spec_rclass(spec.name@, spec.enclosing_scope, true, classes) by {
                        lemma_congruent_rclass(x, y, classes);
                    }
                },
                _ => {},
            }
        }
        r
    }

    /// Resolve the class-table handle of the wrapped class or module,
    /// recursively resolving each enclosing scope, outward to the root.
    /// `None` when any level is not defined. Resolution is idempotent and
    /// side-effect free; it is repeated on demand rather than cached,
    /// since later definitions can change what a name resolves to.
    pub fn rclass(&self, interp: &Interp) -> (r: Option<usize>)
        ensures
            match class::spec_rclass_scope(*self, interp.classes@) {
                Some(h) => 0 <= h < interp.classes@.len() && r == Some(h as usize),
                None => r is None,
            },
        decreases *self,
    {
        let (name, enclosing_scope, is_module): (&String, &Option<Box<EnclosingRubyScope>>, bool) =
            match self {
            EnclosingRubyScope::Class(s) => (&s.name, &s.enclosing_scope, false),
            EnclosingRubyScope::Module(s) => (&s.name, &s.enclosing_scope, true),
        };
        match enclosing_scope {
            Some(scope) => match scope.rclass(interp) {
                Some(parent) => class::table_lookup(interp, name.as_str(), Some(parent), is_module),
                None => None,
            },
            None => class::table_lookup(interp, name.as_str(), None, is_module),
        }
    }

    /// Compute the fully qualified name of the wrapped class or module,
    /// recursively walking the enclosing scopes, root first.
    pub fn fqname(&self) -> (r: String)
        ensures
            r@ == self.fqname_spec(),
        decreases *self,
    {
        let (name, enclosing_scope): (&String, &Option<Box<EnclosingRubyScope>>) = match self {
            EnclosingRubyScope::Class(s) => (&s.name, &s.enclosing_scope),
            EnclosingRubyScope::Module(s) => (&s.name, &s.enclosing_scope),
        };
        match enclosing_scope {
            Some(scope) => {
                let mut fqname = scope.fqname();
                fqname.append("::");
                fqname.append(name.as_str());
                fqname
            },
            None => String::from_str(name.as_str()),
        }
    }
}

/// Rebuild an owned copy of a scope, congruent to the original.
fn dup_scope(s: &EnclosingRubyScope) -> (r: EnclosingRubyScope)
    ensures
        congruent(r, *s),
    decreases *s,
{
    match s {
        EnclosingRubyScope::Class(scope) => {
            let enclosing_scope = match &scope.enclosing_scope {
                Some(b) => Some(Box::new(dup_scope(b))),
                None => None,
            };
            EnclosingRubyScope::Class(
                ClassScope { name: String::from_str(scope.name.as_str()), enclosing_scope },
            )
        },
        EnclosingRubyScope::Module(scope) => {
            let enclosing_scope = match &scope.enclosing_scope {
                Some(b) => Some(Box::new(dup_scope(b))),
                None => None,
            };
            EnclosingRubyScope::Module(
                ModuleScope {
                    name: String::from_str(scope.name.as_str()),
                    name_symbol: scope.name_symbol,
                    enclosing_scope,
                },
            )
        },
    }
}

/// Congruent scopes have the same fully qualified name.
proof fn lemma_congruent_fqname(a: EnclosingRubyScope, b: EnclosingRubyScope)
    requires
        congruent(a, b),
    ensures
        a.fqname_spec() == b.fqname_spec(),
    decreases a,
{
    match (a.enclosing_spec(), b.enclosing_spec()) {
        (Some(x), Some(y)) => {
            lemma_box_congruent(a, b, x, y);
            lemma_congruent_fqname(x, y);
        },
        _ => {},
    }
}

/// Congruence of two scopes extends to their enclosing scopes, with the
/// structural-decrease fact Verus needs for the inductive step.
proof fn lemma_box_congruent(
    a: EnclosingRubyScope,
    b: EnclosingRubyScope,
    x: EnclosingRubyScope,
    y: EnclosingRubyScope,
)
    requires
        congruent(a, b),
        a.enclosing_spec() == Some(x),
        b.enclosing_spec() == Some(y),
    ensures
        congruent(x, y),
        x.height_spec() < a.height_spec(),
{
}

/// Congruent scopes resolve to the same class-table handle.
proof fn lemma_congruent_rclass(
    a: EnclosingRubyScope,
    b: EnclosingRubyScope,
    classes: Seq<ClassEntry>,
)
    requires
        congruent(a, b),
    ensures
        class::spec_rclass_scope(a, classes) == class::spec_rclass_scope(b, classes),
    decreases a.height_spec(),
{
    match (a.enclosing_spec(), b.enclosing_spec()) {
        (Some(x), Some(y)) => {
            lemma_box_congruent(a, b, x, y);
            lemma_congruent_rclass(x, y, classes);
        },
        _ => {},
    }
}

/// Finalizer entry point for a boxed host object: the collector hands it
/// the reclaimed envelope's payload. A missing payload is a logged
/// anomaly, tolerated rather than fatal; a live payload is reclaimed
/// exactly once. The collector never hands in an already-finalized
/// payload, nor one whose envelope is still live.
pub fn box_unbox_free(interp: &mut Interp, data: Option<usize>)
    requires
        old(interp).wf(),
        data matches Some(p) ==> p < old(interp).boxed@.len() && !old(interp).boxed@[p as int].finalized
            && forall|i: int|
            0 <= i < old(interp).heap@.len() && #[trigger] old(interp).heap@[i] is Data ==> old(
                interp,
            ).heap@[i]->Data_payload != p,
    ensures
        final(interp).heap == old(interp).heap,
        final(interp).arena == old(interp).arena,
        final(interp).globals == old(interp).globals,
        final(interp).classes == old(interp).classes,
        final(interp).symbols == old(interp).symbols,
        final(interp).wf(),
        data is None ==> final(interp).boxed == old(interp).boxed && final(interp).anomalies
            == (if old(interp).anomalies < u64::MAX {
            (old(interp).anomalies + 1) as u64
        } else {
            old(interp).anomalies
        }),
        data matches Some(p) ==> final(interp).anomalies == old(interp).anomalies
            && final(interp).boxed@.len() == old(interp).boxed@.len()
            && final(interp).boxed@[p as int].finalized
            && final(interp).boxed@[p as int].data@ == Seq::<u8>::empty() && (forall|q: int|
            0 <= q < old(interp).boxed@.len() && q != p ==> final(interp).boxed@[q] == old(
                interp,
            ).boxed@[q]),
{
    match data {
        None => {
            if interp.anomalies < u64::MAX {
                interp.anomalies = interp.anomalies + 1;
            }
        },
        Some(p) => {
            interp.finalize_payload(p);
            proof {
                assert forall|i: int|
                    0 <= i < interp.heap@.len() implies crate::interp::slot_wf(
                    interp.heap@,
                    interp.boxed@,
                    interp.classes@.len() as int,
                    i,
                ) by {
                    assert(crate::interp::slot_wf(
                        old(interp).heap@,
                        old(interp).boxed@,
                        old(interp).classes@.len() as int,
                        i,
                    ));
                }
            }
        },
    }
}

/// Error raised when a class, module or constant name holds a NUL byte.
///
/// Guest identifiers travel to the class table as NUL-terminated byte
/// strings, so an embedded NUL is rejected before it reaches the guest.
#[derive(Debug, Clone, PartialEq, Eq, Hash, PartialOrd, Ord)]
pub struct ConstantNameError(pub String);

impl ConstantNameError {
    /// Construct a new, empty `ConstantNameError`.
    pub fn new() -> (r: Self)
        ensures
            r.0@ == Seq::<char>::empty(),
    {
        ConstantNameError(String::new())
    }

    /// The name that was rejected.
    pub fn item_name(&self) -> (r: &str)
        ensures
            r@ == self.0@,
    {
        self.0.as_str()
    }

    /// The message this error surfaces to the guest.
    pub fn message(&self) -> (r: &'static str)
        ensures
            r@ == "Invalid constant name contained a NUL byte"@,
    {
        "Invalid constant name contained a NUL byte"
    }

    /// The guest exception class this error surfaces as.
    pub fn name(&self) -> (r: &'static str)
        ensures
            r@ == "NameError"@,
    {
        "NameError"
    }
}

impl From<String> for ConstantNameError {
    fn from(name: String) -> (r: Self)
        ensures
            r.0 == name,
    {
        ConstantNameError(name)
    }
}

impl vstd::std_specs::convert::FromSpecImpl<String> for ConstantNameError {
    open spec fn obeys_from_spec() -> bool {
        true
    }

    open spec fn from_spec(name: String) -> Self {
        ConstantNameError(name)
    }
}

impl Default for ConstantNameError {
    fn default() -> (r: Self)
        ensures
            r.0@ == Seq::<char>::empty(),
    {
        ConstantNameError::new()
    }
}

/// Error raised when a referenced guest item does not exist in the class
/// table: it names the kind of item looked up and the fully qualified name
/// that missed.
#[derive(Debug, Clone, PartialEq, Eq, Hash, PartialOrd, Ord)]
pub enum NotDefinedError {
    /// The enclosing scope of a class or module is not defined.
    EnclosingScope(String),
    /// The super class of a class is not defined.
    Super(String),
    /// A class is not defined.
    Class(String),
    /// A method is not defined.
    Method(String),
    /// A module is not defined.
    Module(String),
    /// A global constant is not defined.
    GlobalConstant(String),
    /// A class constant is not defined.
    ClassConstant(String),
    /// A module constant is not defined.
    ModuleConstant(String),
}

impl NotDefinedError {
    /// A missing enclosing scope named `item`.
    pub fn enclosing_scope(item: String) -> (r: Self)
        ensures
            r == NotDefinedError::EnclosingScope(item),
    {
        NotDefinedError::EnclosingScope(item)
    }

    /// A missing super class named `item`.
    pub fn super_class(item: String) -> (r: Self)
        ensures
            r == NotDefinedError::Super(item),
    {
        NotDefinedError::Super(item)
    }

    /// A missing class named `item`.
    pub fn class(item: String) -> (r: Self)
        ensures
            r == NotDefinedError::Class(item),
    {
        NotDefinedError::Class(item)
    }

    /// A missing method named `item`.
    pub fn method(item: String) -> (r: Self)
        ensures
            r == NotDefinedError::Method(item),
    {
        NotDefinedError::Method(item)
    }

    /// A missing module named `item`.
    pub fn module(item: String) -> (r: Self)
        ensures
            r == NotDefinedError::Module(item),
    {
        NotDefinedError::Module(item)
    }

    /// A missing global constant named `item`.
    pub fn global_constant(item: String) -> (r: Self)
        ensures
            r == NotDefinedError::GlobalConstant(item),
    {
        NotDefinedError::GlobalConstant(item)
    }

    /// A missing class constant named `item`.
    pub fn class_constant(item: String) -> (r: Self)
        ensures
            r == NotDefinedError::ClassConstant(item),
    {
        NotDefinedError::ClassConstant(item)
    }

    /// A missing module constant named `item`.
    pub fn module_constant(item: String) -> (r: Self)
        ensures
            r == NotDefinedError::ModuleConstant(item),
    {
        NotDefinedError::ModuleConstant(item)
    }

    /// The fully qualified name of the item that was not defined.
    pub open spec fn fqdn_spec(self) -> Seq<char> {
        match self {
            NotDefinedError::EnclosingScope(s) => s@,
            NotDefinedError::Super(s) => s@,
            NotDefinedError::Class(s) => s@,
            NotDefinedError::Method(s) => s@,
            NotDefinedError::Module(s) => s@,
            NotDefinedError::GlobalConstant(s) => s@,
            NotDefinedError::ClassConstant(s) => s@,
            NotDefinedError::ModuleConstant(s) => s@,
        }
    }

    /// The fully qualified name of the item that was not defined.
    pub fn fqdn(&self) -> (r: &str)
        ensures
            r@ == self.fqdn_spec(),
    {
        match self {
            NotDefinedError::EnclosingScope(s) => s.as_str(),
            NotDefinedError::Super(s) => s.as_str(),
            NotDefinedError::Class(s) => s.as_str(),
            NotDefinedError::Method(s) => s.as_str(),
            NotDefinedError::Module(s) => s.as_str(),
            NotDefinedError::GlobalConstant(s) => s.as_str(),
            NotDefinedError::ClassConstant(s) => s.as_str(),
            NotDefinedError::ModuleConstant(s) => s.as_str(),
        }
    }

    /// The kind of item that was not defined.
    pub open spec fn item_type_spec(self) -> Seq<char> {
        match self {
            NotDefinedError::EnclosingScope(_) => "enclosing scope"@,
            NotDefinedError::Super(_) => "super class"@,
            NotDefinedError::Class(_) => "class"@,
            NotDefinedError::Method(_) => "method"@,
            NotDefinedError::Module(_) => "module"@,
            NotDefinedError::GlobalConstant(_) => "global constant"@,
            NotDefinedError::ClassConstant(_) => "class constant"@,
            NotDefinedError::ModuleConstant(_) => "module constant"@,
        }
    }

    /// The kind of item that was not defined.
    pub fn item_type(&self) -> (r: &'static str)
        ensures
            r@ == self.item_type_spec(),
    {
        match self {
            NotDefinedError::EnclosingScope(_) => "enclosing scope",
            NotDefinedError::Super(_) => "super class",
            NotDefinedError::Class(_) => "class",
            NotDefinedError::Method(_) => "method",
            NotDefinedError::Module(_) => "module",
            NotDefinedError::GlobalConstant(_) => "global constant",
            NotDefinedError::ClassConstant(_) => "class constant",
            NotDefinedError::ModuleConstant(_) => "module constant",
        }
    }

    /// The message this error surfaces to the guest: the item kind followed
    /// by the fully qualified name that was not defined.
    pub fn message(&self) -> (r: String)
        ensures
            r@ == self.item_type_spec() + " "@ + self.fqdn_spec() + " not defined"@,
    {
        let mut message = String::from_str(self.item_type());
        message.append(" ");
        message.append(self.fqdn());
        message.append(" not defined");
        message
    }

    /// The message with the fully qualified name quoted, as shown to a human
    /// reader rather than to the guest exception constructor.
    pub fn display_string(&self) -> (r: String)
        ensures
            r@ == self.item_type_spec() + " '"@ + self.fqdn_spec() + "' not defined"@,
    {
        let mut message = String::from_str(self.item_type());
        message.append(" '");
        message.append(self.fqdn());
        message.append("' not defined");
        message
    }

    /// The guest exception class this error surfaces as.
    pub fn name(&self) -> (r: &'static str)
        ensures
            r@ == "ScriptError"@,
    {
        "ScriptError"
    }
}

} // verus!

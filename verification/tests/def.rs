//! Scope resolution, fully qualified names, and identity errors.

use artichoke_bridge::class;
use artichoke_bridge::def::{box_unbox_free, ConstantNameError, EnclosingRubyScope, NotDefinedError};
use artichoke_bridge::interp::Interp;
use artichoke_bridge::module;

#[test]
fn integration_test() {
    // Setup: define module and class hierarchy
    //
    // `A`, `A::B`, `A::C`, `A::B::D`, `A::C::E`, `A::C::F`
    let mut interp = Interp::new();
    let root = module::Spec::new(&mut interp, "A", None).unwrap();
    let mod_under_root =
        module::Spec::new(&mut interp, "B", Some(EnclosingRubyScope::module(&root))).unwrap();
    let cls_under_root = class::Spec::new("C", Some(EnclosingRubyScope::module(&root))).unwrap();
    let cls_under_mod =
        class::Spec::new("D", Some(EnclosingRubyScope::module(&mod_under_root))).unwrap();
    let mod_under_cls = module::Spec::new(
        &mut interp,
        "E",
        Some(EnclosingRubyScope::class(&cls_under_root)),
    )
    .unwrap();
    let cls_under_cls =
        class::Spec::new("F", Some(EnclosingRubyScope::class(&cls_under_root))).unwrap();
    interp.define_module(&root).unwrap();
    interp.define_module(&mod_under_root).unwrap();
    interp.define_class(&cls_under_root).unwrap();
    interp.define_class(&cls_under_mod).unwrap();
    interp.define_module(&mod_under_cls).unwrap();
    interp.define_class(&cls_under_cls).unwrap();

    assert_eq!(root.fqname().as_str(), "A");
    assert_eq!(mod_under_root.fqname().as_str(), "A::B");
    assert_eq!(cls_under_root.fqname().as_str(), "A::C");
    assert_eq!(cls_under_mod.fqname().as_str(), "A::B::D");
    assert_eq!(mod_under_cls.fqname().as_str(), "A::C::E");
    assert_eq!(cls_under_cls.fqname().as_str(), "A::C::F");

    // Every definition resolves against the class table.
    assert!(root.rclass(&interp).is_some());
    assert!(mod_under_root.rclass(&interp).is_some());
    assert!(cls_under_root.rclass(&interp).is_some());
    assert!(cls_under_mod.rclass(&interp).is_some());
    assert!(mod_under_cls.rclass(&interp).is_some());
    assert!(cls_under_cls.rclass(&interp).is_some());
}

#[test]
fn fqname_nested_scopes() {
    let mut interp = Interp::new();
    let a = module::Spec::new(&mut interp, "A", None).unwrap();
    let b = module::Spec::new(&mut interp, "B", Some(EnclosingRubyScope::module(&a))).unwrap();
    let d = class::Spec::new("D", Some(EnclosingRubyScope::module(&b))).unwrap();
    assert_eq!(d.fqname().as_str(), "A::B::D");
    let c = class::Spec::new("C", Some(EnclosingRubyScope::module(&a))).unwrap();
    let e = module::Spec::new(&mut interp, "E", Some(EnclosingRubyScope::class(&c))).unwrap();
    assert_eq!(e.fqname().as_str(), "A::C::E");
}

#[test]
fn unresolved_scope_is_recoverable() {
    let mut interp = Interp::new();
    // `Missing` is never defined, so defining a class under it fails with
    // a NotDefinedError naming the enclosing scope, not a process fault.
    let missing = class::Spec::new("Missing", None).unwrap();
    let nested = class::Spec::new("Nested", Some(EnclosingRubyScope::class(&missing))).unwrap();
    let err = interp.define_class(&nested).unwrap_err();
    assert_eq!(err.item_type(), "enclosing scope");
    assert_eq!(err.fqdn(), "Missing");
    assert_eq!(err.message().as_str(), "enclosing scope Missing not defined");
    assert_eq!(err.display_string().as_str(), "enclosing scope 'Missing' not defined");
    assert_eq!(err.name(), "ScriptError");
}

#[test]
fn resolution_tracks_later_definitions() {
    let mut interp = Interp::new();
    let spec = class::Spec::new("Late", None).unwrap();
    assert!(spec.rclass(&interp).is_none());
    interp.define_class(&spec).unwrap();
    assert!(spec.rclass(&interp).is_some());
}

#[test]
fn nul_byte_names_are_rejected() {
    let mut interp = Interp::new();
    let err = class::Spec::new("bad\0name", None).unwrap_err();
    assert_eq!(err.item_name(), "bad\0name");
    assert_eq!(err.message(), "Invalid constant name contained a NUL byte");
    assert_eq!(err.name(), "NameError");
    assert!(module::Spec::new(&mut interp, "also\0bad", None).is_err());
    let empty = ConstantNameError::new();
    assert_eq!(empty.item_name(), "");
}

#[test]
fn module_scope_carries_the_interned_symbol() {
    let mut interp = Interp::new();
    let spec = module::Spec::new(&mut interp, "A", None).unwrap();
    match EnclosingRubyScope::module(&spec) {
        EnclosingRubyScope::Module(scope) => {
            assert_eq!(scope.name_symbol, spec.name_symbol());
        }
        other => panic!("unexpected scope: {:?}", other),
    }
}

#[test]
fn not_defined_error_variants() {
    let cases: Vec<(NotDefinedError, &str)> = vec![
        (NotDefinedError::enclosing_scope(String::from("A")), "enclosing scope"),
        (NotDefinedError::super_class(String::from("A")), "super class"),
        (NotDefinedError::class(String::from("A")), "class"),
        (NotDefinedError::method(String::from("m")), "method"),
        (NotDefinedError::module(String::from("A")), "module"),
        (NotDefinedError::global_constant(String::from("K")), "global constant"),
        (NotDefinedError::class_constant(String::from("K")), "class constant"),
        (NotDefinedError::module_constant(String::from("K")), "module constant"),
    ];
    for (err, item_type) in cases {
        assert_eq!(err.item_type(), item_type);
        assert_eq!(err.name(), "ScriptError");
    }
    let err = NotDefinedError::method(String::from("foo"));
    assert_eq!(err.fqdn(), "foo");
    assert_eq!(err.message().as_str(), "method foo not defined");
}

#[test]
fn finalizer_tolerates_missing_payload() {
    let mut interp = Interp::new();
    assert_eq!(interp.anomalies, 0);
    box_unbox_free(&mut interp, None);
    assert_eq!(interp.anomalies, 1);
}

#[test]
fn finalizer_reclaims_payload_exactly_once() {
    let mut interp = Interp::new();
    let class_spec = class::Spec::new("Boxed", None).unwrap();
    let class = interp.define_class(&class_spec).unwrap();
    let sp = interp.create_arena_savepoint();
    let _value = interp.box_value(class, b"payload".to_vec());
    assert!(!interp.boxed[0].finalized);
    // Dropping the root and collecting reclaims the envelope; the
    // collector finalizes the payload exactly once.
    interp.restore(sp);
    interp.full_gc();
    assert!(interp.boxed[0].finalized);
    assert!(interp.boxed[0].data.is_empty());
}

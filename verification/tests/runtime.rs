//! Interpreter initialization, boxing, rendering and manifest
//! evaluation, end to end over the public surface.

use artichoke_bridge::class;
use artichoke_bridge::error::Error;
use artichoke_bridge::extn::{init, parse_int, ReleaseMetadata};
use artichoke_bridge::interp::Interp;
use artichoke_bridge::ruby::load_error;
use artichoke_bridge::spec_runner::{is_require_path, Config, Family, Suite, SuiteEntry};
use artichoke_bridge::value::Value;

fn metadata<'a>() -> ReleaseMetadata<'a> {
    ReleaseMetadata {
        ruby_copyright: "a copyright notice",
        ruby_description: "a guest interpreter",
        ruby_engine: "artichoke",
        ruby_engine_version: "0.1.0",
        ruby_patchlevel: "0",
        ruby_platform: "host",
        ruby_release_date: "2021-01-01",
        ruby_revision: "1",
        ruby_version: "2.6.3",
        artichoke_compiler_version: "rustc",
    }
}

#[test]
fn init_defines_release_metadata_constants() {
    let mut interp = Interp::new();
    init(&mut interp, metadata()).unwrap();
    let copyright = interp.get_global_constant("RUBY_COPYRIGHT").unwrap();
    assert!(interp.string_frozen(&copyright));
    assert_eq!(
        interp.try_convert_mut_bytes(copyright).unwrap(),
        b"a copyright notice".to_vec()
    );
    let engine = interp.get_global_constant("RUBY_ENGINE").unwrap();
    assert_eq!(interp.try_convert_mut_string(engine).unwrap(), "artichoke");
    let patchlevel = interp.get_global_constant("RUBY_PATCHLEVEL").unwrap();
    assert_eq!(interp.try_convert_int(patchlevel).unwrap(), 0);
    let revision = interp.get_global_constant("RUBY_REVISION").unwrap();
    assert_eq!(interp.try_convert_int(revision).unwrap(), 1);
    assert!(interp.get_global_constant("ARTICHOKE_COMPILER_VERSION").is_some());
    assert!(interp.get_global_constant("NO_SUCH_CONSTANT").is_none());
}

#[test]
fn init_rejects_non_decimal_patchlevel() {
    let mut interp = Interp::new();
    let mut config = metadata();
    config.ruby_patchlevel = "garbage";
    let err = init(&mut interp, config).unwrap_err();
    assert_eq!(err.name(), "ScriptError");
    assert_eq!(err.message(), b"global constant RUBY_PATCHLEVEL not defined".to_vec());
    // Definition stops at the first failure: the constants ordered before
    // the patch level are installed, the rest are not.
    assert!(interp.get_global_constant("RUBY_ENGINE_VERSION").is_some());
    assert!(interp.get_global_constant("RUBY_PATCHLEVEL").is_none());
    assert!(interp.get_global_constant("RUBY_PLATFORM").is_none());
    assert!(interp.get_global_constant("ARTICHOKE_COMPILER_VERSION").is_none());
}

#[test]
fn init_rejects_non_decimal_revision() {
    let mut interp = Interp::new();
    let mut config = metadata();
    config.ruby_revision = "not a number";
    let err = init(&mut interp, config).unwrap_err();
    assert_eq!(err.message(), b"global constant RUBY_REVISION not defined".to_vec());
    // The constants ordered before the revision are installed, the rest
    // are not.
    assert!(interp.get_global_constant("RUBY_PATCHLEVEL").is_some());
    assert!(interp.get_global_constant("RUBY_RELEASE_DATE").is_some());
    assert!(interp.get_global_constant("RUBY_REVISION").is_none());
    assert!(interp.get_global_constant("RUBY_VERSION").is_none());
}

#[test]
fn init_surfaces_errors_as_guest_exceptions() {
    let mut interp = Interp::new();
    init(&mut interp, metadata()).unwrap();
    // The exception classes the bridge surfaces errors through can be
    // instantiated after initialization.
    let message = interp.convert_mut_str("boom");
    let exception = interp.new_instance("TypeError", vec![message]).unwrap();
    assert!(matches!(exception, Value::Object(_)));
    assert!(interp.new_instance("NoSuchClass", Vec::new()).is_none());
}

#[test]
fn parse_int_accepts_decimal_numbers() {
    assert_eq!(parse_int("0"), Some(0));
    assert_eq!(parse_int("123456789"), Some(123456789));
    assert_eq!(parse_int("-45"), Some(-45));
    assert_eq!(parse_int("+7"), Some(7));
    assert_eq!(parse_int(""), None);
    assert_eq!(parse_int("-"), None);
    assert_eq!(parse_int("12a"), None);
    assert_eq!(parse_int("999999999999999999999"), None);
}

#[test]
fn parse_int_covers_the_full_machine_word() {
    assert_eq!(parse_int("9223372036854775807"), Some(i64::MAX));
    assert_eq!(parse_int("-9223372036854775808"), Some(i64::MIN));
    assert_eq!(parse_int("9223372036854775808"), None);
    assert_eq!(parse_int("-9223372036854775809"), None);
    assert_eq!(parse_int("0009223372036854775807"), Some(i64::MAX));
    assert_eq!(parse_int("18446744073709551616"), None);
}

#[test]
fn box_and_unbox_by_class_identity() {
    let mut interp = Interp::new();
    let class_a = interp
        .define_class(&class::Spec::new("NativeA", None).unwrap())
        .unwrap();
    let class_b = interp
        .define_class(&class::Spec::new("NativeB", None).unwrap())
        .unwrap();
    let payload = b"host heap data".to_vec();
    let boxed = interp.box_value(class_a, payload.clone());
    // Unboxing as the boxing class yields a value equal to the original.
    assert_eq!(interp.unbox(&boxed, class_a).unwrap(), &payload);
    // Unboxing as a distinct registered class fails the identity check.
    match interp.unbox(&boxed, class_b).unwrap_err() {
        Error::BoxedClass(err) => {
            assert_eq!(err.expected, b"NativeB".to_vec());
            assert_eq!(err.observed, b"NativeA".to_vec());
            assert_eq!(
                err.message(),
                b"expected boxed NativeB, found NativeA".to_vec()
            );
        }
        other => panic!("unexpected error: {:?}", other),
    }
    // Unboxing a value that is not a boxed object is a conversion error.
    let err = interp.unbox(&Value::Fixnum(3), class_a).unwrap_err();
    assert_eq!(err.name(), "TypeError");
}

#[test]
fn rendering_values() {
    let mut interp = Interp::new();
    assert_eq!(Value::Nil.to_s(&interp), Vec::<u8>::new());
    assert_eq!(Value::Nil.inspect(&interp), b"nil".to_vec());
    assert_eq!(Value::Bool(true).to_s(&interp), b"true".to_vec());
    assert_eq!(Value::Bool(false).to_s(&interp), b"false".to_vec());
    assert_eq!(Value::Fixnum(42).to_s(&interp), b"42".to_vec());
    assert_eq!(Value::Fixnum(-5).to_s(&interp), b"-5".to_vec());
    assert_eq!(Value::Fixnum(i64::MIN).to_s(&interp), b"-9223372036854775808".to_vec());
    let s = interp.convert_mut_bytes(b"a\"b\\c\nd\x01".to_vec());
    assert_eq!(s.to_s(&interp), b"a\"b\\c\nd\x01".to_vec());
    assert_eq!(s.inspect(&interp), b"\"a\\\"b\\\\c\\nd\\x01\"".to_vec());
}

#[test]
fn argv_injection() {
    let mut interp = Interp::new();
    interp
        .define_argv(vec![b"one".to_vec(), b"two".to_vec()])
        .unwrap();
    let argv = interp.get_global_constant("ARGV").unwrap();
    let items = interp.try_convert_mut_to_bytes_vec(argv).unwrap();
    assert_eq!(items, vec![b"one".to_vec(), b"two".to_vec()]);
}

#[test]
fn load_error_escapes_the_path() {
    let rendered = load_error(b"spec/fix\xFFture", "No such file or directory");
    assert_eq!(
        rendered,
        b"No such file or directory -- spec/fix\\xFFture".to_vec()
    );
}

fn manifest() -> Config {
    Config {
        families: vec![
            Family {
                name: String::from("core"),
                suites: vec![SuiteEntry {
                    name: String::from("array"),
                    suite: Suite::Only {
                        specs: vec![
                            String::from("any"),
                            String::from("append"),
                            String::from("drop"),
                        ],
                    },
                }],
            },
            Family {
                name: String::from("library"),
                suites: vec![
                    SuiteEntry {
                        name: String::from("stringscanner"),
                        suite: Suite::All { skip: None },
                    },
                    SuiteEntry {
                        name: String::from("time"),
                        suite: Suite::NotRun,
                    },
                    SuiteEntry {
                        name: String::from("uri"),
                        suite: Suite::All {
                            skip: Some(vec![String::from("parse")]),
                        },
                    },
                ],
            },
        ],
    }
}

#[test]
fn is_require_path_follows_the_manifest() {
    let config = manifest();
    assert!(is_require_path(&config, "core/array/any_spec.rb"));
    assert!(is_require_path(&config, "core/array/append_spec.rb"));
    assert!(!is_require_path(&config, "core/array/flatten_spec.rb"));
    assert!(!is_require_path(&config, "core/string/upcase_spec.rb"));
    assert!(is_require_path(&config, "library/stringscanner/scan_spec.rb"));
    assert!(!is_require_path(&config, "library/time/now_spec.rb"));
    assert!(is_require_path(&config, "library/uri/join_spec.rb"));
    assert!(!is_require_path(&config, "library/uri/parse_spec.rb"));
    assert!(!is_require_path(&config, "unknown/array/any_spec.rb"));
    assert!(!is_require_path(&config, "toplevel_file.rb"));
    assert!(!is_require_path(&config, "core/array"));
    // A trailing separator leaves no spec component to evaluate.
    assert!(!is_require_path(&config, "library/stringscanner/"));
    assert!(!is_require_path(&config, "core/array/"));
}

#[test]
fn uri_registration() {
    let mut interp = Interp::new();
    artichoke_bridge::uri::init(&mut interp).unwrap();
    assert!(class::Spec::new("IPSocket", None)
        .unwrap()
        .rclass(&interp)
        .is_some());
    assert!(class::Spec::new("IPAddr", None)
        .unwrap()
        .rclass(&interp)
        .is_some());
}

#[test]
fn rendering_heap_objects() {
    let mut interp = Interp::new();
    let class = interp
        .define_class(&class::Spec::new("Widget", None).unwrap())
        .unwrap();
    let object = interp.alloc_object(b"Thing".to_vec(), Vec::new());
    assert_eq!(object.to_s(&interp), b"#<Thing>".to_vec());
    assert_eq!(object.inspect(&interp), b"#<Thing>".to_vec());
    let boxed = interp.box_value(class, b"data".to_vec());
    assert_eq!(boxed.to_s(&interp), b"#<Widget>".to_vec());
    let ary = interp.try_convert_mut_int_vec(vec![1]).unwrap();
    assert_eq!(ary.to_s(&interp), b"#<Array>".to_vec());
}

#[test]
fn close_finalizes_every_live_payload() {
    let mut interp = Interp::new();
    let class = interp
        .define_class(&class::Spec::new("Boxed", None).unwrap())
        .unwrap();
    let _first = interp.box_value(class, b"one".to_vec());
    let _second = interp.box_value(class, b"two".to_vec());
    interp.close();
    assert!(interp.boxed[0].finalized);
    assert!(interp.boxed[1].finalized);
}

#[test]
fn symbols_intern_once() {
    let mut interp = Interp::new();
    let a = interp.intern_symbol(b"name");
    let b = interp.intern_symbol(b"other");
    let c = interp.intern_symbol(b"name");
    assert_eq!(a, c);
    assert_ne!(a, b);
}

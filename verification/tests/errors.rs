//! Error surfacing: messages, guest exception class names, and
//! propagation into guest exception objects.

use artichoke_bridge::def::ConstantNameError;
use artichoke_bridge::error::Error;
use artichoke_bridge::extn::{init, ReleaseMetadata};
use artichoke_bridge::interp::Interp;
use artichoke_bridge::ruby::{execution_mode, ExecutionMode};
use artichoke_bridge::types::{Ruby, Rust};
use artichoke_bridge::value::Value;

#[test]
fn error_messages_name_the_offending_types() {
    let err = Error::Unbox(artichoke_bridge::error::UnboxRubyError {
        from: Ruby::Nil,
        into: Rust::String,
    });
    assert_eq!(err.name(), "TypeError");
    assert_eq!(err.message(), b"failed to convert from NilClass into string".to_vec());

    let err = Error::ZeroDivision;
    assert_eq!(err.message(), b"divided by 0".to_vec());

    let err = Error::ConstantName(ConstantNameError::from(String::from("BAD\0NAME")));
    assert_eq!(err.name(), "NameError");
    assert_eq!(err.message(), b"Invalid constant name contained a NUL byte".to_vec());
}

#[test]
fn errors_surface_as_guest_exceptions() {
    let mut interp = Interp::new();
    init(
        &mut interp,
        ReleaseMetadata {
            ruby_copyright: "c",
            ruby_description: "d",
            ruby_engine: "e",
            ruby_engine_version: "1",
            ruby_patchlevel: "0",
            ruby_platform: "p",
            ruby_release_date: "r",
            ruby_revision: "2",
            ruby_version: "v",
            artichoke_compiler_version: "a",
        },
    )
    .unwrap();
    let err = Error::ZeroDivision;
    let exception = err.as_guest_value(&mut interp).unwrap();
    assert!(matches!(exception, Value::Object(_)));
    // The exception object carries the message as its constructor
    // argument, reachable through the object's slot.
    match exception {
        Value::Object(id) => match &interp.heap[id] {
            artichoke_bridge::interp::HeapSlot::Object { class_name, args } => {
                assert_eq!(class_name, &b"ZeroDivisionError".to_vec());
                assert_eq!(args.len(), 1);
                let message = interp.try_convert_mut_bytes(args[0]).unwrap();
                assert_eq!(message, b"divided by 0".to_vec());
            }
            other => panic!("unexpected slot: {:?}", other),
        },
        other => panic!("unexpected value: {:?}", other),
    }
    // Without the class table entry, surfacing is refused, not fatal.
    let mut bare = Interp::new();
    assert!(Error::ZeroDivision.as_guest_value(&mut bare).is_none());
}

#[test]
fn execution_mode_dispatch() {
    let no_commands: Vec<Vec<u8>> = Vec::new();
    let commands = vec![b"2 + 7".to_vec()];
    assert_eq!(
        execution_mode(true, &commands, &None),
        ExecutionMode::PrintCopyright
    );
    assert_eq!(
        execution_mode(false, &commands, &None),
        ExecutionMode::InlineEval
    );
    assert_eq!(
        execution_mode(false, &no_commands, &Some(b"program.rb".to_vec())),
        ExecutionMode::ProgramFile
    );
    assert_eq!(
        execution_mode(false, &no_commands, &Some(b"-".to_vec())),
        ExecutionMode::Stdin
    );
    assert_eq!(execution_mode(false, &no_commands, &None), ExecutionMode::Stdin);
}

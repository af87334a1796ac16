//! Conversion protocol behavior, observed through the public surface.

use artichoke_bridge::interp::Interp;
use artichoke_bridge::value::Value;
use artichoke_bridge::error::Error;

#[test]
fn array_fail_convert() {
    let mut interp = Interp::new();
    // get a guest value that can't be converted to a primitive type.
    let value = interp.alloc_object(b"Object".to_vec(), Vec::new());
    let result = interp.try_convert_mut_to_value_vec(value);
    assert!(result.is_err());
}

#[test]
fn string_fail_convert() {
    let mut interp = Interp::new();
    // get a guest value that can't be converted to a primitive type.
    let value = interp.alloc_object(b"Object".to_vec(), Vec::new());
    let result = interp.try_convert_mut_string(value);
    assert!(result.is_err());
}

#[test]
fn bytes_round_trip() {
    let mut interp = Interp::new();
    let payload: Vec<u8> = vec![0, 159, 146, 150, 65, 66];
    let value = interp.convert_mut_bytes(payload.clone());
    let recovered = interp.try_convert_mut_bytes(value).unwrap();
    assert_eq!(recovered, payload);
}

#[test]
fn string_round_trip_owned_and_borrowed() {
    let mut interp = Interp::new();
    let s = String::from("artichoke crate");
    let owned = interp.convert_mut_string(s.clone());
    let recovered = interp.try_convert_mut_string(owned).unwrap();
    assert_eq!(recovered, s);
    let borrowed = interp.convert_mut_str(s.as_str());
    let recovered = interp.try_convert_mut_string(borrowed).unwrap();
    assert_eq!(recovered, s);
}

#[test]
fn string_conversion_rejects_binary() {
    let mut interp = Interp::new();
    let value = interp.convert_mut_bytes(vec![0xFF, 0xFE]);
    let result = interp.try_convert_mut_string(value);
    assert!(result.is_err());
    // The same guest string still reads back fine as bytes.
    let recovered = interp.try_convert_mut_bytes(value).unwrap();
    assert_eq!(recovered, vec![0xFF, 0xFE]);
}

#[test]
fn int_round_trip() {
    let interp = Interp::new();
    let value = interp.convert_int(-42);
    assert_eq!(interp.try_convert_int(value).unwrap(), -42);
}

#[test]
fn bool_round_trip() {
    let interp = Interp::new();
    let value = interp.convert_bool(true);
    assert_eq!(interp.try_convert_bool(value).unwrap(), true);
    let value = interp.convert_bool(false);
    assert_eq!(interp.try_convert_bool(value).unwrap(), false);
}

#[test]
fn arr_int_owned_and_borrowed() {
    let mut interp = Interp::new();
    let arr: Vec<i64> = vec![3, -1, 0, i64::MAX, i64::MIN];
    // Borrowed converter
    let value = interp.try_convert_mut_int_slice(arr.as_slice()).unwrap();
    assert_eq!(interp.array_len(&value), arr.len());
    assert!(!interp.array_is_empty(&value));
    let recovered = interp.try_convert_mut_to_int_vec(value).unwrap();
    assert_eq!(recovered, arr);
    // Owned converter
    let value = interp.try_convert_mut_int_vec(arr.to_vec()).unwrap();
    assert_eq!(interp.array_len(&value), arr.len());
    let recovered = interp.try_convert_mut_to_int_vec(value).unwrap();
    assert_eq!(recovered, arr);
}

#[test]
fn arr_empty_reports_empty() {
    let mut interp = Interp::new();
    let arr: Vec<i64> = Vec::new();
    let value = interp.try_convert_mut_int_vec(arr).unwrap();
    assert_eq!(interp.array_len(&value), 0);
    assert!(interp.array_is_empty(&value));
}

#[test]
fn arr_utf8_owned_and_borrowed() {
    let mut interp = Interp::new();
    let arr: Vec<String> = vec![String::from("a"), String::new(), String::from("artichoke")];
    let value = interp.try_convert_mut_string_vec(arr.clone()).unwrap();
    assert_eq!(interp.array_len(&value), arr.len());
    let recovered = interp.try_convert_mut_to_bytes_vec(value).unwrap();
    let expected: Vec<Vec<u8>> = arr.iter().map(|s| s.as_bytes().to_vec()).collect();
    assert_eq!(recovered, expected);
    let value = interp.try_convert_mut_string_slice(arr.as_slice()).unwrap();
    let recovered = interp.try_convert_mut_to_bytes_vec(value).unwrap();
    assert_eq!(recovered, expected);
}

#[test]
fn arr_utf8_reads_back_as_strings() {
    let mut interp = Interp::new();
    let arr: Vec<String> = vec![String::from("alpha"), String::from("beta")];
    let value = interp.try_convert_mut_string_vec(arr.clone()).unwrap();
    let recovered = interp.try_convert_mut_to_string_vec(value).unwrap();
    assert_eq!(recovered, arr);
    // Binary contents stop the string read-back but not the byte one.
    let binary = interp.convert_mut_bytes(vec![0xFF]);
    let mixed = interp.try_convert_mut_value_vec(vec![binary]).unwrap();
    assert!(interp.try_convert_mut_to_string_vec(mixed).is_err());
    assert!(interp.try_convert_mut_to_bytes_vec(mixed).is_ok());
}

#[test]
fn arr_nilable_bstr_round_trip() {
    let mut interp = Interp::new();
    let arr: Vec<Option<Vec<u8>>> = vec![Some(b"one".to_vec()), None, Some(Vec::new())];
    let value = interp.try_convert_mut_nilable_bytes_vec(arr.clone()).unwrap();
    assert_eq!(interp.array_len(&value), arr.len());
    let recovered = interp.try_convert_mut_to_nilable_bytes_vec(value).unwrap();
    assert_eq!(recovered, arr);
}

#[test]
fn arr_nilable_bstr_borrowed() {
    let mut interp = Interp::new();
    let arr: Vec<Option<Vec<u8>>> = vec![None, Some(b"two".to_vec()), None];
    let value = interp
        .try_convert_mut_nilable_bytes_slice(arr.as_slice())
        .unwrap();
    assert_eq!(interp.array_len(&value), arr.len());
    let recovered = interp.try_convert_mut_to_nilable_bytes_vec(value).unwrap();
    assert_eq!(recovered, arr);
}

#[test]
fn nilable_bytes_scalar() {
    let mut interp = Interp::new();
    let value = interp.convert_mut_nilable_bytes(None);
    assert_eq!(value, Value::Nil);
    assert_eq!(interp.try_convert_mut_nilable_bytes(value).unwrap(), None);
    let value = interp.convert_mut_nilable_bytes(Some(b"payload".to_vec()));
    assert_eq!(
        interp.try_convert_mut_nilable_bytes(value).unwrap(),
        Some(b"payload".to_vec())
    );
}

#[test]
fn nested_sequences_convert_element_wise() {
    let mut interp = Interp::new();
    let nested: Vec<Vec<Option<Vec<u8>>>> = vec![
        vec![Some(b"a".to_vec()), None],
        Vec::new(),
        vec![Some(Vec::new())],
    ];
    let outer = interp
        .try_convert_mut_nested_nilable_bytes_vec(nested.clone())
        .unwrap();
    assert_eq!(interp.array_len(&outer), nested.len());
    let inner_values = interp.try_convert_mut_to_value_vec(outer).unwrap();
    for (k, inner_value) in inner_values.into_iter().enumerate() {
        let inner = interp.try_convert_mut_to_nilable_bytes_vec(inner_value).unwrap();
        assert_eq!(inner, nested[k]);
    }
}

#[test]
fn roundtrip_err() {
    let mut interp = Interp::new();
    let value = interp.convert_int(7);
    let result = interp.try_convert_mut_to_value_vec(value);
    assert!(result.is_err());
    match result.unwrap_err() {
        Error::Unbox(err) => {
            assert_eq!(err.name(), "TypeError");
            assert_eq!(err.message().as_str(), "failed to convert from Integer into vec");
        }
        other => panic!("unexpected error: {:?}", other),
    }
}

#[test]
fn element_failure_aborts_traversal() {
    let mut interp = Interp::new();
    let string_value = interp.convert_mut_str("not a number");
    let items = vec![Value::Fixnum(1), string_value, Value::Fixnum(2)];
    let ary = interp.try_convert_mut_value_vec(items).unwrap();
    let result = interp.try_convert_mut_to_int_vec(ary);
    match result.unwrap_err() {
        Error::Unbox(err) => {
            // The first incompatible element decides the error.
            assert_eq!(err.from, artichoke_bridge::types::Ruby::String);
        }
        other => panic!("unexpected error: {:?}", other),
    }
}

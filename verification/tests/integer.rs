//! Guest integer behavior: division, bit extraction, character
//! conversion.

use artichoke_bridge::error::Error;
use artichoke_bridge::integer::Integer;
use artichoke_bridge::interp::Interp;
use artichoke_bridge::numeric::Outcome;
use artichoke_bridge::value::Value;

#[test]
fn division_rounds_toward_negative_infinity() {
    let mut interp = Interp::new();
    let cases: Vec<(i64, i64, i64)> = vec![
        (7, 2, 3),
        (-7, 2, -4),
        (7, -2, -4),
        (-7, -2, 3),
        (6, 2, 3),
        (-6, 2, -3),
        (6, -2, -3),
        (-6, -2, 3),
        (0, 5, 0),
        (0, -5, 0),
        (i64::MIN, 1, i64::MIN),
        (i64::MAX, -1, -i64::MAX),
    ];
    for (numerator, denominator, expected) in cases {
        let result = Integer::from(numerator)
            .div(&mut interp, Value::Fixnum(denominator))
            .unwrap();
        assert_eq!(result, Outcome::Integer(expected), "{} / {}", numerator, denominator);
    }
}

#[test]
fn division_by_zero_raises_zero_division_error() {
    let mut interp = Interp::new();
    let err = Integer::from(1).div(&mut interp, Value::Fixnum(0)).unwrap_err();
    assert_eq!(err, Error::ZeroDivision);
    assert_eq!(err.name(), "ZeroDivisionError");
    let err = Integer::from(0).div(&mut interp, Value::Fixnum(0)).unwrap_err();
    assert_eq!(err.name(), "ZeroDivisionError");
}

#[test]
fn division_by_non_numeric_fails_to_coerce() {
    let mut interp = Interp::new();
    let err = Integer::from(10).div(&mut interp, Value::Nil).unwrap_err();
    assert_eq!(err.name(), "TypeError");
}

#[test]
fn bit_reads_twos_complement() {
    assert_eq!(Integer::from(0b1010).bit(1).unwrap().as_i64(), 1);
    assert_eq!(Integer::from(0b1010).bit(2).unwrap().as_i64(), 0);
    assert_eq!(Integer::from(-1).bit(63).unwrap().as_i64(), 1);
    assert_eq!(Integer::from(5).bit(64).unwrap().as_i64(), 0);
    assert_eq!(Integer::from(5).bit(-3).unwrap().as_i64(), 0);
}

#[test]
fn chr_produces_one_byte_strings() {
    let mut interp = Interp::new();
    assert_eq!(Integer::from(97).chr(&mut interp, None).unwrap(), vec![97u8]);
    assert_eq!(Integer::from(0).chr(&mut interp, None).unwrap(), vec![0u8]);
    assert_eq!(Integer::from(255).chr(&mut interp, None).unwrap(), vec![255u8]);
}

#[test]
fn chr_out_of_range_names_the_value() {
    let mut interp = Interp::new();
    let err = Integer::from(256).chr(&mut interp, None).unwrap_err();
    match err {
        Error::Range(message) => assert_eq!(message.as_str(), "256 out of char range"),
        other => panic!("unexpected error: {:?}", other),
    }
    let err = Integer::from(-1).chr(&mut interp, None).unwrap_err();
    match err {
        Error::Range(message) => assert_eq!(message.as_str(), "-1 out of char range"),
        other => panic!("unexpected error: {:?}", other),
    }
}

#[test]
fn chr_rejects_an_encoding_argument() {
    let mut interp = Interp::new();
    let encoding = interp.convert_mut_str("ASCII");
    let err = Integer::from(97).chr(&mut interp, Some(encoding)).unwrap_err();
    match err {
        Error::NotImplemented(message) => {
            assert_eq!(
                message,
                b"encoding parameter of Integer#chr (given \"ASCII\") not supported".to_vec()
            );
        }
        other => panic!("unexpected error: {:?}", other),
    }
}

#[test]
fn integer_basics() {
    assert_eq!(Integer::new().as_i64(), 0);
    assert_eq!(Integer::default().as_i64(), 0);
    assert_eq!(Integer::size(), 8);
    assert_eq!(Integer::from(17).as_i64(), 17);
    assert_eq!(i64::from(Integer::from(9)), 9);
    let interp = Interp::new();
    let value = interp.convert_int(Integer::from(23).as_i64());
    assert_eq!(interp.try_convert_int(value).unwrap(), 23);
}

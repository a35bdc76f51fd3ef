use grafen::io::GrafenIoError;
use grafen::output::{gromos_number, GROMOS_WRAP};
use std::io;

#[test]
fn io_errors_become_eof() {
    let err = io::Error::new(io::ErrorKind::NotFound, "no such file");
    match GrafenIoError::from(err) {
        GrafenIoError::EOF(text) => assert_eq!("Could not read file", text),
        other => panic!("unexpected error: {:?}", other),
    }
}

#[test]
fn integer_parse_errors_become_eof_with_their_description() {
    let err = "12a".parse::<u64>().unwrap_err();
    match GrafenIoError::from(err) {
        GrafenIoError::EOF(text) => assert_eq!("invalid digit found in string", text),
        other => panic!("unexpected error: {:?}", other),
    }
    let err = "".parse::<u64>().unwrap_err();
    match GrafenIoError::from(err) {
        GrafenIoError::EOF(text) => assert_eq!("cannot parse integer from empty string", text),
        other => panic!("unexpected error: {:?}", other),
    }
}

#[test]
fn float_parse_errors_become_eof_with_their_description() {
    let err = "1.0.0".parse::<f64>().unwrap_err();
    match GrafenIoError::from(err) {
        GrafenIoError::EOF(text) => assert_eq!("invalid float literal", text),
        other => panic!("unexpected error: {:?}", other),
    }
    let err = "".parse::<f64>().unwrap_err();
    match GrafenIoError::from(err) {
        GrafenIoError::EOF(text) => assert_eq!("cannot parse float from empty string", text),
        other => panic!("unexpected error: {:?}", other),
    }
}

#[test]
fn gromos_numbers_count_from_one_and_wrap() {
    assert_eq!(100_000, GROMOS_WRAP);
    assert_eq!(1, gromos_number(0));
    assert_eq!(2, gromos_number(1));
    assert_eq!(99_999, gromos_number(99_998));
    assert_eq!(0, gromos_number(99_999));
    assert_eq!(1, gromos_number(100_000));
    assert_eq!(12_346, gromos_number(312_345));
    assert_eq!(51_616, gromos_number(u64::MAX));
}

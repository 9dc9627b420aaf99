//! Tests of the error taxonomy and the short-circuiting result type.

use msica::{CustomActionResult, Engine, Error, ErrorKind, Field, Record};

#[test]
fn error_from_error_code() {
    let error = Error::from_error_code(1603);
    assert_eq!(ErrorKind::ErrorCode(1603), error.kind());
    assert_eq!("ErrorCode(1603)", error.to_string());
}

#[test]
fn errors_from_error_code() {
    let error = Error::from_error_code(1603);
    assert_eq!(ErrorKind::ErrorCode(1603), error.kind());
    assert_eq!("ErrorCode(1603)", error.to_string());
}

#[test]
fn error_from_record() {
    let mut engine = Engine::new();
    let record = Record::with_fields(
        &mut engine,
        Some("error [1]"),
        vec![Field::StringData("text".to_owned())],
    )
    .expect("failed to create record");
    let error = Error::from_error_record(&mut engine, record);
    assert_eq!(ErrorKind::ErrorRecord, error.kind());
    assert_eq!("error text", error.to_string());
}

#[test]
fn errors_from_record() {
    let mut engine = Engine::new();
    let record = Record::with_fields(
        &mut engine,
        Some("error [1]"),
        vec![Field::StringData("text".to_owned())],
    )
    .expect("failed to create record");
    let error = Error::from_error_record(&mut engine, record);
    assert_eq!(ErrorKind::ErrorRecord, error.kind());
    assert_eq!("error text", error.to_string());
}

#[test]
fn error_from_tryfrominterror() {
    let error: Error = u8::try_from(u32::MAX).unwrap_err().into();
    assert_eq!(ErrorKind::DataConversion, error.kind());
    assert_ne!("DataConversion", error.to_string());
}

#[test]
fn errors_from_tryfrominterror() {
    let error: Error = u8::try_from(u32::MAX).unwrap_err().into();
    assert_eq!(ErrorKind::DataConversion, error.kind());
    assert_ne!("DataConversion", error.to_string());
}

#[test]
fn error_from_fromutf8error() {
    let error: Error = String::from_utf8(vec![0, 159, 146, 150]).unwrap_err().into();
    assert_eq!(ErrorKind::DataConversion, error.kind());
    assert_ne!("DataConversion", error.to_string());
}

#[test]
fn errors_from_fromutf8error() {
    let error: Error = String::from_utf8(vec![0, 159, 146, 150]).unwrap_err().into();
    assert_eq!(ErrorKind::DataConversion, error.kind());
    assert_ne!("DataConversion", error.to_string());
}

#[test]
fn from_u32() {
    assert_eq!(CustomActionResult::Success, CustomActionResult::from(0u32));
    assert_eq!(CustomActionResult::Skip, CustomActionResult::from(259u32));
    assert_eq!(CustomActionResult::Cancel, CustomActionResult::from(1602u32));
    assert_eq!(CustomActionResult::NotExecuted, CustomActionResult::from(1626u32));
    assert_eq!(CustomActionResult::Failure, CustomActionResult::from(1603u32));
    assert_eq!(CustomActionResult::Failure, CustomActionResult::from(1u32));
}

#[test]
fn into_u32() {
    assert_eq!(0u32, CustomActionResult::Success.code());
    assert_eq!(259u32, CustomActionResult::Skip.code());
    assert_eq!(1602u32, CustomActionResult::Cancel.code());
    assert_eq!(1603u32, CustomActionResult::Failure.code());
    assert_eq!(1626u32, CustomActionResult::NotExecuted.code());
}

#[test]
fn from_residual_custom_action_result() {
    let f = || -> CustomActionResult { CustomActionResult::Skip };
    assert_eq!(259u32, f().code());
}

#[test]
fn from_residual_error() {
    let error = Error::from_error_code(1602u32);
    assert_eq!(1602u32, CustomActionResult::from_error(&error).code());

    let mut engine = Engine::new();
    let r = Record::with_fields(&mut engine, Some("error"), vec![])
        .expect("failed to create record");
    let error = Error::from_error_record(&mut engine, r);
    assert_eq!(1603u32, CustomActionResult::from_error(&error).code());
}

#[test]
fn from_residual_std_error() {
    let io_error = std::io::Error::from_raw_os_error(5);
    let error = Error::new(ErrorKind::Other, io_error.to_string());
    let f = || -> CustomActionResult { CustomActionResult::from_error(&error) };
    assert_eq!(1603u32, f().code());
}

#[test]
fn result_code_mapping() {
    // A propagated error collapses to exactly one of the non-success
    // outcomes: a carried status code by numeric equality, every other
    // kind to failure.
    let cancel = Error::from_error_code(1602);
    assert_eq!(CustomActionResult::Cancel, CustomActionResult::from_error(&cancel));
    let conversion = Error::new(ErrorKind::DataConversion, "bad data".to_owned());
    assert_eq!(CustomActionResult::Failure, CustomActionResult::from_error(&conversion));
    let mut engine = Engine::new();
    let record = Record::with_fields(&mut engine, Some("diagnostic"), vec![]).unwrap();
    let rich = Error::from_error_record(&mut engine, record);
    assert_eq!(CustomActionResult::Failure, CustomActionResult::from_error(&rich));
    let odd = Error::from_error_code(5);
    assert_eq!(CustomActionResult::Failure, CustomActionResult::from_error(&odd));
}

#[test]
fn result_describe() {
    assert_eq!("completed successfully", CustomActionResult::Success.describe());
    assert_eq!("user canceled installation", CustomActionResult::Cancel.describe());
}

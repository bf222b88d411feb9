use sys_info::result::{Error, Result, SUCCESS_CODE, SYS_ERROR_CODE};

#[test]
fn success_envelope() {
    let r = Result::success();
    assert_eq!(r.code, SUCCESS_CODE);
    assert_eq!(r.code, 0);
    assert_eq!(r.msg, "Success");
    assert!(r.data.is_none());
}

#[test]
fn error_envelope_carries_kind() {
    let r = Result::error(Error::sys_error());
    assert_eq!(r.code, SYS_ERROR_CODE);
    assert_eq!(r.code, 10001);
    assert_eq!(r.msg, "Error");
    assert!(r.data.is_none());
}

#[test]
fn error_description_appends_message() {
    let r = Result::error_description(Error::sys_error(), "disk unavailable");
    assert_eq!(r.code, 10001);
    assert_eq!(r.msg, "Error disk unavailable");
    assert!(r.msg.starts_with("Error"));
    assert!(r.data.is_none());
}

#[test]
fn success_return_data_carries_data() {
    let r = Result::success_return_data(vec![1u64, 2, 3]);
    assert_eq!(r.code, 0);
    assert_eq!(r.msg, "Success");
    assert_eq!(r.data, Some(vec![1u64, 2, 3]));
}

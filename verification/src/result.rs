//! The response envelope: every HTTP answer carries `{code, msg, data}`,
//! where code 0 is success and code 10001 is the generic system error.

use vstd::prelude::*;
use vstd::string::StringExecFns;

verus! {

/// Code of a successful response.
pub const SUCCESS_CODE: i32 = 0;

/// Code of the generic system-error response.
pub const SYS_ERROR_CODE: i32 = 10001;

/// The response envelope.
pub struct Result<T> {
    pub code: i32,
    pub msg: String,
    pub data: Option<T>,
}

/// An error kind: a response code together with its fixed message prefix.
pub struct Error {
    pub code: i32,
    pub message: String,
}

impl Error {
    /// The success kind: code 0, message "Success".
    pub fn success() -> (r: Error)
        ensures
            r.code == SUCCESS_CODE,
            r.msg_view() == "Success"@,
    {
        Error { code: SUCCESS_CODE, message: String::from_str("Success") }
    }

    /// The generic system-error kind: code 10001, message "Error".
    pub fn sys_error() -> (r: Error)
        ensures
            r.code == SYS_ERROR_CODE,
            r.msg_view() == "Error"@,
    {
        Error { code: SYS_ERROR_CODE, message: String::from_str("Error") }
    }

    /// The message prefix as a sequence of characters.
    pub open spec fn msg_view(self) -> Seq<char> {
        self.message@
    }
}

impl Result<()> {
    /// A bare success envelope, carrying no data.
    pub fn success() -> (r: Result<()>)
        ensures
            r.code == SUCCESS_CODE,
            r.msg@ == "Success"@,
            r.data is None,
    {
        let e = Error::success();
        Result { code: e.code, msg: e.message, data: None }
    }

    /// An error envelope for the given kind, carrying no data.
    pub fn error(e: Error) -> (r: Result<()>)
        ensures
            r.code == e.code,
            r.msg@ == e.msg_view(),
            r.data is None,
    {
        Result { code: e.code, msg: e.message, data: None }
    }

    /// An error envelope whose message is the kind's prefix, a space, and
    /// the given description.
    pub fn error_description(e: Error, msg: &str) -> (r: Result<()>)
        ensures
            r.code == e.code,
            r.msg@ == e.msg_view() + " "@ + msg@,
            r.data is None,
    {
        let mut text = e.message;
        text.append(" ");
        text.append(msg);
        Result { code: e.code, msg: text, data: None }
    }
}

impl<T> Result<T> {
    /// A success envelope carrying the given data.
    pub fn success_return_data(data: T) -> (r: Result<T>)
        ensures
            r.code == SUCCESS_CODE,
            r.msg@ == "Success"@,
            r.data == Some(data),
    {
        let e = Error::success();
        Result { code: e.code, msg: e.message, data: Some(data) }
    }
}

} // verus!

use vstd::prelude::*;

verus! {

/// Errno values that the kernel key facility is known to report. They are kept
/// as plain numbers so that an error can carry any code the kernel sets, not
/// only the listed ones.
pub const EPERM: i32 = 1;

pub const ENOENT: i32 = 2;

pub const EIO: i32 = 5;

pub const ENOMEM: i32 = 12;

pub const EACCES: i32 = 13;

pub const EFAULT: i32 = 14;

pub const EINVAL: i32 = 22;

pub const ENOTSUP: i32 = 95;

pub const EDQUOT: i32 = 122;

pub const ENOKEY: i32 = 126;

pub const EKEYEXPIRED: i32 = 127;

pub const EKEYREVOKED: i32 = 128;

pub const EKEYREJECTED: i32 = 129;

/// A failure reported by the kernel key facility (or by local decoding),
/// carrying the system error code verbatim.
#[derive(Debug, Clone, Copy, PartialEq, Eq, Structural, Hash)]
pub struct Error {
    pub code: i32,
}

impl Error {
    /// The numeric system error code this failure carries.
    pub fn code(&self) -> (r: i32)
        ensures
            r == self.code,
    {
        self.code
    }
}

/// Maps a raw kernel-call result to a `Result`: the sentinel value -1 signals
/// failure and the caller's captured error code is reported; any other value
/// means success and `value` is returned. The error code must be read
/// immediately after the raw call, before anything can clobber it.
pub fn check_call<T>(res: i64, err_code: i32, value: T) -> (r: Result<T, Error>)
    ensures
        res == -1 ==> (r matches Err(e) && e == (Error { code: err_code })),
        res != -1 ==> (r matches Ok(v) && v == value),
{
    if res == -1 {
        Err(Error { code: err_code })
    } else {
        Ok(value)
    }
}

/// Like `check_call`, but a successful call passes its own raw result through.
pub fn check_call_ret(res: i64, err_code: i32) -> (r: Result<i64, Error>)
    ensures
        res == -1 ==> r == Result::<i64, Error>::Err(Error { code: err_code }),
        res != -1 ==> r == Result::<i64, Error>::Ok(res),
{
    if res == -1 {
        Err(Error { code: err_code })
    } else {
        Ok(res)
    }
}

/// Like `check_call_ret`, for calls whose raw result is already a serial
/// number.
pub fn check_call_ret_serial(res: i32, err_code: i32) -> (r: Result<i32, Error>)
    ensures
        res == -1 ==> r == Result::<i32, Error>::Err(Error { code: err_code }),
        res != -1 ==> r == Result::<i32, Error>::Ok(res),
{
    if res == -1 {
        Err(Error { code: err_code })
    } else {
        Ok(res)
    }
}

} // verus!

use vstd::prelude::*;

use crate::error::Error;
use linux_keyutils::KeyError;

verus! {

// ---------------------------------------------------------------------------
// The kernel-call surface this library consumes, behind trusted declarations.
// Every wrapper makes exactly one call into the `linux_keyutils` crate, which
// issues the corresponding `keyctl` operation on the given serial number, and
// maps the crate's error back to the system error code it stands for.
// ---------------------------------------------------------------------------

/// The error type of the `linux_keyutils` crate, opaque to this library.
#[verifier::external_type_specification]
#[verifier::external_body]
pub struct ExKeyError(linux_keyutils::KeyError);

/// Relies on linux_keyutils::KeyError: each variant stands for the system
/// error code that `KeyError::from_errno` derives it from; variants the crate
/// produces locally (invalid description or identifier, write failure) map to
/// the codes those conditions would draw from the kernel.
#[verifier::external_body]
fn err_from_backend(e: linux_keyutils::KeyError) -> (r: Error)
{
    let code: i32 = match e {
        KeyError::PermissionDenied => 1, KeyError::MissingFileOrDirectory => 2,
        KeyError::WriteError => 5, KeyError::OutOfMemory => 12,
        KeyError::AccessDenied => 13, KeyError::BadAddress => 14,
        KeyError::InvalidArguments => 22, KeyError::InvalidDescription => 22,
        KeyError::InvalidIdentifier => 22, KeyError::OperationNotSupported => 95,
        KeyError::QuotaExceeded => 122, KeyError::KeyringDoesNotExist => 126,
        KeyError::KeyDoesNotExist => 126, KeyError::KeyExpired => 127,
        KeyError::KeyRevoked => 128, KeyError::KeyRejected => 129,
        KeyError::Unknown(x) => x,
    };
    Error { code }
}

/// Relies on linux_keyutils::Key::read: one KEYCTL_READ call on the object
/// `id` that fills a prefix of the buffer, leaves the buffer's length alone,
/// and returns the content's full size, which the kernel reports even when it
/// exceeds the buffer.
#[verifier::external_body]
pub(crate) fn read_raw(id: i32, buf: &mut Vec<u8>) -> (r: Result<usize, Error>)
    ensures
        r matches Ok(n) ==> final(buf)@.len() == old(buf)@.len(),
{
    linux_keyutils::Key::from_id(linux_keyutils::KeySerialId(id))
        .read(buf)
        .map_err(err_from_backend)
}

/// Relies on linux_keyutils::Key::update: one KEYCTL_UPDATE call that
/// atomically replaces the payload of the key `id` with `data`.
#[verifier::external_body]
pub(crate) fn update_raw(id: i32, data: &[u8]) -> (r: Result<(), Error>)
{
    linux_keyutils::Key::from_id(linux_keyutils::KeySerialId(id))
        .update(&data)
        .map_err(err_from_backend)
}

/// Relies on linux_keyutils::Key::set_perms: one KEYCTL_SETPERM call that
/// installs the mask `perms` on the object `id` verbatim.
#[verifier::external_body]
pub(crate) fn setperm_raw(id: i32, perms: u32) -> (r: Result<(), Error>)
{
    linux_keyutils::Key::from_id(linux_keyutils::KeySerialId(id))
        .set_perms(linux_keyutils::KeyPermissions::from_u32(perms))
        .map_err(err_from_backend)
}

/// Relies on linux_keyutils::Key::chown: one KEYCTL_CHOWN call on the object
/// `id`; an absent uid or gid leaves that owner unchanged.
#[verifier::external_body]
pub(crate) fn chown_raw(id: i32, uid: Option<u32>, gid: Option<u32>) -> (r: Result<(), Error>)
{
    linux_keyutils::Key::from_id(linux_keyutils::KeySerialId(id))
        .chown(uid, gid)
        .map_err(err_from_backend)
}

/// Relies on linux_keyutils::Key::set_timeout: one KEYCTL_SET_TIMEOUT call on
/// the object `id`; a timeout of 0 clears any expiration.
#[verifier::external_body]
pub(crate) fn set_timeout_raw(id: i32, seconds: u32) -> (r: Result<(), Error>)
{
    linux_keyutils::Key::from_id(linux_keyutils::KeySerialId(id))
        .set_timeout(seconds as usize)
        .map_err(err_from_backend)
}

/// Relies on linux_keyutils::Key::revoke: one KEYCTL_REVOKE call on the
/// object `id`.
#[verifier::external_body]
pub(crate) fn revoke_raw(id: i32) -> (r: Result<(), Error>)
{
    linux_keyutils::Key::from_id(linux_keyutils::KeySerialId(id))
        .revoke()
        .map_err(err_from_backend)
}

/// Relies on linux_keyutils::Key::invalidate: one KEYCTL_INVALIDATE call on
/// the object `id`.
#[verifier::external_body]
pub(crate) fn invalidate_raw(id: i32) -> (r: Result<(), Error>)
{
    linux_keyutils::Key::from_id(linux_keyutils::KeySerialId(id))
        .invalidate()
        .map_err(err_from_backend)
}

/// Relies on linux_keyutils::Key::assume_authority: one
/// KEYCTL_ASSUME_AUTHORITY call that makes the calling thread authoritative
/// for the pending construction request of key `id`.
#[verifier::external_body]
pub(crate) fn assume_authority_raw(id: i32) -> (r: Result<(), Error>)
{
    linux_keyutils::Key::from_id(linux_keyutils::KeySerialId(id))
        .assume_authority()
        .map_err(err_from_backend)
}

/// Relies on linux_keyutils::Key::instantiate: one KEYCTL_INSTANTIATE call
/// that supplies `payload` for the pending key `id` and links the live key
/// into the keyring `dest`.
#[verifier::external_body]
pub(crate) fn instantiate_raw(id: i32, payload: &[u8], dest: i32) -> (r: Result<(), Error>)
{
    linux_keyutils::Key::from_id(linux_keyutils::KeySerialId(id))
        .instantiate(payload, linux_keyutils::KeySerialId(dest))
        .map_err(err_from_backend)
}

} // verus!

use vstd::prelude::*;

use crate::constants::KeyPermissions;
use crate::error::Error;
use crate::keyring::Keyring;
use crate::manager::KeyManager;
use crate::query::clamped_spec;
use crate::query::read_contents;

verus! {

/// A handle to a kernel key: a plain value carrying the key's serial number.
/// The kernel owns the object's lifetime; a handle merely names the object in
/// calls, so copying one is cheap and safe, and a handle to a collected
/// object makes operations fail with a kernel-reported error rather than
/// misbehave.
#[derive(Debug, Clone, PartialEq, Eq, Structural, Hash)]
pub struct Key {
    pub(crate) id: i32,
}

impl View for Key {
    type V = i32;

    closed spec fn view(&self) -> i32 {
        self.id
    }
}

impl Key {
    /// Wraps a serial number, as returned by an earlier operation, in a
    /// handle.
    pub fn new(id: i32) -> (r: Key)
        ensures
            r@ == id,
    {
        Key { id }
    }

    /// The serial number this handle names.
    pub fn serial(&self) -> (r: i32)
        ensures
            r == self@,
    {
        self.id
    }

    /// Atomically replaces the key's payload with `data`. Requires `write`
    /// permission on the key.
    pub fn update(&mut self, data: &[u8]) -> (r: Result<(), Error>)
        ensures
            final(self)@ == old(self)@,
    {
        crate::backend::update_raw(self.id, data)
    }

    /// Reads the key's payload: the size-then-fill fetch, with the result the
    /// filled buffer clamped to the fill call's report — the second call's
    /// size is trusted, never the first call's. Requires `read` permission on
    /// the key.
    pub fn read(&self) -> (r: Result<Vec<u8>, Error>)
        ensures
            r matches Ok(b) ==> exists|filled: Seq<u8>, reported: nat| b@ == clamped_spec(
                filled,
                reported,
            ),
    {
        read_contents(self.id)
    }

    /// Revokes the key, consuming the handle: further operations on the
    /// serial fail kernel-side. Requires `write` permission on the key.
    pub fn revoke(self) -> (r: Result<(), Error>) {
        Keyring::new(self.id).revoke()
    }

    /// Changes the user that owns the key. Requires the `setattr` permission
    /// on the key.
    pub fn chown(&mut self, uid: u32) -> (r: Result<(), Error>)
        ensures
            final(self)@ == old(self)@,
    {
        let mut ring = Keyring::new(self.id);
        ring.chown(uid)
    }

    /// Changes the group that owns the key. Requires the `setattr` permission
    /// on the key.
    pub fn chgrp(&mut self, gid: u32) -> (r: Result<(), Error>)
        ensures
            final(self)@ == old(self)@,
    {
        let mut ring = Keyring::new(self.id);
        ring.chgrp(gid)
    }

    /// Installs the permission mask on the key, verbatim. Requires the
    /// `setattr` permission on the key.
    pub fn set_permissions(&mut self, perms: KeyPermissions) -> (r: Result<(), Error>)
        ensures
            final(self)@ == old(self)@,
    {
        let mut ring = Keyring::new(self.id);
        ring.set_permissions(perms)
    }

    /// Sets an expiration timer of `timeout` seconds on the key; 0 clears any
    /// expiration. Requires the `setattr` permission on the key.
    pub fn set_timeout(&mut self, timeout: u32) -> (r: Result<(), Error>)
        ensures
            final(self)@ == old(self)@,
    {
        let mut ring = Keyring::new(self.id);
        ring.set_timeout(timeout)
    }

    /// Invalidates the key and schedules it for removal, consuming the
    /// handle. Requires the `search` permission on the key.
    pub fn invalidate(self) -> (r: Result<(), Error>) {
        Keyring::new(self.id).invalidate()
    }

    /// Assumes authority over this key's pending construction request,
    /// yielding the one-shot manager that can resolve it. Fails if no such
    /// pending request is addressed to the caller.
    pub fn manage(&mut self) -> (r: Result<KeyManager, Error>)
        ensures
            final(self)@ == old(self)@,
            r matches Ok(m) ==> m@ == old(self)@,
    {
        match crate::backend::assume_authority_raw(self.id) {
            Ok(_) => Ok(KeyManager::new(Key { id: self.id })),
            Err(e) => Err(e),
        }
    }
}

} // verus!

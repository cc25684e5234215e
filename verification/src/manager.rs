use vstd::prelude::*;

use crate::error::Error;
use crate::key::Key;
use crate::keyring::Keyring;

verus! {

/// A one-shot capability to answer one key's pending construction request,
/// obtained by assuming authority over the request. Each resolving operation
/// takes the manager by value, so a single manager can resolve its request at
/// most once; after resolution the kernel relinquishes the authority on its
/// own.
#[derive(Debug, Clone, PartialEq, Eq, Structural, Hash)]
pub struct KeyManager {
    key: Key,
}

impl View for KeyManager {
    type V = i32;

    closed spec fn view(&self) -> i32 {
        self.key@
    }
}

impl KeyManager {
    pub(crate) fn new(key: Key) -> (r: KeyManager)
        ensures
            r@ == key@,
    {
        KeyManager { key }
    }

    /// The serial number of the key whose request this manager answers.
    pub fn key_serial(&self) -> (r: i32)
        ensures
            r == self@,
    {
        self.key.serial()
    }

    /// Supplies the payload for the pending key and links the now-live key
    /// into `keyring`, consuming the manager. Fails if the authority was
    /// already lost — for instance to a competing resolution — or on
    /// permission denial. Requires `write` permission on `keyring`.
    pub fn instantiate(self, keyring: &Keyring, payload: &[u8]) -> (r: Result<(), Error>) {
        crate::backend::instantiate_raw(self.key.serial(), payload, keyring.serial())
    }
}

} // verus!

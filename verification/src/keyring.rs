use vstd::prelude::*;

use crate::constants::KeyPermissions;
use crate::description::parse_spec;
use crate::description::Description;
use crate::error::Error;
use crate::error::EINVAL;
use crate::key::Key;
use crate::query::clamped_spec;
use crate::query::read_contents;

verus! {

/// A handle to a kernel keyring: a plain value carrying the keyring's serial
/// number. Negative reserved serials name process-relative keyrings that the
/// kernel resolves at call time; they are forwarded, never validated.
#[derive(Debug, Clone, PartialEq, Eq, Structural, Hash)]
pub struct Keyring {
    pub(crate) id: i32,
}

// ---------------------------------------------------------------------------
// Decoding a keyring's raw contents: a little-endian byte image of the child
// serial numbers, partitioned into keyrings and non-keyring keys.
// ---------------------------------------------------------------------------

/// The number the bytes `b0..b3` hold in little-endian order.
pub open spec fn le_val(b0: u8, b1: u8, b2: u8, b3: u8) -> int {
    b0 + b1 * 0x100 + b2 * 0x10000 + b3 * 0x1000000
}

/// The serial number the bytes `b0..b3` hold: their little-endian value read
/// as a two's-complement signed number.
pub open spec fn serial_of_le(b0: u8, b1: u8, b2: u8, b3: u8) -> i32 {
    if le_val(b0, b1, b2, b3) <= i32::MAX {
        le_val(b0, b1, b2, b3) as i32
    } else {
        (le_val(b0, b1, b2, b3) - 0x1_0000_0000) as i32
    }
}

/// The serial numbers a raw contents image holds, four bytes each; a trailing
/// fragment shorter than four bytes is ignored.
pub open spec fn serials_spec(b: Seq<u8>) -> Seq<i32> {
    Seq::new((b.len() / 4) as nat, |k: int| serial_of_le(b[4 * k], b[4 * k + 1], b[4 * k + 2], b[4 * k + 3]))
}

/// The serials whose flag equals `want`, in order. Used with one flag per
/// serial.
pub open spec fn filtered_ids(ids: Seq<i32>, fl: Seq<bool>, want: bool) -> Seq<i32>
    recommends
        ids.len() == fl.len(),
    decreases ids.len(),
{
    if ids.len() == 0 {
        seq![]
    } else {
        filtered_ids(ids.drop_last(), fl.drop_last(), want) + if fl.len() > 0 && fl.last() == want {
            seq![ids.last()]
        } else {
            seq![]
        }
    }
}

/// Every child lands on exactly one side of the partition: the two sides'
/// lengths always sum to the number of children, so in particular an empty
/// keyring reads back as two empty collections.
pub proof fn lemma_partition_complete(ids: Seq<i32>, fl: Seq<bool>)
    requires
        ids.len() == fl.len(),
    ensures
        filtered_ids(ids, fl, false).len() + filtered_ids(ids, fl, true).len() == ids.len(),
    decreases ids.len(),
{
    if ids.len() > 0 {
        lemma_partition_complete(ids.drop_last(), fl.drop_last());
    }
}

/// Decodes a raw contents image into the serial numbers it holds.
pub fn serials_from_bytes(b: &Vec<u8>) -> (r: Vec<i32>)
    ensures
        r@ == serials_spec(b@),
{
    let n = b.len() / 4;
    let mut r: Vec<i32> = Vec::new();
    let mut k: usize = 0;
    while k < n
        invariant
            n == b@.len() / 4,
            b@.len() <= usize::MAX,
            k <= n,
            r@.len() == k,
            forall|j: int| 0 <= j < k ==> r@[j] == serials_spec(b@)[j],
        decreases n - k,
    {
        proof {
            vstd::arithmetic::div_mod::lemma_fundamental_div_mod(b@.len() as int, 4);
            assert(4 * (k as int) + 3 < b@.len());
        }
        let b0 = b[4 * k];
        let b1 = b[4 * k + 1];
        let b2 = b[4 * k + 2];
        let b3 = b[4 * k + 3];
        let v: u32 = (b0 as u32) + (b1 as u32) * 0x100 + (b2 as u32) * 0x10000 + (b3 as u32)
            * 0x1000000;
        let s: i32 = if v <= 0x7fff_ffffu32 {
            v as i32
        } else {
            ((v as i64) - 0x1_0000_0000i64) as i32
        };
        r.push(s);
        k = k + 1;
    }
    proof {
        assert(r@ =~= serials_spec(b@));
    }
    r
}

/// Splits child serials into non-keyring keys and keyrings, by each child's
/// flag, keeping their order.
pub fn partition_children(ids: &Vec<i32>, is_ring: &Vec<bool>) -> (r: (Vec<Key>, Vec<Keyring>))
    requires
        ids@.len() == is_ring@.len(),
    ensures
        r.0@.map_values(|k: Key| k@) == filtered_ids(ids@, is_ring@, false),
        r.1@.map_values(|k: Keyring| k@) == filtered_ids(ids@, is_ring@, true),
{
    let n = ids.len();
    let mut keys: Vec<Key> = Vec::new();
    let mut rings: Vec<Keyring> = Vec::new();
    let mut i: usize = 0;
    while i < n
        invariant
            n == ids@.len(),
            ids@.len() == is_ring@.len(),
            i <= n,
            keys@.map_values(|k: Key| k@) == filtered_ids(ids@.take(i as int), is_ring@.take(i as int), false),
            rings@.map_values(|k: Keyring| k@) == filtered_ids(ids@.take(i as int), is_ring@.take(i as int), true),
        decreases n - i,
    {
        let ghost t1 = ids@.take(i + 1);
        let ghost f1 = is_ring@.take(i + 1);
        proof {
            assert(t1.drop_last() =~= ids@.take(i as int));
            assert(f1.drop_last() =~= is_ring@.take(i as int));
        }
        if is_ring[i] {
            let x = Keyring::new(ids[i]);
            rings.push(x);
            proof {
                assert(rings@.map_values(|k: Keyring| k@) =~= filtered_ids(t1, f1, true));
                assert(keys@.map_values(|k: Key| k@) =~= filtered_ids(t1, f1, false));
            }
        } else {
            let x = Key::new(ids[i]);
            keys.push(x);
            proof {
                assert(keys@.map_values(|k: Key| k@) =~= filtered_ids(t1, f1, false));
                assert(rings@.map_values(|k: Keyring| k@) =~= filtered_ids(t1, f1, true));
            }
        }
        i = i + 1;
    }
    proof {
        assert(ids@.take(n as int) =~= ids@);
        assert(is_ring@.take(n as int) =~= is_ring@);
    }
    (keys, rings)
}

/// Whether a metadata record text describes a keyring: it decodes, and its
/// type field is the tag "keyring". A record of any other type — including
/// types this library has never heard of — describes a non-keyring key.
pub open spec fn record_is_ring(s: Seq<char>) -> bool {
    match parse_spec(s) {
        Some(f) => f.0 == "keyring"@,
        None => false,
    }
}

/// The classification flag of each record text in a list, in order.
pub open spec fn ring_flags(records: Seq<Seq<char>>) -> Seq<bool> {
    Seq::new(records.len(), |i: int| record_is_ring(records[i]))
}

/// Partitions child serials into non-keyring keys and keyrings by each
/// child's metadata record, in order: a child whose record's type field is
/// "keyring" is a keyring, every other decodable record a key. A record that
/// does not decode fails the whole call — there are no partial results.
pub fn partition_records(ids: &Vec<i32>, records: &Vec<String>) -> (r: Result<
    (Vec<Key>, Vec<Keyring>),
    Error,
>)
    requires
        ids@.len() == records@.len(),
    ensures
        r matches Ok(p) ==> {
            let views = records@.map_values(|s: String| s@);
            &&& forall|i: int| 0 <= i < views.len() ==> parse_spec(#[trigger] views[i]) is Some
            &&& p.0@.map_values(|k: Key| k@) == filtered_ids(ids@, ring_flags(views), false)
            &&& p.1@.map_values(|k: Keyring| k@) == filtered_ids(ids@, ring_flags(views), true)
        },
        r matches Err(e) ==> {
            let views = records@.map_values(|s: String| s@);
            &&& exists|i: int| 0 <= i < views.len() && parse_spec(#[trigger] views[i]) is None
            &&& e == (Error { code: EINVAL })
        },
{
    let ghost views = records@.map_values(|s: String| s@);
    let keyring_tag: String = String::from_str("keyring");
    let n = ids.len();
    let mut fl: Vec<bool> = Vec::new();
    let mut i: usize = 0;
    while i < n
        invariant
            n == ids@.len(),
            ids@.len() == records@.len(),
            views == records@.map_values(|s: String| s@),
            keyring_tag@ == "keyring"@,
            i <= n,
            fl@.len() == i,
            forall|j: int| 0 <= j < i ==> fl@[j] == record_is_ring(#[trigger] views[j]),
            forall|j: int| 0 <= j < i ==> parse_spec(#[trigger] views[j]) is Some,
        decreases n - i,
    {
        let d = match Description::parse(records[i].as_str()) {
            Ok(d) => d,
            Err(e) => {
                proof {
                    assert(parse_spec(views[i as int]) is None);
                }
                return Err(e);
            },
        };
        fl.push(d.type_ == keyring_tag);
        i = i + 1;
    }
    let r = partition_children(ids, &fl);
    proof {
        assert(fl@ =~= ring_flags(views));
    }
    Ok(r)
}

impl View for Keyring {
    type V = i32;

    closed spec fn view(&self) -> i32 {
        self.id
    }
}

impl Keyring {
    /// Wraps a serial number, as returned by an earlier operation or one of
    /// the reserved process-relative values, in a handle.
    pub fn new(id: i32) -> (r: Keyring)
        ensures
            r@ == id,
    {
        Keyring { id }
    }

    /// The serial number this handle names.
    pub fn serial(&self) -> (r: i32)
        ensures
            r == self@,
    {
        self.id
    }

    /// Fetches the serial numbers of the keyring's immediate children: the
    /// size-then-fill fetch of the raw contents image, clamped to the fill
    /// call's report, decoded four little-endian bytes to a serial. Requires
    /// `read` permission on the keyring.
    pub fn read_serials(&self) -> (r: Result<Vec<i32>, Error>)
        ensures
            r matches Ok(v) ==> exists|filled: Seq<u8>, reported: nat| v@ == serials_spec(
                clamped_spec(filled, reported),
            ),
    {
        let bytes = match read_contents(self.id) {
            Ok(b) => b,
            Err(e) => {
                return Err(e);
            },
        };
        Ok(serials_from_bytes(&bytes))
    }

    /// Revokes the keyring, consuming the handle: further operations on the
    /// serial fail kernel-side. Requires `write` permission on the keyring.
    pub fn revoke(self) -> (r: Result<(), Error>) {
        crate::backend::revoke_raw(self.id)
    }

    /// Changes the user that owns the keyring. Requires the `setattr`
    /// permission on the keyring.
    pub fn chown(&mut self, uid: u32) -> (r: Result<(), Error>)
        ensures
            final(self)@ == old(self)@,
    {
        crate::backend::chown_raw(self.id, Some(uid), None)
    }

    /// Changes the group that owns the keyring. Requires the `setattr`
    /// permission on the keyring.
    pub fn chgrp(&mut self, gid: u32) -> (r: Result<(), Error>)
        ensures
            final(self)@ == old(self)@,
    {
        crate::backend::chown_raw(self.id, None, Some(gid))
    }

    /// Installs the permission mask on the keyring, verbatim. Requires the
    /// `setattr` permission on the keyring.
    pub fn set_permissions(&mut self, perms: KeyPermissions) -> (r: Result<(), Error>)
        ensures
            final(self)@ == old(self)@,
    {
        crate::backend::setperm_raw(self.id, perms)
    }

    /// Sets an expiration timer of `timeout` seconds on the keyring; 0 clears
    /// any expiration. Requires the `setattr` permission on the keyring.
    pub fn set_timeout(&mut self, timeout: u32) -> (r: Result<(), Error>)
        ensures
            final(self)@ == old(self)@,
    {
        crate::backend::set_timeout_raw(self.id, timeout)
    }

    /// Invalidates the keyring and schedules it for removal, consuming the
    /// handle. Requires the `search` permission on the keyring.
    pub fn invalidate(self) -> (r: Result<(), Error>) {
        crate::backend::invalidate_raw(self.id)
    }
}

} // verus!


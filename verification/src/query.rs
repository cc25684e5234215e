use vstd::prelude::*;

use crate::backend::read_raw;
use crate::error::Error;

verus! {

/// The bytes kept from a filled buffer once the fill call has reported `n`
/// bytes of content: the first `n` when the buffer holds that many, the whole
/// buffer otherwise. The report is trusted as the logical length, but never
/// beyond what was actually written.
pub open spec fn clamped_spec(b: Seq<u8>, n: nat) -> Seq<u8> {
    if n <= b.len() {
        b.take(n as int)
    } else {
        b
    }
}

/// Clamps a filled buffer to the size the fill call reported. This is the one
/// place the trust-the-second-report rule of the size-then-fill pattern is
/// decided: a report within the buffer keeps exactly that prefix, a report
/// beyond it (the content grew between the calls) keeps the whole buffer, and
/// a zero report keeps nothing — no size pair can misbehave.
pub fn clamp_to_reported(buf: Vec<u8>, reported: usize) -> (r: Vec<u8>)
    ensures
        r@ == clamped_spec(buf@, reported as nat),
{
    let mut buf = buf;
    if reported < buf.len() {
        buf.truncate(reported);
    }
    buf
}

/// Drops one trailing NUL byte, if the buffer ends in one. The described size
/// of a metadata record counts its trailing terminator, which is not part of
/// the record text.
pub fn trim_trailing_nul(buf: Vec<u8>) -> (r: Vec<u8>)
    ensures
        buf@.len() > 0 && buf@.last() == 0 ==> r@ == buf@.drop_last(),
        !(buf@.len() > 0 && buf@.last() == 0) ==> r@ == buf@,
{
    let mut buf = buf;
    if buf.len() > 0 && buf[buf.len() - 1] == 0 {
        let ghost before = buf@;
        let n = buf.len() - 1;
        buf.truncate(n);
        proof {
            assert(buf@ =~= before.drop_last());
        }
    }
    buf
}

/// The size-then-fill pattern for results whose size is not known up front:
/// one call with an empty buffer to learn the needed size, one call with a
/// buffer of that size to fetch the content. The object may change between
/// the two calls, so the result is the filled buffer clamped to the second
/// call's report — never sized by the first call's.
pub(crate) fn read_contents(id: i32) -> (r: Result<Vec<u8>, Error>)
    ensures
        r matches Ok(b) ==> exists|filled: Seq<u8>, reported: nat| b@ == clamped_spec(
            filled,
            reported,
        ),
{
    let mut buf: Vec<u8> = Vec::new();
    let sz = match read_raw(id, &mut buf) {
        Ok(n) => n,
        Err(e) => {
            return Err(e);
        },
    };
    buf.resize(sz, 0u8);
    let actual = match read_raw(id, &mut buf) {
        Ok(n) => n,
        Err(e) => {
            return Err(e);
        },
    };
    let ghost filled = buf@;
    let out = clamp_to_reported(buf, actual);
    proof {
        assert(out@ == clamped_spec(filled, actual as nat));
    }
    Ok(out)
}

} // verus!

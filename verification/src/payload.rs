//! Turning the packed bytes of an entry, or of the table, back into content.

use crate::error::{ArchiveError, ErrorModel};
use vstd::prelude::*;
use vstd::slice::slice_to_vec;

verus! {

/// A general-purpose compression method, as the layer above this library
/// selects it for an archive. The library promises nothing about what an
/// implementation returns and checks every result itself.
pub trait Method {
    /// Unpacks `raw`. `limit` is the size that the archive declares for the
    /// result: no more than that needs to be produced or allocated. Packed
    /// bytes that make no sense yield whatever could be recovered, which may
    /// be nothing.
    fn unpack(&self, raw: &[u8], limit: usize) -> Vec<u8>;
}

/// Whether `out` is what the method returned when it was handed exactly the
/// bytes `raw` and the limit `limit`.
pub open spec fn unpacked_by<M: Method>(method: &M, raw: Seq<u8>, limit: u64, out: Seq<u8>) -> bool {
    exists|packed: &[u8], made: Vec<u8>|
        packed@ == raw && made@ == out && #[trigger] call_ensures(
            M::unpack,
            (method, packed, limit as usize),
            made,
        )
}

/// The result of an operation that yields bytes, as sequences.
pub open spec fn bytes_outcome(r: Result<Vec<u8>, ArchiveError>) -> Result<Seq<u8>, ErrorModel> {
    match r {
        Ok(content) => Ok(content@),
        Err(e) => Err(e@),
    }
}

/// Whether a declared size is refused before anything is allocated for it:
/// it is above the ceiling, or no buffer on this machine can be that long.
pub open spec fn too_large(declared: u64, ceiling: u64) -> bool {
    declared > ceiling || declared > usize::MAX
}

/// `content` if it has the declared length, the mismatch otherwise.
pub open spec fn sized(content: Seq<u8>, expected: u64) -> Result<Seq<u8>, ErrorModel> {
    if content.len() == expected {
        Ok(content)
    } else {
        Err(ErrorModel::SizeMismatch { expected, observed: content.len() as u64 })
    }
}

/// What decompressing `raw` comes to. Stored bytes are the content as they
/// are; otherwise the content is `unpacked`, what the method made of `raw`.
pub open spec fn settle(
    raw: Seq<u8>,
    expected: u64,
    stored: bool,
    ceiling: u64,
    unpacked: Seq<u8>,
) -> Result<Seq<u8>, ErrorModel> {
    if too_large(expected, ceiling) {
        Err(ErrorModel::SizeTooLarge { declared: expected, ceiling })
    } else {
        sized(
            if stored {
                raw
            } else {
                unpacked
            },
            expected,
        )
    }
}

/// Whether decompressing asks the method: the bytes are packed, and the
/// declared size is not refused.
pub open spec fn asks(expected: u64, stored: bool, ceiling: u64) -> bool {
    !stored && !too_large(expected, ceiling)
}

/// Accepts `content` if it is exactly `expected` bytes long.
pub fn check_size(content: Vec<u8>, expected: u64) -> (r: Result<Vec<u8>, ArchiveError>)
    ensures
        bytes_outcome(r) == sized(content@, expected),
{
    let observed: u64 = content.len() as u64;
    if observed == expected {
        Ok(content)
    } else {
        Err(ArchiveError::SizeMismatch { expected, observed })
    }
}

/// Recovers the content of `expected` bytes from `raw`. With no method the
/// bytes are stored and are copied as they are; with one, the method unpacks
/// them. A declared size above `ceiling` is refused before the method is
/// called or anything is allocated, and content of any other length than the
/// declared one is refused afterwards. Where the method is asked, it is
/// handed `raw` and the declared size, and the content judged is what it
/// returned.
pub fn decompress<M: Method>(raw: &[u8], expected: u64, method: Option<&M>, ceiling: u64) -> (r:
    Result<Vec<u8>, ArchiveError>)
    ensures
        method is None ==> bytes_outcome(r) == settle(raw@, expected, true, ceiling, Seq::empty()),
        method is Some ==> exists|unpacked: Seq<u8>|
            bytes_outcome(r) == settle(raw@, expected, false, ceiling, unpacked),
        method is Some && !asks(expected, false, ceiling) ==> bytes_outcome(r) == settle(
            raw@,
            expected,
            false,
            ceiling,
            Seq::empty(),
        ),
        method is Some && asks(expected, false, ceiling) ==> exists|unpacked: Seq<u8>|
            #[trigger] unpacked_by(method->Some_0, raw@, expected, unpacked) && bytes_outcome(r)
                == settle(raw@, expected, false, ceiling, unpacked),
{
    if expected > ceiling || expected > usize::MAX as u64 {
        let r = Err(ArchiveError::SizeTooLarge { declared: expected, ceiling });
        assert(bytes_outcome(r) == settle(raw@, expected, method is None, ceiling, Seq::empty()));
        return r;
    }
    match method {
        None => {
            let r = check_size(slice_to_vec(raw), expected);
            assert(bytes_outcome(r) == settle(raw@, expected, true, ceiling, Seq::empty()));
            r
        },
        Some(m) => {
            let unpacked: Vec<u8> = m.unpack(raw, expected as usize);
            let ghost witness = unpacked@;
            assert(unpacked_by(m, raw@, expected, witness));
            let r = check_size(unpacked, expected);
            assert(bytes_outcome(r) == settle(raw@, expected, false, ceiling, witness));
            r
        },
    }
}

} // verus!

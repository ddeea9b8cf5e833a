//! zstd frames: the compressed form of the tool's archives.
use vstd::prelude::*;

verus! {

/// `std::io::Error`, the error the zstd stream functions report.
#[verifier::external_type_specification]
#[verifier::external_body]
pub struct ExIoError(std::io::Error);

/// The zstd frame that `zstd::stream::copy_encode` writes for `data` at
/// compression `level`.
pub uninterp spec fn zstd_frame(data: Seq<u8>, level: i32) -> Seq<u8>;

/// What `zstd::stream::copy_decode` gives back for `frame`: the data it
/// decompresses to, or `None` where `frame` is no valid zstd data.
pub uninterp spec fn zstd_decoded(frame: Seq<u8>) -> Option<Seq<u8>>;

/// Trusted: calls `zstd::stream::copy_encode(data, &mut out, level)`, which
/// compresses `data` into one zstd frame. Reading a slice and writing a
/// `Vec` cannot fail, and zstd clamps the level into its range, so the
/// contract claims that the call succeeds with the frame named
/// `zstd_frame(data, level)`, and, as zstd is lossless, that decoding it
/// gives `data` back.
#[verifier::external_body]
pub(crate) fn zstd_encode(data: &[u8], level: i32) -> (r: Result<Vec<u8>, std::io::Error>)
    ensures
        r is Ok,
        r matches Ok(frame) ==> frame@ == zstd_frame(data@, level),
        r matches Ok(frame) ==> zstd_decoded(frame@) == Some(data@),
{
    let mut out: Vec<u8> = Vec::new();
    zstd::stream::copy_encode(data, &mut out, level).map(|_| out)
}

/// Trusted: calls `zstd::stream::copy_decode(frame, &mut out)`, which
/// decompresses the zstd frames in `frame`. `zstd_decoded` names what that
/// call gives for `frame`: the contract claims that the call succeeds with
/// `d` exactly where `zstd_decoded(frame)` is `Some(d)`, and fails where it
/// is `None`.
#[verifier::external_body]
pub(crate) fn zstd_decode(frame: &[u8]) -> (r: Result<Vec<u8>, std::io::Error>)
    ensures
        match zstd_decoded(frame@) {
            Some(d) => r matches Ok(data) && data@ == d,
            None => r is Err,
        },
{
    let mut out: Vec<u8> = Vec::new();
    zstd::stream::copy_decode(frame, &mut out).map(|_| out)
}

} // verus!

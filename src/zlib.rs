//! The zlib streams of the artifact, made and read by the flate2 crate.
use vstd::prelude::*;

verus! {

/// The zlib stream that flate2 produces for `data` at its best compression
/// level.
pub uninterp spec fn zlib_deflate(data: Seq<u8>) -> Seq<u8>;

/// What the zlib stream at the start of `input` decodes to, or `None` where
/// `input` does not start with a complete, well-formed zlib stream; bytes
/// after the end of the stream play no part.
pub uninterp spec fn zlib_inflate(input: Seq<u8>) -> Option<Seq<u8>>;

/// Relies on flate2's `ZlibEncoder` with `Compression::best()` over a `Vec`
/// writer, which never fails: writing `data` and finishing yields the zlib
/// stream for it, and that stream decodes back to `data`, whatever bytes
/// follow it.
#[verifier::external_body]
pub(crate) fn deflate(data: &[u8]) -> (r: Option<Vec<u8>>)
    ensures
        r is Some,
        r matches Some(v) ==> v@ == zlib_deflate(data@),
        r matches Some(v) ==> forall|rest: Seq<u8>| #[trigger] zlib_inflate(v@ + rest) == Some(data@),
{
    let mut encoder = flate2::write::ZlibEncoder::new(Vec::new(), flate2::Compression::best());
    match std::io::Write::write_all(&mut encoder, data) {
        Ok(()) => encoder.finish().ok(),
        Err(_) => None,
    }
}

/// Relies on flate2's `Decompress` (zlib header expected), run once with
/// `FlushDecompress::Finish` into a buffer of `capacity` bytes. flate2
/// reports `Status::StreamEnd` exactly when the stream at the start of
/// `input` is complete and well-formed and its content fits the buffer; the
/// first `total_out` bytes of the buffer are then that content. Any other
/// outcome gives `None`.
#[verifier::external_body]
pub(crate) fn inflate(input: &[u8], capacity: usize) -> (r: Option<Vec<u8>>)
    ensures
        r is Some <==> (zlib_inflate(input@) matches Some(x) && x.len() <= capacity),
        r matches Some(v) ==> zlib_inflate(input@) == Some(v@),
{
    let mut inflater = flate2::Decompress::new(true);
    let mut buf = vec![0u8; capacity];
    match inflater.decompress(input, &mut buf, flate2::FlushDecompress::Finish) {
        Ok(flate2::Status::StreamEnd) => {
            buf.truncate(inflater.total_out() as usize);
            Some(buf)
        },
        _ => None,
    }
}

} // verus!

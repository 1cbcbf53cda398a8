//! Opening a backup archive: a `.tachibk` file is a gzip stream around the
//! encoded backup.
use vstd::prelude::*;

verus! {

/// The bytes that libflate's gzip decoder reads out of `archive`, or `None`
/// where it reports an error.
pub uninterp spec fn gzip_decoded(archive: Seq<u8>) -> Option<Seq<u8>>;

/// Decodes a gzip stream.
///
/// Calls `libflate::gzip::Decoder::new` on the bytes and reads the decoder to
/// its end through its `std::io::Read` impl. The contract names the outcome by
/// `gzip_decoded`, which depends on the bytes alone; what the decoder accepts
/// is not stated.
#[verifier::external_body]
fn gunzip(archive: &[u8]) -> (r: Option<Vec<u8>>)
    ensures
        r is Some <==> gzip_decoded(archive@) is Some,
        r matches Some(v) ==> gzip_decoded(archive@) == Some(v@),
{
    let mut decoder = libflate::gzip::Decoder::new(archive).ok()?;
    let mut out = Vec::new();
    std::io::Read::read_to_end(&mut decoder, &mut out).ok()?;
    Some(out)
}

/// Why a backup archive could not be opened.
#[derive(Debug, Clone, Copy, PartialEq, Eq)]
pub enum ArchiveError {
    /// The archive is not a gzip stream that decodes.
    NotGzip,
}

/// The encoded backup inside a `.tachibk` archive.
pub fn decompress_backup(archive: &[u8]) -> (r: Result<Vec<u8>, ArchiveError>)
    ensures
        r is Ok <==> gzip_decoded(archive@) is Some,
        r matches Ok(v) ==> gzip_decoded(archive@) == Some(v@),
        r matches Err(e) ==> e == ArchiveError::NotGzip,
{
    match gunzip(archive) {
        Some(v) => Ok(v),
        None => Err(ArchiveError::NotGzip),
    }
}

} // verus!

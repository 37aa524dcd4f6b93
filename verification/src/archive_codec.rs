//! Compression of encoded archives into zstd frames.
use vstd::prelude::*;

use crate::error::SillokError;

verus! {

/// zstd level for the legacy local archive file.
pub const LEGACY_ZSTD_LEVEL: i32 = 3;

/// zstd level for the sync artifact.
pub const SYNC_ZSTD_LEVEL: i32 = 22;

/// The zstd frame that `zstd::stream::encode_all` makes of `data` at `level`.
pub uninterp spec fn zstd_frame(data: Seq<u8>, level: i32) -> Seq<u8>;

/// The content of a zstd frame, as `zstd::stream::decode_all` restores it;
/// `None` for bytes that are not a valid frame.
pub uninterp spec fn zstd_content(frame: Seq<u8>) -> Option<Seq<u8>>;

/// Compresses `data` into one zstd frame (`zstd::stream::encode_all`); the
/// frame decodes back to `data`. An I/O error comes back as its message.
#[verifier::external_body]
fn zstd_encode_all(data: &[u8], level: i32) -> (r: Result<Vec<u8>, String>)
    ensures
        r matches Ok(frame) ==> frame@ == zstd_frame(data@, level) && zstd_content(frame@) == Some(
            data@,
        ),
{
    match zstd::stream::encode_all(data, level) {
        Ok(frame) => Ok(frame),
        Err(error) => Err(error.to_string()),
    }
}

/// Decompresses zstd frames (`zstd::stream::decode_all`); bytes that are not
/// a valid frame fail. An I/O error comes back as its message.
#[verifier::external_body]
fn zstd_decode_all(frame: &[u8]) -> (r: Result<Vec<u8>, String>)
    ensures
        r matches Ok(data) ==> zstd_content(frame@) == Some(data@),
        zstd_content(frame@) is None ==> r is Err,
{
    match zstd::stream::decode_all(frame) {
        Ok(data) => Ok(data),
        Err(error) => Err(error.to_string()),
    }
}

/// Compresses an encoded archive with zstd at the supplied level.
pub fn encode_archive(encoded: &[u8], zstd_level: i32) -> (r: Result<Vec<u8>, SillokError>)
    ensures
        r matches Ok(frame) ==> frame@ == zstd_frame(encoded@, zstd_level) && zstd_content(frame@)
            == Some(encoded@),
        r matches Err(e) ==> e.code == "io_error",
{
    match zstd_encode_all(encoded, zstd_level) {
        Ok(frame) => Ok(frame),
        Err(message) => Err(SillokError::new("io_error", message)),
    }
}

/// Restores an encoded archive from its zstd frame.
pub fn decode_archive(bytes: &[u8]) -> (r: Result<Vec<u8>, SillokError>)
    ensures
        r matches Ok(encoded) ==> zstd_content(bytes@) == Some(encoded@),
        zstd_content(bytes@) is None ==> (r matches Err(e) && e.code == "io_error"),
        r matches Err(e) ==> e.code == "io_error",
{
    match zstd_decode_all(bytes) {
        Ok(encoded) => Ok(encoded),
        Err(message) => Err(SillokError::new("io_error", message)),
    }
}

/// Compresses an encoded archive for the sync artifact, at the highest level.
pub fn encode_sync_archive(encoded: &[u8]) -> (r: Result<Vec<u8>, SillokError>)
    ensures
        r matches Ok(frame) ==> frame@ == zstd_frame(encoded@, SYNC_ZSTD_LEVEL) && zstd_content(
            frame@,
        ) == Some(encoded@),
        r matches Err(e) ==> e.code == "io_error",
{
    encode_archive(encoded, SYNC_ZSTD_LEVEL)
}

/// A frame made by `encode_archive` from `encoded` decodes, through
/// `decode_archive`, to exactly `encoded`.
pub proof fn lemma_codec_roundtrip(encoded: Seq<u8>, level: i32, back: Seq<u8>)
    requires
        zstd_content(zstd_frame(encoded, level)) == Some(encoded),
        zstd_content(zstd_frame(encoded, level)) == Some(back),
    ensures
        back == encoded,
{
}

} // verus!

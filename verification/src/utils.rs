//! Byte-buffer helpers and response compression.
use vstd::prelude::*;

use crate::text::{contains_seq, find_bytes, find_seq, lemma_find_from_bytes, split_once_seq};
use std::io::Write;
use vstd::slice::{slice_subrange, slice_to_vec};

verus! {

/// Appends `data` to `out`.
pub fn push_bytes(out: &mut Vec<u8>, data: &[u8])
    ensures
        final(out)@ == old(out)@ + data@,
{
    out.extend_from_slice(data);
    assert(out@ =~= old(out)@ + data@);
}

/// Whether `delimiter` occurs in `bytes`.
pub fn bytes_contain(bytes: &Vec<u8>, delimiter: &[u8]) -> (r: bool)
    requires
        delimiter@.len() > 0,
    ensures
        r == contains_seq(bytes@, delimiter@),
{
    let found = find_bytes(bytes.as_slice(), delimiter);
    proof {
        lemma_find_from_bytes(bytes@, delimiter@, 0);
    }
    found.is_some()
}

/// `bytes` cut around the first occurrence of `delimiter`, which is left
/// out of both parts.
pub fn bytes_split(bytes: &Vec<u8>, delimiter: &[u8]) -> (r: Option<(Vec<u8>, Vec<u8>)>)
    requires
        delimiter@.len() > 0,
    ensures
        match split_once_seq(bytes@, delimiter@) {
            Some((a, b)) => r matches Some((x, y)) && x@ == a && y@ == b,
            None => r is None,
        },
{
    let n = bytes.len();
    match find_bytes(bytes.as_slice(), delimiter) {
        Some(position) => {
            proof {
                lemma_find_from_bytes(bytes@, delimiter@, 0);
                assert(bytes@.len() == n);
            }
            let before_delimiter = slice_to_vec(slice_subrange(bytes.as_slice(), 0, position));
            let after_delimiter = slice_to_vec(
                slice_subrange(bytes.as_slice(), position + delimiter.len(), n),
            );
            assert(before_delimiter@ =~= bytes@.take(position as int));
            assert(after_delimiter@ =~= bytes@.skip(position + delimiter@.len()));
            Some((before_delimiter, after_delimiter))
        },
        None => None,
    }
}

/// What `flate2`'s `GzEncoder` at the default level makes of `data`: the
/// gzip stream it writes, or `None` when it reports an error.
pub uninterp spec fn gzip_of(data: Seq<u8>) -> Option<Seq<u8>>;

/// `flate2::write::GzEncoder` at the default compression level, fed `data`
/// and finished. It succeeds exactly when `gzip_of` gives a stream, and then
/// returns that stream, which starts with the ten-byte header this encoder
/// always writes (magic number, deflate, no flags, no time stamp, unknown
/// system). The encoder writes into a `Vec`, but its compressor keeps
/// internal error paths (buffer bounds in `miniz_oxide`); on which inputs
/// they are taken is not claimed, so success itself is left to `gzip_of`.
#[verifier::external_body]
pub fn gzip_compress(data: &[u8]) -> (r: std::io::Result<Vec<u8>>)
    ensures
        r is Ok <==> gzip_of(data@) is Some,
        r matches Ok(v) ==> gzip_of(data@) == Some(v@) && v@.len() >= 10 && v@.take(10) == seq![
            0x1fu8,
            0x8bu8,
            8u8,
            0u8,
            0u8,
            0u8,
            0u8,
            0u8,
            0u8,
            255u8,
        ],
{
    let mut encoder = flate2::write::GzEncoder::new(Vec::new(), flate2::Compression::default());
    encoder.write_all(data)?;
    encoder.finish()
}

} // verus!

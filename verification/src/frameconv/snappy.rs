use vstd::prelude::*;
use vstd::slice::slice_to_vec;

verus! {

/// `snap::Error`, the error that the Snappy decoder reports; carried through
/// opaquely.
#[verifier::external_type_specification]
#[verifier::external_body]
pub struct ExSnapError(snap::Error);

/// What the raw (unframed) Snappy decoder makes of `input`: the decompressed
/// bytes, or `None` where the decoder rejects the input.
pub uninterp spec fn snappy_decompressed(input: Seq<u8>) -> Option<Seq<u8>>;

/// Snappy-decompressed bytes where the decoder accepts `raw`, else `raw` itself.
pub open spec fn snappy_or_raw(raw: Seq<u8>) -> Seq<u8> {
    match snappy_decompressed(raw) {
        Some(d) => d,
        None => raw,
    }
}

/// Calls `snap::raw::Decoder::decompress_vec`, which decodes one raw Snappy
/// block. Trusted: its result is a function of the input bytes alone and is
/// named `snappy_decompressed`; an empty input is rejected (the decoder
/// returns `Error::Empty` for it). The decoder allocates the length that the
/// block header announces (at most `u32::MAX` bytes) before decoding; that the
/// allocation succeeds is not stated.
#[verifier::external_body]
fn snappy_decompress_vec(input: &[u8]) -> (res: Result<Vec<u8>, snap::Error>)
    ensures
        match res {
            Ok(v) => snappy_decompressed(input@) == Some(v@),
            Err(_) => snappy_decompressed(input@) is None,
        },
        input@.len() == 0 ==> res is Err,
{
    snap::raw::Decoder::new().decompress_vec(input)
}

/// Settles a Snappy decode: the decompressed bytes if there are any, else the
/// raw bytes unchanged.
pub fn decompressed_or_raw(raw: &[u8], decompressed: Option<Vec<u8>>) -> (res: Vec<u8>)
    ensures
        res@ == match decompressed {
            Some(d) => d@,
            None => raw@,
        },
{
    match decompressed {
        Some(d) => d,
        None => slice_to_vec(raw),
    }
}

/// Decompresses a raw Snappy block, falling back to the bytes as given when
/// they are not valid Snappy data.
pub fn decompress_or_raw(raw: &[u8]) -> (res: Vec<u8>)
    ensures
        res@ == snappy_or_raw(raw@),
        raw@.len() == 0 ==> res@.len() == 0,
{
    let decompressed = match snappy_decompress_vec(raw) {
        Ok(v) => Some(v),
        Err(_) => None,
    };
    decompressed_or_raw(raw, decompressed)
}

} // verus!

//! The compression algorithms of compressed data packets, computed by
//! the `flate2` and `bzip2` crates.
use vstd::prelude::*;
use crate::bytes::append_bytes;

verus! {

/// What `flate2`'s raw DEFLATE encoder, at the default level, writes
/// for the input `data`.
pub uninterp spec fn deflate_output(data: Seq<u8>) -> Seq<u8>;

/// What `flate2`'s zlib encoder, at the default level, writes for the
/// input `data`.
pub uninterp spec fn zlib_output(data: Seq<u8>) -> Seq<u8>;

/// What `bzip2`'s encoder, at the default level, writes for the input
/// `data`.
pub uninterp spec fn bzip2_output(data: Seq<u8>) -> Seq<u8>;

/// The compressed form of `content` under compression algorithm `algo`
/// (RFC 4880, 9.3): 0 stores it as is, 1 is DEFLATE, 2 is zlib, 3 is
/// bzip2.
pub open spec fn compressed_body(algo: u8, content: Seq<u8>) -> Seq<u8> {
    if algo == 0 {
        content
    } else if algo == 1 {
        deflate_output(content)
    } else if algo == 2 {
        zlib_output(content)
    } else {
        bzip2_output(content)
    }
}

/// Compresses `data` with `flate2::write::DeflateEncoder` at
/// `flate2::Compression::default()`, into a `Vec`.  The contract claims
/// that the output is the named function of the input alone; writing to
/// a `Vec` does not fail.
#[verifier::external_body]
fn deflate(data: &[u8]) -> (out: Vec<u8>)
    ensures
        out@ == deflate_output(data@),
{
    let mut e = flate2::write::DeflateEncoder::new(Vec::new(), flate2::Compression::default());
    std::io::Write::write_all(&mut e, data).unwrap();
    e.finish().unwrap()
}

/// Compresses `data` with `flate2::write::ZlibEncoder` at
/// `flate2::Compression::default()`, into a `Vec`.  The contract claims
/// that the output is the named function of the input alone; writing to
/// a `Vec` does not fail.
#[verifier::external_body]
fn zlib(data: &[u8]) -> (out: Vec<u8>)
    ensures
        out@ == zlib_output(data@),
{
    let mut e = flate2::write::ZlibEncoder::new(Vec::new(), flate2::Compression::default());
    std::io::Write::write_all(&mut e, data).unwrap();
    e.finish().unwrap()
}

/// Compresses `data` with `bzip2::write::BzEncoder` at
/// `bzip2::Compression::default()`, into a `Vec`.  The contract claims
/// that the output is the named function of the input alone; writing to
/// a `Vec` does not fail.
#[verifier::external_body]
fn bzip2(data: &[u8]) -> (out: Vec<u8>)
    ensures
        out@ == bzip2_output(data@),
{
    let mut e = bzip2::write::BzEncoder::new(Vec::new(), bzip2::Compression::default());
    std::io::Write::write_all(&mut e, data).unwrap();
    e.finish().unwrap()
}

/// Compresses `content` with the compression algorithm `algo`.
pub fn compress(algo: u8, content: &[u8]) -> (out: Vec<u8>)
    requires
        algo <= 3,
    ensures
        out@ == compressed_body(algo, content@),
{
    if algo == 0 {
        let mut out: Vec<u8> = Vec::new();
        append_bytes(&mut out, content);
        assert(out@ =~= content@);
        out
    } else if algo == 1 {
        deflate(content)
    } else if algo == 2 {
        zlib(content)
    } else {
        bzip2(content)
    }
}

} // verus!

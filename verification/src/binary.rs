//! How data objects are stored: serialized, then compressed in the raw Snappy
//! format. Compression is done by the `snap` crate.

use vstd::prelude::*;
use vstd::utf8::{decode_utf8, valid_utf8};

verus! {

#[verifier::external_type_specification]
#[verifier::external_body]
pub struct ExSnapError(snap::Error);

/// The raw Snappy compression of `input` that `snap` produces.
pub uninterp spec fn snap_compressed(input: Seq<u8>) -> Seq<u8>;

/// What `snap` decompresses `input` to, or `None` where `input` is not raw
/// Snappy data that it can decompress.
pub uninterp spec fn snap_decompressed(input: Seq<u8>) -> Option<Seq<u8>>;

/// Whether `snap` can compress an input of `len` bytes: the largest
/// compression of it must stay below 2^32 bytes.
pub open spec fn compressible(len: nat) -> bool {
    32 + len + len / 6 <= u32::MAX
}

/// Compresses `input` with `snap::raw::Encoder::compress_vec`. Its source
/// fails exactly where `max_compress_len` of the input's length is 0, that is
/// where the bound of `compressible` is passed; the output is the raw Snappy
/// encoding, which `snap::raw::Decoder` decompresses back to the input.
#[verifier::external_body]
fn snap_compress(input: &[u8]) -> (r: Result<Vec<u8>, snap::Error>)
    ensures
        r is Ok <==> compressible(input@.len()),
        r matches Ok(c) ==> c@ == snap_compressed(input@) && snap_decompressed(c@) == Some(
            input@,
        ),
{
    snap::raw::Encoder::new().compress_vec(input)
}

/// Decompresses `input` with `snap::raw::Decoder::decompress_vec`; what it
/// gives depends on the input alone.
#[verifier::external_body]
fn snap_decompress(input: &[u8]) -> (r: Result<Vec<u8>, snap::Error>)
    ensures
        r matches Ok(d) ==> snap_decompressed(input@) == Some(d@),
        r is Err ==> snap_decompressed(input@) is None,
{
    snap::raw::Decoder::new().decompress_vec(input)
}

/// `String::from_utf8`: the bytes as text where they are valid UTF-8.
#[verifier::external_body]
fn string_from_utf8(bytes: Vec<u8>) -> (r: Option<String>)
    ensures
        r is Some <==> valid_utf8(bytes@),
        r matches Some(s) ==> s@ == decode_utf8(bytes@),
{
    String::from_utf8(bytes).ok()
}

/// Why stored bytes could not be produced or read back.
#[derive(Debug, Clone, Copy, PartialEq, Eq, Structural)]
pub enum BinaryError {
    /// The data is too large to compress.
    Compress,
    /// The stored bytes are not raw Snappy data.
    Decompress,
    /// The decompressed bytes are not UTF-8 text.
    NotUtf8,
}

/// Compresses serialized data for storage.
pub fn compress_serialized(serialized: &[u8]) -> (r: Result<Vec<u8>, BinaryError>)
    ensures
        r is Ok <==> compressible(serialized@.len()),
        r matches Ok(c) ==> c@ == snap_compressed(serialized@),
        r matches Ok(c) ==> snap_decompressed(c@) == Some(serialized@),
        r matches Err(e) ==> e == BinaryError::Compress,
{
    match snap_compress(serialized) {
        Ok(c) => Ok(c),
        Err(_) => Err(BinaryError::Compress),
    }
}

/// Decompresses stored data back to its serialized form.
pub fn decompress_serialized(data: &[u8]) -> (r: Result<Vec<u8>, BinaryError>)
    ensures
        r matches Ok(d) ==> snap_decompressed(data@) == Some(d@),
        r matches Err(e) ==> e == BinaryError::Decompress && snap_decompressed(data@) is None,
{
    match snap_decompress(data) {
        Ok(d) => Ok(d),
        Err(_) => Err(BinaryError::Decompress),
    }
}

/// A neuron graph in the graphviz text form.
#[derive(Debug, Clone)]
pub struct Graph {
    pub graph: String,
}

impl Graph {
    /// The graph's text as UTF-8, compressed.
    pub fn to_binary(&self) -> (r: Result<Vec<u8>, BinaryError>)
        ensures
            r is Ok <==> compressible(vstd::utf8::encode_utf8(self.graph@).len()),
            r matches Ok(c) ==> c@ == snap_compressed(vstd::utf8::encode_utf8(self.graph@)),
            r matches Ok(c) ==> snap_decompressed(c@) == Some(vstd::utf8::encode_utf8(self.graph@)),
            r matches Err(e) ==> e == BinaryError::Compress,
    {
        compress_serialized(self.graph.as_str().as_bytes())
    }

    /// The graph whose text, as UTF-8, `bytes` compress.
    pub fn from_binary(bytes: &[u8]) -> (r: Result<Self, BinaryError>)
        ensures
            r matches Ok(g) ==> snap_decompressed(bytes@) matches Some(d) && valid_utf8(d)
                && g.graph@ == decode_utf8(d),
            r matches Err(BinaryError::Decompress) ==> snap_decompressed(bytes@) is None,
            r matches Err(BinaryError::NotUtf8) ==> snap_decompressed(bytes@) matches Some(d)
                && !valid_utf8(d),
            !(r matches Err(BinaryError::Compress)),
    {
        let data = decompress_serialized(bytes)?;
        match string_from_utf8(data) {
            Some(graph) => Ok(Graph { graph }),
            None => Err(BinaryError::NotUtf8),
        }
    }
}

/// A stored graph reads back as the graph that was stored.
pub proof fn law_graph_text_roundtrip(text: Seq<char>)
    ensures
        valid_utf8(vstd::utf8::encode_utf8(text)),
        decode_utf8(vstd::utf8::encode_utf8(text)) == text,
{
    vstd::utf8::encode_utf8_valid_utf8(text);
    vstd::utf8::encode_utf8_decode_utf8(text);
}

} // verus!

use flate2::read::GzDecoder;
use std::io::Read;
use vstd::prelude::*;

use super::{BaseEntry, BaseView, Entry, EntryExtract, EntryView, ExtractError, MemoryEntry};

verus! {

/// An entry whose data is a gzip stream.
#[derive(Debug, PartialEq)]
pub struct CompressedEntry<'a> {
    pub entry: MemoryEntry<'a>,
    /// The size of the data once decompressed, as the archive records it.
    pub original_len: u32,
}

/// An entry that is either stored as it is or compressed.
#[derive(Debug, PartialEq)]
pub enum Compressor<'a> {
    Compress(BaseEntry<'a>),
    Compressed(CompressedEntry<'a>),
}

/// What an entry's contents are read from: bytes stored in the archive,
/// bytes decrypted from it, or a gzip stream of either kind that is decoded
/// as it is read.
#[derive(Debug, PartialEq)]
pub enum Decompressor<'a> {
    /// A gzip stream stored in the archive.
    Decompress(&'a [u8]),
    /// Bytes stored in the archive as they are.
    Uncompressed(&'a [u8]),
    /// Bytes decrypted from the archive.
    Decrypted(Vec<u8>),
    /// A gzip stream decrypted from the archive.
    DecryptedDecompress(Vec<u8>),
}

/// The model of a `Decompressor`.
pub enum DecompressorView {
    Decompress(Seq<u8>),
    Uncompressed(Seq<u8>),
    Decrypted(Seq<u8>),
    DecryptedDecompress(Seq<u8>),
}

impl<'a> View for Decompressor<'a> {
    type V = DecompressorView;

    open spec fn view(&self) -> DecompressorView {
        match self {
            Decompressor::Decompress(b) => DecompressorView::Decompress(b@),
            Decompressor::Uncompressed(b) => DecompressorView::Uncompressed(b@),
            Decompressor::Decrypted(v) => DecompressorView::Decrypted(v@),
            Decompressor::DecryptedDecompress(v) => DecompressorView::DecryptedDecompress(v@),
        }
    }
}

/// The bytes that reading `v` to its end gives, or `None` where its gzip
/// stream is malformed.
pub open spec fn spec_contents(v: DecompressorView) -> Option<Seq<u8>> {
    match v {
        DecompressorView::Decompress(b) => gunzip(b),
        DecompressorView::Uncompressed(b) => Some(b),
        DecompressorView::Decrypted(b) => Some(b),
        DecompressorView::DecryptedDecompress(b) => gunzip(b),
    }
}

impl<'a> Decompressor<'a> {
    /// Reads the contents to their end, decoding a gzip stream.
    pub fn read_to_end(&self) -> (r: Result<Vec<u8>, ExtractError>)
        ensures
            match r {
                Ok(v) => spec_contents(self@) == Some(v@),
                Err(e) => spec_contents(self@) is None && e == ExtractError::InvalidGzip,
            },
    {
        let decoded = match self {
            Decompressor::Uncompressed(b) => return Ok(vstd::slice::slice_to_vec(b)),
            Decompressor::Decrypted(v) => return Ok(vstd::slice::slice_to_vec(v.as_slice())),
            Decompressor::Decompress(b) => gz_decode(b),
            Decompressor::DecryptedDecompress(v) => gz_decode(v.as_slice()),
        };
        match decoded {
            Some(v) => Ok(v),
            None => Err(ExtractError::InvalidGzip),
        }
    }
}

/// The model of a `CompressedEntry`.
pub struct CompressedView {
    pub entry: EntryView,
    pub original_len: u32,
}

/// The model of a `Compressor`.
pub enum CompressorView {
    Compress(BaseView),
    Compressed(CompressedView),
}

impl<'a> View for CompressedEntry<'a> {
    type V = CompressedView;

    open spec fn view(&self) -> CompressedView {
        CompressedView { entry: self.entry@, original_len: self.original_len }
    }
}

impl<'a> View for Compressor<'a> {
    type V = CompressorView;

    open spec fn view(&self) -> CompressorView {
        match self {
            Compressor::Compress(e) => CompressorView::Compress(e@),
            Compressor::Compressed(e) => CompressorView::Compressed(e@),
        }
    }
}

/// What decoding the first gzip member of `data` with flate2's
/// `read::GzDecoder` gives: the decompressed bytes, or `None` where the
/// stream is malformed.
pub uninterp spec fn gunzip(data: Seq<u8>) -> Option<Seq<u8>>;

/// Decompresses `data` by reading a `flate2::read::GzDecoder` over it to its end.
///
/// Trusted: the outcome is the function `gunzip` of the bytes; an I/O error
/// of the decoder is reported as `None`.
#[verifier::external_body]
pub(crate) fn gz_decode(data: &[u8]) -> (r: Option<Vec<u8>>)
    ensures
        match r {
            Some(v) => gunzip(data@) == Some(v@),
            None => gunzip(data@) is None,
        },
{
    let mut out = Vec::new();
    match GzDecoder::new(data).read_to_end(&mut out) {
        Ok(_) => Some(out),
        Err(_) => None,
    }
}

impl<'a> Entry for CompressedEntry<'a> {
    open spec fn named(&self) -> bool {
        true
    }

    open spec fn spec_name(&self) -> Seq<char> {
        self.entry.name@
    }

    fn name(&self) -> (r: &str) {
        self.entry.name.as_str()
    }
}

impl<'a> Entry for Compressor<'a> {
    open spec fn named(&self) -> bool {
        match self {
            Compressor::Compress(e) => e.named(),
            Compressor::Compressed(e) => e.named(),
        }
    }

    open spec fn spec_name(&self) -> Seq<char> {
        match self {
            Compressor::Compress(e) => e.spec_name(),
            Compressor::Compressed(e) => e.spec_name(),
        }
    }

    fn name(&self) -> (r: &str) {
        match self {
            Compressor::Compress(e) => e.name(),
            Compressor::Compressed(e) => e.name(),
        }
    }
}

impl<'a> EntryExtract<'a> for CompressedEntry<'a> {
    /// The stored gzip stream, to be decoded as it is read.
    open spec fn spec_extract(&self) -> Option<DecompressorView> {
        Some(DecompressorView::Decompress(self.entry.data@))
    }

    fn extractor(&self) -> (r: Result<Option<Decompressor<'a>>, ExtractError>)
        ensures
            r == Ok::<Option<Decompressor<'a>>, ExtractError>(
                Some(Decompressor::Decompress(self.entry.data)),
            ),
    {
        Ok(Some(Decompressor::Decompress(self.entry.data)))
    }
}

impl<'a> EntryExtract<'a> for Compressor<'a> {
    /// A stored entry comes out as it is; a compressed one is decompressed.
    open spec fn spec_extract(&self) -> Option<DecompressorView> {
        match self {
            Compressor::Compress(e) => e.spec_extract(),
            Compressor::Compressed(e) => e.spec_extract(),
        }
    }

    fn extractor(&self) -> (r: Result<Option<Decompressor<'a>>, ExtractError>)
        ensures
            self matches Compressor::Compress(BaseEntry::Memory(m)) ==> r == Ok::<
                Option<Decompressor<'a>>,
                ExtractError,
            >(Some(Decompressor::Uncompressed(m.data))),
            self matches Compressor::Compress(BaseEntry::File(_)) ==> r == Ok::<
                Option<Decompressor<'a>>,
                ExtractError,
            >(None),
            self matches Compressor::Compressed(c) ==> r == Ok::<
                Option<Decompressor<'a>>,
                ExtractError,
            >(Some(Decompressor::Decompress(c.entry.data))),
    {
        match self {
            Compressor::Compress(e) => e.extractor(),
            Compressor::Compressed(e) => e.extractor(),
        }
    }
}

impl<'a> vstd::std_specs::convert::FromSpecImpl<BaseEntry<'a>> for Compressor<'a> {
    open spec fn obeys_from_spec() -> bool {
        true
    }

    open spec fn from_spec(v: BaseEntry<'a>) -> Self {
        Compressor::Compress(v)
    }
}

impl<'a> From<BaseEntry<'a>> for Compressor<'a> {
    fn from(v: BaseEntry<'a>) -> (r: Self) {
        Compressor::Compress(v)
    }
}

impl<'a> vstd::std_specs::convert::FromSpecImpl<CompressedEntry<'a>> for Compressor<'a> {
    open spec fn obeys_from_spec() -> bool {
        true
    }

    open spec fn from_spec(v: CompressedEntry<'a>) -> Self {
        Compressor::Compressed(v)
    }
}

impl<'a> From<CompressedEntry<'a>> for Compressor<'a> {
    fn from(v: CompressedEntry<'a>) -> (r: Self) {
        Compressor::Compressed(v)
    }
}

/// Reading contents to their end hands back bytes that are stored or
/// decrypted exactly as they are, and decodes a gzip stream, stored or
/// decrypted, with flate2.
pub proof fn lemma_contents(b: Seq<u8>)
    ensures
        spec_contents(DecompressorView::Uncompressed(b)) == Some(b),
        spec_contents(DecompressorView::Decrypted(b)) == Some(b),
        spec_contents(DecompressorView::Decompress(b)) == gunzip(b),
        spec_contents(DecompressorView::DecryptedDecompress(b)) == gunzip(b),
{
}

/// Extracting an entry of an `FArC` archive and reading it gives the stored
/// bytes of a stored entry, and the gzip decoding of a compressed one.
pub proof fn lemma_compressor_contents<'a>(c: Compressor<'a>)
    ensures
        c matches Compressor::Compress(BaseEntry::Memory(m)) ==> c.spec_extract() matches Some(
            v,
        ) && spec_contents(v) == Some(m.data@),
        c matches Compressor::Compressed(e) ==> c.spec_extract() matches Some(v) && spec_contents(
            v,
        ) == gunzip(e.entry.data@),
{
}

} // verus!

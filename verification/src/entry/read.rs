use vstd::prelude::*;

use super::compress::{CompressedEntry, CompressedView, Compressor, CompressorView};
use super::encrypt::{Encrypt, Encryptor, EncryptorView};
use super::{BaseEntry, BaseView, Entry, EntryView, MemoryEntry};
use crate::read::error::{ParserError, ParserErrorKind, ReadError};
use crate::read::utilities::{
    be_u32, be_usize, fail_as, lemma_string_consumes, map_done, outcome, slice_input,
    spec_be_u32, spec_string, string, Parsed, ReadResult,
};

verus! {

/// Entries that can be read from an entry record of an archive.
pub trait ReadEntry<'a>: Entry + Sized {
    /// The model of reading one entry record at `i` within the archive `i0`.
    spec fn spec_read(i0: Seq<u8>, i: Seq<u8>) -> Parsed<Self::V>;

    /// A record that is read consumes some input.
    proof fn lemma_read_consumes(i0: Seq<u8>, i: Seq<u8>)
        ensures
            Self::spec_read(i0, i) matches Parsed::Done(r, _) ==> r.len() < i.len(),
    ;

    /// Reads one entry record at `i` within the archive `i0`.
    fn read(i0: &'a [u8], i: &'a [u8]) -> (r: ReadResult<'a, Self>)
        ensures
            outcome(r) == Self::spec_read(i0@, i@),
    ;
}

/// Entries of the archives with the magic `FArc` or `FArC`.
pub trait BasicEntry<'a>: ReadEntry<'a> {

}

/// Entries of the archives with the magic `FARC`, whose header records a
/// mode: bit 1 for compressed and bit 2 for encrypted entries.
pub trait ExtendEntry<'a>: ReadEntry<'a> {
    spec fn spec_mode() -> u32;

    fn mode() -> (m: u32)
        ensures
            m == Self::spec_mode(),
    ;
}

/// The model of an entry record: a NUL-terminated name, then the big-endian
/// offset and length of the entry's data within the whole archive.
pub open spec fn spec_read_memory(i0: Seq<u8>, i: Seq<u8>) -> Parsed<EntryView> {
    match spec_string(i) {
        Parsed::Done(r1, name) => match spec_be_u32(r1) {
            Parsed::Done(r2, pos) => match spec_be_u32(r2) {
                Parsed::Done(r3, len) => if pos as int + len as int > i0.len() {
                    Parsed::Failure(i0, ParserErrorKind::InvalidOffset)
                } else {
                    Parsed::Done(
                        r3,
                        EntryView { name, data: i0.subrange(pos as int, pos as int + len as int) },
                    )
                },
                p => fail_as(p),
            },
            p => fail_as(p),
        },
        p => fail_as(p),
    }
}

/// The model of a compressed entry record: an entry record followed by the
/// big-endian decompressed size.
pub open spec fn spec_read_compressed(i0: Seq<u8>, i: Seq<u8>) -> Parsed<CompressedView> {
    match spec_read_memory(i0, i) {
        Parsed::Done(r, entry) => match spec_be_u32(r) {
            Parsed::Done(r2, original_len) => Parsed::Done(
                r2,
                CompressedView { entry, original_len },
            ),
            p => fail_as(p),
        },
        p => fail_as(p),
    }
}

proof fn lemma_memory_consumes(i0: Seq<u8>, i: Seq<u8>)
    ensures
        spec_read_memory(i0, i) matches Parsed::Done(r, _) ==> r.len() < i.len(),
{
    lemma_string_consumes(i);
}

impl<'a> ReadEntry<'a> for MemoryEntry<'a> {
    open spec fn spec_read(i0: Seq<u8>, i: Seq<u8>) -> Parsed<EntryView> {
        spec_read_memory(i0, i)
    }

    proof fn lemma_read_consumes(i0: Seq<u8>, i: Seq<u8>) {
        lemma_memory_consumes(i0, i);
    }

    fn read(i0: &'a [u8], i: &'a [u8]) -> (r: ReadResult<'a, Self>) {
        let (i, name) = match string(i) {
            Ok(x) => x,
            Err(e) => return Err(e),
        };
        let (i, pos) = match be_usize(i) {
            Ok(x) => x,
            Err(e) => return Err(e),
        };
        let (i, len) = match be_usize(i) {
            Ok(x) => x,
            Err(e) => return Err(e),
        };
        if pos as u64 + len as u64 > i0.len() as u64 {
            return Err(ReadError::Failure(ParserError(i0, ParserErrorKind::InvalidOffset)));
        }
        let data = match slice_input(i0, pos..pos + len) {
            Ok(d) => d,
            Err(e) => return Err(e),
        };
        Ok((i, MemoryEntry { name, data }))
    }
}

impl<'a> ReadEntry<'a> for BaseEntry<'a> {
    open spec fn spec_read(i0: Seq<u8>, i: Seq<u8>) -> Parsed<BaseView> {
        map_done(spec_read_memory(i0, i), |m: EntryView| BaseView::Memory(m))
    }

    proof fn lemma_read_consumes(i0: Seq<u8>, i: Seq<u8>) {
        lemma_memory_consumes(i0, i);
    }

    fn read(i0: &'a [u8], i: &'a [u8]) -> (r: ReadResult<'a, Self>) {
        match MemoryEntry::read(i0, i) {
            Ok((i, entry)) => Ok((i, BaseEntry::Memory(entry))),
            Err(e) => Err(e),
        }
    }
}

impl<'a> ReadEntry<'a> for CompressedEntry<'a> {
    open spec fn spec_read(i0: Seq<u8>, i: Seq<u8>) -> Parsed<CompressedView> {
        spec_read_compressed(i0, i)
    }

    proof fn lemma_read_consumes(i0: Seq<u8>, i: Seq<u8>) {
        lemma_memory_consumes(i0, i);
    }

    fn read(i0: &'a [u8], i: &'a [u8]) -> (r: ReadResult<'a, Self>) {
        let (i, entry) = match MemoryEntry::read(i0, i) {
            Ok(x) => x,
            Err(e) => return Err(e),
        };
        let (i, original_len) = match be_u32(i) {
            Ok(x) => x,
            Err(e) => return Err(e),
        };
        Ok((i, CompressedEntry { entry, original_len }))
    }
}

impl<'a> ReadEntry<'a> for Compressor<'a> {
    open spec fn spec_read(i0: Seq<u8>, i: Seq<u8>) -> Parsed<CompressorView> {
        map_done(spec_read_compressed(i0, i), |c: CompressedView| CompressorView::Compressed(c))
    }

    proof fn lemma_read_consumes(i0: Seq<u8>, i: Seq<u8>) {
        lemma_memory_consumes(i0, i);
    }

    fn read(i0: &'a [u8], i: &'a [u8]) -> (r: ReadResult<'a, Self>) {
        match CompressedEntry::read(i0, i) {
            Ok((i, entry)) => Ok((i, Compressor::Compressed(entry))),
            Err(e) => Err(e),
        }
    }
}

impl<'a, E> ReadEntry<'a> for Encryptor<E> where E: Encrypt, E::Decrypt: ReadEntry<'a> {
    /// An encrypted archive's record is read as the record of what it holds.
    open spec fn spec_read(i0: Seq<u8>, i: Seq<u8>) -> Parsed<Self::V> {
        map_done(
            <E::Decrypt as ReadEntry<'a>>::spec_read(i0, i),
            |d: <E::Decrypt as View>::V| EncryptorView::Encrypted(d),
        )
    }

    proof fn lemma_read_consumes(i0: Seq<u8>, i: Seq<u8>) {
        <E::Decrypt as ReadEntry<'a>>::lemma_read_consumes(i0, i);
    }

    fn read(i0: &'a [u8], i: &'a [u8]) -> (r: ReadResult<'a, Self>) {
        match <E::Decrypt as ReadEntry<'a>>::read(i0, i) {
            Ok((i, entry)) => Ok((i, Encryptor::Encrypted(entry))),
            Err(e) => Err(e),
        }
    }
}

impl<'a> BasicEntry<'a> for MemoryEntry<'a> {

}

impl<'a> BasicEntry<'a> for BaseEntry<'a> {

}

impl<'a> BasicEntry<'a> for CompressedEntry<'a> {

}

impl<'a> BasicEntry<'a> for Compressor<'a> {

}

impl<'a> ExtendEntry<'a> for MemoryEntry<'a> {
    open spec fn spec_mode() -> u32 {
        0
    }

    fn mode() -> (m: u32) {
        0
    }
}

impl<'a> ExtendEntry<'a> for BaseEntry<'a> {
    open spec fn spec_mode() -> u32 {
        0
    }

    fn mode() -> (m: u32) {
        0
    }
}

impl<'a> ExtendEntry<'a> for CompressedEntry<'a> {
    open spec fn spec_mode() -> u32 {
        2
    }

    fn mode() -> (m: u32) {
        2
    }
}

impl<'a> ExtendEntry<'a> for Compressor<'a> {
    open spec fn spec_mode() -> u32 {
        2
    }

    fn mode() -> (m: u32) {
        2
    }
}

impl<'a, E> ExtendEntry<'a> for Encryptor<E> where
    E: ExtendEntry<'a> + Encrypt,
    E::Decrypt: ReadEntry<'a>,
 {
    /// The mode of the entries held, with the encryption bit set.
    open spec fn spec_mode() -> u32 {
        E::spec_mode() | 4
    }

    fn mode() -> (m: u32) {
        E::mode() | 4
    }
}

} // verus!

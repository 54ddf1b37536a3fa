use vstd::prelude::*;
use vstd::slice::slice_subrange;

pub mod error;
pub mod laws;
pub mod utilities;

use self::error::{ErrorKind, ParserError, ParserErrorKind, ReadError};
use self::utilities::{
    be32, be_u32, be_usize, fail_as, lemma_skip_skip, map_done, or_else, outcome, outcome_opt, slice_input,
    spec_be_u32, Parsed, ReadResult,
};
use crate::archive::{
    ArchiveView, BaseArchive, BasicArchive, CompressArchive, ExtendArchive, ExtendedArchives,
    FutureArchive, FutureArchives, GenericArchive, GenericView, ModeView,
};
use crate::entry::compress::Compressor;
use crate::entry::encrypt::Encryptor;
use crate::entry::read::{BasicEntry, ExtendEntry, ReadEntry};
use crate::entry::BaseEntry;

verus! {

/// The bytes of the magic `FArc`.
pub open spec fn base_magic_bytes() -> Seq<u8> {
    seq![0x46u8, 0x41u8, 0x72u8, 0x63u8]
}

/// The bytes of the magic `FArC`.
pub open spec fn compress_magic_bytes() -> Seq<u8> {
    seq![0x46u8, 0x41u8, 0x72u8, 0x43u8]
}

/// The bytes of the magic `FARC`.
pub open spec fn farc_magic_bytes() -> Seq<u8> {
    seq![0x46u8, 0x41u8, 0x52u8, 0x43u8]
}

/// The model of one entry record of an archive; a version 1 archive
/// follows each record with a four-byte field that is skipped.
pub open spec fn spec_record<'a, E: ReadEntry<'a>>(i0: Seq<u8>, s: Seq<u8>, trailer: bool) -> Parsed<
    E::V,
> {
    if trailer {
        match E::spec_read(i0, s) {
            Parsed::Done(r, v) => match spec_be_u32(r) {
                Parsed::Done(r2, _) => Parsed::Done(r2, v),
                p => fail_as(p),
            },
            p => p,
        }
    } else {
        E::spec_read(i0, s)
    }
}

/// `v` in front of the values of a successful step.
pub open spec fn prepend<V>(vs: Seq<V>, p: Parsed<Seq<V>>) -> Parsed<Seq<V>> {
    match p {
        Parsed::Done(r, ws) => Parsed::Done(r, vs + ws),
        _ => p,
    }
}

/// The model of reading entry records at `s` until one is rejected with a
/// recoverable error (where the records end).
pub open spec fn spec_many<'a, E: ReadEntry<'a>>(i0: Seq<u8>, s: Seq<u8>, trailer: bool) -> Parsed<
    Seq<E::V>,
>
    decreases s.len(),
{
    match spec_record::<E>(i0, s, trailer) {
        Parsed::Error(_, _) => Parsed::Done(s, Seq::empty()),
        Parsed::Done(r, v) => if r.len() < s.len() {
            prepend(seq![v], spec_many::<E>(i0, r, trailer))
        } else {
            Parsed::Error(s, ParserErrorKind::Other(ErrorKind::Many1))
        },
        p => fail_as(p),
    }
}

/// The model of reading the entry table `s` of the archive `i0`: at least
/// one record, then as many as can be read.
pub open spec fn spec_many1<'a, E: ReadEntry<'a>>(i0: Seq<u8>, s: Seq<u8>, trailer: bool) -> Parsed<
    Seq<E::V>,
> {
    match spec_record::<E>(i0, s, trailer) {
        Parsed::Done(r, v) => prepend(seq![v], spec_many::<E>(i0, r, trailer)),
        p => fail_as(p),
    }
}

/// The model of an executable read of an entry table.
pub open spec fn outcome_entries<'a, E: View>(r: ReadResult<'a, Vec<E>>) -> Parsed<Seq<E::V>> {
    match r {
        Ok((rest, v)) => Parsed::Done(rest@, v@.map_values(|e: E| e@)),
        Err(ReadError::Error(e)) => Parsed::Error(e.0@, e.1),
        Err(ReadError::Failure(e)) => Parsed::Failure(e.0@, e.1),
    }
}

/// The model of an archive with a four-byte magic, then the big-endian
/// header size `bs` and alignment; the entry table spans bytes 12 to
/// `bs + 8` of the archive.
pub open spec fn spec_read_basic<'a, E: ReadEntry<'a>>(i0: Seq<u8>, magic: Seq<u8>) -> Parsed<
    ArchiveView<E::V>,
> {
    if i0.len() < 4 || i0.take(4) != magic {
        Parsed::Error(i0, ParserErrorKind::Other(ErrorKind::Tag))
    } else if i0.len() < 8 {
        Parsed::Error(i0.skip(4), ParserErrorKind::Other(ErrorKind::Eof))
    } else if i0.len() < 12 {
        Parsed::Error(i0.skip(8), ParserErrorKind::Other(ErrorKind::Eof))
    } else {
        let end = be32(i0.skip(4)) + 8;
        if end < 12 || end > i0.len() {
            Parsed::Failure(i0, ParserErrorKind::InvalidOffset)
        } else {
            match spec_many1::<E>(i0, i0.subrange(12, end), false) {
                Parsed::Done(_, es) => Parsed::Done(
                    i0.skip(12),
                    ArchiveView { align: be32(i0.skip(8)) as u32, entries: es },
                ),
                p => fail_as(p),
            }
        }
    }
}

/// Where the entry table of a `FARC` archive starts: after the 28-byte
/// header of version 0, or the 32-byte header of version 1.
pub open spec fn table_start(future: bool) -> int {
    if future {
        32
    } else {
        28
    }
}

/// The model of an archive with the magic `FARC`: the header size `bs`, a
/// mode that must be that of the entries `E`, four skipped bytes, the
/// alignment and a format version that must be `version`. The entry table
/// ends at byte `bs + 8`; it starts at byte 28, or in a version 1 archive
/// (`future`), whose header holds eight more bytes, at byte 32, and there
/// each record is followed by a skipped four-byte field. Where the header
/// ends before its skipped bytes, the read aborts.
pub open spec fn spec_read_mode<'a, E: ExtendEntry<'a>>(
    i0: Seq<u8>,
    version: u32,
    future: bool,
) -> Parsed<ArchiveView<E::V>> {
    if i0.len() < 4 || i0.take(4) != farc_magic_bytes() {
        Parsed::Error(i0, ParserErrorKind::Other(ErrorKind::Tag))
    } else if i0.len() < 8 {
        Parsed::Error(i0.skip(4), ParserErrorKind::Other(ErrorKind::Eof))
    } else if i0.len() < 12 {
        Parsed::Error(i0.skip(8), ParserErrorKind::Other(ErrorKind::Eof))
    } else if be32(i0.skip(8)) != E::spec_mode() {
        Parsed::Error(i0.skip(8), ParserErrorKind::Other(ErrorKind::MapOpt))
    } else if i0.len() < 16 {
        Parsed::Aborted
    } else if i0.len() < 20 {
        Parsed::Error(i0.skip(16), ParserErrorKind::Other(ErrorKind::Eof))
    } else if i0.len() < 24 {
        Parsed::Error(i0.skip(20), ParserErrorKind::Other(ErrorKind::Eof))
    } else if be32(i0.skip(20)) != version {
        Parsed::Error(i0.skip(20), ParserErrorKind::Other(ErrorKind::MapOpt))
    } else if future && i0.len() < 32 {
        Parsed::Aborted
    } else {
        let end = be32(i0.skip(4)) + 8;
        let start = table_start(future);
        if end < start || end > i0.len() {
            Parsed::Failure(i0, ParserErrorKind::InvalidOffset)
        } else {
            match spec_many1::<E>(i0, i0.subrange(start, end), future) {
                Parsed::Done(_, es) => Parsed::Done(
                    if future {
                        i0.skip(32)
                    } else {
                        i0.skip(24)
                    },
                    ArchiveView { align: be32(i0.skip(16)) as u32, entries: es },
                ),
                p => fail_as(p),
            }
        }
    }
}

/// The model of reading a version 0 `FARC` archive: the first entry mode
/// that matches, tried in the order stored, compressed, encrypted, both.
pub open spec fn spec_read_extended(i0: Seq<u8>) -> Parsed<ModeView> {
    or_else(
        map_done(
            spec_read_mode::<BaseEntry<'static>>(i0, 0, false),
            |a| ModeView::Base(a),
        ),
        or_else(
            map_done(
                spec_read_mode::<Compressor<'static>>(i0, 0, false),
                |a| ModeView::Compress(a),
            ),
            or_else(
                map_done(
                    spec_read_mode::<Encryptor<BaseEntry<'static>>>(i0, 0, false),
                    |a| ModeView::Encrypt(a),
                ),
                map_done(
                    spec_read_mode::<Encryptor<Compressor<'static>>>(i0, 0, false),
                    |a| ModeView::CompressEncrypt(a),
                ),
            ),
        ),
    )
}

/// The model of reading a version 1 `FARC` archive, as for version 0.
pub open spec fn spec_read_future(i0: Seq<u8>) -> Parsed<ModeView> {
    or_else(
        map_done(
            spec_read_mode::<BaseEntry<'static>>(i0, 1, true),
            |a| ModeView::Base(a),
        ),
        or_else(
            map_done(
                spec_read_mode::<Compressor<'static>>(i0, 1, true),
                |a| ModeView::Compress(a),
            ),
            or_else(
                map_done(
                    spec_read_mode::<Encryptor<BaseEntry<'static>>>(i0, 1, true),
                    |a| ModeView::Encrypt(a),
                ),
                map_done(
                    spec_read_mode::<Encryptor<Compressor<'static>>>(i0, 1, true),
                    |a| ModeView::CompressEncrypt(a),
                ),
            ),
        ),
    )
}

/// The model of reading an archive of any kind: `FArc`, then `FArC`, then
/// a version 0 `FARC`, then a version 1 `FARC`. Where all are rejected with
/// recoverable errors, the last error stands.
pub open spec fn spec_read_generic(i0: Seq<u8>) -> Parsed<GenericView> {
    or_else(
        map_done(
            spec_read_basic::<BaseEntry<'static>>(i0, base_magic_bytes()),
            |a| GenericView::Base(a),
        ),
        or_else(
            map_done(
                spec_read_basic::<Compressor<'static>>(i0, compress_magic_bytes()),
                |a| GenericView::Compress(a),
            ),
            or_else(
                map_done(spec_read_extended(i0), |m| GenericView::Extended(m)),
                map_done(spec_read_future(i0), |m| GenericView::Future(m)),
            ),
        ),
    )
}

} // verus!

verus! {

proof fn lemma_record_consumes<'a, E: ReadEntry<'a>>(i0: Seq<u8>, s: Seq<u8>, trailer: bool)
    ensures
        spec_record::<E>(i0, s, trailer) matches Parsed::Done(r, _) ==> r.len() < s.len(),
{
    E::lemma_read_consumes(i0, s);
}

/// Reads one entry record, with its trailing field in a version 1 archive.
fn read_record<'a, E: ReadEntry<'a>>(i0: &'a [u8], s: &'a [u8], trailer: bool) -> (r: ReadResult<
    'a,
    E,
>)
    ensures
        outcome(r) == spec_record::<E>(i0@, s@, trailer),
{
    let (rest, e) = match E::read(i0, s) {
        Ok(x) => x,
        Err(err) => return Err(err),
    };
    if trailer {
        match be_u32(rest) {
            Ok((rest2, _)) => Ok((rest2, e)),
            Err(err) => Err(err),
        }
    } else {
        Ok((rest, e))
    }
}

/// Reads the entry table `s` of the archive `i0`: one record at least, then
/// records until one is rejected with a recoverable error.
fn read_entries<'a, E: ReadEntry<'a>>(i0: &'a [u8], s: &'a [u8], trailer: bool) -> (r: ReadResult<
    'a,
    Vec<E>,
>)
    ensures
        outcome_entries(r) == spec_many1::<E>(i0@, s@, trailer),
{
    let (mut cur, first) = match read_record::<E>(i0, s, trailer) {
        Ok(x) => x,
        Err(err) => return Err(err),
    };
    let mut acc: Vec<E> = Vec::new();
    acc.push(first);
    assert(acc@.map_values(|e: E| e@) =~= seq![first@]);
    loop
        invariant
            spec_many1::<E>(i0@, s@, trailer) == prepend(
                acc@.map_values(|e: E| e@),
                spec_many::<E>(i0@, cur@, trailer),
            ),
        decreases cur@.len(),
    {
        proof {
            lemma_record_consumes::<E>(i0@, cur@, trailer);
        }
        match read_record::<E>(i0, cur, trailer) {
            Err(ReadError::Error(_)) => {
                assert(acc@.map_values(|e: E| e@) + Seq::<E::V>::empty() =~= acc@.map_values(
                    |e: E| e@,
                ));
                return Ok((cur, acc));
            },
            Err(ReadError::Failure(err)) => return Err(ReadError::Failure(err)),
            Ok((rest, e)) => {
                let ghost old_views = acc@.map_values(|e: E| e@);
                let ghost v = e@;
                acc.push(e);
                proof {
                    assert(acc@.map_values(|e: E| e@) =~= old_views.push(v));
                    let tail = spec_many::<E>(i0@, rest@, trailer);
                    if let Parsed::Done(r2, ws) = tail {
                        assert(old_views + (seq![v] + ws) =~= old_views.push(v) + ws);
                    }
                }
                cur = rest;
            },
        }
    }
}

/// Checks the four-byte magic at the front of `i0`.
fn tag_matches(i0: &[u8], magic: &[u8]) -> (b: bool)
    requires
        magic@.len() == 4,
    ensures
        b == (i0@.len() >= 4 && i0@.take(4) == magic@),
{
    if i0.len() < 4 {
        return false;
    }
    let b = i0[0] == magic[0] && i0[1] == magic[1] && i0[2] == magic[2] && i0[3] == magic[3];
    proof {
        if b {
            assert(i0@.take(4) =~= magic@);
        } else {
            if i0@.take(4) == magic@ {
                assert(i0@.take(4)[0] == i0@[0]);
                assert(i0@.take(4)[1] == i0@[1]);
                assert(i0@.take(4)[2] == i0@[2]);
                assert(i0@.take(4)[3] == i0@[3]);
            }
        }
    }
    b
}

impl<'a, E: BasicEntry<'a>> BasicArchive<E> {
    /// Reads an archive with the magic `magic`.
    fn read_magic(i0: &'a [u8], magic: &[u8]) -> (r: ReadResult<'a, Self>)
        requires
            magic@.len() == 4,
        ensures
            outcome(r) == spec_read_basic::<E>(i0@, magic@),
    {
        if !tag_matches(i0, magic) {
            return Err(ReadError::Error(ParserError::from_error_kind(i0, ErrorKind::Tag)));
        }
        let i = slice_subrange(i0, 4, i0.len());
        proof {
            if i0@.len() >= 8 {
                assert(i0@.skip(4).skip(4) =~= i0@.skip(8));
            }
            if i0@.len() >= 12 {
                assert(i0@.skip(8).skip(4) =~= i0@.skip(12));
            }
        }
        let (i, bs) = match be_usize(i) {
            Ok(x) => x,
            Err(err) => return Err(err),
        };
        let (i, align) = match be_u32(i) {
            Ok(x) => x,
            Err(err) => return Err(err),
        };
        if bs as u64 + 8 > i0.len() as u64 {
            return Err(ReadError::Failure(ParserError(i0, ParserErrorKind::InvalidOffset)));
        }
        let region = match slice_input(i0, 12..bs + 8) {
            Ok(x) => x,
            Err(err) => return Err(err),
        };
        match read_entries::<E>(i0, region, false) {
            Ok((_, entries)) => Ok((i, BasicArchive { align, entries })),
            Err(err) => Err(err),
        }
    }
}

} // verus!

verus! {

/// The magic `FARC`.
const FARC_MAGIC: [u8; 4] = [0x46, 0x41, 0x52, 0x43];

/// The magic `FArc`.
const BASE_MAGIC: [u8; 4] = [0x46, 0x41, 0x72, 0x63];

/// The magic `FArC`.
const COMPRESS_MAGIC: [u8; 4] = [0x46, 0x41, 0x72, 0x43];

/// Reads a `FARC` archive of format version `version` whose entries are
/// `E`; `None` where the read aborts.
fn read_mode<'a, E: ExtendEntry<'a>>(i0: &'a [u8], version: u32, future: bool) -> (r: Option<
    ReadResult<'a, BasicArchive<E>>,
>)
    ensures
        outcome_opt(r) == spec_read_mode::<E>(i0@, version, future),
{
    let magic: &[u8] = &FARC_MAGIC;
    assert(magic@ =~= farc_magic_bytes());
    if !tag_matches(i0, magic) {
        return Some(Err(ReadError::Error(ParserError::from_error_kind(i0, ErrorKind::Tag))));
    }
    let n = i0.len();
    proof {
        if n >= 8 {
            lemma_skip_skip(i0@, 4, 4);
        }
        if n >= 12 {
            lemma_skip_skip(i0@, 8, 4);
        }
        if n >= 16 {
            lemma_skip_skip(i0@, 12, 4);
        }
        if n >= 20 {
            lemma_skip_skip(i0@, 16, 4);
        }
        if n >= 24 {
            lemma_skip_skip(i0@, 20, 4);
        }
        if n >= 32 {
            lemma_skip_skip(i0@, 24, 8);
        }
    }
    let i = slice_subrange(i0, 4, n);
    let (i, bs) = match be_usize(i) {
        Ok(x) => x,
        Err(err) => return Some(Err(err)),
    };
    let at_mode = i;
    let (i, mode) = match be_u32(i) {
        Ok(x) => x,
        Err(err) => return Some(Err(err)),
    };
    if E::mode() != mode {
        return Some(
            Err(ReadError::Error(ParserError::from_error_kind(at_mode, ErrorKind::MapOpt))),
        );
    }
    if i.len() < 4 {
        return None;
    }
    let i = slice_subrange(i, 4, i.len());
    let (i, align) = match be_u32(i) {
        Ok(x) => x,
        Err(err) => return Some(Err(err)),
    };
    let at_version = i;
    let (i, found) = match be_u32(i) {
        Ok(x) => x,
        Err(err) => return Some(Err(err)),
    };
    if found != version {
        return Some(
            Err(ReadError::Error(ParserError::from_error_kind(at_version, ErrorKind::MapOpt))),
        );
    }
    let i = if future {
        if i.len() < 8 {
            return None;
        }
        slice_subrange(i, 8, i.len())
    } else {
        i
    };
    if bs as u64 + 8 > n as u64 {
        return Some(Err(ReadError::Failure(ParserError(i0, ParserErrorKind::InvalidOffset))));
    }
    let start: usize = if future {
        32
    } else {
        28
    };
    let region = match slice_input(i0, start..bs + 8) {
        Ok(x) => x,
        Err(err) => return Some(Err(err)),
    };
    match read_entries::<E>(i0, region, future) {
        Ok((_, entries)) => Some(Ok((i, BasicArchive { align, entries }))),
        Err(err) => Some(Err(err)),
    }
}

} // verus!

verus! {

/// The result of a read that is known not to abort.
fn settle<'a, T: View>(r: Option<ReadResult<'a, T>>, i0: &'a [u8]) -> (out: ReadResult<'a, T>)
    requires
        r is Some,
    ensures
        outcome(out) == outcome_opt(r),
{
    match r {
        Some(x) => x,
        // not reached: `requires` rules out a read that aborts
        None => Err(ReadError::Failure(ParserError(i0, ParserErrorKind::InvalidOffset))),
    }
}

impl<'a> BasicArchive<BaseEntry<'a>> {
    /// Reads an `FArc` archive.
    pub fn read(i0: &'a [u8]) -> (r: ReadResult<'a, Self>)
        ensures
            outcome(r) == spec_read_basic::<BaseEntry<'a>>(i0@, base_magic_bytes()),
    {
        let magic: &[u8] = &BASE_MAGIC;
        assert(magic@ =~= base_magic_bytes());
        Self::read_magic(i0, magic)
    }
}

impl<'a> BasicArchive<Compressor<'a>> {
    /// Reads an `FArC` archive.
    pub fn read(i0: &'a [u8]) -> (r: ReadResult<'a, Self>)
        ensures
            outcome(r) == spec_read_basic::<Compressor<'a>>(i0@, compress_magic_bytes()),
    {
        let magic: &[u8] = &COMPRESS_MAGIC;
        assert(magic@ =~= compress_magic_bytes());
        Self::read_magic(i0, magic)
    }
}

impl<'a, E: ExtendEntry<'a>> ExtendArchive<E> {
    /// Reads a version 0 `FARC` archive whose entries are `E`; `None` where
    /// the read aborts.
    pub fn try_read(i0: &'a [u8]) -> (r: Option<ReadResult<'a, Self>>)
        ensures
            outcome_opt(r) == spec_read_mode::<E>(i0@, 0, false),
    {
        match read_mode::<E>(i0, 0, false) {
            None => None,
            Some(Ok((i, a))) => Some(Ok((i, ExtendArchive(a)))),
            Some(Err(err)) => Some(Err(err)),
        }
    }

    /// Reads a version 0 `FARC` archive whose entries are `E`.
    pub fn read(i0: &'a [u8]) -> (r: ReadResult<'a, Self>)
        requires
            !(spec_read_mode::<E>(i0@, 0, false) is Aborted),
        ensures
            outcome(r) == spec_read_mode::<E>(i0@, 0, false),
    {
        settle(Self::try_read(i0), i0)
    }
}

impl<'a, E: ExtendEntry<'a>> FutureArchive<E> {
    /// Reads a version 1 `FARC` archive whose entries are `E`; `None` where
    /// the read aborts.
    pub fn try_read(i0: &'a [u8]) -> (r: Option<ReadResult<'a, Self>>)
        ensures
            outcome_opt(r) == spec_read_mode::<E>(i0@, 1, true),
    {
        match read_mode::<E>(i0, 1, true) {
            None => None,
            Some(Ok((i, a))) => Some(Ok((i, FutureArchive(a)))),
            Some(Err(err)) => Some(Err(err)),
        }
    }

    /// Reads a version 1 `FARC` archive whose entries are `E`.
    pub fn read(i0: &'a [u8]) -> (r: ReadResult<'a, Self>)
        requires
            !(spec_read_mode::<E>(i0@, 1, true) is Aborted),
        ensures
            outcome(r) == spec_read_mode::<E>(i0@, 1, true),
    {
        settle(Self::try_read(i0), i0)
    }
}

impl<'a> ExtendedArchives<'a> {
    /// Reads a version 0 `FARC` archive of whichever entry mode its header
    /// records; `None` where the read aborts.
    pub fn try_read(i0: &'a [u8]) -> (r: Option<ReadResult<'a, Self>>)
        ensures
            outcome_opt(r) == spec_read_extended(i0@),
    {
        match ExtendArchive::<BaseEntry<'a>>::try_read(i0) {
            None => return None,
            Some(Ok((i, a))) => return Some(Ok((i, ExtendedArchives::Base(a)))),
            Some(Err(ReadError::Failure(e))) => return Some(Err(ReadError::Failure(e))),
            Some(Err(ReadError::Error(_))) => {},
        }
        match ExtendArchive::<Compressor<'a>>::try_read(i0) {
            None => return None,
            Some(Ok((i, a))) => return Some(Ok((i, ExtendedArchives::Compress(a)))),
            Some(Err(ReadError::Failure(e))) => return Some(Err(ReadError::Failure(e))),
            Some(Err(ReadError::Error(_))) => {},
        }
        match ExtendArchive::<Encryptor<BaseEntry<'a>>>::try_read(i0) {
            None => return None,
            Some(Ok((i, a))) => return Some(Ok((i, ExtendedArchives::Encrypt(a)))),
            Some(Err(ReadError::Failure(e))) => return Some(Err(ReadError::Failure(e))),
            Some(Err(ReadError::Error(_))) => {},
        }
        match ExtendArchive::<Encryptor<Compressor<'a>>>::try_read(i0) {
            None => None,
            Some(Ok((i, a))) => Some(Ok((i, ExtendedArchives::CompressEncrypt(a)))),
            Some(Err(ReadError::Failure(e))) => Some(Err(ReadError::Failure(e))),
            Some(Err(ReadError::Error(e))) => Some(
                Err(ReadError::Error(ParserError::append(i0, ErrorKind::Alt, e))),
            ),
        }
    }

    /// Reads a version 0 `FARC` archive of whichever entry mode its header records.
    pub fn read(i0: &'a [u8]) -> (r: ReadResult<'a, Self>)
        requires
            !(spec_read_extended(i0@) is Aborted),
        ensures
            outcome(r) == spec_read_extended(i0@),
    {
        settle(Self::try_read(i0), i0)
    }
}

impl<'a> FutureArchives<'a> {
    /// Reads a version 1 `FARC` archive of whichever entry mode its header
    /// records; `None` where the read aborts.
    pub fn try_read(i0: &'a [u8]) -> (r: Option<ReadResult<'a, Self>>)
        ensures
            outcome_opt(r) == spec_read_future(i0@),
    {
        match FutureArchive::<BaseEntry<'a>>::try_read(i0) {
            None => return None,
            Some(Ok((i, a))) => return Some(Ok((i, FutureArchives::Base(a)))),
            Some(Err(ReadError::Failure(e))) => return Some(Err(ReadError::Failure(e))),
            Some(Err(ReadError::Error(_))) => {},
        }
        match FutureArchive::<Compressor<'a>>::try_read(i0) {
            None => return None,
            Some(Ok((i, a))) => return Some(Ok((i, FutureArchives::Compress(a)))),
            Some(Err(ReadError::Failure(e))) => return Some(Err(ReadError::Failure(e))),
            Some(Err(ReadError::Error(_))) => {},
        }
        match FutureArchive::<Encryptor<BaseEntry<'a>>>::try_read(i0) {
            None => return None,
            Some(Ok((i, a))) => return Some(Ok((i, FutureArchives::Encrypt(a)))),
            Some(Err(ReadError::Failure(e))) => return Some(Err(ReadError::Failure(e))),
            Some(Err(ReadError::Error(_))) => {},
        }
        match FutureArchive::<Encryptor<Compressor<'a>>>::try_read(i0) {
            None => None,
            Some(Ok((i, a))) => Some(Ok((i, FutureArchives::CompressEncrypt(a)))),
            Some(Err(ReadError::Failure(e))) => Some(Err(ReadError::Failure(e))),
            Some(Err(ReadError::Error(e))) => Some(
                Err(ReadError::Error(ParserError::append(i0, ErrorKind::Alt, e))),
            ),
        }
    }

    /// Reads a version 1 `FARC` archive of whichever entry mode its header records.
    pub fn read(i0: &'a [u8]) -> (r: ReadResult<'a, Self>)
        requires
            !(spec_read_future(i0@) is Aborted),
        ensures
            outcome(r) == spec_read_future(i0@),
    {
        settle(Self::try_read(i0), i0)
    }
}

impl<'a> GenericArchive<'a> {
    /// Reads an archive of any kind; `None` where the read aborts.
    pub fn try_read(i0: &'a [u8]) -> (r: Option<ReadResult<'a, Self>>)
        ensures
            outcome_opt(r) == spec_read_generic(i0@),
    {
        match BaseArchive::read(i0) {
            Ok((i, a)) => return Some(Ok((i, GenericArchive::Base(a)))),
            Err(ReadError::Failure(e)) => return Some(Err(ReadError::Failure(e))),
            Err(ReadError::Error(_)) => {},
        }
        match CompressArchive::read(i0) {
            Ok((i, a)) => return Some(Ok((i, GenericArchive::Compress(a)))),
            Err(ReadError::Failure(e)) => return Some(Err(ReadError::Failure(e))),
            Err(ReadError::Error(_)) => {},
        }
        match ExtendedArchives::try_read(i0) {
            None => return None,
            Some(Ok((i, a))) => return Some(Ok((i, GenericArchive::Extended(a)))),
            Some(Err(ReadError::Failure(e))) => return Some(Err(ReadError::Failure(e))),
            Some(Err(ReadError::Error(_))) => {},
        }
        match FutureArchives::try_read(i0) {
            None => None,
            Some(Ok((i, a))) => Some(Ok((i, GenericArchive::Future(a)))),
            Some(Err(ReadError::Failure(e))) => Some(Err(ReadError::Failure(e))),
            Some(Err(ReadError::Error(e))) => Some(
                Err(ReadError::Error(ParserError::append(i0, ErrorKind::Alt, e))),
            ),
        }
    }

    /// Reads an archive of any kind.
    pub fn read(i0: &'a [u8]) -> (r: ReadResult<'a, Self>)
        requires
            !(spec_read_generic(i0@) is Aborted),
        ensures
            outcome(r) == spec_read_generic(i0@),
    {
        settle(Self::try_read(i0), i0)
    }
}

} // verus!

//! What holds of every archive that is read.
use vstd::prelude::*;

use super::error::{ErrorKind, ParserErrorKind};
use super::utilities::{be32, Parsed};
use super::{
    base_magic_bytes, compress_magic_bytes, farc_magic_bytes, spec_many, spec_many1,
    spec_read_basic, spec_read_extended, spec_read_future, spec_read_generic, spec_read_mode,
    spec_record, table_start,
};
use crate::archive::{farc_magic, generic_len, generic_magic, mode_len, GenericView, ModeView};
use crate::entry::compress::{CompressedView, Compressor, CompressorView};
use crate::entry::encrypt::{Encryptor, EncryptorView};
use crate::entry::read::{spec_read_compressed, spec_read_memory, ExtendEntry, ReadEntry};
use crate::entry::{BaseEntry, BaseView, EntryView};

verus! {

/// The entry table of an archive that is read holds at least one entry.
pub proof fn lemma_many1_nonempty<'a, E: ReadEntry<'a>>(i0: Seq<u8>, s: Seq<u8>, trailer: bool)
    ensures
        spec_many1::<E>(i0, s, trailer) matches Parsed::Done(_, es) ==> es.len() >= 1,
{
}

/// What holds of every entry record that is read holds of every entry of
/// the entry tables that are read.
pub proof fn lemma_many_all<'a, E: ReadEntry<'a>>(
    i0: Seq<u8>,
    s: Seq<u8>,
    trailer: bool,
    p: spec_fn(E::V) -> bool,
)
    requires
        forall|t: Seq<u8>| (#[trigger] E::spec_read(i0, t)) matches Parsed::Done(_, v) ==> p(v),
    ensures
        spec_many::<E>(i0, s, trailer) matches Parsed::Done(_, es) ==> forall|k: int|
            0 <= k < es.len() ==> p(#[trigger] es[k]),
        spec_many1::<E>(i0, s, trailer) matches Parsed::Done(_, es) ==> forall|k: int|
            0 <= k < es.len() ==> p(#[trigger] es[k]),
    decreases s.len(),
{
    let _ = E::spec_read(i0, s);
    E::lemma_read_consumes(i0, s);
    if let Parsed::Done(r, v) = spec_record::<E>(i0, s, trailer) {
        lemma_many_all::<E>(i0, r, trailer, p);
        if let Parsed::Done(r2, ws) = spec_many::<E>(i0, r, trailer) {
            assert forall|k: int| 0 <= k < (seq![v] + ws).len() implies p(
                #[trigger] (seq![v] + ws)[k],
            ) by {
                if k > 0 {
                    assert((seq![v] + ws)[k] == ws[k - 1]);
                }
            }
        }
    }
}

/// `data` is a contiguous run of the bytes of `i0`.
pub open spec fn lies_within(data: Seq<u8>, i0: Seq<u8>) -> bool {
    exists|p: int, q: int| 0 <= p <= q <= i0.len() && data == i0.subrange(p, q)
}

/// A stored entry read from `i0`, with its data in `i0`.
pub open spec fn stored_base(v: BaseView, i0: Seq<u8>) -> bool {
    v matches BaseView::Memory(m) && lies_within(m.data, i0)
}

/// A compressed entry read from `i0`, with its data in `i0`.
pub open spec fn stored_compressor(v: CompressorView, i0: Seq<u8>) -> bool {
    v matches CompressorView::Compressed(c) && lies_within(c.entry.data, i0)
}

/// An encrypted entry read from `i0`, with its data in `i0`.
pub open spec fn stored_encrypted(v: EncryptorView<BaseView, EntryView>, i0: Seq<u8>) -> bool {
    v matches EncryptorView::Encrypted(m) && lies_within(m.data, i0)
}

/// An encrypted compressed entry read from `i0`, with its data in `i0`.
pub open spec fn stored_encrypted_compressed(
    v: EncryptorView<CompressorView, CompressedView>,
    i0: Seq<u8>,
) -> bool {
    v matches EncryptorView::Encrypted(c) && lies_within(c.entry.data, i0)
}

/// Every entry of a `FARC` archive read from `i0` is stored in `i0`.
pub open spec fn mode_stored(v: ModeView, i0: Seq<u8>) -> bool {
    match v {
        ModeView::Base(a) => forall|k: int|
            0 <= k < a.entries.len() ==> stored_base(#[trigger] a.entries[k], i0),
        ModeView::Compress(a) => forall|k: int|
            0 <= k < a.entries.len() ==> stored_compressor(#[trigger] a.entries[k], i0),
        ModeView::Encrypt(a) => forall|k: int|
            0 <= k < a.entries.len() ==> stored_encrypted(#[trigger] a.entries[k], i0),
        ModeView::CompressEncrypt(a) => forall|k: int|
            0 <= k < a.entries.len() ==> stored_encrypted_compressed(#[trigger] a.entries[k], i0),
    }
}

/// Every entry of an archive read from `i0` is stored in `i0`.
pub open spec fn generic_stored(v: GenericView, i0: Seq<u8>) -> bool {
    match v {
        GenericView::Base(a) => forall|k: int|
            0 <= k < a.entries.len() ==> stored_base(#[trigger] a.entries[k], i0),
        GenericView::Compress(a) => forall|k: int|
            0 <= k < a.entries.len() ==> stored_compressor(#[trigger] a.entries[k], i0),
        GenericView::Extended(m) => mode_stored(m, i0),
        GenericView::Future(m) => mode_stored(m, i0),
    }
}

proof fn lemma_memory_within(i0: Seq<u8>, i: Seq<u8>)
    ensures
        spec_read_memory(i0, i) matches Parsed::Done(_, m) ==> lies_within(m.data, i0),
{
    if let Parsed::Done(_, m) = spec_read_memory(i0, i) {
        assert(exists|p: int, q: int| 0 <= p <= q <= i0.len() && m.data == i0.subrange(p, q)) by {
            let n1 = match super::utilities::spec_string(i) {
                Parsed::Done(x, _) => x,
                _ => i,
            };
            let pos = be32(n1);
            let len = be32(n1.skip(4));
            assert(0 <= pos as u32 as int <= pos as u32 as int + len as u32 as int <= i0.len());
            assert(m.data == i0.subrange(pos as u32 as int, pos as u32 as int + len as u32 as int));
        }
    }
}


proof fn lemma_compressed_within(i0: Seq<u8>, i: Seq<u8>)
    ensures
        spec_read_compressed(i0, i) matches Parsed::Done(_, c) ==> lies_within(c.entry.data, i0),
{
    lemma_memory_within(i0, i);
}

/// The header facts of a `FARC` archive read with entries `E`, and what
/// holds of each of its entries.
proof fn lemma_mode_facts<'a, E: ExtendEntry<'a>>(
    i0: Seq<u8>,
    version: u32,
    future: bool,
    p: spec_fn(E::V) -> bool,
)
    requires
        forall|t: Seq<u8>| (#[trigger] E::spec_read(i0, t)) matches Parsed::Done(_, v) ==> p(v),
    ensures
        spec_read_mode::<E>(i0, version, future) matches Parsed::Done(_, a) ==> {
            &&& i0.len() >= 24
            &&& i0.take(4) == farc_magic_bytes()
            &&& be32(i0.skip(8)) == E::spec_mode()
            &&& be32(i0.skip(20)) == version
            &&& a.entries.len() >= 1
            &&& forall|k: int| 0 <= k < a.entries.len() ==> p(#[trigger] a.entries[k])
        },
{
    if let Parsed::Done(_, a) = spec_read_mode::<E>(i0, version, future) {
        let end = be32(i0.skip(4)) + 8;
        lemma_many_all::<E>(i0, i0.subrange(table_start(future), end), future, p);
        lemma_many1_nonempty::<E>(i0, i0.subrange(table_start(future), end), future);
    }
}

/// The magic of an `FArc` or `FArC` archive read with entries `E`, and what
/// holds of each of its entries.
proof fn lemma_basic_facts<'a, E: ReadEntry<'a>>(
    i0: Seq<u8>,
    magic: Seq<u8>,
    p: spec_fn(E::V) -> bool,
)
    requires
        forall|t: Seq<u8>| (#[trigger] E::spec_read(i0, t)) matches Parsed::Done(_, v) ==> p(v),
    ensures
        spec_read_basic::<E>(i0, magic) matches Parsed::Done(_, a) ==> {
            &&& i0.len() >= 12
            &&& i0.take(4) == magic
            &&& a.entries.len() >= 1
            &&& forall|k: int| 0 <= k < a.entries.len() ==> p(#[trigger] a.entries[k])
        },
{
    if let Parsed::Done(_, a) = spec_read_basic::<E>(i0, magic) {
        let end = be32(i0.skip(4)) + 8;
        lemma_many_all::<E>(i0, i0.subrange(12, end), false, p);
        lemma_many1_nonempty::<E>(i0, i0.subrange(12, end), false);
    }
}


/// The entry mode that a `FARC` header records for each kind of archive.
pub open spec fn mode_of(v: ModeView) -> int {
    match v {
        ModeView::Base(_) => 0,
        ModeView::Compress(_) => 2,
        ModeView::Encrypt(_) => 4,
        ModeView::CompressEncrypt(_) => 6,
    }
}

proof fn lemma_records_stored(i0: Seq<u8>)
    ensures
        forall|t: Seq<u8>|
            (#[trigger] <BaseEntry<'static> as ReadEntry<'static>>::spec_read(i0, t)) matches Parsed::Done(_, v)
                ==> stored_base(v, i0),
        forall|t: Seq<u8>|
            (#[trigger] <Compressor<'static> as ReadEntry<'static>>::spec_read(i0, t)) matches Parsed::Done(_, v)
                ==> stored_compressor(v, i0),
        forall|t: Seq<u8>|
            (#[trigger] <Encryptor<BaseEntry<'static>> as ReadEntry<'static>>::spec_read(i0, t)) matches Parsed::Done(_, v)
                ==> stored_encrypted(v, i0),
        forall|t: Seq<u8>|
            (#[trigger] <Encryptor<Compressor<'static>> as ReadEntry<'static>>::spec_read(i0, t)) matches Parsed::Done(_, v)
                ==> stored_encrypted_compressed(v, i0),
{
    assert forall|t: Seq<u8>|
        (#[trigger] <BaseEntry<'static> as ReadEntry<'static>>::spec_read(i0, t)) matches Parsed::Done(_, v)
            ==> stored_base(v, i0) by {
        lemma_memory_within(i0, t);
    }
    assert forall|t: Seq<u8>|
        (#[trigger] <Compressor<'static> as ReadEntry<'static>>::spec_read(i0, t)) matches Parsed::Done(_, v)
            ==> stored_compressor(v, i0) by {
        lemma_compressed_within(i0, t);
    }
    assert forall|t: Seq<u8>|
        (#[trigger] <Encryptor<BaseEntry<'static>> as ReadEntry<'static>>::spec_read(i0, t)) matches Parsed::Done(_, v)
            ==> stored_encrypted(v, i0) by {
        lemma_memory_within(i0, t);
    }
    assert forall|t: Seq<u8>|
        (#[trigger] <Encryptor<Compressor<'static>> as ReadEntry<'static>>::spec_read(i0, t)) matches Parsed::Done(_, v)
            ==> stored_encrypted_compressed(v, i0) by {
        lemma_compressed_within(i0, t);
    }
}

/// The kind of a `FARC` archive that is read is the one its header records.
///
/// Reading a `FARC` archive of format version `version` from `i0` succeeds
/// only where `i0` starts with the magic `FARC` and holds that version; the
/// variant read is the one whose entry mode the header records (0 stored,
/// 2 compressed, 4 encrypted, 6 both); the archive has at least one entry,
/// and every entry is stored (compressed, encrypted or both as the mode
/// says) with its data a contiguous part of `i0`.
#[verifier::rlimit(40)]
pub proof fn lemma_mode_read(i0: Seq<u8>, version: u32)
    requires
        version == 0 || version == 1,
    ensures
        ({
            let p = if version == 0 {
                spec_read_extended(i0)
            } else {
                spec_read_future(i0)
            };
            p matches Parsed::Done(_, m) ==> {
                &&& i0.take(4) == farc_magic_bytes()
                &&& be32(i0.skip(8)) == mode_of(m)
                &&& be32(i0.skip(20)) == version
                &&& mode_len(m) >= 1
                &&& mode_stored(m, i0)
            }
        }),
{
    let future = version == 1;
    lemma_records_stored(i0);
    assert((0u32 | 4u32) == 4u32) by (bit_vector);
    assert((2u32 | 4u32) == 6u32) by (bit_vector);
    lemma_mode_facts::<BaseEntry<'static>>(i0, version, future, |v: BaseView| stored_base(v, i0));
    lemma_mode_facts::<Compressor<'static>>(
        i0,
        version,
        future,
        |v: CompressorView| stored_compressor(v, i0),
    );
    lemma_mode_facts::<Encryptor<BaseEntry<'static>>>(
        i0,
        version,
        future,
        |v: EncryptorView<BaseView, EntryView>| stored_encrypted(v, i0),
    );
    lemma_mode_facts::<Encryptor<Compressor<'static>>>(
        i0,
        version,
        future,
        |v: EncryptorView<CompressorView, CompressedView>| stored_encrypted_compressed(v, i0),
    );
}

/// The facts of `lemma_generic_read` for an archive read as `v`.
pub open spec fn generic_facts(v: GenericView, i0: Seq<u8>) -> bool {
    &&& generic_magic(v) == i0.take(4).map_values(|b: u8| b as char)
    &&& generic_len(v) >= 1
    &&& generic_stored(v, i0)
}

#[verifier::rlimit(40)]
proof fn lemma_base_branch(i0: Seq<u8>)
    ensures
        spec_read_basic::<BaseEntry<'static>>(i0, base_magic_bytes()) matches Parsed::Done(_, a)
            ==> generic_facts(GenericView::Base(a), i0),
{
    lemma_records_stored(i0);
    lemma_basic_facts::<BaseEntry<'static>>(i0, base_magic_bytes(), |v: BaseView| stored_base(v, i0));
    if let Parsed::Done(_, a) = spec_read_basic::<BaseEntry<'static>>(i0, base_magic_bytes()) {
        assert(generic_magic(GenericView::Base(a)) =~= i0.take(4).map_values(|b: u8| b as char));
    }
}

#[verifier::rlimit(40)]
proof fn lemma_compress_branch(i0: Seq<u8>)
    ensures
        spec_read_basic::<Compressor<'static>>(i0, compress_magic_bytes()) matches Parsed::Done(
            _,
            a,
        ) ==> generic_facts(GenericView::Compress(a), i0),
{
    lemma_records_stored(i0);
    lemma_basic_facts::<Compressor<'static>>(
        i0,
        compress_magic_bytes(),
        |v: CompressorView| stored_compressor(v, i0),
    );
    if let Parsed::Done(_, a) = spec_read_basic::<Compressor<'static>>(i0, compress_magic_bytes()) {
        assert(generic_magic(GenericView::Compress(a)) =~= i0.take(4).map_values(
            |b: u8| b as char,
        ));
    }
}

proof fn lemma_farc_chars(i0: Seq<u8>)
    requires
        i0.len() >= 4,
        i0.take(4) == farc_magic_bytes(),
    ensures
        i0.take(4).map_values(|b: u8| b as char) == farc_magic(),
{
    assert(i0.take(4).map_values(|b: u8| b as char) =~= farc_magic());
}

#[verifier::rlimit(40)]
proof fn lemma_extended_branch(i0: Seq<u8>)
    ensures
        spec_read_extended(i0) matches Parsed::Done(_, m) ==> generic_facts(
            GenericView::Extended(m),
            i0,
        ),
{
    lemma_mode_read(i0, 0);
    if let Parsed::Done(_, m) = spec_read_extended(i0) {
        lemma_farc_chars(i0);
    }
}

#[verifier::rlimit(40)]
proof fn lemma_future_branch(i0: Seq<u8>)
    ensures
        spec_read_future(i0) matches Parsed::Done(_, m) ==> generic_facts(
            GenericView::Future(m),
            i0,
        ),
{
    lemma_mode_read(i0, 1);
    if let Parsed::Done(_, m) = spec_read_future(i0) {
        lemma_farc_chars(i0);
    }
}

/// An archive that is read is what its magic says, and holds what it points at.
///
/// Where reading `i0` as an archive of any kind succeeds, the magic of the
/// archive read is the first four bytes of `i0`, the archive has at least
/// one entry, and every entry is stored with its data a contiguous part of `i0`.
pub proof fn lemma_generic_read(i0: Seq<u8>)
    ensures
        spec_read_generic(i0) matches Parsed::Done(_, v) ==> generic_facts(v, i0),
{
    lemma_base_branch(i0);
    lemma_compress_branch(i0);
    lemma_extended_branch(i0);
    lemma_future_branch(i0);
}

/// An input that starts with no known magic is refused at its start.
///
/// Where the first four bytes of `i0` are none of `FArc`, `FArC` and `FARC`
/// (or `i0` is shorter), reading an archive of any kind fails with the
/// recoverable error `Tag` at the whole input.
pub proof fn lemma_unknown_magic(i0: Seq<u8>)
    requires
        i0.len() < 4 || (i0.take(4) != base_magic_bytes() && i0.take(4) != compress_magic_bytes()
            && i0.take(4) != farc_magic_bytes()),
    ensures
        spec_read_generic(i0) == Parsed::<GenericView>::Error(
            i0,
            ParserErrorKind::Other(ErrorKind::Tag),
        ),
{
}

/// No input is both a version 0 and a version 1 `FARC` archive.
///
/// The version word at bytes 20 to 24 must be 0 for the one and 1 for the
/// other, so at most one of the two reads succeeds on any input, and
/// reading an archive of any kind does not depend on which is tried first.
pub proof fn lemma_versions_exclusive(i0: Seq<u8>)
    ensures
        !(spec_read_extended(i0) is Done && spec_read_future(i0) is Done),
{
    lemma_mode_read(i0, 0);
    lemma_mode_read(i0, 1);
}

/// The alignment of a `FARC` archive that is read, of either version, is
/// the big-endian word at bytes 16 to 20 (after the four skipped bytes).
pub proof fn lemma_mode_align<'a, E: ExtendEntry<'a>>(i0: Seq<u8>, version: u32, future: bool)
    ensures
        spec_read_mode::<E>(i0, version, future) matches Parsed::Done(_, a) ==> (i0.len() >= 24
            && a.align as int == be32(i0.skip(16))),
{
    if let Parsed::Done(_, a) = spec_read_mode::<E>(i0, version, future) {
        assert(be32(i0.skip(16)) < 0x1_0000_0000) by {
            let w = i0.skip(16);
            assert(w[0] < 256 && w[1] < 256 && w[2] < 256 && w[3] < 256);
        }
    }
}

/// The alignment of an `FArc` or `FArC` archive that is read is the
/// big-endian word at bytes 8 to 12.
pub proof fn lemma_basic_align<'a, E: ReadEntry<'a>>(i0: Seq<u8>, magic: Seq<u8>)
    ensures
        spec_read_basic::<E>(i0, magic) matches Parsed::Done(_, a) ==> (i0.len() >= 12
            && a.align as int == be32(i0.skip(8))),
{
    if let Parsed::Done(_, a) = spec_read_basic::<E>(i0, magic) {
        assert(be32(i0.skip(8)) < 0x1_0000_0000) by {
            let w = i0.skip(8);
            assert(w[0] < 256 && w[1] < 256 && w[2] < 256 && w[3] < 256);
        }
    }
}

/// How an entry table ends.
///
/// A record refused with a failure (such as an offset outside the archive)
/// fails the whole table; the table ends with no more entries exactly where
/// a record is refused with a recoverable error; and a table with entries
/// starts with the record read at its front, followed by the table read
/// after that record.
pub proof fn lemma_table_ends<'a, E: ReadEntry<'a>>(i0: Seq<u8>, s: Seq<u8>, trailer: bool)
    ensures
        spec_record::<E>(i0, s, trailer) matches Parsed::Failure(x, k) ==> spec_many::<E>(
            i0,
            s,
            trailer,
        ) == Parsed::<Seq<E::V>>::Failure(x, k),
        spec_record::<E>(i0, s, trailer) matches Parsed::Failure(x, k) ==> spec_many1::<E>(
            i0,
            s,
            trailer,
        ) == Parsed::<Seq<E::V>>::Failure(x, k),
        spec_many::<E>(i0, s, trailer) matches Parsed::Done(r, es) ==> ((es.len() == 0
            <==> spec_record::<E>(i0, s, trailer) is Error) && (es.len() == 0 ==> r == s)),
        spec_many::<E>(i0, s, trailer) matches Parsed::Done(r, es) ==> (es.len() > 0 ==> (
        spec_record::<E>(i0, s, trailer) matches Parsed::Done(r1, v) && v == es[0] && r1.len()
            < s.len() && spec_many::<E>(i0, r1, trailer) == Parsed::Done(r, es.drop_first()))),
        spec_many1::<E>(i0, s, trailer) matches Parsed::Done(r, es) ==> (spec_record::<E>(
            i0,
            s,
            trailer,
        ) matches Parsed::Done(r1, v) && v == es[0] && spec_many::<E>(i0, r1, trailer)
            == Parsed::Done(r, es.drop_first())),
{
    if let Parsed::Done(r1, v) = spec_record::<E>(i0, s, trailer) {
        if let Parsed::Done(r, ws) = spec_many::<E>(i0, r1, trailer) {
            assert((seq![v] + ws).drop_first() =~= ws);
        }
    }
}

/// In a version 1 archive the four-byte field after each entry record is
/// skipped whatever it holds: the record reads as the entry record alone,
/// followed by any four bytes.
pub proof fn lemma_trailer_skipped<'a, E: ReadEntry<'a>>(i0: Seq<u8>, s: Seq<u8>)
    ensures
        E::spec_read(i0, s) matches Parsed::Done(r, v) ==> (r.len() >= 4 ==> spec_record::<E>(
            i0,
            s,
            true,
        ) == Parsed::Done(r.skip(4), v)),
        E::spec_read(i0, s) matches Parsed::Done(r, v) ==> (r.len() < 4 ==> spec_record::<E>(
            i0,
            s,
            true,
        ) == Parsed::<E::V>::Error(r, ParserErrorKind::Other(ErrorKind::Eof))),
        !(E::spec_read(i0, s) is Done) ==> spec_record::<E>(i0, s, true) == E::spec_read(i0, s),
        spec_record::<E>(i0, s, false) == E::spec_read(i0, s),
{
}

/// Two version 1 records whose entry records read alike and whose trailing
/// four-byte fields differ read alike: the value of that field does not
/// matter.
pub proof fn lemma_trailer_value_ignored<'a, E: ReadEntry<'a>>(
    i0: Seq<u8>,
    s1: Seq<u8>,
    s2: Seq<u8>,
)
    requires
        E::spec_read(i0, s1) matches Parsed::Done(r1, v1) && E::spec_read(i0, s2) matches Parsed::Done(
            r2,
            v2,
        ) && v1 == v2 && r1.len() >= 4 && r2.len() >= 4 && r1.skip(4) == r2.skip(4),
    ensures
        spec_record::<E>(i0, s1, true) == spec_record::<E>(i0, s2, true),
{
    lemma_trailer_skipped::<E>(i0, s1);
    lemma_trailer_skipped::<E>(i0, s2);
}

/// The alignment recorded in the header of a `FARC` archive of any mode.
pub open spec fn mode_align(v: ModeView) -> u32 {
    match v {
        ModeView::Base(a) => a.align,
        ModeView::Compress(a) => a.align,
        ModeView::Encrypt(a) => a.align,
        ModeView::CompressEncrypt(a) => a.align,
    }
}

/// Whatever its version and mode, a `FARC` archive that is read has as its
/// alignment the big-endian word at bytes 16 to 20 of the input.
pub proof fn lemma_farc_align(i0: Seq<u8>)
    ensures
        spec_read_extended(i0) matches Parsed::Done(_, m) ==> mode_align(m) as int == be32(
            i0.skip(16),
        ),
        spec_read_future(i0) matches Parsed::Done(_, m) ==> mode_align(m) as int == be32(
            i0.skip(16),
        ),
{
    lemma_mode_align::<BaseEntry<'static>>(i0, 0, false);
    lemma_mode_align::<Compressor<'static>>(i0, 0, false);
    lemma_mode_align::<Encryptor<BaseEntry<'static>>>(i0, 0, false);
    lemma_mode_align::<Encryptor<Compressor<'static>>>(i0, 0, false);
    lemma_mode_align::<BaseEntry<'static>>(i0, 1, true);
    lemma_mode_align::<Compressor<'static>>(i0, 1, true);
    lemma_mode_align::<Encryptor<BaseEntry<'static>>>(i0, 1, true);
    lemma_mode_align::<Encryptor<Compressor<'static>>>(i0, 1, true);
}

} // verus!

//! Concrete cases of what the library promises: what is read, what is
//! refused, and what is extracted.

use std::io::Write;

use aes_frast::{aes_core, aes_with_operation_mode};
use farc::archive::{ExtendArchive, ExtendedArchives, FutureArchive, FutureArchives, GenericArchive};
use farc::entry::compress::{CompressedEntry, Compressor, Decompressor};
use farc::entry::encrypt::{decrypt, Encrypt, Encryptor, KEY};
use farc::entry::read::{ExtendEntry, ReadEntry};
use farc::entry::{BaseEntry, Entry, EntryExtract, ExtractError, MemoryEntry};
use farc::read::error::{ErrorKind, ParserError, ParserErrorKind, ReadError};
use farc::read::utilities::{be_u32, be_usize, slice_input, string};
use flate2::write::GzEncoder;
use flate2::Compression;

fn be(v: u32) -> [u8; 4] {
    v.to_be_bytes()
}

/// A `FArc` or `FArC` archive with one record per name; each record points
/// at `data`, stored once after the table.
fn basic(magic: &[u8], names: &[&str], compressed: bool, data: &[u8]) -> Vec<u8> {
    let record: usize = if compressed { 12 } else { 8 };
    let table_len: usize = names.iter().map(|n| n.len() + 1 + record).sum();
    let data_start = 12 + table_len;
    let mut a = Vec::new();
    a.extend_from_slice(magic);
    a.extend_from_slice(&be((data_start - 8) as u32));
    a.extend_from_slice(&be(16));
    for n in names {
        a.extend_from_slice(n.as_bytes());
        a.push(0);
        a.extend_from_slice(&be(data_start as u32));
        a.extend_from_slice(&be(data.len() as u32));
        if compressed {
            a.extend_from_slice(&be(1234));
        }
    }
    a.extend_from_slice(data);
    a
}

/// A `FARC` archive with one record `e.bin` of `record_tail` bytes after its
/// offset and length, pointing at `data`; the header is 28 bytes long in
/// version 0 and 32 in version 1.
fn farc_one(mode: u32, version: u32, data: &[u8], record_tail: usize) -> Vec<u8> {
    let table_len = 6 + 8 + record_tail;
    let header_len: usize = if version == 1 { 0x20 } else { 0x1C };
    let data_start = header_len + table_len;
    let mut a = Vec::new();
    a.extend_from_slice(b"FARC");
    a.extend_from_slice(&be((data_start - 8) as u32));
    a.extend_from_slice(&be(mode));
    a.extend_from_slice(&be(0));
    a.extend_from_slice(&be(16));
    a.extend_from_slice(&be(version));
    a.extend_from_slice(&be(1));
    if version == 1 {
        a.extend_from_slice(&be(0));
    }
    assert_eq!(a.len(), header_len);
    a.extend_from_slice(b"e.bin\0");
    a.extend_from_slice(&be(data_start as u32));
    a.extend_from_slice(&be(data.len() as u32));
    a.extend(std::iter::repeat(0u8).take(record_tail));
    a.extend_from_slice(data);
    a
}

fn contents(r: Result<Option<Decompressor<'_>>, ExtractError>) -> Result<Option<Vec<u8>>, ExtractError> {
    match r {
        Ok(Some(d)) => d.read_to_end().map(Some),
        Ok(None) => Ok(None),
        Err(e) => Err(e),
    }
}

fn gzip(data: &[u8]) -> Vec<u8> {
    let mut enc = GzEncoder::new(Vec::new(), Compression::default());
    enc.write_all(data).unwrap();
    enc.finish().unwrap()
}

fn aes_encrypt(plain: &[u8]) -> Vec<u8> {
    let mut keys = vec![0u32; 44];
    aes_core::key_schedule_encrypt_auto(&KEY, &mut keys);
    let mut cipher = vec![0u8; plain.len()];
    aes_with_operation_mode::ecb_enc(plain, &mut cipher, &keys);
    cipher
}

#[test]
fn generic_read_tells_the_kind_by_magic() {
    let base = basic(b"FArc", &["a.txt", "b.txt"], false, b"hello");
    let (rest, farc) = GenericArchive::read(&base).unwrap();
    assert_eq!(farc.magic(), "FArc");
    assert_eq!(farc.len(), 2);
    assert_eq!(rest, &base[12..]);
    assert!(matches!(farc, GenericArchive::Base(_)));

    let comp = basic(b"FArC", &["a.txt"], true, b"zz");
    let (_, farc) = GenericArchive::read(&comp).unwrap();
    assert_eq!(farc.magic(), "FArC");
    assert_eq!(farc.len(), 1);

    let ext = farc_one(4, 0, b"0123456789abcdef", 0);
    let (rest, farc) = GenericArchive::read(&ext).unwrap();
    assert_eq!(farc.magic(), "FARC");
    assert_eq!(rest, &ext[24..]);
    assert!(matches!(farc, GenericArchive::Extended(ExtendedArchives::Encrypt(_))));

    let fut = farc_one(2, 1, b"xyz", 8);
    let (rest, farc) = GenericArchive::read(&fut).unwrap();
    assert_eq!(rest, &fut[32..]);
    assert!(matches!(farc, GenericArchive::Future(FutureArchives::Compress(_))));
}

#[test]
fn entries_point_into_the_archive() {
    let base = basic(b"FArc", &["a.txt", "b.txt"], false, b"hello");
    let (_, farc) = GenericArchive::read(&base).unwrap();
    match farc {
        GenericArchive::Base(a) => {
            assert_eq!(a.align, 16);
            for e in &a.entries {
                match e {
                    BaseEntry::Memory(m) => assert_eq!(m.data, b"hello"),
                    BaseEntry::File(_) => panic!("a read entry is stored in memory"),
                }
            }
            assert_eq!(a.entries[1].name(), "b.txt");
            assert_eq!(a.len(), 2);
        }
        _ => panic!("wrong kind"),
    }
}

#[test]
fn unknown_magic_is_refused_with_tag() {
    let input = b"ABCD\0\0\0\0\0\0\0\0".to_vec();
    match GenericArchive::read(&input) {
        Err(ReadError::Error(ParserError(i, ParserErrorKind::Other(ErrorKind::Tag)))) => {
            assert_eq!(i, &input[..])
        }
        other => panic!("unexpected {:?}", other.map(|(r, _)| r)),
    }
    let short = b"FA".to_vec();
    assert!(matches!(
        GenericArchive::read(&short),
        Err(ReadError::Error(ParserError(_, ParserErrorKind::Other(ErrorKind::Tag))))
    ));
}

#[test]
fn offset_outside_the_archive_fails() {
    let mut base = basic(b"FArc", &["a.txt"], false, b"hello");
    // make the entry's length run past the end
    let len_at = 12 + 6 + 4;
    base[len_at..len_at + 4].copy_from_slice(&be(100));
    match GenericArchive::read(&base) {
        Err(ReadError::Failure(ParserError(i, ParserErrorKind::InvalidOffset))) => {
            assert_eq!(i.len(), base.len())
        }
        other => panic!("unexpected {:?}", other.map(|(r, _)| r)),
    }
    // a header size past the end fails as well
    let mut base = basic(b"FArc", &["a.txt"], false, b"hello");
    base[4..8].copy_from_slice(&be(1000));
    assert!(matches!(
        GenericArchive::read(&base),
        Err(ReadError::Failure(ParserError(_, ParserErrorKind::InvalidOffset)))
    ));
}

#[test]
fn short_header_is_refused_with_eof() {
    let input = b"FArc\0\0".to_vec();
    // every alternative fails; the last one (version 1 `FARC`) reports its tag
    assert!(matches!(
        GenericArchive::read(&input),
        Err(ReadError::Error(ParserError(_, ParserErrorKind::Other(ErrorKind::Tag))))
    ));
    match farc::archive::BaseArchive::read(&input) {
        Err(ReadError::Error(ParserError(i, ParserErrorKind::Other(ErrorKind::Eof)))) => {
            assert_eq!(i, &input[4..])
        }
        other => panic!("unexpected {:?}", other.map(|(r, _)| r)),
    }
}

#[test]
fn wrong_mode_is_refused_with_map_opt() {
    let ext = farc_one(1, 0, b"abc", 0);
    match ExtendedArchives::read(&ext) {
        Err(ReadError::Error(ParserError(i, ParserErrorKind::Other(ErrorKind::MapOpt)))) => {
            assert_eq!(i, &ext[8..])
        }
        other => panic!("unexpected {:?}", other.is_ok()),
    }
}

#[test]
fn wrong_version_is_refused_with_map_opt() {
    let ext = farc_one(0, 1, b"abc", 4);
    match ExtendArchive::<BaseEntry>::read(&ext) {
        Err(ReadError::Error(ParserError(i, ParserErrorKind::Other(ErrorKind::MapOpt)))) => {
            assert_eq!(i, &ext[20..])
        }
        other => panic!("unexpected {:?}", other.is_ok()),
    }
    // of all modes tried, the last one's error stands: its mode does not match
    match ExtendedArchives::read(&ext) {
        Err(ReadError::Error(ParserError(i, ParserErrorKind::Other(ErrorKind::MapOpt)))) => {
            assert_eq!(i, &ext[8..])
        }
        other => panic!("unexpected {:?}", other.is_ok()),
    }
    assert!(FutureArchives::read(&ext).is_ok());
}

#[test]
fn truncated_farc_header_aborts() {
    let mut a = Vec::new();
    a.extend_from_slice(b"FARC");
    a.extend_from_slice(&be(100));
    a.extend_from_slice(&be(0));
    a.extend_from_slice(&[0, 0]);
    assert!(GenericArchive::try_read(&a).is_none());
    assert!(ExtendedArchives::try_read(&a).is_none());
    let fut = farc_one(0, 1, b"", 0);
    assert!(FutureArchives::try_read(&fut[..28]).is_none());
}

#[test]
fn name_without_terminator_is_string_overflow() {
    let input = b"abc";
    match string(input) {
        Err(ReadError::Error(ParserError(i, ParserErrorKind::StringOverflow))) => {
            assert_eq!(i, &input[..])
        }
        _ => panic!("a name with no terminator is refused"),
    }
    let mut base = basic(b"FArc", &["a.txt"], false, b"");
    // the header size now ends the table inside the name
    base[4..8].copy_from_slice(&be(7));
    match farc::archive::BaseArchive::read(&base) {
        Err(ReadError::Error(ParserError(i, ParserErrorKind::StringOverflow))) => {
            assert_eq!(i, &base[12..15])
        }
        other => panic!("unexpected {:?}", other.map(|(r, _)| r)),
    }
    assert!(GenericArchive::try_read(&base).unwrap().is_err());
}

#[test]
fn trailing_bytes_without_terminator_end_the_table() {
    let mut base = basic(b"FArc", &["a.txt"], false, b"xy");
    // two stray bytes after the record, inside the table
    let record_end = 12 + 6 + 8;
    base.splice(record_end..record_end, [7u8, 7u8]);
    base[4..8].copy_from_slice(&be((record_end + 2 - 8) as u32));
    let pos_at = 12 + 6;
    base[pos_at..pos_at + 4].copy_from_slice(&be((record_end + 2) as u32));
    let (rest, a) = farc::archive::BaseArchive::read(&base).unwrap();
    assert_eq!(rest, &base[12..]);
    assert_eq!(a.entries.len(), 1);
    assert_eq!(a.entries[0].name(), "a.txt");
}

#[test]
fn future_table_starts_after_the_header() {
    let i0: &[u8] = &[
        0x46, 0x41, 0x52, 0x43, 0, 0, 0, 0x26, 0, 0, 0, 0, 0, 0, 0, 0, 0, 0, 0, 0x10, 0, 0, 0, 1,
        0, 0, 0, 1, 0, 0, 0, 0, 0x61, 0, 0, 0, 0, 0x2E, 0, 0, 0, 2, 0, 0, 0, 0, 0x78, 0x79,
    ];
    let (rest, a) = FutureArchive::<BaseEntry>::read(i0).unwrap();
    assert_eq!(rest, &i0[32..]);
    assert_eq!(a.0.align, 16);
    assert_eq!(
        a.0.entries,
        vec![BaseEntry::Memory(MemoryEntry { name: "a".into(), data: &[0x78u8, 0x79][..] })]
    );
}

#[test]
fn string_reads_up_to_the_terminator() {
    let input = b"ab\0cd";
    let (rest, s) = string(input).unwrap();
    assert_eq!(s, "ab");
    assert_eq!(rest, b"cd");
    match string(b"\0ab") {
        Err(ReadError::Error(ParserError(_, ParserErrorKind::StringOverflow))) => {}
        _ => panic!("an empty name is refused"),
    }
    let (_, s) = string(b"a\xffb\0").unwrap();
    assert_eq!(s, "a\u{FFFD}b");
}

#[test]
fn be_fields() {
    let (rest, v) = be_u32(&[0x01, 0x02, 0x03, 0x04, 0x05]).unwrap();
    assert_eq!(v, 0x01020304);
    assert_eq!(rest, &[0x05]);
    let (_, v) = be_usize(&[0, 0, 1, 2]).unwrap();
    assert_eq!(v, 258);
    assert!(matches!(
        be_u32(&[1, 2, 3]),
        Err(ReadError::Error(ParserError(_, ParserErrorKind::Other(ErrorKind::Eof))))
    ));
}

#[test]
fn slice_input_checks_bounds() {
    let input = [1u8, 2, 3, 4];
    assert_eq!(slice_input(&input, 1..3).unwrap(), &[2, 3]);
    assert!(matches!(
        slice_input(&input, 3..5),
        Err(ReadError::Failure(ParserError(_, ParserErrorKind::InvalidOffset)))
    ));
    #[allow(clippy::reversed_empty_ranges)]
    let backwards = slice_input(&input, 3..2);
    assert!(backwards.is_err());
}

#[test]
fn error_from_kind_and_append() {
    let i: &[u8] = &[1, 2];
    let e = ParserError::from_error_kind(i, ErrorKind::Eof);
    assert_eq!(e.1, ParserErrorKind::Other(ErrorKind::Eof));
    let other = ParserError(i, ParserErrorKind::StringOverflow);
    let kept = ParserError::append(&[], ErrorKind::Alt, other);
    assert_eq!(kept.1, ParserErrorKind::StringOverflow);
    let from: ParserError = (i, ErrorKind::Many1).into();
    assert_eq!(from.1, ParserErrorKind::Other(ErrorKind::Many1));
}

#[test]
fn modes_of_entries() {
    assert_eq!(<MemoryEntry as ExtendEntry>::mode(), 0);
    assert_eq!(<BaseEntry as ExtendEntry>::mode(), 0);
    assert_eq!(<CompressedEntry as ExtendEntry>::mode(), 2);
    assert_eq!(<Compressor as ExtendEntry>::mode(), 2);
    assert_eq!(<Encryptor<BaseEntry> as ExtendEntry>::mode(), 4);
    assert_eq!(<Encryptor<Compressor> as ExtendEntry>::mode(), 6);
}

#[test]
fn encrypted_entry_goes_by_the_inner_name() {
    let m = MemoryEntry { name: "x.bin".into(), data: b"" };
    let e = BaseEntry::Memory(m).encrypt();
    assert_eq!(e.name(), "x.bin");
    assert!(matches!(e.extractor(), Ok(None)));
}

#[test]
fn memory_and_compressed_extraction() {
    let m = MemoryEntry { name: "a".into(), data: b"plain" };
    assert_eq!(m.extractor().unwrap(), Some(Decompressor::Uncompressed(&b"plain"[..])));
    let packed = gzip(b"some text that is compressed");
    let c = CompressedEntry {
        entry: MemoryEntry { name: "c".into(), data: &packed },
        original_len: 28,
    };
    assert_eq!(contents(c.extractor()).unwrap(), Some(b"some text that is compressed".to_vec()));
    let wrapped = Compressor::Compressed(c);
    assert!(matches!(wrapped.extractor(), Ok(Some(Decompressor::Decompress(d))) if d == &packed[..]));
    assert_eq!(wrapped.extractor().unwrap().unwrap().read_to_end().unwrap().len(), 28);
    let stored = Compressor::Compress(BaseEntry::Memory(MemoryEntry { name: "s".into(), data: b"raw" }));
    assert_eq!(stored.extractor().unwrap(), Some(Decompressor::Uncompressed(&b"raw"[..])));
    assert_eq!(contents(stored.extractor()).unwrap(), Some(b"raw".to_vec()));
    let bad = CompressedEntry {
        entry: MemoryEntry { name: "bad".into(), data: b"not gzip" },
        original_len: 0,
    };
    // a malformed stream shows when it is read, not when it is handed out
    assert!(bad.extractor().is_ok());
    assert_eq!(contents(bad.extractor()), Err(ExtractError::InvalidGzip));
}

#[test]
fn encrypted_extraction_decrypts() {
    let plain: Vec<u8> = (0..32u8).collect();
    let cipher = aes_encrypt(&plain);
    assert_ne!(cipher, plain);
    let e: Encryptor<BaseEntry> =
        Encryptor::Encrypted(MemoryEntry { name: "enc".into(), data: &cipher });
    assert_eq!(e.extractor().unwrap(), Some(Decompressor::Decrypted(plain.clone())));
    // an incomplete last block comes out as zeros
    let mut longer = cipher.clone();
    longer.extend_from_slice(&[9, 9, 9]);
    let mut expect = plain.clone();
    expect.extend_from_slice(&[0, 0, 0]);
    assert_eq!(decrypt(&longer), expect);
}

#[test]
fn encrypted_compressed_extraction() {
    let text = b"the quick brown fox jumps over the lazy dog";
    let mut packed = gzip(text);
    while packed.len() % 16 != 0 {
        packed.push(0);
    }
    let cipher = aes_encrypt(&packed);
    let e: Encryptor<Compressor> = Encryptor::Encrypted(CompressedEntry {
        entry: MemoryEntry { name: "ec".into(), data: &cipher },
        original_len: text.len() as u32,
    });
    assert_eq!(contents(e.extractor()).unwrap(), Some(text.to_vec()));
    let ext = farc_one(6, 0, &cipher, 4);
    let (_, farc) = GenericArchive::read(&ext).unwrap();
    match farc {
        GenericArchive::Extended(ExtendedArchives::CompressEncrypt(a)) => {
            assert_eq!(a.0.entries[0].name(), "e.bin");
            assert_eq!(contents(a.0.entries[0].extractor()).unwrap(), Some(text.to_vec()));
        }
        _ => panic!("wrong kind"),
    }
}

#[test]
fn archive_derefs_to_its_entries() {
    let base = basic(b"FArc", &["a", "b", "c"], false, b"d");
    let (_, a) = farc::archive::BaseArchive::read(&base).unwrap();
    let entries: &[BaseEntry] = &a;
    assert_eq!(entries.len(), 3);
    let (_, r) = <MemoryEntry as ReadEntry>::read(&base, &base[12..]).unwrap();
    assert_eq!(r.name, "a");
}

#[test]
fn archives_hand_over_their_entries() {
    let base = basic(b"FArc", &["a", "b"], false, b"d");
    let (_, a) = farc::archive::BaseArchive::read(&base).unwrap();
    let entries = a.into_entries();
    assert_eq!(entries.len(), 2);
    assert_eq!(entries[1].name(), "b");
    let ext = farc_one(2, 0, b"zz", 4);
    let (_, a) = ExtendArchive::<Compressor>::read(&ext).unwrap();
    assert_eq!(a.into_entries()[0].name(), "e.bin");
    let fut = farc_one(0, 1, b"zz", 4);
    let (_, a) = FutureArchive::<BaseEntry>::read(&fut).unwrap();
    assert_eq!(a.into_entries().len(), 1);
}

#[test]
fn a_farc_archive_has_one_version() {
    for (mode, version) in [(0u32, 0u32), (2, 0), (0, 1), (2, 1)] {
        let a = farc_one(mode, version, b"zz", if version == 1 { 8 } else { 4 });
        let ext = ExtendedArchives::try_read(&a).map(|r| r.is_ok());
        let fut = FutureArchives::try_read(&a).map(|r| r.is_ok());
        assert!(!(ext == Some(true) && fut == Some(true)));
        assert!(ext == Some(true) || fut == Some(true));
    }
}

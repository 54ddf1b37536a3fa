//! The archives of these tests are built byte by byte: a header, an entry
//! table, then the entries' data.

use farc::archive::{BaseArchive, CompressArchive, ExtendArchive, FutureArchive};
use farc::entry::compress::{CompressedEntry, Compressor};
use farc::entry::encrypt::Encryptor;
use farc::entry::read::ReadEntry;
use farc::entry::{BaseEntry, Entry, MemoryEntry};
use farc::read::error::{ErrorKind, ParserError};

fn be(v: u32) -> [u8; 4] {
    v.to_be_bytes()
}

/// An `FArc` archive holding one entry `mot_PV626.bin` of 15305208 bytes
/// at offset 0x22, whose data starts with `20 00 00 00`.
fn robmot() -> Vec<u8> {
    let mut a = Vec::new();
    a.extend_from_slice(b"FArc");
    a.extend_from_slice(&be(26));
    a.extend_from_slice(&be(0x10));
    a.extend_from_slice(b"mot_PV626.bin\0");
    a.extend_from_slice(&be(0x22));
    a.extend_from_slice(&be(15305208));
    assert_eq!(a.len(), 0x22);
    let mut data = vec![0u8; 15305208];
    data[0] = 0x20;
    for (k, b) in data.iter_mut().enumerate().skip(4) {
        *b = (k % 251) as u8;
    }
    a.extend_from_slice(&data);
    a
}

/// An `FArC` archive holding one compressed entry `gm_module_id.bin` of
/// 3827 bytes at offset 41, which decompresses to 21050 bytes.
fn gm_module() -> Vec<u8> {
    let mut a = Vec::new();
    a.extend_from_slice(b"FArC");
    a.extend_from_slice(&be(33));
    a.extend_from_slice(&be(0x40));
    a.extend_from_slice(b"gm_module_id.bin\0");
    a.extend_from_slice(&be(41));
    a.extend_from_slice(&be(3827));
    a.extend_from_slice(&be(21050));
    assert_eq!(a.len(), 41);
    let mut data = vec![0u8; 3827];
    data[..4].copy_from_slice(&[0x1F, 0x8B, 8, 8]);
    a.extend_from_slice(&data);
    a
}

/// A `FARC` archive of format version `version` and mode `mode`; the header
/// is 28 bytes long in version 0 and 32 in version 1. Each record is a
/// name, offset, length and decompressed length, followed in version 1 by
/// a four-byte field. Entry `k` holds `data_len` bytes of
/// value `k`.
fn farc(mode: u32, version: u32, names: &[&str], data_len: u32) -> Vec<u8> {
    let mut table = Vec::new();
    let record_len: usize = if version == 1 { 16 } else { 12 };
    let table_len: usize = names.iter().map(|n| n.len() + 1 + record_len).sum();
    let header_len: usize = if version == 1 { 0x20 } else { 0x1C };
    let data_start = header_len + table_len;
    for (k, n) in names.iter().enumerate() {
        table.extend_from_slice(n.as_bytes());
        table.push(0);
        table.extend_from_slice(&be((data_start + k * data_len as usize) as u32));
        table.extend_from_slice(&be(data_len));
        table.extend_from_slice(&be(data_len * 2));
        if version == 1 {
            table.extend_from_slice(&be(0));
        }
    }
    let mut a = Vec::new();
    a.extend_from_slice(b"FARC");
    a.extend_from_slice(&be((data_start - 8) as u32));
    a.extend_from_slice(&be(mode));
    a.extend_from_slice(&be(0));
    a.extend_from_slice(&be(0x10));
    a.extend_from_slice(&be(version));
    a.extend_from_slice(&be(names.len() as u32));
    if version == 1 {
        a.extend_from_slice(&be(0));
    }
    assert_eq!(a.len(), header_len);
    a.extend_from_slice(&table);
    assert_eq!(a.len(), data_start);
    for k in 0..names.len() {
        a.extend(std::iter::repeat(k as u8).take(data_len as usize));
    }
    a
}

const PV_721: [&str; 5] = [
    "pv_721_mouth.dsc",
    "pv_721_scene.dsc",
    "pv_721_success_mouth.dsc",
    "pv_721_success_scene.dsc",
    "pv_721_system.dsc",
];

fn pv_721_common() -> Vec<u8> {
    farc(6, 0, &PV_721, 32)
}

fn lenitm027() -> Vec<u8> {
    farc(2, 1, &["lenitm027_obj.bin", "lenitm027_tex.bin"], 16)
}

#[test]
fn read_memory() {
    let input = robmot();
    let (_, entry) = MemoryEntry::read(&input, &input[0xC..]).unwrap();
    assert_eq!(entry.name, "mot_PV626.bin");
    assert_eq!(&entry.data[..4], &[0x20, 0, 0, 0]);
}

#[test]
fn read_compressed() {
    let comp = gm_module();
    let (_, comp_entry) = CompressedEntry::read(&comp, &comp[0xC..]).unwrap();
    assert_eq!(&comp_entry.entry.name, "gm_module_id.bin");
    assert_eq!(comp_entry.original_len, 21050);
    assert_eq!(&comp_entry.entry.data[..4], &[0x1F, 0x8B, 8, 8]);
}

fn check_read_base() {
    let input = robmot();
    let (_, farc) = BaseArchive::read(&input).unwrap();
    let entry = BaseEntry::Memory(MemoryEntry {
        name: "mot_PV626.bin".into(),
        data: &input[0x22..][..15305208],
    });
    assert_eq!(entry, farc.entries[0]);
}

fn check_read_compressed() {
    let comp = gm_module();
    let (_, farc) = CompressArchive::read(&comp).unwrap();
    let entry: Compressor = CompressedEntry {
        entry: MemoryEntry {
            name: "gm_module_id.bin".into(),
            data: &comp[41..][..3827],
        },
        original_len: 21050,
    }
    .into();
    assert_eq!(entry, farc.entries[0]);
}

fn check_read_extended_encrypt_compres() {
    let input = pv_721_common();
    let (_, farc) = ExtendArchive::<Encryptor<Compressor<'_>>>::read(&input).unwrap();
    for entry in &farc.0.entries {
        println!("{}", &entry.name());
    }
    assert_eq!(farc.0.entries[0].name(), "pv_721_mouth.dsc");
    assert_eq!(farc.0.entries[1].name(), "pv_721_scene.dsc");
    assert_eq!(farc.0.entries[2].name(), "pv_721_success_mouth.dsc");
    assert_eq!(farc.0.entries[3].name(), "pv_721_success_scene.dsc");
    assert_eq!(farc.0.entries[4].name(), "pv_721_system.dsc");
}

fn check_read_future_compressed() {
    let input = lenitm027();
    let (_, farc) = FutureArchive::<CompressedEntry<'_>>::read(&input).unwrap();
    for entry in &farc.0.entries {
        println!("{} {:#X}", entry.name(), entry.original_len);
    }
    assert_eq!(farc.0.entries[0].name(), "lenitm027_obj.bin");
    assert_eq!(farc.0.entries[1].name(), "lenitm027_tex.bin");
}

#[test]
fn read_read_base() {
    check_read_base();
}

#[test]
fn read_read_compressed() {
    check_read_compressed();
}

#[test]
fn read_read_extended_encrypt_compres() {
    check_read_extended_encrypt_compres();
}

#[test]
fn read_read_future_compressed() {
    check_read_future_compressed();
}

#[test]
fn mod_read_base() {
    check_read_base();
}

#[test]
fn mod_read_compressed() {
    check_read_compressed();
}

#[test]
fn mod_read_extended_encrypt_compres() {
    check_read_extended_encrypt_compres();
}

#[test]
fn mod_read_future_compressed() {
    check_read_future_compressed();
}

#[test]
fn tests_read_base() {
    check_read_base();
}

#[test]
fn tests_read_compressed() {
    check_read_compressed();
}

#[test]
fn tests_read_extended_encrypt_compres() {
    check_read_extended_encrypt_compres();
}

#[test]
fn tests_read_future_compressed() {
    check_read_future_compressed();
}

#[test]
fn convert() {
    let i: &[u8] = &[];
    let err = (i, ErrorKind::IsNot);
    let _err2: ParserError = err.into();
}

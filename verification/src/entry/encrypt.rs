use aes_frast::{aes_core, aes_with_operation_mode};
use vstd::prelude::*;

use super::compress::{
    gunzip, spec_contents, CompressedEntry, Compressor, Decompressor, DecompressorView,
};
use super::{BaseEntry, Entry, EntryExtract, ExtractError, MemoryEntry};

verus! {

/// An entry that is either still to be encrypted or stored encrypted.
#[derive(Debug, PartialEq)]
pub enum Encryptor<E: Encrypt> {
    Encrypt(E),
    Encrypted(E::Decrypt),
}

/// The model of an `Encryptor`.
pub enum EncryptorView<A, B> {
    Encrypt(A),
    Encrypted(B),
}

/// Entries that can be stored encrypted; `Decrypt` is what an encrypted
/// one of them is read as.
pub trait Encrypt: Entry {
    type Decrypt: Entry;

    fn encrypt(self) -> (r: Encryptor<Self>)
        where
            Self: Sized,
        ensures
            r == Encryptor::<Self>::Encrypt(self),
    {
        Encryptor::Encrypt(self)
    }
}

impl<E: Encrypt> View for Encryptor<E> {
    type V = EncryptorView<E::V, <E::Decrypt as View>::V>;

    open spec fn view(&self) -> Self::V {
        match self {
            Encryptor::Encrypt(e) => EncryptorView::Encrypt(e@),
            Encryptor::Encrypted(e) => EncryptorView::Encrypted(e@),
        }
    }
}

impl<E: Encrypt> Entry for Encryptor<E> {
    /// An encrypted entry goes by the name of what it holds.
    open spec fn named(&self) -> bool {
        match self {
            Encryptor::Encrypt(e) => e.named(),
            Encryptor::Encrypted(e) => e.named(),
        }
    }

    open spec fn spec_name(&self) -> Seq<char> {
        match self {
            Encryptor::Encrypt(e) => e.spec_name(),
            Encryptor::Encrypted(e) => e.spec_name(),
        }
    }

    fn name(&self) -> (r: &str) {
        match self {
            Encryptor::Encrypt(e) => e.name(),
            Encryptor::Encrypted(e) => e.name(),
        }
    }
}

impl<'a> Encrypt for MemoryEntry<'a> {
    type Decrypt = Self;
}

impl<'a> Encrypt for BaseEntry<'a> {
    type Decrypt = MemoryEntry<'a>;
}

impl<'a> Encrypt for Compressor<'a> {
    type Decrypt = CompressedEntry<'a>;
}

/// An entry still to be encrypted goes by its own name.
pub proof fn lemma_encrypt_keeps_name<E: Encrypt>(e: E)
    ensures
        Encryptor::<E>::Encrypt(e).named() == e.named(),
        Encryptor::<E>::Encrypt(e).spec_name() == e.spec_name(),
{
}

/// The AES-128 key of encrypted archives.
pub const KEY: [u8; 16] = [
    0x70, 0x72, 0x6f, 0x6a, 0x65, 0x63, 0x74, 0x5f, 0x64, 0x69, 0x76, 0x61, 0x2e, 0x62, 0x69, 0x6e,
];

/// The number of 32-bit round keys of AES-128.
pub const ROUND_KEYS: usize = 44;

/// The length of the longest prefix of `len` bytes made of whole 16-byte blocks.
pub open spec fn whole_blocks(len: nat) -> int {
    (len / 16 * 16) as int
}

/// The decryption round keys that aes_frast's `key_schedule_decrypt_auto`
/// derives from a 128-bit `key`.
pub uninterp spec fn decrypt_round_keys(key: Seq<u8>) -> Seq<u32>;

/// What aes_frast's `ecb_dec` writes for `blocks`, a whole number of
/// 16-byte AES blocks, under the round keys `keys`.
pub uninterp spec fn ecb_decrypted(blocks: Seq<u8>, keys: Seq<u32>) -> Seq<u8>;

/// Schedules the decryption round keys of a 128-bit key into `buffer` with
/// `aes_core::key_schedule_decrypt_auto`.
///
/// Trusted: for a 16-byte key and a 44-word buffer (the lengths the source
/// asserts) the buffer ends up holding `decrypt_round_keys(key)`, which
/// depends on the key alone; the source writes every word.
#[verifier::external_body]
fn key_schedule_decrypt_auto(key: &[u8], buffer: &mut Vec<u32>)
    requires
        key@.len() == 16,
        old(buffer)@.len() == ROUND_KEYS,
    ensures
        final(buffer)@ == decrypt_round_keys(key@),
        final(buffer)@.len() == ROUND_KEYS,
{
    aes_core::key_schedule_decrypt_auto(key, buffer)
}

/// Decrypts the whole 16-byte blocks of `cipher` into `plain` with
/// `aes_with_operation_mode::ecb_dec`.
///
/// Trusted: with 44 round keys and room in `plain` for the whole blocks,
/// the first `cipher.len() / 16 * 16` bytes of `plain` become
/// `ecb_decrypted` of those blocks and the rest of `plain` is left as it
/// was, as the source and its module documentation show. The returned copy
/// of the last cipher block is dropped.
#[verifier::external_body]
fn ecb_dec(cipher: &[u8], plain: &mut Vec<u8>, keys: &Vec<u32>)
    requires
        keys@.len() == ROUND_KEYS,
        old(plain)@.len() >= whole_blocks(cipher@.len()),
    ensures
        final(plain)@.len() == old(plain)@.len(),
        final(plain)@.take(whole_blocks(cipher@.len())) == ecb_decrypted(
            cipher@.take(whole_blocks(cipher@.len())),
            keys@,
        ),
        final(plain)@.skip(whole_blocks(cipher@.len())) == old(plain)@.skip(whole_blocks(cipher@.len())),
{
    aes_with_operation_mode::ecb_dec(cipher, plain, keys);
}

/// The plain text of an encrypted entry's data: its whole blocks decrypted
/// with the archive key, followed by zeros where a last block is incomplete.
pub open spec fn spec_decrypt(cipher: Seq<u8>) -> Seq<u8> {
    let n = whole_blocks(cipher.len());
    ecb_decrypted(cipher.take(n), decrypt_round_keys(KEY@)) + Seq::new(
        (cipher.len() - n) as nat,
        |i: int| 0u8,
    )
}

/// Decrypts the data of an encrypted entry.
pub fn decrypt(cipher: &[u8]) -> (plain: Vec<u8>)
    ensures
        plain@ == spec_decrypt(cipher@),
        plain@.len() == cipher@.len(),
{
    let mut keys: Vec<u32> = vec![0u32; ROUND_KEYS];
    let key: &[u8] = &KEY;
    key_schedule_decrypt_auto(key, &mut keys);
    let mut plain: Vec<u8> = vec![0u8; cipher.len()];
    let ghost zeros = plain@;
    ecb_dec(cipher, &mut plain, &keys);
    proof {
        let n = whole_blocks(cipher@.len());
        let tail = Seq::new((cipher@.len() - n) as nat, |i: int| 0u8);
        assert(zeros.skip(n) =~= tail);
        assert(plain@ =~= plain@.take(n) + plain@.skip(n));
    }
    plain
}

impl<'a> EntryExtract<'a> for Encryptor<BaseEntry<'a>> {
    /// A stored encrypted entry comes out decrypted; one still to be
    /// encrypted holds nothing to extract.
    open spec fn spec_extract(&self) -> Option<DecompressorView> {
        match self {
            Encryptor::Encrypted(e) => Some(DecompressorView::Decrypted(spec_decrypt(e.data@))),
            Encryptor::Encrypt(_) => None,
        }
    }

    fn extractor(&self) -> (r: Result<Option<Decompressor<'a>>, ExtractError>)
        ensures
            r matches Ok(Some(d)) ==> (d@ matches DecompressorView::Decrypted(b)
                && self matches Encryptor::Encrypted(e) && b.len() == e.data@.len()),
    {
        match self {
            Encryptor::Encrypted(e) => Ok(Some(Decompressor::Decrypted(decrypt(e.data)))),
            _ => Ok(None),
        }
    }
}

impl<'a> EntryExtract<'a> for Encryptor<Compressor<'a>> {
    /// A stored encrypted entry comes out decrypted, as a gzip stream that
    /// is decoded as it is read; one still to be encrypted holds nothing to
    /// extract.
    open spec fn spec_extract(&self) -> Option<DecompressorView> {
        match self {
            Encryptor::Encrypted(e) => Some(
                DecompressorView::DecryptedDecompress(spec_decrypt(e.entry.data@)),
            ),
            Encryptor::Encrypt(_) => None,
        }
    }

    fn extractor(&self) -> (r: Result<Option<Decompressor<'a>>, ExtractError>)
        ensures
            r matches Ok(Some(d)) ==> (d@ matches DecompressorView::DecryptedDecompress(b)
                && self matches Encryptor::Encrypted(e) && b.len() == e.entry.data@.len()),
    {
        match self {
            Encryptor::Encrypted(e) => Ok(
                Some(Decompressor::DecryptedDecompress(decrypt(e.entry.data))),
            ),
            _ => Ok(None),
        }
    }
}

/// Extracting a stored encrypted entry and reading it gives exactly its
/// data decrypted, and never a gzip error.
pub proof fn lemma_encrypted_contents<'a>(e: Encryptor<BaseEntry<'a>>)
    ensures
        e matches Encryptor::Encrypted(m) ==> e.spec_extract() matches Some(v) && spec_contents(v)
            == Some(spec_decrypt(m.data@)),
{
}

/// Extracting a stored encrypted compressed entry and reading it gives the
/// gzip decoding of its data decrypted.
pub proof fn lemma_encrypted_compressed_contents<'a>(e: Encryptor<Compressor<'a>>)
    ensures
        e matches Encryptor::Encrypted(c) ==> e.spec_extract() matches Some(v) && spec_contents(v)
            == gunzip(spec_decrypt(c.entry.data@)),
{
}

} // verus!

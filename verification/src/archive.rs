use std::ops::Deref;
use vstd::prelude::*;

use crate::entry::compress::{CompressedView, Compressor, CompressorView};
use crate::entry::encrypt::{Encryptor, EncryptorView};
use crate::entry::{BaseEntry, BaseView, Entry, EntryView};

verus! {

/// An archive of any kind, as its magic and header tell it.
pub enum GenericArchive<'a> {
    Base(BaseArchive<'a>),
    Compress(CompressArchive<'a>),
    Extended(ExtendedArchives<'a>),
    Future(FutureArchives<'a>),
}

/// An archive with the magic `FArc`, whose entries are stored as they are.
pub type BaseArchive<'a> = BasicArchive<BaseEntry<'a>>;

/// An archive with the magic `FArC`, whose entries are compressed.
pub type CompressArchive<'a> = BasicArchive<Compressor<'a>>;

/// The alignment recorded in an archive's header and its entries.
#[derive(Debug, PartialEq)]
pub struct BasicArchive<E> {
    pub align: u32,
    pub entries: Vec<E>,
}

/// An archive with the magic `FARC` and format version 0.
#[derive(Debug, PartialEq)]
pub struct ExtendArchive<E: Entry>(pub BasicArchive<E>);

/// The `FARC` archives, by the mode of their entries.
#[derive(Debug, PartialEq)]
pub enum ExtendedArchives<'a> {
    Base(ExtendArchive<BaseEntry<'a>>),
    Compress(ExtendArchive<Compressor<'a>>),
    Encrypt(ExtendArchive<Encryptor<BaseEntry<'a>>>),
    CompressEncrypt(ExtendArchive<Encryptor<Compressor<'a>>>),
}

/// An archive with the magic `FARC` and format version 1.
#[derive(Debug, PartialEq)]
pub struct FutureArchive<E: Entry>(pub BasicArchive<E>);

/// The version 1 `FARC` archives, by the mode of their entries.
#[derive(Debug, PartialEq)]
pub enum FutureArchives<'a> {
    Base(FutureArchive<BaseEntry<'a>>),
    Compress(FutureArchive<Compressor<'a>>),
    Encrypt(FutureArchive<Encryptor<BaseEntry<'a>>>),
    CompressEncrypt(FutureArchive<Encryptor<Compressor<'a>>>),
}

/// The model of an archive: its alignment and the models of its entries.
pub struct ArchiveView<V> {
    pub align: u32,
    pub entries: Seq<V>,
}

/// The model of a `FARC` archive of either version.
pub enum ModeView {
    Base(ArchiveView<BaseView>),
    Compress(ArchiveView<CompressorView>),
    Encrypt(ArchiveView<EncryptorView<BaseView, EntryView>>),
    CompressEncrypt(ArchiveView<EncryptorView<CompressorView, CompressedView>>),
}

/// The model of an archive of any kind.
pub enum GenericView {
    Base(ArchiveView<BaseView>),
    Compress(ArchiveView<CompressorView>),
    Extended(ModeView),
    Future(ModeView),
}

impl<E: View> View for BasicArchive<E> {
    type V = ArchiveView<E::V>;

    open spec fn view(&self) -> ArchiveView<E::V> {
        ArchiveView { align: self.align, entries: self.entries@.map_values(|e: E| e@) }
    }
}

impl<E: Entry> View for ExtendArchive<E> {
    type V = ArchiveView<E::V>;

    open spec fn view(&self) -> ArchiveView<E::V> {
        self.0@
    }
}

impl<E: Entry> View for FutureArchive<E> {
    type V = ArchiveView<E::V>;

    open spec fn view(&self) -> ArchiveView<E::V> {
        self.0@
    }
}

impl<'a> View for ExtendedArchives<'a> {
    type V = ModeView;

    open spec fn view(&self) -> ModeView {
        match self {
            ExtendedArchives::Base(a) => ModeView::Base(a@),
            ExtendedArchives::Compress(a) => ModeView::Compress(a@),
            ExtendedArchives::Encrypt(a) => ModeView::Encrypt(a@),
            ExtendedArchives::CompressEncrypt(a) => ModeView::CompressEncrypt(a@),
        }
    }
}

impl<'a> View for FutureArchives<'a> {
    type V = ModeView;

    open spec fn view(&self) -> ModeView {
        match self {
            FutureArchives::Base(a) => ModeView::Base(a@),
            FutureArchives::Compress(a) => ModeView::Compress(a@),
            FutureArchives::Encrypt(a) => ModeView::Encrypt(a@),
            FutureArchives::CompressEncrypt(a) => ModeView::CompressEncrypt(a@),
        }
    }
}

impl<'a> View for GenericArchive<'a> {
    type V = GenericView;

    open spec fn view(&self) -> GenericView {
        match self {
            GenericArchive::Base(a) => GenericView::Base(a@),
            GenericArchive::Compress(a) => GenericView::Compress(a@),
            GenericArchive::Extended(a) => GenericView::Extended(a@),
            GenericArchive::Future(a) => GenericView::Future(a@),
        }
    }
}

/// The number of entries of a `FARC` archive.
pub open spec fn mode_len(v: ModeView) -> nat {
    match v {
        ModeView::Base(a) => a.entries.len(),
        ModeView::Compress(a) => a.entries.len(),
        ModeView::Encrypt(a) => a.entries.len(),
        ModeView::CompressEncrypt(a) => a.entries.len(),
    }
}

/// The number of entries of an archive of any kind.
pub open spec fn generic_len(v: GenericView) -> nat {
    match v {
        GenericView::Base(a) => a.entries.len(),
        GenericView::Compress(a) => a.entries.len(),
        GenericView::Extended(m) => mode_len(m),
        GenericView::Future(m) => mode_len(m),
    }
}

/// The magic `FArc` of archives whose entries are stored as they are.
pub open spec fn base_magic() -> Seq<char> {
    seq!['F', 'A', 'r', 'c']
}

/// The magic `FArC` of archives whose entries are compressed.
pub open spec fn compress_magic() -> Seq<char> {
    seq!['F', 'A', 'r', 'C']
}

/// The magic `FARC` of archives whose header records a mode and a version.
pub open spec fn farc_magic() -> Seq<char> {
    seq!['F', 'A', 'R', 'C']
}

/// The magic of an archive of any kind.
pub open spec fn generic_magic(v: GenericView) -> Seq<char> {
    match v {
        GenericView::Base(_) => base_magic(),
        GenericView::Compress(_) => compress_magic(),
        _ => farc_magic(),
    }
}

impl<E> Deref for BasicArchive<E> {
    type Target = [E];

    fn deref(&self) -> (r: &[E])
        ensures
            r@ == self.entries@,
    {
        self.entries.as_slice()
    }
}

impl<E: Entry> Deref for ExtendArchive<E> {
    type Target = BasicArchive<E>;

    fn deref(&self) -> (r: &BasicArchive<E>)
        ensures
            *r == self.0,
    {
        &self.0
    }
}

impl<E: Entry> Deref for FutureArchive<E> {
    type Target = BasicArchive<E>;

    fn deref(&self) -> (r: &BasicArchive<E>)
        ensures
            *r == self.0,
    {
        &self.0
    }
}

impl<E> BasicArchive<E> {
    /// The entries, in the order of the archive.
    pub fn into_entries(self) -> (r: Vec<E>)
        ensures
            r == self.entries,
    {
        self.entries
    }
}

impl<E: Entry> ExtendArchive<E> {
    /// The entries, in the order of the archive.
    pub fn into_entries(self) -> (r: Vec<E>)
        ensures
            r == self.0.entries,
    {
        self.0.entries
    }
}

impl<E: Entry> FutureArchive<E> {
    /// The entries, in the order of the archive.
    pub fn into_entries(self) -> (r: Vec<E>)
        ensures
            r == self.0.entries,
    {
        self.0.entries
    }
}

impl<'a> ExtendedArchives<'a> {
    /// The number of entries.
    pub fn len(&self) -> (r: usize)
        ensures
            r == mode_len(self@),
    {
        match self {
            Self::Base(a) => a.0.entries.len(),
            Self::Compress(a) => a.0.entries.len(),
            Self::Encrypt(a) => a.0.entries.len(),
            Self::CompressEncrypt(a) => a.0.entries.len(),
        }
    }
}

impl<'a> FutureArchives<'a> {
    /// The number of entries.
    pub fn len(&self) -> (r: usize)
        ensures
            r == mode_len(self@),
    {
        match self {
            Self::Base(a) => a.0.entries.len(),
            Self::Compress(a) => a.0.entries.len(),
            Self::Encrypt(a) => a.0.entries.len(),
            Self::CompressEncrypt(a) => a.0.entries.len(),
        }
    }
}

impl<'a> GenericArchive<'a> {
    /// The magic of the archive's kind.
    pub fn magic(&self) -> (r: &'static str)
        ensures
            r@ == generic_magic(self@),
    {
        match self {
            Self::Base(_) => {
                let m = "FArc";
                proof {
                    reveal_strlit("FArc");
                }
                m
            },
            Self::Compress(_) => {
                let m = "FArC";
                proof {
                    reveal_strlit("FArC");
                }
                m
            },
            _ => {
                let m = "FARC";
                proof {
                    reveal_strlit("FARC");
                }
                m
            },
        }
    }

    /// The number of entries.
    pub fn len(&self) -> (r: usize)
        ensures
            r == generic_len(self@),
    {
        match self {
            Self::Base(a) => a.entries.len(),
            Self::Compress(a) => a.entries.len(),
            Self::Extended(a) => a.len(),
            Self::Future(a) => a.len(),
        }
    }
}

/// The number of entries of a `FARC` archive is the length of its entry
/// sequence, whatever the mode of its entries.
pub proof fn lemma_mode_len_counts_entries(
    b: ArchiveView<BaseView>,
    c: ArchiveView<CompressorView>,
    e: ArchiveView<EncryptorView<BaseView, EntryView>>,
    ce: ArchiveView<EncryptorView<CompressorView, CompressedView>>,
)
    ensures
        mode_len(ModeView::Base(b)) == b.entries.len(),
        mode_len(ModeView::Compress(c)) == c.entries.len(),
        mode_len(ModeView::Encrypt(e)) == e.entries.len(),
        mode_len(ModeView::CompressEncrypt(ce)) == ce.entries.len(),
{
}

/// The number of entries of an archive of any kind is the length of the
/// entry sequence of the archive it holds.
pub proof fn lemma_generic_len_counts_entries(
    b: ArchiveView<BaseView>,
    c: ArchiveView<CompressorView>,
    e: ArchiveView<EncryptorView<BaseView, EntryView>>,
    ce: ArchiveView<EncryptorView<CompressorView, CompressedView>>,
)
    ensures
        generic_len(GenericView::Base(b)) == b.entries.len(),
        generic_len(GenericView::Compress(c)) == c.entries.len(),
        generic_len(GenericView::Extended(ModeView::Base(b))) == b.entries.len(),
        generic_len(GenericView::Extended(ModeView::Compress(c))) == c.entries.len(),
        generic_len(GenericView::Extended(ModeView::Encrypt(e))) == e.entries.len(),
        generic_len(GenericView::Extended(ModeView::CompressEncrypt(ce))) == ce.entries.len(),
        generic_len(GenericView::Future(ModeView::Base(b))) == b.entries.len(),
        generic_len(GenericView::Future(ModeView::Compress(c))) == c.entries.len(),
        generic_len(GenericView::Future(ModeView::Encrypt(e))) == e.entries.len(),
        generic_len(GenericView::Future(ModeView::CompressEncrypt(ce))) == ce.entries.len(),
{
}

} // verus!

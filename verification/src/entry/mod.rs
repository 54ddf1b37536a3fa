use std::path::Path;
use vstd::prelude::*;

use self::compress::{Decompressor, DecompressorView};

pub mod compress;
pub mod encrypt;
pub mod read;

verus! {

/// The model of a named run of bytes.
pub struct EntryView {
    pub name: Seq<char>,
    pub data: Seq<u8>,
}

/// In-memory data stream.
///
/// Represents an in-memory data stream; it is the most common entry type.
/// The data borrows from the archive it was read from.
#[derive(Debug, PartialEq)]
pub struct MemoryEntry<'a> {
    pub name: String,
    pub data: &'a [u8],
}

/// A file to be encoded as an entry.
#[derive(Debug, PartialEq)]
pub struct FileEntry {
    path: String,
}

/// An entry stored as it is.
#[derive(Debug, PartialEq)]
pub enum BaseEntry<'a> {
    Memory(MemoryEntry<'a>),
    File(FileEntry),
}

/// The model of a `BaseEntry`; a file entry is known by its path.
pub enum BaseView {
    Memory(EntryView),
    File(Seq<char>),
}

impl<'a> View for MemoryEntry<'a> {
    type V = EntryView;

    open spec fn view(&self) -> EntryView {
        EntryView { name: self.name@, data: self.data@ }
    }
}

impl View for FileEntry {
    type V = Seq<char>;

    /// The text of the path.
    closed spec fn view(&self) -> Seq<char> {
        self.path@
    }
}

impl<'a> View for BaseEntry<'a> {
    type V = BaseView;

    open spec fn view(&self) -> BaseView {
        match self {
            BaseEntry::Memory(m) => BaseView::Memory(m@),
            BaseEntry::File(f) => BaseView::File(f@),
        }
    }
}

/// Anything stored in an archive under a name.
pub trait Entry: View {
    /// Whether the entry's name can be told.
    spec fn named(&self) -> bool;

    /// The entry's name.
    spec fn spec_name(&self) -> Seq<char>;

    fn name(&self) -> (r: &str)
        ensures
            self.named() ==> r@ == self.spec_name(),
    ;
}

/// The model of what `extractor` returns: `Some(None)` for an entry that
/// holds nothing to extract, `Some(Some(v))` for one whose contents are read
/// from `v`, and `None` for an error.
pub open spec fn extracted<'a>(r: Result<Option<Decompressor<'a>>, ExtractError>) -> Option<
    Option<DecompressorView>,
> {
    match r {
        Ok(Some(v)) => Some(Some(v@)),
        Ok(None) => Some(None),
        Err(_) => None,
    }
}

/// Why the contents of an entry could not be recovered.
#[derive(Debug, PartialEq, Eq)]
pub enum ExtractError {
    /// The stored bytes are not a valid gzip stream.
    InvalidGzip,
}

/// Entries whose contents can be recovered.
pub trait EntryExtract<'a>: Entry {
    /// What the contents of the entry are read from; `None` for an entry
    /// that holds nothing to extract.
    spec fn spec_extract(&self) -> Option<DecompressorView>;

    /// What the contents of the entry are read from. It never fails: a
    /// malformed gzip stream shows when it is read.
    fn extractor(&self) -> (r: Result<Option<Decompressor<'a>>, ExtractError>)
        ensures
            extracted(r) == Some(self.spec_extract()),
    ;
}

impl<'a> Entry for MemoryEntry<'a> {
    open spec fn named(&self) -> bool {
        true
    }

    open spec fn spec_name(&self) -> Seq<char> {
        self.name@
    }

    fn name(&self) -> (r: &str) {
        self.name.as_str()
    }
}

/// A non-empty path component with no separator or drive mark in it, and
/// neither `.` nor `..`: a plain file name on every platform.
pub open spec fn is_plain_name(s: Seq<char>) -> bool {
    &&& s.len() > 0
    &&& forall|k: int| 0 <= k < s.len() ==> s[k] != '/' && s[k] != '\\' && s[k] != ':'
    &&& s != seq!['.']
    &&& s != seq!['.', '.']
}

/// A path with no backslash and no colon: no platform reads a prefix or a
/// separator other than `/` in it.
pub open spec fn is_slash_path(s: Seq<char>) -> bool {
    forall|k: int| 0 <= k < s.len() ==> s[k] != '\\' && s[k] != ':'
}

/// In `s`, which has no backslash or colon, a `/` stands at `k` and plain
/// text follows it to the end.
pub open spec fn name_after_slash(s: Seq<char>, k: int) -> bool {
    &&& 0 <= k < s.len()
    &&& s[k] == '/'
    &&& is_slash_path(s)
    &&& is_plain_name(s.skip(k + 1))
}

/// The last component of the path `path`, from `Path::file_name`, as text.
///
/// Trusted: a name that is returned is a component of the path, so a
/// contiguous part of its text (`file_name` hands back a slice of the path
/// and `to_str` changes only its type). A path that is a plain name is its
/// own file name; in a path with no backslash or colon, plain text after
/// the last `/` is the file name (std documents that a normal file name is
/// returned as it is). Other paths depend on the platform's path syntax,
/// and nothing more is stated of them.
#[verifier::external_body]
fn path_file_name(path: &str) -> (r: Option<&str>)
    ensures
        r matches Some(n) ==> exists|p: int, q: int|
            0 <= p <= q <= path@.len() && n@ == path@.subrange(p, q),
        r is Some <== (is_plain_name(path@) || exists|k: int| name_after_slash(path@, k)),
        r matches Some(n) ==> (is_plain_name(path@) ==> n@ == path@),
        r matches Some(n) ==> forall|k: int| #[trigger]
            name_after_slash(path@, k) ==> n@ == path@.skip(k + 1),
{
    match Path::new(path).file_name() {
        Some(n) => n.to_str(),
        None => None,
    }
}

impl Entry for FileEntry {
    /// The name of a file entry is the last component of its path, which
    /// depends on the platform's path syntax: what it is is not modelled.
    open spec fn named(&self) -> bool {
        false
    }

    open spec fn spec_name(&self) -> Seq<char> {
        Seq::empty()
    }

    /// The last component of the path, or empty text where the path has
    /// none that is text; either way a contiguous part of the path. A path
    /// that is a plain name is its own name; in a path with no backslash or
    /// colon, plain text after the last `/` is the name.
    fn name(&self) -> (r: &str)
        ensures
            exists|p: int, q: int| 0 <= p <= q <= self@.len() && r@ == self@.subrange(p, q),
            is_plain_name(self@) ==> r@ == self@,
            forall|k: int| #[trigger] name_after_slash(self@, k) ==> r@ == self@.skip(k + 1),
    {
        let path = self.path.as_str();
        assert(path@ == self@);
        match path_file_name(path) {
            Some(n) => n,
            None => {
                let empty = "";
                proof {
                    reveal_strlit("");
                    assert(empty@ =~= self@.subrange(0, 0));
                    assert(0 <= 0int <= 0int <= self@.len() && empty@ == self@.subrange(
                        0int,
                        0int,
                    ));
                }
                empty
            },
        }
    }
}

impl<'a> Entry for BaseEntry<'a> {
    open spec fn named(&self) -> bool {
        match self {
            BaseEntry::Memory(m) => m.named(),
            BaseEntry::File(f) => f.named(),
        }
    }

    open spec fn spec_name(&self) -> Seq<char> {
        match self {
            BaseEntry::Memory(m) => m.spec_name(),
            BaseEntry::File(f) => f.spec_name(),
        }
    }

    fn name(&self) -> (r: &str) {
        match self {
            BaseEntry::Memory(m) => m.name(),
            BaseEntry::File(f) => f.name(),
        }
    }
}

impl<'a> EntryExtract<'a> for MemoryEntry<'a> {
    /// The stored bytes themselves.
    open spec fn spec_extract(&self) -> Option<DecompressorView> {
        Some(DecompressorView::Uncompressed(self.data@))
    }

    fn extractor(&self) -> (r: Result<Option<Decompressor<'a>>, ExtractError>)
        ensures
            r == Ok::<Option<Decompressor<'a>>, ExtractError>(
                Some(Decompressor::Uncompressed(self.data)),
            ),
    {
        Ok(Some(Decompressor::Uncompressed(self.data)))
    }
}

impl<'a> EntryExtract<'a> for BaseEntry<'a> {
    /// The stored bytes of an in-memory entry; a file entry holds nothing to
    /// extract.
    open spec fn spec_extract(&self) -> Option<DecompressorView> {
        match self {
            BaseEntry::Memory(m) => m.spec_extract(),
            BaseEntry::File(_) => None,
        }
    }

    fn extractor(&self) -> (r: Result<Option<Decompressor<'a>>, ExtractError>)
        ensures
            self matches BaseEntry::Memory(m) ==> r == Ok::<Option<Decompressor<'a>>, ExtractError>(
                Some(Decompressor::Uncompressed(m.data)),
            ),
            self matches BaseEntry::File(_) ==> r == Ok::<Option<Decompressor<'a>>, ExtractError>(
                None,
            ),
    {
        match self {
            BaseEntry::Memory(e) => e.extractor(),
            _ => Ok(None),
        }
    }
}

impl<'a> vstd::std_specs::convert::FromSpecImpl<MemoryEntry<'a>> for BaseEntry<'a> {
    open spec fn obeys_from_spec() -> bool {
        true
    }

    open spec fn from_spec(v: MemoryEntry<'a>) -> Self {
        BaseEntry::Memory(v)
    }
}

impl<'a> From<MemoryEntry<'a>> for BaseEntry<'a> {
    fn from(v: MemoryEntry<'a>) -> (r: Self) {
        BaseEntry::Memory(v)
    }
}

impl<'a> vstd::std_specs::convert::FromSpecImpl<FileEntry> for BaseEntry<'a> {
    open spec fn obeys_from_spec() -> bool {
        true
    }

    open spec fn from_spec(v: FileEntry) -> Self {
        BaseEntry::File(v)
    }
}

impl<'a> From<FileEntry> for BaseEntry<'a> {
    fn from(v: FileEntry) -> (r: Self) {
        BaseEntry::File(v)
    }
}

} // verus!

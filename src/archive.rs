//! Read-only access to the entries of a zip archive held in memory, and the
//! resolution of a requested path to one of its entries.
use vstd::prelude::*;
use crate::names::{candidate_names, candidates};

verus! {

#[verifier::external_type_specification]
#[verifier::external_body]
#[verifier::reject_recursive_types(R)]
pub struct ExZipArchive<R>(zip::ZipArchive<R>);

#[verifier::external_type_specification]
#[verifier::external_body]
#[verifier::reject_recursive_types(T)]
pub struct ExCursor<T>(std::io::Cursor<T>);

#[verifier::external_type_specification]
#[verifier::external_body]
pub struct ExZipError(zip::result::ZipError);

/// A zip archive read from bytes held in memory.
pub type Zip = zip::ZipArchive<std::io::Cursor<Vec<u8>>>;

/// What an archive holds: each entry name of its central directory, mapped
/// to the entry's decompressed content, or to `None` where that content
/// cannot be read (an unsupported compression method or encryption, a
/// corrupt stream, a checksum that does not match).
pub uninterp spec fn archive_entries(z: Zip) -> Map<Seq<char>, Option<Seq<u8>>>;

/// What reading the entry `name` gives: nothing where there is no such entry.
pub open spec fn entry_content(entries: Map<Seq<char>, Option<Seq<u8>>>, name: Seq<char>) -> Option<Seq<u8>> {
    if entries.dom().contains(name) {
        entries[name]
    } else {
        None
    }
}

/// Whether zip's reader finds a valid zip structure in the bytes.
pub uninterp spec fn holds_zip(b: Seq<u8>) -> bool;

/// Relies on zip::ZipArchive::new: reads the central directory from the end
/// of the bytes; fails where there is no valid zip structure. The outcome
/// depends on the bytes alone.
#[verifier::external_body]
fn parse_zip(bytes: Vec<u8>) -> (r: Result<Zip, zip::result::ZipError>)
    ensures
        r is Ok == holds_zip(bytes@),
{
    zip::ZipArchive::new(std::io::Cursor::new(bytes))
}

/// Relies on zip::ZipArchive::index_for_name: an exact lookup of the name in
/// the central directory.
#[verifier::external_body]
fn has_entry(z: &Zip, name: &str) -> (r: bool)
    ensures
        r == archive_entries(*z).dom().contains(name@),
{
    z.index_for_name(name).is_some()
}

/// Relies on zip::ZipArchive::by_name and std::io::Read::read_to_end on the
/// entry: the entry's decompressed content, or nothing where there is no
/// such entry or its content cannot be read. Reading leaves the entries as
/// they were.
#[verifier::external_body]
fn read_entry(z: &mut Zip, name: &str) -> (r: Option<Vec<u8>>)
    ensures
        archive_entries(*final(z)) == archive_entries(*old(z)),
        match r {
            Some(b) => entry_content(archive_entries(*old(z)), name@) == Some(b@),
            None => entry_content(archive_entries(*old(z)), name@) is None,
        },
{
    let mut file = z.by_name(name).ok()?;
    let mut contents: Vec<u8> = Vec::new();
    std::io::Read::read_to_end(&mut file, &mut contents).ok()?;
    Some(contents)
}

/// Why an archive could not be opened.
#[derive(Clone, Copy, Debug, PartialEq, Eq, Structural)]
pub enum ArchiveError {
    /// The bytes hold no valid zip structure.
    NotAnArchive,
}

/// An opened, read-only archive.
pub struct Archive {
    zip: Zip,
}

/// The first of `cs` that is among `names`, if any.
pub open spec fn first_present(names: Set<Seq<char>>, cs: Seq<Seq<char>>) -> Option<Seq<char>>
    decreases cs.len(),
{
    if cs.len() == 0 {
        None
    } else if names.contains(cs[0]) {
        Some(cs[0])
    } else {
        first_present(names, cs.drop_first())
    }
}

/// The entry name that a requested path resolves to among `names`: the
/// first candidate name, in priority order, that is present.
pub open spec fn resolve_in(names: Set<Seq<char>>, p: Seq<char>) -> Option<Seq<char>> {
    first_present(names, candidate_names(p))
}

impl Archive {
    /// The entries of this archive.
    pub closed spec fn entries(&self) -> Map<Seq<char>, Option<Seq<u8>>> {
        archive_entries(self.zip)
    }

    /// Opens an archive from its bytes (a zip central directory is located
    /// from the end, whatever precedes it). Fails with `NotAnArchive` where
    /// the bytes hold no valid zip structure.
    pub fn open(bytes: Vec<u8>) -> (r: Result<Archive, ArchiveError>)
        ensures
            r is Ok == holds_zip(bytes@),
            r matches Err(e) ==> e == ArchiveError::NotAnArchive,
    {
        match parse_zip(bytes) {
            Ok(zip) => Ok(Archive { zip }),
            Err(_) => Err(ArchiveError::NotAnArchive),
        }
    }

    /// Whether the archive has an entry of exactly this name.
    pub fn contains(&self, name: &str) -> (r: bool)
        ensures
            r == self.entries().dom().contains(name@),
    {
        has_entry(&self.zip, name)
    }

    /// The content of the entry `name`; nothing where there is no such entry
    /// or its content cannot be read.
    pub fn read(&mut self, name: &str) -> (r: Option<Vec<u8>>)
        ensures
            final(self).entries() == old(self).entries(),
            match r {
                Some(b) => entry_content(old(self).entries(), name@) == Some(b@),
                None => entry_content(old(self).entries(), name@) is None,
            },
    {
        read_entry(&mut self.zip, name)
    }

    /// The entry that a requested path resolves to: the first of the path
    /// itself and the path with `.md`, `.org`, `.htm`, `.html` appended that
    /// names an entry. A literal match takes priority over a suffixed one.
    pub fn resolve(&self, path: &str) -> (r: Option<String>)
        ensures
            match r {
                Some(n) => resolve_in(self.entries().dom(), path@) == Some(n@)
                    && self.entries().dom().contains(n@),
                None => resolve_in(self.entries().dom(), path@) is None,
            },
    {
        let cs = candidates(path);
        let ghost names = self.entries().dom();
        let ghost all = candidate_names(path@);
        assert(all.subrange(0, 5) =~= all);
        let mut i: usize = 0;
        while i < cs.len()
            invariant
                cs@.len() == 5,
                all == candidate_names(path@),
                forall|k: int| 0 <= k < 5 ==> #[trigger] cs@[k]@ == all[k],
                i <= 5,
                first_present(names, all) == first_present(names, all.subrange(i as int, 5)),
                names == self.entries().dom(),
            decreases 5 - i,
        {
            let ghost rest = all.subrange(i as int, 5);
            assert(rest[0] == cs@[i as int]@);
            if self.contains(cs[i].as_str()) {
                let found = cs[i].clone();
                assert(first_present(names, rest) == Some(rest[0]));
                return Some(found);
            }
            assert(rest.drop_first() =~= all.subrange(i + 1, 5));
            i = i + 1;
        }
        None
    }
}

} // verus!

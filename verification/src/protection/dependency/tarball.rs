//! Reading compressed crate archives, entry by entry.
//!
//! `tar` hands out the entries of an archive one at a time while `flate2` decompresses it. An
//! archive is never unpacked as a whole: what is not asked for is not kept.

use flate2::read::GzDecoder;
use std::io::Read;
use vstd::prelude::*;

verus! {

/// One entry of an archive: its path, whether it is a directory or a regular file, the size that
/// its header gives, and what can be read of it. A size or content that cannot be read is missing.
pub struct EntryView {
    pub path: Seq<u8>,
    pub is_dir: bool,
    pub is_file: bool,
    pub size: Option<u64>,
    pub content: Option<Seq<u8>>,
}

/// What reading on in an archive gives: an entry, or a failure.
pub enum ItemView {
    Unreadable,
    Entry(EntryView),
}

/// A gzip-compressed tar archive in memory: a `tar::Archive` over a `flate2::read::GzDecoder`.
#[verifier::external_body]
pub struct CrateArchive<'a> {
    inner: tar::Archive<GzDecoder<&'a [u8]>>,
}

/// The entries of an archive that are still to come: a `tar::Entries`.
#[verifier::external_body]
pub struct CrateEntries<'e, 'a> {
    inner: tar::Entries<'e, GzDecoder<&'a [u8]>>,
}

/// An entry of an archive: a `tar::Entry`. All entries of an archive share one position in it, so an
/// entry holds the entries still to come for as long as it is there: it can be read only before the
/// next one is taken.
#[verifier::external_body]
pub struct CrateEntry<'s, 'e, 'a> {
    inner: tar::Entry<'e, GzDecoder<&'a [u8]>>,
    held: std::marker::PhantomData<&'s mut ()>,
}

/// What reading a compressed archive from its start gives, in order.
pub uninterp spec fn archive_items(bytes: Seq<u8>) -> Seq<ItemView>;

/// What reading an archive that has not been read from gives; nothing for one that has.
pub uninterp spec fn unread_items(archive: CrateArchive<'_>) -> Option<Seq<ItemView>>;

/// What the entries that are still to come give.
pub uninterp spec fn left_items(entries: CrateEntries<'_, '_>) -> Seq<ItemView>;

/// What an entry holds, read before the next one is taken.
pub uninterp spec fn entry_model(entry: CrateEntry<'_, '_, '_>) -> EntryView;

/// `tar::Archive::new` over `flate2::read::GzDecoder::new`: an archive from which nothing has been
/// read.
#[verifier::external_body]
pub(crate) fn open_archive<'a>(bytes: &'a [u8]) -> (r: CrateArchive<'a>)
    ensures
        unread_items(r) == Some(archive_items(bytes@)),
{
    CrateArchive { inner: tar::Archive::new(GzDecoder::new(bytes)) }
}

/// `tar::Archive::entries`: the entries of an archive from which nothing has been read. It fails,
/// with a message of which nothing is claimed, only on one that has been read from.
#[verifier::external_body]
pub(crate) fn archive_entries<'e, 'a>(archive: &'e mut CrateArchive<'a>) -> (r: Result<
    CrateEntries<'e, 'a>,
    String,
>)
    ensures
        unread_items(*old(archive)) matches Some(items) ==> (r matches Ok(entries) && left_items(
            entries,
        ) == items),
{
    match archive.inner.entries() {
        Ok(inner) => Ok(CrateEntries { inner }),
        Err(error) => Err(error.to_string()),
    }
}

/// `tar::Entries::next`: the next entry, or a failure with a message of which nothing is claimed;
/// nothing at the end. No entry that was handed out before is there any more.
#[verifier::external_body]
pub(crate) fn next_entry<'s, 'e, 'a>(entries: &'s mut CrateEntries<'e, 'a>) -> (r: Option<
    Result<CrateEntry<'s, 'e, 'a>, String>,
>)
    ensures
        match r {
            None => left_items(*old(entries)).len() == 0,
            Some(item) => {
                &&& left_items(*old(entries)).len() > 0
                &&& left_items(*final(entries)) == left_items(*old(entries)).skip(1)
                &&& left_items(*old(entries))[0] == (match item {
                    Ok(entry) => ItemView::Entry(entry_model(entry)),
                    Err(_) => ItemView::Unreadable,
                })
            },
        },
{
    match entries.inner.next() {
        None => None,
        Some(Ok(inner)) => Some(Ok(CrateEntry { inner, held: std::marker::PhantomData })),
        Some(Err(error)) => Some(Err(error.to_string())),
    }
}

/// `tar::Entry::path_bytes`: the path of the entry.
#[verifier::external_body]
pub(crate) fn entry_path(entry: &CrateEntry<'_, '_, '_>) -> (r: Vec<u8>)
    ensures
        r@ == entry_model(*entry).path,
{
    entry.inner.path_bytes().into_owned()
}

/// `tar::EntryType::is_dir` of the entry's header: whether the entry is a directory.
#[verifier::external_body]
pub(crate) fn entry_is_dir(entry: &CrateEntry<'_, '_, '_>) -> (r: bool)
    ensures
        r == entry_model(*entry).is_dir,
{
    entry.inner.header().entry_type().is_dir()
}

/// `tar::EntryType::is_file` of the entry's header: whether the entry is a regular file.
#[verifier::external_body]
pub(crate) fn entry_is_file(entry: &CrateEntry<'_, '_, '_>) -> (r: bool)
    ensures
        r == entry_model(*entry).is_file,
{
    entry.inner.header().entry_type().is_file()
}

/// `tar::Header::size`: the size that the entry's header gives. Nothing is claimed of the message
/// of a failure.
#[verifier::external_body]
pub(crate) fn entry_size(entry: &CrateEntry<'_, '_, '_>) -> (r: Result<u64, String>)
    ensures
        match r {
            Ok(size) => entry_model(*entry).size == Some(size),
            Err(_) => entry_model(*entry).size is None,
        },
{
    match entry.inner.header().size() {
        Ok(size) => Ok(size),
        Err(error) => Err(error.to_string()),
    }
}

/// `Read::read_to_end` of a `tar::Entry`: what the entry holds. Nothing is claimed of the message
/// of a failure.
#[verifier::external_body]
pub(crate) fn read_entry(entry: CrateEntry<'_, '_, '_>) -> (r: Result<Vec<u8>, String>)
    ensures
        match r {
            Ok(bytes) => entry_model(entry).content == Some(bytes@),
            Err(_) => entry_model(entry).content is None,
        },
{
    let mut entry = entry;
    let mut bytes: Vec<u8> = Vec::new();
    match entry.inner.read_to_end(&mut bytes) {
        Ok(_) => Ok(bytes),
        Err(error) => Err(error.to_string()),
    }
}

} // verus!

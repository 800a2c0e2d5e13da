use vstd::prelude::*;
use std::io::Read;
use crate::text::{find_key, key_index};

verus! {

/// Why a container could not be built or read.
#[derive(Clone, Copy, Debug, PartialEq, Eq, Structural)]
pub enum ArchiveError {
    ArchiveCorrupt,
    EntryRejected,
}

/// The named entries of a container, in the order they stand in it.
pub type EntriesView = Seq<(Seq<char>, Seq<u8>)>;

/// The bytes of a tar archive with one entry holding `data` under `name`, modified at
/// `mtime`, as the `tar` crate's `Builder` writes it; `None` where it refuses the name.
pub uninterp spec fn tar_archive_of(name: Seq<char>, data: Seq<u8>, mtime: u64) -> Option<Seq<u8>>;

/// The entries, names and contents, that the `tar` crate's `Archive` reads from bytes;
/// `None` where it cannot read them all, or a name is not UTF-8.
pub uninterp spec fn tar_entries_of(bytes: Seq<u8>) -> Option<EntriesView>;

/// Relies on `tar::Header::new_gnu`, `Header::set_path`, `set_size`, `set_mtime`,
/// `set_cksum`, and on `tar::Builder::append` and `Builder::into_inner` over a `Vec<u8>`:
/// the bytes depend on the name, the contents and the time alone.
#[verifier::external_body]
fn tar_archive(name: &str, data: &[u8], mtime: u64) -> (r: Option<Vec<u8>>)
    ensures
        r.deep_view() == tar_archive_of(name@, data@, mtime),
{
    let mut header = tar::Header::new_gnu();
    header.set_path(name).ok()?;
    header.set_size(data.len() as u64);
    header.set_mtime(mtime);
    header.set_cksum();
    let mut builder = tar::Builder::new(Vec::new());
    builder.append(&header, data).ok()?;
    builder.into_inner().ok()
}

/// Relies on `tar::Archive::entries` over a byte slice, `Entry::path` and
/// `Read::read_to_end` on each entry: the entries depend on the bytes alone.
#[verifier::external_body]
fn tar_entries(bytes: &[u8]) -> (r: Option<Vec<(String, Vec<u8>)>>)
    ensures
        r.deep_view() == tar_entries_of(bytes@),
{
    let mut archive = tar::Archive::new(bytes);
    let mut out = Vec::new();
    for entry in archive.entries().ok()? {
        let mut entry = entry.ok()?;
        let name = entry.path().ok()?.to_str()?.to_string();
        let mut data = Vec::new();
        entry.read_to_end(&mut data).ok()?;
        out.push((name, data));
    }
    Some(out)
}

/// Relies on `std::time::SystemTime::elapsed` since `UNIX_EPOCH`: the whole seconds, where
/// the clock is not set before that.
#[verifier::external_body]
pub(crate) fn unix_time_now() -> (r: Option<u64>) {
    std::time::SystemTime::UNIX_EPOCH.elapsed().ok().map(|d| d.as_secs())
}

/// A container with one entry holding `payload` under `name`, modified at `mtime`.
pub fn pack(name: &str, payload: &[u8], mtime: u64) -> (r: Result<Vec<u8>, ArchiveError>)
    ensures
        match tar_archive_of(name@, payload@, mtime) {
            Some(b) => r matches Ok(v) && v@ == b,
            None => r == Err::<Vec<u8>, ArchiveError>(ArchiveError::EntryRejected),
        },
{
    match tar_archive(name, payload, mtime) {
        Some(b) => Ok(b),
        None => Err(ArchiveError::EntryRejected),
    }
}

/// The entries of a container, in order.
pub fn unpack(bytes: &[u8]) -> (r: Result<Vec<(String, Vec<u8>)>, ArchiveError>)
    ensures
        match tar_entries_of(bytes@) {
            Some(es) => r matches Ok(v) && v.deep_view() == es,
            None => r == Err::<Vec<(String, Vec<u8>)>, ArchiveError>(ArchiveError::ArchiveCorrupt),
        },
{
    match tar_entries(bytes) {
        Some(es) => Ok(es),
        None => Err(ArchiveError::ArchiveCorrupt),
    }
}

/// The contents of the first entry named `name`.
pub open spec fn entry_named(es: EntriesView, name: Seq<char>) -> Option<Seq<u8>> {
    match key_index(es, name) {
        Some(i) => Some(es[i].1),
        None => None,
    }
}

/// The contents of the first entry named `name`.
pub fn take_entry(entries: Vec<(String, Vec<u8>)>, name: &str) -> (r: Option<Vec<u8>>)
    ensures
        match entry_named(entries.deep_view(), name@) {
            Some(b) => r matches Some(v) && v@ == b,
            None => r is None,
        },
{
    let mut entries = entries;
    match find_key(&entries, name) {
        Some(i) => {
            let ghost es = entries.deep_view();
            let (_, data) = entries.remove(i);
            assert(data@ == es[i as int].1);
            Some(data)
        },
        None => None,
    }
}

} // verus!

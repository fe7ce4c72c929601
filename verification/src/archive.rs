//! The archive accessor: the ZIP container behind trusted wrappers.
//!
//! The engine reads a document as a ZIP archive of XML parts.  Opening,
//! listing and reading are delegated to the `zip` crate; the archive's
//! logical contents are named by two uninterpreted functions, one for the
//! part names in central-directory order and one for the decoded text of
//! each readable part, and every wrapper's contract speaks over those.

use vstd::prelude::*;
use std::io::Cursor;
use zip::ZipArchive;

verus! {

#[verifier::external_type_specification]
#[verifier::external_body]
#[verifier::reject_recursive_types(R)]
pub struct ExZipArchive<R>(ZipArchive<R>);

#[verifier::external_type_specification]
#[verifier::external_body]
#[verifier::reject_recursive_types(T)]
pub struct ExCursor<T>(Cursor<T>);

/// The archive's part names, in central-directory order.
pub uninterp spec fn archive_names(a: ZipArchive<Cursor<Vec<u8>>>) -> Seq<Seq<char>>;

/// The decoded text of each part of the archive that reads as text.
pub uninterp spec fn archive_texts(a: ZipArchive<Cursor<Vec<u8>>>) -> Map<Seq<char>, Seq<char>>;

/// What opening a container over the given bytes yields: `None` when the
/// bytes are not a readable ZIP, else the part names and the readable
/// parts' text.  Over in-memory bytes the outcome is a function of the
/// bytes alone.
pub uninterp spec fn zip_contents_of(b: Seq<u8>) -> Option<
    (Seq<Seq<char>>, Map<Seq<char>, Seq<char>>),
>;

/// Relies on `zip::ZipArchive::new`: opens the container over the given
/// bytes, or reports the reason the container is not a readable ZIP.
/// Parsing in-memory bytes is deterministic, so success and the opened
/// archive's contents are fixed by the bytes.
#[verifier::external_body]
pub fn archive_open(bytes: Vec<u8>) -> (r: Result<ZipArchive<Cursor<Vec<u8>>>, String>)
    ensures
        match r {
            Ok(a) => zip_contents_of(bytes@) == Some((archive_names(a), archive_texts(a))),
            Err(_) => zip_contents_of(bytes@) is None,
        },
{
    match ZipArchive::new(Cursor::new(bytes)) {
        Ok(a) => Ok(a),
        Err(e) => Err(format!("{}", e)),
    }
}

/// Relies on `zip::ZipArchive::file_names`: the part names, in
/// central-directory order (the crate stores them in an insertion-ordered
/// index map).
#[verifier::external_body]
pub fn archive_part_names(a: &ZipArchive<Cursor<Vec<u8>>>) -> (r: Vec<String>)
    ensures
        r.deep_view() == archive_names(*a),
{
    a.file_names().map(|s| s.to_string()).collect()
}

/// Relies on `zip::ZipArchive::by_name` and std's `Read::read_to_string`:
/// the decoded text of the named part, or `None` when the part is absent
/// or does not read as text.  Reading moves the underlying cursor but the
/// archive's logical contents do not change.
#[verifier::external_body]
pub fn archive_read_part(a: &mut ZipArchive<Cursor<Vec<u8>>>, name: &str) -> (r: Option<String>)
    ensures
        archive_names(*final(a)) == archive_names(*old(a)),
        archive_texts(*final(a)) == archive_texts(*old(a)),
        match r {
            Some(s) => archive_texts(*old(a)).dom().contains(name@) && s@ == archive_texts(
                *old(a),
            )[name@],
            None => !archive_texts(*old(a)).dom().contains(name@),
        },
{
    match a.by_name(name) {
        Ok(mut f) => {
            let mut s = String::new();
            match std::io::Read::read_to_string(&mut f, &mut s) {
                Ok(_) => Some(s),
                Err(_) => None,
            }
        },
        Err(_) => None,
    }
}

/// Relies on `chrono::Utc::now` and `to_rfc3339`: the current time as an
/// RFC 3339 timestamp.  The result depends on the clock, so nothing is
/// promised of it.  Caveat: `Utc::now` aborts when the system clock
/// reports a time before 1970, an environment failure that no input
/// condition can exclude.
#[verifier::external_body]
pub fn now_rfc3339() -> (r: String) {
    chrono::Utc::now().to_rfc3339()
}

} // verus!

use vstd::prelude::*;

verus! {

#[verifier::external_type_specification]
#[verifier::external_body]
#[verifier::reject_recursive_types(T)]
pub struct ExCursor<T>(std::io::Cursor<T>);

#[verifier::external_type_specification]
#[verifier::external_body]
#[verifier::reject_recursive_types(R)]
pub struct ExZipArchive<R>(zip::ZipArchive<R>);

/// An archive read from a buffer held in memory.
pub type MemoryArchive = zip::ZipArchive<std::io::Cursor<Vec<u8>>>;

/// Whether `bytes` hold a zip archive whose central directory can be read.
pub uninterp spec fn is_zip_archive(bytes: Seq<u8>) -> bool;

/// Relies on zip::ZipArchive::new: it reads the central directory of the
/// bytes and fails, with a message, where they hold no readable archive.
#[verifier::external_body]
pub(crate) fn parse_archive(bytes: Vec<u8>) -> (r: Result<MemoryArchive, String>)
    ensures
        r.is_ok() == is_zip_archive(bytes@),
{
    zip::ZipArchive::new(std::io::Cursor::new(bytes)).map_err(|e| e.to_string())
}

/// Whether an archive entry of this name is a directory: its name ends with
/// a slash.
pub fn is_directory_entry(name: &str) -> (r: bool)
    ensures
        r == (name@.len() > 0 && name@.last() == '/'),
{
    let n = name.unicode_len();
    n > 0 && name.get_char(n - 1) == '/'
}

} // verus!

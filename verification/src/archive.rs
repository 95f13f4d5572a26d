//! Reading the entries of a zip archive held in memory, through the `zip`
//! crate.
use vstd::prelude::*;

verus! {

/// What `zip::ZipArchive::new` followed by `ZipArchive::len` gives for an
/// archive held in `bytes`: the number of entries, or the error's text.
pub uninterp spec fn zip_count_of(bytes: Seq<u8>) -> Result<nat, Seq<char>>;

/// The name of entry `index` of the archive in `bytes`
/// (`ZipArchive::by_index` then `ZipFile::name`), or the error's text.
pub uninterp spec fn zip_name_of(bytes: Seq<u8>, index: nat) -> Result<Seq<char>, Seq<char>>;

/// The decompressed content of entry `index` of the archive in `bytes`
/// (`ZipArchive::by_index`, read to the end), or the error's text.
pub uninterp spec fn zip_data_of(bytes: Seq<u8>, index: nat) -> Result<Seq<u8>, Seq<char>>;

/// Opens the archive in `bytes` with `zip::ZipArchive::new` and returns
/// `ZipArchive::len`. The contract claims only that the result is a function
/// of the bytes: the count, or the text of the error that opening gave.
#[verifier::external_body]
pub(crate) fn zip_entry_count(bytes: &[u8]) -> (r: Result<usize, String>)
    ensures
        match r {
            Ok(n) => zip_count_of(bytes@) == Ok::<nat, Seq<char>>(n as nat),
            Err(e) => zip_count_of(bytes@) == Err::<nat, Seq<char>>(e@),
        },
{
    match zip::ZipArchive::new(std::io::Cursor::new(bytes)) {
        Ok(archive) => Ok(archive.len()),
        Err(e) => Err(e.to_string()),
    }
}

/// Opens the archive in `bytes` and returns the name of entry `index`
/// (`ZipArchive::by_index`, `ZipFile::name`). The contract claims only that
/// the result is a function of the bytes and the index.
#[verifier::external_body]
pub(crate) fn zip_entry_name(bytes: &[u8], index: usize) -> (r: Result<String, String>)
    ensures
        match r {
            Ok(name) => zip_name_of(bytes@, index as nat) == Ok::<Seq<char>, Seq<char>>(name@),
            Err(e) => zip_name_of(bytes@, index as nat) == Err::<Seq<char>, Seq<char>>(e@),
        },
{
    let mut archive = zip::ZipArchive::new(std::io::Cursor::new(bytes)).map_err(|e| e.to_string())?;
    let file = archive.by_index(index).map_err(|e| e.to_string())?;
    Ok(file.name().to_string())
}

/// Opens the archive in `bytes` and reads entry `index` to its end
/// (`ZipArchive::by_index`, then `std::io::copy`). The contract claims only
/// that the result is a function of the bytes and the index.
#[verifier::external_body]
pub(crate) fn zip_entry_data(bytes: &[u8], index: usize) -> (r: Result<Vec<u8>, String>)
    ensures
        match r {
            Ok(data) => zip_data_of(bytes@, index as nat) == Ok::<Seq<u8>, Seq<char>>(data@),
            Err(e) => zip_data_of(bytes@, index as nat) == Err::<Seq<u8>, Seq<char>>(e@),
        },
{
    let mut archive = zip::ZipArchive::new(std::io::Cursor::new(bytes)).map_err(|e| e.to_string())?;
    let mut file = archive.by_index(index).map_err(|e| e.to_string())?;
    let mut data: Vec<u8> = Vec::new();
    std::io::copy(&mut file, &mut data).map_err(|e| e.to_string())?;
    Ok(data)
}

} // verus!

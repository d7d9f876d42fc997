//! Hexdump listings of EEPROM (data flash) contents.

use vstd::prelude::*;

verus! {

#[verifier::external_type_specification]
#[verifier::external_body]
pub struct ExIoError(std::io::Error);

/// The text `hxdmp::hexdump` writes for `data`: one line per sixteen bytes,
/// each with its offset, the bytes in hexadecimal and their printable ASCII
/// characters.
pub uninterp spec fn hexdump_text(data: Seq<u8>) -> Seq<u8>;

/// Calls `hxdmp::hexdump` with a fresh `Vec<u8>` as the writer. Trusted:
/// the call succeeds and the bytes written are `hexdump_text` of `data`.
/// `hxdmp::hexdump` returns an error only where its writer does (each
/// `write!` is followed by `?`, nothing else fails), and writing to a
/// `Vec<u8>` appends to it and grows it as needed.
#[verifier::external_body]
fn hexdump_to_vec(data: &[u8]) -> (r: Result<Vec<u8>, std::io::Error>)
    ensures
        r is Ok,
        r matches Ok(text) ==> text@ == hexdump_text(data@),
{
    let mut text: Vec<u8> = Vec::new();
    match hxdmp::hexdump(data, &mut text) {
        Ok(()) => Ok(text),
        Err(e) => Err(e),
    }
}

/// A hexdump listing could not be written (its writer reported an error;
/// with the in-memory writer used here this does not happen).
#[derive(Debug, Clone, Copy, PartialEq, Eq)]
pub enum DumpError {
    /// The listing's writer reported an error.
    Write,
}

/// The hexdump listing of EEPROM contents, as the bytes of its text; it is
/// always produced.
pub fn eeprom_hexdump(eeprom: &[u8]) -> (r: Result<Vec<u8>, DumpError>)
    ensures
        r is Ok,
        r matches Ok(text) ==> text@ == hexdump_text(eeprom@),
{
    match hexdump_to_vec(eeprom) {
        Ok(text) => Ok(text),
        Err(_) => Err(DumpError::Write),
    }
}

} // verus!

//! Firmware images and flash geometry.

use vstd::prelude::*;

verus! {

/// Size of one flash sector in bytes; firmware images are padded to a
/// multiple of it before they are written.
pub const SECTOR_SIZE: usize = 1024;

/// Number of zero bytes that bring a firmware of `len` bytes up to the next
/// sector boundary (none when it already ends on one).
pub open spec fn sector_padding(len: nat) -> nat {
    if len % 1024 == 0 {
        0
    } else {
        (1024 - len % 1024) as nat
    }
}

/// A firmware image extended with zero bytes up to the next sector boundary.
pub open spec fn padded_firmware(image: Seq<u8>) -> Seq<u8> {
    image + Seq::new(sector_padding(image.len()), |i: int| 0u8)
}

/// Pads `buf` with zero bytes so that its length is a multiple of
/// [`SECTOR_SIZE`]; a buffer that already ends on a sector boundary is left
/// as it is.
pub fn extend_firmware_to_sector_boundary(buf: &mut Vec<u8>)
    requires
        old(buf)@.len() + SECTOR_SIZE <= usize::MAX,
    ensures
        final(buf)@ == padded_firmware(old(buf)@),
{
    if buf.len() % 1024 != 0 {
        let remain = 1024 - (buf.len() % 1024);
        buf.extend_from_slice(&vec![0; remain]);
    }
    assert(buf@ =~= padded_firmware(old(buf)@));
}

/// Padding a firmware image keeps its bytes, appends fewer than one sector
/// of zero bytes, and leaves a length that is a whole number of sectors.
pub proof fn lemma_padded_firmware_shape(image: Seq<u8>)
    ensures
        padded_firmware(image).len() % (SECTOR_SIZE as nat) == 0,
        image.len() <= padded_firmware(image).len() < image.len() + SECTOR_SIZE,
        padded_firmware(image).subrange(0, image.len() as int) == image,
        forall|i: int|
            image.len() <= i < padded_firmware(image).len() ==> #[trigger] padded_firmware(image)[i]
                == 0u8,
{
    assert(padded_firmware(image).subrange(0, image.len() as int) =~= image);
}

/// Padding is idempotent: an image that already ends on a sector boundary
/// is not padded again.
pub proof fn lemma_padded_firmware_idempotent(image: Seq<u8>)
    ensures
        padded_firmware(padded_firmware(image)) == padded_firmware(image),
{
    lemma_padded_firmware_shape(image);
    assert(padded_firmware(padded_firmware(image)) =~= padded_firmware(image));
}

/// Number of sectors erased before a firmware of `firmware_len` bytes is
/// written: one more than the whole sectors it fills, cut to 32 bits.
pub open spec fn spec_flash_erase_sector_count(firmware_len: nat) -> u32 {
    (firmware_len / 1024 + 1) as u32
}

/// Sectors to erase before writing a firmware image of `firmware_len` bytes.
pub fn flash_erase_sector_count(firmware_len: usize) -> (sectors: u32)
    ensures
        sectors == spec_flash_erase_sector_count(firmware_len as nat),
{
    let count: usize = firmware_len / SECTOR_SIZE + 1;
    #[verifier::truncate]
    (count as u32)
}

/// The erased region covers the whole firmware image whenever the sector
/// count fits in 32 bits, and reaches at most one sector past the image's
/// end: it is the smallest whole number of sectors that is larger than the
/// image.
pub proof fn lemma_flash_erase_covers_firmware(firmware_len: nat)
    requires
        firmware_len / 1024 + 1 <= u32::MAX,
    ensures
        spec_flash_erase_sector_count(firmware_len) * 1024 > firmware_len,
        spec_flash_erase_sector_count(firmware_len) * 1024 <= firmware_len + 1024,
        (spec_flash_erase_sector_count(firmware_len) - 1) * 1024 <= firmware_len,
{
}

/// Sectors to erase when the whole code flash of `flash_size` bytes is
/// cleared: the whole sectors it holds.
pub fn chip_erase_sector_count(flash_size: u32) -> (sectors: u32)
    ensures
        sectors as int == flash_size as int / 1024,
{
    flash_size / 1024
}

/// An EEPROM image whose length does not match the chip's EEPROM size.
#[derive(Debug, Clone, Copy, PartialEq, Eq)]
pub struct EepromSizeMismatch {
    /// The chip's EEPROM size in bytes.
    pub expected: u32,
    /// The length of the image that was given.
    pub actual: usize,
}

/// Checks that an EEPROM image of `image_len` bytes fits a chip whose EEPROM
/// holds `eeprom_size` bytes; the length is compared after being cut to 32
/// bits.
pub fn check_eeprom_size(image_len: usize, eeprom_size: u32) -> (r: Result<(), EepromSizeMismatch>)
    ensures
        r is Ok <==> (image_len as u32) == eeprom_size,
        r matches Err(e) ==> e.expected == eeprom_size && e.actual == image_len,
{
    #[verifier::truncate]
    let len32: u32 = image_len as u32;
    if len32 != eeprom_size {
        Err(EepromSizeMismatch { expected: eeprom_size, actual: image_len })
    } else {
        Ok(())
    }
}

} // verus!

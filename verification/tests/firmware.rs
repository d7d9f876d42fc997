use kmbox_isp::firmware::{
    check_eeprom_size, chip_erase_sector_count, extend_firmware_to_sector_boundary,
    flash_erase_sector_count, EepromSizeMismatch, SECTOR_SIZE,
};

fn padded(len: usize) -> Vec<u8> {
    let mut buf: Vec<u8> = (0..len).map(|i| (i % 251) as u8 + 1).collect();
    extend_firmware_to_sector_boundary(&mut buf);
    buf
}

#[test]
fn sector_size_is_one_kibibyte() {
    assert_eq!(SECTOR_SIZE, 1024);
}

#[test]
fn empty_firmware_stays_empty() {
    assert_eq!(padded(0), Vec::<u8>::new());
}

#[test]
fn short_firmware_is_padded_to_one_sector() {
    let buf = padded(1);
    assert_eq!(buf.len(), 1024);
    assert_eq!(buf[0], 1);
    assert!(buf[1..].iter().all(|&b| b == 0));
}

#[test]
fn aligned_firmware_is_left_alone() {
    let before: Vec<u8> = (0..2048usize).map(|i| (i % 7) as u8).collect();
    let mut buf = before.clone();
    extend_firmware_to_sector_boundary(&mut buf);
    assert_eq!(buf, before);
}

#[test]
fn padding_keeps_bytes_and_adds_zeros() {
    for len in [1023usize, 1025, 1500, 3000] {
        let original: Vec<u8> = (0..len).map(|i| (i % 251) as u8 + 1).collect();
        let buf = padded(len);
        assert_eq!(buf.len() % 1024, 0);
        assert!(buf.len() >= len && buf.len() < len + 1024);
        assert_eq!(&buf[..len], &original[..]);
        assert!(buf[len..].iter().all(|&b| b == 0));
    }
    assert_eq!(padded(1025).len(), 2048);
    assert_eq!(padded(1023).len(), 1024);
}

#[test]
fn padding_twice_equals_padding_once() {
    let mut once = padded(777);
    let copy = once.clone();
    extend_firmware_to_sector_boundary(&mut once);
    assert_eq!(once, copy);
}

#[test]
fn flash_erase_counts_one_extra_sector() {
    assert_eq!(flash_erase_sector_count(0), 1);
    assert_eq!(flash_erase_sector_count(1023), 1);
    assert_eq!(flash_erase_sector_count(1024), 2);
    assert_eq!(flash_erase_sector_count(3072), 4);
}

#[test]
fn padded_firmware_fits_erased_sectors() {
    let buf = padded(5000);
    let sectors = flash_erase_sector_count(buf.len()) as usize;
    assert!(sectors * SECTOR_SIZE > buf.len());
}

#[test]
fn chip_erase_counts_whole_sectors() {
    assert_eq!(chip_erase_sector_count(65536), 64);
    assert_eq!(chip_erase_sector_count(1023), 0);
    assert_eq!(chip_erase_sector_count(229376), 224);
}

#[test]
fn eeprom_size_must_match() {
    assert_eq!(check_eeprom_size(2048, 2048), Ok(()));
    assert_eq!(
        check_eeprom_size(2047, 2048),
        Err(EepromSizeMismatch { expected: 2048, actual: 2047 })
    );
    assert_eq!(
        check_eeprom_size(0, 1),
        Err(EepromSizeMismatch { expected: 1, actual: 0 })
    );
}

#[test]
fn eeprom_size_is_compared_in_thirty_two_bits() {
    if let Ok(len) = usize::try_from((1u64 << 32) + 16) {
        assert_eq!(check_eeprom_size(len, 16), Ok(()));
    }
}

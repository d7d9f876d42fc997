use kmbox_isp::dump::eeprom_hexdump;

#[test]
fn hexdump_of_short_data() {
    let text = eeprom_hexdump(b"Hello, World! I'm hexy").unwrap();
    assert_eq!(
        String::from_utf8_lossy(&text),
        "0000: 48 65 6C 6C 6F 2C 20 57 6F 72 6C 64 21 20 49 27  Hello,.World!.I'\n\
0016: 6D 20 68 65 78 79                                m.hexy"
    );
}

#[test]
fn hexdump_of_unprintable_bytes() {
    let text = eeprom_hexdump(&[0, 1, 3, 4, 65]).unwrap();
    assert_eq!(
        String::from_utf8_lossy(&text),
        "0000: 00 01 03 04 41                                   ....A"
    );
}

#[test]
fn hexdump_of_nothing_is_empty() {
    assert_eq!(eeprom_hexdump(&[]).unwrap(), Vec::<u8>::new());
}

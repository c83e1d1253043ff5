use ahci_gmac::libata::ata_id_c_string;
use ahci_gmac::libata::ata_id_has_flush;
use ahci_gmac::libata::ata_id_has_flush_ext;
use ahci_gmac::libata::ata_id_has_lba;
use ahci_gmac::libata::ata_id_has_lba48;
use ahci_gmac::libata::ata_id_has_wcache;
use ahci_gmac::libata::ata_id_n_sectors;
use ahci_gmac::libata::ata_id_queue_depth;
use ahci_gmac::libata::ata_id_u32;
use ahci_gmac::libata::ata_id_u64;
use ahci_gmac::libata::ata_id_wcache_enabled;

fn blank_id() -> Vec<u16> {
    vec![0u16; 256]
}

/// Store an ASCII string as big-endian word pairs, padded with spaces.
fn put_string(id: &mut Vec<u16>, ofs: usize, len_words: usize, s: &str) {
    let mut bytes: Vec<u8> = s.as_bytes().to_vec();
    while bytes.len() < 2 * len_words {
        bytes.push(b' ');
    }
    for i in 0..len_words {
        id[ofs + i] = ((bytes[2 * i] as u16) << 8) | (bytes[2 * i + 1] as u16);
    }
}

#[test]
fn identity_string_decode() {
    let mut id = blank_id();
    put_string(&mut id, 27, 20, "SAMPLE-MODEL");

    let mut s: Vec<u8> = vec![0xAA; 41];
    ata_id_c_string(&id, &mut s, 27);

    assert_eq!(&s[0..12], b"SAMPLE-MODEL");
    assert_eq!(s[12], 0, "NUL terminator after the trimmed string");
    assert_eq!(s.len(), 41);
}

#[test]
fn identity_string_all_spaces() {
    let mut id = blank_id();
    put_string(&mut id, 10, 10, "");
    let mut s: Vec<u8> = vec![0xAA; 21];
    ata_id_c_string(&id, &mut s, 10);
    assert_eq!(s[0], 0, "an all-space field trims to the empty string");
}

#[test]
fn lba48_needs_valid_marker_bit_and_capacity() {
    // all three conditions hold
    let mut id = blank_id();
    id[83] = 0x4000 | (1 << 10);
    id[100] = 1;
    assert!(ata_id_has_lba48(&id));

    // invalid marker in the governing word
    let mut id = blank_id();
    id[83] = 0x8000 | (1 << 10);
    id[100] = 1;
    assert!(!ata_id_has_lba48(&id));

    // bit 10 clear
    let mut id = blank_id();
    id[83] = 0x4000;
    id[100] = 1;
    assert!(!ata_id_has_lba48(&id));

    // zero 48-bit capacity
    let mut id = blank_id();
    id[83] = 0x4000 | (1 << 10);
    assert!(!ata_id_has_lba48(&id));
}

#[test]
fn word_assembly() {
    let mut id = blank_id();
    id[60] = 0x5678;
    id[61] = 0x1234;
    assert_eq!(ata_id_u32(&id, 60), 0x12345678);

    id[100] = 0x1111;
    id[101] = 0x2222;
    id[102] = 0x3333;
    id[103] = 0x4444;
    assert_eq!(ata_id_u64(&id, 100), 0x4444333322221111);
}

#[test]
fn capacity_follows_addressing_mode() {
    // LBA28 device: 28-bit field
    let mut id = blank_id();
    id[49] = 1 << 9;
    id[60] = 0x5678;
    id[61] = 0x0012;
    assert!(ata_id_has_lba(&id));
    assert_eq!(ata_id_n_sectors(&id), 0x125678);

    // LBA48 device: 48-bit field
    id[83] = 0x4000 | (1 << 10);
    id[100] = 0x0001;
    id[101] = 0x0100;
    assert_eq!(ata_id_n_sectors(&id), 0x01000001);

    // no LBA at all
    let id = blank_id();
    assert_eq!(ata_id_n_sectors(&id), 0);
}

#[test]
fn flush_capabilities() {
    let mut id = blank_id();
    id[83] = 0x4000 | (1 << 12);
    assert!(ata_id_has_flush(&id));
    assert!(!ata_id_has_flush_ext(&id));

    id[83] = 0x4000 | (1 << 13);
    assert!(!ata_id_has_flush(&id));
    assert!(ata_id_has_flush_ext(&id));

    // invalid marker gates both off
    id[83] = (1 << 12) | (1 << 13);
    assert!(!ata_id_has_flush(&id));
    assert!(!ata_id_has_flush_ext(&id));
}

#[test]
fn write_cache_flags() {
    let mut id = blank_id();
    id[83] = 0x4000;
    id[82] = 1 << 5;
    assert!(ata_id_has_wcache(&id));

    id[87] = 0x4000;
    id[85] = 1 << 5;
    assert!(ata_id_wcache_enabled(&id));

    id[87] = 0;
    assert!(!ata_id_wcache_enabled(&id));
}

#[test]
fn queue_depth_decode() {
    // the low five bits of word 75 hold the depth minus one
    let id = blank_id();
    assert_eq!(ata_id_queue_depth(&id), 1);

    let mut id = blank_id();
    id[75] = 5;
    assert_eq!(ata_id_queue_depth(&id), 6);

    let mut id = blank_id();
    id[75] = 0xffdf;
    assert_eq!(ata_id_queue_depth(&id), 32, "only the low five bits count");
}

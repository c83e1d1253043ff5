use ahci_gmac::drv_ahci::ahci_exec_ata_cmd;
use ahci_gmac::drv_ahci::ahci_ffs32;
use ahci_gmac::drv_ahci::ahci_fill_sg;
use ahci_gmac::drv_ahci::ahci_get_cmd_slot;
use ahci_gmac::drv_ahci::ahci_host_init;
use ahci_gmac::drv_ahci::ahci_init;
use ahci_gmac::drv_ahci::ahci_port_base;
use ahci_gmac::drv_ahci::ahci_sata_read_common;
use ahci_gmac::drv_ahci::ahci_sata_write_common;
use ahci_gmac::libahci::ahci_cmd_hdr;
use ahci_gmac::libahci::ahci_device;
use ahci_gmac::libahci::ahci_ioport;
use ahci_gmac::libahci::ahci_sg;
use ahci_gmac::libahci::sata_drive;
use ahci_gmac::libahci::AHCI_MAX_BYTES_PER_TRANS;
use ahci_gmac::libahci::HOST_CAP;
use ahci_gmac::libahci::HOST_CTL;
use ahci_gmac::libahci::HOST_PORTS_IMPL;
use ahci_gmac::libahci::PORT_CMD_ISSUE;
use ahci_gmac::libahci::PORT_SCR_STAT;
use ahci_gmac::libata::sata_fis_h2d;
use ahci_gmac::libata::ATA_CMD_FLUSH;
use ahci_gmac::libata::ATA_CMD_READ;
use ahci_gmac::libata::ATA_CMD_READ_EXT;
use ahci_gmac::libata::ATA_CMD_WRITE;
use ahci_gmac::mmio::MmioBus;
use ahci_gmac::platform::PlatMem;

const BASE: u64 = 0x400e0000;
const BUF: u64 = 0x100000;

/// A controller window with the canonical behaviour rules: read-only
/// capability registers, a self-clearing reset request, self-clearing
/// command-issue bits, and `fuel` acknowledged operations.
fn mk_bus(fuel: u32) -> MmioBus {
    let mut bus = MmioBus::new(BASE, 0x440);
    bus.set_read_only(BASE + HOST_CAP);
    bus.set_read_only(BASE + HOST_PORTS_IMPL);
    bus.set_self_clearing(BASE + HOST_CTL, 1);
    for p in 0..32u64 {
        bus.set_self_clearing(BASE + 0x100 + p * 0x80 + PORT_CMD_ISSUE, 0xffff_ffff);
    }
    bus.set_fuel(fuel);
    bus
}

/// The same window with port 0's link reporting device present and
/// communicating.
fn mk_linked_bus(fuel: u32) -> MmioBus {
    let mut bus = mk_bus(fuel);
    bus.preset(BASE + 0x100 + PORT_SCR_STAT, 0x3);
    bus
}

fn zero_fis() -> sata_fis_h2d {
    sata_fis_h2d {
        fis_type: 39,
        pm_port_c: 0x80,
        command: 0,
        features: 0,
        lba_low: 0,
        lba_mid: 0,
        lba_high: 0,
        device: 0,
        lba_low_exp: 0,
        lba_mid_exp: 0,
        lba_high_exp: 0,
        features_exp: 0,
        sector_count: 0,
        sector_count_exp: 0,
        res1: 0,
        control: 0,
        res2: [0, 0, 0, 0],
    }
}

fn started_port(pm: u64) -> ahci_ioport {
    let mut pp = ahci_ioport::new();
    pp.port_mmio = pm;
    pp.cmd_slots = (0..32)
        .map(|_| ahci_cmd_hdr { opts: 0, status: 0, tbl_addr_lo: 0, tbl_addr_hi: 0, reserved: [0; 4] })
        .collect();
    pp.sg_list = (0..56)
        .map(|_| ahci_sg { addr_lo: 0, addr_hi: 0, reserved: 0, flags_size: 0 })
        .collect();
    pp
}

fn blank_ident() -> Vec<u16> {
    vec![0u16; 256]
}

/// An LBA28 drive; words 82/83/85/87 control cache and flush capability.
fn drive_lba28(wcache: bool, flush: bool) -> sata_drive {
    let mut id = blank_ident();
    id[49] = 1 << 9;
    id[60] = 0x0000;
    id[61] = 0x0010;
    id[64] = 0x3;
    id[88] = 0x7f;
    id[83] = 0x4000;
    if wcache {
        id[82] = 1 << 5;
        id[87] = 0x4000;
        id[85] = 1 << 5;
    }
    if flush {
        id[83] |= 1 << 12;
    }
    sata_drive::new(id)
}

fn drive_lba48() -> sata_drive {
    let mut id = blank_ident();
    id[49] = 1 << 9;
    id[83] = 0x4000 | (1 << 10);
    id[100] = 0x0000;
    id[101] = 0x0100;
    id[88] = 0x7f;
    sata_drive::new(id)
}

fn init_ok(bus: &mut MmioBus, drive: &sata_drive) -> (ahci_device, PlatMem) {
    let mut dev = ahci_device::new();
    let mut mem = PlatMem::new(0x8000_0000);
    let r = ahci_init(&mut dev, bus, &mut mem, drive);
    assert_eq!(r, 0, "initialisation is owed to succeed here");
    (dev, mem)
}

#[test]
fn find_first_set() {
    assert_eq!(ahci_ffs32(0), 0);
    assert_eq!(ahci_ffs32(1), 1);
    assert_eq!(ahci_ffs32(0xC), 3);
    assert_eq!(ahci_ffs32(0x8000_0000), 32);
    assert_eq!(ahci_get_cmd_slot(0), 0);
    assert_eq!(ahci_get_cmd_slot(2), 2);
}

#[test]
fn port_window_stride() {
    assert_eq!(ahci_port_base(BASE, 0), BASE + 0x100);
    assert_eq!(ahci_port_base(BASE, 3), BASE + 0x100 + 3 * 0x80);
}

#[test]
fn sg_builder_splits_by_entry_maximum() {
    let mut pp = started_port(BASE + 0x100);
    // 10 MiB + 1 byte: two full entries and a remainder
    let len: u32 = 10 * 1024 * 1024 + 1;
    let n = ahci_fill_sg(&mut pp, BUF, len);
    assert_eq!(n, 3);
    assert_eq!(pp.sg_list[0].flags_size, 0x3f_ffff);
    assert_eq!(pp.sg_list[1].flags_size, 0x3f_ffff);
    assert_eq!(pp.sg_list[2].flags_size, 0x20_0000);
    assert_eq!(pp.sg_list[0].addr_lo, BUF as u32);
    assert_eq!(pp.sg_list[1].addr_lo, (BUF + 0x40_0000) as u32);
    assert_eq!(pp.sg_list[2].addr_lo, (BUF + 0x80_0000) as u32);
    assert_eq!(pp.sg_list[0].addr_hi, 0);
}

#[test]
fn sg_builder_rejects_oversized_list() {
    let mut pp = started_port(BASE + 0x100);
    let before: Vec<ahci_sg> = pp.sg_list.clone();
    // 57 entries would be needed: one more than the hardware maximum
    let n = ahci_fill_sg(&mut pp, BUF, 57 * 4 * 1024 * 1024);
    assert_eq!(n, 0);
    assert_eq!(pp.sg_list, before, "a rejected fill leaves the list untouched");
}

#[test]
fn oversized_transfer_writes_no_register() {
    let mut dev = ahci_device::new();
    dev.port[0] = started_port(BASE + 0x100);
    let mut bus = mk_bus(10);
    let words_before = bus.words.clone();
    let fis = zero_fis();
    let r = ahci_exec_ata_cmd(&mut dev, &mut bus, 0, &fis, BUF, AHCI_MAX_BYTES_PER_TRANS + 1, 0);
    assert_eq!(r, 0);
    assert_eq!(bus.words, words_before, "no register was touched");
    assert_eq!(bus.sc_fuel, 10, "the device acknowledged nothing");
}

#[test]
fn command_completes_and_clears_issue_bit() {
    let mut dev = ahci_device::new();
    dev.port[0] = started_port(BASE + 0x100);
    let mut bus = mk_bus(1);
    let fis = zero_fis();
    let r = ahci_exec_ata_cmd(&mut dev, &mut bus, 0, &fis, BUF, 1024, 0);
    assert_eq!(r, 1024);
    assert_eq!(bus.read32(BASE + 0x100 + PORT_CMD_ISSUE), 0);
    assert_eq!(bus.sc_fuel, 0);
}

#[test]
fn unresponsive_device_reports_zero() {
    let mut dev = ahci_device::new();
    dev.port[0] = started_port(BASE + 0x100);
    let mut bus = mk_bus(0);
    let fis = zero_fis();
    let r = ahci_exec_ata_cmd(&mut dev, &mut bus, 0, &fis, BUF, 1024, 0);
    assert_eq!(r, 0, "an unacknowledged command transfers nothing");
    assert_eq!(bus.read32(BASE + 0x100 + PORT_CMD_ISSUE), 1, "the issue bit stays set");
}

#[test]
fn derived_port_count() {
    let mut bus = mk_bus(8);
    bus.preset(BASE + HOST_CAP, 0x0000_0005);
    let mut dev = ahci_device::new();
    dev.mmio_base = BASE;
    let r = ahci_host_init(&mut dev, &mut bus);
    assert_eq!(r, 0);
    assert_eq!(dev.n_ports, 6, "(0x5 & 0x1f) + 1 ports");
}

#[test]
fn host_init_fails_when_spin_up_never_asserts() {
    let mut bus = mk_bus(8);
    // port 0's spin-up request bit sticks at zero: the device ignores it
    bus.set_stuck_at_zero(BASE + 0x100 + 0x18, 0x2);
    let mut dev = ahci_device::new();
    dev.mmio_base = BASE;
    let r = ahci_host_init(&mut dev, &mut bus);
    assert_eq!(r, -1, "a spin-up request that never reads back is fatal");
}

#[test]
fn host_init_fails_without_acknowledgment() {
    let mut bus = mk_bus(0);
    let mut dev = ahci_device::new();
    dev.mmio_base = BASE;
    let r = ahci_host_init(&mut dev, &mut bus);
    assert_eq!(r, -1, "the reset request never clears");
}

#[test]
fn init_records_identity() {
    let mut bus = mk_linked_bus(100);
    let mut drive_id = blank_ident();
    drive_id[49] = 1 << 9;
    drive_id[60] = 0x5678;
    drive_id[61] = 0x0012;
    drive_id[75] = 3;
    for (i, w) in [(27usize, "SAMPLE-MODEL")] {
        let mut bytes: Vec<u8> = w.as_bytes().to_vec();
        while bytes.len() < 40 {
            bytes.push(b' ');
        }
        for k in 0..20 {
            drive_id[i + k] = ((bytes[2 * k] as u16) << 8) | (bytes[2 * k + 1] as u16);
        }
    }
    let drive = sata_drive::new(drive_id);
    let (dev, _mem) = init_ok(&mut bus, &drive);
    assert_eq!(dev.blk_dev.lba, 0x125678);
    assert_eq!(dev.blk_dev.blksz, 512);
    assert!(!dev.blk_dev.lba48);
    assert_eq!(&dev.blk_dev.product[0..12], b"SAMPLE-MODEL");
    assert_eq!(dev.blk_dev.product[12], 0);
    assert_eq!(dev.blk_dev.queue_depth, 4, "word 75 low bits hold depth minus one");
}

#[test]
fn lba28_request_decomposes_into_three_chunks() {
    let mut bus = mk_linked_bus(100);
    let drive = drive_lba28(false, false);
    let (mut dev, _mem) = init_ok(&mut bus, &drive);

    let fuel_before = bus.sc_fuel;
    let r = ahci_sata_read_common(&mut dev, &mut bus, 1000, 600, BUF);
    assert_eq!(r, 600);
    assert_eq!(fuel_before - bus.sc_fuel, 3, "256 + 256 + 88 sectors take three commands");

    // the last command addressed block 1512 for 88 sectors
    let f = dev.port[0].cmd_fis;
    assert_eq!(f.command, ATA_CMD_READ);
    assert_eq!(f.lba_low, (1512u32 & 0xff) as u8);
    assert_eq!(f.lba_mid, (1512u32 >> 8) as u8);
    assert_eq!(f.device, 0x40);
    assert_eq!(f.sector_count, 88);
    // its buffer advanced by 2 * 256 * 512 bytes
    assert_eq!(dev.port[0].sg_list[0].addr_lo, (BUF + 2 * 256 * 512) as u32);
    assert_eq!(dev.port[0].sg_list[0].flags_size, 88 * 512 - 1);
}

#[test]
fn lba28_aborts_after_failing_middle_chunk() {
    // three acknowledgments go to initialisation; one is left for the first
    // chunk, so the middle chunk fails
    let mut bus = mk_linked_bus(4);
    let drive = drive_lba28(false, false);
    let (mut dev, _mem) = init_ok(&mut bus, &drive);
    assert_eq!(bus.sc_fuel, 1);

    let r = ahci_sata_read_common(&mut dev, &mut bus, 1000, 600, BUF);
    assert_eq!(r, 0, "the whole call reports failure");
    assert_eq!(bus.sc_fuel, 0);

    // the second chunk (block 1256) was the last one issued: the third never was
    let f = dev.port[0].cmd_fis;
    assert_eq!(f.lba_low, (1256u32 & 0xff) as u8);
    assert_eq!(f.lba_mid, (1256u32 >> 8) as u8);
    assert_eq!(f.sector_count, 0, "256 sectors are encoded as 0");
}

#[test]
fn lba48_request_splits_at_65535() {
    let mut bus = mk_linked_bus(100);
    let drive = drive_lba48();
    let (mut dev, _mem) = init_ok(&mut bus, &drive);
    assert!(dev.blk_dev.lba48);

    let fuel_before = bus.sc_fuel;
    let r = ahci_sata_read_common(&mut dev, &mut bus, 1000, 70000, BUF);
    assert_eq!(r, 70000);
    assert_eq!(fuel_before - bus.sc_fuel, 2, "65535 + 4465 sectors take two commands");

    let f = dev.port[0].cmd_fis;
    assert_eq!(f.command, ATA_CMD_READ_EXT);
    let last_block: u64 = 1000 + 65535;
    assert_eq!(f.lba_low, (last_block & 0xff) as u8);
    assert_eq!(f.lba_mid, ((last_block >> 8) & 0xff) as u8);
    assert_eq!(f.lba_high, ((last_block >> 16) & 0xff) as u8);
    assert_eq!(f.sector_count, (4465u32 & 0xff) as u8);
    assert_eq!(f.sector_count_exp, (4465u32 >> 8) as u8);
}

#[test]
fn write_with_cache_and_flush_issues_one_flush() {
    let mut bus = mk_linked_bus(100);
    let drive = drive_lba28(true, true);
    let (mut dev, _mem) = init_ok(&mut bus, &drive);

    let fuel_before = bus.sc_fuel;
    let r = ahci_sata_write_common(&mut dev, &mut bus, 10, 4, BUF);
    assert_eq!(r, 4);
    assert_eq!(fuel_before - bus.sc_fuel, 2, "one write command, then exactly one flush");
    assert_eq!(dev.port[0].cmd_fis.command, ATA_CMD_FLUSH);
}

#[test]
fn write_without_flush_capability_issues_no_flush() {
    let mut bus = mk_linked_bus(100);
    let drive = drive_lba28(true, false);
    let (mut dev, _mem) = init_ok(&mut bus, &drive);

    let fuel_before = bus.sc_fuel;
    let r = ahci_sata_write_common(&mut dev, &mut bus, 10, 4, BUF);
    assert_eq!(r, 4);
    assert_eq!(fuel_before - bus.sc_fuel, 1, "the data command alone");
    assert_eq!(dev.port[0].cmd_fis.command, ATA_CMD_WRITE);
}

#[test]
fn init_fails_without_any_link() {
    let mut bus = mk_bus(100);
    let drive = drive_lba28(false, false);
    let mut dev = ahci_device::new();
    let mut mem = PlatMem::new(0x8000_0000);
    let r = ahci_init(&mut dev, &mut bus, &mut mem, &drive);
    assert_eq!(r, -1, "no port has a link");
}

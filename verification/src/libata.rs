use vstd::prelude::*;

verus! {

// ATA opcodes used by this driver
pub const ATA_CMD_FLUSH: u8 = 0xE7;
pub const ATA_CMD_FLUSH_EXT: u8 = 0xEA;
pub const ATA_CMD_ID_ATA: u8 = 0xEC;
pub const ATA_CMD_READ: u8 = 0xC8;
pub const ATA_CMD_READ_EXT: u8 = 0x25;
pub const ATA_CMD_WRITE: u8 = 0xCA;
pub const ATA_CMD_WRITE_EXT: u8 = 0x35;
pub const ATA_CMD_SET_FEATURES: u8 = 0xEF;

pub const SETFEATURES_XFER: u8 = 0x03;

// device / task-file register bits
pub const ATA_LBA: u8 = 0x40;
pub const ATA_BUSY: u8 = 0x80;
pub const ATA_DRQ: u8 = 0x08;
pub const ATA_ERR: u8 = 0x01;

// word offsets into the IDENTIFY DEVICE response
pub const ATA_ID_WORDS: u32 = 256;
pub const ATA_ID_SERNO: u32 = 10;
pub const ATA_ID_FW_REV: u32 = 23;
pub const ATA_ID_PROD: u32 = 27;
pub const ATA_ID_CAPABILITY: u32 = 49;
pub const ATA_ID_LBA_CAPACITY: u32 = 60;
pub const ATA_ID_PIO_MODES: u32 = 64;
pub const ATA_ID_QUEUE_DEPTH: u32 = 75;
pub const ATA_ID_COMMAND_SET_1: u32 = 82;
pub const ATA_ID_COMMAND_SET_2: u32 = 83;
pub const ATA_ID_CFS_ENABLE_1: u32 = 85;
pub const ATA_ID_CSF_DEFAULT: u32 = 87;
pub const ATA_ID_UDMA_MODES: u32 = 88;
pub const ATA_ID_LBA_CAPACITY_2: u32 = 100;

pub const ATA_ID_SERNO_LEN: u32 = 20;
pub const ATA_ID_FW_REV_LEN: u32 = 8;
pub const ATA_ID_PROD_LEN: u32 = 40;

pub const ATA_SECT_SIZE: u32 = 512;
pub const ATA_MAX_SECTORS: u32 = 256;
pub const ATA_MAX_SECTORS_LBA48: u32 = 65535;

pub const SATA_FIS_TYPE_REGISTER_H2D: u8 = 39;

/// The 20-byte host-to-device Register FIS carrying one ATA command.
#[allow(non_camel_case_types)]
#[derive(Clone, Copy, PartialEq, Eq, Debug)]
pub struct sata_fis_h2d {
    pub fis_type: u8,
    pub pm_port_c: u8,
    pub command: u8,
    pub features: u8,
    pub lba_low: u8,
    pub lba_mid: u8,
    pub lba_high: u8,
    pub device: u8,
    pub lba_low_exp: u8,
    pub lba_mid_exp: u8,
    pub lba_high_exp: u8,
    pub features_exp: u8,
    pub sector_count: u8,
    pub sector_count_exp: u8,
    pub res1: u8,
    pub control: u8,
    pub res2: [u8; 4],
}

/// The FIS occupies 20 bytes in the command table.
pub const SATA_FIS_H2D_BYTES: u32 = 20;

pub open spec fn spec_id_has_lba(id: Seq<u16>) -> bool {
    id[ATA_ID_CAPABILITY as int] & (1u16 << 9) != 0
}

pub fn ata_id_has_lba(id: &[u16]) -> (r: bool)
    requires
        id@.len() >= 256,
    ensures
        r == spec_id_has_lba(id@),
{
    (id[ATA_ID_CAPABILITY as usize] & (1u16 << 9)) != 0
}

/// The queue depth the device reports: the low five bits of the
/// queue-depth word hold the depth minus one.
pub open spec fn spec_id_queue_depth(id: Seq<u16>) -> u32 {
    ((id[ATA_ID_QUEUE_DEPTH as int] & 0x1f) + 1) as u32
}

pub fn ata_id_queue_depth(id: &[u16]) -> (r: u32)
    requires
        id@.len() >= 256,
    ensures
        r == spec_id_queue_depth(id@),
{
    (id[ATA_ID_QUEUE_DEPTH as usize] & 0x1f) as u32 + 1
}

pub open spec fn spec_id_u32(id: Seq<u16>, n: u32) -> u32 {
    (id[n + 1] as u32) << 16 | (id[n as int] as u32)
}

pub fn ata_id_u32(id: &[u16], n: u32) -> (r: u32)
    requires
        n + 1 < id@.len(),
        n + 1 <= u32::MAX,
    ensures
        r == spec_id_u32(id@, n),
{
    (id[(n + 1) as usize] as u32) << 16 | (id[n as usize] as u32)
}

pub open spec fn spec_id_u64(id: Seq<u16>, n: u32) -> u64 {
    (id[n + 3] as u64) << 48 | (id[n + 2] as u64) << 32 | (id[n + 1] as u64) << 16 | (id[n as int]
        as u64)
}

pub fn ata_id_u64(id: &[u16], n: u32) -> (r: u64)
    requires
        n + 3 < id@.len(),
        n + 3 <= u32::MAX,
    ensures
        r == spec_id_u64(id@, n),
{
    let mut val: u64 = 0;
    val |= (id[(n + 3) as usize] as u64) << 48;
    val |= (id[(n + 2) as usize] as u64) << 32;
    val |= (id[(n + 1) as usize] as u64) << 16;
    val |= id[n as usize] as u64;
    proof {
        assert(forall|x: u64| #[trigger] (0u64 | x) == x) by (bit_vector);
    }
    val
}

/// The owning word reports valid data: its top two bits read `0b01`.
pub open spec fn spec_id_word_valid(w: u16) -> bool {
    w & 0xc000 == 0x4000
}

pub open spec fn spec_id_has_flush(id: Seq<u16>) -> bool {
    &&& spec_id_word_valid(id[ATA_ID_COMMAND_SET_2 as int])
    &&& id[ATA_ID_COMMAND_SET_2 as int] & (1u16 << 12) != 0
}

pub fn ata_id_has_flush(id: &[u16]) -> (r: bool)
    requires
        id@.len() >= 256,
    ensures
        r == spec_id_has_flush(id@),
{
    if (id[ATA_ID_COMMAND_SET_2 as usize] & 0xc000) != 0x4000 {
        return false;
    }
    (id[ATA_ID_COMMAND_SET_2 as usize] & (1u16 << 12)) != 0
}

pub open spec fn spec_id_has_flush_ext(id: Seq<u16>) -> bool {
    &&& spec_id_word_valid(id[ATA_ID_COMMAND_SET_2 as int])
    &&& id[ATA_ID_COMMAND_SET_2 as int] & (1u16 << 13) != 0
}

pub fn ata_id_has_flush_ext(id: &[u16]) -> (r: bool)
    requires
        id@.len() >= 256,
    ensures
        r == spec_id_has_flush_ext(id@),
{
    if (id[ATA_ID_COMMAND_SET_2 as usize] & 0xc000) != 0x4000 {
        return false;
    }
    (id[ATA_ID_COMMAND_SET_2 as usize] & (1u16 << 13)) != 0
}

/// LBA48 is reported only when the governing command-set word is valid, its
/// bit 10 is set, and the 48-bit sector count is non-zero.
pub open spec fn spec_id_has_lba48(id: Seq<u16>) -> bool {
    &&& spec_id_word_valid(id[ATA_ID_COMMAND_SET_2 as int])
    &&& spec_id_u64(id, ATA_ID_LBA_CAPACITY_2) != 0
    &&& id[ATA_ID_COMMAND_SET_2 as int] & (1u16 << 10) != 0
}

pub fn ata_id_has_lba48(id: &[u16]) -> (r: bool)
    requires
        id@.len() >= 256,
    ensures
        r == spec_id_has_lba48(id@),
{
    if (id[ATA_ID_COMMAND_SET_2 as usize] & 0xc000) != 0x4000 {
        return false;
    }
    if ata_id_u64(id, ATA_ID_LBA_CAPACITY_2) == 0 {
        return false;
    }
    (id[ATA_ID_COMMAND_SET_2 as usize] & (1u16 << 10)) != 0
}

pub open spec fn spec_id_has_wcache(id: Seq<u16>) -> bool {
    &&& spec_id_word_valid(id[ATA_ID_COMMAND_SET_2 as int])
    &&& id[ATA_ID_COMMAND_SET_1 as int] & (1u16 << 5) != 0
}

pub fn ata_id_has_wcache(id: &[u16]) -> (r: bool)
    requires
        id@.len() >= 256,
    ensures
        r == spec_id_has_wcache(id@),
{
    if (id[ATA_ID_COMMAND_SET_2 as usize] & 0xc000) != 0x4000 {
        return false;
    }
    (id[ATA_ID_COMMAND_SET_1 as usize] & (1u16 << 5)) != 0
}

pub open spec fn spec_id_wcache_enabled(id: Seq<u16>) -> bool {
    &&& spec_id_word_valid(id[ATA_ID_CSF_DEFAULT as int])
    &&& id[ATA_ID_CFS_ENABLE_1 as int] & (1u16 << 5) != 0
}

pub fn ata_id_wcache_enabled(id: &[u16]) -> (r: bool)
    requires
        id@.len() >= 256,
    ensures
        r == spec_id_wcache_enabled(id@),
{
    if (id[ATA_ID_CSF_DEFAULT as usize] & 0xc000) != 0x4000 {
        return false;
    }
    (id[ATA_ID_CFS_ENABLE_1 as usize] & (1u16 << 5)) != 0
}

pub open spec fn spec_id_n_sectors(id: Seq<u16>) -> u64 {
    if spec_id_has_lba(id) {
        if spec_id_has_lba48(id) {
            spec_id_u64(id, ATA_ID_LBA_CAPACITY_2)
        } else {
            spec_id_u32(id, ATA_ID_LBA_CAPACITY) as u64
        }
    } else {
        0
    }
}

pub fn ata_id_n_sectors(id: &[u16]) -> (r: u64)
    requires
        id@.len() >= 256,
    ensures
        r == spec_id_n_sectors(id@),
{
    if ata_id_has_lba(id) {
        if ata_id_has_lba48(id) {
            ata_id_u64(id, ATA_ID_LBA_CAPACITY_2)
        } else {
            ata_id_u32(id, ATA_ID_LBA_CAPACITY) as u64
        }
    } else {
        0
    }
}

/// Byte `k` of the identity string starting at word `ofs`: strings are stored
/// as big-endian word pairs.
pub open spec fn spec_id_byte(id: Seq<u16>, ofs: int, k: int) -> u8 {
    if k % 2 == 0 {
        (id[ofs + k / 2] >> 8) as u8
    } else {
        (id[ofs + k / 2] & 0xff) as u8
    }
}

/// The length of the string after trailing spaces are removed: the largest
/// `m <= n` such that bytes `m..n` are all spaces and byte `m - 1` is not.
pub open spec fn spec_trim_len(id: Seq<u16>, ofs: int, n: int) -> int
    decreases n,
{
    if n <= 0 {
        0
    } else if spec_id_byte(id, ofs, n - 1) != 32 {
        n
    } else {
        spec_trim_len(id, ofs, n - 1)
    }
}

/// Decode the identity string at word offset `ofs` into `s`: big-endian word
/// pairs, with trailing spaces trimmed by a NUL written at the new length.
pub fn ata_id_c_string(id: &[u16], s: &mut Vec<u8>, ofs: usize)
    requires
        old(s)@.len() >= 1,
        old(s)@.len() % 2 == 1,
        ofs + (old(s)@.len() - 1) / 2 <= id@.len(),
    ensures
        final(s)@.len() == old(s)@.len(),
        ({
            let len = old(s)@.len() - 1;
            let nl = spec_trim_len(id@, ofs as int, len);
            &&& 0 <= nl <= len
            &&& forall|k: int|
                0 <= k < len && k != nl ==> final(s)@[k] == spec_id_byte(id@, ofs as int, k)
            &&& final(s)@[nl] == 0
            &&& nl < len ==> final(s)@[len] == old(s)@[len]
        }),
{
    let id_len: usize = id.len();
    let len: usize = s.len() - 1;
    let len_id: usize = (len + 1) / 2;

    let mut i: usize = 0;
    while i < len_id
        invariant
            len == s@.len() - 1,
            len % 2 == 0,
            len_id == len / 2,
            ofs + len_id <= id@.len(),
            id@.len() == id_len,
            i <= len_id,
            forall|k: int| 0 <= k < 2 * i ==> s@[k] == spec_id_byte(id@, ofs as int, k),
            forall|k: int| 2 * i <= k < s@.len() ==> s@[k] == old(s)@[k],
        decreases len_id - i,
    {
        let word: u16 = id[ofs + i];
        s.set(2 * i, (word >> 8) as u8);
        s.set(2 * i + 1, (word & 0xff) as u8);
        i = i + 1;
    }

    // trim trailing spaces: find the length of the trimmed string
    let mut nl: usize = len;
    while nl > 0 && s[nl - 1] == 32
        invariant
            len == s@.len() - 1,
            nl <= len,
            forall|k: int| 0 <= k < len ==> s@[k] == spec_id_byte(id@, ofs as int, k),
            forall|k: int| len <= k < s@.len() ==> s@[k] == old(s)@[k],
            spec_trim_len(id@, ofs as int, nl as int) == spec_trim_len(id@, ofs as int, len as int),
        decreases nl,
    {
        nl = nl - 1;
    }

    s.set(nl, 0);
}

} // verus!

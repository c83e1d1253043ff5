use vstd::prelude::*;

use crate::libahci::ahci_blk_dev;
use crate::libahci::ata_cmd;
use crate::libahci::ahci_cmd_hdr;
use crate::libahci::ahci_device;
use crate::libahci::ahci_ioport;
use crate::libahci::ahci_sg;
use crate::libahci::AHCI_CMD_TIMEOUT_MS;
use crate::libahci::AHCI_MAX_BYTES_PER_SG;
use crate::libahci::AHCI_MAX_BYTES_PER_TRANS;
use crate::libahci::AHCI_MAX_CMDS;
use crate::libahci::AHCI_MAX_SG;
use crate::libahci::PORT_CMD;
use crate::libahci::PORT_CMD_FIS_ON;
use crate::libahci::PORT_CMD_FIS_RX;
use crate::libahci::PORT_CMD_ICC_ACTIVE;
use crate::libahci::PORT_CMD_ISSUE;
use crate::libahci::PORT_CMD_LIST_ON;
use crate::libahci::PORT_CMD_POWER_ON;
use crate::libahci::PORT_CMD_SPIN_UP;
use crate::libahci::PORT_CMD_START;
use crate::libahci::PORT_FIS_ADDR;
use crate::libahci::PORT_FIS_ADDR_HI;
use crate::libahci::PORT_IRQ_MASK;
use crate::libahci::PORT_IRQ_STAT;
use crate::libahci::PORT_LST_ADDR;
use crate::libahci::PORT_LST_ADDR_HI;
use crate::libahci::PORT_SCR_ERR;
use crate::libahci::PORT_SCR_STAT;
use crate::libahci::PORT_TFDATA;
use crate::libahci::AHCI_CMD_SLOT_SZ;
use crate::libahci::DEF_PORT_IRQ;
use crate::libahci::HOST_AHCI_EN;
use crate::libahci::HOST_CAP;
use crate::libahci::HOST_CAP2;
use crate::libahci::HOST_CAP_MPS;
use crate::libahci::HOST_CAP_SSS;
use crate::libahci::HOST_CTL;
use crate::libahci::HOST_IRQ_EN;
use crate::libahci::HOST_IRQ_STAT;
use crate::libahci::HOST_PORTS_IMPL;
use crate::libahci::HOST_RESET;
use crate::libahci::HOST_VERSION;
use crate::libahci::AHCI_CMD_TBL_HDR_SZ;
use crate::libahci::AHCI_PORT_PRIV_DMA_SZ;
use crate::libahci::AHCI_RX_FIS_SZ;
use crate::libahci::spec_fis_zero;
use crate::libata::ATA_BUSY;
use crate::libata::ATA_DRQ;
use crate::libata::ATA_ERR;
use crate::platform::spec_align_up;
use crate::libahci::sata_drive;
use crate::libahci::READ_CMD;
use crate::libahci::WRITE_CMD;
use crate::libahci::SATA_FLAG_FLUSH;
use crate::libahci::SATA_FLAG_FLUSH_EXT;
use crate::libahci::SATA_FLAG_WCACHE;
use crate::libata::ata_id_c_string;
use crate::libata::ata_id_has_flush;
use crate::libata::ata_id_has_flush_ext;
use crate::libata::ata_id_has_lba48;
use crate::libata::ata_id_has_wcache;
use crate::libata::ata_id_n_sectors;
use crate::libata::ata_id_queue_depth;
use crate::libata::ata_id_wcache_enabled;
use crate::libata::spec_id_byte;
use crate::libata::spec_id_has_flush;
use crate::libata::spec_id_has_flush_ext;
use crate::libata::spec_id_has_lba48;
use crate::libata::spec_id_has_wcache;
use crate::libata::spec_id_n_sectors;
use crate::libata::spec_id_queue_depth;
use crate::libata::spec_id_wcache_enabled;
use crate::libata::spec_trim_len;
use crate::libata::ATA_ID_FW_REV;
use crate::libata::ATA_ID_FW_REV_LEN;
use crate::libata::ATA_ID_PROD_LEN;
use crate::libata::ATA_ID_SERNO_LEN;
use crate::libata::ATA_ID_PIO_MODES;
use crate::libata::ATA_ID_PROD;
use crate::libata::ATA_ID_SERNO;
use crate::libata::ATA_ID_UDMA_MODES;
use crate::libata::SETFEATURES_XFER;
use crate::platform::ahci_malloc_align;
use crate::platform::ahci_phys_to_uncached;
use crate::platform::PlatMem;
use crate::libata::sata_fis_h2d;
use crate::libata::ATA_CMD_FLUSH;
use crate::libata::ATA_CMD_FLUSH_EXT;
use crate::libata::ATA_CMD_ID_ATA;
use crate::libata::ATA_CMD_READ;
use crate::libata::ATA_CMD_READ_EXT;
use crate::libata::ATA_CMD_SET_FEATURES;
use crate::libata::ATA_CMD_WRITE;
use crate::libata::ATA_CMD_WRITE_EXT;
use crate::libata::ATA_ID_WORDS;
use crate::libata::ATA_LBA;
use crate::libata::ATA_MAX_SECTORS;
use crate::libata::ATA_MAX_SECTORS_LBA48;
use crate::libata::ATA_SECT_SIZE;
use crate::libata::SATA_FIS_H2D_BYTES;
use crate::libata::SATA_FIS_TYPE_REGISTER_H2D;
use crate::mmio::MmioBus;
use crate::platform::ahci_mdelay;
use crate::platform::ahci_sync_dcache;
use crate::platform::ahci_virt_to_phys;

verus! {

use vstd::arithmetic::div_mod::lemma_add_mod_noop;
use vstd::arithmetic::div_mod::lemma_fundamental_div_mod;
use vstd::arithmetic::div_mod::lemma_mod_multiples_vanish;
use vstd::arithmetic::mul::lemma_mul_inequality;
use vstd::arithmetic::div_mod::lemma_div_is_ordered;

/// `size` bytes of word-aligned registers starting at `base` lie inside the
/// bus window.
pub open spec fn win_range(bus: MmioBus, base: u64, size: u64) -> bool {
    &&& bus.lo <= base
    &&& base + size <= bus.lo + 4 * bus.words@.len()
    &&& base + size <= u64::MAX
    &&& (base - bus.lo) % 4 == 0
}

pub proof fn lemma_in_win(bus: MmioBus, base: u64, size: u64, off: u64)
    requires
        win_range(bus, base, size),
        off % 4 == 0,
        off + 4 <= size,
    ensures
        bus.in_window((base + off) as u64),
{
    lemma_add_mod_noop((base - bus.lo) as int, off as int, 4);
}

/// The register window of port `port`, below a host window at `base`, is a
/// well-formed window of its own.
pub proof fn lemma_port_win(bus: MmioBus, base: u64, port: u8)
    requires
        win_range(bus, base, 0x1100),
        port < 32,
    ensures
        win_range(bus, (base + 0x100 + (port as u64) * 0x80) as u64, 0x40),
{
    let x = (base - bus.lo) as int;
    let k = 0x40 + 0x20 * (port as int);
    lemma_mod_multiples_vanish(k, x, 4);
    assert(4 * k + x == (base + 0x100 + (port as u64) * 0x80) - bus.lo);
}

/// Read one 32-bit controller register.
pub fn ahci_readl(bus: &MmioBus, addr: u64) -> (r: u32)
    requires
        bus.in_window(addr),
    ensures
        r == bus.reg(addr),
{
    bus.read32(addr)
}

/// Write one 32-bit controller register.
pub fn ahci_writel(bus: &mut MmioBus, data: u32, addr: u64)
    requires
        old(bus).in_window(addr),
    ensures
        final(bus).same_rules(*old(bus)),
        final(bus).reg(addr) == old(bus).stored_of(data, addr),
        forall|a: u64| old(bus).in_window(a) && a != addr ==> final(bus).reg(a) == old(bus).reg(a),
        final(bus).sc_fuel == old(bus).fuel_of(data, addr),
{
    bus.write32(data, addr)
}

/// One-based position of the lowest set bit of `val` at or above position
/// `i`; 0 if there is none.
pub open spec fn spec_ffs32_from(val: u32, i: u32) -> u32
    decreases 32 - i,
{
    if i >= 32 {
        0
    } else if (val >> i) & 1 == 1 {
        (i + 1) as u32
    } else {
        spec_ffs32_from(val, (i + 1) as u32)
    }
}

/// One-based position of the lowest set bit of `val`; 0 for `val == 0`.
pub open spec fn spec_ffs32(val: u32) -> u32 {
    spec_ffs32_from(val, 0)
}

proof fn lemma_ffs32_from_le(val: u32, i: u32)
    ensures
        spec_ffs32_from(val, i) <= 32,
    decreases 32 - i,
{
    if i < 32 && (val >> i) & 1 != 1 {
        lemma_ffs32_from_le(val, (i + 1) as u32);
    }
}

/// Find-first-set: the one-based position of the lowest set bit, 0 for 0.
pub fn ahci_ffs32(val: u32) -> (r: u32)
    ensures
        r == spec_ffs32(val) || (val == 0 && r == 0),
        r <= 32,
{
    let mut bit: u32 = 1;
    let mut i: u32 = val;

    if i == 0 {
        return 0;
    }

    proof {
        assert(val >> 0u32 == val) by (bit_vector);
    }

    while i & 1 == 0
        invariant
            1 <= bit <= 32,
            i == val >> ((bit - 1) as u32),
            i != 0,
            spec_ffs32(val) == spec_ffs32_from(val, (bit - 1) as u32),
        decreases 32 - bit,
    {
        proof {
            let b = (bit - 1) as u32;
            assert(b <= 31 && (val >> b) != 0 && (val >> b) & 1 == 0 ==> b < 31 && (val >> b) >> 1
                == val >> ((b + 1) as u32) && (val >> b) >> 1 != 0) by (bit_vector);
            assert(spec_ffs32_from(val, b) == spec_ffs32_from(val, (b + 1) as u32));
        }
        i >>= 1;
        bit += 1;
    }

    proof {
        let b = (bit - 1) as u32;
        assert((val >> b) & 1 != 0 ==> (val >> b) & 1 == 1) by (bit_vector);
        assert(spec_ffs32_from(val, b) == b + 1);
    }

    bit
}

/// Base address of the register window of port `port`: fixed stride of 0x80
/// bytes from the end of the host registers.
pub fn ahci_port_base(base: u64, port: u8) -> (r: u64)
    requires
        base + 0x100 + (port as int) * 0x80 <= u64::MAX,
    ensures
        r == base + 0x100 + (port as int) * 0x80,
{
    base + 0x100 + (port as u64) * 0x80
}

/// The slot the engine uses for the given command-issue register value: the
/// lowest set bit's one-based position, or slot 0 when no command is
/// outstanding.  This is not a free-slot allocator; the driver keeps at most
/// one command outstanding at a time.
pub open spec fn spec_cmd_slot(value: u32) -> u32 {
    if value != 0 {
        spec_ffs32(value)
    } else {
        0
    }
}

pub fn ahci_get_cmd_slot(value: u32) -> (r: u32)
    ensures
        r == spec_cmd_slot(value),
        r <= 32,
{
    let slot: u32 = if value != 0 {
        ahci_ffs32(value)
    } else {
        0
    };
    slot
}

/// Fields of the port state that the scatter-gather fill leaves unchanged.
pub open spec fn ioport_same_but_sg(pre: ahci_ioport, post: ahci_ioport) -> bool {
    &&& post.port_mmio == pre.port_mmio
    &&& post.cmd_slot_dma == pre.cmd_slot_dma
    &&& post.rx_fis == pre.rx_fis
    &&& post.rx_fis_dma == pre.rx_fis_dma
    &&& post.cmd_tbl == pre.cmd_tbl
    &&& post.cmd_tbl_dma == pre.cmd_tbl_dma
    &&& post.cmd_slots@ == pre.cmd_slots@
    &&& post.cmd_fis == pre.cmd_fis
}

/// How many scatter-gather entries a transfer of `buf_len` bytes needs:
/// the ceiling of `buf_len` over the per-entry maximum.
pub open spec fn spec_sg_count(buf_len: u32) -> int {
    (buf_len - 1) / (AHCI_MAX_BYTES_PER_SG as int) + 1
}

/// Bytes carried by entry `i`: the per-entry maximum for every entry but the
/// last, the remainder for the last.
pub open spec fn spec_sg_chunk(buf_len: u32, i: int) -> int {
    if buf_len - i * (AHCI_MAX_BYTES_PER_SG as int) < AHCI_MAX_BYTES_PER_SG as int {
        buf_len - i * (AHCI_MAX_BYTES_PER_SG as int)
    } else {
        AHCI_MAX_BYTES_PER_SG as int
    }
}

/// Entry `i` of the scatter-gather list for a transfer of `buf_len` bytes at
/// `buf`: the chunk's DMA address split in two halves and the chunk size
/// minus one in the low 22 bits.
pub open spec fn spec_sg_entry(old_e: ahci_sg, buf: u64, buf_len: u32, i: int) -> ahci_sg {
    let dma = (buf + i * (AHCI_MAX_BYTES_PER_SG as int)) as u64;
    let size = (spec_sg_chunk(buf_len, i) - 1) as u32;
    ahci_sg {
        addr_lo: (dma & 0xffffffff) as u32,
        addr_hi: (dma >> 32) as u32,
        reserved: old_e.reserved,
        flags_size: 0x3fffff & size,
    }
}

/// Fill the port's scatter-gather list for a transfer of `buf_len` bytes at
/// `buf` and return the number of entries used, or 0 — with the list
/// untouched — when more than the maximum number of entries would be needed.
#[verifier::loop_isolation(false)]
pub fn ahci_fill_sg(pp: &mut ahci_ioport, buf: u64, buf_len: u32) -> (r: u32)
    requires
        old(pp).is_started(),
        buf_len >= 1,
        buf + buf_len <= u64::MAX,
    ensures
        ioport_same_but_sg(*old(pp), *final(pp)),
        final(pp).sg_list@.len() == old(pp).sg_list@.len(),
        spec_sg_count(buf_len) > AHCI_MAX_SG ==> r == 0 && final(pp).sg_list@ == old(pp).sg_list@,
        spec_sg_count(buf_len) <= AHCI_MAX_SG ==> {
            &&& r == spec_sg_count(buf_len)
            &&& forall|k: int|
                0 <= k < r ==> final(pp).sg_list@[k] == spec_sg_entry(
                    old(pp).sg_list@[k],
                    buf,
                    buf_len,
                    k,
                )
            &&& forall|k: int|
                r <= k < old(pp).sg_list@.len() ==> final(pp).sg_list@[k] == old(pp).sg_list@[k]
        },
{
    let max_bytes: u32 = AHCI_MAX_BYTES_PER_SG;
    let sg_count: u32 = ((buf_len - 1) / max_bytes) + 1;

    if sg_count > AHCI_MAX_SG {
        return 0;
    }

    let mut i: u32 = 0;
    let mut remaining: u32 = buf_len;
    proof {
        lemma_fundamental_div_mod((buf_len - 1) as int, AHCI_MAX_BYTES_PER_SG as int);
    }
    while i < sg_count
        invariant
            pp.is_started(),
            ioport_same_but_sg(*old(pp), *pp),
            pp.sg_list@.len() == old(pp).sg_list@.len(),
            i <= sg_count,
            sg_count == spec_sg_count(buf_len),
            sg_count <= AHCI_MAX_SG,
            buf_len >= 1,
            buf + buf_len <= u64::MAX,
            i < sg_count ==> remaining == buf_len - i * (AHCI_MAX_BYTES_PER_SG as int),
            i == sg_count ==> remaining == 0,
            forall|k: int|
                0 <= k < i ==> pp.sg_list@[k] == spec_sg_entry(
                    old(pp).sg_list@[k],
                    buf,
                    buf_len,
                    k,
                ),
            forall|k: int| i <= k < old(pp).sg_list@.len() ==> pp.sg_list@[k] == old(pp).sg_list@[k],
        decreases sg_count - i,
    {
        proof {
            assert(AHCI_MAX_BYTES_PER_SG == 0x400000);
            lemma_fundamental_div_mod((buf_len - 1) as int, AHCI_MAX_BYTES_PER_SG as int);
            lemma_mul_inequality(
                i as int,
                (buf_len - 1) as int / (AHCI_MAX_BYTES_PER_SG as int),
                AHCI_MAX_BYTES_PER_SG as int,
            );
            assert(i * (AHCI_MAX_BYTES_PER_SG as int) <= buf_len - 1);
            if i + 1 < sg_count {
                lemma_mul_inequality(
                    i + 1 as int,
                    (buf_len - 1) as int / (AHCI_MAX_BYTES_PER_SG as int),
                    AHCI_MAX_BYTES_PER_SG as int,
                );
            }
        }
        let chunk: u32 = if remaining < max_bytes {
            remaining
        } else {
            max_bytes
        };
        let size: u32 = chunk - 1;
        let offset: u64 = (i as u64) * (max_bytes as u64);
        let buf_dma: u64 = ahci_virt_to_phys(buf + offset);

        let mut e: ahci_sg = pp.sg_list[i as usize];
        e.addr_lo = #[verifier::truncate] ((buf_dma & 0xffffffff) as u32);
        e.addr_hi = #[verifier::truncate] ((buf_dma >> 32) as u32);
        e.flags_size = 0x3fffff & size;
        pp.sg_list.set(i as usize, e);

        remaining = remaining - chunk;
        i = i + 1;
    }

    sg_count
}

/// The address fields of the port state (register window and DMA addresses).
pub open spec fn ioport_same_addrs(pre: ahci_ioport, post: ahci_ioport) -> bool {
    &&& post.port_mmio == pre.port_mmio
    &&& post.cmd_slot_dma == pre.cmd_slot_dma
    &&& post.rx_fis == pre.rx_fis
    &&& post.rx_fis_dma == pre.rx_fis_dma
    &&& post.cmd_tbl == pre.cmd_tbl
    &&& post.cmd_tbl_dma == pre.cmd_tbl_dma
}

/// The attached-drive records agree.
pub open spec fn blk_dev_eq(a: ahci_blk_dev, b: ahci_blk_dev) -> bool {
    &&& a.lba48 == b.lba48
    &&& a.lba == b.lba
    &&& a.blksz == b.blksz
    &&& a.queue_depth == b.queue_depth
    &&& a.product@ == b.product@
    &&& a.serial@ == b.serial@
    &&& a.revision@ == b.revision@
}

/// Everything of the device state except the per-port tables and the trace
/// of issued commands.
pub open spec fn dev_same_but_cmd(pre: ahci_device, post: ahci_device) -> bool {
    &&& post.mmio_base == pre.mmio_base
    &&& post.flags == pre.flags
    &&& post.cap == pre.cap
    &&& post.cap2 == pre.cap2
    &&& post.version == pre.version
    &&& post.port_map == pre.port_map
    &&& post.pio_mask == pre.pio_mask
    &&& post.udma_mask == pre.udma_mask
    &&& post.n_ports == pre.n_ports
    &&& post.port_map_linkup == pre.port_map_linkup
    &&& post.port_idx == pre.port_idx
    &&& blk_dev_eq(pre.blk_dev, post.blk_dev)
    &&& post.port@.len() == pre.port@.len()
}

/// Register contents and the acknowledgment budget agree.
pub open spec fn bus_eq(a: MmioBus, b: MmioBus) -> bool {
    &&& a.same_rules(b)
    &&& a.words@ == b.words@
    &&& a.sc_fuel == b.sc_fuel
}

/// The command header written for a slot: options word, cleared status, and
/// the command table's DMA address in two halves.
pub open spec fn spec_cmd_hdr(old_h: ahci_cmd_hdr, tbl_dma: u64, opts: u32) -> ahci_cmd_hdr {
    ahci_cmd_hdr {
        opts,
        status: 0,
        tbl_addr_lo: (tbl_dma & 0xffffffff) as u32,
        tbl_addr_hi: (tbl_dma >> 32) as u32,
        reserved: old_h.reserved,
    }
}

/// The options word of a command header: FIS length in 32-bit words, the
/// scatter-gather entry count, and the write-direction bit.
pub open spec fn spec_opts(sg_count: u32, is_write: u32) -> u32 {
    (SATA_FIS_H2D_BYTES >> 2) | (sg_count << 16) | (is_write << 6)
}

/// Write the command header of `cmd_slot`.
pub fn ahci_fill_cmd_slot(pp: &mut ahci_ioport, cmd_slot: u32, opts: u32)
    requires
        old(pp).is_started(),
        cmd_slot < AHCI_MAX_CMDS,
    ensures
        ioport_same_addrs(*old(pp), *final(pp)),
        final(pp).cmd_fis == old(pp).cmd_fis,
        final(pp).sg_list@ == old(pp).sg_list@,
        final(pp).cmd_slots@ == old(pp).cmd_slots@.update(
            cmd_slot as int,
            spec_cmd_hdr(old(pp).cmd_slots@[cmd_slot as int], old(pp).cmd_tbl_dma, opts),
        ),
{
    let mut hdr: ahci_cmd_hdr = pp.cmd_slots[cmd_slot as usize];
    hdr.opts = opts;
    hdr.status = 0;
    hdr.tbl_addr_lo = #[verifier::truncate] ((pp.cmd_tbl_dma & 0xffffffff) as u32);
    hdr.tbl_addr_hi = #[verifier::truncate] ((pp.cmd_tbl_dma >> 32) as u32);
    pp.cmd_slots.set(cmd_slot as usize, hdr);
}

/// Whether the issue-register write for the slot chosen from the current
/// register value comes back with the slot's bit cleared: the device has
/// accepted and completed the command.
pub open spec fn spec_issue_ok(bus: MmioBus, pm: u64) -> bool {
    let issue0 = bus.reg((pm + PORT_CMD_ISSUE) as u64);
    let slot = spec_cmd_slot(issue0);
    if slot >= 32 {
        false
    } else {
        bus.stored_of(1u32 << slot, (pm + PORT_CMD_ISSUE) as u64) & (1u32 << slot) == 0
    }
}

/// The hardware model of a working port: its command-issue register is
/// writable and the device clears any issue bit it acknowledges.
pub open spec fn port_cmd_model(bus: MmioBus, pm: u64) -> bool {
    &&& !bus.is_ro((pm + PORT_CMD_ISSUE) as u64)
    &&& bus.sc_mask_of((pm + PORT_CMD_ISSUE) as u64) == 0xffffffffu32
    &&& bus.stuck_mask_of((pm + PORT_CMD_ISSUE) as u64) == 0
}

/// Execute one ATA command on `port`: pick the slot from the command-issue
/// register, fill the command table and header, signal the slot and poll for
/// completion.  Returns the transfer length, or 0 when the transfer is
/// oversized, no slot is free, the scatter-gather list cannot hold it, or the
/// device does not complete the command within the poll bound.  In the
/// rejection cases no register is written and no command reaches the device.
#[verifier::loop_isolation(false)]
pub fn ahci_exec_ata_cmd(
    dev: &mut ahci_device,
    bus: &mut MmioBus,
    port: u8,
    cfis: &sata_fis_h2d,
    buf: u64,
    buf_len: u32,
    is_write: u32,
) -> (r: u32)
    requires
        old(dev).ports_wf(),
        port < 32,
        old(dev).port@[port as int].is_started(),
        win_range(*old(bus), old(dev).port@[port as int].port_mmio, 0x40),
        is_write <= 1,
        buf + buf_len <= u64::MAX,
    ensures
        final(bus).same_rules(*old(bus)),
        dev_same_but_cmd(*old(dev), *final(dev)),
        ({
            let pm = old(dev).port@[port as int].port_mmio;
            let issue_addr = (pm + PORT_CMD_ISSUE) as u64;
            let issue0 = old(bus).reg(issue_addr);
            let slot = spec_cmd_slot(issue0);
            if slot == 32 || buf_len > AHCI_MAX_BYTES_PER_TRANS {
                &&& r == 0
                &&& bus_eq(*old(bus), *final(bus))
                &&& final(dev).port@ == old(dev).port@
                &&& final(dev).issued@ == old(dev).issued@
            } else {
                let pp0 = old(dev).port@[port as int];
                let pp1 = final(dev).port@[port as int];
                let with_data = buf != 0 && buf_len != 0;
                let sg = if with_data { spec_sg_count(buf_len) as u32 } else { 0u32 };
                let opts = spec_opts(sg, is_write);
                &&& ioport_same_addrs(pp0, pp1)
                &&& pp1.cmd_fis == *cfis
                &&& pp1.is_started()
                &&& pp1.cmd_slots@ == pp0.cmd_slots@.update(
                    slot as int,
                    spec_cmd_hdr(pp0.cmd_slots@[slot as int], pp0.cmd_tbl_dma, opts),
                )
                &&& (with_data ==> forall|k: int|
                    0 <= k < sg ==> pp1.sg_list@[k] == spec_sg_entry(pp0.sg_list@[k], buf, buf_len, k))
                &&& (with_data ==> forall|k: int|
                    sg <= k < pp0.sg_list@.len() ==> pp1.sg_list@[k] == pp0.sg_list@[k])
                &&& (!with_data ==> pp1.sg_list@ == pp0.sg_list@)
                &&& forall|j: int|
                    0 <= j < old(dev).port@.len() && j != port ==> final(dev).port@[j]
                        == old(dev).port@[j]
                &&& final(dev).issued@ == old(dev).issued@.push(
                    ata_cmd { fis: *cfis, buf: buf, buf_len: buf_len },
                )
                &&& final(bus).reg(issue_addr) == old(bus).stored_of(1u32 << slot, issue_addr)
                &&& forall|a: u64|
                    old(bus).in_window(a) && a != issue_addr ==> final(bus).reg(a) == old(
                        bus,
                    ).reg(a)
                &&& final(bus).sc_fuel == old(bus).fuel_of(1u32 << slot, issue_addr)
                &&& r == (if spec_issue_ok(*old(bus), pm) {
                    buf_len
                } else {
                    0u32
                })
            }
        }),
{
    let pm: u64 = dev.port[port as usize].port_mmio;
    proof {
        lemma_in_win(*bus, pm, 0x40, PORT_CMD_ISSUE);
    }
    let issue_addr: u64 = pm + PORT_CMD_ISSUE;

    let cmd_slot: u32 = ahci_get_cmd_slot(ahci_readl(bus, issue_addr));
    if cmd_slot == 32 {
        return 0;
    }

    if buf_len > AHCI_MAX_BYTES_PER_TRANS {
        return 0;
    }

    let mut sg_count: u32 = 0;
    let pp = &mut dev.port[port as usize];
    pp.cmd_fis = *cfis;

    if buf != 0 && buf_len != 0 {
        proof {
            assert(AHCI_MAX_BYTES_PER_SG == 0x400000);
            lemma_div_is_ordered(
                (buf_len - 1) as int,
                (AHCI_MAX_BYTES_PER_TRANS - 1) as int,
                AHCI_MAX_BYTES_PER_SG as int,
            );
        }
        sg_count = ahci_fill_sg(pp, buf, buf_len);
        if sg_count == 0 {
            return 0;
        }
    }

    let opts: u32 = (SATA_FIS_H2D_BYTES >> 2) | (sg_count << 16) | (is_write << 6);
    ahci_fill_cmd_slot(pp, cmd_slot, opts);

    ahci_sync_dcache();

    dev.issued = Ghost(dev.issued@.push(ata_cmd { fis: *cfis, buf, buf_len }));
    ahci_writel(bus, 1u32 << cmd_slot, issue_addr);

    let mut timeout: u32 = AHCI_CMD_TIMEOUT_MS;
    while ahci_readl(bus, issue_addr) & (1u32 << cmd_slot) != 0 && timeout > 0
        invariant
            timeout <= AHCI_CMD_TIMEOUT_MS,
        decreases timeout,
    {
        ahci_mdelay(1);
        timeout -= 1;
    }

    ahci_sync_dcache();

    if ahci_readl(bus, issue_addr) & (1u32 << cmd_slot) != 0 {
        // the device never cleared the issue bit: report no transfer
        return 0;
    }

    buf_len
}

/// The state needed to issue commands on the active port.
pub open spec fn cmd_ready(dev: ahci_device, bus: MmioBus) -> bool {
    &&& dev.ports_wf()
    &&& dev.port_idx < 32
    &&& dev.port@[dev.port_idx as int].is_started()
    &&& win_range(bus, dev.port@[dev.port_idx as int].port_mmio, 0x40)
}

/// The FIS of a SET FEATURES command: subcommand in the feature byte and its
/// parameter in the sector-count byte.
pub open spec fn spec_fis_set_feature(subcmd: u8, action: u8) -> sata_fis_h2d {
    sata_fis_h2d {
        fis_type: SATA_FIS_TYPE_REGISTER_H2D,
        pm_port_c: 0x80,
        command: ATA_CMD_SET_FEATURES,
        features: subcmd,
        lba_low: 0,
        lba_mid: 0,
        lba_high: 0,
        device: 0,
        lba_low_exp: 0,
        lba_mid_exp: 0,
        lba_high_exp: 0,
        features_exp: 0,
        sector_count: action,
        sector_count_exp: 0,
        res1: 0,
        control: 0,
        res2: [0, 0, 0, 0],
    }
}

/// The FIS of an IDENTIFY DEVICE command: opcode only.
pub open spec fn spec_fis_identify() -> sata_fis_h2d {
    sata_fis_h2d {
        fis_type: SATA_FIS_TYPE_REGISTER_H2D,
        pm_port_c: 0x80,
        command: ATA_CMD_ID_ATA,
        features: 0,
        lba_low: 0,
        lba_mid: 0,
        lba_high: 0,
        device: 0,
        lba_low_exp: 0,
        lba_mid_exp: 0,
        lba_high_exp: 0,
        features_exp: 0,
        sector_count: 0,
        sector_count_exp: 0,
        res1: 0,
        control: 0,
        res2: [0, 0, 0, 0],
    }
}

/// The FIS of a FLUSH CACHE command: opcode only.
pub open spec fn spec_fis_flush() -> sata_fis_h2d {
    sata_fis_h2d {
        fis_type: SATA_FIS_TYPE_REGISTER_H2D,
        pm_port_c: 0x80,
        command: ATA_CMD_FLUSH,
        features: 0,
        lba_low: 0,
        lba_mid: 0,
        lba_high: 0,
        device: 0,
        lba_low_exp: 0,
        lba_mid_exp: 0,
        lba_high_exp: 0,
        features_exp: 0,
        sector_count: 0,
        sector_count_exp: 0,
        res1: 0,
        control: 0,
        res2: [0, 0, 0, 0],
    }
}

/// The FIS of a FLUSH CACHE EXT command: opcode only.
pub open spec fn spec_fis_flush_ext() -> sata_fis_h2d {
    sata_fis_h2d {
        fis_type: SATA_FIS_TYPE_REGISTER_H2D,
        pm_port_c: 0x80,
        command: ATA_CMD_FLUSH_EXT,
        features: 0,
        lba_low: 0,
        lba_mid: 0,
        lba_high: 0,
        device: 0,
        lba_low_exp: 0,
        lba_mid_exp: 0,
        lba_high_exp: 0,
        features_exp: 0,
        sector_count: 0,
        sector_count_exp: 0,
        res1: 0,
        control: 0,
        res2: [0, 0, 0, 0],
    }
}

/// The FIS of a 28-bit READ/WRITE DMA: the block number in the three low LBA
/// bytes plus four bits of the device byte, the sector count in one byte
/// (0 stands for 256).
pub open spec fn spec_fis_lba28(block: u32, blkcnt: u32, is_write: u32) -> sata_fis_h2d {
    sata_fis_h2d {
        fis_type: SATA_FIS_TYPE_REGISTER_H2D,
        pm_port_c: 0x80,
        command: if is_write != 0 {
            ATA_CMD_WRITE
        } else {
            ATA_CMD_READ
        },
        features: 0,
        lba_low: (block & 0xff) as u8,
        lba_mid: (block >> 8 & 0xff) as u8,
        lba_high: (block >> 16 & 0xff) as u8,
        device: (block >> 24 & 0xf) as u8 | ATA_LBA,
        lba_low_exp: 0,
        lba_mid_exp: 0,
        lba_high_exp: 0,
        features_exp: 0,
        sector_count: (blkcnt & 0xff) as u8,
        sector_count_exp: 0,
        res1: 0,
        control: 0,
        res2: [0, 0, 0, 0],
    }
}

/// The FIS of a 48-bit READ/WRITE DMA EXT: the block number split over six
/// bytes, the sector count over two, and only the LBA bit in the device byte.
pub open spec fn spec_fis_lba48(block: u64, blkcnt: u32, is_write: u32) -> sata_fis_h2d {
    sata_fis_h2d {
        fis_type: SATA_FIS_TYPE_REGISTER_H2D,
        pm_port_c: 0x80,
        command: if is_write != 0 {
            ATA_CMD_WRITE_EXT
        } else {
            ATA_CMD_READ_EXT
        },
        features: 0,
        lba_low: (block & 0xff) as u8,
        lba_mid: (block >> 8 & 0xff) as u8,
        lba_high: (block >> 16 & 0xff) as u8,
        device: ATA_LBA,
        lba_low_exp: (block >> 24 & 0xff) as u8,
        lba_mid_exp: (block >> 32 & 0xff) as u8,
        lba_high_exp: (block >> 40 & 0xff) as u8,
        features_exp: 0,
        sector_count: (blkcnt & 0xff) as u8,
        sector_count_exp: (blkcnt >> 8 & 0xff) as u8,
        res1: 0,
        control: 0,
        res2: [0, 0, 0, 0],
    }
}

/// What issuing the single command `c` on the active port does to the device
/// state and the bus: either no free slot was found and nothing happened, or
/// `c` — FIS and data buffer — was appended to the trace and the issue
/// register took the write.
pub open spec fn spec_cmd_effect(
    dev0: ahci_device,
    dev1: ahci_device,
    bus0: MmioBus,
    bus1: MmioBus,
    c: ata_cmd,
) -> bool {
    let pm = dev0.port@[dev0.port_idx as int].port_mmio;
    let issue_addr = (pm + PORT_CMD_ISSUE) as u64;
    let slot = spec_cmd_slot(bus0.reg(issue_addr));
    &&& bus1.same_rules(bus0)
    &&& dev_same_but_cmd(dev0, dev1)
    &&& if slot == 32 {
        &&& dev1.issued@ == dev0.issued@
        &&& bus_eq(bus0, bus1)
        &&& dev1.port@ == dev0.port@
    } else {
        &&& dev1.issued@ == dev0.issued@.push(c)
        &&& bus1.reg(issue_addr) == bus0.stored_of(1u32 << slot, issue_addr)
        &&& forall|a: u64| bus0.in_window(a) && a != issue_addr ==> bus1.reg(a) == bus0.reg(a)
        &&& bus1.sc_fuel == bus0.fuel_of(1u32 << slot, issue_addr)
        &&& dev1.port@[dev0.port_idx as int].is_started()
        &&& ioport_same_addrs(
            dev0.port@[dev0.port_idx as int],
            dev1.port@[dev0.port_idx as int],
        )
        &&& dev1.port@[dev0.port_idx as int].cmd_fis == c.fis
        &&& forall|j: int|
            0 <= j < dev0.port@.len() && j != dev0.port_idx ==> dev1.port@[j] == dev0.port@[j]
    }
}

/// Issue SET FEATURES with the given subcommand and parameter.
pub fn ahci_set_feature(dev: &mut ahci_device, bus: &mut MmioBus, subcmd: u8, action: u8)
    requires
        cmd_ready(*old(dev), *old(bus)),
    ensures
        cmd_ready(*final(dev), *final(bus)),
        spec_cmd_effect(
            *old(dev),
            *final(dev),
            *old(bus),
            *final(bus),
            (ata_cmd { fis: spec_fis_set_feature(subcmd, action), buf: 0, buf_len: 0 }),
        ),
{
    let port: u8 = dev.port_idx;
    let cfis = sata_fis_h2d {
        fis_type: SATA_FIS_TYPE_REGISTER_H2D,
        pm_port_c: 0x80,
        command: ATA_CMD_SET_FEATURES,
        features: subcmd,
        lba_low: 0,
        lba_mid: 0,
        lba_high: 0,
        device: 0,
        lba_low_exp: 0,
        lba_mid_exp: 0,
        lba_high_exp: 0,
        features_exp: 0,
        sector_count: action,
        sector_count_exp: 0,
        res1: 0,
        control: 0,
        res2: [0, 0, 0, 0],
    };

    ahci_exec_ata_cmd(dev, bus, port, &cfis, 0, 0, READ_CMD);
}

/// Issue IDENTIFY DEVICE, with `buf` as the 512-byte DMA target, and decode
/// the response into `id`: on completion `id` holds the drive's identify
/// words.
#[verifier::loop_isolation(false)]
pub fn ahci_sata_identify(
    dev: &mut ahci_device,
    bus: &mut MmioBus,
    drive: &sata_drive,
    id: &mut Vec<u16>,
    buf: u64,
)
    requires
        cmd_ready(*old(dev), *old(bus)),
        drive.ident@.len() == ATA_ID_WORDS,
        old(id)@.len() == ATA_ID_WORDS + 1,
        buf != 0,
        buf + 512 <= u64::MAX,
    ensures
        cmd_ready(*final(dev), *final(bus)),
        spec_cmd_effect(
            *old(dev),
            *final(dev),
            *old(bus),
            *final(bus),
            (ata_cmd { fis: spec_fis_identify(), buf: buf, buf_len: 512 }),
        ),
        final(id)@.len() == old(id)@.len(),
        ({
            let pm = old(dev).port@[old(dev).port_idx as int].port_mmio;
            let slot = spec_cmd_slot(old(bus).reg((pm + PORT_CMD_ISSUE) as u64));
            if slot != 32 && spec_issue_ok(*old(bus), pm) {
                &&& forall|k: int| 0 <= k < ATA_ID_WORDS ==> final(id)@[k] == drive.ident@[k]
                &&& final(id)@[ATA_ID_WORDS as int] == old(id)@[ATA_ID_WORDS as int]
            } else {
                final(id)@ == old(id)@
            }
        }),
{
    let port: u8 = dev.port_idx;
    let buf_len: u32 = ATA_ID_WORDS * 2;
    let cfis = sata_fis_h2d {
        fis_type: SATA_FIS_TYPE_REGISTER_H2D,
        pm_port_c: 0x80,
        command: ATA_CMD_ID_ATA,
        features: 0,
        lba_low: 0,
        lba_mid: 0,
        lba_high: 0,
        device: 0,
        lba_low_exp: 0,
        lba_mid_exp: 0,
        lba_high_exp: 0,
        features_exp: 0,
        sector_count: 0,
        sector_count_exp: 0,
        res1: 0,
        control: 0,
        res2: [0, 0, 0, 0],
    };

    let r = ahci_exec_ata_cmd(dev, bus, port, &cfis, buf, buf_len, READ_CMD);

    if r > 0 {
        // the device answered: its identify words arrived in the buffer
        let mut k: usize = 0;
        while k < 256
            invariant
                id@.len() == old(id)@.len(),
                k <= 256,
                forall|j: int| 0 <= j < k ==> id@[j] == drive.ident@[j],
                forall|j: int| k <= j < id@.len() ==> id@[j] == old(id)@[j],
            decreases 256 - k,
        {
            let w: u16 = drive.ident[k];
            id.set(k, w);
            k += 1;
        }
    }
}

/// Issue one bounded 28-bit read or write of `blkcnt` sectors at `start` and
/// report `blkcnt` on completion, 0 otherwise.
pub fn ahci_sata_rw_cmd(
    dev: &mut ahci_device,
    bus: &mut MmioBus,
    start: u32,
    blkcnt: u32,
    buffer: u64,
    is_write: u32,
) -> (r: u32)
    requires
        cmd_ready(*old(dev), *old(bus)),
        is_write <= 1,
        blkcnt <= ATA_MAX_SECTORS,
        buffer + 512 * blkcnt <= u64::MAX,
    ensures
        cmd_ready(*final(dev), *final(bus)),
        spec_cmd_effect(
            *old(dev),
            *final(dev),
            *old(bus),
            *final(bus),
            (ata_cmd {
                fis: spec_fis_lba28(start, blkcnt, is_write),
                buf: buffer,
                buf_len: (ATA_SECT_SIZE * blkcnt) as u32,
            }),
        ),
        ({
            let pm = old(dev).port@[old(dev).port_idx as int].port_mmio;
            let slot = spec_cmd_slot(old(bus).reg((pm + PORT_CMD_ISSUE) as u64));
            r == (if slot != 32 && spec_issue_ok(*old(bus), pm) && blkcnt > 0 {
                blkcnt
            } else {
                0u32
            })
        }),
{
    let port: u8 = dev.port_idx;
    let block: u32 = start;
    let buf_len: u32 = ATA_SECT_SIZE * blkcnt;
    let cfis = sata_fis_h2d {
        fis_type: SATA_FIS_TYPE_REGISTER_H2D,
        pm_port_c: 0x80,
        command: if is_write != 0 {
            ATA_CMD_WRITE
        } else {
            ATA_CMD_READ
        },
        features: 0,
        lba_low: (block & 0xff) as u8,
        lba_mid: #[verifier::truncate] ((block >> 8 & 0xff) as u8),
        lba_high: #[verifier::truncate] ((block >> 16 & 0xff) as u8),
        device: #[verifier::truncate] ((block >> 24 & 0xf) as u8) | ATA_LBA,
        lba_low_exp: 0,
        lba_mid_exp: 0,
        lba_high_exp: 0,
        features_exp: 0,
        sector_count: (blkcnt & 0xff) as u8,
        sector_count_exp: 0,
        res1: 0,
        control: 0,
        res2: [0, 0, 0, 0],
    };

    if ahci_exec_ata_cmd(dev, bus, port, &cfis, buffer, buf_len, is_write) > 0 {
        blkcnt
    } else {
        0
    }
}

/// Issue one bounded 48-bit read or write of `blkcnt` sectors at `start` and
/// report `blkcnt` on completion, 0 otherwise.
pub fn ahci_sata_rw_cmd_ext(
    dev: &mut ahci_device,
    bus: &mut MmioBus,
    start: u64,
    blkcnt: u32,
    buffer: u64,
    is_write: u32,
) -> (r: u32)
    requires
        cmd_ready(*old(dev), *old(bus)),
        is_write <= 1,
        blkcnt <= ATA_MAX_SECTORS_LBA48,
        buffer + 512 * blkcnt <= u64::MAX,
    ensures
        cmd_ready(*final(dev), *final(bus)),
        spec_cmd_effect(
            *old(dev),
            *final(dev),
            *old(bus),
            *final(bus),
            (ata_cmd {
                fis: spec_fis_lba48(start, blkcnt, is_write),
                buf: buffer,
                buf_len: (ATA_SECT_SIZE * blkcnt) as u32,
            }),
        ),
        ({
            let pm = old(dev).port@[old(dev).port_idx as int].port_mmio;
            let slot = spec_cmd_slot(old(bus).reg((pm + PORT_CMD_ISSUE) as u64));
            r == (if slot != 32 && spec_issue_ok(*old(bus), pm) && blkcnt > 0 {
                blkcnt
            } else {
                0u32
            })
        }),
{
    let port: u8 = dev.port_idx;
    let block: u64 = start;
    let buf_len: u32 = ATA_SECT_SIZE * blkcnt;
    let cfis = sata_fis_h2d {
        fis_type: SATA_FIS_TYPE_REGISTER_H2D,
        pm_port_c: 0x80,
        command: if is_write != 0 {
            ATA_CMD_WRITE_EXT
        } else {
            ATA_CMD_READ_EXT
        },
        features: 0,
        lba_low: (block & 0xff) as u8,
        lba_mid: #[verifier::truncate] ((block >> 8 & 0xff) as u8),
        lba_high: #[verifier::truncate] ((block >> 16 & 0xff) as u8),
        device: ATA_LBA,
        lba_low_exp: #[verifier::truncate] ((block >> 24 & 0xff) as u8),
        lba_mid_exp: #[verifier::truncate] ((block >> 32 & 0xff) as u8),
        lba_high_exp: #[verifier::truncate] ((block >> 40 & 0xff) as u8),
        features_exp: 0,
        sector_count: (blkcnt & 0xff) as u8,
        sector_count_exp: #[verifier::truncate] ((blkcnt >> 8 & 0xff) as u8),
        res1: 0,
        control: 0,
        res2: [0, 0, 0, 0],
    };

    if ahci_exec_ata_cmd(dev, bus, port, &cfis, buffer, buf_len, is_write) > 0 {
        blkcnt
    } else {
        0
    }
}

/// Issue FLUSH CACHE on the active port.
pub fn ahci_sata_flush_cache(dev: &mut ahci_device, bus: &mut MmioBus)
    requires
        cmd_ready(*old(dev), *old(bus)),
    ensures
        cmd_ready(*final(dev), *final(bus)),
        spec_cmd_effect(
            *old(dev),
            *final(dev),
            *old(bus),
            *final(bus),
            (ata_cmd { fis: spec_fis_flush(), buf: 0, buf_len: 0 }),
        ),
{
    let port: u8 = dev.port_idx;
    let cfis = sata_fis_h2d {
        fis_type: SATA_FIS_TYPE_REGISTER_H2D,
        pm_port_c: 0x80,
        command: ATA_CMD_FLUSH,
        features: 0,
        lba_low: 0,
        lba_mid: 0,
        lba_high: 0,
        device: 0,
        lba_low_exp: 0,
        lba_mid_exp: 0,
        lba_high_exp: 0,
        features_exp: 0,
        sector_count: 0,
        sector_count_exp: 0,
        res1: 0,
        control: 0,
        res2: [0, 0, 0, 0],
    };
    ahci_exec_ata_cmd(dev, bus, port, &cfis, 0, 0, READ_CMD);
}

/// Issue FLUSH CACHE EXT on the active port.
pub fn ahci_sata_flush_cache_ext(dev: &mut ahci_device, bus: &mut MmioBus)
    requires
        cmd_ready(*old(dev), *old(bus)),
    ensures
        cmd_ready(*final(dev), *final(bus)),
        spec_cmd_effect(
            *old(dev),
            *final(dev),
            *old(bus),
            *final(bus),
            (ata_cmd { fis: spec_fis_flush_ext(), buf: 0, buf_len: 0 }),
        ),
{
    let port: u8 = dev.port_idx;
    let cfis = sata_fis_h2d {
        fis_type: SATA_FIS_TYPE_REGISTER_H2D,
        pm_port_c: 0x80,
        command: ATA_CMD_FLUSH_EXT,
        features: 0,
        lba_low: 0,
        lba_mid: 0,
        lba_high: 0,
        device: 0,
        lba_low_exp: 0,
        lba_mid_exp: 0,
        lba_high_exp: 0,
        features_exp: 0,
        sector_count: 0,
        sector_count_exp: 0,
        res1: 0,
        control: 0,
        res2: [0, 0, 0, 0],
    };
    ahci_exec_ata_cmd(dev, bus, port, &cfis, 0, 0, READ_CMD);
}

/// Constant bit facts about the issue register model: issuing on slot 0
/// writes bit 0, an acknowledged write stores 0, an unacknowledged one
/// stores 1.
pub proof fn lemma_issue_consts()
    by (bit_vector)
    ensures
        1u32 << 0u32 == 1u32,
        1u32 << 1u32 == 2u32,
        1u32 >> 0u32 == 1u32,
        0xffffffffu32 & 1u32 == 1u32,
        0xffffffffu32 & 2u32 == 2u32,
        2u32 & !0xffffffffu32 == 0u32,
        1u32 & !0xffffffffu32 == 0u32,
        0u32 & 1u32 == 0u32,
        1u32 & 1u32 == 1u32,
{
}

/// The commands a 28-bit transfer of `blks` sectors at `start` from the
/// buffer at `buffer` decomposes into: full chunks of 256 sectors, then the
/// remainder, the block number and the buffer address advancing in step.
pub open spec fn spec_rw28_cmds(start: u32, blks: u32, buffer: u64, is_write: u32) -> Seq<ata_cmd>
    decreases blks,
{
    if blks > ATA_MAX_SECTORS {
        seq![
            ata_cmd {
                fis: spec_fis_lba28(start, ATA_MAX_SECTORS, is_write),
                buf: buffer,
                buf_len: (ATA_SECT_SIZE * ATA_MAX_SECTORS) as u32,
            },
        ] + spec_rw28_cmds(
            (start + ATA_MAX_SECTORS) as u32,
            (blks - ATA_MAX_SECTORS) as u32,
            (buffer + ATA_SECT_SIZE * ATA_MAX_SECTORS) as u64,
            is_write,
        )
    } else {
        seq![
            ata_cmd {
                fis: spec_fis_lba28(start, blks, is_write),
                buf: buffer,
                buf_len: (ATA_SECT_SIZE * blks) as u32,
            },
        ]
    }
}

/// The commands a 48-bit transfer decomposes into: full chunks of 65535
/// sectors, then the remainder, block number and buffer advancing in step.
pub open spec fn spec_rw48_cmds(start: u64, blks: u32, buffer: u64, is_write: u32) -> Seq<ata_cmd>
    decreases blks,
{
    if blks > ATA_MAX_SECTORS_LBA48 {
        seq![
            ata_cmd {
                fis: spec_fis_lba48(start, ATA_MAX_SECTORS_LBA48, is_write),
                buf: buffer,
                buf_len: (ATA_SECT_SIZE * ATA_MAX_SECTORS_LBA48) as u32,
            },
        ] + spec_rw48_cmds(
            (start + ATA_MAX_SECTORS_LBA48) as u64,
            (blks - ATA_MAX_SECTORS_LBA48) as u32,
            (buffer + ATA_SECT_SIZE * ATA_MAX_SECTORS_LBA48) as u64,
            is_write,
        )
    } else {
        seq![
            ata_cmd {
                fis: spec_fis_lba48(start, blks, is_write),
                buf: buffer,
                buf_len: (ATA_SECT_SIZE * blks) as u32,
            },
        ]
    }
}

/// Chunked 28-bit transfer: issue commands of at most 256 sectors, advancing
/// the block number and the buffer address by each chunk, aborting with 0 the
/// moment a chunk does not confirm its full sector count.  The trace grows by
/// exactly the chunk commands the device acknowledged, plus the one that
/// failed.
#[verifier::loop_isolation(false)]
pub fn ata_low_level_rw_lba28(
    dev: &mut ahci_device,
    bus: &mut MmioBus,
    blknr: u64,
    blkcnt: u32,
    buffer: u64,
    is_write: u32,
) -> (r: u32)
    requires
        cmd_ready(*old(dev), *old(bus)),
        port_cmd_model(*old(bus), old(dev).port@[old(dev).port_idx as int].port_mmio),
        old(bus).reg(
            (old(dev).port@[old(dev).port_idx as int].port_mmio + PORT_CMD_ISSUE) as u64,
        ) == 0,
        is_write <= 1,
        blknr + blkcnt <= u32::MAX,
        buffer + 512 * blkcnt <= u64::MAX,
    ensures
        cmd_ready(*final(dev), *final(bus)),
        final(bus).same_rules(*old(bus)),
        dev_same_but_cmd(*old(dev), *final(dev)),
        final(dev).port@[old(dev).port_idx as int].port_mmio == old(dev).port@[old(
            dev,
        ).port_idx as int].port_mmio,
        ({
            let pm = old(dev).port@[old(dev).port_idx as int].port_mmio;
            let issue_addr = (pm + PORT_CMD_ISSUE) as u64;
            let fises = spec_rw28_cmds(blknr as u32, blkcnt, buffer, is_write);
            let n = fises.len();
            &&& forall|a: u64|
                old(bus).in_window(a) && a != issue_addr ==> final(bus).reg(a) == old(bus).reg(a)
            &&& if old(bus).sc_fuel >= n {
                &&& r == blkcnt
                &&& final(dev).issued@ == old(dev).issued@ + fises
                &&& final(bus).sc_fuel == old(bus).sc_fuel - n
                &&& final(bus).reg(issue_addr) == 0
            } else {
                &&& r == 0
                &&& final(dev).issued@ == old(dev).issued@ + fises.take(old(bus).sc_fuel + 1)
                &&& final(bus).sc_fuel == 0
                &&& final(bus).reg(issue_addr) == 1
            }
        }),
{
    let ghost fuel0: u32 = bus.sc_fuel;
    let ghost full: Seq<ata_cmd> = spec_rw28_cmds(blknr as u32, blkcnt, buffer, is_write);
    let ghost pm: u64 = dev.port@[dev.port_idx as int].port_mmio;
    let ghost issue_addr: u64 = (pm + PORT_CMD_ISSUE) as u64;
    let ghost mut done: Seq<ata_cmd> = Seq::empty();

    let mut start: u32 = blknr as u32;
    let mut blks: u32 = blkcnt;
    let mut addr: u64 = buffer;
    let max_blks: u32 = ATA_MAX_SECTORS;

    proof {
        lemma_issue_consts();
        assert(full == done + spec_rw28_cmds(start, blks, addr, is_write));
    }

    loop
        invariant
            cmd_ready(*dev, *bus),
            bus.same_rules(*old(bus)),
            port_cmd_model(*bus, pm),
            dev_same_but_cmd(*old(dev), *dev),
            dev.port@[dev.port_idx as int].port_mmio == pm,
            blks <= blkcnt,
            blkcnt > 0 ==> blks > 0,
            blkcnt == 0 ==> blks == 0 && done =~= Seq::<ata_cmd>::empty(),
            start == blknr + (blkcnt - blks),
            addr == buffer + 512 * ((blkcnt - blks) as int),
            dev.issued@ == old(dev).issued@ + done,
            full == done + spec_rw28_cmds(start, blks, addr, is_write),
            bus.sc_fuel == fuel0 - done.len(),
            done.len() <= fuel0,
            bus.reg(issue_addr) == 0,
            forall|a: u64|
                old(bus).in_window(a) && a != issue_addr ==> bus.reg(a) == old(bus).reg(a),
        decreases blks,
    {
        let ghost pre_done = done;
        let ghost rem = spec_rw28_cmds(start, blks, addr, is_write);
        if blks > max_blks {
            let r28 = ahci_sata_rw_cmd(dev, bus, start, max_blks, addr, is_write);
            proof {
                assert(rem == seq![
                    ata_cmd {
                        fis: spec_fis_lba28(start, max_blks, is_write),
                        buf: addr,
                        buf_len: (ATA_SECT_SIZE * ATA_MAX_SECTORS) as u32,
                    },
                ] + spec_rw28_cmds(
                    (start + max_blks) as u32,
                    (blks - max_blks) as u32,
                    (addr + ATA_SECT_SIZE * ATA_MAX_SECTORS) as u64,
                    is_write,
                ));
            }
            if max_blks != r28 {
                proof {
                    assert(bus.sc_fuel == 0);
                    assert(fuel0 == pre_done.len());
                    assert(full.take(fuel0 + 1) =~= pre_done + seq![rem[0]]);
                    assert(dev.issued@ =~= old(dev).issued@ + full.take(fuel0 + 1));
                }
                return 0;
            }
            proof {
                done = done.push(rem[0]);
                assert(done =~= pre_done + seq![rem[0]]);
                assert(full == done + spec_rw28_cmds(
                    (start + max_blks) as u32,
                    (blks - max_blks) as u32,
                    (addr + ATA_SECT_SIZE * ATA_MAX_SECTORS) as u64,
                    is_write,
                )) by {
                    assert(full =~= (pre_done + seq![rem[0]]) + spec_rw28_cmds(
                        (start + max_blks) as u32,
                        (blks - max_blks) as u32,
                        (addr + ATA_SECT_SIZE * ATA_MAX_SECTORS) as u64,
                        is_write,
                    ));
                }
            }
            start += max_blks;
            blks -= max_blks;
            addr = addr + (ATA_SECT_SIZE * max_blks) as u64;
        } else {
            let r28 = ahci_sata_rw_cmd(dev, bus, start, blks, addr, is_write);
            proof {
                assert(rem == seq![
                    ata_cmd {
                        fis: spec_fis_lba28(start, blks, is_write),
                        buf: addr,
                        buf_len: (ATA_SECT_SIZE * blks) as u32,
                    },
                ]);
            }
            if blks != r28 {
                proof {
                    assert(blks > 0);
                    assert(bus.sc_fuel == 0);
                    assert(fuel0 == pre_done.len());
                    assert(full.take(fuel0 + 1) =~= pre_done + seq![rem[0]]);
                    assert(dev.issued@ =~= old(dev).issued@ + full.take(fuel0 + 1));
                }
                return 0;
            }
            proof {
                done = done.push(rem[0]);
                assert(done =~= pre_done + rem);
                assert(full =~= done);
            }
            start += blks;
            blks = 0;
        }

        if blks == 0 {
            proof {
                assert(dev.issued@ == old(dev).issued@ + full);
                if fuel0 >= full.len() {
                } else {
                    assert(blkcnt == 0 && fuel0 == 0);
                    assert(full.take(fuel0 + 1) =~= full);
                }
            }
            return blkcnt;
        }
    }
}

/// Chunked 48-bit transfer: as the 28-bit path, with chunks of at most 65535
/// sectors.
#[verifier::loop_isolation(false)]
pub fn ata_low_level_rw_lba48(
    dev: &mut ahci_device,
    bus: &mut MmioBus,
    blknr: u64,
    blkcnt: u32,
    buffer: u64,
    is_write: u32,
) -> (r: u32)
    requires
        cmd_ready(*old(dev), *old(bus)),
        port_cmd_model(*old(bus), old(dev).port@[old(dev).port_idx as int].port_mmio),
        old(bus).reg(
            (old(dev).port@[old(dev).port_idx as int].port_mmio + PORT_CMD_ISSUE) as u64,
        ) == 0,
        is_write <= 1,
        blknr + blkcnt <= u64::MAX,
        buffer + 512 * blkcnt <= u64::MAX,
    ensures
        cmd_ready(*final(dev), *final(bus)),
        final(bus).same_rules(*old(bus)),
        dev_same_but_cmd(*old(dev), *final(dev)),
        final(dev).port@[old(dev).port_idx as int].port_mmio == old(dev).port@[old(
            dev,
        ).port_idx as int].port_mmio,
        ({
            let pm = old(dev).port@[old(dev).port_idx as int].port_mmio;
            let issue_addr = (pm + PORT_CMD_ISSUE) as u64;
            let fises = spec_rw48_cmds(blknr, blkcnt, buffer, is_write);
            let n = fises.len();
            &&& forall|a: u64|
                old(bus).in_window(a) && a != issue_addr ==> final(bus).reg(a) == old(bus).reg(a)
            &&& if old(bus).sc_fuel >= n {
                &&& r == blkcnt
                &&& final(dev).issued@ == old(dev).issued@ + fises
                &&& final(bus).sc_fuel == old(bus).sc_fuel - n
                &&& final(bus).reg(issue_addr) == 0
            } else {
                &&& r == 0
                &&& final(dev).issued@ == old(dev).issued@ + fises.take(old(bus).sc_fuel + 1)
                &&& final(bus).sc_fuel == 0
                &&& final(bus).reg(issue_addr) == 1
            }
        }),
{
    let ghost fuel0: u32 = bus.sc_fuel;
    let ghost full: Seq<ata_cmd> = spec_rw48_cmds(blknr, blkcnt, buffer, is_write);
    let ghost pm: u64 = dev.port@[dev.port_idx as int].port_mmio;
    let ghost issue_addr: u64 = (pm + PORT_CMD_ISSUE) as u64;
    let ghost mut done: Seq<ata_cmd> = Seq::empty();

    let mut start: u64 = blknr;
    let mut blks: u32 = blkcnt;
    let mut addr: u64 = buffer;
    let max_blks: u32 = ATA_MAX_SECTORS_LBA48;

    proof {
        lemma_issue_consts();
        assert(full == done + spec_rw48_cmds(start, blks, addr, is_write));
    }

    loop
        invariant
            cmd_ready(*dev, *bus),
            bus.same_rules(*old(bus)),
            port_cmd_model(*bus, pm),
            dev_same_but_cmd(*old(dev), *dev),
            dev.port@[dev.port_idx as int].port_mmio == pm,
            blks <= blkcnt,
            blkcnt > 0 ==> blks > 0,
            blkcnt == 0 ==> blks == 0 && done =~= Seq::<ata_cmd>::empty(),
            start == blknr + (blkcnt - blks),
            addr == buffer + 512 * ((blkcnt - blks) as int),
            dev.issued@ == old(dev).issued@ + done,
            full == done + spec_rw48_cmds(start, blks, addr, is_write),
            bus.sc_fuel == fuel0 - done.len(),
            done.len() <= fuel0,
            bus.reg(issue_addr) == 0,
            forall|a: u64|
                old(bus).in_window(a) && a != issue_addr ==> bus.reg(a) == old(bus).reg(a),
        decreases blks,
    {
        let ghost pre_done = done;
        let ghost rem = spec_rw48_cmds(start, blks, addr, is_write);
        if blks > max_blks {
            let r48 = ahci_sata_rw_cmd_ext(dev, bus, start, max_blks, addr, is_write);
            proof {
                assert(rem == seq![
                    ata_cmd {
                        fis: spec_fis_lba48(start, max_blks, is_write),
                        buf: addr,
                        buf_len: (ATA_SECT_SIZE * ATA_MAX_SECTORS_LBA48) as u32,
                    },
                ] + spec_rw48_cmds(
                    (start + max_blks) as u64,
                    (blks - max_blks) as u32,
                    (addr + ATA_SECT_SIZE * ATA_MAX_SECTORS_LBA48) as u64,
                    is_write,
                ));
            }
            if max_blks != r48 {
                proof {
                    assert(bus.sc_fuel == 0);
                    assert(fuel0 == pre_done.len());
                    assert(full.take(fuel0 + 1) =~= pre_done + seq![rem[0]]);
                    assert(dev.issued@ =~= old(dev).issued@ + full.take(fuel0 + 1));
                }
                return 0;
            }
            proof {
                done = done.push(rem[0]);
                assert(done =~= pre_done + seq![rem[0]]);
                assert(full == done + spec_rw48_cmds(
                    (start + max_blks) as u64,
                    (blks - max_blks) as u32,
                    (addr + ATA_SECT_SIZE * ATA_MAX_SECTORS_LBA48) as u64,
                    is_write,
                )) by {
                    assert(full =~= (pre_done + seq![rem[0]]) + spec_rw48_cmds(
                        (start + max_blks) as u64,
                        (blks - max_blks) as u32,
                        (addr + ATA_SECT_SIZE * ATA_MAX_SECTORS_LBA48) as u64,
                        is_write,
                    ));
                }
            }
            start += max_blks as u64;
            blks -= max_blks;
            addr = addr + (ATA_SECT_SIZE * max_blks) as u64;
        } else {
            let r48 = ahci_sata_rw_cmd_ext(dev, bus, start, blks, addr, is_write);
            proof {
                assert(rem == seq![
                    ata_cmd {
                        fis: spec_fis_lba48(start, blks, is_write),
                        buf: addr,
                        buf_len: (ATA_SECT_SIZE * blks) as u32,
                    },
                ]);
            }
            if blks != r48 {
                proof {
                    assert(blks > 0);
                    assert(bus.sc_fuel == 0);
                    assert(fuel0 == pre_done.len());
                    assert(full.take(fuel0 + 1) =~= pre_done + seq![rem[0]]);
                    assert(dev.issued@ =~= old(dev).issued@ + full.take(fuel0 + 1));
                }
                return 0;
            }
            proof {
                done = done.push(rem[0]);
                assert(done =~= pre_done + rem);
                assert(full =~= done);
            }
            start += blks as u64;
            blks = 0;
        }

        if blks == 0 {
            proof {
                assert(dev.issued@ == old(dev).issued@ + full);
                if fuel0 >= full.len() {
                } else {
                    assert(blkcnt == 0 && fuel0 == 0);
                    assert(full.take(fuel0 + 1) =~= full);
                }
            }
            return blkcnt;
        }
    }
}

/// Record the PIO and UDMA transfer-mode masks the device reported.
pub fn ahci_sata_xfer_mode(dev: &mut ahci_device, id: &[u16])
    requires
        id@.len() >= 256,
    ensures
        final(dev).pio_mask == id@[ATA_ID_PIO_MODES as int] as u32,
        final(dev).udma_mask == id@[ATA_ID_UDMA_MODES as int] as u32,
        *final(dev) == (ahci_device {
            pio_mask: final(dev).pio_mask,
            udma_mask: final(dev).udma_mask,
            ..*old(dev)
        }),
{
    dev.pio_mask = id[ATA_ID_PIO_MODES as usize] as u32;
    dev.udma_mask = id[ATA_ID_UDMA_MODES as usize] as u32;
}

/// The feature flags after the write-cache scan: write cache present and
/// enabled, and the two flush capabilities, each taken only from validly
/// reported identify words.
pub open spec fn spec_wcache_flags(flags: u32, id: Seq<u16>) -> u32 {
    let f0 = if spec_id_has_wcache(id) && spec_id_wcache_enabled(id) {
        flags | SATA_FLAG_WCACHE
    } else {
        flags
    };
    let f1 = if spec_id_has_flush(id) {
        f0 | SATA_FLAG_FLUSH
    } else {
        f0
    };
    if spec_id_has_flush_ext(id) {
        f1 | SATA_FLAG_FLUSH_EXT
    } else {
        f1
    }
}

/// Record the write-cache and flush capabilities the device reported.
pub fn ahci_sata_init_wcache(dev: &mut ahci_device, id: &[u16])
    requires
        id@.len() >= 256,
    ensures
        final(dev).flags == spec_wcache_flags(old(dev).flags, id@),
        *final(dev) == (ahci_device { flags: final(dev).flags, ..*old(dev) }),
{
    if ata_id_has_wcache(id) && ata_id_wcache_enabled(id) {
        dev.flags |= SATA_FLAG_WCACHE;
    }
    if ata_id_has_flush(id) {
        dev.flags |= SATA_FLAG_FLUSH;
    }
    if ata_id_has_flush_ext(id) {
        dev.flags |= SATA_FLAG_FLUSH_EXT;
    }
}

fn zero_words(n: usize) -> (r: Vec<u16>)
    ensures
        r@.len() == n,
        forall|i: int| 0 <= i < n ==> r@[i] == 0,
{
    let mut v: Vec<u16> = Vec::new();
    while v.len() < n
        invariant
            v@.len() <= n,
            forall|i: int| 0 <= i < v@.len() ==> v@[i] == 0,
        decreases n - v@.len(),
    {
        v.push(0);
    }
    v
}

/// The identify words the scan decodes: the drive's identify response with a
/// trailing zero word if the IDENTIFY command completed, all zeros if it did
/// not (the buffer is never written then).
pub open spec fn spec_scan_words(bus: MmioBus, dev: ahci_device, drive: sata_drive) -> Seq<u16> {
    let pm = dev.port@[dev.port_idx as int].port_mmio;
    let slot = spec_cmd_slot(bus.reg((pm + PORT_CMD_ISSUE) as u64));
    if slot != 32 && spec_issue_ok(bus, pm) {
        drive.ident@ + seq![0u16]
    } else {
        Seq::new((ATA_ID_WORDS + 1) as nat, |i: int| 0u16)
    }
}

/// `s` holds the identity string of `len` bytes at word offset `ofs` of the
/// identify data, with trailing spaces trimmed by a NUL.
pub open spec fn spec_id_string_ok(id: Seq<u16>, ofs: int, len: int, s: Seq<u8>) -> bool {
    let nl = spec_trim_len(id, ofs, len);
    &&& s.len() == len + 1
    &&& 0 <= nl <= len
    &&& forall|k: int| 0 <= k < len && k != nl ==> s[k] == spec_id_byte(id, ofs, k)
    &&& s[nl] == 0
}

/// Scan the attached drive: issue IDENTIFY DEVICE, decode identity strings,
/// capacity, addressing mode, queue depth, transfer-mode masks and cache
/// capabilities, and negotiate the highest reported UDMA mode with SET
/// FEATURES.
#[verifier::loop_isolation(false)]
pub fn ahci_sata_scan(dev: &mut ahci_device, bus: &mut MmioBus, mem: &mut PlatMem, drive: &sata_drive)
    requires
        cmd_ready(*old(dev), *old(bus)),
        port_cmd_model(*old(bus), old(dev).port@[old(dev).port_idx as int].port_mmio),
        old(bus).reg(
            (old(dev).port@[old(dev).port_idx as int].port_mmio + PORT_CMD_ISSUE) as u64,
        ) == 0,
        old(dev).blk_dev.strings_wf(),
        drive.ident@.len() == ATA_ID_WORDS,
        old(mem).next >= 1,
        old(mem).next + 2 + 512 <= u64::MAX,
    ensures
        cmd_ready(*final(dev), *final(bus)),
        final(bus).same_rules(*old(bus)),
        final(dev).port_idx == old(dev).port_idx,
        final(dev).n_ports == old(dev).n_ports,
        final(dev).port_map_linkup == old(dev).port_map_linkup,
        final(dev).mmio_base == old(dev).mmio_base,
        final(dev).cap == old(dev).cap,
        ({
            let w = spec_scan_words(*old(bus), *old(dev), *drive);
            let action = ((spec_ffs32((w[ATA_ID_UDMA_MODES as int] as u32 + 1) as u32)
                + 0x3e) as u8);
            &&& final(dev).blk_dev.lba == spec_id_n_sectors(w)
            &&& final(dev).blk_dev.blksz == 512
            &&& final(dev).blk_dev.lba48 == spec_id_has_lba48(w)
            &&& final(dev).blk_dev.queue_depth == spec_id_queue_depth(w)
            &&& final(dev).pio_mask == w[ATA_ID_PIO_MODES as int] as u32
            &&& final(dev).udma_mask == w[ATA_ID_UDMA_MODES as int] as u32
            &&& final(dev).flags == spec_wcache_flags(old(dev).flags, w)
            &&& final(dev).blk_dev.strings_wf()
            &&& spec_id_string_ok(
                w,
                ATA_ID_PROD as int,
                ATA_ID_PROD_LEN as int,
                final(dev).blk_dev.product@,
            )
            &&& spec_id_string_ok(
                w,
                ATA_ID_SERNO as int,
                ATA_ID_SERNO_LEN as int,
                final(dev).blk_dev.serial@,
            )
            &&& spec_id_string_ok(
                w,
                ATA_ID_FW_REV as int,
                ATA_ID_FW_REV_LEN as int,
                final(dev).blk_dev.revision@,
            )
            &&& final(dev).issued@ == old(dev).issued@ + seq![
                ata_cmd {
                    fis: spec_fis_identify(),
                    buf: spec_align_up(old(mem).next, 2) as u64,
                    buf_len: 512,
                },
                ata_cmd {
                    fis: spec_fis_set_feature(SETFEATURES_XFER, action),
                    buf: 0,
                    buf_len: 0,
                },
            ]
        }),
{
    let mut id: Vec<u16> = zero_words((ATA_ID_WORDS + 1) as usize);
    let buf: u64 = ahci_malloc_align(mem, 512, 2);

    proof {
        lemma_issue_consts();
    }

    ahci_sata_identify(dev, bus, drive, &mut id, buf);

    let ghost w = spec_scan_words(*old(bus), *old(dev), *drive);
    proof {
        assert(id@ =~= w);
    }

    ata_id_c_string(id.as_slice(), &mut dev.blk_dev.product, ATA_ID_PROD as usize);
    ata_id_c_string(id.as_slice(), &mut dev.blk_dev.serial, ATA_ID_SERNO as usize);
    ata_id_c_string(id.as_slice(), &mut dev.blk_dev.revision, ATA_ID_FW_REV as usize);

    dev.blk_dev.lba = ata_id_n_sectors(id.as_slice());
    dev.blk_dev.blksz = ATA_SECT_SIZE as u64;
    dev.blk_dev.lba48 = ata_id_has_lba48(id.as_slice());
    dev.blk_dev.queue_depth = ata_id_queue_depth(id.as_slice());

    ahci_sata_xfer_mode(dev, id.as_slice());

    ahci_sata_init_wcache(dev, id.as_slice());

    let subcmd: u8 = SETFEATURES_XFER;
    let action: u8 = (ahci_ffs32(dev.udma_mask + 1) + 0x3e) as u8;
    ahci_set_feature(dev, bus, subcmd, action);

    proof {
        assert(final(dev).issued@ =~= old(dev).issued@ + seq![
            ata_cmd {
                fis: spec_fis_identify(),
                buf: spec_align_up(old(mem).next, 2) as u64,
                buf_len: 512,
            },
            ata_cmd { fis: spec_fis_set_feature(SETFEATURES_XFER, action), buf: 0, buf_len: 0 },
        ]);
    }
}

/// Read `blkcnt` sectors starting at block `blknr` into the buffer at
/// `buffer`, through the addressing mode the attached drive reports.
/// Returns `blkcnt`, or 0 the moment any chunk falls short.
pub fn ahci_sata_read_common(
    dev: &mut ahci_device,
    bus: &mut MmioBus,
    blknr: u64,
    blkcnt: u32,
    buffer: u64,
) -> (r: u64)
    requires
        cmd_ready(*old(dev), *old(bus)),
        port_cmd_model(*old(bus), old(dev).port@[old(dev).port_idx as int].port_mmio),
        old(bus).reg(
            (old(dev).port@[old(dev).port_idx as int].port_mmio + PORT_CMD_ISSUE) as u64,
        ) == 0,
        !old(dev).blk_dev.lba48 ==> blknr + blkcnt <= u32::MAX,
        blknr + blkcnt <= u64::MAX,
        buffer + 512 * blkcnt <= u64::MAX,
    ensures
        cmd_ready(*final(dev), *final(bus)),
        final(bus).same_rules(*old(bus)),
        dev_same_but_cmd(*old(dev), *final(dev)),
        ({
            let pm = old(dev).port@[old(dev).port_idx as int].port_mmio;
            let issue_addr = (pm + PORT_CMD_ISSUE) as u64;
            let fises = if old(dev).blk_dev.lba48 {
                spec_rw48_cmds(blknr, blkcnt, buffer, READ_CMD)
            } else {
                spec_rw28_cmds(blknr as u32, blkcnt, buffer, READ_CMD)
            };
            let n = fises.len();
            &&& forall|a: u64|
                old(bus).in_window(a) && a != issue_addr ==> final(bus).reg(a) == old(bus).reg(a)
            &&& if old(bus).sc_fuel >= n {
                &&& r == blkcnt
                &&& final(dev).issued@ == old(dev).issued@ + fises
                &&& final(bus).sc_fuel == old(bus).sc_fuel - n
                &&& final(bus).reg(issue_addr) == 0
            } else {
                &&& r == 0
                &&& final(dev).issued@ == old(dev).issued@ + fises.take(old(bus).sc_fuel + 1)
                &&& final(bus).sc_fuel == 0
                &&& final(bus).reg(issue_addr) == 1
            }
        }),
{
    let rc: u32;
    if dev.blk_dev.lba48 {
        rc = ata_low_level_rw_lba48(dev, bus, blknr, blkcnt, buffer, READ_CMD);
    } else {
        rc = ata_low_level_rw_lba28(dev, bus, blknr, blkcnt, buffer, READ_CMD);
    }
    rc as u64
}

/// Write `blkcnt` sectors starting at block `blknr` from the buffer at
/// `buffer`.  When the drive advertises an enabled write cache together with
/// the flush capability matching its addressing mode, exactly one flush
/// command follows the data transfer; with either capability missing, none
/// does.
pub fn ahci_sata_write_common(
    dev: &mut ahci_device,
    bus: &mut MmioBus,
    blknr: u64,
    blkcnt: u32,
    buffer: u64,
) -> (r: u64)
    requires
        cmd_ready(*old(dev), *old(bus)),
        port_cmd_model(*old(bus), old(dev).port@[old(dev).port_idx as int].port_mmio),
        old(bus).reg(
            (old(dev).port@[old(dev).port_idx as int].port_mmio + PORT_CMD_ISSUE) as u64,
        ) == 0,
        !old(dev).blk_dev.lba48 ==> blknr + blkcnt <= u32::MAX,
        blknr + blkcnt <= u64::MAX,
        buffer + 512 * blkcnt <= u64::MAX,
    ensures
        cmd_ready(*final(dev), *final(bus)),
        final(bus).same_rules(*old(bus)),
        dev_same_but_cmd(*old(dev), *final(dev)),
        ({
            let pm = old(dev).port@[old(dev).port_idx as int].port_mmio;
            let issue_addr = (pm + PORT_CMD_ISSUE) as u64;
            let flags = old(dev).flags;
            let lba48 = old(dev).blk_dev.lba48;
            let fises = if lba48 {
                spec_rw48_cmds(blknr, blkcnt, buffer, WRITE_CMD)
            } else {
                spec_rw28_cmds(blknr as u32, blkcnt, buffer, WRITE_CMD)
            };
            let wants_flush = flags & SATA_FLAG_WCACHE != 0 && flags & (if lba48 {
                SATA_FLAG_FLUSH_EXT
            } else {
                SATA_FLAG_FLUSH
            }) != 0;
            let ffis = if lba48 {
                spec_fis_flush_ext()
            } else {
                spec_fis_flush()
            };
            let fcmd = ata_cmd { fis: ffis, buf: 0, buf_len: 0 };
            let tail = if wants_flush {
                seq![fcmd]
            } else {
                Seq::<ata_cmd>::empty()
            };
            let n = fises.len();
            &&& forall|a: u64|
                old(bus).in_window(a) && a != issue_addr ==> final(bus).reg(a) == old(bus).reg(a)
            &&& (wants_flush ==> final(dev).port@[old(dev).port_idx as int].cmd_fis == ffis)
            &&& (wants_flush ==> final(dev).issued@.len() > 0 && final(dev).issued@.last()
                == fcmd)
            &&& if old(bus).sc_fuel >= n {
                &&& r == blkcnt
                &&& final(dev).issued@ == old(dev).issued@ + fises + tail
                &&& final(bus).sc_fuel == (if wants_flush {
                    if old(bus).sc_fuel - n > 0 {
                        (old(bus).sc_fuel - n - 1) as u32
                    } else {
                        0u32
                    }
                } else {
                    (old(bus).sc_fuel - n) as u32
                })
            } else {
                &&& r == 0
                &&& final(dev).issued@ == old(dev).issued@ + fises.take(old(bus).sc_fuel + 1)
                    + tail
                &&& final(bus).sc_fuel == 0
            }
        }),
{
    let flags: u32 = dev.flags;
    let rc: u32;

    let ghost pm = old(dev).port@[old(dev).port_idx as int].port_mmio;
    let ghost issue_addr = (pm + PORT_CMD_ISSUE) as u64;
    let ghost fuel0 = bus.sc_fuel;

    proof {
        lemma_issue_consts();
        assert(spec_cmd_slot(1u32) == 1);
    }

    if dev.blk_dev.lba48 {
        rc = ata_low_level_rw_lba48(dev, bus, blknr, blkcnt, buffer, WRITE_CMD);
        let ghost fises = spec_rw48_cmds(blknr, blkcnt, buffer, WRITE_CMD);
        let ghost fcmd = ata_cmd { fis: spec_fis_flush_ext(), buf: 0, buf_len: 0 };
        if flags & SATA_FLAG_WCACHE != 0 && flags & SATA_FLAG_FLUSH_EXT != 0 {
            let ghost mid = dev.issued@;
            ahci_sata_flush_cache_ext(dev, bus);
            proof {
                assert(dev.issued@ == mid.push(fcmd));
                if fuel0 >= fises.len() {
                    assert(dev.issued@ =~= old(dev).issued@ + fises + seq![fcmd]);
                } else {
                    assert(dev.issued@ =~= old(dev).issued@ + fises.take(fuel0 + 1) + seq![fcmd]);
                }
            }
        } else {
            proof {
                if fuel0 >= fises.len() {
                    assert(dev.issued@ =~= old(dev).issued@ + fises + Seq::<ata_cmd>::empty());
                } else {
                    assert(dev.issued@ =~= old(dev).issued@ + fises.take(fuel0 + 1)
                        + Seq::<ata_cmd>::empty());
                }
            }
        }
    } else {
        rc = ata_low_level_rw_lba28(dev, bus, blknr, blkcnt, buffer, WRITE_CMD);
        let ghost fises = spec_rw28_cmds(blknr as u32, blkcnt, buffer, WRITE_CMD);
        let ghost fcmd = ata_cmd { fis: spec_fis_flush(), buf: 0, buf_len: 0 };
        if flags & SATA_FLAG_WCACHE != 0 && flags & SATA_FLAG_FLUSH != 0 {
            let ghost mid = dev.issued@;
            ahci_sata_flush_cache(dev, bus);
            proof {
                assert(dev.issued@ == mid.push(fcmd));
                if fuel0 >= fises.len() {
                    assert(dev.issued@ =~= old(dev).issued@ + fises + seq![fcmd]);
                } else {
                    assert(dev.issued@ =~= old(dev).issued@ + fises.take(fuel0 + 1) + seq![fcmd]);
                }
            }
        } else {
            proof {
                if fuel0 >= fises.len() {
                    assert(dev.issued@ =~= old(dev).issued@ + fises + Seq::<ata_cmd>::empty());
                } else {
                    assert(dev.issued@ =~= old(dev).issued@ + fises.take(fuel0 + 1)
                        + Seq::<ata_cmd>::empty());
                }
            }
        }
    }

    rc as u64
}

/// A register that ignores no write and has no self-clearing bits: plain
/// storage.
pub open spec fn plain_reg(bus: MmioBus, addr: u64) -> bool {
    &&& !bus.is_ro(addr)
    &&& bus.sc_mask_of(addr) == 0
    &&& bus.stuck_mask_of(addr) == 0
}

/// Writes to a register without self-clearing bits never consume the
/// acknowledgment budget.
pub proof fn lemma_and_zero()
    by (bit_vector)
    ensures
        forall|x: u32| #[trigger] (0u32 & x) == 0,
{
}

/// Bit facts over arbitrary register values used by the initialisation
/// paths.
pub proof fn lemma_host_bits(x: u32)
    by (bit_vector)
    ensures
        0u32 & x == 0,
        (x | 1u32) & 1u32 != 0,
        1u32 & (x | 1u32) != 0,
        (x | 1u32) & !1u32 == x & !1u32,
        (x & !1u32) & 1u32 == 0,
        1u32 & (x & !1u32) == 0,
        ((x & !1u32) | 0x80000000u32) & 1u32 == 0,
        1u32 & ((x & !1u32) | 0x80000000u32) == 0,
        (((x & !1u32) | 0x80000000u32) | 2u32) & 1u32 == 0,
        1u32 & (((x & !1u32) | 0x80000000u32) | 2u32) == 0,
        (x | 2u32) & 2u32 != 0,
        x & 0x1fu32 < 32,
{
}

/// Start one port: check the strict link state, lay out the port's DMA
/// region from the platform allocator, program the region's addresses,
/// request the active state with FIS receive and start, and wait for the
/// task-file to go idle.
#[verifier::loop_isolation(false)]
pub fn ahci_port_start(dev: &mut ahci_device, bus: &mut MmioBus, mem: &mut PlatMem, port: u8) -> (r:
    i32)
    requires
        old(dev).ports_wf(),
        port < 32,
        win_range(*old(bus), old(dev).port@[port as int].port_mmio, 0x40),
        ({
            let pm = old(dev).port@[port as int].port_mmio;
            &&& plain_reg(*old(bus), (pm + PORT_LST_ADDR) as u64)
            &&& plain_reg(*old(bus), (pm + PORT_LST_ADDR_HI) as u64)
            &&& plain_reg(*old(bus), (pm + PORT_FIS_ADDR) as u64)
            &&& plain_reg(*old(bus), (pm + PORT_FIS_ADDR_HI) as u64)
            &&& !old(bus).is_ro((pm + PORT_CMD) as u64)
            &&& old(bus).sc_mask_of((pm + PORT_CMD) as u64) == 0
        }),
        old(mem).next >= 1,
        old(mem).next + 1024 + AHCI_PORT_PRIV_DMA_SZ <= u64::MAX,
    ensures
        final(dev).ports_wf(),
        final(bus).same_rules(*old(bus)),
        final(bus).sc_fuel == old(bus).sc_fuel,
        dev_same_but_cmd(*old(dev), *final(dev)),
        final(dev).issued@ == old(dev).issued@,
        ({
            let pm = old(dev).port@[port as int].port_mmio;
            let link = old(bus).reg((pm + PORT_SCR_STAT) as u64) & 0xf;
            let tf = old(bus).reg((pm + PORT_TFDATA) as u64) & (ATA_ERR as u32 | ATA_DRQ as u32
                | ATA_BUSY as u32);
            if link != 3 {
                &&& r == -1
                &&& bus_eq(*old(bus), *final(bus))
                &&& final(dev).port@ == old(dev).port@
                &&& final(mem).next == old(mem).next
            } else {
                let base = spec_align_up(old(mem).next, 1024) as u64;
                let pp1 = final(dev).port@[port as int];
                &&& r == (if tf == 0 {
                    0
                } else {
                    -1i32
                })
                &&& final(mem).next == base + AHCI_PORT_PRIV_DMA_SZ
                &&& pp1.port_mmio == pm
                &&& pp1.cmd_slot_dma == base
                &&& pp1.rx_fis == base + AHCI_CMD_SLOT_SZ
                &&& pp1.rx_fis_dma == base + AHCI_CMD_SLOT_SZ
                &&& pp1.cmd_tbl == base + AHCI_CMD_SLOT_SZ + AHCI_RX_FIS_SZ
                &&& pp1.cmd_tbl_dma == base + AHCI_CMD_SLOT_SZ + AHCI_RX_FIS_SZ
                &&& pp1.is_started()
                &&& forall|k: int|
                    0 <= k < AHCI_MAX_CMDS ==> pp1.cmd_slots@[k] == (ahci_cmd_hdr {
                        opts: 0,
                        status: 0,
                        tbl_addr_lo: 0,
                        tbl_addr_hi: 0,
                        reserved: [0, 0, 0, 0],
                    })
                &&& forall|k: int|
                    0 <= k < AHCI_MAX_SG ==> pp1.sg_list@[k] == (ahci_sg {
                        addr_lo: 0,
                        addr_hi: 0,
                        reserved: 0,
                        flags_size: 0,
                    })
                &&& pp1.cmd_fis == spec_fis_zero()
                &&& forall|j: int|
                    0 <= j < old(dev).port@.len() && j != port ==> final(dev).port@[j] == old(
                        dev,
                    ).port@[j]
                &&& final(bus).reg((pm + PORT_LST_ADDR) as u64) == (base & 0xffffffff) as u32
                &&& final(bus).reg((pm + PORT_LST_ADDR_HI) as u64) == (base >> 32) as u32
                &&& final(bus).reg((pm + PORT_FIS_ADDR) as u64) == (((base + AHCI_CMD_SLOT_SZ)
                    as u64) & 0xffffffff) as u32
                &&& final(bus).reg((pm + PORT_FIS_ADDR_HI) as u64) == (((base + AHCI_CMD_SLOT_SZ)
                    as u64) >> 32) as u32
                &&& final(bus).reg((pm + PORT_CMD) as u64) == old(bus).stored_of(
                    PORT_CMD_ICC_ACTIVE | PORT_CMD_FIS_RX | PORT_CMD_POWER_ON | PORT_CMD_SPIN_UP
                        | PORT_CMD_START,
                    (pm + PORT_CMD) as u64,
                )
                &&& forall|a: u64|
                    ({
                        &&& old(bus).in_window(a)
                        &&& a != (pm + PORT_LST_ADDR) as u64
                        &&& a != (pm + PORT_LST_ADDR_HI) as u64
                        &&& a != (pm + PORT_FIS_ADDR) as u64
                        &&& a != (pm + PORT_FIS_ADDR_HI) as u64
                        &&& a != (pm + PORT_CMD) as u64
                    }) ==> final(bus).reg(a) == old(bus).reg(a)
            }
        }),
{
    let pm: u64 = dev.port[port as usize].port_mmio;
    proof {
        lemma_in_win(*bus, pm, 0x40, PORT_SCR_STAT);
        lemma_in_win(*bus, pm, 0x40, PORT_LST_ADDR);
        lemma_in_win(*bus, pm, 0x40, PORT_LST_ADDR_HI);
        lemma_in_win(*bus, pm, 0x40, PORT_FIS_ADDR);
        lemma_in_win(*bus, pm, 0x40, PORT_FIS_ADDR_HI);
        lemma_in_win(*bus, pm, 0x40, PORT_CMD);
        lemma_in_win(*bus, pm, 0x40, PORT_TFDATA);
        lemma_and_zero();
    }

    let port_status: u32 = ahci_readl(bus, pm + PORT_SCR_STAT);
    if (port_status & 0xf) != 0x3 {
        return -1;
    }

    // one zeroed, 1024-byte-aligned region holds the command-slot array,
    // the receive-FIS buffer and the command table, in that order
    let mut region: u64 = ahci_malloc_align(mem, AHCI_PORT_PRIV_DMA_SZ as u64, 1024);

    let pp = &mut dev.port[port as usize];
    pp.cmd_slots = zero_cmd_slots();
    pp.sg_list = zero_sg_list();
    pp.cmd_fis = sata_fis_h2d {
        fis_type: 0,
        pm_port_c: 0,
        command: 0,
        features: 0,
        lba_low: 0,
        lba_mid: 0,
        lba_high: 0,
        device: 0,
        lba_low_exp: 0,
        lba_mid_exp: 0,
        lba_high_exp: 0,
        features_exp: 0,
        sector_count: 0,
        sector_count_exp: 0,
        res1: 0,
        control: 0,
        res2: [0, 0, 0, 0],
    };

    pp.cmd_slot_dma = ahci_virt_to_phys(region);
    region += AHCI_CMD_SLOT_SZ as u64;

    pp.rx_fis = region;
    pp.rx_fis_dma = ahci_virt_to_phys(region);
    region += AHCI_RX_FIS_SZ as u64;

    pp.cmd_tbl = region;
    pp.cmd_tbl_dma = ahci_virt_to_phys(region);

    let cmd_slot_dma: u64 = pp.cmd_slot_dma;
    let rx_fis_dma: u64 = pp.rx_fis_dma;

    ahci_writel(bus, #[verifier::truncate] ((cmd_slot_dma & 0xffffffff) as u32), pm + PORT_LST_ADDR);
    ahci_writel(bus, #[verifier::truncate] ((cmd_slot_dma >> 32) as u32), pm + PORT_LST_ADDR_HI);
    ahci_writel(bus, #[verifier::truncate] ((rx_fis_dma & 0xffffffff) as u32), pm + PORT_FIS_ADDR);
    ahci_writel(bus, #[verifier::truncate] ((rx_fis_dma >> 32) as u32), pm + PORT_FIS_ADDR_HI);

    proof {
        lemma_rules_transfer(*bus, *old(bus), (pm + PORT_CMD) as u64);
        lemma_stored_transfer(
            *bus,
            *old(bus),
            PORT_CMD_ICC_ACTIVE | PORT_CMD_FIS_RX | PORT_CMD_POWER_ON | PORT_CMD_SPIN_UP
                | PORT_CMD_START,
            (pm + PORT_CMD) as u64,
        );
    }
    ahci_writel(
        bus,
        PORT_CMD_ICC_ACTIVE | PORT_CMD_FIS_RX | PORT_CMD_POWER_ON | PORT_CMD_SPIN_UP
            | PORT_CMD_START,
        pm + PORT_CMD,
    );

    let mut timeout: u32 = 200;
    let mut tmp: u32 = ahci_readl(bus, pm + PORT_TFDATA) & (ATA_ERR as u32 | ATA_DRQ as u32
        | ATA_BUSY as u32);
    while tmp != 0 && timeout > 0
        invariant
            tmp == bus.reg((pm + PORT_TFDATA) as u64) & (ATA_ERR as u32 | ATA_DRQ as u32
                | ATA_BUSY as u32),
            timeout <= 200,
        decreases timeout,
    {
        ahci_mdelay(1);
        tmp = ahci_readl(bus, pm + PORT_TFDATA) & (ATA_ERR as u32 | ATA_DRQ as u32 | ATA_BUSY
            as u32);
        timeout -= 1;
    }

    if tmp != 0 {
        return -1;
    }
    0
}

fn zero_cmd_slots() -> (r: Vec<ahci_cmd_hdr>)
    ensures
        r@.len() == AHCI_MAX_CMDS,
        forall|k: int|
            0 <= k < AHCI_MAX_CMDS ==> r@[k] == (ahci_cmd_hdr {
                opts: 0,
                status: 0,
                tbl_addr_lo: 0,
                tbl_addr_hi: 0,
                reserved: [0, 0, 0, 0],
            }),
{
    let mut v: Vec<ahci_cmd_hdr> = Vec::new();
    while v.len() < 32
        invariant
            v@.len() <= 32,
            forall|k: int|
                0 <= k < v@.len() ==> v@[k] == (ahci_cmd_hdr {
                    opts: 0,
                    status: 0,
                    tbl_addr_lo: 0,
                    tbl_addr_hi: 0,
                    reserved: [0, 0, 0, 0],
                }),
        decreases 32 - v@.len(),
    {
        v.push(
            ahci_cmd_hdr {
                opts: 0,
                status: 0,
                tbl_addr_lo: 0,
                tbl_addr_hi: 0,
                reserved: [0, 0, 0, 0],
            },
        );
    }
    v
}

fn zero_sg_list() -> (r: Vec<ahci_sg>)
    ensures
        r@.len() == AHCI_MAX_SG,
        forall|k: int|
            0 <= k < AHCI_MAX_SG ==> r@[k] == (ahci_sg {
                addr_lo: 0,
                addr_hi: 0,
                reserved: 0,
                flags_size: 0,
            }),
{
    let mut v: Vec<ahci_sg> = Vec::new();
    while v.len() < 56
        invariant
            v@.len() <= 56,
            forall|k: int|
                0 <= k < v@.len() ==> v@[k] == (ahci_sg {
                    addr_lo: 0,
                    addr_hi: 0,
                    reserved: 0,
                    flags_size: 0,
                }),
        decreases 56 - v@.len(),
    {
        v.push(ahci_sg { addr_lo: 0, addr_hi: 0, reserved: 0, flags_size: 0 });
    }
    v
}

/// Byte address of the register at offset `off` of port `p` below `base`.
pub open spec fn spec_port_reg(base: u64, p: int, off: u64) -> u64 {
    (base + 0x100 + p * 0x80 + off) as u64
}

/// `a` is the command-issue register of one of the 32 ports below `base`.
pub open spec fn spec_issue_reg(base: u64, a: u64) -> bool {
    &&& base + 0x100 + 0x38 <= a
    &&& a < base + 0x1100
    &&& (a - base - 0x138) % 0x80 == 0
}

/// The issue register of port `j` is in the issue-register set.
pub proof fn lemma_is_issue_reg(base: u64, j: int)
    requires
        0 <= j < 32,
        base + 0x1100 <= u64::MAX,
    ensures
        spec_issue_reg(base, spec_port_reg(base, j, PORT_CMD_ISSUE)),
{
    lemma_mod_multiples_vanish(j, 0, 0x80);
}

/// No other port register is in the issue-register set.
pub proof fn lemma_not_issue_reg(base: u64, j: int, off: u64)
    requires
        0 <= j < 32,
        off < 0x80,
        off != 0x38,
        base + 0x1100 <= u64::MAX,
    ensures
        !spec_issue_reg(base, spec_port_reg(base, j, off)),
{
    let a = spec_port_reg(base, j, off) as int;
    let d = off - 0x38;
    if base + 0x100 + 0x38 <= a && a < base + 0x1100 {
        lemma_mod_multiples_vanish(j, d, 0x80);
        assert((a - base - 0x138) % 0x80 == d % 0x80);
    }
}

/// `a` is the command/status register of one of the 32 ports below `base`.
pub open spec fn spec_port_cmd_reg(base: u64, a: u64) -> bool {
    &&& base + 0x100 + 0x18 <= a
    &&& a < base + 0x1100
    &&& (a - base - 0x118) % 0x80 == 0
}

/// No other port register is in the port-command set.
pub proof fn lemma_not_port_cmd_reg(base: u64, j: int, off: u64)
    requires
        0 <= j < 32,
        off < 0x80,
        off != 0x18,
        base + 0x1100 <= u64::MAX,
    ensures
        !spec_port_cmd_reg(base, spec_port_reg(base, j, off)),
{
    let a = spec_port_reg(base, j, off) as int;
    let d = off - 0x18;
    if base + 0x100 + 0x18 <= a && a < base + 0x1100 {
        lemma_mod_multiples_vanish(j, d, 0x80);
        assert((a - base - 0x118) % 0x80 == d % 0x80);
    }
}

/// No host register is in the port-command set.
pub proof fn lemma_host_not_port_cmd(base: u64, off: u64)
    requires
        off < 0x100,
        base + 0x1100 <= u64::MAX,
    ensures
        !spec_port_cmd_reg(base, (base + off) as u64),
{
}

/// No host register is in the issue-register set.
pub proof fn lemma_host_not_issue(base: u64, off: u64)
    requires
        off < 0x100,
        base + 0x1100 <= u64::MAX,
    ensures
        !spec_issue_reg(base, (base + off) as u64),
{
}

/// Under the canonical controller model, every register other than the
/// global control, capability and ports-implemented registers and the
/// command-issue registers is plain storage.
pub proof fn lemma_host_model_plain(bus: MmioBus, base: u64, addr: u64)
    requires
        host_model(bus, base),
        bus.in_window(addr),
        addr != (base + HOST_CTL) as u64,
        addr != (base + HOST_CAP) as u64,
        addr != (base + HOST_PORTS_IMPL) as u64,
        !spec_issue_reg(base, addr),
        !spec_port_cmd_reg(base, addr),
    ensures
        plain_reg(bus, addr),
{
    assert(!bus.is_ro(addr));
    assert(bus.sc_mask_of(addr) == 0);
    assert(bus.stuck_mask_of(addr) == 0);
}

/// Under the canonical controller model, a port's command/status register
/// is writable and has no self-clearing bits; only its stuck-at-zero mask
/// is left open, the model's image of a port whose requests the device
/// never honours.
pub proof fn lemma_host_model_cmd(bus: MmioBus, base: u64, j: int)
    requires
        host_model(bus, base),
        0 <= j < 32,
    ensures
        !bus.is_ro(spec_port_reg(base, j, PORT_CMD)),
        bus.sc_mask_of(spec_port_reg(base, j, PORT_CMD)) == 0,
        bus.in_window(spec_port_reg(base, j, PORT_CMD)),
{
    lemma_port_win(bus, base, j as u8);
    lemma_in_win(bus, (base + 0x100 + (j as u64) * 0x80) as u64, 0x40, PORT_CMD);
    assert(spec_port_reg(base, j, PORT_CMD) == (base + 0x100 + (j as u64) * 0x80) + PORT_CMD);
    lemma_not_issue_reg(base, j, PORT_CMD);
    assert(!bus.is_ro(spec_port_reg(base, j, PORT_CMD)));
    assert(bus.sc_mask_of(spec_port_reg(base, j, PORT_CMD)) == 0);
}

/// Window bounds and behaviour rules transfer between bus states that agree
/// on them.
pub proof fn lemma_rules_transfer(a: MmioBus, b: MmioBus, addr: u64)
    requires
        a.same_rules(b),
    ensures
        a.is_ro(addr) == b.is_ro(addr),
        a.sc_mask_of(addr) == b.sc_mask_of(addr),
        a.stuck_mask_of(addr) == b.stuck_mask_of(addr),
        a.in_window(addr) == b.in_window(addr),
{
    assert(a.is_ro(addr) == b.is_ro(addr));
    assert(a.sc_mask_of(addr) == b.sc_mask_of(addr));
    assert(a.stuck_mask_of(addr) == b.stuck_mask_of(addr));
}

/// What a write stores is the same in any bus state with the same rules,
/// for a register without self-clearing bits.
pub proof fn lemma_stored_transfer(a: MmioBus, b: MmioBus, data: u32, addr: u64)
    requires
        a.same_rules(b),
        !a.is_ro(addr),
        a.sc_mask_of(addr) == 0,
    ensures
        a.stored_of(data, addr) == b.stored_of(data, addr),
{
    lemma_rules_transfer(a, b, addr);
    lemma_and_zero();
}

/// The canonical hardware model of the whole controller window: the global
/// control register is writable and the device clears the reset request on
/// its own; the capability and ports-implemented registers were programmed by
/// firmware and have become read-only; the per-port command-issue registers
/// self-clear on acknowledgment; every other register is plain storage.
pub open spec fn host_model(bus: MmioBus, base: u64) -> bool {
    &&& win_range(bus, base, 0x1100)
    &&& !bus.is_ro((base + HOST_CTL) as u64)
    &&& bus.sc_mask_of((base + HOST_CTL) as u64) == HOST_RESET
    &&& bus.is_ro((base + HOST_CAP) as u64)
    &&& bus.is_ro((base + HOST_PORTS_IMPL) as u64)
    &&& (forall|a: u64|
        bus.in_window(a) && a != (base + HOST_CTL) as u64 && a != (base + HOST_CAP) as u64 && a
            != (base + HOST_PORTS_IMPL) as u64 && !spec_issue_reg(base, a) ==> !(#[trigger] bus.is_ro(
            a,
        )))
    &&& (forall|a: u64|
        bus.in_window(a) && a != (base + HOST_CTL) as u64 && !spec_issue_reg(base, a)
            ==> #[trigger] bus.sc_mask_of(a) == 0)
    &&& (forall|a: u64|
        #[trigger] spec_issue_reg(base, a) && bus.in_window(a) ==> !bus.is_ro(a)
            && bus.sc_mask_of(a) == 0xffffffffu32)
    &&& (forall|a: u64|
        bus.in_window(a) && !spec_port_cmd_reg(base, a) ==> #[trigger] bus.stuck_mask_of(a) == 0)
}

/// The link-up bitmap over the first `n` ports: bit `j` set exactly when
/// port `j`'s SATA status reads device present with communication
/// established.
pub open spec fn spec_linkup_map(bus: MmioBus, base: u64, n: int) -> u32
    decreases n,
{
    if n <= 0 {
        0u32
    } else {
        let prev = spec_linkup_map(bus, base, n - 1);
        if bus.reg(spec_port_reg(base, n - 1, PORT_SCR_STAT)) & 0xf == 3 {
            prev | (1u32 << ((n - 1) as u32))
        } else {
            prev
        }
    }
}

/// The port command register after initialisation: start cleared first if
/// any engine bit was on, then spin-up requested; what sticks is what the
/// device lets stick.
pub open spec fn spec_port_cmd_after(bus: MmioBus, base: u64, j: int) -> u32 {
    let a = spec_port_reg(base, j, PORT_CMD);
    let c = bus.reg(a);
    if c & (PORT_CMD_LIST_ON | PORT_CMD_FIS_ON | PORT_CMD_FIS_RX | PORT_CMD_START) != 0 {
        bus.stored_of(bus.stored_of(c & !PORT_CMD_START, a) | PORT_CMD_SPIN_UP, a)
    } else {
        bus.stored_of(c | PORT_CMD_SPIN_UP, a)
    }
}

/// The spin-up request of port `j` reads back: the device honours it.
pub open spec fn spec_spinup_ok(bus: MmioBus, base: u64, j: int) -> bool {
    spec_port_cmd_after(bus, base, j) & PORT_CMD_SPIN_UP != 0
}

/// Bring the controller up: reset it, enable AHCI mode, read back the
/// capabilities, then for each discovered port stop a running command
/// engine, request spin-up, wait for link training, clear pending error and
/// interrupt state, program the interrupt mask and record link-up; finally
/// set the global interrupt enable.  Fails when the reset request never
/// clears.
#[verifier::loop_isolation(false)]
#[verifier::rlimit(60)]
#[verifier::spinoff_prover]
pub fn ahci_host_init(dev: &mut ahci_device, bus: &mut MmioBus) -> (r: i32)
    requires
        old(dev).ports_wf(),
        old(dev).port_map_linkup == 0,
        host_model(*old(bus), old(dev).mmio_base),
    ensures
        final(dev).ports_wf(),
        final(bus).same_rules(*old(bus)),
        final(dev).mmio_base == old(dev).mmio_base,
        final(dev).flags == old(dev).flags,
        final(dev).port_idx == old(dev).port_idx,
        final(dev).pio_mask == old(dev).pio_mask,
        final(dev).udma_mask == old(dev).udma_mask,
        blk_dev_eq(old(dev).blk_dev, final(dev).blk_dev),
        final(dev).issued@ == old(dev).issued@,
        ({
            let base = old(dev).mmio_base;
            let ctl0 = old(bus).reg((base + HOST_CTL) as u64);
            if ctl0 & HOST_RESET != 0 || old(bus).sc_fuel == 0 {
                &&& r == -1
                &&& final(dev).port@ == old(dev).port@
                &&& final(dev).cap == old(dev).cap
                &&& final(dev).n_ports == old(dev).n_ports
                &&& final(dev).port_map == old(dev).port_map
                &&& final(dev).port_map_linkup == 0
                &&& final(bus).sc_fuel == old(bus).sc_fuel
                &&& (ctl0 & HOST_RESET != 0 ==> final(bus).words@ == old(bus).words@)
                &&& (ctl0 & HOST_RESET == 0 ==> final(bus).reg((base + HOST_CTL) as u64) == (ctl0
                    | HOST_RESET) && (forall|a: u64|
                    old(bus).in_window(a) && a != (base + HOST_CTL) as u64 ==> final(bus).reg(a)
                        == old(bus).reg(a)))
            } else {
                let cap0 = old(bus).reg((base + HOST_CAP) as u64);
                let n = ((cap0 & 0x1f) + 1) as int;
                let spin_all = forall|j: int|
                    0 <= j < n ==> #[trigger] spec_spinup_ok(*old(bus), base, j);
                &&& r == (if spin_all {
                    0
                } else {
                    -1i32
                })
                &&& final(bus).sc_fuel == old(bus).sc_fuel - 1
                &&& (spin_all ==> {
                &&& final(dev).cap == cap0
                &&& final(dev).cap2 == old(bus).reg((base + HOST_CAP2) as u64)
                &&& final(dev).version == old(bus).reg((base + HOST_VERSION) as u64)
                &&& final(dev).port_map == old(bus).reg((base + HOST_PORTS_IMPL) as u64)
                &&& final(dev).n_ports == n
                &&& (forall|j: int|
                    0 <= j < n ==> final(dev).port@[j] == (ahci_ioport {
                        port_mmio: spec_port_reg(base, j, 0),
                        ..old(dev).port@[j]
                    }))
                &&& (forall|j: int| n <= j < 32 ==> final(dev).port@[j] == old(dev).port@[j])
                &&& final(dev).port_map_linkup == spec_linkup_map(*old(bus), base, n)
                &&& final(bus).reg((base + HOST_CTL) as u64) == (((ctl0 & !HOST_RESET)
                    | HOST_AHCI_EN) | HOST_IRQ_EN)
                &&& (forall|j: int|
                    0 <= j < n ==> final(bus).reg(#[trigger] spec_port_reg(base, j, PORT_IRQ_MASK))
                        == DEF_PORT_IRQ)
                &&& (forall|j: int|
                    0 <= j < n ==> final(bus).reg(#[trigger] spec_port_reg(base, j, PORT_CMD))
                        == spec_port_cmd_after(*old(bus), base, j))
                &&& final(bus).reg((base + HOST_IRQ_STAT) as u64) == 1u32 << ((n - 1) as u32)
                &&& (forall|j: int|
                    0 <= j < 32 ==> final(bus).reg(#[trigger] spec_port_reg(base, j, PORT_SCR_STAT))
                        == old(bus).reg(spec_port_reg(base, j, PORT_SCR_STAT)))
                &&& (forall|j: int|
                    0 <= j < 32 ==> final(bus).reg(#[trigger] spec_port_reg(base, j, PORT_TFDATA))
                        == old(bus).reg(spec_port_reg(base, j, PORT_TFDATA)))
                &&& (forall|j: int|
                    0 <= j < 32 ==> final(bus).reg(
                        #[trigger] spec_port_reg(base, j, PORT_CMD_ISSUE),
                    ) == old(bus).reg(spec_port_reg(base, j, PORT_CMD_ISSUE)))
                &&& final(bus).reg((base + HOST_CAP) as u64) == old(bus).reg(
                    (base + HOST_CAP) as u64,
                )
                &&& final(bus).reg((base + HOST_CAP2) as u64) == old(bus).reg(
                    (base + HOST_CAP2) as u64,
                )
                &&& final(bus).reg((base + HOST_VERSION) as u64) == old(bus).reg(
                    (base + HOST_VERSION) as u64,
                )
                &&& final(bus).reg((base + HOST_PORTS_IMPL) as u64) == old(bus).reg(
                    (base + HOST_PORTS_IMPL) as u64,
                )
                })
            }
        }),
{
    let mut tmp: u32;
    let host_mmio: u64 = dev.mmio_base;

    proof {
        lemma_and_zero();
        lemma_in_win(*bus, host_mmio, 0x1100, HOST_CTL);
        lemma_in_win(*bus, host_mmio, 0x1100, HOST_CAP);
        lemma_in_win(*bus, host_mmio, 0x1100, HOST_CAP2);
        lemma_in_win(*bus, host_mmio, 0x1100, HOST_VERSION);
        lemma_in_win(*bus, host_mmio, 0x1100, HOST_PORTS_IMPL);
        lemma_in_win(*bus, host_mmio, 0x1100, HOST_IRQ_STAT);
    }

    // reset the controller, unless firmware already requested it
    tmp = ahci_readl(bus, host_mmio + HOST_CTL);
    let ghost ctl0: u32 = tmp;
    proof {
        lemma_host_bits(ctl0);
        lemma_host_not_port_cmd(host_mmio, HOST_CTL);
        assert(old(bus).stuck_mask_of((host_mmio + HOST_CTL) as u64) == 0);
    }
    if tmp & HOST_RESET == 0 {
        ahci_writel(bus, tmp | HOST_RESET, host_mmio + HOST_CTL);
    }

    // wait for the device to clear the reset request
    let mut timeout: u32 = 1000;
    let mut ctl: u32 = ahci_readl(bus, host_mmio + HOST_CTL);
    while ctl & HOST_RESET != 0 && timeout > 0
        invariant
            ctl == bus.reg((host_mmio + HOST_CTL) as u64),
            timeout <= 1000,
        decreases timeout,
    {
        ahci_mdelay(1);
        ctl = ahci_readl(bus, host_mmio + HOST_CTL);
        timeout -= 1;
    }
    if ctl & HOST_RESET != 0 {
        return -1;
    }

    // enable AHCI mode
    tmp = ahci_readl(bus, host_mmio + HOST_CTL);
    proof {
        lemma_rules_transfer(*bus, *old(bus), (host_mmio + HOST_CTL) as u64);
    }
    ahci_writel(bus, tmp | HOST_AHCI_EN, host_mmio + HOST_CTL);
    ahci_mdelay(1);

    // program the capability gates and the ports-implemented mask once;
    // firmware has made these read-only
    tmp = HOST_CAP_MPS | HOST_CAP_SSS;
    proof {
        lemma_rules_transfer(*bus, *old(bus), (host_mmio + HOST_CAP) as u64);
        lemma_rules_transfer(*bus, *old(bus), (host_mmio + HOST_PORTS_IMPL) as u64);
    }
    ahci_writel(bus, tmp, host_mmio + HOST_CAP);
    proof {
        lemma_rules_transfer(*bus, *old(bus), (host_mmio + HOST_PORTS_IMPL) as u64);
    }
    ahci_writel(bus, 0xf, host_mmio + HOST_PORTS_IMPL);
    ahci_readl(bus, host_mmio + HOST_PORTS_IMPL);

    // read back the controller description
    proof {
        lemma_host_not_issue(host_mmio, HOST_CAP);
        lemma_host_not_issue(host_mmio, HOST_PORTS_IMPL);
        lemma_host_not_issue(host_mmio, HOST_CTL);
        lemma_host_not_port_cmd(host_mmio, HOST_CAP);
        lemma_host_not_port_cmd(host_mmio, HOST_PORTS_IMPL);
    }
    dev.cap = ahci_readl(bus, host_mmio + HOST_CAP);
    dev.cap2 = ahci_readl(bus, host_mmio + HOST_CAP2);
    dev.version = ahci_readl(bus, host_mmio + HOST_VERSION);
    dev.port_map = ahci_readl(bus, host_mmio + HOST_PORTS_IMPL);
    proof {
        lemma_host_bits(dev.cap);
    }
    dev.n_ports = ((dev.cap & 0x1f) + 1) as u8;

    let ghost bus_r: MmioBus = *bus;
    let n_ports: u8 = dev.n_ports;

    let mut i: u8 = 0;
    while i < n_ports
        invariant
            i <= n_ports,
            dev.ports_wf(),
            dev.mmio_base == host_mmio,
            dev.flags == old(dev).flags,
            dev.port_idx == old(dev).port_idx,
            dev.pio_mask == old(dev).pio_mask,
            dev.udma_mask == old(dev).udma_mask,
            blk_dev_eq(old(dev).blk_dev, dev.blk_dev),
            dev.issued@ == old(dev).issued@,
            dev.cap == old(bus).reg((host_mmio + HOST_CAP) as u64),
            dev.cap2 == old(bus).reg((host_mmio + HOST_CAP2) as u64),
            dev.version == old(bus).reg((host_mmio + HOST_VERSION) as u64),
            dev.port_map == old(bus).reg((host_mmio + HOST_PORTS_IMPL) as u64),
            dev.n_ports == n_ports,
            n_ports == (dev.cap & 0x1f) + 1,
            n_ports <= 32,
            forall|j: int|
                0 <= j < i ==> dev.port@[j] == (ahci_ioport {
                    port_mmio: spec_port_reg(host_mmio, j, 0),
                    ..old(dev).port@[j]
                }),
            forall|j: int| i <= j < 32 ==> dev.port@[j] == old(dev).port@[j],
            dev.port_map_linkup == spec_linkup_map(*old(bus), host_mmio, i as int),
            bus.same_rules(*old(bus)),
            bus.sc_fuel == old(bus).sc_fuel - 1,
            bus.reg((host_mmio + HOST_CTL) as u64) == ((ctl0 & !HOST_RESET) | HOST_AHCI_EN),
            forall|j: int|
                0 <= j < i ==> bus.reg(#[trigger] spec_port_reg(host_mmio, j, PORT_IRQ_MASK))
                    == DEF_PORT_IRQ,
            forall|j: int|
                0 <= j < i ==> bus.reg(#[trigger] spec_port_reg(host_mmio, j, PORT_CMD))
                    == spec_port_cmd_after(*old(bus), host_mmio, j),
            forall|j: int| 0 <= j < i ==> #[trigger] spec_spinup_ok(*old(bus), host_mmio, j),
            i > 0 ==> bus.reg((host_mmio + HOST_IRQ_STAT) as u64) == 1u32 << ((i - 1) as u32),
            forall|j: int|
                0 <= j < 32 ==> bus.reg(#[trigger] spec_port_reg(host_mmio, j, PORT_SCR_STAT))
                    == old(bus).reg(spec_port_reg(host_mmio, j, PORT_SCR_STAT)),
            forall|j: int|
                0 <= j < 32 ==> bus.reg(#[trigger] spec_port_reg(host_mmio, j, PORT_TFDATA)) == old(
                    bus,
                ).reg(spec_port_reg(host_mmio, j, PORT_TFDATA)),
            forall|j: int|
                0 <= j < 32 ==> bus.reg(#[trigger] spec_port_reg(host_mmio, j, PORT_CMD_ISSUE))
                    == old(bus).reg(spec_port_reg(host_mmio, j, PORT_CMD_ISSUE)),
            forall|j: int|
                i <= j < 32 ==> bus.reg(#[trigger] spec_port_reg(host_mmio, j, PORT_CMD)) == old(
                    bus,
                ).reg(spec_port_reg(host_mmio, j, PORT_CMD)),
            bus.reg((host_mmio + HOST_CAP) as u64) == old(bus).reg((host_mmio + HOST_CAP) as u64),
            bus.reg((host_mmio + HOST_CAP2) as u64) == old(bus).reg((host_mmio + HOST_CAP2) as u64),
            bus.reg((host_mmio + HOST_VERSION) as u64) == old(bus).reg(
                (host_mmio + HOST_VERSION) as u64,
            ),
            bus.reg((host_mmio + HOST_PORTS_IMPL) as u64) == old(bus).reg(
                (host_mmio + HOST_PORTS_IMPL) as u64,
            ),
        decreases n_ports - i,
    {
        proof {
            lemma_port_win(*bus, host_mmio, i);
            let pmx = (host_mmio + 0x100 + (i as u64) * 0x80) as u64;
            lemma_in_win(*bus, pmx, 0x40, PORT_CMD);
            lemma_in_win(*bus, pmx, 0x40, PORT_SCR_STAT);
            lemma_in_win(*bus, pmx, 0x40, PORT_SCR_ERR);
            lemma_in_win(*bus, pmx, 0x40, PORT_IRQ_MASK);
        }
        let port_mmio: u64 = ahci_port_base(host_mmio, i);
        proof {
            lemma_host_bits(dev.cap);
            assert(port_mmio == spec_port_reg(host_mmio, i as int, 0));
            assert(port_mmio + PORT_CMD == spec_port_reg(host_mmio, i as int, PORT_CMD));
            assert(port_mmio + PORT_IRQ_MASK == spec_port_reg(host_mmio, i as int, PORT_IRQ_MASK));
            assert(port_mmio + PORT_SCR_STAT == spec_port_reg(host_mmio, i as int, PORT_SCR_STAT));
            assert(port_mmio + PORT_SCR_ERR == spec_port_reg(host_mmio, i as int, PORT_SCR_ERR));
            lemma_not_issue_reg(host_mmio, i as int, PORT_CMD);
            lemma_not_issue_reg(host_mmio, i as int, PORT_IRQ_MASK);
            lemma_not_issue_reg(host_mmio, i as int, PORT_SCR_ERR);
            lemma_host_not_issue(host_mmio, PORT_IRQ_STAT);
            lemma_host_not_issue(host_mmio, HOST_IRQ_STAT);
            lemma_not_port_cmd_reg(host_mmio, i as int, PORT_IRQ_MASK);
            lemma_not_port_cmd_reg(host_mmio, i as int, PORT_SCR_ERR);
            lemma_host_not_port_cmd(host_mmio, PORT_IRQ_STAT);
            lemma_host_not_port_cmd(host_mmio, HOST_IRQ_STAT);
            lemma_host_model_cmd(*old(bus), host_mmio, i as int);
            lemma_host_model_plain(*old(bus), host_mmio, (port_mmio + PORT_IRQ_MASK) as u64);
            lemma_host_model_plain(*old(bus), host_mmio, (port_mmio + PORT_SCR_ERR) as u64);
            lemma_host_model_plain(*old(bus), host_mmio, (host_mmio + PORT_IRQ_STAT) as u64);
            lemma_host_model_plain(*old(bus), host_mmio, (host_mmio + HOST_IRQ_STAT) as u64);
            lemma_rules_transfer(*bus, *old(bus), (port_mmio + PORT_CMD) as u64);
            lemma_rules_transfer(*bus, *old(bus), (port_mmio + PORT_IRQ_MASK) as u64);
            lemma_rules_transfer(*bus, *old(bus), (port_mmio + PORT_SCR_ERR) as u64);
            lemma_rules_transfer(*bus, *old(bus), (host_mmio + PORT_IRQ_STAT) as u64);
            lemma_rules_transfer(*bus, *old(bus), (host_mmio + HOST_IRQ_STAT) as u64);
        }
        dev.port[i as usize].port_mmio = port_mmio;

        // make sure the command engine of the port is idle
        tmp = ahci_readl(bus, port_mmio + PORT_CMD);
        if tmp & (PORT_CMD_LIST_ON | PORT_CMD_FIS_ON | PORT_CMD_FIS_RX | PORT_CMD_START) != 0 {
            tmp &= !PORT_CMD_START;
            proof {
                lemma_rules_transfer(*bus, *old(bus), (port_mmio + PORT_CMD) as u64);
                lemma_stored_transfer(*bus, *old(bus), tmp, (port_mmio + PORT_CMD) as u64);
            }
            ahci_writel(bus, tmp, port_mmio + PORT_CMD);
            ahci_mdelay(500);
            let mut stop_wait: u32 = 500;
            while ahci_readl(bus, port_mmio + PORT_CMD) & PORT_CMD_LIST_ON != 0 && stop_wait > 0
                invariant
                    stop_wait <= 500,
                    bus.in_window((port_mmio + PORT_CMD) as u64),
                decreases stop_wait,
            {
                ahci_mdelay(1);
                stop_wait -= 1;
            }
        }

        // request spin-up
        tmp = ahci_readl(bus, port_mmio + PORT_CMD);
        proof {
            lemma_rules_transfer(*bus, *old(bus), (port_mmio + PORT_CMD) as u64);
            lemma_stored_transfer(*bus, *old(bus), tmp | PORT_CMD_SPIN_UP, (port_mmio
                + PORT_CMD) as u64);
        }
        ahci_writel(bus, tmp | PORT_CMD_SPIN_UP, port_mmio + PORT_CMD);
        proof {
            assert(bus.reg((port_mmio + PORT_CMD) as u64) == spec_port_cmd_after(
                *old(bus),
                host_mmio,
                i as int,
            ));
        }

        // wait for the spin-up request to read back
        let mut spin_wait: u32 = 1000;
        let mut cmd_now: u32 = ahci_readl(bus, port_mmio + PORT_CMD);
        while cmd_now & PORT_CMD_SPIN_UP == 0 && spin_wait > 0
            invariant
                cmd_now == bus.reg((port_mmio + PORT_CMD) as u64),
                spin_wait <= 1000,
            decreases spin_wait,
        {
            ahci_mdelay(1);
            cmd_now = ahci_readl(bus, port_mmio + PORT_CMD);
            spin_wait -= 1;
        }
        if cmd_now & PORT_CMD_SPIN_UP == 0 {
            // the device never honoured the spin-up request: fatal
            proof {
                assert(!spec_spinup_ok(*old(bus), host_mmio, i as int));
            }
            return -1;
        }
        proof {
            assert(spec_spinup_ok(*old(bus), host_mmio, i as int));
        }

        // wait for the link to come up; a silent port is not fatal
        let mut link_wait: u32 = 1000;
        let mut link: u32 = ahci_readl(bus, port_mmio + PORT_SCR_STAT) & 0xf;
        while !(link == 0x3 || link == 0x1) && link_wait > 0
            invariant
                link == bus.reg((port_mmio + PORT_SCR_STAT) as u64) & 0xf,
                link_wait <= 1000,
            decreases link_wait,
        {
            ahci_mdelay(1);
            link = ahci_readl(bus, port_mmio + PORT_SCR_STAT) & 0xf;
            link_wait -= 1;
        }

        // clear pending SATA-layer errors
        tmp = ahci_readl(bus, port_mmio + PORT_SCR_ERR);
        proof {
            lemma_rules_transfer(*bus, *old(bus), (port_mmio + PORT_SCR_ERR) as u64);
        }
        ahci_writel(bus, tmp, port_mmio + PORT_SCR_ERR);

        // acknowledge pending interrupt events
        tmp = ahci_readl(bus, host_mmio + PORT_IRQ_STAT);
        proof {
            lemma_rules_transfer(*bus, *old(bus), (host_mmio + PORT_IRQ_STAT) as u64);
        }
        ahci_writel(bus, tmp, host_mmio + PORT_IRQ_STAT);

        proof {
            lemma_rules_transfer(*bus, *old(bus), (host_mmio + HOST_IRQ_STAT) as u64);
        }
        ahci_writel(bus, 1u32 << (i as u32), host_mmio + HOST_IRQ_STAT);

        // program the interrupt mask
        proof {
            lemma_rules_transfer(*bus, *old(bus), (port_mmio + PORT_IRQ_MASK) as u64);
        }
        ahci_writel(bus, DEF_PORT_IRQ, port_mmio + PORT_IRQ_MASK);

        // record link-up
        tmp = ahci_readl(bus, port_mmio + PORT_SCR_STAT);
        if tmp & 0xf == 0x3 {
            dev.port_map_linkup |= 1u32 << (i as u32);
        }

        i += 1;
    }

    // enable the global interrupt gate; nothing consumes interrupts here
    tmp = ahci_readl(bus, host_mmio + HOST_CTL);
    proof {
        lemma_rules_transfer(*bus, *old(bus), (host_mmio + HOST_CTL) as u64);
        lemma_host_bits(ctl0);
    }
    ahci_writel(bus, tmp | HOST_IRQ_EN, host_mmio + HOST_CTL);
    tmp = ahci_readl(bus, host_mmio + HOST_CTL);

    0
}

/// The first port at or after `j`, below `n`, whose link-up bit is set; `n`
/// when there is none.
pub open spec fn spec_scan_pick(linkmap: u32, n: int, j: int) -> int
    decreases n - j,
{
    if j >= n {
        n
    } else if (linkmap >> (j as u32)) & 1 != 0 {
        j
    } else {
        spec_scan_pick(linkmap, n, j + 1)
    }
}

proof fn lemma_pick_clear(m: u32, n: int, j: int)
    requires
        0 <= j <= n,
        spec_scan_pick(m, n, j) == n,
    ensures
        forall|k: int| j <= k < n ==> (#[trigger] (m >> (k as u32))) & 1 == 0,
    decreases n - j,
{
    if j < n {
        lemma_pick_clear(m, n, j + 1);
    }
}

proof fn lemma_or_bit_set(p: u32, k: u32)
    by (bit_vector)
    requires
        k < 32,
    ensures
        ((p | (1u32 << k)) >> k) & 1 == 1,
{
}

/// A link-up map whose bits are all clear is zero.
proof fn lemma_linkup_none(bus: MmioBus, base: u64, n: int)
    requires
        0 <= n <= 32,
        forall|j: int|
            0 <= j < n ==> (#[trigger] (spec_linkup_map(bus, base, n) >> (j as u32))) & 1 == 0,
    ensures
        spec_linkup_map(bus, base, n) == 0,
    decreases n,
{
    if n > 0 {
        let prev = spec_linkup_map(bus, base, n - 1);
        let m = spec_linkup_map(bus, base, n);
        if bus.reg(spec_port_reg(base, n - 1, PORT_SCR_STAT)) & 0xf == 3 {
            lemma_or_bit_set(prev, (n - 1) as u32);
            assert((m >> ((n - 1) as u32)) & 1 == 0);
            assert(false);
        } else {
            assert(m == prev);
            assert forall|j: int|
                0 <= j < n - 1 implies (#[trigger] (prev >> (j as u32))) & 1 == 0 by {
                assert((m >> (j as u32)) & 1 == 0);
            }
            lemma_linkup_none(bus, base, n - 1);
        }
    }
}


/// Scan the ports: start the first one whose link-up bit is recorded and
/// make it the active port.
#[verifier::loop_isolation(false)]
#[verifier::rlimit(60)]
#[verifier::spinoff_prover]
pub fn ahci_port_scan(dev: &mut ahci_device, bus: &mut MmioBus, mem: &mut PlatMem) -> (r: i32)
    requires
        old(dev).ports_wf(),
        old(dev).n_ports <= 32,
        host_model(*old(bus), old(dev).mmio_base),
        forall|j: int|
            0 <= j < old(dev).n_ports ==> (#[trigger] old(dev).port@[j]).port_mmio
                == spec_port_reg(old(dev).mmio_base, j, 0),
        old(mem).next >= 1,
        old(mem).next + 1024 + AHCI_PORT_PRIV_DMA_SZ <= u64::MAX,
    ensures
        final(dev).ports_wf(),
        final(bus).same_rules(*old(bus)),
        final(bus).sc_fuel == old(bus).sc_fuel,
        final(dev).flags == old(dev).flags,
        final(dev).cap == old(dev).cap,
        final(dev).cap2 == old(dev).cap2,
        final(dev).version == old(dev).version,
        final(dev).port_map == old(dev).port_map,
        final(dev).pio_mask == old(dev).pio_mask,
        final(dev).udma_mask == old(dev).udma_mask,
        blk_dev_eq(old(dev).blk_dev, final(dev).blk_dev),
        final(dev).issued@ == old(dev).issued@,
        final(dev).n_ports == old(dev).n_ports,
        final(dev).port_map_linkup == old(dev).port_map_linkup,
        final(dev).mmio_base == old(dev).mmio_base,
        ({
            let base = old(dev).mmio_base;
            let linkmap = old(dev).port_map_linkup;
            let n = old(dev).n_ports as int;
            let pick = spec_scan_pick(linkmap, n, 0);
            if linkmap == 0 {
                &&& r == -1
                &&& bus_eq(*old(bus), *final(bus))
                &&& final(dev).port@ == old(dev).port@
                &&& final(dev).port_idx == old(dev).port_idx
                &&& final(mem).next == old(mem).next
            } else if pick == n {
                &&& r == 0
                &&& bus_eq(*old(bus), *final(bus))
                &&& final(dev).port@ == old(dev).port@
                &&& final(dev).port_idx == old(dev).port_idx
                &&& final(mem).next == old(mem).next
            } else {
                let pm = spec_port_reg(base, pick, 0);
                let link = old(bus).reg((pm + PORT_SCR_STAT) as u64) & 0xf;
                let tf = old(bus).reg((pm + PORT_TFDATA) as u64) & (ATA_ERR as u32 | ATA_DRQ
                    as u32 | ATA_BUSY as u32);
                if link != 3 {
                    &&& r == -1
                    &&& bus_eq(*old(bus), *final(bus))
                    &&& final(dev).port@ == old(dev).port@
                    &&& final(dev).port_idx == old(dev).port_idx
                    &&& final(mem).next == old(mem).next
                } else {
                    let started = spec_align_up(old(mem).next, 1024) as u64;
                    &&& r == (if tf == 0 {
                        0
                    } else {
                        -1i32
                    })
                    &&& final(dev).port@[pick].is_started()
                    &&& final(dev).port@[pick].port_mmio == pm
                    &&& final(dev).port@[pick].cmd_tbl_dma == started + AHCI_CMD_SLOT_SZ
                        + AHCI_RX_FIS_SZ
                    &&& (forall|j: int|
                        0 <= j < 32 && j != pick ==> final(dev).port@[j] == old(dev).port@[j])
                    &&& final(dev).port_idx == (if tf == 0 {
                        pick as u8
                    } else {
                        old(dev).port_idx
                    })
                    &&& final(mem).next == started + AHCI_PORT_PRIV_DMA_SZ
                    &&& (forall|a: u64|
                        ({
                            &&& old(bus).in_window(a)
                            &&& a != (pm + PORT_LST_ADDR) as u64
                            &&& a != (pm + PORT_LST_ADDR_HI) as u64
                            &&& a != (pm + PORT_FIS_ADDR) as u64
                            &&& a != (pm + PORT_FIS_ADDR_HI) as u64
                            &&& a != (pm + PORT_CMD) as u64
                        }) ==> final(bus).reg(a) == old(bus).reg(a))
                }
            }
        }),
{
    let linkmap: u32 = dev.port_map_linkup;
    if linkmap == 0 {
        return -1;
    }

    let n_ports: u8 = dev.n_ports;
    let base: u64 = dev.mmio_base;
    let mut i: u8 = 0;
    while i < n_ports
        invariant
            i <= n_ports,
            spec_scan_pick(linkmap, n_ports as int, 0) == spec_scan_pick(
                linkmap,
                n_ports as int,
                i as int,
            ),
            dev.ports_wf(),
            dev.n_ports == old(dev).n_ports,
            dev.port_map_linkup == old(dev).port_map_linkup,
            dev.mmio_base == old(dev).mmio_base,
            dev.port_idx == old(dev).port_idx,
            dev.port@ == old(dev).port@,
            dev.issued@ == old(dev).issued@,
            dev_same_but_cmd(*old(dev), *dev),
            bus_eq(*old(bus), *bus),
            bus.same_rules(*old(bus)),
            mem.next == old(mem).next,
        decreases n_ports - i,
    {
        if (linkmap >> (i as u32)) & 0x1 != 0 {
            proof {
                lemma_port_win(*bus, base, i);
                lemma_host_model_plain(*old(bus), base, spec_port_reg(base, i as int, PORT_LST_ADDR));
                lemma_host_model_plain(
                    *old(bus),
                    base,
                    spec_port_reg(base, i as int, PORT_LST_ADDR_HI),
                );
                lemma_host_model_plain(*old(bus), base, spec_port_reg(base, i as int, PORT_FIS_ADDR));
                lemma_host_model_plain(
                    *old(bus),
                    base,
                    spec_port_reg(base, i as int, PORT_FIS_ADDR_HI),
                );
                lemma_host_model_cmd(*old(bus), base, i as int);
                lemma_not_port_cmd_reg(base, i as int, PORT_LST_ADDR);
                lemma_not_port_cmd_reg(base, i as int, PORT_LST_ADDR_HI);
                lemma_not_port_cmd_reg(base, i as int, PORT_FIS_ADDR);
                lemma_not_port_cmd_reg(base, i as int, PORT_FIS_ADDR_HI);
                lemma_not_issue_reg(base, i as int, PORT_LST_ADDR);
                lemma_not_issue_reg(base, i as int, PORT_LST_ADDR_HI);
                lemma_not_issue_reg(base, i as int, PORT_FIS_ADDR);
                lemma_not_issue_reg(base, i as int, PORT_FIS_ADDR_HI);
                lemma_not_issue_reg(base, i as int, PORT_CMD);
                lemma_in_win(*bus, spec_port_reg(base, i as int, 0), 0x40, PORT_LST_ADDR);
                lemma_in_win(*bus, spec_port_reg(base, i as int, 0), 0x40, PORT_LST_ADDR_HI);
                lemma_in_win(*bus, spec_port_reg(base, i as int, 0), 0x40, PORT_FIS_ADDR);
                lemma_in_win(*bus, spec_port_reg(base, i as int, 0), 0x40, PORT_FIS_ADDR_HI);
                lemma_in_win(*bus, spec_port_reg(base, i as int, 0), 0x40, PORT_CMD);
            }
            if ahci_port_start(dev, bus, mem, i) != 0 {
                return -1;
            }
            dev.port_idx = i;
            return 0;
        }
        i += 1;
    }

    0
}

proof fn lemma_or_bit_other(p: u32, k: u32, j: u32)
    by (bit_vector)
    requires
        k < 32,
        j < 32,
        j != k,
    ensures
        ((p | (1u32 << k)) >> j) & 1 == (p >> j) & 1,
{
}

proof fn lemma_zero_shift(j: u32)
    by (bit_vector)
    ensures
        (0u32 >> j) & 1 == 0,
{
}

/// Bits at or above `n` of the link-up map over `n` ports are clear.
proof fn lemma_linkup_high(bus: MmioBus, base: u64, n: int, j: u32)
    requires
        0 <= n <= 32,
        n <= j < 32,
    ensures
        (spec_linkup_map(bus, base, n) >> j) & 1 == 0,
    decreases n,
{
    if n == 0 {
        lemma_zero_shift(j);
    } else {
        let prev = spec_linkup_map(bus, base, n - 1);
        lemma_linkup_high(bus, base, n - 1, j);
        if bus.reg(spec_port_reg(base, n - 1, PORT_SCR_STAT)) & 0xf == 3 {
            lemma_or_bit_other(prev, (n - 1) as u32, j);
        }
    }
}

/// A set bit of the link-up map records that the port's SATA status read
/// device present with communication established.
proof fn lemma_linkup_bit(bus: MmioBus, base: u64, n: int, j: int)
    requires
        0 <= j < n <= 32,
        (spec_linkup_map(bus, base, n) >> (j as u32)) & 1 != 0,
    ensures
        bus.reg(spec_port_reg(base, j, PORT_SCR_STAT)) & 0xf == 3,
    decreases n,
{
    let prev = spec_linkup_map(bus, base, n - 1);
    if bus.reg(spec_port_reg(base, n - 1, PORT_SCR_STAT)) & 0xf == 3 {
        if j < n - 1 {
            lemma_or_bit_other(prev, (n - 1) as u32, j as u32);
            lemma_linkup_bit(bus, base, n - 1, j);
        }
    } else {
        if j == n - 1 {
            lemma_linkup_high(bus, base, n - 1, j as u32);
        } else {
            lemma_linkup_bit(bus, base, n - 1, j);
        }
    }
}

/// The pick of the scan stays within bounds and, when below the port count,
/// names a port whose link-up bit is set.
proof fn lemma_pick_props(m: u32, n: int, j: int)
    requires
        0 <= j <= n,
    ensures
        j <= spec_scan_pick(m, n, j) <= n,
        spec_scan_pick(m, n, j) < n ==> (m >> (spec_scan_pick(m, n, j) as u32)) & 1 != 0,
    decreases n - j,
{
    if j < n && (m >> (j as u32)) & 1 == 0 {
        lemma_pick_props(m, n, j + 1);
    }
}

/// The canonical controller model transfers to any bus state with the same
/// behaviour rules.
pub proof fn lemma_host_model_transfer(a: MmioBus, b: MmioBus, base: u64)
    requires
        host_model(a, base),
        b.same_rules(a),
    ensures
        host_model(b, base),
{
    lemma_rules_transfer(b, a, (base + HOST_CTL) as u64);
    lemma_rules_transfer(b, a, (base + HOST_CAP) as u64);
    lemma_rules_transfer(b, a, (base + HOST_PORTS_IMPL) as u64);
    assert forall|x: u64|
        b.in_window(x) && x != (base + HOST_CTL) as u64 && x != (base + HOST_CAP) as u64 && x != (
        base + HOST_PORTS_IMPL) as u64 && !spec_issue_reg(base, x) implies !(#[trigger] b.is_ro(
        x,
    )) by {
        lemma_rules_transfer(b, a, x);
    }
    assert forall|x: u64|
        b.in_window(x) && x != (base + HOST_CTL) as u64 && !spec_issue_reg(base, x)
        implies #[trigger] b.sc_mask_of(x) == 0 by {
        lemma_rules_transfer(b, a, x);
    }
    assert forall|x: u64|
        #[trigger] spec_issue_reg(base, x) && b.in_window(x) implies !b.is_ro(x) && b.sc_mask_of(x)
        == 0xffffffffu32 by {
        lemma_rules_transfer(b, a, x);
    }
    assert forall|x: u64|
        b.in_window(x) && !spec_port_cmd_reg(base, x) implies #[trigger] b.stuck_mask_of(x)
        == 0 by {
        lemma_rules_transfer(b, a, x);
    }
}

/// Bring up the controller at the platform's fixed register address, start
/// the first linked-up port and scan the attached drive.  Returns 0 exactly
/// when the controller reset completes and a linked-up port starts.
#[verifier::loop_isolation(false)]
#[verifier::rlimit(60)]
#[verifier::spinoff_prover]
pub fn ahci_init(dev: &mut ahci_device, bus: &mut MmioBus, mem: &mut PlatMem, drive: &sata_drive)
    -> (r: i32)
    requires
        old(dev).ports_wf(),
        old(dev).port_map_linkup == 0,
        old(dev).flags == 0,
        old(dev).blk_dev.strings_wf(),
        host_model(*old(bus), 0x400e0000),
        forall|j: int|
            0 <= j < 32 ==> old(bus).reg(
                #[trigger] spec_port_reg(0x400e0000, j, PORT_CMD_ISSUE),
            ) == 0,
        drive.ident@.len() == ATA_ID_WORDS,
        old(mem).next >= 1,
        old(mem).next + 1024 + AHCI_PORT_PRIV_DMA_SZ + 2 + 512 <= u64::MAX,
    ensures
        final(bus).same_rules(*old(bus)),
        final(dev).mmio_base == 0x400e0000,
        ({
            let base = 0x400e0000u64;
            let ctl0 = old(bus).reg((base + HOST_CTL) as u64);
            let cap0 = old(bus).reg((base + HOST_CAP) as u64);
            let n = ((cap0 & 0x1f) + 1) as int;
            let linkmap = spec_linkup_map(*old(bus), base, n);
            let pick = spec_scan_pick(linkmap, n, 0);
            let pm = spec_port_reg(base, pick, 0);
            let host_ok = ctl0 & HOST_RESET == 0 && old(bus).sc_fuel >= 1;
            let spin_all = forall|j: int|
                0 <= j < n ==> #[trigger] spec_spinup_ok(*old(bus), base, j);
            let tf_ok = old(bus).reg((pm + PORT_TFDATA) as u64) & (ATA_ERR as u32 | ATA_DRQ
                as u32 | ATA_BUSY as u32) == 0;
            &&& r == (if host_ok && spin_all && linkmap != 0 && tf_ok {
                0
            } else {
                -1i32
            })
            &&& (r == 0 ==> {
                let w = if old(bus).sc_fuel >= 2 {
                    drive.ident@ + seq![0u16]
                } else {
                    Seq::new((ATA_ID_WORDS + 1) as nat, |i: int| 0u16)
                };
                let action = ((spec_ffs32((w[ATA_ID_UDMA_MODES as int] as u32 + 1) as u32)
                    + 0x3e) as u8);
                &&& final(dev).port_idx == pick
                &&& final(dev).n_ports == n
                &&& final(dev).cap == cap0
                &&& final(dev).port_map_linkup == linkmap
                &&& final(dev).port@[pick].is_started()
                &&& cmd_ready(*final(dev), *final(bus))
                &&& final(dev).blk_dev.lba == spec_id_n_sectors(w)
                &&& final(dev).blk_dev.blksz == 512
                &&& final(dev).blk_dev.lba48 == spec_id_has_lba48(w)
                &&& final(dev).blk_dev.queue_depth == spec_id_queue_depth(w)
                &&& final(dev).udma_mask == w[ATA_ID_UDMA_MODES as int] as u32
                &&& final(dev).pio_mask == w[ATA_ID_PIO_MODES as int] as u32
                &&& final(dev).flags == spec_wcache_flags(0, w)
                &&& spec_id_string_ok(
                    w,
                    ATA_ID_PROD as int,
                    ATA_ID_PROD_LEN as int,
                    final(dev).blk_dev.product@,
                )
                &&& spec_id_string_ok(
                    w,
                    ATA_ID_SERNO as int,
                    ATA_ID_SERNO_LEN as int,
                    final(dev).blk_dev.serial@,
                )
                &&& spec_id_string_ok(
                    w,
                    ATA_ID_FW_REV as int,
                    ATA_ID_FW_REV_LEN as int,
                    final(dev).blk_dev.revision@,
                )
                &&& final(dev).issued@ == old(dev).issued@ + seq![
                    ata_cmd {
                        fis: spec_fis_identify(),
                        buf: spec_align_up(
                            (spec_align_up(old(mem).next, 1024) + AHCI_PORT_PRIV_DMA_SZ) as u64,
                            2,
                        ) as u64,
                        buf_len: 512,
                    },
                    ata_cmd {
                        fis: spec_fis_set_feature(SETFEATURES_XFER, action),
                        buf: 0,
                        buf_len: 0,
                    },
                ]
            })
        }),
{
    dev.mmio_base = ahci_phys_to_uncached(0x400e0000);
    let ghost base: u64 = 0x400e0000u64;

    let mut ret: i32 = ahci_host_init(dev, bus);
    if ret != 0 {
        return -1;
    }

    proof {
        let cap0 = old(bus).reg((base + HOST_CAP) as u64);
        lemma_host_bits(cap0);
        let n = ((cap0 & 0x1f) + 1) as int;
        let linkmap = spec_linkup_map(*old(bus), base, n);
        let pick = spec_scan_pick(linkmap, n, 0);
        if linkmap != 0 {
            if pick == n {
                lemma_pick_clear(linkmap, n, 0);
                lemma_linkup_none(*old(bus), base, n);
                assert(false);
            }
            lemma_pick_props(linkmap, n, 0);
            lemma_linkup_bit(*old(bus), base, n, pick);
            let pm = spec_port_reg(base, pick, 0);
            assert((pm + PORT_SCR_STAT) as u64 == spec_port_reg(base, pick, PORT_SCR_STAT));
            assert((pm + PORT_TFDATA) as u64 == spec_port_reg(base, pick, PORT_TFDATA));
            assert((pm + PORT_CMD_ISSUE) as u64 == spec_port_reg(base, pick, PORT_CMD_ISSUE));
        }
        lemma_host_model_transfer(*old(bus), *bus, base);
    }

    ret = ahci_port_scan(dev, bus, mem);
    if ret != 0 {
        return -1;
    }

    proof {
        let cap0 = old(bus).reg((base + HOST_CAP) as u64);
        lemma_host_bits(cap0);
        let n = ((cap0 & 0x1f) + 1) as int;
        let linkmap = spec_linkup_map(*old(bus), base, n);
        let pick = spec_scan_pick(linkmap, n, 0);
        let pm = spec_port_reg(base, pick, 0);
        if linkmap != 0 && pick == n {
            lemma_pick_clear(linkmap, n, 0);
            lemma_linkup_none(*old(bus), base, n);
        }
        lemma_pick_props(linkmap, n, 0);
        lemma_port_win(*bus, base, pick as u8);
        lemma_is_issue_reg(base, pick);
        lemma_not_port_cmd_reg(base, pick, PORT_CMD_ISSUE);
        lemma_issue_consts();
        lemma_rules_transfer(*bus, *old(bus), (pm + PORT_CMD_ISSUE) as u64);
        assert(cmd_ready(*dev, *bus));
        assert(port_cmd_model(*bus, pm));
        assert(bus.reg((pm + PORT_CMD_ISSUE) as u64) == 0);
    }

    let ghost mid_dev = *dev;
    let ghost mid_bus = *bus;

    ahci_sata_scan(dev, bus, mem, drive);

    proof {
        let cap0 = old(bus).reg((base + HOST_CAP) as u64);
        lemma_host_bits(cap0);
        let n = ((cap0 & 0x1f) + 1) as int;
        let linkmap = spec_linkup_map(*old(bus), base, n);
        let pick = spec_scan_pick(linkmap, n, 0);
        let w_init = if old(bus).sc_fuel >= 2 {
            drive.ident@ + seq![0u16]
        } else {
            Seq::new((ATA_ID_WORDS + 1) as nat, |i: int| 0u16)
        };
        assert(spec_scan_words(mid_bus, mid_dev, *drive) =~= w_init);
        let action = ((spec_ffs32((w_init[ATA_ID_UDMA_MODES as int] as u32 + 1) as u32)
            + 0x3e) as u8);
        let idbuf = spec_align_up(
            (spec_align_up(old(mem).next, 1024) + AHCI_PORT_PRIV_DMA_SZ) as u64,
            2,
        ) as u64;
        assert(dev.issued@ =~= old(dev).issued@ + seq![
            ata_cmd { fis: spec_fis_identify(), buf: idbuf, buf_len: 512 },
            ata_cmd { fis: spec_fis_set_feature(SETFEATURES_XFER, action), buf: 0, buf_len: 0 },
        ]);
    }

    0
}

/// The law of the 28-bit chunk decomposition: a transfer of `blks` sectors
/// at `start` from `buffer` becomes `ceil(blks / 256)` commands; every
/// command but the last carries exactly 256 sectors and the last the
/// remainder; each command starts where the previous one ended, and its
/// data buffer advances by exactly the previous chunk's sectors times 512
/// bytes.
pub proof fn lemma_rw28_decomposition(start: u32, blks: u32, buffer: u64, is_write: u32)
    requires
        blks >= 1,
        start + blks <= u32::MAX,
        buffer + 512 * blks <= u64::MAX,
    ensures
        ({
            let fs = spec_rw28_cmds(start, blks, buffer, is_write);
            let n = fs.len();
            &&& n == (blks - 1) / (ATA_MAX_SECTORS as int) + 1
            &&& forall|i: int|
                0 <= i < n - 1 ==> #[trigger] fs[i] == (ata_cmd {
                    fis: spec_fis_lba28(
                        (start + i * ATA_MAX_SECTORS) as u32,
                        ATA_MAX_SECTORS,
                        is_write,
                    ),
                    buf: (buffer + i * ATA_MAX_SECTORS * 512) as u64,
                    buf_len: (512 * ATA_MAX_SECTORS) as u32,
                })
            &&& fs[n - 1] == (ata_cmd {
                fis: spec_fis_lba28(
                    (start + (n - 1) * ATA_MAX_SECTORS) as u32,
                    (blks - (n - 1) * ATA_MAX_SECTORS) as u32,
                    is_write,
                ),
                buf: (buffer + (n - 1) * ATA_MAX_SECTORS * 512) as u64,
                buf_len: (512 * (blks - (n - 1) * ATA_MAX_SECTORS)) as u32,
            })
        }),
    decreases blks,
{
    let fs = spec_rw28_cmds(start, blks, buffer, is_write);
    if blks > ATA_MAX_SECTORS {
        lemma_rw28_decomposition(
            (start + ATA_MAX_SECTORS) as u32,
            (blks - ATA_MAX_SECTORS) as u32,
            (buffer + ATA_SECT_SIZE * ATA_MAX_SECTORS) as u64,
            is_write,
        );
        let rest = spec_rw28_cmds(
            (start + ATA_MAX_SECTORS) as u32,
            (blks - ATA_MAX_SECTORS) as u32,
            (buffer + ATA_SECT_SIZE * ATA_MAX_SECTORS) as u64,
            is_write,
        );
        assert(fs == seq![
            ata_cmd {
                fis: spec_fis_lba28(start, ATA_MAX_SECTORS, is_write),
                buf: buffer,
                buf_len: (ATA_SECT_SIZE * ATA_MAX_SECTORS) as u32,
            },
        ] + rest);
        assert forall|i: int| 0 <= i < fs.len() - 1 implies #[trigger] fs[i] == (ata_cmd {
            fis: spec_fis_lba28((start + i * ATA_MAX_SECTORS) as u32, ATA_MAX_SECTORS, is_write),
            buf: (buffer + i * ATA_MAX_SECTORS * 512) as u64,
            buf_len: (512 * ATA_MAX_SECTORS) as u32,
        }) by {
            if i > 0 {
                assert(fs[i] == rest[i - 1]);
            }
        }
    }
}

/// The law of the 48-bit chunk decomposition: as the 28-bit law, with 65535
/// sectors per command.
pub proof fn lemma_rw48_decomposition(start: u64, blks: u32, buffer: u64, is_write: u32)
    requires
        blks >= 1,
        start + blks <= u64::MAX,
        buffer + 512 * blks <= u64::MAX,
    ensures
        ({
            let fs = spec_rw48_cmds(start, blks, buffer, is_write);
            let n = fs.len();
            &&& n == (blks - 1) / (ATA_MAX_SECTORS_LBA48 as int) + 1
            &&& forall|i: int|
                0 <= i < n - 1 ==> #[trigger] fs[i] == (ata_cmd {
                    fis: spec_fis_lba48(
                        (start + i * ATA_MAX_SECTORS_LBA48) as u64,
                        ATA_MAX_SECTORS_LBA48,
                        is_write,
                    ),
                    buf: (buffer + i * ATA_MAX_SECTORS_LBA48 * 512) as u64,
                    buf_len: (512 * ATA_MAX_SECTORS_LBA48) as u32,
                })
            &&& fs[n - 1] == (ata_cmd {
                fis: spec_fis_lba48(
                    (start + (n - 1) * ATA_MAX_SECTORS_LBA48) as u64,
                    (blks - (n - 1) * ATA_MAX_SECTORS_LBA48) as u32,
                    is_write,
                ),
                buf: (buffer + (n - 1) * ATA_MAX_SECTORS_LBA48 * 512) as u64,
                buf_len: (512 * (blks - (n - 1) * ATA_MAX_SECTORS_LBA48)) as u32,
            })
        }),
    decreases blks,
{
    let fs = spec_rw48_cmds(start, blks, buffer, is_write);
    if blks > ATA_MAX_SECTORS_LBA48 {
        lemma_rw48_decomposition(
            (start + ATA_MAX_SECTORS_LBA48) as u64,
            (blks - ATA_MAX_SECTORS_LBA48) as u32,
            (buffer + ATA_SECT_SIZE * ATA_MAX_SECTORS_LBA48) as u64,
            is_write,
        );
        let rest = spec_rw48_cmds(
            (start + ATA_MAX_SECTORS_LBA48) as u64,
            (blks - ATA_MAX_SECTORS_LBA48) as u32,
            (buffer + ATA_SECT_SIZE * ATA_MAX_SECTORS_LBA48) as u64,
            is_write,
        );
        assert(fs == seq![
            ata_cmd {
                fis: spec_fis_lba48(start, ATA_MAX_SECTORS_LBA48, is_write),
                buf: buffer,
                buf_len: (ATA_SECT_SIZE * ATA_MAX_SECTORS_LBA48) as u32,
            },
        ] + rest);
        assert forall|i: int| 0 <= i < fs.len() - 1 implies #[trigger] fs[i] == (ata_cmd {
            fis: spec_fis_lba48(
                (start + i * ATA_MAX_SECTORS_LBA48) as u64,
                ATA_MAX_SECTORS_LBA48,
                is_write,
            ),
            buf: (buffer + i * ATA_MAX_SECTORS_LBA48 * 512) as u64,
            buf_len: (512 * ATA_MAX_SECTORS_LBA48) as u32,
        }) by {
            if i > 0 {
                assert(fs[i] == rest[i - 1]);
            }
        }
    }
}

} // verus!

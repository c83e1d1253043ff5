use vstd::prelude::*;

use crate::libata::sata_fis_h2d;
use crate::libata::ATA_ID_FW_REV_LEN;
use crate::libata::ATA_ID_PROD_LEN;
use crate::libata::ATA_ID_SERNO_LEN;
use crate::libata::ATA_ID_WORDS;

verus! {

// port command/status register bits
pub const PORT_CMD_ICC_ACTIVE: u32 = 0x10000000;
pub const PORT_CMD_LIST_ON: u32 = 0x00008000;
pub const PORT_CMD_FIS_ON: u32 = 0x00004000;
pub const PORT_CMD_FIS_RX: u32 = 0x00000010;
pub const PORT_CMD_POWER_ON: u32 = 0x00000004;
pub const PORT_CMD_SPIN_UP: u32 = 0x00000002;
pub const PORT_CMD_START: u32 = 0x00000001;

// per-port interrupt bits
pub const PORT_IRQ_TF_ERR: u32 = 0x40000000;
pub const PORT_IRQ_HBUS_ERR: u32 = 0x20000000;
pub const PORT_IRQ_HBUS_DATA_ERR: u32 = 0x10000000;
pub const PORT_IRQ_IF_ERR: u32 = 0x08000000;
pub const PORT_IRQ_BAD_PMP: u32 = 0x00800000;
pub const PORT_IRQ_PHYRDY: u32 = 0x00400000;
pub const PORT_IRQ_CONNECT: u32 = 0x00000040;
pub const PORT_IRQ_SG_DONE: u32 = 0x00000020;
pub const PORT_IRQ_UNK_FIS: u32 = 0x00000010;
pub const PORT_IRQ_SDB_FIS: u32 = 0x00000008;
pub const PORT_IRQ_DMAS_FIS: u32 = 0x00000004;
pub const PORT_IRQ_PIOS_FIS: u32 = 0x00000002;
pub const PORT_IRQ_D2H_REG_FIS: u32 = 0x00000001;
pub const PORT_IRQ_FREEZE: u32 = PORT_IRQ_HBUS_ERR | PORT_IRQ_IF_ERR | PORT_IRQ_CONNECT
    | PORT_IRQ_PHYRDY | PORT_IRQ_UNK_FIS | PORT_IRQ_BAD_PMP;
pub const PORT_IRQ_ERROR: u32 = PORT_IRQ_FREEZE | PORT_IRQ_TF_ERR | PORT_IRQ_HBUS_DATA_ERR;
pub const DEF_PORT_IRQ: u32 = PORT_IRQ_ERROR | PORT_IRQ_SG_DONE | PORT_IRQ_SDB_FIS
    | PORT_IRQ_DMAS_FIS | PORT_IRQ_PIOS_FIS | PORT_IRQ_D2H_REG_FIS;

// per-port register offsets, relative to the port's register window
pub const PORT_LST_ADDR: u64 = 0x00;
pub const PORT_LST_ADDR_HI: u64 = 0x04;
pub const PORT_FIS_ADDR: u64 = 0x08;
pub const PORT_FIS_ADDR_HI: u64 = 0x0c;
pub const PORT_IRQ_STAT: u64 = 0x10;
pub const PORT_IRQ_MASK: u64 = 0x14;
pub const PORT_CMD: u64 = 0x18;
pub const PORT_TFDATA: u64 = 0x20;
pub const PORT_SCR_STAT: u64 = 0x28;
pub const PORT_SCR_ERR: u64 = 0x30;
pub const PORT_CMD_ISSUE: u64 = 0x38;

// host control register bits
pub const HOST_RESET: u32 = 0x00000001;
pub const HOST_IRQ_EN: u32 = 0x00000002;
pub const HOST_AHCI_EN: u32 = 0x80000000;
pub const HOST_CAP_SSS: u32 = 0x08000000;
pub const HOST_CAP_MPS: u32 = 0x10000000;

// host register offsets
pub const HOST_CAP: u64 = 0x0;
pub const HOST_CTL: u64 = 0x4;
pub const HOST_IRQ_STAT: u64 = 0x8;
pub const HOST_PORTS_IMPL: u64 = 0xC;
pub const HOST_VERSION: u64 = 0x10;
pub const HOST_CAP2: u64 = 0x24;

pub const AHCI_MAX_PORTS: u32 = 32;
pub const AHCI_MAX_SG: u32 = 56;
pub const AHCI_MAX_CMDS: u32 = 32;
pub const AHCI_CMD_SZ: u32 = 32;
pub const AHCI_CMD_SLOT_SZ: u32 = AHCI_MAX_CMDS * AHCI_CMD_SZ;
pub const AHCI_RX_FIS_SZ: u32 = 256;
pub const AHCI_CMD_TBL_HDR_SZ: u32 = 128;
pub const AHCI_CMD_TBL_SZ: u32 = AHCI_CMD_TBL_HDR_SZ + (AHCI_MAX_SG * 16);
pub const AHCI_PORT_PRIV_DMA_SZ: u32 = AHCI_CMD_SLOT_SZ + AHCI_CMD_TBL_SZ + AHCI_RX_FIS_SZ;
pub const AHCI_MAX_BYTES_PER_SG: u32 = 4 * 1024 * 1024;
pub const AHCI_MAX_BYTES_PER_TRANS: u32 = AHCI_MAX_SG * AHCI_MAX_BYTES_PER_SG;

pub const SATA_FLAG_FLUSH_EXT: u32 = 1024;
pub const SATA_FLAG_FLUSH: u32 = 512;
pub const SATA_FLAG_WCACHE: u32 = 256;

pub const READ_CMD: u32 = 0;
pub const WRITE_CMD: u32 = 1;

/// Bound, in 1 ms polls, on the wait for a command to complete.  Every other
/// wait of the driver is bounded; this one is given the same treatment.  A
/// deliberate choice: the timeout surfaces as the same zero-length result
/// the other command rejections use, keeping the entry points' unsigned
/// result convention rather than adding a distinct error kind.
pub const AHCI_CMD_TIMEOUT_MS: u32 = 10000;

/// One command-list entry: the header the port DMA engine reads for a slot.
#[allow(non_camel_case_types)]
#[derive(Clone, Copy, PartialEq, Eq, Debug)]
pub struct ahci_cmd_hdr {
    pub opts: u32,
    pub status: u32,
    pub tbl_addr_lo: u32,
    pub tbl_addr_hi: u32,
    pub reserved: [u32; 4],
}

/// One scatter-gather entry: a DMA address and an encoded byte count.
#[allow(non_camel_case_types)]
#[derive(Clone, Copy, PartialEq, Eq, Debug)]
pub struct ahci_sg {
    pub addr_lo: u32,
    pub addr_hi: u32,
    pub reserved: u32,
    pub flags_size: u32,
}

/// Per-port state: the port's register window, the DMA addresses programmed
/// into it, and the contents of the port's DMA region.  The command-slot
/// array, the command table (its FIS and scatter-gather list) and the
/// receive-FIS buffer live in one allocation; the driver owns their contents
/// here as plain data.
#[allow(non_camel_case_types)]
pub struct ahci_ioport {
    pub port_mmio: u64,
    pub cmd_slot_dma: u64,
    pub rx_fis: u64,
    pub rx_fis_dma: u64,
    pub cmd_tbl: u64,
    pub cmd_tbl_dma: u64,
    pub cmd_slots: Vec<ahci_cmd_hdr>,
    pub cmd_fis: sata_fis_h2d,
    pub sg_list: Vec<ahci_sg>,
}

/// The attached drive as the scan recorded it.
#[allow(non_camel_case_types)]
pub struct ahci_blk_dev {
    pub lba48: bool,
    pub lba: u64,
    pub blksz: u64,
    pub queue_depth: u32,
    pub product: Vec<u8>,
    pub serial: Vec<u8>,
    pub revision: Vec<u8>,
}

/// One command as the device receives it: the 20-byte FIS together with the
/// data buffer bound to it by the scatter-gather list — the address handed
/// to the DMA engine and the transfer length in bytes (both zero for
/// commands that move no data).
#[allow(non_camel_case_types)]
#[derive(Clone, Copy, PartialEq, Eq, Debug)]
pub struct ata_cmd {
    pub fis: sata_fis_h2d,
    pub buf: u64,
    pub buf_len: u32,
}

/// The whole controller: discovered capabilities, per-port state, and the
/// attached drive.  `issued` is the ghost trace of every command handed to
/// the device, in order, each bound to its data buffer.
#[allow(non_camel_case_types)]
pub struct ahci_device {
    pub mmio_base: u64,
    pub flags: u32,
    pub cap: u32,
    pub cap2: u32,
    pub version: u32,
    pub port_map: u32,
    pub pio_mask: u32,
    pub udma_mask: u32,
    pub n_ports: u8,
    pub port_map_linkup: u32,
    pub port: Vec<ahci_ioport>,
    pub port_idx: u8,
    pub blk_dev: ahci_blk_dev,
    pub issued: Ghost<Seq<ata_cmd>>,
}

/// The identify response of the drive attached behind the controller: the
/// 256 words the device answers an IDENTIFY DEVICE command with.
#[allow(non_camel_case_types)]
pub struct sata_drive {
    pub ident: Vec<u16>,
}

pub open spec fn spec_fis_zero() -> sata_fis_h2d {
    sata_fis_h2d {
        fis_type: 0,
        pm_port_c: 0,
        command: 0,
        features: 0,
        lba_low: 0,
        lba_mid: 0,
        lba_high: 0,
        device: 0,
        lba_low_exp: 0,
        lba_mid_exp: 0,
        lba_high_exp: 0,
        features_exp: 0,
        sector_count: 0,
        sector_count_exp: 0,
        res1: 0,
        control: 0,
        res2: [0, 0, 0, 0],
    }
}

impl ahci_ioport {
    /// All addresses zero and the DMA region not yet laid out.
    pub open spec fn is_zeroed(self) -> bool {
        &&& self.port_mmio == 0
        &&& self.cmd_slot_dma == 0
        &&& self.rx_fis == 0
        &&& self.rx_fis_dma == 0
        &&& self.cmd_tbl == 0
        &&& self.cmd_tbl_dma == 0
        &&& self.cmd_slots@.len() == 0
        &&& self.cmd_fis == spec_fis_zero()
        &&& self.sg_list@.len() == 0
    }

    /// The DMA region of the port has been laid out by the port start.
    pub open spec fn is_started(self) -> bool {
        &&& self.cmd_slots@.len() == AHCI_MAX_CMDS
        &&& self.sg_list@.len() == AHCI_MAX_SG
    }

    pub fn new() -> (r: ahci_ioport)
        ensures
            r.is_zeroed(),
    {
        ahci_ioport {
            port_mmio: 0,
            cmd_slot_dma: 0,
            rx_fis: 0,
            rx_fis_dma: 0,
            cmd_tbl: 0,
            cmd_tbl_dma: 0,
            cmd_slots: Vec::new(),
            cmd_fis: sata_fis_h2d {
                fis_type: 0,
                pm_port_c: 0,
                command: 0,
                features: 0,
                lba_low: 0,
                lba_mid: 0,
                lba_high: 0,
                device: 0,
                lba_low_exp: 0,
                lba_mid_exp: 0,
                lba_high_exp: 0,
                features_exp: 0,
                sector_count: 0,
                sector_count_exp: 0,
                res1: 0,
                control: 0,
                res2: [0, 0, 0, 0],
            },
            sg_list: Vec::new(),
        }
    }
}

impl ahci_blk_dev {
    /// The identity-string buffers have their fixed lengths: one byte more
    /// than the raw field, for the terminating NUL.
    pub open spec fn strings_wf(self) -> bool {
        &&& self.product@.len() == ATA_ID_PROD_LEN + 1
        &&& self.serial@.len() == ATA_ID_SERNO_LEN + 1
        &&& self.revision@.len() == ATA_ID_FW_REV_LEN + 1
    }

    pub fn new() -> (r: ahci_blk_dev)
        ensures
            r.strings_wf(),
            r.lba48 == false,
            r.lba == 0,
            r.blksz == 0,
            r.queue_depth == 0,
            forall|i: int| 0 <= i < r.product@.len() ==> r.product@[i] == 0,
            forall|i: int| 0 <= i < r.serial@.len() ==> r.serial@[i] == 0,
            forall|i: int| 0 <= i < r.revision@.len() ==> r.revision@[i] == 0,
    {
        ahci_blk_dev {
            lba48: false,
            lba: 0,
            blksz: 0,
            queue_depth: 0,
            product: zero_bytes((ATA_ID_PROD_LEN + 1) as usize),
            serial: zero_bytes((ATA_ID_SERNO_LEN + 1) as usize),
            revision: zero_bytes((ATA_ID_FW_REV_LEN + 1) as usize),
        }
    }
}

fn zero_bytes(n: usize) -> (r: Vec<u8>)
    ensures
        r@.len() == n,
        forall|i: int| 0 <= i < n ==> r@[i] == 0,
{
    let mut v: Vec<u8> = Vec::new();
    while v.len() < n
        invariant
            v@.len() <= n,
            forall|i: int| 0 <= i < v@.len() ==> v@[i] == 0,
        decreases n - v@.len(),
    {
        v.push(0);
    }
    v
}

impl ahci_device {
    /// The fixed-size port table is present.
    pub open spec fn ports_wf(self) -> bool {
        self.port@.len() == AHCI_MAX_PORTS
    }

    /// The zero-initialised controller state the entry points start from.
    pub fn new() -> (r: ahci_device)
        ensures
            r.ports_wf(),
            r.blk_dev.strings_wf(),
            r.mmio_base == 0,
            r.flags == 0,
            r.n_ports == 0,
            r.port_map_linkup == 0,
            r.port_idx == 0,
            r.udma_mask == 0,
            forall|i: int| 0 <= i < r.port@.len() ==> (#[trigger] r.port@[i]).is_zeroed(),
            r.issued@ =~= Seq::<ata_cmd>::empty(),
    {
        let mut port: Vec<ahci_ioport> = Vec::new();
        while port.len() < 32
            invariant
                port@.len() <= 32,
                forall|i: int| 0 <= i < port@.len() ==> (#[trigger] port@[i]).is_zeroed(),
            decreases 32 - port@.len(),
        {
            port.push(ahci_ioport::new());
        }
        ahci_device {
            mmio_base: 0,
            flags: 0,
            cap: 0,
            cap2: 0,
            version: 0,
            port_map: 0,
            pio_mask: 0,
            udma_mask: 0,
            n_ports: 0,
            port_map_linkup: 0,
            port,
            port_idx: 0,
            blk_dev: ahci_blk_dev::new(),
            issued: Ghost(Seq::empty()),
        }
    }
}

impl sata_drive {
    /// A drive whose identify response is the given 256 words.
    pub fn new(ident: Vec<u16>) -> (r: sata_drive)
        requires
            ident@.len() == ATA_ID_WORDS,
        ensures
            r.ident@ == ident@,
    {
        sata_drive { ident }
    }
}

} // verus!

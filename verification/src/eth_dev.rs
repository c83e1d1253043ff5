use vstd::prelude::*;

use crate::drv_ahci::lemma_and_zero;
use crate::drv_ahci::lemma_in_win;
use crate::drv_ahci::lemma_rules_transfer;
use crate::drv_ahci::plain_reg;
use crate::drv_ahci::win_range;
use crate::eth_defs::net_device;
use crate::eth_defs::DmaDesc;
use crate::eth_defs::DescError;
use crate::eth_defs::DescFrameLengthMask;
use crate::eth_defs::DescFrameLengthShift;
use crate::eth_defs::DescOwnByDma;
use crate::eth_defs::DescRxFirst;
use crate::eth_defs::DescRxLast;
use crate::eth_defs::DescSize1Mask;
use crate::eth_defs::DescSize2Mask;
use crate::eth_defs::RxDescEndOfRing;
use crate::eth_defs::TxDescEndOfRing;
use crate::eth_defs::DmaBusMode;
use crate::eth_defs::DmaControl;
use crate::eth_defs::DmaInterrupt;
use crate::eth_defs::DmaIntDisable;
use crate::eth_defs::DmaMixedBurstEnable;
use crate::eth_defs::DmaBurstLength32;
use crate::eth_defs::DmaBurstLengthx8;
use crate::eth_defs::DmaDescriptor4DWords;
use crate::eth_defs::DmaDescriptorSkip0;
use crate::eth_defs::DmaEnHwFlowCtrl;
use crate::eth_defs::DmaResetOn;
use crate::eth_defs::DmaRxFlowCtrlAct;
use crate::eth_defs::DmaRxFlowCtrlDeact;
use crate::eth_defs::DmaRxPollDemand;
use crate::eth_defs::DmaRxStart;
use crate::eth_defs::DmaStatus;
use crate::eth_defs::DmaStoreAndForward;
use crate::eth_defs::DmaTxPollDemand;
use crate::eth_defs::DmaTxSecondFrame;
use crate::eth_defs::DmaTxStart;
use crate::eth_defs::GmacAddr0High;
use crate::eth_defs::GmacAddr0Low;
use crate::eth_defs::GmacBackoffLimit;
use crate::eth_defs::GmacBackoffLimit0;
use crate::eth_defs::GmacBroadcast;
use crate::eth_defs::GmacConfig;
use crate::eth_defs::GmacDeferralCheck;
use crate::eth_defs::GmacDestAddrFilter;
use crate::eth_defs::GmacDuplex;
use crate::eth_defs::GmacFilter;
use crate::eth_defs::GmacFlowControl;
use crate::eth_defs::GmacFrameBurst;
use crate::eth_defs::GmacFrameFilter;
use crate::eth_defs::GmacGmiiAddr;
use crate::eth_defs::GmacGmiiData;
use crate::eth_defs::GmacJabber;
use crate::eth_defs::GmacJumboFrame;
use crate::eth_defs::GmacLoopback;
use crate::eth_defs::GmacMcastHashFilter;
use crate::eth_defs::GmacMmcIntrMaskRx;
use crate::eth_defs::GmacMmcIntrMaskTx;
use crate::eth_defs::GmacMmcRxIpcIntrMask;
use crate::eth_defs::GmacMulticastFilter;
use crate::eth_defs::GmacPadCrcStrip;
use crate::eth_defs::GmacPassControl;
use crate::eth_defs::GmacPassControl0;
use crate::eth_defs::GmacPauseTimeMask;
use crate::eth_defs::GmacPromiscuousMode;
use crate::eth_defs::GmacRetry;
use crate::eth_defs::GmacRx;
use crate::eth_defs::GmacRxFlowControl;
use crate::eth_defs::GmacRxOwn;
use crate::eth_defs::GmacSrcAddrFilter;
use crate::eth_defs::GmacTx;
use crate::eth_defs::GmacTxConfig;
use crate::eth_defs::GmacTxFlowControl;
use crate::eth_defs::GmacUcastHashFilter;
use crate::eth_defs::GmacWatchdog;
use crate::eth_defs::GmiiBusy;
use crate::eth_defs::GmiiCsrClk4;
use crate::eth_defs::GmiiDevMask;
use crate::eth_defs::GmiiDevShift;
use crate::eth_defs::GmiiRegMask;
use crate::eth_defs::GmiiRegShift;
use crate::eth_defs::GmiiWrite;
use crate::mmio::MmioBus;

verus! {

/// Bound, in 1 ms polls, on every MDIO and DMA-reset wait.
pub const ETH_POLL_BOUND: u32 = 10000;

/// The MAC register window: `GmacConfig` up to the MMC interrupt masks.
pub open spec fn mac_win(bus: MmioBus, mb: u64) -> bool {
    win_range(bus, mb, 0x210)
}

/// The DMA register window.
pub open spec fn dma_win(bus: MmioBus, db: u64) -> bool {
    win_range(bus, db, 0x60)
}

/// Read one MAC or DMA register.
pub fn eth_mac_read_reg(bus: &MmioBus, base: u64, offset: u32) -> (r: u32)
    requires
        bus.in_window((base + offset) as u64),
        base + offset <= u64::MAX,
    ensures
        r == bus.reg((base + offset) as u64),
{
    let addr: u64 = base + offset as u64;
    bus.read32(addr)
}

/// Write one MAC or DMA register.
pub fn eth_mac_write_reg(bus: &mut MmioBus, base: u64, offset: u32, data: u32)
    requires
        old(bus).in_window((base + offset) as u64),
        base + offset <= u64::MAX,
    ensures
        final(bus).same_rules(*old(bus)),
        final(bus).reg((base + offset) as u64) == old(bus).stored_of(data, (base + offset) as u64),
        forall|a: u64|
            old(bus).in_window(a) && a != (base + offset) as u64 ==> final(bus).reg(a) == old(
                bus,
            ).reg(a),
        final(bus).sc_fuel == old(bus).fuel_of(data, (base + offset) as u64),
{
    let addr: u64 = base + offset as u64;
    bus.write32(data, addr)
}

/// Set the given bits of a register.
pub fn eth_mac_set_bits(bus: &mut MmioBus, base: u64, offset: u32, pos: u32)
    requires
        old(bus).in_window((base + offset) as u64),
        base + offset <= u64::MAX,
    ensures
        final(bus).same_rules(*old(bus)),
        final(bus).reg((base + offset) as u64) == old(bus).stored_of(
            old(bus).reg((base + offset) as u64) | pos,
            (base + offset) as u64,
        ),
        forall|a: u64|
            old(bus).in_window(a) && a != (base + offset) as u64 ==> final(bus).reg(a) == old(
                bus,
            ).reg(a),
        final(bus).sc_fuel == old(bus).fuel_of(
            old(bus).reg((base + offset) as u64) | pos,
            (base + offset) as u64,
        ),
{
    let mut data: u32 = eth_mac_read_reg(bus, base, offset);
    data |= pos;
    eth_mac_write_reg(bus, base, offset, data);
}

/// Clear the given bits of a register.
pub fn eth_mac_clear_bits(bus: &mut MmioBus, base: u64, offset: u32, pos: u32)
    requires
        old(bus).in_window((base + offset) as u64),
        base + offset <= u64::MAX,
    ensures
        final(bus).same_rules(*old(bus)),
        final(bus).reg((base + offset) as u64) == old(bus).stored_of(
            old(bus).reg((base + offset) as u64) & !pos,
            (base + offset) as u64,
        ),
        forall|a: u64|
            old(bus).in_window(a) && a != (base + offset) as u64 ==> final(bus).reg(a) == old(
                bus,
            ).reg(a),
        final(bus).sc_fuel == old(bus).fuel_of(
            old(bus).reg((base + offset) as u64) & !pos,
            (base + offset) as u64,
        ),
{
    let mut data: u32 = eth_mac_read_reg(bus, base, offset);
    data &= !pos;
    eth_mac_write_reg(bus, base, offset, data);
}

/// The MDIO address-register value of a management read of `offset` on the
/// device at `phybase`.
pub open spec fn spec_mdio_read_addr(phybase: u32, offset: u32) -> u32 {
    ((phybase << GmiiDevShift) & GmiiDevMask | (offset << GmiiRegShift) & GmiiRegMask) | (
    GmiiCsrClk4 | GmiiBusy)
}

/// Read one register of the attached PHY over MDIO: program the address
/// register with the busy bit, wait for the device to clear it, and fetch
/// the data register.
#[verifier::loop_isolation(false)]
pub fn eth_mdio_read(bus: &mut MmioBus, regbase: u64, phybase: u32, offset: u32) -> (r: u16)
    requires
        mac_win(*old(bus), regbase),
    ensures
        final(bus).same_rules(*old(bus)),
        final(bus).reg((regbase + GmacGmiiAddr) as u64) == old(bus).stored_of(
            spec_mdio_read_addr(phybase, offset),
            (regbase + GmacGmiiAddr) as u64,
        ),
        forall|a: u64|
            old(bus).in_window(a) && a != (regbase + GmacGmiiAddr) as u64 ==> final(bus).reg(a)
                == old(bus).reg(a),
        final(bus).sc_fuel == old(bus).fuel_of(
            spec_mdio_read_addr(phybase, offset),
            (regbase + GmacGmiiAddr) as u64,
        ),
        r == (old(bus).reg((regbase + GmacGmiiData) as u64) & 0xffff) as u16,
{
    proof {
        lemma_in_win(*bus, regbase, 0x210, GmacGmiiAddr as u64);
        lemma_in_win(*bus, regbase, 0x210, GmacGmiiData as u64);
    }
    let mut addr: u32 = (phybase << GmiiDevShift) & GmiiDevMask | (offset << GmiiRegShift)
        & GmiiRegMask;
    addr |= GmiiCsrClk4 | GmiiBusy;

    eth_mac_write_reg(bus, regbase, GmacGmiiAddr, addr);

    let mut wait: u32 = ETH_POLL_BOUND;
    while eth_mac_read_reg(bus, regbase, GmacGmiiAddr) & GmiiBusy != 0 && wait > 0
        invariant
            wait <= ETH_POLL_BOUND,
        decreases wait,
    {
        wait -= 1;
    }

    (eth_mac_read_reg(bus, regbase, GmacGmiiData) & 0xffff) as u16
}

/// The MDIO address-register value of a management write.
pub open spec fn spec_mdio_write_addr(phybase: u32, offset: u32) -> u32 {
    (phybase << GmiiDevShift & GmiiDevMask | offset << GmiiRegShift & GmiiRegMask) | (GmiiWrite
        | GmiiCsrClk4 | GmiiBusy)
}

/// Write one register of the attached PHY over MDIO.
#[verifier::loop_isolation(false)]
pub fn eth_mdio_write(bus: &mut MmioBus, regbase: u64, phybase: u32, offset: u32, data: u16)
    requires
        mac_win(*old(bus), regbase),
        plain_reg(*old(bus), (regbase + GmacGmiiData) as u64),
    ensures
        final(bus).same_rules(*old(bus)),
        final(bus).reg((regbase + GmacGmiiData) as u64) == data as u32,
        final(bus).reg((regbase + GmacGmiiAddr) as u64) == old(bus).stored_of(
            spec_mdio_write_addr(phybase, offset),
            (regbase + GmacGmiiAddr) as u64,
        ),
        forall|a: u64|
            old(bus).in_window(a) && a != (regbase + GmacGmiiAddr) as u64 && a != (regbase
                + GmacGmiiData) as u64 ==> final(bus).reg(a) == old(bus).reg(a),
        final(bus).sc_fuel == old(bus).fuel_of(
            spec_mdio_write_addr(phybase, offset),
            (regbase + GmacGmiiAddr) as u64,
        ),
{
    proof {
        lemma_in_win(*bus, regbase, 0x210, GmacGmiiAddr as u64);
        lemma_in_win(*bus, regbase, 0x210, GmacGmiiData as u64);
        lemma_and_zero();
    }
    eth_mac_write_reg(bus, regbase, GmacGmiiData, data as u32);

    let mut addr: u32 = phybase << GmiiDevShift & GmiiDevMask | offset << GmiiRegShift
        & GmiiRegMask;
    addr |= GmiiWrite | GmiiCsrClk4 | GmiiBusy;

    eth_mac_write_reg(bus, regbase, GmacGmiiAddr, addr);

    let mut wait: u32 = ETH_POLL_BOUND;
    while eth_mac_read_reg(bus, regbase, GmacGmiiAddr) & GmiiBusy != 0 && wait > 0
        invariant
            wait <= ETH_POLL_BOUND,
        decreases wait,
    {
        wait -= 1;
    }
}

/// Program the station MAC address into the two address registers.
pub fn eth_mac_set_addr(gmacdev: &net_device, bus: &mut MmioBus)
    requires
        mac_win(*old(bus), gmacdev.MacBase),
        plain_reg(*old(bus), (gmacdev.MacBase + GmacAddr0High) as u64),
        plain_reg(*old(bus), (gmacdev.MacBase + GmacAddr0Low) as u64),
    ensures
        final(bus).same_rules(*old(bus)),
        final(bus).sc_fuel == old(bus).sc_fuel,
        final(bus).reg((gmacdev.MacBase + GmacAddr0High) as u64) == ((gmacdev.MacAddr@[5]
            as u32) << 8) | (gmacdev.MacAddr@[4] as u32),
        final(bus).reg((gmacdev.MacBase + GmacAddr0Low) as u64) == ((gmacdev.MacAddr@[3]
            as u32) << 24) | ((gmacdev.MacAddr@[2] as u32) << 16) | ((gmacdev.MacAddr@[1]
            as u32) << 8) | (gmacdev.MacAddr@[0] as u32),
        forall|a: u64|
            old(bus).in_window(a) && a != (gmacdev.MacBase + GmacAddr0High) as u64 && a != (
            gmacdev.MacBase + GmacAddr0Low) as u64 ==> final(bus).reg(a) == old(bus).reg(a),
{
    proof {
        lemma_in_win(*bus, gmacdev.MacBase, 0x210, GmacAddr0High as u64);
        lemma_in_win(*bus, gmacdev.MacBase, 0x210, GmacAddr0Low as u64);
        lemma_and_zero();
    }
    let addr: [u8; 6] = gmacdev.MacAddr;
    let mut data: u32;

    data = ((addr[5] as u32) << 8) | (addr[4] as u32);
    eth_mac_write_reg(bus, gmacdev.MacBase, GmacAddr0High, data);

    data = ((addr[3] as u32) << 24) | ((addr[2] as u32) << 16) | ((addr[1] as u32) << 8) | (addr[0]
        as u32);
    eth_mac_write_reg(bus, gmacdev.MacBase, GmacAddr0Low, data);
}

/// Read the station MAC address back from the two address registers.
pub fn eth_gmac_get_mac_addr(gmacdev: &net_device, bus: &MmioBus, addr: &mut Vec<u8>)
    requires
        mac_win(*bus, gmacdev.MacBase),
        old(addr)@.len() == 6,
    ensures
        final(addr)@.len() == 6,
        ({
            let hi = bus.reg((gmacdev.MacBase + GmacAddr0High) as u64);
            let lo = bus.reg((gmacdev.MacBase + GmacAddr0Low) as u64);
            &&& final(addr)@[5] == ((hi >> 8) & 0xff) as u8
            &&& final(addr)@[4] == (hi & 0xff) as u8
            &&& final(addr)@[3] == ((lo >> 24) & 0xff) as u8
            &&& final(addr)@[2] == ((lo >> 16) & 0xff) as u8
            &&& final(addr)@[1] == ((lo >> 8) & 0xff) as u8
            &&& final(addr)@[0] == (lo & 0xff) as u8
        }),
{
    proof {
        lemma_in_win(*bus, gmacdev.MacBase, 0x210, GmacAddr0High as u64);
        lemma_in_win(*bus, gmacdev.MacBase, 0x210, GmacAddr0Low as u64);
    }
    let mut data: u32 = eth_mac_read_reg(bus, gmacdev.MacBase, GmacAddr0High);
    addr.set(5, #[verifier::truncate] (((data >> 8) & 0xff) as u8));
    addr.set(4, (data & 0xff) as u8);

    data = eth_mac_read_reg(bus, gmacdev.MacBase, GmacAddr0Low);
    addr.set(3, #[verifier::truncate] (((data >> 24) & 0xff) as u8));
    addr.set(2, #[verifier::truncate] (((data >> 16) & 0xff) as u8));
    addr.set(1, #[verifier::truncate] (((data >> 8) & 0xff) as u8));
    addr.set(0, (data & 0xff) as u8);
}

/// Request a software reset of the DMA engine and wait for the device to
/// clear the request bit.
#[verifier::loop_isolation(false)]
pub fn eth_dma_reset(gmacdev: &net_device, bus: &mut MmioBus)
    requires
        dma_win(*old(bus), gmacdev.DmaBase),
    ensures
        final(bus).same_rules(*old(bus)),
        final(bus).reg((gmacdev.DmaBase + DmaBusMode) as u64) == old(bus).stored_of(
            DmaResetOn,
            (gmacdev.DmaBase + DmaBusMode) as u64,
        ),
        forall|a: u64|
            old(bus).in_window(a) && a != (gmacdev.DmaBase + DmaBusMode) as u64 ==> final(bus).reg(
                a,
            ) == old(bus).reg(a),
        final(bus).sc_fuel == old(bus).fuel_of(DmaResetOn, (gmacdev.DmaBase + DmaBusMode) as u64),
{
    proof {
        lemma_in_win(*bus, gmacdev.DmaBase, 0x60, DmaBusMode as u64);
    }
    eth_mac_write_reg(bus, gmacdev.DmaBase, DmaBusMode, DmaResetOn);

    let mut wait: u32 = ETH_POLL_BOUND;
    while eth_mac_read_reg(bus, gmacdev.DmaBase, DmaBusMode) & 1 != 0 && wait > 0
        invariant
            wait <= ETH_POLL_BOUND,
        decreases wait,
    {
        wait -= 1;
    }
}

/// Ask the DMA engine to rescan the receive descriptor ring.
pub fn eth_gmac_resume_dma_rx(gmacdev: &net_device, bus: &mut MmioBus)
    requires
        dma_win(*old(bus), gmacdev.DmaBase),
    ensures
        final(bus).same_rules(*old(bus)),
        final(bus).reg((gmacdev.DmaBase + DmaRxPollDemand) as u64) == old(bus).stored_of(
            0,
            (gmacdev.DmaBase + DmaRxPollDemand) as u64,
        ),
        forall|a: u64|
            old(bus).in_window(a) && a != (gmacdev.DmaBase + DmaRxPollDemand) as u64
                ==> final(bus).reg(a) == old(bus).reg(a),
        final(bus).sc_fuel == old(bus).fuel_of(0, (gmacdev.DmaBase + DmaRxPollDemand) as u64),
{
    proof {
        lemma_in_win(*bus, gmacdev.DmaBase, 0x60, DmaRxPollDemand as u64);
    }
    eth_mac_write_reg(bus, gmacdev.DmaBase, DmaRxPollDemand, 0);
}

/// Ask the DMA engine to rescan the transmit descriptor ring.
pub fn eth_gmac_resume_dma_tx(gmacdev: &net_device, bus: &mut MmioBus)
    requires
        dma_win(*old(bus), gmacdev.DmaBase),
    ensures
        final(bus).same_rules(*old(bus)),
        final(bus).reg((gmacdev.DmaBase + DmaTxPollDemand) as u64) == old(bus).stored_of(
            0,
            (gmacdev.DmaBase + DmaTxPollDemand) as u64,
        ),
        forall|a: u64|
            old(bus).in_window(a) && a != (gmacdev.DmaBase + DmaTxPollDemand) as u64
                ==> final(bus).reg(a) == old(bus).reg(a),
        final(bus).sc_fuel == old(bus).fuel_of(0, (gmacdev.DmaBase + DmaTxPollDemand) as u64),
{
    proof {
        lemma_in_win(*bus, gmacdev.DmaBase, 0x60, DmaTxPollDemand as u64);
    }
    eth_mac_write_reg(bus, gmacdev.DmaBase, DmaTxPollDemand, 0);
}

/// Start the receive DMA engine.
pub fn eth_dma_enable_rx(gmacdev: &net_device, bus: &mut MmioBus)
    requires
        dma_win(*old(bus), gmacdev.DmaBase),
    ensures
        final(bus).same_rules(*old(bus)),
        final(bus).reg((gmacdev.DmaBase + DmaControl) as u64) == old(bus).stored_of(
            old(bus).reg((gmacdev.DmaBase + DmaControl) as u64) | DmaRxStart,
            (gmacdev.DmaBase + DmaControl) as u64,
        ),
        forall|a: u64|
            old(bus).in_window(a) && a != (gmacdev.DmaBase + DmaControl) as u64 ==> final(bus).reg(
                a,
            ) == old(bus).reg(a),
        final(bus).sc_fuel == old(bus).fuel_of(
            old(bus).reg((gmacdev.DmaBase + DmaControl) as u64) | DmaRxStart,
            (gmacdev.DmaBase + DmaControl) as u64,
        ),
{
    proof {
        lemma_in_win(*bus, gmacdev.DmaBase, 0x60, DmaControl as u64);
    }
    eth_mac_set_bits(bus, gmacdev.DmaBase, DmaControl, DmaRxStart);
}

/// Start the transmit DMA engine.
pub fn eth_dma_enable_tx(gmacdev: &net_device, bus: &mut MmioBus)
    requires
        dma_win(*old(bus), gmacdev.DmaBase),
    ensures
        final(bus).same_rules(*old(bus)),
        final(bus).reg((gmacdev.DmaBase + DmaControl) as u64) == old(bus).stored_of(
            old(bus).reg((gmacdev.DmaBase + DmaControl) as u64) | DmaTxStart,
            (gmacdev.DmaBase + DmaControl) as u64,
        ),
        forall|a: u64|
            old(bus).in_window(a) && a != (gmacdev.DmaBase + DmaControl) as u64 ==> final(bus).reg(
                a,
            ) == old(bus).reg(a),
        final(bus).sc_fuel == old(bus).fuel_of(
            old(bus).reg((gmacdev.DmaBase + DmaControl) as u64) | DmaTxStart,
            (gmacdev.DmaBase + DmaControl) as u64,
        ),
{
    proof {
        lemma_in_win(*bus, gmacdev.DmaBase, 0x60, DmaControl as u64);
    }
    eth_mac_set_bits(bus, gmacdev.DmaBase, DmaControl, DmaTxStart);
}

/// Stop the transmit DMA engine.
pub fn eth_gmac_disable_dma_tx(gmacdev: &net_device, bus: &mut MmioBus)
    requires
        dma_win(*old(bus), gmacdev.DmaBase),
    ensures
        final(bus).same_rules(*old(bus)),
        final(bus).reg((gmacdev.DmaBase + DmaControl) as u64) == old(bus).stored_of(
            old(bus).reg((gmacdev.DmaBase + DmaControl) as u64) & !DmaTxStart,
            (gmacdev.DmaBase + DmaControl) as u64,
        ),
        forall|a: u64|
            old(bus).in_window(a) && a != (gmacdev.DmaBase + DmaControl) as u64 ==> final(bus).reg(
                a,
            ) == old(bus).reg(a),
        final(bus).sc_fuel == old(bus).fuel_of(
            old(bus).reg((gmacdev.DmaBase + DmaControl) as u64) & !DmaTxStart,
            (gmacdev.DmaBase + DmaControl) as u64,
        ),
{
    proof {
        lemma_in_win(*bus, gmacdev.DmaBase, 0x60, DmaControl as u64);
    }
    eth_mac_clear_bits(bus, gmacdev.DmaBase, DmaControl, DmaTxStart);
}

/// Stop the receive DMA engine.
pub fn eth_gmac_disable_dma_rx(gmacdev: &net_device, bus: &mut MmioBus)
    requires
        dma_win(*old(bus), gmacdev.DmaBase),
    ensures
        final(bus).same_rules(*old(bus)),
        final(bus).reg((gmacdev.DmaBase + DmaControl) as u64) == old(bus).stored_of(
            old(bus).reg((gmacdev.DmaBase + DmaControl) as u64) & !DmaRxStart,
            (gmacdev.DmaBase + DmaControl) as u64,
        ),
        forall|a: u64|
            old(bus).in_window(a) && a != (gmacdev.DmaBase + DmaControl) as u64 ==> final(bus).reg(
                a,
            ) == old(bus).reg(a),
        final(bus).sc_fuel == old(bus).fuel_of(
            old(bus).reg((gmacdev.DmaBase + DmaControl) as u64) & !DmaRxStart,
            (gmacdev.DmaBase + DmaControl) as u64,
        ),
{
    proof {
        lemma_in_win(*bus, gmacdev.DmaBase, 0x60, DmaControl as u64);
    }
    eth_mac_clear_bits(bus, gmacdev.DmaBase, DmaControl, DmaRxStart);
}

/// Enable the MAC receiver.
pub fn eth_gmac_enable_rx(gmacdev: &net_device, bus: &mut MmioBus)
    requires
        mac_win(*old(bus), gmacdev.MacBase),
    ensures
        final(bus).same_rules(*old(bus)),
        final(bus).reg((gmacdev.MacBase + GmacConfig) as u64) == old(bus).stored_of(
            old(bus).reg((gmacdev.MacBase + GmacConfig) as u64) | GmacRx,
            (gmacdev.MacBase + GmacConfig) as u64,
        ),
        forall|a: u64|
            old(bus).in_window(a) && a != (gmacdev.MacBase + GmacConfig) as u64 ==> final(bus).reg(
                a,
            ) == old(bus).reg(a),
        final(bus).sc_fuel == old(bus).fuel_of(
            old(bus).reg((gmacdev.MacBase + GmacConfig) as u64) | GmacRx,
            (gmacdev.MacBase + GmacConfig) as u64,
        ),
{
    proof {
        lemma_in_win(*bus, gmacdev.MacBase, 0x210, GmacConfig as u64);
    }
    eth_mac_set_bits(bus, gmacdev.MacBase, GmacConfig, GmacRx);
}

/// Enable the MAC transmitter.
pub fn eth_gmac_enable_tx(gmacdev: &net_device, bus: &mut MmioBus)
    requires
        mac_win(*old(bus), gmacdev.MacBase),
    ensures
        final(bus).same_rules(*old(bus)),
        final(bus).reg((gmacdev.MacBase + GmacConfig) as u64) == old(bus).stored_of(
            old(bus).reg((gmacdev.MacBase + GmacConfig) as u64) | GmacTx,
            (gmacdev.MacBase + GmacConfig) as u64,
        ),
        forall|a: u64|
            old(bus).in_window(a) && a != (gmacdev.MacBase + GmacConfig) as u64 ==> final(bus).reg(
                a,
            ) == old(bus).reg(a),
        final(bus).sc_fuel == old(bus).fuel_of(
            old(bus).reg((gmacdev.MacBase + GmacConfig) as u64) | GmacTx,
            (gmacdev.MacBase + GmacConfig) as u64,
        ),
{
    proof {
        lemma_in_win(*bus, gmacdev.MacBase, 0x210, GmacConfig as u64);
    }
    eth_mac_set_bits(bus, gmacdev.MacBase, GmacConfig, GmacTx);
}

/// Disable the MAC receiver.
pub fn eth_gmac_disable_rx(gmacdev: &net_device, bus: &mut MmioBus)
    requires
        mac_win(*old(bus), gmacdev.MacBase),
    ensures
        final(bus).same_rules(*old(bus)),
        final(bus).reg((gmacdev.MacBase + GmacConfig) as u64) == old(bus).stored_of(
            old(bus).reg((gmacdev.MacBase + GmacConfig) as u64) & !GmacRx,
            (gmacdev.MacBase + GmacConfig) as u64,
        ),
        forall|a: u64|
            old(bus).in_window(a) && a != (gmacdev.MacBase + GmacConfig) as u64 ==> final(bus).reg(
                a,
            ) == old(bus).reg(a),
        final(bus).sc_fuel == old(bus).fuel_of(
            old(bus).reg((gmacdev.MacBase + GmacConfig) as u64) & !GmacRx,
            (gmacdev.MacBase + GmacConfig) as u64,
        ),
{
    proof {
        lemma_in_win(*bus, gmacdev.MacBase, 0x210, GmacConfig as u64);
    }
    eth_mac_clear_bits(bus, gmacdev.MacBase, GmacConfig, GmacRx);
}

/// Disable the MAC transmitter.
pub fn eth_gmac_disable_tx(gmacdev: &net_device, bus: &mut MmioBus)
    requires
        mac_win(*old(bus), gmacdev.MacBase),
    ensures
        final(bus).same_rules(*old(bus)),
        final(bus).reg((gmacdev.MacBase + GmacConfig) as u64) == old(bus).stored_of(
            old(bus).reg((gmacdev.MacBase + GmacConfig) as u64) & !GmacTx,
            (gmacdev.MacBase + GmacConfig) as u64,
        ),
        forall|a: u64|
            old(bus).in_window(a) && a != (gmacdev.MacBase + GmacConfig) as u64 ==> final(bus).reg(
                a,
            ) == old(bus).reg(a),
        final(bus).sc_fuel == old(bus).fuel_of(
            old(bus).reg((gmacdev.MacBase + GmacConfig) as u64) & !GmacTx,
            (gmacdev.MacBase + GmacConfig) as u64,
        ),
{
    proof {
        lemma_in_win(*bus, gmacdev.MacBase, 0x210, GmacConfig as u64);
    }
    eth_mac_clear_bits(bus, gmacdev.MacBase, GmacConfig, GmacTx);
}

/// Acknowledge every interrupt cause currently latched in the DMA status
/// register by writing the value back.
pub fn eth_dma_clear_curr_irq(gmacdev: &net_device, bus: &mut MmioBus)
    requires
        dma_win(*old(bus), gmacdev.DmaBase),
    ensures
        final(bus).same_rules(*old(bus)),
        final(bus).reg((gmacdev.DmaBase + DmaStatus) as u64) == old(bus).stored_of(
            old(bus).reg((gmacdev.DmaBase + DmaStatus) as u64),
            (gmacdev.DmaBase + DmaStatus) as u64,
        ),
        forall|a: u64|
            old(bus).in_window(a) && a != (gmacdev.DmaBase + DmaStatus) as u64 ==> final(bus).reg(
                a,
            ) == old(bus).reg(a),
        final(bus).sc_fuel == old(bus).fuel_of(
            old(bus).reg((gmacdev.DmaBase + DmaStatus) as u64),
            (gmacdev.DmaBase + DmaStatus) as u64,
        ),
{
    proof {
        lemma_in_win(*bus, gmacdev.DmaBase, 0x60, DmaStatus as u64);
    }
    let data: u32 = eth_mac_read_reg(bus, gmacdev.DmaBase, DmaStatus);
    eth_mac_write_reg(bus, gmacdev.DmaBase, DmaStatus, data);
}

/// Acknowledge the given interrupt causes.
pub fn eth_dma_clear_irq(gmacdev: &net_device, bus: &mut MmioBus, value: u32)
    requires
        dma_win(*old(bus), gmacdev.DmaBase),
    ensures
        final(bus).same_rules(*old(bus)),
        final(bus).reg((gmacdev.DmaBase + DmaStatus) as u64) == old(bus).stored_of(
            value,
            (gmacdev.DmaBase + DmaStatus) as u64,
        ),
        forall|a: u64|
            old(bus).in_window(a) && a != (gmacdev.DmaBase + DmaStatus) as u64 ==> final(bus).reg(
                a,
            ) == old(bus).reg(a),
        final(bus).sc_fuel == old(bus).fuel_of(value, (gmacdev.DmaBase + DmaStatus) as u64),
{
    proof {
        lemma_in_win(*bus, gmacdev.DmaBase, 0x60, DmaStatus as u64);
    }
    eth_mac_write_reg(bus, gmacdev.DmaBase, DmaStatus, value);
}

/// Program the DMA interrupt enable mask.
pub fn eth_dma_enable_interrupt(gmacdev: &net_device, bus: &mut MmioBus, value: u32)
    requires
        dma_win(*old(bus), gmacdev.DmaBase),
    ensures
        final(bus).same_rules(*old(bus)),
        final(bus).reg((gmacdev.DmaBase + DmaInterrupt) as u64) == old(bus).stored_of(
            value,
            (gmacdev.DmaBase + DmaInterrupt) as u64,
        ),
        forall|a: u64|
            old(bus).in_window(a) && a != (gmacdev.DmaBase + DmaInterrupt) as u64
                ==> final(bus).reg(a) == old(bus).reg(a),
        final(bus).sc_fuel == old(bus).fuel_of(value, (gmacdev.DmaBase + DmaInterrupt) as u64),
{
    proof {
        lemma_in_win(*bus, gmacdev.DmaBase, 0x60, DmaInterrupt as u64);
    }
    eth_mac_write_reg(bus, gmacdev.DmaBase, DmaInterrupt, value);
}

/// Mask every DMA interrupt.
pub fn eth_dma_disable_interrupt_all(gmacdev: &net_device, bus: &mut MmioBus)
    requires
        dma_win(*old(bus), gmacdev.DmaBase),
    ensures
        final(bus).same_rules(*old(bus)),
        final(bus).reg((gmacdev.DmaBase + DmaInterrupt) as u64) == old(bus).stored_of(
            DmaIntDisable,
            (gmacdev.DmaBase + DmaInterrupt) as u64,
        ),
        forall|a: u64|
            old(bus).in_window(a) && a != (gmacdev.DmaBase + DmaInterrupt) as u64
                ==> final(bus).reg(a) == old(bus).reg(a),
        final(bus).sc_fuel == old(bus).fuel_of(
            DmaIntDisable,
            (gmacdev.DmaBase + DmaInterrupt) as u64,
        ),
{
    proof {
        lemma_in_win(*bus, gmacdev.DmaBase, 0x60, DmaInterrupt as u64);
    }
    eth_mac_write_reg(bus, gmacdev.DmaBase, DmaInterrupt, DmaIntDisable);
}

/// Mask the given DMA interrupt causes.
pub fn eth_dma_disable_interrupt(gmacdev: &net_device, bus: &mut MmioBus, value: u32)
    requires
        dma_win(*old(bus), gmacdev.DmaBase),
    ensures
        final(bus).same_rules(*old(bus)),
        final(bus).reg((gmacdev.DmaBase + DmaInterrupt) as u64) == old(bus).stored_of(
            old(bus).reg((gmacdev.DmaBase + DmaInterrupt) as u64) & !value,
            (gmacdev.DmaBase + DmaInterrupt) as u64,
        ),
        forall|a: u64|
            old(bus).in_window(a) && a != (gmacdev.DmaBase + DmaInterrupt) as u64
                ==> final(bus).reg(a) == old(bus).reg(a),
        final(bus).sc_fuel == old(bus).fuel_of(
            old(bus).reg((gmacdev.DmaBase + DmaInterrupt) as u64) & !value,
            (gmacdev.DmaBase + DmaInterrupt) as u64,
        ),
{
    proof {
        lemma_in_win(*bus, gmacdev.DmaBase, 0x60, DmaInterrupt as u64);
    }
    eth_mac_clear_bits(bus, gmacdev.DmaBase, DmaInterrupt, value);
}

/// Mask every MMC counter interrupt.
pub fn eth_gmac_disable_mmc_irq(gmacdev: &net_device, bus: &mut MmioBus)
    requires
        mac_win(*old(bus), gmacdev.MacBase),
        plain_reg(*old(bus), (gmacdev.MacBase + GmacMmcIntrMaskTx) as u64),
        plain_reg(*old(bus), (gmacdev.MacBase + GmacMmcIntrMaskRx) as u64),
        plain_reg(*old(bus), (gmacdev.MacBase + GmacMmcRxIpcIntrMask) as u64),
    ensures
        final(bus).same_rules(*old(bus)),
        final(bus).sc_fuel == old(bus).sc_fuel,
        final(bus).reg((gmacdev.MacBase + GmacMmcIntrMaskTx) as u64) == 0xffffffffu32,
        final(bus).reg((gmacdev.MacBase + GmacMmcIntrMaskRx) as u64) == 0xffffffffu32,
        final(bus).reg((gmacdev.MacBase + GmacMmcRxIpcIntrMask) as u64) == 0xffffffffu32,
        forall|a: u64|
            ({
                &&& old(bus).in_window(a)
                &&& a != (gmacdev.MacBase + GmacMmcIntrMaskTx) as u64
                &&& a != (gmacdev.MacBase + GmacMmcIntrMaskRx) as u64
                &&& a != (gmacdev.MacBase + GmacMmcRxIpcIntrMask) as u64
            }) ==> final(bus).reg(a) == old(bus).reg(a),
{
    proof {
        lemma_in_win(*bus, gmacdev.MacBase, 0x210, GmacMmcIntrMaskTx as u64);
        lemma_in_win(*bus, gmacdev.MacBase, 0x210, GmacMmcIntrMaskRx as u64);
        lemma_in_win(*bus, gmacdev.MacBase, 0x210, GmacMmcRxIpcIntrMask as u64);
        lemma_and_zero();
    }
    eth_mac_write_reg(bus, gmacdev.MacBase, GmacMmcIntrMaskTx, 0xffffffff);
    eth_mac_write_reg(bus, gmacdev.MacBase, GmacMmcIntrMaskRx, 0xffffffff);
    eth_mac_write_reg(bus, gmacdev.MacBase, GmacMmcRxIpcIntrMask, 0xffffffff);
}

/// The descriptor is owned by the DMA engine.
pub fn eth_get_desc_owner(desc: &DmaDesc) -> (r: bool)
    ensures
        r == (desc.status & DescOwnByDma == DescOwnByDma),
{
    (desc.status & DescOwnByDma) == DescOwnByDma
}

/// The length of the received frame the descriptor reports.
pub fn eth_get_rx_length(desc: &DmaDesc) -> (r: u32)
    ensures
        r == (desc.status & DescFrameLengthMask) >> DescFrameLengthShift,
{
    (desc.status & DescFrameLengthMask) >> DescFrameLengthShift
}

/// The transmitted frame left without error.
pub fn eth_is_tx_desc_valid(desc: &DmaDesc) -> (r: bool)
    ensures
        r == (desc.status & DescError == 0),
{
    (desc.status & DescError) == 0
}

/// The descriptor carries no buffer.
pub fn eth_is_desc_empty(desc: &DmaDesc) -> (r: bool)
    ensures
        r == (desc.length & DescSize1Mask == 0 && desc.length & DescSize2Mask == 0),
{
    (desc.length & DescSize1Mask == 0) && (desc.length & DescSize2Mask == 0)
}

/// The received frame is whole and without error.
pub fn eth_is_rx_desc_valid(desc: &DmaDesc) -> (r: bool)
    ensures
        r == (desc.status & DescError == 0 && desc.status & DescRxFirst == DescRxFirst
            && desc.status & DescRxLast == DescRxLast),
{
    (desc.status & DescError == 0) && (desc.status & DescRxFirst == DescRxFirst) && (desc.status
        & DescRxLast == DescRxLast)
}

/// The descriptor closes the receive ring.
pub fn eth_is_last_rx_desc(desc: &DmaDesc) -> (r: bool)
    ensures
        r == (desc.length & RxDescEndOfRing == RxDescEndOfRing),
{
    desc.length & RxDescEndOfRing == RxDescEndOfRing
}

/// The descriptor closes the transmit ring.
pub fn eth_is_last_tx_desc(desc: &DmaDesc) -> (r: bool)
    ensures
        r == (desc.status & TxDescEndOfRing == TxDescEndOfRing),
{
    desc.status & TxDescEndOfRing == TxDescEndOfRing
}

/// Program the DMA bus mode: mixed burst, 8x length-32 bursts, four-word
/// descriptors without skip.
pub fn eth_dma_bus_mode_init(gmacdev: &net_device, bus: &mut MmioBus)
    requires
        dma_win(*old(bus), gmacdev.DmaBase),
        !old(bus).is_ro((gmacdev.DmaBase + DmaBusMode) as u64),
        old(bus).sc_mask_of((gmacdev.DmaBase + DmaBusMode) as u64) & (((0u32
            | DmaMixedBurstEnable) | (DmaBurstLengthx8 | DmaBurstLength32)) | (
        DmaDescriptor4DWords | DmaDescriptorSkip0)) == 0,
        old(bus).stuck_mask_of((gmacdev.DmaBase + DmaBusMode) as u64) == 0,
    ensures
        final(bus).same_rules(*old(bus)),
        final(bus).sc_fuel == old(bus).sc_fuel,
        final(bus).reg((gmacdev.DmaBase + DmaBusMode) as u64) == ((0u32 | DmaMixedBurstEnable) | (
        DmaBurstLengthx8 | DmaBurstLength32)) | (DmaDescriptor4DWords | DmaDescriptorSkip0),
        forall|a: u64|
            old(bus).in_window(a) && a != (gmacdev.DmaBase + DmaBusMode) as u64 ==> final(bus).reg(
                a,
            ) == old(bus).reg(a),
{
    proof {
        lemma_in_win(*bus, gmacdev.DmaBase, 0x60, DmaBusMode as u64);
        lemma_and_zero();
    }
    let mut value: u32 = 0;
    value |= DmaMixedBurstEnable;
    value |= DmaBurstLengthx8 | DmaBurstLength32;
    value |= DmaDescriptor4DWords | DmaDescriptorSkip0;
    eth_mac_write_reg(bus, gmacdev.DmaBase, DmaBusMode, value);
}

/// Program the DMA operation mode: store-and-forward, second-frame
/// transmission.
pub fn eth_dma_control_init(gmacdev: &net_device, bus: &mut MmioBus)
    requires
        dma_win(*old(bus), gmacdev.DmaBase),
        plain_reg(*old(bus), (gmacdev.DmaBase + DmaControl) as u64),
    ensures
        final(bus).same_rules(*old(bus)),
        final(bus).sc_fuel == old(bus).sc_fuel,
        final(bus).reg((gmacdev.DmaBase + DmaControl) as u64) == 0u32 | (DmaStoreAndForward
            | DmaTxSecondFrame),
        forall|a: u64|
            old(bus).in_window(a) && a != (gmacdev.DmaBase + DmaControl) as u64 ==> final(bus).reg(
                a,
            ) == old(bus).reg(a),
{
    proof {
        lemma_in_win(*bus, gmacdev.DmaBase, 0x60, DmaControl as u64);
        lemma_and_zero();
    }
    let mut value: u32 = 0;
    value |= DmaStoreAndForward | DmaTxSecondFrame;
    eth_mac_write_reg(bus, gmacdev.DmaBase, DmaControl, value);
}

/// Program the AXI bus mode register with the platform's burst settings.
pub fn eth_dma_axi_bus_mode_init(gmacdev: &net_device, bus: &mut MmioBus)
    requires
        dma_win(*old(bus), gmacdev.DmaBase),
        plain_reg(*old(bus), (gmacdev.DmaBase + 0x28) as u64),
    ensures
        final(bus).same_rules(*old(bus)),
        final(bus).sc_fuel == old(bus).sc_fuel,
        final(bus).reg((gmacdev.DmaBase + 0x28) as u64) == (0u32 | 0xff) | (0x77u32 << 16),
        forall|a: u64|
            old(bus).in_window(a) && a != (gmacdev.DmaBase + 0x28) as u64 ==> final(bus).reg(a)
                == old(bus).reg(a),
{
    proof {
        lemma_in_win(*bus, gmacdev.DmaBase, 0x60, 0x28);
        lemma_and_zero();
    }
    let mut value: u32 = 0;
    value |= 0xff;
    value |= 0x77u32 << 16;
    eth_mac_write_reg(bus, gmacdev.DmaBase, 0x28, value);
}

/// Program all three DMA configuration registers.
pub fn eth_dma_reg_init(gmacdev: &net_device, bus: &mut MmioBus)
    requires
        dma_win(*old(bus), gmacdev.DmaBase),
        !old(bus).is_ro((gmacdev.DmaBase + DmaBusMode) as u64),
        old(bus).sc_mask_of((gmacdev.DmaBase + DmaBusMode) as u64) & (((0u32
            | DmaMixedBurstEnable) | (DmaBurstLengthx8 | DmaBurstLength32)) | (
        DmaDescriptor4DWords | DmaDescriptorSkip0)) == 0,
        old(bus).stuck_mask_of((gmacdev.DmaBase + DmaBusMode) as u64) == 0,
        plain_reg(*old(bus), (gmacdev.DmaBase + DmaControl) as u64),
        plain_reg(*old(bus), (gmacdev.DmaBase + 0x28) as u64),
    ensures
        final(bus).same_rules(*old(bus)),
        final(bus).sc_fuel == old(bus).sc_fuel,
        final(bus).reg((gmacdev.DmaBase + DmaBusMode) as u64) == ((0u32 | DmaMixedBurstEnable) | (
        DmaBurstLengthx8 | DmaBurstLength32)) | (DmaDescriptor4DWords | DmaDescriptorSkip0),
        final(bus).reg((gmacdev.DmaBase + DmaControl) as u64) == 0u32 | (DmaStoreAndForward
            | DmaTxSecondFrame),
        final(bus).reg((gmacdev.DmaBase + 0x28) as u64) == (0u32 | 0xff) | (0x77u32 << 16),
        forall|a: u64|
            ({
                &&& old(bus).in_window(a)
                &&& a != (gmacdev.DmaBase + DmaBusMode) as u64
                &&& a != (gmacdev.DmaBase + DmaControl) as u64
                &&& a != (gmacdev.DmaBase + 0x28) as u64
            }) ==> final(bus).reg(a) == old(bus).reg(a),
{
    proof {
        lemma_rules_transfer(*bus, *old(bus), (gmacdev.DmaBase + DmaBusMode) as u64);
    }
    eth_dma_bus_mode_init(gmacdev, bus);
    proof {
        lemma_rules_transfer(*bus, *old(bus), (gmacdev.DmaBase + DmaControl) as u64);
    }
    eth_dma_control_init(gmacdev, bus);
    proof {
        lemma_rules_transfer(*bus, *old(bus), (gmacdev.DmaBase + 0x28) as u64);
    }
    eth_dma_axi_bus_mode_init(gmacdev, bus);
}

/// Select the given back-off limit in the MAC configuration.
pub fn eth_gmac_back_off_limit(gmacdev: &net_device, bus: &mut MmioBus, value: u32)
    requires
        mac_win(*old(bus), gmacdev.MacBase),
        plain_reg(*old(bus), (gmacdev.MacBase + GmacConfig) as u64),
    ensures
        final(bus).same_rules(*old(bus)),
        final(bus).sc_fuel == old(bus).sc_fuel,
        final(bus).reg((gmacdev.MacBase + GmacConfig) as u64) == (old(bus).reg(
            (gmacdev.MacBase + GmacConfig) as u64,
        ) & !GmacBackoffLimit) | value,
        forall|a: u64|
            old(bus).in_window(a) && a != (gmacdev.MacBase + GmacConfig) as u64 ==> final(bus).reg(
                a,
            ) == old(bus).reg(a),
{
    proof {
        lemma_in_win(*bus, gmacdev.MacBase, 0x210, GmacConfig as u64);
        lemma_and_zero();
    }
    let mut data: u32 = eth_mac_read_reg(bus, gmacdev.MacBase, GmacConfig);
    data &= !GmacBackoffLimit;
    data |= value;
    eth_mac_write_reg(bus, gmacdev.MacBase, GmacConfig, data);
}

/// The MAC configuration after initialisation, as a function of its previous
/// value.
pub open spec fn spec_gmac_config_value(c: u32) -> u32 {
    let c1 = c | GmacTxConfig;
    let c2 = c1 & !GmacWatchdog;
    let c3 = c2 & !GmacJabber;
    let c4 = c3 & !GmacFrameBurst;
    let c5 = c4 & !GmacJumboFrame;
    let c6 = c5 & !GmacRxOwn;
    let c7 = c6 & !GmacLoopback;
    let c8 = c7 | GmacDuplex;
    let c9 = c8 & !GmacRetry;
    let c10 = c9 & !GmacPadCrcStrip;
    let c11 = c10 & !GmacDeferralCheck;
    (c11 & !GmacBackoffLimit) | GmacBackoffLimit0
}

/// Program the MAC configuration: gigabit transmit, full duplex, no
/// watchdog, jabber, burst, jumbo, loopback, retry, strip or deferral check.
pub fn eth_gmac_config_init(gmacdev: &net_device, bus: &mut MmioBus)
    requires
        mac_win(*old(bus), gmacdev.MacBase),
        plain_reg(*old(bus), (gmacdev.MacBase + GmacConfig) as u64),
    ensures
        final(bus).same_rules(*old(bus)),
        final(bus).sc_fuel == old(bus).sc_fuel,
        final(bus).reg((gmacdev.MacBase + GmacConfig) as u64) == spec_gmac_config_value(
            old(bus).reg((gmacdev.MacBase + GmacConfig) as u64),
        ),
        forall|a: u64|
            old(bus).in_window(a) && a != (gmacdev.MacBase + GmacConfig) as u64 ==> final(bus).reg(
                a,
            ) == old(bus).reg(a),
{
    proof {
        lemma_in_win(*bus, gmacdev.MacBase, 0x210, GmacConfig as u64);
        lemma_and_zero();
    }
    eth_mac_set_bits(bus, gmacdev.MacBase, GmacConfig, GmacTxConfig);
    eth_mac_clear_bits(bus, gmacdev.MacBase, GmacConfig, GmacWatchdog);
    eth_mac_clear_bits(bus, gmacdev.MacBase, GmacConfig, GmacJabber);
    eth_mac_clear_bits(bus, gmacdev.MacBase, GmacConfig, GmacFrameBurst);
    eth_mac_clear_bits(bus, gmacdev.MacBase, GmacConfig, GmacJumboFrame);
    eth_mac_clear_bits(bus, gmacdev.MacBase, GmacConfig, GmacRxOwn);
    eth_mac_clear_bits(bus, gmacdev.MacBase, GmacConfig, GmacLoopback);
    eth_mac_set_bits(bus, gmacdev.MacBase, GmacConfig, GmacDuplex);
    eth_mac_clear_bits(bus, gmacdev.MacBase, GmacConfig, GmacRetry);
    eth_mac_clear_bits(bus, gmacdev.MacBase, GmacConfig, GmacPadCrcStrip);
    eth_mac_clear_bits(bus, gmacdev.MacBase, GmacConfig, GmacDeferralCheck);
    eth_gmac_back_off_limit(gmacdev, bus, GmacBackoffLimit0);
}

/// Select which control frames pass the filter.
pub fn eth_gmac_set_pass_control(gmacdev: &net_device, bus: &mut MmioBus, value: u32)
    requires
        mac_win(*old(bus), gmacdev.MacBase),
        plain_reg(*old(bus), (gmacdev.MacBase + GmacFrameFilter) as u64),
    ensures
        final(bus).same_rules(*old(bus)),
        final(bus).sc_fuel == old(bus).sc_fuel,
        final(bus).reg((gmacdev.MacBase + GmacFrameFilter) as u64) == (old(bus).reg(
            (gmacdev.MacBase + GmacFrameFilter) as u64,
        ) & !GmacPassControl) | value,
        forall|a: u64|
            old(bus).in_window(a) && a != (gmacdev.MacBase + GmacFrameFilter) as u64
                ==> final(bus).reg(a) == old(bus).reg(a),
{
    proof {
        lemma_in_win(*bus, gmacdev.MacBase, 0x210, GmacFrameFilter as u64);
        lemma_and_zero();
    }
    let mut data: u32 = eth_mac_read_reg(bus, gmacdev.MacBase, GmacFrameFilter);
    data &= !GmacPassControl;
    data |= value;
    eth_mac_write_reg(bus, gmacdev.MacBase, GmacFrameFilter, data);
}

/// The frame filter after initialisation, as a function of its previous
/// value.
pub open spec fn spec_gmac_filter_value(f: u32) -> u32 {
    let f1 = f & !GmacSrcAddrFilter;
    let f2 = (f1 & !GmacPassControl) | GmacPassControl0;
    let f3 = f2 & !GmacBroadcast;
    let f4 = f3 & !GmacMulticastFilter;
    let f5 = f4 & !GmacDestAddrFilter;
    let f6 = f5 & !GmacMcastHashFilter;
    let f7 = f6 & !GmacUcastHashFilter;
    let f8 = f7 & !GmacPromiscuousMode;
    f8 | GmacFilter
}

/// Program the frame filter: pass broadcast, multicast and all unicast, no
/// promiscuous mode, no hash or source filtering.
pub fn eth_gmac_frame_filter(gmacdev: &net_device, bus: &mut MmioBus)
    requires
        mac_win(*old(bus), gmacdev.MacBase),
        plain_reg(*old(bus), (gmacdev.MacBase + GmacFrameFilter) as u64),
    ensures
        final(bus).same_rules(*old(bus)),
        final(bus).sc_fuel == old(bus).sc_fuel,
        final(bus).reg((gmacdev.MacBase + GmacFrameFilter) as u64) == spec_gmac_filter_value(
            old(bus).reg((gmacdev.MacBase + GmacFrameFilter) as u64),
        ),
        forall|a: u64|
            old(bus).in_window(a) && a != (gmacdev.MacBase + GmacFrameFilter) as u64
                ==> final(bus).reg(a) == old(bus).reg(a),
{
    proof {
        lemma_in_win(*bus, gmacdev.MacBase, 0x210, GmacFrameFilter as u64);
        lemma_and_zero();
    }
    eth_mac_clear_bits(bus, gmacdev.MacBase, GmacFrameFilter, GmacSrcAddrFilter);
    eth_gmac_set_pass_control(gmacdev, bus, GmacPassControl0);
    eth_mac_clear_bits(bus, gmacdev.MacBase, GmacFrameFilter, GmacBroadcast);
    eth_mac_clear_bits(bus, gmacdev.MacBase, GmacFrameFilter, GmacMulticastFilter);
    eth_mac_clear_bits(bus, gmacdev.MacBase, GmacFrameFilter, GmacDestAddrFilter);
    eth_mac_clear_bits(bus, gmacdev.MacBase, GmacFrameFilter, GmacMcastHashFilter);
    eth_mac_clear_bits(bus, gmacdev.MacBase, GmacFrameFilter, GmacUcastHashFilter);
    eth_mac_clear_bits(bus, gmacdev.MacBase, GmacFrameFilter, GmacPromiscuousMode);
    eth_mac_set_bits(bus, gmacdev.MacBase, GmacFrameFilter, GmacFilter);
}

/// Disable hardware flow control and mask the pause time.
pub fn eth_gmac_flow_control(gmacdev: &net_device, bus: &mut MmioBus)
    requires
        dma_win(*old(bus), gmacdev.DmaBase),
        mac_win(*old(bus), gmacdev.MacBase),
        plain_reg(*old(bus), (gmacdev.DmaBase + DmaControl) as u64),
        plain_reg(*old(bus), (gmacdev.MacBase + GmacFlowControl) as u64),
        (gmacdev.DmaBase + DmaControl) as u64 != (gmacdev.MacBase + GmacFlowControl) as u64,
    ensures
        final(bus).same_rules(*old(bus)),
        final(bus).sc_fuel == old(bus).sc_fuel,
        final(bus).reg((gmacdev.DmaBase + DmaControl) as u64) == (old(bus).reg(
            (gmacdev.DmaBase + DmaControl) as u64,
        ) & !(DmaRxFlowCtrlAct | DmaRxFlowCtrlDeact)) & !DmaEnHwFlowCtrl,
        final(bus).reg((gmacdev.MacBase + GmacFlowControl) as u64) == (0u32 | GmacPauseTimeMask)
            & !(GmacRxFlowControl | GmacTxFlowControl),
        forall|a: u64|
            ({
                &&& old(bus).in_window(a)
                &&& a != (gmacdev.DmaBase + DmaControl) as u64
                &&& a != (gmacdev.MacBase + GmacFlowControl) as u64
            }) ==> final(bus).reg(a) == old(bus).reg(a),
{
    proof {
        lemma_in_win(*bus, gmacdev.DmaBase, 0x60, DmaControl as u64);
        lemma_in_win(*bus, gmacdev.MacBase, 0x210, GmacFlowControl as u64);
        lemma_and_zero();
    }
    let mut dma_ctrl: u32 = eth_mac_read_reg(bus, gmacdev.DmaBase, DmaControl);
    dma_ctrl &= !(DmaRxFlowCtrlAct | DmaRxFlowCtrlDeact);
    dma_ctrl &= !DmaEnHwFlowCtrl;
    eth_mac_write_reg(bus, gmacdev.DmaBase, DmaControl, dma_ctrl);

    let mut flow_ctrl: u32 = 0;
    flow_ctrl |= GmacPauseTimeMask;
    flow_ctrl &= !(GmacRxFlowControl | GmacTxFlowControl);
    eth_mac_write_reg(bus, gmacdev.MacBase, GmacFlowControl, flow_ctrl);
}

/// Program the MAC configuration, frame filter and flow control.
pub fn eth_gmac_reg_init(gmacdev: &net_device, bus: &mut MmioBus)
    requires
        dma_win(*old(bus), gmacdev.DmaBase),
        mac_win(*old(bus), gmacdev.MacBase),
        plain_reg(*old(bus), (gmacdev.MacBase + GmacConfig) as u64),
        plain_reg(*old(bus), (gmacdev.MacBase + GmacFrameFilter) as u64),
        plain_reg(*old(bus), (gmacdev.DmaBase + DmaControl) as u64),
        plain_reg(*old(bus), (gmacdev.MacBase + GmacFlowControl) as u64),
        (gmacdev.DmaBase + DmaControl) as u64 != (gmacdev.MacBase + GmacFlowControl) as u64,
        (gmacdev.DmaBase + DmaControl) as u64 != (gmacdev.MacBase + GmacConfig) as u64,
        (gmacdev.DmaBase + DmaControl) as u64 != (gmacdev.MacBase + GmacFrameFilter) as u64,
    ensures
        final(bus).same_rules(*old(bus)),
        final(bus).sc_fuel == old(bus).sc_fuel,
        final(bus).reg((gmacdev.MacBase + GmacConfig) as u64) == spec_gmac_config_value(
            old(bus).reg((gmacdev.MacBase + GmacConfig) as u64),
        ),
        final(bus).reg((gmacdev.MacBase + GmacFrameFilter) as u64) == spec_gmac_filter_value(
            old(bus).reg((gmacdev.MacBase + GmacFrameFilter) as u64),
        ),
        final(bus).reg((gmacdev.DmaBase + DmaControl) as u64) == (old(bus).reg(
            (gmacdev.DmaBase + DmaControl) as u64,
        ) & !(DmaRxFlowCtrlAct | DmaRxFlowCtrlDeact)) & !DmaEnHwFlowCtrl,
        final(bus).reg((gmacdev.MacBase + GmacFlowControl) as u64) == (0u32 | GmacPauseTimeMask)
            & !(GmacRxFlowControl | GmacTxFlowControl),
        forall|a: u64|
            ({
                &&& old(bus).in_window(a)
                &&& a != (gmacdev.MacBase + GmacConfig) as u64
                &&& a != (gmacdev.MacBase + GmacFrameFilter) as u64
                &&& a != (gmacdev.DmaBase + DmaControl) as u64
                &&& a != (gmacdev.MacBase + GmacFlowControl) as u64
            }) ==> final(bus).reg(a) == old(bus).reg(a),
{
    proof {
        lemma_rules_transfer(*bus, *old(bus), (gmacdev.MacBase + GmacConfig) as u64);
    }
    eth_gmac_config_init(gmacdev, bus);
    proof {
        lemma_rules_transfer(*bus, *old(bus), (gmacdev.MacBase + GmacFrameFilter) as u64);
    }
    eth_gmac_frame_filter(gmacdev, bus);
    proof {
        lemma_rules_transfer(*bus, *old(bus), (gmacdev.DmaBase + DmaControl) as u64);
        lemma_rules_transfer(*bus, *old(bus), (gmacdev.MacBase + GmacFlowControl) as u64);
    }
    eth_gmac_flow_control(gmacdev, bus);
}

} // verus!

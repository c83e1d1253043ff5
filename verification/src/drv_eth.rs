use vstd::prelude::*;

use crate::eth_defs::net_device;
use crate::eth_defs::DmaDesc;
use crate::eth_defs::DescOwnByDma;
use crate::eth_defs::DescRxFirst;
use crate::eth_defs::DescRxLast;
use crate::eth_defs::DescError;
use crate::eth_defs::DescFrameLengthMask;
use crate::eth_defs::DescFrameLengthShift;
use crate::eth_defs::DescSize1Mask;
use crate::eth_defs::DescSize1Shift;
use crate::eth_defs::DescSize2Mask;
use crate::eth_defs::DescTxFirst;
use crate::eth_defs::DescTxIntEnable;
use crate::eth_defs::DescTxLast;
use crate::eth_defs::DmaInterrupt;
use crate::eth_defs::DmaIntEnable;
use crate::eth_defs::DmaTxPollDemand;
use crate::eth_defs::DmaRxBaseAddr;
use crate::eth_defs::DmaTxBaseAddr;
use crate::eth_defs::GmacGmiiAddr;
use crate::eth_defs::GmiiBusy;
use crate::eth_defs::GmiiDevMask;
use crate::eth_defs::GmiiDevShift;
use crate::eth_defs::GmiiRegMask;
use crate::eth_defs::GmiiRegShift;
use crate::eth_defs::DmaControl;
use crate::eth_defs::GmacInterruptMask;
use crate::eth_defs::GmacInterruptStatus;
use crate::eth_defs::GmacLineIntfIntr;
use crate::eth_defs::GmacRgmiiIntSts;
use crate::eth_defs::DmaIntRxCompleted;
use crate::eth_defs::DmaIntRxNoBuffer;
use crate::eth_defs::DmaIntRxStopped;
use crate::eth_defs::DmaIntTxCompleted;
use crate::eth_defs::DmaRxStart;
use crate::eth_defs::DmaStatus;
use crate::eth_defs::DmaRxPollDemand;
use crate::eth_defs::GmacAddr0High;
use crate::eth_defs::GmacAddr0Low;
use crate::eth_defs::GmacConfig;
use crate::eth_defs::GmacFlowControl;
use crate::eth_defs::GmacFrameFilter;
use crate::eth_defs::GmacMmcIntrMaskRx;
use crate::eth_defs::GmacMmcIntrMaskTx;
use crate::eth_defs::GmacMmcRxIpcIntrMask;
use crate::eth_defs::GmacPauseTimeMask;
use crate::eth_defs::GmacRgsmiiStatus;
use crate::eth_defs::GmacRx;
use crate::eth_defs::GmacRxFlowControl;
use crate::eth_defs::GmacTx;
use crate::eth_defs::GmacTxFlowControl;
use crate::eth_defs::GmacVersion;
use crate::eth_defs::DmaBurstLength32;
use crate::eth_defs::DmaBurstLengthx8;
use crate::eth_defs::DmaBusMode;
use crate::eth_defs::DmaDescriptor4DWords;
use crate::eth_defs::DmaDescriptorSkip0;
use crate::eth_defs::DmaEnHwFlowCtrl;
use crate::eth_defs::DmaMixedBurstEnable;
use crate::eth_defs::DmaResetOn;
use crate::eth_defs::DmaRxFlowCtrlAct;
use crate::eth_defs::DmaRxFlowCtrlDeact;
use crate::eth_defs::DmaStoreAndForward;
use crate::eth_defs::DmaTxSecondFrame;
use crate::eth_defs::DmaTxStart;
use crate::eth_defs::MacLinkMode;
use crate::eth_defs::MacLinkSpeed;
use crate::eth_defs::MacLinkSpeed_125;
use crate::eth_defs::MacLinkSpeed_25;
use crate::eth_defs::MacLinkStatus;
use crate::eth_defs::MacLinkStatusOff;
use crate::eth_defs::RxDescEndOfRing;
use crate::eth_defs::TxDescEndOfRing;
use crate::eth_dev::dma_win;
use crate::eth_dev::eth_dma_clear_curr_irq;
use crate::eth_dev::eth_dma_disable_interrupt_all;
use crate::eth_dev::eth_dma_enable_tx;
use crate::eth_dev::eth_dma_reg_init;
use crate::eth_dev::eth_dma_reset;
use crate::eth_dev::eth_gmac_disable_mmc_irq;
use crate::eth_dev::eth_gmac_enable_rx;
use crate::eth_dev::eth_gmac_enable_tx;
use crate::eth_dev::eth_gmac_reg_init;
use crate::eth_dev::eth_mac_set_addr;
use crate::eth_dev::eth_dma_enable_interrupt;
use crate::eth_dev::eth_dma_enable_rx;
use crate::eth_dev::eth_gmac_resume_dma_rx;
use crate::eth_dev::eth_get_desc_owner;
use crate::eth_dev::eth_get_rx_length;
use crate::eth_dev::eth_gmac_resume_dma_tx;
use crate::eth_dev::eth_is_desc_empty;
use crate::eth_dev::eth_is_last_rx_desc;
use crate::eth_dev::eth_is_last_tx_desc;
use crate::eth_dev::eth_is_rx_desc_valid;
use crate::eth_dev::eth_is_tx_desc_valid;
use crate::eth_dev::eth_mac_read_reg;
use crate::eth_dev::eth_mac_write_reg;
use crate::eth_dev::eth_mdio_read;
use crate::eth_dev::mac_win;
use crate::eth_dev::spec_gmac_config_value;
use crate::eth_dev::spec_gmac_filter_value;
use crate::mmio::MmioBus;
use crate::platform::eth_handle_rx_buffer;
use crate::platform::eth_malloc_align;
use crate::platform::eth_handle_tx_buffer;
use crate::platform::eth_phys_to_virt;
use crate::platform::eth_rx_ready;
use crate::platform::eth_sync_dcache;
use crate::platform::eth_update_linkstate;
use crate::platform::eth_isr_install;
use crate::platform::eth_virt_to_phys;

verus! {

use crate::drv_ahci::lemma_and_zero;
use crate::drv_ahci::lemma_in_win;
use crate::drv_ahci::lemma_rules_transfer;
use crate::drv_ahci::plain_reg;

/// The fields of the device state the data paths never touch.
pub open spec fn nd_same_core(a: net_device, b: net_device) -> bool {
    &&& b.iobase == a.iobase
    &&& b.MacAddr@ == a.MacAddr@
    &&& b.MacBase == a.MacBase
    &&& b.DmaBase == a.DmaBase
    &&& b.PhyBase == a.PhyBase
    &&& b.Version == a.Version
}

/// Read the RGSMII status and record the link state, duplex mode and speed
/// the MAC reports; tell the host when the link state changed.
pub fn eth_phy_rgsmii_check(gmacdev: &mut net_device, bus: &MmioBus)
    requires
        mac_win(*bus, old(gmacdev).MacBase),
    ensures
        nd_same_core(*old(gmacdev), *final(gmacdev)),
        final(gmacdev).TxDesc@ == old(gmacdev).TxDesc@,
        final(gmacdev).RxDesc@ == old(gmacdev).RxDesc@,
        final(gmacdev).TxBuffer@ == old(gmacdev).TxBuffer@,
        final(gmacdev).RxBuffer@ == old(gmacdev).RxBuffer@,
        final(gmacdev).TxBusy == old(gmacdev).TxBusy,
        final(gmacdev).TxNext == old(gmacdev).TxNext,
        final(gmacdev).RxBusy == old(gmacdev).RxBusy,
        final(gmacdev).tx_packets == old(gmacdev).tx_packets,
        final(gmacdev).tx_errors == old(gmacdev).tx_errors,
        final(gmacdev).tx_bytes == old(gmacdev).tx_bytes,
        final(gmacdev).rx_packets == old(gmacdev).rx_packets,
        final(gmacdev).rx_errors == old(gmacdev).rx_errors,
        final(gmacdev).rx_bytes == old(gmacdev).rx_bytes,
        ({
            let v = bus.reg((old(gmacdev).MacBase + GmacRgsmiiStatus) as u64);
            let status = v & (MacLinkStatus >> MacLinkStatusOff);
            if status != 0 {
                &&& final(gmacdev).LinkStatus == 1
                &&& final(gmacdev).DuplexMode == v & MacLinkMode
                &&& final(gmacdev).Speed == (if v & MacLinkSpeed == MacLinkSpeed_125 {
                    1000u32
                } else if v & MacLinkSpeed == MacLinkSpeed_25 {
                    100u32
                } else {
                    10u32
                })
            } else {
                &&& final(gmacdev).LinkStatus == 0
                &&& final(gmacdev).DuplexMode == old(gmacdev).DuplexMode
                &&& final(gmacdev).Speed == old(gmacdev).Speed
            }
        }),
{
    proof {
        lemma_in_win(*bus, gmacdev.MacBase, 0x210, GmacRgsmiiStatus as u64);
    }
    let value: u32 = eth_mac_read_reg(bus, gmacdev.MacBase, GmacRgsmiiStatus);
    let status: u32 = value & (MacLinkStatus >> MacLinkStatusOff);

    if gmacdev.LinkStatus != status {
        eth_update_linkstate(gmacdev, status);
    }

    if status != 0 {
        gmacdev.LinkStatus = 1;
        gmacdev.DuplexMode = value & MacLinkMode;
        let speed: u32 = value & MacLinkSpeed;
        if speed == MacLinkSpeed_125 {
            gmacdev.Speed = 1000;
        } else if speed == MacLinkSpeed_25 {
            gmacdev.Speed = 100;
        } else {
            gmacdev.Speed = 10;
        }
    } else {
        gmacdev.LinkStatus = 0;
    }
}

/// Hand one frame to the transmit ring: fill the next descriptor with the
/// host's data, pass ownership to the DMA engine and poke its poll-demand
/// register.  Refused with -1 while the engine still owns the descriptor.
pub fn eth_tx(gmacdev: &mut net_device, bus: &mut MmioBus, pbuf: u64) -> (r: i32)
    requires
        old(gmacdev).rings_wf(),
        (old(gmacdev).TxNext as int) < old(gmacdev).TxDesc@.len(),
        old(gmacdev).TxDesc@.len() <= u32::MAX,
        dma_win(*old(bus), old(gmacdev).DmaBase),
        old(gmacdev).TxBuffer@[old(gmacdev).TxNext as int] <= u32::MAX,
    ensures
        nd_same_core(*old(gmacdev), *final(gmacdev)),
        final(gmacdev).RxDesc@ == old(gmacdev).RxDesc@,
        final(gmacdev).TxBuffer@ == old(gmacdev).TxBuffer@,
        final(gmacdev).RxBuffer@ == old(gmacdev).RxBuffer@,
        final(gmacdev).RxBusy == old(gmacdev).RxBusy,
        final(gmacdev).TxBusy == old(gmacdev).TxBusy,
        ({
            let i = old(gmacdev).TxNext as int;
            let d0 = old(gmacdev).TxDesc@[i];
            if d0.status & DescOwnByDma == DescOwnByDma {
                &&& r == -1
                &&& final(gmacdev).TxDesc@ == old(gmacdev).TxDesc@
                &&& final(gmacdev).TxNext == old(gmacdev).TxNext
                &&& final(bus).words@ == old(bus).words@
                &&& final(bus).sc_fuel == old(bus).sc_fuel
            } else {
                let is_last = d0.status & TxDescEndOfRing == TxDescEndOfRing;
                let d1 = DmaDesc {
                    status: d0.status | (DescOwnByDma | DescTxIntEnable | DescTxLast
                        | DescTxFirst),
                    length: (0u32 << DescSize1Shift) & DescSize1Mask,
                    buffer1: old(gmacdev).TxBuffer@[i] as u32,
                    buffer2: 0,
                };
                &&& r == 0
                &&& final(gmacdev).TxDesc@ == old(gmacdev).TxDesc@.update(i, d1)
                &&& final(gmacdev).TxNext == (if is_last {
                    0u32
                } else {
                    (old(gmacdev).TxNext + 1) as u32
                })
                &&& final(bus).same_rules(*old(bus))
                &&& final(bus).reg((old(gmacdev).DmaBase + DmaTxPollDemand) as u64) == old(
                    bus,
                ).stored_of(0, (old(gmacdev).DmaBase + DmaTxPollDemand) as u64)
                &&& forall|a: u64|
                    old(bus).in_window(a) && a != (old(gmacdev).DmaBase + DmaTxPollDemand) as u64
                        ==> final(bus).reg(a) == old(bus).reg(a)
            }
        }),
{
    let desc_idx: u32 = gmacdev.TxNext;
    let mut txdesc: DmaDesc = gmacdev.TxDesc[desc_idx as usize];
    let is_last: bool = eth_is_last_tx_desc(&txdesc);

    if eth_get_desc_owner(&txdesc) {
        return -1;
    }

    let buffer: u64 = gmacdev.TxBuffer[desc_idx as usize];
    let length: u32 = eth_handle_tx_buffer(pbuf, buffer);
    let dma_addr: u32 = eth_virt_to_phys(buffer);

    txdesc.status |= DescOwnByDma | DescTxIntEnable | DescTxLast | DescTxFirst;
    txdesc.length = length << DescSize1Shift & DescSize1Mask;
    txdesc.buffer1 = dma_addr;
    txdesc.buffer2 = 0;
    gmacdev.TxDesc.set(desc_idx as usize, txdesc);

    gmacdev.TxNext = if is_last {
        0
    } else {
        desc_idx + 1
    };

    eth_sync_dcache();

    eth_gmac_resume_dma_tx(gmacdev, bus);

    0
}

/// Collect one frame from the receive ring: when the next descriptor holds a
/// whole valid frame, hand it to the host and count it, otherwise count an
/// error; either way give the descriptor back to the DMA engine.  While the
/// engine still owns the descriptor, re-enable interrupts and report nothing.
pub fn eth_rx(gmacdev: &mut net_device, bus: &mut MmioBus) -> (r: u64)
    requires
        old(gmacdev).rings_wf(),
        (old(gmacdev).RxBusy as int) < old(gmacdev).RxDesc@.len(),
        old(gmacdev).RxDesc@.len() <= u32::MAX,
        dma_win(*old(bus), old(gmacdev).DmaBase),
        old(gmacdev).rx_bytes + 0x4000 <= u64::MAX,
        old(gmacdev).rx_packets < u64::MAX,
        old(gmacdev).rx_errors < u64::MAX,
    ensures
        nd_same_core(*old(gmacdev), *final(gmacdev)),
        final(gmacdev).TxDesc@ == old(gmacdev).TxDesc@,
        final(gmacdev).TxBuffer@ == old(gmacdev).TxBuffer@,
        final(gmacdev).RxBuffer@ == old(gmacdev).RxBuffer@,
        final(gmacdev).TxBusy == old(gmacdev).TxBusy,
        final(gmacdev).TxNext == old(gmacdev).TxNext,
        r == 0,
        ({
            let i = old(gmacdev).RxBusy as int;
            let d0 = old(gmacdev).RxDesc@[i];
            let empty = d0.length & DescSize1Mask == 0 && d0.length & DescSize2Mask == 0;
            let owned = d0.status & DescOwnByDma == DescOwnByDma;
            if empty || owned {
                &&& final(gmacdev).RxDesc@ == old(gmacdev).RxDesc@
                &&& final(gmacdev).RxBusy == old(gmacdev).RxBusy
                &&& final(gmacdev).rx_packets == old(gmacdev).rx_packets
                &&& final(gmacdev).rx_errors == old(gmacdev).rx_errors
                &&& final(bus).same_rules(*old(bus))
                &&& final(bus).reg((old(gmacdev).DmaBase + DmaInterrupt) as u64) == old(
                    bus,
                ).stored_of(DmaIntEnable, (old(gmacdev).DmaBase + DmaInterrupt) as u64)
                &&& forall|a: u64|
                    old(bus).in_window(a) && a != (old(gmacdev).DmaBase + DmaInterrupt) as u64
                        ==> final(bus).reg(a) == old(bus).reg(a)
            } else {
                let is_last = d0.length & RxDescEndOfRing == RxDescEndOfRing;
                let valid = d0.status & DescError == 0 && d0.status & DescRxFirst == DescRxFirst
                    && d0.status & DescRxLast == DescRxLast;
                let d1 = DmaDesc {
                    status: DescOwnByDma,
                    length: (if is_last {
                        RxDescEndOfRing
                    } else {
                        0u32
                    }) | (2048u32 << DescSize1Shift & DescSize1Mask),
                    buffer1: d0.buffer1,
                    buffer2: 0,
                };
                &&& final(gmacdev).RxDesc@ == old(gmacdev).RxDesc@.update(i, d1)
                &&& final(gmacdev).RxBusy == (if is_last {
                    0u32
                } else {
                    (old(gmacdev).RxBusy + 1) as u32
                })
                &&& (valid ==> final(gmacdev).rx_packets == old(gmacdev).rx_packets + 1
                    && final(gmacdev).rx_bytes == old(gmacdev).rx_bytes + ((d0.status
                    & DescFrameLengthMask) >> DescFrameLengthShift) && final(gmacdev).rx_errors
                    == old(gmacdev).rx_errors)
                &&& (!valid ==> final(gmacdev).rx_errors == old(gmacdev).rx_errors + 1
                    && final(gmacdev).rx_packets == old(gmacdev).rx_packets
                    && final(gmacdev).rx_bytes == old(gmacdev).rx_bytes)
                &&& final(bus).words@ == old(bus).words@
                &&& final(bus).sc_fuel == old(bus).sc_fuel
            }
        }),
{
    let desc_idx: u32 = gmacdev.RxBusy;
    let mut rxdesc: DmaDesc = gmacdev.RxDesc[desc_idx as usize];
    let is_last: bool = eth_is_last_rx_desc(&rxdesc);

    if eth_is_desc_empty(&rxdesc) || eth_get_desc_owner(&rxdesc) {
        eth_dma_enable_interrupt(gmacdev, bus, DmaIntEnable);
        return 0;
    }

    let mut pbuf: u64 = 0;
    let dma_addr: u32 = rxdesc.buffer1;

    if eth_is_rx_desc_valid(&rxdesc) {
        let length: u32 = eth_get_rx_length(&rxdesc);
        proof {
            let s = rxdesc.status;
            assert((s & 0x3FFF0000u32) >> 16u32 <= 0x3FFF) by (bit_vector);
        }
        let buffer: u64 = eth_phys_to_virt(dma_addr);

        eth_sync_dcache();

        pbuf = eth_handle_rx_buffer(buffer, length);
        gmacdev.rx_bytes += length as u64;
        gmacdev.rx_packets += 1;
    } else {
        gmacdev.rx_errors += 1;
    }

    rxdesc.status = DescOwnByDma;
    rxdesc.length = if is_last {
        RxDescEndOfRing
    } else {
        0
    };
    rxdesc.length |= 2048u32 << DescSize1Shift & DescSize1Mask;
    rxdesc.buffer1 = dma_addr;
    rxdesc.buffer2 = 0;
    gmacdev.RxDesc.set(desc_idx as usize, rxdesc);

    gmacdev.RxBusy = if is_last {
        0
    } else {
        desc_idx + 1
    };
    pbuf
}

proof fn lemma_eth_init_bits(x: u32)
    by (bit_vector)
    ensures
        1u32 & (x | (0x10u32 | 0x1u32)) != 0,
        1u32 & (((0u32 | 0x4000000u32) | (0x1000000u32 | 0x2000u32)) | (0u32 | 0u32)) == 0,
        1u32 & 1u32 != 0,
{
}

/// Probe the attached PHY: read its two identifier registers over MDIO.
/// The identity is diagnostic only; the bus is left with the MDIO address
/// register of the second read, and the device's acknowledgment budget pays
/// for the two management reads.
pub fn eth_phy_init(gmacdev: &mut net_device, bus: &mut MmioBus)
    requires
        mac_win(*old(bus), old(gmacdev).MacBase),
        old(gmacdev).PhyBase <= u32::MAX,
        !old(bus).is_ro((old(gmacdev).MacBase + GmacGmiiAddr) as u64),
        old(bus).sc_mask_of((old(gmacdev).MacBase + GmacGmiiAddr) as u64) == GmiiBusy,
    ensures
        *final(gmacdev) == *old(gmacdev),
        final(bus).same_rules(*old(bus)),
        forall|a: u64|
            old(bus).in_window(a) && a != (old(gmacdev).MacBase + GmacGmiiAddr) as u64
                ==> final(bus).reg(a) == old(bus).reg(a),
        final(bus).sc_fuel == (if old(bus).sc_fuel >= 2 {
            (old(bus).sc_fuel - 2) as u32
        } else {
            0u32
        }),
{
    proof {
        lemma_eth_init_bits(0);
    }
    let mut phy: u32 = 0;
    let mut data: u32;

    data = eth_mdio_read(bus, gmacdev.MacBase, gmacdev.PhyBase as u32, 2) as u32;
    proof {
        crate::drv_ahci::lemma_rules_transfer(
            *bus,
            *old(bus),
            (gmacdev.MacBase + GmacGmiiAddr) as u64,
        );
        lemma_eth_init_bits((gmacdev.PhyBase as u32) << GmiiDevShift & GmiiDevMask | (3u32
            << GmiiRegShift) & GmiiRegMask);
        lemma_eth_init_bits((gmacdev.PhyBase as u32) << GmiiDevShift & GmiiDevMask | (2u32
            << GmiiRegShift) & GmiiRegMask);
    }
    phy |= data << 16;
    data = eth_mdio_read(bus, gmacdev.MacBase, gmacdev.PhyBase as u32, 3) as u32;
    phy |= data;
}

/// Build the transmit descriptor ring: `desc_num` empty descriptors, the
/// last one closing the ring, each with its own DMA buffer from the platform
/// pool; program the ring's DMA address and reset both ring cursors.
#[verifier::loop_isolation(false)]
pub fn eth_setup_tx_desc_queue(
    gmacdev: &mut net_device,
    bus: &mut MmioBus,
    mem: &mut crate::platform::PlatMem,
    desc_num: u32,
)
    requires
        dma_win(*old(bus), old(gmacdev).DmaBase),
        crate::drv_ahci::plain_reg(*old(bus), (old(gmacdev).DmaBase + DmaTxBaseAddr) as u64),
        1 <= desc_num <= 1024,
        old(mem).next >= 1,
        old(mem).next + 16 + 16 * desc_num + desc_num * (16 + 2048) <= u32::MAX,
    ensures
        nd_same_core(*old(gmacdev), *final(gmacdev)),
        final(gmacdev).RxDesc@ == old(gmacdev).RxDesc@,
        final(gmacdev).RxBuffer@ == old(gmacdev).RxBuffer@,
        final(gmacdev).RxBusy == old(gmacdev).RxBusy,
        final(gmacdev).TxNext == 0,
        final(gmacdev).TxBusy == 0,
        final(gmacdev).TxDesc@.len() == desc_num,
        final(gmacdev).TxBuffer@.len() == desc_num,
        forall|i: int|
            0 <= i < desc_num ==> final(gmacdev).TxDesc@[i] == (DmaDesc {
                status: if i == desc_num - 1 {
                    TxDescEndOfRing
                } else {
                    0u32
                },
                length: 0,
                buffer1: 0,
                buffer2: 0,
            }),
        forall|i: int| 0 <= i < desc_num ==> (#[trigger] final(gmacdev).TxBuffer@[i]) >= 1,
        final(bus).same_rules(*old(bus)),
        final(bus).sc_fuel == old(bus).sc_fuel,
        forall|a: u64|
            old(bus).in_window(a) && a != (old(gmacdev).DmaBase + DmaTxBaseAddr) as u64
                ==> final(bus).reg(a) == old(bus).reg(a),
        final(mem).next >= old(mem).next,
        final(mem).next <= old(mem).next + 16 + 16 * desc_num + desc_num * (16 + 2048),
{
    proof {
        lemma_in_win(*bus, gmacdev.DmaBase, 0x60, DmaTxBaseAddr as u64);
        lemma_and_zero();
    }
    let ring: u64 = eth_malloc_align(mem, 16 * desc_num as u64, 16);
    let dma_addr: u32 = eth_virt_to_phys(ring);

    gmacdev.TxNext = 0;
    gmacdev.TxBusy = 0;

    eth_mac_write_reg(bus, gmacdev.DmaBase, DmaTxBaseAddr, dma_addr);

    gmacdev.TxDesc = Vec::new();
    gmacdev.TxBuffer = Vec::new();
    let mut i: u32 = 0;
    while i < desc_num
        invariant
            i <= desc_num,
            gmacdev.TxDesc@.len() == i,
            gmacdev.TxBuffer@.len() == i,
            mem.next >= 1,
            mem.next >= old(mem).next,
            mem.next <= old(mem).next + 16 + 16 * desc_num + i * (16 + 2048),
            mem.next + (desc_num - i) * (16 + 2048) <= u32::MAX,
            forall|k: int|
                0 <= k < i ==> gmacdev.TxDesc@[k] == (DmaDesc {
                    status: if k == desc_num - 1 {
                        TxDescEndOfRing
                    } else {
                        0u32
                    },
                    length: 0,
                    buffer1: 0,
                    buffer2: 0,
                }),
            forall|k: int| 0 <= k < i ==> (#[trigger] gmacdev.TxBuffer@[k]) >= 1,
            nd_same_core(*old(gmacdev), *gmacdev),
            gmacdev.RxDesc@ == old(gmacdev).RxDesc@,
            gmacdev.RxBuffer@ == old(gmacdev).RxBuffer@,
            gmacdev.RxBusy == old(gmacdev).RxBusy,
            gmacdev.TxNext == 0,
            gmacdev.TxBusy == 0,
        decreases desc_num - i,
    {
        let buffer: u64 = eth_malloc_align(mem, 2048, 16);
        let is_last: bool = i == desc_num - 1;
        gmacdev.TxDesc.push(
            DmaDesc {
                status: if is_last {
                    TxDescEndOfRing
                } else {
                    0
                },
                length: 0,
                buffer1: 0,
                buffer2: 0,
            },
        );
        gmacdev.TxBuffer.push(buffer);
        i += 1;
    }
}

/// Build the receive descriptor ring: `desc_num` descriptors owned by the
/// DMA engine, each pointing at its own 2048-byte buffer, the last one
/// closing the ring; program the ring's DMA address and reset the cursor.
#[verifier::loop_isolation(false)]
pub fn eth_setup_rx_desc_queue(
    gmacdev: &mut net_device,
    bus: &mut MmioBus,
    mem: &mut crate::platform::PlatMem,
    desc_num: u32,
)
    requires
        dma_win(*old(bus), old(gmacdev).DmaBase),
        crate::drv_ahci::plain_reg(*old(bus), (old(gmacdev).DmaBase + DmaRxBaseAddr) as u64),
        1 <= desc_num <= 1024,
        old(mem).next >= 1,
        old(mem).next + 16 + 16 * desc_num + desc_num * (16 + 2048) <= u32::MAX,
    ensures
        nd_same_core(*old(gmacdev), *final(gmacdev)),
        final(gmacdev).TxDesc@ == old(gmacdev).TxDesc@,
        final(gmacdev).TxBuffer@ == old(gmacdev).TxBuffer@,
        final(gmacdev).TxNext == old(gmacdev).TxNext,
        final(gmacdev).TxBusy == old(gmacdev).TxBusy,
        final(gmacdev).RxBusy == 0,
        final(gmacdev).RxDesc@.len() == desc_num,
        final(gmacdev).RxBuffer@.len() == desc_num,
        forall|i: int|
            0 <= i < desc_num ==> ({
                let d = #[trigger] final(gmacdev).RxDesc@[i];
                &&& d.status == DescOwnByDma
                &&& d.length == (if i == desc_num - 1 {
                    RxDescEndOfRing
                } else {
                    0u32
                }) | ((2048u32 << DescSize1Shift) & DescSize1Mask)
                &&& d.buffer1 == final(gmacdev).RxBuffer@[i] as u32
                &&& d.buffer2 == 0
            }),
        forall|i: int| 0 <= i < desc_num ==> (#[trigger] final(gmacdev).RxBuffer@[i]) >= 1,
        final(bus).same_rules(*old(bus)),
        final(bus).sc_fuel == old(bus).sc_fuel,
        forall|a: u64|
            old(bus).in_window(a) && a != (old(gmacdev).DmaBase + DmaRxBaseAddr) as u64
                ==> final(bus).reg(a) == old(bus).reg(a),
        final(mem).next >= old(mem).next,
        final(mem).next <= old(mem).next + 16 + 16 * desc_num + desc_num * (16 + 2048),
{
    proof {
        lemma_in_win(*bus, gmacdev.DmaBase, 0x60, DmaRxBaseAddr as u64);
        lemma_and_zero();
    }
    let ring: u64 = eth_malloc_align(mem, 16 * desc_num as u64, 16);
    let mut dma_addr: u32 = eth_virt_to_phys(ring);

    gmacdev.RxBusy = 0;

    eth_mac_write_reg(bus, gmacdev.DmaBase, DmaRxBaseAddr, dma_addr);

    gmacdev.RxDesc = Vec::new();
    gmacdev.RxBuffer = Vec::new();
    let mut i: u32 = 0;
    while i < desc_num
        invariant
            i <= desc_num,
            gmacdev.RxDesc@.len() == i,
            gmacdev.RxBuffer@.len() == i,
            mem.next >= 1,
            mem.next >= old(mem).next,
            mem.next <= old(mem).next + 16 + 16 * desc_num + i * (16 + 2048),
            mem.next + (desc_num - i) * (16 + 2048) <= u32::MAX,
            forall|k: int|
                0 <= k < i ==> ({
                    let d = #[trigger] gmacdev.RxDesc@[k];
                    &&& d.status == DescOwnByDma
                    &&& d.length == (if k == desc_num - 1 {
                        RxDescEndOfRing
                    } else {
                        0u32
                    }) | ((2048u32 << DescSize1Shift) & DescSize1Mask)
                    &&& d.buffer1 == gmacdev.RxBuffer@[k] as u32
                    &&& d.buffer2 == 0
                }),
            forall|k: int| 0 <= k < i ==> (#[trigger] gmacdev.RxBuffer@[k]) >= 1,
            nd_same_core(*old(gmacdev), *gmacdev),
            gmacdev.TxDesc@ == old(gmacdev).TxDesc@,
            gmacdev.TxBuffer@ == old(gmacdev).TxBuffer@,
            gmacdev.TxNext == old(gmacdev).TxNext,
            gmacdev.TxBusy == old(gmacdev).TxBusy,
            gmacdev.RxBusy == 0,
        decreases desc_num - i,
    {
        let buffer: u64 = eth_malloc_align(mem, 2048, 16);
        dma_addr = eth_virt_to_phys(buffer);
        let is_last: bool = i == desc_num - 1;
        gmacdev.RxDesc.push(
            DmaDesc {
                status: DescOwnByDma,
                length: (if is_last {
                    RxDescEndOfRing
                } else {
                    0
                }) | ((2048u32 << DescSize1Shift) & DescSize1Mask),
                buffer1: dma_addr,
                buffer2: 0,
            },
        );
        gmacdev.RxBuffer.push(buffer);
        i += 1;
    }
}

/// A transmit descriptor the completion reap may process: not owned by the
/// DMA engine and not empty.
pub open spec fn spec_desc_reapable(d: DmaDesc) -> bool {
    &&& d.status & DescOwnByDma != DescOwnByDma
    &&& !(d.length & DescSize1Mask == 0 && d.length & DescSize2Mask == 0)
}

/// How many descriptors of the ring the completion reap may still process.
pub open spec fn spec_reapable(ring: Seq<DmaDesc>) -> int
    decreases ring.len(),
{
    if ring.len() == 0 {
        0
    } else {
        spec_reapable(ring.drop_last()) + if spec_desc_reapable(ring.last()) {
            1int
        } else {
            0int
        }
    }
}

proof fn lemma_reapable_nonneg(s: Seq<DmaDesc>)
    ensures
        0 <= spec_reapable(s) <= s.len(),
    decreases s.len(),
{
    if s.len() > 0 {
        lemma_reapable_nonneg(s.drop_last());
    }
}

proof fn lemma_reapable_at(s: Seq<DmaDesc>, i: int)
    requires
        0 <= i < s.len(),
        spec_desc_reapable(s[i]),
    ensures
        spec_reapable(s) >= 1,
    decreases s.len(),
{
    if i < s.len() - 1 {
        assert(s.drop_last()[i] == s[i]);
        lemma_reapable_at(s.drop_last(), i);
        lemma_reapable_nonneg(s.drop_last());
    } else {
        lemma_reapable_nonneg(s.drop_last());
    }
}

/// Replacing a reapable descriptor by an unreapable one lowers the reap
/// count by exactly one.
proof fn lemma_reapable_update(s: Seq<DmaDesc>, i: int, e: DmaDesc)
    requires
        0 <= i < s.len(),
        spec_desc_reapable(s[i]),
        !spec_desc_reapable(e),
    ensures
        spec_reapable(s.update(i, e)) == spec_reapable(s) - 1,
    decreases s.len(),
{
    if i == s.len() - 1 {
        assert(s.update(i, e).drop_last() =~= s.drop_last());
        assert(s.update(i, e).last() == e);
    } else {
        assert(s.update(i, e).drop_last() =~= s.drop_last().update(i, e));
        assert(s.drop_last()[i] == s[i]);
        lemma_reapable_update(s.drop_last(), i, e);
        assert(s.update(i, e).last() == s.last());
    }
}

/// The cleared form a processed descriptor takes: empty, keeping only its
/// end-of-ring marker.
pub open spec fn spec_tx_cleared(d: DmaDesc) -> DmaDesc {
    DmaDesc {
        status: if d.status & TxDescEndOfRing == TxDescEndOfRing {
            TxDescEndOfRing
        } else {
            0u32
        },
        length: 0,
        buffer1: 0,
        buffer2: 0,
    }
}

/// Reap completed transmissions: walk the ring from the busy cursor,
/// clearing each descriptor the engine has given back and counting it as a
/// sent frame or an error, until an engine-owned or empty descriptor stops
/// the walk.  Exactly the processed descriptors change, each to its cleared
/// form, and one frame or error is counted per processed descriptor.
#[verifier::loop_isolation(false)]
pub fn eth_handle_tx_over(gmacdev: &mut net_device)
    requires
        old(gmacdev).rings_wf(),
        1 <= old(gmacdev).TxDesc@.len() <= u32::MAX,
        (old(gmacdev).TxBusy as int) < old(gmacdev).TxDesc@.len(),
        old(gmacdev).TxDesc@.last().status & TxDescEndOfRing == TxDescEndOfRing,
        old(gmacdev).tx_packets + old(gmacdev).TxDesc@.len() <= u64::MAX,
        old(gmacdev).tx_errors + old(gmacdev).TxDesc@.len() <= u64::MAX,
        old(gmacdev).tx_bytes + 0x2000 * old(gmacdev).TxDesc@.len() <= u64::MAX,
    ensures
        nd_same_core(*old(gmacdev), *final(gmacdev)),
        final(gmacdev).RxDesc@ == old(gmacdev).RxDesc@,
        final(gmacdev).TxBuffer@ == old(gmacdev).TxBuffer@,
        final(gmacdev).RxBuffer@ == old(gmacdev).RxBuffer@,
        final(gmacdev).RxBusy == old(gmacdev).RxBusy,
        final(gmacdev).TxNext == old(gmacdev).TxNext,
        final(gmacdev).TxDesc@.len() == old(gmacdev).TxDesc@.len(),
        (final(gmacdev).TxBusy as int) < final(gmacdev).TxDesc@.len(),
        !spec_desc_reapable(final(gmacdev).TxDesc@[final(gmacdev).TxBusy as int]),
        forall|i: int|
            0 <= i < old(gmacdev).TxDesc@.len() ==> ((#[trigger] final(gmacdev).TxDesc@[i]) == old(
                gmacdev,
            ).TxDesc@[i] || final(gmacdev).TxDesc@[i] == spec_tx_cleared(old(gmacdev).TxDesc@[i])),
        final(gmacdev).tx_packets + final(gmacdev).tx_errors == old(gmacdev).tx_packets + old(
            gmacdev,
        ).tx_errors + (spec_reapable(old(gmacdev).TxDesc@) - spec_reapable(final(gmacdev).TxDesc@)),
        spec_reapable(final(gmacdev).TxDesc@) <= spec_reapable(old(gmacdev).TxDesc@),
{
    proof {
        lemma_reapable_nonneg(gmacdev.TxDesc@);
    }
    loop
        invariant
            gmacdev.rings_wf(),
            nd_same_core(*old(gmacdev), *gmacdev),
            gmacdev.RxDesc@ == old(gmacdev).RxDesc@,
            gmacdev.TxBuffer@ == old(gmacdev).TxBuffer@,
            gmacdev.RxBuffer@ == old(gmacdev).RxBuffer@,
            gmacdev.RxBusy == old(gmacdev).RxBusy,
            gmacdev.TxNext == old(gmacdev).TxNext,
            gmacdev.TxDesc@.len() == old(gmacdev).TxDesc@.len(),
            (gmacdev.TxBusy as int) < gmacdev.TxDesc@.len(),
            gmacdev.TxDesc@.last().status & TxDescEndOfRing == TxDescEndOfRing,
            forall|i: int|
                0 <= i < old(gmacdev).TxDesc@.len() ==> ((#[trigger] gmacdev.TxDesc@[i]) == old(
                    gmacdev,
                ).TxDesc@[i] || gmacdev.TxDesc@[i] == spec_tx_cleared(old(gmacdev).TxDesc@[i])),
            0 <= spec_reapable(gmacdev.TxDesc@) <= spec_reapable(old(gmacdev).TxDesc@),
            gmacdev.tx_packets + gmacdev.tx_errors == old(gmacdev).tx_packets + old(
                gmacdev,
            ).tx_errors + (spec_reapable(old(gmacdev).TxDesc@) - spec_reapable(gmacdev.TxDesc@)),
            gmacdev.tx_packets <= old(gmacdev).tx_packets + (spec_reapable(old(gmacdev).TxDesc@)
                - spec_reapable(gmacdev.TxDesc@)),
            gmacdev.tx_errors <= old(gmacdev).tx_errors + (spec_reapable(old(gmacdev).TxDesc@)
                - spec_reapable(gmacdev.TxDesc@)),
            gmacdev.tx_bytes <= old(gmacdev).tx_bytes + 0x2000 * (spec_reapable(old(
                gmacdev,
            ).TxDesc@) - spec_reapable(gmacdev.TxDesc@)),
        decreases spec_reapable(gmacdev.TxDesc@),
    {
        let desc_idx: u32 = gmacdev.TxBusy;
        let mut txdesc: DmaDesc = gmacdev.TxDesc[desc_idx as usize];

        if eth_get_desc_owner(&txdesc) || eth_is_desc_empty(&txdesc) {
            return ;
        }

        proof {
            lemma_reapable_at(gmacdev.TxDesc@, desc_idx as int);
            lemma_reapable_nonneg(old(gmacdev).TxDesc@);
            let l = txdesc.length;
            assert((l & 0x1FFFu32) >> 0u32 <= 0x1FFF) by (bit_vector);
        }

        if eth_is_tx_desc_valid(&txdesc) {
            let length: u32 = (txdesc.length & DescSize1Mask) >> DescSize1Shift;
            gmacdev.tx_bytes += length as u64;
            gmacdev.tx_packets += 1;
        } else {
            gmacdev.tx_errors += 1;
        }

        let is_last: bool = eth_is_last_tx_desc(&txdesc);
        txdesc.status = if is_last {
            TxDescEndOfRing
        } else {
            0
        };
        txdesc.length = 0;
        txdesc.buffer1 = 0;
        txdesc.buffer2 = 0;
        proof {
            lemma_and_zero();
            lemma_reapable_update(gmacdev.TxDesc@, desc_idx as int, txdesc);
            assert(desc_idx as int == gmacdev.TxDesc@.len() - 1 ==> txdesc.status
                == TxDescEndOfRing);
            assert(TxDescEndOfRing & TxDescEndOfRing == TxDescEndOfRing) by (bit_vector);
        }
        gmacdev.TxDesc.set(desc_idx as usize, txdesc);
        proof {
            assert(gmacdev.TxDesc@.last() == gmacdev.TxDesc@[gmacdev.TxDesc@.len() - 1]);
        }

        gmacdev.TxBusy = if is_last {
            0
        } else {
            desc_idx + 1
        };
    }
}

/// Service one interrupt: read and acknowledge the DMA status, mask
/// interrupts while working, fold in a link-state check when the line
/// interrupt fired, restart or resume reception when it stalled, reap
/// completed transmissions, and re-enable every cause that does not need
/// the host to drain data first.
#[verifier::rlimit(60)]
#[verifier::spinoff_prover]
pub fn eth_irq(gmacdev: &mut net_device, bus: &mut MmioBus)
    requires
        mac_win(*old(bus), old(gmacdev).MacBase),
        dma_win(*old(bus), old(gmacdev).DmaBase),
        crate::drv_ahci::plain_reg(*old(bus), (old(gmacdev).DmaBase + DmaStatus) as u64),
        crate::drv_ahci::plain_reg(*old(bus), (old(gmacdev).DmaBase + DmaInterrupt) as u64),
        crate::drv_ahci::plain_reg(*old(bus), (old(gmacdev).DmaBase + DmaControl) as u64),
        crate::drv_ahci::plain_reg(*old(bus), (old(gmacdev).DmaBase + DmaRxPollDemand) as u64),
        old(gmacdev).rings_wf(),
        1 <= old(gmacdev).TxDesc@.len() <= u32::MAX,
        (old(gmacdev).TxBusy as int) < old(gmacdev).TxDesc@.len(),
        old(gmacdev).TxDesc@.last().status & TxDescEndOfRing == TxDescEndOfRing,
        old(gmacdev).tx_packets + old(gmacdev).TxDesc@.len() <= u64::MAX,
        old(gmacdev).tx_errors + old(gmacdev).TxDesc@.len() <= u64::MAX,
        old(gmacdev).tx_bytes + 0x2000 * old(gmacdev).TxDesc@.len() <= u64::MAX,
        old(gmacdev).MacBase + 0x210 <= old(gmacdev).DmaBase || old(gmacdev).DmaBase + 0x60 <= old(
            gmacdev,
        ).MacBase,
    ensures
        nd_same_core(*old(gmacdev), *final(gmacdev)),
        final(bus).same_rules(*old(bus)),
        final(gmacdev).RxDesc@ == old(gmacdev).RxDesc@,
        final(gmacdev).TxBuffer@ == old(gmacdev).TxBuffer@,
        final(gmacdev).RxBuffer@ == old(gmacdev).RxBuffer@,
        final(gmacdev).RxBusy == old(gmacdev).RxBusy,
        final(gmacdev).TxNext == old(gmacdev).TxNext,
        ({
            let st = old(bus).reg((old(gmacdev).DmaBase + DmaStatus) as u64);
            if st == 0 {
                &&& final(bus).words@ == old(bus).words@
                &&& final(bus).sc_fuel == old(bus).sc_fuel
                &&& final(gmacdev).TxDesc@ == old(gmacdev).TxDesc@
                &&& final(gmacdev).TxBusy == old(gmacdev).TxBusy
            } else {
                let mask = if st & DmaIntRxCompleted != 0 {
                    (if st & DmaIntRxNoBuffer != 0 {
                        DmaIntEnable & !DmaIntRxNoBuffer
                    } else {
                        DmaIntEnable
                    }) & !DmaIntRxCompleted
                } else {
                    if st & DmaIntRxNoBuffer != 0 {
                        DmaIntEnable & !DmaIntRxNoBuffer
                    } else {
                        DmaIntEnable
                    }
                };
                &&& final(bus).sc_fuel == old(bus).sc_fuel
                &&& final(bus).reg((old(gmacdev).DmaBase + DmaStatus) as u64) == st
                &&& final(bus).reg((old(gmacdev).DmaBase + DmaInterrupt) as u64) == mask
                &&& (st & DmaIntRxStopped != 0 ==> final(bus).reg(
                    (old(gmacdev).DmaBase + DmaControl) as u64,
                ) == old(bus).reg((old(gmacdev).DmaBase + DmaControl) as u64) | DmaRxStart)
                &&& (st & DmaIntRxStopped == 0 ==> final(bus).reg(
                    (old(gmacdev).DmaBase + DmaControl) as u64,
                ) == old(bus).reg((old(gmacdev).DmaBase + DmaControl) as u64))
                &&& (st & DmaIntTxCompleted != 0 ==> !spec_desc_reapable(
                    final(gmacdev).TxDesc@[final(gmacdev).TxBusy as int],
                ) && (final(gmacdev).TxBusy as int) < final(gmacdev).TxDesc@.len())
                &&& (st & DmaIntTxCompleted == 0 ==> final(gmacdev).TxDesc@ == old(
                    gmacdev,
                ).TxDesc@ && final(gmacdev).TxBusy == old(gmacdev).TxBusy)
            }
        }),
{
    let ghost dma0: MmioBus = *bus;
    let mut dma_int_enable: u32 = DmaIntEnable;

    proof {
        lemma_in_win(*bus, gmacdev.DmaBase, 0x60, DmaStatus as u64);
        lemma_in_win(*bus, gmacdev.DmaBase, 0x60, DmaInterrupt as u64);
        lemma_in_win(*bus, gmacdev.DmaBase, 0x60, DmaControl as u64);
        lemma_in_win(*bus, gmacdev.DmaBase, 0x60, DmaRxPollDemand as u64);
        lemma_in_win(*bus, gmacdev.MacBase, 0x210, GmacInterruptStatus as u64);
        lemma_in_win(*bus, gmacdev.MacBase, 0x210, GmacInterruptMask as u64);
        lemma_in_win(*bus, gmacdev.MacBase, 0x210, GmacRgsmiiStatus as u64);
        lemma_and_zero();
    }

    let dma_status: u32 = eth_mac_read_reg(bus, gmacdev.DmaBase, DmaStatus);
    if dma_status == 0 {
        return ;
    }

    eth_dma_disable_interrupt_all(gmacdev, bus);

    if dma_status & GmacLineIntfIntr != 0 {
        eth_mac_read_reg(bus, gmacdev.MacBase, GmacInterruptStatus);
        eth_mac_read_reg(bus, gmacdev.MacBase, GmacInterruptMask);
        if eth_mac_read_reg(bus, gmacdev.MacBase, GmacInterruptStatus) & GmacRgmiiIntSts != 0 {
            eth_mac_read_reg(bus, gmacdev.MacBase, GmacRgsmiiStatus);
        }
        eth_phy_rgsmii_check(gmacdev, bus);
    }

    proof {
        crate::drv_ahci::lemma_rules_transfer(*bus, *old(bus), (gmacdev.DmaBase + DmaStatus) as u64);
    }
    eth_mac_write_reg(bus, gmacdev.DmaBase, DmaStatus, dma_status);

    if dma_status & DmaIntRxStopped != 0 {
        proof {
            crate::drv_ahci::lemma_rules_transfer(
                *bus,
                *old(bus),
                (gmacdev.DmaBase + DmaControl) as u64,
            );
        }
        eth_dma_enable_rx(gmacdev, bus);
    }
    if dma_status & DmaIntRxNoBuffer != 0 {
        dma_int_enable &= !DmaIntRxNoBuffer;
        proof {
            crate::drv_ahci::lemma_rules_transfer(
                *bus,
                *old(bus),
                (gmacdev.DmaBase + DmaRxPollDemand) as u64,
            );
        }
        eth_gmac_resume_dma_rx(gmacdev, bus);
        eth_rx_ready(gmacdev);
    }
    if dma_status & DmaIntRxCompleted != 0 {
        dma_int_enable &= !DmaIntRxCompleted;
        eth_rx_ready(gmacdev);
    }
    if dma_status & DmaIntTxCompleted != 0 {
        eth_handle_tx_over(gmacdev);
    }

    proof {
        crate::drv_ahci::lemma_rules_transfer(
            *bus,
            *old(bus),
            (gmacdev.DmaBase + DmaInterrupt) as u64,
        );
    }
    eth_dma_enable_interrupt(gmacdev, bus, dma_int_enable);
}

/// The canonical hardware model of the GMAC: the MAC window at `mb`, the
/// DMA window 0x1000 above it, the DMA reset request and the MDIO busy bit
/// self-clearing, and every configuration register the initialisation
/// writes held as plain storage.
pub open spec fn gmac_model(bus: MmioBus, mb: u64, db: u64) -> bool {
    &&& mac_win(bus, mb)
    &&& dma_win(bus, db)
    &&& db == mb + 0x1000
    &&& plain_reg(bus, (mb + GmacConfig) as u64)
    &&& plain_reg(bus, (mb + GmacFrameFilter) as u64)
    &&& plain_reg(bus, (mb + GmacFlowControl) as u64)
    &&& plain_reg(bus, (mb + GmacAddr0High) as u64)
    &&& plain_reg(bus, (mb + GmacAddr0Low) as u64)
    &&& plain_reg(bus, (mb + GmacMmcIntrMaskTx) as u64)
    &&& plain_reg(bus, (mb + GmacMmcIntrMaskRx) as u64)
    &&& plain_reg(bus, (mb + GmacMmcRxIpcIntrMask) as u64)
    &&& plain_reg(bus, (db + DmaControl) as u64)
    &&& plain_reg(bus, (db + DmaInterrupt) as u64)
    &&& plain_reg(bus, (db + DmaStatus) as u64)
    &&& plain_reg(bus, (db + 0x28) as u64)
    &&& plain_reg(bus, (db + DmaTxBaseAddr) as u64)
    &&& plain_reg(bus, (db + DmaRxBaseAddr) as u64)
    &&& !bus.is_ro((db + DmaBusMode) as u64)
    &&& bus.sc_mask_of((db + DmaBusMode) as u64) == DmaResetOn
    &&& bus.stuck_mask_of((db + DmaBusMode) as u64) == 0
    &&& !bus.is_ro((mb + GmacGmiiAddr) as u64)
    &&& bus.sc_mask_of((mb + GmacGmiiAddr) as u64) == GmiiBusy
    &&& bus.stuck_mask_of((mb + GmacGmiiAddr) as u64) == 0
}

/// Bring the controller up: read the MAC version, reset the DMA engine,
/// program the station address, probe the PHY, build both descriptor rings,
/// program the DMA and MAC configuration, silence the counter interrupts,
/// acknowledge stale interrupt causes, enable interrupts and start both
/// directions.  The device's acknowledgment budget pays for the reset and
/// the two PHY reads.
#[verifier::loop_isolation(false)]
#[verifier::rlimit(60)]
#[verifier::spinoff_prover]
pub fn eth_init(gmacdev: &mut net_device, bus: &mut MmioBus, mem: &mut crate::platform::PlatMem)
    -> (r: i32)
    requires
        gmac_model(*old(bus), old(gmacdev).iobase, (old(gmacdev).iobase + 0x1000) as u64),
        old(mem).next >= 1,
        old(mem).next + 2 * (16 + 16 * 128 + 128 * (16 + 2048)) <= u32::MAX,
    ensures
        r == 0,
        final(bus).same_rules(*old(bus)),
        final(gmacdev).MacBase == old(gmacdev).iobase,
        final(gmacdev).DmaBase == old(gmacdev).iobase + 0x1000,
        final(gmacdev).PhyBase == 0,
        final(gmacdev).Version == old(bus).reg((old(gmacdev).iobase + GmacVersion) as u64),
        final(gmacdev).rings_wf(),
        final(gmacdev).TxDesc@.len() == 128,
        final(gmacdev).RxDesc@.len() == 128,
        final(gmacdev).TxNext == 0,
        final(gmacdev).TxBusy == 0,
        final(gmacdev).RxBusy == 0,
        forall|i: int|
            0 <= i < 128 ==> (#[trigger] final(gmacdev).TxDesc@[i]) == (DmaDesc {
                status: if i == 127 {
                    TxDescEndOfRing
                } else {
                    0u32
                },
                length: 0,
                buffer1: 0,
                buffer2: 0,
            }),
        forall|i: int|
            0 <= i < 128 ==> ({
                let d = #[trigger] final(gmacdev).RxDesc@[i];
                &&& d.status == DescOwnByDma
                &&& d.length == (if i == 127 {
                    RxDescEndOfRing
                } else {
                    0u32
                }) | ((2048u32 << DescSize1Shift) & DescSize1Mask)
                &&& d.buffer1 == final(gmacdev).RxBuffer@[i] as u32
                &&& d.buffer2 == 0
            }),
        ({
            let mb = old(gmacdev).iobase;
            let db = (old(gmacdev).iobase + 0x1000) as u64;
            &&& final(bus).reg((db + DmaBusMode) as u64) == ((0u32 | DmaMixedBurstEnable) | (
            DmaBurstLengthx8 | DmaBurstLength32)) | (DmaDescriptor4DWords | DmaDescriptorSkip0)
            &&& final(bus).reg((db + DmaInterrupt) as u64) == DmaIntEnable
            &&& final(bus).reg((db + DmaControl) as u64) == ((((0u32 | (DmaStoreAndForward
                | DmaTxSecondFrame)) & !(DmaRxFlowCtrlAct | DmaRxFlowCtrlDeact))
                & !DmaEnHwFlowCtrl) | DmaRxStart) | DmaTxStart
            &&& final(bus).reg((mb + GmacConfig) as u64) == (spec_gmac_config_value(
                old(bus).reg((mb + GmacConfig) as u64),
            ) | GmacRx) | GmacTx
            &&& final(bus).reg((mb + GmacFrameFilter) as u64) == spec_gmac_filter_value(
                old(bus).reg((mb + GmacFrameFilter) as u64),
            )
            &&& final(bus).reg((mb + GmacFlowControl) as u64) == (0u32 | GmacPauseTimeMask) & !(
            GmacRxFlowControl | GmacTxFlowControl)
            &&& final(bus).reg((mb + GmacMmcIntrMaskTx) as u64) == 0xffffffffu32
            &&& final(bus).reg((mb + GmacMmcIntrMaskRx) as u64) == 0xffffffffu32
            &&& final(bus).reg((mb + GmacMmcRxIpcIntrMask) as u64) == 0xffffffffu32
            &&& final(bus).reg((mb + GmacAddr0High) as u64) == ((old(gmacdev).MacAddr@[5]
                as u32) << 8) | (old(gmacdev).MacAddr@[4] as u32)
            &&& final(bus).sc_fuel == (if old(bus).sc_fuel >= 3 {
                (old(bus).sc_fuel - 3) as u32
            } else {
                0u32
            })
        }),
{
    let ghost mb: u64 = old(gmacdev).iobase;
    let ghost db: u64 = (old(gmacdev).iobase + 0x1000) as u64;

    proof {
        lemma_in_win(*bus, mb, 0x210, GmacVersion as u64);
        lemma_eth_init_bits(0);
        lemma_and_zero();
    }

    gmacdev.MacBase = gmacdev.iobase;
    gmacdev.DmaBase = gmacdev.iobase + 0x1000;
    gmacdev.PhyBase = 0;
    gmacdev.Version = eth_mac_read_reg(bus, gmacdev.MacBase, GmacVersion);

    eth_dma_reset(gmacdev, bus);
    proof {
        lemma_rules_transfer(*bus, *old(bus), (mb + GmacAddr0High) as u64);
        lemma_rules_transfer(*bus, *old(bus), (mb + GmacAddr0Low) as u64);
    }
    eth_mac_set_addr(gmacdev, bus);
    proof {
        lemma_rules_transfer(*bus, *old(bus), (mb + GmacGmiiAddr) as u64);
    }
    eth_phy_init(gmacdev, bus);

    proof {
        lemma_rules_transfer(*bus, *old(bus), (db + DmaRxBaseAddr) as u64);
    }
    eth_setup_rx_desc_queue(gmacdev, bus, mem, 128);
    proof {
        lemma_rules_transfer(*bus, *old(bus), (db + DmaTxBaseAddr) as u64);
    }
    eth_setup_tx_desc_queue(gmacdev, bus, mem, 128);

    proof {
        lemma_rules_transfer(*bus, *old(bus), (db + DmaBusMode) as u64);
        lemma_rules_transfer(*bus, *old(bus), (db + DmaControl) as u64);
        lemma_rules_transfer(*bus, *old(bus), (db + 0x28) as u64);
    }
    eth_dma_reg_init(gmacdev, bus);
    proof {
        lemma_rules_transfer(*bus, *old(bus), (mb + GmacConfig) as u64);
        lemma_rules_transfer(*bus, *old(bus), (mb + GmacFrameFilter) as u64);
        lemma_rules_transfer(*bus, *old(bus), (mb + GmacFlowControl) as u64);
        lemma_rules_transfer(*bus, *old(bus), (db + DmaControl) as u64);
    }
    eth_gmac_reg_init(gmacdev, bus);

    eth_sync_dcache();

    proof {
        lemma_rules_transfer(*bus, *old(bus), (mb + GmacMmcIntrMaskTx) as u64);
        lemma_rules_transfer(*bus, *old(bus), (mb + GmacMmcIntrMaskRx) as u64);
        lemma_rules_transfer(*bus, *old(bus), (mb + GmacMmcRxIpcIntrMask) as u64);
    }
    eth_gmac_disable_mmc_irq(gmacdev, bus);
    proof {
        lemma_rules_transfer(*bus, *old(bus), (db + DmaStatus) as u64);
    }
    eth_dma_clear_curr_irq(gmacdev, bus);
    proof {
        lemma_rules_transfer(*bus, *old(bus), (db + DmaInterrupt) as u64);
    }
    eth_dma_enable_interrupt(gmacdev, bus, DmaIntEnable);

    proof {
        lemma_rules_transfer(*bus, *old(bus), (mb + GmacConfig) as u64);
    }
    eth_gmac_enable_rx(gmacdev, bus);
    proof {
        lemma_rules_transfer(*bus, *old(bus), (mb + GmacConfig) as u64);
    }
    eth_gmac_enable_tx(gmacdev, bus);
    proof {
        lemma_rules_transfer(*bus, *old(bus), (db + DmaControl) as u64);
    }
    eth_dma_enable_rx(gmacdev, bus);
    proof {
        lemma_rules_transfer(*bus, *old(bus), (db + DmaControl) as u64);
    }
    eth_dma_enable_tx(gmacdev, bus);

    eth_isr_install();

    0
}

} // verus!

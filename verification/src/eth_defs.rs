#![allow(non_upper_case_globals)]

use vstd::prelude::*;

verus! {

/// One DMA descriptor of the transmit or receive ring.
#[allow(non_camel_case_types)]
#[derive(Clone, Copy, PartialEq, Eq, Debug)]
pub struct DmaDesc {
    pub status: u32,
    pub length: u32,
    pub buffer1: u32,
    pub buffer2: u32,
}

/// The GMAC device: register window bases, the transmit and receive
/// descriptor rings with their buffer addresses, and the counters the host
/// reads.  The rings are owned here as plain data; the hardware sees them
/// through the base-address registers.
#[allow(non_camel_case_types)]
#[allow(non_snake_case)]
pub struct net_device {
    pub iobase: u64,
    pub MacAddr: [u8; 6],
    pub MacBase: u64,
    pub DmaBase: u64,
    pub PhyBase: u64,
    pub Version: u32,
    pub TxBusy: u32,
    pub TxNext: u32,
    pub RxBusy: u32,
    pub TxDesc: Vec<DmaDesc>,
    pub RxDesc: Vec<DmaDesc>,
    pub TxBuffer: Vec<u64>,
    pub RxBuffer: Vec<u64>,
    pub rx_packets: u64,
    pub tx_packets: u64,
    pub rx_bytes: u64,
    pub tx_bytes: u64,
    pub rx_errors: u64,
    pub tx_errors: u64,
    pub advertising: u32,
    pub LinkStatus: u32,
    pub DuplexMode: u32,
    pub Speed: u32,
}

// MAC register offsets
pub const GmacRgsmiiStatus: u32 = 0x00D8;
pub const GmacAddr0Low: u32 = 0x0044;
pub const GmacAddr0High: u32 = 0x0040;
pub const GmacInterruptMask: u32 = 0x003C;
pub const GmacInterruptStatus: u32 = 0x0038;
pub const GmacVersion: u32 = 0x0020;
pub const GmacFlowControl: u32 = 0x0018;
pub const GmacGmiiData: u32 = 0x0014;
pub const GmacGmiiAddr: u32 = 0x0010;
pub const GmacFrameFilter: u32 = 0x0004;
pub const GmacConfig: u32 = 0x0000;

pub const GmacRgmiiIntSts: u32 = 0x00000001;

// MAC configuration register bits
pub const GmacRx: u32 = 0x00000004;
pub const GmacTx: u32 = 0x00000008;
pub const GmacDeferralCheck: u32 = 0x00000010;
pub const GmacBackoffLimit0: u32 = 0x00000000;
pub const GmacBackoffLimit: u32 = 0x00000060;
pub const GmacPadCrcStrip: u32 = 0x00000080;
pub const GmacRetry: u32 = 0x00000200;
pub const GmacDuplex: u32 = 0x00000800;
pub const GmacLoopback: u32 = 0x00001000;
pub const GmacRxOwn: u32 = 0x00002000;
pub const GmacJumboFrame: u32 = 0x00100000;
pub const GmacFrameBurst: u32 = 0x00200000;
pub const GmacJabber: u32 = 0x00400000;
pub const GmacWatchdog: u32 = 0x00800000;
pub const GmacTxConfig: u32 = 0x01000000;

// MAC frame filter register bits
pub const GmacPromiscuousMode: u32 = 0x00000001;
pub const GmacUcastHashFilter: u32 = 0x00000002;
pub const GmacMcastHashFilter: u32 = 0x00000004;
pub const GmacDestAddrFilter: u32 = 0x00000008;
pub const GmacMulticastFilter: u32 = 0x00000010;
pub const GmacBroadcast: u32 = 0x00000020;
pub const GmacPassControl0: u32 = 0x00000000;
pub const GmacPassControl: u32 = 0x000000C0;
pub const GmacSrcAddrFilter: u32 = 0x00000200;
pub const GmacFilter: u32 = 0x80000000;

// MDIO address register bits
pub const GmiiBusy: u32 = 0x00000001;
pub const GmiiWrite: u32 = 0x00000002;
pub const GmiiCsrClk4: u32 = 0x00000010;
pub const GmiiRegShift: u32 = 6;
pub const GmiiRegMask: u32 = 0x000007C0;
pub const GmiiDevShift: u32 = 11;
pub const GmiiDevMask: u32 = 0x0000F800;

// MAC flow control register bits
pub const GmacTxFlowControl: u32 = 0x00000002;
pub const GmacRxFlowControl: u32 = 0x00000004;
pub const GmacPauseTimeMask: u32 = 0xFFFF0000;

// DMA register offsets
pub const DmaInterrupt: u32 = 0x001C;
pub const DmaControl: u32 = 0x0018;
pub const DmaStatus: u32 = 0x0014;
pub const DmaTxBaseAddr: u32 = 0x0010;
pub const DmaRxBaseAddr: u32 = 0x000C;
pub const DmaRxPollDemand: u32 = 0x0008;
pub const DmaTxPollDemand: u32 = 0x0004;
pub const DmaBusMode: u32 = 0x0000;

// DMA status register bits
pub const DmaIntTxCompleted: u32 = 0x00000001;
pub const DmaIntTxStopped: u32 = 0x00000002;
pub const DmaIntTxNoBuffer: u32 = 0x00000004;
pub const DmaIntTxJabberTO: u32 = 0x00000008;
pub const DmaIntRcvOverflow: u32 = 0x00000010;
pub const DmaIntTxUnderflow: u32 = 0x00000020;
pub const DmaIntRxCompleted: u32 = 0x00000040;
pub const DmaIntRxNoBuffer: u32 = 0x00000080;
pub const DmaIntRxStopped: u32 = 0x00000100;
pub const DmaIntBusError: u32 = 0x00002000;
pub const DmaIntAbnormal: u32 = 0x00008000;
pub const DmaIntNormal: u32 = 0x00010000;
pub const GmacLineIntfIntr: u32 = 0x04000000;
pub const GmacMmcIntr: u32 = 0x08000000;
pub const GmacPmtIntr: u32 = 0x10000000;

// RGSMII status register bits
pub const MacLinkMode: u32 = 0x00000001;
pub const MacLinkSpeed_25: u32 = 0x00000002;
pub const MacLinkSpeed_125: u32 = 0x00000004;
pub const MacLinkSpeed: u32 = 0x00000006;
pub const MacLinkStatusOff: u32 = 0x00000003;
pub const MacLinkStatus: u32 = 0x00000008;

// DMA bus mode register bits
pub const DmaResetOn: u32 = 0x00000001;
pub const DmaDescriptorSkip0: u32 = 0x00000000;
pub const DmaDescriptor4DWords: u32 = 0x00000000;
pub const DmaBurstLength32: u32 = 0x00002000;
pub const DmaBurstLengthx8: u32 = 0x01000000;
pub const DmaMixedBurstEnable: u32 = 0x04000000;

// DMA control register bits
pub const DmaRxStart: u32 = 0x00000002;
pub const DmaTxSecondFrame: u32 = 0x00000004;
pub const DmaEnHwFlowCtrl: u32 = 0x00000100;
pub const DmaRxFlowCtrlAct: u32 = 0x00800600;
pub const DmaRxFlowCtrlDeact: u32 = 0x00401800;
pub const DmaTxStart: u32 = 0x00002000;
pub const DmaStoreAndForward: u32 = 0x02200000;

// DMA descriptor status and length bits
pub const DescSize1Shift: u32 = 0;
pub const DescSize1Mask: u32 = 0x00001FFF;
pub const DescSize2Mask: u32 = 0x1FFF0000;
pub const RxDescEndOfRing: u32 = 0x00008000;
pub const TxDescEndOfRing: u32 = 0x00200000;
pub const DescTxFirst: u32 = 0x10000000;
pub const DescTxLast: u32 = 0x20000000;
pub const DescTxIntEnable: u32 = 0x40000000;
pub const DescRxLast: u32 = 0x00000100;
pub const DescRxFirst: u32 = 0x00000200;
pub const DescError: u32 = 0x00008000;
pub const DescFrameLengthShift: u32 = 16;
pub const DescFrameLengthMask: u32 = 0x3FFF0000;
pub const DescOwnByDma: u32 = 0x80000000;

// MMC interrupt mask registers
pub const GmacMmcIntrMaskTx: u32 = 0x0110;
pub const GmacMmcIntrMaskRx: u32 = 0x010C;
pub const GmacMmcRxIpcIntrMask: u32 = 0x0200;

pub const DmaIntDisable: u32 = 0;
pub const DmaIntEnable: u32 = DmaIntNormal | DmaIntAbnormal | DmaIntBusError | DmaIntRxStopped
    | DmaIntRxNoBuffer | DmaIntRxCompleted | DmaIntTxUnderflow | DmaIntRcvOverflow
    | DmaIntTxNoBuffer | DmaIntTxStopped | DmaIntTxCompleted;

impl net_device {
    /// The rings and their buffer tables have matching lengths.
    pub open spec fn rings_wf(self) -> bool {
        &&& self.TxDesc@.len() == self.TxBuffer@.len()
        &&& self.RxDesc@.len() == self.RxBuffer@.len()
    }

    /// A zero-initialised device state; the host fills in `iobase` and the
    /// MAC address before calling the driver.
    pub fn new(iobase: u64) -> (r: net_device)
        ensures
            r.iobase == iobase,
            r.MacAddr@ =~= seq![0u8, 0u8, 0u8, 0u8, 0u8, 0u8],
            r.MacBase == 0,
            r.DmaBase == 0,
            r.PhyBase == 0,
            r.TxBusy == 0,
            r.TxNext == 0,
            r.RxBusy == 0,
            r.TxDesc@.len() == 0,
            r.RxDesc@.len() == 0,
            r.TxBuffer@.len() == 0,
            r.RxBuffer@.len() == 0,
            r.rx_packets == 0,
            r.tx_packets == 0,
            r.rx_bytes == 0,
            r.tx_bytes == 0,
            r.rx_errors == 0,
            r.tx_errors == 0,
            r.LinkStatus == 0,
            r.DuplexMode == 0,
            r.Speed == 0,
    {
        net_device {
            iobase,
            MacAddr: [0, 0, 0, 0, 0, 0],
            MacBase: 0,
            DmaBase: 0,
            PhyBase: 0,
            Version: 0,
            TxBusy: 0,
            TxNext: 0,
            RxBusy: 0,
            TxDesc: Vec::new(),
            RxDesc: Vec::new(),
            TxBuffer: Vec::new(),
            RxBuffer: Vec::new(),
            rx_packets: 0,
            tx_packets: 0,
            rx_bytes: 0,
            tx_bytes: 0,
            rx_errors: 0,
            tx_errors: 0,
            advertising: 0,
            LinkStatus: 0,
            DuplexMode: 0,
            Speed: 0,
        }
    }
}

} // verus!

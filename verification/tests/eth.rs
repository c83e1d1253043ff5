use ahci_gmac::eth_defs::net_device;
use ahci_gmac::eth_defs::DmaBusMode;
use ahci_gmac::eth_defs::DmaControl;
use ahci_gmac::eth_defs::DmaDesc;
use ahci_gmac::eth_defs::DmaRxStart;
use ahci_gmac::eth_defs::DmaTxStart;
use ahci_gmac::eth_defs::DescOwnByDma;
use ahci_gmac::eth_defs::GmacAddr0High;
use ahci_gmac::eth_defs::GmacAddr0Low;
use ahci_gmac::eth_defs::GmacConfig;
use ahci_gmac::eth_defs::GmacDuplex;
use ahci_gmac::eth_defs::GmacFilter;
use ahci_gmac::eth_defs::GmacFrameFilter;
use ahci_gmac::eth_defs::GmacGmiiAddr;
use ahci_gmac::eth_defs::GmacGmiiData;
use ahci_gmac::eth_defs::GmacLoopback;
use ahci_gmac::eth_defs::GmacPromiscuousMode;
use ahci_gmac::eth_defs::GmacTxConfig;
use ahci_gmac::eth_defs::GmiiBusy;
use ahci_gmac::eth_defs::RxDescEndOfRing;
use ahci_gmac::eth_defs::TxDescEndOfRing;
use ahci_gmac::eth_dev::eth_dma_enable_rx;
use ahci_gmac::eth_dev::eth_dma_enable_tx;
use ahci_gmac::eth_dev::eth_dma_reset;
use ahci_gmac::eth_dev::eth_gmac_config_init;
use ahci_gmac::eth_dev::eth_gmac_disable_dma_rx;
use ahci_gmac::eth_dev::eth_gmac_frame_filter;
use ahci_gmac::eth_dev::eth_gmac_get_mac_addr;
use ahci_gmac::eth_dev::eth_get_desc_owner;
use ahci_gmac::eth_dev::eth_is_desc_empty;
use ahci_gmac::eth_dev::eth_is_last_rx_desc;
use ahci_gmac::eth_dev::eth_is_last_tx_desc;
use ahci_gmac::eth_dev::eth_is_rx_desc_valid;
use ahci_gmac::eth_dev::eth_get_rx_length;
use ahci_gmac::eth_dev::eth_mac_clear_bits;
use ahci_gmac::eth_dev::eth_mac_read_reg;
use ahci_gmac::eth_dev::eth_mac_set_addr;
use ahci_gmac::eth_dev::eth_mac_set_bits;
use ahci_gmac::eth_dev::eth_mac_write_reg;
use ahci_gmac::eth_dev::eth_mdio_read;
use ahci_gmac::drv_eth::eth_init;
use ahci_gmac::eth_defs::DmaInterrupt;
use ahci_gmac::eth_defs::DmaIntEnable;
use ahci_gmac::eth_defs::GmacRx;
use ahci_gmac::eth_defs::GmacTx;
use ahci_gmac::eth_defs::GmacVersion;
use ahci_gmac::platform::PlatMem;
use ahci_gmac::eth_dev::eth_mdio_write;
use ahci_gmac::mmio::MmioBus;

const IOBASE: u64 = 0x40040000;

/// The GMAC window: MAC registers at the base, DMA registers 0x1000 above,
/// with the two self-clearing bits of the model installed.
fn mk_bus() -> MmioBus {
    let mut bus = MmioBus::new(IOBASE, 0x440);
    bus.set_self_clearing(IOBASE + GmacGmiiAddr as u64, GmiiBusy);
    bus.set_self_clearing(IOBASE + 0x1000 + DmaBusMode as u64, 1);
    bus.set_fuel(100);
    bus
}

fn mk_dev() -> net_device {
    let mut dev = net_device::new(IOBASE);
    dev.MacBase = IOBASE;
    dev.DmaBase = IOBASE + 0x1000;
    dev.MacAddr = [0x02, 0x11, 0x22, 0x33, 0x44, 0x55];
    dev
}

#[test]
fn init_brings_the_controller_up() {
    let mut dev = mk_dev();
    let mut bus = mk_bus();
    let mut mem = PlatMem::new(0x10_0000);
    bus.preset(IOBASE + GmacVersion as u64, 0x37);

    let r = eth_init(&mut dev, &mut bus, &mut mem);
    assert_eq!(r, 0);
    assert_eq!(dev.Version, 0x37);
    assert_eq!(dev.MacBase, IOBASE);
    assert_eq!(dev.DmaBase, IOBASE + 0x1000);
    assert_eq!(dev.TxDesc.len(), 128);
    assert_eq!(dev.RxDesc.len(), 128);
    assert_eq!((dev.TxNext, dev.TxBusy, dev.RxBusy), (0, 0, 0));

    assert_eq!(eth_mac_read_reg(&bus, dev.DmaBase, DmaInterrupt), DmaIntEnable);
    let c = eth_mac_read_reg(&bus, IOBASE, GmacConfig);
    assert_ne!(c & GmacRx, 0);
    assert_ne!(c & GmacTx, 0);
    let ctrl = eth_mac_read_reg(&bus, dev.DmaBase, DmaControl);
    assert_ne!(ctrl & DmaRxStart, 0);
    assert_ne!(ctrl & DmaTxStart, 0);
    assert_eq!(bus.sc_fuel, 97, "the reset and two PHY reads were acknowledged");
}

#[test]
fn register_read_back() {
    let mut bus = mk_bus();
    eth_mac_write_reg(&mut bus, IOBASE, GmacConfig, 0x1234_5678);
    assert_eq!(eth_mac_read_reg(&bus, IOBASE, GmacConfig), 0x1234_5678);
}

#[test]
fn set_and_clear_bits() {
    let mut bus = mk_bus();
    eth_mac_set_bits(&mut bus, IOBASE, GmacConfig, GmacDuplex | GmacLoopback);
    assert_eq!(eth_mac_read_reg(&bus, IOBASE, GmacConfig), GmacDuplex | GmacLoopback);
    eth_mac_clear_bits(&mut bus, IOBASE, GmacConfig, GmacLoopback);
    assert_eq!(eth_mac_read_reg(&bus, IOBASE, GmacConfig), GmacDuplex);
}

#[test]
fn mdio_read_completes_and_fetches_data() {
    let mut bus = mk_bus();
    bus.preset(IOBASE + GmacGmiiData as u64, 0x0001_010a);
    let v = eth_mdio_read(&mut bus, IOBASE, 0, 2);
    assert_eq!(v, 0x010a, "only the low 16 bits of the data register");
    let addr = eth_mac_read_reg(&bus, IOBASE, GmacGmiiAddr);
    assert_eq!(addr & GmiiBusy, 0, "the device cleared the busy bit");
}

#[test]
fn mdio_write_programs_data_register() {
    let mut bus = mk_bus();
    eth_mdio_write(&mut bus, IOBASE, 0, 4, 0xBEEF);
    assert_eq!(eth_mac_read_reg(&bus, IOBASE, GmacGmiiData), 0xBEEF);
    assert_eq!(eth_mac_read_reg(&bus, IOBASE, GmacGmiiAddr) & GmiiBusy, 0);
}

#[test]
fn dma_reset_request_clears() {
    let dev = mk_dev();
    let mut bus = mk_bus();
    eth_dma_reset(&dev, &mut bus);
    assert_eq!(eth_mac_read_reg(&bus, dev.DmaBase, DmaBusMode), 0);
}

#[test]
fn dma_start_bits() {
    let dev = mk_dev();
    let mut bus = mk_bus();
    eth_dma_enable_rx(&dev, &mut bus);
    eth_dma_enable_tx(&dev, &mut bus);
    assert_eq!(eth_mac_read_reg(&bus, dev.DmaBase, DmaControl), DmaRxStart | DmaTxStart);
    eth_gmac_disable_dma_rx(&dev, &mut bus);
    assert_eq!(eth_mac_read_reg(&bus, dev.DmaBase, DmaControl), DmaTxStart);
}

#[test]
fn mac_address_round_trip() {
    let dev = mk_dev();
    let mut bus = mk_bus();
    eth_mac_set_addr(&dev, &mut bus);
    let hi = eth_mac_read_reg(&bus, IOBASE, GmacAddr0High);
    let lo = eth_mac_read_reg(&bus, IOBASE, GmacAddr0Low);
    assert_eq!(hi, 0x5544);
    assert_eq!(lo, 0x33221102);

    let mut back = vec![0u8; 6];
    eth_gmac_get_mac_addr(&dev, &bus, &mut back);
    assert_eq!(back, vec![0x02, 0x11, 0x22, 0x33, 0x44, 0x55]);
}

#[test]
fn config_init_sets_and_clears_the_documented_bits() {
    let dev = mk_dev();
    let mut bus = mk_bus();
    bus.preset(IOBASE + GmacConfig as u64, 0xffff_ffff);
    eth_gmac_config_init(&dev, &mut bus);
    let c = eth_mac_read_reg(&bus, IOBASE, GmacConfig);
    assert_ne!(c & GmacTxConfig, 0);
    assert_ne!(c & GmacDuplex, 0);
    assert_eq!(c & GmacLoopback, 0);
    assert_eq!(c & 0x0060, 0, "back-off limit selects pattern zero");
}

#[test]
fn frame_filter_enables_filtering_without_promiscuous_mode() {
    let dev = mk_dev();
    let mut bus = mk_bus();
    bus.preset(IOBASE + GmacFrameFilter as u64, 0xffff_ffff);
    eth_gmac_frame_filter(&dev, &mut bus);
    let f = eth_mac_read_reg(&bus, IOBASE, GmacFrameFilter);
    assert_ne!(f & GmacFilter, 0);
    assert_eq!(f & GmacPromiscuousMode, 0);
}

#[test]
fn descriptor_predicates() {
    let owned = DmaDesc { status: DescOwnByDma, length: 0, buffer1: 0, buffer2: 0 };
    assert!(eth_get_desc_owner(&owned));
    assert!(eth_is_desc_empty(&owned));

    let rx = DmaDesc {
        status: (1500 << 16) | 0x0300,
        length: 2048 | RxDescEndOfRing,
        buffer1: 0x1000,
        buffer2: 0,
    };
    assert!(!eth_get_desc_owner(&rx));
    assert!(eth_is_rx_desc_valid(&rx));
    assert_eq!(eth_get_rx_length(&rx), 1500);
    assert!(eth_is_last_rx_desc(&rx));

    let tx = DmaDesc { status: TxDescEndOfRing, length: 64, buffer1: 0x2000, buffer2: 0 };
    assert!(eth_is_last_tx_desc(&tx));
    assert!(!eth_is_desc_empty(&tx));
}

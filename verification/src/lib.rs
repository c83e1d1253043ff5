//! Bare-metal MMIO drivers for an AHCI SATA host controller and a GMAC
//! Ethernet controller, written against an explicit model of the devices'
//! register space.
//!
//! The hardware side lives in [`mmio::MmioBus`]: a register window held as
//! plain data, together with the small amount of device behaviour the driver
//! logic depends on (read-only capability registers, self-clearing command
//! bits, a bounded number of acknowledged operations).  Every driver routine
//! is specified and verified over that model.

pub mod mmio;
pub mod libata;
pub mod libahci;
pub mod eth_defs;
pub mod platform;
pub mod drv_ahci;
pub mod eth_dev;
pub mod drv_eth;

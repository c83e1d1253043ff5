[package]
name = "ahci_gmac"
version = "0.1.0"
edition = "2021"
publish = false

use vstd::prelude::*;

use crate::eth_defs::net_device;

verus! {

use vstd::arithmetic::div_mod::lemma_fundamental_div_mod;
use vstd::arithmetic::div_mod::lemma_mod_multiples_basic;

/// The platform's aligned allocator, modelled as a bump pointer over the
/// DMA-capable memory that the host set aside for the drivers.  Successive
/// allocations are disjoint and never freed, as on the real platform.
pub struct PlatMem {
    pub next: u64,
}

impl PlatMem {
    pub fn new(base: u64) -> (r: PlatMem)
        ensures
            r.next == base,
    {
        PlatMem { next: base }
    }
}

/// The first multiple of `align` at or after `next`.
pub open spec fn spec_align_up(next: u64, align: u64) -> int {
    ((next + align - 1) / (align as int)) * align
}

proof fn lemma_align_up(next: u64, align: u64)
    requires
        align > 0,
    ensures
        spec_align_up(next, align) % (align as int) == 0,
        next <= spec_align_up(next, align) <= next + align - 1,
{
    let x = next + align - 1;
    let a = align as int;
    lemma_fundamental_div_mod(x, a);
    lemma_mod_multiples_basic(x / a, a);
}

/// Wait for the given number of milliseconds.  The host supplies the real
/// delay; the passage of time has no observable effect on the model.
pub fn ahci_mdelay(ms: u32) {
}

/// Order all cached and uncached accesses between CPU and DMA engine.  The
/// host supplies the real barrier; stores are immediately visible in the
/// model.
pub fn ahci_sync_dcache() {
}

/// Allocate `size` bytes aligned to `align` bytes from the platform pool.
pub fn ahci_malloc_align(mem: &mut PlatMem, size: u64, align: u32) -> (r: u64)
    requires
        align > 0,
        old(mem).next + align + size <= u64::MAX,
    ensures
        r == spec_align_up(old(mem).next, align as u64),
        r % (align as u64) == 0,
        old(mem).next <= r,
        final(mem).next == r + size,
{
    proof {
        lemma_align_up(mem.next, align as u64);
    }
    let a: u64 = align as u64;
    let r: u64 = ((mem.next + a - 1) / a) * a;
    mem.next = r + size;
    r
}

/// Translate a physical address to its uncached virtual alias.  On this
/// platform the mapping is the identity.
pub fn ahci_phys_to_uncached(pa: u64) -> (r: u64)
    ensures
        r == pa,
{
    pa
}

/// Translate a cached virtual address to the physical address the AHCI DMA
/// engine uses; the engine accepts full 64-bit addresses.  On this platform
/// the mapping is the identity.
pub fn ahci_virt_to_phys(va: u64) -> (r: u64)
    ensures
        r == va,
{
    va
}

/// Order all cached and uncached accesses between CPU and DMA engine.  The
/// host supplies the real barrier; stores are immediately visible in the
/// model.
pub fn eth_sync_dcache() {
}

/// Translate a cached virtual address to the physical address the GMAC DMA
/// engine uses; the engine accepts only 32-bit addresses.
pub fn eth_virt_to_phys(va: u64) -> (r: u32)
    requires
        va <= u32::MAX,
    ensures
        r == va,
{
    va as u32
}

/// Translate a 32-bit physical address back to its cached virtual alias.
pub fn eth_phys_to_virt(pa: u32) -> (r: u64)
    ensures
        r == pa,
{
    pa as u64
}

/// Translate a physical address to its uncached virtual alias.
pub fn eth_phys_to_uncached(pa: u64) -> (r: u64)
    ensures
        r == pa,
{
    pa
}

/// Allocate `size` bytes aligned to `align` bytes from the platform pool.
pub fn eth_malloc_align(mem: &mut PlatMem, size: u64, align: u32) -> (r: u64)
    requires
        align > 0,
        old(mem).next + align + size <= u64::MAX,
    ensures
        r == spec_align_up(old(mem).next, align as u64),
        r % (align as u64) == 0,
        old(mem).next <= r,
        final(mem).next == r + size,
{
    ahci_malloc_align(mem, size, align)
}

/// Copy the frame the host hands down in its own transmit unit `p` into the
/// driver's DMA buffer and report its length.  The host supplies the real
/// copy; this placeholder moves no data.
pub fn eth_handle_tx_buffer(p: u64, buffer: u64) -> (r: u32)
    ensures
        r == 0,
{
    0
}

/// Hand a received frame of `length` bytes at `buffer` up to the host and
/// return the host's receive unit.  The host supplies the real copy; this
/// placeholder returns none.
pub fn eth_handle_rx_buffer(buffer: u64, length: u32) -> (r: u64)
    ensures
        r == 0,
{
    0
}

/// Tell the host that received data is ready to be collected.
pub fn eth_rx_ready(gmacdev: &net_device) {
}

/// Tell the host that the link state changed: 1 is up, 0 is down.
pub fn eth_update_linkstate(gmacdev: &net_device, status: u32) {
}

/// Register the driver's interrupt handler with the host.
pub fn eth_isr_install() {
}

} // verus!

//! Generic Interrupt Controller (v2 layout): the register addresses,
//! bit positions and encoded values the driver reads and writes.
//!
//! The driver's MMIO accesses are single volatile loads and stores; the
//! computations that decide *which* register and *what* value are here,
//! each pinned by a contract, so the unverified access itself is a bare
//! write of a computed pair.

use vstd::prelude::*;

verus! {

/// Base of the distributor MMIO region.
pub const GICD_BASE: u64 = 0x0800_0000;

/// Base of the CPU-interface MMIO region.
pub const GICC_BASE: u64 = 0x0801_0000;

/// Distributor control register offset.
pub const GICD_CTLR: u64 = 0x000;

/// First set-enable register offset; one bit per interrupt.
pub const GICD_ISENABLER: u64 = 0x100;

/// First clear-enable register offset; one bit per interrupt.
pub const GICD_ICENABLER: u64 = 0x180;

/// First priority register offset; one byte per interrupt.
pub const GICD_IPRIORITYR: u64 = 0x400;

/// First target register offset; one byte per interrupt.
pub const GICD_ITARGETSR: u64 = 0x800;

/// Software-generated-interrupt register offset.
pub const GICD_SGIR: u64 = 0xF00;

/// CPU-interface control register offset.
pub const GICC_CTLR: u64 = 0x0000;

/// Priority-mask register offset.
pub const GICC_PMR: u64 = 0x0004;

/// Interrupt-acknowledge register offset.
pub const GICC_IAR: u64 = 0x000C;

/// End-of-interrupt register offset.
pub const GICC_EOIR: u64 = 0x0010;

/// Number of interrupt identifiers the controller can dispatch.
pub const MAX_IRQS: u32 = 1020;

/// The software-generated interrupt that triggers a reschedule.
pub const SGI_SCHEDULER: u32 = 1;

/// The software-generated interrupt reserved for stopping the machine.
pub const SGI_STOP: u32 = 2;

/// The categories the controller assigns to interrupt identifiers.
#[derive(Clone, Copy, Debug, PartialEq, Eq, Structural)]
pub enum IrqClass {
    /// Software-generated, identifiers 0..16.
    Sgi,
    /// Private peripheral, identifiers 16..32.
    Ppi,
    /// Shared peripheral, identifiers 32..1020.
    Spi,
    /// At or above 1020: acknowledged and discarded.
    Spurious,
}

/// Classify an interrupt identifier.
pub fn irq_class(irq: u32) -> (c: IrqClass)
    ensures
        c is Sgi <==> irq < 16,
        c is Ppi <==> 16 <= irq < 32,
        c is Spi <==> 32 <= irq < 1020,
        c is Spurious <==> irq >= 1020,
{
    if irq < 16 {
        IrqClass::Sgi
    } else if irq < 32 {
        IrqClass::Ppi
    } else if irq < 1020 {
        IrqClass::Spi
    } else {
        IrqClass::Spurious
    }
}

/// Whether an acknowledged identifier is spurious and must only be
/// discarded.
pub fn is_spurious(irq: u32) -> (r: bool)
    ensures
        r <==> irq >= 1020,
{
    irq >= 1020
}

/// The set-enable register address and bit for one interrupt: register
/// `irq / 32` (four bytes each), bit `irq % 32`.
pub fn enable_irq_register(irq: u32) -> (r: (u64, u32))
    requires
        irq < 1020,
    ensures
        r.0 == GICD_BASE + GICD_ISENABLER + (irq / 32) * 4,
        r.1 == 1u32 << (irq % 32),
{
    (GICD_BASE + GICD_ISENABLER + ((irq / 32) as u64) * 4, 1u32 << (irq % 32))
}

/// The clear-enable register address and bit for one interrupt.
pub fn disable_irq_register(irq: u32) -> (r: (u64, u32))
    requires
        irq < 1020,
    ensures
        r.0 == GICD_BASE + GICD_ICENABLER + (irq / 32) * 4,
        r.1 == 1u32 << (irq % 32),
{
    (GICD_BASE + GICD_ICENABLER + ((irq / 32) as u64) * 4, 1u32 << (irq % 32))
}

/// The priority register is byte-indexed: one byte per interrupt.
pub fn priority_register(irq: u32) -> (a: u64)
    requires
        irq < 1020,
    ensures
        a == GICD_BASE + GICD_IPRIORITYR + irq,
{
    GICD_BASE + GICD_IPRIORITYR + irq as u64
}

/// The target register is byte-indexed: one byte per interrupt.
pub fn target_register(irq: u32) -> (a: u64)
    requires
        irq < 1020,
    ensures
        a == GICD_BASE + GICD_ITARGETSR + irq,
{
    GICD_BASE + GICD_ITARGETSR + irq as u64
}

/// Encode a write to the software-generated-interrupt register: the
/// identifier in the low four bits and the one-hot CPU target list in
/// bits 16..24, with the target-list filter left at zero.
pub fn sgi_register_value(target_cpu: u32, sgi_id: u32) -> (v: u32)
    requires
        target_cpu < 8,
        sgi_id < 16,
    ensures
        v == (1u32 << (16 + target_cpu)) | sgi_id,
        v as int == (1u32 << (16 + target_cpu)) + sgi_id,
{
    let hot = 1u32 << (16 + target_cpu);
    let v = hot | sgi_id;
    proof {
        assert(hot == 1u32 << ((16 + target_cpu) as u32));
        assert((1u32 << ((16 + target_cpu) as u32)) | sgi_id == (1u32 << ((16 + target_cpu) as u32))
            + sgi_id && (1u32 << ((16 + target_cpu) as u32)) + sgi_id <= u32::MAX) by (bit_vector)
            requires
                target_cpu < 8,
                sgi_id < 16,
        ;
    }
    v
}

/// Split an interrupt-acknowledge read into the interrupt identifier
/// (low ten bits) and the requesting CPU (next three bits).
pub fn decode_iar(iar: u32) -> (r: (u32, u32))
    ensures
        r.0 == iar % 1024,
        r.1 == (iar / 1024) % 8,
{
    let irq = iar & 0x3FF;
    let cpu = (iar >> 10) & 0x7;
    proof {
        assert(iar & 0x3FF == iar % 1024) by (bit_vector);
        assert((iar >> 10) & 0x7 == (iar / 1024) % 8) by (bit_vector);
    }
    (irq, cpu)
}

/// Encode an end-of-interrupt write from the acknowledged identifier
/// and CPU.
pub fn eoi_value(irq: u32, cpu: u32) -> (v: u32)
    requires
        irq < 1024,
        cpu < 8,
    ensures
        v == irq + cpu * 1024,
{
    let v = irq | (cpu << 10);
    proof {
        assert(irq | (cpu << 10u32) == irq + cpu * 1024 && irq + cpu * 1024 <= u32::MAX)
            by (bit_vector)
            requires
                irq < 1024,
                cpu < 8,
        ;
    }
    v
}

} // verus!

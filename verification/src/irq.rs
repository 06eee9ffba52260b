//! The per-interrupt dispatch table.
//!
//! A fixed-capacity table maps each interrupt identifier to an
//! optional handler, registered with interrupts disabled locally. The
//! interrupt entry path, already running with interrupts masked in
//! hardware, looks the handler up without further locking. Handlers
//! are identified by plain values here; the kernel keeps the matching
//! function pointers beside the table.

use vstd::prelude::*;

use crate::gic;

verus! {

/// What the interrupt entry path must do with an acknowledged
/// identifier.
#[derive(Clone, Copy, Debug, PartialEq, Eq, Structural)]
pub enum IrqDispatch {
    /// At or above the controller's limit: acknowledge and discard,
    /// no end-of-interrupt.
    Spurious,
    /// Run this handler with interrupts masked, then signal end of
    /// interrupt.
    Invoke(u64),
    /// No handler registered: log a warning, then signal end of
    /// interrupt.
    Unhandled,
}

/// The dispatch table: one optional handler per interrupt identifier.
pub struct IrqTable {
    handlers: Vec<Option<u64>>,
}

impl IrqTable {
    /// The table's contents, one entry per interrupt identifier.
    pub closed spec fn entries(self) -> Seq<Option<u64>> {
        self.handlers@
    }

    /// The table always spans every dispatchable identifier.
    pub open spec fn wf(self) -> bool {
        self.entries().len() == gic::MAX_IRQS
    }

    /// An empty table: no interrupt has a handler.
    pub fn new() -> (t: IrqTable)
        ensures
            t.wf(),
            forall|i: int| 0 <= i < t.entries().len() ==> #[trigger] t.entries()[i] is None,
    {
        let mut handlers: Vec<Option<u64>> = Vec::new();
        let mut i: u32 = 0;
        while i < gic::MAX_IRQS
            invariant
                i <= gic::MAX_IRQS,
                handlers@.len() == i,
                forall|j: int| 0 <= j < i ==> #[trigger] handlers@[j] is None,
            decreases gic::MAX_IRQS - i,
        {
            handlers.push(Option::None);
            i += 1;
        }
        IrqTable { handlers }
    }

    /// Register (or replace) the handler for one interrupt. The caller
    /// disables interrupts around the call.
    pub fn register_handler(&mut self, irq: u32, handler: u64)
        requires
            old(self).wf(),
            irq < gic::MAX_IRQS,
        ensures
            final(self).wf(),
            final(self).entries() == old(self).entries().update(
                irq as int,
                Option::Some(handler),
            ),
    {
        self.handlers.set(irq as usize, Option::Some(handler));
    }

    /// Remove the handler for one interrupt.
    pub fn unregister_handler(&mut self, irq: u32)
        requires
            old(self).wf(),
            irq < gic::MAX_IRQS,
        ensures
            final(self).wf(),
            final(self).entries() == old(self).entries().update(irq as int, Option::None),
    {
        self.handlers.set(irq as usize, Option::None);
    }

    /// Decide what the interrupt entry path does with an acknowledged
    /// identifier: discard it as spurious, run its registered handler,
    /// or log it as unhandled.
    pub fn dispatch(&self, irq: u32) -> (d: IrqDispatch)
        requires
            self.wf(),
        ensures
            irq >= gic::MAX_IRQS ==> d is Spurious,
            irq < gic::MAX_IRQS && self.entries()[irq as int] is Some ==> d == IrqDispatch::Invoke(
                self.entries()[irq as int]->0,
            ),
            irq < gic::MAX_IRQS && self.entries()[irq as int] is None ==> d
                == IrqDispatch::Unhandled,
    {
        if irq >= gic::MAX_IRQS {
            IrqDispatch::Spurious
        } else {
            match self.handlers[irq as usize] {
                Option::Some(h) => IrqDispatch::Invoke(h),
                Option::None => IrqDispatch::Unhandled,
            }
        }
    }
}

} // verus!

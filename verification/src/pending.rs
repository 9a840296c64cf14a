//! The source a content change encoded that no frame has adopted yet.
//!
//! Signal-driven barcodes encode in the watcher, when the content changes,
//! rather than at the next draw: layout measures a barcode before it is
//! drawn and has to answer with the symbol that is about to be shown.
use vstd::prelude::*;

use crate::qr::BarcodeSource;

verus! {

/// Holds at most one freshly encoded source until a frame adopts it.
#[derive(Debug)]
pub struct PendingSource {
    slot: Option<BarcodeSource>,
}

impl PendingSource {
    /// The source waiting to be adopted, if any.
    pub closed spec fn spec_slot(&self) -> Option<BarcodeSource> {
        self.slot
    }

    /// Nothing pending.
    pub fn new() -> (pending: Self)
        ensures
            pending.spec_slot() is None,
    {
        PendingSource { slot: None }
    }

    /// Records a source encoded from a content change; it replaces any
    /// source still waiting.
    pub fn store(&mut self, source: BarcodeSource)
        ensures
            final(self).spec_slot() == Some(source),
    {
        self.slot = Some(source);
    }

    /// Takes the source encoded since the last frame, if any, leaving
    /// nothing pending.
    pub fn take_reencoded(&mut self) -> (source: Option<BarcodeSource>)
        ensures
            source == old(self).spec_slot(),
            final(self).spec_slot() is None,
    {
        let source = self.slot.take();
        source
    }

    /// The output size of the source waiting to be adopted, if any.
    pub fn pending_output_size(&self) -> (size: Option<(u32, u32)>)
        ensures
            match self.spec_slot() {
                Some(source) => size matches Some(s) && s.0 == source.spec_output_size().0 && s.1
                    == source.spec_output_size().1,
                None => size is None,
            },
    {
        match &self.slot {
            Some(source) => Some(source.output_size()),
            None => None,
        }
    }
}

} // verus!

//! A pass-through layer that always escalates.
use vstd::prelude::*;
use crate::tile::{Layer, LayerResult, Tile};

verus! {

/// A pass-through layer that always escalates: a placeholder for a layer not yet configured.
pub struct NoopLayer {
    pub label: &'static str,
}

impl NoopLayer {
    pub fn new(label: &'static str) -> (l: NoopLayer)
        ensures
            l.label == label,
    {
        NoopLayer { label }
    }
}

impl Default for NoopLayer {
    fn default() -> (l: NoopLayer)
        ensures
            l.label@ == "noop"@,
    {
        NoopLayer::new("noop")
    }
}

impl Layer for NoopLayer {
    open spec fn wf(&self) -> bool {
        true
    }

    open spec fn spec_name(&self) -> Seq<char> {
        self.label@
    }

    open spec fn step(&self, tile: Tile, post: Self, res: LayerResult) -> bool {
        &&& post == *self
        &&& res == LayerResult::Escalate(tile)
    }

    fn name(&self) -> (n: &'static str) {
        self.label
    }

    fn process(&mut self, tile: Tile) -> (res: LayerResult) {
        LayerResult::Escalate(tile)
    }
}

} // verus!

//! The cloud fallback layer.
use vstd::prelude::*;
use crate::tile::{relabelled, Layer, LayerResult, ResolutionLayer, Tile, TileType};

verus! {

/// Layer 3: the cloud fallback. When available it resolves every tile that reaches it with
/// a generic cloud answer; when unavailable it escalates.
pub struct CloudLayer {
    /// If true, resolve tiles. If false, escalate (the cloud is unavailable).
    pub available: bool,
}

impl CloudLayer {
    pub fn new() -> (l: CloudLayer)
        ensures
            l.available,
    {
        CloudLayer { available: true }
    }

    pub fn unavailable() -> (l: CloudLayer)
        ensures
            !l.available,
    {
        CloudLayer { available: false }
    }
}

impl Default for CloudLayer {
    fn default() -> (l: CloudLayer)
        ensures
            l.available,
    {
        CloudLayer::new()
    }
}

/// The answer of an available cloud: an escalation tile at half confidence whose text is
/// the tile's text behind `[CLOUD] `.
pub open spec fn cloud_answer(tile: Tile, out: Tile) -> bool {
    relabelled(tile, out, TileType::Escalation, "[CLOUD] "@ + tile.content@, 50, ResolutionLayer::Cloud)
}

impl Layer for CloudLayer {
    open spec fn wf(&self) -> bool {
        true
    }

    open spec fn spec_name(&self) -> Seq<char> {
        "cloud"@
    }

    open spec fn step(&self, tile: Tile, post: Self, res: LayerResult) -> bool {
        &&& post == *self
        &&& if self.available {
            res matches LayerResult::Resolved(out) && cloud_answer(tile, out)
        } else {
            res == LayerResult::Escalate(tile)
        }
    }

    fn name(&self) -> (n: &'static str) {
        "cloud"
    }

    fn process(&mut self, tile: Tile) -> (res: LayerResult) {
        if self.available {
            let mut tile = tile;
            let mut content = String::from_str("[CLOUD] ");
            content.append(tile.content.as_str());
            tile.tile_type = TileType::Escalation;
            tile.content = content;
            tile.resolved_by = ResolutionLayer::Cloud;
            tile.confidence = 50;
            LayerResult::Resolved(tile)
        } else {
            LayerResult::Escalate(tile)
        }
    }
}

} // verus!

//! The deadband filter.
use vstd::prelude::*;
use crate::text::{one_decimal, push_one_decimal, push_two_decimals, two_decimals};
use crate::tile::{relabelled, Layer, LayerResult, ResolutionLayer, SensorReading, Tile, TileType};

verus! {

/// Layer 0: deadband filter.
///
/// Resolves tiles whose readings are within their normal range and within a configurable
/// deadband of the previous value. Escalates readings that are out of range or have drifted
/// too far.
pub struct DeadbandLayer {
    /// Largest drift from the previous value that still counts as normal.
    pub deadband: u64,
    /// Last value seen (`None` before the first reading).
    pub last_value: Option<i64>,
}

impl DeadbandLayer {
    pub fn new(deadband: u64) -> (l: DeadbandLayer)
        ensures
            l.deadband == deadband,
            l.last_value is None,
    {
        DeadbandLayer { deadband, last_value: None }
    }
}

/// Distance between two readings.
pub open spec fn drift(value: i64, prev: i64) -> int {
    if value >= prev {
        value - prev
    } else {
        prev - value
    }
}

/// The filter takes `r` as normal: in range, and either the first reading or within the
/// deadband of the previous one.
pub open spec fn accepts(deadband: u64, last: Option<i64>, r: SensorReading) -> bool {
    &&& r.in_normal_range()
    &&& match last {
        None => true,
        Some(prev) => drift(r.value, prev) <= deadband,
    }
}

/// The text of a tile the filter resolved.
pub open spec fn deadband_note(last: Option<i64>, r: SensorReading) -> Seq<char> {
    let head = r.sensor_id@ + ": "@ + one_decimal(r.value as int) + r.unit@;
    match last {
        None => head + " (initial reading, normal)"@,
        Some(prev) => head + " (normal, drift "@ + two_decimals(drift(r.value, prev)) + ")"@,
    }
}

impl Layer for DeadbandLayer {
    open spec fn wf(&self) -> bool {
        true
    }

    open spec fn spec_name(&self) -> Seq<char> {
        "deadband"@
    }

    open spec fn step(&self, tile: Tile, post: Self, res: LayerResult) -> bool {
        match tile.sensor_reading {
            None => post == *self && res == LayerResult::Escalate(tile),
            Some(r) => {
                &&& post.deadband == self.deadband
                &&& post.last_value == Some(r.value)
                &&& if accepts(self.deadband, self.last_value, r) {
                    res matches LayerResult::Resolved(out) && relabelled(
                        tile,
                        out,
                        TileType::Status,
                        deadband_note(self.last_value, r),
                        100,
                        ResolutionLayer::Algorithmic,
                    )
                } else {
                    res == LayerResult::Escalate(tile)
                }
            },
        }
    }

    fn name(&self) -> (n: &'static str) {
        "deadband"
    }

    fn process(&mut self, tile: Tile) -> (res: LayerResult) {
        let (value, resolves, note) = match &tile.sensor_reading {
            None => {
                return LayerResult::Escalate(tile);
            },
            Some(r) => {
                let in_range = r.normal_min <= r.value && r.value <= r.normal_max;
                let mut note = String::new();
                note.append(r.sensor_id.as_str());
                note.append(": ");
                push_one_decimal(&mut note, r.value);
                note.append(r.unit.as_str());
                let ok = match self.last_value {
                    None => {
                        note.append(" (initial reading, normal)");
                        in_range
                    },
                    Some(prev) => {
                        let diff: i128 = r.value as i128 - prev as i128;
                        let d: i128 = if diff < 0 {
                            -diff
                        } else {
                            diff
                        };
                        assert(d == drift(r.value, prev));
                        note.append(" (normal, drift ");
                        push_two_decimals(&mut note, d as u64);
                        note.append(")");
                        in_range && d <= self.deadband as i128
                    },
                };
                assert(note@ =~= deadband_note(self.last_value, *r));
                assert(ok == accepts(self.deadband, self.last_value, *r));
                (r.value, ok, note)
            },
        };
        self.last_value = Some(value);
        if resolves {
            let mut tile = tile;
            tile.tile_type = TileType::Status;
            tile.content = note;
            tile.confidence = 100;
            tile.resolved_by = ResolutionLayer::Algorithmic;
            LayerResult::Resolved(tile)
        } else {
            LayerResult::Escalate(tile)
        }
    }
}

} // verus!

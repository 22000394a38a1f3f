//! Sensor readings, tiles and the layer interface that every stage of the chain implements.
//!
//! Measured quantities (a reading's value and its normal range) are whole numbers in the
//! sensor's unit. A tile's confidence is a percentage from 0 to 100.
use vstd::prelude::*;
use crate::text::{one_decimal, push_one_decimal};

verus! {

#[verifier::external_type_specification]
#[verifier::external_body]
pub struct ExUuid(uuid::Uuid);

/// `uuid::Uuid::new_v4`: a fresh random identifier. Nothing is stated of its value; the
/// call panics only where the system's random source fails.
#[verifier::external_body]
fn new_tile_id() -> uuid::Uuid {
    uuid::Uuid::new_v4()
}

/// A sensor reading from a room.
#[derive(Debug)]
pub struct SensorReading {
    pub sensor_id: String,
    pub room_id: String,
    pub value: i64,
    pub unit: String,
    pub timestamp_ms: u64,
    pub normal_min: i64,
    pub normal_max: i64,
}

/// The fundamental unit of processed information.
#[derive(Debug)]
pub struct Tile {
    pub id: uuid::Uuid,
    pub room_id: String,
    pub tile_type: TileType,
    pub content: String,
    /// Confidence in percent.
    pub confidence: u8,
    pub resolved_by: ResolutionLayer,
    pub timestamp_ms: u64,
    pub sensor_reading: Option<SensorReading>,
}

/// What kind of tile this is.
#[derive(Debug, Clone, Copy, PartialEq, Eq, Structural)]
pub enum TileType {
    Status,
    Alert,
    Prediction,
    Anomaly,
    Coordination,
    Escalation,
}

/// Which layer resolved this tile.
#[derive(Debug, Clone, Copy, PartialEq, Eq, Hash, Structural)]
pub enum ResolutionLayer {
    Algorithmic,
    Rules,
    Ollama,
    Cloud,
    Unresolved,
}

/// Result of processing a tile through a layer.
#[derive(Debug, Clone)]
pub enum LayerResult {
    /// Layer handled the tile: the chain stops here.
    Resolved(Tile),
    /// Layer cannot handle it: pass it to the next layer.
    Escalate(Tile),
}

impl LayerResult {
    /// The tile carried by either variant.
    pub open spec fn tile(self) -> Tile {
        match self {
            LayerResult::Resolved(t) => t,
            LayerResult::Escalate(t) => t,
        }
    }
}

/// A single processing stage of the signal chain.
///
/// A layer either resolves a tile, which ends the chain, or escalates it to the next
/// layer. Layers keep state between tiles, so `process` takes the layer mutably.
pub trait Layer: Sized {
    /// What the layer needs of its own state before it processes a tile.
    spec fn wf(&self) -> bool;

    /// The layer's name.
    spec fn spec_name(&self) -> Seq<char>;

    /// How processing `tile` in state `self` may leave the layer in state `post` with answer `res`.
    spec fn step(&self, tile: Tile, post: Self, res: LayerResult) -> bool;

    /// Human-readable name for this layer.
    fn name(&self) -> (n: &'static str)
        ensures
            n@ == self.spec_name(),
    ;

    /// Process a tile: `Resolved` if this layer handled it, `Escalate` to pass it on.
    fn process(&mut self, tile: Tile) -> (res: LayerResult)
        requires
            old(self).wf(),
        ensures
            final(self).wf(),
            final(self).spec_name() == old(self).spec_name(),
            old(self).step(tile, *final(self), res),
    ;
}

/// A copy of `s` with the same characters.
pub(crate) fn copy_string(s: &String) -> (r: String)
    ensures
        r == *s,
        r@ == s@,
{
    s.clone()
}

impl Clone for SensorReading {
    fn clone(&self) -> (r: SensorReading)
        ensures
            r == *self,
    {
        SensorReading {
            sensor_id: copy_string(&self.sensor_id),
            room_id: copy_string(&self.room_id),
            value: self.value,
            unit: copy_string(&self.unit),
            timestamp_ms: self.timestamp_ms,
            normal_min: self.normal_min,
            normal_max: self.normal_max,
        }
    }
}

impl Clone for Tile {
    fn clone(&self) -> (r: Tile)
        ensures
            r == *self,
    {
        Tile {
            id: self.id,
            room_id: copy_string(&self.room_id),
            tile_type: self.tile_type,
            content: copy_string(&self.content),
            confidence: self.confidence,
            resolved_by: self.resolved_by,
            timestamp_ms: self.timestamp_ms,
            sensor_reading: match &self.sensor_reading {
                Some(r) => Some(r.clone()),
                None => None,
            },
        }
    }
}

impl SensorReading {

    /// The reading lies within its normal range, bounds included.
    pub open spec fn in_normal_range(self) -> bool {
        self.normal_min <= self.value <= self.normal_max
    }
}

/// `out` is `tile` with a new type, text, confidence and resolving layer; its identity,
/// room, timestamp and reading are those of `tile`.
pub open spec fn relabelled(
    tile: Tile,
    out: Tile,
    tile_type: TileType,
    content: Seq<char>,
    confidence: u8,
    resolved_by: ResolutionLayer,
) -> bool {
    &&& out.id == tile.id
    &&& out.room_id == tile.room_id
    &&& out.timestamp_ms == tile.timestamp_ms
    &&& out.sensor_reading == tile.sensor_reading
    &&& out.tile_type == tile_type
    &&& out.content@ == content
    &&& out.confidence == confidence
    &&& out.resolved_by == resolved_by
}

/// The text of a fresh tile made from `r`: `"<sensor>: <value>.0<unit>"`.
pub open spec fn reading_line(r: SensorReading) -> Seq<char> {
    r.sensor_id@ + ": "@ + one_decimal(r.value as int) + r.unit@
}

/// Create a sensor reading for testing: room `test-room`, unit `units`, timestamp 1000.
pub fn make_reading(sensor_id: &str, value: i64, min: i64, max: i64) -> (r: SensorReading)
    ensures
        r.sensor_id@ == sensor_id@,
        r.room_id@ == "test-room"@,
        r.value == value,
        r.unit@ == "units"@,
        r.timestamp_ms == 1000,
        r.normal_min == min,
        r.normal_max == max,
{
    SensorReading {
        sensor_id: String::from_str(sensor_id),
        room_id: String::from_str("test-room"),
        value,
        unit: String::from_str("units"),
        timestamp_ms: 1000,
        normal_min: min,
        normal_max: max,
    }
}

/// Create a tile from a sensor reading: an unresolved status tile with no confidence.
pub fn tile_from_reading(reading: &SensorReading) -> (t: Tile)
    ensures
        t.room_id == reading.room_id,
        t.tile_type == TileType::Status,
        t.content@ == reading_line(*reading),
        t.confidence == 0,
        t.resolved_by == ResolutionLayer::Unresolved,
        t.timestamp_ms == reading.timestamp_ms,
        t.sensor_reading == Some(*reading),
{
    let mut content = String::new();
    content.append(reading.sensor_id.as_str());
    content.append(": ");
    push_one_decimal(&mut content, reading.value);
    content.append(reading.unit.as_str());
    assert(content@ =~= reading_line(*reading));
    Tile {
        id: new_tile_id(),
        room_id: copy_string(&reading.room_id),
        tile_type: TileType::Status,
        content,
        confidence: 0,
        resolved_by: ResolutionLayer::Unresolved,
        timestamp_ms: reading.timestamp_ms,
        sensor_reading: Some(reading.clone()),
    }
}

} // verus!

//! Properties of the chain and its layers that span more than one call.
use vstd::prelude::*;
use crate::chain::{last_run, SignalChain};
use crate::layers::cloud::CloudLayer;
use crate::layers::deadband::{accepts, drift, DeadbandLayer};
use crate::tile::SensorReading;
use crate::layers::logging::LoggingLayer;
use crate::layers::noop::NoopLayer;
use crate::layers::rule::{sensor_of, Rule, RuleCondition, RuleLayer};
use crate::tile::{Layer, LayerResult, ResolutionLayer, Tile, TileType};

verus! {

/// A chain whose cloud fallback is available resolves every tile, at the cloud or earlier.
pub proof fn lemma_available_cloud_resolves<L0: Layer, L1: Layer, L2: Layer, L4: Layer>(
    c: SignalChain<L0, L1, L2, CloudLayer, L4>,
    tile: Tile,
    post: SignalChain<L0, L1, L2, CloudLayer, L4>,
    out: Tile,
    at: Option<int>,
)
    requires
        c.l3.available,
        c.run(tile, post, out, at),
    ensures
        at matches Some(i) && 0 <= i <= 3,
{
    let ts = c.lemma_run_trace(tile, post, out, at);
    reveal(SignalChain::layer_step);
    if at is None || at == Some(4int) {
        assert(c.hands_on(3, ts, post));
    }
}

/// A chain of placeholders resolves nothing: the tile comes out as it went in and no layer
/// changes.
pub proof fn lemma_noop_chain_escalates(
    c: SignalChain<NoopLayer, NoopLayer, NoopLayer, NoopLayer, NoopLayer>,
    tile: Tile,
    post: SignalChain<NoopLayer, NoopLayer, NoopLayer, NoopLayer, NoopLayer>,
    out: Tile,
    at: Option<int>,
)
    requires
        c.run(tile, post, out, at),
    ensures
        at is None,
        out == tile,
        post.l0 == c.l0 && post.l1 == c.l1 && post.l2 == c.l2 && post.l3 == c.l3 && post.l4 == c.l4,
{
    let ts = c.lemma_run_trace(tile, post, out, at);
    reveal(SignalChain::layer_step);
    assert(at is None);
    assert(c.hands_on(0, ts, post) && c.hands_on(1, ts, post) && c.hands_on(2, ts, post)
        && c.hands_on(3, ts, post));
    lemma_noop_trace(c, post, ts, 4, 4);
}

proof fn lemma_noop_trace(
    c: SignalChain<NoopLayer, NoopLayer, NoopLayer, NoopLayer, NoopLayer>,
    post: SignalChain<NoopLayer, NoopLayer, NoopLayer, NoopLayer, NoopLayer>,
    ts: Seq<Tile>,
    k: int,
    j: int,
)
    requires
        0 <= j <= k < ts.len(),
        forall|m: int| 0 <= m < k ==> #[trigger] c.hands_on(m, ts, post),
    ensures
        ts[j] == ts[0],
    decreases j,
{
    reveal(SignalChain::layer_step);
    if j > 0 {
        lemma_noop_trace(c, post, ts, k, j - 1);
        assert(c.hands_on(j - 1, ts, post));
    }
}

/// An audit log at the last position never resolves: a tile that no earlier layer
/// resolved comes out unresolved.
pub proof fn lemma_log_never_resolves<L0: Layer, L1: Layer, L2: Layer, L3: Layer>(
    c: SignalChain<L0, L1, L2, L3, LoggingLayer>,
    tile: Tile,
    post: SignalChain<L0, L1, L2, L3, LoggingLayer>,
    out: Tile,
    at: Option<int>,
)
    requires
        c.run(tile, post, out, at),
    ensures
        at != Some(4int),
{
    let ts = c.lemma_run_trace(tile, post, out, at);
    reveal(SignalChain::layer_step);
}

/// The deadband filter's decision, in terms of the reading: a tile without a reading, a
/// reading outside its normal range, or one further than the deadband from the previous
/// reading escalates unchanged; a reading inside its range that is the first one or within
/// the deadband of the previous one is resolved as a normal status at full confidence. The
/// reading always becomes the one the next is compared with.
pub proof fn lemma_deadband_decision(l: DeadbandLayer, tile: Tile, post: DeadbandLayer, res: LayerResult)
    requires
        l.step(tile, post, res),
    ensures
        tile.sensor_reading is None ==> res == LayerResult::Escalate(tile) && post == l,
        tile.sensor_reading matches Some(r) ==> {
            &&& post.deadband == l.deadband
            &&& post.last_value == Some(r.value)
            &&& r.value < r.normal_min ==> res == LayerResult::Escalate(tile)
            &&& r.value > r.normal_max ==> res == LayerResult::Escalate(tile)
            &&& (l.last_value matches Some(p) && (r.value - p > l.deadband || p - r.value > l.deadband))
                ==> res == LayerResult::Escalate(tile)
            &&& (r.normal_min <= r.value && r.value <= r.normal_max && (l.last_value matches Some(p)
                ==> r.value - p <= l.deadband && p - r.value <= l.deadband)) ==> res is Resolved
            &&& res is Resolved ==> {
                &&& r.normal_min <= r.value <= r.normal_max
                &&& res.tile().tile_type == TileType::Status
                &&& res.tile().confidence == 100
                &&& res.tile().resolved_by == ResolutionLayer::Algorithmic
                &&& res.tile().id == tile.id
                &&& res.tile().sensor_reading == tile.sensor_reading
            }
        },
{
}

/// A rule's condition holds exactly when the reading comes from the rule's sensor and its
/// value is strictly above, strictly below, or inside (bounds included) the rule's limits.
pub proof fn lemma_rule_condition(rule: Rule, r: crate::tile::SensorReading)
    ensures
        rule.holds_for(r) ==> r.sensor_id@ == sensor_of(rule.condition),
        rule.holds_for(r) <==> match rule.condition {
            RuleCondition::AboveThreshold { sensor_id, threshold } => r.sensor_id@ == sensor_id@
                && r.value > threshold,
            RuleCondition::BelowThreshold { sensor_id, threshold } => r.sensor_id@ == sensor_id@
                && r.value < threshold,
            RuleCondition::InRange { sensor_id, min, max } => r.sensor_id@ == sensor_id@ && min
                <= r.value && r.value <= max,
        },
{
}

/// The rule layer resolves a tile only through a rule for the tile's own sensor, whose text
/// the alert carries; a tile whose sensor no rule names escalates unchanged.
pub proof fn lemma_rule_layer_sensor(l: RuleLayer, tile: Tile, post: RuleLayer, res: LayerResult)
    requires
        l.step(tile, post, res),
    ensures
        res is Resolved ==> (tile.sensor_reading matches Some(r) && exists|i: int|
            0 <= i < l.rules@.len() && sensor_of(#[trigger] l.rules@[i].condition) == r.sensor_id@
                && res.tile().content@ == l.rules@[i].tile_content@ && res.tile().tile_type
                == TileType::Alert),
        (tile.sensor_reading matches Some(r) && forall|i: int|
            0 <= i < l.rules@.len() ==> sensor_of(#[trigger] l.rules@[i].condition) != r.sensor_id@)
            ==> res == LayerResult::Escalate(tile),
{
    if res is Resolved {
        let r = tile.sensor_reading.unwrap();
        let i = crate::layers::rule::first_match(l.rules@, r);
        crate::layers::rule::lemma_first_match_exists(l.rules@, r);
        lemma_rule_condition(l.rules@[i], r);
        assert(sensor_of(l.rules@[i].condition) == r.sensor_id@);
    }
    if tile.sensor_reading is Some {
        let r = tile.sensor_reading.unwrap();
        if crate::layers::rule::some_rule_holds(l.rules@, r) {
            let i = choose|i: int| 0 <= i < l.rules@.len() && (#[trigger] l.rules@[i]).holds_for(r);
            lemma_rule_condition(l.rules@[i], r);
        }
    }
}

/// The deadband filter compares each reading with the one before it: after a reading, a
/// next reading in its normal range that lies within the deadband of it is resolved.
pub proof fn lemma_deadband_follows_last_reading(
    l: DeadbandLayer,
    first: Tile,
    mid: DeadbandLayer,
    res1: LayerResult,
    second: Tile,
    post: DeadbandLayer,
    res2: LayerResult,
)
    requires
        l.step(first, mid, res1),
        mid.step(second, post, res2),
        first.sensor_reading is Some,
        second.sensor_reading matches Some(b) && b.in_normal_range() && drift(
            b.value,
            first.sensor_reading.unwrap().value,
        ) <= l.deadband,
    ensures
        res2 is Resolved,
        post.last_value == Some(second.sensor_reading.unwrap().value),
{
}

/// The widest deadband, which a builder without a deadband uses, lets every drift pass:
/// the filter then decides by the normal range alone.
pub proof fn lemma_widest_deadband_passes_every_drift(last: Option<i64>, r: SensorReading)
    ensures
        accepts(u64::MAX, last, r) == r.in_normal_range(),
{
}

/// The audit log never holds more entries than its capacity: once full, each new entry
/// pushes out the oldest one, and a log of capacity 0 stays empty.
pub proof fn lemma_log_bounded(l: LoggingLayer, tile: Tile, post: LoggingLayer, res: LayerResult)
    requires
        l.wf(),
        l.step(tile, post, res),
    ensures
        post.entries@.len() <= post.max_entries,
        post.entries@.len() == if l.max_entries == 0 {
            0
        } else if l.entries@.len() < l.max_entries {
            l.entries@.len() + 1int
        } else {
            l.max_entries as int
        },
{
    if l.max_entries > 0 {
        assert(post.entries@.drop_last().len() + 1 == post.entries@.len());
    }
}

/// `out` is the same tile as `tile`: same identifier, room, timestamp and reading.
pub open spec fn same_tile(tile: Tile, out: Tile) -> bool {
    &&& out.id == tile.id
    &&& out.room_id == tile.room_id
    &&& out.timestamp_ms == tile.timestamp_ms
    &&& out.sensor_reading == tile.sensor_reading
}

/// A tile keeps its identity through a chain whose layers each answer with the tile they
/// were given.
pub proof fn lemma_chain_keeps_tile<L0: Layer, L1: Layer, L2: Layer, L3: Layer, L4: Layer>(
    c: SignalChain<L0, L1, L2, L3, L4>,
    tile: Tile,
    post: SignalChain<L0, L1, L2, L3, L4>,
    out: Tile,
    at: Option<int>,
)
    requires
        c.run(tile, post, out, at),
        forall|j: int, t: Tile, r: LayerResult|
            0 <= j < 5 && #[trigger] c.layer_step(j, t, post, r) ==> same_tile(t, r.tile()),
    ensures
        same_tile(tile, out),
{
    let ts = c.lemma_run_trace(tile, post, out, at);
    let k = last_run(at);
    lemma_trace_keeps_tile(c, post, ts, k, k);
    let last = if at is Some {
        LayerResult::Resolved(out)
    } else {
        LayerResult::Escalate(out)
    };
    assert(c.layer_step(k, ts[k], post, last));
}

proof fn lemma_trace_keeps_tile<L0: Layer, L1: Layer, L2: Layer, L3: Layer, L4: Layer>(
    c: SignalChain<L0, L1, L2, L3, L4>,
    post: SignalChain<L0, L1, L2, L3, L4>,
    ts: Seq<Tile>,
    k: int,
    j: int,
)
    requires
        0 <= j <= k < ts.len(),
        k < 5,
        forall|m: int| 0 <= m < k ==> #[trigger] c.hands_on(m, ts, post),
        forall|i: int, t: Tile, r: LayerResult|
            0 <= i < 5 && #[trigger] c.layer_step(i, t, post, r) ==> same_tile(t, r.tile()),
    ensures
        same_tile(ts[0], ts[j]),
    decreases j,
{
    if j > 0 {
        lemma_trace_keeps_tile(c, post, ts, k, j - 1);
        assert(c.hands_on(j - 1, ts, post));
    }
}

/// A tile keeps its identity through the built chain: whichever layer answers, the tile
/// that comes out has the identifier, room, timestamp and reading of the one that went in.
pub proof fn lemma_built_chain_keeps_tile(
    c: SignalChain<DeadbandLayer, RuleLayer, NoopLayer, CloudLayer, LoggingLayer>,
    tile: Tile,
    post: SignalChain<DeadbandLayer, RuleLayer, NoopLayer, CloudLayer, LoggingLayer>,
    out: Tile,
    at: Option<int>,
)
    requires
        c.run(tile, post, out, at),
    ensures
        same_tile(tile, out),
{
    assert forall|j: int, t: Tile, r: LayerResult|
        0 <= j < 5 && #[trigger] c.layer_step(j, t, post, r) implies same_tile(t, r.tile()) by {
        lemma_built_step_keeps_tile(c, post, j, t, r);
    }
    lemma_chain_keeps_tile(c, tile, post, out, at);
}

/// Each layer of the built chain answers with the tile it was given.
proof fn lemma_built_step_keeps_tile(
    c: SignalChain<DeadbandLayer, RuleLayer, NoopLayer, CloudLayer, LoggingLayer>,
    post: SignalChain<DeadbandLayer, RuleLayer, NoopLayer, CloudLayer, LoggingLayer>,
    j: int,
    t: Tile,
    r: LayerResult,
)
    requires
        0 <= j < 5,
        c.layer_step(j, t, post, r),
    ensures
        same_tile(t, r.tile()),
{
    reveal(SignalChain::layer_step);
    if j == 0 {
        assert(c.l0.step(t, post.l0, r));
    } else if j == 1 {
        assert(c.l1.step(t, post.l1, r));
    } else if j == 2 {
        assert(c.l2.step(t, post.l2, r));
    } else if j == 3 {
        assert(c.l3.step(t, post.l3, r));
    } else {
        assert(c.l4.step(t, post.l4, r));
    }
}

/// The statistics of a chain add up: every processed tile is resolved or unresolved, the
/// per-layer counts sum to the resolved tiles (so none exceeds them), and every counted
/// name is the name of one of the chain's layers.
pub proof fn lemma_chain_stats_add_up<L0: Layer, L1: Layer, L2: Layer, L3: Layer, L4: Layer>(
    c: SignalChain<L0, L1, L2, L3, L4>,
)
    requires
        c.wf(),
    ensures
        c.stats.total_processed == c.stats.resolved_count + c.stats.unresolved_count,
        c.stats.resolution_by_layer.total() == c.stats.resolved_count,
        forall|k: Seq<char>| #[trigger] c.stats.resolution_by_layer.count_of(k) <= c.stats.resolved_count,
        forall|k: Seq<char>| #[trigger] c.stats.resolution_by_layer@.dom().contains(k)
            ==> exists|i: int| 0 <= i < 5 && k == c.layer_name(i),
{
    assert forall|k: Seq<char>| #[trigger] c.stats.resolution_by_layer.count_of(k) <= c.stats.resolved_count by {
        c.stats.resolution_by_layer.lemma_count_le_total(k);
    }
}

} // verus!

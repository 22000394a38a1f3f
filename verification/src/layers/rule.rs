//! Rule-based classification.
use vstd::prelude::*;
use crate::tile::{copy_string, relabelled, Layer, LayerResult, ResolutionLayer, SensorReading, Tile, TileType};

verus! {

/// A condition that a rule checks against a sensor reading.
#[derive(Debug)]
pub enum RuleCondition {
    AboveThreshold { sensor_id: String, threshold: i64 },
    BelowThreshold { sensor_id: String, threshold: i64 },
    InRange { sensor_id: String, min: i64, max: i64 },
}

/// A single rule that produces an alert tile when its condition matches.
#[derive(Debug)]
pub struct Rule {
    pub name: String,
    pub condition: RuleCondition,
    pub tile_content: String,
}

impl Clone for RuleCondition {
    fn clone(&self) -> (c: RuleCondition)
        ensures
            c == *self,
    {
        match self {
            RuleCondition::AboveThreshold { sensor_id, threshold } => RuleCondition::AboveThreshold {
                sensor_id: copy_string(sensor_id),
                threshold: *threshold,
            },
            RuleCondition::BelowThreshold { sensor_id, threshold } => RuleCondition::BelowThreshold {
                sensor_id: copy_string(sensor_id),
                threshold: *threshold,
            },
            RuleCondition::InRange { sensor_id, min, max } => RuleCondition::InRange {
                sensor_id: copy_string(sensor_id),
                min: *min,
                max: *max,
            },
        }
    }
}

impl Clone for Rule {
    fn clone(&self) -> (r: Rule)
        ensures
            r == *self,
    {
        Rule {
            name: copy_string(&self.name),
            condition: self.condition.clone(),
            tile_content: copy_string(&self.tile_content),
        }
    }
}

/// The sensor a condition is about.
pub open spec fn sensor_of(c: RuleCondition) -> Seq<char> {
    match c {
        RuleCondition::AboveThreshold { sensor_id, .. } => sensor_id@,
        RuleCondition::BelowThreshold { sensor_id, .. } => sensor_id@,
        RuleCondition::InRange { sensor_id, .. } => sensor_id@,
    }
}

impl Rule {
    /// The rule's condition holds for reading `r`: the sensor matches and the value is
    /// strictly above, strictly below, or inside (bounds included) the rule's limits.
    pub open spec fn holds_for(self, r: SensorReading) -> bool {
        match self.condition {
            RuleCondition::AboveThreshold { sensor_id, threshold } => r.sensor_id@ == sensor_id@
                && r.value > threshold,
            RuleCondition::BelowThreshold { sensor_id, threshold } => r.sensor_id@ == sensor_id@
                && r.value < threshold,
            RuleCondition::InRange { sensor_id, min, max } => r.sensor_id@ == sensor_id@ && min
                <= r.value && r.value <= max,
        }
    }

    pub fn evaluate(&self, reading: &SensorReading) -> (b: bool)
        ensures
            b == self.holds_for(*reading),
            b ==> reading.sensor_id@ == sensor_of(self.condition),
    {
        match &self.condition {
            RuleCondition::AboveThreshold { sensor_id, threshold } => {
                reading.sensor_id == *sensor_id && reading.value > *threshold
            },
            RuleCondition::BelowThreshold { sensor_id, threshold } => {
                reading.sensor_id == *sensor_id && reading.value < *threshold
            },
            RuleCondition::InRange { sensor_id, min, max } => {
                reading.sensor_id == *sensor_id && reading.value >= *min && reading.value <= *max
            },
        }
    }
}

/// Rule `i` is the first of `rules` whose condition holds for `r`.
pub open spec fn is_first_match(rules: Seq<Rule>, r: SensorReading, i: int) -> bool {
    &&& 0 <= i < rules.len()
    &&& rules[i].holds_for(r)
    &&& forall|j: int| 0 <= j < i ==> !(#[trigger] rules[j]).holds_for(r)
}

/// Some rule of `rules` holds for `r`.
pub open spec fn some_rule_holds(rules: Seq<Rule>, r: SensorReading) -> bool {
    exists|i: int| 0 <= i < rules.len() && (#[trigger] rules[i]).holds_for(r)
}

/// The index of the first rule of `rules` that holds for `r` (meaningful when one holds).
pub open spec fn first_match(rules: Seq<Rule>, r: SensorReading) -> int {
    choose|i: int| is_first_match(rules, r, i)
}

/// The first match is unique, and exists exactly when some rule holds.
pub proof fn lemma_first_match(rules: Seq<Rule>, r: SensorReading, i: int)
    requires
        is_first_match(rules, r, i),
    ensures
        first_match(rules, r) == i,
        some_rule_holds(rules, r),
{
    let k = first_match(rules, r);
    assert(is_first_match(rules, r, k));
    if k < i {
        assert(!rules[k].holds_for(r));
    } else if i < k {
        assert(!rules[i].holds_for(r));
    }
}

/// When some rule holds, a first one does, and `first_match` is it.
pub proof fn lemma_first_match_exists(rules: Seq<Rule>, r: SensorReading)
    requires
        some_rule_holds(rules, r),
    ensures
        is_first_match(rules, r, first_match(rules, r)),
{
    let k = choose|i: int| 0 <= i < rules.len() && (#[trigger] rules[i]).holds_for(r);
    lemma_first_match_at_or_before(rules, r, k);
}

proof fn lemma_first_match_at_or_before(rules: Seq<Rule>, r: SensorReading, k: int)
    requires
        0 <= k < rules.len(),
        rules[k].holds_for(r),
    ensures
        is_first_match(rules, r, first_match(rules, r)),
    decreases k,
{
    if exists|j: int| 0 <= j < k && (#[trigger] rules[j]).holds_for(r) {
        let j = choose|j: int| 0 <= j < k && (#[trigger] rules[j]).holds_for(r);
        lemma_first_match_at_or_before(rules, r, j);
    } else {
        assert(is_first_match(rules, r, k));
    }
}

/// A count raised by one, staying at the largest `u64` once it gets there.
pub open spec fn bumped(c: u64) -> u64 {
    if c == u64::MAX {
        c
    } else {
        (c + 1) as u64
    }
}

/// Layer 1: rule-based classification.
///
/// Checks a reading against the rules in order. The first rule that matches resolves the
/// tile as an alert carrying that rule's text; if none matches, the tile escalates.
pub struct RuleLayer {
    pub rules: Vec<Rule>,
    /// How many tiles each rule has matched, by the rule's position.
    pub match_counts: Vec<u64>,
}

impl RuleLayer {
    pub fn new(rules: Vec<Rule>) -> (l: RuleLayer)
        ensures
            l.rules == rules,
            l.match_counts@.len() == rules@.len(),
            forall|i: int| 0 <= i < rules@.len() ==> l.match_counts@[i] == 0,
    {
        let count = rules.len();
        let mut match_counts: Vec<u64> = Vec::new();
        let mut i: usize = 0;
        while i < count
            invariant
                i <= count,
                match_counts@.len() == i,
                forall|j: int| 0 <= j < i ==> match_counts@[j] == 0,
            decreases count - i,
        {
            match_counts.push(0);
            i = i + 1;
        }
        RuleLayer { rules, match_counts }
    }
}

fn find_first_match(rules: &Vec<Rule>, reading: &SensorReading) -> (found: Option<usize>)
    ensures
        match found {
            Some(i) => is_first_match(rules@, *reading, i as int),
            None => !some_rule_holds(rules@, *reading),
        },
{
    let n = rules.len();
    let mut i: usize = 0;
    while i < n
        invariant
            i <= n,
            n == rules@.len(),
            forall|j: int| 0 <= j < i ==> !(#[trigger] rules@[j]).holds_for(*reading),
        decreases n - i,
    {
        if rules[i].evaluate(reading) {
            return Some(i);
        }
        i = i + 1;
    }
    None
}

impl Layer for RuleLayer {
    open spec fn wf(&self) -> bool {
        true
    }

    open spec fn spec_name(&self) -> Seq<char> {
        "rules"@
    }

    open spec fn step(&self, tile: Tile, post: Self, res: LayerResult) -> bool {
        match tile.sensor_reading {
            None => post == *self && res == LayerResult::Escalate(tile),
            Some(r) => {
                &&& post.rules == self.rules
                &&& if some_rule_holds(self.rules@, r) {
                    let i = first_match(self.rules@, r);
                    &&& res matches LayerResult::Resolved(out) && relabelled(
                        tile,
                        out,
                        TileType::Alert,
                        self.rules@[i].tile_content@,
                        100,
                        ResolutionLayer::Rules,
                    )
                    &&& post.match_counts@ == if i < self.match_counts@.len() {
                        self.match_counts@.update(i, bumped(self.match_counts@[i]))
                    } else {
                        self.match_counts@
                    }
                } else {
                    &&& res == LayerResult::Escalate(tile)
                    &&& post.match_counts == self.match_counts
                }
            },
        }
    }

    fn name(&self) -> (n: &'static str) {
        "rules"
    }

    fn process(&mut self, tile: Tile) -> (res: LayerResult) {
        let found = match &tile.sensor_reading {
            None => {
                return LayerResult::Escalate(tile);
            },
            Some(r) => find_first_match(&self.rules, r),
        };
        match found {
            None => LayerResult::Escalate(tile),
            Some(i) => {
                proof {
                    lemma_first_match(self.rules@, tile.sensor_reading.unwrap(), i as int);
                }
                if i < self.match_counts.len() {
                    let c = self.match_counts[i];
                    self.match_counts.set(i, c.saturating_add(1));
                }
                let content = copy_string(&self.rules[i].tile_content);
                let mut tile = tile;
                tile.tile_type = TileType::Alert;
                tile.content = content;
                tile.confidence = 100;
                tile.resolved_by = ResolutionLayer::Rules;
                LayerResult::Resolved(tile)
            },
        }
    }
}

} // verus!

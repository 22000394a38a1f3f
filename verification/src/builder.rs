//! Fluent construction of a signal chain.
use vstd::prelude::*;
use crate::chain::SignalChain;
use crate::layers::cloud::CloudLayer;
use crate::layers::deadband::DeadbandLayer;
use crate::layers::logging::LoggingLayer;
use crate::layers::noop::NoopLayer;
use crate::layers::rule::{Rule, RuleLayer};

verus! {

/// Fluent builder for a `SignalChain` of a deadband filter, rules, a placeholder, the cloud
/// fallback and an audit log.
pub struct SignalChainBuilder {
    deadband: Option<u64>,
    rules: Vec<Rule>,
    use_ollama: bool,
    ollama_endpoint: String,
    ollama_model: String,
    ollama_prompt: String,
    use_cloud: bool,
    log_max: usize,
}

/// The settings of a builder that decide the chain it builds.
pub struct BuilderSettings {
    pub deadband: Option<u64>,
    pub rules: Vec<Rule>,
    pub use_cloud: bool,
    pub log_max: usize,
}

/// One setter call on a builder.
pub enum BuilderStep {
    Deadband(u64),
    Rules(Vec<Rule>),
    Cloud(bool),
    Logging(usize),
}

/// The settings after one setter call: that setter's setting changes, the others stay.
pub open spec fn apply_step(s: BuilderSettings, step: BuilderStep) -> BuilderSettings {
    match step {
        BuilderStep::Deadband(d) => BuilderSettings { deadband: Some(d), ..s },
        BuilderStep::Rules(r) => BuilderSettings { rules: r, ..s },
        BuilderStep::Cloud(a) => BuilderSettings { use_cloud: a, ..s },
        BuilderStep::Logging(n) => BuilderSettings { log_max: n, ..s },
    }
}

/// The settings after a sequence of setter calls, in order.
pub open spec fn apply_steps(s: BuilderSettings, steps: Seq<BuilderStep>) -> BuilderSettings
    decreases steps.len(),
{
    if steps.len() == 0 {
        s
    } else {
        apply_step(apply_steps(s, steps.drop_last()), steps.last())
    }
}

/// The argument of the last deadband call among `steps`, if any.
pub open spec fn last_deadband(steps: Seq<BuilderStep>) -> Option<u64>
    decreases steps.len(),
{
    if steps.len() == 0 {
        None
    } else {
        match steps.last() {
            BuilderStep::Deadband(d) => Some(d),
            _ => last_deadband(steps.drop_last()),
        }
    }
}

/// The argument of the last rules call among `steps`, if any.
pub open spec fn last_rules(steps: Seq<BuilderStep>) -> Option<Vec<Rule>>
    decreases steps.len(),
{
    if steps.len() == 0 {
        None
    } else {
        match steps.last() {
            BuilderStep::Rules(r) => Some(r),
            _ => last_rules(steps.drop_last()),
        }
    }
}

/// The argument of the last cloud call among `steps`, if any.
pub open spec fn last_cloud(steps: Seq<BuilderStep>) -> Option<bool>
    decreases steps.len(),
{
    if steps.len() == 0 {
        None
    } else {
        match steps.last() {
            BuilderStep::Cloud(a) => Some(a),
            _ => last_cloud(steps.drop_last()),
        }
    }
}

/// The argument of the last logging call among `steps`, if any.
pub open spec fn last_logging(steps: Seq<BuilderStep>) -> Option<usize>
    decreases steps.len(),
{
    if steps.len() == 0 {
        None
    } else {
        match steps.last() {
            BuilderStep::Logging(n) => Some(n),
            _ => last_logging(steps.drop_last()),
        }
    }
}

/// After any sequence of setter calls, each setting is the argument of its setter's last
/// call, or what it was before where that setter was not called.
pub proof fn lemma_last_setter_wins(s: BuilderSettings, steps: Seq<BuilderStep>)
    ensures
        apply_steps(s, steps).deadband == match last_deadband(steps) {
            Some(d) => Some(d),
            None => s.deadband,
        },
        apply_steps(s, steps).rules == match last_rules(steps) {
            Some(r) => r,
            None => s.rules,
        },
        apply_steps(s, steps).use_cloud == match last_cloud(steps) {
            Some(a) => a,
            None => s.use_cloud,
        },
        apply_steps(s, steps).log_max == match last_logging(steps) {
            Some(n) => n,
            None => s.log_max,
        },
    decreases steps.len(),
{
    if steps.len() > 0 {
        lemma_last_setter_wins(s, steps.drop_last());
    }
}

/// Log capacity used when none was set.
pub const DEFAULT_LOG_CAPACITY: usize = 100;

impl SignalChainBuilder {
    /// The settings that decide the chain this builder builds.
    pub closed spec fn settings(self) -> BuilderSettings {
        BuilderSettings {
            deadband: self.deadband,
            rules: self.rules,
            use_cloud: self.use_cloud,
            log_max: self.log_max,
        }
    }

    /// The language-model settings: enabled, endpoint, model and prompt template.
    pub closed spec fn ollama_settings(self) -> (bool, Seq<char>, Seq<char>, Seq<char>) {
        (self.use_ollama, self.ollama_endpoint@, self.ollama_model@, self.ollama_prompt@)
    }

    pub fn new() -> (b: SignalChainBuilder)
        ensures
            b.settings().deadband is None,
            b.settings().rules@.len() == 0,
            b.settings().use_cloud,
            b.settings().log_max == 0,
            b.ollama_settings() == (
                false,
                "http://localhost:11434"@,
                "llama3"@,
                "Analyze sensor {sensor_id}={value}{unit}"@,
            ),
    {
        SignalChainBuilder::default()
    }

    /// Set the deadband threshold for L0.
    pub fn deadband(self, threshold: u64) -> (b: SignalChainBuilder)
        ensures
            b.settings() == apply_step(self.settings(), BuilderStep::Deadband(threshold)),
            b.ollama_settings() == self.ollama_settings(),
    {
        let mut b = self;
        b.deadband = Some(threshold);
        b
    }

    /// Set the rules for L1.
    pub fn rules(self, rules: Vec<Rule>) -> (b: SignalChainBuilder)
        ensures
            b.settings() == apply_step(self.settings(), BuilderStep::Rules(rules)),
            b.ollama_settings() == self.ollama_settings(),
    {
        let mut b = self;
        b.rules = rules;
        b
    }

    /// Set the capacity of the logging layer at L4.
    pub fn logging(self, max_entries: usize) -> (b: SignalChainBuilder)
        ensures
            b.settings() == apply_step(self.settings(), BuilderStep::Logging(max_entries)),
            b.ollama_settings() == self.ollama_settings(),
    {
        let mut b = self;
        b.log_max = max_entries;
        b
    }

    /// Enable or disable the cloud fallback at L3.
    pub fn cloud(self, available: bool) -> (b: SignalChainBuilder)
        ensures
            b.settings() == apply_step(self.settings(), BuilderStep::Cloud(available)),
            b.ollama_settings() == self.ollama_settings(),
    {
        let mut b = self;
        b.use_cloud = available;
        b
    }

    /// Build the chain: deadband filter (passing every drift when no deadband was set),
    /// rules, a placeholder named `noop-l2`, the cloud fallback and a log of the set
    /// capacity (100 when none was set).
    pub fn build(self) -> (c: SignalChain<DeadbandLayer, RuleLayer, NoopLayer, CloudLayer, LoggingLayer>)
        ensures
            c.wf(),
            c.stats.is_fresh(),
            c.l0.deadband == match self.settings().deadband {
                Some(d) => d,
                None => u64::MAX,
            },
            c.l0.last_value is None,
            c.l1.rules == self.settings().rules,
            c.l1.match_counts@.len() == self.settings().rules@.len(),
            forall|i: int| 0 <= i < c.l1.match_counts@.len() ==> c.l1.match_counts@[i] == 0,
            c.l2.label@ == "noop-l2"@,
            c.l3.available == self.settings().use_cloud,
            c.l4.max_entries == if self.settings().log_max > 0 {
                self.settings().log_max
            } else {
                DEFAULT_LOG_CAPACITY
            },
            c.l4.entries@.len() == 0,
    {
        let l0 = match self.deadband {
            Some(d) => DeadbandLayer::new(d),
            None => DeadbandLayer::new(u64::MAX),
        };
        let l1 = RuleLayer::new(self.rules);
        let l2 = NoopLayer::new("noop-l2");
        let l3 = if self.use_cloud {
            CloudLayer::new()
        } else {
            CloudLayer::unavailable()
        };
        let l4 = if self.log_max > 0 {
            LoggingLayer::new(self.log_max)
        } else {
            LoggingLayer::new(DEFAULT_LOG_CAPACITY)
        };
        SignalChain::new(l0, l1, l2, l3, l4)
    }
}

impl Default for SignalChainBuilder {
    fn default() -> (b: SignalChainBuilder)
        ensures
            b.settings().deadband is None,
            b.settings().rules@.len() == 0,
            b.settings().use_cloud,
            b.settings().log_max == 0,
            b.ollama_settings() == (
                false,
                "http://localhost:11434"@,
                "llama3"@,
                "Analyze sensor {sensor_id}={value}{unit}"@,
            ),
    {
        SignalChainBuilder {
            deadband: None,
            rules: Vec::new(),
            use_ollama: false,
            ollama_endpoint: String::from_str("http://localhost:11434"),
            ollama_model: String::from_str("llama3"),
            ollama_prompt: String::from_str("Analyze sensor {sensor_id}={value}{unit}"),
            use_cloud: true,
            log_max: 0,
        }
    }
}

/// Build a chain where every layer is a placeholder, so everything escalates.
pub fn all_noop_chain() -> (c: SignalChain<NoopLayer, NoopLayer, NoopLayer, NoopLayer, NoopLayer>)
    ensures
        c.wf(),
        c.stats.is_fresh(),
        c.l0.label@ == "noop-0"@,
        c.l1.label@ == "noop-1"@,
        c.l2.label@ == "noop-2"@,
        c.l3.label@ == "noop-3"@,
        c.l4.label@ == "noop-4"@,
{
    SignalChain::new(
        NoopLayer::new("noop-0"),
        NoopLayer::new("noop-1"),
        NoopLayer::new("noop-2"),
        NoopLayer::new("noop-3"),
        NoopLayer::new("noop-4"),
    )
}

} // verus!

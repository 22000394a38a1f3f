use plato_signal_chain::{
    ChainStep, CloudLayer, DeadbandLayer, LoggingLayer, ModelLayer, OllamaLayer, RuleLayer, SignalChain, Tile,
    all_noop_chain, make_reading, tile_from_reading, ChainStats, LayerResult, ResolutionLayer, Rule,
    RuleCondition, SignalChainBuilder, TileType,
};

#[test]
fn test_make_reading() {
    let r = make_reading("temp", 72, 60, 80);
    assert_eq!(r.sensor_id, "temp");
    assert_eq!(r.value, 72);
}

#[test]
fn test_tile_from_reading() {
    let r = make_reading("rpm", 1450, 1400, 1500);
    let t = tile_from_reading(&r);
    assert_eq!(t.resolved_by, ResolutionLayer::Unresolved);
    assert!(t.sensor_reading.is_some());
}

#[test]
fn test_layer_result_variants() {
    let r = make_reading("x", 1, 0, 2);
    let t = tile_from_reading(&r);
    let _resolved = LayerResult::Resolved(t.clone());
    let _escalate = LayerResult::Escalate(t);
}

#[test]
fn builder_default_builds_chain() {
    let mut chain = SignalChainBuilder::new()
        .deadband(5)
        .rules(vec![])
        .cloud(true)
        .logging(100)
        .build();

    let r = make_reading("rpm", 1450, 1400, 1500);
    let result = chain.process(tile_from_reading(&r));
    assert!(result.resolved_at.is_some());
    assert_eq!(result.resolved_at.unwrap().0, 0); // Resolved at L0
}

#[test]
fn builder_chain_with_rule() {
    let mut chain = SignalChainBuilder::new()
        .deadband(5)
        .rules(vec![Rule {
            name: "high_coolant".into(),
            condition: RuleCondition::AboveThreshold {
                sensor_id: "coolant".into(),
                threshold: 210,
            },
            tile_content: "Coolant too hot!".into(),
        }])
        .cloud(true)
        .logging(100)
        .build();

    // Out of deadband → escalate to rules → rule matches
    let r = make_reading("coolant", 215, 140, 220);
    let result = chain.process(tile_from_reading(&r));
    assert!(result.resolved_at.is_some());
}

#[test]
fn builder_all_escalate_reaches_cloud() {
    let mut chain = SignalChainBuilder::new()
        .deadband(0)
        .rules(vec![])
        .cloud(true)
        .logging(100)
        .build();

    let r1 = make_reading("x", 50, 0, 100);
    chain.process(tile_from_reading(&r1));

    let r2 = make_reading("x", 80, 0, 100); // Large drift
    let result = chain.process(tile_from_reading(&r2));
    assert!(result.resolved_at.is_some());
}

#[test]
fn all_noop_chain_escalates_everything() {
    let mut chain = all_noop_chain();
    let r = make_reading("x", 1, 0, 2);
    let result = chain.process(tile_from_reading(&r));
    assert!(result.resolved_at.is_none()); // Nothing resolves
}

#[test]
fn builder_stats_tracked() {
    let mut chain = SignalChainBuilder::new()
        .deadband(50)
        .rules(vec![])
        .cloud(true)
        .logging(100)
        .build();

    for i in 0..10 {
        let r = make_reading("x", 50 + i as i64, 0, 100);
        chain.process(tile_from_reading(&r));
    }

    let stats = chain.get_stats();
    assert_eq!(stats.total_processed, 10);
    assert!(stats.resolved_count > 0);
}

#[test]
fn builder_cloud_unavailable() {
    let mut chain = SignalChainBuilder::new()
        .deadband(0)
        .rules(vec![])
        .cloud(false)
        .logging(100)
        .build();

    let r1 = make_reading("x", 50, 0, 100);
    chain.process(tile_from_reading(&r1));

    let r2 = make_reading("x", 80, 0, 100);
    let result = chain.process(tile_from_reading(&r2));
    assert!(result.resolved_at.is_none() || result.tile.resolved_by == ResolutionLayer::Algorithmic);
}

// ── further cases ─────────────────────────────────────────────────────

#[test]
fn chain_result_names_resolving_layer_and_label() {
    let mut chain = SignalChainBuilder::new().deadband(5).build();
    let r = make_reading("rpm", 1450, 1400, 1500);
    let result = chain.process(tile_from_reading(&r));
    let (idx, name) = result.resolved_at.unwrap();
    assert_eq!(idx, 0);
    assert_eq!(name, "deadband");
    let stats = chain.get_stats();
    assert_eq!(stats.last_resolution_layer.as_deref(), Some("L0: deadband"));
    assert_eq!(stats.resolution_by_layer.get("deadband"), 1);
    assert_eq!(stats.resolved_count, 1);
    assert_eq!(stats.unresolved_count, 0);
}

#[test]
fn chain_cloud_resolves_after_escalations() {
    let mut chain = SignalChainBuilder::new().deadband(0).cloud(true).build();
    // Out of range: deadband escalates, no rules, placeholder escalates, cloud resolves.
    let r = make_reading("x", 500, 0, 100);
    let result = chain.process(tile_from_reading(&r));
    let (idx, name) = result.resolved_at.unwrap();
    assert_eq!(idx, 3);
    assert_eq!(name, "cloud");
    assert_eq!(result.tile.resolved_by, ResolutionLayer::Cloud);
    assert_eq!(result.tile.content, "[CLOUD] x: 500.0units");
    assert_eq!(chain.get_stats().last_resolution_layer.as_deref(), Some("L3: cloud"));
    // The log never ran.
    assert_eq!(chain.l4.entries.len(), 0);
}

#[test]
fn chain_unresolved_is_logged_and_counted() {
    let mut chain = SignalChainBuilder::new().deadband(0).cloud(false).logging(3).build();
    let r = make_reading("x", 500, 0, 100);
    let result = chain.process(tile_from_reading(&r));
    assert!(result.resolved_at.is_none());
    assert_eq!(result.tile.resolved_by, ResolutionLayer::Unresolved);
    assert_eq!(chain.l4.entries.len(), 1);
    let stats = chain.get_stats();
    assert_eq!(stats.unresolved_count, 1);
    assert_eq!(stats.resolved_count, 0);
    assert!(stats.last_resolution_layer.is_none());
    assert_eq!(stats.resolution_by_layer.len(), 0);
}

#[test]
fn builder_default_log_capacity() {
    let chain = SignalChainBuilder::new().build();
    assert_eq!(chain.l4.max_entries, 100);
    assert_eq!(chain.l0.deadband, u64::MAX);
    assert!(chain.l3.available);
    assert_eq!(chain.l2.label, "noop-l2");
}

#[test]
fn stats_default_is_zero() {
    let s = ChainStats::default();
    assert_eq!(s.total_processed, 0);
    assert_eq!(s.resolved_count, 0);
    assert_eq!(s.total_latency_ns, 0);
    assert!(s.last_resolution_layer.is_none());
}

#[test]
fn tile_content_formats_value() {
    let r = make_reading("temp", -7, -10, 0);
    let t = tile_from_reading(&r);
    assert_eq!(t.content, "temp: -7.0units");
    assert_eq!(t.tile_type, TileType::Status);
    assert_eq!(t.confidence, 0);
}

#[test]
fn chain_keeps_tile_identity() {
    let mut chain = SignalChainBuilder::new().deadband(0).build();
    for v in [10i64, 500, 11, 90] {
        let t = tile_from_reading(&make_reading("x", v, 0, 100));
        let id = t.id;
        let result = chain.process(t);
        assert_eq!(result.tile.id, id);
        assert_eq!(result.tile.room_id, "test-room");
        assert_eq!(result.tile.sensor_reading.unwrap().value, v);
    }
}

#[test]
fn chain_stats_add_up() {
    let mut chain = SignalChainBuilder::new().deadband(0).cloud(false).build();
    for v in [10i64, 500, 10, 10, 90] {
        chain.process(tile_from_reading(&make_reading("x", v, 0, 100)));
    }
    let stats = chain.get_stats();
    assert_eq!(stats.total_processed, 5);
    assert_eq!(stats.resolved_count + stats.unresolved_count, 5);
    // 10 (first) and the repeated 10 resolve at the deadband; 500, the 10 after it and 90 do not.
    assert_eq!(stats.resolved_count, 2);
    assert_eq!(stats.resolution_by_layer.get("deadband"), 2);
}

#[test]
fn noop_chain_returns_tile_unchanged() {
    let mut chain = all_noop_chain();
    let t = tile_from_reading(&make_reading("x", 1, 0, 2));
    let content = t.content.clone();
    let result = chain.process(t);
    assert_eq!(result.tile.content, content);
    assert_eq!(result.tile.resolved_by, ResolutionLayer::Unresolved);
    assert_eq!(chain.get_stats().unresolved_count, 1);
}

#[test]
fn latency_total_is_sum_of_run_latencies() {
    let mut chain = SignalChainBuilder::new().deadband(5).build();
    let mut sum: u64 = 0;
    for v in [1450i64, 1452, 2000] {
        let result = chain.process(tile_from_reading(&make_reading("rpm", v, 1400, 1500)));
        sum += result.latency;
    }
    assert_eq!(chain.get_stats().total_latency_ns, sum);
}

#[test]
fn model_chain_asks_and_resolves_at_l2() {
    let mut chain = SignalChain::new(
        DeadbandLayer::new(0),
        RuleLayer::new(vec![]),
        ModelLayer::new(OllamaLayer::new("http://localhost:11434", "llama3", "Analyze {sensor_id}={value}")),
        CloudLayer::new(),
        LoggingLayer::new(10),
    );
    // Out of range: the deadband and the rules escalate, the model is asked.
    let t = tile_from_reading(&make_reading("rpm", 2000, 1400, 1500));
    match chain.begin(t) {
        ChainStep::AskModel(pending) => {
            assert_eq!(pending.prompt(), "Analyze rpm=2000.0");
            let result = chain.resume(pending, Some("looks high".to_string()));
            let (idx, name) = result.resolved_at.unwrap();
            assert_eq!(idx, 2);
            assert_eq!(name, "ollama");
            assert_eq!(result.tile.content, "[OLLAMA] Analyzed rpm=2000.0units");
            assert_eq!(result.tile.resolved_by, ResolutionLayer::Ollama);
        }
        ChainStep::Finished(_) => panic!("the model should be asked"),
    }
    // No answer: the model escalates and the cloud resolves.
    let t = tile_from_reading(&make_reading("rpm", 3000, 1400, 1500));
    match chain.begin(t) {
        ChainStep::AskModel(pending) => {
            let result = chain.resume(pending, None);
            assert_eq!(result.resolved_at.unwrap().0, 3);
        }
        ChainStep::Finished(_) => panic!("the model should be asked"),
    }
    // In range and first reading after an out-of-range one with small drift: resolved at L0.
    let t = tile_from_reading(&make_reading("rpm", 3000, 0, 5000));
    match chain.begin(t) {
        ChainStep::Finished(result) => assert_eq!(result.resolved_at.unwrap().0, 0),
        ChainStep::AskModel(_) => panic!("the deadband resolves it"),
    }
    let stats = chain.get_stats();
    assert_eq!(stats.total_processed, 3);
    assert_eq!(stats.resolution_by_layer.get("ollama"), 1);
    assert_eq!(stats.resolution_by_layer.get("cloud"), 1);
    assert_eq!(stats.resolution_by_layer.get("deadband"), 1);
}

#[test]
fn model_chain_without_reading_never_asks() {
    let mut chain = SignalChain::new(
        DeadbandLayer::new(0),
        RuleLayer::new(vec![]),
        ModelLayer::new(OllamaLayer::new("e", "m", "{value}")),
        CloudLayer::unavailable(),
        LoggingLayer::new(10),
    );
    let tile = Tile {
        id: uuid::Uuid::new_v4(),
        room_id: "r".into(),
        tile_type: TileType::Status,
        content: "no sensor".into(),
        confidence: 0,
        resolved_by: ResolutionLayer::Unresolved,
        timestamp_ms: 0,
        sensor_reading: None,
    };
    match chain.begin(tile) {
        ChainStep::Finished(result) => assert!(result.resolved_at.is_none()),
        ChainStep::AskModel(_) => panic!("a tile without a reading is not sent"),
    }
}

#[test]
fn builder_last_setter_call_wins() {
    let chain = SignalChainBuilder::new()
        .deadband(5)
        .cloud(false)
        .logging(7)
        .deadband(9)
        .logging(0)
        .build();
    assert_eq!(chain.l0.deadband, 9);
    assert!(!chain.l3.available);
    assert_eq!(chain.l4.max_entries, 100);
    assert!(chain.l1.rules.is_empty());
}

#[test]
fn model_answer_is_not_kept_after_resume() {
    let mut chain = SignalChain::new(
        DeadbandLayer::new(0),
        RuleLayer::new(vec![]),
        ModelLayer::new(OllamaLayer::new("e", "m", "{value}")),
        CloudLayer::unavailable(),
        LoggingLayer::new(10),
    );
    match chain.begin(tile_from_reading(&make_reading("rpm", 2000, 1400, 1500))) {
        ChainStep::AskModel(pending) => {
            let result = chain.resume(pending, Some("answer".to_string()));
            assert_eq!(result.resolved_at.unwrap().0, 2);
        }
        ChainStep::Finished(_) => panic!("the model should be asked"),
    }
    assert!(chain.l2.answer.is_none());
    // A plain run does not reuse the earlier answer.
    let result = chain.process(tile_from_reading(&make_reading("rpm", 3000, 1400, 1500)));
    assert!(result.resolved_at.is_none());
    let stats = chain.get_stats();
    let tally = &stats.resolution_by_layer;
    let sum: u64 = (0..tally.len()).map(|i| tally.entry(i).1).sum();
    assert_eq!(sum, stats.resolved_count);
}

use plato_signal_chain::{
    make_reading, tile_from_reading, CloudLayer, DeadbandLayer, Layer, LayerResult, LoggingLayer,
    NoopLayer, OllamaLayer, ResolutionLayer, Rule, RuleCondition, RuleLayer, Tile, TileType,
};

// ── cloud ──

#[test]
fn cloud_resolves_when_available() {
    let mut layer = CloudLayer::new();
    let r = make_reading("x", 1, 0, 2);
    match layer.process(tile_from_reading(&r)) {
        LayerResult::Resolved(t) => {
            assert_eq!(t.resolved_by, ResolutionLayer::Cloud);
        }
        LayerResult::Escalate(_) => panic!("Cloud should resolve when available"),
    }
}

#[test]
fn cloud_escalates_when_unavailable() {
    let mut layer = CloudLayer::unavailable();
    let r = make_reading("x", 1, 0, 2);
    match layer.process(tile_from_reading(&r)) {
        LayerResult::Escalate(_) => {}
        LayerResult::Resolved(_) => panic!("Cloud unavailable → escalate"),
    }
}

#[test]
fn cloud_answer_fields() {
    let mut layer = CloudLayer::default();
    let t = tile_from_reading(&make_reading("x", 1, 0, 2));
    let id = t.id;
    match layer.process(t) {
        LayerResult::Resolved(t) => {
            assert_eq!(t.content, "[CLOUD] x: 1.0units");
            assert_eq!(t.tile_type, TileType::Escalation);
            assert_eq!(t.confidence, 50);
            assert_eq!(t.id, id);
        }
        LayerResult::Escalate(_) => panic!("available cloud resolves"),
    }
    assert_eq!(layer.name(), "cloud");
}

// ── deadband ──

#[test]
fn deadband_resolves_normal_first_reading() {
    let mut layer = DeadbandLayer::new(5);
    let r = make_reading("rpm", 1450, 1400, 1500);
    let tile = tile_from_reading(&r);
    match layer.process(tile) {
        LayerResult::Resolved(t) => {
            assert_eq!(t.resolved_by, ResolutionLayer::Algorithmic);
        }
        LayerResult::Escalate(_) => panic!("Should resolve normal reading"),
    }
}

#[test]
fn deadband_resolves_small_drift() {
    let mut layer = DeadbandLayer::new(5);
    let r1 = make_reading("rpm", 1450, 1400, 1500);
    let t1 = tile_from_reading(&r1);
    layer.process(t1);

    let r2 = make_reading("rpm", 1453, 1400, 1500);
    let t2 = tile_from_reading(&r2);
    match layer.process(t2) {
        LayerResult::Resolved(_) => {}
        LayerResult::Escalate(_) => panic!("3.0 drift < 5.0 deadband, should resolve"),
    }
}

#[test]
fn deadband_escalates_large_drift() {
    let mut layer = DeadbandLayer::new(5);
    let r1 = make_reading("rpm", 1450, 1400, 1500);
    layer.process(tile_from_reading(&r1));

    let r2 = make_reading("rpm", 1460, 1400, 1500);
    match layer.process(tile_from_reading(&r2)) {
        LayerResult::Escalate(_) => {}
        LayerResult::Resolved(_) => panic!("10.0 drift > 5.0 deadband, should escalate"),
    }
}

#[test]
fn deadband_escalates_out_of_range() {
    let mut layer = DeadbandLayer::new(50);
    let r = make_reading("coolant", 228, 140, 210);
    match layer.process(tile_from_reading(&r)) {
        LayerResult::Escalate(_) => {}
        LayerResult::Resolved(_) => panic!("228 > 210 max, should escalate"),
    }
}

#[test]
fn deadband_no_sensor_reading() {
    let mut layer = DeadbandLayer::new(5);
    let tile = Tile {
        id: uuid::Uuid::new_v4(),
        room_id: "r".into(),
        tile_type: TileType::Status,
        content: "no sensor".into(),
        confidence: 0,
        resolved_by: ResolutionLayer::Unresolved,
        timestamp_ms: 0,
        sensor_reading: None,
    };
    match layer.process(tile) {
        LayerResult::Escalate(_) => {}
        LayerResult::Resolved(_) => panic!("No sensor reading → escalate"),
    }
}

#[test]
fn deadband_texts_and_memory() {
    let mut layer = DeadbandLayer::new(5);
    match layer.process(tile_from_reading(&make_reading("rpm", 1450, 1400, 1500))) {
        LayerResult::Resolved(t) => {
            assert_eq!(t.content, "rpm: 1450.0units (initial reading, normal)");
            assert_eq!(t.confidence, 100);
        }
        LayerResult::Escalate(_) => panic!("first normal reading resolves"),
    }
    match layer.process(tile_from_reading(&make_reading("rpm", 1447, 1400, 1500))) {
        LayerResult::Resolved(t) => {
            assert_eq!(t.content, "rpm: 1447.0units (normal, drift 3.00)");
        }
        LayerResult::Escalate(_) => panic!("drift 3 within 5"),
    }
    assert_eq!(layer.last_value, Some(1447));
    // An escalated reading still becomes the reference.
    layer.process(tile_from_reading(&make_reading("rpm", 1499, 1400, 1500)));
    assert_eq!(layer.last_value, Some(1499));
    match layer.process(tile_from_reading(&make_reading("rpm", 1500, 1400, 1500))) {
        LayerResult::Resolved(_) => {}
        LayerResult::Escalate(_) => panic!("drift 1 from the escalated reading"),
    }
}

#[test]
fn deadband_first_reading_out_of_range_is_remembered() {
    let mut layer = DeadbandLayer::new(5);
    layer.process(tile_from_reading(&make_reading("x", 300, 0, 100)));
    assert_eq!(layer.last_value, Some(300));
    // Back in range but far from the remembered value.
    match layer.process(tile_from_reading(&make_reading("x", 50, 0, 100))) {
        LayerResult::Escalate(_) => {}
        LayerResult::Resolved(_) => panic!("drift 250 > 5"),
    }
}

#[test]
fn deadband_extreme_values_do_not_overflow() {
    let mut layer = DeadbandLayer::new(u64::MAX);
    layer.process(tile_from_reading(&make_reading("x", i64::MIN, i64::MIN, i64::MAX)));
    match layer.process(tile_from_reading(&make_reading("x", i64::MAX, i64::MIN, i64::MAX))) {
        LayerResult::Resolved(t) => {
            assert_eq!(
                t.content,
                "x: 9223372036854775807.0units (normal, drift 18446744073709551615.00)"
            );
        }
        LayerResult::Escalate(_) => panic!("every drift fits the largest deadband"),
    }
}

// ── logging ──

#[test]
fn logging_always_escalates() {
    let mut layer = LoggingLayer::new(100);
    let r = make_reading("x", 1, 0, 2);
    match layer.process(tile_from_reading(&r)) {
        LayerResult::Escalate(_) => {}
        LayerResult::Resolved(_) => panic!("Logging should always escalate"),
    }
}

#[test]
fn logging_records_entry() {
    let mut layer = LoggingLayer::new(100);
    let r = make_reading("x", 1, 0, 2);
    layer.process(tile_from_reading(&r));
    let entries = layer.get_entries();
    assert_eq!(entries.len(), 1);
    assert_eq!(entries[0].room_id, "test-room");
}

#[test]
fn logging_respects_max_entries() {
    let mut layer = LoggingLayer::new(3);
    for i in 0..5 {
        let r = make_reading("x", i as i64, 0, 100);
        layer.process(tile_from_reading(&r));
    }
    let entries = layer.get_entries();
    assert_eq!(entries.len(), 3); // Evicts oldest
}

#[test]
fn logging_truncates_long_content() {
    let mut layer = LoggingLayer::new(100);
    let mut tile = tile_from_reading(&make_reading("x", 1, 0, 2));
    tile.content = "x".repeat(200);
    layer.process(tile);
    let entries = layer.get_entries();
    assert_eq!(entries[0].content_summary.len(), 80);
}

#[test]
fn logging_keeps_newest_entries_in_order() {
    let mut layer = LoggingLayer::new(2);
    for i in 0..4 {
        let mut tile = tile_from_reading(&make_reading("x", 1, 0, 2));
        tile.content = format!("tile {}", i);
        layer.process(tile);
    }
    let entries = layer.get_entries();
    assert_eq!(entries.len(), 2);
    assert_eq!(entries[0].content_summary, "tile 2");
    assert_eq!(entries[1].content_summary, "tile 3");
    assert_eq!(entries[1].layer_name, "logging");
}

#[test]
fn logging_summary_stops_at_character_boundary() {
    let mut layer = LoggingLayer::new(10);
    let mut tile = tile_from_reading(&make_reading("x", 1, 0, 2));
    // 79 ASCII bytes, then a two-byte character spanning bytes 79 and 80.
    tile.content = format!("{}é and more", "a".repeat(79));
    layer.process(tile);
    let entries = layer.get_entries();
    assert_eq!(entries[0].content_summary, "a".repeat(79));
}

#[test]
fn logging_default_capacity() {
    let layer = LoggingLayer::default();
    assert_eq!(layer.max_entries, 1000);
    assert_eq!(layer.name(), "logging");
}

// ── noop ──

#[test]
fn noop_always_escalates() {
    let mut layer = NoopLayer::new("test");
    let r = make_reading("x", 1, 0, 2);
    match layer.process(tile_from_reading(&r)) {
        LayerResult::Escalate(_) => {}
        LayerResult::Resolved(_) => panic!("Noop should always escalate"),
    }
}

#[test]
fn noop_name() {
    let layer = NoopLayer::new("my-noop");
    assert_eq!(layer.name(), "my-noop");
}

#[test]
fn noop_default_name() {
    assert_eq!(NoopLayer::default().name(), "noop");
}

// ── rules ──

fn high_coolant_rule() -> Rule {
    Rule {
        name: "high_coolant".into(),
        condition: RuleCondition::AboveThreshold {
            sensor_id: "coolant".into(),
            threshold: 210,
        },
        tile_content: "Coolant above 210F!".into(),
    }
}

fn low_oil_rule() -> Rule {
    Rule {
        name: "low_oil".into(),
        condition: RuleCondition::BelowThreshold {
            sensor_id: "oil".into(),
            threshold: 35,
        },
        tile_content: "Oil below 35 PSI!".into(),
    }
}

#[test]
fn rule_matches_above_threshold() {
    let mut layer = RuleLayer::new(vec![high_coolant_rule()]);
    let r = make_reading("coolant", 215, 140, 220);
    match layer.process(tile_from_reading(&r)) {
        LayerResult::Resolved(t) => {
            assert_eq!(t.tile_type, TileType::Alert);
            assert_eq!(t.resolved_by, ResolutionLayer::Rules);
        }
        LayerResult::Escalate(_) => panic!("Should match rule"),
    }
}

#[test]
fn rule_no_match_below_threshold() {
    let mut layer = RuleLayer::new(vec![high_coolant_rule()]);
    let r = make_reading("coolant", 195, 140, 210);
    match layer.process(tile_from_reading(&r)) {
        LayerResult::Escalate(_) => {}
        LayerResult::Resolved(_) => panic!("195 < 210, should not match"),
    }
}

#[test]
fn rule_matches_below_threshold() {
    let mut layer = RuleLayer::new(vec![low_oil_rule()]);
    let r = make_reading("oil", 28, 35, 80);
    match layer.process(tile_from_reading(&r)) {
        LayerResult::Resolved(t) => {
            assert!(t.content.contains("Oil"));
        }
        LayerResult::Escalate(_) => panic!("28 < 35, should match"),
    }
}

#[test]
fn rule_wrong_sensor_id() {
    let mut layer = RuleLayer::new(vec![high_coolant_rule()]);
    let r = make_reading("rpm", 215, 140, 220);
    match layer.process(tile_from_reading(&r)) {
        LayerResult::Escalate(_) => {}
        LayerResult::Resolved(_) => panic!("Wrong sensor, should not match"),
    }
}

#[test]
fn rule_match_counts_tracked() {
    let mut layer = RuleLayer::new(vec![high_coolant_rule(), low_oil_rule()]);
    let r1 = make_reading("coolant", 215, 140, 220);
    let r2 = make_reading("coolant", 220, 140, 220);
    layer.process(tile_from_reading(&r1));
    layer.process(tile_from_reading(&r2));

    let counts = &layer.match_counts;
    assert_eq!(counts[0], 2);
    assert_eq!(counts[1], 0);
}

#[test]
fn rule_in_range_condition() {
    let rule = Rule {
        name: "normal_coolant".into(),
        condition: RuleCondition::InRange {
            sensor_id: "coolant".into(),
            min: 180,
            max: 210,
        },
        tile_content: "Coolant in normal range".into(),
    };
    let mut layer = RuleLayer::new(vec![rule]);

    let r = make_reading("coolant", 195, 140, 220);
    match layer.process(tile_from_reading(&r)) {
        LayerResult::Resolved(_) => {}
        LayerResult::Escalate(_) => panic!("195 is in [180, 210]"),
    }

    let r2 = make_reading("coolant", 170, 140, 220);
    match layer.process(tile_from_reading(&r2)) {
        LayerResult::Escalate(_) => {}
        LayerResult::Resolved(_) => panic!("170 is not in [180, 210]"),
    }
}

#[test]
fn rule_first_match_wins() {
    let catch_all = Rule {
        name: "any_coolant".into(),
        condition: RuleCondition::InRange { sensor_id: "coolant".into(), min: i64::MIN, max: i64::MAX },
        tile_content: "Coolant seen".into(),
    };
    let mut layer = RuleLayer::new(vec![high_coolant_rule(), catch_all]);
    match layer.process(tile_from_reading(&make_reading("coolant", 215, 0, 300))) {
        LayerResult::Resolved(t) => assert_eq!(t.content, "Coolant above 210F!"),
        LayerResult::Escalate(_) => panic!("first rule matches"),
    }
    match layer.process(tile_from_reading(&make_reading("coolant", 100, 0, 300))) {
        LayerResult::Resolved(t) => assert_eq!(t.content, "Coolant seen"),
        LayerResult::Escalate(_) => panic!("second rule matches"),
    }
    assert_eq!(layer.match_counts, vec![1, 1]);
}

#[test]
fn rule_threshold_is_strict() {
    let rule = high_coolant_rule();
    assert!(!rule.evaluate(&make_reading("coolant", 210, 0, 300)));
    assert!(rule.evaluate(&make_reading("coolant", 211, 0, 300)));
    let oil = low_oil_rule();
    assert!(!oil.evaluate(&make_reading("oil", 35, 0, 300)));
    assert!(oil.evaluate(&make_reading("oil", 34, 0, 300)));
}

// ── language model decisions ──

#[test]
fn ollama_prompt_fills_placeholders() {
    let layer = OllamaLayer::new(
        "http://localhost:11434",
        "llama3",
        "Analyze sensor {sensor_id}={value}{unit} [{normal_min}, {normal_max}] {value}",
    );
    let r = make_reading("rpm", 1450, 1400, 1500);
    assert_eq!(layer.build_prompt(&r), "Analyze sensor rpm=1450.0units [1400.0, 1500.0] 1450.0");
    assert_eq!(layer.confidence_threshold, 70);
}

#[test]
fn ollama_answer_resolves_and_failure_escalates() {
    let layer = OllamaLayer::new("e", "m", "{sensor_id}");
    let t = tile_from_reading(&make_reading("rpm", 12, 0, 100));
    match layer.resolve_with(t.clone(), Some("fine".to_string())) {
        LayerResult::Resolved(out) => {
            assert_eq!(out.content, "[OLLAMA] Analyzed rpm=12.0units");
            assert_eq!(out.confidence, 80);
            assert_eq!(out.tile_type, TileType::Prediction);
            assert_eq!(out.resolved_by, ResolutionLayer::Ollama);
        }
        LayerResult::Escalate(_) => panic!("an answer resolves"),
    }
    match layer.resolve_with(t, None) {
        LayerResult::Escalate(_) => {}
        LayerResult::Resolved(_) => panic!("no answer escalates"),
    }
}

#[test]
fn logging_capacity_zero_escalates_and_keeps_nothing() {
    let mut layer = LoggingLayer::new(0);
    let t = tile_from_reading(&make_reading("x", 1, 0, 2));
    let id = t.id;
    match layer.process(t) {
        LayerResult::Escalate(t) => assert_eq!(t.id, id),
        LayerResult::Resolved(_) => panic!("Logging should always escalate"),
    }
    assert!(layer.get_entries().is_empty());
}

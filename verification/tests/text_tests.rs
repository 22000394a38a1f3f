use plato_signal_chain::text::replace_all_str;
use plato_signal_chain::LayerTally;

#[test]
fn replace_scans_left_to_right_without_overlap() {
    assert_eq!(replace_all_str("aaaa", "aa", "b"), "bb");
    assert_eq!(replace_all_str("aaa", "aa", "b"), "ba");
    assert_eq!(replace_all_str("xyz", "q", "b"), "xyz");
    assert_eq!(replace_all_str("{v}{v}", "{v}", "{v}1"), "{v}1{v}1");
}

#[test]
fn tally_counts_by_name_in_first_seen_order() {
    let mut t = LayerTally::new();
    t.increment("rules");
    t.increment("deadband");
    t.increment("rules");
    assert_eq!(t.get("rules"), 2);
    assert_eq!(t.get("deadband"), 1);
    assert_eq!(t.get("cloud"), 0);
    assert_eq!(t.len(), 2);
    assert_eq!(t.entry(0), ("rules".to_string(), 2));
    t.set("deadband", 7);
    assert_eq!(t.entry(1), ("deadband".to_string(), 7));
    let copy = t.duplicate();
    assert_eq!(copy.get("deadband"), 7);
}

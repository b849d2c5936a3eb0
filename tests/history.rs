use yoinkctl::history::{ColorHistory, DEFAULT_MAX_ENTRIES};

fn hexes(h: &ColorHistory) -> Vec<String> {
    h.entries.iter().map(|e| e.hex.clone()).collect()
}

#[test]
fn re_added_colour_moves_to_front() {
    let mut h = ColorHistory::default();
    assert_eq!(h.max_entries, 50);
    h.add_color("#FF0000".to_string(), (255, 0, 0));
    h.add_color("#00FF00".to_string(), (0, 255, 0));
    h.add_color("#FF0000".to_string(), (255, 0, 0));
    assert_eq!(hexes(&h), vec!["#FF0000", "#00FF00"]);
}

#[test]
fn moved_entry_keeps_its_values() {
    let mut h = ColorHistory::default();
    h.add_color_at("#AA0000".to_string(), (170, 0, 0), 5);
    h.add_color_at("#BB0000".to_string(), (187, 0, 0), 6);
    h.add_color_at("#AA0000".to_string(), (1, 1, 1), 9);
    assert_eq!(hexes(&h), vec!["#AA0000", "#BB0000"]);
    assert_eq!(h.entries[0].rgb, (170, 0, 0));
    assert_eq!(h.entries[0].timestamp, 5);
    assert_eq!(h.entries[1].timestamp, 6);
}

#[test]
fn new_entries_beyond_bound_drop_the_oldest() {
    let mut h = ColorHistory { entries: Vec::new(), max_entries: 2 };
    h.add_color_at("#000001".to_string(), (0, 0, 1), 1);
    h.add_color_at("#000002".to_string(), (0, 0, 2), 2);
    h.add_color_at("#000003".to_string(), (0, 0, 3), 3);
    assert_eq!(hexes(&h), vec!["#000003", "#000002"]);
}

#[test]
fn default_bound_keeps_fifty() {
    let mut h = ColorHistory::default();
    for i in 0..60u8 {
        h.add_color_at(format!("#0000{:02X}", i), (0, 0, i), i as i64);
    }
    assert_eq!(h.entries.len(), DEFAULT_MAX_ENTRIES);
    assert_eq!(h.entries[0].hex, "#00003B");
    assert_eq!(h.entries[49].hex, "#00000A");
}

#[test]
fn zero_bound_keeps_nothing() {
    let mut h = ColorHistory { entries: Vec::new(), max_entries: 0 };
    h.add_color_at("#123456".to_string(), (18, 52, 86), 1);
    assert!(h.entries.is_empty());
}

#[test]
fn clear_empties_and_keeps_bound() {
    let mut h = ColorHistory { entries: Vec::new(), max_entries: 7 };
    h.add_color("#123456".to_string(), (18, 52, 86));
    assert_eq!(h.entries.len(), 1);
    assert!(h.entries[0].timestamp > 0);
    h.clear();
    assert!(h.entries.is_empty());
    assert_eq!(h.max_entries, 7);
}

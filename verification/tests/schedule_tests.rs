use laverna::actions::schedule::{
    delay_until, fire_time, remove_entry, sort_entries, split_due, with_entry, Entry, Kind,
    STORE_FILE,
};

const NOW: u64 = 1_700_000_000;

/// `add` as the store runs it at the moment `NOW`.
fn add(store: Vec<Entry>, kind: Kind, id: &str, secs: u64, text: &str) -> Vec<Entry> {
    with_entry(store, kind, id.to_string(), fire_time(NOW, secs), text.to_string())
}

fn entry(kind: Kind, id: &str, fire_at: u64, text: &str) -> Entry {
    Entry { kind, id: id.to_string(), fire_at, text: text.to_string() }
}

#[test]
fn add_and_pending_round_trip() {
    let p = add(Vec::new(), Kind::Timer, "tea", 3600, "tea");
    assert_eq!(p.len(), 1);
    assert_eq!(p[0].id, "tea");
    assert!(p[0].fire_at > NOW);
}

#[test]
fn add_replaces_same_id() {
    let p = add(Vec::new(), Kind::Timer, "x", 100, "x");
    let p = add(p, Kind::Timer, "x", 200, "x");
    assert_eq!(p.len(), 1);
    assert_eq!(p[0].fire_at, NOW + 200);
}

#[test]
fn add_keeps_other_kind_with_same_id() {
    let p = add(Vec::new(), Kind::Timer, "x", 100, "x");
    let p = add(p, Kind::Reminder, "x", 50, "x");
    assert_eq!(p.len(), 2);
    assert_eq!(p[0].kind, Kind::Reminder);
}

#[test]
fn remove_deletes() {
    let p = add(Vec::new(), Kind::Reminder, "r1", 500, "call mom");
    let (p, changed) = remove_entry(p, Kind::Reminder, "r1");
    assert!(changed);
    assert!(p.is_empty());
}

#[test]
fn remove_absent_changes_nothing() {
    let p = add(Vec::new(), Kind::Reminder, "r1", 500, "call mom");
    let (p, changed) = remove_entry(p, Kind::Timer, "r1");
    assert!(!changed);
    assert_eq!(p.len(), 1);
}

#[test]
fn pending_is_sorted_by_fire_time() {
    let p = add(Vec::new(), Kind::Timer, "late", 900, "late");
    let p = add(p, Kind::Timer, "soon", 60, "soon");
    assert_eq!(p[0].id, "soon");
    assert_eq!(p[1].id, "late");
}

#[test]
fn equal_fire_times_sort_by_id() {
    let sorted = sort_entries(vec![
        entry(Kind::Timer, "b", 5, "b"),
        entry(Kind::Timer, "a", 5, "a"),
        entry(Kind::Timer, "c", 1, "c"),
    ]);
    let ids: Vec<&str> = sorted.iter().map(|e| e.id.as_str()).collect();
    assert_eq!(ids, vec!["c", "a", "b"]);
}

#[test]
fn restore_prunes_past_and_arms_future() {
    let entries = vec![
        entry(Kind::Timer, "old", 1, "old"),
        entry(Kind::Timer, "new", NOW + 3600, "new"),
    ];
    let (future, past) = split_due(entries, NOW);
    assert_eq!(future.len(), 1);
    assert_eq!(future[0].id, "new");
    assert_eq!(past.len(), 1);
    assert_eq!(past[0].id, "old");
    assert_eq!(delay_until(future[0].fire_at, NOW), 3600);
}

#[test]
fn survives_a_simulated_restart() {
    let p = add(Vec::new(), Kind::Timer, "bread", 3600, "bread");
    let (future, past) = split_due(p, NOW);
    assert_eq!(future.len(), 1, "timer should re-arm across restart");
    assert!(past.is_empty());
}

#[test]
fn fire_time_saturates_and_delay_floors_at_zero() {
    assert_eq!(fire_time(u64::MAX - 1, 10), u64::MAX);
    assert_eq!(fire_time(10, 5), 15);
    assert_eq!(delay_until(5, 10), 0);
    assert_eq!(delay_until(15, 10), 5);
    assert_eq!(STORE_FILE, "schedule.json");
}

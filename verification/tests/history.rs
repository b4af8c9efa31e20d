use unified_share::history::{
    entries_to_rewrite, history_line, new_entry, random_id, recent_entries, HistoryEntry,
    MAX_ENTRIES,
};

#[test]
fn random_ids_are_96_bit_hex() {
    let id = random_id().unwrap();
    assert_eq!(id.len(), 24);
    assert!(id.bytes().all(|byte| byte.is_ascii_hexdigit()));
}

fn entry(n: u64) -> HistoryEntry {
    new_entry(format!("id{n}"), n, "localsend", "Phone", 2, "ok", "sent")
}

#[test]
fn history_keeps_the_newest_two_hundred() {
    let entries: Vec<HistoryEntry> = (0..205).map(entry).collect();
    let kept = entries_to_rewrite(entries).unwrap();
    assert_eq!(kept.len(), MAX_ENTRIES);
    assert_eq!(kept[0].timestamp_unix, 5);
    assert_eq!(kept[199].timestamp_unix, 204);
    let entries: Vec<HistoryEntry> = (0..200).map(entry).collect();
    assert!(entries_to_rewrite(entries).is_none());
}

#[test]
fn recent_entries_are_newest_first_and_limited() {
    let entries: Vec<HistoryEntry> = (0..5).map(entry).collect();
    let shown = recent_entries(entries, 3);
    let stamps: Vec<u64> = shown.iter().map(|e| e.timestamp_unix).collect();
    assert_eq!(stamps, vec![4, 3, 2]);
    let entries: Vec<HistoryEntry> = (0..2).map(entry).collect();
    assert_eq!(recent_entries(entries, 10).len(), 2);
    let entries: Vec<HistoryEntry> = (0..2).map(entry).collect();
    assert!(recent_entries(entries, 0).is_empty());
}

#[test]
fn history_lines_are_tab_separated() {
    let e = new_entry("x".to_owned(), 1700000000, "localsend", "Pixel", 3, "ok", "Opened LocalSend");
    assert_eq!(history_line(&e), "1700000000\tok\tPixel\t3 item(s)\tOpened LocalSend");
    assert_eq!(e.route, "localsend");
    assert_eq!(e.id, "x");
}

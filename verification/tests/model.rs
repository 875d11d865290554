use std::collections::VecDeque;

use cosmi_cal::calendar::CalendarDate;
use cosmi_cal::clipboard::get_text;
use cosmi_cal::model::{AppData, DayNote, DayNotes, MAX_CLIPBOARD_BYTES, MAX_CLIPBOARD_HISTORY};

fn empty_data() -> AppData {
    AppData {
        selected_date: "2024-03-15".to_string(),
        scratchpad: String::new(),
        day_notes: DayNotes::new(),
        clipboard_history: VecDeque::new(),
        pinned_clipboard: Vec::new(),
    }
}

fn history(data: &AppData) -> Vec<&str> {
    data.clipboard_history.iter().map(|s| s.as_str()).collect()
}

#[test]
fn day_notes_are_set_read_and_cleared() {
    let mut data = empty_data();
    assert!(!data.has_day_note("2024-03-15"));
    data.set_day_note("2024-03-15".to_string(), "buy milk".to_string());
    assert!(data.has_day_note("2024-03-15"));
    assert_eq!(data.day_notes.get("2024-03-15").map(|s| s.as_str()), Some("buy milk"));
    data.set_day_note("2024-03-16".to_string(), "other".to_string());
    data.set_day_note("2024-03-15".to_string(), "replaced".to_string());
    assert_eq!(data.day_notes.get("2024-03-15").map(|s| s.as_str()), Some("replaced"));
    data.set_day_note("2024-03-15".to_string(), String::new());
    assert!(!data.has_day_note("2024-03-15"));
    assert_eq!(data.day_notes.get("2024-03-15"), None);
    assert!(data.has_day_note("2024-03-16"));
    assert_eq!(data.day_notes.to_list().len(), 1);
}

#[test]
fn empty_stored_note_does_not_count() {
    let notes = vec![
        DayNote { date: "2024-01-01".to_string(), text: String::new() },
        DayNote { date: "2024-01-02".to_string(), text: "a".to_string() },
        DayNote { date: "2024-01-02".to_string(), text: "b".to_string() },
    ];
    let mut data = empty_data();
    data.day_notes = DayNotes::from_list(&notes);
    assert!(!data.has_day_note("2024-01-01"));
    assert!(data.has_day_note("2024-01-02"));
    assert_eq!(data.day_notes.get("2024-01-02").map(|s| s.as_str()), Some("b"));
    assert_eq!(data.day_notes.to_list().len(), 2);
}

#[test]
fn clipboard_history_is_newest_first_without_duplicates() {
    let mut data = empty_data();
    assert!(data.push_clipboard("a".to_string()));
    assert!(data.push_clipboard("b".to_string()));
    assert!(data.push_clipboard("c".to_string()));
    assert_eq!(history(&data), vec!["c", "b", "a"]);
    assert!(!data.push_clipboard("c".to_string()));
    assert!(data.push_clipboard("a".to_string()));
    assert_eq!(history(&data), vec!["a", "c", "b"]);
}

#[test]
fn clipboard_history_refuses_blank_and_oversized_items() {
    let mut data = empty_data();
    assert!(!data.push_clipboard(String::new()));
    assert!(!data.push_clipboard(" \n\t\u{3000}".to_string()));
    assert!(!data.push_clipboard("x".repeat(MAX_CLIPBOARD_BYTES + 1)));
    assert!(data.push_clipboard("x".repeat(MAX_CLIPBOARD_BYTES)));
    assert!(!data.push_clipboard("é".repeat(MAX_CLIPBOARD_BYTES / 2 + 1)));
    assert_eq!(data.clipboard_history.len(), 1);
}

#[test]
fn clipboard_history_is_capped() {
    let mut data = empty_data();
    for i in 0..30 {
        assert!(data.push_clipboard(format!("item {i}")));
    }
    assert_eq!(data.clipboard_history.len(), MAX_CLIPBOARD_HISTORY);
    assert_eq!(data.clipboard_history[0], "item 29");
    assert_eq!(data.clipboard_history[MAX_CLIPBOARD_HISTORY - 1], "item 10");
    data.clear_clipboard_history();
    assert!(data.clipboard_history.is_empty());
}

#[test]
fn pinning_is_idempotent_and_unpinning_removes_all() {
    let mut data = empty_data();
    data.pin_clipboard("a".to_string());
    data.pin_clipboard("b".to_string());
    data.pin_clipboard("a".to_string());
    assert_eq!(data.pinned_clipboard, vec!["a".to_string(), "b".to_string()]);
    data.pinned_clipboard.push("a".to_string());
    data.unpin_clipboard("a");
    assert_eq!(data.pinned_clipboard, vec!["b".to_string()]);
    data.unpin_clipboard("zzz");
    assert_eq!(data.pinned_clipboard, vec!["b".to_string()]);
}

#[test]
fn load_falls_back_to_fresh_data() {
    let stored = empty_data();
    let today = CalendarDate { year: 2025, month: 7, day: 4 };
    let loaded = AppData::load(Some(stored), today);
    assert_eq!(loaded.selected_date, "2024-03-15");
    let fresh = AppData::load(None, today);
    assert_eq!(fresh.selected_date, "2025-07-04");
    assert!(fresh.scratchpad.is_empty());
    assert!(fresh.clipboard_history.is_empty());
    assert!(fresh.pinned_clipboard.is_empty());
    assert!(fresh.day_notes.to_list().is_empty());
}

#[test]
fn clipboard_reads_drop_blank_text() {
    assert_eq!(get_text(None), None);
    assert_eq!(get_text(Some("  \n".to_string())), None);
    assert_eq!(get_text(Some(" x ".to_string())), Some(" x ".to_string()));
}

#[test]
fn day_notes_list_comes_in_date_order() {
    let mut notes = DayNotes::new();
    notes.insert("2024-03-02".to_string(), "second".to_string());
    notes.insert("2023-12-31".to_string(), "first".to_string());
    notes.insert("2024-10-01".to_string(), "third".to_string());
    notes.insert("2024-03-02".to_string(), "second again".to_string());
    let list = notes.to_list();
    let dates: Vec<&str> = list.iter().map(|n| n.date.as_str()).collect();
    assert_eq!(dates, vec!["2023-12-31", "2024-03-02", "2024-10-01"]);
    assert_eq!(list[1].text, "second again");
    notes.remove("2024-03-02");
    let dates: Vec<String> = notes.to_list().into_iter().map(|n| n.date).collect();
    assert_eq!(dates, vec!["2023-12-31".to_string(), "2024-10-01".to_string()]);
}

use std::collections::VecDeque;

use cosmi_cal::model::{AppData, DayNotes};
use cosmi_cal::views::{dashboard_clips, month_cells, month_label, note_label, scratchpad_status};

fn data() -> AppData {
    let mut d = AppData {
        selected_date: "2024-02-10".to_string(),
        scratchpad: String::new(),
        day_notes: DayNotes::new(),
        clipboard_history: VecDeque::new(),
        pinned_clipboard: Vec::new(),
    };
    d.set_day_note("2024-02-14".to_string(), "note".to_string());
    d
}

#[test]
fn month_grid_places_days_under_their_weekdays() {
    let d = data();
    let cells = month_cells(&d, 2024, 2, "2024-02-20");
    // February 2024 starts on a Thursday and has 29 days: 3 blanks, 29 days, 3 blanks.
    assert_eq!(cells.len(), 35);
    assert!(cells[0].is_none() && cells[2].is_none());
    let first = cells[3].as_ref().unwrap();
    assert_eq!(first.date, "2024-02-01");
    assert_eq!(first.label, "1");
    let valentine = cells[16].as_ref().unwrap();
    assert_eq!(valentine.date, "2024-02-14");
    assert_eq!(valentine.label, "14·");
    assert!(cells[12].as_ref().unwrap().is_selected);
    assert!(cells[22].as_ref().unwrap().is_today);
    assert_eq!(cells[31].as_ref().unwrap().label, "29");
    assert!(cells[32].is_none() && cells[34].is_none());
    assert_eq!(cells.iter().filter(|c| c.is_some()).count(), 29);
}

#[test]
fn month_grid_of_a_month_starting_on_monday() {
    let cells = month_cells(&data(), 2024, 1, "x");
    assert_eq!(cells.len(), 35);
    assert_eq!(cells[0].as_ref().unwrap().date, "2024-01-01");
    assert!(month_cells(&data(), 2024, 13, "x").is_empty());
}

#[test]
fn labels() {
    assert_eq!(month_label(2024, 3), "March 2024");
    assert_eq!(month_label(-5, 13), "??? -5");
    assert_eq!(note_label("2024-03-15", "2024-03-15"), "Note — 2024-03-15 · Today");
    assert_eq!(note_label("2024-03-15", "2024-03-16"), "Note — 2024-03-15");
    assert_eq!(scratchpad_status(true, true), " ⚠ save failed");
    assert_eq!(scratchpad_status(true, false), " ●");
    assert_eq!(scratchpad_status(false, false), "");
}

#[test]
fn dashboard_lists_three_of_each_without_repeating_pinned() {
    let mut d = data();
    for s in ["a", "b", "c", "d", "e"] {
        d.push_clipboard(s.to_string());
    }
    d.pin_clipboard("d".to_string());
    d.pin_clipboard("x".to_string());
    let (pinned, recent) = dashboard_clips(&d);
    assert_eq!(pinned, vec!["d".to_string(), "x".to_string()]);
    assert_eq!(recent, vec!["e".to_string(), "c".to_string(), "b".to_string()]);
    for s in ["p", "q", "r", "s"] {
        d.pin_clipboard(s.to_string());
    }
    let (pinned, _) = dashboard_clips(&d);
    assert_eq!(pinned.len(), 3);
}

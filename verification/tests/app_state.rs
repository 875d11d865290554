use std::collections::VecDeque;

use cosmi_cal::app_state::{AppEffect, AppEvent, AppState};
use cosmi_cal::calendar::CalendarDate;
use cosmi_cal::model::{AppData, DayNotes};

fn data_with(selected: &str) -> AppData {
    let mut data = AppData {
        selected_date: selected.to_string(),
        scratchpad: "pad".to_string(),
        day_notes: DayNotes::new(),
        clipboard_history: VecDeque::new(),
        pinned_clipboard: Vec::new(),
    };
    data.set_day_note("2024-03-15".to_string(), "selected note".to_string());
    data.set_day_note("2024-05-01".to_string(), "today note".to_string());
    data
}

fn may_day() -> CalendarDate {
    CalendarDate { year: 2024, month: 5, day: 1 }
}

#[test]
fn init_shows_the_selected_month_and_notes() {
    let (state, texts) = AppState::init(data_with("2024-03-15"), may_day());
    assert_eq!((state.cal_year, state.cal_month), (2024, 3));
    assert!(!state.dirty);
    assert_eq!(texts.scratchpad, "pad");
    assert_eq!(texts.day_note, "selected note");
    assert_eq!(texts.today_note, "today note");
}

#[test]
fn init_falls_back_to_today_month() {
    let (state, texts) = AppState::init(data_with("garbage"), may_day());
    assert_eq!((state.cal_year, state.cal_month), (2024, 5));
    assert_eq!(texts.day_note, "");
    let far = CalendarDate { year: -5, month: 7, day: 4 };
    let (state, _) = AppState::init(data_with("-0005-07-04"), far);
    assert_eq!((state.cal_year, state.cal_month), (-5, 7));
}

#[test]
fn months_step_and_dates_select() {
    let (mut state, _) = AppState::init(data_with("2024-01-15"), may_day());
    assert!(state.update(AppEvent::PrevMonth).is_none());
    assert_eq!((state.cal_year, state.cal_month), (2023, 12));
    assert!(state.update(AppEvent::NextMonth).is_none());
    assert_eq!((state.cal_year, state.cal_month), (2024, 1));
    assert!(!state.dirty);
    match state.update(AppEvent::SelectDate("2024-03-15".to_string())) {
        Some(AppEffect::ShowDayNote(t)) => assert_eq!(t, "selected note"),
        _ => panic!("expected the note to be shown"),
    }
    assert_eq!((state.cal_year, state.cal_month), (2024, 3));
    assert_eq!(state.data.selected_date, "2024-03-15");
    assert!(state.dirty);
    match state.update(AppEvent::GoToToday("2024-05-01".to_string())) {
        Some(AppEffect::ShowDayNote(t)) => assert_eq!(t, "today note"),
        _ => panic!("expected the note to be shown"),
    }
    assert_eq!((state.cal_year, state.cal_month), (2024, 5));
}

#[test]
fn edits_save_after_three_idle_ticks() {
    let (mut state, _) = AppState::init(data_with("2024-03-15"), may_day());
    assert!(state.update(AppEvent::SaveTick).is_none());
    state.update(AppEvent::ScratchpadEdited("new".to_string()));
    assert_eq!(state.data.scratchpad, "new");
    assert!(state.update(AppEvent::SaveTick).is_none());
    assert!(state.update(AppEvent::SaveTick).is_none());
    assert!(matches!(state.update(AppEvent::SaveTick), Some(AppEffect::Save)));
    assert!(!state.dirty);
    assert!(state.update(AppEvent::SaveTick).is_none());
}

#[test]
fn switching_pages_saves_at_once() {
    let (mut state, _) = AppState::init(data_with("2024-03-15"), may_day());
    assert!(state.update(AppEvent::PageSwitched).is_none());
    state.update(AppEvent::DayNoteEdited("changed".to_string()));
    assert!(state.data.has_day_note("2024-03-15"));
    assert!(matches!(state.update(AppEvent::PageSwitched), Some(AppEffect::Save)));
    assert!(!state.dirty);
    assert_eq!(state.save_countdown, 0);
}

#[test]
fn editing_notes_sets_and_drops_them() {
    let (mut state, _) = AppState::init(data_with("2024-03-15"), may_day());
    state.update(AppEvent::DayNoteEdited(String::new()));
    assert!(!state.data.has_day_note("2024-03-15"));
    state.update(AppEvent::TodayNoteEdited("2024-05-02".to_string(), "tomorrow".to_string()));
    assert!(state.data.has_day_note("2024-05-02"));
}

#[test]
fn clipboard_polling_takes_each_text_once() {
    let (mut state, _) = AppState::init(data_with("2024-03-15"), may_day());
    state.update(AppEvent::ClipboardPolled(None));
    assert!(!state.dirty);
    state.update(AppEvent::ClipboardPolled(Some("   ".to_string())));
    assert!(state.last_clipboard.is_none());
    state.update(AppEvent::ClipboardPolled(Some("copied".to_string())));
    assert_eq!(state.last_clipboard.as_deref(), Some("copied"));
    assert_eq!(state.data.clipboard_history.len(), 1);
    assert!(state.dirty);
    state.update(AppEvent::SaveTick);
    state.update(AppEvent::ClipboardPolled(Some("copied".to_string())));
    assert_eq!(state.save_countdown, 2);
    state.update(AppEvent::ClearClipboardHistory);
    assert!(state.last_clipboard.is_none());
    assert!(state.data.clipboard_history.is_empty());
    state.update(AppEvent::ClipboardPolled(Some("copied".to_string())));
    assert_eq!(state.data.clipboard_history.len(), 1);
}

#[test]
fn pins_and_restores() {
    let (mut state, _) = AppState::init(data_with("2024-03-15"), may_day());
    state.update(AppEvent::PinClipboard("p".to_string()));
    assert_eq!(state.data.pinned_clipboard, vec!["p".to_string()]);
    state.update(AppEvent::UnpinClipboard("p".to_string()));
    assert!(state.data.pinned_clipboard.is_empty());
    match state.update(AppEvent::RestoreClipboard("r".to_string())) {
        Some(AppEffect::WriteClipboard(t)) => assert_eq!(t, "r"),
        _ => panic!("expected a clipboard write"),
    }
}

use cosmi_cal::app_state::{toggle_context_page, ContextPage};

#[test]
fn context_drawer_toggles() {
    assert_eq!(toggle_context_page(ContextPage::About, false, ContextPage::About), (ContextPage::About, true));
    assert_eq!(toggle_context_page(ContextPage::About, true, ContextPage::About), (ContextPage::About, false));
    assert_eq!(ContextPage::default(), ContextPage::About);
}

#[test]
fn save_state_stays_consistent_over_a_session() {
    let (mut state, _) = AppState::init(data_with("2024-03-15"), may_day());
    let consistent = |s: &AppState| s.dirty == (s.save_countdown > 0) && s.save_countdown <= 3;
    assert!(consistent(&state));
    let events = vec![
        AppEvent::SaveTick,
        AppEvent::ScratchpadEdited("a".to_string()),
        AppEvent::SaveTick,
        AppEvent::NextMonth,
        AppEvent::DayNoteEdited("b".to_string()),
        AppEvent::SaveTick,
        AppEvent::SaveTick,
        AppEvent::PinClipboard("c".to_string()),
        AppEvent::PageSwitched,
        AppEvent::SaveTick,
        AppEvent::PrevMonth,
        AppEvent::ClearClipboardHistory,
        AppEvent::SaveTick,
        AppEvent::SaveTick,
        AppEvent::SaveTick,
        AppEvent::SaveTick,
    ];
    for event in events {
        state.update(event);
        assert!(consistent(&state));
    }
    assert!(!state.dirty);
}

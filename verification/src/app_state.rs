use vstd::prelude::*;
use crate::calendar::{
    date_string, date_text, month_after, month_before, next_month, parse_ym, prev_month,
    year_month_of, CalendarDate,
};
use crate::clipboard::{get_text, kept_clipboard_text, opt_view};
use crate::model::{clipboard_item_accepted, history_with, texts, without, AppData};

verus! {

/// How many save ticks of idle time pass before changed data is saved.
pub const SAVE_IDLE_TICKS: u8 = 3;

/// The pages of the window.
#[derive(Debug, Clone, Copy, PartialEq, Eq, Structural)]
pub enum Page {
    Dashboard,
    Calendar,
    Scratchpad,
    Clipboard,
}

/// The pages of the context drawer.
#[derive(Debug, Clone, Copy, PartialEq, Eq, Structural)]
pub enum ContextPage {
    About,
}

impl Default for ContextPage {
    fn default() -> (r: ContextPage)
        ensures
            r == ContextPage::About,
    {
        ContextPage::About
    }
}

/// The context drawer after `page` is asked for while `current` is its
/// page and `shown` tells whether it is open: asking for the open page
/// again toggles the drawer, asking for another page opens it on that page.
pub fn toggle_context_page(current: ContextPage, shown: bool, page: ContextPage) -> (r: (
    ContextPage,
    bool,
))
    ensures
        r == (if current == page {
            (current, !shown)
        } else {
            (page, true)
        }),
{
    if current == page {
        (current, !shown)
    } else {
        (page, true)
    }
}

/// The state behind the application window that decides what happens.
pub struct AppState {
    /// The data that is saved.
    pub data: AppData,
    /// The year the calendar shows.
    pub cal_year: i32,
    /// The month the calendar shows, 1 to 12.
    pub cal_month: u32,
    /// The last clipboard text seen, so that polling takes each text once.
    pub last_clipboard: Option<String>,
    /// Whether the data changed since it was last saved.
    pub dirty: bool,
    /// Save ticks left before the data is saved.
    pub save_countdown: u8,
}

/// Something that happened to the window.
pub enum AppEvent {
    /// Show the month before.
    PrevMonth,
    /// Show the month after.
    NextMonth,
    /// The day with this `YYYY-MM-DD` text was chosen.
    SelectDate(String),
    /// Go back to today, whose text is given.
    GoToToday(String),
    /// The scratchpad editor now holds this text.
    ScratchpadEdited(String),
    /// The note editor of the selected day now holds this text.
    DayNoteEdited(String),
    /// The note editor of today (first: today's text) now holds this text.
    TodayNoteEdited(String, String),
    /// The clipboard was polled; `None` when it could not be read.
    ClipboardPolled(Option<String>),
    /// Put this text back on the clipboard.
    RestoreClipboard(String),
    /// Pin this clipboard text.
    PinClipboard(String),
    /// Unpin this clipboard text.
    UnpinClipboard(String),
    /// Forget the clipboard history.
    ClearClipboardHistory,
    /// A save tick passed.
    SaveTick,
    /// Another page was chosen.
    PageSwitched,
}

/// What the window has to do after an event.
pub enum AppEffect {
    /// Load this text into the selected day's note editor.
    ShowDayNote(String),
    /// Write this text to the system clipboard.
    WriteClipboard(String),
    /// Save the data.
    Save,
}

/// The texts the editors start with.
pub struct EditorTexts {
    pub scratchpad: String,
    pub day_note: String,
    pub today_note: String,
}

/// The note text of `date`, empty when it has none.
pub open spec fn note_text(notes: Map<Seq<char>, Seq<char>>, date: Seq<char>) -> Seq<char> {
    if notes.contains_key(date) {
        notes[date]
    } else {
        Seq::empty()
    }
}

/// The notes after the editor of `date` holds `text`: an empty text drops the note.
pub open spec fn notes_after_edit(
    notes: Map<Seq<char>, Seq<char>>,
    date: Seq<char>,
    text: Seq<char>,
) -> Map<Seq<char>, Seq<char>> {
    if text.len() == 0 {
        notes.remove(date)
    } else {
        notes.insert(date, text)
    }
}

/// The calendar month shown after `date` is selected: its year and month
/// when it starts with them, else the month shown before.
pub open spec fn month_shown_for(date: Seq<char>, year: i32, month: u32) -> (i32, u32) {
    match year_month_of(date) {
        Some(ym) => ym,
        None => (year, month),
    }
}

/// One save tick: `(dirty, countdown)` goes to the returned pair, and the
/// third component tells whether the data is saved now.
pub open spec fn save_tick(dirty: bool, countdown: u8) -> (bool, u8, bool) {
    if dirty && countdown > 0 {
        if countdown - 1 == 0 {
            (false, 0, true)
        } else {
            (true, (countdown - 1) as u8, false)
        }
    } else {
        (dirty, countdown, false)
    }
}

impl AppState {
    /// The shown month is a month number.
    pub open spec fn wf(self) -> bool {
        1 <= self.cal_month <= 12
    }

    /// Whether an event can be handled: stepping the month must stay within
    /// the years that `i32` holds.
    pub open spec fn accepts(self, event: AppEvent) -> bool {
        match event {
            AppEvent::PrevMonth => !(self.cal_month == 1 && self.cal_year == i32::MIN),
            AppEvent::NextMonth => !(self.cal_month == 12 && self.cal_year == i32::MAX),
            _ => true,
        }
    }

    /// The data changed and the countdown to saving starts anew.
    pub open spec fn marked_dirty(self) -> bool {
        self.dirty && self.save_countdown == SAVE_IDLE_TICKS
    }

    /// The save state is as in `other`.
    pub open spec fn same_save_state(self, other: AppState) -> bool {
        self.dirty == other.dirty && self.save_countdown == other.save_countdown
    }

    /// The data other than the clipboard lists is as in `other`.
    pub open spec fn same_notes(self, other: AppState) -> bool {
        &&& self.data.selected_date == other.data.selected_date
        &&& self.data.scratchpad == other.data.scratchpad
        &&& self.data.day_notes == other.data.day_notes
    }

    /// The clipboard lists are as in `other`.
    pub open spec fn same_clipboard(self, other: AppState) -> bool {
        &&& self.data.clipboard_history == other.data.clipboard_history
        &&& self.data.pinned_clipboard == other.data.pinned_clipboard
        &&& self.last_clipboard == other.last_clipboard
    }

    /// The shown month is as in `other`.
    pub open spec fn same_month(self, other: AppState) -> bool {
        self.cal_year == other.cal_year && self.cal_month == other.cal_month
    }

    /// What handling `event` in state `pre` leads to: the state `post` and
    /// the effect `effect`.
    pub open spec fn handles(pre: AppState, event: AppEvent, post: AppState, effect: Option<AppEffect>) -> bool {
        match event {
            AppEvent::PrevMonth => {
                &&& (post.cal_year as int, post.cal_month as int) == month_before(
                    pre.cal_year as int,
                    pre.cal_month as int,
                )
                &&& post.same_notes(pre) && post.same_clipboard(pre) && post.same_save_state(pre)
                &&& effect is None
            },
            AppEvent::NextMonth => {
                &&& (post.cal_year as int, post.cal_month as int) == month_after(
                    pre.cal_year as int,
                    pre.cal_month as int,
                )
                &&& post.same_notes(pre) && post.same_clipboard(pre) && post.same_save_state(pre)
                &&& effect is None
            },
            AppEvent::SelectDate(date) | AppEvent::GoToToday(date) => {
                &&& (post.cal_year, post.cal_month) == month_shown_for(
                    date@,
                    pre.cal_year,
                    pre.cal_month,
                )
                &&& post.data.selected_date@ == date@
                &&& post.data.scratchpad == pre.data.scratchpad
                &&& post.data.day_notes == pre.data.day_notes
                &&& post.same_clipboard(pre)
                &&& post.marked_dirty()
                &&& effect matches Some(AppEffect::ShowDayNote(t)) && t@ == note_text(
                    pre.data.day_notes@,
                    date@,
                )
            },
            AppEvent::ScratchpadEdited(text) => {
                &&& post.data.scratchpad@ == text@
                &&& post.data.selected_date == pre.data.selected_date
                &&& post.data.day_notes == pre.data.day_notes
                &&& post.same_clipboard(pre) && post.same_month(pre)
                &&& post.marked_dirty()
                &&& effect is None
            },
            AppEvent::DayNoteEdited(text) => {
                &&& post.data.day_notes@ == notes_after_edit(
                    pre.data.day_notes@,
                    pre.data.selected_date@,
                    text@,
                )
                &&& post.data.selected_date == pre.data.selected_date
                &&& post.data.scratchpad == pre.data.scratchpad
                &&& post.same_clipboard(pre) && post.same_month(pre)
                &&& post.marked_dirty()
                &&& effect is None
            },
            AppEvent::TodayNoteEdited(today, text) => {
                &&& post.data.day_notes@ == notes_after_edit(pre.data.day_notes@, today@, text@)
                &&& post.data.selected_date == pre.data.selected_date
                &&& post.data.scratchpad == pre.data.scratchpad
                &&& post.same_clipboard(pre) && post.same_month(pre)
                &&& post.marked_dirty()
                &&& effect is None
            },
            AppEvent::ClipboardPolled(read) => {
                &&& post.same_notes(pre) && post.same_month(pre)
                &&& post.data.pinned_clipboard == pre.data.pinned_clipboard
                &&& effect is None
                &&& match kept_clipboard_text(opt_view(read)) {
                    Some(t) => if opt_view(pre.last_clipboard) == Some(t) {
                        post.same_clipboard(pre) && post.same_save_state(pre)
                    } else {
                        &&& opt_view(post.last_clipboard) == Some(t)
                        &&& if clipboard_item_accepted(texts(pre.data.clipboard_history@), t) {
                            &&& texts(post.data.clipboard_history@) == history_with(
                                texts(pre.data.clipboard_history@),
                                t,
                            )
                            &&& post.marked_dirty()
                        } else {
                            &&& post.data.clipboard_history == pre.data.clipboard_history
                            &&& post.same_save_state(pre)
                        }
                    },
                    None => post.same_clipboard(pre) && post.same_save_state(pre),
                }
            },
            AppEvent::RestoreClipboard(text) => {
                &&& post.same_notes(pre) && post.same_clipboard(pre) && post.same_month(pre)
                &&& post.same_save_state(pre)
                &&& effect matches Some(AppEffect::WriteClipboard(t)) && t@ == text@
            },
            AppEvent::PinClipboard(text) => {
                &&& texts(post.data.pinned_clipboard@) == (if texts(
                    pre.data.pinned_clipboard@,
                ).contains(text@) {
                    texts(pre.data.pinned_clipboard@)
                } else {
                    texts(pre.data.pinned_clipboard@).push(text@)
                })
                &&& post.data.clipboard_history == pre.data.clipboard_history
                &&& post.last_clipboard == pre.last_clipboard
                &&& post.same_notes(pre) && post.same_month(pre)
                &&& post.marked_dirty()
                &&& effect is None
            },
            AppEvent::UnpinClipboard(text) => {
                &&& texts(post.data.pinned_clipboard@) == without(
                    texts(pre.data.pinned_clipboard@),
                    text@,
                )
                &&& post.data.clipboard_history == pre.data.clipboard_history
                &&& post.last_clipboard == pre.last_clipboard
                &&& post.same_notes(pre) && post.same_month(pre)
                &&& post.marked_dirty()
                &&& effect is None
            },
            AppEvent::ClearClipboardHistory => {
                &&& post.data.clipboard_history@.len() == 0
                &&& post.last_clipboard is None
                &&& post.data.pinned_clipboard == pre.data.pinned_clipboard
                &&& post.same_notes(pre) && post.same_month(pre)
                &&& post.marked_dirty()
                &&& effect is None
            },
            AppEvent::SaveTick => {
                let (dirty, countdown, save) = save_tick(pre.dirty, pre.save_countdown);
                &&& post.dirty == dirty && post.save_countdown == countdown
                &&& post.same_notes(pre) && post.same_clipboard(pre) && post.same_month(pre)
                &&& if save {
                    effect matches Some(AppEffect::Save)
                } else {
                    effect is None
                }
            },
            AppEvent::PageSwitched => {
                &&& post.same_notes(pre) && post.same_clipboard(pre) && post.same_month(pre)
                &&& if pre.dirty {
                    &&& !post.dirty && post.save_countdown == 0
                    &&& effect matches Some(AppEffect::Save)
                } else {
                    post.same_save_state(pre) && effect is None
                }
            },
        }
    }
}

/// The save state after `k` save ticks with no other event.
pub open spec fn after_ticks(dirty: bool, countdown: u8, k: nat) -> (bool, u8)
    decreases k,
{
    if k == 0 {
        (dirty, countdown)
    } else {
        let (d, c, _) = save_tick(dirty, countdown);
        after_ticks(d, c, (k - 1) as nat)
    }
}

/// Whether the `k`-th of a row of save ticks (counting from 1) saves.
pub open spec fn saves_on_tick(dirty: bool, countdown: u8, k: nat) -> bool {
    k >= 1 && {
        let (d, c) = after_ticks(dirty, countdown, (k - 1) as nat);
        save_tick(d, c).2
    }
}

/// Saving waits for idle time: once the data changed and the countdown is
/// at `countdown`, save ticks with no other event save on the
/// `countdown`-th tick and on no other; with nothing changed they never save.
pub proof fn lemma_save_after_idle_ticks(countdown: u8, k: nat)
    requires
        countdown >= 1,
        k >= 1,
    ensures
        saves_on_tick(true, countdown, k) == (k == countdown),
        !saves_on_tick(false, countdown, k),
    decreases k,
{
    lemma_ticks_when_clean(countdown, (k - 1) as nat);
    if countdown == 1 {
        if k > 1 {
            lemma_ticks_when_clean(0, (k - 2) as nat);
            assert(after_ticks(true, 1, (k - 1) as nat) == after_ticks(false, 0, (k - 2) as nat));
        }
    } else {
        if k > 1 {
            lemma_save_after_idle_ticks((countdown - 1) as u8, (k - 1) as nat);
            assert(after_ticks(true, countdown, (k - 1) as nat) == after_ticks(
                true,
                (countdown - 1) as u8,
                (k - 2) as nat,
            ));
        }
    }
}

/// Ticks change nothing when there is nothing to save.
proof fn lemma_ticks_when_clean(countdown: u8, k: nat)
    ensures
        after_ticks(false, countdown, k) == (false, countdown),
    decreases k,
{
    if k > 0 {
        lemma_ticks_when_clean(countdown, (k - 1) as nat);
    }
}

/// The data is saved only when it changed since it was last saved, and a
/// save leaves nothing marked as changed.
pub proof fn lemma_save_only_when_dirty(pre: AppState, event: AppEvent, post: AppState, effect: Option<AppEffect>)
    requires
        AppState::handles(pre, event, post, effect),
        effect matches Some(AppEffect::Save),
    ensures
        pre.dirty,
        !post.dirty,
{
}

impl AppState {
    /// The data counts as changed exactly while a save countdown runs, and
    /// the countdown never exceeds `SAVE_IDLE_TICKS`.
    pub open spec fn save_state_consistent(self) -> bool {
        &&& self.dirty == (self.save_countdown > 0)
        &&& self.save_countdown <= SAVE_IDLE_TICKS
    }
}

/// Whatever the event, handling it keeps the save state consistent: the data
/// is marked as changed exactly while a countdown of at most
/// `SAVE_IDLE_TICKS` runs. (`init` starts from a consistent state, clean
/// with no countdown.)
pub proof fn lemma_save_state_stays_consistent(
    pre: AppState,
    event: AppEvent,
    post: AppState,
    effect: Option<AppEffect>,
)
    requires
        pre.save_state_consistent(),
        AppState::handles(pre, event, post, effect),
    ensures
        post.save_state_consistent(),
{
}

/// Editing a note reads back as written: after the selected day's note
/// editor or today's note editor holds `text`, that day's note is `text`, or
/// there is none when `text` is empty; every other day keeps its note.
pub proof fn lemma_note_edit_reads_back(
    pre: AppState,
    event: AppEvent,
    post: AppState,
    effect: Option<AppEffect>,
    other: Seq<char>,
)
    requires
        AppState::handles(pre, event, post, effect),
        event is DayNoteEdited || event is TodayNoteEdited,
    ensures
        ({
            let (date, text) = match event {
                AppEvent::TodayNoteEdited(today, text) => (today@, text@),
                AppEvent::DayNoteEdited(text) => (pre.data.selected_date@, text@),
                _ => (Seq::empty(), Seq::empty()),
            };
            &&& text.len() == 0 ==> !post.data.day_notes@.contains_key(date)
            &&& text.len() > 0 ==> post.data.day_notes@.contains_key(date)
                && post.data.day_notes@[date] == text
            &&& other != date ==> {
                &&& post.data.day_notes@.contains_key(other) == pre.data.day_notes@.contains_key(
                    other,
                )
                &&& pre.data.day_notes@.contains_key(other) ==> post.data.day_notes@[other]
                    == pre.data.day_notes@[other]
            }
        }),
{
}

fn note_or_empty(data: &AppData, date: &str) -> (r: String)
    ensures
        r@ == note_text(data.day_notes@, date@),
{
    match data.day_notes.get(date) {
        Some(t) => t.clone(),
        None => String::new(),
    }
}

impl AppState {
    fn mark_dirty(&mut self)
        ensures
            final(self).marked_dirty(),
            final(self).data == old(self).data,
            final(self).cal_year == old(self).cal_year,
            final(self).cal_month == old(self).cal_month,
            final(self).last_clipboard == old(self).last_clipboard,
    {
        self.dirty = true;
        self.save_countdown = SAVE_IDLE_TICKS;
    }

    /// The state at start-up from the stored data and today's date: the
    /// calendar shows the selected day's month, else today's; the editors
    /// hold the scratchpad, the selected day's note and today's note.
    pub fn init(data: AppData, today: CalendarDate) -> (r: (AppState, EditorTexts))
        requires
            today.is_valid(),
        ensures
            r.0.wf(),
            r.0.data == data,
            r.0.last_clipboard is None,
            !r.0.dirty && r.0.save_countdown == 0,
            ({
                let today_text = date_text(today.year as int, today.month as int, today.day as int);
                (r.0.cal_year, r.0.cal_month) == match year_month_of(data.selected_date@) {
                    Some(ym) => ym,
                    None => match year_month_of(today_text) {
                        Some(ym) => ym,
                        None => (today.year, today.month),
                    },
                }
            }),
            r.1.scratchpad@ == data.scratchpad@,
            r.1.day_note@ == note_text(data.day_notes@, data.selected_date@),
            r.1.today_note@ == note_text(
                data.day_notes@,
                date_text(today.year as int, today.month as int, today.day as int),
            ),
    {
        let today_text = date_string(today);
        let (cal_year, cal_month) = match parse_ym(data.selected_date.as_str()) {
            Some(ym) => ym,
            None => match parse_ym(today_text.as_str()) {
                Some(ym) => ym,
                None => (today.year, today.month),
            },
        };
        let texts = EditorTexts {
            scratchpad: data.scratchpad.clone(),
            day_note: note_or_empty(&data, data.selected_date.as_str()),
            today_note: note_or_empty(&data, today_text.as_str()),
        };
        let state = AppState {
            data,
            cal_year,
            cal_month,
            last_clipboard: None,
            dirty: false,
            save_countdown: 0,
        };
        (state, texts)
    }

    fn select_date(&mut self, date: String) -> (r: Option<AppEffect>)
        requires
            old(self).wf(),
        ensures
            final(self).wf(),
            (final(self).cal_year, final(self).cal_month) == month_shown_for(
                date@,
                old(self).cal_year,
                old(self).cal_month,
            ),
            final(self).data.selected_date@ == date@,
            final(self).data.scratchpad == old(self).data.scratchpad,
            final(self).data.day_notes == old(self).data.day_notes,
            final(self).same_clipboard(*old(self)),
            final(self).marked_dirty(),
            r matches Some(AppEffect::ShowDayNote(t)) && t@ == note_text(
                old(self).data.day_notes@,
                date@,
            ),
    {
        if let Some((y, m)) = parse_ym(date.as_str()) {
            self.cal_year = y;
            self.cal_month = m;
        }
        let text = note_or_empty(&self.data, date.as_str());
        self.data.selected_date = date;
        self.mark_dirty();
        Some(AppEffect::ShowDayNote(text))
    }

    /// Handles one event and tells what the window has to do.
    pub fn update(&mut self, event: AppEvent) -> (effect: Option<AppEffect>)
        requires
            old(self).wf(),
            old(self).accepts(event),
        ensures
            final(self).wf(),
            AppState::handles(*old(self), event, *final(self), effect),
    {
        match event {
            AppEvent::PrevMonth => {
                let (y, m) = prev_month(self.cal_year, self.cal_month);
                self.cal_year = y;
                self.cal_month = m;
                None
            },
            AppEvent::NextMonth => {
                let (y, m) = next_month(self.cal_year, self.cal_month);
                self.cal_year = y;
                self.cal_month = m;
                None
            },
            AppEvent::SelectDate(date) => self.select_date(date),
            AppEvent::GoToToday(today) => self.select_date(today),
            AppEvent::ScratchpadEdited(text) => {
                self.data.scratchpad = text;
                self.mark_dirty();
                None
            },
            AppEvent::DayNoteEdited(text) => {
                let date = self.data.selected_date.clone();
                self.data.set_day_note(date, text);
                self.mark_dirty();
                None
            },
            AppEvent::TodayNoteEdited(today, text) => {
                self.data.set_day_note(today, text);
                self.mark_dirty();
                None
            },
            AppEvent::ClipboardPolled(read) => {
                if let Some(text) = get_text(read) {
                    let seen = match &self.last_clipboard {
                        Some(last) => *last == text,
                        None => false,
                    };
                    if !seen {
                        self.last_clipboard = Some(text.clone());
                        if self.data.push_clipboard(text) {
                            self.mark_dirty();
                        }
                    }
                }
                None
            },
            AppEvent::RestoreClipboard(text) => Some(AppEffect::WriteClipboard(text)),
            AppEvent::PinClipboard(text) => {
                self.data.pin_clipboard(text);
                self.mark_dirty();
                None
            },
            AppEvent::UnpinClipboard(text) => {
                self.data.unpin_clipboard(text.as_str());
                self.mark_dirty();
                None
            },
            AppEvent::ClearClipboardHistory => {
                self.data.clear_clipboard_history();
                self.last_clipboard = None;
                self.mark_dirty();
                None
            },
            AppEvent::SaveTick => {
                if self.dirty && self.save_countdown > 0 {
                    self.save_countdown = self.save_countdown - 1;
                    if self.save_countdown == 0 {
                        self.dirty = false;
                        return Some(AppEffect::Save);
                    }
                }
                None
            },
            AppEvent::PageSwitched => {
                if self.dirty {
                    self.dirty = false;
                    self.save_countdown = 0;
                    Some(AppEffect::Save)
                } else {
                    None
                }
            },
        }
    }
}

} // verus!

use vstd::prelude::*;
use crate::calendar::{
    date_exists, date_string, date_text, days_in_month, days_in_month_count, month_name,
    month_name_text, month_start_weekday, weekday_from_monday, CalendarDate,
};
use crate::model::{texts, AppData};
use crate::text::{decimal, decimal_string, signed_decimal, signed_decimal_string};

verus! {

/// One day in the month grid.
pub struct DayCell {
    /// The day, as `YYYY-MM-DD`.
    pub date: String,
    /// The day of the month, with `·` after it when the day has a note.
    pub label: String,
    /// Whether the day is today.
    pub is_today: bool,
    /// Whether the day is the selected one.
    pub is_selected: bool,
}

/// The weekday column (Monday = 0) of the first day of the month; 0 when
/// the month does not exist.
pub open spec fn leading_blanks(y: int, m: int) -> int {
    if date_exists(y, m, 1) {
        weekday_from_monday(y, m, 1)
    } else {
        0
    }
}

/// The number of cells of the month grid: whole weeks covering the blanks
/// before the first day and all days; none for a month without days.
pub open spec fn grid_len(y: int, m: int) -> int {
    let n = days_in_month_count(y, m);
    if n == 0 {
        0
    } else {
        ((leading_blanks(y, m) + n + 6) / 7) * 7
    }
}

/// Whether `data` holds a note with text for `date`.
pub open spec fn has_note_text(data: AppData, date: Seq<char>) -> bool {
    data.day_notes@.contains_key(date) && data.day_notes@[date].len() > 0
}

/// What cell `k` of the grid of month `m` of year `y` shows.
pub open spec fn cell_shows(data: AppData, y: int, m: int, today: Seq<char>, k: int, cell: Option<DayCell>) -> bool {
    let lead = leading_blanks(y, m);
    let n = days_in_month_count(y, m);
    if lead <= k < lead + n {
        let day = k - lead + 1;
        let date = date_text(y, m, day);
        &&& cell is Some
        &&& cell->0.date@ == date
        &&& cell->0.label@ == decimal(day as nat) + (if has_note_text(data, date) {
            seq!['·']
        } else {
            Seq::<char>::empty()
        })
        &&& cell->0.is_today == (date == today)
        &&& cell->0.is_selected == (date == data.selected_date@)
    } else {
        cell is None
    }
}

/// The cells of the month grid, week by week from Monday: blanks before the
/// first day, then each day, then blanks to the end of the last week.
pub fn month_cells(data: &AppData, year: i32, month: u32, today: &str) -> (r: Vec<Option<DayCell>>)
    ensures
        r@.len() == grid_len(year as int, month as int),
        forall|k: int|
            0 <= k < r@.len() ==> cell_shows(*data, year as int, month as int, today@, k, #[trigger] r@[k]),
{
    let days = days_in_month(year, month);
    let n = days.len();
    if n == 0 {
        return Vec::new();
    }
    let lead = month_start_weekday(year, month);
    let total: usize = ((lead + n + 6) / 7) * 7;
    assert(total >= lead + n);
    let today_text = String::from_str(today);
    let mut cells: Vec<Option<DayCell>> = Vec::new();
    let mut k: usize = 0;
    while k < total
        invariant
            n == days@.len() == days_in_month_count(year as int, month as int),
            n > 0,
            lead == leading_blanks(year as int, month as int),
            lead < 7,
            total == grid_len(year as int, month as int),
            total >= lead + n,
            n <= 31,
            k <= total,
            today_text@ == today@,
            cells@.len() == k,
            forall|i: int|
                0 <= i < days@.len() ==> #[trigger] days@[i] == (CalendarDate {
                    year,
                    month,
                    day: (i + 1) as u32,
                }),
            forall|j: int|
                0 <= j < k ==> cell_shows(*data, year as int, month as int, today@, j, #[trigger] cells@[j]),
        decreases total - k,
    {
        let ghost before = cells@;
        if k < lead || k >= lead + n {
            cells.push(None);
        } else {
            let d = days[k - lead];
            let date = date_string(d);
            let mut label = decimal_string(d.day);
            if data.has_day_note(date.as_str()) {
                label.append("·");
                proof {
                    reveal_strlit("·");
                }
            }
            let is_today = date == today_text;
            let is_selected = date == data.selected_date;
            let ghost day = k - lead + 1;
            assert(d.day == day);
            assert(date@ == date_text(year as int, month as int, day));
            assert(label@ == decimal(day as nat) + (if has_note_text(*data, date@) {
                seq!['·']
            } else {
                Seq::<char>::empty()
            }));
            let cell = Some(DayCell { date, label, is_today, is_selected });
            assert(cell_shows(*data, year as int, month as int, today@, k as int, cell));
            cells.push(cell);
        }
        proof {
            assert forall|j: int| 0 <= j < k + 1 implies cell_shows(
                *data,
                year as int,
                month as int,
                today@,
                j,
                #[trigger] cells@[j],
            ) by {
                if j < k {
                    assert(cells@[j] == before[j]);
                }
            }
        }
        k = k + 1;
    }
    cells
}


/// The heading of a month: its name and the year.
pub fn month_label(year: i32, month: u32) -> (r: String)
    ensures
        r@ == month_name_text(month) + seq![' '] + signed_decimal(year as int),
{
    let mut s = String::from_str(month_name(month));
    s.append(" ");
    proof {
        reveal_strlit(" ");
    }
    s.append(signed_decimal_string(year).as_str());
    s
}

/// The heading of the selected day's note, which says so when it is today.
pub fn note_label(selected: &str, today: &str) -> (r: String)
    ensures
        r@ == "Note — "@ + selected@ + (if selected@ == today@ {
            " · Today"@
        } else {
            Seq::<char>::empty()
        }),
{
    let mut s = String::from_str("Note — ");
    s.append(selected);
    if String::from_str(selected) == String::from_str(today) {
        s.append(" · Today");
    }
    s
}

/// The mark after the scratchpad's title: a warning when saving failed,
/// a dot while there are unsaved changes.
pub fn scratchpad_status(dirty: bool, save_error: bool) -> (r: &'static str)
    ensures
        r@ == (if save_error {
            " ⚠ save failed"@
        } else if dirty {
            " ●"@
        } else {
            ""@
        }),
{
    if save_error {
        " ⚠ save failed"
    } else if dirty {
        " ●"
    } else {
        ""
    }
}

/// The entries of `h` that are not among `pinned`, in order.
pub open spec fn unpinned(h: Seq<Seq<char>>, pinned: Seq<Seq<char>>) -> Seq<Seq<char>>
    decreases h.len(),
{
    if h.len() == 0 {
        h
    } else if pinned.contains(h.last()) {
        unpinned(h.drop_last(), pinned)
    } else {
        unpinned(h.drop_last(), pinned).push(h.last())
    }
}

/// The first `n` entries of `s`, or all of them when there are fewer.
pub open spec fn first_n(s: Seq<Seq<char>>, n: int) -> Seq<Seq<char>> {
    if s.len() <= n {
        s
    } else {
        s.take(n)
    }
}

/// The unpinned entries of a prefix of the history start the unpinned
/// entries of a longer prefix.
proof fn lemma_unpinned_prefix(h: Seq<Seq<char>>, pinned: Seq<Seq<char>>, i: int, j: int)
    requires
        0 <= i <= j <= h.len(),
    ensures
        unpinned(h.take(i), pinned).len() <= unpinned(h.take(j), pinned).len(),
        unpinned(h.take(j), pinned).take(unpinned(h.take(i), pinned).len() as int) == unpinned(
            h.take(i),
            pinned,
        ),
    decreases j - i,
{
    if i < j {
        lemma_unpinned_prefix(h, pinned, i, j - 1);
        assert(h.take(j).drop_last() =~= h.take(j - 1));
        let a = unpinned(h.take(i), pinned);
        let b = unpinned(h.take(j - 1), pinned);
        assert(b.push(h.take(j).last()).take(a.len() as int) =~= b.take(a.len() as int));
    }
}

fn is_pinned(pinned: &Vec<String>, item: &String) -> (r: bool)
    ensures
        r == texts(pinned@).contains(item@),
{
    let mut i: usize = 0;
    while i < pinned.len()
        invariant
            i <= pinned@.len(),
            forall|j: int| 0 <= j < i ==> #[trigger] pinned@[j]@ != item@,
        decreases pinned@.len() - i,
    {
        if pinned[i] == *item {
            assert(texts(pinned@)[i as int] == item@);
            return true;
        }
        i = i + 1;
    }
    proof {
        if texts(pinned@).contains(item@) {
            let j = choose|j: int| 0 <= j < texts(pinned@).len() && texts(pinned@)[j] == item@;
            assert(pinned@[j]@ == item@);
        }
    }
    false
}

/// What the dashboard lists of the clipboard: the first three pinned
/// entries, and the first three recent entries that are not pinned.
pub fn dashboard_clips(data: &AppData) -> (r: (Vec<String>, Vec<String>))
    ensures
        texts(r.0@) == first_n(texts(data.pinned_clipboard@), 3),
        texts(r.1@) == first_n(
            unpinned(texts(data.clipboard_history@), texts(data.pinned_clipboard@)),
            3,
        ),
{
    let ghost p = texts(data.pinned_clipboard@);
    let ghost h = texts(data.clipboard_history@);
    let mut pinned: Vec<String> = Vec::new();
    let mut i: usize = 0;
    while i < data.pinned_clipboard.len() && i < 3
        invariant
            i <= data.pinned_clipboard@.len(),
            i <= 3,
            p == texts(data.pinned_clipboard@),
            texts(pinned@) == p.take(i as int),
        decreases 3 - i,
    {
        let ghost before = pinned@;
        pinned.push(data.pinned_clipboard[i].clone());
        assert(texts(pinned@) =~= texts(before).push(data.pinned_clipboard@[i as int]@));
        assert(p[i as int] == data.pinned_clipboard@[i as int]@);
        assert(texts(pinned@) =~= p.take(i + 1));
        i = i + 1;
    }
    proof {
        if p.len() <= 3 {
            assert(p.take(i as int) =~= p);
        }
    }
    let mut recent: Vec<String> = Vec::new();
    let mut j: usize = 0;
    assert(h.take(0) =~= Seq::<Seq<char>>::empty());
    while j < data.clipboard_history.len() && recent.len() < 3
        invariant
            j <= data.clipboard_history@.len(),
            recent@.len() <= 3,
            h == texts(data.clipboard_history@),
            p == texts(data.pinned_clipboard@),
            texts(recent@) == unpinned(h.take(j as int), p),
        decreases data.clipboard_history@.len() - j,
    {
        let item = &data.clipboard_history[j];
        assert(h.take(j + 1).drop_last() =~= h.take(j as int));
        assert(h.take(j + 1).last() == item@);
        if !is_pinned(&data.pinned_clipboard, item) {
            let ghost before = recent@;
            recent.push(item.clone());
            assert(texts(recent@) =~= texts(before).push(item@));
        }
        j = j + 1;
    }
    proof {
        lemma_unpinned_prefix(h, p, j as int, h.len() as int);
        assert(h.take(h.len() as int) =~= h);
        if j == h.len() {
            assert(h.take(j as int) =~= h);
        }
    }
    (pinned, recent)
}

} // verus!

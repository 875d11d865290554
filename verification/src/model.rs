use std::collections::VecDeque;
use vstd::prelude::*;
use crate::calendar::{date_string, date_text, CalendarDate};
use crate::text::{
    all_white_space, is_blank, is_text_before, lemma_text_before_order, text_before, utf8_len,
    utf8_len_exceeds,
};

verus! {

/// The note kept for one day.
#[derive(Debug)]
pub struct DayNote {
    /// The day, as `YYYY-MM-DD`.
    pub date: String,
    /// The note's text.
    pub text: String,
}

/// The notes of all days, at most one per date.
pub struct DayNotes {
    entries: Vec<DayNote>,
}

/// The map from dates to texts that a list of notes gives when they are
/// entered one after another, a later note for a date replacing an earlier one.
pub open spec fn notes_map(notes: Seq<DayNote>) -> Map<Seq<char>, Seq<char>>
    decreases notes.len(),
{
    if notes.len() == 0 {
        Map::empty()
    } else {
        notes_map(notes.drop_last()).insert(notes.last().date@, notes.last().text@)
    }
}

/// Whether no two notes of the list share a date.
pub open spec fn dates_distinct(notes: Seq<DayNote>) -> bool {
    forall|i: int, j: int|
        0 <= i < notes.len() && 0 <= j < notes.len() && i != j ==> #[trigger] notes[i].date@
            != #[trigger] notes[j].date@
}

/// Whether the dates of the list rise strictly, in the order of `String`.
pub open spec fn dates_sorted(notes: Seq<DayNote>) -> bool {
    forall|i: int, j: int|
        0 <= i < j < notes.len() ==> text_before(#[trigger] notes[i].date@, #[trigger] notes[j].date@)
}

/// Dates in rising order are distinct.
proof fn lemma_sorted_distinct(s: Seq<DayNote>)
    requires
        dates_sorted(s),
    ensures
        dates_distinct(s),
{
    assert forall|i: int, j: int|
        0 <= i < s.len() && 0 <= j < s.len() && i != j implies #[trigger] s[i].date@
        != #[trigger] s[j].date@ by {
        lemma_text_before_order(s[i].date@, s[j].date@, s[j].date@);
        lemma_text_before_order(s[j].date@, s[i].date@, s[i].date@);
    }
}

impl DayNotes {
    #[verifier::type_invariant]
    spec fn dates_in_order(self) -> bool {
        dates_sorted(self.entries@)
    }

    /// The texts of the notes, by date.
    pub closed spec fn notes(self) -> Map<Seq<char>, Seq<char>> {
        notes_map(self.entries@)
    }
}

impl View for DayNotes {
    type V = Map<Seq<char>, Seq<char>>;

    open spec fn view(&self) -> Map<Seq<char>, Seq<char>> {
        self.notes()
    }
}

/// For a list whose dates are distinct, `notes_map` holds each note's text
/// under its date and no other date.
proof fn lemma_distinct_map(s: Seq<DayNote>)
    requires
        dates_distinct(s),
    ensures
        forall|i: int|
            0 <= i < s.len() ==> #[trigger] notes_map(s).contains_key(s[i].date@)
                && notes_map(s)[s[i].date@] == s[i].text@,
        forall|d: Seq<char>|
            #[trigger] notes_map(s).contains_key(d) ==> exists|i: int|
                0 <= i < s.len() && #[trigger] s[i].date@ == d,
    decreases s.len(),
{
    if s.len() > 0 {
        let p = s.drop_last();
        assert forall|i: int, j: int|
            0 <= i < p.len() && 0 <= j < p.len() && i != j implies #[trigger] p[i].date@
            != #[trigger] p[j].date@ by {
            assert(p[i] == s[i] && p[j] == s[j]);
        }
        lemma_distinct_map(p);
        assert forall|i: int| 0 <= i < s.len() implies #[trigger] notes_map(s).contains_key(
            s[i].date@,
        ) && notes_map(s)[s[i].date@] == s[i].text@ by {
            assert(notes_map(s) == notes_map(p).insert(s.last().date@, s.last().text@));
            if i < s.len() - 1 {
                assert(s[i] == p[i]);
                assert(s[i].date@ != s[s.len() - 1].date@);
                assert(notes_map(p).contains_key(p[i].date@));
            }
        }
        assert forall|d: Seq<char>| #[trigger] notes_map(s).contains_key(d) implies exists|i: int|
            0 <= i < s.len() && #[trigger] s[i].date@ == d by {
            if d != s.last().date@ {
                assert(notes_map(p).contains_key(d));
                let i = choose|i: int| 0 <= i < p.len() && #[trigger] p[i].date@ == d;
                assert(s[i] == p[i]);
            } else {
                assert(s[s.len() - 1].date@ == d);
            }
        }
    }
}


/// Replacing the text of a note keeps the dates distinct and updates the map.
proof fn lemma_update_text(s: Seq<DayNote>, i: int, n: DayNote)
    requires
        dates_distinct(s),
        0 <= i < s.len(),
        n.date@ == s[i].date@,
    ensures
        dates_distinct(s.update(i, n)),
        notes_map(s.update(i, n)) == notes_map(s).insert(n.date@, n.text@),
{
    let t = s.update(i, n);
    assert forall|a: int, b: int|
        0 <= a < t.len() && 0 <= b < t.len() && a != b implies #[trigger] t[a].date@
        != #[trigger] t[b].date@ by {
        assert(t[a].date@ == s[a].date@ && t[b].date@ == s[b].date@);
    }
    lemma_distinct_map(s);
    lemma_distinct_map(t);
    let m = notes_map(s).insert(n.date@, n.text@);
    assert forall|d: Seq<char>| #[trigger] notes_map(t).contains_key(d) <==> m.contains_key(d) by {
        if notes_map(t).contains_key(d) {
            let j = choose|j: int| 0 <= j < t.len() && #[trigger] t[j].date@ == d;
            assert(s[j].date@ == d);
            assert(notes_map(s).contains_key(s[j].date@));
        }
        if m.contains_key(d) {
            if d == n.date@ {
                assert(t[i].date@ == d);
                assert(notes_map(t).contains_key(t[i].date@));
            } else {
                let j = choose|j: int| 0 <= j < s.len() && #[trigger] s[j].date@ == d;
                assert(t[j].date@ == d);
                assert(notes_map(t).contains_key(t[j].date@));
            }
        }
    }
    assert forall|d: Seq<char>| #[trigger] notes_map(t).contains_key(d) implies notes_map(t)[d]
        == m[d] by {
        let j = choose|j: int| 0 <= j < t.len() && #[trigger] t[j].date@ == d;
        assert(notes_map(t)[t[j].date@] == t[j].text@);
        if j != i {
            assert(t[j] == s[j]);
            assert(notes_map(s)[s[j].date@] == s[j].text@);
        }
    }
    assert(notes_map(t) =~= m);
}

/// Adding a note for a new date keeps the dates distinct and extends the map.
proof fn lemma_insert_new(s: Seq<DayNote>, p: int, n: DayNote)
    requires
        dates_distinct(s),
        0 <= p <= s.len(),
        !notes_map(s).contains_key(n.date@),
    ensures
        dates_distinct(s.insert(p, n)),
        notes_map(s.insert(p, n)) == notes_map(s).insert(n.date@, n.text@),
{
    let t = s.insert(p, n);
    lemma_distinct_map(s);
    assert forall|a: int, b: int|
        0 <= a < t.len() && 0 <= b < t.len() && a != b implies #[trigger] t[a].date@
        != #[trigger] t[b].date@ by {
        let a2 = if a < p { a } else { a - 1 };
        let b2 = if b < p { b } else { b - 1 };
        if a != p && b != p {
            assert(t[a] == s[a2] && t[b] == s[b2]);
        } else if a == p {
            assert(t[b] == s[b2]);
            assert(notes_map(s).contains_key(s[b2].date@));
        } else {
            assert(t[a] == s[a2]);
            assert(notes_map(s).contains_key(s[a2].date@));
        }
    }
    lemma_distinct_map(t);
    let m = notes_map(s).insert(n.date@, n.text@);
    assert forall|d: Seq<char>| #[trigger] notes_map(t).contains_key(d) <==> m.contains_key(d) by {
        if notes_map(t).contains_key(d) {
            let j = choose|j: int| 0 <= j < t.len() && #[trigger] t[j].date@ == d;
            if j != p {
                let j2 = if j < p { j } else { j - 1 };
                assert(t[j] == s[j2]);
                assert(notes_map(s).contains_key(s[j2].date@));
            }
        }
        if m.contains_key(d) {
            if d == n.date@ {
                assert(t[p].date@ == d);
                assert(notes_map(t).contains_key(t[p].date@));
            } else {
                let j = choose|j: int| 0 <= j < s.len() && #[trigger] s[j].date@ == d;
                let j1 = if j < p { j } else { j + 1 };
                assert(t[j1] == s[j]);
                assert(notes_map(t).contains_key(t[j1].date@));
            }
        }
    }
    assert forall|d: Seq<char>| #[trigger] notes_map(t).contains_key(d) implies notes_map(t)[d]
        == m[d] by {
        let j = choose|j: int| 0 <= j < t.len() && #[trigger] t[j].date@ == d;
        assert(notes_map(t)[t[j].date@] == t[j].text@);
        if j != p {
            let j2 = if j < p { j } else { j - 1 };
            assert(t[j] == s[j2]);
            assert(notes_map(s)[s[j2].date@] == s[j2].text@);
        }
    }
    assert(notes_map(t) =~= m);
}

/// Taking out the note at `i` keeps the dates distinct and removes its date.
proof fn lemma_remove_at(s: Seq<DayNote>, i: int)
    requires
        dates_distinct(s),
        0 <= i < s.len(),
    ensures
        dates_distinct(s.remove(i)),
        notes_map(s.remove(i)) == notes_map(s).remove(s[i].date@),
{
    let t = s.remove(i);
    let k = s[i].date@;
    assert forall|a: int, b: int|
        0 <= a < t.len() && 0 <= b < t.len() && a != b implies #[trigger] t[a].date@
        != #[trigger] t[b].date@ by {
        let a2 = if a < i { a } else { a + 1 };
        let b2 = if b < i { b } else { b + 1 };
        assert(t[a] == s[a2] && t[b] == s[b2]);
    }
    lemma_distinct_map(s);
    lemma_distinct_map(t);
    let m = notes_map(s).remove(k);
    assert forall|d: Seq<char>| #[trigger] notes_map(t).contains_key(d) <==> m.contains_key(d) by {
        if notes_map(t).contains_key(d) {
            let j = choose|j: int| 0 <= j < t.len() && #[trigger] t[j].date@ == d;
            let j2 = if j < i { j } else { j + 1 };
            assert(t[j] == s[j2]);
            assert(notes_map(s).contains_key(s[j2].date@));
        }
        if m.contains_key(d) {
            let j = choose|j: int| 0 <= j < s.len() && #[trigger] s[j].date@ == d;
            let j1 = if j < i { j } else { j - 1 };
            assert(t[j1] == s[j]);
            assert(notes_map(t).contains_key(t[j1].date@));
        }
    }
    assert forall|d: Seq<char>| #[trigger] notes_map(t).contains_key(d) implies notes_map(t)[d]
        == m[d] by {
        let j = choose|j: int| 0 <= j < t.len() && #[trigger] t[j].date@ == d;
        let j2 = if j < i { j } else { j + 1 };
        assert(t[j] == s[j2]);
        assert(notes_map(t)[t[j].date@] == t[j].text@);
        assert(notes_map(s)[s[j2].date@] == s[j2].text@);
    }
    assert(notes_map(t) =~= m);
}

/// Two lists with the same dates and texts, position by position, give the same map.
proof fn lemma_same_views(a: Seq<DayNote>, b: Seq<DayNote>)
    requires
        a.len() == b.len(),
        forall|i: int| 0 <= i < a.len() ==> #[trigger] a[i].date@ == b[i].date@ && a[i].text@ == b[i].text@,
    ensures
        notes_map(a) == notes_map(b),
        dates_distinct(a) ==> dates_distinct(b),
        dates_sorted(a) ==> dates_sorted(b),
    decreases a.len(),
{
    if a.len() > 0 {
        lemma_same_views(a.drop_last(), b.drop_last());
        assert(a.last().date@ == b.last().date@);
    }
    if dates_distinct(a) {
        assert forall|i: int, j: int|
            0 <= i < b.len() && 0 <= j < b.len() && i != j implies #[trigger] b[i].date@
            != #[trigger] b[j].date@ by {
            assert(a[i].date@ == b[i].date@ && a[j].date@ == b[j].date@);
        }
    }
    if dates_sorted(a) {
        assert forall|i: int, j: int| 0 <= i < j < b.len() implies text_before(
            #[trigger] b[i].date@,
            #[trigger] b[j].date@,
        ) by {
            assert(a[i].date@ == b[i].date@ && a[j].date@ == b[j].date@);
        }
    }
}

impl DayNotes {
    /// No notes at all.
    pub fn new() -> (r: Self)
        ensures
            r@ == Map::<Seq<char>, Seq<char>>::empty(),
    {
        let r = DayNotes { entries: Vec::new() };
        assert(r@ =~= Map::<Seq<char>, Seq<char>>::empty());
        r
    }

    fn position(&self, date: &str) -> (r: Option<usize>)
        ensures
            r matches Some(i) ==> i < self.entries@.len() && self.entries@[i as int].date@
                == date@,
            r is None ==> forall|i: int|
                0 <= i < self.entries@.len() ==> #[trigger] self.entries@[i].date@ != date@,
    {
        let key = String::from_str(date);
        let mut i: usize = 0;
        while i < self.entries.len()
            invariant
                key@ == date@,
                i <= self.entries@.len(),
                forall|j: int| 0 <= j < i ==> #[trigger] self.entries@[j].date@ != date@,
            decreases self.entries@.len() - i,
        {
            if self.entries[i].date == key {
                return Some(i);
            }
            i = i + 1;
        }
        None
    }

    /// The note for `date`, if there is one.
    pub fn get(&self, date: &str) -> (r: Option<&String>)
        ensures
            r matches Some(t) ==> self@.contains_key(date@) && t@ == self@[date@],
            r is None ==> !self@.contains_key(date@),
    {
        proof {
            use_type_invariant(self);
            lemma_sorted_distinct(self.entries@);
            lemma_distinct_map(self.entries@);
        }
        match self.position(date) {
            Some(i) => {
                proof {
                    assert(notes_map(self.entries@).contains_key(self.entries@[i as int].date@));
                }
                Some(&self.entries[i].text)
            },
            None => None,
        }
    }

    /// Sets the note for `date` to `text`, replacing any earlier one.
    pub fn insert(&mut self, date: String, text: String)
        ensures
            final(self)@ == old(self)@.insert(date@, text@),
    {
        proof {
            use_type_invariant(&*self);
            lemma_sorted_distinct(self.entries@);
            lemma_distinct_map(self.entries@);
        }
        let mut p: usize = 0;
        while p < self.entries.len() && is_text_before(self.entries[p].date.as_str(), date.as_str())
            invariant
                p <= self.entries@.len(),
                forall|i: int| 0 <= i < p ==> text_before(#[trigger] self.entries@[i].date@, date@),
            decreases self.entries@.len() - p,
        {
            p = p + 1;
        }
        let found = p < self.entries.len() && self.entries[p].date == date;
        let mut entries: Vec<DayNote> = Vec::new();
        std::mem::swap(&mut entries, &mut self.entries);
        let ghost s = entries@;
        let ghost k = date@;
        let note = DayNote { date, text };
        if found {
            proof {
                lemma_update_text(s, p as int, note);
                let t = s.update(p as int, note);
                assert forall|i: int, j: int| 0 <= i < j < t.len() implies text_before(
                    #[trigger] t[i].date@,
                    #[trigger] t[j].date@,
                ) by {
                    assert(t[i].date@ == s[i].date@ && t[j].date@ == s[j].date@);
                }
            }
            entries.set(p, note);
        } else {
            proof {
                assert forall|j: int| p <= j < s.len() implies text_before(k, #[trigger] s[j].date@) by {
                    lemma_text_before_order(s[p as int].date@, k, k);
                    lemma_text_before_order(k, s[p as int].date@, s[j].date@);
                }
                assert(!notes_map(s).contains_key(k)) by {
                    if notes_map(s).contains_key(k) {
                        let j = choose|j: int| 0 <= j < s.len() && #[trigger] s[j].date@ == k;
                        lemma_text_before_order(k, k, k);
                    }
                }
                lemma_insert_new(s, p as int, note);
                let t = s.insert(p as int, note);
                assert forall|i: int, j: int| 0 <= i < j < t.len() implies text_before(
                    #[trigger] t[i].date@,
                    #[trigger] t[j].date@,
                ) by {
                    if j < p {
                        assert(t[i] == s[i] && t[j] == s[j]);
                    } else if j == p {
                        assert(t[i] == s[i]);
                    } else if i == p {
                        assert(t[j] == s[j - 1]);
                    } else if i < p {
                        assert(t[i] == s[i] && t[j] == s[j - 1]);
                    } else {
                        assert(t[i] == s[i - 1] && t[j] == s[j - 1]);
                    }
                }
            }
            entries.insert(p, note);
        }
        self.entries = entries;
    }

    /// The notes as a list, one per date, in the order of the dates.
    pub fn to_list(&self) -> (r: Vec<DayNote>)
        ensures
            dates_sorted(r@),
            dates_distinct(r@),
            notes_map(r@) == self@,
    {
        proof {
            use_type_invariant(self);
            lemma_sorted_distinct(self.entries@);
        }
        let mut r: Vec<DayNote> = Vec::new();
        let mut i: usize = 0;
        while i < self.entries.len()
            invariant
                i <= self.entries@.len(),
                r@.len() == i,
                forall|j: int|
                    0 <= j < i ==> #[trigger] r@[j].date@ == self.entries@[j].date@ && r@[j].text@
                        == self.entries@[j].text@,
            decreases self.entries@.len() - i,
        {
            let e = &self.entries[i];
            r.push(DayNote { date: e.date.clone(), text: e.text.clone() });
            i = i + 1;
        }
        proof {
            assert forall|i: int| 0 <= i < self.entries@.len() implies #[trigger] self.entries@[i].date@
                == r@[i].date@ && self.entries@[i].text@ == r@[i].text@ by {
                assert(r@[i].date@ == self.entries@[i].date@);
            }
            lemma_same_views(self.entries@, r@);
        }
        r
    }

    /// The notes of a list entered in order, a later note for a date
    /// replacing an earlier one.
    pub fn from_list(notes: &Vec<DayNote>) -> (r: Self)
        ensures
            r@ == notes_map(notes@),
    {
        let mut r = DayNotes::new();
        let mut i: usize = 0;
        while i < notes.len()
            invariant
                i <= notes@.len(),
                r@ == notes_map(notes@.take(i as int)),
            decreases notes@.len() - i,
        {
            let e = &notes[i];
            r.insert(e.date.clone(), e.text.clone());
            proof {
                assert(notes@.take(i + 1).drop_last() =~= notes@.take(i as int));
            }
            i = i + 1;
        }
        proof {
            assert(notes@.take(notes@.len() as int) =~= notes@);
        }
        r
    }

    /// Drops the note for `date`, if there is one.
    pub fn remove(&mut self, date: &str)
        ensures
            final(self)@ == old(self)@.remove(date@),
    {
        proof {
            use_type_invariant(&*self);
            lemma_sorted_distinct(self.entries@);
            lemma_distinct_map(self.entries@);
        }
        match self.position(date) {
            Some(i) => {
                let mut entries: Vec<DayNote> = Vec::new();
                std::mem::swap(&mut entries, &mut self.entries);
                proof {
                    lemma_remove_at(entries@, i as int);
                    let s = entries@;
                    let t = s.remove(i as int);
                    assert forall|a: int, b: int| 0 <= a < b < t.len() implies text_before(
                        #[trigger] t[a].date@,
                        #[trigger] t[b].date@,
                    ) by {
                        let a2 = if a < i { a } else { a + 1 };
                        let b2 = if b < i { b } else { b + 1 };
                        assert(t[a] == s[a2] && t[b] == s[b2]);
                    }
                }
                entries.remove(i);
                self.entries = entries;
            },
            None => {
                proof {
                    if self@.contains_key(date@) {
                        let j = choose|j: int|
                            0 <= j < self.entries@.len() && #[trigger] self.entries@[j].date@ == date@;
                    }
                    assert(self@.remove(date@) =~= self@);
                }
            },
        }
    }
}


/// How many entries the clipboard history keeps.
pub const MAX_CLIPBOARD_HISTORY: usize = 20;

/// Clipboard entries larger than this many bytes of UTF-8 are ignored.
pub const MAX_CLIPBOARD_BYTES: usize = 20480;

/// The texts of a sequence of strings.
pub open spec fn texts(s: Seq<String>) -> Seq<Seq<char>> {
    s.map_values(|x: String| x@)
}

/// `s` with every occurrence of `x` taken out, the rest in order.
pub open spec fn without(s: Seq<Seq<char>>, x: Seq<char>) -> Seq<Seq<char>>
    decreases s.len(),
{
    if s.len() == 0 {
        s
    } else if s.last() == x {
        without(s.drop_last(), x)
    } else {
        without(s.drop_last(), x).push(s.last())
    }
}

/// Whether `push_clipboard` takes `item` into a history that starts with `history`:
/// it is at most `MAX_CLIPBOARD_BYTES` long in UTF-8, not blank, and not
/// already the newest entry.
pub open spec fn clipboard_item_accepted(history: Seq<Seq<char>>, item: Seq<char>) -> bool {
    &&& utf8_len(item) <= MAX_CLIPBOARD_BYTES
    &&& !all_white_space(item)
    &&& !(history.len() > 0 && history[0] == item)
}

/// The history after `item` is taken in: `item` first, then the older
/// entries other than `item`, cut to `MAX_CLIPBOARD_HISTORY` entries.
pub open spec fn history_with(history: Seq<Seq<char>>, item: Seq<char>) -> Seq<Seq<char>> {
    let h = seq![item] + without(history, item);
    if h.len() > MAX_CLIPBOARD_HISTORY {
        h.take(MAX_CLIPBOARD_HISTORY as int)
    } else {
        h
    }
}

/// What `without` keeps: entries of `s` other than `x`.
pub proof fn lemma_without_members(s: Seq<Seq<char>>, x: Seq<char>)
    ensures
        forall|e: Seq<char>| #[trigger] without(s, x).contains(e) ==> s.contains(e) && e != x,
        without(s, x).len() <= s.len(),
        s.no_duplicates() ==> without(s, x).no_duplicates(),
    decreases s.len(),
{
    if s.len() > 0 {
        let p = s.drop_last();
        lemma_without_members(p, x);
        assert forall|e: Seq<char>| #[trigger] without(s, x).contains(e) implies s.contains(e) && e
            != x by {
            if without(p, x).contains(e) {
                let i = choose|i: int| 0 <= i < p.len() && p[i] == e;
                assert(s[i] == e);
            } else {
                assert(e == s.last());
                assert(s[s.len() - 1] == e);
            }
        }
        if s.no_duplicates() {
            assert(p.no_duplicates()) by {
                assert forall|i: int, j: int| 0 <= i < p.len() && 0 <= j < p.len() && i != j implies p[i] != p[j] by {
                    assert(p[i] == s[i] && p[j] == s[j]);
                }
            }
            if s.last() != x {
                let w = without(p, x);
                assert(!w.contains(s.last())) by {
                    if w.contains(s.last()) {
                        let i = choose|i: int| 0 <= i < p.len() && p[i] == s.last();
                        assert(s[i] == s[s.len() - 1]);
                    }
                }
                assert forall|i: int, j: int|
                    0 <= i < w.push(s.last()).len() && 0 <= j < w.push(s.last()).len() && i != j implies
                    w.push(s.last())[i] != w.push(s.last())[j] by {
                    if i == w.len() {
                        assert(w.contains(w[j]));
                    } else if j == w.len() {
                        assert(w.contains(w[i]));
                    }
                }
            }
        }
    }
}

/// Taking an item into the clipboard history puts it first, keeps it there
/// once, holds the history to `MAX_CLIPBOARD_HISTORY` entries, keeps a
/// history without duplicates so, and refuses the same item offered again.
pub proof fn lemma_history_with(history: Seq<Seq<char>>, item: Seq<char>)
    ensures
        1 <= history_with(history, item).len() <= MAX_CLIPBOARD_HISTORY,
        history_with(history, item)[0] == item,
        forall|i: int|
            1 <= i < history_with(history, item).len() ==> #[trigger] history_with(history, item)[i]
                != item,
        history.no_duplicates() ==> history_with(history, item).no_duplicates(),
        !clipboard_item_accepted(history_with(history, item), item),
{
    lemma_without_members(history, item);
    let w = without(history, item);
    let h = seq![item] + w;
    assert forall|i: int| 1 <= i < h.len() implies h[i] != item by {
        assert(h[i] == w[i - 1]);
        assert(w.contains(w[i - 1]));
    }
    if history.no_duplicates() {
        assert forall|i: int, j: int| 0 <= i < h.len() && 0 <= j < h.len() && i != j implies h[i]
            != h[j] by {
            if i > 0 && j > 0 {
                assert(h[i] == w[i - 1] && h[j] == w[j - 1]);
            }
        }
    }
    let r = history_with(history, item);
    assert forall|i: int| 1 <= i < r.len() implies #[trigger] r[i] != item by {
        assert(r[i] == h[i]);
    }
    if history.no_duplicates() && h.len() > MAX_CLIPBOARD_HISTORY {
        assert forall|i: int, j: int| 0 <= i < r.len() && 0 <= j < r.len() && i != j implies r[i]
            != r[j] by {
            assert(r[i] == h[i] && r[j] == h[j]);
        }
    }
}

/// The pinned entries after pinning `item`.
pub open spec fn pinned_with(pinned: Seq<Seq<char>>, item: Seq<char>) -> Seq<Seq<char>> {
    if pinned.contains(item) {
        pinned
    } else {
        pinned.push(item)
    }
}

/// Pinning holds the item afterwards, pinning it twice is pinning it once,
/// pinning keeps the entries free of duplicates, and unpinning takes the item
/// out entirely.
pub proof fn lemma_pin_unpin(pinned: Seq<Seq<char>>, item: Seq<char>)
    ensures
        pinned_with(pinned, item).contains(item),
        pinned_with(pinned_with(pinned, item), item) == pinned_with(pinned, item),
        pinned.no_duplicates() ==> pinned_with(pinned, item).no_duplicates(),
        !without(pinned_with(pinned, item), item).contains(item),
        !without(pinned, item).contains(item),
{
    let p = pinned_with(pinned, item);
    if !pinned.contains(item) {
        assert(p[p.len() - 1] == item);
        if pinned.no_duplicates() {
            assert forall|i: int, j: int| 0 <= i < p.len() && 0 <= j < p.len() && i != j implies p[i]
                != p[j] by {
                if i == pinned.len() {
                    assert(pinned[j] == p[j]);
                } else if j == pinned.len() {
                    assert(pinned[i] == p[i]);
                }
            }
        }
    }
    lemma_without_members(p, item);
    lemma_without_members(pinned, item);
}

/// Writing a day's note and reading it back: the day has a note exactly
/// when the text written is not empty, with that text; other days keep theirs.
pub proof fn lemma_note_read_after_write(
    notes: Map<Seq<char>, Seq<char>>,
    date: Seq<char>,
    text: Seq<char>,
)
    ensures
        ({
            let after = if text.len() == 0 {
                notes.remove(date)
            } else {
                notes.insert(date, text)
            };
            &&& (after.contains_key(date) && after[date].len() > 0) == (text.len() > 0)
            &&& text.len() > 0 ==> after[date] == text
            &&& forall|other: Seq<char>|
                other != date ==> (#[trigger] after.contains_key(other) == notes.contains_key(other)
                    && (notes.contains_key(other) ==> after[other] == notes[other]))
        }),
{
}

/// What the application keeps between runs.
pub struct AppData {
    /// The selected day, as `YYYY-MM-DD`.
    pub selected_date: String,
    /// Free-form scratchpad text.
    pub scratchpad: String,
    /// The notes of the days.
    pub day_notes: DayNotes,
    /// Recent clipboard entries, newest first.
    pub clipboard_history: VecDeque<String>,
    /// Pinned clipboard entries.
    pub pinned_clipboard: Vec<String>,
}

impl AppData {
    /// Fresh data: the day `today` selected, and nothing else.
    pub fn new(today: CalendarDate) -> (r: Self)
        requires
            today.is_valid(),
        ensures
            r.selected_date@ == date_text(today.year as int, today.month as int, today.day as int),
            r.scratchpad@.len() == 0,
            r.day_notes@ == Map::<Seq<char>, Seq<char>>::empty(),
            r.clipboard_history@.len() == 0,
            r.pinned_clipboard@.len() == 0,
    {
        AppData {
            selected_date: date_string(today),
            scratchpad: String::new(),
            day_notes: DayNotes::new(),
            clipboard_history: VecDeque::new(),
            pinned_clipboard: Vec::new(),
        }
    }

    /// The stored data when it could be read, else fresh data with the day
    /// `today` selected.
    pub fn load(stored: Option<AppData>, today: CalendarDate) -> (r: Self)
        requires
            today.is_valid(),
        ensures
            stored matches Some(d) ==> r == d,
            stored is None ==> {
                &&& r.selected_date@ == date_text(
                    today.year as int,
                    today.month as int,
                    today.day as int,
                )
                &&& r.scratchpad@.len() == 0
                &&& r.day_notes@ == Map::<Seq<char>, Seq<char>>::empty()
                &&& r.clipboard_history@.len() == 0
                &&& r.pinned_clipboard@.len() == 0
            },
    {
        match stored {
            Some(d) => d,
            None => AppData::new(today),
        }
    }

    /// Sets the note of `date`; an empty text drops it.
    pub fn set_day_note(&mut self, date: String, text: String)
        ensures
            final(self).day_notes@ == (if text@.len() == 0 {
                old(self).day_notes@.remove(date@)
            } else {
                old(self).day_notes@.insert(date@, text@)
            }),
            final(self).selected_date == old(self).selected_date,
            final(self).scratchpad == old(self).scratchpad,
            final(self).clipboard_history == old(self).clipboard_history,
            final(self).pinned_clipboard == old(self).pinned_clipboard,
    {
        if text.as_str().is_empty() {
            self.day_notes.remove(date.as_str());
        } else {
            self.day_notes.insert(date, text);
        }
    }

    /// Whether `date` has a note with some text.
    pub fn has_day_note(&self, date: &str) -> (r: bool)
        ensures
            r == (self.day_notes@.contains_key(date@) && self.day_notes@[date@].len() > 0),
    {
        match self.day_notes.get(date) {
            Some(t) => !t.as_str().is_empty(),
            None => false,
        }
    }

    /// Takes `item` into the clipboard history, newest first, without
    /// duplicates and at most `MAX_CLIPBOARD_HISTORY` long. Returns whether it
    /// was taken; oversized, blank or repeated items leave the data as it was.
    pub fn push_clipboard(&mut self, item: String) -> (r: bool)
        ensures
            r == clipboard_item_accepted(texts(old(self).clipboard_history@), item@),
            r ==> texts(final(self).clipboard_history@) == history_with(
                texts(old(self).clipboard_history@),
                item@,
            ),
            !r ==> final(self).clipboard_history == old(self).clipboard_history,
            final(self).selected_date == old(self).selected_date,
            final(self).scratchpad == old(self).scratchpad,
            final(self).day_notes == old(self).day_notes,
            final(self).pinned_clipboard == old(self).pinned_clipboard,
    {
        let ghost old_texts = texts(self.clipboard_history@);
        if utf8_len_exceeds(item.as_str(), MAX_CLIPBOARD_BYTES) {
            return false;
        }
        if is_blank(item.as_str()) {
            return false;
        }
        if self.clipboard_history.len() > 0 && self.clipboard_history[0] == item {
            return false;
        }
        assert(!(old_texts.len() > 0 && old_texts[0] == item@));

        let mut rest: VecDeque<String> = VecDeque::new();
        std::mem::swap(&mut rest, &mut self.clipboard_history);
        let ghost orig = rest@;
        let mut kept: VecDeque<String> = VecDeque::new();
        let ghost mut taken: int = 0;
        loop
            invariant
                0 <= taken <= orig.len(),
                rest@ == orig.skip(taken),
                texts(kept@) == without(texts(orig.take(taken)), item@),
                old_texts == texts(orig),
            ensures
                texts(kept@) == without(old_texts, item@),
            decreases orig.len() - taken,
        {
            match rest.pop_front() {
                Some(s) => {
                    proof {
                        assert(orig.take(taken + 1).drop_last() =~= orig.take(taken));
                        assert(texts(orig.take(taken + 1)).drop_last() =~= texts(orig.take(taken)));
                        assert(s == orig[taken]);
                        taken = taken + 1;
                        assert(rest@ =~= orig.skip(taken));
                    }
                    if !(s == item) {
                        kept.push_back(s);
                        proof {
                            assert(texts(kept@) =~= without(texts(orig.take(taken - 1)), item@).push(s@));
                        }
                    }
                },
                None => {
                    proof {
                        assert(orig.take(taken) =~= orig);
                    }
                    break;
                },
            }
        }
        kept.push_front(item);
        let ghost full = texts(kept@);
        assert(full =~= seq![item@] + without(old_texts, item@));
        while kept.len() > MAX_CLIPBOARD_HISTORY
            invariant
                kept@.len() < full.len() ==> kept@.len() >= MAX_CLIPBOARD_HISTORY,
                kept@.len() <= full.len(),
                texts(kept@) == full.take(kept@.len() as int),
            decreases kept@.len(),
        {
            kept.pop_back();
            proof {
                assert(texts(kept@) =~= full.take(kept@.len() as int));
            }
        }
        proof {
            if kept@.len() == full.len() {
                assert(full.take(kept@.len() as int) =~= full);
            }
        }
        self.clipboard_history = kept;
        true
    }

    /// Adds `item` to the pinned entries unless it is there already.
    pub fn pin_clipboard(&mut self, item: String)
        ensures
            texts(final(self).pinned_clipboard@) == (if texts(old(self).pinned_clipboard@).contains(item@) {
                texts(old(self).pinned_clipboard@)
            } else {
                texts(old(self).pinned_clipboard@).push(item@)
            }),
            final(self).selected_date == old(self).selected_date,
            final(self).scratchpad == old(self).scratchpad,
            final(self).day_notes == old(self).day_notes,
            final(self).clipboard_history == old(self).clipboard_history,
    {
        let mut i: usize = 0;
        while i < self.pinned_clipboard.len()
            invariant
                i <= self.pinned_clipboard@.len(),
                forall|j: int| 0 <= j < i ==> #[trigger] self.pinned_clipboard@[j]@ != item@,
            decreases self.pinned_clipboard@.len() - i,
        {
            if self.pinned_clipboard[i] == item {
                proof {
                    assert(texts(self.pinned_clipboard@)[i as int] == item@);
                }
                return;
            }
            i = i + 1;
        }
        proof {
            assert(!texts(self.pinned_clipboard@).contains(item@)) by {
                if texts(self.pinned_clipboard@).contains(item@) {
                    let j = choose|j: int|
                        0 <= j < texts(self.pinned_clipboard@).len() && texts(
                            self.pinned_clipboard@,
                        )[j] == item@;
                    assert(self.pinned_clipboard@[j]@ == item@);
                }
            }
        }
        let ghost before = self.pinned_clipboard@;
        self.pinned_clipboard.push(item);
        assert(texts(self.pinned_clipboard@) =~= texts(before).push(item@));
    }

    /// Takes every pinned entry equal to `item` out, keeping the others in order.
    pub fn unpin_clipboard(&mut self, item: &str)
        ensures
            texts(final(self).pinned_clipboard@) == without(
                texts(old(self).pinned_clipboard@),
                item@,
            ),
            final(self).selected_date == old(self).selected_date,
            final(self).scratchpad == old(self).scratchpad,
            final(self).day_notes == old(self).day_notes,
            final(self).clipboard_history == old(self).clipboard_history,
    {
        let key = String::from_str(item);
        let mut pinned: Vec<String> = Vec::new();
        std::mem::swap(&mut pinned, &mut self.pinned_clipboard);
        let ghost orig = pinned@;
        let mut kept: Vec<String> = Vec::new();
        let mut i: usize = 0;
        assert(orig.take(0) =~= Seq::<String>::empty());
        assert(texts(orig.take(0)) =~= Seq::<Seq<char>>::empty());
        while i < pinned.len()
            invariant
                pinned@ == orig,
                key@ == item@,
                i <= orig.len(),
                texts(kept@) == without(texts(orig.take(i as int)), item@),
            decreases orig.len() - i,
        {
            proof {
                assert(orig.take(i + 1).drop_last() =~= orig.take(i as int));
                assert(texts(orig.take(i + 1)).drop_last() =~= texts(orig.take(i as int)));
            }
            if !(pinned[i] == key) {
                let ghost before = kept@;
                kept.push(pinned[i].clone());
                proof {
                    assert(texts(kept@) =~= texts(before).push(orig[i as int]@));
                }
            }
            i = i + 1;
        }
        assert(orig.take(orig.len() as int) =~= orig);
        self.pinned_clipboard = kept;
    }

    /// Empties the clipboard history.
    pub fn clear_clipboard_history(&mut self)
        ensures
            final(self).clipboard_history@.len() == 0,
            final(self).selected_date == old(self).selected_date,
            final(self).scratchpad == old(self).scratchpad,
            final(self).day_notes == old(self).day_notes,
            final(self).pinned_clipboard == old(self).pinned_clipboard,
    {
        self.clipboard_history.clear();
    }
}

} // verus!

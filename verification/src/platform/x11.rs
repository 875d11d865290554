use vstd::prelude::*;
use crate::text::{
    contains_text, contains_text_spec, eq_ignore_ascii_case, eq_ignore_ascii_case_spec,
    split_on, split_on_char, split_words, to_lowercase, trim, trimmed, unicode_lowercase, words,
};
use crate::platform::summon::SummonStep;

verus! {

/// Whether a lower-cased window class names a CosmiCal window: it holds one
/// of the application's window classes.
pub open spec fn is_cosmical_class_lowered(class: Seq<char>) -> bool {
    contains_text_spec(class, "cosmi-cal"@) || contains_text_spec(
        class,
        "io.github.sixesandsevens.cosmical"@,
    )
}

/// Whether a lower-cased window class names a CosmiCal window.
pub fn is_cosmical_window_class(lowered: &str) -> (r: bool)
    ensures
        r == is_cosmical_class_lowered(lowered@),
{
    contains_text(lowered, "cosmi-cal") || contains_text(
        lowered,
        "io.github.sixesandsevens.cosmical",
    )
}

/// The window id that a line of `wmctrl -lx` gives when its fourth field
/// (the window class, lower-cased) names a CosmiCal window.
pub open spec fn window_id_of(line: Seq<char>) -> Option<Seq<char>> {
    let w = words(line);
    if w.len() >= 4 && is_cosmical_class_lowered(unicode_lowercase(w[3])) {
        Some(w[0])
    } else {
        None
    }
}

/// The window id in a line of `wmctrl -lx`, if the line is a CosmiCal window.
pub fn matching_window_id(line: &str) -> (r: Option<String>)
    ensures
        match r {
            Some(id) => window_id_of(line@) == Some(id@),
            None => window_id_of(line@) is None,
        },
{
    let fields = split_words(line);
    if fields.len() < 4 {
        return None;
    }
    let class = to_lowercase(fields[3].as_str());
    if is_cosmical_window_class(class.as_str()) {
        Some(fields[0].clone())
    } else {
        None
    }
}

/// The first window id among the lines of `output` that `window_id_of` finds.
pub open spec fn first_window_id(lines: Seq<Seq<char>>) -> Option<Seq<char>>
    decreases lines.len(),
{
    if lines.len() == 0 {
        None
    } else {
        match window_id_of(lines[0]) {
            Some(id) => Some(id),
            None => first_window_id(lines.drop_first()),
        }
    }
}

/// The id of the first CosmiCal window in the output of `wmctrl -lx`.
pub fn running_window_id(output: &str) -> (r: Option<String>)
    ensures
        match r {
            Some(id) => first_window_id(split_on(output@, '\n')) == Some(id@),
            None => first_window_id(split_on(output@, '\n')) is None,
        },
{
    let lines = split_on_char(output, '\n');
    let ghost ls = split_on(output@, '\n');
    let mut i: usize = 0;
    assert(ls.skip(0) =~= ls);
    while i < lines.len()
        invariant
            ls == split_on(output@, '\n'),
            lines@.len() == ls.len(),
            forall|k: int| 0 <= k < lines@.len() ==> #[trigger] lines@[k]@ == ls[k],
            i <= ls.len(),
            first_window_id(ls) == first_window_id(ls.skip(i as int)),
        decreases ls.len() - i,
    {
        let found = matching_window_id(lines[i].as_str());
        assert(ls.skip(i as int).drop_first() =~= ls.skip(i + 1));
        assert(ls.skip(i as int)[0] == ls[i as int]);
        assert(ls.skip(i as int).len() > 0);
        if let Some(id) = found {
            assert(window_id_of(ls[i as int]) == Some(id@));
            assert(first_window_id(ls.skip(i as int)) == Some(id@));
            return Some(id);
        }
        i = i + 1;
    }
    assert(ls.skip(i as int) =~= Seq::<Seq<char>>::empty());
    None
}

/// Whether the class that `xdotool getwindowclassname` printed, trimmed,
/// is one of CosmiCal's window classes up to ASCII case.
pub open spec fn is_cosmical_active_class(output: Seq<char>) -> bool {
    eq_ignore_ascii_case_spec(trimmed(output), "cosmi-cal"@) || eq_ignore_ascii_case_spec(
        trimmed(output),
        "io.github.sixesandsevens.cosmical"@,
    )
}

/// Whether the active window's class (as `xdotool` printed it) is CosmiCal's.
pub fn is_cosmical_focused(output: &str) -> (r: bool)
    ensures
        r == is_cosmical_active_class(output@),
{
    let class = trim(output);
    eq_ignore_ascii_case(class.as_str(), "cosmi-cal") || eq_ignore_ascii_case(
        class.as_str(),
        "io.github.sixesandsevens.cosmical",
    )
}

/// Summons through the window manager: the first step lists the windows.
pub fn summon(focus_scratchpad: bool) -> (r: SummonStep)
    ensures
        r is ListWindows,
{
    SummonStep::ListWindows
}

} // verus!

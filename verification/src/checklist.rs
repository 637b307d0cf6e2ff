//! The checklist verifier: decides whether every required identifier
//! corresponds to a checked item in the extracted checklist text, and the
//! whole-document check built from the extractor and the verifier.
//!
//! A line counts as a checked item when it begins with optional whitespace,
//! a dash, and a checked box marker (`[x]` or `[X]`, with whitespace allowed
//! around the `x`); the rest of the line, after any whitespace, is the item
//! body. In identifier mode the item's identifier is the first `id:` in the
//! body followed by one or more decimal digits, taken with its digit run; in
//! label mode it is the body with every `[`, `]`, lowercase `x` and `-`
//! removed and surrounding whitespace trimmed.

use vstd::prelude::*;
use vstd::string::StringExecFns;

use crate::events::{md_events_of, parse_events, EventV};
use crate::extract::{grab_checklist, spec_grab};
use crate::text::{
    copy_range, digit_char, eq_chars, is_digit, skip_ws, skip_ws_run, split_lines, spec_trim,
    str_chars, trim_ws,
};

verus! {

/// The two failure kinds: the designated section yielded no items at all,
/// or one or more required identifiers had no corresponding checked item.
#[derive(Debug, PartialEq, Eq)]
pub enum ChecklistError {
    ChecklistEmpty,
    MissingItems(Vec<String>),
}

/// The mathematical value of a verdict.
pub enum VerdictV {
    Accept,
    Empty,
    Missing(Seq<Seq<char>>),
}

/// The value of a returned verdict.
pub open spec fn verdict_view(r: Result<(), ChecklistError>) -> VerdictV {
    match r {
        Ok(_) => VerdictV::Accept,
        Err(ChecklistError::ChecklistEmpty) => VerdictV::Empty,
        Err(ChecklistError::MissingItems(v)) => VerdictV::Missing(v.deep_view()),
    }
}

/// The value of an optional character vector.
pub open spec fn opt_chars(o: Option<Vec<char>>) -> Option<Seq<char>> {
    match o {
        None => None,
        Some(v) => Some(v@),
    }
}

/// The item body of a line that is a checked item: after optional
/// whitespace the line must hold `-`, `[`, `x` or `X` and `]`, each
/// followed by optional whitespace; the body is the rest of the line.
pub open spec fn checked_body(line: Seq<char>) -> Option<Seq<char>> {
    let i = skip_ws(line, 0);
    if i < line.len() && line[i] == '-' {
        let j = skip_ws(line, i + 1);
        if j < line.len() && line[j] == '[' {
            let k = skip_ws(line, j + 1);
            if k < line.len() && (line[k] == 'x' || line[k] == 'X') {
                let m = skip_ws(line, k + 1);
                if m < line.len() && line[m] == ']' {
                    Some(line.subrange(skip_ws(line, m + 1), line.len() as int))
                } else {
                    None
                }
            } else {
                None
            }
        } else {
            None
        }
    } else {
        None
    }
}

/// Whether `id:` followed by a decimal digit stands at position `i`.
pub open spec fn id_at(s: Seq<char>, i: int) -> bool {
    &&& 0 <= i
    &&& i + 4 <= s.len()
    &&& s[i] == 'i'
    &&& s[i + 1] == 'd'
    &&& s[i + 2] == ':'
    &&& is_digit(s[i + 3])
}

/// The first index at or after `i` whose character ends a digit run.
pub open spec fn digits_end(s: Seq<char>, i: int) -> int
    decreases s.len() - i,
    when 0 <= i <= s.len()
{
    if i >= s.len() {
        i
    } else if is_digit(s[i]) {
        digits_end(s, i + 1)
    } else {
        i
    }
}

pub proof fn lemma_digits_end_range(s: Seq<char>, i: int)
    requires
        0 <= i <= s.len(),
    ensures
        i <= digits_end(s, i) <= s.len(),
    decreases s.len() - i,
{
    if i < s.len() && is_digit(s[i]) {
        lemma_digits_end_range(s, i + 1);
    }
}

/// The first position at or after `i` where `id:` with a digit stands.
pub open spec fn find_id(s: Seq<char>, i: int) -> Option<int>
    decreases s.len() - i,
    when 0 <= i <= s.len()
{
    if i + 4 > s.len() {
        None
    } else if id_at(s, i) {
        Some(i)
    } else {
        find_id(s, i + 1)
    }
}

pub proof fn lemma_find_id_at(s: Seq<char>, i: int)
    requires
        0 <= i <= s.len(),
    ensures
        find_id(s, i) matches Some(j) ==> i <= j && id_at(s, j),
    decreases s.len() - i,
{
    if i + 4 <= s.len() && !id_at(s, i) {
        lemma_find_id_at(s, i + 1);
    }
}

/// The item's identifier in identifier mode: the first `id:` of the body
/// followed by one or more decimal digits, taken with its whole digit run;
/// a body without one contributes no identifier.
pub open spec fn extract_id(s: Seq<char>) -> Option<Seq<char>> {
    match find_id(s, 0) {
        None => None,
        Some(j) => Some(s.subrange(j, digits_end(s, j + 3))),
    }
}

/// A character that label mode removes from the item body.
pub open spec fn is_mark(c: char) -> bool {
    c == '[' || c == ']' || c == 'x' || c == '-'
}

/// The text with every `[`, `]`, lowercase `x` and `-` removed.
pub open spec fn strip_marks(s: Seq<char>) -> Seq<char>
    decreases s.len(),
{
    if s.len() == 0 {
        s
    } else if is_mark(s.last()) {
        strip_marks(s.drop_last())
    } else {
        strip_marks(s.drop_last()).push(s.last())
    }
}

/// The identifier a line contributes: nothing unless the line is a checked
/// item; then the embedded identifier (identifier mode) or the normalized
/// label text (label mode).
pub open spec fn line_id(line: Seq<char>, contains_id: bool) -> Option<Seq<char>> {
    match checked_body(line) {
        None => None,
        Some(body) => if contains_id {
            extract_id(body)
        } else {
            Some(spec_trim(strip_marks(body)))
        },
    }
}

/// The identifiers the lines contribute, in order.
pub open spec fn ids_of_lines(ls: Seq<Seq<char>>, contains_id: bool) -> Seq<Seq<char>>
    decreases ls.len(),
{
    if ls.len() == 0 {
        Seq::empty()
    } else {
        match line_id(ls.last(), contains_id) {
            None => ids_of_lines(ls.drop_last(), contains_id),
            Some(id) => ids_of_lines(ls.drop_last(), contains_id).push(id),
        }
    }
}

/// The identifiers of the checked items of the checklist text.
pub open spec fn checklist_ids(cl: Seq<char>, contains_id: bool) -> Seq<Seq<char>> {
    ids_of_lines(split_lines(cl), contains_id)
}

/// The required identifiers that are not among the items, in the order the
/// caller gave them.
pub open spec fn missing_of(must: Seq<Seq<char>>, items: Seq<Seq<char>>) -> Seq<Seq<char>>
    decreases must.len(),
{
    if must.len() == 0 {
        Seq::empty()
    } else if items.contains(must.last()) {
        missing_of(must.drop_last(), items)
    } else {
        missing_of(must.drop_last(), items).push(must.last())
    }
}

/// The verdict on a checklist text: `Empty` when the text is empty,
/// `Missing` with the required identifiers that no checked item carries
/// when there are any, else `Accept`.
pub open spec fn spec_verify(cl: Seq<char>, must: Seq<Seq<char>>, contains_id: bool) -> VerdictV {
    if cl.len() == 0 {
        VerdictV::Empty
    } else {
        let miss = missing_of(must, checklist_ids(cl, contains_id));
        if miss.len() > 0 {
            VerdictV::Missing(miss)
        } else {
            VerdictV::Accept
        }
    }
}

/// The verdict on a document, given as its structural events.
pub open spec fn spec_check(
    events: Seq<EventV>,
    must: Seq<Seq<char>>,
    start_text: Seq<char>,
    end_level: Option<u32>,
    contains_id: bool,
) -> VerdictV {
    spec_verify(spec_grab(events, start_text, end_level, contains_id), must, contains_id)
}

/// The end level named by an optional end heading.
pub open spec fn spec_end_level(end_heading: Option<(u32, String)>) -> Option<u32> {
    match end_heading {
        None => None,
        Some(p) => Some(p.0),
    }
}

/// The item body of a checked-item line, if the line is one.
pub fn checked_item_body(line: &Vec<char>) -> (r: Option<Vec<char>>)
    ensures
        opt_chars(r) == checked_body(line@),
{
    let i = skip_ws_run(line, 0);
    if i < line.len() && line[i] == '-' {
        let j = skip_ws_run(line, i + 1);
        if j < line.len() && line[j] == '[' {
            let k = skip_ws_run(line, j + 1);
            if k < line.len() && (line[k] == 'x' || line[k] == 'X') {
                let m = skip_ws_run(line, k + 1);
                if m < line.len() && line[m] == ']' {
                    let p = skip_ws_run(line, m + 1);
                    Some(copy_range(line, p, line.len()))
                } else {
                    None
                }
            } else {
                None
            }
        } else {
            None
        }
    } else {
        None
    }
}

/// The first position of an embedded identifier, if the body holds one.
fn find_id_start(s: &Vec<char>) -> (r: Option<usize>)
    ensures
        match r {
            Some(j) => find_id(s@, 0) == Some(j as int),
            None => find_id(s@, 0) is None,
        },
{
    if s.len() < 4 {
        return None;
    }
    let mut i: usize = 0;
    while i <= s.len() - 4
        invariant
            4 <= s.len(),
            i <= s.len() - 3,
            find_id(s@, 0) == find_id(s@, i as int),
        decreases s.len() - i,
    {
        if s[i] == 'i' && s[i + 1] == 'd' && s[i + 2] == ':' && digit_char(s[i + 3]) {
            assert(id_at(s@, i as int));
            return Some(i);
        }
        i = i + 1;
    }
    None
}

/// Advances past decimal digits.
fn digits_run(s: &Vec<char>, i: usize) -> (j: usize)
    requires
        i <= s.len(),
    ensures
        j == digits_end(s@, i as int),
        i <= j <= s.len(),
{
    proof {
        lemma_digits_end_range(s@, i as int);
    }
    let mut j: usize = i;
    while j < s.len() && digit_char(s[j])
        invariant
            i <= j <= s.len(),
            digits_end(s@, i as int) == digits_end(s@, j as int),
        decreases s.len() - j,
    {
        j = j + 1;
    }
    j
}

/// The embedded identifier of an item body, if it holds one.
fn extract_id_chars(s: &Vec<char>) -> (r: Option<Vec<char>>)
    ensures
        opt_chars(r) == extract_id(s@),
{
    proof {
        lemma_find_id_at(s@, 0);
    }
    match find_id_start(s) {
        None => None,
        Some(j) => {
            assert(id_at(s@, j as int));
            let n = s.len();
            assert(j + 4 <= n as int);
            let e = digits_run(s, j + 3);
            Some(copy_range(s, j, e))
        },
    }
}

/// Removes the marker characters of label mode.
fn strip_marks_chars(s: &Vec<char>) -> (r: Vec<char>)
    ensures
        r@ == strip_marks(s@),
{
    let mut r: Vec<char> = Vec::new();
    let mut i: usize = 0;
    while i < s.len()
        invariant
            i <= s.len(),
            r@ == strip_marks(s@.take(i as int)),
        decreases s.len() - i,
    {
        let c = s[i];
        if !(c == '[' || c == ']' || c == 'x' || c == '-') {
            r.push(c);
        }
        i = i + 1;
        proof {
            assert(s@.take(i as int).drop_last() =~= s@.take(i - 1));
            assert(s@.take(i as int).last() == s@[i - 1]);
        }
    }
    proof {
        assert(s@.take(s@.len() as int) =~= s@);
    }
    r
}

/// The identifier a line contributes, by mode.
fn line_id_chars(line: &Vec<char>, contains_id: bool) -> (r: Option<Vec<char>>)
    ensures
        opt_chars(r) == line_id(line@, contains_id),
{
    match checked_item_body(line) {
        None => None,
        Some(body) => {
            if contains_id {
                extract_id_chars(&body)
            } else {
                let stripped = strip_marks_chars(&body);
                Some(trim_ws(&stripped))
            }
        },
    }
}

/// The values of a sequence of character vectors.
pub open spec fn chars_view(s: Seq<Vec<char>>) -> Seq<Seq<char>> {
    s.map_values(|v: Vec<char>| v@)
}

/// Whether the gathered identifiers include this one.
fn contains_chars(ids: &Vec<Vec<char>>, x: &Vec<char>) -> (r: bool)
    ensures
        r == chars_view(ids@).contains(x@),
{
    let mut j: usize = 0;
    while j < ids.len()
        invariant
            j <= ids.len(),
            forall|k: int| 0 <= k < j ==> ids@[k]@ != x@,
        decreases ids.len() - j,
    {
        if eq_chars(&ids[j], x) {
            assert(chars_view(ids@)[j as int] == x@);
            return true;
        }
        j = j + 1;
    }
    proof {
        assert forall|k: int| 0 <= k < chars_view(ids@).len() implies chars_view(ids@)[k]
            != x@ by {
            assert(chars_view(ids@)[k] == ids@[k]@);
        }
    }
    false
}

/// Decides whether every required identifier corresponds to a checked item
/// in the checklist text: `ChecklistEmpty` when the text is empty,
/// `MissingItems` with the required identifiers that no checked item
/// carries when there are any, else success.
pub fn verify_checklist(checklist: &Vec<char>, must_verified: &Vec<String>, contains_id: bool) -> (r:
    Result<(), ChecklistError>)
    ensures
        verdict_view(r) == spec_verify(checklist@, must_verified.deep_view(), contains_id),
{
    if checklist.len() == 0 {
        return Err(ChecklistError::ChecklistEmpty);
    }
    let mut ids: Vec<Vec<char>> = Vec::new();
    let mut cur_line: Vec<char> = Vec::new();
    let ghost mut done_lines: Seq<Seq<char>> = Seq::empty();
    proof {
        assert(split_lines(checklist@.take(0)) =~= done_lines.push(cur_line@));
    }
    let mut i: usize = 0;
    while i < checklist.len()
        invariant
            i <= checklist@.len(),
            split_lines(checklist@.take(i as int)) == done_lines.push(cur_line@),
            chars_view(ids@) == ids_of_lines(done_lines, contains_id),
        decreases checklist@.len() - i,
    {
        let ghost old_done = done_lines;
        let ghost old_cur = cur_line@;
        let c = checklist[i];
        if c == '\n' {
            let id_opt = line_id_chars(&cur_line, contains_id);
            match id_opt {
                Some(idv) => {
                    ids.push(idv);
                },
                None => {},
            }
            proof {
                done_lines = done_lines.push(old_cur);
                assert(done_lines.drop_last() =~= old_done);
                assert(chars_view(ids@) =~= ids_of_lines(done_lines, contains_id));
            }
            cur_line = Vec::new();
        } else {
            cur_line.push(c);
        }
        i = i + 1;
        proof {
            assert(checklist@.take(i as int).drop_last() =~= checklist@.take(i - 1));
            assert(checklist@.take(i as int).last() == checklist@[i - 1]);
            assert(split_lines(checklist@.take(i as int)) =~= done_lines.push(cur_line@));
        }
    }
    proof {
        assert(checklist@.take(checklist@.len() as int) =~= checklist@);
    }
    let id_opt = line_id_chars(&cur_line, contains_id);
    let ghost last_done = done_lines;
    match id_opt {
        Some(idv) => {
            ids.push(idv);
        },
        None => {},
    }
    proof {
        done_lines = done_lines.push(cur_line@);
        assert(done_lines.drop_last() =~= last_done);
        assert(chars_view(ids@) =~= ids_of_lines(done_lines, contains_id));
        assert(done_lines == split_lines(checklist@));
    }
    let ghost items = checklist_ids(checklist@, contains_id);
    assert(chars_view(ids@) == items);
    let mut missing: Vec<String> = Vec::new();
    let ghost must = must_verified.deep_view();
    proof {
        assert(missing.deep_view() =~= missing_of(must.take(0), items));
    }
    let mut k: usize = 0;
    while k < must_verified.len()
        invariant
            k <= must_verified@.len(),
            must == must_verified.deep_view(),
            items == chars_view(ids@),
            missing.deep_view() == missing_of(must.take(k as int), items),
        decreases must_verified@.len() - k,
    {
        let ghost old_missing = missing.deep_view();
        let mc = str_chars(must_verified[k].as_str());
        assert(mc@ == must[k as int]);
        if !contains_chars(&ids, &mc) {
            missing.push(String::from_str(must_verified[k].as_str()));
            proof {
                assert(missing.deep_view() =~= old_missing.push(mc@));
            }
        }
        k = k + 1;
        proof {
            assert(must.take(k as int).drop_last() =~= must.take(k - 1));
            assert(must.take(k as int).last() == must[k - 1]);
        }
    }
    proof {
        assert(must.take(must.len() as int) =~= must);
    }
    if missing.len() > 0 {
        assert(missing.deep_view().len() > 0);
        Err(ChecklistError::MissingItems(missing))
    } else {
        assert(missing.deep_view().len() == 0);
        Ok(())
    }
}

/// Lines that are no checked items contribute no identifiers.
proof fn lemma_ids_empty(ls: Seq<Seq<char>>, contains_id: bool)
    requires
        forall|k: int| 0 <= k < ls.len() ==> checked_body(ls[k]) is None,
    ensures
        ids_of_lines(ls, contains_id) == Seq::<Seq<char>>::empty(),
    decreases ls.len(),
{
    if ls.len() > 0 {
        assert(checked_body(ls.last()) is None);
        assert forall|k: int|
            0 <= k < ls.drop_last().len() implies checked_body(ls.drop_last()[k]) is None by {
            assert(ls.drop_last()[k] == ls[k]);
        }
        lemma_ids_empty(ls.drop_last(), contains_id);
    }
}

/// Against an empty item set, every required identifier is missing.
proof fn lemma_missing_all(must: Seq<Seq<char>>)
    ensures
        missing_of(must, Seq::<Seq<char>>::empty()) == must,
    decreases must.len(),
{
    if must.len() > 0 {
        lemma_missing_all(must.drop_last());
        assert(!Seq::<Seq<char>>::empty().contains(must.last()));
        assert(must.drop_last().push(must.last()) =~= must);
    }
}

/// When the start heading's text never appears among the document's inline
/// text events, the checklist text is empty and the verdict is the empty
/// checklist.
pub proof fn lemma_verdict_start_never_matched(
    events: Seq<EventV>,
    must: Seq<Seq<char>>,
    start_text: Seq<char>,
    end_level: Option<u32>,
    contains_id: bool,
)
    requires
        forall|k: int|
            0 <= k < events.len() ==> ((#[trigger] events[k]) matches EventV::Text(t) ==> t != start_text),
    ensures
        spec_check(events, must, start_text, end_level, contains_id) == VerdictV::Empty,
{
    crate::extract::lemma_start_never_matched(events, start_text, end_level, contains_id);
}

/// A checklist text none of whose lines is a checked item yields no
/// identifiers: with a non-empty requirement set, the verdict is the empty
/// checklist when the text is empty, and otherwise every required
/// identifier is reported missing. (With an empty requirement set, a
/// non-empty text of only unchecked items is accepted instead.)
pub proof fn lemma_only_unchecked_items(cl: Seq<char>, must: Seq<Seq<char>>, contains_id: bool)
    requires
        forall|k: int|
            0 <= k < split_lines(cl).len() ==> checked_body(split_lines(cl)[k]) is None,
        must.len() > 0,
    ensures
        cl.len() == 0 ==> spec_verify(cl, must, contains_id) == VerdictV::Empty,
        cl.len() > 0 ==> spec_verify(cl, must, contains_id) == VerdictV::Missing(must),
{
    lemma_ids_empty(split_lines(cl), contains_id);
    lemma_missing_all(must);
}

/// The verdict is a function of the inputs alone: any two results that the
/// contract of `checklist_check` admits for the same inputs agree, so
/// invoking the check twice on identical inputs yields identical verdicts.
pub proof fn lemma_verdict_deterministic(
    r1: Result<(), ChecklistError>,
    r2: Result<(), ChecklistError>,
    events: Seq<EventV>,
    must: Seq<Seq<char>>,
    start_text: Seq<char>,
    end_level: Option<u32>,
    contains_id: bool,
)
    requires
        verdict_view(r1) == spec_check(events, must, start_text, end_level, contains_id),
        verdict_view(r2) == spec_check(events, must, start_text, end_level, contains_id),
    ensures
        verdict_view(r1) == verdict_view(r2),
{
}

/// Detects the checklist section of a markdown document, between the start
/// heading (matched by its exact text) and the first heading of the end
/// heading's level (when one is given) or the end of the document, and
/// verifies that every required identifier corresponds to a checked item
/// in it.
pub fn checklist_check(
    raw_text: String,
    must_verified: Vec<String>,
    start_heading: (u32, String),
    end_heading: Option<(u32, String)>,
    contains_id: bool,
) -> (r: Result<(), ChecklistError>)
    ensures
        verdict_view(r) == spec_check(
            md_events_of(raw_text@),
            must_verified.deep_view(),
            start_heading.1@,
            spec_end_level(end_heading),
            contains_id,
        ),
{
    let events = parse_events(&raw_text);
    let start_text = str_chars(start_heading.1.as_str());
    let end_level: Option<u32> = match &end_heading {
        Some(p) => Some(p.0),
        None => None,
    };
    assert(end_level == spec_end_level(end_heading));
    let checklist = grab_checklist(&events, &start_text, end_level, contains_id);
    verify_checklist(&checklist, &must_verified, contains_id)
}

} // verus!

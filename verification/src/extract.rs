//! The section extractor: a single pass over the structural events that
//! isolates the checklist section and reconstructs each list item's text.
//!
//! The scan starts outside the section and enters it when an inline text
//! event equals the start heading's text (that text is consumed silently).
//! Inside the section, a heading start whose level equals the end heading's
//! level (when one is given) terminates the scan; a list-item start seeds
//! the current item with `"- "`; task markers, text, code spans, raw inline
//! markup (in identifier mode) and line breaks grow the current item; any
//! block end flushes the current item, with a trailing newline, into the
//! section text. The result is the section text trimmed of surrounding
//! whitespace.

use vstd::prelude::*;

use crate::events::{events_view, EventV, MdEvent};
use crate::text::{append_chars, eq_chars, spec_trim, trim_ws};

verus! {

/// The scanner's state: whether the start heading has been matched, whether
/// the scan has terminated at the end heading, the section text gathered so
/// far, and the text of the item being built.
pub struct ScanState {
    pub in_section: bool,
    pub done: bool,
    pub acc: Seq<char>,
    pub cur: Seq<char>,
}

/// The state before any event is processed.
pub open spec fn init_state() -> ScanState {
    ScanState { in_section: false, done: false, acc: Seq::empty(), cur: Seq::empty() }
}

/// One transition of the scanner. A terminated scan absorbs every further
/// event; outside the section only a text event equal to the start heading's
/// text has an effect.
pub open spec fn scan_step(
    st: ScanState,
    ev: EventV,
    start_text: Seq<char>,
    end_level: Option<u32>,
    contains_id: bool,
) -> ScanState {
    if st.done {
        st
    } else {
        match ev {
            EventV::HeadingStart(level) => {
                if st.in_section && end_level == Some(level) {
                    ScanState { in_section: st.in_section, done: true, acc: st.acc, cur: st.cur }
                } else {
                    st
                }
            },
            EventV::ItemStart => {
                if st.in_section {
                    ScanState {
                        in_section: st.in_section,
                        done: st.done,
                        acc: st.acc,
                        cur: seq!['-', ' '],
                    }
                } else {
                    st
                }
            },
            EventV::OtherStart => st,
            EventV::BlockEnd => {
                if st.in_section {
                    ScanState {
                        in_section: st.in_section,
                        done: st.done,
                        acc: st.acc + st.cur + seq!['\n'],
                        cur: Seq::empty(),
                    }
                } else {
                    st
                }
            },
            EventV::Text(t) => {
                if st.in_section {
                    ScanState {
                        in_section: st.in_section,
                        done: st.done,
                        acc: st.acc,
                        cur: st.cur + t,
                    }
                } else if t == start_text {
                    ScanState { in_section: true, done: st.done, acc: st.acc, cur: st.cur }
                } else {
                    st
                }
            },
            EventV::Code(t) => {
                if st.in_section {
                    ScanState {
                        in_section: st.in_section,
                        done: st.done,
                        acc: st.acc,
                        cur: st.cur + seq!['`'] + t + seq!['`'],
                    }
                } else {
                    st
                }
            },
            EventV::InlineHtml(t) => {
                if st.in_section && contains_id {
                    ScanState {
                        in_section: st.in_section,
                        done: st.done,
                        acc: st.acc,
                        cur: st.cur + t,
                    }
                } else {
                    st
                }
            },
            EventV::TaskMarker(checked) => {
                if st.in_section {
                    ScanState {
                        in_section: st.in_section,
                        done: st.done,
                        acc: st.acc,
                        cur: st.cur + (if checked {
                            seq!['[', 'x', ']', ' ']
                        } else {
                            seq!['[', ' ', ']', ' ']
                        }),
                    }
                } else {
                    st
                }
            },
            EventV::SoftBreak => {
                if st.in_section {
                    ScanState {
                        in_section: st.in_section,
                        done: st.done,
                        acc: st.acc,
                        cur: st.cur.push(' '),
                    }
                } else {
                    st
                }
            },
            EventV::HardBreak => {
                if st.in_section {
                    ScanState {
                        in_section: st.in_section,
                        done: st.done,
                        acc: st.acc,
                        cur: st.cur.push(' '),
                    }
                } else {
                    st
                }
            },
            EventV::Other => st,
        }
    }
}

/// The state after processing the events in order, from `st`.
pub open spec fn run_state(
    events: Seq<EventV>,
    st: ScanState,
    start_text: Seq<char>,
    end_level: Option<u32>,
    contains_id: bool,
) -> ScanState
    decreases events.len(),
{
    if events.len() == 0 {
        st
    } else {
        run_state(
            events.drop_first(),
            scan_step(st, events[0], start_text, end_level, contains_id),
            start_text,
            end_level,
            contains_id,
        )
    }
}

/// The checklist text of the document: the section text gathered by the
/// scan, trimmed of leading and trailing whitespace.
pub open spec fn spec_grab(
    events: Seq<EventV>,
    start_text: Seq<char>,
    end_level: Option<u32>,
    contains_id: bool,
) -> Seq<char> {
    spec_trim(run_state(events, init_state(), start_text, end_level, contains_id).acc)
}

/// Processing one more event at the end is one more transition.
pub proof fn lemma_run_push(
    events: Seq<EventV>,
    ev: EventV,
    st: ScanState,
    start_text: Seq<char>,
    end_level: Option<u32>,
    contains_id: bool,
)
    ensures
        run_state(events.push(ev), st, start_text, end_level, contains_id) == scan_step(
            run_state(events, st, start_text, end_level, contains_id),
            ev,
            start_text,
            end_level,
            contains_id,
        ),
    decreases events.len(),
{
    if events.len() == 0 {
        assert(events.push(ev)[0] == ev);
        assert(events.push(ev).drop_first() =~= Seq::<EventV>::empty());
        assert(run_state(events, st, start_text, end_level, contains_id) == st);
        assert(run_state(events.push(ev), st, start_text, end_level, contains_id) == run_state(
            Seq::<EventV>::empty(),
            scan_step(st, ev, start_text, end_level, contains_id),
            start_text,
            end_level,
            contains_id,
        ));
    } else {
        assert(events.push(ev)[0] == events[0]);
        assert(events.push(ev).drop_first() =~= events.drop_first().push(ev));
        lemma_run_push(
            events.drop_first(),
            ev,
            scan_step(st, events[0], start_text, end_level, contains_id),
            start_text,
            end_level,
            contains_id,
        );
    }
}

/// A terminated scan absorbs every further event.
pub proof fn lemma_run_done(
    events: Seq<EventV>,
    st: ScanState,
    start_text: Seq<char>,
    end_level: Option<u32>,
    contains_id: bool,
)
    requires
        st.done,
    ensures
        run_state(events, st, start_text, end_level, contains_id) == st,
    decreases events.len(),
{
    if events.len() > 0 {
        lemma_run_done(events.drop_first(), st, start_text, end_level, contains_id);
    }
}

/// Scanning a concatenation is scanning the first part, then the second.
pub proof fn lemma_run_concat(
    a: Seq<EventV>,
    b: Seq<EventV>,
    st: ScanState,
    start_text: Seq<char>,
    end_level: Option<u32>,
    contains_id: bool,
)
    ensures
        run_state(a + b, st, start_text, end_level, contains_id) == run_state(
            b,
            run_state(a, st, start_text, end_level, contains_id),
            start_text,
            end_level,
            contains_id,
        ),
    decreases a.len(),
{
    if a.len() == 0 {
        assert(a + b =~= b);
    } else {
        assert((a + b).drop_first() =~= a.drop_first() + b);
        lemma_run_concat(
            a.drop_first(),
            b,
            scan_step(st, a[0], start_text, end_level, contains_id),
            start_text,
            end_level,
            contains_id,
        );
    }
}

/// A scan outside the section that never meets the start heading's text
/// stays outside and gathers nothing.
proof fn lemma_run_no_start(
    events: Seq<EventV>,
    st: ScanState,
    start_text: Seq<char>,
    end_level: Option<u32>,
    contains_id: bool,
)
    requires
        !st.in_section,
        !st.done,
        forall|k: int|
            0 <= k < events.len() ==> ((#[trigger] events[k]) matches EventV::Text(t) ==> t != start_text),
    ensures
        run_state(events, st, start_text, end_level, contains_id) == st,
    decreases events.len(),
{
    if events.len() > 0 {
        assert(scan_step(st, events[0], start_text, end_level, contains_id) == st);
        assert forall|k: int|
            0 <= k < events.drop_first().len() implies ((#[trigger] events.drop_first()[k]) matches
            EventV::Text(t) ==> t != start_text) by {
            assert(events.drop_first()[k] == events[k + 1]);
        }
        lemma_run_no_start(events.drop_first(), st, start_text, end_level, contains_id);
    }
}

/// A document in which no inline text event carries the start heading's
/// text yields an empty checklist text.
pub proof fn lemma_start_never_matched(
    events: Seq<EventV>,
    start_text: Seq<char>,
    end_level: Option<u32>,
    contains_id: bool,
)
    requires
        forall|k: int|
            0 <= k < events.len() ==> ((#[trigger] events[k]) matches EventV::Text(t) ==> t != start_text),
    ensures
        spec_grab(events, start_text, end_level, contains_id) == Seq::<char>::empty(),
{
    lemma_run_no_start(events, init_state(), start_text, end_level, contains_id);
    assert(spec_trim(Seq::<char>::empty()) =~= Seq::<char>::empty());
}

/// Once the scan is inside the section, a heading start of the end level
/// terminates it: whatever events follow that heading, they contribute
/// nothing to the extracted text.
pub proof fn lemma_end_boundary(
    before: Seq<EventV>,
    after: Seq<EventV>,
    start_text: Seq<char>,
    level: u32,
    contains_id: bool,
)
    requires
        run_state(before, init_state(), start_text, Some(level), contains_id).in_section,
        !run_state(before, init_state(), start_text, Some(level), contains_id).done,
    ensures
        spec_grab(
            before + seq![EventV::HeadingStart(level)] + after,
            start_text,
            Some(level),
            contains_id,
        ) == spec_grab(
            before + seq![EventV::HeadingStart(level)],
            start_text,
            Some(level),
            contains_id,
        ),
{
    let st = run_state(before, init_state(), start_text, Some(level), contains_id);
    let h = seq![EventV::HeadingStart(level)];
    let stopped = scan_step(st, EventV::HeadingStart(level), start_text, Some(level), contains_id);
    lemma_run_concat(before, h, init_state(), start_text, Some(level), contains_id);
    assert(h.drop_first() =~= Seq::<EventV>::empty());
    assert(h[0] == EventV::HeadingStart(level));
    assert(run_state(h, st, start_text, Some(level), contains_id) == run_state(
        Seq::<EventV>::empty(),
        stopped,
        start_text,
        Some(level),
        contains_id,
    ));
    assert(run_state(h, st, start_text, Some(level), contains_id) == stopped);
    assert(stopped.done);
    lemma_run_concat(before + h, after, init_state(), start_text, Some(level), contains_id);
    lemma_run_done(after, stopped, start_text, Some(level), contains_id);
}

/// Reconstructs the text of every checklist item lying between the start
/// heading (matched by its exact text) and the first heading of the end
/// level (when one is given) or the end of the document.
pub fn grab_checklist(
    events: &Vec<MdEvent>,
    start_text: &Vec<char>,
    end_level: Option<u32>,
    contains_id: bool,
) -> (r: Vec<char>)
    ensures
        r@ == spec_grab(events_view(events@), start_text@, end_level, contains_id),
{
    let mut in_section: bool = false;
    let mut done: bool = false;
    let mut acc: Vec<char> = Vec::new();
    let mut cur: Vec<char> = Vec::new();
    let mut i: usize = 0;
    while i < events.len() && !done
        invariant
            i <= events@.len(),
            run_state(
                events_view(events@.take(i as int)),
                init_state(),
                start_text@,
                end_level,
                contains_id,
            ) == (ScanState { in_section, done, acc: acc@, cur: cur@ }),
        decreases events@.len() - i,
    {
        let ghost pre = events_view(events@.take(i as int));
        let ghost st = ScanState { in_section, done, acc: acc@, cur: cur@ };
        let ghost ev = events@[i as int]@;
        proof {
            assert(events_view(events@.take(i + 1)) =~= pre.push(ev));
            lemma_run_push(pre, ev, init_state(), start_text@, end_level, contains_id);
        }
        match &events[i] {
            MdEvent::HeadingStart(level) => {
                if in_section && level_matches(end_level, *level) {
                    done = true;
                }
            },
            MdEvent::ItemStart => {
                if in_section {
                    cur = Vec::new();
                    cur.push('-');
                    cur.push(' ');
                    proof {
                        assert(cur@ =~= seq!['-', ' ']);
                    }
                }
            },
            MdEvent::OtherStart => {},
            MdEvent::BlockEnd => {
                if in_section {
                    append_chars(&mut acc, &cur);
                    acc.push('\n');
                    cur = Vec::new();
                    proof {
                        assert(acc@ =~= st.acc + st.cur + seq!['\n']);
                    }
                }
            },
            MdEvent::Text(t) => {
                if in_section {
                    append_chars(&mut cur, t);
                } else if eq_chars(t, start_text) {
                    in_section = true;
                }
            },
            MdEvent::Code(t) => {
                if in_section {
                    cur.push('`');
                    append_chars(&mut cur, t);
                    cur.push('`');
                    proof {
                        assert(cur@ =~= st.cur + seq!['`'] + t@ + seq!['`']);
                    }
                }
            },
            MdEvent::InlineHtml(t) => {
                if in_section && contains_id {
                    append_chars(&mut cur, t);
                }
            },
            MdEvent::TaskMarker(checked) => {
                if in_section {
                    cur.push('[');
                    cur.push(if *checked { 'x' } else { ' ' });
                    cur.push(']');
                    cur.push(' ');
                    proof {
                        if *checked {
                            assert(cur@ =~= st.cur + seq!['[', 'x', ']', ' ']);
                        } else {
                            assert(cur@ =~= st.cur + seq!['[', ' ', ']', ' ']);
                        }
                    }
                }
            },
            MdEvent::SoftBreak => {
                if in_section {
                    cur.push(' ');
                }
            },
            MdEvent::HardBreak => {
                if in_section {
                    cur.push(' ');
                }
            },
            MdEvent::Other => {},
        }
        i = i + 1;
    }
    proof {
        if done {
            lemma_run_concat(
                events_view(events@.take(i as int)),
                events_view(events@.skip(i as int)),
                init_state(),
                start_text@,
                end_level,
                contains_id,
            );
            lemma_run_done(
                events_view(events@.skip(i as int)),
                run_state(
                    events_view(events@.take(i as int)),
                    init_state(),
                    start_text@,
                    end_level,
                    contains_id,
                ),
                start_text@,
                end_level,
                contains_id,
            );
            assert(events_view(events@.take(i as int)) + events_view(events@.skip(i as int))
                =~= events_view(events@));
        } else {
            assert(events@.take(i as int) =~= events@);
        }
    }
    trim_ws(&acc)
}

/// Whether the optional end level is this level.
fn level_matches(end_level: Option<u32>, level: u32) -> (r: bool)
    ensures
        r == (end_level == Some(level)),
{
    match end_level {
        Some(l) => l == level,
        None => false,
    }
}

} // verus!

use md_checklist::events::MdEvent;
use md_checklist::extract::grab_checklist;

fn chars(s: &str) -> Vec<char> {
    s.chars().collect()
}

fn text(s: &str) -> MdEvent {
    MdEvent::Text(chars(s))
}

#[test]
fn scanner_builds_items_and_stops_at_end_level() {
    let events = vec![
        MdEvent::HeadingStart(2),
        text("Go"),
        MdEvent::BlockEnd,
        MdEvent::OtherStart,
        MdEvent::ItemStart,
        MdEvent::TaskMarker(true),
        text("Alpha"),
        MdEvent::SoftBreak,
        MdEvent::Code(chars("beta")),
        MdEvent::BlockEnd,
        MdEvent::HeadingStart(2),
        text("ignored"),
        MdEvent::ItemStart,
        MdEvent::TaskMarker(true),
        text("Gamma"),
        MdEvent::BlockEnd,
    ];
    let out = grab_checklist(&events, &chars("Go"), Some(2), true);
    assert_eq!(out, chars("- [x] Alpha `beta`"));
}

#[test]
fn scanner_without_end_heading_reads_to_document_end() {
    let events = vec![
        text("Go"),
        MdEvent::ItemStart,
        MdEvent::TaskMarker(false),
        text("One"),
        MdEvent::BlockEnd,
        MdEvent::HeadingStart(3),
        text("Subsection"),
        MdEvent::BlockEnd,
        MdEvent::ItemStart,
        MdEvent::TaskMarker(true),
        text("Two"),
        MdEvent::HardBreak,
        text("more"),
        MdEvent::BlockEnd,
    ];
    let out = grab_checklist(&events, &chars("Go"), None, true);
    assert_eq!(out, chars("- [ ] One\nSubsection\n- [x] Two more"));
}

#[test]
fn scanner_keeps_raw_markup_only_in_identifier_mode() {
    let events = vec![
        text("Go"),
        MdEvent::ItemStart,
        MdEvent::TaskMarker(true),
        text("A"),
        MdEvent::InlineHtml(chars("<!--id:9-->")),
        MdEvent::BlockEnd,
    ];
    let with_id = grab_checklist(&events, &chars("Go"), None, true);
    assert_eq!(with_id, chars("- [x] A<!--id:9-->"));
    let without_id = grab_checklist(&events, &chars("Go"), None, false);
    assert_eq!(without_id, chars("- [x] A"));
}

#[test]
fn scanner_ignores_everything_before_the_start_text() {
    let events = vec![
        MdEvent::ItemStart,
        MdEvent::TaskMarker(true),
        text("early item"),
        MdEvent::BlockEnd,
        MdEvent::HeadingStart(2),
        text("elsewhere"),
        MdEvent::BlockEnd,
    ];
    let out = grab_checklist(&events, &chars("Go"), None, true);
    assert_eq!(out, chars(""));
}

#[test]
fn scanner_matches_start_text_not_heading_structure() {
    // The start text may arrive as plain paragraph text; matching is by
    // exact text equality alone.
    let events = vec![
        text("Almost Go"),
        text("Go"),
        MdEvent::ItemStart,
        MdEvent::TaskMarker(true),
        text("found"),
        MdEvent::BlockEnd,
    ];
    let out = grab_checklist(&events, &chars("Go"), None, true);
    assert_eq!(out, chars("- [x] found"));
}

#[test]
fn scanner_flushes_on_any_block_end() {
    // A paragraph inside the section contributes its text as a line of its
    // own when its block ends.
    let events = vec![
        text("Go"),
        MdEvent::OtherStart,
        text("loose text"),
        MdEvent::BlockEnd,
        MdEvent::ItemStart,
        MdEvent::TaskMarker(true),
        text("item"),
        MdEvent::BlockEnd,
    ];
    let out = grab_checklist(&events, &chars("Go"), None, true);
    assert_eq!(out, chars("loose text\n- [x] item"));
}

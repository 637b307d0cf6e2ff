use md_checklist::checklist::{checklist_check, verify_checklist, ChecklistError};

fn owned(items: &[&str]) -> Vec<String> {
    items.iter().map(|s| s.to_string()).collect()
}

fn chars(s: &str) -> Vec<char> {
    s.chars().collect()
}

#[test]
fn test_checklist_check() {
    let markdown_content = r#"
# My Document

## Checklist Section

- [x] Item 1 <!--id:1-->
- [x] Item 2 <!--id:2-->
- [ ] Item 3 <!--id:3-->

## Other Section
"#;

    let must_verified = owned(&["id:1", "id:2"]);
    let start_heading = (2u32, "Checklist Section".to_string());
    let end_heading = Some((2u32, "Other Section".to_string()));

    let result = checklist_check(
        markdown_content.to_string(),
        must_verified,
        start_heading,
        end_heading,
        true,
    );

    assert!(result.is_ok());
}

#[test]
fn missing_identifier_is_reported() {
    let markdown_content = r#"
# My Document

## Checklist Section

- [x] Item 1 <!--id:1-->
- [x] Item 2 <!--id:2-->
- [ ] Item 3 <!--id:3-->

## Other Section
"#;

    let result = checklist_check(
        markdown_content.to_string(),
        owned(&["id:1", "id:2", "id:3"]),
        (2u32, "Checklist Section".to_string()),
        Some((2u32, "Other Section".to_string())),
        true,
    );

    assert_eq!(
        result,
        Err(ChecklistError::MissingItems(owned(&["id:3"])))
    );
}

#[test]
fn start_heading_never_appears() {
    let markdown_content = "# Intro\n\nsome text, no checklist here\n";
    let result = checklist_check(
        markdown_content.to_string(),
        owned(&["id:1"]),
        (2u32, "Checklist Section".to_string()),
        None,
        true,
    );
    assert_eq!(result, Err(ChecklistError::ChecklistEmpty));
}

#[test]
fn only_unchecked_items_miss_everything() {
    let markdown_content = r#"
## Checklist Section

- [ ] Item 1 <!--id:1-->
- [ ] Item 2 <!--id:2-->
"#;
    let result = checklist_check(
        markdown_content.to_string(),
        owned(&["id:1", "id:2"]),
        (2u32, "Checklist Section".to_string()),
        None,
        true,
    );
    assert_eq!(
        result,
        Err(ChecklistError::MissingItems(owned(&["id:1", "id:2"])))
    );
}

#[test]
fn verdict_is_deterministic() {
    let markdown_content = "## L\n\n- [x] A <!--id:4-->\n";
    let first = checklist_check(
        markdown_content.to_string(),
        owned(&["id:4", "id:5"]),
        (2u32, "L".to_string()),
        None,
        true,
    );
    let second = checklist_check(
        markdown_content.to_string(),
        owned(&["id:4", "id:5"]),
        (2u32, "L".to_string()),
        None,
        true,
    );
    assert_eq!(first, second);
    assert_eq!(first, Err(ChecklistError::MissingItems(owned(&["id:5"]))));
}

#[test]
fn identifier_mode_round_trip() {
    let markdown_content = "## List\n\n- [x] Some text <!--id:7-->\n";
    let result = checklist_check(
        markdown_content.to_string(),
        owned(&["id:7"]),
        (2u32, "List".to_string()),
        None,
        true,
    );
    assert!(result.is_ok());
}

#[test]
fn label_mode_checked_item_passes() {
    let markdown_content = "## List\n\n- [x] Deploy to staging\n";
    let result = checklist_check(
        markdown_content.to_string(),
        owned(&["Deploy to staging"]),
        (2u32, "List".to_string()),
        None,
        false,
    );
    assert!(result.is_ok());
}

#[test]
fn label_mode_unchecked_item_is_missing() {
    let markdown_content = "## List\n\n- [ ] Deploy to staging\n";
    let result = checklist_check(
        markdown_content.to_string(),
        owned(&["Deploy to staging"]),
        (2u32, "List".to_string()),
        None,
        false,
    );
    assert_eq!(
        result,
        Err(ChecklistError::MissingItems(owned(&["Deploy to staging"])))
    );
}

#[test]
fn items_after_end_heading_are_not_counted() {
    let markdown_content = r#"
## A

- [x] Item A <!--id:1-->

## B

- [x] Item B <!--id:2-->
"#;
    let result = checklist_check(
        markdown_content.to_string(),
        owned(&["id:1", "id:2"]),
        (2u32, "A".to_string()),
        Some((2u32, "Anything".to_string())),
        true,
    );
    assert_eq!(
        result,
        Err(ChecklistError::MissingItems(owned(&["id:2"])))
    );
}

#[test]
fn section_runs_to_document_end_without_end_heading() {
    let markdown_content = "## A\n\n- [x] Early <!--id:1-->\n\n### Later\n\n- [x] Late <!--id:2-->\n";
    let result = checklist_check(
        markdown_content.to_string(),
        owned(&["id:1", "id:2"]),
        (2u32, "A".to_string()),
        None,
        true,
    );
    assert!(result.is_ok());
}

#[test]
fn empty_requirement_set_accepts_any_nonempty_checklist() {
    let markdown_content = "## L\n\n- [ ] nothing done\n";
    let result = checklist_check(
        markdown_content.to_string(),
        owned(&[]),
        (2u32, "L".to_string()),
        None,
        true,
    );
    assert!(result.is_ok());
}

#[test]
fn verify_empty_text_is_checklist_empty() {
    let result = verify_checklist(&chars(""), &owned(&["id:1"]), true);
    assert_eq!(result, Err(ChecklistError::ChecklistEmpty));
}

#[test]
fn verify_uppercase_marker_and_padding_accepted() {
    let text = "  -  [ X ]  stuff id:007x and more";
    let result = verify_checklist(&chars(text), &owned(&["id:007"]), true);
    assert_eq!(result, Ok(()));
}

#[test]
fn verify_identifier_takes_whole_digit_run() {
    let text = "- [x] a <!--id:12-->34";
    assert_eq!(verify_checklist(&chars(text), &owned(&["id:12"]), true), Ok(()));
    assert_eq!(
        verify_checklist(&chars(text), &owned(&["id:1"]), true),
        Err(ChecklistError::MissingItems(owned(&["id:1"])))
    );
}

#[test]
fn verify_first_identifier_wins() {
    let text = "- [x] see id:3 and id:4";
    assert_eq!(verify_checklist(&chars(text), &owned(&["id:3"]), true), Ok(()));
    assert_eq!(
        verify_checklist(&chars(text), &owned(&["id:4"]), true),
        Err(ChecklistError::MissingItems(owned(&["id:4"])))
    );
}

#[test]
fn verify_id_needs_digits() {
    let text = "- [x] id: none here";
    assert_eq!(
        verify_checklist(&chars(text), &owned(&["id:"]), true),
        Err(ChecklistError::MissingItems(owned(&["id:"])))
    );
}

#[test]
fn verify_label_mode_strips_marker_characters() {
    // The body still holds box characters; label mode removes `[`, `]`,
    // lowercase `x` and `-`, then trims.
    let text = "- [x] fi[x]-ed label";
    assert_eq!(
        verify_checklist(&chars(text), &owned(&["fied label"]), false),
        Ok(())
    );
}

#[test]
fn verify_unchecked_line_contributes_nothing() {
    let text = "- [ ] a <!--id:1-->\n- [x] b <!--id:2-->";
    assert_eq!(
        verify_checklist(&chars(text), &owned(&["id:1", "id:2"]), true),
        Err(ChecklistError::MissingItems(owned(&["id:1"])))
    );
}

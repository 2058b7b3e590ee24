use intern_local::command::CommandItem;
use intern_local::sheet::{filter_by_tag, sheet_to_run, sort_sheet};

fn c(index: u32, instruction: &str, tag: &str) -> CommandItem {
    CommandItem { index, instruction: instruction.to_string(), tag: tag.to_string() }
}

fn summary(v: &[CommandItem]) -> Vec<(u32, String)> {
    v.iter().map(|c| (c.index, c.instruction.clone())).collect()
}

#[test]
fn sheets_run_in_index_order_stably() {
    let sheet = vec![c(3, "a", "x"), c(1, "b", "y"), c(3, "c", "x"), c(2, "d", "x"), c(1, "e", "x")];
    let sorted = sort_sheet(sheet);
    assert_eq!(
        summary(&sorted),
        vec![
            (1, "b".to_string()),
            (1, "e".to_string()),
            (2, "d".to_string()),
            (3, "a".to_string()),
            (3, "c".to_string()),
        ]
    );
}

#[test]
fn sorting_an_empty_or_sorted_sheet() {
    assert!(sort_sheet(Vec::new()).is_empty());
    let sheet = vec![c(0, "a", ""), c(5, "b", ""), c(u32::MAX, "c", "")];
    assert_eq!(summary(&sort_sheet(sheet.clone())), summary(&sheet));
}

#[test]
fn tag_filter_keeps_order() {
    let sheet = vec![c(3, "a", "x"), c(1, "b", "y"), c(2, "c", "x"), c(0, "d", "X")];
    assert_eq!(
        summary(&filter_by_tag(sheet.clone(), "x")),
        vec![(3, "a".to_string()), (2, "c".to_string())]
    );
    assert_eq!(
        summary(&sheet_to_run(sheet.clone(), Some("x"))),
        vec![(2, "c".to_string()), (3, "a".to_string())]
    );
    assert_eq!(sheet_to_run(sheet.clone(), None).len(), 4);
    assert!(sheet_to_run(sheet, Some("z")).is_empty());
}

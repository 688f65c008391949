use calamine::{DataType, Range};
use excel_cli::excel::{open_workbook, SheetSource};
use excel_cli::state::{AppState, InputMode};

fn text_range(rows: &[&[&str]]) -> Range<DataType> {
    let height = rows.len() as u32;
    let width = rows[0].len() as u32;
    let mut range = Range::new((0, 0), (height - 1, width - 1));
    for (r, row) in rows.iter().enumerate() {
        for (c, text) in row.iter().enumerate() {
            if !text.is_empty() {
                range.set_value((r as u32, c as u32), DataType::String(text.to_string()));
            }
        }
    }
    range
}

fn state() -> AppState {
    let wb = open_workbook(
        "book.xlsx".to_string(),
        vec![SheetSource {
            name: "S".to_string(),
            range: Some(text_range(&[
                &["apple", "banana", "grape"],
                &["Apple pie", "", "pineapple"],
                &["cherry", "snapple", "plum"],
            ])),
        }],
        false,
    )
    .unwrap();
    AppState::new(wb, String::new())
}

#[test]
fn matches_come_row_by_row() {
    let s = state();
    assert_eq!(s.find_all_matches("apple"), vec![(1, 1), (2, 3), (3, 2)]);
    assert_eq!(s.find_all_matches("a"), vec![(1, 1), (1, 2), (1, 3), (2, 3), (3, 2)]);
    assert_eq!(s.find_all_matches("p"), vec![(1, 1), (1, 3), (2, 1), (2, 3), (3, 2), (3, 3)]);
}

#[test]
fn search_is_case_sensitive() {
    let s = state();
    assert_eq!(s.find_all_matches("Apple"), vec![(2, 1)]);
    assert_eq!(s.find_all_matches("APPLE"), Vec::<(usize, usize)>::new());
}

#[test]
fn empty_query_matches_nothing() {
    let s = state();
    assert_eq!(s.find_all_matches(""), Vec::<(usize, usize)>::new());
}

#[test]
fn search_without_a_match_finds_nothing() {
    let s = state();
    assert_eq!(s.find_all_matches("kiwi"), Vec::<(usize, usize)>::new());
}

#[test]
fn search_skips_the_margin() {
    let mut s = state();
    s.selected_cell = (0, 1);
    s.edit_cell("apple".to_string()).unwrap();
    s.selected_cell = (1, 0);
    s.edit_cell("apple".to_string()).unwrap();
    assert_eq!(s.find_all_matches("apple"), vec![(1, 1), (2, 3), (3, 2)]);
}

#[test]
fn repeated_search_gives_the_same_matches() {
    let s = state();
    let first = s.find_all_matches("an");
    let second = s.find_all_matches("an");
    assert_eq!(first, vec![(1, 2)]);
    assert_eq!(first, second);
}

#[test]
fn next_walks_in_a_cycle() {
    let mut s = state();
    s.execute_search("apple".to_string());
    let n = s.search_results.len();
    assert_eq!(n, 3);
    assert_eq!(s.search_cursor, 0);
    assert_eq!(s.selected_cell, (1, 1));
    s.jump_to_next_search_result();
    assert_eq!(s.selected_cell, (2, 3));
    s.jump_to_next_search_result();
    assert_eq!(s.selected_cell, (3, 2));
    s.jump_to_next_search_result();
    assert_eq!(s.selected_cell, (1, 1));
    assert_eq!(s.search_cursor, 0);
    for _ in 0..n {
        s.jump_to_next_search_result();
    }
    assert_eq!(s.selected_cell, (1, 1));
}

#[test]
fn prev_walks_the_other_way() {
    let mut s = state();
    s.execute_search("apple".to_string());
    s.jump_to_prev_search_result();
    assert_eq!(s.selected_cell, (3, 2));
    assert_eq!(s.search_cursor, 2);
    s.jump_to_prev_search_result();
    assert_eq!(s.selected_cell, (2, 3));
    s.jump_to_next_search_result();
    assert_eq!(s.selected_cell, (3, 2));
}

#[test]
fn walking_without_matches_does_nothing() {
    let mut s = state();
    s.selected_cell = (2, 2);
    s.jump_to_next_search_result();
    s.jump_to_prev_search_result();
    assert_eq!(s.selected_cell, (2, 2));
    assert_eq!(s.search_cursor, 0);
}

#[test]
fn execute_search_goes_to_the_first_match() {
    let mut s = state();
    s.input_mode = InputMode::SearchForward;
    s.selected_cell = (3, 3);
    s.execute_search("apple".to_string());
    assert_eq!(s.input_mode, InputMode::Normal);
    assert_eq!(s.search_query, "apple");
    assert_eq!(s.search_results, vec![(1, 1), (2, 3), (3, 2)]);
    assert_eq!(s.selected_cell, (1, 1));
    assert!(s.notifications.is_empty());
}

#[test]
fn execute_search_backward_goes_to_the_last_match() {
    let mut s = state();
    s.input_mode = InputMode::SearchBackward;
    s.execute_search("apple".to_string());
    assert_eq!(s.input_mode, InputMode::Normal);
    assert_eq!(s.search_cursor, 2);
    assert_eq!(s.selected_cell, (3, 2));
}

#[test]
fn execute_search_without_match_says_so() {
    let mut s = state();
    s.input_mode = InputMode::SearchForward;
    s.selected_cell = (2, 2);
    s.execute_search("kiwi".to_string());
    assert_eq!(s.input_mode, InputMode::Normal);
    assert_eq!(s.selected_cell, (2, 2));
    assert!(s.search_results.is_empty());
    assert_eq!(s.search_query, "kiwi");
    assert_eq!(s.notifications, vec!["Pattern not found: kiwi".to_string()]);
}

use excel_cli::excel::{cell_from_text, is_formula_text, Cell, CellType, DataTypeInfo};
use excel_cli::text::{
    chars_equal, contains_chars, count_lines, count_occurrences, parses_as_number, text_chars,
};

fn type_of(text: &str) -> CellType {
    Cell::new(text.to_string(), false).cell_type
}

fn is_number(text: &str) -> bool {
    parses_as_number(&text_chars(text))
}

#[test]
fn classify_examples() {
    assert_eq!(type_of(""), CellType::Empty);
    assert_eq!(type_of("3.14"), CellType::Number);
    assert_eq!(type_of("true"), CellType::Boolean);
    assert_eq!(type_of("false"), CellType::Boolean);
    assert_eq!(type_of("hello"), CellType::Text);
    assert_eq!(type_of("2021/01/01"), CellType::Date);
    assert_eq!(type_of("2021-01-01"), CellType::Date);
}

#[test]
fn plain_text_is_text() {
    for text in ["abc", "a/b", "a-b", "a/b/c/d", "a-b-c-d", "True", "FALSE", "1 2", "#REF!", "é"] {
        assert_eq!(type_of(text), CellType::Text, "{text}");
    }
}

#[test]
fn formula_is_text_whatever_it_holds() {
    assert_eq!(Cell::new("=1+2".to_string(), true).cell_type, CellType::Text);
    assert_eq!(Cell::new("3.14".to_string(), true).cell_type, CellType::Text);
    assert_eq!(Cell::new("true".to_string(), true).cell_type, CellType::Text);
    assert_eq!(Cell::new("2021/01/01".to_string(), true).cell_type, CellType::Text);
    assert_eq!(Cell::new(String::new(), true).cell_type, CellType::Empty);
}

#[test]
fn number_comes_before_date() {
    // Two separators, yet a number first of all.
    assert_eq!(type_of("-1e-5"), CellType::Number);
    assert_eq!(type_of("1-2-3"), CellType::Date);
    assert_eq!(type_of("--"), CellType::Date);
    assert_eq!(type_of("//"), CellType::Date);
    assert_eq!(type_of("v1-2-x"), CellType::Date);
}

#[test]
fn number_literals_are_those_that_parse_as_float() {
    let samples = [
        "", "0", "1", "-1", "+1", "1.", ".5", "1.5", "-.5", "+.5e3", ".", "-", "+", "+-1", "--1",
        "1e5", "1E5", "1e+5", "1e-5", "1e", "1e+", "e5", ".e5", "1.e5", "1.5e", "1e5.0", "1e5e5",
        "inf", "Inf", "INF", "+inf", "-inf", "infinity", "Infinity", "INFINITY", "-Infinity",
        "infinit", "infinityy", "in", "nan", "NaN", "NAN", "-nan", "+NaN", "nano", "na", " 1",
        "1 ", "1,5", "1_000", "0x10", "1f", "１", "٣", "1.2.3", "..", "1..2", "00012", "-0",
        "123456789012345678901234567890", "1e999999", "0.000000000000000000000000001", "İnf",
        "ınf", "é", "1é", "ｅ5", "１e5", "1e５",
    ];
    for text in samples {
        assert_eq!(is_number(text), text.parse::<f64>().is_ok(), "{text:?}");
    }
}

#[test]
fn number_literal_exact_cases() {
    assert!(is_number("3.14"));
    assert!(is_number("-2.5e10"));
    assert!(is_number("NaN"));
    assert!(is_number("iNfInItY"));
    assert!(!is_number("abc"));
    assert!(!is_number(""));
    assert!(!is_number("."));
    assert!(!is_number("1e"));
}

#[test]
fn new_keeps_value_and_flag() {
    let cell = Cell::new("=A1".to_string(), true);
    assert_eq!(cell.value, "=A1");
    assert!(cell.is_formula);
    assert_eq!(cell.cell_type, CellType::Text);
    assert_eq!(cell.original_type, None);
}

#[test]
fn new_with_type_keeps_all_fields() {
    let cell = Cell::new_with_type(
        "12".to_string(),
        false,
        CellType::Text,
        Some(DataTypeInfo::String),
    );
    assert_eq!(cell.value, "12");
    assert!(!cell.is_formula);
    assert_eq!(cell.cell_type, CellType::Text);
    assert_eq!(cell.original_type, Some(DataTypeInfo::String));
}

#[test]
fn empty_cell_fields() {
    let cell = Cell::empty();
    assert_eq!(cell.value, "");
    assert!(!cell.is_formula);
    assert_eq!(cell.cell_type, CellType::Empty);
    assert_eq!(cell.original_type, Some(DataTypeInfo::Empty));
}

#[test]
fn clone_keeps_all_fields() {
    let cell = Cell::new_with_type(
        "2024-01-01T00:00:00".to_string(),
        false,
        CellType::Date,
        Some(DataTypeInfo::DateTimeIso("2024-01-01T00:00:00".to_string())),
    );
    assert_eq!(cell.clone(), cell);
    let number = Cell::new_with_type(
        "1.5".to_string(),
        false,
        CellType::Number,
        Some(DataTypeInfo::Float(1.5f64.to_bits())),
    );
    assert_eq!(number.clone(), number);
}

#[test]
fn typed_text_begins_a_formula_with_equals() {
    assert!(is_formula_text("=SUM(A1:A3)"));
    assert!(is_formula_text("="));
    assert!(!is_formula_text(""));
    assert!(!is_formula_text(" =1"));
    assert!(!is_formula_text("1=1"));
    let cell = cell_from_text("=1+1".to_string());
    assert!(cell.is_formula);
    assert_eq!(cell.cell_type, CellType::Text);
    let plain = cell_from_text("42".to_string());
    assert!(!plain.is_formula);
    assert_eq!(plain.cell_type, CellType::Number);
    assert_eq!(plain.original_type, None);
}

#[test]
fn text_chars_are_the_characters() {
    assert_eq!(text_chars("aé√"), vec!['a', 'é', '√']);
    assert_eq!(text_chars(""), Vec::<char>::new());
}

#[test]
fn chars_equal_compares_whole_texts() {
    assert!(chars_equal(&text_chars("abc"), &text_chars("abc")));
    assert!(!chars_equal(&text_chars("abc"), &text_chars("abd")));
    assert!(!chars_equal(&text_chars("abc"), &text_chars("ab")));
    assert!(chars_equal(&text_chars(""), &text_chars("")));
}

#[test]
fn count_occurrences_counts() {
    assert_eq!(count_occurrences(&text_chars("a/b/c"), '/'), 2);
    assert_eq!(count_occurrences(&text_chars("abc"), '/'), 0);
    assert_eq!(count_occurrences(&text_chars("///"), '/'), 3);
    assert_eq!(count_occurrences(&text_chars(""), '/'), 0);
}

#[test]
fn contains_chars_is_substring_search() {
    let samples = [
        ("hello world", "o w"),
        ("hello", "hello"),
        ("hello", ""),
        ("", ""),
        ("", "a"),
        ("hello", "Hello"),
        ("aaab", "aab"),
        ("abc", "abcd"),
        ("abcabc", "cab"),
        ("héllo", "éll"),
    ];
    for (hay, needle) in samples {
        assert_eq!(
            contains_chars(&text_chars(hay), &text_chars(needle)),
            hay.contains(needle),
            "{hay:?} {needle:?}"
        );
    }
}

#[test]
fn count_lines_is_the_number_of_lines() {
    for text in ["", "a", "a\n", "a\nb", "a\nb\n", "\n", "\n\n", "a\r\nb", "a\r", "a\n\nb"] {
        assert_eq!(count_lines(&text_chars(text)), text.lines().count(), "{text:?}");
    }
}

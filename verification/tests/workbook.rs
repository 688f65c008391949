use calamine::{CellErrorType, DataType, Range};
use excel_cli::error::EngineError;
use excel_cli::excel::{
    create_sheet_from_range, open_workbook, read_at_open, Cell, CellType, DataTypeInfo, Sheet,
    SheetSource, Workbook,
};

fn text_range(rows: &[&[&str]]) -> Range<DataType> {
    if rows.is_empty() {
        return Range::empty();
    }
    let height = rows.len() as u32;
    let width = rows[0].len() as u32;
    let mut range = Range::new((0, 0), (height - 1, width - 1));
    for (r, row) in rows.iter().enumerate() {
        for (c, text) in row.iter().enumerate() {
            if !text.is_empty() {
                range.set_value((r as u32, c as u32), DataType::String(text.to_string()));
            }
        }
    }
    range
}

fn source(name: &str, rows: &[&[&str]]) -> SheetSource {
    SheetSource { name: name.to_string(), range: Some(text_range(rows)) }
}

fn deferred(name: &str) -> SheetSource {
    SheetSource { name: name.to_string(), range: None }
}

fn two_sheets() -> Workbook {
    open_workbook(
        "book.xlsx".to_string(),
        vec![source("First", &[&["10", "20"], &["a", "b"]]), source("Second", &[&["x"]])],
        false,
    )
    .unwrap()
}

fn value<'a>(sheet: &'a Sheet, row: usize, col: usize) -> &'a str {
    sheet.data[row][col].value.as_str()
}

#[test]
fn sheet_from_range_has_margin_and_bounds() {
    let sheet = create_sheet_from_range("Data", &text_range(&[&["a", "b", "c"], &["d", "", "f"]]));
    assert_eq!(sheet.name, "Data");
    assert_eq!(sheet.max_rows, 2);
    assert_eq!(sheet.max_cols, 3);
    assert!(sheet.is_loaded);
    assert_eq!(sheet.data.len(), 3);
    for row in &sheet.data {
        assert_eq!(row.len(), 4);
    }
    for c in 0..4 {
        assert_eq!(sheet.data[0][c], Cell::empty());
    }
    for r in 0..3 {
        assert_eq!(sheet.data[r][0], Cell::empty());
    }
    assert_eq!(value(&sheet, 1, 1), "a");
    assert_eq!(value(&sheet, 1, 3), "c");
    assert_eq!(value(&sheet, 2, 1), "d");
    assert_eq!(sheet.data[2][2], Cell::empty());
    assert_eq!(value(&sheet, 2, 3), "f");
    assert!(sheet.is_wf());
}

#[test]
fn sheet_from_empty_range_has_only_the_margin() {
    let sheet = create_sheet_from_range("Empty", &Range::empty());
    assert_eq!(sheet.max_rows, 0);
    assert_eq!(sheet.max_cols, 0);
    assert_eq!(sheet.data.len(), 1);
    assert_eq!(sheet.data[0].len(), 1);
    assert_eq!(sheet.data[0][0], Cell::empty());
    assert!(sheet.is_loaded);
}

#[test]
fn sheet_from_range_maps_each_native_kind() {
    let mut range: Range<DataType> = Range::new((0, 0), (0, 9));
    range.set_value((0, 0), DataType::String("text".to_string()));
    range.set_value((0, 1), DataType::Float(3.14));
    range.set_value((0, 2), DataType::Int(42));
    range.set_value((0, 3), DataType::Bool(true));
    range.set_value((0, 4), DataType::Error(CellErrorType::Div0));
    range.set_value((0, 5), DataType::DateTime(44197.5));
    range.set_value((0, 6), DataType::Duration(0.25));
    range.set_value((0, 7), DataType::DateTimeIso("2021-01-01T10:00:00".to_string()));
    range.set_value((0, 8), DataType::DurationIso("PT1H".to_string()));
    let sheet = create_sheet_from_range("Kinds", &range);
    let row = &sheet.data[1];
    let expected = [
        ("text", CellType::Text, DataTypeInfo::String),
        ("3.14", CellType::Number, DataTypeInfo::Float(3.14f64.to_bits())),
        ("42", CellType::Number, DataTypeInfo::Int(42)),
        ("true", CellType::Boolean, DataTypeInfo::Bool(true)),
        ("Error: Div0", CellType::Text, DataTypeInfo::Error),
        ("44197.5", CellType::Date, DataTypeInfo::DateTime(44197.5f64.to_bits())),
        ("0.25", CellType::Text, DataTypeInfo::Duration(0.25f64.to_bits())),
        (
            "2021-01-01T10:00:00",
            CellType::Date,
            DataTypeInfo::DateTimeIso("2021-01-01T10:00:00".to_string()),
        ),
        ("PT1H", CellType::Text, DataTypeInfo::DurationIso("PT1H".to_string())),
        ("", CellType::Empty, DataTypeInfo::Empty),
    ];
    for (i, (text, cell_type, kind)) in expected.into_iter().enumerate() {
        let cell = &row[i + 1];
        assert_eq!(cell.value, text, "column {i}");
        assert_eq!(cell.cell_type, cell_type, "column {i}");
        assert_eq!(cell.original_type, Some(kind), "column {i}");
        assert!(!cell.is_formula, "column {i}");
    }
}

#[test]
fn sheet_from_range_marks_formulas_by_the_first_character() {
    let sheet = create_sheet_from_range("F", &text_range(&[&["=A1+1", "A1=1"]]));
    assert!(sheet.data[1][1].is_formula);
    assert_eq!(sheet.data[1][1].cell_type, CellType::Text);
    assert!(!sheet.data[1][2].is_formula);
}

#[test]
fn number_text_from_a_file_stays_text() {
    let sheet = create_sheet_from_range("T", &text_range(&[&["123"]]));
    assert_eq!(sheet.data[1][1].cell_type, CellType::Text);
    assert_eq!(sheet.data[1][1].original_type, Some(DataTypeInfo::String));
}

#[test]
fn open_workbook_keeps_the_order_of_the_file() {
    let wb = two_sheets();
    assert_eq!(wb.get_sheet_names(), vec!["First".to_string(), "Second".to_string()]);
    assert_eq!(wb.sheet_count(), 2);
    assert_eq!(wb.get_current_sheet_index(), 0);
    assert_eq!(wb.get_current_sheet_name(), "First");
    assert_eq!(wb.get_current_sheet().name, "First");
    assert_eq!(wb.get_file_path(), "book.xlsx");
    assert!(!wb.is_modified());
    assert!(!wb.is_lazy_loading());
    assert!(wb.is_sheet_loaded(0));
    assert!(wb.is_sheet_loaded(1));
    assert!(!wb.is_sheet_loaded(2));
    assert_eq!(wb.get_sheet(1).unwrap().name, "Second");
    assert!(wb.get_sheet(2).is_none());
}

#[test]
fn open_workbook_rejects_a_file_without_sheets() {
    let res = open_workbook("none.xlsx".to_string(), Vec::new(), false);
    assert_eq!(res.err(), Some(EngineError::NoWorksheets));
}

#[test]
fn open_workbook_defers_sheets_without_a_range() {
    let wb = open_workbook(
        "lazy.xlsx".to_string(),
        vec![deferred("A"), source("B", &[&["1"]]), deferred("C")],
        true,
    )
    .unwrap();
    assert!(wb.is_lazy_loading());
    assert!(!wb.is_sheet_loaded(0));
    assert!(wb.is_sheet_loaded(1));
    assert!(!wb.is_sheet_loaded(2));
    let sheet = wb.get_sheet(0).unwrap();
    assert_eq!(sheet.name, "A");
    assert!(sheet.data.is_empty());
    assert_eq!(sheet.max_rows, 0);
    assert_eq!(sheet.max_cols, 0);
    assert_eq!(wb.load_request(0), Some("A".to_string()));
    assert_eq!(wb.load_request(1), None);
    assert_eq!(wb.load_request(3), None);
}

#[test]
fn set_cell_value_retypes_the_cell_and_marks_modified() {
    let mut wb = two_sheets();
    assert_eq!(wb.get_current_sheet().data[1][1].value, "10");
    assert_eq!(wb.set_cell_value(1, 1, "abc".to_string()), Ok(()));
    let cell = &wb.get_current_sheet().data[1][1];
    assert_eq!(cell.value, "abc");
    assert_eq!(cell.cell_type, CellType::Text);
    assert!(!cell.is_formula);
    assert_eq!(cell.original_type, None);
    assert!(wb.is_modified());
    assert_eq!(wb.get_current_sheet().data[1][2].value, "20");
}

#[test]
fn set_cell_value_types_numbers_and_formulas() {
    let mut wb = two_sheets();
    wb.set_cell_value(2, 1, "12.5".to_string()).unwrap();
    assert_eq!(wb.get_current_sheet().data[2][1].cell_type, CellType::Number);
    wb.set_cell_value(2, 2, "=A1".to_string()).unwrap();
    assert!(wb.get_current_sheet().data[2][2].is_formula);
    assert_eq!(wb.get_current_sheet().data[2][2].cell_type, CellType::Text);
    wb.set_cell_value(1, 2, String::new()).unwrap();
    assert_eq!(wb.get_current_sheet().data[1][2].cell_type, CellType::Empty);
}

#[test]
fn set_cell_value_checks_the_allocated_grid() {
    let mut wb = two_sheets();
    // The grid is 3 x 3: the margin takes row 0 and column 0.
    assert_eq!(wb.set_cell_value(0, 0, "m".to_string()), Ok(()));
    assert_eq!(wb.set_cell_value(2, 2, "z".to_string()), Ok(()));
    let mut fresh = two_sheets();
    assert_eq!(fresh.set_cell_value(3, 1, "x".to_string()), Err(EngineError::OutOfRange));
    assert_eq!(fresh.set_cell_value(1, 3, "x".to_string()), Err(EngineError::OutOfRange));
    assert!(!fresh.is_modified());
    assert_eq!(fresh.get_current_sheet().data[1][1].value, "10");
}

#[test]
fn set_cell_value_on_an_unloaded_sheet_is_out_of_range() {
    let mut wb = open_workbook("l.xlsx".to_string(), vec![deferred("A")], true).unwrap();
    assert_eq!(wb.set_cell_value(0, 0, "x".to_string()), Err(EngineError::OutOfRange));
    assert_eq!(wb.set_cell_value(1, 1, "x".to_string()), Err(EngineError::OutOfRange));
}

#[test]
fn switch_sheet_checks_the_index_and_does_not_load() {
    let mut wb = open_workbook(
        "lazy.xlsx".to_string(),
        vec![source("A", &[&["1"]]), deferred("B")],
        true,
    )
    .unwrap();
    assert_eq!(wb.switch_sheet(1), Ok(()));
    assert_eq!(wb.get_current_sheet_index(), 1);
    assert!(!wb.is_sheet_loaded(1));
    assert_eq!(wb.switch_sheet(2), Err(EngineError::OutOfRange));
    assert_eq!(wb.get_current_sheet_index(), 1);
    assert!(!wb.is_modified());
}

#[test]
fn ensure_sheet_loaded_reads_once() {
    let mut wb = open_workbook(
        "lazy.xlsx".to_string(),
        vec![source("A", &[&["1"]]), deferred("B")],
        true,
    )
    .unwrap();
    assert_eq!(wb.ensure_sheet_loaded(1, "B", Ok(text_range(&[&["x", "y"]]))), Ok(()));
    assert!(wb.is_sheet_loaded(1));
    assert_eq!(wb.load_request(1), None);
    let first = wb.get_sheet(1).unwrap().clone();
    assert_eq!(first.max_rows, 1);
    assert_eq!(first.max_cols, 2);
    assert_eq!(first.data[1][2].value, "y");
    // A second call changes nothing, whatever it is handed.
    assert_eq!(wb.ensure_sheet_loaded(1, "B", Ok(text_range(&[&["other"]]))), Ok(()));
    assert_eq!(wb.get_sheet(1).unwrap(), &first);
    assert_eq!(wb.ensure_sheet_loaded(1, "B", Err("gone".to_string())), Ok(()));
    assert_eq!(wb.get_sheet(1).unwrap(), &first);
    assert!(!wb.is_modified());
}

#[test]
fn ensure_sheet_loaded_reports_a_failed_read() {
    let mut wb = open_workbook("lazy.xlsx".to_string(), vec![deferred("A")], true).unwrap();
    assert_eq!(
        wb.ensure_sheet_loaded(0, "A", Err("bad zip".to_string())),
        Err(EngineError::LoadFailed("A".to_string(), "bad zip".to_string()))
    );
    assert!(!wb.is_sheet_loaded(0));
    assert!(wb.get_sheet(0).unwrap().data.is_empty());
    assert_eq!(
        wb.ensure_sheet_loaded(5, "A", Ok(Range::empty())),
        Err(EngineError::OutOfRange)
    );
}

#[test]
fn export_holds_the_populated_region() {
    let mut wb = two_sheets();
    wb.set_cell_value(0, 0, "margin".to_string()).unwrap();
    let out = wb.export_sheets();
    assert_eq!(out.len(), 2);
    assert_eq!(out[0].name, "First");
    assert_eq!(out[0].column_count, 2);
    assert_eq!(
        out[0].rows,
        vec![vec!["10".to_string(), "20".to_string()], vec!["a".to_string(), "b".to_string()]]
    );
    assert_eq!(out[1].name, "Second");
    assert_eq!(out[1].column_count, 1);
    assert_eq!(out[1].rows, vec![vec!["x".to_string()]]);
}

#[test]
fn save_clears_the_modified_flag_only_on_success() {
    let mut wb = two_sheets();
    wb.set_cell_value(1, 1, "n".to_string()).unwrap();
    assert_eq!(
        wb.save(Err("disk full".to_string())),
        Err(EngineError::SaveFailed("disk full".to_string()))
    );
    assert!(wb.is_modified());
    assert_eq!(wb.save(Ok(())), Ok(()));
    assert!(!wb.is_modified());
    assert_eq!(wb.get_current_sheet().data[1][1].value, "n");
}

#[test]
fn put_cell_returns_the_previous_cell() {
    let mut wb = two_sheets();
    let previous = wb.put_cell(1, 1, 1, Cell::new("new".to_string(), false)).unwrap();
    assert_eq!(previous.value, "x");
    assert_eq!(wb.get_sheet(1).unwrap().data[1][1].value, "new");
    assert!(wb.is_modified());
    assert_eq!(wb.put_cell(2, 1, 1, Cell::empty()).err(), Some(EngineError::OutOfRange));
    assert_eq!(wb.put_cell(1, 2, 1, Cell::empty()).err(), Some(EngineError::OutOfRange));
}

#[test]
fn rows_come_out_and_go_back_in() {
    let mut wb = open_workbook(
        "b.xlsx".to_string(),
        vec![source("S", &[&["1", "2"], &["3", "4"], &["5", "6"], &["7", "8"]])],
        false,
    )
    .unwrap();
    let before = wb.get_current_sheet().clone();
    let rows = vec![1, 3];
    let cells = wb.remove_rows(0, &rows).unwrap();
    assert_eq!(cells.len(), 2);
    assert_eq!(cells[0][1].value, "1");
    assert_eq!(cells[1][2].value, "6");
    {
        let sheet = wb.get_current_sheet();
        assert_eq!(sheet.max_rows, 2);
        assert_eq!(sheet.data.len(), 3);
        assert_eq!(sheet.data[1][1].value, "3");
        assert_eq!(sheet.data[2][1].value, "7");
    }
    assert_eq!(wb.insert_rows(0, &rows, cells), Ok(()));
    assert_eq!(wb.get_current_sheet(), &before);
}

#[test]
fn columns_come_out_and_go_back_in() {
    let mut wb = open_workbook(
        "b.xlsx".to_string(),
        vec![source("S", &[&["1", "2", "3"], &["4", "5", "6"]])],
        false,
    )
    .unwrap();
    let before = wb.get_current_sheet().clone();
    let cols = vec![1, 3];
    let cells = wb.remove_columns(0, &cols).unwrap();
    // One run for each row of the grid, the margin row too.
    assert_eq!(cells.len(), 3);
    assert_eq!(cells[1][0].value, "1");
    assert_eq!(cells[1][1].value, "3");
    assert_eq!(cells[2][1].value, "6");
    {
        let sheet = wb.get_current_sheet();
        assert_eq!(sheet.max_cols, 1);
        assert_eq!(sheet.data[1].len(), 2);
        assert_eq!(sheet.data[1][1].value, "2");
        assert_eq!(sheet.data[2][1].value, "5");
    }
    assert_eq!(wb.insert_columns(0, &cols, cells), Ok(()));
    assert_eq!(wb.get_current_sheet(), &before);
}

#[test]
fn structural_edits_reject_what_does_not_fit() {
    let mut wb = two_sheets();
    assert_eq!(wb.remove_rows(0, &vec![0]).err(), Some(EngineError::OutOfRange));
    assert_eq!(wb.remove_rows(0, &vec![3]).err(), Some(EngineError::OutOfRange));
    assert_eq!(wb.remove_rows(0, &vec![2, 1]).err(), Some(EngineError::OutOfRange));
    assert_eq!(wb.remove_rows(0, &vec![]).err(), Some(EngineError::OutOfRange));
    assert_eq!(wb.remove_rows(5, &vec![1]).err(), Some(EngineError::OutOfRange));
    assert_eq!(wb.remove_columns(0, &vec![0]).err(), Some(EngineError::OutOfRange));
    assert_eq!(wb.remove_columns(0, &vec![3]).err(), Some(EngineError::OutOfRange));
    // A row of the wrong width does not fit.
    assert_eq!(
        wb.insert_rows(0, &vec![1], vec![vec![Cell::empty()]]),
        Err(EngineError::OutOfRange)
    );
    // A row far behind the populated region does not fit.
    assert_eq!(
        wb.insert_rows(0, &vec![4], vec![vec![Cell::empty(), Cell::empty(), Cell::empty()]]),
        Err(EngineError::OutOfRange)
    );
    // Columns need one run of cells for each row of the grid.
    assert_eq!(
        wb.insert_columns(0, &vec![1], vec![vec![Cell::empty()]]),
        Err(EngineError::OutOfRange)
    );
    assert!(!wb.is_modified());
}

#[test]
fn sheets_come_out_and_go_back_in() {
    let mut wb = two_sheets();
    let sheet = wb.remove_sheet(0).unwrap();
    assert_eq!(sheet.name, "First");
    assert_eq!(wb.get_sheet_names(), vec!["Second".to_string()]);
    assert_eq!(wb.get_current_sheet_index(), 0);
    assert_eq!(wb.remove_sheet(0).err(), Some(EngineError::LastSheet));
    assert_eq!(wb.remove_sheet(1).err(), Some(EngineError::OutOfRange));
    assert_eq!(wb.insert_sheet(0, sheet), Ok(()));
    assert_eq!(wb.get_sheet_names(), vec!["First".to_string(), "Second".to_string()]);
    assert_eq!(wb.get_current_sheet_index(), 0);
}

#[test]
fn removing_the_last_sheet_in_order_moves_the_current_index_back() {
    let mut wb = two_sheets();
    wb.switch_sheet(1).unwrap();
    let sheet = wb.remove_sheet(1).unwrap();
    assert_eq!(sheet.name, "Second");
    assert_eq!(wb.get_current_sheet_index(), 0);
    let mut other = two_sheets();
    other.switch_sheet(1).unwrap();
    other.remove_sheet(0).unwrap();
    assert_eq!(other.get_current_sheet_index(), 0);
    assert_eq!(other.get_current_sheet_name(), "Second");
}

#[test]
fn insert_sheet_rejects_a_malformed_sheet() {
    let mut wb = two_sheets();
    let ragged = Sheet {
        name: "R".to_string(),
        data: vec![vec![Cell::empty(), Cell::empty()], vec![Cell::empty()]],
        max_rows: 1,
        max_cols: 1,
        is_loaded: true,
    };
    assert!(!ragged.is_wf());
    assert_eq!(wb.insert_sheet(0, ragged), Err(EngineError::OutOfRange));
    assert_eq!(wb.insert_sheet(3, Sheet::unloaded("U".to_string())), Err(EngineError::OutOfRange));
    assert_eq!(wb.sheet_count(), 2);
}

#[test]
fn error_messages() {
    assert_eq!(EngineError::OutOfRange.message(), "Index out of range");
    assert_eq!(EngineError::NothingToUndo.message(), "Nothing to undo");
    assert_eq!(EngineError::NothingToRedo.message(), "Nothing to redo");
    assert_eq!(EngineError::EmptyClipboard.message(), "Clipboard is empty");
    assert_eq!(EngineError::NoWorksheets.message(), "No worksheets found in file");
    assert_eq!(EngineError::LastSheet.message(), "Cannot delete the only sheet");
    assert_eq!(
        EngineError::LoadFailed("S".to_string(), "why".to_string()).message(),
        "Unable to read worksheet S: why"
    );
    assert_eq!(EngineError::SaveFailed("why".to_string()).message(), "Unable to save: why");
}

#[test]
fn a_sheet_that_was_not_read_has_no_grid() {
    let fresh = Sheet::unloaded("U".to_string());
    assert!(fresh.is_wf());
    assert!(!fresh.is_loaded);
    assert!(fresh.data.is_empty());
    let odd = Sheet {
        name: "O".to_string(),
        data: vec![vec![Cell::empty()]],
        max_rows: 0,
        max_cols: 0,
        is_loaded: false,
    };
    assert!(!odd.is_wf());
    let bounds = Sheet {
        name: "B".to_string(),
        data: vec![vec![Cell::empty(), Cell::empty()]],
        max_rows: 1,
        max_cols: 1,
        is_loaded: true,
    };
    assert!(!bounds.is_wf());
    let mut wb = two_sheets();
    assert!(wb.is_wf());
    assert_eq!(wb.insert_sheet(0, odd), Err(EngineError::OutOfRange));
}

#[test]
fn only_the_first_sheet_is_read_at_once_when_loading_lazily() {
    assert!(read_at_open(0, false));
    assert!(read_at_open(3, false));
    assert!(read_at_open(0, true));
    assert!(!read_at_open(1, true));
    assert!(!read_at_open(7, true));
}

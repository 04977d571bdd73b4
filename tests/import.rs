use grid_import::columnar::{columnar_operations, ColumnBatch};
use grid_import::csv_import::IMPORT_LINES_PER_OPERATION;
use grid_import::encoding::read_utf16;
use grid_import::infer::{infer_value, numeral};
use grid_import::operation::{GridController, ImportError, Operation};
use grid_import::order::order_keys;
use grid_import::value::{CellValue, CellValues, Pos, SheetId, SheetPos};
use grid_import::csv_import::{records_operations, NoProgress};
use grid_import::workbook::{coerce_cell, sheet_from_cells, SourceCell, SourceSheet};

fn text(s: &str) -> CellValue {
    CellValue::Text(s.to_string())
}

fn number(s: &str) -> CellValue {
    CellValue::Number(s.to_string())
}

fn utf16_le(s: &str) -> Vec<u8> {
    s.encode_utf16().flat_map(|u| u.to_le_bytes()).collect()
}

fn write_of(op: &Operation) -> (SheetPos, &CellValues) {
    match op {
        Operation::SetCellValues { sheet_pos, values } => (*sheet_pos, values),
        _ => panic!("Expected SetCellValues operation"),
    }
}

#[test]
fn transmute_u8_to_u16() {
    let bytes = utf16_le("issue, test, value\r\n0, 1, Invalid\r\n0, 2, Valid");
    let result = read_utf16(&bytes).unwrap();
    assert_eq!("issue, test, value\r\n0, 1, Invalid\r\n0, 2, Valid", result);
}

#[test]
fn imports_a_simple_csv() {
    let mut gc = GridController::new();
    let sheet_id = SheetId { id: 0 };
    let pos = Pos { x: 0, y: 0 };

    let simple_csv = "city,region,country,population\nSouthborough,MA,United States,a lot of people";

    let ops = gc.import_csv_operations(sheet_id, simple_csv.as_bytes(), "smallpop.csv", pos);
    assert_eq!(ops.as_ref().unwrap().len(), 1);
    assert_eq!(
        ops.unwrap()[0],
        Operation::SetCellValues {
            sheet_pos: SheetPos { x: 0, y: 0, sheet_id },
            values: CellValues::from_rows(
                4,
                vec![
                    vec![text("city"), text("region"), text("country"), text("population")],
                    vec![
                        text("Southborough"),
                        text("MA"),
                        text("United States"),
                        text("a lot of people")
                    ],
                ]
            ),
        }
    );
}

#[test]
fn imports_a_long_csv() {
    let mut gc = GridController::new();
    let sheet_id = SheetId { id: 0 };
    let pos = Pos { x: 1, y: 2 };

    let mut csv = String::new();
    for i in 0..IMPORT_LINES_PER_OPERATION * 2 + 150 {
        csv.push_str(&format!("city{},MA,United States,{}\n", i, i * 1000));
    }

    let ops = gc.import_csv_operations(sheet_id, csv.as_bytes(), "long.csv", pos);
    assert_eq!(ops.as_ref().unwrap().len(), 3);
    let first_pos = write_of(&ops.as_ref().unwrap()[0]).0;
    let second_pos = write_of(&ops.as_ref().unwrap()[1]).0;
    let third_pos = write_of(&ops.as_ref().unwrap()[2]).0;
    assert_eq!(first_pos.x, 1);
    assert_eq!(second_pos.x, 1);
    assert_eq!(third_pos.x, 1);
    assert_eq!(first_pos.y, 2);
    assert_eq!(second_pos.y, 2 + IMPORT_LINES_PER_OPERATION as i64);
    assert_eq!(third_pos.y, 2 + IMPORT_LINES_PER_OPERATION as i64 * 2);

    let first_values = write_of(&ops.as_ref().unwrap()[0]).1;
    assert_eq!(first_values.get(0, 0), Some(&CellValue::Text("city0".into())));
}

#[test]
fn long_csv_chunks_partition_the_rows() {
    let mut gc = GridController::new();
    let mut csv = String::new();
    for i in 0..20150 {
        csv.push_str(&format!("r{},{}\n", i, i));
    }
    let ops = gc
        .import_csv_operations(SheetId { id: 3 }, csv.as_bytes(), "rows.csv", Pos { x: 1, y: 2 })
        .unwrap();
    assert_eq!(ops.len(), 3);
    let heights: Vec<u32> = ops.iter().map(|op| write_of(op).1.h).collect();
    assert_eq!(heights, vec![10000, 10000, 150]);
    let (p, v) = write_of(&ops[1]);
    assert_eq!(p.y, 10002);
    assert_eq!(v.get(0, 0), Some(&text("r10000")));
    assert_eq!(v.get(1, 9999), Some(&number("19999")));
    let (p, v) = write_of(&ops[2]);
    assert_eq!(p.y, 20002);
    assert_eq!(v.get(0, 149), Some(&text("r20149")));
    assert_eq!(v.get(0, 150), None);
}

#[test]
fn exact_multiple_of_chunk_gives_no_empty_block() {
    let mut gc = GridController::new();
    let csv = "x\n".repeat(10000);
    let ops = gc
        .import_csv_operations(SheetId { id: 0 }, csv.as_bytes(), "even.csv", Pos { x: 0, y: 0 })
        .unwrap();
    assert_eq!(ops.len(), 1);
    assert_eq!(write_of(&ops[0]).1.h, 10000);

    let csv = "x\n".repeat(10001);
    let ops = gc
        .import_csv_operations(SheetId { id: 0 }, csv.as_bytes(), "odd.csv", Pos { x: 0, y: -5 })
        .unwrap();
    assert_eq!(ops.len(), 2);
    assert_eq!(write_of(&ops[1]).0.y, 9995);
    assert_eq!(write_of(&ops[1]).1.h, 1);
}

#[test]
fn empty_file_is_rejected() {
    let mut gc = GridController::new();
    let r = gc.import_csv_operations(SheetId { id: 0 }, b"", "empty.csv", Pos { x: 0, y: 0 });
    assert_eq!(r, Err(ImportError::EmptyFile { file_name: "empty.csv".to_string() }));
}

#[test]
fn malformed_record_reports_its_line() {
    let mut gc = GridController::new();
    let bytes: Vec<u8> = b"a,b\nc,d\n\xff,ee\n".to_vec();
    let r = gc.import_csv_operations(SheetId { id: 0 }, &bytes, "bad.csv", Pos { x: 0, y: 0 });
    match r {
        Err(ImportError::MalformedRecord { file_name, line, .. }) => {
            assert_eq!(file_name, "bad.csv");
            assert_eq!(line, 3);
        }
        other => panic!("unexpected {:?}", other),
    }
}

#[test]
fn rows_past_the_largest_position_are_refused() {
    let mut gc = GridController::new();
    let r = gc.import_csv_operations(SheetId { id: 0 }, b"a\nb\n", "far.csv", Pos { x: 0, y: i64::MAX });
    assert_eq!(r, Err(ImportError::OutOfRange { file_name: "far.csv".to_string() }));
    let r = gc.import_csv_operations(SheetId { id: 0 }, b"a\n", "edge.csv", Pos { x: 0, y: i64::MAX });
    assert!(r.is_ok());
}

#[test]
fn ragged_rows_and_inferred_values() {
    let mut gc = GridController::new();
    let csv = "name,amount,note\n1,-2.5,\nx\nq,1.2.3,7,extra\n";
    let ops = gc
        .import_csv_operations(SheetId { id: 0 }, csv.as_bytes(), "mixed.csv", Pos { x: 0, y: 0 })
        .unwrap();
    let v = write_of(&ops[0]).1;
    assert_eq!((v.w, v.h), (3, 4));
    assert_eq!(v.get(0, 1), Some(&number("1")));
    assert_eq!(v.get(1, 1), Some(&number("-2.5")));
    assert_eq!(v.get(2, 1), Some(&CellValue::Blank));
    assert_eq!(v.get(0, 2), Some(&text("x")));
    assert_eq!(v.get(1, 2), Some(&CellValue::Blank));
    assert_eq!(v.get(1, 3), Some(&text("1.2.3")));
    assert_eq!(v.get(2, 3), Some(&number("7")));
    assert_eq!(v.get(3, 3), None);
}

#[test]
fn numerals() {
    assert!(numeral("0"));
    assert!(numeral("-12.50"));
    assert!(!numeral("-"));
    assert!(!numeral("1."));
    assert!(!numeral(".5"));
    assert!(!numeral("1e5"));
    assert_eq!(infer_value(&String::new()), CellValue::Blank);
    assert_eq!(infer_value(&"42".to_string()), number("42"));
    assert_eq!(infer_value(&"city0".to_string()), text("city0"));
}

#[test]
fn utf16_input_is_recovered_before_parsing() {
    let mut gc = GridController::new();
    let bytes = utf16_le("\u{e9},b\n1,2\n");
    let ops = gc
        .import_csv_operations(SheetId { id: 0 }, &bytes, "wide.csv", Pos { x: 0, y: 0 })
        .unwrap();
    let v = write_of(&ops[0]).1;
    assert_eq!((v.w, v.h), (2, 2));
    assert_eq!(v.get(0, 0), Some(&text("\u{e9}")));
    assert_eq!(v.get(1, 0), Some(&text("b")));
    assert_eq!(v.get(1, 1), Some(&number("2")));
}

#[test]
fn recovery_drops_wide_characters_and_refuses_odd_lengths() {
    assert_eq!(read_utf16(&utf16_le("a\u{20ac}b\u{1F600}c")), Some("abc".to_string()));
    assert_eq!(read_utf16(&utf16_le("caf\u{e9}")), Some("caf\u{e9}".to_string()));
    assert_eq!(read_utf16(&[0x61, 0x00, 0x62]), None);
    assert_eq!(read_utf16(&[]), None);
    assert_eq!(read_utf16(&[0x00, 0xD8]), None);
}

#[test]
fn reimport_is_identical() {
    let mut gc = GridController::new();
    let csv = "a,b\n1,2\n3,x\n";
    let first = gc.import_csv_operations(SheetId { id: 1 }, csv.as_bytes(), "t.csv", Pos { x: 4, y: 5 });
    let second = gc.import_csv_operations(SheetId { id: 1 }, csv.as_bytes(), "t.csv", Pos { x: 4, y: 5 });
    assert_eq!(first, second);
    assert!(first.is_ok());
}

#[test]
fn ordering_keys_increase() {
    let keys = order_keys(5);
    assert_eq!(keys.len(), 5);
    assert_eq!(keys[0], "a0");
    for i in 0..4 {
        assert!(keys[i] < keys[i + 1]);
    }
    assert_eq!(order_keys(0).len(), 0);
    let many = order_keys(3000);
    for i in 0..2999 {
        assert!(many[i] < many[i + 1]);
    }
}

#[test]
fn workbook_cells_are_coerced() {
    assert_eq!(coerce_cell(&SourceCell::Empty), CellValue::Blank);
    assert_eq!(coerce_cell(&SourceCell::String("hi".into())), text("hi"));
    assert_eq!(coerce_cell(&SourceCell::Float("1.5".into())), number("1.5"));
    assert_eq!(coerce_cell(&SourceCell::Float("NaN".into())), CellValue::Blank);
    assert_eq!(coerce_cell(&SourceCell::Int("-7".into())), number("-7"));
    assert_eq!(coerce_cell(&SourceCell::Bool(true)), CellValue::Logical(true));
    assert_eq!(coerce_cell(&SourceCell::Error), CellValue::Blank);
    assert_eq!(coerce_cell(&SourceCell::DateTimeIso("2024-01-02".into())), text("2024-01-02"));
    assert_eq!(coerce_cell(&SourceCell::DurationIso("PT1H".into())), text("PT1H"));
    let dt = SourceCell::DateTime {
        is_datetime: true,
        datetime: Some("2024-01-02 03:04:05".into()),
        text: "45293.1".into(),
    };
    assert_eq!(coerce_cell(&dt), text("2024-01-02 03:04:05"));
    let bad = SourceCell::DateTime { is_datetime: true, datetime: None, text: "1e9".into() };
    assert_eq!(coerce_cell(&bad), text("1e9"));
    let dur = SourceCell::DateTime { is_datetime: false, datetime: None, text: "1.5".into() };
    assert_eq!(coerce_cell(&dur), text("1.5"));
}

#[test]
fn sheet_from_workbook_cells() {
    let cells = vec![
        vec![SourceCell::String("a".into()), SourceCell::Int("2".into())],
        vec![SourceCell::Bool(false), SourceCell::Empty],
    ];
    let sheet = sheet_from_cells(SheetId { id: 9 }, "S".into(), "a0".into(), 2, &cells);
    assert_eq!(sheet.id, SheetId { id: 9 });
    assert_eq!(sheet.order, "a0");
    assert_eq!(sheet.values.get(1, 0), Some(&number("2")));
    assert_eq!(sheet.values.get(0, 1), Some(&CellValue::Logical(false)));
    assert_eq!(sheet.values.get(1, 1), Some(&CellValue::Blank));
}

fn source_sheet(name: &str, cells: Vec<Vec<SourceCell>>) -> SourceSheet {
    let width = cells.first().map(|r| r.len()).unwrap_or(0) as u32;
    SourceSheet { name: name.to_string(), width, cells }
}

#[test]
fn workbook_sheets_become_new_sheets_in_order() {
    let mut gc = GridController::new();
    let sheets = vec![
        source_sheet("First", vec![vec![SourceCell::String("a".into()), SourceCell::Float("2.5".into())]]),
        source_sheet("Second", vec![vec![SourceCell::Error], vec![SourceCell::Bool(true)]]),
        source_sheet("Third", vec![]),
    ];
    let ops = gc.import_excel_operations(&sheets, 40, "book.xlsx").unwrap();
    assert_eq!(gc, GridController::new());
    assert_eq!(ops.len(), 3);
    let sheet = |i: usize| match &ops[i] {
        Operation::AddSheet { sheet } => sheet.clone(),
        _ => panic!("Expected AddSheet operation"),
    };
    assert_eq!(sheet(0).name, "First");
    assert_eq!(sheet(0).id, SheetId { id: 40 });
    assert_eq!(sheet(2).id, SheetId { id: 42 });
    assert_eq!(sheet(0).order, "a0");
    assert!(sheet(0).order < sheet(1).order);
    assert!(sheet(1).order < sheet(2).order);
    assert_eq!(sheet(0).values.get(1, 0), Some(&number("2.5")));
    assert_eq!(sheet(1).values.get(0, 0), Some(&CellValue::Blank));
    assert_eq!(sheet(1).values.get(0, 1), Some(&CellValue::Logical(true)));
    assert_eq!((sheet(2).values.w, sheet(2).values.h), (0, 0));

    let again = gc.import_excel_operations(&sheets, 40, "book.xlsx").unwrap();
    assert_eq!(ops, again);
}

#[test]
fn workbook_ids_past_the_largest_are_refused() {
    let mut gc = GridController::new();
    let sheets = vec![source_sheet("A", vec![]), source_sheet("B", vec![])];
    let r = gc.import_excel_operations(&sheets, u64::MAX, "big.xlsx");
    assert_eq!(r, Err(ImportError::OutOfRange { file_name: "big.xlsx".to_string() }));
    assert!(gc.import_excel_operations(&sheets[..1].to_vec(), u64::MAX, "big.xlsx").is_ok());
}

#[test]
fn records_are_placed_directly() {
    let recs: Vec<Result<Vec<String>, String>> = vec![
        Ok(vec!["h".to_string(), "k".to_string()]),
        Ok(vec!["3".to_string()]),
        Err("bad".to_string()),
    ];
    let r = records_operations(&recs, 3, SheetId { id: 0 }, "r.csv", Pos { x: 0, y: 0 }, &mut NoProgress);
    assert_eq!(
        r,
        Err(ImportError::MalformedRecord { file_name: "r.csv".to_string(), line: 3, message: "bad".to_string() })
    );
    let ops = records_operations(&recs[..2].to_vec(), 2, SheetId { id: 0 }, "r.csv", Pos { x: 0, y: 0 }, &mut NoProgress)
        .unwrap();
    let v = write_of(&ops[0]).1;
    assert_eq!(v.get(0, 1), Some(&number("3")));
    assert_eq!(v.get(1, 1), Some(&CellValue::Blank));
}

#[test]
fn columnar_batches_stack_below_the_header() {
    let headers = vec!["n".to_string(), "s".to_string()];
    let batches = vec![
        ColumnBatch { num_rows: 2, columns: vec![vec![number("1"), number("2")], vec![text("a"), text("b")]] },
        ColumnBatch { num_rows: 1, columns: vec![vec![number("3")], vec![text("c")]] },
    ];
    let mut recorder = Recorder { calls: Vec::new() };
    let ops = columnar_operations(SheetId { id: 2 }, &headers, &batches, 3, "t.parquet", Pos { x: 10, y: 20 }, &mut recorder)
        .unwrap();
    assert_eq!(recorder.calls.len(), 4);
    assert_eq!(recorder.calls[1], ("t.parquet".to_string(), 2, 3, 10, 20, 2, 2));
    assert_eq!(recorder.calls[3], ("t.parquet".to_string(), 3, 3, 10, 20, 2, 2));
    assert_eq!(ops.len(), 5);
    let (p, v) = write_of(&ops[0]);
    assert_eq!((p.x, p.y), (10, 20));
    assert_eq!(v.get(1, 0), Some(&text("s")));
    let (p, v) = write_of(&ops[2]);
    assert_eq!((p.x, p.y), (11, 21));
    assert_eq!(v.get(0, 1), Some(&text("b")));
    let (p, v) = write_of(&ops[3]);
    assert_eq!((p.x, p.y), (10, 23));
    assert_eq!((v.w, v.h), (1, 1));
    assert_eq!(v.get(0, 0), Some(&number("3")));
    let (p, _) = write_of(&ops[4]);
    assert_eq!((p.x, p.y), (11, 23));

    let mut gc = GridController::new();
    let far = gc.import_parquet_operations(SheetId { id: 2 }, &headers, &batches, 3, "t.parquet", Pos { x: i64::MAX, y: 0 });
    assert_eq!(far, Err(ImportError::OutOfRange { file_name: "t.parquet".to_string() }));
}

#[test]
fn blocks_report_their_cells() {
    let b = CellValues::new(2, 3);
    assert_eq!(b.get(1, 2), Some(&CellValue::Blank));
    assert_eq!(b.get(2, 0), None);
    let r = CellValues::from_row(vec![text("a"), number("1")]);
    assert_eq!((r.w, r.h), (2, 1));
    assert_eq!(r.get(1, 0), Some(&number("1")));
    assert_eq!(text("q").duplicate(), text("q"));
}

struct Recorder {
    calls: Vec<(String, u64, u64, i64, i64, u32, u64)>,
}

impl grid_import::csv_import::ImportProgress for Recorder {
    fn notify(&mut self, file_name: &str, current: u64, total: u64, x: i64, y: i64, width: u32, height: u64) {
        self.calls.push((file_name.to_string(), current, total, x, y, width, height));
    }
}

#[test]
fn progress_is_told_after_each_full_block() {
    let mut gc = GridController::new();
    let csv = "a,b\n".repeat(20150);
    let mut recorder = Recorder { calls: Vec::new() };
    let with = gc
        .import_csv_operations_with_progress(SheetId { id: 0 }, csv.as_bytes(), "p.csv", Pos { x: 1, y: 2 }, &mut recorder)
        .unwrap();
    assert_eq!(
        recorder.calls,
        vec![
            ("p.csv".to_string(), 10000, 20150, 1, 2, 2, 20150),
            ("p.csv".to_string(), 20000, 20150, 1, 2, 2, 20150),
        ]
    );
    let mut full = Recorder { calls: Vec::new() };
    let even = "a\n".repeat(20000);
    gc.import_csv_operations_with_progress(SheetId { id: 0 }, even.as_bytes(), "e.csv", Pos { x: 0, y: 0 }, &mut full)
        .unwrap();
    assert_eq!(full.calls.len(), 2);
    assert_eq!(full.calls[1].1, 20000);
    let without = gc
        .import_csv_operations(SheetId { id: 0 }, csv.as_bytes(), "p.csv", Pos { x: 1, y: 2 })
        .unwrap();
    assert_eq!(with, without);
}

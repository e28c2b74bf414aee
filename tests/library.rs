use vizualizer::aggregate::aggregate;
use vizualizer::data::{Column, DataType, DataValue, Worksheet};
use vizualizer::dates::{MAX_DAY, MIN_DAY};
use vizualizer::engine::{run_query, select_columns, QueryResult};
use vizualizer::ingest::{build_sheet, convert_cell, excel_serial_to_date, infer_type, parse_iso_date, RawCell};
use vizualizer::numfmt::{format_decimal, nat_to_string};
use vizualizer::project::{ChartType, VizProject};
use vizualizer::query::{Aggregation, QuerySpec};

fn text(s: &str) -> DataValue {
    DataValue::String(s.to_string())
}

fn num(units: i64) -> DataValue {
    DataValue::Number(units * 1_000_000)
}

fn column(name: &str, values: Vec<DataValue>) -> Column {
    let data_type = infer_type(&values);
    Column { name: name.to_string(), data_type, values }
}

fn sheet(columns: Vec<Column>) -> Worksheet {
    let row_count = columns.first().map(|c| c.len()).unwrap_or(0);
    Worksheet { name: "Sheet1".to_string(), columns, row_count }
}

fn query(dims: &[&str], measures: &[&str], aggs: Vec<Aggregation>) -> QuerySpec {
    QuerySpec {
        rows: dims.iter().map(|s| s.to_string()).collect(),
        columns: measures.iter().map(|s| s.to_string()).collect(),
        aggregations: aggs,
        filters: Vec::new(),
    }
}

fn strings(v: &[&str]) -> Vec<String> {
    v.iter().map(|s| s.to_string()).collect()
}

#[test]
fn text_dominates_inference() {
    let values = vec![num(1), DataValue::Boolean(true), DataValue::Date(738900), text("x"), DataValue::Empty];
    assert_eq!(infer_type(&values), DataType::String);
}

#[test]
fn number_beats_boolean() {
    let values = vec![DataValue::Boolean(true), num(1), DataValue::Empty];
    assert_eq!(infer_type(&values), DataType::Number);
}

#[test]
fn inference_of_each_kind() {
    assert_eq!(infer_type(&[DataValue::Date(1), num(2)]), DataType::Date);
    assert_eq!(infer_type(&[DataValue::Boolean(false), DataValue::Empty]), DataType::Boolean);
    assert_eq!(infer_type(&[num(2), DataValue::Empty]), DataType::Number);
    assert_eq!(infer_type(&[DataValue::Empty]), DataType::Empty);
    assert_eq!(infer_type(&[]), DataType::Empty);
}

#[test]
fn short_rows_leave_columns_short() {
    let rows = vec![
        vec![RawCell::Text("A".to_string()), RawCell::Int(5)],
        vec![RawCell::Int(1), RawCell::Int(2), RawCell::Int(3)],
        vec![RawCell::Int(4)],
        vec![RawCell::Int(6), RawCell::Bool(true)],
    ];
    let w = build_sheet("S".to_string(), &rows);
    assert_eq!(w.name, "S");
    assert_eq!(w.columns.len(), 2);
    assert_eq!(w.columns[0].name, "A");
    assert_eq!(w.columns[1].name, "Column 2");
    assert_eq!(w.row_count, 3);
    assert_eq!(w.columns[0].values, vec![num(1), num(4), num(6)]);
    assert_eq!(w.columns[1].values, vec![num(2), DataValue::Boolean(true)]);
    assert_eq!(w.columns[0].data_type, DataType::Number);
    assert_eq!(w.columns[1].data_type, DataType::Number);
    assert_eq!(w.columns[1].value_at(2), DataValue::Empty);
    assert_eq!(w.columns[1].value_at(1), DataValue::Boolean(true));
}

#[test]
fn sheet_without_rows() {
    let w = build_sheet("Empty".to_string(), &Vec::new());
    assert_eq!(w.columns.len(), 0);
    assert_eq!(w.row_count, 0);
}

#[test]
fn empty_series_reads_zero() {
    let s = sheet(vec![column("K", vec![text("a"), text("a")]), column("V", vec![text("n/a"), DataValue::Empty])]);
    let spec = query(&["K"], &["V"], vec![Aggregation::Sum, Aggregation::Avg, Aggregation::Count, Aggregation::Min, Aggregation::Max]);
    let r = run_query(&s, &spec);
    assert_eq!(r.rows, vec![strings(&["a", "0", "0", "0", "0", "0"])]);
    assert!(aggregate(Aggregation::Avg, &Vec::new()) == 0);
}

#[test]
fn preview_is_capped() {
    let values: Vec<DataValue> = (0..100).map(num).collect();
    let labels: Vec<DataValue> = (0..100).map(|i| text(&format!("r{i}"))).collect();
    let s = sheet(vec![column("N", values), column("L", labels)]);
    let r: QueryResult = run_query(&s, &QuerySpec::empty());
    assert_eq!(r.rows.len(), 25);
    assert_eq!(r.headers, strings(&["N", "L"]));
    assert_eq!(r.rows[24], strings(&["24", "r24"]));
}

#[test]
fn preview_of_short_sheet_reads_missing_as_empty() {
    let s = Worksheet {
        name: "S".to_string(),
        columns: vec![column("A", vec![num(1), num(2)]), column("B", vec![DataValue::Boolean(false)])],
        row_count: 2,
    };
    let r = run_query(&s, &QuerySpec::empty());
    assert_eq!(r.rows, vec![strings(&["1", "false"]), strings(&["2", ""])]);
}

#[test]
fn grouping_by_region() {
    let s = sheet(vec![
        column("Region", vec![text("East"), text("West"), text("East")]),
        column("Sales", vec![num(10), num(20), num(30)]),
    ]);
    let spec = query(&["Region"], &["Sales"], vec![Aggregation::Sum, Aggregation::Count]);
    let r = run_query(&s, &spec);
    assert_eq!(r.headers, strings(&["Region", "Sales (Sum)", "Sales (Count)"]));
    assert_eq!(r.rows, vec![strings(&["East", "40", "2"]), strings(&["West", "20", "1"])]);
}

#[test]
fn grouping_with_two_dimensions_and_all_aggregations() {
    let s = sheet(vec![
        column("R", vec![text("E"), text("E"), text("W"), text("E")]),
        column("Y", vec![num(1), num(2), num(1), num(1)]),
        column("V", vec![DataValue::Number(2_500_000), num(-4), text("x"), num(3)]),
    ]);
    let spec = query(&["R", "Y"], &["V"], vec![Aggregation::Sum, Aggregation::Avg, Aggregation::Count, Aggregation::Min, Aggregation::Max]);
    let r = run_query(&s, &spec);
    assert_eq!(r.headers, strings(&["R", "Y", "V (Sum)", "V (Avg)", "V (Count)", "V (Min)", "V (Max)"]));
    assert_eq!(
        r.rows,
        vec![
            strings(&["E", "1", "5.5", "2.75", "2", "2.5", "3"]),
            strings(&["E", "2", "-4", "-4", "1", "-4", "-4"]),
            strings(&["W", "1", "0", "0", "0", "0", "0"]),
        ]
    );
}

#[test]
fn average_rounds_toward_zero() {
    let series = vec![10_000_000i64, 0, 0];
    assert_eq!(aggregate(Aggregation::Avg, &series), 3_333_333);
    let negative = vec![-10_000_000i64, 0, 0];
    assert_eq!(aggregate(Aggregation::Avg, &negative), -3_333_333);
}

#[test]
fn date_serial_round_trip() {
    let v = convert_cell(&RawCell::Serial(45306));
    let expected = chrono::Datelike::num_days_from_ce(&chrono::NaiveDate::from_ymd_opt(2024, 1, 15).unwrap());
    assert_eq!(v, DataValue::Date(expected));
    assert_eq!(v.display_string(), "2024-01-15");
    assert_eq!(excel_serial_to_date(0), Some(693594));
    assert_eq!(excel_serial_to_date(i64::MAX), None);
    assert_eq!(convert_cell(&RawCell::Serial(i64::MIN)), text("-9223372036854775808"));
    assert_eq!(convert_cell(&RawCell::Serial(200_000_000)), text("200000000"));
}

#[test]
fn serial_dates_stay_within_the_calendar() {
    let first = chrono::Datelike::num_days_from_ce(&chrono::NaiveDate::MIN) as i64;
    let last = chrono::Datelike::num_days_from_ce(&chrono::NaiveDate::MAX) as i64;
    assert_eq!(first, MIN_DAY);
    assert_eq!(last, MAX_DAY);
    assert_eq!(excel_serial_to_date(MAX_DAY - 693594), Some(MAX_DAY as i32));
    assert_eq!(excel_serial_to_date(MAX_DAY - 693594 + 1), None);
    assert_eq!(excel_serial_to_date(MIN_DAY - 693594), Some(MIN_DAY as i32));
    assert_eq!(excel_serial_to_date(MIN_DAY - 693594 - 1), None);
    assert_eq!(DataValue::Date(MAX_DAY as i32).display_string(), "+262142-12-31");
}

#[test]
fn columns_follow_the_query_order() {
    let s = sheet(vec![
        column("A", vec![text("a1"), text("a2")]),
        column("B", vec![text("b1"), text("b2")]),
        column("X", vec![num(1), num(2)]),
        column("Y", vec![num(10), num(20)]),
    ]);
    let spec = query(&["B", "A"], &["Y", "X"], vec![Aggregation::Sum]);
    let r = run_query(&s, &spec);
    assert_eq!(r.headers, strings(&["B", "A", "Y (Sum)", "X (Sum)"]));
    assert_eq!(r.rows, vec![strings(&["b1", "a1", "10", "1"]), strings(&["b2", "a2", "20", "2"])]);
    assert_eq!(select_columns(&s, &strings(&["Y", "nope", "A"])), vec![3, 0]);
}

#[test]
fn unknown_columns_are_dropped() {
    let s = sheet(vec![
        column("Region", vec![text("East"), text("West")]),
        column("Sales", vec![num(1), num(2)]),
    ]);
    let spec = query(&["Nope", "Region"], &["Sales", "Missing"], vec![Aggregation::Max]);
    let r = run_query(&s, &spec);
    assert_eq!(r.headers, strings(&["Region", "Sales (Max)"]));
    assert_eq!(r.rows, vec![strings(&["East", "1"]), strings(&["West", "2"])]);
    let only_unknown = query(&["Nope"], &[], vec![Aggregation::Sum]);
    let r2 = run_query(&s, &only_unknown);
    assert_eq!(r2.headers, Vec::<String>::new());
    assert_eq!(r2.rows, vec![Vec::<String>::new()]);
}

#[test]
fn iso_dates_parse_or_stay_text() {
    let d = parse_iso_date("2024-01-15").unwrap();
    assert_eq!(d.display_string(), "2024-01-15");
    assert_eq!(parse_iso_date("15/01/2024"), None);
    assert_eq!(convert_cell(&RawCell::IsoText("2024-02-30".to_string())), text("2024-02-30"));
    assert_eq!(convert_cell(&RawCell::IsoText("2023-12-31".to_string())).data_type(), DataType::Date);
}

#[test]
fn raw_cells_convert() {
    assert_eq!(convert_cell(&RawCell::Int(3)), num(3));
    assert_eq!(convert_cell(&RawCell::Int(i64::MAX)), DataValue::Number(i64::MAX));
    assert_eq!(convert_cell(&RawCell::Int(i64::MIN)), DataValue::Number(i64::MIN));
    assert_eq!(convert_cell(&RawCell::Number(-125_000)), DataValue::Number(-125_000));
    assert_eq!(convert_cell(&RawCell::Bool(true)), DataValue::Boolean(true));
    assert_eq!(convert_cell(&RawCell::Empty), DataValue::Empty);
    assert_eq!(convert_cell(&RawCell::Other("#DIV/0!".to_string())), text("#DIV/0!"));
    assert_eq!(convert_cell(&RawCell::Text("".to_string())), text(""));
}

#[test]
fn display_strings() {
    assert_eq!(DataValue::Number(-125_000).display_string(), "-0.125");
    assert_eq!(DataValue::Number(40_000_000).display_string(), "40");
    assert_eq!(DataValue::Number(0).display_string(), "0");
    assert_eq!(DataValue::Boolean(false).display_string(), "false");
    assert_eq!(DataValue::Empty.display_string(), "");
    assert_eq!(text("hi").display_string(), "hi");
    assert_eq!(num(7).as_number(), Some(7_000_000));
    assert_eq!(text("7").as_number(), None);
    assert_eq!(DataValue::Boolean(true).data_type(), DataType::Boolean);
}

#[test]
fn decimal_formatting() {
    assert_eq!(format_decimal(1_000_001), "1.000001");
    assert_eq!(format_decimal(-2_500_000), "-2.5");
    assert_eq!(format_decimal(i128::MIN), "-170141183460469231731687303715884.105728");
    assert_eq!(nat_to_string(0), "0");
    assert_eq!(nat_to_string(1234567890), "1234567890");
}

#[test]
fn column_names_in_order() {
    let s = sheet(vec![column("B", vec![]), column("A", vec![]), column("B", vec![])]);
    assert_eq!(s.column_names(), strings(&["B", "A", "B"]));
}

#[test]
fn labels_and_defaults() {
    assert_eq!(ChartType::Scatter.label(), "Scatter");
    assert_eq!(ChartType::Table.label(), "Table");
    assert_eq!(Aggregation::Count.label(), "Count");
    let q = QuerySpec::empty();
    assert!(q.rows.is_empty() && q.columns.is_empty() && q.filters.is_empty());
    assert_eq!(q.aggregations, vec![Aggregation::Sum]);
    let p = VizProject::new();
    assert_eq!(p.workbook_path, None);
    assert_eq!(p.sheet, None);
    assert_eq!(p.chart_type, ChartType::Table);
}

use vstd::prelude::*;
use vstd::string::*;

use crate::data::{cell_at, type_of, view_of, views_of, CellView, Column, DataType, DataValue, Worksheet};
use crate::dates::{iso_date_days, parse_iso_days, MAX_DAY, MIN_DAY, SERIAL_EPOCH_DAYS};
use crate::numfmt::{int_text, int_to_string, nat_text, push_nat, SCALE};

verus! {

/// A cell as the spreadsheet reader yields it, before it is typed.
///
/// `Number` is a fixed-point decimal in millionths; `Int` an integer; `Serial` a
/// spreadsheet date serial, already truncated to whole days; `IsoText` a date written
/// as text; `Other` the text rendering of any other kind of cell.
#[derive(Debug, Clone, PartialEq)]
pub enum RawCell {
    Text(String),
    Number(i64),
    Int(i64),
    Bool(bool),
    Serial(i64),
    IsoText(String),
    Empty,
    Other(String),
}

/// An integer as a fixed-point number, saturated at the ends of `i64`.
pub open spec fn fixed_of_int(i: i64) -> i64 {
    let v = i * SCALE;
    if v > i64::MAX {
        i64::MAX
    } else if v < i64::MIN {
        i64::MIN
    } else {
        v as i64
    }
}

/// The day number of a spreadsheet serial day, when it falls within the calendar's
/// range (`MIN_DAY` to `MAX_DAY`).
pub open spec fn serial_day(serial: i64) -> Option<i32> {
    let d = serial + SERIAL_EPOCH_DAYS;
    if MIN_DAY <= d <= MAX_DAY {
        Some(d as i32)
    } else {
        None
    }
}

/// The typed value of a raw cell. A date serial outside the calendar's range is kept
/// as the text of the serial.
pub open spec fn converted(c: RawCell) -> CellView {
    match c {
        RawCell::Text(s) => CellView::Text(s@),
        RawCell::Number(n) => CellView::Number(n),
        RawCell::Int(i) => CellView::Number(fixed_of_int(i)),
        RawCell::Bool(b) => CellView::Boolean(b),
        RawCell::Serial(s) => match serial_day(s) {
            Some(d) => CellView::Date(d),
            None => CellView::Text(int_text(s as int)),
        },
        RawCell::IsoText(s) => match iso_date_days(s@) {
            Some(d) => CellView::Date(d as i32),
            None => CellView::Text(s@),
        },
        RawCell::Empty => CellView::Empty,
        RawCell::Other(s) => CellView::Text(s@),
    }
}

/// Whether some value of `vals` has type `t`.
pub open spec fn has_type(vals: Seq<DataValue>, t: DataType) -> bool {
    exists|i: int| 0 <= i < vals.len() && type_of(vals[i]) == t
}

/// The type of a column: text wins over dates, dates over numbers and booleans,
/// numbers over booleans; a column with none of these is empty.
pub open spec fn inferred_type(vals: Seq<DataValue>) -> DataType {
    if has_type(vals, DataType::String) {
        DataType::String
    } else if has_type(vals, DataType::Date) {
        DataType::Date
    } else if has_type(vals, DataType::Boolean) && !has_type(vals, DataType::Number) {
        DataType::Boolean
    } else if has_type(vals, DataType::Number) {
        DataType::Number
    } else {
        DataType::Empty
    }
}

/// The name of the column headed by `c`, at 0-based position `idx`.
pub open spec fn header_text(c: RawCell, idx: int) -> Seq<char> {
    match c {
        RawCell::Text(s) => s@,
        _ => seq!['C', 'o', 'l', 'u', 'm', 'n', ' '] + nat_text((idx + 1) as nat),
    }
}

/// The header row: the first row, or none.
pub open spec fn header_row(rows: Seq<Vec<RawCell>>) -> Seq<RawCell> {
    if rows.len() > 0 {
        rows[0]@
    } else {
        Seq::<RawCell>::empty()
    }
}

/// The values of column `c` from the data rows among the first `n` rows: each data row
/// long enough to reach the column gives one value, shorter rows give none.
pub open spec fn column_cells(rows: Seq<Vec<RawCell>>, c: int, n: int) -> Seq<CellView>
    decreases n,
{
    if n <= 1 {
        Seq::<CellView>::empty()
    } else {
        column_cells(rows, c, n - 1) + if c < rows[n - 1]@.len() {
            seq![converted(rows[n - 1]@[c])]
        } else {
            Seq::<CellView>::empty()
        }
    }
}

/// Whether `w` is the sheet named `name` built from `rows`, the first of them the header.
pub open spec fn built_from(w: Worksheet, name: Seq<char>, rows: Seq<Vec<RawCell>>) -> bool {
    &&& w.name@ == name
    &&& w.columns@.len() == header_row(rows).len()
    &&& forall|c: int|
        0 <= c < w.columns@.len() ==> {
            &&& (#[trigger] w.columns@[c]).name@ == header_text(header_row(rows)[c], c)
            &&& views_of(w.columns@[c].values@) == column_cells(rows, c, rows.len() as int)
            &&& w.columns@[c].data_type == inferred_type(w.columns@[c].values@)
        }
    &&& w.row_count == if w.columns@.len() > 0 {
        w.columns@[0].values@.len()
    } else {
        0
    }
}

/// A spreadsheet serial day as a day number; `None` when it falls outside the
/// calendar's range.
pub fn excel_serial_to_date(serial: i64) -> (r: Option<i32>)
    ensures
        r == serial_day(serial),
{
    if serial < MIN_DAY - SERIAL_EPOCH_DAYS || serial > MAX_DAY - SERIAL_EPOCH_DAYS {
        None
    } else {
        Some((serial + SERIAL_EPOCH_DAYS) as i32)
    }
}

/// A `YYYY-MM-DD` text as a date value, when it reads as one.
pub fn parse_iso_date(value: &str) -> (r: Option<DataValue>)
    ensures
        r == (match iso_date_days(value@) {
            Some(d) => Some(DataValue::Date(d as i32)),
            None => None::<DataValue>,
        }),
{
    match parse_iso_days(value) {
        Some(d) => Some(DataValue::Date(d)),
        None => None,
    }
}

/// The typed value of a raw cell.
pub fn convert_cell(cell: &RawCell) -> (r: DataValue)
    ensures
        view_of(r) == converted(*cell),
{
    match cell {
        RawCell::Text(value) => DataValue::String(value.clone()),
        RawCell::Number(value) => DataValue::Number(*value),
        RawCell::Int(value) => {
            let i = *value;
            if i > i64::MAX / SCALE {
                DataValue::Number(i64::MAX)
            } else if i < i64::MIN / SCALE {
                DataValue::Number(i64::MIN)
            } else {
                DataValue::Number(i * SCALE)
            }
        },
        RawCell::Bool(value) => DataValue::Boolean(*value),
        RawCell::Serial(value) => match excel_serial_to_date(*value) {
            Some(d) => DataValue::Date(d),
            None => DataValue::String(int_to_string(*value)),
        },
        RawCell::IsoText(value) => match parse_iso_date(value.as_str()) {
            Some(v) => v,
            None => DataValue::String(value.clone()),
        },
        RawCell::Empty => DataValue::Empty,
        RawCell::Other(value) => DataValue::String(value.clone()),
    }
}

/// The type of a column, from all of its values.
pub fn infer_type(values: &[DataValue]) -> (r: DataType)
    ensures
        r == inferred_type(values@),
{
    let mut has_string = false;
    let mut has_number = false;
    let mut has_date = false;
    let mut has_bool = false;
    let mut i: usize = 0;
    while i < values.len()
        invariant
            i <= values@.len(),
            has_string == has_type(values@.take(i as int), DataType::String),
            has_number == has_type(values@.take(i as int), DataType::Number),
            has_date == has_type(values@.take(i as int), DataType::Date),
            has_bool == has_type(values@.take(i as int), DataType::Boolean),
        decreases values@.len() - i,
    {
        let ghost prev = values@.take(i as int);
        match &values[i] {
            DataValue::String(_) => has_string = true,
            DataValue::Number(_) => has_number = true,
            DataValue::Date(_) => has_date = true,
            DataValue::Boolean(_) => has_bool = true,
            DataValue::Empty => {},
        }
        i = i + 1;
        proof {
            let cur = values@.take(i as int);
            assert(cur =~= prev.push(values@[i - 1]));
            lemma_has_type_push(prev, values@[i - 1], DataType::String);
            lemma_has_type_push(prev, values@[i - 1], DataType::Number);
            lemma_has_type_push(prev, values@[i - 1], DataType::Date);
            lemma_has_type_push(prev, values@[i - 1], DataType::Boolean);
        }
    }
    proof {
        assert(values@.take(i as int) =~= values@);
    }
    if has_string {
        DataType::String
    } else if has_date {
        DataType::Date
    } else if has_bool && !has_number {
        DataType::Boolean
    } else if has_number {
        DataType::Number
    } else {
        DataType::Empty
    }
}

proof fn lemma_has_type_push(s: Seq<DataValue>, v: DataValue, t: DataType)
    ensures
        has_type(s.push(v), t) == (has_type(s, t) || type_of(v) == t),
{
    let p = s.push(v);
    if has_type(s, t) {
        let i = choose|i: int| 0 <= i < s.len() && type_of(s[i]) == t;
        assert(p[i] == s[i]);
    }
    if type_of(v) == t {
        assert(p[s.len() as int] == v);
    }
    if has_type(p, t) {
        let i = choose|i: int| 0 <= i < p.len() && type_of(p[i]) == t;
        if i < s.len() {
            assert(p[i] == s[i]);
        }
    }
}

/// The name of the column headed by `cell` at 0-based position `idx`: its text, or
/// `Column n` with the 1-based position when the header is not text.
pub fn header_name(cell: &RawCell, idx: usize) -> (r: String)
    requires
        idx < usize::MAX,
    ensures
        r@ == header_text(*cell, idx as int),
{
    match cell {
        RawCell::Text(text) => text.clone(),
        _ => {
            proof {
                reveal_strlit("Column ");
            }
            let mut s = String::from_str("Column ");
            push_nat((idx + 1) as u128, &mut s);
            s
        },
    }
}

/// Builds the sheet `name` from its rows: the first row names the columns, each later
/// row gives each column the value at its position; cells past the header's width are
/// dropped, and a short row gives nothing to the columns it does not reach.
pub fn build_sheet(name: String, rows: &Vec<Vec<RawCell>>) -> (r: Worksheet)
    ensures
        built_from(r, name@, rows@),
{
    let mut columns: Vec<Column> = Vec::new();
    let width: usize = if rows.len() > 0 {
        rows[0].len()
    } else {
        0
    };
    let mut c: usize = 0;
    while c < width
        invariant
            width == header_row(rows@).len(),
            c <= width,
            columns@.len() == c,
            forall|k: int|
                0 <= k < c ==> {
                    &&& (#[trigger] columns@[k]).name@ == header_text(header_row(rows@)[k], k)
                    &&& views_of(columns@[k].values@) == column_cells(rows@, k, rows@.len() as int)
                    &&& columns@[k].data_type == inferred_type(columns@[k].values@)
                },
        decreases width - c,
    {
        let col_name = header_name(&rows[0][c], c);
        let mut values: Vec<DataValue> = Vec::new();
        let mut r: usize = 1;
        while r < rows.len()
            invariant
                1 <= r <= rows@.len(),
                c < width,
                views_of(values@) == column_cells(rows@, c as int, r as int),
            decreases rows@.len() - r,
        {
            if c < rows[r].len() {
                values.push(convert_cell(&rows[r][c]));
            }
            r = r + 1;
            proof {
                assert(views_of(values@) =~= column_cells(rows@, c as int, r as int));
            }
        }
        let data_type = infer_type(values.as_slice());
        columns.push(Column { name: col_name, data_type, values });
        c = c + 1;
    }
    let row_count = if columns.len() > 0 {
        columns[0].len()
    } else {
        0
    };
    Worksheet { name, columns, row_count }
}

/// Any column that holds text is inferred as text, whatever else it holds.
pub proof fn lemma_text_wins(vals: Seq<DataValue>, i: int)
    requires
        0 <= i < vals.len(),
        vals[i] is String,
    ensures
        inferred_type(vals) == DataType::String,
{
    assert(type_of(vals[i]) == DataType::String);
}

/// A column with booleans and numbers, and no text or dates, is inferred as numeric.
pub proof fn lemma_number_beats_boolean(vals: Seq<DataValue>, i: int, j: int)
    requires
        0 <= i < vals.len(),
        0 <= j < vals.len(),
        vals[i] is Boolean,
        vals[j] is Number,
        forall|k: int| 0 <= k < vals.len() ==> !(vals[k] is String) && !(vals[k] is Date),
    ensures
        inferred_type(vals) == DataType::Number,
{
    assert(type_of(vals[j]) == DataType::Number);
    assert(!has_type(vals, DataType::String)) by {
        assert forall|k: int| 0 <= k < vals.len() implies type_of(vals[k]) != DataType::String by {
            assert(!(vals[k] is String));
        }
    }
    assert(!has_type(vals, DataType::Date)) by {
        assert forall|k: int| 0 <= k < vals.len() implies type_of(vals[k]) != DataType::Date by {
            assert(!(vals[k] is Date));
        }
    }
}

/// In a built sheet the row count is the first column's length, and a column shorter
/// than that reads as empty past its end.
pub proof fn lemma_short_column_reads_empty(
    w: Worksheet,
    name: Seq<char>,
    rows: Seq<Vec<RawCell>>,
    c: int,
    row: int,
)
    requires
        built_from(w, name, rows),
        0 <= c < w.columns@.len(),
        w.columns@[c].values@.len() <= row,
    ensures
        w.row_count == w.columns@[0].values@.len(),
        cell_at(w.columns@[c], row) == DataValue::Empty,
{
}

} // verus!

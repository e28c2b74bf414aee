use vstd::prelude::*;
use vstd::string::*;

use crate::dates::{format_iso_date, iso_date_text};
use crate::numfmt::{decimal_text, format_decimal};

verus! {

/// The type that a column is inferred to hold.
#[derive(Debug, Clone, Copy, PartialEq, Eq, Structural)]
pub enum DataType {
    String,
    Number,
    Date,
    Boolean,
    Empty,
}

/// One cell of a sheet.
///
/// A number is a fixed-point decimal in millionths (see `numfmt::SCALE`); a date is a
/// day number counted from the Common Era, 0001-01-01 being day 1. Dates that ingestion
/// builds lie between `dates::MIN_DAY` and `dates::MAX_DAY`; a day outside that range
/// displays as the empty text.
#[derive(Debug, Clone, PartialEq)]
pub enum DataValue {
    String(String),
    Number(i64),
    Date(i32),
    Boolean(bool),
    Empty,
}

/// What a value holds, its text seen as a sequence of characters.
pub enum CellView {
    Text(Seq<char>),
    Number(i64),
    Date(i32),
    Boolean(bool),
    Empty,
}

pub open spec fn view_of(v: DataValue) -> CellView {
    match v {
        DataValue::String(s) => CellView::Text(s@),
        DataValue::Number(n) => CellView::Number(n),
        DataValue::Date(d) => CellView::Date(d),
        DataValue::Boolean(b) => CellView::Boolean(b),
        DataValue::Empty => CellView::Empty,
    }
}

pub open spec fn views_of(vals: Seq<DataValue>) -> Seq<CellView> {
    vals.map_values(|v: DataValue| view_of(v))
}

pub open spec fn type_of(v: DataValue) -> DataType {
    match v {
        DataValue::String(_) => DataType::String,
        DataValue::Number(_) => DataType::Number,
        DataValue::Date(_) => DataType::Date,
        DataValue::Boolean(_) => DataType::Boolean,
        DataValue::Empty => DataType::Empty,
    }
}

/// The display text of a value: text as it is, numbers in decimal, dates as
/// `YYYY-MM-DD`, booleans as `true` or `false`, and nothing for an empty cell.
pub open spec fn display_text(v: DataValue) -> Seq<char> {
    match v {
        DataValue::String(s) => s@,
        DataValue::Number(n) => decimal_text(n as int),
        DataValue::Date(d) => iso_date_text(d as int),
        DataValue::Boolean(b) => if b {
            seq!['t', 'r', 'u', 'e']
        } else {
            seq!['f', 'a', 'l', 's', 'e']
        },
        DataValue::Empty => Seq::<char>::empty(),
    }
}

/// The numeric projection of a value: only a number has one.
pub open spec fn number_of(v: DataValue) -> Option<i64> {
    match v {
        DataValue::Number(n) => Some(n),
        _ => None,
    }
}

impl DataValue {
    pub fn data_type(&self) -> (r: DataType)
        ensures
            r == type_of(*self),
    {
        match self {
            DataValue::String(_) => DataType::String,
            DataValue::Number(_) => DataType::Number,
            DataValue::Date(_) => DataType::Date,
            DataValue::Boolean(_) => DataType::Boolean,
            DataValue::Empty => DataType::Empty,
        }
    }

    pub fn display_string(&self) -> (r: String)
        ensures
            r@ == display_text(*self),
    {
        proof {
            reveal_strlit("true");
            reveal_strlit("false");
        }
        match self {
            DataValue::String(value) => value.clone(),
            DataValue::Number(value) => format_decimal(*value as i128),
            DataValue::Date(value) => format_iso_date(*value),
            DataValue::Boolean(value) => if *value {
                String::from_str("true")
            } else {
                String::from_str("false")
            },
            DataValue::Empty => String::new(),
        }
    }

    pub fn as_number(&self) -> (r: Option<i64>)
        ensures
            r == number_of(*self),
    {
        match self {
            DataValue::Number(value) => Some(*value),
            _ => None,
        }
    }

    /// A copy of this value.
    fn duplicate(&self) -> (r: DataValue)
        ensures
            r == *self,
    {
        match self {
            DataValue::String(value) => DataValue::String(value.clone()),
            DataValue::Number(value) => DataValue::Number(*value),
            DataValue::Date(value) => DataValue::Date(*value),
            DataValue::Boolean(value) => DataValue::Boolean(*value),
            DataValue::Empty => DataValue::Empty,
        }
    }
}

/// A named column of cells, with the type inferred from all of them.
#[derive(Debug, Clone)]
pub struct Column {
    pub name: String,
    pub data_type: DataType,
    pub values: Vec<DataValue>,
}

/// The value of a column at a row; a row past the column's end reads as empty.
pub open spec fn cell_at(c: Column, row: int) -> DataValue {
    if 0 <= row < c.values@.len() {
        c.values@[row]
    } else {
        DataValue::Empty
    }
}

impl Column {
    pub fn len(&self) -> (r: usize)
        ensures
            r == self.values@.len(),
    {
        self.values.len()
    }

    /// The value at a row, or `Empty` past the column's end.
    pub fn value_at(&self, index: usize) -> (r: DataValue)
        ensures
            r == cell_at(*self, index as int),
    {
        if index < self.values.len() {
            self.values[index].duplicate()
        } else {
            DataValue::Empty
        }
    }
}

/// A named sheet: columns in source order, and the number of data rows.
#[derive(Debug, Clone)]
pub struct Worksheet {
    pub name: String,
    pub columns: Vec<Column>,
    pub row_count: usize,
}

pub open spec fn names_of(cols: Seq<Column>) -> Seq<Seq<char>> {
    cols.map_values(|c: Column| c.name@)
}

impl Worksheet {
    pub fn column_names(&self) -> (r: Vec<String>)
        ensures
            r.deep_view() == names_of(self.columns@),
    {
        let mut r: Vec<String> = Vec::new();
        let mut i: usize = 0;
        while i < self.columns.len()
            invariant
                i <= self.columns@.len(),
                r@.len() == i,
                forall|j: int| 0 <= j < i ==> r@[j]@ == self.columns@[j].name@,
            decreases self.columns@.len() - i,
        {
            r.push(self.columns[i].name.clone());
            i = i + 1;
        }
        proof {
            assert(r.deep_view() =~= names_of(self.columns@));
        }
        r
    }
}

/// The sheets of one workbook, in order.
#[derive(Debug, Clone)]
pub struct Workbook {
    pub sheets: Vec<Worksheet>,
}

} // verus!

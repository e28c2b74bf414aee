use vstd::prelude::*;

use crate::query::{is_preview, Aggregation, QuerySpec};

verus! {

/// How a result is presented.
#[derive(Debug, Clone, Copy, PartialEq, Eq, Structural)]
pub enum ChartType {
    Bar,
    Line,
    Pie,
    Table,
    Scatter,
}

pub open spec fn chart_name(c: ChartType) -> Seq<char> {
    match c {
        ChartType::Bar => seq!['B', 'a', 'r'],
        ChartType::Line => seq!['L', 'i', 'n', 'e'],
        ChartType::Pie => seq!['P', 'i', 'e'],
        ChartType::Table => seq!['T', 'a', 'b', 'l', 'e'],
        ChartType::Scatter => seq!['S', 'c', 'a', 't', 't', 'e', 'r'],
    }
}

impl ChartType {
    /// The name shown for the chart type.
    pub fn label(self) -> (r: &'static str)
        ensures
            r@ == chart_name(self),
    {
        proof {
            reveal_strlit("Bar");
            reveal_strlit("Line");
            reveal_strlit("Pie");
            reveal_strlit("Table");
            reveal_strlit("Scatter");
        }
        match self {
            ChartType::Bar => "Bar",
            ChartType::Line => "Line",
            ChartType::Pie => "Pie",
            ChartType::Table => "Table",
            ChartType::Scatter => "Scatter",
        }
    }
}

/// What a saved project holds: the workbook, the sheet, the query and the chart type.
#[derive(Debug, Clone)]
pub struct VizProject {
    pub workbook_path: Option<String>,
    pub sheet: Option<String>,
    pub query: QuerySpec,
    pub chart_type: ChartType,
}

impl VizProject {
    /// A project with no workbook or sheet chosen, the preview query, and a table.
    pub fn new() -> (r: Self)
        ensures
            r.workbook_path is None,
            r.sheet is None,
            is_preview(r.query),
            r.query.aggregations@ == seq![Aggregation::Sum],
            r.query.filters@.len() == 0,
            r.chart_type == ChartType::Table,
    {
        VizProject {
            workbook_path: None,
            sheet: None,
            query: QuerySpec::empty(),
            chart_type: ChartType::Table,
        }
    }
}

} // verus!

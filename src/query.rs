use vstd::prelude::*;

verus! {

/// How the numeric values of a measure are summarized within a group.
#[derive(Debug, Clone, Copy, PartialEq, Eq, Structural)]
pub enum Aggregation {
    Sum,
    Avg,
    Count,
    Min,
    Max,
}

pub open spec fn aggregation_name(a: Aggregation) -> Seq<char> {
    match a {
        Aggregation::Sum => seq!['S', 'u', 'm'],
        Aggregation::Avg => seq!['A', 'v', 'g'],
        Aggregation::Count => seq!['C', 'o', 'u', 'n', 't'],
        Aggregation::Min => seq!['M', 'i', 'n'],
        Aggregation::Max => seq!['M', 'a', 'x'],
    }
}

impl Aggregation {
    /// The name of the aggregation, as it appears in result headers.
    pub fn label(self) -> (r: &'static str)
        ensures
            r@ == aggregation_name(self),
    {
        proof {
            reveal_strlit("Sum");
            reveal_strlit("Avg");
            reveal_strlit("Count");
            reveal_strlit("Min");
            reveal_strlit("Max");
        }
        match self {
            Aggregation::Sum => "Sum",
            Aggregation::Avg => "Avg",
            Aggregation::Count => "Count",
            Aggregation::Min => "Min",
            Aggregation::Max => "Max",
        }
    }
}

/// An equality filter on a column; carried along with a query but not applied.
#[derive(Debug, Clone)]
pub struct Filter {
    pub column: String,
    pub equals: String,
}

/// A pivot request: the dimension columns to group by (`rows`), the measure columns to
/// summarize (`columns`), and the aggregations applied to each measure.
#[derive(Debug, Clone)]
pub struct QuerySpec {
    pub rows: Vec<String>,
    pub columns: Vec<String>,
    pub aggregations: Vec<Aggregation>,
    pub filters: Vec<Filter>,
}

/// Whether a query asks for no grouping at all, only a preview of the sheet.
pub open spec fn is_preview(spec: QuerySpec) -> bool {
    spec.rows@.len() == 0 && spec.columns@.len() == 0
}

impl QuerySpec {
    /// The query that previews a sheet: no dimensions, no measures, and `Sum` ready
    /// for the first measure chosen.
    pub fn empty() -> (r: Self)
        ensures
            is_preview(r),
            r.aggregations@ == seq![Aggregation::Sum],
            r.filters@.len() == 0,
    {
        let mut aggregations: Vec<Aggregation> = Vec::new();
        aggregations.push(Aggregation::Sum);
        proof {
            assert(aggregations@ =~= seq![Aggregation::Sum]);
        }
        QuerySpec { rows: Vec::new(), columns: Vec::new(), aggregations, filters: Vec::new() }
    }
}

} // verus!

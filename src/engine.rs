use vstd::prelude::*;
use vstd::string::*;

use crate::aggregate::{aggregate_string, aggregate_text, lemma_empty_series_reads_zero};
use crate::data::{cell_at, display_text, names_of, number_of, Column, DataValue, Worksheet};
use crate::query::{aggregation_name, is_preview, Aggregation, QuerySpec};

verus! {

/// The most rows that a preview shows.
pub const PREVIEW_ROWS: usize = 25;

/// A result table, ready for display: a header row and rows of text.
#[derive(Debug, Clone)]
pub struct QueryResult {
    pub headers: Vec<String>,
    pub rows: Vec<Vec<String>>,
}

/// The positions, in sheet order, of the first `k` columns named `name`.
pub open spec fn matching(cols: Seq<Column>, name: Seq<char>, k: int) -> Seq<int>
    decreases k,
{
    if k <= 0 {
        Seq::<int>::empty()
    } else if cols[k - 1].name@ == name {
        matching(cols, name, k - 1).push(k - 1)
    } else {
        matching(cols, name, k - 1)
    }
}

/// For each of the first `n` names, in the order of the names, the positions of the
/// columns it names; a name that names no column contributes nothing.
pub open spec fn selected(cols: Seq<Column>, names: Seq<Seq<char>>, n: int) -> Seq<int>
    decreases n,
{
    if n <= 0 {
        Seq::<int>::empty()
    } else {
        selected(cols, names, n - 1) + matching(cols, names[n - 1], cols.len() as int)
    }
}

/// The columns of a sheet that a list of names resolves to, in the order of the names.
pub open spec fn picked(cols: Seq<Column>, names: Seq<Seq<char>>) -> Seq<int> {
    selected(cols, names, names.len() as int)
}

pub open spec fn as_ints(v: Seq<usize>) -> Seq<int> {
    v.map_values(|i: usize| i as int)
}

/// The names of the columns at positions `idx`.
pub open spec fn names_at(cols: Seq<Column>, idx: Seq<int>) -> Seq<Seq<char>> {
    Seq::new(idx.len(), |k: int| cols[idx[k]].name@)
}

/// The group key of a row: the display texts of the dimension columns at that row.
pub open spec fn row_key(cols: Seq<Column>, dims: Seq<int>, row: int) -> Seq<Seq<char>> {
    Seq::new(dims.len(), |k: int| display_text(cell_at(cols[dims[k]], row)))
}

/// The distinct keys of the first `n` rows, in the order of their first row.
pub open spec fn distinct_keys(cols: Seq<Column>, dims: Seq<int>, n: int) -> Seq<
    Seq<Seq<char>>,
>
    decreases n,
{
    if n <= 0 {
        Seq::<Seq<Seq<char>>>::empty()
    } else if distinct_keys(cols, dims, n - 1).contains(row_key(cols, dims, n - 1)) {
        distinct_keys(cols, dims, n - 1)
    } else {
        distinct_keys(cols, dims, n - 1).push(row_key(cols, dims, n - 1))
    }
}

/// The numbers of column `col` over the first `n` rows whose key is `key`; cells that
/// are not numbers are left out.
pub open spec fn series(
    cols: Seq<Column>,
    dims: Seq<int>,
    col: int,
    key: Seq<Seq<char>>,
    n: int,
) -> Seq<i64>
    decreases n,
{
    if n <= 0 {
        Seq::<i64>::empty()
    } else if row_key(cols, dims, n - 1) == key && number_of(cell_at(cols[col], n - 1)) is Some {
        series(cols, dims, col, key, n - 1).push(number_of(cell_at(cols[col], n - 1))->0)
    } else {
        series(cols, dims, col, key, n - 1)
    }
}

/// The aggregate cells of the group `key` for the first `m` measures: for each measure
/// in order, each aggregation in order.
pub open spec fn measure_cells(
    cols: Seq<Column>,
    dims: Seq<int>,
    meas: Seq<int>,
    aggs: Seq<Aggregation>,
    key: Seq<Seq<char>>,
    n: int,
    m: int,
) -> Seq<Seq<char>>
    decreases m,
{
    if m <= 0 {
        Seq::<Seq<char>>::empty()
    } else {
        measure_cells(cols, dims, meas, aggs, key, n, m - 1) + aggs.map_values(
            |a: Aggregation| aggregate_text(a, series(cols, dims, meas[m - 1], key, n)),
        )
    }
}

/// The header of one aggregate: `measure (Aggregation)`.
pub open spec fn measure_header(name: Seq<char>, a: Aggregation) -> Seq<char> {
    name + seq![' ', '('] + aggregation_name(a) + seq![')']
}

/// The aggregate headers of the first `m` measures.
pub open spec fn measure_headers(
    cols: Seq<Column>,
    meas: Seq<int>,
    aggs: Seq<Aggregation>,
    m: int,
) -> Seq<Seq<char>>
    decreases m,
{
    if m <= 0 {
        Seq::<Seq<char>>::empty()
    } else {
        measure_headers(cols, meas, aggs, m - 1) + aggs.map_values(
            |a: Aggregation| measure_header(cols[meas[m - 1]].name@, a),
        )
    }
}

/// The headers of a grouped result: the dimension columns that the query's names
/// resolve to, in the query's order, then one header for each measure column resolved,
/// in the query's order, and each aggregation.
pub open spec fn query_headers(sheet: Worksheet, spec: QuerySpec) -> Seq<Seq<char>> {
    let cols = sheet.columns@;
    let dims = picked(cols, spec.rows.deep_view());
    let meas = picked(cols, spec.columns.deep_view());
    names_at(cols, dims) + measure_headers(cols, meas, spec.aggregations@, meas.len() as int)
}

/// The rows of a grouped result: one per distinct key, in the order of first
/// appearance, holding the key and then the aggregate cells.
pub open spec fn query_rows(sheet: Worksheet, spec: QuerySpec) -> Seq<Seq<Seq<char>>> {
    let cols = sheet.columns@;
    let dims = picked(cols, spec.rows.deep_view());
    let meas = picked(cols, spec.columns.deep_view());
    let n = sheet.row_count as int;
    distinct_keys(cols, dims, n).map_values(
        |key: Seq<Seq<char>>|
            key + measure_cells(cols, dims, meas, spec.aggregations@, key, n, meas.len() as int),
    )
}

pub open spec fn min_nat(a: nat, b: nat) -> nat {
    if a <= b {
        a
    } else {
        b
    }
}

/// The display texts of every column at one row.
pub open spec fn preview_row(cols: Seq<Column>, row: int) -> Seq<Seq<char>> {
    Seq::new(cols.len(), |c: int| display_text(cell_at(cols[c], row)))
}

/// The rows of a preview: the first rows of the sheet, at most `PREVIEW_ROWS` of them.
pub open spec fn preview_rows(sheet: Worksheet) -> Seq<Seq<Seq<char>>> {
    Seq::new(
        min_nat(sheet.row_count as nat, PREVIEW_ROWS as nat),
        |r: int| preview_row(sheet.columns@, r),
    )
}

/// The positions of the columns that `names` resolves to: for each name in order,
/// the columns of that name in sheet order. Names that match no column are dropped.
pub fn select_columns(sheet: &Worksheet, names: &Vec<String>) -> (r: Vec<usize>)
    ensures
        as_ints(r@) == picked(sheet.columns@, names.deep_view()),
        forall|k: int| 0 <= k < r@.len() ==> r@[k] < sheet.columns@.len(),
        forall|k: int|
            0 <= k < r@.len() ==> names.deep_view().contains(
                sheet.columns@[#[trigger] r@[k] as int].name@,
            ),
{
    let ghost cols = sheet.columns@;
    let ghost nv = names.deep_view();
    let mut r: Vec<usize> = Vec::new();
    let mut i: usize = 0;
    while i < names.len()
        invariant
            cols == sheet.columns@,
            nv == names.deep_view(),
            i <= names@.len(),
            as_ints(r@) == selected(cols, nv, i as int),
            forall|k: int| 0 <= k < r@.len() ==> r@[k] < cols.len(),
        decreases names@.len() - i,
    {
        let ghost before = as_ints(r@);
        let mut c: usize = 0;
        while c < sheet.columns.len()
            invariant
                cols == sheet.columns@,
                nv == names.deep_view(),
                i < names@.len(),
                c <= cols.len(),
                as_ints(r@) == before + matching(cols, nv[i as int], c as int),
                forall|k: int| 0 <= k < r@.len() ==> r@[k] < cols.len(),
            decreases cols.len() - c,
        {
            let ghost prev = r@;
            proof {
                assert(nv[i as int] == names@[i as int]@);
            }
            if sheet.columns[c].name == names[i] {
                r.push(c);
                proof {
                    assert(as_ints(r@) =~= as_ints(prev).push(c as int));
                }
            }
            c = c + 1;
            proof {
                assert(as_ints(r@) =~= before + matching(cols, nv[i as int], c as int));
            }
        }
        i = i + 1;
        proof {
            assert(as_ints(r@) =~= selected(cols, nv, i as int));
        }
    }
    proof {
        lemma_selected_named(cols, nv, nv.len() as int);
        assert forall|k: int| 0 <= k < r@.len() implies nv.contains(
            cols[#[trigger] r@[k] as int].name@,
        ) by {
            assert(as_ints(r@)[k] == r@[k] as int);
        }
    }
    r
}

/// The key of a row: the display texts of the dimension columns there.
fn key_of_row(sheet: &Worksheet, dims: &Vec<usize>, row: usize) -> (r: Vec<String>)
    requires
        forall|k: int| 0 <= k < dims@.len() ==> dims@[k] < sheet.columns@.len(),
    ensures
        r.deep_view() == row_key(sheet.columns@, as_ints(dims@), row as int),
{
    let mut r: Vec<String> = Vec::new();
    let mut k: usize = 0;
    while k < dims.len()
        invariant
            k <= dims@.len(),
            forall|j: int| 0 <= j < dims@.len() ==> dims@[j] < sheet.columns@.len(),
            r@.len() == k,
            forall|j: int|
                0 <= j < k ==> r@[j]@ == display_text(
                    cell_at(sheet.columns@[dims@[j] as int], row as int),
                ),
        decreases dims@.len() - k,
    {
        let v = sheet.columns[dims[k]].value_at(row);
        r.push(v.display_string());
        k = k + 1;
    }
    proof {
        assert(r.deep_view() =~= row_key(sheet.columns@, as_ints(dims@), row as int));
    }
    r
}

/// Whether two keys are equal, text by text.
fn same_key(a: &Vec<String>, b: &Vec<String>) -> (r: bool)
    ensures
        r == (a.deep_view() == b.deep_view()),
{
    if a.len() != b.len() {
        proof {
            assert(a.deep_view().len() != b.deep_view().len());
        }
        return false;
    }
    let mut i: usize = 0;
    while i < a.len()
        invariant
            a@.len() == b@.len(),
            i <= a@.len(),
            forall|j: int| 0 <= j < i ==> a@[j]@ == b@[j]@,
        decreases a@.len() - i,
    {
        if a[i] != b[i] {
            proof {
                assert(a.deep_view()[i as int] != b.deep_view()[i as int]);
            }
            return false;
        }
        i = i + 1;
    }
    proof {
        assert(a.deep_view() =~= b.deep_view());
    }
    true
}

/// Whether `keys` holds `key`.
fn has_key(keys: &Vec<Vec<String>>, key: &Vec<String>) -> (r: bool)
    ensures
        r == keys.deep_view().contains(key.deep_view()),
{
    let mut i: usize = 0;
    while i < keys.len()
        invariant
            i <= keys@.len(),
            forall|j: int| 0 <= j < i ==> keys@[j].deep_view() != key.deep_view(),
        decreases keys@.len() - i,
    {
        if same_key(&keys[i], key) {
            proof {
                assert(keys.deep_view()[i as int] == key.deep_view());
            }
            return true;
        }
        i = i + 1;
    }
    proof {
        if keys.deep_view().contains(key.deep_view()) {
            let j = choose|j: int|
                0 <= j < keys.deep_view().len() && keys.deep_view()[j] == key.deep_view();
            assert(keys@[j].deep_view() == key.deep_view());
        }
    }
    false
}

/// The numbers of column `col` over the rows whose key is `key`, in row order.
fn collect_series(
    sheet: &Worksheet,
    dims: Ghost<Seq<int>>,
    row_keys: &Vec<Vec<String>>,
    col: usize,
    key: &Vec<String>,
) -> (r: Vec<i64>)
    requires
        col < sheet.columns@.len(),
        row_keys@.len() == sheet.row_count,
        forall|i: int|
            0 <= i < row_keys@.len() ==> (#[trigger] row_keys@[i]).deep_view() == row_key(
                sheet.columns@,
                dims@,
                i,
            ),
    ensures
        r@ == series(sheet.columns@, dims@, col as int, key.deep_view(), sheet.row_count as int),
{
    let mut r: Vec<i64> = Vec::new();
    let mut i: usize = 0;
    while i < row_keys.len()
        invariant
            col < sheet.columns@.len(),
            i <= row_keys@.len(),
            row_keys@.len() == sheet.row_count,
            forall|i: int|
                0 <= i < row_keys@.len() ==> (#[trigger] row_keys@[i]).deep_view() == row_key(
                    sheet.columns@,
                    dims@,
                    i,
                ),
            r@ == series(sheet.columns@, dims@, col as int, key.deep_view(), i as int),
        decreases row_keys@.len() - i,
    {
        if same_key(&row_keys[i], key) {
            let v = sheet.columns[col].value_at(i);
            match v.as_number() {
                Some(x) => r.push(x),
                None => {},
            }
        }
        i = i + 1;
    }
    r
}

/// The first rows of a sheet, at most `PREVIEW_ROWS`, every column shown.
fn preview_table(sheet: &Worksheet) -> (r: QueryResult)
    ensures
        r.headers.deep_view() == names_of(sheet.columns@),
        r.rows.deep_view() == preview_rows(*sheet),
{
    let headers = sheet.column_names();
    let mut rows: Vec<Vec<String>> = Vec::new();
    let row_count: usize = if sheet.row_count < PREVIEW_ROWS {
        sheet.row_count
    } else {
        PREVIEW_ROWS
    };
    let mut row_index: usize = 0;
    while row_index < row_count
        invariant
            row_count == min_nat(sheet.row_count as nat, PREVIEW_ROWS as nat),
            row_index <= row_count,
            rows@.len() == row_index,
            forall|j: int|
                0 <= j < row_index ==> (#[trigger] rows@[j]).deep_view() == preview_row(
                    sheet.columns@,
                    j,
                ),
        decreases row_count - row_index,
    {
        let mut row: Vec<String> = Vec::new();
        let mut c: usize = 0;
        while c < sheet.columns.len()
            invariant
                c <= sheet.columns@.len(),
                row@.len() == c,
                forall|j: int|
                    0 <= j < c ==> row@[j]@ == display_text(
                        cell_at(sheet.columns@[j], row_index as int),
                    ),
            decreases sheet.columns@.len() - c,
        {
            row.push(sheet.columns[c].value_at(row_index).display_string());
            c = c + 1;
        }
        proof {
            assert(row.deep_view() =~= preview_row(sheet.columns@, row_index as int));
        }
        rows.push(row);
        row_index = row_index + 1;
    }
    proof {
        assert(rows.deep_view() =~= preview_rows(*sheet));
    }
    QueryResult { headers, rows }
}

/// Runs a query on a sheet. A query with no dimensions and no measures previews the
/// sheet; any other groups the rows by the texts of the dimension columns and
/// summarizes the numbers of each measure column per group. Names that match no column
/// are left out of the result.
pub fn run_query(sheet: &Worksheet, spec: &QuerySpec) -> (r: QueryResult)
    ensures
        is_preview(*spec) ==> r.headers.deep_view() == names_of(sheet.columns@)
            && r.rows.deep_view() == preview_rows(*sheet),
        !is_preview(*spec) ==> r.headers.deep_view() == query_headers(*sheet, *spec)
            && r.rows.deep_view() == query_rows(*sheet, *spec),
{
    if spec.rows.len() == 0 && spec.columns.len() == 0 {
        return preview_table(sheet);
    }
    let dims = select_columns(sheet, &spec.rows);
    let meas = select_columns(sheet, &spec.columns);
    let ghost cols = sheet.columns@;
    let ghost gd = as_ints(dims@);
    let ghost gm = as_ints(meas@);
    let ghost aggs = spec.aggregations@;
    let ghost n = sheet.row_count as int;

    let mut row_keys: Vec<Vec<String>> = Vec::new();
    let mut keys: Vec<Vec<String>> = Vec::new();
    let mut row_index: usize = 0;
    while row_index < sheet.row_count
        invariant
            gd == as_ints(dims@),
            cols == sheet.columns@,
            forall|k: int| 0 <= k < dims@.len() ==> dims@[k] < sheet.columns@.len(),
            row_index <= sheet.row_count,
            row_keys@.len() == row_index,
            forall|i: int|
                0 <= i < row_index ==> (#[trigger] row_keys@[i]).deep_view() == row_key(
                    cols,
                    gd,
                    i,
                ),
            keys.deep_view() == distinct_keys(cols, gd, row_index as int),
        decreases sheet.row_count - row_index,
    {
        let key = key_of_row(sheet, &dims, row_index);
        if !has_key(&keys, &key) {
            let ghost prev = keys.deep_view();
            let fresh = key_of_row(sheet, &dims, row_index);
            keys.push(fresh);
            proof {
                assert(keys.deep_view() =~= prev.push(row_key(cols, gd, row_index as int)));
            }
        }
        row_keys.push(key);
        row_index = row_index + 1;
    }

    let mut headers: Vec<String> = Vec::new();
    let mut k: usize = 0;
    while k < dims.len()
        invariant
            gd == as_ints(dims@),
            cols == sheet.columns@,
            forall|j: int| 0 <= j < dims@.len() ==> dims@[j] < sheet.columns@.len(),
            k <= dims@.len(),
            headers@.len() == k,
            forall|j: int| 0 <= j < k ==> headers@[j]@ == names_at(cols, gd)[j],
        decreases dims@.len() - k,
    {
        headers.push(sheet.columns[dims[k]].name.clone());
        k = k + 1;
    }
    let mut m: usize = 0;
    while m < meas.len()
        invariant
            gd == as_ints(dims@),
            gm == as_ints(meas@),
            aggs == spec.aggregations@,
            cols == sheet.columns@,
            forall|j: int| 0 <= j < meas@.len() ==> meas@[j] < sheet.columns@.len(),
            m <= meas@.len(),
            headers@.len() == gd.len() + measure_headers(cols, gm, aggs, m as int).len(),
            forall|j: int|
                0 <= j < headers@.len() ==> headers@[j]@ == (names_at(cols, gd) + measure_headers(
                    cols,
                    gm,
                    aggs,
                    m as int,
                ))[j],
        decreases meas@.len() - m,
    {
        let ghost base = names_at(cols, gd) + measure_headers(cols, gm, aggs, m as int);
        let ghost f = |a: Aggregation| measure_header(cols[gm[m as int]].name@, a);
        let mut a: usize = 0;
        while a < spec.aggregations.len()
            invariant
                aggs == spec.aggregations@,
                a <= aggs.len(),
                headers@.len() == base.len() + a,
                forall|j: int|
                    0 <= j < headers@.len() ==> headers@[j]@ == (base + aggs.take(
                        a as int,
                    ).map_values(f))[j],
                m < meas@.len(),
                meas@[m as int] < sheet.columns@.len(),
                cols == sheet.columns@,
                gm == as_ints(meas@),
                f == (|a: Aggregation| measure_header(cols[gm[m as int]].name@, a)),
            decreases aggs.len() - a,
        {
            let ghost prev = base + aggs.take(a as int).map_values(f);
            let mut h = sheet.columns[meas[m]].name.clone();
            proof {
                reveal_strlit(" (");
                reveal_strlit(")");
            }
            h.append(" (");
            h.append(spec.aggregations[a].label());
            h.append(")");
            headers.push(h);
            a = a + 1;
            proof {
                assert(h@ =~= f(aggs[a - 1]));
                assert(base + aggs.take(a as int).map_values(f) =~= prev.push(f(aggs[a - 1])));
            }
        }
        m = m + 1;
        proof {
            assert(aggs.take(aggs.len() as int) =~= aggs);
            assert(names_at(cols, gd) + measure_headers(cols, gm, aggs, m as int) =~= base
                + aggs.map_values(f));
        }
    }
    proof {
        assert(headers.deep_view() =~= query_headers(*sheet, *spec));
    }

    let mut rows: Vec<Vec<String>> = Vec::new();
    let mut g: usize = 0;
    while g < keys.len()
        invariant
            gd == as_ints(dims@),
            gm == as_ints(meas@),
            aggs == spec.aggregations@,
            cols == sheet.columns@,
            n == sheet.row_count,
            forall|j: int| 0 <= j < meas@.len() ==> meas@[j] < sheet.columns@.len(),
            row_keys@.len() == sheet.row_count,
            forall|i: int|
                0 <= i < row_keys@.len() ==> (#[trigger] row_keys@[i]).deep_view() == row_key(
                    cols,
                    gd,
                    i,
                ),
            keys.deep_view() == distinct_keys(cols, gd, n),
            g <= keys@.len(),
            rows@.len() == g,
            forall|j: int|
                0 <= j < g ==> (#[trigger] rows@[j]).deep_view() == keys.deep_view()[j]
                    + measure_cells(cols, gd, gm, aggs, keys.deep_view()[j], n, gm.len() as int),
        decreases keys@.len() - g,
    {
        let ghost key = keys.deep_view()[g as int];
        let mut row: Vec<String> = Vec::new();
        let mut k: usize = 0;
        while k < keys[g].len()
            invariant
                g < keys@.len(),
                key == keys.deep_view()[g as int],
                k <= keys@[g as int]@.len(),
                row@.len() == k,
                forall|j: int| 0 <= j < k ==> row@[j]@ == key[j],
            decreases keys@[g as int]@.len() - k,
        {
            row.push(keys[g][k].clone());
            k = k + 1;
        }
        let mut m: usize = 0;
        while m < meas.len()
            invariant
                gd == as_ints(dims@),
                gm == as_ints(meas@),
                aggs == spec.aggregations@,
                cols == sheet.columns@,
                n == sheet.row_count,
                forall|j: int| 0 <= j < meas@.len() ==> meas@[j] < sheet.columns@.len(),
                row_keys@.len() == sheet.row_count,
                forall|i: int|
                    0 <= i < row_keys@.len() ==> (#[trigger] row_keys@[i]).deep_view()
                        == row_key(cols, gd, i),
                g < keys@.len(),
                key == keys.deep_view()[g as int],
                m <= meas@.len(),
                row@.len() == (key + measure_cells(cols, gd, gm, aggs, key, n, m as int)).len(),
                forall|j: int|
                    0 <= j < row@.len() ==> row@[j]@ == (key + measure_cells(
                        cols,
                        gd,
                        gm,
                        aggs,
                        key,
                        n,
                        m as int,
                    ))[j],
            decreases meas@.len() - m,
        {
            let series_m = collect_series(sheet, Ghost(gd), &row_keys, meas[m], &keys[g]);
            let ghost base = key + measure_cells(cols, gd, gm, aggs, key, n, m as int);
            let ghost f = |a: Aggregation| aggregate_text(a, series_m@);
            let mut a: usize = 0;
            while a < spec.aggregations.len()
                invariant
                    aggs == spec.aggregations@,
                    a <= aggs.len(),
                    row@.len() == base.len() + a,
                    forall|j: int|
                        0 <= j < row@.len() ==> row@[j]@ == (base + aggs.take(a as int).map_values(
                            f,
                        ))[j],
                    f == (|a: Aggregation| aggregate_text(a, series_m@)),
                decreases aggs.len() - a,
            {
                let ghost prev = base + aggs.take(a as int).map_values(f);
                let cell = aggregate_string(spec.aggregations[a], &series_m);
                row.push(cell);
                a = a + 1;
                proof {
                    assert(base + aggs.take(a as int).map_values(f) =~= prev.push(f(aggs[a - 1])));
                }
            }
            m = m + 1;
            proof {
                assert(aggs.take(aggs.len() as int) =~= aggs);
                assert(key + measure_cells(cols, gd, gm, aggs, key, n, m as int) =~= base
                    + aggs.map_values(f));
            }
        }
        proof {
            assert(row.deep_view() =~= key + measure_cells(cols, gd, gm, aggs, key, n, gm.len() as int));
        }
        rows.push(row);
        g = g + 1;
    }
    proof {
        assert(rows.deep_view() =~= query_rows(*sheet, *spec));
    }
    QueryResult { headers, rows }
}

proof fn lemma_matching_named(cols: Seq<Column>, name: Seq<char>, k: int)
    requires
        k <= cols.len(),
    ensures
        forall|j: int|
            0 <= j < matching(cols, name, k).len() ==> 0 <= #[trigger] matching(cols, name, k)[j]
                < cols.len() && cols[matching(cols, name, k)[j]].name@ == name,
    decreases k,
{
    if k > 0 {
        lemma_matching_named(cols, name, k - 1);
    }
}

/// Every column that a list of names resolves to is a column of the sheet whose name
/// is in the list.
pub proof fn lemma_selected_named(cols: Seq<Column>, names: Seq<Seq<char>>, n: int)
    requires
        n <= names.len(),
    ensures
        forall|k: int|
            0 <= k < selected(cols, names, n).len() ==> 0 <= #[trigger] selected(cols, names, n)[k]
                < cols.len() && names.contains(cols[selected(cols, names, n)[k]].name@),
    decreases n,
{
    if n > 0 {
        lemma_selected_named(cols, names, n - 1);
        lemma_matching_named(cols, names[n - 1], cols.len() as int);
        let prev = selected(cols, names, n - 1);
        let last = matching(cols, names[n - 1], cols.len() as int);
        assert forall|k: int| 0 <= k < selected(cols, names, n).len() implies 0
            <= #[trigger] selected(cols, names, n)[k] < cols.len() && names.contains(
            cols[selected(cols, names, n)[k]].name@,
        ) by {
            if k < prev.len() {
                assert(selected(cols, names, n)[k] == prev[k]);
            } else {
                assert(selected(cols, names, n)[k] == last[k - prev.len()]);
                assert(names[n - 1] == names[n - 1]);
            }
        }
    }
}

/// A name that matches no column of the sheet is dropped: no column that the query
/// resolves, as a dimension or as a measure, carries it, and no dimension header of
/// the result is that name.
pub proof fn lemma_unknown_name_dropped(sheet: Worksheet, spec: QuerySpec, name: Seq<char>)
    requires
        forall|c: int| 0 <= c < sheet.columns@.len() ==> sheet.columns@[c].name@ != name,
    ensures
        forall|k: int|
            0 <= k < picked(sheet.columns@, spec.rows.deep_view()).len()
                ==> sheet.columns@[#[trigger] picked(sheet.columns@, spec.rows.deep_view())[k]].name@
                != name,
        forall|k: int|
            0 <= k < picked(sheet.columns@, spec.columns.deep_view()).len()
                ==> sheet.columns@[#[trigger] picked(
                sheet.columns@,
                spec.columns.deep_view(),
            )[k]].name@ != name,
        !names_at(sheet.columns@, picked(sheet.columns@, spec.rows.deep_view())).contains(name),
{
    let cols = sheet.columns@;
    lemma_selected_named(cols, spec.rows.deep_view(), spec.rows.deep_view().len() as int);
    lemma_selected_named(cols, spec.columns.deep_view(), spec.columns.deep_view().len() as int);
    let dims = picked(cols, spec.rows.deep_view());
    if names_at(cols, dims).contains(name) {
        let k = choose|k: int| 0 <= k < names_at(cols, dims).len() && names_at(cols, dims)[k] == name;
        assert(0 <= dims[k] < cols.len());
    }
}

/// A preview of a sheet with at least `PREVIEW_ROWS` rows shows exactly that many.
pub proof fn lemma_preview_cap(sheet: Worksheet)
    requires
        sheet.row_count >= PREVIEW_ROWS,
    ensures
        preview_rows(sheet).len() == PREVIEW_ROWS,
{
}

/// A preview shows a column as empty at the rows past its end.
pub proof fn lemma_preview_short_column(sheet: Worksheet, i: int, j: int)
    requires
        0 <= i < preview_rows(sheet).len(),
        0 <= j < sheet.columns@.len(),
        sheet.columns@[j].values@.len() <= i,
    ensures
        preview_rows(sheet)[i][j] == Seq::<char>::empty(),
{
}

proof fn lemma_keys_len(cols: Seq<Column>, dims: Seq<int>, n: int)
    ensures
        forall|g: int|
            0 <= g < distinct_keys(cols, dims, n).len() ==> (#[trigger] distinct_keys(
                cols,
                dims,
                n,
            )[g]).len() == dims.len(),
    decreases n,
{
    if n > 0 {
        lemma_keys_len(cols, dims, n - 1);
        let prev = distinct_keys(cols, dims, n - 1);
        assert(row_key(cols, dims, n - 1).len() == dims.len());
        assert forall|g: int| 0 <= g < distinct_keys(cols, dims, n).len() implies (
        #[trigger] distinct_keys(cols, dims, n)[g]).len() == dims.len() by {
            if g < prev.len() {
                assert(distinct_keys(cols, dims, n)[g] == prev[g]);
            }
        }
    }
}

proof fn lemma_series_empty(cols: Seq<Column>, dims: Seq<int>, col: int, key: Seq<Seq<char>>, n: int)
    requires
        forall|r: int|
            0 <= r < n && row_key(cols, dims, r) == key ==> number_of(
                #[trigger] cell_at(cols[col], r),
            ) is None,
    ensures
        series(cols, dims, col, key, n).len() == 0,
    decreases n,
{
    if n > 0 {
        lemma_series_empty(cols, dims, col, key, n - 1);
    }
}

#[verifier::nonlinear]
proof fn lemma_index_in_prefix(mi: int, ai: int, a: int, m: int)
    requires
        0 <= mi < m - 1,
        0 <= ai < a,
    ensures
        mi * a + ai < (m - 1) * a,
{
}

proof fn lemma_measure_cell(
    cols: Seq<Column>,
    dims: Seq<int>,
    meas: Seq<int>,
    aggs: Seq<Aggregation>,
    key: Seq<Seq<char>>,
    n: int,
    m: int,
    mi: int,
    ai: int,
)
    requires
        0 <= mi < m,
        0 <= ai < aggs.len(),
    ensures
        measure_cells(cols, dims, meas, aggs, key, n, m).len() == m * aggs.len(),
        measure_cells(cols, dims, meas, aggs, key, n, m)[mi * aggs.len() + ai] == aggregate_text(
            aggs[ai],
            series(cols, dims, meas[mi], key, n),
        ),
    decreases m,
{
    let a = aggs.len() as int;
    if m == 1 {
        assert(measure_cells(cols, dims, meas, aggs, key, n, 0).len() == 0);
    } else {
        if mi < m - 1 {
            lemma_measure_cell(cols, dims, meas, aggs, key, n, m - 1, mi, ai);
            lemma_index_in_prefix(mi, ai, a, m);
        } else {
            lemma_measure_cell(cols, dims, meas, aggs, key, n, m - 1, 0, ai);
        }
        assert((m - 1) * a + a == m * a) by (nonlinear_arith);
    }
}

/// In a grouped result, a measure that holds no number in the rows of a group reads `0`
/// there under every aggregation.
pub proof fn lemma_group_without_numbers_reads_zero(
    sheet: Worksheet,
    spec: QuerySpec,
    g: int,
    mi: int,
    ai: int,
)
    requires
        !is_preview(spec),
        0 <= g < query_rows(sheet, spec).len(),
        0 <= mi < picked(sheet.columns@, spec.columns.deep_view()).len(),
        0 <= ai < spec.aggregations@.len(),
        forall|r: int|
            0 <= r < sheet.row_count && row_key(
                sheet.columns@,
                picked(sheet.columns@, spec.rows.deep_view()),
                r,
            ) == distinct_keys(
                sheet.columns@,
                picked(sheet.columns@, spec.rows.deep_view()),
                sheet.row_count as int,
            )[g] ==> number_of(
                #[trigger] cell_at(
                    sheet.columns@[picked(sheet.columns@, spec.columns.deep_view())[mi]],
                    r,
                ),
            ) is None,
    ensures
        query_rows(sheet, spec)[g][picked(sheet.columns@, spec.rows.deep_view()).len() + mi
            * spec.aggregations@.len() + ai] == seq!['0'],
{
    let cols = sheet.columns@;
    let dims = picked(cols, spec.rows.deep_view());
    let meas = picked(cols, spec.columns.deep_view());
    let aggs = spec.aggregations@;
    let n = sheet.row_count as int;
    let key = distinct_keys(cols, dims, n)[g];
    lemma_keys_len(cols, dims, n);
    lemma_series_empty(cols, dims, meas[mi], key, n);
    lemma_measure_cell(cols, dims, meas, aggs, key, n, meas.len() as int, mi, ai);
    lemma_empty_series_reads_zero(aggs[ai]);
    assert(series(cols, dims, meas[mi], key, n) =~= Seq::<i64>::empty());
    assert(mi * aggs.len() + ai < meas.len() * aggs.len()) by (nonlinear_arith)
        requires
            0 <= mi < meas.len(),
            0 <= ai < aggs.len(),
    ;
}

} // verus!

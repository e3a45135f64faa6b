//! Capability-aware scan validation: sorting the requested columns by how
//! many of the requested markets support them.
use vstd::prelude::*;

use crate::error::Error;
use crate::scanner::{str_equals, Column, Market};

verus! {

broadcast use vstd::seq::group_seq_axioms;

/// A column that some but not all requested markets support.
#[derive(Debug, Clone)]
pub struct PartiallySupportedColumn {
    pub column: Column,
    pub supported_markets: Vec<Market>,
    pub unsupported_markets: Vec<Market>,
}

/// Which requested columns the requested markets support.
#[derive(Debug, Clone)]
pub struct ScanValidationReport {
    pub route_segment: String,
    pub requested_markets: Vec<Market>,
    pub supported_columns: Vec<Column>,
    pub partially_supported_columns: Vec<PartiallySupportedColumn>,
    pub unsupported_columns: Vec<Column>,
}

#[derive(PartialEq, Eq, Structural)]
pub enum Support {
    Full,
    Partial,
    Missing,
    /// The column repeats an earlier one, or no market was requested.
    Skipped,
}

/// No column before position `i` has the same name.
pub open spec fn first_occurrence(cols: Seq<Seq<char>>, i: int) -> bool {
    forall|j: int| 0 <= j < i ==> cols[j] != cols[i]
}

/// The markets whose support flag in `row` equals `want`, in order, among the first `k`.
pub open spec fn markets_where(markets: Seq<Seq<char>>, row: Seq<bool>, want: bool, k: int) -> Seq<
    Seq<char>,
>
    decreases k,
{
    if k <= 0 {
        Seq::empty()
    } else {
        let before = markets_where(markets, row, want, k - 1);
        if row[k - 1] == want {
            before.push(markets[k - 1])
        } else {
            before
        }
    }
}

/// How column `i` is supported, given one support flag per market.
pub open spec fn support_of(cols: Seq<Seq<char>>, markets: Seq<Seq<char>>, row: Seq<bool>, i: int) -> Support {
    let sup = markets_where(markets, row, true, markets.len() as int);
    let uns = markets_where(markets, row, false, markets.len() as int);
    if !first_occurrence(cols, i) {
        Support::Skipped
    } else if sup.len() == 0 && uns.len() > 0 {
        Support::Missing
    } else if sup.len() > 0 && uns.len() == 0 {
        Support::Full
    } else if sup.len() > 0 && uns.len() > 0 {
        Support::Partial
    } else {
        Support::Skipped
    }
}

/// The columns among the first `k` with the given support, in order.
pub open spec fn columns_with(
    cols: Seq<Seq<char>>,
    markets: Seq<Seq<char>>,
    rows: Seq<Seq<bool>>,
    s: Support,
    k: int,
) -> Seq<Seq<char>>
    decreases k,
{
    if k <= 0 {
        Seq::empty()
    } else {
        let before = columns_with(cols, markets, rows, s, k - 1);
        if support_of(cols, markets, rows[k - 1], k - 1) == s {
            before.push(cols[k - 1])
        } else {
            before
        }
    }
}

/// The partially supported columns among the first `k`, each with the
/// markets that support it and those that do not.
pub open spec fn partial_entries(
    cols: Seq<Seq<char>>,
    markets: Seq<Seq<char>>,
    rows: Seq<Seq<bool>>,
    k: int,
) -> Seq<(Seq<char>, Seq<Seq<char>>, Seq<Seq<char>>)>
    decreases k,
{
    if k <= 0 {
        Seq::empty()
    } else {
        let before = partial_entries(cols, markets, rows, k - 1);
        if support_of(cols, markets, rows[k - 1], k - 1) == Support::Partial {
            before.push(
                (
                    cols[k - 1],
                    markets_where(markets, rows[k - 1], true, markets.len() as int),
                    markets_where(markets, rows[k - 1], false, markets.len() as int),
                ),
            )
        } else {
            before
        }
    }
}

pub open spec fn column_views(v: Seq<Column>) -> Seq<Seq<char>> {
    v.map_values(|c: Column| c@)
}

pub open spec fn market_views(v: Seq<Market>) -> Seq<Seq<char>> {
    v.map_values(|m: Market| m@)
}

pub open spec fn row_views(v: Seq<Vec<bool>>) -> Seq<Seq<bool>> {
    v.map_values(|r: Vec<bool>| r@)
}

pub open spec fn partial_view(p: PartiallySupportedColumn) -> (Seq<char>, Seq<Seq<char>>, Seq<Seq<char>>) {
    (p.column@, market_views(p.supported_markets@), market_views(p.unsupported_markets@))
}

/// Whether column `i` repeats an earlier column.
fn seen_before(columns: &Vec<Column>, i: usize) -> (r: bool)
    requires
        i < columns@.len(),
    ensures
        r == !first_occurrence(column_views(columns@), i as int),
{
    let mut j: usize = 0;
    while j < i
        invariant
            i < columns@.len(),
            j <= i,
            forall|k: int| 0 <= k < j ==> columns@[k]@ != columns@[i as int]@,
        decreases i - j,
    {
        if str_equals(columns[j].as_str(), columns[i].as_str()) {
            assert(column_views(columns@)[j as int] == column_views(columns@)[i as int]);
            return true;
        }
        j = j + 1;
    }
    assert forall|k: int| 0 <= k < i implies column_views(columns@)[k] != column_views(
        columns@,
    )[i as int] by {
        assert(column_views(columns@)[k] == columns@[k]@);
    }
    false
}

/// The markets whose flag in `row` equals `want`, in order.
fn split_markets(markets: &Vec<Market>, row: &Vec<bool>, want: bool) -> (r: Vec<Market>)
    requires
        row@.len() == markets@.len(),
    ensures
        market_views(r@) == markets_where(market_views(markets@), row@, want, markets@.len() as int),
{
    let mut out: Vec<Market> = Vec::new();
    let mut j: usize = 0;
    while j < markets.len()
        invariant
            row@.len() == markets@.len(),
            j <= markets@.len(),
            market_views(out@) == markets_where(market_views(markets@), row@, want, j as int),
        decreases markets@.len() - j,
    {
        let ghost before = out@;
        if row[j] == want {
            out.push(markets[j].duplicate());
            assert(market_views(out@) =~= market_views(before).push(markets@[j as int]@));
        }
        j = j + 1;
    }
    out
}

/// Sorts the requested columns by how the requested markets support them:
/// `support[i][j]` tells whether market `j` supports column `i`. A column
/// that repeats an earlier one is left out; with no market, every column is.
pub fn build_validation_report(
    route_segment: String,
    markets: Vec<Market>,
    columns: &Vec<Column>,
    support: &Vec<Vec<bool>>,
) -> (report: ScanValidationReport)
    requires
        support@.len() == columns@.len(),
        forall|i: int| 0 <= i < support@.len() ==> (#[trigger] support@[i])@.len() == markets@.len(),
    ensures
        report.route_segment == route_segment,
        report.requested_markets@ == markets@,
        column_views(report.supported_columns@) == columns_with(
            column_views(columns@),
            market_views(markets@),
            row_views(support@),
            Support::Full,
            columns@.len() as int,
        ),
        column_views(report.unsupported_columns@) == columns_with(
            column_views(columns@),
            market_views(markets@),
            row_views(support@),
            Support::Missing,
            columns@.len() as int,
        ),
        report.partially_supported_columns@.map_values(|p: PartiallySupportedColumn| partial_view(p))
            == partial_entries(
            column_views(columns@),
            market_views(markets@),
            row_views(support@),
            columns@.len() as int,
        ),
{
    let ghost cols = column_views(columns@);
    let ghost ms = market_views(markets@);
    let ghost rows = row_views(support@);
    let mut supported_columns: Vec<Column> = Vec::new();
    let mut partially_supported_columns: Vec<PartiallySupportedColumn> = Vec::new();
    let mut unsupported_columns: Vec<Column> = Vec::new();
    let mut i: usize = 0;
    while i < columns.len()
        invariant
            support@.len() == columns@.len(),
            forall|k: int| 0 <= k < support@.len() ==> (#[trigger] support@[k])@.len() == markets@.len(),
            cols == column_views(columns@),
            ms == market_views(markets@),
            rows == row_views(support@),
            i <= columns@.len(),
            column_views(supported_columns@) == columns_with(cols, ms, rows, Support::Full, i as int),
            column_views(unsupported_columns@) == columns_with(cols, ms, rows, Support::Missing, i as int),
            partially_supported_columns@.map_values(|p: PartiallySupportedColumn| partial_view(p))
                == partial_entries(cols, ms, rows, i as int),
        decreases columns@.len() - i,
    {
        let ghost k = i as int;
        let ghost s_before = supported_columns@;
        let ghost u_before = unsupported_columns@;
        let ghost p_before = partially_supported_columns@;
        assert(rows[k] == support@[k]@);
        assert(cols[k] == columns@[k]@);
        if !seen_before(columns, i) {
            let supported_markets = split_markets(&markets, &support[i], true);
            let unsupported_markets = split_markets(&markets, &support[i], false);
            let no_sup = supported_markets.len() == 0;
            let no_uns = unsupported_markets.len() == 0;
            if no_sup && !no_uns {
                unsupported_columns.push(columns[i].clone_column());
                assert(column_views(unsupported_columns@) =~= column_views(u_before).push(cols[k]));
            } else if !no_sup && no_uns {
                supported_columns.push(columns[i].clone_column());
                assert(column_views(supported_columns@) =~= column_views(s_before).push(cols[k]));
            } else if !no_sup && !no_uns {
                let entry = PartiallySupportedColumn {
                    column: columns[i].clone_column(),
                    supported_markets,
                    unsupported_markets,
                };
                partially_supported_columns.push(entry);
                assert(partially_supported_columns@.map_values(
                    |p: PartiallySupportedColumn| partial_view(p),
                ) =~= p_before.map_values(|p: PartiallySupportedColumn| partial_view(p)).push(
                    partial_view(entry),
                ));
            }
        }
        i = i + 1;
    }
    ScanValidationReport {
        route_segment,
        requested_markets: markets,
        supported_columns,
        partially_supported_columns,
        unsupported_columns,
    }
}

// ---------------------------------------------------------------- filtering

pub open spec fn text_views(v: Seq<String>) -> Seq<Seq<char>> {
    v.map_values(|s: String| s@)
}

/// The names of the fully supported columns of a report.
pub open spec fn supported_names(report: ScanValidationReport) -> Seq<Seq<char>> {
    column_views(report.supported_columns@)
}

/// The names that break strict support: the partially supported columns,
/// then the unsupported ones.
pub open spec fn violation_names(report: ScanValidationReport) -> Seq<Seq<char>> {
    report.partially_supported_columns@.map_values(|p: PartiallySupportedColumn| p.column@)
        + column_views(report.unsupported_columns@)
}

/// The columns among the first `k` whose name is in `allowed`, in order.
pub open spec fn kept_columns(cols: Seq<Seq<char>>, allowed: Seq<Seq<char>>, k: int) -> Seq<Seq<char>>
    decreases k,
{
    if k <= 0 {
        Seq::empty()
    } else {
        let before = kept_columns(cols, allowed, k - 1);
        if allowed.contains(cols[k - 1]) {
            before.push(cols[k - 1])
        } else {
            before
        }
    }
}

/// Whether `name` is one of the given columns' names.
fn names_contain(columns: &Vec<Column>, name: &str) -> (r: bool)
    ensures
        r == column_views(columns@).contains(name@),
{
    let ghost names = column_views(columns@);
    let mut i: usize = 0;
    while i < columns.len()
        invariant
            names == column_views(columns@),
            i <= columns@.len(),
            forall|k: int| 0 <= k < i ==> names[k] != name@,
        decreases columns@.len() - i,
    {
        if str_equals(columns[i].as_str(), name) {
            assert(names[i as int] == name@);
            return true;
        }
        i = i + 1;
    }
    proof {
        if names.contains(name@) {
            let k = choose|k: int| 0 <= k < names.len() && #[trigger] names[k] == name@;
            assert(names[k] != name@);
        }
    }
    false
}

/// The names of the partially supported and the unsupported columns of a report.
fn violation_field_names(report: &ScanValidationReport) -> (names: Vec<String>)
    ensures
        text_views(names@) == violation_names(*report),
{
    let ghost partial = report.partially_supported_columns@.map_values(
        |p: PartiallySupportedColumn| p.column@,
    );
    let mut out: Vec<String> = Vec::new();
    let mut i: usize = 0;
    while i < report.partially_supported_columns.len()
        invariant
            partial == report.partially_supported_columns@.map_values(
                |p: PartiallySupportedColumn| p.column@,
            ),
            i <= partial.len(),
            text_views(out@) == partial.take(i as int),
        decreases partial.len() - i,
    {
        let ghost before = out@;
        out.push(report.partially_supported_columns[i].column.to_text());
        assert(text_views(out@) =~= text_views(before).push(partial[i as int]));
        assert(partial.take(i + 1) =~= partial.take(i as int).push(partial[i as int]));
        i = i + 1;
    }
    assert(partial.take(partial.len() as int) =~= partial);
    let ghost unsupported = column_views(report.unsupported_columns@);
    let mut j: usize = 0;
    while j < report.unsupported_columns.len()
        invariant
            partial == report.partially_supported_columns@.map_values(
                |p: PartiallySupportedColumn| p.column@,
            ),
            unsupported == column_views(report.unsupported_columns@),
            j <= unsupported.len(),
            text_views(out@) == partial + unsupported.take(j as int),
        decreases unsupported.len() - j,
    {
        let ghost before = out@;
        out.push(report.unsupported_columns[j].to_text());
        assert(text_views(out@) =~= text_views(before).push(unsupported[j as int]));
        assert(partial + unsupported.take(j + 1) =~= (partial + unsupported.take(j as int)).push(
            unsupported[j as int],
        ));
        j = j + 1;
    }
    assert(unsupported.take(unsupported.len() as int) =~= unsupported);
    out
}

/// The requested columns that every requested market supports, in request
/// order. When none is left the scan cannot run, and the error names the
/// route and the columns that broke strict support.
pub fn filter_supported_columns(report: &ScanValidationReport, columns: &Vec<Column>) -> (r: Result<
    Vec<Column>,
    Error,
>)
    ensures
        ({
            let kept = kept_columns(
                column_views(columns@),
                supported_names(*report),
                columns@.len() as int,
            );
            &&& kept.len() > 0 ==> (r matches Ok(v) && column_views(v@) == kept)
            &&& kept.len() == 0 ==> (r matches Err(Error::UnsupportedScanFields { route, fields })
                && route@ == report.route_segment@ && text_views(fields@) == violation_names(
                *report,
            ))
        }),
{
    let ghost cols = column_views(columns@);
    let ghost allowed = supported_names(*report);
    let mut out: Vec<Column> = Vec::new();
    let mut i: usize = 0;
    while i < columns.len()
        invariant
            cols == column_views(columns@),
            allowed == supported_names(*report),
            i <= columns@.len(),
            column_views(out@) == kept_columns(cols, allowed, i as int),
        decreases columns@.len() - i,
    {
        let ghost before = out@;
        if names_contain(&report.supported_columns, columns[i].as_str()) {
            out.push(columns[i].clone_column());
            assert(column_views(out@) =~= column_views(before).push(cols[i as int]));
        }
        i = i + 1;
    }
    if out.len() == 0 {
        return Err(
            Error::UnsupportedScanFields {
                route: report.route_segment.clone(),
                fields: violation_field_names(report),
            },
        );
    }
    Ok(out)
}

/// Succeeds when every requested column is supported by every requested
/// market; otherwise the error names the route and the partially supported
/// and unsupported columns.
pub fn require_strict_support(report: &ScanValidationReport) -> (r: Result<(), Error>)
    ensures
        r is Ok <==> (report.partially_supported_columns@.len() == 0
            && report.unsupported_columns@.len() == 0),
        r is Err ==> (r matches Err(Error::UnsupportedScanFields { route, fields })
            && route@ == report.route_segment@ && text_views(fields@) == violation_names(*report)),
{
    if report.partially_supported_columns.len() == 0 && report.unsupported_columns.len() == 0 {
        Ok(())
    } else {
        Err(
            Error::UnsupportedScanFields {
                route: report.route_segment.clone(),
                fields: violation_field_names(report),
            },
        )
    }
}

proof fn lemma_markets_partition(markets: Seq<Seq<char>>, row: Seq<bool>, k: int)
    requires
        0 <= k,
    ensures
        markets_where(markets, row, true, k).len() + markets_where(markets, row, false, k).len()
            == k,
    decreases k,
{
    if k > 0 {
        lemma_markets_partition(markets, row, k - 1);
    }
}

/// With at least one market requested, every column that does not repeat an
/// earlier one is reported as supported, partially supported or unsupported.
pub proof fn law_distinct_columns_are_classified(
    cols: Seq<Seq<char>>,
    markets: Seq<Seq<char>>,
    row: Seq<bool>,
    i: int,
)
    requires
        markets.len() > 0,
        first_occurrence(cols, i),
    ensures
        support_of(cols, markets, row, i) != Support::Skipped,
{
    lemma_markets_partition(markets, row, markets.len() as int);
}

/// A column that repeats an earlier one is never reported.
pub proof fn law_repeated_columns_are_skipped(
    cols: Seq<Seq<char>>,
    markets: Seq<Seq<char>>,
    row: Seq<bool>,
    i: int,
    j: int,
)
    requires
        0 <= j < i < cols.len(),
        cols[j] == cols[i],
    ensures
        support_of(cols, markets, row, i) == Support::Skipped,
{
}

proof fn lemma_columns_with_origin(
    cols: Seq<Seq<char>>,
    markets: Seq<Seq<char>>,
    rows: Seq<Seq<bool>>,
    s: Support,
    k: int,
    n: Seq<char>,
)
    requires
        columns_with(cols, markets, rows, s, k).contains(n),
    ensures
        exists|i: int|
            0 <= i < k && cols[i] == n && #[trigger] support_of(cols, markets, rows[i], i) == s,
    decreases k,
{
    if k > 0 {
        let before = columns_with(cols, markets, rows, s, k - 1);
        if support_of(cols, markets, rows[k - 1], k - 1) == s && !before.contains(n) {
            let cur = before.push(cols[k - 1]);
            let j = choose|j: int| 0 <= j < cur.len() && #[trigger] cur[j] == n;
            assert(j == before.len());
            assert(cols[k - 1] == n);
        } else {
            lemma_columns_with_origin(cols, markets, rows, s, k - 1, n);
        }
    }
}

/// No column name is reported under two different kinds of support.
pub proof fn law_report_lists_disjoint(
    cols: Seq<Seq<char>>,
    markets: Seq<Seq<char>>,
    rows: Seq<Seq<bool>>,
    k: int,
    s1: Support,
    s2: Support,
    n: Seq<char>,
)
    requires
        s1 != s2,
        s1 != Support::Skipped,
        s2 != Support::Skipped,
    ensures
        !(columns_with(cols, markets, rows, s1, k).contains(n) && columns_with(
            cols,
            markets,
            rows,
            s2,
            k,
        ).contains(n)),
{
    if columns_with(cols, markets, rows, s1, k).contains(n) && columns_with(
        cols,
        markets,
        rows,
        s2,
        k,
    ).contains(n) {
        lemma_columns_with_origin(cols, markets, rows, s1, k, n);
        lemma_columns_with_origin(cols, markets, rows, s2, k, n);
        let i = choose|i: int|
            0 <= i < k && cols[i] == n && #[trigger] support_of(cols, markets, rows[i], i) == s1;
        let j = choose|j: int|
            0 <= j < k && cols[j] == n && #[trigger] support_of(cols, markets, rows[j], j) == s2;
        assert(first_occurrence(cols, i));
        assert(first_occurrence(cols, j));
        if i < j {
            assert(cols[i] != cols[j]);
        } else if j < i {
            assert(cols[j] != cols[i]);
        }
    }
}

/// The partially supported entries name exactly the columns of partial support, in order.
pub proof fn law_partial_entries_names(
    cols: Seq<Seq<char>>,
    markets: Seq<Seq<char>>,
    rows: Seq<Seq<bool>>,
    k: int,
)
    ensures
        partial_entries(cols, markets, rows, k).map_values(
            |e: (Seq<char>, Seq<Seq<char>>, Seq<Seq<char>>)| e.0,
        ) == columns_with(cols, markets, rows, Support::Partial, k),
    decreases k,
{
    if k > 0 {
        law_partial_entries_names(cols, markets, rows, k - 1);
        assert(partial_entries(cols, markets, rows, k).map_values(
            |e: (Seq<char>, Seq<Seq<char>>, Seq<Seq<char>>)| e.0,
        ) =~= columns_with(cols, markets, rows, Support::Partial, k));
    } else {
        assert(partial_entries(cols, markets, rows, k).map_values(
            |e: (Seq<char>, Seq<Seq<char>>, Seq<Seq<char>>)| e.0,
        ) =~= Seq::<Seq<char>>::empty());
    }
}


proof fn lemma_markets_where_empty(markets: Seq<Seq<char>>, row: Seq<bool>, want: bool, k: int)
    requires
        0 <= k,
    ensures
        markets_where(markets, row, want, k).len() == 0 <==> forall|j: int|
            0 <= j < k ==> #[trigger] row[j] != want,
    decreases k,
{
    if k > 0 {
        lemma_markets_where_empty(markets, row, want, k - 1);
        lemma_markets_partition(markets, row, k - 1);
    }
}

/// For a column that does not repeat an earlier one, with at least one
/// market requested and one support flag per market: it is unsupported
/// exactly when no market supports it, fully supported exactly when every
/// market does, and partially supported exactly when some market supports
/// it and some market does not.
pub proof fn law_support_follows_the_flags(
    cols: Seq<Seq<char>>,
    markets: Seq<Seq<char>>,
    row: Seq<bool>,
    i: int,
)
    requires
        markets.len() > 0,
        row.len() == markets.len(),
        first_occurrence(cols, i),
    ensures
        support_of(cols, markets, row, i) == Support::Missing <==> forall|j: int|
            0 <= j < row.len() ==> !#[trigger] row[j],
        support_of(cols, markets, row, i) == Support::Full <==> forall|j: int|
            0 <= j < row.len() ==> #[trigger] row[j],
        support_of(cols, markets, row, i) == Support::Partial <==> (exists|j: int|
            0 <= j < row.len() && #[trigger] row[j]) && (exists|j: int|
            0 <= j < row.len() && !#[trigger] row[j]),
{
    let n = markets.len() as int;
    lemma_markets_partition(markets, row, n);
    lemma_markets_where_empty(markets, row, true, n);
    lemma_markets_where_empty(markets, row, false, n);
    assert(row[0] || !row[0]);
}

} // verus!

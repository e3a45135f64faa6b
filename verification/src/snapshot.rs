//! Snapshot lookups: which tickers a quote scan asks for, and which returned
//! row answers each requested ticker.
use vstd::prelude::*;

use crate::error::Error;
use crate::scanner::{str_equals, Column, FilterCondition, FilterOperator, FilterValue, Ticker};

verus! {

broadcast use vstd::seq::group_seq_axioms;

pub open spec fn ticker_views(v: Seq<Ticker>) -> Seq<Seq<char>> {
    v.map_values(|t: Ticker| t@)
}

pub open spec fn string_views(v: Seq<String>) -> Seq<Seq<char>> {
    v.map_values(|s: String| s@)
}

/// The names among the first `k` that do not repeat an earlier name, in order.
pub open spec fn first_occurrences(names: Seq<Seq<char>>, k: int) -> Seq<Seq<char>>
    decreases k,
{
    if k <= 0 {
        Seq::empty()
    } else {
        let before = first_occurrences(names, k - 1);
        if names.take(k - 1).contains(names[k - 1]) {
            before
        } else {
            before.push(names[k - 1])
        }
    }
}

/// The last position below `k` holding `name`.
pub open spec fn last_index_of(names: Seq<Seq<char>>, name: Seq<char>, k: int) -> Option<int>
    decreases k,
{
    if k <= 0 {
        None
    } else if names[k - 1] == name {
        Some(k - 1)
    } else {
        last_index_of(names, name, k - 1)
    }
}

/// The first position at or after `from` holding `name`.
pub open spec fn first_index_of(names: Seq<Seq<char>>, name: Seq<char>, from: int) -> Option<int>
    decreases names.len() - from,
{
    if from < 0 || from >= names.len() {
        None
    } else if names[from] == name {
        Some(from)
    } else {
        first_index_of(names, name, from + 1)
    }
}

/// The first requested ticker that no row answers, among the first `k`.
pub open spec fn first_unanswered(requested: Seq<Seq<char>>, rows: Seq<Seq<char>>, k: int) -> Option<int>
    decreases k,
{
    if k <= 0 {
        None
    } else {
        match first_unanswered(requested, rows, k - 1) {
            Some(i) => Some(i),
            None => if last_index_of(rows, requested[k - 1], rows.len() as int) is None {
                Some(k - 1)
            } else {
                None
            },
        }
    }
}

proof fn lemma_contains_take_step(names: Seq<Seq<char>>, k: int, name: Seq<char>)
    requires
        0 <= k < names.len(),
    ensures
        names.take(k + 1).contains(name) == (names.take(k).contains(name) || names[k] == name),
{
    assert(names.take(k + 1) =~= names.take(k).push(names[k]));
    if names.take(k + 1).contains(name) && names[k] != name {
        let j = choose|j: int| 0 <= j < k + 1 && #[trigger] names.take(k + 1)[j] == name;
        assert(names.take(k)[j] == name);
    }
    if names.take(k).contains(name) {
        let j = choose|j: int| 0 <= j < k && #[trigger] names.take(k)[j] == name;
        assert(names.take(k + 1)[j] == name);
    }
    if names[k] == name {
        assert(names.take(k + 1)[k] == name);
    }
}

/// The requested tickers without repeats, in the order first asked for.
pub fn unique_tickers(requested: &Vec<Ticker>) -> (r: Vec<Ticker>)
    ensures
        ticker_views(r@) == first_occurrences(ticker_views(requested@), requested@.len() as int),
{
    let ghost names = ticker_views(requested@);
    let mut out: Vec<Ticker> = Vec::new();
    let mut i: usize = 0;
    while i < requested.len()
        invariant
            names == ticker_views(requested@),
            i <= requested@.len(),
            ticker_views(out@) == first_occurrences(names, i as int),
        decreases requested@.len() - i,
    {
        let mut j: usize = 0;
        let mut seen = false;
        while j < i
            invariant
                names == ticker_views(requested@),
                j <= i < requested@.len(),
                seen == names.take(j as int).contains(names[i as int]),
            decreases i - j,
        {
            proof {
                lemma_contains_take_step(names, j as int, names[i as int]);
            }
            if str_equals(requested[j].as_str(), requested[i].as_str()) {
                seen = true;
            }
            j = j + 1;
        }
        let ghost before = out@;
        if !seen {
            out.push(requested[i].duplicate());
            assert(ticker_views(out@) =~= ticker_views(before).push(names[i as int]));
        }
        i = i + 1;
    }
    out
}

/// The tickers and page of the one scan that loads snapshots for the
/// requested tickers: each distinct ticker once, in the order first asked
/// for, on page `(0, number of distinct tickers)`.
pub fn snapshot_query_columns_and_page(requested: &Vec<Ticker>) -> (r: (Vec<Ticker>, usize, usize))
    ensures
        ticker_views(r.0@) == first_occurrences(ticker_views(requested@), requested@.len() as int),
        r.1 == 0,
        r.2 == r.0@.len(),
{
    let tickers = unique_tickers(requested);
    let count = tickers.len();
    (tickers, 0, count)
}

/// For each requested ticker, the position of the row that answers it (the
/// last row with that symbol); a ticker that no row answers is an error that
/// names it, the first such ticker in request order.
pub fn rows_for_requested(requested: &Vec<Ticker>, row_symbols: &Vec<String>) -> (r: Result<
    Vec<usize>,
    Error,
>)
    ensures
        ({
            let req = ticker_views(requested@);
            let rows = string_views(row_symbols@);
            match first_unanswered(req, rows, req.len() as int) {
                None => r matches Ok(idx) && idx@.len() == req.len() && forall|i: int|
                    0 <= i < req.len() ==> last_index_of(rows, req[i], rows.len() as int) == Some(
                        #[trigger] idx@[i] as int,
                    ),
                Some(i) => r matches Err(Error::SymbolNotFound { symbol }) && symbol@ == req[i],
            }
        }),
{
    let ghost req = ticker_views(requested@);
    let ghost rows = string_views(row_symbols@);
    let mut out: Vec<usize> = Vec::new();
    let mut i: usize = 0;
    while i < requested.len()
        invariant
            req == ticker_views(requested@),
            rows == string_views(row_symbols@),
            i <= req.len(),
            first_unanswered(req, rows, i as int) is None,
            out@.len() == i,
            forall|k: int|
                0 <= k < i ==> last_index_of(rows, req[k], rows.len() as int) == Some(
                    #[trigger] out@[k] as int,
                ),
        decreases req.len() - i,
    {
        let mut j: usize = row_symbols.len();
        let mut found: Option<usize> = None;
        while j > 0
            invariant
                rows == string_views(row_symbols@),
                req == ticker_views(requested@),
                i < req.len(),
                j <= rows.len(),
                found is None ==> last_index_of(rows, req[i as int], rows.len() as int)
                    == last_index_of(rows, req[i as int], j as int),
                found matches Some(f) ==> last_index_of(rows, req[i as int], rows.len() as int)
                    == Some(f as int),
            decreases j,
        {
            if found.is_none() && str_equals(row_symbols[j - 1].as_str(), requested[i].as_str()) {
                assert(rows[j - 1] == req[i as int]);
                found = Some(j - 1);
            }
            j = j - 1;
        }
        match found {
            Some(f) => {
                out.push(f);
            },
            None => {
                assert(last_index_of(rows, req[i as int], 0) is None);
                assert(first_unanswered(req, rows, i + 1) == Some(i as int));
                proof {
                    lemma_first_unanswered_stays(req, rows, i + 1, req.len() as int);
                }
                return Err(Error::SymbolNotFound { symbol: requested[i].to_text() });
            },
        }
        i = i + 1;
    }
    Ok(out)
}

proof fn lemma_first_unanswered_stays(req: Seq<Seq<char>>, rows: Seq<Seq<char>>, k: int, n: int)
    requires
        0 <= k <= n,
        first_unanswered(req, rows, k) is Some,
    ensures
        first_unanswered(req, rows, n) == first_unanswered(req, rows, k),
    decreases n - k,
{
    if k < n {
        lemma_first_unanswered_stays(req, rows, k + 1, n);
    }
}

/// The position of the first row whose symbol is `symbol`; none answering is
/// an error that names the symbol.
pub fn row_for_symbol(row_symbols: &Vec<String>, symbol: &str) -> (r: Result<usize, Error>)
    ensures
        match first_index_of(string_views(row_symbols@), symbol@, 0) {
            Some(i) => r matches Ok(j) && j == i,
            None => r matches Err(Error::SymbolNotFound { symbol: s }) && s@ == symbol@,
        },
{
    let ghost rows = string_views(row_symbols@);
    let mut j: usize = 0;
    while j < row_symbols.len()
        invariant
            rows == string_views(row_symbols@),
            j <= rows.len(),
            first_index_of(rows, symbol@, 0) == first_index_of(rows, symbol@, j as int),
        decreases rows.len() - j,
    {
        if str_equals(row_symbols[j].as_str(), symbol) {
            assert(rows[j as int] == symbol@);
            return Ok(j);
        }
        j = j + 1;
    }
    Err(Error::SymbolNotFound { symbol: symbol.to_owned() })
}

proof fn lemma_first_occurrences(names: Seq<Seq<char>>, k: int)
    requires
        0 <= k <= names.len(),
    ensures
        forall|n: Seq<char>| first_occurrences(names, k).contains(n) <==> names.take(k).contains(n),
        forall|a: int, b: int|
            0 <= a < b < first_occurrences(names, k).len() ==> first_occurrences(names, k)[a]
                != first_occurrences(names, k)[b],
    decreases k,
{
    if k > 0 {
        lemma_first_occurrences(names, k - 1);
        let before = first_occurrences(names, k - 1);
        let x = names[k - 1];
        assert forall|n: Seq<char>| #[trigger]
            first_occurrences(names, k).contains(n) <==> names.take(k).contains(n) by {
            lemma_contains_take_step(names, k - 1, n);
            if names.take(k - 1).contains(x) {
                assert(first_occurrences(names, k) == before);
            } else {
                let cur = before.push(x);
                assert(first_occurrences(names, k) == cur);
                if cur.contains(n) && !before.contains(n) {
                    let j = choose|j: int| 0 <= j < cur.len() && #[trigger] cur[j] == n;
                    assert(j == before.len());
                }
                if before.contains(n) {
                    let j = choose|j: int| 0 <= j < before.len() && #[trigger] before[j] == n;
                    assert(cur[j] == n);
                }
                if n == x {
                    assert(cur[before.len() as int] == n);
                }
            }
        }
        if !names.take(k - 1).contains(x) {
            let cur = before.push(x);
            assert forall|a: int, b: int| 0 <= a < b < cur.len() implies cur[a] != cur[b] by {
                if b == before.len() {
                    assert(cur[a] == before[a]);
                    assert(before.contains(before[a]));
                }
            }
        }
    }
}

/// The tickers a quote scan asks for have no repeats, and cover exactly the
/// requested tickers.
pub proof fn law_unique_tickers_cover_requests(requested: Seq<Seq<char>>)
    ensures
        forall|n: Seq<char>|
            first_occurrences(requested, requested.len() as int).contains(n) <==> requested.contains(n),
        forall|a: int, b: int|
            0 <= a < b < first_occurrences(requested, requested.len() as int).len()
                ==> first_occurrences(requested, requested.len() as int)[a]
                != first_occurrences(requested, requested.len() as int)[b],
{
    lemma_first_occurrences(requested, requested.len() as int);
    assert(requested.take(requested.len() as int) =~= requested);
}


/// The filters of a market-wide quote scan: a positive close, and a positive
/// volume when asked for.
pub fn market_quote_filters(require_positive_volume: bool) -> (r: Vec<FilterCondition>)
    ensures
        r@.len() == (if require_positive_volume { 2int } else { 1int }),
        r@[0].left@ == seq!['c', 'l', 'o', 's', 'e'],
        r@[0].operation == FilterOperator::Greater,
        r@[0].right == FilterValue::Int(0),
        require_positive_volume ==> (r@[1].left@ == seq!['v', 'o', 'l', 'u', 'm', 'e']
            && r@[1].operation == FilterOperator::Greater && r@[1].right == FilterValue::Int(0)),
{
    let mut r: Vec<FilterCondition> = Vec::new();
    proof {
        reveal_strlit("close");
        reveal_strlit("volume");
    }
    r.push(Column::from_static("close").gt(0i64));
    if require_positive_volume {
        r.push(Column::from_static("volume").gt(0i64));
    }
    r
}

/// The page of a market-wide quote scan: the first `limit` rows. A limit of
/// zero is refused.
pub fn market_quote_page(limit: usize) -> (r: Result<(usize, usize), Error>)
    ensures
        limit > 0 <==> r is Ok,
        r matches Ok(p) ==> p == (0usize, limit),
        limit == 0 ==> r matches Err(Error::InvalidPageLimit),
{
    if limit == 0 {
        Err(Error::InvalidPageLimit)
    } else {
        Ok((0, limit))
    }
}

} // verus!

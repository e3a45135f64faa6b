//! Scanner vocabulary: columns, markets, tickers and instrument references,
//! and the filter and sort clauses that a scan query is built from.
use vstd::prelude::*;

use crate::text::{
    ascii_upper, ascii_upper_seq, chars_of, decimal_text, is_ascii_alnum, is_ascii_lower,
    is_trimmed, lemma_ascii_upper_char, lemma_ascii_upper_of_upper,
    lemma_ascii_upper_seq, lemma_trim_spec_of_trimmed, lemma_trim_spec_trimmed, push_char,
    push_decimal, to_ascii_uppercase, trim_owned, trim_spec,
};

verus! {

broadcast use vstd::seq::group_seq_axioms;

/// Whether two string slices hold the same characters.
pub fn str_equals(a: &str, b: &str) -> (r: bool)
    ensures
        r == (a@ == b@),
{
    let x = chars_of(a);
    let y = chars_of(b);
    if x.len() != y.len() {
        return false;
    }
    let mut i: usize = 0;
    while i < x.len()
        invariant
            x@ == a@,
            y@ == b@,
            x@.len() == y@.len(),
            i <= x@.len(),
            forall|j: int| 0 <= j < i ==> x@[j] == y@[j],
        decreases x@.len() - i,
    {
        if x[i] != y[i] {
            return false;
        }
        i = i + 1;
    }
    assert(x@ =~= y@);
    true
}

// ---------------------------------------------------------------- filters

/// A value on the right-hand side of a filter.
#[derive(Debug)]
pub enum FilterValue {
    Null,
    Bool(bool),
    Int(i64),
    UInt(u64),
    Text(String),
    List(Vec<FilterValue>),
}

/// Comparison operators understood by the scanner.
#[derive(Debug, Clone, Copy, PartialEq, Eq, Structural)]
pub enum FilterOperator {
    Greater,
    EGreater,
    Less,
    ELess,
    Equal,
    NotEqual,
    InRange,
    NotInRange,
    Crosses,
    CrossesAbove,
    CrossesBelow,
    Match,
    Empty,
    NotEmpty,
    AbovePercent,
    BelowPercent,
}

/// One filter clause: `left operation right`.
#[derive(Debug)]
pub struct FilterCondition {
    pub left: Column,
    pub operation: FilterOperator,
    pub right: FilterValue,
}

impl FilterCondition {
    pub fn new(left: Column, operation: FilterOperator, right: FilterValue) -> (c: Self)
        ensures
            c.left == left,
            c.operation == operation,
            c.right == right,
    {
        FilterCondition { left, operation, right }
    }
}

#[derive(Debug, Clone, Copy, PartialEq, Eq, Structural)]
pub enum SortOrder {
    Asc,
    Desc,
}

/// Sort clause of a scan query.
#[derive(Debug, Clone)]
pub struct SortSpec {
    pub sort_by: Column,
    pub sort_order: SortOrder,
}

impl SortSpec {
    pub fn new(sort_by: Column, sort_order: SortOrder) -> (s: Self)
        ensures
            s.sort_by == sort_by,
            s.sort_order == sort_order,
    {
        SortSpec { sort_by, sort_order }
    }
}

/// Values that can stand on the right-hand side of a filter.
pub trait IntoFilterValue: Sized {
    spec fn filter_value_spec(self) -> FilterValue;

    fn into_filter_value(self) -> (v: FilterValue)
        ensures
            v == self.filter_value_spec(),
    ;
}

impl IntoFilterValue for FilterValue {
    open spec fn filter_value_spec(self) -> FilterValue {
        self
    }

    fn into_filter_value(self) -> (v: FilterValue) {
        self
    }
}

impl IntoFilterValue for bool {
    open spec fn filter_value_spec(self) -> FilterValue {
        FilterValue::Bool(self)
    }

    fn into_filter_value(self) -> (v: FilterValue) {
        FilterValue::Bool(self)
    }
}

impl IntoFilterValue for i32 {
    open spec fn filter_value_spec(self) -> FilterValue {
        FilterValue::Int(self as i64)
    }

    fn into_filter_value(self) -> (v: FilterValue) {
        FilterValue::Int(self as i64)
    }
}

impl IntoFilterValue for i64 {
    open spec fn filter_value_spec(self) -> FilterValue {
        FilterValue::Int(self)
    }

    fn into_filter_value(self) -> (v: FilterValue) {
        FilterValue::Int(self)
    }
}

impl IntoFilterValue for u32 {
    open spec fn filter_value_spec(self) -> FilterValue {
        FilterValue::UInt(self as u64)
    }

    fn into_filter_value(self) -> (v: FilterValue) {
        FilterValue::UInt(self as u64)
    }
}

impl IntoFilterValue for u64 {
    open spec fn filter_value_spec(self) -> FilterValue {
        FilterValue::UInt(self)
    }

    fn into_filter_value(self) -> (v: FilterValue) {
        FilterValue::UInt(self)
    }
}

impl IntoFilterValue for usize {
    open spec fn filter_value_spec(self) -> FilterValue {
        FilterValue::UInt(self as u64)
    }

    fn into_filter_value(self) -> (v: FilterValue) {
        FilterValue::UInt(self as u64)
    }
}

impl IntoFilterValue for String {
    open spec fn filter_value_spec(self) -> FilterValue {
        FilterValue::Text(self)
    }

    fn into_filter_value(self) -> (v: FilterValue) {
        FilterValue::Text(self)
    }
}

impl IntoFilterValue for Vec<FilterValue> {
    open spec fn filter_value_spec(self) -> FilterValue {
        FilterValue::List(self)
    }

    fn into_filter_value(self) -> (v: FilterValue) {
        FilterValue::List(self)
    }
}

/// The filter values of a list of inputs.
pub open spec fn filter_values_spec<V: IntoFilterValue>(values: Seq<V>) -> Seq<FilterValue> {
    values.map_values(|v: V| v.filter_value_spec())
}

/// A list value holding the filter values of `values`, in order.
pub open spec fn is_list_of<V: IntoFilterValue>(f: FilterValue, values: Seq<V>) -> bool {
    f matches FilterValue::List(l) && l@ == filter_values_spec(values)
}

fn list_of<V: IntoFilterValue>(values: Vec<V>) -> (f: FilterValue)
    ensures
        is_list_of(f, values@),
{
    let ghost input = values@;
    let mut out: Vec<FilterValue> = Vec::new();
    for v in it: values
        invariant
            it.seq() == input,
            out@ == filter_values_spec(input.take(it.index() as int)),
    {
        let ghost k = it.index() as int;
        assert(input.take(k + 1) =~= input.take(k).push(v));
        out.push(v.into_filter_value());
        assert(filter_values_spec(input.take(k + 1)) =~= filter_values_spec(input.take(k)).push(
            v.filter_value_spec(),
        ));
    }
    assert(input.take(input.len() as int) =~= input);
    FilterValue::List(out)
}

/// A two-element list value.
pub open spec fn is_pair_of(f: FilterValue, a: FilterValue, b: FilterValue) -> bool {
    f matches FilterValue::List(l) && l@ == seq![a, b]
}

// ---------------------------------------------------------------- columns

/// A scanner field name, such as `close` or `RSI|60`.
#[derive(Debug, Clone, PartialEq, Eq, Hash, Ord, PartialOrd)]
pub struct Column(String);

impl View for Column {
    type V = Seq<char>;

    closed spec fn view(&self) -> Seq<char> {
        self.0@
    }
}

/// The condition `column operation value`.
pub open spec fn is_condition(
    c: FilterCondition,
    column: Column,
    operation: FilterOperator,
    value: FilterValue,
) -> bool {
    c.left == column && c.operation == operation && c.right == value
}

impl Column {
    pub fn from_static(name: &'static str) -> (c: Self)
        ensures
            c@ == name@,
    {
        Column(name.to_owned())
    }

    pub fn new(name: String) -> (c: Self)
        ensures
            c@ == name@,
    {
        Column(name)
    }

    pub fn as_str(&self) -> (s: &str)
        ensures
            s@ == self@,
    {
        self.0.as_str()
    }

    /// The same field on another timeframe: `name|interval`.
    pub fn with_interval(&self, interval: &str) -> (c: Self)
        ensures
            c@ == self@.push('|') + interval@,
    {
        let mut out = String::new();
        out.append(self.as_str());
        push_char(&mut out, '|');
        out.append(interval);
        Column(out)
    }

    /// The value `periods` bars back: `name[periods]`.
    pub fn with_history(&self, periods: u16) -> (c: Self)
        ensures
            c@ == (self@.push('[') + decimal_text(periods as nat)).push(']'),
    {
        let mut out = String::new();
        out.append(self.as_str());
        push_char(&mut out, '[');
        push_decimal(&mut out, periods as u64);
        push_char(&mut out, ']');
        Column(out)
    }

    /// The analyst recommendation field for this one: `Rec.name`.
    pub fn recommendation(&self) -> (c: Self)
        ensures
            c@ == seq!['R', 'e', 'c', '.'] + self@,
    {
        let mut out = String::new();
        push_char(&mut out, 'R');
        push_char(&mut out, 'e');
        push_char(&mut out, 'c');
        push_char(&mut out, '.');
        out.append(self.as_str());
        assert(out@ == seq!['R', 'e', 'c', '.'] + self@);
        Column(out)
    }

    pub fn gt<V: IntoFilterValue>(self, value: V) -> (c: FilterCondition)
        ensures
            is_condition(c, self, FilterOperator::Greater, value.filter_value_spec()),
    {
        FilterCondition::new(self, FilterOperator::Greater, value.into_filter_value())
    }

    pub fn ge<V: IntoFilterValue>(self, value: V) -> (c: FilterCondition)
        ensures
            is_condition(c, self, FilterOperator::EGreater, value.filter_value_spec()),
    {
        FilterCondition::new(self, FilterOperator::EGreater, value.into_filter_value())
    }

    pub fn lt<V: IntoFilterValue>(self, value: V) -> (c: FilterCondition)
        ensures
            is_condition(c, self, FilterOperator::Less, value.filter_value_spec()),
    {
        FilterCondition::new(self, FilterOperator::Less, value.into_filter_value())
    }

    pub fn le<V: IntoFilterValue>(self, value: V) -> (c: FilterCondition)
        ensures
            is_condition(c, self, FilterOperator::ELess, value.filter_value_spec()),
    {
        FilterCondition::new(self, FilterOperator::ELess, value.into_filter_value())
    }

    pub fn eq<V: IntoFilterValue>(self, value: V) -> (c: FilterCondition)
        ensures
            is_condition(c, self, FilterOperator::Equal, value.filter_value_spec()),
    {
        FilterCondition::new(self, FilterOperator::Equal, value.into_filter_value())
    }

    pub fn ne<V: IntoFilterValue>(self, value: V) -> (c: FilterCondition)
        ensures
            is_condition(c, self, FilterOperator::NotEqual, value.filter_value_spec()),
    {
        FilterCondition::new(self, FilterOperator::NotEqual, value.into_filter_value())
    }

    pub fn between<L: IntoFilterValue, U: IntoFilterValue>(self, lower: L, upper: U) -> (c:
        FilterCondition)
        ensures
            c.left == self,
            c.operation == FilterOperator::InRange,
            is_pair_of(c.right, lower.filter_value_spec(), upper.filter_value_spec()),
    {
        let mut pair: Vec<FilterValue> = Vec::new();
        pair.push(lower.into_filter_value());
        pair.push(upper.into_filter_value());
        assert(pair@ =~= seq![lower.filter_value_spec(), upper.filter_value_spec()]);
        FilterCondition::new(self, FilterOperator::InRange, pair.into_filter_value())
    }

    pub fn not_between<L: IntoFilterValue, U: IntoFilterValue>(self, lower: L, upper: U) -> (c:
        FilterCondition)
        ensures
            c.left == self,
            c.operation == FilterOperator::NotInRange,
            is_pair_of(c.right, lower.filter_value_spec(), upper.filter_value_spec()),
    {
        let mut pair: Vec<FilterValue> = Vec::new();
        pair.push(lower.into_filter_value());
        pair.push(upper.into_filter_value());
        assert(pair@ =~= seq![lower.filter_value_spec(), upper.filter_value_spec()]);
        FilterCondition::new(self, FilterOperator::NotInRange, pair.into_filter_value())
    }

    pub fn isin<V: IntoFilterValue>(self, values: Vec<V>) -> (c: FilterCondition)
        ensures
            c.left == self,
            c.operation == FilterOperator::InRange,
            is_list_of(c.right, values@),
    {
        FilterCondition::new(self, FilterOperator::InRange, list_of(values))
    }

    pub fn not_in<V: IntoFilterValue>(self, values: Vec<V>) -> (c: FilterCondition)
        ensures
            c.left == self,
            c.operation == FilterOperator::NotInRange,
            is_list_of(c.right, values@),
    {
        FilterCondition::new(self, FilterOperator::NotInRange, list_of(values))
    }

    pub fn crosses<V: IntoFilterValue>(self, value: V) -> (c: FilterCondition)
        ensures
            is_condition(c, self, FilterOperator::Crosses, value.filter_value_spec()),
    {
        FilterCondition::new(self, FilterOperator::Crosses, value.into_filter_value())
    }

    pub fn crosses_above<V: IntoFilterValue>(self, value: V) -> (c: FilterCondition)
        ensures
            is_condition(c, self, FilterOperator::CrossesAbove, value.filter_value_spec()),
    {
        FilterCondition::new(self, FilterOperator::CrossesAbove, value.into_filter_value())
    }

    pub fn crosses_below<V: IntoFilterValue>(self, value: V) -> (c: FilterCondition)
        ensures
            is_condition(c, self, FilterOperator::CrossesBelow, value.filter_value_spec()),
    {
        FilterCondition::new(self, FilterOperator::CrossesBelow, value.into_filter_value())
    }

    pub fn matches<V: IntoFilterValue>(self, value: V) -> (c: FilterCondition)
        ensures
            is_condition(c, self, FilterOperator::Match, value.filter_value_spec()),
    {
        FilterCondition::new(self, FilterOperator::Match, value.into_filter_value())
    }

    pub fn empty(self) -> (c: FilterCondition)
        ensures
            is_condition(c, self, FilterOperator::Empty, FilterValue::Null),
    {
        FilterCondition::new(self, FilterOperator::Empty, FilterValue::Null)
    }

    pub fn not_empty(self) -> (c: FilterCondition)
        ensures
            is_condition(c, self, FilterOperator::NotEmpty, FilterValue::Null),
    {
        FilterCondition::new(self, FilterOperator::NotEmpty, FilterValue::Null)
    }

    pub fn above_pct<B: IntoFilterValue, P: IntoFilterValue>(self, base: B, pct: P) -> (c:
        FilterCondition)
        ensures
            c.left == self,
            c.operation == FilterOperator::AbovePercent,
            is_pair_of(c.right, base.filter_value_spec(), pct.filter_value_spec()),
    {
        let mut pair: Vec<FilterValue> = Vec::new();
        pair.push(base.into_filter_value());
        pair.push(pct.into_filter_value());
        assert(pair@ =~= seq![base.filter_value_spec(), pct.filter_value_spec()]);
        FilterCondition::new(self, FilterOperator::AbovePercent, pair.into_filter_value())
    }

    pub fn below_pct<B: IntoFilterValue, P: IntoFilterValue>(self, base: B, pct: P) -> (c:
        FilterCondition)
        ensures
            c.left == self,
            c.operation == FilterOperator::BelowPercent,
            is_pair_of(c.right, base.filter_value_spec(), pct.filter_value_spec()),
    {
        let mut pair: Vec<FilterValue> = Vec::new();
        pair.push(base.into_filter_value());
        pair.push(pct.into_filter_value());
        assert(pair@ =~= seq![base.filter_value_spec(), pct.filter_value_spec()]);
        FilterCondition::new(self, FilterOperator::BelowPercent, pair.into_filter_value())
    }

    pub fn sort(self, order: SortOrder) -> (s: SortSpec)
        ensures
            s.sort_by == self,
            s.sort_order == order,
    {
        SortSpec::new(self, order)
    }

    /// The field name (what `Display` writes).
    pub fn to_text(&self) -> (s: String)
        ensures
            s@ == self@,
    {
        self.0.clone()
    }

    /// A copy holding the same name.
    pub fn clone_column(&self) -> (c: Self)
        ensures
            c@ == self@,
    {
        Column(self.0.clone())
    }
}

// ---------------------------------------------------------------- markets

/// A scanner market such as `america` or `crypto`.
#[derive(Debug, Clone, PartialEq, Eq, Hash)]
pub struct Market(String);

impl View for Market {
    type V = Seq<char>;

    closed spec fn view(&self) -> Seq<char> {
        self.0@
    }
}

impl Market {
    pub fn from_static(name: &'static str) -> (m: Self)
        ensures
            m@ == name@,
    {
        Market(name.to_owned())
    }

    pub fn new(name: String) -> (m: Self)
        ensures
            m@ == name@,
    {
        Market(name)
    }

    pub fn as_str(&self) -> (s: &str)
        ensures
            s@ == self@,
    {
        self.0.as_str()
    }

    /// A copy holding the same name.
    pub fn duplicate(&self) -> (m: Self)
        ensures
            m@ == self@,
    {
        Market(self.0.clone())
    }
}

// ---------------------------------------------------------------- symbols

/// Venues whose symbols are currency pairs written without separators.
pub open spec fn is_forex_venue(exchange: Seq<char>) -> bool {
    ||| exchange == "FX"@
    ||| exchange == "FX_IDC"@
    ||| exchange == "FOREX"@
    ||| exchange == "OANDA"@
    ||| exchange == "FOREXCOM"@
}

/// Venues that write share classes with a dot (`BRK.B`).
pub open spec fn is_dotted_venue(exchange: Seq<char>) -> bool {
    ||| exchange == "NYSE"@
    ||| exchange == "NASDAQ"@
    ||| exchange == "AMEX"@
    ||| exchange == "ARCA"@
    ||| exchange == "BATS"@
    ||| exchange == "TSX"@
}

pub open spec fn dash_to_dot(c: char) -> char {
    if c == '-' {
        '.'
    } else {
        c
    }
}

/// Every `-` replaced by `.`.
pub open spec fn dashes_to_dots(s: Seq<char>) -> Seq<char> {
    s.map_values(|c: char| dash_to_dot(c))
}

/// Only the ASCII letters and digits of `s`, in order.
pub open spec fn alnum_only(s: Seq<char>) -> Seq<char> {
    s.filter(|c: char| is_ascii_alnum(c))
}

/// The symbol as the given venue writes it: upper case, and for currency
/// venues only letters and digits, for the dotted venues `-` becomes `.`.
pub open spec fn normalized_symbol(exchange: Seq<char>, symbol: Seq<char>) -> Seq<char> {
    let upper = ascii_upper_seq(symbol);
    if is_forex_venue(exchange) {
        alnum_only(upper)
    } else if is_dotted_venue(exchange) {
        dashes_to_dots(upper)
    } else {
        upper
    }
}

fn is_forex_venue_exec(exchange: &str) -> (r: bool)
    ensures
        r == is_forex_venue(exchange@),
{
    str_equals(exchange, "FX") || str_equals(exchange, "FX_IDC") || str_equals(exchange, "FOREX")
        || str_equals(exchange, "OANDA") || str_equals(exchange, "FOREXCOM")
}

fn is_dotted_venue_exec(exchange: &str) -> (r: bool)
    ensures
        r == is_dotted_venue(exchange@),
{
    str_equals(exchange, "NYSE") || str_equals(exchange, "NASDAQ") || str_equals(exchange, "AMEX")
        || str_equals(exchange, "ARCA") || str_equals(exchange, "BATS") || str_equals(
        exchange,
        "TSX",
    )
}

fn replace_dashes(s: &str) -> (r: String)
    ensures
        r@ == dashes_to_dots(s@),
{
    let mut out = String::new();
    for c in it: s.chars()
        invariant
            it.seq() == s@,
            out@ == dashes_to_dots(s@.take(it.index() as int)),
    {
        let d = if c == '-' {
            '.'
        } else {
            c
        };
        push_char(&mut out, d);
        assert(dashes_to_dots(s@.take(it.index() as int + 1)) =~= dashes_to_dots(
            s@.take(it.index() as int),
        ).push(dash_to_dot(c)));
    }
    assert(s@.take(s@.len() as int) == s@);
    out
}

fn keep_alnum(s: &str) -> (r: String)
    ensures
        r@ == alnum_only(s@),
{
    let mut out = String::new();
    for c in it: s.chars()
        invariant
            it.seq() == s@,
            out@ == alnum_only(s@.take(it.index() as int)),
    {
        let ghost k = it.index() as int;
        proof {
            reveal(Seq::filter);
            assert(s@.take(k + 1).drop_last() =~= s@.take(k));
            assert(s@.take(k + 1).last() == c);
        }
        if ('a' <= c && c <= 'z') || ('A' <= c && c <= 'Z') || ('0' <= c && c <= '9') {
            push_char(&mut out, c);
        }
    }
    assert(s@.take(s@.len() as int) == s@);
    out
}

fn normalize_symbol_for_exchange(exchange: &str, symbol: &str) -> (r: String)
    ensures
        r@ == normalized_symbol(exchange@, symbol@),
{
    let uppercase = to_ascii_uppercase(symbol);
    if is_forex_venue_exec(exchange) {
        keep_alnum(uppercase.as_str())
    } else if is_dotted_venue_exec(exchange) {
        replace_dashes(uppercase.as_str())
    } else {
        uppercase
    }
}

/// An exchange and a symbol on it.
#[derive(Debug, Clone, PartialEq, Eq, Hash, Ord, PartialOrd)]
pub struct InstrumentRef {
    pub exchange: String,
    pub symbol: String,
}

impl InstrumentRef {
    /// Trims both parts and upper-cases the exchange.
    pub fn new(exchange: &str, symbol: &str) -> (r: Self)
        ensures
            r.exchange@ == ascii_upper_seq(trim_spec(exchange@)),
            r.symbol@ == trim_spec(symbol@),
    {
        let e = trim_owned(exchange);
        InstrumentRef { exchange: to_ascii_uppercase(e.as_str()), symbol: trim_owned(symbol) }
    }

    /// Like [`InstrumentRef::new`], and writes the symbol as the exchange does.
    pub fn from_exchange_symbol(exchange: &str, symbol: &str) -> (r: Self)
        ensures
            r.exchange@ == ascii_upper_seq(trim_spec(exchange@)),
            r.symbol@ == normalized_symbol(r.exchange@, trim_spec(symbol@)),
    {
        let e = trim_owned(exchange);
        let exchange = to_ascii_uppercase(e.as_str());
        let s = trim_owned(symbol);
        let symbol = normalize_symbol_for_exchange(exchange.as_str(), s.as_str());
        InstrumentRef { exchange, symbol }
    }

    /// A US equity as internal systems write it: upper case, `-` for the share class.
    pub fn from_internal_us_equity(exchange: &str, symbol: &str) -> (r: Self)
        ensures
            r.exchange@ == ascii_upper_seq(trim_spec(exchange@)),
            r.symbol@ == dashes_to_dots(ascii_upper_seq(trim_spec(symbol@))),
    {
        let e = trim_owned(exchange);
        let exchange = to_ascii_uppercase(e.as_str());
        let s = trim_owned(symbol);
        let up = to_ascii_uppercase(s.as_str());
        let symbol = replace_dashes(up.as_str());
        InstrumentRef { exchange, symbol }
    }

    pub fn to_ticker(&self) -> (t: Ticker)
        ensures
            t@ == ticker_text(self.exchange@, self.symbol@),
    {
        Ticker::from_parts(self.exchange.as_str(), self.symbol.as_str())
    }
}

/// `exchange:symbol`.
pub open spec fn ticker_text(exchange: Seq<char>, symbol: Seq<char>) -> Seq<char> {
    exchange.push(':') + symbol
}

/// A TradingView ticker such as `NASDAQ:AAPL`.
#[derive(Debug, Clone, PartialEq, Eq, Hash, Ord, PartialOrd)]
pub struct Ticker(String);

impl View for Ticker {
    type V = Seq<char>;

    closed spec fn view(&self) -> Seq<char> {
        self.0@
    }
}

impl Ticker {
    pub fn from_parts(exchange: &str, symbol: &str) -> (t: Self)
        ensures
            t@ == ticker_text(exchange@, symbol@),
    {
        let mut out = String::new();
        out.append(exchange);
        push_char(&mut out, ':');
        out.append(symbol);
        Ticker(out)
    }

    pub fn from_exchange_symbol(exchange: &str, symbol: &str) -> (t: Self)
        ensures
            t@ == ticker_text(
                ascii_upper_seq(trim_spec(exchange@)),
                normalized_symbol(ascii_upper_seq(trim_spec(exchange@)), trim_spec(symbol@)),
            ),
    {
        InstrumentRef::from_exchange_symbol(exchange, symbol).to_ticker()
    }

    pub fn from_static(raw: &'static str) -> (t: Self)
        ensures
            t@ == raw@,
    {
        Ticker(raw.to_owned())
    }

    pub fn new(raw: String) -> (t: Self)
        ensures
            t@ == raw@,
    {
        Ticker(raw)
    }

    pub fn as_str(&self) -> (s: &str)
        ensures
            s@ == self@,
    {
        self.0.as_str()
    }

    /// The ticker text (what `Display` writes).
    pub fn to_text(&self) -> (s: String)
        ensures
            s@ == self@,
    {
        self.0.clone()
    }

    /// A copy holding the same text.
    pub fn duplicate(&self) -> (t: Self)
        ensures
            t@ == self@,
    {
        Ticker(self.0.clone())
    }
}


impl From<String> for Column {
    fn from(value: String) -> (c: Column)
        ensures
            c@ == value@,
    {
        Column(value)
    }
}

impl vstd::std_specs::convert::FromSpecImpl<String> for Column {
    open spec fn obeys_from_spec() -> bool {
        true
    }

    closed spec fn from_spec(value: String) -> Column {
        Column(value)
    }
}

impl From<String> for Market {
    fn from(value: String) -> (m: Market)
        ensures
            m@ == value@,
    {
        Market(value)
    }
}

impl vstd::std_specs::convert::FromSpecImpl<String> for Market {
    open spec fn obeys_from_spec() -> bool {
        true
    }

    closed spec fn from_spec(value: String) -> Market {
        Market(value)
    }
}

impl From<String> for Ticker {
    fn from(value: String) -> (t: Ticker)
        ensures
            t@ == value@,
    {
        Ticker(value)
    }
}

impl vstd::std_specs::convert::FromSpecImpl<String> for Ticker {
    open spec fn obeys_from_spec() -> bool {
        true
    }

    closed spec fn from_spec(value: String) -> Ticker {
        Ticker(value)
    }
}

impl From<InstrumentRef> for Ticker {
    fn from(value: InstrumentRef) -> (t: Ticker)
        ensures
            t@ == ticker_text(value.exchange@, value.symbol@),
    {
        value.to_ticker()
    }
}

/// A ticker is only known by its text, so the conversion is specified by
/// the `ensures` of `from` above rather than by a spec value.
impl vstd::std_specs::convert::FromSpecImpl<InstrumentRef> for Ticker {
    open spec fn obeys_from_spec() -> bool {
        false
    }

    closed spec fn from_spec(value: InstrumentRef) -> Ticker {
        choose|t: Ticker| #[trigger] t@ == ticker_text(value.exchange@, value.symbol@)
    }
}

// ---------------------------------------------------------------- laws

proof fn lemma_filter_keeps(s: Seq<char>, q: spec_fn(char) -> bool)
    requires
        forall|i: int| 0 <= i < s.len() ==> q(#[trigger] s[i]),
    ensures
        forall|j: int| 0 <= j < alnum_only(s).len() ==> q(#[trigger] alnum_only(s)[j]) && is_ascii_alnum(alnum_only(s)[j]),
    decreases s.len(),
{
    reveal(Seq::filter);
    if s.len() > 0 {
        let d = s.drop_last();
        lemma_filter_keeps(d, q);
        assert(alnum_only(s) == (if is_ascii_alnum(s.last()) {
            alnum_only(d).push(s.last())
        } else {
            alnum_only(d)
        }));
        assert forall|j: int| 0 <= j < alnum_only(s).len() implies q(
            #[trigger] alnum_only(s)[j],
        ) && is_ascii_alnum(alnum_only(s)[j]) by {
            if j < alnum_only(d).len() {
                assert(alnum_only(s)[j] == alnum_only(d)[j]);
            }
        }
    }
}

proof fn lemma_filter_all(s: Seq<char>)
    requires
        forall|i: int| 0 <= i < s.len() ==> is_ascii_alnum(#[trigger] s[i]),
    ensures
        alnum_only(s) == s,
    decreases s.len(),
{
    reveal(Seq::filter);
    if s.len() > 0 {
        lemma_filter_all(s.drop_last());
        assert(s.drop_last().push(s.last()) =~= s);
    }
}

proof fn lemma_normalized_symbol(exchange: Seq<char>, t: Seq<char>)
    requires
        is_trimmed(t),
    ensures
        is_trimmed(normalized_symbol(exchange, t)),
        normalized_symbol(exchange, normalized_symbol(exchange, t)) == normalized_symbol(exchange, t),
{
    let up = ascii_upper_seq(t);
    lemma_ascii_upper_seq(t);
    if is_forex_venue(exchange) {
        let f = alnum_only(up);
        let q = |c: char| !is_ascii_lower(c);
        lemma_filter_keeps(up, q);
        assert forall|i: int| 0 <= i < f.len() implies !is_ascii_lower(#[trigger] f[i]) by {
            assert(q(f[i]));
        }
        lemma_ascii_upper_of_upper(f);
        lemma_filter_all(f);
        if f.len() > 0 {
            assert(is_ascii_alnum(f[0]) && is_ascii_alnum(f.last()));
        }
    } else if is_dotted_venue(exchange) {
        let d = dashes_to_dots(up);
        assert forall|i: int| 0 <= i < d.len() implies ascii_upper(#[trigger] d[i]) == d[i]
            && dash_to_dot(d[i]) == d[i] by {
            lemma_ascii_upper_char(t[i]);
            lemma_ascii_upper_char(d[i]);
        }
        assert(dashes_to_dots(ascii_upper_seq(d)) =~= d);
        if t.len() > 0 {
            lemma_ascii_upper_char(t[0]);
            lemma_ascii_upper_char(t.last());
            assert(d[0] == dash_to_dot(up[0]));
            assert(d.last() == dash_to_dot(up.last()));
        }
    }
}

/// Normalizing an instrument that is already normalized changes nothing:
/// [`InstrumentRef::from_exchange_symbol`] applied to its own output gives
/// that output back.
pub proof fn law_normalization_is_idempotent(exchange: Seq<char>, symbol: Seq<char>)
    ensures
        ({
            let e1 = ascii_upper_seq(trim_spec(exchange));
            let s1 = normalized_symbol(e1, trim_spec(symbol));
            ascii_upper_seq(trim_spec(e1)) == e1 && normalized_symbol(e1, trim_spec(s1)) == s1
        }),
{
    let e0 = trim_spec(exchange);
    lemma_trim_spec_trimmed(exchange);
    lemma_ascii_upper_seq(e0);
    let e1 = ascii_upper_seq(e0);
    lemma_trim_spec_of_trimmed(e1);
    let t = trim_spec(symbol);
    lemma_trim_spec_trimmed(symbol);
    lemma_normalized_symbol(e1, t);
    lemma_trim_spec_of_trimmed(normalized_symbol(e1, t));
}


/// On the currency venues FX, FX_IDC, FOREX, OANDA and FOREXCOM a symbol is
/// written upper case with only its ASCII letters and digits (`eur/usd`
/// becomes `EURUSD`); on NYSE, NASDAQ, AMEX, ARCA, BATS and TSX it is written
/// upper case with `-` as `.`; any other venue only upper-cases it.
pub proof fn law_symbol_normalization_per_venue(exchange: Seq<char>, symbol: Seq<char>)
    ensures
        (exchange == "FX"@ || exchange == "FX_IDC"@ || exchange == "FOREX"@ || exchange == "OANDA"@
            || exchange == "FOREXCOM"@) ==> normalized_symbol(exchange, symbol) == ascii_upper_seq(
            symbol,
        ).filter(|c: char| is_ascii_alnum(c)),
        (exchange == "NYSE"@ || exchange == "NASDAQ"@ || exchange == "AMEX"@ || exchange == "ARCA"@
            || exchange == "BATS"@ || exchange == "TSX"@) ==> normalized_symbol(exchange, symbol)
            == ascii_upper_seq(symbol).map_values(|c: char| if c == '-' { '.' } else { c }),
        !(exchange == "FX"@ || exchange == "FX_IDC"@ || exchange == "FOREX"@ || exchange == "OANDA"@
            || exchange == "FOREXCOM"@ || exchange == "NYSE"@ || exchange == "NASDAQ"@ || exchange
            == "AMEX"@ || exchange == "ARCA"@ || exchange == "BATS"@ || exchange == "TSX"@)
            ==> normalized_symbol(exchange, symbol) == ascii_upper_seq(symbol),
{
    reveal_strlit("FX");
    reveal_strlit("FX_IDC");
    reveal_strlit("FOREX");
    reveal_strlit("OANDA");
    reveal_strlit("FOREXCOM");
    reveal_strlit("NYSE");
    reveal_strlit("NASDAQ");
    reveal_strlit("AMEX");
    reveal_strlit("ARCA");
    reveal_strlit("BATS");
    reveal_strlit("TSX");
    assert(alnum_only(ascii_upper_seq(symbol)) =~= ascii_upper_seq(symbol).filter(
        |c: char| is_ascii_alnum(c),
    ));
    assert(dashes_to_dots(ascii_upper_seq(symbol)) =~= ascii_upper_seq(symbol).map_values(
        |c: char| if c == '-' { '.' } else { c },
    ));
    if is_dotted_venue(exchange) {
        let forex = seq!["FX"@, "FX_IDC"@, "FOREX"@, "OANDA"@, "FOREXCOM"@];
        assert(forall|k: int| 0 <= k < 5 ==> exchange != #[trigger] forex[k]) by {
            assert forall|k: int| 0 <= k < 5 implies exchange != #[trigger] forex[k] by {
                if exchange.len() == forex[k].len() {
                    assert(exchange[0] != forex[k][0] || exchange[1] != forex[k][1]);
                }
            }
        }
        assert(forex[0] == "FX"@ && forex[1] == "FX_IDC"@ && forex[2] == "FOREX"@ && forex[3]
            == "OANDA"@ && forex[4] == "FOREXCOM"@);
    }
}

} // verus!

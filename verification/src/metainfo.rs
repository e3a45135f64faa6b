//! Scanner metainfo: the fields a market's screener exposes, and whether a
//! column counts as supported for a market, from live metainfo or from the
//! field registry of the market's screener kind.
use vstd::prelude::*;

use crate::client::{market_to_screener_kind, screener_kind_of};
use crate::scanner::{str_equals, Market};

verus! {

/// One field of a market's metainfo: its API name and its value type.
#[derive(Debug, Clone)]
pub struct MetainfoField {
    pub name: String,
    pub field_type: String,
}

/// What the scanner reports of a market: its financial currency, if any,
/// and the fields it exposes.
#[derive(Debug, Clone)]
pub struct ScannerMetainfo {
    pub financial_currency: Option<String>,
    pub fields: Vec<MetainfoField>,
}

/// The texts of a list of strings.
pub open spec fn name_views(v: Seq<String>) -> Seq<Seq<char>> {
    v.map_values(|s: String| s@)
}

/// Whether `name` is among the texts of `v`.
pub fn contains_name(v: &Vec<String>, name: &str) -> (r: bool)
    ensures
        r == name_views(v@).contains(name@),
{
    let mut i: usize = 0;
    while i < v.len()
        invariant
            i <= v@.len(),
            forall|j: int| 0 <= j < i ==> (#[trigger] v@[j])@ != name@,
        decreases v@.len() - i,
    {
        if str_equals(v[i].as_str(), name) {
            assert(name_views(v@)[i as int] == name@);
            return true;
        }
        i = i + 1;
    }
    assert(!name_views(v@).contains(name@)) by {
        if name_views(v@).contains(name@) {
            let k = choose|k: int| 0 <= k < name_views(v@).len() && name_views(v@)[k] == name@;
            assert(v@[k]@ == name@);
        }
    }
    false
}

impl ScannerMetainfo {
    /// Whether some field of the metainfo is called `name`.
    pub open spec fn spec_supports(&self, name: Seq<char>) -> bool {
        exists|i: int| 0 <= i < self.fields@.len() && (#[trigger] self.fields@[i]).name@ == name
    }

    /// The position of the first field called `name`, if any.
    pub open spec fn first_field_named(&self, name: Seq<char>, k: int) -> bool {
        &&& 0 <= k < self.fields@.len()
        &&& self.fields@[k].name@ == name
        &&& forall|j: int| 0 <= j < k ==> (#[trigger] self.fields@[j]).name@ != name
    }

    /// The first field called `name`, if any.
    pub fn field(&self, name: &str) -> (r: Option<&MetainfoField>)
        ensures
            r is Some <==> self.spec_supports(name@),
            r matches Some(f) ==> exists|k: int| #[trigger] self.first_field_named(name@, k) && *f
                == self.fields@[k],
    {
        let mut i: usize = 0;
        while i < self.fields.len()
            invariant
                i <= self.fields@.len(),
                forall|j: int| 0 <= j < i ==> (#[trigger] self.fields@[j]).name@ != name@,
            decreases self.fields@.len() - i,
        {
            if str_equals(self.fields[i].name.as_str(), name) {
                assert(self.first_field_named(name@, i as int));
                return Some(&self.fields[i]);
            }
            i = i + 1;
        }
        None
    }

    /// Whether some field of the metainfo is called `name`.
    pub fn supports_field(&self, name: &str) -> (r: bool)
        ensures
            r == self.spec_supports(name@),
    {
        self.field(name).is_some()
    }
}

/// Whether `column` counts as supported for `market`: the market's live
/// metainfo lists it, or the market has a screener kind whose field registry
/// (`registry_names`, the registry's API names for that kind) has it.
pub fn supports_column_for_market(
    market: &Market,
    metainfo: &ScannerMetainfo,
    registry_names: &Vec<String>,
    column: &str,
) -> (r: bool)
    ensures
        r == (metainfo.spec_supports(column@) || (screener_kind_of(market@) is Some && name_views(
            registry_names@,
        ).contains(column@))),
{
    if metainfo.supports_field(column) {
        return true;
    }
    match market_to_screener_kind(market) {
        Some(_) => contains_name(registry_names, column),
        None => false,
    }
}

} // verus!

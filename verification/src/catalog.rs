//! The catalog of parts, as it is loaded from the manifest.

use vstd::prelude::*;
use crate::amount::{decimal_text, numeral_units, push_decimal, Amount, Strictness};
use crate::category::{category_of_label, Category, ComponentType};
use crate::sorting::{is_stable_sort_of, sort_components};

verus! {

/// One part of the catalog: its kind, the text to search for, and the price
/// it is held against.
#[derive(Debug, Clone, PartialEq, Eq)]
pub struct Component {
    pub component_type: ComponentType,
    pub query: String,
    pub price: Amount,
}

/// The catalog as it is loaded.
#[derive(Debug, Clone, PartialEq, Eq)]
pub struct PartsList {
    pub parts: Vec<Component>,
}

/// What a part says: its kind, its search text, and its reference price in
/// units.
pub struct Entry {
    pub category: Category,
    pub query: Seq<char>,
    pub price: nat,
}

impl View for Component {
    type V = Entry;

    open spec fn view(&self) -> Entry {
        Entry { category: self.component_type@, query: self.query@, price: self.price@ }
    }
}

/// Why a catalog is refused.
#[derive(Clone, Copy, Debug, PartialEq, Eq, Structural)]
pub enum CatalogError {
    /// The part at `position`, counted from zero, has no search text.
    EmptyQuery { position: usize },
}

/// Why a record of the manifest is refused.
#[derive(Clone, Copy, Debug, PartialEq, Eq, Structural)]
pub enum RecordError {
    /// The record has no search text.
    EmptyQuery,
    /// The price is no decimal numeral, or stands for more than an amount
    /// holds.
    InvalidPrice,
}

/// Whether a part has a search text.
pub open spec fn has_query(c: Component) -> bool {
    c.query@.len() > 0
}

/// Whether `r` is what checking the parts `s` gives: the first part
/// without a search text is reported, if there is one.
pub open spec fn is_check_of(r: Result<(), CatalogError>, s: Seq<Component>) -> bool {
    match r {
        Ok(()) => forall|i: int| 0 <= i < s.len() ==> has_query(#[trigger] s[i]),
        Err(CatalogError::EmptyQuery { position }) => {
            &&& position < s.len()
            &&& !has_query(s[position as int])
            &&& forall|i: int| 0 <= i < position ==> has_query(#[trigger] s[i])
        },
    }
}

/// The part that a record of the manifest stands for: its kind by the
/// label, its search text, which must not be empty, and its price, read
/// strictly.
pub open spec fn entry_of_record(kind: Seq<char>, query: Seq<char>, price: Seq<char>) -> Result<
    Entry,
    RecordError,
> {
    if query.len() == 0 {
        Err(RecordError::EmptyQuery)
    } else {
        match numeral_units(price, Strictness::Strict) {
            None => Err(RecordError::InvalidPrice),
            Some(units) => Ok(Entry { category: category_of_label(kind), query, price: units }),
        }
    }
}

/// The report of a refused catalog.
pub open spec fn catalog_error_text(e: CatalogError) -> Seq<char> {
    match e {
        CatalogError::EmptyQuery { position } => "Part "@ + decimal_text((position + 1) as nat)
            + " has no search text"@,
    }
}

/// The report of a refused record.
pub open spec fn record_error_text(e: RecordError) -> Seq<char> {
    match e {
        RecordError::EmptyQuery => "The part has no search text"@,
        RecordError::InvalidPrice => "The price is not a decimal amount"@,
    }
}

impl CatalogError {
    /// The report of the refusal.
    pub fn message(&self) -> (r: String)
        ensures
            r@ == catalog_error_text(*self),
    {
        match self {
            CatalogError::EmptyQuery { position } => {
                let mut out = String::from_str("Part ");
                push_decimal(&mut out, *position as u128 + 1);
                out.append(" has no search text");
                out
            },
        }
    }
}

impl RecordError {
    /// The report of the refusal.
    pub fn message(&self) -> (r: String)
        ensures
            r@ == record_error_text(*self),
    {
        match self {
            RecordError::EmptyQuery => String::from_str("The part has no search text"),
            RecordError::InvalidPrice => String::from_str("The price is not a decimal amount"),
        }
    }
}

impl Component {
    /// The part that a record of the manifest stands for.
    pub fn from_record(kind: &str, query: &str, price: &str) -> (r: Result<Component, RecordError>)
        ensures
            match r {
                Ok(c) => entry_of_record(kind@, query@, price@) == Ok::<Entry, RecordError>(c@),
                Err(e) => entry_of_record(kind@, query@, price@) == Err::<Entry, RecordError>(e),
            },
    {
        if query.is_empty() {
            return Err(RecordError::EmptyQuery);
        }
        match Amount::parse(price, Strictness::Strict) {
            None => Err(RecordError::InvalidPrice),
            Some(amount) => Ok(
                Component {
                    component_type: ComponentType::from_label(kind),
                    query: String::from_str(query),
                    price: amount,
                },
            ),
        }
    }
}

impl PartsList {
    /// Checks that every part has a search text.
    pub fn check(&self) -> (r: Result<(), CatalogError>)
        ensures
            is_check_of(r, self.parts@),
    {
        let mut i: usize = 0;
        while i < self.parts.len()
            invariant
                i <= self.parts.len(),
                forall|k: int| 0 <= k < i ==> has_query(#[trigger] self.parts@[k]),
            decreases self.parts.len() - i,
        {
            if self.parts[i].query.as_str().is_empty() {
                return Err(CatalogError::EmptyQuery { position: i });
            }
            i = i + 1;
        }
        Ok(())
    }

    /// Sorts the catalog by kind, then by search text. Parts that agree in
    /// both keep the order in which they stood.
    pub fn sort(&mut self)
        ensures
            is_stable_sort_of(final(self).parts@, old(self).parts@),
            final(self).parts@.len() == old(self).parts@.len(),
            final(self).parts@.to_multiset() == old(self).parts@.to_multiset(),
    {
        sort_components(&mut self.parts);
    }
}

} // verus!

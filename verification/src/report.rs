//! The difference between an observed price and its reference, and the
//! lines of the report.

use vstd::prelude::*;
use crate::amount::{two_decimals, Amount};
use crate::catalog::{Component, Entry};
use crate::amount::Strictness;
use crate::category::{display_name, Category, ComponentType};
use crate::extract::{label_price, price_of_label, ExtractError, Finding, Scraped};

verus! {

/// What became of a price against its reference.
#[derive(Clone, Copy, Debug, PartialEq, Eq, Structural)]
pub enum Trend {
    /// The observed price is below the reference.
    Decrease,
    /// The two are the same.
    Unchanged,
    /// The observed price is above the reference.
    Increase,
}

/// The difference of an observed price from its reference: its sign, and
/// its size as an amount.
#[derive(Clone, Copy, Debug, PartialEq, Eq)]
pub struct PriceDelta {
    pub trend: Trend,
    pub magnitude: Amount,
}

/// The sign of `observed - reference`.
pub open spec fn trend_of(observed: nat, reference: nat) -> Trend {
    if observed < reference {
        Trend::Decrease
    } else if observed > reference {
        Trend::Increase
    } else {
        Trend::Unchanged
    }
}

/// The size of `observed - reference`.
pub open spec fn magnitude_of(observed: nat, reference: nat) -> nat {
    if observed < reference {
        (reference - observed) as nat
    } else {
        (observed - reference) as nat
    }
}

/// The indicator that follows a price: nothing where it is unchanged; in
/// green, the size of a decrease behind a minus sign; in red, the size of
/// an increase behind a plus sign, and a space.
pub open spec fn indicator_text(trend: Trend, magnitude: nat) -> Seq<char> {
    match trend {
        Trend::Decrease => " \x1B[32m-$"@ + two_decimals(magnitude) + "\x1B[m"@,
        Trend::Increase => " \x1B[31m+$"@ + two_decimals(magnitude) + "\x1B[m "@,
        Trend::Unchanged => Seq::empty(),
    }
}

/// The dimmed note of the reference price that follows a changed price,
/// behind a tab; nothing where the price is unchanged.
pub open spec fn reference_note(trend: Trend, reference: nat) -> Seq<char> {
    match trend {
        Trend::Unchanged => Seq::empty(),
        _ => "\t\x1B[2m($"@ + two_decimals(reference) + ")\x1B[m"@,
    }
}

/// The line of a part whose price was observed: indented, the search text,
/// the observed price, the indicator and the note of the reference.
pub open spec fn item_line_text(entry: Entry, observed: nat) -> Seq<char> {
    "    "@ + entry.query + ": $"@ + two_decimals(observed) + indicator_text(
        trend_of(observed, entry.price),
        magnitude_of(observed, entry.price),
    ) + reference_note(trend_of(observed, entry.price), entry.price)
}

/// The line of a part for which the page held no price link: the kind, and
/// the document as it was understood.
pub open spec fn no_match_line_text(category: Category, document: Seq<char>) -> Seq<char> {
    display_name(category) + ": No match: "@ + document
}

/// The heading of a group: the kind's name and a colon, in magenta.
pub open spec fn heading_text(category: Category) -> Seq<char> {
    "\x1B[35m"@ + display_name(category) + ":\x1B[m"@
}

/// The line of a part in a plain listing.
pub open spec fn list_line_text(entry: Entry) -> Seq<char> {
    display_name(entry.category) + ": "@ + entry.query + " - $"@ + two_decimals(entry.price)
}

/// The lines that stand before a part of kind `current` when the part
/// before it, if any, was of kind `previous`: the heading where a group
/// begins, behind an empty line where it is not the first group.
pub open spec fn group_lines(previous: Option<Category>, current: Category) -> Seq<Seq<char>> {
    match previous {
        None => seq![heading_text(current)],
        Some(p) => if p == current {
            Seq::empty()
        } else {
            seq![Seq::empty(), heading_text(current)]
        },
    }
}

/// The line that reports what a page held for `entry`: the part's line
/// with the price that the label shows, or the report that the page held
/// no price link; an error where the label shows no price.
pub open spec fn report_line_text(entry: Entry, finding: Finding, policy: Strictness) -> Result<
    Seq<char>,
    ExtractError,
> {
    match finding {
        Finding::Label(label) => match label_price(label, policy) {
            Ok(observed) => Ok(item_line_text(entry, observed)),
            Err(e) => Err(e),
        },
        Finding::NoMatch { category, document } => Ok(no_match_line_text(category, document)),
    }
}

impl PriceDelta {
    /// The difference as a signed number of units.
    pub open spec fn signed(self) -> int {
        match self.trend {
            Trend::Decrease => -(self.magnitude@ as int),
            Trend::Unchanged => 0,
            Trend::Increase => self.magnitude@ as int,
        }
    }

    /// The difference of `observed` from `reference`.
    pub fn between(observed: Amount, reference: Amount) -> (d: PriceDelta)
        ensures
            d.trend == trend_of(observed@, reference@),
            d.magnitude@ == magnitude_of(observed@, reference@),
            d.signed() == observed@ - reference@,
    {
        let o = observed.units();
        let r = reference.units();
        if o < r {
            PriceDelta { trend: Trend::Decrease, magnitude: Amount::from_units(r - o) }
        } else if o > r {
            PriceDelta { trend: Trend::Increase, magnitude: Amount::from_units(o - r) }
        } else {
            PriceDelta { trend: Trend::Unchanged, magnitude: Amount::from_units(0) }
        }
    }

    /// The indicator that shows the difference.
    pub fn indicator(&self) -> (r: String)
        ensures
            r@ == indicator_text(self.trend, self.magnitude@),
    {
        let mut out = String::new();
        match self.trend {
            Trend::Decrease => {
                out.append(" \x1B[32m-$");
                self.magnitude.push_two_decimals(&mut out);
                out.append("\x1B[m");
            },
            Trend::Increase => {
                out.append(" \x1B[31m+$");
                self.magnitude.push_two_decimals(&mut out);
                out.append("\x1B[m ");
            },
            Trend::Unchanged => {},
        }
        out
    }
}

/// The line of `entry` with the price `observed`.
pub fn item_line(entry: &Component, observed: Amount) -> (r: String)
    ensures
        r@ == item_line_text(entry@, observed@),
{
    let delta = PriceDelta::between(observed, entry.price);
    let mut out = String::from_str("    ");
    out.append(entry.query.as_str());
    out.append(": $");
    observed.push_two_decimals(&mut out);
    out.append(delta.indicator().as_str());
    match delta.trend {
        Trend::Unchanged => {},
        _ => {
            out.append("\t\x1B[2m($");
            entry.price.push_two_decimals(&mut out);
            out.append(")\x1B[m");
        },
    }
    out
}

/// The line that reports that the page for a part of kind `component` held
/// no price link.
pub fn no_match_line(component: &ComponentType, document: &str) -> (r: String)
    ensures
        r@ == no_match_line_text(component@, document@),
{
    let mut out = component.name();
    out.append(": No match: ");
    out.append(document);
    out
}

/// The heading of the group of kind `component`.
pub fn heading_line(component: &ComponentType) -> (r: String)
    ensures
        r@ == heading_text(component@),
{
    let mut out = String::from_str("\x1B[35m");
    out.append(component.name().as_str());
    out.append(":\x1B[m");
    out
}

/// The line of `entry` in a plain listing.
pub fn list_line(entry: &Component) -> (r: String)
    ensures
        r@ == list_line_text(entry@),
{
    let mut out = entry.component_type.name();
    out.append(": ");
    out.append(entry.query.as_str());
    out.append(" - $");
    entry.price.push_two_decimals(&mut out);
    out
}

/// The line that reports what a page held for `entry`.
pub fn report_line(entry: &Component, scraped: &Scraped, policy: Strictness) -> (r: Result<
    String,
    ExtractError,
>)
    ensures
        match r {
            Ok(line) => report_line_text(entry@, scraped@, policy) == Ok::<Seq<char>, ExtractError>(
                line@,
            ),
            Err(e) => report_line_text(entry@, scraped@, policy) == Err::<Seq<char>, ExtractError>(
                e,
            ),
        },
{
    match scraped {
        Scraped::Label(label) => match price_of_label(label.as_str(), policy) {
            Ok(observed) => Ok(item_line(entry, observed)),
            Err(e) => Err(e),
        },
        Scraped::NoMatch { component, document } => Ok(no_match_line(component, document.as_str())),
    }
}

/// The lines that stand before a part of kind `current`, given the kind of
/// the part before it.
pub fn heading_lines(previous: Option<&ComponentType>, current: &ComponentType) -> (r: Vec<String>)
    ensures
        r.deep_view() == group_lines(
            match previous {
                Some(p) => Some(p@),
                None => None,
            },
            current@,
        ),
{
    let mut lines: Vec<String> = Vec::new();
    match previous {
        None => {
            lines.push(heading_line(current));
        },
        Some(p) => {
            if !p.same_kind(current) {
                lines.push(String::new());
                lines.push(heading_line(current));
            }
        },
    }
    assert(lines.deep_view() =~= group_lines(
        match previous {
            Some(p) => Some(p@),
            None => None,
        },
        current@,
    ));
    lines
}

/// The plain listing of `components`: one line for each part, in the order
/// in which the parts stand, with the reference price as it was given.
pub fn list_components(components: &[Component]) -> (lines: Vec<String>)
    ensures
        lines.len() == components.len(),
        forall|i: int| 0 <= i < lines.len() ==> (#[trigger] lines[i])@ == list_line_text(components[i]@),
{
    let mut lines: Vec<String> = Vec::new();
    let mut i: usize = 0;
    while i < components.len()
        invariant
            i <= components.len(),
            lines.len() == i,
            forall|k: int| 0 <= k < i ==> (#[trigger] lines[k])@ == list_line_text(components[k]@),
        decreases components.len() - i,
    {
        lines.push(list_line(&components[i]));
        i = i + 1;
    }
    lines
}

} // verus!

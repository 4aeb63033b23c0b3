//! Finding the price label in a result page, and reading the price from it.

use vstd::prelude::*;
use crate::amount::{numeral_units, Amount, Strictness};
use crate::category::{Category, ComponentType};
use crate::search::SearchResult;
use crate::text::chars_of;

verus! {

/// The rule that picks the price link of a result page: an anchor whose
/// target holds the redirect path and which carries a non-empty `alt` text.
pub const PRICE_LINK_SELECTOR: &'static str = "a[href*='/cgi-bin/redirect.cgi'][alt]:not([alt=''])";

/// The greatest number of characters of a page that is looked into. The
/// parser's buffers give out at four gigabytes; a page within this limit
/// takes up a sixteenth of that at most, which leaves room for what the
/// parser puts in the place of some characters.
pub const PAGE_LIMIT: usize = 67_108_864;

/// Why no price came out of a page.
#[derive(Clone, Copy, Debug, PartialEq, Eq, Structural)]
pub enum ExtractError {
    /// The page has more characters than `PAGE_LIMIT`.
    PageTooLong,
    /// The selection rule itself was not accepted.
    Selector,
    /// The label does not begin with the currency sign.
    MissingCurrencyPrefix,
    /// What follows the currency sign stands for no amount.
    InvalidNumeral,
}

/// `scraper::error::SelectorErrorKind`, the error of a rejected selector;
/// it is passed on unopened.
#[verifier::external_type_specification]
#[verifier::external_body]
pub struct ExSelectorErrorKind(scraper::error::SelectorErrorKind);

/// What selecting with `selector` in the document `page` gives: `None`
/// where the selector is rejected; else the text of the first element that
/// `Html::select` yields, if it yields one.
pub uninterp spec fn selected_text(page: Seq<char>, selector: Seq<char>) -> Option<Option<Seq<char>>>;

/// The document `page` as it is written out again after parsing.
pub uninterp spec fn serialized_document(page: Seq<char>) -> Seq<char>;

/// `scraper::Selector::parse` on `selector`, `scraper::Html::parse_document`
/// on `page`, then the first item of `Html::select` and the text nodes
/// below it, in order, that `ElementRef::text` yields, joined. Claimed:
/// the outcome is a function of the two texts; an error comes exactly
/// where the selector is rejected. A page above `PAGE_LIMIT` is left out:
/// the parser panics where a buffer of it would pass four gigabytes.
#[verifier::external_body]
fn first_match_text(page: &str, selector: &str) -> (r: Result<
    Option<String>,
    scraper::error::SelectorErrorKind,
>)
    requires
        page@.len() <= PAGE_LIMIT,
    ensures
        match r {
            Ok(Some(text)) => selected_text(page@, selector@) == Some(Some(text@)),
            Ok(None) => selected_text(page@, selector@) == Some(None::<Seq<char>>),
            Err(_) => selected_text(page@, selector@) is None,
        },
{
    let rule = scraper::Selector::parse(selector)?;
    let document = scraper::Html::parse_document(page);
    Ok(document.select(&rule).next().map(|element| element.text().collect::<String>()))
}

/// `scraper::Html::parse_document` on `page`, then `Html::html`. Claimed:
/// the text that comes back is a function of `page`. A page above
/// `PAGE_LIMIT` is left out, as in `first_match_text`.
#[verifier::external_body]
fn document_html(page: &str) -> (r: String)
    requires
        page@.len() <= PAGE_LIMIT,
    ensures
        r@ == serialized_document(page@),
{
    scraper::Html::parse_document(page).html()
}

/// What looking for `selector` in `page` gives: an error where the page is
/// too long to be looked into or the selector is rejected; else the text
/// of the first match, if there is one.
pub open spec fn selection(page: Seq<char>, selector: Seq<char>) -> Result<
    Option<Seq<char>>,
    ExtractError,
> {
    if page.len() > PAGE_LIMIT {
        Err(ExtractError::PageTooLong)
    } else {
        match selected_text(page, selector) {
            None => Err(ExtractError::Selector),
            Some(found) => Ok(found),
        }
    }
}

/// The text of the first element of `page` that `selector` matches. A page
/// of more than `PAGE_LIMIT` characters is not looked into.
pub fn select_first_text(page: &str, selector: &str) -> (r: Result<Option<String>, ExtractError>)
    ensures
        match r {
            Ok(Some(text)) => selection(page@, selector@) == Ok::<Option<Seq<char>>, ExtractError>(
                Some(text@),
            ),
            Ok(None) => selection(page@, selector@) == Ok::<Option<Seq<char>>, ExtractError>(None),
            Err(e) => selection(page@, selector@) == Err::<Option<Seq<char>>, ExtractError>(e),
        },
{
    if page.unicode_len() > PAGE_LIMIT {
        return Err(ExtractError::PageTooLong);
    }
    match first_match_text(page, selector) {
        Ok(found) => Ok(found),
        Err(_) => Err(ExtractError::Selector),
    }
}

/// What a result page holds for the part it was fetched for.
#[derive(Debug, PartialEq, Eq)]
pub enum Scraped<'a> {
    /// The text of the price link.
    Label(String),
    /// No price link: the kind of the part, and the document as it was
    /// understood.
    NoMatch { component: &'a ComponentType, document: String },
}

/// What a result page holds, as text.
pub enum Finding {
    Label(Seq<char>),
    NoMatch { category: Category, document: Seq<char> },
}

impl<'a> View for Scraped<'a> {
    type V = Finding;

    open spec fn view(&self) -> Finding {
        match self {
            Scraped::Label(text) => Finding::Label(text@),
            Scraped::NoMatch { component, document } => Finding::NoMatch {
                category: component@,
                document: document@,
            },
        }
    }
}

/// What a page holds for a part of kind `category`, given the outcome
/// `selected` of looking for the price link in it and the `document` as it
/// is written out again.
pub open spec fn finding_of(
    category: Category,
    selected: Result<Option<Seq<char>>, ExtractError>,
    document: Seq<char>,
) -> Result<Finding, ExtractError> {
    match selected {
        Err(e) => Err(e),
        Ok(None) => Ok(Finding::NoMatch { category, document }),
        Ok(Some(text)) => Ok(Finding::Label(text)),
    }
}

/// What the page `page` holds for a part of kind `category`.
pub open spec fn page_finding(category: Category, page: Seq<char>) -> Result<Finding, ExtractError> {
    finding_of(category, selection(page, PRICE_LINK_SELECTOR@), serialized_document(page))
}

/// Looks for the price link in the page of `result`.
pub fn scrape<'a>(result: &SearchResult<'a>) -> (r: Result<Scraped<'a>, ExtractError>)
    ensures
        match r {
            Ok(scraped) => page_finding(result.component@, result.page@) == Ok::<
                Finding,
                ExtractError,
            >(scraped@),
            Err(e) => page_finding(result.component@, result.page@) == Err::<Finding, ExtractError>(
                e,
            ),
        },
{
    match select_first_text(result.page.as_str(), PRICE_LINK_SELECTOR) {
        Err(e) => Err(e),
        Ok(Some(text)) => Ok(Scraped::Label(text)),
        Ok(None) => Ok(
            Scraped::NoMatch {
                component: result.component,
                document: document_html(result.page.as_str()),
            },
        ),
    }
}

/// The price that a label shows under `policy`: the label must begin with
/// the currency sign, and what follows must stand for an amount.
pub open spec fn label_price(label: Seq<char>, policy: Strictness) -> Result<nat, ExtractError> {
    if label.len() == 0 || label[0] != '$' {
        Err(ExtractError::MissingCurrencyPrefix)
    } else {
        match numeral_units(label.drop_first(), policy) {
            Some(units) => Ok(units),
            None => Err(ExtractError::InvalidNumeral),
        }
    }
}

/// Reads the price that `label` shows.
pub fn price_of_label(label: &str, policy: Strictness) -> (r: Result<Amount, ExtractError>)
    ensures
        match r {
            Ok(price) => label_price(label@, policy) == Ok::<nat, ExtractError>(price@),
            Err(e) => label_price(label@, policy) == Err::<nat, ExtractError>(e),
        },
{
    let mut chars = chars_of(label);
    if chars.len() == 0 || chars[0] != '$' {
        return Err(ExtractError::MissingCurrencyPrefix);
    }
    let rest = chars.split_off(1);
    match Amount::parse_chars(rest.as_slice(), policy) {
        Some(price) => Ok(price),
        None => Err(ExtractError::InvalidNumeral),
    }
}

} // verus!

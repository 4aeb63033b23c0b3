use pc_price_check::amount::{Amount, Strictness};
use pc_price_check::category::ComponentType;
use pc_price_check::extract::{
    price_of_label, scrape, select_first_text, ExtractError, Scraped, PAGE_LIMIT,
    PRICE_LINK_SELECTOR,
};
use pc_price_check::search::SearchResult;

fn page_with(anchor: &str) -> String {
    format!("<html><head><title>results</title></head><body><table><tr><td>{anchor}</td></tr></table></body></html>")
}

fn result<'a>(component: &'a ComponentType, page: String) -> SearchResult<'a> {
    SearchResult { component, page }
}

#[test]
fn the_one_price_link_gives_its_price() {
    let page = page_with(r#"<a href="/cgi-bin/redirect.cgi?name=shop&amp;id=1" alt="Go to shop">$123.45</a>"#);
    let kind = ComponentType::Cpu;
    let scraped = scrape(&result(&kind, page)).unwrap();
    assert_eq!(scraped, Scraped::Label("$123.45".to_string()));
    assert_eq!(price_of_label("$123.45", Strictness::Strict), Ok(Amount::from_cents(12345)));
    assert_eq!(price_of_label("$123.45", Strictness::Strict).unwrap().format(), "123.45");
}

#[test]
fn a_price_with_separators_is_read_leniently() {
    let page = page_with(r#"<a href="/cgi-bin/redirect.cgi?id=2" alt="x">$1,234.56</a>"#);
    let kind = ComponentType::Graphics;
    let scraped = scrape(&result(&kind, page)).unwrap();
    assert_eq!(scraped, Scraped::Label("$1,234.56".to_string()));
    assert_eq!(price_of_label("$1,234.56", Strictness::Lenient), Ok(Amount::from_cents(123456)));
    assert_eq!(price_of_label("$1,234.56", Strictness::Strict), Err(ExtractError::InvalidNumeral));
}

#[test]
fn a_label_without_the_currency_sign_is_an_error() {
    for policy in [Strictness::Strict, Strictness::Lenient] {
        assert_eq!(price_of_label("N/A", policy), Err(ExtractError::MissingCurrencyPrefix));
        assert_eq!(price_of_label("", policy), Err(ExtractError::MissingCurrencyPrefix));
        assert_eq!(price_of_label("123.45", policy), Err(ExtractError::MissingCurrencyPrefix));
        assert_eq!(price_of_label(" $123.45", policy), Err(ExtractError::MissingCurrencyPrefix));
        assert_eq!(price_of_label("€5", policy), Err(ExtractError::MissingCurrencyPrefix));
    }
}

#[test]
fn a_label_with_no_amount_behind_the_sign_is_an_error() {
    for policy in [Strictness::Strict, Strictness::Lenient] {
        assert_eq!(price_of_label("$", policy), Err(ExtractError::InvalidNumeral));
        assert_eq!(price_of_label("$call", policy), Err(ExtractError::InvalidNumeral));
    }
    assert_eq!(price_of_label("$12.50 inc GST", Strictness::Strict), Err(ExtractError::InvalidNumeral));
    assert_eq!(price_of_label("$$5", Strictness::Strict), Err(ExtractError::InvalidNumeral));
    assert_eq!(price_of_label("$$5", Strictness::Lenient), Ok(Amount::from_cents(5)));
}

#[test]
fn the_text_of_the_first_match_is_selected() {
    let page = page_with(
        r#"<a href="/other" alt="x">$1.00</a>
           <a href="/cgi-bin/redirect.cgi?id=1">$2.00</a>
           <a href="/cgi-bin/redirect.cgi?id=2" alt="">$3.00</a>
           <a href="http://host/cgi-bin/redirect.cgi?id=3" alt="first">$4.00</a>
           <a href="/cgi-bin/redirect.cgi?id=4" alt="second">$5.00</a>"#,
    );
    assert_eq!(select_first_text(&page, PRICE_LINK_SELECTOR), Ok(Some("$4.00".to_string())));
    assert_eq!(select_first_text(&page, "a"), Ok(Some("$1.00".to_string())));
    assert_eq!(select_first_text(&page, "a[alt='second']"), Ok(Some("$5.00".to_string())));
    assert_eq!(select_first_text(&page, "title"), Ok(Some("results".to_string())));
}

#[test]
fn the_text_of_a_link_is_all_the_text_below_it() {
    let page = page_with(r#"<a href="/cgi-bin/redirect.cgi" alt="x"><b>$1</b>,<i>234</i>.56</a>"#);
    assert_eq!(select_first_text(&page, PRICE_LINK_SELECTOR), Ok(Some("$1,234.56".to_string())));
}

#[test]
fn a_page_without_price_link_is_reported_as_it_was_understood() {
    let kind = ComponentType::Other("Webcam".to_string());
    let scraped = scrape(&result(&kind, "<p>nothing <b>here".to_string())).unwrap();
    assert_eq!(
        scraped,
        Scraped::NoMatch {
            component: &kind,
            document: "<html><head></head><body><p>nothing <b>here</b></p></body></html>".to_string(),
        }
    );
    assert_eq!(select_first_text("<p>nothing <b>here", PRICE_LINK_SELECTOR), Ok(None));
    assert_eq!(select_first_text("", PRICE_LINK_SELECTOR), Ok(None));
}

#[test]
fn a_rejected_selector_is_an_error() {
    assert_eq!(select_first_text("<a>x</a>", "a["), Err(ExtractError::Selector));
    assert_eq!(select_first_text("<a>x</a>", ""), Err(ExtractError::Selector));
    assert_eq!(select_first_text("<a>x</a>", "a:nonsense"), Err(ExtractError::Selector));
}

#[test]
fn a_page_above_the_limit_is_not_looked_into() {
    let anchor = r#"<a href="/cgi-bin/redirect.cgi" alt="x">$1.00</a>"#;
    let mut page = String::from(anchor);
    page.push_str(&" ".repeat(PAGE_LIMIT - anchor.len()));
    assert_eq!(page.chars().count(), PAGE_LIMIT);
    assert_eq!(select_first_text(&page, PRICE_LINK_SELECTOR), Ok(Some("$1.00".to_string())));
    page.push(' ');
    assert_eq!(select_first_text(&page, PRICE_LINK_SELECTOR), Err(ExtractError::PageTooLong));
    assert_eq!(select_first_text(&page, "a["), Err(ExtractError::PageTooLong));
    let kind = ComponentType::Cpu;
    assert_eq!(scrape(&result(&kind, page)), Err(ExtractError::PageTooLong));
}

#[test]
fn the_limit_counts_characters_not_bytes() {
    let mut page = "é".repeat(PAGE_LIMIT / 64);
    page.push_str("<p>x</p>");
    assert!(page.len() > page.chars().count());
    assert_eq!(select_first_text(&page, "p"), Ok(Some("x".to_string())));
}

use pc_price_check::category::ComponentType;
use pc_price_check::search::{
    request_for, search_url, SearchError, SearchResult, QUERY_PARAMETER, SEARCH_ENDPOINT,
};

#[test]
fn the_search_address_carries_the_offset_and_the_text() {
    assert_eq!(
        search_url("ryzen"),
        Ok("https://www.staticice.com.au/cgi-bin/search.cgi?spos=3&q=ryzen".to_string())
    );
}

#[test]
fn the_search_text_is_encoded() {
    assert_eq!(
        search_url("ryzen 7 7800x3d"),
        Ok("https://www.staticice.com.au/cgi-bin/search.cgi?spos=3&q=ryzen+7+7800x3d".to_string())
    );
    assert_eq!(
        search_url("a&b=c#d?e/f+g%h"),
        Ok("https://www.staticice.com.au/cgi-bin/search.cgi?spos=3&q=a%26b%3Dc%23d%3Fe%2Ff%2Bg%25h".to_string())
    );
    assert_eq!(
        search_url("écran 27\""),
        Ok("https://www.staticice.com.au/cgi-bin/search.cgi?spos=3&q=%C3%A9cran+27%22".to_string())
    );
    assert_eq!(
        search_url(""),
        Ok("https://www.staticice.com.au/cgi-bin/search.cgi?spos=3&q=".to_string())
    );
}

#[test]
fn the_search_address_is_what_the_url_library_builds() {
    let built = url::Url::parse_with_params(SEARCH_ENDPOINT, [(QUERY_PARAMETER, "wd red 8tb")]).unwrap();
    assert_eq!(search_url("wd red 8tb"), Ok(built.as_str().to_string()));
}

#[test]
fn an_address_that_was_built_is_the_request() {
    assert_eq!(request_for(Ok("https://example.net/?q=1".to_string())), Ok("https://example.net/?q=1".to_string()));
}

#[test]
fn an_address_that_could_not_be_built_is_an_error() {
    assert_eq!(request_for(Err(url::ParseError::RelativeUrlWithoutBase)), Err(SearchError::InvalidUrl));
    assert_eq!(request_for(Err(url::ParseError::EmptyHost)), Err(SearchError::InvalidUrl));
}

#[test]
fn a_search_result_holds_the_kind_and_the_page() {
    let kind = ComponentType::Monitor;
    let result = SearchResult { component: &kind, page: "<html></html>".to_string() };
    assert_eq!(result.component, &ComponentType::Monitor);
    assert_eq!(result.page, "<html></html>");
}

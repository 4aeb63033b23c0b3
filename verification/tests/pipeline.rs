use pc_price_check::amount::{Amount, Strictness};
use pc_price_check::catalog::{CatalogError, Component, PartsList};
use pc_price_check::category::ComponentType;
use pc_price_check::extract::{ExtractError, Scraped, PAGE_LIMIT};
use pc_price_check::pipeline::{
    step, Action, Cause, SearchOutcome, Mode, Observation, Pipeline, Stage,
};

fn part(kind: ComponentType, query: &str, cents: u64) -> Component {
    Component { component_type: kind, query: query.to_string(), price: Amount::from_cents(cents) }
}

fn two_parts() -> PartsList {
    PartsList {
        parts: vec![part(ComponentType::Cpu, "X", 80000), part(ComponentType::Case, "Y", 20000)],
    }
}

fn sorted_run(parts: PartsList) -> Pipeline {
    Pipeline::load(parts, Strictness::Strict).unwrap().sort()
}

fn page_with_price(label: &str) -> SearchOutcome {
    SearchOutcome::Page(format!(
        r#"<html><body><a href="/cgi-bin/redirect.cgi?id=1" alt="shop">{label}</a></body></html>"#
    ))
}

fn lines(texts: &[&str]) -> Vec<String> {
    texts.iter().map(|t| t.to_string()).collect()
}

#[test]
fn a_run_is_loaded_then_sorted() {
    let run = Pipeline::load(two_parts(), Strictness::Lenient).unwrap();
    assert_eq!(run.stage(), Stage::Loaded);
    assert_eq!(run.next(), 0);
    assert_eq!(run.policy(), Strictness::Lenient);
    assert_eq!(run.entries(), two_parts().parts.as_slice());
    let run = run.sort();
    assert_eq!(run.stage(), Stage::Sorted);
    assert_eq!(
        run.entries(),
        [part(ComponentType::Case, "Y", 20000), part(ComponentType::Cpu, "X", 80000)].as_slice()
    );
    let sorted = run.entries().to_vec();
    let run = run.sort();
    assert_eq!(run.stage(), Stage::Sorted);
    assert_eq!(run.entries(), sorted.as_slice());
    assert_eq!(run.policy(), Strictness::Lenient);
}

#[test]
fn a_catalog_with_a_part_without_search_text_is_not_loaded() {
    let mut parts = two_parts();
    parts.parts[1].query.clear();
    assert_eq!(
        Pipeline::load(parts, Strictness::Strict),
        Err(CatalogError::EmptyQuery { position: 1 })
    );
}

#[test]
fn list_mode_hands_out_the_sorted_listing_and_fetches_nothing() {
    let mut run = sorted_run(two_parts());
    let action = run.begin(Mode::List);
    assert_eq!(action, Action::Finish { lines: lines(&["Case: Y - $200.00", "CPU: X - $800.00"]) });
    assert_eq!(run.stage(), Stage::Listing);
    assert_eq!(
        run.advance(SearchOutcome::Page(String::new())),
        Action::Finish { lines: Vec::new() }
    );
    assert_eq!(run.stage(), Stage::Listing);
}

#[test]
fn a_run_that_is_not_sorted_does_not_begin() {
    let mut run = Pipeline::load(two_parts(), Strictness::Strict).unwrap();
    assert_eq!(run.begin(Mode::Scrape), Action::Finish { lines: Vec::new() });
    assert_eq!(run.stage(), Stage::Loaded);
    assert_eq!(run.begin(Mode::List), Action::Finish { lines: Vec::new() });
    assert_eq!(run.stage(), Stage::Loaded);
}

#[test]
fn scraping_an_empty_catalog_is_over_at_once() {
    let mut run = sorted_run(PartsList { parts: Vec::new() });
    assert_eq!(run.begin(Mode::Scrape), Action::Finish { lines: Vec::new() });
    assert_eq!(run.stage(), Stage::Finished);
}

#[test]
fn scraping_goes_through_the_groups_in_the_order_of_kinds() {
    let mut run = sorted_run(two_parts());
    assert_eq!(
        run.begin(Mode::Scrape),
        Action::Fetch { lines: lines(&["\x1B[35mCase:\x1B[m"]), query: "Y".to_string() }
    );
    assert_eq!((run.stage(), run.next()), (Stage::Scraping, 0));
    assert_eq!(run.awaited(), Some(&part(ComponentType::Case, "Y", 20000)));
    assert_eq!(
        run.advance(page_with_price("$190.00")),
        Action::Fetch {
            lines: lines(&[
                "    Y: $190.00 \x1B[32m-$10.00\x1B[m\t\x1B[2m($200.00)\x1B[m",
                "",
                "\x1B[35mCPU:\x1B[m",
            ]),
            query: "X".to_string(),
        }
    );
    assert_eq!((run.stage(), run.next()), (Stage::Scraping, 1));
    assert_eq!(
        run.advance(page_with_price("$800.00")),
        Action::Finish { lines: lines(&["    X: $800.00"]) }
    );
    assert_eq!((run.stage(), run.next()), (Stage::Finished, 2));
    assert_eq!(run.awaited(), None);
    assert_eq!(run.advance(page_with_price("$1.00")), Action::Finish { lines: Vec::new() });
    assert_eq!((run.stage(), run.next()), (Stage::Finished, 2));
}

#[test]
fn parts_of_one_group_share_a_heading() {
    let mut run = sorted_run(PartsList {
        parts: vec![
            part(ComponentType::Memory, "b", 100),
            part(ComponentType::Memory, "a", 100),
        ],
    });
    assert_eq!(
        run.begin(Mode::Scrape),
        Action::Fetch { lines: lines(&["\x1B[35mMemory:\x1B[m"]), query: "a".to_string() }
    );
    assert_eq!(
        run.advance(page_with_price("$1.10")),
        Action::Fetch {
            lines: lines(&["    a: $1.10 \x1B[31m+$0.10\x1B[m \t\x1B[2m($1.00)\x1B[m"]),
            query: "b".to_string(),
        }
    );
}

#[test]
fn a_page_without_price_link_is_reported_and_the_run_goes_on() {
    let mut run = sorted_run(two_parts());
    run.begin(Mode::Scrape);
    assert_eq!(
        run.advance(SearchOutcome::Page("<p>no results</p>".to_string())),
        Action::Fetch {
            lines: lines(&[
                "Case: No match: <html><head></head><body><p>no results</p></body></html>",
                "",
                "\x1B[35mCPU:\x1B[m",
            ]),
            query: "X".to_string(),
        }
    );
    assert_eq!((run.stage(), run.next()), (Stage::Scraping, 1));
    assert_eq!(
        run.advance(SearchOutcome::Page(String::new())),
        Action::Finish { lines: lines(&["CPU: No match: <html><head></head><body></body></html>"]) }
    );
    assert_eq!(run.stage(), Stage::Finished);
}

#[test]
fn a_label_without_the_currency_sign_stops_the_run() {
    let mut run = sorted_run(two_parts());
    run.begin(Mode::Scrape);
    assert_eq!(
        run.advance(page_with_price("N/A")),
        Action::Abort {
            cause: Cause::Extraction(ExtractError::MissingCurrencyPrefix),
            message: "Y: Price does not start with $".to_string(),
        }
    );
    assert_eq!((run.stage(), run.next()), (Stage::Failed, 0));
    assert_eq!(run.advance(page_with_price("$1.00")), Action::Finish { lines: Vec::new() });
    assert_eq!((run.stage(), run.next()), (Stage::Failed, 0));
}

#[test]
fn a_label_that_is_no_numeral_stops_the_run() {
    let mut run = sorted_run(two_parts());
    run.begin(Mode::Scrape);
    assert_eq!(
        run.advance(page_with_price("$1,190.00")),
        Action::Abort {
            cause: Cause::Extraction(ExtractError::InvalidNumeral),
            message: "Y: Unable to parse $1,190.00".to_string(),
        }
    );
    assert_eq!(run.stage(), Stage::Failed);
}

#[test]
fn the_way_of_reading_is_that_of_the_run() {
    let mut run = Pipeline::load(two_parts(), Strictness::Lenient).unwrap().sort();
    run.begin(Mode::Scrape);
    assert_eq!(
        run.advance(page_with_price("$1,190.00")),
        Action::Fetch {
            lines: lines(&[
                "    Y: $1190.00 \x1B[31m+$990.00\x1B[m \t\x1B[2m($200.00)\x1B[m",
                "",
                "\x1B[35mCPU:\x1B[m",
            ]),
            query: "X".to_string(),
        }
    );
}

#[test]
fn a_page_above_the_limit_stops_the_run() {
    let mut run = sorted_run(two_parts());
    run.begin(Mode::Scrape);
    assert_eq!(
        run.advance(SearchOutcome::Page("x".repeat(PAGE_LIMIT + 1))),
        Action::Abort {
            cause: Cause::Extraction(ExtractError::PageTooLong),
            message: "Y: The page is too long to be read".to_string(),
        }
    );
    assert_eq!((run.stage(), run.next()), (Stage::Failed, 0));
}

#[test]
fn a_failed_fetch_stops_the_run() {
    let mut run = sorted_run(two_parts());
    run.begin(Mode::Scrape);
    assert_eq!(
        run.advance(SearchOutcome::Failed("status code 503".to_string())),
        Action::Abort { cause: Cause::Transport, message: "Y: status code 503".to_string() }
    );
    assert_eq!((run.stage(), run.next()), (Stage::Failed, 0));
}

#[test]
fn a_step_is_decided_by_what_was_observed() {
    let entries = vec![part(ComponentType::Case, "Y", 20000), part(ComponentType::Cpu, "X", 80000)];
    let kind = ComponentType::Case;
    let (action, next, stage) = step(
        &entries,
        0,
        Stage::Scraping,
        Strictness::Strict,
        &Observation::Found(Scraped::Label("$200.00".to_string())),
    );
    assert_eq!(
        action,
        Action::Fetch {
            lines: lines(&["    Y: $200.00", "", "\x1B[35mCPU:\x1B[m"]),
            query: "X".to_string(),
        }
    );
    assert_eq!((next, stage), (1, Stage::Scraping));
    let (action, next, stage) = step(
        &entries,
        1,
        Stage::Scraping,
        Strictness::Strict,
        &Observation::Found(Scraped::NoMatch { component: &kind, document: "<html>".to_string() }),
    );
    assert_eq!(action, Action::Finish { lines: lines(&["Case: No match: <html>"]) });
    assert_eq!((next, stage), (2, Stage::Finished));
}

#[test]
fn a_step_stops_on_what_cannot_be_used() {
    let entries = vec![part(ComponentType::Case, "Y", 20000)];
    let (action, next, stage) = step(
        &entries,
        0,
        Stage::Scraping,
        Strictness::Strict,
        &Observation::Unusable(ExtractError::Selector),
    );
    assert_eq!(
        action,
        Action::Abort {
            cause: Cause::Extraction(ExtractError::Selector),
            message: "Y: Unable to select the price link".to_string(),
        }
    );
    assert_eq!((next, stage), (0, Stage::Failed));
    let (action, _, _) = step(
        &entries,
        0,
        Stage::Scraping,
        Strictness::Strict,
        &Observation::Unusable(ExtractError::InvalidNumeral),
    );
    assert_eq!(
        action,
        Action::Abort {
            cause: Cause::Extraction(ExtractError::InvalidNumeral),
            message: "Y: Unable to parse ".to_string(),
        }
    );
    let (action, _, stage) = step(
        &entries,
        0,
        Stage::Scraping,
        Strictness::Strict,
        &Observation::Unreachable("timed out".to_string()),
    );
    assert_eq!(action, Action::Abort { cause: Cause::Transport, message: "Y: timed out".to_string() });
    assert_eq!(stage, Stage::Failed);
}

#[test]
fn a_step_without_an_outstanding_fetch_does_nothing() {
    let entries = vec![part(ComponentType::Case, "Y", 20000)];
    let found = Observation::Found(Scraped::Label("$1.00".to_string()));
    for stage in [Stage::Loaded, Stage::Sorted, Stage::Listing, Stage::Finished, Stage::Failed] {
        let (action, next, after) = step(&entries, 0, stage, Strictness::Strict, &found);
        assert_eq!(action, Action::Finish { lines: Vec::new() });
        assert_eq!((next, after), (0, stage));
    }
    let (action, next, after) = step(&entries, 1, Stage::Scraping, Strictness::Strict, &found);
    assert_eq!(action, Action::Finish { lines: Vec::new() });
    assert_eq!((next, after), (1, Stage::Scraping));
}

//! The run as a state machine: the catalog is loaded, sorted, and then
//! either listed or checked part by part, one fetch at a time. The caller
//! prints the lines, performs the fetches and hands each outcome back.

use vstd::prelude::*;
use crate::amount::{numeral_units, Strictness};
use crate::catalog::{is_check_of, CatalogError, Component, PartsList};
use crate::sorting::{is_ordered, is_stable_sort_of, law_sort_keeps_parts, sort_components};
use crate::category::Category;
use crate::extract::{page_finding, scrape, ExtractError, Finding, Scraped};
use crate::report::{
    group_lines, heading_lines, list_components, list_line_text, no_match_line_text, report_line,
    report_line_text,
};
use crate::search::SearchResult;

verus! {

/// What a run is for.
#[derive(Clone, Copy, Debug, PartialEq, Eq, Structural)]
pub enum Mode {
    /// List the catalog; nothing is fetched.
    List,
    /// Fetch and report the price of each part.
    Scrape,
}

/// Where a run stands.
#[derive(Clone, Copy, Debug, PartialEq, Eq, Structural)]
pub enum Stage {
    /// The catalog is held as it was given.
    Loaded,
    /// The catalog is sorted.
    Sorted,
    /// The listing has been handed out; the run is over.
    Listing,
    /// A fetch for the part at the cursor is outstanding.
    Scraping,
    /// Every part has been reported; the run is over.
    Finished,
    /// The run was stopped by a failure.
    Failed,
}

/// Why a run was stopped.
#[derive(Clone, Copy, Debug, PartialEq, Eq, Structural)]
pub enum Cause {
    /// A fetch failed.
    Transport,
    /// A page held a price link from which no price could be read.
    Extraction(ExtractError),
}

/// What came of a fetch.
#[derive(Debug, PartialEq, Eq)]
pub enum SearchOutcome {
    /// The body of the page.
    Page(String),
    /// The fetch failed, for the reason given.
    Failed(String),
}

/// What came of a fetch once the page has been looked into.
#[derive(Debug, PartialEq, Eq)]
pub enum Observation<'a> {
    /// What the page holds.
    Found(Scraped<'a>),
    /// The page could not be looked into.
    Unusable(ExtractError),
    /// The fetch failed, for the reason given.
    Unreachable(String),
}

/// What the caller is to do next. Lines are to be printed first, in order,
/// each on a line of its own.
#[derive(Debug, PartialEq, Eq)]
pub enum Action {
    /// Search for `query` and come back with the outcome.
    Fetch { lines: Vec<String>, query: String },
    /// Stop: the run is complete.
    Finish { lines: Vec<String> },
    /// Stop with a failure, and report `message`.
    Abort { cause: Cause, message: String },
}

/// An observation, as text.
pub enum Observed {
    Found(Finding),
    Unusable(ExtractError),
    Unreachable(Seq<char>),
}

impl<'a> View for Observation<'a> {
    type V = Observed;

    open spec fn view(&self) -> Observed {
        match self {
            Observation::Found(scraped) => Observed::Found(scraped@),
            Observation::Unusable(e) => Observed::Unusable(*e),
            Observation::Unreachable(reason) => Observed::Unreachable(reason@),
        }
    }
}

/// An action, as text.
pub enum Decision {
    Fetch { lines: Seq<Seq<char>>, query: Seq<char> },
    Finish { lines: Seq<Seq<char>> },
    Abort { cause: Cause, message: Seq<char> },
}

impl View for Action {
    type V = Decision;

    open spec fn view(&self) -> Decision {
        match self {
            Action::Fetch { lines, query } => Decision::Fetch {
                lines: lines.deep_view(),
                query: query@,
            },
            Action::Finish { lines } => Decision::Finish { lines: lines.deep_view() },
            Action::Abort { cause, message } => Decision::Abort { cause: *cause, message: message@ },
        }
    }
}

/// The report of a failed fetch for `query`.
pub open spec fn transport_message(query: Seq<char>, reason: Seq<char>) -> Seq<char> {
    query + ": "@ + reason
}

/// The report of a page for `query` from which no price could be read.
pub open spec fn extraction_message(query: Seq<char>, found: Observed, e: ExtractError) -> Seq<char> {
    match e {
        ExtractError::PageTooLong => query + ": The page is too long to be read"@,
        ExtractError::Selector => query + ": Unable to select the price link"@,
        ExtractError::MissingCurrencyPrefix => query + ": Price does not start with $"@,
        ExtractError::InvalidNumeral => query + ": Unable to parse "@ + (match found {
            Observed::Found(Finding::Label(label)) => label,
            _ => Seq::empty(),
        }),
    }
}

/// Where a run stands after an action, and the action.
pub struct Turn {
    pub decision: Decision,
    pub next: nat,
    pub stage: Stage,
}

/// The turn that asks for the part at `next`: the lines `shown`, then the
/// lines that open a group where the part begins one, and the fetch of the
/// part's search text.
pub open spec fn fetch_part(entries: Seq<Component>, next: nat, shown: Seq<Seq<char>>) -> Turn {
    let previous = if next == 0 {
        None
    } else {
        Some(entries[next - 1].component_type@)
    };
    Turn {
        decision: Decision::Fetch {
            lines: shown + group_lines(previous, entries[next as int].component_type@),
            query: entries[next as int].query@,
        },
        next,
        stage: Stage::Scraping,
    }
}

/// What a run does when the outcome of the fetch for the part at `next`
/// comes in.
///
/// Where no fetch is outstanding, nothing changes and nothing is to be
/// done. A failed fetch, or a price link from which no price can be read,
/// stops the run with a report that names the search text. Otherwise the
/// part's line is shown, also where the page held no price link, and the
/// run goes on to the next part, or ends behind the last.
pub open spec fn turn(
    entries: Seq<Component>,
    next: nat,
    stage: Stage,
    policy: Strictness,
    observed: Observed,
) -> Turn {
    if stage != Stage::Scraping || next >= entries.len() {
        Turn { decision: Decision::Finish { lines: Seq::empty() }, next, stage }
    } else {
        let entry = entries[next as int];
        match observed {
            Observed::Unreachable(reason) => Turn {
                decision: Decision::Abort {
                    cause: Cause::Transport,
                    message: transport_message(entry.query@, reason),
                },
                next,
                stage: Stage::Failed,
            },
            Observed::Unusable(e) => Turn {
                decision: Decision::Abort {
                    cause: Cause::Extraction(e),
                    message: extraction_message(entry.query@, observed, e),
                },
                next,
                stage: Stage::Failed,
            },
            Observed::Found(finding) => match report_line_text(entry@, finding, policy) {
                Err(e) => Turn {
                    decision: Decision::Abort {
                        cause: Cause::Extraction(e),
                        message: extraction_message(entry.query@, observed, e),
                    },
                    next,
                    stage: Stage::Failed,
                },
                Ok(line) => if next + 1 == entries.len() {
                    Turn {
                        decision: Decision::Finish { lines: seq![line] },
                        next: next + 1,
                        stage: Stage::Finished,
                    }
                } else {
                    fetch_part(entries, next + 1, seq![line])
                },
            },
        }
    }
}

/// The plain listing of `entries`: one line for each part, in order.
pub open spec fn listing(entries: Seq<Component>) -> Seq<Seq<char>> {
    Seq::new(entries.len(), |i: int| list_line_text(entries[i]@))
}

/// What a run does when it begins on its sorted catalog: in list mode it
/// hands out the listing and is over, with nothing to fetch; in scrape mode
/// it asks for the first part, or is over at once where there is none.
/// A run that does not stand on a sorted catalog does nothing.
pub open spec fn opening(entries: Seq<Component>, next: nat, stage: Stage, mode: Mode) -> Turn {
    if stage != Stage::Sorted {
        Turn { decision: Decision::Finish { lines: Seq::empty() }, next, stage }
    } else {
        match mode {
            Mode::List => Turn {
                decision: Decision::Finish { lines: listing(entries) },
                next: 0,
                stage: Stage::Listing,
            },
            Mode::Scrape => if entries.len() == 0 {
                Turn {
                    decision: Decision::Finish { lines: Seq::empty() },
                    next: 0,
                    stage: Stage::Finished,
                }
            } else {
                fetch_part(entries, 0, Seq::empty())
            },
        }
    }
}

/// What a fetch's outcome is once the page has been looked into for a part
/// of the given kind.
pub open spec fn observed_of(outcome: SearchOutcome, entry: Component) -> Observed {
    match outcome {
        SearchOutcome::Failed(reason) => Observed::Unreachable(reason@),
        SearchOutcome::Page(page) => match page_finding(entry.component_type@, page@) {
            Ok(finding) => Observed::Found(finding),
            Err(e) => Observed::Unusable(e),
        },
    }
}

/// A label without the currency sign is fatal: the run stops, with a
/// report that names the search text, shows no line for the part and does
/// not go on to the next.
pub proof fn law_label_without_currency_sign_stops_run(
    entries: Seq<Component>,
    next: nat,
    policy: Strictness,
    label: Seq<char>,
)
    requires
        next < entries.len(),
        label.len() == 0 || label[0] != '$',
    ensures
        turn(entries, next, Stage::Scraping, policy, Observed::Found(Finding::Label(label))) == (Turn {
            decision: Decision::Abort {
                cause: Cause::Extraction(ExtractError::MissingCurrencyPrefix),
                message: entries[next as int].query@ + ": Price does not start with $"@,
            },
            next,
            stage: Stage::Failed,
        }),
{
}

/// A label whose numeral stands for no amount is fatal in the same way.
pub proof fn law_label_without_amount_stops_run(
    entries: Seq<Component>,
    next: nat,
    policy: Strictness,
    label: Seq<char>,
)
    requires
        next < entries.len(),
        label.len() > 0 && label[0] == '$',
        numeral_units(label.drop_first(), policy) is None,
    ensures
        turn(entries, next, Stage::Scraping, policy, Observed::Found(Finding::Label(label))) == (Turn {
            decision: Decision::Abort {
                cause: Cause::Extraction(ExtractError::InvalidNumeral),
                message: entries[next as int].query@ + ": Unable to parse "@ + label,
            },
            next,
            stage: Stage::Failed,
        }),
{
}

/// A page without price link is not fatal: the run shows the report of
/// it, and goes on to the next part, or ends in good order behind the last.
pub proof fn law_no_match_goes_on(
    entries: Seq<Component>,
    next: nat,
    policy: Strictness,
    category: Category,
    document: Seq<char>,
)
    requires
        next < entries.len(),
    ensures
        ({
            let after = turn(
                entries,
                next,
                Stage::Scraping,
                policy,
                Observed::Found(Finding::NoMatch { category, document }),
            );
            &&& after.next == next + 1
            &&& next + 1 < entries.len() ==> after.stage == Stage::Scraping && after.decision
                == (Decision::Fetch {
                lines: seq![no_match_line_text(category, document)] + group_lines(
                    Some(entries[next as int].component_type@),
                    entries[next as int + 1].component_type@,
                ),
                query: entries[next as int + 1].query@,
            })
            &&& next + 1 == entries.len() ==> after.stage == Stage::Finished && after.decision
                == (Decision::Finish { lines: seq![no_match_line_text(category, document)] })
        }),
{
}

/// In list mode nothing is fetched: the run hands out the listing, one
/// line for each part of the catalog, and is over.
pub proof fn law_list_mode_fetches_nothing(entries: Seq<Component>, next: nat)
    ensures
        opening(entries, next, Stage::Sorted, Mode::List) == (Turn {
            decision: Decision::Finish { lines: listing(entries) },
            next: 0,
            stage: Stage::Listing,
        }),
        listing(entries).len() == entries.len(),
{
}

/// The listing of a sorted catalog follows the sorted order, and its line
/// at `i` shows a part of the input as it stood there: kind, search text
/// and price.
pub proof fn law_listing_shows_the_catalog(
    input: Seq<Component>,
    entries: Seq<Component>,
    i: int,
) -> (j: int)
    requires
        is_stable_sort_of(entries, input),
        0 <= i < entries.len(),
    ensures
        is_ordered(entries),
        0 <= j < input.len(),
        listing(entries)[i] == list_line_text(input[j]@),
        input[j] == entries[i],
{
    law_sort_keeps_parts(input, entries, i)
}

/// A run: its catalog, the place of the part whose price is awaited, the
/// way in which labels are read, and where it stands. A run is always in
/// good order: see `Progress::wf`.
#[derive(Debug, PartialEq, Eq)]
pub struct Pipeline {
    entries: Vec<Component>,
    next: usize,
    policy: Strictness,
    stage: Stage,
}

/// What a run holds.
pub struct Progress {
    pub entries: Seq<Component>,
    pub next: nat,
    pub policy: Strictness,
    pub stage: Stage,
}

impl Progress {
    /// Whether the run is in good order: the cursor stands within the
    /// catalog or right behind it, and the catalog of a run that is past
    /// loading is sorted.
    pub open spec fn wf(self) -> bool {
        &&& self.next <= self.entries.len()
        &&& self.stage != Stage::Loaded ==> is_ordered(self.entries)
    }

    /// Whether the run awaits the outcome of a fetch.
    pub open spec fn awaits(self) -> bool {
        self.stage == Stage::Scraping && self.next < self.entries.len()
    }
}

impl View for Pipeline {
    type V = Progress;

    closed spec fn view(&self) -> Progress {
        Progress {
            entries: self.entries@,
            next: self.next as nat,
            policy: self.policy,
            stage: self.stage,
        }
    }
}

/// The lines `a` followed by the lines `b`.
fn join_lines(a: Vec<String>, b: Vec<String>) -> (r: Vec<String>)
    ensures
        r.deep_view() == a.deep_view() + b.deep_view(),
{
    let mut a = a;
    let mut b = b;
    a.append(&mut b);
    a
}

/// The turn that asks for the part at `next`.
fn fetch_turn(entries: &[Component], next: usize, shown: Vec<String>) -> (r: (
    Action,
    usize,
    Stage,
))
    requires
        next < entries.len(),
    ensures
        (Turn { decision: r.0@, next: r.1 as nat, stage: r.2 }) == fetch_part(
            entries@,
            next as nat,
            shown.deep_view(),
        ),
{
    let heading = if next == 0 {
        heading_lines(None, &entries[next].component_type)
    } else {
        heading_lines(Some(&entries[next - 1].component_type), &entries[next].component_type)
    };
    let lines = join_lines(shown, heading);
    (Action::Fetch { lines, query: entries[next].query.clone() }, next, Stage::Scraping)
}

/// The report that stops a run over the part `entry`.
fn extraction_failure(entry: &Component, observation: &Observation, e: ExtractError) -> (r: String)
    ensures
        r@ == extraction_message(entry.query@, observation@, e),
{
    let mut out = entry.query.clone();
    match e {
        ExtractError::PageTooLong => {
            out.append(": The page is too long to be read");
        },
        ExtractError::Selector => {
            out.append(": Unable to select the price link");
        },
        ExtractError::MissingCurrencyPrefix => {
            out.append(": Price does not start with $");
        },
        ExtractError::InvalidNumeral => {
            out.append(": Unable to parse ");
            match observation {
                Observation::Found(Scraped::Label(label)) => {
                    out.append(label.as_str());
                },
                _ => {},
            }
        },
    }
    out
}

/// What a run that stands at `next` in `stage` does when `observation`
/// comes in: the action, and where the run stands after it.
pub fn step(
    entries: &[Component],
    next: usize,
    stage: Stage,
    policy: Strictness,
    observation: &Observation,
) -> (r: (Action, usize, Stage))
    ensures
        (Turn { decision: r.0@, next: r.1 as nat, stage: r.2 }) == turn(
            entries@,
            next as nat,
            stage,
            policy,
            observation@,
        ),
{
    if stage != Stage::Scraping || next >= entries.len() {
        let lines: Vec<String> = Vec::new();
        assert(lines.deep_view() =~= Seq::<Seq<char>>::empty());
        return (Action::Finish { lines }, next, stage);
    }
    let entry = &entries[next];
    match observation {
        Observation::Unreachable(reason) => {
            let mut message = entry.query.clone();
            message.append(": ");
            message.append(reason.as_str());
            (Action::Abort { cause: Cause::Transport, message }, next, Stage::Failed)
        },
        Observation::Unusable(e) => {
            let message = extraction_failure(entry, observation, *e);
            (Action::Abort { cause: Cause::Extraction(*e), message }, next, Stage::Failed)
        },
        Observation::Found(scraped) => match report_line(entry, scraped, policy) {
            Err(e) => {
                let message = extraction_failure(entry, observation, e);
                (Action::Abort { cause: Cause::Extraction(e), message }, next, Stage::Failed)
            },
            Ok(line) => {
                let mut shown: Vec<String> = Vec::new();
                shown.push(line);
                assert(shown.deep_view() =~= seq![line@]);
                if next + 1 == entries.len() {
                    (Action::Finish { lines: shown }, next + 1, Stage::Finished)
                } else {
                    fetch_turn(entries, next + 1, shown)
                }
            },
        },
    }
}

impl Pipeline {
    #[verifier::type_invariant]
    spec fn in_good_order(&self) -> bool {
        self@.wf()
    }

    /// The catalog, as it stands.
    pub fn entries(&self) -> (r: &[Component])
        ensures
            r@ == self@.entries,
            self@.wf(),
    {
        proof {
            use_type_invariant(self);
        }
        self.entries.as_slice()
    }

    /// The place of the part whose price is awaited, or that of the next
    /// to be asked for.
    pub fn next(&self) -> (r: usize)
        ensures
            r == self@.next,
    {
        self.next
    }

    /// The way in which labels are read.
    pub fn policy(&self) -> (r: Strictness)
        ensures
            r == self@.policy,
    {
        self.policy
    }

    /// Where the run stands.
    pub fn stage(&self) -> (r: Stage)
        ensures
            r == self@.stage,
    {
        self.stage
    }

    /// The part whose price the run awaits, if it awaits one.
    pub fn awaited(&self) -> (r: Option<&Component>)
        ensures
            r is Some == self@.awaits(),
            r matches Some(entry) ==> *entry == self@.entries[self@.next as int],
    {
        if self.stage == Stage::Scraping && self.next < self.entries.len() {
            Some(&self.entries[self.next])
        } else {
            None
        }
    }

    /// Takes up the catalog, which must have a search text in every part.
    pub fn load(parts: PartsList, policy: Strictness) -> (r: Result<Pipeline, CatalogError>)
        ensures
            is_check_of(
                match r {
                    Ok(_) => Ok(()),
                    Err(e) => Err(e),
                },
                parts.parts@,
            ),
            r matches Ok(run) ==> run@ == (Progress {
                entries: parts.parts@,
                next: 0,
                policy,
                stage: Stage::Loaded,
            }),
    {
        match parts.check() {
            Err(e) => Err(e),
            Ok(()) => Ok(Pipeline { entries: parts.parts, next: 0, policy, stage: Stage::Loaded }),
        }
    }

    /// Sorts the catalog of a run that has just been loaded. In any other
    /// stage nothing changes.
    pub fn sort(self) -> (r: Pipeline)
        ensures
            r@.wf(),
            r@.next == self@.next,
            r@.policy == self@.policy,
            self@.stage == Stage::Loaded ==> r@.stage == Stage::Sorted && is_stable_sort_of(
                r@.entries,
                self@.entries,
            ) && r@.entries.len() == self@.entries.len() && r@.entries.to_multiset()
                == self@.entries.to_multiset(),
            self@.stage != Stage::Loaded ==> r@ == self@,
    {
        proof {
            use_type_invariant(&self);
        }
        if self.stage == Stage::Loaded {
            let mut entries = self.entries;
            sort_components(&mut entries);
            Pipeline { entries, next: self.next, policy: self.policy, stage: Stage::Sorted }
        } else {
            self
        }
    }

    /// Begins the run on its sorted catalog: what is listed, or gone
    /// through part by part, stands in sorted order.
    pub fn begin(&mut self, mode: Mode) -> (action: Action)
        ensures
            final(self)@.wf(),
            old(self)@.stage == Stage::Sorted ==> is_ordered(final(self)@.entries),
            final(self)@.entries == old(self)@.entries,
            final(self)@.policy == old(self)@.policy,
            (Turn { decision: action@, next: final(self)@.next, stage: final(self)@.stage })
                == opening(old(self)@.entries, old(self)@.next, old(self)@.stage, mode),
    {
        proof {
            use_type_invariant(&*self);
        }
        if self.stage != Stage::Sorted {
            let lines: Vec<String> = Vec::new();
            assert(lines.deep_view() =~= Seq::<Seq<char>>::empty());
            return Action::Finish { lines };
        }
        match mode {
            Mode::List => {
                let lines = list_components(self.entries.as_slice());
                assert(lines.deep_view() =~= listing(self.entries@));
                self.next = 0;
                self.stage = Stage::Listing;
                Action::Finish { lines }
            },
            Mode::Scrape => {
                let shown: Vec<String> = Vec::new();
                assert(shown.deep_view() =~= Seq::<Seq<char>>::empty());
                self.next = 0;
                if self.entries.len() == 0 {
                    self.stage = Stage::Finished;
                    Action::Finish { lines: shown }
                } else {
                    let (action, _, stage) = fetch_turn(self.entries.as_slice(), 0, shown);
                    self.stage = stage;
                    action
                }
            },
        }
    }

    /// Takes the outcome of the fetch that the run awaits: looks into the
    /// page, and does what `turn` says of what was observed.
    pub fn advance(&mut self, outcome: SearchOutcome) -> (action: Action)
        ensures
            final(self)@.wf(),
            final(self)@.entries == old(self)@.entries,
            final(self)@.policy == old(self)@.policy,
            old(self)@.awaits() ==> (Turn {
                decision: action@,
                next: final(self)@.next,
                stage: final(self)@.stage,
            }) == turn(
                old(self)@.entries,
                old(self)@.next,
                old(self)@.stage,
                old(self)@.policy,
                observed_of(outcome, old(self)@.entries[old(self)@.next as int]),
            ),
            !old(self)@.awaits() ==> final(self)@ == old(self)@ && action@ == (Decision::Finish {
                lines: Seq::empty(),
            }),
    {
        proof {
            use_type_invariant(&*self);
        }
        if self.stage != Stage::Scraping || self.next >= self.entries.len() {
            let lines: Vec<String> = Vec::new();
            assert(lines.deep_view() =~= Seq::<Seq<char>>::empty());
            return Action::Finish { lines };
        }
        let observation = match outcome {
            SearchOutcome::Failed(reason) => Observation::Unreachable(reason),
            SearchOutcome::Page(page) => {
                let result = SearchResult {
                    component: &self.entries[self.next].component_type,
                    page,
                };
                match scrape(&result) {
                    Ok(scraped) => Observation::Found(scraped),
                    Err(e) => Observation::Unusable(e),
                }
            },
        };
        let (action, next, stage) = step(
            self.entries.as_slice(),
            self.next,
            self.stage,
            self.policy,
            &observation,
        );
        self.next = next;
        self.stage = stage;
        action
    }
}

} // verus!

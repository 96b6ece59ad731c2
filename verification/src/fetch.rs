//! What a request for a page came to, and what follows from it.

use crate::assemble::{
    acs_view, assemble, assembled, create_acs, created, name_view, resolved,
};
use crate::extract::{
    lemma_clean_empty, lemma_clean_vlam, lemma_labelled_disruption_page, markers_of, strategy_for,
};
use crate::page::page_text;
use crate::record::{Acs, AcsView, SCPInfo, Strategy};
use vstd::prelude::*;

verus! {

/// Why a request failed in a way that may pass.
#[derive(Clone, Debug, PartialEq, Eq)]
pub enum Cause {
    /// The server answered with this status, which is neither a success nor
    /// "not found".
    Status(u16),
    /// The request did not get an answer.
    Transport(String),
}

/// What a `Cause` holds.
pub enum CauseView {
    Status(u16),
    Transport(Seq<char>),
}

impl View for Cause {
    type V = CauseView;

    open spec fn view(&self) -> CauseView {
        match self {
            Cause::Status(s) => CauseView::Status(*s),
            Cause::Transport(m) => CauseView::Transport(m@),
        }
    }
}

/// What a request for a page came to.
#[derive(Clone, Debug, PartialEq, Eq)]
pub enum FetchOutcome {
    /// The page, as HTML text.
    Found(String),
    /// There is no such page: an expected answer, final.
    NotFound,
    /// The request failed and may be tried again.
    TransientError(Cause),
}

/// What a `FetchOutcome` holds.
pub enum FetchOutcomeView {
    Found(Seq<char>),
    NotFound,
    TransientError(CauseView),
}

impl View for FetchOutcome {
    type V = FetchOutcomeView;

    open spec fn view(&self) -> FetchOutcomeView {
        match self {
            FetchOutcome::Found(body) => FetchOutcomeView::Found(body@),
            FetchOutcome::NotFound => FetchOutcomeView::NotFound,
            FetchOutcome::TransientError(c) => FetchOutcomeView::TransientError(c@),
        }
    }
}

/// The outcome that an answer with the status `status` and the body `body`
/// stands for: 404 is "not found", 200 to 299 the page, all else a failure
/// that may pass.
pub open spec fn outcome_of(status: u16, body: Seq<char>) -> FetchOutcomeView {
    if status == 404 {
        FetchOutcomeView::NotFound
    } else if 200 <= status <= 299 {
        FetchOutcomeView::Found(body)
    } else {
        FetchOutcomeView::TransientError(CauseView::Status(status))
    }
}

/// The outcome that an answer with the status `status` and the body `body`
/// stands for.
pub fn classify_response(status: u16, body: String) -> (r: FetchOutcome)
    ensures
        r@ == outcome_of(status, body@),
{
    if status == 404 {
        FetchOutcome::NotFound
    } else if 200 <= status && status <= 299 {
        FetchOutcome::Found(body)
    } else {
        FetchOutcome::TransientError(Cause::Status(status))
    }
}

/// Why a page gave no record.
#[derive(Clone, Debug, PartialEq, Eq)]
pub enum HarvestError {
    /// The page is missing, or nothing could be read from it.
    NoData,
    /// The request failed.
    Fetch(Cause),
}

/// What a `HarvestError` holds.
pub enum HarvestErrorView {
    NoData,
    Fetch(CauseView),
}

impl View for HarvestError {
    type V = HarvestErrorView;

    open spec fn view(&self) -> HarvestErrorView {
        match self {
            HarvestError::NoData => HarvestErrorView::NoData,
            HarvestError::Fetch(c) => HarvestErrorView::Fetch(c@),
        }
    }
}

/// The view of the result of reading one page.
pub open spec fn fetched_view(r: Result<Option<Acs>, Cause>) -> Result<Option<AcsView>, CauseView> {
    match r {
        Ok(a) => Ok(acs_view(a)),
        Err(c) => Err(c@),
    }
}

/// What reading one page comes to: the record of a page that was found, if it
/// yields one; nothing for a missing page; the cause of a failed request.
pub open spec fn fetched(
    outcome: FetchOutcomeView,
    catalog: Seq<SCPInfo>,
    number: Seq<char>,
    name: Option<Seq<char>>,
    url: Seq<char>,
    fragment: bool,
) -> Result<Option<AcsView>, CauseView> {
    match outcome {
        FetchOutcomeView::Found(body) => Ok(assembled(body, catalog, number, name, url, fragment)),
        FetchOutcomeView::NotFound => Ok(None),
        FetchOutcomeView::TransientError(c) => Err(c),
    }
}

/// Turns the outcome of the request for one page into its record.
pub fn fetch_acs_data(
    outcome: FetchOutcome,
    catalog: &[SCPInfo],
    actual_number: &str,
    name: Option<&str>,
    url: &str,
    fragment: bool,
) -> (r: Result<Option<Acs>, Cause>)
    ensures
        fetched_view(r) == fetched(
            outcome@,
            catalog@,
            actual_number@,
            name_view(name),
            url@,
            fragment,
        ),
{
    match outcome {
        FetchOutcome::Found(body) => Ok(
            assemble(body.as_str(), catalog, actual_number, name, url, fragment),
        ),
        FetchOutcome::NotFound => Ok(None),
        FetchOutcome::TransientError(c) => Err(c),
    }
}

/// The view of the result of reading the page of a discovered entry.
pub open spec fn entry_view(r: Result<Acs, HarvestError>) -> Result<AcsView, HarvestErrorView> {
    match r {
        Ok(a) => Ok(a@),
        Err(e) => Err(e@),
    }
}

/// What reading the page of a discovered entry comes to: its record, finished
/// once more; an error where the page gave none.
pub open spec fn updated(
    outcome: FetchOutcomeView,
    catalog: Seq<SCPInfo>,
    number: Seq<char>,
    name: Seq<char>,
    url: Seq<char>,
    fragment: bool,
) -> Result<AcsView, HarvestErrorView> {
    match fetched(outcome, catalog, number, Some(name), url, fragment) {
        Ok(Some(a)) => Ok(created(a)),
        Ok(None) => Err(HarvestErrorView::NoData),
        Err(c) => Err(HarvestErrorView::Fetch(c)),
    }
}

/// Turns the outcome of the request for the page of a discovered entry into
/// the record to add to the dataset.
pub fn fetch_and_update_entry(
    outcome: FetchOutcome,
    catalog: &[SCPInfo],
    actual_number: &str,
    name: &str,
    url: &str,
    fragment: bool,
) -> (r: Result<Acs, HarvestError>)
    ensures
        entry_view(r) == updated(outcome@, catalog@, actual_number@, name@, url@, fragment),
{
    match fetch_acs_data(outcome, catalog, actual_number, Some(name), url, fragment) {
        Ok(Some(acs)) => Ok(create_acs(acs)),
        Ok(None) => Err(HarvestError::NoData),
        Err(c) => Err(HarvestError::Fetch(c)),
    }
}

/// A page that is found, shows no marker and holds no text but
/// "disruption class: vlam" gives a record read from free text: its
/// disruption class is "vlam", its other classes and its clearance are
/// empty, and its address and fragment flag are the caller's.
pub proof fn lemma_free_text_page(
    html: Seq<char>,
    catalog: Seq<SCPInfo>,
    number: Seq<char>,
    name: Option<Seq<char>>,
    url: Seq<char>,
    fragment: bool,
)
    requires
        strategy_for(markers_of(html)) == Strategy::HeuristicText,
        page_text(html) == "disruption class: vlam"@,
    ensures
        fetched(FetchOutcomeView::Found(html), catalog, number, name, url, fragment) matches Ok(
            Some(r),
        ) && {
            &&& r.scraper == Strategy::HeuristicText
            &&& r.disrupt == "vlam"@
            &&& r.contain.len() == 0
            &&& r.secondary.len() == 0
            &&& r.risk.len() == 0
            &&& r.clearance.len() == 0
            &&& r.url == url
            &&& r.fragment == fragment
            &&& r.name == resolved(catalog, number, name).0
        },
{
    lemma_labelled_disruption_page(html);
    lemma_clean_empty();
    lemma_clean_vlam();
}

} // verus!

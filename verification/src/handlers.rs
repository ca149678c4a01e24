//! The three operations of the service, independent of HTTP:
//! shorten a URL, follow a short code, and report a code's click count.
use vstd::prelude::*;
use vstd::string::StringExecFns;

use crate::model::{after_redirect, after_shorten, lemma_lookup, lookup, next_code};
use crate::store::AppState;
use crate::text::{is_accepted_url, normalize_url, spec_trim};

verus! {

/// Body of a request to shorten a URL: `{"url": "https://example.com/very/long"}`.
#[derive(Debug)]
pub struct ShortenRequest {
    pub url: String,
}

/// Answer to a shortening request: `{"short": "0"}`.
#[derive(Debug)]
pub struct ShortenResponse {
    pub short: String,
}

/// Answer to a statistics request: `{"short": "0", "clicks": 3}`.
#[derive(Debug)]
pub struct StatsResponse {
    pub short: String,
    pub clicks: u64,
}

/// Every error the service can answer with.
#[derive(Debug)]
pub enum AppError {
    /// The submitted URL was rejected.
    BadRequest,
    /// No link has the requested code.
    NotFound,
    /// Something failed inside the service; the text says what.
    Internal(String),
}

impl AppError {
    /// The HTTP status code and the body text that answer this error:
    /// 400 "bad request", 404 "not found", 500 "internal server error".
    pub fn status_and_body(&self) -> (r: (u16, &'static str))
        ensures
            self is BadRequest ==> r.0 == 400 && r.1@ == "bad request"@,
            self is NotFound ==> r.0 == 404 && r.1@ == "not found"@,
            self is Internal ==> r.0 == 500 && r.1@ == "internal server error"@,
    {
        match self {
            AppError::BadRequest => (400, "bad request"),
            AppError::NotFound => (404, "not found"),
            AppError::Internal(_) => (500, "internal server error"),
        }
    }
}

/// Validates the URL, mints the next code, stores the pair and returns the code.
///
/// The URL is trimmed of surrounding whitespace; it is rejected with
/// `BadRequest` (and nothing is stored) unless it is non-empty and starts with
/// `http://` or `https://`. The code of a new link is the number of links
/// stored before it, in base 62, so the first link gets `0`.
pub fn shorten(state: &mut AppState, payload: ShortenRequest) -> (r: Result<ShortenResponse, AppError>)
    requires
        old(state).wf(),
    ensures
        final(state).wf(),
        final(state)@ == after_shorten(old(state)@, payload.url@),
        r is Ok <==> is_accepted_url(spec_trim(payload.url@)),
        r matches Ok(resp) ==> resp.short@ == next_code(old(state)@),
        r matches Err(e) ==> e is BadRequest,
{
    match normalize_url(payload.url.as_str()) {
        None => Err(AppError::BadRequest),
        Some(url) => {
            let code = state.insert(url);
            Ok(ShortenResponse { short: code })
        },
    }
}

/// Counts a click on the link with this code and returns its URL, the target
/// of the redirect; `NotFound` (and no change) for an unknown code.
pub fn redirect(state: &mut AppState, code: &str) -> (r: Result<String, AppError>)
    requires
        old(state).wf(),
    ensures
        final(state).wf(),
        final(state)@ == after_redirect(old(state)@, code@),
        r is Ok <==> lookup(old(state)@, code@) is Some,
        r matches Ok(url) ==> url@ == old(state)@[lookup(old(state)@, code@)->0].0,
        r matches Err(e) ==> e is NotFound,
{
    proof {
        lemma_lookup(state@, code@);
    }
    match state.find(code) {
        None => Err(AppError::NotFound),
        Some(i) => {
            let url = state.url_at(i);
            state.record_click(i);
            Ok(url)
        },
    }
}

/// Reports how many times the link with this code has been followed;
/// `NotFound` for an unknown code.
pub fn stats(state: &AppState, code: &str) -> (r: Result<StatsResponse, AppError>)
    requires
        state.wf(),
    ensures
        r is Ok <==> lookup(state@, code@) is Some,
        r matches Ok(resp) ==> resp.short@ == code@ && resp.clicks == state@[lookup(state@, code@)->0].1,
        r matches Err(e) ==> e is NotFound,
{
    proof {
        lemma_lookup(state@, code@);
    }
    match state.find(code) {
        None => Err(AppError::NotFound),
        Some(i) => {
            let clicks = state.clicks_at(i);
            Ok(StatsResponse { short: String::from_str(code), clicks })
        },
    }
}

} // verus!

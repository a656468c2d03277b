//! Opening a streaming service in the service view.
use vstd::prelude::*;

use url::Url;

use crate::error::AppError;
use crate::state::{same_service, select_service, AppState};

verus! {

#[verifier::external_type_specification]
#[verifier::external_body]
pub struct ExUrl(url::Url);

/// What `url::Url::parse` makes of `input`: the URL it builds when it accepts the text as an
/// absolute URL, otherwise the display text of the `url::ParseError` it reports.
pub uninterp spec fn url_parse_outcome(input: Seq<char>) -> Result<Url, Seq<char>>;

/// Parses `input` with `url::Url::parse`. Claims that the outcome is `url_parse_outcome` of the
/// text: that URL, or the display text of that error.
#[verifier::external_body]
fn parse_url(input: &str) -> (r: Result<Url, String>)
    ensures
        match r {
            Ok(u) => url_parse_outcome(input@) == Ok::<Url, Seq<char>>(u),
            Err(m) => url_parse_outcome(input@) == Err::<Url, Seq<char>>(m@),
        },
{
    match Url::parse(input) {
        Ok(u) => Ok(u),
        Err(e) => Err(e.to_string()),
    }
}

/// The text of the error that a missing service view gives.
pub open spec fn no_view_text() -> Seq<char> {
    "service webview not initialized"@
}

/// Whether `r` is the error for a missing service view.
pub open spec fn is_no_view_error<T>(r: Result<T, AppError>) -> bool {
    r matches Err(AppError::Tauri(m)) && m@ == no_view_text()
}

/// The service URL that a parse outcome gives: the URL itself, or `InvalidUrl` with the reason
/// the parser gave.
pub fn service_url_from_parse(parsed: Result<Url, String>) -> (r: Result<Url, AppError>)
    ensures
        match parsed {
            Ok(u) => r == Ok::<Url, AppError>(u),
            Err(reason) => r matches Err(AppError::InvalidUrl(m)) && m == reason,
        },
{
    match parsed {
        Ok(u) => Ok(u),
        Err(m) => Err(AppError::InvalidUrl(m)),
    }
}

/// Parses the URL of a service: the URL that the parser builds from the text, or, for a text
/// that is not an absolute URL, `InvalidUrl` with the reason.
pub fn parse_service_url(url: &str) -> (r: Result<Url, AppError>)
    ensures
        match url_parse_outcome(url@) {
            Ok(u) => r == Ok::<Url, AppError>(u),
            Err(reason) => r matches Err(AppError::InvalidUrl(m)) && m@ == reason,
        },
{
    service_url_from_parse(parse_url(url))
}

fn no_view_error() -> (e: AppError)
    ensures
        e matches AppError::Tauri(m) && m@ == no_view_text(),
{
    AppError::Tauri("service webview not initialized".to_owned())
}

/// Makes `service_id` the active service. The result says what the service view must do next:
/// `Ok(Some(url))` load `url` and show itself, `Ok(None)` only show itself (it already shows this
/// service). Without a service view the state changes all the same and the result is an error.
pub fn open_service<V>(state: &mut AppState<V>, service_id: String, url: Url) -> (r: Result<
    Option<Url>,
    AppError,
>)
    ensures
        *final(state) == old(state).selecting(service_id),
        old(state).wf() ==> final(state).wf(),
        old(state).service_view is None ==> is_no_view_error(r),
        old(state).service_view is Some ==> r == Ok::<Option<Url>, AppError>(
            if same_service(old(state).active_service_id, service_id@) {
                None
            } else {
                Some(url)
            },
        ),
{
    let has_view = state.service_view.is_some();
    let same = select_service(state, service_id);
    if !has_view {
        return Err(no_view_error());
    }
    if same {
        Ok(None)
    } else {
        Ok(Some(url))
    }
}

/// Makes `service_id` the active service and hands back `url`, which the service view must
/// load even when it already shows this service. Without a service view the state changes all
/// the same and the result is an error.
pub fn reset_service<V>(state: &mut AppState<V>, service_id: String, url: Url) -> (r: Result<
    Url,
    AppError,
>)
    ensures
        *final(state) == old(state).selecting(service_id),
        old(state).wf() ==> final(state).wf(),
        old(state).service_view is None ==> is_no_view_error(r),
        old(state).service_view is Some ==> r == Ok::<Url, AppError>(url),
{
    let has_view = state.service_view.is_some();
    let _ = select_service(state, service_id);
    if !has_view {
        return Err(no_view_error());
    }
    Ok(url)
}

} // verus!

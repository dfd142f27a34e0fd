//! The decisions of the request handler: which response a request gets, and
//! how a pipeline run that asks for another output format is repeated once.

use vstd::prelude::*;
use crate::cache::Freshness;
use crate::formats::OutputFormat;
use crate::pipeline::{PipelineError, PipelineOutput};

verus! {

/// Where a request goes before any rendering.
#[derive(Copy, Clone, Debug, PartialEq, Eq, Structural)]
pub enum Route {
    /// 403: the signature is required and does not match.
    Forbidden,
    /// 404: the source does not exist.
    NotFound,
    /// The source itself is served, as asked (400 where it cannot be
    /// opened).
    Original,
    /// 400: the source's format is not supported and the source itself was
    /// not asked for.
    Unsupported,
    /// The derivative is served from the cache or rendered.
    Derivative,
}

/// The route of a request: a failed signature check first, then a missing
/// source; the source itself where it was asked for; a refusal where its
/// format is not supported; a derivative otherwise.
pub open spec fn route_spec(token_ok: bool, exists: bool, original: bool, supported: bool) -> Route {
    if !token_ok {
        Route::Forbidden
    } else if !exists {
        Route::NotFound
    } else if original {
        Route::Original
    } else if !supported {
        Route::Unsupported
    } else {
        Route::Derivative
    }
}

/// The route of a request.
pub fn route(token_ok: bool, exists: bool, original: bool, supported: bool) -> (r: Route)
    ensures
        r == route_spec(token_ok, exists, original, supported),
{
    if !token_ok {
        Route::Forbidden
    } else if !exists {
        Route::NotFound
    } else if original {
        Route::Original
    } else if !supported {
        Route::Unsupported
    } else {
        Route::Derivative
    }
}

/// Whether cached derivatives may be served: caching is configured and, for
/// a document, its converted PDF is itself still cached.
pub fn cache_enabled(configured: bool, is_document: bool, document_cached: bool) -> (r: bool)
    ensures
        r == (configured && (!is_document || document_cached)),
{
    configured && (!is_document || document_cached)
}

/// Whether a cached derivative in the state `state` is served: caching is
/// enabled and the derivative is fresh.
pub fn cache_hit(enabled: bool, state: Freshness) -> (r: bool)
    ensures
        r == (enabled && state == Freshness::Fresh),
{
    enabled && state == Freshness::Fresh
}

/// Whether a document conversion succeeded: the converter exited with
/// success and the PDF it was to write exists.
pub fn conversion_succeeded(exited_ok: bool, pdf_exists: bool) -> (r: bool)
    ensures
        r == (exited_ok && pdf_exists),
{
    exited_ok && pdf_exists
}

/// What the handler does after a pipeline run.
#[derive(Debug)]
pub enum NextStep {
    /// Serve the file at this path.
    Serve(String),
    /// Run the pipeline again with this format.
    Retry(OutputFormat),
    /// Answer 500; the message is for the log.
    Fail(String),
}

/// The message for a second request to change the output format.
pub open spec fn recursion_message() -> Seq<char> {
    "detected output format resolution recursion"@
}

/// The step after a run: serve its file; repeat once with the format it asks
/// for, and fail if the repeated run asks again; fail on a failed run.
pub fn after_run(first_run: bool, result: Result<PipelineOutput, PipelineError>) -> (r: NextStep)
    ensures
        match result {
            Ok(PipelineOutput::Image(p)) => r is Serve && r->Serve_0 == p,
            Ok(PipelineOutput::OutputFormat(f)) => if first_run {
                r is Retry && r->Retry_0 == f
            } else {
                r is Fail && r->Fail_0@ == recursion_message()
            },
            Err(e) => r is Fail && r->Fail_0 == e.0,
        },
{
    match result {
        Ok(PipelineOutput::Image(p)) => NextStep::Serve(p),
        Ok(PipelineOutput::OutputFormat(f)) => if first_run {
            NextStep::Retry(f)
        } else {
            NextStep::Fail("detected output format resolution recursion".to_owned())
        },
        Err(e) => NextStep::Fail(e.0),
    }
}

} // verus!

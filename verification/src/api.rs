//! What a request to the API can come back with.

use crate::error::AppErr;
use vstd::prelude::*;

verus! {

/// Where requests are sent to.
pub const GITHUB_API_V4_URL: &'static str = "https://api.github.com/graphql";

/// What the client calls itself.
pub const USER_AGENT: &'static str = "giss";

/// How many seconds a connection may take to come about.
pub const CONNECT_TIMEOUT_SECS: u64 = 10;

/// How many seconds a request may take in all.
pub const REQUEST_TIMEOUT_SECS: u64 = 15;

/// The status of an answer that is read as a result.
pub const STATUS_OK: u16 = 200;

/// The status of an answer that says too many requests were made.
pub const STATUS_TOO_MANY_REQUESTS: u16 = 429;

/// A request that failed.
#[derive(Debug)]
pub enum ApiError {
    /// There was no answer; the text says why.
    NoResponse(String),
    /// The answer had this status, which is not 200.
    Response(u16),
}

/// A failed request as plain values.
pub enum ApiErrorView {
    NoResponse(Seq<char>),
    Response(u16),
}

impl View for ApiError {
    type V = ApiErrorView;

    open spec fn view(&self) -> ApiErrorView {
        match self {
            ApiError::NoResponse(message) => ApiErrorView::NoResponse(message@),
            ApiError::Response(code) => ApiErrorView::Response(*code),
        }
    }
}

impl ApiErrorView {
    /// The error that ends the run: too many requests are told from all other
    /// failures.
    pub open spec fn app_error(self) -> AppErr {
        match self {
            ApiErrorView::NoResponse(_) => AppErr::ApiError,
            ApiErrorView::Response(code) => if code == STATUS_TOO_MANY_REQUESTS {
                AppErr::RateLimited
            } else {
                AppErr::ApiError
            },
        }
    }
}

impl ApiError {
    /// The error for a request that failed in transport: with the status, if
    /// one came with the failure, else with the failure's text.
    pub fn from_failure(status: Option<u16>, message: String) -> (error: ApiError)
        ensures
            error@ == match status {
                Some(code) => ApiErrorView::Response(code),
                None => ApiErrorView::NoResponse(message@),
            },
    {
        match status {
            Some(code) => ApiError::Response(code),
            None => ApiError::NoResponse(message),
        }
    }

    /// Whether an answer with this status is read as a result: only one with
    /// status 200 is, any other is an error that holds the status.
    pub fn check_status(status: u16) -> (outcome: Result<(), ApiError>)
        ensures
            status == STATUS_OK ==> outcome is Ok,
            status != STATUS_OK ==> outcome == Err::<(), ApiError>(ApiError::Response(status)),
    {
        if status == STATUS_OK {
            Ok(())
        } else {
            Err(ApiError::Response(status))
        }
    }
}

impl From<ApiError> for AppErr {
    fn from(err: ApiError) -> (error: AppErr) {
        match err {
            ApiError::NoResponse(_) => AppErr::ApiError,
            ApiError::Response(code) => if code == STATUS_TOO_MANY_REQUESTS {
                AppErr::RateLimited
            } else {
                AppErr::ApiError
            },
        }
    }
}

impl vstd::std_specs::convert::FromSpecImpl<ApiError> for AppErr {
    open spec fn obeys_from_spec() -> bool {
        true
    }

    open spec fn from_spec(err: ApiError) -> AppErr {
        err@.app_error()
    }
}

} // verus!

//! Why a run ends early.

use vstd::prelude::*;

verus! {

/// An error that ends the run.
#[derive(Debug)]
pub enum AppErr {
    /// No API token was given.
    MissingToken,
    /// The username could not be written to its cache file.
    TokenWriteError,
    /// No target was given, and none could be found.
    NoTarget,
    /// The text that was found is no target.
    InvalidTarget(String),
    /// The API did not answer, or answered with an error.
    ApiError,
    /// No record arrived in time.
    Timeout,
    /// The channel to the display was closed.
    ChannelError,
    /// The API answered that too many requests were made.
    RateLimited,
}

/// An error as plain values.
pub enum AppErrView {
    MissingToken,
    TokenWriteError,
    NoTarget,
    InvalidTarget(Seq<char>),
    ApiError,
    Timeout,
    ChannelError,
    RateLimited,
}

impl View for AppErr {
    type V = AppErrView;

    open spec fn view(&self) -> AppErrView {
        match self {
            AppErr::MissingToken => AppErrView::MissingToken,
            AppErr::TokenWriteError => AppErrView::TokenWriteError,
            AppErr::NoTarget => AppErrView::NoTarget,
            AppErr::InvalidTarget(text) => AppErrView::InvalidTarget(text@),
            AppErr::ApiError => AppErrView::ApiError,
            AppErr::Timeout => AppErrView::Timeout,
            AppErr::ChannelError => AppErrView::ChannelError,
            AppErr::RateLimited => AppErrView::RateLimited,
        }
    }
}

} // verus!

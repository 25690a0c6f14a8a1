//! Error types: the connector's plain string error, the row extractor's
//! failures, and the per-account fetch failures.

use vstd::prelude::*;

verus! {

/// A plain message-carrying error, used for configuration faults.
#[derive(Debug)]
pub struct IopacError(pub String);

impl IopacError {
    pub fn new(message: &str) -> (r: Self)
        ensures
            r.0@ == message@,
    {
        IopacError(message.to_owned())
    }

    /// The error's message text.
    pub fn message(&self) -> (r: &str)
        ensures
            r@ == self.0@,
    {
        self.0.as_str()
    }
}

/// Why one table row could not be turned into a loan record.
#[derive(Debug, Clone, PartialEq, Eq)]
pub enum RowError {
    /// The named required column is absent from the row.
    MissingColumn(String),
    /// The return-date cell holds no `DD.MM.YYYY`-shaped substring that
    /// spells a valid calendar date.
    UnparsableDate,
}

/// The spec-level face of `RowError`.
pub enum RowErrorView {
    MissingColumn(Seq<char>),
    UnparsableDate,
}

impl View for RowError {
    type V = RowErrorView;

    open spec fn view(&self) -> RowErrorView {
        match self {
            RowError::MissingColumn(name) => RowErrorView::MissingColumn(name@),
            RowError::UnparsableDate => RowErrorView::UnparsableDate,
        }
    }
}

impl DeepView for RowError {
    type V = RowErrorView;

    open spec fn deep_view(&self) -> RowErrorView {
        self.view()
    }
}

/// Why one account's fetch contributed nothing this cycle.
#[derive(Debug, Clone, PartialEq, Eq)]
pub enum FetchError {
    /// The request did not complete (connection failure or timeout).
    Network,
    /// The page carries the login-failure marker; holds the customer id.
    AuthFailed(String),
    /// A row of the loan table could not be parsed.
    ParseError(RowError),
}

/// The spec-level face of `FetchError`.
pub enum FetchErrorView {
    Network,
    AuthFailed(Seq<char>),
    ParseError(RowErrorView),
}

impl View for FetchError {
    type V = FetchErrorView;

    open spec fn view(&self) -> FetchErrorView {
        match self {
            FetchError::Network => FetchErrorView::Network,
            FetchError::AuthFailed(id) => FetchErrorView::AuthFailed(id@),
            FetchError::ParseError(e) => FetchErrorView::ParseError(e@),
        }
    }
}

impl DeepView for FetchError {
    type V = FetchErrorView;

    open spec fn deep_view(&self) -> FetchErrorView {
        self.view()
    }
}

} // verus!

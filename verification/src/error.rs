//! The error type shared by every fallible operation of the library.

use vstd::prelude::*;
use vstd::string::*;

verus! {

/// What went wrong, by the layer that reported it. Each variant carries the
/// message of its cause.
#[derive(Clone, Debug, PartialEq, Eq)]
pub enum AppError {
    /// The catalog store refused a statement or a commit.
    DatabaseError(String),
    /// The structured-data block is not valid JSON.
    JsonError(String),
    /// A selector could not be compiled.
    SelectorError(String),
    /// The page could not be fetched.
    ReqwestError(String),
    /// The page lacks something that scraping cannot do without.
    ScrapeError(String),
    /// An image could not be decoded or encoded.
    ImageError(String),
    /// A file could not be read or written.
    IoError(String),
    /// Any other failure, described in words.
    StringError(String),
}

/// The mathematical content of an `AppError`.
pub enum AppErrorView {
    DatabaseError(Seq<char>),
    JsonError(Seq<char>),
    SelectorError(Seq<char>),
    ReqwestError(Seq<char>),
    ScrapeError(Seq<char>),
    ImageError(Seq<char>),
    IoError(Seq<char>),
    StringError(Seq<char>),
}

impl View for AppError {
    type V = AppErrorView;

    open spec fn view(&self) -> AppErrorView {
        match self {
            AppError::DatabaseError(cause) => AppErrorView::DatabaseError(cause@),
            AppError::JsonError(cause) => AppErrorView::JsonError(cause@),
            AppError::SelectorError(cause) => AppErrorView::SelectorError(cause@),
            AppError::ReqwestError(cause) => AppErrorView::ReqwestError(cause@),
            AppError::ScrapeError(cause) => AppErrorView::ScrapeError(cause@),
            AppError::ImageError(cause) => AppErrorView::ImageError(cause@),
            AppError::IoError(cause) => AppErrorView::IoError(cause@),
            AppError::StringError(cause) => AppErrorView::StringError(cause@),
        }
    }
}

impl AppErrorView {
    /// The words that precede the cause when the error is shown.
    pub open spec fn prefix(self) -> Seq<char> {
        match self {
            AppErrorView::DatabaseError(_) => "Database error: "@,
            AppErrorView::JsonError(_) => "JSON error: "@,
            AppErrorView::SelectorError(_) => "Selector error: "@,
            AppErrorView::ReqwestError(_) => "Reqwest error: "@,
            AppErrorView::ScrapeError(_) => "Scrape error: "@,
            AppErrorView::ImageError(_) => "Image error: "@,
            AppErrorView::IoError(_) => "IO error: "@,
            AppErrorView::StringError(_) => "IO error: "@,
        }
    }

    /// The message of the cause.
    pub open spec fn cause(self) -> Seq<char> {
        match self {
            AppErrorView::DatabaseError(cause) => cause,
            AppErrorView::JsonError(cause) => cause,
            AppErrorView::SelectorError(cause) => cause,
            AppErrorView::ReqwestError(cause) => cause,
            AppErrorView::ScrapeError(cause) => cause,
            AppErrorView::ImageError(cause) => cause,
            AppErrorView::IoError(cause) => cause,
            AppErrorView::StringError(cause) => cause,
        }
    }
}

impl AppError {
    /// A scraping failure with the given message.
    pub fn new(msg: &str) -> (error: Self)
        ensures
            error@ == AppErrorView::ScrapeError(msg@),
    {
        AppError::ScrapeError(msg.to_owned())
    }

    /// The error as one line of text: the layer, then the cause.
    pub fn message(&self) -> (line: String)
        ensures
            line@ == self@.prefix() + self@.cause(),
    {
        match self {
            AppError::DatabaseError(cause) => "Database error: ".to_owned().concat(cause.as_str()),
            AppError::JsonError(cause) => "JSON error: ".to_owned().concat(cause.as_str()),
            AppError::SelectorError(cause) => "Selector error: ".to_owned().concat(cause.as_str()),
            AppError::ReqwestError(cause) => "Reqwest error: ".to_owned().concat(cause.as_str()),
            AppError::ScrapeError(cause) => "Scrape error: ".to_owned().concat(cause.as_str()),
            AppError::ImageError(cause) => "Image error: ".to_owned().concat(cause.as_str()),
            AppError::IoError(cause) => "IO error: ".to_owned().concat(cause.as_str()),
            AppError::StringError(cause) => "IO error: ".to_owned().concat(cause.as_str()),
        }
    }
}

impl From<String> for AppError {
    fn from(value: String) -> (error: Self) {
        AppError::StringError(value)
    }
}

impl vstd::std_specs::convert::FromSpecImpl<String> for AppError {
    open spec fn obeys_from_spec() -> bool {
        true
    }

    open spec fn from_spec(value: String) -> Self {
        AppError::StringError(value)
    }
}

} // verus!

//! The errors that extraction reports.

use crate::text::{to_chars, to_text};
use vstd::prelude::*;

verus! {

/// Why an extraction or a chart address could not be produced.
#[derive(Debug)]
pub enum Error {
    /// The base address of a publication is no valid URL; the field is that
    /// address.
    EAIPInvalidBaseURL(String),
    /// A chart address could not be joined to the base address; the field is
    /// the chart address.
    ChartURLMalformed(String),
    /// A structure that the page must have is absent; the field says which.
    CannotScrapeData(&'static str),
    /// A navaid row names a kind that is none of the known ones; the field is
    /// the label found.
    UnknownNavAidKind(String),
    /// A field's text matches no accepted form; the fields name the field and
    /// give the text.
    ParseError(&'static str, String),
}

/// What an [`Error`] holds, as plain values.
pub enum ErrorView {
    EAIPInvalidBaseURL(Seq<char>),
    ChartURLMalformed(Seq<char>),
    CannotScrapeData(Seq<char>),
    UnknownNavAidKind(Seq<char>),
    ParseError(Seq<char>, Seq<char>),
}

impl View for Error {
    type V = ErrorView;

    open spec fn view(&self) -> ErrorView {
        match *self {
            Error::EAIPInvalidBaseURL(base) => ErrorView::EAIPInvalidBaseURL(base@),
            Error::ChartURLMalformed(url) => ErrorView::ChartURLMalformed(url@),
            Error::CannotScrapeData(reason) => ErrorView::CannotScrapeData(reason@),
            Error::UnknownNavAidKind(label) => ErrorView::UnknownNavAidKind(label@),
            Error::ParseError(what, raw) => ErrorView::ParseError(what@, raw@),
        }
    }
}

/// A result whose error is [`Error`].
pub type Result<T> = std::result::Result<T, Error>;

/// Whether `e` is the error of the field `what` on the text `raw`.
pub open spec fn is_parse_error(e: Error, what: Seq<char>, raw: Seq<char>) -> bool {
    e@ == ErrorView::ParseError(what, raw)
}

impl Error {
    /// The sentence that describes the error.
    pub open spec fn message_spec(self) -> Seq<char> {
        match self {
            Error::EAIPInvalidBaseURL(base) => "There was an error parsing the AIP base URL: "@
                + base@,
            Error::ChartURLMalformed(url) => "There was an error converting the chart URL: "@
                + url@,
            Error::CannotScrapeData(reason) => "The data cannot be scraped because "@ + reason@,
            Error::UnknownNavAidKind(label) => "Unknown NavAidKind: "@ + label@,
            Error::ParseError(what, raw) => "The "@ + what@ + " cannot be parsed ("@ + raw@
                + ")."@,
        }
    }

    /// The sentence that describes the error.
    pub fn message(&self) -> (out: String)
        ensures
            out@ == self.message_spec(),
    {
        let mut text: Vec<char>;
        match self {
            Error::EAIPInvalidBaseURL(base) => {
                text = to_chars("There was an error parsing the AIP base URL: ");
                let mut more = to_chars(base.as_str());
                text.append(&mut more);
            },
            Error::ChartURLMalformed(url) => {
                text = to_chars("There was an error converting the chart URL: ");
                let mut more = to_chars(url.as_str());
                text.append(&mut more);
            },
            Error::CannotScrapeData(reason) => {
                text = to_chars("The data cannot be scraped because ");
                let mut more = to_chars(reason);
                text.append(&mut more);
            },
            Error::UnknownNavAidKind(label) => {
                text = to_chars("Unknown NavAidKind: ");
                let mut more = to_chars(label.as_str());
                text.append(&mut more);
            },
            Error::ParseError(what, raw) => {
                text = to_chars("The ");
                let mut a = to_chars(what);
                text.append(&mut a);
                let mut b = to_chars(" cannot be parsed (");
                text.append(&mut b);
                let mut c = to_chars(raw.as_str());
                text.append(&mut c);
                let mut d = to_chars(").");
                text.append(&mut d);
            },
        }
        to_text(&text)
    }
}

} // verus!

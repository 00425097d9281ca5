//! The failures that the engine reports to its caller.

use vstd::prelude::*;
use vstd::string::*;

verus! {

/// Why a call could not produce a result.
#[derive(Debug, PartialEq, Eq)]
pub enum Error {
    /// A configuration value is outside what the engine accepts: an unknown
    /// rollup level or a fix record that fails validation.
    GeofenceInvalidValue(String),
    /// A label does not have seven fields. Holds the number of fields found, in
    /// decimal, and the label.
    InvalidLabel(String, String),
    /// A taxonomy level name is not one of the six known names. Holds the name.
    InvalidTaxonomyLevel(String),
    /// The classifier handed over no candidate.
    EmptyClassifications,
    /// A text could not be read as what it was taken for. Holds what the
    /// reader said of it.
    DeserializeError(String),
}

/// The mathematical content of an `Error`.
pub enum ErrorView {
    GeofenceInvalidValue(Seq<char>),
    InvalidLabel(Seq<char>, Seq<char>),
    InvalidTaxonomyLevel(Seq<char>),
    EmptyClassifications,
    DeserializeError(Seq<char>),
}

impl View for Error {
    type V = ErrorView;

    open spec fn view(&self) -> ErrorView {
        match self {
            Error::GeofenceInvalidValue(m) => ErrorView::GeofenceInvalidValue(m@),
            Error::InvalidLabel(n, l) => ErrorView::InvalidLabel(n@, l@),
            Error::InvalidTaxonomyLevel(l) => ErrorView::InvalidTaxonomyLevel(l@),
            Error::EmptyClassifications => ErrorView::EmptyClassifications,
            Error::DeserializeError(m) => ErrorView::DeserializeError(m@),
        }
    }
}

impl DeepView for Error {
    type V = ErrorView;

    open spec fn deep_view(&self) -> ErrorView {
        self@
    }
}

/// The mathematical content of what a fallible call returned.
pub open spec fn outcome<T: DeepView>(r: Result<T, Error>) -> Result<T::V, ErrorView> {
    match r {
        Ok(value) => Ok(value.deep_view()),
        Err(e) => Err(e@),
    }
}

impl ErrorView {
    /// The sentence that describes the failure.
    pub open spec fn message(self) -> Seq<char> {
        match self {
            ErrorView::GeofenceInvalidValue(m) => m,
            ErrorView::InvalidLabel(n, l) => "Expected label made of 7 parts, but found only "@
                + n + ": "@ + l + "."@,
            ErrorView::InvalidTaxonomyLevel(l) =>
                "Expected these taxonomy levels: `species`, `genus`, `family`, `order`, `class`, `kingdom`, but found: "@
                + l + "."@,
            ErrorView::EmptyClassifications => "`classifications` cannot be empty"@,
            ErrorView::DeserializeError(m) => "Deserialize error: "@ + m,
        }
    }
}

impl Error {
    /// The sentence that describes the failure.
    pub fn message(&self) -> (r: String)
        ensures
            r@ == self@.message(),
    {
        match self {
            Error::GeofenceInvalidValue(m) => m.clone(),
            Error::InvalidLabel(n, l) => {
                let mut r = "Expected label made of 7 parts, but found only ".to_owned();
                r.append(n.as_str());
                r.append(": ");
                r.append(l.as_str());
                r.append(".");
                r
            },
            Error::InvalidTaxonomyLevel(l) => {
                let mut r =
                    "Expected these taxonomy levels: `species`, `genus`, `family`, `order`, `class`, `kingdom`, but found: ".to_owned();
                r.append(l.as_str());
                r.append(".");
                r
            },
            Error::EmptyClassifications => "`classifications` cannot be empty".to_owned(),
            Error::DeserializeError(m) => {
                let mut r = "Deserialize error: ".to_owned();
                r.append(m.as_str());
                r
            },
        }
    }
}

} // verus!

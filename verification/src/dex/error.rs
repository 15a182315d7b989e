//! Errors of the DEX parser and of the analyses built on it.

use vstd::prelude::*;
use crate::text::concat2;

verus! {

/// What went wrong, with a message that says where.
#[derive(Debug)]
pub enum DexError {
    /// A pool index, an offset or an encoded value in the image is wrong.
    ParseError(String),
    /// The image is not a DEX file: too short, or its header is wrong.
    InvalidDex(String),
    ClassNotFound(String),
    MethodNotFound(String),
    FieldNotFound(String),
    InvalidFilter(String),
    DexFileError(String),
    /// A read reached past the end of the image.
    IoError(String),
}

/// The mathematical value of a [`DexError`].
pub ghost enum DexErrorView {
    ParseError(Seq<char>),
    InvalidDex(Seq<char>),
    ClassNotFound(Seq<char>),
    MethodNotFound(Seq<char>),
    FieldNotFound(Seq<char>),
    InvalidFilter(Seq<char>),
    DexFileError(Seq<char>),
    IoError(Seq<char>),
}

impl View for DexError {
    type V = DexErrorView;

    open spec fn view(&self) -> DexErrorView {
        match *self {
            DexError::ParseError(m) => DexErrorView::ParseError(m@),
            DexError::InvalidDex(m) => DexErrorView::InvalidDex(m@),
            DexError::ClassNotFound(m) => DexErrorView::ClassNotFound(m@),
            DexError::MethodNotFound(m) => DexErrorView::MethodNotFound(m@),
            DexError::FieldNotFound(m) => DexErrorView::FieldNotFound(m@),
            DexError::InvalidFilter(m) => DexErrorView::InvalidFilter(m@),
            DexError::DexFileError(m) => DexErrorView::DexFileError(m@),
            DexError::IoError(m) => DexErrorView::IoError(m@),
        }
    }
}

impl DexErrorView {
    /// The text shown for the error: what kind it is, then its message.
    pub open spec fn text(self) -> Seq<char> {
        match self {
            DexErrorView::ParseError(m) => "Failed to parse DEX file: "@ + m,
            DexErrorView::InvalidDex(m) => "Invalid DEX file: "@ + m,
            DexErrorView::ClassNotFound(m) => "Class not found: "@ + m,
            DexErrorView::MethodNotFound(m) => "Method not found: "@ + m,
            DexErrorView::FieldNotFound(m) => "Field not found: "@ + m,
            DexErrorView::InvalidFilter(m) => "Invalid filter: "@ + m,
            DexErrorView::DexFileError(m) => "DEX file error: "@ + m,
            DexErrorView::IoError(m) => "IO error: "@ + m,
        }
    }
}

impl DexError {
    /// The text shown for the error: what kind it is, then its message.
    pub fn message(&self) -> (out: String)
        ensures
            out@ == self@.text(),
    {
        match self {
            DexError::ParseError(m) => concat2("Failed to parse DEX file: ", m.as_str()),
            DexError::InvalidDex(m) => concat2("Invalid DEX file: ", m.as_str()),
            DexError::ClassNotFound(m) => concat2("Class not found: ", m.as_str()),
            DexError::MethodNotFound(m) => concat2("Method not found: ", m.as_str()),
            DexError::FieldNotFound(m) => concat2("Field not found: ", m.as_str()),
            DexError::InvalidFilter(m) => concat2("Invalid filter: ", m.as_str()),
            DexError::DexFileError(m) => concat2("DEX file error: ", m.as_str()),
            DexError::IoError(m) => concat2("IO error: ", m.as_str()),
        }
    }
}

} // verus!

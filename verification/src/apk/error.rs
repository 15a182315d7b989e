//! Errors of reading an APK.

use vstd::prelude::*;
use crate::text::{concat2, owned};

verus! {

/// What went wrong while an APK was read.
#[derive(Debug)]
pub enum ApkError {
    FileOpenError(String),
    ZipReadError(String),
    InvalidApk(String),
    DexNotFound(String),
    ManifestNotFound,
    /// A failed read, with the text of the I/O error.
    IoError(String),
    /// A fault of the archive, with the text of the archive error.
    ZipError(String),
}

/// The mathematical value of an [`ApkError`].
pub ghost enum ApkErrorView {
    FileOpenError(Seq<char>),
    ZipReadError(Seq<char>),
    InvalidApk(Seq<char>),
    DexNotFound(Seq<char>),
    ManifestNotFound,
    IoError(Seq<char>),
    ZipError(Seq<char>),
}

impl View for ApkError {
    type V = ApkErrorView;

    open spec fn view(&self) -> ApkErrorView {
        match *self {
            ApkError::FileOpenError(m) => ApkErrorView::FileOpenError(m@),
            ApkError::ZipReadError(m) => ApkErrorView::ZipReadError(m@),
            ApkError::InvalidApk(m) => ApkErrorView::InvalidApk(m@),
            ApkError::DexNotFound(m) => ApkErrorView::DexNotFound(m@),
            ApkError::ManifestNotFound => ApkErrorView::ManifestNotFound,
            ApkError::IoError(m) => ApkErrorView::IoError(m@),
            ApkError::ZipError(m) => ApkErrorView::ZipError(m@),
        }
    }
}

impl ApkErrorView {
    /// The text shown for the error: what kind it is, then its message.
    pub open spec fn text(self) -> Seq<char> {
        match self {
            ApkErrorView::FileOpenError(m) => "Failed to open APK file: "@ + m,
            ApkErrorView::ZipReadError(m) => "Failed to read ZIP entry: "@ + m,
            ApkErrorView::InvalidApk(m) => "Invalid APK: "@ + m,
            ApkErrorView::DexNotFound(m) => "DEX file not found: "@ + m,
            ApkErrorView::ManifestNotFound => "Manifest not found"@,
            ApkErrorView::IoError(m) => "IO error: "@ + m,
            ApkErrorView::ZipError(m) => "ZIP error: "@ + m,
        }
    }
}

impl ApkError {
    /// The text shown for the error: what kind it is, then its message.
    pub fn message(&self) -> (out: String)
        ensures
            out@ == self@.text(),
    {
        match self {
            ApkError::FileOpenError(m) => concat2("Failed to open APK file: ", m.as_str()),
            ApkError::ZipReadError(m) => concat2("Failed to read ZIP entry: ", m.as_str()),
            ApkError::InvalidApk(m) => concat2("Invalid APK: ", m.as_str()),
            ApkError::DexNotFound(m) => concat2("DEX file not found: ", m.as_str()),
            ApkError::ManifestNotFound => owned("Manifest not found"),
            ApkError::IoError(m) => concat2("IO error: ", m.as_str()),
            ApkError::ZipError(m) => concat2("ZIP error: ", m.as_str()),
        }
    }
}

} // verus!

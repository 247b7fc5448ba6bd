//! What can go wrong while crawling, and how it is reported.

use vstd::prelude::*;
use crate::model::CrawlerErrorReport;
use crate::comment::CommentParseError;

verus! {

/// A part of a listing page the parser looks for.
#[derive(Debug, PartialEq, Eq, Structural, Clone, Copy)]
pub enum ListingField {
    /// `.us-post .gall_num`
    Number,
    /// `.us-post .gall_tit a`
    Title,
    /// `.us-post .gall_writer`
    Writer,
    /// `.us-post .gall_writer@data-nick`
    Nickname,
    /// `.us-post .gall_recommend`
    Recommend,
    /// `.us-post .gall_count`
    Count,
    /// `.us-post .gall_date`
    Date,
    /// `.us-post .gall_date@title`
    DateTitle,
    /// `#e_s_n_o@value`
    Token,
    /// `.write_div`
    Body,
}

/// Why a listing page, or one of its rows, could not be read.
#[derive(Debug, PartialEq, Eq, Structural, Clone, Copy)]
pub enum DocumentParseError {
    Select(ListingField),
    NumberParse(ListingField),
    DatetimeParse(ListingField),
    JsonParse,
    AdultPage,
    MinorGalleryClosed,
    MinorGalleryPromoted,
    MinorGalleryAccessNotAllowed,
}

/// Why a post body could not be read.
#[derive(Debug, PartialEq, Eq, Structural, Clone, Copy)]
pub enum DocumentBodyParseError {
    Select(ListingField),
    DocumentParseError(DocumentParseError),
}

/// Why crawling a gallery, or one of its posts, failed.
#[derive(Debug, PartialEq, Eq, Structural, Clone, Copy)]
pub enum CrawlerError {
    /// The request could not be sent, or its answer not received or decoded.
    Transport,
    /// The site answered 404.
    PageNotFound,
    /// Mini galleries are not crawled.
    UnsupportedGalleryKind,
    DocumentParseError(DocumentParseError),
    CommentParseError(CommentParseError),
    DocumentBodyParseError(DocumentBodyParseError),
}

/// The report a crawl error becomes: the terminal page states and 404 keep
/// their names, everything else is `Unknown`.
pub open spec fn report_of(e: CrawlerError) -> CrawlerErrorReport {
    match e {
        CrawlerError::DocumentParseError(DocumentParseError::MinorGalleryPromoted) => CrawlerErrorReport::MinorGalleryPromoted,
        CrawlerError::DocumentParseError(DocumentParseError::AdultPage) => CrawlerErrorReport::AdultPage,
        CrawlerError::DocumentParseError(DocumentParseError::MinorGalleryClosed) => CrawlerErrorReport::MinorGalleryClosed,
        CrawlerError::DocumentParseError(DocumentParseError::MinorGalleryAccessNotAllowed) => CrawlerErrorReport::MinorGalleryAccessNotAllowed,
        CrawlerError::PageNotFound => CrawlerErrorReport::PageNotFound,
        _ => CrawlerErrorReport::Unknown,
    }
}

/// Terminal errors end a retry loop at once.
pub open spec fn terminal(e: CrawlerError) -> bool {
    report_of(e) != CrawlerErrorReport::Unknown
}

impl CrawlerErrorReport {
    /// The report a crawl error becomes.
    pub fn from_error(err: &CrawlerError) -> (r: CrawlerErrorReport)
        ensures
            r == report_of(*err),
    {
        match err {
            CrawlerError::DocumentParseError(DocumentParseError::MinorGalleryPromoted) => CrawlerErrorReport::MinorGalleryPromoted,
            CrawlerError::DocumentParseError(DocumentParseError::AdultPage) => CrawlerErrorReport::AdultPage,
            CrawlerError::DocumentParseError(DocumentParseError::MinorGalleryClosed) => CrawlerErrorReport::MinorGalleryClosed,
            CrawlerError::DocumentParseError(DocumentParseError::MinorGalleryAccessNotAllowed) => CrawlerErrorReport::MinorGalleryAccessNotAllowed,
            CrawlerError::PageNotFound => CrawlerErrorReport::PageNotFound,
            _ => CrawlerErrorReport::Unknown,
        }
    }
}

impl CrawlerError {
    /// Whether retrying cannot help.
    pub fn is_terminal(&self) -> (r: bool)
        ensures
            r == terminal(*self),
    {
        match CrawlerErrorReport::from_error(self) {
            CrawlerErrorReport::Unknown => false,
            _ => true,
        }
    }
}

} // verus!

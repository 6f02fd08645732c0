//! Decoding pipeline for a job-listing syndication feed.
//!
//! A feed envelope is parsed into raw entries; each entry's description
//! markup encodes labeled fields as bold elements followed by text, which
//! are extracted into a mapping; the publish date is normalized to epoch
//! seconds; and everything is combined into one domain record per entry.
//! Decoding is all-or-nothing: the first failure aborts the whole call.

use vstd::prelude::*;

pub mod detail;
pub mod feed;
pub mod field_map;
pub mod project;
pub mod text;

pub use detail::get_detail;
pub use detail::mapped_detail;
pub use feed::parse_date;
pub use feed::parse_xml;
pub use project::populate_data;
pub use project::project_post;

use crate::field_map::FieldMap;

verus! {

/// Every way a decode call can fail. The first error encountered aborts the
/// whole call; no partial result is ever returned.
#[derive(Debug, Clone, PartialEq, Eq)]
pub enum DecodeError {
    /// The input bytes are not a well-formed feed envelope.
    FeedParse,
    /// A publish-date string does not match the expected pattern.
    DateParse(String),
    /// A bold label element has no following sibling node; holds the label.
    MissingValue(String),
    /// The sibling following a bold label is not a text node; holds the label.
    NonTextValue(String),
    /// The extracted mapping has no usable `Category` entry.
    MissingCategory,
}

/// Mathematical model of a `DecodeError`.
pub ghost enum DecodeErrorV {
    FeedParse,
    DateParse(Seq<char>),
    MissingValue(Seq<char>),
    NonTextValue(Seq<char>),
    MissingCategory,
}

impl View for DecodeError {
    type V = DecodeErrorV;

    open spec fn view(&self) -> DecodeErrorV {
        match self {
            DecodeError::FeedParse => DecodeErrorV::FeedParse,
            DecodeError::DateParse(s) => DecodeErrorV::DateParse(s@),
            DecodeError::MissingValue(s) => DecodeErrorV::MissingValue(s@),
            DecodeError::NonTextValue(s) => DecodeErrorV::NonTextValue(s@),
            DecodeError::MissingCategory => DecodeErrorV::MissingCategory,
        }
    }
}

/// One decoded job posting.
#[derive(Debug, PartialEq)]
pub struct JobPost {
    pub title: String,
    /// The entry's link with any query-string suffix removed.
    pub link: String,
    /// Lowercased, underscore-joined form of the extracted category.
    pub category: String,
    /// The full label-to-value mapping extracted from the description.
    pub detail: FieldMap,
    /// The publish-date string exactly as the feed gave it.
    pub posted_on: String,
    /// The publish date as epoch seconds.
    pub posted_timestamp: i64,
}

/// Mathematical model of a `JobPost`.
pub ghost struct JobPostV {
    pub title: Seq<char>,
    pub link: Seq<char>,
    pub category: Seq<char>,
    pub detail: Map<Seq<char>, Seq<char>>,
    pub posted_on: Seq<char>,
    pub posted_timestamp: int,
}

impl View for JobPost {
    type V = JobPostV;

    open spec fn view(&self) -> JobPostV {
        JobPostV {
            title: self.title@,
            link: self.link@,
            category: self.category@,
            detail: self.detail@,
            posted_on: self.posted_on@,
            posted_timestamp: self.posted_timestamp as int,
        }
    }
}

impl JobPost {
    /// The mapping behind a well-formed post never holds a key twice.
    pub open spec fn wf(&self) -> bool {
        self.detail.wf()
    }
}

/// The consumer-facing reshaping of a `JobPost`: a trimmed-down record with
/// a human-readable price summary.
#[derive(Debug, PartialEq)]
pub struct FinalPost {
    pub title: String,
    pub link: String,
    pub detail: String,
    pub price: String,
}

/// Mathematical model of a `FinalPost`.
pub ghost struct FinalPostV {
    pub title: Seq<char>,
    pub link: Seq<char>,
    pub detail: Seq<char>,
    pub price: Seq<char>,
}

impl View for FinalPost {
    type V = FinalPostV;

    open spec fn view(&self) -> FinalPostV {
        FinalPostV { title: self.title@, link: self.link@, detail: self.detail@, price: self.price@ }
    }
}

} // verus!

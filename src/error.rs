use vstd::prelude::*;

verus! {

/// Every way in which reading a feed, linking its stores or decoding one of
/// its rules can fail.
#[derive(Debug, PartialEq, Eq)]
pub enum GreenButtonError {
    /// The text is not a well-formed XML document.
    MalformedXml,
    /// The document has no `feed` element at its top.
    MissingFeed,
    /// A row was committed without a value for a field that has no default.
    MissingField { field: &'static str, table: &'static str },
    /// One entry's content holds two different categories.
    MixedContent,
    /// An entry's content holds an element of no known category.
    UnknownContentTag(String),
    /// A reading or a local-time block holds an element that it cannot hold.
    UnmatchedTag(String),
    /// An element that must carry text carries none.
    MissingText(&'static str),
    /// An entry has no `content` element.
    MissingContent,
    /// A time period has no `start` element.
    MissingStartTime,
    /// A time period has no `duration` element.
    MissingDuration,
    /// The text of a numeric element is not a number of the field's type.
    InvalidNumber(String),
    /// The text of a timestamp element is not an RFC 3339 date and time.
    InvalidTimestamp(String),
    /// A packed daylight-saving rule has a field out of its range.
    InvalidDstRule,
    /// The feed holds more than one local-time-parameters block.
    MultipleLocalTimeParameters,
    /// The feed holds no local-time-parameters block.
    MissingLocalTimeParameters,
    /// A related href names no entry of the feed.
    UnresolvedHref(String),
    /// A meter reading's reading-type link leads to an entry that is not a reading type.
    MismatchedReadingType(crate::entry::EntryType),
    /// An interval reading belongs to an entry with no reading type.
    MissingReadingType,
}

/// The plain values of a `GreenButtonError`, strings as their text.
pub ghost enum GreenButtonErrorView {
    MalformedXml,
    MissingFeed,
    MissingField { field: &'static str, table: &'static str },
    MixedContent,
    UnknownContentTag(Seq<char>),
    UnmatchedTag(Seq<char>),
    MissingText(&'static str),
    MissingContent,
    MissingStartTime,
    MissingDuration,
    InvalidNumber(Seq<char>),
    InvalidTimestamp(Seq<char>),
    InvalidDstRule,
    MultipleLocalTimeParameters,
    MissingLocalTimeParameters,
    UnresolvedHref(Seq<char>),
    MismatchedReadingType(crate::entry::EntryType),
    MissingReadingType,
}

impl View for GreenButtonError {
    type V = GreenButtonErrorView;

    open spec fn view(&self) -> GreenButtonErrorView {
        match self {
            GreenButtonError::MalformedXml => GreenButtonErrorView::MalformedXml,
            GreenButtonError::MissingFeed => GreenButtonErrorView::MissingFeed,
            GreenButtonError::MissingField { field, table } => GreenButtonErrorView::MissingField {
                field: *field,
                table: *table,
            },
            GreenButtonError::MixedContent => GreenButtonErrorView::MixedContent,
            GreenButtonError::UnknownContentTag(s) => GreenButtonErrorView::UnknownContentTag(s@),
            GreenButtonError::UnmatchedTag(s) => GreenButtonErrorView::UnmatchedTag(s@),
            GreenButtonError::MissingText(s) => GreenButtonErrorView::MissingText(*s),
            GreenButtonError::MissingContent => GreenButtonErrorView::MissingContent,
            GreenButtonError::MissingStartTime => GreenButtonErrorView::MissingStartTime,
            GreenButtonError::MissingDuration => GreenButtonErrorView::MissingDuration,
            GreenButtonError::InvalidNumber(s) => GreenButtonErrorView::InvalidNumber(s@),
            GreenButtonError::InvalidTimestamp(s) => GreenButtonErrorView::InvalidTimestamp(s@),
            GreenButtonError::InvalidDstRule => GreenButtonErrorView::InvalidDstRule,
            GreenButtonError::MultipleLocalTimeParameters => GreenButtonErrorView::MultipleLocalTimeParameters,
            GreenButtonError::MissingLocalTimeParameters => GreenButtonErrorView::MissingLocalTimeParameters,
            GreenButtonError::UnresolvedHref(s) => GreenButtonErrorView::UnresolvedHref(s@),
            GreenButtonError::MismatchedReadingType(t) => GreenButtonErrorView::MismatchedReadingType(*t),
            GreenButtonError::MissingReadingType => GreenButtonErrorView::MissingReadingType,
        }
    }
}

} // verus!

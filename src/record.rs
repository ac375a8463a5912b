use vstd::prelude::*;

verus! {

/// The kind of work a record describes.
#[derive(Clone, Copy, Debug, PartialEq, Eq, Structural)]
pub enum Category {
    Article,
    Book,
    Other,
}

/// The citation styles that the renderers know.
#[derive(Clone, Copy, Debug, PartialEq, Eq, Structural)]
pub enum Style {
    Ieee,
    Apa,
}

/// One bibliographic record: its key, its category and its fields, each
/// either absent or present as flattened text.
#[derive(Clone, Debug, PartialEq, Eq)]
pub struct Record {
    pub key: String,
    pub category: Category,
    /// The display names of the authors, in declaration order.
    pub authors: Option<Vec<String>>,
    pub title: Option<String>,
    pub year: Option<String>,
    pub journal: Option<String>,
    pub volume: Option<String>,
    pub number: Option<String>,
    pub pages: Option<String>,
    pub doi: Option<String>,
    pub publisher: Option<String>,
    pub address: Option<String>,
    pub edition: Option<String>,
}

/// The errors of the library.
#[derive(Clone, Debug, PartialEq, Eq)]
pub enum FormatError {
    /// The source text could not be parsed; the parser's message.
    ParseFailure(String),
    /// The style identifier names no known style.
    UnsupportedStyle,
    /// A record lacks its title, or the field its category requires.
    MissingRequiredField,
}

} // verus!

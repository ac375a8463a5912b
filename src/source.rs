use vstd::prelude::*;
use biblatex::{Bibliography, ChunksExt, Entry, EntryType, Field, RawBibliography, RawChunk};
use crate::record::{Category, FormatError, Record};
use crate::bibliography::{bibliography_text, format_records, style_named};
use crate::shape::{
    abbreviations_end, check_abbreviations, check_links, defs_view, entries_view, links_end,
};

verus! {

#[verifier::external_type_specification]
#[verifier::external_body]
pub struct ExEntry(Entry);

/// What biblatex's `Bibliography::parse` makes of a source: the number of
/// entries, or the text of its error.
pub uninterp spec fn parse_outcome(src: Seq<char>) -> Result<nat, Seq<char>>;

/// What biblatex's `RawBibliography::parse` finds in a source, before any
/// reference is resolved: each `@string` definition in source order, and
/// each entry's key with its fields in source order. A value is a list of
/// parts, `(true, name)` for an abbreviation and `(false, text)` for literal
/// text. `None` where the source does not parse.
pub uninterp spec fn raw_shape_of(src: Seq<char>) -> Option<
    (
        Seq<(Seq<char>, Seq<(bool, Seq<char>)>)>,
        Seq<(Seq<char>, Seq<(Seq<char>, Seq<(bool, Seq<char>)>)>)>,
    ),
>;

/// Relies on biblatex's `RawBibliography::parse`, which resolves neither
/// abbreviations nor links: the shape of the source as `raw_shape_of` names it.
#[verifier::external_body]
fn raw_shape(src: &str) -> (r: Option<
    (Vec<(String, Vec<(bool, String)>)>, Vec<(String, Vec<(String, Vec<(bool, String)>)>)>),
>)
    ensures
        raw_shape_of(src@) == match r {
            Some(p) => Some((defs_view(p.0@), entries_view(p.1@))),
            None => None,
        },
{
    let parts = |v: &Field| v.iter().map(|c| match c.v {
        RawChunk::Abbreviation(a) => (true, a.to_string()),
        RawChunk::Normal(t) => (false, t.to_string()),
    }).collect();
    RawBibliography::parse(src).ok().map(|raw| (
        raw.abbreviations.iter().map(|p| (p.key.v.to_string(), parts(&p.value.v))).collect(),
        raw.entries.iter().map(|e| (e.v.key.v.to_string(), e.v.fields.iter()
            .map(|f| (f.key.v.to_string(), parts(&f.value.v))).collect())).collect(),
    ))
}

/// Whether resolving the source's references is sure to end: it does not
/// parse at all, or no abbreviation an entry uses and no entry's links lead
/// round in a circle.
pub open spec fn source_resolvable(src: Seq<char>) -> bool {
    match raw_shape_of(src) {
        None => true,
        Some(p) => abbreviations_end(p.0, p.1) && links_end(p.1),
    }
}

/// The message of a refused source, whose references could not be resolved.
pub open spec fn refusal_message(src: Seq<char>) -> Seq<char> {
    match raw_shape_of(src) {
        Some(p) if !abbreviations_end(p.0, p.1) => "abbreviations refer to each other in a cycle"@,
        _ => "crossref or xdata links form a cycle or are not plain keys"@,
    }
}

/// Relies on biblatex's `Bibliography::parse`: the entries of the source in
/// parse order, or the parser's error message. It resolves abbreviations
/// and `crossref`/`xdata` links without guarding against cycles, hence the
/// precondition.
#[verifier::external_body]
fn parse_entries(src: &str) -> (r: Result<Vec<Entry>, String>)
    requires
        source_resolvable(src@),
    ensures
        match parse_outcome(src@) {
            Ok(n) => r matches Ok(v) && v@.len() == n,
            Err(m) => r matches Err(e) && e@ == m,
        },
{
    Bibliography::parse(src).map(|b| b.into_vec()).map_err(|e| e.to_string())
}

/// Relies on biblatex's `Entry::entry_type`: which of the three categories the
/// entry's type falls under.
#[verifier::external_body]
fn entry_category(e: &Entry) -> (r: Category) {
    match e.entry_type {
        EntryType::Article => Category::Article,
        EntryType::Book => Category::Book,
        _ => Category::Other,
    }
}

/// Relies on biblatex's `Entry::key`: the entry's citation key.
#[verifier::external_body]
fn entry_key(e: &Entry) -> (r: String) {
    e.key.clone()
}

/// Relies on biblatex's `Entry::get` and `format_verbatim`: the text of the
/// field `name`, if the entry has it.
#[verifier::external_body]
fn entry_field(e: &Entry, name: &str) -> (r: Option<String>) {
    e.get(name).map(|c| c.format_verbatim())
}

/// Relies on biblatex's `Entry::journal`: the `journal` field, or else the
/// `journaltitle` field, as text.
#[verifier::external_body]
fn entry_journal(e: &Entry) -> (r: Option<String>) {
    e.journal().ok().map(|c| c.format_verbatim())
}

/// Relies on biblatex's `Entry::address`: the `address` field, or else the
/// `location` field, as text.
#[verifier::external_body]
fn entry_address(e: &Entry) -> (r: Option<String>) {
    e.address().ok().map(|c| c.format_verbatim())
}

/// Relies on biblatex's `Entry::author`: the name of each author, where the
/// field is present and reads as a list of persons.
#[verifier::external_body]
fn entry_authors(e: &Entry) -> (r: Option<Vec<String>>) {
    e.author().ok().map(|ps| ps.into_iter().map(|p| p.name).collect())
}

/// The record that a parsed entry describes.
fn record_from_entry(e: &Entry) -> (r: Record) {
    Record {
        key: entry_key(e),
        category: entry_category(e),
        authors: entry_authors(e),
        title: entry_field(e, "title"),
        year: entry_field(e, "year"),
        journal: entry_journal(e),
        volume: entry_field(e, "volume"),
        number: entry_field(e, "number"),
        pages: entry_field(e, "pages"),
        doi: entry_field(e, "doi"),
        publisher: entry_field(e, "publisher"),
        address: entry_address(e),
        edition: entry_field(e, "edition"),
    }
}

/// Parses BibLaTeX source into records, in source order.
///
/// A source that biblatex would not finish resolving, because abbreviations
/// the entries use or `crossref`/`xdata` links go round in a circle, or a
/// link is not a plain key, is refused as a parse failure.
pub fn parse_records(src: &str) -> (r: Result<Vec<Record>, FormatError>)
    ensures
        r is Ok <==> source_resolvable(src@) && parse_outcome(src@) is Ok,
        r matches Ok(v) ==> v@.len() == parse_outcome(src@)->Ok_0,
        r matches Err(e) ==> e is ParseFailure,
        r matches Err(FormatError::ParseFailure(m)) ==> m@ == if source_resolvable(src@) {
            parse_outcome(src@)->Err_0
        } else {
            refusal_message(src@)
        },
{
    match raw_shape(src) {
        Some(shape) => {
            if !check_abbreviations(&shape.0, &shape.1) {
                return Err(
                    FormatError::ParseFailure(
                        String::from_str("abbreviations refer to each other in a cycle"),
                    ),
                );
            }
            if !check_links(&shape.1) {
                return Err(
                    FormatError::ParseFailure(
                        String::from_str(
                            "crossref or xdata links form a cycle or are not plain keys",
                        ),
                    ),
                );
            }
        },
        None => {},
    }
    let entries = match parse_entries(src) {
        Ok(v) => v,
        Err(m) => return Err(FormatError::ParseFailure(m)),
    };
    let mut records: Vec<Record> = Vec::new();
    let mut i: usize = 0;
    while i < entries.len()
        invariant
            i <= entries@.len(),
            records@.len() == i,
        decreases entries@.len() - i,
    {
        records.push(record_from_entry(&entries[i]));
        i = i + 1;
    }
    Ok(records)
}

/// Parses BibLaTeX source and renders its records in the style that `style`
/// names.
///
/// A parse failure aborts with `ParseFailure`; otherwise an unknown style
/// aborts with `UnsupportedStyle`; otherwise the result is the rendering of
/// the parsed records, those lacking a required field left out.
pub fn parse_and_format(bib_content: &str, style: &str) -> (r: Result<String, FormatError>)
    ensures
        r is Ok <==> source_resolvable(bib_content@) && parse_outcome(bib_content@) is Ok
            && style_named(style@) is Some,
        r matches Err(e) ==> e is ParseFailure || e == FormatError::UnsupportedStyle,
        r matches Err(FormatError::ParseFailure(_)) ==> !(source_resolvable(bib_content@)
            && parse_outcome(bib_content@) is Ok),
        r matches Err(FormatError::ParseFailure(m)) ==> m@ == if source_resolvable(bib_content@) {
            parse_outcome(bib_content@)->Err_0
        } else {
            refusal_message(bib_content@)
        },
        r == Err::<String, FormatError>(FormatError::UnsupportedStyle) ==> source_resolvable(
            bib_content@,
        ) && parse_outcome(bib_content@) is Ok && style_named(style@) is None,
        r matches Ok(s) ==> exists|rs: Seq<Record>|
            rs.len() == parse_outcome(bib_content@)->Ok_0 && s@ == bibliography_text(
                rs,
                style_named(style@)->Some_0,
            ),
{
    let records = parse_records(bib_content)?;
    format_records(&records, style)
}

} // verus!

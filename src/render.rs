use vstd::prelude::*;
use vstd::string::*;
use crate::record::{Category, FormatError, Record, Style};
use crate::text::texts_of;
use crate::authors::{authors_text, format_authors};

verus! {

/// A field's text, or nothing where the field is absent.
pub open spec fn field_text(field: Option<String>) -> Seq<char> {
    match field {
        Some(s) => s@,
        None => Seq::empty(),
    }
}

/// A field's text between a label and a suffix, or nothing at all where the
/// field is absent.
pub open spec fn fragment(prefix: Seq<char>, field: Option<String>, suffix: Seq<char>) -> Seq<char> {
    match field {
        Some(s) => prefix + s@ + suffix,
        None => Seq::empty(),
    }
}

/// The author position of a rendered record.
pub open spec fn author_part(r: Record, style: Style) -> Seq<char> {
    match r.authors {
        Some(v) => authors_text(texts_of(v@), style),
        None => "Unknown Author"@,
    }
}

/// The year position of a rendered record.
pub open spec fn year_part(r: Record) -> Seq<char> {
    match r.year {
        Some(y) => y@,
        None => "n.d."@,
    }
}

/// The IEEE citation of a record, or `None` where a required field is absent.
pub open spec fn ieee_text(r: Record) -> Option<Seq<char>> {
    match r.title {
        None => None,
        Some(t) => match r.category {
            Category::Article => match r.journal {
                None => None,
                Some(j) => Some(
                    author_part(r, Style::Ieee) + ". \""@ + t@ + "\", "@ + j@ + " vol."@
                        + field_text(r.volume) + fragment(", no. "@, r.number, Seq::empty())
                        + fragment(", pp. "@, r.pages, Seq::empty())
                        + fragment(", doi: "@, r.doi, Seq::empty()) + ", "@ + year_part(r)
                        + "."@,
                ),
            },
            Category::Book => match r.publisher {
                None => None,
                Some(p) => Some(
                    author_part(r, Style::Ieee) + ". \""@ + t@ + "\". "@
                        + fragment(Seq::empty(), r.edition, " ed., "@)
                        + fragment(Seq::empty(), r.address, ": "@) + p@ + ", "@ + year_part(r)
                        + "."@,
                ),
            },
            Category::Other => Some(
                author_part(r, Style::Ieee) + ". \""@ + t@ + "\". "@ + year_part(r) + "."@,
            ),
        },
    }
}

/// The APA citation of a record, or `None` where a required field is absent.
pub open spec fn apa_text(r: Record) -> Option<Seq<char>> {
    match r.title {
        None => None,
        Some(t) => match r.category {
            Category::Article => match r.journal {
                None => None,
                Some(j) => Some(
                    author_part(r, Style::Apa) + ". ("@ + year_part(r) + "). "@ + t@ + ". "@
                        + j@ + ", "@ + field_text(r.volume) + fragment("("@, r.number, ")"@)
                        + fragment(", "@, r.pages, Seq::empty())
                        + fragment(". https://doi.org/"@, r.doi, Seq::empty()),
                ),
            },
            Category::Book => match r.publisher {
                None => None,
                Some(p) => Some(
                    author_part(r, Style::Apa) + ". ("@ + year_part(r) + "). "@ + t@ + ". "@
                        + fragment(Seq::empty(), r.address, ". "@) + p@,
                ),
            },
            Category::Other => Some(
                author_part(r, Style::Apa) + ". ("@ + year_part(r) + "). "@ + t@ + "."@,
            ),
        },
    }
}

/// The citation of a record in `style`, or `None` where it cannot be rendered.
pub open spec fn entry_text(r: Record, style: Style) -> Option<Seq<char>> {
    match style {
        Style::Ieee => ieee_text(r),
        Style::Apa => apa_text(r),
    }
}

/// Appends a field's text, if the field is present.
fn push_field(out: &mut String, field: &Option<String>)
    ensures
        final(out)@ == old(out)@ + field_text(*field),
{
    match field {
        Some(s) => out.append(s.as_str()),
        None => {
            assert(old(out)@ + Seq::<char>::empty() =~= old(out)@);
        },
    }
}

/// Appends a field's text between `prefix` and `suffix`, if the field is
/// present, and nothing otherwise.
fn push_fragment(out: &mut String, prefix: &str, field: &Option<String>, suffix: &str)
    ensures
        final(out)@ == old(out)@ + fragment(prefix@, *field, suffix@),
{
    match field {
        Some(s) => {
            out.append(prefix);
            out.append(s.as_str());
            out.append(suffix);
            assert(final(out)@ =~= old(out)@ + (prefix@ + s@ + suffix@));
        },
        None => {
            assert(old(out)@ + Seq::<char>::empty() =~= old(out)@);
        },
    }
}

/// The author position: the formatted author list, or a placeholder where
/// the record names no authors.
fn format_author_part(record: &Record, style: Style) -> (r: String)
    ensures
        r@ == author_part(*record, style),
{
    match &record.authors {
        Some(v) => format_authors(v, style),
        None => String::from_str("Unknown Author"),
    }
}

/// Appends the year position: the year, or `n.d.` where it is absent.
fn push_year(out: &mut String, record: &Record)
    ensures
        final(out)@ == old(out)@ + year_part(*record),
{
    match &record.year {
        Some(y) => out.append(y.as_str()),
        None => out.append("n.d."),
    }
}

/// Renders one record in the IEEE style.
pub fn format_entry_ieee(record: &Record) -> (r: Result<String, FormatError>)
    ensures
        r is Ok <==> ieee_text(*record) is Some,
        r matches Ok(s) ==> ieee_text(*record) == Some(s@),
        r matches Err(e) ==> e == FormatError::MissingRequiredField,
{
    proof {
        // fragments without a label or suffix pass the empty literal
        reveal_strlit("");
    }
    let title = match &record.title {
        Some(t) => t,
        None => return Err(FormatError::MissingRequiredField),
    };
    let mut out = format_author_part(record, Style::Ieee);
    match record.category {
        Category::Article => {
            let journal = match &record.journal {
                Some(j) => j,
                None => return Err(FormatError::MissingRequiredField),
            };
            out.append(". \"");
            out.append(title.as_str());
            out.append("\", ");
            out.append(journal.as_str());
            out.append(" vol.");
            push_field(&mut out, &record.volume);
            push_fragment(&mut out, ", no. ", &record.number, "");
            push_fragment(&mut out, ", pp. ", &record.pages, "");
            push_fragment(&mut out, ", doi: ", &record.doi, "");
            out.append(", ");
            push_year(&mut out, record);
            out.append(".");
        },
        Category::Book => {
            let publisher = match &record.publisher {
                Some(p) => p,
                None => return Err(FormatError::MissingRequiredField),
            };
            out.append(". \"");
            out.append(title.as_str());
            out.append("\". ");
            push_fragment(&mut out, "", &record.edition, " ed., ");
            push_fragment(&mut out, "", &record.address, ": ");
            out.append(publisher.as_str());
            out.append(", ");
            push_year(&mut out, record);
            out.append(".");
        },
        Category::Other => {
            out.append(". \"");
            out.append(title.as_str());
            out.append("\". ");
            push_year(&mut out, record);
            out.append(".");
        },
    }
    Ok(out)
}

/// Renders one record in the APA style.
pub fn format_entry_apa(record: &Record) -> (r: Result<String, FormatError>)
    ensures
        r is Ok <==> apa_text(*record) is Some,
        r matches Ok(s) ==> apa_text(*record) == Some(s@),
        r matches Err(e) ==> e == FormatError::MissingRequiredField,
{
    proof {
        // fragments without a label or suffix pass the empty literal
        reveal_strlit("");
    }
    let title = match &record.title {
        Some(t) => t,
        None => return Err(FormatError::MissingRequiredField),
    };
    let mut out = format_author_part(record, Style::Apa);
    out.append(". (");
    push_year(&mut out, record);
    out.append("). ");
    out.append(title.as_str());
    match record.category {
        Category::Article => {
            let journal = match &record.journal {
                Some(j) => j,
                None => return Err(FormatError::MissingRequiredField),
            };
            out.append(". ");
            out.append(journal.as_str());
            out.append(", ");
            push_field(&mut out, &record.volume);
            push_fragment(&mut out, "(", &record.number, ")");
            push_fragment(&mut out, ", ", &record.pages, "");
            push_fragment(&mut out, ". https://doi.org/", &record.doi, "");
        },
        Category::Book => {
            let publisher = match &record.publisher {
                Some(p) => p,
                None => return Err(FormatError::MissingRequiredField),
            };
            out.append(". ");
            push_fragment(&mut out, "", &record.address, ". ");
            out.append(publisher.as_str());
        },
        Category::Other => {
            out.append(".");
        },
    }
    Ok(out)
}

/// Renders one record in `style`.
pub fn format_entry(record: &Record, style: Style) -> (r: Result<String, FormatError>)
    ensures
        r is Ok <==> entry_text(*record, style) is Some,
        r matches Ok(s) ==> entry_text(*record, style) == Some(s@),
        r matches Err(e) ==> e == FormatError::MissingRequiredField,
{
    match style {
        Style::Ieee => format_entry_ieee(record),
        Style::Apa => format_entry_apa(record),
    }
}

} // verus!

use vstd::prelude::*;
use vstd::string::*;
use crate::record::{FormatError, Record, Style};
use crate::text::{join_with, lemma_join_push, text_eq};
use crate::render::{entry_text, format_entry};

verus! {

/// The citations of the records that render in `style`, in record order.
pub open spec fn rendered_lines(rs: Seq<Record>, style: Style) -> Seq<Seq<char>>
    decreases rs.len(),
{
    if rs.len() == 0 {
        Seq::empty()
    } else {
        let earlier = rendered_lines(rs.drop_last(), style);
        match entry_text(rs.last(), style) {
            Some(t) => earlier.push(t),
            None => earlier,
        }
    }
}

/// The rendered bibliography: the citations separated by a blank line.
pub open spec fn bibliography_text(rs: Seq<Record>, style: Style) -> Seq<char> {
    join_with(rendered_lines(rs, style), "\n\n"@)
}

/// The style that an identifier names, if any.
pub open spec fn style_named(name: Seq<char>) -> Option<Style> {
    if name == "ieee"@ {
        Some(Style::Ieee)
    } else if name == "apa"@ {
        Some(Style::Apa)
    } else {
        None
    }
}

/// Reads a style identifier: `ieee` or `apa`.
pub fn parse_style(name: &str) -> (r: Result<Style, FormatError>)
    ensures
        r is Ok <==> style_named(name@) is Some,
        r matches Ok(s) ==> style_named(name@) == Some(s),
        r matches Err(e) ==> e == FormatError::UnsupportedStyle,
{
    if text_eq(name, "ieee") {
        Ok(Style::Ieee)
    } else if text_eq(name, "apa") {
        Ok(Style::Apa)
    } else {
        Err(FormatError::UnsupportedStyle)
    }
}

/// Renders every record in `style`, skipping those that lack a required
/// field, and joins the citations with a blank line between each two.
pub fn format_bibliography(records: &Vec<Record>, style: Style) -> (r: String)
    ensures
        r@ == bibliography_text(records@, style),
{
    let mut out = String::new();
    let mut any = false;
    let mut i: usize = 0;
    while i < records.len()
        invariant
            i <= records@.len(),
            any == (rendered_lines(records@.take(i as int), style).len() > 0),
            out@ == join_with(rendered_lines(records@.take(i as int), style), "\n\n"@),
        decreases records@.len() - i,
    {
        let ghost before = rendered_lines(records@.take(i as int), style);
        assert(records@.take(i + 1).drop_last() =~= records@.take(i as int));
        match format_entry(&records[i], style) {
            Ok(line) => {
                proof {
                    lemma_join_push(before, "\n\n"@, line@);
                }
                if any {
                    out.append("\n\n");
                }
                out.append(line.as_str());
                any = true;
            },
            Err(_) => {},
        }
        i = i + 1;
    }
    assert(records@.take(records@.len() as int) =~= records@);
    out
}

/// Renders the records in the style that `style` names.
///
/// Fails with `UnsupportedStyle`, before any record is rendered, where the
/// identifier names no known style.
pub fn format_records(records: &Vec<Record>, style: &str) -> (r: Result<String, FormatError>)
    ensures
        r is Ok <==> style_named(style@) is Some,
        r matches Ok(s) ==> s@ == bibliography_text(records@, style_named(style@)->Some_0),
        r matches Err(e) ==> e == FormatError::UnsupportedStyle,
{
    let s = parse_style(style)?;
    Ok(format_bibliography(records, s))
}

} // verus!

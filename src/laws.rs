use vstd::prelude::*;
use crate::record::{Category, Record, Style};
use crate::text::{join_with, texts_of};
use crate::authors::authors_text;
use crate::render::entry_text;
use crate::bibliography::{bibliography_text, rendered_lines};

verus! {

/// Whether a record has every field that its category requires: a title,
/// and a journal for an article or a publisher for a book.
pub open spec fn has_required_fields(r: Record) -> bool {
    &&& r.title is Some
    &&& (r.category == Category::Article ==> r.journal is Some)
    &&& (r.category == Category::Book ==> r.publisher is Some)
}

/// IEEE writes a list of at most three authors in full.
pub proof fn lemma_ieee_short_list_in_full(names: Seq<Seq<char>>)
    requires
        names.len() <= 3,
    ensures
        authors_text(names, Style::Ieee) == join_with(names, ", "@),
{
}

/// IEEE writes a list of more than three authors as the first author
/// followed by `et al.`.
pub proof fn lemma_ieee_long_list_et_al(names: Seq<Seq<char>>)
    requires
        names.len() > 3,
    ensures
        authors_text(names, Style::Ieee) == names[0] + " et al."@,
{
}

/// APA writes a list of at most seven authors in full.
pub proof fn lemma_apa_short_list_in_full(names: Seq<Seq<char>>)
    requires
        names.len() <= 7,
    ensures
        authors_text(names, Style::Apa) == join_with(names, ", "@),
{
}

/// A record renders in either style exactly when it has the fields its
/// category requires; no other field is needed.
pub proof fn lemma_renders_iff_required_fields(r: Record, style: Style)
    ensures
        entry_text(r, style) is Some <==> has_required_fields(r),
{
}

/// An article without a journal renders in neither style.
pub proof fn lemma_article_needs_journal(r: Record)
    requires
        r.category == Category::Article,
        r.journal is None,
    ensures
        entry_text(r, Style::Ieee) is None,
        entry_text(r, Style::Apa) is None,
{
}

/// A record without authors renders as if its single author were named
/// `Unknown Author`.
pub proof fn lemma_missing_author_placeholder(r: Record, style: Style, placeholder: Vec<String>)
    requires
        r.authors is None,
        texts_of(placeholder@) == seq!["Unknown Author"@],
    ensures
        entry_text(r, style) == entry_text(Record { authors: Some(placeholder), ..r }, style),
{
    let names = texts_of(placeholder@);
    assert(names.len() == 1);
    assert(join_with(names, ", "@) == names[0]);
}

/// A record without a year renders as if its year were `n.d.`.
pub proof fn lemma_missing_year_placeholder(r: Record, style: Style, placeholder: String)
    requires
        r.year is None,
        placeholder@ == "n.d."@,
    ensures
        entry_text(r, style) == entry_text(Record { year: Some(placeholder), ..r }, style),
{
}

/// The rendered lines of two record lists in a row are those of the first
/// followed by those of the second.
pub proof fn lemma_lines_concat(a: Seq<Record>, b: Seq<Record>, style: Style)
    ensures
        rendered_lines(a + b, style) == rendered_lines(a, style) + rendered_lines(b, style),
    decreases b.len(),
{
    if b.len() == 0 {
        assert(a + b =~= a);
        assert(rendered_lines(a, style) + rendered_lines(b, style) =~= rendered_lines(a, style));
    } else {
        assert((a + b).drop_last() =~= a + b.drop_last());
        assert((a + b).last() == b.last());
        lemma_lines_concat(a, b.drop_last(), style);
        let la = rendered_lines(a, style);
        let lb = rendered_lines(b.drop_last(), style);
        match entry_text(b.last(), style) {
            Some(t) => {
                assert((la + lb).push(t) =~= la + lb.push(t));
            },
            None => {},
        }
    }
}

/// A record that fails to render is left out, and the others render as if
/// it were not there.
pub proof fn lemma_failed_record_skipped(
    before: Seq<Record>,
    bad: Record,
    after: Seq<Record>,
    style: Style,
)
    requires
        entry_text(bad, style) is None,
    ensures
        bibliography_text(before + seq![bad] + after, style) == bibliography_text(
            before + after,
            style,
        ),
{
    lemma_lines_concat(before, seq![bad], style);
    lemma_lines_concat(before + seq![bad], after, style);
    lemma_lines_concat(before, after, style);
    assert(seq![bad].drop_last() =~= Seq::<Record>::empty());
    assert(seq![bad].last() == bad);
    assert(rendered_lines(Seq::<Record>::empty(), style) =~= Seq::<Seq<char>>::empty());
    assert(rendered_lines(seq![bad], style) =~= Seq::<Seq<char>>::empty());
    assert(rendered_lines(before, style) + Seq::<Seq<char>>::empty() =~= rendered_lines(
        before,
        style,
    ));
}

/// An empty list of records renders as the empty text.
pub proof fn lemma_empty_bibliography(style: Style)
    ensures
        bibliography_text(Seq::empty(), style) == Seq::<char>::empty(),
{
}

} // verus!

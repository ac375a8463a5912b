use vstd::prelude::*;
use vstd::string::*;
use crate::record::Style;
use crate::text::{join_with, texts_of, join_prefix};

verus! {

/// The author list of `names` as `style` writes it.
///
/// IEEE writes more than three authors as the first one followed by
/// `et al.`; APA writes more than seven as the first six, an ellipsis and the
/// last one. Otherwise every name is written, separated by commas.
pub open spec fn authors_text(names: Seq<Seq<char>>, style: Style) -> Seq<char> {
    if style == Style::Ieee && names.len() > 3 {
        names[0] + " et al."@
    } else if style == Style::Apa && names.len() > 7 {
        join_with(names.take(6), ", "@) + ", ... "@ + names.last()
    } else {
        join_with(names, ", "@)
    }
}

/// Writes the author list `authors` in `style`.
pub fn format_authors(authors: &Vec<String>, style: Style) -> (r: String)
    ensures
        r@ == authors_text(texts_of(authors@), style),
{
    let n = authors.len();
    if style == Style::Ieee && n > 3 {
        let mut out = String::from_str(authors[0].as_str());
        out.append(" et al.");
        out
    } else if style == Style::Apa && n > 7 {
        let mut out = join_prefix(authors, 6, ", ");
        out.append(", ... ");
        out.append(authors[n - 1].as_str());
        out
    } else {
        let out = join_prefix(authors, n, ", ");
        assert(texts_of(authors@).take(n as int) =~= texts_of(authors@));
        out
    }
}

} // verus!

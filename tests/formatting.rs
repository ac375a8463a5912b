use bibliography_parser::authors::format_authors;
use bibliography_parser::bibliography::{format_bibliography, format_records, parse_style};
use bibliography_parser::record::{Category, FormatError, Record, Style};
use bibliography_parser::render::{format_entry, format_entry_apa, format_entry_ieee};
use bibliography_parser::source::{parse_and_format, parse_records};

fn names(list: &[&str]) -> Vec<String> {
    list.iter().map(|s| s.to_string()).collect()
}

fn text(s: &str) -> Option<String> {
    Some(s.to_string())
}

fn bare(category: Category) -> Record {
    Record {
        key: "k".to_string(),
        category,
        authors: None,
        title: None,
        year: None,
        journal: None,
        volume: None,
        number: None,
        pages: None,
        doi: None,
        publisher: None,
        address: None,
        edition: None,
    }
}

fn widgets_article() -> Record {
    Record {
        authors: Some(names(&["Jane Doe"])),
        title: text("On Widgets"),
        journal: text("J. Widgetry"),
        year: text("2021"),
        ..bare(Category::Article)
    }
}

#[test]
fn ieee_up_to_three_authors_in_full() {
    assert_eq!(format_authors(&names(&["A"]), Style::Ieee), "A");
    assert_eq!(format_authors(&names(&["A", "B"]), Style::Ieee), "A, B");
    assert_eq!(format_authors(&names(&["A", "B", "C"]), Style::Ieee), "A, B, C");
}

#[test]
fn ieee_four_authors_et_al() {
    let a = names(&["Smith", "Jones", "Brown", "Green"]);
    assert_eq!(format_authors(&a, Style::Ieee), "Smith et al.");
}

#[test]
fn apa_up_to_seven_authors_in_full() {
    let a = names(&["N1", "N2", "N3", "N4", "N5", "N6", "N7"]);
    assert_eq!(format_authors(&a, Style::Apa), "N1, N2, N3, N4, N5, N6, N7");
    assert_eq!(format_authors(&names(&["N1", "N2"]), Style::Apa), "N1, N2");
}

#[test]
fn apa_eight_authors_truncated() {
    let a = names(&["N1", "N2", "N3", "N4", "N5", "N6", "N7", "N8"]);
    assert_eq!(format_authors(&a, Style::Apa), "N1, N2, N3, N4, N5, N6, ... N8");
}

#[test]
fn empty_author_list_is_empty() {
    assert_eq!(format_authors(&Vec::new(), Style::Ieee), "");
    assert_eq!(format_authors(&Vec::new(), Style::Apa), "");
}

#[test]
fn rendering_twice_is_identical() {
    let r = widgets_article();
    assert_eq!(format_entry(&r, Style::Ieee), format_entry(&r, Style::Ieee));
    assert_eq!(format_entry(&r, Style::Apa), format_entry(&r, Style::Apa));
}

#[test]
fn missing_author_renders_placeholder() {
    let r = Record { authors: None, ..widgets_article() };
    assert_eq!(
        format_entry_ieee(&r).unwrap(),
        "Unknown Author. \"On Widgets\", J. Widgetry vol., 2021."
    );
    assert_eq!(
        format_entry_apa(&r).unwrap(),
        "Unknown Author. (2021). On Widgets. J. Widgetry, "
    );
}

#[test]
fn missing_year_renders_no_date() {
    let r = Record { year: None, ..widgets_article() };
    assert_eq!(format_entry_ieee(&r).unwrap(), "Jane Doe. \"On Widgets\", J. Widgetry vol., n.d..");
    assert_eq!(format_entry_apa(&r).unwrap(), "Jane Doe. (n.d.). On Widgets. J. Widgetry, ");
}

#[test]
fn article_without_journal_is_skipped() {
    let bad = Record { journal: None, ..widgets_article() };
    assert_eq!(format_entry_ieee(&bad), Err(FormatError::MissingRequiredField));
    assert_eq!(format_entry_apa(&bad), Err(FormatError::MissingRequiredField));
    let other = Record { title: text("Notes"), year: text("1999"), ..bare(Category::Other) };
    let recs = vec![bad, other];
    assert_eq!(format_bibliography(&recs, Style::Ieee), "Unknown Author. \"Notes\". 1999.");
    assert_eq!(format_bibliography(&recs, Style::Apa), "Unknown Author. (1999). Notes.");
}

#[test]
fn unsupported_style_fails() {
    let recs = vec![widgets_article()];
    assert_eq!(format_records(&recs, "chicago"), Err(FormatError::UnsupportedStyle));
    assert_eq!(parse_style("chicago"), Err(FormatError::UnsupportedStyle));
    assert_eq!(parse_style("IEEE"), Err(FormatError::UnsupportedStyle));
    assert_eq!(parse_style("ieee"), Ok(Style::Ieee));
    assert_eq!(parse_style("apa"), Ok(Style::Apa));
}

#[test]
fn empty_collection_renders_empty() {
    assert_eq!(format_records(&Vec::new(), "ieee"), Ok(String::new()));
}

#[test]
fn end_to_end_ieee_article() {
    let recs = vec![widgets_article()];
    assert_eq!(
        format_records(&recs, "ieee"),
        Ok("Jane Doe. \"On Widgets\", J. Widgetry vol., 2021.".to_string())
    );
}

#[test]
fn ieee_article_with_every_field() {
    let r = Record {
        volume: text("7"),
        number: text("2"),
        pages: text("10--20"),
        doi: text("10.1/xyz"),
        ..widgets_article()
    };
    assert_eq!(
        format_entry_ieee(&r).unwrap(),
        "Jane Doe. \"On Widgets\", J. Widgetry vol.7, no. 2, pp. 10--20, doi: 10.1/xyz, 2021."
    );
}

#[test]
fn apa_article_with_every_field() {
    let r = Record {
        volume: text("7"),
        number: text("2"),
        pages: text("10--20"),
        doi: text("10.1/xyz"),
        ..widgets_article()
    };
    assert_eq!(
        format_entry_apa(&r).unwrap(),
        "Jane Doe. (2021). On Widgets. J. Widgetry, 7(2), 10--20. https://doi.org/10.1/xyz"
    );
}

#[test]
fn book_in_both_styles() {
    let r = Record {
        authors: Some(names(&["A", "B"])),
        title: text("Big Book"),
        year: text("2000"),
        publisher: text("Pub"),
        address: text("Town"),
        edition: text("2nd"),
        ..bare(Category::Book)
    };
    assert_eq!(format_entry_ieee(&r).unwrap(), "A, B. \"Big Book\". 2nd ed., Town: Pub, 2000.");
    assert_eq!(format_entry_apa(&r).unwrap(), "A, B. (2000). Big Book. Town. Pub");
    let plain = Record { address: None, edition: None, ..r };
    assert_eq!(format_entry_ieee(&plain).unwrap(), "A, B. \"Big Book\". Pub, 2000.");
    assert_eq!(format_entry_apa(&plain).unwrap(), "A, B. (2000). Big Book. Pub");
    let no_publisher = Record { publisher: None, ..plain };
    assert_eq!(format_entry_ieee(&no_publisher), Err(FormatError::MissingRequiredField));
    assert_eq!(format_entry_apa(&no_publisher), Err(FormatError::MissingRequiredField));
}

#[test]
fn other_category_in_both_styles() {
    let r = Record {
        authors: Some(names(&["A"])),
        title: text("Memo"),
        year: text("1990"),
        ..bare(Category::Other)
    };
    assert_eq!(format_entry_ieee(&r).unwrap(), "A. \"Memo\". 1990.");
    assert_eq!(format_entry_apa(&r).unwrap(), "A. (1990). Memo.");
}

#[test]
fn missing_title_fails() {
    let r = Record { title: None, ..widgets_article() };
    assert_eq!(format_entry(&r, Style::Ieee), Err(FormatError::MissingRequiredField));
    let o = Record { title: None, ..bare(Category::Other) };
    assert_eq!(format_entry(&o, Style::Apa), Err(FormatError::MissingRequiredField));
}

#[test]
fn entries_joined_with_blank_line() {
    let second = Record { title: text("Memo"), year: text("1990"), ..bare(Category::Other) };
    let recs = vec![widgets_article(), second];
    assert_eq!(
        format_bibliography(&recs, Style::Ieee),
        "Jane Doe. \"On Widgets\", J. Widgetry vol., 2021.\n\nUnknown Author. \"Memo\". 1990."
    );
}

#[test]
fn parses_and_formats_source() {
    let src = "@article{w, author = {Doe, Jane and Roe, Rick}, title = {On Widgets}, \
               journaltitle = {J. Widgetry}, year = {2021}, volume = {3}}\n\
               @book{b, author = {Poe, Ann}, title = {Big Book}, publisher = {Pub}, \
               location = {Town}, year = {2000}}\n\
               @article{nojournal, title = {Lost}, year = {2001}}";
    assert_eq!(
        parse_and_format(src, "ieee"),
        Ok("Doe, Roe. \"On Widgets\", J. Widgetry vol.3, 2021.\n\n\
            Poe. \"Big Book\". Town: Pub, 2000."
            .to_string())
    );
    assert_eq!(
        parse_and_format(src, "apa"),
        Ok("Doe, Roe. (2021). On Widgets. J. Widgetry, 3\n\nPoe. (2000). Big Book. Town. Pub"
            .to_string())
    );
    let recs = parse_records(src).unwrap();
    assert_eq!(recs.len(), 3);
    assert_eq!(recs[0].key, "w");
    assert_eq!(recs[0].category, Category::Article);
    assert_eq!(recs[1].category, Category::Book);
    assert_eq!(recs[1].address, text("Town"));
}

#[test]
fn parse_failure_is_reported() {
    let r = parse_and_format("@article{broken, title = {On", "ieee");
    assert!(matches!(r, Err(FormatError::ParseFailure(_))));
}

#[test]
fn unsupported_style_after_parse() {
    let src = "@misc{m, title = {Memo}, year = {1990}}";
    assert_eq!(parse_and_format(src, "chicago"), Err(FormatError::UnsupportedStyle));
    assert_eq!(parse_and_format("", "ieee"), Ok(String::new()));
}

#[test]
fn cyclic_links_are_refused() {
    let msg = "crossref or xdata links form a cycle or are not plain keys".to_string();
    let r = parse_and_format("@misc{a, crossref = {a}, title = {T}}", "ieee");
    assert_eq!(r, Err(FormatError::ParseFailure(msg.clone())));
    let r = parse_records("@misc{a, xdata = {a}, title = {T}}");
    assert_eq!(r, Err(FormatError::ParseFailure(msg.clone())));
    let r = parse_records(
        "@misc{a, ids = {x}, crossref = {b}, title = {T}}\n@misc{b, crossref = {x}, title = {U}}",
    );
    assert_eq!(r, Err(FormatError::ParseFailure(msg)));
}

#[test]
fn acyclic_links_resolve() {
    let recs = parse_records("@misc{a, CrossRef = {b}, title = {T}}\n@misc{b, title = {U}}").unwrap();
    assert_eq!(recs.len(), 2);
    assert_eq!(recs[0].title, text("T"));
    let src = "@misc{a, xdata = {b,c}, title = {T}}\n@misc{b, title = {U}}\n@misc{c, title = {V}}";
    assert_eq!(
        parse_and_format(src, "apa"),
        Ok("Unknown Author. (n.d.). T.\n\nUnknown Author. (n.d.). U.\n\nUnknown Author. (n.d.). V."
            .to_string())
    );
    assert_eq!(
        parse_and_format("@misc{a, crossref = {b}, title = {T}}\n@misc{b, title = {U}}", "chicago"),
        Err(FormatError::UnsupportedStyle)
    );
}

#[test]
fn cyclic_abbreviation_is_refused() {
    let msg = "abbreviations refer to each other in a cycle".to_string();
    let r = parse_and_format("@string{a = a}\n@misc{m, title = a, year = {1990}}", "ieee");
    assert_eq!(r, Err(FormatError::ParseFailure(msg.clone())));
    let r = parse_records("@string{a = b}\n@string{b = a}\n@misc{m, title = b}");
    assert_eq!(r, Err(FormatError::ParseFailure(msg)));
}

#[test]
fn forward_and_unused_abbreviations_resolve() {
    let recs = parse_records("@string{a = b}\n@string{b = {x}}\n@misc{m, title = a}").unwrap();
    assert_eq!(recs[0].title, text("x"));
    let recs = parse_records("@string{z = z}\n@misc{m, title = {Memo}}").unwrap();
    assert_eq!(recs[0].title, text("Memo"));
}

#[test]
fn earlier_abbreviations_resolve() {
    let src = "@string{jw = {J. Widgetry}}\n@string{jwx = jw # { X}}\n\
               @article{w, title = {On Widgets}, journal = jwx, year = {2021}}";
    assert_eq!(
        parse_and_format(src, "ieee"),
        Ok("Unknown Author. \"On Widgets\", J. Widgetry X vol., 2021.".to_string())
    );
}

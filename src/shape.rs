use vstd::prelude::*;
use vstd::string::*;
use crate::text::{text_eq, texts_of};
use crate::graph::{grounded, grounded_nodes, succ_view};

verus! {

/// The parts of a raw field value: `(true, name)` for an abbreviation,
/// `(false, text)` for literal text.
pub open spec fn parts_view(v: Seq<(bool, String)>) -> Seq<(bool, Seq<char>)> {
    v.map_values(|p: (bool, String)| (p.0, p.1@))
}

/// A list of named raw values: `@string` definitions, or an entry's fields.
pub open spec fn defs_view(v: Seq<(String, Vec<(bool, String)>)>) -> Seq<
    (Seq<char>, Seq<(bool, Seq<char>)>),
> {
    v.map_values(|d: (String, Vec<(bool, String)>)| (d.0@, parts_view(d.1@)))
}

/// The raw entries: each key with its fields.
pub open spec fn entries_view(v: Seq<(String, Vec<(String, Vec<(bool, String)>)>)>) -> Seq<
    (Seq<char>, Seq<(Seq<char>, Seq<(bool, Seq<char>)>)>),
> {
    v.map_values(|e: (String, Vec<(String, Vec<(bool, String)>)>)| (e.0@, defs_view(e.1@)))
}

/// The index of the last of the first `n` definitions named `name`, or -1.
pub open spec fn last_def(d: Seq<(Seq<char>, Seq<(bool, Seq<char>)>)>, name: Seq<char>, n: int) -> int
    decreases n,
{
    if n <= 0 {
        -1
    } else if d[n - 1].0 == name {
        n - 1
    } else {
        last_def(d, name, n - 1)
    }
}

/// The abbreviations that the parts of a value refer to, by the index of
/// their last definition, in order; names without a definition are left out.
pub open spec fn abbr_targets(a: Seq<(Seq<char>, Seq<(bool, Seq<char>)>)>, parts: Seq<(bool, Seq<char>)>) -> Seq<int>
    decreases parts.len(),
{
    if parts.len() == 0 {
        Seq::empty()
    } else {
        let earlier = abbr_targets(a, parts.drop_last());
        let j = last_def(a, parts.last().1, a.len() as int);
        if parts.last().0 && j >= 0 {
            earlier.push(j)
        } else {
            earlier
        }
    }
}

/// The graph from each abbreviation to those its value refers to.
pub open spec fn abbr_graph(a: Seq<(Seq<char>, Seq<(bool, Seq<char>)>)>) -> Seq<Seq<int>> {
    Seq::new(a.len(), |i: int| abbr_targets(a, a[i].1))
}

/// Whether resolving every abbreviation that an entry's field uses ends.
pub open spec fn abbreviations_end(
    a: Seq<(Seq<char>, Seq<(bool, Seq<char>)>)>,
    e: Seq<(Seq<char>, Seq<(Seq<char>, Seq<(bool, Seq<char>)>)>)>,
) -> bool {
    forall|i: int, f: int, k: int|
        0 <= i < e.len() && 0 <= f < e[i].1.len() && 0 <= k < e[i].1[f].1.len()
            && #[trigger] e[i].1[f].1[k].0 && last_def(a, e[i].1[f].1[k].1, a.len() as int) >= 0
            ==> grounded(abbr_graph(a), last_def(a, e[i].1[f].1[k].1, a.len() as int))
}

/// The index of the last definition named `name`, if any.
fn find_last_def(d: &Vec<(String, Vec<(bool, String)>)>, name: &str) -> (r: Option<usize>)
    ensures
        match r {
            Some(j) => j < d@.len() && last_def(defs_view(d@), name@, d@.len() as int) == j,
            None => last_def(defs_view(d@), name@, d@.len() as int) == -1,
        },
{
    let ghost dv = defs_view(d@);
    let mut j = d.len();
    while j > 0
        invariant
            dv == defs_view(d@),
            j <= d@.len(),
            last_def(dv, name@, d@.len() as int) == last_def(dv, name@, j as int),
        decreases j,
    {
        if text_eq(d[j - 1].0.as_str(), name) {
            return Some(j - 1);
        }
        j = j - 1;
    }
    None
}

/// The abbreviation graph of a list of `@string` definitions.
fn build_abbr_graph(a: &Vec<(String, Vec<(bool, String)>)>) -> (r: Vec<Vec<usize>>)
    ensures
        r@.len() == a@.len(),
        succ_view(r@) == abbr_graph(defs_view(a@)),
        forall|i: int, k: int| 0 <= i < r@.len() && 0 <= k < r@[i]@.len() ==> r@[i]@[k] < r@.len(),
{
    let ghost av = defs_view(a@);
    let mut g: Vec<Vec<usize>> = Vec::new();
    let mut i: usize = 0;
    while i < a.len()
        invariant
            av == defs_view(a@),
            i <= a@.len(),
            g@.len() == i,
            forall|m: int| 0 <= m < i ==> #[trigger] succ_view(g@)[m] == abbr_targets(av, av[m].1),
            forall|m: int, k: int| 0 <= m < i && 0 <= k < g@[m]@.len() ==> g@[m]@[k] < a@.len(),
        decreases a@.len() - i,
    {
        let parts = &a[i].1;
        let ghost pv = av[i as int].1;
        let mut out: Vec<usize> = Vec::new();
        let mut k: usize = 0;
        while k < parts.len()
            invariant
                av == defs_view(a@),
                i < a@.len(),
                parts@ == a@[i as int].1@,
                pv == parts_view(parts@),
                k <= parts@.len(),
                out@.map_values(|j: usize| j as int) == abbr_targets(av, pv.take(k as int)),
                forall|m: int| 0 <= m < out@.len() ==> out@[m] < a@.len(),
            decreases parts@.len() - k,
        {
            assert(pv.take(k + 1).drop_last() =~= pv.take(k as int));
            assert(pv.take(k + 1).last() == pv[k as int]);
            if parts[k].0 {
                match find_last_def(a, parts[k].1.as_str()) {
                    Some(j) => {
                        out.push(j);
                        assert(out@.map_values(|j: usize| j as int) =~= abbr_targets(av, pv.take(k as int)).push(j as int));
                    },
                    None => {},
                }
            }
            k = k + 1;
        }
        assert(pv.take(parts@.len() as int) =~= pv);
        let ghost old_g = g@;
        g.push(out);
        assert forall|m: int| 0 <= m <= i implies #[trigger] succ_view(g@)[m] == abbr_targets(
            av,
            av[m].1,
        ) by {
            if m < i {
                assert(g@[m] == old_g[m]);
                assert(succ_view(old_g)[m] == old_g[m]@.map_values(|j: usize| j as int));
            }
        }
        i = i + 1;
    }
    assert(succ_view(g@) =~= abbr_graph(av));
    g
}

/// Whether resolving the abbreviations that the entries use ends.
pub fn check_abbreviations(
    a: &Vec<(String, Vec<(bool, String)>)>,
    e: &Vec<(String, Vec<(String, Vec<(bool, String)>)>)>,
) -> (r: bool)
    ensures
        r == abbreviations_end(defs_view(a@), entries_view(e@)),
{
    let ghost av = defs_view(a@);
    let ghost ev = entries_view(e@);
    let g = build_abbr_graph(a);
    let ok = grounded_nodes(&g);
    let mut i: usize = 0;
    while i < e.len()
        invariant
            av == defs_view(a@),
            ev == entries_view(e@),
            succ_view(g@) == abbr_graph(av),
            ok@.len() == g@.len(),
            g@.len() == a@.len(),
            forall|m: int| 0 <= m < g@.len() ==> (ok@[m] <==> grounded(succ_view(g@), m)),
            i <= e@.len(),
            forall|x: int, f: int, k: int|
                0 <= x < i && 0 <= f < ev[x].1.len() && 0 <= k < ev[x].1[f].1.len()
                    && #[trigger] ev[x].1[f].1[k].0 && last_def(av, ev[x].1[f].1[k].1, av.len() as int) >= 0
                    ==> grounded(abbr_graph(av), last_def(av, ev[x].1[f].1[k].1, av.len() as int)),
        decreases e@.len() - i,
    {
        let fields = &e[i].1;
        let mut f: usize = 0;
        while f < fields.len()
            invariant
                av == defs_view(a@),
                ev == entries_view(e@),
                succ_view(g@) == abbr_graph(av),
                ok@.len() == g@.len(),
                g@.len() == a@.len(),
                forall|m: int| 0 <= m < g@.len() ==> (ok@[m] <==> grounded(succ_view(g@), m)),
                i < e@.len(),
                fields@ == e@[i as int].1@,
                f <= fields@.len(),
                forall|x: int, f2: int, k: int|
                    0 <= x < i && 0 <= f2 < ev[x].1.len() && 0 <= k < ev[x].1[f2].1.len()
                        && #[trigger] ev[x].1[f2].1[k].0 && last_def(av, ev[x].1[f2].1[k].1, av.len() as int) >= 0
                        ==> grounded(abbr_graph(av), last_def(av, ev[x].1[f2].1[k].1, av.len() as int)),
                forall|f2: int, k: int|
                    0 <= f2 < f && 0 <= k < ev[i as int].1[f2].1.len()
                        && #[trigger] ev[i as int].1[f2].1[k].0 && last_def(av, ev[i as int].1[f2].1[k].1, av.len() as int) >= 0
                        ==> grounded(abbr_graph(av), last_def(av, ev[i as int].1[f2].1[k].1, av.len() as int)),
            decreases fields@.len() - f,
        {
            let parts = &fields[f].1;
            let mut k: usize = 0;
            while k < parts.len()
                invariant
                    av == defs_view(a@),
                    ev == entries_view(e@),
                    succ_view(g@) == abbr_graph(av),
                    ok@.len() == g@.len(),
                    g@.len() == a@.len(),
                    forall|m: int| 0 <= m < g@.len() ==> (ok@[m] <==> grounded(succ_view(g@), m)),
                    i < e@.len(),
                    fields@ == e@[i as int].1@,
                    f < fields@.len(),
                    parts@ == fields@[f as int].1@,
                    k <= parts@.len(),
                    forall|x: int, f2: int, k2: int|
                        0 <= x < i && 0 <= f2 < ev[x].1.len() && 0 <= k2 < ev[x].1[f2].1.len()
                            && #[trigger] ev[x].1[f2].1[k2].0 && last_def(av, ev[x].1[f2].1[k2].1, av.len() as int) >= 0
                            ==> grounded(abbr_graph(av), last_def(av, ev[x].1[f2].1[k2].1, av.len() as int)),
                    forall|f2: int, k2: int|
                        0 <= f2 < f && 0 <= k2 < ev[i as int].1[f2].1.len()
                            && #[trigger] ev[i as int].1[f2].1[k2].0 && last_def(av, ev[i as int].1[f2].1[k2].1, av.len() as int) >= 0
                            ==> grounded(abbr_graph(av), last_def(av, ev[i as int].1[f2].1[k2].1, av.len() as int)),
                    forall|k2: int|
                        0 <= k2 < k
                            && #[trigger] ev[i as int].1[f as int].1[k2].0 && last_def(av, ev[i as int].1[f as int].1[k2].1, av.len() as int) >= 0
                            ==> grounded(abbr_graph(av), last_def(av, ev[i as int].1[f as int].1[k2].1, av.len() as int)),
                decreases parts@.len() - k,
            {
                assert(ev[i as int].1[f as int].1[k as int] == (parts@[k as int].0, parts@[k as int].1@));
                if parts[k].0 {
                    match find_last_def(a, parts[k].1.as_str()) {
                        Some(j) => {
                            if !ok[j] {
                                assert(ev[i as int].1[f as int].1[k as int].1 == parts@[k as int].1@);
                                assert(av.len() == a@.len());
                                assert(!grounded(abbr_graph(av), j as int));
                                assert(ev[i as int].1[f as int].1[k as int].0);
                                assert(!abbreviations_end(av, ev));
                                return false;
                            }
                        },
                        None => {},
                    }
                }
                k = k + 1;
            }
            f = f + 1;
        }
        i = i + 1;
    }
    true
}

/// Whether `k` spells `lower`, letter by letter in either its lower or its
/// upper case form `upper`.
pub open spec fn spelled_as(k: Seq<char>, lower: Seq<char>, upper: Seq<char>) -> bool {
    &&& k.len() == lower.len()
    &&& forall|i: int| 0 <= i < k.len() ==> k[i] == lower[i] || k[i] == upper[i]
}

/// Whether `k` spells `lower` in any mix of the cases `lower` and `upper`
/// give for each letter.
pub fn spelled_as_exec(k: &str, lower: &str, upper: &str) -> (r: bool)
    requires
        lower@.len() == upper@.len(),
    ensures
        r == spelled_as(k@, lower@, upper@),
{
    let n = lower.unicode_len();
    if k.unicode_len() != n {
        return false;
    }
    let mut i: usize = 0;
    while i < n
        invariant
            n == lower@.len(),
            n == upper@.len(),
            n == k@.len(),
            i <= n,
            forall|j: int| 0 <= j < i ==> k@[j] == lower@[j] || k@[j] == upper@[j],
        decreases n - i,
    {
        let c = k.get_char(i);
        if c != lower.get_char(i) && c != upper.get_char(i) {
            return false;
        }
        i = i + 1;
    }
    true
}

/// The index of the last of the first `n` fields whose name spells `lower`
/// in either case, or -1.
pub open spec fn last_field(
    d: Seq<(Seq<char>, Seq<(bool, Seq<char>)>)>,
    lower: Seq<char>,
    upper: Seq<char>,
    n: int,
) -> int
    decreases n,
{
    if n <= 0 {
        -1
    } else if spelled_as(d[n - 1].0, lower, upper) {
        n - 1
    } else {
        last_field(d, lower, upper, n - 1)
    }
}

/// The value of the field that biblatex keeps under a name: the last one.
pub open spec fn field_value(
    d: Seq<(Seq<char>, Seq<(bool, Seq<char>)>)>,
    lower: Seq<char>,
    upper: Seq<char>,
) -> Option<Seq<(bool, Seq<char>)>> {
    let j = last_field(d, lower, upper, d.len() as int);
    if j >= 0 {
        Some(d[j].1)
    } else {
        None
    }
}

/// Whether `c` is white space (Unicode's `White_Space` property).
pub open spec fn is_white(c: char) -> bool {
    ||| '\t' <= c <= '\r'
    ||| c == ' '
    ||| c == '\u{85}'
    ||| c == '\u{a0}'
    ||| c == '\u{1680}'
    ||| '\u{2000}' <= c <= '\u{200a}'
    ||| c == '\u{2028}'
    ||| c == '\u{2029}'
    ||| c == '\u{202f}'
    ||| c == '\u{205f}'
    ||| c == '\u{3000}'
}

/// Whether biblatex reads `c` in a field as itself.
pub open spec fn plain_char(c: char) -> bool {
    c != '\\' && c != '$' && c != '{' && c != '}' && !is_white(c)
}

/// Whether biblatex reads the text of a field as it stands: no command,
/// math, group, white space or dash ligature.
pub open spec fn plain_text(t: Seq<char>) -> bool {
    &&& forall|i: int| 0 <= i < t.len() ==> plain_char(t[i])
    &&& forall|i: int| 0 <= i < t.len() - 1 ==> !(#[trigger] t[i] == '-' && t[i + 1] == '-')
}

/// The text of a raw value that is one piece of plain literal text.
pub open spec fn literal(p: Seq<(bool, Seq<char>)>) -> Option<Seq<char>> {
    if p.len() == 1 && !p[0].0 && plain_text(p[0].1) {
        Some(p[0].1)
    } else {
        None
    }
}

/// The text cut at each comma.
pub open spec fn split_commas(t: Seq<char>) -> Seq<Seq<char>>
    decreases t.len(),
{
    if t.len() == 0 {
        seq![Seq::empty()]
    } else {
        let s = split_commas(t.drop_last());
        if t.last() == ',' {
            s.push(Seq::empty())
        } else {
            s.update(s.len() - 1, s.last().push(t.last()))
        }
    }
}

/// The keys that a literal list field holds; none where it is absent.
pub open spec fn listed(d: Seq<(Seq<char>, Seq<(bool, Seq<char>)>)>, lower: Seq<char>, upper: Seq<char>) -> Seq<Seq<char>> {
    match field_value(d, lower, upper) {
        Some(p) => match literal(p) {
            Some(t) => split_commas(t),
            None => Seq::empty(),
        },
        None => Seq::empty(),
    }
}

/// The keys an entry's `crossref` and `xdata` fields point to.
pub open spec fn link_targets(d: Seq<(Seq<char>, Seq<(bool, Seq<char>)>)>) -> Seq<Seq<char>> {
    let c = match field_value(d, "crossref"@, "CROSSREF"@) {
        Some(p) => match literal(p) {
            Some(t) => seq![t],
            None => Seq::empty(),
        },
        None => Seq::empty(),
    };
    c + listed(d, "xdata"@, "XDATA"@)
}

/// The entry that a key finds among the first `n`: the last whose key or
/// `ids` alias it is, or -1.
pub open spec fn lookup(e: Seq<(Seq<char>, Seq<(Seq<char>, Seq<(bool, Seq<char>)>)>)>, name: Seq<char>, n: int) -> int
    decreases n,
{
    if n <= 0 {
        -1
    } else if e[n - 1].0 == name || listed(e[n - 1].1, "ids"@, "IDS"@).contains(name) {
        n - 1
    } else {
        lookup(e, name, n - 1)
    }
}

/// The entries that a list of keys finds, in order; keys that find none are
/// left out.
pub open spec fn lookup_all(e: Seq<(Seq<char>, Seq<(Seq<char>, Seq<(bool, Seq<char>)>)>)>, ts: Seq<Seq<char>>) -> Seq<int>
    decreases ts.len(),
{
    if ts.len() == 0 {
        Seq::empty()
    } else {
        let earlier = lookup_all(e, ts.drop_last());
        let j = lookup(e, ts.last(), e.len() as int);
        if j >= 0 {
            earlier.push(j)
        } else {
            earlier
        }
    }
}

/// The graph from each entry to the entries its links point to.
pub open spec fn link_graph(e: Seq<(Seq<char>, Seq<(Seq<char>, Seq<(bool, Seq<char>)>)>)>) -> Seq<Seq<int>> {
    Seq::new(e.len(), |i: int| lookup_all(e, link_targets(e[i].1)))
}

/// Whether an entry carries a `crossref` or `xdata` link.
pub open spec fn has_link(d: Seq<(Seq<char>, Seq<(bool, Seq<char>)>)>) -> bool {
    field_value(d, "crossref"@, "CROSSREF"@) is Some || field_value(d, "xdata"@, "XDATA"@) is Some
}

/// Whether an entry's link and alias fields are plain literal text.
pub open spec fn links_literal(d: Seq<(Seq<char>, Seq<(bool, Seq<char>)>)>) -> bool {
    &&& (field_value(d, "crossref"@, "CROSSREF"@) matches Some(p) ==> literal(p) is Some)
    &&& (field_value(d, "xdata"@, "XDATA"@) matches Some(p) ==> literal(p) is Some)
    &&& (field_value(d, "ids"@, "IDS"@) matches Some(p) ==> literal(p) is Some)
}

/// Whether resolving the entries' links ends, as far as can be told from
/// the raw source: no entry links, or all links are literal and no chain of
/// links comes back to where it started.
pub open spec fn links_end(e: Seq<(Seq<char>, Seq<(Seq<char>, Seq<(bool, Seq<char>)>)>)>) -> bool {
    ||| forall|i: int| 0 <= i < e.len() ==> !has_link(#[trigger] e[i].1)
    ||| (forall|i: int| 0 <= i < e.len() ==> links_literal(#[trigger] e[i].1))
        && forall|i: int| 0 <= i < e.len() ==> grounded(link_graph(e), i)
}

/// The index of the last field whose name spells `lower` in either case.
fn find_last_field(d: &Vec<(String, Vec<(bool, String)>)>, lower: &str, upper: &str) -> (r: Option<usize>)
    requires
        lower@.len() == upper@.len(),
    ensures
        match r {
            Some(j) => j < d@.len() && last_field(defs_view(d@), lower@, upper@, d@.len() as int) == j,
            None => last_field(defs_view(d@), lower@, upper@, d@.len() as int) == -1,
        },
{
    let ghost dv = defs_view(d@);
    let mut j = d.len();
    while j > 0
        invariant
            dv == defs_view(d@),
            lower@.len() == upper@.len(),
            j <= d@.len(),
            last_field(dv, lower@, upper@, d@.len() as int) == last_field(dv, lower@, upper@, j as int),
        decreases j,
    {
        if spelled_as_exec(d[j - 1].0.as_str(), lower, upper) {
            return Some(j - 1);
        }
        j = j - 1;
    }
    None
}

/// Whether `c` is white space.
fn is_white_exec(c: char) -> (r: bool)
    ensures
        r == is_white(c),
{
    ('\t' <= c && c <= '\r') || c == ' ' || c == '\u{85}' || c == '\u{a0}' || c == '\u{1680}'
        || ('\u{2000}' <= c && c <= '\u{200a}') || c == '\u{2028}' || c == '\u{2029}'
        || c == '\u{202f}' || c == '\u{205f}' || c == '\u{3000}'
}

/// Whether biblatex reads the text as it stands.
fn plain_text_exec(t: &str) -> (r: bool)
    ensures
        r == plain_text(t@),
{
    let n = t.unicode_len();
    let mut i: usize = 0;
    let mut prev_dash = false;
    while i < n
        invariant
            n == t@.len(),
            i <= n,
            prev_dash == (i > 0 && t@[i - 1] == '-'),
            forall|j: int| 0 <= j < i ==> plain_char(t@[j]),
            forall|j: int| 0 <= j < i - 1 ==> !(#[trigger] t@[j] == '-' && t@[j + 1] == '-'),
        decreases n - i,
    {
        let c = t.get_char(i);
        if c == '\\' || c == '$' || c == '{' || c == '}' || is_white_exec(c) {
            return false;
        }
        if prev_dash && c == '-' {
            assert(t@[i - 1] == '-' && t@[i as int] == '-');
            return false;
        }
        prev_dash = c == '-';
        i = i + 1;
    }
    true
}

/// The text of a value that is one piece of plain literal text.
fn literal_exec(p: &Vec<(bool, String)>) -> (r: Option<&str>)
    ensures
        match r {
            Some(t) => literal(parts_view(p@)) == Some(t@),
            None => literal(parts_view(p@)) is None,
        },
{
    if p.len() == 1 && !p[0].0 && plain_text_exec(p[0].1.as_str()) {
        Some(p[0].1.as_str())
    } else {
        None
    }
}

/// The text cut at each comma.
fn split_commas_exec(t: &str) -> (r: Vec<String>)
    ensures
        texts_of(r@) == split_commas(t@),
{
    let n = t.unicode_len();
    let mut done: Vec<String> = Vec::new();
    let mut cur = String::new();
    let mut i: usize = 0;
    while i < n
        invariant
            n == t@.len(),
            i <= n,
            texts_of(done@).push(cur@) == split_commas(t@.take(i as int)),
        decreases n - i,
    {
        let ghost before = split_commas(t@.take(i as int));
        assert(t@.take(i + 1).drop_last() =~= t@.take(i as int));
        let c = t.get_char(i);
        if c == ',' {
            let ghost old_done = done@;
            let ghost old_cur = cur@;
            done.push(cur);
            cur = String::new();
            assert(texts_of(done@) =~= texts_of(old_done).push(old_cur));
            assert(texts_of(done@).push(cur@) =~= before.push(Seq::empty()));
        } else {
            let ghost old_cur = cur@;
            cur.append(t.substring_char(i, i + 1));
            assert(cur@ =~= old_cur.push(c));
            assert(texts_of(done@).push(cur@) =~= before.update(before.len() - 1, before.last().push(c)));
        }
        i = i + 1;
    }
    assert(t@.take(n as int) =~= t@);
    let ghost old_done = done@;
    let ghost old_cur = cur@;
    done.push(cur);
    assert(texts_of(done@) =~= texts_of(old_done).push(old_cur));
    done
}

/// The keys that a literal list field holds.
fn listed_exec(d: &Vec<(String, Vec<(bool, String)>)>, lower: &str, upper: &str) -> (r: Vec<String>)
    requires
        lower@.len() == upper@.len(),
    ensures
        texts_of(r@) == listed(defs_view(d@), lower@, upper@),
{
    match find_last_field(d, lower, upper) {
        Some(j) => match literal_exec(&d[j].1) {
            Some(t) => split_commas_exec(t),
            None => {
                let r: Vec<String> = Vec::new();
                assert(texts_of(r@) =~= Seq::empty());
                r
            },
        },
        None => {
            let r: Vec<String> = Vec::new();
            assert(texts_of(r@) =~= Seq::empty());
            r
        },
    }
}

/// Whether a key occurs in a list.
fn contains_text(v: &Vec<String>, name: &str) -> (r: bool)
    ensures
        r == texts_of(v@).contains(name@),
{
    let mut i: usize = 0;
    while i < v.len()
        invariant
            i <= v@.len(),
            forall|j: int| 0 <= j < i ==> v@[j]@ != name@,
        decreases v@.len() - i,
    {
        if text_eq(v[i].as_str(), name) {
            assert(texts_of(v@)[i as int] == name@);
            return true;
        }
        i = i + 1;
    }
    assert(!texts_of(v@).contains(name@)) by {
        if texts_of(v@).contains(name@) {
            let j = choose|j: int| 0 <= j < texts_of(v@).len() && texts_of(v@)[j] == name@;
            assert(v@[j]@ == name@);
        }
    }
    false
}

/// The entry a key finds, given each entry's aliases.
fn lookup_exec(
    e: &Vec<(String, Vec<(String, Vec<(bool, String)>)>)>,
    aliases: &Vec<Vec<String>>,
    name: &str,
) -> (r: Option<usize>)
    requires
        aliases@.len() == e@.len(),
        forall|i: int| 0 <= i < e@.len() ==> texts_of(#[trigger] aliases@[i]@) == listed(
            entries_view(e@)[i].1,
            "ids"@,
            "IDS"@,
        ),
    ensures
        match r {
            Some(j) => j < e@.len() && lookup(entries_view(e@), name@, e@.len() as int) == j,
            None => lookup(entries_view(e@), name@, e@.len() as int) == -1,
        },
{
    let ghost ev = entries_view(e@);
    let mut j = e.len();
    while j > 0
        invariant
            ev == entries_view(e@),
            aliases@.len() == e@.len(),
            forall|i: int| 0 <= i < e@.len() ==> texts_of(#[trigger] aliases@[i]@) == listed(
                ev[i].1,
                "ids"@,
                "IDS"@,
            ),
            j <= e@.len(),
            lookup(ev, name@, e@.len() as int) == lookup(ev, name@, j as int),
        decreases j,
    {
        assert(texts_of(aliases@[j - 1]@) == listed(ev[j - 1].1, "ids"@, "IDS"@));
        if text_eq(e[j - 1].0.as_str(), name) || contains_text(&aliases[j - 1], name) {
            return Some(j - 1);
        }
        j = j - 1;
    }
    None
}

/// The graph from each entry to the entries its links point to.
fn build_link_graph(e: &Vec<(String, Vec<(String, Vec<(bool, String)>)>)>) -> (r: Vec<Vec<usize>>)
    ensures
        r@.len() == e@.len(),
        succ_view(r@) == link_graph(entries_view(e@)),
        forall|i: int, k: int| 0 <= i < r@.len() && 0 <= k < r@[i]@.len() ==> r@[i]@[k] < r@.len(),
{
    proof {
        reveal_strlit("crossref");
        reveal_strlit("CROSSREF");
        reveal_strlit("xdata");
        reveal_strlit("XDATA");
        reveal_strlit("ids");
        reveal_strlit("IDS");
    }
    let ghost ev = entries_view(e@);
    let mut aliases: Vec<Vec<String>> = Vec::new();
    let mut i: usize = 0;
    while i < e.len()
        invariant
            ev == entries_view(e@),
            i <= e@.len(),
            aliases@.len() == i,
            "ids"@.len() == "IDS"@.len(),
            forall|m: int| 0 <= m < i ==> texts_of(#[trigger] aliases@[m]@) == listed(ev[m].1, "ids"@, "IDS"@),
        decreases e@.len() - i,
    {
        aliases.push(listed_exec(&e[i].1, "ids", "IDS"));
        i = i + 1;
    }
    let mut g: Vec<Vec<usize>> = Vec::new();
    let mut i: usize = 0;
    while i < e.len()
        invariant
            ev == entries_view(e@),
            i <= e@.len(),
            aliases@.len() == e@.len(),
            forall|m: int| 0 <= m < e@.len() ==> texts_of(#[trigger] aliases@[m]@) == listed(ev[m].1, "ids"@, "IDS"@),
            "crossref"@.len() == "CROSSREF"@.len(),
            "xdata"@.len() == "XDATA"@.len(),
            g@.len() == i,
            forall|m: int| 0 <= m < i ==> #[trigger] succ_view(g@)[m] == lookup_all(ev, link_targets(ev[m].1)),
            forall|m: int, k: int| 0 <= m < i && 0 <= k < g@[m]@.len() ==> g@[m]@[k] < e@.len(),
        decreases e@.len() - i,
    {
        let d = &e[i].1;
        let ghost dv = ev[i as int].1;
        assert(dv == defs_view(d@));
        let ghost cpart = match field_value(dv, "crossref"@, "CROSSREF"@) {
            Some(p) => match literal(p) {
                Some(t) => seq![t],
                None => Seq::<Seq<char>>::empty(),
            },
            None => Seq::<Seq<char>>::empty(),
        };
        let mut targets: Vec<String> = Vec::new();
        match find_last_field(d, "crossref", "CROSSREF") {
            Some(j) => {
                assert(defs_view(d@)[j as int].1 == parts_view(d@[j as int].1@));
                match literal_exec(&d[j].1) {
                    Some(t) => {
                        targets.push(String::from_str(t));
                        assert(texts_of(targets@) =~= cpart);
                    },
                    None => {
                        assert(texts_of(targets@) =~= cpart);
                    },
                }
            },
            None => {
                assert(texts_of(targets@) =~= cpart);
            },
        }
        let more = listed_exec(d, "xdata", "XDATA");
        let mut k: usize = 0;
        while k < more.len()
            invariant
                k <= more@.len(),
                texts_of(targets@) == cpart + texts_of(more@).take(k as int),
            decreases more@.len() - k,
        {
            let ghost old_t = targets@;
            targets.push(String::from_str(more[k].as_str()));
            assert(texts_of(targets@) =~= texts_of(old_t).push(more@[k as int]@));
            assert(texts_of(more@).take(k + 1) =~= texts_of(more@).take(k as int).push(more@[k as int]@));
            assert(cpart + texts_of(more@).take(k + 1) =~= (cpart + texts_of(more@).take(k as int)).push(more@[k as int]@));
            k = k + 1;
        }
        assert(texts_of(more@).take(more@.len() as int) =~= texts_of(more@));
        assert(texts_of(targets@) == link_targets(dv));
        let ghost ts = texts_of(targets@);
        let mut out: Vec<usize> = Vec::new();
        let mut k: usize = 0;
        while k < targets.len()
            invariant
                ev == entries_view(e@),
                aliases@.len() == e@.len(),
                forall|m: int| 0 <= m < e@.len() ==> texts_of(#[trigger] aliases@[m]@) == listed(ev[m].1, "ids"@, "IDS"@),
                ts == texts_of(targets@),
                k <= targets@.len(),
                out@.map_values(|j: usize| j as int) == lookup_all(ev, ts.take(k as int)),
                forall|m: int| 0 <= m < out@.len() ==> out@[m] < e@.len(),
            decreases targets@.len() - k,
        {
            assert(ts.take(k + 1).drop_last() =~= ts.take(k as int));
            assert(ts.take(k + 1).last() == targets@[k as int]@);
            match lookup_exec(e, &aliases, targets[k].as_str()) {
                Some(j) => {
                    out.push(j);
                    assert(out@.map_values(|j: usize| j as int) =~= lookup_all(ev, ts.take(k as int)).push(j as int));
                },
                None => {},
            }
            k = k + 1;
        }
        assert(ts.take(targets@.len() as int) =~= ts);
        let ghost old_g = g@;
        g.push(out);
        assert forall|m: int| 0 <= m <= i implies #[trigger] succ_view(g@)[m] == lookup_all(
            ev,
            link_targets(ev[m].1),
        ) by {
            if m < i {
                assert(g@[m] == old_g[m]);
                assert(succ_view(old_g)[m] == old_g[m]@.map_values(|j: usize| j as int));
            }
        }
        i = i + 1;
    }
    assert(succ_view(g@) =~= link_graph(ev));
    g
}

/// Whether an entry carries a link field.
fn has_link_exec(d: &Vec<(String, Vec<(bool, String)>)>) -> (r: bool)
    ensures
        r == has_link(defs_view(d@)),
{
    proof {
        reveal_strlit("crossref");
        reveal_strlit("CROSSREF");
        reveal_strlit("xdata");
        reveal_strlit("XDATA");
    }
    find_last_field(d, "crossref", "CROSSREF").is_some() || find_last_field(d, "xdata", "XDATA").is_some()
}

/// Whether a field, where present, holds plain literal text.
fn literal_if_present(d: &Vec<(String, Vec<(bool, String)>)>, lower: &str, upper: &str) -> (r: bool)
    requires
        lower@.len() == upper@.len(),
    ensures
        r == (field_value(defs_view(d@), lower@, upper@) matches Some(p) ==> literal(p) is Some),
{
    match find_last_field(d, lower, upper) {
        Some(j) => {
            assert(defs_view(d@)[j as int].1 == parts_view(d@[j as int].1@));
            literal_exec(&d[j].1).is_some()
        },
        None => true,
    }
}

/// Whether resolving the entries' links ends.
pub fn check_links(e: &Vec<(String, Vec<(String, Vec<(bool, String)>)>)>) -> (r: bool)
    ensures
        r == links_end(entries_view(e@)),
{
    proof {
        reveal_strlit("crossref");
        reveal_strlit("CROSSREF");
        reveal_strlit("xdata");
        reveal_strlit("XDATA");
        reveal_strlit("ids");
        reveal_strlit("IDS");
    }
    let ghost ev = entries_view(e@);
    let mut i: usize = 0;
    let mut linked: Option<usize> = None;
    while i < e.len()
        invariant
            ev == entries_view(e@),
            i <= e@.len(),
            match linked {
                Some(x) => x < e@.len() && has_link(ev[x as int].1),
                None => forall|m: int| 0 <= m < i ==> !has_link(#[trigger] ev[m].1),
            },
        decreases e@.len() - i,
    {
        if linked.is_none() && has_link_exec(&e[i].1) {
            linked = Some(i);
        }
        i = i + 1;
    }
    let x = match linked {
        Some(x) => x,
        None => return true,
    };
    let mut i: usize = 0;
    while i < e.len()
        invariant
            ev == entries_view(e@),
            i <= e@.len(),
            "crossref"@.len() == "CROSSREF"@.len(),
            "xdata"@.len() == "XDATA"@.len(),
            "ids"@.len() == "IDS"@.len(),
            forall|m: int| 0 <= m < i ==> links_literal(#[trigger] ev[m].1),
            x < e@.len(),
            has_link(ev[x as int].1),
        decreases e@.len() - i,
    {
        let d = &e[i].1;
        if !literal_if_present(d, "crossref", "CROSSREF") || !literal_if_present(d, "xdata", "XDATA")
            || !literal_if_present(d, "ids", "IDS") {
            assert(!links_literal(ev[i as int].1));
            assert(has_link(ev[x as int].1));
            return false;
        }
        i = i + 1;
    }
    let g = build_link_graph(e);
    let ok = grounded_nodes(&g);
    let mut i: usize = 0;
    while i < e.len()
        invariant
            ev == entries_view(e@),
            i <= e@.len(),
            succ_view(g@) == link_graph(ev),
            ok@.len() == g@.len(),
            g@.len() == e@.len(),
            forall|m: int| 0 <= m < g@.len() ==> (ok@[m] <==> grounded(succ_view(g@), m)),
            forall|m: int| 0 <= m < i ==> grounded(link_graph(ev), m),
            forall|m: int| 0 <= m < e@.len() ==> links_literal(#[trigger] ev[m].1),
            x < e@.len(),
            has_link(ev[x as int].1),
        decreases e@.len() - i,
    {
        if !ok[i] {
            assert(!grounded(link_graph(ev), i as int));
            assert(has_link(ev[x as int].1));
            return false;
        }
        i = i + 1;
    }
    true
}

} // verus!

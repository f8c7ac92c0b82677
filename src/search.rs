//! Reading and ranking the package manager's search listing.
//!
//! A listing holds, for each package, a header line (`repo/name version
//! ...`) followed by an indented description line. Each entry is scored
//! against the query: an exact name scores highest, then a name that starts
//! with the query, a name that contains it, and a description that contains
//! it; the comparison ignores case. Entries are ranked by score, highest
//! first, keeping listing order among equal scores.

use vstd::prelude::*;

use crate::text::{
    char_pos, chars_of, contains_chars, contains_seq, find_char, is_blank, lines_of, skip_whitespace,
    skip_ws, slice_chars, split_lines, starts_with_chars, string_of, trim_chars, trimmed, word_at,
    word_end, word_range,
};

verus! {

/// What `str::to_lowercase` makes of a string.
pub uninterp spec fn lower_of(s: Seq<char>) -> Seq<char>;

/// Relies on `str::to_lowercase`: the lowercase form of `s`, which depends
/// on its characters alone.
#[verifier::external_body]
fn lowercase(s: &str) -> (r: String)
    ensures
        r@ == lower_of(s@),
{
    s.to_lowercase()
}

/// One package of a search listing, with its relevance to the query.
#[derive(Debug)]
pub struct SearchResult {
    pub score: u8,
    pub name: String,
    pub version: String,
    pub description: String,
}

pub struct EntryView {
    pub score: u8,
    pub name: Seq<char>,
    pub version: Seq<char>,
    pub description: Seq<char>,
}

impl View for SearchResult {
    type V = EntryView;

    open spec fn view(&self) -> EntryView {
        EntryView {
            score: self.score,
            name: self.name@,
            version: self.version@,
            description: self.description@,
        }
    }
}

pub open spec fn entry_views(v: Seq<SearchResult>) -> Seq<EntryView> {
    v.map_values(|e: SearchResult| e@)
}

/// Scores of a name and description against a query, all three already in
/// lowercase.
pub open spec fn spec_relevance(query: Seq<char>, name: Seq<char>, description: Seq<char>) -> u8 {
    if name == query {
        100
    } else if query.is_prefix_of(name) {
        80
    } else if contains_seq(name, query) {
        50
    } else if contains_seq(description, query) {
        10
    } else {
        0
    }
}

/// The package name in the first word of a header line: what follows the
/// repository and its slash, up to any further slash; the whole word when
/// it holds no slash.
pub open spec fn app_name(word: Seq<char>) -> Seq<char> {
    let k = char_pos(word, '/', 0);
    if k >= word.len() {
        word
    } else {
        word.subrange(k + 1, char_pos(word, '/', k + 1))
    }
}

/// Whether a line starts an entry: it is not blank and holds a slash.
pub open spec fn is_header(line: Seq<char>) -> bool {
    !is_blank(line) && char_pos(line, '/', 0) < line.len()
}

/// The entry whose header is line `i`.
pub open spec fn entry_at(lines: Seq<Seq<char>>, i: int, query: Seq<char>) -> EntryView {
    let line = lines[i];
    let name = app_name(word_at(line, 0));
    let version = word_at(line, word_end(line, skip_ws(line, 0)));
    let description = if i < lines.len() - 1 {
        trimmed(lines[i + 1])
    } else {
        Seq::empty()
    };
    EntryView {
        score: spec_relevance(lower_of(query), lower_of(name), lower_of(description)),
        name,
        version,
        description,
    }
}

/// The entries of the listing from line `i` on, in listing order: a header
/// line and the line after it make one entry; other lines are skipped.
pub open spec fn entries_from(lines: Seq<Seq<char>>, i: int, query: Seq<char>) -> Seq<EntryView>
    decreases lines.len() + 1 - i,
{
    if i < 0 || i >= lines.len() {
        Seq::empty()
    } else if is_header(lines[i]) {
        seq![entry_at(lines, i, query)] + entries_from(lines, i + 2, query)
    } else {
        entries_from(lines, i + 1, query)
    }
}

/// The entries with the given score, in order.
pub open spec fn with_score(v: Seq<EntryView>, s: u8) -> Seq<EntryView>
    decreases v.len(),
{
    if v.len() == 0 {
        Seq::empty()
    } else {
        let earlier = with_score(v.drop_last(), s);
        if v.last().score == s {
            earlier.push(v.last())
        } else {
            earlier
        }
    }
}

/// The entries with scores from `s` down to 0: highest score first, in
/// their original order among equal scores.
pub open spec fn ranked_from(v: Seq<EntryView>, s: int) -> Seq<EntryView>
    decreases s + 1,
{
    if s < 0 {
        Seq::empty()
    } else {
        with_score(v, s as u8) + ranked_from(v, s - 1)
    }
}

/// Entries ranked by score, highest first, in their original order among
/// equal scores.
pub open spec fn ranked(v: Seq<EntryView>) -> Seq<EntryView> {
    ranked_from(v, 255)
}

/// The relevance of a package to a query, given the lowercase forms of the
/// query, the package name and its description.
pub fn relevance_of_lowered(query: &str, name: &str, description: &str) -> (r: u8)
    ensures
        r == spec_relevance(query@, name@, description@),
{
    let q = chars_of(query);
    let n = chars_of(name);
    if n.len() == q.len() && starts_with_chars(&n, &q) {
        assert(n@ =~= q@);
        return 100;
    }
    if starts_with_chars(&n, &q) {
        assert(n@ != q@);
        return 80;
    }
    assert(n@ != q@) by {
        if n@ == q@ {
            assert(n@.subrange(0, q@.len() as int) =~= n@);
        }
    }
    if contains_chars(&n, &q) {
        return 50;
    }
    let d = chars_of(description);
    if contains_chars(&d, &q) {
        10
    } else {
        0
    }
}

/// The relevance of a package to a query, ignoring case.
pub fn relevance(query: &str, name: &str, description: &str) -> (r: u8)
    ensures
        r == spec_relevance(lower_of(query@), lower_of(name@), lower_of(description@)),
{
    let q = lowercase(query);
    let n = lowercase(name);
    let d = lowercase(description);
    relevance_of_lowered(q.as_str(), n.as_str(), d.as_str())
}

/// The package name in a header word.
fn app_name_of(word: &Vec<char>) -> (r: String)
    ensures
        r@ == app_name(word@),
{
    let k = find_char(word, '/', 0);
    if k >= word.len() {
        string_of(word, 0, word.len())
    } else {
        let end = find_char(word, '/', k + 1);
        string_of(word, k + 1, end)
    }
}

fn entry(lines: &Vec<Vec<char>>, i: usize, query: &str) -> (r: SearchResult)
    requires
        i < lines@.len(),
    ensures
        r@ == entry_at(lines@.map_values(|v: Vec<char>| v@), i as int, query@),
{
    let ghost views = lines@.map_values(|v: Vec<char>| v@);
    let line = &lines[i];
    let (b, e) = word_range(line, 0);
    let word = slice_chars(line, b, e);
    let name = app_name_of(&word);
    let (vb, ve) = word_range(line, e);
    let version = string_of(line, vb, ve);
    let description = if i < lines.len() - 1 {
        trim_chars(&lines[i + 1])
    } else {
        String::new()
    };
    let score = relevance(query, name.as_str(), description.as_str());
    assert(views[i as int] == line@);
    SearchResult { score, name, version, description }
}

/// The entries of a listing split into lines, in listing order.
fn entries(lines: &Vec<Vec<char>>, query: &str) -> (r: Vec<SearchResult>)
    ensures
        entry_views(r@) == entries_from(lines@.map_values(|v: Vec<char>| v@), 0, query@),
{
    let ghost views = lines@.map_values(|v: Vec<char>| v@);
    let mut out: Vec<SearchResult> = Vec::new();
    let n = lines.len();
    let mut i: usize = 0;
    while i < n
        invariant
            n == lines@.len(),
            views == lines@.map_values(|v: Vec<char>| v@),
            entry_views(out@) + entries_from(views, i as int, query@) == entries_from(views, 0, query@),
        decreases n - i,
    {
        let line = &lines[i];
        assert(views[i as int] == line@);
        let blank = skip_whitespace(line, 0) == line.len();
        let slash = find_char(line, '/', 0) < line.len();
        if !blank && slash {
            let ghost before = entry_views(out@);
            let e = entry(lines, i, query);
            out.push(e);
            assert(entry_views(out@) =~= before.push(e@));
            assert(entries_from(views, i as int, query@) =~= seq![e@] + entries_from(views, i + 2, query@));
            assert(before.push(e@) + entries_from(views, i + 2, query@) =~= before + (seq![e@]
                + entries_from(views, i + 2, query@)));
            if n - i <= 2 {
                assert(entries_from(views, i + 2, query@) =~= Seq::<EntryView>::empty());
                assert(entries_from(views, n as int, query@) =~= Seq::<EntryView>::empty());
                i = n;
            } else {
                i += 2;
            }
        } else {
            i += 1;
        }
    }
    assert(entries_from(views, n as int, query@) =~= Seq::<EntryView>::empty());
    assert(entry_views(out@) + Seq::<EntryView>::empty() =~= entry_views(out@));
    out
}

/// Appends to `out`, in order, the entries of `v` with score `s`.
fn append_with_score(v: &Vec<SearchResult>, s: u8, out: &mut Vec<SearchResult>)
    ensures
        entry_views(final(out)@) == entry_views(old(out)@) + with_score(entry_views(v@), s),
{
    let ghost start = entry_views(out@);
    let ghost views = entry_views(v@);
    let n = v.len();
    let mut i: usize = 0;
    assert(views.take(0) =~= Seq::<EntryView>::empty());
    while i < n
        invariant
            n == v@.len(),
            views == entry_views(v@),
            i <= n,
            entry_views(out@) == start + with_score(views.take(i as int), s),
        decreases n - i,
    {
        let e = &v[i];
        assert(views.take(i as int + 1).drop_last() =~= views.take(i as int));
        assert(views.take(i as int + 1).last() == e@);
        if e.score == s {
            let ghost before = entry_views(out@);
            out.push(
                SearchResult {
                    score: e.score,
                    name: e.name.clone(),
                    version: e.version.clone(),
                    description: e.description.clone(),
                },
            );
            assert(entry_views(out@) =~= before.push(e@));
        }
        i += 1;
    }
    assert(views.take(n as int) =~= views);
}

/// Entries ranked by score, highest first, in their original order among
/// equal scores.
pub fn rank(v: &Vec<SearchResult>) -> (r: Vec<SearchResult>)
    ensures
        entry_views(r@) == ranked(entry_views(v@)),
{
    let ghost views = entry_views(v@);
    let mut out: Vec<SearchResult> = Vec::new();
    let mut s: u8 = 255;
    assert(entry_views(out@) =~= Seq::<EntryView>::empty());
    loop
        invariant
            views == entry_views(v@),
            entry_views(out@) + ranked_from(views, s as int) == ranked(views),
        decreases s,
    {
        let ghost before = entry_views(out@);
        append_with_score(v, s, &mut out);
        assert(before + ranked_from(views, s as int) =~= before + with_score(views, s) + ranked_from(
            views,
            s - 1,
        ));
        if s == 0 {
            assert(ranked_from(views, -1) =~= Seq::<EntryView>::empty());
            assert(entry_views(out@) =~= entry_views(out@) + ranked_from(views, -1));
            return out;
        }
        s -= 1;
    }
}

/// The packages of a search listing, ranked by their relevance to `query`.
pub fn search_results(listing: &str, query: &str) -> (r: Vec<SearchResult>)
    ensures
        entry_views(r@) == ranked(entries_from(lines_of(listing@), 0, query@)),
{
    let lines = split_lines(listing);
    let found = entries(&lines, query);
    rank(&found)
}

/// `s` with every `from` replaced by `to`.
pub open spec fn replace_char(s: Seq<char>, from: char, to: char) -> Seq<char> {
    s.map_values(|c: char| if c == from { to } else { c })
}

fn replaced(s: &str, from: char, to: char) -> (r: String)
    ensures
        r@ == replace_char(s@, from, to),
{
    let cs = chars_of(s);
    let mut out: Vec<char> = Vec::new();
    let n = cs.len();
    let mut i: usize = 0;
    while i < n
        invariant
            n == cs@.len(),
            i <= n,
            out@ == replace_char(cs@.take(i as int), from, to),
        decreases n - i,
    {
        let c = cs[i];
        out.push(if c == from { to } else { c });
        assert(out@ =~= replace_char(cs@.take(i as int + 1), from, to));
        i += 1;
    }
    assert(cs@.take(n as int) =~= cs@);
    string_of(&out, 0, out.len())
}

/// The query handed to the package manager for what the user typed: none
/// for empty input, and otherwise the text with each space made a dash.
pub fn backend_query(typed: &str) -> (r: Option<String>)
    ensures
        typed@.len() == 0 <==> r is None,
        r matches Some(q) ==> q@ == replace_char(typed@, ' ', '-'),
{
    if typed.is_empty() {
        None
    } else {
        Some(replaced(typed, ' ', '-'))
    }
}

/// How a package name is shown: each dash made a space.
pub fn display_name(name: &str) -> (r: String)
    ensures
        r@ == replace_char(name@, '-', ' '),
{
    replaced(name, '-', ' ')
}

} // verus!

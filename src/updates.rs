//! Reading the package manager's list of pending updates.
//!
//! Each line names a package, its installed version, an arrow and the
//! version it would update to (`name 1.0-1 -> 1.1-1`). Lines with fewer than
//! four words are counted but describe no update.

use vstd::prelude::*;

use crate::text::{lines_of, skip_ws, split_lines, string_of, word_at, word_end, word_range};

verus! {

/// A package that can be updated.
#[derive(Debug)]
pub struct PendingUpdate {
    pub name: String,
    pub old_version: String,
    pub new_version: String,
}

pub struct PendingView {
    pub name: Seq<char>,
    pub old_version: Seq<char>,
    pub new_version: Seq<char>,
}

impl View for PendingUpdate {
    type V = PendingView;

    open spec fn view(&self) -> PendingView {
        PendingView {
            name: self.name@,
            old_version: self.old_version@,
            new_version: self.new_version@,
        }
    }
}

pub open spec fn pending_views(v: Seq<PendingUpdate>) -> Seq<PendingView> {
    v.map_values(|u: PendingUpdate| u@)
}

/// The position just after the first `k` words of `line`.
pub open spec fn after_words(line: Seq<char>, k: nat) -> int
    decreases k,
{
    if k == 0 {
        0
    } else {
        word_end(line, skip_ws(line, after_words(line, (k - 1) as nat)))
    }
}

/// Word `k` of `line`, counting from 0; empty when the line has fewer words.
pub open spec fn nth_word(line: Seq<char>, k: nat) -> Seq<char> {
    word_at(line, after_words(line, k))
}

/// The update that a line describes, if it has at least four words.
pub open spec fn update_of(line: Seq<char>) -> Option<PendingView> {
    if nth_word(line, 3).len() > 0 {
        Some(PendingView { name: nth_word(line, 0), old_version: nth_word(line, 1), new_version: nth_word(line, 3) })
    } else {
        None
    }
}

/// The updates that the lines describe, in order.
pub open spec fn updates_of(lines: Seq<Seq<char>>) -> Seq<PendingView>
    decreases lines.len(),
{
    if lines.len() == 0 {
        Seq::empty()
    } else {
        let earlier = updates_of(lines.drop_last());
        match update_of(lines.last()) {
            Some(u) => earlier.push(u),
            None => earlier,
        }
    }
}

/// The update that a line describes, if any.
fn update_line(line: &Vec<char>) -> (r: Option<PendingUpdate>)
    ensures
        match r {
            Some(u) => update_of(line@) == Some(u@),
            None => update_of(line@) is None,
        },
{
    let (b0, e0) = word_range(line, 0);
    let (b1, e1) = word_range(line, e0);
    let (b2, e2) = word_range(line, e1);
    let (b3, e3) = word_range(line, e2);
    assert(after_words(line@, 1) == e0);
    assert(after_words(line@, 2) == e1);
    assert(after_words(line@, 3) == e2);
    if b3 == e3 {
        return None;
    }
    Some(
        PendingUpdate {
            name: string_of(line, b0, e0),
            old_version: string_of(line, b1, e1),
            new_version: string_of(line, b3, e3),
        },
    )
}

/// The updates that a listing of pending updates describes, in order.
pub fn pending_updates(listing: &str) -> (r: Vec<PendingUpdate>)
    ensures
        pending_views(r@) == updates_of(lines_of(listing@)),
{
    let lines = split_lines(listing);
    let ghost views = lines@.map_values(|v: Vec<char>| v@);
    let mut out: Vec<PendingUpdate> = Vec::new();
    let n = lines.len();
    let mut i: usize = 0;
    assert(views.take(0) =~= Seq::<Seq<char>>::empty());
    while i < n
        invariant
            n == lines@.len(),
            i <= n,
            views == lines@.map_values(|v: Vec<char>| v@),
            pending_views(out@) == updates_of(views.take(i as int)),
        decreases n - i,
    {
        assert(views.take(i as int + 1).drop_last() =~= views.take(i as int));
        assert(views.take(i as int + 1).last() == lines@[i as int]@);
        let ghost before = pending_views(out@);
        match update_line(&lines[i]) {
            Some(u) => {
                out.push(u);
                assert(pending_views(out@) =~= before.push(u@));
            },
            None => {},
        }
        i += 1;
    }
    assert(views.take(n as int) =~= views);
    out
}

/// How many lines a listing of pending updates has.
pub fn update_count(listing: &str) -> (r: usize)
    ensures
        r == lines_of(listing@).len(),
{
    let lines = split_lines(listing);
    lines.len()
}

} // verus!

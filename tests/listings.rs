use app_center::search::{
    backend_query, display_name, rank, relevance, relevance_of_lowered, search_results, SearchResult,
};
use app_center::text::{is_whitespace, split_lines};
use app_center::updates::{pending_updates, update_count};

const LISTING: &str = "extra/nano 7.2-1\n    Pico editor clone with enhancements\n\
extra/gvim 9.1.0-1\n    Vi Improved, with a graphical interface\n\
extra/vim 9.1.0-1 [installed]\n    Vi Improved, a highly configurable text editor\n\
extra/ed 1.20-1\n    A line editor that vim grew out of\n\
extra/vim-airline 0.11-5\n    Lean & mean status line\n\
core/neovim 0.9.5-1\n    Fork of Vim aiming to improve user experience\n";

fn names(results: &[SearchResult]) -> Vec<&str> {
    results.iter().map(|r| r.name.as_str()).collect()
}

#[test]
fn search_results_are_ranked_by_relevance() {
    let results = search_results(LISTING, "vim");
    assert_eq!(names(&results), vec!["vim", "vim-airline", "gvim", "neovim", "ed", "nano"]);
    let scores: Vec<u8> = results.iter().map(|r| r.score).collect();
    assert_eq!(scores, vec![100, 80, 50, 50, 10, 0]);
    assert_eq!(results[0].version, "9.1.0-1");
    assert_eq!(results[0].description, "Vi Improved, a highly configurable text editor");
}

#[test]
fn search_ignores_case() {
    let results = search_results(LISTING, "VIM");
    assert_eq!(results[0].name, "vim");
    assert_eq!(results[0].score, 100);
    assert_eq!(relevance("Vim", "VIM", ""), 100);
    assert_eq!(relevance_of_lowered("Vim", "vim", ""), 0);
}

#[test]
fn relevance_scores() {
    assert_eq!(relevance_of_lowered("vim", "vim", ""), 100);
    assert_eq!(relevance_of_lowered("vim", "vimb", ""), 80);
    assert_eq!(relevance_of_lowered("vim", "neovim", ""), 50);
    assert_eq!(relevance_of_lowered("vim", "ed", "like vim"), 10);
    assert_eq!(relevance_of_lowered("vim", "ed", "editor"), 0);
    assert_eq!(relevance_of_lowered("", "ed", ""), 80);
    assert_eq!(relevance_of_lowered("", "", ""), 100);
}

#[test]
fn blank_and_slashless_lines_are_skipped() {
    let text = "\n   \n:: Synchronizing\ncore/zsh 5.9-5\n  A shell\n";
    let results = search_results(text, "zsh");
    assert_eq!(results.len(), 1);
    assert_eq!(results[0].name, "zsh");
    assert_eq!(results[0].version, "5.9-5");
    assert_eq!(results[0].description, "A shell");
}

#[test]
fn header_without_description_and_odd_names() {
    let text = "x y/z\r\n  first\r\nextra/a/b 1\n  desc  \nlast/pkg";
    let results = search_results(text, "q");
    assert_eq!(names(&results), vec!["x", "a", "pkg"]);
    assert_eq!(results[0].version, "y/z");
    assert_eq!(results[0].description, "first");
    assert_eq!(results[1].description, "desc");
    assert_eq!(results[2].version, "");
    assert_eq!(results[2].description, "");
}

#[test]
fn description_line_is_taken_even_when_it_looks_like_a_header() {
    let text = "core/a 1\ncore/b 2\ncore/c 3\n";
    let results = search_results(text, "zzz");
    assert_eq!(names(&results), vec!["a", "c"]);
    assert_eq!(results[0].description, "core/b 2");
}

#[test]
fn empty_listing_has_no_results() {
    assert!(search_results("", "vim").is_empty());
}

#[test]
fn ranking_keeps_listing_order_among_equal_scores() {
    let make = |score: u8, name: &str| SearchResult {
        score,
        name: name.to_string(),
        version: String::new(),
        description: String::new(),
    };
    let v = vec![make(10, "a"), make(100, "b"), make(10, "c"), make(50, "d"), make(100, "e")];
    assert_eq!(names(&rank(&v)), vec!["b", "e", "d", "a", "c"]);
    let w = vec![make(0, "z"), make(7, "y"), make(255, "x"), make(7, "w")];
    assert_eq!(names(&rank(&w)), vec!["x", "y", "w", "z"]);
    assert!(rank(&Vec::new()).is_empty());
}

#[test]
fn typed_query_becomes_dashed() {
    assert!(backend_query("").is_none());
    assert_eq!(backend_query("visual studio code").as_deref(), Some("visual-studio-code"));
    assert_eq!(backend_query("vim").as_deref(), Some("vim"));
    assert_eq!(display_name("vim-airline-themes"), "vim airline themes");
}

#[test]
fn lines_split_as_the_standard_library_does() {
    let cases = ["", "\n", "a", "a\n", "a\r\nb", "a\rb\n", "a\n\nb\r", "x\r\n\r\n"];
    for text in cases {
        let ours: Vec<String> = split_lines(text).into_iter().map(|l| l.into_iter().collect()).collect();
        let std: Vec<String> = text.lines().map(|l| l.to_string()).collect();
        assert_eq!(ours, std, "for {:?}", text);
    }
}

#[test]
fn pending_updates_need_four_words() {
    let text = "linux 6.9.1-1 -> 6.9.2-1\nbroken line\n  vim   9.0-1  ->  9.1-1  \nfoo 1 -> 2 [ignored]\n";
    let ups = pending_updates(text);
    assert_eq!(ups.len(), 3);
    assert_eq!(ups[0].name, "linux");
    assert_eq!(ups[0].old_version, "6.9.1-1");
    assert_eq!(ups[0].new_version, "6.9.2-1");
    assert_eq!(ups[1].name, "vim");
    assert_eq!(ups[1].new_version, "9.1-1");
    assert_eq!(ups[2].new_version, "2");
    assert_eq!(update_count(text), 4);
}

#[test]
fn no_pending_updates() {
    assert_eq!(update_count(""), 0);
    assert!(pending_updates("").is_empty());
    assert!(pending_updates("a b c\n").is_empty());
}

#[test]
fn whitespace_is_what_the_standard_library_says() {
    for c in (0u32..0x11_0000).filter_map(char::from_u32) {
        assert_eq!(is_whitespace(c), c.is_whitespace(), "for {:?}", c);
    }
}

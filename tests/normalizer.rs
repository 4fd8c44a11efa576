use fixnames::normalize::{normalize, normalize_lowered, tidy_name};
use fixnames::text::{matches_at, replace_all, replace_suffix};

fn norm(s: &str) -> Option<String> {
    normalize(s)
}

#[test]
fn spaces_and_underscores_become_hyphens() {
    assert_eq!(norm("My Book_Title.pdf"), Some("my-book-title.pdf".to_string()));
}

#[test]
fn worked_example_follows_pipeline_order() {
    assert_eq!(
        norm("Author, Name - Title-epub.epub"),
        Some("author,name--title.epub".to_string())
    );
}

#[test]
fn zlib_tag_is_stripped() {
    assert_eq!(norm("Book-(z-lib.org).pdf"), Some("book.pdf".to_string()));
}

#[test]
fn canonical_name_is_unchanged() {
    assert_eq!(norm("already-lowercase.txt"), None);
}

#[test]
fn empty_name_is_unchanged() {
    assert_eq!(norm(""), None);
}

#[test]
fn single_pass_leaves_residual_double_hyphen() {
    let first = norm("a----b").unwrap();
    assert_eq!(first, "a--b");
    let second = norm(&first).unwrap();
    assert_eq!(second, "a-b");
    assert_eq!(norm(&second), None);
}

#[test]
fn long_hyphen_runs_take_several_passes() {
    let first = norm("a--------b").unwrap();
    assert_eq!(first, "a----b");
    let second = norm(&first).unwrap();
    assert_eq!(second, "a--b");
    let third = norm(&second).unwrap();
    assert_eq!(third, "a-b");
    assert_eq!(norm(&third), None);
}

#[test]
fn residue_from_tag_removal_changes_again() {
    let first = norm("a,--(z-lib.org)-b").unwrap();
    assert_eq!(first, "a,-b");
    assert_eq!(norm(&first), Some("a,b".to_string()));
}

#[test]
fn second_pass_on_clean_candidate_is_unchanged() {
    let first = norm("My Book_Title.pdf").unwrap();
    assert_eq!(norm(&first), None);
    let first = norm("Tom & Jerry.txt").unwrap();
    assert_eq!(first, "tom-and-jerry.txt");
    assert_eq!(norm(&first), None);
}

#[test]
fn ampersand_entity_and_bare_ampersand() {
    assert_eq!(norm("a&amp;b"), Some("aandb".to_string()));
    assert_eq!(norm("a&b"), Some("aandb".to_string()));
}

#[test]
fn comma_hyphen_is_fixed_once() {
    assert_eq!(norm("a, b"), Some("a,b".to_string()));
    assert_eq!(norm("a, -b"), Some("a,-b".to_string()));
}

#[test]
fn epub_tail_only_when_trailing() {
    assert_eq!(norm("x-epub.epub"), Some("x.epub".to_string()));
    assert_eq!(norm("x-epub.epub.txt"), None);
}

#[test]
fn lowercasing_reaches_non_ascii() {
    assert_eq!(norm("ÄB.txt"), Some("äb.txt".to_string()));
    assert_eq!(norm("README"), Some("readme".to_string()));
}

#[test]
fn lowered_form_is_taken_as_given() {
    assert_eq!(normalize_lowered("X Y", "x y"), Some("x-y".to_string()));
    assert_eq!(normalize_lowered("x-y", "x y"), None);
    assert_eq!(normalize_lowered("ABC", "abc"), Some("abc".to_string()));
}

#[test]
fn pipeline_on_lowered_text() {
    assert_eq!(tidy_name("a_b c&d-(z-lib.org)-epub.epub"), "a-b-candd.epub");
}

#[test]
fn replace_all_is_left_to_right_and_non_overlapping() {
    assert_eq!(replace_all("aaa", "aa", "b"), "ba");
    assert_eq!(replace_all("---", "--", "-"), "--");
    assert_eq!(replace_all("abc", "x", "y"), "abc");
    assert_eq!(replace_all("", "x", "y"), "");
    assert_eq!(replace_all("héllo wörld", " ", "_"), "héllo_wörld");
}

#[test]
fn replace_suffix_only_at_end() {
    assert_eq!(replace_suffix("a.tar.gz", ".gz", ".z"), "a.tar.z");
    assert_eq!(replace_suffix("a.gz.tar", ".gz", ".z"), "a.gz.tar");
    assert_eq!(replace_suffix("gz", ".gz", ".z"), "gz");
}

#[test]
fn matches_at_positions() {
    assert!(matches_at("abcd", "cd", 2));
    assert!(!matches_at("abcd", "cd", 1));
    assert!(!matches_at("abcd", "cde", 2));
    assert!(matches_at("abcd", "", 4));
}

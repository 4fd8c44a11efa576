//! The name normalizer: a fixed pipeline of substitutions applied to the
//! lowercased name, and the laws it obeys.
use crate::outside::{lower_of, lowercase};
use crate::text::{
    ends_with, lemma_missing_char_blocks, lemma_replaced_absent, lemma_replaced_clears_char,
    lemma_replaced_keeps_absent, lemma_replaced_len, lemma_suffix_replaced_keeps_absent, occurs,
    replace_all, replace_suffix, replaced, suffix_replaced,
};
use vstd::prelude::*;

verus! {

/// `&amp;`
pub open spec fn amp_entity() -> Seq<char> {
    seq!['&', 'a', 'm', 'p', ';']
}

/// `and`
pub open spec fn and_word() -> Seq<char> {
    seq!['a', 'n', 'd']
}

/// `-(z-lib.org)`, left in names by one download source.
pub open spec fn zlib_tag() -> Seq<char> {
    seq!['-', '(', 'z', '-', 'l', 'i', 'b', '.', 'o', 'r', 'g', ')']
}

/// `-epub.epub`
pub open spec fn epub_tail() -> Seq<char> {
    seq!['-', 'e', 'p', 'u', 'b', '.', 'e', 'p', 'u', 'b']
}

/// `.epub`
pub open spec fn epub_ext() -> Seq<char> {
    seq!['.', 'e', 'p', 'u', 'b']
}

/// The pipeline after lowercasing, each step on the whole output of the one
/// before: spaces and underscores to hyphens, `,-` to `,`, one pass of `--`
/// to `-`, `&amp;` and then `&` to `and`, the `-(z-lib.org)` tag removed,
/// and a trailing `-epub.epub` turned into `.epub`.
pub open spec fn tidy(s: Seq<char>) -> Seq<char> {
    let s = replaced(s, seq![' '], seq!['-']);
    let s = replaced(s, seq!['_'], seq!['-']);
    let s = replaced(s, seq![',', '-'], seq![',']);
    let s = replaced(s, seq!['-', '-'], seq!['-']);
    let s = replaced(s, amp_entity(), and_word());
    let s = replaced(s, seq!['&'], and_word());
    let s = replaced(s, zlib_tag(), Seq::<char>::empty());
    suffix_replaced(s, epub_tail(), epub_ext())
}

/// The candidate for `name` given its lowercase form: none when the pipeline
/// gives the name back unchanged.
pub open spec fn candidate(name: Seq<char>, lowered: Seq<char>) -> Option<Seq<char>> {
    if tidy(lowered) == name {
        None
    } else {
        Some(tidy(lowered))
    }
}

/// What normalizing `name` gives.
pub open spec fn normalized(name: Seq<char>) -> Option<Seq<char>> {
    candidate(name, lower_of(name))
}

/// The text an optional string holds.
pub open spec fn opt_text(r: Option<String>) -> Option<Seq<char>> {
    match r {
        Some(s) => Some(s@),
        None => None,
    }
}

/// No step of the pipeline after lowercasing finds anything to change, but
/// for the characters no output of it holds.
pub open spec fn settled(s: Seq<char>) -> bool {
    &&& !occurs(s, seq![',', '-'])
    &&& !occurs(s, seq!['-', '-'])
    &&& !occurs(s, zlib_tag())
    &&& !ends_with(s, epub_tail())
}

/// Canonical form: hyphen-separated, no `&`, no leftover separator pairs
/// and none of the known source tags.
pub open spec fn canonical(s: Seq<char>) -> bool {
    &&& !s.contains(' ')
    &&& !s.contains('_')
    &&& !s.contains('&')
    &&& settled(s)
}

/// Runs the pipeline on an already lowercased name.
pub fn tidy_name(lowered: &str) -> (r: String)
    ensures
        r@ == tidy(lowered@),
{
    proof {
        reveal_strlit(" ");
        reveal_strlit("-");
        reveal_strlit("_");
        reveal_strlit(",-");
        reveal_strlit(",");
        reveal_strlit("--");
        reveal_strlit("&amp;");
        reveal_strlit("and");
        reveal_strlit("&");
        reveal_strlit("-(z-lib.org)");
        reveal_strlit("");
        reveal_strlit("-epub.epub");
        reveal_strlit(".epub");
    }
    assert(" "@ =~= seq![' ']);
    assert("-"@ =~= seq!['-']);
    assert("_"@ =~= seq!['_']);
    assert(",-"@ =~= seq![',', '-']);
    assert(","@ =~= seq![',']);
    assert("--"@ =~= seq!['-', '-']);
    assert("&amp;"@ =~= amp_entity());
    assert("and"@ =~= and_word());
    assert("&"@ =~= seq!['&']);
    assert("-(z-lib.org)"@ =~= zlib_tag());
    assert(""@ =~= Seq::<char>::empty());
    assert("-epub.epub"@ =~= epub_tail());
    assert(".epub"@ =~= epub_ext());
    let s = replace_all(lowered, " ", "-");
    let s = replace_all(s.as_str(), "_", "-");
    let s = replace_all(s.as_str(), ",-", ",");
    let s = replace_all(s.as_str(), "--", "-");
    let s = replace_all(s.as_str(), "&amp;", "and");
    let s = replace_all(s.as_str(), "&", "and");
    let s = replace_all(s.as_str(), "-(z-lib.org)", "");
    replace_suffix(s.as_str(), "-epub.epub", ".epub")
}

/// The candidate for `name`, given `lowered`, its lowercase form: `None`
/// when the pipeline hands the name back unchanged.
pub fn normalize_lowered(name: &str, lowered: &str) -> (r: Option<String>)
    ensures
        opt_text(r) == candidate(name@, lowered@),
{
    let t = tidy_name(lowered);
    let original = String::from_str(name);
    if t == original {
        None
    } else {
        Some(t)
    }
}

/// The canonical name for `name`, or `None` when it is canonical already.
pub fn normalize(name: &str) -> (r: Option<String>)
    ensures
        opt_text(r) == normalized(name@),
{
    let lowered = lowercase(name);
    normalize_lowered(name, lowered.as_str())
}

/// On a canonical text every step of the pipeline finds nothing to change.
pub proof fn lemma_tidy_fixes_canonical(s: Seq<char>)
    requires
        canonical(s),
    ensures
        tidy(s) == s,
{
    lemma_missing_char_blocks(s, seq![' '], 0);
    lemma_replaced_absent(s, seq![' '], seq!['-']);
    lemma_missing_char_blocks(s, seq!['_'], 0);
    lemma_replaced_absent(s, seq!['_'], seq!['-']);
    lemma_replaced_absent(s, seq![',', '-'], seq![',']);
    lemma_replaced_absent(s, seq!['-', '-'], seq!['-']);
    lemma_missing_char_blocks(s, amp_entity(), 0);
    lemma_replaced_absent(s, amp_entity(), and_word());
    lemma_missing_char_blocks(s, seq!['&'], 0);
    lemma_replaced_absent(s, seq!['&'], and_word());
    lemma_replaced_absent(s, zlib_tag(), Seq::<char>::empty());
}

/// No output of the pipeline holds a space, an underscore or an `&`.
pub proof fn lemma_tidy_clears_chars(s: Seq<char>)
    ensures
        !tidy(s).contains(' '),
        !tidy(s).contains('_'),
        !tidy(s).contains('&'),
{
    let dash = seq!['-'];
    let comma = seq![','];
    let none = Seq::<char>::empty();
    assert(dash[0] == '-');
    assert(comma[0] == ',');
    assert(and_word()[0] == 'a' && and_word()[1] == 'n' && and_word()[2] == 'd');
    assert(epub_ext()[0] == '.' && epub_ext()[1] == 'e' && epub_ext()[2] == 'p');
    assert(epub_ext()[3] == 'u' && epub_ext()[4] == 'b');
    let s2 = replaced(s, seq![' '], dash);
    let s3 = replaced(s2, seq!['_'], dash);
    let s4 = replaced(s3, seq![',', '-'], comma);
    let s5 = replaced(s4, seq!['-', '-'], dash);
    let s6 = replaced(s5, amp_entity(), and_word());
    let s7 = replaced(s6, seq!['&'], and_word());
    let s8 = replaced(s7, zlib_tag(), none);
    lemma_replaced_clears_char(s, ' ', dash);
    lemma_replaced_keeps_absent(s2, seq!['_'], dash, ' ');
    lemma_replaced_clears_char(s2, '_', dash);
    lemma_replaced_keeps_absent(s3, seq![',', '-'], comma, ' ');
    lemma_replaced_keeps_absent(s3, seq![',', '-'], comma, '_');
    lemma_replaced_keeps_absent(s4, seq!['-', '-'], dash, ' ');
    lemma_replaced_keeps_absent(s4, seq!['-', '-'], dash, '_');
    lemma_replaced_keeps_absent(s5, amp_entity(), and_word(), ' ');
    lemma_replaced_keeps_absent(s5, amp_entity(), and_word(), '_');
    lemma_replaced_keeps_absent(s6, seq!['&'], and_word(), ' ');
    lemma_replaced_keeps_absent(s6, seq!['&'], and_word(), '_');
    lemma_replaced_clears_char(s6, '&', and_word());
    lemma_replaced_keeps_absent(s7, zlib_tag(), none, ' ');
    lemma_replaced_keeps_absent(s7, zlib_tag(), none, '_');
    lemma_replaced_keeps_absent(s7, zlib_tag(), none, '&');
    lemma_suffix_replaced_keeps_absent(s8, epub_tail(), epub_ext(), ' ');
    lemma_suffix_replaced_keeps_absent(s8, epub_tail(), epub_ext(), '_');
    lemma_suffix_replaced_keeps_absent(s8, epub_tail(), epub_ext(), '&');
}

/// Where a text holds no space, underscore or `&`, the pipeline leaves it
/// as it is exactly when it is settled; otherwise it shortens it.
pub proof fn lemma_tidy_fixed_iff_settled(s: Seq<char>)
    requires
        !s.contains(' '),
        !s.contains('_'),
        !s.contains('&'),
    ensures
        tidy(s) == s <==> settled(s),
        !settled(s) ==> tidy(s).len() < s.len(),
{
    if settled(s) {
        lemma_tidy_fixes_canonical(s);
    } else {
        let none = Seq::<char>::empty();
        lemma_missing_char_blocks(s, seq![' '], 0);
        lemma_replaced_absent(s, seq![' '], seq!['-']);
        lemma_missing_char_blocks(s, seq!['_'], 0);
        lemma_replaced_absent(s, seq!['_'], seq!['-']);
        let s4 = replaced(s, seq![',', '-'], seq![',']);
        lemma_replaced_len(s, seq![',', '-'], seq![',']);
        let s5 = replaced(s4, seq!['-', '-'], seq!['-']);
        lemma_replaced_len(s4, seq!['-', '-'], seq!['-']);
        lemma_replaced_keeps_absent(s, seq![',', '-'], seq![','], '&');
        lemma_replaced_keeps_absent(s4, seq!['-', '-'], seq!['-'], '&');
        lemma_missing_char_blocks(s5, amp_entity(), 0);
        lemma_replaced_absent(s5, amp_entity(), and_word());
        lemma_missing_char_blocks(s5, seq!['&'], 0);
        lemma_replaced_absent(s5, seq!['&'], and_word());
        let s8 = replaced(s5, zlib_tag(), none);
        lemma_replaced_len(s5, zlib_tag(), none);
        if occurs(s, seq![',', '-']) {
        } else {
            lemma_replaced_absent(s, seq![',', '-'], seq![',']);
            if occurs(s, seq!['-', '-']) {
            } else {
                lemma_replaced_absent(s, seq!['-', '-'], seq!['-']);
                if occurs(s, zlib_tag()) {
                } else {
                    lemma_replaced_absent(s, zlib_tag(), none);
                    assert(ends_with(s, epub_tail()));
                }
            }
        }
        assert(tidy(s) == suffix_replaced(s8, epub_tail(), epub_ext()));
    }
}

/// A name already in canonical form, which lowercasing leaves as it is,
/// normalizes to no change.
pub proof fn lemma_canonical_unchanged(name: Seq<char>)
    requires
        canonical(name),
        lower_of(name) == name,
    ensures
        normalized(name) is None,
{
    lemma_tidy_fixes_canonical(name);
}

/// Under a lowercasing that leaves the candidate as it is, normalizing the
/// result of normalizing (or the name, where that gave no change) gives no
/// change exactly when the single pass left no `,-`, `--`, source tag or
/// trailing `-epub.epub` behind.
pub proof fn lemma_normalize_twice(name: Seq<char>)
    requires
        lower_of(tidy(lower_of(name))) == tidy(lower_of(name)),
    ensures
        normalized(
            match normalized(name) {
                Some(m) => m,
                None => name,
            },
        ) is None <==> settled(tidy(lower_of(name))),
{
    let m = tidy(lower_of(name));
    lemma_tidy_clears_chars(lower_of(name));
    lemma_tidy_fixed_iff_settled(m);
}

} // verus!

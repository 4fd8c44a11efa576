//! Text substitutions on character sequences.
use vstd::prelude::*;

verus! {

/// `s` holds `pat` starting at position `i`.
pub open spec fn occurs_at(s: Seq<char>, pat: Seq<char>, i: int) -> bool {
    0 <= i && i + pat.len() <= s.len() && s.subrange(i, i + pat.len()) == pat
}

/// `s` holds `pat` somewhere.
pub open spec fn occurs(s: Seq<char>, pat: Seq<char>) -> bool {
    exists|i: int| occurs_at(s, pat, i)
}

/// Every non-overlapping occurrence of `pat`, scanned from the left,
/// replaced by `rep`.
pub open spec fn replaced(s: Seq<char>, pat: Seq<char>, rep: Seq<char>) -> Seq<char>
    decreases s.len(),
{
    if pat.len() == 0 || s.len() < pat.len() {
        s
    } else if s.subrange(0, pat.len() as int) == pat {
        rep + replaced(s.subrange(pat.len() as int, s.len() as int), pat, rep)
    } else {
        seq![s[0]] + replaced(s.subrange(1, s.len() as int), pat, rep)
    }
}

/// `s` ends with `suffix`.
pub open spec fn ends_with(s: Seq<char>, suffix: Seq<char>) -> bool {
    suffix.len() <= s.len() && s.subrange(s.len() - suffix.len(), s.len() as int) == suffix
}

/// A trailing `suffix` replaced by `rep`; anything else left as it is.
pub open spec fn suffix_replaced(s: Seq<char>, suffix: Seq<char>, rep: Seq<char>) -> Seq<char> {
    if ends_with(s, suffix) {
        s.subrange(0, s.len() - suffix.len()) + rep
    } else {
        s
    }
}

/// Whether `pat` stands in `s` at character position `i`.
pub fn matches_at(s: &str, pat: &str, i: usize) -> (r: bool)
    requires
        i <= s@.len(),
    ensures
        r == occurs_at(s@, pat@, i as int),
{
    let n = s.unicode_len();
    let m = pat.unicode_len();
    if m > n - i {
        return false;
    }
    let mut j: usize = 0;
    while j < m
        invariant
            n == s@.len(),
            m == pat@.len(),
            i + m <= n,
            j <= m,
            forall|k: int| 0 <= k < j ==> s@[i + k] == pat@[k],
        decreases m - j,
    {
        if s.get_char(i + j) != pat.get_char(j) {
            assert(s@.subrange(i as int, i + m)[j as int] != pat@[j as int]);
            return false;
        }
        j = j + 1;
    }
    assert(s@.subrange(i as int, i + m) =~= pat@);
    true
}

/// Replaces every non-overlapping occurrence of `pat` in `s`, scanned from
/// the left, by `rep`.
pub fn replace_all(s: &str, pat: &str, rep: &str) -> (r: String)
    requires
        pat@.len() > 0,
    ensures
        r@ == replaced(s@, pat@, rep@),
{
    let n = s.unicode_len();
    let m = pat.unicode_len();
    let mut out = String::new();
    let mut i: usize = 0;
    assert(s@.subrange(0, n as int) =~= s@);
    assert(out@ + replaced(s@, pat@, rep@) =~= replaced(s@, pat@, rep@));
    while i < n
        invariant
            n == s@.len(),
            m == pat@.len(),
            m > 0,
            i <= n,
            out@ + replaced(s@.subrange(i as int, n as int), pat@, rep@) == replaced(s@, pat@, rep@),
        decreases n - i,
    {
        let ghost rest = s@.subrange(i as int, n as int);
        if m <= n - i && matches_at(s, pat, i) {
            assert(rest.subrange(0, m as int) =~= s@.subrange(i as int, i + m));
            assert(rest.subrange(m as int, rest.len() as int) =~= s@.subrange(i + m, n as int));
            out.append(rep);
            i = i + m;
        } else {
            assert(m as int <= rest.len() ==> rest.subrange(0, m as int) =~= s@.subrange(i as int, i + m));
            assert(rest.subrange(1, rest.len() as int) =~= s@.subrange(i + 1, n as int));
            if m <= n - i {
                assert(rest.subrange(0, m as int) != pat@);
            } else {
                assert(rest.len() < m);
                assert(seq![rest[0]] + rest.subrange(1, rest.len() as int) =~= rest);
            }
            let c = s.substring_char(i, i + 1);
            assert(c@ =~= seq![rest[0]]);
            out.append(c);
            assert(out@ + replaced(s@.subrange(i + 1, n as int), pat@, rep@) =~= replaced(s@, pat@, rep@));
            i = i + 1;
        }
    }
    assert(s@.subrange(n as int, n as int) =~= Seq::<char>::empty());
    out
}

/// Replaces a trailing `suffix` of `s` by `rep`.
pub fn replace_suffix(s: &str, suffix: &str, rep: &str) -> (r: String)
    ensures
        r@ == suffix_replaced(s@, suffix@, rep@),
{
    let n = s.unicode_len();
    let m = suffix.unicode_len();
    if m <= n && matches_at(s, suffix, n - m) {
        let mut out = String::from_str(s.substring_char(0, n - m));
        out.append(rep);
        out
    } else {
        String::from_str(s)
    }
}

/// Where `pat` does not occur, replacing it changes nothing.
pub proof fn lemma_replaced_absent(s: Seq<char>, pat: Seq<char>, rep: Seq<char>)
    requires
        !occurs(s, pat),
    ensures
        replaced(s, pat, rep) == s,
    decreases s.len(),
{
    if pat.len() == 0 || s.len() < pat.len() {
    } else {
        assert(!occurs_at(s, pat, 0));
        let t = s.subrange(1, s.len() as int);
        assert forall|i: int| !occurs_at(t, pat, i) by {
            if occurs_at(t, pat, i) {
                assert(s.subrange(i + 1, i + 1 + pat.len()) =~= t.subrange(i, i + pat.len()));
                assert(occurs_at(s, pat, i + 1));
            }
        }
        lemma_replaced_absent(t, pat, rep);
        assert(seq![s[0]] + t =~= s);
    }
}

/// Replacing by text no longer than the pattern never lengthens, and
/// shortens wherever the pattern occurs and the replacement is shorter.
pub proof fn lemma_replaced_len(s: Seq<char>, pat: Seq<char>, rep: Seq<char>)
    requires
        pat.len() > 0,
        rep.len() <= pat.len(),
    ensures
        replaced(s, pat, rep).len() <= s.len(),
        occurs(s, pat) && rep.len() < pat.len() ==> replaced(s, pat, rep).len() < s.len(),
    decreases s.len(),
{
    if s.len() < pat.len() {
    } else if s.subrange(0, pat.len() as int) == pat {
        lemma_replaced_len(s.subrange(pat.len() as int, s.len() as int), pat, rep);
    } else {
        let t = s.subrange(1, s.len() as int);
        lemma_replaced_len(t, pat, rep);
        if occurs(s, pat) {
            let i = choose|i: int| occurs_at(s, pat, i);
            assert(i != 0);
            assert(t.subrange(i - 1, i - 1 + pat.len()) =~= s.subrange(i, i + pat.len()));
            assert(occurs_at(t, pat, i - 1));
        }
    }
}

/// A sequence that lacks one of the characters of `pat` holds no occurrence
/// of `pat`.
pub proof fn lemma_missing_char_blocks(s: Seq<char>, pat: Seq<char>, k: int)
    requires
        0 <= k < pat.len(),
        !s.contains(pat[k]),
    ensures
        !occurs(s, pat),
{
    assert forall|i: int| !occurs_at(s, pat, i) by {
        if occurs_at(s, pat, i) {
            assert(s.subrange(i, i + pat.len())[k] == s[i + k]);
        }
    }
}

/// Replacing a single character by text without it leaves none of it.
pub proof fn lemma_replaced_clears_char(s: Seq<char>, c: char, rep: Seq<char>)
    requires
        !rep.contains(c),
    ensures
        !replaced(s, seq![c], rep).contains(c),
    decreases s.len(),
{
    let pat = seq![c];
    if s.len() < 1 {
    } else {
        let t = s.subrange(1, s.len() as int);
        lemma_replaced_clears_char(t, c, rep);
        let rest = replaced(t, pat, rep);
        if s.subrange(0, 1) == pat {
            assert forall|i: int| 0 <= i < (rep + rest).len() implies (rep + rest)[i] != c by {
                if i >= rep.len() {
                    assert((rep + rest)[i] == rest[i - rep.len()]);
                }
            }
        } else {
            assert(s[0] != c) by {
                if s[0] == c {
                    assert(s.subrange(0, 1) =~= pat);
                }
            }
            assert forall|i: int| 0 <= i < (seq![s[0]] + rest).len() implies (seq![s[0]]
                + rest)[i] != c by {
                if i >= 1 {
                    assert((seq![s[0]] + rest)[i] == rest[i - 1]);
                }
            }
        }
    }
}

/// Replacing text adds no character that neither the input nor the
/// replacement holds.
pub proof fn lemma_replaced_keeps_absent(s: Seq<char>, pat: Seq<char>, rep: Seq<char>, c: char)
    requires
        !s.contains(c),
        !rep.contains(c),
    ensures
        !replaced(s, pat, rep).contains(c),
    decreases s.len(),
{
    if pat.len() == 0 || s.len() < pat.len() {
    } else if s.subrange(0, pat.len() as int) == pat {
        let t = s.subrange(pat.len() as int, s.len() as int);
        assert(!t.contains(c)) by {
            if t.contains(c) {
                let j = choose|j: int| 0 <= j < t.len() && t[j] == c;
                assert(s[j + pat.len()] == c);
            }
        }
        lemma_replaced_keeps_absent(t, pat, rep, c);
        let rest = replaced(t, pat, rep);
        assert forall|i: int| 0 <= i < (rep + rest).len() implies (rep + rest)[i] != c by {
            if i >= rep.len() {
                assert((rep + rest)[i] == rest[i - rep.len()]);
            }
        }
    } else {
        let t = s.subrange(1, s.len() as int);
        assert(!t.contains(c)) by {
            if t.contains(c) {
                let j = choose|j: int| 0 <= j < t.len() && t[j] == c;
                assert(s[j + 1] == c);
            }
        }
        lemma_replaced_keeps_absent(t, pat, rep, c);
        let rest = replaced(t, pat, rep);
        assert(s[0] != c);
        assert forall|i: int| 0 <= i < (seq![s[0]] + rest).len() implies (seq![s[0]]
            + rest)[i] != c by {
            if i >= 1 {
                assert((seq![s[0]] + rest)[i] == rest[i - 1]);
            }
        }
    }
}

/// Replacing a suffix adds no character that neither the input nor the
/// replacement holds.
pub proof fn lemma_suffix_replaced_keeps_absent(
    s: Seq<char>,
    suffix: Seq<char>,
    rep: Seq<char>,
    c: char,
)
    requires
        !s.contains(c),
        !rep.contains(c),
    ensures
        !suffix_replaced(s, suffix, rep).contains(c),
{
    if ends_with(s, suffix) {
        let head = s.subrange(0, s.len() - suffix.len());
        assert forall|i: int| 0 <= i < (head + rep).len() implies (head + rep)[i] != c by {
            if i < head.len() {
                assert(head[i] == s[i]);
            } else {
                assert((head + rep)[i] == rep[i - head.len()]);
            }
        }
    }
}

} // verus!

//! Verified string algorithms for the document model: literal, case-sensitive,
//! leftmost non-overlapping find-and-replace, and line/character counting.

use vstd::prelude::*;

verus! {

/// The pattern `pat` occurs in `s` starting at index `i`.
pub open spec fn match_at(s: Seq<char>, pat: Seq<char>, i: int) -> bool {
    &&& 0 <= i
    &&& i + pat.len() <= s.len()
    &&& forall|k: int| 0 <= k < pat.len() ==> s[i + k] == pat[k]
}

/// The pattern `pat` occurs somewhere in `s`.
pub open spec fn contains_pattern(s: Seq<char>, pat: Seq<char>) -> bool {
    exists|i: int| match_at(s, pat, i)
}

/// Standard leftmost non-overlapping replacement of `pat` by `rep` in `s`:
/// scan left to right; at a match, emit `rep` and continue past the whole
/// match; otherwise emit the character and move on.  An empty pattern
/// replaces nothing.
pub open spec fn replace_spec(s: Seq<char>, pat: Seq<char>, rep: Seq<char>) -> Seq<char>
    decreases s.len(),
{
    if pat.len() == 0 || s.len() == 0 {
        s
    } else if match_at(s, pat, 0) {
        rep + replace_spec(s.skip(pat.len() as int), pat, rep)
    } else {
        seq![s[0]] + replace_spec(s.skip(1), pat, rep)
    }
}

/// How many occurrences the leftmost non-overlapping scan of `s` for `pat`
/// finds (the ones `replace_spec` replaces).
pub open spec fn occurrence_count(s: Seq<char>, pat: Seq<char>) -> nat
    decreases s.len(),
{
    if pat.len() == 0 || s.len() == 0 {
        0
    } else if match_at(s, pat, 0) {
        1 + occurrence_count(s.skip(pat.len() as int), pat)
    } else {
        occurrence_count(s.skip(1), pat)
    }
}

/// Whether `pat` occurs in `s` at index `i` is unchanged by dropping a
/// prefix of `s` that ends at or before `i`.
proof fn lemma_match_at_skip(s: Seq<char>, pat: Seq<char>, d: int, i: int)
    requires
        0 <= d <= i,
        d <= s.len(),
    ensures
        match_at(s, pat, i) == match_at(s.skip(d), pat, i - d),
{
    assert(s.skip(d).len() == s.len() - d);
    if match_at(s, pat, i) {
        assert forall|k: int| 0 <= k < pat.len() implies s.skip(d)[i - d + k] == pat[k] by {
            assert(s[i + k] == pat[k]);
            assert(s.skip(d)[i - d + k] == s[i + k]);
        }
    }
    if match_at(s.skip(d), pat, i - d) {
        assert(i - d + pat.len() <= s.len() - d);
        assert forall|k: int| 0 <= k < pat.len() implies s[i + k] == pat[k] by {
            assert(s.skip(d)[i - d + k] == pat[k]);
            assert(s.skip(d)[i - d + k] == s[i + k]);
        }
    }
}

/// Number of newline characters in `s`.
pub open spec fn newline_count(s: Seq<char>) -> nat
    decreases s.len(),
{
    if s.len() == 0 {
        0
    } else {
        newline_count(s.drop_last()) + (if s.last() == '\n' {
            1nat
        } else {
            0
        })
    }
}

/// Number of newline-delimited segments of `s`: a trailing newline closes
/// the last segment rather than opening an empty one, and the empty text
/// has no lines.
pub open spec fn line_count(s: Seq<char>) -> nat {
    if s.len() == 0 {
        0
    } else if s.last() == '\n' {
        newline_count(s)
    } else {
        newline_count(s) + 1
    }
}

proof fn lemma_newline_count_le_len(s: Seq<char>)
    ensures
        newline_count(s) <= s.len(),
    decreases s.len(),
{
    if s.len() > 0 {
        lemma_newline_count_le_len(s.drop_last());
    }
}

/// Count the lines of `s`, as `line_count` describes.
pub fn count_lines(s: &str) -> (r: usize)
    ensures
        r as nat == line_count(s@),
{
    let n = s.unicode_len();
    let mut count: usize = 0;
    let mut i: usize = 0;
    proof {
        assert(s@.take(0) =~= Seq::<char>::empty());
    }
    while i < n
        invariant
            i <= n,
            n == s@.len(),
            count as nat == newline_count(s@.take(i as int)),
            count <= i,
        decreases n - i,
    {
        proof {
            assert(s@.take(i + 1).drop_last() =~= s@.take(i as int));
            assert(s@.take(i + 1).last() == s@[i as int]);
        }
        let c = s.get_char(i);
        if c == '\n' {
            count = count + 1;
        }
        i = i + 1;
    }
    proof {
        assert(s@.take(n as int) =~= s@);
        lemma_newline_count_le_len(s@);
    }
    if n == 0 {
        0
    } else {
        let last = s.get_char(n - 1);
        if last == '\n' {
            count
        } else {
            proof {
                lemma_newline_count_le_len(s@.drop_last());
                assert(newline_count(s@) <= s@.len() - 1);
            }
            count + 1
        }
    }
}

/// A character that separates path components.
pub open spec fn is_path_separator(c: char) -> bool {
    c == '/' || c == '\\'
}

/// The file name of a path: its longest suffix free of path separators.
/// A path that ends in a separator has an empty file name.
pub open spec fn file_name_spec(p: Seq<char>) -> Seq<char>
    decreases p.len(),
{
    if p.len() == 0 {
        Seq::empty()
    } else if is_path_separator(p.last()) {
        Seq::empty()
    } else {
        file_name_spec(p.drop_last()) + seq![p.last()]
    }
}

/// The suffix of `p` from `j` on is its file name, provided it holds no
/// separator and a separator (or the start of the path) stands just before it.
proof fn lemma_file_name_suffix(p: Seq<char>, j: int)
    requires
        0 <= j <= p.len(),
        forall|k: int| j <= k < p.len() ==> !is_path_separator(p[k]),
        j > 0 ==> is_path_separator(p[j - 1]),
    ensures
        file_name_spec(p) == p.skip(j),
    decreases p.len(),
{
    if j == p.len() {
        assert(p.skip(j) =~= Seq::<char>::empty());
        if p.len() > 0 {
            assert(is_path_separator(p.last()));
        }
    } else {
        assert(!is_path_separator(p.last()));
        lemma_file_name_suffix(p.drop_last(), j);
        assert(p.skip(j) =~= p.drop_last().skip(j) + seq![p.last()]);
    }
}

/// The file name of `p`, as `file_name_spec` describes.
pub fn file_name_of(p: &str) -> (r: &str)
    ensures
        r@ == file_name_spec(p@),
{
    let n = p.unicode_len();
    let mut j: usize = n;
    let mut stop = false;
    while j > 0 && !stop
        invariant
            j <= n,
            n == p@.len(),
            forall|k: int| j <= k < n ==> !is_path_separator(p@[k]),
            stop ==> j > 0 && is_path_separator(p@[j - 1]),
        decreases j, (if stop { 0int } else { 1int }),
    {
        let c = p.get_char(j - 1);
        if c == '/' || c == '\\' {
            stop = true;
        } else {
            j = j - 1;
        }
    }
    proof {
        lemma_file_name_suffix(p@, j as int);
        assert(p@.skip(j as int) =~= p@.subrange(j as int, n as int));
    }
    p.substring_char(j, n)
}

/// Does `pat` occur in `s` at index `i`?
fn matches_at(s: &str, i: usize, pat: &str) -> (r: bool)
    requires
        i <= s@.len(),
    ensures
        r == match_at(s@, pat@, i as int),
{
    let n = s.unicode_len();
    let m = pat.unicode_len();
    if m > n - i {
        return false;
    }
    let mut j: usize = 0;
    while j < m
        invariant
            j <= m,
            i + m <= n,
            n == s@.len(),
            m == pat@.len(),
            forall|k: int| 0 <= k < j ==> s@[i + k] == pat@[k],
        decreases m - j,
    {
        if s.get_char(i + j) != pat.get_char(j) {
            return false;
        }
        j = j + 1;
    }
    true
}

/// Replace every leftmost non-overlapping occurrence of `pat` in `s`
/// with `rep`, exactly as `replace_spec` describes.
pub fn replace_all(s: &str, pat: &str, rep: &str) -> (r: String)
    requires
        pat@.len() > 0,
    ensures
        r@ == replace_spec(s@, pat@, rep@),
{
    let n = s.unicode_len();
    let f = pat.unicode_len();
    let mut out = String::new();
    let mut i: usize = 0;
    proof {
        assert(s@.skip(0) =~= s@);
        assert(Seq::<char>::empty() + replace_spec(s@, pat@, rep@)
            =~= replace_spec(s@, pat@, rep@));
    }
    while i < n
        invariant
            i <= n,
            n == s@.len(),
            f == pat@.len(),
            f > 0,
            out@ + replace_spec(s@.skip(i as int), pat@, rep@) == replace_spec(s@, pat@, rep@),
        decreases n - i,
    {
        let ghost pre = out@;
        let ghost tail = s@.skip(i as int);
        if matches_at(s, i, pat) {
            proof {
                lemma_match_at_skip(s@, pat@, i as int, i as int);
                assert(match_at(tail, pat@, 0));
                assert(replace_spec(tail, pat@, rep@)
                    == rep@ + replace_spec(tail.skip(f as int), pat@, rep@));
                assert(tail.skip(f as int) =~= s@.skip(i + f));
                assert((pre + rep@) + replace_spec(s@.skip(i + f), pat@, rep@)
                    =~= pre + (rep@ + replace_spec(s@.skip(i + f), pat@, rep@)));
            }
            out.append(rep);
            i = i + f;
        } else {
            proof {
                lemma_match_at_skip(s@, pat@, i as int, i as int);
                assert(!match_at(tail, pat@, 0));
                assert(tail.len() > 0);
                assert(replace_spec(tail, pat@, rep@)
                    == seq![tail[0]] + replace_spec(tail.skip(1), pat@, rep@));
                assert(tail.skip(1) =~= s@.skip(i + 1));
                assert(s@.subrange(i as int, i + 1) =~= seq![tail[0]]);
                assert((pre + seq![tail[0]]) + replace_spec(s@.skip(i + 1), pat@, rep@)
                    =~= pre + (seq![tail[0]] + replace_spec(s@.skip(i + 1), pat@, rep@)));
            }
            let c = s.substring_char(i, i + 1);
            out.append(c);
            i = i + 1;
        }
    }
    proof {
        assert(s@.skip(n as int) =~= Seq::<char>::empty());
        assert(out@ + Seq::<char>::empty() =~= out@);
    }
    out
}

/// `replace_spec`, with every character tagged by its origin: `true` marks
/// a character inserted by a replacement, `false` one kept from the input.
pub open spec fn replace_marked(s: Seq<char>, pat: Seq<char>, rep: Seq<char>) -> Seq<(char, bool)>
    decreases s.len(),
{
    if pat.len() == 0 || s.len() == 0 {
        s.map_values(|c: char| (c, false))
    } else if match_at(s, pat, 0) {
        rep.map_values(|c: char| (c, true)) + replace_marked(s.skip(pat.len() as int), pat, rep)
    } else {
        seq![(s[0], false)] + replace_marked(s.skip(1), pat, rep)
    }
}

/// The characters of a tagged text, tags dropped.
pub open spec fn chars_of(m: Seq<(char, bool)>) -> Seq<char> {
    m.map_values(|p: (char, bool)| p.0)
}

/// Dropping the tags of `replace_marked` gives back `replace_spec`.
pub proof fn lemma_replace_marked_chars(s: Seq<char>, pat: Seq<char>, rep: Seq<char>)
    ensures
        chars_of(replace_marked(s, pat, rep)) == replace_spec(s, pat, rep),
    decreases s.len(),
{
    if pat.len() == 0 || s.len() == 0 {
        assert(chars_of(s.map_values(|c: char| (c, false))) =~= s);
    } else if match_at(s, pat, 0) {
        lemma_replace_marked_chars(s.skip(pat.len() as int), pat, rep);
        assert(chars_of(replace_marked(s, pat, rep)) =~= rep + chars_of(
            replace_marked(s.skip(pat.len() as int), pat, rep),
        ));
    } else {
        lemma_replace_marked_chars(s.skip(1), pat, rep);
        assert(chars_of(replace_marked(s, pat, rep)) =~= seq![s[0]] + chars_of(
            replace_marked(s.skip(1), pat, rep),
        ));
    }
}

/// A prefix of the tagged result in which nothing is marked as inserted is
/// a prefix of kept characters: it reads exactly as the input begins.
proof fn lemma_unmarked_prefix(s: Seq<char>, pat: Seq<char>, rep: Seq<char>, k: int)
    requires
        pat.len() > 0,
        rep.len() > 0,
        0 <= k <= replace_marked(s, pat, rep).len(),
        forall|t: int| 0 <= t < k ==> !replace_marked(s, pat, rep)[t].1,
    ensures
        k <= s.len(),
        forall|t: int| 0 <= t < k ==> replace_marked(s, pat, rep)[t].0 == s[t],
    decreases s.len(),
{
    let m = replace_marked(s, pat, rep);
    if s.len() == 0 {
    } else if match_at(s, pat, 0) {
        if k > 0 {
            assert(m[0] == rep.map_values(|c: char| (c, true))[0]);
            assert(m[0].1);
        }
    } else {
        let tail = replace_marked(s.skip(1), pat, rep);
        if k > 0 {
            assert(m[0] == (s[0], false));
            assert forall|t: int| 0 <= t < k - 1 implies !tail[t].1 by {
                assert(m[t + 1] == tail[t]);
            }
            lemma_unmarked_prefix(s.skip(1), pat, rep, k - 1);
            assert forall|t: int| 0 <= t < k implies m[t].0 == s[t] by {
                if t > 0 {
                    assert(m[t] == tail[t - 1]);
                    assert(tail[t - 1].0 == s.skip(1)[t - 1]);
                }
            }
        }
    }
}

/// Law: after a replacement, every occurrence of the pattern in the result
/// overlaps at least one just-inserted copy of the replacement; no
/// occurrence stands on kept characters alone.  (An occurrence entirely on
/// kept characters would have stood, contiguously, in the input at a spot
/// the scan visited and rejected.)
pub proof fn lemma_occurrence_overlaps_insertion(
    s: Seq<char>,
    pat: Seq<char>,
    rep: Seq<char>,
    j: int,
)
    requires
        pat.len() > 0,
        rep.len() > 0,
        match_at(replace_spec(s, pat, rep), pat, j),
    ensures
        exists|t: int|
            j <= t < j + pat.len() && #[trigger] replace_marked(s, pat, rep)[t].1,
    decreases s.len(),
{
    lemma_replace_marked_chars(s, pat, rep);
    let m = replace_marked(s, pat, rep);
    let out = replace_spec(s, pat, rep);
    if s.len() == 0 {
        assert(out.len() == 0);
        assert(false);
    } else if match_at(s, pat, 0) {
        let tailm = replace_marked(s.skip(pat.len() as int), pat, rep);
        let tailout = replace_spec(s.skip(pat.len() as int), pat, rep);
        lemma_replace_marked_chars(s.skip(pat.len() as int), pat, rep);
        if j < rep.len() {
            assert(m[j] == rep.map_values(|c: char| (c, true))[j]);
            assert(m[j].1);
        } else {
            assert forall|k: int| 0 <= k < pat.len() implies tailout[j - rep.len() + k]
                == pat[k] by {
                assert(out[j + k] == pat[k]);
                assert(out[j + k] == tailout[j - rep.len() + k]);
            }
            assert(match_at(tailout, pat, j - rep.len()));
            lemma_occurrence_overlaps_insertion(s.skip(pat.len() as int), pat, rep, j - rep.len());
            let t0 = choose|t: int|
                j - rep.len() <= t < j - rep.len() + pat.len() && #[trigger] tailm[t].1;
            assert(m[t0 + rep.len()] == tailm[t0]);
            assert(m[t0 + rep.len()].1);
        }
    } else {
        let tailm = replace_marked(s.skip(1), pat, rep);
        let tailout = replace_spec(s.skip(1), pat, rep);
        lemma_replace_marked_chars(s.skip(1), pat, rep);
        if j >= 1 {
            assert forall|k: int| 0 <= k < pat.len() implies tailout[j - 1 + k] == pat[k] by {
                assert(out[j + k] == pat[k]);
                assert(out[j + k] == tailout[j - 1 + k]);
            }
            assert(match_at(tailout, pat, j - 1));
            lemma_occurrence_overlaps_insertion(s.skip(1), pat, rep, j - 1);
            let t0 = choose|t: int| j - 1 <= t < j - 1 + pat.len() && #[trigger] tailm[t].1;
            assert(m[t0 + 1] == tailm[t0]);
            assert(m[t0 + 1].1);
        } else {
            if exists|t: int| 1 <= t < pat.len() && #[trigger] m[t].1 {
                let t0 = choose|t: int| 1 <= t < pat.len() && #[trigger] m[t].1;
                assert(j <= t0 < j + pat.len() && m[t0].1);
            } else {
                assert forall|t: int| 0 <= t < pat.len() - 1 implies !tailm[t].1 by {
                    assert(m[t + 1] == tailm[t]);
                }
                lemma_unmarked_prefix(s.skip(1), pat, rep, pat.len() - 1);
                assert forall|k: int| 0 <= k < pat.len() implies s[k] == pat[k] by {
                    assert(out[k] == pat[k]);
                    if k == 0 {
                        assert(m[0] == (s[0], false));
                        assert(out[0] == m[0].0);
                    } else {
                        assert(m[k] == tailm[k - 1]);
                        assert(out[k] == m[k].0);
                        assert(tailm[k - 1].0 == s.skip(1)[k - 1]);
                    }
                }
                assert(match_at(s, pat, 0));
                assert(false);
            }
        }
    }
}

/// Law: a text with no occurrence of the pattern is left exactly as it was.
pub proof fn lemma_replace_no_occurrence(s: Seq<char>, pat: Seq<char>, rep: Seq<char>)
    requires
        !contains_pattern(s, pat),
    ensures
        replace_spec(s, pat, rep) == s,
        occurrence_count(s, pat) == 0,
    decreases s.len(),
{
    if pat.len() == 0 {
        assert(match_at(s, pat, 0));
    } else if s.len() == 0 {
    } else if match_at(s, pat, 0) {
    } else {
        assert forall|i: int| !match_at(s.skip(1), pat, i) by {
            if match_at(s.skip(1), pat, i) {
                lemma_match_at_skip(s, pat, 1, i + 1);
                assert(match_at(s, pat, i + 1));
            }
        }
        lemma_replace_no_occurrence(s.skip(1), pat, rep);
        assert(seq![s[0]] + s.skip(1) =~= s);
    }
}

/// Law: the length of the result accounts for exactly the leftmost
/// non-overlapping occurrences, each match of the pattern giving way to one
/// copy of the replacement and nothing else changing.
pub proof fn lemma_replace_length(s: Seq<char>, pat: Seq<char>, rep: Seq<char>)
    requires
        pat.len() > 0,
    ensures
        replace_spec(s, pat, rep).len() + occurrence_count(s, pat) * pat.len() == s.len()
            + occurrence_count(s, pat) * rep.len(),
    decreases s.len(),
{
    if s.len() == 0 {
        assert(occurrence_count(s, pat) * pat.len() == 0) by (nonlinear_arith)
            requires occurrence_count(s, pat) == 0;
        assert(occurrence_count(s, pat) * rep.len() == 0) by (nonlinear_arith)
            requires occurrence_count(s, pat) == 0;
    } else if match_at(s, pat, 0) {
        let tail = s.skip(pat.len() as int);
        lemma_replace_length(tail, pat, rep);
        let occ = occurrence_count(tail, pat);
        assert((1 + occ) * pat.len() == pat.len() + occ * pat.len()) by (nonlinear_arith);
        assert((1 + occ) * rep.len() == rep.len() + occ * rep.len()) by (nonlinear_arith);
    } else {
        lemma_replace_length(s.skip(1), pat, rep);
        assert(replace_spec(s, pat, rep).len() == 1 + replace_spec(s.skip(1), pat, rep).len());
    }
}

} // verus!

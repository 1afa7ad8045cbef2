use vstd::prelude::*;
use vstd::slice::{slice_subrange, slice_to_vec};

use crate::text::chars_of;
use crate::text::string_from_chars;

verus! {

// ---------------------------------------------------------------------------
// The sanitizing rules, as functions on sequences of characters.
//
// A stem is sanitized by four rules applied in strict order:
//   1. drop every character outside 7-bit ASCII;
//   2. replace every maximal run of separators — whitespace, underscores,
//      hyphens — by one hyphen;
//   3. drop every comma, the leading run of hyphens and the trailing run of
//      hyphens;
//   4. drop once more any leading or trailing run of hyphens that rule 3
//      uncovered.
// ---------------------------------------------------------------------------

/// A character that rule 1 keeps: 7-bit ASCII.
pub open spec fn is_ascii_char(c: char) -> bool {
    c as u32 <= 0x7F
}

/// A separator for rule 2: hyphen, underscore, or ASCII whitespace.
pub open spec fn spec_is_separator(c: char) -> bool {
    c == '-' || c == '_' || c == ' ' || c == '\t' || c == '\n' || c == '\r' || c == '\u{b}'
        || c == '\u{c}'
}

/// Executable twin of `spec_is_separator`.
pub fn is_separator(c: char) -> (r: bool)
    ensures
        r == spec_is_separator(c),
{
    c == '-' || c == '_' || c == ' ' || c == '\t' || c == '\n' || c == '\r' || c == '\u{b}'
        || c == '\u{c}'
}

/// Rule 1: keep exactly the ASCII characters, in order.
pub open spec fn keep_ascii(s: Seq<char>) -> Seq<char>
    decreases s.len(),
{
    if s.len() == 0 {
        Seq::empty()
    } else if is_ascii_char(s[0]) {
        seq![s[0]] + keep_ascii(s.drop_first())
    } else {
        keep_ascii(s.drop_first())
    }
}

/// Rule 2, generalized: collapse runs of separators into single hyphens.
/// `after_sep` says whether the previous character belonged to a run whose
/// hyphen has already been emitted.
pub open spec fn collapse_from(s: Seq<char>, after_sep: bool) -> Seq<char>
    decreases s.len(),
{
    if s.len() == 0 {
        Seq::empty()
    } else if spec_is_separator(s[0]) {
        if after_sep {
            collapse_from(s.drop_first(), true)
        } else {
            seq!['-'] + collapse_from(s.drop_first(), true)
        }
    } else {
        seq![s[0]] + collapse_from(s.drop_first(), false)
    }
}

/// Rule 2: replace every maximal run of separators by a single hyphen.
pub open spec fn collapse_separators(s: Seq<char>) -> Seq<char> {
    collapse_from(s, false)
}

/// Part of rule 3: drop every comma.
pub open spec fn remove_commas(s: Seq<char>) -> Seq<char>
    decreases s.len(),
{
    if s.len() == 0 {
        Seq::empty()
    } else if s[0] == ',' {
        remove_commas(s.drop_first())
    } else {
        seq![s[0]] + remove_commas(s.drop_first())
    }
}

/// Drop the leading run of hyphens.
pub open spec fn drop_leading_hyphens(s: Seq<char>) -> Seq<char>
    decreases s.len(),
{
    if s.len() > 0 && s[0] == '-' {
        drop_leading_hyphens(s.drop_first())
    } else {
        s
    }
}

/// Drop the trailing run of hyphens.
pub open spec fn drop_trailing_hyphens(s: Seq<char>) -> Seq<char>
    decreases s.len(),
{
    if s.len() > 0 && s.last() == '-' {
        drop_trailing_hyphens(s.drop_last())
    } else {
        s
    }
}

/// Drop the leading and the trailing run of hyphens.
pub open spec fn trim_hyphens(s: Seq<char>) -> Seq<char> {
    drop_trailing_hyphens(drop_leading_hyphens(s))
}

/// The whole sanitizer: rules 1 to 4 in order.  Rule 3 removes the edge
/// hyphen runs of the string it is given together with every comma, so it is
/// a trim followed by the comma removal; rule 4 is the second trim.
pub open spec fn sanitize(s: Seq<char>) -> Seq<char> {
    trim_hyphens(remove_commas(trim_hyphens(collapse_separators(keep_ascii(s)))))
}

// ---------------------------------------------------------------------------
// Shapes of sanitized strings.
// ---------------------------------------------------------------------------

/// Every character of `s` satisfies `p`.
pub open spec fn all_chars(s: Seq<char>, p: spec_fn(char) -> bool) -> bool {
    forall|i: int| 0 <= i < s.len() ==> p(#[trigger] s[i])
}

/// Every character is ASCII.
pub open spec fn all_ascii(s: Seq<char>) -> bool {
    all_chars(s, |c: char| is_ascii_char(c))
}

/// The only separator character that occurs is the hyphen.
pub open spec fn separators_are_hyphens(s: Seq<char>) -> bool {
    all_chars(s, |c: char| spec_is_separator(c) ==> c == '-')
}

/// No comma occurs.
pub open spec fn comma_free(s: Seq<char>) -> bool {
    all_chars(s, |c: char| c != ',')
}

/// No two hyphens stand next to each other.
pub open spec fn no_adjacent_hyphens(s: Seq<char>) -> bool {
    forall|i: int| 0 <= i && i + 1 < s.len() ==> !(#[trigger] s[i] == '-' && s[i + 1] == '-')
}

/// Neither the first nor the last character is a hyphen.
pub open spec fn hyphen_free_edges(s: Seq<char>) -> bool {
    s.len() > 0 ==> s[0] != '-' && s.last() != '-'
}

proof fn lemma_all_chars_drop_first(s: Seq<char>, p: spec_fn(char) -> bool)
    requires
        all_chars(s, p),
        s.len() > 0,
    ensures
        all_chars(s.drop_first(), p),
{
    assert forall|i: int| 0 <= i < s.drop_first().len() implies p(#[trigger] s.drop_first()[i]) by {
        assert(s.drop_first()[i] == s[i + 1]);
    }
}

proof fn lemma_no_adjacent_drop_first(s: Seq<char>)
    requires
        no_adjacent_hyphens(s),
        s.len() > 0,
    ensures
        no_adjacent_hyphens(s.drop_first()),
{
    assert forall|i: int| 0 <= i && i + 1 < s.drop_first().len() implies !(#[trigger] s.drop_first()[i]
        == '-' && s.drop_first()[i + 1] == '-') by {
        assert(s.drop_first()[i] == s[i + 1]);
        assert(s.drop_first()[i + 1] == s[i + 2]);
    }
}

proof fn lemma_keep_ascii_ascii(s: Seq<char>)
    ensures
        all_ascii(keep_ascii(s)),
    decreases s.len(),
{
    if s.len() > 0 {
        lemma_keep_ascii_ascii(s.drop_first());
    }
}

proof fn lemma_keep_ascii_identity(s: Seq<char>)
    requires
        all_ascii(s),
    ensures
        keep_ascii(s) == s,
    decreases s.len(),
{
    if s.len() > 0 {
        lemma_all_chars_drop_first(s, |c: char| is_ascii_char(c));
        lemma_keep_ascii_identity(s.drop_first());
        assert(keep_ascii(s) =~= s);
    }
}

proof fn lemma_collapse_all(s: Seq<char>, after_sep: bool, p: spec_fn(char) -> bool)
    requires
        all_chars(s, p),
        p('-'),
    ensures
        all_chars(collapse_from(s, after_sep), p),
    decreases s.len(),
{
    if s.len() > 0 {
        lemma_all_chars_drop_first(s, p);
        lemma_collapse_all(s.drop_first(), spec_is_separator(s[0]) || after_sep, p);
        lemma_collapse_all(s.drop_first(), spec_is_separator(s[0]) && after_sep, p);
    }
}

/// What a collapsed string looks like: its only separators are hyphens, no
/// two of them adjacent, and right after a run no hyphen can start the rest.
proof fn lemma_collapse_shape(s: Seq<char>, after_sep: bool)
    ensures
        separators_are_hyphens(collapse_from(s, after_sep)),
        no_adjacent_hyphens(collapse_from(s, after_sep)),
        after_sep && collapse_from(s, after_sep).len() > 0 ==> collapse_from(s, after_sep)[0]
            != '-',
    decreases s.len(),
{
    if s.len() > 0 {
        lemma_collapse_shape(s.drop_first(), true);
        lemma_collapse_shape(s.drop_first(), false);
    }
}

proof fn lemma_collapse_identity(s: Seq<char>, after_sep: bool)
    requires
        separators_are_hyphens(s),
        no_adjacent_hyphens(s),
        after_sep && s.len() > 0 ==> s[0] != '-',
    ensures
        collapse_from(s, after_sep) == s,
    decreases s.len(),
{
    if s.len() > 0 {
        lemma_all_chars_drop_first(s, |c: char| spec_is_separator(c) ==> c == '-');
        lemma_no_adjacent_drop_first(s);
        if spec_is_separator(s[0]) {
            assert(s[0] == '-');
            assert(!after_sep);
            assert(s.drop_first().len() > 0 ==> s.drop_first()[0] != '-');
            lemma_collapse_identity(s.drop_first(), true);
            assert(collapse_from(s, after_sep) =~= s);
        } else {
            lemma_collapse_identity(s.drop_first(), false);
            assert(collapse_from(s, after_sep) =~= s);
        }
    }
}

proof fn lemma_remove_commas_all(s: Seq<char>, p: spec_fn(char) -> bool)
    requires
        all_chars(s, p),
    ensures
        all_chars(remove_commas(s), p),
    decreases s.len(),
{
    if s.len() > 0 {
        lemma_all_chars_drop_first(s, p);
        lemma_remove_commas_all(s.drop_first(), p);
    }
}

proof fn lemma_remove_commas_free(s: Seq<char>)
    ensures
        comma_free(remove_commas(s)),
    decreases s.len(),
{
    if s.len() > 0 {
        lemma_remove_commas_free(s.drop_first());
    }
}

proof fn lemma_remove_commas_identity(s: Seq<char>)
    requires
        comma_free(s),
    ensures
        remove_commas(s) == s,
    decreases s.len(),
{
    if s.len() > 0 {
        lemma_all_chars_drop_first(s, |c: char| c != ',');
        lemma_remove_commas_identity(s.drop_first());
        assert(remove_commas(s) =~= s);
    }
}

proof fn lemma_drop_leading_all(s: Seq<char>, p: spec_fn(char) -> bool)
    requires
        all_chars(s, p),
    ensures
        all_chars(drop_leading_hyphens(s), p),
    decreases s.len(),
{
    if s.len() > 0 && s[0] == '-' {
        lemma_all_chars_drop_first(s, p);
        lemma_drop_leading_all(s.drop_first(), p);
    }
}

proof fn lemma_drop_trailing_all(s: Seq<char>, p: spec_fn(char) -> bool)
    requires
        all_chars(s, p),
    ensures
        all_chars(drop_trailing_hyphens(s), p),
    decreases s.len(),
{
    if s.len() > 0 && s.last() == '-' {
        assert(all_chars(s.drop_last(), p));
        lemma_drop_trailing_all(s.drop_last(), p);
    }
}

proof fn lemma_drop_leading_no_adjacent(s: Seq<char>)
    requires
        no_adjacent_hyphens(s),
    ensures
        no_adjacent_hyphens(drop_leading_hyphens(s)),
    decreases s.len(),
{
    if s.len() > 0 && s[0] == '-' {
        lemma_no_adjacent_drop_first(s);
        lemma_drop_leading_no_adjacent(s.drop_first());
    }
}

proof fn lemma_drop_trailing_no_adjacent(s: Seq<char>)
    requires
        no_adjacent_hyphens(s),
    ensures
        no_adjacent_hyphens(drop_trailing_hyphens(s)),
    decreases s.len(),
{
    if s.len() > 0 && s.last() == '-' {
        assert(no_adjacent_hyphens(s.drop_last()));
        lemma_drop_trailing_no_adjacent(s.drop_last());
    }
}

proof fn lemma_drop_leading_first(s: Seq<char>)
    ensures
        drop_leading_hyphens(s).len() > 0 ==> drop_leading_hyphens(s)[0] != '-',
    decreases s.len(),
{
    if s.len() > 0 && s[0] == '-' {
        lemma_drop_leading_first(s.drop_first());
    }
}

proof fn lemma_drop_trailing_last(s: Seq<char>)
    ensures
        drop_trailing_hyphens(s).len() > 0 ==> drop_trailing_hyphens(s).last() != '-',
    decreases s.len(),
{
    if s.len() > 0 && s.last() == '-' {
        lemma_drop_trailing_last(s.drop_last());
    }
}

/// `drop_trailing_hyphens` returns a prefix of its argument.
proof fn lemma_drop_trailing_prefix(s: Seq<char>)
    ensures
        drop_trailing_hyphens(s).len() <= s.len(),
        forall|i: int|
            0 <= i < drop_trailing_hyphens(s).len() ==> #[trigger] drop_trailing_hyphens(s)[i]
                == s[i],
    decreases s.len(),
{
    if s.len() > 0 && s.last() == '-' {
        lemma_drop_trailing_prefix(s.drop_last());
    }
}

proof fn lemma_trim_shape(s: Seq<char>)
    ensures
        hyphen_free_edges(trim_hyphens(s)),
{
    lemma_drop_leading_first(s);
    lemma_drop_trailing_last(drop_leading_hyphens(s));
    lemma_drop_trailing_prefix(drop_leading_hyphens(s));
}

proof fn lemma_trim_identity(s: Seq<char>)
    requires
        hyphen_free_edges(s),
    ensures
        trim_hyphens(s) == s,
{
}

/// Every character of the sanitized form is ASCII, no separator but the
/// hyphen survives, no comma survives, and the edges hold no hyphen.
pub proof fn lemma_sanitize_shape(s: Seq<char>)
    ensures
        all_ascii(sanitize(s)),
        separators_are_hyphens(sanitize(s)),
        comma_free(sanitize(s)),
        hyphen_free_edges(sanitize(s)),
{
    let kept = keep_ascii(s);
    let collapsed = collapse_separators(kept);
    let trimmed = trim_hyphens(collapsed);
    let uncommaed = remove_commas(trimmed);
    lemma_keep_ascii_ascii(s);
    lemma_collapse_all(kept, false, |c: char| is_ascii_char(c));
    lemma_collapse_shape(kept, false);
    lemma_drop_leading_all(collapsed, |c: char| is_ascii_char(c));
    lemma_drop_trailing_all(drop_leading_hyphens(collapsed), |c: char| is_ascii_char(c));
    lemma_drop_leading_all(collapsed, |c: char| spec_is_separator(c) ==> c == '-');
    lemma_drop_trailing_all(
        drop_leading_hyphens(collapsed),
        |c: char| spec_is_separator(c) ==> c == '-',
    );
    lemma_remove_commas_all(trimmed, |c: char| is_ascii_char(c));
    lemma_remove_commas_all(trimmed, |c: char| spec_is_separator(c) ==> c == '-');
    lemma_remove_commas_free(trimmed);
    lemma_drop_leading_all(uncommaed, |c: char| is_ascii_char(c));
    lemma_drop_trailing_all(drop_leading_hyphens(uncommaed), |c: char| is_ascii_char(c));
    lemma_drop_leading_all(uncommaed, |c: char| spec_is_separator(c) ==> c == '-');
    lemma_drop_trailing_all(
        drop_leading_hyphens(uncommaed),
        |c: char| spec_is_separator(c) ==> c == '-',
    );
    lemma_drop_leading_all(uncommaed, |c: char| c != ',');
    lemma_drop_trailing_all(drop_leading_hyphens(uncommaed), |c: char| c != ',');
    lemma_trim_shape(uncommaed);
}

/// A string of the sanitized shape with no doubled hyphen is a fixed point
/// of the sanitizer.
proof fn lemma_sanitize_fixed_point(t: Seq<char>)
    requires
        all_ascii(t),
        separators_are_hyphens(t),
        comma_free(t),
        no_adjacent_hyphens(t),
        hyphen_free_edges(t),
    ensures
        sanitize(t) == t,
{
    lemma_keep_ascii_identity(t);
    lemma_collapse_identity(t, false);
    lemma_trim_identity(t);
    lemma_remove_commas_identity(t);
}

/// Idempotence of the sanitizer.  It holds of every input whose sanitized
/// form has no two adjacent hyphens; removing a comma that stood between two
/// hyphen runs abuts them, and only a further pass collapses the pair.
pub proof fn lemma_sanitize_idempotent(s: Seq<char>)
    requires
        no_adjacent_hyphens(sanitize(s)),
    ensures
        sanitize(sanitize(s)) == sanitize(s),
{
    lemma_sanitize_shape(s);
    lemma_sanitize_fixed_point(sanitize(s));
}

/// Two passes of the sanitizer settle: a third pass changes nothing,
/// whatever the input.
pub proof fn lemma_sanitize_settles(s: Seq<char>)
    ensures
        sanitize(sanitize(sanitize(s))) == sanitize(sanitize(s)),
{
    let t = sanitize(s);
    lemma_sanitize_shape(s);
    // sanitize(t) reduces to trim_hyphens(collapse_separators(t)).
    lemma_keep_ascii_identity(t);
    lemma_collapse_shape(t, false);
    lemma_collapse_all(t, false, |c: char| c != ',');
    let b = collapse_separators(t);
    lemma_drop_leading_all(b, |c: char| c != ',');
    lemma_drop_trailing_all(drop_leading_hyphens(b), |c: char| c != ',');
    lemma_remove_commas_identity(trim_hyphens(b));
    lemma_drop_leading_no_adjacent(b);
    lemma_drop_trailing_no_adjacent(drop_leading_hyphens(b));
    // So sanitize(t) == trim_hyphens(b), which has no adjacent hyphens.
    lemma_trim_shape(b);
    lemma_trim_identity(trim_hyphens(b));
    assert(sanitize(t) == trim_hyphens(b));
    assert(no_adjacent_hyphens(sanitize(t)));
    lemma_sanitize_idempotent(t);
}

// ---------------------------------------------------------------------------
// The executable sanitizer.
// ---------------------------------------------------------------------------

fn keep_ascii_exec(v: &Vec<char>) -> (r: Vec<char>)
    ensures
        r@ == keep_ascii(v@),
{
    let mut r: Vec<char> = Vec::new();
    let n = v.len();
    let mut i: usize = 0;
    proof {
        assert(v@.skip(0) =~= v@);
        assert(Seq::<char>::empty() + keep_ascii(v@) =~= keep_ascii(v@));
    }
    while i < n
        invariant
            n == v@.len(),
            i <= n,
            keep_ascii(v@) == r@ + keep_ascii(v@.skip(i as int)),
        decreases n - i,
    {
        let c = v[i];
        proof {
            assert(v@.skip(i as int)[0] == v@[i as int]);
            assert(v@.skip(i as int).drop_first() =~= v@.skip(i as int + 1));
        }
        let ghost prev = r@;
        if (c as u32) <= 0x7F {
            r.push(c);
        }
        proof {
            if is_ascii_char(c) {
                assert(keep_ascii(v@) == prev + (seq![c] + keep_ascii(v@.skip(i as int + 1))));
                assert(prev + (seq![c] + keep_ascii(v@.skip(i as int + 1))) =~= r@ + keep_ascii(
                    v@.skip(i as int + 1),
                ));
            }
        }
        i += 1;
    }
    proof {
        assert(v@.skip(n as int) =~= Seq::<char>::empty());
        assert(r@ + Seq::<char>::empty() =~= r@);
    }
    r
}

fn collapse_separators_exec(v: &Vec<char>) -> (r: Vec<char>)
    ensures
        r@ == collapse_separators(v@),
{
    let mut r: Vec<char> = Vec::new();
    let mut after_sep = false;
    let n = v.len();
    let mut i: usize = 0;
    proof {
        assert(v@.skip(0) =~= v@);
        assert(Seq::<char>::empty() + collapse_from(v@, false) =~= collapse_from(v@, false));
    }
    while i < n
        invariant
            n == v@.len(),
            i <= n,
            collapse_separators(v@) == r@ + collapse_from(v@.skip(i as int), after_sep),
        decreases n - i,
    {
        let c = v[i];
        proof {
            assert(v@.skip(i as int)[0] == v@[i as int]);
            assert(v@.skip(i as int).drop_first() =~= v@.skip(i as int + 1));
        }
        let ghost prev = r@;
        if is_separator(c) {
            if !after_sep {
                r.push('-');
                proof {
                    assert(collapse_separators(v@) == prev + (seq!['-'] + collapse_from(
                        v@.skip(i as int + 1),
                        true,
                    )));
                    assert(prev + (seq!['-'] + collapse_from(v@.skip(i as int + 1), true)) =~= r@
                        + collapse_from(v@.skip(i as int + 1), true));
                }
            }
            after_sep = true;
        } else {
            r.push(c);
            after_sep = false;
            proof {
                assert(collapse_separators(v@) == prev + (seq![c] + collapse_from(
                    v@.skip(i as int + 1),
                    false,
                )));
                assert(prev + (seq![c] + collapse_from(v@.skip(i as int + 1), false)) =~= r@
                    + collapse_from(v@.skip(i as int + 1), false));
            }
        }
        i += 1;
    }
    proof {
        assert(v@.skip(n as int) =~= Seq::<char>::empty());
        assert(r@ + Seq::<char>::empty() =~= r@);
    }
    r
}

fn remove_commas_exec(v: &Vec<char>) -> (r: Vec<char>)
    ensures
        r@ == remove_commas(v@),
{
    let mut r: Vec<char> = Vec::new();
    let n = v.len();
    let mut i: usize = 0;
    proof {
        assert(v@.skip(0) =~= v@);
        assert(Seq::<char>::empty() + remove_commas(v@) =~= remove_commas(v@));
    }
    while i < n
        invariant
            n == v@.len(),
            i <= n,
            remove_commas(v@) == r@ + remove_commas(v@.skip(i as int)),
        decreases n - i,
    {
        let c = v[i];
        proof {
            assert(v@.skip(i as int)[0] == v@[i as int]);
            assert(v@.skip(i as int).drop_first() =~= v@.skip(i as int + 1));
        }
        let ghost prev = r@;
        if c != ',' {
            r.push(c);
            proof {
                assert(remove_commas(v@) == prev + (seq![c] + remove_commas(
                    v@.skip(i as int + 1),
                )));
                assert(prev + (seq![c] + remove_commas(v@.skip(i as int + 1))) =~= r@
                    + remove_commas(v@.skip(i as int + 1)));
            }
        }
        i += 1;
    }
    proof {
        assert(v@.skip(n as int) =~= Seq::<char>::empty());
        assert(r@ + Seq::<char>::empty() =~= r@);
    }
    r
}

fn trim_hyphens_exec(v: &Vec<char>) -> (r: Vec<char>)
    ensures
        r@ == trim_hyphens(v@),
{
    let n = v.len();
    let mut lo: usize = 0;
    proof {
        assert(v@.skip(0) =~= v@);
    }
    while lo < n && v[lo] == '-'
        invariant
            n == v@.len(),
            lo <= n,
            drop_leading_hyphens(v@) == drop_leading_hyphens(v@.skip(lo as int)),
        decreases n - lo,
    {
        proof {
            assert(v@.skip(lo as int)[0] == v@[lo as int]);
            assert(v@.skip(lo as int).drop_first() =~= v@.skip(lo as int + 1));
        }
        lo += 1;
    }
    proof {
        if lo < n {
            assert(v@.skip(lo as int)[0] == v@[lo as int]);
        }
        assert(drop_leading_hyphens(v@) == v@.skip(lo as int));
    }
    let mut hi: usize = n;
    while hi > lo && v[hi - 1] == '-'
        invariant
            n == v@.len(),
            lo <= hi <= n,
            drop_trailing_hyphens(v@.skip(lo as int)) == drop_trailing_hyphens(
                v@.subrange(lo as int, hi as int),
            ),
        decreases hi,
    {
        proof {
            assert(v@.subrange(lo as int, hi as int).last() == v@[hi - 1]);
            assert(v@.subrange(lo as int, hi as int).drop_last() =~= v@.subrange(
                lo as int,
                hi as int - 1,
            ));
        }
        hi -= 1;
    }
    proof {
        assert(v@.skip(lo as int) =~= v@.subrange(lo as int, n as int));
        if hi > lo {
            assert(v@.subrange(lo as int, hi as int).last() == v@[hi - 1]);
        }
        assert(drop_trailing_hyphens(v@.subrange(lo as int, hi as int)) == v@.subrange(
            lo as int,
            hi as int,
        ));
    }
    slice_to_vec(slice_subrange(v.as_slice(), lo, hi))
}

/// Sanitize a stem given as a sequence of characters.
pub fn sanitize_chars(v: &Vec<char>) -> (r: Vec<char>)
    ensures
        r@ == sanitize(v@),
{
    let kept = keep_ascii_exec(v);
    let collapsed = collapse_separators_exec(&kept);
    let trimmed = trim_hyphens_exec(&collapsed);
    let uncommaed = remove_commas_exec(&trimmed);
    trim_hyphens_exec(&uncommaed)
}

/// Sanitize a stem: the canonical ASCII, hyphen-delimited form.
pub fn sanitize_stem(stem: &str) -> (r: String)
    ensures
        r@ == sanitize(stem@),
{
    let v = chars_of(stem);
    let clean = sanitize_chars(&v);
    string_from_chars(&clean)
}

/// The name sanitizer: an ordered, immutable pipeline of substitution rules.
pub struct Detoxer {}

impl Detoxer {
    /// Build the sanitizer with its fixed rule set.
    pub fn new() -> (d: Detoxer) {
        Detoxer {  }
    }

    /// Apply every rule in order to `file_name`.
    pub fn detox_file_name(&self, file_name: &str) -> (r: String)
        ensures
            r@ == sanitize(file_name@),
    {
        sanitize_stem(file_name)
    }
}

} // verus!

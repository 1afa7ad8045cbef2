use vstd::prelude::*;
use vstd::slice::{slice_subrange, slice_to_vec};

use crate::sanitize::sanitize;
use crate::sanitize::sanitize_chars;
use crate::text::chars_of;
use crate::text::string_from_chars;

verus! {

// ---------------------------------------------------------------------------
// Splitting a file name into stem and extension.
//
// The extension is the part from the last dot onward; a dot in the first
// position starts no extension, so a name such as ".config" is all stem.
// ---------------------------------------------------------------------------

/// Index of the last dot of `name`, or -1 if there is none.
pub open spec fn last_dot_index(name: Seq<char>) -> int
    decreases name.len(),
{
    if name.len() == 0 {
        -1
    } else if name.last() == '.' {
        name.len() - 1
    } else {
        last_dot_index(name.drop_last())
    }
}

/// Length of the stem: up to the last dot, unless that dot stands first or
/// there is none, in which case the whole name is the stem.
pub open spec fn spec_stem_len(name: Seq<char>) -> int {
    if last_dot_index(name) >= 1 {
        last_dot_index(name)
    } else {
        name.len() as int
    }
}

/// The file name without its extension.
pub open spec fn stem_of(name: Seq<char>) -> Seq<char> {
    name.take(spec_stem_len(name))
}

/// The extension, dot included; empty if there is none.
pub open spec fn ext_of(name: Seq<char>) -> Seq<char> {
    name.skip(spec_stem_len(name))
}

/// The sanitized file name: the stem sanitized, the extension kept verbatim.
pub open spec fn detoxed_name(name: Seq<char>) -> Seq<char> {
    sanitize(stem_of(name)) + ext_of(name)
}

/// The sanitized file name of `name`.
pub fn detoxed_file_name(name: &str) -> (r: String)
    ensures
        r@ == detoxed_name(name@),
{
    let v = chars_of(name);
    let n = v.len();
    // Walk backward to the last dot.
    let mut i: usize = n;
    proof {
        assert(v@.take(n as int) =~= v@);
    }
    while i > 0 && v[i - 1] != '.'
        invariant
            i <= n,
            n == v@.len(),
            last_dot_index(v@) == last_dot_index(v@.take(i as int)),
        decreases i,
    {
        proof {
            assert(v@.take(i as int).last() == v@[i - 1]);
            assert(v@.take(i as int).drop_last() =~= v@.take(i as int - 1));
        }
        i -= 1;
    }
    let stem_len: usize = if i >= 2 {
        i - 1
    } else {
        n
    };
    proof {
        if i > 0 {
            assert(v@.take(i as int).last() == v@[i - 1]);
            assert(last_dot_index(v@) == i - 1);
        } else {
            assert(last_dot_index(v@) == -1);
        }
        assert(stem_len as int == spec_stem_len(v@));
    }
    let stem = slice_to_vec(slice_subrange(v.as_slice(), 0, stem_len));
    let mut rest = slice_to_vec(slice_subrange(v.as_slice(), stem_len, n));
    let mut r = sanitize_chars(&stem);
    r.append(&mut rest);
    proof {
        assert(v@.subrange(0, stem_len as int) =~= stem_of(v@));
        assert(v@.subrange(stem_len as int, n as int) =~= ext_of(v@));
    }
    string_from_chars(&r)
}

/// The planned rename for a file name: the sanitized name where it differs,
/// nothing where the name is already sanitized.
pub fn plan_rename(name: &str) -> (r: Option<String>)
    ensures
        match r {
            Some(n) => n@ == detoxed_name(name@) && n@ != name@,
            None => detoxed_name(name@) == name@,
        },
{
    let d = detoxed_file_name(name);
    let orig = name.to_owned();
    if d == orig {
        None
    } else {
        Some(d)
    }
}

/// Extension preservation: for a file name `stem + "." + ext` whose stem is
/// not empty and whose extension holds no further dot, the split recovers
/// the two parts, and the sanitized file name is `sanitize(stem) + "." + ext`
/// — the extension survives character for character.
pub proof fn lemma_extension_preserved(stem: Seq<char>, ext: Seq<char>)
    requires
        stem.len() > 0,
        forall|i: int| 0 <= i < ext.len() ==> ext[i] != '.',
    ensures
        stem_of(stem + seq!['.'] + ext) == stem,
        ext_of(stem + seq!['.'] + ext) == seq!['.'] + ext,
        detoxed_name(stem + seq!['.'] + ext) == sanitize(stem) + seq!['.'] + ext,
{
    let f = stem + seq!['.'] + ext;
    lemma_last_dot_append_dot_free(stem + seq!['.'], ext);
    assert((stem + seq!['.']).last() == '.');
    assert(last_dot_index(stem + seq!['.']) == stem.len());
    assert(last_dot_index(f) == stem.len());
    assert(spec_stem_len(f) == stem.len());
    assert(stem_of(f) =~= stem);
    assert(ext_of(f) =~= seq!['.'] + ext);
}

/// Appending dot-free characters does not change where the last dot stands.
proof fn lemma_last_dot_append_dot_free(s: Seq<char>, e: Seq<char>)
    requires
        forall|i: int| 0 <= i < e.len() ==> e[i] != '.',
    ensures
        last_dot_index(s + e) == last_dot_index(s),
    decreases e.len(),
{
    if e.len() == 0 {
        assert(s + e =~= s);
    } else {
        assert((s + e).last() == e.last());
        assert((s + e).drop_last() =~= s + e.drop_last());
        lemma_last_dot_append_dot_free(s, e.drop_last());
    }
}

} // verus!

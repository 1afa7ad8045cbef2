use vstd::prelude::*;
use vstd::slice::{slice_subrange, slice_to_vec};

use crate::text::chars_of;
use crate::text::string_from_chars;

verus! {

// ---------------------------------------------------------------------------
// Paths as plain strings, '/'-separated.
// ---------------------------------------------------------------------------

/// The literal last segment of a path: everything after the last separator.
pub open spec fn last_segment(path: Seq<char>) -> Seq<char>
    decreases path.len(),
{
    if path.len() == 0 {
        path
    } else if path.last() == '/' {
        Seq::empty()
    } else {
        last_segment(path.drop_last()).push(path.last())
    }
}

/// The file name of a path, as std's `Path::file_name` reads it: trailing
/// separators are ignored, a trailing `.` segment stands for the directory
/// before it, and a path that ends in `..` — or holds nothing else — has no
/// file name (the empty sequence here).
pub open spec fn spec_file_name(path: Seq<char>) -> Seq<char>
    decreases path.len(),
{
    if path.len() == 0 {
        path
    } else if path.last() == '/' {
        spec_file_name(path.drop_last())
    } else if last_segment(path) == seq!['.'] {
        spec_file_name(path.drop_last())
    } else if last_segment(path) == seq!['.', '.'] {
        Seq::empty()
    } else {
        last_segment(path)
    }
}

/// A file name is hidden when it starts with a dot.
pub open spec fn is_hidden_name(name: Seq<char>) -> bool {
    name.len() > 0 && name[0] == '.'
}

/// A path is hidden when its file name starts with a dot.
pub open spec fn is_hidden_path(path: Seq<char>) -> bool {
    is_hidden_name(spec_file_name(path))
}

/// A path is absolute when it starts with the separator.
pub open spec fn is_absolute(path: Seq<char>) -> bool {
    path.len() > 0 && path[0] == '/'
}

/// Resolving `path` against `base`: an absolute path stands by itself, any
/// other is read below `base`.
pub open spec fn joined(base: Seq<char>, path: Seq<char>) -> Seq<char> {
    if is_absolute(path) {
        path
    } else {
        base + seq!['/'] + path
    }
}

/// The path of the entry called `name` inside the directory `dir`.
pub open spec fn child_path(dir: Seq<char>, name: Seq<char>) -> Seq<char> {
    if dir.len() > 0 && dir.last() == '/' {
        dir + name
    } else {
        dir + seq!['/'] + name
    }
}

/// The last segment of a separator-free tail is that tail.
proof fn lemma_last_segment_subrange(p: Seq<char>, start: int)
    requires
        0 <= start <= p.len(),
        forall|j: int| start <= j < p.len() ==> p[j] != '/',
        start == 0 || p[start - 1] == '/',
    ensures
        last_segment(p) == p.subrange(start, p.len() as int),
    decreases p.len(),
{
    if p.len() == 0 {
        assert(p.subrange(0, 0) =~= p);
    } else if start == p.len() {
        assert(p.last() == '/');
        assert(p.subrange(start, p.len() as int) =~= Seq::<char>::empty());
    } else {
        assert(p[p.len() - 1] != '/');
        lemma_last_segment_subrange(p.drop_last(), start);
        assert(last_segment(p) =~= p.subrange(start, p.len() as int));
    }
}

/// The file name of `path`, as `spec_file_name` reads it.
pub fn file_name_of(path: &str) -> (r: String)
    ensures
        r@ == spec_file_name(path@),
{
    let v = chars_of(path);
    let mut end: usize = v.len();
    proof {
        assert(v@.take(v@.len() as int) =~= v@);
    }
    loop
        invariant
            end <= v@.len(),
            v@ == path@,
            spec_file_name(path@) == spec_file_name(v@.take(end as int)),
        decreases end,
    {
        // Ignore the trailing run of separators.
        let ghost end_at_entry = end;
        while end > 0 && v[end - 1] == '/'
            invariant
                end <= end_at_entry <= v@.len(),
                spec_file_name(path@) == spec_file_name(v@.take(end as int)),
            decreases end,
        {
            proof {
                assert(v@.take(end as int).last() == v@[end - 1]);
                assert(v@.take(end as int).drop_last() =~= v@.take(end as int - 1));
            }
            end -= 1;
        }
        if end == 0 {
            proof {
                assert(v@.take(0) =~= Seq::<char>::empty());
            }
            return String::new();
        }
        // Find where the last segment starts.
        let mut start: usize = end;
        while start > 0 && v[start - 1] != '/'
            invariant
                start <= end <= v@.len(),
                forall|j: int| start <= j < end ==> v@[j] != '/',
            decreases start,
        {
            start -= 1;
        }
        let ghost p = v@.take(end as int);
        proof {
            assert(forall|j: int| start <= j < p.len() ==> p[j] != '/');
            lemma_last_segment_subrange(p, start as int);
            assert(last_segment(p) == v@.subrange(start as int, end as int));
            assert(p.last() == v@[end - 1] && p.last() != '/');
        }
        if end - start == 1 && v[start] == '.' {
            // A `.` segment names the directory before it: drop it and look
            // further back.
            proof {
                assert(last_segment(p) =~= seq!['.']);
                assert(p.drop_last() =~= v@.take(end as int - 1));
            }
            end -= 1;
        } else if end - start == 2 && v[start] == '.' && v[start + 1] == '.' {
            proof {
                assert(last_segment(p) =~= seq!['.', '.']);
            }
            return String::new();
        } else {
            proof {
                if last_segment(p) == seq!['.'] {
                    assert(last_segment(p).len() == 1 && last_segment(p)[0] == '.');
                    assert(false);
                }
                if last_segment(p) == seq!['.', '.'] {
                    assert(last_segment(p).len() == 2 && last_segment(p)[0] == '.'
                        && last_segment(p)[1] == '.');
                    assert(false);
                }
            }
            let tail = slice_to_vec(slice_subrange(v.as_slice(), start, end));
            return string_from_chars(&tail);
        }
    }
}

/// Whether the file name of `path` starts with a dot.
pub fn hidden(path: &str) -> (r: bool)
    ensures
        r == is_hidden_path(path@),
{
    let name = file_name_of(path);
    let s = name.as_str();
    if s.unicode_len() > 0 {
        s.get_char(0) == '.'
    } else {
        false
    }
}

/// Whether `path` starts with the separator.
pub fn absolute(path: &str) -> (r: bool)
    ensures
        r == is_absolute(path@),
{
    if path.unicode_len() > 0 {
        path.get_char(0) == '/'
    } else {
        false
    }
}

/// Resolve `path` against `base` as `joined` describes.
pub fn join_under(base: &str, path: &str) -> (r: String)
    ensures
        r@ == joined(base@, path@),
{
    if absolute(path) {
        path.to_owned()
    } else {
        let mut r = base.to_owned();
        r.append("/");
        r.append(path);
        proof {
            reveal_strlit("/");
            assert(base@ + "/"@ + path@ =~= joined(base@, path@));
        }
        r
    }
}

/// What `path_clean::clean` returns for a path: its lexical normal form.
pub uninterp spec fn cleaned_path(path: Seq<char>) -> Seq<char>;

/// Relies on `path_clean::clean`: a purely lexical normalization (collapse
/// separator runs, resolve `.` and `..`) that reads no filesystem state, so
/// the result is a function of the argument alone.
#[verifier::external_body]
pub(crate) fn clean_path(path: &str) -> (r: String)
    ensures
        r@ == cleaned_path(path@),
{
    path_clean::clean(path).to_string_lossy().into_owned()
}

/// Build the path of the entry called `name` inside `dir`.
pub fn child_path_of(dir: &str, name: &str) -> (r: String)
    ensures
        r@ == child_path(dir@, name@),
{
    let n = dir.unicode_len();
    let mut r = dir.to_owned();
    if n > 0 && dir.get_char(n - 1) == '/' {
        proof {
            assert(dir@.last() == dir@[n - 1]);
        }
        r.append(name);
    } else {
        r.append("/");
        r.append(name);
        proof {
            reveal_strlit("/");
            assert(dir@ + "/"@ + name@ =~= child_path(dir@, name@));
        }
    }
    r
}

} // verus!

//! Unix path primitives: the file name of a path, joining paths, and the
//! parent of a path.
use crate::text::{chars_of, concat2, concat3, owned, string_from_chars};
use vstd::prelude::*;

verus! {

/// The position just after the last `/` of `s`, or 0 when `s` has none.
pub open spec fn last_sep_end(s: Seq<char>) -> int
    decreases s.len(),
{
    if s.len() == 0 {
        0
    } else if s.last() == '/' {
        s.len() as int
    } else {
        last_sep_end(s.drop_last())
    }
}

/// `last_sep_end` is a position of `s` after which no `/` occurs, preceded by
/// a `/` unless it is 0.
pub proof fn lemma_last_sep_end(s: Seq<char>)
    ensures
        0 <= last_sep_end(s) <= s.len(),
        s.len() > 0 && s.last() != '/' ==> last_sep_end(s) < s.len(),
        last_sep_end(s) > 0 ==> s[last_sep_end(s) - 1] == '/',
        forall|k: int| last_sep_end(s) <= k < s.len() ==> s[k] != '/',
    decreases s.len(),
{
    if s.len() > 0 && s.last() != '/' {
        let d = s.drop_last();
        lemma_last_sep_end(d);
        assert forall|k: int| 0 <= k < d.len() implies d[k] == s[k] by {}
    }
}

/// The file name of a Unix path: its last component, where empty components
/// (repeated or trailing `/`) and `.` components are skipped; `None` when no
/// component remains or the last one is `..`.
pub open spec fn file_name_of(s: Seq<char>) -> Option<Seq<char>>
    decreases s.len(),
{
    if s.len() == 0 {
        None
    } else if s.last() == '/' {
        file_name_of(s.drop_last())
    } else {
        let start = last_sep_end(s);
        proof {
            lemma_last_sep_end(s);
        }
        let seg = s.subrange(start, s.len() as int);
        if seg == seq!['.'] {
            file_name_of(s.subrange(0, start))
        } else if seg == seq!['.', '.'] {
            None
        } else {
            Some(seg)
        }
    }
}

/// The file name of `path` (see `file_name_of`).
pub fn file_name(path: &str) -> (r: Option<String>)
    ensures
        match r {
            Some(n) => file_name_of(path@) == Some(n@),
            None => file_name_of(path@) is None,
        },
{
    let cs = chars_of(path);
    let mut end: usize = cs.len();
    assert(cs@.subrange(0, end as int) =~= path@);
    loop
        invariant
            cs@ == path@,
            end <= cs.len(),
            file_name_of(path@) == file_name_of(cs@.subrange(0, end as int)),
        decreases end,
    {
        if end == 0 {
            return None;
        }
        let ghost t = cs@.subrange(0, end as int);
        if cs[end - 1] == '/' {
            assert(t.drop_last() =~= cs@.subrange(0, end - 1));
            end = end - 1;
        } else {
            let mut start: usize = end;
            while start > 0 && cs[start - 1] != '/'
                invariant
                    start <= end <= cs.len(),
                    t == cs@.subrange(0, end as int),
                    last_sep_end(t) == last_sep_end(cs@.subrange(0, start as int)),
                    forall|k: int| start <= k < end ==> cs@[k] != '/',
                decreases start,
            {
                assert(cs@.subrange(0, start as int).drop_last() =~= cs@.subrange(
                    0,
                    start - 1,
                ));
                start = start - 1;
            }
            proof {
                let u = cs@.subrange(0, start as int);
                if start > 0 {
                    assert(u.last() == '/');
                }
                assert(last_sep_end(t) == start);
                lemma_last_sep_end(t);
            }
            let mut seg: Vec<char> = Vec::new();
            let mut k: usize = start;
            while k < end
                invariant
                    start <= k <= end <= cs.len(),
                    seg@ == cs@.subrange(start as int, k as int),
                decreases end - k,
            {
                seg.push(cs[k]);
                k = k + 1;
                assert(seg@ =~= cs@.subrange(start as int, k as int));
            }
            assert(seg@ =~= t.subrange(start as int, t.len() as int));
            if seg.len() == 1 && seg[0] == '.' {
                assert(seg@ =~= seq!['.']);
                assert(t.subrange(0, start as int) =~= cs@.subrange(0, start as int));
                end = start;
            } else if seg.len() == 2 && seg[0] == '.' && seg[1] == '.' {
                assert(seg@ =~= seq!['.', '.']);
                return None;
            } else {
                assert(seg@ != seq!['.']);
                assert(seg@ != seq!['.', '.']);
                return Some(string_from_chars(&seg));
            }
        }
    }
}

/// `base` joined with the relative or absolute path `p` (`PathBuf::push` on
/// Unix): an absolute `p` replaces `base`; otherwise a `/` is put between them
/// unless `base` is empty or already ends with `/`.
pub open spec fn path_join(base: Seq<char>, p: Seq<char>) -> Seq<char> {
    if p.len() > 0 && p[0] == '/' {
        p
    } else if base.len() == 0 || base.last() == '/' {
        base + p
    } else {
        base + seq!['/'] + p
    }
}

/// `base` joined with `p` (see `path_join`).
pub fn join(base: &str, p: &str) -> (r: String)
    ensures
        r@ == path_join(base@, p@),
{
    let n = base.unicode_len();
    let m = p.unicode_len();
    if m > 0 && p.get_char(0) == '/' {
        return owned(p);
    }
    if n == 0 || base.get_char(n - 1) == '/' {
        concat2(base, p)
    } else {
        proof {
            reveal_strlit("/");
            assert("/"@ =~= seq!['/']);
        }
        concat3(base, "/", p)
    }
}

/// What `Path::parent` gives for a path: the path without its last component,
/// or `None` for a root or empty path.
pub uninterp spec fn path_parent(p: Seq<char>) -> Option<Seq<char>>;

/// The parent of `path` (`Path::parent`), named `path_parent(path)`.
#[verifier::external_body]
pub(crate) fn parent(path: &str) -> (r: Option<String>)
    ensures
        match r {
            Some(d) => path_parent(path@) == Some(d@),
            None => path_parent(path@) is None,
        },
{
    match std::path::Path::new(path).parent() {
        Some(d) => Some(d.to_string_lossy().into_owned()),
        None => None,
    }
}

/// Whether two paths are equal as `Path`s (component by component).
pub uninterp spec fn paths_equal(a: Seq<char>, b: Seq<char>) -> bool;

/// Compares two paths as `Path`s (`Path::eq`), named `paths_equal(a, b)`;
/// the same text is always the same path.
#[verifier::external_body]
pub(crate) fn same_path(a: &str, b: &str) -> (r: bool)
    ensures
        r == paths_equal(a@, b@),
        a@ == b@ ==> r,
{
    std::path::Path::new(a) == std::path::Path::new(b)
}

} // verus!

//! Verified helpers over `/`-separated path strings: file name, parent
//! directory, joining, and the file extension that picks a tag dialect.
//!
//! The semantics are the usual ones: the file name is the longest suffix
//! without a separator; the extension is what follows the last dot of the
//! file name, absent when there is no dot or when the only dot leads a
//! hidden file.

use vstd::prelude::*;

verus! {

/// Character-wise string equality.
pub fn str_eq(a: &str, b: &str) -> (r: bool)
    ensures
        r == (a@ == b@),
{
    let n = a.unicode_len();
    if n != b.unicode_len() {
        proof {
            assert(a@ != b@) by {
                assert(a@.len() != b@.len());
            }
        }
        return false;
    }
    let mut i: usize = 0;
    while i < n
        invariant
            i <= n,
            n == a@.len(),
            n == b@.len(),
            forall|j: int| 0 <= j < i ==> a@[j] == b@[j],
        decreases n - i,
    {
        if a.get_char(i) != b.get_char(i) {
            return false;
        }
        i = i + 1;
    }
    proof {
        assert(a@ =~= b@);
    }
    true
}

/// Index where the file name begins: just after the last `/`, or zero
/// when the path has none.
pub open spec fn spec_file_name_start(p: Seq<char>) -> int
    decreases p.len(),
{
    if p.len() == 0 {
        0
    } else if p[p.len() - 1] == '/' {
        p.len() as int
    } else {
        spec_file_name_start(p.drop_last())
    }
}

/// The file name: the longest suffix holding no `/`. Empty when the path
/// is empty or ends with a separator.
pub open spec fn spec_file_name(p: Seq<char>) -> Seq<char> {
    p.skip(spec_file_name_start(p))
}

/// The parent directory: everything before the file name, without its
/// trailing separator. A bare file name has parent `""` (the current
/// directory); a path whose directory part is only separators has `"/"`.
pub open spec fn spec_parent(p: Seq<char>) -> Seq<char> {
    let start = spec_file_name_start(p);
    if start == 0 {
        Seq::empty()
    } else if p.take(start - 1).len() == 0 {
        seq!['/']
    } else {
        p.take(start - 1)
    }
}

/// `dir` and `name` joined with a single separator; an empty `dir` means
/// the current directory and adds none.
pub open spec fn spec_join(dir: Seq<char>, name: Seq<char>) -> Seq<char> {
    if dir.len() == 0 {
        name
    } else if dir[dir.len() - 1] == '/' {
        dir + name
    } else {
        dir + seq!['/'] + name
    }
}

/// Index of the last `.` in `f`, or `-1` when there is none.
pub open spec fn spec_last_dot(f: Seq<char>) -> int
    decreases f.len(),
{
    if f.len() == 0 {
        -1
    } else if f[f.len() - 1] == '.' {
        f.len() - 1
    } else {
        spec_last_dot(f.drop_last())
    }
}

/// The extension of the path's file name: what follows its last dot.
/// Absent when the name has no dot, or only a leading one (a hidden file).
pub open spec fn spec_extension(p: Seq<char>) -> Option<Seq<char>> {
    let f = spec_file_name(p);
    let dot = spec_last_dot(f);
    if dot <= 0 {
        None
    } else {
        Some(f.skip(dot + 1))
    }
}

/// Finds where the file name of `s` begins (just after the last `/`).
pub fn file_name_start(s: &str) -> (r: usize)
    ensures
        r == spec_file_name_start(s@),
        r <= s@.len(),
{
    let n = s.unicode_len();
    proof {
        assert(s@.take(n as int) =~= s@);
        lemma_file_name_start_le(s@);
    }
    let mut i = n;
    while i > 0
        invariant
            i <= n,
            n == s@.len(),
            spec_file_name_start(s@) == spec_file_name_start(s@.take(i as int)),
            spec_file_name_start(s@.take(i as int)) <= i,
        decreases i,
    {
        if s.get_char(i - 1) == '/' {
            proof {
                assert(s@.take(i as int)[i - 1] == '/');
                assert(spec_file_name_start(s@.take(i as int)) == i);
            }
            return i;
        }
        proof {
            assert(s@.take(i as int).drop_last() =~= s@.take(i - 1));
            assert(spec_file_name_start(s@.take(i as int)) == spec_file_name_start(
                s@.take(i - 1),
            ));
            lemma_file_name_start_le(s@.take(i - 1));
        }
        i = i - 1;
    }
    proof {
        assert(s@.take(0) =~= Seq::<char>::empty());
    }
    0
}

/// The start of the file name never lies beyond the end of the path.
pub proof fn lemma_file_name_start_le(p: Seq<char>)
    ensures
        0 <= spec_file_name_start(p) <= p.len(),
    decreases p.len(),
{
    if p.len() > 0 && p[p.len() - 1] != '/' {
        lemma_file_name_start_le(p.drop_last());
    }
}

/// The file name of `s`: its longest `/`-free suffix.
pub fn file_name(s: &str) -> (r: String)
    ensures
        r@ == spec_file_name(s@),
{
    let start = file_name_start(s);
    let n = s.unicode_len();
    let part = s.substring_char(start, n);
    proof {
        assert(part@ =~= spec_file_name(s@));
    }
    part.to_owned()
}

/// Finds the last `.` of `s`, if any.
fn last_dot(s: &str) -> (r: Option<usize>)
    ensures
        match r {
            Some(i) => spec_last_dot(s@) == i && i < s@.len(),
            None => spec_last_dot(s@) == -1,
        },
{
    let n = s.unicode_len();
    proof {
        assert(s@.take(n as int) =~= s@);
        lemma_last_dot_lt(s@);
    }
    let mut i = n;
    while i > 0
        invariant
            i <= n,
            n == s@.len(),
            spec_last_dot(s@) == spec_last_dot(s@.take(i as int)),
            spec_last_dot(s@.take(i as int)) < i,
        decreases i,
    {
        if s.get_char(i - 1) == '.' {
            proof {
                assert(s@.take(i as int)[i - 1] == '.');
                assert(spec_last_dot(s@.take(i as int)) == i - 1);
            }
            return Some(i - 1);
        }
        proof {
            assert(s@.take(i as int).drop_last() =~= s@.take(i - 1));
            assert(spec_last_dot(s@.take(i as int)) == spec_last_dot(s@.take(i - 1)));
            lemma_last_dot_lt(s@.take(i - 1));
        }
        i = i - 1;
    }
    proof {
        assert(s@.take(0) =~= Seq::<char>::empty());
    }
    None
}

/// The file name holds no separator.
pub proof fn lemma_file_name_no_slash(p: Seq<char>)
    ensures
        forall|i: int| 0 <= i < spec_file_name(p).len() ==> spec_file_name(p)[i] != '/',
    decreases p.len(),
{
    lemma_file_name_start_le(p);
    if p.len() > 0 && p[p.len() - 1] != '/' {
        lemma_file_name_no_slash(p.drop_last());
        lemma_file_name_start_le(p.drop_last());
        assert(spec_file_name(p) =~= spec_file_name(p.drop_last()) + seq![p[p.len() - 1]]);
    }
}

/// Appending separator-free characters does not move the file name start.
pub proof fn lemma_file_name_start_concat(p: Seq<char>, q: Seq<char>)
    requires
        forall|i: int| 0 <= i < q.len() ==> q[i] != '/',
    ensures
        spec_file_name_start(p + q) == spec_file_name_start(p),
    decreases q.len(),
{
    if q.len() == 0 {
        assert(p + q =~= p);
    } else {
        assert((p + q).drop_last() =~= p + q.drop_last());
        assert((p + q)[(p + q).len() - 1] == q[q.len() - 1]);
        lemma_file_name_start_concat(p, q.drop_last());
    }
}

/// Joining a directory with a separator-free name yields a path whose
/// file name is exactly that name.
pub proof fn lemma_file_name_of_join(d: Seq<char>, n: Seq<char>)
    requires
        forall|i: int| 0 <= i < n.len() ==> n[i] != '/',
    ensures
        spec_file_name(spec_join(d, n)) == n,
{
    if d.len() == 0 {
        assert(Seq::<char>::empty() + n =~= n);
        lemma_file_name_start_concat(Seq::<char>::empty(), n);
        assert(spec_file_name_start(Seq::<char>::empty()) == 0);
        assert(spec_file_name(n) =~= n);
    } else if d[d.len() - 1] == '/' {
        lemma_file_name_start_concat(d, n);
        assert(spec_file_name_start(d) == d.len());
        assert(spec_file_name(d + n) =~= n);
    } else {
        let d2 = d + seq!['/'];
        assert(spec_join(d, n) =~= d2 + n);
        lemma_file_name_start_concat(d2, n);
        assert(d2[d2.len() - 1] == '/');
        assert(spec_file_name_start(d2) == d2.len());
        assert(spec_file_name(d2 + n) =~= n);
    }
}

/// The last-dot index never lies beyond the end.
pub proof fn lemma_last_dot_lt(p: Seq<char>)
    ensures
        -1 <= spec_last_dot(p) < p.len(),
    decreases p.len(),
{
    if p.len() > 0 && p[p.len() - 1] != '.' {
        lemma_last_dot_lt(p.drop_last());
    }
}

/// The extension of the path's file name, or `None` when it has none.
pub fn get_file_extension(path: &str) -> (r: Option<String>)
    ensures
        match r {
            Some(e) => spec_extension(path@) == Some(e@),
            None => spec_extension(path@) is None,
        },
{
    let start = file_name_start(path);
    let n = path.unicode_len();
    let name = path.substring_char(start, n);
    proof {
        assert(name@ =~= spec_file_name(path@));
    }
    match last_dot(name) {
        None => None,
        Some(dot) => {
            if dot == 0 {
                None
            } else {
                let m = name.unicode_len();
                let ext = name.substring_char(dot + 1, m);
                proof {
                    assert(ext@ =~= spec_file_name(path@).skip(spec_last_dot(
                        spec_file_name(path@),
                    ) + 1));
                }
                Some(ext.to_owned())
            }
        },
    }
}

/// The parent directory of `path` (see `spec_parent`).
pub fn parent_dir(path: &str) -> (r: String)
    ensures
        r@ == spec_parent(path@),
{
    let start = file_name_start(path);
    if start == 0 {
        String::new()
    } else {
        let head = path.substring_char(0, start - 1);
        proof {
            assert(head@ =~= path@.take(start - 1));
        }
        if head.unicode_len() == 0 {
            let sep = "/";
            proof {
                reveal_strlit("/");
                assert(sep@ =~= seq!['/']);
            }
            String::from_str(sep)
        } else {
            head.to_owned()
        }
    }
}

/// Joins a directory and a file name with a single separator.
pub fn join_path(dir: &str, name: &str) -> (r: String)
    ensures
        r@ == spec_join(dir@, name@),
{
    let n = dir.unicode_len();
    if n == 0 {
        return name.to_owned();
    }
    let mut out = dir.to_owned();
    if dir.get_char(n - 1) != '/' {
        let sep = "/";
        proof {
            reveal_strlit("/");
            assert(sep@ =~= seq!['/']);
        }
        out.append(sep);
    }
    out.append(name);
    proof {
        assert(out@ =~= spec_join(dir@, name@));
    }
    out
}

} // verus!

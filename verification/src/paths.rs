//! String and path helpers used throughout the crate.
//!
//! Paths are plain strings whose components are separated by `/`; the
//! spec functions here give them their meaning (joining, the parent
//! directory, the trailing file name, substring search).

use vstd::prelude::*;
use vstd::string::StrSliceExecFns;
use vstd::string::StringExecFns;

verus! {

/// Joining two path fragments: an empty side leaves the other unchanged,
/// otherwise a single separator stands between them.
pub open spec fn spec_join(a: Seq<char>, b: Seq<char>) -> Seq<char> {
    if a.len() == 0 {
        b
    } else if b.len() == 0 {
        a
    } else {
        a + seq!['/'] + b
    }
}

pub fn join_path(a: &str, b: &str) -> (r: String)
    ensures
        r@ == spec_join(a@, b@),
{
    if a.is_empty() {
        b.to_owned()
    } else if b.is_empty() {
        a.to_owned()
    } else {
        let mut s = a.to_owned();
        s.append("/");
        s.append(b);
        proof {
            reveal_strlit("/");
            assert(s@ =~= a@ + seq!['/'] + b@);
        }
        s
    }
}

pub fn str_eq(a: &str, b: &str) -> (r: bool)
    ensures
        r == (a@ == b@),
{
    let alen = a.unicode_len();
    let blen = b.unicode_len();
    if alen != blen {
        return false;
    }
    let mut i: usize = 0;
    while i < alen
        invariant
            i <= alen,
            alen == a@.len(),
            blen == b@.len(),
            alen == blen,
            forall|j: int| 0 <= j < i ==> a@[j] == b@[j],
        decreases alen - i,
    {
        if a.get_char(i) != b.get_char(i) {
            return false;
        }
        i = i + 1;
    }
    proof {
        assert(a@ =~= b@);
    }
    true
}

/// The needle `n` occurs in `s` at position `p`.
pub open spec fn has_substr_at(s: Seq<char>, n: Seq<char>, p: int) -> bool {
    0 <= p && p + n.len() <= s.len() && s.subrange(p, p + n.len() as int) == n
}

/// The needle `n` occurs somewhere in `s`.
pub open spec fn has_substr(s: Seq<char>, n: Seq<char>) -> bool {
    exists|p: int| has_substr_at(s, n, p)
}

pub fn contains_substr(s: &str, n: &str) -> (r: bool)
    ensures
        r == has_substr(s@, n@),
{
    let slen = s.unicode_len();
    let nlen = n.unicode_len();
    if nlen > slen {
        proof {
            assert(forall|p: int| !has_substr_at(s@, n@, p));
        }
        return false;
    }
    if nlen == 0 {
        proof {
            assert(s@.subrange(0, 0) =~= n@);
            assert(has_substr_at(s@, n@, 0));
        }
        return true;
    }
    let mut p: usize = 0;
    while p <= slen - nlen
        invariant
            slen == s@.len(),
            nlen == n@.len(),
            1 <= nlen <= slen,
            p <= slen - nlen + 1,
            forall|q: int| 0 <= q < p ==> !has_substr_at(s@, n@, q),
        decreases slen - nlen + 1 - p,
    {
        let sub = s.substring_char(p, p + nlen);
        if str_eq(sub, n) {
            proof {
                assert(has_substr_at(s@, n@, p as int));
            }
            return true;
        }
        p = p + 1;
    }
    proof {
        assert(forall|q: int| !has_substr_at(s@, n@, q));
    }
    false
}

/// Length of the parent prefix of a relative path: everything before the
/// last separator, or nothing when the path is a single component.
pub open spec fn parent_len(p: Seq<char>) -> int
    decreases p.len(),
{
    if p.len() == 0 {
        0
    } else if p[p.len() - 1] == '/' {
        p.len() - 1
    } else {
        parent_len(p.drop_last())
    }
}

pub open spec fn spec_parent(p: Seq<char>) -> Seq<char> {
    p.subrange(0, parent_len(p))
}

pub proof fn lemma_parent_len_bounds(p: Seq<char>)
    ensures
        0 <= parent_len(p) <= p.len(),
    decreases p.len(),
{
    if p.len() == 0 {
    } else if p[p.len() - 1] == '/' {
    } else {
        lemma_parent_len_bounds(p.drop_last());
    }
}

/// Index where the trailing file name of `p` starts: just past the last
/// separator, or the beginning when there is none.
pub open spec fn name_start(p: Seq<char>) -> int
    decreases p.len(),
{
    if p.len() == 0 {
        0
    } else if p[p.len() - 1] == '/' {
        p.len() as int
    } else {
        name_start(p.drop_last())
    }
}

pub open spec fn spec_file_name(p: Seq<char>) -> Seq<char> {
    p.subrange(name_start(p), p.len() as int)
}

pub proof fn lemma_name_start_bounds(p: Seq<char>)
    ensures
        0 <= name_start(p) <= p.len(),
    decreases p.len(),
{
    if p.len() == 0 {
    } else if p[p.len() - 1] == '/' {
    } else {
        lemma_name_start_bounds(p.drop_last());
    }
}

/// The path prefix that ends at the last separator seen so far; scanning
/// back over non-separator characters keeps both `parent_len` and
/// `name_start` unchanged.
proof fn lemma_scan_step(p: Seq<char>, i: int)
    requires
        0 < i <= p.len(),
        p[i - 1] != '/',
    ensures
        parent_len(p.take(i)) == parent_len(p.take(i - 1)),
        name_start(p.take(i)) == name_start(p.take(i - 1)),
{
    assert(p.take(i).drop_last() =~= p.take(i - 1));
}

/// A path component: no separator occurs in it.
pub open spec fn slash_free(n: Seq<char>) -> bool {
    forall|i: int| 0 <= i < n.len() ==> n[i] != '/'
}

proof fn lemma_name_start_concat(p: Seq<char>, n: Seq<char>)
    requires
        p.len() > 0 ==> p[p.len() - 1] == '/',
        slash_free(n),
    ensures
        name_start(p + n) == p.len(),
    decreases n.len(),
{
    if n.len() == 0 {
        assert(p + n =~= p);
    } else {
        assert((p + n).drop_last() =~= p + n.drop_last());
        lemma_name_start_concat(p, n.drop_last());
    }
}

/// The trailing file name of a joined path is the component that was
/// joined on, whenever that component is a real name.
pub proof fn lemma_file_name_of_join(d: Seq<char>, n: Seq<char>)
    requires
        n.len() > 0,
        slash_free(n),
    ensures
        spec_file_name(spec_join(d, n)) == n,
{
    if d.len() == 0 {
        assert(Seq::<char>::empty() + n =~= n);
        lemma_name_start_concat(Seq::<char>::empty(), n);
        assert(spec_file_name(spec_join(d, n)) =~= n);
    } else {
        let p = d + seq!['/'];
        assert(spec_join(d, n) =~= p + n);
        assert(p[p.len() - 1] == '/');
        lemma_name_start_concat(p, n);
        assert(spec_file_name(spec_join(d, n)) =~= n);
    }
}

/// Joining the same directory with two names gives the same path only
/// for the same name.
pub proof fn lemma_join_component_injective(d: Seq<char>, m: Seq<char>, n: Seq<char>)
    requires
        m.len() > 0,
        n.len() > 0,
        spec_join(d, m) == spec_join(d, n),
    ensures
        m == n,
{
    if d.len() == 0 {
    } else {
        let jm = d + seq!['/'] + m;
        let jn = d + seq!['/'] + n;
        assert(jm.len() == jn.len());
        assert(m =~= jm.subrange(d.len() as int + 1, jm.len() as int));
        assert(n =~= jn.subrange(d.len() as int + 1, jn.len() as int));
    }
}

/// A join never shortens the left-hand path, and joining on a real
/// component strictly lengthens it.
pub proof fn lemma_join_len_ge(a: Seq<char>, b: Seq<char>)
    ensures
        spec_join(a, b).len() >= a.len(),
        b.len() > 0 ==> spec_join(a, b).len() > a.len(),
{
}

/// The directory path `p` lies at or under the directory path `q`.
pub open spec fn path_extends(p: Seq<char>, q: Seq<char>) -> bool {
    p == q || (p.len() > q.len() && p.subrange(0, q.len() as int) == q && (q.len() == 0 || p[
        q.len() as int
    ] == '/'))
}

pub proof fn lemma_path_extends_trans(p: Seq<char>, q: Seq<char>, r: Seq<char>)
    requires
        path_extends(p, q),
        path_extends(q, r),
    ensures
        path_extends(p, r),
{
    if p == q || q == r {
    } else {
        assert forall|k: int| 0 <= k < q.len() implies p[k] == q[k] by {
            assert(p.subrange(0, q.len() as int)[k] == p[k]);
        }
        assert(p.subrange(0, r.len() as int) =~= r);
    }
}

/// Joining a directory with a real component lands at or under it.
pub proof fn lemma_join_extends(rel: Seq<char>, c: Seq<char>)
    requires
        c.len() > 0,
    ensures
        path_extends(spec_join(rel, c), rel),
        spec_join(rel, c).len() > rel.len(),
{
    if rel.len() == 0 {
        assert(spec_join(rel, c).subrange(0, 0) =~= rel);
    } else {
        assert(spec_join(rel, c).subrange(0, rel.len() as int) =~= rel);
        assert(spec_join(rel, c)[rel.len() as int] == '/');
    }
}

/// A path lies under only one component of a directory: two components
/// it extends through are the same.
pub proof fn lemma_extends_component_unique(x: Seq<char>, rel: Seq<char>, c: Seq<char>, d: Seq<
    char,
>)
    requires
        c.len() > 0,
        d.len() > 0,
        slash_free(c),
        slash_free(d),
        path_extends(x, spec_join(rel, c)),
        path_extends(x, spec_join(rel, d)),
    ensures
        c == d,
{
    let s: int = if rel.len() == 0 {
        0
    } else {
        rel.len() as int + 1
    };
    let jc = spec_join(rel, c);
    let jd = spec_join(rel, d);
    assert(jc.len() == s + c.len());
    assert(jd.len() == s + d.len());
    assert(x.len() >= jc.len() && x.len() >= jd.len());
    assert forall|k: int| 0 <= k < c.len() implies x[s + k] == c[k] by {
        if x == jc {
        } else {
            assert(x.subrange(0, jc.len() as int)[s + k] == x[s + k]);
        }
        assert(jc[s + k] == c[k]);
    }
    assert forall|k: int| 0 <= k < d.len() implies x[s + k] == d[k] by {
        if x == jd {
        } else {
            assert(x.subrange(0, jd.len() as int)[s + k] == x[s + k]);
        }
        assert(jd[s + k] == d[k]);
    }
    if c.len() == d.len() {
        assert(c =~= d);
    } else if c.len() < d.len() {
        assert(x[s + c.len()] == d[c.len() as int]);
        assert(d[c.len() as int] != '/');
        assert(x.len() >= jd.len() > jc.len());
        assert(x != jc);
        assert(x[jc.len() as int] == '/');
    } else {
        assert(x[s + d.len()] == c[d.len() as int]);
        assert(c[d.len() as int] != '/');
        assert(x.len() >= jc.len() > jd.len());
        assert(x != jd);
        assert(x[jd.len() as int] == '/');
    }
}

pub fn parent_of(p: &str) -> (r: String)
    ensures
        r@ == spec_parent(p@),
{
    let len = p.unicode_len();
    let mut i: usize = len;
    proof {
        assert(p@.take(len as int) =~= p@);
    }
    while i > 0 && p.get_char(i - 1) != '/'
        invariant
            i <= len,
            len == p@.len(),
            parent_len(p@) == parent_len(p@.take(i as int)),
            name_start(p@) == name_start(p@.take(i as int)),
        decreases i,
    {
        proof {
            lemma_scan_step(p@, i as int);
        }
        i = i - 1;
    }
    proof {
        lemma_parent_len_bounds(p@);
    }
    if i == 0 {
        proof {
            assert(p@.take(0) =~= Seq::<char>::empty());
        }
        p.substring_char(0, 0).to_owned()
    } else {
        proof {
            assert(p@.take(i as int)[i - 1] == '/');
        }
        p.substring_char(0, i - 1).to_owned()
    }
}

pub fn file_name_of(p: &str) -> (r: String)
    ensures
        r@ == spec_file_name(p@),
{
    let len = p.unicode_len();
    let mut i: usize = len;
    proof {
        assert(p@.take(len as int) =~= p@);
    }
    while i > 0 && p.get_char(i - 1) != '/'
        invariant
            i <= len,
            len == p@.len(),
            parent_len(p@) == parent_len(p@.take(i as int)),
            name_start(p@) == name_start(p@.take(i as int)),
        decreases i,
    {
        proof {
            lemma_scan_step(p@, i as int);
        }
        i = i - 1;
    }
    proof {
        lemma_name_start_bounds(p@);
        if i == 0 {
            assert(p@.take(0) =~= Seq::<char>::empty());
        } else {
            assert(p@.take(i as int)[i - 1] == '/');
        }
    }
    p.substring_char(i, len).to_owned()
}

} // verus!

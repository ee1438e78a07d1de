//! Unix path arithmetic on character sequences: joining (`PathBuf::push`),
//! component splitting and component-wise prefix tests (`Path::starts_with`).
//!
//! Paths are plain strings here; the filesystem is never consulted.

use vstd::prelude::*;
use crate::text::{chars_of, string_of, push_all};

verus! {

/// `part` appended to `base` the way `PathBuf::push` does on Unix: an
/// absolute `part` replaces `base`; otherwise a `/` is inserted unless
/// `base` is empty or already ends in `/`.
pub open spec fn join_path(base: Seq<char>, part: Seq<char>) -> Seq<char> {
    if part.len() > 0 && part[0] == '/' {
        part
    } else if base.len() > 0 && base.last() != '/' {
        base + seq!['/'] + part
    } else {
        base + part
    }
}

/// Pushing a finished segment onto the list of normal components: empty
/// segments (from `//` or a trailing `/`) and `.` segments are dropped, as
/// `Path::components` drops them.
pub open spec fn flush_component(done: Seq<Seq<char>>, cur: Seq<char>) -> Seq<Seq<char>> {
    if cur.len() > 0 && cur != seq!['.'] {
        done.push(cur)
    } else {
        done
    }
}

/// Left-to-right scan of a path: the normal components finished so far and
/// the segment being read.
pub open spec fn scan_components(s: Seq<char>) -> (Seq<Seq<char>>, Seq<char>)
    decreases s.len(),
{
    if s.len() == 0 {
        (Seq::empty(), Seq::empty())
    } else {
        let (done, cur) = scan_components(s.drop_last());
        if s.last() == '/' {
            (flush_component(done, cur), Seq::empty())
        } else {
            (done, cur.push(s.last()))
        }
    }
}

/// The normal (named) components of a path, in order.
pub open spec fn normal_components(s: Seq<char>) -> Seq<Seq<char>> {
    flush_component(scan_components(s).0, scan_components(s).1)
}

/// The leading component that is not a name: the root `/` of an absolute
/// path, or `.` for a relative path that starts with the current directory.
pub open spec fn head_component(s: Seq<char>) -> Seq<Seq<char>> {
    if s.len() > 0 && s[0] == '/' {
        seq![seq!['/']]
    } else if s == seq!['.'] || (s.len() >= 2 && s[0] == '.' && s[1] == '/') {
        seq![seq!['.']]
    } else {
        Seq::empty()
    }
}

/// All components of a path, as `Path::components` yields them on Unix.
pub open spec fn components(s: Seq<char>) -> Seq<Seq<char>> {
    head_component(s) + normal_components(s)
}

/// `Path::starts_with`: the components of `base` are a prefix of those of
/// `path`.
pub open spec fn path_starts_with(path: Seq<char>, base: Seq<char>) -> bool {
    components(base).is_prefix_of(components(path))
}

/// `s` holds no `/`.
pub open spec fn no_slash(s: Seq<char>) -> bool {
    forall|i: int| 0 <= i < s.len() ==> s[i] != '/'
}

pub open spec fn views(v: Seq<Vec<char>>) -> Seq<Seq<char>> {
    v.map_values(|x: Vec<char>| x@)
}

/// Reading characters without a `/` only extends the current segment.
pub proof fn lemma_scan_plain_suffix(x: Seq<char>, q: Seq<char>)
    requires
        no_slash(q),
    ensures
        scan_components(x + q) == (scan_components(x).0, scan_components(x).1 + q),
    decreases q.len(),
{
    if q.len() == 0 {
        assert(x + q =~= x);
        assert(scan_components(x).1 + q =~= scan_components(x).1);
    } else {
        let q2 = q.drop_last();
        lemma_scan_plain_suffix(x, q2);
        assert((x + q).drop_last() =~= x + q2);
        assert(scan_components(x).1 + q2.push(q.last()) =~= scan_components(x).1 + q);
        assert(q2.push(q.last()) =~= q);
    }
}

/// Joining one name without `/` onto a path only adds components after the
/// path's own: the joined path starts with the base.
pub proof fn lemma_join_extends(base: Seq<char>, p: Seq<char>)
    requires
        p.len() > 0,
        no_slash(p),
    ensures
        path_starts_with(join_path(base, p), base),
{
    let j = join_path(base, p);
    if base.len() == 0 {
        assert(head_component(base) =~= Seq::<Seq<char>>::empty());
        assert(scan_components(base) == (Seq::<Seq<char>>::empty(), Seq::<char>::empty()));
        assert(normal_components(base) =~= Seq::<Seq<char>>::empty());
        assert(components(base) =~= Seq::<Seq<char>>::empty());
    } else {
        let (d, c) = scan_components(base);
        if base.last() != '/' {
            let b1 = base + seq!['/'];
            assert(b1.drop_last() =~= base);
            assert(j =~= b1 + p);
            lemma_scan_plain_suffix(b1, p);
            assert(scan_components(b1) == (flush_component(d, c), Seq::<char>::empty()));
            assert(Seq::<char>::empty() + p =~= p);
            assert(j[0] == base[0]);
            if base.len() >= 2 {
                assert(j[1] == base[1]);
            }
        } else {
            let (d0, c0) = scan_components(base.drop_last());
            assert(c =~= Seq::<char>::empty());
            assert(j =~= base + p);
            lemma_scan_plain_suffix(base, p);
            assert(Seq::<char>::empty() + p =~= p);
            assert(j[0] == base[0]);
            if base.len() >= 2 {
                assert(j[1] == base[1]);
            }
        }
        assert(j.len() >= 2);
        assert(j != seq!['.']);
        if base.len() == 1 && base[0] == '.' {
            assert(base =~= seq!['.']);
            assert(j[1] == '/');
        }
        assert(head_component(j) == head_component(base));
        let nb = normal_components(base);
        let nj = normal_components(j);
        assert(nb.is_prefix_of(nj));
        assert(components(base).is_prefix_of(components(j)));
    }
}

/// Whether two character vectors are equal.
pub fn chars_eq(a: &Vec<char>, b: &Vec<char>) -> (r: bool)
    ensures
        r == (a@ == b@),
{
    if a.len() != b.len() {
        return false;
    }
    let mut i: usize = 0;
    while i < a.len()
        invariant
            a.len() == b.len(),
            i <= a.len(),
            forall|j: int| 0 <= j < i ==> a@[j] == b@[j],
        decreases a.len() - i,
    {
        if a[i] != b[i] {
            return false;
        }
        i = i + 1;
    }
    assert(a@ =~= b@);
    true
}

fn is_dot(cur: &Vec<char>) -> (r: bool)
    ensures
        r == (cur@ == seq!['.']),
{
    if cur.len() == 1 && cur[0] == '.' {
        assert(cur@ =~= seq!['.']);
        true
    } else {
        false
    }
}

/// Splits a path into its components (`Path::components`).
pub fn components_of(s: &Vec<char>) -> (r: Vec<Vec<char>>)
    ensures
        views(r@) == components(s@),
{
    let mut done: Vec<Vec<char>> = Vec::new();
    let mut cur: Vec<char> = Vec::new();
    let mut i: usize = 0;
    assert(s@.subrange(0, 0) =~= Seq::<char>::empty());
    assert(views(done@) =~= Seq::<Seq<char>>::empty());
    while i < s.len()
        invariant
            i <= s.len(),
            views(done@) == scan_components(s@.subrange(0, i as int)).0,
            cur@ == scan_components(s@.subrange(0, i as int)).1,
        decreases s.len() - i,
    {
        let c = s[i];
        let ghost prefix = s@.subrange(0, i as int);
        assert(s@.subrange(0, i + 1).drop_last() =~= prefix);
        assert(s@.subrange(0, i + 1).last() == c);
        if c == '/' {
            if cur.len() > 0 && !is_dot(&cur) {
                let ghost d0 = done@;
                let ghost c0 = cur@;
                done.push(cur);
                assert(views(done@) =~= views(d0).push(c0));
            }
            cur = Vec::new();
            assert(cur@ =~= Seq::<char>::empty());
        } else {
            cur.push(c);
        }
        i = i + 1;
    }
    assert(s@.subrange(0, s.len() as int) =~= s@);
    if cur.len() > 0 && !is_dot(&cur) {
        let ghost d0 = done@;
        let ghost c0 = cur@;
        done.push(cur);
        assert(views(done@) =~= views(d0).push(c0));
    }
    assert(views(done@) == normal_components(s@));
    let mut r: Vec<Vec<char>> = Vec::new();
    if s.len() > 0 && s[0] == '/' {
        let mut root: Vec<char> = Vec::new();
        root.push('/');
        assert(root@ =~= seq!['/']);
        r.push(root);
        assert(views(r@) =~= seq![seq!['/']]);
    } else if (s.len() == 1 && s[0] == '.') || (s.len() >= 2 && s[0] == '.' && s[1] == '/') {
        proof {
            if s.len() == 1 {
                assert(s@ =~= seq!['.']);
            }
        }
        let mut cd: Vec<char> = Vec::new();
        cd.push('.');
        assert(cd@ =~= seq!['.']);
        r.push(cd);
        assert(views(r@) =~= seq![seq!['.']]);
    } else {
        proof {
            if s@ == seq!['.'] {
                assert(s@[0] == '.');
            }
        }
        assert(views(r@) =~= Seq::<Seq<char>>::empty());
    }
    let ghost head = views(r@);
    assert(head =~= head_component(s@));
    let mut k: usize = 0;
    while k < done.len()
        invariant
            k <= done.len(),
            views(r@) =~= head + views(done@).subrange(0, k as int),
        decreases done.len() - k,
    {
        let ghost r0 = r@;
        r.push(done[k].clone());
        assert(views(r@) =~= views(r0).push(done@[k as int]@));
        assert(views(done@).subrange(0, k + 1) =~= views(done@).subrange(0, k as int).push(done@[k as int]@));
        k = k + 1;
    }
    assert(views(done@).subrange(0, done.len() as int) =~= views(done@));
    r
}

/// `Path::starts_with` on two path strings.
pub fn starts_with_path(path: &Vec<char>, base: &Vec<char>) -> (r: bool)
    ensures
        r == path_starts_with(path@, base@),
{
    let pc = components_of(path);
    let bc = components_of(base);
    if bc.len() > pc.len() {
        return false;
    }
    let mut i: usize = 0;
    while i < bc.len()
        invariant
            bc.len() <= pc.len(),
            i <= bc.len(),
            views(bc@) == components(base@),
            views(pc@) == components(path@),
            forall|j: int| 0 <= j < i ==> bc@[j]@ == pc@[j]@,
        decreases bc.len() - i,
    {
        if !chars_eq(&bc[i], &pc[i]) {
            assert(views(bc@)[i as int] != views(pc@).subrange(0, bc.len() as int)[i as int]);
            return false;
        }
        i = i + 1;
    }
    assert(views(bc@) =~= views(pc@).subrange(0, bc.len() as int));
    true
}

/// `PathBuf::push` on character vectors.
pub fn join_chars(base: &Vec<char>, part: &Vec<char>) -> (r: Vec<char>)
    ensures
        r@ == join_path(base@, part@),
{
    if part.len() > 0 && part[0] == '/' {
        return part.clone();
    }
    let mut out = base.clone();
    if base.len() > 0 && base[base.len() - 1] != '/' {
        out.push('/');
    }
    push_all(&mut out, part);
    out
}

/// `PathBuf::join` of two path strings.
pub fn join(base: &str, part: &str) -> (r: String)
    ensures
        r@ == join_path(base@, part@),
{
    let b = chars_of(base);
    let p = chars_of(part);
    let j = join_chars(&b, &p);
    string_of(j)
}

} // verus!

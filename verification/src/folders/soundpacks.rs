//! Soundpack directories: where a pack id lives, which preinstalled ids the
//! install stamp lists, and the containment checks that keep every pack and
//! every pack-relative file inside the soundpacks root.

use vstd::prelude::*;
use crate::paths::{
    components, join, join_chars, join_path, no_slash, path_starts_with, starts_with_path,
    views, lemma_join_extends,
};
use crate::strings::{split_chars, split_on, trim, trim_chars};
use crate::text::{chars_of, contains, contains_seq, has_prefix, string_of};

verus! {

/// `s` with every `\` turned into `/`.
pub open spec fn unify_separators(s: Seq<char>) -> Seq<char> {
    s.map_values(|c: char| if c == '\\' { '/' } else { c })
}

/// A piece of a pack id that may name a directory level: not empty, not
/// `..`, no NUL.
pub open spec fn keep_part(p: Seq<char>) -> bool {
    p.len() > 0 && p != seq!['.', '.'] && !p.contains('\0')
}

/// The pieces of `segs` that `keep_part` accepts, in order.
pub open spec fn kept_parts(segs: Seq<Seq<char>>) -> Seq<Seq<char>>
    decreases segs.len(),
{
    if segs.len() == 0 {
        Seq::empty()
    } else if keep_part(segs.last()) {
        kept_parts(segs.drop_last()).push(segs.last())
    } else {
        kept_parts(segs.drop_last())
    }
}

/// The directory levels named by a pack id such as `keyboard/sugar65`.
pub open spec fn id_parts(id: Seq<char>) -> Seq<Seq<char>> {
    kept_parts(split_on(unify_separators(id), '/'))
}

/// `base` with each of `parts` joined on, left to right.
pub open spec fn join_all(base: Seq<char>, parts: Seq<Seq<char>>) -> Seq<char>
    decreases parts.len(),
{
    if parts.len() == 0 {
        base
    } else {
        join_path(join_all(base, parts.drop_last()), parts.last())
    }
}

/// The soundpacks root under the data root.
pub open spec fn soundpacks_base(root: Seq<char>) -> Seq<char> {
    join_path(root, "soundpacks"@)
}

/// Directory of a pack id: its levels joined under the soundpacks root, or
/// `<base>/keyboard/invalid` should the result leave the root.
pub open spec fn spec_soundpack_dir(root: Seq<char>, id: Seq<char>) -> Seq<char> {
    let base = soundpacks_base(root);
    let joined = join_all(base, id_parts(id));
    if path_starts_with(joined, base) {
        joined
    } else {
        join_path(join_path(base, "keyboard"@), "invalid"@)
    }
}

proof fn lemma_split_pieces_have_no_slash(s: Seq<char>)
    ensures
        split_on(s, '/').len() >= 1,
        forall|k: int| 0 <= k < split_on(s, '/').len() ==> no_slash(#[trigger] split_on(s, '/')[k]),
    decreases s.len(),
{
    if s.len() > 0 {
        lemma_split_pieces_have_no_slash(s.drop_last());
        let r = split_on(s.drop_last(), '/');
        assert forall|k: int| 0 <= k < split_on(s, '/').len() implies no_slash(
            #[trigger] split_on(s, '/')[k],
        ) by {
            if s.last() != '/' {
                if k == r.len() - 1 {
                    let piece = r[k].push(s.last());
                    assert(split_on(s, '/')[k] == piece);
                    assert(no_slash(r[k]));
                    assert forall|i: int| 0 <= i < piece.len() implies piece[i] != '/' by {
                        if i < r[k].len() {
                            assert(piece[i] == r[k][i]);
                        }
                    }
                } else {
                    assert(split_on(s, '/')[k] == r[k]);
                }
            } else {
                if k < r.len() {
                    assert(split_on(s, '/')[k] == r[k]);
                } else {
                    assert(split_on(s, '/')[k] =~= Seq::<char>::empty());
                }
            }
        }
    }
}

proof fn lemma_kept_parts_are_kept(segs: Seq<Seq<char>>)
    ensures
        forall|k: int| 0 <= k < kept_parts(segs).len() ==> keep_part(#[trigger] kept_parts(segs)[k])
            && exists|m: int| 0 <= m < segs.len() && segs[m] == kept_parts(segs)[k],
    decreases segs.len(),
{
    if segs.len() > 0 {
        lemma_kept_parts_are_kept(segs.drop_last());
        let r = kept_parts(segs.drop_last());
        assert forall|k: int| 0 <= k < kept_parts(segs).len() implies keep_part(
            #[trigger] kept_parts(segs)[k],
        ) && exists|m: int| 0 <= m < segs.len() && segs[m] == kept_parts(segs)[k] by {
            if k < r.len() {
                let m = choose|m: int| 0 <= m < segs.drop_last().len() && segs.drop_last()[m] == r[k];
                assert(segs[m] == kept_parts(segs)[k]);
            } else {
                assert(segs[segs.len() - 1] == kept_parts(segs)[k]);
            }
        }
    }
}

proof fn lemma_prefix_transitive(a: Seq<Seq<char>>, b: Seq<Seq<char>>, c: Seq<Seq<char>>)
    requires
        a.is_prefix_of(b),
        b.is_prefix_of(c),
    ensures
        a.is_prefix_of(c),
{
    assert forall|i: int| 0 <= i < a.len() implies a[i] == c.subrange(0, a.len() as int)[i] by {
        assert(a[i] == b.subrange(0, a.len() as int)[i]);
        assert(b[i] == c.subrange(0, b.len() as int)[i]);
    }
    assert(a =~= c.subrange(0, a.len() as int));
}

/// Joining named, slash-free levels onto a base never leaves the base.
pub proof fn lemma_join_all_stays_inside(base: Seq<char>, parts: Seq<Seq<char>>)
    requires
        forall|k: int| 0 <= k < parts.len() ==> (#[trigger] parts[k]).len() > 0 && no_slash(parts[k]),
    ensures
        path_starts_with(join_all(base, parts), base),
    decreases parts.len(),
{
    if parts.len() == 0 {
        assert(components(base).subrange(0, components(base).len() as int) =~= components(base));
    } else {
        let prev = join_all(base, parts.drop_last());
        assert(parts.last() == parts[parts.len() - 1]);
        lemma_join_all_stays_inside(base, parts.drop_last());
        lemma_join_extends(prev, parts.last());
        lemma_prefix_transitive(
            components(base),
            components(prev),
            components(join_all(base, parts)),
        );
    }
}

/// A pack id's directory is always its levels joined under the soundpacks
/// root, which it never leaves.
pub proof fn lemma_soundpack_dir_stays_inside(root: Seq<char>, id: Seq<char>)
    ensures
        spec_soundpack_dir(root, id) == join_all(soundpacks_base(root), id_parts(id)),
        path_starts_with(spec_soundpack_dir(root, id), soundpacks_base(root)),
{
    let segs = split_on(unify_separators(id), '/');
    lemma_split_pieces_have_no_slash(unify_separators(id));
    lemma_kept_parts_are_kept(segs);
    let parts = id_parts(id);
    assert forall|k: int| 0 <= k < parts.len() implies (#[trigger] parts[k]).len() > 0 && no_slash(
        parts[k],
    ) by {
        let m = choose|m: int| 0 <= m < segs.len() && segs[m] == parts[k];
        assert(no_slash(segs[m]));
    }
    lemma_join_all_stays_inside(soundpacks_base(root), parts);
}

/// Root of all soundpacks: `<root>/soundpacks`.
pub fn get_builtin_soundpacks_dir(root: &str) -> (r: String)
    ensures
        r@ == soundpacks_base(root@),
{
    join(root, "soundpacks")
}

fn has_char(v: &Vec<char>, c: char) -> (r: bool)
    ensures
        r == v@.contains(c),
{
    let mut i: usize = 0;
    while i < v.len()
        invariant
            i <= v.len(),
            forall|j: int| 0 <= j < i ==> v@[j] != c,
        decreases v.len() - i,
    {
        if v[i] == c {
            assert(v@[i as int] == c);
            return true;
        }
        i = i + 1;
    }
    false
}

fn is_dot_dot(v: &Vec<char>) -> (r: bool)
    ensures
        r == (v@ == seq!['.', '.']),
{
    if v.len() == 2 && v[0] == '.' && v[1] == '.' {
        assert(v@ =~= seq!['.', '.']);
        true
    } else {
        false
    }
}

fn keep_part_exec(p: &Vec<char>) -> (r: bool)
    ensures
        r == keep_part(p@),
{
    p.len() > 0 && !is_dot_dot(p) && !has_char(p, '\0')
}

fn unify_separators_exec(s: &Vec<char>) -> (r: Vec<char>)
    ensures
        r@ == unify_separators(s@),
{
    let mut out: Vec<char> = Vec::new();
    let mut i: usize = 0;
    while i < s.len()
        invariant
            i <= s.len(),
            out@ == unify_separators(s@.subrange(0, i as int)),
        decreases s.len() - i,
    {
        let c = s[i];
        if c == '\\' {
            out.push('/');
        } else {
            out.push(c);
        }
        i = i + 1;
        assert(unify_separators(s@.subrange(0, i as int)) =~= unify_separators(
            s@.subrange(0, i - 1),
        ).push(if c == '\\' { '/' } else { c }));
    }
    assert(s@.subrange(0, s.len() as int) =~= s@);
    out
}

/// Directory for a soundpack id: the id's levels (split on `/` or `\`,
/// skipping empty, `..` and NUL-bearing pieces) joined under the soundpacks
/// root. The result never leaves that root.
pub fn soundpack_dir(root: &str, soundpack_id: &str) -> (r: String)
    ensures
        r@ == spec_soundpack_dir(root@, soundpack_id@),
        r@ == join_all(soundpacks_base(root@), id_parts(soundpack_id@)),
        path_starts_with(r@, soundpacks_base(root@)),
{
    let base_s = get_builtin_soundpacks_dir(root);
    let base = chars_of(base_s.as_str());
    let id = chars_of(soundpack_id);
    let unified = unify_separators_exec(&id);
    let segs = split_chars(&unified, '/');
    let mut joined = base.clone();
    let mut k: usize = 0;
    assert(views(segs@).subrange(0, 0) =~= Seq::<Seq<char>>::empty());
    while k < segs.len()
        invariant
            k <= segs.len(),
            base@ == soundpacks_base(root@),
            views(segs@) == split_on(unify_separators(soundpack_id@), '/'),
            joined@ == join_all(base@, kept_parts(views(segs@).subrange(0, k as int))),
        decreases segs.len() - k,
    {
        let ghost before = views(segs@).subrange(0, k as int);
        assert(views(segs@).subrange(0, k + 1).drop_last() =~= before);
        assert(views(segs@).subrange(0, k + 1).last() == segs@[k as int]@);
        let ghost kp = kept_parts(before);
        if keep_part_exec(&segs[k]) {
            joined = join_chars(&joined, &segs[k]);
            assert(kp.push(segs@[k as int]@).drop_last() =~= kp);
        }
        k = k + 1;
    }
    assert(views(segs@).subrange(0, segs.len() as int) =~= views(segs@));
    proof {
        lemma_soundpack_dir_stays_inside(root@, soundpack_id@);
    }
    if starts_with_path(&joined, &base) {
        string_of(joined)
    } else {
        let kb = chars_of("keyboard");
        let inv = chars_of("invalid");
        let fallback = join_chars(&join_chars(&base, &kb), &inv);
        string_of(fallback)
    }
}

/// The config file of a pack: `<soundpack_dir>/config.json`.
pub fn config_json(root: &str, soundpack_id: &str) -> (r: String)
    ensures
        r@ == join_path(spec_soundpack_dir(root@, soundpack_id@), "config.json"@),
{
    let dir = soundpack_dir(root, soundpack_id);
    join(dir.as_str(), "config.json")
}

/// The canonical pack directory, provided the canonical soundpacks root and
/// the canonical form of the pack's directory both resolved and the pack
/// lies inside the root (a symlink escaping the root is refused).
pub fn contained_dir(canon_base: Option<&str>, canon_pack_dir: Option<&str>) -> (r: Option<String>)
    ensures
        match (canon_base, canon_pack_dir) {
            (Some(b), Some(d)) => if path_starts_with(d@, b@) {
                r matches Some(s) && s@ == d@
            } else {
                r is None
            },
            _ => r is None,
        },
{
    match (canon_base, canon_pack_dir) {
        (Some(b), Some(d)) => {
            let bc = chars_of(b);
            let dc = chars_of(d);
            if starts_with_path(&dc, &bc) {
                Some(string_of(dc))
            } else {
                None
            }
        },
        _ => None,
    }
}

/// `str::trim_start_matches("./")`.
pub open spec fn strip_dot_slash(s: Seq<char>) -> Seq<char>
    decreases s.len(),
{
    if s.len() >= 2 && s[0] == '.' && s[1] == '/' {
        strip_dot_slash(s.subrange(2, s.len() as int))
    } else {
        s
    }
}

/// A pack-relative file name made safe to join onto a pack directory: leading
/// `./` pieces dropped and `\` turned into `/`; `None` when the result is
/// empty, absolute, or holds `..` or NUL.
pub open spec fn spec_clean_relative(rel: Seq<char>) -> Option<Seq<char>> {
    let clean = unify_separators(strip_dot_slash(rel));
    if clean.len() == 0 || contains_seq(clean, seq!['.', '.']) || clean.contains('\0') || clean[0]
        == '/' {
        None
    } else {
        Some(clean)
    }
}

pub(crate) fn strip_dot_slash_exec(v: &Vec<char>) -> (r: Vec<char>)
    ensures
        r@ == strip_dot_slash(v@),
{
    let mut a: usize = 0;
    assert(v@.subrange(0, v.len() as int) =~= v@);
    while v.len() >= 2 && a <= v.len() - 2 && v[a] == '.' && v[a + 1] == '/'
        invariant
            a <= v.len(),
            strip_dot_slash(v@) == strip_dot_slash(v@.subrange(a as int, v.len() as int)),
        decreases v.len() - a,
    {
        let ghost rest = v@.subrange(a as int, v.len() as int);
        assert(rest.subrange(2, rest.len() as int) =~= v@.subrange(a + 2, v.len() as int));
        a = a + 2;
    }
    let mut stripped: Vec<char> = Vec::new();
    let mut i = a;
    while i < v.len()
        invariant
            a <= i <= v.len(),
            stripped@ == v@.subrange(a as int, i as int),
        decreases v.len() - i,
    {
        stripped.push(v[i]);
        i = i + 1;
        assert(v@.subrange(a as int, i as int) =~= v@.subrange(a as int, i - 1).push(v@[i - 1]));
    }
    stripped
}

/// See [`spec_clean_relative`].
pub fn clean_relative(rel: &str) -> (r: Option<String>)
    ensures
        match spec_clean_relative(rel@) {
            Some(c) => r matches Some(s) && s@ == c,
            None => r is None,
        },
{
    let v = chars_of(rel);
    let stripped = strip_dot_slash_exec(&v);
    let clean = unify_separators_exec(&stripped);
    let mut dots: Vec<char> = Vec::new();
    dots.push('.');
    dots.push('.');
    assert(dots@ =~= seq!['.', '.']);
    if clean.len() == 0 || contains(&clean, &dots) || has_char(&clean, '\0') || clean[0] == '/' {
        None
    } else {
        Some(string_of(clean))
    }
}

/// A pack-relative file, resolved: the canonical file path provided the name
/// cleans (see [`spec_clean_relative`]), both the canonical pack directory
/// and the canonical joined file resolved, and the file lies inside the
/// directory.
pub fn contained_file(rel: &str, canon_dir: Option<&str>, canon_file: Option<&str>) -> (r: Option<
    String,
>)
    ensures
        match (spec_clean_relative(rel@), canon_dir, canon_file) {
            (Some(_), Some(d), Some(f)) => if path_starts_with(f@, d@) {
                r matches Some(s) && s@ == f@
            } else {
                r is None
            },
            _ => r is None,
        },
{
    if clean_relative(rel).is_none() {
        return None;
    }
    contained_dir(canon_dir, canon_file)
}

/// Whether a trimmed stamp line names a preinstalled pack: a plain,
/// single-level directory name.
pub open spec fn stamp_name_ok(id: Seq<char>) -> bool {
    id.len() > 0 && !id.contains('/') && !contains_seq(id, seq!['.', '.']) && id[0] != '-'
}

/// The pack id for a preinstalled directory name.
pub open spec fn keyboard_id(name: Seq<char>) -> Seq<char> {
    "keyboard/"@ + name
}

/// `id` is listed by the stamp text: some line, trimmed, is an acceptable
/// name whose pack id is `id`.
pub open spec fn stamp_lists(stamp: Seq<char>, id: Seq<char>) -> bool {
    exists|k: int|
        0 <= k < split_on(stamp, '\n').len() && stamp_name_ok(trim(#[trigger] split_on(stamp, '\n')[k]))
            && id == keyboard_id(trim(split_on(stamp, '\n')[k]))
}

/// `id` is listed by one of the first `k` lines of the stamp text.
pub open spec fn listed_in_first(stamp: Seq<char>, k: int, id: Seq<char>) -> bool {
    exists|m: int|
        0 <= m < k && m < split_on(stamp, '\n').len() && stamp_name_ok(
            trim(#[trigger] split_on(stamp, '\n')[m]),
        ) && id == keyboard_id(trim(split_on(stamp, '\n')[m]))
}

/// `id` is the text of one of the strings in `out`.
pub open spec fn listed_in_output(out: Seq<String>, id: Seq<char>) -> bool {
    exists|i: int| 0 <= i < out.len() && #[trigger] out[i]@ == id
}

/// Preinstalled pack ids (`keyboard/<name>`) from the install stamp text, one
/// directory name per line. Lines are trimmed; empty lines, lines holding
/// `/` or `..`, and lines starting with `-` are ignored, so a hand-edited
/// stamp cannot name paths. Each id appears once.
pub fn bundled_pack_ids(stamp: &str) -> (r: Vec<String>)
    ensures
        forall|id: Seq<char>| #[trigger] stamp_lists(stamp@, id) <==> listed_in_output(r@, id),
        forall|i: int, j: int| 0 <= i < j < r@.len() ==> r@[i]@ != r@[j]@,
{
    let text = chars_of(stamp);
    let lines = split_chars(&text, '\n');
    let prefix = chars_of("keyboard/");
    let mut out: Vec<String> = Vec::new();
    let mut k: usize = 0;
    let mut dots: Vec<char> = Vec::new();
    dots.push('.');
    dots.push('.');
    assert(dots@ =~= seq!['.', '.']);
    while k < lines.len()
        invariant
            k <= lines.len(),
            dots@ == seq!['.', '.'],
            prefix@ == "keyboard/"@,
            views(lines@) == split_on(stamp@, '\n'),
            forall|id: Seq<char>| #[trigger]
                listed_in_first(stamp@, k as int, id) <==> listed_in_output(out@, id),
            forall|i: int, j: int| 0 <= i < j < out@.len() ==> out@[i]@ != out@[j]@,
        decreases lines.len() - k,
    {
        let t = trim_chars(&lines[k]);
        let ghost line = split_on(stamp@, '\n')[k as int];
        assert(t@ == trim(line));
        let ok = t.len() > 0 && !has_char(&t, '/') && !contains(&t, &dots) && t[0] != '-';
        let ghost o0 = out@;
        if ok {
            let mut id = prefix.clone();
            crate::text::push_all(&mut id, &t);
            assert(id@ == keyboard_id(trim(line)));
            let mut seen = false;
            let mut i: usize = 0;
            while i < out.len()
                invariant
                    i <= out.len(),
                    !seen ==> forall|j: int| 0 <= j < i ==> out@[j]@ != id@,
                    seen ==> listed_in_output(out@, id@),
                decreases out.len() - i,
            {
                let oc = chars_of(out[i].as_str());
                if crate::paths::chars_eq(&oc, &id) {
                    seen = true;
                }
                i = i + 1;
            }
            if !seen {
                let s = string_of(id);
                out.push(s);
                assert(out@ == o0.push(s));
                assert(out@[out@.len() - 1]@ == id@);
            } else {
                assert(out@ == o0);
            }
            assert forall|idv: Seq<char>| #[trigger]
                listed_in_first(stamp@, k + 1, idv) implies listed_in_output(out@, idv) by {
                let m = choose|m: int|
                    0 <= m < k + 1 && m < split_on(stamp@, '\n').len() && stamp_name_ok(
                        trim(#[trigger] split_on(stamp@, '\n')[m]),
                    ) && idv == keyboard_id(trim(split_on(stamp@, '\n')[m]));
                if m < k {
                    assert(listed_in_first(stamp@, k as int, idv));
                    assert(listed_in_output(o0, idv));
                    let i = choose|i: int| 0 <= i < o0.len() && #[trigger] o0[i]@ == idv;
                    assert(out@[i]@ == idv);
                } else {
                    assert(idv == id@);
                    if !seen {
                        assert(out@[out@.len() - 1]@ == idv);
                    }
                }
            }
            assert forall|idv: Seq<char>| #[trigger]
                listed_in_output(out@, idv) implies listed_in_first(stamp@, k + 1, idv) by {
                let i = choose|i: int| 0 <= i < out@.len() && #[trigger] out@[i]@ == idv;
                if i < o0.len() {
                    assert(o0[i]@ == idv);
                    assert(listed_in_output(o0, idv));
                    assert(listed_in_first(stamp@, k as int, idv));
                    let m = choose|m: int|
                        0 <= m < k && m < split_on(stamp@, '\n').len() && stamp_name_ok(
                            trim(#[trigger] split_on(stamp@, '\n')[m]),
                        ) && idv == keyboard_id(trim(split_on(stamp@, '\n')[m]));
                    assert(0 <= m < k + 1);
                } else {
                    assert(idv == id@);
                    assert(stamp_name_ok(trim(split_on(stamp@, '\n')[k as int])));
                }
            }
        } else {
            assert(!stamp_name_ok(trim(line)));
            assert forall|idv: Seq<char>| #[trigger]
                listed_in_first(stamp@, k + 1, idv) <==> listed_in_output(out@, idv) by {
                if listed_in_first(stamp@, k + 1, idv) {
                    let m = choose|m: int|
                        0 <= m < k + 1 && m < split_on(stamp@, '\n').len() && stamp_name_ok(
                            trim(#[trigger] split_on(stamp@, '\n')[m]),
                        ) && idv == keyboard_id(trim(split_on(stamp@, '\n')[m]));
                    assert(m < k);
                    assert(listed_in_first(stamp@, k as int, idv));
                }
                if listed_in_output(out@, idv) {
                    assert(listed_in_first(stamp@, k as int, idv));
                }
            }
        }
        k = k + 1;
    }
    assert forall|id: Seq<char>| #[trigger]
        stamp_lists(stamp@, id) <==> listed_in_output(out@, id) by {
        if stamp_lists(stamp@, id) {
            assert(listed_in_first(stamp@, lines.len() as int, id));
        }
        if listed_in_output(out@, id) {
            assert(listed_in_first(stamp@, lines.len() as int, id));
        }
    }
    out
}

} // verus!

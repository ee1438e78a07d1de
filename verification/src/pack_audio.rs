//! Which audio file each key of a V2 pack plays, and the list of files a
//! partly broken pack could not load.

use vstd::prelude::*;
use crate::control::{sort_ids, sorted_texts, text_le};
use crate::pack_checker::string_texts;
use crate::text::{chars_of, push_str, string_of};

verus! {

/// The files keys play, key by key in the order given: in a multi-method
/// pack each key's own file (a key without one stays silent and is left
/// out); otherwise every key plays the pack's shared file.
pub open spec fn spec_key_audio(
    multi: bool,
    shared: Seq<char>,
    keys: Seq<(Seq<char>, Option<Seq<char>>)>,
) -> Seq<(Seq<char>, Seq<char>)>
    decreases keys.len(),
{
    if keys.len() == 0 {
        Seq::empty()
    } else {
        let rest = spec_key_audio(multi, shared, keys.drop_last());
        let key = keys.last().0;
        if !multi {
            rest.push((key, shared))
        } else {
            match keys.last().1 {
                Some(own) => rest.push((key, own)),
                None => rest,
            }
        }
    }
}

/// The key-to-file plan of a pack: a single-method pack must name its
/// shared `audio_file`.
pub open spec fn spec_pack_audio_plan(
    multi: bool,
    shared: Option<Seq<char>>,
    keys: Seq<(Seq<char>, Option<Seq<char>>)>,
) -> Result<Seq<(Seq<char>, Seq<char>)>, Seq<char>> {
    if multi {
        Ok(spec_key_audio(true, Seq::empty(), keys))
    } else {
        match shared {
            Some(s) => Ok(spec_key_audio(false, s, keys)),
            None => Err("No audio_file field in soundpack config"@),
        }
    }
}

/// Key names with their optional own file, as texts.
pub open spec fn key_texts(keys: Seq<(String, Option<String>)>) -> Seq<(Seq<char>, Option<Seq<char>>)> {
    keys.map_values(
        |k: (String, Option<String>)|
            (
                k.0@,
                match k.1 {
                    Some(f) => Some(f@),
                    None => None,
                },
            ),
    )
}

/// Key-file pairs as texts.
pub open spec fn pair_texts(pairs: Seq<(String, String)>) -> Seq<(Seq<char>, Seq<char>)> {
    pairs.map_values(|p: (String, String)| (p.0@, p.1@))
}

/// See [`spec_pack_audio_plan`]: `keys` pairs each key name with the file
/// its definition names, if any.
pub fn pack_audio_plan(
    multi: bool,
    shared: Option<&String>,
    keys: &Vec<(String, Option<String>)>,
) -> (r: Result<Vec<(String, String)>, String>)
    ensures
        match (
            r,
            spec_pack_audio_plan(
                multi,
                match shared {
                    Some(s) => Some(s@),
                    None => None,
                },
                key_texts(keys@),
            ),
        ) {
            (Ok(p), Ok(q)) => pair_texts(p@) == q,
            (Err(e), Err(m)) => e@ == m,
            _ => false,
        },
{
    let shared_file: String = if multi {
        String::new()
    } else {
        match shared {
            Some(s) => s.clone(),
            None => {
                return Err(String::from_str("No audio_file field in soundpack config"));
            },
        }
    };
    let ghost sh: Seq<char> = if multi {
        Seq::empty()
    } else {
        shared_file@
    };
    proof {
        if multi {
            assert(shared_file@ =~= Seq::<char>::empty());
        }
    }
    let ghost all = key_texts(keys@);
    let mut out: Vec<(String, String)> = Vec::new();
    let mut i: usize = 0;
    assert(all.subrange(0, 0) =~= Seq::<(Seq<char>, Option<Seq<char>>)>::empty());
    assert(pair_texts(out@) =~= Seq::<(Seq<char>, Seq<char>)>::empty());
    while i < keys.len()
        invariant
            i <= keys@.len(),
            all == key_texts(keys@),
            sh == shared_file@,
            pair_texts(out@) == spec_key_audio(multi, sh, all.subrange(0, i as int)),
        decreases keys.len() - i,
    {
        let ghost before = out@;
        assert(all.subrange(0, i + 1).drop_last() =~= all.subrange(0, i as int));
        assert(all.subrange(0, i + 1).last() == all[i as int]);
        let key = &keys[i].0;
        if !multi {
            out.push((key.clone(), shared_file.clone()));
            assert(pair_texts(out@) =~= pair_texts(before).push((key@, sh)));
        } else {
            match &keys[i].1 {
                Some(own) => {
                    out.push((key.clone(), own.clone()));
                    assert(pair_texts(out@) =~= pair_texts(before).push((key@, own@)));
                },
                None => {},
            }
        }
        i = i + 1;
    }
    assert(all.subrange(0, keys@.len() as int) =~= all);
    Ok(out)
}

/// The error of the first key whose audio failed to load, from `i` on.
pub open spec fn first_failure(outcomes: Seq<Result<(), String>>, i: int) -> Option<Seq<char>>
    decreases outcomes.len() - i,
{
    if i < 0 || i >= outcomes.len() {
        None
    } else {
        match outcomes[i] {
            Err(e) => Some(e@),
            Ok(_) => first_failure(outcomes, i + 1),
        }
    }
}

/// Some key's audio loaded.
pub open spec fn any_loaded(outcomes: Seq<Result<(), String>>) -> bool {
    exists|i: int| 0 <= i < outcomes.len() && outcomes[i] is Ok
}

/// Whether a pack is usable once its planned keys' audio was loaded
/// (`outcomes[k]` for the `k`-th key of the plan): a failure in a
/// single-method pack fails the load with that error, since every key
/// shares the file; a multi-method pack plays what did load, and fails only
/// when nothing did.
pub open spec fn spec_pack_load_result(
    soundpack_id: Seq<char>,
    multi: bool,
    outcomes: Seq<Result<(), String>>,
) -> Result<(), Seq<char>> {
    if !multi && first_failure(outcomes, 0) is Some {
        Err(first_failure(outcomes, 0).unwrap())
    } else if !any_loaded(outcomes) {
        Err("No audio files could be loaded for soundpack '"@ + soundpack_id + "'"@)
    } else {
        Ok(())
    }
}

/// See [`spec_pack_load_result`].
pub fn pack_load_result(soundpack_id: &str, multi: bool, outcomes: &Vec<Result<(), String>>) -> (r:
    Result<(), String>)
    ensures
        match (r, spec_pack_load_result(soundpack_id@, multi, outcomes@)) {
            (Ok(_), Ok(_)) => true,
            (Err(e), Err(m)) => e@ == m,
            _ => false,
        },
{
    let mut i: usize = 0;
    let mut loaded = false;
    let mut failure: Option<String> = None;
    while i < outcomes.len()
        invariant
            i <= outcomes@.len(),
            loaded == exists|k: int| 0 <= k < i && outcomes@[k] is Ok,
            match failure {
                Some(e) => first_failure(outcomes@, 0) == Some(e@),
                None => first_failure(outcomes@, 0) == first_failure(outcomes@, i as int),
            },
        decreases outcomes.len() - i,
    {
        match &outcomes[i] {
            Ok(_) => {
                loaded = true;
            },
            Err(e) => {
                if failure.is_none() {
                    failure = Some(e.clone());
                }
            },
        }
        i = i + 1;
    }
    if !multi {
        if let Some(e) = failure {
            return Err(e);
        }
    }
    if !loaded {
        let mut out = chars_of("No audio files could be loaded for soundpack '");
        push_str(&mut out, soundpack_id);
        push_str(&mut out, "'");
        return Err(string_of(out));
    }
    Ok(())
}

/// Texts that are strictly increasing: sorted, and none twice.
pub open spec fn strictly_sorted(s: Seq<Seq<char>>) -> bool {
    &&& sorted_texts(s)
    &&& forall|i: int, j: int| 0 <= i < j < s.len() ==> #[trigger] s[i] != #[trigger] s[j]
}

/// Two texts ordered both ways are the same text.
pub proof fn lemma_text_le_antisymmetric(a: Seq<char>, b: Seq<char>)
    requires
        text_le(a, b),
        text_le(b, a),
    ensures
        a == b,
    decreases a.len(),
{
    if a.len() > 0 && b.len() > 0 {
        assert((a[0] as u32) == (b[0] as u32));
        let x = a[0];
        let y = b[0];
        vstd::utf8::char_u32_cast(x, x as u32);
        vstd::utf8::char_u32_cast(y, y as u32);
        assert(x == y);
        lemma_text_le_antisymmetric(a.drop_first(), b.drop_first());
        assert(a =~= seq![a[0]] + a.drop_first());
        assert(b =~= seq![b[0]] + b.drop_first());
    }
}

/// The files that failed to load, once each, in sorted order (how the
/// load's summary names them).
pub fn dead_files(failed: &Vec<String>) -> (r: Vec<String>)
    ensures
        strictly_sorted(string_texts(r@)),
        string_texts(r@).to_set() == string_texts(failed@).to_set(),
{
    broadcast use vstd::seq_lib::group_to_multiset_ensures;

    let sorted = sort_ids(failed);
    let ghost s = string_texts(sorted@);
    proof {
        assert forall|x: Seq<char>| s.contains(x) <==> string_texts(failed@).contains(x) by {
            assert(s.to_multiset().count(x) == string_texts(failed@).to_multiset().count(x));
        }
        assert(s.to_set() =~= string_texts(failed@).to_set());
    }
    let mut out: Vec<String> = Vec::new();
    let mut last: Vec<char> = Vec::new();
    let mut i: usize = 0;
    assert(string_texts(out@) =~= Seq::<Seq<char>>::empty());
    assert(s.subrange(0, 0).to_set() =~= Set::<Seq<char>>::empty());
    while i < sorted.len()
        invariant
            i <= sorted@.len(),
            s == string_texts(sorted@),
            sorted_texts(s),
            strictly_sorted(string_texts(out@)),
            string_texts(out@).to_set() == s.subrange(0, i as int).to_set(),
            i > 0 ==> string_texts(out@).len() > 0 && last@ == s[i - 1] && string_texts(
                out@,
            ).last() == s[i - 1],
            i == 0 ==> out@.len() == 0,
        decreases sorted.len() - i,
    {
        let x = chars_of(sorted[i].as_str());
        let ghost o = string_texts(out@);
        let fresh = i == 0 || !crate::paths::chars_eq(&last, &x);
        proof {
            assert(s.subrange(0, i + 1) =~= s.subrange(0, i as int).push(s[i as int]));
            s.subrange(0, i as int).lemma_push_to_set_commute(s[i as int]);
            o.lemma_push_to_set_commute(s[i as int]);
        }
        if fresh {
            proof {
                // every kept text comes before s[i] and differs from it
                assert forall|k: int| 0 <= k < o.len() implies text_le(o[k], s[i as int]) && o[k]
                    != s[i as int] by {
                    assert(o.to_set().contains(o[k]));
                    assert(s.subrange(0, i as int).to_set().contains(o[k]));
                    let j = choose|j: int| 0 <= j < i && s.subrange(0, i as int)[j] == o[k];
                    assert(s[j] == o[k]);
                    assert(text_le(s[j], s[i as int]));
                    if o[k] == s[i as int] {
                        assert(text_le(s[j], s[i - 1]) || j == i - 1);
                        assert(text_le(s[i - 1], s[i as int]));
                        if j < i - 1 {
                            lemma_text_le_antisymmetric(s[i - 1], s[i as int]);
                        }
                    }
                }
            }
            out.push(sorted[i].clone());
            let ghost n = string_texts(out@);
            assert(n =~= o.push(s[i as int]));
            assert(n.to_set() =~= o.to_set().insert(s[i as int]));
            assert forall|a: int, b: int| 0 <= a < b < n.len() implies text_le(
                #[trigger] n[a],
                #[trigger] n[b],
            ) && n[a] != n[b] by {
                if b == o.len() {
                    assert(n[a] == o[a]);
                } else {
                    assert(n[a] == o[a] && n[b] == o[b]);
                }
            }
        } else {
            proof {
                assert(s.subrange(0, i as int).to_set().contains(s[i - 1])) by {
                    assert(s.subrange(0, i as int)[i - 1] == s[i - 1]);
                }
                assert(s.subrange(0, i + 1).to_set() =~= s.subrange(0, i as int).to_set());
            }
        }
        last = x;
        i = i + 1;
    }
    assert(s.subrange(0, sorted@.len() as int) =~= s);
    out
}

} // verus!

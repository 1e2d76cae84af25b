//! Environment layers and how they combine.
use vstd::prelude::*;

verus! {

/// The pairs of an environment as character sequences.
pub open spec fn pairs_view(e: Seq<(String, String)>) -> Seq<(Seq<char>, Seq<char>)> {
    e.map_values(|p: (String, String)| (p.0@, p.1@))
}

/// The pairs of an optional environment (none when absent).
pub open spec fn env_view(e: Option<Vec<(String, String)>>) -> Seq<(Seq<char>, Seq<char>)> {
    match e {
        Some(v) => pairs_view(v@),
        None => Seq::empty(),
    }
}

/// The variables that a list of pairs sets: a later pair wins over an earlier
/// one with the same key.
pub open spec fn env_map(s: Seq<(Seq<char>, Seq<char>)>) -> Map<Seq<char>, Seq<char>>
    decreases s.len(),
{
    if s.len() == 0 {
        Map::empty()
    } else {
        env_map(s.drop_last()).insert(s.last().0, s.last().1)
    }
}

/// No key occurs in two pairs.
pub open spec fn unique_keys(s: Seq<(Seq<char>, Seq<char>)>) -> bool {
    forall|i: int, j: int| 0 <= i < j < s.len() ==> s[i].0 != s[j].0
}

/// Some pair has key `k`.
pub open spec fn has_key(s: Seq<(Seq<char>, Seq<char>)>, k: Seq<char>) -> bool {
    exists|j: int| 0 <= j < s.len() && #[trigger] s[j].0 == k
}

/// Sets one variable: the pair with the same key takes the new value in its
/// place; without one, the pair goes at the end.
pub open spec fn put(s: Seq<(Seq<char>, Seq<char>)>, p: (Seq<char>, Seq<char>)) -> Seq<(Seq<char>, Seq<char>)>
    decreases s.len(),
{
    if !has_key(s, p.0) {
        s.push(p)
    } else if s.last().0 == p.0 {
        s.drop_last().push(p)
    } else {
        put(s.drop_last(), p).push(s.last())
    }
}

/// Sets the variables of `b`, in order, over those of `a`.
pub open spec fn overlay(a: Seq<(Seq<char>, Seq<char>)>, b: Seq<(Seq<char>, Seq<char>)>) -> Seq<(Seq<char>, Seq<char>)>
    decreases b.len(),
{
    if b.len() == 0 {
        a
    } else {
        put(overlay(a, b.drop_last()), b.last())
    }
}

/// The environment a container runs with: a fresh mapping filled with the
/// inherited pairs, then with its own; one pair per key.
pub open spec fn layered(inherited: Seq<(Seq<char>, Seq<char>)>, own: Seq<(Seq<char>, Seq<char>)>) -> Seq<
    (Seq<char>, Seq<char>),
> {
    overlay(overlay(Seq::empty(), inherited), own)
}

proof fn lemma_put(s: Seq<(Seq<char>, Seq<char>)>, p: (Seq<char>, Seq<char>))
    requires
        unique_keys(s),
    ensures
        unique_keys(put(s, p)),
        env_map(put(s, p)) == env_map(s).insert(p.0, p.1),
        forall|i: int|
            0 <= i < put(s, p).len() ==> #[trigger] put(s, p)[i].0 == p.0 || has_key(s, put(s, p)[i].0),
        has_key(s, p.0) ==> put(s, p).len() == s.len(),
        !has_key(s, p.0) ==> put(s, p) == s.push(p),
    decreases s.len(),
{
    if !has_key(s, p.0) {
        let r = s.push(p);
        assert(r.drop_last() =~= s);
        assert(env_map(r) =~= env_map(s).insert(p.0, p.1));
        assert forall|i: int| 0 <= i < r.len() implies #[trigger] r[i].0 == p.0 || has_key(s, r[i].0) by {
            if i < r.len() - 1 {
                assert(s[i].0 == r[i].0);
            }
        }
        assert forall|i: int, j: int| 0 <= i < j < r.len() implies r[i].0 != r[j].0 by {
            if j == r.len() - 1 {
                assert(s[i].0 == r[i].0);
            }
        }
    } else if s.last().0 == p.0 {
        let r = s.drop_last().push(p);
        assert(r.drop_last() =~= s.drop_last());
        assert(env_map(r) =~= env_map(s).insert(p.0, p.1));
        assert forall|i: int| 0 <= i < r.len() implies #[trigger] r[i].0 == p.0 || has_key(s, r[i].0) by {
            if i < r.len() - 1 {
                assert(s[i].0 == r[i].0);
            }
        }
        assert(has_key(s, p.0)) by {
            assert(s[s.len() - 1].0 == p.0);
        }
    } else {
        let t = s.drop_last();
        let j0 = choose|j: int| 0 <= j < s.len() && #[trigger] s[j].0 == p.0;
        assert(t[j0].0 == p.0);
        lemma_put(t, p);
        let r = put(t, p).push(s.last());
        assert(r.drop_last() =~= put(t, p));
        assert(env_map(r) =~= env_map(s).insert(p.0, p.1));
        assert forall|i: int| 0 <= i < r.len() implies #[trigger] r[i].0 == p.0 || has_key(s, r[i].0) by {
            if i < r.len() - 1 {
                if r[i].0 != p.0 {
                    let j = choose|j: int| 0 <= j < t.len() && #[trigger] t[j].0 == r[i].0;
                    assert(s[j].0 == r[i].0);
                }
            } else {
                assert(s[s.len() - 1].0 == r[i].0);
            }
        }
        assert forall|i: int, j: int| 0 <= i < j < r.len() implies r[i].0 != r[j].0 by {
            if j == r.len() - 1 {
                assert(put(t, p)[i].0 == r[i].0);
                if r[i].0 != p.0 {
                    let jj = choose|jj: int| 0 <= jj < t.len() && #[trigger] t[jj].0 == r[i].0;
                    assert(s[jj].0 == t[jj].0);
                }
            }
        }
    }
}

/// Setting the variables of `b` over a list with one pair per key keeps one
/// pair per key and gives the first list's variables overlaid by `b`'s.
pub proof fn lemma_overlay(a: Seq<(Seq<char>, Seq<char>)>, b: Seq<(Seq<char>, Seq<char>)>)
    requires
        unique_keys(a),
    ensures
        unique_keys(overlay(a, b)),
        env_map(overlay(a, b)) == env_map(a).union_prefer_right(env_map(b)),
    decreases b.len(),
{
    if b.len() == 0 {
        assert(env_map(a).union_prefer_right(env_map(b)) =~= env_map(a));
    } else {
        lemma_overlay(a, b.drop_last());
        lemma_put(overlay(a, b.drop_last()), b.last());
        assert(env_map(overlay(a, b)) =~= env_map(a).union_prefer_right(env_map(b)));
    }
}

/// The layered environment has one pair per key, and sets the inherited
/// variables overlaid by the container's own.
pub proof fn lemma_layered(inherited: Seq<(Seq<char>, Seq<char>)>, own: Seq<(Seq<char>, Seq<char>)>)
    ensures
        unique_keys(layered(inherited, own)),
        env_map(layered(inherited, own)) == env_map(inherited).union_prefer_right(env_map(own)),
{
    lemma_overlay(Seq::empty(), inherited);
    lemma_overlay(overlay(Seq::empty(), inherited), own);
    assert(env_map(Seq::<(Seq<char>, Seq<char>)>::empty()).union_prefer_right(env_map(inherited)) =~= env_map(inherited));
}

/// Sets the variables of `map2`, in order, in `map`: a key already present
/// takes the new value in its place, a new key is added at the end.
pub fn merge_from_ref(map: &mut Vec<(String, String)>, map2: &Vec<(String, String)>)
    requires
        unique_keys(pairs_view(old(map)@)),
    ensures
        pairs_view(final(map)@) == overlay(pairs_view(old(map)@), pairs_view(map2@)),
        unique_keys(pairs_view(final(map)@)),
        env_map(pairs_view(final(map)@)) == env_map(pairs_view(old(map)@)).union_prefer_right(
            env_map(pairs_view(map2@)),
        ),
{
    let ghost start = pairs_view(map@);
    let mut i: usize = 0;
    while i < map2.len()
        invariant
            i <= map2@.len(),
            unique_keys(start),
            pairs_view(map@) == overlay(start, pairs_view(map2@.subrange(0, i as int))),
            unique_keys(pairs_view(map@)),
        decreases map2@.len() - i,
    {
        let ghost prev = pairs_view(map@);
        let ghost p = (map2@[i as int].0@, map2@[i as int].1@);
        proof {
            lemma_put(prev, p);
        }
        let mut j: usize = 0;
        while j < map.len() && !map[j].0.eq(&map2[i].0)
            invariant
                i < map2@.len(),
                prev == pairs_view(map@),
                p == (map2@[i as int].0@, map2@[i as int].1@),
                j <= map@.len(),
                forall|jj: int| 0 <= jj < j ==> prev[jj].0 != p.0,
            decreases map@.len() - j,
        {
            j = j + 1;
        }
        let k = map2[i].0.clone();
        let v = map2[i].1.clone();
        if j < map.len() {
            map.set(j, (k, v));
            proof {
                lemma_put_at(prev, p, j as int);
            }
            assert(pairs_view(map@) =~= prev.update(j as int, p));
        } else {
            map.push((k, v));
            assert(!has_key(prev, p.0));
            assert(pairs_view(map@) =~= prev.push(p));
        }
        i = i + 1;
        let ghost part = pairs_view(map2@.subrange(0, i as int));
        assert(part.drop_last() =~= pairs_view(map2@.subrange(0, i - 1)));
        assert(part.last() == p);
    }
    assert(map2@.subrange(0, i as int) == map2@);
    proof {
        lemma_overlay(start, pairs_view(map2@));
    }
}

proof fn lemma_put_at(s: Seq<(Seq<char>, Seq<char>)>, p: (Seq<char>, Seq<char>), j: int)
    requires
        unique_keys(s),
        0 <= j < s.len(),
        s[j].0 == p.0,
    ensures
        put(s, p) == s.update(j, p),
    decreases s.len(),
{
    assert(has_key(s, p.0));
    if j == s.len() - 1 {
        assert(s.drop_last().push(p) =~= s.update(j, p));
    } else {
        assert(s.drop_last()[j].0 == p.0);
        lemma_put_at(s.drop_last(), p, j);
        assert(put(s.drop_last(), p).push(s.last()) =~= s.update(j, p));
    }
}

/// The environment a container runs with: the inherited pairs, then its own,
/// one pair per key with the container's value winning.
pub fn merged_env(
    inherited: &Option<Vec<(String, String)>>,
    own: &Option<Vec<(String, String)>>,
) -> (r: Vec<(String, String)>)
    ensures
        pairs_view(r@) == layered(env_view(*inherited), env_view(*own)),
        unique_keys(pairs_view(r@)),
        env_map(pairs_view(r@)) == env_map(env_view(*inherited)).union_prefer_right(
            env_map(env_view(*own)),
        ),
{
    let mut r: Vec<(String, String)> = Vec::new();
    assert(pairs_view(r@) =~= Seq::empty());
    if let Some(e) = inherited {
        merge_from_ref(&mut r, e);
    } else {
        assert(overlay(Seq::empty(), env_view(*inherited)) == Seq::<(Seq<char>, Seq<char>)>::empty());
    }
    assert(pairs_view(r@) == overlay(Seq::empty(), env_view(*inherited)));
    if let Some(e) = own {
        merge_from_ref(&mut r, e);
    }
    proof {
        lemma_layered(env_view(*inherited), env_view(*own));
    }
    r
}

} // verus!

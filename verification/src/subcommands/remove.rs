//! `ferium remove`: finding the mods named, and removing them from the profile.
use crate::add::swap_removed;
use crate::config::structs::{Mod, ModIdentifierView, Profile};
use crate::text::{concat, eq_ignore_ascii_case, eq_ignore_ascii_case_spec, i32_decimal, i32_to_string, str_eq, views};
use crate::config::structs::ModIdentifier;
use vstd::prelude::*;

verus! {

/// Whether an identifier is given by `s`: a CurseForge project by its number,
/// a Modrinth project by its id, a repository by `owner/name` (ignoring ASCII case).
pub open spec fn identifier_given_by(id: ModIdentifierView, s: Seq<char>) -> bool {
    match id {
        ModIdentifierView::CurseForgeProject(n) => i32_decimal(n) == s,
        ModIdentifierView::PinnedCurseForgeProject(n, _) => i32_decimal(n) == s,
        ModIdentifierView::ModrinthProject(p) => p == s,
        ModIdentifierView::PinnedModrinthProject(p, _) => p == s,
        ModIdentifierView::GitHubRepository(o, r) => eq_ignore_ascii_case_spec(o + "/"@ + r, s),
        ModIdentifierView::PinnedGitHubRepository(o, r, _) => eq_ignore_ascii_case_spec(o + "/"@ + r, s),
    }
}

/// Whether `s` names the mod: its name or slug (ignoring ASCII case), or its identifier.
pub open spec fn names_mod(m: Mod, s: Seq<char>) -> bool {
    ||| eq_ignore_ascii_case_spec(m.name@, s)
    ||| identifier_given_by(m.identifier@, s)
    ||| (m.slug matches Some(slug) && eq_ignore_ascii_case_spec(s, slug@))
}

/// The index of the first mod that `s` names.
pub open spec fn first_mod_named(mods: Seq<Mod>, s: Seq<char>) -> Option<int> {
    if exists|i: int| 0 <= i < mods.len() && names_mod(mods[i], s) {
        Some(choose|i: int| 0 <= i < mods.len() && names_mod(mods[i], s) && forall|j: int| 0 <= j < i ==> !names_mod(mods[j], s))
    } else {
        None
    }
}

fn identifier_is(id: &ModIdentifier, s: &String) -> (r: bool)
    ensures
        r == identifier_given_by(id@, s@),
{
    match id {
        ModIdentifier::CurseForgeProject(n) | ModIdentifier::PinnedCurseForgeProject(n, _) => {
            let t = i32_to_string(*n);
            str_eq(t.as_str(), s.as_str())
        },
        ModIdentifier::ModrinthProject(p) | ModIdentifier::PinnedModrinthProject(p, _) => str_eq(p.as_str(), s.as_str()),
        ModIdentifier::GitHubRepository(o, r) | ModIdentifier::PinnedGitHubRepository((o, r), _) => {
            let a = concat(o.as_str(), "/");
            let full = concat(a.as_str(), r.as_str());
            eq_ignore_ascii_case(full.as_str(), s.as_str())
        },
    }
}

/// The index of the first mod that `s` names.
pub fn mod_named(mods: &Vec<Mod>, s: &String) -> (r: Option<usize>)
    ensures
        r matches Some(i) ==> i < mods.len() && first_mod_named(mods@, s@) == Some(i as int),
        r is None ==> first_mod_named(mods@, s@) is None,
{
    let mut i: usize = 0;
    while i < mods.len()
        invariant
            i <= mods.len(),
            forall|j: int| 0 <= j < i ==> !names_mod(mods@[j], s@),
        decreases mods.len() - i,
    {
        let m = &mods[i];
        let by_slug = match &m.slug {
            Some(slug) => eq_ignore_ascii_case(s.as_str(), slug.as_str()),
            None => false,
        };
        if eq_ignore_ascii_case(m.name.as_str(), s.as_str()) || identifier_is(&m.identifier, s) || by_slug {
            assert(names_mod(mods@[i as int], s@));
            assert forall|k: int|
                0 <= k < mods.len() && names_mod(mods@[k], s@) && (forall|j: int| 0 <= j < k ==> !names_mod(mods@[j], s@)) implies k == i by {
                if k > i {
                    assert(!names_mod(mods@[i as int], s@));
                }
            }
            return Some(i);
        }
        i = i + 1;
    }
    None
}

/// The index of the mod each of `names` names, in order; all must be found.
pub open spec fn named_indices(mods: Seq<Mod>, names: Seq<Seq<char>>) -> Option<Seq<usize>>
    decreases names.len(),
{
    if names.len() == 0 {
        Some(Seq::empty())
    } else {
        match (named_indices(mods, names.drop_last()), first_mod_named(mods, names.last())) {
            (Some(ix), Some(i)) => Some(ix.push(i as usize)),
            _ => None,
        }
    }
}

/// Where the mod at `k` is named by `s`, some mod at or before `k` is the
/// first one named by it.
proof fn lemma_first_named_exists(mods: Seq<Mod>, s: Seq<char>, k: int)
    requires
        0 <= k < mods.len(),
        names_mod(mods[k], s),
    ensures
        exists|i: int| 0 <= i <= k && names_mod(mods[i], s) && forall|j: int| 0 <= j < i ==> !names_mod(mods[j], s),
    decreases k,
{
    if exists|j: int| 0 <= j < k && names_mod(mods[j], s) {
        let j = choose|j: int| 0 <= j < k && names_mod(mods[j], s);
        lemma_first_named_exists(mods, s, j);
    } else {
        assert(0 <= k <= k && names_mod(mods[k], s) && forall|j: int| 0 <= j < k ==> !names_mod(mods[j], s));
    }
}

/// A mod can be removed by any text that names it: its name or its slug in
/// any ASCII case, the number of its CurseForge project, the id of its
/// Modrinth project, or `owner/name` of its repository in any ASCII case.
/// The mod found is that one, or one listed before it.
pub proof fn lemma_mod_found_by_its_keys(mods: Seq<Mod>, s: Seq<char>, k: int)
    requires
        0 <= k < mods.len(),
        eq_ignore_ascii_case_spec(mods[k].name@, s)
            || (mods[k].slug matches Some(slug) && eq_ignore_ascii_case_spec(s, slug@))
            || (mods[k].identifier@ matches ModIdentifierView::CurseForgeProject(n) && s == i32_decimal(n))
            || (mods[k].identifier@ matches ModIdentifierView::PinnedCurseForgeProject(n, _) && s == i32_decimal(n))
            || (mods[k].identifier@ matches ModIdentifierView::ModrinthProject(p) && s == p)
            || (mods[k].identifier@ matches ModIdentifierView::PinnedModrinthProject(p, _) && s == p)
            || (mods[k].identifier@ matches ModIdentifierView::GitHubRepository(o, r)
                && eq_ignore_ascii_case_spec(o + "/"@ + r, s))
            || (mods[k].identifier@ matches ModIdentifierView::PinnedGitHubRepository(o, r, _)
                && eq_ignore_ascii_case_spec(o + "/"@ + r, s)),
    ensures
        first_mod_named(mods, s) matches Some(i) && 0 <= i <= k,
{
    assert(names_mod(mods[k], s));
    lemma_first_named_exists(mods, s, k);
    let i = first_mod_named(mods, s)->0;
    if i > k {
        assert(!names_mod(mods[k], s));
    }
}

/// Every mod of a profile can be removed by giving its name, in any ASCII
/// case: names that each match the name of some mod all find their mods.
pub proof fn lemma_names_are_removable(mods: Seq<Mod>, names: Seq<Seq<char>>)
    requires
        forall|j: int|
            #![trigger names[j]]
            0 <= j < names.len() ==> exists|k: int|
                0 <= k < mods.len() && eq_ignore_ascii_case_spec(mods[k].name@, names[j]),
    ensures
        named_indices(mods, names) is Some,
    decreases names.len(),
{
    if names.len() > 0 {
        let prev = names.drop_last();
        assert forall|j: int| #![trigger prev[j]] 0 <= j < prev.len() implies exists|k: int|
            0 <= k < mods.len() && eq_ignore_ascii_case_spec(mods[k].name@, prev[j]) by {
            assert(prev[j] == names[j]);
        }
        lemma_names_are_removable(mods, prev);
        let last = names.last();
        assert(names[names.len() - 1] == last);
        let k = choose|k: int| 0 <= k < mods.len() && eq_ignore_ascii_case_spec(mods[k].name@, last);
        assert(names_mod(mods[k], last));
        assert(first_mod_named(mods, last) is Some);
    }
}

/// The first of `names` that names no mod.
pub open spec fn first_unnamed(mods: Seq<Mod>, names: Seq<Seq<char>>) -> Seq<char> {
    names[choose|k: int| 0 <= k < names.len() && first_mod_named(mods, names[k]) is None && forall|j: int| 0 <= j < k ==> first_mod_named(mods, names[j]) is Some]
}

/// The mods that `to_remove` names: for each, the first mod it names. The
/// first that names none is an error.
#[verifier::spinoff_prover]
#[verifier::rlimit(30)]
pub fn mods_to_remove(mods: &Vec<Mod>, to_remove: &Vec<String>) -> (r: Result<Vec<usize>, String>)
    ensures
        r is Ok <==> named_indices(mods@, views(to_remove@)) is Some,
        r matches Ok(ix) ==> named_indices(mods@, views(to_remove@)) == Some(ix@),
        r matches Err(m) ==> m@ == "A mod with ID or name "@ + first_unnamed(mods@, views(to_remove@)) + " is not present in this profile"@,
{
    let ghost names = views(to_remove@);
    let mut ix: Vec<usize> = Vec::new();
    let mut k: usize = 0;
    assert(names.take(0) =~= Seq::<Seq<char>>::empty());
    while k < to_remove.len()
        invariant
            k <= to_remove.len(),
            names == views(to_remove@),
            named_indices(mods@, names.take(k as int)) == Some(ix@),
            forall|j: int| 0 <= j < k ==> first_mod_named(mods@, #[trigger] names[j]) is Some,
        decreases to_remove.len() - k,
    {
        assert(names.take(k + 1).drop_last() =~= names.take(k as int));
        assert(names.take(k + 1).last() == to_remove@[k as int]@);
        match mod_named(mods, &to_remove[k]) {
            Some(i) => {
                ix.push(i);
            },
            None => {
                assert(first_mod_named(mods@, names[k as int]) is None);
                assert(first_unnamed(mods@, names) == names[k as int]) by {
                    assert forall|q: int| 0 <= q < names.len() && first_mod_named(mods@, names[q]) is None && (forall|j: int| 0 <= j < q ==> first_mod_named(mods@, #[trigger] names[j]) is Some) implies q == k by {
                        if q < k {
                        } else if q > k {
                            assert(first_mod_named(mods@, names[k as int]) is Some);
                        }
                    }
                }
                proof {
                    lemma_named_indices_none(mods@, names, k as int);
                }
                let a = concat("A mod with ID or name ", to_remove[k].as_str());
                return Err(concat(a.as_str(), " is not present in this profile"));
            },
        }
        k = k + 1;
    }
    assert(names.take(k as int) =~= names);
    Ok(ix)
}

proof fn lemma_named_indices_none(mods: Seq<Mod>, names: Seq<Seq<char>>, k: int)
    requires
        0 <= k < names.len(),
        first_mod_named(mods, names[k]) is None,
    ensures
        named_indices(mods, names) is None,
    decreases names.len(),
{
    if k < names.len() - 1 {
        assert(names.drop_last()[k] == names[k]);
        lemma_named_indices_none(mods, names.drop_last(), k);
    }
}

/// Sorts numbers from the greatest down.
pub fn sort_descending(v: Vec<usize>) -> (r: Vec<usize>)
    ensures
        r@.to_multiset() == v@.to_multiset(),
        forall|i: int, j: int| 0 <= i < j < r.len() ==> r@[i] >= r@[j],
{
    let ghost all = v@;
    let mut r: Vec<usize> = Vec::new();
    let mut k: usize = 0;
    assert(all.take(0) =~= Seq::<usize>::empty());
    while k < v.len()
        invariant
            k <= v.len(),
            all == v@,
            r@.to_multiset() == all.take(k as int).to_multiset(),
            forall|i: int, j: int| 0 <= i < j < r.len() ==> r@[i] >= r@[j],
        decreases v.len() - k,
    {
        let x = v[k];
        let mut p: usize = 0;
        while p < r.len() && r[p] >= x
            invariant
                p <= r.len(),
                forall|i: int| 0 <= i < p ==> r@[i] >= x,
            decreases r.len() - p,
        {
            p = p + 1;
        }
        let ghost before = r@;
        proof {
            vstd::seq_lib::to_multiset_insert(before, p as int, x);
            vstd::seq_lib::to_multiset_build(all.take(k as int), x);
            assert(all.take(k + 1) =~= all.take(k as int).push(x));
        }
        r.insert(p, x);
        assert forall|i: int, j: int| 0 <= i < j < r.len() implies r@[i] >= r@[j] by {
            if j < p {
                assert(r@[i] == before[i] && r@[j] == before[j]);
            } else if j == p {
                assert(r@[i] == before[i]);
            } else if i == p {
                assert(r@[j] == before[j - 1]);
                assert(before[p as int] < x);
            } else if i < p {
                assert(r@[i] == before[i] && r@[j] == before[j - 1]);
            } else {
                assert(r@[i] == before[i - 1] && r@[j] == before[j - 1]);
            }
        }
        k = k + 1;
    }
    assert(all.take(v.len() as int) =~= all);
    r
}

/// The mods left after removing those at the indices `d`, one after the other.
pub open spec fn remove_in_order(s: Seq<Mod>, d: Seq<usize>) -> Seq<Mod>
    decreases d.len(),
{
    if d.len() == 0 {
        s
    } else {
        swap_removed(remove_in_order(s, d.drop_last()), d.last() as int)
    }
}

/// Removing one item takes it out of the multiset of items.
pub proof fn lemma_swap_removed_multiset<A>(s: Seq<A>, i: int)
    requires
        0 <= i < s.len(),
    ensures
        swap_removed(s, i).to_multiset() == s.to_multiset().remove(s[i]),
        swap_removed(s, i).len() == s.len() - 1,
{
    broadcast use vstd::multiset::group_multiset_axioms, vstd::multiset::group_multiset_properties;
    let t = s.update(i, s.last());
    vstd::seq_lib::to_multiset_update(s, i, s.last());
    assert(t.drop_last().push(t.last()) =~= t);
    vstd::seq_lib::to_multiset_build(t.drop_last(), t.last());
    assert(t.last() == s.last());
    assert(s.contains(s[i]));
    vstd::seq_lib::to_multiset_contains(s, s[i]);
    let dd = t.drop_last().to_multiset();
    assert(dd.insert(s.last()) == s.to_multiset().insert(s.last()).remove(s[i]));
    assert forall|y: A| dd.count(y) == s.to_multiset().remove(s[i]).count(y) by {
        assert(dd.insert(s.last()).count(y) == s.to_multiset().insert(s.last()).remove(s[i]).count(y));
    }
    assert(swap_removed(s, i).to_multiset() =~= s.to_multiset().remove(s[i]));
}

/// The indices below `len`, each once, in the order of their first mention.
pub open spec fn kept_indices(ix: Seq<usize>, len: nat) -> Seq<usize>
    decreases ix.len(),
{
    if ix.len() == 0 {
        Seq::empty()
    } else {
        let r = kept_indices(ix.drop_last(), len);
        let x = ix.last();
        if x < len && !r.contains(x) {
            r.push(x)
        } else {
            r
        }
    }
}

/// The indices of mods to remove as `remove_mods` takes them: those of mods
/// of the profile, each once (picking a mod twice removes it once).
pub fn distinct_indices(indices: &Vec<usize>, len: usize) -> (r: Vec<usize>)
    ensures
        r@ == kept_indices(indices@, len as nat),
        r@.no_duplicates(),
        forall|k: int| 0 <= k < r@.len() ==> r@[k] < len,
{
    let mut r: Vec<usize> = Vec::new();
    let mut i: usize = 0;
    while i < indices.len()
        invariant
            i <= indices.len(),
            r@ == kept_indices(indices@.take(i as int), len as nat),
            r@.no_duplicates(),
            forall|k: int| 0 <= k < r@.len() ==> r@[k] < len,
        decreases indices.len() - i,
    {
        assert(indices@.take(i + 1).drop_last() =~= indices@.take(i as int));
        let x = indices[i];
        let mut seen = false;
        let mut k: usize = 0;
        while k < r.len()
            invariant
                k <= r.len(),
                seen <==> exists|j: int| 0 <= j < k && r@[j] == x,
            decreases r.len() - k,
        {
            if r[k] == x {
                seen = true;
            }
            k = k + 1;
        }
        if x < len && !seen {
            let ghost before = r@;
            r.push(x);
            assert forall|a: int, b: int| 0 <= a < b < r@.len() implies r@[a] != r@[b] by {
                if b == before.len() {
                    assert(r@[a] == before[a]);
                }
            }
        } else {
            assert(seen ==> r@.contains(x));
        }
        i = i + 1;
    }
    assert(indices@.take(i as int) =~= indices@);
    r
}

/// Removes the mods at `indices` (each once), from the greatest index down,
/// each by moving the last mod to its place. Returns the names of the mods
/// removed, in that order.
pub fn remove_mods(profile: &mut Profile, indices: Vec<usize>) -> (removed: Vec<String>)
    requires
        indices@.no_duplicates(),
        forall|k: int| 0 <= k < indices.len() ==> indices@[k] < old(profile).mods.len(),
    ensures
        exists|d: Seq<usize>|
            {
                &&& d.to_multiset() == indices@.to_multiset()
                &&& forall|i: int, j: int| 0 <= i < j < d.len() ==> d[i] > d[j]
                &&& final(profile).mods@ == remove_in_order(old(profile).mods@, d)
                &&& views(removed@) == d.map_values(|k: usize| old(profile).mods@[k as int].name@)
            },
        final(profile).mods@.len() == old(profile).mods@.len() - indices@.len(),
        final(profile).name == old(profile).name,
        final(profile).output_dir == old(profile).output_dir,
        final(profile).filters == old(profile).filters,
{
    let ghost n = profile.mods.len();
    let ghost start = profile.mods@;
    let d = sort_descending(indices);
    proof {
        indices@.lemma_multiset_has_no_duplicates();
        assert forall|x: usize| d@.to_multiset().contains(x) implies d@.to_multiset().count(x) == 1 by {}
        d@.lemma_multiset_has_no_duplicates_conv();
        assert forall|k: int| 0 <= k < d.len() implies d@[k] < n by {
            vstd::seq_lib::to_multiset_contains(d@, d@[k]);
            assert(d@.to_multiset().contains(d@[k]));
            assert(indices@.to_multiset().contains(d@[k]));
            vstd::seq_lib::to_multiset_contains(indices@, d@[k]);
        }
        vstd::seq_lib::to_multiset_len(d@);
        vstd::seq_lib::to_multiset_len(indices@);
        assert forall|i: int, j: int| 0 <= i < j < d.len() implies d@[i] > d@[j] by {
            assert(d@[i] != d@[j]);
        }
        lemma_strictly_descending_len(d@, n as nat);
    }
    let mut removed: Vec<String> = Vec::new();
    let mut k: usize = 0;
    assert(d@.take(0) =~= Seq::<usize>::empty());
    while k < d.len()
        invariant
            k <= d.len(),
            d.len() <= n,
            n == start.len(),
            d@.no_duplicates(),
            forall|i: int, j: int| 0 <= i < j < d.len() ==> d@[i] >= d@[j],
            forall|j: int| 0 <= j < d.len() ==> #[trigger] d@[j] < n,
            profile.mods@ == remove_in_order(start, d@.take(k as int)),
            profile.mods@.len() == n - k,
            forall|j: int| k <= j < d.len() ==> (#[trigger] d@[j]) < n - k,
            forall|j: int| k <= j < d.len() ==> profile.mods@[#[trigger] d@[j] as int] == start[d@[j] as int],
            views(removed@) == d@.take(k as int).map_values(|x: usize| start[x as int].name@),
            profile.name == old(profile).name,
            profile.output_dir == old(profile).output_dir,
            profile.filters == old(profile).filters,
        decreases d.len() - k,
    {
        let i = d[k];
        let ghost cur = profile.mods@;
        let m = profile.mods.swap_remove(i);
        proof {
            assert(d@.take(k + 1).drop_last() =~= d@.take(k as int));
            assert(d@.take(k + 1).last() == i);
            assert forall|j: int| k + 1 <= j < d.len() implies (#[trigger] d@[j]) < n - k - 1 by {
                assert(d@[k as int] >= d@[j]);
                assert(d@[k as int] != d@[j]);
            }
            assert forall|j: int| k + 1 <= j < d.len() implies profile.mods@[#[trigger] d@[j] as int] == start[d@[j] as int] by {
                assert(d@[k as int] >= d@[j]);
                assert(d@[k as int] != d@[j]);
                assert(profile.mods@[d@[j] as int] == cur[d@[j] as int]);
            }
        }
        let ghost before = views(removed@);
        removed.push(m.name);
        assert(d@.take(k + 1) =~= d@.take(k as int).push(i));
        assert(views(removed@) =~= before.push(start[i as int].name@));
        assert(views(removed@) =~= d@.take(k + 1).map_values(|x: usize| start[x as int].name@));
        k = k + 1;
    }
    assert(d@.take(d.len() as int) =~= d@);
    proof {
        assert forall|i: int, j: int| 0 <= i < j < d.len() implies d@[i] > d@[j] by {
            assert(d@[i] != d@[j]);
        }
    }
    removed
}

/// Removing mods takes exactly those mods out: what is left and what was
/// removed together are the mods there were.
pub proof fn lemma_remove_in_order_multiset(s: Seq<Mod>, d: Seq<usize>)
    requires
        forall|i: int, j: int| 0 <= i < j < d.len() ==> d[i] > d[j],
        forall|j: int| 0 <= j < d.len() ==> #[trigger] d[j] < s.len(),
    ensures
        remove_in_order(s, d).to_multiset().add(d.map_values(|k: usize| s[k as int]).to_multiset())
            == s.to_multiset(),
        remove_in_order(s, d).len() == s.len() - d.len(),
        forall|j: int| 0 <= j < s.len() && (d.len() == 0 || j < d.last()) ==> #[trigger] remove_in_order(s, d)[j] == s[j],
    decreases d.len(),
{
    broadcast use vstd::multiset::group_multiset_axioms, vstd::multiset::group_multiset_properties;
    if d.len() == 0 {
        assert(d.map_values(|k: usize| s[k as int]).to_multiset() =~= vstd::multiset::Multiset::empty()) by {
            assert(d.map_values(|k: usize| s[k as int]) =~= Seq::<Mod>::empty());
            vstd::seq_lib::to_multiset_len(d.map_values(|k: usize| s[k as int]));
        }
        assert(s.to_multiset().add(vstd::multiset::Multiset::empty()) =~= s.to_multiset());
    } else {
        let p = d.drop_last();
        assert forall|i: int, j: int| 0 <= i < j < p.len() implies p[i] > p[j] by {
            assert(p[i] == d[i] && p[j] == d[j]);
        }
        assert forall|j: int| 0 <= j < p.len() implies #[trigger] p[j] < s.len() by {
            assert(p[j] == d[j]);
        }
        lemma_remove_in_order_multiset(s, p);
        let t = remove_in_order(s, p);
        let x = d.last();
        lemma_strictly_descending_last(d);
        assert(d[0] < s.len());
        assert(x < t.len());
        if p.len() > 0 {
            assert(d[p.len() - 1] > d[d.len() - 1]);
            assert(x < p.last());
        }
        assert(t[x as int] == s[x as int]);
        lemma_swap_removed_multiset(t, x as int);
        let mp = p.map_values(|k: usize| s[k as int]);
        let md = d.map_values(|k: usize| s[k as int]);
        assert(md =~= mp.push(s[x as int]));
        vstd::seq_lib::to_multiset_build(mp, s[x as int]);
        assert(t.contains(t[x as int]));
        vstd::seq_lib::to_multiset_contains(t, t[x as int]);
        let tm = t.to_multiset();
        assert forall|y: Mod| tm.remove(s[x as int]).add(mp.to_multiset().insert(s[x as int])).count(y)
            == tm.add(mp.to_multiset()).count(y) by {}
        assert(swap_removed(t, x as int).to_multiset().add(md.to_multiset()) =~= s.to_multiset());
        assert forall|j: int| 0 <= j < s.len() && j < x implies #[trigger] swap_removed(t, x as int)[j] == s[j] by {
            if p.len() > 0 {
                assert(j < p.last());
            }
        }
    }
}

/// Strictly descending indices below `n` are at most `n` many.
proof fn lemma_strictly_descending_len(d: Seq<usize>, n: nat)
    requires
        forall|i: int, j: int| 0 <= i < j < d.len() ==> d[i] > d[j],
        forall|j: int| 0 <= j < d.len() ==> #[trigger] d[j] < n,
    ensures
        d.len() <= n,
{
    if d.len() > 0 {
        lemma_strictly_descending_last(d);
    }
}

/// In strictly descending numbers, the first is at least the last plus the count less one.
proof fn lemma_strictly_descending_last(d: Seq<usize>)
    requires
        d.len() > 0,
        forall|i: int, j: int| 0 <= i < j < d.len() ==> d[i] > d[j],
    ensures
        d[0] >= d.last() + d.len() - 1,
        d.last() + d.len() <= d[0] + 1,
    decreases d.len(),
{
    if d.len() > 1 {
        let p = d.drop_last();
        assert forall|i: int, j: int| 0 <= i < j < p.len() implies p[i] > p[j] by {
            assert(p[i] == d[i] && p[j] == d[j]);
        }
        lemma_strictly_descending_last(p);
        assert(d[d.len() - 2] > d[d.len() - 1]);
    }
}

} // verus!

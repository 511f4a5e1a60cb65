//! `ferium list --verbose`: the order projects are listed in, the names the
//! mods take from their projects, and the Markdown a project is listed as.
use crate::config::structs::{Mod, ModIdentifier, ModIdentifierView, ModView};
use crate::order::{insertion_point, keys_sorted, lemma_insert_sorted, text_le};
use crate::text::{concat, copy_string, i32_decimal, i32_to_string, join, join_spec, owned, to_lowercase, trim, trim_spec, unicode_lowercase, views};
use vstd::prelude::*;

verus! {

/// The positions `0..n`, in order.
pub open spec fn positions(n: nat) -> Seq<usize> {
    Seq::new(n, |i: int| i as usize)
}

/// The order projects are listed in: positions into `names`, by the names in
/// lowercase; projects of equal keys come in any order.
pub fn sorted_by_name(names: &Vec<String>) -> (r: Vec<usize>)
    ensures
        r@.to_multiset() == positions(names@.len()).to_multiset(),
        forall|k: int| 0 <= k < r@.len() ==> r@[k] < names@.len(),
        keys_sorted(r@.map_values(|k: usize| unicode_lowercase(names@[k as int]@))),
{
    let ghost all = positions(names@.len());
    let ghost key_of = |k: usize| unicode_lowercase(names@[k as int]@);
    let mut items: Vec<usize> = Vec::new();
    let mut keys: Vec<String> = Vec::new();
    let mut i: usize = 0;
    assert(views(keys@) =~= items@.map_values(key_of));
    assert(all.take(0) =~= Seq::<usize>::empty());
    while i < names.len()
        invariant
            i <= names.len(),
            all == positions(names@.len()),
            key_of == (|k: usize| unicode_lowercase(names@[k as int]@)),
            views(keys@) == items@.map_values(key_of),
            keys_sorted(views(keys@)),
            items@.to_multiset() == all.take(i as int).to_multiset(),
            forall|k: int| 0 <= k < items@.len() ==> items@[k] < i,
        decreases names.len() - i,
    {
        let key = to_lowercase(names[i].as_str());
        let pos = insertion_point(&keys, &key);
        let ghost old_items = items@;
        let ghost old_keys = views(keys@);
        proof {
            assert forall|k: int| 0 <= k < pos implies text_le(old_keys[k], key@) by {
                assert(old_keys[k] == keys@[k]@);
            }
            assert forall|k: int| pos <= k < old_keys.len() implies text_le(key@, old_keys[k]) by {
                assert(old_keys[k] == keys@[k]@);
            }
            lemma_insert_sorted(old_keys, pos as int, key@);
            vstd::seq_lib::to_multiset_insert(old_items, pos as int, i);
            vstd::seq_lib::to_multiset_build(all.take(i as int), i);
            assert(all.take(i + 1) =~= all.take(i as int).push(i));
        }
        keys.insert(pos, key);
        items.insert(pos, i);
        assert(views(keys@) =~= old_keys.insert(pos as int, key_of(i)));
        assert(items@.map_values(key_of) =~= old_items.map_values(key_of).insert(pos as int, key_of(i)));
        i = i + 1;
    }
    assert(all.take(i as int) =~= all);
    items
}

/// The names of the mods after each project, in order, gave its name to the
/// first mod with its identifier; `None` where a project has no such mod (the
/// renaming stops there).
pub open spec fn renamed(mods: Seq<Seq<char>>, ids: Seq<ModIdentifierView>, projects: Seq<(ModIdentifierView, Seq<char>)>) -> Option<Seq<Seq<char>>>
    decreases projects.len(),
{
    if projects.len() == 0 {
        Some(mods)
    } else {
        match renamed(mods, ids, projects.drop_last()) {
            Some(names) => match first_in(ids, projects.last().0) {
                Some(k) => Some(names.update(k, projects.last().1)),
                None => None,
            },
            None => None,
        }
    }
}

/// Where an identifier first occurs.
pub open spec fn first_in(ids: Seq<ModIdentifierView>, id: ModIdentifierView) -> Option<int>
    decreases ids.len(),
{
    if ids.len() == 0 {
        None
    } else {
        match first_in(ids.drop_last(), id) {
            Some(k) => Some(k),
            None => if ids.last() == id {
                Some(ids.len() - 1)
            } else {
                None
            },
        }
    }
}

proof fn lemma_first_in(ids: Seq<ModIdentifierView>, id: ModIdentifierView)
    ensures
        match first_in(ids, id) {
            Some(k) => 0 <= k < ids.len() && ids[k] == id && forall|j: int| 0 <= j < k ==> ids[j] != id,
            None => forall|j: int| 0 <= j < ids.len() ==> ids[j] != id,
        },
    decreases ids.len(),
{
    if ids.len() > 0 {
        let p = ids.drop_last();
        lemma_first_in(p, id);
        assert(forall|j: int| 0 <= j < p.len() ==> p[j] == ids[j]);
    }
}

pub open spec fn mod_names(mods: Seq<Mod>) -> Seq<Seq<char>> {
    mods.map_values(|m: Mod| m.name@)
}

pub open spec fn mod_identifiers(mods: Seq<Mod>) -> Seq<ModIdentifierView> {
    mods.map_values(|m: Mod| m.identifier@)
}

pub open spec fn project_views(ps: Seq<(ModIdentifier, String)>) -> Seq<(ModIdentifierView, Seq<char>)> {
    ps.map_values(|p: (ModIdentifier, String)| (p.0@, p.1@))
}

/// Gives each mod the name of its project, in the order the projects are
/// listed: the first mod with the project's identifier takes the name. A
/// project with no such mod is an error ("Could not find expected mod"), and
/// the renaming stops there. Nothing of a mod but its name changes.
pub fn rename_mods(mods: &mut Vec<Mod>, projects: &Vec<(ModIdentifier, String)>) -> (r: Result<(), String>)
    ensures
        final(mods)@.len() == old(mods)@.len(),
        mod_identifiers(final(mods)@) == mod_identifiers(old(mods)@),
        forall|k: int| 0 <= k < old(mods)@.len() ==> (#[trigger] final(mods)@[k])@ == (ModView {
            name: final(mods)@[k].name@,
            ..old(mods)@[k]@
        }),
        match renamed(mod_names(old(mods)@), mod_identifiers(old(mods)@), project_views(projects@)) {
            Some(names) => r is Ok && mod_names(final(mods)@) == names,
            None => r matches Err(m) && m@ == "Could not find expected mod"@,
        },
{
    let ghost ids = mod_identifiers(mods@);
    let ghost names0 = mod_names(mods@);
    let ghost pv = project_views(projects@);
    let mut i: usize = 0;
    while i < projects.len()
        invariant
            i <= projects.len(),
            mods@.len() == old(mods)@.len(),
            ids == mod_identifiers(old(mods)@),
            names0 == mod_names(old(mods)@),
            pv == project_views(projects@),
            mod_identifiers(mods@) == ids,
            renamed(names0, ids, pv.take(i as int)) == Some(mod_names(mods@)),
            forall|k: int| 0 <= k < old(mods)@.len() ==> (#[trigger] mods@[k])@ == (ModView {
                name: mods@[k].name@,
                ..old(mods)@[k]@
            }),
        decreases projects.len() - i,
    {
        assert(pv.take(i + 1).drop_last() =~= pv.take(i as int));
        assert(pv.take(i + 1).last() == (projects@[i as int].0@, projects@[i as int].1@));
        let mut k: usize = 0;
        let mut found = false;
        while k < mods.len()
            invariant
                k <= mods.len(),
                i < projects.len(),
                mod_identifiers(mods@) == ids,
                forall|j: int| 0 <= j < k ==> ids[j] != projects@[i as int].0@,
                found ==> k < mods.len() && ids[k as int] == projects@[i as int].0@,
            ensures
                found ==> k < mods.len() && ids[k as int] == projects@[i as int].0@,
                !found ==> k == mods.len(),
                forall|j: int| 0 <= j < k ==> ids[j] != projects@[i as int].0@,
            decreases mods.len() - k,
        {
            assert(ids[k as int] == mods@[k as int].identifier@);
            if mods[k].identifier.equals(&projects[i].0) {
                found = true;
                break;
            }
            k = k + 1;
        }
        proof {
            lemma_first_in(ids, projects@[i as int].0@);
        }
        if !found {
            assert(renamed(names0, ids, pv.take(i + 1)) is None);
            proof {
                lemma_renamed_stops(names0, ids, pv, i as int + 1);
            }
            assert(pv.take(projects.len() as int) =~= pv);
            return Err(owned("Could not find expected mod"));
        }
        assert(first_in(ids, projects@[i as int].0@) == Some(k as int));
        let ghost before = mods@;
        let mut m = mods.remove(k);
        m.name = copy_string(&projects[i].1);
        mods.insert(k, m);
        assert(mods@ =~= before.update(k as int, mods@[k as int]));
        assert(mod_identifiers(mods@) =~= mod_identifiers(before));
        assert(mod_names(mods@) =~= mod_names(before).update(k as int, projects@[i as int].1@));
        i = i + 1;
    }
    assert(pv.take(projects.len() as int) =~= pv);
    Ok(())
}

/// Once the renaming stopped, it stays stopped.
proof fn lemma_renamed_stops(
    names: Seq<Seq<char>>,
    ids: Seq<ModIdentifierView>,
    ps: Seq<(ModIdentifierView, Seq<char>)>,
    k: int,
)
    requires
        0 <= k <= ps.len(),
        renamed(names, ids, ps.take(k)) is None,
    ensures
        renamed(names, ids, ps) is None,
    decreases ps.len() - k,
{
    if k < ps.len() {
        assert(ps.take(k + 1).drop_last() =~= ps.take(k));
        lemma_renamed_stops(names, ids, ps, k + 1);
    } else {
        assert(ps.take(k) =~= ps);
    }
}

/// The sum of the download counts of the assets of every release.
pub open spec fn downloads_of(releases: Seq<Seq<i64>>) -> int
    decreases releases.len(),
{
    if releases.len() == 0 {
        0
    } else {
        downloads_of(releases.drop_last()) + counts_sum(releases.last())
    }
}

pub open spec fn counts_sum(counts: Seq<i64>) -> int
    decreases counts.len(),
{
    if counts.len() == 0 {
        0
    } else {
        counts_sum(counts.drop_last()) + counts.last()
    }
}

/// The number of downloads of a repository: the download counts of the
/// assets of its releases added up, with no partial sum out of range.
#[verifier::spinoff_prover]
#[verifier::rlimit(30)]
pub fn total_downloads(releases: &Vec<Vec<i64>>) -> (r: i64)
    requires
        forall|i: int, j: int|
            0 <= i < releases@.len() && 0 <= j <= releases@[i]@.len() ==> i64::MIN <= downloads_of(
                releases@.take(i).map_values(|v: Vec<i64>| v@),
            ) + counts_sum(#[trigger] releases@[i]@.take(j)) <= i64::MAX,
    ensures
        r == downloads_of(releases@.map_values(|v: Vec<i64>| v@)),
{
    let ghost all = releases@.map_values(|v: Vec<i64>| v@);
    let mut total: i64 = 0;
    let mut i: usize = 0;
    while i < releases.len()
        invariant
            i <= releases.len(),
            all == releases@.map_values(|v: Vec<i64>| v@),
            total == downloads_of(all.take(i as int)),
            forall|i: int, j: int|
                0 <= i < releases@.len() && 0 <= j <= releases@[i]@.len() ==> i64::MIN <= downloads_of(
                    releases@.take(i).map_values(|v: Vec<i64>| v@),
                ) + counts_sum(#[trigger] releases@[i]@.take(j)) <= i64::MAX,
        decreases releases.len() - i,
    {
        let counts = &releases[i];
        let ghost base = total as int;
        assert(releases@.take(i as int).map_values(|v: Vec<i64>| v@) =~= all.take(i as int));
        let mut j: usize = 0;
        while j < counts.len()
            invariant
                j <= counts.len(),
                counts@ == releases@[i as int]@,
                total == base + counts_sum(counts@.take(j as int)),
                base == downloads_of(releases@.take(i as int).map_values(|v: Vec<i64>| v@)),
                forall|j: int|
                    0 <= j <= counts@.len() ==> i64::MIN <= base + counts_sum(#[trigger] counts@.take(j))
                        <= i64::MAX,
            decreases counts.len() - j,
        {
            assert(counts@.take(j + 1).drop_last() =~= counts@.take(j as int));
            assert(i64::MIN <= base + counts_sum(counts@.take(j + 1)) <= i64::MAX);
            total = total + counts[j];
            j = j + 1;
        }
        assert(counts@.take(counts.len() as int) =~= counts@);
        assert(all.take(i + 1).drop_last() =~= all.take(i as int));
        i = i + 1;
    }
    assert(all.take(releases.len() as int) =~= all);
    total
}

/// A link in Markdown.
pub open spec fn md_link(text: Seq<char>, url: Seq<char>) -> Seq<char> {
    "["@ + text + "]("@ + url + ")"@
}

/// "No", or a link "Yes" to the source.
pub open spec fn md_open_source(source: Option<Seq<char>>) -> Seq<char> {
    match source {
        Some(url) => md_link("Yes"@, url),
        None => "No"@,
    }
}

/// A link in Markdown.
fn link_md(text: &str, url: &str) -> (r: String)
    ensures
        r@ == md_link(text@, url@),
{
    let a = concat("[", text);
    let b = concat(a.as_str(), "](");
    let c = concat(b.as_str(), url);
    concat(c.as_str(), ")")
}

fn open_source_md(source: &Option<String>) -> (r: String)
    ensures
        r@ == md_open_source(match source {
            Some(s) => Some(s@),
            None => None,
        }),
{
    match source {
        Some(url) => link_md("Yes", url.as_str()),
        None => owned("No"),
    }
}

/// Links to each of the named people, in order.
pub open spec fn md_links(people: Seq<(Seq<char>, Seq<char>)>) -> Seq<Seq<char>> {
    people.map_values(|p: (Seq<char>, Seq<char>)| md_link(p.0, p.1))
}

fn links_md(people: &Vec<(String, String)>) -> (r: Vec<String>)
    ensures
        views(r@) == md_links(people@.map_values(|p: (String, String)| (p.0@, p.1@))),
{
    let ghost pv = people@.map_values(|p: (String, String)| (p.0@, p.1@));
    let mut r: Vec<String> = Vec::new();
    let mut i: usize = 0;
    while i < people.len()
        invariant
            i <= people.len(),
            pv == people@.map_values(|p: (String, String)| (p.0@, p.1@)),
            views(r@) == md_links(pv.take(i as int)),
        decreases people.len() - i,
    {
        let d = link_md(people[i].0.as_str(), people[i].1.as_str());
        let ghost before = r@;
        r.push(d);
        assert(views(r@) =~= views(before).push(d@));
        assert(md_links(pv.take(i + 1)) =~= md_links(pv.take(i as int)).push(md_link(pv[i as int].0, pv[i as int].1)));
        i = i + 1;
    }
    assert(pv.take(people.len() as int) =~= pv);
    r
}

/// A CurseForge project as listed in Markdown.
pub open spec fn curseforge_md_spec(
    name: Seq<char>,
    website_url: Seq<char>,
    summary: Seq<char>,
    id: i32,
    source: Option<Seq<char>>,
    authors: Seq<(Seq<char>, Seq<char>)>,
    categories: Seq<Seq<char>>,
) -> Seq<char> {
    "\n**"@ + md_link(trim_spec(name), website_url) + "**  \n_"@ + trim_spec(summary)
        + "_\n\n|             |                 |\n|-------------|-----------------|\n| Source      | CurseForge `"@
        + i32_decimal(id) + "` |\n| Open Source | "@ + md_open_source(source)
        + "              |\n| Authors     | "@ + join_spec(md_links(authors), ", "@)
        + "              |\n| Categories  | "@ + join_spec(categories, ", "@) + "              |"@
}

/// Adds `b` after `a`.
fn append(a: String, b: &str) -> (r: String)
    ensures
        r@ == a@ + b@,
{
    concat(a.as_str(), b)
}

/// The Markdown a CurseForge project is listed as.
pub fn curseforge_md(
    name: &str,
    website_url: &str,
    summary: &str,
    id: i32,
    source_url: &Option<String>,
    authors: &Vec<(String, String)>,
    categories: &Vec<String>,
) -> (r: String)
    ensures
        r@ == curseforge_md_spec(
            name@,
            website_url@,
            summary@,
            id,
            match source_url {
                Some(s) => Some(s@),
                None => None,
            },
            authors@.map_values(|p: (String, String)| (p.0@, p.1@)),
            views(categories@),
        ),
{
    let s = owned("\n**");
    let s = append(s, link_md(trim(name).as_str(), website_url).as_str());
    let s = append(s, "**  \n_");
    let s = append(s, trim(summary).as_str());
    let s = append(
        s,
        "_\n\n|             |                 |\n|-------------|-----------------|\n| Source      | CurseForge `",
    );
    let s = append(s, i32_to_string(id).as_str());
    let s = append(s, "` |\n| Open Source | ");
    let s = append(s, open_source_md(source_url).as_str());
    let s = append(s, "              |\n| Authors     | ");
    let s = append(s, join(&links_md(authors), ", ").as_str());
    let s = append(s, "              |\n| Categories  | ");
    let s = append(s, join(categories, ", ").as_str());
    let s = append(s, "              |");
    s
}

/// A Modrinth project as listed in Markdown; the authors are the team members
/// with their user names and IDs.
pub open spec fn modrinth_md_spec(
    title: Seq<char>,
    id: Seq<char>,
    description: Seq<char>,
    source: Option<Seq<char>>,
    members: Seq<(Seq<char>, Seq<char>)>,
    categories: Seq<Seq<char>>,
) -> Seq<char> {
    "\n**"@ + md_link(trim_spec(title), "https://modrinth.com/mod/"@ + id) + "**  \n_"@ + trim_spec(description)
        + "_\n\n|             |               |\n|-------------|---------------|\n| Source      | Modrinth `"@ + id
        + "` |\n| Open Source | "@ + md_open_source(source) + "            |\n| Author      | "@
        + join_spec(md_links(members.map_values(|m: (Seq<char>, Seq<char>)| (m.0, "https://modrinth.com/user/"@ + m.1))), ", "@)
        + "            |\n| Categories  | "@ + join_spec(categories, ", "@) + "            |"@
}

/// The Markdown a Modrinth project is listed as; `members` holds each team
/// member's user name and user ID.
pub fn modrinth_md(
    title: &str,
    id: &str,
    description: &str,
    source_url: &Option<String>,
    members: &Vec<(String, String)>,
    categories: &Vec<String>,
) -> (r: String)
    ensures
        r@ == modrinth_md_spec(
            title@,
            id@,
            description@,
            match source_url {
                Some(s) => Some(s@),
                None => None,
            },
            members@.map_values(|p: (String, String)| (p.0@, p.1@)),
            views(categories@),
        ),
{
    let ghost mv = members@.map_values(|p: (String, String)| (p.0@, p.1@));
    let mut people: Vec<(String, String)> = Vec::new();
    let mut i: usize = 0;
    while i < members.len()
        invariant
            i <= members.len(),
            mv == members@.map_values(|p: (String, String)| (p.0@, p.1@)),
            people@.map_values(|p: (String, String)| (p.0@, p.1@)) == mv.take(i as int).map_values(
                |m: (Seq<char>, Seq<char>)| (m.0, "https://modrinth.com/user/"@ + m.1),
            ),
        decreases members.len() - i,
    {
        let ghost before = people@;
        let url = concat("https://modrinth.com/user/", members[i].1.as_str());
        people.push((copy_string(&members[i].0), url));
        assert(people@.map_values(|p: (String, String)| (p.0@, p.1@)) =~= before.map_values(
            |p: (String, String)| (p.0@, p.1@),
        ).push((members@[i as int].0@, "https://modrinth.com/user/"@ + members@[i as int].1@)));
        assert(mv.take(i + 1).map_values(|m: (Seq<char>, Seq<char>)| (m.0, "https://modrinth.com/user/"@ + m.1))
            =~= mv.take(i as int).map_values(|m: (Seq<char>, Seq<char>)| (m.0, "https://modrinth.com/user/"@ + m.1)).push(
            (mv[i as int].0, "https://modrinth.com/user/"@ + mv[i as int].1),
        ));
        i = i + 1;
    }
    assert(mv.take(members.len() as int) =~= mv);
    let s = owned("\n**");
    let url = concat("https://modrinth.com/mod/", id);
    let s = append(s, link_md(trim(title).as_str(), url.as_str()).as_str());
    let s = append(s, "**  \n_");
    let s = append(s, trim(description).as_str());
    let s = append(
        s,
        "_\n\n|             |               |\n|-------------|---------------|\n| Source      | Modrinth `",
    );
    let s = append(s, id);
    let s = append(s, "` |\n| Open Source | ");
    let s = append(s, open_source_md(source_url).as_str());
    let s = append(s, "            |\n| Author      | ");
    let s = append(s, join(&links_md(&people), ", ").as_str());
    let s = append(s, "            |\n| Categories  | ");
    let s = append(s, join(categories, ", ").as_str());
    let s = append(s, "            |");
    s
}

/// A GitHub repository as listed in Markdown.
pub open spec fn github_md_spec(
    name: Seq<char>,
    html_url: Seq<char>,
    description: Option<Seq<char>>,
    full_name: Seq<char>,
    owner: Seq<char>,
    owner_url: Seq<char>,
    topics: Option<Seq<Seq<char>>>,
) -> Seq<char> {
    "\n**"@ + md_link(name, html_url) + "**"@ + match description {
        Some(d) => "  \n_"@ + trim_spec(d) + "_"@,
        None => Seq::empty(),
    } + "\n\n|             |             |\n|-------------|-------------|\n| Source      | GitHub `"@ + full_name
        + "` |\n| Open Source | Yes         |\n| Owner       | "@ + md_link(owner, owner_url) + "    |"@
        + match topics {
        Some(t) => "\n| Topics | "@ + join_spec(t, ", "@) + " |"@,
        None => Seq::empty(),
    }
}

/// The Markdown a GitHub repository is listed as.
pub fn github_md(
    name: &str,
    html_url: &str,
    description: &Option<String>,
    full_name: &str,
    owner: &str,
    owner_url: &str,
    topics: &Option<Vec<String>>,
) -> (r: String)
    ensures
        r@ == github_md_spec(
            name@,
            html_url@,
            match description {
                Some(d) => Some(d@),
                None => None,
            },
            full_name@,
            owner@,
            owner_url@,
            match topics {
                Some(t) => Some(views(t@)),
                None => None,
            },
        ),
{
    let s = owned("\n**");
    let s = append(s, link_md(name, html_url).as_str());
    let s = append(s, "**");
    let desc = match description {
        Some(d) => {
            let x = concat("  \n_", trim(d.as_str()).as_str());
            concat(x.as_str(), "_")
        },
        None => String::new(),
    };
    let s = append(s, desc.as_str());
    let s = append(s, "\n\n|             |             |\n|-------------|-------------|\n| Source      | GitHub `");
    let s = append(s, full_name);
    let s = append(s, "` |\n| Open Source | Yes         |\n| Owner       | ");
    let s = append(s, link_md(owner, owner_url).as_str());
    let s = append(s, "    |");
    let tops = match topics {
        Some(t) => {
            let x = concat("\n| Topics | ", join(t, ", ").as_str());
            concat(x.as_str(), " |")
        },
        None => String::new(),
    };
    append(s, tops.as_str())
}

} // verus!

//! `ferium upgrade`: which mods to resolve, in which order, and what to say.
use crate::config::filters::{copy_filters, filter_views, FilterView, first_mod_loader_filter, loaders_of, Filter, ProfileParameters};
use crate::config::structs::{Mod, ModIdentifier, ModIdentifierView, ModLoader};
use crate::text::{chars_of, concat, eq_ignore_ascii_case_spec, i32_decimal, i32_to_string, owned, string_from_chars};
use crate::upgrade::{is_file_name_of, DownloadData};
use crate::upgrade::identifier_views;
use vstd::prelude::*;

verus! {

/// Whether a dependency is one that a downloaded file can name: a CurseForge
/// project, or a Modrinth project (pinned or not).
pub open spec fn resolvable_dependency(d: ModIdentifierView) -> bool {
    d is CurseForgeProject || d is ModrinthProject || d is PinnedModrinthProject
}

/// The mod that a dependency is resolved as: named after its id, and never
/// pinned.
pub open spec fn dependency_mod_spec(d: ModIdentifierView) -> (Seq<char>, ModIdentifierView) {
    match d {
        ModIdentifierView::CurseForgeProject(id) => ("Dependency: "@ + i32_decimal(id), d),
        ModIdentifierView::ModrinthProject(id) => ("Dependency: "@ + id, d),
        ModIdentifierView::PinnedModrinthProject(id, _) => ("Dependency: "@ + id, ModIdentifierView::ModrinthProject(id)),
        _ => (Seq::empty(), d),
    }
}

/// The mod that a dependency of a downloaded file is resolved as.
pub fn dependency_mod(dep: ModIdentifier) -> (m: Mod)
    requires
        resolvable_dependency(dep@),
    ensures
        m.name@ == dependency_mod_spec(dep@).0,
        m.identifier@ == dependency_mod_spec(dep@).1,
        m.filters@.len() == 0,
        !m.override_filters,
        m.slug is None,
        !m.has_check_overrides(),
{
    let (name, identifier) = match dep {
        ModIdentifier::CurseForgeProject(id) => {
            let t = i32_to_string(id);
            (concat("Dependency: ", t.as_str()), ModIdentifier::CurseForgeProject(id))
        },
        ModIdentifier::ModrinthProject(id) => (concat("Dependency: ", id.as_str()), ModIdentifier::ModrinthProject(id)),
        ModIdentifier::PinnedModrinthProject(id, _) => (concat("Dependency: ", id.as_str()), ModIdentifier::ModrinthProject(id)),
        other => (String::new(), other),
    };
    Mod::new(name, identifier, Vec::new(), false)
}

/// The mods still to resolve and the identifiers resolved already: each mod
/// is resolved once, and the dependencies of the files found join the queue.
/// No identifier is resolved twice.
#[derive(Debug)]
pub struct ResolveQueue {
    pending: Vec<Mod>,
    done: Vec<ModIdentifier>,
}

/// Whether `ids` names no identifier twice.
pub open spec fn distinct_ids(ids: Seq<ModIdentifierView>) -> bool {
    forall|i: int, j: int| 0 <= i < j < ids.len() ==> ids[i] != ids[j]
}

/// The next mod to resolve: the first pending one whose identifier is not
/// resolved already; the ones before it are dropped. The identifier is
/// recorded as resolved.
fn next_pending(pending: &mut Vec<Mod>, done: &mut Vec<ModIdentifier>) -> (r: Option<Mod>)
    requires
        distinct_ids(identifier_views(old(done)@)),
    ensures
        distinct_ids(identifier_views(final(done)@)),
        r matches Some(m) ==> {
            &&& !identifier_views(old(done)@).contains(m.identifier@)
            &&& identifier_views(final(done)@) == identifier_views(old(done)@).push(m.identifier@)
            &&& exists|k: int| 0 <= k < old(pending)@.len() && old(pending)@[k] == m
                && final(pending)@ == old(pending)@.skip(k + 1)
                && forall|j: int| 0 <= j < k ==> identifier_views(old(done)@).contains(#[trigger] old(pending)@[j].identifier@)
        },
        r is None ==> final(pending)@.len() == 0 && final(done)@ == old(done)@
            && forall|j: int| 0 <= j < old(pending)@.len() ==> identifier_views(old(done)@).contains(#[trigger] old(pending)@[j].identifier@),
{
    let ghost start = pending@;
    let ghost done0 = identifier_views(done@);
    assert(start.len() == pending.len());
    assert(start.skip(0) =~= start);
    let mut k: usize = 0;
    while pending.len() > 0
        invariant
            pending@ == start.skip(k as int),
            k <= start.len(),
            start.len() <= usize::MAX,
            start == old(pending)@,
            done0 == identifier_views(old(done)@),
            done@ == old(done)@,
            identifier_views(done@) == done0,
            distinct_ids(done0),
            forall|j: int| 0 <= j < k ==> done0.contains(#[trigger] start[j].identifier@),
        decreases pending.len(),
    {
        let ghost before = pending@;
        let m = pending.remove(0);
        assert(m == start[k as int]) by {
            assert(before[0] == start.skip(k as int)[0]);
        }
        assert(pending@ =~= start.skip(k + 1));
        let mut seen = false;
        let mut i: usize = 0;
        while i < done.len()
            invariant
                i <= done.len(),
                identifier_views(done@) == done0,
                !seen ==> forall|j: int| 0 <= j < i ==> done0[j] != m.identifier@,
                seen ==> done0.contains(m.identifier@),
            decreases done.len() - i,
        {
            if !seen && done[i].equals(&m.identifier) {
                assert(done0[i as int] == m.identifier@);
                seen = true;
            }
            i = i + 1;
        }
        if !seen {
            let ghost id = m.identifier@;
            done.push(m.identifier.duplicate());
            assert(identifier_views(done@) =~= done0.push(id));
            assert(!done0.contains(id)) by {
                if done0.contains(id) {
                    let j = choose|j: int| 0 <= j < done0.len() && done0[j] == id;
                }
            }
            assert(distinct_ids(done0.push(id))) by {
                assert forall|a: int, b: int| 0 <= a < b < done0.push(id).len() implies done0.push(id)[a] != done0.push(id)[b] by {
                    if b == done0.len() {
                        assert(done0[a] != id);
                    }
                }
            }
            return Some(m);
        }
        k = k + 1;
    }
    assert(start.skip(k as int).len() == 0);
    None
}

/// Queues the dependencies of a file found, as mods to resolve.
fn push_dependencies(pending: &mut Vec<Mod>, deps: Vec<ModIdentifier>)
    requires
        forall|k: int| 0 <= k < deps@.len() ==> resolvable_dependency(#[trigger] deps@[k]@),
    ensures
        final(pending)@.len() == old(pending)@.len() + deps@.len(),
        final(pending)@.take(old(pending)@.len() as int) == old(pending)@,
        forall|k: int| 0 <= k < deps@.len() ==> (#[trigger] final(pending)@[old(pending)@.len() + k]).name@
            == dependency_mod_spec(deps@[k]@).0 && final(pending)@[old(pending)@.len() + k].identifier@
            == dependency_mod_spec(deps@[k]@).1,
{
    let ghost start = pending@;
    let ghost all = deps@;
    assert(all.len() == deps.len());
    let mut rest = deps;
    let mut i: usize = 0;
    while rest.len() > 0
        invariant
            i + rest.len() == all.len(),
            all.len() <= usize::MAX,
            rest@ == all.skip(i as int),
            forall|k: int| 0 <= k < all.len() ==> resolvable_dependency(#[trigger] all[k]@),
            pending@.len() == start.len() + i,
            pending@.take(start.len() as int) == start,
            forall|k: int| 0 <= k < i ==> (#[trigger] pending@[start.len() + k]).name@ == dependency_mod_spec(all[k]@).0
                && pending@[start.len() + k].identifier@ == dependency_mod_spec(all[k]@).1,
        decreases rest.len(),
    {
        let ghost rest_before = rest@;
        let d = rest.remove(0);
        assert(d == all[i as int]) by {
            assert(rest_before[0] == all.skip(i as int)[0]);
        }
        assert(rest@ =~= all.skip(i + 1));
        let ghost before = pending@;
        let m = dependency_mod(d);
        pending.push(m);
        assert(pending@.take(start.len() as int) =~= before.take(start.len() as int));
        assert forall|k: int| 0 <= k < i + 1 implies (#[trigger] pending@[start.len() + k]).name@ == dependency_mod_spec(all[k]@).0
            && pending@[start.len() + k].identifier@ == dependency_mod_spec(all[k]@).1 by {
            if k < i {
                assert(pending@[start.len() + k] == before[start.len() + k]);
            }
        }
        i = i + 1;
    }
}

impl ResolveQueue {
    #[verifier::type_invariant]
    spec fn resolved_once(self) -> bool {
        distinct_ids(identifier_views(self.done@))
    }

    /// The mods still to resolve, in order.
    pub closed spec fn pending_mods(self) -> Seq<Mod> {
        self.pending@
    }

    /// The identifiers resolved already, in the order they were resolved.
    pub closed spec fn resolved(self) -> Seq<ModIdentifierView> {
        identifier_views(self.done@)
    }

    /// A queue of the mods of a profile, none resolved yet.
    pub fn new(mods: Vec<Mod>) -> (q: ResolveQueue)
        ensures
            q.pending_mods() == mods@,
            q.resolved().len() == 0,
    {
        let q = ResolveQueue { pending: mods, done: Vec::new() };
        assert(identifier_views(q.done@) =~= Seq::empty());
        q
    }

    /// The next mod to resolve: the first pending one whose identifier is not
    /// resolved already; the ones before it are dropped. The identifier is
    /// recorded as resolved.
    pub fn next(&mut self) -> (r: Option<Mod>)
        ensures
            distinct_ids(final(self).resolved()),
            r matches Some(m) ==> {
                &&& !old(self).resolved().contains(m.identifier@)
                &&& final(self).resolved() == old(self).resolved().push(m.identifier@)
                &&& exists|k: int| 0 <= k < old(self).pending_mods().len() && old(self).pending_mods()[k] == m
                    && final(self).pending_mods() == old(self).pending_mods().skip(k + 1)
                    && forall|j: int| 0 <= j < k ==> old(self).resolved().contains(#[trigger] old(self).pending_mods()[j].identifier@)
            },
            r is None ==> final(self).pending_mods().len() == 0 && final(self).resolved() == old(self).resolved()
                && forall|j: int| 0 <= j < old(self).pending_mods().len() ==> old(self).resolved().contains(#[trigger] old(self).pending_mods()[j].identifier@),
    {
        proof {
            use_type_invariant(&*self);
        }
        let mut pending: Vec<Mod> = Vec::new();
        let mut done: Vec<ModIdentifier> = Vec::new();
        std::mem::swap(&mut pending, &mut self.pending);
        std::mem::swap(&mut done, &mut self.done);
        assert(identifier_views(self.done@) =~= Seq::empty());
        let r = next_pending(&mut pending, &mut done);
        self.pending = pending;
        self.done = done;
        r
    }

    /// Queues the dependencies of a file found, as mods to resolve.
    pub fn add_dependencies(&mut self, deps: Vec<ModIdentifier>)
        requires
            forall|k: int| 0 <= k < deps@.len() ==> resolvable_dependency(#[trigger] deps@[k]@),
        ensures
            final(self).resolved() == old(self).resolved(),
            final(self).pending_mods().len() == old(self).pending_mods().len() + deps@.len(),
            final(self).pending_mods().take(old(self).pending_mods().len() as int) == old(self).pending_mods(),
            forall|k: int| 0 <= k < deps@.len() ==> (#[trigger] final(self).pending_mods()[old(self).pending_mods().len() + k]).name@
                == dependency_mod_spec(deps@[k]@).0 && final(self).pending_mods()[old(self).pending_mods().len() + k].identifier@
                == dependency_mod_spec(deps@[k]@).1,
    {
        proof {
            use_type_invariant(&*self);
        }
        let mut pending: Vec<Mod> = Vec::new();
        std::mem::swap(&mut pending, &mut self.pending);
        push_dependencies(&mut pending, deps);
        self.pending = pending;
    }
}

/// The filters a mod's files are chosen by: its own where they override the
/// profile's, else the profile's followed by its own.
pub open spec fn filters_for(profile_filters: Seq<FilterView>, m: Mod) -> Seq<FilterView> {
    if m.override_filters {
        filter_views(m.filters@)
    } else {
        profile_filters + filter_views(m.filters@)
    }
}

/// The filters that the latest file of `m` is chosen by.
pub fn mod_filters(profile_filters: &Vec<Filter>, m: &Mod) -> (r: Vec<Filter>)
    ensures
        filter_views(r@) == filters_for(filter_views(profile_filters@), *m),
{
    if m.override_filters {
        return copy_filters(&m.filters);
    }
    let mut r = copy_filters(profile_filters);
    let own = copy_filters(&m.filters);
    let mut i: usize = 0;
    while i < own.len()
        invariant
            i <= own.len(),
            filter_views(own@) == filter_views(m.filters@),
            filter_views(r@) == filter_views(profile_filters@) + filter_views(own@).take(i as int),
        decreases own.len() - i,
    {
        let ghost before = r@;
        r.push(own[i].duplicate());
        assert(filter_views(r@) =~= filter_views(before).push(own@[i as int]@));
        assert(filter_views(own@).take(i + 1) =~= filter_views(own@).take(i as int).push(own@[i as int]@));
        i = i + 1;
    }
    assert(filter_views(own@).take(i as int) =~= filter_views(own@));
    r
}

/// The number of bytes of the UTF-8 form of a character.
pub open spec fn utf8_width(c: char) -> nat {
    if (c as u32) < 0x80 {
        1
    } else if (c as u32) < 0x800 {
        2
    } else if (c as u32) < 0x10000 {
        3
    } else {
        4
    }
}

/// The number of bytes of the UTF-8 form of a text: `String::len`.
pub open spec fn utf8_len(s: Seq<char>) -> nat
    decreases s.len(),
{
    if s.len() == 0 {
        0
    } else {
        utf8_len(s.drop_last()) + utf8_width(s.last())
    }
}

/// The number of bytes of a text, as `String::len` counts them.
pub fn byte_len(s: &str) -> (r: usize)
    requires
        utf8_len(s@) <= usize::MAX,
    ensures
        r == utf8_len(s@),
{
    let v = crate::text::chars_of(s);
    let mut n: usize = 0;
    let mut i: usize = 0;
    while i < v.len()
        invariant
            v@ == s@,
            i <= v.len(),
            n == utf8_len(s@.take(i as int)),
            utf8_len(s@) <= usize::MAX,
        decreases v.len() - i,
    {
        assert(s@.take(i + 1).drop_last() =~= s@.take(i as int));
        proof {
            lemma_utf8_len_prefix(s@, i + 1);
        }
        let c = v[i];
        let w: usize = if (c as u32) < 0x80 {
            1
        } else if (c as u32) < 0x800 {
            2
        } else if (c as u32) < 0x10000 {
            3
        } else {
            4
        };
        n = n + w;
        i = i + 1;
    }
    assert(s@.take(v.len() as int) =~= s@);
    n
}

/// A prefix has no more bytes than the whole.
pub proof fn lemma_utf8_len_prefix(s: Seq<char>, k: int)
    requires
        0 <= k <= s.len(),
    ensures
        utf8_len(s.take(k)) <= utf8_len(s),
    decreases s.len() - k,
{
    if k < s.len() {
        lemma_utf8_len_prefix(s, k + 1);
        assert(s.take(k + 1).drop_last() =~= s.take(k));
    } else {
        assert(s.take(k) =~= s);
    }
}

/// The width the names of mods are padded to: that of the longest name (in
/// bytes), or 20 where there is none, and between 20 and 50.
pub open spec fn pad_width(names: Seq<Seq<char>>) -> int {
    let longest = if names.len() == 0 {
        20
    } else {
        max_utf8_len(names)
    };
    if longest < 20 {
        20
    } else if longest > 50 {
        50
    } else {
        longest
    }
}

/// The most bytes of any of the texts.
pub open spec fn max_utf8_len(names: Seq<Seq<char>>) -> int
    decreases names.len(),
{
    if names.len() == 0 {
        0
    } else {
        let rest = max_utf8_len(names.drop_last());
        let l = utf8_len(names.last()) as int;
        if l > rest {
            l
        } else {
            rest
        }
    }
}

/// The width the names of the mods are padded to.
pub fn pad_len(mods: &Vec<Mod>) -> (r: usize)
    requires
        forall|k: int| 0 <= k < mods@.len() ==> utf8_len(#[trigger] mods@[k].name@) <= usize::MAX,
    ensures
        r == pad_width(mods@.map_values(|m: Mod| m.name@)),
{
    let ghost names = mods@.map_values(|m: Mod| m.name@);
    let mut longest: usize = 0;
    let mut i: usize = 0;
    while i < mods.len()
        invariant
            i <= mods.len(),
            names == mods@.map_values(|m: Mod| m.name@),
            forall|k: int| 0 <= k < mods@.len() ==> utf8_len(#[trigger] mods@[k].name@) <= usize::MAX,
            longest == max_utf8_len(names.take(i as int)),
        decreases mods.len() - i,
    {
        assert(names.take(i + 1).drop_last() =~= names.take(i as int));
        assert(names.take(i + 1).last() == mods@[i as int].name@);
        let l = byte_len(mods[i].name.as_str());
        if l > longest {
            longest = l;
        }
        i = i + 1;
    }
    assert(names.take(mods.len() as int) =~= names);
    let base = if mods.len() == 0 {
        20
    } else {
        longest
    };
    if base < 20 {
        20
    } else if base > 50 {
        50
    } else {
        base
    }
}

/// Whether the mods of the `user` folder are copied to the output directory:
/// not for profiles whose first mod loader is Quilt, which loads mods from
/// folders within its mods folder itself.
pub fn copies_user_mods(filters: &Vec<Filter>) -> (r: bool)
    ensures
        r == !({
            let k = first_mod_loader_filter(filter_views(filters@));
            &&& k is Some
            &&& loaders_of(filter_views(filters@)[k->0]).len() > 0
            &&& loaders_of(filter_views(filters@)[k->0])[0] == ModLoader::Quilt
        }),
{
    match filters.mod_loader() {
        Some(l) => *l != ModLoader::Quilt,
        None => true,
    }
}

/// The extension of a file name, as `std::path::Path::extension` reads it:
/// what follows the last dot, unless that dot starts the name; none without a dot.
pub open spec fn extension_of(name: Seq<char>) -> Option<Seq<char>> {
    match last_dot(name) {
        Some(p) => if p == 0 {
            None
        } else {
            Some(name.skip(p + 1))
        },
        None => None,
    }
}

/// Where the last dot of a text stands.
pub open spec fn last_dot(s: Seq<char>) -> Option<int>
    decreases s.len(),
{
    if s.len() == 0 {
        None
    } else if s.last() == '.' {
        Some(s.len() - 1)
    } else {
        last_dot(s.drop_last())
    }
}

pub proof fn lemma_last_dot(s: Seq<char>)
    ensures
        match last_dot(s) {
            Some(p) => 0 <= p < s.len() && s[p] == '.' && forall|j: int| p < j < s.len() ==> s[j] != '.',
            None => forall|j: int| 0 <= j < s.len() ==> s[j] != '.',
        },
    decreases s.len(),
{
    if s.len() > 0 && s.last() != '.' {
        let t = s.drop_last();
        lemma_last_dot(t);
        assert(forall|j: int| 0 <= j < t.len() ==> t[j] == s[j]);
    }
}

/// Whether a file name's extension is `ext`, ignoring ASCII case (as the
/// scan picks `.jar` files).
pub fn has_extension(file_name: &str, ext: &str) -> (r: bool)
    ensures
        r == (extension_of(file_name@) matches Some(e) && eq_ignore_ascii_case_spec(e, ext@)),
{
    let v = chars_of(file_name);
    let mut i: usize = v.len();
    proof {
        lemma_last_dot(file_name@);
    }
    while i > 0
        invariant
            i <= v.len(),
            v@ == file_name@,
            forall|j: int| i <= j < v.len() ==> v@[j] != '.',
        decreases i,
    {
        if v[i - 1] == '.' {
            proof {
                lemma_last_dot(file_name@);
            }
            assert(last_dot(file_name@) == Some(i - 1));
            if i - 1 == 0 {
                return false;
            }
            let mut rest: Vec<char> = Vec::new();
            let mut k: usize = i;
            while k < v.len()
                invariant
                    i <= k <= v.len(),
                    rest@ == v@.subrange(i as int, k as int),
                decreases v.len() - k,
            {
                rest.push(v[k]);
                k = k + 1;
            }
            let found = string_from_chars(&rest);
            assert(rest@ =~= file_name@.skip(i as int));
            return crate::text::eq_ignore_ascii_case(found.as_str(), ext);
        }
        i = i - 1;
    }
    proof {
        lemma_last_dot(file_name@);
    }
    false
}

/// Has every file downloaded directly into the output directory: each
/// output becomes the file's name.
pub fn download_to_output_dir(to_download: &mut Vec<DownloadData>)
    ensures
        final(to_download)@.len() == old(to_download)@.len(),
        forall|k: int|
            0 <= k < old(to_download)@.len() ==> is_file_name_of(
                #[trigger] final(to_download)@[k].output@,
                old(to_download)@[k].output@,
            ) && final(to_download)@[k].download_url == old(to_download)@[k].download_url
                && final(to_download)@[k].length == old(to_download)@[k].length,
{
    let mut i: usize = 0;
    while i < to_download.len()
        invariant
            i <= to_download.len(),
            to_download@.len() == old(to_download)@.len(),
            forall|k: int|
                0 <= k < i ==> is_file_name_of(#[trigger] to_download@[k].output@, old(to_download)@[k].output@)
                    && to_download@[k].download_url == old(to_download)@[k].download_url
                    && to_download@[k].length == old(to_download)@[k].length,
            forall|k: int| i <= k < to_download@.len() ==> #[trigger] to_download@[k] == old(to_download)@[k],
        decreases to_download.len() - i,
    {
        let name = to_download[i].filename();
        let ghost before = to_download@;
        let mut d = to_download.remove(i);
        d.output = name;
        let ghost changed = d;
        to_download.insert(i, d);
        assert(to_download@ =~= before.update(i as int, changed));
        assert(is_file_name_of(changed.output@, old(to_download)@[i as int].output@));
        assert forall|k: int| 0 <= k < i + 1 implies is_file_name_of(#[trigger] to_download@[k].output@, old(to_download)@[k].output@)
            && to_download@[k].download_url == old(to_download)@[k].download_url
            && to_download@[k].length == old(to_download)@[k].length by {
            if k < i {
                assert(to_download@[k] == before[k]);
            }
        }
        i = i + 1;
    }
}

/// Whether there is nothing to download or install.
pub fn all_up_to_date(to_download: &Vec<DownloadData>, to_install: &Vec<(String, String)>) -> (r: bool)
    ensures
        r == (to_download@.len() == 0 && to_install@.len() == 0),
{
    to_download.len() == 0 && to_install.len() == 0
}

/// How an upgrade ends: it fails where the latest compatible version of some
/// mod could not be found, after everything else was downloaded.
pub fn upgrade_result(error: bool) -> (r: Result<(), String>)
    ensures
        error ==> (r matches Err(m) && m@ == "\nCould not get the latest compatible version of some mods"@),
        !error ==> r is Ok,
{
    if error {
        Err(owned("\nCould not get the latest compatible version of some mods"))
    } else {
        Ok(())
    }
}

} // verus!

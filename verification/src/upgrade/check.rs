//! Choosing, out of the files of a project, the one that the filters select.
use super::{metadata_views, Metadata, MetadataView};
use crate::config::filters::{filter_text, filter_views, loaders_of, Filter, FilterView, ReleaseChannel};
use crate::config::structs::ModLoader;
use crate::pattern::{is_match, regex_compiles, regex_matches, CompiledRegex};
use crate::text::{concat, copy_string, join, join_spec, owned, str_eq, views};
use vstd::prelude::*;

verus! {

/// Why no file could be selected.
#[derive(Debug)]
pub enum Error {
    /// The groups of game versions could not be fetched; the message says why.
    VersionGrouping(String),
    /// A filter's regex did not compile; the message says why.
    FilenameRegex(String),
    /// These filters (as displayed) left no file.
    FilterEmpty(Vec<String>),
    /// No file passed every filter.
    IntersectFailure,
}

/// The message an error is displayed with, past the inner error's own message.
pub open spec fn filter_empty_message(names: Seq<Seq<char>>) -> Seq<char> {
    "The following filter(s) were empty: "@ + join_spec(names, ", "@)
}

/// The message an error is displayed with.
pub open spec fn check_error_message(e: Error) -> Seq<char> {
    match e {
        Error::VersionGrouping(m) => m@,
        Error::FilenameRegex(m) => m@,
        Error::FilterEmpty(names) => filter_empty_message(views(names@)),
        Error::IntersectFailure => "Failed to find a compatible combination"@,
    }
}

impl Error {
    /// The message the error is displayed with.
    pub fn message(&self) -> (r: String)
        ensures
            r@ == check_error_message(*self),
    {
        match self {
            Error::VersionGrouping(m) => copy_string(m),
            Error::FilenameRegex(m) => copy_string(m),
            Error::FilterEmpty(names) => {
                let joined = join(names, ", ");
                concat("The following filter(s) were empty: ", joined.as_str())
            },
            Error::IntersectFailure => owned("Failed to find a compatible combination"),
        }
    }
}

/// Whether a file of channel `got` passes a filter on channel `want`.
pub open spec fn channel_accepts(want: ReleaseChannel, got: ReleaseChannel) -> bool {
    match want {
        ReleaseChannel::Alpha => true,
        ReleaseChannel::Beta => got == ReleaseChannel::Beta || got == ReleaseChannel::Release,
        ReleaseChannel::Release => got == ReleaseChannel::Release,
    }
}

/// Whether some item of `a` occurs in `b`.
pub open spec fn shares(a: Seq<Seq<char>>, b: Seq<Seq<char>>) -> bool {
    exists|j: int| 0 <= j < a.len() && b.contains(#[trigger] a[j])
}

/// Whether a file supports one of `loaders`.
pub open spec fn any_loader(loaders: Seq<ModLoader>, m: MetadataView) -> bool {
    exists|j: int| 0 <= j < loaders.len() && m.loaders.contains(#[trigger] loaders[j])
}

/// Whether a file supports a game version of a group that holds one of `versions`.
pub open spec fn minor_match(
    versions: Seq<Seq<char>>,
    groups: Seq<Seq<Seq<char>>>,
    m: MetadataView,
) -> bool {
    exists|k: int|
        0 <= k < groups.len() && shares(#[trigger] groups[k], versions) && shares(
            groups[k],
            m.game_versions,
        )
}

/// Whether a file passes a filter other than `ModLoaderPrefer`.
pub open spec fn plain_accepts(f: FilterView, m: MetadataView, groups: Seq<Seq<Seq<char>>>) -> bool {
    match f {
        FilterView::ModLoaderPrefer(_) => true,
        FilterView::ModLoaderAny(ls) => any_loader(ls, m),
        FilterView::GameVersionStrict(vs) => shares(vs, m.game_versions),
        FilterView::GameVersionMinor(vs) => minor_match(vs, groups, m),
        FilterView::ReleaseChannel(c) => channel_accepts(c, m.channel),
        FilterView::Filename(p) => regex_matches(p, m.filename),
        FilterView::Title(p) => regex_matches(p, m.title),
        FilterView::Description(p) => regex_matches(p, m.description),
    }
}

/// Whether one of the candidates supports loader `l`.
pub open spec fn loader_present(l: ModLoader, files: Seq<MetadataView>, cands: Seq<usize>) -> bool {
    exists|c: usize| cands.contains(c) && (#[trigger] files[c as int]).loaders.contains(l)
}

/// The first of `loaders` that one of the candidates supports.
pub open spec fn prefer_loader(loaders: Seq<ModLoader>, files: Seq<MetadataView>, cands: Seq<usize>) -> Option<ModLoader>
    decreases loaders.len(),
{
    if loaders.len() == 0 {
        None
    } else if loader_present(loaders[0], files, cands) {
        Some(loaders[0])
    } else {
        prefer_loader(loaders.drop_first(), files, cands)
    }
}

/// Whether the file at an index supports loader `l`.
pub open spec fn supports(files: Seq<MetadataView>, l: ModLoader) -> spec_fn(usize) -> bool {
    |c: usize| files[c as int].loaders.contains(l)
}

/// Whether the file at an index passes a filter other than `ModLoaderPrefer`.
pub open spec fn passes(f: FilterView, files: Seq<MetadataView>, groups: Seq<Seq<Seq<char>>>) -> spec_fn(usize) -> bool {
    |c: usize| plain_accepts(f, files[c as int], groups)
}

/// The candidates that a filter keeps, in their order.
pub open spec fn filter_positions(
    f: FilterView,
    files: Seq<MetadataView>,
    cands: Seq<usize>,
    groups: Seq<Seq<Seq<char>>>,
) -> Seq<usize> {
    match f {
        FilterView::ModLoaderPrefer(ls) => match prefer_loader(ls, files, cands) {
            Some(l) => cands.filter(supports(files, l)),
            None => Seq::empty(),
        },
        _ => cands.filter(passes(f, files, groups)),
    }
}

/// Whether running a filter fails: its regex does not compile, or it needs the
/// groups of game versions and these could not be had.
pub open spec fn filter_fails(f: FilterView, groups_ok: bool) -> bool {
    match f {
        FilterView::GameVersionMinor(_) => !groups_ok,
        FilterView::Filename(p) => !regex_compiles(p),
        FilterView::Title(p) => !regex_compiles(p),
        FilterView::Description(p) => !regex_compiles(p),
        _ => false,
    }
}

/// The groups of game versions, where they could be had.
pub open spec fn groups_view(g: Result<Vec<Vec<String>>, String>) -> Seq<Seq<Seq<char>>> {
    match g {
        Ok(v) => group_views(v@),
        Err(_) => Seq::empty(),
    }
}

/// The views of groups of game versions.
pub open spec fn group_views(g: Seq<Vec<String>>) -> Seq<Seq<Seq<char>>> {
    g.map_values(|x: Vec<String>| views(x@))
}

/// The kind of a game version.
#[derive(Clone, Copy, Debug, PartialEq, Eq, Structural)]
pub enum GameVersionType {
    Release,
    Snapshot,
    Beta,
    Alpha,
}

/// A game version, as listed by Modrinth.
#[derive(Debug)]
pub struct GameVersion {
    pub version: String,
    /// The type of the game version
    pub version_type: GameVersionType,
    /// Whether this game version was considered a major version
    pub major: bool,
    /// When the version was released, in nanoseconds since the Unix epoch
    pub date: i128,
}

/// The groups of release versions, in the order listed, where a new group
/// starts after each major version.
pub open spec fn version_groups_spec(vs: Seq<GameVersion>) -> Seq<Seq<Seq<char>>>
    decreases vs.len(),
{
    if vs.len() == 0 {
        seq![Seq::empty()]
    } else {
        let g = version_groups_spec(vs.drop_last());
        let v = vs.last();
        if v.version_type == GameVersionType::Release {
            let grown = g.update(g.len() - 1, g.last().push(v.version@));
            if v.major {
                grown.push(Seq::empty())
            } else {
                grown
            }
        } else {
            g
        }
    }
}

/// The groups of versions that are considered minor updates of each other
/// in terms of mod compatibility, out of the game versions Modrinth lists
/// (its `major` flag marks where a group ends).
pub fn get_version_groups(versions: &Vec<GameVersion>) -> (r: Vec<Vec<String>>)
    ensures
        group_views(r@) == version_groups_spec(versions@),
{
    let mut done: Vec<Vec<String>> = Vec::new();
    let mut current: Vec<String> = Vec::new();
    let mut i: usize = 0;
    assert(versions@.take(0) =~= Seq::<GameVersion>::empty());
    assert(views(current@) =~= Seq::<Seq<char>>::empty());
    assert(group_views(done@) =~= Seq::<Seq<Seq<char>>>::empty());
    assert(group_views(done@).push(views(current@)) =~= seq![Seq::<Seq<char>>::empty()]);
    while i < versions.len()
        invariant
            i <= versions.len(),
            group_views(done@).push(views(current@)) == version_groups_spec(versions@.take(i as int)),
        decreases versions.len() - i,
    {
        let v = &versions[i];
        let ghost g = version_groups_spec(versions@.take(i as int));
        assert(versions@.take(i + 1).drop_last() =~= versions@.take(i as int));
        if v.version_type == GameVersionType::Release {
            let ghost before = views(current@);
            current.push(copy_string(&v.version));
            assert(views(current@) =~= before.push(v.version@));
            if v.major {
                let ghost d = group_views(done@);
                done.push(current);
                current = Vec::new();
                assert(views(current@) =~= Seq::<Seq<char>>::empty());
                assert(group_views(done@) =~= d.push(before.push(v.version@)));
                assert(versions@.take(i + 1).last() == versions@[i as int]);
                assert(g.update(g.len() - 1, before.push(v.version@)) =~= d.push(
                    before.push(v.version@),
                ));
                assert(group_views(done@).push(views(current@)) =~= version_groups_spec(
                    versions@.take(i + 1),
                ));
            } else {
                assert(group_views(done@).push(views(current@)) =~= version_groups_spec(
                    versions@.take(i + 1),
                ));
            }
        }
        i = i + 1;
    }
    assert(versions@.take(versions.len() as int) =~= versions@);
    let ghost d = group_views(done@);
    let ghost c = views(current@);
    done.push(current);
    assert(group_views(done@) =~= d.push(c));
    done
}

/// Whether a listed game version is a release.
pub open spec fn is_release() -> spec_fn(GameVersion) -> bool {
    |v: GameVersion| v.version_type == GameVersionType::Release
}

/// Whether a listed game version is a major release.
pub open spec fn is_major_release() -> spec_fn(GameVersion) -> bool {
    |v: GameVersion| v.version_type == GameVersionType::Release && v.major
}

/// The release versions of a list, in order.
pub open spec fn release_versions(vs: Seq<GameVersion>) -> Seq<Seq<char>> {
    vs.filter(is_release()).map_values(|v: GameVersion| v.version@)
}

/// The groups of versions split the releases, in the order listed, with a
/// new group after each major release: joined together they are the release
/// versions, and there is one group more than there are major releases.
pub proof fn lemma_version_groups(vs: Seq<GameVersion>)
    ensures
        version_groups_spec(vs).flatten() == release_versions(vs),
        version_groups_spec(vs).len() == vs.filter(is_major_release()).len() + 1,
    decreases vs.len(),
{
    let g = version_groups_spec(vs);
    g.lemma_flatten_and_flatten_alt_are_equivalent();
    if vs.len() == 0 {
        assert(vs.filter(is_release()) =~= Seq::<GameVersion>::empty()) by {
            reveal(Seq::filter);
        }
        assert(vs.filter(is_major_release()) =~= Seq::<GameVersion>::empty()) by {
            reveal(Seq::filter);
        }
        assert(g.drop_last() =~= Seq::<Seq<Seq<char>>>::empty());
        assert(g.drop_last().flatten_alt() =~= Seq::<Seq<char>>::empty());
        assert(g.flatten_alt() =~= Seq::<Seq<char>>::empty());
        assert(release_versions(vs) =~= Seq::<Seq<char>>::empty());
    } else {
        let rest = vs.drop_last();
        let v = vs.last();
        let h = version_groups_spec(rest);
        lemma_version_groups(rest);
        h.lemma_flatten_and_flatten_alt_are_equivalent();
        assert(vs =~= rest.push(v));
        rest.lemma_filter_push(v, is_release());
        rest.lemma_filter_push(v, is_major_release());
        if v.version_type == GameVersionType::Release {
            let grown = h.update(h.len() - 1, h.last().push(v.version@));
            assert(grown.drop_last() =~= h.drop_last());
            grown.lemma_flatten_and_flatten_alt_are_equivalent();
            h.drop_last().lemma_flatten_and_flatten_alt_are_equivalent();
            assert(h.flatten_alt() == h.drop_last().flatten_alt() + h.last());
            assert(grown.flatten_alt() =~= h.flatten_alt().push(v.version@));
            assert(release_versions(vs) =~= release_versions(rest).push(v.version@));
            if v.major {
                let pushed = grown.push(Seq::empty());
                assert(pushed.drop_last() =~= grown);
                assert(pushed.flatten_alt() =~= grown.flatten_alt());
            }
        } else {
            assert(release_versions(vs) =~= release_versions(rest));
        }
    }
}

/// Whether `v` holds `s`.
pub fn contains_string(v: &Vec<String>, s: &String) -> (r: bool)
    ensures
        r == views(v@).contains(s@),
{
    let mut i: usize = 0;
    while i < v.len()
        invariant
            i <= v.len(),
            forall|k: int| 0 <= k < i ==> v@[k]@ != s@,
        decreases v.len() - i,
    {
        if str_eq(v[i].as_str(), s.as_str()) {
            assert(views(v@)[i as int] == s@);
            return true;
        }
        i = i + 1;
    }
    proof {
        if views(v@).contains(s@) {
            let k = choose|k: int| 0 <= k < views(v@).len() && views(v@)[k] == s@;
            assert(v@[k]@ == s@);
        }
    }
    false
}

/// Whether some item of `a` occurs in `b`.
pub fn shares_any(a: &Vec<String>, b: &Vec<String>) -> (r: bool)
    ensures
        r == shares(views(a@), views(b@)),
{
    let mut i: usize = 0;
    while i < a.len()
        invariant
            i <= a.len(),
            forall|k: int| 0 <= k < i ==> !views(b@).contains(#[trigger] views(a@)[k]),
        decreases a.len() - i,
    {
        if contains_string(b, &a[i]) {
            assert(views(b@).contains(views(a@)[i as int]));
            return true;
        }
        i = i + 1;
    }
    false
}

/// Whether `v` holds `l`.
pub fn has_loader(v: &Vec<ModLoader>, l: ModLoader) -> (r: bool)
    ensures
        r == v@.contains(l),
{
    let mut i: usize = 0;
    while i < v.len()
        invariant
            i <= v.len(),
            forall|k: int| 0 <= k < i ==> v@[k] != l,
        decreases v.len() - i,
    {
        if v[i] == l {
            assert(v@[i as int] == l);
            return true;
        }
        i = i + 1;
    }
    false
}

/// Whether `v` holds one of `loaders`.
pub fn has_any_loader(v: &Vec<ModLoader>, loaders: &Vec<ModLoader>) -> (r: bool)
    ensures
        r == (exists|j: int| 0 <= j < loaders@.len() && v@.contains(#[trigger] loaders@[j])),
{
    let mut i: usize = 0;
    while i < loaders.len()
        invariant
            i <= loaders.len(),
            forall|k: int| 0 <= k < i ==> !v@.contains(#[trigger] loaders@[k]),
        decreases loaders.len() - i,
    {
        if has_loader(v, loaders[i]) {
            assert(v@.contains(loaders@[i as int]));
            return true;
        }
        i = i + 1;
    }
    false
}

/// What a filtered sequence holds: the items of the sequence that pass.
pub proof fn lemma_filter_member(s: Seq<usize>, p: spec_fn(usize) -> bool, x: usize)
    ensures
        s.filter(p).contains(x) <==> s.contains(x) && p(x),
{
    if s.filter(p).contains(x) {
        s.lemma_filter_contains_rev(p, x);
        let i = choose|i: int| 0 <= i < s.filter(p).len() && s.filter(p)[i] == x;
        s.lemma_filter_pred(p, i);
    }
    if s.contains(x) && p(x) {
        let i = choose|i: int| 0 <= i < s.len() && s[i] == x;
        s.lemma_filter_contains(p, i);
    }
}

/// The items of `cands` for which `pred` holds, in order: one step of the loop.
proof fn lemma_filter_step(cands: Seq<usize>, k: int, pred: spec_fn(usize) -> bool)
    requires
        0 <= k < cands.len(),
    ensures
        cands.take(k + 1).filter(pred) == if pred(cands[k]) {
            cands.take(k).filter(pred).push(cands[k])
        } else {
            cands.take(k).filter(pred)
        },
{
    assert(cands.take(k + 1) =~= cands.take(k).push(cands[k]));
    cands.take(k).lemma_filter_push(cands[k], pred);
}

/// The candidates that support loader `l`, in order.
fn supporting(files: &Vec<Metadata>, cands: &Vec<usize>, l: ModLoader) -> (r: Vec<usize>)
    requires
        forall|k: int| 0 <= k < cands.len() ==> cands@[k] < files.len(),
    ensures
        r@ == cands@.filter(supports(metadata_views(files@), l)),
{
    let ghost pred = supports(metadata_views(files@), l);
    let mut r: Vec<usize> = Vec::new();
    let mut k: usize = 0;
    while k < cands.len()
        invariant
            k <= cands.len(),
            forall|k: int| 0 <= k < cands.len() ==> cands@[k] < files.len(),
            pred == supports(metadata_views(files@), l),
            r@ == cands@.take(k as int).filter(pred),
        decreases cands.len() - k,
    {
        let c = cands[k];
        proof { lemma_filter_step(cands@, k as int, pred); }
        if has_loader(&files[c].loaders, l) {
            r.push(c);
        }
        k = k + 1;
    }
    assert(cands@.take(cands.len() as int) =~= cands@);
    r
}

/// Whether a nonempty filtered sequence is one whose filter some item passes.
proof fn lemma_loader_present(files: Seq<MetadataView>, cands: Seq<usize>, l: ModLoader)
    ensures
        loader_present(l, files, cands) <==> cands.filter(supports(files, l)).len() > 0,
{
    let p = supports(files, l);
    if loader_present(l, files, cands) {
        let c = choose|c: usize| cands.contains(c) && (#[trigger] files[c as int]).loaders.contains(l);
        lemma_filter_member(cands, p, c);
    }
    if cands.filter(p).len() > 0 {
        let c = cands.filter(p)[0];
        assert(cands.filter(p).contains(c));
        lemma_filter_member(cands, p, c);
    }
}

/// The candidates kept by a `ModLoaderPrefer` filter on `loaders`.
fn prefer_positions(files: &Vec<Metadata>, cands: &Vec<usize>, loaders: &Vec<ModLoader>) -> (r: Vec<usize>)
    requires
        forall|k: int| 0 <= k < cands.len() ==> cands@[k] < files.len(),
    ensures
        r@ == filter_positions(
            FilterView::ModLoaderPrefer(loaders@),
            metadata_views(files@),
            cands@,
            Seq::empty(),
        ),
{
    let ghost fs = metadata_views(files@);
    let mut i: usize = 0;
    assert(loaders@.subrange(0, loaders@.len() as int) =~= loaders@);
    while i < loaders.len()
        invariant
            i <= loaders.len(),
            forall|k: int| 0 <= k < cands.len() ==> cands@[k] < files.len(),
            fs == metadata_views(files@),
            prefer_loader(loaders@, fs, cands@) == prefer_loader(
                loaders@.subrange(i as int, loaders@.len() as int),
                fs,
                cands@,
            ),
        decreases loaders.len() - i,
    {
        let l = loaders[i];
        let found = supporting(files, cands, l);
        let ghost rest = loaders@.subrange(i as int, loaders@.len() as int);
        proof {
            lemma_loader_present(fs, cands@, l);
            assert(rest[0] == l);
            assert(rest.drop_first() =~= loaders@.subrange(i + 1, loaders@.len() as int));
        }
        if found.len() > 0 {
            return found;
        }
        i = i + 1;
    }
    assert(loaders@.subrange(i as int, loaders@.len() as int) =~= Seq::<ModLoader>::empty());
    Vec::new()
}

/// Whether a group of game versions holds one of `versions` and one of the file's.
fn minor_matches(versions: &Vec<String>, groups: &Vec<Vec<String>>, m: &Metadata) -> (r: bool)
    ensures
        r == minor_match(views(versions@), group_views(groups@), m@),
{
    let ghost gs = group_views(groups@);
    let mut i: usize = 0;
    while i < groups.len()
        invariant
            i <= groups.len(),
            gs == group_views(groups@),
            forall|k: int|
                0 <= k < i ==> !(shares(#[trigger] gs[k], views(versions@)) && shares(
                    gs[k],
                    m@.game_versions,
                )),
        decreases groups.len() - i,
    {
        assert(gs[i as int] == views(groups@[i as int]@));
        if shares_any(&groups[i], versions) && shares_any(&groups[i], &m.game_versions) {
            return true;
        }
        i = i + 1;
    }
    false
}

/// The regex that a filter on names or texts holds.
pub open spec fn filter_pattern(f: FilterView) -> Option<Seq<char>> {
    match f {
        FilterView::Filename(p) => Some(p),
        FilterView::Title(p) => Some(p),
        FilterView::Description(p) => Some(p),
        _ => None,
    }
}

/// Whether a file passes a filter other than `ModLoaderPrefer`, given the
/// regex of the filter compiled.
fn accepts(f: &Filter, m: &Metadata, groups: &Vec<Vec<String>>, re: &Option<CompiledRegex>) -> (r: bool)
    requires
        !(f@ is ModLoaderPrefer),
        filter_pattern(f@) matches Some(p) ==> re matches Some(c) && c.pattern() == p,
    ensures
        r == plain_accepts(f@, m@, group_views(groups@)),
{
    match f {
        Filter::ModLoaderPrefer(_) => true,
        Filter::ModLoaderAny(ls) => has_any_loader(&m.loaders, ls),
        Filter::GameVersionStrict(vs) => shares_any(vs, &m.game_versions),
        Filter::GameVersionMinor(vs) => minor_matches(vs, groups, m),
        Filter::ReleaseChannel(c) => match c {
            ReleaseChannel::Alpha => true,
            ReleaseChannel::Beta => m.channel == ReleaseChannel::Beta || m.channel
                == ReleaseChannel::Release,
            ReleaseChannel::Release => m.channel == ReleaseChannel::Release,
        },
        Filter::Filename(_) => match re {
            Some(c) => is_match(c, m.filename.as_str()),
            None => false,
        },
        Filter::Title(_) => match re {
            Some(c) => is_match(c, m.title.as_str()),
            None => false,
        },
        Filter::Description(_) => match re {
            Some(c) => is_match(c, m.description.as_str()),
            None => false,
        },
    }
}

/// The candidates that pass a filter other than `ModLoaderPrefer`, in order.
fn passing(
    f: &Filter,
    files: &Vec<Metadata>,
    cands: &Vec<usize>,
    groups: &Vec<Vec<String>>,
    re: &Option<CompiledRegex>,
) -> (r: Vec<usize>)
    requires
        !(f@ is ModLoaderPrefer),
        filter_pattern(f@) matches Some(p) ==> re matches Some(c) && c.pattern() == p,
        forall|k: int| 0 <= k < cands.len() ==> cands@[k] < files.len(),
    ensures
        r@ == cands@.filter(passes(f@, metadata_views(files@), group_views(groups@))),
{
    let ghost pred = passes(f@, metadata_views(files@), group_views(groups@));
    let mut r: Vec<usize> = Vec::new();
    let mut k: usize = 0;
    while k < cands.len()
        invariant
            k <= cands.len(),
            !(f@ is ModLoaderPrefer),
            filter_pattern(f@) matches Some(p) ==> re matches Some(c) && c.pattern() == p,
            forall|k: int| 0 <= k < cands.len() ==> cands@[k] < files.len(),
            pred == passes(f@, metadata_views(files@), group_views(groups@)),
            r@ == cands@.take(k as int).filter(pred),
        decreases cands.len() - k,
    {
        let c = cands[k];
        proof { lemma_filter_step(cands@, k as int, pred); }
        if accepts(f, &files[c], groups, re) {
            r.push(c);
        }
        k = k + 1;
    }
    assert(cands@.take(cands.len() as int) =~= cands@);
    r
}

impl Filter {
    /// The candidates, indices into `files`, that pass this filter, in their
    /// order. `version_groups` are the groups of game versions that only a
    /// `GameVersionMinor` filter looks at, or why they could not be had.
    pub fn filter(
        &self,
        files: &Vec<Metadata>,
        candidates: &Vec<usize>,
        version_groups: &Result<Vec<Vec<String>>, String>,
    ) -> (r: Result<Vec<usize>, Error>)
        requires
            forall|k: int| 0 <= k < candidates.len() ==> candidates@[k] < files.len(),
        ensures
            r is Err <==> filter_fails(self@, version_groups is Ok),
            r matches Ok(v) ==> v@ == filter_positions(
                self@,
                metadata_views(files@),
                candidates@,
                groups_view(*version_groups),
            ),
            r matches Err(e) ==> (e is VersionGrouping <==> self@ is GameVersionMinor) && (
            e is VersionGrouping || e is FilenameRegex),
            r matches Err(Error::VersionGrouping(msg)) ==> version_groups matches Err(g) && msg@
                == g@,
    {
        if let Filter::ModLoaderPrefer(ls) = self {
            return Ok(prefer_positions(files, candidates, ls));
        }
        let no_groups: Vec<Vec<String>> = Vec::new();
        let groups: &Vec<Vec<String>> = match version_groups {
            Ok(g) => g,
            Err(msg) => {
                if let Filter::GameVersionMinor(_) = self {
                    return Err(Error::VersionGrouping(copy_string(msg)));
                }
                &no_groups
            },
        };
        proof {
            assert(group_views(no_groups@) =~= Seq::<Seq<Seq<char>>>::empty());
        }
        let re: Option<CompiledRegex> = match self {
            Filter::Filename(p) | Filter::Title(p) | Filter::Description(p) => {
                match CompiledRegex::compile(p) {
                    Ok(c) => Some(c),
                    Err(msg) => {
                        return Err(Error::FilenameRegex(msg));
                    },
                }
            },
            _ => None,
        };
        let ghost fs = metadata_views(files@);
        let r = passing(self, files, candidates, groups, &re);
        proof {
            assert(passes(self@, fs, group_views(groups@)) =~= passes(
                self@,
                fs,
                groups_view(*version_groups),
            ));
        }
        Ok(r)
    }
}

/// The indices `0..n`.
pub open spec fn all_indices(n: nat) -> Seq<usize> {
    Seq::new(n, |i: int| i as usize)
}

/// Whether a list of filters holds one other than `ModLoaderPrefer`.
pub open spec fn has_plain(fs: Seq<FilterView>) -> bool {
    exists|j: int| 0 <= j < fs.len() && !(#[trigger] fs[j] is ModLoaderPrefer)
}

/// Whether a list of filters holds a `ModLoaderPrefer` filter.
pub open spec fn has_prefer(fs: Seq<FilterView>) -> bool {
    exists|j: int| 0 <= j < fs.len() && #[trigger] fs[j] is ModLoaderPrefer
}

/// Whether a file passes every filter of the list other than `ModLoaderPrefer`.
pub open spec fn passes_all(fs: Seq<FilterView>, m: MetadataView, groups: Seq<Seq<Seq<char>>>) -> bool {
    forall|j: int| 0 <= j < fs.len() && !(#[trigger] fs[j] is ModLoaderPrefer) ==> plain_accepts(fs[j], m, groups)
}

/// The files, by index, that pass every filter other than `ModLoaderPrefer`;
/// none where there is no such filter.
pub open spec fn narrowed(fs: Seq<FilterView>, files: Seq<MetadataView>, groups: Seq<Seq<Seq<char>>>) -> Seq<usize> {
    if has_plain(fs) {
        all_indices(files.len()).filter(|i: usize| passes_all(fs, files[i as int], groups))
    } else {
        Seq::empty()
    }
}

/// Whether, among the candidates, every `ModLoaderPrefer` filter of the list
/// finds one of its loaders and the file at `i` supports the loader found.
pub open spec fn preferred_by_all(fs: Seq<FilterView>, files: Seq<MetadataView>, cands: Seq<usize>, i: usize) -> bool {
    forall|j: int|
        0 <= j < fs.len() && #[trigger] fs[j] is ModLoaderPrefer ==> (prefer_loader(
            loaders_of(fs[j]),
            files,
            cands,
        ) matches Some(l) && files[i as int].loaders.contains(l))
}

/// Whether the file at `i` passes the filters as `select_latest` applies them.
pub open spec fn selectable(fs: Seq<FilterView>, files: Seq<MetadataView>, groups: Seq<Seq<Seq<char>>>, i: usize) -> bool {
    &&& has_prefer(fs)
    &&& narrowed(fs, files, groups).contains(i)
    &&& preferred_by_all(fs, files, narrowed(fs, files, groups), i)
}

/// Whether a filter, run on every file, keeps none.
pub open spec fn left_nothing(f: FilterView, files: Seq<MetadataView>, groups: Seq<Seq<Seq<char>>>) -> bool {
    filter_positions(f, files, all_indices(files.len()), groups).len() == 0
}

/// Filters other than `ModLoaderPrefer` that keep no file.
pub open spec fn plain_empty(files: Seq<MetadataView>, groups: Seq<Seq<Seq<char>>>) -> spec_fn(FilterView) -> bool {
    |f: FilterView| !(f is ModLoaderPrefer) && left_nothing(f, files, groups)
}

/// `ModLoaderPrefer` filters that keep no file.
pub open spec fn prefer_empty(files: Seq<MetadataView>, groups: Seq<Seq<Seq<char>>>) -> spec_fn(FilterView) -> bool {
    |f: FilterView| f is ModLoaderPrefer && left_nothing(f, files, groups)
}

/// How filters are displayed.
pub open spec fn filter_texts(fs: Seq<FilterView>) -> Seq<Seq<char>> {
    fs.map_values(|f: FilterView| filter_text(f))
}

/// The filters that keep no file, as displayed: those other than
/// `ModLoaderPrefer` first, each group in the order of the list.
pub open spec fn empty_filter_names(fs: Seq<FilterView>, files: Seq<MetadataView>, groups: Seq<Seq<Seq<char>>>) -> Seq<Seq<char>> {
    filter_texts(fs.filter(plain_empty(files, groups))) + filter_texts(fs.filter(prefer_empty(files, groups)))
}

/// Whether running some filter of the list fails.
pub open spec fn any_fails(fs: Seq<FilterView>, groups_ok: bool) -> bool {
    exists|j: int| 0 <= j < fs.len() && filter_fails(#[trigger] fs[j], groups_ok)
}

/// The indices `0..n`, in order.
fn index_range(n: usize) -> (r: Vec<usize>)
    ensures
        r@ == all_indices(n as nat),
{
    let mut r: Vec<usize> = Vec::new();
    let mut i: usize = 0;
    while i < n
        invariant
            i <= n,
            r@ =~= all_indices(i as nat),
        decreases n - i,
    {
        r.push(i);
        i = i + 1;
    }
    r
}

/// A copy of a list of indices.
fn copy_indices(v: &Vec<usize>) -> (r: Vec<usize>)
    ensures
        r@ == v@,
{
    let mut r: Vec<usize> = Vec::new();
    let mut i: usize = 0;
    while i < v.len()
        invariant
            i <= v.len(),
            r@ =~= v@.take(i as int),
        decreases v.len() - i,
    {
        r.push(v[i]);
        i = i + 1;
    }
    assert(v@.take(v.len() as int) =~= v@);
    r
}

/// Whether `v` holds `x`.
fn has_index(v: &Vec<usize>, x: usize) -> (r: bool)
    ensures
        r == v@.contains(x),
{
    let mut i: usize = 0;
    while i < v.len()
        invariant
            i <= v.len(),
            forall|k: int| 0 <= k < i ==> v@[k] != x,
        decreases v.len() - i,
    {
        if v[i] == x {
            assert(v@[i as int] == x);
            return true;
        }
        i = i + 1;
    }
    false
}

/// The items of `a` that `b` holds, in the order of `a`.
fn intersect(a: &Vec<usize>, b: &Vec<usize>) -> (r: Vec<usize>)
    ensures
        forall|x: usize| r@.contains(x) <==> a@.contains(x) && b@.contains(x),
{
    let ghost pred = |x: usize| b@.contains(x);
    let mut r: Vec<usize> = Vec::new();
    let mut k: usize = 0;
    while k < a.len()
        invariant
            k <= a.len(),
            pred == (|x: usize| b@.contains(x)),
            r@ == a@.take(k as int).filter(pred),
        decreases a.len() - k,
    {
        proof { lemma_filter_step(a@, k as int, pred); }
        if has_index(b, a[k]) {
            r.push(a[k]);
        }
        k = k + 1;
    }
    assert(a@.take(a.len() as int) =~= a@);
    assert forall|x: usize| r@.contains(x) <==> a@.contains(x) && b@.contains(x) by {
        lemma_filter_member(a@, pred, x);
    }
    r
}

/// The least item of `v`, if it has one.
fn least(v: &Vec<usize>) -> (r: Option<usize>)
    ensures
        r is None <==> v.len() == 0,
        r matches Some(m) ==> v@.contains(m) && forall|k: int| 0 <= k < v.len() ==> m <= v@[k],
{
    if v.len() == 0 {
        return None;
    }
    let mut m = v[0];
    let mut i: usize = 1;
    while i < v.len()
        invariant
            1 <= i <= v.len(),
            v@.contains(m),
            forall|k: int| 0 <= k < i ==> m <= v@[k],
        decreases v.len() - i,
    {
        if v[i] < m {
            m = v[i];
            assert(v@[i as int] == m);
        }
        i = i + 1;
    }
    Some(m)
}

/// One more filter shown in the list of names, where it passes `pred`.
proof fn lemma_texts_step(fs: Seq<FilterView>, j: int, pred: spec_fn(FilterView) -> bool)
    requires
        0 <= j < fs.len(),
    ensures
        filter_texts(fs.take(j + 1).filter(pred)) == if pred(fs[j]) {
            filter_texts(fs.take(j).filter(pred)).push(filter_text(fs[j]))
        } else {
            filter_texts(fs.take(j).filter(pred))
        },
{
    assert(fs.take(j + 1) =~= fs.take(j).push(fs[j]));
    fs.take(j).lemma_filter_push(fs[j], pred);
    assert(filter_texts(fs.take(j).filter(pred).push(fs[j])) =~= filter_texts(
        fs.take(j).filter(pred),
    ).push(filter_text(fs[j])));
}

/// Candidates with the same items give every `ModLoaderPrefer` filter the same loader.
proof fn lemma_prefer_same_items(ls: Seq<ModLoader>, files: Seq<MetadataView>, a: Seq<usize>, b: Seq<usize>)
    requires
        forall|x: usize| a.contains(x) <==> b.contains(x),
    ensures
        prefer_loader(ls, files, a) == prefer_loader(ls, files, b),
    decreases ls.len(),
{
    if ls.len() > 0 {
        assert(loader_present(ls[0], files, a) == loader_present(ls[0], files, b));
        lemma_prefer_same_items(ls.drop_first(), files, a, b);
    }
}

/// One more filter looked at by `has_plain`, `has_prefer`, `passes_all` and
/// `preferred_by_all`.
proof fn lemma_filters_step(
    fs: Seq<FilterView>,
    j: int,
    files: Seq<MetadataView>,
    groups: Seq<Seq<Seq<char>>>,
    cands: Seq<usize>,
)
    requires
        0 <= j < fs.len(),
    ensures
        has_plain(fs.take(j + 1)) == (has_plain(fs.take(j)) || !(fs[j] is ModLoaderPrefer)),
        has_prefer(fs.take(j + 1)) == (has_prefer(fs.take(j)) || fs[j] is ModLoaderPrefer),
        forall|m: MetadataView|
            #![trigger passes_all(fs.take(j + 1), m, groups)]
            passes_all(fs.take(j + 1), m, groups) == (passes_all(fs.take(j), m, groups) && (!(
            fs[j] is ModLoaderPrefer) ==> plain_accepts(fs[j], m, groups))),
        forall|x: usize|
            #![trigger preferred_by_all(fs.take(j + 1), files, cands, x)]
            preferred_by_all(fs.take(j + 1), files, cands, x) == (preferred_by_all(
                fs.take(j),
                files,
                cands,
                x,
            ) && (fs[j] is ModLoaderPrefer ==> (prefer_loader(loaders_of(fs[j]), files, cands) matches Some(
                l,
            ) && files[x as int].loaders.contains(l)))),
{
    let a = fs.take(j);
    let b = fs.take(j + 1);
    assert(b =~= a.push(fs[j]));
    assert(b[j] == fs[j]);
    if has_plain(b) {
        let k = choose|k: int| 0 <= k < b.len() && !(#[trigger] b[k] is ModLoaderPrefer);
        if k < j {
            assert(a[k] == b[k]);
        }
    }
    if has_plain(a) {
        let k = choose|k: int| 0 <= k < a.len() && !(#[trigger] a[k] is ModLoaderPrefer);
        assert(a[k] == b[k]);
    }
    if has_prefer(b) {
        let k = choose|k: int| 0 <= k < b.len() && #[trigger] b[k] is ModLoaderPrefer;
        if k < j {
            assert(a[k] == b[k]);
        }
    }
    if has_prefer(a) {
        let k = choose|k: int| 0 <= k < a.len() && #[trigger] a[k] is ModLoaderPrefer;
        assert(a[k] == b[k]);
    }
    assert forall|m: MetadataView|
        passes_all(b, m, groups) == (passes_all(a, m, groups) && (!(fs[j] is ModLoaderPrefer)
            ==> plain_accepts(fs[j], m, groups))) by {
        if passes_all(b, m, groups) {
            assert forall|k: int| 0 <= k < a.len() && !(#[trigger] a[k] is ModLoaderPrefer) implies plain_accepts(a[k], m, groups) by {
                assert(a[k] == b[k]);
            }
        }
        if passes_all(a, m, groups) && (!(fs[j] is ModLoaderPrefer) ==> plain_accepts(fs[j], m, groups)) {
            assert forall|k: int| 0 <= k < b.len() && !(#[trigger] b[k] is ModLoaderPrefer) implies plain_accepts(b[k], m, groups) by {
                if k < j {
                    assert(a[k] == b[k]);
                }
            }
        }
    }
    assert forall|x: usize|
        preferred_by_all(b, files, cands, x) == (preferred_by_all(a, files, cands, x) && (
        fs[j] is ModLoaderPrefer ==> (prefer_loader(loaders_of(fs[j]), files, cands) matches Some(
            l,
        ) && files[x as int].loaders.contains(l)))) by {
        if preferred_by_all(b, files, cands, x) {
            assert forall|k: int| 0 <= k < a.len() && #[trigger] a[k] is ModLoaderPrefer implies (prefer_loader(
                loaders_of(a[k]),
                files,
                cands,
            ) matches Some(l) && files[x as int].loaders.contains(l)) by {
                assert(a[k] == b[k]);
            }
        }
        if preferred_by_all(a, files, cands, x) && (fs[j] is ModLoaderPrefer ==> (prefer_loader(
            loaders_of(fs[j]),
            files,
            cands,
        ) matches Some(l) && files[x as int].loaders.contains(l))) {
            assert forall|k: int| 0 <= k < b.len() && #[trigger] b[k] is ModLoaderPrefer implies (prefer_loader(
                loaders_of(b[k]),
                files,
                cands,
            ) matches Some(l) && files[x as int].loaders.contains(l)) by {
                if k < j {
                    assert(a[k] == b[k]);
                }
            }
        }
    }
}

/// One more `ModLoaderPrefer` filter narrows the files that every such filter so far keeps.
proof fn lemma_prefer_step(
    fs: Seq<FilterView>,
    j: int,
    ms: Seq<MetadataView>,
    nar: Seq<usize>,
    cands: Seq<usize>,
    kept: Seq<usize>,
    before: Seq<usize>,
    after: Seq<usize>,
)
    requires
        0 <= j < fs.len(),
        fs[j] is ModLoaderPrefer,
        forall|x: usize| cands.contains(x) <==> nar.contains(x),
        kept == filter_positions(fs[j], ms, cands, Seq::empty()),
        forall|x: usize|
            before.contains(x) <==> (nar.contains(x) && preferred_by_all(fs.take(j), ms, nar, x)),
        forall|x: usize| after.contains(x) <==> before.contains(x) && kept.contains(x),
    ensures
        forall|x: usize|
            after.contains(x) <==> (nar.contains(x) && preferred_by_all(fs.take(j + 1), ms, nar, x)),
{
    let ls = loaders_of(fs[j]);
    lemma_filters_step(fs, j, ms, Seq::empty(), nar);
    lemma_prefer_same_items(ls, ms, cands, nar);
    assert forall|x: usize|
        after.contains(x) <==> (nar.contains(x) && preferred_by_all(fs.take(j + 1), ms, nar, x)) by {
        match prefer_loader(ls, ms, cands) {
            Some(l) => {
                lemma_filter_member(cands, supports(ms, l), x);
            },
            None => {
                assert(!kept.contains(x));
            },
        }
    }
}

/// The index of the file to download: the first, in the order of `files`
/// (which is the order of preference, newest first), that passes `filters`.
/// Every filter other than `ModLoaderPrefer` is run on every file and the
/// files that pass them all are kept; the `ModLoaderPrefer` filters are then
/// run on those. Filters that keep no file when run on every file are an
/// error, as is a filter that cannot run; where no file is left at the end,
/// or the list has no filter of one of the two kinds, there is none to take.
#[verifier::rlimit(50)]
pub fn select_latest(
    files: &Vec<Metadata>,
    filters: &Vec<Filter>,
    version_groups: &Result<Vec<Vec<String>>, String>,
) -> (r: Result<usize, Error>)
    ensures
        any_fails(filter_views(filters@), version_groups is Ok) <==> (r matches Err(e) && (
        e is VersionGrouping || e is FilenameRegex)),
        r matches Err(e) ==> ((e is VersionGrouping || e is FilenameRegex) ==> exists|j: int|
            0 <= j < filters.len() && filter_fails(
                #[trigger] filter_views(filters@)[j],
                version_groups is Ok,
            ) && (forall|k: int|
                0 <= k < j ==> !filter_fails(filter_views(filters@)[k], version_groups is Ok))
                && (e is VersionGrouping <==> filter_views(filters@)[j] is GameVersionMinor)),
        r matches Err(Error::VersionGrouping(msg)) ==> version_groups matches Err(g) && msg@
            == g@,
        (r matches Err(e) && e is FilterEmpty) <==> (!any_fails(
            filter_views(filters@),
            version_groups is Ok,
        ) && empty_filter_names(
            filter_views(filters@),
            metadata_views(files@),
            groups_view(*version_groups),
        ).len() > 0),
        r matches Err(Error::FilterEmpty(names)) ==> views(names@) == empty_filter_names(
            filter_views(filters@),
            metadata_views(files@),
            groups_view(*version_groups),
        ),
        r is Ok <==> (!any_fails(filter_views(filters@), version_groups is Ok)
            && empty_filter_names(
            filter_views(filters@),
            metadata_views(files@),
            groups_view(*version_groups),
        ).len() == 0 && exists|i: usize|
            selectable(
                filter_views(filters@),
                metadata_views(files@),
                groups_view(*version_groups),
                i,
            )),
        r matches Ok(i) ==> selectable(
            filter_views(filters@),
            metadata_views(files@),
            groups_view(*version_groups),
            i,
        ) && forall|k: usize|
            selectable(
                filter_views(filters@),
                metadata_views(files@),
                groups_view(*version_groups),
                k,
            ) ==> i <= k,
{
    let ghost fs = filter_views(filters@);
    let ghost ms = metadata_views(files@);
    let ghost gs = groups_view(*version_groups);
    let ghost ok = version_groups is Ok;
    let n = files.len();
    let all = index_range(n);
    assert forall|x: usize| all@.contains(x) <==> x < n by {
        if x < n {
            assert(all@[x as int] == x);
        }
    }
    // Every filter, run on every file.
    let mut results: Vec<Vec<usize>> = Vec::new();
    let mut j: usize = 0;
    while j < filters.len()
        invariant
            j <= filters.len(),
            n == files.len(),
            all@ == all_indices(n as nat),
            fs == filter_views(filters@),
            ms == metadata_views(files@),
            gs == groups_view(*version_groups),
            ok == (version_groups is Ok),
            results.len() == j,
            forall|k: int|
                0 <= k < j ==> !filter_fails(fs[k], ok) && results@[k]@ == filter_positions(
                    fs[k],
                    ms,
                    all@,
                    gs,
                ),
        decreases filters.len() - j,
    {
        assert(fs[j as int] == filters@[j as int]@);
        match filters[j].filter(files, &all, version_groups) {
            Ok(v) => {
                results.push(v);
            },
            Err(e) => {
                return Err(e);
            },
        }
        j = j + 1;
    }
    assert(!any_fails(fs, ok));
    // The filters that keep nothing.
    let ghost pe = plain_empty(ms, gs);
    let ghost qe = prefer_empty(ms, gs);
    let mut names: Vec<String> = Vec::new();
    j = 0;
    while j < filters.len()
        invariant
            j <= filters.len(),
            n == files.len(),
            all@ == all_indices(n as nat),
            fs == filter_views(filters@),
            ms == metadata_views(files@),
            gs == groups_view(*version_groups),
            pe == plain_empty(ms, gs),
            results.len() == filters.len(),
            forall|k: int|
                0 <= k < filters.len() ==> results@[k]@ == filter_positions(fs[k], ms, all@, gs),
            views(names@) == filter_texts(fs.take(j as int).filter(pe)),
        decreases filters.len() - j,
    {
        proof {
            lemma_texts_step(fs, j as int, pe);
        }
        assert(fs[j as int] == filters@[j as int]@);
        if !filters[j].is_mod_loader_prefer() && results[j].len() == 0 {
            let ghost before = views(names@);
            let shown = filters[j].display();
            names.push(shown);
            assert(views(names@) =~= before.push(filter_text(fs[j as int])));
        }
        j = j + 1;
    }
    assert(fs.take(filters.len() as int) =~= fs);
    let ghost first = views(names@);
    j = 0;
    while j < filters.len()
        invariant
            j <= filters.len(),
            n == files.len(),
            all@ == all_indices(n as nat),
            fs == filter_views(filters@),
            ms == metadata_views(files@),
            gs == groups_view(*version_groups),
            qe == prefer_empty(ms, gs),
            results.len() == filters.len(),
            forall|k: int|
                0 <= k < filters.len() ==> results@[k]@ == filter_positions(fs[k], ms, all@, gs),
            views(names@) == first + filter_texts(fs.take(j as int).filter(qe)),
        decreases filters.len() - j,
    {
        proof {
            lemma_texts_step(fs, j as int, qe);
        }
        assert(fs[j as int] == filters@[j as int]@);
        if filters[j].is_mod_loader_prefer() && results[j].len() == 0 {
            let ghost before = views(names@);
            let shown = filters[j].display();
            names.push(shown);
            assert(views(names@) =~= before.push(filter_text(fs[j as int])));
        }
        j = j + 1;
    }
    assert(views(names@) == empty_filter_names(fs, ms, gs));
    if names.len() > 0 {
        return Err(Error::FilterEmpty(names));
    }
    // The files that pass every filter other than `ModLoaderPrefer`.
    let mut acc = index_range(n);
    let mut any_plain = false;
    assert(fs.take(0) =~= Seq::<FilterView>::empty());
    j = 0;
    while j < filters.len()
        invariant
            j <= filters.len(),
            n == files.len(),
            all@ == all_indices(n as nat),
            forall|x: usize| all@.contains(x) <==> x < n,
            fs == filter_views(filters@),
            ms == metadata_views(files@),
            gs == groups_view(*version_groups),
            results.len() == filters.len(),
            forall|k: int|
                0 <= k < filters.len() ==> results@[k]@ == filter_positions(fs[k], ms, all@, gs),
            any_plain == has_plain(fs.take(j as int)),
            forall|x: usize|
                acc@.contains(x) <==> (x < n && passes_all(fs.take(j as int), ms[x as int], gs)),
        decreases filters.len() - j,
    {
        proof {
            lemma_filters_step(fs, j as int, ms, gs, Seq::empty());
        }
        assert(fs[j as int] == filters@[j as int]@);
        if !filters[j].is_mod_loader_prefer() {
            let ghost before = acc@;
            acc = intersect(&acc, &results[j]);
            any_plain = true;
            assert forall|x: usize|
                acc@.contains(x) <==> (x < n && passes_all(fs.take(j + 1), ms[x as int], gs)) by {
                lemma_filter_member(all@, passes(fs[j as int], ms, gs), x);
            }
        }
        j = j + 1;
    }
    let ghost nar = narrowed(fs, ms, gs);
    let cands = if any_plain {
        acc
    } else {
        Vec::new()
    };
    assert forall|x: usize| cands@.contains(x) <==> nar.contains(x) by {
        lemma_filter_member(all@, |i: usize| passes_all(fs, ms[i as int], gs), x);
    }
    assert forall|k: int| 0 <= k < cands.len() implies cands@[k] < files.len() by {
        assert(cands@.contains(cands@[k]));
    }
    // The `ModLoaderPrefer` filters, run on those files.
    let mut acc2 = copy_indices(&cands);
    let mut any_prefer = false;
    j = 0;
    while j < filters.len()
        invariant
            j <= filters.len(),
            n == files.len(),
            fs == filter_views(filters@),
            ms == metadata_views(files@),
            forall|x: usize| cands@.contains(x) <==> nar.contains(x),
            forall|k: int| 0 <= k < cands.len() ==> cands@[k] < files.len(),
            any_prefer == has_prefer(fs.take(j as int)),
            forall|x: usize|
                acc2@.contains(x) <==> (nar.contains(x) && preferred_by_all(
                    fs.take(j as int),
                    ms,
                    nar,
                    x,
                )),
        decreases filters.len() - j,
    {
        proof {
            lemma_filters_step(fs, j as int, ms, gs, nar);
        }
        assert(fs[j as int] == filters@[j as int]@);
        let ghost before = acc2@;
        if filters[j].is_mod_loader_prefer() {
            let kept = match &filters[j] {
                Filter::ModLoaderPrefer(ls) => prefer_positions(files, &cands, ls),
                _ => Vec::new(),
            };
            acc2 = intersect(&acc2, &kept);
            any_prefer = true;
            proof {
                lemma_prefer_step(fs, j as int, ms, nar, cands@, kept@, before, acc2@);
            }
        } else {
            assert forall|x: usize|
                acc2@.contains(x) <==> (nar.contains(x) && preferred_by_all(
                    fs.take(j + 1),
                    ms,
                    nar,
                    x,
                )) by {
                assert(preferred_by_all(fs.take(j + 1), ms, nar, x) == preferred_by_all(
                    fs.take(j as int),
                    ms,
                    nar,
                    x,
                ));
            }
        }
        assert(forall|x: usize|
            acc2@.contains(x) <==> (nar.contains(x) && preferred_by_all(fs.take(j + 1), ms, nar, x)));
        assert(any_prefer == has_prefer(fs.take(j + 1)));
        let ghost prev = j;
        j = j + 1;
        assert forall|x: usize|
            acc2@.contains(x) <==> (nar.contains(x) && preferred_by_all(
                fs.take(j as int),
                ms,
                nar,
                x,
            )) by {
            assert(fs.take(j as int) == fs.take(prev + 1));
            assert(acc2@.contains(x) <==> (nar.contains(x) && preferred_by_all(
                fs.take(prev + 1),
                ms,
                nar,
                x,
            )));
        }
    }
    assert(fs.take(filters.len() as int) =~= fs);
    assert(any_prefer == has_prefer(fs));
    assert forall|x: usize| (any_prefer && acc2@.contains(x)) <==> selectable(fs, ms, gs, x) by {
        assert(fs.take(j as int) == fs);
        assert(acc2@.contains(x) <==> (nar.contains(x) && preferred_by_all(
            fs.take(j as int),
            ms,
            nar,
            x,
        )));
    }
    if !any_prefer {
        return Err(Error::IntersectFailure);
    }
    match least(&acc2) {
        Some(i) => {
            assert forall|k: usize| selectable(fs, ms, gs, k) implies i <= k by {
                assert(acc2@.contains(k));
            }
            assert(selectable(fs, ms, gs, i));
            Ok(i)
        },
        None => {
            assert forall|k: usize| !selectable(fs, ms, gs, k) by {
                if selectable(fs, ms, gs, k) {
                    assert(acc2@.contains(k));
                }
            }
            Err(Error::IntersectFailure)
        },
    }
}

/// How stable a release channel is: an alpha below a beta below a release.
pub open spec fn stability(c: ReleaseChannel) -> int {
    match c {
        ReleaseChannel::Alpha => 0,
        ReleaseChannel::Beta => 1,
        ReleaseChannel::Release => 2,
    }
}

/// A filter on a release channel keeps exactly the files of that channel and
/// of the more stable ones: a filter on beta keeps beta and release files, a
/// filter on alpha keeps every file, and a release file passes every
/// release-channel filter.
pub proof fn lemma_release_channel_filter(c: ReleaseChannel, m: MetadataView, groups: Seq<Seq<Seq<char>>>)
    ensures
        plain_accepts(FilterView::ReleaseChannel(c), m, groups) <==> stability(m.channel) >= stability(c),
        m.channel == ReleaseChannel::Release ==> plain_accepts(FilterView::ReleaseChannel(c), m, groups),
        plain_accepts(FilterView::ReleaseChannel(ReleaseChannel::Beta), m, groups)
            <==> (m.channel == ReleaseChannel::Beta || m.channel == ReleaseChannel::Release),
{
}

} // verus!

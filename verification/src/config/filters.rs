//! The filters that decide which files of a project are compatible with a profile.
use crate::config::structs::{mod_loader_text, ModLoader};
use crate::text::{concat, copy_string, copy_strings, join, join_spec, owned, views};
use vstd::prelude::*;

verus! {

/// The stability of a release; a filter on it accepts the given channel and
/// the more stable ones.
#[derive(Clone, Copy, Debug, PartialEq, Eq, Structural)]
pub enum ReleaseChannel {
    Release,
    Beta,
    Alpha,
}

/// The name a release channel is displayed with.
pub open spec fn release_channel_text(c: ReleaseChannel) -> Seq<char> {
    match c {
        ReleaseChannel::Release => "Release"@,
        ReleaseChannel::Beta => "Beta"@,
        ReleaseChannel::Alpha => "Alpha"@,
    }
}

impl ReleaseChannel {
    /// The name the channel is displayed with.
    pub fn display(&self) -> (r: String)
        ensures
            r@ == release_channel_text(*self),
    {
        match self {
            ReleaseChannel::Release => owned("Release"),
            ReleaseChannel::Beta => owned("Beta"),
            ReleaseChannel::Alpha => owned("Alpha"),
        }
    }
}

/// A filter of a profile or a mod.
#[derive(Debug)]
pub enum Filter {
    /// Prefers files in the order of the given loaders
    ///
    /// Implementation detail: This filter only works as intended if it is run last on an already filtered list.
    ModLoaderPrefer(Vec<ModLoader>),
    /// Selects files that are compatible with any of the given loaders
    ModLoaderAny(Vec<ModLoader>),
    /// Selects files strictly compatible with the versions specified
    GameVersionStrict(Vec<String>),
    /// Selects files compatible with the versions specified and related versions that are
    /// considered to not have breaking changes (determined using Modrinth's game version tag list)
    GameVersionMinor(Vec<String>),
    /// Selects files matching the channel provided or more stable channels
    ReleaseChannel(ReleaseChannel),
    /// Selects the files with filenames matching the provided regex
    Filename(String),
    /// Selects files with titles matching the provided regex
    Title(String),
    /// Selects files with descriptions matching the provided regex
    Description(String),
}

/// The mathematical value of a `Filter`.
pub enum FilterView {
    ModLoaderPrefer(Seq<ModLoader>),
    ModLoaderAny(Seq<ModLoader>),
    GameVersionStrict(Seq<Seq<char>>),
    GameVersionMinor(Seq<Seq<char>>),
    ReleaseChannel(ReleaseChannel),
    Filename(Seq<char>),
    Title(Seq<char>),
    Description(Seq<char>),
}

impl View for Filter {
    type V = FilterView;

    open spec fn view(&self) -> FilterView {
        match self {
            Filter::ModLoaderPrefer(v) => FilterView::ModLoaderPrefer(v@),
            Filter::ModLoaderAny(v) => FilterView::ModLoaderAny(v@),
            Filter::GameVersionStrict(v) => FilterView::GameVersionStrict(views(v@)),
            Filter::GameVersionMinor(v) => FilterView::GameVersionMinor(views(v@)),
            Filter::ReleaseChannel(c) => FilterView::ReleaseChannel(*c),
            Filter::Filename(s) => FilterView::Filename(s@),
            Filter::Title(s) => FilterView::Title(s@),
            Filter::Description(s) => FilterView::Description(s@),
        }
    }
}

/// The views of a sequence of filters.
pub open spec fn filter_views(v: Seq<Filter>) -> Seq<FilterView> {
    v.map_values(|f: Filter| f@)
}

/// Displayed names of mod loaders.
pub open spec fn loader_texts(v: Seq<ModLoader>) -> Seq<Seq<char>> {
    v.map_values(|l: ModLoader| mod_loader_text(l))
}

/// How a filter is displayed, as in the message about filters that left nothing.
pub open spec fn filter_text(f: FilterView) -> Seq<char> {
    match f {
        FilterView::ModLoaderPrefer(v) => "Mod Loader ("@ + join_spec(loader_texts(v), ", "@) + ")"@,
        FilterView::ModLoaderAny(v) => "Mod Loader Either ("@ + join_spec(loader_texts(v), ", "@)
            + ")"@,
        FilterView::GameVersionStrict(v) => "Game Version ("@ + join_spec(v, ", "@) + ")"@,
        FilterView::GameVersionMinor(v) => "Game Version Minor ("@ + join_spec(v, ", "@) + ")"@,
        FilterView::ReleaseChannel(c) => "Release Channel ("@ + release_channel_text(c) + ")"@,
        FilterView::Filename(s) => "Filename ("@ + s + ")"@,
        FilterView::Title(s) => "Title ("@ + s + ")"@,
        FilterView::Description(s) => "Description ("@ + s + ")"@,
    }
}

/// A copy of a list of mod loaders.
pub fn copy_loaders(v: &Vec<ModLoader>) -> (r: Vec<ModLoader>)
    ensures
        r@ == v@,
{
    let mut r: Vec<ModLoader> = Vec::new();
    let mut i: usize = 0;
    while i < v.len()
        invariant
            i <= v.len(),
            r@ == v@.take(i as int),
        decreases v.len() - i,
    {
        r.push(v[i]);
        assert(v@.take(i + 1) =~= v@.take(i as int).push(v@[i as int]));
        i = i + 1;
    }
    assert(v@.take(v.len() as int) =~= v@);
    r
}

/// The displayed names of mod loaders.
pub fn loader_names(v: &Vec<ModLoader>) -> (r: Vec<String>)
    ensures
        views(r@) == loader_texts(v@),
{
    let mut r: Vec<String> = Vec::new();
    let mut i: usize = 0;
    while i < v.len()
        invariant
            i <= v.len(),
            views(r@) == loader_texts(v@.take(i as int)),
        decreases v.len() - i,
    {
        let name = v[i].display();
        r.push(name);
        assert(loader_texts(v@.take(i + 1)) =~= loader_texts(v@.take(i as int)).push(
            mod_loader_text(v@[i as int]),
        ));
        assert(views(r@) =~= loader_texts(v@.take(i as int)).push(mod_loader_text(v@[i as int])));
        i = i + 1;
    }
    assert(v@.take(v.len() as int) =~= v@);
    r
}

fn wrap(prefix: &str, inner: &str) -> (r: String)
    ensures
        r@ == prefix@ + inner@ + ")"@,
{
    let a = concat(prefix, inner);
    concat(a.as_str(), ")")
}

impl Filter {
    /// A copy of this filter.
    pub fn duplicate(&self) -> (r: Filter)
        ensures
            r@ == self@,
    {
        match self {
            Filter::ModLoaderPrefer(v) => Filter::ModLoaderPrefer(copy_loaders(v)),
            Filter::ModLoaderAny(v) => Filter::ModLoaderAny(copy_loaders(v)),
            Filter::GameVersionStrict(v) => Filter::GameVersionStrict(copy_strings(v)),
            Filter::GameVersionMinor(v) => Filter::GameVersionMinor(copy_strings(v)),
            Filter::ReleaseChannel(c) => Filter::ReleaseChannel(*c),
            Filter::Filename(s) => Filter::Filename(copy_string(s)),
            Filter::Title(s) => Filter::Title(copy_string(s)),
            Filter::Description(s) => Filter::Description(copy_string(s)),
        }
    }

    /// How the filter is displayed.
    pub fn display(&self) -> (r: String)
        ensures
            r@ == filter_text(self@),
    {
        match self {
            Filter::ModLoaderPrefer(v) => {
                let names = loader_names(v);
                let joined = join(&names, ", ");
                wrap("Mod Loader (", joined.as_str())
            },
            Filter::ModLoaderAny(v) => {
                let names = loader_names(v);
                let joined = join(&names, ", ");
                wrap("Mod Loader Either (", joined.as_str())
            },
            Filter::GameVersionStrict(v) => {
                let joined = join(v, ", ");
                wrap("Game Version (", joined.as_str())
            },
            Filter::GameVersionMinor(v) => {
                let joined = join(v, ", ");
                wrap("Game Version Minor (", joined.as_str())
            },
            Filter::ReleaseChannel(c) => {
                let name = c.display();
                wrap("Release Channel (", name.as_str())
            },
            Filter::Filename(s) => wrap("Filename (", s.as_str()),
            Filter::Title(s) => wrap("Title (", s.as_str()),
            Filter::Description(s) => wrap("Description (", s.as_str()),
        }
    }

    /// Whether this filter is a `ModLoaderPrefer` filter.
    pub fn is_mod_loader_prefer(&self) -> (r: bool)
        ensures
            r == (self@ is ModLoaderPrefer),
    {
        match self {
            Filter::ModLoaderPrefer(_) => true,
            _ => false,
        }
    }
}

/// A copy of a list of filters.
pub fn copy_filters(v: &Vec<Filter>) -> (r: Vec<Filter>)
    ensures
        filter_views(r@) == filter_views(v@),
{
    let mut r: Vec<Filter> = Vec::new();
    let mut i: usize = 0;
    while i < v.len()
        invariant
            i <= v.len(),
            filter_views(r@) == filter_views(v@.take(i as int)),
        decreases v.len() - i,
    {
        r.push(v[i].duplicate());
        assert(filter_views(v@.take(i + 1)) =~= filter_views(v@.take(i as int)).push(
            v@[i as int]@,
        ));
        assert(filter_views(r@) =~= filter_views(v@.take(i as int)).push(v@[i as int]@));
        i = i + 1;
    }
    assert(v@.take(v.len() as int) =~= v@);
    r
}

/// Index of the first filter on game versions, if any.
pub open spec fn first_game_version_filter(v: Seq<FilterView>) -> Option<int>
    decreases v.len(),
{
    if v.len() == 0 {
        None
    } else {
        match first_game_version_filter(v.drop_last()) {
            Some(i) => Some(i),
            None => if v.last() is GameVersionStrict || v.last() is GameVersionMinor {
                Some(v.len() - 1)
            } else {
                None
            },
        }
    }
}

/// Index of the first filter on mod loaders, if any.
pub open spec fn first_mod_loader_filter(v: Seq<FilterView>) -> Option<int>
    decreases v.len(),
{
    if v.len() == 0 {
        None
    } else {
        match first_mod_loader_filter(v.drop_last()) {
            Some(i) => Some(i),
            None => if v.last() is ModLoaderPrefer || v.last() is ModLoaderAny {
                Some(v.len() - 1)
            } else {
                None
            },
        }
    }
}

/// The game versions of a filter on game versions.
pub open spec fn versions_of(f: FilterView) -> Seq<Seq<char>> {
    match f {
        FilterView::GameVersionStrict(v) => v,
        FilterView::GameVersionMinor(v) => v,
        _ => Seq::empty(),
    }
}

/// The mod loaders of a filter on mod loaders.
pub open spec fn loaders_of(f: FilterView) -> Seq<ModLoader> {
    match f {
        FilterView::ModLoaderPrefer(v) => v,
        FilterView::ModLoaderAny(v) => v,
        _ => Seq::empty(),
    }
}

proof fn lemma_first_game_version_filter(v: Seq<FilterView>, i: int)
    requires
        0 <= i <= v.len(),
        forall|k: int|
            0 <= k < i ==> !(#[trigger] v[k] is GameVersionStrict || v[k] is GameVersionMinor),
    ensures
        first_game_version_filter(v.take(i)) == None::<int>,
    decreases i,
{
    if i > 0 {
        assert(v.take(i).drop_last() =~= v.take(i - 1));
        lemma_first_game_version_filter(v, i - 1);
    }
}

proof fn lemma_first_mod_loader_filter(v: Seq<FilterView>, i: int)
    requires
        0 <= i <= v.len(),
        forall|k: int| 0 <= k < i ==> !(#[trigger] v[k] is ModLoaderPrefer || v[k] is ModLoaderAny),
    ensures
        first_mod_loader_filter(v.take(i)) == None::<int>,
    decreases i,
{
    if i > 0 {
        assert(v.take(i).drop_last() =~= v.take(i - 1));
        lemma_first_mod_loader_filter(v, i - 1);
    }
}

proof fn lemma_first_filter_extends(v: Seq<FilterView>, i: int)
    requires
        0 <= i < v.len(),
    ensures
        first_game_version_filter(v.take(i)) is Some ==> first_game_version_filter(v)
            == first_game_version_filter(v.take(i)),
        first_mod_loader_filter(v.take(i)) is Some ==> first_mod_loader_filter(v)
            == first_mod_loader_filter(v.take(i)),
    decreases v.len() - i,
{
    if i + 1 < v.len() {
        lemma_first_filter_extends(v, i + 1);
        assert(v.take(i + 1).drop_last() =~= v.take(i));
    } else {
        assert(v.drop_last() =~= v.take(i));
    }
}

/// Index of the first filter on game versions.
pub fn game_versions_index(filters: &Vec<Filter>) -> (r: Option<usize>)
    ensures
        r matches Some(i) ==> first_game_version_filter(filter_views(filters@)) == Some(i as int),
        r is None ==> first_game_version_filter(filter_views(filters@)) is None,
        r matches Some(i) ==> i < filters.len() && (filter_views(filters@)[i as int] is GameVersionStrict
            || filter_views(filters@)[i as int] is GameVersionMinor),
{
    let ghost fv = filter_views(filters@);
    let mut i: usize = 0;
    while i < filters.len()
        invariant
            i <= filters.len(),
            fv == filter_views(filters@),
            forall|k: int|
                0 <= k < i ==> !(#[trigger] fv[k] is GameVersionStrict || fv[k] is GameVersionMinor),
        decreases filters.len() - i,
    {
        match &filters[i] {
            Filter::GameVersionStrict(_) | Filter::GameVersionMinor(_) => {
                proof {
                    lemma_first_game_version_filter(fv, i as int);
                    assert(fv.take(i + 1).drop_last() =~= fv.take(i as int));
                    if i + 1 < fv.len() {
                        lemma_first_filter_extends(fv, i + 1);
                    } else {
                        assert(fv.take(i + 1) =~= fv);
                    }
                }
                return Some(i);
            },
            _ => {},
        }
        i = i + 1;
    }
    proof {
        lemma_first_game_version_filter(fv, i as int);
        assert(fv.take(i as int) =~= fv);
    }
    None
}

/// Index of the first filter on mod loaders.
pub fn mod_loaders_index(filters: &Vec<Filter>) -> (r: Option<usize>)
    ensures
        r matches Some(i) ==> first_mod_loader_filter(filter_views(filters@)) == Some(i as int),
        r is None ==> first_mod_loader_filter(filter_views(filters@)) is None,
        r matches Some(i) ==> i < filters.len() && (filter_views(filters@)[i as int] is ModLoaderPrefer
            || filter_views(filters@)[i as int] is ModLoaderAny),
{
    let ghost fv = filter_views(filters@);
    let mut i: usize = 0;
    while i < filters.len()
        invariant
            i <= filters.len(),
            fv == filter_views(filters@),
            forall|k: int| 0 <= k < i ==> !(#[trigger] fv[k] is ModLoaderPrefer || fv[k] is ModLoaderAny),
        decreases filters.len() - i,
    {
        match &filters[i] {
            Filter::ModLoaderPrefer(_) | Filter::ModLoaderAny(_) => {
                proof {
                    lemma_first_mod_loader_filter(fv, i as int);
                    assert(fv.take(i + 1).drop_last() =~= fv.take(i as int));
                    if i + 1 < fv.len() {
                        lemma_first_filter_extends(fv, i + 1);
                    } else {
                        assert(fv.take(i + 1) =~= fv);
                    }
                }
                return Some(i);
            },
            _ => {},
        }
        i = i + 1;
    }
    proof {
        lemma_first_mod_loader_filter(fv, i as int);
        assert(fv.take(i as int) =~= fv);
    }
    None
}

/// The filters with the game versions of the first filter on game versions
/// replaced by `vs` (of the same kind of filter); unchanged where there is none.
pub open spec fn with_game_versions(fv: Seq<FilterView>, vs: Seq<Seq<char>>) -> Seq<FilterView> {
    match first_game_version_filter(fv) {
        Some(i) => fv.update(
            i,
            if fv[i] is GameVersionStrict {
                FilterView::GameVersionStrict(vs)
            } else {
                FilterView::GameVersionMinor(vs)
            },
        ),
        None => fv,
    }
}

/// The filters with the mod loaders of the first filter on mod loaders
/// replaced by `ls` (of the same kind of filter); unchanged where there is none.
pub open spec fn with_mod_loaders(fv: Seq<FilterView>, ls: Seq<ModLoader>) -> Seq<FilterView> {
    match first_mod_loader_filter(fv) {
        Some(i) => fv.update(
            i,
            if fv[i] is ModLoaderPrefer {
                FilterView::ModLoaderPrefer(ls)
            } else {
                FilterView::ModLoaderAny(ls)
            },
        ),
        None => fv,
    }
}

/// Whether a filter is on game versions.
pub open spec fn on_game_versions(f: FilterView) -> bool {
    f is GameVersionStrict || f is GameVersionMinor
}

/// Whether a filter is on mod loaders.
pub open spec fn on_mod_loaders(f: FilterView) -> bool {
    f is ModLoaderPrefer || f is ModLoaderAny
}

proof fn lemma_first_filters_same_kinds(a: Seq<FilterView>, b: Seq<FilterView>)
    requires
        a.len() == b.len(),
        forall|k: int| 0 <= k < a.len() ==> on_game_versions(#[trigger] a[k]) == on_game_versions(b[k]),
        forall|k: int| 0 <= k < a.len() ==> on_mod_loaders(#[trigger] a[k]) == on_mod_loaders(b[k]),
    ensures
        first_game_version_filter(a) == first_game_version_filter(b),
        first_mod_loader_filter(a) == first_mod_loader_filter(b),
    decreases a.len(),
{
    if a.len() > 0 {
        assert(on_game_versions(a[a.len() - 1]) == on_game_versions(b[b.len() - 1]));
        assert(on_mod_loaders(a[a.len() - 1]) == on_mod_loaders(b[b.len() - 1]));
        lemma_first_filters_same_kinds(a.drop_last(), b.drop_last());
    }
}

proof fn lemma_first_game_version_filter_in_range(v: Seq<FilterView>)
    ensures
        first_game_version_filter(v) matches Some(i) ==> 0 <= i < v.len() && on_game_versions(v[i]),
        first_mod_loader_filter(v) matches Some(i) ==> 0 <= i < v.len() && on_mod_loaders(v[i]),
    decreases v.len(),
{
    if v.len() > 0 {
        lemma_first_game_version_filter_in_range(v.drop_last());
    }
}

/// What is set is what is read back: after the game versions of a profile's
/// filters are set, its first filter on game versions is the same one and
/// holds them; setting its mod loaders leaves that filter as it was.
pub proof fn lemma_game_versions_read_back(fv: Seq<FilterView>, vs: Seq<Seq<char>>, ls: Seq<ModLoader>)
    requires
        first_game_version_filter(fv) is Some,
    ensures
        first_game_version_filter(with_game_versions(fv, vs)) == first_game_version_filter(fv),
        versions_of(with_game_versions(fv, vs)[first_game_version_filter(fv)->0]) == vs,
        first_game_version_filter(with_mod_loaders(fv, ls)) == first_game_version_filter(fv),
        with_mod_loaders(fv, ls)[first_game_version_filter(fv)->0] == fv[first_game_version_filter(fv)->0],
{
    lemma_first_game_version_filter_in_range(fv);
    let w = with_game_versions(fv, vs);
    lemma_first_filters_same_kinds(fv, w);
    let m = with_mod_loaders(fv, ls);
    lemma_first_filters_same_kinds(fv, m);
}

/// What is set is what is read back: after the mod loaders of a profile's
/// filters are set, its first filter on mod loaders is the same one and holds
/// them; setting its game versions leaves that filter as it was.
pub proof fn lemma_mod_loaders_read_back(fv: Seq<FilterView>, ls: Seq<ModLoader>, vs: Seq<Seq<char>>)
    requires
        first_mod_loader_filter(fv) is Some,
    ensures
        first_mod_loader_filter(with_mod_loaders(fv, ls)) == first_mod_loader_filter(fv),
        loaders_of(with_mod_loaders(fv, ls)[first_mod_loader_filter(fv)->0]) == ls,
        first_mod_loader_filter(with_game_versions(fv, vs)) == first_mod_loader_filter(fv),
        with_game_versions(fv, vs)[first_mod_loader_filter(fv)->0] == fv[first_mod_loader_filter(fv)->0],
{
    lemma_first_game_version_filter_in_range(fv);
    let w = with_mod_loaders(fv, ls);
    lemma_first_filters_same_kinds(fv, w);
    let g = with_game_versions(fv, vs);
    lemma_first_filters_same_kinds(fv, g);
}

/// Reading and changing the game versions and mod loaders that a list of filters holds.
pub trait ProfileParameters {
    /// Get the game versions present, if self has `GameVersionStrict` or `GameVersionMinor`
    fn game_versions(&self) -> Option<&Vec<String>>;

    /// Get the first mod loader present, if self has `ModLoaderPrefer` or `ModLoaderAny`
    fn mod_loader(&self) -> Option<&ModLoader>;

    /// Replace the game versions of the first game version filter; false if there is none
    fn set_game_versions(&mut self, versions: Vec<String>) -> bool;

    /// Replace the mod loaders of the first mod loader filter; false if there is none
    fn set_mod_loaders(&mut self, loaders: Vec<ModLoader>) -> bool;
}

impl ProfileParameters for Vec<Filter> {
    fn game_versions(&self) -> (r: Option<&Vec<String>>)
        ensures
            (r is Some) == (first_game_version_filter(filter_views(self@)) is Some),
            r matches Some(v) ==> views(v@) == versions_of(
                filter_views(self@)[first_game_version_filter(filter_views(self@))->0],
            ),
    {
        match game_versions_index(self) {
            Some(i) => match &self[i] {
                Filter::GameVersionStrict(v) => Some(v),
                Filter::GameVersionMinor(v) => Some(v),
                _ => None,
            },
            None => None,
        }
    }

    fn mod_loader(&self) -> (r: Option<&ModLoader>)
        ensures
            r matches Some(l) ==> ({
                let k = first_mod_loader_filter(filter_views(self@));
                &&& k is Some
                &&& loaders_of(filter_views(self@)[k->0]).len() > 0
                &&& *l == loaders_of(filter_views(self@)[k->0])[0]
            }),
            r is None ==> ({
                let k = first_mod_loader_filter(filter_views(self@));
                k is None || loaders_of(filter_views(self@)[k->0]).len() == 0
            }),
    {
        match mod_loaders_index(self) {
            Some(i) => match &self[i] {
                Filter::ModLoaderPrefer(v) => if v.len() > 0 {
                    Some(&v[0])
                } else {
                    None
                },
                Filter::ModLoaderAny(v) => if v.len() > 0 {
                    Some(&v[0])
                } else {
                    None
                },
                _ => None,
            },
            None => None,
        }
    }

    fn set_game_versions(&mut self, versions: Vec<String>) -> (r: bool)
        ensures
            r == (first_game_version_filter(filter_views(old(self)@)) is Some),
            filter_views(final(self)@) == with_game_versions(filter_views(old(self)@), views(versions@)),
            !r ==> final(self)@ == old(self)@,
    {
        match game_versions_index(self) {
            Some(i) => {
                let strict = match &self[i] {
                    Filter::GameVersionStrict(_) => true,
                    _ => false,
                };
                let ghost before = filter_views(self@);
                let f = if strict {
                    Filter::GameVersionStrict(versions)
                } else {
                    Filter::GameVersionMinor(versions)
                };
                let ghost fview = f@;
                self.set(i, f);
                assert(filter_views(self@) =~= before.update(i as int, fview));
                true
            },
            None => false,
        }
    }

    fn set_mod_loaders(&mut self, loaders: Vec<ModLoader>) -> (r: bool)
        ensures
            r == (first_mod_loader_filter(filter_views(old(self)@)) is Some),
            filter_views(final(self)@) == with_mod_loaders(filter_views(old(self)@), loaders@),
            !r ==> final(self)@ == old(self)@,
    {
        match mod_loaders_index(self) {
            Some(i) => {
                let prefer = match &self[i] {
                    Filter::ModLoaderPrefer(_) => true,
                    _ => false,
                };
                let ghost before = filter_views(self@);
                let f = if prefer {
                    Filter::ModLoaderPrefer(loaders)
                } else {
                    Filter::ModLoaderAny(loaders)
                };
                let ghost fview = f@;
                self.set(i, f);
                assert(filter_views(self@) =~= before.update(i as int, fview));
                true
            },
            None => false,
        }
    }
}

} // verus!

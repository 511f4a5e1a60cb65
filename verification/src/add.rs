//! Adding projects to a profile: identifiers, and the checks a project must pass.
use crate::config::filters::{copy_filters, filter_views, Filter, FilterView};
use crate::config::structs::{same_project, Mod, ModIdentifier, ModIdentifierView, ModView, Profile};
use crate::text::{
    concat, copy_string, lemma_split_nonempty, owned, parse_i32, parse_i32_spec, split_any, split_spec,
    views,
};
use crate::text::{eq_ignore_ascii_case, eq_ignore_ascii_case_spec, str_eq};
use crate::text::{chars_of, find_last, last_index_of, lemma_last_index_at, lemma_last_index_of, substring};
use crate::upgrade::check::{any_loader, plain_accepts, shares};
use crate::config::structs::ModLoaderParseError;
use crate::upgrade::check::{
    self, any_fails, contains_string, empty_filter_names, groups_view, select_latest, selectable,
};
use crate::upgrade::{
    identifier_views, asset_game_versions, asset_name_parts, asset_tags, known_loaders, loaders_named, metadata_views,
    CurseForgeFile, Metadata, MetadataView,
};
use crate::config::filters::ReleaseChannel;
use crate::config::structs::{parse_mod_loader, ModLoader};
use crate::text::{contains_spec, contains_str, copy_strings, i32_decimal, i32_to_string, trim, trim_spec};
use vstd::prelude::*;

verus! {

/// Why a project could not be added.
#[derive(Debug)]
pub enum Error {
    /// The user can manually download the mod and place it in the `user` folder of the output directory to mitigate this.
    /// However, they will have to manually update the mod.
    DistributionDenied,
    AlreadyAdded,
    Incompatible(check::Error),
    DoesNotExist,
    NotAMod,
    IncorrectVersionPin,
    InvalidIdentifier,
    GitHubError(String),
    /// An error of the GitHub client, as its debug form shows it.
    OctocrabError(String),
    /// An error of the Modrinth client, as it is displayed.
    ModrinthError(String),
    /// An error of the CurseForge client, as it is displayed.
    CurseForgeError(String),
}

/// The message an error is displayed with.
pub open spec fn error_message(e: Error) -> Seq<char> {
    match e {
        Error::DistributionDenied => "The developer of this project has denied third party applications from downloading it"@,
        Error::AlreadyAdded => "The project has already been added"@,
        Error::Incompatible(c) => "The project is not compatible because "@ + check::check_error_message(c),
        Error::DoesNotExist => "The project does not exist"@,
        Error::NotAMod => "The project is not a mod"@,
        Error::IncorrectVersionPin => "The specified version pin does not exist for this mod"@,
        Error::InvalidIdentifier => "The identifier provided is not in the correct format"@,
        Error::GitHubError(m) => "GitHub: "@ + m@,
        Error::OctocrabError(m) => "GitHub: "@ + m@,
        Error::ModrinthError(m) => "Modrinth: "@ + m@,
        Error::CurseForgeError(m) => "CurseForge: "@ + m@,
    }
}

impl Error {
    /// The message the error is displayed with.
    pub fn message(&self) -> (r: String)
        ensures
            r@ == error_message(*self),
    {
        match self {
            Error::DistributionDenied => owned(
                "The developer of this project has denied third party applications from downloading it",
            ),
            Error::AlreadyAdded => owned("The project has already been added"),
            Error::Incompatible(e) => {
                let m = e.message();
                concat("The project is not compatible because ", m.as_str())
            },
            Error::DoesNotExist => owned("The project does not exist"),
            Error::NotAMod => owned("The project is not a mod"),
            Error::IncorrectVersionPin => owned(
                "The specified version pin does not exist for this mod",
            ),
            Error::InvalidIdentifier => owned(
                "The identifier provided is not in the correct format",
            ),
            Error::GitHubError(m) => concat("GitHub: ", m.as_str()),
            Error::OctocrabError(m) => concat("GitHub: ", m.as_str()),
            Error::ModrinthError(m) => concat("Modrinth: ", m.as_str()),
            Error::CurseForgeError(m) => concat("CurseForge: ", m.as_str()),
        }
    }
}

/// Whether `c` is an ASCII letter or digit.
pub open spec fn is_ascii_alnum(c: char) -> bool {
    crate::text::is_ascii_upper(c) || ('a' <= c <= 'z') || crate::text::is_digit(c)
}

/// Whether `p` reads as the id of a Modrinth version: eight ASCII letters and
/// digits, at least one of them an uppercase letter (project slugs are
/// lowercase, so a slug's last word is never read as a version).
pub open spec fn is_version_id(p: Seq<char>) -> bool {
    &&& p.len() == 8
    &&& forall|i: int| 0 <= i < p.len() ==> is_ascii_alnum(#[trigger] p[i])
    &&& exists|i: int| 0 <= i < p.len() && crate::text::is_ascii_upper(#[trigger] p[i])
}

/// What an identifier names when no pin is read from it: a number is a
/// CurseForge project, `owner/name` a GitHub repository, anything else the
/// slug or id of a Modrinth project.
pub open spec fn unpinned_id(id: Seq<char>) -> ModIdentifierView {
    match parse_i32_spec(id) {
        Some(n) => ModIdentifierView::CurseForgeProject(n),
        None => {
            let halves = split_spec(id, seq!['/']);
            if halves.len() == 2 {
                ModIdentifierView::GitHubRepository(halves[0], halves[1])
            } else {
                ModIdentifierView::ModrinthProject(id)
            }
        },
    }
}

/// `base` pinned to `pin`, where the pin fits the platform: the number of a
/// CurseForge file or of a GitHub release asset, or a Modrinth version id.
pub open spec fn pinned_id(base: ModIdentifierView, pin: Seq<char>) -> Option<ModIdentifierView> {
    match base {
        ModIdentifierView::CurseForgeProject(n) => match parse_i32_spec(pin) {
            Some(v) => Some(ModIdentifierView::PinnedCurseForgeProject(n, v)),
            None => None,
        },
        ModIdentifierView::GitHubRepository(o, r) => match parse_i32_spec(pin) {
            Some(v) => Some(ModIdentifierView::PinnedGitHubRepository(o, r, v)),
            None => None,
        },
        ModIdentifierView::ModrinthProject(p) => if is_version_id(pin) {
            Some(ModIdentifierView::PinnedModrinthProject(p, pin))
        } else {
            None
        },
        _ => None,
    }
}

/// The identifier that `parse_id` reads from `id`. A pin follows the last `-`
/// where it fits what stands before that `-` (see `pinned_id`); otherwise the
/// `-` belongs to the name, as in the slug `fabric-api` or the repository
/// `CaffeineMC/sodium-fabric`, and the whole is read unpinned.
pub open spec fn parsed_id(id: Seq<char>) -> ModIdentifierView {
    match last_index_of(id, '-') {
        Some(k) => match pinned_id(unpinned_id(id.take(k)), id.skip(k + 1)) {
            Some(m) => m,
            None => unpinned_id(id),
        },
        None => unpinned_id(id),
    }
}

/// Reads an identifier that has no pin.
fn read_unpinned(id: &str) -> (r: ModIdentifier)
    ensures
        r@ == unpinned_id(id@),
{
    if let Some(n) = parse_i32(id) {
        return ModIdentifier::CurseForgeProject(n);
    }
    let slash: Vec<char> = vec!['/'];
    assert(slash@ =~= seq!['/']);
    let halves = split_any(id, &slash);
    if halves.len() == 2 {
        assert(views(halves@)[0] == halves@[0]@);
        assert(views(halves@)[1] == halves@[1]@);
        ModIdentifier::GitHubRepository(copy_string(&halves[0]), copy_string(&halves[1]))
    } else {
        ModIdentifier::ModrinthProject(owned(id))
    }
}

/// Whether `p` reads as the id of a Modrinth version.
fn reads_as_version_id(p: &Vec<char>) -> (r: bool)
    ensures
        r == is_version_id(p@),
{
    if p.len() != 8 {
        return false;
    }
    let mut upper = false;
    let mut i: usize = 0;
    while i < p.len()
        invariant
            i <= p.len(),
            p@.len() == 8,
            forall|j: int| 0 <= j < i ==> is_ascii_alnum(#[trigger] p@[j]),
            upper <==> exists|j: int| 0 <= j < i && crate::text::is_ascii_upper(#[trigger] p@[j]),
        decreases p.len() - i,
    {
        let c = p[i];
        let is_upper = 'A' <= c && c <= 'Z';
        if !(is_upper || ('a' <= c && c <= 'z') || ('0' <= c && c <= '9')) {
            assert(!is_ascii_alnum(p@[i as int]));
            return false;
        }
        if is_upper {
            upper = true;
        }
        i = i + 1;
    }
    upper
}

/// Reads an identifier given by the user, as `parsed_id` says; every text
/// reads as some identifier.
pub fn parse_id(id: String) -> (r: Result<ModIdentifier, Error>)
    ensures
        r matches Ok(m) && m@ == parsed_id(id@),
{
    let v = chars_of(id.as_str());
    if let Some(k) = find_last(&v, '-') {
        proof {
            lemma_last_index_of(v@, '-');
        }
        let base = substring(&v, 0, k);
        let pin_text = substring(&v, k + 1, v.len());
        assert(base@ =~= id@.take(k as int));
        assert(pin_text@ =~= id@.skip(k + 1));
        let pin = chars_of(pin_text.as_str());
        let unpinned = read_unpinned(base.as_str());
        let pinned = match unpinned {
            ModIdentifier::CurseForgeProject(n) => match parse_i32(pin_text.as_str()) {
                Some(p) => Some(ModIdentifier::PinnedCurseForgeProject(n, p)),
                None => None,
            },
            ModIdentifier::GitHubRepository(o, r) => match parse_i32(pin_text.as_str()) {
                Some(p) => Some(ModIdentifier::PinnedGitHubRepository((o, r), p)),
                None => None,
            },
            ModIdentifier::ModrinthProject(p) => if reads_as_version_id(&pin) {
                Some(ModIdentifier::PinnedModrinthProject(p, pin_text))
            } else {
                None
            },
            _ => None,
        };
        match pinned {
            Some(m) => Ok(m),
            None => Ok(read_unpinned(id.as_str())),
        }
    } else {
        Ok(read_unpinned(id.as_str()))
    }
}

/// Splitting `s + t`, where `t` holds no separator, extends the last piece of `s` by `t`.
proof fn lemma_split_extend(s: Seq<char>, t: Seq<char>, seps: Seq<char>)
    requires
        forall|i: int| 0 <= i < t.len() ==> !seps.contains(#[trigger] t[i]),
    ensures
        split_spec(s + t, seps) == split_spec(s, seps).update(
            split_spec(s, seps).len() - 1,
            split_spec(s, seps).last() + t,
        ),
    decreases t.len(),
{
    lemma_split_nonempty(s, seps);
    let r = split_spec(s, seps);
    if t.len() == 0 {
        assert(s + t =~= s);
        assert(r.last() + t =~= r.last());
        assert(r.update(r.len() - 1, r.last() + t) =~= r);
    } else {
        let u = t.drop_last();
        assert forall|i: int| 0 <= i < u.len() implies !seps.contains(#[trigger] u[i]) by {
            assert(u[i] == t[i]);
        }
        lemma_split_extend(s, u, seps);
        assert((s + t).drop_last() =~= s + u);
        assert((s + t).last() == t.last());
        assert(!seps.contains(t[t.len() - 1]));
        let q = split_spec(s + u, seps);
        assert(q.last() == r.last() + u);
        assert((r.last() + u).push(t.last()) =~= r.last() + t);
        assert(q.update(q.len() - 1, q.last().push(t.last())) =~= r.update(
            r.len() - 1,
            r.last() + t,
        ));
    }
}

/// A string with no separator is one piece.
proof fn lemma_split_whole(t: Seq<char>, seps: Seq<char>)
    requires
        forall|i: int| 0 <= i < t.len() ==> !seps.contains(#[trigger] t[i]),
    ensures
        split_spec(t, seps) == seq![t],
{
    lemma_split_extend(Seq::empty(), t, seps);
    assert(Seq::<char>::empty() + t =~= t);
    assert(seq![Seq::<char>::empty()].update(0, Seq::<char>::empty() + t) =~= seq![t]);
}

/// A text holding a `/` is no number.
proof fn lemma_slash_no_number(t: Seq<char>, k: int)
    requires
        0 <= k < t.len(),
        t[k] == '/',
    ensures
        parse_i32_spec(t) is None,
        !is_version_id(t),
{
    if parse_i32_spec(t) is Some {
        let signed = t.len() > 0 && (t[0] == '-' || t[0] == '+');
        let body = if signed { t.drop_first() } else { t };
        if signed {
            assert(k > 0);
            assert(body[k - 1] == '/');
            assert(!crate::text::is_digit(body[k - 1]));
        } else {
            assert(body[k] == '/');
            assert(!crate::text::is_digit(body[k]));
        }
    }
    if is_version_id(t) {
        assert(is_ascii_alnum(t[k]));
    }
}

/// `a/b`, where neither holds a `/`, splits into `a` and `b`.
proof fn lemma_split_pair(a: Seq<char>, b: Seq<char>)
    requires
        forall|i: int| 0 <= i < a.len() ==> #[trigger] a[i] != '/',
        forall|i: int| 0 <= i < b.len() ==> #[trigger] b[i] != '/',
    ensures
        split_spec(a + seq!['/'] + b, seq!['/']) == seq![a, b],
{
    assert forall|i: int| 0 <= i < a.len() implies !seq!['/'].contains(#[trigger] a[i]) by {
        if seq!['/'].contains(a[i]) {
            assert(seq!['/'][0] == a[i]);
        }
    }
    assert forall|i: int| 0 <= i < b.len() implies !seq!['/'].contains(#[trigger] b[i]) by {
        if seq!['/'].contains(b[i]) {
            assert(seq!['/'][0] == b[i]);
        }
    }
    lemma_split_whole(a, seq!['/']);
    let with_slash = a + seq!['/'];
    assert(with_slash.drop_last() =~= a);
    assert(seq!['/'].contains(with_slash.last())) by {
        assert(seq!['/'][0] == with_slash.last());
    }
    assert(split_spec(with_slash, seq!['/']) =~= seq![a, Seq::<char>::empty()]);
    lemma_split_extend(with_slash, b, seq!['/']);
    assert(seq![a, Seq::<char>::empty()].update(1, Seq::<char>::empty() + b) =~= seq![a, b]);
}

/// The identifier of a CurseForge project, given as its number, is read as that
/// project. (A negative number starts with a `-`, and is read as a number too.)
pub proof fn lemma_parse_id_curseforge(n: i32)
    requires
        n >= 0,
    ensures
        parsed_id(crate::text::i32_decimal(n)) == ModIdentifierView::CurseForgeProject(n),
{
    let s = crate::text::i32_decimal(n);
    crate::text::lemma_parse_i32_decimal(n);
    crate::text::lemma_nat_decimal(n as nat);
    lemma_last_index_of(s, '-');
    if last_index_of(s, '-') is Some {
        let p = last_index_of(s, '-')->0;
        assert(crate::text::is_digit(s[p]));
    }
}

/// `owner/name`, with neither part holding a `/`, is read as that GitHub
/// repository, `-` in either part included, unless what follows the last `-`
/// of the name is a number (which reads as the pin of a release asset).
pub proof fn lemma_parse_id_github(owner: Seq<char>, name: Seq<char>)
    requires
        forall|i: int| 0 <= i < owner.len() ==> #[trigger] owner[i] != '/',
        forall|i: int| 0 <= i < name.len() ==> #[trigger] name[i] != '/',
        match last_index_of(name, '-') {
            Some(k) => parse_i32_spec(name.skip(k + 1)) is None,
            None => true,
        },
    ensures
        parsed_id(owner + seq!['/'] + name) == ModIdentifierView::GitHubRepository(owner, name),
{
    let s = owner + seq!['/'] + name;
    let o = owner.len() as int;
    assert(s[o] == '/');
    lemma_slash_no_number(s, o);
    lemma_split_pair(owner, name);
    assert(unpinned_id(s) == ModIdentifierView::GitHubRepository(owner, name));
    lemma_last_index_of(name, '-');
    lemma_last_index_of(owner, '-');
    match last_index_of(name, '-') {
        Some(k) => {
            let p = o + 1 + k;
            assert(s[p] == name[k]);
            assert forall|j: int| p < j < s.len() implies s[j] != '-' by {
                assert(s[j] == name[j - o - 1]);
            }
            lemma_last_index_at(s, '-', p);
            assert(s.skip(p + 1) =~= name.skip(k + 1));
            let pre = name.take(k);
            assert(s.take(p) =~= owner + seq!['/'] + pre);
            assert forall|i: int| 0 <= i < pre.len() implies #[trigger] pre[i] != '/' by {
                assert(pre[i] == name[i]);
            }
            lemma_split_pair(owner, pre);
            assert((owner + seq!['/'] + pre)[o] == '/');
            lemma_slash_no_number(owner + seq!['/'] + pre, o);
        },
        None => {
            match last_index_of(owner, '-') {
                Some(k) => {
                    assert(s[k] == owner[k]);
                    assert forall|j: int| k < j < s.len() implies s[j] != '-' by {
                        if j < o {
                            assert(s[j] == owner[j]);
                        } else if j > o {
                            assert(s[j] == name[j - o - 1]);
                        }
                    }
                    lemma_last_index_at(s, '-', k);
                    let pin = s.skip(k + 1);
                    assert(pin[o - k - 1] == '/');
                    lemma_slash_no_number(pin, o - k - 1);
                },
                None => {
                    assert forall|j: int| 0 <= j < s.len() implies s[j] != '-' by {
                        if j < o {
                            assert(s[j] == owner[j]);
                        } else if j > o {
                            assert(s[j] == name[j - o - 1]);
                        }
                    }
                    lemma_last_index_of(s, '-');
                    if last_index_of(s, '-') is Some {
                        let q = last_index_of(s, '-')->0;
                        assert(s[q] == '-');
                    }
                },
            }
        },
    }
}

/// A slug or project id with no `/` that is no number is read as that Modrinth
/// project, `-` in it included, unless what follows its last `-` is a number
/// or a version id (which read as pins).
pub proof fn lemma_parse_id_modrinth(id: Seq<char>)
    requires
        forall|i: int| 0 <= i < id.len() ==> #[trigger] id[i] != '/',
        parse_i32_spec(id) is None,
        match last_index_of(id, '-') {
            Some(k) => parse_i32_spec(id.skip(k + 1)) is None && !is_version_id(id.skip(k + 1)),
            None => true,
        },
    ensures
        parsed_id(id) == ModIdentifierView::ModrinthProject(id),
{
    assert forall|i: int| 0 <= i < id.len() implies !seq!['/'].contains(#[trigger] id[i]) by {
        if seq!['/'].contains(id[i]) {
            assert(seq!['/'][0] == id[i]);
        }
    }
    lemma_split_whole(id, seq!['/']);
    lemma_last_index_of(id, '-');
    if last_index_of(id, '-') is Some {
        let k = last_index_of(id, '-')->0;
        let base = id.take(k);
        assert forall|i: int| 0 <= i < base.len() implies !seq!['/'].contains(#[trigger] base[i]) by {
            assert(base[i] == id[i]);
            if seq!['/'].contains(base[i]) {
                assert(seq!['/'][0] == base[i]);
            }
        }
        lemma_split_whole(base, seq!['/']);
    }
}

/// A reason, found on the platform, to refuse a project.
#[derive(Clone, Copy, Debug, PartialEq, Eq, Structural)]
pub enum Refusal {
    DistributionDenied,
    NotAMod,
    IncorrectVersionPin,
}

/// What went wrong with one project, as the list of errors tells it.
pub enum Problem {
    AlreadyAdded,
    Refused(Refusal),
    DoesNotExist,
    GitHub(Seq<char>),
    Incompatible,
}

/// Whether `e` is the error that tells `p`.
pub open spec fn error_is(e: Error, p: Problem) -> bool {
    match p {
        Problem::AlreadyAdded => e is AlreadyAdded,
        Problem::Refused(Refusal::DistributionDenied) => e is DistributionDenied,
        Problem::Refused(Refusal::NotAMod) => e is NotAMod,
        Problem::Refused(Refusal::IncorrectVersionPin) => e is IncorrectVersionPin,
        Problem::DoesNotExist => e is DoesNotExist,
        Problem::GitHub(m) => e matches Error::GitHubError(x) && x@ == m,
        Problem::Incompatible => e is Incompatible,
    }
}

/// Whether a list of errors tells the problems `ps`, one for one.
pub open spec fn errors_tell(errs: Seq<(String, Error)>, ps: Seq<(Seq<char>, Problem)>) -> bool {
    &&& errs.len() == ps.len()
    &&& forall|i: int|
        0 <= i < errs.len() ==> (#[trigger] errs[i]).0@ == ps[i].0 && error_is(errs[i].1, ps[i].1)
}

/// The names and identifiers of the projects added.
pub open spec fn added_views(v: Seq<(String, ModIdentifier)>) -> Seq<(Seq<char>, ModIdentifierView)> {
    v.map_values(|p: (String, ModIdentifier)| (p.0@, p.1@))
}

/// The views of a list of mods.
pub open spec fn mod_views(v: Seq<Mod>) -> Seq<ModView> {
    v.map_values(|m: Mod| m@)
}

/// A project found on a platform, ready to be added: the names it goes by,
/// what it would be added as, and what the platform says against it.
#[derive(Debug)]
pub struct Candidate {
    /// The name compared with those of the mods already in the profile
    pub match_name: String,
    /// The name the mod gets in the profile
    pub mod_name: String,
    /// The name it is listed under once added
    pub shown: String,
    /// The name it is listed under in the errors
    pub error_name: String,
    pub identifier: ModIdentifier,
    pub slug: String,
    /// Why the platform refuses it, if it does
    pub refusal: Option<Refusal>,
    /// The files to check against the filters, where it is to be checked
    pub check: Option<Vec<Metadata>>,
}

/// The mathematical value of a `Candidate`.
pub struct CandidateView {
    pub match_name: Seq<char>,
    pub mod_name: Seq<char>,
    pub shown: Seq<char>,
    pub error_name: Seq<char>,
    pub identifier: ModIdentifierView,
    pub slug: Seq<char>,
    pub refusal: Option<Refusal>,
    pub check: Option<Seq<MetadataView>>,
}

impl View for Candidate {
    type V = CandidateView;

    open spec fn view(&self) -> CandidateView {
        CandidateView {
            match_name: self.match_name@,
            mod_name: self.mod_name@,
            shown: self.shown@,
            error_name: self.error_name@,
            identifier: self.identifier@,
            slug: self.slug@,
            refusal: self.refusal,
            check: match self.check {
                Some(v) => Some(metadata_views(v@)),
                None => None,
            },
        }
    }
}

/// The views of a list of candidates.
pub open spec fn candidate_views(v: Seq<Candidate>) -> Seq<CandidateView> {
    v.map_values(|c: Candidate| c@)
}

/// Whether `select_latest` finds a file among `files`.
pub open spec fn select_ok(
    files: Seq<MetadataView>,
    filters: Seq<FilterView>,
    groups: Seq<Seq<Seq<char>>>,
    groups_ok: bool,
) -> bool {
    &&& !any_fails(filters, groups_ok)
    &&& empty_filter_names(filters, files, groups).len() == 0
    &&& exists|i: usize| selectable(filters, files, groups, i)
}

/// Whether the profile has a mod of that name (ignoring ASCII case) or of that project.
pub open spec fn already_added(mods: Seq<ModView>, name: Seq<char>, id: ModIdentifierView) -> bool {
    exists|k: int|
        0 <= k < mods.len() && (eq_ignore_ascii_case_spec((#[trigger] mods[k]).name, name)
            || same_project(mods[k].identifier, id))
}

/// Where adding projects stands: the mods of the profile, the projects added
/// and the errors so far.
pub struct AddState {
    pub mods: Seq<ModView>,
    pub added: Seq<(Seq<char>, ModIdentifierView)>,
    pub errors: Seq<(Seq<char>, Problem)>,
}

/// What the filters and settings of one run of additions are.
pub struct AddSettings {
    /// The filters the compatibility check runs
    pub check_filters: Seq<FilterView>,
    pub groups: Seq<Seq<Seq<char>>>,
    pub groups_ok: bool,
    /// The filters each added mod gets
    pub filters: Seq<FilterView>,
    pub override_filters: bool,
}

/// One candidate looked at: a project of the profile already, refused by the
/// platform, found incompatible with the filters, or added.
pub open spec fn add_step(st: AddState, c: CandidateView, set: AddSettings) -> AddState {
    if already_added(st.mods, c.match_name, c.identifier) {
        AddState { errors: st.errors.push((c.error_name, Problem::AlreadyAdded)), ..st }
    } else if c.refusal is Some {
        AddState { errors: st.errors.push((c.error_name, Problem::Refused(c.refusal->0))), ..st }
    } else if c.check matches Some(files) && !select_ok(
        files,
        set.check_filters,
        set.groups,
        set.groups_ok,
    ) {
        AddState { errors: st.errors.push((c.error_name, Problem::Incompatible)), ..st }
    } else {
        AddState {
            mods: st.mods.push(
                ModView {
                    name: c.mod_name,
                    identifier: c.identifier,
                    slug: Some(c.slug),
                    filters: set.filters,
                    override_filters: set.override_filters,
                    check_game_version: None,
                    check_mod_loader: None,
                },
            ),
            added: st.added.push((c.shown, c.identifier)),
            ..st
        }
    }
}

/// The candidates looked at in order.
pub open spec fn add_run(st: AddState, cs: Seq<CandidateView>, set: AddSettings) -> AddState
    decreases cs.len(),
{
    if cs.len() == 0 {
        st
    } else {
        add_step(add_run(st, cs.drop_last(), set), cs.last(), set)
    }
}

/// Whether the profile has a mod of that name (ignoring ASCII case) or of that project.
fn has_mod(profile: &Profile, name: &String, id: &ModIdentifier) -> (r: bool)
    ensures
        r == already_added(mod_views(profile.mods@), name@, id@),
{
    let ghost ms = mod_views(profile.mods@);
    let mut k: usize = 0;
    while k < profile.mods.len()
        invariant
            k <= profile.mods.len(),
            ms == mod_views(profile.mods@),
            forall|j: int|
                0 <= j < k ==> !(eq_ignore_ascii_case_spec((#[trigger] ms[j]).name, name@)
                    || same_project(ms[j].identifier, id@)),
        decreases profile.mods.len() - k,
    {
        let m = &profile.mods[k];
        assert(ms[k as int] == m@);
        if eq_ignore_ascii_case(m.name.as_str(), name.as_str()) || m.identifier.is_same_as(id) {
            return true;
        }
        k = k + 1;
    }
    false
}

/// Looks at one candidate, as `add_step` says, adding it to the profile and to
/// the list of projects added, or telling why not in the list of errors.
fn add_candidate(
    profile: &mut Profile,
    c: Candidate,
    check_filters: &Vec<Filter>,
    version_groups: &Result<Vec<Vec<String>>, String>,
    filters: &Vec<Filter>,
    override_filters: bool,
    added: &mut Vec<(String, ModIdentifier)>,
    errors: &mut Vec<(String, Error)>,
)
    ensures
        ({
            let set = AddSettings {
                check_filters: filter_views(check_filters@),
                groups: groups_view(*version_groups),
                groups_ok: version_groups is Ok,
                filters: filter_views(filters@),
                override_filters,
            };
            let st = AddState {
                mods: mod_views(old(profile).mods@),
                added: added_views(old(added)@),
                errors: Seq::empty(),
            };
            let after = add_step(st, c@, set);
            &&& mod_views(final(profile).mods@) == after.mods
            &&& added_views(final(added)@) == after.added
            &&& errors_tell(final(errors)@.skip(old(errors)@.len() as int), after.errors)
            &&& final(errors)@.take(old(errors)@.len() as int) == old(errors)@
            &&& final(errors)@.len() >= old(errors)@.len()
        }),
        final(profile).name == old(profile).name,
        final(profile).output_dir == old(profile).output_dir,
        final(profile).filters == old(profile).filters,
        final(profile).game_version == old(profile).game_version,
        final(profile).mod_loader == old(profile).mod_loader,
        forall|k: int| 0 <= k < old(profile).mods.len() ==> final(profile).mods@[k] == old(profile).mods@[k],
{
    let ghost old_errors = errors@;
    if has_mod(profile, &c.match_name, &c.identifier) {
        errors.push((c.error_name, Error::AlreadyAdded));
        assert(errors@.skip(old_errors.len() as int) =~= seq![errors@.last()]);
        assert(errors@.take(old_errors.len() as int) =~= old_errors);
        return;
    }
    if let Some(refusal) = c.refusal {
        let e = match refusal {
            Refusal::DistributionDenied => Error::DistributionDenied,
            Refusal::NotAMod => Error::NotAMod,
            Refusal::IncorrectVersionPin => Error::IncorrectVersionPin,
        };
        errors.push((c.error_name, e));
        assert(errors@.skip(old_errors.len() as int) =~= seq![errors@.last()]);
        assert(errors@.take(old_errors.len() as int) =~= old_errors);
        return;
    }
    if let Some(files) = &c.check {
        if let Err(e) = select_latest(files, check_filters, version_groups) {
            errors.push((c.error_name, Error::Incompatible(e)));
            assert(errors@.skip(old_errors.len() as int) =~= seq![errors@.last()]);
            assert(errors@.take(old_errors.len() as int) =~= old_errors);
            return;
        }
    }
    let ghost id_view = c.identifier@;
    let ghost shown_view = c.shown@;
    let identifier = c.identifier.duplicate();
    let mod_filters = copy_filters(filters);
    profile.push_mod(c.mod_name, c.identifier, c.slug, override_filters, mod_filters);
    added.push((c.shown, identifier));
    assert(mod_views(profile.mods@) =~= mod_views(old(profile).mods@).push(profile.mods@.last()@));
    assert(added_views(added@) =~= added_views(old(added)@).push((shown_view, id_view)));
    assert(errors@.skip(old_errors.len() as int) =~= Seq::<(String, Error)>::empty());
    assert(errors@.take(old_errors.len() as int) =~= old_errors);
    proof {
        assert forall|k: int| 0 <= k < old(profile).mods.len() implies profile.mods@[k] == old(profile).mods@[k] by {
            assert(profile.mods@.drop_last()[k] == profile.mods@[k]);
        }
    }
}

/// Two lists of errors that tell two lists of problems, one after the other.
proof fn lemma_errors_tell_append(
    a: Seq<(String, Error)>,
    b: Seq<(String, Error)>,
    pa: Seq<(Seq<char>, Problem)>,
    pb: Seq<(Seq<char>, Problem)>,
)
    requires
        errors_tell(a, pa),
        errors_tell(b, pb),
    ensures
        errors_tell(a + b, pa + pb),
{
    assert forall|i: int| 0 <= i < (a + b).len() implies (#[trigger] (a + b)[i]).0@ == (pa
        + pb)[i].0 && error_is((a + b)[i].1, (pa + pb)[i].1) by {
        if i < a.len() {
            assert((a + b)[i] == a[i]);
            assert((pa + pb)[i] == pa[i]);
        } else {
            assert((a + b)[i] == b[i - a.len()]);
            assert((pa + pb)[i] == pb[i - pa.len()]);
        }
    }
}

/// Looks at the candidates in order, as `add_run` says.
fn add_candidates(
    profile: &mut Profile,
    candidates: Vec<Candidate>,
    check_filters: &Vec<Filter>,
    version_groups: &Result<Vec<Vec<String>>, String>,
    filters: &Vec<Filter>,
    override_filters: bool,
    added: &mut Vec<(String, ModIdentifier)>,
    errors: &mut Vec<(String, Error)>,
    Ghost(known): Ghost<Seq<(Seq<char>, Problem)>>,
)
    requires
        errors_tell(old(errors)@, known),
    ensures
        ({
            let set = AddSettings {
                check_filters: filter_views(check_filters@),
                groups: groups_view(*version_groups),
                groups_ok: version_groups is Ok,
                filters: filter_views(filters@),
                override_filters,
            };
            let st = AddState {
                mods: mod_views(old(profile).mods@),
                added: added_views(old(added)@),
                errors: known,
            };
            let after = add_run(st, candidate_views(candidates@), set);
            &&& mod_views(final(profile).mods@) == after.mods
            &&& added_views(final(added)@) == after.added
            &&& errors_tell(final(errors)@, after.errors)
        }),
        final(profile).name == old(profile).name,
        final(profile).output_dir == old(profile).output_dir,
        final(profile).filters == old(profile).filters,
        final(profile).game_version == old(profile).game_version,
        final(profile).mod_loader == old(profile).mod_loader,
{
    let ghost set = AddSettings {
        check_filters: filter_views(check_filters@),
        groups: groups_view(*version_groups),
        groups_ok: version_groups is Ok,
        filters: filter_views(filters@),
        override_filters,
    };
    let ghost st0 = AddState {
        mods: mod_views(profile.mods@),
        added: added_views(added@),
        errors: known,
    };
    let ghost cvs = candidate_views(candidates@);
    let mut rest = candidates;
    let mut i: usize = 0;
    let ghost n = cvs.len();
    assert(n == candidates.len());
    assert(cvs.take(0) =~= Seq::<CandidateView>::empty());
    while rest.len() > 0
        invariant
            i + rest.len() == n,
            n == cvs.len(),
            n <= usize::MAX,
            candidate_views(rest@) == cvs.skip(i as int),
            set == (AddSettings {
                check_filters: filter_views(check_filters@),
                groups: groups_view(*version_groups),
                groups_ok: version_groups is Ok,
                filters: filter_views(filters@),
                override_filters,
            }),
            mod_views(profile.mods@) == add_run(st0, cvs.take(i as int), set).mods,
            added_views(added@) == add_run(st0, cvs.take(i as int), set).added,
            errors_tell(errors@, add_run(st0, cvs.take(i as int), set).errors),
            profile.name == old(profile).name,
            profile.output_dir == old(profile).output_dir,
            profile.filters == old(profile).filters,
            profile.game_version == old(profile).game_version,
            profile.mod_loader == old(profile).mod_loader,
            st0 == (AddState {
                mods: mod_views(old(profile).mods@),
                added: added_views(old(added)@),
                errors: known,
            }),
            cvs == candidate_views(candidates@),
        decreases rest.len(),
    {
        let ghost before = add_run(st0, cvs.take(i as int), set);
        let ghost before_errors = errors@;
        let ghost rest_before = rest@;
        let c = rest.remove(0);
        assert(c@ == cvs[i as int]) by {
            assert(candidate_views(rest_before)[0] == cvs.skip(i as int)[0]);
        }
        assert(rest@ =~= rest_before.skip(1));
        assert(candidate_views(rest@) =~= candidate_views(rest_before).skip(1));
        assert(candidate_views(rest@) =~= cvs.skip(i + 1));
        let ghost step_alone = add_step(
            AddState { errors: Seq::empty(), ..before },
            c@,
            set,
        );
        let ghost step = add_step(before, c@, set);
        assert(cvs.take(i + 1).drop_last() =~= cvs.take(i as int));
        assert(cvs.take(i + 1).last() == c@);
        add_candidate(
            profile,
            c,
            check_filters,
            version_groups,
            filters,
            override_filters,
            added,
            errors,
        );
        assert(step.errors =~= before.errors + step_alone.errors);
        assert(errors@.take(before_errors.len() as int) == before_errors);
        assert(errors@ =~= errors@.take(before_errors.len() as int) + errors@.skip(
            before_errors.len() as int,
        ));
        proof {
            lemma_errors_tell_append(
                before_errors,
                errors@.skip(before_errors.len() as int),
                before.errors,
                step_alone.errors,
            );
        }
        i = i + 1;
    }
    assert(cvs.take(i as int) =~= cvs);
}

/// One entry of the index of a CurseForge project's latest files.
#[derive(Debug)]
pub struct FileIndex {
    pub game_version: String,
    /// The mod loader, named as CurseForge's client names its variant
    pub mod_loader: Option<String>,
}

/// A project on CurseForge, as far as adding it looks at it.
#[derive(Debug)]
pub struct CurseForgeProject {
    pub id: i32,
    pub name: String,
    pub slug: String,
    pub allow_mod_distribution: Option<bool>,
    /// The project's page, whose path tells what kind of project it is
    pub website_url: String,
    pub latest_files_indexes: Vec<FileIndex>,
}

/// A project on Modrinth, as far as adding it looks at it.
#[derive(Debug)]
pub struct ModrinthProject {
    pub id: String,
    pub slug: String,
    pub title: String,
    /// Whether its project type is a mod
    pub is_mod: bool,
    /// The ids of its versions
    pub versions: Vec<String>,
    pub game_versions: Vec<String>,
    pub loaders: Vec<String>,
}

/// An asset of a release of a GitHub repository.
#[derive(Debug)]
pub struct ReleaseAsset {
    pub id: i64,
    pub name: String,
}

/// A release of a GitHub repository.
#[derive(Debug)]
pub struct Release {
    pub name: String,
    pub description: String,
    pub is_prerelease: bool,
    pub release_assets: Vec<ReleaseAsset>,
}

/// A GitHub repository with its releases.
#[derive(Debug)]
pub struct Repository {
    pub owner: String,
    pub name: String,
    pub releases: Vec<Release>,
}

/// The mod loaders that the index of a CurseForge project names, in order.
pub open spec fn index_loaders(ix: Seq<FileIndex>) -> Seq<ModLoader>
    decreases ix.len(),
{
    if ix.len() == 0 {
        Seq::empty()
    } else {
        let rest = index_loaders(ix.drop_last());
        match ix.last().mod_loader {
            Some(n) => match parse_mod_loader(n@) {
                Ok(l) => rest.push(l),
                Err(_) => rest,
            },
            None => rest,
        }
    }
}

/// What the compatibility check of a CurseForge project looks at: one file
/// that holds every game version and mod loader of its latest files.
pub open spec fn cf_check_file(p: CurseForgeProject) -> MetadataView {
    MetadataView {
        title: Seq::empty(),
        description: Seq::empty(),
        filename: Seq::empty(),
        channel: ReleaseChannel::Release,
        game_versions: p.latest_files_indexes@.map_values(|i: FileIndex| i.game_version@),
        loaders: index_loaders(p.latest_files_indexes@),
    }
}

/// Whether a listed file is the file of id `pin`.
pub open spec fn is_file(o: Option<CurseForgeFile>, pin: i32) -> bool {
    o matches Some(f) && f.id == pin
}

/// The project that the first file of id `pin` belongs to, if one is listed.
pub open spec fn pinned_file_project(files: Seq<Option<CurseForgeFile>>, pin: i32) -> Option<i32> {
    if exists|i: int| 0 <= i < files.len() && is_file(#[trigger] files[i], pin) {
        let i = choose|i: int|
            0 <= i < files.len() && is_file(#[trigger] files[i], pin) && forall|j: int|
                0 <= j < i ==> !is_file(files[j], pin);
        Some(files[i]->0.mod_id)
    } else {
        None
    }
}

/// Why CurseForge refuses a project: its developer denies third party
/// downloads, it is not a Minecraft mod, or its pin is no file of it.
pub open spec fn cf_refusal(p: CurseForgeProject, pin: Option<i32>, files: Seq<Option<CurseForgeFile>>) -> Option<Refusal> {
    if p.allow_mod_distribution == Some(false) {
        Some(Refusal::DistributionDenied)
    } else if !contains_spec(p.website_url@, "mc-mods"@) {
        Some(Refusal::NotAMod)
    } else {
        match pin {
            Some(v) => match pinned_file_project(files, v) {
                Some(m) => if m != p.id {
                    Some(Refusal::IncorrectVersionPin)
                } else {
                    None
                },
                None => Some(Refusal::IncorrectVersionPin),
            },
            None => None,
        }
    }
}

/// A CurseForge project as a candidate.
pub open spec fn cf_candidate(
    p: CurseForgeProject,
    pin: Option<i32>,
    files: Seq<Option<CurseForgeFile>>,
    perform_checks: bool,
) -> CandidateView {
    CandidateView {
        match_name: p.name@,
        mod_name: trim_spec(p.name@),
        shown: p.name@,
        error_name: p.name@ + " ("@ + i32_decimal(p.id) + ")"@,
        identifier: match pin {
            Some(v) => ModIdentifierView::PinnedCurseForgeProject(p.id, v),
            None => ModIdentifierView::CurseForgeProject(p.id),
        },
        slug: p.slug@,
        refusal: cf_refusal(p, pin, files),
        check: if pin is None && perform_checks {
            Some(seq![cf_check_file(p)])
        } else {
            None
        },
    }
}

/// Why Modrinth refuses a project: it is no mod, or its pin is no version of it.
pub open spec fn mr_refusal(p: ModrinthProject, pin: Option<Seq<char>>) -> Option<Refusal> {
    if !p.is_mod {
        Some(Refusal::NotAMod)
    } else {
        match pin {
            Some(v) => if !views(p.versions@).contains(v) {
                Some(Refusal::IncorrectVersionPin)
            } else {
                None
            },
            None => None,
        }
    }
}

/// What the compatibility check of a Modrinth project looks at: one file with
/// every game version and mod loader of the project.
pub open spec fn mr_check_file(p: ModrinthProject) -> MetadataView {
    MetadataView {
        title: Seq::empty(),
        description: Seq::empty(),
        filename: Seq::empty(),
        channel: ReleaseChannel::Release,
        game_versions: views(p.game_versions@),
        loaders: known_loaders(views(p.loaders@)),
    }
}

/// A Modrinth project as a candidate.
pub open spec fn mr_candidate(p: ModrinthProject, pin: Option<Seq<char>>, perform_checks: bool) -> CandidateView {
    CandidateView {
        match_name: p.title@,
        mod_name: trim_spec(p.title@),
        shown: p.title@,
        error_name: p.title@ + " ("@ + p.id@ + ")"@,
        identifier: match pin {
            Some(v) => ModIdentifierView::PinnedModrinthProject(p.id@, v),
            None => ModIdentifierView::ModrinthProject(p.id@),
        },
        slug: p.slug@,
        refusal: mr_refusal(p, pin),
        check: if pin is None && perform_checks {
            Some(seq![mr_check_file(p)])
        } else {
            None
        },
    }
}

/// What the compatibility check looks at in an asset of a release.
pub open spec fn release_asset_file(r: Release, a: ReleaseAsset) -> MetadataView {
    MetadataView {
        title: r.name@,
        description: r.description@,
        filename: a.name@,
        channel: if r.is_prerelease {
            ReleaseChannel::Beta
        } else {
            ReleaseChannel::Release
        },
        game_versions: asset_game_versions(a.name@),
        loaders: known_loaders(asset_name_parts(a.name@)),
    }
}

/// What the compatibility check of a repository looks at: every asset of
/// every release, release by release.
pub open spec fn repo_check_files(releases: Seq<Release>) -> Seq<MetadataView>
    decreases releases.len(),
{
    if releases.len() == 0 {
        Seq::empty()
    } else {
        let r = releases.last();
        repo_check_files(releases.drop_last()) + r.release_assets@.map_values(
            |a: ReleaseAsset| release_asset_file(r, a),
        )
    }
}

/// Whether some asset of some release has the id `pin`.
pub open spec fn has_asset(releases: Seq<Release>, pin: i32) -> bool {
    exists|i: int, j: int|
        0 <= i < releases.len() && 0 <= j < releases[i].release_assets.len()
            && (#[trigger] releases[i].release_assets@[j]).id == pin as i64
}

/// A GitHub repository as a candidate.
pub open spec fn gh_candidate(r: Repository, pin: Option<i32>, perform_checks: bool) -> CandidateView {
    CandidateView {
        match_name: r.name@,
        mod_name: r.name@,
        shown: r.owner@ + "/"@ + r.name@,
        error_name: r.owner@ + "/"@ + r.name@,
        identifier: match pin {
            Some(v) => ModIdentifierView::PinnedGitHubRepository(r.owner@, r.name@, v),
            None => ModIdentifierView::GitHubRepository(r.owner@, r.name@),
        },
        slug: r.name@,
        refusal: match pin {
            Some(v) => if has_asset(r.releases@, v) {
                None
            } else {
                Some(Refusal::IncorrectVersionPin)
            },
            None => None,
        },
        check: if pin is None && perform_checks {
            Some(repo_check_files(r.releases@))
        } else {
            None
        },
    }
}

/// The project that the first listed file of id `pin` belongs to.
fn pinned_project(files: &Vec<Option<CurseForgeFile>>, pin: i32) -> (r: Option<i32>)
    ensures
        r == pinned_file_project(files@, pin),
{
    let mut i: usize = 0;
    while i < files.len()
        invariant
            i <= files.len(),
            forall|j: int| 0 <= j < i ==> !is_file(files@[j], pin),
        decreases files.len() - i,
    {
        if let Some(f) = &files[i] {
            if f.id == pin {
                assert(is_file(files@[i as int], pin));
                assert forall|k: int|
                    0 <= k < files.len() && is_file(#[trigger] files@[k], pin) && (forall|j: int|
                        0 <= j < k ==> !is_file(files@[j], pin)) implies k == i by {
                    if k > i {
                        assert(!is_file(files@[i as int], pin));
                    }
                }
                return Some(f.mod_id);
            }
        }
        i = i + 1;
    }
    None
}

/// What the compatibility check of a CurseForge project looks at.
fn cf_file_of(p: &CurseForgeProject) -> (r: Metadata)
    ensures
        r@ == cf_check_file(*p),
{
    let ix = &p.latest_files_indexes;
    let mut game_versions: Vec<String> = Vec::new();
    let mut loaders: Vec<ModLoader> = Vec::new();
    let mut i: usize = 0;
    while i < ix.len()
        invariant
            i <= ix.len(),
            views(game_versions@) == ix@.take(i as int).map_values(|f: FileIndex| f.game_version@),
            loaders@ == index_loaders(ix@.take(i as int)),
        decreases ix.len() - i,
    {
        let ghost before = views(game_versions@);
        game_versions.push(copy_string(&ix[i].game_version));
        assert(ix@.take(i + 1) =~= ix@.take(i as int).push(ix@[i as int]));
        assert(views(game_versions@) =~= before.push(ix@[i as int].game_version@));
        assert(views(game_versions@) =~= ix@.take(i + 1).map_values(|f: FileIndex| f.game_version@));
        assert(ix@.take(i + 1).drop_last() =~= ix@.take(i as int));
        if let Some(n) = &ix[i].mod_loader {
            if let Ok(l) = ModLoader::from_str(n.as_str()) {
                loaders.push(l);
            }
        }
        i = i + 1;
    }
    assert(ix@.take(ix.len() as int) =~= ix@);
    Metadata {
        title: String::new(),
        description: String::new(),
        filename: String::new(),
        channel: ReleaseChannel::Release,
        game_versions,
        loaders,
    }
}

/// A CurseForge project as a candidate.
pub fn cf_candidate_of(
    p: CurseForgeProject,
    pin: Option<i32>,
    files: &Vec<Option<CurseForgeFile>>,
    perform_checks: bool,
) -> (r: Candidate)
    ensures
        r@ == cf_candidate(p, pin, files@, perform_checks),
{
    let refusal = if p.allow_mod_distribution == Some(false) {
        Some(Refusal::DistributionDenied)
    } else if !contains_str(p.website_url.as_str(), "mc-mods") {
        Some(Refusal::NotAMod)
    } else {
        match pin {
            Some(v) => match pinned_project(files, v) {
                Some(m) => if m != p.id {
                    Some(Refusal::IncorrectVersionPin)
                } else {
                    None
                },
                None => Some(Refusal::IncorrectVersionPin),
            },
            None => None,
        }
    };
    let check = if pin.is_none() && perform_checks {
        let f = cf_file_of(&p);
        let mut v: Vec<Metadata> = Vec::new();
        v.push(f);
        assert(metadata_views(v@) =~= seq![cf_check_file(p)]);
        Some(v)
    } else {
        None
    };
    let id_text = i32_to_string(p.id);
    let a = concat(p.name.as_str(), " (");
    let b = concat(a.as_str(), id_text.as_str());
    let error_name = concat(b.as_str(), ")");
    let identifier = match pin {
        Some(v) => ModIdentifier::PinnedCurseForgeProject(p.id, v),
        None => ModIdentifier::CurseForgeProject(p.id),
    };
    Candidate {
        match_name: copy_string(&p.name),
        mod_name: trim(p.name.as_str()),
        shown: copy_string(&p.name),
        error_name,
        identifier,
        slug: p.slug,
        refusal,
        check,
    }
}

/// A Modrinth project as a candidate.
pub fn mr_candidate_of(p: ModrinthProject, pin: Option<String>, perform_checks: bool) -> (r: Candidate)
    ensures
        r@ == mr_candidate(
            p,
            match pin {
                Some(v) => Some(v@),
                None => None,
            },
            perform_checks,
        ),
{
    let refusal = if !p.is_mod {
        Some(Refusal::NotAMod)
    } else {
        match &pin {
            Some(v) => if !contains_string(&p.versions, v) {
                Some(Refusal::IncorrectVersionPin)
            } else {
                None
            },
            None => None,
        }
    };
    let check = if pin.is_none() && perform_checks {
        let f = Metadata {
            title: String::new(),
            description: String::new(),
            filename: String::new(),
            channel: ReleaseChannel::Release,
            game_versions: copy_strings(&p.game_versions),
            loaders: loaders_named(&p.loaders),
        };
        let mut v: Vec<Metadata> = Vec::new();
        v.push(f);
        assert(metadata_views(v@) =~= seq![mr_check_file(p)]);
        Some(v)
    } else {
        None
    };
    let a = concat(p.title.as_str(), " (");
    let b = concat(a.as_str(), p.id.as_str());
    let error_name = concat(b.as_str(), ")");
    let identifier = match pin {
        Some(v) => ModIdentifier::PinnedModrinthProject(copy_string(&p.id), v),
        None => ModIdentifier::ModrinthProject(copy_string(&p.id)),
    };
    Candidate {
        match_name: copy_string(&p.title),
        mod_name: trim(p.title.as_str()),
        shown: copy_string(&p.title),
        error_name,
        identifier,
        slug: p.slug,
        refusal,
        check,
    }
}

/// Whether some asset of some release has the id `pin`.
fn find_asset(releases: &Vec<Release>, pin: i32) -> (r: bool)
    ensures
        r == has_asset(releases@, pin),
{
    let mut i: usize = 0;
    while i < releases.len()
        invariant
            i <= releases.len(),
            forall|a: int, b: int|
                0 <= a < i && 0 <= b < releases@[a].release_assets.len() ==> (
                #[trigger] releases@[a].release_assets@[b]).id != pin as i64,
        decreases releases.len() - i,
    {
        let assets = &releases[i].release_assets;
        let mut j: usize = 0;
        while j < assets.len()
            invariant
                j <= assets.len(),
                i < releases.len(),
                *assets == releases@[i as int].release_assets,
                forall|b: int| 0 <= b < j ==> (#[trigger] assets@[b]).id != pin as i64,
            decreases assets.len() - j,
        {
            if assets[j].id == pin as i64 {
                assert(releases@[i as int].release_assets@[j as int].id == pin as i64);
                return true;
            }
            j = j + 1;
        }
        i = i + 1;
    }
    false
}

/// What the compatibility check of a repository looks at.
fn repo_files_of(releases: &Vec<Release>) -> (r: Vec<Metadata>)
    ensures
        metadata_views(r@) == repo_check_files(releases@),
{
    let mut r: Vec<Metadata> = Vec::new();
    let mut i: usize = 0;
    while i < releases.len()
        invariant
            i <= releases.len(),
            metadata_views(r@) == repo_check_files(releases@.take(i as int)),
        decreases releases.len() - i,
    {
        let release = &releases[i];
        let ghost done = metadata_views(r@);
        assert(releases@.take(i + 1).drop_last() =~= releases@.take(i as int));
        assert(releases@.take(i + 1).last() == *release);
        let mut j: usize = 0;
        while j < release.release_assets.len()
            invariant
                j <= release.release_assets.len(),
                metadata_views(r@) == done + release.release_assets@.take(j as int).map_values(
                    |a: ReleaseAsset| release_asset_file(*release, a),
                ),
            decreases release.release_assets.len() - j,
        {
            let asset = &release.release_assets[j];
            let (game_versions, loaders) = asset_tags(&asset.name);
            let m = Metadata {
                title: copy_string(&release.name),
                description: copy_string(&release.description),
                filename: copy_string(&asset.name),
                channel: if release.is_prerelease {
                    ReleaseChannel::Beta
                } else {
                    ReleaseChannel::Release
                },
                game_versions,
                loaders,
            };
            let ghost before = metadata_views(r@);
            r.push(m);
            assert(metadata_views(r@) =~= before.push(release_asset_file(*release, *asset)));
            assert(release.release_assets@.take(j + 1) =~= release.release_assets@.take(
                j as int,
            ).push(*asset));
            assert(metadata_views(r@) =~= done + release.release_assets@.take(j + 1).map_values(
                |a: ReleaseAsset| release_asset_file(*release, a),
            ));
            j = j + 1;
        }
        assert(release.release_assets@.take(release.release_assets.len() as int)
            =~= release.release_assets@);
        i = i + 1;
    }
    assert(releases@.take(releases.len() as int) =~= releases@);
    r
}

/// A GitHub repository as a candidate.
pub fn gh_candidate_of(r: Repository, pin: Option<i32>, perform_checks: bool) -> (c: Candidate)
    ensures
        c@ == gh_candidate(r, pin, perform_checks),
{
    let refusal = match pin {
        Some(v) => if find_asset(&r.releases, v) {
            None
        } else {
            Some(Refusal::IncorrectVersionPin)
        },
        None => None,
    };
    let check = if pin.is_none() && perform_checks {
        Some(repo_files_of(&r.releases))
    } else {
        None
    };
    let a = concat(r.owner.as_str(), "/");
    let shown = concat(a.as_str(), r.name.as_str());
    let identifier = match pin {
        Some(v) => ModIdentifier::PinnedGitHubRepository(
            (copy_string(&r.owner), copy_string(&r.name)),
            v,
        ),
        None => ModIdentifier::GitHubRepository(copy_string(&r.owner), copy_string(&r.name)),
    };
    Candidate {
        match_name: copy_string(&r.name),
        mod_name: copy_string(&r.name),
        error_name: copy_string(&shown),
        shown,
        identifier,
        slug: r.name,
        refusal,
        check,
    }
}

/// The CurseForge projects asked for, with their pins, in order.
pub open spec fn cf_requests(ids: Seq<ModIdentifierView>) -> Seq<(i32, Option<i32>)>
    decreases ids.len(),
{
    if ids.len() == 0 {
        Seq::empty()
    } else {
        let rest = cf_requests(ids.drop_last());
        match ids.last() {
            ModIdentifierView::CurseForgeProject(p) => rest.push((p, None)),
            ModIdentifierView::PinnedCurseForgeProject(p, v) => rest.push((p, Some(v))),
            _ => rest,
        }
    }
}

/// The Modrinth projects asked for, with their pins, in order.
pub open spec fn mr_requests(ids: Seq<ModIdentifierView>) -> Seq<(Seq<char>, Option<Seq<char>>)>
    decreases ids.len(),
{
    if ids.len() == 0 {
        Seq::empty()
    } else {
        let rest = mr_requests(ids.drop_last());
        match ids.last() {
            ModIdentifierView::ModrinthProject(p) => rest.push((p, None)),
            ModIdentifierView::PinnedModrinthProject(p, v) => rest.push((p, Some(v))),
            _ => rest,
        }
    }
}

/// The GitHub repositories asked for, with their pins, in order.
pub open spec fn gh_requests(ids: Seq<ModIdentifierView>) -> Seq<(Seq<char>, Seq<char>, Option<i32>)>
    decreases ids.len(),
{
    if ids.len() == 0 {
        Seq::empty()
    } else {
        let rest = gh_requests(ids.drop_last());
        match ids.last() {
            ModIdentifierView::GitHubRepository(o, r) => rest.push((o, r, None)),
            ModIdentifierView::PinnedGitHubRepository(o, r, v) => rest.push((o, r, Some(v))),
            _ => rest,
        }
    }
}

/// The projects asked for, by platform: what to fetch, and the pins.
#[derive(Debug)]
pub struct Requests {
    pub cf_project_ids: Vec<i32>,
    pub cf_file_ids: Vec<Option<i32>>,
    pub mr_project_ids: Vec<String>,
    pub mr_version_ids: Vec<Option<String>>,
    pub gh_repo_ids: Vec<(String, String)>,
    pub gh_asset_ids: Vec<Option<i32>>,
}

/// The text of an optional string.
pub open spec fn opt_view(o: Option<String>) -> Option<Seq<char>> {
    match o {
        Some(s) => Some(s@),
        None => None,
    }
}

/// Whether `r` holds the projects that `ids` asks for, by platform, in order.
pub open spec fn requests_of(r: Requests, ids: Seq<ModIdentifierView>) -> bool {
    &&& r.cf_project_ids@ == cf_requests(ids).map_values(|q: (i32, Option<i32>)| q.0)
    &&& r.cf_file_ids@ == cf_requests(ids).map_values(|q: (i32, Option<i32>)| q.1)
    &&& views(r.mr_project_ids@) == mr_requests(ids).map_values(
        |q: (Seq<char>, Option<Seq<char>>)| q.0,
    )
    &&& r.mr_version_ids@.map_values(|o: Option<String>| opt_view(o)) == mr_requests(
        ids,
    ).map_values(|q: (Seq<char>, Option<Seq<char>>)| q.1)
    &&& r.gh_repo_ids@.map_values(|p: (String, String)| (p.0@, p.1@)) == gh_requests(
        ids,
    ).map_values(|q: (Seq<char>, Seq<char>, Option<i32>)| (q.0, q.1))
    &&& r.gh_asset_ids@ == gh_requests(ids).map_values(
        |q: (Seq<char>, Seq<char>, Option<i32>)| q.2,
    )
}

/// Sorts the identifiers by platform, in order: what to ask each platform for.
pub fn classify(identifiers: &Vec<ModIdentifier>) -> (r: Requests)
    ensures
        requests_of(r, identifier_views(identifiers@)),
{
    let ghost ids = identifier_views(identifiers@);
    let mut r = Requests {
        cf_project_ids: Vec::new(),
        cf_file_ids: Vec::new(),
        mr_project_ids: Vec::new(),
        mr_version_ids: Vec::new(),
        gh_repo_ids: Vec::new(),
        gh_asset_ids: Vec::new(),
    };
    let mut i: usize = 0;
    assert(ids.take(0) =~= Seq::<ModIdentifierView>::empty());
    assert(requests_of(r, ids.take(0))) by {
        assert(views(r.mr_project_ids@) =~= Seq::<Seq<char>>::empty());
        assert(r.mr_version_ids@.map_values(|o: Option<String>| opt_view(o)) =~= Seq::<
            Option<Seq<char>>,
        >::empty());
        assert(r.gh_repo_ids@.map_values(|p: (String, String)| (p.0@, p.1@)) =~= Seq::<
            (Seq<char>, Seq<char>),
        >::empty());
        assert(cf_requests(ids.take(0)).map_values(|q: (i32, Option<i32>)| q.0) =~= Seq::<i32>::empty());
        assert(cf_requests(ids.take(0)).map_values(|q: (i32, Option<i32>)| q.1) =~= Seq::<Option<i32>>::empty());
        assert(mr_requests(ids.take(0)).map_values(|q: (Seq<char>, Option<Seq<char>>)| q.0) =~= Seq::<Seq<char>>::empty());
        assert(mr_requests(ids.take(0)).map_values(|q: (Seq<char>, Option<Seq<char>>)| q.1) =~= Seq::<Option<Seq<char>>>::empty());
        assert(gh_requests(ids.take(0)).map_values(|q: (Seq<char>, Seq<char>, Option<i32>)| (q.0, q.1)) =~= Seq::<(Seq<char>, Seq<char>)>::empty());
        assert(gh_requests(ids.take(0)).map_values(|q: (Seq<char>, Seq<char>, Option<i32>)| q.2) =~= Seq::<Option<i32>>::empty());
    }
    while i < identifiers.len()
        invariant
            i <= identifiers.len(),
            ids == identifier_views(identifiers@),
            requests_of(r, ids.take(i as int)),
        decreases identifiers.len() - i,
    {
        let ghost t = ids.take(i + 1);
        assert(t.drop_last() =~= ids.take(i as int));
        assert(t.last() == identifiers@[i as int]@);
        let ghost before = r;
        match &identifiers[i] {
            ModIdentifier::CurseForgeProject(p) => {
                r.cf_project_ids.push(*p);
                r.cf_file_ids.push(None);
            },
            ModIdentifier::PinnedCurseForgeProject(p, v) => {
                r.cf_project_ids.push(*p);
                r.cf_file_ids.push(Some(*v));
            },
            ModIdentifier::ModrinthProject(p) => {
                r.mr_project_ids.push(copy_string(p));
                r.mr_version_ids.push(None);
                assert(views(r.mr_project_ids@) =~= views(before.mr_project_ids@).push(p@));
                assert(r.mr_version_ids@.map_values(|o: Option<String>| opt_view(o))
                    =~= before.mr_version_ids@.map_values(|o: Option<String>| opt_view(o)).push(
                    None,
                ));
            },
            ModIdentifier::PinnedModrinthProject(p, v) => {
                r.mr_project_ids.push(copy_string(p));
                r.mr_version_ids.push(Some(copy_string(v)));
                assert(views(r.mr_project_ids@) =~= views(before.mr_project_ids@).push(p@));
                assert(r.mr_version_ids@.map_values(|o: Option<String>| opt_view(o))
                    =~= before.mr_version_ids@.map_values(|o: Option<String>| opt_view(o)).push(
                    Some(v@),
                ));
            },
            ModIdentifier::GitHubRepository(o, n) => {
                r.gh_repo_ids.push((copy_string(o), copy_string(n)));
                r.gh_asset_ids.push(None);
                assert(r.gh_repo_ids@.map_values(|p: (String, String)| (p.0@, p.1@))
                    =~= before.gh_repo_ids@.map_values(|p: (String, String)| (p.0@, p.1@)).push(
                    (o@, n@),
                ));
            },
            ModIdentifier::PinnedGitHubRepository((o, n), v) => {
                r.gh_repo_ids.push((copy_string(o), copy_string(n)));
                r.gh_asset_ids.push(Some(*v));
                assert(r.gh_repo_ids@.map_values(|p: (String, String)| (p.0@, p.1@))
                    =~= before.gh_repo_ids@.map_values(|p: (String, String)| (p.0@, p.1@)).push(
                    (o@, n@),
                ));
            },
        }
        assert(requests_of(r, t)) by {
            assert(r.cf_project_ids@ =~= cf_requests(t).map_values(|q: (i32, Option<i32>)| q.0));
            assert(r.cf_file_ids@ =~= cf_requests(t).map_values(|q: (i32, Option<i32>)| q.1));
            assert(views(r.mr_project_ids@) =~= mr_requests(t).map_values(
                |q: (Seq<char>, Option<Seq<char>>)| q.0,
            ));
            assert(r.mr_version_ids@.map_values(|o: Option<String>| opt_view(o)) =~= mr_requests(
                t,
            ).map_values(|q: (Seq<char>, Option<Seq<char>>)| q.1));
            assert(r.gh_repo_ids@.map_values(|p: (String, String)| (p.0@, p.1@)) =~= gh_requests(
                t,
            ).map_values(|q: (Seq<char>, Seq<char>, Option<i32>)| (q.0, q.1)));
            assert(r.gh_asset_ids@ =~= gh_requests(t).map_values(
                |q: (Seq<char>, Seq<char>, Option<i32>)| q.2,
            ));
        }
        i = i + 1;
    }
    assert(ids.take(identifiers.len() as int) =~= ids);
    r
}

/// Whether a filter is one that the check of a CurseForge or Modrinth project runs.
pub open spec fn compat_kind(f: FilterView) -> bool {
    f is GameVersionStrict || f is GameVersionMinor || f is ModLoaderAny || f is ModLoaderPrefer
}

/// The filters a compatibility check runs: the profile's, and the mod's own
/// unless they replace the profile's; only those on game versions and mod
/// loaders where `restrict` holds.
pub open spec fn check_filters_spec(
    profile_filters: Seq<FilterView>,
    filters: Seq<FilterView>,
    override_profile: bool,
    restrict: bool,
) -> Seq<FilterView> {
    let base = if override_profile {
        profile_filters
    } else {
        profile_filters + filters
    };
    if restrict {
        base.filter(|f: FilterView| compat_kind(f))
    } else {
        base
    }
}

/// The filters of `src` that `restrict` keeps, copied after those of `r`.
fn append_filters(r: &mut Vec<Filter>, src: &Vec<Filter>, restrict: bool)
    ensures
        filter_views(final(r)@) == filter_views(old(r)@) + if restrict {
            filter_views(src@).filter(|f: FilterView| compat_kind(f))
        } else {
            filter_views(src@)
        },
{
    let ghost start = filter_views(r@);
    let ghost pred = |f: FilterView| compat_kind(f);
    let mut i: usize = 0;
    while i < src.len()
        invariant
            i <= src.len(),
            pred == (|f: FilterView| compat_kind(f)),
            filter_views(r@) == start + if restrict {
                filter_views(src@).take(i as int).filter(pred)
            } else {
                filter_views(src@).take(i as int)
            },
        decreases src.len() - i,
    {
        let f = &src[i];
        let ghost fv = filter_views(src@)[i as int];
        assert(fv == f@);
        assert(filter_views(src@).take(i + 1) =~= filter_views(src@).take(i as int).push(fv));
        proof {
            filter_views(src@).take(i as int).lemma_filter_push(fv, pred);
        }
        let keep = match f {
            Filter::GameVersionStrict(_) | Filter::GameVersionMinor(_) | Filter::ModLoaderAny(_)
            | Filter::ModLoaderPrefer(_) => true,
            _ => false,
        };
        let ghost before = filter_views(r@);
        if !restrict || keep {
            r.push(f.duplicate());
            assert(filter_views(r@) =~= before.push(fv));
        }
        i = i + 1;
    }
    assert(filter_views(src@).take(src.len() as int) =~= filter_views(src@));
}

/// The filters a compatibility check runs.
fn check_filters(
    profile_filters: &Vec<Filter>,
    filters: &Vec<Filter>,
    override_profile: bool,
    restrict: bool,
) -> (r: Vec<Filter>)
    ensures
        filter_views(r@) == check_filters_spec(
            filter_views(profile_filters@),
            filter_views(filters@),
            override_profile,
            restrict,
        ),
{
    let mut r: Vec<Filter> = Vec::new();
    assert(filter_views(r@) =~= Seq::<FilterView>::empty());
    append_filters(&mut r, profile_filters, restrict);
    if !override_profile {
        append_filters(&mut r, filters, restrict);
    }
    proof {
        let pred = |f: FilterView| compat_kind(f);
        Seq::filter_distributes_over_add(filter_views(profile_filters@), filter_views(filters@), pred);
        assert(Seq::<FilterView>::empty() + filter_views(profile_filters@) =~= filter_views(profile_filters@));
        assert(Seq::<FilterView>::empty() + filter_views(profile_filters@).filter(pred) =~= filter_views(profile_filters@).filter(pred));
    }
    r
}

/// `v` with its item at `i` replaced by its last, and the last dropped:
/// `Vec::swap_remove`.
pub open spec fn swap_removed<A>(v: Seq<A>, i: int) -> Seq<A> {
    v.update(i, v.last()).drop_last()
}

/// The first index of `pid` in `ids`.
pub open spec fn first_position(ids: Seq<i32>, pid: i32) -> Option<int> {
    if exists|i: int| 0 <= i < ids.len() && ids[i] == pid {
        Some(choose|i: int| 0 <= i < ids.len() && ids[i] == pid && forall|j: int| 0 <= j < i ==> ids[j] != pid)
    } else {
        None
    }
}

/// The CurseForge ids asked for that none of the projects answered,
/// each project taking away the first id equal to its own.
pub open spec fn cf_leftover(ids: Seq<i32>, projects: Seq<CurseForgeProject>) -> Seq<i32>
    decreases projects.len(),
{
    if projects.len() == 0 {
        ids
    } else {
        let rest = cf_leftover(ids, projects.drop_last());
        match first_position(rest, projects.last().id) {
            Some(i) => swap_removed(rest, i),
            None => rest,
        }
    }
}

/// Whether an id asked for is that project on Modrinth: its id, or its slug
/// ignoring ASCII case.
pub open spec fn mr_answers(id: Seq<char>, p: ModrinthProject) -> bool {
    id == p.id@ || eq_ignore_ascii_case_spec(p.slug@, id)
}

/// The first index of an id that `p` answers.
pub open spec fn mr_position(ids: Seq<Seq<char>>, p: ModrinthProject) -> Option<int> {
    if exists|i: int| 0 <= i < ids.len() && mr_answers(ids[i], p) {
        Some(
            choose|i: int|
                0 <= i < ids.len() && mr_answers(ids[i], p) && forall|j: int|
                    0 <= j < i ==> !mr_answers(ids[j], p),
        )
    } else {
        None
    }
}

/// The Modrinth ids asked for that none of the projects answered.
pub open spec fn mr_leftover(ids: Seq<Seq<char>>, projects: Seq<ModrinthProject>) -> Seq<Seq<char>>
    decreases projects.len(),
{
    if projects.len() == 0 {
        ids
    } else {
        let rest = mr_leftover(ids, projects.drop_last());
        match mr_position(rest, projects.last()) {
            Some(i) => swap_removed(rest, i),
            None => rest,
        }
    }
}

/// The smaller of two lengths.
pub open spec fn shorter(a: nat, b: nat) -> nat {
    if a <= b {
        a
    } else {
        b
    }
}

/// The CurseForge projects as candidates, each with the pin at its place.
pub open spec fn cf_candidates_spec(
    ps: Seq<CurseForgeProject>,
    pins: Seq<Option<i32>>,
    files: Seq<Option<CurseForgeFile>>,
    perform_checks: bool,
) -> Seq<CandidateView> {
    Seq::new(shorter(ps.len(), pins.len()), |i: int| cf_candidate(ps[i], pins[i], files, perform_checks))
}

/// The Modrinth projects as candidates, each with the pin at its place.
pub open spec fn mr_candidates_spec(
    ps: Seq<ModrinthProject>,
    pins: Seq<Option<Seq<char>>>,
    perform_checks: bool,
) -> Seq<CandidateView> {
    Seq::new(shorter(ps.len(), pins.len()), |i: int| mr_candidate(ps[i], pins[i], perform_checks))
}

/// The texts of optional strings.
pub open spec fn opt_views(v: Seq<Option<String>>) -> Seq<Option<Seq<char>>> {
    v.map_values(|o: Option<String>| opt_view(o))
}

/// The repositories as candidates, each with the pin at its place.
pub open spec fn gh_candidates_spec(rs: Seq<Repository>, pins: Seq<Option<i32>>, perform_checks: bool) -> Seq<CandidateView> {
    Seq::new(shorter(rs.len(), pins.len()), |i: int| gh_candidate(rs[i], pins[i], perform_checks))
}

/// The first index of `pid` in `ids`.
fn position_of(ids: &Vec<i32>, pid: i32) -> (r: Option<usize>)
    ensures
        r matches Some(i) ==> i < ids.len(),
        match r {
            Some(i) => first_position(ids@, pid) == Some(i as int),
            None => first_position(ids@, pid) is None,
        },
{
    let mut i: usize = 0;
    while i < ids.len()
        invariant
            i <= ids.len(),
            forall|j: int| 0 <= j < i ==> ids@[j] != pid,
        decreases ids.len() - i,
    {
        if ids[i] == pid {
            assert forall|k: int|
                0 <= k < ids.len() && ids@[k] == pid && (forall|j: int| 0 <= j < k ==> ids@[j] != pid) implies k == i by {
                if k > i {
                    assert(ids@[i as int] != pid);
                }
            }
            return Some(i);
        }
        i = i + 1;
    }
    None
}

/// The CurseForge projects as candidates; each takes its id out of `remaining`.
fn cf_candidates(
    projects: Vec<CurseForgeProject>,
    pins: &Vec<Option<i32>>,
    files: &Vec<Option<CurseForgeFile>>,
    perform_checks: bool,
    remaining: &mut Vec<i32>,
) -> (r: Vec<Candidate>)
    ensures
        candidate_views(r@) == cf_candidates_spec(projects@, pins@, files@, perform_checks),
        final(remaining)@ == cf_leftover(
            old(remaining)@,
            projects@.take(shorter(projects@.len(), pins@.len()) as int),
        ),
{
    let ghost ps = projects@;
    let ghost n = shorter(ps.len(), pins@.len());
    let mut rest = projects;
    let mut r: Vec<Candidate> = Vec::new();
    let mut i: usize = 0;
    assert(ps.take(0) =~= Seq::<CurseForgeProject>::empty());
    while i < pins.len() && rest.len() > 0
        invariant
            i <= pins.len(),
            i + rest.len() == ps.len(),
            rest@ == ps.skip(i as int),
            n == shorter(ps.len(), pins@.len()),
            candidate_views(r@) == cf_candidates_spec(ps, pins@, files@, perform_checks).take(i as int),
            remaining@ == cf_leftover(old(remaining)@, ps.take(i as int)),
        decreases rest.len(),
    {
        let ghost rest_before = rest@;
        let p = rest.remove(0);
        assert(p == ps[i as int]) by {
            assert(rest_before[0] == ps.skip(i as int)[0]);
        }
        assert(rest@ =~= ps.skip(i + 1));
        let ghost left = remaining@;
        assert(ps.take(i + 1).drop_last() =~= ps.take(i as int));
        assert(ps.take(i + 1).last() == p);
        match position_of(remaining, p.id) {
            Some(k) => {
                remaining.swap_remove(k);
            },
            None => {},
        }
        let ghost before = candidate_views(r@);
        let ghost all = cf_candidates_spec(ps, pins@, files@, perform_checks);
        assert(i < n);
        let c = cf_candidate_of(p, pins[i], files, perform_checks);
        assert(c@ == all[i as int]);
        r.push(c);
        assert(candidate_views(r@) =~= before.push(all[i as int]));
        assert(all.take(i + 1) =~= all.take(i as int).push(all[i as int]));
        i = i + 1;
    }
    assert(i == n);
    assert(candidate_views(r@) =~= cf_candidates_spec(ps, pins@, files@, perform_checks));
    r
}

/// The first index of an id that `p` answers.
fn mr_position_of(ids: &Vec<String>, p: &ModrinthProject) -> (r: Option<usize>)
    ensures
        r matches Some(i) ==> i < ids.len(),
        match r {
            Some(i) => mr_position(views(ids@), *p) == Some(i as int),
            None => mr_position(views(ids@), *p) is None,
        },
{
    let ghost vs = views(ids@);
    let mut i: usize = 0;
    while i < ids.len()
        invariant
            i <= ids.len(),
            vs == views(ids@),
            forall|j: int| 0 <= j < i ==> !mr_answers(vs[j], *p),
        decreases ids.len() - i,
    {
        assert(vs[i as int] == ids@[i as int]@);
        if str_eq(ids[i].as_str(), p.id.as_str()) || eq_ignore_ascii_case(p.slug.as_str(), ids[i].as_str()) {
            assert(mr_answers(vs[i as int], *p));
            assert forall|k: int|
                0 <= k < vs.len() && mr_answers(vs[k], *p) && (forall|j: int| 0 <= j < k ==> !mr_answers(vs[j], *p)) implies k == i by {
                if k > i {
                    assert(!mr_answers(vs[i as int], *p));
                }
            }
            return Some(i);
        }
        i = i + 1;
    }
    None
}

/// A copy of an optional string.
fn copy_opt(o: &Option<String>) -> (r: Option<String>)
    ensures
        opt_view(r) == opt_view(*o),
{
    match o {
        Some(s) => Some(copy_string(s)),
        None => None,
    }
}

/// The Modrinth projects as candidates; each takes the first id it answers
/// out of `remaining`.
fn mr_candidates(
    projects: Vec<ModrinthProject>,
    pins: &Vec<Option<String>>,
    perform_checks: bool,
    remaining: &mut Vec<String>,
) -> (r: Vec<Candidate>)
    ensures
        candidate_views(r@) == mr_candidates_spec(projects@, opt_views(pins@), perform_checks),
        views(final(remaining)@) == mr_leftover(
            views(old(remaining)@),
            projects@.take(shorter(projects@.len(), pins@.len()) as int),
        ),
{
    let ghost ps = projects@;
    let ghost n = shorter(ps.len(), pins@.len());
    let mut rest = projects;
    let mut r: Vec<Candidate> = Vec::new();
    let mut i: usize = 0;
    assert(ps.take(0) =~= Seq::<ModrinthProject>::empty());
    while i < pins.len() && rest.len() > 0
        invariant
            i <= pins.len(),
            i + rest.len() == ps.len(),
            rest@ == ps.skip(i as int),
            n == shorter(ps.len(), pins@.len()),
            candidate_views(r@) == mr_candidates_spec(ps, opt_views(pins@), perform_checks).take(
                i as int,
            ),
            views(remaining@) == mr_leftover(views(old(remaining)@), ps.take(i as int)),
        decreases rest.len(),
    {
        let ghost rest_before = rest@;
        let p = rest.remove(0);
        assert(p == ps[i as int]) by {
            assert(rest_before[0] == ps.skip(i as int)[0]);
        }
        assert(rest@ =~= ps.skip(i + 1));
        assert(ps.take(i + 1).drop_last() =~= ps.take(i as int));
        assert(ps.take(i + 1).last() == p);
        match mr_position_of(remaining, &p) {
            Some(k) => {
                let ghost left = remaining@;
                remaining.swap_remove(k);
                assert(views(remaining@) =~= swap_removed(views(left), k as int));
            },
            None => {},
        }
        let ghost before = candidate_views(r@);
        let ghost all = mr_candidates_spec(ps, opt_views(pins@), perform_checks);
        assert(i < n);
        let pin = copy_opt(&pins[i]);
        let c = mr_candidate_of(p, pin, perform_checks);
        assert(c@ == all[i as int]);
        r.push(c);
        assert(candidate_views(r@) =~= before.push(all[i as int]));
        assert(all.take(i + 1) =~= all.take(i as int).push(all[i as int]));
        i = i + 1;
    }
    assert(i == n);
    assert(candidate_views(r@) =~= mr_candidates_spec(ps, opt_views(pins@), perform_checks));
    r
}

/// The repositories as candidates.
fn gh_candidates(repos: Vec<Repository>, pins: &Vec<Option<i32>>, perform_checks: bool) -> (r: Vec<Candidate>)
    ensures
        candidate_views(r@) == gh_candidates_spec(repos@, pins@, perform_checks),
{
    let ghost rs = repos@;
    let ghost n = shorter(rs.len(), pins@.len());
    let mut rest = repos;
    let mut r: Vec<Candidate> = Vec::new();
    let mut i: usize = 0;
    while i < pins.len() && rest.len() > 0
        invariant
            i <= pins.len(),
            i + rest.len() == rs.len(),
            rest@ == rs.skip(i as int),
            n == shorter(rs.len(), pins@.len()),
            candidate_views(r@) == gh_candidates_spec(rs, pins@, perform_checks).take(i as int),
        decreases rest.len(),
    {
        let ghost rest_before = rest@;
        let repo = rest.remove(0);
        assert(repo == rs[i as int]) by {
            assert(rest_before[0] == rs.skip(i as int)[0]);
        }
        assert(rest@ =~= rs.skip(i + 1));
        let ghost before = candidate_views(r@);
        let ghost all = gh_candidates_spec(rs, pins@, perform_checks);
        assert(i < n);
        let c = gh_candidate_of(repo, pins[i], perform_checks);
        assert(c@ == all[i as int]);
        r.push(c);
        assert(candidate_views(r@) =~= before.push(all[i as int]));
        assert(all.take(i + 1) =~= all.take(i as int).push(all[i as int]));
        i = i + 1;
    }
    assert(i == n);
    assert(candidate_views(r@) =~= gh_candidates_spec(rs, pins@, perform_checks));
    r
}

/// What the platforms answered for the projects asked for.
#[derive(Debug)]
pub struct Fetched {
    /// The CurseForge projects, in the order CurseForge gave them
    pub cf_projects: Vec<CurseForgeProject>,
    /// The CurseForge files the pins asked for
    pub cf_files: Vec<Option<CurseForgeFile>>,
    /// The Modrinth projects, in the order Modrinth gave them
    pub mr_projects: Vec<ModrinthProject>,
    /// The GitHub repositories found, in the order they came
    pub gh_repos: Vec<Repository>,
    /// The errors GitHub answered, each with the repository it is about
    pub gh_errors: Vec<(String, Error)>,
}

/// The CurseForge ids that no project answered, as errors.
pub open spec fn cf_missing(ids: Seq<i32>) -> Seq<(Seq<char>, Problem)> {
    ids.map_values(|id: i32| (i32_decimal(id), Problem::DoesNotExist))
}

/// The Modrinth ids that no project answered, as errors.
pub open spec fn mr_missing(ids: Seq<Seq<char>>) -> Seq<(Seq<char>, Problem)> {
    ids.map_values(|id: Seq<char>| (id, Problem::DoesNotExist))
}

/// `st` with `more` errors.
pub open spec fn with_errors(st: AddState, more: Seq<(Seq<char>, Problem)>) -> AddState {
    AddState { errors: st.errors + more, ..st }
}

/// What adding the projects that `ids` names does, given what the platforms
/// answered: the CurseForge projects are looked at first, then the ids that
/// no CurseForge project answered are errors; then the same for Modrinth;
/// then the GitHub repositories. The check of CurseForge and Modrinth
/// projects runs only the filters on game versions and mod loaders.
pub open spec fn add_outcome(
    mods: Seq<ModView>,
    ids: Seq<ModIdentifierView>,
    f: Fetched,
    perform_checks: bool,
    override_profile: bool,
    profile_filters: Seq<FilterView>,
    filters: Seq<FilterView>,
    groups: Seq<Seq<Seq<char>>>,
    groups_ok: bool,
) -> AddState {
    let cf_req = cf_requests(ids);
    let mr_req = mr_requests(ids);
    let gh_req = gh_requests(ids);
    let cf_set = AddSettings {
        check_filters: check_filters_spec(profile_filters, filters, override_profile, true),
        groups,
        groups_ok,
        filters,
        override_filters: override_profile,
    };
    let gh_set = AddSettings {
        check_filters: check_filters_spec(profile_filters, filters, override_profile, false),
        ..cf_set
    };
    let cf_n = shorter(f.cf_projects@.len(), cf_req.len());
    let mr_n = shorter(f.mr_projects@.len(), mr_req.len());
    let s0 = AddState { mods, added: Seq::empty(), errors: Seq::empty() };
    let s1 = add_run(
        s0,
        cf_candidates_spec(
            f.cf_projects@,
            cf_req.map_values(|q: (i32, Option<i32>)| q.1),
            f.cf_files@,
            perform_checks,
        ),
        cf_set,
    );
    let s1b = with_errors(
        s1,
        cf_missing(
            cf_leftover(
                cf_req.map_values(|q: (i32, Option<i32>)| q.0),
                f.cf_projects@.take(cf_n as int),
            ),
        ),
    );
    let s2 = add_run(
        s1b,
        mr_candidates_spec(
            f.mr_projects@,
            mr_req.map_values(|q: (Seq<char>, Option<Seq<char>>)| q.1),
            perform_checks,
        ),
        cf_set,
    );
    let s2b = with_errors(
        s2,
        mr_missing(
            mr_leftover(
                mr_req.map_values(|q: (Seq<char>, Option<Seq<char>>)| q.0),
                f.mr_projects@.take(mr_n as int),
            ),
        ),
    );
    add_run(
        s2b,
        gh_candidates_spec(
            f.gh_repos@,
            gh_req.map_values(|q: (Seq<char>, Seq<char>, Option<i32>)| q.2),
            perform_checks,
        ),
        gh_set,
    )
}

/// Appends an error "does not exist" for each CurseForge id.
fn push_cf_missing(ids: &Vec<i32>, errors: &mut Vec<(String, Error)>, Ghost(known): Ghost<Seq<(Seq<char>, Problem)>>)
    requires
        errors_tell(old(errors)@, known),
    ensures
        errors_tell(final(errors)@, known + cf_missing(ids@)),
{
    let mut i: usize = 0;
    while i < ids.len()
        invariant
            i <= ids.len(),
            errors_tell(errors@, known + cf_missing(ids@.take(i as int))),
        decreases ids.len() - i,
    {
        let ghost before = errors@;
        errors.push((i32_to_string(ids[i]), Error::DoesNotExist));
        assert(known + cf_missing(ids@.take(i + 1)) =~= (known + cf_missing(ids@.take(i as int))).push(
            (i32_decimal(ids@[i as int]), Problem::DoesNotExist),
        ));
        assert(errors_tell(errors@, known + cf_missing(ids@.take(i + 1)))) by {
            assert forall|k: int| 0 <= k < errors@.len() implies (#[trigger] errors@[k]).0@ == (known
                + cf_missing(ids@.take(i + 1)))[k].0 && error_is(
                errors@[k].1,
                (known + cf_missing(ids@.take(i + 1)))[k].1,
            ) by {
                if k < before.len() {
                    assert(errors@[k] == before[k]);
                }
            }
        }
        i = i + 1;
    }
    assert(ids@.take(ids.len() as int) =~= ids@);
}

/// Appends an error "does not exist" for each Modrinth id.
fn push_mr_missing(ids: Vec<String>, errors: &mut Vec<(String, Error)>, Ghost(known): Ghost<Seq<(Seq<char>, Problem)>>)
    requires
        errors_tell(old(errors)@, known),
    ensures
        errors_tell(final(errors)@, known + mr_missing(views(ids@))),
{
    let ghost all = views(ids@);
    assert(all.len() == ids.len());
    let mut rest = ids;
    let mut i: usize = 0;
    while rest.len() > 0
        invariant
            i + rest.len() == all.len(),
            all.len() <= usize::MAX,
            views(rest@) == all.skip(i as int),
            errors_tell(errors@, known + mr_missing(all.take(i as int))),
        decreases rest.len(),
    {
        let ghost before = errors@;
        let ghost rest_before = rest@;
        let id = rest.remove(0);
        assert(id@ == all[i as int]) by {
            assert(views(rest_before)[0] == all.skip(i as int)[0]);
        }
        assert(rest@ =~= rest_before.skip(1));
        assert(views(rest@) =~= views(rest_before).skip(1));
        assert(views(rest@) =~= all.skip(i + 1));
        errors.push((id, Error::DoesNotExist));
        assert(known + mr_missing(all.take(i + 1)) =~= (known + mr_missing(all.take(i as int))).push(
            (all[i as int], Problem::DoesNotExist),
        ));
        assert(errors_tell(errors@, known + mr_missing(all.take(i + 1)))) by {
            assert forall|k: int| 0 <= k < errors@.len() implies (#[trigger] errors@[k]).0@ == (known
                + mr_missing(all.take(i + 1)))[k].0 && error_is(
                errors@[k].1,
                (known + mr_missing(all.take(i + 1)))[k].1,
            ) by {
                if k < before.len() {
                    assert(errors@[k] == before[k]);
                }
            }
        }
        i = i + 1;
    }
    assert(all.take(i as int) =~= all);
}

/// Adds the projects that `identifiers` names to `profile`, given what the
/// platforms answered for them (see `classify` for what to ask), and returns
/// the projects added with their names, and those not added with an error.
/// A project is not added where the profile has a mod of its name (ignoring
/// ASCII case) or of the same project, where the platform refuses it, or
/// where it is no project the platform found. Where `perform_checks` holds, an
/// unpinned project is checked against the filters, and one that is not
/// compatible is not added either: its error tells why, and the others go on.
pub fn add(
    profile: &mut Profile,
    identifiers: Vec<ModIdentifier>,
    perform_checks: bool,
    override_profile: bool,
    filters: Vec<Filter>,
    fetched: Fetched,
    version_groups: &Result<Vec<Vec<String>>, String>,
) -> (r: (Vec<(String, ModIdentifier)>, Vec<(String, Error)>))
    ensures
        ({
            let out = add_outcome(
                mod_views(old(profile).mods@),
                identifier_views(identifiers@),
                fetched,
                perform_checks,
                override_profile,
                filter_views(old(profile).filters@),
                filter_views(filters@),
                groups_view(*version_groups),
                version_groups is Ok,
            );
            &&& mod_views(final(profile).mods@) == out.mods
            &&& added_views(r.0@) == out.added
            &&& r.1@.take(fetched.gh_errors@.len() as int) == fetched.gh_errors@
            &&& errors_tell(r.1@.skip(fetched.gh_errors@.len() as int), out.errors)
        }),
        final(profile).name == old(profile).name,
        final(profile).output_dir == old(profile).output_dir,
        final(profile).filters == old(profile).filters,
        final(profile).game_version == old(profile).game_version,
        final(profile).mod_loader == old(profile).mod_loader,
{
    let ghost ids = identifier_views(identifiers@);
    let ghost f0 = fetched;
    let ghost mods0 = mod_views(profile.mods@);
    let req = classify(&identifiers);
    let Requests { cf_project_ids, cf_file_ids, mr_project_ids, mr_version_ids, gh_repo_ids: _, gh_asset_ids } = req;
    let Fetched { cf_projects, cf_files, mr_projects, gh_repos, gh_errors } = fetched;
    let compat = check_filters(&profile.filters, &filters, override_profile, true);
    let every = check_filters(&profile.filters, &filters, override_profile, false);
    let ghost cf_set = AddSettings {
        check_filters: filter_views(compat@),
        groups: groups_view(*version_groups),
        groups_ok: version_groups is Ok,
        filters: filter_views(filters@),
        override_filters: override_profile,
    };
    let ghost gh_set = AddSettings { check_filters: filter_views(every@), ..cf_set };
    let ghost s0 = AddState { mods: mods0, added: Seq::empty(), errors: Seq::empty() };
    let mut added: Vec<(String, ModIdentifier)> = Vec::new();
    let mut errors: Vec<(String, Error)> = Vec::new();
    assert(added_views(added@) =~= Seq::<(Seq<char>, ModIdentifierView)>::empty());
    // CurseForge
    let mut cf_left = cf_project_ids;
    let cf = cf_candidates(cf_projects, &cf_file_ids, &cf_files, perform_checks, &mut cf_left);
    let ghost s1 = add_run(s0, candidate_views(cf@), cf_set);
    add_candidates(
        profile,
        cf,
        &compat,
        version_groups,
        &filters,
        override_profile,
        &mut added,
        &mut errors,
        Ghost(Seq::empty()),
    );
    push_cf_missing(&cf_left, &mut errors, Ghost(s1.errors));
    let ghost s1b = with_errors(s1, cf_missing(cf_left@));
    // Modrinth
    let mut mr_left = mr_project_ids;
    let mr = mr_candidates(mr_projects, &mr_version_ids, perform_checks, &mut mr_left);
    let ghost s2 = add_run(s1b, candidate_views(mr@), cf_set);
    add_candidates(
        profile,
        mr,
        &compat,
        version_groups,
        &filters,
        override_profile,
        &mut added,
        &mut errors,
        Ghost(s1b.errors),
    );
    let ghost mr_left_view = views(mr_left@);
    push_mr_missing(mr_left, &mut errors, Ghost(s2.errors));
    let ghost s2b = with_errors(s2, mr_missing(mr_left_view));
    // GitHub
    let gh = gh_candidates(gh_repos, &gh_asset_ids, perform_checks);
    let ghost s3 = add_run(s2b, candidate_views(gh@), gh_set);
    add_candidates(
        profile,
        gh,
        &every,
        version_groups,
        &filters,
        override_profile,
        &mut added,
        &mut errors,
        Ghost(s2b.errors),
    );
    // The errors GitHub answered come first.
    let ghost k = gh_errors@.len();
    let mut all = gh_errors;
    let ghost head = all@;
    let ghost tail = errors@;
    let mut rest = errors;
    while rest.len() > 0
        invariant
            all@ + rest@ == head + tail,
            all@.len() >= head.len(),
        decreases rest.len(),
    {
        let ghost all_before = all@;
        let ghost rest_before = rest@;
        let e = rest.remove(0);
        all.push(e);
        assert(all@ + rest@ =~= all_before + rest_before);
    }
    assert(all@ =~= head + tail);
    assert(all@.take(k as int) =~= head);
    assert(all@.skip(k as int) =~= tail);
    (added, all)
}

/// Adding keeps the mods a profile had, and never brings in a mod of a project
/// that the profile already has: every mod that the additions append names a
/// project that no mod before it names.
pub proof fn lemma_add_run_no_repeat(st: AddState, cs: Seq<CandidateView>, set: AddSettings)
    ensures
        add_run(st, cs, set).mods.len() >= st.mods.len(),
        add_run(st, cs, set).mods.take(st.mods.len() as int) == st.mods,
        forall|i: int, j: int|
            0 <= i < j < add_run(st, cs, set).mods.len() && j >= st.mods.len() ==> !same_project(
                #[trigger] add_run(st, cs, set).mods[i].identifier,
                #[trigger] add_run(st, cs, set).mods[j].identifier,
            ),
    decreases cs.len(),
{
    if cs.len() == 0 {
        assert(st.mods.take(st.mods.len() as int) =~= st.mods);
    } else {
        lemma_add_run_no_repeat(st, cs.drop_last(), set);
        let before = add_run(st, cs.drop_last(), set);
        let after = add_run(st, cs, set);
        let c = cs.last();
        if !already_added(before.mods, c.match_name, c.identifier) && c.refusal is None
            && !(c.check matches Some(files) && !select_ok(files, set.check_filters, set.groups, set.groups_ok)) {
            assert(after.mods == before.mods.push(after.mods.last()));
            assert(after.mods.take(st.mods.len() as int) =~= before.mods.take(st.mods.len() as int));
            assert forall|i: int, j: int|
                0 <= i < j < after.mods.len() && j >= st.mods.len() implies !same_project(
                    #[trigger] after.mods[i].identifier,
                    #[trigger] after.mods[j].identifier,
                ) by {
                if j == after.mods.len() - 1 {
                    assert(after.mods[i] == before.mods[i]);
                    assert(!(eq_ignore_ascii_case_spec(before.mods[i].name, c.match_name)
                        || same_project(before.mods[i].identifier, c.identifier)));
                } else {
                    assert(after.mods[i] == before.mods[i]);
                    assert(after.mods[j] == before.mods[j]);
                }
            }
        }
    }
}

/// A project whose name (ignoring ASCII case) or project a mod of the profile
/// already has is not added: the profile stays as it was, and the error says
/// it has already been added.
pub proof fn lemma_already_added_refused(st: AddState, c: CandidateView, set: AddSettings)
    requires
        already_added(st.mods, c.match_name, c.identifier),
    ensures
        add_step(st, c, set).mods == st.mods,
        add_step(st, c, set).added == st.added,
        add_step(st, c, set).errors == st.errors.push((c.error_name, Problem::AlreadyAdded)),
{
}

/// Every mod loader that an entry of the index names is among the loaders
/// read from the index.
proof fn lemma_index_loaders_hold(ix: Seq<FileIndex>, k: int, l: ModLoader)
    requires
        0 <= k < ix.len(),
        ix[k].mod_loader matches Some(n) && parse_mod_loader(n@) == Ok::<ModLoader, ModLoaderParseError>(l),
    ensures
        index_loaders(ix).contains(l),
    decreases ix.len(),
{
    let rest = index_loaders(ix.drop_last());
    if k < ix.len() - 1 {
        assert(ix.drop_last()[k] == ix[k]);
        lemma_index_loaders_hold(ix.drop_last(), k, l);
        let q = choose|q: int| 0 <= q < rest.len() && rest[q] == l;
        match ix.last().mod_loader {
            Some(n) => match parse_mod_loader(n@) {
                Ok(m) => {
                    assert(rest.push(m)[q] == l);
                },
                Err(_) => {},
            },
            None => {},
        }
    } else {
        assert(index_loaders(ix) == rest.push(l));
        assert(rest.push(l)[rest.len() as int] == l);
    }
}

/// The compatibility check of an unpinned CurseForge project looks at one
/// file that holds every game version and every mod loader its latest file
/// indexes name: a project whose index lists a game version and a loader
/// passes the filters on that version and on that loader.
pub proof fn lemma_cf_check_holds_indexes(
    p: CurseForgeProject,
    files: Seq<Option<CurseForgeFile>>,
    k: int,
    l: ModLoader,
    groups: Seq<Seq<Seq<char>>>,
)
    requires
        0 <= k < p.latest_files_indexes@.len(),
        p.latest_files_indexes@[k].mod_loader matches Some(n) && parse_mod_loader(n@) == Ok::<ModLoader, ModLoaderParseError>(l),
    ensures
        cf_candidate(p, None, files, true).check matches Some(cs) && cs.len() == 1 && {
            let f = cs[0];
            &&& f.game_versions.contains(p.latest_files_indexes@[k].game_version@)
            &&& f.loaders.contains(l)
            &&& plain_accepts(FilterView::GameVersionStrict(seq![p.latest_files_indexes@[k].game_version@]), f, groups)
            &&& plain_accepts(FilterView::ModLoaderAny(seq![l]), f, groups)
        },
{
    let ix = p.latest_files_indexes@;
    let f = cf_check_file(p);
    lemma_index_loaders_hold(ix, k, l);
    assert(f.game_versions[k] == ix[k].game_version@);
    let g = ix[k].game_version@;
    assert(seq![g][0] == g);
    assert(shares(seq![g], f.game_versions));
    assert(seq![l][0] == l);
    assert(any_loader(seq![l], f));
}

} // verus!

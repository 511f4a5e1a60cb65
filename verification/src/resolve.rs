//! Adding the dependencies of an added project, one at a time: which project
//! to fetch and check next, which optional one to ask the user about, what is
//! added to the profile, and when the whole addition fails.
//!
//! The resolver walks the dependencies depth first: once a dependency is added,
//! its own dependencies are handled before the ones after it. It does no I/O:
//! the caller performs each `Action` and hands back the matching `Event`.
use crate::config::structs::{Mod, ModIdentifier, ModIdentifierView};
use crate::text::{copy_string, str_eq, trim, trim_spec};
use vstd::prelude::*;

verus! {

/// Which dependencies are added along with a project.
#[derive(Debug, Clone, Copy, PartialEq, Eq, Structural)]
pub enum DependencyLevel {
    /// No dependencies (`None` on the command line)
    NoDependencies,
    /// Only the required ones
    Required,
    /// Required and optional ones, without asking
    All,
}

/// How a project depends on another.
#[derive(Debug, Clone, Copy, PartialEq, Eq, Structural)]
pub enum Relation {
    Required,
    Optional,
    /// Embedded, incompatible, a tool, ...: never added
    Other,
}

/// A project on one of the two platforms.
pub enum ProjectRef {
    Modrinth(String),
    CurseForge(i32),
}

pub enum ProjectRefView {
    Modrinth(Seq<char>),
    CurseForge(i32),
}

impl View for ProjectRef {
    type V = ProjectRefView;

    open spec fn view(&self) -> ProjectRefView {
        match self {
            ProjectRef::Modrinth(id) => ProjectRefView::Modrinth(id@),
            ProjectRef::CurseForge(id) => ProjectRefView::CurseForge(*id),
        }
    }
}

impl ProjectRef {
    pub fn duplicate(&self) -> (r: ProjectRef)
        ensures
            r@ == self@,
    {
        match self {
            ProjectRef::Modrinth(id) => ProjectRef::Modrinth(copy_string(id)),
            ProjectRef::CurseForge(id) => ProjectRef::CurseForge(*id),
        }
    }
}

/// What a dependency points at: a project, a version of a Modrinth project
/// (whose project has to be looked up), or nothing.
pub enum Target {
    Project(ProjectRef),
    Version(String),
    Missing,
}

pub enum TargetView {
    Project(ProjectRefView),
    Version(Seq<char>),
    Missing,
}

impl View for Target {
    type V = TargetView;

    open spec fn view(&self) -> TargetView {
        match self {
            Target::Project(p) => TargetView::Project(p@),
            Target::Version(v) => TargetView::Version(v@),
            Target::Missing => TargetView::Missing,
        }
    }
}

pub struct Dependency {
    pub target: Target,
    pub relation: Relation,
}

impl View for Dependency {
    type V = (TargetView, Relation);

    open spec fn view(&self) -> (TargetView, Relation) {
        (self.target@, self.relation)
    }
}

pub open spec fn dependency_views(ds: Seq<Dependency>) -> Seq<(TargetView, Relation)> {
    ds.map_values(|d: Dependency| d@)
}

/// The dependencies of one added project, and how far they were handled.
pub struct Frame {
    pub deps: Vec<Dependency>,
    /// The dependency handled now
    pub next: usize,
    /// The checks its dependencies are added with
    pub check_game_version: Option<bool>,
    pub check_mod_loader: Option<bool>,
    /// The name of the project they are shown as dependencies of
    pub parent: String,
}

pub struct FrameView {
    pub deps: Seq<(TargetView, Relation)>,
    pub next: int,
    pub game: Option<bool>,
    pub loader: Option<bool>,
    pub parent: Seq<char>,
}

impl View for Frame {
    type V = FrameView;

    open spec fn view(&self) -> FrameView {
        FrameView {
            deps: dependency_views(self.deps@),
            next: self.next as int,
            game: self.check_game_version,
            loader: self.check_mod_loader,
            parent: self.parent@,
        }
    }
}

pub open spec fn frame_views(fs: Seq<Frame>) -> Seq<FrameView> {
    fs.map_values(|f: Frame| f@)
}

/// What the resolver waits for.
pub enum Pending {
    /// The project of the Modrinth version that the current dependency names
    Version,
    /// The result of checking a project; `optional` for an optional dependency
    Check { project: ProjectRef, optional: bool },
    /// The user's answer on whether to add a compatible optional dependency
    Confirm { project: ProjectRef, name: String, deps: Vec<Dependency> },
    /// Nothing: every dependency was handled
    Done,
    /// Nothing: the addition failed with this message
    Failed(String),
}

pub enum PendingView {
    Version,
    Check { project: ProjectRefView, optional: bool },
    Confirm { project: ProjectRefView, name: Seq<char>, deps: Seq<(TargetView, Relation)> },
    Done,
    Failed(Seq<char>),
}

impl View for Pending {
    type V = PendingView;

    open spec fn view(&self) -> PendingView {
        match self {
            Pending::Version => PendingView::Version,
            Pending::Check { project, optional } => PendingView::Check { project: project@, optional: *optional },
            Pending::Confirm { project, name, deps } => PendingView::Confirm {
                project: project@,
                name: name@,
                deps: dependency_views(deps@),
            },
            Pending::Done => PendingView::Done,
            Pending::Failed(m) => PendingView::Failed(m@),
        }
    }
}

/// What the result of checking a project was.
pub enum Checked {
    /// It can be added: its name, and the dependencies of the file that would
    /// be downloaded
    Compatible { name: String, deps: Vec<Dependency> },
    /// It is already in the profile
    AlreadyAdded,
    /// It cannot be added, for this reason
    Failed(String),
}

pub enum CheckedView {
    Compatible { name: Seq<char>, deps: Seq<(TargetView, Relation)> },
    AlreadyAdded,
    Failed(Seq<char>),
}

impl View for Checked {
    type V = CheckedView;

    open spec fn view(&self) -> CheckedView {
        match self {
            Checked::Compatible { name, deps } => CheckedView::Compatible {
                name: name@,
                deps: dependency_views(deps@),
            },
            Checked::AlreadyAdded => CheckedView::AlreadyAdded,
            Checked::Failed(m) => CheckedView::Failed(m@),
        }
    }
}

/// What the caller reports back.
pub enum Event {
    /// The project of the version asked for
    ProjectFound(String),
    /// The project asked for was fetched and checked
    Checked(Checked),
    /// The user answered whether to add the optional dependency
    Answered(bool),
    /// Fetching from the platform failed, with this message
    FetchFailed(String),
}

pub enum EventView {
    ProjectFound(Seq<char>),
    Checked(CheckedView),
    Answered(bool),
    FetchFailed(Seq<char>),
}

impl View for Event {
    type V = EventView;

    open spec fn view(&self) -> EventView {
        match self {
            Event::ProjectFound(p) => EventView::ProjectFound(p@),
            Event::Checked(c) => EventView::Checked(c@),
            Event::Answered(b) => EventView::Answered(*b),
            Event::FetchFailed(m) => EventView::FetchFailed(m@),
        }
    }
}

/// On Quilt, the Fabric API and Fabric Language Kotlin are replaced by their
/// Quilt counterparts.
pub open spec fn substitute(p: ProjectRefView, quilt: bool) -> ProjectRefView {
    if !quilt {
        p
    } else {
        match p {
            ProjectRefView::Modrinth(id) => ProjectRefView::Modrinth(
                if id == "P7dR8mSH"@ {
                    "qvIfYCYJ"@
                } else if id == "Ha28R6CL"@ {
                    "lwVhp9o5"@
                } else {
                    id
                },
            ),
            ProjectRefView::CurseForge(id) => ProjectRefView::CurseForge(
                if id == 306612 {
                    634179
                } else if id == 308769 {
                    720410
                } else {
                    id
                },
            ),
        }
    }
}

/// Whether a dependency of this relation is checked, at this level: `Some` of
/// whether it is optional, or `None` where it is passed over. Required ones
/// always are; optional ones with all dependencies, or when no level was
/// given (then the user is asked).
pub open spec fn wanted(relation: Relation, level: Option<DependencyLevel>) -> Option<bool> {
    if relation == Relation::Required {
        Some(false)
    } else if relation == Relation::Optional && (level is None || level == Some(DependencyLevel::All)) {
        Some(true)
    } else {
        None
    }
}

/// The frames with the current dependency of the last one passed over.
pub open spec fn skip(frames: Seq<FrameView>) -> Seq<FrameView>
    recommends
        frames.len() > 0,
{
    let top = frames.last();
    frames.update(frames.len() - 1, FrameView { next: top.next + 1, ..top })
}

/// Moves on to the next dependency that needs the caller: frames whose
/// dependencies are all handled are left, as is a frame at a dependency that
/// points at nothing (the rest of that frame is passed over too); dependencies
/// that are not wanted are passed over.
pub open spec fn advance(frames: Seq<FrameView>, level: Option<DependencyLevel>, quilt: bool) -> (Seq<FrameView>, PendingView)
    decreases frames.len(), (if frames.len() > 0 {
        frames.last().deps.len() - frames.last().next
    } else {
        0
    }),
{
    if frames.len() == 0 {
        (frames, PendingView::Done)
    } else {
        let top = frames.last();
        if top.next < 0 || top.next >= top.deps.len() {
            advance(frames.drop_last(), level, quilt)
        } else {
            let (target, relation) = top.deps[top.next];
            match target {
                TargetView::Missing => advance(frames.drop_last(), level, quilt),
                TargetView::Version(_) => (frames, PendingView::Version),
                TargetView::Project(p) => match wanted(relation, level) {
                    Some(optional) => (frames, PendingView::Check { project: substitute(p, quilt), optional }),
                    None => {
                        proof {
                            assert(skip(frames).drop_last() =~= frames.drop_last());
                        }
                        advance(skip(frames), level, quilt)
                    },
                },
            }
        }
    }
}

/// The check flags a dependency is added with: `Some(true)` is the default and
/// is kept as `None`.
pub open spec fn check_override(b: Option<bool>) -> Option<bool> {
    if b == Some(true) {
        None
    } else {
        b
    }
}

/// The identifier a project is added with.
pub open spec fn project_identifier(p: ProjectRefView) -> ModIdentifierView {
    match p {
        ProjectRefView::Modrinth(id) => ModIdentifierView::ModrinthProject(id),
        ProjectRefView::CurseForge(id) => ModIdentifierView::CurseForgeProject(id),
    }
}

/// The whole state of a resolver.
pub struct ResolverView {
    pub frames: Seq<FrameView>,
    pub pending: PendingView,
    pub level: Option<DependencyLevel>,
    pub quilt: bool,
    pub modrinth: bool,
}

/// The frames once a project was added: the current dependency is handled,
/// and the project's own dependencies, if it has any, come next. On Modrinth
/// they are checked with the two flags exchanged, and an optional dependency's
/// own dependencies are shown under its name; on CurseForge both stay.
pub open spec fn after_adding(
    s: ResolverView,
    name: Seq<char>,
    deps: Seq<(TargetView, Relation)>,
    optional: bool,
) -> Seq<FrameView> {
    let top = s.frames.last();
    let done = skip(s.frames);
    if deps.len() == 0 {
        done
    } else {
        done.push(
            FrameView {
                deps,
                next: 0,
                game: if s.modrinth {
                    top.loader
                } else {
                    top.game
                },
                loader: if s.modrinth {
                    top.game
                } else {
                    top.loader
                },
                parent: if s.modrinth && optional {
                    name
                } else {
                    top.parent
                },
            },
        )
    }
}

/// The state after the caller's event, and the project added to the profile
/// on the way, if any: its identifier, its name, and the check flags of the
/// frame it was a dependency in.
pub open spec fn handle(s: ResolverView, e: EventView) -> (ResolverView, Option<(ProjectRefView, Seq<char>, Option<bool>, Option<bool>)>) {
    let top = s.frames.last();
    let added = |p: ProjectRefView, name: Seq<char>| Some((p, name, top.game, top.loader));
    let moved = |frames: Seq<FrameView>| {
        let (f, pending) = advance(frames, s.level, s.quilt);
        ResolverView { frames: f, pending, ..s }
    };
    match (s.pending, e) {
        (_, EventView::FetchFailed(m)) => if s.pending is Version || s.pending is Check {
            (ResolverView { pending: PendingView::Failed(m), ..s }, None)
        } else {
            (s, None)
        },
        (PendingView::Version, EventView::ProjectFound(pid)) => match wanted(top.deps[top.next].1, s.level) {
            Some(optional) => (
                ResolverView {
                    pending: PendingView::Check {
                        project: substitute(ProjectRefView::Modrinth(pid), s.quilt),
                        optional,
                    },
                    ..s
                },
                None,
            ),
            None => (moved(skip(s.frames)), None),
        },
        (PendingView::Check { project, optional }, EventView::Checked(c)) => match c {
            CheckedView::Compatible { name, deps } => if !optional || s.level == Some(
                DependencyLevel::All,
            ) {
                (moved(after_adding(s, name, deps, optional)), added(project, name))
            } else {
                (ResolverView { pending: PendingView::Confirm { project, name, deps }, ..s }, None)
            },
            CheckedView::AlreadyAdded => (moved(skip(s.frames)), None),
            CheckedView::Failed(m) => if optional {
                (moved(skip(s.frames)), None)
            } else {
                (ResolverView { pending: PendingView::Failed(m), ..s }, None)
            },
        },
        (PendingView::Confirm { project, name, deps }, EventView::Answered(yes)) => if yes {
            (moved(after_adding(s, name, deps, true)), added(project, name))
        } else {
            (moved(skip(s.frames)), None)
        },
        _ => (s, None),
    }
}

/// Whether the state is one the resolver can be in: while it waits on the
/// caller, the last frame is at one of its dependencies, and while it waits
/// for the project of a version, that dependency names a version.
pub open spec fn resolver_wf(s: ResolverView) -> bool {
    let top = s.frames.last();
    match s.pending {
        PendingView::Version => s.frames.len() > 0 && 0 <= top.next < top.deps.len() && top.deps[top.next].0 is Version,
        PendingView::Check { .. } => s.frames.len() > 0 && 0 <= top.next < top.deps.len(),
        PendingView::Confirm { .. } => s.frames.len() > 0 && 0 <= top.next < top.deps.len(),
        _ => true,
    }
}

/// `advance` stops at a dependency of the last frame, or when no frame is left.
pub proof fn lemma_advance_wf(frames: Seq<FrameView>, level: Option<DependencyLevel>, quilt: bool)
    ensures
        ({
            let (f, p) = advance(frames, level, quilt);
            &&& p is Version || p is Check || p is Done
            &&& p is Version ==> f.len() > 0 && 0 <= f.last().next < f.last().deps.len()
                && f.last().deps[f.last().next].0 is Version
            &&& p is Check ==> f.len() > 0 && 0 <= f.last().next < f.last().deps.len()
            &&& p is Done ==> f.len() == 0
        }),
    decreases frames.len(), (if frames.len() > 0 {
        frames.last().deps.len() - frames.last().next
    } else {
        0
    }),
{
    if frames.len() > 0 {
        let top = frames.last();
        if top.next < 0 || top.next >= top.deps.len() {
            lemma_advance_wf(frames.drop_last(), level, quilt);
        } else {
            let (target, relation) = top.deps[top.next];
            match target {
                TargetView::Missing => lemma_advance_wf(frames.drop_last(), level, quilt),
                TargetView::Version(_) => {},
                TargetView::Project(p) => match wanted(relation, level) {
                    Some(_) => {},
                    None => {
                        assert(skip(frames).drop_last() =~= frames.drop_last());
                        lemma_advance_wf(skip(frames), level, quilt);
                    },
                },
            }
        }
    }
}

/// Once the resolver is done or has failed, no event changes it or adds anything.
pub proof fn lemma_finished_stays(s: ResolverView, e: EventView)
    requires
        s.pending is Done || s.pending is Failed,
    ensures
        handle(s, e) == (s, Option::<(ProjectRefView, Seq<char>, Option<bool>, Option<bool>)>::None),
{
}

/// A required dependency that cannot be added fails the whole addition, and
/// adds nothing.
pub proof fn lemma_required_failure_fails(s: ResolverView, project: ProjectRefView, m: Seq<char>)
    requires
        s.pending == (PendingView::Check { project, optional: false }),
    ensures
        handle(s, EventView::Checked(CheckedView::Failed(m))).0.pending == PendingView::Failed(m),
        handle(s, EventView::Checked(CheckedView::Failed(m))).1 is None,
{
}

/// A project that is already in the profile is not added again, and the
/// resolver moves on.
pub proof fn lemma_already_added_moves_on(s: ResolverView)
    requires
        s.pending is Check,
    ensures
        handle(s, EventView::Checked(CheckedView::AlreadyAdded)).1 is None,
        handle(s, EventView::Checked(CheckedView::AlreadyAdded)).0.frames == advance(skip(s.frames), s.level, s.quilt).0,
{
}

/// The mod that a project is added to the profile as: its name trimmed, and
/// the check flags kept only where they are not the default.
pub open spec fn is_added_mod(m: Mod, identifier: ModIdentifierView, name: Seq<char>, game: Option<bool>, loader: Option<bool>) -> bool {
    &&& m.name@ == trim_spec(name)
    &&& m.identifier@ == identifier
    &&& m.slug is None
    &&& m.filters@.len() == 0
    &&& !m.override_filters
    &&& m.check_game_version == check_override(game)
    &&& m.check_mod_loader == check_override(loader)
}

/// How the mods of the profile change: unchanged, or with the added project
/// pushed at the end.
pub open spec fn mods_after(
    before: Seq<Mod>,
    after: Seq<Mod>,
    added: Option<(ProjectRefView, Seq<char>, Option<bool>, Option<bool>)>,
) -> bool {
    match added {
        None => after == before,
        Some((p, name, game, loader)) => {
            &&& after.len() == before.len() + 1
            &&& after.drop_last() == before
            &&& is_added_mod(after.last(), project_identifier(p), name, game, loader)
        },
    }
}

/// The mod that a project is added to the profile as.
pub fn added_project(name: &str, identifier: ModIdentifier, check_game_version: Option<bool>, check_mod_loader: Option<bool>) -> (r: Mod)
    ensures
        is_added_mod(r, identifier@, name@, check_game_version, check_mod_loader),
{
    let game = match check_game_version {
        Some(true) => None,
        other => other,
    };
    let loader = match check_mod_loader {
        Some(true) => None,
        other => other,
    };
    Mod {
        name: trim(name),
        identifier,
        slug: None,
        filters: Vec::new(),
        override_filters: false,
        check_game_version: game,
        check_mod_loader: loader,
    }
}

/// What the caller is to do next.
pub enum Action {
    /// Look up the project of this Modrinth version
    FindProject { version_id: String },
    /// Fetch this project and check whether it can be added; `ask` where the
    /// user will be asked about it, `parent` the project it is a dependency of
    Check { project: ProjectRef, optional: bool, ask: bool, parent: String },
    /// Ask the user whether to add the optional dependency `name` of `parent`
    Confirm { name: String, parent: String },
    /// Every dependency was handled
    Done,
    /// The addition failed with this message
    Failed(String),
}

pub enum ActionView {
    FindProject(Seq<char>),
    Check { project: ProjectRefView, optional: bool, ask: bool, parent: Seq<char> },
    Confirm { name: Seq<char>, parent: Seq<char> },
    Done,
    Failed(Seq<char>),
}

impl View for Action {
    type V = ActionView;

    open spec fn view(&self) -> ActionView {
        match self {
            Action::FindProject { version_id } => ActionView::FindProject(version_id@),
            Action::Check { project, optional, ask, parent } => ActionView::Check {
                project: project@,
                optional: *optional,
                ask: *ask,
                parent: parent@,
            },
            Action::Confirm { name, parent } => ActionView::Confirm { name: name@, parent: parent@ },
            Action::Done => ActionView::Done,
            Action::Failed(m) => ActionView::Failed(m@),
        }
    }
}

/// The action a state asks of the caller.
pub open spec fn action_of(s: ResolverView) -> ActionView {
    let top = s.frames.last();
    match s.pending {
        PendingView::Version => ActionView::FindProject(top.deps[top.next].0->Version_0),
        PendingView::Check { project, optional } => ActionView::Check {
            project,
            optional,
            ask: optional && s.level is None,
            parent: top.parent,
        },
        PendingView::Confirm { project: _, name, deps: _ } => ActionView::Confirm { name, parent: top.parent },
        PendingView::Done => ActionView::Done,
        PendingView::Failed(m) => ActionView::Failed(m),
    }
}

/// The state a resolver starts in: the dependencies of the added project in
/// one frame, moved on to the first that needs the caller. On CurseForge,
/// with no dependencies wanted, there is nothing to do.
pub open spec fn start(
    deps: Seq<(TargetView, Relation)>,
    game: Option<bool>,
    loader: Option<bool>,
    parent: Seq<char>,
    level: Option<DependencyLevel>,
    quilt: bool,
    modrinth: bool,
) -> ResolverView {
    let frames = if !modrinth && level == Some(DependencyLevel::NoDependencies) {
        Seq::empty()
    } else {
        seq![FrameView { deps, next: 0, game, loader, parent }]
    };
    let (f, pending) = advance(frames, level, quilt);
    ResolverView { frames: f, pending, level, quilt, modrinth }
}

/// The dependencies of an added project, being added.
pub struct Resolver {
    frames: Vec<Frame>,
    pending: Pending,
    level: Option<DependencyLevel>,
    quilt: bool,
    modrinth: bool,
}

impl View for Resolver {
    type V = ResolverView;

    closed spec fn view(&self) -> ResolverView {
        ResolverView {
            frames: frame_views(self.frames@),
            pending: self.pending@,
            level: self.level,
            quilt: self.quilt,
            modrinth: self.modrinth,
        }
    }
}

/// A project with the Quilt replacements applied.
fn substituted(p: ProjectRef, quilt: bool) -> (r: ProjectRef)
    ensures
        r@ == substitute(p@, quilt),
{
    if !quilt {
        return p;
    }
    match p {
        ProjectRef::Modrinth(id) => {
            if str_eq(id.as_str(), "P7dR8mSH") {
                ProjectRef::Modrinth(crate::text::owned("qvIfYCYJ"))
            } else if str_eq(id.as_str(), "Ha28R6CL") {
                ProjectRef::Modrinth(crate::text::owned("lwVhp9o5"))
            } else {
                ProjectRef::Modrinth(id)
            }
        },
        ProjectRef::CurseForge(id) => ProjectRef::CurseForge(
            if id == 306612 {
                634179
            } else if id == 308769 {
                720410
            } else {
                id
            },
        ),
    }
}

fn wanted_exec(relation: Relation, level: Option<DependencyLevel>) -> (r: Option<bool>)
    ensures
        r == wanted(relation, level),
{
    match relation {
        Relation::Required => Some(false),
        Relation::Optional => match level {
            None => Some(true),
            Some(DependencyLevel::All) => Some(true),
            _ => None,
        },
        Relation::Other => None,
    }
}

/// Passes over the current dependency of the last frame.
fn skip_top(frames: &mut Vec<Frame>)
    requires
        old(frames)@.len() > 0,
        old(frames)@.last().next < old(frames)@.last().deps@.len(),
    ensures
        frame_views(final(frames)@) == skip(frame_views(old(frames)@)),
        final(frames)@.len() == old(frames)@.len(),
{
    let mut f = frames.pop().unwrap();
    assert(f == old(frames)@.last());
    let len = f.deps.len();
    assert(f.next < len);
    f.next = f.next + 1;
    let ghost popped = frames@;
    frames.push(f);
    assert(frame_views(frames@) =~= skip(frame_views(old(frames)@))) by {
        assert(frames@ =~= popped.push(f));
        assert(popped =~= old(frames)@.drop_last());
    }
}

/// Moves on to the next dependency that needs the caller, as `advance` does.
fn advance_frames(frames: &mut Vec<Frame>, level: Option<DependencyLevel>, quilt: bool) -> (r: Pending)
    ensures
        (frame_views(final(frames)@), r@) == advance(frame_views(old(frames)@), level, quilt),
{
    loop
        invariant
            advance(frame_views(frames@), level, quilt) == advance(frame_views(old(frames)@), level, quilt),
        decreases frames@.len(), (if frames@.len() > 0 {
            frames@.last().deps@.len() - frames@.last().next
        } else {
            0
        }),
    {
        let ghost fv = frame_views(frames@);
        if frames.len() == 0 {
            return Pending::Done;
        }
        let n = frames.len() - 1;
        assert(fv.last() == frames@[n as int]@);
        if frames[n].next >= frames[n].deps.len() {
            let _ = frames.pop();
            assert(frame_views(frames@) =~= fv.drop_last());
        } else {
            let k = frames[n].next;
            assert(fv.last().deps[k as int] == frames@[n as int].deps@[k as int]@);
            match &frames[n].deps[k].target {
                Target::Missing => {
                    let _ = frames.pop();
                    assert(frame_views(frames@) =~= fv.drop_last());
                },
                Target::Version(_) => {
                    return Pending::Version;
                },
                Target::Project(p) => {
                    match wanted_exec(frames[n].deps[k].relation, level) {
                        Some(optional) => {
                            let project = substituted(p.duplicate(), quilt);
                            return Pending::Check { project, optional };
                        },
                        None => {
                            skip_top(frames);
                        },
                    }
                },
            }
        }
    }
}

impl Resolver {
    /// Whether the resolver is in a state it can be in.
    pub open spec fn wf(&self) -> bool {
        resolver_wf(self@)
    }

    /// A resolver for the dependencies of an added project, checked with the
    /// given flags and shown under `parent`. On Modrinth, required
    /// dependencies are always added; on CurseForge nothing is at level `NoDependencies`.
    pub fn new(
        deps: Vec<Dependency>,
        check_game_version: Option<bool>,
        check_mod_loader: Option<bool>,
        parent: String,
        level: Option<DependencyLevel>,
        quilt: bool,
        modrinth: bool,
    ) -> (r: Resolver)
        ensures
            r.wf(),
            r@ == start(dependency_views(deps@), check_game_version, check_mod_loader, parent@, level, quilt, modrinth),
    {
        let mut frames: Vec<Frame> = Vec::new();
        let none_wanted = match level {
            Some(DependencyLevel::NoDependencies) => true,
            _ => false,
        };
        let ghost dv = dependency_views(deps@);
        let ghost pv = parent@;
        if modrinth || !none_wanted {
            frames.push(Frame { deps, next: 0, check_game_version, check_mod_loader, parent });
        }
        assert(frame_views(frames@) =~= (if !modrinth && level == Some(DependencyLevel::NoDependencies) {
            Seq::empty()
        } else {
            seq![FrameView { deps: dv, next: 0, game: check_game_version, loader: check_mod_loader, parent: pv }]
        }));
        let ghost fv = frame_views(frames@);
        let pending = advance_frames(&mut frames, level, quilt);
        proof {
            lemma_advance_wf(fv, level, quilt);
        }
        Resolver { frames, pending, level, quilt, modrinth }
    }

    /// What the caller is to do next.
    pub fn action(&self) -> (r: Action)
        requires
            self.wf(),
        ensures
            r@ == action_of(self@),
    {
        match &self.pending {
            Pending::Version => {
                let n = self.frames.len() - 1;
                let k = self.frames[n].next;
                assert(frame_views(self.frames@).last() == self.frames@[n as int]@);
                assert(frame_views(self.frames@).last().deps[k as int] == self.frames@[n as int].deps@[k as int]@);
                match &self.frames[n].deps[k].target {
                    Target::Version(v) => Action::FindProject { version_id: copy_string(v) },
                    _ => Action::Done,
                }
            },
            Pending::Check { project, optional } => {
                let n = self.frames.len() - 1;
                assert(frame_views(self.frames@).last() == self.frames@[n as int]@);
                Action::Check {
                    project: project.duplicate(),
                    optional: *optional,
                    ask: *optional && self.level.is_none(),
                    parent: copy_string(&self.frames[n].parent),
                }
            },
            Pending::Confirm { project: _, name, deps: _ } => {
                let n = self.frames.len() - 1;
                assert(frame_views(self.frames@).last() == self.frames@[n as int]@);
                Action::Confirm { name: copy_string(name), parent: copy_string(&self.frames[n].parent) }
            },
            Pending::Done => Action::Done,
            Pending::Failed(m) => Action::Failed(copy_string(m)),
        }
    }

    /// Adds a project to the profile's mods and moves on: its dependencies
    /// come next, then the rest of the current frame.
    fn add_and_advance(
        &mut self,
        mods: &mut Vec<Mod>,
        project: ProjectRef,
        name: String,
        deps: Vec<Dependency>,
        optional: bool,
    )
        requires
            old(self)@.frames.len() > 0,
            0 <= old(self)@.frames.last().next < old(self)@.frames.last().deps.len(),
        ensures
            final(self).wf(),
            final(self)@ == ({
                let (f, pending) = advance(
                    after_adding(old(self)@, name@, dependency_views(deps@), optional),
                    old(self)@.level,
                    old(self)@.quilt,
                );
                ResolverView { frames: f, pending, ..old(self)@ }
            }),
            mods_after(
                old(mods)@,
                final(mods)@,
                Some((project@, name@, old(self)@.frames.last().game, old(self)@.frames.last().loader)),
            ),
    {
        let ghost s0 = self@;
        let n = self.frames.len() - 1;
        assert(s0.frames.last() == self.frames@[n as int]@);
        let game = self.frames[n].check_game_version;
        let loader = self.frames[n].check_mod_loader;
        let identifier = match &project {
            ProjectRef::Modrinth(id) => ModIdentifier::ModrinthProject(copy_string(id)),
            ProjectRef::CurseForge(id) => ModIdentifier::CurseForgeProject(*id),
        };
        let m = added_project(name.as_str(), identifier, game, loader);
        let ghost before = mods@;
        mods.push(m);
        assert(mods@.drop_last() =~= before);
        let parent = if self.modrinth && optional {
            copy_string(&name)
        } else {
            copy_string(&self.frames[n].parent)
        };
        let (child_game, child_loader) = if self.modrinth {
            (loader, game)
        } else {
            (game, loader)
        };
        let ghost dv = dependency_views(deps@);
        let has_deps = deps.len() > 0;
        skip_top(&mut self.frames);
        if has_deps {
            let ghost skipped = frame_views(self.frames@);
            self.frames.push(
                Frame { deps, next: 0, check_game_version: child_game, check_mod_loader: child_loader, parent },
            );
            assert(frame_views(self.frames@) =~= skipped.push(
                FrameView { deps: dv, next: 0, game: child_game, loader: child_loader, parent: parent@ },
            ));
        }
        assert(frame_views(self.frames@) == after_adding(s0, name@, dv, optional));
        let ghost fv = frame_views(self.frames@);
        self.pending = advance_frames(&mut self.frames, self.level, self.quilt);
        proof {
            lemma_advance_wf(fv, s0.level, s0.quilt);
        }
    }

    /// Passes over the current dependency and moves on.
    fn skip_and_advance(&mut self)
        requires
            old(self)@.frames.len() > 0,
            0 <= old(self)@.frames.last().next < old(self)@.frames.last().deps.len(),
        ensures
            final(self).wf(),
            final(self)@ == ({
                let (f, pending) = advance(skip(old(self)@.frames), old(self)@.level, old(self)@.quilt);
                ResolverView { frames: f, pending, ..old(self)@ }
            }),
    {
        let ghost s0 = self@;
        let n = self.frames.len() - 1;
        assert(s0.frames.last() == self.frames@[n as int]@);
        skip_top(&mut self.frames);
        let ghost fv = frame_views(self.frames@);
        self.pending = advance_frames(&mut self.frames, self.level, self.quilt);
        proof {
            lemma_advance_wf(fv, s0.level, s0.quilt);
        }
    }

    /// Takes in what the caller reports and moves on, as `handle` states:
    /// the projects added on the way are pushed to `mods`.
    pub fn handle(&mut self, mods: &mut Vec<Mod>, event: Event)
        requires
            old(self).wf(),
        ensures
            final(self).wf(),
            final(self)@ == handle(old(self)@, event@).0,
            mods_after(old(mods)@, final(mods)@, handle(old(self)@, event@).1),
    {
        let ghost s0 = self@;
        let ghost e0 = event@;
        let mut pending = Pending::Done;
        std::mem::swap(&mut pending, &mut self.pending);
        assert(pending@ == s0.pending);
        match event {
            Event::FetchFailed(m) => {
                match pending {
                    Pending::Version => {
                        self.pending = Pending::Failed(m);
                    },
                    Pending::Check { .. } => {
                        self.pending = Pending::Failed(m);
                    },
                    other => {
                        self.pending = other;
                    },
                }
            },
            Event::ProjectFound(pid) => {
                match pending {
                    Pending::Version => {
                        let n = self.frames.len() - 1;
                        let k = self.frames[n].next;
                        assert(s0.frames.last() == self.frames@[n as int]@);
                        assert(s0.frames.last().deps[k as int] == self.frames@[n as int].deps@[k as int]@);
                        match wanted_exec(self.frames[n].deps[k].relation, self.level) {
                            Some(optional) => {
                                let project = substituted(ProjectRef::Modrinth(pid), self.quilt);
                                self.pending = Pending::Check { project, optional };
                            },
                            None => {
                                self.skip_and_advance();
                            },
                        }
                    },
                    other => {
                        self.pending = other;
                    },
                }
            },
            Event::Checked(c) => {
                match pending {
                    Pending::Check { project, optional } => {
                        match c {
                            Checked::Compatible { name, deps } => {
                                let all = match self.level {
                                    Some(DependencyLevel::All) => true,
                                    _ => false,
                                };
                                if !optional || all {
                                    self.add_and_advance(mods, project, name, deps, optional);
                                } else {
                                    self.pending = Pending::Confirm { project, name, deps };
                                }
                            },
                            Checked::AlreadyAdded => {
                                self.skip_and_advance();
                            },
                            Checked::Failed(m) => {
                                if optional {
                                    self.skip_and_advance();
                                } else {
                                    self.pending = Pending::Failed(m);
                                }
                            },
                        }
                    },
                    other => {
                        self.pending = other;
                    },
                }
            },
            Event::Answered(yes) => {
                match pending {
                    Pending::Confirm { project, name, deps } => {
                        if yes {
                            self.add_and_advance(mods, project, name, deps, true);
                        } else {
                            self.skip_and_advance();
                        }
                    },
                    other => {
                        self.pending = other;
                    },
                }
            },
        }
    }
}

} // verus!

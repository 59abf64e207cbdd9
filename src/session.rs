//! An install or uninstall as a sequence of decisions. The caller performs
//! each [`Action`] and reports its outcome as an [`Event`]; the session decides
//! what comes next, until it hands back [`Action::Finish`].
use vstd::prelude::*;
use crate::error::CaError;
use crate::names::{anchor_name_of, file_name_of, lemma_anchor_plain, template_filename};
use crate::nss::{
    add_args, certutil_add_args, certutil_remove_args, databases_of, existing, home_of,
    home_or_root, nss_targets, nssdbs, profile_pattern, profile_pattern_of, remove_args,
};
use crate::registry::{
    append_path, appended, lists, redact_path, redact_undoes_append, redacted, views,
};
use crate::store::{
    candidate, candidate_dirs, candidate_dir, first_present, get_trust_store_command,
    none_present, LayoutView, TrustStoreLayout, FLAVOURS,
};
use crate::text::join_path;

verus! {

#[derive(Debug, Clone, Copy, PartialEq, Eq, Structural)]
pub enum Op {
    Install,
    Uninstall,
}

/// What the session waits for.
#[derive(Debug, Clone, Copy, PartialEq, Eq, Structural)]
pub enum Stage {
    /// Which anchor directories exist.
    Resolving,
    /// The anchor file copied or removed.
    Placing,
    /// The registry text.
    ReadingRegistry,
    /// The registry rewritten.
    WritingRegistry,
    /// The bundle rebuild's outcome.
    Rebuilding,
    /// Where `certutil` is.
    Locating,
    /// The home directory.
    FindingHome,
    /// The browser profiles found.
    ListingProfiles,
    /// Which databases exist.
    ProbingDatabases,
    /// The outcome of `certutil` on the database at this position.
    Propagating(usize),
    /// Nothing: the session is over.
    Finished,
}

/// Something the caller is asked to do.
#[derive(Debug)]
pub enum Action {
    /// Report, for each path, whether it is an existing directory.
    ProbeDirs(Vec<String>),
    /// Copy the file's bytes to a new path.
    CopyFile { from: String, to: String },
    /// Remove the file.
    RemoveFile(String),
    /// Read the file as text.
    ReadFile(String),
    /// Replace the file's text at once, through a temporary file renamed over it.
    ReplaceFile { path: String, content: String },
    /// Run the program with a cleared environment and no standard streams.
    Run { program: String, args: Vec<String> },
    /// Find the program on the search path.
    Locate(String),
    /// Report the user's home directory, if one is set.
    HomeDir,
    /// List the paths that match the glob pattern.
    ListDirs(String),
    /// The operation is over, with this outcome.
    Finish(Result<(), CaError>),
}

/// The outcome of an action.
#[derive(Debug)]
pub enum Event {
    /// One flag per probed path: whether it is an existing directory.
    Probed(Vec<bool>),
    /// A file operation succeeded, or failed with this message.
    Done(Result<(), String>),
    /// The text read, or why it could not be read.
    Read(Result<String, String>),
    /// Whether the program exited successfully, or why it did not run.
    Ran(Result<bool, String>),
    /// Where the program is, or why it was not found.
    Located(Result<String, String>),
    /// The home directory, if one is set.
    Home(Option<String>),
    /// The paths that matched.
    Listed(Vec<String>),
}

pub enum ActionView {
    ProbeDirs(Seq<Seq<char>>),
    CopyFile { from: Seq<char>, to: Seq<char> },
    RemoveFile(Seq<char>),
    ReadFile(Seq<char>),
    ReplaceFile { path: Seq<char>, content: Seq<char> },
    Run { program: Seq<char>, args: Seq<Seq<char>> },
    Locate(Seq<char>),
    HomeDir,
    ListDirs(Seq<char>),
    Finish(Result<(), CaError>),
}

impl View for Action {
    type V = ActionView;

    open spec fn view(&self) -> ActionView {
        match self {
            Action::ProbeDirs(p) => ActionView::ProbeDirs(views(p@)),
            Action::CopyFile { from, to } => ActionView::CopyFile { from: from@, to: to@ },
            Action::RemoveFile(p) => ActionView::RemoveFile(p@),
            Action::ReadFile(p) => ActionView::ReadFile(p@),
            Action::ReplaceFile { path, content } => ActionView::ReplaceFile {
                path: path@,
                content: content@,
            },
            Action::Run { program, args } => ActionView::Run {
                program: program@,
                args: views(args@),
            },
            Action::Locate(p) => ActionView::Locate(p@),
            Action::HomeDir => ActionView::HomeDir,
            Action::ListDirs(p) => ActionView::ListDirs(p@),
            Action::Finish(r) => ActionView::Finish(*r),
        }
    }
}

/// One install or uninstall of one certificate file.
pub struct Session {
    op: Op,
    filename: String,
    stage: Stage,
    layout: Option<TrustStoreLayout>,
    certutil: String,
    home: String,
    databases: Vec<String>,
}

pub struct SessionView {
    pub op: Op,
    pub filename: Seq<char>,
    pub stage: Stage,
    pub layout: Option<LayoutView>,
    pub certutil: Seq<char>,
    pub home: Seq<char>,
    pub databases: Seq<Seq<char>>,
}

impl View for Session {
    type V = SessionView;

    closed spec fn view(&self) -> SessionView {
        SessionView {
            op: self.op,
            filename: self.filename@,
            stage: self.stage,
            layout: match self.layout {
                Some(l) => Some(l@),
                None => None,
            },
            certutil: self.certutil@,
            home: self.home@,
            databases: views(self.databases@),
        }
    }
}

/// The anchor file name of the session's certificate.
pub open spec fn anchor_of(filename: Seq<char>) -> Seq<char> {
    match anchor_name_of(filename) {
        Some(n) => n,
        None => Seq::<char>::empty(),
    }
}

/// What a session holds at every stage.
pub open spec fn session_wf(s: SessionView) -> bool {
    &&& file_name_of(s.filename) is Some
    &&& (match s.stage {
        Stage::Resolving | Stage::Finished => true,
        Stage::Propagating(k) => s.layout is Some && k < s.databases.len(),
        Stage::ReadingRegistry | Stage::WritingRegistry => s.layout is Some
            && s.layout->0.registry is Some,
        _ => s.layout is Some,
    })
}

pub open spec fn with_stage(s: SessionView, stage: Stage) -> SessionView {
    SessionView { stage, ..s }
}

/// The session once it is over, with the action that says so.
pub open spec fn finish(s: SessionView, r: Result<(), CaError>) -> (SessionView, ActionView) {
    (with_stage(s, Stage::Finished), ActionView::Finish(r))
}

/// The run of the layout's rebuild program.
pub open spec fn rebuild(s: SessionView) -> (SessionView, ActionView) {
    let l = s.layout->0;
    (with_stage(s, Stage::Rebuilding), ActionView::Run { program: l.bin, args: l.args })
}

/// The `certutil` run for the database at position `k`.
pub open spec fn propagate(s: SessionView, k: int) -> (SessionView, ActionView) {
    let db = s.databases[k];
    (
        with_stage(s, Stage::Propagating(k as usize)),
        ActionView::Run {
            program: s.certutil,
            args: if s.op == Op::Install {
                add_args(db, s.filename)
            } else {
                remove_args(db, s.filename)
            },
        },
    )
}

/// The session's next state and request, given the outcome of the last one.
pub open spec fn next(s: SessionView, ev: Event) -> (SessionView, ActionView) {
    match (s.stage, ev) {
        (Stage::Resolving, Event::Probed(p)) => {
            if none_present(p@) {
                finish(s, Err(CaError::UnsupportedPlatform))
            } else {
                let i = choose|i: int| first_present(p@, i);
                let l = candidate(i);
                let to = join_path(l.dir, anchor_of(s.filename));
                let t = SessionView { stage: Stage::Placing, layout: Some(l), ..s };
                if s.op == Op::Install {
                    (t, ActionView::CopyFile { from: s.filename, to })
                } else {
                    (t, ActionView::RemoveFile(to))
                }
            }
        },
        (Stage::Placing, Event::Done(Ok(()))) => match s.layout->0.registry {
            Some(reg) => (with_stage(s, Stage::ReadingRegistry), ActionView::ReadFile(reg)),
            None => rebuild(s),
        },
        (Stage::Placing, Event::Done(Err(m))) => finish(
            s,
            Err(
                if s.op == Op::Install {
                    CaError::CopyFailed(m)
                } else {
                    CaError::FileRemoveFailed(m)
                },
            ),
        ),
        (Stage::ReadingRegistry, Event::Read(Ok(c))) => {
            let name = anchor_of(s.filename);
            let path = s.layout->0.registry->0;
            if s.op == Op::Install && lists(c@, name) {
                rebuild(s)
            } else {
                (
                    with_stage(s, Stage::WritingRegistry),
                    ActionView::ReplaceFile {
                        path,
                        content: if s.op == Op::Install {
                            appended(c@, name)
                        } else {
                            redacted(c@, name)
                        },
                    },
                )
            }
        },
        (Stage::ReadingRegistry, Event::Read(Err(m))) => finish(s, Err(CaError::RegistryIoError(m))),
        (Stage::WritingRegistry, Event::Done(Ok(()))) => rebuild(s),
        (Stage::WritingRegistry, Event::Done(Err(m))) => finish(
            s,
            Err(CaError::RegistryWriteError(m)),
        ),
        (Stage::Rebuilding, Event::Ran(Ok(true))) => (
            with_stage(s, Stage::Locating),
            ActionView::Locate("certutil"@),
        ),
        (Stage::Rebuilding, Event::Ran(Ok(false))) => finish(s, Err(CaError::RebuildFailed(None))),
        (Stage::Rebuilding, Event::Ran(Err(m))) => finish(
            s,
            Err(CaError::RebuildFailed(Some(m))),
        ),
        (Stage::Locating, Event::Located(Ok(p))) => (
            SessionView { stage: Stage::FindingHome, certutil: p@, ..s },
            ActionView::HomeDir,
        ),
        (Stage::Locating, Event::Located(Err(m))) => finish(s, Err(CaError::ToolNotFound(m))),
        (Stage::FindingHome, Event::Home(h)) => {
            let home = home_of(
                match h {
                    Some(x) => Some(x@),
                    None => None,
                },
            );
            (
                SessionView { stage: Stage::ListingProfiles, home, ..s },
                ActionView::ListDirs(profile_pattern_of(home)),
            )
        },
        (Stage::ListingProfiles, Event::Listed(ps)) => {
            let dbs = databases_of(s.home, views(ps@));
            (
                SessionView { stage: Stage::ProbingDatabases, databases: dbs, ..s },
                ActionView::ProbeDirs(dbs),
            )
        },
        (Stage::ProbingDatabases, Event::Probed(flags)) => {
            let t = SessionView { databases: existing(s.databases, flags@), ..s };
            if t.databases.len() == 0 {
                finish(t, Ok(()))
            } else {
                propagate(t, 0)
            }
        },
        (Stage::Propagating(k), Event::Ran(_)) => {
            if k + 1 < s.databases.len() {
                propagate(s, k + 1)
            } else {
                finish(s, Ok(()))
            }
        },
        _ => finish(s, Err(CaError::OutOfOrder)),
    }
}

proof fn lemma_first_unique(p: Seq<bool>, i: int, j: int)
    requires
        first_present(p, i),
        first_present(p, j),
    ensures
        i == j,
{
}

fn copy_strings(v: &Vec<String>) -> (r: Vec<String>)
    ensures
        views(r@) == views(v@),
{
    let mut r: Vec<String> = Vec::new();
    let mut i: usize = 0;
    while i < v.len()
        invariant
            i <= v@.len(),
            r@.len() == i,
            forall|j: int| 0 <= j < i ==> r@[j]@ == v@[j]@,
        decreases v.len() - i,
    {
        let c = v[i].clone();
        r.push(c);
        i = i + 1;
    }
    assert(views(r@) =~= views(v@));
    r
}

fn start(op: Op, filename: &str) -> (r: (Session, Action))
    requires
        file_name_of(filename@) is Some,
    ensures
        session_wf(r.0@),
        r.0@.op == op,
        r.0@.filename == filename@,
        r.0@.stage == Stage::Resolving,
        r.1@ == ActionView::ProbeDirs(Seq::new(FLAVOURS as nat, |i: int| candidate_dir(i))),
{
    let dirs = candidate_dirs();
    assert(views(dirs@) =~= Seq::new(FLAVOURS as nat, |i: int| candidate_dir(i)));
    let s = Session {
        op,
        filename: filename.to_owned(),
        stage: Stage::Resolving,
        layout: None,
        certutil: String::new(),
        home: String::new(),
        databases: Vec::new(),
    };
    (s, Action::ProbeDirs(dirs))
}

/// Begins installing the certificate file at `filename`: into the first trust
/// store found, its registry where it has one, and every NSS database of the
/// user. The caller performs the returned action and passes its outcome to
/// [`Session::step`] until the session finishes.
pub fn install_ca(filename: &str) -> (r: (Session, Action))
    requires
        file_name_of(filename@) is Some,
    ensures
        session_wf(r.0@),
        r.0@.op == Op::Install,
        r.0@.filename == filename@,
        r.0@.stage == Stage::Resolving,
        r.1@ == ActionView::ProbeDirs(Seq::new(FLAVOURS as nat, |i: int| candidate_dir(i))),
{
    start(Op::Install, filename)
}

/// Begins removing the certificate file at `filename` from the places where
/// [`install_ca`] put it; driven the same way.
pub fn uninstall_ca(filename: &str) -> (r: (Session, Action))
    requires
        file_name_of(filename@) is Some,
    ensures
        session_wf(r.0@),
        r.0@.op == Op::Uninstall,
        r.0@.filename == filename@,
        r.0@.stage == Stage::Resolving,
        r.1@ == ActionView::ProbeDirs(Seq::new(FLAVOURS as nat, |i: int| candidate_dir(i))),
{
    start(Op::Uninstall, filename)
}

impl Session {
    /// Whether the session is over.
    pub fn is_finished(&self) -> (r: bool)
        ensures
            r == (self@.stage == Stage::Finished),
    {
        self.stage == Stage::Finished
    }

    fn finish(&mut self, r: Result<(), CaError>) -> (a: Action)
        requires
            session_wf(old(self)@),
        ensures
            (final(self)@, a@) == finish(old(self)@, r),
            session_wf(final(self)@),
    {
        self.stage = Stage::Finished;
        Action::Finish(r)
    }

    fn rebuild(&mut self) -> (a: Action)
        requires
            session_wf(old(self)@),
            old(self)@.layout is Some,
        ensures
            (final(self)@, a@) == rebuild(old(self)@),
            session_wf(final(self)@),
    {
        let (program, args) = match &self.layout {
            Some(l) => (l.bin.clone(), copy_strings(&l.args)),
            None => (String::new(), Vec::new()),
        };
        self.stage = Stage::Rebuilding;
        Action::Run { program, args }
    }

    fn propagate(&mut self, k: usize) -> (a: Action)
        requires
            session_wf(old(self)@),
            old(self)@.layout is Some,
            k < old(self)@.databases.len(),
        ensures
            (final(self)@, a@) == propagate(old(self)@, k as int),
            session_wf(final(self)@),
    {
        assert(views(self.databases@)[k as int] == self.databases@[k as int]@);
        let args = if self.op == Op::Install {
            certutil_add_args(self.databases[k].as_str(), self.filename.as_str())
        } else {
            certutil_remove_args(self.databases[k].as_str(), self.filename.as_str())
        };
        self.stage = Stage::Propagating(k);
        Action::Run { program: self.certutil.clone(), args }
    }

    /// Takes the outcome of the last action and returns the next one.
    pub fn step(&mut self, ev: Event) -> (a: Action)
        requires
            session_wf(old(self)@),
        ensures
            session_wf(final(self)@),
            (final(self)@, a@) == next(old(self)@, ev),
    {
        match (self.stage, ev) {
            (Stage::Resolving, Event::Probed(p)) => {
                match get_trust_store_command(&p) {
                    Err(e) => self.finish(Err(e)),
                    Ok(l) => {
                        proof {
                            let i = choose|i: int| first_present(p@, i) && l@ == candidate(i);
                            let j = choose|j: int| first_present(p@, j);
                            lemma_first_unique(p@, i, j);
                        }
                        let to = template_filename(self.filename.as_str(), &l);
                        self.layout = Some(l);
                        self.stage = Stage::Placing;
                        if self.op == Op::Install {
                            Action::CopyFile { from: self.filename.clone(), to }
                        } else {
                            Action::RemoveFile(to)
                        }
                    },
                }
            },
            (Stage::Placing, Event::Done(Ok(()))) => {
                let reg = match &self.layout {
                    Some(l) => match &l.registry {
                        Some(r) => Some(r.clone()),
                        None => None,
                    },
                    None => None,
                };
                match reg {
                    Some(r) => {
                        self.stage = Stage::ReadingRegistry;
                        Action::ReadFile(r)
                    },
                    None => self.rebuild(),
                }
            },
            (Stage::Placing, Event::Done(Err(m))) => {
                if self.op == Op::Install {
                    self.finish(Err(CaError::CopyFailed(m)))
                } else {
                    self.finish(Err(CaError::FileRemoveFailed(m)))
                }
            },
            (Stage::ReadingRegistry, Event::Read(Ok(c))) => {
                let path = match &self.layout {
                    Some(l) => match &l.registry {
                        Some(r) => r.clone(),
                        None => String::new(),
                    },
                    None => String::new(),
                };
                let name = crate::names::tr_filename(self.filename.as_str());
                if self.op == Op::Install {
                    match append_path(c.as_str(), name.as_str()) {
                        None => self.rebuild(),
                        Some(content) => {
                            self.stage = Stage::WritingRegistry;
                            Action::ReplaceFile { path, content }
                        },
                    }
                } else {
                    let content = redact_path(c.as_str(), name.as_str());
                    self.stage = Stage::WritingRegistry;
                    Action::ReplaceFile { path, content }
                }
            },
            (Stage::ReadingRegistry, Event::Read(Err(m))) => {
                self.finish(Err(CaError::RegistryIoError(m)))
            },
            (Stage::WritingRegistry, Event::Done(Ok(()))) => self.rebuild(),
            (Stage::WritingRegistry, Event::Done(Err(m))) => {
                self.finish(Err(CaError::RegistryWriteError(m)))
            },
            (Stage::Rebuilding, Event::Ran(Ok(true))) => {
                self.stage = Stage::Locating;
                Action::Locate("certutil".to_owned())
            },
            (Stage::Rebuilding, Event::Ran(Ok(false))) => {
                self.finish(Err(CaError::RebuildFailed(None)))
            },
            (Stage::Rebuilding, Event::Ran(Err(m))) => {
                self.finish(Err(CaError::RebuildFailed(Some(m))))
            },
            (Stage::Locating, Event::Located(Ok(p))) => {
                self.certutil = p;
                self.stage = Stage::FindingHome;
                Action::HomeDir
            },
            (Stage::Locating, Event::Located(Err(m))) => {
                self.finish(Err(CaError::ToolNotFound(m)))
            },
            (Stage::FindingHome, Event::Home(h)) => {
                self.home = home_or_root(h);
                self.stage = Stage::ListingProfiles;
                Action::ListDirs(profile_pattern(self.home.as_str()))
            },
            (Stage::ListingProfiles, Event::Listed(ps)) => {
                let dbs = nssdbs(self.home.as_str(), ps);
                self.databases = copy_strings(&dbs);
                self.stage = Stage::ProbingDatabases;
                Action::ProbeDirs(dbs)
            },
            (Stage::ProbingDatabases, Event::Probed(flags)) => {
                self.databases = nss_targets(&self.databases, &flags);
                if self.databases.len() == 0 {
                    self.finish(Ok(()))
                } else {
                    self.propagate(0)
                }
            },
            (Stage::Propagating(k), Event::Ran(_)) => {
                let n = self.databases.len();
                if n > 0 && k < n - 1 {
                    self.propagate(k + 1)
                } else {
                    self.finish(Ok(()))
                }
            },
            _ => self.finish(Err(CaError::OutOfOrder)),
        }
    }
}

/// With no known anchor directory present the session ends at once with
/// `UnsupportedPlatform`; the only request made before was the probe, so
/// nothing on disk has changed.
pub proof fn unsupported_platform_stops(s: SessionView, p: Vec<bool>)
    requires
        s.stage == Stage::Resolving,
        none_present(p@),
    ensures
        next(s, Event::Probed(p)) == finish(s, Err(CaError::UnsupportedPlatform)),
        run(s, seq![Event::Probed(p)]) == seq![
            ActionView::Finish(Err(CaError::UnsupportedPlatform)),
        ],
{
    let evs = seq![Event::Probed(p)];
    let t = next(s, evs[0]).0;
    assert(evs.skip(1) =~= Seq::<Event>::empty());
    assert(run(t, evs.skip(1)) == Seq::<ActionView>::empty());
    assert(run(s, evs) =~= seq![ActionView::Finish(Err(CaError::UnsupportedPlatform))]);
}

/// Given the same probe results, the file an uninstall removes is the file an
/// install of the same path copied, in the same trust store.
pub proof fn uninstall_removes_installed_file(
    install: SessionView,
    uninstall: SessionView,
    p: Vec<bool>,
)
    requires
        install.stage == Stage::Resolving,
        uninstall.stage == Stage::Resolving,
        install.op == Op::Install,
        uninstall.op == Op::Uninstall,
        install.filename == uninstall.filename,
        !none_present(p@),
    ensures
        next(install, Event::Probed(p)).1 matches ActionView::CopyFile { from, to } && from
            == install.filename && next(uninstall, Event::Probed(p)).1 == ActionView::RemoveFile(
            to,
        ),
        next(install, Event::Probed(p)).0.layout == next(uninstall, Event::Probed(p)).0.layout,
{
}

/// A `certutil` run that fails, or does not start, does not stop the session:
/// the next database is still handled.
pub proof fn failed_database_does_not_stop(s: SessionView, r: Result<bool, String>)
    requires
        s.stage matches Stage::Propagating(k) && k + 1 < s.databases.len(),
    ensures
        next(s, Event::Ran(r)) == propagate(s, s.stage->0 + 1),
{
}

/// The actions a session requests while it takes the events in order.
pub open spec fn run(s: SessionView, evs: Seq<Event>) -> Seq<ActionView>
    decreases evs.len(),
{
    if evs.len() == 0 {
        Seq::empty()
    } else {
        let (t, a) = next(s, evs[0]);
        seq![a] + run(t, evs.skip(1))
    }
}

/// The `certutil` run for one database.
pub open spec fn certutil_run(s: SessionView, db: Seq<char>) -> ActionView {
    ActionView::Run {
        program: s.certutil,
        args: if s.op == Op::Install {
            add_args(db, s.filename)
        } else {
            remove_args(db, s.filename)
        },
    }
}

pub open spec fn ran_events(outcomes: Seq<Result<bool, String>>) -> Seq<Event> {
    outcomes.map_values(|r: Result<bool, String>| Event::Ran(r))
}

proof fn lemma_existing_len(dbs: Seq<Seq<char>>, is_dir: Seq<bool>)
    ensures
        existing(dbs, is_dir).len() <= dbs.len(),
    decreases dbs.len(),
{
    if dbs.len() > 0 {
        lemma_existing_len(dbs.drop_last(), is_dir);
    }
}

proof fn lemma_ran_events(outcomes: Seq<Result<bool, String>>)
    requires
        outcomes.len() > 0,
    ensures
        ran_events(outcomes)[0] == Event::Ran(outcomes[0]),
        ran_events(outcomes).skip(1) == ran_events(outcomes.skip(1)),
{
    assert(ran_events(outcomes).skip(1) =~= ran_events(outcomes.skip(1)));
}

proof fn lemma_propagation_tail(s: SessionView, outcomes: Seq<Result<bool, String>>)
    requires
        s.stage matches Stage::Propagating(k) && k + outcomes.len() == s.databases.len(),
        outcomes.len() >= 1,
        s.databases.len() <= usize::MAX,
    ensures
        run(s, ran_events(outcomes)) == Seq::new(
            (outcomes.len() - 1) as nat,
            |j: int| certutil_run(s, s.databases[s.stage->0 + 1 + j]),
        ).push(ActionView::Finish(Ok(()))),
    decreases outcomes.len(),
{
    let k = s.stage->0;
    let evs = ran_events(outcomes);
    lemma_ran_events(outcomes);
    let (t, a) = next(s, evs[0]);
    let want = Seq::new(
        (outcomes.len() - 1) as nat,
        |j: int| certutil_run(s, s.databases[k + 1 + j]),
    ).push(ActionView::Finish(Ok(())));
    assert(run(s, evs) == seq![a] + run(t, evs.skip(1)));
    if outcomes.len() == 1 {
        assert(evs.skip(1) =~= Seq::<Event>::empty());
        assert(a == ActionView::Finish(Ok(())));
        assert(run(s, evs) =~= want);
    } else {
        assert(t == propagate(s, k + 1).0);
        assert(t.stage == Stage::Propagating((k + 1) as usize));
        assert(a == certutil_run(s, s.databases[k + 1]));
        lemma_propagation_tail(t, outcomes.skip(1));
        assert(run(s, evs) =~= want);
    }
}

/// Once the databases are probed, each one found as a directory gets exactly
/// one `certutil` run, in order, and a missing one none; no run's outcome,
/// success, failure or failure to start, keeps the others from being tried;
/// and the session then finishes successfully.
pub proof fn propagation_covers_existing(
    s: SessionView,
    flags: Vec<bool>,
    outcomes: Seq<Result<bool, String>>,
)
    requires
        session_wf(s),
        s.stage == Stage::ProbingDatabases,
        s.databases.len() <= usize::MAX,
        outcomes.len() == existing(s.databases, flags@).len(),
    ensures
        run(s, seq![Event::Probed(flags)] + ran_events(outcomes)) == Seq::new(
            outcomes.len(),
            |j: int| certutil_run(s, existing(s.databases, flags@)[j]),
        ).push(ActionView::Finish(Ok(()))),
{
    let targets = existing(s.databases, flags@);
    let evs = seq![Event::Probed(flags)] + ran_events(outcomes);
    assert(evs[0] == Event::Probed(flags));
    assert(evs.skip(1) =~= ran_events(outcomes));
    let (t, a) = next(s, evs[0]);
    let want = Seq::new(outcomes.len(), |j: int| certutil_run(s, targets[j])).push(
        ActionView::Finish(Ok(())),
    );
    assert(run(s, evs) == seq![a] + run(t, evs.skip(1)));
    lemma_existing_len(s.databases, flags@);
    if targets.len() == 0 {
        assert(ran_events(outcomes) =~= Seq::<Event>::empty());
        assert(run(s, evs) =~= want);
    } else {
        assert(t == propagate(SessionView { databases: targets, ..s }, 0).0);
        assert(a == certutil_run(s, targets[0]));
        lemma_propagation_tail(t, outcomes);
        assert(run(s, evs) =~= want);
    }
}

/// An install followed by an uninstall of the same path, on the same host:
/// the install copies the certificate to an anchor path and lists its name in
/// the registry; the uninstall removes that very path and writes the registry
/// back as it was before the install. This holds for a registry that is empty
/// or ends in a newline, does not list the name yet, and a path without a
/// newline.
pub proof fn uninstall_restores_install(
    install: SessionView,
    uninstall: SessionView,
    p: Vec<bool>,
    before: String,
    after: String,
)
    requires
        session_wf(install),
        install.stage == Stage::Resolving,
        uninstall.stage == Stage::Resolving,
        install.op == Op::Install,
        uninstall.op == Op::Uninstall,
        install.filename == uninstall.filename,
        forall|j: int| 0 <= j < install.filename.len() ==> install.filename[j] != '\n',
        !none_present(p@),
        next(install, Event::Probed(p)).0.layout->0.registry is Some,
        before@.len() == 0 || before@.last() == '\n',
        !lists(before@, anchor_of(install.filename)),
        after@ == appended(before@, anchor_of(install.filename)),
    ensures
        ({
            let l = next(install, Event::Probed(p)).0.layout->0;
            let path = join_path(l.dir, anchor_of(install.filename));
            let reg = l.registry->0;
            &&& run(install, seq![Event::Probed(p), Event::Done(Ok(())), Event::Read(Ok(before))])
                == seq![
                ActionView::CopyFile { from: install.filename, to: path },
                ActionView::ReadFile(reg),
                ActionView::ReplaceFile { path: reg, content: after@ },
            ]
            &&& run(
                uninstall,
                seq![Event::Probed(p), Event::Done(Ok(())), Event::Read(Ok(after))],
            ) == seq![
                ActionView::RemoveFile(path),
                ActionView::ReadFile(reg),
                ActionView::ReplaceFile { path: reg, content: before@ },
            ]
        }),
{
    let name = anchor_of(install.filename);
    let b = file_name_of(install.filename)->0;
    lemma_anchor_plain(install.filename);
    redact_undoes_append(before@, name);
    let ei = seq![Event::Probed(p), Event::Done(Ok(())), Event::Read(Ok(before))];
    let eu = seq![Event::Probed(p), Event::Done(Ok(())), Event::Read(Ok(after))];
    let (i1, _) = next(install, ei[0]);
    let (i2, _) = next(i1, ei[1]);
    let (u1, _) = next(uninstall, eu[0]);
    let (u2, _) = next(u1, eu[1]);
    assert(ei.skip(1) =~= seq![ei[1], ei[2]]);
    assert(ei.skip(1).skip(1) =~= seq![ei[2]]);
    assert(ei.skip(1).skip(1).skip(1) =~= Seq::<Event>::empty());
    assert(eu.skip(1) =~= seq![eu[1], eu[2]]);
    assert(eu.skip(1).skip(1) =~= seq![eu[2]]);
    assert(eu.skip(1).skip(1).skip(1) =~= Seq::<Event>::empty());
    assert(u1.layout == i1.layout);
    assert(u2.layout == i2.layout);
    let l = i1.layout->0;
    let path = join_path(l.dir, name);
    let reg = l.registry->0;
    let (i3, a2) = next(i2, ei[2]);
    let (u3, b2) = next(u2, eu[2]);
    assert(i2.stage == Stage::ReadingRegistry);
    assert(u2.stage == Stage::ReadingRegistry);
    assert(a2 == ActionView::ReplaceFile { path: reg, content: after@ });
    assert(b2 == ActionView::ReplaceFile { path: reg, content: before@ });
    assert(ei.skip(1).skip(1)[0] == ei[2]);
    assert(eu.skip(1).skip(1)[0] == eu[2]);
    assert(run(i3, ei.skip(1).skip(1).skip(1)) == Seq::<ActionView>::empty());
    assert(run(u3, eu.skip(1).skip(1).skip(1)) == Seq::<ActionView>::empty());
    assert(run(i2, ei.skip(1).skip(1)) =~= seq![a2]);
    assert(run(u2, eu.skip(1).skip(1)) =~= seq![b2]);
    assert(run(i1, ei.skip(1)) =~= seq![ActionView::ReadFile(reg), a2]);
    assert(run(u1, eu.skip(1)) =~= seq![ActionView::ReadFile(reg), b2]);
    assert(run(install, ei) =~= seq![
        ActionView::CopyFile { from: install.filename, to: path },
        ActionView::ReadFile(reg),
        a2,
    ]);
    assert(run(uninstall, eu) =~= seq![ActionView::RemoveFile(path), ActionView::ReadFile(reg), b2]);
}

} // verus!

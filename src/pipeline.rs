use vstd::prelude::*;

use crate::cache::{cache_files, cache_files_of, latest_of};
use crate::capture::{
    build_events_of, check_nesting, collect_records, nesting_within_bound, parse_build_events,
    records_of,
};
use crate::command::{
    cargo_args, cargo_args_of, forwarded, has_release_flag, configure_args, configure_args_of, native_build_args,
    native_build_args_of, profile_of, resolve_profile, BuildProfile,
};
use crate::capture::pair_views;
use crate::paths::{build_dir, build_dir_of, joined};
use crate::text::views;
use crate::tokenize::{lemma_bracketed_generator_tokens, tokenize, tokens_of};

verus! {

/// Why a run stopped.
#[derive(Clone, Copy, Debug, PartialEq, Eq, Structural)]
pub enum BuildError {
    /// The build directory exists and could not be removed.
    CleanFailed,
    /// The build directory could not be created.
    BuildDirCreateFailed,
    /// The package manager's clean step failed.
    ManagedCleanFailed,
    /// The package manager's build step failed.
    ManagedBuildFailed,
    /// The build's event stream could not be read: a line is not text, is not a cargo
    /// message, or nests too deeply.
    EventStreamInvalid,
    /// A directory for an output-directory file could not be created.
    CacheDirCreateFailed,
    /// An output-directory file could not be written.
    CacheWriteFailed,
    /// The working directory could not be set to the build directory.
    EnterDirFailed,
    /// The generator's configure step failed.
    ConfigureFailed,
    /// The generator's build step failed.
    NativeBuildFailed,
    /// The working directory could not be set back to where it was.
    DirectoryRestoreFailed,
}

/// What a run is asked to do.
pub struct Options {
    /// Arguments for the package manager's build or clean step.
    pub build_args: Vec<String>,
    /// Skip the package manager's step.
    pub hdk_only: bool,
    /// Remove what earlier builds made instead of building.
    pub clean: bool,
    /// Extra arguments for the generator's configure step, in one string.
    pub cmake: String,
    /// The native plugin's directory, relative to the project root.
    pub hdk_path: String,
    /// Prefix of the output-directory files, relative to the build directory.
    pub out_dir_file_prefix: String,
    /// Names of the dependencies whose output directories are kept.
    pub deps: Vec<String>,
}

/// The project's root package, as the package manager reports it.
pub struct RootPackage {
    pub name: String,
    pub id: String,
    /// The directory that holds the package's manifest.
    pub dir: String,
}

/// What the driver of a run is asked to do next.
#[derive(Debug, PartialEq, Eq)]
pub enum Action {
    /// Remove the directory and everything under it.
    RemoveDir { path: String },
    /// Create the directory.
    CreateDir { path: String },
    /// Run the package manager with these arguments; for a build, capture its standard
    /// output and let its standard error through.
    RunCargo { args: Vec<String> },
    /// Create the directories above the file, where missing.
    CreateParentDirs { path: String },
    /// Create or truncate the file and write the text into it.
    WriteFile { path: String, contents: String },
    /// Make the directory the process's working directory.
    SetCurrentDir { path: String },
    /// Run the native build-system generator with these arguments.
    RunCmake { args: Vec<String> },
    /// The run is over, with this result.
    Finish { result: Result<(), BuildError> },
}

/// How the last action went.
#[derive(Debug)]
pub enum Reply {
    /// It was done.
    Done,
    /// Nothing was to be done: the directory to create existed, or the one to remove
    /// was absent.
    AlreadyDone,
    /// It could not be done.
    Failed,
    /// The program ran and exited, successfully or not, with this standard output.
    Exited { success: bool, stdout: Vec<u8> },
}

/// Where a run stands: which reply it waits for.
#[derive(Clone, Copy, Debug, PartialEq, Eq)]
pub enum Stage {
    Start,
    PreparingDir,
    RunningCargo,
    MakingCacheDir { index: usize },
    WritingCache { index: usize },
    EnteringDir,
    Configuring,
    BuildingNative,
    Restoring { outcome: Result<(), BuildError> },
    Finished { result: Result<(), BuildError> },
}

pub enum ActionView {
    RemoveDir(Seq<char>),
    CreateDir(Seq<char>),
    RunCargo(Seq<Seq<char>>),
    CreateParentDirs(Seq<char>),
    WriteFile(Seq<char>, Seq<char>),
    SetCurrentDir(Seq<char>),
    RunCmake(Seq<Seq<char>>),
    Finish(Result<(), BuildError>),
}

impl View for Action {
    type V = ActionView;

    open spec fn view(&self) -> ActionView {
        match self {
            Action::RemoveDir { path } => ActionView::RemoveDir(path@),
            Action::CreateDir { path } => ActionView::CreateDir(path@),
            Action::RunCargo { args } => ActionView::RunCargo(views(args@)),
            Action::CreateParentDirs { path } => ActionView::CreateParentDirs(path@),
            Action::WriteFile { path, contents } => ActionView::WriteFile(path@, contents@),
            Action::SetCurrentDir { path } => ActionView::SetCurrentDir(path@),
            Action::RunCmake { args } => ActionView::RunCmake(views(args@)),
            Action::Finish { result } => ActionView::Finish(*result),
        }
    }
}

pub enum ReplyView {
    Done,
    AlreadyDone,
    Failed,
    Exited(bool, Seq<u8>),
}

impl View for Reply {
    type V = ReplyView;

    open spec fn view(&self) -> ReplyView {
        match self {
            Reply::Done => ReplyView::Done,
            Reply::AlreadyDone => ReplyView::AlreadyDone,
            Reply::Failed => ReplyView::Failed,
            Reply::Exited { success, stdout } => ReplyView::Exited(*success, stdout@),
        }
    }
}

/// A run as plain values.
pub struct PipelineView {
    pub clean: bool,
    pub hdk_only: bool,
    pub profile: BuildProfile,
    pub build_dir: Seq<char>,
    pub orig_dir: Seq<char>,
    pub cargo_args: Seq<Seq<char>>,
    pub configure_args: Seq<Seq<char>>,
    pub root_id: Seq<char>,
    pub root_name: Seq<char>,
    pub deps: Seq<Seq<char>>,
    pub prefix: Seq<char>,
    pub files: Seq<(Seq<char>, Seq<char>)>,
    pub stage: Stage,
}

/// The decisions of one run of the two-stage build. Its driver performs each action
/// that it hands out and hands back how it went.
pub struct Pipeline {
    clean: bool,
    hdk_only: bool,
    profile: BuildProfile,
    build_dir: String,
    orig_dir: String,
    cargo_args: Vec<String>,
    configure_args: Vec<String>,
    root_id: String,
    root_name: String,
    deps: Vec<String>,
    prefix: String,
    files: Vec<(String, String)>,
    stage: Stage,
}

impl View for Pipeline {
    type V = PipelineView;

    closed spec fn view(&self) -> PipelineView {
        PipelineView {
            clean: self.clean,
            hdk_only: self.hdk_only,
            profile: self.profile,
            build_dir: self.build_dir@,
            orig_dir: self.orig_dir@,
            cargo_args: views(self.cargo_args@),
            configure_args: views(self.configure_args@),
            root_id: self.root_id@,
            root_name: self.root_name@,
            deps: views(self.deps@),
            prefix: self.prefix@,
            files: pair_views(self.files@),
            stage: self.stage,
        }
    }
}

/// A run that has not started, for these options, root package and working directory.
pub open spec fn initial(
    opts_build_args: Seq<Seq<char>>,
    hdk_only: bool,
    clean: bool,
    cmake: Seq<char>,
    hdk_path: Seq<char>,
    prefix: Seq<char>,
    deps: Seq<Seq<char>>,
    root_name: Seq<char>,
    root_id: Seq<char>,
    root_dir: Seq<char>,
    orig_dir: Seq<char>,
) -> PipelineView {
    let p = profile_of(opts_build_args);
    PipelineView {
        clean,
        hdk_only,
        profile: p,
        build_dir: build_dir_of(root_dir, hdk_path, p),
        orig_dir,
        cargo_args: cargo_args_of(opts_build_args, clean),
        configure_args: configure_args_of(tokens_of(cmake), p),
        root_id,
        root_name,
        deps,
        prefix,
        files: Seq::empty(),
        stage: Stage::Start,
    }
}

pub open spec fn goto(s: PipelineView, stage: Stage) -> PipelineView {
    PipelineView { stage, ..s }
}

pub open spec fn finish(s: PipelineView, result: Result<(), BuildError>) -> (
    PipelineView,
    ActionView,
) {
    (goto(s, Stage::Finished { result }), ActionView::Finish(result))
}

/// Make the build directory the working directory.
pub open spec fn enter(s: PipelineView) -> (PipelineView, ActionView) {
    (goto(s, Stage::EnteringDir), ActionView::SetCurrentDir(s.build_dir))
}

/// Go back to the original working directory, then end with `outcome`.
pub open spec fn restore(s: PipelineView, outcome: Result<(), BuildError>) -> (
    PipelineView,
    ActionView,
) {
    (goto(s, Stage::Restoring { outcome }), ActionView::SetCurrentDir(s.orig_dir))
}

/// What follows once the build directory is made or removed.
pub open spec fn after_dir(s: PipelineView) -> (PipelineView, ActionView) {
    if !s.hdk_only {
        (goto(s, Stage::RunningCargo), ActionView::RunCargo(s.cargo_args))
    } else if s.clean {
        finish(s, Ok(()))
    } else {
        enter(s)
    }
}

/// Write the output-directory file of index `i`, or enter the build directory when
/// all are written.
pub open spec fn cache_next(s: PipelineView, i: int) -> (PipelineView, ActionView) {
    if 0 <= i < s.files.len() {
        (
            goto(s, Stage::MakingCacheDir { index: i as usize }),
            ActionView::CreateParentDirs(s.files[i].0),
        )
    } else {
        enter(s)
    }
}

pub open spec fn succeeded(r: ReplyView) -> bool {
    r is Done || r is AlreadyDone
}

pub open spec fn exited_ok(r: ReplyView) -> bool {
    match r {
        ReplyView::Exited(success, _) => success,
        _ => false,
    }
}

/// The run's next state and action, given the reply to its last action.
pub open spec fn transition(s: PipelineView, r: ReplyView) -> (PipelineView, ActionView) {
    match s.stage {
        Stage::Start => if s.clean {
            (goto(s, Stage::PreparingDir), ActionView::RemoveDir(s.build_dir))
        } else {
            (goto(s, Stage::PreparingDir), ActionView::CreateDir(s.build_dir))
        },
        Stage::PreparingDir => if succeeded(r) {
            after_dir(s)
        } else if s.clean {
            finish(s, Err(BuildError::CleanFailed))
        } else {
            finish(s, Err(BuildError::BuildDirCreateFailed))
        },
        Stage::RunningCargo => if !exited_ok(r) {
            if s.clean {
                finish(s, Err(BuildError::ManagedCleanFailed))
            } else {
                finish(s, Err(BuildError::ManagedBuildFailed))
            }
        } else if s.clean {
            finish(s, Ok(()))
        } else if !nesting_within_bound(r->Exited_1) {
            finish(s, Err(BuildError::EventStreamInvalid))
        } else {
            match build_events_of(r->Exited_1) {
                None => finish(s, Err(BuildError::EventStreamInvalid)),
                Some(events) => {
                    let recs = records_of(events, s.root_id, s.root_name, s.deps);
                    let t = PipelineView {
                        files: cache_files_of(s.build_dir, s.prefix, latest_of(recs)),
                        ..s
                    };
                    cache_next(t, 0)
                },
            }
        },
        Stage::MakingCacheDir { index } => if succeeded(r) && index < s.files.len() {
            (
                goto(s, Stage::WritingCache { index }),
                ActionView::WriteFile(s.files[index as int].0, s.files[index as int].1),
            )
        } else {
            finish(s, Err(BuildError::CacheDirCreateFailed))
        },
        Stage::WritingCache { index } => if r is Done {
            cache_next(s, index + 1)
        } else {
            finish(s, Err(BuildError::CacheWriteFailed))
        },
        Stage::EnteringDir => if r is Done {
            (goto(s, Stage::Configuring), ActionView::RunCmake(s.configure_args))
        } else {
            finish(s, Err(BuildError::EnterDirFailed))
        },
        Stage::Configuring => if exited_ok(r) {
            (goto(s, Stage::BuildingNative), ActionView::RunCmake(native_build_args_of()))
        } else {
            restore(s, Err(BuildError::ConfigureFailed))
        },
        Stage::BuildingNative => if exited_ok(r) {
            restore(s, Ok(()))
        } else {
            restore(s, Err(BuildError::NativeBuildFailed))
        },
        Stage::Restoring { outcome } => if r is Done {
            finish(s, outcome)
        } else {
            finish(s, Err(BuildError::DirectoryRestoreFailed))
        },
        Stage::Finished { result } => (s, ActionView::Finish(result)),
    }
}

/// Where the process's working directory is, as a run's stage implies: in the build
/// directory while the generator runs and until it is restored; back where it was
/// before and after, unless restoring it failed.
pub open spec fn cwd_consistent(s: PipelineView, cwd: Seq<char>) -> bool {
    match s.stage {
        Stage::Configuring | Stage::BuildingNative | Stage::Restoring { .. } => cwd == s.build_dir,
        Stage::Finished { result } => cwd == s.orig_dir || result == Err::<(), BuildError>(
            BuildError::DirectoryRestoreFailed,
        ),
        _ => cwd == s.orig_dir,
    }
}

/// The working directory once the driver has performed the action that the run waits
/// on in stage `s.stage`, with reply `r`: only a successful change of directory moves it.
pub open spec fn cwd_after(s: PipelineView, r: ReplyView, cwd: Seq<char>) -> Seq<char> {
    match s.stage {
        Stage::EnteringDir => if r is Done {
            s.build_dir
        } else {
            cwd
        },
        Stage::Restoring { .. } => if r is Done {
            s.orig_dir
        } else {
            cwd
        },
        _ => cwd,
    }
}

/// A run starts in the original working directory.
pub proof fn lemma_start_in_orig_dir(s: PipelineView)
    requires
        s.stage is Start,
    ensures
        cwd_consistent(s, s.orig_dir),
{
}

/// The working directory is restored on every path: each step keeps the working
/// directory where the stage says, a directory change is handed out only to enter the
/// build directory or to go back to the original one, and a finished run is back in the
/// original directory, whether the native build succeeded or failed, unless going back
/// itself failed.
pub proof fn lemma_cwd_restored(s: PipelineView, r: ReplyView, cwd: Seq<char>)
    requires
        cwd_consistent(s, cwd),
    ensures
        cwd_consistent(transition(s, r).0, cwd_after(s, r, cwd)),
        transition(s, r).0.build_dir == s.build_dir,
        transition(s, r).0.orig_dir == s.orig_dir,
        transition(s, r).0.configure_args == s.configure_args,
        transition(s, r).1 is SetCurrentDir ==> (transition(s, r).0.stage is EnteringDir
            && transition(s, r).1 == ActionView::SetCurrentDir(s.build_dir)) || (transition(
            s,
            r,
        ).0.stage is Restoring && transition(s, r).1 == ActionView::SetCurrentDir(s.orig_dir)),
        transition(s, r).0.stage matches Stage::Finished { result } && result != Err::<
            (),
            BuildError,
        >(BuildError::DirectoryRestoreFailed) ==> cwd_after(s, r, cwd) == s.orig_dir,
{
}

/// The run of `replies` from `s`: the state it reaches and the actions it hands out.
pub open spec fn run(s: PipelineView, replies: Seq<ReplyView>) -> (PipelineView, Seq<ActionView>)
    decreases replies.len(),
{
    if replies.len() == 0 {
        (s, Seq::empty())
    } else {
        let (t, acts) = run(s, replies.drop_last());
        let (u, a) = transition(t, replies.last());
        (u, acts.push(a))
    }
}

/// Once the event stream is read, writing the output-directory files with every
/// action done leads to entering the build directory.
pub proof fn lemma_cache_writes_lead_to_build_dir(s: PipelineView, i: int)
    requires
        0 <= i <= s.files.len(),
        s.files.len() < usize::MAX,
    ensures
        run(cache_next(s, i).0, Seq::new((2 * (s.files.len() - i)) as nat, |k: int| ReplyView::Done)).0
            == enter(s).0,
    decreases s.files.len() - i,
{
    let n = (2 * (s.files.len() - i)) as nat;
    let dones = Seq::new(n, |k: int| ReplyView::Done);
    if i == s.files.len() {
        assert(dones.len() == 0);
    } else {
        let t = cache_next(s, i).0;
        let t1 = transition(t, ReplyView::Done).0;
        assert(t1 == goto(s, Stage::WritingCache { index: i as usize }));
        assert(transition(t1, ReplyView::Done).0 == cache_next(s, i + 1).0);
        lemma_cache_writes_lead_to_build_dir(s, i + 1);
        lemma_run_append(t, seq![ReplyView::Done, ReplyView::Done], Seq::new((2 * (s.files.len() - i - 1)) as nat, |k: int| ReplyView::Done));
        assert(seq![ReplyView::Done, ReplyView::Done] + Seq::new((2 * (s.files.len() - i - 1)) as nat, |k: int| ReplyView::Done) =~= dones);
        assert(run(t, seq![ReplyView::Done, ReplyView::Done]).0 == cache_next(s, i + 1).0) by {
            let two = seq![ReplyView::Done, ReplyView::Done];
            let one = seq![ReplyView::Done];
            assert(one.drop_last() =~= Seq::<ReplyView>::empty());
            assert(run(t, Seq::<ReplyView>::empty()).0 == t);
            assert(run(t, one).0 == t1);
            assert(two.drop_last() =~= one);
            assert(run(t, two).0 == transition(t1, ReplyView::Done).0);
        }
    }
}

/// A debug build of a project with the plugin at `./hdk` and the configuration string
/// `[-G Ninja]`: the run first creates `<root>/./hdk/build_debug`; once cargo has built
/// and every output-directory file is written, it enters that directory and, with it as
/// the working directory, configures with `..`, `-G`, `Ninja` and the Debug definition.
pub proof fn lemma_end_to_end_debug(
    args: Seq<Seq<char>>,
    prefix: Seq<char>,
    deps: Seq<Seq<char>>,
    root_name: Seq<char>,
    root_id: Seq<char>,
    root_dir: Seq<char>,
    orig_dir: Seq<char>,
    stdout: Seq<u8>,
)
    requires
        !has_release_flag(args),
        nesting_within_bound(stdout),
        build_events_of(stdout) is Some,
        run(
            initial(args, false, false, "[-G Ninja]"@, "./hdk"@, prefix, deps, root_name, root_id, root_dir, orig_dir),
            seq![ReplyView::Done, ReplyView::Done, ReplyView::Exited(true, stdout)],
        ).0.files.len() < usize::MAX,
    ensures
        ({
            let s0 = initial(args, false, false, "[-G Ninja]"@, "./hdk"@, prefix, deps, root_name, root_id, root_dir, orig_dir);
            let dir = joined(joined(root_dir, "./hdk"@), "build_debug"@);
            let built = run(s0, seq![ReplyView::Done, ReplyView::Done, ReplyView::Exited(true, stdout)]);
            let entered = run(built.0, Seq::new((2 * built.0.files.len()) as nat, |k: int| ReplyView::Done)).0;
            &&& transition(s0, ReplyView::Done).1 == ActionView::CreateDir(dir)
            &&& built.1[1] == ActionView::RunCargo(seq!["build"@, "--message-format=json"@] + forwarded(args))
            &&& entered.stage is EnteringDir
            &&& cwd_after(entered, ReplyView::Done, orig_dir) == dir
            &&& transition(entered, ReplyView::Done) == (
                goto(entered, Stage::Configuring),
                ActionView::RunCmake(seq![".."@, "-G"@, "Ninja"@, "-DCMAKE_BUILD_TYPE=Debug"@]),
            )
        }),
{
    let s0 = initial(args, false, false, "[-G Ninja]"@, "./hdk"@, prefix, deps, root_name, root_id, root_dir, orig_dir);
    let three = seq![ReplyView::Done, ReplyView::Done, ReplyView::Exited(true, stdout)];
    let two = seq![ReplyView::Done, ReplyView::Done];
    let one = seq![ReplyView::Done];
    assert(three.drop_last() =~= two);
    assert(two.drop_last() =~= one);
    assert(one.drop_last() =~= Seq::<ReplyView>::empty());
    let s1 = transition(s0, ReplyView::Done).0;
    let s2 = transition(s1, ReplyView::Done).0;
    assert(run(s0, Seq::<ReplyView>::empty()) == (s0, Seq::<ActionView>::empty()));
    assert(one.last() == ReplyView::Done);
    assert(two.last() == ReplyView::Done);
    assert(run(s0, one).1 =~= seq![transition(s0, ReplyView::Done).1]);
    assert(run(s0, one).0 == s1);
    assert(run(s0, two).0 == s2);
    assert(run(s0, two).1 =~= seq![transition(s0, ReplyView::Done).1, transition(s1, ReplyView::Done).1]);
    let built = run(s0, three);
    let t = built.0;
    let evs = build_events_of(stdout)->Some_0;
    let t0 = PipelineView {
        files: cache_files_of(s0.build_dir, s0.prefix, latest_of(records_of(evs, s0.root_id, s0.root_name, s0.deps))),
        ..s2
    };
    assert(t == cache_next(t0, 0).0);
    lemma_cache_writes_lead_to_build_dir(t0, 0);
    lemma_bracketed_generator_tokens();
    assert(configure_args_of(seq!["-G"@, "Ninja"@], BuildProfile::Debug) =~= seq![".."@, "-G"@, "Ninja"@, "-DCMAKE_BUILD_TYPE=Debug"@]);
}

/// A run of `a` then `b` reaches the state that a run of `b` reaches from where `a` ends.
pub proof fn lemma_run_append(s: PipelineView, a: Seq<ReplyView>, b: Seq<ReplyView>)
    ensures
        run(s, a + b).0 == run(run(s, a).0, b).0,
    decreases b.len(),
{
    if b.len() == 0 {
        assert(a + b =~= a);
    } else {
        lemma_run_append(s, a, b.drop_last());
        assert((a + b).drop_last() =~= a + b.drop_last());
        assert((a + b).last() == b.last());
    }
}

/// Cleaning does not depend on whether the build directory was there: a reply that it
/// was already absent leads on exactly as a removal does, and never to an error.
pub proof fn lemma_clean_twice(s: PipelineView)
    requires
        s.clean,
        s.stage is PreparingDir,
    ensures
        transition(s, ReplyView::AlreadyDone) == transition(s, ReplyView::Done),
        !(transition(s, ReplyView::AlreadyDone).1 matches ActionView::Finish(Err(_))),
{
}

/// The index of a stage that writes a file names one of the files.
pub open spec fn well_formed(s: PipelineView) -> bool {
    match s.stage {
        Stage::MakingCacheDir { index } => index < s.files.len(),
        Stage::WritingCache { index } => index < s.files.len(),
        _ => true,
    }
}

fn reply_succeeded(r: &Reply) -> (b: bool)
    ensures
        b == succeeded(r@),
{
    match r {
        Reply::Done => true,
        Reply::AlreadyDone => true,
        _ => false,
    }
}

fn reply_done(r: &Reply) -> (b: bool)
    ensures
        b == (r@ is Done),
{
    match r {
        Reply::Done => true,
        _ => false,
    }
}

fn reply_exited_ok(r: &Reply) -> (b: bool)
    ensures
        b == exited_ok(r@),
{
    match r {
        Reply::Exited { success, .. } => *success,
        _ => false,
    }
}

fn copy_strings(v: &Vec<String>) -> (r: Vec<String>)
    ensures
        views(r@) == views(v@),
{
    let mut r: Vec<String> = Vec::new();
    let mut i: usize = 0;
    while i < v.len()
        invariant
            i <= v@.len(),
            views(r@) == views(v@).subrange(0, i as int),
        decreases v@.len() - i,
    {
        let ghost prev = r@;
        r.push(v[i].clone());
        assert(views(r@) =~= views(prev).push(v@[i as int]@));
        assert(views(v@).subrange(0, i + 1) =~= views(v@).subrange(0, i as int).push(v@[i as int]@));
        i += 1;
    }
    assert(views(v@).subrange(0, v@.len() as int) =~= views(v@));
    r
}

impl Pipeline {
    /// A run that has not started: `orig_dir` is the working directory to come back to.
    pub fn new(opts: &Options, root: &RootPackage, orig_dir: &str) -> (r: Pipeline)
        ensures
            r@ == initial(
                views(opts.build_args@),
                opts.hdk_only,
                opts.clean,
                opts.cmake@,
                opts.hdk_path@,
                opts.out_dir_file_prefix@,
                views(opts.deps@),
                root.name@,
                root.id@,
                root.dir@,
                orig_dir@,
            ),
            well_formed(r@),
    {
        let profile = resolve_profile(&opts.build_args);
        let dir = build_dir(root.dir.as_str(), opts.hdk_path.as_str(), profile);
        let tokens = tokenize(opts.cmake.as_str());
        let r = Pipeline {
            clean: opts.clean,
            hdk_only: opts.hdk_only,
            profile,
            build_dir: dir,
            orig_dir: String::from_str(orig_dir),
            cargo_args: cargo_args(&opts.build_args, opts.clean),
            configure_args: configure_args(&tokens, profile),
            root_id: root.id.clone(),
            root_name: root.name.clone(),
            deps: copy_strings(&opts.deps),
            prefix: opts.out_dir_file_prefix.clone(),
            files: Vec::new(),
            stage: Stage::Start,
        };
        assert(pair_views(r.files@) =~= Seq::<(Seq<char>, Seq<char>)>::empty());
        assert(r@ =~= initial(
            views(opts.build_args@),
            opts.hdk_only,
            opts.clean,
            opts.cmake@,
            opts.hdk_path@,
            opts.out_dir_file_prefix@,
            views(opts.deps@),
            root.name@,
            root.id@,
            root.dir@,
            orig_dir@,
        ));
        r
    }

    /// Where the run stands.
    pub fn stage(&self) -> (r: Stage)
        ensures
            r == self@.stage,
    {
        self.stage
    }

    fn finish(&mut self, result: Result<(), BuildError>) -> (a: Action)
        ensures
            (final(self)@, a@) == finish(old(self)@, result),
    {
        self.stage = Stage::Finished { result };
        Action::Finish { result }
    }

    fn enter(&mut self) -> (a: Action)
        ensures
            (final(self)@, a@) == enter(old(self)@),
    {
        self.stage = Stage::EnteringDir;
        Action::SetCurrentDir { path: self.build_dir.clone() }
    }

    fn restore(&mut self, outcome: Result<(), BuildError>) -> (a: Action)
        ensures
            (final(self)@, a@) == restore(old(self)@, outcome),
    {
        self.stage = Stage::Restoring { outcome };
        Action::SetCurrentDir { path: self.orig_dir.clone() }
    }

    fn cache_next(&mut self, i: usize) -> (a: Action)
        ensures
            (final(self)@, a@) == cache_next(old(self)@, i as int),
            well_formed(final(self)@),
    {
        if i < self.files.len() {
            self.stage = Stage::MakingCacheDir { index: i };
            Action::CreateParentDirs { path: self.files[i].0.clone() }
        } else {
            self.enter()
        }
    }

    /// Takes the reply to the last action (any reply, at the start) and hands out the
    /// next action. Once the run is finished, it hands out its result again.
    pub fn step(&mut self, reply: Reply) -> (a: Action)
        requires
            well_formed(old(self)@),
        ensures
            (final(self)@, a@) == transition(old(self)@, reply@),
            well_formed(final(self)@),
    {
        match self.stage {
            Stage::Start => {
                self.stage = Stage::PreparingDir;
                if self.clean {
                    Action::RemoveDir { path: self.build_dir.clone() }
                } else {
                    Action::CreateDir { path: self.build_dir.clone() }
                }
            },
            Stage::PreparingDir => {
                if reply_succeeded(&reply) {
                    if !self.hdk_only {
                        self.stage = Stage::RunningCargo;
                        Action::RunCargo { args: copy_strings(&self.cargo_args) }
                    } else if self.clean {
                        self.finish(Ok(()))
                    } else {
                        self.enter()
                    }
                } else if self.clean {
                    self.finish(Err(BuildError::CleanFailed))
                } else {
                    self.finish(Err(BuildError::BuildDirCreateFailed))
                }
            },
            Stage::RunningCargo => {
                if !reply_exited_ok(&reply) {
                    if self.clean {
                        self.finish(Err(BuildError::ManagedCleanFailed))
                    } else {
                        self.finish(Err(BuildError::ManagedBuildFailed))
                    }
                } else if self.clean {
                    self.finish(Ok(()))
                } else {
                    let stdout = match reply {
                        Reply::Exited { stdout, .. } => stdout,
                        _ => Vec::new(),
                    };
                    if !check_nesting(&stdout) {
                        return self.finish(Err(BuildError::EventStreamInvalid));
                    }
                    match parse_build_events(&stdout) {
                        None => self.finish(Err(BuildError::EventStreamInvalid)),
                        Some(events) => {
                            let recs = collect_records(
                                &events,
                                self.root_id.as_str(),
                                self.root_name.as_str(),
                                &self.deps,
                            );
                            self.files = cache_files(
                                self.build_dir.as_str(),
                                self.prefix.as_str(),
                                &recs,
                            );
                            self.cache_next(0)
                        },
                    }
                }
            },
            Stage::MakingCacheDir { index } => {
                if reply_succeeded(&reply) && index < self.files.len() {
                    self.stage = Stage::WritingCache { index };
                    Action::WriteFile {
                        path: self.files[index].0.clone(),
                        contents: self.files[index].1.clone(),
                    }
                } else {
                    self.finish(Err(BuildError::CacheDirCreateFailed))
                }
            },
            Stage::WritingCache { index } => {
                if reply_done(&reply) {
                    assert(pair_views(self.files@).len() == self.files@.len());
                    assert(index < self.files.len());
                    self.cache_next(index + 1)
                } else {
                    self.finish(Err(BuildError::CacheWriteFailed))
                }
            },
            Stage::EnteringDir => {
                if reply_done(&reply) {
                    self.stage = Stage::Configuring;
                    Action::RunCmake { args: copy_strings(&self.configure_args) }
                } else {
                    self.finish(Err(BuildError::EnterDirFailed))
                }
            },
            Stage::Configuring => {
                if reply_exited_ok(&reply) {
                    self.stage = Stage::BuildingNative;
                    Action::RunCmake { args: native_build_args() }
                } else {
                    self.restore(Err(BuildError::ConfigureFailed))
                }
            },
            Stage::BuildingNative => {
                if reply_exited_ok(&reply) {
                    self.restore(Ok(()))
                } else {
                    self.restore(Err(BuildError::NativeBuildFailed))
                }
            },
            Stage::Restoring { outcome } => {
                if reply_done(&reply) {
                    self.finish(outcome)
                } else {
                    self.finish(Err(BuildError::DirectoryRestoreFailed))
                }
            },
            Stage::Finished { result } => Action::Finish { result },
        }
    }
}

} // verus!

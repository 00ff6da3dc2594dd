//! The state of the language server, and what each event makes of it.

use crate::command::{
    check_view, clean_view, displayed, displays_as, single_file_view, Compiler, Invocation,
    InvocationView, Platform, Tools,
};
use crate::decoration::{
    answers, conclude, decides, pick_items, show, CursorRequest, Decorations, Passes,
};
use crate::metadata::{
    count_dependencies, dependency_count, find_package_name, metadata_view, root_package_name,
    Metadata, MetadataView,
};
use crate::models::{absorb, absorbs, Crate, FileView, Loc};
use crate::path::{child, has_parent, lies_in, splits_into, FilePath, PathView};
use crate::progress::{AnalysisStatus, CargoCheckMessage, CheckProgress, ProgressView, Report};
use crate::roots::{
    covering, distinct_roots, has_root, root_of, root_views, search_dir, searching, with_root,
    Root, RootSearch, RootTable, RootView, SearchStep,
};
use crate::uri::{file_of, names_file, names_path, path_of};
use std::path::PathBuf;
use tower_lsp::lsp_types::Url;
use vstd::prelude::*;

verus! {

/// How often the client is looked after, in seconds.
pub const HEALTH_CHECK_SECONDS: u64 = 30;

/// How long an analysis waits before it starts, in milliseconds.
pub const ANALYSIS_DELAY_MILLIS: u64 = 100;

/// A process of the analysis, by its id. A process that has already ended has
/// none.
pub type Subprocess = Option<u32>;

/// An analysis to run.
#[derive(Debug, PartialEq, Eq)]
pub enum Job {
    /// Check all registered roots.
    Roots { all_targets: bool, all_features: bool },
    /// Compile the one file.
    SingleFile(PathBuf),
}

/// How the watch over the client's process goes on.
#[derive(Clone, Copy, Debug, PartialEq, Eq, Structural)]
pub enum WatchStep {
    /// Wait so many seconds, then see whether the process is alive.
    Wait(u64),
    /// The client is gone: give up.
    Fail,
}

/// The watch over a process.
#[derive(Clone, Copy, Debug, PartialEq, Eq, Structural)]
pub struct HealthWatch {
    pub process_id: u32,
    pub step: WatchStep,
}

/// How text documents are synchronized.
#[derive(Clone, Copy, Debug, PartialEq, Eq, Structural)]
pub enum SyncKind {
    Full,
    Incremental,
}

/// What the server offers to the client.
#[derive(Clone, Copy, Debug, PartialEq, Eq, Structural)]
pub struct ServerCapabilities {
    pub open_close: bool,
    pub save: bool,
    pub change: SyncKind,
    pub workspace_folders: bool,
    pub workspace_folder_changes: bool,
}

/// What the client says of its window.
#[derive(Clone, Copy, Debug, PartialEq, Eq, Structural)]
pub struct WindowCapabilities {
    pub work_done_progress: Option<bool>,
}

/// What the client says when it connects.
#[derive(Debug)]
pub struct InitializeParams {
    pub workspace_folders: Option<Vec<Url>>,
    pub window: Option<WindowCapabilities>,
    pub process_id: Option<u32>,
}

/// What the client is answered, and the watch to keep over its process, where it
/// has named that.
#[derive(Clone, Copy, Debug, PartialEq, Eq, Structural)]
pub struct InitializeResult {
    pub capabilities: ServerCapabilities,
    pub watch: Option<HealthWatch>,
}

/// What starts an analysis: the process groups to stop first, and the roots to
/// check.
#[derive(Debug)]
pub struct AnalysisStart {
    pub stopped_groups: Vec<i32>,
    pub roots: Vec<Root>,
}

/// The check of one root.
#[derive(Debug)]
pub struct RootRun<'a> {
    /// The removal of what was built, where the package is known.
    pub clean: Option<Invocation<'a>>,
    pub check: Invocation<'a>,
    pub progress: CheckProgress,
    /// The file that the result is written to.
    pub cache: FilePath,
}

/// What a [`RootRun`] says.
pub struct RootRunView {
    pub clean: Option<InvocationView>,
    pub check: InvocationView,
    pub progress: ProgressView,
    pub cache: PathView,
}

impl View for RootRun<'_> {
    type V = RootRunView;

    open spec fn view(&self) -> RootRunView {
        RootRunView {
            clean: match self.clean {
                None => None,
                Some(run) => Some(run@),
            },
            check: self.check@,
            progress: self.progress@,
            cache: self.cache@,
        }
    }
}

impl RootRunView {
    /// The processes in the order in which they run: each starts once the one
    /// before it has ended.
    pub open spec fn processes(self) -> Seq<InvocationView> {
        (match self.clean {
            Some(clean) => seq![clean],
            None => seq![],
        }) + seq![self.check]
    }
}

impl<'a> RootRun<'a> {
    /// The processes in the order in which they run: each starts once the one
    /// before it has ended. The last one is the check.
    pub fn processes(&self) -> (processes: Vec<&Invocation<'a>>)
        ensures
            processes@.map_values(|run: &Invocation<'a>| run@) == self@.processes(),
            processes@.last() == self.check,
    {
        let mut processes: Vec<&Invocation<'a>> = Vec::new();
        match &self.clean {
            Some(clean) => {
                processes.push(clean);
            },
            None => {},
        }
        processes.push(&self.check);
        assert(processes@.map_values(|run: &Invocation<'a>| run@) =~= self@.processes());
        processes
    }
}

/// A check from the command line: the state that it starts from, the search
/// for the root to carry out first, and the analysis to run.
#[derive(Debug)]
pub struct CheckStart<I> {
    pub backend: Backend<I>,
    pub search: Option<SearchStep>,
    pub job: Job,
}

/// The state of the server.
///
/// `I` is the type of the items that an analysis finds in a file.
#[derive(Debug)]
pub struct Backend<I> {
    workspaces: Vec<FilePath>,
    roots: RootTable,
    status: AnalysisStatus,
    analyzed: Option<Crate<I>>,
    subprocesses: Vec<Subprocess>,
    work_done_progress: bool,
}

/// What a [`Backend`] knows.
pub struct BackendView<I> {
    pub workspaces: Seq<PathView>,
    pub roots: Seq<RootView>,
    pub status: AnalysisStatus,
    pub analyzed: Option<Crate<I>>,
    pub subprocesses: Seq<Subprocess>,
    pub work_done_progress: bool,
}

impl<I> View for Backend<I> {
    type V = BackendView<I>;

    closed spec fn view(&self) -> BackendView<I> {
        BackendView {
            workspaces: path_views(self.workspaces@),
            roots: self.roots@,
            status: self.status,
            analyzed: self.analyzed,
            subprocesses: self.subprocesses@,
            work_done_progress: self.work_done_progress,
        }
    }
}

/// What the paths say, one by one.
pub open spec fn path_views(paths: Seq<FilePath>) -> Seq<PathView> {
    paths.map_values(|path: FilePath| path@)
}

/// What an optional path says.
pub open spec fn path_view(path: Option<FilePath>) -> Option<PathView> {
    match path {
        Some(known) => Some(known@),
        None => None,
    }
}

/// The paths among `paths`, in order.
pub open spec fn known_paths(paths: Seq<Option<PathView>>) -> Seq<PathView>
    decreases paths.len(),
{
    if paths.len() == 0 {
        seq![]
    } else {
        match paths.last() {
            Some(path) => known_paths(paths.drop_last()).push(path),
            None => known_paths(paths.drop_last()),
        }
    }
}

/// Asking `folders` for their paths can give `paths`.
pub open spec fn name_paths(folders: Seq<Url>, paths: Seq<Option<PathView>>) -> bool {
    paths.len() == folders.len() && forall|i: int|
        0 <= i < paths.len() ==> names_path(folders[i], #[trigger] paths[i])
}

/// The process groups of `subprocesses`, the last one first.
pub open spec fn groups_of(subprocesses: Seq<Subprocess>) -> Seq<int>
    decreases subprocesses.len(),
{
    if subprocesses.len() == 0 {
        seq![]
    } else {
        (match subprocesses.last() {
            Some(pid) => seq![pid as int],
            None => seq![],
        }) + groups_of(subprocesses.drop_last())
    }
}

/// Each process id can be that of a process group.
pub open spec fn are_groups(subprocesses: Seq<Subprocess>) -> bool {
    forall|i: int|
        0 <= i < subprocesses.len() ==> ((#[trigger] subprocesses[i]) matches Some(pid) ==> pid
            <= i32::MAX)
}

/// The subprocesses that are not `pid`.
pub open spec fn other_than(pid: Subprocess) -> spec_fn(Subprocess) -> bool {
    |other: Subprocess| other != pid
}

/// The crates that a line reports: none where it is no report.
pub open spec fn reported<I>(krates: Option<Vec<Crate<I>>>) -> Seq<Crate<I>> {
    match krates {
        Some(known) => known@,
        None => seq![],
    }
}

/// Whether the analysis has reported any file.
pub open spec fn has_report<I>(analyzed: Option<Crate<I>>) -> bool {
    analyzed matches Some(krate) && krate@.len() > 0
}

/// Whether the client asks for progress reports.
pub open spec fn wants_progress(window: Option<WindowCapabilities>) -> bool {
    window matches Some(known) && known.work_done_progress == Some(true)
}

/// What the server offers.
pub open spec fn offered() -> ServerCapabilities {
    ServerCapabilities {
        open_close: true,
        save: true,
        change: SyncKind::Incremental,
        workspace_folders: true,
        workspace_folder_changes: true,
    }
}

/// The file to analyze when a document is opened: only Rust is.
pub open spec fn opened_file(file: Option<PathBuf>, language_id: Seq<char>) -> Option<PathBuf> {
    if language_id == "rust"@ {
        file
    } else {
        None
    }
}

/// The analysis that the server runs on its own: of all roots, with all targets
/// and features.
pub open spec fn full_job() -> Job {
    Job::Roots { all_targets: true, all_features: true }
}

/// The analysis of a file. A file of a registered root is analyzed with all
/// roots, any other on its own.
pub open spec fn job_for(registered: bool, file: PathBuf) -> Job {
    if registered {
        full_job()
    } else {
        Job::SingleFile(file)
    }
}

/// The watch over a process: it is waited for, and seen to again, as long as it
/// is alive.
pub open spec fn watch_step(alive: bool) -> WatchStep {
    if alive {
        WatchStep::Wait(HEALTH_CHECK_SECONDS)
    } else {
        WatchStep::Fail
    }
}

/// The watch over the client's process, where the client has named it.
pub open spec fn watch_over(process_id: Option<u32>) -> Option<HealthWatch> {
    match process_id {
        Some(process_id) => Some(HealthWatch { process_id, step: watch_step(true) }),
        None => None,
    }
}

/// `start` is how a check of `file` starts, whose components are `path`.
pub open spec fn starts_check<I>(
    file: PathBuf,
    path: PathView,
    is_dir: bool,
    all_targets: bool,
    all_features: bool,
    start: CheckStart<I>,
) -> bool {
    if is_dir {
        &&& start.backend@ == BackendView::<I>::initial().with_workspaces(seq![path])
        &&& start.search matches Some(step) && step@ == searching::<Metadata>(path, 1)
        &&& start.job == Job::Roots { all_targets, all_features }
    } else {
        &&& start.backend@ == BackendView::<I>::initial()
        &&& start.search is None
        &&& start.job == Job::SingleFile(file)
    }
}

impl<I> BackendView<I> {
    /// The state that the server starts with.
    pub open spec fn initial() -> BackendView<I> {
        BackendView {
            workspaces: seq![],
            roots: seq![],
            status: AnalysisStatus::Finished,
            analyzed: None,
            subprocesses: seq![],
            work_done_progress: false,
        }
    }

    /// With more workspaces.
    pub open spec fn with_workspaces(self, added: Seq<PathView>) -> BackendView<I> {
        BackendView { workspaces: self.workspaces + added, ..self }
    }

    /// With a root registered.
    pub open spec fn with_root(self, root: RootView) -> BackendView<I> {
        BackendView { roots: with_root(self.roots, root), ..self }
    }

    /// Whether the subprocesses can be stopped: each is, on Unix, by its process
    /// group.
    pub open spec fn can_abort(self, platform: Platform) -> bool {
        platform == Platform::Unix ==> are_groups(self.subprocesses)
    }

    /// The process groups that an abort stops.
    pub open spec fn aborted_groups(self, platform: Platform) -> Seq<int> {
        if platform == Platform::Unix {
            groups_of(self.subprocesses)
        } else {
            seq![]
        }
    }

    /// After an abort. On Unix no subprocess is left.
    pub open spec fn aborted(self, platform: Platform) -> BackendView<I> {
        if platform == Platform::Unix {
            BackendView { subprocesses: seq![], ..self }
        } else {
            self
        }
    }

    /// At the start of an analysis.
    pub open spec fn analyzing(self, platform: Platform) -> BackendView<I> {
        BackendView { status: AnalysisStatus::Analyzing, ..self.aborted(platform) }
    }

    /// With a subprocess more.
    pub open spec fn started(self, pid: Subprocess) -> BackendView<I> {
        BackendView { subprocesses: self.subprocesses.push(pid), ..self }
    }

    /// The subprocesses other than `pid`.
    pub open spec fn without(self, pid: Subprocess) -> Seq<Subprocess> {
        self.subprocesses.filter(other_than(pid))
    }

    /// The status once nothing runs any more. An error stays.
    pub open spec fn settled(self) -> AnalysisStatus {
        if self.status != AnalysisStatus::Error && has_report(self.analyzed) {
            AnalysisStatus::Finished
        } else {
            AnalysisStatus::Error
        }
    }

    /// After a subprocess has ended. The last one settles the status.
    pub open spec fn finished(self, pid: Subprocess) -> BackendView<I> {
        BackendView {
            subprocesses: self.without(pid),
            status: if self.without(pid).len() == 0 {
                self.settled()
            } else {
                self.status
            },
            ..self
        }
    }

    /// Without what was analyzed.
    pub open spec fn discarded(self) -> BackendView<I> {
        BackendView { analyzed: None, ..self }
    }

    /// With progress reports, where the client asks for them.
    pub open spec fn with_progress(self, window: Option<WindowCapabilities>) -> BackendView<I> {
        BackendView {
            work_done_progress: self.work_done_progress || wants_progress(window),
            ..self
        }
    }

    /// The analyzed files, where there is an analysis.
    pub open spec fn files(self) -> Option<Seq<FileView<I>>> {
        match self.analyzed {
            Some(krate) => Some(krate@),
            None => None,
        }
    }

    /// The check of `root`.
    pub open spec fn root_run(
        self,
        tools: Tools,
        root: RootView,
        metadata: Option<MetadataView>,
        all_targets: bool,
        all_features: bool,
        quiet: bool,
    ) -> RootRunView {
        RootRunView {
            clean: match root_package_name(metadata) {
                Some(name) => Some(clean_view(tools, root.path, root.target, name)),
                None => None,
            },
            check: check_view(tools, root.path, root.target, all_targets, all_features, quiet),
            progress: ProgressView {
                reporting: self.work_done_progress,
                package_name: root_package_name(metadata),
                dep_count: dependency_count(metadata),
                build_count: 0,
            },
            cache: child(root.target, "cache.json"@),
        }
    }
}

impl<I> Backend<I> {
    /// A server that knows nothing yet.
    pub fn new() -> (backend: Backend<I>)
        ensures
            backend@ == BackendView::<I>::initial(),
    {
        let backend = Backend {
            workspaces: Vec::new(),
            roots: RootTable::new(),
            status: AnalysisStatus::Finished,
            analyzed: None,
            subprocesses: Vec::new(),
            work_done_progress: false,
        };
        assert(backend@.workspaces =~= seq![]);
        assert(backend@.subprocesses =~= seq![]);
        backend
    }

    /// Adds a workspace.
    pub fn set_workspace(&mut self, workspace: FilePath)
        ensures
            final(self)@ == old(self)@.with_workspaces(seq![workspace@]),
    {
        let ghost before = self@;
        self.workspaces.push(workspace);
        assert(self@.workspaces =~= before.workspaces + seq![workspace@]);
    }

    /// Adds the workspaces that are known by their path.
    pub fn set_workspaces(&mut self, paths: Vec<Option<FilePath>>)
        ensures
            final(self)@ == old(self)@.with_workspaces(
                known_paths(paths@.map_values(|path: Option<FilePath>| path_view(path))),
            ),
    {
        let ghost before = self@;
        let ghost all = paths@;
        let ghost views = all.map_values(|path: Option<FilePath>| path_view(path));
        assert(before.workspaces + known_paths(views.take(0)) =~= before.workspaces);
        for path in iter: paths
            invariant
                iter.seq() == all,
                views == all.map_values(|path: Option<FilePath>| path_view(path)),
                self@ == before.with_workspaces(known_paths(views.take(iter.index() as int))),
        {
            let ghost i = iter.index() as int;
            let ghost added = known_paths(views.take(i));
            assert(views.take(i + 1).drop_last() =~= views.take(i));
            assert(views.take(i + 1).last() == path_view(path));
            match path {
                Some(known) => {
                    self.set_workspace(known);
                    assert(before.workspaces + added + seq![known@] =~= before.workspaces
                        + added.push(known@));
                },
                None => {},
            }
        }
        assert(views.take(views.len() as int) =~= views);
    }

    /// Adds the workspaces that the client names. A URI that names no file adds
    /// none.
    pub fn add_folders(&mut self, folders: &Vec<Url>)
        ensures
            exists|paths: Seq<Option<PathView>>| #[trigger]
                name_paths(folders@, paths) && final(self)@ == old(self)@.with_workspaces(
                    known_paths(paths),
                ),
    {
        let mut paths: Vec<Option<FilePath>> = Vec::new();
        let mut i: usize = 0;
        while i < folders.len()
            invariant
                i <= folders@.len(),
                paths@.len() == i,
                forall|k: int|
                    0 <= k < i ==> names_path(folders@[k], path_view(#[trigger] paths@[k])),
            decreases folders@.len() - i,
        {
            paths.push(path_of(&folders[i]));
            i += 1;
        }
        let ghost views = paths@.map_values(|path: Option<FilePath>| path_view(path));
        assert(name_paths(folders@, views));
        self.set_workspaces(paths);
    }

    /// Starts to look for the root of `path`. The root is registered once the
    /// search has found it and [`Backend::end_search`] was called.
    pub fn set_roots(&self, path: &FilePath, is_dir: bool) -> (step: SearchStep)
        requires
            is_dir || has_parent(path@),
        ensures
            step@ == searching::<Metadata>(
                search_dir(path@, is_dir),
                covering(self@.workspaces, search_dir(path@, is_dir)),
            ),
    {
        let dir = if is_dir {
            path.clone()
        } else {
            match path.parent() {
                Some(parent) => parent,
                None => path.clone(),
            }
        };
        let ghost covers = |workspace: PathView| lies_in(dir@, workspace);
        let mut remaining: usize = 0;
        let mut i: usize = 0;
        assert(self@.workspaces.take(0).filter(covers).len() == 0) by {
            self@.workspaces.take(0).lemma_filter_len(covers);
        }
        while i < self.workspaces.len()
            invariant
                i <= self.workspaces@.len(),
                remaining <= i,
                covers == (|workspace: PathView| lies_in(dir@, workspace)),
                remaining == self@.workspaces.take(i as int).filter(covers).len(),
            decreases self.workspaces@.len() - i,
        {
            proof {
                let seen = self@.workspaces.take(i as int);
                let next = self.workspaces@[i as int]@;
                assert(self@.workspaces[i as int] == next);
                assert(self@.workspaces.take(i + 1) =~= seen.push(next));
                seen.lemma_filter_push(next, covers);
            }
            if dir.starts_with(&self.workspaces[i]) {
                remaining += 1;
            }
            i += 1;
        }
        assert(self@.workspaces.take(self@.workspaces.len() as int) =~= self@.workspaces);
        RootSearch { dir, remaining }.step()
    }

    /// The directory to create before the root of `metadata` is registered.
    /// There is none where the root is known.
    pub fn root_target(&self, metadata: &Metadata) -> (target: Option<FilePath>)
        ensures
            path_view(target) == (if has_root(self@.roots, metadata@.workspace_root) {
                None
            } else {
                Some(root_of(metadata@).target)
            }),
    {
        if self.roots.contains(&metadata.workspace_root) {
            None
        } else {
            Some(metadata.target_directory.join("owl"))
        }
    }

    /// Registers the root of `metadata`. A root that is known stays as it is.
    pub fn register_root(&mut self, metadata: &Metadata)
        ensures
            final(self)@ == old(self)@.with_root(root_of(metadata@)),
            has_root(final(self)@.roots, metadata@.workspace_root),
            distinct_roots(final(self)@.roots),
    {
        let target = metadata.target_directory.join("owl");
        self.roots.register(Root { path: metadata.workspace_root.clone(), target });
    }

    /// Ends a search. A root that was found is registered. Tells whether the root
    /// of the file is registered.
    pub fn end_search(&mut self, step: &SearchStep) -> (registered: bool)
        requires
            !(step is Query),
        ensures
            match *step {
                SearchStep::Found(metadata) => registered && final(self)@ == old(self)@.with_root(
                    root_of(metadata@),
                ) && has_root(final(self)@.roots, metadata@.workspace_root),
                _ => !registered && final(self)@ == old(self)@,
            },
    {
        match step {
            SearchStep::Found(metadata) => {
                self.register_root(metadata);
                true
            },
            _ => false,
        }
    }

    /// Gives up all subprocesses. Hands out the process groups to stop, the one
    /// that was started last first. Only on Unix are there process groups;
    /// elsewhere nothing changes.
    pub fn abort_subprocess(&mut self, platform: Platform) -> (groups: Vec<i32>)
        requires
            old(self)@.can_abort(platform),
        ensures
            final(self)@ == old(self)@.aborted(platform),
            groups@.map_values(|group: i32| group as int) == old(self)@.aborted_groups(platform),
    {
        let ghost before = self@;
        let mut groups: Vec<i32> = Vec::new();
        assert(groups@.map_values(|group: i32| group as int) =~= seq![]);
        if platform != Platform::Unix {
            return groups;
        }
        assert(seq![] + groups_of(before.subprocesses) =~= groups_of(before.subprocesses));
        while self.subprocesses.len() > 0
            invariant
                are_groups(self@.subprocesses),
                self@ == (BackendView { subprocesses: self@.subprocesses, ..before }),
                groups@.map_values(|group: i32| group as int) + groups_of(self@.subprocesses)
                    == groups_of(before.subprocesses),
            decreases self.subprocesses@.len(),
        {
            let ghost rest = self@.subprocesses;
            let ghost stopped = groups@.map_values(|group: i32| group as int);
            assert(rest.last() matches Some(pid) ==> pid <= i32::MAX);
            let last = self.subprocesses.pop();
            assert(self@.subprocesses =~= rest.drop_last());
            match last {
                Some(Some(pid)) => {
                    groups.push(pid as i32);
                    assert(groups@.map_values(|group: i32| group as int) =~= stopped.push(
                        pid as int,
                    ));
                    assert(stopped.push(pid as int) + groups_of(rest.drop_last()) =~= stopped
                        + groups_of(rest));
                },
                _ => {
                    assert(groups_of(rest) =~= groups_of(rest.drop_last()));
                },
            }
        }
        assert(self@.subprocesses =~= seq![]);
        assert(groups@.map_values(|group: i32| group as int) + seq![] =~= groups@.map_values(
            |group: i32| group as int,
        ));
        groups
    }

    /// Starts an analysis of all roots. What still runs is stopped.
    pub fn analyze_with_options(&mut self, platform: Platform) -> (start: AnalysisStart)
        requires
            old(self)@.can_abort(platform),
        ensures
            final(self)@ == old(self)@.analyzing(platform),
            start.stopped_groups@.map_values(|group: i32| group as int) == old(
                self,
            )@.aborted_groups(platform),
            root_views(start.roots@) == old(self)@.roots,
    {
        let stopped_groups = self.abort_subprocess(platform);
        self.status = AnalysisStatus::Analyzing;
        AnalysisStart { stopped_groups, roots: self.roots.to_vec() }
    }

    /// Plans the check of `root`, whose metadata may not be known.
    pub fn root_run<'a>(
        &self,
        tools: &'a Tools,
        root: &Root,
        metadata: Option<&Metadata>,
        all_targets: bool,
        all_features: bool,
        quiet: bool,
    ) -> (run: RootRun<'a>)
        ensures
            run@ == self@.root_run(
                *tools,
                root@,
                metadata_view(metadata),
                all_targets,
                all_features,
                quiet,
            ),
    {
        let package_name = find_package_name(metadata);
        let clean = match &package_name {
            Some(name) => Some(Invocation::clean(tools, &root.path, &root.target, name.as_str())),
            None => None,
        };
        RootRun {
            clean,
            check: Invocation::check(
                tools,
                &root.path,
                &root.target,
                all_targets,
                all_features,
                quiet,
            ),
            progress: CheckProgress {
                reporting: self.work_done_progress,
                package_name,
                dep_count: count_dependencies(metadata),
                build_count: 0,
            },
            cache: root.target.join("cache.json"),
        }
    }

    /// Plans the analysis of the file `source`.
    pub fn analyze_single_file<'a>(
        &self,
        compiler: &'a Compiler,
        source: &'a PathBuf,
        platform: Platform,
        quiet: bool,
    ) -> (run: Invocation<'a>)
        ensures
            exists|sysroot: Seq<char>| #[trigger]
                displays_as(compiler.sysroot, sysroot) && run@ == single_file_view(
                    *compiler,
                    sysroot,
                    *source,
                    platform,
                    quiet,
                ),
    {
        let sysroot = displayed(&compiler.sysroot);
        Invocation::single_file(compiler, sysroot.as_str(), source, platform, quiet)
    }

    /// Takes note of a subprocess that was started.
    pub fn started(&mut self, pid: Subprocess)
        ensures
            final(self)@ == old(self)@.started(pid),
    {
        self.subprocesses.push(pid);
    }

    /// Takes note of a subprocess that has ended. When the last one has, the
    /// analysis has finished, or failed where it has reported nothing.
    pub fn finished(&mut self, pid: Subprocess)
        ensures
            final(self)@ == old(self)@.finished(pid),
    {
        let ghost others = other_than(pid);
        let mut rest: Vec<Subprocess> = Vec::new();
        let mut i: usize = 0;
        assert(rest@ =~= self@.subprocesses.take(0).filter(others)) by {
            self@.subprocesses.take(0).lemma_filter_len(others);
        }
        while i < self.subprocesses.len()
            invariant
                i <= self.subprocesses@.len(),
                others == other_than(pid),
                rest@ == self@.subprocesses.take(i as int).filter(others),
            decreases self.subprocesses@.len() - i,
        {
            let other: Subprocess = self.subprocesses[i];
            proof {
                let seen = self@.subprocesses.take(i as int);
                assert(self@.subprocesses.take(i + 1) =~= seen.push(other));
                seen.lemma_filter_push(other, others);
            }
            if other != pid {
                rest.push(other);
            }
            i += 1;
        }
        assert(self@.subprocesses.take(self@.subprocesses.len() as int) =~= self@.subprocesses);
        self.subprocesses = rest;
        if self.subprocesses.len() == 0 && self.status != AnalysisStatus::Error {
            if self.passed() {
                self.status = AnalysisStatus::Finished;
            } else {
                self.status = AnalysisStatus::Error;
            }
        }
    }

    /// Takes in the crates that a line of output reports. The first one is
    /// kept, each further one is merged into what is known.
    pub fn absorb<F: Fn(Crate<I>, Crate<I>) -> Crate<I>>(
        &mut self,
        krates: Vec<Crate<I>>,
        merge: &F,
    )
        requires
            forall|known: Crate<I>, krate: Crate<I>| call_requires(*merge, (known, krate)),
        ensures
            final(self)@ == (BackendView { analyzed: final(self)@.analyzed, ..old(self)@ }),
            absorbs(*merge, old(self)@.analyzed, krates@, final(self)@.analyzed),
    {
        let analyzed = self.analyzed.take();
        self.analyzed = absorb(analyzed, krates, merge);
    }

    /// Takes note of a line that `cargo check` has written. `message` and
    /// `krates` are what the line says, where it says that.
    pub fn read_line<F: Fn(Crate<I>, Crate<I>) -> Crate<I>>(
        &mut self,
        progress: &mut CheckProgress,
        message: Option<CargoCheckMessage>,
        krates: Option<Vec<Crate<I>>>,
        merge: &F,
    ) -> (report: Option<Report>)
        requires
            message == Some(CargoCheckMessage::CompilerArtifact) ==> old(progress)@.can_count(),
            forall|known: Crate<I>, krate: Crate<I>| call_requires(*merge, (known, krate)),
        ensures
            final(progress)@ == old(progress)@.after(message),
            match report {
                Some(said) => old(progress)@.report(message) == Some(said@),
                None => old(progress)@.report(message) is None,
            },
            final(self)@ == (BackendView { analyzed: final(self)@.analyzed, ..old(self)@ }),
            absorbs(*merge, old(self)@.analyzed, reported(krates), final(self)@.analyzed),
    {
        let report = progress.line(message);
        match krates {
            Some(known) => self.absorb(known, merge),
            None => {},
        }
        report
    }

    /// Whether any file has been analyzed.
    pub fn passed(&self) -> (passed: bool)
        ensures
            passed == has_report(self@.analyzed),
    {
        match &self.analyzed {
            Some(krate) => !krate.is_empty(),
            None => false,
        }
    }

    /// Whether the subprocesses can be stopped.
    pub fn can_abort(&self, platform: Platform) -> (possible: bool)
        ensures
            possible == self@.can_abort(platform),
    {
        if platform != Platform::Unix {
            return true;
        }
        let mut i: usize = 0;
        while i < self.subprocesses.len()
            invariant
                i <= self.subprocesses@.len(),
                platform == Platform::Unix,
                forall|k: int|
                    0 <= k < i ==> ((#[trigger] self@.subprocesses[k]) matches Some(pid) ==> pid
                        <= i32::MAX),
            decreases self.subprocesses@.len() - i,
        {
            match self.subprocesses[i] {
                Some(pid) => {
                    if pid > i32::MAX as u32 {
                        assert(self@.subprocesses[i as int] == Some(pid));
                        return false;
                    }
                },
                None => {},
            }
            i += 1;
        }
        true
    }

    /// The decorations at `position` of the file at `filepath`: what the passes
    /// make of the items of the file.
    pub fn decos<S, C, D, NS, VS, NC, VC, HO, DE>(
        &self,
        filepath: &FilePath,
        position: Loc,
        passes: &Passes<NS, VS, NC, VC, HO, DE>,
    ) -> (result: Result<Vec<D>, AnalysisStatus>) where
        NS: Fn(Loc) -> S,
        VS: Fn(S, &I) -> S,
        NC: Fn(&S) -> C,
        VC: Fn(C, &I) -> C,
        HO: Fn(C) -> C,
        DE: Fn(C) -> Vec<D>,

        requires
            passes.runs::<I, S, C, D>(),
        ensures
            decides::<I, S, C, D, NS, VS, NC, VC, HO, DE>(
                self@.files(),
                filepath@,
                position,
                *passes,
                result,
            ),
    {
        match &self.analyzed {
            Some(krate) => {
                let items = pick_items(krate, filepath);
                assert(items@.unref().len() == items@.len());
                let decos = passes.run(position, &items);
                conclude(items.len() > 0, decos)
            },
            None => Err(AnalysisStatus::Error),
        }
    }

    /// Answers what is to be shown at the cursor. `text` is the text of the
    /// file, where it could be read. `index` finds a line and a character in a
    /// text, and `range` places a decoration in it.
    pub fn cursor<S, C, D, R, FI, NS, VS, NC, VC, HO, DE, FR>(
        &self,
        request: CursorRequest,
        text: Option<&str>,
        index: &FI,
        passes: &Passes<NS, VS, NC, VC, HO, DE>,
        range: &FR,
    ) -> (answer: Decorations<R>) where
        FI: Fn(&str, u32, u32) -> u32,
        NS: Fn(Loc) -> S,
        VS: Fn(S, &I) -> S,
        NC: Fn(&S) -> C,
        VC: Fn(C, &I) -> C,
        HO: Fn(C) -> C,
        DE: Fn(C) -> Vec<D>,
        FR: Fn(D, &str) -> R,

        requires
            forall|text: &str, line: u32, character: u32|
                call_requires(*index, (text, line, character)),
            passes.runs::<I, S, C, D>(),
            forall|deco: D, text: &str| call_requires(*range, (deco, text)),
        ensures
            answers::<I, S, C, D, R, FI, NS, VS, NC, VC, HO, DE, FR>(
                self@.files(),
                self@.status,
                request,
                text,
                *index,
                *passes,
                *range,
                answer,
            ),
    {
        let is_analyzed = self.analyzed.is_some();
        match (request.path, text) {
            (Some(path), Some(known)) => {
                let position: u32 = index(known, request.line, request.character);
                let decos = self.decos(&path, Loc(position), passes);
                let status = match &decos {
                    Ok(_) => self.status,
                    Err(reason) => if self.status == AnalysisStatus::Finished {
                        *reason
                    } else {
                        self.status
                    },
                };
                let decorations = show(decos, known, range);
                Decorations { is_analyzed, status, path: Some(path), decorations }
            },
            _ => Decorations {
                is_analyzed,
                status: self.status,
                path: None,
                decorations: Vec::new(),
            },
        }
    }

    /// Starts a check of `file` with the default targets and features.
    pub fn check(file: PathBuf, is_dir: bool) -> (start: CheckStart<I>)
        ensures
            exists|path: PathView| #[trigger]
                splits_into(file, path) && starts_check(file, path, is_dir, false, false, start),
    {
        Self::check_with_options(file, is_dir, false, false)
    }

    /// Starts a check of `file`. A directory is checked as a workspace, with the
    /// root that the search finds; a file is checked on its own. When it has
    /// ended, [`Backend::passed`] tells the result.
    pub fn check_with_options(
        file: PathBuf,
        is_dir: bool,
        all_targets: bool,
        all_features: bool,
    ) -> (start: CheckStart<I>)
        ensures
            exists|path: PathView| #[trigger]
                splits_into(file, path) && starts_check(
                    file,
                    path,
                    is_dir,
                    all_targets,
                    all_features,
                    start,
                ),
    {
        let path = FilePath::of(&file);
        Self::check_at(file, &path, is_dir, all_targets, all_features)
    }

    /// Starts a check of `file`, whose components are `path`.
    pub fn check_at(
        file: PathBuf,
        path: &FilePath,
        is_dir: bool,
        all_targets: bool,
        all_features: bool,
    ) -> (start: CheckStart<I>)
        ensures
            starts_check(file, path@, is_dir, all_targets, all_features, start),
    {
        let mut backend: Backend<I> = Backend::new();
        if is_dir {
            backend.set_workspace(path.clone());
            proof {
                let covers = |workspace: PathView| lies_in(path@, workspace);
                let none = Seq::<PathView>::empty();
                none.lemma_filter_push(path@, covers);
                none.lemma_filter_len(covers);
                assert(backend@.workspaces =~= none.push(path@));
                let whole = crate::path::meaning(path@);
                assert(whole =~= whole.subrange(0, whole.len() as int));
                assert(covers(path@));
                assert(covering(backend@.workspaces, path@) == 1);
            }
            let step = backend.set_roots(path, true);
            CheckStart { backend, search: Some(step), job: Job::Roots { all_targets, all_features } }
        } else {
            CheckStart { backend, search: None, job: Job::SingleFile(file) }
        }
    }

    /// Answers a client that connects.
    pub fn initialize(&mut self, params: &InitializeParams) -> (result: InitializeResult)
        ensures
            result.capabilities == offered(),
            result.watch == watch_over(params.process_id),
            match params.workspace_folders {
                Some(folders) => exists|paths: Seq<Option<PathView>>| #[trigger]
                    name_paths(folders@, paths) && final(self)@ == old(self)@.with_workspaces(
                        known_paths(paths),
                    ).with_progress(params.window),
                None => final(self)@ == old(self)@.with_progress(params.window),
            },
    {
        match &params.workspace_folders {
            Some(folders) => {
                self.add_folders(folders);
            },
            None => {},
        }
        let wanted = match params.window {
            Some(window) => match window.work_done_progress {
                Some(wanted) => wanted,
                None => false,
            },
            None => false,
        };
        if wanted {
            self.work_done_progress = true;
        }
        InitializeResult {
            capabilities: ServerCapabilities {
                open_close: true,
                save: true,
                change: SyncKind::Incremental,
                workspace_folders: true,
                workspace_folder_changes: true,
            },
            watch: match params.process_id {
                Some(process_id) => Some(HealthWatch { process_id, step: Self::watch(true) }),
                None => None,
            },
        }
    }

    /// How the watch over the client's process goes on, once the process was
    /// seen to be alive or not.
    pub fn watch(alive: bool) -> (step: WatchStep)
        ensures
            step == watch_step(alive),
    {
        if alive {
            WatchStep::Wait(HEALTH_CHECK_SECONDS)
        } else {
            WatchStep::Fail
        }
    }

    /// The analysis that the server runs on its own: of all roots, with all
    /// targets and features.
    pub fn analyze(&self) -> (job: Job)
        ensures
            job == full_job(),
    {
        Job::Roots { all_targets: true, all_features: true }
    }

    /// Adds the workspaces that the client has added, and analyzes anew.
    pub fn did_change_workspace_folders(&mut self, added: &Vec<Url>) -> (job: Job)
        ensures
            job == full_job(),
            exists|paths: Seq<Option<PathView>>| #[trigger]
                name_paths(added@, paths) && final(self)@ == old(self)@.with_workspaces(
                    known_paths(paths),
                ),
    {
        self.add_folders(added);
        self.analyze()
    }

    /// The file to analyze when a document is opened.
    pub fn did_open(&self, uri: &Url, language_id: &str) -> (file: Option<PathBuf>)
        ensures
            exists|named: Option<PathBuf>| #[trigger]
                names_file(*uri, named) && file == opened_file(named, language_id@),
    {
        let named = file_of(uri);
        self.select_opened(named, language_id)
    }

    /// The file to analyze when a document of the given language is opened,
    /// whose URI names `named`.
    pub fn select_opened(&self, named: Option<PathBuf>, language_id: &str) -> (file: Option<PathBuf>)
        ensures
            file == opened_file(named, language_id@),
    {
        let rust = "rust".to_owned();
        if language_id.to_owned() == rust {
            named
        } else {
            None
        }
    }

    /// The file to analyze when a document is saved.
    pub fn did_save(&self, uri: &Url) -> (file: Option<PathBuf>)
        ensures
            names_file(*uri, file),
    {
        file_of(uri)
    }

    /// The analysis of a file whose root was searched for. `registered` tells
    /// whether the search has found one.
    pub fn analyze_file(&self, registered: bool, file: PathBuf) -> (job: Job)
        ensures
            job == job_for(registered, file),
    {
        if registered {
            self.analyze()
        } else {
            Job::SingleFile(file)
        }
    }

    /// Discards what was analyzed when a document changes.
    pub fn did_change(&mut self)
        ensures
            final(self)@ == old(self)@.discarded(),
    {
        self.analyzed = None;
    }

    /// Ends the server. Hands out the process groups to stop.
    pub fn shutdown(&mut self, platform: Platform) -> (groups: Vec<i32>)
        requires
            old(self)@.can_abort(platform),
        ensures
            final(self)@ == old(self)@.aborted(platform),
            groups@.map_values(|group: i32| group as int) == old(self)@.aborted_groups(platform),
    {
        self.abort_subprocess(platform)
    }

    /// The state of the analysis.
    pub fn status(&self) -> (status: AnalysisStatus)
        ensures
            status == self@.status,
    {
        self.status
    }

    /// What was analyzed.
    pub fn analyzed(&self) -> (analyzed: &Option<Crate<I>>)
        ensures
            *analyzed == self@.analyzed,
    {
        &self.analyzed
    }
}

} // verus!

//! What holds of each answer about workspaces and roots, and of what registering
//! makes of the server.

use crate::backend::{known_paths, Backend, CheckStart, Job};
use crate::metadata::Metadata;
use crate::path::{splits_into, FilePath, PathView};
use crate::path_laws::{
    all_alike, begins_with, is_child, lies_in_begins_with, same_path_all_alike,
};
use crate::progress::AnalysisStatus;
use crate::roots::{
    covering, has_root, search_dir, Root, RootSearch, RootTable, RootView, SearchStep,
};
use std::path::PathBuf;
use tower_lsp::lsp_types::Url;
use vstd::prelude::*;

verus! {

/// How many questions a search still has.
pub open spec fn questions(step: SearchStep) -> int {
    match step {
        SearchStep::Query(search) => search.remaining as int,
        _ => 0,
    }
}

/// `dir` is where the root of `path` is looked for: the path itself where it is a
/// directory, and else all of it but exactly one component.
pub open spec fn is_searched(dir: PathView, path: PathView, is_dir: bool) -> bool {
    if is_dir {
        dir == path
    } else {
        dir.len() + 1 == path.len() && forall|i: int|
            0 <= i < dir.len() ==> #[trigger] dir[i] == path[i]
    }
}

/// The two states agree in all but the workspaces.
pub open spec fn only_workspaces_differ<I>(a: Backend<I>, b: Backend<I>) -> bool {
    &&& a@.roots == b@.roots
    &&& a@.status == b@.status
    &&& a@.analyzed == b@.analyzed
    &&& a@.subprocesses == b@.subprocesses
    &&& a@.work_done_progress == b@.work_done_progress
}

/// The two states agree in all but the roots.
pub open spec fn only_roots_differ<I>(a: Backend<I>, b: Backend<I>) -> bool {
    &&& a@.workspaces == b@.workspaces
    &&& a@.status == b@.status
    &&& a@.analyzed == b@.analyzed
    &&& a@.subprocesses == b@.subprocesses
    &&& a@.work_done_progress == b@.work_done_progress
}

/// Some root is registered for `path`.
pub open spec fn is_registered(roots: Seq<RootView>, path: PathView) -> bool {
    exists|i: int| 0 <= i < roots.len() && all_alike((#[trigger] roots[i]).path, path)
}

/// A path that has a root is registered.
proof fn has_root_is_registered(roots: Seq<RootView>, path: PathView)
    ensures
        has_root(roots, path) <==> is_registered(roots, path),
{
    assert forall|i: int| 0 <= i < roots.len() implies (crate::path::same_path(
        (#[trigger] roots[i]).path,
        path,
    ) <==> all_alike(roots[i].path, path)) by {
        same_path_all_alike(roots[i].path, path);
    }
}

/// The directory of the specification is the one that is searched.
proof fn search_dir_is_searched(path: PathView, is_dir: bool)
    requires
        is_dir || path.len() > 0,
    ensures
        is_searched(search_dir(path, is_dir), path, is_dir),
        forall|dir: PathView| #[trigger]
            is_searched(dir, path, is_dir) ==> dir == search_dir(path, is_dir),
{
    assert forall|dir: PathView| #[trigger] is_searched(dir, path, is_dir) implies dir
        == search_dir(path, is_dir) by {
        if !is_dir {
            assert(dir =~= path.drop_last());
        }
    }
}

/// A root is looked for in the directory of the file, or in the path itself where
/// it is a directory, and exactly where some workspace covers that directory, at
/// whatever depth. Nothing is found without a question.
pub proof fn law_search_starts<I>(
    backend: &Backend<I>,
    path: &FilePath,
    is_dir: bool,
    dir: PathView,
    step: SearchStep,
)
    requires
        is_dir || path@.len() > 0,
        is_searched(dir, path@, is_dir),
        call_ensures(Backend::<I>::set_roots, (backend, path, is_dir), step),
    ensures
        !(step is Found),
        step matches SearchStep::Query(search) ==> search.dir@ == dir && search.remaining > 0,
        step is Query <==> exists|i: int|
            0 <= i < backend@.workspaces.len() && begins_with(
                dir,
                #[trigger] backend@.workspaces[i],
            ),
{
    search_dir_is_searched(path@, is_dir);
    let workspaces = backend@.workspaces;
    crate::laws::law_covering(workspaces, dir);
    assert forall|i: int| 0 <= i < workspaces.len() implies (crate::path::lies_in(
        dir,
        #[trigger] workspaces[i],
    ) <==> begins_with(dir, workspaces[i])) by {
        lies_in_begins_with(dir, workspaces[i]);
    }
}

/// One question is asked for each workspace that covers the directory: none
/// without workspaces, and one more workspace makes one question more exactly
/// where it covers the directory.
pub proof fn law_questions_count_workspaces<I>(
    fewer: &Backend<I>,
    more: &Backend<I>,
    workspace: PathView,
    path: &FilePath,
    is_dir: bool,
    dir: PathView,
    first: SearchStep,
    second: SearchStep,
)
    requires
        is_dir || path@.len() > 0,
        is_searched(dir, path@, is_dir),
        more@.workspaces == fewer@.workspaces.push(workspace),
        call_ensures(Backend::<I>::set_roots, (fewer, path, is_dir), first),
        call_ensures(Backend::<I>::set_roots, (more, path, is_dir), second),
    ensures
        fewer@.workspaces.len() == 0 ==> questions(first) == 0,
        questions(second) == questions(first) + (if begins_with(dir, workspace) {
            1int
        } else {
            0int
        }),
{
    search_dir_is_searched(path@, is_dir);
    lies_in_begins_with(dir, workspace);
    let covers = |known: PathView| crate::path::lies_in(dir, known);
    assert(covering(fewer@.workspaces, dir) == fewer@.workspaces.filter(covers).len());
    assert(covering(more@.workspaces, dir) == more@.workspaces.filter(covers).len());
    fewer@.workspaces.lemma_filter_push(workspace, covers);
    fewer@.workspaces.lemma_filter_len(covers);
}

/// A search goes on in the same directory with the questions that it has, and
/// ends where it has none.
pub proof fn law_search_step(search: RootSearch, step: SearchStep)
    requires
        call_ensures(RootSearch::step, (search,), step),
    ensures
        questions(step) == search.remaining,
        !(step is Found),
        step matches SearchStep::Query(next) ==> next.dir@ == search.dir@,
        step is NotCovered <==> search.remaining == 0,
{
}

/// An answer ends a search with that very answer. Without one the search has one
/// question less, in the same directory, and has failed where it has none left.
pub proof fn law_search_answer(
    search: RootSearch,
    reply: Option<Metadata>,
    step: SearchStep,
)
    requires
        search.remaining > 0,
        call_ensures(RootSearch::answer, (search, reply), step),
    ensures
        match reply {
            Some(metadata) => step == SearchStep::Found(metadata),
            None => !(step is Found) && questions(step) == search.remaining - 1,
        },
        step matches SearchStep::Query(next) ==> next.dir@ == search.dir@,
        step is NotCovered <==> reply is None && search.remaining == 1,
{
}

/// A workspace is put behind the others, and nothing else changes.
pub proof fn law_set_workspace<I>(backend: &mut Backend<I>, workspace: FilePath)
    requires
        call_ensures(Backend::<I>::set_workspace, (backend, workspace), ()),
    ensures
        final(backend)@.workspaces.len() == old(backend)@.workspaces.len() + 1,
        final(backend)@.workspaces.last() == workspace@,
        final(backend)@.workspaces.drop_last() == old(backend)@.workspaces,
        only_workspaces_differ(*old(backend), *final(backend)),
{
    assert(final(backend)@.workspaces.drop_last() =~= old(backend)@.workspaces);
}

/// A path is known.
pub open spec fn is_known() -> spec_fn(Option<PathView>) -> bool {
    |path: Option<PathView>| path is Some
}

/// The known ones of `paths`, in order.
pub open spec fn known_of(paths: Seq<Option<PathView>>) -> Seq<PathView> {
    paths.filter(is_known()).map_values(|path: Option<PathView>| path->0)
}

/// The known paths are found one by one.
proof fn known_paths_are_known_of(paths: Seq<Option<PathView>>)
    ensures
        known_paths(paths) == known_of(paths),
    decreases paths.len(),
{
    if paths.len() > 0 {
        let before = paths.drop_last();
        known_paths_are_known_of(before);
        assert(before.push(paths.last()) =~= paths);
        before.lemma_filter_push(paths.last(), is_known());
        assert(known_paths(paths) =~= known_of(paths));
    } else {
        paths.lemma_filter_len(is_known());
        assert(known_paths(paths) =~= known_of(paths));
    }
}

/// Exactly the workspaces that are known by their path are added, in order, and
/// nothing else changes.
pub proof fn law_set_workspaces<I>(backend: &mut Backend<I>, paths: Vec<Option<FilePath>>)
    requires
        call_ensures(Backend::<I>::set_workspaces, (backend, paths), ()),
    ensures
        final(backend)@.workspaces == old(backend)@.workspaces + paths@.filter(
            |path: Option<FilePath>| path is Some,
        ).map_values(|path: Option<FilePath>| path->0@),
        only_workspaces_differ(*old(backend), *final(backend)),
{
    known_paths_of_files(paths@);
}

/// The known paths of files are found one by one.
proof fn known_paths_of_files(paths: Seq<Option<FilePath>>)
    ensures
        known_paths(paths.map_values(|path: Option<FilePath>| crate::backend::path_view(path)))
            == paths.filter(|path: Option<FilePath>| path is Some).map_values(
            |path: Option<FilePath>| path->0@,
        ),
    decreases paths.len(),
{
    let known = |path: Option<FilePath>| path is Some;
    let views = paths.map_values(|path: Option<FilePath>| crate::backend::path_view(path));
    if paths.len() > 0 {
        let before = paths.drop_last();
        known_paths_of_files(before);
        assert(before.push(paths.last()) =~= paths);
        before.lemma_filter_push(paths.last(), known);
        assert(views.drop_last() =~= before.map_values(
            |path: Option<FilePath>| crate::backend::path_view(path),
        ));
        assert(known_paths(views) =~= paths.filter(known).map_values(
            |path: Option<FilePath>| path->0@,
        ));
    } else {
        paths.lemma_filter_len(known);
        assert(known_paths(views) =~= paths.filter(known).map_values(
            |path: Option<FilePath>| path->0@,
        ));
    }
}

/// `path` is what turning `uri` into a file can give: its path, or nothing.
pub open spec fn can_be_path_of(uri: Url, path: Option<PathView>) -> bool {
    match path {
        Some(parts) => exists|file: PathBuf| #[trigger]
            call_ensures(Url::to_file_path, (&uri,), Ok(file)) && splits_into(file, parts),
        None => call_ensures(Url::to_file_path, (&uri,), Err(())),
    }
}

/// `workspaces` are those of `before`, and behind them the paths that the folders
/// can be turned into, in order; a folder that cannot be turned into one is left
/// out.
pub open spec fn folders_added(
    before: Seq<PathView>,
    folders: Seq<Url>,
    workspaces: Seq<PathView>,
) -> bool {
    exists|paths: Seq<Option<PathView>>|
        #![trigger known_of(paths)]
        paths.len() == folders.len() && (forall|i: int|
            0 <= i < folders.len() ==> can_be_path_of(folders[i], #[trigger] paths[i]))
            && workspaces == before + known_of(paths)
}

/// Folders that name these paths are added.
pub(crate) proof fn named_folders_are_added(
    before: Seq<PathView>,
    folders: Seq<Url>,
    paths: Seq<Option<PathView>>,
)
    requires
        crate::backend::name_paths(folders, paths),
    ensures
        folders_added(before, folders, before + known_paths(paths)),
{
    known_paths_are_known_of(paths);
    assert forall|i: int| 0 <= i < folders.len() implies can_be_path_of(
        folders[i],
        #[trigger] paths[i],
    ) by {
        let uri = folders[i];
        let path = paths[i];
        assert(crate::uri::names_path(uri, path));
        let named = choose|named: Option<PathBuf>| #[trigger]
            crate::uri::names_file(uri, named) && match named {
                Some(native) => path is Some && splits_into(native, path->0),
                None => path is None,
            };
        let answer = choose|answer: Result<PathBuf, ()>| #[trigger]
            call_ensures(Url::to_file_path, (&uri,), answer) && named == answer.ok();
        match answer {
            Ok(_) => {},
            Err(nothing) => {
                assert(nothing == ());
            },
        }
    }
    assert(known_of(paths) == known_paths(paths));
}

/// Each folder that can be turned into a path becomes a workspace, and nothing
/// else changes.
pub proof fn law_add_folders<I>(backend: &mut Backend<I>, folders: &Vec<Url>)
    requires
        call_ensures(Backend::<I>::add_folders, (backend, folders), ()),
    ensures
        folders_added(old(backend)@.workspaces, folders@, final(backend)@.workspaces),
        only_workspaces_differ(*old(backend), *final(backend)),
{
    let paths = choose|paths: Seq<Option<PathView>>| #[trigger]
        crate::backend::name_paths(folders@, paths) && final(backend)@
            == old(backend)@.with_workspaces(known_paths(paths));
    named_folders_are_added(old(backend)@.workspaces, folders@, paths);
}

/// Folders that the client adds become workspaces, and all roots are analyzed
/// with all targets and features.
pub proof fn law_added_folders<I>(backend: &mut Backend<I>, added: &Vec<Url>, job: Job)
    requires
        call_ensures(Backend::<I>::did_change_workspace_folders, (backend, added), job),
    ensures
        job == (Job::Roots { all_targets: true, all_features: true }),
        folders_added(old(backend)@.workspaces, added@, final(backend)@.workspaces),
        only_workspaces_differ(*old(backend), *final(backend)),
{
    let paths = choose|paths: Seq<Option<PathView>>| #[trigger]
        crate::backend::name_paths(added@, paths) && final(backend)@
            == old(backend)@.with_workspaces(known_paths(paths));
    named_folders_are_added(old(backend)@.workspaces, added@, paths);
}

/// A directory has to be created exactly for a root that is not registered, and
/// it is the directory `owl` in the target directory of the project.
pub proof fn law_root_target<I>(
    backend: &Backend<I>,
    metadata: &Metadata,
    target: Option<FilePath>,
)
    requires
        call_ensures(Backend::<I>::root_target, (backend, metadata), target),
    ensures
        target is None <==> is_registered(backend@.roots, metadata.workspace_root@),
        target matches Some(dir) ==> is_child(dir@, metadata.target_directory@, "owl"@),
{
    has_root_is_registered(backend@.roots, metadata.workspace_root@);
}

/// What registering the project of `metadata` makes of the roots: nothing where
/// its root is registered, and else one more root, behind the others, which is the
/// root of the project and writes to `owl` in its target directory.
pub open spec fn registers(before: Seq<RootView>, metadata: Metadata, after: Seq<RootView>) -> bool {
    if is_registered(before, metadata.workspace_root@) {
        after == before
    } else {
        &&& after.len() == before.len() + 1
        &&& after.drop_last() == before
        &&& after.last().path == metadata.workspace_root@
        &&& is_child(after.last().target, metadata.target_directory@, "owl"@)
    }
}

/// Adding the root of a project registers it.
proof fn with_root_registers(before: Seq<RootView>, metadata: Metadata)
    ensures
        registers(
            before,
            metadata,
            crate::roots::with_root(before, crate::roots::root_of(metadata@)),
        ),
{
    has_root_is_registered(before, metadata.workspace_root@);
    let root = crate::roots::root_of(metadata@);
    assert(before.push(root).drop_last() =~= before);
}

/// Registering adds the root of the project once, and changes nothing else.
pub proof fn law_register_root<I>(backend: &mut Backend<I>, metadata: &Metadata)
    requires
        call_ensures(Backend::<I>::register_root, (backend, metadata), ()),
    ensures
        registers(old(backend)@.roots, *metadata, final(backend)@.roots),
        is_registered(final(backend)@.roots, metadata.workspace_root@),
        only_roots_differ(*old(backend), *final(backend)),
{
    with_root_registers(old(backend)@.roots, *metadata);
    has_root_is_registered(final(backend)@.roots, metadata.workspace_root@);
}

/// A search tells that the root is registered exactly where it has found one, and
/// then it is. A search that has failed changes nothing.
pub proof fn law_end_search<I>(backend: &mut Backend<I>, step: &SearchStep, registered: bool)
    requires
        call_ensures(Backend::<I>::end_search, (backend, step), registered),
    ensures
        registered <==> step is Found,
        step matches SearchStep::Found(metadata) ==> registers(
            old(backend)@.roots,
            *metadata,
            final(backend)@.roots,
        ) && is_registered(final(backend)@.roots, metadata.workspace_root@),
        !(step is Found) ==> final(backend)@.roots == old(backend)@.roots,
        only_roots_differ(*old(backend), *final(backend)),
{
    match *step {
        SearchStep::Found(metadata) => {
            with_root_registers(old(backend)@.roots, metadata);
            has_root_is_registered(final(backend)@.roots, metadata.workspace_root@);
        },
        _ => {},
    }
}

/// A copy of a root has the same path and the same target.
pub proof fn law_root_copy(root: &Root, copy: Root)
    requires
        call_ensures(<Root as Clone>::clone, (root,), copy),
    ensures
        copy.path@ == root.path@,
        copy.target@ == root.target@,
{
}

/// A new table has no roots.
pub proof fn law_table_new(table: RootTable)
    requires
        call_ensures(RootTable::new, (), table),
    ensures
        table@.len() == 0,
{
}

/// A table tells whether a root of the path is in it.
pub proof fn law_table_contains(table: &RootTable, path: &FilePath, known: bool)
    requires
        call_ensures(RootTable::contains, (table, path), known),
    ensures
        known <==> is_registered(table@, path@),
{
    has_root_is_registered(table@, path@);
}

/// A table keeps what is in it, and takes a root whose path is not.
pub proof fn law_table_register(table: &mut RootTable, root: Root)
    requires
        call_ensures(RootTable::register, (table, root), ()),
    ensures
        is_registered(old(table)@, root.path@) ==> final(table)@ == old(table)@,
        !is_registered(old(table)@, root.path@) ==> final(table)@.len() == old(table)@.len() + 1
            && final(table)@.drop_last() == old(table)@ && final(table)@.last().path == root.path@
            && final(table)@.last().target == root.target@,
{
    has_root_is_registered(old(table)@, root.path@);
    assert(old(table)@.push(root@).drop_last() =~= old(table)@);
}

/// A table hands out its roots as they are, in order.
pub proof fn law_table_to_vec(table: &RootTable, roots: Vec<Root>)
    requires
        call_ensures(RootTable::to_vec, (table,), roots),
    ensures
        roots@.len() == table@.len(),
        forall|i: int|
            0 <= i < roots@.len() ==> (#[trigger] roots@[i]).path@ == table@[i].path
                && roots@[i].target@ == table@[i].target,
{
    assert(crate::roots::root_views(roots@).len() == roots@.len());
    assert forall|i: int| 0 <= i < roots@.len() implies (#[trigger] roots@[i]).path@
        == table@[i].path && roots@[i].target@ == table@[i].target by {
        assert(crate::roots::root_views(roots@)[i] == roots@[i]@);
    }
}

/// Nothing is known at the start.
pub open spec fn is_blank<I>(backend: Backend<I>) -> bool {
    &&& backend@.roots.len() == 0
    &&& backend@.status == AnalysisStatus::Finished
    &&& backend@.analyzed is None
    &&& backend@.subprocesses.len() == 0
    &&& !backend@.work_done_progress
}

/// A new server knows nothing.
pub proof fn law_new<I>(backend: Backend<I>)
    requires
        call_ensures(Backend::<I>::new, (), backend),
    ensures
        is_blank(backend),
        backend@.workspaces.len() == 0,
{
}

/// How a check from the command line starts. A directory is the one workspace of
/// a new server, is itself searched, once, and is then checked with the targets
/// and features asked for. A file is compiled on its own, with nothing searched.
pub open spec fn check_starts<I>(
    file: PathBuf,
    path: PathView,
    is_dir: bool,
    all_targets: bool,
    all_features: bool,
    start: CheckStart<I>,
) -> bool {
    &&& is_blank(start.backend)
    &&& is_dir ==> {
        &&& start.backend@.workspaces.len() == 1
        &&& start.backend@.workspaces[0] == path
        &&& start.search matches Some(SearchStep::Query(search)) && search.dir@ == path
            && search.remaining == 1
        &&& start.job == Job::Roots { all_targets, all_features }
    }
    &&& !is_dir ==> {
        &&& start.backend@.workspaces.len() == 0
        &&& start.search is None
        &&& start.job == Job::SingleFile(file)
    }
}

/// A check with options starts as it should.
pub proof fn law_check_with_options<I>(
    file: PathBuf,
    is_dir: bool,
    all_targets: bool,
    all_features: bool,
    start: CheckStart<I>,
)
    requires
        call_ensures(
            Backend::<I>::check_with_options,
            (file, is_dir, all_targets, all_features),
            start,
        ),
    ensures
        exists|path: PathView| #[trigger]
            splits_into(file, path) && check_starts(
                file,
                path,
                is_dir,
                all_targets,
                all_features,
                start,
            ),
{
}

/// A check without options is one of the default targets and features.
pub proof fn law_check<I>(file: PathBuf, is_dir: bool, start: CheckStart<I>)
    requires
        call_ensures(Backend::<I>::check, (file, is_dir), start),
    ensures
        exists|path: PathView| #[trigger]
            splits_into(file, path) && check_starts(file, path, is_dir, false, false, start),
{
}

/// A check of a file whose components are known starts as it should.
pub proof fn law_check_at<I>(
    file: PathBuf,
    path: &FilePath,
    is_dir: bool,
    all_targets: bool,
    all_features: bool,
    start: CheckStart<I>,
)
    requires
        call_ensures(
            Backend::<I>::check_at,
            (file, path, is_dir, all_targets, all_features),
            start,
        ),
    ensures
        check_starts(file, path@, is_dir, all_targets, all_features, start),
{
}

} // verus!

//! What holds of the server as a whole.

use crate::backend::{
    groups_of, has_report, known_paths, other_than, BackendView, Subprocess, WindowCapabilities,
};
use crate::command::{EnvValueView, EnvVarView, Platform, Tools};
use crate::decoration::{
    answers, decides, items_at, reply_status, shows, visit_step, visits, visits_once,
    CursorRequest, Decorations, Passes, Trail,
};
use crate::fold::{folds, folds_agree, folds_append};
use crate::metadata::MetadataView;
use crate::models::{absorb_step, absorbs, distinct_names, with_file, Crate, FileView, Loc};
use crate::path::{
    child, has_parent, lies_in, meaning, reads_as, reads_once, same_path, PartView, PathView,
};
use crate::progress::{percentage, AnalysisStatus, CargoCheckMessage, ProgressView};
use crate::roots::{
    after_replies, covering, distinct_roots, has_root, root_of, with_root, RootView, SearchState,
};
use vstd::prelude::*;

verus! {

// ---------------------------------------------------------------------------
// Paths, workspaces and roots
// ---------------------------------------------------------------------------

/// Extending a path is undone by going to the parent, and the extended path
/// lies in the path.
pub proof fn law_child_has_parent(path: PathView, name: Seq<char>)
    ensures
        has_parent(child(path, name)),
        child(path, name).drop_last() == path,
        lies_in(child(path, name), path),
{
    assert(child(path, name).drop_last() =~= path);
    assert(meaning(path) =~= meaning(child(path, name)).subrange(0, path.len() as int));
}

/// Being the same path is an equivalence, and what lies in a path is not changed
/// by how either is spelled.
pub proof fn law_same_path(a: PathView, b: PathView, c: PathView)
    ensures
        same_path(a, a),
        same_path(a, b) ==> same_path(b, a),
        same_path(a, b) && same_path(b, c) ==> same_path(a, c),
        same_path(a, b) ==> lies_in(a, b),
        same_path(a, b) ==> (lies_in(a, c) <==> lies_in(b, c)),
        same_path(a, b) ==> (lies_in(c, a) <==> lies_in(c, b)),
{
    assert(meaning(a) =~= meaning(a).subrange(0, meaning(a).len() as int));
}

/// A question is asked for a directory exactly where some workspace covers it.
pub proof fn law_covering(workspaces: Seq<PathView>, dir: PathView)
    ensures
        covering(workspaces, dir) > 0 <==> exists|i: int|
            0 <= i < workspaces.len() && lies_in(dir, #[trigger] workspaces[i]),
        covering(workspaces, dir) <= workspaces.len(),
{
    let covers = |workspace: PathView| lies_in(dir, workspace);
    let covered = workspaces.filter(covers);
    assert(covering(workspaces, dir) == covered.len());
    workspaces.lemma_filter_len(covers);
    if covered.len() > 0 {
        workspaces.lemma_filter_pred(covers, 0);
        assert(covered.contains(covered[0]));
        workspaces.lemma_filter_contains_rev(covers, covered[0]);
        let i = choose|i: int| 0 <= i < workspaces.len() && workspaces[i] == covered[0];
        assert(lies_in(dir, workspaces[i]));
    }
    if exists|i: int| 0 <= i < workspaces.len() && lies_in(dir, #[trigger] workspaces[i]) {
        let i = choose|i: int|
            0 <= i < workspaces.len() && lies_in(dir, #[trigger] workspaces[i]);
        assert(covers(workspaces[i]));
        workspaces.lemma_filter_contains(covers, i);
    }
}

/// Adding a workspace never makes a covered directory uncovered, nor a
/// question less likely.
pub proof fn law_more_workspaces_cover_more(
    workspaces: Seq<PathView>,
    added: Seq<PathView>,
    dir: PathView,
)
    ensures
        covering(workspaces, dir) <= covering(workspaces + added, dir),
        covering(workspaces + added, dir) == covering(workspaces, dir) + covering(added, dir),
{
    let covers = |workspace: PathView| lies_in(dir, workspace);
    Seq::filter_distributes_over_add(workspaces, added, covers);
}

/// Registering keeps each root that is known, with the target that it was
/// registered with, and adds at most the one root; the root is known
/// afterwards.
pub proof fn law_registering_keeps_roots(roots: Seq<RootView>, root: RootView)
    ensures
        roots.is_prefix_of(with_root(roots, root)),
        with_root(roots, root).len() <= roots.len() + 1,
        has_root(with_root(roots, root), root.path),
        !has_root(roots, root.path) ==> with_root(roots, root).last() == root,
{
    assert(roots =~= roots.subrange(0, roots.len() as int));
    assert(roots =~= roots.push(root).subrange(0, roots.len() as int));
    if !has_root(roots, root.path) {
        assert(roots.push(root)[roots.len() as int] == root);
    }
}

/// A root is registered once: a second root of the same path changes nothing.
pub proof fn law_registering_twice(roots: Seq<RootView>, first: RootView, second: RootView)
    requires
        same_path(first.path, second.path),
    ensures
        with_root(with_root(roots, first), second) == with_root(roots, first),
{
    law_registering_keeps_roots(roots, first);
    let after = with_root(roots, first);
    let i = choose|i: int| 0 <= i < after.len() && same_path((#[trigger] after[i]).path, first.path);
    assert(same_path(after[i].path, second.path));
}

/// No path is ever registered twice, whatever happens: the server starts
/// without roots, and each event keeps the roots distinct.
pub proof fn law_roots_stay_distinct<I>(
    state: BackendView<I>,
    root: RootView,
    added: Seq<PathView>,
    pid: Subprocess,
    window: Option<WindowCapabilities>,
    platform: Platform,
)
    requires
        distinct_roots(state.roots),
    ensures
        distinct_roots(BackendView::<I>::initial().roots),
        distinct_roots(state.with_root(root).roots),
        state.with_workspaces(added).roots == state.roots,
        state.with_progress(window).roots == state.roots,
        state.analyzing(platform).roots == state.roots,
        state.aborted(platform).roots == state.roots,
        state.started(pid).roots == state.roots,
        state.finished(pid).roots == state.roots,
        state.discarded().roots == state.roots,
{
}

/// What can happen to the server.
pub enum Event<I> {
    AddWorkspaces(Seq<PathView>),
    AskProgress(Option<WindowCapabilities>),
    RegisterRoot(MetadataView),
    Abort(Platform),
    Analyze(Platform),
    Start(Subprocess),
    Finish(Subprocess),
    /// Reports came to this.
    Absorb(Option<Crate<I>>),
    Discard,
}

/// What an event makes of a state.
pub open spec fn after_event<I>(state: BackendView<I>, event: Event<I>) -> BackendView<I> {
    match event {
        Event::AddWorkspaces(added) => state.with_workspaces(added),
        Event::AskProgress(window) => state.with_progress(window),
        Event::RegisterRoot(metadata) => state.with_root(root_of(metadata)),
        Event::Abort(platform) => state.aborted(platform),
        Event::Analyze(platform) => state.analyzing(platform),
        Event::Start(pid) => state.started(pid),
        Event::Finish(pid) => state.finished(pid),
        Event::Absorb(analyzed) => BackendView { analyzed, ..state },
        Event::Discard => state.discarded(),
    }
}

/// The state that the server is in after all of `events`, in order.
pub open spec fn reached<I>(events: Seq<Event<I>>) -> BackendView<I>
    decreases events.len(),
{
    if events.len() == 0 {
        BackendView::<I>::initial()
    } else {
        after_event(reached(events.drop_last()), events.last())
    }
}

/// Whether `path` ends in the file name `name`.
pub open spec fn ends_in(path: PathView, name: Seq<char>) -> bool {
    path.len() > 0 && path.last() == PartView::Normal(vstd::utf8::encode_utf8(name))
}

/// In every state that the server can reach, no root is registered twice, and
/// each target directory is named `owl`. No event takes a root away, and none
/// adds more than one.
pub proof fn law_reachable_roots<I>(events: Seq<Event<I>>, event: Event<I>)
    ensures
        distinct_roots(reached(events).roots),
        forall|i: int|
            0 <= i < reached(events).roots.len() ==> ends_in(
                (#[trigger] reached(events).roots[i]).target,
                "owl"@,
            ),
        reached(events).roots.is_prefix_of(after_event(reached(events), event).roots),
        after_event(reached(events), event).roots.len() <= reached(events).roots.len() + 1,
    decreases events.len(),
{
    let state = reached(events);
    assert(state.roots =~= state.roots.subrange(0, state.roots.len() as int));
    match event {
        Event::RegisterRoot(metadata) => {
            law_registering_keeps_roots(state.roots, root_of(metadata));
        },
        _ => {},
    }
    if events.len() > 0 {
        law_reachable_roots(events.drop_last(), events.last());
        let before = reached(events.drop_last());
        match events.last() {
            Event::RegisterRoot(metadata) => {
                assert(state.roots == with_root(before.roots, root_of(metadata)));
            },
            _ => {
                assert(state.roots == before.roots);
            },
        }
    }
}

/// `metadata` is the first answer among `replies`, and comes at `k`.
pub open spec fn first_answer<M>(replies: Seq<Option<M>>, k: int, metadata: M) -> bool {
    &&& 0 <= k < replies.len()
    &&& replies[k] == Some(metadata)
    &&& forall|j: int| 0 <= j < k ==> (#[trigger] replies[j]) is None
}

/// `metadata` is the first answer among the first `limit` of `replies`.
pub open spec fn answered<M>(replies: Seq<Option<M>>, limit: nat, metadata: M) -> bool {
    exists|k: int| k < limit && #[trigger] first_answer(replies, k, metadata)
}

/// A search asks in one directory only. It finds the first answer, where it comes
/// within the questions that the search may ask, and gives up after that many
/// failures.
pub proof fn law_search<M>(dir: PathView, remaining: nat, replies: Seq<Option<M>>)
    ensures
        after_replies(dir, remaining, replies) matches SearchState::Found(metadata) ==> answered(
            replies,
            remaining,
            metadata,
        ),
        after_replies(dir, remaining, replies) is NotCovered ==> replies.len() >= remaining && forall|
            j: int,
        |
            0 <= j < remaining ==> (#[trigger] replies[j]) is None,
        after_replies(dir, remaining, replies) matches SearchState::Query {
            dir: asked,
            remaining: left,
        } ==> asked == dir && left > 0 && left + replies.len() == remaining && forall|j: int|
            0 <= j < replies.len() ==> (#[trigger] replies[j]) is None,
    decreases replies.len(),
{
    if replies.len() > 0 {
        let before = replies.drop_last();
        law_search(dir, remaining, before);
        match after_replies(dir, remaining, before) {
            SearchState::Found(metadata) => {
                let k = choose|k: int| k < remaining && #[trigger] first_answer(before, k, metadata);
                assert(first_answer(replies, k, metadata)) by {
                    assert forall|j: int| 0 <= j < k implies (#[trigger] replies[j]) is None by {
                        assert(before[j] == replies[j]);
                    }
                }
                assert(answered(replies, remaining, metadata));
            },
            SearchState::NotCovered => {
                assert forall|j: int| 0 <= j < remaining implies (#[trigger] replies[j]) is None by {
                    assert(before[j] == replies[j]);
                }
            },
            SearchState::Query { .. } => {
                assert forall|j: int| 0 <= j < before.len() implies (#[trigger] replies[j]) is None by {
                    assert(before[j] == replies[j]);
                }
                match replies.last() {
                    Some(metadata) => {
                        assert(first_answer(replies, before.len() as int, metadata));
                        assert(answered(replies, remaining, metadata));
                    },
                    None => {
                        assert forall|j: int| 0 <= j < replies.len() implies (
                        #[trigger] replies[j]) is None by {
                            if j < before.len() {
                                assert(before[j] == replies[j]);
                            }
                        }
                    },
                }
            },
        }
    }
}

/// The folders of the client that name no file are left out, the others are
/// kept in order.
pub proof fn law_known_paths(paths: Seq<Option<PathView>>)
    ensures
        known_paths(paths).len() <= paths.len(),
        forall|path: PathView|
            known_paths(paths).contains(path) <==> #[trigger] paths.contains(Some(path)),
        (forall|i: int| 0 <= i < paths.len() ==> (#[trigger] paths[i]) is Some) ==> paths
            == known_paths(paths).map_values(|path: PathView| Some(path)),
    decreases paths.len(),
{
    if paths.len() > 0 {
        let before = paths.drop_last();
        law_known_paths(before);
        assert forall|path: PathView|
            known_paths(paths).contains(path) <==> #[trigger] paths.contains(Some(path)) by {
            if known_paths(paths).contains(path) {
                let i = choose|i: int|
                    0 <= i < known_paths(paths).len() && known_paths(paths)[i] == path;
                if i < known_paths(before).len() {
                    assert(known_paths(before)[i] == path);
                    assert(before.contains(Some(path)));
                    let k = choose|k: int| 0 <= k < before.len() && before[k] == Some(path);
                    assert(paths[k] == Some(path));
                } else {
                    assert(paths[paths.len() - 1] == Some(path));
                }
            }
            if paths.contains(Some(path)) {
                let k = choose|k: int| 0 <= k < paths.len() && paths[k] == Some(path);
                if k < before.len() {
                    assert(before[k] == Some(path));
                    assert(before.contains(Some(path)));
                    let i = choose|i: int|
                        0 <= i < known_paths(before).len() && known_paths(before)[i] == path;
                    assert(known_paths(paths)[i] == path);
                } else {
                    assert(known_paths(paths)[known_paths(paths).len() - 1] == path);
                }
            }
        }
        if forall|i: int| 0 <= i < paths.len() ==> (#[trigger] paths[i]) is Some {
            assert forall|i: int| 0 <= i < before.len() implies (#[trigger] before[i]) is Some by {
                assert(paths[i] is Some);
            }
            assert(paths.last() is Some);
            assert(paths =~= before.push(paths.last()));
            assert(paths =~= known_paths(paths).map_values(|path: PathView| Some(path)));
        }
    } else {
        assert(paths =~= known_paths(paths).map_values(|path: PathView| Some(path)));
    }
}

// ---------------------------------------------------------------------------
// Subprocesses and the status
// ---------------------------------------------------------------------------

/// A process that ends while others run leaves the status as it is. The last
/// one settles it, to an error where the status was one or nothing has been
/// reported. In no case does anything but the processes and the status change.
pub proof fn law_finishing<I>(state: BackendView<I>, pid: Subprocess)
    ensures
        state.without(pid).len() > 0 ==> state.finished(pid).status == state.status,
        state.without(pid).len() == 0 ==> (state.finished(pid).status
            == AnalysisStatus::Finished <==> state.status != AnalysisStatus::Error && has_report(
            state.analyzed,
        )),
        state.without(pid).len() == 0 ==> state.finished(pid).status != AnalysisStatus::Analyzing,
        state.status == AnalysisStatus::Error ==> state.finished(pid).status
            == AnalysisStatus::Error,
        !state.finished(pid).subprocesses.contains(pid),
        state.finished(pid).analyzed == state.analyzed,
        state.finished(pid).workspaces == state.workspaces,
        state.finished(pid).roots == state.roots,
        state.finished(pid).work_done_progress == state.work_done_progress,
{
    let rest = state.without(pid);
    if rest.contains(pid) {
        let i = choose|i: int| 0 <= i < rest.len() && rest[i] == pid;
        state.subprocesses.lemma_filter_pred(other_than(pid), i);
    }
}

/// Where all of `subprocesses` are others than `pid`, taking it out changes
/// nothing.
proof fn filter_absent(subprocesses: Seq<Subprocess>, pid: Subprocess)
    requires
        !subprocesses.contains(pid),
    ensures
        subprocesses.filter(other_than(pid)) == subprocesses,
    decreases subprocesses.len(),
{
    reveal(Seq::filter);
    if subprocesses.len() > 0 {
        let before = subprocesses.drop_last();
        assert forall|i: int| 0 <= i < before.len() implies before[i] != pid by {
            assert(subprocesses[i] == before[i]);
        }
        filter_absent(before, pid);
        assert(subprocesses[subprocesses.len() - 1] != pid);
        assert(before.push(subprocesses.last()) =~= subprocesses);
    }
}

/// A process that has started and ended leaves the list of processes as it
/// was, unless its id was there before.
pub proof fn law_start_and_finish<I>(state: BackendView<I>, pid: Subprocess)
    requires
        !state.subprocesses.contains(pid),
    ensures
        state.started(pid).finished(pid).subprocesses == state.subprocesses,
{
    state.subprocesses.lemma_filter_push(pid, other_than(pid));
    filter_absent(state.subprocesses, pid);
}

/// The state after all of `ended` have ended, in order.
pub open spec fn all_finished<I>(state: BackendView<I>, ended: Seq<Subprocess>) -> BackendView<I>
    decreases ended.len(),
{
    if ended.len() == 0 {
        state
    } else {
        all_finished(state, ended.drop_last()).finished(ended.last())
    }
}

/// The status of an analysis that is over.
pub open spec fn verdict<I>(state: BackendView<I>) -> AnalysisStatus {
    if has_report(state.analyzed) {
        AnalysisStatus::Finished
    } else {
        AnalysisStatus::Error
    }
}

/// What is left while processes end: those that have not ended yet, all else
/// unchanged, and the status either as it was or settled.
proof fn finishing_some<I>(state: BackendView<I>, ended: Seq<Subprocess>)
    requires
        state.status != AnalysisStatus::Error,
    ensures
        all_finished(state, ended).analyzed == state.analyzed,
        all_finished(state, ended).status == state.status || all_finished(state, ended).status
            == verdict(state),
        ended.len() > 0 && all_finished(state, ended).subprocesses.len() == 0 ==> all_finished(
            state,
            ended,
        ).status == verdict(state),
        forall|pid: Subprocess| #[trigger]
            all_finished(state, ended).subprocesses.contains(pid) ==> state.subprocesses.contains(
                pid,
            ) && !ended.contains(pid),
    decreases ended.len(),
{
    if ended.len() > 0 {
        let before = ended.drop_last();
        finishing_some(state, before);
        let earlier = all_finished(state, before);
        law_finishing(earlier, ended.last());
        let later = all_finished(state, ended);
        assert forall|pid: Subprocess| #[trigger]
            later.subprocesses.contains(pid) implies state.subprocesses.contains(pid)
            && !ended.contains(pid) by {
            earlier.subprocesses.lemma_filter_contains_rev(other_than(ended.last()), pid);
            assert(earlier.subprocesses.contains(pid));
            if ended.contains(pid) {
                let k = choose|k: int| 0 <= k < ended.len() && ended[k] == pid;
                if k < before.len() {
                    assert(before[k] == pid);
                    assert(before.contains(pid));
                }
            }
        }
    }
}

/// Once an analysis has started and all of its processes have ended, in
/// whatever order, none is left, the status is no longer "analyzing", and it
/// is "finished" exactly where something has been reported.
pub proof fn law_analysis_settles<I>(state: BackendView<I>, ended: Seq<Subprocess>)
    requires
        state.status == AnalysisStatus::Analyzing,
        ended.len() > 0,
        forall|i: int|
            0 <= i < state.subprocesses.len() ==> ended.contains(#[trigger] state.subprocesses[i]),
    ensures
        all_finished(state, ended).subprocesses.len() == 0,
        all_finished(state, ended).status == AnalysisStatus::Finished <==> has_report(
            state.analyzed,
        ),
        all_finished(state, ended).status == AnalysisStatus::Error <==> !has_report(state.analyzed),
{
    finishing_some(state, ended);
    let after = all_finished(state, ended);
    if after.subprocesses.len() > 0 {
        let pid = after.subprocesses[0];
        assert(after.subprocesses.contains(pid));
        assert(state.subprocesses.contains(pid));
        let i = choose|i: int| 0 <= i < state.subprocesses.len() && state.subprocesses[i] == pid;
        assert(ended.contains(state.subprocesses[i]));
    }
}

/// An abort on Unix stops each process that has an id, and no other; one that
/// follows stops nothing. Elsewhere an abort does nothing at all.
pub proof fn law_abort_stops_all<I>(state: BackendView<I>, platform: Platform)
    ensures
        platform == Platform::Unix ==> forall|pid: u32|
            state.subprocesses.contains(Some(pid)) <==> #[trigger] state.aborted_groups(
                platform,
            ).contains(pid as int),
        platform != Platform::Unix ==> state.aborted_groups(platform).len() == 0 && state.aborted(
            platform,
        ) == state,
        state.aborted_groups(platform).len() <= state.subprocesses.len(),
        state.aborted(platform).aborted_groups(platform).len() == 0,
        state.aborted(platform).aborted(platform) == state.aborted(platform),
        state.aborted(platform).can_abort(platform),
{
    groups_are_ids(state.subprocesses);
}

/// The groups are the process ids.
proof fn groups_are_ids(subprocesses: Seq<Subprocess>)
    ensures
        forall|pid: u32|
            subprocesses.contains(Some(pid)) <==> #[trigger] groups_of(subprocesses).contains(
                pid as int,
            ),
        groups_of(subprocesses).len() <= subprocesses.len(),
    decreases subprocesses.len(),
{
    if subprocesses.len() > 0 {
        let before = subprocesses.drop_last();
        groups_are_ids(before);
        let rest = groups_of(before);
        let all = groups_of(subprocesses);
        let skipped: int = if subprocesses.last() is Some {
            1
        } else {
            0
        };
        assert(all.len() == skipped + rest.len());
        assert forall|i: int| 0 <= i < rest.len() implies all[i + skipped] == #[trigger] rest[i] by {}
        assert forall|pid: u32|
            subprocesses.contains(Some(pid)) <==> #[trigger] all.contains(pid as int) by {
            if subprocesses.contains(Some(pid)) {
                let k = choose|k: int| 0 <= k < subprocesses.len() && subprocesses[k] == Some(pid);
                if k < before.len() {
                    assert(before[k] == Some(pid));
                    assert(before.contains(Some(pid)));
                    assert(rest.contains(pid as int));
                    let i = choose|i: int| 0 <= i < rest.len() && rest[i] == pid as int;
                    assert(all[i + skipped] == pid as int);
                } else {
                    assert(all[0] == pid as int);
                }
            }
            if all.contains(pid as int) {
                let i = choose|i: int| 0 <= i < all.len() && all[i] == pid as int;
                if i < skipped {
                    assert(subprocesses[subprocesses.len() - 1] == Some(pid));
                } else {
                    assert(rest[i - skipped] == pid as int);
                    assert(rest.contains(pid as int));
                    assert(before.contains(Some(pid)));
                    let k = choose|k: int| 0 <= k < before.len() && before[k] == Some(pid);
                    assert(subprocesses[k] == Some(pid));
                }
            }
        }
    }
}

// ---------------------------------------------------------------------------
// What is analyzed and what is shown
// ---------------------------------------------------------------------------

/// Reporting crates in two lots comes to the same as reporting them in one.
pub proof fn law_absorb_append<I, F: Fn(Crate<I>, Crate<I>) -> Crate<I>>(
    merge: F,
    before: Option<Crate<I>>,
    first: Seq<Crate<I>>,
    second: Seq<Crate<I>>,
    after: Option<Crate<I>>,
)
    ensures
        absorbs(merge, before, first + second, after) <==> exists|between: Option<Crate<I>>|
            absorbs(merge, before, first, between) && #[trigger] absorbs(
                merge,
                between,
                second,
                after,
            ),
{
    let step = absorb_step(merge);
    folds_append(step, before, first, second, after);
    if exists|between: Option<Crate<I>>|
        folds(step, before, first, between) && #[trigger] folds(step, between, second, after) {
        let between = choose|between: Option<Crate<I>>|
            folds(step, before, first, between) && #[trigger] folds(step, between, second, after);
        assert(absorbs(merge, before, first, between) && absorbs(merge, between, second, after));
    }
}

/// A report is never lost to further ones: something is known once anything
/// has been reported, and stays known.
pub proof fn law_absorb_keeps<I, F: Fn(Crate<I>, Crate<I>) -> Crate<I>>(
    merge: F,
    before: Option<Crate<I>>,
    krates: Seq<Crate<I>>,
    after: Option<Crate<I>>,
)
    requires
        absorbs(merge, before, krates, after),
    ensures
        after is Some <==> before is Some || krates.len() > 0,
        before is None && krates.len() == 1 ==> after == Some(krates[0]),
        krates.len() == 0 ==> after == before,
{
    if krates.len() > 0 {
        let step = absorb_step(merge);
        let between = choose|between: Option<Crate<I>>|
            folds(step, before, krates.drop_last(), between) && #[trigger] step(
                between,
                krates.last(),
                after,
            );
        if krates.len() == 1 {
            assert(krates.drop_last().len() == 0);
            assert(between == before);
        }
    }
}

/// Putting in a file keeps the names distinct, puts the file in, and leaves
/// the files of other names.
pub proof fn law_with_file<I>(
    before: Seq<FileView<I>>,
    file: FileView<I>,
    after: Seq<FileView<I>>,
)
    requires
        distinct_names(before),
        with_file(before, file, after),
    ensures
        distinct_names(after),
        after.contains(file),
        forall|other: FileView<I>|
            other.name != file.name ==> (before.contains(other) <==> #[trigger] after.contains(
                other,
            )),
{
    if exists|i: int| 0 <= i < before.len() && (#[trigger] before[i]).name == file.name {
        let i = choose|i: int|
            0 <= i < before.len() && (#[trigger] before[i]).name == file.name && after
                == before.update(i, file);
        assert(after[i] == file);
    } else {
        assert(after[before.len() as int] == file);
    }
    assert forall|other: FileView<I>| other.name != file.name implies (before.contains(other)
        <==> #[trigger] after.contains(other)) by {
        if before.contains(other) {
            let k = choose|k: int| 0 <= k < before.len() && before[k] == other;
            assert(after[k] == other);
        }
        if after.contains(other) {
            let k = choose|k: int| 0 <= k < after.len() && after[k] == other;
            assert(before[k] == other);
        }
    }
}

/// There are items at a path exactly where some file at the path has any.
pub proof fn law_items_at<I>(files: Seq<FileView<I>>, path: PathView)
    ensures
        items_at(files, path).len() > 0 <==> exists|i: int|
            0 <= i < files.len() && same_path((#[trigger] files[i]).path, path) && files[i].items.len() > 0,
    decreases files.len(),
{
    if files.len() > 0 {
        let before = files.drop_last();
        law_items_at(before, path);
        if items_at(before, path).len() > 0 {
            let i = choose|i: int|
                0 <= i < before.len() && same_path((#[trigger] before[i]).path, path)
                    && before[i].items.len() > 0;
            assert(files[i] == before[i]);
        }
        if exists|i: int|
            0 <= i < files.len() && same_path((#[trigger] files[i]).path, path) && files[i].items.len() > 0 {
            let i = choose|i: int|
                0 <= i < files.len() && same_path((#[trigger] files[i]).path, path)
                    && files[i].items.len() > 0;
            if i < before.len() {
                assert(before[i] == files[i]);
            }
        }
        if same_path(files.last().path, path) && files.last().items.len() > 0 {
            assert(same_path(files[files.len() - 1].path, path));
        }
    }
}

/// Whether `items` occur in `all`, in order and with nothing between them.
pub open spec fn occur_in<I>(items: Seq<I>, all: Seq<I>) -> bool {
    exists|left: Seq<I>, right: Seq<I>| all == #[trigger] left.add(items).add(right)
}

/// The items of a file are found at its path.
proof fn items_are_found<I>(files: Seq<FileView<I>>, i: int, path: PathView)
    requires
        0 <= i < files.len(),
        same_path(files[i].path, path),
    ensures
        occur_in(files[i].items, items_at(files, path)),
    decreases files.len(),
{
    let before = files.drop_last();
    let items = files[i].items;
    let all = items_at(files, path);
    if i < before.len() {
        items_are_found(before, i, path);
        let earlier = items_at(before, path);
        let (left, right) = choose|left: Seq<I>, right: Seq<I>|
            earlier == #[trigger] left.add(items).add(right);
        let more = all.skip(earlier.len() as int);
        assert(all =~= left.add(items).add(right + more));
    } else {
        assert(all =~= items_at(before, path).add(items).add(seq![]));
    }
}

/// A file that was put in is found: its items are among those at its path,
/// however the path is spelled.
pub proof fn law_inserted_file_is_found<I>(
    before: Seq<FileView<I>>,
    file: FileView<I>,
    after: Seq<FileView<I>>,
    path: PathView,
)
    requires
        distinct_names(before),
        with_file(before, file, after),
        same_path(file.path, path),
    ensures
        occur_in(file.items, items_at(after, path)),
{
    law_with_file(before, file, after);
    let i = choose|i: int| 0 <= i < after.len() && after[i] == file;
    items_are_found(after, i, path);
}

/// A file that was put in under a name is found under that name: where reading
/// the name as a path gives one path only, the items of the file are among those
/// at what the name is read as.
pub proof fn law_inserted_name_is_found<I>(
    before: Seq<FileView<I>>,
    name: Seq<char>,
    items: Seq<I>,
    after: Seq<FileView<I>>,
    path: PathView,
)
    requires
        distinct_names(before),
        reads_once(name),
        exists|at: PathView| #[trigger]
            reads_as(name, at) && with_file(before, FileView { name, path: at, items }, after),
        reads_as(name, path),
    ensures
        occur_in(items, items_at(after, path)),
{
    let at = choose|at: PathView| #[trigger]
        reads_as(name, at) && with_file(before, FileView { name, path: at, items }, after);
    law_inserted_file_is_found(before, FileView { name, path: at, items }, after, path);
}

/// The files at `path`.
pub open spec fn at_path<I>(path: PathView) -> spec_fn(FileView<I>) -> bool {
    |file: FileView<I>| same_path(file.path, path)
}

/// Only the files at the path matter to what is there.
proof fn items_of_filtered<I>(files: Seq<FileView<I>>, path: PathView)
    ensures
        items_at(files.filter(at_path(path)), path) == items_at(files, path),
    decreases files.len(),
{
    let at = at_path::<I>(path);
    if files.len() > 0 {
        let before = files.drop_last();
        items_of_filtered(before, path);
        assert(before.push(files.last()) =~= files);
        before.lemma_filter_push(files.last(), at);
        let kept = before.filter(at);
        if at(files.last()) {
            assert(kept.push(files.last()).drop_last() =~= kept);
        } else {
            assert(items_at(before, path) + Seq::<I>::empty() =~= items_at(before, path));
        }
    } else {
        files.lemma_filter_len(at);
        assert(files.filter(at) =~= files);
    }
}

/// Files at other paths make no difference: two analyses that agree on the files
/// at a path, whatever else they hold, have the same items and the same
/// decorations there.
pub proof fn law_other_files_do_not_matter<I, S, C, D, NS, VS, NC, VC, HO, DE>(
    one: Seq<FileView<I>>,
    other: Seq<FileView<I>>,
    path: PathView,
    position: Loc,
    passes: Passes<NS, VS, NC, VC, HO, DE>,
    result: Result<Vec<D>, AnalysisStatus>,
) where
    NS: Fn(Loc) -> S,
    VS: Fn(S, &I) -> S,
    NC: Fn(&S) -> C,
    VC: Fn(C, &I) -> C,
    HO: Fn(C) -> C,
    DE: Fn(C) -> Vec<D>,

    requires
        one.filter(at_path(path)) == other.filter(at_path(path)),
    ensures
        items_at(one, path) == items_at(other, path),
        decides::<I, S, C, D, NS, VS, NC, VC, HO, DE>(
            Some(one),
            path,
            position,
            passes,
            result,
        ) <==> decides::<I, S, C, D, NS, VS, NC, VC, HO, DE>(
            Some(other),
            path,
            position,
            passes,
            result,
        ),
{
    items_of_filtered(one, path);
    items_of_filtered(other, path);
}

/// The two analyses hold the same items at the same paths, whatever the names
/// under which the files were reported, and however the paths are spelled.
pub open spec fn same_but_names<I>(one: Seq<FileView<I>>, other: Seq<FileView<I>>) -> bool {
    one.len() == other.len() && forall|i: int|
        0 <= i < one.len() ==> same_path((#[trigger] one[i]).path, other[i].path) && one[i].items
            == other[i].items
}

/// The items do not depend on the names.
proof fn items_without_names<I>(
    one: Seq<FileView<I>>,
    other: Seq<FileView<I>>,
    path: PathView,
    same: PathView,
)
    requires
        same_but_names(one, other),
        same_path(path, same),
    ensures
        items_at(one, path) == items_at(other, same),
    decreases one.len(),
{
    if one.len() > 0 {
        let (a, b) = (one.drop_last(), other.drop_last());
        assert forall|i: int| 0 <= i < a.len() implies same_path((#[trigger] a[i]).path, b[i].path)
            && a[i].items == b[i].items by {
            assert(same_path(one[i].path, other[i].path));
        }
        items_without_names(a, b, path, same);
        assert(same_path(one[one.len() - 1].path, other[one.len() - 1].path));
    }
}

/// File names are compared as paths: neither the name under which a file was
/// reported, nor the spelling of a path, makes a difference to what is there.
pub proof fn law_names_do_not_matter<I, S, C, D, NS, VS, NC, VC, HO, DE>(
    one: Seq<FileView<I>>,
    other: Seq<FileView<I>>,
    path: PathView,
    same: PathView,
    position: Loc,
    passes: Passes<NS, VS, NC, VC, HO, DE>,
    result: Result<Vec<D>, AnalysisStatus>,
) where
    NS: Fn(Loc) -> S,
    VS: Fn(S, &I) -> S,
    NC: Fn(&S) -> C,
    VC: Fn(C, &I) -> C,
    HO: Fn(C) -> C,
    DE: Fn(C) -> Vec<D>,

    requires
        same_but_names(one, other),
        same_path(path, same),
    ensures
        items_at(one, path) == items_at(other, same),
        decides::<I, S, C, D, NS, VS, NC, VC, HO, DE>(
            Some(one),
            path,
            position,
            passes,
            result,
        ) <==> decides::<I, S, C, D, NS, VS, NC, VC, HO, DE>(
            Some(other),
            same,
            position,
            passes,
            result,
        ),
{
    items_without_names(one, other, path, same);
}

/// Where nothing is analyzed, as after a document has changed, nothing is
/// shown, and a status of "finished" is answered as an error.
pub proof fn law_nothing_shown_without_analysis<I, S, C, D, R, NS, VS, NC, VC, HO, DE, FR>(
    state: BackendView<I>,
    path: PathView,
    position: Loc,
    passes: Passes<NS, VS, NC, VC, HO, DE>,
    range: FR,
    text: &str,
    decos: Result<Vec<D>, AnalysisStatus>,
    shown: Seq<R>,
) where
    NS: Fn(Loc) -> S,
    VS: Fn(S, &I) -> S,
    NC: Fn(&S) -> C,
    VC: Fn(C, &I) -> C,
    HO: Fn(C) -> C,
    DE: Fn(C) -> Vec<D>,
    FR: Fn(D, &str) -> R,

    requires
        decides::<I, S, C, D, NS, VS, NC, VC, HO, DE>(
            state.discarded().files(),
            path,
            position,
            passes,
            decos,
        ),
        shows(decos, text, range, shown),
    ensures
        shown.len() == 0,
        state.status == AnalysisStatus::Finished ==> reply_status(state.discarded().status, decos)
            == AnalysisStatus::Error,
        state.status != AnalysisStatus::Finished ==> reply_status(state.discarded().status, decos)
            == state.status,
{
}

/// What a status in an answer means: decorations come with the status of the
/// analysis; while it runs or has failed, so does every answer; and
/// "finished" without decorations is answered only for a file in which items
/// were found.
pub proof fn law_answered_status<I, S, C, D, R, NS, VS, NC, VC, HO, DE, FR>(
    state: BackendView<I>,
    path: PathView,
    position: Loc,
    passes: Passes<NS, VS, NC, VC, HO, DE>,
    range: FR,
    text: &str,
    decos: Result<Vec<D>, AnalysisStatus>,
    shown: Seq<R>,
) where
    NS: Fn(Loc) -> S,
    VS: Fn(S, &I) -> S,
    NC: Fn(&S) -> C,
    VC: Fn(C, &I) -> C,
    HO: Fn(C) -> C,
    DE: Fn(C) -> Vec<D>,
    FR: Fn(D, &str) -> R,

    requires
        decides::<I, S, C, D, NS, VS, NC, VC, HO, DE>(
            state.files(),
            path,
            position,
            passes,
            decos,
        ),
        shows(decos, text, range, shown),
    ensures
        shown.len() > 0 ==> reply_status(state.status, decos) == state.status,
        state.status != AnalysisStatus::Finished ==> reply_status(state.status, decos)
            == state.status,
        reply_status(state.status, decos) == AnalysisStatus::Analyzing <==> state.status
            == AnalysisStatus::Analyzing,
        reply_status(state.status, decos) == AnalysisStatus::Finished && shown.len() == 0 ==> (
        state.files() matches Some(files) && exists|i: int|
            0 <= i < files.len() && same_path((#[trigger] files[i]).path, path)
                && files[i].items.len() > 0),
{
    match state.files() {
        Some(files) => {
            law_items_at(files, path);
        },
        None => {},
    }
}

/// Visiting the same items from the same start comes to the same end.
proof fn visits_agree<I, S, F: Fn(S, &I) -> S>(visit: F, start: S, items: Seq<I>, a: S, b: S)
    requires
        visits_once::<I, S, F>(visit),
        visits(visit, start, items, a),
        visits(visit, start, items, b),
    ensures
        a == b,
{
    let step = visit_step::<I, S, F>(visit);
    assert forall|state: S, item: I, x: S, y: S| #[trigger]
        step(state, item, x) && #[trigger] step(state, item, y) implies x == y by {
        assert(call_ensures(visit, (state, &item), x) && call_ensures(visit, (state, &item), y));
    }
    folds_agree(step, start, items, a, b);
}

/// Passes that are functions come to the same decorations.
proof fn passes_agree<I, S, C, D, NS, VS, NC, VC, HO, DE>(
    passes: Passes<NS, VS, NC, VC, HO, DE>,
    position: Loc,
    items: Seq<I>,
    a: Vec<D>,
    b: Vec<D>,
) where
    NS: Fn(Loc) -> S,
    VS: Fn(S, &I) -> S,
    NC: Fn(&S) -> C,
    VC: Fn(C, &I) -> C,
    HO: Fn(C) -> C,
    DE: Fn(C) -> Vec<D>,

    requires
        passes.are_functions::<I, S, C, D>(),
        passes.come_to::<I, S, C, D>(position, items, a),
        passes.come_to::<I, S, C, D>(position, items, b),
    ensures
        a@ == b@,
{
    let x = choose|x: Trail<S, C>| #[trigger] passes.leaves(position, items, x, a);
    let y = choose|y: Trail<S, C>| #[trigger] passes.leaves(position, items, y, b);
    assert(x.selection == y.selection);
    visits_agree(passes.visit_select, x.selection, items, x.selected, y.selected);
    assert(x.calculation == y.calculation);
    visits_agree(passes.visit_calc, x.calculation, items, x.calculated, y.calculated);
    assert(x.handled == y.handled);
}

/// Asking twice is answered the same: where nothing has happened in between, the
/// text is the same, and the parameters are functions of their arguments, two
/// answers to one request agree in all that they say.
pub proof fn law_answers_agree<I, S, C, D, R, FI, NS, VS, NC, VC, HO, DE, FR>(
    state: BackendView<I>,
    request: CursorRequest,
    text: Option<&str>,
    index: FI,
    passes: Passes<NS, VS, NC, VC, HO, DE>,
    range: FR,
    first: Decorations<R>,
    second: Decorations<R>,
) where
    FI: Fn(&str, u32, u32) -> u32,
    NS: Fn(Loc) -> S,
    VS: Fn(S, &I) -> S,
    NC: Fn(&S) -> C,
    VC: Fn(C, &I) -> C,
    HO: Fn(C) -> C,
    DE: Fn(C) -> Vec<D>,
    FR: Fn(D, &str) -> R,

    requires
        forall|text: &str, line: u32, character: u32, a: u32, b: u32| #[trigger]
            call_ensures(index, (text, line, character), a) && #[trigger] call_ensures(
                index,
                (text, line, character),
                b,
            ) ==> a == b,
        passes.are_functions::<I, S, C, D>(),
        forall|deco: D, text: &str, a: R, b: R| #[trigger]
            call_ensures(range, (deco, text), a) && #[trigger] call_ensures(range, (deco, text), b)
                ==> a == b,
        answers::<I, S, C, D, R, FI, NS, VS, NC, VC, HO, DE, FR>(
            state.files(),
            state.status,
            request,
            text,
            index,
            passes,
            range,
            first,
        ),
        answers::<I, S, C, D, R, FI, NS, VS, NC, VC, HO, DE, FR>(
            state.files(),
            state.status,
            request,
            text,
            index,
            passes,
            range,
            second,
        ),
    ensures
        first.is_analyzed == second.is_analyzed,
        first.status == second.status,
        match (first.path, second.path) {
            (Some(a), Some(b)) => a@ == b@,
            (None, None) => true,
            _ => false,
        },
        first.decorations@ == second.decorations@,
{
    match (request.path, text) {
        (Some(path), Some(known)) => {
            let files = state.files();
            let (p, x) = choose|p: u32, x: Result<Vec<D>, AnalysisStatus>|
                #[trigger] call_ensures(index, (known, request.line, request.character), p)
                    && #[trigger] decides::<I, S, C, D, NS, VS, NC, VC, HO, DE>(
                    files,
                    path@,
                    Loc(p),
                    passes,
                    x,
                ) && first.status == reply_status(state.status, x) && shows(
                    x,
                    known,
                    range,
                    first.decorations@,
                );
            let (q, y) = choose|q: u32, y: Result<Vec<D>, AnalysisStatus>|
                #[trigger] call_ensures(index, (known, request.line, request.character), q)
                    && #[trigger] decides::<I, S, C, D, NS, VS, NC, VC, HO, DE>(
                    files,
                    path@,
                    Loc(q),
                    passes,
                    y,
                ) && second.status == reply_status(state.status, y) && shows(
                    y,
                    known,
                    range,
                    second.decorations@,
                );
            assert(p == q);
            match files {
                Some(at) => {
                    let items = items_at(at, path@);
                    let a = choose|a: Vec<D>| #[trigger]
                        passes.come_to::<I, S, C, D>(Loc(p), items, a) && x
                            == crate::decoration::decos_outcome(items.len() > 0, a);
                    let b = choose|b: Vec<D>| #[trigger]
                        passes.come_to::<I, S, C, D>(Loc(p), items, b) && y
                            == crate::decoration::decos_outcome(items.len() > 0, b);
                    passes_agree(passes, Loc(p), items, a, b);
                },
                None => {},
            }
            assert(first.decorations@ =~= second.decorations@);
        },
        _ => {
            assert(first.decorations@ =~= second.decorations@);
        },
    }
}

/// All that runs for a root runs in the root and builds under its target, which
/// the cached result lies in too. Only a package that is known is cleaned, and it
/// is before it is checked.
pub proof fn law_root_run<I>(
    state: BackendView<I>,
    tools: Tools,
    root: RootView,
    metadata: Option<MetadataView>,
    all_targets: bool,
    all_features: bool,
    quiet: bool,
)
    ensures
        ({
            let run = state.root_run(tools, root, metadata, all_targets, all_features, quiet);
            let target = EnvVarView {
                name: "CARGO_TARGET_DIR"@,
                value: EnvValueView::Path(root.target),
            };
            &&& run.check.current_dir == Some(root.path)
            &&& run.check.env.contains(target)
            &&& run.clean is Some <==> run.progress.package_name is Some
            &&& run.clean matches Some(clean) ==> clean.current_dir == Some(root.path)
                && clean.env.contains(target)
            &&& run.cache.drop_last() == root.target
            &&& run.processes().last() == run.check
            &&& run.clean matches Some(clean) ==> run.processes() == seq![clean, run.check]
            &&& run.clean is None ==> run.processes() == seq![run.check]
        }),
{
    let run = state.root_run(tools, root, metadata, all_targets, all_features, quiet);
    assert(run.check.env[0].value == EnvValueView::Path(root.target));
    if run.clean is Some {
        assert(run.clean->0.env[0].value == EnvValueView::Path(root.target));
    }
    law_child_has_parent(root.target, "cache.json"@);
    match run.clean {
        Some(clean) => {
            assert(run.processes() =~= seq![clean, run.check]);
        },
        None => {
            assert(run.processes() =~= seq![run.check]);
        },
    }
}

// ---------------------------------------------------------------------------
// Progress
// ---------------------------------------------------------------------------

/// A percentage lies between 0 and 100, never falls as more is done, and is
/// 100 exactly where all is done.
pub proof fn law_percentage(done: nat, more: nat, total: nat)
    requires
        total > 0,
        done <= more,
    ensures
        0 <= percentage(done, total) <= 100,
        percentage(done, total) <= percentage(more, total),
        percentage(done, total) == 100 <==> done >= total,
        percentage(0, total) == 0,
{
    assert(done * 100 / total >= 0 && more * 100 / total >= done * 100 / total
        && (done * 100 / total >= 100 <==> done >= total)) by (nonlinear_arith)
        requires
            total > 0,
            done <= more,
    ;
    assert(0nat * 100 / total == 0) by (nonlinear_arith)
        requires
            total > 0,
    ;
}

/// How many of `messages` tell of a crate that was built.
pub open spec fn artifacts(messages: Seq<Option<CargoCheckMessage>>) -> nat
    decreases messages.len(),
{
    if messages.len() == 0 {
        0
    } else {
        artifacts(messages.drop_last()) + (if messages.last() == Some(
            CargoCheckMessage::CompilerArtifact,
        ) {
            1nat
        } else {
            0nat
        })
    }
}

/// The progress after all of `messages`, in order.
pub open spec fn after_messages(
    progress: ProgressView,
    messages: Seq<Option<CargoCheckMessage>>,
) -> ProgressView
    decreases messages.len(),
{
    if messages.len() == 0 {
        progress
    } else {
        after_messages(progress, messages.drop_last()).after(messages.last())
    }
}

/// Exactly the crates that were built are counted; what is checked, out of how
/// many, and whether it is reported, stays the same.
pub proof fn law_progress_counts_artifacts(
    progress: ProgressView,
    messages: Seq<Option<CargoCheckMessage>>,
)
    ensures
        after_messages(progress, messages) == (ProgressView {
            build_count: progress.build_count + artifacts(messages),
            ..progress
        }),
        artifacts(messages) <= messages.len(),
    decreases messages.len(),
{
    if messages.len() > 0 {
        law_progress_counts_artifacts(progress, messages.drop_last());
    }
}

} // verus!

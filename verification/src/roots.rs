//! The project roots that are watched, and how a file's root is looked for.

use crate::metadata::Metadata;
use crate::path::{child, lies_in, same_path, FilePath, PathView};
use vstd::prelude::*;

verus! {

/// A project root, and the directory that its analysis writes to.
#[derive(Debug)]
pub struct Root {
    pub path: FilePath,
    pub target: FilePath,
}

/// What a [`Root`] says.
pub struct RootView {
    pub path: PathView,
    pub target: PathView,
}

impl View for Root {
    type V = RootView;

    open spec fn view(&self) -> RootView {
        RootView { path: self.path@, target: self.target@ }
    }
}

impl Clone for Root {
    fn clone(&self) -> (copy: Root)
        ensures
            copy@ == self@,
    {
        Root { path: self.path.clone(), target: self.target.clone() }
    }
}

/// What the roots say, one by one.
pub open spec fn root_views(roots: Seq<Root>) -> Seq<RootView> {
    roots.map_values(|root: Root| root@)
}

/// Whether `path` is the path of one of `roots`.
pub open spec fn has_root(roots: Seq<RootView>, path: PathView) -> bool {
    exists|i: int| 0 <= i < roots.len() && same_path((#[trigger] roots[i]).path, path)
}

/// No path occurs twice.
pub open spec fn distinct_roots(roots: Seq<RootView>) -> bool {
    forall|i: int, j: int|
        0 <= i < j < roots.len() ==> !same_path(
            (#[trigger] roots[i]).path,
            (#[trigger] roots[j]).path,
        )
}

/// The roots after `root` was registered. A path that is known keeps what it
/// was registered with.
pub open spec fn with_root(roots: Seq<RootView>, root: RootView) -> Seq<RootView> {
    if has_root(roots, root.path) {
        roots
    } else {
        roots.push(root)
    }
}

/// The root that the metadata of a project stands for.
pub open spec fn root_of(metadata: crate::metadata::MetadataView) -> RootView {
    RootView {
        path: metadata.workspace_root,
        target: child(metadata.target_directory, "owl"@),
    }
}

/// The registered roots, no two of the same path.
#[derive(Debug)]
pub struct RootTable {
    roots: Vec<Root>,
}

impl View for RootTable {
    type V = Seq<RootView>;

    closed spec fn view(&self) -> Seq<RootView> {
        root_views(self.roots@)
    }
}

impl RootTable {
    #[verifier::type_invariant]
    spec fn well_formed(&self) -> bool {
        distinct_roots(root_views(self.roots@))
    }

    /// A table without roots.
    pub fn new() -> (table: RootTable)
        ensures
            table@ == Seq::<RootView>::empty(),
    {
        let table = RootTable { roots: Vec::new() };
        assert(table@ =~= Seq::<RootView>::empty());
        table
    }

    /// Whether `path` is registered.
    pub fn contains(&self, path: &FilePath) -> (known: bool)
        ensures
            known == has_root(self@, path@),
    {
        let mut i: usize = 0;
        while i < self.roots.len()
            invariant
                i <= self.roots@.len(),
                forall|k: int| 0 <= k < i ==> !same_path((#[trigger] self@[k]).path, path@),
            decreases self.roots@.len() - i,
        {
            assert(self@[i as int] == self.roots@[i as int]@);
            if self.roots[i].path.same(path) {
                return true;
            }
            i += 1;
        }
        false
    }

    /// Registers `root` where its path is not known yet.
    pub fn register(&mut self, root: Root)
        ensures
            final(self)@ == with_root(old(self)@, root@),
            has_root(final(self)@, root@.path),
            distinct_roots(final(self)@),
    {
        proof {
            use_type_invariant(&*self);
        }
        let ghost before = self@;
        let ghost said = root@;
        if !self.contains(&root.path) {
            let mut roots: Vec<Root> = Vec::new();
            std::mem::swap(&mut roots, &mut self.roots);
            roots.push(root);
            assert(root_views(roots@) =~= before.push(said));
            assert(before.push(said)[before.len() as int] == said);
            self.roots = roots;
        }
    }

    /// The registered roots.
    pub fn to_vec(&self) -> (roots: Vec<Root>)
        ensures
            root_views(roots@) == self@,
            distinct_roots(self@),
    {
        proof {
            use_type_invariant(self);
        }
        let mut roots: Vec<Root> = Vec::new();
        let mut i: usize = 0;
        while i < self.roots.len()
            invariant
                i <= self.roots@.len(),
                roots@.len() == i,
                forall|k: int| 0 <= k < i ==> (#[trigger] roots@[k])@ == self.roots@[k]@,
            decreases self.roots@.len() - i,
        {
            roots.push(self.roots[i].clone());
            i += 1;
        }
        assert(root_views(roots@) =~= self@);
        roots
    }
}

/// The directory in which the root of `path` is looked for: the path itself
/// where it is a directory, and else the directory that it lies in.
pub open spec fn search_dir(path: PathView, is_dir: bool) -> PathView {
    if is_dir {
        path
    } else {
        path.drop_last()
    }
}

/// How many of `workspaces` the directory `dir` lies in.
pub open spec fn covering(workspaces: Seq<PathView>, dir: PathView) -> nat {
    workspaces.filter(|workspace: PathView| lies_in(dir, workspace)).len()
}

/// A search for the root of a file: the directory to ask `cargo metadata` in,
/// and how often it may still be asked. It is asked once for each workspace
/// that covers the directory, until it answers.
#[derive(Debug)]
pub struct RootSearch {
    pub dir: FilePath,
    pub remaining: usize,
}

/// How a search goes on.
#[derive(Debug)]
pub enum SearchStep {
    /// Ask for the metadata in the directory of the search, and answer it.
    Query(RootSearch),
    /// The root is that of this project.
    Found(Metadata),
    /// No root covers the file.
    NotCovered,
}

/// How far a search is: it may still ask in a directory, so many times; the root
/// was found; or no root covers the file.
pub enum SearchState<M> {
    Query { dir: PathView, remaining: nat },
    Found(M),
    NotCovered,
}

/// The search that may ask in `dir`, `remaining` times.
pub open spec fn searching<M>(dir: PathView, remaining: nat) -> SearchState<M> {
    if remaining == 0 {
        SearchState::NotCovered
    } else {
        SearchState::Query { dir, remaining }
    }
}

/// The search after one more reply. A search that has ended stays as it is.
pub open spec fn after_reply<M>(state: SearchState<M>, reply: Option<M>) -> SearchState<M> {
    match state {
        SearchState::Query { dir, remaining } => match reply {
            Some(metadata) => SearchState::Found(metadata),
            None => searching(dir, (remaining - 1) as nat),
        },
        _ => state,
    }
}

/// The search after all of `replies`.
pub open spec fn after_replies<M>(
    dir: PathView,
    remaining: nat,
    replies: Seq<Option<M>>,
) -> SearchState<M>
    decreases replies.len(),
{
    if replies.len() == 0 {
        searching(dir, remaining)
    } else {
        after_reply(after_replies(dir, remaining, replies.drop_last()), replies.last())
    }
}

impl View for SearchStep {
    type V = SearchState<Metadata>;

    open spec fn view(&self) -> SearchState<Metadata> {
        match *self {
            SearchStep::Query(search) => SearchState::Query {
                dir: search.dir@,
                remaining: search.remaining as nat,
            },
            SearchStep::Found(metadata) => SearchState::Found(metadata),
            SearchStep::NotCovered => SearchState::NotCovered,
        }
    }
}

impl RootSearch {
    /// Goes on where the search may ask once more, and ends it where it may not.
    pub fn step(self) -> (step: SearchStep)
        ensures
            step@ == searching::<Metadata>(self.dir@, self.remaining as nat),
    {
        if self.remaining == 0 {
            SearchStep::NotCovered
        } else {
            SearchStep::Query(self)
        }
    }

    /// Goes on with an answer of `cargo metadata`, or without one where it failed.
    pub fn answer(self, reply: Option<Metadata>) -> (step: SearchStep)
        requires
            self.remaining > 0,
        ensures
            step@ == after_reply(
                SearchState::Query { dir: self.dir@, remaining: self.remaining as nat },
                reply,
            ),
    {
        match reply {
            Some(metadata) => SearchStep::Found(metadata),
            None => RootSearch { dir: self.dir, remaining: self.remaining - 1 }.step(),
        }
    }
}

} // verus!
